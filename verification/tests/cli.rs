use rasm::cli::{default_target, ColorMode, Config, Explicit, Mode};
use rasm::error::ConfigError;
use rasm::tool::Platform;

fn create_test_config() -> Config {
    Config {
        input_files: vec!["test.s".to_string()],
        output_file: "test.out".to_string(),
        extra_flags: vec![],
        assembler: "as".to_string(),
        assembler_flags: vec![],
        target: "x86_64".to_string(),
        verbose: false,
        dry_run: false,
        clean: false,
        watch: false,
        color: ColorMode::Auto,
        config_file: None,
        explicit: Explicit::none(),
    }
}

#[test]
fn test_validate_valid_config() {
    let config = create_test_config();
    assert!(config.validate().is_ok());
}

#[test]
fn test_validate_empty_input_files() {
    let mut config = create_test_config();
    config.input_files = vec![];
    assert!(config.validate().is_err());
}

#[test]
fn test_validate_empty_output_file() {
    let mut config = create_test_config();
    config.output_file = String::new();
    assert!(config.validate().is_err());
}

#[test]
fn test_validate_path_traversal_input() {
    let mut config = create_test_config();
    config.input_files = vec!["../evil.s".to_string()];
    assert!(config.validate().is_err());
}

#[test]
fn test_validate_path_traversal_output() {
    let mut config = create_test_config();
    config.output_file = "../evil.out".to_string();
    assert!(config.validate().is_err());
}

#[test]
fn test_merge_configs() {
    let mut config1 = create_test_config();
    let mut config2 = create_test_config();

    config2.input_files = vec!["new.s".to_string()];
    config2.verbose = true;

    config1.merge(config2);

    assert_eq!(config1.input_files, vec!["new.s".to_string()]);
    assert!(config1.verbose);
}

#[test]
fn test_default_target() {
    assert_eq!(default_target(Platform::MacOs), "arm64");
    assert_eq!(default_target(Platform::Other), "x86_64");
}

#[test]
fn validate_names_each_problem() {
    let mut config = create_test_config();
    config.input_files = vec![];
    config.output_file = String::new();
    assert_eq!(config.validate(), Err(ConfigError::NoInputFiles));

    let mut config = create_test_config();
    config.output_file = String::new();
    config.assembler = String::new();
    assert_eq!(config.validate(), Err(ConfigError::NoOutputFile));

    let mut config = create_test_config();
    config.assembler = String::new();
    config.input_files = vec!["../evil.s".to_string()];
    assert_eq!(config.validate(), Err(ConfigError::NoAssembler));

    let mut config = create_test_config();
    config.input_files = vec!["a.s".to_string(), "../evil.s".to_string(), "b/../c.s".to_string()];
    config.output_file = "../evil.out".to_string();
    assert_eq!(
        config.validate(),
        Err(ConfigError::InputTraversal("../evil.s".to_string()))
    );

    let mut config = create_test_config();
    config.output_file = "../evil.out".to_string();
    assert_eq!(
        config.validate(),
        Err(ConfigError::OutputTraversal("../evil.out".to_string()))
    );
}

#[test]
fn validate_messages_name_the_path() {
    assert_eq!(ConfigError::NoInputFiles.message(), "No input files specified");
    assert_eq!(ConfigError::NoOutputFile.message(), "Output file must be specified");
    assert_eq!(ConfigError::NoAssembler.message(), "Assembler command cannot be empty");
    assert_eq!(
        ConfigError::InputTraversal("../evil.s".to_string()).message(),
        "Input file paths cannot contain '..': ../evil.s"
    );
    assert_eq!(
        ConfigError::OutputTraversal("../evil.out".to_string()).message(),
        "Output file path cannot contain '..': ../evil.out"
    );
}

#[test]
fn validate_accepts_single_dots() {
    let mut config = create_test_config();
    config.input_files = vec!["./a.s".to_string(), "dir.d/b.s".to_string(), ".".to_string()];
    config.output_file = "./out.bin".to_string();
    assert_eq!(config.validate(), Ok(()));
}

#[test]
fn validate_accepts_dots_inside_a_name() {
    let mut config = create_test_config();
    config.input_files = vec![
        "a..b.s".to_string(),
        "a..s".to_string(),
        "...".to_string(),
        "..a/b.s".to_string(),
        "dir/a...s".to_string(),
        "dir../b.s".to_string(),
    ];
    config.output_file = "out..bin".to_string();
    assert_eq!(config.validate(), Ok(()));
}

#[test]
fn validate_rejects_a_parent_segment_anywhere() {
    for path in ["..", "../evil.s", "a/../b.s", "a/..", "a..b/../c.s", "/.."] {
        let mut config = create_test_config();
        config.input_files = vec!["ok.s".to_string(), path.to_string()];
        assert_eq!(config.validate(), Err(ConfigError::InputTraversal(path.to_string())));
        let mut config = create_test_config();
        config.output_file = path.to_string();
        assert_eq!(config.validate(), Err(ConfigError::OutputTraversal(path.to_string())));
    }
}

#[test]
fn merge_flags_are_or_ed() {
    let mut cli = create_test_config();
    let mut file = create_test_config();
    cli.verbose = false;
    file.verbose = true;
    file.watch = true;
    cli.dry_run = true;
    cli.merge(file);
    assert!(cli.verbose);
    assert!(cli.watch);
    assert!(cli.dry_run);
    assert!(!cli.clean);
}

#[test]
fn merge_explicit_command_line_list_wins() {
    let mut cli = create_test_config();
    cli.input_files = vec!["x.s".to_string()];
    cli.explicit.input_files = true;
    let mut file = create_test_config();
    file.input_files = vec!["y.s".to_string()];
    cli.merge(file);
    assert_eq!(cli.input_files, vec!["x.s".to_string()]);
}

#[test]
fn merge_file_list_fills_in_for_absent_command_line_list() {
    let mut cli = create_test_config();
    cli.input_files = vec![];
    let mut file = create_test_config();
    file.input_files = vec!["y.s".to_string()];
    cli.merge(file);
    assert_eq!(cli.input_files, vec!["y.s".to_string()]);
}

#[test]
fn merge_empty_file_list_replaces_nothing() {
    let mut cli = create_test_config();
    cli.extra_flags = vec!["-static".to_string()];
    let mut file = create_test_config();
    file.extra_flags = vec![];
    file.input_files = vec![];
    file.output_file = String::new();
    cli.merge(file);
    assert_eq!(cli.extra_flags, vec!["-static".to_string()]);
    assert_eq!(cli.input_files, vec!["test.s".to_string()]);
    assert_eq!(cli.output_file, "test.out");
}

#[test]
fn merge_scalars_go_by_presence() {
    let mut cli = create_test_config();
    cli.assembler = "gas".to_string();
    cli.explicit.assembler = true;
    cli.output_file = "mine.out".to_string();
    cli.explicit.output_file = true;
    let mut file = create_test_config();
    file.assembler = "nasm".to_string();
    file.explicit.assembler = true;
    file.target = "riscv64".to_string();
    file.explicit.target = true;
    file.color = ColorMode::Never;
    file.explicit.color = true;
    file.output_file = "theirs.out".to_string();
    cli.merge(file);
    assert_eq!(cli.assembler, "gas");
    assert_eq!(cli.output_file, "mine.out");
    assert_eq!(cli.target, "riscv64");
    assert_eq!(cli.color, ColorMode::Never);
}

#[test]
fn merge_keeps_an_explicit_default() {
    let mut cli = create_test_config();
    cli.assembler = "as".to_string();
    cli.explicit.assembler = true;
    let mut file = create_test_config();
    file.assembler = "nasm".to_string();
    file.explicit.assembler = true;
    cli.merge(file);
    assert_eq!(cli.assembler, "as");
}

#[test]
fn merge_ignores_what_the_file_left_at_its_default() {
    let mut cli = create_test_config();
    cli.target = "x86_64".to_string();
    let mut file = create_test_config();
    file.target = "arm64".to_string();
    file.explicit.target = false;
    cli.merge(file);
    assert_eq!(cli.target, "x86_64");
}

#[test]
fn merge_leaves_provenance_and_path_alone() {
    let mut cli = create_test_config();
    cli.config_file = Some("build.toml".to_string());
    cli.explicit.target = true;
    let mut file = create_test_config();
    file.config_file = Some("other.toml".to_string());
    file.explicit.color = true;
    cli.merge(file);
    assert_eq!(cli.config_file, Some("build.toml".to_string()));
    assert!(cli.explicit.target);
    assert!(!cli.explicit.color);
}

#[test]
fn mode_prefers_watch_then_clean() {
    let mut config = create_test_config();
    assert_eq!(config.mode(), Mode::Build);
    config.clean = true;
    assert_eq!(config.mode(), Mode::Clean);
    config.watch = true;
    assert_eq!(config.mode(), Mode::Watch);
    config.clean = false;
    assert_eq!(config.mode(), Mode::Watch);
}

#[test]
fn color_mode_names_and_terminal() {
    assert_eq!(ColorMode::from_name("always"), ColorMode::Always);
    assert_eq!(ColorMode::from_name("never"), ColorMode::Never);
    assert_eq!(ColorMode::from_name("auto"), ColorMode::Auto);
    assert_eq!(ColorMode::from_name("sometimes"), ColorMode::Auto);
    assert_eq!(ColorMode::from_name(""), ColorMode::Auto);
    assert!(ColorMode::Always.enabled(false));
    assert!(!ColorMode::Never.enabled(true));
    assert!(ColorMode::Auto.enabled(true));
    assert!(!ColorMode::Auto.enabled(false));
}

#[test]
fn config_clone_is_equal() {
    let mut config = create_test_config();
    config.assembler_flags = vec!["-g".to_string()];
    config.config_file = Some("rasm.toml".to_string());
    assert_eq!(config.clone(), config);
}
