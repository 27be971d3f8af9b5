use rasm::assembler::{
    assemble, assembled, expand_globs, has_wildcard, object_path, resolve_pattern,
    CompileArtifact, CompileStep, Entry, Matching,
};
use rasm::cli::{ColorMode, Config, Explicit};
use rasm::error::{BuildError, ErrorKind, Tool};
use rasm::tool::{Invocation, ToolRun};

fn config_with(dry_run: bool) -> Config {
    Config {
        input_files: vec![],
        output_file: "test.out".to_string(),
        extra_flags: vec![],
        assembler: "as".to_string(),
        assembler_flags: vec![],
        target: "x86_64".to_string(),
        verbose: false,
        dry_run,
        clean: false,
        watch: false,
        color: ColorMode::Auto,
        config_file: None,
        explicit: Explicit::none(),
    }
}

fn paths(names: &[&str]) -> Matching {
    Matching::Entries(names.iter().map(|n| Entry::Path(n.to_string())).collect())
}

fn strings(names: &[&str]) -> Vec<String> {
    names.iter().map(|n| n.to_string()).collect()
}

fn done(step: CompileStep) -> CompileArtifact {
    match step {
        CompileStep::Done { artifact } => artifact,
        other => panic!("a command is to be run: {:?}", other),
    }
}

fn run(step: CompileStep) -> (Invocation, CompileArtifact) {
    match step {
        CompileStep::Run { command, artifact } => (command, artifact),
        other => panic!("nothing is to be run: {:?}", other),
    }
}

#[test]
fn test_expand_globs_no_patterns() {
    let inputs = vec!["file1.s".to_string(), "file2.s".to_string()];
    let result = expand_globs(&inputs).unwrap();
    assert_eq!(result, inputs);
}

#[test]
fn test_expand_globs_invalid_pattern() {
    let inputs = vec!["nonexistent*.s".to_string()];
    let result = expand_globs(&inputs);
    assert!(result.is_err());
}

#[test]
fn test_assemble_rejects_glob_pattern() {
    let config = config_with(false);

    let result = assemble("*.s", &config);
    assert!(result.is_err());
    assert!(result.unwrap_err().message().contains("Glob patterns"));
}

#[test]
fn test_assemble_dry_run() {
    let config = config_with(true);

    let result = assemble("test.s", &config);
    assert!(result.is_ok());
    assert_eq!(done(result.unwrap()).object(), "test.s.o");
}

#[test]
fn expand_globs_keeps_literals_that_do_not_exist() {
    let inputs = strings(&["no/such/dir/a.s", "b.asm", "no/such/dir/a.s"]);
    assert_eq!(expand_globs(&inputs), Ok(inputs.clone()));
    assert_eq!(expand_globs(&vec![]), Ok(vec![]));
}

#[test]
fn expand_globs_names_the_pattern_without_match() {
    let inputs = strings(&["a.s", "nonexistent*.s", "other?.s"]);
    assert_eq!(
        expand_globs(&inputs),
        Err(BuildError::NoMatch { pattern: "nonexistent*.s".to_string() })
    );
    let inputs = strings(&["no-such-file-[0-9].s"]);
    let error = expand_globs(&inputs).unwrap_err();
    assert_eq!(error.kind(), ErrorKind::Resolution);
    assert_eq!(error.message(), "No files match pattern: no-such-file-[0-9].s");
}

#[test]
fn expand_globs_reports_a_malformed_pattern() {
    let inputs = strings(&["a**b.s"]);
    match expand_globs(&inputs) {
        Err(BuildError::BadPattern { pattern, detail }) => {
            assert_eq!(pattern, "a**b.s");
            assert!(!detail.is_empty());
        }
        other => panic!("unexpected: {:?}", other),
    }
}

#[test]
fn expand_globs_matches_the_file_system_in_sorted_order() {
    let inputs = strings(&["first.s", "/dev/std*", "last.s", "/dev/nul[l]"]);
    assert_eq!(
        expand_globs(&inputs),
        Ok(strings(&["first.s", "/dev/stderr", "/dev/stdin", "/dev/stdout", "last.s", "/dev/null"]))
    );
}

#[test]
fn has_wildcard_knows_the_three_metacharacters() {
    assert!(has_wildcard("*.s"));
    assert!(has_wildcard("a?.s"));
    assert!(has_wildcard("a[12].s"));
    assert!(!has_wildcard("plain.s"));
    assert!(!has_wildcard("a]{b}.s"));
    assert!(!has_wildcard(""));
}

#[test]
fn resolve_pattern_sorts_its_matches() {
    let found = paths(&["src/z.s", "src/a.s", "src/m.s", "src/a.s", "src/B.s", "src/a"]);
    assert_eq!(
        resolve_pattern("src/*", found),
        Ok(strings(&["src/B.s", "src/a", "src/a.s", "src/a.s", "src/m.s", "src/z.s"]))
    );
    assert_eq!(resolve_pattern("*.s", paths(&["only.s"])), Ok(strings(&["only.s"])));
}

#[test]
fn resolve_pattern_orders_by_character() {
    let found = paths(&["a/x", "a-b/y", "é.s", "z.s", "ab", "a"]);
    assert_eq!(
        resolve_pattern("*", found),
        Ok(strings(&["a", "a-b/y", "a/x", "ab", "z.s", "é.s"]))
    );
}

#[test]
fn resolve_pattern_fails_without_a_match() {
    assert_eq!(
        resolve_pattern("*.s", Matching::Entries(vec![])),
        Err(BuildError::NoMatch { pattern: "*.s".to_string() })
    );
}

#[test]
fn resolve_pattern_passes_on_a_malformed_pattern() {
    let outcome = Matching::BadPattern { detail: "wildcards".to_string() };
    let error = resolve_pattern("a***", outcome).unwrap_err();
    assert_eq!(
        error,
        BuildError::BadPattern { pattern: "a***".to_string(), detail: "wildcards".to_string() }
    );
    assert_eq!(error.kind(), ErrorKind::Resolution);
    assert_eq!(error.message(), "Invalid pattern a***: wildcards");
}

#[test]
fn resolve_pattern_reports_the_first_unreadable_directory() {
    let outcome = Matching::Entries(vec![
        Entry::Path("b.s".to_string()),
        Entry::Unreadable { detail: "first".to_string() },
        Entry::Path("a.s".to_string()),
        Entry::Unreadable { detail: "second".to_string() },
    ]);
    let error = resolve_pattern("*/*.s", outcome).unwrap_err();
    assert_eq!(error, BuildError::Io { detail: "first".to_string() });
    assert_eq!(error.kind(), ErrorKind::Io);
    assert_eq!(error.message(), "I/O failure: first");
}

#[test]
fn object_path_appends_the_suffix() {
    assert_eq!(object_path("foo.s"), "foo.s.o");
    assert_eq!(object_path("dir/bar.asm"), "dir/bar.asm.o");
    assert_eq!(object_path(""), ".o");
}

#[test]
fn assemble_dry_run_pairs_input_and_object() {
    let artifact = done(assemble("dir/foo.s", &config_with(true)).unwrap());
    assert_eq!(artifact.input(), "dir/foo.s");
    assert_eq!(artifact.object(), "dir/foo.s.o");
    assert_eq!(artifact.clone(), artifact);
}

#[test]
fn assemble_builds_the_assembler_command() {
    let mut config = config_with(false);
    config.assembler = "nasm".to_string();
    config.assembler_flags = strings(&["-g", "-felf64"]);
    let (command, artifact) = run(assemble("dir/foo.s", &config).unwrap());
    assert_eq!(
        command,
        Invocation {
            program: "nasm".to_string(),
            args: strings(&["dir/foo.s", "-o", "dir/foo.s.o", "-g", "-felf64"]),
        }
    );
    assert_eq!(artifact.input(), "dir/foo.s");
    assert_eq!(artifact.object(), "dir/foo.s.o");
}

#[test]
fn assemble_refuses_a_star_even_in_a_dry_run() {
    let config = config_with(true);
    let error = assemble("src/*.s", &config).unwrap_err();
    assert_eq!(error, BuildError::Unexpanded { input: "src/*.s".to_string() });
    assert_eq!(error.kind(), ErrorKind::Resolution);
    assert_eq!(
        error.message(),
        "Glob patterns should be expanded before calling assemble. Got: src/*.s"
    );
}

#[test]
fn assemble_takes_other_metacharacters_literally() {
    let config = config_with(true);
    assert_eq!(done(assemble("a?[b].s", &config).unwrap()).object(), "a?[b].s.o");
}

#[test]
fn assembled_judges_by_exit_status() {
    let artifact = || done(assemble("a.s", &config_with(true)).unwrap());
    let ok = ToolRun::Exited {
        success: true,
        stdout: String::new(),
        stderr: "warning: ignored".to_string(),
    };
    assert_eq!(assembled(artifact(), &ok), Ok(artifact()));
    let bad = ToolRun::Exited {
        success: false,
        stdout: "out".to_string(),
        stderr: "a.s:1: Error: no such instruction".to_string(),
    };
    let error = assembled(artifact(), &bad).unwrap_err();
    assert_eq!(
        error,
        BuildError::Tool {
            tool: Tool::Assembler,
            stderr: "a.s:1: Error: no such instruction".to_string(),
        }
    );
    assert_eq!(error.kind(), ErrorKind::Tool);
    assert_eq!(error.message(), "Assembler failed:\na.s:1: Error: no such instruction");
    let missing = ToolRun::NotStarted { detail: "No such file or directory".to_string() };
    assert_eq!(
        assembled(artifact(), &missing),
        Err(BuildError::Io { detail: "No such file or directory".to_string() })
    );
}

#[test]
fn resolve_pattern_ignores_the_order_of_discovery() {
    let one = resolve_pattern("*", paths(&["c", "a", "b", "a"]));
    let other = resolve_pattern("*", paths(&["a", "b", "a", "c"]));
    assert_eq!(one, other);
    assert_eq!(one, Ok(strings(&["a", "a", "b", "c"])));
}
