use rasm::clean::{
    clean_files, clean_targets, removal_notice, Notice, Removal, Severity, TargetKind,
};
use rasm::cli::{ColorMode, Config, Explicit};

fn strings(names: &[&str]) -> Vec<String> {
    names.iter().map(|n| n.to_string()).collect()
}

fn config(inputs: &[&str]) -> Config {
    Config {
        input_files: strings(inputs),
        output_file: "prog".to_string(),
        extra_flags: vec![],
        assembler: "as".to_string(),
        assembler_flags: vec![],
        target: "x86_64".to_string(),
        verbose: false,
        dry_run: false,
        clean: true,
        watch: false,
        color: ColorMode::Auto,
        config_file: None,
        explicit: Explicit::none(),
    }
}

fn notice(severity: Severity, text: &str) -> Notice {
    Notice { severity, text: text.to_string() }
}

#[test]
fn clean_targets_are_the_objects_and_then_the_output() {
    assert_eq!(
        clean_targets(&config(&["a.s", "dir/b.asm"])),
        strings(&["a.s.o", "dir/b.asm.o", "prog"])
    );
    assert_eq!(clean_targets(&config(&[])), strings(&["prog"]));
}

#[test]
fn clean_targets_take_patterns_literally() {
    assert_eq!(
        clean_targets(&config(&["src/*.s", "a.s", "a.s"])),
        strings(&["src/*.s.o", "a.s.o", "a.s.o", "prog"])
    );
}

#[test]
fn clean_reports_each_removal_on_its_own() {
    let removals = vec![
        Removal::Removed,
        Removal::Failed { detail: "Permission denied".to_string() },
        Removal::Missing,
        Removal::Removed,
    ];
    assert_eq!(
        clean_files(&config(&["a.s", "b.s", "c.s"]), &removals),
        vec![
            notice(Severity::Info, "Removed object file: a.s.o"),
            notice(Severity::Warning, "Failed to remove object file b.s.o: Permission denied"),
            notice(Severity::Debug, "Object file not found (already cleaned): c.s.o"),
            notice(Severity::Info, "Removed output binary: prog"),
        ]
    );
}

#[test]
fn clean_twice_is_quiet_the_second_time() {
    let config = config(&["a.s", "b.s"]);
    let first = clean_files(&config, &vec![Removal::Removed, Removal::Removed, Removal::Removed]);
    assert!(first.iter().all(|n| n.severity == Severity::Info));
    let second = clean_files(&config, &vec![Removal::Missing, Removal::Missing, Removal::Missing]);
    assert_eq!(
        second,
        vec![
            notice(Severity::Debug, "Object file not found (already cleaned): a.s.o"),
            notice(Severity::Debug, "Object file not found (already cleaned): b.s.o"),
            notice(Severity::Debug, "Output file not found (already cleaned): prog"),
        ]
    );
}

#[test]
fn clean_reports_a_failure_on_the_output_as_a_warning() {
    let removals = vec![Removal::Missing, Removal::Failed { detail: "Is a directory".to_string() }];
    assert_eq!(
        clean_files(&config(&["a.s"]), &removals),
        vec![
            notice(Severity::Debug, "Object file not found (already cleaned): a.s.o"),
            notice(Severity::Warning, "Failed to remove output file prog: Is a directory"),
        ]
    );
}

#[test]
fn clean_reports_only_what_was_attempted() {
    let config = config(&["a.s", "b.s"]);
    assert_eq!(clean_files(&config, &vec![]), vec![]);
    assert_eq!(
        clean_files(&config, &vec![Removal::Removed]),
        vec![notice(Severity::Info, "Removed object file: a.s.o")]
    );
    let many = vec![
        Removal::Missing,
        Removal::Missing,
        Removal::Missing,
        Removal::Removed,
        Removal::Removed,
    ];
    assert_eq!(clean_files(&config, &many).len(), 3);
}

#[test]
fn removal_notice_tells_objects_from_the_output() {
    assert_eq!(
        removal_notice(TargetKind::Object, "x.o", &Removal::Removed),
        notice(Severity::Info, "Removed object file: x.o")
    );
    assert_eq!(
        removal_notice(TargetKind::Output, "x", &Removal::Removed),
        notice(Severity::Info, "Removed output binary: x")
    );
    assert_eq!(
        removal_notice(TargetKind::Output, "x", &Removal::Missing),
        notice(Severity::Debug, "Output file not found (already cleaned): x")
    );
}
