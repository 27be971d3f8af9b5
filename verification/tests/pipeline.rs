use rasm::assembler::CompileArtifact;
use rasm::cli::{ColorMode, Config, Explicit};
use rasm::error::{BuildError, Tool};
use rasm::linker::LinkStep;
use rasm::pipeline::{build_project, object_files, Action, Job, Pipeline, Progress};
use rasm::tool::{Invocation, Platform, ToolRun};

fn strings(names: &[&str]) -> Vec<String> {
    names.iter().map(|n| n.to_string()).collect()
}

fn config(inputs: &[&str], dry_run: bool) -> Config {
    Config {
        input_files: strings(inputs),
        output_file: "prog".to_string(),
        extra_flags: vec![],
        assembler: "as".to_string(),
        assembler_flags: strings(&["-g"]),
        target: "x86_64".to_string(),
        verbose: false,
        dry_run,
        clean: false,
        watch: false,
        color: ColorMode::Auto,
        config_file: None,
        explicit: Explicit::none(),
    }
}

fn ok() -> ToolRun {
    ToolRun::Exited { success: true, stdout: String::new(), stderr: String::new() }
}

fn failed(stderr: &str) -> ToolRun {
    ToolRun::Exited { success: false, stdout: String::new(), stderr: stderr.to_string() }
}

fn ready(progress: Progress) -> Vec<CompileArtifact> {
    match progress {
        Progress::Ready { artifacts } => artifacts,
        other => panic!("not ready: {:?}", other),
    }
}

fn link_command(objects: &[&str]) -> Action {
    let mut args = strings(objects);
    args.push("-o".to_string());
    args.push("prog".to_string());
    Action::Link(LinkStep::Run { command: Invocation { program: "ld".to_string(), args } })
}

fn three() -> (Config, Pipeline) {
    let config = config(&["a.s", "b.s", "c.s"], false);
    let pipeline = Pipeline::start(&config.input_files, &config).unwrap();
    (config, pipeline)
}

#[test]
fn jobs_follow_the_resolved_inputs() {
    let (_, pipeline) = three();
    assert_eq!(
        pipeline.jobs(),
        vec![
            Job {
                index: 0,
                command: Invocation {
                    program: "as".to_string(),
                    args: strings(&["a.s", "-o", "a.s.o", "-g"]),
                },
            },
            Job {
                index: 1,
                command: Invocation {
                    program: "as".to_string(),
                    args: strings(&["b.s", "-o", "b.s.o", "-g"]),
                },
            },
            Job {
                index: 2,
                command: Invocation {
                    program: "as".to_string(),
                    args: strings(&["c.s", "-o", "c.s.o", "-g"]),
                },
            },
        ]
    );
    assert_eq!(pipeline.progress(), Progress::Waiting);
}

#[test]
fn artifacts_are_collected_in_resolver_order_whatever_the_completion_order() {
    let orders: [[usize; 3]; 6] =
        [[0, 1, 2], [0, 2, 1], [1, 0, 2], [1, 2, 0], [2, 0, 1], [2, 1, 0]];
    for order in orders {
        let (config, mut pipeline) = three();
        for (done, index) in order.iter().enumerate() {
            assert_eq!(pipeline.progress(), Progress::Waiting, "{:?} after {}", order, done);
            assert_eq!(pipeline.action(&config, Platform::Other, None), Action::Wait);
            pipeline.completed(*index, &ok());
        }
        let artifacts = ready(pipeline.progress());
        assert_eq!(object_files(&artifacts), strings(&["a.s.o", "b.s.o", "c.s.o"]));
        let inputs: Vec<&str> = artifacts.iter().map(|a| a.input()).collect();
        assert_eq!(inputs, vec!["a.s", "b.s", "c.s"]);
        assert_eq!(
            pipeline.action(&config, Platform::Other, None),
            link_command(&["a.s.o", "b.s.o", "c.s.o"])
        );
    }
}

#[test]
fn a_failed_compile_task_is_reported_and_nothing_is_linked() {
    let (config, mut pipeline) = three();
    pipeline.completed(0, &ok());
    pipeline.completed(1, &failed("b.s:3: Error: bad register"));
    let expected = BuildError::Tool {
        tool: Tool::Assembler,
        stderr: "b.s:3: Error: bad register".to_string(),
    };
    assert_eq!(pipeline.progress(), Progress::Failed(expected.clone()));
    assert_eq!(
        pipeline.action(&config, Platform::Other, None),
        Action::Abort(expected.clone())
    );
    pipeline.completed(2, &ok());
    assert_eq!(pipeline.progress(), Progress::Failed(expected.clone()));
    assert_eq!(pipeline.action(&config, Platform::Other, None), Action::Abort(expected));
}

#[test]
fn the_failure_is_reported_in_every_completion_order() {
    let orders: [[usize; 3]; 6] =
        [[0, 1, 2], [0, 2, 1], [1, 0, 2], [1, 2, 0], [2, 0, 1], [2, 1, 0]];
    for order in orders {
        let (config, mut pipeline) = three();
        for index in order {
            let run = if index == 1 { failed("second") } else { ok() };
            pipeline.completed(index, &run);
        }
        let expected = BuildError::Tool { tool: Tool::Assembler, stderr: "second".to_string() };
        assert_eq!(pipeline.progress(), Progress::Failed(expected.clone()), "{:?}", order);
        assert_eq!(pipeline.action(&config, Platform::MacOs, None), Action::Abort(expected));
    }
}

#[test]
fn the_first_failure_reported_is_kept() {
    let (_, mut pipeline) = three();
    pipeline.completed(2, &failed("third"));
    pipeline.completed(0, &failed("first"));
    pipeline.completed(1, &ToolRun::NotStarted { detail: "gone".to_string() });
    assert_eq!(
        pipeline.progress(),
        Progress::Failed(BuildError::Tool { tool: Tool::Assembler, stderr: "third".to_string() })
    );
}

#[test]
fn an_assembler_that_does_not_start_fails_the_attempt() {
    let (_, mut pipeline) = three();
    pipeline.completed(0, &ToolRun::NotStarted { detail: "as: not found".to_string() });
    assert_eq!(
        pipeline.progress(),
        Progress::Failed(BuildError::Io { detail: "as: not found".to_string() })
    );
}

#[test]
fn stray_reports_are_discarded() {
    let (_, mut pipeline) = three();
    pipeline.completed(3, &failed("no such task"));
    pipeline.completed(usize::MAX, &failed("no such task"));
    assert_eq!(pipeline.progress(), Progress::Waiting);
    pipeline.completed(0, &ok());
    pipeline.completed(0, &failed("reported twice"));
    assert_eq!(pipeline.progress(), Progress::Waiting);
    pipeline.completed(1, &ok());
    pipeline.completed(2, &ok());
    assert_eq!(object_files(&ready(pipeline.progress())), strings(&["a.s.o", "b.s.o", "c.s.o"]));
    pipeline.completed(1, &failed("too late"));
    assert_eq!(object_files(&ready(pipeline.progress())), strings(&["a.s.o", "b.s.o", "c.s.o"]));
}

#[test]
fn the_artifacts_are_known_before_anything_is_compiled() {
    let (_, mut pipeline) = three();
    let objects = |p: &Pipeline| object_files(&p.artifacts());
    assert_eq!(objects(&pipeline), strings(&["a.s.o", "b.s.o", "c.s.o"]));
    pipeline.completed(1, &failed("bad"));
    assert_eq!(objects(&pipeline), strings(&["a.s.o", "b.s.o", "c.s.o"]));
}

#[test]
fn a_dry_run_is_ready_at_once_and_links_nothing() {
    let config = config(&["a.s", "b.s", "c.s"], true);
    let mut pipeline = Pipeline::start(&config.input_files, &config).unwrap();
    assert_eq!(pipeline.jobs(), vec![]);
    assert_eq!(object_files(&ready(pipeline.progress())), strings(&["a.s.o", "b.s.o", "c.s.o"]));
    assert_eq!(pipeline.action(&config, Platform::Other, None), Action::Link(LinkStep::Done));
    pipeline.completed(1, &failed("never run"));
    assert_eq!(pipeline.action(&config, Platform::MacOs, None), Action::Link(LinkStep::Done));
}

#[test]
fn no_inputs_means_nothing_to_wait_for() {
    let config = config(&[], false);
    let pipeline = Pipeline::start(&vec![], &config).unwrap();
    assert_eq!(pipeline.jobs(), vec![]);
    assert_eq!(object_files(&ready(pipeline.progress())), Vec::<String>::new());
    assert_eq!(pipeline.action(&config, Platform::Other, None), link_command(&[]));
}

#[test]
fn start_refuses_an_unexpanded_input() {
    let config = config(&[], false);
    let inputs = strings(&["a.s", "b*.s", "c*.s"]);
    match Pipeline::start(&inputs, &config) {
        Err(e) => assert_eq!(e, BuildError::Unexpanded { input: "b*.s".to_string() }),
        Ok(_) => panic!("started"),
    }
}

#[test]
fn duplicates_are_compiled_and_linked_twice() {
    let config = config(&["a.s", "a.s"], false);
    let mut pipeline = Pipeline::start(&config.input_files, &config).unwrap();
    assert_eq!(pipeline.jobs().len(), 2);
    pipeline.completed(1, &ok());
    assert_eq!(pipeline.progress(), Progress::Waiting);
    pipeline.completed(0, &ok());
    assert_eq!(
        pipeline.action(&config, Platform::Other, None),
        link_command(&["a.s.o", "a.s.o"])
    );
}

#[test]
fn build_project_plans_the_literal_inputs() {
    let config = config(&["x.s", "dir/y.asm"], false);
    let mut pipeline = build_project(&config).unwrap();
    let commands: Vec<Vec<String>> = pipeline.jobs().into_iter().map(|j| j.command.args).collect();
    assert_eq!(
        commands,
        vec![
            strings(&["x.s", "-o", "x.s.o", "-g"]),
            strings(&["dir/y.asm", "-o", "dir/y.asm.o", "-g"]),
        ]
    );
    pipeline.completed(1, &ok());
    pipeline.completed(0, &ok());
    assert_eq!(
        pipeline.action(&config, Platform::Other, None),
        link_command(&["x.s.o", "dir/y.asm.o"])
    );
}

#[test]
fn build_project_fails_on_a_pattern_without_match() {
    let config = config(&["x.s", "no-such-dir/*.s"], false);
    match build_project(&config) {
        Err(e) => assert_eq!(e, BuildError::NoMatch { pattern: "no-such-dir/*.s".to_string() }),
        Ok(_) => panic!("started"),
    }
}

#[test]
fn build_project_expands_patterns_before_planning() {
    let config = config(&["/dev/std*"], true);
    let pipeline = build_project(&config).unwrap();
    assert_eq!(
        object_files(&ready(pipeline.progress())),
        strings(&["/dev/stderr.o", "/dev/stdin.o", "/dev/stdout.o"])
    );
}
