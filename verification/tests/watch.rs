use rasm::error::{BuildError, ErrorKind};
use rasm::watch::{
    burst_qualifies, is_source_file, on_build_finished, on_burst, run_watch_mode, WatchAction,
    WatchState,
};

fn event(paths: &[&str]) -> Vec<String> {
    paths.iter().map(|p| p.to_string()).collect()
}

const BUILDING: WatchState = WatchState::Building { armed: false };
const ARMED: WatchState = WatchState::Building { armed: true };

#[test]
fn five_events_on_one_source_file_trigger_one_rebuild() {
    let burst: Vec<Vec<String>> = (0..5).map(|_| event(&["./src/main.s"])).collect();
    assert_eq!(on_burst(WatchState::Idle, &burst), (BUILDING, WatchAction::Build));
    assert_eq!(on_build_finished(BUILDING), (WatchState::Idle, WatchAction::Wait));
}

#[test]
fn a_burst_without_source_files_is_discarded() {
    let burst = vec![event(&["notes.txt", "a.s.o"]), event(&[]), event(&["src/lib.rs"])];
    assert_eq!(on_burst(WatchState::Idle, &burst), (WatchState::Idle, WatchAction::Wait));
    assert_eq!(on_burst(BUILDING, &burst), (BUILDING, WatchAction::Wait));
    assert_eq!(on_burst(ARMED, &burst), (ARMED, WatchAction::Wait));
    assert_eq!(on_burst(WatchState::Idle, &vec![]), (WatchState::Idle, WatchAction::Wait));
}

#[test]
fn one_source_file_among_many_paths_is_enough() {
    let burst = vec![event(&["a.o", "b.txt"]), event(&["c.txt", "boot.asm", "d.txt"])];
    assert!(burst_qualifies(&burst));
    assert_eq!(on_burst(WatchState::Idle, &burst), (BUILDING, WatchAction::Build));
}

#[test]
fn bursts_during_a_build_are_coalesced_into_one_rebuild() {
    let burst = vec![event(&["a.s"])];
    let mut state = BUILDING;
    for _ in 0..4 {
        let (next, action) = on_burst(state, &burst);
        assert_eq!(action, WatchAction::Wait);
        assert_eq!(next, ARMED);
        state = next;
    }
    assert_eq!(on_build_finished(state), (BUILDING, WatchAction::Build));
    assert_eq!(on_build_finished(BUILDING), (WatchState::Idle, WatchAction::Wait));
}

#[test]
fn the_loop_starts_with_a_build() {
    assert_eq!(run_watch_mode(Ok(())), Ok((BUILDING, WatchAction::Build)));
}

#[test]
fn the_loop_cannot_run_without_an_observer() {
    let error = run_watch_mode(Err("inotify limit reached".to_string())).unwrap_err();
    assert_eq!(error, BuildError::Watch { detail: "inotify limit reached".to_string() });
    assert_eq!(error.kind(), ErrorKind::Watch);
    assert_eq!(error.message(), "Cannot watch for changes: inotify limit reached");
}

#[test]
fn a_finished_build_in_the_idle_state_changes_nothing() {
    assert_eq!(on_build_finished(WatchState::Idle), (WatchState::Idle, WatchAction::Wait));
}

#[test]
fn source_files_are_known_by_their_extension() {
    assert!(is_source_file("main.s"));
    assert!(is_source_file("boot.asm"));
    assert!(is_source_file("./src/deep/dir/x.s"));
    assert!(is_source_file("archive.tar.s"));
    assert!(is_source_file("a.b/c.asm"));
    assert!(!is_source_file("main.S"));
    assert!(!is_source_file("main.s.o"));
    assert!(!is_source_file("main.asm.bak"));
    assert!(!is_source_file("mains"));
    assert!(!is_source_file("asm"));
    assert!(!is_source_file("s"));
    assert!(!is_source_file(""));
    assert!(!is_source_file("dir.s/file"));
}

#[test]
fn a_bare_extension_is_no_source_file() {
    assert!(!is_source_file(".s"));
    assert!(!is_source_file(".asm"));
    assert!(!is_source_file("dir/.s"));
    assert!(!is_source_file("dir/.asm"));
    assert!(is_source_file("dir/..s"));
    assert!(is_source_file("x.s"));
}
