//! The watch loop: which change bursts ask for a rebuild, and when a build
//! is started.
//!
//! The caller observes the working tree, coalesces raw events into bursts and
//! runs the builds; this module decides. At most one build runs at a time: a
//! qualifying burst that arrives during a build arms the loop, and one
//! further build is started when the running one ends.

use vstd::prelude::*;
use vstd::string::*;
use crate::error::{BuildError, Failure};
use crate::text::{chars_end_with, chars_of, ends_with, texts};

verus! {

broadcast use vstd::string::group_string_axioms;

/// The debounce window, in seconds: raw events are surfaced as one burst
/// once this much quiet has been observed.
pub const DEBOUNCE_SECONDS: u64 = 1;

/// The state of the watch loop.
#[derive(Clone, Copy, Debug, PartialEq, Eq, Structural)]
pub enum WatchState {
    /// No build is running.
    Idle,
    /// A build is running; `armed` tells whether a qualifying burst has
    /// arrived since it started.
    Building { armed: bool },
}

/// What the caller does next.
#[derive(Clone, Copy, Debug, PartialEq, Eq, Structural)]
pub enum WatchAction {
    /// Start one build attempt.
    Build,
    /// Wait for the next burst, or for the running build to end.
    Wait,
}

/// `path` ends in a dot and `extension`, and its last component has a
/// character before that dot.
pub open spec fn has_extension(path: Seq<char>, extension: Seq<char>) -> bool {
    &&& ends_with(path, seq!['.'] + extension)
    &&& path.len() > extension.len() + 1
    &&& path[path.len() - extension.len() - 2] != '/'
}

/// `path` names a source file: its extension is `s` or `asm`.
pub open spec fn is_source_path(path: Seq<char>) -> bool {
    has_extension(path, seq!['s']) || has_extension(path, seq!['a', 's', 'm'])
}

/// One of the paths is a source file.
pub open spec fn touches_source(paths: Seq<Seq<char>>) -> bool {
    exists|i: int| 0 <= i < paths.len() && is_source_path(#[trigger] paths[i])
}

/// The paths of every event of a burst.
pub open spec fn burst_paths(events: Seq<Vec<String>>) -> Seq<Seq<Seq<char>>> {
    Seq::new(events.len(), |i: int| texts(events[i]@))
}

/// A burst asks for a rebuild when at least one of its events changed a
/// source file.
pub open spec fn qualifies(burst: Seq<Seq<Seq<char>>>) -> bool {
    exists|i: int| 0 <= i < burst.len() && touches_source(#[trigger] burst[i])
}

/// The loop after a burst was surfaced. A burst that does not qualify
/// changes nothing. A qualifying burst starts a build when none is running,
/// and otherwise arms the loop.
pub open spec fn after_burst(state: WatchState, qualifying: bool) -> (WatchState, WatchAction) {
    if !qualifying {
        (state, WatchAction::Wait)
    } else {
        match state {
            WatchState::Idle => (WatchState::Building { armed: false }, WatchAction::Build),
            WatchState::Building { armed } => (
                WatchState::Building { armed: true },
                WatchAction::Wait,
            ),
        }
    }
}

/// The loop after the running build ended, with whatever outcome: an armed
/// loop starts the next build, and otherwise the loop is idle.
pub open spec fn after_build(state: WatchState) -> (WatchState, WatchAction) {
    match state {
        WatchState::Building { armed: true } => (
            WatchState::Building { armed: false },
            WatchAction::Build,
        ),
        _ => (WatchState::Idle, WatchAction::Wait),
    }
}

/// The state after a series of bursts, of which the flags tell whether each
/// qualifies, with no build ending in between.
pub open spec fn after_bursts(state: WatchState, bursts: Seq<bool>) -> WatchState
    decreases bursts.len(),
{
    if bursts.len() == 0 {
        state
    } else {
        after_burst(after_bursts(state, bursts.drop_last()), bursts.last()).0
    }
}

/// The number of builds that a series of bursts starts, with no build ending
/// in between.
pub open spec fn builds_started(state: WatchState, bursts: Seq<bool>) -> nat
    decreases bursts.len(),
{
    if bursts.len() == 0 {
        0
    } else {
        let earlier = builds_started(state, bursts.drop_last());
        match after_burst(after_bursts(state, bursts.drop_last()), bursts.last()).1 {
            WatchAction::Build => earlier + 1,
            WatchAction::Wait => earlier,
        }
    }
}

/// Builds never overlap: a build is started only when none is running or
/// when the running one has just ended, and a loop that starts a build is in
/// the state of building.
pub proof fn law_builds_do_not_overlap(state: WatchState, qualifying: bool)
    ensures
        after_burst(state, qualifying).1 == WatchAction::Build ==> state == WatchState::Idle,
        after_burst(state, qualifying).1 == WatchAction::Build ==> after_burst(
            state,
            qualifying,
        ).0 is Building,
        after_build(state).1 == WatchAction::Build ==> after_build(state).0 is Building,
        state is Building ==> after_burst(state, qualifying).0 is Building,
{
}

/// Bursts that arrive during a build are coalesced: they start no build
/// themselves, however many they are; when the running build ends, exactly
/// one build is started if any of them qualified and none otherwise; and
/// when that build ends with no further burst, the loop is idle.
pub proof fn law_bursts_during_build_coalesce(armed: bool, bursts: Seq<bool>)
    ensures
        builds_started(WatchState::Building { armed }, bursts) == 0,
        after_bursts(WatchState::Building { armed }, bursts) == (WatchState::Building {
            armed: armed || bursts.contains(true),
        }),
        after_build(after_bursts(WatchState::Building { armed }, bursts)).1 == (if armed
            || bursts.contains(true) {
            WatchAction::Build
        } else {
            WatchAction::Wait
        }),
        after_build(after_build(after_bursts(WatchState::Building { armed }, bursts)).0) == (
            WatchState::Idle,
            WatchAction::Wait,
        ),
    decreases bursts.len(),
{
    if bursts.len() > 0 {
        let earlier = bursts.drop_last();
        law_bursts_during_build_coalesce(armed, earlier);
        if earlier.contains(true) {
            let k = choose|k: int| 0 <= k < earlier.len() && earlier[k] == true;
            assert(bursts[k] == true);
        }
        if bursts.last() {
            assert(bursts[bursts.len() - 1] == true);
        }
        if bursts.contains(true) && !bursts.last() {
            let k = choose|k: int| 0 <= k < bursts.len() && bursts[k] == true;
            assert(earlier[k] == true);
        }
    }
}

/// From the idle state, a series of bursts starts one build if any of them
/// qualifies, and none otherwise.
pub proof fn law_bursts_start_one_build(bursts: Seq<bool>)
    ensures
        builds_started(WatchState::Idle, bursts) == (if bursts.contains(true) {
            1nat
        } else {
            0nat
        }),
        after_bursts(WatchState::Idle, bursts) is Building <==> bursts.contains(true),
    decreases bursts.len(),
{
    if bursts.len() > 0 {
        let earlier = bursts.drop_last();
        law_bursts_start_one_build(earlier);
        if earlier.contains(true) {
            let k = choose|k: int| 0 <= k < earlier.len() && earlier[k] == true;
            assert(bursts[k] == true);
        }
        if bursts.last() {
            assert(bursts[bursts.len() - 1] == true);
        }
        if bursts.contains(true) && !bursts.last() {
            let k = choose|k: int| 0 <= k < bursts.len() && bursts[k] == true;
            assert(earlier[k] == true);
        }
    }
}

/// Whether `chars` end in a dot and `extension`, after at least one
/// character of the last component.
fn chars_have_extension(chars: &[char], extension: &str) -> (yes: bool)
    ensures
        yes == has_extension(chars@, extension@),
{
    let mut suffix: Vec<char> = Vec::new();
    suffix.push('.');
    let ext = chars_of(extension);
    let mut i: usize = 0;
    while i < ext.len()
        invariant
            i <= ext.len(),
            suffix@ == seq!['.'] + ext@.take(i as int),
        decreases ext.len() - i,
    {
        suffix.push(ext[i]);
        assert(suffix@ =~= seq!['.'] + ext@.take(i as int + 1));
        i += 1;
    }
    assert(ext@.take(ext.len() as int) =~= ext@);
    if !chars_end_with(chars, &suffix) {
        return false;
    }
    chars.len() > suffix.len() && chars[chars.len() - suffix.len() - 1] != '/'
}

/// Whether `path` names a source file.
pub fn is_source_file(path: &str) -> (yes: bool)
    ensures
        yes == is_source_path(path@),
{
    let chars = chars_of(path);
    proof {
        reveal_strlit("s");
        reveal_strlit("asm");
        assert("s"@ =~= seq!['s']);
        assert("asm"@ =~= seq!['a', 's', 'm']);
    }
    chars_have_extension(&chars, "s") || chars_have_extension(&chars, "asm")
}

/// Whether a burst of change events asks for a rebuild. Each event carries
/// the paths it changed; a burst without a source file among them is
/// discarded.
pub fn burst_qualifies(events: &[Vec<String>]) -> (yes: bool)
    ensures
        yes == qualifies(burst_paths(events@)),
{
    let ghost burst = burst_paths(events@);
    let mut i: usize = 0;
    while i < events.len()
        invariant
            i <= events.len(),
            burst == burst_paths(events@),
            forall|j: int| 0 <= j < i ==> !touches_source(#[trigger] burst[j]),
        decreases events.len() - i,
    {
        let paths = &events[i];
        let ghost these = texts(paths@);
        assert(these == burst[i as int]);
        let mut k: usize = 0;
        while k < paths.len()
            invariant
                k <= paths.len(),
                i < events.len(),
                burst == burst_paths(events@),
                these == texts(paths@),
                these == burst[i as int],
                forall|j: int| 0 <= j < k ==> !is_source_path(#[trigger] these[j]),
            decreases paths.len() - k,
        {
            if is_source_file(paths[k].as_str()) {
                assert(is_source_path(these[k as int]));
                assert(touches_source(burst[i as int]));
                return true;
            }
            k += 1;
        }
        i += 1;
    }
    false
}

/// Enters the watch loop, given whether the observer over the working tree
/// could be installed: without an observer the loop cannot run, and the
/// failure is final; with one, the first build is started at once.
pub fn run_watch_mode(observer: Result<(), String>) -> (entry: Result<
    (WatchState, WatchAction),
    BuildError,
>)
    ensures
        (match observer {
            Ok(_) => entry == Ok::<(WatchState, WatchAction), BuildError>(
                (WatchState::Building { armed: false }, WatchAction::Build),
            ),
            Err(detail) => entry matches Err(e) && e@ == (Failure::Watch { detail: detail@ }),
        }),
{
    match observer {
        Ok(_) => Ok((WatchState::Building { armed: false }, WatchAction::Build)),
        Err(detail) => Err(BuildError::Watch { detail }),
    }
}

/// Takes in one surfaced burst of change events.
pub fn on_burst(state: WatchState, events: &[Vec<String>]) -> (next: (WatchState, WatchAction))
    ensures
        next == after_burst(state, qualifies(burst_paths(events@))),
{
    if !burst_qualifies(events) {
        return (state, WatchAction::Wait);
    }
    match state {
        WatchState::Idle => (WatchState::Building { armed: false }, WatchAction::Build),
        WatchState::Building { armed: _ } => (
            WatchState::Building { armed: true },
            WatchAction::Wait,
        ),
    }
}

/// Takes in the end of the running build. The outcome of the build is for
/// the caller to report; it does not end the loop.
pub fn on_build_finished(state: WatchState) -> (next: (WatchState, WatchAction))
    ensures
        next == after_build(state),
{
    match state {
        WatchState::Building { armed: true } => (
            WatchState::Building { armed: false },
            WatchAction::Build,
        ),
        _ => (WatchState::Idle, WatchAction::Wait),
    }
}

} // verus!
