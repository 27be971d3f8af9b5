//! The clean operation: what is removed, and how each removal is reported.
//!
//! The targets are computed from the configured inputs as they stand, not
//! from what they would resolve to now, so that a changed tree does not
//! change what is cleaned. Every removal is judged on its own: a file that
//! is not there is no error, and a removal that fails is a warning that
//! does not stop the others. The operation as a whole cannot fail.

use vstd::prelude::*;
use vstd::string::*;
use crate::assembler::{object_of, object_path, objects_of};
use crate::cli::{Config, Settings};
use crate::text::{joined, texts};

verus! {

/// How the removal of one file ended.
#[derive(Debug, PartialEq, Eq)]
pub enum Removal {
    /// The file was removed.
    Removed,
    /// There was no such file.
    Missing,
    /// The file could not be removed.
    Failed { detail: String },
}

/// The mathematical content of a [`Removal`].
pub enum RemovalView {
    Removed,
    Missing,
    Failed { detail: Seq<char> },
}

impl View for Removal {
    type V = RemovalView;

    open spec fn view(&self) -> RemovalView {
        match *self {
            Removal::Removed => RemovalView::Removed,
            Removal::Missing => RemovalView::Missing,
            Removal::Failed { detail } => RemovalView::Failed { detail: detail@ },
        }
    }
}

/// How loudly a removal is reported.
#[derive(Clone, Copy, Debug, PartialEq, Eq, Structural)]
pub enum Severity {
    Info,
    /// Shown at low verbosity only.
    Debug,
    Warning,
}

/// What a clean target is.
#[derive(Clone, Copy, Debug, PartialEq, Eq, Structural)]
pub enum TargetKind {
    /// The artifact of one input.
    Object,
    /// The linked output.
    Output,
}

/// The report of one removal.
#[derive(Debug, PartialEq, Eq)]
pub struct Notice {
    pub severity: Severity,
    pub text: String,
}

/// The mathematical content of a [`Notice`].
pub struct NoticeView {
    pub severity: Severity,
    pub text: Seq<char>,
}

impl View for Notice {
    type V = NoticeView;

    open spec fn view(&self) -> NoticeView {
        NoticeView { severity: self.severity, text: self.text@ }
    }
}

/// The files the clean operation removes, in order: the object file of every
/// configured input, taken literally, and then the output. Nothing else is
/// removed.
pub open spec fn clean_targets_of(c: Settings) -> Seq<Seq<char>> {
    objects_of(c.input_files).push(c.output_file)
}

/// What the target at position `i` is.
pub open spec fn kind_at(c: Settings, i: int) -> TargetKind {
    if i < c.input_files.len() {
        TargetKind::Object
    } else {
        TargetKind::Output
    }
}

/// How loudly a removal is reported: a removed file is news, a file that is
/// not there is a detail, and a failure is a warning.
pub open spec fn severity_of(removal: RemovalView) -> Severity {
    match removal {
        RemovalView::Removed => Severity::Info,
        RemovalView::Missing => Severity::Debug,
        RemovalView::Failed { detail } => Severity::Warning,
    }
}

/// The text a removal is reported with.
pub open spec fn notice_text(kind: TargetKind, target: Seq<char>, removal: RemovalView) -> Seq<
    char,
> {
    match (removal, kind) {
        (RemovalView::Removed, TargetKind::Object) => "Removed object file: "@ + target,
        (RemovalView::Removed, TargetKind::Output) => "Removed output binary: "@ + target,
        (RemovalView::Missing, TargetKind::Object) => "Object file not found (already cleaned): "@
            + target,
        (RemovalView::Missing, TargetKind::Output) => "Output file not found (already cleaned): "@
            + target,
        (RemovalView::Failed { detail }, TargetKind::Object) => "Failed to remove object file "@
            + target + ": "@ + detail,
        (RemovalView::Failed { detail }, TargetKind::Output) => "Failed to remove output file "@
            + target + ": "@ + detail,
    }
}

/// The report of one removal.
pub open spec fn notice_of(
    kind: TargetKind,
    target: Seq<char>,
    removal: RemovalView,
) -> NoticeView {
    NoticeView { severity: severity_of(removal), text: notice_text(kind, target, removal) }
}

/// The reports of a clean run: one for each target whose removal was
/// attempted, each from its own target and its own removal alone.
pub open spec fn notices_of(c: Settings, removals: Seq<RemovalView>) -> Seq<NoticeView> {
    let targets = clean_targets_of(c);
    let n = if removals.len() <= targets.len() {
        removals.len()
    } else {
        targets.len()
    };
    Seq::new(n, |i: int| notice_of(kind_at(c, i), targets[i], removals[i]))
}

/// Cleaning what is clean already is quiet: when no target is there, every
/// report is a detail, and none is a warning.
pub proof fn law_clean_again_is_quiet(c: Settings, removals: Seq<RemovalView>)
    requires
        forall|i: int| 0 <= i < removals.len() ==> (#[trigger] removals[i]) is Missing,
    ensures
        forall|i: int|
            0 <= i < notices_of(c, removals).len() ==> (#[trigger] notices_of(
                c,
                removals,
            )[i]).severity == Severity::Debug,
{
}

/// The files of a tree after the removal of `targets`, where nothing
/// hinders a removal.
pub open spec fn swept(files: Set<Seq<char>>, targets: Seq<Seq<char>>) -> Set<Seq<char>> {
    files.difference(targets.to_set())
}

/// How the removals of `targets`, one after the other, end on a tree that
/// holds `files`, where nothing hinders a removal: a file that is there is
/// removed, and one that is not, or that an earlier removal took, is
/// missing.
pub open spec fn unhindered(files: Set<Seq<char>>, targets: Seq<Seq<char>>) -> Seq<RemovalView> {
    Seq::new(
        targets.len(),
        |i: int|
            if swept(files, targets.take(i)).contains(targets[i]) {
                RemovalView::Removed
            } else {
                RemovalView::Missing
            },
    )
}

/// Clean is idempotent: on a tree where nothing hinders a removal, a second
/// clean right after the first finds every target missing, leaves the tree
/// as it is, and reports details only.
pub proof fn law_clean_is_idempotent(c: Settings, files: Set<Seq<char>>)
    ensures
        ({
            let targets = clean_targets_of(c);
            let again = unhindered(swept(files, targets), targets);
            let notices = notices_of(c, again);
            &&& forall|i: int| 0 <= i < again.len() ==> (#[trigger] again[i]) is Missing
            &&& swept(swept(files, targets), targets) == swept(files, targets)
            &&& forall|i: int|
                0 <= i < notices.len() ==> (#[trigger] notices[i]).severity == Severity::Debug
        }),
{
    let targets = clean_targets_of(c);
    let once = swept(files, targets);
    let again = unhindered(once, targets);
    assert forall|i: int| 0 <= i < again.len() implies (#[trigger] again[i]) is Missing by {
        assert(targets.to_set().contains(targets[i]));
    }
    assert(swept(once, targets) =~= once);
    law_clean_again_is_quiet(c, again);
}

/// A failed removal does not stop the others: every target whose removal
/// was attempted has its report, whatever happened to the targets before
/// it.
pub proof fn law_clean_is_best_effort(c: Settings, removals: Seq<RemovalView>, i: int)
    requires
        removals.len() == clean_targets_of(c).len(),
        0 <= i < removals.len(),
    ensures
        notices_of(c, removals).len() == c.input_files.len() + 1,
        notices_of(c, removals)[i] == notice_of(
            kind_at(c, i),
            clean_targets_of(c)[i],
            removals[i],
        ),
{
}

/// The files the clean operation removes, in order.
pub fn clean_targets(config: &Config) -> (targets: Vec<String>)
    ensures
        texts(targets@) == clean_targets_of(config@),
{
    let ghost inputs = texts(config.input_files@);
    let mut targets: Vec<String> = Vec::new();
    let mut i: usize = 0;
    while i < config.input_files.len()
        invariant
            i <= config.input_files.len(),
            inputs == texts(config.input_files@),
            targets.len() == i,
            forall|j: int| 0 <= j < i ==> (#[trigger] targets@[j])@ == object_of(inputs[j]),
        decreases config.input_files.len() - i,
    {
        targets.push(object_path(config.input_files[i].as_str()));
        i += 1;
    }
    targets.push(config.output_file.clone());
    assert(texts(targets@) =~= clean_targets_of(config@));
    targets
}

/// The report of one removal.
pub fn removal_notice(kind: TargetKind, target: &str, removal: &Removal) -> (notice: Notice)
    ensures
        notice@ == notice_of(kind, target@, removal@),
{
    match removal {
        Removal::Removed => {
            let text = match kind {
                TargetKind::Object => joined("Removed object file: ", target),
                TargetKind::Output => joined("Removed output binary: ", target),
            };
            Notice { severity: Severity::Info, text }
        },
        Removal::Missing => {
            let text = match kind {
                TargetKind::Object => joined("Object file not found (already cleaned): ", target),
                TargetKind::Output => joined("Output file not found (already cleaned): ", target),
            };
            Notice { severity: Severity::Debug, text }
        },
        Removal::Failed { detail } => {
            let mut text = match kind {
                TargetKind::Object => joined("Failed to remove object file ", target),
                TargetKind::Output => joined("Failed to remove output file ", target),
            };
            text.append(": ");
            text.append(detail.as_str());
            Notice { severity: Severity::Warning, text }
        },
    }
}

/// Reports a clean run: `removals` tells, position by position, how the
/// removal of each of the [`clean_targets`] ended.
pub fn clean_files(config: &Config, removals: &[Removal]) -> (notices: Vec<Notice>)
    ensures
        Seq::new(notices@.len(), |i: int| notices@[i]@) == notices_of(
            config@,
            Seq::new(removals@.len(), |i: int| removals@[i]@),
        ),
{
    let targets = clean_targets(config);
    let ghost outcomes = Seq::new(removals@.len(), |i: int| removals@[i]@);
    let mut notices: Vec<Notice> = Vec::new();
    let mut i: usize = 0;
    while i < targets.len() && i < removals.len()
        invariant
            i <= targets.len(),
            i <= removals.len(),
            texts(targets@) == clean_targets_of(config@),
            outcomes == Seq::new(removals@.len(), |i: int| removals@[i]@),
            notices.len() == i,
            forall|j: int|
                0 <= j < i ==> (#[trigger] notices@[j])@ == notice_of(
                    kind_at(config@, j),
                    texts(targets@)[j],
                    outcomes[j],
                ),
        decreases targets.len() - i,
    {
        let kind = if i < config.input_files.len() {
            TargetKind::Object
        } else {
            TargetKind::Output
        };
        notices.push(removal_notice(kind, targets[i].as_str(), &removals[i]));
        i += 1;
    }
    assert(Seq::new(notices@.len(), |i: int| notices@[i]@) =~= notices_of(config@, outcomes));
    notices
}

} // verus!
