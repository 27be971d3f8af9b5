//! The file resolver and the compile stage.
//!
//! Resolution turns the configured inputs into the concrete list of files to
//! assemble: a literal path stands for itself, a wildcard pattern for the
//! sorted list of the files it matches. The compile stage names the artifact
//! of each input and says how the external assembler is to be run for it.

use vstd::prelude::*;
use vstd::string::*;
use crate::cli::{Config, Settings};
use crate::error::{BuildError, Failure, Tool};
use crate::order::{is_sorted_arrangement, law_sorted_arrangement_unique, lemma_listing_order_total,
    listing_order, precedes, sorted_paths};
use crate::text::{chars_of, contains_char, extend_list, is_least, joined, lemma_least_exists,
    texts};
use crate::tool::{judge, run_failure, CommandLine, Invocation, ToolRun};

verus! {

broadcast use vstd::string::group_string_axioms;

/// One item that matching a pattern handed out.
#[derive(Debug, PartialEq, Eq)]
pub enum Entry {
    /// A path that matches.
    Path(String),
    /// A directory that matched in part but could not be read.
    Unreadable { detail: String },
}

/// What matching one pattern against the file system gave.
#[derive(Debug, PartialEq, Eq)]
pub enum Matching {
    /// The pattern is malformed.
    BadPattern { detail: String },
    /// The pattern is well formed; these are the items found, in the order
    /// in which they were found.
    Entries(Vec<Entry>),
}

/// The mathematical content of an [`Entry`].
pub enum EntryView {
    Path(Seq<char>),
    Unreadable { detail: Seq<char> },
}

/// The mathematical content of a [`Matching`].
pub enum MatchingView {
    BadPattern { detail: Seq<char> },
    Entries(Seq<EntryView>),
}

impl View for Entry {
    type V = EntryView;

    open spec fn view(&self) -> EntryView {
        match *self {
            Entry::Path(path) => EntryView::Path(path@),
            Entry::Unreadable { detail } => EntryView::Unreadable { detail: detail@ },
        }
    }
}

impl View for Matching {
    type V = MatchingView;

    open spec fn view(&self) -> MatchingView {
        match *self {
            Matching::BadPattern { detail } => MatchingView::BadPattern { detail: detail@ },
            Matching::Entries(entries) => MatchingView::Entries(
                Seq::new(entries@.len(), |i: int| entries@[i]@),
            ),
        }
    }
}

/// A resolved input together with the object file made from it. It is
/// created by the compile stage and read by the link stage, and it does not
/// change in between.
#[derive(Debug, PartialEq, Eq)]
pub struct CompileArtifact {
    input: String,
    object: String,
}

/// The mathematical content of a [`CompileArtifact`].
pub struct ArtifactView {
    pub input: Seq<char>,
    pub object: Seq<char>,
}

impl View for CompileArtifact {
    type V = ArtifactView;

    closed spec fn view(&self) -> ArtifactView {
        ArtifactView { input: self.input@, object: self.object@ }
    }
}

/// What the compile stage asks for one input.
#[derive(Debug, PartialEq, Eq)]
pub enum CompileStep {
    /// Nothing is to be run: the artifact counts as produced.
    Done { artifact: CompileArtifact },
    /// This command is to be run; when it succeeds, `artifact` is produced.
    Run { command: Invocation, artifact: CompileArtifact },
}

/// The mathematical content of a [`CompileStep`].
pub enum StepView {
    Done { artifact: ArtifactView },
    Run { command: CommandLine, artifact: ArtifactView },
}

impl View for CompileStep {
    type V = StepView;

    open spec fn view(&self) -> StepView {
        match *self {
            CompileStep::Done { artifact } => StepView::Done { artifact: artifact@ },
            CompileStep::Run { command, artifact } => StepView::Run {
                command: command@,
                artifact: artifact@,
            },
        }
    }
}

impl Clone for CompileArtifact {
    fn clone(&self) -> (copy: CompileArtifact)
        ensures
            copy@ == self@,
    {
        CompileArtifact { input: self.input.clone(), object: self.object.clone() }
    }
}

impl CompileArtifact {
    /// The resolved input the artifact was made from.
    pub fn input(&self) -> (path: &str)
        ensures
            path@ == self@.input,
    {
        self.input.as_str()
    }

    /// The path of the object file.
    pub fn object(&self) -> (path: &str)
        ensures
            path@ == self@.object,
    {
        self.object.as_str()
    }
}

impl Clone for CompileStep {
    fn clone(&self) -> (copy: CompileStep)
        ensures
            copy@ == self@,
    {
        match self {
            CompileStep::Done { artifact } => CompileStep::Done { artifact: artifact.clone() },
            CompileStep::Run { command, artifact } => CompileStep::Run {
                command: command.clone(),
                artifact: artifact.clone(),
            },
        }
    }
}

/// An input is a pattern when it holds one of the characters `*`, `?`, `[`.
pub open spec fn is_pattern(input: Seq<char>) -> bool {
    input.contains('*') || input.contains('?') || input.contains('[')
}

/// Every item of `entries` is a path.
pub open spec fn all_readable(entries: Seq<EntryView>) -> bool {
    forall|i: int| 0 <= i < entries.len() ==> (#[trigger] entries[i]) is Path
}

/// `i` is the position of the first unreadable item of `entries`.
pub open spec fn is_first_unreadable(entries: Seq<EntryView>, i: int) -> bool {
    &&& 0 <= i < entries.len()
    &&& entries[i] is Unreadable
    &&& forall|j: int| 0 <= j < i ==> (#[trigger] entries[j]) is Path
}

/// The paths among `entries`, in their order, where every item is a path.
pub open spec fn paths_of(entries: Seq<EntryView>) -> Seq<Seq<char>> {
    Seq::new(entries.len(), |i: int| entries[i]->Path_0)
}

/// `paths` in listing order.
pub open spec fn listed(paths: Seq<Seq<char>>) -> Seq<Seq<char>> {
    paths.sort_by(listing_order())
}

/// What a pattern resolves to, given what matching it gave: a malformed
/// pattern and a pattern without a match are failures that name the
/// pattern, an unreadable directory is an I/O failure, and otherwise the
/// pattern stands for its matches in listing order.
pub open spec fn resolution(pattern: Seq<char>, outcome: MatchingView) -> Result<
    Seq<Seq<char>>,
    Failure,
> {
    match outcome {
        MatchingView::BadPattern { detail } => Err(Failure::BadPattern { pattern, detail }),
        MatchingView::Entries(entries) => {
            if entries.len() == 0 {
                Err(Failure::NoMatch { pattern })
            } else if all_readable(entries) {
                Ok(listed(paths_of(entries)))
            } else {
                let first = choose|i: int| is_first_unreadable(entries, i);
                Err(Failure::Io { detail: entries[first]->Unreadable_detail })
            }
        },
    }
}

/// What one input resolves to: itself when it is no pattern, whatever
/// matching gave.
pub open spec fn input_resolution(input: Seq<char>, outcome: MatchingView) -> Result<
    Seq<Seq<char>>,
    Failure,
> {
    if is_pattern(input) {
        resolution(input, outcome)
    } else {
        Ok(seq![input])
    }
}

/// What a list of inputs resolves to, given for each position what matching
/// the input there gave: the resolutions of the inputs one after the other,
/// duplicates kept, or the failure of the first input that fails.
pub open spec fn expansion(inputs: Seq<Seq<char>>, outcomes: Seq<MatchingView>) -> Result<
    Seq<Seq<char>>,
    Failure,
>
    decreases inputs.len(),
{
    if inputs.len() == 0 {
        Ok(Seq::empty())
    } else {
        match expansion(inputs.drop_last(), outcomes.drop_last()) {
            Err(failure) => Err(failure),
            Ok(before) => match input_resolution(inputs.last(), outcomes.last()) {
                Err(failure) => Err(failure),
                Ok(more) => Ok(before + more),
            },
        }
    }
}

/// `result` is `expected`, read through the views.
pub open spec fn list_result_is(
    result: Result<Vec<String>, BuildError>,
    expected: Result<Seq<Seq<char>>, Failure>,
) -> bool {
    match expected {
        Ok(list) => result matches Ok(v) && texts(v@) == list,
        Err(failure) => result matches Err(e) && e@ == failure,
    }
}

/// The object file of an input: the input's path with `.o` appended. It
/// depends on the path alone, so it can be named again without resolving
/// anything.
pub open spec fn object_of(input: Seq<char>) -> Seq<char> {
    input + ".o"@
}

/// The object files of a list of inputs, position by position.
pub open spec fn objects_of(inputs: Seq<Seq<char>>) -> Seq<Seq<char>> {
    Seq::new(inputs.len(), |i: int| object_of(inputs[i]))
}

/// The artifact of an input.
pub open spec fn artifact_of(input: Seq<char>) -> ArtifactView {
    ArtifactView { input, object: object_of(input) }
}

/// The artifacts of a list of inputs, position by position.
pub open spec fn artifacts_of(inputs: Seq<Seq<char>>) -> Seq<ArtifactView> {
    Seq::new(inputs.len(), |i: int| artifact_of(inputs[i]))
}

/// The assembler's command line for one input: the input, `-o`, the
/// artifact, then the configured assembler flags.
pub open spec fn assembler_command(input: Seq<char>, c: Settings) -> CommandLine {
    CommandLine {
        program: c.assembler,
        args: seq![input, "-o"@, object_of(input)] + c.assembler_flags,
    }
}

/// What the compile stage asks for `input`: an input that still holds a `*`
/// is refused; in a dry run nothing is run; otherwise the assembler is.
pub open spec fn assembly(input: Seq<char>, c: Settings) -> Result<StepView, Failure> {
    if input.contains('*') {
        Err(Failure::Unexpanded { input })
    } else if c.dry_run {
        Ok(StepView::Done { artifact: artifact_of(input) })
    } else {
        Ok(StepView::Run { command: assembler_command(input, c), artifact: artifact_of(input) })
    }
}

/// A list without patterns resolves to itself, whatever the file system
/// holds.
pub proof fn law_literals_resolve_to_themselves(
    inputs: Seq<Seq<char>>,
    outcomes: Seq<MatchingView>,
)
    requires
        forall|i: int| 0 <= i < inputs.len() ==> !is_pattern(#[trigger] inputs[i]),
    ensures
        expansion(inputs, outcomes) == Ok::<Seq<Seq<char>>, Failure>(inputs),
    decreases inputs.len(),
{
    if inputs.len() > 0 {
        law_literals_resolve_to_themselves(inputs.drop_last(), outcomes.drop_last());
        assert(inputs.drop_last() + seq![inputs.last()] =~= inputs);
    } else {
        assert(inputs =~= Seq::empty());
    }
}

/// A pattern with `n >= 1` readable matches resolves to exactly those `n`
/// paths, sorted; a well-formed pattern with no match fails and names the
/// pattern.
pub proof fn law_pattern_resolution(pattern: Seq<char>, entries: Seq<EntryView>)
    requires
        all_readable(entries),
    ensures
        entries.len() == 0 ==> resolution(pattern, MatchingView::Entries(entries)) == Err::<
            Seq<Seq<char>>,
            Failure,
        >(Failure::NoMatch { pattern }),
        entries.len() > 0 ==> (resolution(pattern, MatchingView::Entries(entries)) matches Ok(list)
            && list.len() == entries.len() && is_sorted_arrangement(list, paths_of(entries))),
{
    if entries.len() > 0 {
        lemma_listed(paths_of(entries));
        paths_of(entries).to_multiset_ensures();
        listed(paths_of(entries)).to_multiset_ensures();
    }
}

/// Where a directory could not be read, resolution fails with the report
/// of the first item that says so.
pub proof fn law_unreadable_resolution(pattern: Seq<char>, entries: Seq<EntryView>)
    requires
        !all_readable(entries),
    ensures
        exists|i: int|
            is_first_unreadable(entries, i) && resolution(pattern, MatchingView::Entries(entries))
                == Err::<Seq<Seq<char>>, Failure>(
                Failure::Io { detail: entries[i]->Unreadable_detail },
            ),
{
    let unreadable = |i: int| entries[i] is Unreadable;
    assert(exists|i: int| 0 <= i < entries.len() && #[trigger] unreadable(i)) by {
        let i = choose|i: int| 0 <= i < entries.len() && !((#[trigger] entries[i]) is Path);
        assert(unreadable(i));
    }
    lemma_least_exists(unreadable, entries.len() as int);
    let least = choose|i: int| is_least(unreadable, entries.len() as int, i);
    assert(is_first_unreadable(entries, least)) by {
        assert forall|j: int| 0 <= j < least implies (#[trigger] entries[j]) is Path by {
            assert(!unreadable(j));
        }
    }
}

/// The order in which the matches were found does not matter: two
/// matchings of readable paths that hold the same paths, each equally
/// often, resolve alike.
pub proof fn law_resolution_ignores_discovery_order(
    pattern: Seq<char>,
    first: Seq<EntryView>,
    second: Seq<EntryView>,
)
    requires
        all_readable(first),
        all_readable(second),
        paths_of(first).to_multiset() == paths_of(second).to_multiset(),
    ensures
        resolution(pattern, MatchingView::Entries(first)) == resolution(
            pattern,
            MatchingView::Entries(second),
        ),
{
    paths_of(first).to_multiset_ensures();
    paths_of(second).to_multiset_ensures();
    lemma_listed(paths_of(first));
    lemma_listed(paths_of(second));
    law_sorted_arrangement_unique(listed(paths_of(first)), listed(paths_of(second)));
}

/// Listing puts a list into its one sorted arrangement.
pub proof fn lemma_listed(paths: Seq<Seq<char>>)
    ensures
        is_sorted_arrangement(listed(paths), paths),
{
    lemma_listing_order_total();
    paths.lemma_sort_by_ensures(listing_order());
    let out = listed(paths);
    assert forall|i: int, j: int| 0 <= i < j < out.len() implies precedes(
        #[trigger] out[i],
        #[trigger] out[j],
    ) by {
        assert(listing_order()(out[i], out[j]));
    }
}

/// Once a prefix of the inputs fails, the whole list fails in the same way.
proof fn lemma_failure_is_final(
    inputs: Seq<Seq<char>>,
    outcomes: Seq<MatchingView>,
    k: int,
    failure: Failure,
)
    requires
        0 <= k <= inputs.len(),
        inputs.len() == outcomes.len(),
        expansion(inputs.take(k), outcomes.take(k)) == Err::<Seq<Seq<char>>, Failure>(failure),
    ensures
        expansion(inputs, outcomes) == Err::<Seq<Seq<char>>, Failure>(failure),
    decreases inputs.len() - k,
{
    if k < inputs.len() {
        assert(inputs.take(k + 1).drop_last() =~= inputs.take(k));
        assert(outcomes.take(k + 1).drop_last() =~= outcomes.take(k));
        lemma_failure_is_final(inputs, outcomes, k + 1, failure);
    } else {
        assert(inputs.take(k) =~= inputs);
        assert(outcomes.take(k) =~= outcomes);
    }
}

/// Whether `input` is a pattern.
pub fn has_wildcard(input: &str) -> (yes: bool)
    ensures
        yes == is_pattern(input@),
{
    let chars = chars_of(input);
    contains_char(&chars, '*') || contains_char(&chars, '?') || contains_char(&chars, '[')
}

/// Matches `pattern` against the file system by `glob::glob`, relative to
/// the working directory, and hands out what the iteration gave, item by
/// item and in glob's order: each matching path as text, with what is no
/// UTF-8 in it replaced, and each unreadable directory, like a malformed
/// pattern, by the text of glob's own error. The outcome depends on what is
/// on disk, so nothing is claimed of it.
#[verifier::external_body]
fn match_pattern(pattern: &str) -> (outcome: Matching) {
    match glob::glob(pattern) {
        Err(e) => Matching::BadPattern { detail: e.to_string() },
        Ok(paths) => Matching::Entries(
            paths.map(
                |entry|
                    match entry {
                        Ok(path) => Entry::Path(path.to_string_lossy().to_string()),
                        Err(e) => Entry::Unreadable { detail: e.to_string() },
                    },
            ).collect(),
        ),
    }
}

/// Resolves one pattern from what matching it gave.
///
/// A pattern with `n >= 1` matches yields exactly `n` paths, sorted. A
/// pattern without a match is not skipped: it fails the resolution.
pub fn resolve_pattern(pattern: &str, outcome: Matching) -> (result: Result<
    Vec<String>,
    BuildError,
>)
    ensures
        list_result_is(result, resolution(pattern@, outcome@)),
        result matches Ok(v) ==> (outcome@ matches MatchingView::Entries(entries) && v.len()
            == entries.len() && is_sorted_arrangement(texts(v@), paths_of(entries))),
{
    match outcome {
        Matching::BadPattern { detail } => Err(
            BuildError::BadPattern { pattern: String::from_str(pattern), detail },
        ),
        Matching::Entries(entries) => {
            let ghost items = Seq::new(entries@.len(), |i: int| entries@[i]@);
            if entries.len() == 0 {
                return Err(BuildError::NoMatch { pattern: String::from_str(pattern) });
            }
            let mut paths: Vec<String> = Vec::new();
            let mut i: usize = 0;
            while i < entries.len()
                invariant
                    i <= entries.len(),
                    entries@.len() > 0,
                    items == Seq::new(entries@.len(), |i: int| entries@[i]@),
                    outcome@ == MatchingView::Entries(items),
                    paths.len() == i,
                    forall|j: int| 0 <= j < i ==> (#[trigger] items[j]) is Path,
                    forall|j: int| 0 <= j < i ==> (#[trigger] paths@[j])@ == items[j]->Path_0,
                decreases entries.len() - i,
            {
                match &entries[i] {
                    Entry::Path(path) => {
                        paths.push(path.clone());
                    },
                    Entry::Unreadable { detail } => {
                        proof {
                            assert(is_first_unreadable(items, i as int));
                            let first = choose|k: int| is_first_unreadable(items, k);
                            assert(first == i);
                        }
                        return Err(BuildError::Io { detail: detail.clone() });
                    },
                }
                i += 1;
            }
            let sorted_list = sorted_paths(&paths);
            proof {
                assert(all_readable(items));
                assert(texts(paths@) =~= paths_of(items));
                lemma_listed(paths_of(items));
                law_sorted_arrangement_unique(texts(sorted_list@), listed(paths_of(items)));
                texts(sorted_list@).to_multiset_ensures();
                paths_of(items).to_multiset_ensures();
            }
            Ok(sorted_list)
        },
    }
}

/// Expands the configured inputs into the concrete list of files.
///
/// An input that is no pattern is taken as it is, whether or not such a
/// file exists. A pattern is matched against the file system, and the result
/// is the [`expansion`] of the inputs under whatever the matching gave;
/// duplicates are kept.
pub fn expand_globs(inputs: &[String]) -> (result: Result<Vec<String>, BuildError>)
    ensures
        exists|outcomes: Seq<MatchingView>|
            outcomes.len() == inputs.len() && list_result_is(
                result,
                #[trigger] expansion(texts(inputs@), outcomes),
            ),
        (forall|i: int| 0 <= i < inputs.len() ==> !is_pattern(#[trigger] inputs@[i]@))
            ==> (result matches Ok(v) && texts(v@) == texts(inputs@)),
{
    let ghost all = texts(inputs@);
    let ghost filler = MatchingView::Entries(Seq::empty());
    let ghost mut seen: Seq<MatchingView> = Seq::empty();
    let mut expanded: Vec<String> = Vec::new();
    let mut i: usize = 0;
    proof {
        assert(all.take(0) =~= Seq::empty());
        assert(texts(expanded@) =~= Seq::empty());
    }
    while i < inputs.len()
        invariant
            i <= inputs.len(),
            all == texts(inputs@),
            seen.len() == i,
            expansion(all.take(i as int), seen) == Ok::<Seq<Seq<char>>, Failure>(texts(expanded@)),
        decreases inputs.len() - i,
    {
        let input = &inputs[i];
        let ghost before = texts(expanded@);
        let ghost earlier = seen;
        let ghost upto = all.take(i as int + 1);
        proof {
            assert(upto.drop_last() =~= all.take(i as int));
            assert(upto.last() == input@);
        }
        if has_wildcard(input.as_str()) {
            let outcome = match_pattern(input.as_str());
            proof {
                seen = earlier.push(outcome@);
                assert(seen.drop_last() =~= earlier);
                assert(input_resolution(input@, outcome@) == resolution(input@, outcome@));
            }
            match resolve_pattern(input.as_str(), outcome) {
                Ok(matches) => {
                    extend_list(&mut expanded, &matches);
                    assert(expansion(upto, seen) == Ok::<Seq<Seq<char>>, Failure>(
                        texts(expanded@),
                    ));
                },
                Err(e) => {
                    proof {
                        assert(expansion(upto, seen) == Err::<Seq<Seq<char>>, Failure>(e@));
                        let padded = seen + Seq::new(
                            (inputs.len() - i - 1) as nat,
                            |k: int| filler,
                        );
                        assert(padded.take(i as int + 1) =~= seen);
                        lemma_failure_is_final(all, padded, i as int + 1, e@);
                        assert(list_result_is(Err(e), expansion(all, padded)));
                        lemma_not_all_literal(all, i as int);
                    }
                    return Err(e);
                },
            }
        } else {
            expanded.push(input.clone());
            proof {
                seen = earlier.push(filler);
                assert(seen.drop_last() =~= earlier);
                assert(texts(expanded@) =~= before + seq![input@]);
                assert(expansion(upto, seen) == Ok::<Seq<Seq<char>>, Failure>(texts(expanded@)));
            }
        }
        i += 1;
    }
    proof {
        assert(all.take(inputs.len() as int) =~= all);
        if forall|i: int| 0 <= i < inputs.len() ==> !is_pattern(#[trigger] inputs@[i]@) {
            assert forall|i: int| 0 <= i < all.len() implies !is_pattern(#[trigger] all[i]) by {
                assert(all[i] == inputs@[i]@);
            }
            law_literals_resolve_to_themselves(all, seen);
        }
    }
    Ok(expanded)
}

/// A list that holds a pattern at `i` is not a list of literals.
proof fn lemma_not_all_literal(all: Seq<Seq<char>>, i: int)
    requires
        0 <= i < all.len(),
        is_pattern(all[i]),
    ensures
        !(forall|k: int| 0 <= k < all.len() ==> !is_pattern(#[trigger] all[k])),
{
}

/// The path of the object file of `input`.
pub fn object_path(input: &str) -> (object: String)
    ensures
        object@ == object_of(input@),
{
    joined(input, ".o")
}

/// The assembler's command line for `input`; in a dry run it is what would
/// have been run.
pub fn assembler_invocation(input: &str, config: &Config) -> (command: Invocation)
    ensures
        command@ == assembler_command(input@, config@),
{
    let mut args: Vec<String> = Vec::new();
    args.push(String::from_str(input));
    args.push(String::from_str("-o"));
    args.push(object_path(input));
    assert(texts(args@) =~= seq![input@, "-o"@, object_of(input@)]);
    extend_list(&mut args, &config.assembler_flags);
    Invocation { program: config.assembler.clone(), args }
}

/// The compile stage for one input: refuses an input that still holds a
/// `*`, and otherwise names the artifact and, unless this is a dry run, the
/// assembler command that produces it.
pub fn assemble(input: &str, config: &Config) -> (result: Result<CompileStep, BuildError>)
    ensures
        (match assembly(input@, config@) {
            Ok(step) => result matches Ok(s) && s@ == step,
            Err(failure) => result matches Err(e) && e@ == failure,
        }),
{
    let chars = chars_of(input);
    if contains_char(&chars, '*') {
        return Err(BuildError::Unexpanded { input: String::from_str(input) });
    }
    let artifact = CompileArtifact { input: String::from_str(input), object: object_path(input) };
    if config.dry_run {
        Ok(CompileStep::Done { artifact })
    } else {
        Ok(CompileStep::Run { command: assembler_invocation(input, config), artifact })
    }
}

/// Concludes the compile stage for one input from the run of the assembler:
/// the artifact when the run succeeded, and otherwise the failure of the
/// run. Nothing is tried again.
pub fn assembled(artifact: CompileArtifact, run: &ToolRun) -> (result: Result<
    CompileArtifact,
    BuildError,
>)
    ensures
        (match run_failure(Tool::Assembler, run@) {
            None => result == Ok::<CompileArtifact, BuildError>(artifact),
            Some(failure) => result matches Err(e) && e@ == failure,
        }),
{
    match judge(Tool::Assembler, run) {
        Ok(()) => Ok(artifact),
        Err(e) => Err(e),
    }
}

} // verus!
