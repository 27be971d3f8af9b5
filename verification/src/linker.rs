//! The link stage: how the external linker is to be run on the artifacts,
//! and where, on Apple-style platforms, the system library root comes from.

use vstd::prelude::*;
use vstd::string::*;
use crate::cli::{Config, Settings};
use crate::error::{BuildError, Tool};
use crate::text::{chars_of, extend_list, joined, texts};
use crate::tool::{judge, run_failure, CommandLine, Invocation, Platform, RunView, ToolRun};

verus! {

broadcast use vstd::string::group_string_axioms;

/// What the link stage asks for.
#[derive(Debug, PartialEq, Eq)]
pub enum LinkStep {
    /// Nothing is to be run: the link counts as done.
    Done,
    /// This command is to be run, once.
    Run { command: Invocation },
}

/// The mathematical content of a [`LinkStep`].
pub enum LinkView {
    Done,
    Run { command: CommandLine },
}

impl View for LinkStep {
    type V = LinkView;

    open spec fn view(&self) -> LinkView {
        match *self {
            LinkStep::Done => LinkView::Done,
            LinkStep::Run { command } => LinkView::Run { command: command@ },
        }
    }
}

/// Whether `c` is white space: one of the code points that the Unicode
/// Character Database gives the property White_Space. These are the
/// controls from tab to carriage return, the space, the next-line control,
/// the no-break space, the ogham space mark, the spaces from en quad to hair
/// space, the line and paragraph separators, the narrow no-break space, the
/// medium mathematical space and the ideographic space.
pub open spec fn white_space(c: char) -> bool {
    let n = c as u32;
    ||| 0x09 <= n <= 0x0D
    ||| n == 0x20
    ||| n == 0x85
    ||| n == 0xA0
    ||| n == 0x1680
    ||| 0x2000 <= n <= 0x200A
    ||| n == 0x2028
    ||| n == 0x2029
    ||| n == 0x202F
    ||| n == 0x205F
    ||| n == 0x3000
}

/// `s` from `from` up to `to` is `s` without its leading and trailing white
/// space.
pub open spec fn is_trim(s: Seq<char>, from: int, to: int) -> bool {
    &&& 0 <= from <= to <= s.len()
    &&& forall|k: int| 0 <= k < from ==> white_space(#[trigger] s[k])
    &&& forall|k: int| to <= k < s.len() ==> white_space(#[trigger] s[k])
    &&& from < to ==> !white_space(s[from]) && !white_space(s[to - 1])
}

/// `s` without its leading and trailing white space.
pub open spec fn trimmed(s: Seq<char>) -> Seq<char> {
    let (from, to) = choose|from: int, to: int| is_trim(s, from, to);
    s.subrange(from, to)
}

/// The characters of an optional path.
pub open spec fn opt_path(path: Option<String>) -> Option<Seq<char>> {
    match path {
        Some(p) => Some(p@),
        None => None,
    }
}

/// The library search root handed to the linker: the queried root, or the
/// file system's root when the query gave none.
pub open spec fn sdk_root(sdk_path: Option<Seq<char>>) -> Seq<char> {
    match sdk_path {
        Some(path) => path,
        None => "/"@,
    }
}

/// The linker's command line. On Apple-style platforms the C compiler
/// front-end is run with the system library, the library search root, the
/// entry symbol and the target architecture; elsewhere the linker itself,
/// with none of these. Then come the artifacts in their order, the output
/// flag with the output path, and the extra flags as they are.
pub open spec fn link_command(
    objects: Seq<Seq<char>>,
    c: Settings,
    platform: Platform,
    sdk_path: Option<Seq<char>>,
) -> CommandLine {
    let tail = objects + seq!["-o"@, c.output_file] + c.extra_flags;
    match platform {
        Platform::MacOs => CommandLine {
            program: "clang"@,
            args: seq![
                "-lSystem"@,
                "-Wl,-syslibroot,"@ + sdk_root(sdk_path),
                "-e"@,
                "_start"@,
                "-arch"@,
                c.target,
            ] + tail,
        },
        Platform::Other => CommandLine { program: "ld"@, args: tail },
    }
}

/// What the link stage asks for: nothing in a dry run, else one run of the
/// linker.
pub open spec fn linking(
    objects: Seq<Seq<char>>,
    c: Settings,
    platform: Platform,
    sdk_path: Option<Seq<char>>,
) -> LinkView {
    if c.dry_run {
        LinkView::Done
    } else {
        LinkView::Run { command: link_command(objects, c, platform, sdk_path) }
    }
}

/// The query that finds the system library root: none but on Apple-style
/// platforms.
pub open spec fn sdk_query_of(platform: Platform) -> Option<CommandLine> {
    match platform {
        Platform::MacOs => Some(
            CommandLine {
                program: "xcrun"@,
                args: seq!["--sdk"@, "macosx"@, "--show-sdk-path"@],
            },
        ),
        Platform::Other => None,
    }
}

/// The system library root a run of the query gave: on Apple-style
/// platforms, what a successful run printed, trimmed; otherwise none.
pub open spec fn sdk_path_of(platform: Platform, run: RunView) -> Option<Seq<char>> {
    match (platform, run) {
        (Platform::MacOs, RunView::Exited { success: true, stdout, stderr }) => Some(
            trimmed(stdout),
        ),
        _ => None,
    }
}

/// Any two trims of a sequence are the same characters.
proof fn lemma_trim_unique(s: Seq<char>, a: int, b: int, x: int, y: int)
    requires
        is_trim(s, a, b),
        is_trim(s, x, y),
    ensures
        s.subrange(a, b) == s.subrange(x, y),
{
    if a == b && x == y {
        assert(s.subrange(a, b) =~= s.subrange(x, y));
    } else if a == b {
        assert(white_space(s[x]));
    } else if x == y {
        assert(white_space(s[a]));
    } else {
        if a < x {
            assert(white_space(s[a]));
        }
        if x < a {
            assert(white_space(s[x]));
        }
        if b < y {
            assert(white_space(s[y - 1]));
        }
        if y < b {
            assert(white_space(s[b - 1]));
        }
    }
}

/// The position of the first character from `i` on that is no white space,
/// or the length where there is none.
proof fn lemma_leading(s: Seq<char>, i: int) -> (from: int)
    requires
        0 <= i <= s.len(),
        forall|k: int| 0 <= k < i ==> white_space(#[trigger] s[k]),
    ensures
        i <= from <= s.len(),
        forall|k: int| 0 <= k < from ==> white_space(#[trigger] s[k]),
        from < s.len() ==> !white_space(s[from]),
    decreases s.len() - i,
{
    if i < s.len() && white_space(s[i]) {
        lemma_leading(s, i + 1)
    } else {
        i
    }
}

/// The position after the last character before `j`, and not before
/// `from`, that is no white space, or `from` where there is none.
proof fn lemma_trailing(s: Seq<char>, from: int, j: int) -> (to: int)
    requires
        0 <= from <= j <= s.len(),
        forall|k: int| j <= k < s.len() ==> white_space(#[trigger] s[k]),
    ensures
        from <= to <= j,
        forall|k: int| to <= k < s.len() ==> white_space(#[trigger] s[k]),
        from < to ==> !white_space(s[to - 1]),
    decreases j,
{
    if from < j && white_space(s[j - 1]) {
        lemma_trailing(s, from, j - 1)
    } else {
        j
    }
}

/// Every sequence has its trim: what [`trimmed`] gives is the sequence
/// between a leading and a trailing stretch of white space, and it neither
/// begins nor ends with white space.
pub proof fn law_trimmed_is_the_trim(s: Seq<char>)
    ensures
        exists|from: int, to: int| is_trim(s, from, to) && trimmed(s) == s.subrange(from, to),
        trimmed(s).len() > 0 ==> !white_space(trimmed(s).first()) && !white_space(
            trimmed(s).last(),
        ),
{
    let from = lemma_leading(s, 0);
    let to = lemma_trailing(s, from, s.len() as int);
    assert(is_trim(s, from, to));
    let (x, y) = choose|x: int, y: int| is_trim(s, x, y);
    lemma_trim_unique(s, from, to, x, y);
}

/// Asks `char::is_whitespace` whether `c` is white space. The standard
/// library documents the answer as the Unicode property White_Space; the
/// claim is that this is the set of code points that [`white_space`] lists.
#[verifier::external_body]
fn is_white_space(c: char) -> (yes: bool)
    ensures
        yes == white_space(c),
{
    c.is_whitespace()
}

/// `text` without its leading and trailing white space.
pub fn trim(text: &str) -> (out: String)
    ensures
        out@ == trimmed(text@),
{
    let chars = chars_of(text);
    let mut from: usize = 0;
    while from < chars.len() && is_white_space(chars[from])
        invariant
            from <= chars.len(),
            forall|k: int| 0 <= k < from ==> white_space(#[trigger] chars@[k]),
        decreases chars.len() - from,
    {
        from += 1;
    }
    let mut to: usize = chars.len();
    while to > from && is_white_space(chars[to - 1])
        invariant
            from <= to <= chars.len(),
            forall|k: int| to <= k < chars.len() ==> white_space(#[trigger] chars@[k]),
        decreases to,
    {
        to -= 1;
    }
    proof {
        assert(is_trim(text@, from as int, to as int));
        let (x, y) = choose|x: int, y: int| is_trim(text@, x, y);
        lemma_trim_unique(text@, from as int, to as int, x, y);
    }
    String::from_str(text.substring_char(from, to))
}

/// The query that finds the system library root, where the platform has
/// one.
pub fn sdk_query(platform: Platform) -> (query: Option<Invocation>)
    ensures
        (match sdk_query_of(platform) {
            Some(command) => query matches Some(q) && q@ == command,
            None => query is None,
        }),
{
    match platform {
        Platform::MacOs => {
            let mut args: Vec<String> = Vec::new();
            args.push(String::from_str("--sdk"));
            args.push(String::from_str("macosx"));
            args.push(String::from_str("--show-sdk-path"));
            assert(texts(args@) =~= seq!["--sdk"@, "macosx"@, "--show-sdk-path"@]);
            Some(Invocation { program: String::from_str("xcrun"), args })
        },
        Platform::Other => None,
    }
}

/// The system library root, from the run of the query. The query is best
/// effort: a run that failed, or did not start, gives no root and is no
/// error.
pub fn get_sdk_path(platform: Platform, run: &ToolRun) -> (path: Option<String>)
    ensures
        (match sdk_path_of(platform, run@) {
            Some(text) => path matches Some(p) && p@ == text,
            None => path is None,
        }),
{
    match platform {
        Platform::MacOs => match run {
            ToolRun::Exited { success, stdout, stderr: _ } => {
                if *success {
                    Some(trim(stdout.as_str()))
                } else {
                    None
                }
            },
            ToolRun::NotStarted { detail: _ } => None,
        },
        Platform::Other => None,
    }
}

/// The linker's command line for the artifacts; in a dry run it is what
/// would have been run.
pub fn link_invocation(
    object_files: &[String],
    config: &Config,
    platform: Platform,
    sdk_path: &Option<String>,
) -> (command: Invocation)
    ensures
        command@ == link_command(texts(object_files@), config@, platform, opt_path(*sdk_path)),
{
    let mut args: Vec<String> = Vec::new();
    let program = match platform {
        Platform::MacOs => {
            let root = match sdk_path {
                Some(path) => joined("-Wl,-syslibroot,", path.as_str()),
                None => joined("-Wl,-syslibroot,", "/"),
            };
            args.push(String::from_str("-lSystem"));
            args.push(root);
            args.push(String::from_str("-e"));
            args.push(String::from_str("_start"));
            args.push(String::from_str("-arch"));
            args.push(config.target.clone());
            String::from_str("clang")
        },
        Platform::Other => String::from_str("ld"),
    };
    let ghost head = texts(args@);
    extend_list(&mut args, object_files);
    args.push(String::from_str("-o"));
    args.push(config.output_file.clone());
    let ghost middle = texts(args@);
    assert(middle =~= head + texts(object_files@) + seq!["-o"@, config.output_file@]);
    extend_list(&mut args, &config.extra_flags);
    proof {
        let tail = texts(object_files@) + seq!["-o"@, config.output_file@] + texts(
            config.extra_flags@,
        );
        assert(texts(args@) =~= head + tail);
        match platform {
            Platform::MacOs => {
                assert(head =~= seq![
                    "-lSystem"@,
                    "-Wl,-syslibroot,"@ + sdk_root(opt_path(*sdk_path)),
                    "-e"@,
                    "_start"@,
                    "-arch"@,
                    config.target@,
                ]);
            },
            Platform::Other => {
                assert(head =~= Seq::empty());
                assert(head + tail =~= tail);
            },
        }
    }
    Invocation { program, args }
}

/// The link stage: one run of the linker on all the artifacts, in their
/// order, or nothing in a dry run.
pub fn link(
    object_files: &[String],
    config: &Config,
    platform: Platform,
    sdk_path: Option<String>,
) -> (step: LinkStep)
    ensures
        step@ == linking(texts(object_files@), config@, platform, opt_path(sdk_path)),
{
    if config.dry_run {
        LinkStep::Done
    } else {
        LinkStep::Run { command: link_invocation(object_files, config, platform, &sdk_path) }
    }
}

/// Concludes the link stage from the run of the linker: a failure status is
/// a tool error carrying the captured standard error.
pub fn linked(run: &ToolRun) -> (result: Result<(), BuildError>)
    ensures
        result is Ok <==> run_failure(Tool::Linker, run@) is None,
        result matches Err(e) ==> run_failure(Tool::Linker, run@) == Some(e@),
{
    judge(Tool::Linker, run)
}

} // verus!
