//! The effective settings of one invocation: the record itself, the rule that
//! layers a configuration file under the command line, and validation.

use vstd::prelude::*;
use vstd::string::*;
use crate::error::{ConfigError, ConfigProblem};
use crate::text::{chars_of, copy_list, is_least, lemma_least_exists, same_text, texts};
use crate::tool::Platform;

verus! {

broadcast use vstd::string::group_string_axioms;

/// When console output is coloured.
#[derive(Clone, Copy, Debug, PartialEq, Eq, Structural)]
pub enum ColorMode {
    Always,
    Never,
    /// Coloured exactly when standard output is a terminal.
    Auto,
}

/// What the program does once its configuration is settled.
#[derive(Clone, Copy, Debug, PartialEq, Eq, Structural)]
pub enum Mode {
    /// Rebuild on every qualifying change, until interrupted.
    Watch,
    /// Remove the artifacts and the output.
    Clean,
    /// Run the build pipeline once.
    Build,
}

/// Which settings their source gave in so many words, as opposed to leaving
/// them at their defaults. Layering goes by this record and never by
/// comparing a value with its default.
#[derive(Clone, Copy, Debug, PartialEq, Eq, Structural)]
pub struct Explicit {
    pub input_files: bool,
    pub output_file: bool,
    pub extra_flags: bool,
    pub assembler: bool,
    pub assembler_flags: bool,
    pub target: bool,
    pub color: bool,
}

/// The merged, effective settings record.
#[derive(Debug, PartialEq, Eq)]
pub struct Config {
    /// Literal paths and wildcard patterns, in the order given; this is also
    /// the order of the artifacts and of the linker's arguments.
    pub input_files: Vec<String>,
    /// Where the linked executable goes.
    pub output_file: String,
    /// Appended as they are to the linker's arguments.
    pub extra_flags: Vec<String>,
    /// The assembler's name or path.
    pub assembler: String,
    /// Appended to every assembler invocation.
    pub assembler_flags: Vec<String>,
    /// The target architecture.
    pub target: String,
    pub verbose: bool,
    pub dry_run: bool,
    pub clean: bool,
    pub watch: bool,
    pub color: ColorMode,
    /// The configuration file that was consumed, if any.
    pub config_file: Option<String>,
    /// Which of the settings above were given explicitly.
    pub explicit: Explicit,
}

/// The mathematical content of a [`Config`].
pub struct Settings {
    pub input_files: Seq<Seq<char>>,
    pub output_file: Seq<char>,
    pub extra_flags: Seq<Seq<char>>,
    pub assembler: Seq<char>,
    pub assembler_flags: Seq<Seq<char>>,
    pub target: Seq<char>,
    pub verbose: bool,
    pub dry_run: bool,
    pub clean: bool,
    pub watch: bool,
    pub color: ColorMode,
    pub config_file: Option<Seq<char>>,
    pub explicit: Explicit,
}

impl View for Config {
    type V = Settings;

    open spec fn view(&self) -> Settings {
        Settings {
            input_files: texts(self.input_files@),
            output_file: self.output_file@,
            extra_flags: texts(self.extra_flags@),
            assembler: self.assembler@,
            assembler_flags: texts(self.assembler_flags@),
            target: self.target@,
            verbose: self.verbose,
            dry_run: self.dry_run,
            clean: self.clean,
            watch: self.watch,
            color: self.color,
            config_file: match self.config_file {
                Some(path) => Some(path@),
                None => None,
            },
            explicit: self.explicit,
        }
    }
}

/// What the command line gave: lists as given, possibly empty, and each
/// other setting only where the operator wrote it.
#[derive(Debug, PartialEq, Eq)]
pub struct Args {
    pub input_files: Vec<String>,
    pub output_file: Option<String>,
    pub extra_flags: Vec<String>,
    pub assembler: Option<String>,
    pub assembler_flags: Vec<String>,
    pub target: Option<String>,
    pub verbose: bool,
    pub dry_run: bool,
    pub clean: bool,
    pub watch: bool,
    pub color: Option<String>,
    pub config_file: Option<String>,
}

/// The mathematical content of an [`Args`].
pub struct ArgsView {
    pub input_files: Seq<Seq<char>>,
    pub output_file: Option<Seq<char>>,
    pub extra_flags: Seq<Seq<char>>,
    pub assembler: Option<Seq<char>>,
    pub assembler_flags: Seq<Seq<char>>,
    pub target: Option<Seq<char>>,
    pub verbose: bool,
    pub dry_run: bool,
    pub clean: bool,
    pub watch: bool,
    pub color: Option<Seq<char>>,
    pub config_file: Option<Seq<char>>,
}

impl View for Args {
    type V = ArgsView;

    open spec fn view(&self) -> ArgsView {
        ArgsView {
            input_files: texts(self.input_files@),
            output_file: opt_text(self.output_file),
            extra_flags: texts(self.extra_flags@),
            assembler: opt_text(self.assembler),
            assembler_flags: texts(self.assembler_flags@),
            target: opt_text(self.target),
            verbose: self.verbose,
            dry_run: self.dry_run,
            clean: self.clean,
            watch: self.watch,
            color: opt_text(self.color),
            config_file: opt_text(self.config_file),
        }
    }
}

impl Clone for Config {
    fn clone(&self) -> (copy: Config)
        ensures
            copy@ == self@,
    {
        Config {
            input_files: copy_list(&self.input_files),
            output_file: self.output_file.clone(),
            extra_flags: copy_list(&self.extra_flags),
            assembler: self.assembler.clone(),
            assembler_flags: copy_list(&self.assembler_flags),
            target: self.target.clone(),
            verbose: self.verbose,
            dry_run: self.dry_run,
            clean: self.clean,
            watch: self.watch,
            color: self.color,
            config_file: match &self.config_file {
                Some(path) => Some(path.clone()),
                None => None,
            },
            explicit: self.explicit,
        }
    }
}

/// The architecture targeted when none is given.
pub open spec fn default_target_text(platform: Platform) -> Seq<char> {
    match platform {
        Platform::MacOs => "arm64"@,
        Platform::Other => "x86_64"@,
    }
}

/// The colour mode a name stands for; every name but `always` and `never`
/// stands for `Auto`.
pub open spec fn color_of(name: Seq<char>) -> ColorMode {
    if name == "always"@ {
        ColorMode::Always
    } else if name == "never"@ {
        ColorMode::Never
    } else {
        ColorMode::Auto
    }
}

/// The characters of an optional string.
pub open spec fn opt_text(value: Option<String>) -> Option<Seq<char>> {
    match value {
        Some(s) => Some(s@),
        None => None,
    }
}

/// An optional text, or `fallback`.
pub open spec fn text_or(value: Option<Seq<char>>, fallback: Seq<char>) -> Seq<char> {
    match value {
        Some(text) => text,
        None => fallback,
    }
}

/// The colour mode an optional name stands for; none stands for `Auto`.
pub open spec fn color_or_auto(value: Option<Seq<char>>) -> ColorMode {
    match value {
        Some(name) => color_of(name),
        None => ColorMode::Auto,
    }
}

/// The settings the command line amounts to: what the operator wrote, and
/// the built-in default wherever nothing was written. A list counts as
/// given when it is not empty, every other setting when it was written.
pub open spec fn settings_from_args(a: ArgsView, platform: Platform) -> Settings {
    Settings {
        input_files: a.input_files,
        output_file: text_or(a.output_file, Seq::empty()),
        extra_flags: a.extra_flags,
        assembler: text_or(a.assembler, "as"@),
        assembler_flags: a.assembler_flags,
        target: text_or(a.target, default_target_text(platform)),
        verbose: a.verbose,
        dry_run: a.dry_run,
        clean: a.clean,
        watch: a.watch,
        color: color_or_auto(a.color),
        config_file: a.config_file,
        explicit: Explicit {
            input_files: a.input_files.len() > 0,
            output_file: a.output_file is Some,
            extra_flags: a.extra_flags.len() > 0,
            assembler: a.assembler is Some,
            assembler_flags: a.assembler_flags.len() > 0,
            target: a.target is Some,
            color: a.color is Some,
        },
    }
}

/// The segment of `path` that starts at position `i` is exactly two dots:
/// the two dots stand at the start of the path or right after a `/`, and at
/// the end of the path or right before a `/`.
pub open spec fn is_parent_segment(path: Seq<char>, i: int) -> bool {
    &&& 0 <= i && i + 1 < path.len()
    &&& path[i] == '.' && path[i + 1] == '.'
    &&& (i == 0 || path[i - 1] == '/')
    &&& (i + 2 == path.len() || path[i + 2] == '/')
}

/// A path holds a parent-directory traversal when one of its segments,
/// the stretches between its `/`, is exactly two dots. Dots inside a name,
/// as in `a..b.s`, climb nowhere.
pub open spec fn has_traversal(path: Seq<char>) -> bool {
    exists|i: int| is_parent_segment(path, i)
}

/// `i` is the position of the first path of `paths` that holds a traversal.
pub open spec fn is_first_traversal(paths: Seq<Seq<char>>, i: int) -> bool {
    &&& 0 <= i < paths.len()
    &&& has_traversal(paths[i])
    &&& forall|j: int| 0 <= j < i ==> !has_traversal(#[trigger] paths[j])
}

/// The one problem validation reports for these settings, if any. The checks
/// run in a fixed order: inputs present, output present, assembler present,
/// then the first input that holds a traversal, then the output.
pub open spec fn first_problem(c: Settings) -> Option<ConfigProblem> {
    if c.input_files.len() == 0 {
        Some(ConfigProblem::NoInputFiles)
    } else if c.output_file.len() == 0 {
        Some(ConfigProblem::NoOutputFile)
    } else if c.assembler.len() == 0 {
        Some(ConfigProblem::NoAssembler)
    } else if exists|i: int|
        0 <= i < c.input_files.len() && has_traversal(#[trigger] c.input_files[i]) {
        let first = choose|i: int| is_first_traversal(c.input_files, i);
        Some(ConfigProblem::InputTraversal(c.input_files[first]))
    } else if has_traversal(c.output_file) {
        Some(ConfigProblem::OutputTraversal(c.output_file))
    } else {
        None
    }
}

/// Settings that a build may start from.
pub open spec fn valid(c: Settings) -> bool {
    &&& c.input_files.len() > 0
    &&& c.output_file.len() > 0
    &&& c.assembler.len() > 0
    &&& forall|i: int| 0 <= i < c.input_files.len() ==> !has_traversal(#[trigger] c.input_files[i])
    &&& !has_traversal(c.output_file)
}

/// Validation reports a problem exactly for the settings that are not
/// valid, and a reported traversal is one of the settings' own paths.
pub proof fn law_problems_are_the_invalid_settings(c: Settings)
    ensures
        first_problem(c) is None <==> valid(c),
        first_problem(c) matches Some(ConfigProblem::InputTraversal(path)) ==> has_traversal(path)
            && c.input_files.contains(path),
        first_problem(c) matches Some(ConfigProblem::OutputTraversal(path)) ==> has_traversal(path)
            && path == c.output_file,
{
    if c.input_files.len() > 0 && c.output_file.len() > 0 && c.assembler.len() > 0 {
        if exists|i: int|
            0 <= i < c.input_files.len() && has_traversal(#[trigger] c.input_files[i]) {
            let climbs = |i: int| has_traversal(c.input_files[i]);
            assert(exists|i: int| 0 <= i < c.input_files.len() && #[trigger] climbs(i)) by {
                let i = choose|i: int|
                    0 <= i < c.input_files.len() && has_traversal(#[trigger] c.input_files[i]);
                assert(climbs(i));
            }
            lemma_least_exists(climbs, c.input_files.len() as int);
            let least = choose|i: int| is_least(climbs, c.input_files.len() as int, i);
            assert(is_first_traversal(c.input_files, least)) by {
                assert forall|j: int| 0 <= j < least implies !has_traversal(
                    #[trigger] c.input_files[j],
                ) by {
                    assert(!climbs(j));
                }
            }
            let first = choose|i: int| is_first_traversal(c.input_files, i);
            assert(c.input_files.contains(c.input_files[first]));
        }
    }
}

/// The result of layering the settings of a configuration file under those of
/// the command line.
///
/// A list comes from the file when the command line did not give it
/// explicitly and the file's is not empty; so does the output path, which
/// has no default, so that an empty one stands for none. The assembler, the
/// target and the colour mode have defaults, and come from the file when
/// the command line did not give them explicitly and the file did. Each
/// flag is the logical or of both. What the command line gave explicitly is
/// never replaced, nor is the record of what it gave, nor the path of the
/// consumed file.
pub open spec fn merged(base: Settings, file: Settings) -> Settings {
    Settings {
        input_files: if !base.explicit.input_files && file.input_files.len() > 0 {
            file.input_files
        } else {
            base.input_files
        },
        output_file: if !base.explicit.output_file && file.output_file.len() > 0 {
            file.output_file
        } else {
            base.output_file
        },
        extra_flags: if !base.explicit.extra_flags && file.extra_flags.len() > 0 {
            file.extra_flags
        } else {
            base.extra_flags
        },
        assembler: if !base.explicit.assembler && file.explicit.assembler {
            file.assembler
        } else {
            base.assembler
        },
        assembler_flags: if !base.explicit.assembler_flags && file.assembler_flags.len() > 0 {
            file.assembler_flags
        } else {
            base.assembler_flags
        },
        target: if !base.explicit.target && file.explicit.target {
            file.target
        } else {
            base.target
        },
        verbose: base.verbose || file.verbose,
        dry_run: base.dry_run || file.dry_run,
        clean: base.clean || file.clean,
        watch: base.watch || file.watch,
        color: if !base.explicit.color && file.explicit.color {
            file.color
        } else {
            base.color
        },
        config_file: base.config_file,
        explicit: base.explicit,
    }
}

/// The command line wins: layering keeps every setting that the command
/// line gave explicitly, takes from the file what the command line did not
/// give and the file does, and raises every flag that either side raises.
pub proof fn law_command_line_wins(base: Settings, file: Settings)
    ensures
        ({
            let m = merged(base, file);
            &&& base.explicit.input_files ==> m.input_files == base.input_files
            &&& base.explicit.output_file ==> m.output_file == base.output_file
            &&& base.explicit.extra_flags ==> m.extra_flags == base.extra_flags
            &&& base.explicit.assembler ==> m.assembler == base.assembler
            &&& base.explicit.assembler_flags ==> m.assembler_flags == base.assembler_flags
            &&& base.explicit.target ==> m.target == base.target
            &&& base.explicit.color ==> m.color == base.color
            &&& !base.explicit.input_files && file.input_files.len() > 0 ==> m.input_files
                == file.input_files
            &&& !base.explicit.extra_flags && file.extra_flags.len() > 0 ==> m.extra_flags
                == file.extra_flags
            &&& !base.explicit.assembler_flags && file.assembler_flags.len() > 0
                ==> m.assembler_flags == file.assembler_flags
            &&& !base.explicit.output_file && file.output_file.len() > 0 ==> m.output_file
                == file.output_file
            &&& !base.explicit.assembler && file.explicit.assembler ==> m.assembler
                == file.assembler
            &&& !base.explicit.target && file.explicit.target ==> m.target == file.target
            &&& !base.explicit.color && file.explicit.color ==> m.color == file.color
            &&& m.verbose == (base.verbose || file.verbose)
            &&& m.dry_run == (base.dry_run || file.dry_run)
            &&& m.clean == (base.clean || file.clean)
            &&& m.watch == (base.watch || file.watch)
        }),
{
}

/// Layering the same file a second time changes nothing.
pub proof fn law_merge_is_idempotent(base: Settings, file: Settings)
    ensures
        merged(merged(base, file), file) == merged(base, file),
{
}

/// The mode a configuration selects: watching takes precedence over
/// cleaning, and cleaning over building.
pub open spec fn mode_of(c: Settings) -> Mode {
    if c.watch {
        Mode::Watch
    } else if c.clean {
        Mode::Clean
    } else {
        Mode::Build
    }
}

/// The architecture targeted when none is given: `arm64` on Apple-style
/// platforms, `x86_64` elsewhere.
pub fn default_target(platform: Platform) -> (target: String)
    ensures
        target@ == default_target_text(platform),
{
    match platform {
        Platform::MacOs => String::from_str("arm64"),
        Platform::Other => String::from_str("x86_64"),
    }
}

/// An optional text, or `fallback`.
pub(crate) fn take_text(value: Option<String>, fallback: String) -> (text: String)
    ensures
        text@ == text_or(opt_text(value), fallback@),
{
    match value {
        Some(text) => text,
        None => fallback,
    }
}

/// The colour mode an optional name stands for.
pub(crate) fn take_color(value: &Option<String>) -> (mode: ColorMode)
    ensures
        mode == color_or_auto(opt_text(*value)),
{
    match value {
        Some(name) => ColorMode::from_name(name.as_str()),
        None => ColorMode::Auto,
    }
}

/// Replaces `base` by `file` when `vacant` holds and `file` is not empty.
fn layer_list(base: &mut Vec<String>, vacant: bool, file: Vec<String>)
    ensures
        texts(final(base)@) == (if vacant && file@.len() > 0 {
            texts(file@)
        } else {
            texts(old(base)@)
        }),
{
    if vacant && file.len() > 0 {
        *base = file;
    }
}

/// Replaces `base` by `file` when `replace` holds.
fn layer_text(base: &mut String, replace: bool, file: String)
    ensures
        final(base)@ == (if replace {
            file@
        } else {
            old(base)@
        }),
{
    if replace {
        *base = file;
    }
}

/// Whether one of the segments of `path` is exactly two dots.
pub fn holds_traversal(path: &str) -> (found: bool)
    ensures
        found == has_traversal(path@),
{
    let chars = chars_of(path);
    if chars.len() < 2 {
        return false;
    }
    let mut i: usize = 0;
    while i + 1 < chars.len()
        invariant
            chars@ == path@,
            i + 1 <= chars.len(),
            forall|j: int| 0 <= j < i ==> !is_parent_segment(chars@, j),
        decreases chars.len() - i,
    {
        let starts = i == 0 || chars[i - 1] == '/';
        let ends = i + 2 == chars.len() || chars[i + 2] == '/';
        if starts && ends && chars[i] == '.' && chars[i + 1] == '.' {
            assert(is_parent_segment(path@, i as int));
            return true;
        }
        i += 1;
    }
    false
}

/// The settings the command line amounts to, from what was parsed off it:
/// what the operator wrote, the built-in default for the rest, and the
/// record of which is which.
pub fn parse_args(args: Args, platform: Platform) -> (config: Config)
    ensures
        config@ == settings_from_args(args@, platform),
{
    let explicit = Explicit {
        input_files: args.input_files.len() > 0,
        output_file: args.output_file.is_some(),
        extra_flags: args.extra_flags.len() > 0,
        assembler: args.assembler.is_some(),
        assembler_flags: args.assembler_flags.len() > 0,
        target: args.target.is_some(),
        color: args.color.is_some(),
    };
    let color = take_color(&args.color);
    Config {
        input_files: args.input_files,
        output_file: take_text(args.output_file, String::new()),
        extra_flags: args.extra_flags,
        assembler: take_text(args.assembler, String::from_str("as")),
        assembler_flags: args.assembler_flags,
        target: take_text(args.target, default_target(platform)),
        verbose: args.verbose,
        dry_run: args.dry_run,
        clean: args.clean,
        watch: args.watch,
        color,
        config_file: args.config_file,
        explicit,
    }
}

impl ColorMode {
    /// The colour mode `name` stands for.
    pub fn from_name(name: &str) -> (mode: ColorMode)
        ensures
            mode == color_of(name@),
    {
        if same_text(name, "always") {
            ColorMode::Always
        } else if same_text(name, "never") {
            ColorMode::Never
        } else {
            ColorMode::Auto
        }
    }

    /// Whether output is coloured, given whether standard output is a
    /// terminal.
    pub fn enabled(self, terminal: bool) -> (on: bool)
        ensures
            on == (match self {
                ColorMode::Always => true,
                ColorMode::Never => false,
                ColorMode::Auto => terminal,
            }),
    {
        match self {
            ColorMode::Always => true,
            ColorMode::Never => false,
            ColorMode::Auto => terminal,
        }
    }
}

impl Explicit {
    /// Nothing was given explicitly.
    pub fn none() -> (e: Explicit)
        ensures
            e == (Explicit {
                input_files: false,
                output_file: false,
                extra_flags: false,
                assembler: false,
                assembler_flags: false,
                target: false,
                color: false,
            }),
    {
        Explicit {
            input_files: false,
            output_file: false,
            extra_flags: false,
            assembler: false,
            assembler_flags: false,
            target: false,
            color: false,
        }
    }
}

impl Config {
    /// Layers the settings of a configuration file, `other`, under `self`,
    /// the settings of the command line.
    pub fn merge(&mut self, other: Config)
        ensures
            final(self)@ == merged(old(self)@, other@),
    {
        let Config {
            input_files,
            output_file,
            extra_flags,
            assembler,
            assembler_flags,
            target,
            verbose,
            dry_run,
            clean,
            watch,
            color,
            config_file: _,
            explicit: given,
        } = other;
        let mine = self.explicit;
        let output_given = !output_file.as_str().is_empty();
        layer_list(&mut self.input_files, !mine.input_files, input_files);
        layer_text(&mut self.output_file, !mine.output_file && output_given, output_file);
        layer_list(&mut self.extra_flags, !mine.extra_flags, extra_flags);
        layer_text(&mut self.assembler, !mine.assembler && given.assembler, assembler);
        layer_list(&mut self.assembler_flags, !mine.assembler_flags, assembler_flags);
        layer_text(&mut self.target, !mine.target && given.target, target);
        self.verbose = self.verbose || verbose;
        self.dry_run = self.dry_run || dry_run;
        self.clean = self.clean || clean;
        self.watch = self.watch || watch;
        if !mine.color && given.color {
            self.color = color;
        }
    }

    /// Checks the settings a build depends on, and names the first problem.
    pub fn validate(&self) -> (verdict: Result<(), ConfigError>)
        ensures
            verdict is Ok <==> valid(self@),
            verdict is Ok <==> first_problem(self@) is None,
            verdict matches Err(e) ==> first_problem(self@) == Some(e@),
    {
        if self.input_files.len() == 0 {
            return Err(ConfigError::NoInputFiles);
        }
        if self.output_file.as_str().is_empty() {
            return Err(ConfigError::NoOutputFile);
        }
        if self.assembler.as_str().is_empty() {
            return Err(ConfigError::NoAssembler);
        }
        let ghost paths = texts(self.input_files@);
        let mut i: usize = 0;
        while i < self.input_files.len()
            invariant
                i <= self.input_files.len(),
                paths == texts(self.input_files@),
                self.input_files@.len() > 0,
                self.output_file@.len() > 0,
                self.assembler@.len() > 0,
                forall|j: int| 0 <= j < i ==> !has_traversal(#[trigger] paths[j]),
            decreases self.input_files.len() - i,
        {
            if holds_traversal(self.input_files[i].as_str()) {
                proof {
                    assert(is_first_traversal(paths, i as int));
                    let first = choose|k: int| is_first_traversal(paths, k);
                    assert(first == i);
                }
                return Err(ConfigError::InputTraversal(self.input_files[i].clone()));
            }
            i += 1;
        }
        if holds_traversal(self.output_file.as_str()) {
            return Err(ConfigError::OutputTraversal(self.output_file.clone()));
        }
        Ok(())
    }

    /// The mode these settings select.
    pub fn mode(&self) -> (mode: Mode)
        ensures
            mode == mode_of(self@),
    {
        if self.watch {
            Mode::Watch
        } else if self.clean {
            Mode::Clean
        } else {
            Mode::Build
        }
    }
}

} // verus!
