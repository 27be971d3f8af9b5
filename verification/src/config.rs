//! The sources a configuration is layered from: the built-in defaults, the
//! command line, and an optional configuration file, which is either named
//! by the operator or found among the conventional names.

use vstd::prelude::*;
use vstd::string::*;
use crate::cli::{color_or_auto, default_target, default_target_text, first_problem, merged,
    opt_text, take_color, take_text, text_or, ColorMode, Config, Explicit, Settings};
use crate::error::ConfigError;
use crate::text::{is_least, lemma_least_exists, texts};
use crate::tool::Platform;

verus! {

/// The settings a configuration file may hold; every one of them is
/// optional.
#[derive(Debug, PartialEq, Eq)]
pub struct FileConfig {
    pub input_files: Option<Vec<String>>,
    pub output_file: Option<String>,
    pub extra_flags: Option<Vec<String>>,
    pub assembler: Option<String>,
    pub assembler_flags: Option<Vec<String>>,
    pub target: Option<String>,
    pub verbose: Option<bool>,
    pub dry_run: Option<bool>,
    pub clean: Option<bool>,
    pub watch: Option<bool>,
    pub color: Option<String>,
}

/// The mathematical content of a [`FileConfig`].
pub struct FileSettings {
    pub input_files: Option<Seq<Seq<char>>>,
    pub output_file: Option<Seq<char>>,
    pub extra_flags: Option<Seq<Seq<char>>>,
    pub assembler: Option<Seq<char>>,
    pub assembler_flags: Option<Seq<Seq<char>>>,
    pub target: Option<Seq<char>>,
    pub verbose: Option<bool>,
    pub dry_run: Option<bool>,
    pub clean: Option<bool>,
    pub watch: Option<bool>,
    pub color: Option<Seq<char>>,
}

/// The texts of an optional list.
pub open spec fn opt_texts(value: Option<Vec<String>>) -> Option<Seq<Seq<char>>> {
    match value {
        Some(list) => Some(texts(list@)),
        None => None,
    }
}

impl View for FileConfig {
    type V = FileSettings;

    open spec fn view(&self) -> FileSettings {
        FileSettings {
            input_files: opt_texts(self.input_files),
            output_file: opt_text(self.output_file),
            extra_flags: opt_texts(self.extra_flags),
            assembler: opt_text(self.assembler),
            assembler_flags: opt_texts(self.assembler_flags),
            target: opt_text(self.target),
            verbose: self.verbose,
            dry_run: self.dry_run,
            clean: self.clean,
            watch: self.watch,
            color: opt_text(self.color),
        }
    }
}

/// An optional list, or no entries.
pub open spec fn list_or_empty(value: Option<Seq<Seq<char>>>) -> Seq<Seq<char>> {
    match value {
        Some(list) => list,
        None => Seq::empty(),
    }
}

/// The settings a configuration file amounts to: what it holds, and the
/// built-in default wherever it holds nothing. A setting counts as given
/// exactly where the file holds it.
pub open spec fn settings_from_file(f: FileSettings, platform: Platform) -> Settings {
    Settings {
        input_files: list_or_empty(f.input_files),
        output_file: text_or(f.output_file, Seq::empty()),
        extra_flags: list_or_empty(f.extra_flags),
        assembler: text_or(f.assembler, "as"@),
        assembler_flags: list_or_empty(f.assembler_flags),
        target: text_or(f.target, default_target_text(platform)),
        verbose: f.verbose == Some(true),
        dry_run: f.dry_run == Some(true),
        clean: f.clean == Some(true),
        watch: f.watch == Some(true),
        color: color_or_auto(f.color),
        config_file: None,
        explicit: Explicit {
            input_files: f.input_files is Some,
            output_file: f.output_file is Some,
            extra_flags: f.extra_flags is Some,
            assembler: f.assembler is Some,
            assembler_flags: f.assembler_flags is Some,
            target: f.target is Some,
            color: f.color is Some,
        },
    }
}

/// The conventional names of a configuration file, in the order in which
/// they are probed in the working directory.
pub open spec fn candidates() -> Seq<Seq<char>> {
    seq![".rasm.toml"@, "rasm.toml"@, ".rasm/config.toml"@]
}

/// `i` is the position of the first candidate that is present.
pub open spec fn is_first_present(present: Seq<bool>, i: int) -> bool {
    &&& 0 <= i < present.len()
    &&& i < candidates().len()
    &&& present[i]
    &&& forall|j: int| 0 <= j < i ==> !present[j]
}

/// The configuration file that detection finds, given for each candidate
/// whether it is present: the first one that is, and none when none is.
pub open spec fn detected(present: Seq<bool>) -> Option<Seq<char>> {
    if exists|i: int| 0 <= i < present.len() && i < candidates().len() && present[i] {
        Some(candidates()[choose|i: int| is_first_present(present, i)])
    } else {
        None
    }
}

/// The path and the settings of a consumed configuration file.
pub open spec fn file_view(file: Option<(String, Config)>) -> Option<(Seq<char>, Settings)> {
    match file {
        Some((path, settings)) => Some((path@, settings@)),
        None => None,
    }
}

/// The effective settings: those of the command line alone when no
/// configuration file is consumed, and otherwise the file's layered under
/// them, with the file's path recorded.
pub open spec fn effective(cli: Settings, file: Option<(Seq<char>, Settings)>) -> Settings {
    match file {
        None => cli,
        Some((path, settings)) => Settings { config_file: Some(path), ..merged(cli, settings) },
    }
}

/// Detection finds a file exactly when one of the candidates is present,
/// and then the first of them in probing order.
pub proof fn law_detection_takes_the_first(present: Seq<bool>)
    ensures
        detected(present) is Some <==> exists|i: int|
            0 <= i < present.len() && i < candidates().len() && present[i],
        detected(present) is Some ==> exists|i: int|
            is_first_present(present, i) && detected(present) == Some(candidates()[i]),
{
    if detected(present) is Some {
        let there = |i: int| present[i];
        let n = if present.len() <= candidates().len() {
            present.len() as int
        } else {
            candidates().len() as int
        };
        assert(exists|i: int| 0 <= i < n && #[trigger] there(i)) by {
            let i = choose|i: int| 0 <= i < present.len() && i < candidates().len() && present[i];
            assert(there(i));
        }
        lemma_least_exists(there, n);
        let least = choose|i: int| is_least(there, n, i);
        assert(is_first_present(present, least)) by {
            assert forall|j: int| 0 <= j < least implies !present[j] by {
                assert(!there(j));
            }
        }
    }
}

/// A configuration file that holds nothing.
pub open spec fn blank_file() -> FileSettings {
    FileSettings {
        input_files: None,
        output_file: None,
        extra_flags: None,
        assembler: None,
        assembler_flags: None,
        target: None,
        verbose: None,
        dry_run: None,
        clean: None,
        watch: None,
        color: None,
    }
}

/// Absent settings keep what is there: layering a file that holds nothing
/// changes no setting.
pub proof fn law_blank_file_changes_nothing(base: Settings, platform: Platform)
    ensures
        merged(base, settings_from_file(blank_file(), platform)) == base,
{
}

/// What comes from nowhere is the built-in default: the settings of a blank
/// file hold no input and no output, the assembler `as`, the platform's
/// target, no flag, automatic colour, and nothing explicit.
pub proof fn law_built_in_defaults(platform: Platform)
    ensures
        ({
            let d = settings_from_file(blank_file(), platform);
            &&& d.input_files.len() == 0
            &&& d.output_file.len() == 0
            &&& d.extra_flags.len() == 0
            &&& d.assembler == "as"@
            &&& d.assembler_flags.len() == 0
            &&& d.target == default_target_text(platform)
            &&& !d.verbose && !d.dry_run && !d.clean && !d.watch
            &&& d.color == ColorMode::Auto
            &&& d.config_file is None
            &&& d.explicit == (Explicit {
                input_files: false,
                output_file: false,
                extra_flags: false,
                assembler: false,
                assembler_flags: false,
                target: false,
                color: false,
            })
        }),
{
}

/// An optional list, or an empty one.
fn take_list(value: Option<Vec<String>>) -> (list: Vec<String>)
    ensures
        texts(list@) == list_or_empty(opt_texts(value)),
{
    match value {
        Some(list) => list,
        None => {
            let list: Vec<String> = Vec::new();
            assert(texts(list@) =~= Seq::empty());
            list
        },
    }
}

impl Config {
    /// The settings a configuration file amounts to.
    pub fn from_file(file: FileConfig, platform: Platform) -> (config: Config)
        ensures
            config@ == settings_from_file(file@, platform),
    {
        let explicit = Explicit {
            input_files: file.input_files.is_some(),
            output_file: file.output_file.is_some(),
            extra_flags: file.extra_flags.is_some(),
            assembler: file.assembler.is_some(),
            assembler_flags: file.assembler_flags.is_some(),
            target: file.target.is_some(),
            color: file.color.is_some(),
        };
        let color = take_color(&file.color);
        Config {
            input_files: take_list(file.input_files),
            output_file: take_text(file.output_file, String::new()),
            extra_flags: take_list(file.extra_flags),
            assembler: take_text(file.assembler, String::from_str("as")),
            assembler_flags: take_list(file.assembler_flags),
            target: take_text(file.target, default_target(platform)),
            verbose: matches!(file.verbose, Some(true)),
            dry_run: matches!(file.dry_run, Some(true)),
            clean: matches!(file.clean, Some(true)),
            watch: matches!(file.watch, Some(true)),
            color,
            config_file: None,
            explicit,
        }
    }

    /// Settles the effective configuration: layers the consumed
    /// configuration file, if there is one, under the command line, records
    /// its path, and validates the result, once.
    pub fn resolve(self, file: Option<(String, Config)>) -> (result: Result<Config, ConfigError>)
        ensures
            (match first_problem(effective(self@, file_view(file))) {
                None => result matches Ok(config) && config@ == effective(self@, file_view(file)),
                Some(problem) => result matches Err(e) && e@ == problem,
            }),
    {
        let mut config = self;
        match file {
            Some((path, settings)) => {
                config.merge(settings);
                config.config_file = Some(path);
            },
            None => {},
        }
        match config.validate() {
            Ok(()) => Ok(config),
            Err(e) => Err(e),
        }
    }
}

/// The conventional names of a configuration file, in probing order.
pub fn config_candidates() -> (names: Vec<String>)
    ensures
        texts(names@) == candidates(),
{
    let mut names: Vec<String> = Vec::new();
    names.push(String::from_str(".rasm.toml"));
    names.push(String::from_str("rasm.toml"));
    names.push(String::from_str(".rasm/config.toml"));
    assert(texts(names@) =~= candidates());
    names
}

/// Picks the configuration file among the conventional names, given for
/// each of the [`config_candidates`], by position, whether it exists: the
/// first that does. That none exists is no error.
pub fn auto_detect_config(present: &[bool]) -> (found: Option<String>)
    ensures
        (match detected(present@) {
            Some(name) => found matches Some(path) && path@ == name,
            None => found is None,
        }),
{
    let names = config_candidates();
    let mut i: usize = 0;
    while i < names.len() && i < present.len()
        invariant
            i <= names.len(),
            i <= present.len(),
            texts(names@) == candidates(),
            forall|j: int| 0 <= j < i ==> !present@[j],
        decreases names.len() - i,
    {
        if present[i] {
            proof {
                assert(is_first_present(present@, i as int));
                let first = choose|k: int| is_first_present(present@, k);
                assert(first == i);
                assert(texts(names@)[i as int] == names@[i as int]@);
            }
            return Some(names[i].clone());
        }
        i += 1;
    }
    None
}

/// The configuration file to consume: the one the operator named, and
/// otherwise the one that detection finds.
pub fn config_source(named: &Option<String>, present: &[bool]) -> (source: Option<String>)
    ensures
        (match named {
            Some(path) => source matches Some(p) && p@ == path@,
            None => match detected(present@) {
                Some(name) => source matches Some(p) && p@ == name,
                None => source is None,
            },
        }),
{
    match named {
        Some(path) => Some(path.clone()),
        None => auto_detect_config(present),
    }
}

} // verus!
