//! What can go wrong in a build attempt, and how each failure reads.

use vstd::prelude::*;
use vstd::string::*;
use crate::text::joined;

verus! {

/// The external program a failure is attributed to.
#[derive(Clone, Copy, Debug, PartialEq, Eq, Structural)]
pub enum Tool {
    Assembler,
    Linker,
}

/// The five families a failure belongs to.
#[derive(Clone, Copy, Debug, PartialEq, Eq, Structural)]
pub enum ErrorKind {
    Config,
    Resolution,
    Tool,
    Io,
    Watch,
}

/// A setting that validation refuses.
#[derive(Debug, PartialEq, Eq)]
pub enum ConfigError {
    /// No input file or pattern was given.
    NoInputFiles,
    /// The output path is empty.
    NoOutputFile,
    /// The assembler command is empty.
    NoAssembler,
    /// This input path climbs out of the working tree.
    InputTraversal(String),
    /// The output path climbs out of the working tree.
    OutputTraversal(String),
}

/// The mathematical content of a [`ConfigError`].
pub enum ConfigProblem {
    NoInputFiles,
    NoOutputFile,
    NoAssembler,
    InputTraversal(Seq<char>),
    OutputTraversal(Seq<char>),
}

impl View for ConfigError {
    type V = ConfigProblem;

    open spec fn view(&self) -> ConfigProblem {
        match *self {
            ConfigError::NoInputFiles => ConfigProblem::NoInputFiles,
            ConfigError::NoOutputFile => ConfigProblem::NoOutputFile,
            ConfigError::NoAssembler => ConfigProblem::NoAssembler,
            ConfigError::InputTraversal(path) => ConfigProblem::InputTraversal(path@),
            ConfigError::OutputTraversal(path) => ConfigProblem::OutputTraversal(path@),
        }
    }
}

/// A failure of configuration, resolution, an external tool, the file system
/// or the change observer.
#[derive(Debug, PartialEq, Eq)]
pub enum BuildError {
    /// The effective configuration is invalid.
    Config(ConfigError),
    /// A wildcard pattern matched no file.
    NoMatch { pattern: String },
    /// A wildcard pattern is malformed.
    BadPattern { pattern: String, detail: String },
    /// An input still holding a `*` reached the compile stage.
    Unexpanded { input: String },
    /// An external tool ended with a failure status.
    Tool { tool: Tool, stderr: String },
    /// A file-system or process operation failed.
    Io { detail: String },
    /// The change observer could not be set up.
    Watch { detail: String },
}

/// The mathematical content of a [`BuildError`].
pub enum Failure {
    Config(ConfigProblem),
    NoMatch { pattern: Seq<char> },
    BadPattern { pattern: Seq<char>, detail: Seq<char> },
    Unexpanded { input: Seq<char> },
    Tool { tool: Tool, stderr: Seq<char> },
    Io { detail: Seq<char> },
    Watch { detail: Seq<char> },
}

impl View for BuildError {
    type V = Failure;

    open spec fn view(&self) -> Failure {
        match *self {
            BuildError::Config(problem) => Failure::Config(problem@),
            BuildError::NoMatch { pattern } => Failure::NoMatch { pattern: pattern@ },
            BuildError::BadPattern { pattern, detail } => Failure::BadPattern {
                pattern: pattern@,
                detail: detail@,
            },
            BuildError::Unexpanded { input } => Failure::Unexpanded { input: input@ },
            BuildError::Tool { tool, stderr } => Failure::Tool { tool, stderr: stderr@ },
            BuildError::Io { detail } => Failure::Io { detail: detail@ },
            BuildError::Watch { detail } => Failure::Watch { detail: detail@ },
        }
    }
}

/// The text a configuration problem is reported with.
pub open spec fn problem_text(problem: ConfigProblem) -> Seq<char> {
    match problem {
        ConfigProblem::NoInputFiles => "No input files specified"@,
        ConfigProblem::NoOutputFile => "Output file must be specified"@,
        ConfigProblem::NoAssembler => "Assembler command cannot be empty"@,
        ConfigProblem::InputTraversal(path) => "Input file paths cannot contain '..': "@ + path,
        ConfigProblem::OutputTraversal(path) => "Output file path cannot contain '..': "@ + path,
    }
}

/// The text a failure is reported with.
pub open spec fn failure_text(failure: Failure) -> Seq<char> {
    match failure {
        Failure::Config(problem) => problem_text(problem),
        Failure::NoMatch { pattern } => "No files match pattern: "@ + pattern,
        Failure::BadPattern { pattern, detail } => "Invalid pattern "@ + pattern + ": "@ + detail,
        Failure::Unexpanded { input } =>
            "Glob patterns should be expanded before calling assemble. Got: "@ + input,
        Failure::Tool { tool, stderr } => match tool {
            Tool::Assembler => "Assembler failed:\n"@ + stderr,
            Tool::Linker => "Linker failed:\n"@ + stderr,
        },
        Failure::Io { detail } => "I/O failure: "@ + detail,
        Failure::Watch { detail } => "Cannot watch for changes: "@ + detail,
    }
}

/// The family a failure belongs to.
pub open spec fn failure_kind(failure: Failure) -> ErrorKind {
    match failure {
        Failure::Config(_) => ErrorKind::Config,
        Failure::NoMatch { .. } => ErrorKind::Resolution,
        Failure::BadPattern { .. } => ErrorKind::Resolution,
        Failure::Unexpanded { .. } => ErrorKind::Resolution,
        Failure::Tool { .. } => ErrorKind::Tool,
        Failure::Io { .. } => ErrorKind::Io,
        Failure::Watch { .. } => ErrorKind::Watch,
    }
}

impl Clone for ConfigError {
    fn clone(&self) -> (copy: ConfigError)
        ensures
            copy == *self,
    {
        match self {
            ConfigError::NoInputFiles => ConfigError::NoInputFiles,
            ConfigError::NoOutputFile => ConfigError::NoOutputFile,
            ConfigError::NoAssembler => ConfigError::NoAssembler,
            ConfigError::InputTraversal(path) => ConfigError::InputTraversal(path.clone()),
            ConfigError::OutputTraversal(path) => ConfigError::OutputTraversal(path.clone()),
        }
    }
}

impl Clone for BuildError {
    fn clone(&self) -> (copy: BuildError)
        ensures
            copy == *self,
    {
        match self {
            BuildError::Config(problem) => BuildError::Config(problem.clone()),
            BuildError::NoMatch { pattern } => BuildError::NoMatch { pattern: pattern.clone() },
            BuildError::BadPattern { pattern, detail } => BuildError::BadPattern {
                pattern: pattern.clone(),
                detail: detail.clone(),
            },
            BuildError::Unexpanded { input } => BuildError::Unexpanded { input: input.clone() },
            BuildError::Tool { tool, stderr } => BuildError::Tool {
                tool: *tool,
                stderr: stderr.clone(),
            },
            BuildError::Io { detail } => BuildError::Io { detail: detail.clone() },
            BuildError::Watch { detail } => BuildError::Watch { detail: detail.clone() },
        }
    }
}

impl ConfigError {
    /// The text this problem is reported with.
    pub fn message(&self) -> (out: String)
        ensures
            out@ == problem_text(self@),
    {
        match self {
            ConfigError::NoInputFiles => String::from_str("No input files specified"),
            ConfigError::NoOutputFile => String::from_str("Output file must be specified"),
            ConfigError::NoAssembler => String::from_str("Assembler command cannot be empty"),
            ConfigError::InputTraversal(path) => joined(
                "Input file paths cannot contain '..': ",
                path.as_str(),
            ),
            ConfigError::OutputTraversal(path) => joined(
                "Output file path cannot contain '..': ",
                path.as_str(),
            ),
        }
    }
}

impl BuildError {
    /// The family this failure belongs to.
    pub fn kind(&self) -> (kind: ErrorKind)
        ensures
            kind == failure_kind(self@),
    {
        match self {
            BuildError::Config(_) => ErrorKind::Config,
            BuildError::NoMatch { .. } => ErrorKind::Resolution,
            BuildError::BadPattern { .. } => ErrorKind::Resolution,
            BuildError::Unexpanded { .. } => ErrorKind::Resolution,
            BuildError::Tool { .. } => ErrorKind::Tool,
            BuildError::Io { .. } => ErrorKind::Io,
            BuildError::Watch { .. } => ErrorKind::Watch,
        }
    }

    /// The text this failure is reported with; it names the offending path,
    /// pattern or tool.
    pub fn message(&self) -> (out: String)
        ensures
            out@ == failure_text(self@),
    {
        match self {
            BuildError::Config(problem) => problem.message(),
            BuildError::NoMatch { pattern } => joined("No files match pattern: ", pattern.as_str()),
            BuildError::BadPattern { pattern, detail } => {
                let mut out = joined("Invalid pattern ", pattern.as_str());
                out.append(": ");
                out.append(detail.as_str());
                out
            },
            BuildError::Unexpanded { input } => joined(
                "Glob patterns should be expanded before calling assemble. Got: ",
                input.as_str(),
            ),
            BuildError::Tool { tool, stderr } => match tool {
                Tool::Assembler => joined("Assembler failed:\n", stderr.as_str()),
                Tool::Linker => joined("Linker failed:\n", stderr.as_str()),
            },
            BuildError::Io { detail } => joined("I/O failure: ", detail.as_str()),
            BuildError::Watch { detail } => joined("Cannot watch for changes: ", detail.as_str()),
        }
    }
}

} // verus!
