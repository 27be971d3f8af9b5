//! The contract with the external programs: what is run, and how a run ended.
//!
//! The library never starts a process. It hands out an [`Invocation`] and is
//! handed back a [`ToolRun`]; the exit status is the only signal it consults.

use vstd::prelude::*;
use vstd::string::*;
use crate::error::{BuildError, Failure, Tool};
use crate::text::{copy_list, texts};

verus! {

/// The platform family the build runs on, probed once at startup.
#[derive(Clone, Copy, Debug, PartialEq, Eq, Structural)]
pub enum Platform {
    /// Apple-style toolchains, which link through the C compiler front-end.
    MacOs,
    /// Every other family, which calls the linker directly.
    Other,
}

/// A program and its arguments, run in the inherited working directory with
/// standard output and standard error captured.
#[derive(Debug, PartialEq, Eq)]
pub struct Invocation {
    pub program: String,
    pub args: Vec<String>,
}

/// The mathematical content of an [`Invocation`].
pub struct CommandLine {
    pub program: Seq<char>,
    pub args: Seq<Seq<char>>,
}

impl View for Invocation {
    type V = CommandLine;

    open spec fn view(&self) -> CommandLine {
        CommandLine { program: self.program@, args: texts(self.args@) }
    }
}

/// How the run of an external program ended.
#[derive(Debug, PartialEq, Eq)]
pub enum ToolRun {
    /// The program ran to completion.
    Exited { success: bool, stdout: String, stderr: String },
    /// The program could not be started.
    NotStarted { detail: String },
}

/// The mathematical content of a [`ToolRun`].
pub enum RunView {
    Exited { success: bool, stdout: Seq<char>, stderr: Seq<char> },
    NotStarted { detail: Seq<char> },
}

impl View for ToolRun {
    type V = RunView;

    open spec fn view(&self) -> RunView {
        match *self {
            ToolRun::Exited { success, stdout, stderr } => RunView::Exited {
                success,
                stdout: stdout@,
                stderr: stderr@,
            },
            ToolRun::NotStarted { detail } => RunView::NotStarted { detail: detail@ },
        }
    }
}

impl Clone for Invocation {
    fn clone(&self) -> (copy: Invocation)
        ensures
            copy@ == self@,
    {
        Invocation { program: self.program.clone(), args: copy_list(&self.args) }
    }
}

impl Clone for ToolRun {
    fn clone(&self) -> (copy: ToolRun)
        ensures
            copy == *self,
    {
        match self {
            ToolRun::Exited { success, stdout, stderr } => ToolRun::Exited {
                success: *success,
                stdout: stdout.clone(),
                stderr: stderr.clone(),
            },
            ToolRun::NotStarted { detail } => ToolRun::NotStarted { detail: detail.clone() },
        }
    }
}

/// The failure a run of `tool` amounts to, if any: a failure status is a tool
/// error carrying the captured standard error, a program that did not start
/// is an I/O failure, and a success status is no failure.
pub open spec fn run_failure(tool: Tool, run: RunView) -> Option<Failure> {
    match run {
        RunView::Exited { success, stdout, stderr } => if success {
            None
        } else {
            Some(Failure::Tool { tool, stderr })
        },
        RunView::NotStarted { detail } => Some(Failure::Io { detail }),
    }
}

/// Judges the run of `tool` by its exit status alone.
pub fn judge(tool: Tool, run: &ToolRun) -> (verdict: Result<(), BuildError>)
    ensures
        verdict is Ok <==> run_failure(tool, run@) is None,
        verdict matches Err(e) ==> run_failure(tool, run@) == Some(e@),
{
    match run {
        ToolRun::Exited { success, stdout: _, stderr } => {
            if *success {
                Ok(())
            } else {
                Err(BuildError::Tool { tool, stderr: stderr.clone() })
            }
        },
        ToolRun::NotStarted { detail } => Err(BuildError::Io { detail: detail.clone() }),
    }
}

} // verus!
