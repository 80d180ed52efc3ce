//! The errors that end a command, as they are shown to the user.

use crate::report::Tint;
use crate::report::bold_painted;
use crate::report::paint_bold;
use crate::text::optional_text;
use vstd::prelude::*;
use vstd::string::StringExecFns;

verus! {

/// An error that keeps a command from being carried out.
#[derive(Debug, Clone)]
pub struct FatalError {
    /// The description of the error that was the cause.
    pub error: String,
    /// What could not be done.
    pub what: String,
    /// What the user can do about it.
    pub help: Option<String>,
}

/// The report of a fatal error: a line with the red label, what failed and the cause in
/// parentheses, then a line with the yellow label and the help where there is one.
pub open spec fn fatal_text(error: Seq<char>, what: Seq<char>, help: Option<Seq<char>>) -> Seq<
    char,
> {
    let head = "  "@ + bold_painted(Tint::Red, "Error:"@) + " "@ + what + "("@ + error + ") \n"@;
    match help {
        Some(help) => head + "  "@ + bold_painted(Tint::Yellow, "Help:"@) + " "@ + help + "\n"@,
        None => head,
    }
}

impl FatalError {
    /// A fatal error without help: `what` failed because of `error`.
    pub fn new(error: String, what: &str) -> (fatal: Self)
        ensures
            fatal.error@ == error@,
            fatal.what@ == what@,
            fatal.help is None,
    {
        FatalError { error, what: what.to_string(), help: None }
    }

    /// A fatal error with help: `what` failed because of `error`, and `help` says what
    /// to do.
    pub fn with_help(error: String, what: &str, help: &str) -> (fatal: Self)
        ensures
            fatal.error@ == error@,
            fatal.what@ == what@,
            optional_text(fatal.help) == Some(help@),
    {
        FatalError { error, what: what.to_string(), help: Some(help.to_string()) }
    }

    /// The report of the error.
    pub open spec fn text(self) -> Seq<char> {
        fatal_text(self.error@, self.what@, optional_text(self.help))
    }

    /// The description of the cause.
    pub fn description(&self) -> (text: String)
        ensures
            text@ == self.error@,
    {
        self.error.clone()
    }

    /// Writes the report of the error.
    pub fn to_string(&self) -> (text: String)
        ensures
            text@ == self.text(),
    {
        let mut text = "  ".to_string();
        let label = paint_bold(Tint::Red, "Error:");
        text.append(label.as_str());
        text.append(" ");
        text.append(self.what.as_str());
        text.append("(");
        text.append(self.error.as_str());
        text.append(") \n");
        if let Some(help) = &self.help {
            text.append("  ");
            let label = paint_bold(Tint::Yellow, "Help:");
            text.append(label.as_str());
            text.append(" ");
            text.append(help.as_str());
            text.append("\n");
        }
        text
    }
}

/// A command that ran and did not succeed.
#[derive(Debug, Clone, Copy, PartialEq, Eq)]
pub struct Failure;

/// The report of a failure: the red label on a line of its own.
pub open spec fn failure_text() -> Seq<char> {
    "  "@ + bold_painted(Tint::Red, "Failure"@) + "\n"@
}

impl Failure {
    /// The description of a failure.
    pub fn description(&self) -> (text: String)
        ensures
            text@ == "Failure"@,
    {
        "Failure".to_string()
    }

    /// Writes the report of a failure.
    pub fn to_string(&self) -> (text: String)
        ensures
            text@ == failure_text(),
    {
        let mut text = "  ".to_string();
        let label = paint_bold(Tint::Red, "Failure");
        text.append(label.as_str());
        text.append("\n");
        text
    }
}

/// How a command ended, where it did not end well.
#[derive(Debug, Clone)]
pub enum ExecutionError {
    Fatal(FatalError),
    Failure(Failure),
}

impl ExecutionError {
    /// The report of the error.
    pub open spec fn text(self) -> Seq<char> {
        match self {
            ExecutionError::Fatal(fatal) => fatal.text(),
            ExecutionError::Failure(_) => failure_text(),
        }
    }

    /// The description of the error: that of the cause of a fatal error, or that of a
    /// failure.
    pub fn description(&self) -> (text: String)
        ensures
            text@ == match *self {
                ExecutionError::Fatal(fatal) => fatal.error@,
                ExecutionError::Failure(_) => "Failure"@,
            },
    {
        match self {
            ExecutionError::Fatal(fatal) => fatal.description(),
            ExecutionError::Failure(failure) => failure.description(),
        }
    }

    /// Writes the report of the error.
    pub fn to_string(&self) -> (text: String)
        ensures
            text@ == self.text(),
    {
        match self {
            ExecutionError::Fatal(fatal) => fatal.to_string(),
            ExecutionError::Failure(failure) => failure.to_string(),
        }
    }
}

impl From<FatalError> for ExecutionError {
    fn from(err: FatalError) -> (error: Self) {
        ExecutionError::Fatal(err)
    }
}

impl vstd::std_specs::convert::FromSpecImpl<FatalError> for ExecutionError {
    open spec fn obeys_from_spec() -> bool {
        true
    }

    open spec fn from_spec(err: FatalError) -> Self {
        ExecutionError::Fatal(err)
    }
}

impl From<Failure> for ExecutionError {
    fn from(err: Failure) -> (error: Self) {
        ExecutionError::Failure(err)
    }
}

impl vstd::std_specs::convert::FromSpecImpl<Failure> for ExecutionError {
    open spec fn obeys_from_spec() -> bool {
        true
    }

    open spec fn from_spec(err: Failure) -> Self {
        ExecutionError::Failure(err)
    }
}

/// The fatal error of a tool version that could not be found out.
pub fn version_err(err: String) -> (fatal: FatalError)
    ensures
        fatal.error@ == err@,
        fatal.what@ == "Cannot obtain a cmake version"@,
        optional_text(fatal.help) == Some(
            "Make sure cmake is installed and present in PATH environment variable. Run `cmake --version` to verify cmake installation"@,
        ),
{
    FatalError::with_help(
        err,
        "Cannot obtain a cmake version",
        "Make sure cmake is installed and present in PATH environment variable. Run `cmake --version` to verify cmake installation",
    )
}

/// The fatal error of a build directory that could not be initialized.
pub fn init_err(err: String) -> (fatal: FatalError)
    ensures
        fatal.error@ == err@,
        fatal.what@ == "Cannot initialize cmake build directory"@,
        fatal.help is None,
{
    FatalError::new(err, "Cannot initialize cmake build directory")
}

/// The fatal error of a project layout that could not be generated.
pub fn layout_gen_err(err: String) -> (fatal: FatalError)
    ensures
        fatal.error@ == err@,
        fatal.what@ == "Cannot generate a project layout"@,
        fatal.help is None,
{
    FatalError::new(err, "Cannot generate a project layout")
}

/// The fatal error of project sources that could not be collected.
pub fn collect_sources_err(err: String) -> (fatal: FatalError)
    ensures
        fatal.error@ == err@,
        fatal.what@ == "Cannot collect project sources"@,
        fatal.help is None,
{
    FatalError::new(err, "Cannot collect project sources")
}

/// The fatal error of a project directory that could not be entered.
pub fn dir_access_err(err: String) -> (fatal: FatalError)
    ensures
        fatal.error@ == err@,
        fatal.what@ == "Cannot access project directory"@,
        fatal.help is None,
{
    FatalError::new(err, "Cannot access project directory")
}

/// The fatal error of a configuration document that could not be written.
pub fn cmake_write_err(err: String) -> (fatal: FatalError)
    ensures
        fatal.error@ == err@,
        fatal.what@ == "Cannot write CMakeLists.txt"@,
        fatal.help is None,
{
    FatalError::new(err, "Cannot write CMakeLists.txt")
}

/// The fatal error of a configuration document that could not be read.
pub fn cmake_read_err(err: String) -> (fatal: FatalError)
    ensures
        fatal.error@ == err@,
        fatal.what@ == "Cannot read CMakeLists.txt"@,
        optional_text(fatal.help) == Some("Make sure you are located within a project directory"@),
{
    FatalError::with_help(
        err,
        "Cannot read CMakeLists.txt",
        "Make sure you are located within a project directory",
    )
}

} // verus!
