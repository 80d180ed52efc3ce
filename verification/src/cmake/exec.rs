//! What surrounds a run of the tool: the version in its output, the arguments of its
//! commands, and the meaning of its exit status. Running it is left to the caller.

use crate::cmake::version::ParseVersionError;
use crate::cmake::version::Version;
use crate::cmake::version::parse_version;
use crate::number::signed_decimal;
use crate::number::signed_decimal_string;
use crate::text::optional_text;
use crate::text::views;
use regex::Regex;
use vstd::prelude::*;
use vstd::string::StringExecFns;

verus! {

/// The pattern of a version number in the tool's output: two or three runs of digits with
/// dots between them, such as `1.2` or `1.2.3`.
pub const VERSION_PATTERN: &'static str = "(\\d+\\.){1,2}(\\d+)";

/// The text of the first match of the regular expression `pattern` in `text`, as the
/// `regex` crate finds it. `None` where `pattern` matches nowhere in `text`, and where
/// `pattern` is no regular expression that the crate accepts.
pub uninterp spec fn first_match(pattern: Seq<char>, text: Seq<char>) -> Option<Seq<char>>;

/// Searches `text` for the first match of the regular expression `pattern`.
///
/// Trusted: the body compiles the pattern with `regex::Regex::new`, searches with
/// `regex::Regex::find` and copies the matched text. The contract gives the outcome the
/// name `first_match` and claims nothing of it but that it depends on the pattern and
/// the text alone.
#[verifier::external_body]
fn find_first_match(pattern: &str, text: &str) -> (found: Option<String>)
    ensures
        found is Some <==> first_match(pattern@, text@) is Some,
        found matches Some(matched) ==> first_match(pattern@, text@) == Some(matched@),
{
    match Regex::new(pattern) {
        Ok(regex) => match regex.find(text) {
            Some(found) => Some(found.as_str().to_string()),
            None => None,
        },
        Err(_) => None,
    }
}

/// The version that a match of the version pattern holds: none without a match, else what
/// the matched text parses to.
pub open spec fn version_of(matched: Option<Seq<char>>) -> Option<Version> {
    match matched {
        Some(text) => parse_version(text),
        None => None,
    }
}

/// Reads the version from what the search for the version pattern found.
pub fn version_of_match(matched: Option<String>) -> (version: Result<Version, ParseVersionError>)
    ensures
        match version {
            Ok(version) => version_of(optional_text(matched)) == Some(version),
            Err(_) => version_of(optional_text(matched)) is None,
        },
{
    match matched {
        Some(text) => Version::from_str(text.as_str()),
        None => Err(ParseVersionError),
    }
}

/// Finds the tool's version in the output of `cmake --version`: the first text that
/// matches the version pattern, parsed. Fails where nothing matches or the match is no
/// version.
pub fn version_in(output: &str) -> (version: Result<Version, ParseVersionError>)
    ensures
        match version {
            Ok(version) => version_of(first_match(VERSION_PATTERN@, output@)) == Some(version),
            Err(_) => version_of(first_match(VERSION_PATTERN@, output@)) is None,
        },
{
    version_of_match(find_first_match(VERSION_PATTERN, output))
}

/// The argument that is `flag` with `value` directly behind it.
pub open spec fn flag_text(flag: Seq<char>, value: Seq<char>) -> Seq<char> {
    flag + value
}

/// Writes the argument that is `flag` with `value` directly behind it.
fn flag_argument(flag: &str, value: &str) -> (argument: String)
    ensures
        argument@ == flag_text(flag@, value@),
{
    let mut argument = flag.to_string();
    argument.append(value);
    argument
}

/// The arguments of the command that configures `project_dir` into `build_dir`.
pub open spec fn init_arguments(project_dir: Seq<char>, build_dir: Seq<char>) -> Seq<Seq<char>> {
    seq![flag_text("-B"@, build_dir), flag_text("-H"@, project_dir)]
}

/// The arguments of the command that builds what is configured in `build_dir`.
pub open spec fn build_arguments(build_dir: Seq<char>) -> Seq<Seq<char>> {
    seq!["--build"@, build_dir]
}

/// Lists the arguments of the command that configures `project_dir` into `build_dir`.
pub fn init_args(project_dir: &str, build_dir: &str) -> (arguments: Vec<String>)
    ensures
        views(arguments@) == init_arguments(project_dir@, build_dir@),
{
    let mut arguments: Vec<String> = Vec::new();
    arguments.push(flag_argument("-B", build_dir));
    arguments.push(flag_argument("-H", project_dir));
    arguments
}

/// Lists the arguments of the command that builds what is configured in `build_dir`.
pub fn build_args(build_dir: &str) -> (arguments: Vec<String>)
    ensures
        views(arguments@) == build_arguments(build_dir@),
{
    let mut arguments: Vec<String> = Vec::new();
    arguments.push("--build".to_string());
    arguments.push(build_dir.to_string());
    arguments
}

/// The definition of the variable `name` as `value` on the command line.
pub open spec fn definition_text(name: Seq<char>, value: Seq<char>) -> Seq<char> {
    "-D"@ + name + "="@ + value
}

/// Collects variable definitions for the command that configures a project.
pub struct InitExtBuilder {
    variables: Vec<String>,
}

impl View for InitExtBuilder {
    type V = Seq<Seq<char>>;

    /// The definitions collected so far, as arguments and in the order they were given.
    closed spec fn view(&self) -> Seq<Seq<char>> {
        views(self.variables@)
    }
}

impl InitExtBuilder {
    /// A builder without definitions.
    pub fn new() -> (builder: Self)
        ensures
            builder@ == Seq::<Seq<char>>::empty(),
    {
        let builder = InitExtBuilder { variables: Vec::new() };
        builder
    }

    /// Adds the definition of the variable `name` as `value`.
    pub fn set_var(self, name: &str, value: &str) -> (builder: Self)
        ensures
            builder@ == self@.push(definition_text(name@, value@)),
    {
        let mut definition = "-D".to_string();
        definition.append(name);
        definition.append("=");
        definition.append(value);
        let mut builder = self;
        builder.variables.push(definition);
        builder
    }

    /// Lists the arguments of the command that configures `source_dir` into `build_dir`:
    /// the definitions first, then the two directories.
    pub fn arguments(self, source_dir: &str, build_dir: &str) -> (arguments: Vec<String>)
        ensures
            views(arguments@) == self@ + init_arguments(source_dir@, build_dir@),
    {
        let mut arguments = self.variables;
        arguments.push(flag_argument("-B", build_dir));
        arguments.push(flag_argument("-H", source_dir));
        arguments
    }
}

/// The tool ended with an exit status that reports failure.
#[derive(Debug, Clone, Copy, PartialEq, Eq, Structural)]
pub struct CMakeFailure(pub i32);

impl CMakeFailure {
    /// The message of the failure, with the exit code in decimal.
    pub open spec fn text(self) -> Seq<char> {
        "cmake failed with exit code: "@ + signed_decimal(self.0 as int)
    }

    /// The description of the failure.
    pub fn description(&self) -> (text: String)
        ensures
            text@ == "CMake failure"@,
    {
        "CMake failure".to_string()
    }

    /// Writes the message of the failure.
    pub fn to_string(&self) -> (text: String)
        ensures
            text@ == self.text(),
    {
        let mut text = "cmake failed with exit code: ".to_string();
        let code = signed_decimal_string(self.0);
        text.append(code.as_str());
        text
    }
}

/// An error of the operating system, as the two texts that are read from it.
#[derive(Debug, Clone)]
pub struct IoError {
    /// The message of the error.
    pub message: String,
    /// The short description of the kind of error.
    pub description: String,
}

/// Why a command of the tool did not succeed.
#[derive(Debug, Clone)]
pub enum ExecutionError {
    /// The command could not be run.
    IO(IoError),
    /// The command ran and reported failure.
    CMake(CMakeFailure),
}

impl ExecutionError {
    /// The message of the error.
    pub open spec fn text(self) -> Seq<char> {
        match self {
            ExecutionError::IO(error) => error.message@,
            ExecutionError::CMake(failure) => failure.text(),
        }
    }

    /// The description of the error.
    pub fn description(&self) -> (text: String)
        ensures
            text@ == "Error while executing a CMake command"@,
    {
        "Error while executing a CMake command".to_string()
    }

    /// Writes the message of the error.
    pub fn to_string(&self) -> (text: String)
        ensures
            text@ == self.text(),
    {
        match self {
            ExecutionError::IO(error) => error.message.clone(),
            ExecutionError::CMake(failure) => failure.to_string(),
        }
    }
}

impl From<CMakeFailure> for ExecutionError {
    fn from(err: CMakeFailure) -> (error: Self) {
        ExecutionError::CMake(err)
    }
}

impl vstd::std_specs::convert::FromSpecImpl<CMakeFailure> for ExecutionError {
    open spec fn obeys_from_spec() -> bool {
        true
    }

    open spec fn from_spec(err: CMakeFailure) -> Self {
        ExecutionError::CMake(err)
    }
}

/// What the exit status of a finished command means: success, or the failure with the
/// exit code, which is -1 where the system gave none.
pub open spec fn status_meaning(success: bool, exit_code: Option<i32>) -> Result<
    (),
    ExecutionError,
> {
    if success {
        Ok(())
    } else {
        Err(
            ExecutionError::CMake(
                CMakeFailure(
                    match exit_code {
                        Some(code) => code,
                        None => -1i32,
                    },
                ),
            ),
        )
    }
}

/// Reads the exit status of a finished command.
pub fn check_status(success: bool, exit_code: Option<i32>) -> (outcome: Result<(), ExecutionError>)
    ensures
        outcome == status_meaning(success, exit_code),
{
    if success {
        Ok(())
    } else {
        let code: i32 = match exit_code {
            Some(code) => code,
            None => -1,
        };
        Err(ExecutionError::from(CMakeFailure(code)))
    }
}

} // verus!
