//! The name of a project, taken from the last component of its path.

use crate::error::FatalError;
use crate::text::optional_text;
use crate::text::to_chars;
use vstd::prelude::*;

verus! {

/// The last component of a path, as far as it can be read.
#[derive(Debug, Clone)]
pub enum FileName {
    /// The path has no last component: it is empty, a root, or ends in `..`.
    Missing,
    /// The last component is no valid Unicode text.
    NotUnicode,
    /// The last component.
    Name(String),
}

/// Whether `name` can name a project: ASCII characters only, and no space among them.
pub open spec fn is_project_name(name: Seq<char>) -> bool {
    forall|i: int| 0 <= i < name.len() ==> (#[trigger] name[i]) <= '\u{7f}' && name[i] != ' '
}

/// Tests whether `name` can name a project.
pub fn check_project_name(name: &str) -> (valid: bool)
    ensures
        valid == is_project_name(name@),
{
    let chars = to_chars(name);
    let n: usize = chars.len();
    let mut i: usize = 0;
    while i < n
        invariant
            i <= n == chars.len(),
            chars@ == name@,
            forall|j: int| 0 <= j < i ==> (#[trigger] chars@[j]) <= '\u{7f}' && chars@[j] != ' ',
        decreases n - i,
    {
        let c: char = chars[i];
        if c > '\u{7f}' || c == ' ' {
            return false;
        }
        i += 1;
    }
    true
}

/// The help for a path without a last component.
pub open spec fn path_help() -> Seq<char> {
    "This command creates a new directory with project contents. The path must end with a non existing directory name"@
}

/// The help for a name that cannot name a project.
pub open spec fn name_help() -> Seq<char> {
    "Project name must consist only of ASCII characters excluding whitespaces"@
}

/// Whether `error` is the fatal error with these three texts.
pub open spec fn is_fatal(error: FatalError, cause: Seq<char>, what: Seq<char>, help: Seq<char>) -> bool {
    &&& error.error@ == cause
    &&& error.what@ == what
    &&& optional_text(error.help) == Some(help)
}

/// Takes the project's name from the last component of its path. The name is refused
/// where the component is missing or no Unicode text, and where it holds a character
/// outside ASCII or a space.
pub fn parse_project_name(file_name: FileName) -> (parsed: Result<String, FatalError>)
    ensures
        match file_name {
            FileName::Missing => parsed is Err && is_fatal(
                parsed->Err_0,
                "invalid path"@,
                "Cannot parse a project name"@,
                path_help(),
            ),
            FileName::NotUnicode => parsed is Err && is_fatal(
                parsed->Err_0,
                "Invalid project name"@,
                "Cannot parse a project name"@,
                name_help(),
            ),
            FileName::Name(name) => if is_project_name(name@) {
                parsed is Ok && parsed->Ok_0@ == name@
            } else {
                parsed is Err && is_fatal(
                    parsed->Err_0,
                    "Invalid project name"@,
                    "Project name verification failed"@,
                    name_help(),
                )
            },
        },
{
    match file_name {
        FileName::Missing => Err(
            FatalError::with_help(
                "invalid path".to_string(),
                "Cannot parse a project name",
                "This command creates a new directory with project contents. The path must end with a non existing directory name",
            ),
        ),
        FileName::NotUnicode => Err(
            FatalError::with_help(
                "Invalid project name".to_string(),
                "Cannot parse a project name",
                "Project name must consist only of ASCII characters excluding whitespaces",
            ),
        ),
        FileName::Name(name) => {
            if check_project_name(name.as_str()) {
                Ok(name)
            } else {
                Err(
                    FatalError::with_help(
                        "Invalid project name".to_string(),
                        "Project name verification failed",
                        "Project name must consist only of ASCII characters excluding whitespaces",
                    ),
                )
            }
        },
    }
}

} // verus!
