//! The statements of the configuration language, each as a text fragment, and the two
//! tiers of the tool that a detected version selects.

use crate::cmake::version::Version;
use crate::text::join;
use crate::text::joined;
use crate::text::views;
use vstd::prelude::*;
use vstd::string::StringExecFns;

verus! {

/// The tier of the tool that the configuration is written for.
#[allow(non_camel_case_types)]
#[derive(Debug, Clone, Copy, PartialEq, Eq, Structural)]
pub enum Generator {
    /// The legacy tier: what is older than version 3.0. It asks for version 2.8.
    CMake_2_8,
    /// The modern tier: version 3.0 and later. It asks for version 3.1.
    CMake_3_x,
}

/// The first version of the modern tier.
pub open spec fn modern_threshold() -> Version {
    Version { major: 3, minor: 0, revision: None }
}

impl Generator {
    /// The tier that a version of the tool belongs to.
    pub open spec fn of(version: Version) -> Generator {
        if version.precedes(modern_threshold()) {
            Generator::CMake_2_8
        } else {
            Generator::CMake_3_x
        }
    }

    /// The version that the tier's documents require at least.
    pub open spec fn minimum_version(self) -> Version {
        match self {
            Generator::CMake_2_8 => Version { major: 2, minor: 8, revision: None },
            Generator::CMake_3_x => Version { major: 3, minor: 1, revision: None },
        }
    }

    /// The version that the tier's documents require at least.
    pub fn version(&self) -> (version: Version)
        ensures
            version == self.minimum_version(),
    {
        match self {
            Generator::CMake_2_8 => Version::new(2, 8),
            Generator::CMake_3_x => Version::new(3, 1),
        }
    }

    /// The statement that declares the tier's minimum version.
    pub fn min_ver(&self) -> (text: String)
        ensures
            text@ == min_ver_text(self.minimum_version()),
    {
        min_ver(&self.version())
    }
}

/// Selects the tier for a detected version of the tool: legacy below 3.0, else modern.
pub fn from_version(ver: Version) -> (generator: Generator)
    ensures
        generator == Generator::of(ver),
{
    if ver < Version::new(3, 0) {
        Generator::CMake_2_8
    } else {
        Generator::CMake_3_x
    }
}

/// The minimum-version statement for `version`, followed by a blank line.
pub open spec fn min_ver_text(version: Version) -> Seq<char> {
    "cmake_minimum_required(VERSION "@ + version.text() + ")\n\n"@
}

/// The statement that binds the variable `name` to `value`, ended by a newline.
pub open spec fn set_var_text(name: Seq<char>, value: Seq<char>) -> Seq<char> {
    "set("@ + name + " "@ + value + ")\n"@
}

/// The statement that declares the project `name`, followed by a blank line.
pub open spec fn project_text(name: Seq<char>) -> Seq<char> {
    "project("@ + name + ")\n\n"@
}

/// The line that holds `s` as a comment.
pub open spec fn comment_text(s: Seq<char>) -> Seq<char> {
    "#"@ + s + "\n"@
}

/// The block that sets the build type to `build_type` unless one is set, between blank
/// lines.
pub open spec fn default_build_type_text(build_type: Seq<char>) -> Seq<char> {
    "\nif(NOT CMAKE_BUILD_TYPE) \nset(CMAKE_BUILD_TYPE, \""@ + build_type + "\")\nendif()\n\n"@
}

/// The statement that lists the include directories, one on a line and indented by four
/// spaces, between blank lines.
pub open spec fn include_dirs_text(dir_names: Seq<Seq<char>>) -> Seq<char> {
    "\ninclude_directories(\n    "@ + joined(dir_names, "\n    "@) + "\n)\n\n"@
}

/// The statement that declares the executable named after the project, with its source
/// files one on a line and indented by four spaces, between blank lines.
pub open spec fn add_executable_text(sources: Seq<Seq<char>>) -> Seq<char> {
    "\nadd_executable(${PROJECT_NAME}\n    "@ + joined(sources, "\n    "@) + "\n)\n\n"@
}

/// Writes the minimum-version statement for `version`.
pub fn min_ver(version: &Version) -> (text: String)
    ensures
        text@ == min_ver_text(*version),
{
    let mut text = "cmake_minimum_required(VERSION ".to_string();
    let number = version.to_string();
    text.append(number.as_str());
    text.append(")\n\n");
    text
}

/// Writes the statement that binds the variable `var_name` to `var_val`.
pub fn set_var(var_name: &str, var_val: &str) -> (text: String)
    ensures
        text@ == set_var_text(var_name@, var_val@),
{
    let mut text = "set(".to_string();
    text.append(var_name);
    text.append(" ");
    text.append(var_val);
    text.append(")\n");
    text
}

/// Writes the statement that declares the project `name`.
pub fn project(name: &str) -> (text: String)
    ensures
        text@ == project_text(name@),
{
    let mut text = "project(".to_string();
    text.append(name);
    text.append(")\n\n");
    text
}

/// Writes `s` as a comment line.
pub fn comment(s: &str) -> (text: String)
    ensures
        text@ == comment_text(s@),
{
    let mut text = "#".to_string();
    text.append(s);
    text.append("\n");
    text
}

/// Writes the block that sets the build type to `build_type` unless one is set.
pub fn default_build_type(build_type: &str) -> (text: String)
    ensures
        text@ == default_build_type_text(build_type@),
{
    let mut text = "\nif(NOT CMAKE_BUILD_TYPE) \nset(CMAKE_BUILD_TYPE, \"".to_string();
    text.append(build_type);
    text.append("\")\nendif()\n\n");
    text
}

/// Writes the statement that lists the include directories `dir_names`.
pub fn include_dirs(dir_names: &[String]) -> (text: String)
    ensures
        text@ == include_dirs_text(views(dir_names@)),
{
    let mut text = "\ninclude_directories(\n    ".to_string();
    let dir_list = join(dir_names, "\n    ");
    text.append(dir_list.as_str());
    text.append("\n)\n\n");
    text
}

/// Writes the statement that declares the executable built from `sources`.
pub fn add_executable(sources: &[String]) -> (text: String)
    ensures
        text@ == add_executable_text(views(sources@)),
{
    let mut text = "\nadd_executable(${PROJECT_NAME}\n    ".to_string();
    let source_list = join(sources, "\n    ");
    text.append(source_list.as_str());
    text.append("\n)\n\n");
    text
}

} // verus!
