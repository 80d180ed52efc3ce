//! Build-configuration synthesis for CMake projects: a comparable tool version, the text of
//! the statements a `CMakeLists.txt` is made of, a builder that composes them into a
//! document, and a patch operation that swaps one declaration of an existing document.
//!
//! Around this core stand what the command-line tool computes besides: the arguments of
//! the tool's commands, the version found in its output, the name and the sources of a
//! project, and the lines and errors that are shown to the user.
//!
//! Every function states what it returns over `Seq<char>`, the view of a string.

pub mod cmake;
pub mod commands;
pub mod error;
pub mod number;
pub mod order;
pub mod patch;
pub mod project;
pub mod project_layout;
pub mod report;
pub mod text;
