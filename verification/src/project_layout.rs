//! The simple layout of a project: the sources lie in the project's root, and the build
//! goes to `build/Debug` or `build/Release` below it.

use crate::text::optional_text;
use crate::text::same_text;
use crate::text::views;
use vstd::prelude::*;

verus! {

/// The directory of the build, below the project's root.
pub const BUILD_PATH: &'static str = "build";

/// The directory of the debug build, below the project's root.
pub const DEBUG_TARGET_PATH: &'static str = "build/Debug";

/// The directory of the release build, below the project's root.
pub const RELEASE_TARGET_PATH: &'static str = "build/Release";

/// What is read of an entry of the project's directory.
#[derive(Debug, Clone)]
pub struct Entry {
    /// The path of the entry.
    pub path: String,
    /// Whether the entry is a regular file.
    pub is_file: bool,
    /// The extension of the entry's name, without the dot.
    pub extension: Option<String>,
}

/// Whether files with the extension `extension` are sources of a project.
pub open spec fn is_source_extension(extension: Seq<char>) -> bool {
    extension == "cpp"@ || extension == "h"@ || extension == "hpp"@ || extension == "c"@
}

/// Whether the entry is a source file: a regular file with a source extension.
pub open spec fn is_source(is_file: bool, extension: Option<Seq<char>>) -> bool {
    is_file && extension is Some && is_source_extension(extension.unwrap())
}

/// The paths of the source files among `entries`, in the order of the entries.
pub open spec fn sources_among(entries: Seq<Entry>) -> Seq<Seq<char>>
    decreases entries.len(),
{
    if entries.len() == 0 {
        Seq::empty()
    } else {
        let last = entries.last();
        let before = sources_among(entries.drop_last());
        if is_source(last.is_file, optional_text(last.extension)) {
            before.push(last.path@)
        } else {
            before
        }
    }
}

/// Tests whether files with the extension `extension` are sources of a project.
pub fn has_source_extension(extension: &str) -> (source: bool)
    ensures
        source == is_source_extension(extension@),
{
    same_text(extension, "cpp") || same_text(extension, "h") || same_text(extension, "hpp")
        || same_text(extension, "c")
}

/// Picks the source files among the entries of the project's directory and gives their
/// paths, in the order of the entries.
pub fn collect_sources(entries: &Vec<Entry>) -> (sources: Vec<String>)
    ensures
        views(sources@) == sources_among(entries@),
{
    let mut sources: Vec<String> = Vec::new();
    let n: usize = entries.len();
    let mut i: usize = 0;
    while i < n
        invariant
            i <= n == entries.len(),
            views(sources@) == sources_among(entries@.take(i as int)),
        decreases n - i,
    {
        let entry = &entries[i];
        proof {
            assert(entries@.take(i + 1).drop_last() =~= entries@.take(i as int));
        }
        if entry.is_file {
            if let Some(extension) = &entry.extension {
                if has_source_extension(extension.as_str()) {
                    sources.push(entry.path.clone());
                }
            }
        }
        i += 1;
    }
    proof {
        assert(entries@.take(n as int) =~= entries@);
    }
    sources
}

} // verus!
