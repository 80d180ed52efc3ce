//! What the commands of the tool compute between reading and writing: the document of a
//! new project, the refreshed document of an existing one, and the arguments and the
//! outcome of a build.

use crate::cmake::builder::Builder;
use crate::cmake::builder::Configuration;
use crate::cmake::exec::InitExtBuilder;
use crate::cmake::exec::definition_text;
use crate::cmake::exec::init_arguments;
use crate::cmake::generator::Generator;
use crate::cmake::generator::add_executable;
use crate::cmake::generator::add_executable_text;
use crate::cmake::generator::from_version;
use crate::cmake::version::Version;
use crate::error::FatalError;
use crate::number::decimal;
use crate::order::lemma_text_order_total;
use crate::order::sorted_listing;
use crate::order::text_order;
use crate::order::sorted_strings;
use crate::patch::declaration_span;
use crate::patch::is_declaration;
use crate::patch::lemma_reconcile_idempotent;
use crate::patch::reconcile;
use crate::patch::reconciled;
use crate::text::joined;
use crate::text::leading_whitespace;
use crate::text::lemma_first_occurrence_is;
use crate::text::lemma_trim_end_is_prefix;
use crate::text::lemma_trim_start_is_suffix;
use crate::text::occurs_at;
use crate::text::trim;
use crate::text::trim_end;
use crate::text::trim_start;
use crate::text::views;
use vstd::prelude::*;
use vstd::string::StringExecFns;

verus! {

/// The language standard that a new project is set to.
pub const NEW_PROJECT_STANDARD: u8 = 11;

/// The keyword of the declaration that a build keeps up to date.
pub const TARGET_KEYWORD: &'static str = "add_executable";

/// The settings of a new project: the tier of the detected version, the standard of new
/// projects, the sources found, and nothing else.
pub open spec fn new_project_configuration(
    project_name: Seq<char>,
    cmake_ver: Version,
    sources: Seq<Seq<char>>,
) -> Configuration {
    Configuration {
        generator: Generator::of(cmake_ver),
        project_name,
        sources,
        include_dirs: Seq::empty(),
        default_build_type: None,
        cpp_standard: Some(decimal(NEW_PROJECT_STANDARD as nat)),
    }
}

/// Writes the configuration document of a new project.
pub fn new_project_document(project_name: String, cmake_ver: Version, source_list: Vec<String>) -> (
    cmake_lists: String
)
    ensures
        cmake_lists@ == new_project_configuration(
            project_name@,
            cmake_ver,
            views(source_list@),
        ).document(),
{
    let builder = Builder::new(project_name, from_version(cmake_ver)).cpp_standard(
        NEW_PROJECT_STANDARD,
    ).sources(source_list);
    builder.build()
}

/// `document` with its target declaration brought up to date with `sources`; the flag
/// is dropped.
pub open spec fn with_target(document: Seq<char>, sources: Seq<Seq<char>>) -> Seq<char> {
    reconciled(document, TARGET_KEYWORD@, add_executable_text(sources)).0
}

/// Brings the target declaration of `cmake_lists` up to date with `sources`, listed as
/// they are given: a declaration that is there is replaced, else the new one is appended.
pub fn update_target(cmake_lists: &str, sources: &[String]) -> (updated: String)
    ensures
        updated@ == with_target(cmake_lists@, views(sources@)),
{
    let add_executable_command = add_executable(sources);
    let (updated, _) = reconcile(cmake_lists, TARGET_KEYWORD, add_executable_command.as_str());
    updated
}

/// Brings the target declaration of `cmake_lists` up to date with `sources`, listed in
/// ascending order.
pub fn refresh_target(cmake_lists: &str, sources: Vec<String>) -> (updated: String)
    ensures
        updated@ == with_target(cmake_lists@, sorted_listing(views(sources@))),
{
    let listed = sorted_strings(sources);
    update_target(cmake_lists, listed.as_slice())
}

/// The name of the build type: `Release` for a release build, else `Debug`.
pub open spec fn build_type_text(release: bool) -> Seq<char> {
    if release {
        "Release"@
    } else {
        "Debug"@
    }
}

/// Names the build type.
pub fn build_type_name(release: bool) -> (name: &'static str)
    ensures
        name@ == build_type_text(release),
{
    if release {
        "Release"
    } else {
        "Debug"
    }
}

/// The arguments that configure a build of the given type: the build type and the
/// directory of the executable as definitions, then the two directories.
pub open spec fn configure_arguments(release: bool, source_dir: Seq<char>, build_dir: Seq<char>) -> Seq<
    Seq<char>,
> {
    seq![
        definition_text("CMAKE_BUILD_TYPE"@, build_type_text(release)),
        definition_text("CMAKE_RUNTIME_OUTPUT_DIRECTORY"@, "./"@ + build_type_text(release)),
    ] + init_arguments(source_dir, build_dir)
}

/// Lists the arguments that configure a build of the given type.
pub fn configure_args(release: bool, source_dir: &str, build_dir: &str) -> (arguments: Vec<String>)
    ensures
        views(arguments@) == configure_arguments(release, source_dir@, build_dir@),
{
    let build_type = build_type_name(release);
    let mut output_dir = "./".to_string();
    output_dir.append(build_type);
    let arguments = InitExtBuilder::new().set_var("CMAKE_BUILD_TYPE", build_type).set_var(
        "CMAKE_RUNTIME_OUTPUT_DIRECTORY",
        output_dir.as_str(),
    ).arguments(source_dir, build_dir);
    arguments
}

/// How a failed build command ends the command of the tool: a build that ran and failed
/// is a failure, and one that could not be run is a fatal error with the system's
/// description of the cause.
pub fn build_err(err: crate::cmake::exec::ExecutionError) -> (error: crate::error::ExecutionError)
    ensures
        match err {
            crate::cmake::exec::ExecutionError::CMake(_) => error
                is Failure,
            crate::cmake::exec::ExecutionError::IO(cause) => {
                &&& error matches crate::error::ExecutionError::Fatal(fatal)
                &&& fatal.error@ == cause.description@
                &&& fatal.what@ == "Cannot run build command"@
                &&& fatal.help is None
            },
        },
{
    match err {
        crate::cmake::exec::ExecutionError::CMake(_) => crate::error::ExecutionError::Failure(
            crate::error::Failure,
        ),
        crate::cmake::exec::ExecutionError::IO(cause) => crate::error::ExecutionError::Fatal(
            FatalError::new(cause.description, "Cannot run build command"),
        ),
    }
}

/// Whether `s` holds no `c`.
pub open spec fn free_of(s: Seq<char>, c: char) -> bool {
    forall|i: int| 0 <= i < s.len() ==> s[i] != c
}

/// Texts that hold no `c`, joined by a separator that holds none, hold no `c`.
pub proof fn lemma_joined_free_of(items: Seq<Seq<char>>, separator: Seq<char>, c: char)
    requires
        forall|k: int| 0 <= k < items.len() ==> free_of(#[trigger] items[k], c),
        free_of(separator, c),
    ensures
        free_of(joined(items, separator), c),
    decreases items.len(),
{
    if items.len() > 1 {
        lemma_joined_free_of(items.drop_last(), separator, c);
    }
}

/// The declaration that is written for sources without a `)` in their names is, trimmed,
/// a declaration of the target keyword: the keyword, then its one `)` at the very end.
pub proof fn lemma_target_fragment_is_declaration(sources: Seq<Seq<char>>)
    requires
        forall|k: int| 0 <= k < sources.len() ==> free_of(#[trigger] sources[k], ')'),
    ensures
        is_declaration(trim(add_executable_text(sources)), TARGET_KEYWORD@),
        leading_whitespace(add_executable_text(sources)) == 1,
        add_executable_text(sources).first() == '\n',
{
    let separator = "\n    "@;
    let keyword = TARGET_KEYWORD@;
    reveal_strlit("\nadd_executable(${PROJECT_NAME}\n    ");
    reveal_strlit("\n)\n\n");
    reveal_strlit("\n    ");
    reveal_strlit("add_executable");
    lemma_joined_free_of(sources, separator, ')');
    let text = add_executable_text(sources);
    let inner = text.drop_first();
    assert(trim_start(inner) == inner);
    let shorter = inner.drop_last();
    let shortest = shorter.drop_last();
    assert(trim_end(shortest) == shortest);
    assert(trim_end(shorter) == shortest);
    let body = trim(text);
    assert(body.subrange(0, keyword.len() as int) =~= keyword);
}

/// Bringing the target up to date twice with the same sources gives what doing it once
/// gives, for sources without a `)` in their names and a document that has the target
/// declaration or does not hold the keyword at all.
pub proof fn lemma_update_target_idempotent(document: Seq<char>, sources: Seq<Seq<char>>)
    requires
        forall|k: int| 0 <= k < sources.len() ==> free_of(#[trigger] sources[k], ')'),
        declaration_span(document, TARGET_KEYWORD@) is Some || forall|i: int|
            !occurs_at(document, TARGET_KEYWORD@, i),
    ensures
        with_target(with_target(document, sources), sources) == with_target(document, sources),
{
    let keyword = TARGET_KEYWORD@;
    let fragment = add_executable_text(sources);
    lemma_target_fragment_is_declaration(sources);
    if declaration_span(document, keyword) is None {
        reveal_strlit("add_executable");
        assert(keyword =~= seq!['a', 'd', 'd', '_', 'e', 'x', 'e', 'c', 'u', 't', 'a', 'b', 'l', 'e']);
        let appended = document + fragment;
        let start = document.len() as int + 1;
        lemma_trim_start_is_suffix(fragment);
        lemma_trim_end_is_prefix(trim_start(fragment));
        assert(occurs_at(appended, keyword, start)) by {
            assert(appended.subrange(start, start + keyword.len()) =~= keyword);
        }
        assert forall|j: int| 0 <= j < start implies !occurs_at(appended, keyword, j) by {
            if occurs_at(appended, keyword, j) {
                if j + keyword.len() <= document.len() {
                    assert(document.subrange(j, j + keyword.len()) =~= appended.subrange(
                        j,
                        j + keyword.len(),
                    ));
                    assert(occurs_at(document, keyword, j));
                }
            }
        }
        lemma_first_occurrence_is(appended, keyword, start);
    }
    lemma_reconcile_idempotent(document, keyword, fragment);
}

/// Refreshing the target twice with the same sources gives what refreshing once gives,
/// under the conditions of `lemma_update_target_idempotent`.
pub proof fn lemma_refresh_target_idempotent(document: Seq<char>, sources: Seq<Seq<char>>)
    requires
        forall|k: int| 0 <= k < sources.len() ==> free_of(#[trigger] sources[k], ')'),
        declaration_span(document, TARGET_KEYWORD@) is Some || forall|i: int|
            !occurs_at(document, TARGET_KEYWORD@, i),
    ensures
        with_target(with_target(document, sorted_listing(sources)), sorted_listing(sources))
            == with_target(document, sorted_listing(sources)),
{
    let listed = sorted_listing(sources);
    lemma_text_order_total();
    sources.lemma_sort_by_ensures(text_order());
    assert forall|k: int| 0 <= k < listed.len() implies free_of(#[trigger] listed[k], ')') by {
        assert(listed.contains(listed[k]));
        let at = choose|at: int| 0 <= at < sources.len() && sources[at] == listed[k];
        assert(free_of(sources[at], ')'));
    }
    lemma_update_target_idempotent(document, listed);
}

} // verus!
