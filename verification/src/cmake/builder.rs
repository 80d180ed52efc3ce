//! The builder of a configuration document: it collects the settings of a project and
//! writes them down as one text, section by section in a fixed order.

use crate::cmake::generator::Generator;
use crate::cmake::generator::add_executable;
use crate::cmake::generator::add_executable_text;
use crate::cmake::generator::comment;
use crate::cmake::generator::comment_text;
use crate::cmake::generator::default_build_type;
use crate::cmake::generator::default_build_type_text;
use crate::cmake::generator::include_dirs;
use crate::cmake::generator::include_dirs_text;
use crate::cmake::generator::min_ver_text;
use crate::cmake::generator::project;
use crate::cmake::generator::project_text;
use crate::cmake::generator::set_var;
use crate::cmake::generator::set_var_text;
use crate::number::decimal;
use crate::number::decimal_string;
use crate::text::closes_word;
use crate::text::joined;
use crate::text::lacks;
use crate::text::lemma_joined_lacks;
use crate::text::lemma_lacks_before_opening;
use crate::text::lemma_lacks_behind_closing;
use crate::text::lemma_lacks_longer;
use crate::text::lemma_occurrence_chars;
use crate::text::occurs_at;
use crate::text::opens_word;
use crate::text::views;
use vstd::prelude::*;
use vstd::string::StringExecFns;

verus! {

/// What a builder has collected: the settings that the document is written from.
pub struct Configuration {
    pub generator: Generator,
    pub project_name: Seq<char>,
    pub sources: Seq<Seq<char>>,
    pub include_dirs: Seq<Seq<char>>,
    pub default_build_type: Option<Seq<char>>,
    pub cpp_standard: Option<Seq<char>>,
}

/// The comment that opens the section of the target declaration.
pub open spec fn warning_banner() -> Seq<char> {
    "-------- Warning: This section will be overwritten by cbake utility. Don't change it manually if you will use it --------"@
}

/// The comment that closes the section of the target declaration.
pub open spec fn closing_banner() -> Seq<char> {
    "--------------------------------------------------------------------------------------------------------------------------"@
}

impl Configuration {
    /// The section of the default build type: its guard where one is set, else nothing.
    pub open spec fn build_type_section(self) -> Seq<char> {
        match self.default_build_type {
            Some(build_type) => default_build_type_text(build_type),
            None => Seq::empty(),
        }
    }

    /// The section of the language standard: its assignment where one is set, else
    /// nothing.
    pub open spec fn standard_section(self) -> Seq<char> {
        match self.cpp_standard {
            Some(standard) => set_var_text("CMAKE_CXX_STANDARD"@, standard),
            None => Seq::empty(),
        }
    }

    /// The section of the include directories: their statement where there are any, else
    /// nothing.
    pub open spec fn include_section(self) -> Seq<char> {
        if self.include_dirs.len() > 0 {
            include_dirs_text(self.include_dirs)
        } else {
            Seq::empty()
        }
    }

    /// The section of the target: its declaration between the two banner comments where
    /// there are source files, else nothing.
    pub open spec fn target_section(self) -> Seq<char> {
        if self.sources.len() > 0 {
            comment_text(warning_banner()) + add_executable_text(self.sources) + comment_text(
                closing_banner(),
            )
        } else {
            Seq::empty()
        }
    }

    /// The whole document: minimum version, project, then the four optional sections.
    pub open spec fn document(self) -> Seq<char> {
        min_ver_text(self.generator.minimum_version()) + project_text(self.project_name)
            + self.build_type_section() + self.standard_section() + self.include_section()
            + self.target_section()
    }
}

/// Collects the settings of a project and writes the configuration document.
pub struct Builder {
    generator: Generator,
    project_name: String,
    sources: Vec<String>,
    include_dirs: Vec<String>,
    default_build_type: Option<String>,
    cpp_standard: Option<String>,
}

impl View for Builder {
    type V = Configuration;

    closed spec fn view(&self) -> Configuration {
        Configuration {
            generator: self.generator,
            project_name: self.project_name@,
            sources: views(self.sources@),
            include_dirs: views(self.include_dirs@),
            default_build_type: match self.default_build_type {
                Some(build_type) => Some(build_type@),
                None => None,
            },
            cpp_standard: match self.cpp_standard {
                Some(standard) => Some(standard@),
                None => None,
            },
        }
    }
}

impl Builder {
    /// A builder for the project `project_name` and the tier `generator`, with no source
    /// files, no include directories and neither optional setting.
    pub fn new(project_name: String, generator: Generator) -> (builder: Self)
        ensures
            builder@ == (Configuration {
                generator,
                project_name: project_name@,
                sources: Seq::empty(),
                include_dirs: Seq::empty(),
                default_build_type: None,
                cpp_standard: None,
            }),
    {
        let builder = Builder {
            generator,
            project_name,
            sources: Vec::new(),
            include_dirs: Vec::new(),
            default_build_type: None,
            cpp_standard: None,
        };
        proof {
            assert(views(builder.sources@) =~= Seq::<Seq<char>>::empty());
        }
        builder
    }

    /// Sets the build type that the document falls back to.
    pub fn default_build_type(self, build_type: String) -> (builder: Self)
        ensures
            builder@ == (Configuration { default_build_type: Some(build_type@), ..self@ }),
    {
        let mut builder = self;
        builder.default_build_type = Some(build_type);
        builder
    }

    /// Sets the language standard, written in decimal.
    pub fn cpp_standard(self, standard: u8) -> (builder: Self)
        ensures
            builder@ == (Configuration { cpp_standard: Some(decimal(standard as nat)), ..self@ }),
    {
        let mut builder = self;
        builder.cpp_standard = Some(decimal_string(standard as u64));
        builder
    }

    /// Adds include directories behind those already there.
    pub fn include_dirs(self, dirs: Vec<String>) -> (builder: Self)
        ensures
            builder@ == (Configuration {
                include_dirs: self@.include_dirs + views(dirs@),
                ..self@
            }),
    {
        let mut builder = self;
        let mut added = dirs;
        builder.include_dirs.append(&mut added);
        proof {
            assert(views(builder.include_dirs@) =~= views(self.include_dirs@) + views(dirs@));
        }
        builder
    }

    /// Adds source files behind those already there.
    pub fn sources(self, sources: Vec<String>) -> (builder: Self)
        ensures
            builder@ == (Configuration { sources: self@.sources + views(sources@), ..self@ }),
    {
        let mut builder = self;
        let mut added = sources;
        builder.sources.append(&mut added);
        proof {
            assert(views(builder.sources@) =~= views(self.sources@) + views(sources@));
        }
        builder
    }

    /// Writes the document of what was collected.
    pub fn build(self) -> (cmake_lists: String)
        ensures
            cmake_lists@ == self@.document(),
    {
        let mut cmake_lists = String::new();
        let min_ver = self.generator.min_ver();
        cmake_lists.append(min_ver.as_str());
        let project = project(self.project_name.as_str());
        cmake_lists.append(project.as_str());
        if let Some(build_type) = &self.default_build_type {
            let guard = default_build_type(build_type.as_str());
            cmake_lists.append(guard.as_str());
        }
        if let Some(standard) = &self.cpp_standard {
            let assignment = set_var("CMAKE_CXX_STANDARD", standard.as_str());
            cmake_lists.append(assignment.as_str());
        }
        if !self.include_dirs.is_empty() {
            let block = include_dirs(self.include_dirs.as_slice());
            cmake_lists.append(block.as_str());
        }
        if !self.sources.is_empty() {
            let opening = comment(
                "-------- Warning: This section will be overwritten by cbake utility. Don't change it manually if you will use it --------",
            );
            cmake_lists.append(opening.as_str());
            let target = add_executable(self.sources.as_slice());
            cmake_lists.append(target.as_str());
            let closing = comment(
                "--------------------------------------------------------------------------------------------------------------------------",
            );
            cmake_lists.append(closing.as_str());
        }
        cmake_lists
    }
}

/// Two builders that hold the same settings write the same document, character for
/// character.
pub proof fn lemma_build_deterministic(first: Builder, second: Builder)
    requires
        first@ == second@,
    ensures
        first@.document() == second@.document(),
{
}

/// Without a default build type and a language standard, the document is made of the
/// other sections alone: it holds neither the guard nor the assignment.
pub proof fn lemma_optional_sections_omitted(configuration: Configuration)
    requires
        configuration.default_build_type is None,
        configuration.cpp_standard is None,
    ensures
        configuration.build_type_section() == Seq::<char>::empty(),
        configuration.standard_section() == Seq::<char>::empty(),
        configuration.document() == min_ver_text(configuration.generator.minimum_version())
            + project_text(configuration.project_name) + configuration.include_section()
            + configuration.target_section(),
{
}

/// Whether `word` is one of the four words that the fragments of the two optional
/// settings are made of: the guard holds `if(`, `endif`, `set(` and `CMAKE_`, and the
/// assignment `set(` and `CMAKE_`.
pub open spec fn is_setting_word(word: Seq<char>) -> bool {
    word == "set("@ || word == "if("@ || word == "endif"@ || word == "CMAKE_"@
}

/// Whether `text` keeps `word` out of every text it is put into: it lacks the word, and
/// no occurrence can reach into it, since its first character opens the word and its
/// last closes it.
pub open spec fn keeps_out(text: Seq<char>, word: Seq<char>) -> bool {
    &&& lacks(text, word)
    &&& text.len() > 0
    &&& opens_word(text.first(), word)
    &&& closes_word(text.last(), word)
}

/// Two texts that keep `word` out do so when joined.
proof fn lemma_keeps_out_joined(left: Seq<char>, right: Seq<char>, word: Seq<char>)
    requires
        keeps_out(left, word),
        keeps_out(right, word),
    ensures
        keeps_out(left + right, word),
{
    lemma_lacks_behind_closing(left, right, word);
    assert((left + right).first() == left.first());
    assert((left + right).last() == right.last());
}

/// A text that lacks `word`, between two texts that keep it out, gives a text that
/// keeps it out.
proof fn lemma_keeps_out_around(
    left: Seq<char>,
    inner: Seq<char>,
    right: Seq<char>,
    word: Seq<char>,
)
    requires
        keeps_out(left, word),
        lacks(inner, word),
        keeps_out(right, word),
    ensures
        keeps_out(left + inner + right, word),
{
    lemma_lacks_behind_closing(left, inner, word);
    lemma_lacks_before_opening(left + inner, right, word);
    assert((left + inner + right).first() == left.first());
    assert((left + inner + right).last() == right.last());
}

/// The beginning of the minimum-version statement keeps the setting words out.
proof fn lemma_version_head_keeps_out(word: Seq<char>)
    requires
        is_setting_word(word),
    ensures
        keeps_out("cmake_minimum_required(VERSION "@, word),
{
    let text = "cmake_minimum_required(VERSION "@;
    reveal_strlit("cmake_minimum_required(VERSION ");
    reveal_strlit("set(");
    reveal_strlit("if(");
    reveal_strlit("endif");
    reveal_strlit("CMAKE_");
    assert forall|i: int| !occurs_at(text, word, i) by {
        if occurs_at(text, word, i) {
            lemma_occurrence_chars(text, word, i);
            assert(text[i] == word[0] && text[i + 1] == word[1] && text[i + 2] == word[2]);
        }
    }
}

/// The end of a statement that a blank line follows keeps the setting words out.
proof fn lemma_statement_end_keeps_out(word: Seq<char>)
    requires
        is_setting_word(word),
    ensures
        keeps_out(")\n\n"@, word),
{
    let text = ")\n\n"@;
    reveal_strlit(")\n\n");
    reveal_strlit("set(");
    reveal_strlit("if(");
    reveal_strlit("endif");
    reveal_strlit("CMAKE_");
    assert forall|i: int| !occurs_at(text, word, i) by {
        if occurs_at(text, word, i) {
            lemma_occurrence_chars(text, word, i);
            assert(text[i] == word[0] && text[i + 1] == word[1] && text[i + 2] == word[2]);
        }
    }
}

/// The beginning of the project declaration keeps the setting words out.
proof fn lemma_project_head_keeps_out(word: Seq<char>)
    requires
        is_setting_word(word),
    ensures
        keeps_out("project("@, word),
{
    let text = "project("@;
    reveal_strlit("project(");
    reveal_strlit("set(");
    reveal_strlit("if(");
    reveal_strlit("endif");
    reveal_strlit("CMAKE_");
    assert forall|i: int| !occurs_at(text, word, i) by {
        if occurs_at(text, word, i) {
            lemma_occurrence_chars(text, word, i);
            assert(text[i] == word[0] && text[i + 1] == word[1] && text[i + 2] == word[2]);
        }
    }
}

/// The beginning of the include-directory block keeps the setting words out.
proof fn lemma_include_head_keeps_out(word: Seq<char>)
    requires
        is_setting_word(word),
    ensures
        keeps_out("\ninclude_directories(\n    "@, word),
{
    let text = "\ninclude_directories(\n    "@;
    reveal_strlit("\ninclude_directories(\n    ");
    reveal_strlit("set(");
    reveal_strlit("if(");
    reveal_strlit("endif");
    reveal_strlit("CMAKE_");
    assert forall|i: int| !occurs_at(text, word, i) by {
        if occurs_at(text, word, i) {
            lemma_occurrence_chars(text, word, i);
            assert(text[i] == word[0] && text[i + 1] == word[1] && text[i + 2] == word[2]);
        }
    }
}

/// The line break with the indentation behind it keeps the setting words out.
proof fn lemma_indent_keeps_out(word: Seq<char>)
    requires
        is_setting_word(word),
    ensures
        keeps_out("\n    "@, word),
{
    let text = "\n    "@;
    reveal_strlit("\n    ");
    reveal_strlit("set(");
    reveal_strlit("if(");
    reveal_strlit("endif");
    reveal_strlit("CMAKE_");
    assert forall|i: int| !occurs_at(text, word, i) by {
        if occurs_at(text, word, i) {
            lemma_occurrence_chars(text, word, i);
            assert(text[i] == word[0] && text[i + 1] == word[1] && text[i + 2] == word[2]);
        }
    }
}

/// The end of a list statement keeps the setting words out.
proof fn lemma_block_end_keeps_out(word: Seq<char>)
    requires
        is_setting_word(word),
    ensures
        keeps_out("\n)\n\n"@, word),
{
    let text = "\n)\n\n"@;
    reveal_strlit("\n)\n\n");
    reveal_strlit("set(");
    reveal_strlit("if(");
    reveal_strlit("endif");
    reveal_strlit("CMAKE_");
    assert forall|i: int| !occurs_at(text, word, i) by {
        if occurs_at(text, word, i) {
            lemma_occurrence_chars(text, word, i);
            assert(text[i] == word[0] && text[i + 1] == word[1] && text[i + 2] == word[2]);
        }
    }
}

/// The comment marker keeps the setting words out.
proof fn lemma_comment_mark_keeps_out(word: Seq<char>)
    requires
        is_setting_word(word),
    ensures
        keeps_out("#"@, word),
{
    let text = "#"@;
    reveal_strlit("#");
    reveal_strlit("set(");
    reveal_strlit("if(");
    reveal_strlit("endif");
    reveal_strlit("CMAKE_");
    assert forall|i: int| !occurs_at(text, word, i) by {
        if occurs_at(text, word, i) {
            lemma_occurrence_chars(text, word, i);
            assert(text[i] == word[0] && text[i + 1] == word[1] && text[i + 2] == word[2]);
        }
    }
}

/// The line break keeps the setting words out.
proof fn lemma_line_end_keeps_out(word: Seq<char>)
    requires
        is_setting_word(word),
    ensures
        keeps_out("\n"@, word),
{
    let text = "\n"@;
    reveal_strlit("\n");
    reveal_strlit("set(");
    reveal_strlit("if(");
    reveal_strlit("endif");
    reveal_strlit("CMAKE_");
    assert forall|i: int| !occurs_at(text, word, i) by {
        if occurs_at(text, word, i) {
            lemma_occurrence_chars(text, word, i);
            assert(text[i] == word[0] && text[i + 1] == word[1] && text[i + 2] == word[2]);
        }
    }
}

/// The beginning of the target declaration keeps the setting words out.
proof fn lemma_target_head_keeps_out(word: Seq<char>)
    requires
        is_setting_word(word),
    ensures
        keeps_out("\nadd_executable(${PROJECT_NAME}\n    "@, word),
{
    let text = "\nadd_executable(${PROJECT_NAME}\n    "@;
    reveal_strlit("\nadd_executable(${PROJECT_NAME}\n    ");
    reveal_strlit("set(");
    reveal_strlit("if(");
    reveal_strlit("endif");
    reveal_strlit("CMAKE_");
    assert forall|i: int| !occurs_at(text, word, i) by {
        if occurs_at(text, word, i) {
            lemma_occurrence_chars(text, word, i);
            assert(text[i] == word[0] && text[i + 1] == word[1] && text[i + 2] == word[2]);
        }
    }
}

/// The two banners lack the setting words.
proof fn lemma_banners_lack(word: Seq<char>)
    requires
        is_setting_word(word),
    ensures
        lacks(warning_banner(), word),
        lacks(closing_banner(), word),
{
    reveal_strlit(
        "-------- Warning: This section will be overwritten by cbake utility. Don't change it manually if you will use it --------",
    );
    reveal_strlit(
        "--------------------------------------------------------------------------------------------------------------------------",
    );
    reveal_strlit("set(");
    reveal_strlit("if(");
    reveal_strlit("endif");
    reveal_strlit("CMAKE_");
    assert forall|i: int| !occurs_at(warning_banner(), word, i) by {
        if occurs_at(warning_banner(), word, i) {
            lemma_occurrence_chars(warning_banner(), word, i);
            assert(warning_banner()[i] == word[0] && warning_banner()[i + 1] == word[1]
                && warning_banner()[i + 2] == word[2]);
        }
    }
    assert forall|i: int| !occurs_at(closing_banner(), word, i) by {
        if occurs_at(closing_banner(), word, i) {
            lemma_occurrence_chars(closing_banner(), word, i);
            assert(closing_banner()[i] == word[0]);
        }
    }
}

/// The minimum-version statement of either tier keeps the setting words out.
proof fn lemma_min_ver_keeps_out(generator: Generator, word: Seq<char>)
    requires
        is_setting_word(word),
    ensures
        keeps_out(min_ver_text(generator.minimum_version()), word),
{
    let number = generator.minimum_version().text();
    reveal_strlit("set(");
    reveal_strlit("if(");
    reveal_strlit("endif");
    reveal_strlit("CMAKE_");
    assert(number =~= seq!['2', '.', '8'] || number =~= seq!['3', '.', '1']);
    assert forall|i: int| !occurs_at(number, word, i) by {
        if occurs_at(number, word, i) {
            lemma_occurrence_chars(number, word, i);
            assert(number[i] == word[0]);
        }
    }
    lemma_version_head_keeps_out(word);
    lemma_statement_end_keeps_out(word);
    lemma_keeps_out_around("cmake_minimum_required(VERSION "@, number, ")\n\n"@, word);
}

/// A list statement keeps the setting words out where its items lack them.
proof fn lemma_list_keeps_out(head: Seq<char>, items: Seq<Seq<char>>, word: Seq<char>)
    requires
        is_setting_word(word),
        keeps_out(head, word),
        forall|k: int| 0 <= k < items.len() ==> lacks(#[trigger] items[k], word),
    ensures
        keeps_out(head + joined(items, "\n    "@) + "\n)\n\n"@, word),
{
    reveal_strlit("set(");
    reveal_strlit("if(");
    reveal_strlit("endif");
    reveal_strlit("CMAKE_");
    lemma_indent_keeps_out(word);
    lemma_block_end_keeps_out(word);
    lemma_joined_lacks(items, "\n    "@, word);
    lemma_keeps_out_around(head, joined(items, "\n    "@), "\n)\n\n"@, word);
}

/// A comment keeps the setting words out where its text lacks them.
proof fn lemma_comment_keeps_out(text: Seq<char>, word: Seq<char>)
    requires
        is_setting_word(word),
        lacks(text, word),
    ensures
        keeps_out(comment_text(text), word),
{
    lemma_comment_mark_keeps_out(word);
    lemma_line_end_keeps_out(word);
    lemma_keeps_out_around("#"@, text, "\n"@, word);
}

/// A document without default build type and language standard holds none of the words
/// that their fragments are made of, where the project's name, the include directories
/// and the source files hold none: neither the guard nor the assignment, nor a part of
/// them, stands anywhere in it.
pub proof fn lemma_omitted_settings_leave_no_word(configuration: Configuration, word: Seq<char>)
    requires
        configuration.default_build_type is None,
        configuration.cpp_standard is None,
        is_setting_word(word),
        lacks(configuration.project_name, word),
        forall|k: int|
            0 <= k < configuration.include_dirs.len() ==> lacks(
                #[trigger] configuration.include_dirs[k],
                word,
            ),
        forall|k: int|
            0 <= k < configuration.sources.len() ==> lacks(
                #[trigger] configuration.sources[k],
                word,
            ),
    ensures
        lacks(configuration.document(), word),
{
    let head = min_ver_text(configuration.generator.minimum_version());
    let project = project_text(configuration.project_name);
    lemma_min_ver_keeps_out(configuration.generator, word);
    lemma_project_head_keeps_out(word);
    lemma_statement_end_keeps_out(word);
    lemma_keeps_out_around("project("@, configuration.project_name, ")\n\n"@, word);
    lemma_keeps_out_joined(head, project, word);
    let includes = configuration.include_section();
    let with_includes = head + project + includes;
    if configuration.include_dirs.len() > 0 {
        lemma_include_head_keeps_out(word);
        lemma_list_keeps_out("\ninclude_directories(\n    "@, configuration.include_dirs, word);
        lemma_keeps_out_joined(head + project, includes, word);
    } else {
        assert(with_includes =~= head + project);
    }
    let target = configuration.target_section();
    if configuration.sources.len() > 0 {
        lemma_banners_lack(word);
        lemma_comment_keeps_out(warning_banner(), word);
        lemma_comment_keeps_out(closing_banner(), word);
        lemma_target_head_keeps_out(word);
        lemma_list_keeps_out(
            "\nadd_executable(${PROJECT_NAME}\n    "@,
            configuration.sources,
            word,
        );
        lemma_keeps_out_joined(
            comment_text(warning_banner()),
            add_executable_text(configuration.sources),
            word,
        );
        lemma_keeps_out_joined(
            comment_text(warning_banner()) + add_executable_text(configuration.sources),
            comment_text(closing_banner()),
            word,
        );
        lemma_keeps_out_joined(with_includes, target, word);
    } else {
        assert(with_includes + target =~= with_includes);
    }
    lemma_optional_sections_omitted(configuration);
    assert(configuration.document() =~= with_includes + target);
}

/// Without default build type and language standard, and with a name, include
/// directories and source files that hold none of `set(`, `if(`, `endif` and `CMAKE_`,
/// the document holds no assignment, no guard and neither of the two variables.
pub proof fn lemma_omitted_settings_leave_no_fragment(configuration: Configuration)
    requires
        configuration.default_build_type is None,
        configuration.cpp_standard is None,
        forall|word: Seq<char>| #[trigger]
            is_setting_word(word) ==> {
                &&& lacks(configuration.project_name, word)
                &&& forall|k: int|
                    0 <= k < configuration.include_dirs.len() ==> lacks(
                        #[trigger] configuration.include_dirs[k],
                        word,
                    )
                &&& forall|k: int|
                    0 <= k < configuration.sources.len() ==> lacks(
                        #[trigger] configuration.sources[k],
                        word,
                    )
            },
    ensures
        lacks(configuration.document(), "set("@),
        lacks(configuration.document(), "if(NOT"@),
        lacks(configuration.document(), "endif()"@),
        lacks(configuration.document(), "CMAKE_BUILD_TYPE"@),
        lacks(configuration.document(), "CMAKE_CXX_STANDARD"@),
{
    let document = configuration.document();
    assert(is_setting_word("set("@));
    assert(is_setting_word("if("@));
    assert(is_setting_word("endif"@));
    assert(is_setting_word("CMAKE_"@));
    lemma_omitted_settings_leave_no_word(configuration, "set("@);
    lemma_omitted_settings_leave_no_word(configuration, "if("@);
    lemma_omitted_settings_leave_no_word(configuration, "endif"@);
    lemma_omitted_settings_leave_no_word(configuration, "CMAKE_"@);
    reveal_strlit("if(");
    reveal_strlit("if(NOT");
    reveal_strlit("endif");
    reveal_strlit("endif()");
    reveal_strlit("CMAKE_");
    reveal_strlit("CMAKE_BUILD_TYPE");
    reveal_strlit("CMAKE_CXX_STANDARD");
    assert("if(NOT"@.subrange(0, 3) =~= "if("@);
    assert("endif()"@.subrange(0, 5) =~= "endif"@);
    assert("CMAKE_BUILD_TYPE"@.subrange(0, 6) =~= "CMAKE_"@);
    assert("CMAKE_CXX_STANDARD"@.subrange(0, 6) =~= "CMAKE_"@);
    lemma_lacks_longer(document, "if("@, "if(NOT"@);
    lemma_lacks_longer(document, "endif"@, "endif()"@);
    lemma_lacks_longer(document, "CMAKE_"@, "CMAKE_BUILD_TYPE"@);
    lemma_lacks_longer(document, "CMAKE_"@, "CMAKE_CXX_STANDARD"@);
}

} // verus!
