//! The patch of one declaration inside an existing document.
//!
//! A declaration is found by its keyword alone: it runs from the first occurrence of the
//! keyword to the first closing parenthesis at or behind it. No statement is parsed, so a
//! keyword inside a comment, or a parenthesis nested in the declaration, is taken at its
//! face value.

use crate::text::find;
use crate::text::find_char_from;
use crate::text::first_char_from;
use crate::text::first_occurrence;
use crate::text::is_first_char_from;
use crate::text::leading_whitespace;
use crate::text::lemma_first_char_from_is;
use crate::text::lemma_first_occurrence_cases;
use crate::text::lemma_first_occurrence_is;
use crate::text::lemma_trim_end_is_prefix;
use crate::text::lemma_trim_start_is_suffix;
use crate::text::occurs_at;
use crate::text::slice;
use crate::text::to_chars;
use crate::text::trim;
use crate::text::trim_bounds;
use crate::text::trim_start;
use vstd::prelude::*;
use vstd::string::StrSliceExecFns;
use vstd::string::StringExecFns;

verus! {

/// Where the declaration of `keyword` stands in `document`: from the first occurrence of
/// the keyword up to and including the first `)` at or behind it, as the index of its
/// first character and the index behind its last. `None` where the keyword does not occur
/// or no `)` follows it.
pub open spec fn declaration_span(document: Seq<char>, keyword: Seq<char>) -> Option<(int, int)> {
    match first_occurrence(document, keyword) {
        Some(start) => match first_char_from(document, ')', start) {
            Some(close) => Some((start, close + 1)),
            None => None,
        },
        None => None,
    }
}

/// `document` with the declaration of `keyword` replaced by `text` trimmed of surrounding
/// white space; unchanged where it has no such declaration.
pub open spec fn with_declaration_replaced(
    document: Seq<char>,
    keyword: Seq<char>,
    text: Seq<char>,
) -> Seq<char> {
    match declaration_span(document, keyword) {
        Some((start, end)) => document.subrange(0, start) + trim(text) + document.subrange(
            end,
            document.len() as int,
        ),
        None => document,
    }
}

/// The reconciled document, and whether a declaration was replaced: the declaration of
/// `keyword` gives way to the trimmed fragment; where there is none, the fragment is
/// appended as it is.
pub open spec fn reconciled(document: Seq<char>, keyword: Seq<char>, fragment: Seq<char>) -> (
    Seq<char>,
    bool,
) {
    if declaration_span(document, keyword) is Some {
        (with_declaration_replaced(document, keyword, fragment), true)
    } else {
        (document + fragment, false)
    }
}

/// Replaces the declaration of `command_name` in `buf` by `new_command_text`, trimmed.
/// Returns whether there was a declaration to replace; without one `buf` stays as it is.
pub fn replace_command(buf: &mut String, command_name: &str, new_command_text: &str) -> (replaced:
    bool)
    ensures
        replaced == declaration_span(old(buf)@, command_name@) is Some,
        final(buf)@ == with_declaration_replaced(old(buf)@, command_name@, new_command_text@),
{
    let document = to_chars(buf.as_str());
    let keyword = to_chars(command_name);
    let start = match find(&document, &keyword) {
        Some(start) => start,
        None => {
            return false;
        },
    };
    let close = match find_char_from(&document, ')', start) {
        Some(close) => close,
        None => {
            return false;
        },
    };
    let fragment = to_chars(new_command_text);
    let (from, to) = trim_bounds(&fragment);
    let mut patched = slice(buf.as_str(), 0, start);
    patched.append(new_command_text.substring_char(from, to));
    patched.append(buf.as_str().substring_char(close + 1, document.len()));
    *buf = patched;
    true
}

/// Brings the declaration of `keyword` in `document_text` up to date with `new_fragment`:
/// an existing declaration is replaced by the trimmed fragment, and without one the
/// fragment is appended unchanged. The flag says whether a declaration was replaced.
pub fn reconcile(document_text: &str, keyword: &str, new_fragment: &str) -> (result: (
    String,
    bool,
))
    ensures
        (result.0@, result.1) == reconciled(document_text@, keyword@, new_fragment@),
{
    let mut text = document_text.to_string();
    if replace_command(&mut text, keyword, new_fragment) {
        (text, true)
    } else {
        text.append(new_fragment);
        (text, false)
    }
}

/// Whether `text` is a declaration of `keyword` as the patch sees one: it begins with the
/// keyword and its only `)` is its last character.
pub open spec fn is_declaration(text: Seq<char>, keyword: Seq<char>) -> bool {
    &&& occurs_at(text, keyword, 0)
    &&& is_first_char_from(text, ')', 0, text.len() - 1)
}

/// A document without the keyword gets the fragment appended as it is, and no replacement
/// is reported.
pub proof fn lemma_reconcile_appends(document: Seq<char>, keyword: Seq<char>, fragment: Seq<char>)
    requires
        forall|i: int| !occurs_at(document, keyword, i),
    ensures
        reconciled(document, keyword, fragment) == (document + fragment, false),
{
    lemma_first_occurrence_cases(document, keyword);
}

/// A replacement leaves the text before and behind the old declaration as it was, and
/// puts the trimmed fragment between them.
pub proof fn lemma_reconcile_replaces(document: Seq<char>, keyword: Seq<char>, fragment: Seq<char>)
    requires
        declaration_span(document, keyword) is Some,
    ensures
        ({
            let (start, end) = declaration_span(document, keyword).unwrap();
            let (updated, replaced) = reconciled(document, keyword, fragment);
            &&& replaced
            &&& 0 <= start < end <= document.len()
            &&& updated.len() == document.len() - (end - start) + trim(fragment).len()
            &&& updated.subrange(0, start) == document.subrange(0, start)
            &&& updated.subrange(start, start + trim(fragment).len()) == trim(fragment)
            &&& updated.subrange(start + trim(fragment).len(), updated.len() as int)
                == document.subrange(end, document.len() as int)
        }),
{
    lemma_first_occurrence_cases(document, keyword);
}

/// A document whose declaration of the keyword already is the trimmed fragment is left
/// as it is.
pub proof fn lemma_reconcile_fixed_point(
    document: Seq<char>,
    keyword: Seq<char>,
    fragment: Seq<char>,
)
    requires
        declaration_span(document, keyword) is Some,
        document.subrange(
            declaration_span(document, keyword).unwrap().0,
            declaration_span(document, keyword).unwrap().1,
        ) == trim(fragment),
    ensures
        reconciled(document, keyword, fragment) == (document, true),
{
    lemma_first_occurrence_cases(document, keyword);
}

/// Reconciling twice with the same fragment gives what reconciling once gives.
///
/// This holds where the trimmed fragment is a declaration of the keyword and, in case the
/// first call appends, the keyword occurs in the appended document no earlier than at the
/// fragment's own declaration.
pub proof fn lemma_reconcile_idempotent(
    document: Seq<char>,
    keyword: Seq<char>,
    fragment: Seq<char>,
)
    requires
        is_declaration(trim(fragment), keyword),
        declaration_span(document, keyword) is Some || first_occurrence(
            document + fragment,
            keyword,
        ) == Some(document.len() as int + leading_whitespace(fragment) as int),
    ensures
        reconciled(reconciled(document, keyword, fragment).0, keyword, fragment) == (
            reconciled(document, keyword, fragment).0,
            true,
        ),
{
    let middle = trim(fragment);
    let once = reconciled(document, keyword, fragment).0;
    if declaration_span(document, keyword) is Some {
        lemma_first_occurrence_cases(document, keyword);
        let start = declaration_span(document, keyword).unwrap().0;
        assert(occurs_at(once, keyword, start)) by {
            assert(once.subrange(start, start + keyword.len()) =~= middle.subrange(
                0,
                keyword.len() as int,
            ));
        }
        assert forall|j: int| 0 <= j < start implies !occurs_at(once, keyword, j) by {
            if occurs_at(once, keyword, j) {
                assert forall|k: int| 0 <= k < keyword.len() implies document[j + k]
                    == keyword[k] by {
                    if j + k >= start {
                        assert(middle.subrange(0, keyword.len() as int)[j + k - start]
                            == middle[j + k - start]);
                    }
                }
                assert(document.subrange(j, j + keyword.len()) =~= keyword);
                assert(occurs_at(document, keyword, j));
            }
        }
        lemma_first_occurrence_is(once, keyword, start);
        lemma_first_char_from_is(once, ')', start, start + middle.len() - 1);
        assert(once.subrange(start, start + middle.len()) =~= middle);
        lemma_reconcile_fixed_point(once, keyword, fragment);
    } else {
        lemma_trim_start_is_suffix(fragment);
        lemma_trim_end_is_prefix(trim_start(fragment));
        let lead = leading_whitespace(fragment) as int;
        let start = document.len() + lead;
        assert(once.subrange(start, start + middle.len()) =~= middle);
        assert(is_first_char_from(once, ')', start, start + middle.len() - 1)) by {
            assert forall|j: int| start <= j < start + middle.len() - 1 implies once[j]
                != ')' by {
                assert(once[j] == middle[j - start]);
            }
        }
        lemma_first_char_from_is(once, ')', start, start + middle.len() - 1);
        lemma_reconcile_fixed_point(once, keyword, fragment);
    }
}

} // verus!
