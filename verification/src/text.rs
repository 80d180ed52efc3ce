//! Character sequences: the operations on text that the rest of the library is stated over.
//!
//! A string is seen as the sequence of its characters. Each executable function here
//! works on a `Vec<char>` or a `&str`, and its contract is stated over `Seq<char>`.

use vstd::prelude::*;
use vstd::string::StrSliceExecFns;
use vstd::string::StringExecFns;

verus! {

/// The characters of `s`, in order.
pub fn to_chars(s: &str) -> (chars: Vec<char>)
    ensures
        chars@ == s@,
{
    let mut chars: Vec<char> = Vec::new();
    for c in it: s.chars()
        invariant
            chars@ == it.seq().take(it.index()),
            it.seq() == s@,
    {
        chars.push(c);
    }
    chars
}

/// Whether `c` has the Unicode property `White_Space`.
pub open spec fn is_whitespace(c: char) -> bool {
    ||| '\u{9}' <= c <= '\u{D}'
    ||| c == ' '
    ||| c == '\u{85}'
    ||| c == '\u{A0}'
    ||| c == '\u{1680}'
    ||| '\u{2000}' <= c <= '\u{200A}'
    ||| c == '\u{2028}'
    ||| c == '\u{2029}'
    ||| c == '\u{202F}'
    ||| c == '\u{205F}'
    ||| c == '\u{3000}'
}

/// Tests a character for white space.
pub fn char_is_whitespace(c: char) -> (b: bool)
    ensures
        b == is_whitespace(c),
{
    (c >= '\u{9}' && c <= '\u{D}') || c == ' ' || c == '\u{85}' || c == '\u{A0}' || c
        == '\u{1680}' || (c >= '\u{2000}' && c <= '\u{200A}') || c == '\u{2028}' || c
        == '\u{2029}' || c == '\u{202F}' || c == '\u{205F}' || c == '\u{3000}'
}

/// `s` without its leading white space.
pub open spec fn trim_start(s: Seq<char>) -> Seq<char>
    decreases s.len(),
{
    if s.len() > 0 && is_whitespace(s.first()) {
        trim_start(s.drop_first())
    } else {
        s
    }
}

/// `s` without its trailing white space.
pub open spec fn trim_end(s: Seq<char>) -> Seq<char>
    decreases s.len(),
{
    if s.len() > 0 && is_whitespace(s.last()) {
        trim_end(s.drop_last())
    } else {
        s
    }
}

/// `s` without its leading and trailing white space.
pub open spec fn trim(s: Seq<char>) -> Seq<char> {
    trim_end(trim_start(s))
}

/// The number of white-space characters `s` begins with.
pub open spec fn leading_whitespace(s: Seq<char>) -> nat {
    (s.len() - trim_start(s).len()) as nat
}

/// `trim_start(s)` is the part of `s` behind its leading white space.
pub proof fn lemma_trim_start_is_suffix(s: Seq<char>)
    ensures
        trim_start(s).len() <= s.len(),
        trim_start(s) == s.subrange(leading_whitespace(s) as int, s.len() as int),
        forall|i: int| 0 <= i < leading_whitespace(s) ==> is_whitespace(#[trigger] s[i]),
        trim_start(s).len() > 0 ==> !is_whitespace(trim_start(s).first()),
    decreases s.len(),
{
    if s.len() > 0 && is_whitespace(s.first()) {
        let rest = s.drop_first();
        lemma_trim_start_is_suffix(rest);
        assert forall|i: int| 0 <= i < leading_whitespace(s) implies is_whitespace(
            #[trigger] s[i],
        ) by {
            if i > 0 {
                assert(s[i] == rest[i - 1]);
            }
        }
    }
}

/// `trim_end(s)` is the part of `s` before its trailing white space.
pub proof fn lemma_trim_end_is_prefix(s: Seq<char>)
    ensures
        trim_end(s).len() <= s.len(),
        trim_end(s) == s.subrange(0, trim_end(s).len() as int),
        forall|i: int| trim_end(s).len() <= i < s.len() ==> is_whitespace(#[trigger] s[i]),
        trim_end(s).len() > 0 ==> !is_whitespace(trim_end(s).last()),
    decreases s.len(),
{
    if s.len() > 0 && is_whitespace(s.last()) {
        let rest = s.drop_last();
        lemma_trim_end_is_prefix(rest);
        assert forall|i: int| trim_end(s).len() <= i < s.len() implies is_whitespace(
            #[trigger] s[i],
        ) by {
            if i < s.len() - 1 {
                assert(s[i] == rest[i]);
            }
        }
    }
}

/// The bounds of `trim(chars@)` inside `chars`: it is `chars[start..end]`.
pub fn trim_bounds(chars: &Vec<char>) -> (bounds: (usize, usize))
    ensures
        bounds.0 <= bounds.1 <= chars.len(),
        chars@.subrange(bounds.0 as int, bounds.1 as int) == trim(chars@),
        bounds.0 == leading_whitespace(chars@),
{
    let len: usize = chars.len();
    let mut start: usize = 0;
    proof {
        assert(chars@.subrange(0, len as int) =~= chars@);
        lemma_trim_start_is_suffix(chars@);
    }
    while start < len && char_is_whitespace(chars[start])
        invariant
            start <= len == chars.len(),
            trim_start(chars@) == trim_start(chars@.subrange(start as int, len as int)),
            trim_start(chars@).len() <= len - start,
        decreases len - start,
    {
        proof {
            let rest = chars@.subrange(start as int, len as int);
            assert(rest.drop_first() =~= chars@.subrange(start + 1, len as int));
            lemma_trim_start_is_suffix(rest.drop_first());
        }
        start += 1;
    }
    let mut end: usize = len;
    while end > start && char_is_whitespace(chars[end - 1])
        invariant
            start <= end <= len == chars.len(),
            trim_end(chars@.subrange(start as int, len as int)) == trim_end(
                chars@.subrange(start as int, end as int),
            ),
        decreases end,
    {
        proof {
            let part = chars@.subrange(start as int, end as int);
            assert(part.drop_last() =~= chars@.subrange(start as int, end - 1));
        }
        end -= 1;
    }
    (start, end)
}

/// Whether `needle` stands in `hay` at index `i`.
pub open spec fn occurs_at(hay: Seq<char>, needle: Seq<char>, i: int) -> bool {
    &&& 0 <= i
    &&& i + needle.len() <= hay.len()
    &&& hay.subrange(i, i + needle.len()) == needle
}

/// Whether `i` is the first index at which `needle` stands in `hay`.
pub open spec fn is_first_occurrence(hay: Seq<char>, needle: Seq<char>, i: int) -> bool {
    &&& occurs_at(hay, needle, i)
    &&& forall|j: int| 0 <= j < i ==> !occurs_at(hay, needle, j)
}

/// The first index at which `needle` stands in `hay`, if it stands there at all.
pub open spec fn first_occurrence(hay: Seq<char>, needle: Seq<char>) -> Option<int> {
    if exists|i: int| is_first_occurrence(hay, needle, i) {
        Some(choose|i: int| is_first_occurrence(hay, needle, i))
    } else {
        None
    }
}

/// A first occurrence is the first occurrence.
pub proof fn lemma_first_occurrence_is(hay: Seq<char>, needle: Seq<char>, i: int)
    requires
        is_first_occurrence(hay, needle, i),
    ensures
        first_occurrence(hay, needle) == Some(i),
{
}

/// Where `needle` stands at no index of `hay`, there is no first occurrence.
pub proof fn lemma_first_occurrence_none(hay: Seq<char>, needle: Seq<char>)
    requires
        forall|j: int| 0 <= j ==> !occurs_at(hay, needle, j),
    ensures
        first_occurrence(hay, needle) is None,
{
}

/// An occurrence at `k` gives a first occurrence at or before `k`.
pub proof fn lemma_first_occurrence_exists(hay: Seq<char>, needle: Seq<char>, k: int)
    requires
        occurs_at(hay, needle, k),
    ensures
        first_occurrence(hay, needle) is Some,
        0 <= first_occurrence(hay, needle).unwrap() <= k,
        is_first_occurrence(hay, needle, first_occurrence(hay, needle).unwrap()),
    decreases k,
{
    if exists|j: int| 0 <= j < k && occurs_at(hay, needle, j) {
        let j = choose|j: int| 0 <= j < k && occurs_at(hay, needle, j);
        lemma_first_occurrence_exists(hay, needle, j);
    } else {
        lemma_first_occurrence_is(hay, needle, k);
    }
}

/// What `first_occurrence` gives, read off its definition.
pub proof fn lemma_first_occurrence_cases(hay: Seq<char>, needle: Seq<char>)
    ensures
        match first_occurrence(hay, needle) {
            Some(i) => is_first_occurrence(hay, needle, i),
            None => forall|j: int| !occurs_at(hay, needle, j),
        },
{
    match first_occurrence(hay, needle) {
        Some(i) => {},
        None => {
            assert forall|j: int| !occurs_at(hay, needle, j) by {
                if occurs_at(hay, needle, j) {
                    lemma_first_occurrence_exists(hay, needle, j);
                }
            }
        },
    }
}

/// Tests whether `needle` stands in `hay` at index `i`.
pub fn matches_at(hay: &Vec<char>, needle: &Vec<char>, i: usize) -> (b: bool)
    ensures
        b == occurs_at(hay@, needle@, i as int),
{
    let m: usize = needle.len();
    if m > hay.len() || i > hay.len() - m {
        return false;
    }
    let mut k: usize = 0;
    while k < m
        invariant
            k <= m == needle.len(),
            i + m <= hay.len(),
            forall|j: int| 0 <= j < k ==> hay@[i + j] == needle@[j],
        decreases m - k,
    {
        if hay[i + k] != needle[k] {
            return false;
        }
        k += 1;
    }
    proof {
        assert(hay@.subrange(i as int, i + m) =~= needle@);
    }
    true
}

/// The first index at which `needle` stands in `hay`.
pub fn find(hay: &Vec<char>, needle: &Vec<char>) -> (found: Option<usize>)
    ensures
        match found {
            Some(i) => first_occurrence(hay@, needle@) == Some(i as int),
            None => first_occurrence(hay@, needle@) is None,
        },
        found matches Some(i) ==> is_first_occurrence(hay@, needle@, i as int),
{
    let n: usize = hay.len();
    let m: usize = needle.len();
    if m > n {
        proof {
            lemma_first_occurrence_none(hay@, needle@);
        }
        return None;
    }
    let last: usize = n - m;
    let mut i: usize = 0;
    while i < last
        invariant
            last == n - m,
            n == hay.len(),
            m == needle.len(),
            i <= last,
            forall|j: int| 0 <= j < i ==> !occurs_at(hay@, needle@, j),
        decreases last - i,
    {
        if matches_at(hay, needle, i) {
            proof {
                lemma_first_occurrence_is(hay@, needle@, i as int);
            }
            return Some(i);
        }
        i += 1;
    }
    if matches_at(hay, needle, last) {
        proof {
            lemma_first_occurrence_is(hay@, needle@, last as int);
        }
        return Some(last);
    }
    proof {
        lemma_first_occurrence_none(hay@, needle@);
    }
    None
}

/// Whether `k` is the first index at or after `from` at which `s` holds `c`.
pub open spec fn is_first_char_from(s: Seq<char>, c: char, from: int, k: int) -> bool {
    &&& 0 <= from <= k < s.len()
    &&& s[k] == c
    &&& forall|j: int| from <= j < k ==> s[j] != c
}

/// The first index at or after `from` at which `s` holds `c`.
pub open spec fn first_char_from(s: Seq<char>, c: char, from: int) -> Option<int> {
    if exists|k: int| is_first_char_from(s, c, from, k) {
        Some(choose|k: int| is_first_char_from(s, c, from, k))
    } else {
        None
    }
}

/// A first index is the first index.
pub proof fn lemma_first_char_from_is(s: Seq<char>, c: char, from: int, k: int)
    requires
        is_first_char_from(s, c, from, k),
    ensures
        first_char_from(s, c, from) == Some(k),
{
}

/// Where `s` holds no `c` at or after `from`, there is no first index.
pub proof fn lemma_first_char_from_none(s: Seq<char>, c: char, from: int)
    requires
        forall|j: int| from <= j < s.len() && 0 <= j ==> s[j] != c,
    ensures
        first_char_from(s, c, from) is None,
{
}

/// The first index at or after `from` at which `s` holds `c`.
pub fn find_char_from(s: &Vec<char>, c: char, from: usize) -> (found: Option<usize>)
    ensures
        match found {
            Some(k) => first_char_from(s@, c, from as int) == Some(k as int),
            None => first_char_from(s@, c, from as int) is None,
        },
        found matches Some(k) ==> is_first_char_from(s@, c, from as int, k as int),
{
    let n: usize = s.len();
    let mut k: usize = from;
    while k < n
        invariant
            n == s.len(),
            from <= k,
            forall|j: int| from <= j < k && j < n ==> s@[j] != c,
        decreases n - k,
    {
        if s[k] == c {
            proof {
                lemma_first_char_from_is(s@, c, from as int, k as int);
            }
            return Some(k);
        }
        k += 1;
    }
    proof {
        lemma_first_char_from_none(s@, c, from as int);
    }
    None
}

/// The items of `items`, each two neighbours parted by `separator`.
pub open spec fn joined(items: Seq<Seq<char>>, separator: Seq<char>) -> Seq<char>
    decreases items.len(),
{
    if items.len() == 0 {
        Seq::empty()
    } else if items.len() == 1 {
        items[0]
    } else {
        joined(items.drop_last(), separator) + separator + items.last()
    }
}

/// An optional string as an optional sequence of characters.
pub open spec fn optional_text(text: Option<String>) -> Option<Seq<char>> {
    match text {
        Some(text) => Some(text@),
        None => None,
    }
}

/// The views of the strings of `items`.
pub open spec fn views(items: Seq<String>) -> Seq<Seq<char>> {
    Seq::new(items.len(), |i: int| items[i]@)
}

/// Joins the strings of `items`, putting `separator` between each two neighbours.
pub fn join(items: &[String], separator: &str) -> (text: String)
    ensures
        text@ == joined(views(items@), separator@),
{
    let mut text = String::new();
    let n: usize = items.len();
    let mut i: usize = 0;
    while i < n
        invariant
            i <= n == items.len(),
            text@ == joined(views(items@).take(i as int), separator@),
        decreases n - i,
    {
        proof {
            assert(views(items@).take(i + 1).drop_last() =~= views(items@).take(i as int));
        }
        if i > 0 {
            text.append(separator);
        }
        text.append(items[i].as_str());
        i += 1;
    }
    proof {
        assert(views(items@).take(n as int) =~= views(items@));
    }
    text
}

/// The characters of `s` from index `from` up to index `to`.
pub fn slice(s: &str, from: usize, to: usize) -> (part: String)
    requires
        from <= to <= s@.len(),
    ensures
        part@ == s@.subrange(from as int, to as int),
{
    s.substring_char(from, to).to_string()
}

/// The parts of `s` between the occurrences of `separator`: one more than there are
/// occurrences, each part free of `separator`.
pub open spec fn split(s: Seq<char>, separator: char) -> Seq<Seq<char>>
    decreases s.len(),
{
    if s.len() == 0 {
        seq![Seq::empty()]
    } else {
        let parts = split(s.drop_last(), separator);
        if s.last() == separator {
            parts.push(Seq::empty())
        } else {
            parts.update(parts.len() - 1, parts.last().push(s.last()))
        }
    }
}

/// `split` gives at least one part.
pub proof fn lemma_split_nonempty(s: Seq<char>, separator: char)
    ensures
        split(s, separator).len() >= 1,
    decreases s.len(),
{
    if s.len() > 0 {
        lemma_split_nonempty(s.drop_last(), separator);
    }
}

/// Appending a text that is free of the separator lengthens the last part.
pub proof fn lemma_split_append_plain(s: Seq<char>, tail: Seq<char>, separator: char)
    requires
        forall|i: int| 0 <= i < tail.len() ==> tail[i] != separator,
    ensures
        split(s, separator).len() >= 1,
        split(s + tail, separator) == split(s, separator).update(
            split(s, separator).len() - 1,
            split(s, separator).last() + tail,
        ),
    decreases tail.len(),
{
    lemma_split_nonempty(s, separator);
    let parts = split(s, separator);
    if tail.len() > 0 {
        let shorter = tail.drop_last();
        lemma_split_append_plain(s, shorter, separator);
        assert((s + tail).drop_last() =~= s + shorter);
        assert((parts.last() + shorter).push(tail.last()) =~= parts.last() + tail);
    }
}

/// Appending the separator opens a new, empty part.
pub proof fn lemma_split_append_separator(s: Seq<char>, separator: char)
    ensures
        split(s.push(separator), separator) == split(s, separator).push(Seq::empty()),
{
    assert(s.push(separator).drop_last() =~= s);
}

/// A separator-free text is its own single part.
pub proof fn lemma_split_plain(s: Seq<char>, separator: char)
    requires
        forall|i: int| 0 <= i < s.len() ==> s[i] != separator,
    ensures
        split(s, separator) == seq![s],
{
    lemma_split_append_plain(Seq::empty(), s, separator);
}

/// The bounds of the parts of `chars[from..to]` between the occurrences of `separator`.
pub fn split_bounds(chars: &Vec<char>, from: usize, to: usize, separator: char) -> (bounds: Vec<
    (usize, usize),
>)
    requires
        from <= to <= chars.len(),
    ensures
        bounds.len() == split(chars@.subrange(from as int, to as int), separator).len(),
        forall|k: int|
            0 <= k < bounds.len() ==> {
                &&& from <= (#[trigger] bounds[k]).0 <= bounds[k].1 <= to
                &&& chars@.subrange(bounds[k].0 as int, bounds[k].1 as int) == split(
                    chars@.subrange(from as int, to as int),
                    separator,
                )[k]
            },
{
    let mut bounds: Vec<(usize, usize)> = Vec::new();
    let mut start: usize = from;
    let mut i: usize = from;
    while i < to
        invariant
            from <= start <= i <= to <= chars.len(),
            split(chars@.subrange(from as int, i as int), separator).len() == bounds.len() + 1,
            split(chars@.subrange(from as int, i as int), separator).last() == chars@.subrange(
                start as int,
                i as int,
            ),
            forall|k: int|
                0 <= k < bounds.len() ==> {
                    &&& from <= (#[trigger] bounds[k]).0 <= bounds[k].1 <= i
                    &&& chars@.subrange(bounds[k].0 as int, bounds[k].1 as int) == split(
                        chars@.subrange(from as int, i as int),
                        separator,
                    )[k]
                },
        decreases to - i,
    {
        proof {
            let seen = chars@.subrange(from as int, i as int);
            let next = chars@.subrange(from as int, i + 1);
            assert(next.drop_last() =~= seen);
        }
        if chars[i] == separator {
            bounds.push((start, i));
            start = i + 1;
        }
        i += 1;
    }
    bounds.push((start, to));
    bounds
}

/// Tests whether two texts hold the same characters.
pub fn same_text(a: &str, b: &str) -> (same: bool)
    ensures
        same == (a@ == b@),
{
    let left = to_chars(a);
    let right = to_chars(b);
    if left.len() != right.len() {
        return false;
    }
    let n: usize = left.len();
    let mut i: usize = 0;
    while i < n
        invariant
            i <= n == left.len() == right.len(),
            left@ == a@,
            right@ == b@,
            forall|j: int| 0 <= j < i ==> left@[j] == right@[j],
        decreases n - i,
    {
        if left[i] != right[i] {
            return false;
        }
        i += 1;
    }
    proof {
        assert(left@ =~= right@);
    }
    true
}

/// Whether `word` stands nowhere in `text`.
pub open spec fn lacks(text: Seq<char>, word: Seq<char>) -> bool {
    forall|i: int| !occurs_at(text, word, i)
}

/// Whether an occurrence of `word` that holds the character `c` must end with it: `c` is
/// none of the characters of `word` before its last.
pub open spec fn closes_word(c: char, word: Seq<char>) -> bool {
    forall|k: int| 0 <= k < word.len() - 1 ==> word[k] != c
}

/// Whether an occurrence of `word` that holds the character `c` must begin with it: `c`
/// is none of the characters of `word` behind its first.
pub open spec fn opens_word(c: char, word: Seq<char>) -> bool {
    forall|k: int| 1 <= k < word.len() ==> word[k] != c
}

/// Where `word` stands in `text` at `i`, the characters of `text` from `i` on are those
/// of `word`.
pub proof fn lemma_occurrence_chars(text: Seq<char>, word: Seq<char>, i: int)
    requires
        occurs_at(text, word, i),
    ensures
        forall|k: int| 0 <= k < word.len() ==> #[trigger] text[i + k] == word[k],
{
    assert forall|k: int| 0 <= k < word.len() implies #[trigger] text[i + k] == word[k] by {
        assert(text.subrange(i, i + word.len())[k] == text[i + k]);
    }
}

/// A text that lacks one character of `word` lacks `word`.
pub proof fn lemma_lacks_without_char(text: Seq<char>, word: Seq<char>, k: int)
    requires
        0 <= k < word.len(),
        forall|i: int| 0 <= i < text.len() ==> text[i] != word[k],
    ensures
        lacks(text, word),
{
    assert forall|i: int| !occurs_at(text, word, i) by {
        if occurs_at(text, word, i) {
            lemma_occurrence_chars(text, word, i);
            assert(text[i + k] == word[k]);
        }
    }
}

/// A text that lacks `word` lacks every text that begins with `word`.
pub proof fn lemma_lacks_longer(text: Seq<char>, word: Seq<char>, longer: Seq<char>)
    requires
        occurs_at(longer, word, 0),
        lacks(text, word),
    ensures
        lacks(text, longer),
{
    assert forall|i: int| !occurs_at(text, longer, i) by {
        if occurs_at(text, longer, i) {
            assert(text.subrange(i, i + word.len()) =~= longer.subrange(0, word.len() as int)) by {
                lemma_occurrence_chars(text, longer, i);
            }
            assert(occurs_at(text, word, i));
        }
    }
}

/// Two texts that lack `word`, the first ending with a character that closes the word,
/// lack it when joined.
pub proof fn lemma_lacks_behind_closing(left: Seq<char>, right: Seq<char>, word: Seq<char>)
    requires
        lacks(left, word),
        lacks(right, word),
        left.len() > 0 ==> closes_word(left.last(), word),
    ensures
        lacks(left + right, word),
{
    let whole = left + right;
    assert forall|i: int| !occurs_at(whole, word, i) by {
        if occurs_at(whole, word, i) {
            lemma_occurrence_chars(whole, word, i);
            if i + word.len() <= left.len() {
                assert(left.subrange(i, i + word.len()) =~= whole.subrange(i, i + word.len()));
                assert(occurs_at(left, word, i));
            } else if i >= left.len() {
                assert(right.subrange(i - left.len(), i - left.len() + word.len())
                    =~= whole.subrange(i, i + word.len()));
                assert(occurs_at(right, word, i - left.len()));
            } else {
                let k = left.len() - 1 - i;
                assert(whole[i + k] == word[k]);
                assert(whole[i + k] == left.last());
            }
        }
    }
}

/// Two texts that lack `word`, the second beginning with a character that opens the
/// word, lack it when joined.
pub proof fn lemma_lacks_before_opening(left: Seq<char>, right: Seq<char>, word: Seq<char>)
    requires
        lacks(left, word),
        lacks(right, word),
        right.len() > 0 ==> opens_word(right.first(), word),
    ensures
        lacks(left + right, word),
{
    let whole = left + right;
    assert forall|i: int| !occurs_at(whole, word, i) by {
        if occurs_at(whole, word, i) {
            lemma_occurrence_chars(whole, word, i);
            if i + word.len() <= left.len() {
                assert(left.subrange(i, i + word.len()) =~= whole.subrange(i, i + word.len()));
                assert(occurs_at(left, word, i));
            } else if i >= left.len() {
                assert(right.subrange(i - left.len(), i - left.len() + word.len())
                    =~= whole.subrange(i, i + word.len()));
                assert(occurs_at(right, word, i - left.len()));
            } else {
                let k = left.len() - i;
                assert(whole[i + k] == word[k]);
                assert(whole[i + k] == right.first());
            }
        }
    }
}

/// Texts that lack `word`, joined by a separator that lacks it, opens it with its first
/// character and closes it with its last, lack it together.
pub proof fn lemma_joined_lacks(items: Seq<Seq<char>>, separator: Seq<char>, word: Seq<char>)
    requires
        forall|k: int| 0 <= k < items.len() ==> lacks(#[trigger] items[k], word),
        lacks(separator, word),
        separator.len() > 0,
        opens_word(separator.first(), word),
        closes_word(separator.last(), word),
        word.len() > 0,
    ensures
        lacks(joined(items, separator), word),
    decreases items.len(),
{
    if items.len() == 0 {
        assert forall|i: int| !occurs_at(Seq::<char>::empty(), word, i) by {}
    } else if items.len() == 1 {
        assert(lacks(items[0], word));
    } else {
        let before = items.drop_last();
        assert forall|k: int| 0 <= k < before.len() implies lacks(#[trigger] before[k], word) by {
            assert(before[k] == items[k]);
        }
        lemma_joined_lacks(before, separator, word);
        lemma_lacks_before_opening(joined(before, separator), separator, word);
        assert(lacks(items.last(), word));
        assert((joined(before, separator) + separator).last() == separator.last());
        lemma_lacks_behind_closing(joined(before, separator) + separator, items.last(), word);
    }
}

} // verus!
