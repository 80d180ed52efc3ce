//! The version of the build tool: two or three numbers, compared as a triple in which an
//! absent revision counts as zero.

use crate::number::decimal;
use crate::number::decimal_string;
use crate::number::lemma_decimal_digits;
use crate::number::lemma_parse_u8_decimal;
use crate::number::parse_u8;
use crate::number::parse_u8_in;
use crate::text::is_whitespace;
use crate::text::lemma_split_append_plain;
use crate::text::lemma_split_append_separator;
use crate::text::lemma_split_plain;
use crate::text::split;
use crate::text::split_bounds;
use crate::text::to_chars;
use crate::text::trim;
use crate::text::trim_bounds;
use std::cmp::Ordering;
use std::str::FromStr;
use vstd::prelude::*;
use vstd::string::StringExecFns;

verus! {

/// A version of the build tool.
///
/// A revision of zero and an absent revision mean the same version: the constructors and
/// the parser give `None` for both, and the comparisons make no difference between them.
#[derive(Debug, Copy, Clone)]
pub struct Version {
    pub major: u8,
    pub minor: u8,
    pub revision: Option<u8>,
}

/// The error of parsing a text that is no version.
#[derive(Debug, Copy, Clone, PartialEq, Eq)]
pub struct ParseVersionError;

impl ParseVersionError {
    /// What went wrong, in a few words.
    pub open spec fn description_text() -> Seq<char> {
        "Given string is not a cmake version"@
    }

    /// What went wrong, in a few words.
    pub fn description(&self) -> (text: String)
        ensures
            text@ == Self::description_text(),
    {
        "Given string is not a cmake version".to_string()
    }

    /// The error as it is shown to the user: its description.
    pub fn to_string(&self) -> (text: String)
        ensures
            text@ == Self::description_text(),
    {
        self.description()
    }
}

impl Version {
    /// The revision as a number: zero where it is absent.
    pub open spec fn revision_number(self) -> u8 {
        match self.revision {
            Some(revision) => revision,
            None => 0,
        }
    }

    /// Whether a revision of zero is written as absent.
    pub open spec fn is_normalized(self) -> bool {
        self.revision != Some(0u8)
    }

    /// The same version with a revision of zero written as absent.
    pub open spec fn normalized(self) -> Version {
        Version {
            major: self.major,
            minor: self.minor,
            revision: if self.revision_number() == 0 {
                None
            } else {
                self.revision
            },
        }
    }

    /// Whether the two are the same version: major, minor and revision number agree.
    pub open spec fn same(self, other: Version) -> bool {
        &&& self.major == other.major
        &&& self.minor == other.minor
        &&& self.revision_number() == other.revision_number()
    }

    /// Whether `self` is an earlier version than `other`: the triple of major, minor and
    /// revision number is smaller in the lexicographic order.
    pub open spec fn precedes(self, other: Version) -> bool {
        ||| self.major < other.major
        ||| self.major == other.major && self.minor < other.minor
        ||| self.major == other.major && self.minor == other.minor && self.revision_number()
            < other.revision_number()
    }

    /// The version `major.minor`, without a revision.
    pub fn new(major: u8, minor: u8) -> (version: Self)
        ensures
            version == (Version { major, minor, revision: None }),
            version.is_normalized(),
    {
        Version { major, minor, revision: None }
    }

    /// The version `major.minor.revision`; a revision of zero is stored as absent.
    pub fn with_revision(major: u8, minor: u8, revision: u8) -> (version: Self)
        ensures
            version == (Version { major, minor, revision: Some(revision) }).normalized(),
            version.is_normalized(),
            version.same(Version { major, minor, revision: Some(revision) }),
    {
        let revision = if revision == 0 {
            None
        } else {
            Some(revision)
        };
        Version { major, minor, revision }
    }

    /// The revision as a number: zero where it is absent.
    pub fn revision_or_zero(&self) -> (revision: u8)
        ensures
            revision == self.revision_number(),
    {
        match self.revision {
            Some(revision) => revision,
            None => 0,
        }
    }

    /// The version as text: `major.minor`, followed by `.revision` unless the revision
    /// number is zero.
    pub open spec fn text(self) -> Seq<char> {
        let head = decimal(self.major as nat) + seq!['.'] + decimal(self.minor as nat);
        if self.revision_number() == 0 {
            head
        } else {
            head + seq!['.'] + decimal(self.revision_number() as nat)
        }
    }

    /// Formats the version as `major.minor` or `major.minor.revision`.
    pub fn to_string(&self) -> (text: String)
        ensures
            text@ == self.text(),
    {
        proof {
            reveal_strlit(".");
        }
        let mut text = decimal_string(self.major as u64);
        text.append(".");
        let minor = decimal_string(self.minor as u64);
        text.append(minor.as_str());
        let revision = self.revision_or_zero();
        if revision != 0 {
            text.append(".");
            let last = decimal_string(revision as u64);
            text.append(last.as_str());
        }
        text
    }
}

/// What a text holds as a version: trimmed and split at its dots, it must give two or three
/// parts, each read as a `u8`; a third part of zero is stored as an absent revision.
pub open spec fn parse_version(s: Seq<char>) -> Option<Version> {
    let parts = split(trim(s), '.');
    if parts.len() == 2 {
        match (parse_u8(parts[0]), parse_u8(parts[1])) {
            (Some(major), Some(minor)) => Some(Version { major, minor, revision: None }),
            _ => None,
        }
    } else if parts.len() == 3 {
        match (parse_u8(parts[0]), parse_u8(parts[1]), parse_u8(parts[2])) {
            (Some(major), Some(minor), Some(revision)) => Some(
                (Version { major, minor, revision: Some(revision) }).normalized(),
            ),
            _ => None,
        }
    } else {
        None
    }
}

impl Version {
    /// Parses a version from `major.minor` or `major.minor.revision`, surrounding white
    /// space ignored. Any other text is refused.
    pub fn from_str(s: &str) -> (parsed: Result<Version, ParseVersionError>)
        ensures
            match parsed {
                Ok(version) => parse_version(s@) == Some(version) && version.is_normalized(),
                Err(_) => parse_version(s@) is None,
            },
    {
        let chars = to_chars(s);
        let (from, to) = trim_bounds(&chars);
        let bounds = split_bounds(&chars, from, to, '.');
        let count: usize = bounds.len();
        if count != 2 && count != 3 {
            return Err(ParseVersionError);
        }
        let major = match parse_u8_in(&chars, bounds[0].0, bounds[0].1) {
            Some(number) => number,
            None => {
                return Err(ParseVersionError);
            },
        };
        let minor = match parse_u8_in(&chars, bounds[1].0, bounds[1].1) {
            Some(number) => number,
            None => {
                return Err(ParseVersionError);
            },
        };
        if count == 2 {
            return Ok(Version::new(major, minor));
        }
        match parse_u8_in(&chars, bounds[2].0, bounds[2].1) {
            Some(revision) => Ok(Version::with_revision(major, minor, revision)),
            None => Err(ParseVersionError),
        }
    }
}

impl FromStr for Version {
    type Err = ParseVersionError;

    /// Parses a version as `Version::from_str` does; this is what `str::parse` calls.
    fn from_str(s: &str) -> (parsed: Result<Self, Self::Err>)
        ensures
            match parsed {
                Ok(version) => parse_version(s@) == Some(version) && version.is_normalized(),
                Err(_) => parse_version(s@) is None,
            },
    {
        Version::from_str(s)
    }
}

impl PartialEq for Version {
    fn eq(&self, other: &Self) -> (equal: bool) {
        self.major == other.major && self.minor == other.minor && self.revision_or_zero()
            == other.revision_or_zero()
    }
}

impl Eq for Version {

}

impl vstd::std_specs::cmp::PartialEqSpecImpl for Version {
    open spec fn obeys_eq_spec() -> bool {
        true
    }

    open spec fn eq_spec(&self, other: &Self) -> bool {
        self.same(*other)
    }
}

impl PartialOrd for Version {
    fn partial_cmp(&self, other: &Self) -> (order: Option<Ordering>) {
        if self.major < other.major {
            Some(Ordering::Less)
        } else if self.major > other.major {
            Some(Ordering::Greater)
        } else if self.minor < other.minor {
            Some(Ordering::Less)
        } else if self.minor > other.minor {
            Some(Ordering::Greater)
        } else if self.revision_or_zero() < other.revision_or_zero() {
            Some(Ordering::Less)
        } else if self.revision_or_zero() > other.revision_or_zero() {
            Some(Ordering::Greater)
        } else {
            Some(Ordering::Equal)
        }
    }
}

impl vstd::std_specs::cmp::PartialOrdSpecImpl for Version {
    open spec fn obeys_partial_cmp_spec() -> bool {
        true
    }

    open spec fn partial_cmp_spec(&self, other: &Self) -> Option<Ordering> {
        if self.precedes(*other) {
            Some(Ordering::Less)
        } else if self.same(*other) {
            Some(Ordering::Equal)
        } else {
            Some(Ordering::Greater)
        }
    }
}

/// Of two versions exactly one holds: the first is earlier, they are the same, or the
/// second is earlier.
pub proof fn lemma_order_total(a: Version, b: Version)
    ensures
        a.precedes(b) || a.same(b) || b.precedes(a),
        !(a.precedes(b) && a.same(b)),
        !(a.precedes(b) && b.precedes(a)),
        !(a.same(b) && b.precedes(a)),
{
}

/// "Earlier" is transitive, and "the same" is an equivalence that "earlier" respects.
pub proof fn lemma_order_transitive(a: Version, b: Version, c: Version)
    ensures
        a.precedes(b) && b.precedes(c) ==> a.precedes(c),
        a.same(b) && b.same(c) ==> a.same(c),
        a.same(b) ==> b.same(a),
        a.same(a),
        a.same(b) && b.precedes(c) ==> a.precedes(c),
        a.precedes(b) && b.same(c) ==> a.precedes(c),
{
}

/// An absent revision and a revision of zero give the same version.
pub proof fn lemma_absent_revision_is_zero(major: u8, minor: u8)
    ensures
        (Version { major, minor, revision: None }).same(
            Version { major, minor, revision: Some(0) },
        ),
        (Version { major, minor, revision: Some(0) }).normalized() == (Version {
            major,
            minor,
            revision: None,
        }),
{
}

/// A text that begins and ends with a character that is no white space is its own trim.
proof fn lemma_trim_of_tight(s: Seq<char>)
    requires
        s.len() > 0,
        !is_whitespace(s.first()),
        !is_whitespace(s.last()),
    ensures
        trim(s) == s,
{
}

/// The parts of two or three decimal numbers written with dots between them.
proof fn lemma_split_dotted(a: nat, b: nat, c: nat)
    ensures
        split(decimal(a) + seq!['.'] + decimal(b), '.') == seq![decimal(a), decimal(b)],
        split(decimal(a) + seq!['.'] + decimal(b) + seq!['.'] + decimal(c), '.') == seq![
            decimal(a),
            decimal(b),
            decimal(c),
        ],
{
    lemma_decimal_digits(a);
    lemma_decimal_digits(b);
    lemma_decimal_digits(c);
    let da = decimal(a);
    let db = decimal(b);
    let dc = decimal(c);
    lemma_split_plain(da, '.');
    lemma_split_append_separator(da, '.');
    lemma_split_append_plain(da.push('.'), db, '.');
    assert(da.push('.') + db =~= da + seq!['.'] + db);
    let head = da + seq!['.'] + db;
    lemma_split_append_separator(head, '.');
    lemma_split_append_plain(head.push('.'), dc, '.');
    assert(head.push('.') + dc =~= head + seq!['.'] + dc);
}

/// The text of a version is parsed as that version, a revision of zero read as absent.
pub proof fn lemma_parse_of_text(version: Version)
    ensures
        parse_version(version.text()) == Some(version.normalized()),
{
    let a = version.major as nat;
    let b = version.minor as nat;
    let c = version.revision_number() as nat;
    lemma_decimal_digits(a);
    lemma_decimal_digits(b);
    lemma_decimal_digits(c);
    lemma_split_dotted(a, b, c);
    lemma_parse_u8_decimal(version.major);
    lemma_parse_u8_decimal(version.minor);
    lemma_parse_u8_decimal(version.revision_number());
    lemma_trim_of_tight(version.text());
}

/// Formatting a parsed version and parsing the result gives the same version again; the
/// formatted text writes no revision of zero.
pub proof fn lemma_round_trip(s: Seq<char>)
    requires
        parse_version(s) is Some,
    ensures
        parse_version(parse_version(s).unwrap().text()) == parse_version(s),
        parse_version(s).unwrap().is_normalized(),
        parse_version(s).unwrap().revision is None ==> parse_version(s).unwrap().text()
            == decimal(parse_version(s).unwrap().major as nat) + seq!['.'] + decimal(
            parse_version(s).unwrap().minor as nat,
        ),
{
    lemma_parse_of_text(parse_version(s).unwrap());
}

/// A text is refused unless, trimmed and split at its dots, it has two or three parts
/// that each read as a number of at most 255.
pub proof fn lemma_parse_refuses(s: Seq<char>)
    ensures
        split(trim(s), '.').len() < 2 ==> parse_version(s) is None,
        split(trim(s), '.').len() > 3 ==> parse_version(s) is None,
        (exists|k: int|
            0 <= k < split(trim(s), '.').len() && parse_u8(#[trigger] split(trim(s), '.')[k])
                is None) ==> parse_version(s) is None,
        parse_version(s) is None ==> split(trim(s), '.').len() < 2 || split(trim(s), '.').len()
            > 3 || exists|k: int|
            0 <= k < split(trim(s), '.').len() && parse_u8(#[trigger] split(trim(s), '.')[k])
                is None,
{
}

} // verus!
