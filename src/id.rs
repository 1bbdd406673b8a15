//! Advisory identifiers: their kinds, how they are parsed, and what can be
//! read from them.

use vstd::prelude::*;

use crate::text::{
    chars_of, equals, has_prefix, lemma_segments_nonempty, parse_u32, segments, split_segments,
    starts_with, texts, u32_of,
};

verus! {

/// Placeholder advisory name: shouldn't be used until an ID is assigned.
pub const PLACEHOLDER: &'static str = "RUSTSEC-0000-0000";

/// Earliest year an advisory identifier may carry.
pub const YEAR_MIN: u32 = 2000;

/// Latest year an advisory identifier may carry.
pub const YEAR_MAX: u32 = 2100;

/// Known kinds of advisory IDs.
#[derive(Copy, Clone, Debug, PartialEq, Eq, Structural, Hash, PartialOrd, Ord)]
#[non_exhaustive]
pub enum Kind {
    /// Our advisory namespace
    RustSec,
    /// Common Vulnerabilities and Exposures
    Cve,
    /// GitHub Security Advisory
    Ghsa,
    /// Cisco Talos identifiers
    Talos,
    /// Other types of advisory identifiers we don't know about
    Other,
}

/// Why a text is not a valid advisory identifier.
#[derive(Copy, Clone, Debug, PartialEq, Eq, Structural, Hash)]
pub enum ParseError {
    /// The year segment is not a number.
    MalformedYear,
    /// The year is a number outside `YEAR_MIN..=YEAR_MAX`.
    YearOutOfRange,
    /// The numerical segment after the year is missing.
    IncompleteIdentifier,
    /// The numerical segment is not a number, or more segments follow it.
    MalformedIdentifier,
}

/// The words that introduce the identifier in a report of error `e`.
pub open spec fn error_lead(e: ParseError) -> Seq<char> {
    match e {
        ParseError::MalformedYear => "malformed year in advisory ID: "@,
        ParseError::YearOutOfRange => "out-of-range year in advisory ID: "@,
        ParseError::IncompleteIdentifier => "incomplete advisory ID: "@,
        ParseError::MalformedIdentifier => "malformed advisory ID: "@,
    }
}

impl ParseError {
    /// A report of this error on `advisory_id`, naming the identifier.
    pub fn message(&self, advisory_id: &str) -> (r: String)
        ensures
            r@ == error_lead(*self) + advisory_id@,
    {
        let lead = match self {
            ParseError::MalformedYear => "malformed year in advisory ID: ",
            ParseError::YearOutOfRange => "out-of-range year in advisory ID: ",
            ParseError::IncompleteIdentifier => "incomplete advisory ID: ",
            ParseError::MalformedIdentifier => "malformed advisory ID: ",
        };
        prefixed(lead, advisory_id)
    }
}

/// The kind that the prefix of `s` announces.
pub open spec fn detect_kind(s: Seq<char>) -> Kind {
    if has_prefix(s, "RUSTSEC-"@) {
        Kind::RustSec
    } else if has_prefix(s, "CVE-"@) {
        Kind::Cve
    } else if has_prefix(s, "TALOS-"@) {
        Kind::Talos
    } else if has_prefix(s, "GHSA-"@) {
        Kind::Ghsa
    } else {
        Kind::Other
    }
}

/// Identifiers of this kind are `<PREFIX>-<year>-<number>`.
pub open spec fn has_year(k: Kind) -> bool {
    k == Kind::RustSec || k == Kind::Cve || k == Kind::Talos
}

/// The year of a `<PREFIX>-<year>-<number>` identifier, or why `s` is not one.
/// The year is checked first, then the number, then that nothing follows.
/// (Text that begins with one of the prefixes always has a second segment.)
pub open spec fn check_year(s: Seq<char>) -> Result<u32, ParseError> {
    let parts = segments(s);
    if parts.len() < 2 {
        Err(ParseError::MalformedYear)
    } else {
        match u32_of(parts[1]) {
            None => Err(ParseError::MalformedYear),
            Some(y) => if y < YEAR_MIN || y > YEAR_MAX {
                Err(ParseError::YearOutOfRange)
            } else if parts.len() < 3 {
                Err(ParseError::IncompleteIdentifier)
            } else if u32_of(parts[2]) is None {
                Err(ParseError::MalformedIdentifier)
            } else if parts.len() > 3 {
                Err(ParseError::MalformedIdentifier)
            } else {
                Ok(y)
            },
        }
    }
}

/// What an identifier is made of.
pub struct IdView {
    pub kind: Kind,
    pub year: Option<u32>,
    pub raw: Seq<char>,
}

/// The identifier that the text `s` denotes, or why it denotes none.
pub open spec fn parse_id(s: Seq<char>) -> Result<IdView, ParseError> {
    if s == PLACEHOLDER@ {
        Ok(IdView { kind: Kind::RustSec, year: None, raw: s })
    } else {
        let k = detect_kind(s);
        if has_year(k) {
            match check_year(s) {
                Ok(y) => Ok(IdView { kind: k, year: Some(y), raw: s }),
                Err(e) => Err(e),
            }
        } else {
            Ok(IdView { kind: k, year: None, raw: s })
        }
    }
}

/// The number after the last `-` of `s`, if that segment is one; none for
/// the placeholder.
pub open spec fn numerical_part_of(s: Seq<char>) -> Option<u32> {
    if s == PLACEHOLDER@ {
        None
    } else {
        u32_of(segments(s).last())
    }
}

/// The web page of the advisory `v`, where its kind has one.
pub open spec fn url_of(v: IdView) -> Option<Seq<char>> {
    match v.kind {
        Kind::RustSec => if v.raw == PLACEHOLDER@ {
            None
        } else {
            Some("https://rustsec.org/advisories/"@ + v.raw)
        },
        Kind::Cve => Some("https://cve.mitre.org/cgi-bin/cvename.cgi?name="@ + v.raw),
        Kind::Ghsa => Some("https://github.com/advisories/"@ + v.raw),
        Kind::Talos => Some("https://www.talosintelligence.com/reports/"@ + v.raw),
        Kind::Other => None,
    }
}

/// The text held by an optional string.
pub open spec fn opt_text(r: Option<String>) -> Option<Seq<char>> {
    match r {
        Some(t) => Some(t@),
        None => None,
    }
}

impl Kind {
    /// Detect the identifier kind for the given string.
    pub fn detect(string: &str) -> (r: Kind)
        ensures
            r == detect_kind(string@),
    {
        let s = chars_of(string);
        if starts_with(&s, "RUSTSEC-") {
            Kind::RustSec
        } else if starts_with(&s, "CVE-") {
            Kind::Cve
        } else if starts_with(&s, "TALOS-") {
            Kind::Talos
        } else if starts_with(&s, "GHSA-") {
            Kind::Ghsa
        } else {
            Kind::Other
        }
    }
}

/// Parse the year from an advisory identifier.
pub fn parse_year(advisory_id: &str) -> (r: Result<u32, ParseError>)
    ensures
        r == check_year(advisory_id@),
{
    let s = chars_of(advisory_id);
    let parts = split_segments(&s);
    if parts.len() < 2 {
        return Err(ParseError::MalformedYear);
    }
    let year = match parse_u32(&parts[1]) {
        Some(n) => {
            if n < YEAR_MIN || n > YEAR_MAX {
                return Err(ParseError::YearOutOfRange);
            }
            n
        },
        None => {
            return Err(ParseError::MalformedYear);
        },
    };
    if parts.len() < 3 {
        return Err(ParseError::IncompleteIdentifier);
    }
    if parse_u32(&parts[2]).is_none() {
        return Err(ParseError::MalformedIdentifier);
    }
    if parts.len() > 3 {
        return Err(ParseError::MalformedIdentifier);
    }
    Ok(year)
}

/// An identifier for an individual advisory.
///
/// Two identifiers are equal exactly when their texts are; the kind and the
/// year are read from the text. Identifiers are ordered by kind, then year,
/// then text.
#[derive(Debug, Eq, Hash, PartialOrd, Ord)]
pub struct Id {
    /// An autodetected identifier kind
    kind: Kind,
    /// Year this vulnerability was published
    year: Option<u32>,
    /// The actual string representing the identifier
    string: String,
}

impl View for Id {
    type V = IdView;

    closed spec fn view(&self) -> IdView {
        IdView { kind: self.kind, year: self.year, raw: self.string@ }
    }
}

impl Id {
    /// The kind and the year are those that parsing the text gives.
    #[verifier::type_invariant]
    spec fn well_formed(&self) -> bool {
        parse_id(self.string@) == Ok::<IdView, ParseError>(
            IdView { kind: self.kind, year: self.year, raw: self.string@ },
        )
    }

    /// Create an `Id` from the given string.
    pub fn parse(advisory_id: &str) -> (r: Result<Id, ParseError>)
        ensures
            match r {
                Ok(id) => parse_id(advisory_id@) == Ok::<IdView, ParseError>(id@),
                Err(e) => parse_id(advisory_id@) == Err::<IdView, ParseError>(e),
            },
    {
        let s = chars_of(advisory_id);
        if equals(&s, PLACEHOLDER) {
            return Ok(Id::default());
        }
        let kind = Kind::detect(advisory_id);
        let year = match kind {
            Kind::RustSec | Kind::Cve | Kind::Talos => match parse_year(advisory_id) {
                Ok(y) => Some(y),
                Err(e) => {
                    return Err(e);
                },
            },
            _ => None,
        };
        Ok(Id { kind, year, string: advisory_id.to_owned() })
    }

    /// Get a string reference to this advisory ID; parsing it again gives
    /// this same identifier.
    pub fn as_str(&self) -> (r: &str)
        ensures
            r@ == self@.raw,
            parse_id(r@) == Ok::<IdView, ParseError>(self@),
    {
        proof {
            use_type_invariant(self);
        }
        self.string.as_str()
    }

    /// Get the advisory kind for this advisory.
    pub fn kind(&self) -> (r: Kind)
        ensures
            r == self@.kind,
    {
        self.kind
    }

    /// Is this advisory ID the `RUSTSEC-0000-0000` placeholder ID?
    pub fn is_placeholder(&self) -> (r: bool)
        ensures
            r == (self@.raw == PLACEHOLDER@),
    {
        self.string == PLACEHOLDER.to_owned()
    }

    /// Is this advisory ID a RUSTSEC advisory?
    pub fn is_rustsec(&self) -> (r: bool)
        ensures
            r == (self@.kind == Kind::RustSec),
    {
        self.kind == Kind::RustSec
    }

    /// Is this advisory ID a CVE?
    pub fn is_cve(&self) -> (r: bool)
        ensures
            r == (self@.kind == Kind::Cve),
    {
        self.kind == Kind::Cve
    }

    /// Is this advisory ID a GHSA?
    pub fn is_ghsa(&self) -> (r: bool)
        ensures
            r == (self@.kind == Kind::Ghsa),
    {
        self.kind == Kind::Ghsa
    }

    /// Is this an unknown kind of advisory ID?
    pub fn is_other(&self) -> (r: bool)
        ensures
            r == (self@.kind == Kind::Other),
    {
        self.kind == Kind::Other
    }

    /// Get the year this vulnerability was published (if known).
    pub fn year(&self) -> (r: Option<u32>)
        ensures
            r == self@.year,
    {
        self.year
    }

    /// Get the numerical part of this advisory (if available).
    ///
    /// This corresponds to the numbers on the right side of the ID.
    pub fn numerical_part(&self) -> (r: Option<u32>)
        ensures
            r == numerical_part_of(self@.raw),
    {
        if self.is_placeholder() {
            return None;
        }
        let s = chars_of(self.string.as_str());
        let parts = split_segments(&s);
        proof {
            lemma_segments_nonempty(s@);
            assert(texts(parts@)[parts@.len() - 1] == parts@[parts@.len() - 1]@);
        }
        parse_u32(&parts[parts.len() - 1])
    }

    /// Get a URL to a web page with more information on this advisory.
    pub fn url(&self) -> (r: Option<String>)
        ensures
            opt_text(r) == url_of(self@),
    {
        match self.kind {
            Kind::RustSec => {
                if self.is_placeholder() {
                    None
                } else {
                    Some(prefixed("https://rustsec.org/advisories/", self.string.as_str()))
                }
            },
            Kind::Cve => Some(prefixed("https://cve.mitre.org/cgi-bin/cvename.cgi?name=", self.string.as_str())),
            Kind::Ghsa => Some(prefixed("https://github.com/advisories/", self.string.as_str())),
            Kind::Talos => Some(prefixed("https://www.talosintelligence.com/reports/", self.string.as_str())),
            Kind::Other => None,
        }
    }
}

/// The text `head` followed by the text `tail`.
fn prefixed(head: &str, tail: &str) -> (r: String)
    ensures
        r@ == head@ + tail@,
{
    let mut r = head.to_owned();
    r.append(tail);
    r
}

impl Default for Id {
    /// The placeholder identifier.
    fn default() -> (r: Id)
        ensures
            r@ == (IdView { kind: Kind::RustSec, year: None, raw: PLACEHOLDER@ }),
    {
        Id { kind: Kind::RustSec, year: None, string: PLACEHOLDER.to_owned() }
    }
}

impl Clone for Id {
    fn clone(&self) -> (r: Id)
        ensures
            r@ == self@,
    {
        proof {
            use_type_invariant(self);
        }
        Id { kind: self.kind, year: self.year, string: self.string.clone() }
    }
}

impl PartialEq for Id {
    fn eq(&self, other: &Id) -> (r: bool) {
        self.string == other.string
    }
}

impl vstd::std_specs::cmp::PartialEqSpecImpl for Id {
    open spec fn obeys_eq_spec() -> bool {
        true
    }

    open spec fn eq_spec(&self, other: &Id) -> bool {
        self@.raw == other@.raw
    }
}

impl std::str::FromStr for Id {
    type Err = ParseError;

    fn from_str(advisory_id: &str) -> (r: Result<Id, ParseError>)
        ensures
            match r {
                Ok(id) => parse_id(advisory_id@) == Ok::<IdView, ParseError>(id@),
                Err(e) => parse_id(advisory_id@) == Err::<IdView, ParseError>(e),
            },
    {
        Id::parse(advisory_id)
    }
}

} // verus!
