//! What holds of every identifier text, stated over the models that the
//! functions of `id` are specified with.

use vstd::prelude::*;

use crate::id::{
    check_year, detect_kind, numerical_part_of, parse_id, url_of, IdView, Kind, ParseError, PLACEHOLDER,
    YEAR_MAX, YEAR_MIN,
};
use crate::text::{
    all_digits, decimal_value, has_prefix, lemma_segments_join, lemma_segments_nonempty,
    lemma_segments_of_plain, segments, u32_of,
};

verus! {

/// The text `<prefix><year>-<number>`.
pub open spec fn compose(prefix: Seq<char>, year: Seq<char>, number: Seq<char>) -> Seq<char> {
    prefix + year + "-"@ + number
}

/// One of the prefixes of the schemes whose identifiers carry a year.
pub open spec fn is_year_prefix(p: Seq<char>) -> bool {
    p == "RUSTSEC-"@ || p == "CVE-"@ || p == "TALOS-"@
}

/// A decimal numeral of one or more digits whose value fits in a `u32`.
pub open spec fn is_numeral(s: Seq<char>) -> bool {
    s.len() > 0 && all_digits(s) && decimal_value(s) <= u32::MAX
}

proof fn lemma_numeral_value(s: Seq<char>)
    requires
        is_numeral(s),
    ensures
        u32_of(s) == Some(decimal_value(s) as u32),
        forall|i: int| 0 <= i < s.len() ==> s[i] != '-',
{
    assert(s[0] != '+');
}

proof fn lemma_zeros_value(s: Seq<char>)
    requires
        forall|i: int| 0 <= i < s.len() ==> s[i] == '0',
    ensures
        decimal_value(s) == 0,
    decreases s.len(),
{
    if s.len() > 0 {
        lemma_zeros_value(s.drop_last());
    }
}

proof fn lemma_first_of_prefix(s: Seq<char>, p: Seq<char>)
    requires
        p.len() > 0,
    ensures
        has_prefix(s, p) ==> s[0] == p[0],
{
    if has_prefix(s, p) {
        assert(s.subrange(0, p.len() as int)[0] == s[0]);
    }
}

/// The three segments of a composed identifier, its kind, and that it is no
/// placeholder when its year is not zero.
proof fn lemma_compose(prefix: Seq<char>, year: Seq<char>, number: Seq<char>)
    requires
        is_year_prefix(prefix),
        is_numeral(year),
        is_numeral(number),
    ensures
        segments(compose(prefix, year, number)) == seq![prefix.drop_last(), year, number],
        detect_kind(compose(prefix, year, number)) == (if prefix == "RUSTSEC-"@ {
            Kind::RustSec
        } else if prefix == "CVE-"@ {
            Kind::Cve
        } else {
            Kind::Talos
        }),
        decimal_value(year) > 0 ==> compose(prefix, year, number) != PLACEHOLDER@,
{
    reveal_strlit("RUSTSEC-");
    reveal_strlit("CVE-");
    reveal_strlit("TALOS-");
    reveal_strlit("GHSA-");
    reveal_strlit("-");
    reveal_strlit("RUSTSEC-0000-0000");
    let s = compose(prefix, year, number);
    let w = prefix.drop_last();
    lemma_numeral_value(year);
    lemma_numeral_value(number);
    lemma_segments_of_plain(w);
    lemma_segments_of_plain(year);
    lemma_segments_of_plain(number);
    assert(s =~= w + seq!['-'] + (year + seq!['-'] + number));
    lemma_segments_join(w, year + seq!['-'] + number);
    lemma_segments_join(year, number);
    assert(seq![w] + (seq![year] + seq![number]) =~= seq![w, year, number]);
    assert(s.subrange(0, prefix.len() as int) =~= prefix);
    assert(s[0] == prefix[0]);
    lemma_first_of_prefix(s, "RUSTSEC-"@);
    lemma_first_of_prefix(s, "CVE-"@);
    lemma_first_of_prefix(s, "TALOS-"@);
    lemma_first_of_prefix(s, "GHSA-"@);
    if decimal_value(year) > 0 && s == PLACEHOLDER@ {
        assert(prefix == "RUSTSEC-"@);
        if year.len() > 4 {
            assert(year[4] == s[12]);
        }
        assert forall|i: int| 0 <= i < year.len() implies year[i] == '0' by {
            assert(year[i] == s[8 + i]);
        }
        lemma_zeros_value(year);
    }
}

/// A composed identifier with a year in range parses to that year, and its
/// numerical part is the value of its number.
proof fn lemma_year_in_range(prefix: Seq<char>, year: Seq<char>, number: Seq<char>)
    requires
        is_year_prefix(prefix),
        is_numeral(year),
        is_numeral(number),
        YEAR_MIN <= decimal_value(year) <= YEAR_MAX,
    ensures
        parse_id(compose(prefix, year, number)) == Ok::<IdView, ParseError>(
            IdView {
                kind: detect_kind(compose(prefix, year, number)),
                year: Some(decimal_value(year) as u32),
                raw: compose(prefix, year, number),
            },
        ),
        numerical_part_of(compose(prefix, year, number)) == Some(decimal_value(number) as u32),
{
    lemma_compose(prefix, year, number);
    lemma_numeral_value(year);
    lemma_numeral_value(number);
}

/// The placeholder parses, as a RustSec identifier without a year, number
/// or URL.
pub proof fn placeholder_parses()
    ensures
        parse_id(PLACEHOLDER@) == Ok::<IdView, ParseError>(
            IdView { kind: Kind::RustSec, year: None, raw: PLACEHOLDER@ },
        ),
        numerical_part_of(PLACEHOLDER@) is None,
        url_of(IdView { kind: Kind::RustSec, year: None, raw: PLACEHOLDER@ }) is None,
{
}

/// `RUSTSEC-<year>-<number>` with a year in range parses, with that year,
/// the value of the number as its numerical part, and its page under
/// rustsec.org.
pub proof fn rustsec_identifier_parses(year: Seq<char>, number: Seq<char>)
    requires
        is_numeral(year),
        is_numeral(number),
        YEAR_MIN <= decimal_value(year) <= YEAR_MAX,
    ensures
        ({
            let s = compose("RUSTSEC-"@, year, number);
            let v = IdView { kind: Kind::RustSec, year: Some(decimal_value(year) as u32), raw: s };
            &&& parse_id(s) == Ok::<IdView, ParseError>(v)
            &&& numerical_part_of(s) == Some(decimal_value(number) as u32)
            &&& url_of(v) == Some("https://rustsec.org/advisories/"@ + s)
        }),
{
    lemma_year_in_range("RUSTSEC-"@, year, number);
    lemma_compose("RUSTSEC-"@, year, number);
}

/// `CVE-<year>-<number>` with a year in range parses, with that year, and
/// its MITRE page holds the identifier verbatim.
pub proof fn cve_identifier_parses(year: Seq<char>, number: Seq<char>)
    requires
        is_numeral(year),
        is_numeral(number),
        YEAR_MIN <= decimal_value(year) <= YEAR_MAX,
    ensures
        ({
            let s = compose("CVE-"@, year, number);
            let v = IdView { kind: Kind::Cve, year: Some(decimal_value(year) as u32), raw: s };
            &&& parse_id(s) == Ok::<IdView, ParseError>(v)
            &&& numerical_part_of(s) == Some(decimal_value(number) as u32)
            &&& url_of(v) == Some("https://cve.mitre.org/cgi-bin/cvename.cgi?name="@ + s)
        }),
{
    reveal_strlit("RUSTSEC-");
    reveal_strlit("CVE-");
    lemma_year_in_range("CVE-"@, year, number);
    lemma_compose("CVE-"@, year, number);
}

/// `TALOS-<year>-<number>` with a year in range parses, with that year, the
/// value of the number as its numerical part, and its Talos report page.
pub proof fn talos_identifier_parses(year: Seq<char>, number: Seq<char>)
    requires
        is_numeral(year),
        is_numeral(number),
        YEAR_MIN <= decimal_value(year) <= YEAR_MAX,
    ensures
        ({
            let s = compose("TALOS-"@, year, number);
            let v = IdView { kind: Kind::Talos, year: Some(decimal_value(year) as u32), raw: s };
            &&& parse_id(s) == Ok::<IdView, ParseError>(v)
            &&& numerical_part_of(s) == Some(decimal_value(number) as u32)
            &&& url_of(v) == Some("https://www.talosintelligence.com/reports/"@ + s)
        }),
{
    reveal_strlit("RUSTSEC-");
    reveal_strlit("CVE-");
    reveal_strlit("TALOS-");
    lemma_year_in_range("TALOS-"@, year, number);
    lemma_compose("TALOS-"@, year, number);
}

/// `GHSA-<rest>` parses, without a year, and its page is under
/// github.com/advisories; when its last segment is not a number it has no
/// numerical part.
pub proof fn ghsa_identifier_parses(rest: Seq<char>)
    requires
        u32_of(segments(rest).last()) is None,
    ensures
        ({
            let s = "GHSA-"@ + rest;
            let v = IdView { kind: Kind::Ghsa, year: None, raw: s };
            &&& parse_id(s) == Ok::<IdView, ParseError>(v)
            &&& numerical_part_of(s) is None
            &&& url_of(v) == Some("https://github.com/advisories/"@ + s)
        }),
{
    reveal_strlit("RUSTSEC-");
    reveal_strlit("CVE-");
    reveal_strlit("TALOS-");
    reveal_strlit("GHSA-");
    reveal_strlit("RUSTSEC-0000-0000");
    let p = "GHSA-"@;
    let s = p + rest;
    assert(s.subrange(0, p.len() as int) =~= p);
    assert(s[0] == p[0]);
    lemma_first_of_prefix(s, "RUSTSEC-"@);
    lemma_first_of_prefix(s, "CVE-"@);
    lemma_first_of_prefix(s, "TALOS-"@);
    let w = p.drop_last();
    assert(s =~= w + seq!['-'] + rest);
    lemma_segments_join(w, rest);
    lemma_segments_nonempty(rest);
    assert((segments(w) + segments(rest)).last() == segments(rest).last());
}

/// Text that begins with none of the known prefixes parses as an identifier
/// of kind `Other`, without a year or URL; its numerical part is its last
/// segment read as a number.
pub proof fn other_identifier_parses(s: Seq<char>)
    requires
        !has_prefix(s, "RUSTSEC-"@),
        !has_prefix(s, "CVE-"@),
        !has_prefix(s, "TALOS-"@),
        !has_prefix(s, "GHSA-"@),
    ensures
        parse_id(s) == Ok::<IdView, ParseError>(IdView { kind: Kind::Other, year: None, raw: s }),
        url_of(IdView { kind: Kind::Other, year: None, raw: s }) is None,
        numerical_part_of(s) == u32_of(segments(s).last()),
{
    reveal_strlit("RUSTSEC-");
    reveal_strlit("RUSTSEC-0000-0000");
    assert(PLACEHOLDER@.subrange(0, 8) =~= "RUSTSEC-"@);
}

/// Parsing the text of a parsed identifier again gives the same identifier.
pub proof fn parse_round_trip(s: Seq<char>)
    requires
        parse_id(s) is Ok,
    ensures
        parse_id(s)->Ok_0.raw == s,
        parse_id(parse_id(s)->Ok_0.raw) == parse_id(s),
{
}

/// A year at either end of `YEAR_MIN..=YEAR_MAX` is accepted; one just
/// outside it is refused as out of range. This holds of the year check
/// (`check_year`, which `parse_year` computes) and of parsing as a whole.
pub proof fn year_bounds(prefix: Seq<char>, year: Seq<char>, number: Seq<char>)
    requires
        is_year_prefix(prefix),
        is_numeral(year),
        is_numeral(number),
    ensures
        decimal_value(year) == YEAR_MIN || decimal_value(year) == YEAR_MAX ==> parse_id(
            compose(prefix, year, number),
        ) is Ok,
        decimal_value(year) == YEAR_MIN - 1 || decimal_value(year) == YEAR_MAX + 1 ==> parse_id(
            compose(prefix, year, number),
        ) == Err::<IdView, ParseError>(ParseError::YearOutOfRange),
        decimal_value(year) == YEAR_MIN || decimal_value(year) == YEAR_MAX ==> check_year(
            compose(prefix, year, number),
        ) == Ok::<u32, ParseError>(decimal_value(year) as u32),
        decimal_value(year) == YEAR_MIN - 1 || decimal_value(year) == YEAR_MAX + 1 ==> check_year(
            compose(prefix, year, number),
        ) == Err::<u32, ParseError>(ParseError::YearOutOfRange),
{
    lemma_compose(prefix, year, number);
    lemma_numeral_value(year);
    lemma_numeral_value(number);
}

} // verus!
