use advisory_id::id::{parse_year, Id, Kind, ParseError, PLACEHOLDER, YEAR_MAX, YEAR_MIN};

#[test]
fn placeholder_properties() {
    let id = Id::parse(PLACEHOLDER).unwrap();
    assert_eq!(id.kind(), Kind::RustSec);
    assert!(id.is_placeholder());
    assert_eq!(id.year(), None);
    assert_eq!(id.url(), None);
    assert_eq!(id.numerical_part(), None);
    assert_eq!(id.as_str(), "RUSTSEC-0000-0000");
}

#[test]
fn default_is_placeholder() {
    let id = Id::default();
    assert!(id.is_placeholder());
    assert!(id.is_rustsec());
    assert_eq!(id.year(), None);
    assert_eq!(id, Id::parse(PLACEHOLDER).unwrap());
}

#[test]
fn short_year_is_refused() {
    assert_eq!(
        Id::parse("RUSTSEC-18-0001"),
        Err(ParseError::YearOutOfRange)
    );
}

#[test]
fn missing_number_is_incomplete() {
    assert_eq!(Id::parse("CVE-2017"), Err(ParseError::IncompleteIdentifier));
}

#[test]
fn non_numeric_number_is_malformed() {
    assert_eq!(
        Id::parse("CVE-2017-abc"),
        Err(ParseError::MalformedIdentifier)
    );
}

#[test]
fn extra_segment_is_malformed() {
    assert_eq!(
        Id::parse("CVE-2017-1-2"),
        Err(ParseError::MalformedIdentifier)
    );
}

#[test]
fn non_numeric_year_is_malformed_year() {
    assert_eq!(Id::parse("TALOS-abcd-0001"), Err(ParseError::MalformedYear));
    assert_eq!(Id::parse("RUSTSEC-"), Err(ParseError::MalformedYear));
    assert_eq!(Id::parse("CVE--1"), Err(ParseError::MalformedYear));
}

#[test]
fn empty_number_is_malformed() {
    assert_eq!(Id::parse("CVE-2017-"), Err(ParseError::MalformedIdentifier));
}

#[test]
fn number_beyond_u32_is_malformed() {
    assert_eq!(
        Id::parse("CVE-2017-4294967296"),
        Err(ParseError::MalformedIdentifier)
    );
    let id = Id::parse("CVE-2017-4294967295").unwrap();
    assert_eq!(id.numerical_part(), Some(4294967295));
}

#[test]
fn year_at_bounds_is_accepted() {
    assert_eq!(YEAR_MIN, 2000);
    assert_eq!(YEAR_MAX, 2100);
    assert_eq!(Id::parse("RUSTSEC-2000-0001").unwrap().year(), Some(2000));
    assert_eq!(Id::parse("CVE-2100-7").unwrap().year(), Some(2100));
    assert_eq!(Id::parse("TALOS-2000-0468").unwrap().year(), Some(2000));
}

#[test]
fn year_just_outside_bounds_is_refused() {
    assert_eq!(
        Id::parse("RUSTSEC-1999-0001"),
        Err(ParseError::YearOutOfRange)
    );
    assert_eq!(Id::parse("CVE-2101-7"), Err(ParseError::YearOutOfRange));
    assert_eq!(
        Id::parse("TALOS-0000-0000"),
        Err(ParseError::YearOutOfRange)
    );
}

#[test]
fn year_with_plus_sign_reads_as_number() {
    let id = Id::parse("CVE-+2017-12").unwrap();
    assert_eq!(id.year(), Some(2017));
    assert_eq!(id.numerical_part(), Some(12));
}

#[test]
fn range_is_checked_before_number() {
    assert_eq!(Id::parse("CVE-1999"), Err(ParseError::YearOutOfRange));
    assert_eq!(Id::parse("CVE-1999-x-y"), Err(ParseError::YearOutOfRange));
}

#[test]
fn round_trip_through_text() {
    for text in [
        "RUSTSEC-2018-0001",
        "CVE-2017-1000168",
        "GHSA-4mmc-49vf-jmcp",
        "TALOS-2017-0468",
        "Anonymous-42",
        "",
        PLACEHOLDER,
    ] {
        let id = Id::parse(text).unwrap();
        let again = Id::parse(id.as_str()).unwrap();
        assert_eq!(again, id);
        assert_eq!(again.as_str(), text);
        assert_eq!(again.kind(), id.kind());
        assert_eq!(again.year(), id.year());
    }
}

#[test]
fn detect_by_prefix() {
    assert_eq!(Kind::detect("RUSTSEC-anything"), Kind::RustSec);
    assert_eq!(Kind::detect("CVE-"), Kind::Cve);
    assert_eq!(Kind::detect("TALOS-x"), Kind::Talos);
    assert_eq!(Kind::detect("GHSA-x"), Kind::Ghsa);
    assert_eq!(Kind::detect(""), Kind::Other);
    assert_eq!(Kind::detect("rustsec-2018-0001"), Kind::Other);
    assert_eq!(Kind::detect(" CVE-2017-1"), Kind::Other);
    assert_eq!(Kind::detect("RUSTSEC"), Kind::Other);
}

#[test]
fn ghsa_accepts_any_rest() {
    let id = Id::parse("GHSA-").unwrap();
    assert!(id.is_ghsa());
    assert_eq!(id.year(), None);
    assert_eq!(id.url().unwrap(), "https://github.com/advisories/GHSA-");
    let numeric = Id::parse("GHSA-1234").unwrap();
    assert_eq!(numeric.numerical_part(), Some(1234));
}

#[test]
fn other_kinds_never_fail() {
    let empty = Id::parse("").unwrap();
    assert!(empty.is_other());
    assert_eq!(empty.numerical_part(), None);
    assert_eq!(empty.url(), None);
    let odd = Id::parse("OSV-2020-x").unwrap();
    assert!(odd.is_other());
    assert_eq!(odd.year(), None);
    assert_eq!(odd.numerical_part(), None);
    let big = Id::parse("x-4294967296").unwrap();
    assert_eq!(big.numerical_part(), None);
}

#[test]
fn equality_follows_text() {
    let a = Id::parse("CVE-2017-0001").unwrap();
    let b = Id::parse("CVE-2017-1").unwrap();
    assert_ne!(a, b);
    assert_eq!(a.numerical_part(), b.numerical_part());
    assert_eq!(a.clone(), a);
}

#[test]
fn ordering_by_kind_then_year() {
    let mut ids = vec![
        Id::parse("Anonymous-42").unwrap(),
        Id::parse("TALOS-2017-0468").unwrap(),
        Id::parse("CVE-2019-1").unwrap(),
        Id::parse("CVE-2017-9").unwrap(),
        Id::parse("RUSTSEC-2018-0001").unwrap(),
    ];
    ids.sort();
    let texts: Vec<&str> = ids.iter().map(|i| i.as_str()).collect();
    assert_eq!(
        texts,
        vec![
            "RUSTSEC-2018-0001",
            "CVE-2017-9",
            "CVE-2019-1",
            "TALOS-2017-0468",
            "Anonymous-42"
        ]
    );
}

#[test]
fn error_messages_name_the_identifier() {
    assert_eq!(
        ParseError::MalformedYear.message("CVE-x-1"),
        "malformed year in advisory ID: CVE-x-1"
    );
    assert_eq!(
        ParseError::YearOutOfRange.message("CVE-1-1"),
        "out-of-range year in advisory ID: CVE-1-1"
    );
    assert_eq!(
        ParseError::IncompleteIdentifier.message("CVE-2017"),
        "incomplete advisory ID: CVE-2017"
    );
    assert_eq!(
        ParseError::MalformedIdentifier.message("CVE-2017-a"),
        "malformed advisory ID: CVE-2017-a"
    );
}

#[test]
fn urls_embed_raw_text() {
    let id = Id::parse("CVE-02017-00042").unwrap();
    assert_eq!(id.year(), Some(2017));
    assert_eq!(
        id.url().unwrap(),
        "https://cve.mitre.org/cgi-bin/cvename.cgi?name=CVE-02017-00042"
    );
}

#[test]
fn parse_year_bounds() {
    assert_eq!(parse_year("RUSTSEC-2000-0001"), Ok(2000));
    assert_eq!(parse_year("CVE-2100-1"), Ok(2100));
    assert_eq!(parse_year("TALOS-1999-0001"), Err(ParseError::YearOutOfRange));
    assert_eq!(parse_year("CVE-2101-1"), Err(ParseError::YearOutOfRange));
}

#[test]
fn from_str_matches_parse() {
    assert_eq!(
        "RUSTSEC-18-0001".parse::<Id>(),
        Err(ParseError::YearOutOfRange)
    );
    assert_eq!(
        "CVE-2017".parse::<Id>(),
        Err(ParseError::IncompleteIdentifier)
    );
    assert_eq!(
        "CVE-2017-abc".parse::<Id>(),
        Err(ParseError::MalformedIdentifier)
    );
    assert_eq!(
        "CVE-2017-1-2".parse::<Id>(),
        Err(ParseError::MalformedIdentifier)
    );
    let talos = "TALOS-2017-0468".parse::<Id>().unwrap();
    assert_eq!(talos.kind(), Kind::Talos);
    assert_eq!(talos.year(), Some(2017));
    assert_eq!(talos.as_str(), "TALOS-2017-0468");
}
