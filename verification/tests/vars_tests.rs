//! Variables: collection values and dynamic ones.

use cielago::http::calendar::{civil_from_days, iso_timestamp};
use cielago::http::vars::{
    alphanumeric, clock_text, hex_text, int_in_range, le_number, normalize, parse_dynamic, parse_len, random_bytes,
    split_call, unix_millis, usable_bytes, Dynamic,
};
use cielago::http::{dynamic_vars, substitute};
use cielago::model::VarMap;

fn vars() -> VarMap {
    let mut m = VarMap::new();
    m.insert("tenant", "acme");
    m.insert("version", "v2");
    m
}

#[test]
fn substitutes_named_vars() {
    assert_eq!(
        substitute("/{{tenant}}/{{ version }}/x", &vars()),
        "/acme/v2/x"
    );
}

#[test]
fn uuid_is_fresh_per_occurrence() {
    let out = substitute("{{uuid}}-{{uuid}}", &vars());
    assert_eq!(out.len(), 36 + 1 + 36);
    let (first, rest) = out.split_at(36);
    let second = &rest[1..];
    assert_eq!(&rest[..1], "-");
    assert!(uuid::Uuid::parse_str(first).is_ok());
    assert!(uuid::Uuid::parse_str(second).is_ok());
    assert_ne!(first, second);
}

#[test]
fn unknown_vars_left_intact() {
    assert_eq!(substitute("{{nope}}", &vars()), "{{nope}}");
    assert_eq!(substitute("{{$nope}}", &vars()), "{{$nope}}");
}

#[test]
fn unclosed_brace_left_intact() {
    assert_eq!(substitute("a {{oops", &vars()), "a {{oops");
}

#[test]
fn collection_var_shadows_dynamic_unless_dollar_prefixed() {
    let mut vars = VarMap::new();
    vars.insert("uuid", "pinned");
    assert_eq!(substitute("{{uuid}}", &vars), "pinned");
    assert_eq!(substitute("{{$uuid}}", &vars).len(), 36);
}

#[test]
fn timestamps_are_plausible() {
    let secs: i64 = substitute("{{timestamp}}", &vars()).parse().unwrap();
    // Somewhere after 2020 and before 2100.
    assert!((1_577_836_800..4_102_444_800).contains(&secs));
    let ms: i64 = substitute("{{timestampMs}}", &vars()).parse().unwrap();
    assert_eq!(ms / 1000, secs);

    let iso = substitute("{{isoTimestamp}}", &vars());
    assert_eq!(iso.len(), 20, "{iso}");
    assert!(iso.ends_with('Z'));
    assert_eq!(&iso[4..5], "-");
    assert_eq!(&iso[10..11], "T");
}

#[test]
fn iso_timestamp_matches_known_instants() {
    assert_eq!(iso_timestamp(0), "1970-01-01T00:00:00Z");
    assert_eq!(iso_timestamp(1_000_000_000), "2001-09-09T01:46:40Z");
    // Leap day.
    assert_eq!(iso_timestamp(1_709_164_800), "2024-02-29T00:00:00Z");
    assert_eq!(iso_timestamp(1_754_484_896), "2025-08-06T12:54:56Z");
}

#[test]
fn name_matching_ignores_case_and_underscores() {
    for name in ["isoTimestamp", "iso_timestamp", "ISO_TIMESTAMP"] {
        assert!(
            substitute(&format!("{{{{{name}}}}}"), &vars()).ends_with('Z'),
            "{name}"
        );
    }
}

#[test]
fn random_int_respects_bounds() {
    for _ in 0..200 {
        let n: i64 = substitute("{{randomInt(5, 7)}}", &vars()).parse().unwrap();
        assert!((5..=7).contains(&n), "{n}");
    }
    assert_eq!(substitute("{{randomInt(-1,-1)}}", &vars()), "-1");
    let d: i64 = substitute("{{randomInt}}", &vars()).parse().unwrap();
    assert!((0..=1000).contains(&d));
}

#[test]
fn random_strings_have_requested_length() {
    assert_eq!(substitute("{{randomHex}}", &vars()).len(), 16);
    assert_eq!(substitute("{{randomHex(7)}}", &vars()).len(), 7);
    assert_eq!(substitute("{{randomString}}", &vars()).len(), 16);
    assert_eq!(substitute("{{randomString(40)}}", &vars()).len(), 40);
    assert!(substitute("{{randomHex(9)}}", &vars())
        .chars()
        .all(|c| c.is_ascii_hexdigit()));
    assert!(substitute("{{randomString(64)}}", &vars())
        .chars()
        .all(|c| c.is_ascii_alphanumeric()));
}

#[test]
fn random_bool_is_a_bool_and_varies() {
    let mut seen = std::collections::HashSet::new();
    for _ in 0..100 {
        let v = substitute("{{randomBool}}", &vars());
        assert!(v == "true" || v == "false", "{v}");
        seen.insert(v);
    }
    assert_eq!(seen.len(), 2, "randomBool never flipped");
}

#[test]
fn bad_arguments_leave_the_placeholder() {
    for bad in [
        "{{randomInt(9,1)}}",
        "{{randomInt(a,b)}}",
        "{{randomInt(1)}}",
        "{{randomHex(0)}}",
        "{{randomHex(99999)}}",
        "{{randomString()}}",
        "{{uuid(2)}}",
    ] {
        assert_eq!(substitute(bad, &vars()), bad);
    }
}

#[test]
fn every_documented_dynamic_var_resolves() {
    for (name, _) in dynamic_vars() {
        let out = substitute(&format!("{{{{${name}}}}}"), &vars());
        assert!(!out.contains("{{"), "{name} did not resolve: {out}");
    }
}

#[test]
fn substituted_text_is_not_read_again() {
    let mut vars = VarMap::new();
    vars.insert("a", "{{b}}");
    vars.insert("b", "x");
    assert_eq!(substitute("{{a}}{{b}}", &vars), "{{b}}x");
}

#[test]
fn dates_before_the_epoch() {
    assert_eq!(civil_from_days(0), (1970, 1, 1));
    assert_eq!(civil_from_days(-1), (1969, 12, 31));
    assert_eq!(civil_from_days(11016), (2000, 2, 29));
    // The whole range of day numbers.
    assert_eq!(civil_from_days(i64::MAX - 719_468), (25252734927766554, 9, 25));
    assert_eq!(civil_from_days(i64::MIN), (-25252734927764585, 6, 7));
    assert_eq!(iso_timestamp(-1), "1969-12-31T23:59:59Z");
}

#[test]
fn calls_are_read_with_their_arguments() {
    assert_eq!(
        split_call("randomInt(1, 2)"),
        Some((
            "randomInt".to_string(),
            vec!["1".to_string(), "2".to_string()]
        ))
    );
    assert_eq!(split_call("uuid"), Some(("uuid".to_string(), vec![])));
    assert_eq!(split_call("uuid()"), None);
    assert_eq!(normalize("Iso_Time-Stamp"), normalize("isotime-stamp"));
    assert_eq!(parse_len("4096"), Some(4096));
    assert_eq!(parse_len("4097"), None);
    assert_eq!(parse_len("0"), None);
    assert!(matches!(
        parse_dynamic("random_int(-3,4)"),
        Some(Dynamic::RandomInt { min: -3, max: 4 })
    ));
    assert!(parse_dynamic("no such thing").is_none());
}

#[test]
fn random_values_come_from_bytes_exactly() {
    assert_eq!(le_number(&vec![1, 2, 0, 0, 0, 0, 0, 0]), 513);
    assert_eq!(int_in_range(10, 12, 5), 12);
    assert_eq!(int_in_range(i64::MIN, i64::MAX, 7), i64::MIN + 7);
    assert_eq!(hex_text(&vec![0xab, 0x01], 3), "ab0");
    assert_eq!(alphanumeric(&vec![0, 25, 26, 51, 52, 61, 62]), "azAZ09a");
    assert_eq!(random_bytes(37).len(), 37);
    // The version and variant bytes are left out.
    assert_eq!(usable_bytes(0).len(), 14);
}

#[test]
fn clock_variables_read_one_clock() {
    let ms = unix_millis(Some((1_754_484_896, 789)));
    assert_eq!(ms, 1_754_484_896_789);
    assert_eq!(clock_text(Dynamic::Timestamp, ms), "1754484896");
    assert_eq!(clock_text(Dynamic::TimestampMs, ms), "1754484896789");
    assert_eq!(clock_text(Dynamic::IsoTimestamp, ms), "2025-08-06T12:54:56Z");
    // A clock set before 1970 counts as 1970.
    assert_eq!(unix_millis(None), 0);
    assert_eq!(clock_text(Dynamic::Timestamp, 999), "0");
    assert_eq!(clock_text(Dynamic::IsoTimestamp, 999), "1970-01-01T00:00:00Z");
    for name in ["isoTimestamp", "iso_timestamp", "ISO_TIMESTAMP"] {
        assert_eq!(parse_dynamic(name), Some(Dynamic::IsoTimestamp), "{name}");
    }
}

#[test]
fn values_are_put_in_verbatim() {
    let mut m = VarMap::new();
    m.insert("a", "{{b}}");
    m.insert("b", "x");
    // The value of `a` is not looked into again.
    assert_eq!(substitute("p/{{ a }}/{{b}}", &m), "p/{{b}}/x");
}
