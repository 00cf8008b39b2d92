use steam_rs::parse::{find_first, parse, read_entry, split_at};
use steam_rs::query::{encode_scalars, ArgValue, Argument};
use steam_rs::text::chars_of;

fn arg(name: &str, value: ArgValue) -> Argument {
    Argument { name: name.to_string(), value }
}

fn pair(name: &str, value: &str) -> (String, String) {
    (name.to_string(), value.to_string())
}

#[test]
fn round_trip_recovers_the_scalar_arguments() {
    let args = vec![
        arg("key", ArgValue::Text("K".to_string())),
        arg("steamid", ArgValue::Number(76561197960435530)),
        arg("include_appinfo", ArgValue::Flag(true)),
        arg("language", ArgValue::Absent),
        arg("include_played_free_games", ArgValue::Flag(false)),
    ];
    assert_eq!(
        parse(&encode_scalars(&args)),
        Some(vec![
            pair("key", "K"),
            pair("steamid", "76561197960435530"),
            pair("include_appinfo", "true"),
            pair("include_played_free_games", "false"),
        ])
    );
}

#[test]
fn round_trip_recovers_values_with_reserved_characters() {
    let args = vec![
        arg("a", ArgValue::Text("x&y=z".to_string())),
        arg("b", ArgValue::Text("".to_string())),
        arg("c", ArgValue::Text("日本 %20".to_string())),
    ];
    assert_eq!(
        parse(&encode_scalars(&args)),
        Some(vec![pair("a", "x&y=z"), pair("b", ""), pair("c", "日本 %20")])
    );
}

#[test]
fn round_trip_of_no_arguments() {
    assert_eq!(parse(&encode_scalars(&vec![])), Some(vec![]));
}

#[test]
fn round_trip_keeps_an_empty_name() {
    let args = vec![arg("", ArgValue::Number(1))];
    assert_eq!(encode_scalars(&args), "=1");
    assert_eq!(parse("=1"), Some(vec![pair("", "1")]));
}

#[test]
fn a_name_with_a_separator_does_not_come_back() {
    let args = vec![arg("a&b", ArgValue::Number(1))];
    assert_eq!(parse(&encode_scalars(&args)), None);
    let args = vec![arg("a=b", ArgValue::Number(1))];
    assert_eq!(parse(&encode_scalars(&args)), Some(vec![pair("a", "b=1")]));
}

#[test]
fn empty_query_has_no_pairs() {
    assert_eq!(parse(""), Some(vec![]));
}

#[test]
fn value_is_what_follows_the_first_equals_sign() {
    assert_eq!(parse("a=b=c"), Some(vec![pair("a", "b=c")]));
}

#[test]
fn entry_without_equals_sign_is_rejected() {
    assert_eq!(parse("a"), None);
    assert_eq!(parse("a=1&b"), None);
    assert_eq!(parse("a=1&{\"appids_filter\":[10,20]}"), None);
}

#[test]
fn empty_entry_is_rejected() {
    assert_eq!(parse("&"), None);
    assert_eq!(parse("a=1&"), None);
    assert_eq!(parse("&a=1"), None);
    assert_eq!(parse("a=1&&b=2"), None);
}

#[test]
fn entry_with_a_bad_escape_is_rejected() {
    assert_eq!(parse("a=%"), None);
    assert_eq!(parse("a=1&b=%zz"), None);
    assert_eq!(parse("a=%FF"), None);
}

#[test]
fn names_are_not_decoded() {
    assert_eq!(parse("a%20b=c%20d"), Some(vec![pair("a%20b", "c d")]));
}

#[test]
fn split_at_gives_the_bounds_of_the_pieces() {
    let chars = chars_of("ab&c&&d");
    assert_eq!(split_at(&chars, '&'), vec![(0, 2), (3, 4), (5, 5), (6, 7)]);
    assert_eq!(split_at(&chars_of(""), '&'), vec![(0, 0)]);
    assert_eq!(split_at(&chars_of("&"), '&'), vec![(0, 0), (1, 1)]);
    assert_eq!(split_at(&chars_of("abc"), '&'), vec![(0, 3)]);
}

#[test]
fn find_first_counts_from_the_start_of_the_range() {
    let chars = chars_of("a=b=c");
    assert_eq!(find_first(&chars, 0, 5, '='), Some(1));
    assert_eq!(find_first(&chars, 2, 5, '='), Some(1));
    assert_eq!(find_first(&chars, 4, 5, '='), None);
    assert_eq!(find_first(&chars, 0, 1, '='), None);
    assert_eq!(find_first(&chars, 3, 3, '='), None);
}

#[test]
fn read_entry_reads_one_pair() {
    let chars = chars_of("xx&name=v%41l&yy");
    assert_eq!(read_entry(&chars, 3, 13), Some(pair("name", "vAl")));
    assert_eq!(read_entry(&chars, 0, 2), None);
    assert_eq!(read_entry(&chars, 7, 8), Some(pair("", "")));
}
