use steam_rs::error::EncodeFailure;
use steam_rs::json::fragment;
use steam_rs::percent::{percent_decode_str, percent_encoded};
use steam_rs::query::{encode, encode_scalars, push_arg, with_fragment, ArgValue, Argument, Filter};

fn arg(name: &str, value: ArgValue) -> Argument {
    Argument { name: name.to_string(), value }
}

fn text(value: &str) -> ArgValue {
    ArgValue::Text(value.to_string())
}

fn no_filter() -> Filter {
    Filter { name: "appids_filter".to_string(), ids: vec![] }
}

#[test]
fn scalars_are_joined_in_order() {
    let args = vec![
        arg("key", text("K")),
        arg("steamid", ArgValue::Number(76561197960435530)),
        arg("include_appinfo", ArgValue::Flag(true)),
    ];
    assert_eq!(encode_scalars(&args), "key=K&steamid=76561197960435530&include_appinfo=true");
}

#[test]
fn required_arguments_appear_once_each_in_declared_order() {
    let args = vec![
        arg("b", ArgValue::Number(2)),
        arg("a", ArgValue::Number(1)),
        arg("c", ArgValue::Flag(false)),
        arg("a2", text("x")),
    ];
    let query = encode_scalars(&args);
    assert_eq!(query, "b=2&a=1&c=false&a2=x");
    assert_eq!(query.matches('&').count(), 3);
    assert_eq!(query.matches("a=1").count(), 1);
}

#[test]
fn no_arguments_give_the_empty_query() {
    assert_eq!(encode_scalars(&vec![]), "");
    assert_eq!(encode(&vec![], &no_filter()), Ok(String::new()));
}

#[test]
fn absent_arguments_leave_no_trace() {
    let args = vec![
        arg("first", ArgValue::Absent),
        arg("a", ArgValue::Number(1)),
        arg("middle", ArgValue::Absent),
        arg("b", ArgValue::Number(2)),
        arg("last", ArgValue::Absent),
    ];
    assert_eq!(encode_scalars(&args), "a=1&b=2");
}

#[test]
fn only_absent_arguments_give_the_empty_query() {
    let args = vec![arg("a", ArgValue::Absent), arg("b", ArgValue::Absent)];
    assert_eq!(encode_scalars(&args), "");
}

#[test]
fn numbers_are_written_in_decimal() {
    let args = vec![
        arg("zero", ArgValue::Number(0)),
        arg("ten", ArgValue::Number(10)),
        arg("max", ArgValue::Number(u64::MAX)),
    ];
    assert_eq!(encode_scalars(&args), "zero=0&ten=10&max=18446744073709551615");
}

#[test]
fn flags_are_written_as_words() {
    let args = vec![arg("yes", ArgValue::Flag(true)), arg("no", ArgValue::Flag(false))];
    assert_eq!(encode_scalars(&args), "yes=true&no=false");
}

#[test]
fn reserved_characters_of_a_text_are_percent_encoded() {
    let args = vec![arg("q", text("a b&c=d/e?f#g%h+i"))];
    assert_eq!(encode_scalars(&args), "q=a%20b%26c%3Dd%2Fe%3Ff%23g%25h%2Bi");
}

#[test]
fn unreserved_characters_pass_unchanged() {
    let plain = "ABCXYZabcxyz0123456789-._~";
    assert_eq!(percent_encoded(plain), plain);
}

#[test]
fn text_outside_ascii_is_encoded_by_its_utf8_bytes() {
    assert_eq!(percent_encoded("é"), "%C3%A9");
    assert_eq!(percent_encoded("日本"), "%E6%97%A5%E6%9C%AC");
    assert_eq!(percent_encoded("😀"), "%F0%9F%98%80");
}

#[test]
fn hex_digits_are_upper_case_and_two() {
    assert_eq!(percent_encoded("\n"), "%0A");
    assert_eq!(percent_encoded("\u{7f}"), "%7F");
    assert_eq!(percent_encoded("\0"), "%00");
}

#[test]
fn empty_text_is_encoded_as_nothing() {
    assert_eq!(percent_encoded(""), "");
    assert_eq!(encode_scalars(&vec![arg("a", text(""))]), "a=");
}

#[test]
fn names_are_written_as_they_stand() {
    assert_eq!(encode_scalars(&vec![arg("na me", text("v"))]), "na me=v");
}

#[test]
fn empty_filter_adds_nothing() {
    let args = vec![arg("key", text("K")), arg("n", ArgValue::Number(7))];
    assert_eq!(encode(&args, &no_filter()), Ok("key=K&n=7".to_string()));
    assert_eq!(encode(&args, &no_filter()), Ok(encode_scalars(&args)));
}

#[test]
fn filter_is_appended_as_json() {
    let args = vec![arg("key", text("K"))];
    let filter = Filter { name: "appids_filter".to_string(), ids: vec![10, 20] };
    assert_eq!(encode(&args, &filter), Ok("key=K&{\"appids_filter\":[10,20]}".to_string()));
}

#[test]
fn filter_of_one_id_has_no_comma() {
    let filter = Filter { name: "appids_filter".to_string(), ids: vec![440] };
    assert_eq!(
        encode(&vec![arg("a", ArgValue::Number(1))], &filter),
        Ok("a=1&{\"appids_filter\":[440]}".to_string())
    );
}

#[test]
fn filter_keeps_order_and_duplicates() {
    let filter = Filter { name: "f".to_string(), ids: vec![3, 1, 3, 0, u32::MAX] };
    assert_eq!(
        encode(&vec![], &filter),
        Ok("&{\"f\":[3,1,3,0,4294967295]}".to_string())
    );
}

#[test]
fn filter_fragment_is_not_percent_encoded() {
    let query = encode(&vec![arg("k", text("{}"))], &Filter { name: "x".to_string(), ids: vec![1] })
        .unwrap();
    assert_eq!(query, "k=%7B%7D&{\"x\":[1]}");
}

#[test]
fn filter_comes_after_all_scalars() {
    let args = vec![
        arg("a", ArgValue::Number(1)),
        arg("gone", ArgValue::Absent),
        arg("b", ArgValue::Flag(true)),
    ];
    let filter = Filter { name: "appids_filter".to_string(), ids: vec![10, 20] };
    let query = encode(&args, &filter).unwrap();
    assert!(query.ends_with("&{\"appids_filter\":[10,20]}"));
    assert!(query.starts_with("a=1&b=true&"));
}

#[test]
fn fragment_of_a_plain_name() {
    assert_eq!(fragment("appids_filter", &vec![10, 20]), Some("{\"appids_filter\":[10,20]}".to_string()));
    assert_eq!(fragment("ids", &vec![]), Some("{\"ids\":[]}".to_string()));
}

#[test]
fn fragment_of_a_name_that_json_escapes() {
    assert_eq!(fragment("a\"b", &vec![1]), Some("{\"a\\\"b\":[1]}".to_string()));
    assert_eq!(fragment("a\\b", &vec![1]), Some("{\"a\\\\b\":[1]}".to_string()));
    assert_eq!(fragment("a\nb", &vec![1]), Some("{\"a\\nb\":[1]}".to_string()));
}

#[test]
fn fragment_of_a_name_outside_ascii_is_written_as_it_stands() {
    assert_eq!(fragment("é/\u{7f}", &vec![5]), Some("{\"é/\u{7f}\":[5]}".to_string()));
}

#[test]
fn missing_fragment_fails_the_encoding() {
    assert_eq!(with_fragment("a=1".to_string(), None), Err(EncodeFailure::Serialization));
}

#[test]
fn given_fragment_is_appended_after_an_ampersand() {
    assert_eq!(
        with_fragment("a=1".to_string(), Some("{\"f\":[2]}".to_string())),
        Ok("a=1&{\"f\":[2]}".to_string())
    );
    assert_eq!(with_fragment(String::new(), Some("x".to_string())), Ok("&x".to_string()));
}

#[test]
fn push_arg_appends_an_argument() {
    let mut args = vec![arg("a", ArgValue::Number(1))];
    push_arg(&mut args, "b", ArgValue::Flag(true));
    assert_eq!(args, vec![arg("a", ArgValue::Number(1)), arg("b", ArgValue::Flag(true))]);
}

#[test]
fn percent_decoding_reads_both_cases_of_hex() {
    assert_eq!(percent_decode_str("%c3%A9"), Some("é".to_string()));
    assert_eq!(percent_decode_str("a%20b"), Some("a b".to_string()));
    assert_eq!(percent_decode_str(""), Some(String::new()));
}

#[test]
fn percent_decoding_keeps_other_ascii() {
    assert_eq!(percent_decode_str("a+b c&d"), Some("a+b c&d".to_string()));
}

#[test]
fn percent_decoding_rejects_a_cut_escape() {
    assert_eq!(percent_decode_str("%"), None);
    assert_eq!(percent_decode_str("abc%4"), None);
    assert_eq!(percent_decode_str("%4"), None);
}

#[test]
fn percent_decoding_rejects_what_is_no_hex() {
    assert_eq!(percent_decode_str("%4G"), None);
    assert_eq!(percent_decode_str("%G4"), None);
    assert_eq!(percent_decode_str("%%41"), None);
    assert_eq!(percent_decode_str("%/0"), None);
    assert_eq!(percent_decode_str("%:0"), None);
    assert_eq!(percent_decode_str("%@0"), None);
    assert_eq!(percent_decode_str("%`0"), None);
    assert_eq!(percent_decode_str("%g0"), None);
}

#[test]
fn percent_decoding_rejects_text_outside_ascii() {
    assert_eq!(percent_decode_str("é"), None);
}

#[test]
fn percent_decoding_rejects_bytes_that_are_no_utf8() {
    assert_eq!(percent_decode_str("%FF"), None);
    assert_eq!(percent_decode_str("%C3"), None);
    assert_eq!(percent_decode_str("%C3%28"), None);
}

#[test]
fn percent_round_trip_on_every_ascii_character() {
    let all: String = (0u8..128).map(|b| b as char).collect();
    assert_eq!(percent_decode_str(&percent_encoded(&all)), Some(all));
}

#[test]
fn percent_round_trip_on_mixed_text() {
    for sample in ["", "plain", "a b", "100% sure?", "k=v&x=y", "日本語 text", "😀😀", "%41"] {
        assert_eq!(percent_decode_str(&percent_encoded(sample)), Some(sample.to_string()));
    }
}

#[test]
fn encoding_with_a_filter_succeeds_for_every_name_and_list() {
    let args = vec![arg("a", ArgValue::Number(1))];
    for name in ["appids_filter", "", "a\"b", "a\\b", "\u{1}\n\t", "é日本😀", "a&b=c"] {
        for ids in [vec![0], vec![u32::MAX], vec![1, 1, 1], (0..500).collect::<Vec<u32>>()] {
            let filter = Filter { name: name.to_string(), ids: ids.clone() };
            let query = encode(&args, &filter).unwrap();
            assert!(query.starts_with("a=1&{\""));
            assert_eq!(Some(query["a=1&".len()..].to_string()), fragment(name, &ids));
        }
    }
}

#[test]
fn fragment_lists_many_ids_in_order() {
    let ids: Vec<u32> = (0..12).collect();
    assert_eq!(fragment("f", &ids), Some("{\"f\":[0,1,2,3,4,5,6,7,8,9,10,11]}".to_string()));
}
