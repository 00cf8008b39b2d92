use steam_rs::envelope::{
    items_field, open_envelope, optional_text_field, optional_unsigned_field, unsigned_field,
};
use steam_rs::error::DecodeFailure;
use steam_rs::json::{parse, JsonValue};
use steam_rs::player_service::get_owned_games::{
    decode, decode_game, decode_games, decode_owned_games, decode_response, Game, OwnedGames,
};

fn object(entries: Vec<(&str, JsonValue)>) -> JsonValue {
    JsonValue::Object(entries.into_iter().map(|(k, v)| (k.to_string(), v)).collect())
}

fn number(n: u64) -> JsonValue {
    JsonValue::Number(Some(n))
}

fn text(s: &str) -> JsonValue {
    JsonValue::Text(s.to_string())
}

fn bare_game(appid: u32, playtime_forever: u64) -> Game {
    Game {
        appid,
        name: None,
        playtime_2weeks: None,
        playtime_forever,
        img_icon_url: None,
        img_logo_url: None,
        capsule_filename: None,
    }
}

#[test]
fn parse_reads_every_kind_of_value() {
    assert_eq!(
        parse(b"{\"a\":[null,true,false,7,\"x\",{}]}"),
        Ok(object(vec![(
            "a",
            JsonValue::Array(vec![
                JsonValue::Null,
                JsonValue::Bool(true),
                JsonValue::Bool(false),
                number(7),
                text("x"),
                object(vec![]),
            ])
        )]))
    );
}

#[test]
fn parse_keeps_unsigned_numbers_only() {
    assert_eq!(parse(b"18446744073709551615"), Ok(number(u64::MAX)));
    assert_eq!(parse(b"0"), Ok(number(0)));
    assert_eq!(parse(b"-1"), Ok(JsonValue::Number(None)));
    assert_eq!(parse(b"1.5"), Ok(JsonValue::Number(None)));
    assert_eq!(parse(b"1e3"), Ok(JsonValue::Number(None)));
    assert_eq!(parse(b"18446744073709551616"), Ok(JsonValue::Number(None)));
}

#[test]
fn parse_unescapes_text() {
    assert_eq!(parse(b"\"a\\n\\u00e9\\\"\""), Ok(text("a\né\"")));
}

#[test]
fn parse_lets_the_last_of_equal_names_stand() {
    assert_eq!(parse(b"{\"a\":1,\"a\":2}"), Ok(object(vec![("a", number(2))])));
}

#[test]
fn parse_rejects_what_is_no_json() {
    for body in ["", "{", "nope", "{\"a\":}", "[1,]", "{} {}", "{\"a\":1}x", "'a'"] {
        assert_eq!(parse(body.as_bytes()), Err(DecodeFailure::MalformedJson));
    }
    assert_eq!(parse(&[0xff, 0xfe]), Err(DecodeFailure::MalformedJson));
    assert_eq!(parse(b"\"\xff\""), Err(DecodeFailure::MalformedJson));
}

#[test]
fn parse_allows_whitespace_around_the_value() {
    assert_eq!(parse(b" \n{ \"a\" : 1 }\t"), Ok(object(vec![("a", number(1))])));
}

#[test]
fn get_finds_a_member_by_name() {
    let value = object(vec![("a", number(1)), ("b", number(2))]);
    assert_eq!(value.get("a"), Some(&number(1)));
    assert_eq!(value.get("b"), Some(&number(2)));
    assert_eq!(value.get("c"), None);
    assert_eq!(value.get(""), None);
}

#[test]
fn get_takes_the_last_of_equal_names() {
    let value = object(vec![("a", number(1)), ("b", number(2)), ("a", number(3))]);
    assert_eq!(value.get("a"), Some(&number(3)));
}

#[test]
fn get_finds_nothing_in_what_is_no_object() {
    assert_eq!(JsonValue::Array(vec![number(1)]).get("0"), None);
    assert_eq!(text("a").get("a"), None);
    assert_eq!(JsonValue::Null.get("a"), None);
}

#[test]
fn envelope_holds_the_payload() {
    let doc = object(vec![("other", number(1)), ("response", object(vec![]))]);
    assert_eq!(open_envelope(&doc, "response"), Ok(&object(vec![])));
}

#[test]
fn missing_envelope_is_a_decode_failure() {
    assert_eq!(open_envelope(&object(vec![]), "response"), Err(DecodeFailure::MissingEnvelope));
    assert_eq!(
        open_envelope(&object(vec![("Response", object(vec![]))]), "response"),
        Err(DecodeFailure::MissingEnvelope)
    );
    assert_eq!(
        open_envelope(&JsonValue::Array(vec![]), "response"),
        Err(DecodeFailure::MissingEnvelope)
    );
}

#[test]
fn number_field_defaults_to_zero() {
    let value = object(vec![("n", number(5)), ("s", text("x")), ("z", JsonValue::Null)]);
    assert_eq!(unsigned_field(&value, "n"), Ok(5));
    assert_eq!(unsigned_field(&value, "missing"), Ok(0));
    assert_eq!(unsigned_field(&value, "s"), Err(DecodeFailure::UnexpectedShape));
    assert_eq!(unsigned_field(&value, "z"), Err(DecodeFailure::UnexpectedShape));
}

#[test]
fn number_field_rejects_negative_and_fractional_numbers() {
    let value = object(vec![("n", JsonValue::Number(None))]);
    assert_eq!(unsigned_field(&value, "n"), Err(DecodeFailure::UnexpectedShape));
    assert_eq!(optional_unsigned_field(&value, "n"), Err(DecodeFailure::UnexpectedShape));
}

#[test]
fn optional_number_field_defaults_to_absent() {
    let value = object(vec![("n", number(5)), ("s", text("x")), ("z", JsonValue::Null)]);
    assert_eq!(optional_unsigned_field(&value, "n"), Ok(Some(5)));
    assert_eq!(optional_unsigned_field(&value, "missing"), Ok(None));
    assert_eq!(optional_unsigned_field(&value, "z"), Ok(None));
    assert_eq!(optional_unsigned_field(&value, "s"), Err(DecodeFailure::UnexpectedShape));
}

#[test]
fn optional_text_field_defaults_to_absent() {
    let value = object(vec![("n", number(5)), ("s", text("x")), ("z", JsonValue::Null)]);
    assert_eq!(optional_text_field(&value, "s"), Ok(Some("x".to_string())));
    assert_eq!(optional_text_field(&value, "missing"), Ok(None));
    assert_eq!(optional_text_field(&value, "z"), Ok(None));
    assert_eq!(optional_text_field(&value, "n"), Err(DecodeFailure::UnexpectedShape));
}

#[test]
fn list_field_defaults_to_none() {
    let value = object(vec![("l", JsonValue::Array(vec![number(1)])), ("n", number(5))]);
    assert_eq!(items_field(&value, "l"), Ok(Some(&vec![number(1)])));
    assert_eq!(items_field(&value, "missing"), Ok(None));
    assert_eq!(items_field(&value, "n"), Err(DecodeFailure::UnexpectedShape));
}

#[test]
fn game_with_every_field() {
    let value = object(vec![
        ("appid", number(10)),
        ("name", text("Counter-Strike")),
        ("playtime_2weeks", number(3)),
        ("playtime_forever", number(500)),
        ("img_icon_url", text("icon")),
        ("img_logo_url", text("logo")),
        ("capsule_filename", text("capsule.jpg")),
        ("has_community_visible_stats", JsonValue::Bool(true)),
    ]);
    assert_eq!(
        decode_game(&value),
        Ok(Game {
            appid: 10,
            name: Some("Counter-Strike".to_string()),
            playtime_2weeks: Some(3),
            playtime_forever: 500,
            img_icon_url: Some("icon".to_string()),
            img_logo_url: Some("logo".to_string()),
            capsule_filename: Some("capsule.jpg".to_string()),
        })
    );
}

#[test]
fn game_without_any_field_has_every_default() {
    assert_eq!(decode_game(&object(vec![])), Ok(bare_game(0, 0)));
}

#[test]
fn game_with_null_optionals_has_them_absent() {
    let value = object(vec![
        ("appid", number(1)),
        ("name", JsonValue::Null),
        ("playtime_2weeks", JsonValue::Null),
        ("img_icon_url", JsonValue::Null),
        ("img_logo_url", JsonValue::Null),
        ("capsule_filename", JsonValue::Null),
    ]);
    assert_eq!(decode_game(&value), Ok(bare_game(1, 0)));
}

#[test]
fn game_with_the_largest_appid() {
    let value = object(vec![("appid", number(u32::MAX as u64))]);
    assert_eq!(decode_game(&value), Ok(bare_game(u32::MAX, 0)));
}

#[test]
fn game_with_an_appid_beyond_32_bits_fails() {
    let value = object(vec![("appid", number(u32::MAX as u64 + 1))]);
    assert_eq!(decode_game(&value), Err(DecodeFailure::UnexpectedShape));
}

#[test]
fn game_with_a_field_of_the_wrong_shape_fails() {
    for (key, wrong) in [
        ("appid", text("10")),
        ("appid", JsonValue::Null),
        ("name", number(1)),
        ("playtime_2weeks", text("3")),
        ("playtime_forever", JsonValue::Bool(true)),
        ("playtime_forever", JsonValue::Null),
        ("img_icon_url", JsonValue::Array(vec![])),
        ("img_logo_url", object(vec![])),
        ("capsule_filename", number(0)),
    ] {
        assert_eq!(decode_game(&object(vec![(key, wrong)])), Err(DecodeFailure::UnexpectedShape));
    }
}

#[test]
fn game_that_is_no_object_fails() {
    for value in [JsonValue::Null, number(10), text("x"), JsonValue::Array(vec![number(10)])] {
        assert_eq!(decode_game(&value), Err(DecodeFailure::UnexpectedShape));
    }
}

#[test]
fn games_are_read_in_order() {
    let items = vec![
        object(vec![("appid", number(3))]),
        object(vec![]),
        object(vec![("appid", number(1)), ("playtime_forever", number(9))]),
    ];
    assert_eq!(decode_games(&items), Ok(vec![bare_game(3, 0), bare_game(0, 0), bare_game(1, 9)]));
    assert_eq!(decode_games(&vec![]), Ok(vec![]));
}

#[test]
fn one_bad_game_fails_the_list() {
    let items = vec![object(vec![]), number(1), object(vec![])];
    assert_eq!(decode_games(&items), Err(DecodeFailure::UnexpectedShape));
    let items = vec![object(vec![]), object(vec![("appid", text("x"))])];
    assert_eq!(decode_games(&items), Err(DecodeFailure::UnexpectedShape));
}

#[test]
fn payload_without_any_field_has_every_default() {
    assert_eq!(
        decode_owned_games(&object(vec![])),
        Ok(OwnedGames { game_count: 0, games: vec![] })
    );
    assert_eq!(decode_owned_games(&object(vec![])), Ok(OwnedGames::default()));
}

#[test]
fn payload_with_count_only() {
    assert_eq!(
        decode_owned_games(&object(vec![("game_count", number(4))])),
        Ok(OwnedGames { game_count: 4, games: vec![] })
    );
}

#[test]
fn payload_with_games_only() {
    let payload = object(vec![("games", JsonValue::Array(vec![object(vec![])]))]);
    assert_eq!(
        decode_owned_games(&payload),
        Ok(OwnedGames { game_count: 0, games: vec![bare_game(0, 0)] })
    );
}

#[test]
fn payload_of_the_wrong_shape_fails() {
    for payload in [
        JsonValue::Null,
        JsonValue::Array(vec![]),
        number(1),
        object(vec![("game_count", text("1"))]),
        object(vec![("game_count", JsonValue::Null)]),
        object(vec![("games", object(vec![]))]),
        object(vec![("games", JsonValue::Null)]),
        object(vec![("games", JsonValue::Array(vec![number(1)]))]),
    ] {
        assert_eq!(decode_owned_games(&payload), Err(DecodeFailure::UnexpectedShape));
    }
}

#[test]
fn response_is_unwrapped() {
    let doc = object(vec![("response", object(vec![("game_count", number(2))]))]);
    assert_eq!(decode_response(&doc), Ok(OwnedGames { game_count: 2, games: vec![] }));
}

#[test]
fn response_without_envelope_fails() {
    assert_eq!(
        decode_response(&object(vec![("game_count", number(2))])),
        Err(DecodeFailure::MissingEnvelope)
    );
    assert_eq!(decode_response(&JsonValue::Array(vec![])), Err(DecodeFailure::MissingEnvelope));
}

#[test]
fn body_with_one_game() {
    let body = b"{\"response\":{\"game_count\":1,\"games\":[{\"appid\":10,\"playtime_forever\":500}]}}";
    assert_eq!(decode(body), Ok(OwnedGames { game_count: 1, games: vec![bare_game(10, 500)] }));
}

#[test]
fn body_with_a_full_game() {
    let body = "{\"response\":{\"game_count\":1,\"games\":[{\"appid\":440,\"name\":\"Team Fortress 2\",\"playtime_2weeks\":12,\"playtime_forever\":3000,\"img_icon_url\":\"e3f5\",\"img_logo_url\":\"07385\",\"capsule_filename\":\"library_600x900.jpg\",\"has_leaderboards\":true}]}}";
    assert_eq!(
        decode(body.as_bytes()),
        Ok(OwnedGames {
            game_count: 1,
            games: vec![Game {
                appid: 440,
                name: Some("Team Fortress 2".to_string()),
                playtime_2weeks: Some(12),
                playtime_forever: 3000,
                img_icon_url: Some("e3f5".to_string()),
                img_logo_url: Some("07385".to_string()),
                capsule_filename: Some("library_600x900.jpg".to_string()),
            }],
        })
    );
}

#[test]
fn body_with_an_empty_payload_has_every_default() {
    assert_eq!(decode(b"{\"response\":{}}"), Ok(OwnedGames { game_count: 0, games: vec![] }));
}

#[test]
fn body_with_games_that_lack_every_field() {
    assert_eq!(
        decode(b"{\"response\":{\"games\":[{},{}]}}"),
        Ok(OwnedGames { game_count: 0, games: vec![bare_game(0, 0), bare_game(0, 0)] })
    );
}

#[test]
fn body_that_is_an_array_fails_for_want_of_the_envelope() {
    assert_eq!(decode(b"[]"), Err(DecodeFailure::MissingEnvelope));
    assert_eq!(decode(b"[{\"response\":{}}]"), Err(DecodeFailure::MissingEnvelope));
    assert_eq!(decode(b"[1,2]"), Err(DecodeFailure::MissingEnvelope));
}

#[test]
fn body_of_another_top_level_shape_fails_for_want_of_the_envelope() {
    for body in ["{}", "null", "1", "\"response\"", "{\"result\":{}}"] {
        assert_eq!(decode(body.as_bytes()), Err(DecodeFailure::MissingEnvelope));
    }
}

#[test]
fn body_that_is_no_json_is_malformed() {
    for body in ["", "<html>", "{\"response\":", "{\"response\":{}}}"] {
        assert_eq!(decode(body.as_bytes()), Err(DecodeFailure::MalformedJson));
    }
}

#[test]
fn body_with_a_payload_of_the_wrong_shape_fails() {
    for body in [
        "{\"response\":[]}",
        "{\"response\":null}",
        "{\"response\":{\"game_count\":-1}}",
        "{\"response\":{\"game_count\":1.5}}",
        "{\"response\":{\"game_count\":\"1\"}}",
        "{\"response\":{\"games\":{}}}",
        "{\"response\":{\"games\":[[]]}}",
        "{\"response\":{\"games\":[{\"appid\":4294967296}]}}",
        "{\"response\":{\"games\":[{\"appid\":-5}]}}",
        "{\"response\":{\"games\":[{\"name\":5}]}}",
    ] {
        assert_eq!(decode(body.as_bytes()), Err(DecodeFailure::UnexpectedShape));
    }
}

#[test]
fn body_with_the_envelope_given_twice_takes_the_last() {
    assert_eq!(
        decode(b"{\"response\":{\"game_count\":1},\"response\":{\"game_count\":2}}"),
        Ok(OwnedGames { game_count: 2, games: vec![] })
    );
}
