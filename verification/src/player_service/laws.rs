//! What holds of every call of `GetOwnedGames`: of the query string that
//! is sent, of the defaults that decoding fills in, and of the error that a
//! failure surfaces as.

use crate::error::{Cause, DecodeFailure, PlayerServiceError, TransportFailure};
use crate::json::{decimal_list, document, fragment_text, is_plain, is_plain_char, JsonValue};
use crate::percent::percent_encode;
use crate::player_service::get_owned_games::{
    call_pairs, call_query, call_result, call_url, decode_body, decode_document, empty_game,
    empty_payload, game_of, games_of, owned_games_of, GameView, OwnedGamesView, ENDPOINT, FILTER,
    VERSION,
};
use crate::player_service::INTERFACE;
use crate::query::{
    flag_text, join_pairs, lemma_flag_unchanged, lemma_join_push, lemma_number_unchanged,
    pair_text, Pair,
};
use crate::request::Response;
use crate::text::decimal;
use vstd::prelude::*;

verus! {

/// Whether the object lacks every field of a game.
pub open spec fn lacks_game_fields(value: JsonValue) -> bool {
    &&& value.member("appid"@) is None
    &&& value.member("name"@) is None
    &&& value.member("playtime_2weeks"@) is None
    &&& value.member("playtime_forever"@) is None
    &&& value.member("img_icon_url"@) is None
    &&& value.member("img_logo_url"@) is None
    &&& value.member("capsule_filename"@) is None
}

/// Decode defaulting, for a game: an object that lacks every field
/// decodes, and every field has its default.
pub proof fn lemma_game_defaults(value: JsonValue)
    requires
        value is Object,
        lacks_game_fields(value),
    ensures
        game_of(value) == Ok::<GameView, DecodeFailure>(empty_game()),
{
}

/// Decode defaulting, for a list of games: objects that lack every field
/// decode to as many games with every field at its default.
pub proof fn lemma_games_default(items: Seq<JsonValue>)
    requires
        forall|i: int|
            0 <= i < items.len() ==> (#[trigger] items[i]) is Object && lacks_game_fields(
                items[i],
            ),
    ensures
        games_of(items) == Ok::<Seq<GameView>, DecodeFailure>(
            Seq::new(items.len(), |i: int| empty_game()),
        ),
    decreases items.len(),
{
    if items.len() == 0 {
        assert(Seq::new(items.len(), |i: int| empty_game()) =~= Seq::<GameView>::empty());
    } else {
        let front = items.drop_last();
        assert forall|i: int| 0 <= i < front.len() implies (#[trigger] front[i]) is Object
            && lacks_game_fields(front[i]) by {
            assert(front[i] == items[i]);
        }
        lemma_games_default(front);
        assert(items[items.len() - 1] is Object);
        lemma_game_defaults(items.last());
        assert(Seq::new(front.len(), |i: int| empty_game()).push(empty_game()) =~= Seq::new(
            items.len(),
            |i: int| empty_game(),
        ));
    }
}

/// Decode defaulting, for the payload: an object that lacks both fields
/// decodes to no games.
pub proof fn lemma_payload_defaults(payload: JsonValue)
    requires
        payload is Object,
        payload.member("game_count"@) is None,
        payload.member("games"@) is None,
    ensures
        owned_games_of(payload) == Ok::<OwnedGamesView, DecodeFailure>(empty_payload()),
{
}

/// A missing field never fails the decoding of a game: where a game does
/// not decode, the value is no object, or some field that is present has
/// the wrong shape or an `appid` is beyond 32 bits.
pub proof fn lemma_game_failure_has_a_field(value: JsonValue)
    requires
        value is Object,
        game_of(value) is Err,
    ensures
        value.member("appid"@) is Some || value.member("name"@) is Some || value.member(
            "playtime_2weeks"@,
        ) is Some || value.member("playtime_forever"@) is Some || value.member("img_icon_url"@)
            is Some || value.member("img_logo_url"@) is Some || value.member(
            "capsule_filename"@,
        ) is Some,
{
}

/// A document that is no object, such as an array, is a decode failure
/// for want of the envelope.
pub proof fn lemma_document_needs_envelope(doc: JsonValue)
    requires
        !(doc is Object),
    ensures
        decode_document(doc) == Err::<OwnedGamesView, DecodeFailure>(
            DecodeFailure::MissingEnvelope,
        ),
{
}

/// A response with a success status never yields a transport or an encode
/// failure: the call succeeds or fails with a decode failure. A body that
/// holds no JSON object fails so.
pub proof fn lemma_answered_call(response: Response)
    requires
        200 <= response.status <= 299,
    ensures
        call_result(Ok(response)) == match decode_body(response.body@) {
            Ok(payload) => Ok::<OwnedGamesView, PlayerServiceError>(payload),
            Err(failure) => Err(PlayerServiceError::GetOwnedGames(Cause::Decode(failure))),
        },
        document(response.body@) matches Some(doc) && !(doc is Object) ==> call_result(
            Ok(response),
        ) == Err::<OwnedGamesView, PlayerServiceError>(
            PlayerServiceError::GetOwnedGames(Cause::Decode(DecodeFailure::MissingEnvelope)),
        ),
        document(response.body@) is None ==> call_result(Ok(response)) == Err::<
            OwnedGamesView,
            PlayerServiceError,
        >(PlayerServiceError::GetOwnedGames(Cause::Decode(DecodeFailure::MalformedJson))),
{
}

/// A transport failure surfaces as the error of this endpoint with the
/// same failure as its cause, never as a decode failure.
pub proof fn lemma_transport_failure_surfaces(failure: TransportFailure)
    ensures
        call_result(Err(failure)) == Err::<OwnedGamesView, PlayerServiceError>(
            PlayerServiceError::GetOwnedGames(Cause::Transport(failure)),
        ),
{
}

/// A response with a status outside 200..=299 surfaces as a transport
/// failure that names the status, whatever the body holds.
pub proof fn lemma_status_failure_surfaces(response: Response)
    requires
        !(200 <= response.status <= 299),
    ensures
        call_result(Ok(response)) == Err::<OwnedGamesView, PlayerServiceError>(
            PlayerServiceError::GetOwnedGames(
                Cause::Transport(TransportFailure::Status(response.status)),
            ),
        ),
{
}

/// The scalar arguments of a call are encoded each exactly once, in the
/// order `key`, `steamid`, `include_appinfo`, `include_played_free_games`,
/// `include_extended_appinfo`: the key percent-encoded, the id in decimal,
/// the flags as `true` or `false`.
#[verifier::rlimit(40)]
pub proof fn lemma_call_scalars(
    key: Seq<char>,
    steamid: u64,
    include_appinfo: bool,
    include_played_free_games: bool,
    include_extended_appinfo: bool,
)
    ensures
        join_pairs(
            call_pairs(
                key,
                steamid,
                include_appinfo,
                include_played_free_games,
                include_extended_appinfo,
            ),
        ) == "key="@ + percent_encode(key) + "&steamid="@ + decimal(steamid as nat)
            + "&include_appinfo="@ + flag_text(include_appinfo) + "&include_played_free_games="@
            + flag_text(include_played_free_games) + "&include_extended_appinfo="@ + flag_text(
            include_extended_appinfo,
        ),
{
    let first = ("key"@, key);
    let second = ("steamid"@, decimal(steamid as nat));
    let third = ("include_appinfo"@, flag_text(include_appinfo));
    let fourth = ("include_played_free_games"@, flag_text(include_played_free_games));
    let fifth = ("include_extended_appinfo"@, flag_text(include_extended_appinfo));
    let joined = pair_text(first) + (seq!['&'] + pair_text(second)) + (seq!['&'] + pair_text(
        third,
    )) + (seq!['&'] + pair_text(fourth)) + (seq!['&'] + pair_text(fifth));
    assert(join_pairs(
        call_pairs(
            key,
            steamid,
            include_appinfo,
            include_played_free_games,
            include_extended_appinfo,
        ),
    ) == joined) by {
        lemma_join_five(first, second, third, fourth, fifth);
    }
    lemma_key_entry(key);
    lemma_steamid_entry(steamid);
    lemma_flag_entries(include_appinfo, include_played_free_games, include_extended_appinfo);
    lemma_regroup(
        "key="@,
        percent_encode(key),
        "&steamid="@,
        decimal(steamid as nat),
        "&include_appinfo="@,
        flag_text(include_appinfo),
        "&include_played_free_games="@,
        flag_text(include_played_free_games),
        "&include_extended_appinfo="@,
        flag_text(include_extended_appinfo),
    );
}

/// Concatenation does not depend on how its parts are grouped.
proof fn lemma_regroup(
    a: Seq<char>,
    b: Seq<char>,
    c: Seq<char>,
    d: Seq<char>,
    e: Seq<char>,
    f: Seq<char>,
    g: Seq<char>,
    h: Seq<char>,
    i: Seq<char>,
    j: Seq<char>,
)
    ensures
        (a + b) + (c + d) + (e + f) + (g + h) + (i + j) == a + b + c + d + e + f + g + h + i + j,
{
    assert((a + b) + (c + d) + (e + f) + (g + h) + (i + j) =~= a + b + c + d + e + f + g + h + i
        + j);
}

/// Five pairs are joined as the entry of the first, then `&` and the entry
/// of each other one, in order.
proof fn lemma_join_five(a: Pair, b: Pair, c: Pair, d: Pair, e: Pair)
    ensures
        join_pairs(seq![a, b, c, d, e]) == pair_text(a) + (seq!['&'] + pair_text(b)) + (seq!['&']
            + pair_text(c)) + (seq!['&'] + pair_text(d)) + (seq!['&'] + pair_text(e)),
{
    let one = seq![a];
    let two = one.push(b);
    let three = two.push(c);
    let four = three.push(d);
    assert(join_pairs(one) == pair_text(a));
    lemma_join_push(one, b);
    lemma_join_push(two, c);
    lemma_join_push(three, d);
    lemma_join_push(four, e);
    assert(four.push(e) =~= seq![a, b, c, d, e]);
}

/// The entry of the key.
proof fn lemma_key_entry(key: Seq<char>)
    ensures
        pair_text(("key"@, key)) == "key="@ + percent_encode(key),
{
    reveal_strlit("key");
    reveal_strlit("key=");
    assert(pair_text(("key"@, key)) =~= "key="@ + percent_encode(key));
}

/// The entry of the id, with the `&` before it.
proof fn lemma_steamid_entry(steamid: u64)
    ensures
        seq!['&'] + pair_text(("steamid"@, decimal(steamid as nat))) == "&steamid="@ + decimal(
            steamid as nat,
        ),
{
    reveal_strlit("steamid");
    reveal_strlit("&steamid=");
    lemma_number_unchanged(steamid as nat);
    assert(seq!['&'] + pair_text(("steamid"@, decimal(steamid as nat))) =~= "&steamid="@
        + decimal(steamid as nat));
}

/// The entries of the three flags, each with the `&` before it.
proof fn lemma_flag_entries(
    include_appinfo: bool,
    include_played_free_games: bool,
    include_extended_appinfo: bool,
)
    ensures
        seq!['&'] + pair_text(("include_appinfo"@, flag_text(include_appinfo)))
            == "&include_appinfo="@ + flag_text(include_appinfo),
        seq!['&'] + pair_text(
            ("include_played_free_games"@, flag_text(include_played_free_games)),
        ) == "&include_played_free_games="@ + flag_text(include_played_free_games),
        seq!['&'] + pair_text(("include_extended_appinfo"@, flag_text(include_extended_appinfo)))
            == "&include_extended_appinfo="@ + flag_text(include_extended_appinfo),
{
    lemma_flag_unchanged(include_appinfo);
    lemma_flag_unchanged(include_played_free_games);
    lemma_flag_unchanged(include_extended_appinfo);
    assert(seq!['&'] + pair_text(("include_appinfo"@, flag_text(include_appinfo)))
        =~= "&include_appinfo="@ + flag_text(include_appinfo)) by {
        reveal_strlit("include_appinfo");
        reveal_strlit("&include_appinfo=");
    }
    assert(seq!['&'] + pair_text(
        ("include_played_free_games"@, flag_text(include_played_free_games)),
    ) =~= "&include_played_free_games="@ + flag_text(include_played_free_games)) by {
        reveal_strlit("include_played_free_games");
        reveal_strlit("&include_played_free_games=");
    }
    assert(seq!['&'] + pair_text(
        ("include_extended_appinfo"@, flag_text(include_extended_appinfo)),
    ) =~= "&include_extended_appinfo="@ + flag_text(include_extended_appinfo)) by {
        reveal_strlit("include_extended_appinfo");
        reveal_strlit("&include_extended_appinfo=");
    }
}

/// What the filter adds to the query string: nothing where it is empty,
/// else `&{"appids_filter":[v1,v2,...]}` with the ids in decimal.
pub open spec fn filter_suffix(appids_filter: Seq<u32>) -> Seq<char> {
    if appids_filter.len() == 0 {
        Seq::empty()
    } else {
        "&{\"appids_filter\":["@ + decimal_list(appids_filter) + "]}"@
    }
}

/// With an empty filter the query string is the scalar arguments and
/// nothing more; with a non-empty one it ends with
/// `&{"appids_filter":[v1,v2,...]}`, the ids in decimal.
pub proof fn lemma_call_filter(
    key: Seq<char>,
    steamid: u64,
    include_appinfo: bool,
    include_played_free_games: bool,
    appids_filter: Seq<u32>,
    include_extended_appinfo: bool,
)
    ensures
        call_query(
            key,
            steamid,
            include_appinfo,
            include_played_free_games,
            appids_filter,
            include_extended_appinfo,
        ) == join_pairs(
            call_pairs(
                key,
                steamid,
                include_appinfo,
                include_played_free_games,
                include_extended_appinfo,
            ),
        ) + filter_suffix(appids_filter),
{
    let scalars = join_pairs(
        call_pairs(
            key,
            steamid,
            include_appinfo,
            include_played_free_games,
            include_extended_appinfo,
        ),
    );
    if appids_filter.len() == 0 {
        assert(scalars + Seq::<char>::empty() =~= scalars);
    } else {
        reveal_strlit("appids_filter");
        reveal_strlit("&{\"appids_filter\":[");
        reveal_strlit("]}");
        assert(is_plain(FILTER@)) by {
            assert forall|i: int| 0 <= i < FILTER@.len() implies is_plain_char(
                #[trigger] FILTER@[i],
            ) by {}
        }
        assert(scalars + seq!['&'] + fragment_text(FILTER@, appids_filter) =~= scalars + (
        "&{\"appids_filter\":["@ + decimal_list(appids_filter) + "]}"@));
    }
}

/// A filter of two ids `v1`, `v2` is sent as `[v1,v2]`.
pub proof fn lemma_two_ids(v1: u32, v2: u32)
    ensures
        decimal_list(seq![v1, v2]) == decimal(v1 as nat) + ","@ + decimal(v2 as nat),
{
    reveal_strlit(",");
    let ids = seq![v1, v2];
    assert(ids.drop_last() =~= seq![v1]);
    assert(decimal_list(seq![v1]) == decimal(v1 as nat));
    assert(decimal_list(ids) =~= decimal(v1 as nat) + ","@ + decimal(v2 as nat));
}

/// A call goes to `{base}/IPlayerService/GetOwnedGames/v1/?{query}`.
pub proof fn lemma_call_url(base: Seq<char>, query: Seq<char>)
    ensures
        call_url(base, query) == base + "/IPlayerService/GetOwnedGames/v1/?"@ + query,
{
    reveal_strlit("IPlayerService");
    reveal_strlit("GetOwnedGames");
    reveal_strlit("/IPlayerService/GetOwnedGames/v1/?");
    assert(decimal(1) =~= seq!['1']);
    assert(seq!['/'] + INTERFACE@ + seq!['/'] + ENDPOINT@ + seq!['/', 'v'] + decimal(
        VERSION as nat,
    ) + seq!['/', '?'] =~= "/IPlayerService/GetOwnedGames/v1/?"@);
    assert(call_url(base, query) =~= base + (seq!['/'] + INTERFACE@ + seq!['/'] + ENDPOINT@
        + seq!['/', 'v'] + decimal(VERSION as nat) + seq!['/', '?']) + query);
}

} // verus!
