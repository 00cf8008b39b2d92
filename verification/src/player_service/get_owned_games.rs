//! The `GetOwnedGames` endpoint: the games that a player owns.

use crate::client::Steam;
use crate::envelope::{
    items_field, items_of, open_envelope, optional_text_field, optional_text_of,
    optional_unsigned_field, optional_unsigned_of, payload_of, text_view, unsigned_field,
    unsigned_of,
};
use crate::error::{Cause, DecodeFailure, PlayerServiceError, TransportFailure};
use crate::json::{document, fragment_text, parse, JsonValue};
use crate::player_service::INTERFACE;
use crate::query::{
    encode, flag_text, join_pairs, present_pairs, push_arg, Argument, ArgValue, Filter, Pair,
};
use crate::request::{accept, body_of, body_view, invoke, request_url, Endpoint, Response};
use crate::steam_id::SteamId;
use crate::text::decimal;
use vstd::prelude::*;

verus! {

/// The name of the endpoint in request URLs.
pub const ENDPOINT: &'static str = "GetOwnedGames";

/// The version of the endpoint.
pub const VERSION: u32 = 1;

/// The member of the response that holds the payload.
pub const ENVELOPE: &'static str = "response";

/// The name of the collection argument.
pub const FILTER: &'static str = "appids_filter";

/// The games that a player owns.
#[derive(Debug, Clone, PartialEq, Eq)]
pub struct OwnedGames {
    pub game_count: u64,
    pub games: Vec<Game>,
}

/// One owned game.
#[derive(Debug, Clone, PartialEq, Eq)]
pub struct Game {
    pub appid: u32,
    pub name: Option<String>,
    pub playtime_2weeks: Option<u64>,
    pub playtime_forever: u64,
    pub img_icon_url: Option<String>,
    pub img_logo_url: Option<String>,
    pub capsule_filename: Option<String>,
}

/// What a [`Game`] holds.
pub struct GameView {
    pub appid: u32,
    pub name: Option<Seq<char>>,
    pub playtime_2weeks: Option<u64>,
    pub playtime_forever: u64,
    pub img_icon_url: Option<Seq<char>>,
    pub img_logo_url: Option<Seq<char>>,
    pub capsule_filename: Option<Seq<char>>,
}

/// What an [`OwnedGames`] holds.
pub struct OwnedGamesView {
    pub game_count: u64,
    pub games: Seq<GameView>,
}

impl View for Game {
    type V = GameView;

    open spec fn view(&self) -> GameView {
        GameView {
            appid: self.appid,
            name: text_view(self.name),
            playtime_2weeks: self.playtime_2weeks,
            playtime_forever: self.playtime_forever,
            img_icon_url: text_view(self.img_icon_url),
            img_logo_url: text_view(self.img_logo_url),
            capsule_filename: text_view(self.capsule_filename),
        }
    }
}

impl View for OwnedGames {
    type V = OwnedGamesView;

    open spec fn view(&self) -> OwnedGamesView {
        OwnedGamesView {
            game_count: self.game_count,
            games: Seq::new(self.games@.len(), |i: int| self.games@[i]@),
        }
    }
}

impl Default for OwnedGames {
    /// No games.
    fn default() -> (r: OwnedGames)
        ensures
            r@ == empty_payload(),
    {
        let r = OwnedGames { game_count: 0, games: Vec::new() };
        assert(r@.games =~= Seq::<GameView>::empty());
        r
    }
}

/// The payload in which every field has its default: no games.
pub open spec fn empty_payload() -> OwnedGamesView {
    OwnedGamesView { game_count: 0, games: Seq::empty() }
}

/// The game in which every field has its default.
pub open spec fn empty_game() -> GameView {
    GameView {
        appid: 0,
        name: None,
        playtime_2weeks: None,
        playtime_forever: 0,
        img_icon_url: None,
        img_logo_url: None,
        capsule_filename: None,
    }
}

/// A result with the payload as its view.
pub open spec fn payload_view<E>(r: Result<OwnedGames, E>) -> Result<OwnedGamesView, E> {
    match r {
        Ok(payload) => Ok(payload@),
        Err(failure) => Err(failure),
    }
}

/// The game that a JSON value describes. The value must be an object;
/// each field that is missing takes its default; a field that is present
/// with the wrong shape, or an `appid` beyond 32 bits, is a failure.
pub open spec fn game_of(value: JsonValue) -> Result<GameView, DecodeFailure> {
    let appid = unsigned_of(value.member("appid"@));
    let name = optional_text_of(value.member("name"@));
    let playtime_2weeks = optional_unsigned_of(value.member("playtime_2weeks"@));
    let playtime_forever = unsigned_of(value.member("playtime_forever"@));
    let img_icon_url = optional_text_of(value.member("img_icon_url"@));
    let img_logo_url = optional_text_of(value.member("img_logo_url"@));
    let capsule_filename = optional_text_of(value.member("capsule_filename"@));
    if value is Object && appid is Ok && appid->Ok_0 <= u32::MAX && name is Ok
        && playtime_2weeks is Ok && playtime_forever is Ok && img_icon_url is Ok
        && img_logo_url is Ok && capsule_filename is Ok {
        Ok(
            GameView {
                appid: appid->Ok_0 as u32,
                name: name->Ok_0,
                playtime_2weeks: playtime_2weeks->Ok_0,
                playtime_forever: playtime_forever->Ok_0,
                img_icon_url: img_icon_url->Ok_0,
                img_logo_url: img_logo_url->Ok_0,
                capsule_filename: capsule_filename->Ok_0,
            },
        )
    } else {
        Err(DecodeFailure::UnexpectedShape)
    }
}

/// The games that a list of JSON values describes, in order; a failure if
/// any of them fails.
pub open spec fn games_of(items: Seq<JsonValue>) -> Result<Seq<GameView>, DecodeFailure>
    decreases items.len(),
{
    if items.len() == 0 {
        Ok(Seq::empty())
    } else {
        match (games_of(items.drop_last()), game_of(items.last())) {
            (Ok(front), Ok(game)) => Ok(front.push(game)),
            _ => Err(DecodeFailure::UnexpectedShape),
        }
    }
}

/// The payload that a JSON value describes. The value must be an object;
/// a missing `game_count` is zero and a missing `games` is empty.
pub open spec fn owned_games_of(payload: JsonValue) -> Result<OwnedGamesView, DecodeFailure> {
    let game_count = unsigned_of(payload.member("game_count"@));
    let items = items_of(payload.member("games"@));
    if payload is Object && game_count is Ok && items is Ok && games_of(items->Ok_0) is Ok {
        Ok(OwnedGamesView { game_count: game_count->Ok_0, games: games_of(items->Ok_0)->Ok_0 })
    } else {
        Err(DecodeFailure::UnexpectedShape)
    }
}

/// The payload inside the envelope of a document.
pub open spec fn decode_document(doc: JsonValue) -> Result<OwnedGamesView, DecodeFailure> {
    match payload_of(doc, ENVELOPE@) {
        Ok(payload) => owned_games_of(payload),
        Err(failure) => Err(failure),
    }
}

/// The payload that a response body holds.
pub open spec fn decode_body(bytes: Seq<u8>) -> Result<OwnedGamesView, DecodeFailure> {
    match document(bytes) {
        Some(doc) => decode_document(doc),
        None => Err(DecodeFailure::MalformedJson),
    }
}

/// The scalar arguments of a call, in the order in which they are sent.
pub open spec fn call_pairs(
    key: Seq<char>,
    steamid: u64,
    include_appinfo: bool,
    include_played_free_games: bool,
    include_extended_appinfo: bool,
) -> Seq<Pair> {
    seq![
        ("key"@, key),
        ("steamid"@, decimal(steamid as nat)),
        ("include_appinfo"@, flag_text(include_appinfo)),
        ("include_played_free_games"@, flag_text(include_played_free_games)),
        ("include_extended_appinfo"@, flag_text(include_extended_appinfo)),
    ]
}

/// The query string of a call: the scalar arguments, then the fragment of
/// the filter unless the filter is empty.
pub open spec fn call_query(
    key: Seq<char>,
    steamid: u64,
    include_appinfo: bool,
    include_played_free_games: bool,
    appids_filter: Seq<u32>,
    include_extended_appinfo: bool,
) -> Seq<char> {
    let scalars = join_pairs(
        call_pairs(
            key,
            steamid,
            include_appinfo,
            include_played_free_games,
            include_extended_appinfo,
        ),
    );
    if appids_filter.len() == 0 {
        scalars
    } else {
        scalars + seq!['&'] + fragment_text(FILTER@, appids_filter)
    }
}

/// The URL of a call.
pub open spec fn call_url(base: Seq<char>, query: Seq<char>) -> Seq<char> {
    base + seq!['/'] + INTERFACE@ + seq!['/'] + ENDPOINT@ + seq!['/', 'v'] + decimal(
        VERSION as nat,
    ) + seq!['/', '?'] + query
}

/// What a call yields, given the body or the failure that the request
/// ended in: the payload of a body that decodes, else the failure, under
/// the name of this endpoint. A transport failure stays a transport
/// failure.
pub open spec fn body_result(body: Result<Seq<u8>, TransportFailure>) -> Result<
    OwnedGamesView,
    PlayerServiceError,
> {
    match body {
        Ok(bytes) => match decode_body(bytes) {
            Ok(payload) => Ok(payload),
            Err(failure) => Err(PlayerServiceError::GetOwnedGames(Cause::Decode(failure))),
        },
        Err(failure) => Err(PlayerServiceError::GetOwnedGames(Cause::Transport(failure))),
    }
}

/// What a call yields, given what the transport reports.
pub open spec fn call_result(outcome: Result<Response, TransportFailure>) -> Result<
    OwnedGamesView,
    PlayerServiceError,
> {
    body_result(body_of(outcome))
}

/// Wraps a failure into the error of this endpoint.
pub fn wrap(cause: Cause) -> (r: PlayerServiceError)
    ensures
        r == PlayerServiceError::GetOwnedGames(cause),
{
    PlayerServiceError::GetOwnedGames(cause)
}

/// The descriptor of this endpoint.
pub fn endpoint() -> (r: Endpoint)
    ensures
        r.interface@ == INTERFACE@,
        r.name@ == ENDPOINT@,
        r.version == VERSION,
{
    Endpoint { interface: INTERFACE.to_owned(), name: ENDPOINT.to_owned(), version: VERSION }
}

/// Reads one game.
pub fn decode_game(value: &JsonValue) -> (r: Result<Game, DecodeFailure>)
    ensures
        r matches Ok(game) ==> game_of(*value) == Ok::<GameView, DecodeFailure>(game@),
        r matches Err(failure) ==> game_of(*value) == Err::<GameView, DecodeFailure>(failure),
{
    match value {
        JsonValue::Object(_) => {},
        _ => {
            return Err(DecodeFailure::UnexpectedShape);
        },
    }
    let appid = unsigned_field(value, "appid")?;
    if appid > u32::MAX as u64 {
        return Err(DecodeFailure::UnexpectedShape);
    }
    let appid: u32 = appid as u32;
    let name = optional_text_field(value, "name")?;
    let playtime_2weeks = optional_unsigned_field(value, "playtime_2weeks")?;
    let playtime_forever = unsigned_field(value, "playtime_forever")?;
    let img_icon_url = optional_text_field(value, "img_icon_url")?;
    let img_logo_url = optional_text_field(value, "img_logo_url")?;
    let capsule_filename = optional_text_field(value, "capsule_filename")?;
    Ok(
        Game {
            appid,
            name,
            playtime_2weeks,
            playtime_forever,
            img_icon_url,
            img_logo_url,
            capsule_filename,
        },
    )
}

/// Reads a list of games.
pub fn decode_games(items: &Vec<JsonValue>) -> (r: Result<Vec<Game>, DecodeFailure>)
    ensures
        r matches Ok(games) ==> games_of(items@) == Ok::<Seq<GameView>, DecodeFailure>(
            Seq::new(games@.len(), |i: int| games@[i]@),
        ),
        r matches Err(failure) ==> games_of(items@) == Err::<Seq<GameView>, DecodeFailure>(
            failure,
        ),
{
    let mut games: Vec<Game> = Vec::new();
    let mut i: usize = 0;
    assert(items@.take(0) =~= Seq::<JsonValue>::empty());
    assert(Seq::new(games@.len(), |i: int| games@[i]@) =~= Seq::<GameView>::empty());
    while i < items.len()
        invariant
            i <= items.len(),
            games_of(items@.take(i as int)) == Ok::<Seq<GameView>, DecodeFailure>(
                Seq::new(games@.len(), |i: int| games@[i]@),
            ),
        decreases items.len() - i,
    {
        proof {
            let upto = items@.take(i + 1);
            assert(upto.drop_last() =~= items@.take(i as int));
            assert(upto.last() == items@[i as int]);
        }
        match decode_game(&items[i]) {
            Ok(game) => {
                let ghost before = Seq::new(games@.len(), |i: int| games@[i]@);
                let ghost view = game@;
                games.push(game);
                assert(Seq::new(games@.len(), |i: int| games@[i]@) =~= before.push(view));
            },
            Err(_) => {
                proof {
                    lemma_games_of_prefix(items@, i + 1);
                }
                return Err(DecodeFailure::UnexpectedShape);
            },
        }
        i += 1;
    }
    assert(items@.take(i as int) =~= items@);
    Ok(games)
}

/// If a list of values describes games, so do the first `n` of them.
pub proof fn lemma_games_of_prefix(items: Seq<JsonValue>, n: int)
    requires
        0 <= n <= items.len(),
    ensures
        games_of(items) is Ok ==> games_of(items.take(n)) is Ok,
        games_of(items) is Err ==> games_of(items) == Err::<Seq<GameView>, DecodeFailure>(
            DecodeFailure::UnexpectedShape,
        ),
    decreases items.len(),
{
    if n < items.len() {
        assert(items.drop_last().take(n) =~= items.take(n));
        lemma_games_of_prefix(items.drop_last(), n);
    } else {
        assert(items.take(n) =~= items);
    }
}

/// Reads the payload.
pub fn decode_owned_games(payload: &JsonValue) -> (r: Result<OwnedGames, DecodeFailure>)
    ensures
        payload_view(r) == owned_games_of(*payload),
{
    match payload {
        JsonValue::Object(_) => {},
        _ => {
            return Err(DecodeFailure::UnexpectedShape);
        },
    }
    let game_count = unsigned_field(payload, "game_count")?;
    let games = match items_field(payload, "games")? {
        Some(items) => decode_games(items)?,
        None => {
            let games: Vec<Game> = Vec::new();
            assert(Seq::new(games@.len(), |i: int| games@[i]@) =~= Seq::<GameView>::empty());
            games
        },
    };
    Ok(OwnedGames { game_count, games })
}

/// Takes the payload out of a parsed response.
pub fn decode_response(doc: &JsonValue) -> (r: Result<OwnedGames, DecodeFailure>)
    ensures
        payload_view(r) == decode_document(*doc),
{
    match open_envelope(doc, ENVELOPE) {
        Ok(payload) => decode_owned_games(payload),
        Err(failure) => Err(failure),
    }
}

/// Decodes a response body.
pub fn decode(body: &[u8]) -> (r: Result<OwnedGames, DecodeFailure>)
    ensures
        payload_view(r) == decode_body(body@),
{
    match parse(body) {
        Ok(doc) => decode_response(&doc),
        Err(failure) => Err(failure),
    }
}

/// Concludes a call from the body or the failure that the request ended
/// in.
pub fn finish(body: Result<Vec<u8>, TransportFailure>) -> (r: Result<
    OwnedGames,
    PlayerServiceError,
>)
    ensures
        payload_view(r) == body_result(body_view(body)),
{
    match body {
        Ok(bytes) => match decode(bytes.as_slice()) {
            Ok(payload) => Ok(payload),
            Err(failure) => Err(wrap(Cause::Decode(failure))),
        },
        Err(failure) => Err(wrap(Cause::Transport(failure))),
    }
}

/// Concludes a call from what the transport reports.
pub fn conclude(outcome: Result<Response, TransportFailure>) -> (r: Result<
    OwnedGames,
    PlayerServiceError,
>)
    ensures
        payload_view(r) == call_result(outcome),
{
    finish(accept(outcome))
}

/// The scalar arguments of a call.
pub fn call_arguments(
    key: &str,
    steamid: u64,
    include_appinfo: bool,
    include_played_free_games: bool,
    include_extended_appinfo: bool,
) -> (args: Vec<Argument>)
    ensures
        present_pairs(args@) == call_pairs(
            key@,
            steamid,
            include_appinfo,
            include_played_free_games,
            include_extended_appinfo,
        ),
{
    let mut args: Vec<Argument> = Vec::new();
    push_arg(&mut args, "key", ArgValue::Text(key.to_owned()));
    push_arg(&mut args, "steamid", ArgValue::Number(steamid));
    push_arg(&mut args, "include_appinfo", ArgValue::Flag(include_appinfo));
    push_arg(&mut args, "include_played_free_games", ArgValue::Flag(include_played_free_games));
    push_arg(&mut args, "include_extended_appinfo", ArgValue::Flag(include_extended_appinfo));
    assert(present_pairs(args@) =~= call_pairs(
        key@,
        steamid,
        include_appinfo,
        include_played_free_games,
        include_extended_appinfo,
    ));
    args
}

impl Steam {
    /// The URL of a call of `GetOwnedGames`. There is one for every
    /// input.
    pub fn get_owned_games_url(
        &self,
        steamid: SteamId,
        include_appinfo: bool,
        include_played_free_games: bool,
        appids_filter: Vec<u32>,
        include_extended_appinfo: bool,
    ) -> (r: Result<String, PlayerServiceError>)
        ensures
            r is Ok,
            r matches Ok(url) ==> url@ == call_url(
                self.base(),
                call_query(
                    self.key(),
                    steamid.value(),
                    include_appinfo,
                    include_played_free_games,
                    appids_filter@,
                    include_extended_appinfo,
                ),
            ),
    {
        let args = call_arguments(
            self.api_key(),
            steamid.into_u64(),
            include_appinfo,
            include_played_free_games,
            include_extended_appinfo,
        );
        let filter = Filter { name: FILTER.to_owned(), ids: appids_filter };
        match encode(&args, &filter) {
            Ok(query) => Ok(request_url(self.base_url(), &endpoint(), query.as_str())),
            Err(failure) => Err(wrap(Cause::Encode(failure))),
        }
    }

    /// Return a list of games owned by the player.
    ///
    /// # Arguments
    ///
    /// * `steamid` - The SteamID of the player we're asking about.
    /// * `include_appinfo` - True if we want additional details (name, icon) about each game.
    /// * `include_played_free_games` - Free games are excluded by default. If this is set, free games the user has played will be returned.
    /// * `appids_filter` - If not empty, restricts the result set to the passed in apps.
    /// * `include_extended_appinfo` - True if we want even more details (capsule, sortas, and capabilities) about each game. `include_appinfo` must also be true.
    /// * `transport` - Performs the GET of the URL it is given. It is called once.
    pub fn get_owned_games<F: Fn(&str) -> Result<Response, TransportFailure>>(
        &self,
        steamid: SteamId,
        include_appinfo: bool,
        include_played_free_games: bool,
        appids_filter: Vec<u32>,
        include_extended_appinfo: bool,
        transport: F,
    ) -> (r: Result<OwnedGames, PlayerServiceError>)
        requires
            forall|url: &str|
                url@ == call_url(
                    self.base(),
                    call_query(
                        self.key(),
                        steamid.value(),
                        include_appinfo,
                        include_played_free_games,
                        appids_filter@,
                        include_extended_appinfo,
                    ),
                ) ==> call_requires(transport, (url,)),
        ensures
            exists|url: &str, outcome: Result<Response, TransportFailure>|
                url@ == call_url(
                    self.base(),
                    call_query(
                        self.key(),
                        steamid.value(),
                        include_appinfo,
                        include_played_free_games,
                        appids_filter@,
                        include_extended_appinfo,
                    ),
                ) && #[trigger] call_ensures(transport, (url,), outcome) && payload_view(r)
                    == call_result(outcome),
    {
        let url = self.get_owned_games_url(
            steamid,
            include_appinfo,
            include_played_free_games,
            appids_filter,
            include_extended_appinfo,
        )?;
        finish(invoke(url.as_str(), &transport))
    }
}

} // verus!
