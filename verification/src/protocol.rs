//! The tagged wire protocol: a closed set of message kinds, a strict decoder
//! for inbound frames and a canonical encoder for outbound ones.
//!
//! Decoding is strict: an unrecognized tag, a missing field, a field of the
//! wrong shape, or a grid coordinate out of range refuses the frame. Unknown
//! extra members are ignored; when a member repeats, the first occurrence
//! counts. A chat message's `id` is only checked for presence: the client
//! never reads it. Its `timestamp` may be any value; the textual content is
//! kept when it is a string, which is what the clock display consumes.

use vstd::prelude::*;

use crate::json::JsonV;
use crate::json::JsonVal;
use crate::json::lex_u32;
use crate::json::obj_view;
use crate::json::parse_json;
use crate::json::spec_lex_u32;
use crate::json::spec_parse_json;

verus! {

/// Width and height of the playing grid; coordinates lie in `[0, GRID_SIZE)`.
pub const GRID_SIZE: u32 = 64;

/// The failure taxonomy of the session core.
///
/// `ProtocolError` refuses a malformed or unrecognized frame; `NotConnected`
/// refuses a user intent attempted outside the `Open` state; `TransportError`
/// stands for a failure of the underlying channel; `InvalidState` refuses an
/// intent the lifecycle does not allow, such as a second `connect`.
#[derive(Debug, Clone, Copy, PartialEq, Eq, Structural)]
pub enum ClientError {
    ProtocolError,
    NotConnected,
    TransportError,
    InvalidState,
}

/// One player of the current room.
#[derive(Debug, PartialEq, Eq)]
pub struct Player {
    pub username: String,
    pub x: u32,
    pub y: u32,
    pub room: String,
    pub health: u32,
    pub resources: u32,
}

/// The mathematical model of a player.
#[verifier::ext_equal]
pub struct PlayerV {
    pub username: Seq<char>,
    pub x: u32,
    pub y: u32,
    pub room: Seq<char>,
    pub health: u32,
    pub resources: u32,
}

impl View for Player {
    type V = PlayerV;

    open spec fn view(&self) -> PlayerV {
        PlayerV {
            username: self.username@,
            x: self.x,
            y: self.y,
            room: self.room@,
            health: self.health,
            resources: self.resources,
        }
    }
}

impl Clone for Player {
    fn clone(&self) -> (r: Self)
        ensures
            r@ == self@,
    {
        Player {
            username: self.username.clone(),
            x: self.x,
            y: self.y,
            room: self.room.clone(),
            health: self.health,
            resources: self.resources,
        }
    }
}

/// The model of a sequence of players.
pub open spec fn players_view(ps: Seq<Player>) -> Seq<PlayerV> {
    Seq::new(ps.len(), |i: int| ps[i]@)
}

/// One protocol message. `Chat` carries the outbound `message` tag, used both
/// for chat text and for minimal-payload latency probes; `ChatMessage` is the
/// authoritative inbound echo.
#[derive(Debug, PartialEq)]
pub enum Message {
    Join { username: String, room: String },
    Move { username: String, x: u32, y: u32, room: String },
    Chat { username: String, text: String, room: String },
    ChatMessage { username: String, text: String, timestamp: Option<String>, room: String },
    PlayerJoined { username: String, x: u32, y: u32 },
    PlayerUpdate { username: String, x: u32, y: u32, health: u32, resources: u32 },
    PlayerLeft { username: String },
    GameState { players: Vec<Player> },
    ErrorMsg { text: String },
}

/// The mathematical model of a protocol message.
#[verifier::ext_equal]
pub enum MessageV {
    Join { username: Seq<char>, room: Seq<char> },
    Move { username: Seq<char>, x: u32, y: u32, room: Seq<char> },
    Chat { username: Seq<char>, text: Seq<char>, room: Seq<char> },
    ChatMessage {
        username: Seq<char>,
        text: Seq<char>,
        timestamp: Option<Seq<char>>,
        room: Seq<char>,
    },
    PlayerJoined { username: Seq<char>, x: u32, y: u32 },
    PlayerUpdate { username: Seq<char>, x: u32, y: u32, health: u32, resources: u32 },
    PlayerLeft { username: Seq<char> },
    GameState { players: Seq<PlayerV> },
    ErrorMsg { text: Seq<char> },
}

impl View for Message {
    type V = MessageV;

    open spec fn view(&self) -> MessageV {
        match self {
            Message::Join { username, room } => MessageV::Join {
                username: username@,
                room: room@,
            },
            Message::Move { username, x, y, room } => MessageV::Move {
                username: username@,
                x: *x,
                y: *y,
                room: room@,
            },
            Message::Chat { username, text, room } => MessageV::Chat {
                username: username@,
                text: text@,
                room: room@,
            },
            Message::ChatMessage { username, text, timestamp, room } => MessageV::ChatMessage {
                username: username@,
                text: text@,
                timestamp: match timestamp {
                    Some(t) => Some(t@),
                    None => None,
                },
                room: room@,
            },
            Message::PlayerJoined { username, x, y } => MessageV::PlayerJoined {
                username: username@,
                x: *x,
                y: *y,
            },
            Message::PlayerUpdate { username, x, y, health, resources } => MessageV::PlayerUpdate {
                username: username@,
                x: *x,
                y: *y,
                health: *health,
                resources: *resources,
            },
            Message::PlayerLeft { username } => MessageV::PlayerLeft { username: username@ },
            Message::GameState { players } => MessageV::GameState {
                players: players_view(players@),
            },
            Message::ErrorMsg { text } => MessageV::ErrorMsg { text: text@ },
        }
    }
}

/// The value under `key`, at its first occurrence.
pub open spec fn obj_get(o: Seq<(Seq<char>, JsonV)>, key: Seq<char>) -> Option<JsonV>
    decreases o.len(),
{
    if o.len() == 0 {
        None
    } else if o[0].0 == key {
        Some(o[0].1)
    } else {
        obj_get(o.drop_first(), key)
    }
}

fn obj_find<'a>(o: &'a Vec<(String, JsonVal)>, key: &String) -> (r: Option<&'a JsonVal>)
    ensures
        match r {
            Some(v) => obj_get(obj_view(o@), key@) == Some(v@),
            None => obj_get(obj_view(o@), key@) is None,
        },
{
    let ghost m = obj_view(o@);
    let mut i: usize = 0;
    proof {
        assert(m.skip(0) =~= m);
    }
    while i < o.len()
        invariant
            i <= o@.len(),
            m == obj_view(o@),
            obj_get(m, key@) == obj_get(m.skip(i as int), key@),
        decreases o@.len() - i,
    {
        proof {
            assert(m.skip(i as int)[0] == m[i as int]);
        }
        let pair = &o[i];
        if pair.0 == *key {
            return Some(&pair.1);
        }
        proof {
            assert(m.skip(i as int).drop_first() =~= m.skip(i + 1));
        }
        i = i + 1;
    }
    proof {
        assert(m.skip(o@.len() as int) =~= Seq::<(Seq<char>, JsonV)>::empty());
    }
    None
}

/// The string content under `key`.
pub open spec fn spec_get_str(o: Seq<(Seq<char>, JsonV)>, key: Seq<char>) -> Option<Seq<char>> {
    match obj_get(o, key) {
        Some(JsonV::Str(t)) => Some(t),
        _ => None,
    }
}

/// The unsigned integer under `key`.
pub open spec fn spec_get_u32(o: Seq<(Seq<char>, JsonV)>, key: Seq<char>) -> Option<u32> {
    match obj_get(o, key) {
        Some(JsonV::Num(lex)) => spec_lex_u32(lex),
        _ => None,
    }
}

/// The grid coordinate under `key`: an unsigned integer below `GRID_SIZE`.
pub open spec fn spec_get_coord(o: Seq<(Seq<char>, JsonV)>, key: Seq<char>) -> Option<u32> {
    match spec_get_u32(o, key) {
        Some(v) => if v < GRID_SIZE {
            Some(v)
        } else {
            None
        },
        None => None,
    }
}

fn get_str_field(o: &Vec<(String, JsonVal)>, key: &String) -> (r: Option<String>)
    ensures
        match r {
            Some(t) => spec_get_str(obj_view(o@), key@) == Some(t@),
            None => spec_get_str(obj_view(o@), key@) is None,
        },
{
    match obj_find(o, key) {
        Some(JsonVal::Str(t)) => Some(t.clone()),
        _ => None,
    }
}

fn get_u32_field(o: &Vec<(String, JsonVal)>, key: &String) -> (r: Option<u32>)
    ensures
        r == spec_get_u32(obj_view(o@), key@),
{
    match obj_find(o, key) {
        Some(JsonVal::Num(t)) => lex_u32(t.as_str()),
        _ => None,
    }
}

fn get_coord_field(o: &Vec<(String, JsonVal)>, key: &String) -> (r: Option<u32>)
    ensures
        r == spec_get_coord(obj_view(o@), key@),
{
    match get_u32_field(o, key) {
        Some(v) => if v < GRID_SIZE {
            Some(v)
        } else {
            None
        },
        None => None,
    }
}

/// One player of a `game_state` snapshot.
pub open spec fn spec_decode_player(v: JsonV) -> Option<PlayerV> {
    match v {
        JsonV::Obj(o) => match (
            spec_get_str(o, "username"@),
            spec_get_coord(o, "x"@),
            spec_get_coord(o, "y"@),
            spec_get_str(o, "room"@),
            spec_get_u32(o, "health"@),
            spec_get_u32(o, "resources"@),
        ) {
            (Some(u), Some(x), Some(y), Some(r), Some(h), Some(rs)) => Some(
                PlayerV { username: u, x, y, room: r, health: h, resources: rs },
            ),
            _ => None,
        },
        _ => None,
    }
}

/// The players of a `game_state` snapshot, in order.
pub open spec fn spec_decode_players(a: Seq<JsonV>) -> Option<Seq<PlayerV>>
    decreases a.len(),
{
    if a.len() == 0 {
        Some(Seq::empty())
    } else {
        match (spec_decode_player(a[0]), spec_decode_players(a.drop_first())) {
            (Some(p), Some(rest)) => Some(seq![p] + rest),
            _ => None,
        }
    }
}

fn decode_player(v: &JsonVal) -> (r: Option<Player>)
    ensures
        match r {
            Some(p) => spec_decode_player(v@) == Some(p@),
            None => spec_decode_player(v@) is None,
        },
{
    match v {
        JsonVal::Obj(o) => {
            proof {
                crate::json::lemma_obj_view(*o);
                assert(*v == JsonVal::Obj(*o));
            }
            let u = get_str_field(o, &String::from_str("username"));
            let x = get_coord_field(o, &String::from_str("x"));
            let y = get_coord_field(o, &String::from_str("y"));
            let rm = get_str_field(o, &String::from_str("room"));
            let h = get_u32_field(o, &String::from_str("health"));
            let rs = get_u32_field(o, &String::from_str("resources"));
            match (u, x, y, rm, h, rs) {
                (Some(u), Some(x), Some(y), Some(rm), Some(h), Some(rs)) => Some(
                    Player { username: u, x, y, room: rm, health: h, resources: rs },
                ),
                _ => None,
            }
        },
        _ => None,
    }
}

/// Prefixes the players decoded so far.
pub open spec fn prepend_players(p: Seq<PlayerV>, r: Option<Seq<PlayerV>>) -> Option<
    Seq<PlayerV>,
> {
    match r {
        Some(t) => Some(p + t),
        None => None,
    }
}

pub(crate) fn decode_players(a: &Vec<JsonVal>) -> (r: Option<Vec<Player>>)
    ensures
        match r {
            Some(ps) => spec_decode_players(crate::json::arr_view(a@)) == Some(players_view(ps@)),
            None => spec_decode_players(crate::json::arr_view(a@)) is None,
        },
{
    let ghost av = crate::json::arr_view(a@);
    let mut acc: Vec<Player> = Vec::new();
    let mut i: usize = 0;
    proof {
        assert(players_view(acc@) =~= Seq::<PlayerV>::empty());
        assert(av.skip(0) =~= av);
        assert(prepend_players(players_view(acc@), spec_decode_players(av)) == spec_decode_players(
            av,
        )) by {
            match spec_decode_players(av) {
                Some(t) => {
                    assert(players_view(acc@) + t =~= t);
                },
                None => {},
            }
        }
    }
    while i < a.len()
        invariant
            i <= a@.len(),
            av == crate::json::arr_view(a@),
            acc@.len() == i,
            spec_decode_players(av) == prepend_players(
                players_view(acc@),
                spec_decode_players(av.skip(i as int)),
            ),
        decreases a@.len() - i,
    {
        proof {
            assert(av.skip(i as int)[0] == av[i as int]);
        }
        let p = decode_player(&a[i]);
        match p {
            Some(p) => {
                proof {
                    assert(av.skip(i as int).drop_first() =~= av.skip(i + 1));
                    assert(players_view(acc@.push(p)) =~= players_view(acc@) + seq![p@]);
                    match spec_decode_players(av.skip(i + 1)) {
                        Some(t) => {
                            assert((players_view(acc@) + seq![p@]) + t =~= players_view(acc@) + (
                            seq![p@] + t));
                        },
                        None => {},
                    }
                }
                acc.push(p);
                i = i + 1;
            },
            None => {
                return None;
            },
        }
    }
    proof {
        assert(av.skip(a@.len() as int) =~= Seq::<JsonV>::empty());
        assert(match spec_decode_players(av) {
            Some(t) => t =~= players_view(acc@),
            None => false,
        });
    }
    Some(acc)
}

/// The message a parsed frame carries.
pub open spec fn spec_decode_msg(m: Option<JsonV>) -> Option<MessageV> {
    match m {
        Some(JsonV::Obj(o)) => match obj_get(o, "type"@) {
            Some(JsonV::Str(tag)) => if tag == "join"@ {
                match (spec_get_str(o, "username"@), spec_get_str(o, "room"@)) {
                    (Some(u), Some(r)) => Some(MessageV::Join { username: u, room: r }),
                    _ => None,
                }
            } else if tag == "move"@ {
                match (
                    spec_get_str(o, "username"@),
                    spec_get_coord(o, "x"@),
                    spec_get_coord(o, "y"@),
                    spec_get_str(o, "room"@),
                ) {
                    (Some(u), Some(x), Some(y), Some(r)) => Some(
                        MessageV::Move { username: u, x, y, room: r },
                    ),
                    _ => None,
                }
            } else if tag == "message"@ {
                match (
                    spec_get_str(o, "username"@),
                    spec_get_str(o, "message"@),
                    spec_get_str(o, "room"@),
                ) {
                    (Some(u), Some(t), Some(r)) => Some(
                        MessageV::Chat { username: u, text: t, room: r },
                    ),
                    _ => None,
                }
            } else if tag == "chat_message"@ {
                match (
                    obj_get(o, "id"@),
                    spec_get_str(o, "username"@),
                    spec_get_str(o, "message"@),
                    obj_get(o, "timestamp"@),
                    spec_get_str(o, "room"@),
                ) {
                    (Some(_), Some(u), Some(t), Some(ts), Some(r)) => Some(
                        MessageV::ChatMessage {
                            username: u,
                            text: t,
                            timestamp: match ts {
                                JsonV::Str(tt) => Some(tt),
                                _ => None,
                            },
                            room: r,
                        },
                    ),
                    _ => None,
                }
            } else if tag == "player_joined"@ {
                match (
                    spec_get_str(o, "username"@),
                    spec_get_coord(o, "x"@),
                    spec_get_coord(o, "y"@),
                ) {
                    (Some(u), Some(x), Some(y)) => Some(
                        MessageV::PlayerJoined { username: u, x, y },
                    ),
                    _ => None,
                }
            } else if tag == "player_update"@ {
                match (
                    spec_get_str(o, "username"@),
                    spec_get_coord(o, "x"@),
                    spec_get_coord(o, "y"@),
                    spec_get_u32(o, "health"@),
                    spec_get_u32(o, "resources"@),
                ) {
                    (Some(u), Some(x), Some(y), Some(h), Some(rs)) => Some(
                        MessageV::PlayerUpdate { username: u, x, y, health: h, resources: rs },
                    ),
                    _ => None,
                }
            } else if tag == "player_left"@ {
                match spec_get_str(o, "username"@) {
                    Some(u) => Some(MessageV::PlayerLeft { username: u }),
                    None => None,
                }
            } else if tag == "game_state"@ {
                match obj_get(o, "players"@) {
                    Some(JsonV::Arr(a)) => match spec_decode_players(a) {
                        Some(ps) => Some(MessageV::GameState { players: ps }),
                        None => None,
                    },
                    _ => None,
                }
            } else if tag == "error"@ {
                match spec_get_str(o, "message"@) {
                    Some(t) => Some(MessageV::ErrorMsg { text: t }),
                    None => None,
                }
            } else {
                None
            },
            _ => None,
        },
        _ => None,
    }
}

/// The message a frame carries, if the frame parses and its payload matches
/// the shape its tag declares.
pub open spec fn spec_decode_frame(s: Seq<char>) -> Option<MessageV> {
    spec_decode_msg(spec_parse_json(s))
}

/// Decodes one inbound frame, strictly: exactly the message that
/// `spec_decode_frame` gives, and `ProtocolError` exactly when it gives none.
pub fn decode_frame(s: &str) -> (r: Result<Message, ClientError>)
    ensures
        match r {
            Ok(m) => spec_decode_frame(s@) == Some(m@),
            Err(e) => spec_decode_frame(s@) is None && e == ClientError::ProtocolError,
        },
{
    let pj = parse_json(s);
    let v = match pj {
        Some(v) => v,
        None => {
            return Err(ClientError::ProtocolError);
        },
    };
    let o = match &v {
        JsonVal::Obj(o) => o,
        _ => {
            return Err(ClientError::ProtocolError);
        },
    };
    proof {
        crate::json::lemma_obj_view(*o);
        assert(v == JsonVal::Obj(*o));
    }
    let tag = match get_str_field(o, &String::from_str("type")) {
        Some(t) => t,
        None => {
            return Err(ClientError::ProtocolError);
        },
    };
    if tag == String::from_str("join") {
        let u = get_str_field(o, &String::from_str("username"));
        let r = get_str_field(o, &String::from_str("room"));
        match (u, r) {
            (Some(u), Some(r)) => Ok(Message::Join { username: u, room: r }),
            _ => Err(ClientError::ProtocolError),
        }
    } else if tag == String::from_str("move") {
        let u = get_str_field(o, &String::from_str("username"));
        let x = get_coord_field(o, &String::from_str("x"));
        let y = get_coord_field(o, &String::from_str("y"));
        let r = get_str_field(o, &String::from_str("room"));
        match (u, x, y, r) {
            (Some(u), Some(x), Some(y), Some(r)) => Ok(
                Message::Move { username: u, x, y, room: r },
            ),
            _ => Err(ClientError::ProtocolError),
        }
    } else if tag == String::from_str("message") {
        let u = get_str_field(o, &String::from_str("username"));
        let t = get_str_field(o, &String::from_str("message"));
        let r = get_str_field(o, &String::from_str("room"));
        match (u, t, r) {
            (Some(u), Some(t), Some(r)) => Ok(Message::Chat { username: u, text: t, room: r }),
            _ => Err(ClientError::ProtocolError),
        }
    } else if tag == String::from_str("chat_message") {
        let idp = obj_find(o, &String::from_str("id"));
        let u = get_str_field(o, &String::from_str("username"));
        let t = get_str_field(o, &String::from_str("message"));
        let tsv = obj_find(o, &String::from_str("timestamp"));
        let r = get_str_field(o, &String::from_str("room"));
        match (idp, u, t, tsv, r) {
            (Some(_), Some(u), Some(t), Some(ts), Some(r)) => {
                let timestamp = match ts {
                    JsonVal::Str(tt) => Some(tt.clone()),
                    _ => None,
                };
                Ok(Message::ChatMessage { username: u, text: t, timestamp, room: r })
            },
            _ => Err(ClientError::ProtocolError),
        }
    } else if tag == String::from_str("player_joined") {
        let u = get_str_field(o, &String::from_str("username"));
        let x = get_coord_field(o, &String::from_str("x"));
        let y = get_coord_field(o, &String::from_str("y"));
        match (u, x, y) {
            (Some(u), Some(x), Some(y)) => Ok(Message::PlayerJoined { username: u, x, y }),
            _ => Err(ClientError::ProtocolError),
        }
    } else if tag == String::from_str("player_update") {
        let u = get_str_field(o, &String::from_str("username"));
        let x = get_coord_field(o, &String::from_str("x"));
        let y = get_coord_field(o, &String::from_str("y"));
        let h = get_u32_field(o, &String::from_str("health"));
        let rs = get_u32_field(o, &String::from_str("resources"));
        match (u, x, y, h, rs) {
            (Some(u), Some(x), Some(y), Some(h), Some(rs)) => Ok(
                Message::PlayerUpdate { username: u, x, y, health: h, resources: rs },
            ),
            _ => Err(ClientError::ProtocolError),
        }
    } else if tag == String::from_str("player_left") {
        match get_str_field(o, &String::from_str("username")) {
            Some(u) => Ok(Message::PlayerLeft { username: u }),
            None => Err(ClientError::ProtocolError),
        }
    } else if tag == String::from_str("game_state") {
        let pl = obj_find(o, &String::from_str("players"));
        match pl {
            Some(JsonVal::Arr(a)) => {
                proof {
                    crate::json::lemma_arr_view(*a);
                }
                match decode_players(a) {
                    Some(ps) => Ok(Message::GameState { players: ps }),
                    None => Err(ClientError::ProtocolError),
                }
            },
            _ => Err(ClientError::ProtocolError),
        }
    } else if tag == String::from_str("error") {
        match get_str_field(o, &String::from_str("message")) {
            Some(t) => Ok(Message::ErrorMsg { text: t }),
            None => Err(ClientError::ProtocolError),
        }
    } else {
        Err(ClientError::ProtocolError)
    }
}

/// The lowercase hex or decimal digit character of `d` (`d < 16`).
pub open spec fn spec_digit_char(d: u32) -> char {
    if d < 10 {
        ((('0' as u32) + d) as u32) as char
    } else {
        ((('a' as u32) + (d - 10)) as u32) as char
    }
}

/// How one character is written inside an encoded string literal.
pub open spec fn esc_seq(c: char) -> Seq<char> {
    if c == '"' {
        seq!['\\', '"']
    } else if c == '\\' {
        seq!['\\', '\\']
    } else if c == '\u{0008}' {
        seq!['\\', 'b']
    } else if c == '\u{000C}' {
        seq!['\\', 'f']
    } else if c == '\n' {
        seq!['\\', 'n']
    } else if c == '\r' {
        seq!['\\', 'r']
    } else if c == '\t' {
        seq!['\\', 't']
    } else if (c as u32) < 0x20 {
        seq!['\\', 'u', '0', '0', spec_digit_char((c as u32) / 16), spec_digit_char(
            (c as u32) % 16,
        )]
    } else {
        seq![c]
    }
}

/// The escaped form of a whole string.
pub open spec fn spec_escape(s: Seq<char>) -> Seq<char>
    decreases s.len(),
{
    if s.len() == 0 {
        Seq::empty()
    } else {
        esc_seq(s[0]) + spec_escape(s.drop_first())
    }
}

/// A string literal as it stands on the wire: quoted and escaped.
pub open spec fn spec_quote(s: Seq<char>) -> Seq<char> {
    seq!['"'] + spec_escape(s) + seq!['"']
}

/// The decimal digits of a non-negative number.
pub open spec fn spec_dec(n: int) -> Seq<char>
    decreases n,
{
    if n < 0 {
        Seq::empty()
    } else if n < 10 {
        seq![spec_digit_char(n as u32)]
    } else {
        spec_dec(n / 10) + seq![spec_digit_char((n % 10) as u32)]
    }
}

proof fn lemma_escape_push(s: Seq<char>, c: char)
    ensures
        spec_escape(s.push(c)) == spec_escape(s) + esc_seq(c),
    decreases s.len(),
{
    if s.len() == 0 {
        assert(s.push(c).len() == 1);
        assert(s.push(c)[0] == c);
        assert(s.push(c).drop_first() =~= Seq::<char>::empty());
        assert(spec_escape(Seq::<char>::empty()) == Seq::<char>::empty());
        assert(spec_escape(s.push(c)) == esc_seq(c) + Seq::<char>::empty());
        assert(esc_seq(c) + Seq::<char>::empty() =~= Seq::<char>::empty() + esc_seq(c));
        assert(spec_escape(s.push(c)) =~= spec_escape(s) + esc_seq(c));
    } else {
        assert(s.push(c).drop_first() =~= s.drop_first().push(c));
        lemma_escape_push(s.drop_first(), c);
        assert(esc_seq(s[0]) + (spec_escape(s.drop_first()) + esc_seq(c)) =~= (esc_seq(s[0])
            + spec_escape(s.drop_first())) + esc_seq(c));
    }
}

pub(crate) fn digit_char(d: u32) -> (c: char)
    requires
        d < 16,
    ensures
        c == spec_digit_char(d),
{
    if d < 10 {
        let v: u32 = ('0' as u32) + d;
        let c = crate::text::char_from_u32(v).unwrap();
        proof {
            vstd::utf8::char_u32_cast(c, v);
        }
        c
    } else {
        let v: u32 = ('a' as u32) + (d - 10);
        let c = crate::text::char_from_u32(v).unwrap();
        proof {
            vstd::utf8::char_u32_cast(c, v);
        }
        c
    }
}

fn push_esc(out: &mut Vec<char>, c: char)
    ensures
        final(out)@ == old(out)@ + esc_seq(c),
{
    if c == '"' {
        out.push('\\');
        out.push('"');
    } else if c == '\\' {
        out.push('\\');
        out.push('\\');
    } else if c == '\u{0008}' {
        out.push('\\');
        out.push('b');
    } else if c == '\u{000C}' {
        out.push('\\');
        out.push('f');
    } else if c == '\n' {
        out.push('\\');
        out.push('n');
    } else if c == '\r' {
        out.push('\\');
        out.push('r');
    } else if c == '\t' {
        out.push('\\');
        out.push('t');
    } else if (c as u32) < 0x20 {
        out.push('\\');
        out.push('u');
        out.push('0');
        out.push('0');
        out.push(digit_char((c as u32) / 16));
        out.push(digit_char((c as u32) % 16));
    } else {
        out.push(c);
    }
    assert(final(out)@ =~= old(out)@ + esc_seq(c));
}

/// The quoted, escaped form of a string, as the encoder writes it.
pub fn quoted(s: &str) -> (r: String)
    ensures
        r@ == spec_quote(s@),
{
    let cs = crate::text::str_to_chars(s);
    let mut out: Vec<char> = Vec::new();
    out.push('"');
    let mut i: usize = 0;
    proof {
        assert(cs@.take(0) =~= Seq::<char>::empty());
        assert(out@ =~= seq!['"'] + spec_escape(cs@.take(0)));
    }
    while i < cs.len()
        invariant
            i <= cs@.len(),
            cs@ == s@,
            out@ == seq!['"'] + spec_escape(cs@.take(i as int)),
        decreases cs@.len() - i,
    {
        let c = cs[i];
        proof {
            lemma_escape_push(cs@.take(i as int), c);
            assert(cs@.take(i + 1) =~= cs@.take(i as int).push(c));
        }
        push_esc(&mut out, c);
        i = i + 1;
        proof {
            assert(out@ =~= seq!['"'] + spec_escape(cs@.take(i as int)));
        }
    }
    proof {
        assert(cs@.take(cs@.len() as int) =~= cs@);
    }
    out.push('"');
    proof {
        assert(out@ =~= spec_quote(s@));
    }
    crate::text::chars_to_string(&out)
}

/// The decimal digits of `n`, as the encoder writes them.
pub fn dec_u32(n: u32) -> (v: Vec<char>)
    ensures
        v@ == spec_dec(n as int),
    decreases n,
{
    if n < 10 {
        let mut v: Vec<char> = Vec::new();
        v.push(digit_char(n));
        proof {
            assert(v@ =~= seq![spec_digit_char(n)]);
        }
        v
    } else {
        let mut v = dec_u32(n / 10);
        v.push(digit_char(n % 10));
        proof {
            assert(v@ =~= spec_dec((n / 10) as int) + seq![spec_digit_char(n % 10)]);
        }
        v
    }
}

/// The canonical `join` frame.
pub open spec fn spec_join_frame(username: Seq<char>, room: Seq<char>) -> Seq<char> {
    "{\"type\":\"join\",\"username\":"@ + spec_quote(username) + ",\"room\":"@ + spec_quote(room)
        + "}"@
}

/// The canonical `move` frame.
pub open spec fn spec_move_frame(username: Seq<char>, x: u32, y: u32, room: Seq<char>) -> Seq<
    char,
> {
    "{\"type\":\"move\",\"username\":"@ + spec_quote(username) + ",\"x\":"@ + spec_dec(x as int)
        + ",\"y\":"@ + spec_dec(y as int) + ",\"room\":"@ + spec_quote(room) + "}"@
}

/// The canonical `message` frame, for chat text and for probes alike.
pub open spec fn spec_chat_frame(username: Seq<char>, text: Seq<char>, room: Seq<char>) -> Seq<
    char,
> {
    "{\"type\":\"message\",\"username\":"@ + spec_quote(username) + ",\"message\":"@ + spec_quote(
        text,
    ) + ",\"room\":"@ + spec_quote(room) + "}"@
}

/// Encodes the `join` frame exactly as `spec_join_frame` gives it.
pub fn encode_join(username: &str, room: &str) -> (r: String)
    ensures
        r@ == spec_join_frame(username@, room@),
{
    let mut out = String::from_str("{\"type\":\"join\",\"username\":");
    let q1 = quoted(username);
    out.append(q1.as_str());
    out.append(",\"room\":");
    let q2 = quoted(room);
    out.append(q2.as_str());
    out.append("}");
    proof {
        assert(out@ =~= spec_join_frame(username@, room@));
    }
    out
}

/// Encodes the `move` frame exactly as `spec_move_frame` gives it.
pub fn encode_move(username: &str, x: u32, y: u32, room: &str) -> (r: String)
    ensures
        r@ == spec_move_frame(username@, x, y, room@),
{
    let mut out = String::from_str("{\"type\":\"move\",\"username\":");
    let q1 = quoted(username);
    out.append(q1.as_str());
    out.append(",\"x\":");
    let xd = dec_u32(x);
    let xs = crate::text::chars_to_string(&xd);
    out.append(xs.as_str());
    out.append(",\"y\":");
    let yd = dec_u32(y);
    let ys = crate::text::chars_to_string(&yd);
    out.append(ys.as_str());
    out.append(",\"room\":");
    let q2 = quoted(room);
    out.append(q2.as_str());
    out.append("}");
    proof {
        assert(out@ =~= spec_move_frame(username@, x, y, room@));
    }
    out
}

/// Encodes the `message` frame exactly as `spec_chat_frame` gives it.
pub fn encode_chat(username: &str, text: &str, room: &str) -> (r: String)
    ensures
        r@ == spec_chat_frame(username@, text@, room@),
{
    let mut out = String::from_str("{\"type\":\"message\",\"username\":");
    let q1 = quoted(username);
    out.append(q1.as_str());
    out.append(",\"message\":");
    let q2 = quoted(text);
    out.append(q2.as_str());
    out.append(",\"room\":");
    let q3 = quoted(room);
    out.append(q3.as_str());
    out.append("}");
    proof {
        assert(out@ =~= spec_chat_frame(username@, text@, room@));
    }
    out
}

} // verus!
