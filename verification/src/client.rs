//! The session core: the connection lifecycle state machine, the dispatcher
//! of inbound frames, and the user intents.
//!
//! The core owns no channel, canvas or chat panel. Intents hand back the
//! frames to send; transport signals and inbound frames come in as calls and
//! yield effects — instructions the surrounding layer performs. One
//! dispatcher step is specified whole by `spec_dispatch`: what the session
//! becomes and which effects leave, for every message and prior state.

use vstd::prelude::*;

use crate::heartbeat::HeartbeatMonitor;
use crate::json::JsonV;
use crate::json::JsonVal;
use crate::json::spec_parse_json;
use crate::protocol::spec_decode_players;
use crate::pending::PendingEntry;
use crate::pending::PendingIndex;
use crate::protocol::ClientError;
use crate::protocol::GRID_SIZE;
use crate::protocol::Message;
use crate::protocol::MessageV;
use crate::protocol::Player;
use crate::protocol::PlayerV;
use crate::protocol::decode_frame;
use crate::protocol::encode_chat;
use crate::protocol::encode_join;
use crate::protocol::encode_move;
use crate::protocol::spec_chat_frame;
use crate::protocol::spec_decode_frame;
use crate::protocol::spec_join_frame;
use crate::protocol::spec_move_frame;
use crate::text::norm_key;
use crate::text::normalize_key;
use crate::timefmt::spec_stamp_clock;
use crate::timefmt::stamp_clock;
use crate::world::WorldState;
use crate::world::snapshot_map;

verus! {

/// The lifecycle of the channel. A session starts `Idle`, moves to
/// `Connecting` on a connect intent, `Open` on the transport's open signal,
/// and ends in `Closed` or `Errored`; a finished session is not reusable.
#[derive(Debug, Clone, Copy, PartialEq, Eq, Structural)]
pub enum ConnectionState {
    Idle,
    Connecting,
    Open,
    Closing,
    Closed,
    Errored,
}

/// Whether reaching `Open` sends the join frame at once, or defers joining
/// to an explicit intent.
#[derive(Debug, Clone, Copy, PartialEq, Eq, Structural)]
pub enum JoinMode {
    AutoJoin,
    Lobby,
}

/// One instruction to the surrounding layer.
#[derive(Debug, PartialEq, Eq)]
pub enum Effect {
    /// Send this frame on the channel.
    Send(String),
    /// Append this line to the chat panel.
    ChatLine(String),
    /// Remove the provisional placeholder with this handle.
    RetirePlaceholder(u64),
    /// A measured round-trip time, in milliseconds.
    Latency(u64),
    /// Release the channel.
    CloseTransport,
}

/// The model of an effect.
#[verifier::ext_equal]
pub enum EffectV {
    Send(Seq<char>),
    ChatLine(Seq<char>),
    RetirePlaceholder(u64),
    Latency(u64),
    CloseTransport,
}

impl View for Effect {
    type V = EffectV;

    open spec fn view(&self) -> EffectV {
        match self {
            Effect::Send(s) => EffectV::Send(s@),
            Effect::ChatLine(s) => EffectV::ChatLine(s@),
            Effect::RetirePlaceholder(id) => EffectV::RetirePlaceholder(*id),
            Effect::Latency(ms) => EffectV::Latency(*ms),
            Effect::CloseTransport => EffectV::CloseTransport,
        }
    }
}

/// The model of a sequence of effects.
pub open spec fn effects_view(es: Seq<Effect>) -> Seq<EffectV> {
    Seq::new(es.len(), |i: int| es[i]@)
}

/// The provisional placeholder a chat send creates: the handle under which
/// it can later be retired, and the line the panel shows meanwhile.
#[derive(Debug)]
pub struct Placeholder {
    pub id: u64,
    pub line: String,
}

/// The model of a placeholder.
#[verifier::ext_equal]
pub struct PlaceholderV {
    pub id: u64,
    pub line: Seq<char>,
}

impl View for Placeholder {
    type V = PlaceholderV;

    open spec fn view(&self) -> PlaceholderV {
        PlaceholderV { id: self.id, line: self.line@ }
    }
}

/// What a chat send hands the surrounding layer: the frame for the channel,
/// and a placeholder for real chat text (none for a probe).
#[derive(Debug)]
pub struct ChatSend {
    pub frame: String,
    pub placeholder: Option<Placeholder>,
}

/// The model of a chat send.
#[verifier::ext_equal]
pub struct ChatSendV {
    pub frame: Seq<char>,
    pub placeholder: Option<PlaceholderV>,
}

impl View for ChatSend {
    type V = ChatSendV;

    open spec fn view(&self) -> ChatSendV {
        ChatSendV {
            frame: self.frame@,
            placeholder: match &self.placeholder {
                Some(p) => Some(p@),
                None => None,
            },
        }
    }
}

/// The model of a whole session.
#[verifier::ext_equal]
pub struct ClientV {
    pub username: Seq<char>,
    pub room: Seq<char>,
    pub state: ConnectionState,
    pub mode: JoinMode,
    pub world: Map<Seq<char>, PlayerV>,
    pub pending: Map<Seq<char>, PendingEntry>,
    pub outstanding: Option<u64>,
    pub next_placeholder: u64,
    pub close_code: Option<u16>,
    pub close_reason: Option<Seq<char>>,
}

/// A sentinel probe body: a reserved minimal chat payload used purely for
/// latency measurement.
pub open spec fn is_probe_text(s: Seq<char>) -> bool {
    s == "p"@ || s == "__ping__"@
}

fn is_probe(s: &str) -> (r: bool)
    ensures
        r == is_probe_text(s@),
{
    let t = s.to_owned();
    t == String::from_str("p") || t == String::from_str("__ping__")
}

/// The line the chat panel shows for an authoritative message.
pub open spec fn spec_chat_line(
    ts: Option<Seq<char>>,
    username: Seq<char>,
    text: Seq<char>,
    now_ms: u64,
) -> Seq<char> {
    "["@ + spec_stamp_clock(ts, now_ms) + "] "@ + username + ": "@ + text
}

fn chat_line(ts: &Option<String>, username: &str, text: &str, now_ms: u64) -> (r: String)
    ensures
        r@ == spec_chat_line(
            match ts {
                Some(t) => Some(t@),
                None => None,
            },
            username@,
            text@,
            now_ms,
        ),
{
    let clock = stamp_clock(ts, now_ms);
    let mut out = String::from_str("[");
    out.append(clock.as_str());
    out.append("] ");
    out.append(username);
    out.append(": ");
    out.append(text);
    out
}

/// The provisional line the chat panel shows while a send is unconfirmed.
pub open spec fn spec_pending_line(username: Seq<char>, text: Seq<char>, now_ms: u64) -> Seq<
    char,
> {
    "["@ + spec_stamp_clock(None, now_ms) + "] "@ + username + ": "@ + text + " [SENDING...]"@
}

fn pending_line(username: &str, text: &str, now_ms: u64) -> (r: String)
    ensures
        r@ == spec_pending_line(username@, text@, now_ms),
{
    let clock = stamp_clock(&None, now_ms);
    let mut out = String::from_str("[");
    out.append(clock.as_str());
    out.append("] ");
    out.append(username);
    out.append(": ");
    out.append(text);
    out.append(" [SENDING...]");
    out
}

/// The placeholder handle after `n`: the next counter value, wrapping.
pub open spec fn next_id(n: u64) -> u64 {
    if n == u64::MAX {
        0
    } else {
        (n + 1) as u64
    }
}

/// The record an optimistic move writes for the local player: the known
/// record moved to `(x, y)`, or a fresh default record there.
pub open spec fn moved_self(c: ClientV, x: u32, y: u32) -> PlayerV {
    if c.world.contains_key(c.username) {
        PlayerV {
            username: c.username,
            x,
            y,
            room: c.world[c.username].room,
            health: c.world[c.username].health,
            resources: c.world[c.username].resources,
        }
    } else {
        PlayerV { username: c.username, x, y, room: c.room, health: 100, resources: 0 }
    }
}

/// One dispatcher step: the session after an inbound message, and the
/// effects that leave. Player lifecycle and snapshot messages mutate the
/// world unless the session is in lobby mode; a chat echo is first held
/// against the sentinel (a probe echo from the local user resolves the
/// latency measurement and never reaches the chat panel), then against the
/// pending index (a hit retires the placeholder before the authoritative
/// line is shown); a server error is always surfaced and never fatal;
/// outbound-direction messages are ignored.
pub open spec fn spec_dispatch(c: ClientV, m: MessageV, now_ms: u64) -> (ClientV, Seq<EffectV>) {
    match m {
        MessageV::PlayerJoined { username, x, y } => if c.mode is Lobby {
            (c, Seq::empty())
        } else {
            (
                ClientV {
                    world: c.world.insert(
                        username,
                        PlayerV { username, x, y, room: c.room, health: 100, resources: 0 },
                    ),
                    ..c
                },
                Seq::empty(),
            )
        },
        MessageV::PlayerUpdate { username, x, y, health, resources } => if c.mode is Lobby {
            (c, Seq::empty())
        } else {
            (
                ClientV {
                    world: c.world.insert(
                        username,
                        PlayerV { username, x, y, room: c.room, health, resources },
                    ),
                    ..c
                },
                Seq::empty(),
            )
        },
        MessageV::PlayerLeft { username } => if c.mode is Lobby {
            (c, Seq::empty())
        } else {
            (ClientV { world: c.world.remove(username), ..c }, Seq::empty())
        },
        MessageV::GameState { players } => if c.mode is Lobby {
            (c, Seq::empty())
        } else {
            (ClientV { world: snapshot_map(players), ..c }, Seq::empty())
        },
        MessageV::ChatMessage { username, text, timestamp, room } => {
            if username == c.username && is_probe_text(norm_key(text)) {
                match c.outstanding {
                    Some(t0) => (
                        ClientV { outstanding: None, ..c },
                        seq![
                            EffectV::Latency(
                                if now_ms >= t0 {
                                    (now_ms - t0) as u64
                                } else {
                                    0u64
                                },
                            ),
                        ],
                    ),
                    None => (c, Seq::empty()),
                }
            } else {
                let line = EffectV::ChatLine(spec_chat_line(timestamp, username, text, now_ms));
                let key = norm_key(text);
                if c.pending.contains_key(key) {
                    (
                        ClientV { pending: c.pending.remove(key), ..c },
                        seq![EffectV::RetirePlaceholder(c.pending[key].placeholder), line],
                    )
                } else {
                    (c, seq![line])
                }
            }
        },
        MessageV::ErrorMsg { text } => (c, seq![EffectV::ChatLine("Error: "@ + text)]),
        MessageV::Join { .. } => (c, Seq::empty()),
        MessageV::Move { .. } => (c, Seq::empty()),
        MessageV::Chat { .. } => (c, Seq::empty()),
    }
}

/// A probe echoed back to its sender is routed to latency measurement and
/// never to chat display: dispatching a chat echo whose username is the
/// local identity and whose normalized text is a sentinel body yields no
/// chat line, and neither the pending index nor the player table moves.
pub proof fn lemma_probe_echo_silent(
    c: ClientV,
    username: Seq<char>,
    text: Seq<char>,
    timestamp: Option<Seq<char>>,
    room: Seq<char>,
    now_ms: u64,
)
    ensures
        username == c.username && is_probe_text(norm_key(text)) ==> ({
            let step = spec_dispatch(
                c,
                MessageV::ChatMessage { username, text, timestamp, room },
                now_ms,
            );
            &&& forall|i: int| 0 <= i < step.1.len() ==> !(#[trigger] step.1[i] is ChatLine)
            &&& step.0.pending == c.pending
            &&& step.0.world == c.world
        }),
{
    if username == c.username && is_probe_text(norm_key(text)) {
        let step = spec_dispatch(
            c,
            MessageV::ChatMessage { username, text, timestamp, room },
            now_ms,
        );
        match c.outstanding {
            Some(t0) => {
                assert(step.1.len() == 1);
                assert(step.1[0] is Latency);
            },
            None => {
                assert(step.1.len() == 0);
            },
        }
    }
}

/// The session core.
pub struct IronVeinClient {
    username: String,
    room: String,
    state: ConnectionState,
    mode: JoinMode,
    world: WorldState,
    pending: PendingIndex,
    heartbeat: HeartbeatMonitor,
    next_placeholder: u64,
    close_code: Option<u16>,
    close_reason: Option<String>,
}

impl View for IronVeinClient {
    type V = ClientV;

    closed spec fn view(&self) -> ClientV {
        ClientV {
            username: self.username@,
            room: self.room@,
            state: self.state,
            mode: self.mode,
            world: self.world@,
            pending: self.pending@,
            outstanding: self.heartbeat.outstanding(),
            next_placeholder: self.next_placeholder,
            close_code: self.close_code,
            close_reason: match self.close_reason {
                Some(s) => Some(s@),
                None => None,
            },
        }
    }
}

impl IronVeinClient {
    /// Well-formedness: the player table and the pending index each hold at
    /// most one entry per key. Constructors establish it and every method
    /// preserves it.
    pub closed spec fn wf(self) -> bool {
        self.world.wf() && self.pending.wf()
    }

    /// A fresh session: idle, with no identity, an empty room and nothing
    /// pending.
    pub fn new() -> (c: IronVeinClient)
        ensures
            c.wf(),
            c@.username.len() == 0,
            c@.room.len() == 0,
            c@.state == ConnectionState::Idle,
            c@.mode == JoinMode::AutoJoin,
            c@.world == Map::<Seq<char>, PlayerV>::empty(),
            c@.pending == Map::<Seq<char>, PendingEntry>::empty(),
            c@.outstanding is None,
            c@.next_placeholder == 0,
            c@.close_code is None,
            c@.close_reason is None,
    {
        IronVeinClient {
            username: String::new(),
            room: String::new(),
            state: ConnectionState::Idle,
            mode: JoinMode::AutoJoin,
            world: WorldState::new(),
            pending: PendingIndex::new(),
            heartbeat: HeartbeatMonitor::new(),
            next_placeholder: 0,
            close_code: None,
            close_reason: None,
        }
    }

    /// Fixes the identity of the connection attempt. The identity is
    /// immutable once an attempt starts, so it can only be set while idle.
    pub fn set_user_info(&mut self, username: &str, room: &str)
        requires
            old(self).wf(),
            old(self)@.state is Idle,
        ensures
            final(self).wf(),
            final(self)@ == (ClientV { username: username@, room: room@, ..old(self)@ }),
    {
        self.username = username.to_owned();
        self.room = room.to_owned();
    }

    /// Starts a connection attempt that joins the room as soon as the
    /// channel opens. Allowed only for an idle session with a non-empty
    /// identity; in particular a connecting, open or finished session
    /// refuses a second attempt.
    pub fn connect(&mut self) -> (r: Result<(), ClientError>)
        requires
            old(self).wf(),
        ensures
            final(self).wf(),
            ({
                let ok = old(self)@.state is Idle && old(self)@.username.len() > 0 && old(self)@.room.len() > 0;
                if ok {
                    r == Ok::<(), ClientError>(()) && final(self)@ == (ClientV {
                        state: ConnectionState::Connecting,
                        mode: JoinMode::AutoJoin,
                        ..old(self)@
                    })
                } else {
                    r == Err::<(), ClientError>(ClientError::InvalidState) && final(self)@ == old(self)@
                }
            }),
    {
        if matches!(self.state, ConnectionState::Idle) && !self.username.as_str().is_empty()
            && !self.room.as_str().is_empty() {
            self.mode = JoinMode::AutoJoin;
            self.state = ConnectionState::Connecting;
            Ok(())
        } else {
            Err(ClientError::InvalidState)
        }
    }

    /// Starts a connection attempt in lobby mode: the channel opens without
    /// joining the battle, which an explicit `join_battle` does later.
    pub fn connect_to_server(&mut self) -> (r: Result<(), ClientError>)
        requires
            old(self).wf(),
        ensures
            final(self).wf(),
            ({
                let ok = old(self)@.state is Idle && old(self)@.username.len() > 0 && old(self)@.room.len() > 0;
                if ok {
                    r == Ok::<(), ClientError>(()) && final(self)@ == (ClientV {
                        state: ConnectionState::Connecting,
                        mode: JoinMode::Lobby,
                        ..old(self)@
                    })
                } else {
                    r == Err::<(), ClientError>(ClientError::InvalidState) && final(self)@ == old(self)@
                }
            }),
    {
        if matches!(self.state, ConnectionState::Idle) && !self.username.as_str().is_empty()
            && !self.room.as_str().is_empty() {
            self.mode = JoinMode::Lobby;
            self.state = ConnectionState::Connecting;
            Ok(())
        } else {
            Err(ClientError::InvalidState)
        }
    }

    /// The join frame to send for an explicit join intent, owed exactly
    /// while the channel is open; otherwise `NotConnected`.
    pub fn join_battle(&self) -> (r: Result<String, ClientError>)
        ensures
            self@.state is Open ==> (r matches Ok(f) && f@ == spec_join_frame(
                self@.username,
                self@.room,
            )),
            !(self@.state is Open) ==> r == Err::<String, ClientError>(ClientError::NotConnected),
    {
        if matches!(self.state, ConnectionState::Open) {
            Ok(encode_join(self.username.as_str(), self.room.as_str()))
        } else {
            Err(ClientError::NotConnected)
        }
    }

    /// A move intent: the move frame to send, owed exactly while the channel
    /// is open, and the optimistic update — the local player stands at
    /// `(x, y)` at once, before any server round trip; a later authoritative
    /// update for the same username simply overwrites it.
    pub fn send_move_command(&mut self, x: u32, y: u32) -> (r: Result<String, ClientError>)
        requires
            old(self).wf(),
            x < GRID_SIZE,
            y < GRID_SIZE,
        ensures
            final(self).wf(),
            old(self)@.state is Open ==> (r matches Ok(f) && f@ == spec_move_frame(
                old(self)@.username,
                x,
                y,
                old(self)@.room,
            ) && final(self)@ == (ClientV {
                world: old(self)@.world.insert(old(self)@.username, moved_self(old(self)@, x, y)),
                ..old(self)@
            })),
            !(old(self)@.state is Open) ==> r == Err::<String, ClientError>(
                ClientError::NotConnected,
            ) && final(self)@ == old(self)@,
    {
        if matches!(self.state, ConnectionState::Open) {
            let frame = encode_move(self.username.as_str(), x, y, self.room.as_str());
            let existing = match self.world.get(&self.username) {
                Some(pl) => Some(pl.clone()),
                None => None,
            };
            let p = match existing {
                Some(pl) => Player {
                    username: self.username.clone(),
                    x,
                    y,
                    room: pl.room,
                    health: pl.health,
                    resources: pl.resources,
                },
                None => Player {
                    username: self.username.clone(),
                    x,
                    y,
                    room: self.room.clone(),
                    health: 100,
                    resources: 0,
                },
            };
            self.world.upsert(p);
            Ok(frame)
        } else {
            Err(ClientError::NotConnected)
        }
    }

    /// A chat intent, also carrying probes. A sentinel body is a probe: sent
    /// silently while open, dropped silently otherwise, never registered as
    /// pending. Real chat text while the channel is not open yields
    /// `NotConnected` and hands nothing to the channel; while open it yields
    /// the frame together with a fresh placeholder, and the text becomes
    /// pending under its normalized key until the authoritative echo.
    pub fn send_message(&mut self, message: &str, now_ms: u64) -> (r: Result<
        Option<ChatSend>,
        ClientError,
    >)
        requires
            old(self).wf(),
        ensures
            final(self).wf(),
            is_probe_text(message@) && !(old(self)@.state is Open) ==> (r matches Ok(cs) && cs
                is None && final(self)@ == old(self)@),
            is_probe_text(message@) && old(self)@.state is Open ==> (r matches Ok(cs) && (cs matches
                Some(c) && c@.frame == spec_chat_frame(
                old(self)@.username,
                message@,
                old(self)@.room,
            ) && c@.placeholder is None) && final(self)@ == old(self)@),
            !is_probe_text(message@) && !(old(self)@.state is Open) ==> r == Err::<
                Option<ChatSend>,
                ClientError,
            >(ClientError::NotConnected) && final(self)@ == old(self)@,
            !is_probe_text(message@) && old(self)@.state is Open ==> (r matches Ok(cs) && (cs
                matches Some(c) && c@.frame == spec_chat_frame(
                old(self)@.username,
                message@,
                old(self)@.room,
            ) && (c@.placeholder matches Some(ph) && ph.id == old(self)@.next_placeholder
                && ph.line == spec_pending_line(old(self)@.username, message@, now_ms))) && final(self)@ == (ClientV {
                pending: old(self)@.pending.insert(
                    norm_key(message@),
                    PendingEntry { placeholder: old(self)@.next_placeholder, sent_at: now_ms },
                ),
                next_placeholder: next_id(old(self)@.next_placeholder),
                ..old(self)@
            })),
    {
        let probe = is_probe(message);
        if probe {
            if matches!(self.state, ConnectionState::Open) {
                let frame = encode_chat(self.username.as_str(), message, self.room.as_str());
                Ok(Some(ChatSend { frame, placeholder: None }))
            } else {
                Ok(None)
            }
        } else {
            if matches!(self.state, ConnectionState::Open) {
                let frame = encode_chat(self.username.as_str(), message, self.room.as_str());
                let id = self.next_placeholder;
                let line = pending_line(self.username.as_str(), message, now_ms);
                self.pending.register(message, id, now_ms);
                self.next_placeholder = if self.next_placeholder == u64::MAX {
                    0
                } else {
                    self.next_placeholder + 1
                };
                Ok(Some(ChatSend { frame, placeholder: Some(Placeholder { id, line }) }))
            } else {
                Err(ClientError::NotConnected)
            }
        }
    }

    /// Unwinds a chat send whose synchronous send signal reported failure:
    /// the placeholder is retired again and a failure line shown. A failed
    /// probe is swallowed.
    pub fn chat_send_failed(&mut self, message: &str) -> (effs: Vec<Effect>)
        requires
            old(self).wf(),
        ensures
            final(self).wf(),
            is_probe_text(message@) ==> final(self)@ == old(self)@ && effects_view(effs@)
                == Seq::<EffectV>::empty(),
            !is_probe_text(message@) ==> final(self)@ == (ClientV {
                pending: old(self)@.pending.remove(norm_key(message@)),
                ..old(self)@
            }) && effects_view(effs@) == (if old(self)@.pending.contains_key(norm_key(message@)) {
                seq![
                    EffectV::RetirePlaceholder(
                        old(self)@.pending[norm_key(message@)].placeholder,
                    ),
                    EffectV::ChatLine("Failed to send message - connection lost"@),
                ]
            } else {
                seq![EffectV::ChatLine("Failed to send message - connection lost"@)]
            }),
    {
        let mut effs: Vec<Effect> = Vec::new();
        let probe = is_probe(message);
        if probe {
            proof {
                assert(effects_view(effs@) =~= Seq::<EffectV>::empty());
            }
            return effs;
        }
        let entry = self.pending.retire(message);
        match entry {
            Some(e) => {
                effs.push(Effect::RetirePlaceholder(e.placeholder));
            },
            None => {
                proof {
                    assert(old(self)@.pending =~= old(self)@.pending.remove(norm_key(message@)));
                }
            },
        }
        effs.push(Effect::ChatLine(String::from_str(
            "Failed to send message - connection lost",
        )));
        proof {
            if old(self)@.pending.contains_key(norm_key(message@)) {
                assert(effects_view(effs@) =~= seq![
                    EffectV::RetirePlaceholder(
                        old(self)@.pending[norm_key(message@)].placeholder,
                    ),
                    EffectV::ChatLine("Failed to send message - connection lost"@),
                ]);
            } else {
                assert(effects_view(effs@) =~= seq![
                    EffectV::ChatLine("Failed to send message - connection lost"@),
                ]);
            }
        }
        effs
    }

    /// A latency probe at a given moment: the probe frame, owed exactly
    /// while the channel is open with no probe already in flight — probes
    /// are serialized — and silence otherwise.
    pub fn send_ping_at(&mut self, now_ms: u64) -> (r: Option<String>)
        requires
            old(self).wf(),
        ensures
            final(self).wf(),
            old(self)@.state is Open && old(self)@.outstanding is None ==> (r matches Some(f) && f@
                == spec_chat_frame(old(self)@.username, "p"@, old(self)@.room) && final(self)@
                == (ClientV { outstanding: Some(now_ms), ..old(self)@ })),
            !(old(self)@.state is Open && old(self)@.outstanding is None) ==> r is None && final(self)@ == old(self)@,
    {
        if matches!(self.state, ConnectionState::Open) {
            if self.heartbeat.try_begin_probe(now_ms) {
                Some(encode_chat(self.username.as_str(), "p", self.room.as_str()))
            } else {
                None
            }
        } else {
            None
        }
    }

    /// The transport's open signal: a connecting session opens, and in
    /// auto-join mode the join frame leaves at once; lobby mode reaches
    /// `Open` without joining. Any other state ignores the signal.
    pub fn on_open(&mut self) -> (effs: Vec<Effect>)
        requires
            old(self).wf(),
        ensures
            final(self).wf(),
            old(self)@.state is Connecting ==> final(self)@ == (ClientV {
                state: ConnectionState::Open,
                ..old(self)@
            }) && effects_view(effs@) == (if old(self)@.mode is AutoJoin {
                seq![EffectV::Send(spec_join_frame(old(self)@.username, old(self)@.room))]
            } else {
                Seq::<EffectV>::empty()
            }),
            !(old(self)@.state is Connecting) ==> final(self)@ == old(self)@ && effects_view(
                effs@,
            ) == Seq::<EffectV>::empty(),
    {
        let mut effs: Vec<Effect> = Vec::new();
        proof {
            assert(effects_view(effs@) =~= Seq::<EffectV>::empty());
        }
        if matches!(self.state, ConnectionState::Connecting) {
            self.state = ConnectionState::Open;
            if matches!(self.mode, JoinMode::AutoJoin) {
                let f = encode_join(self.username.as_str(), self.room.as_str());
                effs.push(Effect::Send(f));
                proof {
                    assert(effects_view(effs@) =~= seq![
                        EffectV::Send(spec_join_frame(old(self)@.username, old(self)@.room)),
                    ]);
                }
            }
        }
        effs
    }

    /// The transport's error signal: a connecting or open session moves to
    /// `Errored` — no automatic retry — and a connection-error line is
    /// surfaced; recovery is the surrounding layer's concern.
    pub fn on_error(&mut self) -> (effs: Vec<Effect>)
        requires
            old(self).wf(),
        ensures
            final(self).wf(),
            final(self)@ == (ClientV {
                state: if old(self)@.state is Connecting || old(self)@.state is Open {
                    ConnectionState::Errored
                } else {
                    old(self)@.state
                },
                ..old(self)@
            }),
            effects_view(effs@) == seq![
                EffectV::ChatLine("Connection error - please refresh to reconnect"@),
            ],
    {
        if matches!(self.state, ConnectionState::Connecting | ConnectionState::Open) {
            self.state = ConnectionState::Errored;
        }
        let mut effs: Vec<Effect> = Vec::new();
        effs.push(
            Effect::ChatLine(String::from_str("Connection error - please refresh to reconnect")),
        );
        proof {
            assert(effects_view(effs@) =~= seq![
                EffectV::ChatLine("Connection error - please refresh to reconnect"@),
            ]);
        }
        effs
    }

    /// The transport's close signal, normal or abnormal: the session ends in
    /// `Closed`, the numeric close code and reason are recorded, any probe
    /// in flight is forgotten, and a connection-lost line is surfaced. There
    /// is no automatic reconnect.
    pub fn on_close(&mut self, code: u16, reason: &str) -> (effs: Vec<Effect>)
        requires
            old(self).wf(),
        ensures
            final(self).wf(),
            final(self)@ == (ClientV {
                state: ConnectionState::Closed,
                outstanding: None,
                close_code: Some(code),
                close_reason: Some(reason@),
                ..old(self)@
            }),
            effects_view(effs@) == seq![
                EffectV::ChatLine("Connection lost. Please refresh to reconnect."@),
            ],
    {
        self.state = ConnectionState::Closed;
        self.close_code = Some(code);
        self.close_reason = Some(reason.to_owned());
        self.heartbeat.reset();
        let mut effs: Vec<Effect> = Vec::new();
        effs.push(
            Effect::ChatLine(String::from_str("Connection lost. Please refresh to reconnect.")),
        );
        proof {
            assert(effects_view(effs@) =~= seq![
                EffectV::ChatLine("Connection lost. Please refresh to reconnect."@),
            ]);
        }
        effs
    }

    /// Ends the session deliberately: deterministically `Closed` from any
    /// prior state, safe to repeat, and the channel is released exactly once
    /// — only a session that still held the channel emits the release
    /// instruction, a second call emits nothing.
    pub fn disconnect(&mut self) -> (effs: Vec<Effect>)
        requires
            old(self).wf(),
        ensures
            final(self).wf(),
            final(self)@ == (ClientV {
                state: ConnectionState::Closed,
                outstanding: None,
                ..old(self)@
            }),
            effects_view(effs@) == (if old(self)@.state is Connecting || old(self)@.state is Open
                || old(self)@.state is Closing {
                seq![EffectV::CloseTransport]
            } else {
                Seq::<EffectV>::empty()
            }),
    {
        let mut effs: Vec<Effect> = Vec::new();
        if matches!(
            self.state,
            ConnectionState::Connecting | ConnectionState::Open | ConnectionState::Closing,
        ) {
            self.state = ConnectionState::Closing;
            effs.push(Effect::CloseTransport);
            proof {
                assert(effects_view(effs@) =~= seq![EffectV::CloseTransport]);
            }
        } else {
            proof {
                assert(effects_view(effs@) =~= Seq::<EffectV>::empty());
            }
        }
        self.state = ConnectionState::Closed;
        self.heartbeat.reset();
        effs
    }

    /// One inbound frame: decoded strictly, then dispatched. A malformed or
    /// unrecognized frame yields `ProtocolError` and changes nothing — it
    /// can neither crash the session nor corrupt the table. A decoded
    /// message steps the session exactly as `spec_dispatch` says.
    pub fn on_frame(&mut self, frame: &str, now_ms: u64) -> (r: Result<Vec<Effect>, ClientError>)
        requires
            old(self).wf(),
        ensures
            final(self).wf(),
            match r {
                Ok(effs) => spec_decode_frame(frame@) matches Some(m) && final(self)@
                    == spec_dispatch(old(self)@, m, now_ms).0 && effects_view(effs@)
                    == spec_dispatch(old(self)@, m, now_ms).1,
                Err(e) => spec_decode_frame(frame@) is None && e == ClientError::ProtocolError
                    && final(self)@ == old(self)@,
            },
    {
        let msg = match decode_frame(frame) {
            Ok(m) => m,
            Err(e) => {
                return Err(e);
            },
        };
        let ghost mv = msg@;
        let ghost c0 = self@;
        let mut effs: Vec<Effect> = Vec::new();
        proof {
            assert(effects_view(effs@) =~= Seq::<EffectV>::empty());
        }
        match msg {
            Message::PlayerJoined { username, x, y } => {
                if matches!(self.mode, JoinMode::Lobby) {
                } else {
                    let p = Player {
                        username,
                        x,
                        y,
                        room: self.room.clone(),
                        health: 100,
                        resources: 0,
                    };
                    self.world.upsert(p);
                }
                proof {
                    assert(self@ =~= spec_dispatch(c0, mv, now_ms).0);
                }
            },
            Message::PlayerUpdate { username, x, y, health, resources } => {
                if matches!(self.mode, JoinMode::Lobby) {
                } else {
                    let p = Player {
                        username,
                        x,
                        y,
                        room: self.room.clone(),
                        health,
                        resources,
                    };
                    self.world.upsert(p);
                }
                proof {
                    assert(self@ =~= spec_dispatch(c0, mv, now_ms).0);
                }
            },
            Message::PlayerLeft { username } => {
                if matches!(self.mode, JoinMode::Lobby) {
                } else {
                    self.world.remove_player(&username);
                }
                proof {
                    assert(self@ =~= spec_dispatch(c0, mv, now_ms).0);
                }
            },
            Message::GameState { players } => {
                if matches!(self.mode, JoinMode::Lobby) {
                } else {
                    self.world.replace_all(players);
                }
                proof {
                    assert(self@ =~= spec_dispatch(c0, mv, now_ms).0);
                }
            },
            Message::ChatMessage { username, text, timestamp, room: _ } => {
                let nk = normalize_key(text.as_str());
                let probe = is_probe(nk.as_str());
                let from_self = username == self.username;
                if from_self && probe {
                    let rtt = self.heartbeat.on_echo(now_ms);
                    match rtt {
                        Some(ms) => {
                            effs.push(Effect::Latency(ms));
                            proof {
                                assert(effects_view(effs@) =~= seq![EffectV::Latency(ms)]);
                            }
                        },
                        None => {},
                    }
                } else {
                    let entry = self.pending.retire(text.as_str());
                    let line = chat_line(&timestamp, username.as_str(), text.as_str(), now_ms);
                    let ghost linev = EffectV::ChatLine(
                        spec_chat_line(
                            match timestamp {
                                Some(t) => Some(t@),
                                None => None,
                            },
                            username@,
                            text@,
                            now_ms,
                        ),
                    );
                    match entry {
                        Some(e) => {
                            effs.push(Effect::RetirePlaceholder(e.placeholder));
                            effs.push(Effect::ChatLine(line));
                            proof {
                                assert(effects_view(effs@) =~= seq![
                                    EffectV::RetirePlaceholder(e.placeholder),
                                    linev,
                                ]);
                            }
                        },
                        None => {
                            effs.push(Effect::ChatLine(line));
                            proof {
                                assert(effects_view(effs@) =~= seq![linev]);
                            }
                        },
                    }
                }
                proof {
                    assert(self@ =~= spec_dispatch(c0, mv, now_ms).0);
                    assert(effects_view(effs@) =~= spec_dispatch(c0, mv, now_ms).1);
                }
            },
            Message::ErrorMsg { text } => {
                let mut line = String::from_str("Error: ");
                line.append(text.as_str());
                effs.push(Effect::ChatLine(line));
                proof {
                    assert(effects_view(effs@) =~= seq![EffectV::ChatLine("Error: "@ + text@)]);
                    assert(self@ =~= spec_dispatch(c0, mv, now_ms).0);
                }
            },
            Message::Join { .. } => {
                proof {
                    assert(self@ =~= spec_dispatch(c0, mv, now_ms).0);
                }
            },
            Message::Move { .. } => {
                proof {
                    assert(self@ =~= spec_dispatch(c0, mv, now_ms).0);
                }
            },
            Message::Chat { .. } => {
                proof {
                    assert(self@ =~= spec_dispatch(c0, mv, now_ms).0);
                }
            },
        }
        proof {
            assert(effects_view(effs@) =~= spec_dispatch(c0, mv, now_ms).1);
        }
        Ok(effs)
    }

    /// Overwrites the record for `username`, placed in the session's room:
    /// the table write behind inbound updates and local edits alike.
    pub fn update_player(&mut self, username: &str, x: u32, y: u32, health: u32, resources: u32)
        requires
            old(self).wf(),
            x < GRID_SIZE,
            y < GRID_SIZE,
        ensures
            final(self).wf(),
            final(self)@ == (ClientV {
                world: old(self)@.world.insert(
                    username@,
                    PlayerV {
                        username: username@,
                        x,
                        y,
                        room: old(self)@.room,
                        health,
                        resources,
                    },
                ),
                ..old(self)@
            }),
    {
        let p = Player {
            username: username.to_owned(),
            x,
            y,
            room: self.room.clone(),
            health,
            resources,
        };
        self.world.upsert(p);
    }

    /// Replaces the whole table from a JSON array of player records; text
    /// that does not parse as such an array leaves the table untouched.
    pub fn update_all_players(&mut self, players_json: &str)
        requires
            old(self).wf(),
        ensures
            final(self).wf(),
            match spec_parse_json(players_json@) {
                Some(JsonV::Arr(a)) => match spec_decode_players(a) {
                    Some(ps) => final(self)@ == (ClientV { world: snapshot_map(ps), ..old(self)@ }),
                    None => final(self)@ == old(self)@,
                },
                _ => final(self)@ == old(self)@,
            },
    {
        let pj = crate::json::parse_json(players_json);
        match pj {
            Some(v) => {
                match &v {
                    JsonVal::Arr(a) => {
                        proof {
                            crate::json::lemma_arr_view(*a);
                            assert(v == JsonVal::Arr(*a));
                        }
                        let ps = crate::protocol::decode_players(a);
                        match ps {
                            Some(players) => {
                                self.world.replace_all(players);
                                proof {
                                    assert(final(self)@ =~= (ClientV {
                                        world: self@.world,
                                        ..old(self)@
                                    }));
                                }
                            },
                            None => {},
                        }
                    },
                    _ => {},
                }
            },
            None => {},
        }
    }

    /// The local username.
    pub fn username(&self) -> (r: String)
        ensures
            r@ == self@.username,
    {
        self.username.clone()
    }

    /// The current room.
    pub fn room(&self) -> (r: String)
        ensures
            r@ == self@.room,
    {
        self.room.clone()
    }

    /// The lifecycle state.
    pub fn connection_state(&self) -> (r: ConnectionState)
        ensures
            r == self@.state,
    {
        self.state
    }

    /// Whether the channel is open.
    pub fn is_websocket_connected(&self) -> (r: bool)
        ensures
            r == (self@.state is Open),
    {
        matches!(self.state, ConnectionState::Open)
    }

    /// The close code the transport's close signal recorded.
    pub fn close_code(&self) -> (r: Option<u16>)
        ensures
            r == self@.close_code,
    {
        self.close_code
    }

    /// The local player's record: the distinguished "self" view into the
    /// table, never a stale copy.
    pub fn my_player(&self) -> (r: Option<Player>)
        requires
            self.wf(),
        ensures
            match r {
                Some(p) => self@.world.contains_key(self@.username) && p@ == self@.world[self@.username],
                None => !self@.world.contains_key(self@.username),
            },
    {
        match self.world.get(&self.username) {
            Some(p) => Some(p.clone()),
            None => None,
        }
    }

    /// How many players stand in the table.
    pub fn player_count(&self) -> (n: usize)
        requires
            self.wf(),
        ensures
            n == self@.world.dom().len(),
    {
        self.world.len()
    }

    /// A copy of the table for the presentation layer, each username once.
    pub fn players_snapshot(&self) -> (r: Vec<Player>)
        requires
            self.wf(),
        ensures
            r@.len() == self@.world.dom().len(),
            forall|i: int, j: int| 0 <= i < j < r@.len() ==> r@[i]@.username != r@[j]@.username,
            forall|i: int|
                0 <= i < r@.len() ==> self@.world.contains_key(#[trigger] r@[i]@.username)
                    && self@.world[r@[i]@.username] == r@[i]@,
    {
        self.world.players_snapshot()
    }

    /// Whether chat text is pending under its normalized key.
    pub fn is_pending(&self, text: &str) -> (r: bool)
        requires
            self.wf(),
        ensures
            r == self@.pending.contains_key(norm_key(text@)),
    {
        self.pending.is_pending(text)
    }

    /// A latency probe at the present moment, read from the clock.
    pub fn send_ping(&mut self) -> (r: Option<String>)
        requires
            old(self).wf(),
        ensures
            final(self).wf(),
            r is Some <==> old(self)@.state is Open && old(self)@.outstanding is None,
            r matches Some(f) ==> f@ == spec_chat_frame(
                old(self)@.username,
                "p"@,
                old(self)@.room,
            ) && final(self)@.outstanding is Some && final(self)@ == (ClientV {
                outstanding: final(self)@.outstanding,
                ..old(self)@
            }),
            r is None ==> final(self)@ == old(self)@,
    {
        let now = crate::timefmt::now_millis();
        self.send_ping_at(now)
    }
}

} // verus!
