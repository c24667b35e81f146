//! The gateway protocol's decisions: how a connection opens, what each
//! frame from the server or command from the client calls for, and what
//! happens between connections. The socket work is done by the front end.
use crate::app::GatewayStatus;
use crate::messages::{decimal, u128_to_decimal};
use crate::text::{concat, str_eq, blank, is_blank};
use vstd::prelude::*;

verus! {

pub const OP_DISPATCH: u8 = 0;

pub const OP_HEARTBEAT: u8 = 1;

pub const OP_IDENTIFY: u8 = 2;

pub const OP_RESUME: u8 = 6;

pub const OP_RECONNECT: u8 = 7;

pub const OP_INVALID_SESSION: u8 = 9;

pub const OP_HELLO: u8 = 10;

pub const OP_HEARTBEAT_ACK: u8 = 11;

pub const OP_LAZY_REQUEST: u8 = 14;

/// The close code that says the session can no longer be resumed.
pub const CLOSE_INVALID_SEQ: u16 = 4007;

/// A request from the client to the gateway task.
#[derive(Debug)]
pub enum GatewayCommand {
    /// Subscribe to a guild so its messages and typing notices are delivered.
    LazySubscribeGuild { guild_id: String },
    Shutdown,
}

/// Close codes after which reconnecting cannot help: authentication
/// failed, invalid shard, sharding required, invalid API version.
pub open spec fn fatal_close(code: u16) -> bool {
    code == 4004 || code == 4010 || code == 4011 || code == 4012
}

/// Whether a close code means to stop trying; see `fatal_close`.
pub fn is_fatal_close_code(code: u16) -> (r: bool)
    ensures
        r == fatal_close(code),
{
    code == 4004 || code == 4010 || code == 4011 || code == 4012
}

/// What a session keeps across connections: the id to resume and the last
/// sequence number seen.
#[derive(Debug)]
pub struct GatewaySession {
    pub resume_session_id: Option<String>,
    pub last_sequence: u64,
}

/// How a connection ended.
#[derive(Debug)]
pub enum ConnectionOutcome {
    /// Connect again, forgetting the session first when `clear_resume`.
    Reconnect { clear_resume: bool },
    /// The client asked to stop.
    Shutdown,
    /// The server refused for good, for the given reason.
    Fatal(String),
}

/// Something that happened on an open connection.
#[derive(Debug)]
pub enum ConnectionInput {
    /// The heartbeat interval elapsed.
    HeartbeatDue,
    /// A client command, or `None` when the client side went away.
    Command(Option<GatewayCommand>),
    /// The server stream ended.
    StreamEnded,
    /// The server closed the connection.
    Closed { code: u16, reason: String },
    /// A frame without text (ping, pong, raw frame).
    NotText,
    /// A payload: its opcode and sequence, its event name for a dispatch, the
    /// session id a ready event carried, and whether an invalid-session
    /// notice allows resuming.
    Payload { op: u8, seq: Option<u64>, kind: Option<String>, ready_session_id: Option<String>, resumable: bool },
}

/// What to do after an input on an open connection.
#[derive(Debug)]
pub struct ConnectionStep {
    /// Send a heartbeat carrying this sequence number.
    pub send_heartbeat: Option<u64>,
    /// Ask for the lazy subscription of this guild.
    pub lazy_subscribe: Option<String>,
    /// Pass the dispatch on to the client.
    pub forward_dispatch: bool,
    /// Show this error.
    pub report: Option<String>,
    /// End the connection this way.
    pub outcome: Option<ConnectionOutcome>,
}

/// A step that does nothing.
pub open spec fn quiet(s: ConnectionStep) -> bool {
    s.send_heartbeat is None && s.lazy_subscribe is None && !s.forward_dispatch && s.report is None
        && s.outcome is None
}

/// The text shown when the server closes: `Gateway closed: reason (code)`.
pub open spec fn closed_text(reason: Seq<char>, code: u16) -> Seq<char> {
    "Gateway closed: "@ + reason + " ("@ + decimal(code as nat) + ")"@
}

/// The reason kept for a fatal close: `reason (code)`.
pub open spec fn fatal_text(reason: Seq<char>, code: u16) -> Seq<char> {
    reason + " ("@ + decimal(code as nat) + ")"@
}

/// What an input on an open connection calls for, and what the session keeps after it.
pub open spec fn step_done(a: GatewaySession, b: GatewaySession, input: ConnectionInput, s: ConnectionStep) -> bool {
    match input {
        ConnectionInput::HeartbeatDue => b == a && s == ConnectionStep {
            send_heartbeat: Some(a.last_sequence),
            lazy_subscribe: None,
            forward_dispatch: false,
            report: None,
            outcome: None,
        },
        ConnectionInput::Command(c) => b == a && match c {
            Some(GatewayCommand::LazySubscribeGuild { guild_id }) => if guild_id@.len() > 0 {
                s.lazy_subscribe == Some(guild_id) && s.send_heartbeat is None && !s.forward_dispatch && s.report is None
                    && s.outcome is None
            } else {
                quiet(s)
            },
            _ => s.send_heartbeat is None && s.lazy_subscribe is None && !s.forward_dispatch && s.report is None
                && s.outcome == Some(ConnectionOutcome::Shutdown),
        },
        ConnectionInput::StreamEnded => b == a && s.send_heartbeat is None && s.lazy_subscribe is None
            && !s.forward_dispatch && s.report is None && s.outcome == Some(
            ConnectionOutcome::Reconnect { clear_resume: false },
        ),
        ConnectionInput::Closed { code, reason } => b == a && s.send_heartbeat is None && s.lazy_subscribe is None
            && !s.forward_dispatch && (s.report matches Some(t) && t@ == closed_text(reason@, code)) && if fatal_close(
            code,
        ) {
            s.outcome matches Some(ConnectionOutcome::Fatal(f)) && f@ == fatal_text(reason@, code)
        } else {
            s.outcome == Some(ConnectionOutcome::Reconnect { clear_resume: code == CLOSE_INVALID_SEQ })
        },
        ConnectionInput::NotText => b == a && quiet(s),
        ConnectionInput::Payload { op, seq, kind, ready_session_id, resumable } => {
            let seq_now = match seq {
                Some(v) => v,
                None => a.last_sequence,
            };
            if op == OP_DISPATCH {
                &&& b.last_sequence == seq_now
                &&& b.resume_session_id == (if kind matches Some(k) && k@ == "READY"@ && ready_session_id is Some {
                    ready_session_id
                } else {
                    a.resume_session_id
                })
                &&& s.send_heartbeat is None && s.lazy_subscribe is None && s.report is None && s.outcome is None
                &&& s.forward_dispatch == kind is Some
            } else if op == OP_HEARTBEAT {
                b == GatewaySession { last_sequence: seq_now, ..a } && s == ConnectionStep {
                    send_heartbeat: Some(seq_now),
                    lazy_subscribe: None,
                    forward_dispatch: false,
                    report: None,
                    outcome: None,
                }
            } else if op == OP_RECONNECT {
                b == GatewaySession { last_sequence: seq_now, ..a } && s.send_heartbeat is None && s.lazy_subscribe
                    is None && !s.forward_dispatch && s.report is None && s.outcome == Some(
                    ConnectionOutcome::Reconnect { clear_resume: false },
                )
            } else if op == OP_INVALID_SESSION {
                &&& if resumable {
                    b == GatewaySession { last_sequence: seq_now, ..a }
                } else {
                    b == GatewaySession { resume_session_id: None, last_sequence: 0 }
                }
                &&& s.send_heartbeat is None && s.lazy_subscribe is None && !s.forward_dispatch && s.report is None
                &&& s.outcome == Some(ConnectionOutcome::Reconnect { clear_resume: !resumable })
            } else if op == OP_HEARTBEAT_ACK || op == OP_HELLO {
                b == GatewaySession { last_sequence: seq_now, ..a } && quiet(s)
            } else {
                &&& b == GatewaySession { last_sequence: seq_now, ..a }
                &&& s.send_heartbeat is None && s.lazy_subscribe is None && !s.forward_dispatch && s.outcome is None
                &&& s.report matches Some(t) && t@ == "Unhandled gateway opcode "@ + decimal(op as nat)
            }
        },
    }
}

fn nothing() -> (s: ConnectionStep)
    ensures
        quiet(s),
{
    ConnectionStep { send_heartbeat: None, lazy_subscribe: None, forward_dispatch: false, report: None, outcome: None }
}

/// `head (code)`.
fn with_code(head: &str, code: u16) -> (r: String)
    ensures
        r@ == head@ + " ("@ + decimal(code as nat) + ")"@,
{
    let mut t = concat(head, " (");
    t.append(u128_to_decimal(code as u128).as_str());
    t.append(")");
    t
}

/// Handles an input on an open connection; see `step_done`.
pub fn connection_step(session: &mut GatewaySession, input: ConnectionInput) -> (s: ConnectionStep)
    ensures
        step_done(*old(session), *final(session), input, s),
{
    match input {
        ConnectionInput::HeartbeatDue => {
            ConnectionStep { send_heartbeat: Some(session.last_sequence), ..nothing() }
        },
        ConnectionInput::Command(c) => match c {
            Some(GatewayCommand::LazySubscribeGuild { guild_id }) => {
                if guild_id.as_str().is_empty() {
                    nothing()
                } else {
                    ConnectionStep { lazy_subscribe: Some(guild_id), ..nothing() }
                }
            },
            _ => ConnectionStep { outcome: Some(ConnectionOutcome::Shutdown), ..nothing() },
        },
        ConnectionInput::StreamEnded => {
            ConnectionStep { outcome: Some(ConnectionOutcome::Reconnect { clear_resume: false }), ..nothing() }
        },
        ConnectionInput::Closed { code, reason } => {
            let shown = with_code(concat("Gateway closed: ", reason.as_str()).as_str(), code);
            let outcome = if is_fatal_close_code(code) {
                ConnectionOutcome::Fatal(with_code(reason.as_str(), code))
            } else {
                ConnectionOutcome::Reconnect { clear_resume: code == CLOSE_INVALID_SEQ }
            };
            ConnectionStep { report: Some(shown), outcome: Some(outcome), ..nothing() }
        },
        ConnectionInput::NotText => nothing(),
        ConnectionInput::Payload { op, seq, kind, ready_session_id, resumable } => {
            if let Some(v) = seq {
                session.last_sequence = v;
            }
            if op == OP_DISPATCH {
                let forward = kind.is_some();
                if let Some(k) = &kind {
                    if str_eq(k.as_str(), "READY") && ready_session_id.is_some() {
                        session.resume_session_id = ready_session_id;
                    }
                }
                ConnectionStep { forward_dispatch: forward, ..nothing() }
            } else if op == OP_HEARTBEAT {
                ConnectionStep { send_heartbeat: Some(session.last_sequence), ..nothing() }
            } else if op == OP_RECONNECT {
                ConnectionStep { outcome: Some(ConnectionOutcome::Reconnect { clear_resume: false }), ..nothing() }
            } else if op == OP_INVALID_SESSION {
                if !resumable {
                    session.resume_session_id = None;
                    session.last_sequence = 0;
                }
                ConnectionStep { outcome: Some(ConnectionOutcome::Reconnect { clear_resume: !resumable }), ..nothing() }
            } else if op == OP_HEARTBEAT_ACK || op == OP_HELLO {
                nothing()
            } else {
                let t = concat("Unhandled gateway opcode ", u128_to_decimal(op as u128).as_str());
                ConnectionStep { report: Some(t), ..nothing() }
            }
        },
    }
}

/// How a connection introduces itself.
#[derive(Debug)]
pub enum Handshake {
    /// Resume the session with this id from this sequence number.
    Resume { session_id: String, seq: u64 },
    /// Start a new session, subscribing to a guild first when one is given.
    Identify { initial_guild_id: Option<String> },
}

/// The handshake for a new connection: resume when the session has an id,
/// else identify, passing on the first guild unless it is blank.
pub open spec fn handshake_for(s: GatewaySession, initial: Option<String>, h: Handshake) -> bool {
    match s.resume_session_id {
        Some(id) => h == Handshake::Resume { session_id: id, seq: s.last_sequence },
        None => h == Handshake::Identify {
            initial_guild_id: if initial matches Some(g) && !is_blank(g@) {
                initial
            } else {
                None
            },
        },
    }
}

/// The handshake for a new connection; see `handshake_for`.
pub fn handshake(session: &GatewaySession, initial_guild_id: Option<String>) -> (h: Handshake)
    ensures
        handshake_for(*session, initial_guild_id, h),
{
    match &session.resume_session_id {
        Some(id) => Handshake::Resume { session_id: id.clone(), seq: session.last_sequence },
        None => {
            let keep = match &initial_guild_id {
                Some(g) => !blank(g.as_str()),
                None => false,
            };
            Handshake::Identify { initial_guild_id: if keep {
                initial_guild_id
            } else {
                None
            } }
        },
    }
}

/// The heartbeat interval to use: the server's, but at least a second.
pub fn heartbeat_interval_ms(hello_interval: u64) -> (r: u64)
    ensures
        r == (if hello_interval < 1000 {
            1000
        } else {
            hello_interval
        }),
{
    if hello_interval < 1000 {
        1000
    } else {
        hello_interval
    }
}

/// The status shown while connecting: reconnecting when a session can be resumed.
pub fn connecting_status(session: &GatewaySession) -> (r: GatewayStatus)
    ensures
        r == (if session.resume_session_id is Some {
            GatewayStatus::Reconnecting
        } else {
            GatewayStatus::Connecting
        }),
{
    if session.resume_session_id.is_some() {
        GatewayStatus::Reconnecting
    } else {
        GatewayStatus::Connecting
    }
}

/// What happens after a connection ended: whether to stop for good, and the
/// error to show. A reconnect that clears the session forgets its id and
/// sequence; a fatal end is shown as `Gateway fatal: reason`.
pub fn after_connection(session: &mut GatewaySession, outcome: ConnectionOutcome) -> (r: (bool, Option<String>))
    ensures
        match outcome {
            ConnectionOutcome::Shutdown => r.0 && r.1 is None && *final(session) == *old(session),
            ConnectionOutcome::Fatal(reason) => r.0 && *final(session) == *old(session) && (r.1 matches Some(t) && t@
                == "Gateway fatal: "@ + reason@),
            ConnectionOutcome::Reconnect { clear_resume } => !r.0 && r.1 is None && *final(session) == (if clear_resume {
                GatewaySession { resume_session_id: None, last_sequence: 0 }
            } else {
                *old(session)
            }),
        },
{
    match outcome {
        ConnectionOutcome::Shutdown => (true, None),
        ConnectionOutcome::Fatal(reason) => (true, Some(concat("Gateway fatal: ", reason.as_str()))),
        ConnectionOutcome::Reconnect { clear_resume } => {
            if clear_resume {
                session.resume_session_id = None;
                session.last_sequence = 0;
            }
            (false, None)
        },
    }
}

} // verus!
