//! What each event from the gateway, the API tasks and the image decoder
//! does to the client state, and what the front end is asked to do after it.
use crate::app::{rfc3339_at, server_view, utc_now_rfc3339, App, GatewayStatus, ImagePreviewState, ReadState, ServerSelection};
use crate::caches::{
    backoff_key, backoff_started, channel_removed, channel_upserted, guild_channels_stored,
    guild_gone, guild_upserted, private_channels_set, API_FAILURE_BACKOFF_NANOS,
};
use crate::channels::normalized;
use crate::incoming::message_taken_in;
use crate::members::{
    emojis_set, member_merged, members_ingested, members_set, role_removed, roles_merged_in,
    roles_set, voice_updated,
};
use crate::mentions::mention_refreshed;
use crate::messages::{
    decimal, local_snowflake_spec, max_key, message_removed, message_upserted, messages_prepended,
    messages_set, msgs_of, reaction_added, reaction_pos, reaction_key, reaction_removed,
    reaction_target, HISTORY_PAGE,
};
use crate::names::partial_of;
use crate::reads::read_states_set;
use crate::slash_commands::{fluxerbot_author, nick_change_system_markdown, nick_change_text, MESSAGE_TYPE_CLIENT_SYSTEM};
use crate::text::{concat, owned, str_eq};
use crate::types::{
    merge_user_cache, merged_users, AuthSessionChangeEvent, ChannelBulkUpdateEvent, ChannelResponse,
    GuildCreateEvent, GuildDeleteEvent, GuildEmojiResponse, GuildMemberResponse, GuildResponse,
    GuildRoleResponse, MessageAckEvent, MessageDeleteEvent, MessageReactionAddEvent,
    MessageReactionRemoveEvent, MessageResponse, ReadyEvent, TypingStartEvent, UserPrivateResponse,
    UserSettingsResponse, VoiceStateResponse,
};
use crate::typing::{typing_cleared, typing_recorded, TYPING_TTL_NANOS};
use vstd::prelude::*;

verus! {

/// The kinds of gateway dispatch the client acts on.
#[derive(Debug, Clone, Copy, PartialEq, Eq, Structural)]
pub enum DispatchKind {
    Ready,
    Resumed,
    UserUpdate,
    UserSettingsUpdate,
    AuthSessionChange,
    GuildCreate,
    GuildUpdate,
    GuildDelete,
    ChannelUpsert,
    ChannelUpdateBulk,
    ChannelDelete,
    MessageCreate,
    TypingStart,
    MessageUpdate,
    MessageDelete,
    MessageAck,
    MessageReactionAdd,
    MessageReactionRemove,
    VoiceStateUpdate,
    CallUpdate,
    CallDelete,
    GuildEmojisUpdate,
    GuildRoleUpsert,
    GuildRoleDelete,
    GuildRoleUpdateBulk,
    Other,
}

/// The dispatch kind a gateway event name stands for.
pub open spec fn kind_of(name: Seq<char>) -> DispatchKind {
    if name == "READY"@ {
        DispatchKind::Ready
    } else if name == "RESUMED"@ {
        DispatchKind::Resumed
    } else if name == "USER_UPDATE"@ {
        DispatchKind::UserUpdate
    } else if name == "USER_SETTINGS_UPDATE"@ {
        DispatchKind::UserSettingsUpdate
    } else if name == "AUTH_SESSION_CHANGE"@ {
        DispatchKind::AuthSessionChange
    } else if name == "GUILD_CREATE"@ || name == "GUILD_SYNC"@ {
        DispatchKind::GuildCreate
    } else if name == "GUILD_UPDATE"@ {
        DispatchKind::GuildUpdate
    } else if name == "GUILD_DELETE"@ {
        DispatchKind::GuildDelete
    } else if name == "CHANNEL_CREATE"@ || name == "CHANNEL_UPDATE"@ {
        DispatchKind::ChannelUpsert
    } else if name == "CHANNEL_UPDATE_BULK"@ {
        DispatchKind::ChannelUpdateBulk
    } else if name == "CHANNEL_DELETE"@ {
        DispatchKind::ChannelDelete
    } else if name == "MESSAGE_CREATE"@ {
        DispatchKind::MessageCreate
    } else if name == "TYPING_START"@ {
        DispatchKind::TypingStart
    } else if name == "MESSAGE_UPDATE"@ {
        DispatchKind::MessageUpdate
    } else if name == "MESSAGE_DELETE"@ {
        DispatchKind::MessageDelete
    } else if name == "MESSAGE_ACK"@ {
        DispatchKind::MessageAck
    } else if name == "MESSAGE_REACTION_ADD"@ {
        DispatchKind::MessageReactionAdd
    } else if name == "MESSAGE_REACTION_REMOVE"@ {
        DispatchKind::MessageReactionRemove
    } else if name == "VOICE_STATE_UPDATE"@ {
        DispatchKind::VoiceStateUpdate
    } else if name == "CALL_CREATE"@ || name == "CALL_UPDATE"@ {
        DispatchKind::CallUpdate
    } else if name == "CALL_DELETE"@ {
        DispatchKind::CallDelete
    } else if name == "GUILD_EMOJIS_UPDATE"@ {
        DispatchKind::GuildEmojisUpdate
    } else if name == "GUILD_ROLE_CREATE"@ || name == "GUILD_ROLE_UPDATE"@ {
        DispatchKind::GuildRoleUpsert
    } else if name == "GUILD_ROLE_DELETE"@ {
        DispatchKind::GuildRoleDelete
    } else if name == "GUILD_ROLE_UPDATE_BULK"@ {
        DispatchKind::GuildRoleUpdateBulk
    } else {
        DispatchKind::Other
    }
}

impl DispatchKind {
    /// The dispatch kind a gateway event name stands for; see `kind_of`.
    pub fn of(name: &str) -> (r: DispatchKind)
        ensures
            r == kind_of(name@),
    {
        if str_eq(name, "READY") {
            DispatchKind::Ready
        } else if str_eq(name, "RESUMED") {
            DispatchKind::Resumed
        } else if str_eq(name, "USER_UPDATE") {
            DispatchKind::UserUpdate
        } else if str_eq(name, "USER_SETTINGS_UPDATE") {
            DispatchKind::UserSettingsUpdate
        } else if str_eq(name, "AUTH_SESSION_CHANGE") {
            DispatchKind::AuthSessionChange
        } else if str_eq(name, "GUILD_CREATE") || str_eq(name, "GUILD_SYNC") {
            DispatchKind::GuildCreate
        } else if str_eq(name, "GUILD_UPDATE") {
            DispatchKind::GuildUpdate
        } else if str_eq(name, "GUILD_DELETE") {
            DispatchKind::GuildDelete
        } else if str_eq(name, "CHANNEL_CREATE") || str_eq(name, "CHANNEL_UPDATE") {
            DispatchKind::ChannelUpsert
        } else if str_eq(name, "CHANNEL_UPDATE_BULK") {
            DispatchKind::ChannelUpdateBulk
        } else if str_eq(name, "CHANNEL_DELETE") {
            DispatchKind::ChannelDelete
        } else if str_eq(name, "MESSAGE_CREATE") {
            DispatchKind::MessageCreate
        } else if str_eq(name, "TYPING_START") {
            DispatchKind::TypingStart
        } else if str_eq(name, "MESSAGE_UPDATE") {
            DispatchKind::MessageUpdate
        } else if str_eq(name, "MESSAGE_DELETE") {
            DispatchKind::MessageDelete
        } else if str_eq(name, "MESSAGE_ACK") {
            DispatchKind::MessageAck
        } else if str_eq(name, "MESSAGE_REACTION_ADD") {
            DispatchKind::MessageReactionAdd
        } else if str_eq(name, "MESSAGE_REACTION_REMOVE") {
            DispatchKind::MessageReactionRemove
        } else if str_eq(name, "VOICE_STATE_UPDATE") {
            DispatchKind::VoiceStateUpdate
        } else if str_eq(name, "CALL_CREATE") || str_eq(name, "CALL_UPDATE") {
            DispatchKind::CallUpdate
        } else if str_eq(name, "CALL_DELETE") {
            DispatchKind::CallDelete
        } else if str_eq(name, "GUILD_EMOJIS_UPDATE") {
            DispatchKind::GuildEmojisUpdate
        } else if str_eq(name, "GUILD_ROLE_CREATE") || str_eq(name, "GUILD_ROLE_UPDATE") {
            DispatchKind::GuildRoleUpsert
        } else if str_eq(name, "GUILD_ROLE_DELETE") {
            DispatchKind::GuildRoleDelete
        } else if str_eq(name, "GUILD_ROLE_UPDATE_BULK") {
            DispatchKind::GuildRoleUpdateBulk
        } else {
            DispatchKind::Other
        }
    }
}

/// A gateway dispatch with its payload read into the client's types;
/// `Other` stands for an unknown kind or a payload that did not parse.
#[derive(Debug)]
pub enum GatewayDispatch {
    Ready(ReadyEvent),
    Resumed,
    UserUpdate(UserPrivateResponse),
    UserSettingsUpdate(UserSettingsResponse),
    AuthSessionChange(AuthSessionChangeEvent),
    GuildCreate(GuildCreateEvent),
    GuildUpdate(GuildResponse),
    GuildDelete(GuildDeleteEvent),
    ChannelUpsert(ChannelResponse),
    ChannelUpdateBulk(ChannelBulkUpdateEvent),
    ChannelDelete(ChannelResponse),
    MessageCreate(MessageResponse),
    TypingStart(TypingStartEvent),
    MessageUpdate(MessageResponse),
    MessageDelete(MessageDeleteEvent),
    MessageAck(MessageAckEvent),
    MessageReactionAdd(MessageReactionAddEvent),
    MessageReactionRemove(MessageReactionRemoveEvent),
    VoiceStateUpdate(VoiceStateResponse),
    CallUpdate,
    CallDelete,
    GuildEmojisUpdate { guild_id: String, emojis: Vec<GuildEmojiResponse> },
    GuildRoleUpsert { guild_id: String, role: GuildRoleResponse },
    GuildRoleDelete { guild_id: String, role_id: String },
    GuildRoleUpdateBulk { guild_id: String, roles: Vec<GuildRoleResponse> },
    Other,
}

/// Something that happened: a gateway status change or dispatch, a result of
/// a request task, or a step of loading an image preview.
#[derive(Debug)]
pub enum AppEvent {
    GatewayStatus(GatewayStatus),
    Dispatch(GatewayDispatch),
    GuildChannelsLoaded { guild_id: String, channels: Vec<ChannelResponse> },
    GuildChannelsFailed { guild_id: String, message: String },
    GuildMembersLoaded { guild_id: String, members: Vec<GuildMemberResponse> },
    GuildMembersFailed { guild_id: String, message: String },
    MessagesLoaded { channel_id: String, messages: Vec<MessageResponse> },
    MessagesFailed { channel_id: String, message: String },
    MessageSent { channel_id: String, message: MessageResponse },
    GuildEmojisLoaded { guild_id: String, emojis: Vec<GuildEmojiResponse> },
    GuildEmojisFailed { guild_id: String, message: String },
    GuildRolesLoaded { guild_id: String, roles: Vec<GuildRoleResponse> },
    GuildRolesFailed { guild_id: String, forbidden: bool, message: String },
    MessagesOlderLoaded { channel_id: String, messages: Vec<MessageResponse> },
    MessagesOlderFailed { channel_id: String, message: String },
    ApiError(String),
    SetStatus(String),
    MessageDeleted { channel_id: String, message_id: String },
    NickChangeSuccess {
        guild_id: String,
        member: GuildMemberResponse,
        channel_id: String,
        prev_display: String,
        new_display: String,
    },
    ImagePreviewBytes { title: String, bytes: Vec<u8> },
    /// A decoded animation; the frames stay with the front end.
    ImageDecodedGif { title: String, delays_ms: Vec<u64> },
    /// A decoded still image; the bitmap stays with the front end.
    ImageDecodedStatic { title: String },
    ImageDecodeFailed { title: String, bytes: Vec<u8> },
    ImagePreviewReady { title: String, lines: Vec<String> },
    ImagePreviewFailed { message: String },
}

/// What the front end does after an event: store a new token, render an
/// image as text, or decode image bytes in the background.
#[derive(Debug)]
pub struct EventEffects {
    pub persist_token: Option<String>,
    pub chafa_fallback: Option<(String, Vec<u8>)>,
    pub decode_image: Option<(String, Vec<u8>)>,
}

/// No follow-up work.
pub open spec fn no_effects(e: EventEffects) -> bool {
    e.persist_token is None && e.chafa_fallback is None && e.decode_image is None
}

/// `b` is `a` with a status message shown until replaced.
pub open spec fn status_set(a: &App, b: &App, msg: Seq<char>) -> bool {
    *b == (App { status_message: b.status_message, status_message_until: None, ..*a }) && b.status_message@ == msg
}

/// Applying voice states one after the other.
pub open spec fn voices_done(a: &App, b: &App, vs: Seq<VoiceStateResponse>) -> bool
    decreases vs.len(),
{
    if vs.len() == 0 {
        *b == *a
    } else {
        exists|m: App| voices_done(a, &m, vs.drop_last()) && #[trigger] voice_updated(&m, b, vs.last())
    }
}

/// The steps of taking in a guild, through the states `s1` to `s4`.
pub open spec fn guild_create_steps(a: &App, b: &App, ev: GuildCreateEvent, s1: App, s2: App, s3: App, s4: App) -> bool {
    let gid = ev.guild.id@;
    &&& guild_upserted(a, &s1, ev.guild)
    &&& if ev.channels@.len() > 0 {
        guild_channels_stored(&s1, &s2, gid, ev.channels)
    } else {
        s2 == s1
    }
    &&& if ev.members@.len() > 0 {
        members_ingested(&s2, &s3, gid, ev.members)
    } else {
        s3 == s2
    }
    &&& if ev.roles@.len() > 0 {
        roles_merged_in(&s3, &s4, gid, ev.roles)
    } else {
        s4 == s3
    }
    &&& voices_done(&s4, b, ev.voice_states@)
}

/// `b` is `a` after a guild the gateway sent: stored with its channels,
/// members, roles and voice states (those it has); an unavailable guild is ignored.
pub open spec fn guild_create_done(a: &App, b: &App, ev: GuildCreateEvent) -> bool {
    if ev.unavailable {
        *b == *a
    } else {
        exists|s1: App, s2: App, s3: App, s4: App| #[trigger] guild_create_steps(a, b, ev, s1, s2, s3, s4)
    }
}

/// Taking in the guilds one after the other.
pub open spec fn guilds_done(a: &App, b: &App, gs: Seq<GuildCreateEvent>) -> bool
    decreases gs.len(),
{
    if gs.len() == 0 {
        *b == *a
    } else {
        exists|m: App| guilds_done(a, &m, gs.drop_last()) && #[trigger] guild_create_done(&m, b, gs.last())
    }
}

/// Storing channels one after the other.
pub open spec fn channels_done(a: &App, b: &App, cs: Seq<ChannelResponse>) -> bool
    decreases cs.len(),
{
    if cs.len() == 0 {
        *b == *a
    } else {
        exists|m: App| channels_done(a, &m, cs.drop_last()) && #[trigger] channel_upserted(&m, b, cs.last())
    }
}

/// The steps of the ready event, through the states `s0` to `s4`.
pub open spec fn ready_steps(a: &App, b: &App, r: ReadyEvent, s0: App, s1: App, s2: App, s3: App, s4: App) -> bool {
    &&& (App { typing_users: s0.typing_users, ..*a }) == (App {
        me: a.me,
        user_settings: a.user_settings,
        ..s0
    })
    &&& s0.typing_users@.len() == 0
    &&& s0.me == r.user
    &&& s0.user_settings == (if r.user_settings is Some {
        r.user_settings
    } else {
        a.user_settings
    })
    &&& if r.private_channels@.len() > 0 {
        private_channels_set(&s0, &s1, r.private_channels)
    } else {
        s1 == s0
    }
    &&& guilds_done(&s1, &s2, r.guilds@)
    &&& (App { user_cache: s2.user_cache, ..s3 }) == s2
    &&& s3.user_cache@ == merged_users(s2.user_cache@, r.users@)
    &&& if r.read_state@.len() > 0 {
        read_states_set(&s3, &s4, r.read_state)
    } else {
        s4 == s3
    }
    &&& *b == (App { gateway_lazy_guild_id: None, ..s4 })
}

/// `b` is `a` after the gateway's ready event: typing notices cleared, the
/// user (and settings, when sent) replaced, direct messages (when sent)
/// stored, each available guild taken in, the users cached, the read states
/// (when sent) stored, and no lazy guild subscription.
pub open spec fn ready_done(a: &App, b: &App, r: ReadyEvent) -> bool {
    exists|s0: App, s1: App, s2: App, s3: App, s4: App| #[trigger] ready_steps(a, b, r, s0, s1, s2, s3, s4)
}

/// The steps of taking in a gateway message through `s1` and `s2`, `d`
/// being the stored copy and `w` whether it was new.
pub open spec fn message_create_steps(a: &App, b: &App, m: MessageResponse, s1: App, s2: App, d: MessageResponse, w: bool) -> bool {
    &&& typing_cleared(a, &s1, m.channel_id@, m.author.id@)
    &&& d.eqv(&m)
    &&& message_upserted(&s1, &s2, d, w)
    &&& if w {
        message_taken_in(&s2, b, &m)
    } else {
        *b == s2
    }
}

/// `b` is `a` after a message the gateway announced: the author's typing
/// notice dropped, a copy of the message stored, and when it was new, taken in.
pub open spec fn message_create_done(a: &App, b: &App, m: MessageResponse) -> bool {
    exists|s1: App, s2: App, d: MessageResponse, w: bool| #[trigger] message_create_steps(a, b, m, s1, s2, d, w)
}

/// `b` is `a` after a typing notice: ignored without a channel or user or
/// from the signed-in user; else the member record it carries is merged (in a
/// guild) and the notice recorded.
pub open spec fn typing_start_done(a: &App, b: &App, ev: TypingStartEvent) -> bool {
    if ev.channel_id@.len() == 0 || ev.user_id@.len() == 0 || ev.user_id@ == a.me.id@ {
        *b == *a
    } else {
        exists|s1: App|
            #[trigger] typing_recorded(&s1, b, ev.channel_id@, ev.user_id@) && match (ev.guild_id, ev.member) {
                (Some(g), Some(mem)) => exists|m2: GuildMemberResponse|
                    #[trigger] member_merged(a, &s1, g@, m2) && m2.eqv(&mem),
                _ => s1 == *a,
            }
    }
}

/// `b` is `a` after the gateway removed a guild: forgotten unless it is only
/// unavailable, and direct messages selected if it was selected.
pub open spec fn guild_delete_done(a: &App, b: &App, ev: GuildDeleteEvent) -> bool {
    if ev.unavailable {
        *b == *a
    } else {
        exists|m: App|
            #[trigger] guild_gone(a, &m, ev.id@) && if server_view(m.selected_server) == Some(ev.id@) {
                *b == normalized(&App { selected_server: ServerSelection::DirectMessages, ..m })
            } else {
                *b == m
            }
    }
}

/// The effect of a gateway dispatch.
pub open spec fn dispatch_done(a: &App, b: &App, d: GatewayDispatch, eff: EventEffects) -> bool {
    &&& match d {
        GatewayDispatch::AuthSessionChange(ev) => eff.chafa_fallback is None && eff.decode_image is None
            && if ev.new_token@.len() > 0 {
            eff.persist_token == Some(ev.new_token)
        } else {
            eff.persist_token is None
        },
        _ => no_effects(eff),
    }
    &&& match d {
        GatewayDispatch::Ready(r) => ready_done(a, b, r),
        GatewayDispatch::Resumed => *b == (App { gateway_lazy_guild_id: None, ..*a }),
        GatewayDispatch::UserUpdate(u) => *b == (App { me: u, ..*a }),
        GatewayDispatch::UserSettingsUpdate(st) => *b == (App { user_settings: Some(st), ..*a }),
        GatewayDispatch::AuthSessionChange(_) => *b == *a,
        GatewayDispatch::GuildCreate(ev) => guild_create_done(a, b, ev),
        GatewayDispatch::GuildUpdate(g) => guild_upserted(a, b, g),
        GatewayDispatch::GuildDelete(ev) => guild_delete_done(a, b, ev),
        GatewayDispatch::ChannelUpsert(c) => channel_upserted(a, b, c),
        GatewayDispatch::ChannelUpdateBulk(ev) => channels_done(a, b, ev.channels@),
        GatewayDispatch::ChannelDelete(c) => channel_removed(a, b, &c),
        GatewayDispatch::MessageCreate(m) => message_create_done(a, b, m),
        GatewayDispatch::TypingStart(ev) => typing_start_done(a, b, ev),
        GatewayDispatch::MessageUpdate(m) => exists|w: bool| #[trigger] message_upserted(a, b, m, w),
        GatewayDispatch::MessageDelete(ev) => message_removed(a, b, ev.channel_id@, ev.id@),
        GatewayDispatch::MessageAck(ev) => *b == (App { read_states: b.read_states, ..*a })
            && b.read_states@ == a.read_states@.insert(
            ev.channel_id@,
            ReadState { last_message_id: Some(ev.message_id), mention_count: ev.mention_count },
        ),
        GatewayDispatch::MessageReactionAdd(ev) => reaction_added(a, b, ev),
        GatewayDispatch::MessageReactionRemove(ev) => reaction_removed(a, b, ev),
        GatewayDispatch::VoiceStateUpdate(st) => voice_updated(a, b, st),
        GatewayDispatch::CallUpdate => *b == *a,
        GatewayDispatch::CallDelete => *b == *a,
        GatewayDispatch::GuildEmojisUpdate { guild_id, emojis } => emojis_set(a, b, guild_id@, emojis),
        GatewayDispatch::GuildRoleUpsert { guild_id, role } => exists|v: Vec<GuildRoleResponse>|
            #[trigger] roles_merged_in(a, b, guild_id@, v) && v@ == seq![role],
        GatewayDispatch::GuildRoleDelete { guild_id, role_id } => role_removed(a, b, guild_id@, role_id@),
        GatewayDispatch::GuildRoleUpdateBulk { guild_id, roles } => roles_merged_in(a, b, guild_id@, roles),
        GatewayDispatch::Other => *b == *a,
    }
}

/// The steps of a failed request through `s2`, `key` being the held-back request kind.
pub open spec fn failure_steps(a: &App, b: &App, kind: Seq<char>, id: Seq<char>, msg: Seq<char>, s2: App, key: String) -> bool {
    backoff_started(a, &s2, key) && key@ == backoff_key(kind, id) && status_set(&s2, b, msg)
}

/// `b` is `a` after a failed request for a guild's or channel's data: the
/// request kind held back, and the error shown.
pub open spec fn failure_done(a: &App, b: &App, kind: Seq<char>, id: Seq<char>, msg: Seq<char>) -> bool {
    exists|s2: App, key: String| #[trigger] failure_steps(a, b, kind, id, msg, s2, key)
}

/// The steps after the guild's members loaded.
pub open spec fn members_loaded_steps(a: &App, b: &App, gid: Seq<char>, ms: Vec<GuildMemberResponse>, s1: App, s2: App) -> bool {
    &&& members_set(a, &s1, gid, ms)
    &&& mention_refreshed(&s1, &s2, gid)
    &&& *b == (App { guild_members_synced: b.guild_members_synced, ..s2 })
    &&& b.guild_members_synced@ == s2.guild_members_synced@.insert(gid)
}

/// The steps after a message was sent from this client.
pub open spec fn sent_steps(a: &App, b: &App, cid: String, message: MessageResponse, s1: App, s2: App, d: MessageResponse, w: bool) -> bool {
    &&& message_upserted(a, &s1, d, w)
    &&& d.eqv(&sent_message(a, cid, message))
    &&& if w {
        message_taken_in(&s1, &s2, &sent_message(a, cid, message))
    } else {
        s2 == s1
    }
    &&& *b == (App {
        message_scroll_from_bottom: 0,
        forward_mode: false,
        edit_target: None,
        input: b.input,
        ..s2
    })
    &&& b.input@.len() == 0
}

/// The steps after older history loaded.
pub open spec fn older_steps(a: &App, b: &App, cid: Seq<char>, ms: Vec<MessageResponse>, s1: App, s2: App) -> bool {
    &&& messages_prepended(a, &s1, cid, ms)
    &&& s2 == (App {
        messages_older_exhausted: s2.messages_older_exhausted,
        message_scroll_from_bottom: s2.message_scroll_from_bottom,
        ..s1
    })
    &&& s2.messages_older_exhausted@ == (if ms@.len() < HISTORY_PAGE {
        s1.messages_older_exhausted@.insert(cid)
    } else {
        s1.messages_older_exhausted@
    })
    &&& s2.message_scroll_from_bottom == (if s1.message_scroll_from_bottom + older_scroll_bump(ms@.len()) > u16::MAX {
        u16::MAX
    } else {
        (s1.message_scroll_from_bottom + older_scroll_bump(ms@.len())) as u16
    })
    &&& status_set(&s2, b, older_loaded_text(ms@.len()))
}

/// The steps after a nickname change went through.
pub open spec fn nick_steps(
    a: &App,
    b: &App,
    gid: Seq<char>,
    member: GuildMemberResponse,
    cid: String,
    prev: Seq<char>,
    new: Seq<char>,
    s1: App,
    m: MessageResponse,
    s2: App,
    d: MessageResponse,
    w: bool,
    s3: App,
) -> bool {
    &&& member_merged(a, &s1, gid, member)
    &&& nick_notice(m, &s1, cid, prev, new)
    &&& d.eqv(&m)
    &&& message_upserted(&s1, &s2, d, w)
    &&& if w {
        message_taken_in(&s2, &s3, &m)
    } else {
        s3 == s2
    }
    &&& *b == (App { message_scroll_from_bottom: 0, ..s3 })
}

/// The status line after a page of older history loaded.
pub open spec fn older_loaded_text(n: nat) -> Seq<char> {
    if n == 0 {
        "No older messages."@
    } else {
        "Loaded "@ + decimal(n) + " older message(s)."@
    }
}

/// How far the view scrolls up after `n` older messages loaded: two rows
/// per message (the count taken as a `u16`), at most 160.
pub open spec fn older_scroll_bump(n: nat) -> u16 {
    let twice = (n % 65536) * 2;
    if twice > 160 {
        160
    } else {
        twice as u16
    }
}

/// A message sent from this client, completed with its channel and the
/// signed-in user as author when the server left them out.
pub open spec fn sent_message(a: &App, cid: String, m: MessageResponse) -> MessageResponse {
    MessageResponse {
        channel_id: if m.channel_id@.len() == 0 {
            cid
        } else {
            m.channel_id
        },
        author: if m.author.id@.len() == 0 {
            partial_of(a.me)
        } else {
            m.author
        },
        ..m
    }
}

/// A client-side notice of a nickname change in channel `cid`, with an id
/// later than the channel's cached messages.
pub open spec fn nick_notice(m: MessageResponse, s: &App, cid: String, prev: Seq<char>, new: Seq<char>) -> bool {
    &&& exists|now_ms: u128| m.id@ == decimal(#[trigger] local_snowflake_spec(max_key(msgs_of(s, cid@)) as u128, now_ms) as nat)
    &&& m.channel_id == cid
    &&& m.author.id@ == "0"@ && m.author.username@ == "Fluxerbot"@
    &&& m.message_type == MESSAGE_TYPE_CLIENT_SYSTEM
    &&& !m.tts && !m.pinned && !m.mention_everyone
    &&& m.content@ == nick_change_text(prev, new)
    &&& exists|now_ms: int| #[trigger] rfc3339_at(now_ms) == Some(m.timestamp@) || (rfc3339_at(now_ms) is None && m.timestamp@.len() == 0)
    &&& m.edited_timestamp is None
    &&& m.mentions@.len() == 0 && m.mention_roles@.len() == 0 && m.attachments@.len() == 0
    &&& m.embeds@.len() == 0 && m.reactions@.len() == 0
    &&& m.channel_type is None && m.message_reference is None && m.referenced_message is None
    &&& m.member is None
}

/// The preview is waiting for its image.
pub open spec fn preview_loading(a: &App) -> bool {
    a.image_preview matches Some(ImagePreviewState::Loading { .. })
}

/// `b` is `a` after a failed load of a guild's channels.
pub open spec fn channels_failed_done(a: &App, b: &App, gid: Seq<char>, msg: Seq<char>) -> bool {
    exists|s1: App|
        #[trigger] failure_done(&s1, b, "channels:"@, gid, msg) && s1 == (App { loading_channels: s1.loading_channels, ..*a })
            && s1.loading_channels@ == a.loading_channels@.remove(gid)
}

/// `b` is `a` after a failed load of a guild's members.
pub open spec fn members_failed_done(a: &App, b: &App, gid: Seq<char>, msg: Seq<char>) -> bool {
    exists|s1: App|
        #[trigger] failure_done(&s1, b, "members:"@, gid, msg) && s1 == (App { loading_members: s1.loading_members, ..*a })
            && s1.loading_members@ == a.loading_members@.remove(gid)
}

/// `b` is `a` after a failed load of a channel's messages.
pub open spec fn messages_failed_done(a: &App, b: &App, cid: Seq<char>, msg: Seq<char>) -> bool {
    exists|s1: App|
        #[trigger] failure_done(&s1, b, "messages:"@, cid, msg) && s1 == (App {
            loading_messages: s1.loading_messages,
            loading_older_messages: s1.loading_older_messages,
            ..*a
        }) && s1.loading_messages@ == a.loading_messages@.remove(cid) && s1.loading_older_messages@
            == a.loading_older_messages@.remove(cid)
}

/// `b` is `a` after a failed load of a guild's emojis.
pub open spec fn emojis_failed_done(a: &App, b: &App, gid: Seq<char>, msg: Seq<char>) -> bool {
    exists|s1: App|
        #[trigger] failure_done(&s1, b, "emojis:"@, gid, msg) && s1 == (App { loading_emojis: s1.loading_emojis, ..*a })
            && s1.loading_emojis@ == a.loading_emojis@.remove(gid)
}

/// `b` is `a` after a failed load of a guild's roles: when the server
/// forbade it, the guild is marked so and nothing is shown.
pub open spec fn roles_failed_done(a: &App, b: &App, gid: Seq<char>, forbidden: bool, msg: Seq<char>) -> bool {
    if forbidden {
        *b == (App { loading_roles: b.loading_roles, guild_roles_forbidden: b.guild_roles_forbidden, ..*a })
            && b.loading_roles@ == a.loading_roles@.remove(gid) && b.guild_roles_forbidden@
            == a.guild_roles_forbidden@.insert(gid)
    } else {
        exists|s1: App|
            #[trigger] failure_done(&s1, b, "roles:"@, gid, msg) && s1 == (App { loading_roles: s1.loading_roles, ..*a })
                && s1.loading_roles@ == a.loading_roles@.remove(gid)
    }
}

/// `b` is `a` after a guild's member list loaded: stored, the mention picker
/// refreshed, and the guild marked as synced.
pub open spec fn members_loaded_done(a: &App, b: &App, gid: Seq<char>, ms: Vec<GuildMemberResponse>) -> bool {
    exists|s1: App, s2: App| #[trigger] members_loaded_steps(a, b, gid, ms, s1, s2)
}

/// `b` is `a` after a message was sent from this client: stored (completed
/// with its channel and author), taken in when new, the view at the bottom
/// and the input, edit and forward modes cleared.
pub open spec fn message_sent_done(a: &App, b: &App, cid: String, m: MessageResponse) -> bool {
    exists|s1: App, s2: App, d: MessageResponse, w: bool| #[trigger] sent_steps(a, b, cid, m, s1, s2, d, w)
}

/// `b` is `a` after a page of older history loaded: prepended, the channel
/// marked exhausted when the page was short, the view scrolled up to keep
/// its place, and the count shown.
pub open spec fn older_loaded_done(a: &App, b: &App, cid: Seq<char>, ms: Vec<MessageResponse>) -> bool {
    exists|s1: App, s2: App| #[trigger] older_steps(a, b, cid, ms, s1, s2)
}

/// `b` is `a` after older history failed to load: no longer loading, and the error shown.
pub open spec fn older_failed_done(a: &App, b: &App, cid: Seq<char>, msg: Seq<char>) -> bool {
    exists|s1: App|
        #[trigger] status_set(&s1, b, msg) && s1 == (App { loading_older_messages: s1.loading_older_messages, ..*a })
            && s1.loading_older_messages@ == a.loading_older_messages@.remove(cid)
}

/// `b` is `a` after this client deleted a message: removed, and no message selected.
pub open spec fn message_deleted_done(a: &App, b: &App, cid: Seq<char>, mid: Seq<char>) -> bool {
    exists|s1: App| #[trigger] message_removed(a, &s1, cid, mid) && *b == (App { selected_message_index: None, ..s1 })
}

/// `b` is `a` after a nickname change went through: the member record
/// merged, a notice posted in the channel, and the view at the bottom.
pub open spec fn nick_change_done(
    a: &App,
    b: &App,
    gid: Seq<char>,
    member: GuildMemberResponse,
    cid: String,
    prev: Seq<char>,
    new: Seq<char>,
) -> bool {
    exists|s1: App, m: MessageResponse, s2: App, d: MessageResponse, w: bool, s3: App|
        #[trigger] nick_steps(a, b, gid, member, cid, prev, new, s1, m, s2, d, w, s3)
}

/// `b` is `a` after the gateway connection changed state: on anything but
/// a live connection, typing notices and the lazy guild subscription go.
pub open spec fn gateway_status_done(a: &App, b: &App, st: GatewayStatus) -> bool {
    if st == GatewayStatus::Connected {
        *b == (App { gateway_status: st, ..*a })
    } else {
        (App { typing_users: a.typing_users, ..*b }) == (App { gateway_status: st, gateway_lazy_guild_id: None, ..*a })
            && b.typing_users@.len() == 0
    }
}

/// The effect of an event.
pub open spec fn event_done(a: &App, b: &App, ev: AppEvent, eff: EventEffects) -> bool {
    match ev {
        AppEvent::GatewayStatus(st) => no_effects(eff) && gateway_status_done(a, b, st),
        AppEvent::Dispatch(d) => dispatch_done(a, b, d, eff),
        AppEvent::GuildChannelsLoaded { guild_id, channels } => no_effects(eff) && guild_channels_stored(
            a,
            b,
            guild_id@,
            channels,
        ),
        AppEvent::GuildChannelsFailed { guild_id, message } => no_effects(eff) && channels_failed_done(
            a,
            b,
            guild_id@,
            message@,
        ),
        AppEvent::GuildMembersLoaded { guild_id, members } => no_effects(eff) && members_loaded_done(
            a,
            b,
            guild_id@,
            members,
        ),
        AppEvent::GuildMembersFailed { guild_id, message } => no_effects(eff) && members_failed_done(
            a,
            b,
            guild_id@,
            message@,
        ),
        AppEvent::MessagesLoaded { channel_id, messages } => no_effects(eff) && messages_set(a, b, channel_id@, messages),
        AppEvent::MessagesFailed { channel_id, message } => no_effects(eff) && messages_failed_done(
            a,
            b,
            channel_id@,
            message@,
        ),
        AppEvent::MessageSent { channel_id, message } => no_effects(eff) && message_sent_done(a, b, channel_id, message),
        AppEvent::GuildEmojisLoaded { guild_id, emojis } => no_effects(eff) && emojis_set(a, b, guild_id@, emojis),
        AppEvent::GuildEmojisFailed { guild_id, message } => no_effects(eff) && emojis_failed_done(
            a,
            b,
            guild_id@,
            message@,
        ),
        AppEvent::GuildRolesLoaded { guild_id, roles } => no_effects(eff) && roles_set(a, b, guild_id@, roles),
        AppEvent::GuildRolesFailed { guild_id, forbidden, message } => no_effects(eff) && roles_failed_done(
            a,
            b,
            guild_id@,
            forbidden,
            message@,
        ),
        AppEvent::MessagesOlderLoaded { channel_id, messages } => no_effects(eff) && older_loaded_done(
            a,
            b,
            channel_id@,
            messages,
        ),
        AppEvent::MessagesOlderFailed { channel_id, message } => no_effects(eff) && older_failed_done(
            a,
            b,
            channel_id@,
            message@,
        ),
        AppEvent::ApiError(message) => no_effects(eff) && *b == (App {
            status_message: message,
            status_message_until: None,
            ..*a
        }),
        AppEvent::SetStatus(message) => no_effects(eff) && *b == (App {
            status_message: message,
            status_message_until: None,
            ..*a
        }),
        AppEvent::MessageDeleted { channel_id, message_id } => no_effects(eff) && message_deleted_done(
            a,
            b,
            channel_id@,
            message_id@,
        ),
        AppEvent::NickChangeSuccess { guild_id, member, channel_id, prev_display, new_display } => no_effects(eff)
            && nick_change_done(a, b, guild_id@, member, channel_id, prev_display@, new_display@),
        AppEvent::ImagePreviewBytes { title, bytes } => *b == *a && eff.persist_token is None && if !preview_loading(a) {
            eff.chafa_fallback is None && eff.decode_image is None
        } else if a.image_picker_ready {
            eff.decode_image == Some((title, bytes)) && eff.chafa_fallback is None
        } else {
            eff.chafa_fallback == Some((title, bytes)) && eff.decode_image is None
        },
        AppEvent::ImageDecodeFailed { title, bytes } => *b == *a && eff.persist_token is None && eff.decode_image is None
            && if preview_loading(a) {
            eff.chafa_fallback == Some((title, bytes))
        } else {
            eff.chafa_fallback is None
        },
        AppEvent::ImageDecodedGif { title, delays_ms } => no_effects(eff) && if preview_loading(a) && a.image_picker_ready {
            *b == (App {
                image_preview: Some(
                    ImagePreviewState::ReadyAnimatedGif { title, delays_ms, frame_idx: 0, elapsed_ms: 0 },
                ),
                ..*a
            })
        } else {
            *b == *a
        },
        AppEvent::ImageDecodedStatic { title } => no_effects(eff) && if preview_loading(a) && a.image_picker_ready {
            *b == (App { image_preview: Some(ImagePreviewState::ReadyBitmap { title }), ..*a })
        } else {
            *b == *a
        },
        AppEvent::ImagePreviewReady { title, lines } => no_effects(eff) && if preview_loading(a) {
            *b == (App { image_preview: Some(ImagePreviewState::ReadyChafa { title, lines, scroll: 0 }), ..*a })
        } else {
            *b == *a
        },
        AppEvent::ImagePreviewFailed { message } => no_effects(eff) && if preview_loading(a) {
            *b == (App { image_preview: Some(ImagePreviewState::Failed { message }), ..*a })
        } else {
            *b == *a
        },
    }
}

/// Whether an event can be applied without an arithmetic limit being hit:
/// a reaction count below the largest `u64` when one is added.
pub open spec fn event_fits(a: &App, ev: AppEvent) -> bool {
    match ev {
        AppEvent::Dispatch(GatewayDispatch::MessageReactionAdd(e)) => reaction_target(a, e.channel_id@, e.message_id@) matches Some(m) ==> (
        reaction_pos(m.reactions@, reaction_key(e.emoji)) < m.reactions@.len() ==> m.reactions@[reaction_pos(
            m.reactions@,
            reaction_key(e.emoji),
        )].count < u64::MAX),
        _ => true,
    }
}

proof fn lemma_voices_push(a: &App, m: &App, b: &App, s: Seq<VoiceStateResponse>, x: VoiceStateResponse)
    requires
        voices_done(a, m, s),
        voice_updated(m, b, x),
    ensures
        voices_done(a, b, s.push(x)),
{
    let t = s.push(x);
    assert(t.drop_last() =~= s);
    assert(t.last() == x);
    assert(voices_done(a, m, t.drop_last()) && voice_updated(m, b, t.last()));
}

proof fn lemma_guilds_push(a: &App, m: &App, b: &App, s: Seq<GuildCreateEvent>, x: GuildCreateEvent)
    requires
        guilds_done(a, m, s),
        guild_create_done(m, b, x),
    ensures
        guilds_done(a, b, s.push(x)),
{
    let t = s.push(x);
    assert(t.drop_last() =~= s);
    assert(t.last() == x);
    assert(guilds_done(a, m, t.drop_last()) && guild_create_done(m, b, t.last()));
}

proof fn lemma_channels_push(a: &App, m: &App, b: &App, s: Seq<ChannelResponse>, x: ChannelResponse)
    requires
        channels_done(a, m, s),
        channel_upserted(m, b, x),
    ensures
        channels_done(a, b, s.push(x)),
{
    let t = s.push(x);
    assert(t.drop_last() =~= s);
    assert(t.last() == x);
    assert(channels_done(a, m, t.drop_last()) && channel_upserted(m, b, t.last()));
}

fn no_follow_up() -> (e: EventEffects)
    ensures
        no_effects(e),
{
    EventEffects { persist_token: None, chafa_fallback: None, decode_image: None }
}

impl App {
    fn apply_voice_states(&mut self, vs: Vec<VoiceStateResponse>)
        ensures
            voices_done(old(self), final(self), vs@),
    {
        let ghost all = vs@;
        let mut rest = vs;
        let total: usize = rest.len();
        let mut n: usize = 0;
        while rest.len() > 0
            invariant
                n + rest@.len() == all.len(),
                all.len() == total,
                rest@ == all.skip(n as int),
                voices_done(old(self), self, all.take(n as int)),
            decreases rest@.len(),
        {
            let v = rest.remove(0);
            assert(v == all[n as int]);
            assert(rest@ =~= all.skip(n + 1));
            let ghost prev = *self;
            self.update_voice_state(v);
            proof {
                lemma_voices_push(old(self), &prev, self, all.take(n as int), v);
                assert(all.take(n as int).push(v) =~= all.take(n + 1));
            }
            n = n + 1;
        }
        assert(all.take(all.len() as int) =~= all);
    }

    /// Takes in a guild the gateway sent; see `guild_create_done`.
    pub fn apply_guild_create(&mut self, ev: GuildCreateEvent)
        ensures
            guild_create_done(old(self), final(self), ev),
    {
        if ev.unavailable {
            return ;
        }
        let ghost e0 = ev;
        let GuildCreateEvent { guild, unavailable, channels, members, roles, voice_states } = ev;
        let gid = guild.id.clone();
        self.upsert_guild(guild);
        let ghost s1 = *self;
        if channels.len() > 0 {
            self.set_guild_channels(gid.as_str(), channels);
        }
        let ghost s2 = *self;
        if members.len() > 0 {
            self.ingest_gateway_guild_members(gid.as_str(), members);
        }
        let ghost s3 = *self;
        if roles.len() > 0 {
            self.merge_guild_roles_from_gateway(gid.as_str(), roles);
        }
        let ghost s4 = *self;
        self.apply_voice_states(voice_states);
        assert(guild_create_steps(old(self), self, e0, s1, s2, s3, s4));
    }

    fn apply_guilds(&mut self, gs: Vec<GuildCreateEvent>)
        ensures
            guilds_done(old(self), final(self), gs@),
    {
        let ghost all = gs@;
        let mut rest = gs;
        let total: usize = rest.len();
        let mut n: usize = 0;
        while rest.len() > 0
            invariant
                n + rest@.len() == all.len(),
                all.len() == total,
                rest@ == all.skip(n as int),
                guilds_done(old(self), self, all.take(n as int)),
            decreases rest@.len(),
        {
            let g = rest.remove(0);
            assert(g == all[n as int]);
            assert(rest@ =~= all.skip(n + 1));
            let ghost prev = *self;
            self.apply_guild_create(g);
            proof {
                lemma_guilds_push(old(self), &prev, self, all.take(n as int), g);
                assert(all.take(n as int).push(g) =~= all.take(n + 1));
            }
            n = n + 1;
        }
        assert(all.take(all.len() as int) =~= all);
    }

    fn apply_channels(&mut self, cs: Vec<ChannelResponse>)
        ensures
            channels_done(old(self), final(self), cs@),
    {
        let ghost all = cs@;
        let mut rest = cs;
        let total: usize = rest.len();
        let mut n: usize = 0;
        while rest.len() > 0
            invariant
                n + rest@.len() == all.len(),
                all.len() == total,
                rest@ == all.skip(n as int),
                channels_done(old(self), self, all.take(n as int)),
            decreases rest@.len(),
        {
            let c = rest.remove(0);
            assert(c == all[n as int]);
            assert(rest@ =~= all.skip(n + 1));
            let ghost prev = *self;
            self.upsert_channel(c);
            proof {
                lemma_channels_push(old(self), &prev, self, all.take(n as int), c);
                assert(all.take(n as int).push(c) =~= all.take(n + 1));
            }
            n = n + 1;
        }
        assert(all.take(all.len() as int) =~= all);
    }

    /// Takes in the gateway's ready event; see `ready_done`.
    pub fn apply_ready(&mut self, r: ReadyEvent)
        ensures
            ready_done(old(self), final(self), r),
    {
        let ghost r0 = r;
        let ReadyEvent { version, session_id, user, guilds, private_channels, users, user_settings, read_state } = r;
        self.clear_all_typing();
        self.me = user;
        if let Some(st) = user_settings {
            self.user_settings = Some(st);
        }
        let ghost s0 = *self;
        if private_channels.len() > 0 {
            self.set_private_channels(private_channels);
        }
        let ghost s1 = *self;
        self.apply_guilds(guilds);
        let ghost s2 = *self;
        merge_user_cache(&mut self.user_cache, users);
        let ghost s3 = *self;
        if read_state.len() > 0 {
            self.set_read_states(read_state);
        }
        let ghost s4 = *self;
        self.gateway_lazy_guild_id = None;
        assert(ready_steps(old(self), self, r0, s0, s1, s2, s3, s4));
    }

    /// Takes in a message the gateway announced; see `message_create_done`.
    pub fn apply_message_create(&mut self, m: MessageResponse)
        ensures
            message_create_done(old(self), final(self), m),
    {
        self.clear_typing_for_message(m.channel_id.as_str(), m.author.id.as_str());
        let ghost s1 = *self;
        let d = m.duplicate();
        let ghost d0 = d;
        let w = self.upsert_message(d);
        let ghost s2 = *self;
        if w {
            self.on_gateway_message_create(&m);
        }
        assert(message_create_steps(old(self), self, m, s1, s2, d0, w));
    }

    /// Takes in a typing notice; see `typing_start_done`.
    pub fn apply_typing_start(&mut self, ev: TypingStartEvent)
        requires
            old(self).clock + TYPING_TTL_NANOS <= i128::MAX,
        ensures
            typing_start_done(old(self), final(self), ev),
    {
        if ev.channel_id.as_str().is_empty() || ev.user_id.as_str().is_empty() || str_eq(
            ev.user_id.as_str(),
            self.me.id.as_str(),
        ) {
            return ;
        }
        match (&ev.guild_id, &ev.member) {
            (Some(g), Some(m)) => {
                let m2 = m.clone();
                let ghost mm = m2;
                self.merge_guild_member(g.as_str(), m2);
                assert(member_merged(old(self), self, g@, mm) && mm.eqv(m));
            },
            _ => {},
        }
        let ghost s1 = *self;
        self.record_typing(ev.channel_id.as_str(), ev.user_id.as_str());
        assert(typing_recorded(&s1, self, ev.channel_id@, ev.user_id@));
    }

    /// Takes in a guild removal; see `guild_delete_done`.
    pub fn apply_guild_delete(&mut self, ev: GuildDeleteEvent)
        ensures
            guild_delete_done(old(self), final(self), ev),
    {
        if ev.unavailable {
            return ;
        }
        self.remove_guild(ev.id.as_str());
        let ghost m = *self;
        let hit = match &self.selected_server {
            ServerSelection::Guild(g) => str_eq(g.as_str(), ev.id.as_str()),
            ServerSelection::DirectMessages => false,
        };
        if hit {
            self.selected_server = ServerSelection::DirectMessages;
            self.normalize_selection();
        }
        assert(guild_gone(old(self), &m, ev.id@));
    }

    fn fail_request(&mut self, kind: &str, id: &str, message: String)
        requires
            old(self).clock + API_FAILURE_BACKOFF_NANOS <= i128::MAX,
        ensures
            failure_done(old(self), final(self), kind@, id@, message@),
    {
        let key = concat(kind, id);
        let ghost k0 = key;
        self.api_backoff_after_failure(key);
        let ghost s2 = *self;
        self.set_status(message);
        assert(failure_steps(old(self), self, kind@, id@, message@, s2, k0));
    }

    fn set_status_text(&mut self, message: String)
        ensures
            status_set(old(self), final(self), message@),
    {
        self.set_status(message);
    }

    /// Applies a gateway dispatch; see `dispatch_done`.
    pub fn apply_dispatch(&mut self, d: GatewayDispatch) -> (eff: EventEffects)
        requires
            old(self).clock + TYPING_TTL_NANOS <= i128::MAX,
            event_fits(old(self), AppEvent::Dispatch(d)),
        ensures
            dispatch_done(old(self), final(self), d, eff),
    {
        let ghost d0 = d;
        match d {
            GatewayDispatch::Ready(r) => {
                self.apply_ready(r);
            },
            GatewayDispatch::Resumed => {
                self.gateway_lazy_guild_id = None;
            },
            GatewayDispatch::UserUpdate(u) => {
                self.me = u;
            },
            GatewayDispatch::UserSettingsUpdate(st) => {
                self.user_settings = Some(st);
            },
            GatewayDispatch::AuthSessionChange(ev) => {
                let mut eff = no_follow_up();
                if !ev.new_token.as_str().is_empty() {
                    eff.persist_token = Some(ev.new_token);
                }
                return eff;
            },
            GatewayDispatch::GuildCreate(ev) => {
                self.apply_guild_create(ev);
            },
            GatewayDispatch::GuildUpdate(g) => {
                self.upsert_guild(g);
            },
            GatewayDispatch::GuildDelete(ev) => {
                self.apply_guild_delete(ev);
            },
            GatewayDispatch::ChannelUpsert(c) => {
                self.upsert_channel(c);
            },
            GatewayDispatch::ChannelUpdateBulk(ev) => {
                self.apply_channels(ev.channels);
            },
            GatewayDispatch::ChannelDelete(c) => {
                self.remove_channel(&c);
            },
            GatewayDispatch::MessageCreate(m) => {
                self.apply_message_create(m);
            },
            GatewayDispatch::TypingStart(ev) => {
                self.apply_typing_start(ev);
            },
            GatewayDispatch::MessageUpdate(m) => {
                let ghost m0 = m;
                let w = self.upsert_message(m);
                assert(message_upserted(old(self), self, m0, w));
            },
            GatewayDispatch::MessageDelete(ev) => {
                self.remove_message(ev.channel_id.as_str(), ev.id.as_str());
            },
            GatewayDispatch::MessageAck(ev) => {
                let st = ReadState { last_message_id: Some(ev.message_id), mention_count: ev.mention_count };
                self.read_states.insert(ev.channel_id, st);
            },
            GatewayDispatch::MessageReactionAdd(ev) => {
                self.apply_reaction_add(ev);
            },
            GatewayDispatch::MessageReactionRemove(ev) => {
                self.apply_reaction_remove(ev);
            },
            GatewayDispatch::VoiceStateUpdate(st) => {
                self.update_voice_state(st);
            },
            GatewayDispatch::CallUpdate => {},
            GatewayDispatch::CallDelete => {},
            GatewayDispatch::GuildEmojisUpdate { guild_id, emojis } => {
                self.set_guild_emojis(guild_id.as_str(), emojis);
            },
            GatewayDispatch::GuildRoleUpsert { guild_id, role } => {
                let v = vec![role];
                let ghost v0 = v;
                self.merge_guild_roles_from_gateway(guild_id.as_str(), v);
                assert(roles_merged_in(old(self), self, guild_id@, v0) && v0@ =~= seq![role]);
            },
            GatewayDispatch::GuildRoleDelete { guild_id, role_id } => {
                self.remove_guild_role(guild_id.as_str(), role_id.as_str());
            },
            GatewayDispatch::GuildRoleUpdateBulk { guild_id, roles } => {
                self.merge_guild_roles_from_gateway(guild_id.as_str(), roles);
            },
            GatewayDispatch::Other => {},
        }
        no_follow_up()
    }
}

impl App {
    fn on_gateway_status(&mut self, st: GatewayStatus)
        ensures
            gateway_status_done(old(self), final(self), st),
    {
        self.gateway_status = st;
        if st != GatewayStatus::Connected {
            self.gateway_lazy_guild_id = None;
            self.clear_all_typing();
        }
    }

    fn on_channels_failed(&mut self, guild_id: String, message: String)
        requires
            old(self).clock + API_FAILURE_BACKOFF_NANOS <= i128::MAX,
        ensures
            channels_failed_done(old(self), final(self), guild_id@, message@),
    {
        let _ = self.loading_channels.remove(guild_id.as_str());
        let ghost s1 = *self;
        self.fail_request("channels:", guild_id.as_str(), message);
        assert(failure_done(&s1, self, "channels:"@, guild_id@, message@));
    }

    fn on_members_failed(&mut self, guild_id: String, message: String)
        requires
            old(self).clock + API_FAILURE_BACKOFF_NANOS <= i128::MAX,
        ensures
            members_failed_done(old(self), final(self), guild_id@, message@),
    {
        let _ = self.loading_members.remove(guild_id.as_str());
        let ghost s1 = *self;
        self.fail_request("members:", guild_id.as_str(), message);
        assert(failure_done(&s1, self, "members:"@, guild_id@, message@));
    }

    fn on_messages_failed(&mut self, channel_id: String, message: String)
        requires
            old(self).clock + API_FAILURE_BACKOFF_NANOS <= i128::MAX,
        ensures
            messages_failed_done(old(self), final(self), channel_id@, message@),
    {
        let _ = self.loading_messages.remove(channel_id.as_str());
        let _ = self.loading_older_messages.remove(channel_id.as_str());
        let ghost s1 = *self;
        self.fail_request("messages:", channel_id.as_str(), message);
        assert(failure_done(&s1, self, "messages:"@, channel_id@, message@));
    }

    fn on_emojis_failed(&mut self, guild_id: String, message: String)
        requires
            old(self).clock + API_FAILURE_BACKOFF_NANOS <= i128::MAX,
        ensures
            emojis_failed_done(old(self), final(self), guild_id@, message@),
    {
        let _ = self.loading_emojis.remove(guild_id.as_str());
        let ghost s1 = *self;
        self.fail_request("emojis:", guild_id.as_str(), message);
        assert(failure_done(&s1, self, "emojis:"@, guild_id@, message@));
    }

    fn on_roles_failed(&mut self, guild_id: String, forbidden: bool, message: String)
        requires
            old(self).clock + API_FAILURE_BACKOFF_NANOS <= i128::MAX,
        ensures
            roles_failed_done(old(self), final(self), guild_id@, forbidden, message@),
    {
        let ghost g0 = guild_id@;
        let _ = self.loading_roles.remove(guild_id.as_str());
        if forbidden {
            let _ = self.guild_roles_forbidden.insert(guild_id);
        } else {
            let ghost s1 = *self;
            self.fail_request("roles:", guild_id.as_str(), message);
            assert(failure_done(&s1, self, "roles:"@, g0, message@));
        }
    }

    fn on_members_loaded(&mut self, guild_id: String, members: Vec<GuildMemberResponse>)
        ensures
            members_loaded_done(old(self), final(self), guild_id@, members),
    {
        let ghost m0 = members;
        let ghost g0 = guild_id@;
        self.set_guild_members(guild_id.as_str(), members);
        let ghost s1 = *self;
        self.refresh_mention_autocomplete_after_members_load(guild_id.as_str());
        let ghost s2 = *self;
        let _ = self.guild_members_synced.insert(guild_id);
        assert(members_loaded_steps(old(self), self, g0, m0, s1, s2));
    }

    fn on_message_sent(&mut self, channel_id: String, message: MessageResponse)
        ensures
            message_sent_done(old(self), final(self), channel_id, message),
    {
        let ghost c0 = channel_id;
        let ghost m0 = message;
        let mut message = message;
        if message.channel_id.as_str().is_empty() {
            message.channel_id = channel_id;
        }
        if message.author.id.as_str().is_empty() {
            message.author = crate::names::me_as_partial(&self.me);
        }
        assert(message == sent_message(old(self), c0, m0));
        let d = message.duplicate();
        let ghost d0 = d;
        let w = self.upsert_message(d);
        let ghost s1 = *self;
        if w {
            self.on_gateway_message_create(&message);
        }
        let ghost s2 = *self;
        self.message_scroll_from_bottom = 0;
        self.forward_mode = false;
        self.edit_target = None;
        self.input = String::new();
        assert(sent_steps(old(self), self, c0, m0, s1, s2, d0, w));
    }

    fn on_older_loaded(&mut self, channel_id: String, messages: Vec<MessageResponse>)
        ensures
            older_loaded_done(old(self), final(self), channel_id@, messages),
    {
        let ghost m0 = messages;
        let n = messages.len();
        self.prepend_channel_messages(channel_id.as_str(), messages);
        let ghost s1 = *self;
        if n < HISTORY_PAGE {
            let _ = self.messages_older_exhausted.insert(channel_id);
        }
        let twice: u32 = ((n % 65536) as u32) * 2;
        let bump: u16 = if twice > 160 {
            160
        } else {
            twice as u16
        };
        assert(bump == older_scroll_bump(n as nat));
        self.message_scroll_from_bottom = self.message_scroll_from_bottom.saturating_add(bump);
        let ghost s2 = *self;
        let text = if n == 0 {
            owned("No older messages.")
        } else {
            let mut t = concat("Loaded ", crate::messages::u128_to_decimal(n as u128).as_str());
            t.append(" older message(s).");
            t
        };
        assert(text@ == older_loaded_text(n as nat));
        self.set_status_text(text);
        assert(older_steps(old(self), self, channel_id@, m0, s1, s2));
    }

    fn on_older_failed(&mut self, channel_id: String, message: String)
        ensures
            older_failed_done(old(self), final(self), channel_id@, message@),
    {
        let _ = self.loading_older_messages.remove(channel_id.as_str());
        let ghost s1 = *self;
        self.set_status_text(message);
        assert(status_set(&s1, self, message@));
    }

    fn on_message_deleted(&mut self, channel_id: String, message_id: String)
        ensures
            message_deleted_done(old(self), final(self), channel_id@, message_id@),
    {
        self.remove_message(channel_id.as_str(), message_id.as_str());
        let ghost s1 = *self;
        self.selected_message_index = None;
        assert(message_removed(old(self), &s1, channel_id@, message_id@));
    }

    fn on_nick_change(
        &mut self,
        guild_id: String,
        member: GuildMemberResponse,
        channel_id: String,
        prev_display: String,
        new_display: String,
    )
        ensures
            nick_change_done(old(self), final(self), guild_id@, member, channel_id, prev_display@, new_display@),
    {
        let ghost mem0 = member;
        let ghost c0 = channel_id;
        self.merge_guild_member(guild_id.as_str(), member);
        let ghost s1 = *self;
        let content = nick_change_system_markdown(prev_display.as_str(), new_display.as_str());
        let id = self.allocate_local_message_snowflake(channel_id.as_str());
        let message = MessageResponse {
            id,
            channel_id,
            author: fluxerbot_author(),
            message_type: MESSAGE_TYPE_CLIENT_SYSTEM,
            tts: false,
            content,
            timestamp: utc_now_rfc3339(),
            edited_timestamp: None,
            pinned: false,
            mention_everyone: false,
            mentions: Vec::new(),
            mention_roles: Vec::new(),
            attachments: Vec::new(),
            channel_type: None,
            embeds: Vec::new(),
            reactions: Vec::new(),
            message_reference: None,
            referenced_message: None,
            member: None,
        };
        assert(nick_notice(message, &s1, c0, prev_display@, new_display@));
        let d = message.duplicate();
        let ghost d0 = d;
        let w = self.upsert_message(d);
        let ghost s2 = *self;
        if w {
            self.on_gateway_message_create(&message);
        }
        let ghost s3 = *self;
        self.message_scroll_from_bottom = 0;
        assert(nick_steps(
            old(self),
            self,
            guild_id@,
            mem0,
            c0,
            prev_display@,
            new_display@,
            s1,
            message,
            s2,
            d0,
            w,
            s3,
        ));
    }

    fn preview_is_loading(&self) -> (r: bool)
        ensures
            r == preview_loading(self),
    {
        match &self.image_preview {
            Some(ImagePreviewState::Loading { .. }) => true,
            _ => false,
        }
    }
}

/// The clock reading the state keeps for applying events: the reading,
/// held below the last instant from which a failure's backoff (and so a
/// typing notice's expiry, the shorter) can still be counted in `i128`
/// nanoseconds. Only a clock some 5e21 years out is held back.
pub fn clock_for_events(now: i128) -> (r: i128)
    ensures
        r as int == if now <= i128::MAX - API_FAILURE_BACKOFF_NANOS {
            now as int
        } else {
            i128::MAX - API_FAILURE_BACKOFF_NANOS
        },
        r + API_FAILURE_BACKOFF_NANOS <= i128::MAX,
        r + TYPING_TTL_NANOS <= i128::MAX,
{
    let top: i128 = 170141183460469231731687303715884105727i128 - API_FAILURE_BACKOFF_NANOS;
    if now <= top {
        now
    } else {
        top
    }
}

/// Applies an event to the state and says what the front end does next; see `event_done`.
/// The two bounds on the clock are machine limits: deadlines are counted
/// in `i128` nanoseconds since the epoch (`clock_for_events` keeps a
/// reading within them).
pub fn apply_event(app: &mut App, event: AppEvent) -> (eff: EventEffects)
    requires
        old(app).clock + API_FAILURE_BACKOFF_NANOS <= i128::MAX,
        old(app).clock + TYPING_TTL_NANOS <= i128::MAX,
        event_fits(old(app), event),
    ensures
        event_done(old(app), final(app), event, eff),
{
    match event {
        AppEvent::GatewayStatus(st) => {
            app.on_gateway_status(st);
            no_follow_up()
        },
        AppEvent::Dispatch(d) => app.apply_dispatch(d),
        AppEvent::GuildChannelsLoaded { guild_id, channels } => {
            app.set_guild_channels(guild_id.as_str(), channels);
            no_follow_up()
        },
        AppEvent::GuildChannelsFailed { guild_id, message } => {
            app.on_channels_failed(guild_id, message);
            no_follow_up()
        },
        AppEvent::GuildMembersLoaded { guild_id, members } => {
            app.on_members_loaded(guild_id, members);
            no_follow_up()
        },
        AppEvent::GuildMembersFailed { guild_id, message } => {
            app.on_members_failed(guild_id, message);
            no_follow_up()
        },
        AppEvent::MessagesLoaded { channel_id, messages } => {
            app.set_channel_messages(channel_id.as_str(), messages);
            no_follow_up()
        },
        AppEvent::MessagesFailed { channel_id, message } => {
            app.on_messages_failed(channel_id, message);
            no_follow_up()
        },
        AppEvent::MessageSent { channel_id, message } => {
            app.on_message_sent(channel_id, message);
            no_follow_up()
        },
        AppEvent::GuildEmojisLoaded { guild_id, emojis } => {
            app.set_guild_emojis(guild_id.as_str(), emojis);
            no_follow_up()
        },
        AppEvent::GuildEmojisFailed { guild_id, message } => {
            app.on_emojis_failed(guild_id, message);
            no_follow_up()
        },
        AppEvent::GuildRolesLoaded { guild_id, roles } => {
            app.set_guild_roles(guild_id.as_str(), roles);
            no_follow_up()
        },
        AppEvent::GuildRolesFailed { guild_id, forbidden, message } => {
            app.on_roles_failed(guild_id, forbidden, message);
            no_follow_up()
        },
        AppEvent::MessagesOlderLoaded { channel_id, messages } => {
            app.on_older_loaded(channel_id, messages);
            no_follow_up()
        },
        AppEvent::MessagesOlderFailed { channel_id, message } => {
            app.on_older_failed(channel_id, message);
            no_follow_up()
        },
        AppEvent::ApiError(message) => {
            app.set_status(message);
            no_follow_up()
        },
        AppEvent::SetStatus(message) => {
            app.set_status(message);
            no_follow_up()
        },
        AppEvent::MessageDeleted { channel_id, message_id } => {
            app.on_message_deleted(channel_id, message_id);
            no_follow_up()
        },
        AppEvent::NickChangeSuccess { guild_id, member, channel_id, prev_display, new_display } => {
            app.on_nick_change(guild_id, member, channel_id, prev_display, new_display);
            no_follow_up()
        },
        AppEvent::ImagePreviewBytes { title, bytes } => {
            let mut eff = no_follow_up();
            if app.preview_is_loading() {
                if app.image_picker_ready {
                    eff.decode_image = Some((title, bytes));
                } else {
                    eff.chafa_fallback = Some((title, bytes));
                }
            }
            eff
        },
        AppEvent::ImageDecodeFailed { title, bytes } => {
            let mut eff = no_follow_up();
            if app.preview_is_loading() {
                eff.chafa_fallback = Some((title, bytes));
            }
            eff
        },
        AppEvent::ImageDecodedGif { title, delays_ms } => {
            if app.preview_is_loading() && app.image_picker_ready {
                app.image_preview = Some(
                    ImagePreviewState::ReadyAnimatedGif { title, delays_ms, frame_idx: 0, elapsed_ms: 0 },
                );
            }
            no_follow_up()
        },
        AppEvent::ImageDecodedStatic { title } => {
            if app.preview_is_loading() && app.image_picker_ready {
                app.image_preview = Some(ImagePreviewState::ReadyBitmap { title });
            }
            no_follow_up()
        },
        AppEvent::ImagePreviewReady { title, lines } => {
            if app.preview_is_loading() {
                app.image_preview = Some(ImagePreviewState::ReadyChafa { title, lines, scroll: 0 });
            }
            no_follow_up()
        },
        AppEvent::ImagePreviewFailed { message } => {
            if app.preview_is_loading() {
                app.image_preview = Some(ImagePreviewState::Failed { message });
            }
            no_follow_up()
        },
    }
}

} // verus!
