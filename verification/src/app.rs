//! The client state: what the user sees and has selected, the caches filled
//! from the API and the gateway, read states and per-guild settings.
use crate::config::UiSettings;
use crate::store::{StrMap, StrSet};
use crate::text::owned;
use crate::types::{
    ChannelResponse, GuildEmojiResponse, GuildMemberResponse, GuildResponse, GuildRoleResponse,
    MessageResponse, UserGuildSettingsResponse, UserPartialResponse, UserPrivateResponse,
    UserSettingsResponse, VoiceStateResponse, WellKnownFluxerResponse,
};
use vstd::prelude::*;

verus! {

/// The pane that receives keys.
#[derive(Debug, Clone, Copy, PartialEq, Eq, Structural)]
pub enum Focus {
    Servers,
    Channels,
    Messages,
    Input,
}

impl Focus {
    /// The next pane: servers, channels, messages, input, then servers again.
    pub fn next(self) -> (r: Self)
        ensures
            r == match self {
                Focus::Servers => Focus::Channels,
                Focus::Channels => Focus::Messages,
                Focus::Messages => Focus::Input,
                Focus::Input => Focus::Servers,
            },
    {
        match self {
            Focus::Servers => Focus::Channels,
            Focus::Channels => Focus::Messages,
            Focus::Messages => Focus::Input,
            Focus::Input => Focus::Servers,
        }
    }

    /// The previous pane, the reverse of `next`.
    pub fn previous(self) -> (r: Self)
        ensures
            r == match self {
                Focus::Servers => Focus::Input,
                Focus::Channels => Focus::Servers,
                Focus::Messages => Focus::Channels,
                Focus::Input => Focus::Messages,
            },
    {
        match self {
            Focus::Servers => Focus::Input,
            Focus::Channels => Focus::Servers,
            Focus::Messages => Focus::Channels,
            Focus::Input => Focus::Messages,
        }
    }
}

/// Moving focus forward then back, or back then forward, returns to the same pane.
pub proof fn lemma_focus_next_previous(f: Focus)
    ensures
        match f {
            Focus::Servers => Focus::Channels,
            Focus::Channels => Focus::Messages,
            Focus::Messages => Focus::Input,
            Focus::Input => Focus::Servers,
        } matches g && match g {
            Focus::Servers => Focus::Input,
            Focus::Channels => Focus::Servers,
            Focus::Messages => Focus::Channels,
            Focus::Input => Focus::Messages,
        } == f,
{
}

/// The server list entry that is selected: direct messages or a guild.
#[derive(Debug)]
pub enum ServerSelection {
    DirectMessages,
    Guild(String),
}

/// A server entry over character sequences; `None` stands for direct messages.
pub open spec fn server_view(s: ServerSelection) -> Option<Seq<char>> {
    match s {
        ServerSelection::DirectMessages => None,
        ServerSelection::Guild(id) => Some(id@),
    }
}

impl PartialEq for ServerSelection {
    fn eq(&self, other: &Self) -> (r: bool) {
        match (self, other) {
            (ServerSelection::DirectMessages, ServerSelection::DirectMessages) => true,
            (ServerSelection::Guild(a), ServerSelection::Guild(b)) => crate::text::str_eq(a.as_str(), b.as_str()),
            _ => false,
        }
    }
}

impl vstd::std_specs::cmp::PartialEqSpecImpl for ServerSelection {
    open spec fn obeys_eq_spec() -> bool {
        true
    }

    open spec fn eq_spec(&self, other: &ServerSelection) -> bool {
        server_view(*self) == server_view(*other)
    }
}

impl Clone for ServerSelection {
    fn clone(&self) -> (r: Self)
        ensures
            r == *self,
    {
        match self {
            ServerSelection::DirectMessages => ServerSelection::DirectMessages,
            ServerSelection::Guild(id) => ServerSelection::Guild(id.clone()),
        }
    }
}

impl ServerSelection {
    /// The id saved in the configuration: `@me` for direct messages, else the guild id.
    pub fn id(&self) -> (r: String)
        ensures
            r@ == match server_view(*self) {
                None => "@me"@,
                Some(g) => g,
            },
    {
        match self {
            ServerSelection::DirectMessages => owned("@me"),
            ServerSelection::Guild(id) => id.clone(),
        }
    }
}

/// The gateway connection state.
#[derive(Debug, Clone, Copy, PartialEq, Eq, Structural)]
pub enum GatewayStatus {
    Connecting,
    Connected,
    Reconnecting,
    Disconnected,
}

impl GatewayStatus {
    /// The word shown in the status bar.
    pub fn label(self) -> (r: &'static str)
        ensures
            r@ == match self {
                GatewayStatus::Connecting => "connecting"@,
                GatewayStatus::Connected => "connected"@,
                GatewayStatus::Reconnecting => "reconnecting"@,
                GatewayStatus::Disconnected => "disconnected"@,
            },
    {
        match self {
            GatewayStatus::Connecting => "connecting",
            GatewayStatus::Connected => "connected",
            GatewayStatus::Reconnecting => "reconnecting",
            GatewayStatus::Disconnected => "disconnected",
        }
    }
}

#[derive(Debug)]
pub struct EmojiMatch {
    pub label: String,
    pub insert: String,
    pub is_custom: bool,
}

impl Clone for EmojiMatch {
    fn clone(&self) -> (r: Self)
        ensures
            r == *self,
    {
        EmojiMatch {
            label: self.label.clone(),
            insert: self.insert.clone(),
            is_custom: self.is_custom,
        }
    }
}

#[derive(Debug)]
pub struct EmojiAutocomplete {
    pub matches: Vec<EmojiMatch>,
    pub selected_index: usize,
}

/// One selectable row in @ autocomplete (users and roles are separate insert targets).
#[derive(Debug)]
pub enum MentionPick {
    User { user_id: String, display: String, username: String },
    Role { role_id: String, name: String, color: u32 },
}

impl Clone for MentionPick {
    fn clone(&self) -> (r: Self)
        ensures
            r == *self,
    {
        match self {
            MentionPick::User { user_id, display, username } => MentionPick::User {
                user_id: user_id.clone(),
                display: display.clone(),
                username: username.clone(),
            },
            MentionPick::Role { role_id, name, color } => MentionPick::Role {
                role_id: role_id.clone(),
                name: name.clone(),
                color: *color,
            },
        }
    }
}

#[derive(Debug)]
pub struct MentionAutocomplete {
    pub pool: Vec<MentionPick>,
    pub matches: Vec<usize>,
    pub selected_index: usize,
}

#[derive(Debug)]
pub struct CommandAutocomplete {
    pub matches: Vec<usize>,
    pub selected_index: usize,
}

#[derive(Debug)]
pub struct ReplyState {
    pub channel_id: String,
    pub message_id: String,
    pub author_name: String,
    pub source_guild_id: Option<String>,
}

impl Clone for ReplyState {
    fn clone(&self) -> (r: Self)
        ensures
            r == *self,
    {
        ReplyState {
            channel_id: self.channel_id.clone(),
            message_id: self.message_id.clone(),
            author_name: self.author_name.clone(),
            source_guild_id: self.source_guild_id.clone(),
        }
    }
}

#[derive(Debug)]
pub struct EditState {
    pub channel_id: String,
    pub message_id: String,
}

impl Clone for EditState {
    fn clone(&self) -> (r: Self)
        ensures
            r == *self,
    {
        EditState { channel_id: self.channel_id.clone(), message_id: self.message_id.clone() }
    }
}

#[derive(Debug)]
pub struct PickerEntry {
    pub server: ServerSelection,
    pub channel_id: String,
    pub label: String,
}

#[derive(Debug)]
pub struct ChannelPicker {
    pub query: String,
    pub entries: Vec<PickerEntry>,
    pub filtered: Vec<usize>,
    pub selected: usize,
}

#[derive(Debug)]
pub struct ReadState {
    pub last_message_id: Option<String>,
    pub mention_count: u64,
}

impl Clone for ReadState {
    fn clone(&self) -> (r: Self)
        ensures
            r == *self,
    {
        ReadState { last_message_id: self.last_message_id.clone(), mention_count: self.mention_count }
    }
}

pub open spec fn opt_str(o: Option<String>) -> Option<Seq<char>> {
    match o {
        Some(s) => Some(s@),
        None => None,
    }
}

/// A read state over character sequences: the last read message and the mention count.
pub open spec fn read_view(r: ReadState) -> (Option<Seq<char>>, u64) {
    (opt_str(r.last_message_id), r.mention_count)
}

/// How much of a channel's activity the user is notified of.
#[derive(Debug, Clone, Copy, PartialEq, Eq, Structural)]
pub enum NotificationVisibility {
    AllMessages,
    MentionsOnly,
    Off,
}

/// The image preview overlay. Decoded frames and terminal graphics live with
/// the front end; the state keeps what the logic reads of them.
#[derive(Debug)]
pub enum ImagePreviewState {
    Loading { title: String },
    ReadyBitmap { title: String },
    ReadyAnimatedGif {
        title: String,
        /// Display time of each frame, in milliseconds.
        delays_ms: Vec<u64>,
        frame_idx: usize,
        elapsed_ms: u64,
    },
    ReadyChafa { title: String, lines: Vec<String>, scroll: usize },
    Failed { message: String },
}

/// `std::time::SystemTime::now` measured from the Unix epoch: `Ok` with the
/// nanoseconds after it, `Err` with those before it. Nothing is stated of
/// the value: it is the machine's clock.
#[verifier::external_body]
fn since_epoch_nanos() -> Result<u128, u128> {
    match std::time::SystemTime::now().duration_since(std::time::UNIX_EPOCH) {
        Ok(d) => Ok(d.as_nanos()),
        Err(e) => Err(e.duration().as_nanos()),
    }
}

/// A clock reading (`Ok`: nanoseconds after the Unix epoch, `Err`: before
/// it) as a signed count, kept within `-i128::MAX ..= i128::MAX`.
pub open spec fn epoch_nanos_of(reading: Result<u128, u128>) -> int {
    match reading {
        Ok(n) => if n > i128::MAX { i128::MAX as int } else { n as int },
        Err(n) => if n > i128::MAX { -(i128::MAX as int) } else { -(n as int) },
    }
}

/// Turns a clock reading into signed nanoseconds since the epoch, saturating
/// at `i128::MAX` on either side.
pub fn epoch_nanos(reading: Result<u128, u128>) -> (r: i128)
    ensures
        r as int == epoch_nanos_of(reading),
{
    match reading {
        Ok(n) => if n > 170141183460469231731687303715884105727u128 {
            170141183460469231731687303715884105727i128
        } else {
            n as i128
        },
        Err(n) => if n > 170141183460469231731687303715884105727u128 {
            -170141183460469231731687303715884105727i128
        } else {
            -(n as i128)
        },
    }
}

/// The system clock as nanoseconds since the Unix epoch, negative before
/// it, kept within `i128`: the signed, saturated value of some clock
/// reading. Which reading it is rests on the machine's clock.
pub fn clock_now_nanos() -> (r: i128)
    ensures
        exists|reading: Result<u128, u128>| r as int == epoch_nanos_of(reading),
        -i128::MAX <= r,
{
    let reading = since_epoch_nanos();
    let r = epoch_nanos(reading);
    assert(r as int == epoch_nanos_of(reading));
    r
}

/// The clock in whole milliseconds since the Unix epoch (rounded down, so
/// negative before it): the value of some clock reading.
pub fn clock_now_millis() -> (r: i128)
    ensures
        exists|reading: Result<u128, u128>| r as int == epoch_nanos_of(reading) / 1_000_000,
{
    let n = clock_now_nanos();
    let ghost reading = choose|reading: Result<u128, u128>| n as int == epoch_nanos_of(reading);
    let r = floor_millis(n);
    assert(r as int == epoch_nanos_of(reading) / 1_000_000);
    r
}

/// Nanoseconds to whole milliseconds, rounding down.
fn floor_millis(n: i128) -> (r: i128)
    requires
        -i128::MAX <= n,
    ensures
        r as int == n as int / 1_000_000,
{
    if n >= 0 {
        n / 1_000_000
    } else {
        let m: i128 = -n;
        let q: i128 = (m - 1) / 1_000_000 + 1;
        proof {
            let ni: int = n as int;
            let qi: int = q as int;
            vstd::arithmetic::div_mod::lemma_fundamental_div_mod(m - 1, 1_000_000);
            vstd::arithmetic::div_mod::lemma_fundamental_div_mod(ni, 1_000_000);
            assert(ni / 1_000_000 == -qi) by (nonlinear_arith)
                requires
                    ni < 0,
                    m == -ni,
                    m - 1 == 1_000_000 * (qi - 1) + (m - 1) % 1_000_000,
                    0 <= (m - 1) % 1_000_000 < 1_000_000,
                    ni == 1_000_000 * (ni / 1_000_000) + ni % 1_000_000,
                    0 <= ni % 1_000_000 < 1_000_000,
            ;
        }
        -q
    }
}

/// What `chrono::DateTime::from_timestamp_millis` followed by
/// `to_rfc3339_opts(SecondsFormat::Millis, true)` gives for a number of
/// milliseconds since the epoch: the UTC time as RFC 3339 text, or nothing
/// outside chrono's range of dates.
pub uninterp spec fn rfc3339_millis_of(ms: i64) -> Option<Seq<char>>;

/// `chrono::DateTime::from_timestamp_millis(ms)` written with
/// `to_rfc3339_opts(SecondsFormat::Millis, true)`. The parse returns `None`,
/// never panicking, when the date falls outside chrono's years
/// -262143 ..= 262142; so it is `Some` within about 8.2e15 ms of the epoch
/// and `None` beyond 8.4e15 ms. The text is named by `rfc3339_millis_of`.
#[verifier::external_body]
fn utc_rfc3339_millis(ms: i64) -> (r: Option<String>)
    ensures
        opt_str(r) == rfc3339_millis_of(ms),
        -8_200_000_000_000_000 <= ms <= 8_200_000_000_000_000 ==> r is Some,
        (ms < -8_400_000_000_000_000 || ms > 8_400_000_000_000_000) ==> r is None,
{
    chrono::DateTime::from_timestamp_millis(ms).map(
        |d| d.to_rfc3339_opts(chrono::SecondsFormat::Millis, true),
    )
}

/// The RFC 3339 text (UTC, milliseconds) of the instant `ms` milliseconds
/// after the epoch, when chrono can represent it.
pub open spec fn rfc3339_at(ms: int) -> Option<Seq<char>> {
    if i64::MIN <= ms <= i64::MAX {
        rfc3339_millis_of(ms as i64)
    } else {
        None
    }
}

/// The RFC 3339 text of the instant `ms` milliseconds after the epoch; see
/// `rfc3339_at`.
pub fn rfc3339_at_millis(ms: i128) -> (r: Option<String>)
    ensures
        opt_str(r) == rfc3339_at(ms as int),
        -8_200_000_000_000_000 <= ms <= 8_200_000_000_000_000 ==> r is Some,
{
    if -9223372036854775808i128 <= ms && ms <= 9223372036854775807i128 {
        utc_rfc3339_millis(ms as i64)
    } else {
        None
    }
}

/// The current time as RFC 3339 text (UTC, milliseconds); empty when the
/// clock reads a date chrono cannot represent.
pub fn utc_now_rfc3339() -> (r: String)
    ensures
        exists|now_ms: int| #[trigger] rfc3339_at(now_ms) == Some(r@) || (rfc3339_at(now_ms) is None && r@.len() == 0),
{
    let now = clock_now_millis();
    let r = match rfc3339_at_millis(now) {
        Some(s) => s,
        None => {
            proof {
                reveal_strlit("");
            }
            owned("")
        },
    };
    assert(rfc3339_at(now as int) == Some(r@) || (rfc3339_at(now as int) is None && r@.len() == 0));
    r
}

#[derive(Debug)]
pub struct App {
    pub discovery: WellKnownFluxerResponse,
    pub me: UserPrivateResponse,
    pub user_settings: Option<UserSettingsResponse>,
    pub user_guild_settings: StrMap<UserGuildSettingsResponse>,
    pub guilds: Vec<GuildResponse>,
    pub private_channels: Vec<ChannelResponse>,
    pub guild_channels: StrMap<Vec<ChannelResponse>>,
    pub guild_members: StrMap<Vec<GuildMemberResponse>>,
    pub messages: StrMap<Vec<MessageResponse>>,
    pub user_cache: StrMap<UserPartialResponse>,
    pub voice_states: StrMap<StrMap<VoiceStateResponse>>,
    pub guild_emojis: StrMap<Vec<GuildEmojiResponse>>,
    pub guild_roles: StrMap<Vec<GuildRoleResponse>>,
    pub emoji_autocomplete: Option<EmojiAutocomplete>,
    pub mention_autocomplete: Option<MentionAutocomplete>,
    pub command_autocomplete: Option<CommandAutocomplete>,
    pub selected_server: ServerSelection,
    pub selected_channel_id: Option<String>,
    pub focus: Focus,
    pub input: String,
    pub message_scroll_from_bottom: u16,
    pub message_scroll_max: u16,
    pub selected_message_index: Option<usize>,
    pub reply_to: Option<ReplyState>,
    pub forward_mode: bool,
    pub read_states: StrMap<ReadState>,
    /// Per channel, the users typing there and when their notice expires (ns since the epoch).
    pub typing_users: StrMap<StrMap<i128>>,
    pub gateway_status: GatewayStatus,
    pub gateway_lazy_guild_id: Option<String>,
    pub status_message: String,
    /// When a transient status message expires (ns since the epoch).
    pub status_message_until: Option<i128>,
    pub should_quit: bool,
    pub should_logout: bool,
    pub loading_channels: StrSet,
    pub loading_members: StrSet,
    pub guild_members_synced: StrSet,
    /// Per API request key, until when it is not retried (ns since the epoch).
    pub api_backoff_until: StrMap<i128>,
    pub loading_messages: StrSet,
    pub loading_emojis: StrSet,
    pub loading_roles: StrSet,
    pub guild_roles_forbidden: StrSet,
    pub messages_older_exhausted: StrSet,
    pub loading_older_messages: StrSet,
    pub show_help: bool,
    pub help_scroll: u16,
    pub channel_picker: Option<ChannelPicker>,
    pub reaction_target: Option<(String, String)>,
    pub edit_target: Option<EditState>,
    pub input_bar_anim_phase: u8,
    pub input_bar_anim_slow: u8,
    pub image_preview: Option<ImagePreviewState>,
    pub chafa_viewport: (u16, u16),
    pub chafa_preview_cells: (u16, u16),
    /// Whether the terminal offers a graphics protocol for image previews.
    pub image_picker_ready: bool,
    pub show_settings: bool,
    pub settings_cursor: usize,
    pub show_server_notifications: bool,
    pub server_notification_cursor: usize,
    pub server_notification_scroll: u16,
    pub ui_settings: UiSettings,
    /// The time (ns since the epoch) that mute deadlines and expiries are judged against.
    pub clock: i128,
}

pub const UI_SETTINGS_LAST_ROW: usize = 2;

pub const SERVER_NOTIFICATION_LAST_ROW: usize = 5;

pub const HISTORY_AUTOLOAD_THRESHOLD_ROWS: u16 = 3;

pub const TRANSIENT_STATUS_DURATION_MS: u64 = 1800;

pub const API_FAILURE_BACKOFF_SECS: u64 = 180;

pub const TYPING_TTL_SECS: u64 = 10;

/// The recipients of the channels, in order.
pub open spec fn all_recipients(chs: Seq<ChannelResponse>) -> Seq<UserPartialResponse>
    decreases chs.len(),
{
    if chs.len() == 0 {
        Seq::empty()
    } else {
        all_recipients(chs.drop_last()) + chs.last().recipients@
    }
}

/// The recipients of the channels, flattened in order.
pub fn recipients_of(chs: &Vec<ChannelResponse>) -> (r: Vec<UserPartialResponse>)
    ensures
        r@ == all_recipients(chs@),
{
    let mut out: Vec<UserPartialResponse> = Vec::new();
    let mut i: usize = 0;
    while i < chs.len()
        invariant
            i <= chs@.len(),
            out@ == all_recipients(chs@.take(i as int)),
        decreases chs@.len() - i,
    {
        assert(chs@.take(i + 1).drop_last() =~= chs@.take(i as int));
        let rs = chs[i].recipients.clone();
        assert(rs@ =~= chs@[i as int].recipients@);
        let mut j: usize = 0;
        let ghost base = out@;
        while j < rs.len()
            invariant
                j <= rs@.len(),
                out@ == base + rs@.take(j as int),
            decreases rs@.len() - j,
        {
            out.push(rs[j].clone());
            j = j + 1;
            assert(out@ =~= base + rs@.take(j as int));
        }
        assert(rs@.take(rs@.len() as int) =~= rs@);
        i = i + 1;
    }
    assert(chs@.take(chs@.len() as int) =~= chs@);
    out
}

} // verus!
