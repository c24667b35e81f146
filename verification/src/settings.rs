//! Per-guild notification settings: mutes (with deadlines), notification
//! levels, channel overrides, and how they resolve for a channel.
use crate::app::{opt_str, server_view, App, NotificationVisibility, ServerSelection};
use crate::store::{keys_distinct, lemma_map_of_at, map_of, StrMap};
use crate::text::{owned, str_eq};
use crate::types::{
    ChannelResponse, GuildResponse, UserGuildChannelOverride, UserGuildMuteConfig,
    UserGuildSettingsResponse, MESSAGE_NOTIFICATIONS_ALL_MESSAGES, MESSAGE_NOTIFICATIONS_INHERIT,
    MESSAGE_NOTIFICATIONS_NO_MESSAGES, MESSAGE_NOTIFICATIONS_ONLY_MENTIONS,
};
use vstd::prelude::*;

verus! {

/// The seconds since the epoch and the nanoseconds within the second that
/// an RFC 3339 timestamp denotes, when it parses.
pub uninterp spec fn rfc3339_parts(s: Seq<char>) -> Option<(i64, u32)>;

/// The instant (ns since the epoch) that an RFC 3339 timestamp denotes, when it parses.
pub open spec fn rfc3339_instant(s: Seq<char>) -> Option<int> {
    match rfc3339_parts(s) {
        Some((secs, ns)) => Some(secs * 1_000_000_000 + ns),
        None => None,
    }
}

/// `chrono::DateTime::parse_from_rfc3339`, read as its `timestamp()` and
/// `timestamp_subsec_nanos()`; the result is named by `rfc3339_parts`.
#[verifier::external_body]
pub(crate) fn rfc3339_seconds(s: &str) -> (r: Option<(i64, u32)>)
    ensures
        r == rfc3339_parts(s@),
{
    match chrono::DateTime::parse_from_rfc3339(s) {
        Ok(d) => Some((d.timestamp(), d.timestamp_subsec_nanos())),
        Err(_) => None,
    }
}

/// The instant an RFC 3339 timestamp denotes, as nanoseconds since the epoch.
pub fn parse_rfc3339_nanos(s: &str) -> (r: Option<i128>)
    ensures
        r matches Some(v) ==> rfc3339_instant(s@) == Some(v as int),
        r is None ==> rfc3339_instant(s@) is None,
{
    match rfc3339_seconds(s) {
        Some((secs, ns)) => {
            assert(-9223372036854775808 * 1_000_000_000 <= secs * 1_000_000_000 <= 9223372036854775807
                * 1_000_000_000) by (nonlinear_arith)
                requires
                    -9223372036854775808 <= secs <= 9223372036854775807,
            ;
            Some((secs as i128) * 1_000_000_000 + (ns as i128))
        },
        None => None,
    }
}

/// Whether a mute is in force at `now`: muted, and either without a deadline,
/// with one that does not parse, or with one still ahead.
pub open spec fn mute_active_spec(muted: bool, cfg: Option<UserGuildMuteConfig>, now: int) -> bool {
    if !muted {
        false
    } else {
        match cfg {
            None => true,
            Some(c) => match c.end_time {
                None => true,
                Some(e) => match rfc3339_instant(e@) {
                    Some(d) => d > now,
                    None => true,
                },
            },
        }
    }
}

/// Whether a mute is in force at `now`.
pub fn mute_active(muted: bool, mute_config: Option<&UserGuildMuteConfig>, now: i128) -> (r: bool)
    ensures
        r == mute_active_spec(
            muted,
            match mute_config {
                Some(c) => Some(*c),
                None => None,
            },
            now as int,
        ),
{
    if !muted {
        return false;
    }
    let end_time = match mute_config {
        Some(c) => match &c.end_time {
            Some(e) => e,
            None => {
                return true;
            },
        },
        None => {
            return true;
        },
    };
    match parse_rfc3339_nanos(end_time.as_str()) {
        Some(d) => d > now,
        None => true,
    }
}

/// An override after dropping a mute that is no longer in force.
pub open spec fn override_sanitized(
    o: UserGuildChannelOverride,
    r: UserGuildChannelOverride,
    now: int,
) -> bool {
    &&& r.message_notifications == o.message_notifications
    &&& r.collapsed == o.collapsed
    &&& if mute_active_spec(o.muted, o.mute_config, now) {
        r.muted == o.muted && r.mute_config == o.mute_config
    } else {
        !r.muted && r.mute_config is None
    }
}

/// Settings after dropping mutes that are no longer in force, the guild's and each override's.
pub open spec fn settings_sanitized(
    s: UserGuildSettingsResponse,
    r: UserGuildSettingsResponse,
    now: int,
) -> bool {
    &&& r.guild_id == s.guild_id
    &&& r.message_notifications == s.message_notifications
    &&& r.mobile_push == s.mobile_push
    &&& r.suppress_everyone == s.suppress_everyone
    &&& r.suppress_roles == s.suppress_roles
    &&& r.hide_muted_channels == s.hide_muted_channels
    &&& r.version == s.version
    &&& if mute_active_spec(s.muted, s.mute_config, now) {
        r.muted == s.muted && r.mute_config == s.mute_config
    } else {
        !r.muted && r.mute_config is None
    }
    &&& r.channel_overrides@.dom() == s.channel_overrides@.dom()
    &&& forall|k: Seq<char>| #[trigger]
        s.channel_overrides@.dom().contains(k) ==> override_sanitized(
            s.channel_overrides@[k],
            r.channel_overrides@[k],
            now,
        )
}

fn sanitize_override(o: &UserGuildChannelOverride, now: i128) -> (r: UserGuildChannelOverride)
    ensures
        override_sanitized(*o, r, now as int),
{
    let active = mute_active(
        o.muted,
        match &o.mute_config {
            Some(c) => Some(c),
            None => None,
        },
        now,
    );
    if active {
        o.clone()
    } else {
        UserGuildChannelOverride {
            muted: false,
            mute_config: None,
            message_notifications: o.message_notifications,
            collapsed: o.collapsed,
        }
    }
}

/// Drops the mutes of the settings, and of each channel override, that are no longer in force.
pub fn sanitize_user_guild_settings(settings: UserGuildSettingsResponse, now: i128) -> (r:
    UserGuildSettingsResponse)
    ensures
        settings_sanitized(settings, r, now as int),
{
    let active = mute_active(
        settings.muted,
        match &settings.mute_config {
            Some(c) => Some(c),
            None => None,
        },
        now,
    );
    let src = &settings.channel_overrides;
    src.reveal_pairs();
    let mut out: StrMap<UserGuildChannelOverride> = StrMap::new();
    let mut i: usize = 0;
    while i < src.len()
        invariant
            i <= src.pairs().len(),
            src@ == map_of(src.pairs()),
            keys_distinct(src.pairs()),
            forall|k: Seq<char>| #[trigger]
                out@.dom().contains(k) <==> exists|j: int|
                    0 <= j < i && #[trigger] src.pairs()[j].0@ == k,
            forall|j: int|
                0 <= j < i ==> override_sanitized(
                    src.pairs()[j].1,
                    out@[#[trigger] src.pairs()[j].0@],
                    now as int,
                ),
        decreases src.pairs().len() - i,
    {
        let k = src.key_at(i).clone();
        let v = sanitize_override(src.value_at(i), now);
        proof {
            assert forall|j: int| 0 <= j < i implies #[trigger] src.pairs()[j].0@ != k@ by {
                assert(keys_distinct(src.pairs()));
            }
        }
        out.insert(k, v);
        i = i + 1;
    }
    proof {
        assert forall|k: Seq<char>| #[trigger] out@.dom().contains(k) == src@.dom().contains(k) by {
            if out@.dom().contains(k) {
                let j = choose|j: int| 0 <= j < i && #[trigger] src.pairs()[j].0@ == k;
                lemma_map_of_at(src.pairs(), j);
            }
            if src@.dom().contains(k) {
                let j = choose|j: int| crate::store::has_key_at(src.pairs(), k, j);
                assert(src.pairs()[j].0@ == k);
            }
        }
        assert(out@.dom() =~= src@.dom());
        assert forall|k: Seq<char>| #[trigger] src@.dom().contains(k) implies override_sanitized(
            src@[k],
            out@[k],
            now as int,
        ) by {
            let j = choose|j: int| crate::store::has_key_at(src.pairs(), k, j);
            lemma_map_of_at(src.pairs(), j);
            assert(src.pairs()[j].0@ == k);
        }
    }
    UserGuildSettingsResponse {
        guild_id: settings.guild_id,
        message_notifications: settings.message_notifications,
        muted: if active {
            settings.muted
        } else {
            false
        },
        mute_config: if active {
            settings.mute_config
        } else {
            None
        },
        mobile_push: settings.mobile_push,
        suppress_everyone: settings.suppress_everyone,
        suppress_roles: settings.suppress_roles,
        hide_muted_channels: settings.hide_muted_channels,
        channel_overrides: out,
        version: settings.version,
    }
}

/// The key under which a guild's settings are stored: the guild id, or `@me` for direct messages.
pub open spec fn settings_key(gid: Option<Seq<char>>) -> Seq<char> {
    match gid {
        Some(g) => g,
        None => "@me"@,
    }
}

pub fn user_guild_settings_key(guild_id: Option<&str>) -> (r: String)
    ensures
        r@ == settings_key(crate::slash_commands::opt_view(guild_id)),
{
    match guild_id {
        Some(g) => owned(g),
        None => owned("@me"),
    }
}

/// The settings that apply when none are stored: inherit for a guild, all
/// messages for direct messages, nothing muted or suppressed.
pub open spec fn is_default_settings(r: UserGuildSettingsResponse, gid: Option<Seq<char>>) -> bool {
    &&& opt_str(r.guild_id) == gid
    &&& r.message_notifications == (if gid is Some {
        MESSAGE_NOTIFICATIONS_INHERIT
    } else {
        MESSAGE_NOTIFICATIONS_ALL_MESSAGES
    })
    &&& !r.muted
    &&& r.mute_config is None
    &&& r.mobile_push == gid is Some
    &&& !r.suppress_everyone
    &&& !r.suppress_roles
    &&& !r.hide_muted_channels
    &&& r.channel_overrides@ == Map::<Seq<char>, UserGuildChannelOverride>::empty()
    &&& r.version == 0
}

pub fn default_user_guild_settings(guild_id: Option<&str>) -> (r: UserGuildSettingsResponse)
    ensures
        is_default_settings(r, crate::slash_commands::opt_view(guild_id)),
{
    UserGuildSettingsResponse {
        guild_id: match guild_id {
            Some(g) => Some(owned(g)),
            None => None,
        },
        message_notifications: if guild_id.is_some() {
            MESSAGE_NOTIFICATIONS_INHERIT
        } else {
            MESSAGE_NOTIFICATIONS_ALL_MESSAGES
        },
        muted: false,
        mute_config: None,
        mobile_push: guild_id.is_some(),
        suppress_everyone: false,
        suppress_roles: false,
        hide_muted_channels: false,
        channel_overrides: StrMap::new(),
        version: 0,
    }
}

/// The stored settings for a guild (or direct messages), if any.
pub open spec fn stored_settings(app: &App, gid: Option<Seq<char>>) -> Option<
    UserGuildSettingsResponse,
> {
    if app.user_guild_settings@.dom().contains(settings_key(gid)) {
        Some(app.user_guild_settings@[settings_key(gid)])
    } else {
        None
    }
}

/// The notification level stored for a guild, or the default level.
pub open spec fn level_of(app: &App, gid: Option<Seq<char>>) -> i32 {
    match stored_settings(app, gid) {
        Some(s) => s.message_notifications,
        None => if gid is Some {
            MESSAGE_NOTIFICATIONS_INHERIT
        } else {
            MESSAGE_NOTIFICATIONS_ALL_MESSAGES
        },
    }
}

/// Whether the guild (or direct messages) is muted at the state's clock.
pub open spec fn guild_muted(app: &App, gid: Option<Seq<char>>) -> bool {
    match stored_settings(app, gid) {
        Some(s) => mute_active_spec(s.muted, s.mute_config, app.clock as int),
        None => false,
    }
}

pub open spec fn suppress_everyone_of(app: &App, gid: Option<Seq<char>>) -> bool {
    match stored_settings(app, gid) {
        Some(s) => s.suppress_everyone,
        None => false,
    }
}

pub open spec fn suppress_roles_of(app: &App, gid: Option<Seq<char>>) -> bool {
    match stored_settings(app, gid) {
        Some(s) => s.suppress_roles,
        None => false,
    }
}

pub open spec fn hide_muted_of(app: &App, gid: Option<Seq<char>>) -> bool {
    match stored_settings(app, gid) {
        Some(s) => s.hide_muted_channels,
        None => false,
    }
}

/// The stored override of a channel in a guild's settings.
pub open spec fn override_of(app: &App, gid: Option<Seq<char>>, cid: Seq<char>) -> Option<
    UserGuildChannelOverride,
> {
    match stored_settings(app, gid) {
        Some(s) => if s.channel_overrides@.dom().contains(cid) {
            Some(s.channel_overrides@[cid])
        } else {
            None
        },
        None => None,
    }
}

/// Whether a channel override mutes it at the state's clock.
pub open spec fn override_muted(app: &App, gid: Option<Seq<char>>, cid: Seq<char>) -> bool {
    match override_of(app, gid, cid) {
        Some(o) => mute_active_spec(o.muted, o.mute_config, app.clock as int),
        None => false,
    }
}

/// A channel is muted when its guild, its parent category, or itself is.
pub open spec fn channel_muted(app: &App, ch: ChannelResponse) -> bool {
    let gid = opt_str(ch.guild_id);
    guild_muted(app, gid) || (ch.parent_id is Some && override_muted(
        app,
        gid,
        ch.parent_id->0@,
    )) || override_muted(app, gid, ch.id@)
}

/// The first guild in the list with the given id.
pub open spec fn guild_index(gs: Seq<GuildResponse>, id: Seq<char>) -> int {
    crate::seqs::first_idx(gs, |g: GuildResponse| g.id@ == id, 0)
}

/// A guild's effective level: its own setting unless it inherits, then the
/// guild's default, then all messages.
pub open spec fn guild_level(app: &App, gid: Seq<char>) -> i32 {
    let l = level_of(app, Some(gid));
    if l != MESSAGE_NOTIFICATIONS_INHERIT {
        l
    } else {
        let i = guild_index(app.guilds@, gid);
        if i < app.guilds@.len() {
            app.guilds@[i].default_message_notifications
        } else {
            MESSAGE_NOTIFICATIONS_ALL_MESSAGES
        }
    }
}

/// A channel's effective level: its override, then its category's, then the
/// guild's; outside guilds, its override or all messages.
pub open spec fn channel_level(app: &App, ch: ChannelResponse) -> i32 {
    match ch.guild_id {
        None => match override_of(app, None, ch.id@) {
            Some(o) => if o.message_notifications != MESSAGE_NOTIFICATIONS_INHERIT {
                o.message_notifications
            } else {
                MESSAGE_NOTIFICATIONS_ALL_MESSAGES
            },
            None => MESSAGE_NOTIFICATIONS_ALL_MESSAGES,
        },
        Some(g) => {
            let own = override_of(app, Some(g@), ch.id@);
            let parent = match ch.parent_id {
                Some(p) => override_of(app, Some(g@), p@),
                None => None,
            };
            if own is Some && own->0.message_notifications != MESSAGE_NOTIFICATIONS_INHERIT {
                own->0.message_notifications
            } else if parent is Some && parent->0.message_notifications
                != MESSAGE_NOTIFICATIONS_INHERIT {
                parent->0.message_notifications
            } else {
                guild_level(app, g@)
            }
        },
    }
}

/// None at the "nothing" level; mentions only when muted or at the mentions
/// level; otherwise all messages.
pub open spec fn visibility_of(app: &App, ch: ChannelResponse) -> NotificationVisibility {
    let level = channel_level(app, ch);
    if level == MESSAGE_NOTIFICATIONS_NO_MESSAGES {
        NotificationVisibility::Off
    } else if channel_muted(app, ch) || level == MESSAGE_NOTIFICATIONS_ONLY_MENTIONS {
        NotificationVisibility::MentionsOnly
    } else {
        NotificationVisibility::AllMessages
    }
}

pub open spec fn opt_ref_view(o: Option<&str>) -> Option<Seq<char>> {
    match o {
        Some(s) => Some(s@),
        None => None,
    }
}

impl App {
    fn stored_settings_ref(&self, guild_id: Option<&str>) -> (r: Option<
        &UserGuildSettingsResponse,
    >)
        ensures
            r matches Some(s) ==> stored_settings(self, opt_ref_view(guild_id)) == Some(*s),
            r is None ==> stored_settings(self, opt_ref_view(guild_id)) is None,
    {
        let key = user_guild_settings_key(guild_id);
        self.user_guild_settings.get(key.as_str())
    }

    /// The guild selected in the server list, if a guild is selected.
    pub fn selected_server_guild_id(&self) -> (r: Option<String>)
        ensures
            opt_str(r) == server_view(self.selected_server),
    {
        match &self.selected_server {
            ServerSelection::DirectMessages => None,
            ServerSelection::Guild(id) => Some(id.clone()),
        }
    }

    /// The settings that apply to a guild (or direct messages) now: the
    /// stored ones with lapsed mutes dropped, or the defaults.
    pub fn user_guild_settings_for(&self, guild_id: Option<&str>) -> (r: UserGuildSettingsResponse)
        ensures
            match stored_settings(self, opt_ref_view(guild_id)) {
                Some(s) => settings_sanitized(s, r, self.clock as int),
                None => is_default_settings(r, opt_ref_view(guild_id)),
            },
    {
        match self.stored_settings_ref(guild_id) {
            Some(s) => {
                let c = s.clone();
                let r = sanitize_user_guild_settings(c, self.clock);
                proof {
                    assert(c.channel_overrides@ == s.channel_overrides@);
                }
                r
            },
            None => default_user_guild_settings(guild_id),
        }
    }

    /// The settings of the selected guild, when a guild is selected.
    pub fn selected_server_notification_settings(&self) -> (r: Option<UserGuildSettingsResponse>)
        ensures
            server_view(self.selected_server) is None ==> r is None,
            server_view(self.selected_server) matches Some(g) ==> r matches Some(v) && match stored_settings(self, Some(g)) {
                Some(s) => settings_sanitized(s, v, self.clock as int),
                None => is_default_settings(v, Some(g)),
            },
    {
        let guild_id = self.selected_server_guild_id()?;
        Some(self.user_guild_settings_for(Some(guild_id.as_str())))
    }

    pub fn suppress_everyone_enabled(&self, guild_id: Option<&str>) -> (r: bool)
        ensures
            r == (guild_id is Some && suppress_everyone_of(self, opt_ref_view(guild_id))),
    {
        match guild_id {
            Some(_) => match self.stored_settings_ref(guild_id) {
                Some(s) => s.suppress_everyone,
                None => false,
            },
            None => false,
        }
    }

    pub fn suppress_roles_enabled(&self, guild_id: Option<&str>) -> (r: bool)
        ensures
            r == (guild_id is Some && suppress_roles_of(self, opt_ref_view(guild_id))),
    {
        match guild_id {
            Some(_) => match self.stored_settings_ref(guild_id) {
                Some(s) => s.suppress_roles,
                None => false,
            },
            None => false,
        }
    }

    pub fn hide_muted_channels_enabled(&self, guild_id: &str) -> (r: bool)
        ensures
            r == hide_muted_of(self, Some(guild_id@)),
    {
        match self.stored_settings_ref(Some(guild_id)) {
            Some(s) => s.hide_muted_channels,
            None => false,
        }
    }

    pub fn guild_is_muted(&self, guild_id: Option<&str>) -> (r: bool)
        ensures
            r == guild_muted(self, opt_ref_view(guild_id)),
    {
        match self.stored_settings_ref(guild_id) {
            Some(s) => mute_active(
                s.muted,
                match &s.mute_config {
                    Some(c) => Some(c),
                    None => None,
                },
                self.clock,
            ),
            None => false,
        }
    }

    fn override_ref(&self, guild_id: Option<&str>, channel_id: &str) -> (r: Option<
        &UserGuildChannelOverride,
    >)
        ensures
            r matches Some(o) ==> override_of(self, opt_ref_view(guild_id), channel_id@) == Some(
                *o,
            ),
            r is None ==> override_of(self, opt_ref_view(guild_id), channel_id@) is None,
    {
        match self.stored_settings_ref(guild_id) {
            Some(s) => s.channel_overrides.get(channel_id),
            None => None,
        }
    }

    /// A channel's override as it applies now (a lapsed mute dropped).
    pub fn channel_override(&self, guild_id: Option<&str>, channel_id: &str) -> (r: Option<
        UserGuildChannelOverride,
    >)
        ensures
            r matches Some(v) ==> override_of(self, opt_ref_view(guild_id), channel_id@) matches Some(o)
                && override_sanitized(o, v, self.clock as int),
            r is None ==> override_of(self, opt_ref_view(guild_id), channel_id@) is None,
    {
        match self.override_ref(guild_id, channel_id) {
            Some(o) => Some(sanitize_override(o, self.clock)),
            None => None,
        }
    }

    fn override_is_muted(&self, guild_id: Option<&str>, channel_id: &str) -> (r: bool)
        ensures
            r == override_muted(self, opt_ref_view(guild_id), channel_id@),
    {
        match self.override_ref(guild_id, channel_id) {
            Some(o) => mute_active(
                o.muted,
                match &o.mute_config {
                    Some(c) => Some(c),
                    None => None,
                },
                self.clock,
            ),
            None => false,
        }
    }

    pub fn channel_is_muted_directly(&self, channel: &ChannelResponse) -> (r: bool)
        ensures
            r == override_muted(self, opt_str(channel.guild_id), channel.id@),
    {
        let g = match &channel.guild_id {
            Some(g) => Some(g.as_str()),
            None => None,
        };
        self.override_is_muted(g, channel.id.as_str())
    }

    pub fn channel_parent_is_muted(&self, channel: &ChannelResponse) -> (r: bool)
        ensures
            r == (channel.parent_id is Some && override_muted(
                self,
                opt_str(channel.guild_id),
                channel.parent_id->0@,
            )),
    {
        let g = match &channel.guild_id {
            Some(g) => Some(g.as_str()),
            None => None,
        };
        match &channel.parent_id {
            Some(p) => self.override_is_muted(g, p.as_str()),
            None => false,
        }
    }

    pub fn channel_is_muted_effective(&self, channel: &ChannelResponse) -> (r: bool)
        ensures
            r == channel_muted(self, *channel),
    {
        let g = match &channel.guild_id {
            Some(g) => Some(g.as_str()),
            None => None,
        };
        self.guild_is_muted(g) || self.channel_parent_is_muted(channel)
            || self.channel_is_muted_directly(channel)
    }

    #[verifier::loop_isolation(false)]
    pub fn resolved_message_notifications_for_guild(&self, guild_id: &str) -> (r: i32)
        ensures
            r == guild_level(self, guild_id@),
    {
        let level = match self.stored_settings_ref(Some(guild_id)) {
            Some(s) => s.message_notifications,
            None => MESSAGE_NOTIFICATIONS_INHERIT,
        };
        if level != MESSAGE_NOTIFICATIONS_INHERIT {
            return level;
        }
        let ghost p = |g: GuildResponse| g.id@ == guild_id@;
        let mut i: usize = 0;
        while i < self.guilds.len()
            invariant
                i <= self.guilds@.len(),
                p == (|g: GuildResponse| g.id@ == guild_id@),
                guild_index(self.guilds@, guild_id@) == crate::seqs::first_idx(
                    self.guilds@,
                    p,
                    i as int,
                ),
            decreases self.guilds@.len() - i,
        {
            if str_eq(self.guilds[i].id.as_str(), guild_id) {
                return self.guilds[i].default_message_notifications;
            }
            i = i + 1;
        }
        MESSAGE_NOTIFICATIONS_ALL_MESSAGES
    }

    pub fn resolved_message_notifications(&self, channel: &ChannelResponse) -> (r: i32)
        ensures
            r == channel_level(self, *channel),
    {
        match &channel.guild_id {
            None => match self.override_ref(None, channel.id.as_str()) {
                Some(o) => if o.message_notifications != MESSAGE_NOTIFICATIONS_INHERIT {
                    o.message_notifications
                } else {
                    MESSAGE_NOTIFICATIONS_ALL_MESSAGES
                },
                None => MESSAGE_NOTIFICATIONS_ALL_MESSAGES,
            },
            Some(g) => {
                if let Some(o) = self.override_ref(Some(g.as_str()), channel.id.as_str()) {
                    if o.message_notifications != MESSAGE_NOTIFICATIONS_INHERIT {
                        return o.message_notifications;
                    }
                }
                if let Some(p) = &channel.parent_id {
                    if let Some(o) = self.override_ref(Some(g.as_str()), p.as_str()) {
                        if o.message_notifications != MESSAGE_NOTIFICATIONS_INHERIT {
                            return o.message_notifications;
                        }
                    }
                }
                self.resolved_message_notifications_for_guild(g.as_str())
            },
        }
    }

    pub fn channel_notification_visibility(&self, channel: &ChannelResponse) -> (r:
        NotificationVisibility)
        ensures
            r == visibility_of(self, *channel),
    {
        let level = self.resolved_message_notifications(channel);
        if level == MESSAGE_NOTIFICATIONS_NO_MESSAGES {
            return NotificationVisibility::Off;
        }
        if self.channel_is_muted_effective(channel) || level == MESSAGE_NOTIFICATIONS_ONLY_MENTIONS {
            return NotificationVisibility::MentionsOnly;
        }
        NotificationVisibility::AllMessages
    }
}

} // verus!
