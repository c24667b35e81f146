//! Editing a guild's notification settings from the settings overlays:
//! patches, the mute durations on offer, and stepping through the choices
//! of each setting.
use crate::app::{clock_now_millis, opt_str, rfc3339_at, rfc3339_at_millis, server_view, App};
use crate::channels::normalized;
use crate::lifecycle::{same_but_guild_settings, settings_upserted};
use crate::settings::{
    default_user_guild_settings, guild_level, hide_muted_of, is_default_settings, mute_active,
    mute_active_spec, opt_ref_view, sanitize_user_guild_settings, settings_key, settings_sanitized,
    stored_settings, suppress_everyone_of, suppress_roles_of, user_guild_settings_key,
    rfc3339_parts, rfc3339_seconds,
};
use crate::text::owned;
use crate::types::{
    UserGuildMuteConfig, UserGuildSettingsPatch, UserGuildSettingsResponse,
    MESSAGE_NOTIFICATIONS_ALL_MESSAGES, MESSAGE_NOTIFICATIONS_NO_MESSAGES,
    MESSAGE_NOTIFICATIONS_ONLY_MENTIONS,
};
use vstd::prelude::*;

verus! {

/// How many timed mutes the overlay offers.
pub const MUTE_PRESET_COUNT: usize = 5;

/// The timed mutes on offer, in milliseconds: a quarter of an hour, an
/// hour, three hours, eight hours and a day.
pub open spec fn mute_preset(i: int) -> u64 {
    if i == 0 {
        900_000
    } else if i == 1 {
        3_600_000
    } else if i == 2 {
        10_800_000
    } else if i == 3 {
        28_800_000
    } else {
        86_400_000
    }
}

/// The `i`-th timed mute, in milliseconds.
pub fn mute_preset_ms(i: usize) -> (r: u64)
    requires
        i < MUTE_PRESET_COUNT,
    ensures
        r == mute_preset(i as int),
{
    if i == 0 {
        900_000
    } else if i == 1 {
        3_600_000
    } else if i == 2 {
        10_800_000
    } else if i == 3 {
        28_800_000
    } else {
        86_400_000
    }
}

/// The position of a mute duration among the timed mutes, or their count
/// when it is none of them.
pub open spec fn preset_index(w: u64) -> int {
    if w == mute_preset(0) {
        0
    } else if w == mute_preset(1) {
        1
    } else if w == mute_preset(2) {
        2
    } else if w == mute_preset(3) {
        3
    } else if w == mute_preset(4) {
        4
    } else {
        5
    }
}

/// A patch that changes nothing.
pub open spec fn empty_patch() -> UserGuildSettingsPatch {
    UserGuildSettingsPatch {
        message_notifications: None,
        muted: None,
        mute_config: None,
        mobile_push: None,
        suppress_everyone: None,
        suppress_roles: None,
        hide_muted_channels: None,
    }
}

/// A patch that changes nothing.
pub fn no_changes() -> (r: UserGuildSettingsPatch)
    ensures
        r == empty_patch(),
{
    UserGuildSettingsPatch {
        message_notifications: None,
        muted: None,
        mute_config: None,
        mobile_push: None,
        suppress_everyone: None,
        suppress_roles: None,
        hide_muted_channels: None,
    }
}

/// Settings with each field the patch sets replaced.
pub open spec fn patched(s: UserGuildSettingsResponse, p: UserGuildSettingsPatch) -> UserGuildSettingsResponse {
    UserGuildSettingsResponse {
        message_notifications: match p.message_notifications {
            Some(v) => v,
            None => s.message_notifications,
        },
        muted: match p.muted {
            Some(v) => v,
            None => s.muted,
        },
        mute_config: match p.mute_config {
            Some(v) => v,
            None => s.mute_config,
        },
        mobile_push: match p.mobile_push {
            Some(v) => v,
            None => s.mobile_push,
        },
        suppress_everyone: match p.suppress_everyone {
            Some(v) => v,
            None => s.suppress_everyone,
        },
        suppress_roles: match p.suppress_roles {
            Some(v) => v,
            None => s.suppress_roles,
        },
        hide_muted_channels: match p.hide_muted_channels {
            Some(v) => v,
            None => s.hide_muted_channels,
        },
        ..s
    }
}

/// The settings a patch starts from: those stored for the guild, or the defaults.
pub open spec fn patch_base(a: &App, gid: Option<Seq<char>>, base: UserGuildSettingsResponse) -> bool {
    match stored_settings(a, gid) {
        Some(s) => base.eqv(&s),
        None => is_default_settings(base, gid),
    }
}

/// `b` is `a` with the guild's settings patched and their lapsed mutes dropped.
pub open spec fn settings_patched(a: &App, b: &App, gid: Option<Seq<char>>, p: UserGuildSettingsPatch) -> bool {
    let k = settings_key(gid);
    &&& same_but_guild_settings(a, b)
    &&& b.user_guild_settings@.dom().contains(k)
    &&& b.user_guild_settings@.remove(k) == a.user_guild_settings@.remove(k)
    &&& exists|base: UserGuildSettingsResponse|
        patch_base(a, gid, base) && #[trigger] settings_sanitized(
            patched(base, p),
            b.user_guild_settings@[k],
            a.clock as int,
        )
}

/// Storing settings one after the other, the selection normalized after each.
pub open spec fn settings_all_upserted(a: &App, b: &App, ss: Seq<UserGuildSettingsResponse>) -> bool
    decreases ss.len(),
{
    if ss.len() == 0 {
        *b == *a
    } else {
        exists|m: App, mid: App|
            settings_all_upserted(a, &m, ss.drop_last()) && #[trigger] settings_upserted(&m, &mid, ss.last()) && *b
                == normalized(&mid)
    }
}

/// `b` is `a` with its stored settings replaced by `ss`, stored one after the other.
pub open spec fn settings_replaced(a: &App, b: &App, ss: Seq<UserGuildSettingsResponse>) -> bool {
    exists|c: App|
        #[trigger] same_but_guild_settings(a, &c) && c.user_guild_settings@ == Map::<
            Seq<char>,
            UserGuildSettingsResponse,
        >::empty() && settings_all_upserted(&c, b, ss)
}

/// Where the mute setting of the selected guild stands among its choices:
/// 0 for not muted, 1 to 5 for the timed mutes, 6 for a mute without one
/// of those durations.
pub open spec fn mute_choice(a: &App) -> Option<int> {
    match server_view(a.selected_server) {
        None => None,
        Some(g) => match stored_settings(a, Some(g)) {
            None => Some(0),
            Some(s) => if !mute_active_spec(s.muted, s.mute_config, a.clock as int) {
                Some(0)
            } else {
                match s.mute_config {
                    Some(c) => match c.selected_time_window {
                        Some(w) => if preset_index(w) < 5 {
                            Some(preset_index(w) + 1)
                        } else {
                            Some(6)
                        },
                        None => Some(6),
                    },
                    None => Some(6),
                }
            },
        },
    }
}

/// The position of a notification level among all messages, mentions only
/// and none; any other level counts as the first.
pub open spec fn level_index(level: i32) -> int {
    if level == MESSAGE_NOTIFICATIONS_ONLY_MENTIONS {
        1
    } else if level == MESSAGE_NOTIFICATIONS_NO_MESSAGES {
        2
    } else {
        0
    }
}

/// The notification level at a position: all messages, mentions only, none.
pub open spec fn level_at(i: int) -> i32 {
    if i == 1 {
        MESSAGE_NOTIFICATIONS_ONLY_MENTIONS
    } else if i == 2 {
        MESSAGE_NOTIFICATIONS_NO_MESSAGES
    } else {
        MESSAGE_NOTIFICATIONS_ALL_MESSAGES
    }
}

/// Whether push notifications to phones are on for a guild: as stored, or on by default.
pub open spec fn mobile_push_of(a: &App, gid: Option<Seq<char>>) -> bool {
    match stored_settings(a, gid) {
        Some(s) => s.mobile_push,
        None => gid is Some,
    }
}

/// The deadline of a timed mute of `window` milliseconds: the RFC 3339 text
/// of a clock reading plus the window (nothing when chrono cannot write that
/// date).
pub open spec fn mute_deadline(end_time: Option<String>, window: u64) -> bool {
    exists|now_ms: int| opt_str(end_time) == #[trigger] deadline_text(now_ms, window)
}

/// The RFC 3339 text of `window` milliseconds after `now_ms`.
pub open spec fn deadline_text(now_ms: int, window: u64) -> Option<Seq<char>> {
    rfc3339_at(now_ms + window)
}

/// The patch for a step of `delta` through the choices of the setting under
/// `cursor` in guild `g`: the mute (off, the timed mutes, on), the
/// notification level, or one of the four switches. A timed mute carries its
/// duration and a deadline.
pub open spec fn cycle_patch(a: &App, g: Seq<char>, cursor: usize, delta: int, p: UserGuildSettingsPatch) -> bool {
    if cursor == 0 {
        let next = (mute_choice(a)->0 + delta) % 7;
        if next == 0 {
            p == UserGuildSettingsPatch { muted: Some(false), mute_config: Some(None), ..empty_patch() }
        } else if next == 6 {
            p == UserGuildSettingsPatch { muted: Some(true), mute_config: Some(None), ..empty_patch() }
        } else {
            &&& p == UserGuildSettingsPatch { muted: Some(true), mute_config: p.mute_config, ..empty_patch() }
            &&& p.mute_config matches Some(Some(c)) && c.selected_time_window == Some(mute_preset(next - 1))
                && mute_deadline(c.end_time, mute_preset(next - 1))
        }
    } else if cursor == 1 {
        let next = (level_index(guild_level(a, g)) + delta) % 3;
        p == UserGuildSettingsPatch { message_notifications: Some(level_at(next)), ..empty_patch() }
    } else if cursor == 2 {
        p == UserGuildSettingsPatch { suppress_everyone: Some(!suppress_everyone_of(a, Some(g))), ..empty_patch() }
    } else if cursor == 3 {
        p == UserGuildSettingsPatch { suppress_roles: Some(!suppress_roles_of(a, Some(g))), ..empty_patch() }
    } else if cursor == 4 {
        p == UserGuildSettingsPatch { hide_muted_channels: Some(!hide_muted_of(a, Some(g))), ..empty_patch() }
    } else {
        p == UserGuildSettingsPatch { mobile_push: Some(!mobile_push_of(a, Some(g))), ..empty_patch() }
    }
}

/// The RFC 3339 deadline of a mute of `window` milliseconds starting now.
fn deadline_in(window: u64) -> (r: Option<String>)
    ensures
        mute_deadline(r, window),
{
    let now = clock_now_millis();
    let end = now + window as i128;
    let r = rfc3339_at_millis(end);
    assert(opt_str(r) == deadline_text(now as int, window));
    r
}

/// `(cur + delta) % n` in the Euclidean sense, for a small positive `n`.
fn step_mod(cur: u64, delta: i32, n: u64) -> (r: u64)
    requires
        cur < 16,
        0 < n < 16,
    ensures
        r == (cur + delta) % (n as int),
{
    let big: u64 = 2147483648;
    let t: u64 = ((cur as i64 + delta as i64) + (n * big) as i64) as u64;
    proof {
        vstd::arithmetic::div_mod::lemma_mod_multiples_vanish(big as int, cur + delta, n as int);
        assert(n * big == big * n) by (nonlinear_arith);
    }
    t % n
}

proof fn lemma_settings_push(a: &App, m: &App, b: &App, s: Seq<UserGuildSettingsResponse>, x: UserGuildSettingsResponse)
    requires
        settings_all_upserted(a, m, s),
        exists|mid: App| settings_upserted(m, &mid, x) && *b == normalized(&mid),
    ensures
        settings_all_upserted(a, b, s.push(x)),
{
    let t = s.push(x);
    assert(t.drop_last() =~= s);
    assert(t.last() == x);
    let mid = choose|mid: App| settings_upserted(m, &mid, x) && *b == normalized(&mid);
    assert(settings_all_upserted(a, m, t.drop_last()) && settings_upserted(m, &mid, t.last()) && *b == normalized(&mid));
}

/// `b` is `a` with the display setting under the cursor flipped.
pub open spec fn settings_toggled(a: &App, b: &App) -> bool {
    &&& a.settings_cursor == 0 ==> *b == (App {
                    ui_settings: crate::config::UiSettings { clock_12h: !a.ui_settings.clock_12h, ..a.ui_settings },
                    ..*a
                })
    &&& a.settings_cursor == 1 ==> *b == (App {
                    ui_settings: crate::config::UiSettings {
                        show_typing_indicators: !a.ui_settings.show_typing_indicators,
                        ..a.ui_settings
                    },
                    ..*a
                })
    &&& a.settings_cursor == 2 ==> *b == (App {
                    ui_settings: crate::config::UiSettings {
                        performance_mode: !a.ui_settings.performance_mode,
                        ..a.ui_settings
                    },
                    ..*a
                })
    &&& a.settings_cursor > 2 ==> *b == *a
}

/// `b` is `a` after opening the notification settings, `r` telling whether a guild was selected.
pub open spec fn notifications_opened(a: &App, b: &App, r: bool) -> bool {
    &&& r == server_view(a.selected_server) is Some
    &&& r ==> *b == (App {
                    image_preview: None,
                    show_server_notifications: true,
                    server_notification_cursor: 0,
                    server_notification_scroll: 0,
                    ..*a
                })
    &&& !r ==> *b == (App {
                    status_message: b.status_message,
                    status_message_until: None,
                    ..*a
                }) && b.status_message@ == "Select a community to edit its notification settings."@
}

impl App {
    /// Replaces all stored notification settings with `settings`.
    pub fn set_user_guild_settings(&mut self, settings: Vec<UserGuildSettingsResponse>)
        ensures
            settings_replaced(old(self), final(self), settings@),
    {
        self.user_guild_settings.clear();
        let ghost c = *self;
        assert(same_but_guild_settings(old(self), &c));
        let ghost all = settings@;
        let mut rest = settings;
        let total: usize = rest.len();
        let mut n: usize = 0;
        while rest.len() > 0
            invariant
                n + rest@.len() == all.len(),
                all.len() == total,
                rest@ == all.skip(n as int),
                settings_all_upserted(&c, self, all.take(n as int)),
            decreases rest@.len(),
        {
            let s = rest.remove(0);
            assert(s == all[n as int]);
            assert(rest@ =~= all.skip(n + 1));
            let ghost prev = *self;
            self.upsert_user_guild_settings(s);
            proof {
                lemma_settings_push(&c, &prev, self, all.take(n as int), s);
                assert(all.take(n as int).push(s) =~= all.take(n + 1));
            }
            n = n + 1;
        }
        assert(all.take(all.len() as int) =~= all);
    }

    /// Patches the settings of a guild (or direct messages), starting from
    /// the stored ones or the defaults; see `settings_patched`.
    pub fn apply_user_guild_settings_patch(&mut self, guild_id: Option<&str>, patch: &UserGuildSettingsPatch)
        ensures
            exists|mid: App|
                #[trigger] settings_patched(old(self), &mid, opt_ref_view(guild_id), *patch) && *final(self)
                    == normalized(&mid),
    {
        let key = user_guild_settings_key(guild_id);
        let ghost k = key@;
        assert(k == settings_key(opt_ref_view(guild_id)));
        let mut base = match self.user_guild_settings.get(key.as_str()) {
            Some(s) => s.clone(),
            None => default_user_guild_settings(guild_id),
        };
        let ghost b0 = base;
        assert(patch_base(old(self), opt_ref_view(guild_id), b0));
        if let Some(v) = patch.message_notifications {
            base.message_notifications = v;
        }
        if let Some(v) = patch.muted {
            base.muted = v;
        }
        if let Some(v) = &patch.mute_config {
            base.mute_config = match v {
                Some(c) => Some(c.clone()),
                None => None,
            };
        }
        if let Some(v) = patch.mobile_push {
            base.mobile_push = v;
        }
        if let Some(v) = patch.suppress_everyone {
            base.suppress_everyone = v;
        }
        if let Some(v) = patch.suppress_roles {
            base.suppress_roles = v;
        }
        if let Some(v) = patch.hide_muted_channels {
            base.hide_muted_channels = v;
        }
        assert(base == patched(b0, *patch));
        let sanitized = sanitize_user_guild_settings(base, self.clock);
        self.user_guild_settings.insert(key, sanitized);
        let ghost mid = *self;
        proof {
            assert(mid.user_guild_settings@.remove(k) =~= old(self).user_guild_settings@.remove(k));
            assert(settings_sanitized(patched(b0, *patch), mid.user_guild_settings@[k], old(self).clock as int));
            assert(settings_patched(old(self), &mid, opt_ref_view(guild_id), *patch));
        }
        self.normalize_selection();
    }

    /// Opens the notification settings of the selected guild; with direct
    /// messages selected, says to pick a guild instead.
    pub fn open_server_notification_settings(&mut self) -> (r: bool)
        ensures
            notifications_opened(old(self), final(self), r),
    {
        if self.selected_server_guild_id().is_none() {
            self.set_status(owned("Select a community to edit its notification settings."));
            return false;
        }
        self.dismiss_image_preview();
        self.show_server_notifications = true;
        self.server_notification_cursor = 0;
        self.server_notification_scroll = 0;
        true
    }

    /// Where the selected guild's mute stands among its choices; see `mute_choice`.
    #[verifier::loop_isolation(false)]
    pub fn current_server_mute_choice_index(&self) -> (r: Option<usize>)
        ensures
            match r {
                Some(i) => mute_choice(self) == Some(i as int),
                None => mute_choice(self) is None,
            },
    {
        let settings = self.selected_server_notification_settings()?;
        let active = mute_active(
            settings.muted,
            match &settings.mute_config {
                Some(c) => Some(c),
                None => None,
            },
            self.clock,
        );
        if !active {
            return Some(0);
        }
        let window = match &settings.mute_config {
            Some(c) => match c.selected_time_window {
                Some(w) => w,
                None => {
                    return Some(MUTE_PRESET_COUNT + 1);
                },
            },
            None => {
                return Some(MUTE_PRESET_COUNT + 1);
            },
        };
        let mut i: usize = 0;
        while i < MUTE_PRESET_COUNT
            invariant
                i <= MUTE_PRESET_COUNT,
                forall|j: int| 0 <= j < i ==> mute_preset(j) != window,
            decreases MUTE_PRESET_COUNT - i,
        {
            if mute_preset_ms(i) == window {
                return Some(i + 1);
            }
            i = i + 1;
        }
        Some(MUTE_PRESET_COUNT + 1)
    }

    /// Steps the setting under the overlay's cursor by `delta` through its
    /// choices and applies the change; returns the guild and the patch to
    /// send, or `None` without a selected guild or on an unknown row.
    #[verifier::spinoff_prover]
    pub fn cycle_server_notification_setting(&mut self, delta: i32) -> (r: Option<(String, UserGuildSettingsPatch)>)
        ensures
            r is None <==> (server_view(old(self).selected_server) is None || old(self).server_notification_cursor
                > 5),
            r is None ==> *final(self) == *old(self),
            r matches Some(gp) ==> server_view(old(self).selected_server) == Some(gp.0@),
            r matches Some(gp) ==> cycle_patch(old(self), gp.0@, old(self).server_notification_cursor, delta as int, gp.1),
            r matches Some(gp) ==> exists|mid: App|
                #[trigger] settings_patched(old(self), &mid, Some(gp.0@), gp.1) && *final(self) == normalized(&mid),
    {
        let guild_id = match self.selected_server_guild_id() {
            Some(g) => g,
            None => {
                return None;
            },
        };
        let cursor = self.server_notification_cursor;
        let patch = if cursor == 0 {
            let current = match self.current_server_mute_choice_index() {
                Some(c) => c,
                None => {
                    return None;
                },
            };
            let next = step_mod(current as u64, delta, (MUTE_PRESET_COUNT + 2) as u64);
            if next == 0 {
                UserGuildSettingsPatch { muted: Some(false), mute_config: Some(None), ..no_changes() }
            } else if next == (MUTE_PRESET_COUNT + 1) as u64 {
                UserGuildSettingsPatch { muted: Some(true), mute_config: Some(None), ..no_changes() }
            } else {
                let window = mute_preset_ms((next - 1) as usize);
                let c = UserGuildMuteConfig { end_time: deadline_in(window), selected_time_window: Some(window) };
                UserGuildSettingsPatch { muted: Some(true), mute_config: Some(Some(c)), ..no_changes() }
            }
        } else if cursor == 1 {
            let level = self.resolved_message_notifications_for_guild(guild_id.as_str());
            let idx: u64 = if level == MESSAGE_NOTIFICATIONS_ONLY_MENTIONS {
                1
            } else if level == MESSAGE_NOTIFICATIONS_NO_MESSAGES {
                2
            } else {
                0
            };
            let next = step_mod(idx, delta, 3);
            let value = if next == 1 {
                MESSAGE_NOTIFICATIONS_ONLY_MENTIONS
            } else if next == 2 {
                MESSAGE_NOTIFICATIONS_NO_MESSAGES
            } else {
                MESSAGE_NOTIFICATIONS_ALL_MESSAGES
            };
            UserGuildSettingsPatch { message_notifications: Some(value), ..no_changes() }
        } else if cursor <= 5 {
            let settings = self.user_guild_settings_for(Some(guild_id.as_str()));
            if cursor == 2 {
                UserGuildSettingsPatch { suppress_everyone: Some(!settings.suppress_everyone), ..no_changes() }
            } else if cursor == 3 {
                UserGuildSettingsPatch { suppress_roles: Some(!settings.suppress_roles), ..no_changes() }
            } else if cursor == 4 {
                UserGuildSettingsPatch { hide_muted_channels: Some(!settings.hide_muted_channels), ..no_changes() }
            } else {
                UserGuildSettingsPatch { mobile_push: Some(!settings.mobile_push), ..no_changes() }
            }
        } else {
            return None;
        };
        let ghost a0 = *self;
        assert(cycle_patch(&a0, guild_id@, cursor, delta as int, patch));
        let gs = guild_id.as_str();
        assert(opt_ref_view(Some(gs)) == Some(guild_id@));
        self.apply_user_guild_settings_patch(Some(gs), &patch);
        let r = Some((guild_id, patch));
        assert(r matches Some(gp) && gp.0@ == guild_id@ && gp.1 == patch);
        r
    }

    /// Flips the display setting under the settings overlay's cursor: the
    /// 12-hour clock, typing notices, or the light-load mode.
    pub fn toggle_settings_selection(&mut self)
        ensures
            settings_toggled(old(self), final(self)),
    {
        if self.settings_cursor == 0 {
            self.ui_settings.clock_12h = !self.ui_settings.clock_12h;
        } else if self.settings_cursor == 1 {
            self.ui_settings.show_typing_indicators = !self.ui_settings.show_typing_indicators;
        } else if self.settings_cursor == 2 {
            self.ui_settings.performance_mode = !self.ui_settings.performance_mode;
        }
    }
}


/// One row of the community notification overlay: the setting, its current
/// value, and a note under it.
#[derive(Debug)]
pub struct NotificationRow {
    pub label: String,
    pub value: String,
    pub detail: String,
}

pub open spec fn row_view(r: NotificationRow) -> (Seq<char>, Seq<char>, Seq<char>) {
    (r.label@, r.value@, r.detail@)
}

pub open spec fn rows_view(rows: Seq<NotificationRow>) -> Seq<(Seq<char>, Seq<char>, Seq<char>)> {
    rows.map_values(|r: NotificationRow| row_view(r))
}

/// What `chrono::DateTime::from_timestamp(secs, nanos)` written with the
/// format `%Y-%m-%d %H:%M:%S UTC` gives: the UTC time as text, or nothing
/// for an instant outside chrono's range.
pub uninterp spec fn utc_seconds_text(secs: i64, nanos: u32) -> Option<Seq<char>>;

/// `chrono::DateTime::from_timestamp(secs, nanos)` formatted as
/// `%Y-%m-%d %H:%M:%S UTC`, a format string chrono accepts, so writing it
/// does not fail. The text is named by `utc_seconds_text`.
#[verifier::external_body]
fn utc_text(secs: i64, nanos: u32) -> (r: Option<String>)
    ensures
        opt_str(r) == utc_seconds_text(secs, nanos),
{
    chrono::DateTime::from_timestamp(secs, nanos).map(|d| d.format("%Y-%m-%d %H:%M:%S UTC").to_string())
}

/// The label of the `i`-th mute choice of the overlay.
pub open spec fn mute_label(i: int) -> Seq<char> {
    if i == 0 {
        "Off"@
    } else if i == 1 {
        "15 minutes"@
    } else if i == 2 {
        "1 hour"@
    } else if i == 3 {
        "3 hours"@
    } else if i == 4 {
        "8 hours"@
    } else if i == 5 {
        "24 hours"@
    } else {
        "Until I turn it back on"@
    }
}

/// The name of a notification level.
pub open spec fn level_label(level: i32) -> Seq<char> {
    if level == MESSAGE_NOTIFICATIONS_ONLY_MENTIONS {
        "Only @mentions"@
    } else if level == MESSAGE_NOTIFICATIONS_NO_MESSAGES {
        "Nothing"@
    } else {
        "All Messages"@
    }
}

pub open spec fn on_off(b: bool) -> Seq<char> {
    if b {
        "On"@
    } else {
        "Off"@
    }
}

/// The note under the mute row: the mute's deadline in UTC when it has one
/// that parses, else what a mute does.
pub open spec fn mute_note(s: UserGuildSettingsResponse) -> Seq<char> {
    let fallback = "Unread dots are suppressed unless you are mentioned"@;
    match s.mute_config {
        Some(c) => match c.end_time {
            Some(t) => match rfc3339_parts(t@) {
                Some((secs, ns)) => match utc_seconds_text(secs, ns) {
                    Some(x) => x,
                    None => fallback,
                },
                None => fallback,
            },
            None => fallback,
        },
        None => fallback,
    }
}

/// The overlay's rows, in the order of its cursor: mute, notification
/// level, the two mention filters, hiding muted channels, mobile push.
pub open spec fn rows_spec(s: UserGuildSettingsResponse, level: i32, mute_index: int) -> Seq<
    (Seq<char>, Seq<char>, Seq<char>),
> {
    seq![
        ("Mute notifications"@, mute_label(mute_index), mute_note(s)),
        ("Notification level"@, level_label(level), "Controls whether unread-only channels still bubble up"@),
        ("Suppress @everyone / @here"@, on_off(s.suppress_everyone), "Role pings can still get through unless role suppression is also on"@),
        ("Suppress role mentions"@, on_off(s.suppress_roles), "Stops role-based pings from counting as mentions"@),
        ("Hide muted channels"@, on_off(s.hide_muted_channels), "Muted channels disappear from the sidebar unless selected"@),
        ("Mobile push"@, on_off(s.mobile_push), "Server-side setting for Fluxer mobile push behavior"@),
    ]
}

fn on_off_text(b: bool) -> (r: String)
    ensures
        r@ == on_off(b),
{
    if b {
        owned("On")
    } else {
        owned("Off")
    }
}

fn mute_label_text(i: usize) -> (r: String)
    ensures
        r@ == mute_label(i as int),
{
    if i == 0 {
        owned("Off")
    } else if i == 1 {
        owned("15 minutes")
    } else if i == 2 {
        owned("1 hour")
    } else if i == 3 {
        owned("3 hours")
    } else if i == 4 {
        owned("8 hours")
    } else if i == 5 {
        owned("24 hours")
    } else {
        owned("Until I turn it back on")
    }
}

fn level_label_text(level: i32) -> (r: String)
    ensures
        r@ == level_label(level),
{
    if level == MESSAGE_NOTIFICATIONS_ONLY_MENTIONS {
        owned("Only @mentions")
    } else if level == MESSAGE_NOTIFICATIONS_NO_MESSAGES {
        owned("Nothing")
    } else {
        owned("All Messages")
    }
}

fn mute_note_text(s: &UserGuildSettingsResponse) -> (r: String)
    ensures
        r@ == mute_note(*s),
{
    let parsed = match &s.mute_config {
        Some(c) => match &c.end_time {
            Some(t) => match rfc3339_seconds(t.as_str()) {
                Some((secs, ns)) => utc_text(secs, ns),
                None => None,
            },
            None => None,
        },
        None => None,
    };
    match parsed {
        Some(x) => x,
        None => owned("Unread dots are suppressed unless you are mentioned"),
    }
}

fn row(label: &str, value: String, detail: &str) -> (r: NotificationRow)
    ensures
        row_view(r) == (label@, value@, detail@),
{
    NotificationRow { label: owned(label), value, detail: owned(detail) }
}

/// The rows of the notification overlay for these settings, notification
/// level and mute choice.
pub fn notification_rows(settings: &UserGuildSettingsResponse, level: i32, mute_index: usize) -> (r: Vec<NotificationRow>)
    ensures
        rows_view(r@) == rows_spec(*settings, level, mute_index as int),
{
    let mut rows: Vec<NotificationRow> = Vec::new();
    rows.push(NotificationRow {
        label: owned("Mute notifications"),
        value: mute_label_text(mute_index),
        detail: mute_note_text(settings),
    });
    rows.push(row("Notification level", level_label_text(level), "Controls whether unread-only channels still bubble up"));
    rows.push(row("Suppress @everyone / @here", on_off_text(settings.suppress_everyone), "Role pings can still get through unless role suppression is also on"));
    rows.push(row("Suppress role mentions", on_off_text(settings.suppress_roles), "Stops role-based pings from counting as mentions"));
    rows.push(row("Hide muted channels", on_off_text(settings.hide_muted_channels), "Muted channels disappear from the sidebar unless selected"));
    rows.push(row("Mobile push", on_off_text(settings.mobile_push), "Server-side setting for Fluxer mobile push behavior"));
    assert(rows_view(rows@) =~= rows_spec(*settings, level, mute_index as int));
    rows
}

/// `v` is what `selected_server_notification_settings` gives for the
/// selected community.
pub open spec fn overlay_settings(a: &App, v: UserGuildSettingsResponse) -> bool {
    let g = server_view(a.selected_server)->0;
    match stored_settings(a, Some(g)) {
        Some(s) => settings_sanitized(s, v, a.clock as int),
        None => is_default_settings(v, Some(g)),
    }
}

/// The mute choice the overlay shows: the one in force, `Off` without one.
pub open spec fn mute_index_of(a: &App) -> int {
    match mute_choice(a) {
        Some(i) => i,
        None => 0,
    }
}

impl App {
    /// The rows of the notification overlay for the selected community:
    /// nothing in the direct messages. Its settings are those
    /// `selected_server_notification_settings` gives, the level the
    /// community's own, the mute choice the one in force (`Off` without one).
    pub fn server_notification_rows(&self) -> (r: Option<Vec<NotificationRow>>)
        ensures
            r is None <==> server_view(self.selected_server) is None,
            r matches Some(rows) ==> exists|v: UserGuildSettingsResponse|
                #[trigger] overlay_settings(self, v) && rows_spec(
                    v,
                    guild_level(self, server_view(self.selected_server)->0),
                    mute_index_of(self),
                ) == rows_view(rows@),
    {
        let settings = match self.selected_server_notification_settings() {
            Some(s) => s,
            None => {
                return None;
            },
        };
        let guild_id = match self.selected_server_guild_id() {
            Some(g) => g,
            None => {
                return None;
            },
        };
        let level = self.resolved_message_notifications_for_guild(guild_id.as_str());
        let mute_index = match self.current_server_mute_choice_index() {
            Some(i) => i,
            None => 0,
        };
        let rows = notification_rows(&settings, level, mute_index);
        assert(overlay_settings(self, settings));
        Some(rows)
    }
}

} // verus!
