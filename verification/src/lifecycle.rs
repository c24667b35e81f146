//! Building the client state, keeping its clock, and the small state
//! changes of the status line, scrolling and overlays.
use crate::app::{
    all_recipients, clock_now_nanos, recipients_of, App, Focus, GatewayStatus, ServerSelection,
    HISTORY_AUTOLOAD_THRESHOLD_ROWS,
};
use crate::channels::normalized;
use crate::config::UiSettings;
use crate::settings::{sanitize_user_guild_settings, settings_key, settings_sanitized, user_guild_settings_key};
use crate::app::opt_str;
use crate::store::{StrMap, StrSet};
use crate::types::{
    merge_user_cache, merged_users, ChannelResponse, GuildResponse, UserGuildSettingsResponse,
    UserPrivateResponse, UserSettingsResponse, WellKnownFluxerResponse, UserPartialResponse,
};
use vstd::prelude::*;

verus! {

/// `a` is the state that `App::new` builds from these arguments before the
/// selection is normalized, with its clock at `now`.
pub open spec fn fresh_state(
    a: &App,
    discovery: WellKnownFluxerResponse,
    me: UserPrivateResponse,
    user_settings: Option<UserSettingsResponse>,
    guilds: Vec<GuildResponse>,
    private_channels: Vec<ChannelResponse>,
    selected_server: ServerSelection,
    selected_channel_id: Option<String>,
    ui_settings: UiSettings,
    now: i128,
) -> bool {
    &&& a.discovery == discovery
    &&& a.me == me
    &&& a.user_settings == user_settings
    &&& a.user_guild_settings@ == Map::<Seq<char>, UserGuildSettingsResponse>::empty()
    &&& a.guilds == guilds
    &&& a.private_channels == private_channels
    &&& a.guild_channels@.len() == 0 && a.guild_channels.pairs().len() == 0
    &&& a.guild_members@.len() == 0
    &&& a.messages@.len() == 0
    &&& a.user_cache@ == merged_users(Map::empty(), all_recipients(private_channels@))
    &&& a.voice_states@.len() == 0
    &&& a.guild_emojis@.len() == 0
    &&& a.guild_roles@.len() == 0
    &&& a.emoji_autocomplete is None
    &&& a.mention_autocomplete is None
    &&& a.command_autocomplete is None
    &&& a.selected_server == selected_server
    &&& a.selected_channel_id == selected_channel_id
    &&& a.focus == Focus::Channels
    &&& a.input@.len() == 0
    &&& a.message_scroll_from_bottom == 0
    &&& a.message_scroll_max == 0
    &&& a.selected_message_index is None
    &&& a.reply_to is None
    &&& !a.forward_mode
    &&& a.read_states@.len() == 0
    &&& a.typing_users@.len() == 0
    &&& a.gateway_status == GatewayStatus::Disconnected
    &&& a.gateway_lazy_guild_id is None
    &&& a.status_message@.len() == 0
    &&& a.status_message_until is None
    &&& !a.should_quit
    &&& !a.should_logout
    &&& a.loading_channels@.len() == 0
    &&& a.loading_members@.len() == 0
    &&& a.guild_members_synced@.len() == 0
    &&& a.api_backoff_until@.len() == 0
    &&& a.loading_messages@.len() == 0
    &&& a.loading_emojis@.len() == 0
    &&& a.loading_roles@.len() == 0
    &&& a.guild_roles_forbidden@.len() == 0
    &&& a.messages_older_exhausted@.len() == 0
    &&& a.loading_older_messages@.len() == 0
    &&& !a.show_help
    &&& a.help_scroll == 0
    &&& a.channel_picker is None
    &&& a.reaction_target is None
    &&& a.edit_target is None
    &&& a.input_bar_anim_phase == 0
    &&& a.input_bar_anim_slow == 0
    &&& a.image_preview is None
    &&& a.chafa_viewport == (80u16, 22u16)
    &&& a.chafa_preview_cells == (100u16, 40u16)
    &&& !a.image_picker_ready
    &&& !a.show_settings
    &&& a.settings_cursor == 0
    &&& !a.show_server_notifications
    &&& a.server_notification_cursor == 0
    &&& a.server_notification_scroll == 0
    &&& a.ui_settings == ui_settings
    &&& a.clock == now
}

/// `b` differs from `a` at most in its stored guild settings.
pub open spec fn same_but_guild_settings(a: &App, b: &App) -> bool {
    App { user_guild_settings: a.user_guild_settings, ..*b } == *a
}

/// `b` is `a` with `s`, its lapsed mutes dropped, stored under the key of its guild.
pub open spec fn settings_upserted(a: &App, b: &App, s: UserGuildSettingsResponse) -> bool {
    let k = settings_key(opt_str(s.guild_id));
    &&& same_but_guild_settings(a, b)
    &&& b.user_guild_settings@.dom().contains(k)
    &&& settings_sanitized(s, b.user_guild_settings@[k], a.clock as int)
    &&& b.user_guild_settings@.remove(k) == a.user_guild_settings@.remove(k)
}

/// Whether scrolling up is close enough to the top to fetch older history.
pub open spec fn near_top(max: u16, from_bottom: u16) -> bool {
    let pos = if from_bottom < max {
        from_bottom
    } else {
        max
    };
    max - pos <= HISTORY_AUTOLOAD_THRESHOLD_ROWS
}

/// `b` is `a` scrolled `amount` rows further from the bottom.
pub open spec fn scrolled_up(a: &App, b: &App, amount: u16) -> bool {
    &&& *b == (App {
                    message_scroll_from_bottom: if a.message_scroll_from_bottom + amount
                        > u16::MAX {
                        u16::MAX
                    } else {
                        (a.message_scroll_from_bottom + amount) as u16
                    },
                    ..*a
                })
}

/// `b` is `a` scrolled `amount` rows closer to the bottom.
pub open spec fn scrolled_down(a: &App, b: &App, amount: u16) -> bool {
    &&& *b == (App {
                    message_scroll_from_bottom: if a.message_scroll_from_bottom < amount {
                        0
                    } else {
                        (a.message_scroll_from_bottom - amount) as u16
                    },
                    ..*a
                })
}

impl App {
    /// The client state for a signed-in user, with its clock read from the
    /// system: empty caches, the given guilds and direct messages, the user
    /// cache filled from the direct messages' recipients, and the selection
    /// normalized.
    pub fn new(
        discovery: WellKnownFluxerResponse,
        me: UserPrivateResponse,
        user_settings: Option<UserSettingsResponse>,
        guilds: Vec<GuildResponse>,
        private_channels: Vec<ChannelResponse>,
        selected_server: ServerSelection,
        selected_channel_id: Option<String>,
        ui_settings: UiSettings,
    ) -> (r: Self)
        ensures
            exists|pre: App, now: i128|
                fresh_state(
                    &pre,
                    discovery,
                    me,
                    user_settings,
                    guilds,
                    private_channels,
                    selected_server,
                    selected_channel_id,
                    ui_settings,
                    now,
                ) && r == normalized(&pre),
    {
        let now = clock_now_nanos();
        App::new_at(
            discovery,
            me,
            user_settings,
            guilds,
            private_channels,
            selected_server,
            selected_channel_id,
            ui_settings,
            now,
        )
    }

    /// `App::new` with the clock at `now`.
    pub fn new_at(
        discovery: WellKnownFluxerResponse,
        me: UserPrivateResponse,
        user_settings: Option<UserSettingsResponse>,
        guilds: Vec<GuildResponse>,
        private_channels: Vec<ChannelResponse>,
        selected_server: ServerSelection,
        selected_channel_id: Option<String>,
        ui_settings: UiSettings,
        now: i128,
    ) -> (r: Self)
        ensures
            exists|pre: App|
                fresh_state(
                    &pre,
                    discovery,
                    me,
                    user_settings,
                    guilds,
                    private_channels,
                    selected_server,
                    selected_channel_id,
                    ui_settings,
                    now,
                ) && r == normalized(&pre),
    {
        let mut user_cache: StrMap<UserPartialResponse> = StrMap::new();
        let recipients = recipients_of(&private_channels);
        merge_user_cache(&mut user_cache, recipients);
        let mut app = App {
            discovery,
            me,
            user_settings,
            user_guild_settings: StrMap::new(),
            guilds,
            private_channels,
            guild_channels: StrMap::new(),
            guild_members: StrMap::new(),
            messages: StrMap::new(),
            user_cache,
            voice_states: StrMap::new(),
            guild_emojis: StrMap::new(),
            guild_roles: StrMap::new(),
            emoji_autocomplete: None,
            mention_autocomplete: None,
            command_autocomplete: None,
            selected_server,
            selected_channel_id,
            focus: Focus::Channels,
            input: String::new(),
            message_scroll_from_bottom: 0,
            message_scroll_max: 0,
            selected_message_index: None,
            reply_to: None,
            forward_mode: false,
            read_states: StrMap::new(),
            typing_users: StrMap::new(),
            gateway_status: GatewayStatus::Disconnected,
            gateway_lazy_guild_id: None,
            status_message: String::new(),
            status_message_until: None,
            should_quit: false,
            should_logout: false,
            loading_channels: StrSet::new(),
            loading_members: StrSet::new(),
            guild_members_synced: StrSet::new(),
            api_backoff_until: StrMap::new(),
            loading_messages: StrSet::new(),
            loading_emojis: StrSet::new(),
            loading_roles: StrSet::new(),
            guild_roles_forbidden: StrSet::new(),
            messages_older_exhausted: StrSet::new(),
            loading_older_messages: StrSet::new(),
            show_help: false,
            help_scroll: 0,
            channel_picker: None,
            reaction_target: None,
            edit_target: None,
            input_bar_anim_phase: 0,
            input_bar_anim_slow: 0,
            image_preview: None,
            chafa_viewport: (80, 22),
            chafa_preview_cells: (100, 40),
            image_picker_ready: false,
            show_settings: false,
            settings_cursor: 0,
            show_server_notifications: false,
            server_notification_cursor: 0,
            server_notification_scroll: 0,
            ui_settings,
            clock: now,
        };
        let ghost pre = app;
        app.normalize_selection();
        proof {
            assert(fresh_state(
                &pre,
                discovery,
                me,
                user_settings,
                guilds,
                private_channels,
                selected_server,
                selected_channel_id,
                ui_settings,
                now,
            ));
        }
        app
    }

    /// Sets the time that mute deadlines and expiries are judged against.
    pub fn set_clock(&mut self, now: i128)
        ensures
            *final(self) == (App { clock: now, ..*old(self) }),
    {
        self.clock = now;
    }

    /// Reads the system clock into the state.
    pub fn refresh_clock(&mut self)
        ensures
            *final(self) == (App { clock: final(self).clock, ..*old(self) }),
    {
        let now = clock_now_nanos();
        self.set_clock(now);
    }

    /// Stores a guild's settings (lapsed mutes dropped) and normalizes the selection.
    pub fn upsert_user_guild_settings(&mut self, settings: UserGuildSettingsResponse)
        ensures
            exists|mid: App| settings_upserted(old(self), &mid, settings) && *final(self) == normalized(&mid),
    {
        let key = user_guild_settings_key(
            match &settings.guild_id {
                Some(g) => Some(g.as_str()),
                None => None,
            },
        );
        let ghost s0 = settings;
        let sanitized = sanitize_user_guild_settings(settings, self.clock);
        self.user_guild_settings.insert(key, sanitized);
        let ghost mid = *self;
        proof {
            let k = settings_key(opt_str(s0.guild_id));
            assert(mid.user_guild_settings@.remove(k) =~= old(self).user_guild_settings@.remove(k));
            assert(settings_upserted(old(self), &mid, s0));
        }
        self.normalize_selection();
    }

    /// Whether the view is scrolled close enough to the top of the loaded
    /// history that older messages should be fetched.
    pub fn should_auto_load_history_on_scroll_up(&self) -> (r: bool)
        ensures
            r == near_top(self.message_scroll_max, self.message_scroll_from_bottom),
    {
        let pos = if self.message_scroll_from_bottom < self.message_scroll_max {
            self.message_scroll_from_bottom
        } else {
            self.message_scroll_max
        };
        self.message_scroll_max - pos <= HISTORY_AUTOLOAD_THRESHOLD_ROWS
    }

    /// Scrolls the message view up (toward older messages), saturating.
    pub fn scroll_messages_up(&mut self, amount: u16)
        ensures
            scrolled_up(old(self), final(self), amount),
    {
        self.message_scroll_from_bottom = self.message_scroll_from_bottom.saturating_add(amount);
    }

    /// Scrolls the message view down (toward newer messages), stopping at the bottom.
    pub fn scroll_messages_down(&mut self, amount: u16)
        ensures
            scrolled_down(old(self), final(self), amount),
    {
        self.message_scroll_from_bottom = self.message_scroll_from_bottom.saturating_sub(amount);
    }

    /// Shows a status message until it is replaced or cleared.
    pub fn set_status(&mut self, message: String)
        ensures
            *final(self) == (App { status_message: message, status_message_until: None, ..*old(self) }),
    {
        self.status_message = message;
        self.status_message_until = None;
    }

    /// Shows a status message that expires `duration_ms` milliseconds after the state's clock.
    pub fn set_transient_status(&mut self, message: String, duration_ms: u64)
        requires
            old(self).clock + duration_ms * 1_000_000 <= i128::MAX,
        ensures
            *final(self) == (App {
                status_message: message,
                status_message_until: Some((old(self).clock + duration_ms * 1_000_000) as i128),
                ..*old(self)
            }),
    {
        self.status_message = message;
        let until: i128 = self.clock + (duration_ms as i128) * 1_000_000;
        self.status_message_until = Some(until);
    }

    /// Clears the status line.
    pub fn clear_status(&mut self)
        ensures
            final(self).status_message@.len() == 0,
            *final(self) == (App {
                status_message: final(self).status_message,
                status_message_until: None,
                ..*old(self)
            }),
    {
        self.status_message = String::new();
        self.status_message_until = None;
    }

    /// Clears a transient status once the clock has reached its expiry.
    pub fn expire_status_if_needed(&mut self)
        ensures
            (old(self).status_message_until matches Some(u) && old(self).clock >= u)
                ==> final(self).status_message@.len() == 0,
            (old(self).status_message_until matches Some(u) && old(self).clock >= u)
                ==> *final(self) == (App {
                status_message: final(self).status_message,
                status_message_until: None,
                ..*old(self)
            }),
            !(old(self).status_message_until matches Some(u) && old(self).clock >= u)
                ==> *final(self) == *old(self),
    {
        let expired = match self.status_message_until {
            Some(u) => self.clock >= u,
            None => false,
        };
        if expired {
            self.clear_status();
        }
    }

    /// Opens the help overlay at its top.
    pub fn open_help(&mut self)
        ensures
            *final(self) == (App { help_scroll: 0, show_help: true, ..*old(self) }),
    {
        self.help_scroll = 0;
        self.show_help = true;
    }

    /// Closes the image preview.
    pub fn dismiss_image_preview(&mut self)
        ensures
            *final(self) == (App { image_preview: None, ..*old(self) }),
    {
        self.image_preview = None;
    }
}

} // verus!
