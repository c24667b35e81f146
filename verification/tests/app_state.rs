use fluxer_tui::app::{
    clock_now_millis, clock_now_nanos, epoch_nanos, rfc3339_at_millis, utc_now_rfc3339, App, ReadState,
    ServerSelection,
};
use fluxer_tui::app::ImagePreviewState;
use fluxer_tui::events::{apply_event, AppEvent};
use fluxer_tui::preview::animation_ready;
use fluxer_tui::server_settings::notification_rows;
use fluxer_tui::config::UiSettings;
use fluxer_tui::store::StrMap;
use fluxer_tui::types::{
    ChannelResponse, GuildResponse, MessageResponse, UserGuildChannelOverride,
    UserGuildSettingsResponse, UserPartialResponse, UserPrivateResponse, WellKnownFluxerResponse,
    UserGuildMuteConfig, CHANNEL_DM, CHANNEL_GUILD_TEXT, CHANNEL_GUILD_VOICE,
    MESSAGE_NOTIFICATIONS_ONLY_MENTIONS,
};

fn test_app(private_channels: Vec<ChannelResponse>) -> App {
    let mut me = UserPrivateResponse::default();
    me.id = "me".to_string();

    App::new(
        WellKnownFluxerResponse::default(),
        me,
        None,
        Vec::new(),
        private_channels,
        ServerSelection::DirectMessages,
        None,
        UiSettings::default(),
    )
}

fn guild_app(channels: Vec<ChannelResponse>) -> App {
    let mut app = test_app(Vec::new());
    app.guilds.push(GuildResponse {
        id: "guild-1".to_string(),
        name: "Guild".to_string(),
        ..GuildResponse::default()
    });
    app.guild_channels.insert("guild-1".to_string(), channels);
    app.selected_server = ServerSelection::Guild("guild-1".to_string());
    app
}

#[test]
fn channel_last_message_id_prefers_newer_channel_metadata() {
    let channel = ChannelResponse {
        id: "dm-1".to_string(),
        kind: CHANNEL_DM,
        last_message_id: Some("300".to_string()),
        ..ChannelResponse::default()
    };
    let mut app = test_app(vec![channel]);
    app.messages.insert(
        "dm-1".to_string(),
        vec![
            MessageResponse {
                id: "100".to_string(),
                channel_id: "dm-1".to_string(),
                ..MessageResponse::default()
            },
            MessageResponse {
                id: "250".to_string(),
                channel_id: "dm-1".to_string(),
                ..MessageResponse::default()
            },
        ],
    );

    assert_eq!(app.channel_last_message_id("dm-1").as_deref(), Some("300"));
}

#[test]
fn ack_channel_uses_channel_metadata_without_cached_messages() {
    let channel = ChannelResponse {
        id: "dm-1".to_string(),
        kind: CHANNEL_DM,
        last_message_id: Some("400".to_string()),
        ..ChannelResponse::default()
    };
    let mut app = test_app(vec![channel]);

    app.ack_channel("dm-1");

    assert_eq!(
        app.read_states
            .get("dm-1")
            .and_then(|state| state.last_message_id.as_deref()),
        Some("400")
    );
    assert_eq!(app.channel_mention_count("dm-1"), 0);
}

#[test]
fn auto_load_history_only_near_top_when_enabled() {
    let mut app = test_app(Vec::new());
    app.message_scroll_max = 24;

    app.message_scroll_from_bottom = 20;
    assert!(!app.should_auto_load_history_on_scroll_up());

    app.message_scroll_from_bottom = 21;
    assert!(app.should_auto_load_history_on_scroll_up());
}

#[test]
fn auto_load_history_uses_scroll_threshold() {
    let mut app = test_app(Vec::new());
    app.message_scroll_max = 24;
    app.message_scroll_from_bottom = 18;

    assert!(!app.should_auto_load_history_on_scroll_up());
}

#[test]
fn server_aggregates_unread_channels_and_mentions() {
    let mut app = test_app(Vec::new());
    app.guilds.push(GuildResponse {
        id: "guild-1".to_string(),
        name: "Guild".to_string(),
        ..GuildResponse::default()
    });
    app.guild_channels.insert(
        "guild-1".to_string(),
        vec![
            ChannelResponse {
                id: "chan-1".to_string(),
                guild_id: Some("guild-1".to_string()),
                name: "alpha".to_string(),
                kind: CHANNEL_GUILD_TEXT,
                last_message_id: Some("200".to_string()),
                ..ChannelResponse::default()
            },
            ChannelResponse {
                id: "chan-2".to_string(),
                guild_id: Some("guild-1".to_string()),
                name: "beta".to_string(),
                kind: CHANNEL_GUILD_TEXT,
                last_message_id: Some("300".to_string()),
                ..ChannelResponse::default()
            },
        ],
    );
    app.read_states.insert(
        "chan-1".to_string(),
        ReadState {
            last_message_id: Some("150".to_string()),
            mention_count: 0,
        },
    );
    app.read_states.insert(
        "chan-2".to_string(),
        ReadState {
            last_message_id: Some("300".to_string()),
            mention_count: 2,
        },
    );

    let server = ServerSelection::Guild("guild-1".to_string());
    assert_eq!(app.server_unread_channel_count(&server), 1);
    assert_eq!(app.server_mention_count(&server), 2);
}

#[test]
fn muted_server_hides_unread_only_activity() {
    let mut app = guild_app(vec![
        ChannelResponse {
            id: "chan-1".to_string(),
            guild_id: Some("guild-1".to_string()),
            name: "alpha".to_string(),
            kind: CHANNEL_GUILD_TEXT,
            position: 1,
            last_message_id: Some("200".to_string()),
            ..ChannelResponse::default()
        },
        ChannelResponse {
            id: "chan-2".to_string(),
            guild_id: Some("guild-1".to_string()),
            name: "beta".to_string(),
            kind: CHANNEL_GUILD_TEXT,
            position: 2,
            last_message_id: Some("300".to_string()),
            ..ChannelResponse::default()
        },
    ]);
    app.read_states.insert(
        "chan-1".to_string(),
        ReadState {
            last_message_id: Some("150".to_string()),
            mention_count: 0,
        },
    );
    app.read_states.insert(
        "chan-2".to_string(),
        ReadState {
            last_message_id: Some("300".to_string()),
            mention_count: 2,
        },
    );
    app.upsert_user_guild_settings(UserGuildSettingsResponse {
        guild_id: Some("guild-1".to_string()),
        muted: true,
        ..UserGuildSettingsResponse::default()
    });

    let server = ServerSelection::Guild("guild-1".to_string());
    assert_eq!(app.server_unread_channel_count(&server), 0);
    assert_eq!(app.server_mention_count(&server), 2);
}

#[test]
fn hide_muted_channels_filters_sidebar_entries() {
    let mut app = guild_app(vec![
        ChannelResponse {
            id: "chan-1".to_string(),
            guild_id: Some("guild-1".to_string()),
            name: "alpha".to_string(),
            kind: CHANNEL_GUILD_TEXT,
            position: 1,
            ..ChannelResponse::default()
        },
        ChannelResponse {
            id: "chan-2".to_string(),
            guild_id: Some("guild-1".to_string()),
            name: "beta".to_string(),
            kind: CHANNEL_GUILD_TEXT,
            position: 2,
            ..ChannelResponse::default()
        },
    ]);
    app.selected_channel_id = Some("chan-2".to_string());
    let mut overrides = StrMap::new();
    overrides.insert(
        "chan-1".to_string(),
        UserGuildChannelOverride {
            muted: true,
            ..UserGuildChannelOverride::default()
        },
    );
    app.upsert_user_guild_settings(UserGuildSettingsResponse {
        guild_id: Some("guild-1".to_string()),
        hide_muted_channels: true,
        channel_overrides: overrides,
        ..UserGuildSettingsResponse::default()
    });

    let visible = app.channels_for_server(&ServerSelection::Guild("guild-1".to_string()));
    assert_eq!(visible.len(), 1);
    assert_eq!(visible[0].id, "chan-2");
}

#[test]
fn suppress_everyone_blocks_local_mention_increment() {
    let mut app = guild_app(vec![ChannelResponse {
        id: "chan-1".to_string(),
        guild_id: Some("guild-1".to_string()),
        name: "alpha".to_string(),
        kind: CHANNEL_GUILD_TEXT,
        position: 1,
        last_message_id: Some("200".to_string()),
        ..ChannelResponse::default()
    }]);
    app.upsert_user_guild_settings(UserGuildSettingsResponse {
        guild_id: Some("guild-1".to_string()),
        suppress_everyone: true,
        ..UserGuildSettingsResponse::default()
    });
    app.read_states.insert(
        "chan-1".to_string(),
        ReadState {
            last_message_id: Some("150".to_string()),
            mention_count: 0,
        },
    );

    app.on_gateway_message_create(&MessageResponse {
        id: "250".to_string(),
        channel_id: "chan-1".to_string(),
        mention_everyone: true,
        author: UserPartialResponse {
            id: "other".to_string(),
            ..UserPartialResponse::default()
        },
        ..MessageResponse::default()
    });

    assert_eq!(app.channel_mention_count("chan-1"), 0);
}

#[test]
fn epoch_nanos_signs_and_saturates() {
    assert_eq!(epoch_nanos(Ok(1_700_000_000_000_000_000)), 1_700_000_000_000_000_000i128);
    assert_eq!(epoch_nanos(Err(42)), -42);
    assert_eq!(epoch_nanos(Ok(u128::MAX)), i128::MAX);
    assert_eq!(epoch_nanos(Err(u128::MAX)), -i128::MAX);
}

#[test]
fn clock_reads_after_the_epoch() {
    assert!(clock_now_nanos() > 1_600_000_000_000_000_000i128);
}

fn guild_channel(id: &str, kind: i32, position: i32) -> ChannelResponse {
    ChannelResponse {
        id: id.to_string(),
        kind,
        position,
        guild_id: Some("guild-1".to_string()),
        ..ChannelResponse::default()
    }
}

#[test]
fn next_text_channel_skips_voice_channels() {
    let mut app = guild_app(vec![
        guild_channel("text-a", CHANNEL_GUILD_TEXT, 0),
        guild_channel("voice-b", CHANNEL_GUILD_VOICE, 1),
        guild_channel("text-c", CHANNEL_GUILD_TEXT, 2),
    ]);
    app.selected_channel_id = Some("text-a".to_string());
    assert!(app.move_channel_wrapping(1));
    assert_eq!(app.selected_channel_id.as_deref(), Some("text-c"));
    assert!(app.move_channel_wrapping(1));
    assert_eq!(app.selected_channel_id.as_deref(), Some("text-a"));
    assert!(app.move_channel_wrapping(-1));
    assert_eq!(app.selected_channel_id.as_deref(), Some("text-c"));
}

#[test]
fn recorded_message_moves_last_message_forward_only() {
    let channel = ChannelResponse {
        id: "dm-1".to_string(),
        kind: CHANNEL_DM,
        last_message_id: Some("300".to_string()),
        ..ChannelResponse::default()
    };
    let mut app = test_app(vec![channel]);
    app.patch_channel_last_message_id("dm-1", "200");
    assert_eq!(app.private_channels[0].last_message_id.as_deref(), Some("300"));
    app.patch_channel_last_message_id("dm-1", "400");
    assert_eq!(app.private_channels[0].last_message_id.as_deref(), Some("400"));
}

#[test]
fn notification_overlay_rows_follow_the_cursor_order() {
    let app = guild_app(Vec::new());
    let rows = app.server_notification_rows().expect("a community is selected");
    let labels: Vec<&str> = rows.iter().map(|r| r.label.as_str()).collect();
    assert_eq!(
        labels,
        vec![
            "Mute notifications",
            "Notification level",
            "Suppress @everyone / @here",
            "Suppress role mentions",
            "Hide muted channels",
            "Mobile push",
        ]
    );
    assert_eq!(rows[0].value, "Off");
    assert_eq!(rows[0].detail, "Unread dots are suppressed unless you are mentioned");
    assert_eq!(rows[1].value, "All Messages");
    assert_eq!(rows[2].value, "Off");
    assert_eq!(rows[5].value, "On");
    let dms = test_app(Vec::new());
    assert!(dms.server_notification_rows().is_none());
}

#[test]
fn notification_rows_show_the_mute_deadline_in_utc() {
    let mut settings = UserGuildSettingsResponse::default();
    settings.muted = true;
    settings.mute_config = Some(UserGuildMuteConfig {
        end_time: Some("2024-05-06T07:08:09.500+02:00".to_string()),
        selected_time_window: Some(3_600_000),
    });
    let rows = notification_rows(&settings, MESSAGE_NOTIFICATIONS_ONLY_MENTIONS, 2);
    assert_eq!(rows[0].value, "1 hour");
    assert_eq!(rows[0].detail, "2024-05-06 05:08:09 UTC");
    assert_eq!(rows[1].value, "Only @mentions");
}

#[test]
fn rfc3339_text_of_milliseconds() {
    assert_eq!(rfc3339_at_millis(0).as_deref(), Some("1970-01-01T00:00:00.000Z"));
    assert_eq!(rfc3339_at_millis(1_700_000_000_123).as_deref(), Some("2023-11-14T22:13:20.123Z"));
    assert_eq!(rfc3339_at_millis(-1).as_deref(), Some("1969-12-31T23:59:59.999Z"));
    assert_eq!(rfc3339_at_millis(9_000_000_000_000_000), None);
    assert!(utc_now_rfc3339().starts_with("20"));
    assert!(clock_now_millis() > 1_600_000_000_000);
}

#[test]
fn finished_image_load_never_reopens_a_closed_preview() {
    let mut app = test_app(Vec::new());
    let eff = apply_event(
        &mut app,
        AppEvent::ImagePreviewReady { title: "cat.png".to_string(), lines: vec!["##".to_string()] },
    );
    assert!(app.image_preview.is_none());
    assert!(eff.persist_token.is_none() && eff.chafa_fallback.is_none() && eff.decode_image.is_none());
    app.image_preview = Some(ImagePreviewState::Loading { title: "cat.png".to_string() });
    apply_event(&mut app, AppEvent::ImagePreviewFailed { message: "no decoder".to_string() });
    assert!(matches!(&app.image_preview, Some(ImagePreviewState::Failed { message }) if message == "no decoder"));
    apply_event(
        &mut app,
        AppEvent::ImagePreviewReady { title: "cat.png".to_string(), lines: vec!["##".to_string()] },
    );
    assert!(matches!(&app.image_preview, Some(ImagePreviewState::Failed { .. })));
}

#[test]
fn animation_passes_over_frames_without_delay() {
    let mut app = test_app(Vec::new());
    app.image_preview = Some(ImagePreviewState::ReadyAnimatedGif {
        title: "a.gif".to_string(),
        delays_ms: vec![0, 50, 0, 30],
        frame_idx: 0,
        elapsed_ms: 0,
    });
    assert!(animation_ready(&app));
    assert!(app.advance_image_preview_animation(10));
    assert!(matches!(&app.image_preview, Some(ImagePreviewState::ReadyAnimatedGif { frame_idx: 1, elapsed_ms: 10, .. })));
    assert!(app.advance_image_preview_animation(45));
    assert!(matches!(&app.image_preview, Some(ImagePreviewState::ReadyAnimatedGif { frame_idx: 3, elapsed_ms: 5, .. })));
    app.image_preview = Some(ImagePreviewState::ReadyAnimatedGif {
        title: "b.gif".to_string(),
        delays_ms: vec![0, 0],
        frame_idx: 0,
        elapsed_ms: 0,
    });
    assert!(!animation_ready(&app));
}
