use fluxer_tui::app::{App, EditState, Focus, ServerSelection};
use fluxer_tui::config::UiSettings;
use fluxer_tui::keys::{handle_key_event, handle_paste_event, Key, KeyAction, KeyInput};
use fluxer_tui::requests::FetchRequest;
use fluxer_tui::types::{ChannelResponse, UserPrivateResponse, WellKnownFluxerResponse, CHANNEL_DM};

fn dm_app() -> App {
    let mut me = UserPrivateResponse::default();
    me.id = "me".to_string();
    me.username = "meuser".to_string();
    let dm = ChannelResponse {
        id: "dm-1".to_string(),
        kind: CHANNEL_DM,
        ..ChannelResponse::default()
    };
    App::new(
        WellKnownFluxerResponse::default(),
        me,
        None,
        Vec::new(),
        vec![dm],
        ServerSelection::DirectMessages,
        Some("dm-1".to_string()),
        UiSettings::default(),
    )
}

fn key(code: Key) -> KeyInput {
    KeyInput { code, ctrl: false, alt: false }
}

fn ctrl(code: Key) -> KeyInput {
    KeyInput { code, ctrl: true, alt: false }
}

fn type_text(app: &mut App, text: &str) {
    for c in text.chars() {
        let acts = handle_key_event(app, key(Key::Char(c)));
        assert!(acts.is_empty());
    }
}

#[test]
fn help_overlay_scrolls_and_closes() {
    let mut app = dm_app();
    app.show_help = true;
    handle_key_event(&mut app, key(Key::Char('j')));
    handle_key_event(&mut app, key(Key::PageDown));
    assert_eq!(app.help_scroll, 13);
    handle_key_event(&mut app, key(Key::Up));
    assert_eq!(app.help_scroll, 12);
    handle_key_event(&mut app, key(Key::Esc));
    assert!(!app.show_help);
}

#[test]
fn f1_and_ctrl_h_open_help_outside_the_input() {
    let mut app = dm_app();
    app.focus = Focus::Messages;
    handle_key_event(&mut app, ctrl(Key::Char('h')));
    assert!(app.show_help);
    assert_eq!(app.help_scroll, 0);
    let mut app = dm_app();
    handle_key_event(&mut app, key(Key::F(1)));
    assert!(app.show_help);
}

#[test]
fn f2_toggles_settings_and_space_saves_a_flipped_setting() {
    let mut app = dm_app();
    app.settings_cursor = 2;
    handle_key_event(&mut app, key(Key::F(2)));
    assert!(app.show_settings);
    assert_eq!(app.settings_cursor, 0);
    for _ in 0..5 {
        handle_key_event(&mut app, key(Key::Down));
    }
    assert_eq!(app.settings_cursor, 2);
    let before = app.ui_settings.performance_mode;
    let acts = handle_key_event(&mut app, key(Key::Char(' ')));
    assert_eq!(app.ui_settings.performance_mode, !before);
    assert!(matches!(acts.as_slice(), [KeyAction::SaveUiSettings]));
    handle_key_event(&mut app, key(Key::F(2)));
    assert!(!app.show_settings);
}

#[test]
fn pane_keys_quit_log_out_and_cycle_focus() {
    let mut app = dm_app();
    app.focus = Focus::Servers;
    handle_key_event(&mut app, key(Key::Tab));
    assert_eq!(app.focus, Focus::Channels);
    handle_key_event(&mut app, key(Key::BackTab));
    assert_eq!(app.focus, Focus::Servers);
    handle_key_event(&mut app, key(Key::Char('h')));
    assert_eq!(app.focus, Focus::Input);

    let mut app = dm_app();
    app.focus = Focus::Channels;
    handle_key_event(&mut app, ctrl(Key::Char('l')));
    assert!(app.should_logout && app.should_quit);

    let mut app = dm_app();
    app.focus = Focus::Channels;
    handle_key_event(&mut app, key(Key::Char('q')));
    assert!(app.should_quit && !app.should_logout);
}

#[test]
fn typing_editing_and_clearing_the_input() {
    let mut app = dm_app();
    app.focus = Focus::Input;
    type_text(&mut app, "hello big world");
    assert_eq!(app.input, "hello big world");
    handle_key_event(&mut app, ctrl(Key::Backspace));
    assert_eq!(app.input, "hello big ");
    handle_key_event(&mut app, key(Key::Backspace));
    assert_eq!(app.input, "hello big");
    handle_key_event(&mut app, ctrl(Key::Char('u')));
    assert_eq!(app.input, "");
    handle_key_event(&mut app, key(Key::Esc));
    assert_eq!(app.focus, Focus::Channels);
}

#[test]
fn enter_sends_the_trimmed_line_to_the_open_channel() {
    let mut app = dm_app();
    app.focus = Focus::Input;
    app.input = "  hello there  ".to_string();
    app.message_scroll_from_bottom = 7;
    let acts = handle_key_event(&mut app, key(Key::Enter));
    match acts.as_slice() {
        [KeyAction::SendMessage { channel_id, content, reply, forward, tts }] => {
            assert_eq!(channel_id, "dm-1");
            assert_eq!(content, "hello there");
            assert!(reply.is_none());
            assert!(!forward);
            assert!(!tts);
        }
        other => panic!("unexpected actions: {other:?}"),
    }
    assert_eq!(app.input, "");
    assert_eq!(app.message_scroll_from_bottom, 0);
}

#[test]
fn slash_commands_resolve_before_sending() {
    let mut app = dm_app();
    app.focus = Focus::Input;
    app.input = "/me waves".to_string();
    let acts = handle_key_event(&mut app, key(Key::Enter));
    match acts.as_slice() {
        [KeyAction::SendMessage { content, tts, .. }] => {
            assert_eq!(content, "_waves_");
            assert!(!tts);
        }
        other => panic!("unexpected actions: {other:?}"),
    }

    let mut app = dm_app();
    app.focus = Focus::Input;
    app.input = "/me".to_string();
    let acts = handle_key_event(&mut app, key(Key::Enter));
    assert!(acts.is_empty());
    assert_eq!(app.status_message, "Add text after /me (e.g. /me waves).");
    assert_eq!(app.input, "/me");
}

#[test]
fn editing_refuses_an_empty_message_and_saves_otherwise() {
    let mut app = dm_app();
    app.focus = Focus::Input;
    app.edit_target = Some(EditState { channel_id: "dm-1".to_string(), message_id: "55".to_string() });
    app.input = "   ".to_string();
    let acts = handle_key_event(&mut app, key(Key::Enter));
    assert!(acts.is_empty());
    assert_eq!(app.status_message, "Edited message cannot be empty.");

    app.input = "fixed".to_string();
    let acts = handle_key_event(&mut app, key(Key::Enter));
    match acts.as_slice() {
        [KeyAction::EditMessage { channel_id, message_id, content }] => {
            assert_eq!(channel_id, "dm-1");
            assert_eq!(message_id, "55");
            assert_eq!(content, "fixed");
        }
        other => panic!("unexpected actions: {other:?}"),
    }
}

#[test]
fn alt_a_without_other_channels_says_so() {
    let mut app = dm_app();
    app.focus = Focus::Channels;
    let acts = handle_key_event(&mut app, KeyInput { code: Key::Char('a'), ctrl: false, alt: true });
    assert!(acts.is_empty());
    assert_eq!(app.status_message, "No other channels with unread or mention activity.");
}

#[test]
fn esc_in_a_pane_clears_the_selection() {
    let mut app = dm_app();
    app.focus = Focus::Messages;
    app.selected_message_index = Some(3);
    handle_key_event(&mut app, key(Key::Esc));
    assert_eq!(app.selected_message_index, None);
    assert_eq!(app.focus, Focus::Channels);
}

#[test]
fn older_history_is_not_requested_without_messages() {
    let mut app = dm_app();
    app.focus = Focus::Messages;
    let acts = handle_key_event(&mut app, key(Key::Char('[')));
    assert!(acts.iter().all(|a| !matches!(a, KeyAction::Fetch(FetchRequest::OlderMessages { .. }))));
}

#[test]
fn paste_lands_in_the_input_sanitized() {
    let mut app = dm_app();
    app.focus = Focus::Input;
    app.input = "a".to_string();
    let acts = handle_paste_event(&mut app, "b\tc\r\nd\u{7}");
    assert!(acts.is_empty());
    assert_eq!(app.input, "ab c\nd");
}

#[test]
fn paste_is_ignored_behind_the_help_or_outside_the_input() {
    let mut app = dm_app();
    app.focus = Focus::Input;
    app.show_help = true;
    handle_paste_event(&mut app, "x");
    assert_eq!(app.input, "");

    let mut app = dm_app();
    app.focus = Focus::Channels;
    handle_paste_event(&mut app, "x");
    assert_eq!(app.input, "");
}

#[test]
fn paste_goes_to_the_open_channel_switcher_query() {
    let mut app = dm_app();
    handle_key_event(&mut app, ctrl(Key::Char('k')));
    assert!(app.channel_picker.is_some());
    handle_paste_event(&mut app, "ab\ncd\te");
    assert_eq!(app.channel_picker.as_ref().unwrap().query, "abcd e");
    handle_key_event(&mut app, key(Key::Backspace));
    assert_eq!(app.channel_picker.as_ref().unwrap().query, "abcd ");
    handle_key_event(&mut app, key(Key::Esc));
    assert!(app.channel_picker.is_none());
}
