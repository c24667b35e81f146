use fluxer_tui::app::{App, Focus, ServerSelection};
use fluxer_tui::config::UiSettings;
use fluxer_tui::input::{delete_word_backward, normalize_pasted_text, push_chars_respecting_limit, INPUT_MAX_CHARS};
use fluxer_tui::keys::{handle_key_event, Key, KeyInput};
use fluxer_tui::messages::u128_to_decimal;
use fluxer_tui::text::parse_u128;
use fluxer_tui::types::{ChannelResponse, UserPrivateResponse, WellKnownFluxerResponse, CHANNEL_DM};

fn app_with_dms(n: usize) -> App {
    let mut me = UserPrivateResponse::default();
    me.id = "me".to_string();
    let dms = (0..n)
        .map(|i| ChannelResponse { id: format!("dm-{i}"), kind: CHANNEL_DM, ..ChannelResponse::default() })
        .collect();
    App::new(
        WellKnownFluxerResponse::default(),
        me,
        None,
        Vec::new(),
        dms,
        ServerSelection::DirectMessages,
        None,
        UiSettings::default(),
    )
}

fn key(code: Key) -> KeyInput {
    KeyInput { code, ctrl: false, alt: false }
}

#[test]
fn switcher_down_then_up_returns_to_the_same_row() {
    let mut app = app_with_dms(3);
    handle_key_event(&mut app, KeyInput { code: Key::Char('k'), ctrl: true, alt: false });
    let start = app.channel_picker.as_ref().unwrap().selected;
    handle_key_event(&mut app, key(Key::Down));
    assert_ne!(app.channel_picker.as_ref().unwrap().selected, start);
    handle_key_event(&mut app, key(Key::Up));
    assert_eq!(app.channel_picker.as_ref().unwrap().selected, start);
    // and around the end
    handle_key_event(&mut app, key(Key::Up));
    handle_key_event(&mut app, key(Key::Down));
    assert_eq!(app.channel_picker.as_ref().unwrap().selected, start);
}

#[test]
fn paste_stops_at_the_input_limit() {
    let mut s = "x".repeat(INPUT_MAX_CHARS - 2);
    push_chars_respecting_limit(&mut s, "abcdef", INPUT_MAX_CHARS);
    assert_eq!(s.chars().count(), INPUT_MAX_CHARS);
    assert!(s.ends_with("ab"));
    push_chars_respecting_limit(&mut s, "more", INPUT_MAX_CHARS);
    assert_eq!(s.chars().count(), INPUT_MAX_CHARS);
}

#[test]
fn a_failed_request_waits_out_its_backoff() {
    let mut app = app_with_dms(0);
    app.clock = 1_000;
    assert!(app.api_backoff_can_try("members:g"));
    app.api_backoff_after_failure("members:g".to_string());
    assert!(!app.api_backoff_can_try("members:g"));
    app.clock = 1_000 + 180_000_000_000 - 1;
    assert!(!app.api_backoff_can_try("members:g"));
    app.clock = 1_000 + 180_000_000_000;
    assert!(app.api_backoff_can_try("members:g"));
}

#[test]
fn decimal_text_reads_back() {
    for n in [0u128, 7, 10, 99, 1234567890123, u64::MAX as u128] {
        assert_eq!(parse_u128(&u128_to_decimal(n)), Some(n));
    }
}

#[test]
fn dropping_carriage_returns_twice_changes_nothing_more() {
    let once = normalize_pasted_text("a\r\nb\r\r\nc");
    assert_eq!(once, "a\nb\nc");
    assert_eq!(normalize_pasted_text(&once), once);
}

#[test]
fn deleting_a_word_leaves_a_prefix() {
    let mut s = "one two  three  ".to_string();
    delete_word_backward(&mut s);
    assert_eq!(s, "one two  ");
    assert!("one two  three  ".starts_with(&s));
    let mut e = String::new();
    delete_word_backward(&mut e);
    assert_eq!(e, "");
}

#[test]
fn help_open_then_closed_leaves_the_state() {
    let mut app = app_with_dms(1);
    app.focus = Focus::Servers;
    app.help_scroll = 9;
    handle_key_event(&mut app, key(Key::F(1)));
    assert!(app.show_help);
    handle_key_event(&mut app, key(Key::Esc));
    assert!(!app.show_help);
    assert_eq!(app.help_scroll, 0);
    assert_eq!(app.focus, Focus::Servers);
}

#[test]
fn tab_then_backtab_returns_to_the_pane() {
    let mut app = app_with_dms(1);
    app.focus = Focus::Channels;
    handle_key_event(&mut app, key(Key::Tab));
    assert_eq!(app.focus, Focus::Messages);
    handle_key_event(&mut app, key(Key::BackTab));
    assert_eq!(app.focus, Focus::Channels);
}
