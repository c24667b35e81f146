use fluxer_tui::auth::{format_login_code, handoff_step, login_url, HandoffStep};
use fluxer_tui::config::{gateway_connect_url, webapp_url};
use fluxer_tui::events::clock_for_events;
use fluxer_tui::markdown::{format_discord_timestamp, stamp_seconds, stamp_text};
use fluxer_tui::media::char_to_ascii_lowercase;
use fluxer_tui::slash_commands::{command_name_query, resolve_outgoing_slash, OutgoingSlash};
use fluxer_tui::text::{char_is_control, char_is_whitespace};

fn sent(line: &str) -> Option<String> {
    match resolve_outgoing_slash(line, None, "me", "me", 0) {
        OutgoingSlash::SendContent(s) => Some(s),
        _ => None,
    }
}

#[test]
fn emoticon_commands_append_to_the_message() {
    assert_eq!(sent("/tableflip hi").as_deref(), Some("hi (╯°□°)╯︵ ┻━┻"));
    assert_eq!(sent("/shrug oh well").as_deref(), Some("oh well ¯\\_(ツ)_/¯"));
    assert_eq!(sent("/unflip calm").as_deref(), Some("calm ┬─┬ ノ( ゜-゜ノ)"));
    assert_eq!(sent("/tableflip").as_deref(), Some("(╯°□°)╯︵ ┻━┻"));
    assert!(matches!(resolve_outgoing_slash("/shrugs", None, "me", "me", 0), OutgoingSlash::Normal));
}

#[test]
fn command_query_keeps_a_lone_carriage_return() {
    assert_eq!(command_name_query("/sh\r").as_deref(), Some("sh\r"));
    assert_eq!(command_name_query("/sh\r\nmore").as_deref(), Some("sh"));
}

#[test]
fn login_code_is_grouped_in_fours() {
    assert_eq!(format_login_code("ABCD1234"), "ABCD-1234");
    assert_eq!(format_login_code("ABC"), "ABC");
    assert_eq!(login_url("https://fluxer.app"), "https://fluxer.app/login?desktop_handoff=1");
}

#[test]
fn login_poll_answers() {
    assert_eq!(
        handoff_step(Some(("completed".to_string(), Some("tok".to_string())))),
        HandoffStep::Completed("tok".to_string())
    );
    assert_eq!(handoff_step(Some(("completed".to_string(), None))), HandoffStep::MissingToken);
    assert_eq!(handoff_step(Some(("expired".to_string(), None))), HandoffStep::Expired);
    assert_eq!(handoff_step(Some(("pending".to_string(), None))), HandoffStep::Wait);
    assert_eq!(handoff_step(None), HandoffStep::Wait);
}

#[test]
fn service_addresses() {
    assert_eq!(webapp_url(""), "https://fluxer.app");
    assert_eq!(webapp_url("https://web.example//"), "https://web.example");
    assert_eq!(gateway_connect_url("wss://gw.example/"), "wss://gw.example/?v=1&encoding=json");
}

#[test]
fn timestamps_out_of_range_stay_as_markup() {
    assert_eq!(format_discord_timestamp("99999999999999:R"), "<t:99999999999999:R>");
    assert_eq!(format_discord_timestamp("abc"), "<t:abc>");
    assert!(format_discord_timestamp("0").starts_with("19"));
}

#[test]
fn character_classes() {
    assert!(char_is_whitespace('\u{3000}'));
    assert!(!char_is_whitespace('x'));
    assert!(char_is_control('\u{7f}'));
    assert!(!char_is_control('a'));
    assert_eq!(char_to_ascii_lowercase('Q'), 'q');
    assert_eq!(char_to_ascii_lowercase('É'), 'É');
}

#[test]
fn timestamps_in_range_show_a_local_time() {
    let t = format_discord_timestamp("1700000000:R");
    assert!(t.chars().count() >= 16);
    assert!(!t.starts_with('<'));
    let cs: Vec<char> = t.chars().collect();
    assert_eq!(cs[cs.len() - 3], ':');
    assert_eq!(stamp_seconds("1700000000:R"), Some(1_700_000_000));
    assert_eq!(stamp_seconds("-5"), Some(-5));
    assert_eq!(stamp_seconds("x:R"), None);
    assert_eq!(stamp_text("1:R", None), "<t:1:R>");
    assert_eq!(stamp_text("1:R", Some("1970-01-01 00:00".to_string())), "1970-01-01 00:00");
}

#[test]
fn event_clock_is_held_below_the_deadline_limit() {
    assert_eq!(clock_for_events(5), 5);
    assert_eq!(clock_for_events(i128::MAX), i128::MAX - 180_000_000_000);
}
