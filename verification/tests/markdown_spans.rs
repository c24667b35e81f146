use fluxer_tui::app::{App, ServerSelection};
use fluxer_tui::config::UiSettings;
use fluxer_tui::markdown::{parse_message_spans, StyledSpan, Tint};
use fluxer_tui::types::{UserPrivateResponse, WellKnownFluxerResponse};

fn test_app() -> App {
    let mut me = UserPrivateResponse::default();
    me.id = "me".to_string();
    App::new(
        WellKnownFluxerResponse::default(),
        me,
        None,
        Vec::new(),
        Vec::new(),
        ServerSelection::DirectMessages,
        None,
        UiSettings::default(),
    )
}

fn joined_text(spans: &[StyledSpan]) -> String {
    spans.iter().map(|span| span.text.as_str()).collect()
}

fn link_texts(spans: &[StyledSpan]) -> Vec<&str> {
    spans
        .iter()
        .filter(|span| span.style.fg == Some(Tint::Link))
        .map(|span| span.text.as_str())
        .collect()
}

#[test]
fn parses_single_asterisk_italics() {
    let app = test_app();
    let spans = parse_message_spans("alpha *bravo* charlie", &app);

    assert_eq!(joined_text(&spans), "alpha bravo charlie");
    assert!(spans.iter().any(|span| span.text == "bravo" && span.style.italic));
}

#[test]
fn parses_markdown_links_and_autolinks_without_literal_markup() {
    let app = test_app();
    let spans = parse_message_spans("[Fluxer](https://fluxer.app) and <https://fluxer.app>", &app);

    assert_eq!(joined_text(&spans), "Fluxer and https://fluxer.app");
    assert!(link_texts(&spans).contains(&"Fluxer"));
    assert!(link_texts(&spans).contains(&"https://fluxer.app"));
}

#[test]
fn double_asterisks_make_bold_text() {
    let app = test_app();
    let spans = parse_message_spans("a **b** c", &app);
    assert_eq!(joined_text(&spans), "a b c");
    assert!(spans.iter().any(|span| span.text == "b" && span.style.bold));
}

#[test]
fn inline_code_keeps_its_markup_characters() {
    let app = test_app();
    let spans = parse_message_spans("run `*x*` now", &app);
    assert_eq!(joined_text(&spans), "run *x* now");
    assert!(!spans.iter().any(|span| span.style.italic));
}

#[test]
fn lone_asterisk_stays_literal() {
    let app = test_app();
    let spans = parse_message_spans("2 * 3", &app);
    assert_eq!(joined_text(&spans), "2 * 3");
    assert!(!spans.iter().any(|span| span.style.italic));
}

#[test]
fn plain_text_is_one_run_of_text() {
    let app = test_app();
    let spans = parse_message_spans("hello there", &app);
    assert_eq!(joined_text(&spans), "hello there");
    assert!(link_texts(&spans).is_empty());
}
