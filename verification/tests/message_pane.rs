use fluxer_tui::app::{App, ServerSelection};
use fluxer_tui::config::UiSettings;
use fluxer_tui::markdown::Tint;
use fluxer_tui::pane::{
    build_message_lines, channel_welcome_lines, truncate_to_display_width, PaneLine, PaneText,
};
use fluxer_tui::types::{
    ChannelResponse, MessageAttachmentResponse, MessageReactionResponse, MessageReferenceResponse,
    MessageResponse, ReactionEmojiResponse, UserPartialResponse, UserPrivateResponse,
    WellKnownFluxerResponse,
};

fn test_app() -> App {
    let mut me = UserPrivateResponse::default();
    me.id = "me".to_string();
    App::new(
        WellKnownFluxerResponse::default(),
        me,
        None,
        Vec::new(),
        Vec::new(),
        ServerSelection::DirectMessages,
        None,
        UiSettings::default(),
    )
}

fn msg(id: &str, author: &str, ts: &str, content: &str) -> MessageResponse {
    MessageResponse {
        id: id.to_string(),
        channel_id: "dm-1".to_string(),
        author: UserPartialResponse { id: author.to_string(), username: author.to_string(), ..UserPartialResponse::default() },
        timestamp: ts.to_string(),
        content: content.to_string(),
        ..MessageResponse::default()
    }
}

fn texts(line: &PaneLine) -> Vec<String> {
    line.spans
        .iter()
        .map(|s| match &s.text {
            PaneText::Text(t) => t.clone(),
            PaneText::Stamp { raw, lead, trail } => format!("{lead}<{raw}>{trail}"),
            PaneText::Size { bytes, lead, trail } => format!("{lead}<{bytes:?}>{trail}"),
        })
        .collect()
}

#[test]
fn messages_from_one_author_within_minutes_are_grouped() {
    let app = test_app();
    let msgs = vec![
        msg("1", "u1", "2024-01-01T10:00:00Z", "first"),
        msg("2", "u1", "2024-01-01T10:03:00Z", "second"),
        msg("3", "u1", "2024-01-01T10:09:00Z", "third"),
    ];
    let (lines, ranges) = build_message_lines(&app, &msgs, 80);
    // first: header + text; second: text only; third: gap, header, text
    assert_eq!(lines.len(), 6);
    assert_eq!(ranges, vec![(0, 2), (2, 3), (4, 6)]);
    assert_eq!(texts(&lines[1]), vec!["first".to_string()]);
    assert_eq!(texts(&lines[2]), vec!["second".to_string()]);
    assert!(lines[3].spans.is_empty());
    let header = texts(&lines[4]);
    assert_eq!(header[0], "  ");
    assert_eq!(header[1], "[<2024-01-01T10:09:00Z>] ");
    assert_eq!(header[2], "u1");
}

#[test]
fn a_selected_message_is_marked_and_highlighted() {
    let mut app = test_app();
    app.selected_message_index = Some(0);
    let msgs = vec![msg("1", "u1", "2024-01-01T10:00:00Z", "hi")];
    let (lines, _) = build_message_lines(&app, &msgs, 80);
    assert_eq!(texts(&lines[0])[0], "\u{25B6} ");
    assert_eq!(lines[0].style.bg, Some(Tint::BgTertiary));
}

#[test]
fn a_forwarded_message_has_a_context_line() {
    let app = test_app();
    let mut m = msg("1", "u1", "2024-01-01T10:00:00Z", "");
    m.message_reference = Some(MessageReferenceResponse { reference_type: 1, ..MessageReferenceResponse::default() });
    let (lines, ranges) = build_message_lines(&app, &vec![m], 80);
    assert_eq!(ranges, vec![(0, 2)]);
    assert_eq!(texts(&lines[0]), vec!["  ".to_string(), "\u{21AA} ".to_string(), "Forwarded".to_string()]);
    assert!(lines[0].spans[2].style.italic);
}

#[test]
fn attachments_and_reactions_have_their_own_lines() {
    let app = test_app();
    let mut m = msg("1", "u1", "2024-01-01T10:00:00Z", "see");
    m.attachments.push(MessageAttachmentResponse {
        filename: "a.png".to_string(),
        content_type: Some("image/png".to_string()),
        size: Some(2048),
        ..MessageAttachmentResponse::default()
    });
    m.reactions.push(MessageReactionResponse {
        emoji: ReactionEmojiResponse { id: None, name: "\u{1F44D}".to_string(), animated: false },
        count: 12,
        me: true,
    });
    m.reactions.push(MessageReactionResponse {
        emoji: ReactionEmojiResponse { id: Some("9".to_string()), name: "party".to_string(), animated: false },
        count: 1,
        me: false,
    });
    let (lines, _) = build_message_lines(&app, &vec![m], 80);
    assert_eq!(lines.len(), 4);
    assert_eq!(
        texts(&lines[2]),
        vec!["\u{1F4CE} ".to_string(), "a.png".to_string(), " [image/png \u{00B7} <Some(2048)>]".to_string()]
    );
    assert_eq!(
        texts(&lines[3]),
        vec![" \u{1F44D} 12".to_string(), " ".to_string(), " :party: 1".to_string(), " ".to_string()]
    );
    assert!(lines[3].spans[0].style.bold);
    assert_eq!(lines[3].spans[2].style.fg, Some(Tint::TextDim));
}

#[test]
fn client_notices_are_boxed() {
    let app = test_app();
    let mut m = msg("1", "0", "2024-01-01T10:00:00Z", "nick changed");
    m.message_type = 99;
    let (lines, ranges) = build_message_lines(&app, &vec![m], 80);
    assert_eq!(ranges, vec![(0, 5)]);
    assert_eq!(texts(&lines[0])[2], "Fluxerbot");
    assert_eq!(texts(&lines[2])[2], "nick changed");
    assert_eq!(texts(&lines[4])[1], "\u{2570}\u{2500}");
}

#[test]
fn long_text_is_cut_with_an_ellipsis() {
    assert_eq!(truncate_to_display_width("hello world", 5), "hell\u{2026}");
    assert_eq!(truncate_to_display_width("hello", 5), "hello");
    assert_eq!(truncate_to_display_width("hello", 0), "");
}

#[test]
fn the_welcome_names_the_channel() {
    let ch = ChannelResponse { id: "c".to_string(), name: "general".to_string(), kind: 0, ..ChannelResponse::default() };
    let lines = channel_welcome_lines(&ch);
    assert_eq!(lines.len(), 5);
    assert_eq!(texts(&lines[1])[0], "Welcome to ");
    assert!(texts(&lines[3])[0].starts_with("In the beginning, there was nothing. Then, there was "));
}
