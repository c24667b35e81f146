use fluxer_tui::app::{App, ServerSelection};
use fluxer_tui::config::UiSettings;
use fluxer_tui::pane::PaneText;
use fluxer_tui::sidebar::{channel_name, truncate_str};
use fluxer_tui::types::{
    ChannelResponse, UserPartialResponse, UserPrivateResponse, WellKnownFluxerResponse, CHANNEL_DM,
    CHANNEL_GROUP_DM, CHANNEL_GUILD_CATEGORY, CHANNEL_GUILD_TEXT,
};

fn test_app() -> App {
    let mut me = UserPrivateResponse::default();
    me.id = "me".to_string();
    App::new(
        WellKnownFluxerResponse::default(),
        me,
        None,
        Vec::new(),
        Vec::new(),
        ServerSelection::DirectMessages,
        None,
        UiSettings::default(),
    )
}

fn texts(app: &App, ch: &ChannelResponse, selected: bool, w: usize) -> Vec<String> {
    app.channel_label(ch, selected, w)
        .spans
        .iter()
        .map(|s| match &s.text {
            PaneText::Text(t) => t.clone(),
            _ => String::new(),
        })
        .collect()
}

#[test]
fn list_names_are_cut_with_an_ellipsis() {
    assert_eq!(truncate_str("general", 0), "");
    assert_eq!(truncate_str("general", 1), "\u{2026}");
    assert_eq!(truncate_str("general", 5), "gene\u{2026}");
    assert_eq!(truncate_str("gen", 5), "gen");
}

#[test]
fn direct_and_group_messages_are_named_by_their_people() {
    let alice = UserPartialResponse { id: "a".to_string(), username: "alice".to_string(), ..UserPartialResponse::default() };
    let bob = UserPartialResponse { id: "b".to_string(), username: "bob".to_string(), ..UserPartialResponse::default() };
    let dm = ChannelResponse { kind: CHANNEL_DM, recipients: vec![alice.clone()], ..ChannelResponse::default() };
    assert_eq!(channel_name(&dm), "alice");
    let empty_dm = ChannelResponse { kind: CHANNEL_DM, ..ChannelResponse::default() };
    assert_eq!(channel_name(&empty_dm), "Direct Message");
    let group = ChannelResponse { kind: CHANNEL_GROUP_DM, recipients: vec![alice, bob], ..ChannelResponse::default() };
    assert_eq!(channel_name(&group), "alice, bob");
}

#[test]
fn channel_rows_show_icon_name_and_category_capitals() {
    let app = test_app();
    let text = ChannelResponse {
        id: "c1".to_string(),
        name: "general".to_string(),
        kind: CHANNEL_GUILD_TEXT,
        ..ChannelResponse::default()
    };
    assert_eq!(texts(&app, &text, true, 40), vec!["# ".to_string(), "general".to_string()]);
    let cat = ChannelResponse { id: "k".to_string(), name: "Info".to_string(), kind: CHANNEL_GUILD_CATEGORY, raw_kind: CHANNEL_GUILD_CATEGORY, ..ChannelResponse::default() };
    assert_eq!(texts(&app, &cat, false, 40), vec!["  INFO".to_string()]);
}
