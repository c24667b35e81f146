//! What a key press does to the client: which overlay or pane takes it,
//! how it changes the state, and which requests the front end is asked to
//! send in response.
use crate::app::{
    opt_str, server_view, App, ChannelPicker, Focus, ImagePreviewState, ReplyState, ServerSelection,
    SERVER_NOTIFICATION_LAST_ROW, UI_SETTINGS_LAST_ROW,
};
use crate::picker::{picker_back, picker_confirmed, picker_filtered, picker_forward, picker_opened};
use crate::reads::{last_message_of, reads_set};
use crate::requests::{ack_due, FetchRequest};
use crate::server_settings::{cycle_patch, settings_patched, settings_toggled};
use crate::channels::normalized;
use crate::preview::preview_scrolled;
use crate::input::{
    delete_word_backward, normalize_pasted_text, pasted_chars, push_chars_respecting_limit, upto,
    without_cr, without_last_word, INPUT_MAX_CHARS,
};
use crate::media::{first_message_preview_media, preview_spec, MessagePreviewMedia};
use crate::navigation::{activity_next, channel_wrapped, delete_allowed, edit_allowed, edit_started};
use crate::selection::selected_spec;
use crate::types::MessageResponse;
use crate::autocomplete::{
    command_back, command_forward, command_inserted, command_synced, emoji_back, emoji_filtered,
    emoji_forward, emoji_inserted, emoji_refiltered,
};
use crate::mentions::{mention_back, mention_forward, mention_inserted, mention_refiltered, mention_started};
use crate::requests::member_fetch;
use crate::names::{display_name_spec, partial_of, reaction_api_spec};
use crate::typing::shown_name;
use crate::slash_commands::{resolve_spec, OutgoingSlash, SlashOutcome, SLASH_COMMAND_COUNT};
use crate::text::{ends_with, is_blank, is_ctrl, trim};
use crate::channels::{active_perms, active_spec};
use crate::navigation::{can_react, can_send, channel_moved, server_moved, text_channel};
use crate::lifecycle::{near_top, scrolled_down, scrolled_up};
use crate::selection::{active_list, reply_started, selection_moved};
use crate::requests::older_due;
use crate::store::key_pos;
use crate::caches::{backoff_key, guild_backoff_cleared};
use crate::members::guild_of_channel;
use crate::server_settings::notifications_opened;
use crate::types::{spec_channel_type, CHANNEL_GUILD_LINK};
use crate::text::concat;
use crate::text::{chars_of, push_char, str_eq, string_of};
use crate::types::UserGuildSettingsPatch;
use vstd::prelude::*;

verus! {

/// A key as the terminal reports it.
#[derive(Debug, Clone, Copy, PartialEq, Eq, Structural)]
pub enum Key {
    Char(char),
    Enter,
    Esc,
    Tab,
    BackTab,
    Backspace,
    Up,
    Down,
    Left,
    Right,
    PageUp,
    PageDown,
    Home,
    End,
    F(u8),
    Other,
}

/// A key press with the modifiers the client looks at.
#[derive(Debug, Clone, Copy, PartialEq, Eq, Structural)]
pub struct KeyInput {
    pub code: Key,
    pub ctrl: bool,
    pub alt: bool,
}

/// Work a key press asks of the front end.
#[derive(Debug)]
pub enum KeyAction {
    /// Send a request (loads, marking read, older history).
    Fetch(FetchRequest),
    /// Write the interface settings to the configuration file.
    SaveUiSettings,
    /// Send a guild's notification settings change.
    UpdateGuildSettings { guild_id: String, patch: UserGuildSettingsPatch },
    DeleteMessage { channel_id: String, message_id: String },
    /// Download an image and show it in the preview.
    PreviewImage { url: String, label: String },
    /// Download a video and hand it to an external player.
    OpenVideo { url: String, label: String },
    AddReaction { channel_id: String, message_id: String, emoji: String },
    EditMessage { channel_id: String, message_id: String, content: String },
    SendMessage {
        channel_id: String,
        content: String,
        reply: Option<ReplyState>,
        forward: bool,
        tts: bool,
    },
    ChangeNick {
        guild_id: String,
        nick: Option<String>,
        channel_id: String,
        prev_display: String,
        new_display: String,
    },
    /// Open a link channel's address in the browser.
    OpenUrl { url: String },
    /// Scroll the message pane so the selected message shows (needs the pane's layout).
    ClampScroll,
}

/// `x` asks to mark message `m` of channel `c` read.
pub open spec fn is_ack(x: KeyAction, c: Seq<char>, m: Seq<char>) -> bool {
    x matches KeyAction::Fetch(FetchRequest::Ack { channel_id, message_id }) && channel_id@ == c
        && message_id@ == m
}

/// `x` asks to load the history of channel `c` before message `m`.
pub open spec fn is_older(x: KeyAction, c: Seq<char>, m: Seq<char>) -> bool {
    x matches KeyAction::Fetch(FetchRequest::OlderMessages { channel_id, before }) && channel_id@ == c
        && before@ == m
}

/// `b` and `acts` are what leaving channel `c` does: when it is due to be
/// marked read and has a last message, that message is marked read and a
/// request for it is made; otherwise nothing happens.
pub open spec fn acked(a: &App, b: &App, c: Option<Seq<char>>, acts: Seq<KeyAction>) -> bool {
    if c is Some && ack_due(a, c->0) && last_message_of(a, c->0) is Some {
        &&& reads_set(a, b, c->0, (last_message_of(a, c->0), 0))
        &&& acts.len() == 1
        &&& is_ack(acts[0], c->0, last_message_of(a, c->0)->0)
    } else {
        *b == *a && acts.len() == 0
    }
}

/// `b` and `acts` follow a move away from channel `prev` that led to `a`:
/// when the selected channel changed, the channel left is acknowledged.
pub open spec fn left_channel(a: &App, b: &App, prev: Option<Seq<char>>, acts: Seq<KeyAction>) -> bool {
    if prev == opt_str(a.selected_channel_id) {
        *b == *a && acts.len() == 0
    } else {
        acked(a, b, prev, acts)
    }
}

/// `v` less `d`, stopping at zero.
pub open spec fn sat_sub(v: u16, d: u16) -> u16 {
    if v < d {
        0
    } else {
        (v - d) as u16
    }
}

/// `v` plus `d`, stopping at the largest value.
pub open spec fn sat_add(v: u16, d: u16) -> u16 {
    if v + d > u16::MAX {
        u16::MAX
    } else {
        (v + d) as u16
    }
}

/// `k` is one of the keys that close an overlay.
pub open spec fn closes(k: Key) -> bool {
    k == Key::Esc || k == Key::Enter || k == Key::Char('q')
}

/// `k` moves an overlay's cursor up.
pub open spec fn goes_up(k: Key) -> bool {
    k == Key::Up || k == Key::Char('k')
}

/// `k` moves an overlay's cursor down.
pub open spec fn goes_down(k: Key) -> bool {
    k == Key::Down || k == Key::Char('j')
}

/// The help overlay takes the key: close it, or scroll it by one row or a page.
pub open spec fn help_key(a: &App, b: &App, k: Key) -> bool {
    if closes(k) {
        *b == (App { show_help: false, ..*a })
    } else if goes_up(k) {
        *b == (App { help_scroll: sat_sub(a.help_scroll, 1), ..*a })
    } else if goes_down(k) {
        *b == (App { help_scroll: sat_add(a.help_scroll, 1), ..*a })
    } else if k == Key::PageUp {
        *b == (App { help_scroll: sat_sub(a.help_scroll, 12), ..*a })
    } else if k == Key::PageDown {
        *b == (App { help_scroll: sat_add(a.help_scroll, 12), ..*a })
    } else {
        *b == *a
    }
}

/// F2 shows or hides the settings; showing them puts the cursor on the
/// first row and closes the notification settings and any preview.
pub open spec fn settings_flipped(a: &App, b: &App) -> bool {
    if a.show_settings {
        *b == (App { show_settings: false, ..*a })
    } else {
        *b == (App {
            show_settings: true,
            settings_cursor: 0,
            show_server_notifications: false,
            image_preview: None,
            ..*a
        })
    }
}

/// The settings overlay takes the key: close it, move its cursor, or flip
/// the selected setting and ask for the settings to be saved.
pub open spec fn settings_key(a: &App, b: &App, k: Key, acts: Seq<KeyAction>) -> bool {
    if closes(k) {
        *b == (App { show_settings: false, ..*a }) && acts.len() == 0
    } else if goes_up(k) {
        *b == (App { settings_cursor: if a.settings_cursor == 0 { 0 } else { (a.settings_cursor - 1) as usize }, ..*a })
            && acts.len() == 0
    } else if goes_down(k) {
        *b == (App {
            settings_cursor: if a.settings_cursor >= UI_SETTINGS_LAST_ROW {
                UI_SETTINGS_LAST_ROW
            } else {
                (a.settings_cursor + 1) as usize
            },
            ..*a
        }) && acts.len() == 0
    } else if k == Key::Char(' ') || k == Key::Right || k == Key::Left {
        settings_toggled(a, b) && acts.len() == 1 && acts[0] is SaveUiSettings
    } else {
        *b == *a && acts.len() == 0
    }
}

/// `b` and `acts` follow stepping the selected notification setting by `delta`:
/// a changed setting is sent to the server.
pub open spec fn notification_cycled(a: &App, b: &App, delta: int, acts: Seq<KeyAction>) -> bool {
    if server_view(a.selected_server) is None || a.server_notification_cursor > 5 {
        *b == *a && acts.len() == 0
    } else {
        &&& acts.len() == 1
        &&& acts[0] matches KeyAction::UpdateGuildSettings { guild_id, patch }
        &&& Some(guild_id@) == server_view(a.selected_server)
        &&& cycle_patch(a, guild_id@, a.server_notification_cursor, delta, patch)
        &&& exists|mid: App| #[trigger]
            settings_patched(a, &mid, Some(guild_id@), patch) && *b == normalized(&mid)
    }
}

/// The notification settings overlay takes the key: close it, move its
/// cursor or scroll it, or step the selected setting back or forth.
pub open spec fn notifications_key(a: &App, b: &App, k: Key, acts: Seq<KeyAction>) -> bool {
    if k == Key::Left {
        notification_cycled(a, b, -1, acts)
    } else if k == Key::Right || k == Key::Char(' ') {
        notification_cycled(a, b, 1, acts)
    } else {
        acts.len() == 0 && if closes(k) {
            *b == (App { show_server_notifications: false, ..*a })
        } else if goes_up(k) {
            *b == (App {
                server_notification_cursor: if a.server_notification_cursor == 0 {
                    0
                } else {
                    (a.server_notification_cursor - 1) as usize
                },
                ..*a
            })
        } else if goes_down(k) {
            *b == (App {
                server_notification_cursor: if a.server_notification_cursor >= SERVER_NOTIFICATION_LAST_ROW {
                    SERVER_NOTIFICATION_LAST_ROW
                } else {
                    (a.server_notification_cursor + 1) as usize
                },
                ..*a
            })
        } else if k == Key::PageUp {
            *b == (App { server_notification_scroll: sat_sub(a.server_notification_scroll, 1), ..*a })
        } else if k == Key::PageDown {
            *b == (App { server_notification_scroll: sat_add(a.server_notification_scroll, 1), ..*a })
        } else if k == Key::Home {
            *b == (App { server_notification_scroll: 0, ..*a })
        } else if k == Key::End {
            *b == (App { server_notification_scroll: u16::MAX, ..*a })
        } else {
            *b == *a
        }
    }
}

/// The image preview takes the key: Esc or q closes it; a text-rendered
/// preview scrolls by a line or a page.
pub open spec fn preview_key(a: &App, b: &App, k: Key) -> bool {
    let text = a.image_preview matches Some(ImagePreviewState::ReadyChafa { .. });
    if k == Key::Esc || k == Key::Char('q') {
        *b == (App { image_preview: None, ..*a })
    } else if text && goes_up(k) {
        preview_scrolled(a, b, -1i32)
    } else if text && goes_down(k) {
        preview_scrolled(a, b, 1i32)
    } else if text && k == Key::PageUp {
        preview_scrolled(a, b, -12i32)
    } else if text && k == Key::PageDown {
        preview_scrolled(a, b, 12i32)
    } else {
        *b == *a
    }
}

/// `b` is `a` showing `msg` in the status bar until it is replaced.
pub open spec fn status_set(a: &App, b: &App, msg: Seq<char>) -> bool {
    *b == (App { status_message: b.status_message, status_message_until: None, ..*a }) && b.status_message@ == msg
}

/// `m` is `a` with the switcher's query replaced by one reading `q`.
pub open spec fn query_set(a: &App, m: &App, q: Seq<char>) -> bool {
    &&& a.channel_picker matches Some(p)
    &&& m.channel_picker matches Some(mp)
    &&& mp.query@ == q
    &&& mp == (ChannelPicker { query: mp.query, ..a.channel_picker->0 })
    &&& *m == (App { channel_picker: m.channel_picker, ..*a })
}

/// `b` is `a` with the switcher's query set to `q` and its rows refiltered.
pub open spec fn requeried(a: &App, b: &App, q: Seq<char>) -> bool {
    exists|m: App| #[trigger] query_set(a, &m, q) && picker_filtered(&m, b)
}

/// The open channel switcher takes the key: close it, move its selection,
/// jump to the selected row (acknowledging the channel left), or edit its
/// query and refilter.
pub open spec fn picker_key(a: &App, b: &App, k: KeyInput, acts: Seq<KeyAction>) -> bool {
    let q = a.channel_picker->0.query@;
    if k.code == Key::Enter {
        exists|m: App, r: bool| #[trigger] picker_confirmed(a, &m, r) && if r {
            acked(&m, b, opt_str(a.selected_channel_id), acts)
        } else {
            *b == m && acts.len() == 0
        }
    } else {
        acts.len() == 0 && if k.code == Key::Esc {
            *b == (App { channel_picker: None, ..*a })
        } else if k.code == Key::Up {
            picker_back(a, b)
        } else if k.code == Key::Down {
            picker_forward(a, b)
        } else if deletes_word(k) {
            requeried(a, b, without_last_word(q))
        } else if k.code == Key::Backspace {
            requeried(a, b, if q.len() == 0 { q } else { q.drop_last() })
        } else if k.code is Char && !k.ctrl {
            requeried(a, b, q.push(k.code->Char_0))
        } else {
            *b == *a
        }
    }
}

/// Ctrl+Backspace and Ctrl+H delete the word before the cursor.
pub open spec fn deletes_word(k: KeyInput) -> bool {
    k.ctrl && (k.code == Key::Backspace || k.code == Key::Char('h') || k.code == Key::Char('H'))
}

/// An autocomplete list is open, which keeps Ctrl and Alt shortcuts for typing.
pub open spec fn picking(a: &App) -> bool {
    a.emoji_autocomplete is Some || a.mention_autocomplete is Some || a.command_autocomplete is Some
}

/// The selected message can be edited from the message pane.
pub open spec fn edit_ready(a: &App) -> bool {
    a.focus == Focus::Messages && selected_spec(a) is Some && edit_allowed(a, selected_spec(a)->0)
}

/// The selected message can be deleted from the message pane.
pub open spec fn delete_ready(a: &App) -> bool {
    a.focus == Focus::Messages && selected_spec(a) is Some && delete_allowed(a, selected_spec(a)->0)
}

/// A Ctrl shortcut takes the key: Ctrl+N and Ctrl+P always, Ctrl+K always,
/// Ctrl+E, Ctrl+D and Ctrl+O when a message is selected in the message pane
/// and the action applies to it.
pub open spec fn ctrl_takes(a: &App, k: KeyInput) -> bool {
    &&& k.ctrl
    &&& !picking(a)
    &&& k.code == Key::Char('n') || k.code == Key::Char('p') || k.code == Key::Char('k')
        || (k.code == Key::Char('e') && edit_ready(a)) || (k.code == Key::Char('d') && delete_ready(a))
        || ((k.code == Key::Char('o') || k.code == Key::Char('O')) && a.focus == Focus::Messages
        && selected_spec(a) is Some)
}

/// What Ctrl+O does with message `x`: preview its image, hand its video to
/// a player, or say there is nothing to open.
pub open spec fn media_opened(a: &App, b: &App, x: MessageResponse, acts: Seq<KeyAction>) -> bool {
    match preview_spec(x) {
        Some(p) => if p.is_video {
            &&& status_set(a, b, "Fetching "@ + p.label + seq!['…'])
            &&& acts.len() == 1
            &&& acts[0] matches KeyAction::OpenVideo { url, label }
            &&& url@ == p.url && label@ == p.label
        } else {
            &&& b.image_preview matches Some(ImagePreviewState::Loading { title })
            &&& title@ == p.label
            &&& *b == (App { image_preview: b.image_preview, ..*a })
            &&& acts.len() == 1
            &&& acts[0] matches KeyAction::PreviewImage { url, label }
            &&& url@ == p.url && label@ == p.label
        },
        None => status_set(a, b, "No image or video attachment or embed on this message."@) && acts.len() == 0,
    }
}

/// The Ctrl shortcut that takes the key (see `ctrl_takes`) does its work:
/// next or previous channel around the list, the switcher, editing,
/// deleting or opening the selected message's media.
pub open spec fn ctrl_key(a: &App, b: &App, k: KeyInput, acts: Seq<KeyAction>) -> bool {
    if k.code == Key::Char('n') || k.code == Key::Char('p') {
        if k.code == Key::Char('n') {
            exists|m: App, r: bool|
                #[trigger] channel_wrapped(a, &m, 1i32, r) && left_channel(&m, b, opt_str(a.selected_channel_id), acts)
        } else {
            exists|m: App, r: bool|
                #[trigger] channel_wrapped(a, &m, -1i32, r) && left_channel(&m, b, opt_str(a.selected_channel_id), acts)
        }
    } else if k.code == Key::Char('k') {
        picker_opened(a, b) && acts.len() == 0
    } else if k.code == Key::Char('e') {
        &&& acts.len() == 0
        &&& exists|m: App| #[trigger]
            edit_started(a, &m, selected_spec(a)->0) && status_set(
                &App { focus: Focus::Input, ..m },
                b,
                "Editing - Enter to save, Esc to cancel"@,
            )
    } else if k.code == Key::Char('d') {
        let x = selected_spec(a)->0;
        &&& *b == (App { selected_message_index: None, ..*a })
        &&& acts.len() == 1
        &&& acts[0] matches KeyAction::DeleteMessage { channel_id, message_id }
        &&& channel_id@ == x.channel_id@ && message_id@ == x.id@
    } else {
        exists|x: MessageResponse| #[trigger] x.eqv(&selected_spec(a)->0) && media_opened(a, b, x, acts)
    }
}

/// Alt+A takes the key when no autocomplete list is open.
pub open spec fn alt_takes(a: &App, k: KeyInput) -> bool {
    k.alt && (k.code == Key::Char('a') || k.code == Key::Char('A')) && !picking(a)
}

/// Alt+A jumps to the next channel with activity (see `activity_next`),
/// acknowledging the channel left, or says there is none.
pub open spec fn alt_key(a: &App, b: &App, acts: Seq<KeyAction>) -> bool {
    exists|r: Option<(ServerSelection, String)>| #[trigger] activity_next(a, r) && match r {
        None => status_set(a, b, "No other channels with unread or mention activity."@) && acts.len() == 0,
        Some(p) => {
            let m = App {
                message_scroll_from_bottom: 0,
                selected_message_index: None,
                ..normalized(&App { selected_server: p.0, selected_channel_id: Some(p.1), ..*a })
            };
            exists|m2: App| #[trigger]
                left_channel(&m, &m2, opt_str(a.selected_channel_id), acts) && status_set(
                    &m2,
                    b,
                    "Jumped to channel with activity."@,
                )
        },
    }
}

/// The input text after an editing key, when `k` is one: Ctrl+Backspace and
/// Ctrl+H delete the last word, Backspace the last character, and a
/// character typed without Ctrl is added.
pub open spec fn typed(q: Seq<char>, k: KeyInput) -> Option<Seq<char>> {
    if deletes_word(k) {
        Some(without_last_word(q))
    } else if k.code == Key::Backspace {
        Some(if q.len() == 0 { q } else { q.drop_last() })
    } else if k.code is Char && !k.ctrl {
        Some(q.push(k.code->Char_0))
    } else {
        None
    }
}

/// `m` is `a` with the input reading `q`.
pub open spec fn input_set(a: &App, m: &App, q: Seq<char>) -> bool {
    *m == (App { input: m.input, ..*a }) && m.input@ == q
}

/// Which autocomplete list an edit refilters.
#[derive(Clone, Copy)]
pub enum Lists {
    Commands,
    Mentions,
    Emojis,
}

/// `b` is `a` with the given list refiltered for its input.
pub open spec fn refiltered(a: &App, b: &App, l: Lists) -> bool {
    match l {
        Lists::Commands => command_synced(a, b),
        Lists::Mentions => mention_refiltered(a, b),
        Lists::Emojis => emoji_refiltered(a, b),
    }
}

/// `b` is `a` with the input set to `q` and the list refiltered.
pub open spec fn edited(a: &App, b: &App, q: Seq<char>, l: Lists) -> bool {
    exists|m: App| #[trigger] input_set(a, &m, q) && refiltered(&m, b, l)
}

/// The open command list takes the key: close it, move its selection,
/// complete the selected command, or edit the input and refilter.
pub open spec fn command_list_key(a: &App, b: &App, k: KeyInput) -> bool {
    if k.code == Key::Esc {
        *b == (App { command_autocomplete: None, ..*a })
    } else if k.code == Key::Up {
        command_back(a, b)
    } else if k.code == Key::Down {
        command_forward(a, b)
    } else if k.code == Key::Tab || k.code == Key::Enter {
        exists|r: bool| #[trigger] command_inserted(a, b, r)
    } else if typed(a.input@, k) is Some {
        edited(a, b, typed(a.input@, k)->0, Lists::Commands)
    } else {
        *b == *a
    }
}

/// The open @ list takes the key: close it, move its selection, insert the
/// selected mention, or edit the input and refilter.
pub open spec fn mention_list_key(a: &App, b: &App, k: KeyInput) -> bool {
    if k.code == Key::Esc {
        *b == (App { mention_autocomplete: None, ..*a })
    } else if k.code == Key::Up {
        mention_back(a, b)
    } else if k.code == Key::Down {
        mention_forward(a, b)
    } else if k.code == Key::Tab || k.code == Key::Enter {
        exists|r: bool| #[trigger] mention_inserted(a, b, r)
    } else if typed(a.input@, k) is Some {
        edited(a, b, typed(a.input@, k)->0, Lists::Mentions)
    } else {
        *b == *a
    }
}

/// Picking a reaction: with a row selected, the reaction is sent, the
/// picker and input are cleared and the message pane takes the focus.
pub open spec fn reaction_sent(a: &App, b: &App, acts: Seq<KeyAction>) -> bool {
    let ok = a.emoji_autocomplete is Some && a.emoji_autocomplete->0.selected_index
        < a.emoji_autocomplete->0.matches@.len();
    if !ok {
        *b == *a && acts.len() == 0
    } else {
        let t = a.reaction_target->0;
        let au = a.emoji_autocomplete->0;
        &&& *b == (App {
            reaction_target: None,
            emoji_autocomplete: None,
            input: b.input,
            focus: Focus::Messages,
            ..*a
        })
        &&& b.input@.len() == 0
        &&& acts.len() == 1
        &&& acts[0] matches KeyAction::AddReaction { channel_id, message_id, emoji }
        &&& channel_id@ == t.0@ && message_id@ == t.1@
        &&& emoji@ == reaction_api_spec(au.matches@[au.selected_index as int].insert@)
    }
}

/// The open emoji list takes the key: Esc closes it (and, when picking a
/// reaction, drops it and returns to the messages); Tab or Enter sends the
/// reaction or inserts the emoji; the rest moves the selection or edits the
/// input and refilters.
pub open spec fn emoji_list_key(a: &App, b: &App, k: KeyInput, acts: Seq<KeyAction>) -> bool {
    if k.code == Key::Tab || k.code == Key::Enter {
        if a.reaction_target is Some {
            reaction_sent(a, b, acts)
        } else {
            acts.len() == 0 && exists|r: bool| #[trigger] emoji_inserted(a, b, r)
        }
    } else {
        acts.len() == 0 && if k.code == Key::Esc {
            if a.reaction_target is Some {
                *b == (App {
                    reaction_target: None,
                    emoji_autocomplete: None,
                    input: b.input,
                    focus: Focus::Messages,
                    ..*a
                }) && b.input@.len() == 0
            } else {
                *b == (App { emoji_autocomplete: None, ..*a })
            }
        } else if k.code == Key::Up {
            emoji_back(a, b)
        } else if k.code == Key::Down {
            emoji_forward(a, b)
        } else if typed(a.input@, k) is Some {
            edited(a, b, typed(a.input@, k)->0, Lists::Emojis)
        } else {
            *b == *a
        }
    }
}

/// `b` and `acts` follow the member load for mentions (see `member_fetch`).
pub open spec fn members_requested(a: &App, b: &App, acts: Seq<KeyAction>) -> bool {
    match member_fetch(a).1 {
        None => *b == *a && acts.len() == 0,
        Some(g) => {
            &&& *b == (App { loading_members: b.loading_members, ..*a })
            &&& b.loading_members@ == a.loading_members@.insert(g)
            &&& acts.len() == 1
            &&& acts[0] matches KeyAction::Fetch(FetchRequest::GuildMembers { guild_id })
            &&& guild_id@ == g
        },
    }
}

/// After `@` is typed: members are requested, the @ list opens, and when
/// members are still loading and no list opened the status says so.
pub open spec fn at_typed(a: &App, b: &App, acts: Seq<KeyAction>) -> bool {
    exists|m: App, m2: App| #[trigger] members_requested(a, &m, acts) && #[trigger] mention_started(&m, &m2)
        && if member_fetch(a).0 && m2.mention_autocomplete is None {
        status_set(&m2, b, "Loading members for @mentions…"@)
    } else {
        *b == m2
    }
}

/// What typing character `c` does after it is added: `/` syncs the command
/// list, `:` opens the emoji list, `@` the @ list.
pub open spec fn char_added(a: &App, b: &App, c: char, acts: Seq<KeyAction>) -> bool {
    if c == '/' {
        command_synced(a, b) && acts.len() == 0
    } else if c == ':' {
        emoji_filtered(a, b, 0) && acts.len() == 0
    } else if c == '@' {
        at_typed(a, b, acts)
    } else {
        *b == *a && acts.len() == 0
    }
}

/// The content to send and whether as speech, for a line that is sent.
pub open spec fn send_of(res: SlashOutcome, t: Seq<char>) -> (Seq<char>, bool) {
    match res {
        SlashOutcome::SendContent(c) => (c, false),
        SlashOutcome::SendTts(c) => (c, true),
        _ => (t, false),
    }
}

/// The guild of the selected channel, as listed.
pub open spec fn active_guild_of(a: &App) -> Option<Seq<char>> {
    match active_spec(a) {
        Some(c) => opt_str(c.guild_id),
        None => None,
    }
}

/// The name the user goes by where the line is sent: their nickname or
/// username in the channel's guild, else their display name.
pub open spec fn sender_name(a: &App) -> Seq<char> {
    match active_guild_of(a) {
        Some(g) => shown_name(a, Some(g), partial_of(a.me)),
        None => display_name_spec(partial_of(a.me)),
    }
}

/// `b` is `a` with the line sent: input cleared, reply and forward dropped,
/// the pane scrolled to the bottom.
pub open spec fn line_cleared(a: &App, b: &App) -> bool {
    *b == (App {
        forward_mode: false,
        input: b.input,
        reply_to: None,
        message_scroll_from_bottom: 0,
        ..*a
    }) && b.input@.len() == 0
}

/// Enter in the input: saves an edit (refusing an empty one); otherwise,
/// in a text channel the user may send to, with text or a forward, the
/// trimmed line is resolved (see `resolve_spec`) and the refusal shown,
/// the nickname changed, or the message sent with the reply or forward.
pub open spec fn submitted(a: &App, b: &App, acts: Seq<KeyAction>) -> bool {
    if a.edit_target is Some {
        if is_blank(a.input@) {
            status_set(a, b, "Edited message cannot be empty."@) && acts.len() == 0
        } else {
            let e = a.edit_target->0;
            &&& *b == (App { message_scroll_from_bottom: 0, ..*a })
            &&& acts.len() == 1
            &&& acts[0] matches KeyAction::EditMessage { channel_id, message_id, content }
            &&& channel_id@ == e.channel_id@ && message_id@ == e.message_id@ && content@ == a.input@
        }
    } else if !(text_channel(a) && can_send(a) && (!is_blank(a.input@) || (a.forward_mode
        && a.reply_to is Some))) || a.selected_channel_id is None {
        *b == *a && acts.len() == 0
    } else {
        let cid = a.selected_channel_id->0@;
        let t = trim(a.input@);
        let res = resolve_spec(t, active_guild_of(a), a.me.username@, sender_name(a), active_perms(a));
        match res {
            SlashOutcome::Blocked(msg) => status_set(a, b, msg) && acts.len() == 0,
            SlashOutcome::SetNick { guild_id: g, nick: n, prev_display: p, new_display: d } => {
                &&& line_cleared(a, b)
                &&& acts.len() == 1
                &&& acts[0] matches KeyAction::ChangeNick { guild_id, nick, channel_id, prev_display, new_display }
                &&& guild_id@ == g && opt_str(nick) == n && channel_id@ == cid && prev_display@ == p
                    && new_display@ == d
            },
            _ => {
                &&& line_cleared(a, b)
                &&& acts.len() == 1
                &&& acts[0] matches KeyAction::SendMessage { channel_id, content, reply, forward, tts }
                &&& channel_id@ == cid && content@ == send_of(res, t).0 && tts == send_of(res, t).1
                &&& reply == a.reply_to && forward == a.forward_mode
            },
        }
    }
}

/// Typing `c` with no list open: it is added to the input, may open a
/// list (see `char_added`), and the command list is synced.
pub open spec fn char_typed(a: &App, b: &App, c: char, acts: Seq<KeyAction>) -> bool {
    exists|m: App, m2: App| #[trigger] input_set(a, &m, a.input@.push(c)) && #[trigger] char_added(&m, &m2, c, acts)
        && command_synced(&m2, b)
}

/// Esc in the input with no list open: the command list closes; a reaction
/// being picked is dropped (back to the messages), else a reply, forward or
/// edit is dropped, else the channel list takes the focus.
pub open spec fn input_escaped(a: &App, b: &App) -> bool {
    let m = App { command_autocomplete: None, ..*a };
    if a.reaction_target is Some {
        *b == (App {
            reaction_target: None,
            emoji_autocomplete: None,
            input: b.input,
            focus: Focus::Messages,
            ..m
        }) && b.input@.len() == 0
    } else if a.reply_to is Some || a.edit_target is Some {
        *b == (App { reply_to: None, forward_mode: false, edit_target: None, ..m })
    } else {
        *b == (App { focus: Focus::Channels, ..m })
    }
}

/// The input with no list open takes the key: Esc drops a reaction being
/// picked, else a reply, forward or edit, else leaves for the channels; Up
/// goes to the messages; Enter submits; Ctrl+U clears; the rest edits the
/// input, a typed character possibly opening a list.
pub open spec fn plain_input_key(a: &App, b: &App, k: KeyInput, acts: Seq<KeyAction>) -> bool {
    if k.code == Key::Enter {
        submitted(a, b, acts)
    } else if k.code is Char && !k.ctrl {
        char_typed(a, b, k.code->Char_0, acts)
    } else {
        acts.len() == 0 && if k.code == Key::Esc {
            input_escaped(a, b)
        } else if k.code == Key::Up {
            *b == (App { focus: Focus::Messages, ..*a })
        } else if deletes_word(k) || k.code == Key::Backspace {
            edited(a, b, typed(a.input@, k)->0, Lists::Commands)
        } else if k.code == Key::Char('u') && k.ctrl {
            *b == (App { command_autocomplete: None, input: b.input, ..*a }) && b.input@.len() == 0
        } else {
            *b == *a
        }
    }
}

/// `b` and `acts` follow a request for older history of the open channel
/// (see `older_due`): the channel is marked loading and the request made.
pub open spec fn older_requested(a: &App, b: &App, acts: Seq<KeyAction>) -> bool {
    match older_due(a) {
        Some((c, m)) => {
            &&& *b == (App { loading_older_messages: b.loading_older_messages, ..*a })
            &&& b.loading_older_messages@ == a.loading_older_messages@.insert(c)
            &&& acts.len() == 1
            &&& is_older(acts[0], c, m)
        },
        None => *b == *a && acts.len() == 0,
    }
}

/// Older history is requested when the pane is scrolled near its top.
pub open spec fn auto_older(a: &App, b: &App, acts: Seq<KeyAction>) -> bool {
    if near_top(a.message_scroll_max, a.message_scroll_from_bottom) {
        older_requested(a, b, acts)
    } else {
        *b == *a && acts.len() == 0
    }
}

/// Up or Down in a pane: move the server or channel selection
/// (acknowledging the channel left), move the selected message (and ask for
/// it to be scrolled into view), or scroll the messages by three rows,
/// asking for older history near the top.
pub open spec fn pane_moved(a: &App, b: &App, d: i32, acts: Seq<KeyAction>) -> bool {
    let up = d < 0;
    match a.focus {
        Focus::Servers => exists|m: App, r: bool|
            #[trigger] server_moved(a, &m, d, r) && left_channel(&m, b, opt_str(a.selected_channel_id), acts),
        Focus::Channels => exists|m: App, r: bool|
            #[trigger] channel_moved(a, &m, d, r) && left_channel(&m, b, opt_str(a.selected_channel_id), acts),
        Focus::Messages => if a.selected_message_index is Some {
            selection_moved(a, b, d) && acts.len() == 1 && acts[0] is ClampScroll
        } else if up {
            exists|m: App| #[trigger] scrolled_up(a, &m, 3) && auto_older(&m, b, acts)
        } else {
            scrolled_down(a, b, 3) && acts.len() == 0
        },
        Focus::Input => *b == *a && acts.len() == 0,
    }
}

/// `m` is `a` with channel `c`'s stored messages dropped so they reload.
pub open spec fn channel_dropped(a: &App, m: &App, c: Seq<char>) -> bool {
    &&& *m == (App {
        loading_messages: m.loading_messages,
        messages: m.messages,
        messages_older_exhausted: m.messages_older_exhausted,
        api_backoff_until: m.api_backoff_until,
        ..*a
    })
    &&& m.loading_messages@ == a.loading_messages@.remove(c)
    &&& m.messages@ == a.messages@.remove(c)
    &&& m.messages.pairs() == if a.messages@.dom().contains(c) {
        a.messages.pairs().remove(key_pos(a.messages.pairs(), c))
    } else {
        a.messages.pairs()
    }
    &&& m.messages_older_exhausted@ == a.messages_older_exhausted@.remove(c)
    &&& m.api_backoff_until@ == a.api_backoff_until@.remove(backoff_key("messages:"@, c))
}

/// `b` is `m` with guild `g`'s channels and members marked for reloading.
pub open spec fn guild_dropped(m: &App, b: &App, g: Seq<char>) -> bool {
    &&& *b == (App {
        loading_channels: b.loading_channels,
        guild_members_synced: b.guild_members_synced,
        loading_members: b.loading_members,
        api_backoff_until: b.api_backoff_until,
        ..*m
    })
    &&& b.loading_channels@ == m.loading_channels@.remove(g)
    &&& b.guild_members_synced@ == m.guild_members_synced@.remove(g)
    &&& b.loading_members@ == m.loading_members@.remove(g)
    &&& b.api_backoff_until@ == guild_backoff_cleared(m.api_backoff_until@, g)
}

/// R: the open channel's messages and the open guild's channels and members
/// are dropped or unmarked so that they load again.
pub open spec fn refreshed(a: &App, b: &App) -> bool {
    exists|m: App| #[trigger] channel_stage(a, &m) && match server_view(m.selected_server) {
        Some(g) => guild_dropped(&m, b, g),
        None => *b == m,
    }
}

/// The first half of R, for the open channel.
pub open spec fn channel_stage(a: &App, m: &App) -> bool {
    match opt_str(a.selected_channel_id) {
        Some(c) => channel_dropped(a, m, c),
        None => *m == *a,
    }
}

/// `m` is `a` with the selected message as the reaction target, when there
/// are a selected message and channel.
pub open spec fn reaction_aimed(a: &App, m: &App) -> bool {
    if selected_spec(a) is Some && a.selected_channel_id is Some {
        &&& *m == (App { reaction_target: m.reaction_target, ..*a })
        &&& m.reaction_target matches Some(t)
        &&& t.0@ == a.selected_channel_id->0@ && t.1@ == selected_spec(a)->0.id@
    } else {
        *m == *a
    }
}

/// `m2` is `m` with the input reading `:` and the focus on it.
pub open spec fn colon_input(m: &App, m2: &App) -> bool {
    *m2 == (App { focus: Focus::Input, input: m2.input, ..*m }) && m2.input@ == ":"@
}

/// E on a selected message: where reactions are allowed, the emoji list
/// opens to pick a reaction for it; otherwise the status says they are not.
pub open spec fn reaction_started(a: &App, b: &App) -> bool {
    if can_react(a) {
        exists|m: App, m2: App, m3: App|
            #[trigger] reaction_aimed(a, &m) && #[trigger] colon_input(&m, &m2) && #[trigger] emoji_filtered(&m2, &m3, 0)
                && status_set(&m3, b, "Pick an emoji, Enter to react (Esc to cancel)"@)
    } else {
        status_set(a, b, "No permission to add reactions here."@)
    }
}

/// F on a selected message: it becomes the message to forward, with its
/// author's shown name and its guild; an edit in progress is dropped.
pub open spec fn forward_started(a: &App, b: &App) -> bool {
    match selected_spec(a) {
        None => *b == *a,
        Some(x) => {
            let g = guild_of_channel(a, x.channel_id@);
            &&& *b == (App {
                edit_target: None,
                forward_mode: true,
                reply_to: b.reply_to,
                status_message: b.status_message,
                status_message_until: None,
                ..*a
            })
            &&& b.reply_to matches Some(rep)
            &&& rep.channel_id@ == x.channel_id@ && rep.message_id@ == x.id@
            &&& opt_str(rep.source_guild_id) == g
            &&& rep.author_name@ == shown_name(a, g, x.author)
            &&& b.status_message@ == "Forward: pick channel (Ctrl+K), type optional note, Enter to send"@
        },
    }
}

/// Enter on a pane: a link channel's address is opened; a text channel the
/// user may send to takes the input focus.
pub open spec fn pane_entered(a: &App, b: &App, acts: Seq<KeyAction>) -> bool {
    if active_spec(a) is Some && spec_channel_type(active_spec(a)->0) == CHANNEL_GUILD_LINK {
        *b == *a && match active_spec(a)->0.url {
            Some(u) => acts.len() == 1 && (acts[0] matches KeyAction::OpenUrl { url } && url@ == u@),
            None => acts.len() == 0,
        }
    } else if text_channel(a) && can_send(a) {
        *b == (App { focus: Focus::Input, ..*a }) && acts.len() == 0
    } else {
        *b == *a && acts.len() == 0
    }
}

/// The pane after `f`: servers, channels, messages, input, then servers again.
pub open spec fn next_focus(f: Focus) -> Focus {
    match f {
        Focus::Servers => Focus::Channels,
        Focus::Channels => Focus::Messages,
        Focus::Messages => Focus::Input,
        Focus::Input => Focus::Servers,
    }
}

/// The pane before `f`.
pub open spec fn previous_focus(f: Focus) -> Focus {
    match f {
        Focus::Servers => Focus::Input,
        Focus::Channels => Focus::Servers,
        Focus::Messages => Focus::Channels,
        Focus::Input => Focus::Messages,
    }
}

/// A pane other than the input takes the key.
pub open spec fn pane_key(a: &App, b: &App, k: KeyInput, acts: Seq<KeyAction>) -> bool {
    let c = k.code;
    let msgs = a.focus == Focus::Messages;
    let sel = a.selected_message_index is Some;
    if c == Key::Enter {
        pane_entered(a, b, acts)
    } else if goes_up(c) {
        pane_moved(a, b, -1i32, acts)
    } else if goes_down(c) {
        pane_moved(a, b, 1i32, acts)
    } else if c == Key::PageUp {
        exists|m: App| #[trigger] scrolled_up(a, &m, 18) && if a.selected_message_index is None {
            auto_older(&m, b, acts)
        } else {
            *b == m && acts.len() == 0
        }
    } else if c == Key::Char('s') && msgs {
        if active_list(a).len() > 0 {
            *b == (App { selected_message_index: Some((active_list(a).len() - 1) as usize), ..*a })
                && acts.len() == 1 && acts[0] is ClampScroll
        } else {
            *b == *a && acts.len() == 0
        }
    } else if c == Key::Char('[') && msgs {
        older_requested(a, b, acts)
    } else {
        acts.len() == 0 && pane_plain_key(a, b, k)
    }
}

/// A pane key that asks nothing of the front end.
pub open spec fn pane_plain_key(a: &App, b: &App, k: KeyInput) -> bool {
    let c = k.code;
    let msgs = a.focus == Focus::Messages;
    let sel = a.selected_message_index is Some;
    if c == Key::Char('c') && k.ctrl {
            *b == (App { should_quit: true, ..*a })
        } else if c == Key::Char('l') && k.ctrl {
            *b == (App { should_logout: true, should_quit: true, ..*a })
        } else if c == Key::Char('q') {
            *b == (App { should_quit: true, ..*a })
        } else if c == Key::Tab || c == Key::Right || c == Key::Char('l') {
            *b == (App { focus: next_focus(a.focus), ..*a })
        } else if c == Key::BackTab || c == Key::Left || c == Key::Char('h') {
            *b == (App { focus: previous_focus(a.focus), ..*a })
        } else if c == Key::Char('i') {
            if text_channel(a) && can_send(a) {
                *b == (App { focus: Focus::Input, ..*a })
            } else {
                *b == *a
            }
        } else if c == Key::Char('n') && !k.ctrl && (a.focus == Focus::Servers || a.focus == Focus::Channels) {
            exists|r: bool| #[trigger] notifications_opened(&App { show_settings: false, ..*a }, b, r)
        } else if c == Key::Esc {
            *b == (App { selected_message_index: None, focus: Focus::Channels, ..*a })
        } else if c == Key::PageDown {
            scrolled_down(a, b, 18)
        } else if c == Key::Char('r') && msgs && sel {
            reply_started(a, b)
        } else if c == Key::Char('R') {
            refreshed(a, b)
        } else if c == Key::Char('e') && msgs && sel {
            reaction_started(a, b)
        } else if c == Key::Char('f') && msgs && sel {
            forward_started(a, b)
        } else {
            *b == *a
        }
}

/// The command list's selected row, if any, names a command.
pub open spec fn commands_ok(a: &App) -> bool {
    a.command_autocomplete matches Some(x) ==> (x.selected_index < x.matches@.len()
        ==> x.matches@[x.selected_index as int] < SLASH_COMMAND_COUNT)
}

/// F1, or Ctrl+H outside the input with the switcher closed, opens the help.
pub open spec fn opens_help(a: &App, k: KeyInput) -> bool {
    k.code == Key::F(1) || (k.ctrl && (k.code == Key::Char('h') || k.code == Key::Char('H')) && a.focus
        != Focus::Input && a.channel_picker is None)
}

/// What a key press does: the first of these that applies takes it: the
/// help overlay, F2 (settings), the settings and notification overlays, the
/// image preview, opening the help, the channel switcher, a Ctrl shortcut,
/// Alt+A, then the focused input (its open list first) or pane.
pub open spec fn key_handled(a: &App, b: &App, k: KeyInput, acts: Seq<KeyAction>) -> bool {
    if a.show_help {
        help_key(a, b, k.code) && acts.len() == 0
    } else if k.code == Key::F(2) {
        settings_flipped(a, b) && acts.len() == 0
    } else if a.show_settings {
        settings_key(a, b, k.code, acts)
    } else if a.show_server_notifications {
        notifications_key(a, b, k.code, acts)
    } else if a.image_preview is Some {
        preview_key(a, b, k.code) && acts.len() == 0
    } else if opens_help(a, k) {
        *b == (App { help_scroll: 0, show_help: true, ..*a }) && acts.len() == 0
    } else if a.channel_picker is Some {
        picker_key(a, b, k, acts)
    } else if ctrl_takes(a, k) {
        ctrl_key(a, b, k, acts)
    } else if alt_takes(a, k) {
        alt_key(a, b, acts)
    } else if a.focus == Focus::Input {
        if a.command_autocomplete is Some {
            command_list_key(a, b, k) && acts.len() == 0
        } else if a.mention_autocomplete is Some {
            mention_list_key(a, b, k) && acts.len() == 0
        } else if a.emoji_autocomplete is Some {
            emoji_list_key(a, b, k, acts)
        } else {
            plain_input_key(a, b, k, acts)
        }
    } else {
        pane_key(a, b, k, acts)
    }
}

/// What a pasted character adds to the switcher's query: line breaks are
/// dropped, a tab becomes a space, other control characters are dropped.
pub open spec fn query_char(c: char) -> Option<char> {
    if c == '\n' || c == '\r' {
        None
    } else if c == '\t' {
        Some(' ')
    } else if is_ctrl(c) {
        None
    } else {
        Some(c)
    }
}

/// The characters pasted text adds to the switcher's query, in order.
pub open spec fn query_chars(s: Seq<char>) -> Seq<char>
    decreases s.len(),
{
    if s.len() == 0 {
        Seq::empty()
    } else {
        match query_char(s.last()) {
            Some(c) => query_chars(s.drop_last()).push(c),
            None => query_chars(s.drop_last()),
        }
    }
}

/// The input after pasting `t`: sanitized and cut to the input's limit.
pub open spec fn pasted_input(q: Seq<char>, t: Seq<char>) -> Seq<char> {
    q + upto(pasted_chars(t), if q.len() >= INPUT_MAX_CHARS { 0 } else { INPUT_MAX_CHARS - q.len() })
}

/// After pasted text lands in the input with no list open: a trailing `:`
/// opens the emoji list, a trailing `@` the @ list.
pub open spec fn paste_tail(a: &App, b: &App, acts: Seq<KeyAction>) -> bool {
    if ends_with(a.input@, ":"@) {
        emoji_filtered(a, b, 0) && acts.len() == 0
    } else if ends_with(a.input@, "@"@) {
        at_typed(a, b, acts)
    } else {
        *b == *a && acts.len() == 0
    }
}

/// What pasting `text` does: nothing when it is empty once carriage returns
/// are dropped or the help shows; into the switcher's query when it is
/// open; else, with the input focused, into the input (see
/// `pasted_input`), refiltering an open list, or else maybe opening one
/// and syncing the command list.
pub open spec fn paste_handled(a: &App, b: &App, text: Seq<char>, acts: Seq<KeyAction>) -> bool {
    let t = without_cr(text);
    if t.len() == 0 || a.show_help {
        *b == *a && acts.len() == 0
    } else if a.channel_picker is Some {
        requeried(a, b, a.channel_picker->0.query@ + query_chars(t)) && acts.len() == 0
    } else if a.focus != Focus::Input {
        *b == *a && acts.len() == 0
    } else {
        let q = pasted_input(a.input@, t);
        if a.mention_autocomplete is Some {
            edited(a, b, q, Lists::Mentions) && acts.len() == 0
        } else if a.emoji_autocomplete is Some {
            edited(a, b, q, Lists::Emojis) && acts.len() == 0
        } else if a.command_autocomplete is Some {
            edited(a, b, q, Lists::Commands) && acts.len() == 0
        } else {
            exists|m: App, m2: App| #[trigger] input_set(a, &m, q) && #[trigger] paste_tail(&m, &m2, acts)
                && command_synced(&m2, b)
        }
    }
}

/// Whether two optional ids are the same.
fn same_id(x: &Option<String>, y: &Option<String>) -> (r: bool)
    ensures
        r == (opt_str(*x) == opt_str(*y)),
{
    match (x, y) {
        (Some(p), Some(q)) => str_eq(p.as_str(), q.as_str()),
        (None, None) => true,
        _ => false,
    }
}

/// A copy of an optional id.
fn copy_id(x: &Option<String>) -> (r: Option<String>)
    ensures
        opt_str(r) == opt_str(*x),
{
    match x {
        Some(s) => Some(crate::text::owned(s.as_str())),
        None => None,
    }
}

/// Removes the last character of `s`, if any.
pub fn pop_char(s: &mut String)
    ensures
        final(s)@ == if old(s)@.len() == 0 {
            old(s)@
        } else {
            old(s)@.drop_last()
        },
{
    let v = chars_of(s.as_str());
    if v.len() > 0 {
        let mut w: Vec<char> = Vec::new();
        let mut i: usize = 0;
        while i < v.len() - 1
            invariant
                i + 1 <= v@.len(),
                w@ == v@.take(i as int),
            decreases v@.len() - i,
        {
            w.push(v[i]);
            i = i + 1;
            assert(w@ =~= v@.take(i as int));
        }
        assert(w@ =~= v@.drop_last());
        *s = string_of(w.as_slice());
    }
}

impl App {
    /// Acknowledges channel `prev` after a move, when the move left it.
    fn ack_if_left(&mut self, prev: &Option<String>) -> (acts: Vec<KeyAction>)
        ensures
            left_channel(old(self), final(self), opt_str(*prev), acts@),
    {
        if same_id(prev, &self.selected_channel_id) {
            return Vec::new();
        }
        let r = match prev {
            Some(c) => self.ack_channel_if_unread(Some(c.as_str())),
            None => self.ack_channel_if_unread(None),
        };
        let mut acts: Vec<KeyAction> = Vec::new();
        if let Some((c, m)) = r {
            acts.push(KeyAction::Fetch(FetchRequest::Ack { channel_id: c, message_id: m }));
        }
        acts
    }

    fn help_overlay_key(&mut self, k: Key)
        ensures
            help_key(old(self), final(self), k),
    {
        if k == Key::Esc || k == Key::Enter || k == Key::Char('q') {
            self.show_help = false;
        } else if k == Key::Up || k == Key::Char('k') {
            self.help_scroll = self.help_scroll.saturating_sub(1);
        } else if k == Key::Down || k == Key::Char('j') {
            self.help_scroll = self.help_scroll.saturating_add(1);
        } else if k == Key::PageUp {
            self.help_scroll = self.help_scroll.saturating_sub(12);
        } else if k == Key::PageDown {
            self.help_scroll = self.help_scroll.saturating_add(12);
        }
    }

    fn flip_settings(&mut self)
        ensures
            settings_flipped(old(self), final(self)),
    {
        self.show_settings = !self.show_settings;
        if self.show_settings {
            self.settings_cursor = 0;
            self.show_server_notifications = false;
            self.dismiss_image_preview();
        }
    }

    fn settings_overlay_key(&mut self, k: Key) -> (acts: Vec<KeyAction>)
        ensures
            settings_key(old(self), final(self), k, acts@),
    {
        let mut acts: Vec<KeyAction> = Vec::new();
        if k == Key::Esc || k == Key::Enter || k == Key::Char('q') {
            self.show_settings = false;
        } else if k == Key::Up || k == Key::Char('k') {
            self.settings_cursor = self.settings_cursor.saturating_sub(1);
        } else if k == Key::Down || k == Key::Char('j') {
            self.settings_cursor = if self.settings_cursor >= UI_SETTINGS_LAST_ROW {
                UI_SETTINGS_LAST_ROW
            } else {
                self.settings_cursor + 1
            };
        } else if k == Key::Char(' ') || k == Key::Right || k == Key::Left {
            self.toggle_settings_selection();
            acts.push(KeyAction::SaveUiSettings);
        }
        acts
    }

    fn cycle_notification(&mut self, delta: i32) -> (acts: Vec<KeyAction>)
        requires
            delta == 1 || delta == -1,
        ensures
            notification_cycled(old(self), final(self), delta as int, acts@),
    {
        let mut acts: Vec<KeyAction> = Vec::new();
        if let Some((guild_id, patch)) = self.cycle_server_notification_setting(delta) {
            acts.push(KeyAction::UpdateGuildSettings { guild_id, patch });
        }
        acts
    }

    fn notifications_overlay_key(&mut self, k: Key) -> (acts: Vec<KeyAction>)
        ensures
            notifications_key(old(self), final(self), k, acts@),
    {
        if k == Key::Left {
            return self.cycle_notification(-1);
        }
        if k == Key::Right || k == Key::Char(' ') {
            return self.cycle_notification(1);
        }
        if k == Key::Esc || k == Key::Enter || k == Key::Char('q') {
            self.show_server_notifications = false;
        } else if k == Key::Up || k == Key::Char('k') {
            self.server_notification_cursor = self.server_notification_cursor.saturating_sub(1);
        } else if k == Key::Down || k == Key::Char('j') {
            self.server_notification_cursor = if self.server_notification_cursor >= SERVER_NOTIFICATION_LAST_ROW {
                SERVER_NOTIFICATION_LAST_ROW
            } else {
                self.server_notification_cursor + 1
            };
        } else if k == Key::PageUp {
            self.server_notification_scroll = self.server_notification_scroll.saturating_sub(1);
        } else if k == Key::PageDown {
            self.server_notification_scroll = self.server_notification_scroll.saturating_add(1);
        } else if k == Key::Home {
            self.server_notification_scroll = 0;
        } else if k == Key::End {
            self.server_notification_scroll = u16::MAX;
        }
        Vec::new()
    }

    fn preview_overlay_key(&mut self, k: Key)
        ensures
            preview_key(old(self), final(self), k),
    {
        let text = match &self.image_preview {
            Some(ImagePreviewState::ReadyChafa { .. }) => true,
            _ => false,
        };
        if k == Key::Esc || k == Key::Char('q') {
            self.dismiss_image_preview();
        } else if text && (k == Key::Up || k == Key::Char('k')) {
            self.image_preview_scroll(-1);
        } else if text && (k == Key::Down || k == Key::Char('j')) {
            self.image_preview_scroll(1);
        } else if text && k == Key::PageUp {
            self.image_preview_scroll(-12);
        } else if text && k == Key::PageDown {
            self.image_preview_scroll(12);
        }
    }

    /// Acknowledges channel `prev` (see `ack_channel_if_unread`).
    fn ack_prev(&mut self, prev: &Option<String>) -> (acts: Vec<KeyAction>)
        ensures
            acked(old(self), final(self), opt_str(*prev), acts@),
    {
        let r = match prev {
            Some(c) => self.ack_channel_if_unread(Some(c.as_str())),
            None => self.ack_channel_if_unread(None),
        };
        let mut acts: Vec<KeyAction> = Vec::new();
        if let Some((c, m)) = r {
            acts.push(KeyAction::Fetch(FetchRequest::Ack { channel_id: c, message_id: m }));
        }
        acts
    }

    /// Sets the switcher's query and refilters its rows.
    fn set_picker_query(&mut self, q: String)
        requires
            old(self).channel_picker is Some,
        ensures
            requeried(old(self), final(self), q@),
    {
        let ghost qv = q@;
        let mut p = match self.channel_picker.take() {
            Some(p) => p,
            None => {
                return ;
            },
        };
        p.query = q;
        self.channel_picker = Some(p);
        let ghost m = *self;
        self.filter_channel_picker();
        assert(query_set(old(self), &m, qv));
    }

    fn picker_overlay_key(&mut self, k: KeyInput) -> (acts: Vec<KeyAction>)
        requires
            old(self).channel_picker is Some,
        ensures
            picker_key(old(self), final(self), k, acts@),
    {
        if k.code == Key::Enter {
            let prev = copy_id(&self.selected_channel_id);
            let r = self.channel_picker_confirm();
            let ghost m = *self;
            if r {
                let acts = self.ack_prev(&prev);
                assert(picker_confirmed(old(self), &m, r));
                return acts;
            }
            assert(picker_confirmed(old(self), &m, r));
            return Vec::new();
        }
        if k.code == Key::Esc {
            self.dismiss_channel_picker();
        } else if k.code == Key::Up {
            self.channel_picker_prev();
        } else if k.code == Key::Down {
            self.channel_picker_next();
        } else {
            let mut q = match &self.channel_picker {
                Some(p) => crate::text::owned(p.query.as_str()),
                None => {
                    return Vec::new();
                },
            };
            if k.ctrl && (k.code == Key::Backspace || k.code == Key::Char('h') || k.code == Key::Char('H')) {
                delete_word_backward(&mut q);
                self.set_picker_query(q);
            } else if k.code == Key::Backspace {
                pop_char(&mut q);
                self.set_picker_query(q);
            } else if let Key::Char(c) = k.code {
                if !k.ctrl {
                    push_char(&mut q, c);
                    self.set_picker_query(q);
                }
            }
        }
        Vec::new()
    }

    fn ctrl_shortcut(&mut self, k: KeyInput) -> (acts: Vec<KeyAction>)
        requires
            ctrl_takes(old(self), k),
        ensures
            ctrl_key(old(self), final(self), k, acts@),
    {
        if k.code == Key::Char('n') || k.code == Key::Char('p') {
            let prev = copy_id(&self.selected_channel_id);
            let d: i32 = if k.code == Key::Char('n') {
                1
            } else {
                -1
            };
            let r = self.move_channel_wrapping(d);
            let ghost m = *self;
            let acts = self.ack_if_left(&prev);
            assert(channel_wrapped(old(self), &m, d, r));
            assert(left_channel(&m, self, opt_str(old(self).selected_channel_id), acts@));
            return acts;
        }
        if k.code == Key::Char('k') {
            self.open_channel_picker();
            return Vec::new();
        }
        let msg = match self.selected_message() {
            Some(m) => m,
            None => {
                return Vec::new();
            },
        };
        if k.code == Key::Char('e') {
            self.start_edit_message(msg);
            let ghost m = *self;
            self.focus = Focus::Input;
            self.set_status(crate::text::owned("Editing - Enter to save, Esc to cancel"));
            assert(edit_started(old(self), &m, selected_spec(old(self))->0));
            return Vec::new();
        }
        if k.code == Key::Char('d') {
            let channel_id = msg.channel_id;
            let message_id = msg.id;
            self.selected_message_index = None;
            let mut acts: Vec<KeyAction> = Vec::new();
            acts.push(KeyAction::DeleteMessage { channel_id, message_id });
            return acts;
        }
        let ghost x = msg;
        let mut acts: Vec<KeyAction> = Vec::new();
        match first_message_preview_media(&msg) {
            Some(MessagePreviewMedia::Image { url, label }) => {
                self.start_image_preview_loading(crate::text::owned(label.as_str()));
                acts.push(KeyAction::PreviewImage { url, label });
            },
            Some(MessagePreviewMedia::Video { url, label }) => {
                let s = concat(concat("Fetching ", label.as_str()).as_str(), "…");
                proof {
                    reveal_strlit("…");
                }
                assert(s@ =~= "Fetching "@ + label@ + seq!['…']);
                self.set_status(s);
                acts.push(KeyAction::OpenVideo { url, label });
            },
            None => {
                self.set_status(crate::text::owned("No image or video attachment or embed on this message."));
            },
        }
        assert(x.eqv(&selected_spec(old(self))->0));
        assert(media_opened(old(self), self, x, acts@));
        acts
    }

    fn jump_to_activity(&mut self) -> (acts: Vec<KeyAction>)
        ensures
            alt_key(old(self), final(self), acts@),
    {
        let r = self.next_channel_with_activity();
        let ghost r0 = r;
        match r {
            Some((srv, cid)) => {
                let prev = copy_id(&self.selected_channel_id);
                self.selected_server = srv;
                self.selected_channel_id = Some(cid);
                self.normalize_selection();
                self.message_scroll_from_bottom = 0;
                self.selected_message_index = None;
                let ghost m = *self;
                let acts = self.ack_if_left(&prev);
                let ghost m2 = *self;
                self.set_status(crate::text::owned("Jumped to channel with activity."));
                assert(activity_next(old(self), r0));
                assert(left_channel(&m, &m2, opt_str(old(self).selected_channel_id), acts@));
                acts
            },
            None => {
                self.set_status(crate::text::owned("No other channels with unread or mention activity."));
                assert(activity_next(old(self), r0));
                Vec::new()
            },
        }
    }

    /// The input text after an editing key (see `typed`).
    fn input_after(&self, k: KeyInput) -> (r: Option<String>)
        ensures
            match (r, typed(self.input@, k)) {
                (Some(x), Some(q)) => x@ == q,
                (None, None) => true,
                _ => false,
            },
    {
        let mut q = crate::text::owned(self.input.as_str());
        if k.ctrl && (k.code == Key::Backspace || k.code == Key::Char('h') || k.code == Key::Char('H')) {
            delete_word_backward(&mut q);
            Some(q)
        } else if k.code == Key::Backspace {
            pop_char(&mut q);
            Some(q)
        } else if let Key::Char(c) = k.code {
            if !k.ctrl {
                push_char(&mut q, c);
                Some(q)
            } else {
                None
            }
        } else {
            None
        }
    }

    /// Sets the input and refilters a list.
    fn edit_input(&mut self, q: String, l: Lists)
        ensures
            edited(old(self), final(self), q@, l),
    {
        let ghost qv = q@;
        self.input = q;
        let ghost m = *self;
        match l {
            Lists::Commands => self.sync_command_autocomplete(),
            Lists::Mentions => self.update_mention_filter(),
            Lists::Emojis => self.update_emoji_filter(),
        }
        assert(input_set(old(self), &m, qv));
    }

    fn command_list_key_exec(&mut self, k: KeyInput)
        requires
            old(self).command_autocomplete matches Some(a) ==> (a.selected_index < a.matches@.len()
                ==> a.matches@[a.selected_index as int] < SLASH_COMMAND_COUNT),
        ensures
            command_list_key(old(self), final(self), k),
    {
        if k.code == Key::Esc {
            self.dismiss_command_autocomplete();
        } else if k.code == Key::Up {
            self.autocomplete_command_prev();
        } else if k.code == Key::Down {
            self.autocomplete_command_next();
        } else if k.code == Key::Tab || k.code == Key::Enter {
            let _ = self.insert_selected_slash_command();
        } else if let Some(q) = self.input_after(k) {
            self.edit_input(q, Lists::Commands);
        }
    }

    fn mention_list_key_exec(&mut self, k: KeyInput)
        ensures
            mention_list_key(old(self), final(self), k),
    {
        if k.code == Key::Esc {
            self.dismiss_mention_autocomplete();
        } else if k.code == Key::Up {
            self.autocomplete_mention_prev();
        } else if k.code == Key::Down {
            self.autocomplete_mention_next();
        } else if k.code == Key::Tab || k.code == Key::Enter {
            let _ = self.insert_selected_mention();
        } else if let Some(q) = self.input_after(k) {
            self.edit_input(q, Lists::Mentions);
        }
    }

    fn emoji_list_key_exec(&mut self, k: KeyInput) -> (acts: Vec<KeyAction>)
        ensures
            emoji_list_key(old(self), final(self), k, acts@),
    {
        if k.code == Key::Tab || k.code == Key::Enter {
            if self.reaction_target.is_some() {
                let mut acts: Vec<KeyAction> = Vec::new();
                if let Some((channel_id, message_id, emoji)) = self.confirm_reaction_emoji() {
                    acts.push(KeyAction::AddReaction { channel_id, message_id, emoji });
                    self.focus = Focus::Messages;
                }
                return acts;
            }
            let _ = self.insert_selected_emoji();
            return Vec::new();
        }
        if k.code == Key::Esc {
            if self.reaction_target.is_some() {
                self.reaction_target = None;
                self.input = String::new();
                self.focus = Focus::Messages;
            }
            self.dismiss_emoji_autocomplete();
        } else if k.code == Key::Up {
            self.autocomplete_emoji_prev();
        } else if k.code == Key::Down {
            self.autocomplete_emoji_next();
        } else if let Some(q) = self.input_after(k) {
            self.edit_input(q, Lists::Emojis);
        }
        Vec::new()
    }

    /// Requests members for mentions, opens the @ list, and says when
    /// members are still loading.
    fn type_at(&mut self) -> (acts: Vec<KeyAction>)
        ensures
            at_typed(old(self), final(self), acts@),
    {
        let (pending, g) = self.schedule_guild_members_fetch_for_mentions();
        let mut acts: Vec<KeyAction> = Vec::new();
        if let Some(guild_id) = g {
            acts.push(KeyAction::Fetch(FetchRequest::GuildMembers { guild_id }));
        }
        let ghost m = *self;
        self.start_mention_autocomplete();
        let ghost m2 = *self;
        if pending && self.mention_autocomplete.is_none() {
            self.set_status(crate::text::owned("Loading members for @mentions…"));
        }
        assert(members_requested(old(self), &m, acts@));
        assert(mention_started(&m, &m2));
        acts
    }

    fn after_char(&mut self, c: char) -> (acts: Vec<KeyAction>)
        ensures
            char_added(old(self), final(self), c, acts@),
    {
        if c == '/' {
            self.sync_command_autocomplete();
            Vec::new()
        } else if c == ':' {
            self.start_emoji_autocomplete();
            Vec::new()
        } else if c == '@' {
            self.type_at()
        } else {
            Vec::new()
        }
    }

    fn send_line(&mut self, channel_id: String, content: String, tts: bool) -> (acts: Vec<KeyAction>)
        ensures
            line_cleared(old(self), final(self)),
            acts@.len() == 1,
            acts@[0] matches KeyAction::SendMessage { channel_id: c, content: t, reply, forward, tts: s }
                && c@ == channel_id@ && t@ == content@ && s == tts && reply == old(self).reply_to
                && forward == old(self).forward_mode,
    {
        let forward = self.forward_mode;
        self.forward_mode = false;
        self.input = String::new();
        let reply = self.reply_to.take();
        self.message_scroll_from_bottom = 0;
        let mut acts: Vec<KeyAction> = Vec::new();
        acts.push(KeyAction::SendMessage { channel_id, content, reply, forward, tts });
        acts
    }

    fn submit_input(&mut self) -> (acts: Vec<KeyAction>)
        ensures
            submitted(old(self), final(self), acts@),
    {
        if let Some(et) = &self.edit_target {
            if crate::text::blank(self.input.as_str()) {
                self.set_status(crate::text::owned("Edited message cannot be empty."));
                return Vec::new();
            }
            let channel_id = crate::text::owned(et.channel_id.as_str());
            let message_id = crate::text::owned(et.message_id.as_str());
            let content = crate::text::owned(self.input.as_str());
            self.message_scroll_from_bottom = 0;
            let mut acts: Vec<KeyAction> = Vec::new();
            acts.push(KeyAction::EditMessage { channel_id, message_id, content });
            return acts;
        }
        let is_forward = self.forward_mode;
        let has_ref = self.reply_to.is_some();
        let allow = !crate::text::blank(self.input.as_str()) || (is_forward && has_ref);
        if !(self.active_channel_is_text() && self.can_send_in_active_channel() && allow) {
            return Vec::new();
        }
        let channel_id = match self.active_channel_id() {
            Some(c) => c,
            None => {
                return Vec::new();
            },
        };
        let trimmed = crate::text::str_trim(self.input.as_str());
        let guild_id: Option<String> = match self.active_channel() {
            Some(c) => c.guild_id,
            None => None,
        };
        let prev_nick = match &guild_id {
            Some(g) => self.self_nick_or_username_in_guild(g.as_str()),
            None => crate::names::display_name(&crate::names::me_as_partial(&self.me)),
        };
        let perms = self.active_channel_permissions();
        let gref: Option<&str> = match &guild_id {
            Some(g) => Some(g.as_str()),
            None => None,
        };
        let resolved = crate::slash_commands::resolve_outgoing_slash(
            trimmed.as_str(),
            gref,
            self.me.username.as_str(),
            prev_nick.as_str(),
            perms,
        );
        let ghost res = resolved@;
        match resolved {
            OutgoingSlash::Blocked(msg) => {
                self.set_status(msg);
                Vec::new()
            },
            OutgoingSlash::SetNick { guild_id, nick, prev_display, new_display } => {
                self.forward_mode = false;
                self.input = String::new();
                self.reply_to = None;
                self.message_scroll_from_bottom = 0;
                let mut acts: Vec<KeyAction> = Vec::new();
                acts.push(KeyAction::ChangeNick { guild_id, nick, channel_id, prev_display, new_display });
                acts
            },
            OutgoingSlash::SendContent(c) => self.send_line(channel_id, c, false),
            OutgoingSlash::SendTts(c) => self.send_line(channel_id, c, true),
            OutgoingSlash::Normal => self.send_line(channel_id, trimmed, false),
        }
    }

    fn type_char(&mut self, c: char) -> (acts: Vec<KeyAction>)
        ensures
            char_typed(old(self), final(self), c, acts@),
    {
        let mut q = crate::text::owned(self.input.as_str());
        push_char(&mut q, c);
        self.input = q;
        let ghost m = *self;
        let acts = self.after_char(c);
        let ghost m2 = *self;
        self.sync_command_autocomplete();
        assert(input_set(old(self), &m, old(self).input@.push(c)));
        assert(char_added(&m, &m2, c, acts@));
        acts
    }

    fn escape_input(&mut self)
        ensures
            input_escaped(old(self), final(self)),
    {
        self.dismiss_command_autocomplete();
        if self.reaction_target.is_some() {
            self.reaction_target = None;
            self.dismiss_emoji_autocomplete();
            self.input = String::new();
            self.focus = Focus::Messages;
        } else if self.reply_to.is_some() || self.edit_target.is_some() {
            self.cancel_reply();
        } else {
            self.focus = Focus::Channels;
        }
    }

    fn plain_input_key_exec(&mut self, k: KeyInput) -> (acts: Vec<KeyAction>)
        ensures
            plain_input_key(old(self), final(self), k, acts@),
    {
        if k.code == Key::Enter {
            return self.submit_input();
        }
        if let Key::Char(c) = k.code {
            if !k.ctrl {
                return self.type_char(c);
            }
        }
        if k.code == Key::Esc {
            self.escape_input();
        } else if k.code == Key::Up {
            self.focus = Focus::Messages;
        } else if (k.ctrl && (k.code == Key::Backspace || k.code == Key::Char('h') || k.code == Key::Char('H')))
            || k.code == Key::Backspace {
            if let Some(q) = self.input_after(k) {
                self.edit_input(q, Lists::Commands);
            }
        } else if k.code == Key::Char('u') && k.ctrl {
            self.dismiss_command_autocomplete();
            self.input = String::new();
        }
        Vec::new()
    }

    fn request_older(&mut self) -> (acts: Vec<KeyAction>)
        ensures
            older_requested(old(self), final(self), acts@),
    {
        let mut acts: Vec<KeyAction> = Vec::new();
        if let Some((channel_id, before)) = self.try_load_older_messages() {
            acts.push(KeyAction::Fetch(FetchRequest::OlderMessages { channel_id, before }));
        }
        acts
    }

    fn request_older_near_top(&mut self) -> (acts: Vec<KeyAction>)
        ensures
            auto_older(old(self), final(self), acts@),
    {
        let mut acts: Vec<KeyAction> = Vec::new();
        if let Some((channel_id, before)) = self.maybe_auto_load_older_messages() {
            acts.push(KeyAction::Fetch(FetchRequest::OlderMessages { channel_id, before }));
        }
        acts
    }

    fn pane_move(&mut self, d: i32) -> (acts: Vec<KeyAction>)
        requires
            d == 1 || d == -1,
        ensures
            pane_moved(old(self), final(self), d, acts@),
    {
        let up = d < 0;
        match self.focus {
            Focus::Servers => {
                let prev = copy_id(&self.selected_channel_id);
                let r = self.move_server(d);
                let ghost m = *self;
                let acts = self.ack_if_left(&prev);
                assert(server_moved(old(self), &m, d, r));
                acts
            },
            Focus::Channels => {
                let prev = copy_id(&self.selected_channel_id);
                let r = self.move_channel(d);
                let ghost m = *self;
                let acts = self.ack_if_left(&prev);
                assert(channel_moved(old(self), &m, d, r));
                acts
            },
            Focus::Messages => {
                if self.selected_message_index.is_some() {
                    self.move_selected_message(d);
                    let mut acts: Vec<KeyAction> = Vec::new();
                    acts.push(KeyAction::ClampScroll);
                    acts
                } else if up {
                    self.scroll_messages_up(3);
                    let ghost m = *self;
                    let acts = self.request_older_near_top();
                    assert(scrolled_up(old(self), &m, 3));
                    acts
                } else {
                    self.scroll_messages_down(3);
                    Vec::new()
                }
            },
            Focus::Input => Vec::new(),
        }
    }

    fn refresh_open(&mut self)
        ensures
            refreshed(old(self), final(self)),
    {
        if let Some(c) = self.active_channel_id() {
            self.loading_messages.remove(c.as_str());
            let _ = self.messages.remove(c.as_str());
            self.messages_older_exhausted.remove(c.as_str());
            self.api_backoff_clear_channel_messages(c.as_str());
        }
        let ghost m = *self;
        assert(channel_stage(old(self), &m));
        if let Some(g) = self.active_guild_id() {
            self.loading_channels.remove(g.as_str());
            self.guild_members_synced.remove(g.as_str());
            self.loading_members.remove(g.as_str());
            self.api_backoff_clear_guild(g.as_str());
        }
    }

    fn start_reaction(&mut self)
        ensures
            reaction_started(old(self), final(self)),
    {
        if !self.can_react_in_active_channel() {
            self.set_status(crate::text::owned("No permission to add reactions here."));
            return ;
        }
        if let (Some(msg), Some(ch)) = (self.selected_message(), self.active_channel_id()) {
            self.reaction_target = Some((ch, msg.id));
        }
        let ghost m = *self;
        self.focus = Focus::Input;
        self.input = crate::text::owned(":");
        let ghost m2 = *self;
        self.start_emoji_autocomplete();
        let ghost m3 = *self;
        self.set_status(crate::text::owned("Pick an emoji, Enter to react (Esc to cancel)"));
        assert(reaction_aimed(old(self), &m));
        assert(colon_input(&m, &m2));
        assert(emoji_filtered(&m2, &m3, 0));
    }

    fn start_forward(&mut self)
        ensures
            forward_started(old(self), final(self)),
    {
        if let Some(msg) = self.selected_message() {
            self.edit_target = None;
            self.forward_mode = true;
            let src_guild = self.guild_id_for_channel(msg.channel_id.as_str());
            let gref: Option<&str> = match &src_guild {
                Some(g) => Some(g.as_str()),
                None => None,
            };
            let author_name = self.shown_name_for_user(gref, &msg.author);
            self.reply_to = Some(
                ReplyState {
                    channel_id: msg.channel_id,
                    message_id: msg.id,
                    author_name,
                    source_guild_id: src_guild,
                },
            );
            self.set_status(
                crate::text::owned("Forward: pick channel (Ctrl+K), type optional note, Enter to send"),
            );
        }
    }

    fn enter_pane(&mut self) -> (acts: Vec<KeyAction>)
        ensures
            pane_entered(old(self), final(self), acts@),
    {
        let mut acts: Vec<KeyAction> = Vec::new();
        if self.active_channel_is_link() {
            if let Some(channel) = self.active_channel() {
                if let Some(url) = channel.url {
                    acts.push(KeyAction::OpenUrl { url });
                }
            }
        } else if self.active_channel_is_text() && self.can_send_in_active_channel() {
            self.focus = Focus::Input;
        }
        acts
    }

    fn pane_key_exec(&mut self, k: KeyInput) -> (acts: Vec<KeyAction>)
        ensures
            pane_key(old(self), final(self), k, acts@),
    {
        let c = k.code;
        let msgs = self.focus == Focus::Messages;
        let sel = self.selected_message_index.is_some();
        if c == Key::Enter {
            return self.enter_pane();
        }
        if c == Key::Up || c == Key::Char('k') {
            return self.pane_move(-1);
        }
        if c == Key::Down || c == Key::Char('j') {
            return self.pane_move(1);
        }
        if c == Key::PageUp {
            self.scroll_messages_up(18);
            if self.selected_message_index.is_none() {
                let ghost m = *self;
                let acts = self.request_older_near_top();
                assert(scrolled_up(old(self), &m, 18));
                return acts;
            }
            return Vec::new();
        }
        if c == Key::Char('s') && msgs {
            let count = self.active_messages().len();
            let mut acts: Vec<KeyAction> = Vec::new();
            if count > 0 {
                self.selected_message_index = Some(count - 1);
                acts.push(KeyAction::ClampScroll);
            }
            return acts;
        }
        if c == Key::Char('[') && msgs {
            return self.request_older();
        }
        self.pane_plain_key_exec(k);
        Vec::new()
    }

    fn pane_plain_key_exec(&mut self, k: KeyInput)
        ensures
            pane_plain_key(old(self), final(self), k),
    {
        let c = k.code;
        let msgs = self.focus == Focus::Messages;
        let sel = self.selected_message_index.is_some();
        if c == Key::Char('c') && k.ctrl {
            self.should_quit = true;
        } else if c == Key::Char('l') && k.ctrl {
            self.should_logout = true;
            self.should_quit = true;
        } else if c == Key::Char('q') {
            self.should_quit = true;
        } else if c == Key::Tab || c == Key::Right || c == Key::Char('l') {
            self.focus = self.focus.next();
        } else if c == Key::BackTab || c == Key::Left || c == Key::Char('h') {
            self.focus = self.focus.previous();
        } else if c == Key::Char('i') {
            if self.active_channel_is_text() && self.can_send_in_active_channel() {
                self.focus = Focus::Input;
            }
        } else if c == Key::Char('n') && !k.ctrl && (self.focus == Focus::Servers || self.focus == Focus::Channels) {
            self.show_settings = false;
            let _ = self.open_server_notification_settings();
        } else if c == Key::Esc {
            self.selected_message_index = None;
            self.focus = Focus::Channels;
        } else if c == Key::PageDown {
            self.scroll_messages_down(18);
        } else if c == Key::Char('r') && msgs && sel {
            self.start_reply();
        } else if c == Key::Char('R') {
            self.refresh_open();
        } else if c == Key::Char('e') && msgs && sel {
            self.start_reaction();
        } else if c == Key::Char('f') && msgs && sel {
            self.start_forward();
        }
    }

    /// Whether a Ctrl shortcut takes the key (see `ctrl_takes`).
    fn ctrl_applies(&self, k: KeyInput) -> (r: bool)
        ensures
            r == ctrl_takes(self, k),
    {
        if !k.ctrl || self.emoji_autocomplete.is_some() || self.mention_autocomplete.is_some()
            || self.command_autocomplete.is_some() {
            return false;
        }
        if k.code == Key::Char('n') || k.code == Key::Char('p') || k.code == Key::Char('k') {
            return true;
        }
        let is_e = k.code == Key::Char('e');
        let is_d = k.code == Key::Char('d');
        let is_o = k.code == Key::Char('o') || k.code == Key::Char('O');
        if !(is_e || is_d || is_o) || self.focus != Focus::Messages {
            return false;
        }
        match self.selected_message() {
            None => false,
            Some(m) => {
                if is_e {
                    self.can_edit_message(&m)
                } else if is_d {
                    self.can_delete_message(&m)
                } else {
                    true
                }
            },
        }
    }
}

/// Whether the command list's selected row, if any, names a command; see `commands_ok`.
pub fn commands_in_range(app: &App) -> (r: bool)
    ensures
        r == commands_ok(app),
{
    match &app.command_autocomplete {
        Some(x) => x.selected_index >= x.matches.len() || x.matches[x.selected_index] < SLASH_COMMAND_COUNT,
        None => true,
    }
}

/// Applies a key press to the client state and returns the work it asks
/// of the front end, in order (see `key_handled`).
pub fn handle_key_event(app: &mut App, key: KeyInput) -> (acts: Vec<KeyAction>)
    requires
        commands_ok(old(app)),
    ensures
        key_handled(old(app), final(app), key, acts@),
{
    if app.show_help {
        app.help_overlay_key(key.code);
        return Vec::new();
    }
    if key.code == Key::F(2) {
        app.flip_settings();
        return Vec::new();
    }
    if app.show_settings {
        return app.settings_overlay_key(key.code);
    }
    if app.show_server_notifications {
        return app.notifications_overlay_key(key.code);
    }
    if app.image_preview.is_some() {
        app.preview_overlay_key(key.code);
        return Vec::new();
    }
    if key.code == Key::F(1) || (key.ctrl && (key.code == Key::Char('h') || key.code == Key::Char('H'))
        && app.focus != Focus::Input && app.channel_picker.is_none()) {
        app.open_help();
        return Vec::new();
    }
    if app.channel_picker.is_some() {
        return app.picker_overlay_key(key);
    }
    if app.ctrl_applies(key) {
        return app.ctrl_shortcut(key);
    }
    if key.alt && (key.code == Key::Char('a') || key.code == Key::Char('A'))
        && !(app.emoji_autocomplete.is_some() || app.mention_autocomplete.is_some()
        || app.command_autocomplete.is_some()) {
        return app.jump_to_activity();
    }
    if app.focus == Focus::Input {
        if app.command_autocomplete.is_some() {
            app.command_list_key_exec(key);
            return Vec::new();
        }
        if app.mention_autocomplete.is_some() {
            app.mention_list_key_exec(key);
            return Vec::new();
        }
        if app.emoji_autocomplete.is_some() {
            return app.emoji_list_key_exec(key);
        }
        return app.plain_input_key_exec(key);
    }
    app.pane_key_exec(key)
}

/// Applies pasted text to the client state and returns the work it asks
/// of the front end (see `paste_handled`).
pub fn handle_paste_event(app: &mut App, text: &str) -> (acts: Vec<KeyAction>)
    ensures
        paste_handled(old(app), final(app), text@, acts@),
{
    let t = normalize_pasted_text(text);
    let tc = chars_of(t.as_str());
    if tc.len() == 0 || app.show_help {
        return Vec::new();
    }
    if app.channel_picker.is_some() {
        let mut q = match &app.channel_picker {
            Some(p) => crate::text::owned(p.query.as_str()),
            None => {
                return Vec::new();
            },
        };
        let ghost q0 = q@;
        let mut i: usize = 0;
        while i < tc.len()
            invariant
                i <= tc@.len(),
                tc@ == without_cr(text@),
                q@ == q0 + query_chars(tc@.take(i as int)),
            decreases tc@.len() - i,
        {
            assert(tc@.take(i + 1).drop_last() =~= tc@.take(i as int));
            let ch = tc[i];
            if ch == '\n' || ch == '\r' {
            } else if ch == '\t' {
                push_char(&mut q, ' ');
            } else if !crate::text::char_is_control(ch) {
                push_char(&mut q, ch);
            }
            i = i + 1;
        }
        assert(tc@.take(tc@.len() as int) =~= tc@);
        app.set_picker_query(q);
        return Vec::new();
    }
    if app.focus != Focus::Input {
        return Vec::new();
    }
    let mut q = crate::text::owned(app.input.as_str());
    push_chars_respecting_limit(&mut q, t.as_str(), INPUT_MAX_CHARS);
    if app.mention_autocomplete.is_some() {
        app.edit_input(q, Lists::Mentions);
        return Vec::new();
    }
    if app.emoji_autocomplete.is_some() {
        app.edit_input(q, Lists::Emojis);
        return Vec::new();
    }
    if app.command_autocomplete.is_some() {
        app.edit_input(q, Lists::Commands);
        return Vec::new();
    }
    app.input = q;
    let ghost m = *app;
    let acts = if crate::text::str_ends_with(app.input.as_str(), ":") {
        app.start_emoji_autocomplete();
        Vec::new()
    } else if crate::text::str_ends_with(app.input.as_str(), "@") {
        app.type_at()
    } else {
        Vec::new()
    };
    let ghost m2 = *app;
    app.sync_command_autocomplete();
    proof {
        assert(input_set(old(app), &m, pasted_input(old(app).input@, without_cr(text@))));
        assert(paste_tail(&m, &m2, acts@));
    }
    acts
}

/// The typing animation steps every second tick through four phases while
/// someone else types (see `others_typing_anim_active`); otherwise it rests.
pub open spec fn animation_ticked(a: &App, b: &App) -> bool {
    if a.ui_settings.show_typing_indicators && !a.ui_settings.performance_mode
        && crate::typing::typers_here(a) > 0 {
        let slow = if a.input_bar_anim_slow == 255 {
            255
        } else {
            a.input_bar_anim_slow + 1
        };
        if slow >= 2 {
            *b == (App {
                input_bar_anim_slow: 0,
                input_bar_anim_phase: ((a.input_bar_anim_phase + 1) % 4) as u8,
                ..*a
            })
        } else {
            *b == (App { input_bar_anim_slow: slow as u8, ..*a })
        }
    } else {
        *b == (App { input_bar_anim_slow: 0, input_bar_anim_phase: 0, ..*a })
    }
}

/// The guild the gateway is to be asked to stream, when connected: the
/// selected guild, unless it is already streamed (or its id is empty).
pub open spec fn lazy_target(a: &App) -> Option<Seq<char>> {
    match a.selected_server {
        ServerSelection::Guild(g) => if a.gateway_status == crate::app::GatewayStatus::Connected
            && g@.len() > 0 && opt_str(a.gateway_lazy_guild_id) != Some(g@) {
            Some(g@)
        } else {
            None
        },
        ServerSelection::DirectMessages => None,
    }
}

impl App {
    /// Advances the typing animation by one tick; see `animation_ticked`.
    pub fn advance_input_bar_animation(&mut self)
        ensures
            animation_ticked(old(self), final(self)),
    {
        if self.others_typing_anim_active() {
            self.input_bar_anim_slow = self.input_bar_anim_slow.saturating_add(1);
            if self.input_bar_anim_slow >= 2 {
                self.input_bar_anim_slow = 0;
                self.input_bar_anim_phase = ((self.input_bar_anim_phase as u16 + 1) % 4) as u8;
            }
        } else {
            self.input_bar_anim_slow = 0;
            self.input_bar_anim_phase = 0;
        }
    }

    /// Keeps the gateway streaming the selected guild: when connected, a
    /// guild not yet streamed is returned for the front end to subscribe to
    /// and recorded as streamed; with the direct messages selected the record
    /// is cleared.
    pub fn ensure_lazy_guild_subscription(&mut self) -> (r: Option<String>)
        ensures
            opt_str(r) == lazy_target(old(self)),
            r is Some ==> *final(self) == (App { gateway_lazy_guild_id: final(self).gateway_lazy_guild_id, ..*old(self) })
                && opt_str(final(self).gateway_lazy_guild_id) == opt_str(r),
            r is None ==> if old(self).gateway_status == crate::app::GatewayStatus::Connected
                && old(self).selected_server is DirectMessages {
                *final(self) == (App { gateway_lazy_guild_id: None, ..*old(self) })
            } else {
                *final(self) == *old(self)
            },
    {
        if self.gateway_status != crate::app::GatewayStatus::Connected {
            return None;
        }
        let gid = match &self.selected_server {
            ServerSelection::DirectMessages => {
                self.gateway_lazy_guild_id = None;
                return None;
            },
            ServerSelection::Guild(g) => crate::text::owned(g.as_str()),
        };
        if chars_of(gid.as_str()).len() == 0 {
            return None;
        }
        if let Some(cur) = &self.gateway_lazy_guild_id {
            if str_eq(cur.as_str(), gid.as_str()) {
                return None;
            }
        }
        let keep = crate::text::owned(gid.as_str());
        self.gateway_lazy_guild_id = Some(keep);
        Some(gid)
    }
}

} // verus!
