//! The channel list's rows: a channel's shown name, its icon and colour,
//! its unread dot and mention count, cut to the list's width.
use crate::app::App;
use crate::markdown::{fg_only, fg_style, plain, plain_style, SpanStyle, Tint};
use crate::names::{display_name_spec, display_names, join};
use crate::pane::{cut_from, line_fits, ln, tx, PaneLine, PaneSpan, PaneText, PieceV};
use crate::reads::{mention_of, unread_spec};
use crate::text::{chars_of, concat, is_blank, owned, uppercase};
use crate::types::{
    spec_channel_type, ChannelResponse, CHANNEL_DM, CHANNEL_DM_PERSONAL_NOTES, CHANNEL_GROUP_DM,
    CHANNEL_GUILD_CATEGORY, CHANNEL_GUILD_LINK, CHANNEL_GUILD_TEXT, CHANNEL_GUILD_VOICE,
};
use vstd::prelude::*;

verus! {

/// `s` cut to `max` columns for the list: nothing for no room, an ellipsis
/// alone for one column, else its first characters that fit in one column
/// less and an ellipsis when it does not fit whole.
pub open spec fn fit_columns(s: Seq<char>, max: usize) -> Seq<char> {
    if max == 0 {
        Seq::empty()
    } else if max <= 1 {
        seq!['\u{2026}']
    } else {
        cut_from(s, max - 1, 0, 0)
    }
}

/// `s` cut to `max` columns; see `fit_columns`.
pub fn truncate_str(s: &str, max_cols: usize) -> (r: String)
    ensures
        r@ == fit_columns(s@, max_cols),
{
    if max_cols == 0 {
        return String::new();
    }
    if max_cols <= 1 {
        proof {
            reveal_strlit("\u{2026}");
        }
        return owned("\u{2026}");
    }
    let cs = chars_of(s);
    let room = max_cols - 1;
    let mut out: Vec<char> = Vec::new();
    let mut w: usize = 0;
    let mut i: usize = 0;
    while i < cs.len()
        invariant
            i <= cs@.len(),
            cs@ == s@,
            room == max_cols - 1,
            max_cols > 1,
            w <= room,
            out@ + cut_from(s@, room as int, i as int, w as int) == cut_from(s@, room as int, 0, 0),
        decreases cs@.len() - i,
    {
        let cw: usize = match crate::pane::char_width(cs[i]) {
            Some(x) => if x == 0 {
                1
            } else {
                x
            },
            None => 1,
        };
        if cw > room - w {
            assert(cut_from(s@, room as int, i as int, w as int) == seq!['\u{2026}']);
            out.push('\u{2026}');
            assert(out@ =~= cut_from(s@, room as int, 0, 0));
            return crate::text::string_of(out.as_slice());
        }
        assert(cut_from(s@, room as int, i as int, w as int) == seq![cs@[i as int]] + cut_from(
            s@,
            room as int,
            i + 1,
            w + cw,
        ));
        out.push(cs[i]);
        assert(out@ + cut_from(s@, room as int, i + 1, w + cw) =~= cut_from(s@, room as int, 0, 0));
        w = w + cw;
        i = i + 1;
    }
    assert(out@ =~= cut_from(s@, room as int, 0, 0));
    crate::text::string_of(out.as_slice())
}

/// The name a channel is listed under: personal notes and direct messages
/// by who they are with, a group by its name or members, others by name.
pub open spec fn listed_name(c: ChannelResponse) -> Seq<char> {
    let t = spec_channel_type(c);
    if t == CHANNEL_DM_PERSONAL_NOTES {
        "Personal Notes"@
    } else if t == CHANNEL_DM {
        if c.recipients@.len() > 0 {
            display_name_spec(c.recipients@[0])
        } else {
            "Direct Message"@
        }
    } else if t == CHANNEL_GROUP_DM {
        if !is_blank(c.name@) {
            c.name@
        } else if c.recipients@.len() > 0 {
            join(display_names(c.recipients@), ", "@)
        } else {
            "Group DM"@
        }
    } else {
        c.name@
    }
}

/// The name a channel is listed under; see `listed_name`.
pub fn channel_name(channel: &ChannelResponse) -> (r: String)
    ensures
        r@ == listed_name(*channel),
{
    let t = channel.channel_type();
    if t == CHANNEL_DM_PERSONAL_NOTES {
        owned("Personal Notes")
    } else if t == CHANNEL_DM {
        if channel.recipients.len() > 0 {
            crate::names::display_name(&channel.recipients[0])
        } else {
            owned("Direct Message")
        }
    } else if t == CHANNEL_GROUP_DM {
        if !crate::text::blank(channel.name.as_str()) {
            owned(channel.name.as_str())
        } else if channel.recipients.len() > 0 {
            crate::names::join_display_names(&channel.recipients)
        } else {
            owned("Group DM")
        }
    } else {
        owned(channel.name.as_str())
    }
}

/// A channel type's icon and colour in the list.
pub open spec fn icon_of(t: i32) -> (Seq<char>, Tint) {
    if t == CHANNEL_GUILD_TEXT {
        ("#"@, Tint::TextDim)
    } else if t == CHANNEL_GUILD_VOICE {
        ("\u{1F50A}"@, Tint::Voice)
    } else if t == CHANNEL_DM {
        ("@"@, Tint::TextDim)
    } else if t == CHANNEL_GROUP_DM {
        ("+"@, Tint::TextDim)
    } else if t == CHANNEL_DM_PERSONAL_NOTES {
        ("*"@, Tint::TextDim)
    } else if t == CHANNEL_GUILD_LINK {
        ("\u{1F517}"@, Tint::Link)
    } else {
        ("?"@, Tint::TextDim)
    }
}

/// The style of a listed channel's name: bold in the text colour when
/// selected, the text colour when unread, else its type's colour.
pub open spec fn row_style(t: Tint, selected: bool, unread: bool) -> SpanStyle {
    if selected {
        SpanStyle { fg: Some(Tint::Text), bold: true, ..plain() }
    } else if unread {
        fg_only(Tint::Text)
    } else {
        fg_only(t)
    }
}

/// A channel's row in the list `max_width` columns wide: a category's name
/// in capitals; else an unread dot (unless selected), the icon (indented
/// under a category) and the name cut to fit, and the mention count.
pub open spec fn channel_row(a: &App, c: ChannelResponse, selected: bool, max_width: usize) -> Seq<PieceV> {
    let t = spec_channel_type(c);
    if t == CHANNEL_GUILD_CATEGORY {
        seq![
            tx("  "@ + fit_columns(uppercase(c.name@), max_width), SpanStyle {
                fg: Some(Tint::TextMuted),
                bold: true,
                ..plain()
            }),
        ]
    } else {
        let (icon, tint) = icon_of(t);
        let unread = unread_spec(a, c.id@);
        let st = row_style(tint, selected, unread);
        let indent: Seq<char> = if c.parent_id is Some && c.guild_id is Some {
            "  "@
        } else {
            Seq::empty()
        };
        let room = max_width - (indent.len() + 3);
        let name = fit_columns(listed_name(c), if room < 0 { 0 } else { room as usize });
        let count = mention_of(a, c.id@);
        (if unread && !selected {
            seq![tx("\u{25CF} "@, fg_only(Tint::Text))]
        } else {
            Seq::empty()
        }) + seq![tx(indent + icon + " "@, st), tx(name, st)] + if count > 0 {
            seq![
                tx(" @"@ + crate::messages::decimal(count as nat), SpanStyle {
                    fg: Some(Tint::Danger),
                    bold: true,
                    ..plain()
                }),
            ]
        } else {
            Seq::empty()
        }
    }
}

fn icon_exec(t: i32) -> (r: (&'static str, Tint))
    ensures
        r.0@ == icon_of(t).0,
        r.1 == icon_of(t).1,
{
    if t == CHANNEL_GUILD_TEXT {
        ("#", Tint::TextDim)
    } else if t == CHANNEL_GUILD_VOICE {
        ("\u{1F50A}", Tint::Voice)
    } else if t == CHANNEL_DM {
        ("@", Tint::TextDim)
    } else if t == CHANNEL_GROUP_DM {
        ("+", Tint::TextDim)
    } else if t == CHANNEL_DM_PERSONAL_NOTES {
        ("*", Tint::TextDim)
    } else if t == CHANNEL_GUILD_LINK {
        ("\u{1F517}", Tint::Link)
    } else {
        ("?", Tint::TextDim)
    }
}

fn span_of(text: String, style: SpanStyle) -> (r: PaneSpan)
    ensures
        crate::pane::piece_fits(r, tx(text@, style)),
{
    PaneSpan { text: PaneText::Text(text), style }
}

impl App {
    /// A channel's row in the list; see `channel_row`.
    pub fn channel_label(&self, channel: &ChannelResponse, is_selected: bool, max_width: usize) -> (r: PaneLine)
        ensures
            line_fits(r, ln(channel_row(self, *channel, is_selected, max_width), plain())),
    {
        let ghost want = channel_row(self, *channel, is_selected, max_width);
        let t = channel.channel_type();
        let mut spans: Vec<PaneSpan> = Vec::new();
        if t == CHANNEL_GUILD_CATEGORY {
            let name = crate::text::to_uppercase(channel.name.as_str());
            let cut = truncate_str(name.as_str(), max_width);
            spans.push(span_of(concat("  ", cut.as_str()), SpanStyle { fg: Some(Tint::TextMuted), bold: true, ..plain_style() }));
            assert(crate::pane::pieces_fit(spans@, want));
            return PaneLine { spans, style: plain_style() };
        }
        let (icon, tint) = icon_exec(t);
        let unread = self.channel_is_unread(channel.id.as_str());
        let st = if is_selected {
            SpanStyle { fg: Some(Tint::Text), bold: true, ..plain_style() }
        } else if unread {
            fg_style(Tint::Text)
        } else {
            fg_style(tint)
        };
        let indented = channel.parent_id.is_some() && channel.guild_id.is_some();
        let indent = if indented {
            "  "
        } else {
            ""
        };
        proof {
            reveal_strlit("  ");
            reveal_strlit("");
        }
        let used: usize = if indented {
            5
        } else {
            3
        };
        let room: usize = if max_width >= used {
            max_width - used
        } else {
            0
        };
        let name = channel_name(channel);
        let cut = truncate_str(name.as_str(), room);
        let count = self.channel_mention_count(channel.id.as_str());
        let ghost mut ps: Seq<PieceV> = Seq::empty();
        if unread && !is_selected {
            spans.push(span_of(owned("\u{25CF} "), fg_style(Tint::Text)));
            proof {
                ps = ps.push(tx("\u{25CF} "@, fg_only(Tint::Text)));
            }
        }
        let head = concat(concat(indent, icon).as_str(), " ");
        let ghost hv = head@;
        let ghost s0 = spans@;
        spans.push(span_of(head, st));
        let ghost cv = cut@;
        spans.push(span_of(cut, st));
        proof {
            ps = ps.push(tx(hv, st)).push(tx(cv, st));
        }
        if count > 0 {
            let c = concat(" @", crate::messages::u128_to_decimal(count as u128).as_str());
            let ghost ccv = c@;
            spans.push(span_of(c, SpanStyle { fg: Some(Tint::Danger), bold: true, ..plain_style() }));
            proof {
                ps = ps.push(tx(ccv, SpanStyle { fg: Some(Tint::Danger), bold: true, ..plain() }));
            }
        }
        assert(ps =~= want);
        assert(crate::pane::pieces_fit(spans@, want));
        PaneLine { spans, style: plain_style() }
    }
}

} // verus!
