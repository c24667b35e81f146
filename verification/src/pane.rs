//! The message pane's lines: how a channel's messages are laid out as
//! styled lines, grouped by author and time, with reply context, text,
//! attachments, embeds and reactions, and which lines belong to which
//! message.
use crate::app::App;
use crate::display::{
    embed_display_label, embed_is_gif, embed_label, message_was_edited, referenced_body_preview,
    reply_preview,
};
use crate::markdown::{
    fg_only, fg_style, parse_message_spans, piece, plain, plain_style, text_fits, SpanSpec, SpanStyle,
    StyledSpan, Tint,
};
use crate::markup_lines::{content_lines, content_rows, patched_style, text_lines};
use crate::members::guild_of_channel;
use crate::messages::{decimal, u128_to_decimal};
use crate::roster::name_color;
use crate::settings::opt_ref_view;
use crate::slash_commands::MESSAGE_TYPE_CLIENT_SYSTEM;
use crate::text::{chars_of, concat, is_blank, owned, string_of};
use crate::typing::shown_name;
use crate::types::{
    EmbedFieldResponse, MessageAttachmentResponse, MessageEmbedResponse, MessageReactionResponse,
    MessageResponse,
};
use vstd::prelude::*;

verus! {

/// What a piece of a pane line shows.
#[derive(Debug)]
pub enum PaneText {
    /// Literal text.
    Text(String),
    /// A message's timestamp, written by the front end in the machine's time
    /// zone and clock style, between `lead` and `trail`.
    Stamp { raw: String, lead: String, trail: String },
    /// An attachment's size (unknown when absent), written by the front end
    /// in bytes, KB or MB, between `lead` and `trail`.
    Size { bytes: Option<u64>, lead: String, trail: String },
}

/// A piece of a pane line and how it is drawn.
#[derive(Debug)]
pub struct PaneSpan {
    pub text: PaneText,
    pub style: SpanStyle,
}

/// A line of the message pane: its pieces and the style of the whole line.
#[derive(Debug)]
pub struct PaneLine {
    pub spans: Vec<PaneSpan>,
    pub style: SpanStyle,
}

/// A piece of a pane line over character sequences.
pub enum PieceV {
    /// Text as a span description gives it (a local time's text is not given).
    Span(SpanSpec),
    Stamp { raw: Seq<char>, lead: Seq<char>, trail: Seq<char>, style: SpanStyle },
    Size { bytes: Option<u64>, lead: Seq<char>, trail: Seq<char>, style: SpanStyle },
}

/// A pane line over character sequences.
pub struct LineV {
    pub pieces: Seq<PieceV>,
    pub style: SpanStyle,
}

/// A drawn piece agrees with its description.
pub open spec fn piece_fits(x: PaneSpan, p: PieceV) -> bool {
    match p {
        PieceV::Span(s) => x.style == s.style && (x.text matches PaneText::Text(t) && text_fits(t@, s)),
        PieceV::Stamp { raw, lead, trail, style } => x.style == style && (x.text matches PaneText::Stamp {
            raw: r,
            lead: l,
            trail: t,
        } && r@ == raw && l@ == lead && t@ == trail),
        PieceV::Size { bytes, lead, trail, style } => x.style == style && (x.text matches PaneText::Size {
            bytes: b,
            lead: l,
            trail: t,
        } && b == bytes && l@ == lead && t@ == trail),
    }
}

/// Drawn pieces agree with their descriptions, one for one.
pub open spec fn pieces_fit(xs: Seq<PaneSpan>, ps: Seq<PieceV>) -> bool {
    xs.len() == ps.len() && forall|i: int| 0 <= i < xs.len() ==> piece_fits(#[trigger] xs[i], ps[i])
}

/// A drawn line agrees with its description.
pub open spec fn line_fits(x: PaneLine, l: LineV) -> bool {
    x.style == l.style && pieces_fit(x.spans@, l.pieces)
}

/// Drawn lines agree with their descriptions, one for one.
pub open spec fn lines_fit(xs: Seq<PaneLine>, ls: Seq<LineV>) -> bool {
    xs.len() == ls.len() && forall|i: int| 0 <= i < xs.len() ==> line_fits(#[trigger] xs[i], ls[i])
}

/// Literal text in a style.
pub open spec fn tx(text: Seq<char>, style: SpanStyle) -> PieceV {
    PieceV::Span(piece(text, style))
}

/// A line of pieces in a style.
pub open spec fn ln(pieces: Seq<PieceV>, style: SpanStyle) -> LineV {
    LineV { pieces, style }
}

/// Bold text in a colour.
pub open spec fn bold_in(t: Tint) -> SpanStyle {
    SpanStyle { fg: Some(t), bold: true, ..plain() }
}

/// Underlined text in a colour.
pub open spec fn underlined_in(t: Tint) -> SpanStyle {
    SpanStyle { fg: Some(t), underlined: true, ..plain() }
}

/// The style of a selected message's header lines: a darker background.
pub open spec fn header_style(sel: bool) -> SpanStyle {
    if sel {
        SpanStyle { bg: Some(Tint::BgTertiary), ..plain() }
    } else {
        plain()
    }
}

/// The text in front of a message's lines: a marker when it is selected.
pub open spec fn sel_text(sel: bool) -> Seq<char> {
    if sel {
        "\u{25B6} "@
    } else {
        "  "@
    }
}

/// The piece in front of a message's lines.
pub open spec fn sel_prefix(sel: bool) -> PieceV {
    if sel {
        tx(sel_text(sel), fg_only(Tint::Accent))
    } else {
        tx(sel_text(sel), plain())
    }
}

/// The note that a message was edited.
pub open spec fn edited_piece() -> PieceV {
    tx("(edited) "@, SpanStyle { fg: Some(Tint::TextDim), italic: true, ..plain() })
}

/// A message's timestamp in brackets.
pub open spec fn stamp_piece(raw: Seq<char>) -> PieceV {
    PieceV::Stamp { raw, lead: "["@, trail: "] "@, style: fg_only(Tint::TextDim) }
}

/// A row of described spans as pieces.
pub open spec fn row_pieces(row: Seq<SpanSpec>) -> Seq<PieceV> {
    row.map_values(|s: SpanSpec| PieceV::Span(s))
}

/// A text row after `lead`: its spans, or a single space when it is empty.
pub open spec fn row_line(lead: Seq<PieceV>, row: Seq<SpanSpec>, style: SpanStyle) -> LineV {
    ln(lead + if row.len() == 0 { seq![tx(" "@, plain())] } else { row_pieces(row) }, style)
}

/// The lines of a formatted text (see `content_rows`), each after `lead`.
pub open spec fn text_block(a: &App, text: Seq<char>, lead: Seq<PieceV>, style: SpanStyle) -> Seq<LineV> {
    content_rows(a, text_lines(text), None).map_values(|row: Seq<SpanSpec>| row_line(lead, row, style))
}

/// What goes before a text row.
#[derive(Clone, Copy)]
pub enum Lead {
    /// Nothing.
    Bare,
    /// A system notice's box edge, after the selection marker.
    Boxed(bool),
    /// An embed's colour bar.
    Bar(Tint),
}

/// The pieces before a text row.
pub open spec fn lead_pieces(l: Lead) -> Seq<PieceV> {
    match l {
        Lead::Bare => Seq::empty(),
        Lead::Boxed(sel) => seq![sel_prefix(sel), tx("\u{2503} "@, fg_only(Tint::TextMuted))],
        Lead::Bar(t) => seq![tx("\u{2502} "@, fg_only(t))],
    }
}

/// The displayed width of a string in terminal columns, as `unicode-width` reports it.
pub uninterp spec fn str_columns(s: Seq<char>) -> usize;

/// The displayed width of a character, none for a control character, as `unicode-width` reports it.
pub uninterp spec fn char_columns(c: char) -> Option<usize>;

/// `UnicodeWidthStr::width`; its result is named by `str_columns`.
#[verifier::external_body]
fn str_width(s: &str) -> (r: usize)
    ensures
        r == str_columns(s@),
{
    unicode_width::UnicodeWidthStr::width(s)
}

/// `UnicodeWidthChar::width`; its result is named by `char_columns`.
#[verifier::external_body]
pub(crate) fn char_width(c: char) -> (r: Option<usize>)
    ensures
        r == char_columns(c),
{
    unicode_width::UnicodeWidthChar::width(c)
}

/// The columns a character takes when cutting text: at least one.
pub open spec fn cut_columns(c: char) -> int {
    match char_columns(c) {
        Some(w) => if w == 0 {
            1
        } else {
            w as int
        },
        None => 1,
    }
}

/// The characters of `s` from `i` on that fit after `w` columns are used,
/// out of `room` columns, with an ellipsis where the text is cut.
pub open spec fn cut_from(s: Seq<char>, room: int, i: int, w: int) -> Seq<char>
    decreases s.len() - i,
{
    if i >= s.len() || i < 0 {
        Seq::empty()
    } else if w + cut_columns(s[i]) > room {
        seq!['\u{2026}']
    } else {
        seq![s[i]] + cut_from(s, room, i + 1, w + cut_columns(s[i]))
    }
}

/// `s` cut to `max` columns: unchanged when it fits, else its first
/// characters that fit in one column less and an ellipsis.
pub open spec fn cut_to_width(s: Seq<char>, max: usize) -> Seq<char> {
    if max == 0 {
        Seq::empty()
    } else if str_columns(s) <= max {
        s
    } else {
        cut_from(s, max - 1, 0, 0)
    }
}

/// `new` is `old` with lines agreeing with `add` after it.
pub open spec fn extended(old: Seq<PaneLine>, new: Seq<PaneLine>, add: Seq<LineV>) -> bool {
    &&& new.len() == old.len() + add.len()
    &&& new.take(old.len() as int) == old
    &&& forall|i: int| 0 <= i < add.len() ==> line_fits(#[trigger] new[old.len() + i], add[i])
}

pub proof fn lemma_extended_trans(a: Seq<PaneLine>, b: Seq<PaneLine>, c: Seq<PaneLine>, x: Seq<LineV>, y: Seq<LineV>)
    requires
        extended(a, b, x),
        extended(b, c, y),
    ensures
        extended(a, c, x + y),
{
    assert(c.take(a.len() as int) =~= b.take(a.len() as int));
    assert forall|i: int| 0 <= i < (x + y).len() implies line_fits(#[trigger] c[a.len() + i], (x + y)[i]) by {
        if i < x.len() {
            assert(c[a.len() + i] == c.take(b.len() as int)[a.len() + i]);
            assert(b[a.len() + i] == c[a.len() + i]);
        } else {
            assert(c[b.len() + (i - x.len())] == c[a.len() + i]);
        }
    }
}

pub proof fn lemma_extended_nothing(a: Seq<PaneLine>)
    ensures
        extended(a, a, Seq::empty()),
{
    assert(a.take(a.len() as int) =~= a);
}

/// The instant a timestamp denotes (ns since the epoch), as `str::parse`
/// into `chrono::DateTime<Utc>` reads it.
pub open spec fn utc_instant(s: Seq<char>) -> Option<int> {
    match utc_parts(s) {
        Some((secs, ns)) => Some(secs * 1_000_000_000 + ns),
        None => None,
    }
}

/// The seconds since the epoch and the nanoseconds within the second that
/// `str::parse` into `chrono::DateTime<Utc>` reads from a timestamp.
pub uninterp spec fn utc_parts(s: Seq<char>) -> Option<(i64, u32)>;

/// `str::parse::<chrono::DateTime<chrono::Utc>>`, read as `timestamp()`
/// and `timestamp_subsec_nanos()`; the result is named by `utc_parts`.
#[verifier::external_body]
fn utc_seconds(s: &str) -> (r: Option<(i64, u32)>)
    ensures
        r == utc_parts(s@),
{
    match s.parse::<chrono::DateTime<chrono::Utc>>() {
        Ok(d) => Some((d.timestamp(), d.timestamp_subsec_nanos())),
        Err(_) => None,
    }
}

/// Two timestamps parse and lie less than five minutes apart.
pub open spec fn close_in_time(p: Seq<char>, c: Seq<char>) -> bool {
    match (utc_instant(p), utc_instant(c)) {
        (Some(x), Some(y)) => -300_000_000_000 < y - x < 300_000_000_000,
        _ => false,
    }
}

/// A notice the client itself shows, from its own bot account.
pub open spec fn is_notice(m: MessageResponse) -> bool {
    m.message_type == MESSAGE_TYPE_CLIENT_SYSTEM && m.author.id@ == "0"@
}

/// Message `i` continues the group of the one before: same author, no
/// reply or forward, and sent within five minutes of it.
pub open spec fn grouped(msgs: Seq<MessageResponse>, i: int) -> bool {
    let m = msgs[i];
    &&& i > 0
    &&& msgs[i - 1].author.id@ == m.author.id@
    &&& !(m.referenced_message is Some || m.message_reference is Some)
    &&& close_in_time(msgs[i - 1].timestamp@, m.timestamp@)
}

/// The empty line between message `i` and the one before, when it does
/// not continue that one's group.
pub open spec fn gap(msgs: Seq<MessageResponse>, i: int) -> Seq<LineV> {
    if i > 0 && (is_notice(msgs[i]) || !grouped(msgs, i)) {
        seq![ln(Seq::empty(), plain())]
    } else {
        Seq::empty()
    }
}

/// The columns a reply's context text may take on a pane `w` columns wide.
pub open spec fn reply_budget(sel: bool, w: u16) -> usize {
    let tw: int = if w == 0 { 1 } else { w as int };
    let b = tw - str_columns(sel_text(sel)) - str_columns("\u{21AA} "@);
    if b < 1 {
        1
    } else {
        b as usize
    }
}

/// The line above a reply or forward: an arrow and the context, cut to the pane.
pub open spec fn reply_context(sel: bool, w: u16, body: Seq<char>, style: SpanStyle) -> LineV {
    ln(
        seq![
            sel_prefix(sel),
            tx("\u{21AA} "@, fg_only(Tint::TextMuted)),
            tx(cut_to_width(body, reply_budget(sel, w)), style),
        ],
        header_style(sel),
    )
}

/// A message's header: its time, whether it was edited, and (unless it
/// continues a group) its author in the author's colour.
pub open spec fn header(sel: bool, m: MessageResponse, author: Option<(Seq<char>, crate::roster::NameColor)>) -> LineV {
    let head = seq![sel_prefix(sel), stamp_piece(m.timestamp@)] + if message_edited(m) {
        seq![edited_piece()]
    } else {
        Seq::empty()
    };
    ln(
        head + match author {
            Some((name, color)) => seq![tx(name, bold_in(Tint::Name(color)))],
            None => Seq::empty(),
        },
        header_style(sel),
    )
}

/// A message carries an edit time that is not blank.
pub open spec fn message_edited(m: MessageResponse) -> bool {
    m.edited_timestamp matches Some(s) && !is_blank(s@)
}

/// The header lines of message `i`: reply context and header for a reply or
/// a forward, nothing more for an unselected message that continues a
/// group, its time alone for a selected one, else the full header.
pub open spec fn header_lines(a: &App, msgs: Seq<MessageResponse>, i: int, w: u16) -> Seq<LineV> {
    let m = msgs[i];
    let sel = a.selected_message_index == Some(i as usize);
    let g = guild_of_channel(a, m.channel_id@);
    let author = shown_name(a, g, m.author);
    let color = name_color(a, g, m.author.id@, m.author.id@ == a.me.id@);
    match m.referenced_message {
        Some(r) => seq![
            reply_context(
                sel,
                w,
                "@"@ + shown_name(a, g, r.author) + " - "@ + reply_preview(*r),
                fg_only(Tint::TextDim),
            ),
            header(sel, m, Some((author, color))),
        ],
        None => match m.message_reference {
            Some(mr) => seq![
                if mr.reference_type == 1 {
                    reply_context(
                        sel,
                        w,
                        "Forwarded"@,
                        SpanStyle { fg: Some(Tint::TextMuted), italic: true, ..plain() },
                    )
                } else {
                    reply_context(sel, w, "(original message unavailable)"@, fg_only(Tint::TextDim))
                },
                header(sel, m, Some((author, color))),
            ],
            None => if grouped(msgs, i) {
                if sel {
                    seq![header(sel, m, None)]
                } else {
                    Seq::empty()
                }
            } else {
                seq![header(sel, m, Some((author, color)))]
            },
        },
    }
}

/// An attachment's line: clip, file name, type and size.
pub open spec fn attachment_line(x: MessageAttachmentResponse) -> LineV {
    let mime = match x.content_type {
        Some(c) => c@,
        None => "unknown"@,
    };
    ln(
        seq![
            tx("\u{1F4CE} "@, fg_only(Tint::AccentDim)),
            tx(x.filename@, underlined_in(Tint::Link)),
            PieceV::Size { bytes: x.size, lead: " ["@ + mime + " \u{00B7} "@, trail: "]"@, style: fg_only(Tint::TextDim) },
        ],
        plain(),
    )
}

/// An embed's colour bar: its colour, else the dim accent.
pub open spec fn bar_tint(c: Option<i64>) -> Tint {
    match c {
        Some(v) => Tint::Rgb(((v >> 16) & 0xFF) as u8, ((v >> 8) & 0xFF) as u8, (v & 0xFF) as u8),
        None => Tint::AccentDim,
    }
}

/// An embed has something to show beyond its link.
pub open spec fn has_content(e: MessageEmbedResponse) -> bool {
    e.title is Some || e.description is Some || e.author is Some || e.fields@.len() > 0
}

/// A title span restyled over the title's base style.
pub open spec fn over(base: SpanStyle, s: SpanSpec) -> PieceV {
    PieceV::Span(SpanSpec { style: patched_style(base, s.style), ..s })
}

/// The lines of an embed's fields: each name, then its formatted value.
pub open spec fn field_lines(a: &App, fs: Seq<EmbedFieldResponse>, bar: Tint) -> Seq<LineV>
    decreases fs.len(),
{
    if fs.len() == 0 {
        Seq::empty()
    } else {
        field_lines(a, fs.drop_last(), bar) + seq![
            ln(seq![tx("\u{2502} "@, fg_only(bar)), tx(fs.last().name@, bold_in(Tint::Text))], plain()),
        ] + text_block(a, fs.last().value@, lead_pieces(Lead::Bar(bar)), plain())
    }
}

/// The lines of an embed: for one with only a link, its label (marked
/// when it is a GIF); else its author, title, description, fields and
/// footer, each behind the colour bar.
pub open spec fn embed_lines(a: &App, e: MessageEmbedResponse) -> Seq<LineV> {
    let bar = bar_tint(e.color);
    let barp = tx("\u{2502} "@, fg_only(bar));
    if !has_content(e) {
        if embed_label(e).len() > 0 {
            seq![
                ln(
                    seq![barp] + (if embed_is_gif(e) {
                        seq![tx("[GIF] "@, bold_in(Tint::Accent))]
                    } else {
                        Seq::empty()
                    }) + seq![tx(embed_label(e), underlined_in(Tint::Link))],
                    plain(),
                ),
            ]
        } else {
            Seq::empty()
        }
    } else {
        let base = if e.url is Some {
            bold_in(Tint::Link)
        } else {
            bold_in(Tint::Text)
        };
        (match e.author {
            Some(au) => seq![ln(seq![barp, tx(au.name@, fg_only(Tint::TextDim))], plain())],
            None => Seq::empty(),
        }) + (match e.title {
            Some(t) => seq![
                ln(
                    seq![barp] + crate::markdown::msg_spans(a, t@).map_values(|s: SpanSpec| over(base, s)),
                    plain(),
                ),
            ],
            None => Seq::empty(),
        }) + (match e.description {
            Some(d) => text_block(a, d@, lead_pieces(Lead::Bar(bar)), plain()),
            None => Seq::empty(),
        }) + field_lines(a, e.fields@, bar) + (match e.footer {
            Some(f) => seq![ln(seq![barp, tx(f.text@, fg_only(Tint::TextMuted))], plain())],
            None => Seq::empty(),
        })
    }
}

/// The lines of a message's embeds, in order.
pub open spec fn embeds_lines(a: &App, es: Seq<MessageEmbedResponse>) -> Seq<LineV>
    decreases es.len(),
{
    if es.len() == 0 {
        Seq::empty()
    } else {
        embeds_lines(a, es.drop_last()) + embed_lines(a, es.last())
    }
}

/// A reaction's emoji as shown: a custom emoji by `:name:`.
pub open spec fn reaction_emoji(r: MessageReactionResponse) -> Seq<char> {
    if r.emoji.id is Some {
        ":"@ + r.emoji.name@ + ":"@
    } else {
        r.emoji.name@
    }
}

/// The pieces of a reaction row: each emoji and count (highlighted when
/// the user reacted), then a space.
pub open spec fn reaction_pieces(rs: Seq<MessageReactionResponse>) -> Seq<PieceV>
    decreases rs.len(),
{
    if rs.len() == 0 {
        Seq::empty()
    } else {
        let r = rs.last();
        reaction_pieces(rs.drop_last()) + seq![
            tx(
                " "@ + reaction_emoji(r) + " "@ + decimal(r.count as nat),
                if r.me {
                    bold_in(Tint::Accent)
                } else {
                    fg_only(Tint::TextDim)
                },
            ),
            tx(" "@, plain()),
        ]
    }
}

/// The lines of a notice from the client: a box with a title, the time,
/// the text, and a note that only the user sees it.
pub open spec fn notice_lines(a: &App, m: MessageResponse, sel: bool) -> Seq<LineV> {
    let h = header_style(sel);
    let sp = sel_prefix(sel);
    let muted = fg_only(Tint::TextMuted);
    let dim = fg_only(Tint::TextDim);
    seq![
        ln(
            seq![
                sp,
                tx("\u{256D}\u{2500} "@, muted),
                tx("Fluxerbot"@, bold_in(Tint::Text)),
                tx(" [SYSTEM]"@, fg_only(Tint::Accent)),
                PieceV::Stamp { raw: m.timestamp@, lead: "  \u{2014} "@, trail: ""@, style: dim },
            ],
            h,
        ),
        ln(seq![sp, tx("\u{2503}"@, muted)], h),
    ] + text_block(a, m.content@, lead_pieces(Lead::Boxed(sel)), h) + seq![
        ln(
            seq![
                sp,
                tx("\u{2503} "@, muted),
                tx("\u{1F441}\u{FE0F} "@, dim),
                tx("only you can see this message. "@, dim),
                tx("dismiss"@, underlined_in(Tint::Link)),
            ],
            h,
        ),
        ln(seq![sp, tx("\u{2570}\u{2500}"@, muted)], h),
    ]
}

/// The lines of message `i` (after its gap): a notice's box, or its
/// headers, text, attachments, embeds and reactions.
pub open spec fn message_block(a: &App, msgs: Seq<MessageResponse>, i: int, w: u16) -> Seq<LineV> {
    let m = msgs[i];
    let sel = a.selected_message_index == Some(i as usize);
    if is_notice(m) {
        notice_lines(a, m, sel)
    } else {
        header_lines(a, msgs, i, w) + (if !is_blank(m.content@) {
            text_block(a, m.content@, Seq::empty(), plain())
        } else {
            Seq::empty()
        }) + m.attachments@.map_values(|x: MessageAttachmentResponse| attachment_line(x)) + embeds_lines(
            a,
            m.embeds@,
        ) + if m.reactions@.len() > 0 {
            seq![ln(reaction_pieces(m.reactions@), plain())]
        } else {
            Seq::empty()
        }
    }
}

/// The pane's lines for the first `n` messages.
pub open spec fn pane_lines(a: &App, msgs: Seq<MessageResponse>, n: int, w: u16) -> Seq<LineV>
    decreases n,
{
    if n <= 0 {
        Seq::empty()
    } else {
        pane_lines(a, msgs, n - 1, w) + gap(msgs, n - 1) + message_block(a, msgs, n - 1, w)
    }
}

/// `s` cut to `max` columns; see `cut_to_width`.
pub fn truncate_to_display_width(s: &str, max_w: usize) -> (r: String)
    ensures
        r@ == cut_to_width(s@, max_w),
{
    if max_w == 0 {
        return String::new();
    }
    if str_width(s) <= max_w {
        return owned(s);
    }
    let cs = chars_of(s);
    let room = max_w - 1;
    let mut out: Vec<char> = Vec::new();
    let mut w: usize = 0;
    let mut i: usize = 0;
    while i < cs.len()
        invariant
            i <= cs@.len(),
            cs@ == s@,
            room == max_w - 1,
            max_w > 0,
            str_columns(s@) > max_w,
            w <= room,
            out@ + cut_from(s@, room as int, i as int, w as int) == cut_from(s@, room as int, 0, 0),
        decreases cs@.len() - i,
    {
        let cw: usize = match char_width(cs[i]) {
            Some(x) => if x == 0 {
                1
            } else {
                x
            },
            None => 1,
        };
        if cw > room - w {
            assert(cut_from(s@, room as int, i as int, w as int) == seq!['\u{2026}']);
            out.push('\u{2026}');
            assert(out@ =~= cut_from(s@, room as int, 0, 0));
            return string_of(out.as_slice());
        }
        assert(cut_from(s@, room as int, i as int, w as int) == seq![cs@[i as int]] + cut_from(
            s@,
            room as int,
            i + 1,
            w + cw,
        ));
        out.push(cs[i]);
        assert(out@ + cut_from(s@, room as int, i + 1, w + cw) =~= cut_from(s@, room as int, 0, 0));
        w = w + cw;
        i = i + 1;
    }
    assert(out@ =~= cut_from(s@, room as int, 0, 0));
    string_of(out.as_slice())
}

/// Literal text in a style.
fn text_span(text: &str, style: SpanStyle) -> (r: PaneSpan)
    ensures
        piece_fits(r, tx(text@, style)),
{
    PaneSpan { text: PaneText::Text(owned(text)), style }
}

/// Owned text in a style.
fn owned_span(text: String, style: SpanStyle) -> (r: PaneSpan)
    ensures
        piece_fits(r, tx(text@, style)),
{
    PaneSpan { text: PaneText::Text(text), style }
}

fn header_style_exec(sel: bool) -> (r: SpanStyle)
    ensures
        r == header_style(sel),
{
    if sel {
        SpanStyle { bg: Some(Tint::BgTertiary), ..plain_style() }
    } else {
        plain_style()
    }
}

/// The piece in front of a message's lines; see `sel_prefix`.
pub fn sel_prefix_span(is_selected: bool) -> (r: PaneSpan)
    ensures
        piece_fits(r, sel_prefix(is_selected)),
{
    if is_selected {
        text_span("\u{25B6} ", fg_style(Tint::Accent))
    } else {
        text_span("  ", plain_style())
    }
}

/// The columns the selection marker takes.
pub fn sel_prefix_cols(is_selected: bool) -> (r: usize)
    ensures
        r == str_columns(sel_text(is_selected)),
{
    if is_selected {
        str_width("\u{25B6} ")
    } else {
        str_width("  ")
    }
}

/// The note that a message was edited; see `edited_piece`.
pub fn edited_span() -> (r: PaneSpan)
    ensures
        piece_fits(r, edited_piece()),
{
    text_span("(edited) ", SpanStyle { fg: Some(Tint::TextDim), italic: true, ..plain_style() })
}

fn stamp_span(raw: &str) -> (r: PaneSpan)
    ensures
        piece_fits(r, stamp_piece(raw@)),
{
    PaneSpan {
        text: PaneText::Stamp { raw: owned(raw), lead: owned("["), trail: owned("] ") },
        style: fg_style(Tint::TextDim),
    }
}

/// The pieces before a text row; see `lead_pieces`.
fn lead_spans(l: Lead) -> (r: Vec<PaneSpan>)
    ensures
        pieces_fit(r@, lead_pieces(l)),
{
    let mut v: Vec<PaneSpan> = Vec::new();
    match l {
        Lead::Bare => {},
        Lead::Boxed(sel) => {
            v.push(sel_prefix_span(sel));
            v.push(text_span("\u{2503} ", fg_style(Tint::TextMuted)));
        },
        Lead::Bar(t) => {
            v.push(text_span("\u{2502} ", fg_style(t)));
        },
    }
    v
}

/// Appends described spans as pieces.
fn push_styled(v: &mut Vec<PaneSpan>, row: Vec<StyledSpan>, Ghost(d): Ghost<Seq<SpanSpec>>)
    requires
        crate::markdown::spans_match(row@, d),
    ensures
        final(v)@.len() == old(v)@.len() + d.len(),
        final(v)@.take(old(v)@.len() as int) == old(v)@,
        forall|i: int| 0 <= i < d.len() ==> piece_fits(#[trigger] final(v)@[old(v)@.len() + i], PieceV::Span(d[i])),
{
    let ghost v0 = v@;
    let ghost r0 = row@;
    let mut row = row;
    let n0 = row.len();
    let mut j: usize = 0;
    while row.len() > 0
        invariant
            j <= r0.len(),
            r0.len() == n0,
            r0.len() == d.len(),
            row@ == r0.skip(j as int),
            v@.len() == v0.len() + j,
            v@.take(v0.len() as int) == v0,
            forall|q: int| 0 <= q < j ==> piece_fits(#[trigger] v@[v0.len() + q], PieceV::Span(d[q])),
            crate::markdown::spans_match(r0, d),
        decreases row@.len(),
    {
        let s = row.remove(0);
        assert(s == r0[j as int]);
        assert(crate::markdown::span_ok(r0[0 + j], d[j as int]));
        let ghost before = v@;
        v.push(PaneSpan { text: PaneText::Text(s.text), style: s.style });
        assert(v@.take(v0.len() as int) =~= before.take(v0.len() as int));
        assert(row@ =~= r0.skip(j + 1));
        j = j + 1;
    }
}

pub proof fn lemma_pieces_push(v: Seq<PaneSpan>, ps: Seq<PieceV>, x: PaneSpan, p: PieceV)
    requires
        pieces_fit(v, ps),
        piece_fits(x, p),
    ensures
        pieces_fit(v.push(x), ps.push(p)),
{
    assert forall|i: int| 0 <= i < v.push(x).len() implies piece_fits(#[trigger] v.push(x)[i], ps.push(p)[i]) by {
        if i < v.len() {
            assert(v.push(x)[i] == v[i]);
        }
    }
}

pub proof fn lemma_extended_push(a: Seq<PaneLine>, b: Seq<PaneLine>, x: Seq<LineV>, l: PaneLine, lv: LineV)
    requires
        extended(a, b, x),
        line_fits(l, lv),
    ensures
        extended(a, b.push(l), x.push(lv)),
{
    assert(b.push(l).take(a.len() as int) =~= b.take(a.len() as int));
    assert forall|i: int| 0 <= i < x.push(lv).len() implies line_fits(#[trigger] b.push(l)[a.len() + i], x.push(lv)[i]) by {
        if i < x.len() {
            assert(b.push(l)[a.len() + i] == b[a.len() + i]);
        }
    }
}

pub proof fn lemma_extended_all(b: Seq<PaneLine>, x: Seq<LineV>)
    requires
        extended(Seq::empty(), b, x),
    ensures
        lines_fit(b, x),
{
    assert forall|i: int| 0 <= i < b.len() implies line_fits(#[trigger] b[i], x[i]) by {
        assert(b[0 + i] == b[i]);
    }
}

/// Appends a line agreeing with `lv`.
fn push_line(out: &mut Vec<PaneLine>, l: PaneLine, Ghost(lv): Ghost<LineV>)
    requires
        line_fits(l, lv),
    ensures
        extended(old(out)@, final(out)@, seq![lv]),
{
    let ghost o = out@;
    out.push(l);
    proof {
        lemma_extended_nothing(o);
        lemma_extended_push(o, o, Seq::empty(), l, lv);
        assert(Seq::<LineV>::empty().push(lv) =~= seq![lv]);
    }
}

/// Appends the lines of a formatted text, each after `lead`; see `text_block`.
fn push_text_block(out: &mut Vec<PaneLine>, app: &App, text: &str, lead: Lead, style: SpanStyle)
    ensures
        extended(old(out)@, final(out)@, text_block(app, text@, lead_pieces(lead), style)),
{
    let rows = content_lines(text, app);
    let ghost d = content_rows(app, text_lines(text@), None);
    let ghost f = |row: Seq<SpanSpec>| row_line(lead_pieces(lead), row, style);
    let ghost o = out@;
    let ghost r0 = rows@;
    let n0 = rows.len();
    let mut rows = rows;
    let mut k: usize = 0;
    proof {
        lemma_extended_nothing(o);
        assert(d.take(0).map_values(f) =~= Seq::<LineV>::empty());
    }
    while rows.len() > 0
        invariant
            k <= r0.len(),
            r0.len() == n0,
            r0.len() == d.len(),
            crate::markup_lines::rows_match(r0, d),
            rows@ == r0.skip(k as int),
            f == (|row: Seq<SpanSpec>| row_line(lead_pieces(lead), row, style)),
            extended(o, out@, d.take(k as int).map_values(f)),
        decreases rows@.len(),
    {
        let row = rows.remove(0);
        assert(row == r0[k as int]);
        let ghost dk = d[k as int];
        assert(crate::markdown::spans_match(r0[k as int]@, dk));
        let mut spans = lead_spans(lead);
        let ghost lp = lead_pieces(lead);
        let ghost pv: Seq<PieceV> = if dk.len() == 0 {
            seq![tx(" "@, plain())]
        } else {
            row_pieces(dk)
        };
        if row.len() == 0 {
            assert(dk.len() == 0);
            let ghost s0 = spans@;
            let sp = text_span(" ", plain_style());
            spans.push(sp);
            proof {
                lemma_pieces_push(s0, lp, sp, tx(" "@, plain()));
                assert(lp.push(tx(" "@, plain())) =~= lp + pv);
            }
        } else {
            let ghost s0 = spans@;
            push_styled(&mut spans, row, Ghost(dk));
            proof {
                assert forall|i: int| 0 <= i < spans@.len() implies piece_fits(#[trigger] spans@[i], (lp + pv)[i]) by {
                    if i < s0.len() {
                        assert(spans@[i] == spans@.take(s0.len() as int)[i]);
                    } else {
                        assert(spans@[s0.len() + (i - s0.len())] == spans@[i]);
                    }
                }
            }
        }
        let ghost lv = row_line(lp, dk, style);
        let l = PaneLine { spans, style };
        let ghost before = out@;
        out.push(l);
        proof {
            lemma_extended_push(o, before, d.take(k as int).map_values(f), l, lv);
            assert(d.take(k + 1).map_values(f) =~= d.take(k as int).map_values(f).push(lv));
        }
        assert(rows@ =~= r0.skip(k + 1));
        k = k + 1;
    }
    proof {
        assert(d.take(k as int) =~= d);
    }
}

/// The line above a reply or forward; see `reply_context`.
pub fn reply_context_line(is_selected_msg: bool, text_w: u16, body: &str, body_style: SpanStyle) -> (r: PaneLine)
    ensures
        line_fits(r, reply_context(is_selected_msg, text_w, body@, body_style)),
{
    let tw: usize = if text_w == 0 {
        1
    } else {
        text_w as usize
    };
    let prefix_cols = sel_prefix_cols(is_selected_msg);
    let lead_w = str_width("\u{21AA} ");
    let a1: usize = if tw >= prefix_cols {
        tw - prefix_cols
    } else {
        0
    };
    let a2: usize = if a1 >= lead_w {
        a1 - lead_w
    } else {
        0
    };
    let budget: usize = if a2 < 1 {
        1
    } else {
        a2
    };
    assert(budget == reply_budget(is_selected_msg, text_w));
    let truncated = truncate_to_display_width(body, budget);
    let mut spans: Vec<PaneSpan> = Vec::new();
    spans.push(sel_prefix_span(is_selected_msg));
    spans.push(text_span("\u{21AA} ", fg_style(Tint::TextMuted)));
    spans.push(owned_span(truncated, body_style));
    let r = PaneLine { spans, style: header_style_exec(is_selected_msg) };
    assert(pieces_fit(r.spans@, reply_context(is_selected_msg, text_w, body@, body_style).pieces));
    r
}

/// A message's header line; see `header`.
fn header_line(sel: bool, m: &MessageResponse, author: Option<(String, crate::roster::NameColor)>) -> (r: PaneLine)
    ensures
        line_fits(
            r,
            header(
                sel,
                *m,
                match author {
                    Some((n, c)) => Some((n@, c)),
                    None => None,
                },
            ),
        ),
{
    let ghost av: Option<(Seq<char>, crate::roster::NameColor)> = if author is Some {
        let pair = author->0;
        Some((pair.0@, pair.1))
    } else {
        None
    };
    let ghost hv = header(sel, *m, av);
    let mut spans: Vec<PaneSpan> = Vec::new();
    spans.push(sel_prefix_span(sel));
    spans.push(stamp_span(m.timestamp.as_str()));
    let ghost mut ps: Seq<PieceV> = seq![sel_prefix(sel), stamp_piece(m.timestamp@)];
    assert(pieces_fit(spans@, ps));
    if message_was_edited(m) {
        let ghost s0 = spans@;
        let e = edited_span();
        spans.push(e);
        proof {
            lemma_pieces_push(s0, ps, e, edited_piece());
            ps = ps.push(edited_piece());
        }
    }
    if let Some((name, color)) = author {
        let ghost s0 = spans@;
        let ghost nv = name@;
        let e = owned_span(name, SpanStyle { fg: Some(Tint::Name(color)), bold: true, ..plain_style() });
        spans.push(e);
        proof {
            lemma_pieces_push(s0, ps, e, tx(nv, bold_in(Tint::Name(color))));
            ps = ps.push(tx(nv, bold_in(Tint::Name(color))));
        }
    }
    proof {
        assert(ps =~= hv.pieces);
    }
    PaneLine { spans, style: header_style_exec(sel) }
}

/// Whether message `i` continues the group of the one before; see `grouped`.
fn is_grouped(msgs: &Vec<MessageResponse>, i: usize) -> (r: bool)
    requires
        i < msgs@.len(),
    ensures
        r == grouped(msgs@, i as int),
{
    if i == 0 {
        return false;
    }
    let m = &msgs[i];
    let p = &msgs[i - 1];
    if !crate::text::str_eq(p.author.id.as_str(), m.author.id.as_str()) {
        return false;
    }
    if m.referenced_message.is_some() || m.message_reference.is_some() {
        return false;
    }
    match (utc_seconds(p.timestamp.as_str()), utc_seconds(m.timestamp.as_str())) {
        (Some((ps, pn)), Some((cs, cn))) => {
            let d: i128 = (cs as i128 - ps as i128) * 1_000_000_000 + (cn as i128 - pn as i128);
            assert(d == (cs * 1_000_000_000 + cn) - (ps * 1_000_000_000 + pn)) by (nonlinear_arith)
                requires
                    d == (cs - ps) * 1_000_000_000 + (cn - pn),
            ;
            -300_000_000_000 < d && d < 300_000_000_000
        },
        _ => false,
    }
}

/// Appends the header lines of message `i`; see `header_lines`.
fn push_header_lines(out: &mut Vec<PaneLine>, app: &App, msgs: &Vec<MessageResponse>, i: usize, text_w: u16)
    requires
        i < msgs@.len(),
    ensures
        extended(old(out)@, final(out)@, header_lines(app, msgs@, i as int, text_w)),
{
    let m = &msgs[i];
    let sel = match app.selected_message_index {
        Some(k) => k == i,
        None => false,
    };
    let gid = app.guild_id_for_channel(m.channel_id.as_str());
    let gref: Option<&str> = match &gid {
        Some(g) => Some(g.as_str()),
        None => None,
    };
    let ghost g = guild_of_channel(app, m.channel_id@);
    assert(opt_ref_view(gref) == g);
    let author = app.shown_name_for_user(gref, &m.author);
    let is_self = crate::text::str_eq(m.author.id.as_str(), app.me.id.as_str());
    let color = app.member_name_color(gref, m.author.id.as_str(), is_self);
    let ghost o = out@;
    if let Some(r) = &m.referenced_message {
        let ref_author = app.shown_name_for_user(gref, &r.author);
        let preview = referenced_body_preview(r);
        let body = concat(concat(concat("@", ref_author.as_str()).as_str(), " - ").as_str(), preview.as_str());
        let l1 = reply_context_line(sel, text_w, body.as_str(), fg_style(Tint::TextDim));
        let ghost l1v = reply_context(sel, text_w, body@, fg_only(Tint::TextDim));
        push_line(out, l1, Ghost(l1v));
        let ghost o1 = out@;
        let ghost av = author@;
        let l2 = header_line(sel, m, Some((author, color)));
        push_line(out, l2, Ghost(header(sel, *m, Some((av, color)))));
        proof {
            lemma_extended_trans(o, o1, out@, seq![l1v], seq![header(sel, *m, Some((av, color)))]);
            assert(seq![l1v] + seq![header(sel, *m, Some((av, color)))] =~= header_lines(app, msgs@, i as int, text_w));
        }
        return ;
    }
    if let Some(mr) = &m.message_reference {
        let l1 = if mr.reference_type == 1 {
            reply_context_line(sel, text_w, "Forwarded", SpanStyle { fg: Some(Tint::TextMuted), italic: true, ..plain_style() })
        } else {
            reply_context_line(sel, text_w, "(original message unavailable)", fg_style(Tint::TextDim))
        };
        let ghost l1v = header_lines(app, msgs@, i as int, text_w)[0];
        push_line(out, l1, Ghost(l1v));
        let ghost o1 = out@;
        let ghost av = author@;
        let l2 = header_line(sel, m, Some((author, color)));
        push_line(out, l2, Ghost(header(sel, *m, Some((av, color)))));
        proof {
            lemma_extended_trans(o, o1, out@, seq![l1v], seq![header(sel, *m, Some((av, color)))]);
            assert(seq![l1v] + seq![header(sel, *m, Some((av, color)))] =~= header_lines(app, msgs@, i as int, text_w));
        }
        return ;
    }
    if is_grouped(msgs, i) {
        if sel {
            let l = header_line(sel, m, None);
            push_line(out, l, Ghost(header(sel, *m, None)));
        } else {
            proof {
                lemma_extended_nothing(o);
            }
        }
        return ;
    }
    let ghost av = author@;
    let l = header_line(sel, m, Some((author, color)));
    push_line(out, l, Ghost(header(sel, *m, Some((av, color)))));
}

/// An attachment's line; see `attachment_line`.
pub fn attachment_line_exec(x: &MessageAttachmentResponse) -> (r: PaneLine)
    ensures
        line_fits(r, attachment_line(*x)),
{
    let mime = match &x.content_type {
        Some(c) => owned(c.as_str()),
        None => owned("unknown"),
    };
    let lead = concat(concat(" [", mime.as_str()).as_str(), " \u{00B7} ");
    let mut spans: Vec<PaneSpan> = Vec::new();
    spans.push(text_span("\u{1F4CE} ", fg_style(Tint::AccentDim)));
    spans.push(text_span(x.filename.as_str(), SpanStyle { fg: Some(Tint::Link), underlined: true, ..plain_style() }));
    spans.push(PaneSpan { text: PaneText::Size { bytes: x.size, lead, trail: owned("]") }, style: fg_style(Tint::TextDim) });
    let r = PaneLine { spans, style: plain_style() };
    assert(pieces_fit(r.spans@, attachment_line(*x).pieces));
    r
}

/// An embed's colour bar; see `bar_tint`.
fn bar_tint_exec(c: Option<i64>) -> (r: Tint)
    ensures
        r == bar_tint(c),
{
    match c {
        Some(v) => Tint::Rgb(((v >> 16) & 0xFF) as u8, ((v >> 8) & 0xFF) as u8, (v & 0xFF) as u8),
        None => Tint::AccentDim,
    }
}

/// Appends described spans as pieces restyled over `base`.
fn push_over(v: &mut Vec<PaneSpan>, row: Vec<StyledSpan>, base: SpanStyle, Ghost(d): Ghost<Seq<SpanSpec>>)
    requires
        crate::markdown::spans_match(row@, d),
    ensures
        final(v)@.len() == old(v)@.len() + d.len(),
        final(v)@.take(old(v)@.len() as int) == old(v)@,
        forall|i: int| 0 <= i < d.len() ==> piece_fits(#[trigger] final(v)@[old(v)@.len() + i], over(base, d[i])),
{
    let ghost v0 = v@;
    let ghost r0 = row@;
    let mut row = row;
    let n0 = row.len();
    let mut j: usize = 0;
    while row.len() > 0
        invariant
            j <= r0.len(),
            r0.len() == n0,
            r0.len() == d.len(),
            row@ == r0.skip(j as int),
            v@.len() == v0.len() + j,
            v@.take(v0.len() as int) == v0,
            forall|q: int| 0 <= q < j ==> piece_fits(#[trigger] v@[v0.len() + q], over(base, d[q])),
            crate::markdown::spans_match(r0, d),
        decreases row@.len(),
    {
        let s = row.remove(0);
        assert(s == r0[j as int]);
        assert(crate::markdown::span_ok(r0[0 + j], d[j as int]));
        let ghost before = v@;
        let st = crate::markup_lines::patch_style(base, s.style);
        v.push(PaneSpan { text: PaneText::Text(s.text), style: st });
        assert(v@.take(v0.len() as int) =~= before.take(v0.len() as int));
        assert(row@ =~= r0.skip(j + 1));
        j = j + 1;
    }
}

/// Two pieces then text in a style, as a line.
fn pair_line(a: PaneSpan, text: &str, style: SpanStyle, Ghost(pa): Ghost<PieceV>) -> (r: PaneLine)
    requires
        piece_fits(a, pa),
    ensures
        line_fits(r, ln(seq![pa, tx(text@, style)], plain())),
{
    let mut spans: Vec<PaneSpan> = Vec::new();
    spans.push(a);
    spans.push(text_span(text, style));
    PaneLine { spans, style: plain_style() }
}

/// Appends the lines of an embed; see `embed_lines`.
fn push_embed(out: &mut Vec<PaneLine>, app: &App, e: &MessageEmbedResponse)
    ensures
        extended(old(out)@, final(out)@, embed_lines(app, *e)),
{
    let ghost o = out@;
    let ghost want = embed_lines(app, *e);
    let bar = bar_tint_exec(e.color);
    let ghost barp = tx("\u{2502} "@, fg_only(bar));
    let rich = e.title.is_some() || e.description.is_some() || e.author.is_some() || e.fields.len() > 0;
    if !rich {
        let (label, gif) = embed_display_label(e);
        if chars_of(label.as_str()).len() > 0 {
            let mut spans: Vec<PaneSpan> = Vec::new();
            spans.push(text_span("\u{2502} ", fg_style(bar)));
            if gif {
                spans.push(text_span("[GIF] ", SpanStyle { fg: Some(Tint::Accent), bold: true, ..plain_style() }));
            }
            spans.push(owned_span(label, SpanStyle { fg: Some(Tint::Link), underlined: true, ..plain_style() }));
            let l = PaneLine { spans, style: plain_style() };
            assert(pieces_fit(l.spans@, want[0].pieces));
            push_line(out, l, Ghost(want[0]));
            assert(seq![want[0]] =~= want);
        } else {
            proof {
                lemma_extended_nothing(o);
            }
        }
        return ;
    }
    let base = if e.url.is_some() {
        SpanStyle { fg: Some(Tint::Link), bold: true, ..plain_style() }
    } else {
        SpanStyle { fg: Some(Tint::Text), bold: true, ..plain_style() }
    };
    let ghost pa: Seq<LineV> = match &e.author {
        Some(au) => seq![ln(seq![barp, tx(au.name@, fg_only(Tint::TextDim))], plain())],
        None => Seq::empty(),
    };
    if let Some(au) = &e.author {
        let l = pair_line(text_span("\u{2502} ", fg_style(bar)), au.name.as_str(), fg_style(Tint::TextDim), Ghost(barp));
        push_line(out, l, Ghost(pa[0]));
        assert(seq![pa[0]] =~= pa);
    } else {
        proof {
            lemma_extended_nothing(o);
        }
    }
    let ghost o1 = out@;
    let ghost pt: Seq<LineV> = match &e.title {
        Some(t) => seq![
            ln(seq![barp] + crate::markdown::msg_spans(app, t@).map_values(|s: SpanSpec| over(base, s)), plain()),
        ],
        None => Seq::empty(),
    };
    if let Some(t) = &e.title {
        let ghost d = crate::markdown::msg_spans(app, t@);
        let row = parse_message_spans(t.as_str(), app);
        let mut spans: Vec<PaneSpan> = Vec::new();
        spans.push(text_span("\u{2502} ", fg_style(bar)));
        let ghost s0 = spans@;
        push_over(&mut spans, row, base, Ghost(d));
        let ghost ps = seq![barp] + d.map_values(|s: SpanSpec| over(base, s));
        proof {
            assert forall|i: int| 0 <= i < spans@.len() implies piece_fits(#[trigger] spans@[i], ps[i]) by {
                if i < 1 {
                    assert(spans@[i] == spans@.take(1)[i]);
                } else {
                    assert(spans@[1 + (i - 1)] == spans@[i]);
                }
            }
        }
        let l = PaneLine { spans, style: plain_style() };
        push_line(out, l, Ghost(pt[0]));
        assert(seq![pt[0]] =~= pt);
    } else {
        proof {
            lemma_extended_nothing(o1);
        }
    }
    let ghost o2 = out@;
    let ghost pd: Seq<LineV> = match &e.description {
        Some(d) => text_block(app, d@, lead_pieces(Lead::Bar(bar)), plain()),
        None => Seq::empty(),
    };
    if let Some(d) = &e.description {
        push_text_block(out, app, d.as_str(), Lead::Bar(bar), plain_style());
    } else {
        proof {
            lemma_extended_nothing(o2);
        }
    }
    let ghost o3 = out@;
    let ghost fs = e.fields@;
    let mut k: usize = 0;
    proof {
        lemma_extended_nothing(o3);
        assert(fs.take(0) =~= Seq::<EmbedFieldResponse>::empty());
    }
    while k < e.fields.len()
        invariant
            k <= fs.len(),
            fs == e.fields@,
            barp == tx("\u{2502} "@, fg_only(bar)),
            extended(o3, out@, field_lines(app, fs.take(k as int), bar)),
        decreases fs.len() - k,
    {
        let f = &e.fields[k];
        let ghost before = out@;
        let l = pair_line(text_span("\u{2502} ", fg_style(bar)), f.name.as_str(), SpanStyle { fg: Some(Tint::Text), bold: true, ..plain_style() }, Ghost(barp));
        let ghost lv = ln(seq![barp, tx(f.name@, bold_in(Tint::Text))], plain());
        push_line(out, l, Ghost(lv));
        let ghost mid = out@;
        push_text_block(out, app, f.value.as_str(), Lead::Bar(bar), plain_style());
        proof {
            lemma_extended_trans(before, mid, out@, seq![lv], text_block(app, f.value@, lead_pieces(Lead::Bar(bar)), plain()));
            lemma_extended_trans(o3, before, out@, field_lines(app, fs.take(k as int), bar), seq![lv] + text_block(app, f.value@, lead_pieces(Lead::Bar(bar)), plain()));
            assert(fs.take(k + 1).drop_last() =~= fs.take(k as int));
            assert(fs.take(k + 1).last() == *f);
            assert(field_lines(app, fs.take(k as int), bar) + (seq![lv] + text_block(app, f.value@, lead_pieces(Lead::Bar(bar)), plain()))
                =~= field_lines(app, fs.take(k + 1), bar));
        }
        k = k + 1;
    }
    assert(fs.take(k as int) =~= fs);
    let ghost o4 = out@;
    let ghost pf: Seq<LineV> = match &e.footer {
        Some(f) => seq![ln(seq![barp, tx(f.text@, fg_only(Tint::TextMuted))], plain())],
        None => Seq::empty(),
    };
    if let Some(f) = &e.footer {
        let l = pair_line(text_span("\u{2502} ", fg_style(bar)), f.text.as_str(), fg_style(Tint::TextMuted), Ghost(barp));
        push_line(out, l, Ghost(pf[0]));
        assert(seq![pf[0]] =~= pf);
    } else {
        proof {
            lemma_extended_nothing(o4);
        }
    }
    proof {
        lemma_extended_trans(o, o1, o2, pa, pt);
        lemma_extended_trans(o, o2, o3, pa + pt, pd);
        lemma_extended_trans(o, o3, o4, pa + pt + pd, field_lines(app, fs, bar));
        lemma_extended_trans(o, o4, out@, pa + pt + pd + field_lines(app, fs, bar), pf);
        assert(pa + pt + pd + field_lines(app, fs, bar) + pf =~= want);
    }
}

/// The row of a message's reactions; see `reaction_pieces`.
fn reaction_line(rs: &Vec<MessageReactionResponse>) -> (r: PaneLine)
    ensures
        line_fits(r, ln(reaction_pieces(rs@), plain())),
{
    let mut spans: Vec<PaneSpan> = Vec::new();
    let mut k: usize = 0;
    assert(rs@.take(0) =~= Seq::<MessageReactionResponse>::empty());
    while k < rs.len()
        invariant
            k <= rs@.len(),
            pieces_fit(spans@, reaction_pieces(rs@.take(k as int))),
        decreases rs@.len() - k,
    {
        let r = &rs[k];
        let emoji = if r.emoji.id.is_some() {
            concat(concat(":", r.emoji.name.as_str()).as_str(), ":")
        } else {
            owned(r.emoji.name.as_str())
        };
        let count = u128_to_decimal(r.count as u128);
        let text = concat(concat(concat(" ", emoji.as_str()).as_str(), " ").as_str(), count.as_str());
        let style = if r.me {
            SpanStyle { fg: Some(Tint::Accent), bold: true, ..plain_style() }
        } else {
            fg_style(Tint::TextDim)
        };
        let ghost p1 = tx(text@, style);
        let ghost p2 = tx(" "@, plain());
        let ghost s0 = spans@;
        let x1 = owned_span(text, style);
        let ghost g1 = x1;
        spans.push(x1);
        let x2 = text_span(" ", plain_style());
        let ghost g2 = x2;
        spans.push(x2);
        proof {
            lemma_pieces_push(s0, reaction_pieces(rs@.take(k as int)), g1, p1);
            lemma_pieces_push(s0.push(g1), reaction_pieces(rs@.take(k as int)).push(p1), g2, p2);
            assert(rs@.take(k + 1).drop_last() =~= rs@.take(k as int));
            assert(rs@.take(k + 1).last() == *r);
            assert(reaction_pieces(rs@.take(k as int)).push(p1).push(p2) =~= reaction_pieces(rs@.take(k + 1)));
        }
        k = k + 1;
    }
    assert(rs@.take(k as int) =~= rs@);
    PaneLine { spans, style: plain_style() }
}

/// A line of the given pieces.
fn line_of(spans: Vec<PaneSpan>, style: SpanStyle, Ghost(ps): Ghost<Seq<PieceV>>) -> (r: PaneLine)
    requires
        pieces_fit(spans@, ps),
    ensures
        line_fits(r, ln(ps, style)),
{
    PaneLine { spans, style }
}

/// Appends the lines of a notice from the client; see `notice_lines`.
fn push_notice(out: &mut Vec<PaneLine>, app: &App, m: &MessageResponse, sel: bool)
    ensures
        extended(old(out)@, final(out)@, notice_lines(app, *m, sel)),
{
    let ghost want = notice_lines(app, *m, sel);
    let ghost o = out@;
    let h = header_style_exec(sel);
    let muted = fg_style(Tint::TextMuted);
    let dim = fg_style(Tint::TextDim);
    let mut v1: Vec<PaneSpan> = Vec::new();
    v1.push(sel_prefix_span(sel));
    v1.push(text_span("\u{256D}\u{2500} ", muted));
    v1.push(text_span("Fluxerbot", SpanStyle { fg: Some(Tint::Text), bold: true, ..plain_style() }));
    v1.push(text_span(" [SYSTEM]", fg_style(Tint::Accent)));
    v1.push(PaneSpan {
        text: PaneText::Stamp { raw: owned(m.timestamp.as_str()), lead: owned("  \u{2014} "), trail: owned("") },
        style: dim,
    });
    assert(pieces_fit(v1@, want[0].pieces));
    push_line(out, line_of(v1, h, Ghost(want[0].pieces)), Ghost(want[0]));
    let mut v2: Vec<PaneSpan> = Vec::new();
    v2.push(sel_prefix_span(sel));
    v2.push(text_span("\u{2503}", muted));
    assert(pieces_fit(v2@, want[1].pieces));
    let ghost o1 = out@;
    push_line(out, line_of(v2, h, Ghost(want[1].pieces)), Ghost(want[1]));
    let ghost o2 = out@;
    push_text_block(out, app, m.content.as_str(), Lead::Boxed(sel), h);
    let ghost o3 = out@;
    let ghost tb = text_block(app, m.content@, lead_pieces(Lead::Boxed(sel)), header_style(sel));
    let ghost n: int = tb.len() as int;
    let mut v3: Vec<PaneSpan> = Vec::new();
    v3.push(sel_prefix_span(sel));
    v3.push(text_span("\u{2503} ", muted));
    v3.push(text_span("\u{1F441}\u{FE0F} ", dim));
    v3.push(text_span("only you can see this message. ", dim));
    v3.push(text_span("dismiss", SpanStyle { fg: Some(Tint::Link), underlined: true, ..plain_style() }));
    assert(pieces_fit(v3@, want[2 + n].pieces));
    push_line(out, line_of(v3, h, Ghost(want[2 + n].pieces)), Ghost(want[2 + n]));
    let ghost o4 = out@;
    let mut v4: Vec<PaneSpan> = Vec::new();
    v4.push(sel_prefix_span(sel));
    v4.push(text_span("\u{2570}\u{2500}", muted));
    assert(pieces_fit(v4@, want[3 + n].pieces));
    push_line(out, line_of(v4, h, Ghost(want[3 + n].pieces)), Ghost(want[3 + n]));
    proof {
        lemma_extended_trans(o, o1, o2, seq![want[0]], seq![want[1]]);
        lemma_extended_trans(o, o2, o3, seq![want[0]] + seq![want[1]], tb);
        lemma_extended_trans(o, o3, o4, seq![want[0]] + seq![want[1]] + tb, seq![want[2 + n]]);
        lemma_extended_trans(o, o4, out@, seq![want[0]] + seq![want[1]] + tb + seq![want[2 + n]], seq![want[3 + n]]);
        assert(seq![want[0]] + seq![want[1]] + tb + seq![want[2 + n]] + seq![want[3 + n]] =~= want);
    }
}

/// Appends the lines of message `i`; see `message_block`.
fn push_message_block(out: &mut Vec<PaneLine>, app: &App, msgs: &Vec<MessageResponse>, i: usize, text_w: u16)
    requires
        i < msgs@.len(),
    ensures
        extended(old(out)@, final(out)@, message_block(app, msgs@, i as int, text_w)),
{
    let m = &msgs[i];
    let sel = match app.selected_message_index {
        Some(k) => k == i,
        None => false,
    };
    let ghost o = out@;
    if m.message_type == MESSAGE_TYPE_CLIENT_SYSTEM && crate::text::str_eq(m.author.id.as_str(), "0") {
        push_notice(out, app, m, sel);
        return ;
    }
    push_header_lines(out, app, msgs, i, text_w);
    let ghost o1 = out@;
    let ghost pc: Seq<LineV> = if !is_blank(m.content@) {
        text_block(app, m.content@, Seq::empty(), plain())
    } else {
        Seq::empty()
    };
    if !crate::text::blank(m.content.as_str()) {
        push_text_block(out, app, m.content.as_str(), Lead::Bare, plain_style());
        assert(lead_pieces(Lead::Bare) =~= Seq::<PieceV>::empty());
    } else {
        proof {
            lemma_extended_nothing(o1);
        }
    }
    let ghost o2 = out@;
    let ghost atts = m.attachments@;
    let ghost af = |x: MessageAttachmentResponse| attachment_line(x);
    let mut k: usize = 0;
    proof {
        lemma_extended_nothing(o2);
        assert(atts.take(0).map_values(af) =~= Seq::<LineV>::empty());
    }
    while k < m.attachments.len()
        invariant
            k <= atts.len(),
            atts == m.attachments@,
            af == (|x: MessageAttachmentResponse| attachment_line(x)),
            extended(o2, out@, atts.take(k as int).map_values(af)),
        decreases atts.len() - k,
    {
        let ghost before = out@;
        let l = attachment_line_exec(&m.attachments[k]);
        let ghost lv = attachment_line(atts[k as int]);
        out.push(l);
        proof {
            lemma_extended_push(o2, before, atts.take(k as int).map_values(af), l, lv);
            assert(atts.take(k + 1).map_values(af) =~= atts.take(k as int).map_values(af).push(lv));
        }
        k = k + 1;
    }
    assert(atts.take(k as int) =~= atts);
    let ghost o3 = out@;
    let ghost es = m.embeds@;
    let mut j: usize = 0;
    proof {
        lemma_extended_nothing(o3);
        assert(es.take(0) =~= Seq::<MessageEmbedResponse>::empty());
    }
    while j < m.embeds.len()
        invariant
            j <= es.len(),
            es == m.embeds@,
            extended(o3, out@, embeds_lines(app, es.take(j as int))),
        decreases es.len() - j,
    {
        let ghost before = out@;
        push_embed(out, app, &m.embeds[j]);
        proof {
            lemma_extended_trans(o3, before, out@, embeds_lines(app, es.take(j as int)), embed_lines(app, es[j as int]));
            assert(es.take(j + 1).drop_last() =~= es.take(j as int));
            assert(es.take(j + 1).last() == es[j as int]);
        }
        j = j + 1;
    }
    assert(es.take(j as int) =~= es);
    let ghost o4 = out@;
    let ghost pr: Seq<LineV> = if m.reactions@.len() > 0 {
        seq![ln(reaction_pieces(m.reactions@), plain())]
    } else {
        Seq::empty()
    };
    if m.reactions.len() > 0 {
        let l = reaction_line(&m.reactions);
        push_line(out, l, Ghost(ln(reaction_pieces(m.reactions@), plain())));
    } else {
        proof {
            lemma_extended_nothing(o4);
        }
    }
    proof {
        let hl = header_lines(app, msgs@, i as int, text_w);
        lemma_extended_trans(o, o1, o2, hl, pc);
        lemma_extended_trans(o, o2, o3, hl + pc, atts.map_values(af));
        lemma_extended_trans(o, o3, o4, hl + pc + atts.map_values(af), embeds_lines(app, es));
        lemma_extended_trans(o, o4, out@, hl + pc + atts.map_values(af) + embeds_lines(app, es), pr);
        assert(hl + pc + atts.map_values(af) + embeds_lines(app, es) + pr =~= message_block(app, msgs@, i as int, text_w));
    }
}

/// Whether message `i` is a notice from the client; see `is_notice`.
fn notice_exec(m: &MessageResponse) -> (r: bool)
    ensures
        r == is_notice(*m),
{
    m.message_type == MESSAGE_TYPE_CLIENT_SYSTEM && crate::text::str_eq(m.author.id.as_str(), "0")
}

/// The pane's lines for a channel's messages on a pane `text_w` columns
/// wide (see `pane_lines`), and for each message the range of lines it
/// takes, from its first line to just past its last (its gap excluded).
pub fn build_message_lines(app: &App, messages: &Vec<MessageResponse>, text_w: u16) -> (r: (
    Vec<PaneLine>,
    Vec<(usize, usize)>,
))
    ensures
        lines_fit(r.0@, pane_lines(app, messages@, messages@.len() as int, text_w)),
        r.1@.len() == messages@.len(),
        forall|i: int|
            0 <= i < messages@.len() ==> #[trigger] r.1@[i] == (
                (pane_lines(app, messages@, i, text_w).len() + gap(messages@, i).len()) as usize,
                pane_lines(app, messages@, i + 1, text_w).len() as usize,
            ),
{
    let mut lines: Vec<PaneLine> = Vec::new();
    let mut ranges: Vec<(usize, usize)> = Vec::new();
    let ghost msgs = messages@;
    let mut idx: usize = 0;
    proof {
        lemma_extended_nothing(Seq::<PaneLine>::empty());
    }
    while idx < messages.len()
        invariant
            idx <= msgs.len(),
            msgs == messages@,
            extended(Seq::empty(), lines@, pane_lines(app, msgs, idx as int, text_w)),
            ranges@.len() == idx,
            forall|i: int|
                0 <= i < idx ==> #[trigger] ranges@[i] == (
                    (pane_lines(app, msgs, i, text_w).len() + gap(msgs, i).len()) as usize,
                    pane_lines(app, msgs, i + 1, text_w).len() as usize,
                ),
        decreases msgs.len() - idx,
    {
        let ghost before = lines@;
        let m = &messages[idx];
        let spaced = idx > 0 && (notice_exec(m) || !is_grouped(messages, idx));
        if spaced {
            let l = PaneLine { spans: Vec::new(), style: plain_style() };
            push_line(&mut lines, l, Ghost(ln(Seq::empty(), plain())));
            assert(seq![ln(Seq::<PieceV>::empty(), plain())] =~= gap(msgs, idx as int));
        } else {
            proof {
                lemma_extended_nothing(before);
            }
            assert(gap(msgs, idx as int) =~= Seq::<LineV>::empty());
        }
        let start = lines.len();
        let ghost mid = lines@;
        push_message_block(&mut lines, app, messages, idx, text_w);
        let end = lines.len();
        proof {
            lemma_extended_trans(Seq::empty(), before, mid, pane_lines(app, msgs, idx as int, text_w), gap(msgs, idx as int));
            lemma_extended_trans(
                Seq::empty(),
                mid,
                lines@,
                pane_lines(app, msgs, idx as int, text_w) + gap(msgs, idx as int),
                message_block(app, msgs, idx as int, text_w),
            );
            assert(pane_lines(app, msgs, idx + 1, text_w) == pane_lines(app, msgs, idx as int, text_w) + gap(
                msgs,
                idx as int,
            ) + message_block(app, msgs, idx as int, text_w));
        }
        ranges.push((start, end));
        idx = idx + 1;
    }
    proof {
        lemma_extended_all(lines@, pane_lines(app, msgs, idx as int, text_w));
    }
    (lines, ranges)
}

/// The lines atop a channel's messages: a welcome naming the channel.
pub open spec fn welcome_lines(label: Seq<char>) -> Seq<LineV> {
    seq![
        ln(Seq::empty(), plain()),
        ln(seq![tx("Welcome to "@, bold_in(Tint::Text)), tx(label, bold_in(Tint::Accent))], plain()),
        ln(Seq::empty(), plain()),
        ln(
            seq![
                tx(
                    "In the beginning, there was nothing. Then, there was "@ + label + ". And it was good."@,
                    fg_only(Tint::TextDim),
                ),
            ],
            plain(),
        ),
        ln(Seq::empty(), plain()),
    ]
}

/// The welcome lines for a channel; see `welcome_lines`.
pub fn channel_welcome_lines(channel: &crate::types::ChannelResponse) -> (r: Vec<PaneLine>)
    ensures
        lines_fit(r@, welcome_lines(crate::display::welcome_label(*channel))),
{
    let label = crate::display::channel_welcome_label(channel);
    let genesis = concat(
        concat("In the beginning, there was nothing. Then, there was ", label.as_str()).as_str(),
        ". And it was good.",
    );
    let mut out: Vec<PaneLine> = Vec::new();
    out.push(PaneLine { spans: Vec::new(), style: plain_style() });
    let mut v: Vec<PaneSpan> = Vec::new();
    v.push(text_span("Welcome to ", SpanStyle { fg: Some(Tint::Text), bold: true, ..plain_style() }));
    v.push(owned_span(label, SpanStyle { fg: Some(Tint::Accent), bold: true, ..plain_style() }));
    out.push(PaneLine { spans: v, style: plain_style() });
    out.push(PaneLine { spans: Vec::new(), style: plain_style() });
    let mut g: Vec<PaneSpan> = Vec::new();
    g.push(owned_span(genesis, fg_style(Tint::TextDim)));
    out.push(PaneLine { spans: g, style: plain_style() });
    out.push(PaneLine { spans: Vec::new(), style: plain_style() });
    let ghost want = welcome_lines(crate::display::welcome_label(*channel));
    assert(line_fits(out@[0], want[0]));
    assert(line_fits(out@[1], want[1]));
    assert(line_fits(out@[2], want[2]));
    assert(line_fits(out@[3], want[3]));
    assert(line_fits(out@[4], want[4]));
    out
}

} // verus!
