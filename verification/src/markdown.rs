//! Message markup: **bold**, *italic*, `code`, __underline__, ~~strike~~,
//! ||spoiler||, [links](url), <autolinks>, mentions, custom emoji and
//! timestamps, split into styled spans; and the line-level markup around it.
use crate::app::{opt_str, App};
use crate::channels::index_of_id;
use crate::incoming::{first_id_index, group_target};
use crate::members::guild_of_channel;
use crate::roster::{name_color, role_for, unpack_rgb, NameColor};
use crate::seqs::{first_idx, lemma_first_idx_is};
use crate::text::{
    blank, char_is_alphanumeric, char_is_whitespace, chars_of, concat, contains, find, find_exec,
    is_alnum, is_blank, is_web_url, is_ws, lemma_find_bounds, parse_signed, str_eq, string_of,
};
use crate::typing::shown_name;
use crate::types::{ChannelResponse, GuildMemberResponse, UserPartialResponse};
use vstd::prelude::*;

verus! {

/// A paired markup delimiter.
#[derive(Debug, Clone, Copy, PartialEq, Eq, Structural)]
pub enum Delim {
    Bold,
    Italic,
    Code,
    Under,
    Strike,
    Spoiler,
}

/// The characters that open (and close) a delimited run.
pub open spec fn delim_text(d: Delim) -> Seq<char> {
    match d {
        Delim::Bold => seq!['*', '*'],
        Delim::Italic => seq!['*'],
        Delim::Code => seq!['`'],
        Delim::Under => seq!['_', '_'],
        Delim::Strike => seq!['~', '~'],
        Delim::Spoiler => seq!['|', '|'],
    }
}

impl Delim {
    /// The opening characters; see `delim_text`.
    pub fn open(self) -> (r: &'static str)
        ensures
            r@ == delim_text(self),
    {
        proof {
            reveal_strlit("**");
            reveal_strlit("*");
            reveal_strlit("`");
            reveal_strlit("__");
            reveal_strlit("~~");
            reveal_strlit("||");
        }
        match self {
            Delim::Bold => "**",
            Delim::Italic => "*",
            Delim::Code => "`",
            Delim::Under => "__",
            Delim::Strike => "~~",
            Delim::Spoiler => "||",
        }
    }

    /// The closing characters, the same as the opening ones.
    pub fn close(self) -> (r: &'static str)
        ensures
            r@ == delim_text(self),
    {
        self.open()
    }
}

/// The character at `i`, if there is one.
pub open spec fn at(t: Seq<char>, i: int) -> Option<char> {
    if 0 <= i < t.len() {
        Some(t[i])
    } else {
        None
    }
}

/// A neighbour that lets a star start or end italics: none, whitespace, or
/// punctuation other than `_`.
pub open spec fn italic_boundary(c: Option<char>) -> bool {
    match c {
        None => true,
        Some(ch) => is_ws(ch) || (!is_alnum(ch) && ch != '_'),
    }
}

/// The star at `i` can open italics: text follows it and a boundary precedes it.
pub open spec fn opens_italic(t: Seq<char>, i: int) -> bool {
    (at(t, i + 1) matches Some(n) && !is_ws(n) && n != '*') && italic_boundary(at(t, i - 1))
}

/// The star at `i` can close italics: text precedes it and a boundary follows it.
pub open spec fn closes_italic(t: Seq<char>, i: int) -> bool {
    (at(t, i - 1) matches Some(p) && !is_ws(p) && p != '*') && italic_boundary(at(t, i + 1))
}

/// A star on its own: no star right after it, nor right before it (a star
/// at the very start counts as its own neighbour, so it never qualifies).
pub open spec fn lone_star(t: Seq<char>, i: int) -> bool {
    at(t, i) == Some('*') && at(t, if i > 0 {
        i - 1
    } else {
        0
    }) != Some('*') && at(t, i + 1) != Some('*')
}

/// The first lone star at or after `i` that can open italics.
pub open spec fn first_opening_star(t: Seq<char>, i: int) -> Option<int>
    decreases t.len() - i,
{
    if i < 0 || i >= t.len() {
        None
    } else if lone_star(t, i) && opens_italic(t, i) {
        Some(i)
    } else {
        first_opening_star(t, i + 1)
    }
}

/// The first lone star at or after `i` that can close italics.
pub open spec fn first_closing_star(t: Seq<char>, i: int) -> Option<int>
    decreases t.len() - i,
{
    if i < 0 || i >= t.len() {
        None
    } else if lone_star(t, i) && closes_italic(t, i) {
        Some(i)
    } else {
        first_closing_star(t, i + 1)
    }
}

/// The earlier of a best match so far and a candidate; a tie keeps the best so far.
pub open spec fn earlier(best: Option<(int, Delim)>, cand: Option<int>, d: Delim) -> Option<(int, Delim)> {
    match cand {
        None => best,
        Some(i) => match best {
            None => Some((i, d)),
            Some(b) => if i < b.0 {
                Some((i, d))
            } else {
                best
            },
        },
    }
}

/// The first delimiter in `t`: the earliest of `**`, `__`, `~~`, `||` and
/// a backquote (on a tie, in that order), or an earlier star that opens italics.
pub open spec fn next_delim_spec(t: Seq<char>) -> Option<(int, Delim)> {
    let b = earlier(None, find(t, delim_text(Delim::Bold)), Delim::Bold);
    let b = earlier(b, find(t, delim_text(Delim::Under)), Delim::Under);
    let b = earlier(b, find(t, delim_text(Delim::Strike)), Delim::Strike);
    let b = earlier(b, find(t, delim_text(Delim::Spoiler)), Delim::Spoiler);
    let b = earlier(b, find(t, delim_text(Delim::Code)), Delim::Code);
    earlier(b, first_opening_star(t, 0), Delim::Italic)
}

/// The first position at or after `i` holding `c`.
pub open spec fn char_from(t: Seq<char>, c: char, i: int) -> Option<int>
    decreases t.len() - i,
{
    if i < 0 || i >= t.len() {
        None
    } else if t[i] == c {
        Some(i)
    } else {
        char_from(t, c, i + 1)
    }
}

/// The first `[label](url)` link starting at or after `o` and not preceded
/// by `!`, as its start, its end and its label. Scanning stops at the first
/// bracket that has no closing bracket, or whose `(` has no `)`.
pub open spec fn link_from(t: Seq<char>, o: int) -> Option<(int, int, Seq<char>)>
    decreases t.len() - o,
{
    if o < 0 || o >= t.len() {
        None
    } else if t[o] != '[' || at(t, o - 1) == Some('!') {
        link_from(t, o + 1)
    } else {
        match char_from(t, ']', o + 1) {
            None => None,
            Some(cb) => if at(t, cb + 1) != Some('(') {
                link_from(t, o + 1)
            } else {
                match char_from(t, ')', cb + 2) {
                    None => None,
                    Some(ue) => if ue == cb + 2 {
                        link_from(t, o + 1)
                    } else {
                        Some((o, ue + 1, t.subrange(o + 1, cb)))
                    },
                }
            },
        }
    }
}

/// The first `<url>` autolink at or after `o` whose address is a web
/// address, as its start, its end and the address. Scanning stops at the
/// first `<` without a `>` after it.
pub open spec fn autolink_from(t: Seq<char>, o: int) -> Option<(int, int, Seq<char>)>
    decreases t.len() - o,
{
    if o < 0 || o >= t.len() {
        None
    } else if t[o] != '<' {
        autolink_from(t, o + 1)
    } else {
        match char_from(t, '>', o + 1) {
            None => None,
            Some(ue) => if is_web_url(t.subrange(o + 1, ue)) {
                Some((o, ue + 1, t.subrange(o + 1, ue)))
            } else {
                autolink_from(t, o + 1)
            },
        }
    }
}

/// The next markup construct of a text.
#[derive(Debug)]
pub enum SpecialMatch {
    Delim { idx: usize, delim: Delim },
    Link { idx: usize, end: usize, label: Vec<char> },
    Autolink { idx: usize, end: usize, url: Vec<char> },
}

impl SpecialMatch {
    /// Where the construct starts.
    pub fn idx(&self) -> (r: usize)
        ensures
            r == special_idx(*self),
    {
        match self {
            SpecialMatch::Delim { idx, .. } => *idx,
            SpecialMatch::Link { idx, .. } => *idx,
            SpecialMatch::Autolink { idx, .. } => *idx,
        }
    }
}

/// Where a construct starts.
pub open spec fn special_idx(m: SpecialMatch) -> usize {
    match m {
        SpecialMatch::Delim { idx, .. } => idx,
        SpecialMatch::Link { idx, .. } => idx,
        SpecialMatch::Autolink { idx, .. } => idx,
    }
}

/// A construct over character sequences.
pub enum Special {
    Delim(int, Delim),
    Link(int, int, Seq<char>),
    Autolink(int, int, Seq<char>),
}

pub open spec fn special_view(m: SpecialMatch) -> Special {
    match m {
        SpecialMatch::Delim { idx, delim } => Special::Delim(idx as int, delim),
        SpecialMatch::Link { idx, end, label } => Special::Link(idx as int, end as int, label@),
        SpecialMatch::Autolink { idx, end, url } => Special::Autolink(idx as int, end as int, url@),
    }
}

pub open spec fn special_start(m: Special) -> int {
    match m {
        Special::Delim(i, _) => i,
        Special::Link(i, _, _) => i,
        Special::Autolink(i, _, _) => i,
    }
}

/// The next construct: the first delimiter, unless a link starts earlier,
/// unless an autolink starts earlier still.
pub open spec fn next_special_spec(t: Seq<char>) -> Option<Special> {
    let d = match next_delim_spec(t) {
        Some((i, dl)) => Some(Special::Delim(i, dl)),
        None => None,
    };
    let l = match link_from(t, 0) {
        Some((i, e, lab)) => if d is None || i < special_start(d->0) {
            Some(Special::Link(i, e, lab))
        } else {
            d
        },
        None => d,
    };
    match autolink_from(t, 0) {
        Some((i, e, u)) => if l is None || i < special_start(l->0) {
            Some(Special::Autolink(i, e, u))
        } else {
            l
        },
        None => l,
    }
}

/// Whether a character lets a star start or end italics; see `italic_boundary`.
pub fn is_italic_boundary(ch: Option<char>) -> (r: bool)
    ensures
        r == italic_boundary(ch),
{
    match ch {
        None => true,
        Some(c) => char_is_whitespace(c) || (!char_is_alphanumeric(c) && c != '_'),
    }
}

fn char_at(t: &Vec<char>, i: usize) -> (r: Option<char>)
    ensures
        r == at(t@, i as int),
{
    if i < t.len() {
        Some(t[i])
    } else {
        None
    }
}

fn char_before(t: &Vec<char>, i: usize) -> (r: Option<char>)
    ensures
        r == at(t@, i - 1),
{
    if i > 0 && i - 1 < t.len() {
        Some(t[i - 1])
    } else {
        None
    }
}

/// Whether the star at `idx` can open italics; see `opens_italic`.
pub fn can_open_italic(text: &Vec<char>, idx: usize) -> (r: bool)
    requires
        idx < usize::MAX,
    ensures
        r == opens_italic(text@, idx as int),
{
    let next_ok = match char_at(text, idx + 1) {
        Some(n) => !char_is_whitespace(n) && n != '*',
        None => false,
    };
    next_ok && is_italic_boundary(char_before(text, idx))
}

/// Whether the star at `idx` can close italics; see `closes_italic`.
pub fn can_close_italic(text: &Vec<char>, idx: usize) -> (r: bool)
    requires
        idx < usize::MAX,
    ensures
        r == closes_italic(text@, idx as int),
{
    let prev_ok = match char_before(text, idx) {
        Some(p) => !char_is_whitespace(p) && p != '*',
        None => false,
    };
    prev_ok && is_italic_boundary(char_at(text, idx + 1))
}

fn is_lone_star(t: &Vec<char>, i: usize) -> (r: bool)
    requires
        i < t@.len(),
    ensures
        r == lone_star(t@, i as int),
{
    let _n = t.len();
    let before = if i > 0 {
        i - 1
    } else {
        0
    };
    t[i] == '*' && char_at(t, before) != Some('*') && char_at(t, i + 1) != Some('*')
}

fn opening_star(t: &Vec<char>) -> (r: Option<usize>)
    ensures
        match r {
            Some(i) => first_opening_star(t@, 0) == Some(i as int),
            None => first_opening_star(t@, 0) is None,
        },
{
    let mut i: usize = 0;
    while i < t.len()
        invariant
            i <= t@.len(),
            first_opening_star(t@, 0) == first_opening_star(t@, i as int),
        decreases t@.len() - i,
    {
        if is_lone_star(t, i) && can_open_italic(t, i) {
            return Some(i);
        }
        i = i + 1;
    }
    None
}

/// The first lone star that can close italics; see `first_closing_star`.
pub fn find_matching_italic_close(text: &Vec<char>) -> (r: Option<usize>)
    ensures
        match r {
            Some(i) => first_closing_star(text@, 0) == Some(i as int),
            None => first_closing_star(text@, 0) is None,
        },
{
    let mut i: usize = 0;
    while i < text.len()
        invariant
            i <= text@.len(),
            first_closing_star(text@, 0) == first_closing_star(text@, i as int),
        decreases text@.len() - i,
    {
        if is_lone_star(text, i) && can_close_italic(text, i) {
            return Some(i);
        }
        i = i + 1;
    }
    None
}

fn earlier_exec(best: Option<(usize, Delim)>, cand: Option<usize>, d: Delim) -> (r: Option<(usize, Delim)>)
    ensures
        match r {
            Some((i, x)) => earlier(
                match best {
                    Some((j, y)) => Some((j as int, y)),
                    None => None,
                },
                match cand {
                    Some(c) => Some(c as int),
                    None => None,
                },
                d,
            ) == Some((i as int, x)),
            None => earlier(
                match best {
                    Some((j, y)) => Some((j as int, y)),
                    None => None,
                },
                match cand {
                    Some(c) => Some(c as int),
                    None => None,
                },
                d,
            ) is None,
        },
{
    match cand {
        None => best,
        Some(i) => match best {
            None => Some((i, d)),
            Some(b) => if i < b.0 {
                Some((i, d))
            } else {
                best
            },
        },
    }
}

fn find_delim(t: &Vec<char>, d: Delim) -> (r: Option<usize>)
    ensures
        match r {
            Some(i) => find(t@, delim_text(d)) == Some(i as int),
            None => find(t@, delim_text(d)) is None,
        },
{
    find_exec(t, &crate::text::chars_of(d.open()))
}

/// The first delimiter; see `next_delim_spec`.
pub fn next_delim(rest: &Vec<char>) -> (r: Option<(usize, Delim)>)
    ensures
        match r {
            Some((i, d)) => next_delim_spec(rest@) == Some((i as int, d)),
            None => next_delim_spec(rest@) is None,
        },
{
    let b = earlier_exec(None, find_delim(rest, Delim::Bold), Delim::Bold);
    let b = earlier_exec(b, find_delim(rest, Delim::Under), Delim::Under);
    let b = earlier_exec(b, find_delim(rest, Delim::Strike), Delim::Strike);
    let b = earlier_exec(b, find_delim(rest, Delim::Spoiler), Delim::Spoiler);
    let b = earlier_exec(b, find_delim(rest, Delim::Code), Delim::Code);
    earlier_exec(b, opening_star(rest), Delim::Italic)
}

/// The first position at or after `from` holding `c`; see `char_from`.
pub fn char_from_exec(t: &Vec<char>, c: char, from: usize) -> (r: Option<usize>)
    ensures
        match r {
            Some(i) => char_from(t@, c, from as int) == Some(i as int) && from <= i < t@.len(),
            None => char_from(t@, c, from as int) is None,
        },
{
    let mut i = from;
    while i < t.len()
        invariant
            from <= i,
            char_from(t@, c, from as int) == char_from(t@, c, i as int),
        decreases t@.len() - i,
    {
        if t[i] == c {
            return Some(i);
        }
        i = i + 1;
    }
    None
}

fn copy_range(t: &Vec<char>, from: usize, to: usize) -> (r: Vec<char>)
    requires
        from <= to <= t@.len(),
    ensures
        r@ == t@.subrange(from as int, to as int),
{
    crate::text::slice_chars(t, from, to)
}

/// The first link; see `link_from`.
pub fn find_link(text: &Vec<char>) -> (r: Option<(usize, usize, Vec<char>)>)
    ensures
        match r {
            Some((o, e, l)) => link_from(text@, 0) == Some((o as int, e as int, l@)),
            None => link_from(text@, 0) is None,
        },
{
    let mut o: usize = 0;
    while o < text.len()
        invariant
            o <= text@.len(),
            link_from(text@, 0) == link_from(text@, o as int),
        decreases text@.len() - o,
    {
        if text[o] == '[' && char_before(text, o) != Some('!') {
            let cb = match char_from_exec(text, ']', o + 1) {
                Some(cb) => cb,
                None => {
                    return None;
                },
            };
            if char_at(text, cb + 1) == Some('(') {
                let ue = match char_from_exec(text, ')', cb + 2) {
                    Some(ue) => ue,
                    None => {
                        return None;
                    },
                };
                if ue != cb + 2 {
                    return Some((o, ue + 1, copy_range(text, o + 1, cb)));
                }
            }
        }
        o = o + 1;
    }
    None
}

/// The first autolink; see `autolink_from`.
pub fn find_autolink(text: &Vec<char>) -> (r: Option<(usize, usize, Vec<char>)>)
    ensures
        match r {
            Some((o, e, u)) => autolink_from(text@, 0) == Some((o as int, e as int, u@)),
            None => autolink_from(text@, 0) is None,
        },
{
    let mut o: usize = 0;
    while o < text.len()
        invariant
            o <= text@.len(),
            autolink_from(text@, 0) == autolink_from(text@, o as int),
        decreases text@.len() - o,
    {
        if text[o] == '<' {
            let ue = match char_from_exec(text, '>', o + 1) {
                Some(ue) => ue,
                None => {
                    return None;
                },
            };
            let url = copy_range(text, o + 1, ue);
            if crate::text::is_web_url_exec(crate::text::string_of(url.as_slice()).as_str()) {
                return Some((o, ue + 1, url));
            }
        }
        o = o + 1;
    }
    None
}

/// The next construct; see `next_special_spec`.
pub fn next_special(rest: &Vec<char>) -> (r: Option<SpecialMatch>)
    ensures
        match r {
            Some(m) => next_special_spec(rest@) == Some(special_view(m)),
            None => next_special_spec(rest@) is None,
        },
{
    let mut best: Option<SpecialMatch> = match next_delim(rest) {
        Some((idx, delim)) => Some(SpecialMatch::Delim { idx, delim }),
        None => None,
    };
    if let Some((idx, end, label)) = find_link(rest) {
        let take = match &best {
            None => true,
            Some(cur) => idx < cur.idx(),
        };
        if take {
            best = Some(SpecialMatch::Link { idx, end, label });
        }
    }
    if let Some((idx, end, url)) = find_autolink(rest) {
        let take = match &best {
            None => true,
            Some(cur) => idx < cur.idx(),
        };
        if take {
            best = Some(SpecialMatch::Autolink { idx, end, url });
        }
    }
    best
}

/// A colour of the theme, or one a name or role brings.
#[derive(Debug, Clone, Copy, PartialEq, Eq, Structural)]
pub enum Tint {
    Text,
    TextDim,
    TextMuted,
    Accent,
    AccentDim,
    Link,
    EmojiUnknown,
    BgTertiary,
    Danger,
    Voice,
    Black,
    Name(NameColor),
    Rgb(u8, u8, u8),
}

/// How a span is drawn: colours and text attributes.
#[derive(Debug, Clone, Copy, PartialEq, Eq, Structural)]
pub struct SpanStyle {
    pub fg: Option<Tint>,
    pub bg: Option<Tint>,
    pub bold: bool,
    pub italic: bool,
    pub underlined: bool,
    pub crossed_out: bool,
    pub dim: bool,
}

/// A piece of text and how to draw it.
#[derive(Debug)]
pub struct StyledSpan {
    pub text: String,
    pub style: SpanStyle,
}

/// A span over character sequences; `local_time` marks a timestamp whose
/// number parsed, drawn in the machine's time zone (its text is then not
/// given here).
pub struct SpanSpec {
    pub text: Seq<char>,
    pub style: SpanStyle,
    pub local_time: bool,
}

/// No colours, no attributes.
pub open spec fn plain() -> SpanStyle {
    SpanStyle { fg: None, bg: None, bold: false, italic: false, underlined: false, crossed_out: false, dim: false }
}

/// No colours, no attributes.
pub fn plain_style() -> (r: SpanStyle)
    ensures
        r == plain(),
{
    SpanStyle { fg: None, bg: None, bold: false, italic: false, underlined: false, crossed_out: false, dim: false }
}

/// Only a foreground colour.
pub open spec fn fg_only(t: Tint) -> SpanStyle {
    SpanStyle { fg: Some(t), ..plain() }
}

/// Only a foreground colour.
pub fn fg_style(t: Tint) -> (r: SpanStyle)
    ensures
        r == fg_only(t),
{
    SpanStyle { fg: Some(t), ..plain_style() }
}

/// A span drawn as the style says, its text given.
pub open spec fn piece(text: Seq<char>, style: SpanStyle) -> SpanSpec {
    SpanSpec { text, style, local_time: false }
}

/// How a local time is written (`%Y-%m-%d %H:%M`): at least sixteen
/// characters, not starting with `<`, with a colon before the minutes.
pub open spec fn local_time_shape(t: Seq<char>) -> bool {
    t.len() >= 16 && t[0] != '<' && t[t.len() - 3] == ':'
}

/// A drawn text agrees with a span's description: the same text, or, for
/// a timestamp that may be a local time, that text or a local time.
pub open spec fn text_fits(t: Seq<char>, p: SpanSpec) -> bool {
    if p.local_time {
        t == p.text || local_time_shape(t)
    } else {
        t == p.text
    }
}

/// A drawn span agrees with its description: same style, and its text fits.
pub open spec fn span_ok(s: StyledSpan, p: SpanSpec) -> bool {
    s.style == p.style && text_fits(s.text@, p)
}

/// `new` is `old` with spans agreeing with `add` after it.
pub open spec fn appended(old: Seq<StyledSpan>, new: Seq<StyledSpan>, add: Seq<SpanSpec>) -> bool {
    &&& new.len() == old.len() + add.len()
    &&& new.take(old.len() as int) == old
    &&& forall|i: int| 0 <= i < add.len() ==> span_ok(#[trigger] new[old.len() + i], add[i])
}

/// The spans agree with their descriptions, one by one.
pub open spec fn spans_match(r: Seq<StyledSpan>, s: Seq<SpanSpec>) -> bool {
    appended(Seq::empty(), r, s)
}

/// The last four characters (all of them when there are fewer).
pub open spec fn last4(s: Seq<char>) -> Seq<char> {
    s.skip(if s.len() > 4 {
        s.len() - 4
    } else {
        0
    })
}

fn last4_exec(s: &str) -> (r: String)
    ensures
        r@ == last4(s@),
{
    let cs = chars_of(s);
    let from: usize = if cs.len() > 4 {
        cs.len() - 4
    } else {
        0
    };
    let t = crate::text::slice_chars(&cs, from, cs.len());
    assert(t@ =~= last4(s@));
    string_of(t.as_slice())
}

/// The guild of the open channel.
pub open spec fn active_guild(a: &App) -> Option<Seq<char>> {
    match a.selected_channel_id {
        Some(c) => guild_of_channel(a, c@),
        None => None,
    }
}

/// The name a channel mention shows: the first stored guild channel with
/// that id, else the direct message channel, else `unknown-` and the id's
/// last four characters.
pub open spec fn channel_name_of(a: &App, id: Seq<char>) -> Seq<char> {
    let ps = a.guild_channels.pairs();
    let k = group_target(a, id);
    if k < ps.len() {
        ps[k].1@[index_of_id(ps[k].1@, id)].name@
    } else {
        let j = index_of_id(a.private_channels@, id);
        if j < a.private_channels@.len() {
            a.private_channels@[j].name@
        } else {
            "unknown-"@ + last4(id)
        }
    }
}

/// The first member with this user id in a list, as a position (or the length).
pub open spec fn member_pos(ms: Seq<GuildMemberResponse>, id: Seq<char>) -> int {
    first_idx(ms, |m: GuildMemberResponse| m.user.id@ == id, 0)
}

/// The cached account with this id, else the member's own record.
pub open spec fn account_of(a: &App, id: Seq<char>, fallback: UserPartialResponse) -> UserPartialResponse {
    if a.user_cache@.dom().contains(id) {
        a.user_cache@[id]
    } else {
        fallback
    }
}

/// The first guild (in stored order) listing a member with this id, as a position.
pub open spec fn member_group(a: &App, id: Seq<char>) -> int {
    first_idx(
        a.guild_members.pairs(),
        |e: (String, Vec<GuildMemberResponse>)| member_pos(e.1@, id) < e.1@.len(),
        0,
    )
}

/// The name a user mention shows: as shown in the open channel's guild when
/// the user is a member there or is cached; else as shown for the cached
/// account; else as shown in the first guild listing them; else `user-` and
/// the id's last four characters.
pub open spec fn user_name_of(a: &App, id: Seq<char>) -> Seq<char> {
    let in_active = match active_guild(a) {
        Some(g) => if a.guild_members@.dom().contains(g) && member_pos(a.guild_members@[g]@, id)
            < a.guild_members@[g]@.len() {
            Some(
                shown_name(
                    a,
                    Some(g),
                    account_of(a, id, a.guild_members@[g]@[member_pos(a.guild_members@[g]@, id)].user),
                ),
            )
        } else if a.user_cache@.dom().contains(id) {
            Some(shown_name(a, Some(g), a.user_cache@[id]))
        } else {
            None
        },
        None => None,
    };
    match in_active {
        Some(n) => n,
        None => if a.user_cache@.dom().contains(id) {
            shown_name(a, None, a.user_cache@[id])
        } else {
            let ps = a.guild_members.pairs();
            let k = member_group(a, id);
            if k < ps.len() {
                shown_name(a, Some(ps[k].0@), account_of(a, id, ps[k].1@[member_pos(ps[k].1@, id)].user))
            } else {
                "user-"@ + last4(id)
            }
        },
    }
}

/// A user mention: `@name`, in the colour of the user's name in the open channel's guild.
pub open spec fn user_span(a: &App, id: Seq<char>) -> SpanSpec {
    piece("@"@ + user_name_of(a, id), fg_only(Tint::Name(name_color(a, active_guild(a), id, id == a.me.id@))))
}

/// A role mention: `@name` in the role's colour (the accent in bold when it
/// has none), underlined; an unknown role shows as `@role-` and the id's last
/// four characters in the accent, in bold, underlined only when the guild's
/// roles are not loaded.
pub open spec fn role_span(a: &App, rid: Seq<char>) -> SpanSpec {
    let tail = last4(rid);
    let fallback = SpanStyle { fg: Some(Tint::Accent), bold: true, ..plain() };
    match active_guild(a) {
        None => piece("@role-"@ + tail, fallback),
        Some(g) => if !a.guild_roles@.dom().contains(g) {
            piece("@role-"@ + tail, SpanStyle { underlined: true, ..fallback })
        } else {
            match role_for(a.guild_roles@[g]@, rid) {
                None => piece("@role-"@ + tail, fallback),
                Some(r) => {
                    let name = if is_blank(r.name@) {
                        "role-"@ + tail
                    } else {
                        r.name@
                    };
                    let base = if r.color == 0 {
                        fallback
                    } else {
                        match unpack_rgb(r.color) {
                            NameColor::Rgb(x, y, z) => fg_only(Tint::Rgb(x, y, z)),
                            _ => plain(),
                        }
                    };
                    piece("@"@ + name, SpanStyle { underlined: true, ..base })
                },
            }
        },
    }
}

impl App {
    /// The guild of the open channel; see `active_guild`.
    fn active_guild_exec(&self) -> (r: Option<String>)
        ensures
            opt_str(r) == active_guild(self),
    {
        match &self.selected_channel_id {
            Some(c) => self.guild_id_for_channel(c.as_str()),
            None => None,
        }
    }

    /// The name a channel mention shows; see `channel_name_of`.
    pub fn resolve_channel_name(&self, id: &str) -> (r: String)
        ensures
            r@ == channel_name_of(self, id@),
    {
        let ghost ps = self.guild_channels.pairs();
        let ghost q = |e: (String, Vec<ChannelResponse>)| index_of_id(e.1@, id@) < e.1@.len();
        let mut g: usize = 0;
        while g < self.guild_channels.len()
            invariant
                g <= ps.len(),
                ps == self.guild_channels.pairs(),
                q == (|e: (String, Vec<ChannelResponse>)| index_of_id(e.1@, id@) < e.1@.len()),
                forall|k: int| 0 <= k < g ==> !q(#[trigger] ps[k]),
            decreases ps.len() - g,
        {
            let chs = self.guild_channels.value_at(g);
            let j = first_id_index(chs, id);
            if j < chs.len() {
                proof {
                    assert(q(ps[g as int]));
                    lemma_first_idx_is(ps, q, 0, g as int);
                }
                return chs[j].name.clone();
            }
            g = g + 1;
        }
        proof {
            lemma_first_idx_is(ps, q, 0, ps.len() as int);
        }
        let j = first_id_index(&self.private_channels, id);
        if j < self.private_channels.len() {
            return self.private_channels[j].name.clone();
        }
        concat("unknown-", last4_exec(id).as_str())
    }

    fn member_index(ms: &Vec<GuildMemberResponse>, id: &str) -> (r: usize)
        ensures
            r as int == member_pos(ms@, id@),
            r <= ms@.len(),
    {
        let ghost p = |m: GuildMemberResponse| m.user.id@ == id@;
        let mut i: usize = 0;
        while i < ms.len()
            invariant
                i <= ms@.len(),
                p == (|m: GuildMemberResponse| m.user.id@ == id@),
                forall|k: int| 0 <= k < i ==> !p(#[trigger] ms@[k]),
            decreases ms@.len() - i,
        {
            if str_eq(ms[i].user.id.as_str(), id) {
                proof {
                    lemma_first_idx_is(ms@, p, 0, i as int);
                }
                return i;
            }
            i = i + 1;
        }
        proof {
            lemma_first_idx_is(ms@, p, 0, ms@.len() as int);
        }
        i
    }

    /// The name a user mention shows; see `user_name_of`.
    #[verifier::loop_isolation(false)]
    pub fn resolve_user_name(&self, id: &str) -> (r: String)
        ensures
            r@ == user_name_of(self, id@),
    {
        let active = self.active_guild_exec();
        if let Some(g) = &active {
            if let Some(ms) = self.guild_members.get(g.as_str()) {
                let k = App::member_index(ms, id);
                if k < ms.len() {
                    let u = match self.user_cache.get(id) {
                        Some(c) => c,
                        None => &ms[k].user,
                    };
                    return self.shown_name_for_user(Some(g.as_str()), u);
                }
            }
            if let Some(u) = self.user_cache.get(id) {
                return self.shown_name_for_user(Some(g.as_str()), u);
            }
        }
        if let Some(u) = self.user_cache.get(id) {
            return self.shown_name_for_user(None, u);
        }
        let ghost ps = self.guild_members.pairs();
        let ghost q = |e: (String, Vec<GuildMemberResponse>)| member_pos(e.1@, id@) < e.1@.len();
        let mut g: usize = 0;
        while g < self.guild_members.len()
            invariant
                g <= ps.len(),
                ps == self.guild_members.pairs(),
                q == (|e: (String, Vec<GuildMemberResponse>)| member_pos(e.1@, id@) < e.1@.len()),
                forall|k: int| 0 <= k < g ==> !q(#[trigger] ps[k]),
            decreases ps.len() - g,
        {
            let ms = self.guild_members.value_at(g);
            let k = App::member_index(ms, id);
            if k < ms.len() {
                proof {
                    assert(q(ps[g as int]));
                    lemma_first_idx_is(ps, q, 0, g as int);
                }
                let u = match self.user_cache.get(id) {
                    Some(c) => c,
                    None => &ms[k].user,
                };
                return self.shown_name_for_user(Some(self.guild_members.key_at(g).as_str()), u);
            }
            g = g + 1;
        }
        proof {
            lemma_first_idx_is(ps, q, 0, ps.len() as int);
        }
        concat("user-", last4_exec(id).as_str())
    }

    /// A user mention span; see `user_span`.
    fn user_mention_span(&self, id: &str) -> (r: StyledSpan)
        ensures
            span_ok(r, user_span(self, id@)),
    {
        let name = self.resolve_user_name(id);
        let is_self = str_eq(id, self.me.id.as_str());
        let g = self.active_guild_exec();
        let gref: Option<&str> = match &g {
            Some(x) => Some(x.as_str()),
            None => None,
        };
        assert(crate::settings::opt_ref_view(gref) == active_guild(self));
        let fg = self.member_name_color(gref, id, is_self);
        StyledSpan { text: concat("@", name.as_str()), style: fg_style(Tint::Name(fg)) }
    }

    /// A role mention span; see `role_span`.
    pub fn role_mention_span(&self, role_id: &str) -> (r: StyledSpan)
        ensures
            span_ok(r, role_span(self, role_id@)),
    {
        let tail = last4_exec(role_id);
        let fallback = SpanStyle { fg: Some(Tint::Accent), bold: true, ..plain_style() };
        let unknown = concat("@role-", tail.as_str());
        let g = match self.active_guild_exec() {
            Some(g) => g,
            None => {
                return StyledSpan { text: unknown, style: fallback };
            },
        };
        let roles = match self.guild_roles.get(g.as_str()) {
            Some(r) => r,
            None => {
                return StyledSpan { text: unknown, style: SpanStyle { underlined: true, ..fallback } };
            },
        };
        let role = match crate::roster::find_role(roles, role_id) {
            Some(r) => r,
            None => {
                return StyledSpan { text: unknown, style: fallback };
            },
        };
        let name = if blank(role.name.as_str()) {
            concat("role-", tail.as_str())
        } else {
            role.name.clone()
        };
        let base = if role.color == 0 {
            fallback
        } else {
            match crate::roster::rgb_pack_to_color(role.color) {
                NameColor::Rgb(x, y, z) => fg_style(Tint::Rgb(x, y, z)),
                _ => plain_style(),
            }
        };
        StyledSpan { text: concat("@", name.as_str()), style: SpanStyle { underlined: true, ..base } }
    }
}

/// The style with its foreground colour replaced.
pub open spec fn with_fg(s: SpanStyle, t: Tint) -> SpanStyle {
    SpanStyle { fg: Some(t), ..s }
}

/// The emoji that a whole string names (in any of its qualified forms), as
/// the emoji's fully qualified text.
pub uninterp spec fn emoji_of(s: Seq<char>) -> Option<Seq<char>>;

/// `emojis::get`: the emoji whose text is exactly `s`, as its fully
/// qualified text (`Emoji::as_str`). The crate's table never names an emoji
/// by a text longer than the emoji's own, so a string that is one emoji is
/// used up by it.
#[verifier::external_body]
fn emoji_lookup(s: &str) -> (r: Option<String>)
    ensures
        opt_str(r) == emoji_of(s@),
{
    match emojis::get(s) {
        Some(e) => Some(e.as_str().to_string()),
        None => None,
    }
}

/// The first position from `p` on (never the start) where the rest of the text is one emoji.
pub open spec fn emoji_tail_from(t: Seq<char>, p: int) -> Option<int>
    decreases t.len() - p,
{
    if p < 1 || p >= t.len() {
        None
    } else if emoji_of(t.skip(p)) is Some {
        Some(p)
    } else {
        emoji_tail_from(t, p + 1)
    }
}

/// Plain text as spans: an emoji on its own in the emoji colour; text
/// ending in an emoji split before it; other text as it is.
pub open spec fn text_spans(t: Seq<char>, base: SpanStyle) -> Seq<SpanSpec> {
    if t.len() == 0 {
        Seq::empty()
    } else {
        match emoji_of(t) {
            Some(e) => seq![piece(e, with_fg(base, Tint::EmojiUnknown))],
            None => match emoji_tail_from(t, 1) {
                Some(p) => seq![
                    piece(t.take(p), base),
                    piece(emoji_of(t.skip(p))->0, with_fg(base, Tint::EmojiUnknown)),
                ],
                None => seq![piece(t, base)],
            },
        }
    }
}

pub proof fn lemma_push_one(old: Seq<StyledSpan>, mid: Seq<StyledSpan>, x: StyledSpan, a: Seq<SpanSpec>, p: SpanSpec)
    requires
        appended(old, mid, a),
        span_ok(x, p),
    ensures
        appended(old, mid.push(x), a.push(p)),
{
    let new = mid.push(x);
    assert(new.take(old.len() as int) =~= mid.take(old.len() as int));
    assert forall|i: int| 0 <= i < a.push(p).len() implies span_ok(#[trigger] new[old.len() + i], a.push(p)[i]) by {
        if i < a.len() {
            assert(new[old.len() + i] == mid[old.len() + i]);
        }
    }
}

/// Appends plain text as spans; see `text_spans`.
#[verifier::loop_isolation(false)]
pub fn flush_text_with_emoji_str(text: &Vec<char>, spans: &mut Vec<StyledSpan>, base: SpanStyle)
    ensures
        appended(old(spans)@, final(spans)@, text_spans(text@, base)),
{
    proof {
        assert(old(spans)@.take(old(spans)@.len() as int) =~= old(spans)@);
    }
    if text.len() == 0 {
        return;
    }
    let ghost o = spans@;
    assert(o.take(o.len() as int) =~= o);
    let whole = string_of(text.as_slice());
    if let Some(e) = emoji_lookup(whole.as_str()) {
        let ghost p = piece(e@, with_fg(base, Tint::EmojiUnknown));
        spans.push(StyledSpan { text: e, style: SpanStyle { fg: Some(Tint::EmojiUnknown), ..base } });
        proof {
            lemma_push_one(o, o, spans@.last(), Seq::empty(), p);
            assert(seq![p] =~= Seq::<SpanSpec>::empty().push(p));
        }
        return;
    }
    let mut p: usize = 1;
    while p < text.len()
        invariant
            1 <= p,
            spans@ == o,
            emoji_tail_from(text@, 1) == emoji_tail_from(text@, p as int),
        decreases text@.len() - p,
    {
        let tail = crate::text::slice_chars(text, p, text.len());
        assert(tail@ =~= text@.skip(p as int));
        if let Some(e) = emoji_lookup(string_of(tail.as_slice()).as_str()) {
            let head = crate::text::slice_chars(text, 0, p);
            assert(head@ =~= text@.take(p as int));
            let ghost p1 = piece(text@.take(p as int), base);
            let ghost p2 = piece(e@, with_fg(base, Tint::EmojiUnknown));
            spans.push(StyledSpan { text: string_of(head.as_slice()), style: base });
            proof {
                lemma_push_one(o, o, spans@.last(), Seq::empty(), p1);
                assert(Seq::<SpanSpec>::empty().push(p1) =~= seq![p1]);
            }
            let ghost mid = spans@;
            spans.push(StyledSpan { text: e, style: SpanStyle { fg: Some(Tint::EmojiUnknown), ..base } });
            proof {
                lemma_push_one(o, mid, spans@.last(), seq![p1], p2);
                assert(seq![p1].push(p2) =~= seq![p1, p2]);
            }
            return;
        }
        p = p + 1;
    }
    let ghost p0 = piece(text@, base);
    spans.push(StyledSpan { text: whole, style: base });
    proof {
        lemma_push_one(o, o, spans@.last(), Seq::empty(), p0);
        assert(seq![p0] =~= Seq::<SpanSpec>::empty().push(p0));
    }
}

/// The text before the first colon (all of it without one).
pub open spec fn before_colon(s: Seq<char>) -> Seq<char> {
    match char_from(s, ':', 0) {
        Some(k) => s.take(k),
        None => s,
    }
}

/// A timestamp mention `<t:inner>`, dimmed: the time in the machine's time
/// zone when the number before the first colon parses and lies within
/// chrono's range of dates, else the markup as written. `local_time` marks
/// the numbers for which a local time may stand there (those that parse and
/// lie within 8.4e12 seconds of the epoch).
pub open spec fn stamp_span(inner: Seq<char>) -> SpanSpec {
    SpanSpec {
        text: "<t:"@ + inner + ">"@,
        style: fg_only(Tint::TextDim),
        local_time: crate::text::parse_signed(before_colon(inner)) matches Some(ts) && -8_400_000_000_000
            <= ts <= 8_400_000_000_000,
    }
}

/// `chrono::DateTime::from_timestamp` at whole seconds, shown in the
/// machine's time zone (`chrono::Local`) as `%Y-%m-%d %H:%M`.
/// `from_timestamp` returns `None` for a date outside chrono's years
/// -262143 ..= 262142 before any time zone is consulted: so the result is
/// `Some` within 8.2e12 seconds of the epoch and `None` beyond 8.4e12. For a
/// date inside that range chrono's time-zone lookup stays clear of the
/// overflow checks that end in its `expect`. The text depends on the
/// machine's time zone, so only its shape is stated: chrono writes the year
/// with at least four characters (a digit first, or a sign outside
/// 0..=9999) and month, day, hour and minute with two digits each.
#[verifier::external_body]
fn local_time_text(ts: i64) -> (r: Option<String>)
    ensures
        -8_200_000_000_000 <= ts <= 8_200_000_000_000 ==> r is Some,
        (ts < -8_400_000_000_000 || ts > 8_400_000_000_000) ==> r is None,
        r matches Some(t) ==> local_time_shape(t@),
{
    match chrono::DateTime::from_timestamp(ts, 0) {
        Some(dt) => Some(dt.with_timezone(&chrono::Local).format("%Y-%m-%d %H:%M").to_string()),
        None => None,
    }
}

/// The number of seconds a timestamp mention names: the number before the
/// first colon, when it parses as an `i64`.
pub fn stamp_seconds(inner: &str) -> (r: Option<i64>)
    ensures
        match r {
            Some(ts) => parse_signed(before_colon(inner@)) == Some(ts as int),
            None => parse_signed(before_colon(inner@)) is None,
        },
{
    let cs = chars_of(inner);
    let head = match char_from_exec(&cs, ':', 0) {
        Some(k) => crate::text::slice_chars(&cs, 0, k),
        None => cs.clone(),
    };
    assert(head@ =~= before_colon(inner@));
    crate::text::parse_i64(string_of(head.as_slice()).as_str())
}

/// The text of a timestamp mention given the local time that was found for
/// it: that time, or the markup as written when there is none.
pub fn stamp_text(inner: &str, local: Option<String>) -> (r: String)
    ensures
        r@ == match local {
            Some(t) => t@,
            None => stamp_span(inner@).text,
        },
{
    match local {
        Some(t) => t,
        None => {
            let mut t = concat("<t:", inner);
            t.append(">");
            t
        },
    }
}

/// The text of a timestamp mention; see `stamp_span`. The number of seconds
/// it names (`stamp_seconds`) is what is shown in local time.
pub fn format_discord_timestamp(inner: &str) -> (r: String)
    ensures
        !stamp_span(inner@).local_time ==> r@ == stamp_span(inner@).text,
        stamp_span(inner@).local_time ==> r@ == stamp_span(inner@).text || local_time_shape(r@),
        parse_signed(before_colon(inner@)) matches Some(ts) && -8_200_000_000_000 <= ts
            <= 8_200_000_000_000 ==> local_time_shape(r@) && r@ != stamp_span(inner@).text,
{
    let local = match stamp_seconds(inner) {
        Some(ts) => local_time_text(ts),
        None => None,
    };
    let r = stamp_text(inner, local);
    proof {
        reveal_strlit("<t:");
        let t = stamp_span(inner@).text;
        assert(t[0] == '<');
    }
    r
}

/// The name of a custom emoji `<:name:id>`: the text between the last two
/// colons (from the start when there is one colon).
pub open spec fn custom_emoji_name(inner: Seq<char>) -> Seq<char> {
    let before = inner.take(crate::media::last_index_of(inner, ':'));
    before.skip(crate::media::last_index_of(before, ':') + 1)
}

/// A custom emoji mention, shown as `:name:`: in the accent and italic when
/// animated, else in the emoji colour.
pub open spec fn custom_emoji_span(inner: Seq<char>, animated: bool) -> SpanSpec {
    piece(
        ":"@ + custom_emoji_name(inner) + ":"@,
        if animated {
            SpanStyle { fg: Some(Tint::Accent), italic: true, ..plain() }
        } else {
            fg_only(Tint::EmojiUnknown)
        },
    )
}

proof fn lemma_last_index_bounds(s: Seq<char>, c: char)
    ensures
        -1 <= crate::media::last_index_of(s, c) < s.len(),
    decreases s.len(),
{
    if s.len() > 0 {
        lemma_last_index_bounds(s.drop_last(), c);
    }
}

fn custom_emoji(inner: &Vec<char>, animated: bool) -> (r: StyledSpan)
    requires
        crate::media::last_index_of(inner@, ':') >= 0,
    ensures
        span_ok(r, custom_emoji_span(inner@, animated)),
{
    let k = match crate::names::last_colon(inner) {
        Some(k) => k,
        None => 0,
    };
    let before = crate::text::slice_chars(inner, 0, k);
    assert(before@ =~= inner@.take(crate::media::last_index_of(inner@, ':')));
    let from = match crate::names::last_colon(&before) {
        Some(j) => j + 1,
        None => 0,
    };
    proof {
        lemma_last_index_bounds(before@, ':');
    }
    let name = crate::text::slice_chars(&before, from, before.len());
    assert(name@ =~= custom_emoji_name(inner@));
    let mut t = concat(":", string_of(name.as_slice()).as_str());
    t.append(":");
    let style = if animated {
        SpanStyle { fg: Some(Tint::Accent), italic: true, ..plain_style() }
    } else {
        fg_style(Tint::EmojiUnknown)
    };
    StyledSpan { text: t, style }
}

pub proof fn lemma_char_from(t: Seq<char>, c: char, j: int)
    ensures
        char_from(t, c, j) matches Some(k) ==> 0 <= j <= k < t.len() && t[k] == c,
    decreases t.len() - j,
{
    if 0 <= j < t.len() && t[j] != c {
        lemma_char_from(t, c, j + 1);
    }
}

pub proof fn lemma_link_bounds(t: Seq<char>, o: int)
    ensures
        link_from(t, o) matches Some((i, e, l)) ==> 0 <= o <= i < e <= t.len() && l.len() + 1 < e - i && l
            == t.subrange(i + 1, i + 1 + l.len()),
    decreases t.len() - o,
{
    if 0 <= o < t.len() {
        if t[o] != '[' || at(t, o - 1) == Some('!') {
            lemma_link_bounds(t, o + 1);
        } else {
            lemma_char_from(t, ']', o + 1);
            match char_from(t, ']', o + 1) {
                None => {},
                Some(cb) => {
                    lemma_char_from(t, ')', cb + 2);
                    lemma_link_bounds(t, o + 1);
                },
            }
        }
    }
}

pub proof fn lemma_autolink_bounds(t: Seq<char>, o: int)
    ensures
        autolink_from(t, o) matches Some((i, e, u)) ==> 0 <= o <= i < e <= t.len() && u == t.subrange(i + 1, e - 1),
    decreases t.len() - o,
{
    if 0 <= o < t.len() {
        if t[o] != '<' {
            lemma_autolink_bounds(t, o + 1);
        } else {
            lemma_char_from(t, '>', o + 1);
            lemma_autolink_bounds(t, o + 1);
        }
    }
}

pub proof fn lemma_opening_star_bounds(t: Seq<char>, i: int)
    ensures
        first_opening_star(t, i) matches Some(k) ==> 0 <= i <= k < t.len() && t[k] == '*',
    decreases t.len() - i,
{
    if 0 <= i < t.len() && !(lone_star(t, i) && opens_italic(t, i)) {
        lemma_opening_star_bounds(t, i + 1);
    }
}

pub proof fn lemma_closing_star_bounds(t: Seq<char>, i: int)
    ensures
        first_closing_star(t, i) matches Some(k) ==> 0 <= i <= k < t.len() && t[k] == '*',
    decreases t.len() - i,
{
    if 0 <= i < t.len() && !(lone_star(t, i) && closes_italic(t, i)) {
        lemma_closing_star_bounds(t, i + 1);
    }
}

pub proof fn lemma_next_delim_bounds(t: Seq<char>)
    ensures
        next_delim_spec(t) matches Some((i, d)) ==> 0 <= i && i + delim_text(d).len() <= t.len(),
{
    lemma_find_bounds(t, delim_text(Delim::Bold));
    lemma_find_bounds(t, delim_text(Delim::Under));
    lemma_find_bounds(t, delim_text(Delim::Strike));
    lemma_find_bounds(t, delim_text(Delim::Spoiler));
    lemma_find_bounds(t, delim_text(Delim::Code));
    lemma_opening_star_bounds(t, 0);
}

pub proof fn lemma_next_special_bounds(t: Seq<char>)
    ensures
        next_special_spec(t) matches Some(m) ==> match m {
            Special::Link(i, e, l) => 0 <= i < e <= t.len() && l.len() + 1 < e - i && l == t.subrange(
                i + 1,
                i + 1 + l.len(),
            ),
            Special::Autolink(i, e, u) => 0 <= i < e <= t.len() && u == t.subrange(i + 1, e - 1),
            Special::Delim(i, d) => 0 <= i && i + delim_text(d).len() <= t.len(),
        },
{
    lemma_next_delim_bounds(t);
    lemma_link_bounds(t, 0);
    lemma_autolink_bounds(t, 0);
}

/// Where collecting a mention's id from `j` ends: the text up to the next
/// `>` (nothing when there is none).
pub open spec fn collected(t: Seq<char>, j: int) -> Seq<char> {
    match char_from(t, '>', j) {
        Some(k) => t.subrange(j, k),
        None => Seq::empty(),
    }
}

/// Where scanning resumes after collecting from `j`: past the `>`, or at the end.
pub open spec fn after_collect(t: Seq<char>, j: int) -> int {
    match char_from(t, '>', j) {
        Some(k) => k + 1,
        None => t.len() as int,
    }
}

/// A channel mention: `#name` in the link colour.
pub open spec fn channel_span(a: &App, id: Seq<char>) -> SpanSpec {
    piece("#"@ + channel_name_of(a, id), fg_only(Tint::Link))
}

/// How a delimited run's inner spans are drawn.
pub open spec fn emphasized(st: SpanStyle, d: Delim) -> SpanStyle {
    match d {
        Delim::Bold => SpanStyle { bold: true, ..st },
        Delim::Under => SpanStyle { underlined: true, ..st },
        Delim::Strike => SpanStyle { crossed_out: true, ..st },
        Delim::Spoiler => SpanStyle { fg: Some(Tint::TextMuted), dim: true, ..st },
        Delim::Italic => SpanStyle { italic: true, ..st },
        Delim::Code => st,
    }
}

/// Spans with their styles changed by `f`.
pub open spec fn restyled(s: Seq<SpanSpec>, f: spec_fn(SpanStyle) -> SpanStyle) -> Seq<SpanSpec> {
    s.map_values(|p: SpanSpec| SpanSpec { style: f(p.style), ..p })
}

/// A code run: its text as written, on the code background.
pub open spec fn code_span(inner: Seq<char>) -> SpanSpec {
    piece(inner, SpanStyle { fg: Some(Tint::Text), bg: Some(Tint::BgTertiary), ..plain() })
}

/// The spans of a message's text: mentions, custom emoji and timestamps as
/// their own spans, the text between them through `segments`.
pub open spec fn msg_spans(a: &App, t: Seq<char>) -> Seq<SpanSpec>
    decreases t.len(), 2int, 0int,
{
    scan(a, t, 0, Seq::empty())
}

/// Scanning `t` from `i`, with `buf` the text seen since the last mention.
pub open spec fn scan(a: &App, t: Seq<char>, i: int, buf: Seq<char>) -> Seq<SpanSpec>
    decreases t.len(), 1int, t.len() - i,
{
    if buf.len() > t.len() || i < 0 {
        Seq::empty()
    } else if i >= t.len() {
        segments(a, buf, plain())
    } else if t[i] != '<' {
        scan(a, t, i + 1, buf.push(t[i]))
    } else {
        let c = at(t, i + 1);
        if c == Some('#') {
            let id = collected(t, i + 2);
            let nx = after_collect(t, i + 2);
            proof {
                lemma_char_from(t, '>', i + 2);
            }
            if id.len() > 0 {
                segments(a, buf, plain()) + seq![channel_span(a, id)] + scan(a, t, nx, Seq::empty())
            } else {
                scan(a, t, nx, buf + seq!['<', '#'])
            }
        } else if c == Some('@') {
            let role = at(t, i + 2) == Some('&');
            let nick = at(t, i + 2) == Some('!');
            let j = if role || nick {
                i + 3
            } else {
                i + 2
            };
            let id = collected(t, j);
            let nx = after_collect(t, j);
            proof {
                lemma_char_from(t, '>', j);
            }
            if id.len() > 0 {
                segments(a, buf, plain()) + seq![
                    if role {
                        role_span(a, id)
                    } else {
                        user_span(a, id)
                    },
                ] + scan(a, t, nx, Seq::empty())
            } else {
                scan(
                    a,
                    t,
                    nx,
                    buf + seq!['<', '@'] + (if role {
                        seq!['&']
                    } else {
                        Seq::empty()
                    }) + (if nick {
                        seq!['!']
                    } else {
                        Seq::empty()
                    }),
                )
            }
        } else if c == Some('t') {
            if at(t, i + 2) == Some(':') {
                let inner = collected(t, i + 3);
                let nx = after_collect(t, i + 3);
                proof {
                    lemma_char_from(t, '>', i + 3);
                }
                if inner.len() > 0 {
                    segments(a, buf, plain()) + seq![stamp_span(inner)] + scan(a, t, nx, Seq::empty())
                } else {
                    scan(a, t, nx, buf + seq!['<', 't', ':'])
                }
            } else {
                scan(a, t, i + 2, buf + seq!['<', 't'])
            }
        } else if c == Some(':') || c == Some('a') {
            if c == Some('a') && at(t, i + 2) != Some(':') {
                scan(a, t, i + 2, buf + seq!['<', 'a'])
            } else {
                let anim = c == Some('a');
                let j = if anim {
                    i + 3
                } else {
                    i + 2
                };
                let open = if anim {
                    seq!['<', 'a', ':']
                } else {
                    seq!['<', ':']
                };
                proof {
                    lemma_char_from(t, '>', j);
                }
                match char_from(t, '>', j) {
                    Some(k) => if contains(t.subrange(j, k), seq![':']) {
                        segments(a, buf, plain()) + seq![custom_emoji_span(t.subrange(j, k), anim)] + scan(
                            a,
                            t,
                            k + 1,
                            Seq::empty(),
                        )
                    } else {
                        scan(a, t, k + 1, buf + open + t.subrange(j, k))
                    },
                    None => scan(a, t, t.len() as int, buf + open + t.subrange(j, t.len() as int)),
                }
            }
        } else {
            scan(a, t, i + 1, buf.push('<'))
        }
    }
}

/// The spans of markup text `s` drawn over `base`: the text before the next
/// construct plain (see `text_spans`); a link's label parsed as a message and
/// drawn as a link; an autolink's address as a link; a delimited run's
/// inside parsed as a message and emphasized (a code run kept as written);
/// a delimiter without its closing one kept as text.
pub open spec fn segments(a: &App, s: Seq<char>, base: SpanStyle) -> Seq<SpanSpec>
    decreases s.len(), 0int, 0int,
{
    if s.len() == 0 {
        Seq::empty()
    } else {
        proof {
            lemma_next_special_bounds(s);
        }
        match next_special_spec(s) {
            None => text_spans(s, base),
            Some(m) => {
                let idx = special_start(m);
                let pre = if idx > 0 {
                    text_spans(s.take(idx), base)
                } else {
                    Seq::empty()
                };
                match m {
                    Special::Link(i, e, lab) => pre + restyled(
                        msg_spans(a, lab),
                        |st: SpanStyle| with_fg(st, Tint::Link),
                    ) + segments(a, s.skip(e), base),
                    Special::Autolink(i, e, u) => pre + seq![piece(u, with_fg(base, Tint::Link))] + segments(
                        a,
                        s.skip(e),
                        base,
                    ),
                    Special::Delim(i, d) => {
                        let n = delim_text(d).len();
                        let r2 = s.skip(i + n);
                        proof {
                            lemma_closing_star_bounds(r2, 0);
                            lemma_find_bounds(r2, delim_text(d));
                        }
                        let close = if d == Delim::Italic {
                            first_closing_star(r2, 0)
                        } else {
                            find(r2, delim_text(d))
                        };
                        match close {
                            None => pre + text_spans(delim_text(d), base) + segments(a, r2, base),
                            Some(c) => {
                                let inner = r2.take(c);
                                pre + (if d == Delim::Code {
                                    seq![code_span(inner)]
                                } else {
                                    restyled(msg_spans(a, inner), |st: SpanStyle| emphasized(st, d))
                                }) + segments(a, r2.skip(c + n), base)
                            },
                        }
                    },
                }
            },
        }
    }
}

pub proof fn lemma_appended_trans(a: Seq<StyledSpan>, b: Seq<StyledSpan>, c: Seq<StyledSpan>, x: Seq<SpanSpec>, y: Seq<SpanSpec>)
    requires
        appended(a, b, x),
        appended(b, c, y),
    ensures
        appended(a, c, x + y),
{
    assert(c.take(a.len() as int) =~= b.take(a.len() as int)) by {
        assert forall|k: int| 0 <= k < a.len() implies c.take(a.len() as int)[k] == b.take(a.len() as int)[k] by {
            assert(c.take(b.len() as int)[k] == b[k]);
        }
    }
    assert forall|i: int| 0 <= i < (x + y).len() implies span_ok(#[trigger] c[a.len() + i], (x + y)[i]) by {
        if i < x.len() {
            assert(c.take(b.len() as int)[a.len() + i] == b[a.len() + i]);
            assert(span_ok(b[a.len() + i], x[i]));
        } else {
            assert(span_ok(c[b.len() + (i - x.len())], y[i - x.len()]));
        }
    }
}

pub proof fn lemma_appended_nothing(a: Seq<StyledSpan>)
    ensures
        appended(a, a, Seq::empty()),
{
    assert(a.take(a.len() as int) =~= a);
}

proof fn lemma_last_index_ge(s: Seq<char>, c: char, j: int)
    requires
        0 <= j < s.len(),
        s[j] == c,
    ensures
        crate::media::last_index_of(s, c) >= j,
    decreases s.len(),
{
    if s.last() != c {
        lemma_last_index_ge(s.drop_last(), c, j);
    }
}

/// The length of a delimiter.
fn delim_len(d: Delim) -> (r: usize)
    ensures
        r == delim_text(d).len(),
        r >= 1,
{
    match d {
        Delim::Bold | Delim::Under | Delim::Strike | Delim::Spoiler => 2,
        Delim::Italic | Delim::Code => 1,
    }
}

fn delim_chars(d: Delim) -> (r: Vec<char>)
    ensures
        r@ == delim_text(d),
{
    match d {
        Delim::Bold => vec!['*', '*'],
        Delim::Italic => vec!['*'],
        Delim::Code => vec!['`'],
        Delim::Under => vec!['_', '_'],
        Delim::Strike => vec!['~', '~'],
        Delim::Spoiler => vec!['|', '|'],
    }
}

fn emphasize(st: SpanStyle, d: Delim) -> (r: SpanStyle)
    ensures
        r == emphasized(st, d),
{
    match d {
        Delim::Bold => SpanStyle { bold: true, ..st },
        Delim::Under => SpanStyle { underlined: true, ..st },
        Delim::Strike => SpanStyle { crossed_out: true, ..st },
        Delim::Spoiler => SpanStyle { fg: Some(Tint::TextMuted), dim: true, ..st },
        Delim::Italic => SpanStyle { italic: true, ..st },
        Delim::Code => st,
    }
}

/// Appends a parsed link label drawn as a link.
fn push_linked(spans: &mut Vec<StyledSpan>, inner: Vec<StyledSpan>, Ghost(desc): Ghost<Seq<SpanSpec>>)
    requires
        spans_match(inner@, desc),
    ensures
        appended(old(spans)@, final(spans)@, restyled(desc, |st: SpanStyle| with_fg(st, Tint::Link))),
{
    let ghost o = spans@;
    let ghost goal = restyled(desc, |st: SpanStyle| with_fg(st, Tint::Link));
    proof {
        lemma_appended_nothing(o);
    }
    let mut rest = inner;
    let ghost all = rest@;
    let total: usize = rest.len();
    let mut k: usize = 0;
    while rest.len() > 0
        invariant
            k + rest@.len() == all.len(),
            all.len() == total,
            all.len() == desc.len(),
            rest@ == all.skip(k as int),
            spans_match(all, desc),
            goal == restyled(desc, |st: SpanStyle| with_fg(st, Tint::Link)),
            appended(o, spans@, goal.take(k as int)),
        decreases rest@.len(),
    {
        let x = rest.remove(0);
        assert(x == all[k as int]);
        assert(rest@ =~= all.skip(k + 1));
        assert(span_ok(all[0 + k], desc[k as int]));
        let y = StyledSpan { text: x.text, style: SpanStyle { fg: Some(Tint::Link), ..x.style } };
        proof {
            lemma_push_one(o, spans@, y, goal.take(k as int), goal[k as int]);
            assert(goal.take(k as int).push(goal[k as int]) =~= goal.take(k + 1));
        }
        spans.push(y);
        k = k + 1;
    }
    assert(goal.take(k as int) =~= goal);
}

/// Appends the parsed inside of a delimited run, emphasized.
fn push_emphasized(spans: &mut Vec<StyledSpan>, inner: Vec<StyledSpan>, d: Delim, Ghost(desc): Ghost<Seq<SpanSpec>>)
    requires
        spans_match(inner@, desc),
    ensures
        appended(old(spans)@, final(spans)@, restyled(desc, |st: SpanStyle| emphasized(st, d))),
{
    let ghost o = spans@;
    let ghost goal = restyled(desc, |st: SpanStyle| emphasized(st, d));
    proof {
        lemma_appended_nothing(o);
    }
    let mut rest = inner;
    let ghost all = rest@;
    let total: usize = rest.len();
    let mut k: usize = 0;
    while rest.len() > 0
        invariant
            k + rest@.len() == all.len(),
            all.len() == total,
            all.len() == desc.len(),
            rest@ == all.skip(k as int),
            spans_match(all, desc),
            goal == restyled(desc, |st: SpanStyle| emphasized(st, d)),
            appended(o, spans@, goal.take(k as int)),
        decreases rest@.len(),
    {
        let x = rest.remove(0);
        assert(x == all[k as int]);
        assert(rest@ =~= all.skip(k + 1));
        assert(span_ok(all[0 + k], desc[k as int]));
        let y = StyledSpan { text: x.text, style: emphasize(x.style, d) };
        proof {
            lemma_push_one(o, spans@, y, goal.take(k as int), goal[k as int]);
            assert(goal.take(k as int).push(goal[k as int]) =~= goal.take(k + 1));
        }
        spans.push(y);
        k = k + 1;
    }
    assert(goal.take(k as int) =~= goal);
}

pub fn push_spec(spans: &mut Vec<StyledSpan>, x: StyledSpan, Ghost(p): Ghost<SpanSpec>)
    requires
        span_ok(x, p),
    ensures
        appended(old(spans)@, final(spans)@, seq![p]),
{
    let ghost o = spans@;
    proof {
        lemma_appended_nothing(o);
        lemma_push_one(o, o, x, Seq::empty(), p);
        assert(Seq::<SpanSpec>::empty().push(p) =~= seq![p]);
    }
    spans.push(x);
}

/// Handles the construct `m` found first in `rest` (after the plain text
/// before it): appends its spans and returns the text after it, with the
/// spans appended so far.
#[verifier::rlimit(40)]
fn segment_step(rest: &Vec<char>, m: SpecialMatch, spans: &mut Vec<StyledSpan>, app: &App, base: SpanStyle, Ghost(bound): Ghost<int>) -> (r: (
    Vec<char>,
    Ghost<Seq<SpanSpec>>,
))
    requires
        rest@.len() > 0,
        rest@.len() <= bound,
        next_special_spec(rest@) == Some(special_view(m)),
    ensures
        appended(old(spans)@, final(spans)@, r.1@),
        segments(app, rest@, base) == r.1@ + segments(app, r.0@, base),
        r.0@.len() < rest@.len(),
    decreases bound, 1int, 0int,
{
    let ghost r0 = rest@;
    let ghost o = spans@;
    let _n = rest.len();
    proof {
        lemma_next_special_bounds(r0);
    }
    let idx = m.idx();
    let ghost pre = if idx > 0 {
        text_spans(r0.take(idx as int), base)
    } else {
        Seq::empty()
    };
    if idx > 0 {
        let head = crate::text::slice_chars(rest, 0, idx);
        assert(head@ =~= r0.take(idx as int));
        flush_text_with_emoji_str(&head, spans, base);
    } else {
        proof {
            lemma_appended_nothing(spans@);
        }
    }
    let ghost mid = spans@;
    match m {
        SpecialMatch::Link { idx, end, label } => {
            let inner = parse_chars(&label, app);
            push_linked(spans, inner, Ghost(msg_spans(app, label@)));
            let ghost add = restyled(msg_spans(app, label@), |st: SpanStyle| with_fg(st, Tint::Link));
            proof {
                lemma_appended_trans(o, mid, spans@, pre, add);
            }
            let next = crate::text::slice_chars(rest, end, rest.len());
            assert(next@ =~= r0.skip(end as int));
            (next, Ghost(pre + add))
        },
        SpecialMatch::Autolink { idx, end, url } => {
            let ghost p = piece(url@, with_fg(base, Tint::Link));
            push_spec(
                spans,
                StyledSpan { text: string_of(url.as_slice()), style: SpanStyle { fg: Some(Tint::Link), ..base } },
                Ghost(p),
            );
            proof {
                lemma_appended_trans(o, mid, spans@, pre, seq![p]);
            }
            let next = crate::text::slice_chars(rest, end, rest.len());
            assert(next@ =~= r0.skip(end as int));
            (next, Ghost(pre + seq![p]))
        },
        SpecialMatch::Delim { idx, delim } => {
            let n = delim_len(delim);
            let r2 = crate::text::slice_chars(rest, idx + n, rest.len());
            assert(r2@ =~= r0.skip(idx + n));
            proof {
                lemma_closing_star_bounds(r2@, 0);
                crate::text::lemma_find_bounds(r2@, delim_text(delim));
            }
            let close = if delim == Delim::Italic {
                find_matching_italic_close(&r2)
            } else {
                find_delim(&r2, delim)
            };
            match close {
                None => {
                    let dc = delim_chars(delim);
                    flush_text_with_emoji_str(&dc, spans, base);
                    proof {
                        lemma_appended_trans(o, mid, spans@, pre, text_spans(delim_text(delim), base));
                    }
                    (r2, Ghost(pre + text_spans(delim_text(delim), base)))
                },
                Some(c) => {
                    let inner = crate::text::slice_chars(&r2, 0, c);
                    assert(inner@ =~= r2@.take(c as int));
                    let ghost add = if delim == Delim::Code {
                        seq![code_span(inner@)]
                    } else {
                        restyled(msg_spans(app, inner@), |st: SpanStyle| emphasized(st, delim))
                    };
                    if delim == Delim::Code {
                        let sp = StyledSpan {
                            text: string_of(inner.as_slice()),
                            style: SpanStyle { fg: Some(Tint::Text), bg: Some(Tint::BgTertiary), ..plain_style() },
                        };
                        push_spec(spans, sp, Ghost(code_span(inner@)));
                    } else {
                        let sp = parse_chars(&inner, app);
                        push_emphasized(spans, sp, delim, Ghost(msg_spans(app, inner@)));
                    }
                    proof {
                        lemma_appended_trans(o, mid, spans@, pre, add);
                    }
                    let next = crate::text::slice_chars(&r2, c + n, r2.len());
                    assert(next@ =~= r2@.skip(c + n));
                    (next, Ghost(pre + add))
                },
            }
        },
    }
}

/// Appends the spans of markup text; see `segments`.
pub fn parse_markdown_segments(text: &Vec<char>, spans: &mut Vec<StyledSpan>, app: &App, base: SpanStyle)
    ensures
        appended(old(spans)@, final(spans)@, segments(app, text@, base)),
    decreases text@.len(), 2int, 0int,
{
    let ghost o = spans@;
    let ghost done: Seq<SpanSpec> = Seq::empty();
    proof {
        lemma_appended_nothing(o);
    }
    let mut rest = crate::text::slice_chars(text, 0, text.len());
    assert(rest@ =~= text@);
    while rest.len() > 0
        invariant
            rest@.len() <= text@.len(),
            o == old(spans)@,
            appended(o, spans@, done),
            done + segments(app, rest@, base) == segments(app, text@, base),
        decreases rest@.len(),
    {
        let ghost before = spans@;
        let ghost r0 = rest@;
        match next_special(&rest) {
            Some(m) => {
                let (next, Ghost(add)) = segment_step(&rest, m, spans, app, base, Ghost(text@.len() as int));
                proof {
                    lemma_appended_trans(o, before, spans@, done, add);
                    assert(done + segments(app, r0, base) =~= done + add + segments(app, next@, base));
                    done = done + add;
                }
                rest = next;
            },
            None => {
                flush_text_with_emoji_str(&rest, spans, base);
                proof {
                    lemma_appended_trans(o, before, spans@, done, text_spans(r0, base));
                    assert(segments(app, r0, base) == text_spans(r0, base));
                    assert(done + text_spans(r0, base) == segments(app, text@, base));
                    assert(appended(o, spans@, segments(app, text@, base)));
                }
                return;
            },
        }
    }
    proof {
        assert(done + segments(app, rest@, base) =~= done);
    }
}

/// The id text from `j` up to the next `>`, and where scanning resumes.
pub fn collect_until_close(t: &Vec<char>, j: usize) -> (r: (Vec<char>, usize))
    ensures
        r.0@ == collected(t@, j as int),
        r.1 as int == after_collect(t@, j as int),
{
    proof {
        lemma_char_from(t@, '>', j as int);
    }
    let _n = t.len();
    match char_from_exec(t, '>', j) {
        Some(k) => (copy_range(t, j, k), k + 1),
        None => (Vec::new(), t.len()),
    }
}

fn append_chars(buf: &mut Vec<char>, s: &Vec<char>)
    ensures
        final(buf)@ == old(buf)@ + s@,
{
    let mut i: usize = 0;
    while i < s.len()
        invariant
            i <= s@.len(),
            buf@ == old(buf)@ + s@.take(i as int),
        decreases s@.len() - i,
    {
        buf.push(s[i]);
        assert(s@.take(i + 1) =~= s@.take(i as int).push(s@[i as int]));
        i = i + 1;
    }
    assert(s@.take(s@.len() as int) =~= s@);
}

/// Flushes the text seen so far and appends a mention's span.
fn flush_then(buf: &mut Vec<char>, spans: &mut Vec<StyledSpan>, app: &App, x: StyledSpan, Ghost(p): Ghost<SpanSpec>, Ghost(bound): Ghost<int>)
    requires
        span_ok(x, p),
        old(buf)@.len() <= bound,
    ensures
        appended(old(spans)@, final(spans)@, segments(app, old(buf)@, plain()) + seq![p]),
        final(buf)@.len() == 0,
    decreases bound, 2int, 1int,
{
    let ghost o = spans@;
    parse_markdown_segments(buf, spans, app, plain_style());
    let ghost mid = spans@;
    push_spec(spans, x, Ghost(p));
    proof {
        lemma_appended_trans(o, mid, spans@, segments(app, old(buf)@, plain()), seq![p]);
    }
    *buf = Vec::new();
}

/// Handles a `<` at `i`: a mention, a custom emoji or a timestamp, or plain
/// text; returns where scanning resumes and the spans appended.
#[verifier::rlimit(60)]
fn scan_angle(t: &Vec<char>, i: usize, buf: &mut Vec<char>, spans: &mut Vec<StyledSpan>, app: &App) -> (r: (
    usize,
    Ghost<Seq<SpanSpec>>,
))
    requires
        i < t@.len(),
        t@[i as int] == '<',
        old(buf)@.len() <= i,
    ensures
        i < r.0 <= t@.len(),
        final(buf)@.len() <= r.0,
        appended(old(spans)@, final(spans)@, r.1@),
        scan(app, t@, i as int, old(buf)@) == r.1@ + scan(app, t@, r.0 as int, final(buf)@),
    decreases t@.len(), 2int, 2int,
{
    let ghost b0 = buf@;
    let ghost tv = t@;
    let _n = t.len();
    proof {
        lemma_appended_nothing(spans@);
    }
    let c = char_at(t, i + 1);
    if c == Some('#') {
        proof {
            lemma_char_from(tv, '>', i + 2);
        }
        let (id, nx) = collect_until_close(t, i + 2);
        if id.len() > 0 {
            let name = app.resolve_channel_name(string_of(id.as_slice()).as_str());
            let x = StyledSpan { text: concat("#", name.as_str()), style: fg_style(Tint::Link) };
            let ghost p = channel_span(app, id@);
            flush_then(buf, spans, app, x, Ghost(p), Ghost(tv.len() as int));
            proof {
                assert(buf@ =~= Seq::<char>::empty());
            }
            (nx, Ghost(segments(app, b0, plain()) + seq![p]))
        } else {
            buf.push('<');
            buf.push('#');
            assert(buf@ =~= b0 + seq!['<', '#']);
            (nx, Ghost(Seq::empty()))
        }
    } else if c == Some('@') {
        let role = char_at(t, i + 2) == Some('&');
        let nick = char_at(t, i + 2) == Some('!');
        let j = if role || nick {
            i + 3
        } else {
            i + 2
        };
        proof {
            lemma_char_from(tv, '>', j as int);
        }
        let (id, nx) = collect_until_close(t, j);
        if id.len() > 0 {
            let ids = string_of(id.as_slice());
            let ghost p = if role {
                role_span(app, id@)
            } else {
                user_span(app, id@)
            };
            let x = if role {
                app.role_mention_span(ids.as_str())
            } else {
                app.user_mention_span(ids.as_str())
            };
            flush_then(buf, spans, app, x, Ghost(p), Ghost(tv.len() as int));
            proof {
                assert(buf@ =~= Seq::<char>::empty());
            }
            (nx, Ghost(segments(app, b0, plain()) + seq![p]))
        } else {
            buf.push('<');
            buf.push('@');
            if role {
                buf.push('&');
            }
            if nick {
                buf.push('!');
            }
            assert(buf@ =~= b0 + seq!['<', '@'] + (if role {
                seq!['&']
            } else {
                Seq::empty()
            }) + (if nick {
                seq!['!']
            } else {
                Seq::empty()
            }));
            (nx, Ghost(Seq::empty()))
        }
    } else if c == Some('t') {
        if char_at(t, i + 2) == Some(':') {
            proof {
                lemma_char_from(tv, '>', i + 3);
            }
            let (inner, nx) = collect_until_close(t, i + 3);
            if inner.len() > 0 {
                let ins = string_of(inner.as_slice());
                let x = StyledSpan { text: format_discord_timestamp(ins.as_str()), style: fg_style(Tint::TextDim) };
                let ghost p = stamp_span(inner@);
                flush_then(buf, spans, app, x, Ghost(p), Ghost(tv.len() as int));
                proof {
                    assert(buf@ =~= Seq::<char>::empty());
                }
                (nx, Ghost(segments(app, b0, plain()) + seq![p]))
            } else {
                buf.push('<');
                buf.push('t');
                buf.push(':');
                assert(buf@ =~= b0 + seq!['<', 't', ':']);
                (nx, Ghost(Seq::empty()))
            }
        } else {
            buf.push('<');
            buf.push('t');
            assert(buf@ =~= b0 + seq!['<', 't']);
            (i + 2, Ghost(Seq::empty()))
        }
    } else if c == Some(':') || c == Some('a') {
        if c == Some('a') && char_at(t, i + 2) != Some(':') {
            buf.push('<');
            buf.push('a');
            assert(buf@ =~= b0 + seq!['<', 'a']);
            return (i + 2, Ghost(Seq::empty()));
        }
        let anim = c == Some('a');
        let j = if anim {
            i + 3
        } else {
            i + 2
        };
        proof {
            lemma_char_from(tv, '>', j as int);
        }
        let ghost open = if anim {
            seq!['<', 'a', ':']
        } else {
            seq!['<', ':']
        };
        match char_from_exec(t, '>', j) {
            Some(k) => {
                let inner = copy_range(t, j, k);
                let colon_pat = vec![':'];
                assert(colon_pat@ =~= seq![':']);
                let colon = crate::text::contains_exec(&inner, &colon_pat);
                if colon {
                    proof {
                        crate::text::lemma_find_bounds(inner@, colon_pat@);
                        let q = crate::text::find(inner@, colon_pat@)->0;
                        assert(crate::text::matches_at(inner@, colon_pat@, q));
                        assert(inner@.subrange(q, q + 1)[0] == inner@[q]);
                        lemma_last_index_ge(inner@, ':', q);
                    }
                    let x = custom_emoji(&inner, anim);
                    let ghost p = custom_emoji_span(inner@, anim);
                    flush_then(buf, spans, app, x, Ghost(p), Ghost(tv.len() as int));
                    proof {
                        assert(buf@ =~= Seq::<char>::empty());
                    }
                    (k + 1, Ghost(segments(app, b0, plain()) + seq![p]))
                } else {
                    buf.push('<');
                    if anim {
                        buf.push('a');
                    }
                    buf.push(':');
                    assert(buf@ =~= b0 + open);
                    append_chars(buf, &inner);
                    (k + 1, Ghost(Seq::empty()))
                }
            },
            None => {
                let inner = copy_range(t, j, t.len());
                buf.push('<');
                if anim {
                    buf.push('a');
                }
                buf.push(':');
                assert(buf@ =~= b0 + open);
                append_chars(buf, &inner);
                (t.len(), Ghost(Seq::empty()))
            },
        }
    } else {
        buf.push('<');
        (i + 1, Ghost(Seq::empty()))
    }
}

/// The spans of a message's text, on characters; see `msg_spans`.
fn parse_chars(t: &Vec<char>, app: &App) -> (r: Vec<StyledSpan>)
    ensures
        spans_match(r@, msg_spans(app, t@)),
    decreases t@.len(), 3int, 0int,
{
    let mut spans: Vec<StyledSpan> = Vec::new();
    let mut buf: Vec<char> = Vec::new();
    let ghost done: Seq<SpanSpec> = Seq::empty();
    proof {
        lemma_appended_nothing(spans@);
    }
    let mut i: usize = 0;
    while i < t.len()
        invariant
            i <= t@.len(),
            buf@.len() <= i,
            appended(Seq::empty(), spans@, done),
            done + scan(app, t@, i as int, buf@) == msg_spans(app, t@),
        decreases t@.len() - i,
    {
        let ghost before = spans@;
        if t[i] != '<' {
            buf.push(t[i]);
            i = i + 1;
        } else {
            let (nx, Ghost(add)) = scan_angle(t, i, &mut buf, &mut spans, app);
            proof {
                lemma_appended_trans(Seq::empty(), before, spans@, done, add);
                done = done + add;
            }
            i = nx;
        }
    }
    let ghost before = spans@;
    parse_markdown_segments(&buf, &mut spans, app, plain_style());
    proof {
        lemma_appended_trans(Seq::empty(), before, spans@, done, segments(app, buf@, plain()));
    }
    spans
}

/// The spans of a message's text; see `msg_spans`.
pub fn parse_message_spans(text: &str, app: &App) -> (r: Vec<StyledSpan>)
    ensures
        spans_match(r@, msg_spans(app, text@)),
{
    parse_chars(&chars_of(text), app)
}

} // verus!
