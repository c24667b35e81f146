//! Line-level message markup: `:::` admonition fences, block quotes with
//! call-outs, `-#` subtext and `#` headings, each line's text going through
//! the span parser.
use crate::app::App;
use crate::markdown::{
    appended, char_from, fg_only, fg_style, lemma_appended_nothing, lemma_appended_trans,
    lemma_char_from, lemma_push_one, msg_spans, parse_message_spans, piece, plain, plain_style,
    push_spec, restyled, span_ok, spans_match, SpanSpec, SpanStyle, StyledSpan, Tint,
};
use crate::media::{ascii_lower, char_to_ascii_lowercase};
use crate::text::{
    chars_of, contains, lead_ws, lemma_lead_ws_bounds, leading_ws_len, owned, slice_chars,
    starts_with, string_of, to_uppercase, trim, trim_chars, trim_start, trim_start_chars, uppercase,
};
use vstd::prelude::*;

verus! {

/// The kind of a `:::` fence or of a block quote call-out.
#[derive(Debug, Clone, Copy, PartialEq, Eq, Structural)]
pub enum Admonition {
    Warning,
    Important,
    Note,
}

/// Whether `h` starts with `p`, ignoring ASCII case.
pub open spec fn starts_ic_spec(h: Seq<char>, p: Seq<char>) -> bool {
    h.len() >= p.len() && forall|i: int| 0 <= i < p.len() ==> ascii_lower(#[trigger] h[i]) == ascii_lower(p[i])
}

/// Whether `h` starts with `p`, ignoring ASCII case; see `starts_ic_spec`.
pub fn starts_ic(haystack: &Vec<char>, pat: &str) -> (r: bool)
    ensures
        r == starts_ic_spec(haystack@, pat@),
{
    let p = chars_of(pat);
    if haystack.len() < p.len() {
        return false;
    }
    let mut i: usize = 0;
    while i < p.len()
        invariant
            i <= p@.len() <= haystack@.len(),
            p@ == pat@,
            forall|k: int| 0 <= k < i ==> ascii_lower(#[trigger] haystack@[k]) == ascii_lower(p@[k]),
        decreases p@.len() - i,
    {
        if char_to_ascii_lowercase(haystack[i]) != char_to_ascii_lowercase(p[i]) {
            return false;
        }
        i = i + 1;
    }
    true
}

/// The kind a `:::` line opens: after `:::`, trimmed and in ASCII lowercase,
/// `warning`/`warn`, `important`/`caution` or `note`/`info`.
pub open spec fn admonition_of(t: Seq<char>) -> Option<Admonition> {
    if !starts_with(t, ":::"@) {
        None
    } else {
        let rest = trim(t.skip(3));
        let low = rest.map_values(|c: char| ascii_lower(c));
        if rest.len() == 0 {
            None
        } else if low == "warning"@ || low == "warn"@ {
            Some(Admonition::Warning)
        } else if low == "important"@ || low == "caution"@ {
            Some(Admonition::Important)
        } else if low == "note"@ || low == "info"@ {
            Some(Admonition::Note)
        } else {
            None
        }
    }
}

fn lowered(s: &Vec<char>) -> (r: String)
    ensures
        r@ == s@.map_values(|c: char| ascii_lower(c)),
{
    let mut out: Vec<char> = Vec::new();
    let mut i: usize = 0;
    while i < s.len()
        invariant
            i <= s@.len(),
            out@ == s@.take(i as int).map_values(|c: char| ascii_lower(c)),
        decreases s@.len() - i,
    {
        out.push(char_to_ascii_lowercase(s[i]));
        assert(out@ =~= s@.take(i + 1).map_values(|c: char| ascii_lower(c)));
        i = i + 1;
    }
    assert(s@.take(s@.len() as int) =~= s@);
    string_of(out.as_slice())
}

/// The kind a `:::` line opens; see `admonition_of`.
pub fn parse_admonition_open(trimmed: &Vec<char>) -> (r: Option<Admonition>)
    ensures
        r == admonition_of(trimmed@),
{
    proof {
        reveal_strlit(":::");
    }
    let fence = chars_of(":::");
    if !crate::text::starts_with_exec(trimmed, &fence) {
        return None;
    }
    let rest = trim_chars(&slice_chars(trimmed, 3, trimmed.len()));
    assert(trimmed@.subrange(3, trimmed@.len() as int) =~= trimmed@.skip(3));
    if rest.len() == 0 {
        return None;
    }
    let low = lowered(&rest);
    let l = low.as_str();
    if crate::text::str_eq(l, "warning") || crate::text::str_eq(l, "warn") {
        Some(Admonition::Warning)
    } else if crate::text::str_eq(l, "important") || crate::text::str_eq(l, "caution") {
        Some(Admonition::Important)
    } else if crate::text::str_eq(l, "note") || crate::text::str_eq(l, "info") {
        Some(Admonition::Note)
    } else {
        None
    }
}

/// The call-out a quote's body starts with (ignoring ASCII case):
/// `[!WARNING]` or `**WARNING`; `[!IMPORTANT]`, `**IMPORTANT` or
/// `IMPORTANT:`; `[!NOTE]`, `**NOTE` or `NOTE:`.
pub open spec fn callout_of(body: Seq<char>) -> Option<Admonition> {
    let t = trim_start(body);
    if starts_ic_spec(t, "[!WARNING]"@) || starts_ic_spec(t, "**WARNING"@) {
        Some(Admonition::Warning)
    } else if starts_ic_spec(t, "[!IMPORTANT]"@) || starts_ic_spec(t, "**IMPORTANT"@) || starts_ic_spec(
        t,
        "IMPORTANT:"@,
    ) {
        Some(Admonition::Important)
    } else if starts_ic_spec(t, "[!NOTE]"@) || starts_ic_spec(t, "**NOTE"@) || starts_ic_spec(t, "NOTE:"@) {
        Some(Admonition::Note)
    } else {
        None
    }
}

/// The call-out a quote's body starts with; see `callout_of`.
pub fn detect_quote_callout(body: &Vec<char>) -> (r: Option<Admonition>)
    ensures
        r == callout_of(body@),
{
    let t = trim_start_chars(body);
    if starts_ic(&t, "[!WARNING]") || starts_ic(&t, "**WARNING") {
        Some(Admonition::Warning)
    } else if starts_ic(&t, "[!IMPORTANT]") || starts_ic(&t, "**IMPORTANT") || starts_ic(&t, "IMPORTANT:") {
        Some(Admonition::Important)
    } else if starts_ic(&t, "[!NOTE]") || starts_ic(&t, "**NOTE") || starts_ic(&t, "NOTE:") {
        Some(Admonition::Note)
    } else {
        None
    }
}

/// The tags a call-out is written with, tried in order.
pub open spec fn callout_tags(k: Admonition) -> Seq<Seq<char>> {
    match k {
        Admonition::Warning => seq!["[!WARNING]"@, "**WARNING:**"@, "**WARNING**"@],
        Admonition::Important => seq!["[!IMPORTANT]"@, "**IMPORTANT:**"@, "**IMPORTANT**"@, "IMPORTANT:"@],
        Admonition::Note => seq!["[!NOTE]"@, "**NOTE:**"@, "**NOTE**"@, "NOTE:"@],
    }
}

/// The body after the first tag (from `k` on) it starts with, ignoring
/// ASCII case, and the whitespace after it; the body as it is without one.
pub open spec fn untagged_from(t: Seq<char>, tags: Seq<Seq<char>>, k: int) -> Seq<char>
    decreases tags.len() - k,
{
    if k < 0 || k >= tags.len() {
        t
    } else if starts_ic_spec(t, tags[k]) {
        trim_start(t.skip(tags[k].len() as int))
    } else {
        untagged_from(t, tags, k + 1)
    }
}

/// A quote's body without its call-out tag; see `untagged_from`.
pub open spec fn untagged(body: Seq<char>, k: Admonition) -> Seq<char> {
    untagged_from(trim_start(body), callout_tags(k), 0)
}

fn tag_at(k: Admonition, i: usize) -> (r: &'static str)
    requires
        i < callout_tags(k).len(),
    ensures
        r@ == callout_tags(k)[i as int],
{
    match k {
        Admonition::Warning => if i == 0 {
            "[!WARNING]"
        } else if i == 1 {
            "**WARNING:**"
        } else {
            "**WARNING**"
        },
        Admonition::Important => if i == 0 {
            "[!IMPORTANT]"
        } else if i == 1 {
            "**IMPORTANT:**"
        } else if i == 2 {
            "**IMPORTANT**"
        } else {
            "IMPORTANT:"
        },
        Admonition::Note => if i == 0 {
            "[!NOTE]"
        } else if i == 1 {
            "**NOTE:**"
        } else if i == 2 {
            "**NOTE**"
        } else {
            "NOTE:"
        },
    }
}

fn tag_count(k: Admonition) -> (r: usize)
    ensures
        r == callout_tags(k).len(),
{
    match k {
        Admonition::Warning => 3,
        _ => 4,
    }
}

/// A quote's body without its call-out tag; see `untagged`.
pub fn strip_callout_tag(body: &Vec<char>, kind: Admonition) -> (r: Vec<char>)
    ensures
        r@ == untagged(body@, kind),
{
    let t = trim_start_chars(body);
    let n = tag_count(kind);
    let mut i: usize = 0;
    while i < n
        invariant
            i <= n == callout_tags(kind).len(),
            t@ == trim_start(body@),
            untagged(body@, kind) == untagged_from(t@, callout_tags(kind), i as int),
        decreases n - i,
    {
        let p = tag_at(kind, i);
        if starts_ic(&t, p) {
            let pl = chars_of(p).len();
            let rest = slice_chars(&t, pl, t.len());
            assert(rest@ =~= t@.skip(pl as int));
            return trim_start_chars(&rest);
        }
        i = i + 1;
    }
    t
}

/// A line's leading whitespace and the rest of it.
pub fn split_leading_ws(s: &Vec<char>) -> (r: (Vec<char>, Vec<char>))
    ensures
        r.0@ == s@.take(lead_ws(s@)),
        r.1@ == trim_start(s@),
{
    proof {
        lemma_lead_ws_bounds(s@);
    }
    let n = leading_ws_len(s);
    (slice_chars(s, 0, n), slice_chars(s, n, s.len()))
}

/// A block quote's body: after leading whitespace and `>`, without one space after it.
pub open spec fn quote_body(s: Seq<char>) -> Option<Seq<char>> {
    let t = trim_start(s);
    if t.len() == 0 || t[0] != '>' {
        None
    } else {
        let after = t.skip(1);
        Some(
            if after.len() > 0 && after[0] == ' ' {
                after.skip(1)
            } else {
                after
            },
        )
    }
}

/// A block quote's marker and body; see `quote_body`.
pub fn strip_blockquote(s: &Vec<char>) -> (r: Option<(&'static str, Vec<char>)>)
    ensures
        match (r, quote_body(s@)) {
            (Some((m, b)), Some(q)) => m@ == "> "@ && b@ == q,
            (None, None) => true,
            _ => false,
        },
{
    let t = trim_start_chars(s);
    if t.len() == 0 || t[0] != '>' {
        return None;
    }
    let from: usize = if t.len() > 1 && t[1] == ' ' {
        2
    } else {
        1
    };
    let b = slice_chars(&t, from, t.len());
    proof {
        let after = t@.skip(1);
        if after.len() > 0 && after[0] == ' ' {
            assert(b@ =~= after.skip(1));
        } else {
            assert(b@ =~= after);
        }
    }
    Some(("> ", b))
}

/// A heading line's level (one to three `#`) and text: the `#`s must be
/// followed by a space, which is dropped.
pub open spec fn heading_of(s: Seq<char>) -> Option<(int, Seq<char>)> {
    let n = if s.len() > 0 && s[0] == '#' {
        if s.len() > 1 && s[1] == '#' {
            if s.len() > 2 && s[2] == '#' {
                3int
            } else {
                2
            }
        } else {
            1
        }
    } else {
        0
    };
    if n == 0 || !(s.len() > n && s[n] == ' ') {
        None
    } else {
        Some((n, s.skip(n + 1)))
    }
}

/// A heading line's level and text; see `heading_of`.
pub fn strip_atx_heading(s: &Vec<char>) -> (r: Option<(usize, Vec<char>)>)
    ensures
        match (r, heading_of(s@)) {
            (Some((n, b)), Some((m, c))) => n == m && b@ == c,
            (None, None) => true,
            _ => false,
        },
{
    let mut n: usize = 0;
    while n < s.len() && n < 3 && s[n] == '#'
        invariant
            n <= 3,
            n <= s@.len(),
            forall|k: int| 0 <= k < n ==> s@[k] == '#',
        decreases 3 - n,
    {
        n = n + 1;
    }
    if n == 0 || !(s.len() > n && s[n] == ' ') {
        return None;
    }
    let b = slice_chars(s, n + 1, s.len());
    assert(b@ =~= s@.skip(n + 1));
    Some((n, b))
}

/// The colour that marks a kind: red for warnings, the accent for
/// important notes, dim text for notes.
pub open spec fn kind_tint(k: Admonition) -> Tint {
    match k {
        Admonition::Warning => Tint::Danger,
        Admonition::Important => Tint::Accent,
        Admonition::Note => Tint::TextDim,
    }
}

/// The bar colour of a call-out: as its kind, but notes in the voice colour.
pub open spec fn callout_tint(k: Admonition) -> Tint {
    match k {
        Admonition::Warning => Tint::Danger,
        Admonition::Important => Tint::Accent,
        Admonition::Note => Tint::Voice,
    }
}

/// The line that opens a fence: its kind's name between heavy rules, in bold.
pub open spec fn title_row(k: Admonition) -> Seq<SpanSpec> {
    let label = match k {
        Admonition::Warning => " WARNING "@,
        Admonition::Important => " IMPORTANT "@,
        Admonition::Note => " NOTE "@,
    };
    seq![piece("━━"@ + label + "━━"@, SpanStyle { fg: Some(kind_tint(k)), bold: true, ..plain() })]
}

/// The badge of a call-out: its name on its colour, in black and bold.
pub open spec fn badge(k: Admonition) -> SpanSpec {
    match k {
        Admonition::Warning => piece(
            " ! WARNING "@,
            SpanStyle { fg: Some(Tint::Black), bg: Some(Tint::Danger), bold: true, ..plain() },
        ),
        Admonition::Important => piece(
            " ! IMPORTANT "@,
            SpanStyle { fg: Some(Tint::Black), bg: Some(Tint::Accent), bold: true, ..plain() },
        ),
        Admonition::Note => piece(
            " NOTE "@,
            SpanStyle { fg: Some(Tint::Black), bg: Some(Tint::TextDim), bold: true, ..plain() },
        ),
    }
}

/// The base style of a call-out's text: bold, in the accent for important notes.
pub open spec fn callout_base(k: Admonition) -> SpanStyle {
    match k {
        Admonition::Important => SpanStyle { fg: Some(Tint::Accent), bold: true, ..plain() },
        _ => SpanStyle { fg: Some(Tint::Text), bold: true, ..plain() },
    }
}

/// A style drawn over a base: its colours where it has them, the attributes of both.
pub open spec fn patched_style(base: SpanStyle, s: SpanStyle) -> SpanStyle {
    SpanStyle {
        fg: if s.fg is Some {
            s.fg
        } else {
            base.fg
        },
        bg: if s.bg is Some {
            s.bg
        } else {
            base.bg
        },
        bold: base.bold || s.bold,
        italic: base.italic || s.italic,
        underlined: base.underlined || s.underlined,
        crossed_out: base.crossed_out || s.crossed_out,
        dim: base.dim || s.dim,
    }
}

/// A span's style laid over a base style; see `patched_style`.
pub fn patch_style(base: SpanStyle, s: SpanStyle) -> (r: SpanStyle)
    ensures
        r == patched_style(base, s),
{
    SpanStyle {
        fg: if s.fg.is_some() {
            s.fg
        } else {
            base.fg
        },
        bg: if s.bg.is_some() {
            s.bg
        } else {
            base.bg
        },
        bold: base.bold || s.bold,
        italic: base.italic || s.italic,
        underlined: base.underlined || s.underlined,
        crossed_out: base.crossed_out || s.crossed_out,
        dim: base.dim || s.dim,
    }
}

/// The accent of a plain quote, from its upper-cased start: a warning, an
/// important note or a note (as a bold word, a word, or a `[!...]` tag anywhere).
pub open spec fn quote_tint(body: Seq<char>) -> Option<Tint> {
    let u = uppercase(trim_start(body));
    if starts_with(u, "**WARNING"@) || starts_with(u, "WARNING"@) || contains(u, "[!WARNING]"@) {
        Some(Tint::Danger)
    } else if starts_with(u, "**IMPORTANT"@) || starts_with(u, "IMPORTANT"@) || contains(u, "[!IMPORTANT]"@) {
        Some(Tint::Accent)
    } else if starts_with(u, "**NOTE"@) || starts_with(u, "NOTE"@) || contains(u, "[!NOTE]"@) {
        Some(Tint::Voice)
    } else {
        None
    }
}

/// The accent of a plain quote; see `quote_tint`.
pub fn quote_accent_color(body: &Vec<char>) -> (r: Option<Tint>)
    ensures
        r == quote_tint(body@),
{
    let u = to_uppercase(string_of(trim_start_chars(body).as_slice()).as_str());
    let us = u.as_str();
    if crate::text::str_starts_with(us, "**WARNING") || crate::text::str_starts_with(us, "WARNING")
        || crate::text::str_contains(us, "[!WARNING]") {
        Some(Tint::Danger)
    } else if crate::text::str_starts_with(us, "**IMPORTANT") || crate::text::str_starts_with(us, "IMPORTANT")
        || crate::text::str_contains(us, "[!IMPORTANT]") {
        Some(Tint::Accent)
    } else if crate::text::str_starts_with(us, "**NOTE") || crate::text::str_starts_with(us, "NOTE")
        || crate::text::str_contains(us, "[!NOTE]") {
        Some(Tint::Voice)
    } else {
        None
    }
}

/// `n` hash signs.
pub open spec fn hashes(n: int) -> Seq<char> {
    Seq::new(n as nat, |i: int| '#')
}

/// A line's text after any quote marker: `-#` subtext, a heading, or plain.
pub open spec fn after_quote(a: &App, r: Seq<char>) -> Seq<SpanSpec> {
    if starts_with(r, "-# "@) {
        seq![piece("-# "@, SpanStyle { fg: Some(Tint::TextMuted), italic: true, ..plain() })] + msg_spans(a, r.skip(3))
    } else {
        match heading_of(r) {
            Some((n, body)) => seq![piece(hashes(n) + " "@, SpanStyle { fg: Some(Tint::Accent), bold: true, ..plain() })]
                + msg_spans(a, body),
            None => msg_spans(a, r),
        }
    }
}

/// The spans of one line of a message: the fence's bar when inside one,
/// the line's indentation, then a quote (a call-out with its badge and bold
/// text, or a plain quote marker in its accent) and the rest of the line.
pub open spec fn line_spans(a: &App, line: Seq<char>, bar: Option<Tint>) -> Seq<SpanSpec> {
    let bar_part = match bar {
        Some(c) => seq![piece("┃ "@, fg_only(c))],
        None => Seq::empty(),
    };
    let lead = line.take(lead_ws(line));
    let rest = trim_start(line);
    let head = bar_part + if lead.len() > 0 {
        seq![piece(lead, plain())]
    } else {
        Seq::empty()
    };
    match quote_body(rest) {
        Some(q) => match callout_of(q) {
            Some(k) => head + seq![
                piece("> "@, SpanStyle { fg: Some(callout_tint(k)), bold: true, ..plain() }),
                badge(k),
                piece(" "@, plain()),
            ] + restyled(msg_spans(a, untagged(q, k)), |st: SpanStyle| patched_style(callout_base(k), st)),
            None => head + seq![
                piece(
                    "> "@,
                    fg_only(
                        match quote_tint(q) {
                            Some(t) => t,
                            None => Tint::TextMuted,
                        },
                    ),
                ),
            ] + after_quote(a, q),
        },
        None => head + after_quote(a, rest),
    }
}

fn push_str_span(spans: &mut Vec<StyledSpan>, text: &str, style: SpanStyle)
    ensures
        appended(old(spans)@, final(spans)@, seq![piece(text@, style)]),
{
    push_spec(spans, StyledSpan { text: owned(text), style }, Ghost(piece(text@, style)));
}

fn append_spans(spans: &mut Vec<StyledSpan>, more: Vec<StyledSpan>, Ghost(desc): Ghost<Seq<SpanSpec>>)
    requires
        spans_match(more@, desc),
    ensures
        appended(old(spans)@, final(spans)@, desc),
{
    let ghost o = spans@;
    proof {
        lemma_appended_nothing(o);
    }
    let mut rest = more;
    let ghost all = rest@;
    let total: usize = rest.len();
    let mut k: usize = 0;
    while rest.len() > 0
        invariant
            k + rest@.len() == all.len(),
            all.len() == total,
            all.len() == desc.len(),
            rest@ == all.skip(k as int),
            spans_match(all, desc),
            appended(o, spans@, desc.take(k as int)),
        decreases rest@.len(),
    {
        let x = rest.remove(0);
        assert(x == all[k as int]);
        assert(rest@ =~= all.skip(k + 1));
        assert(span_ok(all[0 + k], desc[k as int]));
        proof {
            lemma_push_one(o, spans@, x, desc.take(k as int), desc[k as int]);
            assert(desc.take(k as int).push(desc[k as int]) =~= desc.take(k + 1));
        }
        spans.push(x);
        k = k + 1;
    }
    assert(desc.take(k as int) =~= desc);
}

fn append_patched(spans: &mut Vec<StyledSpan>, more: Vec<StyledSpan>, base: SpanStyle, Ghost(desc): Ghost<Seq<SpanSpec>>)
    requires
        spans_match(more@, desc),
    ensures
        appended(old(spans)@, final(spans)@, restyled(desc, |st: SpanStyle| patched_style(base, st))),
{
    let ghost o = spans@;
    let ghost goal = restyled(desc, |st: SpanStyle| patched_style(base, st));
    proof {
        lemma_appended_nothing(o);
    }
    let mut rest = more;
    let ghost all = rest@;
    let total: usize = rest.len();
    let mut k: usize = 0;
    while rest.len() > 0
        invariant
            k + rest@.len() == all.len(),
            all.len() == total,
            all.len() == desc.len(),
            rest@ == all.skip(k as int),
            spans_match(all, desc),
            goal == restyled(desc, |st: SpanStyle| patched_style(base, st)),
            appended(o, spans@, goal.take(k as int)),
        decreases rest@.len(),
    {
        let x = rest.remove(0);
        assert(x == all[k as int]);
        assert(rest@ =~= all.skip(k + 1));
        assert(span_ok(all[0 + k], desc[k as int]));
        let y = StyledSpan { text: x.text, style: patch_style(base, x.style) };
        proof {
            lemma_push_one(o, spans@, y, goal.take(k as int), goal[k as int]);
            assert(goal.take(k as int).push(goal[k as int]) =~= goal.take(k + 1));
        }
        spans.push(y);
        k = k + 1;
    }
    assert(goal.take(k as int) =~= goal);
}

fn after_quote_exec(spans: &mut Vec<StyledSpan>, r: &Vec<char>, app: &App)
    ensures
        appended(old(spans)@, final(spans)@, after_quote(app, r@)),
{
    let ghost o = spans@;
    proof {
        reveal_strlit("-# ");
    }
    let sub = chars_of("-# ");
    if crate::text::starts_with_exec(r, &sub) {
        push_str_span(spans, "-# ", SpanStyle { fg: Some(Tint::TextMuted), italic: true, ..plain_style() });
        let ghost mid = spans@;
        let body = slice_chars(r, 3, r.len());
        assert(body@ =~= r@.skip(3));
        let inner = parse_message_spans(string_of(body.as_slice()).as_str(), app);
        append_spans(spans, inner, Ghost(msg_spans(app, body@)));
        proof {
            lemma_appended_trans(
                o,
                mid,
                spans@,
                seq![piece("-# "@, SpanStyle { fg: Some(Tint::TextMuted), italic: true, ..plain() })],
                msg_spans(app, body@),
            );
        }
        return;
    }
    match strip_atx_heading(r) {
        Some((n, body)) => {
            let mut h: Vec<char> = Vec::new();
            let mut i: usize = 0;
            while i < n
                invariant
                    i <= n,
                    h@ == hashes(i as int),
                decreases n - i,
            {
                h.push('#');
                assert(h@ =~= hashes(i + 1));
                i = i + 1;
            }
            let mut hs = string_of(h.as_slice());
            hs.append(" ");
            let ghost p = piece(hashes(n as int) + " "@, SpanStyle { fg: Some(Tint::Accent), bold: true, ..plain() });
            push_spec(
                spans,
                StyledSpan { text: hs, style: SpanStyle { fg: Some(Tint::Accent), bold: true, ..plain_style() } },
                Ghost(p),
            );
            let ghost mid = spans@;
            let inner = parse_message_spans(string_of(body.as_slice()).as_str(), app);
            append_spans(spans, inner, Ghost(msg_spans(app, body@)));
            proof {
                lemma_appended_trans(o, mid, spans@, seq![p], msg_spans(app, body@));
            }
        },
        None => {
            let inner = parse_message_spans(string_of(r.as_slice()).as_str(), app);
            append_spans(spans, inner, Ghost(msg_spans(app, r@)));
        },
    }
}

/// The spans of one line; see `line_spans`.
#[verifier::rlimit(40)]
pub fn format_line(line: &Vec<char>, app: &App, admon_bar: Option<Tint>) -> (r: Vec<StyledSpan>)
    ensures
        spans_match(r@, line_spans(app, line@, admon_bar)),
{
    let mut spans: Vec<StyledSpan> = Vec::new();
    let ghost e: Seq<StyledSpan> = Seq::empty();
    proof {
        lemma_appended_nothing(e);
    }
    let ghost bar_part = match admon_bar {
        Some(c) => seq![piece("┃ "@, fg_only(c))],
        None => Seq::empty(),
    };
    if let Some(c) = admon_bar {
        push_str_span(&mut spans, "┃ ", fg_style(c));
    }
    let ghost s1 = spans@;
    let (lead, rest) = split_leading_ws(line);
    let ghost lead_part = if lead@.len() > 0 {
        seq![piece(lead@, plain())]
    } else {
        Seq::empty()
    };
    if lead.len() > 0 {
        push_spec(&mut spans, StyledSpan { text: string_of(lead.as_slice()), style: plain_style() }, Ghost(piece(lead@, plain())));
    } else {
        proof {
            lemma_appended_nothing(spans@);
        }
    }
    proof {
        lemma_appended_trans(e, s1, spans@, bar_part, lead_part);
    }
    let ghost head = bar_part + lead_part;
    let ghost s2 = spans@;
    match strip_blockquote(&rest) {
        Some((_m, q)) => {
            match detect_quote_callout(&q) {
                Some(k) => {
                    let (bar_fg, badge_text, badge_bg, base) = match k {
                        Admonition::Warning => (Tint::Danger, " ! WARNING ", Tint::Danger, SpanStyle {
                            fg: Some(Tint::Text),
                            bold: true,
                            ..plain_style()
                        }),
                        Admonition::Important => (Tint::Accent, " ! IMPORTANT ", Tint::Accent, SpanStyle {
                            fg: Some(Tint::Accent),
                            bold: true,
                            ..plain_style()
                        }),
                        Admonition::Note => (Tint::Voice, " NOTE ", Tint::TextDim, SpanStyle {
                            fg: Some(Tint::Text),
                            bold: true,
                            ..plain_style()
                        }),
                    };
                    push_str_span(&mut spans, "> ", SpanStyle { fg: Some(bar_fg), bold: true, ..plain_style() });
                    let ghost s3 = spans@;
                    push_str_span(
                        &mut spans,
                        badge_text,
                        SpanStyle { fg: Some(Tint::Black), bg: Some(badge_bg), bold: true, ..plain_style() },
                    );
                    let ghost s4 = spans@;
                    push_str_span(&mut spans, " ", plain_style());
                    let ghost s5 = spans@;
                    let after_tag = strip_callout_tag(&q, k);
                    let inner = parse_message_spans(string_of(after_tag.as_slice()).as_str(), app);
                    append_patched(&mut spans, inner, base, Ghost(msg_spans(app, after_tag@)));
                    proof {
                        let p1 = piece("> "@, SpanStyle { fg: Some(callout_tint(k)), bold: true, ..plain() });
                        lemma_appended_trans(e, s2, s3, head, seq![p1]);
                        lemma_appended_trans(e, s3, s4, head + seq![p1], seq![badge(k)]);
                        lemma_appended_trans(e, s4, s5, head + seq![p1] + seq![badge(k)], seq![piece(" "@, plain())]);
                        let tail = restyled(msg_spans(app, untagged(q@, k)), |st: SpanStyle| patched_style(callout_base(k), st));
                        lemma_appended_trans(
                            e,
                            s5,
                            spans@,
                            head + seq![p1] + seq![badge(k)] + seq![piece(" "@, plain())],
                            tail,
                        );
                        assert(head + seq![p1] + seq![badge(k)] + seq![piece(" "@, plain())] + tail =~= head + seq![
                            p1,
                            badge(k),
                            piece(" "@, plain()),
                        ] + tail);
                    }
                    return spans;
                },
                None => {
                    let qc = match quote_accent_color(&q) {
                        Some(t) => t,
                        None => Tint::TextMuted,
                    };
                    push_str_span(&mut spans, "> ", fg_style(qc));
                    let ghost s3 = spans@;
                    after_quote_exec(&mut spans, &q, app);
                    proof {
                        let p1 = piece("> "@, fg_only(qc));
                        lemma_appended_trans(e, s2, s3, head, seq![p1]);
                        lemma_appended_trans(e, s3, spans@, head + seq![p1], after_quote(app, q@));
                    }
                    return spans;
                },
            }
        },
        None => {
            after_quote_exec(&mut spans, &rest, app);
            proof {
                lemma_appended_trans(e, s2, spans@, head, after_quote(app, rest@));
            }
            spans
        },
    }
}

/// The line with a carriage return at its end removed.
pub open spec fn without_cr_end(l: Seq<char>) -> Seq<char> {
    if l.len() > 0 && l.last() == '\r' {
        l.drop_last()
    } else {
        l
    }
}

/// The lines of a text as `str::lines` gives them: split at line feeds
/// (dropping a carriage return before one), with no empty line after a final line feed.
pub open spec fn text_lines(s: Seq<char>) -> Seq<Seq<char>>
    decreases s.len(),
{
    if s.len() == 0 {
        Seq::empty()
    } else {
        proof {
            lemma_char_from(s, '\n', 0);
        }
        match char_from(s, '\n', 0) {
            Some(k) => seq![without_cr_end(s.take(k))] + text_lines(s.skip(k + 1)),
            None => seq![s],
        }
    }
}

/// The rows of a message, line by line, with `fence` the open fence: a
/// `:::` line closes it (an empty row), a `::: kind` line opens one (its
/// title row), other lines are drawn with the open fence's bar.
pub open spec fn content_rows(a: &App, ls: Seq<Seq<char>>, fence: Option<Admonition>) -> Seq<Seq<SpanSpec>>
    decreases ls.len(),
{
    if ls.len() == 0 {
        Seq::empty()
    } else {
        let t = trim(ls[0]);
        if t == ":::"@ {
            seq![seq![piece(Seq::empty(), plain())]] + content_rows(a, ls.drop_first(), None)
        } else {
            match admonition_of(t) {
                Some(k) => seq![title_row(k)] + content_rows(a, ls.drop_first(), Some(k)),
                None => seq![
                    line_spans(
                        a,
                        ls[0],
                        match fence {
                            Some(k) => Some(kind_tint(k)),
                            None => None,
                        },
                    ),
                ] + content_rows(a, ls.drop_first(), fence),
            }
        }
    }
}

/// Each row's spans agree with its description.
pub open spec fn rows_match(r: Seq<Vec<StyledSpan>>, d: Seq<Seq<SpanSpec>>) -> bool {
    r.len() == d.len() && forall|i: int| 0 <= i < r.len() ==> spans_match(#[trigger] r[i]@, d[i])
}

/// The lines of a text; see `text_lines`.
fn split_lines(s: &Vec<char>) -> (r: Vec<Vec<char>>)
    ensures
        r@.len() == text_lines(s@).len(),
        forall|i: int| 0 <= i < r@.len() ==> #[trigger] r@[i]@ == text_lines(s@)[i],
{
    let mut out: Vec<Vec<char>> = Vec::new();
    let mut rest = slice_chars(s, 0, s.len());
    assert(rest@ =~= s@);
    let ghost done: Seq<Seq<char>> = Seq::empty();
    while rest.len() > 0
        invariant
            out@.len() == done.len(),
            forall|i: int| 0 <= i < out@.len() ==> #[trigger] out@[i]@ == done[i],
            done + text_lines(rest@) == text_lines(s@),
        decreases rest@.len(),
    {
        let ghost r0 = rest@;
        proof {
            lemma_char_from(r0, '\n', 0);
        }
        match crate::markdown::char_from_exec(&rest, '\n', 0) {
            Some(k) => {
                let end = if k > 0 && rest[k - 1] == '\r' {
                    k - 1
                } else {
                    k
                };
                let line = slice_chars(&rest, 0, end);
                assert(line@ =~= without_cr_end(r0.take(k as int)));
                out.push(line);
                proof {
                    done = done.push(without_cr_end(r0.take(k as int)));
                }
                rest = slice_chars(&rest, k + 1, rest.len());
                assert(rest@ =~= r0.skip(k + 1));
                assert(done + text_lines(rest@) =~= text_lines(s@)) by {
                    assert(seq![without_cr_end(r0.take(k as int))] + text_lines(r0.skip(k + 1)) == text_lines(r0));
                }
            },
            None => {
                out.push(rest);
                proof {
                    done = done.push(r0);
                    assert(text_lines(r0) == seq![r0]);
                    assert(done =~= text_lines(s@));
                }
                return out;
            },
        }
    }
    assert(done =~= text_lines(s@));
    out
}

/// The rows of a message's text; see `content_rows`.
pub fn content_lines(content: &str, app: &App) -> (r: Vec<Vec<StyledSpan>>)
    ensures
        rows_match(r@, content_rows(app, text_lines(content@), None)),
{
    let lines = split_lines(&chars_of(content));
    let ghost ls = text_lines(content@);
    let mut out: Vec<Vec<StyledSpan>> = Vec::new();
    let mut fence: Option<Admonition> = None;
    let ghost done: Seq<Seq<SpanSpec>> = Seq::empty();
    let mut i: usize = 0;
    proof {
        reveal_strlit(":::");
        assert(ls.skip(0) =~= ls);
        assert(done + content_rows(app, ls, None) =~= content_rows(app, ls, None));
    }
    while i < lines.len()
        invariant
            i <= lines@.len() == ls.len(),
            forall|j: int| 0 <= j < lines@.len() ==> #[trigger] lines@[j]@ == ls[j],
            rows_match(out@, done),
            done + content_rows(app, ls.skip(i as int), fence) == content_rows(app, ls, None),
        decreases lines@.len() - i,
    {
        let line = &lines[i];
        let t = trim_chars(line);
        let ghost sk = ls.skip(i as int);
        assert(sk[0] == line@);
        assert(sk.drop_first() =~= ls.skip(i + 1));
        let tstr = string_of(t.as_slice());
        if crate::text::str_eq(tstr.as_str(), ":::") {
            let mut row: Vec<StyledSpan> = Vec::new();
            push_spec(&mut row, StyledSpan { text: String::new(), style: plain_style() }, Ghost(piece(Seq::empty(), plain())));
            out.push(row);
            proof {
                done = done.push(seq![piece(Seq::empty(), plain())]);
                assert forall|j: int| 0 <= j < out@.len() implies spans_match(#[trigger] out@[j]@, done[j]) by {}
            }
            fence = None;
        } else {
            match parse_admonition_open(&t) {
                Some(k) => {
                    let (label, tint) = match k {
                        Admonition::Warning => ("━━ WARNING ━━", Tint::Danger),
                        Admonition::Important => ("━━ IMPORTANT ━━", Tint::Accent),
                        Admonition::Note => ("━━ NOTE ━━", Tint::TextDim),
                    };
                    let mut row: Vec<StyledSpan> = Vec::new();
                    proof {
                        reveal_strlit("━━ WARNING ━━");
                        reveal_strlit("━━ IMPORTANT ━━");
                        reveal_strlit("━━ NOTE ━━");
                        reveal_strlit("━━");
                        reveal_strlit(" WARNING ");
                        reveal_strlit(" IMPORTANT ");
                        reveal_strlit(" NOTE ");
                        assert(label@ == title_row(k)[0].text);
                    }
                    push_spec(
                        &mut row,
                        StyledSpan { text: owned(label), style: SpanStyle { fg: Some(tint), bold: true, ..plain_style() } },
                        Ghost(title_row(k)[0]),
                    );
                    assert(seq![title_row(k)[0]] =~= title_row(k));
                    out.push(row);
                    proof {
                        done = done.push(title_row(k));
                        assert forall|j: int| 0 <= j < out@.len() implies spans_match(#[trigger] out@[j]@, done[j]) by {}
                    }
                    fence = Some(k);
                },
                None => {
                    let bar = match fence {
                        Some(k) => Some(
                            match k {
                                Admonition::Warning => Tint::Danger,
                                Admonition::Important => Tint::Accent,
                                Admonition::Note => Tint::TextDim,
                            },
                        ),
                        None => None,
                    };
                    let row = format_line(line, app, bar);
                    let ghost d = line_spans(
                        app,
                        line@,
                        match fence {
                            Some(k) => Some(kind_tint(k)),
                            None => None,
                        },
                    );
                    out.push(row);
                    proof {
                        done = done.push(d);
                        assert forall|j: int| 0 <= j < out@.len() implies spans_match(#[trigger] out@[j]@, done[j]) by {}
                    }
                },
            }
        }
        proof {
            assert(done + content_rows(app, ls.skip(i + 1), fence) =~= content_rows(app, ls, None));
        }
        i = i + 1;
    }
    assert(ls.skip(i as int) =~= Seq::<Seq<char>>::empty());
    assert(done + content_rows(app, ls.skip(i as int), fence) =~= done);
    out
}

} // verus!
