//! What the main operations are for, stated over all their inputs: the
//! styles markup gives, when a message opens a new group in the pane, when
//! a message counts as a mention, the order of direct messages, and what a
//! spoiler command sends.
use crate::app::{opt_str, App, NotificationVisibility};
use crate::channels::{id_is, index_of_id};
use crate::incoming::{after_create, message_taken_in, notifies, patched};
use crate::reads::{channel_of, flat_groups, known_channels, mention_of};
use crate::settings::{channel_muted, visibility_of};
use crate::markdown::{
    autolink_from, delim_text, emphasized, first_opening_star, link_from, msg_spans, next_special_spec,
    plain, restyled, scan, segments, span_ok, spans_match, text_spans, with_fg, Delim, Special, SpanStyle,
    SpanSpec, StyledSpan, Tint,
};
use crate::members::guild_of_channel;
use crate::pane::{gap, grouped, header_lines, is_notice, ln, message_block, pane_lines, PieceV};
use crate::typing::shown_name;
use crate::types::MessageResponse;
use crate::channels::{chs_eqv, server_list};
use crate::order::{before_of, dm_order, ORDER_DM};
use crate::seqs::{ins_pos, isort, lemma_first_idx_bounds};
use crate::slash_commands::{resolve_spec, SlashOutcome};
use crate::types::{sort_key, ChannelResponse};
use crate::text::{find, find_from, lemma_find_bounds, matches_at, starts_with, trim_end};
use vstd::prelude::*;
use vstd::string::*;

verus! {

/// `/spoiler` followed by a space and text that is not blank sends that
/// text, trailing whitespace removed, between `||` marks, whatever the
/// channel, the names and the permissions.
pub proof fn lemma_spoiler_hides_text(b: Seq<char>, g: Option<Seq<char>>, me: Seq<char>, prev: Seq<char>, perms: u64)
    requires
        trim_end(b).len() > 0,
    ensures
        resolve_spec("/spoiler "@ + b, g, me, prev, perms) == SlashOutcome::SendContent("||"@ + trim_end(b) + "||"@),
{
    reveal_strlit("/spoiler ");
    reveal_strlit("/spoiler");
    reveal_strlit("/shrug");
    reveal_strlit("/tableflip");
    reveal_strlit("/unflip");
    reveal_strlit("/me");
    reveal_strlit("/me ");
    let t = "/spoiler "@ + b;
    assert(t[1] == 's' && t[2] == 'p' && t[3] == 'o');
    assert(t.len() >= 9);
    assert(t != "/spoiler"@) by {
        if t == "/spoiler"@ {
            assert(t.len() == 8);
        }
    }
    assert(starts_with(t, "/spoiler "@)) by {
        assert(t.subrange(0, 9) =~= "/spoiler "@);
    }
    assert(t.subrange(9, t.len() as int) =~= b);
    assert(!starts_with(t, "/me "@)) by {
        if starts_with(t, "/me "@) {
            assert(t.subrange(0, 4)[1] == 'm');
        }
    }
    assert(t != "/me"@) by {
        if t == "/me"@ {
            assert(t.len() == 3);
        }
    }
    assert forall|i: int| 0 <= i < 3 implies #[trigger] crate::slash_commands::emote_outcome(t, i) is None by {
        let nm = crate::slash_commands::cmd_name(i);
        let p = nm + seq![' '];
        if t == nm {
            assert(t[1] == nm[1] && t[2] == nm[2]);
        }
        if starts_with(t, p) {
            assert(t.subrange(0, p.len() as int)[1] == p[1]);
            assert(t.subrange(0, p.len() as int)[2] == p[2]);
        }
    }
    assert(crate::slash_commands::emote_outcome(t, 0) is None);
    assert(crate::slash_commands::emote_outcome(t, 1) is None);
    assert(crate::slash_commands::emote_outcome(t, 2) is None);
}


/// How recent a channel's activity is: the numeric value of its last
/// message's id, 0 without one.
pub open spec fn activity(c: ChannelResponse) -> nat {
    match c.last_message_id {
        Some(s) => sort_key(s@),
        None => 0,
    }
}

/// An insertion sort under "comes first when its key is larger" lists keys
/// from the largest down.
proof fn lemma_isort_by_key(s: Seq<usize>, before: spec_fn(usize, usize) -> bool, key: spec_fn(usize) -> int)
    requires
        forall|a: usize, b: usize| #[trigger] before(a, b) <==> key(a) > key(b),
    ensures
        isort(s, before).len() == s.len(),
        forall|i: int, j: int|
            0 <= i < j < isort(s, before).len() ==> key(#[trigger] isort(s, before)[i]) >= key(
                #[trigger] isort(s, before)[j],
            ),
    decreases s.len(),
{
    crate::seqs::lemma_isort_len(s, before);
    if s.len() > 0 {
        let r = isort(s.drop_last(), before);
        lemma_isort_by_key(s.drop_last(), before, key);
        let x = s.last();
        let p = ins_pos(r, x, before);
        lemma_first_idx_bounds(r, |y: usize| before(x, y), 0);
        let t = r.insert(p, x);
        assert(isort(s, before) == t);
        assert forall|i: int, j: int| 0 <= i < j < t.len() implies key(#[trigger] t[i]) >= key(#[trigger] t[j]) by {
            if j < p {
                assert(t[i] == r[i] && t[j] == r[j]);
            } else if j == p {
                assert(t[i] == r[i]);
                assert(!before(x, r[i]));
            } else if i < p {
                assert(t[i] == r[i] && t[j] == r[j - 1]);
            } else if i == p {
                assert(t[j] == r[j - 1]);
                assert(before(x, r[p]));
                if j - 1 > p {
                    assert(key(r[p]) >= key(r[j - 1]));
                }
            } else {
                assert(t[i] == r[i - 1] && t[j] == r[j - 1]);
            }
        }
    }
}

/// Direct messages are listed with the most recent activity first: a
/// channel whose last message id has the larger value comes before one
/// whose value is smaller. Every channel is listed once.
pub proof fn lemma_direct_messages_newest_first(chs: Seq<ChannelResponse>)
    ensures
        dm_order(chs).len() == chs.len(),
        forall|i: int, j: int|
            0 <= i < j < chs.len() ==> activity(chs[#[trigger] dm_order(chs)[i] as int]) >= activity(
                chs[#[trigger] dm_order(chs)[j] as int],
            ),
{
    let before = before_of(chs, ORDER_DM);
    let key = |a: usize| activity(chs[a as int]) as int;
    assert forall|a: usize, b: usize| #[trigger] before(a, b) <==> key(a) > key(b) by {
    }
    lemma_isort_by_key(crate::seqs::range_seq(chs.len() as int), before, key);
}


/// The channels listed for the direct messages (as `all_channels_for_server`
/// gives them) come with the most recent activity first.
pub proof fn lemma_direct_listing_newest_first(app: &App, r: Seq<ChannelResponse>)
    requires
        chs_eqv(r, server_list(app, None)),
    ensures
        r.len() == app.private_channels@.len(),
        forall|i: int, j: int| 0 <= i < j < r.len() ==> activity(#[trigger] r[i]) >= activity(#[trigger] r[j]),
{
    let chs = app.private_channels@;
    lemma_direct_messages_newest_first(chs);
    let o = dm_order(chs);
    assert forall|i: int, j: int| 0 <= i < j < r.len() implies activity(#[trigger] r[i]) >= activity(#[trigger] r[j]) by {
        assert(r[i].eqv(&server_list(app, None)[i]));
        assert(r[j].eqv(&server_list(app, None)[j]));
        assert(server_list(app, None)[i] == chs[o[i] as int]);
        assert(server_list(app, None)[j] == chs[o[j] as int]);
    }
}


/// The line of the pane where message `i`'s header stands: after the empty
/// line that separates it from the message before, and after the context
/// line of a reply or forward.
pub open spec fn header_row(a: &App, msgs: Seq<MessageResponse>, i: int, w: u16) -> int {
    pane_lines(a, msgs, i, w).len() + (if i > 0 {
        1int
    } else {
        0int
    }) + (if msgs[i].referenced_message is Some || msgs[i].message_reference is Some {
        1int
    } else {
        0int
    })
}

/// A message whose author is not the author of the message before it (or
/// that comes first) never continues a group: an empty line separates it
/// from the message before, and its header line ends with its own author's
/// name as shown in its channel.
pub proof fn lemma_new_author_gets_header(a: &App, msgs: Seq<MessageResponse>, i: int, w: u16)
    requires
        0 <= i < msgs.len(),
        !is_notice(msgs[i]),
        i == 0 || msgs[i - 1].author.id@ != msgs[i].author.id@,
    ensures
        i > 0 ==> pane_lines(a, msgs, i + 1, w)[pane_lines(a, msgs, i, w).len() as int].pieces.len() == 0,
        header_row(a, msgs, i, w) < pane_lines(a, msgs, i + 1, w).len(),
        pane_lines(a, msgs, i + 1, w)[header_row(a, msgs, i, w)].pieces.last() matches PieceV::Span(s)
            && s.text == shown_name(a, guild_of_channel(a, msgs[i].channel_id@), msgs[i].author),
{
    let m = msgs[i];
    let before = pane_lines(a, msgs, i, w);
    let g = gap(msgs, i);
    let blk = message_block(a, msgs, i, w);
    assert(pane_lines(a, msgs, i + 1, w) == before + g + blk);
    assert(!grouped(msgs, i));
    if i > 0 {
        assert(g == seq![ln(Seq::<PieceV>::empty(), plain())]);
    } else {
        assert(g.len() == 0);
    }
    let hl = header_lines(a, msgs, i, w);
    assert(blk.len() >= hl.len());
    assert(forall|k: int| 0 <= k < hl.len() ==> blk[k] == hl[k]);
    let off: int = if m.referenced_message is Some || m.message_reference is Some {
        1
    } else {
        0
    };
    assert(hl.len() == off + 1);
    let all = before + g + blk;
    assert(all[header_row(a, msgs, i, w)] == hl[off]);
}


/// `y` is the channel `x` with at most its last message changed.
pub open spec fn same_but_last(x: ChannelResponse, y: ChannelResponse) -> bool {
    ChannelResponse { last_message_id: y.last_message_id, ..x } == y
}

/// Two channel lists that differ at most in their channels' last messages.
pub open spec fn lasts_only(s: Seq<ChannelResponse>, t: Seq<ChannelResponse>) -> bool {
    s.len() == t.len() && forall|i: int| 0 <= i < s.len() ==> same_but_last(#[trigger] s[i], t[i])
}

proof fn lemma_lasts_concat(a: Seq<ChannelResponse>, b: Seq<ChannelResponse>, c: Seq<ChannelResponse>, d: Seq<ChannelResponse>)
    requires
        lasts_only(a, c),
        lasts_only(b, d),
    ensures
        lasts_only(a + b, c + d),
{
    assert forall|i: int| 0 <= i < (a + b).len() implies same_but_last(#[trigger] (a + b)[i], (c + d)[i]) by {
        if i < a.len() {
            assert(same_but_last(a[i], c[i]));
        } else {
            assert(same_but_last(b[i - a.len()], d[i - a.len()]));
        }
    }
}

proof fn lemma_flat_lasts(x: Seq<(String, Vec<ChannelResponse>)>, y: Seq<(String, Vec<ChannelResponse>)>)
    requires
        x.len() == y.len(),
        forall|g: int| 0 <= g < x.len() ==> lasts_only(#[trigger] x[g].1@, y[g].1@),
    ensures
        lasts_only(flat_groups(x), flat_groups(y)),
    decreases x.len(),
{
    if x.len() > 0 {
        lemma_flat_lasts(x.drop_last(), y.drop_last());
        assert(lasts_only(x[x.len() - 1].1@, y[y.len() - 1].1@));
        lemma_lasts_concat(flat_groups(x.drop_last()), x.last().1@, flat_groups(y.drop_last()), y.last().1@);
    }
}

proof fn lemma_lasts_refl(s: Seq<ChannelResponse>)
    ensures
        lasts_only(s, s),
{
}

/// Recording a message's id changes no channel but in its last message.
proof fn lemma_patched_lasts_only(a: &App, p: &App, cid: Seq<char>, mid: Seq<char>)
    requires
        patched(a, p, cid, mid),
    ensures
        lasts_only(known_channels(a), known_channels(p)),
        (App { private_channels: a.private_channels, guild_channels: a.guild_channels, ..*p }) == *a,
{
    crate::incoming::lemma_private_target(a, cid, mid);
    crate::incoming::lemma_group_target_bounds(a, cid);
    let pi = crate::incoming::private_target(a, cid, mid);
    let gi = crate::incoming::group_target(a, cid);
    let ps = a.guild_channels.pairs();
    if pi < a.private_channels@.len() {
        assert(p.guild_channels == a.guild_channels);
        assert(lasts_only(a.private_channels@, p.private_channels@)) by {
            assert forall|i: int| 0 <= i < a.private_channels@.len() implies same_but_last(
                #[trigger] a.private_channels@[i],
                p.private_channels@[i],
            ) by {
                if i != pi {
                    assert(p.private_channels@[i] == a.private_channels@[i]);
                }
            }
        }
        lemma_lasts_refl(flat_groups(ps));
        lemma_lasts_concat(a.private_channels@, flat_groups(ps), p.private_channels@, flat_groups(ps));
    } else if gi < ps.len() && crate::incoming::bumps(
        ps[gi].1@[crate::channels::index_of_id(ps[gi].1@, cid)].last_message_id,
        mid,
    ) {
        let j = crate::channels::index_of_id(ps[gi].1@, cid);
        let qs = p.guild_channels.pairs();
        assert(qs == ps.update(gi, (ps[gi].0, qs[gi].1)));
        assert forall|g: int| 0 <= g < ps.len() implies lasts_only(#[trigger] ps[g].1@, qs[g].1@) by {
            if g != gi {
                assert(qs[g] == ps[g]);
            } else {
                assert forall|k: int| 0 <= k < ps[g].1@.len() implies same_but_last(#[trigger] ps[g].1@[k], qs[g].1@[k]) by {
                    if k != j {
                        assert(qs[gi].1@[k] == ps[gi].1@[k]);
                    }
                }
            }
        }
        lemma_flat_lasts(ps, qs);
        assert(p.private_channels == a.private_channels);
        lemma_lasts_refl(a.private_channels@);
        lemma_lasts_concat(a.private_channels@, flat_groups(ps), p.private_channels@, flat_groups(qs));
    } else {
        assert(*p == *a);
        lemma_lasts_refl(known_channels(a));
    }
}

/// A message in a known direct message channel (one outside any guild) that
/// is not muted and whose notifications are not off, sent by someone else
/// while another channel is open, counts as a mention: the channel's mention
/// count goes up by one.
pub proof fn lemma_direct_message_counts_as_mention(a: &App, b: &App, m: MessageResponse)
    requires
        message_taken_in(a, b, &m),
        channel_of(a, m.channel_id@) matches Some(ch) && ch.guild_id is None && !channel_muted(a, ch)
            && visibility_of(a, ch) != NotificationVisibility::Off,
        opt_str(a.selected_channel_id) != Some(m.channel_id@),
        m.author.id@ != a.me.id@,
        mention_of(a, m.channel_id@) < u64::MAX,
    ensures
        mention_of(b, m.channel_id@) == mention_of(a, m.channel_id@) + 1,
{
    let cid = m.channel_id@;
    let p = choose|p: App| patched(a, &p, cid, m.id@) && after_create(&p, b, m);
    lemma_patched_lasts_only(a, &p, cid, m.id@);
    let ka = known_channels(a);
    let kp = known_channels(&p);
    crate::seqs::lemma_first_idx_congr(ka, kp, id_is(cid), id_is(cid), 0);
    let k = index_of_id(ka, cid);
    assert(index_of_id(kp, cid) == k);
    crate::channels::lemma_index_of_id(ka, cid);
    assert(channel_of(a, cid) is Some);
    assert(0 <= k < ka.len());
    assert(lasts_only(ka, kp));
    let ch = ka[k];
    let ch2 = kp[k];
    assert(same_but_last(ch, ch2));
    assert(channel_of(&p, cid) == Some(ch2));
    assert(p.user_guild_settings == a.user_guild_settings);
    assert(p.clock == a.clock);
    assert(channel_muted(&p, ch2) == channel_muted(a, ch));
    assert(visibility_of(&p, ch2) == visibility_of(a, ch));
    assert(notifies(&p, m));
    assert(mention_of(&p, cid) == mention_of(a, cid));
}


/// Text without markup: none of `<`, `[`, `*`, `_`, `~`, `|` or a backquote.
pub open spec fn markup_free(x: Seq<char>) -> bool {
    forall|i: int|
        0 <= i < x.len() ==> {
            let c = #[trigger] x[i];
            c != '<' && c != '[' && c != '*' && c != '_' && c != '~' && c != '|' && c != '`'
        }
}

proof fn lemma_find_absent(s: Seq<char>, p: Seq<char>)
    requires
        p.len() > 0,
        forall|i: int| 0 <= i < s.len() ==> #[trigger] s[i] != p[0],
    ensures
        find(s, p) is None,
{
    lemma_find_bounds(s, p);
    if let Some(j) = find(s, p) {
        assert(s.subrange(j, j + p.len())[0] == p[0]);
    }
}

proof fn lemma_no_opening_star(t: Seq<char>, i: int)
    requires
        forall|j: int| 0 <= j < t.len() ==> #[trigger] t[j] != '*',
    ensures
        first_opening_star(t, i) is None,
    decreases t.len() - i,
{
    if 0 <= i < t.len() {
        lemma_no_opening_star(t, i + 1);
    }
}

proof fn lemma_no_link(t: Seq<char>, o: int)
    requires
        forall|j: int| 0 <= j < t.len() ==> #[trigger] t[j] != '[',
    ensures
        link_from(t, o) is None,
    decreases t.len() - o,
{
    if 0 <= o < t.len() {
        lemma_no_link(t, o + 1);
    }
}

proof fn lemma_no_autolink(t: Seq<char>, o: int)
    requires
        forall|j: int| 0 <= j < t.len() ==> #[trigger] t[j] != '<',
    ensures
        autolink_from(t, o) is None,
    decreases t.len() - o,
{
    if 0 <= o < t.len() {
        lemma_no_autolink(t, o + 1);
    }
}

/// Scanning text without `<` only gathers it for `segments`.
proof fn lemma_scan_plain(a: &App, t: Seq<char>, i: int, buf: Seq<char>)
    requires
        0 <= i <= t.len(),
        buf.len() <= i,
        forall|j: int| i <= j < t.len() ==> #[trigger] t[j] != '<',
    ensures
        scan(a, t, i, buf) == segments(a, buf + t.subrange(i, t.len() as int), plain()),
    decreases t.len() - i,
{
    if i >= t.len() {
        assert(buf + t.subrange(i, t.len() as int) =~= buf);
    } else {
        lemma_scan_plain(a, t, i + 1, buf.push(t[i]));
        assert(buf.push(t[i]) + t.subrange(i + 1, t.len() as int) =~= buf + t.subrange(i, t.len() as int));
    }
}

/// Markup-free text is drawn in the plain style, or as an emoji in the
/// emoji colour.
proof fn lemma_markup_free_spans(a: &App, x: Seq<char>)
    requires
        x.len() > 0,
        markup_free(x),
    ensures
        msg_spans(a, x).len() >= 1,
        forall|i: int|
            0 <= i < msg_spans(a, x).len() ==> (#[trigger] msg_spans(a, x)[i]).style == plain()
                || msg_spans(a, x)[i].style == with_fg(plain(), Tint::EmojiUnknown),
{
    lemma_scan_plain(a, x, 0, Seq::empty());
    assert(Seq::<char>::empty() + x.subrange(0, x.len() as int) =~= x);
    assert(msg_spans(a, x) == segments(a, x, plain()));
    lemma_find_absent(x, delim_text(Delim::Bold));
    lemma_find_absent(x, delim_text(Delim::Under));
    lemma_find_absent(x, delim_text(Delim::Strike));
    lemma_find_absent(x, delim_text(Delim::Spoiler));
    lemma_find_absent(x, delim_text(Delim::Code));
    lemma_no_opening_star(x, 0);
    lemma_no_link(x, 0);
    lemma_no_autolink(x, 0);
    assert(next_special_spec(x) is None);
    assert(segments(a, x, plain()) == text_spans(x, plain()));
}

/// The text `x` between `~~` marks.
pub open spec fn struck(x: Seq<char>) -> Seq<char> {
    seq!['~', '~'] + x + seq!['~', '~']
}

/// The text `~~x~~`, for markup-free `x`, opens with a struck-through run.
proof fn lemma_strike_opens(x: Seq<char>)
    requires
        markup_free(x),
    ensures
        next_special_spec(struck(x)) == Some(Special::Delim(0, Delim::Strike)),
{
    let s = struck(x);
    assert forall|j: int| 0 <= j < s.len() implies {
        let c = #[trigger] s[j];
        c != '<' && c != '[' && c != '*' && c != '_' && c != '|' && c != '`'
    } by {
        if 2 <= j < x.len() + 2 {
            assert(s[j] == x[j - 2]);
        }
    }
    let strike = delim_text(Delim::Strike);
    lemma_find_absent(s, delim_text(Delim::Bold));
    lemma_find_absent(s, delim_text(Delim::Under));
    lemma_find_absent(s, delim_text(Delim::Spoiler));
    lemma_find_absent(s, delim_text(Delim::Code));
    lemma_no_opening_star(s, 0);
    lemma_no_link(s, 0);
    lemma_no_autolink(s, 0);
    assert(s.subrange(0, 2) =~= strike);
    assert(matches_at(s, strike, 0));
    lemma_find_bounds(s, strike);
    assert(find(s, strike) == Some(0int));
}

/// In `x~~`, for markup-free `x`, the run closes right after `x`.
proof fn lemma_strike_closes_from(x: Seq<char>, k: int)
    requires
        forall|i: int| 0 <= i < x.len() ==> #[trigger] x[i] != '~',
        0 <= k <= x.len(),
    ensures
        find_from(x + seq!['~', '~'], delim_text(Delim::Strike), k) == Some(x.len() as int),
    decreases x.len() - k,
{
    let r2 = x + seq!['~', '~'];
    let strike = delim_text(Delim::Strike);
    if k == x.len() {
        assert(r2.subrange(k, k + 2) =~= strike);
    } else {
        assert(r2[k] == x[k]);
        assert(!matches_at(r2, strike, k)) by {
            if matches_at(r2, strike, k) {
                assert(r2.subrange(k, k + 2)[0] == r2[k]);
            }
        }
        lemma_strike_closes_from(x, k + 1);
    }
}

/// In `x~~`, for `x` without `~`, the run closes right after `x`.
proof fn lemma_strike_closes(x: Seq<char>)
    requires
        forall|i: int| 0 <= i < x.len() ==> #[trigger] x[i] != '~',
    ensures
        find(x + seq!['~', '~'], delim_text(Delim::Strike)) == Some(x.len() as int),
{
    lemma_strike_closes_from(x, 0);
}

/// The spans of `~~x~~` are those of `x`, struck through.
#[verifier::rlimit(50)]
proof fn lemma_strike_segments(a: &App, x: Seq<char>)
    requires
        markup_free(x),
    ensures
        segments(a, struck(x), plain()).len() == msg_spans(a, x).len(),
        forall|i: int|
            0 <= i < msg_spans(a, x).len() ==> (#[trigger] segments(
                a,
                struck(x),
                plain(),
            )[i]).style == emphasized(msg_spans(a, x)[i].style, Delim::Strike),
{
    let s = struck(x);
    lemma_strike_opens(x);
    let r2 = s.skip(2);
    assert(r2 =~= x + seq!['~', '~']);
    assert forall|i: int| 0 <= i < x.len() implies #[trigger] x[i] != '~' by {
        let c = x[i];
    }
    lemma_strike_closes(x);
    assert(r2.take(x.len() as int) =~= x);
    assert(r2.skip(x.len() + 2int) =~= Seq::<char>::empty());
    assert(segments(a, Seq::<char>::empty(), plain()) == Seq::<SpanSpec>::empty());
}

/// Text between `~~` marks is drawn crossed out, and the marks change
/// nothing else: for text without other markup, every span drawn has
/// `crossed_out` set and keeps the plain style's other attributes (not
/// underlined, bold, italic or dim, no background), whatever colour an
/// emoji gets.
pub proof fn lemma_strike_crosses_out(a: &App, x: Seq<char>, r: Seq<StyledSpan>)
    requires
        x.len() > 0,
        markup_free(x),
        spans_match(r, msg_spans(a, struck(x))),
    ensures
        r.len() >= 1,
        forall|i: int|
            0 <= i < r.len() ==> {
                let st = (#[trigger] r[i]).style;
                &&& st.crossed_out
                &&& !st.underlined
                &&& !st.bold
                &&& !st.italic
                &&& !st.dim
                &&& st.bg is None
            },
{
    let s = struck(x);
    assert forall|j: int| 0 <= j < s.len() implies #[trigger] s[j] != '<' by {
        if 2 <= j < x.len() + 2 {
            assert(s[j] == x[j - 2]);
        }
    }
    lemma_scan_plain(a, s, 0, Seq::empty());
    assert(Seq::<char>::empty() + s.subrange(0, s.len() as int) =~= s);
    assert(msg_spans(a, s) == segments(a, s, plain()));
    lemma_strike_segments(a, x);
    lemma_markup_free_spans(a, x);
    let inner = msg_spans(a, x);
    let desc = msg_spans(a, s);
    assert forall|i: int| 0 <= i < r.len() implies {
        let st = (#[trigger] r[i]).style;
        &&& st.crossed_out
        &&& !st.underlined
        &&& !st.bold
        &&& !st.italic
        &&& !st.dim
        &&& st.bg is None
    } by {
        assert(span_ok(r[0 + i], desc[i]));
        assert(desc[i].style == emphasized(inner[i].style, Delim::Strike));
    }
}

} // verus!
