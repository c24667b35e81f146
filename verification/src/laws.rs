//! Properties that relate several operations of the client: what one step
//! undoes of another, what a write means for a later read, and what every
//! edit keeps.
use crate::app::{opt_str, App, Focus, ImagePreviewState};
use crate::events::{event_done, no_effects, preview_loading, AppEvent, EventEffects};
use crate::incoming::{bumps, patched, private_target};
use crate::types::{sort_key, ChannelResponse};
use crate::autocomplete::{command_back, command_forward, emoji_back, emoji_forward};
use crate::caches::{backoff_started, API_FAILURE_BACKOFF_NANOS};
use crate::input::{pasted_chars, upto, without_cr, without_last_word, INPUT_MAX_CHARS};
use crate::keys::{key_handled, pasted_input, Key, KeyInput};
use crate::mentions::{mention_back, mention_forward};
use crate::messages::decimal;
use crate::picker::{picker_back, picker_forward};
use crate::text::{digits_value, all_digits};
use vstd::prelude::*;

verus! {

/// Moving the channel switcher's selection down and then up returns it to
/// where it was.
pub proof fn lemma_picker_down_up(a: &App, b: &App, c: &App)
    requires
        a.channel_picker matches Some(p) && p.selected < p.filtered@.len() && p.filtered@.len() < usize::MAX,
        picker_forward(a, b),
        picker_back(b, c),
    ensures
        *c == *a,
{
    let p = a.channel_picker->0;
    let n = p.filtered@.len() as int;
    let s1: int = (p.selected + 1) % n;
    assert((s1 + n - 1) % n == p.selected) by (nonlinear_arith)
        requires
            s1 == (p.selected + 1) % n,
            0 <= p.selected < n,
    ;
    let p1 = b.channel_picker->0;
    assert(0 <= s1 < n);
    assert(p1.selected == s1);
    assert(p1.filtered@.len() == n);
    let p2 = c.channel_picker->0;
    assert(p2.selected == p.selected);
    assert(p2 == p);
}

/// Moving the command list's selection down and then up returns it to where it was.
pub proof fn lemma_commands_down_up(a: &App, b: &App, c: &App)
    requires
        a.command_autocomplete matches Some(x) && x.selected_index < x.matches@.len() && x.matches@.len()
            < usize::MAX / 2,
        command_forward(a, b),
        command_back(b, c),
    ensures
        *c == *a,
{
    let x = a.command_autocomplete->0;
    let n = x.matches@.len() as int;
    let s1: int = (x.selected_index + 1) % n;
    assert(0 <= s1 < n);
    assert((s1 + n - 1) % n == x.selected_index) by (nonlinear_arith)
        requires
            s1 == (x.selected_index + 1) % n,
            0 <= x.selected_index < n,
    ;
    let y = b.command_autocomplete->0;
    assert(y.selected_index == s1);
    assert(crate::mentions::sat_add(y.selected_index, (n - 1) as usize) == s1 + n - 1);
    let z = c.command_autocomplete->0;
    assert(z.selected_index == x.selected_index);
    assert(z == x);
}

/// Moving the @ list's selection down and then up returns it to where it was.
pub proof fn lemma_mentions_down_up(a: &App, b: &App, c: &App)
    requires
        a.mention_autocomplete matches Some(x) && x.selected_index < x.matches@.len() && x.matches@.len()
            < usize::MAX / 2,
        mention_forward(a, b),
        mention_back(b, c),
    ensures
        *c == *a,
{
    let x = a.mention_autocomplete->0;
    let n = x.matches@.len() as int;
    let s1: int = (x.selected_index + 1) % n;
    assert(0 <= s1 < n);
    assert((s1 + n - 1) % n == x.selected_index) by (nonlinear_arith)
        requires
            s1 == (x.selected_index + 1) % n,
            0 <= x.selected_index < n,
    ;
    let y = b.mention_autocomplete->0;
    assert(y.selected_index == s1);
    assert(crate::mentions::sat_add(y.selected_index, (n - 1) as usize) == s1 + n - 1);
    let z = c.mention_autocomplete->0;
    assert(z.selected_index == x.selected_index);
    assert(z == x);
}

/// Moving the emoji list's selection down and then up returns it to where it was.
pub proof fn lemma_emojis_down_up(a: &App, b: &App, c: &App)
    requires
        a.emoji_autocomplete matches Some(x) && x.selected_index < x.matches@.len() && x.matches@.len()
            < usize::MAX / 2,
        emoji_forward(a, b),
        emoji_back(b, c),
    ensures
        *c == *a,
{
    let x = a.emoji_autocomplete->0;
    let n = x.matches@.len() as int;
    let s1: int = (x.selected_index + 1) % n;
    assert(0 <= s1 < n);
    assert((s1 + n - 1) % n == x.selected_index) by (nonlinear_arith)
        requires
            s1 == (x.selected_index + 1) % n,
            0 <= x.selected_index < n,
    ;
    let y = b.emoji_autocomplete->0;
    assert(y.selected_index == s1);
    assert(crate::mentions::sat_add(y.selected_index, (n - 1) as usize) == s1 + n - 1);
    let z = c.emoji_autocomplete->0;
    assert(z.selected_index == x.selected_index);
    assert(z == x);
}

/// Pasting never takes the input past its limit, and keeps what was typed.
pub proof fn lemma_paste_respects_limit(q: Seq<char>, t: Seq<char>)
    requires
        q.len() <= INPUT_MAX_CHARS,
    ensures
        pasted_input(q, t).len() <= INPUT_MAX_CHARS,
        pasted_input(q, t).take(q.len() as int) == q,
{
    let room = INPUT_MAX_CHARS - q.len();
    let u = upto(pasted_chars(t), room);
    assert(u.len() <= room);
    assert(pasted_input(q, t).take(q.len() as int) =~= q);
}

/// A request kind that just failed is not tried again until the backoff
/// period has passed.
pub proof fn lemma_backoff_blocks_retry(a: &App, b: &App, key: String, later: i128)
    requires
        backoff_started(a, b, key),
        a.clock + API_FAILURE_BACKOFF_NANOS <= i128::MAX,
        a.clock <= later < a.clock + API_FAILURE_BACKOFF_NANOS,
    ensures
        b.api_backoff_until@.dom().contains(key@),
        !(later >= b.api_backoff_until@[key@]),
        b.api_backoff_until@[key@] == a.clock + API_FAILURE_BACKOFF_NANOS,
{
}

proof fn lemma_digit_char(d: nat)
    requires
        d < 10,
    ensures
        crate::text::is_digit(crate::messages::digit_char(d)),
        (crate::messages::digit_char(d) as u32) - 48 == d,
{
}

/// A number written in decimal reads back as itself.
pub proof fn lemma_decimal_reads_back(n: nat)
    ensures
        all_digits(decimal(n)),
        digits_value(decimal(n)) == n,
        decimal(n).len() > 0,
    decreases n,
{
    lemma_digit_char((n % 10) as nat);
    if n < 10 {
        lemma_digit_char(n);
        assert(decimal(n) =~= seq![crate::messages::digit_char(n)]);
        let e = seq![crate::messages::digit_char(n)];
        assert(e.drop_last() =~= Seq::<char>::empty());
        assert(digits_value(Seq::<char>::empty()) == 0);
        assert(digits_value(e) == digits_value(e.drop_last()) * 10 + ((e.last() as u32) - 48) as nat);
        assert(digits_value(e) == n);
    } else {
        lemma_decimal_reads_back(n / 10);
        lemma_digit_char((n % 10) as nat);
        let d = decimal(n / 10);
        let e = d.push(crate::messages::digit_char(n % 10));
        assert(e.drop_last() =~= d);
        assert(digits_value(e) == digits_value(d) * 10 + ((e.last() as u32) - 48) as nat);
        assert(n == (n / 10) * 10 + n % 10) by (nonlinear_arith);
        assert(digits_value(d) == n / 10);
        assert(e.last() == crate::messages::digit_char((n % 10) as nat));
        assert(digits_value(decimal(n)) == n);
        assert forall|i: int| 0 <= i < e.len() implies #[trigger] crate::text::is_digit(e[i]) by {
            if i < d.len() {
                assert(e[i] == d[i]);
            }
        }
    }
}

/// Dropping carriage returns twice is the same as dropping them once.
pub proof fn lemma_without_cr_idempotent(s: Seq<char>)
    ensures
        without_cr(without_cr(s)) == without_cr(s),
    decreases s.len(),
{
    if s.len() > 0 {
        lemma_without_cr_idempotent(s.drop_last());
        let w = without_cr(s.drop_last());
        if s.last() != '\r' {
            assert(w.push(s.last()).drop_last() =~= w);
        }
    }
}

/// Deleting a word keeps the start of the input: the result is a prefix.
pub proof fn lemma_delete_word_is_prefix(s: Seq<char>)
    ensures
        without_last_word(s).len() <= s.len(),
        without_last_word(s) == s.take(without_last_word(s).len() as int),
{
    crate::text::lemma_trail_ws_bounds(s);
    let t = s.take(s.len() - crate::text::trail_ws(s));
    crate::input::lemma_trail_word_bounds(t);
    assert(without_last_word(s) =~= s.take(without_last_word(s).len() as int));
}

/// Opening the help with F1 and closing it with Esc leaves the client as
/// it was, with the help scrolled to the top.
pub proof fn lemma_help_open_close(a: &App, b: &App, c: &App)
    requires
        !a.show_help && !a.show_settings && !a.show_server_notifications && a.image_preview is None,
        key_handled(a, b, KeyInput { code: Key::F(1), ctrl: false, alt: false }, Seq::empty()),
        key_handled(b, c, KeyInput { code: Key::Esc, ctrl: false, alt: false }, Seq::empty()),
    ensures
        *c == (App { help_scroll: 0, ..*a }),
{
}

/// Tab and then Shift+Tab between the server and channel lists (and the
/// messages) leave the client as it was.
pub proof fn lemma_tab_backtab(a: &App, b: &App, c: &App)
    requires
        a.focus == Focus::Servers || a.focus == Focus::Channels,
        !a.show_help && !a.show_settings && !a.show_server_notifications && a.image_preview is None,
        a.channel_picker is None,
        key_handled(a, b, KeyInput { code: Key::Tab, ctrl: false, alt: false }, Seq::empty()),
        key_handled(b, c, KeyInput { code: Key::BackTab, ctrl: false, alt: false }, Seq::empty()),
    ensures
        *c == *a,
{
}


/// A channel's last message never moves back: `old` is no newer than `new`
/// by snowflake key (no last message counts as the oldest).
pub open spec fn no_older(old: Option<String>, new: Option<String>) -> bool {
    match old {
        None => true,
        Some(o) => new matches Some(n) && sort_key(o@) <= sort_key(n@),
    }
}

/// Recording a new message's id in its channel never makes the last message
/// of any direct message or guild channel older; the channel lists keep
/// their shape.
pub proof fn lemma_last_message_never_older(a: &App, b: &App, cid: Seq<char>, mid: Seq<char>)
    requires
        patched(a, b, cid, mid),
    ensures
        b.private_channels@.len() == a.private_channels@.len(),
        forall|k: int|
            0 <= k < a.private_channels@.len() ==> no_older(
                #[trigger] a.private_channels@[k].last_message_id,
                b.private_channels@[k].last_message_id,
            ),
        b.guild_channels.pairs().len() == a.guild_channels.pairs().len(),
        forall|g: int, k: int|
            0 <= g < a.guild_channels.pairs().len() && 0 <= k < a.guild_channels.pairs()[g].1@.len() ==> (
            b.guild_channels.pairs()[g].1@.len() == a.guild_channels.pairs()[g].1@.len() && no_older(
                #[trigger] a.guild_channels.pairs()[g].1@[k].last_message_id,
                b.guild_channels.pairs()[g].1@[k].last_message_id,
            )),
{
    let pi = private_target(a, cid, mid);
    crate::incoming::lemma_private_target(a, cid, mid);
    crate::incoming::lemma_group_target_bounds(a, cid);
    let gi = crate::incoming::group_target(a, cid);
    let ps = a.guild_channels.pairs();
    let j = crate::channels::index_of_id(ps[gi].1@, cid);
    if pi < a.private_channels@.len() {
        assert(b.guild_channels == a.guild_channels);
        assert forall|k: int| 0 <= k < a.private_channels@.len() implies no_older(
            #[trigger] a.private_channels@[k].last_message_id,
            b.private_channels@[k].last_message_id,
        ) by {
            if k == pi {
                assert(opt_str(b.private_channels@[k].last_message_id) == Some(mid));
            } else if let Some(o) = a.private_channels@[k].last_message_id {
                assert(sort_key(o@) <= sort_key(o@));
            }
        }
        lemma_guilds_same(a, b);
    } else if gi < ps.len() && bumps(ps[gi].1@[j].last_message_id, mid) {
        assert(b.private_channels == a.private_channels);
        assert(b.guild_channels.pairs() == ps.update(gi, (ps[gi].0, b.guild_channels.pairs()[gi].1)));
        lemma_privates_same(a, b);
        assert forall|g: int, k: int|
            0 <= g < a.guild_channels.pairs().len() && 0 <= k < a.guild_channels.pairs()[g].1@.len() implies (
            b.guild_channels.pairs()[g].1@.len() == a.guild_channels.pairs()[g].1@.len() && no_older(
                #[trigger] a.guild_channels.pairs()[g].1@[k].last_message_id,
                b.guild_channels.pairs()[g].1@[k].last_message_id,
            )) by {
            if g == gi && k == j {
                assert(opt_str(b.guild_channels.pairs()[g].1@[k].last_message_id) == Some(mid));
            } else {
                if g != gi {
                    assert(b.guild_channels.pairs()[g] == ps[g]);
                } else {
                    assert(b.guild_channels.pairs()[gi].1@[k] == ps[gi].1@[k]);
                }
                if let Some(o) = a.guild_channels.pairs()[g].1@[k].last_message_id {
                    assert(sort_key(o@) <= sort_key(o@));
                }
            }
        }
    } else {
        assert(*b == *a);
        lemma_privates_same(a, b);
        lemma_guilds_same(a, b);
    }
}

proof fn lemma_privates_same(a: &App, b: &App)
    requires
        b.private_channels == a.private_channels,
    ensures
        forall|k: int|
            0 <= k < a.private_channels@.len() ==> no_older(
                #[trigger] a.private_channels@[k].last_message_id,
                b.private_channels@[k].last_message_id,
            ),
{
    assert forall|k: int| 0 <= k < a.private_channels@.len() implies no_older(
        #[trigger] a.private_channels@[k].last_message_id,
        b.private_channels@[k].last_message_id,
    ) by {
        if let Some(o) = a.private_channels@[k].last_message_id {
            assert(sort_key(o@) <= sort_key(o@));
        }
    }
}

proof fn lemma_guilds_same(a: &App, b: &App)
    requires
        b.guild_channels == a.guild_channels,
    ensures
        forall|g: int, k: int|
            0 <= g < a.guild_channels.pairs().len() && 0 <= k < a.guild_channels.pairs()[g].1@.len() ==> (
            b.guild_channels.pairs()[g].1@.len() == a.guild_channels.pairs()[g].1@.len() && no_older(
                #[trigger] a.guild_channels.pairs()[g].1@[k].last_message_id,
                b.guild_channels.pairs()[g].1@[k].last_message_id,
            )),
{
    assert forall|g: int, k: int|
        0 <= g < a.guild_channels.pairs().len() && 0 <= k < a.guild_channels.pairs()[g].1@.len() implies (
        b.guild_channels.pairs()[g].1@.len() == a.guild_channels.pairs()[g].1@.len() && no_older(
            #[trigger] a.guild_channels.pairs()[g].1@[k].last_message_id,
            b.guild_channels.pairs()[g].1@[k].last_message_id,
        )) by {
        if let Some(o) = a.guild_channels.pairs()[g].1@[k].last_message_id {
            assert(sort_key(o@) <= sort_key(o@));
        }
    }
}

/// The end of an image load never replaces a preview that is no longer
/// loading (closed, or already showing): every image event leaves such a
/// preview as it was. A loading preview takes the converted text or the
/// failure, and these two events ask for nothing further.
pub proof fn lemma_preview_only_replaces_loading(a: &App, b: &App, event: AppEvent, eff: EventEffects)
    requires
        event_done(a, b, event, eff),
        event is ImagePreviewBytes || event is ImageDecodeFailed || event is ImageDecodedGif
            || event is ImageDecodedStatic || event is ImagePreviewReady || event is ImagePreviewFailed,
    ensures
        !preview_loading(a) ==> b.image_preview == a.image_preview,
        event matches AppEvent::ImagePreviewReady { title, lines } ==> no_effects(eff) && (preview_loading(a)
            ==> b.image_preview == Some(ImagePreviewState::ReadyChafa { title, lines, scroll: 0 })),
        event matches AppEvent::ImagePreviewFailed { message } ==> no_effects(eff) && (preview_loading(a)
            ==> b.image_preview == Some(ImagePreviewState::Failed { message })),
{
}


/// The last message a channel's id moves to: `mid` when it is newer than the
/// channel's (or the channel has none), else the channel's own.
pub open spec fn moved_last(old: Option<String>, mid: Seq<char>) -> Option<Seq<char>> {
    if bumps(old, mid) {
        Some(mid)
    } else {
        opt_str(old)
    }
}

/// No guild holds a channel with this id.
pub open spec fn in_no_guild(a: &App, cid: Seq<char>) -> bool {
    forall|g: int, j: int|
        0 <= g < a.guild_channels.pairs().len() && 0 <= j < a.guild_channels.pairs()[g].1@.len()
            ==> #[trigger] a.guild_channels.pairs()[g].1@[j].id@ != cid
}

/// A message recorded in a direct message channel whose id no other channel
/// has: that channel's last message moves to the message when it is newer
/// (never back), and every other channel is left as it was.
pub proof fn lemma_patch_direct_channel(a: &App, b: &App, cid: Seq<char>, mid: Seq<char>, k: int)
    requires
        patched(a, b, cid, mid),
        0 <= k < a.private_channels@.len(),
        a.private_channels@[k].id@ == cid,
        forall|j: int| 0 <= j < a.private_channels@.len() && j != k ==> #[trigger] a.private_channels@[j].id@ != cid,
        in_no_guild(a, cid),
    ensures
        b.private_channels@.len() == a.private_channels@.len(),
        opt_str(b.private_channels@[k].last_message_id) == moved_last(a.private_channels@[k].last_message_id, mid),
        forall|j: int| 0 <= j < a.private_channels@.len() && j != k ==> #[trigger] b.private_channels@[j] == a.private_channels@[j],
        b.guild_channels == a.guild_channels,
{
    crate::incoming::lemma_private_target(a, cid, mid);
    crate::incoming::lemma_group_target_bounds(a, cid);
    let pi = private_target(a, cid, mid);
    let gi = crate::incoming::group_target(a, cid);
    let ps = a.guild_channels.pairs();
    if gi < ps.len() {
        crate::channels::lemma_index_of_id(ps[gi].1@, cid);
        let j = crate::channels::index_of_id(ps[gi].1@, cid);
        assert(ps[gi].1@[j].id@ == cid);
    }
    if bumps(a.private_channels@[k].last_message_id, mid) {
        assert(pi == k);
    } else {
        assert(pi == a.private_channels@.len());
        assert(*b == *a);
    }
}

/// A message recorded in a guild channel whose id no other channel has:
/// that channel's last message moves to the message when it is newer (never
/// back), and every other channel is left as it was.
pub proof fn lemma_patch_guild_channel(a: &App, b: &App, cid: Seq<char>, mid: Seq<char>, g: int, k: int)
    requires
        patched(a, b, cid, mid),
        0 <= g < a.guild_channels.pairs().len(),
        0 <= k < a.guild_channels.pairs()[g].1@.len(),
        a.guild_channels.pairs()[g].1@[k].id@ == cid,
        forall|h: int, j: int|
            0 <= h < a.guild_channels.pairs().len() && 0 <= j < a.guild_channels.pairs()[h].1@.len() && (h != g
                || j != k) ==> #[trigger] a.guild_channels.pairs()[h].1@[j].id@ != cid,
        forall|j: int| 0 <= j < a.private_channels@.len() ==> #[trigger] a.private_channels@[j].id@ != cid,
    ensures
        b.private_channels == a.private_channels,
        b.guild_channels.pairs().len() == a.guild_channels.pairs().len(),
        b.guild_channels.pairs()[g].1@.len() == a.guild_channels.pairs()[g].1@.len(),
        opt_str(b.guild_channels.pairs()[g].1@[k].last_message_id) == moved_last(
            a.guild_channels.pairs()[g].1@[k].last_message_id,
            mid,
        ),
        forall|h: int, j: int|
            0 <= h < a.guild_channels.pairs().len() && 0 <= j < a.guild_channels.pairs()[h].1@.len() && (h != g
                || j != k) ==> #[trigger] b.guild_channels.pairs()[h].1@[j] == a.guild_channels.pairs()[h].1@[j],
{
    crate::incoming::lemma_private_target(a, cid, mid);
    crate::incoming::lemma_group_target_bounds(a, cid);
    let pi = private_target(a, cid, mid);
    let gi = crate::incoming::group_target(a, cid);
    let ps = a.guild_channels.pairs();
    assert(pi == a.private_channels@.len());
    crate::channels::lemma_index_of_id(ps[g].1@, cid);
    let jj = crate::channels::index_of_id(ps[g].1@, cid);
    assert(jj == k);
    if gi < g {
        crate::channels::lemma_index_of_id(ps[gi].1@, cid);
        let j2 = crate::channels::index_of_id(ps[gi].1@, cid);
        assert(ps[gi].1@[j2].id@ == cid);
        assert(false);
    }
    assert(gi == g);
    if bumps(ps[g].1@[k].last_message_id, mid) {
        assert(b.guild_channels.pairs() == ps.update(gi, (ps[gi].0, b.guild_channels.pairs()[gi].1)));
        assert forall|h: int, j: int|
            0 <= h < ps.len() && 0 <= j < ps[h].1@.len() && (h != g || j != k) implies #[trigger] b.guild_channels.pairs()[h].1@[j]
                == ps[h].1@[j] by {
            if h != g {
                assert(b.guild_channels.pairs()[h] == ps[h]);
            }
        }
    } else {
        assert(*b == *a);
    }
}

} // verus!
