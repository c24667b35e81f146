//! The message cache: each channel's messages in snowflake order, with the
//! members and users they carry merged into the other caches.
use crate::app::App;
use crate::caches::backoff_key;
use crate::members::{
    guild_of_channel, lemma_merged_users_push, merge_into, members_view, mview, same_but_members,
    MemberView,
};
use crate::seqs::{lemma_first_idx_congr, first_idx, lemma_first_idx_bounds, lemma_first_idx_is};
use crate::text::{concat, owned, str_eq};
use crate::types::{
    merge_user_cache, merged_users, snowflake_sort_key, sort_key, GuildMemberResponse,
    MessageReactionAddEvent, MessageReactionRemoveEvent, MessageReactionResponse, MessageResponse,
    ReactionEmojiResponse, UserPartialResponse,
};
use vstd::prelude::*;

verus! {

/// At most this many messages are kept per channel.
pub const MAX_MESSAGES: usize = 500;

/// A page of history shorter than this means there is no older history.
pub const HISTORY_PAGE: usize = 50;

/// A message's ordering key: the value of its snowflake id.
pub open spec fn mkey(m: MessageResponse) -> nat {
    sort_key(m.id@)
}

/// Where a stable insertion puts `x` into `r`: before the first message with a larger key.
pub open spec fn mins_pos(r: Seq<MessageResponse>, x: MessageResponse) -> int {
    first_idx(r, |y: MessageResponse| mkey(x) < mkey(y), 0)
}

/// The messages stably sorted by key.
pub open spec fn msort(s: Seq<MessageResponse>) -> Seq<MessageResponse>
    decreases s.len(),
{
    if s.len() == 0 {
        s
    } else {
        let r = msort(s.drop_last());
        r.insert(mins_pos(r, s.last()), s.last())
    }
}

/// Whether the messages are in key order.
pub open spec fn msorted(s: Seq<MessageResponse>) -> bool {
    forall|i: int, j: int| 0 <= i < j < s.len() ==> mkey(#[trigger] s[i]) <= mkey(#[trigger] s[j])
}

/// The first message with this id.
pub open spec fn msg_index(s: Seq<MessageResponse>, id: Seq<char>) -> int {
    first_idx(s, |m: MessageResponse| m.id@ == id, 0)
}

/// The list with `m` in place of the first message with its id, or appended.
pub open spec fn msgs_upserted(s: Seq<MessageResponse>, m: MessageResponse) -> Seq<MessageResponse> {
    let k = msg_index(s, m.id@);
    if k < s.len() {
        s.update(k, m)
    } else {
        s.push(m)
    }
}

/// The list with each of `older` appended unless a message with its id is already there.
pub open spec fn msgs_added(s: Seq<MessageResponse>, older: Seq<MessageResponse>) -> Seq<MessageResponse>
    decreases older.len(),
{
    if older.len() == 0 {
        s
    } else {
        let prev = msgs_added(s, older.drop_last());
        if msg_index(prev, older.last().id@) < prev.len() {
            prev
        } else {
            prev.push(older.last())
        }
    }
}

/// The messages whose id is not `id`, in order.
pub open spec fn msgs_without(s: Seq<MessageResponse>, id: Seq<char>) -> Seq<MessageResponse>
    decreases s.len(),
{
    if s.len() == 0 {
        Seq::empty()
    } else if s.last().id@ != id {
        msgs_without(s.drop_last(), id).push(s.last())
    } else {
        msgs_without(s.drop_last(), id)
    }
}

/// The member records a message carries, with the guild of its channel:
/// its own, then those of the messages it replies to.
pub open spec fn embedded(app: &App, m: MessageResponse) -> Seq<(Seq<char>, GuildMemberResponse)>
    decreases m,
{
    embedded_head(app, m) + match m.referenced_message {
        Some(r) => embedded(app, *r),
        None => Seq::empty(),
    }
}

/// The member record a message itself carries, with its channel's guild.
pub open spec fn embedded_head(app: &App, m: MessageResponse) -> Seq<(Seq<char>, GuildMemberResponse)> {
    match (m.member, guild_of_channel(app, m.channel_id@)) {
        (Some(mem), Some(g)) => seq![(g, mem)],
        _ => Seq::empty(),
    }
}

/// Merging member records one after another.
pub open spec fn apply_merges(map: Map<Seq<char>, Seq<MemberView>>, l: Seq<(Seq<char>, GuildMemberResponse)>) -> Map<
    Seq<char>,
    Seq<MemberView>,
>
    decreases l.len(),
{
    if l.len() == 0 {
        map
    } else {
        merge_into(apply_merges(map, l.drop_last()), l.last().0, mview(l.last().1))
    }
}

/// The users of member records, in order.
pub open spec fn merge_users(l: Seq<(Seq<char>, GuildMemberResponse)>) -> Seq<UserPartialResponse> {
    l.map_values(|e: (Seq<char>, GuildMemberResponse)| e.1.user)
}

/// For each message in turn: its carried members, then its author.
pub open spec fn page_merges(app: &App, ms: Seq<MessageResponse>) -> Seq<(Seq<char>, GuildMemberResponse)>
    decreases ms.len(),
{
    if ms.len() == 0 {
        Seq::empty()
    } else {
        page_merges(app, ms.drop_last()) + embedded(app, ms.last())
    }
}

/// The users a page of messages caches: per message, its carried members'
/// users, then its author.
pub open spec fn page_users(app: &App, ms: Seq<MessageResponse>) -> Seq<UserPartialResponse>
    decreases ms.len(),
{
    if ms.len() == 0 {
        Seq::empty()
    } else {
        page_users(app, ms.drop_last()) + merge_users(embedded(app, ms.last())).push(ms.last().author)
    }
}

/// The channel's cached messages (none when not loaded).
pub open spec fn msgs_of(app: &App, cid: Seq<char>) -> Seq<MessageResponse> {
    if app.messages@.dom().contains(cid) {
        app.messages@[cid]@
    } else {
        Seq::empty()
    }
}

/// `b`'s message map is `a`'s with channel `cid`'s list given view `v`.
pub open spec fn msgs_put(a: &App, b: &App, cid: Seq<char>, v: Seq<MessageResponse>) -> bool {
    &&& b.messages@.dom() == a.messages@.dom().insert(cid)
    &&& b.messages@.remove(cid) == a.messages@.remove(cid)
    &&& b.messages@[cid]@ == v
}

/// The members a message carries depend only on the stored channels.
pub proof fn lemma_embedded_same(a: &App, b: &App, m: MessageResponse)
    requires
        a.guild_channels == b.guild_channels,
    ensures
        embedded(a, m) == embedded(b, m),
    decreases m,
{
    if let Some(r) = m.referenced_message {
        lemma_embedded_same(a, b, *r);
    }
}

/// Merging users list after list is merging them all in order.
pub proof fn lemma_merged_users_concat(m: Map<Seq<char>, UserPartialResponse>, a: Seq<UserPartialResponse>, b: Seq<UserPartialResponse>)
    ensures
        merged_users(m, a + b) == merged_users(merged_users(m, a), b),
    decreases b.len(),
{
    if b.len() == 0 {
        assert(a + b =~= a);
    } else {
        lemma_merged_users_concat(m, a, b.drop_last());
        assert((a + b).drop_last() =~= a + b.drop_last());
        assert((a + b).last() == b.last());
    }
}

/// Applying merges list after list is applying them all in order.
pub proof fn lemma_apply_merges_concat(
    map: Map<Seq<char>, Seq<MemberView>>,
    a: Seq<(Seq<char>, GuildMemberResponse)>,
    b: Seq<(Seq<char>, GuildMemberResponse)>,
)
    ensures
        apply_merges(map, a + b) == apply_merges(apply_merges(map, a), b),
    decreases b.len(),
{
    if b.len() == 0 {
        assert(a + b =~= a);
    } else {
        lemma_apply_merges_concat(map, a, b.drop_last());
        assert((a + b).drop_last() =~= a + b.drop_last());
        assert((a + b).last() == b.last());
    }
}

/// A sorted list stays sorted when a message goes in at its insertion position.
proof fn lemma_insert_sorted(r: Seq<MessageResponse>, x: MessageResponse)
    requires
        msorted(r),
    ensures
        msorted(r.insert(mins_pos(r, x), x)),
        0 <= mins_pos(r, x) <= r.len(),
{
    let p = |y: MessageResponse| mkey(x) < mkey(y);
    lemma_first_idx_bounds(r, p, 0);
    let k = mins_pos(r, x);
    let t = r.insert(k, x);
    assert forall|i: int, j: int| 0 <= i < j < t.len() implies mkey(#[trigger] t[i]) <= mkey(#[trigger] t[j]) by {
        if j < k {
            assert(t[i] == r[i] && t[j] == r[j]);
        } else if j == k {
            assert(t[i] == r[i]);
            assert(!p(r[i]));
        } else if i == k {
            assert(t[j] == r[j - 1]);
            assert(p(r[k]));
            assert(mkey(r[k]) <= mkey(r[j - 1]));
        } else if i < k {
            assert(t[i] == r[i] && t[j] == r[j - 1]);
        } else {
            assert(t[i] == r[i - 1] && t[j] == r[j - 1]);
        }
    }
}

/// The sorted list is in key order and as long as the input.
pub proof fn lemma_msort_sorted(s: Seq<MessageResponse>)
    ensures
        msorted(msort(s)),
        msort(s).len() == s.len(),
    decreases s.len(),
{
    if s.len() > 0 {
        lemma_msort_sorted(s.drop_last());
        lemma_insert_sorted(msort(s.drop_last()), s.last());
    }
}

/// The same messages, position by position.
pub open spec fn msgs_eqv(a: Seq<MessageResponse>, b: Seq<MessageResponse>) -> bool {
    a.len() == b.len() && forall|i: int| 0 <= i < a.len() ==> (#[trigger] a[i]).eqv(&b[i])
}

/// Sorting the same messages gives the same messages in the same order.
pub proof fn lemma_msort_eqv(s1: Seq<MessageResponse>, s2: Seq<MessageResponse>)
    requires
        msgs_eqv(s1, s2),
    ensures
        msgs_eqv(msort(s1), msort(s2)),
    decreases s1.len(),
{
    lemma_msort_sorted(s1);
    lemma_msort_sorted(s2);
    if s1.len() > 0 {
        let d1 = s1.drop_last();
        let d2 = s2.drop_last();
        assert forall|i: int| 0 <= i < d1.len() implies (#[trigger] d1[i]).eqv(&d2[i]) by {
            assert(s1[i].eqv(&s2[i]));
        }
        lemma_msort_eqv(d1, d2);
        let r1 = msort(d1);
        let r2 = msort(d2);
        let x1 = s1.last();
        let x2 = s2.last();
        assert(x1.eqv(&x2));
        let p1 = |y: MessageResponse| mkey(x1) < mkey(y);
        let p2 = |y: MessageResponse| mkey(x2) < mkey(y);
        assert forall|i: int| 0 <= i < r1.len() implies p1(#[trigger] r1[i]) == p2(r2[i]) by {
            assert(r1[i].eqv(&r2[i]));
        }
        lemma_first_idx_congr(r1, r2, p1, p2, 0);
        lemma_first_idx_bounds(r1, p1, 0);
        let k = mins_pos(r1, x1);
        assert(k == mins_pos(r2, x2));
        let t1 = r1.insert(k, x1);
        let t2 = r2.insert(k, x2);
        assert forall|i: int| 0 <= i < t1.len() implies (#[trigger] t1[i]).eqv(&t2[i]) by {
            if i < k {
                assert(t1[i] == r1[i] && t2[i] == r2[i]);
            } else if i > k {
                assert(t1[i] == r1[i - 1] && t2[i] == r2[i - 1]);
                assert(r1[i - 1].eqv(&r2[i - 1]));
            }
        }
    }
}

/// Copies of the messages, in order.
pub fn copy_messages(v: &Vec<MessageResponse>) -> (r: Vec<MessageResponse>)
    ensures
        msgs_eqv(r@, v@),
{
    let mut out: Vec<MessageResponse> = Vec::new();
    let mut i: usize = 0;
    while i < v.len()
        invariant
            i <= v@.len(),
            out@.len() == i,
            forall|j: int| 0 <= j < i ==> (#[trigger] out@[j]).eqv(&v@[j]),
        decreases v@.len() - i,
    {
        out.push(v[i].duplicate());
        i = i + 1;
    }
    out
}

/// Sorts messages by key, stably, moving them.
pub fn sort_messages(v: Vec<MessageResponse>) -> (r: Vec<MessageResponse>)
    ensures
        r@ == msort(v@),
{
    let ghost all = v@;
    let mut rest = v;
    let total: usize = rest.len();
    let mut out: Vec<MessageResponse> = Vec::new();
    let mut n: usize = 0;
    while rest.len() > 0
        invariant
            n + rest@.len() == all.len(),
            all.len() == total,
            rest@ == all.skip(n as int),
            out@ == msort(all.take(n as int)),
        decreases rest@.len(),
    {
        let x = rest.remove(0);
        assert(x == all[n as int]);
        assert(all.take(n + 1).drop_last() =~= all.take(n as int));
        assert(rest@ =~= all.skip(n + 1));
        let kx = snowflake_sort_key(x.id.as_str());
        let ghost p = |y: MessageResponse| mkey(x) < mkey(y);
        let mut j: usize = 0;
        while j < out.len() && !(kx < snowflake_sort_key(out[j].id.as_str()))
            invariant
                j <= out@.len(),
                kx == mkey(x),
                p == (|y: MessageResponse| mkey(x) < mkey(y)),
                forall|k: int| 0 <= k < j ==> !p(#[trigger] out@[k]),
            decreases out@.len() - j,
        {
            j = j + 1;
        }
        proof {
            lemma_first_idx_is(out@, p, 0, j as int);
        }
        out.insert(j, x);
        n = n + 1;
    }
    assert(all.take(all.len() as int) =~= all);
    out
}

/// Position of the first message with this id, or the length.
fn message_index(v: &Vec<MessageResponse>, id: &str) -> (r: usize)
    ensures
        r == msg_index(v@, id@),
        r <= v@.len(),
{
    let ghost p = |m: MessageResponse| m.id@ == id@;
    let mut i: usize = 0;
    while i < v.len() && !str_eq(v[i].id.as_str(), id)
        invariant
            i <= v@.len(),
            p == (|m: MessageResponse| m.id@ == id@),
            forall|k: int| 0 <= k < i ==> !p(#[trigger] v@[k]),
        decreases v@.len() - i,
    {
        i = i + 1;
    }
    proof {
        lemma_first_idx_is(v@, p, 0, i as int);
    }
    i
}

/// `b` is `a` with the message stored, `was_new` telling whether it was new (see `upsert_message`).
pub open spec fn message_upserted(a: &App, b: &App, message: MessageResponse, was_new: bool) -> bool {
    &&& message.channel_id@.len() == 0 ==> !was_new && *b == *a
    &&& message.channel_id@.len() > 0 ==> {
                    &&& (App {
                        guild_members: a.guild_members,
                        user_cache: a.user_cache,
                        messages: a.messages,
                        ..*b
                    }) == *a
                    &&& members_view(b) == apply_merges(members_view(a), embedded(a, message))
                    &&& b.user_cache@ == merged_users(
                        a.user_cache@,
                        merge_users(embedded(a, message)).push(message.author) + message.mentions@,
                    )
                    &&& msgs_put(
                        a,
                        b,
                        message.channel_id@,
                        msort(msgs_upserted(msgs_of(a, message.channel_id@), message)),
                    )
                    &&& was_new == (msg_index(msgs_of(a, message.channel_id@), message.id@)
                        >= msgs_of(a, message.channel_id@).len())
                }
}

/// `b` is `a` with the channel's messages replaced by a page (see `set_channel_messages`).
pub open spec fn messages_set(a: &App, b: &App, channel_id: Seq<char>, messages: Vec<MessageResponse>) -> bool {
    &&& (App {
                    guild_members: a.guild_members,
                    user_cache: a.user_cache,
                    messages: a.messages,
                    messages_older_exhausted: a.messages_older_exhausted,
                    loading_messages: a.loading_messages,
                    api_backoff_until: a.api_backoff_until,
                    message_scroll_from_bottom: a.message_scroll_from_bottom,
                    ..*b
                }) == *a
    &&& members_view(b) == apply_merges(members_view(a), page_merges(a, messages@))
    &&& b.user_cache@ == merged_users(a.user_cache@, page_users(a, messages@))
    &&& msgs_put(
                    a,
                    b,
                    channel_id,
                    if messages@.len() > MAX_MESSAGES {
                        msort(messages@).skip(messages@.len() - MAX_MESSAGES)
                    } else {
                        msort(messages@)
                    },
                )
    &&& messages@.len() < HISTORY_PAGE ==> b.messages_older_exhausted@ == a.messages_older_exhausted@.insert(channel_id)
    &&& messages@.len() >= HISTORY_PAGE ==> b.messages_older_exhausted@ == a.messages_older_exhausted@.remove(channel_id)
    &&& b.loading_messages@ == a.loading_messages@.remove(channel_id)
    &&& b.api_backoff_until@ == a.api_backoff_until@.remove(
                    backoff_key("messages:"@, channel_id),
                )
    &&& b.message_scroll_from_bottom == 0
}

/// `b` is `a` with a page of older messages added (see `prepend_channel_messages`).
pub open spec fn messages_prepended(a: &App, b: &App, channel_id: Seq<char>, older: Vec<MessageResponse>) -> bool {
    &&& (App {
                    guild_members: a.guild_members,
                    user_cache: a.user_cache,
                    messages: a.messages,
                    loading_older_messages: a.loading_older_messages,
                    ..*b
                }) == *a
    &&& members_view(b) == apply_merges(members_view(a), page_merges(a, older@))
    &&& b.user_cache@ == merged_users(a.user_cache@, page_users(a, older@))
    &&& msgs_put(
                    a,
                    b,
                    channel_id,
                    msort(msgs_added(msgs_of(a, channel_id), older@)),
                )
    &&& b.loading_older_messages@ == a.loading_older_messages@.remove(channel_id)
}

/// `b` is `a` with the message dropped (see `remove_message`).
pub open spec fn message_removed(a: &App, b: &App, channel_id: Seq<char>, message_id: Seq<char>) -> bool {
    &&& (App { messages: a.messages, ..*b }) == *a
    &&& !a.messages@.dom().contains(channel_id) ==> b.messages@ == a.messages@
    &&& a.messages@.dom().contains(channel_id) ==> msgs_put(
                    a,
                    b,
                    channel_id,
                    msgs_without(a.messages@[channel_id]@, message_id),
                )
}

impl App {
    /// Merges the member record a message carries, and those of the messages
    /// it replies to, into their channel's guild.
    fn merge_message_embedded_members(&mut self, message: &MessageResponse)
        ensures
            same_but_members(old(self), final(self)),
            final(self).user_cache@ == merged_users(
                old(self).user_cache@,
                merge_users(embedded(old(self), *message)),
            ),
            members_view(final(self)) == apply_merges(members_view(old(self)), embedded(old(self), *message)),
        decreases message,
    {
        let ghost head = embedded_head(self, *message);
        if let Some(mem) = &message.member {
            if let Some(g) = self.guild_id_for_channel(message.channel_id.as_str()) {
                self.merge_guild_member(g.as_str(), mem.clone());
                proof {
                    assert(merge_users(head) =~= Seq::<UserPartialResponse>::empty().push(mem.user));
                    lemma_merged_users_push(old(self).user_cache@, Seq::empty(), mem.user);
                    assert(Seq::<UserPartialResponse>::empty().push(mem.user) =~= seq![mem.user]);
                    assert(head.drop_last() =~= Seq::<(Seq<char>, GuildMemberResponse)>::empty());
                    assert(apply_merges(members_view(old(self)), head.drop_last()) == members_view(old(self)));
                    assert(apply_merges(members_view(old(self)), head) == merge_into(members_view(old(self)), head.last().0, mview(head.last().1)));
                }
            }
        }
        assert(self.guild_channels == old(self).guild_channels);
        let ghost mid = *self;
        proof {
            if head.len() == 0 {
                assert(merge_users(head) =~= Seq::<UserPartialResponse>::empty());
                assert(apply_merges(members_view(old(self)), head) == members_view(old(self)));
            }
            assert(members_view(&mid) == apply_merges(members_view(old(self)), head));
        }
        if let Some(r) = &message.referenced_message {
            self.merge_message_embedded_members(&**r);
            proof {
                lemma_embedded_same(&mid, old(self), **r);
                lemma_merged_users_concat(old(self).user_cache@, merge_users(head), merge_users(embedded(old(self), **r)));
                assert(merge_users(head + embedded(old(self), **r)) =~= merge_users(head) + merge_users(embedded(old(self), **r)));
                lemma_apply_merges_concat(members_view(old(self)), head, embedded(old(self), **r));
            }
        } else {
            proof {
                assert(head + Seq::<(Seq<char>, GuildMemberResponse)>::empty() =~= head);
                assert(embedded(old(self), *message) == head);
            }
        }
    }

    /// Takes in the members and authors of a page of messages, in order.
    fn merge_page(&mut self, messages: &Vec<MessageResponse>)
        ensures
            same_but_members(old(self), final(self)),
            final(self).user_cache@ == merged_users(old(self).user_cache@, page_users(old(self), messages@)),
            members_view(final(self)) == apply_merges(members_view(old(self)), page_merges(old(self), messages@)),
    {
        let mut i: usize = 0;
        while i < messages.len()
            invariant
                i <= messages@.len(),
                same_but_members(old(self), self),
                self.user_cache@ == merged_users(old(self).user_cache@, page_users(old(self), messages@.take(i as int))),
                members_view(self) == apply_merges(members_view(old(self)), page_merges(old(self), messages@.take(i as int))),
            decreases messages@.len() - i,
        {
            let m = &messages[i];
            let ghost before = *self;
            assert(messages@.take(i + 1).drop_last() =~= messages@.take(i as int));
            self.merge_message_embedded_members(m);
            proof {
                lemma_embedded_same(&before, old(self), *m);
            }
            let one = vec![m.author.clone()];
            assert(one@ =~= seq![m.author]);
            merge_user_cache(&mut self.user_cache, one);
            proof {
                let pu = page_users(old(self), messages@.take(i as int));
                let eu = merge_users(embedded(old(self), *m));
                lemma_merged_users_concat(old(self).user_cache@, pu, eu);
                lemma_merged_users_push(old(self).user_cache@, pu + eu, m.author);
                lemma_merged_users_push(merged_users(old(self).user_cache@, pu + eu), Seq::empty(), m.author);
                assert(Seq::<UserPartialResponse>::empty().push(m.author) =~= seq![m.author]);
                assert(merged_users(merged_users(old(self).user_cache@, pu + eu), Seq::<UserPartialResponse>::empty()) == merged_users(old(self).user_cache@, pu + eu));
                assert(pu + eu.push(m.author) =~= (pu + eu).push(m.author));
                lemma_apply_merges_concat(
                    members_view(old(self)),
                    page_merges(old(self), messages@.take(i as int)),
                    embedded(old(self), *m),
                );
            }
            i = i + 1;
        }
        assert(messages@.take(messages@.len() as int) =~= messages@);
    }

    /// Stores a message the API or gateway reported, in place of the one with
    /// its id or added, keeping the channel's messages in snowflake order, and
    /// takes in the members and users it carries. Returns whether it was new;
    /// a message without a channel is ignored.
    #[verifier::rlimit(80)]
    pub fn upsert_message(&mut self, message: MessageResponse) -> (was_new: bool)
        ensures
            message_upserted(old(self), final(self), message, was_new),
    {
        if message.channel_id.as_str().is_empty() {
            return false;
        }
        let ghost m0 = message;
        self.merge_message_embedded_members(&message);
        let ghost s1 = *self;
        let one = vec![message.author.clone()];
        assert(one@ =~= seq![message.author]);
        merge_user_cache(&mut self.user_cache, one);
        let mentions = message.mentions.clone();
        assert(mentions@ =~= message.mentions@);
        merge_user_cache(&mut self.user_cache, mentions);
        proof {
            let eu = merge_users(embedded(old(self), m0));
            lemma_merged_users_push(old(self).user_cache@, eu, m0.author);
            lemma_merged_users_push(merged_users(old(self).user_cache@, eu), Seq::empty(), m0.author);
            assert(Seq::<UserPartialResponse>::empty().push(m0.author) =~= seq![m0.author]);
            assert(merged_users(merged_users(old(self).user_cache@, eu), Seq::<UserPartialResponse>::empty()) == merged_users(old(self).user_cache@, eu));
            lemma_merged_users_concat(old(self).user_cache@, eu.push(m0.author), m0.mentions@);
        }
        let idx = self.messages.index_of(message.channel_id.as_str());
        let mut list: Vec<MessageResponse> = match idx {
            Some(i) => {
                self.messages.reveal_pairs();
                proof {
                    crate::store::lemma_map_of_at(self.messages.pairs(), i as int);
                }
                self.messages.replace_value_at(i, Vec::new())
            },
            None => Vec::new(),
        };
        assert(list@ == msgs_of(old(self), m0.channel_id@));
        let k = message_index(&list, message.id.as_str());
        let was_new = k >= list.len();
        let cid = message.channel_id.clone();
        if k < list.len() {
            list.set(k, message);
        } else {
            list.push(message);
        }
        assert(list@ =~= msgs_upserted(msgs_of(old(self), m0.channel_id@), m0));
        let sorted = sort_messages(list);
        match idx {
            Some(i) => {
                let _ = self.messages.replace_value_at(i, sorted);
            },
            None => {
                self.messages.insert(cid, sorted);
            },
        }
        proof {
            assert(self.messages@.dom() =~= old(self).messages@.dom().insert(m0.channel_id@));
            assert(self.messages@.remove(m0.channel_id@) =~= old(self).messages@.remove(m0.channel_id@));
        }
        was_new
    }

    /// Replaces a channel's messages with a fetched page: sorted, at most the
    /// newest `MAX_MESSAGES` kept; a short page marks the history exhausted;
    /// the members and authors are taken in; the view returns to the bottom.
    pub fn set_channel_messages(&mut self, channel_id: &str, messages: Vec<MessageResponse>)
        ensures
            messages_set(old(self), final(self), channel_id@, messages),
    {
        self.merge_page(&messages);
        let n = messages.len();
        let ghost all = messages@;
        let mut sorted = sort_messages(messages);
        proof {
            lemma_msort_sorted(all);
        }
        if n < HISTORY_PAGE {
            let _ = self.messages_older_exhausted.insert(owned(channel_id));
        } else {
            let _ = self.messages_older_exhausted.remove(channel_id);
        }
        let kept = if n > MAX_MESSAGES {
            let mut rest: Vec<MessageResponse> = Vec::new();
            let drop = n - MAX_MESSAGES;
            let ghost srt = sorted@;
            let mut tail = sorted.split_off(drop);
            assert(tail@ =~= srt.skip(drop as int));
            tail
        } else {
            sorted
        };
        self.messages.insert(owned(channel_id), kept);
        let _ = self.loading_messages.remove(channel_id);
        self.api_backoff_clear(concat("messages:", channel_id).as_str());
        self.message_scroll_from_bottom = 0;
        proof {
            assert(self.messages@.dom() =~= old(self).messages@.dom().insert(channel_id@));
            assert(self.messages@.remove(channel_id@) =~= old(self).messages@.remove(channel_id@));
        }
    }

    /// Adds a page of older messages to a channel: those whose id is not
    /// there yet, then the list is put in snowflake order; the members and
    /// authors are taken in; the channel no longer loads older history.
    pub fn prepend_channel_messages(&mut self, channel_id: &str, older: Vec<MessageResponse>)
        ensures
            messages_prepended(old(self), final(self), channel_id@, older),
    {
        self.merge_page(&older);
        let idx = self.messages.index_of(channel_id);
        let mut list: Vec<MessageResponse> = match idx {
            Some(i) => {
                self.messages.reveal_pairs();
                proof {
                    crate::store::lemma_map_of_at(self.messages.pairs(), i as int);
                }
                self.messages.replace_value_at(i, Vec::new())
            },
            None => Vec::new(),
        };
        let ghost start = list@;
        assert(start == msgs_of(old(self), channel_id@));
        let ghost all = older@;
        let mut rest = older;
        let total: usize = rest.len();
        let mut n: usize = 0;
        while rest.len() > 0
            invariant
                n + rest@.len() == all.len(),
                all.len() == total,
                rest@ == all.skip(n as int),
                list@ == msgs_added(start, all.take(n as int)),
            decreases rest@.len(),
        {
            let m = rest.remove(0);
            assert(m == all[n as int]);
            assert(all.take(n + 1).drop_last() =~= all.take(n as int));
            assert(rest@ =~= all.skip(n + 1));
            if message_index(&list, m.id.as_str()) >= list.len() {
                list.push(m);
            }
            n = n + 1;
        }
        assert(all.take(all.len() as int) =~= all);
        let sorted = sort_messages(list);
        match idx {
            Some(i) => {
                let _ = self.messages.replace_value_at(i, sorted);
            },
            None => {
                self.messages.insert(owned(channel_id), sorted);
            },
        }
        let _ = self.loading_older_messages.remove(channel_id);
        proof {
            assert(self.messages@.dom() =~= old(self).messages@.dom().insert(channel_id@));
            assert(self.messages@.remove(channel_id@) =~= old(self).messages@.remove(channel_id@));
        }
    }

    /// Drops the messages with this id from a channel's cache.
    pub fn remove_message(&mut self, channel_id: &str, message_id: &str)
        ensures
            message_removed(old(self), final(self), channel_id@, message_id@),
    {
        let i = match self.messages.index_of(channel_id) {
            Some(i) => i,
            None => {
                return ;
            },
        };
        self.messages.reveal_pairs();
        proof {
            crate::store::lemma_map_of_at(self.messages.pairs(), i as int);
        }
        let list = self.messages.replace_value_at(i, Vec::new());
        let ghost all = list@;
        let mut rest = list;
        let total: usize = rest.len();
        let mut kept: Vec<MessageResponse> = Vec::new();
        let mut n: usize = 0;
        while rest.len() > 0
            invariant
                n + rest@.len() == all.len(),
                all.len() == total,
                rest@ == all.skip(n as int),
                kept@ == msgs_without(all.take(n as int), message_id@),
            decreases rest@.len(),
        {
            let m = rest.remove(0);
            assert(m == all[n as int]);
            assert(all.take(n + 1).drop_last() =~= all.take(n as int));
            assert(rest@ =~= all.skip(n + 1));
            if !str_eq(m.id.as_str(), message_id) {
                kept.push(m);
            }
            n = n + 1;
        }
        assert(all.take(all.len() as int) =~= all);
        let _ = self.messages.replace_value_at(i, kept);
        proof {
            assert(self.messages@.dom() =~= old(self).messages@.dom().insert(channel_id@));
            assert(self.messages@.remove(channel_id@) =~= old(self).messages@.remove(channel_id@));
        }
    }
}

/// The key that tells reactions apart: the custom emoji's id, else its name.
pub open spec fn reaction_key(e: ReactionEmojiResponse) -> Seq<char> {
    match e.id {
        Some(i) => i@,
        None => e.name@,
    }
}

/// The key that tells reactions apart: the custom emoji's id, else its name.
pub fn reaction_emoji_key(emoji: &ReactionEmojiResponse) -> (r: String)
    ensures
        r@ == reaction_key(*emoji),
{
    match &emoji.id {
        Some(id) => id.clone(),
        None => emoji.name.clone(),
    }
}

/// Position of the first reaction with this key.
pub open spec fn reaction_pos(rs: Seq<MessageReactionResponse>, key: Seq<char>) -> int {
    first_idx(rs, |r: MessageReactionResponse| reaction_key(r.emoji) == key, 0)
}

/// The reactions after a user adds one: its count goes up (and it is marked
/// as the signed-in user's when they added it), or it is appended with count 1.
pub open spec fn reactions_added(rs: Seq<MessageReactionResponse>, e: ReactionEmojiResponse, is_me: bool) -> Seq<
    MessageReactionResponse,
> {
    let k = reaction_pos(rs, reaction_key(e));
    if k < rs.len() {
        rs.update(
            k,
            MessageReactionResponse {
                count: (rs[k].count + 1) as u64,
                me: if is_me {
                    true
                } else {
                    rs[k].me
                },
                ..rs[k]
            },
        )
    } else {
        rs.push(MessageReactionResponse { emoji: e, count: 1, me: is_me })
    }
}

/// The reactions with a count above zero, in order.
pub open spec fn nonzero_reactions(rs: Seq<MessageReactionResponse>) -> Seq<MessageReactionResponse>
    decreases rs.len(),
{
    if rs.len() == 0 {
        Seq::empty()
    } else if rs.last().count > 0 {
        nonzero_reactions(rs.drop_last()).push(rs.last())
    } else {
        nonzero_reactions(rs.drop_last())
    }
}

/// The reactions after a user removes one: its count goes down (and the
/// signed-in user's mark is cleared when they removed it), then reactions
/// left at zero are dropped.
pub open spec fn reactions_removed(rs: Seq<MessageReactionResponse>, e: ReactionEmojiResponse, is_me: bool) -> Seq<
    MessageReactionResponse,
> {
    let k = reaction_pos(rs, reaction_key(e));
    nonzero_reactions(
        if k < rs.len() {
            rs.update(
                k,
                MessageReactionResponse {
                    count: if rs[k].count == 0 {
                        0
                    } else {
                        (rs[k].count - 1) as u64
                    },
                    me: if is_me {
                        false
                    } else {
                        rs[k].me
                    },
                    ..rs[k]
                },
            )
        } else {
            rs
        },
    )
}

/// The target of a reaction event: the message with its id in its channel's cache.
pub open spec fn reaction_target(app: &App, cid: Seq<char>, mid: Seq<char>) -> Option<MessageResponse> {
    let ms = msgs_of(app, cid);
    let k = msg_index(ms, mid);
    if app.messages@.dom().contains(cid) && k < ms.len() {
        Some(ms[k])
    } else {
        None
    }
}

/// `b` is `a` with message `mid` of channel `cid` given the reactions `rs`;
/// nothing else changes.
pub open spec fn reactions_put(a: &App, b: &App, cid: Seq<char>, mid: Seq<char>, rs: Seq<MessageReactionResponse>) -> bool {
    let ms = msgs_of(a, cid);
    let k = msg_index(ms, mid);
    &&& (App { messages: a.messages, ..*b }) == *a
    &&& b.messages@.dom() == a.messages@.dom()
    &&& b.messages@.remove(cid) == a.messages@.remove(cid)
    &&& b.messages@[cid]@.len() == ms.len()
    &&& forall|j: int| 0 <= j < ms.len() && j != k ==> #[trigger] b.messages@[cid]@[j] == ms[j]
    &&& b.messages@[cid]@[k].reactions@ == rs
    &&& (MessageResponse { reactions: b.messages@[cid]@[k].reactions, ..ms[k] }) == b.messages@[cid]@[k]
}

/// A decimal digit.
pub open spec fn digit_char(d: nat) -> char {
    if d == 0 { '0' } else if d == 1 { '1' } else if d == 2 { '2' } else if d == 3 { '3' } else if d == 4 {
        '4'
    } else if d == 5 { '5' } else if d == 6 { '6' } else if d == 7 { '7' } else if d == 8 { '8' } else { '9' }
}

/// The decimal form of a number, without leading zeros.
pub open spec fn decimal(n: nat) -> Seq<char>
    decreases n,
{
    if n < 10 {
        seq![digit_char(n)]
    } else {
        decimal(n / 10).push(digit_char(n % 10))
    }
}

fn digit_of(d: u128) -> (c: char)
    requires
        d < 10,
    ensures
        c == digit_char(d as nat),
{
    if d == 0 { '0' } else if d == 1 { '1' } else if d == 2 { '2' } else if d == 3 { '3' } else if d == 4 {
        '4'
    } else if d == 5 { '5' } else if d == 6 { '6' } else if d == 7 { '7' } else if d == 8 { '8' } else { '9' }
}

/// The decimal form of a number.
pub fn u128_to_decimal(n: u128) -> (r: String)
    ensures
        r@ == decimal(n as nat),
    decreases n,
{
    if n < 10 {
        let mut s = String::new();
        crate::text::push_char(&mut s, digit_of(n));
        assert(s@ =~= seq![digit_char(n as nat)]);
        s
    } else {
        let mut s = u128_to_decimal(n / 10);
        crate::text::push_char(&mut s, digit_of(n % 10));
        s
    }
}

/// Milliseconds from the Unix epoch to the snowflake epoch.
pub const SNOWFLAKE_EPOCH_MS: u128 = 1420070400000;

/// A snowflake for a message made on this client at `now_ms`: the time
/// part of a snowflake for that moment, or one past the largest key in the
/// channel when that is not larger; saturating.
pub open spec fn local_snowflake_spec(max_k: u128, now_ms: u128) -> u128 {
    let delta = if now_ms > SNOWFLAKE_EPOCH_MS {
        (now_ms - SNOWFLAKE_EPOCH_MS) as u128
    } else {
        0u128
    };
    let cand = if delta * 4194304 > u128::MAX {
        u128::MAX
    } else {
        (delta * 4194304) as u128
    };
    if cand <= max_k {
        if max_k == u128::MAX {
            max_k
        } else {
            (max_k + 1) as u128
        }
    } else {
        cand
    }
}

/// A snowflake for a message made on this client; see `local_snowflake_spec`.
pub fn local_snowflake(max_k: u128, now_ms: u128) -> (r: u128)
    ensures
        r == local_snowflake_spec(max_k, now_ms),
{
    let delta = now_ms.saturating_sub(SNOWFLAKE_EPOCH_MS);
    let mut cand: u128 = if delta > u128::MAX / 4194304 {
        u128::MAX
    } else {
        delta * 4194304
    };
    assert(delta > u128::MAX / 4194304 <==> delta * 4194304 > u128::MAX) by (nonlinear_arith);
    if cand <= max_k {
        cand = max_k.saturating_add(1);
    }
    cand
}

/// The largest key among the messages, or 0.
pub open spec fn max_key(ms: Seq<MessageResponse>) -> nat
    decreases ms.len(),
{
    if ms.len() == 0 {
        0
    } else if mkey(ms.last()) > max_key(ms.drop_last()) {
        mkey(ms.last())
    } else {
        max_key(ms.drop_last())
    }
}

/// `b` is `a` with the reaction counted (see `apply_reaction_add`).
pub open spec fn reaction_added(a: &App, b: &App, event: MessageReactionAddEvent) -> bool {
    &&& reaction_target(a, event.channel_id@, event.message_id@) is None ==> *b == *a
    &&& reaction_target(a, event.channel_id@, event.message_id@) matches Some(m) ==> reactions_put(
                    a,
                    b,
                    event.channel_id@,
                    event.message_id@,
                    reactions_added(m.reactions@, event.emoji, event.user_id@ == a.me.id@),
                )
}

/// `b` is `a` with the reaction uncounted (see `apply_reaction_remove`).
pub open spec fn reaction_removed(a: &App, b: &App, event: MessageReactionRemoveEvent) -> bool {
    &&& reaction_target(a, event.channel_id@, event.message_id@) is None ==> *b == *a
    &&& reaction_target(a, event.channel_id@, event.message_id@) matches Some(m) ==> reactions_put(
                    a,
                    b,
                    event.channel_id@,
                    event.message_id@,
                    reactions_removed(m.reactions@, event.emoji, event.user_id@ == a.me.id@),
                )
}

impl App {
    /// Counts a reaction the gateway reported on a cached message.
    pub fn apply_reaction_add(&mut self, event: MessageReactionAddEvent)
        requires
            reaction_target(old(self), event.channel_id@, event.message_id@) matches Some(m) ==> (
            reaction_pos(m.reactions@, reaction_key(event.emoji)) < m.reactions@.len() ==> m.reactions@[reaction_pos(
                m.reactions@,
                reaction_key(event.emoji),
            )].count < u64::MAX),
        ensures
            reaction_added(old(self), final(self), event),
    {
        let is_me = str_eq(event.user_id.as_str(), self.me.id.as_str());
        let key = reaction_emoji_key(&event.emoji);
        let cid = event.channel_id;
        let mid = event.message_id;
        let emoji = event.emoji;
        let ghost e0 = emoji;
        self.update_reactions(cid.as_str(), mid.as_str(), emoji, key, is_me, true);
    }

    /// Uncounts a reaction the gateway reported on a cached message; reactions
    /// left at zero are dropped.
    pub fn apply_reaction_remove(&mut self, event: MessageReactionRemoveEvent)
        ensures
            reaction_removed(old(self), final(self), event),
    {
        let is_me = str_eq(event.user_id.as_str(), self.me.id.as_str());
        let key = reaction_emoji_key(&event.emoji);
        self.update_reactions(event.channel_id.as_str(), event.message_id.as_str(), event.emoji, key, is_me, false);
    }

    #[verifier::rlimit(60)]
    fn update_reactions(&mut self, cid: &str, mid: &str, emoji: ReactionEmojiResponse, key: String, is_me: bool, add: bool)
        requires
            key@ == reaction_key(emoji),
            add ==> (reaction_target(old(self), cid@, mid@) matches Some(m) ==> (
            reaction_pos(m.reactions@, reaction_key(emoji)) < m.reactions@.len() ==> m.reactions@[reaction_pos(
                m.reactions@,
                reaction_key(emoji),
            )].count < u64::MAX)),
        ensures
            reaction_target(old(self), cid@, mid@) is None ==> *final(self) == *old(self),
            reaction_target(old(self), cid@, mid@) matches Some(m) ==> reactions_put(
                old(self),
                final(self),
                cid@,
                mid@,
                if add {
                    reactions_added(m.reactions@, emoji, is_me)
                } else {
                    reactions_removed(m.reactions@, emoji, is_me)
                },
            ),
    {
        let i = match self.messages.index_of(cid) {
            Some(i) => i,
            None => {
                return ;
            },
        };
        self.messages.reveal_pairs();
        proof {
            crate::store::lemma_map_of_at(self.messages.pairs(), i as int);
        }
        let k = message_index(self.messages.value_at(i), mid);
        if k >= self.messages.value_at(i).len() {
            return ;
        }
        let mut list = self.messages.replace_value_at(i, Vec::new());
        let ghost ms = list@;
        let mut msg = list.remove(k);
        let ghost m0 = msg;
        let mut rs: Vec<MessageReactionResponse> = Vec::new();
        std::mem::swap(&mut rs, &mut msg.reactions);
        let ghost p = |r: MessageReactionResponse| reaction_key(r.emoji) == key@;
        let mut j: usize = 0;
        while j < rs.len() && !str_eq(reaction_emoji_key(&rs[j].emoji).as_str(), key.as_str())
            invariant
                j <= rs@.len(),
                rs@ == m0.reactions@,
                p == (|r: MessageReactionResponse| reaction_key(r.emoji) == key@),
                forall|q: int| 0 <= q < j ==> !p(#[trigger] rs@[q]),
            decreases rs@.len() - j,
        {
            j = j + 1;
        }
        proof {
            lemma_first_idx_is(rs@, p, 0, j as int);
            assert(reaction_pos(m0.reactions@, key@) == j);
        }
        if add {
            if j < rs.len() {
                let old_r = rs.remove(j);
                let nr = MessageReactionResponse {
                    emoji: old_r.emoji,
                    count: old_r.count + 1,
                    me: if is_me { true } else { old_r.me },
                };
                rs.insert(j, nr);
            } else {
                rs.push(MessageReactionResponse { emoji, count: 1, me: is_me });
            }
            assert(rs@ =~= reactions_added(m0.reactions@, emoji, is_me));
        } else {
            if j < rs.len() {
                let old_r = rs.remove(j);
                let nr = MessageReactionResponse {
                    emoji: old_r.emoji,
                    count: old_r.count.saturating_sub(1),
                    me: if is_me { false } else { old_r.me },
                };
                rs.insert(j, nr);
            }
            let ghost upd = rs@;
            let total: usize = rs.len();
            let mut kept: Vec<MessageReactionResponse> = Vec::new();
            let mut n: usize = 0;
            while rs.len() > 0
                invariant
                    n + rs@.len() == upd.len(),
                    upd.len() == total,
                    rs@ == upd.skip(n as int),
                    kept@ == nonzero_reactions(upd.take(n as int)),
                decreases rs@.len(),
            {
                let r = rs.remove(0);
                assert(r == upd[n as int]);
                assert(upd.take(n + 1).drop_last() =~= upd.take(n as int));
                assert(rs@ =~= upd.skip(n + 1));
                if r.count > 0 {
                    kept.push(r);
                }
                n = n + 1;
            }
            assert(upd.take(upd.len() as int) =~= upd);
            rs = kept;
            assert(upd =~= if reaction_pos(m0.reactions@, key@) < m0.reactions@.len() {
                m0.reactions@.update(
                    reaction_pos(m0.reactions@, key@),
                    MessageReactionResponse {
                        count: if m0.reactions@[j as int].count == 0 {
                            0
                        } else {
                            (m0.reactions@[j as int].count - 1) as u64
                        },
                        me: if is_me {
                            false
                        } else {
                            m0.reactions@[j as int].me
                        },
                        ..m0.reactions@[j as int]
                    },
                )
            } else {
                m0.reactions@
            });
        }
        msg.reactions = rs;
        list.insert(k, msg);
        let _ = self.messages.replace_value_at(i, list);
        proof {
            assert(self.messages@.dom() =~= old(self).messages@.dom());
            assert(self.messages@.remove(cid@) =~= old(self).messages@.remove(cid@));
            assert forall|q: int| 0 <= q < ms.len() && q != k implies #[trigger] self.messages@[cid@]@[q] == ms[q] by {
            }
        }
    }

    /// A snowflake id for a message made on this client in a channel: later
    /// than every cached message of the channel; see `local_snowflake_spec`.
    pub fn allocate_local_message_snowflake(&self, channel_id: &str) -> (r: String)
        ensures
            exists|now_ms: u128| r@ == decimal(#[trigger] local_snowflake_spec(max_key(msgs_of(self, channel_id@)) as u128, now_ms) as nat),
    {
        let max_k = self.max_message_key(channel_id);
        let ms = crate::app::clock_now_millis();
        let now: u128 = if ms < 0 {
            0
        } else {
            ms as u128
        };
        let r = u128_to_decimal(local_snowflake(max_k, now));
        assert(r@ == decimal(local_snowflake_spec(max_key(msgs_of(self, channel_id@)) as u128, now) as nat));
        r
    }

    /// The largest key among a channel's cached messages, or 0.
    pub fn max_message_key(&self, channel_id: &str) -> (r: u128)
        ensures
            r as nat == max_key(msgs_of(self, channel_id@)),
    {
        let msgs = match self.messages.get(channel_id) {
            Some(m) => m,
            None => {
                return 0;
            },
        };
        let mut best: u128 = 0;
        let mut i: usize = 0;
        while i < msgs.len()
            invariant
                i <= msgs@.len(),
                best as nat == max_key(msgs@.take(i as int)),
            decreases msgs@.len() - i,
        {
            assert(msgs@.take(i + 1).drop_last() =~= msgs@.take(i as int));
            let k = snowflake_sort_key(msgs[i].id.as_str());
            if k > best {
                best = k;
            }
            i = i + 1;
        }
        assert(msgs@.take(msgs@.len() as int) =~= msgs@);
        best
    }
}

} // verus!
