//! Read state: which channels hold messages the user has not read, how many
//! mentions wait in them, and how a server sums them up.
use crate::app::{opt_str, read_view, App, NotificationVisibility, ReadState, ServerSelection};
use crate::channels::{chs_eqv, index_of_id, server_list};
use crate::app::server_view;
use crate::seqs::{first_idx, lemma_first_idx_is};
use crate::settings::visibility_of;
use crate::text::{owned, str_eq};
use crate::types::{
    sort_key, snowflake_sort_key, spec_channel_type, ChannelResponse, ReadStateResponse,
    CHANNEL_GUILD_CATEGORY, CHANNEL_GUILD_VOICE,
};
use vstd::prelude::*;

verus! {

/// The channels of each stored guild, one list after the other.
pub open spec fn flat_groups(ps: Seq<(String, Vec<ChannelResponse>)>) -> Seq<ChannelResponse>
    decreases ps.len(),
{
    if ps.len() == 0 {
        Seq::empty()
    } else {
        flat_groups(ps.drop_last()) + ps.last().1@
    }
}

/// Every stored channel: direct messages first, then the guilds' channels in storage order.
pub open spec fn known_channels(app: &App) -> Seq<ChannelResponse> {
    app.private_channels@ + flat_groups(app.guild_channels.pairs())
}

/// The first stored channel with this id.
pub open spec fn channel_of(app: &App, id: Seq<char>) -> Option<ChannelResponse> {
    let k = index_of_id(known_channels(app), id);
    if k < known_channels(app).len() {
        Some(known_channels(app)[k])
    } else {
        None
    }
}

/// The id of the newest cached message of a channel.
pub open spec fn cached_last(app: &App, id: Seq<char>) -> Option<Seq<char>> {
    if app.messages@.dom().contains(id) && app.messages@[id]@.len() > 0 {
        Some(app.messages@[id]@.last().id@)
    } else {
        None
    }
}

/// The last message id that the channel's metadata names.
pub open spec fn meta_last(app: &App, id: Seq<char>) -> Option<Seq<char>> {
    match channel_of(app, id) {
        Some(c) => opt_str(c.last_message_id),
        None => None,
    }
}

/// The newer of two optional message ids; the first wins a tie.
pub open spec fn newer(a: Option<Seq<char>>, b: Option<Seq<char>>) -> Option<Seq<char>> {
    match (a, b) {
        (Some(x), Some(y)) => if sort_key(x) >= sort_key(y) {
            Some(x)
        } else {
            Some(y)
        },
        (Some(x), None) => Some(x),
        (None, y) => y,
    }
}

/// The channel's last message: the newer of the cached one and the metadata's.
pub open spec fn last_message_of(app: &App, id: Seq<char>) -> Option<Seq<char>> {
    newer(cached_last(app, id), meta_last(app, id))
}

/// A channel is unread when a read state exists for it and the last message
/// is newer than the one read (or nothing was read).
pub open spec fn unread_spec(app: &App, id: Seq<char>) -> bool {
    if !app.read_states@.dom().contains(id) {
        false
    } else {
        match (opt_str(app.read_states@[id].last_message_id), last_message_of(app, id)) {
            (Some(r), Some(l)) => sort_key(r) < sort_key(l),
            (None, Some(_)) => true,
            _ => false,
        }
    }
}

/// Mentions waiting in a channel.
pub open spec fn mention_of(app: &App, id: Seq<char>) -> u64 {
    if app.read_states@.dom().contains(id) {
        app.read_states@[id].mention_count
    } else {
        0
    }
}

/// `b` differs from `a` at most in its read states.
pub open spec fn same_but_reads(a: &App, b: &App) -> bool {
    App { read_states: a.read_states, ..*b } == *a
}

/// `b` is `a` with the read state of `id` set to `v` and every other read state kept.
pub open spec fn reads_set(a: &App, b: &App, id: Seq<char>, v: (Option<Seq<char>>, u64)) -> bool {
    &&& same_but_reads(a, b)
    &&& b.read_states@.dom().contains(id)
    &&& read_view(b.read_states@[id]) == v
    &&& b.read_states@.remove(id) == a.read_states@.remove(id)
}

/// A channel whose notifications show every message, with unread messages.
pub open spec fn visible_unread(app: &App, id: Seq<char>) -> bool {
    match channel_of(app, id) {
        Some(c) => visibility_of(app, c) == NotificationVisibility::AllMessages && unread_spec(app, id),
        None => false,
    }
}

/// Mentions of a channel that its notification level lets through.
pub open spec fn visible_mentions(app: &App, id: Seq<char>) -> u64 {
    match channel_of(app, id) {
        Some(c) => if visibility_of(app, c) == NotificationVisibility::Off {
            0
        } else {
            mention_of(app, id)
        },
        None => 0,
    }
}

/// Whether a channel counts toward its server's unread badge: not a category,
/// and a voice channel only while it has visible mentions.
pub open spec fn counts_toward_unread(app: &App, c: ChannelResponse) -> bool {
    spec_channel_type(c) != CHANNEL_GUILD_CATEGORY && (spec_channel_type(c) != CHANNEL_GUILD_VOICE
        || visible_mentions(app, c.id@) > 0)
}

/// How many of the channels count toward the unread badge and are visibly unread.
pub open spec fn unread_count(app: &App, s: Seq<ChannelResponse>) -> nat
    decreases s.len(),
{
    if s.len() == 0 {
        0
    } else {
        unread_count(app, s.drop_last()) + if counts_toward_unread(app, s.last()) && visible_unread(
            app,
            s.last().id@,
        ) {
            1nat
        } else {
            0nat
        }
    }
}

/// The visible mentions of the channels that are not categories, summed.
pub open spec fn mention_sum(app: &App, s: Seq<ChannelResponse>) -> nat
    decreases s.len(),
{
    if s.len() == 0 {
        0
    } else {
        mention_sum(app, s.drop_last()) + if spec_channel_type(s.last()) != CHANNEL_GUILD_CATEGORY {
            visible_mentions(app, s.last().id@) as nat
        } else {
            0nat
        }
    }
}

/// The flattened groups of a prefix of the storage are a prefix of all of them.
pub proof fn lemma_flat_prefix(ps: Seq<(String, Vec<ChannelResponse>)>, m: int)
    requires
        0 <= m <= ps.len(),
    ensures
        flat_groups(ps.take(m)).len() <= flat_groups(ps).len(),
        forall|k: int|
            0 <= k < flat_groups(ps.take(m)).len() ==> #[trigger] flat_groups(ps.take(m))[k]
                == flat_groups(ps)[k],
    decreases ps.len() - m,
{
    if m == ps.len() {
        assert(ps.take(m) =~= ps);
    } else {
        lemma_flat_prefix(ps, m + 1);
        assert(ps.take(m + 1).drop_last() =~= ps.take(m));
        let a = flat_groups(ps.take(m));
        let b = flat_groups(ps.take(m + 1));
        assert(b == a + ps[m].1@);
        assert forall|k: int| 0 <= k < a.len() implies #[trigger] a[k] == flat_groups(ps)[k] by {
            assert(a[k] == b[k]);
        }
    }
}

/// Adding one more group to the prefix appends its channels.
pub proof fn lemma_flat_step(ps: Seq<(String, Vec<ChannelResponse>)>, m: int)
    requires
        0 <= m < ps.len(),
    ensures
        flat_groups(ps.take(m + 1)) == flat_groups(ps.take(m)) + ps[m].1@,
{
    assert(ps.take(m + 1).drop_last() =~= ps.take(m));
}

/// The tally over a list depends only on the channels' ids and types, so a
/// list of equivalent channels gives the same counts.
pub proof fn lemma_counts_eqv(app: &App, a: Seq<ChannelResponse>, b: Seq<ChannelResponse>)
    requires
        chs_eqv(a, b),
    ensures
        unread_count(app, a) == unread_count(app, b),
        mention_sum(app, a) == mention_sum(app, b),
    decreases a.len(),
{
    if a.len() > 0 {
        assert(a.last().eqv(&b.last()));
        assert(chs_eqv(a.drop_last(), b.drop_last())) by {
            assert forall|i: int| 0 <= i < a.drop_last().len() implies #[trigger] a.drop_last()[i].eqv(
                &b.drop_last()[i],
            ) by {
                assert(a[i].eqv(&b[i]));
            }
        }
        lemma_counts_eqv(app, a.drop_last(), b.drop_last());
    }
}

/// `b` is `a` with the server's read states stored (see `set_read_states`).
pub open spec fn read_states_set(a: &App, b: &App, states: Vec<ReadStateResponse>) -> bool {
    &&& same_but_reads(a, b)
    &&& b.read_states@ == applied_reads(a.read_states@, states@)
}

impl App {
    /// The first stored channel with this id: direct messages first, then the guilds' channels.
    pub fn channel_by_id(&self, channel_id: &str) -> (r: Option<&ChannelResponse>)
        ensures
            r matches Some(c) ==> channel_of(self, channel_id@) == Some(*c),
            r is None ==> channel_of(self, channel_id@) is None,
    {
        let ghost all = known_channels(self);
        let ghost p = crate::channels::id_is(channel_id@);
        let ghost ps = self.guild_channels.pairs();
        assert(index_of_id(all, channel_id@) == first_idx(all, p, 0));
        let mut i: usize = 0;
        while i < self.private_channels.len()
            invariant
                i <= self.private_channels@.len(),
                all == known_channels(self),
                p == crate::channels::id_is(channel_id@),
                forall|k: int| 0 <= k < i ==> !p(#[trigger] all[k]),
            decreases self.private_channels@.len() - i,
        {
            assert(all[i as int] == self.private_channels@[i as int]);
            if str_eq(self.private_channels[i].id.as_str(), channel_id) {
                proof {
                    lemma_first_idx_is(all, p, 0, i as int);
                }
                return Some(&self.private_channels[i]);
            }
            i = i + 1;
        }
        let base: usize = self.private_channels.len();
        let mut g: usize = 0;
        while g < self.guild_channels.len()
            invariant
                g <= ps.len(),
                ps == self.guild_channels.pairs(),
                all == known_channels(self),
                base == self.private_channels@.len(),
                p == crate::channels::id_is(channel_id@),
                forall|k: int| 0 <= k < base + flat_groups(ps.take(g as int)).len() ==> !p(#[trigger] all[k]),
            decreases ps.len() - g,
        {
            let chs = self.guild_channels.value_at(g);
            proof {
                lemma_flat_step(ps, g as int);
                lemma_flat_prefix(ps, g + 1);
            }
            let ghost off = base + flat_groups(ps.take(g as int)).len();
            let mut j: usize = 0;
            while j < chs.len()
                invariant
                    j <= chs@.len(),
                    *chs == ps[g as int].1,
                    g < ps.len(),
                    off == base + flat_groups(ps.take(g as int)).len(),
                    flat_groups(ps.take(g + 1)) == flat_groups(ps.take(g as int)) + ps[g as int].1@,
                    flat_groups(ps.take(g + 1)).len() <= flat_groups(ps).len(),
                    forall|k: int|
                        0 <= k < flat_groups(ps.take(g + 1)).len() ==> #[trigger] flat_groups(
                            ps.take(g + 1),
                        )[k] == flat_groups(ps)[k],
                    ps == self.guild_channels.pairs(),
                    all == known_channels(self),
                    base == self.private_channels@.len(),
                    p == crate::channels::id_is(channel_id@),
                    forall|k: int| 0 <= k < off + j ==> !p(#[trigger] all[k]),
                decreases chs@.len() - j,
            {
                proof {
                    let fk = flat_groups(ps.take(g as int)).len() + j;
                    assert(flat_groups(ps.take(g + 1))[fk as int] == chs@[j as int]);
                    assert(all[off + j] == flat_groups(ps)[fk as int]);
                }
                if str_eq(chs[j].id.as_str(), channel_id) {
                    proof {
                        lemma_first_idx_is(all, p, 0, off + j);
                    }
                    return Some(&chs[j]);
                }
                j = j + 1;
            }
            g = g + 1;
        }
        proof {
            assert(ps.take(ps.len() as int) =~= ps);
            lemma_first_idx_is(all, p, 0, all.len() as int);
        }
        None
    }

    /// The channel's last message id: the newer of the newest cached message
    /// and the channel metadata's last message.
    pub fn channel_last_message_id(&self, channel_id: &str) -> (r: Option<String>)
        ensures
            opt_str(r) == last_message_of(self, channel_id@),
    {
        let cached: Option<String> = match self.messages.get(channel_id) {
            Some(msgs) => if msgs.len() > 0 {
                Some(msgs[msgs.len() - 1].id.clone())
            } else {
                None
            },
            None => None,
        };
        let channel_last: Option<String> = match self.channel_by_id(channel_id) {
            Some(c) => c.last_message_id.clone(),
            None => None,
        };
        match (cached, channel_last) {
            (Some(a), Some(b)) => if snowflake_sort_key(a.as_str()) >= snowflake_sort_key(
                b.as_str(),
            ) {
                Some(a)
            } else {
                Some(b)
            },
            (Some(a), None) => Some(a),
            (None, b) => b,
        }
    }

    /// Marks a channel read up to its last message and clears its mentions;
    /// nothing changes when the channel has no known last message.
    pub fn ack_channel(&mut self, channel_id: &str)
        ensures
            last_message_of(old(self), channel_id@) is None ==> *final(self) == *old(self),
            last_message_of(old(self), channel_id@) is Some ==> reads_set(
                old(self),
                final(self),
                channel_id@,
                (last_message_of(old(self), channel_id@), 0),
            ),
    {
        let last = self.channel_last_message_id(channel_id);
        if let Some(msg_id) = last {
            let st = ReadState { last_message_id: Some(msg_id), mention_count: 0 };
            self.read_states.insert(owned(channel_id), st);
            proof {
                assert(final(self).read_states@.remove(channel_id@) =~= old(self).read_states@.remove(
                    channel_id@,
                ));
            }
        }
    }

    /// Whether a channel has a read state and messages newer than it.
    pub fn channel_is_unread(&self, channel_id: &str) -> (r: bool)
        ensures
            r == unread_spec(self, channel_id@),
    {
        let rs = match self.read_states.get(channel_id) {
            Some(rs) => rs,
            None => {
                return false;
            },
        };
        let channel_last = self.channel_last_message_id(channel_id);
        match (&rs.last_message_id, &channel_last) {
            (Some(read), Some(last)) => snowflake_sort_key(read.as_str()) < snowflake_sort_key(
                last.as_str(),
            ),
            (None, Some(_)) => true,
            _ => false,
        }
    }

    /// Mentions waiting in a channel (0 without a read state).
    pub fn channel_mention_count(&self, channel_id: &str) -> (r: u64)
        ensures
            r == mention_of(self, channel_id@),
    {
        match self.read_states.get(channel_id) {
            Some(rs) => rs.mention_count,
            None => 0,
        }
    }

    /// Whether a stored channel is unread and its notifications show every message.
    pub fn visible_channel_is_unread(&self, channel_id: &str) -> (r: bool)
        ensures
            r == visible_unread(self, channel_id@),
    {
        let channel = match self.channel_by_id(channel_id) {
            Some(c) => c,
            None => {
                return false;
            },
        };
        self.channel_notification_visibility(channel) == NotificationVisibility::AllMessages
            && self.channel_is_unread(channel_id)
    }

    /// A stored channel's mentions, 0 when its notifications are off.
    pub fn visible_channel_mention_count(&self, channel_id: &str) -> (r: u64)
        ensures
            r == visible_mentions(self, channel_id@),
    {
        let channel = match self.channel_by_id(channel_id) {
            Some(c) => c,
            None => {
                return 0;
            },
        };
        match self.channel_notification_visibility(channel) {
            NotificationVisibility::Off => 0,
            NotificationVisibility::AllMessages | NotificationVisibility::MentionsOnly => {
                self.channel_mention_count(channel_id)
            },
        }
    }

    fn channel_counts_toward_server_unread(&self, channel: &ChannelResponse) -> (r: bool)
        ensures
            r == counts_toward_unread(self, *channel),
    {
        channel.channel_type() != CHANNEL_GUILD_CATEGORY && (channel.channel_type()
            != CHANNEL_GUILD_VOICE || self.visible_channel_mention_count(channel.id.as_str()) > 0)
    }

    /// How many of a server's channels show as unread.
    pub fn server_unread_channel_count(&self, server: &ServerSelection) -> (r: usize)
        ensures
            r == unread_count(self, server_list(self, server_view(*server))),
    {
        let all = self.all_channels_for_server(server);
        let ghost full = server_list(self, server_view(*server));
        let mut n: usize = 0;
        let mut i: usize = 0;
        while i < all.len()
            invariant
                i <= all@.len(),
                n == unread_count(self, all@.take(i as int)),
                n <= i,
            decreases all@.len() - i,
        {
            assert(all@.take(i + 1).drop_last() =~= all@.take(i as int));
            let c = &all[i];
            if self.channel_counts_toward_server_unread(c) && self.visible_channel_is_unread(
                c.id.as_str(),
            ) {
                n = n + 1;
            }
            i = i + 1;
        }
        proof {
            assert(all@.take(all@.len() as int) =~= all@);
            lemma_counts_eqv(self, all@, full);
        }
        n
    }

    /// The visible mentions of a server's channels, summed.
    pub fn server_mention_count(&self, server: &ServerSelection) -> (r: u64)
        requires
            mention_sum(self, server_list(self, server_view(*server))) <= u64::MAX,
        ensures
            r == mention_sum(self, server_list(self, server_view(*server))),
    {
        let all = self.all_channels_for_server(server);
        let ghost full = server_list(self, server_view(*server));
        proof {
            lemma_counts_eqv(self, all@, full);
            lemma_mention_sum_prefix(self, all@, 0);
        }
        let mut total: u64 = 0;
        let mut i: usize = 0;
        while i < all.len()
            invariant
                i <= all@.len(),
                total == mention_sum(self, all@.take(i as int)),
                mention_sum(self, all@) <= u64::MAX,
            decreases all@.len() - i,
        {
            proof {
                assert(all@.take(i + 1).drop_last() =~= all@.take(i as int));
                lemma_mention_sum_prefix(self, all@, i + 1);
            }
            let c = &all[i];
            if c.channel_type() != CHANNEL_GUILD_CATEGORY {
                total = total + self.visible_channel_mention_count(c.id.as_str());
            }
            i = i + 1;
        }
        proof {
            assert(all@.take(all@.len() as int) =~= all@);
        }
        total
    }

    /// Stores the read states the server sent; entries without a channel id are skipped.
    pub fn set_read_states(&mut self, states: Vec<ReadStateResponse>)
        ensures
            read_states_set(old(self), final(self), states),
    {
        let ghost start = *self;
        let mut i: usize = 0;
        while i < states.len()
            invariant
                i <= states@.len(),
                same_but_reads(&start, self),
                start == *old(self),
                self.read_states@ == applied_reads(start.read_states@, states@.take(i as int)),
            decreases states@.len() - i,
        {
            assert(states@.take(i + 1).drop_last() =~= states@.take(i as int));
            let s = &states[i];
            if !s.id.as_str().is_empty() {
                let st = ReadState { last_message_id: s.last_message_id.clone(), mention_count: s.mention_count };
                self.read_states.insert(s.id.clone(), st);
            }
            i = i + 1;
        }
        assert(states@.take(states@.len() as int) =~= states@);
    }
}

/// The read states after applying the server's list in order.
pub open spec fn applied_reads(m: Map<Seq<char>, ReadState>, s: Seq<ReadStateResponse>) -> Map<Seq<char>, ReadState>
    decreases s.len(),
{
    if s.len() == 0 {
        m
    } else {
        let prev = applied_reads(m, s.drop_last());
        let x = s.last();
        if x.id@.len() > 0 {
            prev.insert(x.id@, ReadState { last_message_id: x.last_message_id, mention_count: x.mention_count })
        } else {
            prev
        }
    }
}

/// The sum over a prefix is at most the sum over the whole list.
pub proof fn lemma_mention_sum_prefix(app: &App, s: Seq<ChannelResponse>, m: int)
    requires
        0 <= m <= s.len(),
    ensures
        mention_sum(app, s.take(m)) <= mention_sum(app, s),
    decreases s.len() - m,
{
    if m < s.len() {
        lemma_mention_sum_prefix(app, s, m + 1);
        assert(s.take(m + 1).drop_last() =~= s.take(m));
    } else {
        assert(s.take(m) =~= s);
    }
}

/// After a channel is acknowledged it is read and has no mentions, and its
/// last message is unchanged.
pub proof fn lemma_ack_clears(a: &App, b: &App, id: Seq<char>)
    requires
        last_message_of(a, id) is Some,
        reads_set(a, b, id, (last_message_of(a, id), 0)),
    ensures
        last_message_of(b, id) == last_message_of(a, id),
        !unread_spec(b, id),
        mention_of(b, id) == 0,
        !visible_unread(b, id),
        visible_mentions(b, id) == 0,
{
    assert(known_channels(b) == known_channels(a));
    assert(channel_of(b, id) == channel_of(a, id));
    assert(b.messages == a.messages);
    assert(cached_last(b, id) == cached_last(a, id));
}

/// The last message of a channel is the newer of the cached one and the
/// metadata's, and at least as new as both.
pub proof fn lemma_last_message_is_newest(app: &App, id: Seq<char>)
    ensures
        last_message_of(app, id) is None <==> (cached_last(app, id) is None && meta_last(app, id) is None),
        last_message_of(app, id) matches Some(l) ==> (Some(l) == cached_last(app, id) || Some(l) == meta_last(app, id)),
        last_message_of(app, id) matches Some(l) ==> (cached_last(app, id) matches Some(c) ==> sort_key(c) <= sort_key(l)),
        last_message_of(app, id) matches Some(l) ==> (meta_last(app, id) matches Some(m) ==> sort_key(m) <= sort_key(l)),
{
}

/// A channel shown as unread is unread.
pub proof fn lemma_visible_unread_is_unread(app: &App, id: Seq<char>)
    ensures
        visible_unread(app, id) ==> unread_spec(app, id),
        visible_mentions(app, id) <= mention_of(app, id),
{
}

} // verus!
