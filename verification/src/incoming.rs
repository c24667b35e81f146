//! What a message arriving from the gateway does: it moves its channel's last
//! message forward and updates the read state and mention count.
use crate::app::{opt_str, App, NotificationVisibility, ReadState};
use crate::channels::{index_of_id, my_roles};
use crate::reads::{channel_of, mention_of, reads_set};
use crate::seqs::{first_idx, lemma_first_idx_is};
use crate::settings::{channel_muted, suppress_everyone_of, suppress_roles_of, visibility_of};
use crate::text::{owned, str_eq};
use crate::types::{sort_key, snowflake_sort_key, ChannelResponse, GuildMemberResponse, MessageResponse};
use vstd::prelude::*;

verus! {

/// Whether a message id moves a channel's last message forward.
pub open spec fn bumps(last: Option<String>, mid: Seq<char>) -> bool {
    match last {
        None => true,
        Some(p) => sort_key(mid) > sort_key(p@),
    }
}

/// `c2` is `c` with its last message set to `mid`.
pub open spec fn relast(c: ChannelResponse, c2: ChannelResponse, mid: Seq<char>) -> bool {
    ChannelResponse { last_message_id: c2.last_message_id, ..c } == c2 && opt_str(c2.last_message_id)
        == Some(mid)
}

/// A channel with this id whose last message `mid` moves forward.
pub open spec fn private_hit(cid: Seq<char>, mid: Seq<char>) -> spec_fn(ChannelResponse) -> bool {
    |c: ChannelResponse| c.id@ == cid && bumps(c.last_message_id, mid)
}

/// The first direct message channel with this id whose last message `mid` moves forward.
pub open spec fn private_target(app: &App, cid: Seq<char>, mid: Seq<char>) -> int {
    first_idx(app.private_channels@, private_hit(cid, mid), 0)
}

/// The channel `private_target` picks has the id and moves forward.
pub proof fn lemma_private_target(app: &App, cid: Seq<char>, mid: Seq<char>)
    ensures
        0 <= private_target(app, cid, mid) <= app.private_channels@.len(),
        private_target(app, cid, mid) < app.private_channels@.len() ==> ({
            let c = app.private_channels@[private_target(app, cid, mid)];
            c.id@ == cid && bumps(c.last_message_id, mid)
        }),
        forall|j: int|
            0 <= j < private_target(app, cid, mid) ==> !(#[trigger] app.private_channels@[j].id@ == cid
                && bumps(app.private_channels@[j].last_message_id, mid)),
{
    crate::seqs::lemma_first_idx_bounds(app.private_channels@, private_hit(cid, mid), 0);
}

/// `group_target` is the first guild whose channels hold one with the id,
/// or the number of guilds when none does.
pub proof fn lemma_group_target_bounds(app: &App, cid: Seq<char>)
    ensures
        0 <= group_target(app, cid) <= app.guild_channels.pairs().len(),
        group_target(app, cid) < app.guild_channels.pairs().len() ==> index_of_id(
            app.guild_channels.pairs()[group_target(app, cid)].1@,
            cid,
        ) < app.guild_channels.pairs()[group_target(app, cid)].1@.len(),
        forall|g: int|
            0 <= g < group_target(app, cid) ==> !(index_of_id(#[trigger] app.guild_channels.pairs()[g].1@, cid)
                < app.guild_channels.pairs()[g].1@.len()),
{
    crate::seqs::lemma_first_idx_bounds(
        app.guild_channels.pairs(),
        |e: (String, Vec<ChannelResponse>)| index_of_id(e.1@, cid) < e.1@.len(),
        0,
    );
}

/// The first stored guild whose channels include one with this id.
pub open spec fn group_target(app: &App, cid: Seq<char>) -> int {
    first_idx(
        app.guild_channels.pairs(),
        |e: (String, Vec<ChannelResponse>)| index_of_id(e.1@, cid) < e.1@.len(),
        0,
    )
}

/// `b` is `a` with the last message of channel `cid` moved to `mid`: the
/// first direct message channel it moves forward, else the first match in the
/// first guild holding the channel, if it moves forward there.
pub open spec fn patched(a: &App, b: &App, cid: Seq<char>, mid: Seq<char>) -> bool {
    let pi = private_target(a, cid, mid);
    let gi = group_target(a, cid);
    let ps = a.guild_channels.pairs();
    if pi < a.private_channels@.len() {
        &&& App { private_channels: a.private_channels, ..*b } == *a
        &&& b.private_channels@.len() == a.private_channels@.len()
        &&& forall|k: int|
            0 <= k < a.private_channels@.len() && k != pi ==> #[trigger] b.private_channels@[k]
                == a.private_channels@[k]
        &&& relast(a.private_channels@[pi], b.private_channels@[pi], mid)
    } else if gi < ps.len() && bumps(
        ps[gi].1@[index_of_id(ps[gi].1@, cid)].last_message_id,
        mid,
    ) {
        let chs = ps[gi].1@;
        let j = index_of_id(chs, cid);
        &&& App { guild_channels: a.guild_channels, ..*b } == *a
        &&& b.guild_channels.pairs() == ps.update(gi, (ps[gi].0, b.guild_channels.pairs()[gi].1))
        &&& b.guild_channels@ == a.guild_channels@.insert(ps[gi].0@, b.guild_channels.pairs()[gi].1)
        &&& b.guild_channels.pairs()[gi].1@.len() == chs.len()
        &&& forall|k: int|
            0 <= k < chs.len() && k != j ==> #[trigger] b.guild_channels.pairs()[gi].1@[k] == chs[k]
        &&& relast(chs[j], b.guild_channels.pairs()[gi].1@[j], mid)
    } else {
        *b == *a
    }
}

/// Whether the message mentions the signed-in user by name.
pub open spec fn mentions_me(app: &App, m: MessageResponse) -> bool {
    exists|i: int| 0 <= i < m.mentions@.len() && #[trigger] m.mentions@[i].id@ == app.me.id@
}

/// Whether one of the mentioned roles is among `roles`.
pub open spec fn role_hit(roles: Seq<String>, mentioned: Seq<String>) -> bool {
    exists|i: int, j: int|
        0 <= i < mentioned.len() && 0 <= j < roles.len() && #[trigger] mentioned[i]@ == #[trigger] roles[j]@
}

/// Whether a message counts as a mention of the signed-in user: outside a
/// known channel only a direct mention does; in a channel whose
/// notifications are off nothing does; otherwise a direct mention, a
/// mention of one of the user's roles or of everyone (unless the guild
/// suppresses them), or any message in an unmuted channel outside guilds.
pub open spec fn notifies(app: &App, m: MessageResponse) -> bool {
    match channel_of(app, m.channel_id@) {
        None => mentions_me(app, m),
        Some(ch) => if visibility_of(app, ch) == NotificationVisibility::Off {
            false
        } else {
            let gid = opt_str(ch.guild_id);
            ||| mentions_me(app, m)
            ||| (m.mention_roles@.len() > 0 && !suppress_roles_of(app, gid) && ch.guild_id is Some
                && role_hit(my_roles(app, ch.guild_id->0@), m.mention_roles@))
            ||| (m.mention_everyone && !(gid is Some && suppress_everyone_of(app, gid)))
            ||| (ch.guild_id is None && !channel_muted(app, ch))
        },
    }
}

/// A mention count plus one, saturating.
pub open spec fn bump_count(n: u64) -> u64 {
    if n == u64::MAX {
        n
    } else {
        (n + 1) as u64
    }
}

/// The read state update for a new message in a patched state `p`: read up
/// to it when viewing its channel; read up to it, mentions kept, when the
/// user sent it; otherwise the read state is created if missing and its
/// mentions go up by one when the message notifies the user.
pub open spec fn after_create(p: &App, f: &App, m: MessageResponse) -> bool {
    let cid = m.channel_id@;
    if opt_str(p.selected_channel_id) == Some(cid) {
        reads_set(p, f, cid, (Some(m.id@), 0))
    } else if m.author.id@ == p.me.id@ {
        reads_set(p, f, cid, (Some(m.id@), mention_of(p, cid)))
    } else {
        let last = if p.read_states@.dom().contains(cid) {
            opt_str(p.read_states@[cid].last_message_id)
        } else {
            None
        };
        let n = mention_of(p, cid);
        reads_set(
            p,
            f,
            cid,
            (
                last,
                if notifies(p, m) {
                    bump_count(n)
                } else {
                    n
                },
            ),
        )
    }
}

/// `b` is `a` after a gateway message arrived (see `on_gateway_message_create`).
pub open spec fn message_taken_in(a: &App, b: &App, message: &MessageResponse) -> bool {
    &&& exists|p: App|
                    patched(a, &p, message.channel_id@, message.id@) && after_create(
                        &p,
                        b,
                        *message,
                    )
}

impl App {
    /// Moves a channel's last message forward to `message_id` (never back):
    /// the first direct message channel with the id that it moves forward,
    /// else the first matching channel of the first guild that holds one.
    pub fn patch_channel_last_message_id(&mut self, channel_id: &str, message_id: &str)
        ensures
            patched(old(self), final(self), channel_id@, message_id@),
    {
        let ghost p = private_hit(channel_id@, message_id@);
        let mut i: usize = 0;
        while i < self.private_channels.len()
            invariant
                i <= self.private_channels@.len(),
                *self == *old(self),
                p == private_hit(channel_id@, message_id@),
                forall|k: int| 0 <= k < i ==> !p(#[trigger] self.private_channels@[k]),
            decreases self.private_channels@.len() - i,
        {
            let hit = str_eq(self.private_channels[i].id.as_str(), channel_id) && match &self.private_channels[i].last_message_id {
                None => true,
                Some(prev) => snowflake_sort_key(message_id) > snowflake_sort_key(prev.as_str()),
            };
            if hit {
                proof {
                    lemma_first_idx_is(self.private_channels@, p, 0, i as int);
                }
                let ghost before = self.private_channels@;
                let mut c = self.private_channels.remove(i);
                c.last_message_id = Some(owned(message_id));
                self.private_channels.insert(i, c);
                proof {
                    assert forall|k: int| 0 <= k < before.len() && k != i implies #[trigger] self.private_channels@[k] == before[k] by {
                        if k < i {
                        } else {
                        }
                    }
                }
                return ;
            }
            i = i + 1;
        }
        proof {
            lemma_first_idx_is(self.private_channels@, p, 0, self.private_channels@.len() as int);
        }
        let ghost ps = self.guild_channels.pairs();
        let ghost q = |e: (String, Vec<ChannelResponse>)| index_of_id(e.1@, channel_id@) < e.1@.len();
        let mut g: usize = 0;
        while g < self.guild_channels.len()
            invariant
                g <= ps.len(),
                *self == *old(self),
                ps == self.guild_channels.pairs(),
                private_target(old(self), channel_id@, message_id@) == old(self).private_channels@.len(),
                q == (|e: (String, Vec<ChannelResponse>)| index_of_id(e.1@, channel_id@) < e.1@.len()),
                forall|k: int| 0 <= k < g ==> !q(#[trigger] ps[k]),
            decreases ps.len() - g,
        {
            let j = first_id_index(self.guild_channels.value_at(g), channel_id);
            if j < self.guild_channels.value_at(g).len() {
                proof {
                    assert(q(ps[g as int]));
                    lemma_first_idx_is(ps, q, 0, g as int);
                }
                let bump = match &self.guild_channels.value_at(g)[j].last_message_id {
                    None => true,
                    Some(prev) => snowflake_sort_key(message_id) > snowflake_sort_key(prev.as_str()),
                };
                if bump {
                    let mut chs = self.guild_channels.replace_value_at(g, Vec::new());
                    let ghost before = chs@;
                    let mut c = chs.remove(j);
                    c.last_message_id = Some(owned(message_id));
                    chs.insert(j, c);
                    let _ = self.guild_channels.replace_value_at(g, chs);
                    proof {
                        assert(self.guild_channels.pairs() =~= ps.update(g as int, (ps[g as int].0, self.guild_channels.pairs()[g as int].1)));
                        assert(self.guild_channels@ =~= old(self).guild_channels@.insert(ps[g as int].0@, self.guild_channels.pairs()[g as int].1));
                        assert forall|k: int| 0 <= k < before.len() && k != j implies #[trigger] chs@[k] == before[k] by {
                            if k < j {
                            } else {
                            }
                        }
                    }
                }
                return ;
            }
            g = g + 1;
        }
        proof {
            lemma_first_idx_is(ps, q, 0, ps.len() as int);
        }
    }

    /// The roles of the signed-in user in a guild include one of `mentioned`.
    fn my_roles_hit(&self, guild_id: &str, mentioned: &Vec<String>) -> (r: bool)
        ensures
            r == role_hit(my_roles(self, guild_id@), mentioned@),
    {
        let roles = match self.my_member_roles(guild_id) {
            Some(r) => r,
            None => {
                return false;
            },
        };
        let mut i: usize = 0;
        while i < mentioned.len()
            invariant
                i <= mentioned@.len(),
                roles@ == my_roles(self, guild_id@),
                forall|a: int, b: int|
                    0 <= a < i && 0 <= b < roles@.len() ==> #[trigger] mentioned@[a]@ != #[trigger] roles@[b]@,
            decreases mentioned@.len() - i,
        {
            let mut j: usize = 0;
            while j < roles.len()
                invariant
                    j <= roles@.len(),
                    roles@ == my_roles(self, guild_id@),
                    i < mentioned@.len(),
                    forall|b: int| 0 <= b < j ==> mentioned@[i as int]@ != #[trigger] roles@[b]@,
                decreases roles@.len() - j,
            {
                if str_eq(mentioned[i].as_str(), roles[j].as_str()) {
                    return true;
                }
                j = j + 1;
            }
            i = i + 1;
        }
        false
    }

    /// The signed-in user's roles in a guild, when the member list holds the user.
    pub fn my_member_roles(&self, guild_id: &str) -> (r: Option<&Vec<String>>)
        ensures
            r matches Some(v) ==> v@ == my_roles(self, guild_id@),
            r is None ==> my_roles(self, guild_id@) == Seq::<String>::empty(),
    {
        let members = match self.guild_members.get(guild_id) {
            Some(m) => m,
            None => {
                return None;
            },
        };
        let ghost p = |m: GuildMemberResponse| m.user.id@ == self.me.id@;
        let mut i: usize = 0;
        while i < members.len()
            invariant
                i <= members@.len(),
                self.guild_members@.dom().contains(guild_id@),
                *members == self.guild_members@[guild_id@],
                p == (|m: GuildMemberResponse| m.user.id@ == self.me.id@),
                forall|k: int| 0 <= k < i ==> !p(#[trigger] members@[k]),
            decreases members@.len() - i,
        {
            if str_eq(members[i].user.id.as_str(), self.me.id.as_str()) {
                proof {
                    lemma_first_idx_is(members@, p, 0, i as int);
                }
                return Some(&members[i].roles);
            }
            i = i + 1;
        }
        proof {
            lemma_first_idx_is(members@, p, 0, members@.len() as int);
        }
        None
    }

    fn mentions_me_exec(&self, message: &MessageResponse) -> (r: bool)
        ensures
            r == mentions_me(self, *message),
    {
        let mut i: usize = 0;
        while i < message.mentions.len()
            invariant
                i <= message.mentions@.len(),
                forall|k: int| 0 <= k < i ==> #[trigger] message.mentions@[k].id@ != self.me.id@,
            decreases message.mentions@.len() - i,
        {
            if str_eq(message.mentions[i].id.as_str(), self.me.id.as_str()) {
                return true;
            }
            i = i + 1;
        }
        false
    }

    /// Whether a message counts as a mention of the signed-in user.
    pub fn message_notifies_me(&self, message: &MessageResponse) -> (r: bool)
        ensures
            r == notifies(self, *message),
    {
        let channel = match self.channel_by_id(message.channel_id.as_str()) {
            Some(c) => c,
            None => {
                return self.mentions_me_exec(message);
            },
        };
        if self.channel_notification_visibility(channel) == NotificationVisibility::Off {
            return false;
        }
        if self.mentions_me_exec(message) {
            return true;
        }
        let gid: Option<&str> = match &channel.guild_id {
            Some(g) => Some(g.as_str()),
            None => None,
        };
        if message.mention_roles.len() > 0 && !self.suppress_roles_enabled(gid) {
            if let Some(g) = gid {
                if self.my_roles_hit(g, &message.mention_roles) {
                    return true;
                }
            }
        }
        if message.mention_everyone && !self.suppress_everyone_enabled(gid) {
            return true;
        }
        if channel.guild_id.is_none() && !self.channel_is_muted_effective(channel) {
            return true;
        }
        false
    }

    /// Takes in a message the gateway announced: the channel's last message
    /// moves forward, and its read state follows `after_create`.
    pub fn on_gateway_message_create(&mut self, message: &MessageResponse)
        ensures
            message_taken_in(old(self), final(self), message),
    {
        self.patch_channel_last_message_id(message.channel_id.as_str(), message.id.as_str());
        let ghost p = *self;
        let viewing_here = match &self.selected_channel_id {
            Some(s) => str_eq(s.as_str(), message.channel_id.as_str()),
            None => false,
        };
        let from_self = str_eq(message.author.id.as_str(), self.me.id.as_str());
        if viewing_here {
            let st = ReadState { last_message_id: Some(message.id.clone()), mention_count: 0 };
            self.read_states.insert(message.channel_id.clone(), st);
            proof {
                assert(self.read_states@.remove(message.channel_id@) =~= p.read_states@.remove(message.channel_id@));
                assert(after_create(&p, self, *message));
            }
            return ;
        }
        if from_self {
            let mc = self.channel_mention_count(message.channel_id.as_str());
            let st = ReadState { last_message_id: Some(message.id.clone()), mention_count: mc };
            self.read_states.insert(message.channel_id.clone(), st);
            proof {
                assert(self.read_states@.remove(message.channel_id@) =~= p.read_states@.remove(message.channel_id@));
                assert(after_create(&p, self, *message));
            }
            return ;
        }
        let notify = self.message_notifies_me(message);
        let (last, n) = match self.read_states.get(message.channel_id.as_str()) {
            Some(rs) => (rs.last_message_id.clone(), rs.mention_count),
            None => (None, 0),
        };
        let count = if notify {
            n.saturating_add(1)
        } else {
            n
        };
        let st = ReadState { last_message_id: last, mention_count: count };
        self.read_states.insert(message.channel_id.clone(), st);
        proof {
            assert(self.read_states@.remove(message.channel_id@) =~= p.read_states@.remove(message.channel_id@));
            assert(after_create(&p, self, *message));
        }
    }
}

/// Position of the first channel with this id, or the length.
pub fn first_id_index(chs: &Vec<ChannelResponse>, id: &str) -> (r: usize)
    ensures
        r == index_of_id(chs@, id@),
        r <= chs@.len(),
{
    let ghost p = crate::channels::id_is(id@);
    let mut i: usize = 0;
    while i < chs.len()
        invariant
            i <= chs@.len(),
            p == crate::channels::id_is(id@),
            forall|k: int| 0 <= k < i ==> !p(#[trigger] chs@[k]),
        decreases chs@.len() - i,
    {
        if str_eq(chs[i].id.as_str(), id) {
            proof {
                lemma_first_idx_is(chs@, p, 0, i as int);
            }
            return i;
        }
        i = i + 1;
    }
    proof {
        lemma_first_idx_is(chs@, p, 0, chs@.len() as int);
    }
    i
}

} // verus!
