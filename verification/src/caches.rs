//! Keeping the caches of guilds and channels up to date as the API and the
//! gateway report them, and the per-request retry backoff.
use crate::app::{all_recipients, recipients_of, App};
use crate::channels::{index_of_id, normalized};
use crate::settings::guild_index;
use crate::store::key_pos;
use crate::text::{concat, owned, str_eq};
use crate::types::{merge_user_cache, merged_users, ChannelResponse, GuildResponse};
use crate::seqs::lemma_first_idx_is;
use vstd::prelude::*;

verus! {

/// How long a failed request kind is not retried, in nanoseconds.
pub const API_FAILURE_BACKOFF_NANOS: i128 = 180_000_000_000;

/// `g` over `e`: the fields of `g`, except that a missing permission set, an
/// empty name or an empty owner keeps `e`'s.
pub open spec fn merged_guild(e: GuildResponse, g: GuildResponse) -> GuildResponse {
    GuildResponse {
        permissions: if g.permissions is None {
            e.permissions
        } else {
            g.permissions
        },
        name: if g.name@.len() == 0 {
            e.name
        } else {
            g.name
        },
        owner_id: if g.owner_id@.len() == 0 {
            e.owner_id
        } else {
            g.owner_id
        },
        ..g
    }
}

/// The guild list with `g` merged over the guild with its id, or appended.
pub open spec fn guilds_upserted(gs: Seq<GuildResponse>, g: GuildResponse) -> Seq<GuildResponse> {
    let k = guild_index(gs, g.id@);
    if k < gs.len() {
        gs.update(k, merged_guild(gs[k], g))
    } else {
        gs.push(g)
    }
}

/// The guilds whose id is not `id`, in order.
pub open spec fn guilds_without(gs: Seq<GuildResponse>, id: Seq<char>) -> Seq<GuildResponse>
    decreases gs.len(),
{
    if gs.len() == 0 {
        Seq::empty()
    } else if gs.last().id@ != id {
        guilds_without(gs.drop_last(), id).push(gs.last())
    } else {
        guilds_without(gs.drop_last(), id)
    }
}

/// The channels whose id is not `id`, in order.
pub open spec fn channels_without(cs: Seq<ChannelResponse>, id: Seq<char>) -> Seq<ChannelResponse>
    decreases cs.len(),
{
    if cs.len() == 0 {
        Seq::empty()
    } else if cs.last().id@ != id {
        channels_without(cs.drop_last(), id).push(cs.last())
    } else {
        channels_without(cs.drop_last(), id)
    }
}

/// The channel list with `c` in place of the first channel with its id, or appended.
pub open spec fn channels_upserted(cs: Seq<ChannelResponse>, c: ChannelResponse) -> Seq<ChannelResponse> {
    let k = index_of_id(cs, c.id@);
    if k < cs.len() {
        cs.update(k, c)
    } else {
        cs.push(c)
    }
}

/// The backoff key of a request kind for a guild or channel.
pub open spec fn backoff_key(kind: Seq<char>, id: Seq<char>) -> Seq<char> {
    kind + id
}

/// The backoff map without the guild's member, channel, emoji and role entries.
pub open spec fn guild_backoff_cleared(m: Map<Seq<char>, i128>, gid: Seq<char>) -> Map<Seq<char>, i128> {
    m.remove(backoff_key("members:"@, gid)).remove(backoff_key("channels:"@, gid)).remove(
        backoff_key("emojis:"@, gid),
    ).remove(backoff_key("roles:"@, gid))
}

/// `b`'s entries are `a`'s with the value under `k` given view `v`: in place
/// when `k` was present, else appended.
pub open spec fn group_put(
    a: Seq<(String, Vec<ChannelResponse>)>,
    b: Seq<(String, Vec<ChannelResponse>)>,
    k: Seq<char>,
    v: Seq<ChannelResponse>,
) -> bool {
    let i = key_pos(a, k);
    if i < a.len() {
        &&& b.len() == a.len()
        &&& forall|j: int| 0 <= j < a.len() && j != i ==> #[trigger] b[j] == a[j]
        &&& b[i].0@ == k
        &&& b[i].1@ == v
    } else {
        &&& b.len() == a.len() + 1
        &&& forall|j: int| 0 <= j < a.len() ==> #[trigger] b[j] == a[j]
        &&& b[a.len() as int].0@ == k
        &&& b[a.len() as int].1@ == v
    }
}

/// `b` is `a` after a guild's removal: it leaves the guild list and every
/// per-guild cache, and its request backoffs are cleared.
pub open spec fn guild_removed(a: &App, b: &App, gid: Seq<char>) -> bool {
    &&& (App {
        guilds: a.guilds,
        guild_channels: a.guild_channels,
        guild_members: a.guild_members,
        guild_members_synced: a.guild_members_synced,
        api_backoff_until: a.api_backoff_until,
        guild_emojis: a.guild_emojis,
        guild_roles: a.guild_roles,
        guild_roles_forbidden: a.guild_roles_forbidden,
        voice_states: a.voice_states,
        ..*b
    }) == *a
    &&& b.guilds@ == guilds_without(a.guilds@, gid)
    &&& b.guild_channels@ == a.guild_channels@.remove(gid)
    &&& (if a.guild_channels@.dom().contains(gid) {
        b.guild_channels.pairs() == a.guild_channels.pairs().remove(key_pos(a.guild_channels.pairs(), gid))
    } else {
        b.guild_channels.pairs() == a.guild_channels.pairs()
    })
    &&& b.guild_members@ == a.guild_members@.remove(gid)
    &&& b.guild_members_synced@ == a.guild_members_synced@.remove(gid)
    &&& b.api_backoff_until@ == guild_backoff_cleared(a.api_backoff_until@, gid)
    &&& b.guild_emojis@ == a.guild_emojis@.remove(gid)
    &&& b.guild_roles@ == a.guild_roles@.remove(gid)
    &&& b.guild_roles_forbidden@ == a.guild_roles_forbidden@.remove(gid)
    &&& b.voice_states@ == a.voice_states@.remove(gid)
}

/// `b` is `a` with the guild's channels stored, their recipients cached,
/// the guild no longer loading channels and its channel backoff cleared.
pub open spec fn guild_channels_set(a: &App, b: &App, gid: Seq<char>, chs: Seq<ChannelResponse>) -> bool {
    &&& (App {
        user_cache: a.user_cache,
        guild_channels: a.guild_channels,
        loading_channels: a.loading_channels,
        api_backoff_until: a.api_backoff_until,
        ..*b
    }) == *a
    &&& b.user_cache@ == merged_users(a.user_cache@, all_recipients(chs))
    &&& b.guild_channels@.dom() == a.guild_channels@.dom().insert(gid)
    &&& b.guild_channels@.remove(gid) == a.guild_channels@.remove(gid)
    &&& b.guild_channels@[gid]@ == chs
    &&& group_put(a.guild_channels.pairs(), b.guild_channels.pairs(), gid, chs)
    &&& b.loading_channels@ == a.loading_channels@.remove(gid)
    &&& b.api_backoff_until@ == a.api_backoff_until@.remove(backoff_key("channels:"@, gid))
}

/// `b` is `a` with `guild` stored (see `upsert_guild`); a guild without an id changes nothing.
pub open spec fn guild_upserted(a: &App, b: &App, guild: GuildResponse) -> bool {
    &&& guild.id@.len() == 0 ==> *b == *a
    &&& guild.id@.len() > 0 ==> exists|mid: App|
                    (App { guilds: a.guilds, ..mid }) == *a && mid.guilds@
                        == guilds_upserted(a.guilds@, guild) && *b == normalized(&mid)
}

/// `b` is `a` with the guild forgotten (see `remove_guild`).
pub open spec fn guild_gone(a: &App, b: &App, guild_id: Seq<char>) -> bool {
    &&& exists|mid: App| guild_removed(a, &mid, guild_id) && *b == normalized(&mid)
}

/// `b` is `a` with these direct message channels (see `set_private_channels`).
pub open spec fn private_channels_set(a: &App, b: &App, channels: Vec<ChannelResponse>) -> bool {
    &&& exists|mid: App|
                    (App { user_cache: a.user_cache, private_channels: a.private_channels, ..mid })
                        == *a && mid.user_cache@ == merged_users(
                        a.user_cache@,
                        all_recipients(channels@),
                    ) && mid.private_channels == channels && *b == normalized(&mid)
}

/// `b` is `a` with these channels stored for the guild (see `set_guild_channels`).
pub open spec fn guild_channels_stored(a: &App, b: &App, guild_id: Seq<char>, channels: Vec<ChannelResponse>) -> bool {
    &&& exists|mid: App|
                    guild_channels_set(a, &mid, guild_id, channels@) && *b == normalized(&mid)
}

/// `b` is `a` with the channel stored (see `upsert_channel`).
pub open spec fn channel_upserted(a: &App, b: &App, channel: ChannelResponse) -> bool {
    &&& channel.guild_id is None ==> exists|mid: App|
                    (App { private_channels: a.private_channels, ..mid }) == *a
                        && mid.private_channels@ == channels_upserted(a.private_channels@, channel)
                        && *b == normalized(&mid)
    &&& channel.guild_id matches Some(g) ==> exists|mid: App|
                    (App { guild_channels: a.guild_channels, ..mid }) == *a
                        && mid.guild_channels@.dom() == a.guild_channels@.dom().insert(g@)
                        && mid.guild_channels@.remove(g@) == a.guild_channels@.remove(g@)
                        && group_put(
                        a.guild_channels.pairs(),
                        mid.guild_channels.pairs(),
                        g@,
                        channels_upserted(crate::channels::group_of(a, g@), channel),
                    ) && *b == normalized(&mid)
}

/// `b` is `a` with the channel forgotten (see `remove_channel`).
pub open spec fn channel_removed(a: &App, b: &App, channel: &ChannelResponse) -> bool {
    &&& channel.guild_id is None ==> exists|mid: App|
                    (App { private_channels: a.private_channels, ..mid }) == *a
                        && mid.private_channels@ == channels_without(a.private_channels@, channel.id@)
                        && *b == normalized(&mid)
    &&& channel.guild_id matches Some(g) ==> exists|mid: App|
                    (App { guild_channels: a.guild_channels, ..mid }) == *a && (if a.guild_channels@.dom().contains(g@) {
                        &&& mid.guild_channels@.dom() == a.guild_channels@.dom()
                        &&& mid.guild_channels@.remove(g@) == a.guild_channels@.remove(g@)
                        &&& group_put(
                            a.guild_channels.pairs(),
                            mid.guild_channels.pairs(),
                            g@,
                            channels_without(a.guild_channels@[g@]@, channel.id@),
                        )
                    } else {
                        mid == *a
                    }) && *b == normalized(&mid)
}

/// `b` is `a` with the request kind held back (see `api_backoff_after_failure`).
pub open spec fn backoff_started(a: &App, b: &App, key: String) -> bool {
    &&& *b == (App { api_backoff_until: b.api_backoff_until, ..*a })
    &&& b.api_backoff_until@ == a.api_backoff_until@.insert(
                    key@,
                    (a.clock + API_FAILURE_BACKOFF_NANOS) as i128,
                )
}

impl App {
    /// Whether a request kind may be tried: no backoff, or its backoff has passed.
    pub fn api_backoff_can_try(&self, key: &str) -> (r: bool)
        ensures
            r == (!self.api_backoff_until@.dom().contains(key@) || self.clock
                >= self.api_backoff_until@[key@]),
    {
        match self.api_backoff_until.get(key) {
            None => true,
            Some(until) => self.clock >= *until,
        }
    }

    /// Holds a request kind back for the backoff period after it failed.
    pub fn api_backoff_after_failure(&mut self, key: String)
        requires
            old(self).clock + API_FAILURE_BACKOFF_NANOS <= i128::MAX,
        ensures
            backoff_started(old(self), final(self), key),
    {
        let until = self.clock + API_FAILURE_BACKOFF_NANOS;
        self.api_backoff_until.insert(key, until);
    }

    /// Drops the backoff of a request kind.
    pub fn api_backoff_clear(&mut self, key: &str)
        ensures
            *final(self) == (App { api_backoff_until: final(self).api_backoff_until, ..*old(self) }),
            final(self).api_backoff_until@ == old(self).api_backoff_until@.remove(key@),
    {
        let _ = self.api_backoff_until.remove(key);
    }

    /// Drops the backoffs of a guild's member, channel, emoji and role requests.
    pub fn api_backoff_clear_guild(&mut self, guild_id: &str)
        ensures
            *final(self) == (App { api_backoff_until: final(self).api_backoff_until, ..*old(self) }),
            final(self).api_backoff_until@ == guild_backoff_cleared(
                old(self).api_backoff_until@,
                guild_id@,
            ),
    {
        self.api_backoff_clear(concat("members:", guild_id).as_str());
        self.api_backoff_clear(concat("channels:", guild_id).as_str());
        self.api_backoff_clear(concat("emojis:", guild_id).as_str());
        self.api_backoff_clear(concat("roles:", guild_id).as_str());
    }

    /// Drops the backoff of a channel's message requests.
    pub fn api_backoff_clear_channel_messages(&mut self, channel_id: &str)
        ensures
            *final(self) == (App { api_backoff_until: final(self).api_backoff_until, ..*old(self) }),
            final(self).api_backoff_until@ == old(self).api_backoff_until@.remove(
                backoff_key("messages:"@, channel_id@),
            ),
    {
        self.api_backoff_clear(concat("messages:", channel_id).as_str());
    }

    /// Stores a guild the API or gateway reported: merged over the known
    /// guild with its id (keeping its permissions, name and owner where the
    /// report leaves them out), or appended; a guild without an id is ignored.
    pub fn upsert_guild(&mut self, guild: GuildResponse)
        ensures
            guild_upserted(old(self), final(self), guild),
    {
        if guild.id.as_str().is_empty() {
            return ;
        }
        let ghost g0 = guild;
        let ghost p = |x: GuildResponse| x.id@ == g0.id@;
        let mut i: usize = 0;
        while i < self.guilds.len() && !str_eq(self.guilds[i].id.as_str(), guild.id.as_str())
            invariant
                i <= self.guilds@.len(),
                *self == *old(self),
                g0 == guild,
                p == (|x: GuildResponse| x.id@ == g0.id@),
                forall|k: int| 0 <= k < i ==> !p(#[trigger] self.guilds@[k]),
            decreases self.guilds@.len() - i,
        {
            i = i + 1;
        }
        proof {
            lemma_first_idx_is(self.guilds@, p, 0, i as int);
            assert(guild_index(self.guilds@, g0.id@) == i);
        }
        if i < self.guilds.len() {
            let e = &self.guilds[i];
            let GuildResponse { id, name, icon, owner_id, permissions, default_message_notifications } = guild;
            let merged = GuildResponse {
                id,
                name: if name.as_str().is_empty() {
                    e.name.clone()
                } else {
                    name
                },
                icon,
                owner_id: if owner_id.as_str().is_empty() {
                    e.owner_id.clone()
                } else {
                    owner_id
                },
                permissions: if permissions.is_none() {
                    e.permissions.clone()
                } else {
                    permissions
                },
                default_message_notifications,
            };
            self.guilds.set(i, merged);
        } else {
            self.guilds.push(guild);
        }
        let ghost mid = *self;
        assert(mid.guilds@ =~= guilds_upserted(old(self).guilds@, g0));
        self.normalize_selection();
    }

    /// Forgets a guild: it leaves the guild list and the per-guild caches,
    /// and the selection is normalized.
    pub fn remove_guild(&mut self, guild_id: &str)
        ensures
            guild_gone(old(self), final(self), guild_id@),
    {
        let mut kept: Vec<GuildResponse> = Vec::new();
        let mut i: usize = 0;
        while i < self.guilds.len()
            invariant
                i <= self.guilds@.len(),
                *self == *old(self),
                kept@ == guilds_without(self.guilds@.take(i as int), guild_id@),
            decreases self.guilds@.len() - i,
        {
            assert(self.guilds@.take(i + 1).drop_last() =~= self.guilds@.take(i as int));
            if !str_eq(self.guilds[i].id.as_str(), guild_id) {
                kept.push(self.guilds[i].clone());
            }
            i = i + 1;
        }
        assert(self.guilds@.take(self.guilds@.len() as int) =~= self.guilds@);
        self.guilds = kept;
        let _ = self.guild_channels.remove(guild_id);
        let _ = self.guild_members.remove(guild_id);
        let _ = self.guild_members_synced.remove(guild_id);
        self.api_backoff_clear_guild(guild_id);
        let _ = self.guild_emojis.remove(guild_id);
        let _ = self.guild_roles.remove(guild_id);
        let _ = self.guild_roles_forbidden.remove(guild_id);
        let _ = self.voice_states.remove(guild_id);
        let ghost mid = *self;
        assert(guild_removed(old(self), &mid, guild_id@));
        self.normalize_selection();
    }

    /// Replaces the direct message channels, caching their recipients.
    pub fn set_private_channels(&mut self, channels: Vec<ChannelResponse>)
        ensures
            private_channels_set(old(self), final(self), channels),
    {
        let rs = recipients_of(&channels);
        merge_user_cache(&mut self.user_cache, rs);
        self.private_channels = channels;
        let ghost mid = *self;
        self.normalize_selection();
    }

    /// Stores a direct message channel in place of the one with its id, or appends it.
    pub fn upsert_private_channel(&mut self, channel: ChannelResponse)
        ensures
            exists|mid: App|
                (App { private_channels: old(self).private_channels, ..mid }) == *old(self)
                    && mid.private_channels@ == channels_upserted(old(self).private_channels@, channel)
                    && *final(self) == normalized(&mid),
    {
        let k = crate::incoming::first_id_index(&self.private_channels, channel.id.as_str());
        let ghost c0 = channel;
        if k < self.private_channels.len() {
            self.private_channels.set(k, channel);
        } else {
            self.private_channels.push(channel);
        }
        let ghost mid = *self;
        assert(mid.private_channels@ =~= channels_upserted(old(self).private_channels@, c0));
        self.normalize_selection();
    }

    /// Drops the direct message channels with this id.
    pub fn remove_private_channel(&mut self, channel_id: &str)
        ensures
            exists|mid: App|
                (App { private_channels: old(self).private_channels, ..mid }) == *old(self)
                    && mid.private_channels@ == channels_without(old(self).private_channels@, channel_id@)
                    && *final(self) == normalized(&mid),
    {
        let mut taken: Vec<ChannelResponse> = Vec::new();
        std::mem::swap(&mut taken, &mut self.private_channels);
        let kept = without_id(taken, channel_id);
        self.private_channels = kept;
        let ghost mid = *self;
        self.normalize_selection();
    }

    /// Stores a guild's channels, caching their recipients; the guild no
    /// longer loads channels and its channel backoff is cleared.
    pub fn set_guild_channels(&mut self, guild_id: &str, channels: Vec<ChannelResponse>)
        ensures
            guild_channels_stored(old(self), final(self), guild_id@, channels),
    {
        let ghost cs = channels@;
        let rs = recipients_of(&channels);
        merge_user_cache(&mut self.user_cache, rs);
        self.put_group(owned(guild_id), channels);
        let _ = self.loading_channels.remove(guild_id);
        self.api_backoff_clear(concat("channels:", guild_id).as_str());
        let ghost mid = *self;
        proof {
            assert(mid.guild_channels@.dom() =~= old(self).guild_channels@.dom().insert(guild_id@));
            assert(mid.guild_channels@.remove(guild_id@) =~= old(self).guild_channels@.remove(guild_id@));
            assert(mid.guild_channels@[guild_id@]@ == cs);
            assert(mid.loading_channels@ == old(self).loading_channels@.remove(guild_id@));
            assert(mid.api_backoff_until@ == old(self).api_backoff_until@.remove(backoff_key("channels:"@, guild_id@)));
            assert(mid.user_cache@ == merged_users(old(self).user_cache@, all_recipients(cs)));
        }
        assert(guild_channels_set(old(self), &mid, guild_id@, cs));
        self.normalize_selection();
    }

    /// Stores `chs` as the channels of guild `gid`.
    fn put_group(&mut self, gid: String, chs: Vec<ChannelResponse>)
        ensures
            *final(self) == (App { guild_channels: final(self).guild_channels, ..*old(self) }),
            final(self).guild_channels@ == old(self).guild_channels@.insert(gid@, chs),
            group_put(old(self).guild_channels.pairs(), final(self).guild_channels.pairs(), gid@, chs@),
    {
        self.guild_channels.reveal_pairs();
        let ghost had = self.guild_channels@.dom().contains(gid@);
        let ghost a = self.guild_channels.pairs();
        self.guild_channels.insert(gid, chs);
        proof {
            if had {
                crate::store::lemma_key_pos_in(a, gid@);
            } else {
                crate::store::lemma_key_pos_absent(a, gid@);
            }
        }
    }

    /// Stores a channel: in its guild's list (in place of the one with its
    /// id, or appended), or among the direct messages when it has no guild.
    #[verifier::rlimit(40)]
    pub fn upsert_channel(&mut self, channel: ChannelResponse)
        ensures
            channel_upserted(old(self), final(self), channel),
    {
        let gid = match &channel.guild_id {
            Some(g) => g.clone(),
            None => {
                self.upsert_private_channel(channel);
                return ;
            },
        };
        let ghost c0 = channel;
        let ghost a = self.guild_channels.pairs();
        self.guild_channels.reveal_pairs();
        let mut chs: Vec<ChannelResponse> = match self.guild_channels.index_of(gid.as_str()) {
            Some(i) => {
                proof {
                    crate::store::lemma_map_of_at(a, i as int);
                    crate::store::lemma_key_pos(a, i as int);
                }
                let v = self.guild_channels.replace_value_at(i, Vec::new());
                proof {
                    crate::store::lemma_key_pos_keys(a, self.guild_channels.pairs(), gid@, 0);
                }
                v
            },
            None => Vec::new(),
        };
        assert(chs@ == crate::channels::group_of(old(self), gid@));
        let ghost a1 = self.guild_channels.pairs();
        let ghost m1 = self.guild_channels@;
        let k = crate::incoming::first_id_index(&chs, channel.id.as_str());
        if k < chs.len() {
            chs.set(k, channel);
        } else {
            chs.push(channel);
        }
        let ghost v = chs@;
        assert(v =~= channels_upserted(crate::channels::group_of(old(self), gid@), c0));
        self.put_group(gid, chs);
        let ghost mid = *self;
        proof {
            assert(mid.guild_channels@.dom() =~= old(self).guild_channels@.dom().insert(gid@));
            assert(mid.guild_channels@.remove(gid@) =~= old(self).guild_channels@.remove(gid@));
        }
        self.normalize_selection();
    }

    /// Forgets a channel: from its guild's list, or from the direct messages
    /// when it has no guild; the selection is normalized.
    pub fn remove_channel(&mut self, channel: &ChannelResponse)
        ensures
            channel_removed(old(self), final(self), channel),
    {
        let g = match &channel.guild_id {
            Some(g) => g,
            None => {
                self.remove_private_channel(channel.id.as_str());
                return ;
            },
        };
        self.guild_channels.reveal_pairs();
        let ghost a = self.guild_channels.pairs();
        if let Some(i) = self.guild_channels.index_of(g.as_str()) {
            proof {
                crate::store::lemma_map_of_at(a, i as int);
                crate::store::lemma_key_pos(a, i as int);
            }
            let list = self.guild_channels.replace_value_at(i, Vec::new());
            let kept = without_id(list, channel.id.as_str());
            let _ = self.guild_channels.replace_value_at(i, kept);
            proof {
                assert(self.guild_channels@.dom() =~= old(self).guild_channels@.dom());
                assert(self.guild_channels@.remove(g@) =~= old(self).guild_channels@.remove(g@));
            }
        }
        let ghost mid = *self;
        self.normalize_selection();
    }
}

/// The channels whose id is not `id`, moved out in order.
fn without_id(v: Vec<ChannelResponse>, id: &str) -> (r: Vec<ChannelResponse>)
    ensures
        r@ == channels_without(v@, id@),
{
    let ghost all = v@;
    let mut rest = v;
    let mut kept: Vec<ChannelResponse> = Vec::new();
    let total: usize = rest.len();
    let mut n: usize = 0;
    while rest.len() > 0
        invariant
            n + rest@.len() == all.len(),
            all.len() == total,
            rest@ == all.skip(n as int),
            kept@ == channels_without(all.take(n as int), id@),
        decreases rest@.len(),
    {
        let c = rest.remove(0);
        assert(c == all[n as int]);
        assert(all.take(n + 1).drop_last() =~= all.take(n as int));
        assert(rest@ =~= all.skip(n + 1));
        if !str_eq(c.id.as_str(), id) {
            kept.push(c);
        }
        n = n + 1;
    }
    assert(all.take(all.len() as int) =~= all);
    kept
}

} // verus!
