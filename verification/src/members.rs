//! Guild members, roles, emojis and voice states as the API and the gateway
//! report them.
use crate::app::App;
use crate::caches::backoff_key;
use crate::channels::index_of_id;
use crate::incoming::group_target;
use crate::seqs::{first_idx, lemma_first_idx_is};
use crate::store::StrMap;
use crate::text::{concat, owned, str_eq, str_trim, trim};
use crate::types::{
    merge_user_cache, merged_users, ChannelResponse, GuildEmojiResponse, GuildMemberResponse,
    GuildRoleResponse, UserPartialResponse, VoiceStateResponse,
};
use vstd::prelude::*;

verus! {

/// A member record by value: user, nickname, roles, server mute and deafen.
pub type MemberView = (UserPartialResponse, Option<String>, Seq<String>, bool, bool);

pub open spec fn mview(m: GuildMemberResponse) -> MemberView {
    (m.user, m.nick, m.roles@, m.mute, m.deaf)
}

/// The member lists of the guilds, by value.
pub open spec fn members_view(app: &App) -> Map<Seq<char>, Seq<MemberView>> {
    app.guild_members@.map_values(|v: Vec<GuildMemberResponse>| v@.map_values(|m: GuildMemberResponse| mview(m)))
}

/// `m` over the stored record `e`: `m`, except that it keeps `e`'s roles when
/// it has none, and `e`'s nickname when it has none.
pub open spec fn merged_member(e: MemberView, m: MemberView) -> MemberView {
    (
        m.0,
        if m.1 is None && e.1 is Some {
            e.1
        } else {
            m.1
        },
        if m.2.len() == 0 && e.2.len() > 0 {
            e.2
        } else {
            m.2
        },
        m.3,
        m.4,
    )
}

/// Position of the member record of user `id`.
pub open spec fn member_pos(list: Seq<MemberView>, id: Seq<char>) -> int {
    first_idx(list, |e: MemberView| e.0.id@ == id, 0)
}

/// The member list with `m` merged over the record of its user, or appended.
pub open spec fn member_merged_into(list: Seq<MemberView>, m: MemberView) -> Seq<MemberView> {
    let k = member_pos(list, m.0.id@);
    if k < list.len() {
        list.update(k, merged_member(list[k], m))
    } else {
        list.push(m)
    }
}

/// The guilds' member lists with `m` merged into guild `gid`'s (created when missing).
pub open spec fn merge_into(map: Map<Seq<char>, Seq<MemberView>>, gid: Seq<char>, m: MemberView) -> Map<
    Seq<char>,
    Seq<MemberView>,
> {
    map.insert(
        gid,
        member_merged_into(
            if map.dom().contains(gid) {
                map[gid]
            } else {
                Seq::empty()
            },
            m,
        ),
    )
}

/// Merging the members one after the other into guild `gid`.
pub open spec fn merge_all(map: Map<Seq<char>, Seq<MemberView>>, gid: Seq<char>, ms: Seq<GuildMemberResponse>) -> Map<
    Seq<char>,
    Seq<MemberView>,
>
    decreases ms.len(),
{
    if ms.len() == 0 {
        map
    } else {
        merge_into(merge_all(map, gid, ms.drop_last()), gid, mview(ms.last()))
    }
}

/// The users of the member records, in order.
pub open spec fn users_of(ms: Seq<GuildMemberResponse>) -> Seq<UserPartialResponse> {
    ms.map_values(|m: GuildMemberResponse| m.user)
}

/// `b` differs from `a` at most in its member lists and user cache.
pub open spec fn same_but_members(a: &App, b: &App) -> bool {
    (App { guild_members: a.guild_members, user_cache: a.user_cache, ..*b }) == *a
}

/// The guild whose stored channels hold channel `cid` (the first in storage order).
pub open spec fn guild_of_channel(app: &App, cid: Seq<char>) -> Option<Seq<char>> {
    let k = group_target(app, cid);
    if k < app.guild_channels.pairs().len() {
        Some(app.guild_channels.pairs()[k].0@)
    } else {
        None
    }
}

/// The role list with each incoming role (those with an id) in place of the
/// stored role with the same trimmed id, or appended.
pub open spec fn roles_merged(list: Seq<GuildRoleResponse>, inc: Seq<GuildRoleResponse>) -> Seq<GuildRoleResponse>
    decreases inc.len(),
{
    if inc.len() == 0 {
        list
    } else {
        let prev = roles_merged(list, inc.drop_last());
        let r = inc.last();
        if r.id@.len() == 0 {
            prev
        } else {
            let k = first_idx(prev, |e: GuildRoleResponse| trim(e.id@) == trim(r.id@), 0);
            if k < prev.len() {
                prev.update(k, r)
            } else {
                prev.push(r)
            }
        }
    }
}

/// The roles whose trimmed id is not `rid` trimmed, in order.
pub open spec fn roles_without(list: Seq<GuildRoleResponse>, rid: Seq<char>) -> Seq<GuildRoleResponse>
    decreases list.len(),
{
    if list.len() == 0 {
        Seq::empty()
    } else if trim(list.last().id@) != trim(rid) {
        roles_without(list.drop_last(), rid).push(list.last())
    } else {
        roles_without(list.drop_last(), rid)
    }
}

/// The voice states of each guild, by user.
pub open spec fn voice_view(app: &App) -> Map<Seq<char>, Map<Seq<char>, VoiceStateResponse>> {
    app.voice_states@.map_values(|m: StrMap<VoiceStateResponse>| m@)
}

/// Merging users one list after another is merging them all in order.
pub proof fn lemma_merged_users_push(m: Map<Seq<char>, UserPartialResponse>, a: Seq<UserPartialResponse>, u: UserPartialResponse)
    ensures
        merged_users(m, a.push(u)) == merged_users(merged_users(m, a), seq![u]),
{
    assert(a.push(u).drop_last() =~= a);
    assert(seq![u].drop_last() =~= Seq::<UserPartialResponse>::empty());
    let x = merged_users(m, a);
    assert(merged_users(x, Seq::<UserPartialResponse>::empty()) == x);
    assert(merged_users(x, seq![u]) == if u.id@.len() == 0 {
        x
    } else {
        x.insert(u.id@, u)
    });
}

/// The member list with `member` merged over the record of its user, or appended.
fn merge_member_list(list: Vec<GuildMemberResponse>, member: GuildMemberResponse) -> (r: Vec<GuildMemberResponse>)
    ensures
        r@.map_values(|m: GuildMemberResponse| mview(m)) == member_merged_into(
            list@.map_values(|m: GuildMemberResponse| mview(m)),
            mview(member),
        ),
{
    let ghost m0 = member;
    let mut member = member;
    let mut list = list;
    let ghost before = list@.map_values(|m: GuildMemberResponse| mview(m));
    let ghost p = |e: MemberView| e.0.id@ == m0.user.id@;
    let mut k: usize = 0;
    while k < list.len() && !str_eq(list[k].user.id.as_str(), member.user.id.as_str())
        invariant
            k <= list@.len(),
            m0 == member,
            before == list@.map_values(|m: GuildMemberResponse| mview(m)),
            p == (|e: MemberView| e.0.id@ == m0.user.id@),
            forall|j: int| 0 <= j < k ==> !p(#[trigger] before[j]),
        decreases list@.len() - k,
    {
        k = k + 1;
    }
    proof {
        lemma_first_idx_is(before, p, 0, k as int);
        assert(member_pos(before, m0.user.id@) == k);
    }
    if k < list.len() {
        if member.roles.len() == 0 && list[k].roles.len() > 0 {
            member.roles = list[k].roles.clone();
        }
        if member.nick.is_none() && list[k].nick.is_some() {
            member.nick = list[k].nick.clone();
        }
        assert(mview(member) == merged_member(before[k as int], mview(m0)));
        list.set(k, member);
    } else {
        list.push(member);
    }
    assert(list@.map_values(|m: GuildMemberResponse| mview(m)) =~= member_merged_into(before, mview(m0)));
    list
}

/// `b` is `a` with the member record merged (see `merge_guild_member`).
pub open spec fn member_merged(a: &App, b: &App, guild_id: Seq<char>, member: GuildMemberResponse) -> bool {
    &&& same_but_members(a, b)
    &&& b.user_cache@ == merged_users(a.user_cache@, seq![member.user])
    &&& members_view(b) == merge_into(members_view(a), guild_id, mview(member))
}

/// `b` is `a` with the guild's member list replaced (see `set_guild_members`).
pub open spec fn members_set(a: &App, b: &App, guild_id: Seq<char>, members: Vec<GuildMemberResponse>) -> bool {
    &&& (App {
                    guild_members: a.guild_members,
                    user_cache: a.user_cache,
                    loading_members: a.loading_members,
                    api_backoff_until: a.api_backoff_until,
                    ..*b
                }) == *a
    &&& b.user_cache@ == merged_users(a.user_cache@, users_of(members@))
    &&& b.guild_members@ == a.guild_members@.insert(guild_id, members)
    &&& b.loading_members@ == a.loading_members@.remove(guild_id)
    &&& b.api_backoff_until@ == a.api_backoff_until@.remove(
                    backoff_key("members:"@, guild_id),
                )
}

/// `b` is `a` after taking in the members the gateway sent (see `ingest_gateway_guild_members`).
pub open spec fn members_ingested(a: &App, b: &App, guild_id: Seq<char>, members: Vec<GuildMemberResponse>) -> bool {
    &&& members@.len() == 0 ==> *b == *a
    &&& members@.len() > 0 && a.guild_members_synced@.contains(guild_id) ==> {
                    &&& same_but_members(a, b)
                    &&& b.user_cache@ == merged_users(a.user_cache@, users_of(members@))
                    &&& members_view(b) == merge_all(members_view(a), guild_id, members@)
                }
    &&& members@.len() > 0 && !a.guild_members_synced@.contains(guild_id) ==> {
                    &&& (App {
                        guild_members: a.guild_members,
                        user_cache: a.user_cache,
                        loading_members: a.loading_members,
                        api_backoff_until: a.api_backoff_until,
                        ..*b
                    }) == *a
                    &&& b.user_cache@ == merged_users(a.user_cache@, users_of(members@))
                    &&& b.guild_members@ == a.guild_members@.insert(guild_id, members)
                    &&& b.loading_members@ == a.loading_members@.remove(guild_id)
                    &&& b.api_backoff_until@ == a.api_backoff_until@.remove(
                        backoff_key("members:"@, guild_id),
                    )
                }
}

/// `b` is `a` with the guild's emojis replaced (see `set_guild_emojis`).
pub open spec fn emojis_set(a: &App, b: &App, guild_id: Seq<char>, emojis: Vec<GuildEmojiResponse>) -> bool {
    &&& (App {
                    guild_emojis: a.guild_emojis,
                    loading_emojis: a.loading_emojis,
                    api_backoff_until: a.api_backoff_until,
                    ..*b
                }) == *a
    &&& b.guild_emojis@ == a.guild_emojis@.insert(guild_id, emojis)
    &&& b.loading_emojis@ == a.loading_emojis@.remove(guild_id)
    &&& b.api_backoff_until@ == a.api_backoff_until@.remove(
                    backoff_key("emojis:"@, guild_id),
                )
}

/// `b` is `a` with the guild's roles replaced (see `set_guild_roles`).
pub open spec fn roles_set(a: &App, b: &App, guild_id: Seq<char>, roles: Vec<GuildRoleResponse>) -> bool {
    &&& (App {
                    guild_roles: a.guild_roles,
                    loading_roles: a.loading_roles,
                    api_backoff_until: a.api_backoff_until,
                    ..*b
                }) == *a
    &&& b.guild_roles@ == a.guild_roles@.insert(guild_id, roles)
    &&& b.loading_roles@ == a.loading_roles@.remove(guild_id)
    &&& b.api_backoff_until@ == a.api_backoff_until@.remove(
                    backoff_key("roles:"@, guild_id),
                )
}

/// `b` is `a` with the gateway's roles merged (see `merge_guild_roles_from_gateway`).
pub open spec fn roles_merged_in(a: &App, b: &App, guild_id: Seq<char>, incoming: Vec<GuildRoleResponse>) -> bool {
    &&& incoming@.len() == 0 ==> *b == *a
    &&& incoming@.len() > 0 ==> {
                    &&& (App { guild_roles: a.guild_roles, ..*b }) == *a
                    &&& b.guild_roles@.dom() == a.guild_roles@.dom().insert(guild_id)
                    &&& b.guild_roles@.remove(guild_id) == a.guild_roles@.remove(guild_id)
                    &&& b.guild_roles@[guild_id]@ == roles_merged(
                        if a.guild_roles@.dom().contains(guild_id) {
                            a.guild_roles@[guild_id]@
                        } else {
                            Seq::empty()
                        },
                        incoming@,
                    )
                }
}

/// `b` is `a` with the role dropped (see `remove_guild_role`).
pub open spec fn role_removed(a: &App, b: &App, guild_id: Seq<char>, role_id: Seq<char>) -> bool {
    &&& (App { guild_roles: a.guild_roles, ..*b }) == *a
    &&& !a.guild_roles@.dom().contains(guild_id) ==> b.guild_roles@
                    == a.guild_roles@
    &&& a.guild_roles@.dom().contains(guild_id) ==> {
                    &&& b.guild_roles@.dom() == a.guild_roles@.dom()
                    &&& b.guild_roles@.remove(guild_id) == a.guild_roles@.remove(guild_id)
                    &&& b.guild_roles@[guild_id]@ == roles_without(
                        a.guild_roles@[guild_id]@,
                        role_id,
                    )
                }
}

/// `b` is `a` with the voice state recorded (see `update_voice_state`).
pub open spec fn voice_updated(a: &App, b: &App, state: VoiceStateResponse) -> bool {
    &&& state.guild_id is None ==> *b == *a
    &&& state.guild_id matches Some(g) ==> {
                    &&& (App {
                        guild_members: a.guild_members,
                        user_cache: a.user_cache,
                        voice_states: a.voice_states,
                        ..*b
                    }) == *a
                    &&& match state.member {
                        Some(m) => b.user_cache@ == merged_users(a.user_cache@, seq![m.user])
                            && members_view(b) == merge_into(members_view(a), g@, mview(m)),
                        None => b.user_cache == a.user_cache && b.guild_members
                            == a.guild_members,
                    }
                    &&& voice_view(b) == voice_view(a).insert(
                        g@,
                        if state.channel_id is None {
                            (if voice_view(a).dom().contains(g@) {
                                voice_view(a)[g@]
                            } else {
                                Map::empty()
                            }).remove(state.user_id@)
                        } else {
                            (if voice_view(a).dom().contains(g@) {
                                voice_view(a)[g@]
                            } else {
                                Map::empty()
                            }).insert(state.user_id@, state)
                        },
                    )
                }
}

impl App {
    /// The guild whose stored channels include this channel.
    pub fn guild_id_for_channel(&self, channel_id: &str) -> (r: Option<String>)
        ensures
            match r {
                Some(g) => guild_of_channel(self, channel_id@) == Some(g@),
                None => guild_of_channel(self, channel_id@) is None,
            },
    {
        let ghost ps = self.guild_channels.pairs();
        let ghost q = |e: (String, Vec<ChannelResponse>)| index_of_id(e.1@, channel_id@) < e.1@.len();
        let mut g: usize = 0;
        while g < self.guild_channels.len()
            invariant
                g <= ps.len(),
                ps == self.guild_channels.pairs(),
                q == (|e: (String, Vec<ChannelResponse>)| index_of_id(e.1@, channel_id@) < e.1@.len()),
                forall|k: int| 0 <= k < g ==> !q(#[trigger] ps[k]),
            decreases ps.len() - g,
        {
            let j = crate::incoming::first_id_index(self.guild_channels.value_at(g), channel_id);
            if j < self.guild_channels.value_at(g).len() {
                proof {
                    assert(q(ps[g as int]));
                    lemma_first_idx_is(ps, q, 0, g as int);
                }
                return Some(self.guild_channels.key_at(g).clone());
            }
            g = g + 1;
        }
        proof {
            lemma_first_idx_is(ps, q, 0, ps.len() as int);
        }
        None
    }

    /// Merges a member record into a guild's member list (keeping the stored
    /// roles and nickname where the record has none) and caches its user.
    pub fn merge_guild_member(&mut self, guild_id: &str, member: GuildMemberResponse)
        ensures
            member_merged(old(self), final(self), guild_id@, member),
    {
        let ghost m0 = member;
        let one = vec![member.user.clone()];
        assert(one@ =~= seq![m0.user]);
        merge_user_cache(&mut self.user_cache, one);
        let ghost uc = self.user_cache@;
        assert(uc == merged_users(old(self).user_cache@, seq![m0.user]));
        let ghost mv0 = members_view(old(self));
        let idx = self.guild_members.index_of(guild_id);
        let mut list: Vec<GuildMemberResponse> = match idx {
            Some(i) => {
                self.guild_members.reveal_pairs();
                proof {
                    crate::store::lemma_map_of_at(self.guild_members.pairs(), i as int);
                }
                self.guild_members.replace_value_at(i, Vec::new())
            },
            None => Vec::new(),
        };
        let ghost before = list@.map_values(|m: GuildMemberResponse| mview(m));
        assert(before == (if mv0.dom().contains(guild_id@) {
            mv0[guild_id@]
        } else {
            Seq::empty()
        }));
        let list = merge_member_list(list, member);
        match idx {
            Some(i) => {
                let _ = self.guild_members.replace_value_at(i, list);
            },
            None => {
                self.guild_members.insert(owned(guild_id), list);
            },
        }
        proof {
            assert(members_view(self) =~= merge_into(mv0, guild_id@, mview(m0)));
            assert(self.user_cache@ == uc);
        }
    }

    /// Replaces a guild's member list, caching the users; the guild no
    /// longer loads members and its member backoff is cleared.
    pub fn set_guild_members(&mut self, guild_id: &str, members: Vec<GuildMemberResponse>)
        ensures
            members_set(old(self), final(self), guild_id@, members),
    {
        let mut users: Vec<UserPartialResponse> = Vec::new();
        let mut i: usize = 0;
        while i < members.len()
            invariant
                i <= members@.len(),
                users@ == users_of(members@.take(i as int)),
            decreases members@.len() - i,
        {
            users.push(members[i].user.clone());
            i = i + 1;
            assert(users@ =~= users_of(members@.take(i as int)));
        }
        assert(members@.take(members@.len() as int) =~= members@);
        merge_user_cache(&mut self.user_cache, users);
        self.guild_members.insert(owned(guild_id), members);
        let _ = self.loading_members.remove(guild_id);
        self.api_backoff_clear(concat("members:", guild_id).as_str());
    }

    /// Takes in the members the gateway sent for a guild: merged one by one
    /// once the guild's full list was fetched, else stored as its list.
    pub fn ingest_gateway_guild_members(&mut self, guild_id: &str, members: Vec<GuildMemberResponse>)
        ensures
            members_ingested(old(self), final(self), guild_id@, members),
    {
        if members.len() == 0 {
            return ;
        }
        if self.guild_members_synced.contains(guild_id) {
            let mut i: usize = 0;
            while i < members.len()
                invariant
                    i <= members@.len(),
                    same_but_members(old(self), self),
                    self.user_cache@ == merged_users(old(self).user_cache@, users_of(members@.take(i as int))),
                    members_view(self) == merge_all(members_view(old(self)), guild_id@, members@.take(i as int)),
                decreases members@.len() - i,
            {
                assert(members@.take(i + 1).drop_last() =~= members@.take(i as int));
                assert(users_of(members@.take(i + 1)) =~= users_of(members@.take(i as int)).push(members@[i as int].user));
                proof {
                    lemma_merged_users_push(old(self).user_cache@, users_of(members@.take(i as int)), members@[i as int].user);
                }
                self.merge_guild_member(guild_id, members[i].clone());
                i = i + 1;
            }
            assert(members@.take(members@.len() as int) =~= members@);
        } else {
            self.set_guild_members(guild_id, members);
        }
    }

    /// Replaces a guild's emojis; the guild no longer loads emojis and its
    /// emoji backoff is cleared.
    pub fn set_guild_emojis(&mut self, guild_id: &str, emojis: Vec<GuildEmojiResponse>)
        ensures
            emojis_set(old(self), final(self), guild_id@, emojis),
    {
        self.guild_emojis.insert(owned(guild_id), emojis);
        let _ = self.loading_emojis.remove(guild_id);
        self.api_backoff_clear(concat("emojis:", guild_id).as_str());
    }

    /// Replaces a guild's roles; the guild no longer loads roles and its
    /// role backoff is cleared.
    pub fn set_guild_roles(&mut self, guild_id: &str, roles: Vec<GuildRoleResponse>)
        ensures
            roles_set(old(self), final(self), guild_id@, roles),
    {
        self.guild_roles.insert(owned(guild_id), roles);
        let _ = self.loading_roles.remove(guild_id);
        self.api_backoff_clear(concat("roles:", guild_id).as_str());
    }

    /// Merges roles the gateway sent into a guild's role list: each (with an
    /// id) replaces the role with the same trimmed id, or is appended.
    pub fn merge_guild_roles_from_gateway(&mut self, guild_id: &str, incoming: Vec<GuildRoleResponse>)
        ensures
            roles_merged_in(old(self), final(self), guild_id@, incoming),
    {
        if incoming.len() == 0 {
            return ;
        }
        let ghost start = if old(self).guild_roles@.dom().contains(guild_id@) {
            old(self).guild_roles@[guild_id@]@
        } else {
            Seq::empty()
        };
        let idx = self.guild_roles.index_of(guild_id);
        let mut list: Vec<GuildRoleResponse> = match idx {
            Some(i) => {
                self.guild_roles.reveal_pairs();
                proof {
                    crate::store::lemma_map_of_at(self.guild_roles.pairs(), i as int);
                }
                self.guild_roles.replace_value_at(i, Vec::new())
            },
            None => Vec::new(),
        };
        let ghost m1 = self.guild_roles@;
        let mut i: usize = 0;
        while i < incoming.len()
            invariant
                i <= incoming@.len(),
                list@ == roles_merged(start, incoming@.take(i as int)),
            decreases incoming@.len() - i,
        {
            assert(incoming@.take(i + 1).drop_last() =~= incoming@.take(i as int));
            let r = incoming[i].clone();
            if !r.id.as_str().is_empty() {
                let id_trim = str_trim(r.id.as_str());
                let ghost prev = list@;
                let ghost p = |e: GuildRoleResponse| trim(e.id@) == trim(r.id@);
                let mut k: usize = 0;
                while k < list.len() && !str_eq(str_trim(list[k].id.as_str()).as_str(), id_trim.as_str())
                    invariant
                        k <= list@.len(),
                        list@ == prev,
                        id_trim@ == trim(r.id@),
                        p == (|e: GuildRoleResponse| trim(e.id@) == trim(r.id@)),
                        forall|j: int| 0 <= j < k ==> !p(#[trigger] prev[j]),
                    decreases list@.len() - k,
                {
                    k = k + 1;
                }
                proof {
                    lemma_first_idx_is(prev, p, 0, k as int);
                }
                if k < list.len() {
                    list.set(k, r);
                } else {
                    list.push(r);
                }
            }
            i = i + 1;
        }
        assert(incoming@.take(incoming@.len() as int) =~= incoming@);
        match idx {
            Some(i) => {
                let _ = self.guild_roles.replace_value_at(i, list);
            },
            None => {
                self.guild_roles.insert(owned(guild_id), list);
            },
        }
        proof {
            assert(self.guild_roles@.dom() =~= old(self).guild_roles@.dom().insert(guild_id@));
            assert(self.guild_roles@.remove(guild_id@) =~= old(self).guild_roles@.remove(guild_id@));
        }
    }

    /// Drops the roles of a guild whose trimmed id is the given one trimmed.
    pub fn remove_guild_role(&mut self, guild_id: &str, role_id: &str)
        ensures
            role_removed(old(self), final(self), guild_id@, role_id@),
    {
        let i = match self.guild_roles.index_of(guild_id) {
            Some(i) => i,
            None => {
                return ;
            },
        };
        self.guild_roles.reveal_pairs();
        proof {
            crate::store::lemma_map_of_at(self.guild_roles.pairs(), i as int);
        }
        let list = self.guild_roles.replace_value_at(i, Vec::new());
        let rid = str_trim(role_id);
        let mut kept: Vec<GuildRoleResponse> = Vec::new();
        let mut j: usize = 0;
        while j < list.len()
            invariant
                j <= list@.len(),
                rid@ == trim(role_id@),
                kept@ == roles_without(list@.take(j as int), role_id@),
            decreases list@.len() - j,
        {
            assert(list@.take(j + 1).drop_last() =~= list@.take(j as int));
            if !str_eq(str_trim(list[j].id.as_str()).as_str(), rid.as_str()) {
                kept.push(list[j].clone());
            }
            j = j + 1;
        }
        assert(list@.take(list@.len() as int) =~= list@);
        let _ = self.guild_roles.replace_value_at(i, kept);
        proof {
            assert(self.guild_roles@.dom() =~= old(self).guild_roles@.dom());
            assert(self.guild_roles@.remove(guild_id@) =~= old(self).guild_roles@.remove(guild_id@));
        }
    }

    /// Records a voice state: a user leaving voice (no channel) is dropped
    /// from the guild's states, otherwise stored; its member record is merged.
    #[verifier::rlimit(40)]
    pub fn update_voice_state(&mut self, state: VoiceStateResponse)
        ensures
            voice_updated(old(self), final(self), state),
    {
        let g = match &state.guild_id {
            Some(g) => g.clone(),
            None => {
                return ;
            },
        };
        let ghost s0 = state;
        if let Some(m) = &state.member {
            self.merge_guild_member(g.as_str(), m.clone());
        }
        let ghost vv = voice_view(self);
        assert(vv == voice_view(old(self)));
        let idx = self.voice_states.index_of(g.as_str());
        let mut states: StrMap<VoiceStateResponse> = match idx {
            Some(i) => {
                self.voice_states.reveal_pairs();
                proof {
                    crate::store::lemma_map_of_at(self.voice_states.pairs(), i as int);
                }
                self.voice_states.replace_value_at(i, StrMap::new())
            },
            None => StrMap::new(),
        };
        let uid = state.user_id.clone();
        if state.channel_id.is_none() {
            let _ = states.remove(uid.as_str());
        } else {
            states.insert(uid, state);
        }
        let ghost inner = states@;
        match idx {
            Some(i) => {
                let _ = self.voice_states.replace_value_at(i, states);
            },
            None => {
                self.voice_states.insert(g, states);
            },
        }
        proof {
            assert(voice_view(self) =~= vv.insert(s0.guild_id->0@, inner));
        }
    }
}

} // verus!
