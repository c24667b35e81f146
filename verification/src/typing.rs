//! Who is typing where: notices recorded from the gateway, expiring after a
//! few seconds, and the names and phrase shown for them.
use crate::app::App;
use crate::members::guild_of_channel;
use crate::names::{account_display_name, display_name_spec, fluxer_typing_phrase, string_views, typing_phrase_spec};
use crate::order::name_lt;
use crate::seqs::lemma_first_idx_is;
use crate::store::{keys_distinct, lemma_map_of_push, map_of, StrMap};
use crate::text::{blank, chars_of, is_blank, owned, str_eq};
use crate::types::{GuildMemberResponse, UserPartialResponse};
use vstd::prelude::*;

verus! {

/// How long a typing notice lasts, in nanoseconds.
pub const TYPING_TTL_NANOS: i128 = 10_000_000_000;

/// Per channel, the users typing there and when their notice expires.
pub open spec fn typing_view(app: &App) -> Map<Seq<char>, Map<Seq<char>, i128>> {
    app.typing_users@.map_values(|m: StrMap<i128>| m@)
}

/// The notices that have not expired at `now`.
pub open spec fn live(m: Map<Seq<char>, i128>, now: int) -> Map<Seq<char>, i128> {
    Map::new(|u: Seq<char>| m.dom().contains(u) && m[u] > now, |u: Seq<char>| m[u])
}

/// The channels' notices with the expired ones dropped, and channels left
/// without notices dropped.
pub open spec fn pruned(t: Map<Seq<char>, Map<Seq<char>, i128>>, now: int) -> Map<
    Seq<char>,
    Map<Seq<char>, i128>,
> {
    Map::new(
        |c: Seq<char>| t.dom().contains(c) && live(t[c], now) != Map::<Seq<char>, i128>::empty(),
        |c: Seq<char>| live(t[c], now),
    )
}

/// The name shown for a user in a guild: the member's nickname when it is not
/// blank, else the display name of the cached account (or of the given one).
pub open spec fn shown_name(app: &App, gid: Option<Seq<char>>, user: UserPartialResponse) -> Seq<char> {
    let u = if app.user_cache@.dom().contains(user.id@) {
        app.user_cache@[user.id@]
    } else {
        user
    };
    match gid {
        Some(g) => if app.guild_members@.dom().contains(g) && crate::seqs::first_idx(
            app.guild_members@[g]@,
            |m: GuildMemberResponse| m.user.id@ == user.id@,
            0,
        ) < app.guild_members@[g]@.len() {
            let ms = app.guild_members@[g]@;
            let m = ms[crate::seqs::first_idx(ms, |m: GuildMemberResponse| m.user.id@ == user.id@, 0)];
            let base = if app.user_cache@.dom().contains(m.user.id@) {
                app.user_cache@[m.user.id@]
            } else {
                m.user
            };
            match m.nick {
                Some(n) => if !is_blank(n@) {
                    n@
                } else {
                    display_name_spec(base)
                },
                None => display_name_spec(base),
            }
        } else {
            display_name_spec(u)
        },
        None => display_name_spec(u),
    }
}

/// The name shown for a typing user: its shown name when the user is cached, else its id.
pub open spec fn peer_name(app: &App, gid: Option<Seq<char>>, id: Seq<char>) -> Seq<char> {
    if app.user_cache@.dom().contains(id) {
        shown_name(app, gid, app.user_cache@[id])
    } else {
        id
    }
}

/// Strictly increasing in string order.
pub open spec fn strictly_sorted(s: Seq<Seq<char>>) -> bool {
    forall|i: int, j: int| 0 <= i < j < s.len() ==> name_lt(#[trigger] s[i], #[trigger] s[j])
}

/// The users typing in a channel at the state's clock.
pub open spec fn live_typers(app: &App, cid: Seq<char>) -> Set<Seq<char>> {
    if typing_view(app).dom().contains(cid) {
        live(typing_view(app)[cid], app.clock as int).dom()
    } else {
        Set::empty()
    }
}

/// How many users type in the selected channel.
pub open spec fn typers_here(app: &App) -> nat {
    match app.selected_channel_id {
        Some(c) => live_typers(app, c@).len(),
        None => 0,
    }
}

/// `names` are the shown names of the users typing in `cid`, ordered by user id.
pub open spec fn peer_names_of(app: &App, cid: Seq<char>, names: Seq<Seq<char>>) -> bool {
    exists|ids: Seq<Seq<char>>|
        strictly_sorted(ids) && ids.to_set() == live_typers(app, cid) && ids.len() == names.len()
            && forall|i: int| 0 <= i < ids.len() ==> #[trigger] names[i] == peer_name(app, guild_of_channel(app, cid), ids[i])
}

/// Keys inserted in order make the map of the entries.
proof fn lemma_map_of_take<V>(s: Seq<(String, V)>, j: int)
    requires
        keys_distinct(s),
        0 <= j < s.len(),
    ensures
        map_of(s.take(j + 1)) == map_of(s.take(j)).insert(s[j].0@, s[j].1),
        !map_of(s.take(j)).dom().contains(s[j].0@),
        keys_distinct(s.take(j)),
{
    assert(s.take(j + 1) =~= s.take(j).push(s[j]));
    assert forall|a: int, b: int| 0 <= a < j && 0 <= b < j && a != b implies #[trigger] s.take(j)[a].0@ != #[trigger] s.take(j)[b].0@ by {
        assert(s[a].0@ != s[b].0@);
    }
    assert forall|i: int| 0 <= i < s.take(j).len() implies #[trigger] s.take(j)[i].0@ != s[j].0@ by {
        assert(s[i].0@ != s[j].0@);
    }
    lemma_map_of_push(s.take(j), s[j]);
    crate::store::lemma_map_of_absent(s.take(j), s[j].0@);
}

/// The live part of a notice map, built entry by entry.
fn live_part(m: &StrMap<i128>, now: i128) -> (r: StrMap<i128>)
    ensures
        r@ == live(m@, now as int),
{
    m.reveal_pairs();
    let ghost ps = m.pairs();
    let mut out: StrMap<i128> = StrMap::new();
    let mut j: usize = 0;
    assert(map_of(ps.take(0)) =~= Map::<Seq<char>, i128>::empty());
    assert(live(Map::<Seq<char>, i128>::empty(), now as int) =~= Map::<Seq<char>, i128>::empty());
    while j < m.len()
        invariant
            j <= ps.len(),
            ps == m.pairs(),
            m@ == map_of(ps),
            keys_distinct(ps),
            out@ == live(map_of(ps.take(j as int)), now as int),
        decreases ps.len() - j,
    {
        proof {
            lemma_map_of_take(ps, j as int);
        }
        let k = m.key_at(j);
        let v = *m.value_at(j);
        let ghost before = map_of(ps.take(j as int));
        if v > now {
            out.insert(k.clone(), v);
            assert(out@ =~= live(before.insert(k@, v), now as int));
        } else {
            assert(out@ =~= live(before.insert(k@, v), now as int));
        }
        j = j + 1;
    }
    assert(ps.take(ps.len() as int) =~= ps);
    out
}

/// Inserts `x` into the strictly sorted `v` unless it is there.
fn insert_sorted(v: &mut Vec<String>, x: String)
    requires
        strictly_sorted(string_views(old(v)@)),
    ensures
        strictly_sorted(string_views(final(v)@)),
        string_views(final(v)@).to_set() == string_views(old(v)@).to_set().insert(x@),
{
    let xs = chars_of(x.as_str());
    let mut i: usize = 0;
    while i < v.len() && crate::order::name_lt_exec(&chars_of(v[i].as_str()), &xs)
        invariant
            i <= v@.len(),
            xs@ == x@,
            v@ == old(v)@,
            forall|k: int| 0 <= k < i ==> name_lt(#[trigger] string_views(v@)[k], x@),
        decreases v@.len() - i,
    {
        i = i + 1;
    }
    let ghost sv = string_views(v@);
    if i < v.len() && str_eq(v[i].as_str(), x.as_str()) {
        proof {
            assert(sv.to_set().insert(x@) =~= sv.to_set()) by {
                assert(sv[i as int] == x@);
            }
        }
        return ;
    }
    proof {
        if i < sv.len() {
            crate::order::lemma_name_lt_total(sv[i as int], x@);
        }
    }
    v.insert(i, x);
    proof {
        let nv = string_views(v@);
        assert(nv =~= sv.insert(i as int, x@));
        assert forall|a: int, b: int| 0 <= a < b < nv.len() implies name_lt(#[trigger] nv[a], #[trigger] nv[b]) by {
            if b < i {
            } else if b == i {
                assert(nv[a] == sv[a]);
            } else if a == i {
                assert(nv[b] == sv[b - 1]);
                if b - 1 > i {
                    crate::order::lemma_name_lt_trans(x@, sv[i as int], sv[b - 1]);
                }
            } else if a < i {
                assert(nv[a] == sv[a] && nv[b] == sv[b - 1]);
            } else {
                assert(nv[a] == sv[a - 1] && nv[b] == sv[b - 1]);
            }
        }
        assert(nv.to_set() =~= sv.to_set().insert(x@)) by {
            assert forall|s: Seq<char>| nv.to_set().contains(s) <==> sv.to_set().insert(x@).contains(s) by {
                if nv.to_set().contains(s) {
                    let k = choose|k: int| 0 <= k < nv.len() && nv[k] == s;
                    if k < i {
                        assert(sv[k] == s);
                    } else if k > i {
                        assert(sv[k - 1] == s);
                    }
                }
                if sv.to_set().contains(s) {
                    let k = choose|k: int| 0 <= k < sv.len() && sv[k] == s;
                    if k < i {
                        assert(nv[k] == s);
                    } else {
                        assert(nv[k + 1] == s);
                    }
                }
                if s == x@ {
                    assert(nv[i as int] == s);
                }
            }
        }
    }
}

/// `b` is `a` with the typing notice recorded (see `record_typing`).
pub open spec fn typing_recorded(a: &App, b: &App, channel_id: Seq<char>, user_id: Seq<char>) -> bool {
    &&& (channel_id.len() == 0 || user_id.len() == 0 || user_id == a.me.id@)
                    ==> *b == *a
    &&& !(channel_id.len() == 0 || user_id.len() == 0 || user_id == a.me.id@) ==> {
                    &&& (App { typing_users: a.typing_users, ..*b }) == *a
                    &&& typing_view(b) == typing_view(a).insert(
                        channel_id,
                        (if typing_view(a).dom().contains(channel_id) {
                            typing_view(a)[channel_id]
                        } else {
                            Map::empty()
                        }).insert(user_id, (a.clock + TYPING_TTL_NANOS) as i128),
                    )
                }
}

/// `b` is `a` with the user's typing notice dropped (see `clear_typing_for_message`).
pub open spec fn typing_cleared(a: &App, b: &App, channel_id: Seq<char>, user_id: Seq<char>) -> bool {
    &&& (App { typing_users: a.typing_users, ..*b }) == *a
    &&& !typing_view(a).dom().contains(channel_id) ==> typing_view(b)
                    == typing_view(a)
    &&& typing_view(a).dom().contains(channel_id) ==> typing_view(b) == (
                if typing_view(a)[channel_id].remove(user_id) == Map::<Seq<char>, i128>::empty() {
                    typing_view(a).remove(channel_id)
                } else {
                    typing_view(a).insert(
                        channel_id,
                        typing_view(a)[channel_id].remove(user_id),
                    )
                })
}

impl App {
    /// Records that a user is typing in a channel, until the notice expires;
    /// notices without a channel or user, or from the signed-in user, are ignored.
    pub fn record_typing(&mut self, channel_id: &str, user_id: &str)
        requires
            old(self).clock + TYPING_TTL_NANOS <= i128::MAX,
        ensures
            typing_recorded(old(self), final(self), channel_id@, user_id@),
    {
        if channel_id.is_empty() || user_id.is_empty() || str_eq(user_id, self.me.id.as_str()) {
            return ;
        }
        let exp = self.clock + TYPING_TTL_NANOS;
        let ghost tv = typing_view(self);
        let idx = self.typing_users.index_of(channel_id);
        let mut inner: StrMap<i128> = match idx {
            Some(i) => {
                self.typing_users.reveal_pairs();
                proof {
                    crate::store::lemma_map_of_at(self.typing_users.pairs(), i as int);
                }
                self.typing_users.replace_value_at(i, StrMap::new())
            },
            None => StrMap::new(),
        };
        inner.insert(owned(user_id), exp);
        let ghost iv = inner@;
        match idx {
            Some(i) => {
                let _ = self.typing_users.replace_value_at(i, inner);
            },
            None => {
                self.typing_users.insert(owned(channel_id), inner);
            },
        }
        proof {
            assert(typing_view(self) =~= tv.insert(channel_id@, iv));
        }
    }

    /// Drops a user's typing notice in a channel (their message arrived),
    /// and the channel's entry once no one types there.
    pub fn clear_typing_for_message(&mut self, channel_id: &str, user_id: &str)
        ensures
            typing_cleared(old(self), final(self), channel_id@, user_id@),
    {
        let ghost tv = typing_view(self);
        let i = match self.typing_users.index_of(channel_id) {
            Some(i) => i,
            None => {
                return ;
            },
        };
        self.typing_users.reveal_pairs();
        proof {
            crate::store::lemma_map_of_at(self.typing_users.pairs(), i as int);
        }
        let mut inner = self.typing_users.replace_value_at(i, StrMap::new());
        let _ = inner.remove(user_id);
        let ghost iv = inner@;
        if inner.is_empty() {
            let _ = self.typing_users.remove(channel_id);
            proof {
                assert(typing_view(self) =~= tv.remove(channel_id@));
            }
        } else {
            let _ = self.typing_users.replace_value_at(i, inner);
            proof {
                assert(typing_view(self) =~= tv.insert(channel_id@, iv));
            }
        }
    }

    /// Drops the expired typing notices, and the channels left without any.
    pub fn prune_stale_typing(&mut self)
        ensures
            (App { typing_users: old(self).typing_users, ..*final(self) }) == *old(self),
            typing_view(final(self)) == pruned(typing_view(old(self)), old(self).clock as int),
    {
        self.typing_users.reveal_pairs();
        let ghost ps = self.typing_users.pairs();
        let now = self.clock;
        let mut out: StrMap<StrMap<i128>> = StrMap::new();
        let mut j: usize = 0;
        assert(map_of(ps.take(0)) =~= Map::<Seq<char>, StrMap<i128>>::empty());
        assert(pruned(map_of(ps.take(0)).map_values(|m: StrMap<i128>| m@), now as int) =~= Map::<Seq<char>, Map<Seq<char>, i128>>::empty());
        while j < self.typing_users.len()
            invariant
                j <= ps.len(),
                ps == self.typing_users.pairs(),
                self.typing_users@ == map_of(ps),
                keys_distinct(ps),
                now == self.clock,
                *self == *old(self),
                out@.map_values(|m: StrMap<i128>| m@) == pruned(
                    map_of(ps.take(j as int)).map_values(|m: StrMap<i128>| m@),
                    now as int,
                ),
            decreases ps.len() - j,
        {
            proof {
                lemma_map_of_take(ps, j as int);
            }
            let k = self.typing_users.key_at(j);
            let inner = live_part(self.typing_users.value_at(j), now);
            let ghost before = map_of(ps.take(j as int)).map_values(|m: StrMap<i128>| m@);
            let ghost after = map_of(ps.take(j + 1)).map_values(|m: StrMap<i128>| m@);
            assert(after =~= before.insert(k@, ps[j as int].1@));
            assert(!before.dom().contains(k@));
            let ghost iv = ps[j as int].1@;
            let ghost old_out = out@.map_values(|m: StrMap<i128>| m@);
            assert(inner@ == live(iv, now as int));
            let ghost expect = if live(iv, now as int) == Map::<Seq<char>, i128>::empty() {
                pruned(before, now as int)
            } else {
                pruned(before, now as int).insert(k@, live(iv, now as int))
            };
            assert(pruned(after, now as int) =~= expect);
            if !inner.is_empty() {
                out.insert(k.clone(), inner);
                proof {
                    assert(out@.map_values(|m: StrMap<i128>| m@) =~= old_out.insert(k@, live(iv, now as int)));
                }
            }
            proof {
                assert(out@.map_values(|m: StrMap<i128>| m@) =~= pruned(after, now as int));
            }
            j = j + 1;
        }
        assert(ps.take(ps.len() as int) =~= ps);
        self.typing_users = out;
    }

    /// Forgets every typing notice.
    pub fn clear_all_typing(&mut self)
        ensures
            (App { typing_users: old(self).typing_users, ..*final(self) }) == *old(self),
            final(self).typing_users@ == Map::<Seq<char>, StrMap<i128>>::empty(),
    {
        self.typing_users.clear();
    }

    /// The name shown for a user in a guild: its member nickname when set and
    /// not blank, else the display name of the cached account.
    pub fn shown_name_for_user(&self, guild_id: Option<&str>, user: &UserPartialResponse) -> (r: String)
        ensures
            r@ == shown_name(self, crate::settings::opt_ref_view(guild_id), *user),
    {
        let u = match self.user_cache.get(user.id.as_str()) {
            Some(c) => c,
            None => user,
        };
        if let Some(gid) = guild_id {
            if let Some(members) = self.guild_members.get(gid) {
                let ghost p = |m: GuildMemberResponse| m.user.id@ == user.id@;
                let mut i: usize = 0;
                while i < members.len() && !str_eq(members[i].user.id.as_str(), user.id.as_str())
                    invariant
                        i <= members@.len(),
                        p == (|m: GuildMemberResponse| m.user.id@ == user.id@),
                        forall|k: int| 0 <= k < i ==> !p(#[trigger] members@[k]),
                    decreases members@.len() - i,
                {
                    i = i + 1;
                }
                proof {
                    lemma_first_idx_is(members@, p, 0, i as int);
                }
                if i < members.len() {
                    let m = &members[i];
                    let base = match self.user_cache.get(m.user.id.as_str()) {
                        Some(c) => c,
                        None => &m.user,
                    };
                    return match &m.nick {
                        Some(n) => if !blank(n.as_str()) {
                            n.clone()
                        } else {
                            account_display_name(base)
                        },
                        None => account_display_name(base),
                    };
                }
            }
        }
        account_display_name(u)
    }

    /// The signed-in user's name as shown in a guild.
    pub fn self_nick_or_username_in_guild(&self, guild_id: &str) -> (r: String)
        ensures
            r@ == shown_name(self, Some(guild_id@), crate::names::partial_of(self.me)),
    {
        let me = crate::names::me_as_partial(&self.me);
        self.shown_name_for_user(Some(guild_id), &me)
    }

    /// The shown names of the users typing in a channel, ordered by user id.
    pub fn typing_peer_names(&self, channel_id: &str) -> (r: Vec<String>)
        ensures
            peer_names_of(self, channel_id@, string_views(r@)),
    {
        let mut ids: Vec<String> = Vec::new();
        let ghost tv = typing_view(self);
        match self.typing_users.get(channel_id) {
            Some(users) => {
                let lv = live_part(users, self.clock);
                lv.reveal_pairs();
                let ghost ps = lv.pairs();
                let mut j: usize = 0;
                assert(string_views(ids@).to_set() =~= Set::<Seq<char>>::empty());
                while j < lv.len()
                    invariant
                        j <= ps.len(),
                        ps == lv.pairs(),
                        lv@ == map_of(ps),
                        keys_distinct(ps),
                        strictly_sorted(string_views(ids@)),
                        string_views(ids@).to_set() == Set::new(|s: Seq<char>| exists|k: int| 0 <= k < j && #[trigger] ps[k].0@ == s),
                    decreases ps.len() - j,
                {
                    let ghost before = string_views(ids@).to_set();
                    insert_sorted(&mut ids, lv.key_at(j).clone());
                    proof {
                        assert(string_views(ids@).to_set() =~= Set::new(|s: Seq<char>| exists|k: int| 0 <= k < j + 1 && #[trigger] ps[k].0@ == s)) by {
                            assert forall|s: Seq<char>| #[trigger] string_views(ids@).to_set().contains(s) <==> (exists|k: int| 0 <= k < j + 1 && #[trigger] ps[k].0@ == s) by {
                                if s == ps[j as int].0@ {
                                }
                                if exists|k: int| 0 <= k < j + 1 && #[trigger] ps[k].0@ == s {
                                    let k = choose|k: int| 0 <= k < j + 1 && #[trigger] ps[k].0@ == s;
                                    if k < j {
                                        assert(before.contains(s));
                                    }
                                }
                            }
                        }
                    }
                    j = j + 1;
                }
                proof {
                    assert(string_views(ids@).to_set() =~= live_typers(self, channel_id@)) by {
                        assert forall|s: Seq<char>| #[trigger] string_views(ids@).to_set().contains(s) <==> live_typers(self, channel_id@).contains(s) by {
                            if live_typers(self, channel_id@).contains(s) {
                                let k = choose|k: int| crate::store::has_key_at(ps, s, k);
                                assert(ps[k].0@ == s);
                            }
                            if string_views(ids@).to_set().contains(s) {
                                let k = choose|k: int| 0 <= k < ps.len() && #[trigger] ps[k].0@ == s;
                                crate::store::lemma_map_of_at(ps, k);
                            }
                        }
                    }
                }
            },
            None => {
                assert(string_views(ids@).to_set() =~= live_typers(self, channel_id@));
            },
        }
        let guild = self.guild_id_for_channel(channel_id);
        let gref: Option<&str> = match &guild {
            Some(g) => Some(g.as_str()),
            None => None,
        };
        let ghost gv = guild_of_channel(self, channel_id@);
        assert(crate::settings::opt_ref_view(gref) == gv);
        let mut names: Vec<String> = Vec::new();
        let mut i: usize = 0;
        while i < ids.len()
            invariant
                i <= ids@.len(),
                crate::settings::opt_ref_view(gref) == gv,
                names@.len() == i,
                forall|k: int| 0 <= k < i ==> #[trigger] names@[k]@ == peer_name(self, gv, ids@[k]@),
            decreases ids@.len() - i,
        {
            let id = &ids[i];
            let name = match self.user_cache.get(id.as_str()) {
                Some(u) => self.shown_name_for_user(gref, u),
                None => id.clone(),
            };
            names.push(name);
            i = i + 1;
        }
        proof {
            let sv = string_views(ids@);
            assert forall|k: int| 0 <= k < sv.len() implies #[trigger] string_views(names@)[k] == peer_name(self, guild_of_channel(self, channel_id@), sv[k]) by {
                assert(names@[k]@ == peer_name(self, gv, ids@[k]@));
            }
        }
        names
    }

    /// The typing notice for the selected channel, when typing indicators
    /// are shown, performance mode is off, and someone else types there.
    pub fn others_typing_phrase(&self) -> (r: Option<String>)
        ensures
            (!self.ui_settings.show_typing_indicators || self.ui_settings.performance_mode
                || self.selected_channel_id is None) ==> r is None,
            (self.ui_settings.show_typing_indicators && !self.ui_settings.performance_mode
                && self.selected_channel_id is Some) ==> (r is None <==> typers_here(self) == 0),
            r matches Some(p) ==> self.selected_channel_id matches Some(c) && exists|names: Seq<Seq<char>>|
                peer_names_of(self, c@, names) && names.len() > 0 && p@ == typing_phrase_spec(names),
    {
        if !self.ui_settings.show_typing_indicators || self.ui_settings.performance_mode {
            return None;
        }
        let ch = match &self.selected_channel_id {
            Some(c) => c,
            None => {
                return None;
            },
        };
        let names = self.typing_peer_names(ch.as_str());
        proof {
            lemma_peer_names_len(self, ch@, string_views(names@));
        }
        if names.len() == 0 {
            return None;
        }
        Some(fluxer_typing_phrase(&names))
    }

    /// Whether the typing animation runs: indicators shown, performance mode
    /// off, and someone else types in the selected channel.
    pub fn others_typing_anim_active(&self) -> (r: bool)
        ensures
            r == (self.ui_settings.show_typing_indicators && !self.ui_settings.performance_mode
                && typers_here(self) > 0),
    {
        if !self.ui_settings.show_typing_indicators || self.ui_settings.performance_mode {
            return false;
        }
        match &self.selected_channel_id {
            Some(c) => {
                let names = self.typing_peer_names(c.as_str());
                proof {
                    lemma_peer_names_len(self, c@, string_views(names@));
                }
                names.len() > 0
            },
            None => false,
        }
    }
}

/// The live typers form a finite set, as many as the names shown for them.
proof fn lemma_peer_names_len(app: &App, cid: Seq<char>, names: Seq<Seq<char>>)
    requires
        peer_names_of(app, cid, names),
    ensures
        live_typers(app, cid).finite(),
        live_typers(app, cid).len() == names.len(),
{
    let ids = choose|ids: Seq<Seq<char>>|
        strictly_sorted(ids) && ids.to_set() == live_typers(app, cid) && ids.len() == names.len()
            && forall|i: int| 0 <= i < ids.len() ==> #[trigger] names[i] == peer_name(app, guild_of_channel(app, cid), ids[i]);
    assert(ids.no_duplicates()) by {
        assert forall|i: int, j: int| 0 <= i < ids.len() && 0 <= j < ids.len() && i != j implies ids[i] != ids[j] by {
            if i < j {
                crate::order::lemma_name_lt_irrefl_ne(ids[i], ids[j]);
            } else {
                crate::order::lemma_name_lt_irrefl_ne(ids[j], ids[i]);
            }
        }
    }
    ids.unique_seq_to_set();
}

} // verus!
