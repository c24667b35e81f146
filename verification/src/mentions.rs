//! The @ mention picker: who and which roles can be mentioned in the
//! selected channel, the filter typed after `@`, and inserting the pick.
use crate::app::{server_view, App, MentionAutocomplete, MentionPick, ServerSelection};
use crate::channels::active_spec;
use crate::media::{lemma_last_index_bounds, last_index_of};
use crate::members::guild_of_channel;
use crate::names::{account_display_name, display_name_spec};
use crate::order::{name_lt, name_lt_exec};
use crate::seqs::{first_idx, isort, lemma_first_idx_is, range_seq};
use crate::text::{blank, chars_of, contains, contains_exec, is_blank, lowercase, str_eq, string_of, to_lowercase};
use crate::types::{GuildMemberResponse, GuildRoleResponse, MessageResponse, UserPartialResponse};
use vstd::prelude::*;

verus! {

/// At most this many picks match a typed filter.
pub const MENTION_FILTER_CAP: usize = 400;

/// With nothing typed after `@`, this many picks are offered.
pub const MENTION_INITIAL_CAP: usize = 80;

/// A pick by value: whether it is a user, its id, its shown name (display
/// name or role name), the username (empty for roles), and the role colour.
pub type PickView = (bool, Seq<char>, Seq<char>, Seq<char>, u32);

pub open spec fn pick_view(p: MentionPick) -> PickView {
    match p {
        MentionPick::User { user_id, display, username } => (true, user_id@, display@, username@, 0u32),
        MentionPick::Role { role_id, name, color } => (false, role_id@, name@, Seq::empty(), color),
    }
}

pub open spec fn picks_view(ps: Seq<MentionPick>) -> Seq<PickView> {
    ps.map_values(|p: MentionPick| pick_view(p))
}

/// Whether a pick matches a lower-case filter: a user by display name or
/// username, a role by name, compared in lower case.
pub open spec fn pick_matches(p: PickView, q: Seq<char>) -> bool {
    if p.0 {
        contains(lowercase(p.2), q) || contains(lowercase(p.3), q)
    } else {
        contains(lowercase(p.2), q)
    }
}

impl MentionPick {
    /// Whether the pick matches a lower-case filter; see `pick_matches`.
    pub fn matches_filter(&self, query: &str) -> (r: bool)
        ensures
            r == pick_matches(pick_view(*self), query@),
    {
        match self {
            MentionPick::User { display, username, .. } => {
                let q = chars_of(query);
                contains_exec(&chars_of(to_lowercase(display.as_str()).as_str()), &q) || contains_exec(
                    &chars_of(to_lowercase(username.as_str()).as_str()),
                    &q,
                )
            },
            MentionPick::Role { name, .. } => contains_exec(
                &chars_of(to_lowercase(name.as_str()).as_str()),
                &chars_of(query),
            ),
        }
    }
}

/// The cached record of a user, if any.
pub open spec fn cached(app: &App, id: Seq<char>) -> Option<UserPartialResponse> {
    if app.user_cache@.dom().contains(id) {
        Some(app.user_cache@[id])
    } else {
        None
    }
}

/// The pick for a guild member, unless it has neither a username nor a name to show.
pub open spec fn member_pick(app: &App, m: GuildMemberResponse) -> Option<PickView> {
    let c = cached(app, m.user.id@);
    let username = if m.user.username@.len() > 0 {
        m.user.username@
    } else {
        match c {
            Some(u) => u.username@,
            None => Seq::empty(),
        }
    };
    let base = if m.user.username@.len() > 0 {
        display_name_spec(
            match c {
                Some(u) => u,
                None => m.user,
            },
        )
    } else {
        match c {
            Some(u) => display_name_spec(u),
            None => Seq::empty(),
        }
    };
    let disp = match m.nick {
        Some(n) => if !is_blank(n@) {
            n@
        } else {
            base
        },
        None => base,
    };
    if username.len() == 0 && disp.len() == 0 {
        None
    } else {
        Some((true, m.user.id@, disp, username, 0u32))
    }
}

/// The member picks in order, each user once, with the ids seen so far.
pub open spec fn member_picks(app: &App, ms: Seq<GuildMemberResponse>, seen0: Set<Seq<char>>) -> (Seq<PickView>, Set<Seq<char>>)
    decreases ms.len(),
{
    if ms.len() == 0 {
        (Seq::empty(), seen0)
    } else {
        let (ps, seen) = member_picks(app, ms.drop_last(), seen0);
        let m = ms.last();
        if m.user.id@.len() == 0 || seen.contains(m.user.id@) {
            (ps, seen)
        } else {
            match member_pick(app, m) {
                Some(p) => (ps.push(p), seen.insert(m.user.id@)),
                None => (ps, seen.insert(m.user.id@)),
            }
        }
    }
}

/// The picks for a direct message's recipients in order, each once.
pub open spec fn recipient_picks(rs: Seq<UserPartialResponse>, seen0: Set<Seq<char>>) -> (Seq<PickView>, Set<Seq<char>>)
    decreases rs.len(),
{
    if rs.len() == 0 {
        (Seq::empty(), seen0)
    } else {
        let (ps, seen) = recipient_picks(rs.drop_last(), seen0);
        let r = rs.last();
        if r.id@.len() == 0 || seen.contains(r.id@) {
            (ps, seen)
        } else {
            (ps.push((true, r.id@, display_name_spec(r), r.username@, 0u32)), seen.insert(r.id@))
        }
    }
}

/// The nickname of a user in a guild's member list.
pub open spec fn member_nick(app: &App, gid: Option<Seq<char>>, uid: Seq<char>) -> Option<String> {
    match gid {
        Some(g) => if app.guild_members@.dom().contains(g) {
            let ms = app.guild_members@[g]@;
            let k = first_idx(ms, |m: GuildMemberResponse| m.user.id@ == uid, 0);
            if k < ms.len() {
                ms[k].nick
            } else {
                None
            }
        } else {
            None
        },
        None => None,
    }
}

/// The pick for a message's author, unless it has neither a username nor a name to show.
pub open spec fn author_pick(app: &App, gid: Option<Seq<char>>, msg: MessageResponse) -> Option<PickView> {
    let a = msg.author;
    let u = match cached(app, a.id@) {
        Some(c) => c,
        None => a,
    };
    let base = display_name_spec(u);
    let disp = match member_nick(app, gid, a.id@) {
        Some(n) => if !is_blank(n@) {
            n@
        } else {
            base
        },
        None => base,
    };
    let username = if a.username@.len() > 0 {
        a.username@
    } else {
        match cached(app, a.id@) {
            Some(c) => if c.username@.len() > 0 {
                c.username@
            } else {
                base
            },
            None => base,
        }
    };
    if username.len() == 0 && disp.len() == 0 {
        None
    } else {
        Some((true, a.id@, disp, username, 0u32))
    }
}

/// The author picks of the cached messages in order, each user once.
pub open spec fn author_picks(app: &App, gid: Option<Seq<char>>, ms: Seq<MessageResponse>, seen0: Set<Seq<char>>) -> (
    Seq<PickView>,
    Set<Seq<char>>,
)
    decreases ms.len(),
{
    if ms.len() == 0 {
        (Seq::empty(), seen0)
    } else {
        let (ps, seen) = author_picks(app, gid, ms.drop_last(), seen0);
        let m = ms.last();
        if m.author.id@.len() == 0 || seen.contains(m.author.id@) {
            (ps, seen)
        } else {
            match author_pick(app, gid, m) {
                Some(p) => (ps.push(p), seen.insert(m.author.id@)),
                None => (ps, seen.insert(m.author.id@)),
            }
        }
    }
}

/// The role picks in order, each role once, roles with a blank name left out.
pub open spec fn role_picks(rs: Seq<GuildRoleResponse>, seen0: Set<Seq<char>>) -> (Seq<PickView>, Set<Seq<char>>)
    decreases rs.len(),
{
    if rs.len() == 0 {
        (Seq::empty(), seen0)
    } else {
        let (ps, seen) = role_picks(rs.drop_last(), seen0);
        let r = rs.last();
        if r.id@.len() == 0 || seen.contains(r.id@) {
            (ps, seen)
        } else if is_blank(r.name@) {
            (ps, seen.insert(r.id@))
        } else {
            (ps.push((false, r.id@, r.name@, Seq::empty(), r.color)), seen.insert(r.id@))
        }
    }
}

/// Order by lower-cased shown name.
pub open spec fn key_before(keys: Seq<Seq<char>>) -> spec_fn(usize, usize) -> bool {
    |i: usize, j: usize| name_lt(keys[i as int], keys[j as int])
}

/// The lower-cased shown names of picks.
pub open spec fn lower_names(ps: Seq<PickView>) -> Seq<Seq<char>> {
    ps.map_values(|p: PickView| lowercase(p.2))
}

/// The picks stably sorted by lower-cased shown name.
pub open spec fn sorted_picks(ps: Seq<PickView>) -> Seq<PickView> {
    isort(range_seq(ps.len() as int), key_before(lower_names(ps))).map_values(|i: usize| ps[i as int])
}

/// The user picks before sorting: members (in a guild) or recipients (in
/// a direct message), then the authors of the selected channel's messages.
pub open spec fn raw_user_picks(app: &App) -> Seq<PickView> {
    let (first, seen) = match server_view(app.selected_server) {
        Some(g) => member_picks(
            app,
            if app.guild_members@.dom().contains(g) {
                app.guild_members@[g]@
            } else {
                Seq::empty()
            },
            Set::empty(),
        ),
        None => match active_spec(app) {
            Some(ch) => recipient_picks(ch.recipients@, Set::empty()),
            None => (Seq::empty(), Set::empty()),
        },
    };
    match app.selected_channel_id {
        Some(c) => if app.messages@.dom().contains(c@) {
            first + author_picks(app, guild_of_channel(app, c@), app.messages@[c@]@, seen).0
        } else {
            first
        },
        None => first,
    }
}

/// The role picks of the selected guild.
pub open spec fn raw_role_picks(app: &App) -> Seq<PickView> {
    match server_view(app.selected_server) {
        Some(g) => if app.guild_roles@.dom().contains(g) {
            role_picks(app.guild_roles@[g]@, Set::empty()).0
        } else {
            Seq::empty()
        },
        None => Seq::empty(),
    }
}

/// Every pick: users sorted by name, then roles sorted by name.
pub open spec fn mention_pool(app: &App) -> Seq<PickView> {
    sorted_picks(raw_user_picks(app)) + sorted_picks(raw_role_picks(app))
}

/// What follows the last `@` in the input (all of it when there is none).
pub open spec fn after_last(s: Seq<char>, c: char) -> Seq<char> {
    s.skip(last_index_of(s, c) + 1)
}

/// The indices of the pool that the filter shows: the first few when the
/// filter is empty, else the matching ones, at most a cap.
pub open spec fn filter_matches(pool: Seq<PickView>, q: Seq<char>) -> Seq<usize> {
    if q.len() == 0 {
        range_seq(if pool.len() < MENTION_INITIAL_CAP {
            pool.len() as int
        } else {
            MENTION_INITIAL_CAP as int
        })
    } else {
        let all = crate::slash_commands::indices_where(pool.len() as int, |i: int| pick_matches(pool[i], q));
        if all.len() > MENTION_FILTER_CAP {
            all.take(MENTION_FILTER_CAP as int)
        } else {
            all
        }
    }
}

/// A selection index kept inside a list of `n` entries.
pub open spec fn clamp_sel(sel: usize, n: int) -> usize {
    if sel >= n {
        if n == 0 {
            0
        } else {
            (n - 1) as usize
        }
    } else {
        sel
    }
}

/// Stable insertion sort of `0..n` by the keys.
fn sort_by_keys(keys: &Vec<Vec<char>>) -> (r: Vec<usize>)
    ensures
        r@ == isort(range_seq(keys@.len() as int), key_before(keys@.map_values(|v: Vec<char>| v@))),
        forall|i: int| 0 <= i < r@.len() ==> (#[trigger] r@[i]) < keys@.len(),
{
    let ghost kv = keys@.map_values(|v: Vec<char>| v@);
    let ghost before = key_before(kv);
    let mut r: Vec<usize> = Vec::new();
    let mut i: usize = 0;
    while i < keys.len()
        invariant
            i <= keys@.len(),
            kv == keys@.map_values(|v: Vec<char>| v@),
            before == key_before(kv),
            r@ == isort(range_seq(i as int), before),
            forall|k: int| 0 <= k < r@.len() ==> (#[trigger] r@[k]) < i,
        decreases keys@.len() - i,
    {
        let x = i;
        let ghost p = |y: usize| before(x, y);
        let mut j: usize = 0;
        while j < r.len() && !name_lt_exec(&keys[x], &keys[r[j]])
            invariant
                j <= r@.len(),
                x < keys@.len(),
                kv == keys@.map_values(|v: Vec<char>| v@),
                before == key_before(kv),
                p == (|y: usize| before(x, y)),
                forall|k: int| 0 <= k < r@.len() ==> (#[trigger] r@[k]) < x,
                forall|k: int| 0 <= k < j ==> !p(#[trigger] r@[k]),
            decreases r@.len() - j,
        {
            j = j + 1;
        }
        proof {
            lemma_first_idx_is(r@, p, 0, j as int);
            assert(range_seq(i + 1).drop_last() =~= range_seq(i as int));
            assert(range_seq(i + 1).last() == x);
        }
        let ghost prev = r@;
        r.insert(j, x);
        i = i + 1;
        proof {
            assert forall|k: int| 0 <= k < r@.len() implies (#[trigger] r@[k]) < i by {
                if k < j {
                    assert(r@[k] == prev[k]);
                } else if k > j {
                    assert(r@[k] == prev[k - 1]);
                }
            }
        }
    }
    r
}

/// The picks sorted stably by lower-cased shown name.
fn sort_picks(ps: Vec<MentionPick>) -> (r: Vec<MentionPick>)
    ensures
        picks_view(r@) == sorted_picks(picks_view(ps@)),
{
    let mut keys: Vec<Vec<char>> = Vec::new();
    let mut i: usize = 0;
    while i < ps.len()
        invariant
            i <= ps@.len(),
            keys@.len() == i,
            forall|k: int| 0 <= k < i ==> #[trigger] keys@[k]@ == lowercase(pick_view(ps@[k]).2),
        decreases ps@.len() - i,
    {
        let name = match &ps[i] {
            MentionPick::User { display, .. } => display,
            MentionPick::Role { name, .. } => name,
        };
        keys.push(chars_of(to_lowercase(name.as_str()).as_str()));
        i = i + 1;
    }
    let ghost pv = picks_view(ps@);
    assert(keys@.map_values(|v: Vec<char>| v@) =~= lower_names(pv));
    let order = sort_by_keys(&keys);
    let mut out: Vec<MentionPick> = Vec::new();
    let mut k: usize = 0;
    while k < order.len()
        invariant
            k <= order@.len(),
            forall|q: int| 0 <= q < order@.len() ==> (#[trigger] order@[q]) < ps@.len(),
            picks_view(out@) == order@.take(k as int).map_values(|i: usize| pv[i as int]),
            pv == picks_view(ps@),
        decreases order@.len() - k,
    {
        let ghost prev = picks_view(out@);
        let c = ps[order[k]].clone();
        assert(pick_view(c) == pv[order@[k as int] as int]);
        out.push(c);
        assert(picks_view(out@) =~= prev.push(pv[order@[k as int] as int]));
        assert(order@.take(k + 1) =~= order@.take(k as int).push(order@[k as int]));
        k = k + 1;
        assert(picks_view(out@) =~= order@.take(k as int).map_values(|i: usize| pv[i as int]));
    }
    assert(order@.take(order@.len() as int) =~= order@);
    out
}

/// Position of the last `c` in the text.
fn last_pos(s: &Vec<char>, c: char) -> (r: Option<usize>)
    ensures
        r matches Some(i) ==> i as int == last_index_of(s@, c),
        r is None ==> last_index_of(s@, c) == -1,
{
    proof {
        lemma_last_index_bounds(s@, c);
    }
    let mut i: usize = s.len();
    assert(s@.subrange(0, i as int) =~= s@);
    while i > 0
        invariant
            i <= s@.len(),
            last_index_of(s@, c) == last_index_of(s@.subrange(0, i as int), c),
        decreases i,
    {
        if s[i - 1] == c {
            return Some(i - 1);
        }
        assert(s@.subrange(0, i as int).drop_last() =~= s@.subrange(0, i - 1));
        i = i - 1;
    }
    None
}

/// What follows the last `c` in the text (all of it when there is none).
pub fn text_after_last(s: &str, c: char) -> (r: String)
    ensures
        r@ == after_last(s@, c),
{
    let v = chars_of(s);
    proof {
        lemma_last_index_bounds(s@, c);
    }
    let start: usize = match last_pos(&v, c) {
        Some(i) => {
            assert(i < v@.len());
            i + 1
        },
        None => 0,
    };
    let mut out: Vec<char> = Vec::new();
    let mut i: usize = start;
    while i < v.len()
        invariant
            start <= i <= v@.len(),
            out@ == v@.subrange(start as int, i as int),
        decreases v@.len() - i,
    {
        out.push(v[i]);
        i = i + 1;
        assert(out@ =~= v@.subrange(start as int, i as int));
    }
    assert(v@.subrange(start as int, v@.len() as int) =~= after_last(s@, c));
    string_of(out.as_slice())
}

/// The pool indices the filter shows; see `filter_matches`.
pub fn filter_pool(pool: &Vec<MentionPick>, query: &str) -> (r: Vec<usize>)
    ensures
        r@ == filter_matches(picks_view(pool@), query@),
{
    let ghost pv = picks_view(pool@);
    let mut out: Vec<usize> = Vec::new();
    if query.is_empty() {
        let n = if pool.len() < MENTION_INITIAL_CAP {
            pool.len()
        } else {
            MENTION_INITIAL_CAP
        };
        let mut i: usize = 0;
        while i < n
            invariant
                i <= n,
                out@ == range_seq(i as int),
            decreases n - i,
        {
            out.push(i);
            i = i + 1;
            assert(out@ =~= range_seq(i as int));
        }
        return out;
    }
    let ghost keep = |i: int| pick_matches(pv[i], query@);
    let mut i: usize = 0;
    while i < pool.len() && out.len() < MENTION_FILTER_CAP
        invariant
            i <= pool@.len(),
            pv == picks_view(pool@),
            keep == (|i: int| pick_matches(pv[i], query@)),
            out@ == crate::slash_commands::indices_where(i as int, keep),
            out@.len() <= MENTION_FILTER_CAP,
        decreases pool@.len() - i,
    {
        if pool[i].matches_filter(query) {
            out.push(i);
        }
        i = i + 1;
    }
    proof {
        lemma_iw_prefix(i as int, pool@.len() as int, keep);
        let all = crate::slash_commands::indices_where(pool@.len() as int, keep);
        if i < pool@.len() {
            assert(out@.len() == MENTION_FILTER_CAP);
        } else {
            assert(all.len() <= MENTION_FILTER_CAP);
        }
    }
    out
}

/// The indices kept among the first `n` are a prefix of those kept among the first `m >= n`.
proof fn lemma_iw_prefix(n: int, m: int, keep: spec_fn(int) -> bool)
    requires
        0 <= n <= m,
    ensures
        crate::slash_commands::indices_where(n, keep).len() <= crate::slash_commands::indices_where(m, keep).len(),
        crate::slash_commands::indices_where(m, keep).take(crate::slash_commands::indices_where(n, keep).len() as int)
            == crate::slash_commands::indices_where(n, keep),
    decreases m - n,
{
    let a = crate::slash_commands::indices_where(n, keep);
    if n == m {
        assert(a.take(a.len() as int) =~= a);
    } else {
        lemma_iw_prefix(n, m - 1, keep);
        let b = crate::slash_commands::indices_where(m - 1, keep);
        let c = crate::slash_commands::indices_where(m, keep);
        if keep(m - 1) {
            assert(c == b.push((m - 1) as usize));
            assert(c.take(a.len() as int) =~= b.take(a.len() as int));
        } else {
            assert(c == b);
        }
    }
}

/// `b` is `a` after the guild's members loaded (see `refresh_mention_autocomplete_after_members_load`).
pub open spec fn mention_refreshed(a: &App, b: &App, loaded_guild_id: Seq<char>) -> bool {
    &&& (a.mention_autocomplete is None || server_view(a.selected_server) != Some(
                    loaded_guild_id,
                )) ==> *b == *a
    &&& (a.mention_autocomplete is Some && server_view(a.selected_server) == Some(
                    loaded_guild_id,
                ) && mention_pool(a).len() == 0) ==> *b == (App {
                    mention_autocomplete: None,
                    ..*a
                })
    &&& (a.mention_autocomplete is Some && server_view(a.selected_server) == Some(
                    loaded_guild_id,
                ) && mention_pool(a).len() > 0) ==> exists|mid: App| #[trigger] refreshed_via(a, &mid, b)
}

/// `t` is `s` with the @ picker on its next row.
pub open spec fn mention_forward(s: &App, t: &App) -> bool {
    &&& (App { mention_autocomplete: s.mention_autocomplete, ..*t }) == *s
    &&& match (s.mention_autocomplete, t.mention_autocomplete) {
        (None, None) => true,
        (Some(a), Some(b)) => b.pool == a.pool && b.matches == a.matches && b.selected_index == if a.matches@.len() == 0 {
            a.selected_index
        } else {
            ((a.selected_index + 1) % (a.matches@.len() as int)) as usize
        },
        _ => false,
    }
}

/// `t` is `s` with the @ picker on its previous row.
pub open spec fn mention_back(s: &App, t: &App) -> bool {
    &&& (App { mention_autocomplete: s.mention_autocomplete, ..*t }) == *s
    &&& match (s.mention_autocomplete, t.mention_autocomplete) {
        (None, None) => true,
        (Some(a), Some(b)) => b.pool == a.pool && b.matches == a.matches && b.selected_index == if a.matches@.len() == 0 {
            a.selected_index
        } else {
            (crate::mentions::sat_add(a.selected_index, (a.matches@.len() - 1) as usize) % (a.matches@.len() as int)) as usize
        },
        _ => false,
    }
}

/// `t` is `s` after inserting the picked mention, `r` telling whether one was.
pub open spec fn mention_inserted(s: &App, t: &App, r: bool) -> bool {
    &&& !r ==> *t == *s
    &&& r <==> (s.mention_autocomplete matches Some(a) && a.selected_index < a.matches@.len()
        && a.matches@[a.selected_index as int] < a.pool@.len() && last_index_of(s.input@, '@') >= 0)
    &&& r ==> ({
        let a = s.mention_autocomplete->0;
        let p = pick_view(a.pool@[a.matches@[a.selected_index as int] as int]);
        &&& (App { input: t.input, mention_autocomplete: None, ..*s }) == *t
        &&& t.input@ == s.input@.take(last_index_of(s.input@, '@')) + (if p.0 {
            "<@"@
        } else {
            "<@&"@
        }) + p.1 + "> "@
    })
}

/// `t` is `s` with the @ picker refiltered.
pub open spec fn mention_refiltered(s: &App, t: &App) -> bool {
    &&& s.mention_autocomplete is None ==> *t == *s
    &&& s.mention_autocomplete matches Some(a) ==> mention_filtered(s, t, picks_view(a.pool@), a.selected_index)
}

/// `t` is `s` with the @ picker opened, when there is anyone to offer.
pub open spec fn mention_started(s: &App, t: &App) -> bool {
    &&& mention_pool(s).len() == 0 ==> *t == *s
    &&& mention_pool(s).len() > 0 ==> mention_filtered(s, t, mention_pool(s), 0)
}

impl App {
    /// Adds the picks of a guild's members to `users`, each user once.
    fn collect_member_picks(&self, ms: &Vec<GuildMemberResponse>, users: &mut Vec<MentionPick>, seen: &mut crate::store::StrSet)
        requires
            old(users)@.len() == 0,
            old(seen)@ == Set::<Seq<char>>::empty(),
        ensures
            (picks_view(final(users)@), final(seen)@) == member_picks(self, ms@, Set::empty()),
    {
        let mut i: usize = 0;
        while i < ms.len()
            invariant
                i <= ms@.len(),
                (picks_view(users@), seen@) == member_picks(self, ms@.take(i as int), Set::empty()),
            decreases ms@.len() - i,
        {
            assert(ms@.take(i + 1).drop_last() =~= ms@.take(i as int));
            let m = &ms[i];
            let uid = &m.user.id;
            if !uid.as_str().is_empty() && !seen.contains(uid.as_str()) {
                let _ = seen.insert(uid.clone());
                let c = self.user_cache.get(uid.as_str());
                let username: String = if !m.user.username.as_str().is_empty() {
                    m.user.username.clone()
                } else {
                    match c {
                        Some(u) => u.username.clone(),
                        None => String::new(),
                    }
                };
                let base: String = if !m.user.username.as_str().is_empty() {
                    account_display_name(
                        match c {
                            Some(u) => u,
                            None => &m.user,
                        },
                    )
                } else {
                    match c {
                        Some(u) => account_display_name(u),
                        None => String::new(),
                    }
                };
                let disp: String = match &m.nick {
                    Some(n) => if !blank(n.as_str()) {
                        n.clone()
                    } else {
                        base
                    },
                    None => base,
                };
                if !(username.as_str().is_empty() && disp.as_str().is_empty()) {
                    let ghost before = picks_view(users@);
                    users.push(MentionPick::User { user_id: uid.clone(), display: disp, username });
                    assert(picks_view(users@) =~= before.push(member_pick(self, *m)->0));
                }
            }
            i = i + 1;
        }
        assert(ms@.take(ms@.len() as int) =~= ms@);
    }

    /// Adds the picks of a direct message's recipients to `users`, each user once.
    fn collect_recipient_picks(rs: &Vec<UserPartialResponse>, users: &mut Vec<MentionPick>, seen: &mut crate::store::StrSet)
        requires
            old(users)@.len() == 0,
            old(seen)@ == Set::<Seq<char>>::empty(),
        ensures
            (picks_view(final(users)@), final(seen)@) == recipient_picks(rs@, Set::empty()),
    {
        let mut i: usize = 0;
        while i < rs.len()
            invariant
                i <= rs@.len(),
                (picks_view(users@), seen@) == recipient_picks(rs@.take(i as int), Set::empty()),
            decreases rs@.len() - i,
        {
            assert(rs@.take(i + 1).drop_last() =~= rs@.take(i as int));
            let r = &rs[i];
            if !r.id.as_str().is_empty() && !seen.contains(r.id.as_str()) {
                let _ = seen.insert(r.id.clone());
                let ghost before = picks_view(users@);
                users.push(MentionPick::User {
                    user_id: r.id.clone(),
                    display: crate::names::display_name(r),
                    username: r.username.clone(),
                });
                assert(picks_view(users@) =~= before.push((true, r.id@, display_name_spec(*r), r.username@, 0u32)));
            }
            i = i + 1;
        }
        assert(rs@.take(rs@.len() as int) =~= rs@);
    }

    /// The nickname of a user in a guild's member list.
    fn nick_in(&self, gid: Option<&str>, uid: &str) -> (r: Option<String>)
        ensures
            r == member_nick(self, crate::settings::opt_ref_view(gid), uid@),
    {
        let g = match gid {
            Some(g) => g,
            None => {
                return None;
            },
        };
        let ms = match self.guild_members.get(g) {
            Some(ms) => ms,
            None => {
                return None;
            },
        };
        let ghost p = |m: GuildMemberResponse| m.user.id@ == uid@;
        let mut i: usize = 0;
        while i < ms.len() && !str_eq(ms[i].user.id.as_str(), uid)
            invariant
                i <= ms@.len(),
                p == (|m: GuildMemberResponse| m.user.id@ == uid@),
                forall|k: int| 0 <= k < i ==> !p(#[trigger] ms@[k]),
            decreases ms@.len() - i,
        {
            i = i + 1;
        }
        proof {
            lemma_first_idx_is(ms@, p, 0, i as int);
        }
        if i < ms.len() {
            ms[i].nick.clone()
        } else {
            None
        }
    }

    /// Adds the picks of the messages' authors to `users`, each user once.
    fn collect_author_picks(
        &self,
        gid: Option<&str>,
        msgs: &Vec<MessageResponse>,
        users: &mut Vec<MentionPick>,
        seen: &mut crate::store::StrSet,
    )
        ensures
            ({
                let ap = author_picks(self, crate::settings::opt_ref_view(gid), msgs@, old(seen)@);
                picks_view(final(users)@) == picks_view(old(users)@) + ap.0 && final(seen)@ == ap.1
            }),
    {
        let ghost g = crate::settings::opt_ref_view(gid);
        let ghost base = picks_view(users@);
        let ghost seen0 = seen@;
        let mut i: usize = 0;
        while i < msgs.len()
            invariant
                i <= msgs@.len(),
                g == crate::settings::opt_ref_view(gid),
                base == picks_view(old(users)@),
                seen0 == old(seen)@,
                picks_view(users@) == base + author_picks(self, g, msgs@.take(i as int), seen0).0,
                seen@ == author_picks(self, g, msgs@.take(i as int), seen0).1,
            decreases msgs@.len() - i,
        {
            assert(msgs@.take(i + 1).drop_last() =~= msgs@.take(i as int));
            let m = &msgs[i];
            let a = &m.author;
            if !a.id.as_str().is_empty() && !seen.contains(a.id.as_str()) {
                let _ = seen.insert(a.id.clone());
                let nick = self.nick_in(gid, a.id.as_str());
                let c = self.user_cache.get(a.id.as_str());
                let u = match c {
                    Some(x) => x,
                    None => a,
                };
                let base_display = account_display_name(u);
                let disp: String = match &nick {
                    Some(n) => if !blank(n.as_str()) {
                        n.clone()
                    } else {
                        base_display.clone()
                    },
                    None => base_display.clone(),
                };
                let username: String = if !a.username.as_str().is_empty() {
                    a.username.clone()
                } else {
                    match c {
                        Some(x) => if !x.username.as_str().is_empty() {
                            x.username.clone()
                        } else {
                            base_display.clone()
                        },
                        None => base_display.clone(),
                    }
                };
                if !(username.as_str().is_empty() && disp.as_str().is_empty()) {
                    let ghost before = picks_view(users@);
                    users.push(MentionPick::User { user_id: a.id.clone(), display: disp, username });
                    assert(picks_view(users@) =~= before.push(author_pick(self, g, *m)->0));
                }
            }
            i = i + 1;
            assert(base + author_picks(self, g, msgs@.take(i as int), seen0).0 =~= picks_view(users@) || true);
        }
        assert(msgs@.take(msgs@.len() as int) =~= msgs@);
    }

    /// Adds the picks of a guild's roles to `roles`, each role once, blank names left out.
    fn collect_role_picks(rs: &Vec<GuildRoleResponse>, roles: &mut Vec<MentionPick>)
        requires
            old(roles)@.len() == 0,
        ensures
            picks_view(final(roles)@) == role_picks(rs@, Set::empty()).0,
    {
        let mut seen = crate::store::StrSet::new();
        let mut i: usize = 0;
        while i < rs.len()
            invariant
                i <= rs@.len(),
                (picks_view(roles@), seen@) == role_picks(rs@.take(i as int), Set::empty()),
            decreases rs@.len() - i,
        {
            assert(rs@.take(i + 1).drop_last() =~= rs@.take(i as int));
            let r = &rs[i];
            if !r.id.as_str().is_empty() && !seen.contains(r.id.as_str()) {
                let _ = seen.insert(r.id.clone());
                if !blank(r.name.as_str()) {
                    let ghost before = picks_view(roles@);
                    roles.push(MentionPick::Role { role_id: r.id.clone(), name: r.name.clone(), color: r.color });
                    assert(picks_view(roles@) =~= before.push((false, r.id@, r.name@, Seq::<char>::empty(), r.color)));
                }
            }
            i = i + 1;
        }
        assert(rs@.take(rs@.len() as int) =~= rs@);
    }

    /// Every pick for the selected channel: users (guild members or the
    /// direct message's recipients, then the cached messages' authors, each
    /// once) sorted by name, then the guild's roles sorted by name.
    pub fn build_mention_pool(&self) -> (r: Vec<MentionPick>)
        ensures
            picks_view(r@) == mention_pool(self),
    {
        let mut users: Vec<MentionPick> = Vec::new();
        let mut roles: Vec<MentionPick> = Vec::new();
        let mut seen = crate::store::StrSet::new();
        match &self.selected_server {
            ServerSelection::Guild(g) => {
                let none: Vec<GuildMemberResponse> = Vec::new();
                let ms = match self.guild_members.get(g.as_str()) {
                    Some(ms) => ms,
                    None => &none,
                };
                self.collect_member_picks(ms, &mut users, &mut seen);
                let no_roles: Vec<GuildRoleResponse> = Vec::new();
                let rs = match self.guild_roles.get(g.as_str()) {
                    Some(rs) => rs,
                    None => &no_roles,
                };
                App::collect_role_picks(rs, &mut roles);
                proof {
                    if !self.guild_roles@.dom().contains(g@) {
                        assert(role_picks(Seq::<GuildRoleResponse>::empty(), Set::empty()).0 =~= Seq::<PickView>::empty());
                    }
                }
            },
            ServerSelection::DirectMessages => {
                match self.active_channel() {
                    Some(ch) => {
                        App::collect_recipient_picks(&ch.recipients, &mut users, &mut seen);
                    },
                    None => {},
                }
            },
        }
        let ghost first = picks_view(users@);
        let ghost seen1 = seen@;
        if let Some(cid) = &self.selected_channel_id {
            let gid = self.guild_id_for_channel(cid.as_str());
            let gref: Option<&str> = match &gid {
                Some(g) => Some(g.as_str()),
                None => None,
            };
            assert(crate::settings::opt_ref_view(gref) == guild_of_channel(self, cid@));
            if let Some(msgs) = self.messages.get(cid.as_str()) {
                self.collect_author_picks(gref, msgs, &mut users, &mut seen);
            }
        }
        assert(picks_view(users@) == raw_user_picks(self));
        assert(picks_view(roles@) == raw_role_picks(self));
        let sorted_users = sort_picks(users);
        let sorted_roles = sort_picks(roles);
        let mut pool = sorted_users;
        let ghost su = picks_view(pool@);
        let ghost pre = pool@;
        let mut rest = sorted_roles;
        let ghost sr = rest@;
        pool.append(&mut rest);
        assert(pool@ == pre + sr);
        assert(picks_view(pool@) =~= su + picks_view(sr));
        assert(picks_view(pool@) =~= su + sorted_picks(raw_role_picks(self)));
        pool
    }

    /// Opens the @ picker with the pool for the selected channel, then
    /// filters it; nothing opens when the pool is empty.
    pub fn start_mention_autocomplete(&mut self)
        ensures
            mention_started(old(self), final(self)),
    {
        let pool = self.build_mention_pool();
        if pool.len() == 0 {
            return ;
        }
        self.mention_autocomplete = Some(MentionAutocomplete { pool, matches: Vec::new(), selected_index: 0 });
        self.update_mention_filter();
    }

    /// Refilters the @ picker from the text after the last `@`: with a match
    /// the selection is kept inside the matches, without one the picker closes.
    pub fn update_mention_filter(&mut self)
        ensures
            mention_refiltered(old(self), final(self)),
    {
        let query = to_lowercase(text_after_last(self.input.as_str(), '@').as_str());
        let auto = match &mut self.mention_autocomplete {
            Some(a) => a,
            None => {
                return ;
            },
        };
        let matches = filter_pool(&auto.pool, query.as_str());
        let n = matches.len();
        auto.matches = matches;
        if auto.selected_index >= n {
            auto.selected_index = if n == 0 {
                0
            } else {
                n - 1
            };
        }
        if n == 0 {
            self.mention_autocomplete = None;
        }
    }

    /// Closes the @ picker.
    pub fn dismiss_mention_autocomplete(&mut self)
        ensures
            *final(self) == (App { mention_autocomplete: None, ..*old(self) }),
    {
        self.mention_autocomplete = None;
    }

    /// Moves the @ picker's selection down, wrapping.
    pub fn autocomplete_mention_next(&mut self)
        ensures
            mention_forward(old(self), final(self)),
    {
        if let Some(auto) = &mut self.mention_autocomplete {
            let n = auto.matches.len();
            if n > 0 {
                auto.selected_index = ((auto.selected_index as u128 + 1) % (n as u128)) as usize;
            }
        }
    }

    /// Moves the @ picker's selection up, wrapping.
    pub fn autocomplete_mention_prev(&mut self)
        ensures
            mention_back(old(self), final(self)),
    {
        if let Some(auto) = &mut self.mention_autocomplete {
            let n = auto.matches.len();
            if n > 0 {
                auto.selected_index = auto.selected_index.saturating_add(n - 1) % n;
            }
        }
    }

    /// Replaces the text from the last `@` with the selected pick's mention
    /// (`<@id> ` for a user, `<@&id> ` for a role) and closes the picker.
    pub fn insert_selected_mention(&mut self) -> (r: bool)
        ensures
            mention_inserted(old(self), final(self), r),
    {
        let auto = match &self.mention_autocomplete {
            Some(a) => a,
            None => {
                return false;
            },
        };
        if auto.selected_index >= auto.matches.len() {
            return false;
        }
        let pi = auto.matches[auto.selected_index];
        if pi >= auto.pool.len() {
            return false;
        }
        let v = chars_of(self.input.as_str());
        let at = match last_pos(&v, '@') {
            Some(i) => i,
            None => {
                return false;
            },
        };
        let ghost pv = pick_view(auto.pool@[pi as int]);
        proof {
            lemma_last_index_bounds(v@, '@');
        }
        let mut head: Vec<char> = Vec::new();
        let mut i: usize = 0;
        while i < at
            invariant
                i <= at,
                at < v@.len(),
                head@ == v@.take(i as int),
            decreases at - i,
        {
            head.push(v[i]);
            i = i + 1;
            assert(head@ =~= v@.take(i as int));
        }
        let mut s = string_of(head.as_slice());
        match &auto.pool[pi] {
            MentionPick::User { user_id, .. } => {
                s.append("<@");
                s.append(user_id.as_str());
            },
            MentionPick::Role { role_id, .. } => {
                s.append("<@&");
                s.append(role_id.as_str());
            },
        }
        s.append("> ");
        proof {
            reveal_strlit("<@");
            reveal_strlit("<@&");
            reveal_strlit("> ");
        }
        self.input = s;
        self.mention_autocomplete = None;
        true
    }

    /// Rebuilds an open @ picker once the members of the selected guild have
    /// loaded: it closes when the pool is empty; otherwise its selection
    /// goes to the top, it is refiltered, and the status line clears when it
    /// stays open.
    pub fn refresh_mention_autocomplete_after_members_load(&mut self, loaded_guild_id: &str)
        ensures
            mention_refreshed(old(self), final(self), loaded_guild_id@),
    {
        if self.mention_autocomplete.is_none() {
            return ;
        }
        let same = match &self.selected_server {
            ServerSelection::Guild(g) => str_eq(g.as_str(), loaded_guild_id),
            ServerSelection::DirectMessages => false,
        };
        if !same {
            return ;
        }
        let pool = self.build_mention_pool();
        if pool.len() == 0 {
            self.mention_autocomplete = None;
            return ;
        }
        let ghost pv = picks_view(pool@);
        if let Some(auto) = &mut self.mention_autocomplete {
            auto.pool = pool;
            auto.selected_index = 0;
        }
        let ghost s1 = *self;
        assert((App { mention_autocomplete: old(self).mention_autocomplete, ..s1 }) == *old(self));
        self.update_mention_filter();
        let ghost mid = *self;
        assert(mention_filtered(old(self), &mid, mention_pool(old(self)), 0));
        if self.mention_autocomplete.is_some() {
            self.clear_status();
        }
        assert(refreshed_via(old(self), &mid, self));
    }
}

/// `b` is `a` with the @ picker holding `pool` and refiltered from the input
/// (its selection kept inside the matches), or closed when nothing matches.
pub open spec fn mention_filtered(a: &App, b: &App, pool: Seq<PickView>, sel: usize) -> bool {
    let m = filter_matches(pool, lowercase(after_last(a.input@, '@')));
    &&& (App { mention_autocomplete: a.mention_autocomplete, ..*b }) == *a
    &&& if m.len() == 0 {
        b.mention_autocomplete is None
    } else {
        b.mention_autocomplete matches Some(x) && picks_view(x.pool@) == pool && x.matches@ == m
            && x.selected_index == clamp_sel(sel, m.len() as int)
    }
}

/// `c` is `a` after its open @ picker was rebuilt: `b` is `a` with the new
/// pool refiltered from the top, and the status line clears when the picker
/// stays open.
pub open spec fn refreshed_via(a: &App, b: &App, c: &App) -> bool {
    &&& mention_filtered(a, b, mention_pool(a), 0)
    &&& if b.mention_autocomplete is Some {
        c.status_message@.len() == 0 && *c == (App {
            status_message: c.status_message,
            status_message_until: None,
            ..*b
        })
    } else {
        *c == *b
    }
}

/// `a + b`, saturating at the largest `usize`.
pub open spec fn sat_add(a: usize, b: usize) -> int {
    if a + b > usize::MAX {
        usize::MAX as int
    } else {
        a + b
    }
}

} // verus!
