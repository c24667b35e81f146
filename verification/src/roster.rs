//! Who is shown how: the colour of a member's name (from their highest
//! coloured role) and the list of people in the open voice channel.
use crate::app::App;
use crate::names::{account_display_name, display_name_spec};
use crate::channels::active_spec;
use crate::order::{name_lt, name_lt_exec};
use crate::seqs::first_idx;
use crate::text::{blank, chars_of, is_blank, str_eq, str_trim, trim};
use crate::typing::shown_name;
use crate::types::{sort_key, snowflake_sort_key, GuildMemberResponse, GuildRoleResponse, VoiceStateResponse};
use vstd::prelude::*;

verus! {

/// The colour a name is drawn in: the theme's text colour, the colour kept
/// for the signed-in user, the colour the front end derives from the user's
/// id, or a role's colour.
#[derive(Debug, Clone, Copy, PartialEq, Eq, Structural)]
pub enum NameColor {
    Default,
    SelfUser,
    ForUser,
    Rgb(u8, u8, u8),
}

/// The colour packed as `0xRRGGBB`.
pub open spec fn unpack_rgb(c: u32) -> NameColor {
    NameColor::Rgb(((c / 65536) % 256) as u8, ((c / 256) % 256) as u8, (c % 256) as u8)
}

/// The colour packed as `0xRRGGBB`; see `unpack_rgb`.
pub fn rgb_pack_to_color(packed: u32) -> (r: NameColor)
    ensures
        r == unpack_rgb(packed),
{
    NameColor::Rgb(((packed / 65536) % 256) as u8, ((packed / 256) % 256) as u8, (packed % 256) as u8)
}

/// The first role whose id matches `rid`, both trimmed.
pub open spec fn role_for(roles: Seq<GuildRoleResponse>, rid: Seq<char>) -> Option<GuildRoleResponse> {
    let k = first_idx(roles, |r: GuildRoleResponse| trim(r.id@) == trim(rid), 0);
    if k < roles.len() {
        Some(roles[k])
    } else {
        None
    }
}

/// A role's position, the lowest possible for an unknown role.
pub open spec fn role_pos(roles: Seq<GuildRoleResponse>, rid: Seq<char>) -> int {
    match role_for(roles, rid) {
        Some(r) => r.position as int,
        None => i32::MIN as int,
    }
}

/// Whether the member's `i`-th role gives a colour: it is known and coloured.
pub open spec fn colours(roles: Seq<GuildRoleResponse>, rids: Seq<String>, i: int) -> bool {
    role_for(roles, rids[i]@) matches Some(r) && r.color != 0
}

/// Role `i` ranks above role `j`: higher position, then lower id, then earlier in the member's list.
pub open spec fn ranks_above(roles: Seq<GuildRoleResponse>, rids: Seq<String>, i: int, j: int) -> bool {
    let (pi, pj) = (role_pos(roles, rids[i]@), role_pos(roles, rids[j]@));
    let (ki, kj) = (sort_key(trim(rids[i]@)), sort_key(trim(rids[j]@)));
    pi > pj || (pi == pj && (ki < kj || (ki == kj && i < j)))
}

/// Role `i` is the highest-ranked of the member's coloured roles.
pub open spec fn top_coloured(roles: Seq<GuildRoleResponse>, rids: Seq<String>, i: int) -> bool {
    &&& 0 <= i < rids.len()
    &&& colours(roles, rids, i)
    &&& forall|j: int| 0 <= j < rids.len() && j != i && #[trigger] colours(roles, rids, j) ==> ranks_above(roles, rids, i, j)
}

/// The colour of a member's name in a guild: from their highest-ranked
/// coloured role, else from the guild's everyone role when it is coloured,
/// else the default; a user the guild does not list gets the default.
/// Outside a guild: the signed-in user's own colour, or one derived from the id.
pub open spec fn name_color(a: &App, gid: Option<Seq<char>>, uid: Seq<char>, is_self: bool) -> NameColor {
    match gid {
        None => if is_self {
            NameColor::SelfUser
        } else {
            NameColor::ForUser
        },
        Some(g) => if !a.guild_members@.dom().contains(g) {
            NameColor::Default
        } else {
            let ms = a.guild_members@[g]@;
            let k = first_idx(ms, |m: GuildMemberResponse| m.user.id@ == uid, 0);
            if k >= ms.len() || !a.guild_roles@.dom().contains(g) {
                NameColor::Default
            } else {
                let roles = a.guild_roles@[g]@;
                let rids = ms[k].roles@;
                if exists|i: int| #[trigger] top_coloured(roles, rids, i) {
                    let i = choose|i: int| #[trigger] top_coloured(roles, rids, i);
                    unpack_rgb(role_for(roles, rids[i]@)->0.color)
                } else {
                    match role_for(roles, g) {
                        Some(r) => if r.color != 0 {
                            unpack_rgb(r.color)
                        } else {
                            NameColor::Default
                        },
                        None => NameColor::Default,
                    }
                }
            }
        },
    }
}

proof fn lemma_top_unique(roles: Seq<GuildRoleResponse>, rids: Seq<String>, i: int, j: int)
    requires
        top_coloured(roles, rids, i),
        top_coloured(roles, rids, j),
    ensures
        i == j,
{
    if i != j {
        assert(colours(roles, rids, j));
        assert(colours(roles, rids, i));
        assert(ranks_above(roles, rids, i, j));
        assert(ranks_above(roles, rids, j, i));
    }
}

/// The first role whose id matches `rid`, both trimmed; see `role_for`.
pub fn find_role<'a>(roles: &'a Vec<GuildRoleResponse>, rid: &str) -> (r: Option<&'a GuildRoleResponse>)
    ensures
        match (r, role_for(roles@, rid@)) {
            (Some(x), Some(y)) => *x == y,
            (None, None) => true,
            _ => false,
        },
{
    let want = str_trim(rid);
    let mut i: usize = 0;
    while i < roles.len()
        invariant
            i <= roles@.len(),
            want@ == trim(rid@),
            first_idx(roles@, |r: GuildRoleResponse| trim(r.id@) == trim(rid@), 0) == first_idx(
                roles@,
                |r: GuildRoleResponse| trim(r.id@) == trim(rid@),
                i as int,
            ),
        decreases roles@.len() - i,
    {
        let t = str_trim(roles[i].id.as_str());
        if str_eq(t.as_str(), want.as_str()) {
            return Some(&roles[i]);
        }
        i = i + 1;
    }
    None
}

/// Position of a role for ranking; see `role_pos`.
fn role_position(roles: &Vec<GuildRoleResponse>, rid: &str) -> (r: i32)
    ensures
        r as int == role_pos(roles@, rid@),
{
    match find_role(roles, rid) {
        Some(r) => r.position,
        None => i32::MIN,
    }
}

/// Whether role `i` ranks above role `j`; see `ranks_above`.
fn ranks_above_exec(roles: &Vec<GuildRoleResponse>, rids: &Vec<String>, i: usize, j: usize) -> (r: bool)
    requires
        i < rids@.len(),
        j < rids@.len(),
    ensures
        r == ranks_above(roles@, rids@, i as int, j as int),
{
    let pi = role_position(roles, rids[i].as_str());
    let pj = role_position(roles, rids[j].as_str());
    if pi != pj {
        return pi > pj;
    }
    let ki = snowflake_sort_key(str_trim(rids[i].as_str()).as_str());
    let kj = snowflake_sort_key(str_trim(rids[j].as_str()).as_str());
    ki < kj || (ki == kj && i < j)
}

/// The colour of the member's highest-ranked coloured role, if any.
fn top_role_color(roles: &Vec<GuildRoleResponse>, rids: &Vec<String>) -> (r: Option<u32>)
    ensures
        match r {
            Some(c) => exists|i: int| #[trigger] top_coloured(roles@, rids@, i) && role_for(roles@, rids@[i]@)->0.color == c,
            None => !exists|i: int| #[trigger] top_coloured(roles@, rids@, i),
        },
{
    let mut best: Option<usize> = None;
    let mut i: usize = 0;
    while i < rids.len()
        invariant
            i <= rids@.len(),
            match best {
                Some(b) => b < i && colours(roles@, rids@, b as int) && forall|j: int|
                    0 <= j < i && j != b && #[trigger] colours(roles@, rids@, j) ==> ranks_above(roles@, rids@, b as int, j),
                None => forall|j: int| 0 <= j < i ==> !#[trigger] colours(roles@, rids@, j),
            },
        decreases rids@.len() - i,
    {
        let coloured = match find_role(roles, rids[i].as_str()) {
            Some(r) => r.color != 0,
            None => false,
        };
        if coloured {
            match best {
                Some(b) => {
                    if ranks_above_exec(roles, rids, i, b) {
                        proof {
                            assert forall|j: int| 0 <= j < i + 1 && j != i && #[trigger] colours(roles@, rids@, j) implies ranks_above(
                                roles@,
                                rids@,
                                i as int,
                                j,
                            ) by {
                                if j != b {
                                    assert(ranks_above(roles@, rids@, b as int, j));
                                }
                            }
                        }
                        best = Some(i);
                    }
                },
                None => {
                    best = Some(i);
                },
            }
        }
        i = i + 1;
    }
    match best {
        Some(b) => {
            let c = match find_role(roles, rids[b].as_str()) {
                Some(r) => r.color,
                None => 0,
            };
            assert(top_coloured(roles@, rids@, b as int));
            Some(c)
        },
        None => None,
    }
}

/// The shown name of a person in a voice channel: their nickname there when
/// it is not blank, else their account's name (as cached); without a member
/// record, the shown name of the cached account, else the user id. Then, in
/// brackets, what they have on: muted, deafened, streaming, video.
pub open spec fn voice_label(a: &App, g: Seq<char>, st: VoiceStateResponse) -> Seq<char> {
    let name = match st.member {
        Some(m) => {
            let u = if a.user_cache@.dom().contains(m.user.id@) {
                a.user_cache@[m.user.id@]
            } else {
                m.user
            };
            match m.nick {
                Some(n) => if !is_blank(n@) {
                    n@
                } else {
                    display_name_spec(u)
                },
                None => display_name_spec(u),
            }
        },
        None => if a.user_cache@.dom().contains(st.user_id@) {
            shown_name(a, Some(g), a.user_cache@[st.user_id@])
        } else {
            st.user_id@
        },
    };
    let badges = badge_list(st);
    if badges.len() == 0 {
        name
    } else {
        name + " ("@ + crate::names::join(badges, ", "@) + ")"@
    }
}

/// What a person in a voice channel has on, in order.
pub open spec fn badge_list(st: VoiceStateResponse) -> Seq<Seq<char>> {
    let a = if st.self_mute {
        seq!["self-muted"@]
    } else {
        Seq::empty()
    };
    let b = if st.self_deaf {
        a.push("self-deaf"@)
    } else {
        a
    };
    let c = if st.self_stream {
        b.push("streaming"@)
    } else {
        b
    };
    if st.self_video {
        c.push("video"@)
    } else {
        c
    }
}

/// Where a stable insertion puts `x` into `r`: before the first larger string.
pub open spec fn str_ins_pos(r: Seq<Seq<char>>, x: Seq<char>) -> int {
    first_idx(r, |y: Seq<char>| name_lt(x, y), 0)
}

/// The strings in ascending order.
pub open spec fn sort_strs(s: Seq<Seq<char>>) -> Seq<Seq<char>>
    decreases s.len(),
{
    if s.len() == 0 {
        s
    } else {
        let r = sort_strs(s.drop_last());
        r.insert(str_ins_pos(r, s.last()), s.last())
    }
}

/// The labels of the voice states of guild `g` that are in channel `cid`, in stored order.
pub open spec fn voice_labels(a: &App, g: Seq<char>, cid: Seq<char>, states: Seq<(String, VoiceStateResponse)>) -> Seq<
    Seq<char>,
>
    decreases states.len(),
{
    if states.len() == 0 {
        Seq::empty()
    } else {
        let st = states.last().1;
        let before = voice_labels(a, g, cid, states.drop_last());
        if st.channel_id matches Some(c) && c@ == cid {
            before.push(voice_label(a, g, st))
        } else {
            before
        }
    }
}

/// The people in the open voice channel, by label in ascending order; none
/// without an open guild channel or voice states for its guild.
pub open spec fn voice_members(a: &App) -> Seq<Seq<char>> {
    match active_spec(a) {
        None => Seq::empty(),
        Some(ch) => match ch.guild_id {
            None => Seq::empty(),
            Some(g) => if a.voice_states@.dom().contains(g@) {
                sort_strs(voice_labels(a, g@, ch.id@, a.voice_states@[g@].pairs()))
            } else {
                Seq::empty()
            },
        },
    }
}

/// The strings of a list, as character sequences.
pub open spec fn views(v: Seq<String>) -> Seq<Seq<char>> {
    v.map_values(|s: String| s@)
}

/// Sorts strings in ascending order, stably.
fn sort_strings(v: Vec<String>) -> (r: Vec<String>)
    ensures
        views(r@) == sort_strs(views(v@)),
{
    let ghost all = views(v@);
    let mut rest = v;
    let total: usize = rest.len();
    let mut out: Vec<String> = Vec::new();
    let mut n: usize = 0;
    while rest.len() > 0
        invariant
            n + rest@.len() == all.len(),
            all.len() == total,
            views(rest@) == all.skip(n as int),
            views(out@) == sort_strs(all.take(n as int)),
        decreases rest@.len(),
    {
        let ghost before = rest@;
        let x = rest.remove(0);
        assert(views(before)[0] == x@);
        assert(x@ == all[n as int]);
        assert forall|j: int| 0 <= j < rest@.len() implies #[trigger] views(rest@)[j] == all.skip(n + 1)[j] by {
            assert(rest@[j] == before[j + 1]);
            assert(views(before)[j + 1] == all.skip(n as int)[j + 1]);
        }
        assert(views(rest@) =~= all.skip(n + 1));
        let xc = chars_of(x.as_str());
        let ghost r = views(out@);
        let mut k: usize = 0;
        while k < out.len()
            invariant
                k <= out@.len(),
                r == views(out@),
                xc@ == x@,
                str_ins_pos(r, x@) == first_idx(r, |y: Seq<char>| name_lt(x@, y), k as int),
            ensures
                k <= out@.len(),
                str_ins_pos(r, x@) == k as int,
            decreases out@.len() - k,
        {
            let yc = chars_of(out[k].as_str());
            if name_lt_exec(&xc, &yc) {
                break;
            }
            k = k + 1;
        }
        proof {
            crate::seqs::lemma_first_idx_bounds(r, |y: Seq<char>| name_lt(x@, y), 0);
        }
        out.insert(k, x);
        proof {
            assert(all.take(n + 1).drop_last() =~= all.take(n as int));
            assert(all.take(n + 1).last() == all[n as int]);
            assert(views(out@) =~= r.insert(k as int, all[n as int]));
        }
        n = n + 1;
    }
    assert(all.take(all.len() as int) =~= all);
    out
}

/// Appends `part` to a `, `-separated list that so far joins `parts`.
fn push_part(body: &mut String, part: &str, first: bool, Ghost(parts): Ghost<Seq<Seq<char>>>)
    requires
        old(body)@ == crate::names::join(parts, ", "@),
        first == (parts.len() == 0),
    ensures
        final(body)@ == crate::names::join(parts.push(part@), ", "@),
{
    if !first {
        body.append(", ");
    }
    body.append(part);
    assert(parts.push(part@).drop_last() =~= parts);
}

/// The name with what the person has on appended in brackets; see `voice_label`.
fn with_badges(name: String, st: &VoiceStateResponse) -> (r: String)
    ensures
        r@ == (if badge_list(*st).len() == 0 {
            name@
        } else {
            name@ + " ("@ + crate::names::join(badge_list(*st), ", "@) + ")"@
        }),
{
    let mut body = String::new();
    let ghost mut parts: Seq<Seq<char>> = Seq::empty();
    let mut any = false;
    assert(body@ == crate::names::join(parts, ", "@));
    if st.self_mute {
        push_part(&mut body, "self-muted", !any, Ghost(parts));
        any = true;
        proof {
            parts = parts.push("self-muted"@);
        }
    }
    if st.self_deaf {
        push_part(&mut body, "self-deaf", !any, Ghost(parts));
        any = true;
        proof {
            parts = parts.push("self-deaf"@);
        }
    }
    if st.self_stream {
        push_part(&mut body, "streaming", !any, Ghost(parts));
        any = true;
        proof {
            parts = parts.push("streaming"@);
        }
    }
    if st.self_video {
        push_part(&mut body, "video", !any, Ghost(parts));
        any = true;
        proof {
            parts = parts.push("video"@);
        }
    }
    assert(parts =~= badge_list(*st));
    if !any {
        return name;
    }
    let mut out = name;
    out.append(" (");
    out.append(body.as_str());
    out.append(")");
    out
}

impl App {
    /// The colour of a name; see `name_color`.
    pub fn member_name_color(&self, guild_id: Option<&str>, user_id: &str, is_self: bool) -> (r: NameColor)
        ensures
            r == name_color(self, crate::settings::opt_ref_view(guild_id), user_id@, is_self),
    {
        let gid = match guild_id {
            Some(g) => g,
            None => {
                return if is_self {
                    NameColor::SelfUser
                } else {
                    NameColor::ForUser
                };
            },
        };
        let members = match self.guild_members.get(gid) {
            Some(m) => m,
            None => {
                return NameColor::Default;
            },
        };
        let mut k: usize = 0;
        while k < members.len()
            invariant
                k <= members@.len(),
                first_idx(members@, |m: GuildMemberResponse| m.user.id@ == user_id@, 0) == first_idx(
                    members@,
                    |m: GuildMemberResponse| m.user.id@ == user_id@,
                    k as int,
                ),
            ensures
                k <= members@.len(),
                first_idx(members@, |m: GuildMemberResponse| m.user.id@ == user_id@, 0) == if k < members@.len() {
                    k as int
                } else {
                    members@.len() as int
                },
            decreases members@.len() - k,
        {
            if str_eq(members[k].user.id.as_str(), user_id) {
                break;
            }
            k = k + 1;
        }
        if k >= members.len() {
            return NameColor::Default;
        }
        let roles = match self.guild_roles.get(gid) {
            Some(r) => r,
            None => {
                return NameColor::Default;
            },
        };
        let rids = &members[k].roles;
        match top_role_color(roles, rids) {
            Some(c) => {
                proof {
                    let i = choose|i: int| #[trigger] top_coloured(roles@, rids@, i);
                    let j = choose|j: int| #[trigger] top_coloured(roles@, rids@, j) && role_for(roles@, rids@[j]@)->0.color == c;
                    lemma_top_unique(roles@, rids@, i, j);
                }
                rgb_pack_to_color(c)
            },
            None => match find_role(roles, gid) {
                Some(r) => if r.color != 0 {
                    rgb_pack_to_color(r.color)
                } else {
                    NameColor::Default
                },
                None => NameColor::Default,
            },
        }
    }

    /// The label of a person in a voice channel of guild `g`; see `voice_label`.
    fn voice_label_exec(&self, g: &str, st: &VoiceStateResponse) -> (r: String)
        ensures
            r@ == voice_label(self, g@, *st),
    {
        let name: String = match &st.member {
            Some(m) => {
                let u = match self.user_cache.get(m.user.id.as_str()) {
                    Some(c) => c,
                    None => &m.user,
                };
                match &m.nick {
                    Some(n) => if !blank(n.as_str()) {
                        n.clone()
                    } else {
                        account_display_name(u)
                    },
                    None => account_display_name(u),
                }
            },
            None => match self.user_cache.get(st.user_id.as_str()) {
                Some(u) => self.shown_name_for_user(Some(g), u),
                None => st.user_id.clone(),
            },
        };
        with_badges(name, st)
    }

    /// The people in the open voice channel; see `voice_members`.
    pub fn voice_members_for_active_channel(&self) -> (r: Vec<String>)
        ensures
            views(r@) == voice_members(self),
    {
        let ch = match self.active_channel() {
            Some(c) => c,
            None => {
                return Vec::new();
            },
        };
        let g = match &ch.guild_id {
            Some(g) => g,
            None => {
                return Vec::new();
            },
        };
        let states = match self.voice_states.get(g.as_str()) {
            Some(s) => s,
            None => {
                return Vec::new();
            },
        };
        let ghost ps = states.pairs();
        let mut labels: Vec<String> = Vec::new();
        let mut i: usize = 0;
        while i < states.len()
            invariant
                i <= ps.len(),
                ps == states.pairs(),
                views(labels@) == voice_labels(self, g@, ch.id@, ps.take(i as int)),
            decreases ps.len() - i,
        {
            let st = states.value_at(i);
            assert(ps.take(i + 1).drop_last() =~= ps.take(i as int));
            assert(ps.take(i + 1).last().1 == *st);
            let here = match &st.channel_id {
                Some(c) => str_eq(c.as_str(), ch.id.as_str()),
                None => false,
            };
            if here {
                let l = self.voice_label_exec(g.as_str(), st);
                let ghost before = labels@;
                labels.push(l);
                assert(views(labels@) =~= views(before).push(l@));
            }
            i = i + 1;
        }
        assert(ps.take(ps.len() as int) =~= ps);
        sort_strings(labels)
    }
}

} // verus!
