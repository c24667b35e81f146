//! Permission bits and the computation of a member's permissions in a channel.
use crate::text::{parse_u64, parse_unsigned};
use crate::types::PermissionOverwrite;
use vstd::prelude::*;

verus! {

pub const ADD_REACTIONS: u64 = 64;

pub const ADMINISTRATOR: u64 = 8;

pub const VIEW_CHANNEL: u64 = 1024;

pub const SEND_MESSAGES: u64 = 2048;

pub const SEND_TTS_MESSAGES: u64 = 4096;

pub const MANAGE_MESSAGES: u64 = 8192;

pub const CHANGE_NICKNAME: u64 = 67108864;

/// Every permission bit.
pub const ALL_PERMISSIONS: u64 = 0xFFFF_FFFF_FFFF_FFFF;

/// The role overwrite kind; member overwrites have kind 1.
pub const OVERWRITE_ROLE: i32 = 0;

pub const OVERWRITE_MEMBER: i32 = 1;

/// A permission field as the API sends it (a decimal string); 0 when it does not parse.
pub open spec fn bits_of(s: Seq<char>) -> u64 {
    match parse_unsigned(s, u64::MAX as nat) {
        Some(v) => v as u64,
        None => 0,
    }
}

pub fn parse_bits(s: &str) -> (r: u64)
    ensures
        r == bits_of(s@),
{
    match parse_u64(s) {
        Some(v) => v,
        None => 0,
    }
}

/// Applies an overwrite: denied bits off, then allowed bits on.
pub open spec fn apply_overwrite(p: u64, allow: u64, deny: u64) -> u64 {
    (p & !deny) | allow
}

/// Union of the allow and deny bits of the role overwrites that name one of `roles`.
pub open spec fn role_bits(
    ows: Seq<PermissionOverwrite>,
    roles: Seq<String>,
    everyone_id: Seq<char>,
) -> (u64, u64)
    decreases ows.len(),
{
    if ows.len() == 0 {
        (0, 0)
    } else {
        let prev = role_bits(ows.drop_last(), roles, everyone_id);
        let o = ows.last();
        if o.kind == OVERWRITE_ROLE && o.id@ != everyone_id && exists|j: int|
            0 <= j < roles.len() && #[trigger] roles[j]@ == o.id@ {
            (prev.0 | bits_of(o.allow@), prev.1 | bits_of(o.deny@))
        } else {
            prev
        }
    }
}

/// The last overwrite of the given kind and id, as (allow, deny).
pub open spec fn overwrite_for(ows: Seq<PermissionOverwrite>, kind: i32, id: Seq<char>) -> Option<
    (u64, u64),
>
    decreases ows.len(),
{
    if ows.len() == 0 {
        None
    } else {
        let o = ows.last();
        if o.kind == kind && o.id@ == id {
            Some((bits_of(o.allow@), bits_of(o.deny@)))
        } else {
            overwrite_for(ows.drop_last(), kind, id)
        }
    }
}

pub open spec fn apply_opt(p: u64, ow: Option<(u64, u64)>) -> u64 {
    match ow {
        Some((a, d)) => apply_overwrite(p, a, d),
        None => p,
    }
}

/// A member's permissions in a channel: everything for the guild owner or an
/// administrator; otherwise the guild base, then the `@everyone` overwrite
/// (whose id is the guild id), then the member's role overwrites together,
/// then the member's own overwrite.
pub open spec fn channel_permissions_spec(
    me_id: Seq<char>,
    roles: Seq<String>,
    guild_id: Seq<char>,
    owner_id: Seq<char>,
    base: u64,
    ows: Seq<PermissionOverwrite>,
) -> u64 {
    if me_id == owner_id || base & ADMINISTRATOR != 0 {
        ALL_PERMISSIONS
    } else {
        let p1 = apply_opt(base, overwrite_for(ows, OVERWRITE_ROLE, guild_id));
        let rb = role_bits(ows, roles, guild_id);
        let p2 = apply_overwrite(p1, rb.0, rb.1);
        apply_opt(p2, overwrite_for(ows, OVERWRITE_MEMBER, me_id))
    }
}

fn has_role(roles: &Vec<String>, id: &str) -> (r: bool)
    ensures
        r == exists|j: int| 0 <= j < roles@.len() && #[trigger] roles@[j]@ == id@,
{
    let mut i: usize = 0;
    while i < roles.len()
        invariant
            i <= roles@.len(),
            forall|j: int| 0 <= j < i ==> #[trigger] roles@[j]@ != id@,
        decreases roles@.len() - i,
    {
        if crate::text::str_eq(roles[i].as_str(), id) {
            return true;
        }
        i = i + 1;
    }
    false
}

fn find_overwrite(ows: &Vec<PermissionOverwrite>, kind: i32, id: &str) -> (r: Option<(u64, u64)>)
    ensures
        r == overwrite_for(ows@, kind, id@),
{
    let mut i: usize = ows.len();
    assert(ows@.take(i as int) =~= ows@);
    while i > 0
        invariant
            i <= ows@.len(),
            overwrite_for(ows@, kind, id@) == overwrite_for(ows@.take(i as int), kind, id@),
        decreases i,
    {
        let o = &ows[i - 1];
        assert(ows@.take(i as int).drop_last() =~= ows@.take(i - 1));
        if o.kind == kind && crate::text::str_eq(o.id.as_str(), id) {
            return Some((parse_bits(o.allow.as_str()), parse_bits(o.deny.as_str())));
        }
        i = i - 1;
    }
    None
}

/// The permissions of the member `me_id` (holding `member_roles`) in a channel
/// of the guild `guild_id`, given the guild's base permissions and owner.
pub fn compute_channel_permissions(
    me_id: &str,
    member_roles: &Vec<String>,
    guild_id: &str,
    owner_id: &str,
    guild_base: u64,
    overwrites: &Vec<PermissionOverwrite>,
) -> (r: u64)
    ensures
        r == channel_permissions_spec(
            me_id@,
            member_roles@,
            guild_id@,
            owner_id@,
            guild_base,
            overwrites@,
        ),
{
    if crate::text::str_eq(me_id, owner_id) || guild_base & ADMINISTRATOR != 0 {
        return ALL_PERMISSIONS;
    }
    let mut p = guild_base;
    match find_overwrite(overwrites, OVERWRITE_ROLE, guild_id) {
        Some((a, d)) => {
            p = (p & !d) | a;
        },
        None => {},
    }
    let mut allow: u64 = 0;
    let mut deny: u64 = 0;
    let mut i: usize = 0;
    assert(overwrites@.take(0) =~= Seq::<PermissionOverwrite>::empty());
    while i < overwrites.len()
        invariant
            i <= overwrites@.len(),
            (allow, deny) == role_bits(overwrites@.take(i as int), member_roles@, guild_id@),
        decreases overwrites@.len() - i,
    {
        let o = &overwrites[i];
        assert(overwrites@.take(i + 1).drop_last() =~= overwrites@.take(i as int));
        if o.kind == OVERWRITE_ROLE && !crate::text::str_eq(o.id.as_str(), guild_id) && has_role(
            member_roles,
            o.id.as_str(),
        ) {
            allow = allow | parse_bits(o.allow.as_str());
            deny = deny | parse_bits(o.deny.as_str());
        }
        i = i + 1;
    }
    assert(overwrites@.take(overwrites@.len() as int) =~= overwrites@);
    p = (p & !deny) | allow;
    match find_overwrite(overwrites, OVERWRITE_MEMBER, me_id) {
        Some((a, d)) => {
            p = (p & !d) | a;
        },
        None => {},
    }
    p
}

} // verus!
