//! The order in which channels are listed: direct messages by latest
//! activity, guild channels grouped under their categories by position and name.
use crate::seqs::{isort, lemma_first_idx_is, range_seq};
use crate::text::chars_of;
use crate::types::{
    snowflake_sort_key, sort_key, spec_channel_type, ChannelResponse, CHANNEL_GUILD_CATEGORY,
};
use vstd::prelude::*;

verus! {

/// The elements of `s` that satisfy `p`, in order.
pub open spec fn keep(s: Seq<usize>, p: spec_fn(usize) -> bool) -> Seq<usize>
    decreases s.len(),
{
    if s.len() == 0 {
        Seq::empty()
    } else if p(s.last()) {
        keep(s.drop_last(), p).push(s.last())
    } else {
        keep(s.drop_last(), p)
    }
}

pub proof fn lemma_keep_bounded(s: Seq<usize>, p: spec_fn(usize) -> bool, n: int)
    requires
        forall|i: int| 0 <= i < s.len() ==> (#[trigger] s[i]) < n,
    ensures
        forall|i: int| 0 <= i < keep(s, p).len() ==> (#[trigger] keep(s, p)[i]) < n,
    decreases s.len(),
{
    if s.len() > 0 {
        assert forall|i: int| 0 <= i < s.drop_last().len() implies (#[trigger] s.drop_last()[i]) < n by {
            assert(s.drop_last()[i] == s[i]);
        }
        lemma_keep_bounded(s.drop_last(), p, n);
        let k = keep(s.drop_last(), p);
        assert(s[s.len() - 1] < n);
        if p(s.last()) {
            assert forall|i: int| 0 <= i < keep(s, p).len() implies (#[trigger] keep(s, p)[i]) < n by {
                if i < k.len() {
                    assert(keep(s, p)[i] == k[i]);
                }
            }
        }
    }
}

/// Lexicographic order of character sequences (the order of `String`).
pub open spec fn name_lt(a: Seq<char>, b: Seq<char>) -> bool
    decreases a.len(),
{
    if a.len() == 0 {
        b.len() > 0
    } else if b.len() == 0 {
        false
    } else if a[0] != b[0] {
        a[0] < b[0]
    } else {
        name_lt(a.drop_first(), b.drop_first())
    }
}

/// String order is irreflexive.
pub proof fn lemma_name_lt_irrefl(a: Seq<char>)
    ensures
        !name_lt(a, a),
    decreases a.len(),
{
    if a.len() > 0 {
        lemma_name_lt_irrefl(a.drop_first());
    }
}

/// Strictly ordered strings differ.
pub proof fn lemma_name_lt_irrefl_ne(a: Seq<char>, b: Seq<char>)
    requires
        name_lt(a, b),
    ensures
        a != b,
{
    lemma_name_lt_irrefl(a);
}

/// String order is transitive.
pub proof fn lemma_name_lt_trans(a: Seq<char>, b: Seq<char>, c: Seq<char>)
    requires
        name_lt(a, b),
        name_lt(b, c),
    ensures
        name_lt(a, c),
    decreases a.len(),
{
    if a.len() > 0 && b.len() > 0 && c.len() > 0 && a[0] == b[0] && b[0] == c[0] {
        lemma_name_lt_trans(a.drop_first(), b.drop_first(), c.drop_first());
    }
}

/// Two different strings are ordered one way or the other.
pub proof fn lemma_name_lt_total(a: Seq<char>, b: Seq<char>)
    requires
        a != b,
    ensures
        name_lt(a, b) || name_lt(b, a),
    decreases a.len(),
{
    if a.len() > 0 && b.len() > 0 && a[0] == b[0] {
        if a.drop_first() == b.drop_first() {
            assert(a =~= seq![a[0]] + a.drop_first());
            assert(b =~= seq![b[0]] + b.drop_first());
        }
        lemma_name_lt_total(a.drop_first(), b.drop_first());
    } else if a.len() == 0 && b.len() == 0 {
        assert(a =~= b);
    }
}

/// A direct message channel's activity key: its last message id's value, or 0.
pub open spec fn dm_key(c: ChannelResponse) -> nat {
    match c.last_message_id {
        Some(s) => sort_key(s@),
        None => 0,
    }
}

/// Direct messages: newest activity first.
pub const ORDER_DM: u8 = 0;

/// Categories: by position.
pub const ORDER_CATEGORY: u8 = 1;

/// Other guild channels: by position, then name.
pub const ORDER_CHANNEL: u8 = 2;

/// Whether channel `a` is listed strictly before channel `b` in the given order.
pub open spec fn precedes(chs: Seq<ChannelResponse>, mode: u8, a: usize, b: usize) -> bool {
    let x = chs[a as int];
    let y = chs[b as int];
    if mode == ORDER_DM {
        dm_key(x) > dm_key(y)
    } else if mode == ORDER_CATEGORY {
        x.position < y.position
    } else {
        x.position < y.position || (x.position == y.position && name_lt(x.name@, y.name@))
    }
}

pub open spec fn before_of(chs: Seq<ChannelResponse>, mode: u8) -> spec_fn(usize, usize) -> bool {
    |a: usize, b: usize| precedes(chs, mode, a, b)
}

pub fn name_lt_exec(a: &Vec<char>, b: &Vec<char>) -> (r: bool)
    ensures
        r == name_lt(a@, b@),
{
    let mut i: usize = 0;
    assert(a@.skip(0) =~= a@);
    assert(b@.skip(0) =~= b@);
    while i < a.len() && i < b.len() && a[i] == b[i]
        invariant
            i <= a@.len(),
            i <= b@.len(),
            name_lt(a@, b@) == name_lt(a@.skip(i as int), b@.skip(i as int)),
        decreases a@.len() - i,
    {
        assert(a@.skip(i as int).drop_first() =~= a@.skip(i + 1));
        assert(b@.skip(i as int).drop_first() =~= b@.skip(i + 1));
        i = i + 1;
    }
    if i == a.len() {
        i < b.len()
    } else if i == b.len() {
        false
    } else {
        assert(a@.skip(i as int)[0] == a@[i as int]);
        assert(b@.skip(i as int)[0] == b@[i as int]);
        a[i] < b[i]
    }
}

fn dm_key_exec(c: &ChannelResponse) -> (r: u128)
    ensures
        r as nat == dm_key(*c),
{
    match &c.last_message_id {
        Some(s) => snowflake_sort_key(s.as_str()),
        None => 0,
    }
}

fn precedes_exec(chs: &Vec<ChannelResponse>, mode: u8, a: usize, b: usize) -> (r: bool)
    requires
        a < chs@.len(),
        b < chs@.len(),
    ensures
        r == precedes(chs@, mode, a, b),
{
    let x = &chs[a];
    let y = &chs[b];
    if mode == ORDER_DM {
        dm_key_exec(x) > dm_key_exec(y)
    } else if mode == ORDER_CATEGORY {
        x.position < y.position
    } else {
        x.position < y.position || (x.position == y.position && name_lt_exec(
            &chars_of(x.name.as_str()),
            &chars_of(y.name.as_str()),
        ))
    }
}

/// Stable insertion sort of channel indices in the given order.
pub fn sort_indices(chs: &Vec<ChannelResponse>, idx: &Vec<usize>, mode: u8) -> (r: Vec<usize>)
    requires
        forall|i: int| 0 <= i < idx@.len() ==> (#[trigger] idx@[i]) < chs@.len(),
    ensures
        r@ == isort(idx@, before_of(chs@, mode)),
        forall|i: int| 0 <= i < r@.len() ==> (#[trigger] r@[i]) < chs@.len(),
{
    let ghost before = before_of(chs@, mode);
    let mut r: Vec<usize> = Vec::new();
    let mut i: usize = 0;
    while i < idx.len()
        invariant
            i <= idx@.len(),
            before == before_of(chs@, mode),
            forall|k: int| 0 <= k < idx@.len() ==> (#[trigger] idx@[k]) < chs@.len(),
            r@ == isort(idx@.take(i as int), before),
            forall|k: int| 0 <= k < r@.len() ==> (#[trigger] r@[k]) < chs@.len(),
        decreases idx@.len() - i,
    {
        let x = idx[i];
        let ghost p = |y: usize| before(x, y);
        let mut j: usize = 0;
        while j < r.len() && !precedes_exec(chs, mode, x, r[j])
            invariant
                j <= r@.len(),
                x < chs@.len(),
                before == before_of(chs@, mode),
                p == (|y: usize| before(x, y)),
                forall|k: int| 0 <= k < r@.len() ==> (#[trigger] r@[k]) < chs@.len(),
                forall|k: int| 0 <= k < j ==> !p(#[trigger] r@[k]),
            decreases r@.len() - j,
        {
            j = j + 1;
        }
        proof {
            lemma_first_idx_is(r@, p, 0, j as int);
            assert(idx@.take(i + 1).drop_last() =~= idx@.take(i as int));
            assert(idx@.take(i + 1).last() == x);
        }
        let ghost prev = r@;
        r.insert(j, x);
        i = i + 1;
        proof {
            assert forall|k: int| 0 <= k < r@.len() implies (#[trigger] r@[k]) < chs@.len() by {
                if k < j {
                    assert(r@[k] == prev[k]);
                } else if k > j {
                    assert(r@[k] == prev[k - 1]);
                }
            }
        }
    }
    assert(idx@.take(idx@.len() as int) =~= idx@);
    r
}

/// The indices `0..n` of the channels satisfying `p`.
pub fn keep_range(chs: &Vec<ChannelResponse>, want_category: bool) -> (r: Vec<usize>)
    ensures
        r@ == keep(
            range_seq(chs@.len() as int),
            |i: usize| (spec_channel_type(chs@[i as int]) == CHANNEL_GUILD_CATEGORY) == want_category,
        ),
        forall|i: int| 0 <= i < r@.len() ==> (#[trigger] r@[i]) < chs@.len(),
{
    let ghost p = |i: usize| (spec_channel_type(chs@[i as int]) == CHANNEL_GUILD_CATEGORY) == want_category;
    let mut r: Vec<usize> = Vec::new();
    let mut i: usize = 0;
    while i < chs.len()
        invariant
            i <= chs@.len(),
            p == (|i: usize| (spec_channel_type(chs@[i as int]) == CHANNEL_GUILD_CATEGORY) == want_category),
            r@ == keep(range_seq(i as int), p),
            forall|k: int| 0 <= k < r@.len() ==> (#[trigger] r@[k]) < i,
        decreases chs@.len() - i,
    {
        assert(range_seq(i + 1).drop_last() =~= range_seq(i as int));
        assert(range_seq(i + 1).last() == i);
        if (chs[i].channel_type() == CHANNEL_GUILD_CATEGORY) == want_category {
            r.push(i);
        }
        i = i + 1;
    }
    r
}

/// Whether a channel's parent is the given id (`None` for no parent).
pub open spec fn parent_is(c: ChannelResponse, parent: Option<Seq<char>>) -> bool {
    match (c.parent_id, parent) {
        (None, None) => true,
        (Some(p), Some(q)) => p@ == q,
        _ => false,
    }
}

/// The elements of `s` whose channel has the given parent.
pub fn keep_parent(chs: &Vec<ChannelResponse>, s: &Vec<usize>, parent: Option<&str>) -> (r: Vec<
    usize,
>)
    requires
        forall|i: int| 0 <= i < s@.len() ==> (#[trigger] s@[i]) < chs@.len(),
    ensures
        r@ == keep(
            s@,
            |i: usize| parent_is(chs@[i as int], crate::slash_commands::opt_view(parent)),
        ),
        forall|i: int| 0 <= i < r@.len() ==> (#[trigger] r@[i]) < chs@.len(),
{
    let ghost p = |i: usize| parent_is(chs@[i as int], crate::slash_commands::opt_view(parent));
    let mut r: Vec<usize> = Vec::new();
    let mut i: usize = 0;
    while i < s.len()
        invariant
            i <= s@.len(),
            forall|k: int| 0 <= k < s@.len() ==> (#[trigger] s@[k]) < chs@.len(),
            p == (|i: usize| parent_is(chs@[i as int], crate::slash_commands::opt_view(parent))),
            r@ == keep(s@.take(i as int), p),
            forall|k: int| 0 <= k < r@.len() ==> (#[trigger] r@[k]) < chs@.len(),
        decreases s@.len() - i,
    {
        assert(s@.take(i + 1).drop_last() =~= s@.take(i as int));
        let c = &chs[s[i]];
        let m = match (&c.parent_id, parent) {
            (None, None) => true,
            (Some(p), Some(q)) => crate::text::str_eq(p.as_str(), q),
            _ => false,
        };
        if m {
            r.push(s[i]);
        }
        i = i + 1;
    }
    assert(s@.take(s@.len() as int) =~= s@);
    r
}

/// The category blocks: each category followed by its channels.
pub open spec fn blocks(cats: Seq<usize>, ns: Seq<usize>, all: Seq<ChannelResponse>) -> Seq<usize>
    decreases cats.len(),
{
    if cats.len() == 0 {
        Seq::empty()
    } else {
        let c = cats.last();
        blocks(cats.drop_last(), ns, all) + seq![c] + keep(
            ns,
            |i: usize| parent_is(all[i as int], Some(all[c as int].id@)),
        )
    }
}

/// The listing order of a guild's channels (indices into `all`): channels
/// without a category first, then each category (by position) followed by
/// its channels, channels ordered by position then name. Channels whose
/// category is not in the list are left out.
pub open spec fn guild_order(all: Seq<ChannelResponse>) -> Seq<usize> {
    let cats = isort(
        keep(range_seq(all.len() as int), |i: usize| (spec_channel_type(all[i as int]) == CHANNEL_GUILD_CATEGORY) == true),
        before_of(all, ORDER_CATEGORY),
    );
    let ns = isort(
        keep(range_seq(all.len() as int), |i: usize| (spec_channel_type(all[i as int]) == CHANNEL_GUILD_CATEGORY) == false),
        before_of(all, ORDER_CHANNEL),
    );
    keep(ns, |i: usize| parent_is(all[i as int], None)) + blocks(cats, ns, all)
}

/// The listing order of direct messages (indices): newest activity first.
pub open spec fn dm_order(chs: Seq<ChannelResponse>) -> Seq<usize> {
    isort(range_seq(chs.len() as int), before_of(chs, ORDER_DM))
}

pub proof fn lemma_isort_bounded(s: Seq<usize>, before: spec_fn(usize, usize) -> bool, n: int)
    requires
        forall|i: int| 0 <= i < s.len() ==> (#[trigger] s[i]) < n,
    ensures
        forall|i: int| 0 <= i < isort(s, before).len() ==> (#[trigger] isort(s, before)[i]) < n,
{
    crate::seqs::lemma_isort_elems(s, before);
    assert forall|i: int| 0 <= i < isort(s, before).len() implies (#[trigger] isort(s, before)[i]) < n by {
        let x = isort(s, before)[i];
        assert(isort(s, before).contains(x));
        assert(s.contains(x));
    }
}

pub fn range_vec(n: usize) -> (r: Vec<usize>)
    ensures
        r@ == range_seq(n as int),
{
    let mut r: Vec<usize> = Vec::new();
    let mut i: usize = 0;
    while i < n
        invariant
            i <= n,
            r@ == range_seq(i as int),
        decreases n - i,
    {
        r.push(i);
        i = i + 1;
        assert(r@ =~= range_seq(i as int));
    }
    r
}

/// The direct-message listing order.
pub fn dm_order_exec(chs: &Vec<ChannelResponse>) -> (r: Vec<usize>)
    ensures
        r@ == dm_order(chs@),
        forall|i: int| 0 <= i < r@.len() ==> (#[trigger] r@[i]) < chs@.len(),
{
    let idx = range_vec(chs.len());
    sort_indices(chs, &idx, ORDER_DM)
}

/// The guild channel listing order.
pub fn guild_order_exec(all: &Vec<ChannelResponse>) -> (r: Vec<usize>)
    ensures
        r@ == guild_order(all@),
        forall|i: int| 0 <= i < r@.len() ==> (#[trigger] r@[i]) < all@.len(),
{
    let cat_idx = keep_range(all, true);
    let cats = sort_indices(all, &cat_idx, ORDER_CATEGORY);
    let non_idx = keep_range(all, false);
    let ns = sort_indices(all, &non_idx, ORDER_CHANNEL);
    let mut out = keep_parent(all, &ns, None);
    let ghost top = out@;
    let mut i: usize = 0;
    while i < cats.len()
        invariant
            i <= cats@.len(),
            forall|k: int| 0 <= k < cats@.len() ==> (#[trigger] cats@[k]) < all@.len(),
            forall|k: int| 0 <= k < ns@.len() ==> (#[trigger] ns@[k]) < all@.len(),
            out@ == top + blocks(cats@.take(i as int), ns@, all@),
            forall|k: int| 0 <= k < out@.len() ==> (#[trigger] out@[k]) < all@.len(),
        decreases cats@.len() - i,
    {
        let c = cats[i];
        assert(cats@.take(i + 1).drop_last() =~= cats@.take(i as int));
        let children = keep_parent(all, &ns, Some(all[c].id.as_str()));
        let ghost before = out@;
        out.push(c);
        let mut j: usize = 0;
        while j < children.len()
            invariant
                j <= children@.len(),
                c < all@.len(),
                forall|k: int| 0 <= k < children@.len() ==> (#[trigger] children@[k]) < all@.len(),
                out@ == before + seq![c] + children@.take(j as int),
                forall|k: int| 0 <= k < out@.len() ==> (#[trigger] out@[k]) < all@.len(),
            decreases children@.len() - j,
        {
            out.push(children[j]);
            j = j + 1;
            assert(out@ =~= before + seq![c] + children@.take(j as int));
        }
        assert(children@.take(children@.len() as int) =~= children@);
        assert(out@ =~= top + blocks(cats@.take(i + 1), ns@, all@));
        i = i + 1;
    }
    assert(cats@.take(cats@.len() as int) =~= cats@);
    out
}

} // verus!
