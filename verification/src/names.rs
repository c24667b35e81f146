//! How users, channels, typing peers and reactions are named in the interface.
use crate::media::last_index_of;
use crate::text::{
    chars_of, concat, ends_with, is_blank, owned, slice_chars, starts_with, string_of, take, trim,
    trim_chars,
};
use crate::types::{
    spec_channel_type, ChannelResponse, UserPartialResponse, UserPrivateResponse, CHANNEL_DM,
    CHANNEL_DM_PERSONAL_NOTES, CHANNEL_GROUP_DM, CHANNEL_GUILD_LINK, CHANNEL_GUILD_TEXT,
};
use vstd::prelude::*;
use vstd::string::*;

verus! {

/// The public part of a private user record.
pub open spec fn partial_of(me: UserPrivateResponse) -> UserPartialResponse {
    UserPartialResponse {
        id: me.id,
        username: me.username,
        discriminator: me.discriminator,
        global_name: me.global_name,
        avatar: me.avatar,
        bot: me.bot,
        system: me.system,
    }
}

/// The public part of the signed-in user's own record.
pub fn me_as_partial(me: &UserPrivateResponse) -> (r: UserPartialResponse)
    ensures
        r == partial_of(*me),
{
    UserPartialResponse {
        id: me.id.clone(),
        username: me.username.clone(),
        discriminator: me.discriminator.clone(),
        global_name: me.global_name.clone(),
        avatar: me.avatar.clone(),
        bot: me.bot,
        system: me.system,
    }
}

/// `username#discriminator`, or the bare username when there is no discriminator.
pub open spec fn handle_spec(u: UserPartialResponse) -> Seq<char> {
    if u.discriminator@.len() == 0 {
        u.username@
    } else {
        u.username@ + seq!['#'] + u.discriminator@
    }
}

/// The global name when it is not blank, else the handle.
pub open spec fn display_name_spec(u: UserPartialResponse) -> Seq<char> {
    match u.global_name {
        Some(g) => if !is_blank(g@) {
            g@
        } else {
            handle_spec(u)
        },
        None => handle_spec(u),
    }
}

pub fn username_handle(user: &UserPartialResponse) -> (r: String)
    ensures
        r@ == handle_spec(*user),
{
    if user.discriminator.as_str().is_empty() {
        user.username.clone()
    } else {
        let mut s = user.username.clone();
        s.append("#");
        s.append(user.discriminator.as_str());
        proof {
            reveal_strlit("#");
        }
        s
    }
}

/// The name shown for a user account.
pub fn account_display_name(user: &UserPartialResponse) -> (r: String)
    ensures
        r@ == display_name_spec(*user),
{
    match &user.global_name {
        Some(g) => if !crate::text::blank(g.as_str()) {
            g.clone()
        } else {
            username_handle(user)
        },
        None => username_handle(user),
    }
}

/// The name shown for a user account.
pub fn display_name(user: &UserPartialResponse) -> (r: String)
    ensures
        r@ == display_name_spec(*user),
{
    account_display_name(user)
}

/// The parts joined with a separator between neighbours.
pub open spec fn join(parts: Seq<Seq<char>>, sep: Seq<char>) -> Seq<char>
    decreases parts.len(),
{
    if parts.len() == 0 {
        Seq::empty()
    } else if parts.len() == 1 {
        parts[0]
    } else {
        join(parts.drop_last(), sep) + sep + parts.last()
    }
}

pub open spec fn display_names(users: Seq<UserPartialResponse>) -> Seq<Seq<char>> {
    users.map_values(|u: UserPartialResponse| display_name_spec(u))
}

/// The display names of the users, joined by `, `.
pub fn join_display_names(users: &Vec<UserPartialResponse>) -> (r: String)
    ensures
        r@ == join(display_names(users@), ", "@),
{
    let mut out = String::new();
    let mut i: usize = 0;
    let ghost names = display_names(users@);
    while i < users.len()
        invariant
            i <= users@.len(),
            names == display_names(users@),
            out@ == join(names.take(i as int), ", "@),
        decreases users@.len() - i,
    {
        let n = display_name(&users[i]);
        assert(names.take(i + 1).drop_last() =~= names.take(i as int));
        if i > 0 {
            out.append(", ");
        }
        out.append(n.as_str());
        proof {
            if i == 0 {
                assert(names.take(1).len() == 1);
                assert(out@ =~= names.take(1)[0]);
            }
        }
        i = i + 1;
    }
    assert(names.take(users@.len() as int) =~= names);
    out
}

/// The label of a channel in the channel picker.
pub open spec fn picker_line_spec(ch: ChannelResponse) -> Seq<char> {
    let t = spec_channel_type(ch);
    if t == CHANNEL_GUILD_TEXT || t == CHANNEL_GUILD_LINK {
        if ch.name@.len() == 0 {
            take(ch.id@, 6)
        } else {
            seq!['#'] + ch.name@
        }
    } else if t == CHANNEL_DM_PERSONAL_NOTES {
        "Personal notes"@
    } else if t == CHANNEL_DM {
        if ch.recipients@.len() > 0 {
            display_name_spec(ch.recipients@[0])
        } else {
            "DM"@
        }
    } else if t == CHANNEL_GROUP_DM {
        if !is_blank(ch.name@) {
            ch.name@
        } else if ch.recipients@.len() > 0 {
            join(display_names(ch.recipients@), ", "@)
        } else {
            "Group DM"@
        }
    } else {
        if ch.name@.len() == 0 {
            take(ch.id@, 6)
        } else {
            ch.name@
        }
    }
}

/// The first `n` characters of a string.
pub fn take_chars(s: &str, n: usize) -> (r: String)
    ensures
        r@ == take(s@, n as int),
{
    let v = chars_of(s);
    if n >= v.len() {
        return string_of(v.as_slice());
    }
    let t = slice_chars(&v, 0, n);
    string_of(t.as_slice())
}

pub fn picker_channel_line(ch: &ChannelResponse) -> (r: String)
    ensures
        r@ == picker_line_spec(*ch),
{
    let t = ch.channel_type();
    if t == CHANNEL_GUILD_TEXT || t == CHANNEL_GUILD_LINK {
        if ch.name.as_str().is_empty() {
            take_chars(ch.id.as_str(), 6)
        } else {
            proof {
                reveal_strlit("#");
            }
            concat("#", ch.name.as_str())
        }
    } else if t == CHANNEL_DM_PERSONAL_NOTES {
        owned("Personal notes")
    } else if t == CHANNEL_DM {
        if ch.recipients.len() > 0 {
            display_name(&ch.recipients[0])
        } else {
            owned("DM")
        }
    } else if t == CHANNEL_GROUP_DM {
        if !crate::text::blank(ch.name.as_str()) {
            ch.name.clone()
        } else if ch.recipients.len() > 0 {
            join_display_names(&ch.recipients)
        } else {
            owned("Group DM")
        }
    } else {
        if ch.name.as_str().is_empty() {
            take_chars(ch.id.as_str(), 6)
        } else {
            ch.name.clone()
        }
    }
}

/// The typing notice for the given peer names.
pub open spec fn typing_phrase_spec(names: Seq<Seq<char>>) -> Seq<char> {
    let n = names.len();
    if n == 1 {
        names[0] + " is typing..."@
    } else if n == 2 {
        names[0] + " and "@ + names[1] + " are typing..."@
    } else if n == 3 {
        names[0] + ", "@ + names[1] + " and "@ + names[2] + " are typing..."@
    } else if n == 4 {
        "Several people are typing..."@
    } else if 5 <= n <= 9 {
        "A handful of keyboard warriors are assembling..."@
    } else if 10 <= n <= 14 {
        "A symphony of clacking keys is underway..."@
    } else if 15 <= n <= 19 {
        "It's a full-blown typing fiesta in here"@
    } else {
        "Whoa, it's a typing apocalypse"@
    }
}

pub open spec fn string_views(v: Seq<String>) -> Seq<Seq<char>> {
    v.map_values(|s: String| s@)
}

pub fn fluxer_typing_phrase(names: &Vec<String>) -> (r: String)
    ensures
        r@ == typing_phrase_spec(string_views(names@)),
{
    let n = names.len();
    let ghost v = string_views(names@);
    if n == 1 {
        let r = concat(names[0].as_str(), " is typing...");
        assert(v[0] == names@[0]@);
        r
    } else if n == 2 {
        let mut s = names[0].clone();
        s.append(" and ");
        s.append(names[1].as_str());
        s.append(" are typing...");
        assert(v[0] == names@[0]@ && v[1] == names@[1]@);
        s
    } else if n == 3 {
        let mut s = names[0].clone();
        s.append(", ");
        s.append(names[1].as_str());
        s.append(" and ");
        s.append(names[2].as_str());
        s.append(" are typing...");
        assert(v[0] == names@[0]@ && v[1] == names@[1]@ && v[2] == names@[2]@);
        s
    } else if n == 4 {
        owned("Several people are typing...")
    } else if 5 <= n && n <= 9 {
        owned("A handful of keyboard warriors are assembling...")
    } else if 10 <= n && n <= 14 {
        owned("A symphony of clacking keys is underway...")
    } else if 15 <= n && n <= 19 {
        owned("It's a full-blown typing fiesta in here")
    } else {
        owned("Whoa, it's a typing apocalypse")
    }
}

/// The `name:id` form the reactions API takes for a custom emoji written
/// `<name:id>` or `<a:name:id>`; other text is passed on trimmed.
pub open spec fn reaction_api_spec(insert: Seq<char>) -> Seq<char> {
    let t = trim(insert);
    if starts_with(t, seq!['<']) && ends_with(t, seq!['>']) && t.contains(':') && t.len() >= 2 {
        let inner = t.subrange(1, t.len() - 1);
        let i1 = last_index_of(inner, ':');
        let before = inner.subrange(0, i1);
        let i2 = last_index_of(before, ':');
        if i1 >= 0 && i2 >= 0 {
            let id = inner.subrange(i1 + 1, inner.len() as int);
            let name = before.subrange(i2 + 1, before.len() as int);
            if name.len() > 0 && id.len() > 0 {
                name + seq![':'] + id
            } else {
                t
            }
        } else {
            t
        }
    } else {
        t
    }
}

pub fn last_colon(s: &Vec<char>) -> (r: Option<usize>)
    ensures
        r matches Some(i) ==> i == last_index_of(s@, ':') && i < s@.len(),
        r is None ==> last_index_of(s@, ':') == -1,
{
    let mut i: usize = s.len();
    assert(s@.subrange(0, i as int) =~= s@);
    while i > 0
        invariant
            i <= s@.len(),
            last_index_of(s@, ':') == last_index_of(s@.subrange(0, i as int), ':'),
        decreases i,
    {
        if s[i - 1] == ':' {
            return Some(i - 1);
        }
        assert(s@.subrange(0, i as int).drop_last() =~= s@.subrange(0, i - 1));
        i = i - 1;
    }
    None
}

pub fn encode_reaction_for_api(insert: &str) -> (r: String)
    ensures
        r@ == reaction_api_spec(insert@),
{
    let t = trim_chars(&chars_of(insert));
    let lt = vec!['<'];
    let gt = vec!['>'];
    assert(lt@ =~= seq!['<']);
    assert(gt@ =~= seq!['>']);
    let mut has_colon = false;
    let mut k: usize = 0;
    while k < t.len()
        invariant
            k <= t@.len(),
            has_colon == exists|j: int| 0 <= j < k && t@[j] == ':',
        decreases t@.len() - k,
    {
        if t[k] == ':' {
            has_colon = true;
        }
        k = k + 1;
    }
    assert(has_colon == t@.contains(':'));
    if crate::text::starts_with_exec(&t, &lt) && crate::text::ends_with_exec(&t, &gt) && has_colon
        && t.len() >= 2 {
        let inner = slice_chars(&t, 1, t.len() - 1);
        if let Some(i1) = last_colon(&inner) {
            let before = slice_chars(&inner, 0, i1);
            if let Some(i2) = last_colon(&before) {
                let id = slice_chars(&inner, i1 + 1, inner.len());
                let name = slice_chars(&before, i2 + 1, before.len());
                if name.len() > 0 && id.len() > 0 {
                    let mut out = name;
                    out.push(':');
                    let mut j: usize = 0;
                    let ghost base = out@;
                    while j < id.len()
                        invariant
                            j <= id@.len(),
                            out@ == base + id@.subrange(0, j as int),
                        decreases id@.len() - j,
                    {
                        out.push(id[j]);
                        j = j + 1;
                        assert(out@ =~= base + id@.subrange(0, j as int));
                    }
                    assert(id@.subrange(0, id@.len() as int) =~= id@);
                    return string_of(out.as_slice());
                }
            }
        }
    }
    string_of(t.as_slice())
}

} // verus!
