//! Moving through servers and channels, the selected channel, and what the
//! signed-in user may do in it.
use crate::app::{opt_str, server_view, App, ServerSelection};
use crate::channels::{
    active_perms, active_spec, chs_eqv, clamp, entries_list, filter_chs, index_of_id, my_roles,
    normalized, not_category, perms_spec, server_list, text_like, walk,
};
use crate::permissions::{
    compute_channel_permissions, parse_bits, ADD_REACTIONS, ALL_PERMISSIONS, MANAGE_MESSAGES,
    SEND_MESSAGES, VIEW_CHANNEL,
};
use crate::reads::{visible_mentions, visible_unread};
use crate::seqs::{first_idx, lemma_first_idx_bounds, lemma_first_idx_is};
use crate::settings::guild_index;
use crate::text::{owned, str_eq};
use crate::types::{
    spec_channel_type, ChannelResponse, GuildResponse, MessageResponse, CHANNEL_GUILD_CATEGORY,
    CHANNEL_GUILD_LINK, CHANNEL_GUILD_VOICE, CHANNEL_DM, CHANNEL_DM_PERSONAL_NOTES,
    CHANNEL_GROUP_DM, CHANNEL_GUILD_TEXT,
};
use vstd::prelude::*;

verus! {

/// The selected channel is listed and text-like.
pub open spec fn text_channel(a: &App) -> bool {
    active_spec(a) matches Some(c) && text_like(spec_channel_type(c))
}

/// The user may view and send messages in the selected channel.
pub open spec fn can_send(a: &App) -> bool {
    active_perms(a) & VIEW_CHANNEL != 0 && active_perms(a) & SEND_MESSAGES != 0
}

/// The user may add reactions in the selected channel.
pub open spec fn can_react(a: &App) -> bool {
    active_perms(a) & ADD_REACTIONS != 0
}

/// The user may edit `m`: their own message, in a text channel where they can send.
pub open spec fn edit_allowed(a: &App, m: MessageResponse) -> bool {
    text_channel(a) && can_send(a) && m.author.id@ == a.me.id@
}

/// The user may delete `m`: in a text channel, their own when they can view
/// it, another's when they can manage messages.
pub open spec fn delete_allowed(a: &App, m: MessageResponse) -> bool {
    text_channel(a) && if m.author.id@ == a.me.id@ {
        active_perms(a) & VIEW_CHANNEL != 0
    } else {
        active_perms(a) & MANAGE_MESSAGES != 0
    }
}

/// The server entry at position `i` of the server list: direct messages, then the guilds.
pub open spec fn server_at(app: &App, i: int) -> Option<Seq<char>> {
    if i == 0 {
        None
    } else {
        Some(app.guilds@[i - 1].id@)
    }
}

/// The position of the selected server in the server list (0 when not listed).
pub open spec fn server_pos(app: &App) -> int {
    match server_view(app.selected_server) {
        None => 0,
        Some(g) => {
            let k = guild_index(app.guilds@, g);
            if k < app.guilds@.len() {
                k + 1
            } else {
                0
            }
        },
    }
}

/// The channels listed for the selected server.
pub open spec fn listed(app: &App) -> Seq<ChannelResponse> {
    entries_list(app, server_view(app.selected_server), opt_str(app.selected_channel_id))
}

/// The position of the selected channel in the listed channels (0 when not listed).
pub open spec fn channel_pos(app: &App) -> int {
    let ents = listed(app);
    let k = first_idx(ents, |c: ChannelResponse| Some(c.id@) == opt_str(app.selected_channel_id), 0);
    if k < ents.len() {
        k
    } else {
        0
    }
}

/// A (server, channel) pair one can jump to, by value.
pub type NavPair = (Option<Seq<char>>, Seq<char>);

/// The text-like channels of a list, paired with their server.
pub open spec fn text_pairs(server: Option<Seq<char>>, chs: Seq<ChannelResponse>) -> Seq<NavPair>
    decreases chs.len(),
{
    if chs.len() == 0 {
        Seq::empty()
    } else if text_like(spec_channel_type(chs.last())) {
        text_pairs(server, chs.drop_last()).push((server, chs.last().id@))
    } else {
        text_pairs(server, chs.drop_last())
    }
}

/// The jump targets of the first `n` entries of the server list, in order.
pub open spec fn nav_pairs_upto(app: &App, n: int) -> Seq<NavPair>
    decreases n,
{
    if n <= 0 {
        Seq::empty()
    } else {
        nav_pairs_upto(app, n - 1) + text_pairs(server_at(app, n - 1), server_list(app, server_at(app, n - 1)))
    }
}

/// Every text-like channel of every server, direct messages first, in listing order.
pub open spec fn nav_pairs(app: &App) -> Seq<NavPair> {
    nav_pairs_upto(app, app.guilds@.len() as int + 1)
}

/// Whether a channel shows activity: visibly unread, or with visible mentions.
pub open spec fn has_activity(app: &App, cid: Seq<char>) -> bool {
    visible_unread(app, cid) || visible_mentions(app, cid) > 0
}

/// Whether the pair `s` steps after position `pos`, going around the list, shows activity.
pub open spec fn step_hit(app: &App, flat: Seq<NavPair>, pos: int, s: int) -> bool {
    has_activity(app, flat[(pos + s) % (flat.len() as int)].1)
}

/// A pair by value.
pub open spec fn pair_view(p: (ServerSelection, String)) -> NavPair {
    (server_view(p.0), p.1@)
}

/// The position of the selected (server, channel) pair among the jump targets, or 0.
pub open spec fn nav_pos(app: &App, flat: Seq<NavPair>) -> int {
    let k = first_idx(
        flat,
        |p: NavPair| p.0 == server_view(app.selected_server) && Some(p.1) == opt_str(app.selected_channel_id),
        0,
    );
    if k < flat.len() {
        k
    } else {
        0
    }
}

/// `r` is the next (server, channel) pair after the selected one, going
/// around the jump targets, whose channel shows activity; none when there
/// are fewer than two targets or no other shows activity.
pub open spec fn activity_next(a: &App, r: Option<(ServerSelection, String)>) -> bool {
    let f = nav_pairs(a);
    let pos = nav_pos(a, f);
    if f.len() < 2 {
        r is None
    } else {
        match r {
            None => forall|s: int| 1 <= s < f.len() ==> !#[trigger] step_hit(a, f, pos, s),
            Some(p) => exists|s: int|
                1 <= s < f.len() && #[trigger] step_hit(a, f, pos, s) && (forall|t: int|
                    1 <= t < s ==> !#[trigger] step_hit(a, f, pos, t)) && pair_view(p)
                    == f[(pos + s) % (f.len() as int)],
        }
    }
}


/// A channel that Ctrl+N / Ctrl+P can land on: neither a category nor a
/// voice channel.
pub open spec fn text_target(c: ChannelResponse) -> bool {
    spec_channel_type(c) != CHANNEL_GUILD_CATEGORY && spec_channel_type(c) != CHANNEL_GUILD_VOICE
}

/// The listed channels that are neither categories nor voice channels.
pub open spec fn listed_text_targets(app: &App) -> Seq<ChannelResponse> {
    filter_chs(listed(app), |c: ChannelResponse| text_target(c))
}

/// Text-pair lists of equivalent channel lists agree.
pub proof fn lemma_text_pairs_eqv(server: Option<Seq<char>>, a: Seq<ChannelResponse>, b: Seq<ChannelResponse>)
    requires
        chs_eqv(a, b),
    ensures
        text_pairs(server, a) == text_pairs(server, b),
    decreases a.len(),
{
    if a.len() > 0 {
        assert(a.last().eqv(&b.last()));
        assert(chs_eqv(a.drop_last(), b.drop_last())) by {
            assert forall|i: int| 0 <= i < a.drop_last().len() implies #[trigger] a.drop_last()[i].eqv(&b.drop_last()[i]) by {
                assert(a[i].eqv(&b[i]));
            }
        }
        lemma_text_pairs_eqv(server, a.drop_last(), b.drop_last());
    }
}

/// `b` is `a` after moving the server selection by `delta`.
pub open spec fn server_moved(a: &App, b: &App, delta: i32, r: bool) -> bool {
    &&& ({
                    let n = clamp(server_pos(a) + delta, 0, a.guilds@.len() as int);
                    if server_at(a, n) == server_view(a.selected_server) {
                        !r && *b == *a
                    } else {
                        r && exists|mid: App|
                            (App {
                                selected_server: a.selected_server,
                                selected_channel_id: None,
                                message_scroll_from_bottom: 0,
                                ..mid
                            }) == (App {
                                selected_channel_id: None,
                                message_scroll_from_bottom: 0,
                                ..*a
                            }) && mid.selected_channel_id is None && mid.message_scroll_from_bottom == 0
                                && server_view(mid.selected_server) == server_at(a, n)
                                && *b == normalized(&mid)
                    }
                })
}

/// `b` is `a` after moving the channel selection by `delta`.
pub open spec fn channel_moved(a: &App, b: &App, delta: i32, r: bool) -> bool {
    &&& listed(a).len() == 0 ==> !r && *b == (App { selected_channel_id: None, ..*a })
    &&& listed(a).len() > 0 ==> ({
                    let ents = listed(a);
                    let n = walk(ents, channel_pos(a), delta as int);
                    if !not_category(ents[n]) || Some(ents[n].id@) == opt_str(a.selected_channel_id) {
                        !r && *b == *a
                    } else {
                        r && *b == (App {
                            selected_channel_id: Some(ents[n].id),
                            message_scroll_from_bottom: 0,
                            selected_message_index: None,
                            ..*a
                        })
                    }
                })
}

/// `b` is `a` after moving the channel selection by `delta`, wrapping.
pub open spec fn channel_wrapped(a: &App, b: &App, delta: i32, r: bool) -> bool {
    &&& listed_text_targets(a).len() == 0 ==> !r && *b == *a
    &&& listed_text_targets(a).len() > 0 ==> ({
                    let f = listed_text_targets(a);
                    let k = first_idx(f, |c: ChannelResponse| Some(c.id@) == opt_str(a.selected_channel_id), 0);
                    let idx = if k < f.len() {
                        (k + delta) % (f.len() as int)
                    } else {
                        0
                    };
                    if Some(f[idx].id@) == opt_str(a.selected_channel_id) {
                        !r && *b == *a
                    } else {
                        r && *b == (App {
                            selected_channel_id: Some(f[idx].id),
                            message_scroll_from_bottom: 0,
                            selected_message_index: None,
                            ..*a
                        })
                    }
                })
}

/// `b` is `a` editing `msg`.
pub open spec fn edit_started(a: &App, b: &App, msg: MessageResponse) -> bool {
    &&& (App {
                    reply_to: None,
                    forward_mode: false,
                    edit_target: b.edit_target,
                    input: msg.content,
                    ..*a
                }) == *b
    &&& b.edit_target matches Some(e) && e.channel_id == msg.channel_id && e.message_id
                    == msg.id
}

impl App {
    /// The selected channel as listed, if it is listed.
    pub fn active_channel(&self) -> (r: Option<ChannelResponse>)
        ensures
            match (r, active_spec(self)) {
                (Some(x), Some(c)) => x.eqv(&c),
                (None, None) => true,
                _ => false,
            },
    {
        let sel = match &self.selected_channel_id {
            Some(s) => s,
            None => {
                return None;
            },
        };
        let ents = self.channel_entries();
        let ghost full = listed(self);
        let ghost p = crate::channels::id_is(sel@);
        let mut i: usize = 0;
        while i < ents.len() && !str_eq(ents[i].id.as_str(), sel.as_str())
            invariant
                i <= ents@.len(),
                chs_eqv(ents@, full),
                p == crate::channels::id_is(sel@),
                forall|k: int| 0 <= k < i ==> !p(#[trigger] full[k]),
            decreases ents@.len() - i,
        {
            assert(ents@[i as int].eqv(&full[i as int]));
            i = i + 1;
        }
        proof {
            if i < ents@.len() {
                assert(ents@[i as int].eqv(&full[i as int]));
            }
            lemma_first_idx_is(full, p, 0, i as int);
            assert(index_of_id(full, sel@) == i);
        }
        if i < ents.len() {
            Some(ents[i].clone())
        } else {
            None
        }
    }

    /// The selected channel id.
    pub fn active_channel_id(&self) -> (r: Option<String>)
        ensures
            r == self.selected_channel_id,
    {
        self.selected_channel_id.clone()
    }

    /// The guild holding the selected channel.
    pub fn guild_id_for_active_channel(&self) -> (r: Option<String>)
        ensures
            match self.selected_channel_id {
                None => r is None,
                Some(c) => opt_str(r) == crate::members::guild_of_channel(self, c@),
            },
    {
        match &self.selected_channel_id {
            Some(c) => self.guild_id_for_channel(c.as_str()),
            None => None,
        }
    }

    /// The selected guild's id, when a guild is selected.
    pub fn active_guild_id(&self) -> (r: Option<String>)
        ensures
            opt_str(r) == server_view(self.selected_server),
    {
        self.selected_server_guild_id()
    }

    /// Whether the selected channel is a text-like channel.
    pub fn active_channel_is_text(&self) -> (r: bool)
        ensures
            r == text_channel(self),
    {
        match self.active_channel() {
            Some(c) => {
                let t = c.channel_type();
                t == CHANNEL_GUILD_TEXT || t == CHANNEL_DM || t == CHANNEL_GROUP_DM || t
                    == CHANNEL_DM_PERSONAL_NOTES || t == CHANNEL_GUILD_LINK
            },
            None => false,
        }
    }

    /// Whether the selected channel is a voice channel.
    pub fn active_channel_is_voice(&self) -> (r: bool)
        ensures
            r == (active_spec(self) matches Some(c) && spec_channel_type(c) == CHANNEL_GUILD_VOICE),
    {
        match self.active_channel() {
            Some(c) => c.channel_type() == CHANNEL_GUILD_VOICE,
            None => false,
        }
    }

    /// Whether the selected channel is a link channel.
    pub fn active_channel_is_link(&self) -> (r: bool)
        ensures
            r == (active_spec(self) matches Some(c) && spec_channel_type(c) == CHANNEL_GUILD_LINK),
    {
        match self.active_channel() {
            Some(c) => c.channel_type() == CHANNEL_GUILD_LINK,
            None => false,
        }
    }

    /// The signed-in user's permissions in a channel; every permission outside guilds.
    pub fn channel_permissions(&self, channel: &ChannelResponse) -> (r: u64)
        ensures
            r == perms_spec(self, *channel),
    {
        let g = match &channel.guild_id {
            Some(g) => g,
            None => {
                return ALL_PERMISSIONS;
            },
        };
        let ghost p = |x: GuildResponse| x.id@ == g@;
        let mut i: usize = 0;
        while i < self.guilds.len() && !str_eq(self.guilds[i].id.as_str(), g.as_str())
            invariant
                i <= self.guilds@.len(),
                p == (|x: GuildResponse| x.id@ == g@),
                forall|k: int| 0 <= k < i ==> !p(#[trigger] self.guilds@[k]),
            decreases self.guilds@.len() - i,
        {
            i = i + 1;
        }
        proof {
            lemma_first_idx_is(self.guilds@, p, 0, i as int);
            assert(guild_index(self.guilds@, g@) == i);
        }
        let base: u64 = if i < self.guilds.len() {
            match &self.guilds[i].permissions {
                Some(s) => parse_bits(s.as_str()),
                None => 0,
            }
        } else {
            0
        };
        let none: &str = "";
        let owner: &str = if i < self.guilds.len() {
            self.guilds[i].owner_id.as_str()
        } else {
            none
        };
        proof {
            reveal_strlit("");
        }
        assert(owner@ == (if i < self.guilds@.len() {
            self.guilds@[i as int].owner_id@
        } else {
            Seq::<char>::empty()
        }));
        let empty: Vec<String> = Vec::new();
        let roles = match self.my_member_roles(g.as_str()) {
            Some(v) => v,
            None => &empty,
        };
        assert(roles@ == my_roles(self, g@));
        compute_channel_permissions(
            self.me.id.as_str(),
            roles,
            g.as_str(),
            owner,
            base,
            &channel.permission_overwrites,
        )
    }

    /// Permissions in the selected channel; every permission when none is selected.
    pub fn active_channel_permissions(&self) -> (r: u64)
        ensures
            r == active_perms(self),
    {
        match self.active_channel() {
            Some(c) => {
                proof {
                    lemma_perms_eqv(self, c, active_spec(self)->0);
                }
                self.channel_permissions(&c)
            },
            None => ALL_PERMISSIONS,
        }
    }

    /// Whether the user may view and send messages in the selected channel.
    pub fn can_send_in_active_channel(&self) -> (r: bool)
        ensures
            r == can_send(self),
    {
        let p = self.active_channel_permissions();
        p & VIEW_CHANNEL != 0 && p & SEND_MESSAGES != 0
    }

    /// Whether the user may add reactions in the selected channel.
    pub fn can_react_in_active_channel(&self) -> (r: bool)
        ensures
            r == can_react(self),
    {
        self.active_channel_permissions() & ADD_REACTIONS != 0
    }

    /// Whether the user may edit a message: their own, in a text channel where they can send.
    pub fn can_edit_message(&self, msg: &MessageResponse) -> (r: bool)
        ensures
            r == edit_allowed(self, *msg),
    {
        if !self.active_channel_is_text() || !self.can_send_in_active_channel() {
            return false;
        }
        str_eq(msg.author.id.as_str(), self.me.id.as_str())
    }

    /// Whether the user may delete a message in a text channel: their own
    /// when they can view the channel, others' when they can manage messages.
    pub fn can_delete_message(&self, msg: &MessageResponse) -> (r: bool)
        ensures
            r == delete_allowed(self, *msg),
    {
        if !self.active_channel_is_text() {
            return false;
        }
        let p = self.active_channel_permissions();
        if str_eq(msg.author.id.as_str(), self.me.id.as_str()) {
            return p & VIEW_CHANNEL != 0;
        }
        p & MANAGE_MESSAGES != 0
    }

    /// Starts editing a message: its text goes into the input, and a reply
    /// or forward in progress is dropped.
    pub fn start_edit_message(&mut self, msg: MessageResponse)
        ensures
            edit_started(old(self), final(self), msg),
    {
        self.reply_to = None;
        self.forward_mode = false;
        self.edit_target = Some(crate::app::EditState { channel_id: msg.channel_id.clone(), message_id: msg.id.clone() });
        self.input = msg.content;
    }

    /// The name of the selected server: "Direct Messages", the guild's name,
    /// or its id when the guild is not known.
    pub fn selected_server_name(&self) -> (r: String)
        ensures
            r@ == match server_view(self.selected_server) {
                None => "Direct Messages"@,
                Some(g) => if guild_index(self.guilds@, g) < self.guilds@.len() {
                    self.guilds@[guild_index(self.guilds@, g)].name@
                } else {
                    g
                },
            },
    {
        match &self.selected_server {
            ServerSelection::DirectMessages => owned("Direct Messages"),
            ServerSelection::Guild(id) => {
                let ghost p = |x: GuildResponse| x.id@ == id@;
                let mut i: usize = 0;
                while i < self.guilds.len() && !str_eq(self.guilds[i].id.as_str(), id.as_str())
                    invariant
                        i <= self.guilds@.len(),
                        p == (|x: GuildResponse| x.id@ == id@),
                        forall|k: int| 0 <= k < i ==> !p(#[trigger] self.guilds@[k]),
                    decreases self.guilds@.len() - i,
                {
                    i = i + 1;
                }
                proof {
                    lemma_first_idx_is(self.guilds@, p, 0, i as int);
                    assert(guild_index(self.guilds@, id@) == i);
                }
                if i < self.guilds.len() {
                    self.guilds[i].name.clone()
                } else {
                    id.clone()
                }
            },
        }
    }

    /// Moves the server selection by `delta` (clamped to the list); on a
    /// change the channel selection resets and is normalized. Returns whether
    /// the selection changed.
    #[verifier::rlimit(40)]
    #[verifier::spinoff_prover]
    pub fn move_server(&mut self, delta: i32) -> (r: bool)
        ensures
            server_moved(old(self), final(self), delta, r),
    {
        let entries = self.server_entries();
        let current = self.server_selected_index();
        let len = entries.len();
        let wanted: i128 = current as i128 + delta as i128;
        let next: usize = if wanted < 0 {
            0
        } else if wanted > (len - 1) as i128 {
            len - 1
        } else {
            wanted as usize
        };
        assert(next as int == clamp(server_pos(old(self)) + delta, 0, old(self).guilds@.len() as int));
        proof {
            if next > 0 {
                let j = next - 1;
                assert(entries@[j + 1] == ServerSelection::Guild(self.guilds@[j as int].id));
            }
        }
        assert(server_view(entries@[next as int]) == server_at(old(self), next as int));
        if entries[next] == self.selected_server {
            return false;
        }
        self.selected_server = entries[next].clone();
        self.selected_channel_id = None;
        self.message_scroll_from_bottom = 0;
        let ghost mid = *self;
        self.normalize_selection();
        true
    }

    /// Moves the channel selection by `delta`, skipping categories (see
    /// `walk`); nothing moves onto a category or onto the selected channel.
    /// Returns whether the selection changed.
    pub fn move_channel(&mut self, delta: i32) -> (r: bool)
        requires
            delta == 0 ==> listed(old(self)).len() == 0 || !(spec_channel_type(listed(old(self))[channel_pos(old(self))])
                == CHANNEL_GUILD_CATEGORY && 0 < channel_pos(old(self)) < listed(old(self)).len() - 1),
        ensures
            channel_moved(old(self), final(self), delta, r),
    {
        let channels = self.channel_entries();
        let ghost ents = listed(self);
        if channels.len() == 0 {
            self.selected_channel_id = None;
            return false;
        }
        let cur = self.channel_selected_index();
        proof {
            lemma_first_idx_bounds(ents, |c: ChannelResponse| Some(c.id@) == opt_str(self.selected_channel_id), 0);
        }
        let len: i128 = channels.len() as i128;
        let d: i128 = delta as i128;
        let mut next: i128 = cur as i128;
        loop
            invariant_except_break
                walk(ents, cur as int, d as int) == walk(ents, next as int, d as int),
            invariant
                0 <= next < len,
                len == ents.len(),
                len <= usize::MAX,
                d == delta as int,
                chs_eqv(channels@, ents),
                d == 0 ==> !(spec_channel_type(ents[next as int]) == CHANNEL_GUILD_CATEGORY && 0 < next < len - 1),
            ensures
                0 <= next < len,
                walk(ents, cur as int, d as int) == next,
            decreases (if d > 0 {
                len - 1 - next
            } else {
                next as int
            }),
        {
            let w = next + d;
            let n: i128 = if w < 0 {
                0
            } else if w > len - 1 {
                len - 1
            } else {
                w
            };
            assert(channels@[n as int].eqv(&ents[n as int]));
            let cat = channels[n as usize].channel_type() == CHANNEL_GUILD_CATEGORY;
            if !cat || n == 0 || n == len - 1 || d == 0 || (d > 0 && n <= next) || (d < 0 && n >= next) {
                next = n;
                break;
            }
            next = n;
        }
        let k = next as usize;
        assert(channels@[k as int].eqv(&ents[k as int]));
        if channels[k].channel_type() == CHANNEL_GUILD_CATEGORY {
            return false;
        }
        let same = match &self.selected_channel_id {
            Some(s) => str_eq(s.as_str(), channels[k].id.as_str()),
            None => false,
        };
        if same {
            return false;
        }
        self.selected_channel_id = Some(channels[k].id.clone());
        self.message_scroll_from_bottom = 0;
        self.selected_message_index = None;
        true
    }

    /// Moves the selection among the listed text channels (neither
    /// categories nor voice channels) by `delta`, wrapping around; from an unlisted selection it
    /// goes to the first one. Returns whether the selection changed.
    pub fn move_channel_wrapping(&mut self, delta: i32) -> (r: bool)
        ensures
            channel_wrapped(old(self), final(self), delta, r),
    {
        let all = self.channel_entries();
        let ghost ents = listed(self);
        let ghost p = |c: ChannelResponse| text_target(c);
        let mut chans: Vec<ChannelResponse> = Vec::new();
        let mut i: usize = 0;
        while i < all.len()
            invariant
                i <= all@.len(),
                chs_eqv(all@, ents),
                p == (|c: ChannelResponse| text_target(c)),
                chs_eqv(chans@, filter_chs(ents.take(i as int), p)),
            decreases all@.len() - i,
        {
            assert(ents.take(i + 1).drop_last() =~= ents.take(i as int));
            assert(all@[i as int].eqv(&ents[i as int]));
            let ty = all[i].channel_type();
            if ty != CHANNEL_GUILD_CATEGORY && ty != CHANNEL_GUILD_VOICE {
                chans.push(all[i].clone());
            }
            i = i + 1;
        }
        assert(ents.take(all@.len() as int) =~= ents);
        let ghost f = listed_text_targets(self);
        assert(chs_eqv(chans@, f));
        if chans.len() == 0 {
            return false;
        }
        let ghost q = |c: ChannelResponse| Some(c.id@) == opt_str(self.selected_channel_id);
        let mut k: usize = 0;
        while k < chans.len() && !self.is_selected_channel(chans[k].id.as_str())
            invariant
                k <= chans@.len(),
                chs_eqv(chans@, f),
                q == (|c: ChannelResponse| Some(c.id@) == opt_str(self.selected_channel_id)),
                forall|j: int| 0 <= j < k ==> !q(#[trigger] f[j]),
            decreases chans@.len() - k,
        {
            assert(chans@[k as int].eqv(&f[k as int]));
            k = k + 1;
        }
        proof {
            if k < chans@.len() {
                assert(chans@[k as int].eqv(&f[k as int]));
            }
            lemma_first_idx_is(f, q, 0, k as int);
        }
        let len = chans.len();
        let idx: usize = if k < len {
            let l = len as u128;
            if delta >= 0 {
                (((k as u128) + (delta as u128)) % l) as usize
            } else {
                let back: u128 = ((-(delta as i128)) as u128) % l;
                let v = (((k as u128) + l - back) % l) as usize;
                proof {
                    let dd: int = -(delta as int);
                    let qq: int = dd / (l as int);
                    vstd::arithmetic::div_mod::lemma_fundamental_div_mod(dd, l as int);
                    assert(k + l - back == (l as int) * (qq + 1) + (k + delta)) by (nonlinear_arith)
                        requires
                            dd == (l as int) * qq + back,
                            dd == -(delta as int);
                    vstd::arithmetic::div_mod::lemma_mod_multiples_vanish(qq + 1, k + delta, l as int);
                }
                v
            }
        } else {
            0
        };
        assert(chans@[idx as int].eqv(&f[idx as int]));
        let same = match &self.selected_channel_id {
            Some(s) => str_eq(s.as_str(), chans[idx].id.as_str()),
            None => false,
        };
        if same {
            return false;
        }
        self.selected_channel_id = Some(chans[idx].id.clone());
        self.message_scroll_from_bottom = 0;
        self.selected_message_index = None;
        true
    }

    /// Every text-like channel of every server, as (server, channel id)
    /// pairs: direct messages first, then each guild, in listing order.
    pub fn navigable_channel_pairs(&self) -> (r: Vec<(ServerSelection, String)>)
        ensures
            r@.map_values(|p: (ServerSelection, String)| pair_view(p)) == nav_pairs(self),
    {
        let servers = self.server_entries();
        let mut out: Vec<(ServerSelection, String)> = Vec::new();
        let mut si: usize = 0;
        while si < servers.len()
            invariant
                si <= servers@.len(),
                servers@.len() == self.guilds@.len() + 1,
                servers@[0] == ServerSelection::DirectMessages,
                forall|i: int| 0 <= i < self.guilds@.len() ==> #[trigger] servers@[i + 1] == ServerSelection::Guild(self.guilds@[i].id),
                out@.map_values(|p: (ServerSelection, String)| pair_view(p)) == nav_pairs_upto(self, si as int),
            decreases servers@.len() - si,
        {
            proof {
                if si > 0 {
                    let j = si - 1;
                    assert(servers@[j + 1] == ServerSelection::Guild(self.guilds@[j as int].id));
                }
            }
            let ghost sv = server_at(self, si as int);
            assert(server_view(servers@[si as int]) == sv);
            let chs = self.all_channels_for_server(&servers[si]);
            let ghost full = server_list(self, sv);
            let ghost base = out@.map_values(|p: (ServerSelection, String)| pair_view(p));
            let mut j: usize = 0;
            while j < chs.len()
                invariant
                    j <= chs@.len(),
                    si < servers@.len(),
                    server_view(servers@[si as int]) == sv,
                    chs_eqv(chs@, full),
                    out@.map_values(|p: (ServerSelection, String)| pair_view(p)) == base + text_pairs(sv, chs@.take(j as int)),
                decreases chs@.len() - j,
            {
                assert(chs@.take(j + 1).drop_last() =~= chs@.take(j as int));
                assert(chs@.take(j + 1).last() == chs@[j as int]);
                let ghost prev = out@.map_values(|p: (ServerSelection, String)| pair_view(p));
                let t = chs[j].channel_type();
                if t == CHANNEL_GUILD_TEXT || t == CHANNEL_DM || t == CHANNEL_GROUP_DM || t == CHANNEL_DM_PERSONAL_NOTES
                    || t == CHANNEL_GUILD_LINK {
                    out.push((servers[si].clone(), chs[j].id.clone()));
                }
                proof {
                    if text_like(t) {
                        assert(out@.map_values(|p: (ServerSelection, String)| pair_view(p)) =~= prev.push((sv, chs@[j as int].id@)));
                    } else {
                        assert(out@.map_values(|p: (ServerSelection, String)| pair_view(p)) =~= prev);
                    }
                }
                j = j + 1;
                assert(out@.map_values(|p: (ServerSelection, String)| pair_view(p)) =~= base + text_pairs(sv, chs@.take(j as int)));
            }
            proof {
                assert(chs@.take(chs@.len() as int) =~= chs@);
                lemma_text_pairs_eqv(sv, chs@, full);
            }
            si = si + 1;
        }
        out
    }

    /// The next (server, channel) pair after the selected one, going around
    /// the jump targets, whose channel shows activity; none when there are
    /// fewer than two targets or no other shows activity.
    pub fn next_channel_with_activity(&self) -> (r: Option<(ServerSelection, String)>)
        ensures
            activity_next(self, r),
    {
        let flat = self.navigable_channel_pairs();
        let ghost f = nav_pairs(self);
        let n = flat.len();
        assert(n == f.len());
        if n < 2 {
            return None;
        }
        let ghost q = |p: NavPair| p.0 == server_view(self.selected_server) && Some(p.1) == opt_str(self.selected_channel_id);
        let mut k: usize = 0;
        while k < n && !self.is_selected_pair(&flat[k])
            invariant
                k <= n,
                n == flat@.len(),
                flat@.map_values(|p: (ServerSelection, String)| pair_view(p)) == f,
                q == (|p: NavPair| p.0 == server_view(self.selected_server) && Some(p.1) == opt_str(self.selected_channel_id)),
                forall|j: int| 0 <= j < k ==> !q(#[trigger] f[j]),
            decreases n - k,
        {
            assert(f[k as int] == pair_view(flat@[k as int]));
            k = k + 1;
        }
        proof {
            if k < n {
                assert(f[k as int] == pair_view(flat@[k as int]));
            }
            lemma_first_idx_is(f, q, 0, k as int);
        }
        let pos: usize = if k < n {
            k
        } else {
            0
        };
        let mut step: usize = 1;
        while step < n
            invariant
                1 <= step <= n,
                pos < n,
                n == flat@.len(),
                n >= 2,
                f == nav_pairs(self),
                pos == nav_pos(self, f),
                flat@.map_values(|p: (ServerSelection, String)| pair_view(p)) == f,
                forall|t: int| 1 <= t < step ==> !#[trigger] step_hit(self, f, pos as int, t),
            decreases n - step,
        {
            let i = ((pos as u128 + step as u128) % (n as u128)) as usize;
            assert(i as int == (pos + step) % (n as int));
            assert(f[i as int] == pair_view(flat@[i as int]));
            let cid = &flat[i].1;
            if self.visible_channel_is_unread(cid.as_str()) || self.visible_channel_mention_count(cid.as_str()) > 0 {
                assert(step_hit(self, f, pos as int, step as int));
                let r = (flat[i].0.clone(), flat[i].1.clone());
                assert(pair_view(r) == f[(pos + step) % (n as int)]);
                assert(1 <= step < f.len() && step_hit(self, f, pos as int, step as int) && (forall|t: int|
                    1 <= t < step ==> !#[trigger] step_hit(self, f, pos as int, t)) && pair_view(r)
                    == f[(pos + step) % (f.len() as int)]);
                return Some(r);
            }
            step = step + 1;
        }
        None
    }

    /// Whether this is the selected channel's id.
    pub fn is_selected_channel(&self, id: &str) -> (r: bool)
        ensures
            r == (opt_str(self.selected_channel_id) == Some(id@)),
    {
        match &self.selected_channel_id {
            Some(s) => str_eq(s.as_str(), id),
            None => false,
        }
    }

    fn is_selected_pair(&self, p: &(ServerSelection, String)) -> (r: bool)
        ensures
            r == (pair_view(*p).0 == server_view(self.selected_server) && Some(pair_view(*p).1) == opt_str(
                self.selected_channel_id,
            )),
    {
        p.0 == self.selected_server && self.is_selected_channel(p.1.as_str())
    }
}

/// Permissions depend only on the channel's guild and overwrites.
pub proof fn lemma_perms_eqv(app: &App, a: ChannelResponse, b: ChannelResponse)
    requires
        a.eqv(&b),
    ensures
        perms_spec(app, a) == perms_spec(app, b),
{
}

} // verus!
