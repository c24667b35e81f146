//! The server and channel lists as the sidebar shows them, the selection in
//! them, and what the selected channel allows.
use crate::app::{opt_str, server_view, App, ServerSelection};
use crate::order::{dm_order, dm_order_exec, guild_order, guild_order_exec, parent_is};
use crate::permissions::{bits_of, channel_permissions_spec, ALL_PERMISSIONS};
use crate::seqs::{first_idx, lemma_first_idx_is};
use crate::settings::{channel_muted, hide_muted_of};
use crate::text::str_eq;
use crate::types::{
    spec_channel_type, ChannelResponse, GuildMemberResponse, GuildResponse, CHANNEL_DM,
    CHANNEL_DM_PERSONAL_NOTES, CHANNEL_GROUP_DM, CHANNEL_GUILD_CATEGORY, CHANNEL_GUILD_LINK,
    CHANNEL_GUILD_TEXT,
};
use vstd::prelude::*;

verus! {

/// Two channel lists hold the same channels in the same order.
pub open spec fn chs_eqv(a: Seq<ChannelResponse>, b: Seq<ChannelResponse>) -> bool {
    a.len() == b.len() && forall|i: int| 0 <= i < a.len() ==> #[trigger] a[i].eqv(&b[i])
}

/// The channels stored for a guild (none when not loaded).
pub open spec fn group_of(app: &App, g: Seq<char>) -> Seq<ChannelResponse> {
    if app.guild_channels@.dom().contains(g) {
        app.guild_channels@[g]@
    } else {
        Seq::empty()
    }
}

pub open spec fn pick(chs: Seq<ChannelResponse>, order: Seq<usize>) -> Seq<ChannelResponse> {
    order.map_values(|i: usize| chs[i as int])
}

/// Every channel of a server in listing order (direct messages when `server` is `None`).
pub open spec fn server_list(app: &App, server: Option<Seq<char>>) -> Seq<ChannelResponse> {
    match server {
        None => pick(app.private_channels@, dm_order(app.private_channels@)),
        Some(g) => pick(group_of(app, g), guild_order(group_of(app, g))),
    }
}

/// A guild channel hidden from the sidebar: its guild hides muted channels,
/// it is not the selected channel, and it is muted.
pub open spec fn hidden(app: &App, ch: ChannelResponse, sel: Option<Seq<char>>) -> bool {
    match ch.guild_id {
        None => false,
        Some(g) => hide_muted_of(app, Some(g@)) && sel != Some(ch.id@) && channel_muted(app, ch),
    }
}

/// Whether a listed channel stays visible: a category while one of its
/// channels is visible, any other channel while it is not hidden.
pub open spec fn shown(app: &App, g: Seq<char>, sel: Option<Seq<char>>, c: ChannelResponse) -> bool {
    if spec_channel_type(c) == CHANNEL_GUILD_CATEGORY {
        exists|j: int|
            0 <= j < group_of(app, g).len() && parent_is(#[trigger] group_of(app, g)[j], Some(c.id@))
                && !hidden(app, group_of(app, g)[j], sel)
    } else {
        !hidden(app, c, sel)
    }
}

pub open spec fn filter_chs(s: Seq<ChannelResponse>, p: spec_fn(ChannelResponse) -> bool) -> Seq<
    ChannelResponse,
>
    decreases s.len(),
{
    if s.len() == 0 {
        Seq::empty()
    } else if p(s.last()) {
        filter_chs(s.drop_last(), p).push(s.last())
    } else {
        filter_chs(s.drop_last(), p)
    }
}

/// The channels the sidebar lists for a server, given the selected channel.
pub open spec fn entries_list(app: &App, server: Option<Seq<char>>, sel: Option<Seq<char>>) -> Seq<
    ChannelResponse,
> {
    match server {
        None => server_list(app, None),
        Some(g) => if !hide_muted_of(app, Some(g)) {
            server_list(app, Some(g))
        } else {
            filter_chs(server_list(app, Some(g)), |c: ChannelResponse| shown(app, g, sel, c))
        },
    }
}

/// Whether a guild with this id is in the list.
pub open spec fn has_guild(gs: Seq<GuildResponse>, id: Seq<char>) -> bool {
    exists|i: int| 0 <= i < gs.len() && #[trigger] gs[i].id@ == id
}

/// The server selection after normalizing: kept when it names a known guild
/// (or direct messages), else direct messages.
pub open spec fn norm_server(app: &App, s: ServerSelection) -> ServerSelection {
    match server_view(s) {
        None => s,
        Some(g) => if has_guild(app.guilds@, g) {
            s
        } else {
            ServerSelection::DirectMessages
        },
    }
}

pub open spec fn not_category(c: ChannelResponse) -> bool {
    spec_channel_type(c) != CHANNEL_GUILD_CATEGORY
}

/// The channel selection after normalizing, and whether the scroll position resets:
/// none when the list is empty; kept when listed; else the first channel that
/// is not a category.
pub open spec fn norm_channel(app: &App, server: Option<Seq<char>>, sel: Option<String>) -> (
    Option<String>,
    bool,
) {
    let ents = entries_list(app, server, opt_str(sel));
    if ents.len() == 0 {
        (None, false)
    } else if exists|i: int| 0 <= i < ents.len() && Some(#[trigger] ents[i].id@) == opt_str(sel) {
        (sel, false)
    } else {
        let k = first_idx(ents, |c: ChannelResponse| not_category(c), 0);
        (
            if k < ents.len() {
                Some(ents[k].id)
            } else {
                None
            },
            true,
        )
    }
}

/// The state after `normalize_selection`.
pub open spec fn normalized(app: &App) -> App {
    let s = norm_server(app, app.selected_server);
    let (c, reset) = norm_channel(app, server_view(s), app.selected_channel_id);
    App {
        selected_server: s,
        selected_channel_id: c,
        message_scroll_from_bottom: if reset {
            0
        } else {
            app.message_scroll_from_bottom
        },
        ..*app
    }
}

pub open spec fn text_like(t: i32) -> bool {
    t == CHANNEL_GUILD_TEXT || t == CHANNEL_DM || t == CHANNEL_GROUP_DM || t
        == CHANNEL_DM_PERSONAL_NOTES || t == CHANNEL_GUILD_LINK
}

/// The first channel in the list with the given id.
pub open spec fn index_of_id(s: Seq<ChannelResponse>, id: Seq<char>) -> int {
    first_idx(s, id_is(id), 0)
}

/// A channel with this id.
pub open spec fn id_is(id: Seq<char>) -> spec_fn(ChannelResponse) -> bool {
    |c: ChannelResponse| c.id@ == id
}

/// `index_of_id` finds the first channel with the id, or gives the length.
pub proof fn lemma_index_of_id(s: Seq<ChannelResponse>, id: Seq<char>)
    ensures
        0 <= index_of_id(s, id) <= s.len(),
        index_of_id(s, id) < s.len() ==> s[index_of_id(s, id)].id@ == id,
        forall|j: int| 0 <= j < index_of_id(s, id) ==> #[trigger] s[j].id@ != id,
{
    crate::seqs::lemma_first_idx_bounds(s, id_is(id), 0);
}

/// The selected channel as listed, if it is listed.
pub open spec fn active_spec(app: &App) -> Option<ChannelResponse> {
    match app.selected_channel_id {
        None => None,
        Some(id) => {
            let ents = entries_list(app, server_view(app.selected_server), Some(id@));
            let k = index_of_id(ents, id@);
            if k < ents.len() {
                Some(ents[k])
            } else {
                None
            }
        },
    }
}

/// The roles of the signed-in user in a guild, as stored with its members.
pub open spec fn my_roles(app: &App, g: Seq<char>) -> Seq<String> {
    if app.guild_members@.dom().contains(g) {
        let ms = app.guild_members@[g]@;
        let k = first_idx(ms, |m: GuildMemberResponse| m.user.id@ == app.me.id@, 0);
        if k < ms.len() {
            ms[k].roles@
        } else {
            Seq::empty()
        }
    } else {
        Seq::empty()
    }
}

/// The signed-in user's permissions in a channel; everything outside guilds.
pub open spec fn perms_spec(app: &App, ch: ChannelResponse) -> u64 {
    match ch.guild_id {
        None => ALL_PERMISSIONS,
        Some(g) => {
            let gi = crate::settings::guild_index(app.guilds@, g@);
            let base = if gi < app.guilds@.len() {
                match app.guilds@[gi].permissions {
                    Some(p) => bits_of(p@),
                    None => 0,
                }
            } else {
                0
            };
            let owner = if gi < app.guilds@.len() {
                app.guilds@[gi].owner_id@
            } else {
                Seq::empty()
            };
            channel_permissions_spec(
                app.me.id@,
                my_roles(app, g@),
                g@,
                owner,
                base,
                ch.permission_overwrites@,
            )
        },
    }
}

/// Permissions in the selected channel; everything when none is selected.
pub open spec fn active_perms(app: &App) -> u64 {
    match active_spec(app) {
        Some(c) => perms_spec(app, c),
        None => ALL_PERMISSIONS,
    }
}

/// Clamps `v` to `lo..=hi`.
pub open spec fn clamp(v: int, lo: int, hi: int) -> int {
    if v < lo {
        lo
    } else if v > hi {
        hi
    } else {
        v
    }
}

/// Where `move_channel` lands: step by `delta` (clamped to the list) until a
/// channel that is not a category, or an end of the list.
pub open spec fn walk(ents: Seq<ChannelResponse>, next: int, delta: int) -> int
    decreases (if delta > 0 {
        ents.len() - 1 - next
    } else {
        next
    }),
{
    let n = clamp(next + delta, 0, ents.len() - 1);
    if ents.len() == 0 || delta == 0 || n < 0 || n >= ents.len() {
        n
    } else if not_category(ents[n]) || n == 0 || n == ents.len() - 1 {
        n
    } else if (delta > 0 && n <= next) || (delta < 0 && n >= next) {
        n
    } else {
        walk(ents, n, delta)
    }
}

pub fn clone_channels(src: &Vec<ChannelResponse>, order: &Vec<usize>) -> (r: Vec<ChannelResponse>)
    requires
        forall|i: int| 0 <= i < order@.len() ==> (#[trigger] order@[i]) < src@.len(),
    ensures
        chs_eqv(r@, pick(src@, order@)),
{
    let mut out: Vec<ChannelResponse> = Vec::new();
    let mut i: usize = 0;
    while i < order.len()
        invariant
            i <= order@.len(),
            forall|k: int| 0 <= k < order@.len() ==> (#[trigger] order@[k]) < src@.len(),
            out@.len() == i,
            forall|k: int| 0 <= k < i ==> #[trigger] out@[k].eqv(&src@[order@[k] as int]),
        decreases order@.len() - i,
    {
        out.push(src[order[i]].clone());
        i = i + 1;
    }
    out
}

impl App {
    /// Every channel of a server in listing order: direct messages newest
    /// first; guild channels without a category, then each category followed
    /// by its channels, by position and name.
    pub fn all_channels_for_server(&self, server: &ServerSelection) -> (r: Vec<ChannelResponse>)
        ensures
            chs_eqv(r@, server_list(self, server_view(*server))),
    {
        match server {
            ServerSelection::DirectMessages => {
                let order = dm_order_exec(&self.private_channels);
                clone_channels(&self.private_channels, &order)
            },
            ServerSelection::Guild(g) => {
                let none: Vec<ChannelResponse> = Vec::new();
                let all = match self.guild_channels.get(g.as_str()) {
                    Some(v) => v,
                    None => &none,
                };
                assert(all@ =~= group_of(self, g@));
                let order = guild_order_exec(all);
                clone_channels(all, &order)
            },
        }
    }

    fn channel_hidden_in_sidebar(&self, channel: &ChannelResponse) -> (r: bool)
        ensures
            r == hidden(self, *channel, opt_str(self.selected_channel_id)),
    {
        let g = match &channel.guild_id {
            Some(g) => g,
            None => {
                return false;
            },
        };
        if !self.hide_muted_channels_enabled(g.as_str()) {
            return false;
        }
        if let Some(sel) = &self.selected_channel_id {
            if str_eq(sel.as_str(), channel.id.as_str()) {
                return false;
            }
        }
        self.channel_is_muted_effective(channel)
    }

    fn category_has_visible_child(&self, guild_id: &str, cat: &ChannelResponse) -> (r: bool)
        ensures
            r == exists|j: int|
                0 <= j < group_of(self, guild_id@).len() && parent_is(
                    #[trigger] group_of(self, guild_id@)[j],
                    Some(cat.id@),
                ) && !hidden(self, group_of(self, guild_id@)[j], opt_str(self.selected_channel_id)),
    {
        let none: Vec<ChannelResponse> = Vec::new();
        let raw = match self.guild_channels.get(guild_id) {
            Some(v) => v,
            None => &none,
        };
        assert(raw@ =~= group_of(self, guild_id@));
        let mut j: usize = 0;
        while j < raw.len()
            invariant
                j <= raw@.len(),
                raw@ == group_of(self, guild_id@),
                forall|k: int|
                    0 <= k < j ==> !(parent_is(#[trigger] raw@[k], Some(cat.id@)) && !hidden(
                        self,
                        raw@[k],
                        opt_str(self.selected_channel_id),
                    )),
            decreases raw@.len() - j,
        {
            let c = &raw[j];
            let is_child = match &c.parent_id {
                Some(p) => str_eq(p.as_str(), cat.id.as_str()),
                None => false,
            };
            if is_child && !self.channel_hidden_in_sidebar(c) {
                return true;
            }
            j = j + 1;
        }
        false
    }

    /// The channels the sidebar lists for a server: all of them, except that
    /// in a guild that hides muted channels the muted ones (other than the
    /// selected one) are left out, and so are categories left without channels.
    pub fn channels_for_server(&self, server: &ServerSelection) -> (r: Vec<ChannelResponse>)
        ensures
            chs_eqv(
                r@,
                entries_list(self, server_view(*server), opt_str(self.selected_channel_id)),
            ),
    {
        let all = self.all_channels_for_server(server);
        let g = match server {
            ServerSelection::DirectMessages => {
                return all;
            },
            ServerSelection::Guild(g) => g,
        };
        if !self.hide_muted_channels_enabled(g.as_str()) {
            return all;
        }
        let ghost sel = opt_str(self.selected_channel_id);
        let ghost p = |c: ChannelResponse| shown(self, g@, sel, c);
        let ghost full = server_list(self, Some(g@));
        let mut visible: Vec<ChannelResponse> = Vec::new();
        let mut i: usize = 0;
        while i < all.len()
            invariant
                i <= all@.len(),
                chs_eqv(all@, full),
                full == server_list(self, Some(g@)),
                sel == opt_str(self.selected_channel_id),
                p == (|c: ChannelResponse| shown(self, g@, sel, c)),
                chs_eqv(visible@, filter_chs(full.take(i as int), p)),
            decreases all@.len() - i,
        {
            let c = &all[i];
            proof {
                assert(full.take(i + 1).drop_last() =~= full.take(i as int));
                assert(full.take(i + 1).last() == full[i as int]);
                assert(all@[i as int].eqv(&full[i as int]));
            }
            let keep = if c.channel_type() == CHANNEL_GUILD_CATEGORY {
                self.category_has_visible_child(g.as_str(), c)
            } else {
                !self.channel_hidden_in_sidebar(c)
            };
            proof {
                let fc = full[i as int];
                assert(c.id == fc.id && c.guild_id == fc.guild_id && c.parent_id == fc.parent_id);
                assert(spec_channel_type(*c) == spec_channel_type(fc));
                assert(channel_muted(self, *c) == channel_muted(self, fc));
                assert(hidden(self, *c, sel) == hidden(self, fc, sel));
                assert(keep == p(fc));
            }
            if keep {
                visible.push(c.clone());
            }
            i = i + 1;
        }
        assert(full.take(all@.len() as int) =~= full);
        visible
    }

    /// The channels listed for the selected server.
    pub fn channel_entries(&self) -> (r: Vec<ChannelResponse>)
        ensures
            chs_eqv(
                r@,
                entries_list(
                    self,
                    server_view(self.selected_server),
                    opt_str(self.selected_channel_id),
                ),
            ),
    {
        self.channels_for_server(&self.selected_server)
    }

    /// Position of the selected channel in the listed channels, 0 when it is not listed.
    pub fn channel_selected_index(&self) -> (r: usize)
        ensures
            ({
                let ents = entries_list(
                    self,
                    server_view(self.selected_server),
                    opt_str(self.selected_channel_id),
                );
                let k = first_idx(
                    ents,
                    |c: ChannelResponse| Some(c.id@) == opt_str(self.selected_channel_id),
                    0,
                );
                r == if k < ents.len() {
                    k
                } else {
                    0
                }
            }),
    {
        let ents = self.channel_entries();
        let ghost full = entries_list(
            self,
            server_view(self.selected_server),
            opt_str(self.selected_channel_id),
        );
        let ghost p = |c: ChannelResponse| Some(c.id@) == opt_str(self.selected_channel_id);
        let mut i: usize = 0;
        while i < ents.len()
            invariant
                i <= ents@.len(),
                chs_eqv(ents@, full),
                full == entries_list(
                    self,
                    server_view(self.selected_server),
                    opt_str(self.selected_channel_id),
                ),
                p == (|c: ChannelResponse| Some(c.id@) == opt_str(self.selected_channel_id)),
                forall|k: int| 0 <= k < i ==> !p(#[trigger] full[k]),
            decreases ents@.len() - i,
        {
            assert(ents@[i as int].eqv(&full[i as int]));
            let m = match &self.selected_channel_id {
                Some(s) => str_eq(ents[i].id.as_str(), s.as_str()),
                None => false,
            };
            if m {
                proof {
                    assert(p(full[i as int]));
                    lemma_first_idx_is(full, p, 0, i as int);
                }
                return i;
            }
            i = i + 1;
        }
        proof {
            lemma_first_idx_is(full, p, 0, full.len() as int);
        }
        0
    }

    /// Direct messages, then each guild, in order.
    pub fn server_entries(&self) -> (r: Vec<ServerSelection>)
        ensures
            r@.len() == self.guilds@.len() + 1,
            r@[0] == ServerSelection::DirectMessages,
            forall|i: int|
                0 <= i < self.guilds@.len() ==> #[trigger] r@[i + 1] == ServerSelection::Guild(
                    self.guilds@[i].id,
                ),
    {
        let mut entries: Vec<ServerSelection> = Vec::new();
        entries.push(ServerSelection::DirectMessages);
        let mut i: usize = 0;
        while i < self.guilds.len()
            invariant
                i <= self.guilds@.len(),
                entries@.len() == i + 1,
                entries@[0] == ServerSelection::DirectMessages,
                forall|k: int|
                    0 <= k < i ==> #[trigger] entries@[k + 1] == ServerSelection::Guild(
                        self.guilds@[k].id,
                    ),
            decreases self.guilds@.len() - i,
        {
            entries.push(ServerSelection::Guild(self.guilds[i].id.clone()));
            i = i + 1;
        }
        entries
    }

    /// Position of the selected server in the server list, 0 when it is not there.
    pub fn server_selected_index(&self) -> (r: usize)
        ensures
            server_view(self.selected_server) is None ==> r == 0,
            server_view(self.selected_server) matches Some(g) ==> {
                let k = crate::settings::guild_index(self.guilds@, g);
                r == if k < self.guilds@.len() {
                    k + 1
                } else {
                    0
                }
            },
    {
        match &self.selected_server {
            ServerSelection::DirectMessages => 0,
            ServerSelection::Guild(g) => {
                let ghost p = |x: GuildResponse| x.id@ == g@;
                let mut i: usize = 0;
                while i < self.guilds.len()
                        invariant
                        i <= self.guilds@.len(),
                        self.selected_server == ServerSelection::Guild(*g),
                        p == (|x: GuildResponse| x.id@ == g@),
                        forall|k: int| 0 <= k < i ==> !p(#[trigger] self.guilds@[k]),
                    decreases self.guilds@.len() - i,
                {
                    if str_eq(self.guilds[i].id.as_str(), g.as_str()) {
                        proof {
                            lemma_first_idx_is(self.guilds@, p, 0, i as int);
                            assert(crate::settings::guild_index(self.guilds@, g@) == i);
                        }
                        return i + 1;
                    }
                    i = i + 1;
                }
                proof {
                    lemma_first_idx_is(self.guilds@, p, 0, self.guilds@.len() as int);
                    assert(crate::settings::guild_index(self.guilds@, g@) == self.guilds@.len());
                }
                0
            },
        }
    }

    /// Whether a guild with this id is known.
    fn guild_known(&self, g: &str) -> (r: bool)
        ensures
            r == has_guild(self.guilds@, g@),
    {
        let mut i: usize = 0;
        while i < self.guilds.len()
            invariant
                i <= self.guilds@.len(),
                forall|k: int| 0 <= k < i ==> #[trigger] self.guilds@[k].id@ != g@,
            decreases self.guilds@.len() - i,
        {
            if str_eq(self.guilds[i].id.as_str(), g) {
                return true;
            }
            i = i + 1;
        }
        false
    }

    /// Keeps the selection valid: an unknown guild falls back to direct
    /// messages, and a channel that is not listed falls back to the first
    /// listed channel that is not a category (none when the list is empty).
    pub fn normalize_selection(&mut self)
        ensures
            *final(self) == normalized(old(self)),
    {
        let in_list = match &self.selected_server {
            ServerSelection::DirectMessages => true,
            ServerSelection::Guild(g) => self.guild_known(g.as_str()),
        };
        if !in_list {
            self.selected_server = ServerSelection::DirectMessages;
        }
        let ghost mid = *self;
        assert(mid.selected_server == norm_server(old(self), old(self).selected_server));
        let channels = self.channel_entries();
        let ghost ents = entries_list(
            &mid,
            server_view(mid.selected_server),
            opt_str(mid.selected_channel_id),
        );
        if channels.len() == 0 {
            self.selected_channel_id = None;
            return ;
        }
        let exists_sel = match &self.selected_channel_id {
            Some(sel) => listed(&channels, Ghost(ents), sel.as_str()),
            None => false,
        };
        if !exists_sel {
            let i = first_non_category(&channels, Ghost(ents));
            self.selected_channel_id = if i < channels.len() {
                Some(channels[i].id.clone())
            } else {
                None
            };
            self.message_scroll_from_bottom = 0;
        }
    }
}

/// Whether a channel with this id is in the list.
fn listed(channels: &Vec<ChannelResponse>, Ghost(ents): Ghost<Seq<ChannelResponse>>, sel: &str) -> (r: bool)
    requires
        chs_eqv(channels@, ents),
    ensures
        r == exists|k: int| 0 <= k < ents.len() && Some(#[trigger] ents[k].id@) == Some(sel@),
{
    let mut i: usize = 0;
    while i < channels.len()
        invariant
            i <= channels@.len(),
            chs_eqv(channels@, ents),
            forall|k: int| 0 <= k < i ==> Some(#[trigger] ents[k].id@) != Some(sel@),
        decreases channels@.len() - i,
    {
        assert(channels@[i as int].eqv(&ents[i as int]));
        if str_eq(channels[i].id.as_str(), sel) {
            return true;
        }
        i = i + 1;
    }
    false
}

/// Position of the first channel that is not a category, or the length.
fn first_non_category(channels: &Vec<ChannelResponse>, Ghost(ents): Ghost<Seq<ChannelResponse>>) -> (r: usize)
    requires
        chs_eqv(channels@, ents),
    ensures
        r == first_idx(ents, |c: ChannelResponse| not_category(c), 0),
        r <= channels@.len(),
        r < channels@.len() ==> channels@[r as int].id == ents[r as int].id,
{
    let ghost p = |c: ChannelResponse| not_category(c);
    let mut i: usize = 0;
    while i < channels.len() && channels[i].channel_type() == CHANNEL_GUILD_CATEGORY
        invariant
            i <= channels@.len(),
            chs_eqv(channels@, ents),
            p == (|c: ChannelResponse| not_category(c)),
            forall|k: int| 0 <= k < i ==> !p(#[trigger] ents[k]),
        decreases channels@.len() - i,
    {
        assert(channels@[i as int].eqv(&ents[i as int]));
        i = i + 1;
    }
    proof {
        if i < channels@.len() {
            assert(channels@[i as int].eqv(&ents[i as int]));
        }
        lemma_first_idx_is(ents, p, 0, i as int);
    }
    i
}

} // verus!
