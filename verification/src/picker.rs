//! The quick channel switcher: its rows, filtering them by a query, moving
//! through them and jumping to one; and confirming a reaction picked from
//! the emoji list.
use crate::app::{opt_str, server_view, App, ChannelPicker, PickerEntry, ServerSelection};
use crate::channels::{chs_eqv, entries_list, normalized, text_like};
use crate::names::{picker_channel_line, picker_line_spec, reaction_api_spec, take_chars, encode_reaction_for_api};
use crate::settings::guild_index;
use crate::text::{blank, concat, contains, is_blank, lowercase, owned, str_contains, str_eq, take, to_lowercase};
use crate::types::{spec_channel_type, ChannelResponse, GuildResponse, CHANNEL_GUILD_CATEGORY};
use vstd::prelude::*;

verus! {

/// A picker row as the logic reads it: the server, the channel id and the label.
pub open spec fn row_view(e: PickerEntry) -> (Option<Seq<char>>, Seq<char>, Seq<char>) {
    (server_view(e.server), e.channel_id@, e.label@)
}

/// The servers in list order: direct messages, then each guild.
pub open spec fn servers_of(a: &App) -> Seq<ServerSelection> {
    Seq::new(
        a.guilds@.len() + 1,
        |i: int|
            if i == 0 {
                ServerSelection::DirectMessages
            } else {
                ServerSelection::Guild(a.guilds@[i - 1].id)
            },
    )
}

/// How a server is named in picker rows: "Direct messages", the guild's
/// name, or "guild " and the first eight characters of its id when the
/// guild is unknown or its name is blank.
pub open spec fn server_label(gs: Seq<GuildResponse>, s: Option<Seq<char>>) -> Seq<char> {
    match s {
        None => "Direct messages"@,
        Some(g) => {
            let k = guild_index(gs, g);
            if k < gs.len() && !is_blank(gs[k].name@) {
                gs[k].name@
            } else {
                "guild "@ + take(g, 8)
            }
        },
    }
}

/// Whether a channel can be jumped to: a text-like channel, not a category.
pub open spec fn pickable(ch: ChannelResponse) -> bool {
    spec_channel_type(ch) != CHANNEL_GUILD_CATEGORY && text_like(spec_channel_type(ch))
}

/// The rows for the channels `chs` of server `s`, in order.
pub open spec fn rows_of(gs: Seq<GuildResponse>, s: Option<Seq<char>>, chs: Seq<ChannelResponse>) -> Seq<
    (Option<Seq<char>>, Seq<char>, Seq<char>),
>
    decreases chs.len(),
{
    if chs.len() == 0 {
        Seq::empty()
    } else {
        let ch = chs.last();
        let before = rows_of(gs, s, chs.drop_last());
        if pickable(ch) {
            before.push((s, ch.id@, picker_line_spec(ch) + " · "@ + server_label(gs, s)))
        } else {
            before
        }
    }
}

/// All picker rows: for each server in turn, its sidebar channels that can be jumped to.
pub open spec fn picker_rows(a: &App, servers: Seq<ServerSelection>) -> Seq<(Option<Seq<char>>, Seq<char>, Seq<char>)>
    decreases servers.len(),
{
    if servers.len() == 0 {
        Seq::empty()
    } else {
        let s = server_view(servers.last());
        picker_rows(a, servers.drop_last()) + rows_of(
            a.guilds@,
            s,
            entries_list(a, s, opt_str(a.selected_channel_id)),
        )
    }
}

/// The positions of the rows whose label holds the query, ignoring case
/// (all rows for an empty query), among the first `n`.
pub open spec fn matching_rows(labels: Seq<Seq<char>>, q: Seq<char>, n: int) -> Seq<usize>
    decreases n,
{
    if n <= 0 {
        Seq::empty()
    } else if q.len() == 0 || contains(lowercase(labels[n - 1]), q) {
        matching_rows(labels, q, n - 1).push((n - 1) as usize)
    } else {
        matching_rows(labels, q, n - 1)
    }
}

/// The labels of the picker's rows.
pub open spec fn labels_of(es: Seq<PickerEntry>) -> Seq<Seq<char>> {
    es.map_values(|e: PickerEntry| e.label@)
}

proof fn lemma_rows_eqv(gs: Seq<GuildResponse>, s: Option<Seq<char>>, c1: Seq<ChannelResponse>, c2: Seq<ChannelResponse>)
    requires
        chs_eqv(c1, c2),
    ensures
        rows_of(gs, s, c1) == rows_of(gs, s, c2),
    decreases c1.len(),
{
    if c1.len() > 0 {
        assert(chs_eqv(c1.drop_last(), c2.drop_last())) by {
            assert forall|i: int| 0 <= i < c1.drop_last().len() implies #[trigger] c1.drop_last()[i].eqv(
                &c2.drop_last()[i],
            ) by {
                assert(c1[i].eqv(&c2[i]));
            }
        }
        lemma_rows_eqv(gs, s, c1.drop_last(), c2.drop_last());
        assert(c1.last().eqv(&c2.last()));
    }
}

/// The label of a server in picker rows; see `server_label`.
#[verifier::loop_isolation(false)]
fn server_label_exec(guilds: &Vec<GuildResponse>, s: &ServerSelection) -> (r: String)
    ensures
        r@ == server_label(guilds@, server_view(*s)),
{
    match s {
        ServerSelection::DirectMessages => owned("Direct messages"),
        ServerSelection::Guild(gid) => {
            let mut i: usize = 0;
            while i < guilds.len()
                invariant
                    i <= guilds@.len(),
                    guild_index(guilds@, gid@) == crate::seqs::first_idx(
                        guilds@,
                        |g: GuildResponse| g.id@ == gid@,
                        i as int,
                    ),
                decreases guilds@.len() - i,
            {
                if str_eq(guilds[i].id.as_str(), gid.as_str()) {
                    if !blank(guilds[i].name.as_str()) {
                        return guilds[i].name.clone();
                    }
                    return concat("guild ", take_chars(gid.as_str(), 8).as_str());
                }
                i = i + 1;
            }
            concat("guild ", take_chars(gid.as_str(), 8).as_str())
        },
    }
}

/// `b` is `a` with the switcher on its previous row.
pub open spec fn picker_back(a: &App, b: &App) -> bool {
    &&& match a.channel_picker {
                    Some(p) => if p.filtered@.len() == 0 {
                        *b == *a
                    } else {
                        *b == (App {
                            channel_picker: Some(
                                ChannelPicker {
                                    selected: ((p.selected + p.filtered@.len() - 1) % (p.filtered@.len() as int)) as usize,
                                    ..p
                                },
                            ),
                            ..*a
                        })
                    },
                    None => *b == *a,
                }
}

/// `b` is `a` with the switcher on its next row.
pub open spec fn picker_forward(a: &App, b: &App) -> bool {
    &&& match a.channel_picker {
                    Some(p) => if p.filtered@.len() == 0 {
                        *b == *a
                    } else {
                        *b == (App {
                            channel_picker: Some(
                                ChannelPicker { selected: ((p.selected + 1) % (p.filtered@.len() as int)) as usize, ..p },
                            ),
                            ..*a
                        })
                    },
                    None => *b == *a,
                }
}

/// `b` is `a` with the switcher's rows filtered by its query.
pub open spec fn picker_filtered(a: &App, b: &App) -> bool {
    &&& a.channel_picker is None ==> *b == *a
    &&& a.channel_picker matches Some(p) ==> b.channel_picker matches Some(np) && {
                    let f = matching_rows(labels_of(p.entries@), lowercase(p.query@), p.entries@.len() as int);
                    &&& *b == (App { channel_picker: b.channel_picker, ..*a })
                    &&& np == (ChannelPicker { filtered: np.filtered, selected: np.selected, ..p })
                    &&& np.filtered@ == f
                    &&& np.selected == (if f.len() == 0 {
                        0
                    } else if p.selected < f.len() {
                        p.selected
                    } else {
                        (f.len() - 1) as usize
                    })
                }
}

/// `b` is `a` with the switcher open on all its rows.
pub open spec fn picker_opened(a: &App, b: &App) -> bool {
    &&& b.channel_picker matches Some(p) && {
                    &&& *b == (App { channel_picker: b.channel_picker, ..*a })
                    &&& p.query@.len() == 0
                    &&& p.entries@.map_values(|e: PickerEntry| row_view(e)) == picker_rows(a, servers_of(a))
                    &&& p.filtered@ == Seq::new(p.entries@.len(), |i: int| i as usize)
                    &&& p.selected == 0
                }
}

/// `b` is `a` after jumping to the switcher's selected row, `r` telling whether there was one.
pub open spec fn picker_confirmed(a: &App, b: &App, r: bool) -> bool {
    &&& ({
                    let ok = (a.channel_picker matches Some(p) && p.selected < p.filtered@.len()
                        && p.filtered@[p.selected as int] < p.entries@.len());
                    &&& r == ok
                    &&& !ok ==> *b == *a
                    &&& ok ==> {
                        let p = a.channel_picker->0;
                        let e = p.entries@[p.filtered@[p.selected as int] as int];
                        exists|ch: String|
                            #[trigger] ch@ == e.channel_id@ && *b == normalized(
                                &App {
                                    selected_server: e.server,
                                    selected_channel_id: Some(ch),
                                    channel_picker: None,
                                    message_scroll_from_bottom: 0,
                                    selected_message_index: None,
                                    ..*a
                                },
                            )
                    }
                })
}

impl App {
    /// Opens the channel switcher with every row (see `picker_rows`), an
    /// empty query and the first row selected.
    pub fn open_channel_picker(&mut self)
        ensures
            picker_opened(old(self), final(self)),
    {
        let servers = self.server_entries();
        assert forall|k: int| 0 <= k < servers@.len() implies #[trigger] servers@[k] == servers_of(self)[k] by {
            if k > 0 {
                assert(servers@[(k - 1) + 1] == ServerSelection::Guild(self.guilds@[k - 1].id));
            }
        }
        assert(servers@ =~= servers_of(self));
        let mut entries: Vec<PickerEntry> = Vec::new();
        let mut i: usize = 0;
        while i < servers.len()
            invariant
                i <= servers@.len(),
                servers@ == servers_of(self),
                entries@.map_values(|e: PickerEntry| row_view(e)) == picker_rows(self, servers@.take(i as int)),
            decreases servers@.len() - i,
        {
            let server = &servers[i];
            let server_name = server_label_exec(&self.guilds, server);
            let chs = self.channels_for_server(server);
            let ghost base = entries@.map_values(|e: PickerEntry| row_view(e));
            let mut j: usize = 0;
            while j < chs.len()
                invariant
                    j <= chs@.len(),
                    server_name@ == server_label(self.guilds@, server_view(*server)),
                    entries@.map_values(|e: PickerEntry| row_view(e)) == base + rows_of(
                        self.guilds@,
                        server_view(*server),
                        chs@.take(j as int),
                    ),
                decreases chs@.len() - j,
            {
                let ch = &chs[j];
                let t = ch.channel_type();
                assert(chs@.take(j + 1).drop_last() =~= chs@.take(j as int));
                assert(chs@.take(j + 1).last() == *ch);
                if t != CHANNEL_GUILD_CATEGORY && (t == crate::types::CHANNEL_GUILD_TEXT || t == crate::types::CHANNEL_DM || t
                    == crate::types::CHANNEL_GROUP_DM || t == crate::types::CHANNEL_DM_PERSONAL_NOTES || t
                    == crate::types::CHANNEL_GUILD_LINK) {
                    let line = picker_channel_line(ch);
                    let with_dot = concat(line.as_str(), " · ");
                    let label = concat(with_dot.as_str(), server_name.as_str());
                    let ghost before = entries@;
                    entries.push(PickerEntry { server: server.clone(), channel_id: ch.id.clone(), label });
                    assert(entries@.map_values(|e: PickerEntry| row_view(e)) =~= before.map_values(
                        |e: PickerEntry| row_view(e),
                    ).push(row_view(entries@.last())));
                }
                j = j + 1;
            }
            proof {
                assert(chs@.take(chs@.len() as int) =~= chs@);
                lemma_rows_eqv(
                    self.guilds@,
                    server_view(*server),
                    chs@,
                    entries_list(self, server_view(*server), opt_str(self.selected_channel_id)),
                );
                assert(servers@.take(i + 1).drop_last() =~= servers@.take(i as int));
                assert(servers@.take(i + 1).last() == *server);
            }
            i = i + 1;
        }
        assert(servers@.take(servers@.len() as int) =~= servers@);
        let n = entries.len();
        let filtered = crate::order::range_vec(n);
        assert(filtered@ =~= Seq::new(n as nat, |k: int| k as usize));
        self.channel_picker = Some(ChannelPicker { query: String::new(), entries, filtered, selected: 0 });
    }

    /// Keeps the rows whose label holds the query, ignoring case, and keeps
    /// the selection within them.
    pub fn filter_channel_picker(&mut self)
        ensures
            picker_filtered(old(self), final(self)),
    {
        let mut p = match self.channel_picker.take() {
            Some(p) => p,
            None => {
                return;
            },
        };
        let q = to_lowercase(p.query.as_str());
        let mut filtered: Vec<usize> = Vec::new();
        let mut i: usize = 0;
        while i < p.entries.len()
            invariant
                i <= p.entries@.len(),
                q@ == lowercase(p.query@),
                filtered@ == matching_rows(labels_of(p.entries@), q@, i as int),
            decreases p.entries@.len() - i,
        {
            let keep = if q.as_str().is_empty() {
                true
            } else {
                let l = to_lowercase(p.entries[i].label.as_str());
                str_contains(l.as_str(), q.as_str())
            };
            assert(labels_of(p.entries@)[i as int] == p.entries@[i as int].label@);
            if keep {
                filtered.push(i);
            }
            i = i + 1;
        }
        p.filtered = filtered;
        if p.filtered.len() == 0 {
            p.selected = 0;
        } else if p.selected >= p.filtered.len() {
            p.selected = p.filtered.len() - 1;
        }
        self.channel_picker = Some(p);
    }

    /// Selects the previous row, wrapping around.
    pub fn channel_picker_prev(&mut self)
        ensures
            picker_back(old(self), final(self)),
    {
        let mut p = match self.channel_picker.take() {
            Some(p) => p,
            None => {
                return;
            },
        };
        if p.filtered.len() > 0 {
            let n = p.filtered.len();
            let s = p.selected % n;
            p.selected = if s == 0 {
                n - 1
            } else {
                s - 1
            };
            proof {
                assert((old(self).channel_picker->0.selected + n - 1) % (n as int) == p.selected) by {
                    let a = old(self).channel_picker->0.selected as int;
                    vstd::arithmetic::div_mod::lemma_fundamental_div_mod(a, n as int);
                    vstd::arithmetic::div_mod::lemma_mod_multiples_vanish(a / (n as int), a % (n as int) + n - 1, n as int);
                    vstd::arithmetic::div_mod::lemma_mod_bound(a, n as int);
                    if a % (n as int) == 0 {
                        vstd::arithmetic::div_mod::lemma_small_mod((n - 1) as nat, n as nat);
                    } else {
                        vstd::arithmetic::div_mod::lemma_mod_multiples_vanish(1, a % (n as int) - 1, n as int);
                        vstd::arithmetic::div_mod::lemma_small_mod((a % (n as int) - 1) as nat, n as nat);
                    }
                }
            }
        }
        self.channel_picker = Some(p);
    }

    /// Selects the next row, wrapping around.
    pub fn channel_picker_next(&mut self)
        ensures
            picker_forward(old(self), final(self)),
    {
        let mut p = match self.channel_picker.take() {
            Some(p) => p,
            None => {
                return;
            },
        };
        if p.filtered.len() > 0 {
            let n = p.filtered.len();
            let s = p.selected % n;
            p.selected = if s + 1 == n {
                0
            } else {
                s + 1
            };
            proof {
                assert((old(self).channel_picker->0.selected + 1) % (n as int) == p.selected) by {
                    let a = old(self).channel_picker->0.selected as int;
                    vstd::arithmetic::div_mod::lemma_fundamental_div_mod(a, n as int);
                    vstd::arithmetic::div_mod::lemma_mod_multiples_vanish(a / (n as int), a % (n as int) + 1, n as int);
                    vstd::arithmetic::div_mod::lemma_mod_bound(a, n as int);
                    if a % (n as int) + 1 == n {
                        vstd::arithmetic::div_mod::lemma_mod_self_0(n as int);
                    } else {
                        vstd::arithmetic::div_mod::lemma_small_mod((a % (n as int) + 1) as nat, n as nat);
                    }
                }
            }
        }
        self.channel_picker = Some(p);
    }

    /// Jumps to the selected row's channel: selects its server and channel,
    /// closes the switcher, scrolls to the bottom with no message selected,
    /// and normalizes the selection. False when no row is selected.
    pub fn channel_picker_confirm(&mut self) -> (r: bool)
        ensures
            picker_confirmed(old(self), final(self), r),
    {
        let (server, ch) = match &self.channel_picker {
            Some(p) => {
                if p.selected >= p.filtered.len() {
                    return false;
                }
                let ei = p.filtered[p.selected];
                if ei >= p.entries.len() {
                    return false;
                }
                (p.entries[ei].server.clone(), p.entries[ei].channel_id.clone())
            },
            None => {
                return false;
            },
        };
        let ghost c0 = ch;
        self.selected_server = server;
        self.selected_channel_id = Some(ch);
        self.channel_picker = None;
        self.message_scroll_from_bottom = 0;
        self.selected_message_index = None;
        let ghost before = *self;
        self.normalize_selection();
        assert(before == (App {
            selected_server: before.selected_server,
            selected_channel_id: Some(c0),
            channel_picker: None,
            message_scroll_from_bottom: 0,
            selected_message_index: None,
            ..*old(self)
        }));
        true
    }

    /// Closes the channel switcher.
    pub fn dismiss_channel_picker(&mut self)
        ensures
            *final(self) == (App { channel_picker: None, ..*old(self) }),
    {
        self.channel_picker = None;
    }

    /// Confirms the reaction picked from the emoji list for the message it
    /// targets: returns the channel, the message and the emoji as the API
    /// takes it, and closes the list, the target and the input. `None` (and
    /// no change) without a target or a picked emoji.
    pub fn confirm_reaction_emoji(&mut self) -> (r: Option<(String, String, String)>)
        ensures
            ({
                let ok = old(self).reaction_target is Some && (old(self).emoji_autocomplete matches Some(au)
                    && au.selected_index < au.matches@.len());
                &&& r is Some == ok
                &&& !ok ==> *final(self) == *old(self)
                &&& ok ==> {
                    let t = old(self).reaction_target->0;
                    let au = old(self).emoji_autocomplete->0;
                    &&& r matches Some(x) && x.0@ == t.0@ && x.1@ == t.1@ && x.2@ == reaction_api_spec(
                        au.matches@[au.selected_index as int].insert@,
                    )
                    &&& *final(self) == (App {
                        reaction_target: None,
                        emoji_autocomplete: None,
                        input: final(self).input,
                        ..*old(self)
                    })
                    &&& final(self).input@.len() == 0
                }
            }),
    {
        let (ch_id, msg_id) = match &self.reaction_target {
            Some(t) => (t.0.clone(), t.1.clone()),
            None => {
                return None;
            },
        };
        let api = match &self.emoji_autocomplete {
            Some(au) => {
                if au.selected_index >= au.matches.len() {
                    return None;
                }
                encode_reaction_for_api(au.matches[au.selected_index].insert.as_str())
            },
            None => {
                return None;
            },
        };
        self.reaction_target = None;
        self.emoji_autocomplete = None;
        self.input = String::new();
        Some((ch_id, msg_id, api))
    }
}

} // verus!
