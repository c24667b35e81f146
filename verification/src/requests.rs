//! Which requests to the server the client starts, and when: loading what
//! the open guild and channel need, older history, members for mentions,
//! and marking a channel read when leaving it.
use crate::app::{opt_str, server_view, App};
use crate::caches::backoff_key;
use crate::channels::{active_spec, text_like};
use crate::markdown::active_guild;
use crate::messages::msgs_of;
use crate::reads::{last_message_of, mention_of, unread_spec};
use crate::text::concat;
use crate::types::spec_channel_type;
use vstd::prelude::*;

verus! {

/// A request for the front end to send.
#[derive(Debug)]
pub enum FetchRequest {
    GuildChannels { guild_id: String },
    GuildEmojis { guild_id: String },
    GuildRoles { guild_id: String },
    GuildMembers { guild_id: String },
    Messages { channel_id: String },
    OlderMessages { channel_id: String, before: String },
    Ack { channel_id: String, message_id: String },
}

/// Whether requests of a kind for an id are not being held back at the state's clock.
pub open spec fn may_try(a: &App, kind: Seq<char>, id: Seq<char>) -> bool {
    let k = backoff_key(kind, id);
    !a.api_backoff_until@.dom().contains(k) || a.clock >= a.api_backoff_until@[k]
}

fn can_try(app: &App, kind: &str, id: &str) -> (r: bool)
    ensures
        r == may_try(app, kind@, id@),
{
    app.api_backoff_can_try(concat(kind, id).as_str())
}

/// Whether leaving channel `c` marks it read: it is unread or mentions the user.
pub open spec fn ack_due(a: &App, c: Seq<char>) -> bool {
    unread_spec(a, c) || mention_of(a, c) > 0
}

/// The guild to load members for so mentions can be offered, and whether
/// a load is under way: in the open channel's guild, unless its members are
/// synced or held back.
pub open spec fn member_fetch(a: &App) -> (bool, Option<Seq<char>>) {
    match active_guild(a) {
        None => (false, None),
        Some(g) => if a.guild_members_synced@.contains(g) || !may_try(a, "members:"@, g) {
            (false, None)
        } else if a.loading_members@.contains(g) {
            (true, None)
        } else {
            (true, Some(g))
        },
    }
}

/// Whether older history of the open channel can be asked for: a text
/// channel not exhausted and not loading, with messages stored.
pub open spec fn older_due(a: &App) -> Option<(Seq<char>, Seq<char>)> {
    match a.selected_channel_id {
        None => None,
        Some(c) => if !(active_spec(a) matches Some(ch) && text_like(spec_channel_type(ch))) || a.messages_older_exhausted@.contains(
            c@,
        ) || a.loading_older_messages@.contains(c@) || a.loading_messages@.contains(c@) || msgs_of(a, c@).len()
            == 0 {
            None
        } else {
            Some((c@, msgs_of(a, c@)[0].id@))
        },
    }
}

/// The guilds (among the first `n`) whose channels are to be loaded: not
/// stored, not loading, not held back, each once.
pub open spec fn channel_fetches(a: &App, n: int) -> Seq<Seq<char>>
    decreases n,
{
    if n <= 0 {
        Seq::empty()
    } else {
        let prev = channel_fetches(a, n - 1);
        let g = a.guilds@[n - 1].id@;
        if !a.guild_channels@.dom().contains(g) && may_try(a, "channels:"@, g) && !a.loading_channels@.contains(g)
            && !prev.contains(g) {
            prev.push(g)
        } else {
            prev
        }
    }
}

/// The guild whose emojis, roles and members the open view needs: the open
/// channel's, else the selected one.
pub open spec fn view_guild(a: &App) -> Option<Seq<char>> {
    match active_guild(a) {
        Some(g) => Some(g),
        None => server_view(a.selected_server),
    }
}

/// What the view needs loaded besides guild channels: the view guild's
/// emojis, roles and members, and the open text channel's messages, each
/// when not stored (or synced, or refused), not loading, not held back.
pub open spec fn view_fetches(a: &App) -> (bool, bool, bool, bool) {
    let (e, r, m) = match view_guild(a) {
        Some(g) => (
            !a.guild_emojis@.dom().contains(g) && may_try(a, "emojis:"@, g) && !a.loading_emojis@.contains(g),
            !a.guild_roles@.dom().contains(g) && !a.guild_roles_forbidden@.contains(g) && may_try(a, "roles:"@, g)
                && !a.loading_roles@.contains(g),
            !a.guild_members_synced@.contains(g) && !a.loading_members@.contains(g) && may_try(a, "members:"@, g),
        ),
        None => (false, false, false),
    };
    let msg = match a.selected_channel_id {
        Some(c) => (active_spec(a) matches Some(ch) && text_like(spec_channel_type(ch))) && !a.messages@.dom().contains(
            c@,
        ) && may_try(a, "messages:"@, c@) && !a.loading_messages@.contains(c@),
        None => false,
    };
    (e, r, m, msg)
}

/// The requests in the order they go out.
pub open spec fn fetches_view(rs: Seq<FetchRequest>) -> Seq<(int, Seq<char>)> {
    rs.map_values(
        |r: FetchRequest|
            match r {
                FetchRequest::GuildChannels { guild_id } => (0int, guild_id@),
                FetchRequest::GuildEmojis { guild_id } => (1int, guild_id@),
                FetchRequest::GuildRoles { guild_id } => (2int, guild_id@),
                FetchRequest::GuildMembers { guild_id } => (3int, guild_id@),
                FetchRequest::Messages { channel_id } => (4int, channel_id@),
                FetchRequest::OlderMessages { channel_id, .. } => (5int, channel_id@),
                FetchRequest::Ack { channel_id, .. } => (6int, channel_id@),
            },
    )
}

/// Tagged ids for a request kind.
pub open spec fn tagged(tag: int, ids: Seq<Seq<char>>) -> Seq<(int, Seq<char>)> {
    ids.map_values(|g: Seq<char>| (tag, g))
}

/// The requests the view needs now, in order: guild channels (see
/// `channel_fetches`), then the view guild's emojis, roles and members, then
/// the open channel's messages (see `view_fetches`).
pub open spec fn needed(a: &App) -> Seq<(int, Seq<char>)> {
    let (e, r, m, msg) = view_fetches(a);
    let g = view_guild(a)->0;
    tagged(0, channel_fetches(a, a.guilds@.len() as int)) + (if e {
        seq![(1int, g)]
    } else {
        Seq::empty()
    }) + (if r {
        seq![(2int, g)]
    } else {
        Seq::empty()
    }) + (if m {
        seq![(3int, g)]
    } else {
        Seq::empty()
    }) + (if msg {
        seq![(4int, a.selected_channel_id->0@)]
    } else {
        Seq::empty()
    })
}

impl App {
    /// Marks channel `channel_id` read when leaving it, if it is unread or
    /// mentions the user; returns the acknowledgement to send when the
    /// channel has a last message.
    pub fn ack_channel_if_unread(&mut self, channel_id: Option<&str>) -> (r: Option<(String, String)>)
        ensures
            match channel_id {
                Some(c) if ack_due(old(self), c@) => {
                    &&& match r {
                        Some((x, m)) => x@ == c@ && last_message_of(old(self), c@) == Some(m@),
                        None => last_message_of(old(self), c@) is None,
                    }
                    &&& (last_message_of(old(self), c@) is None ==> *final(self) == *old(self))
                    &&& (last_message_of(old(self), c@) is Some ==> crate::reads::reads_set(
                        old(self),
                        final(self),
                        c@,
                        (last_message_of(old(self), c@), 0),
                    ))
                },
                _ => r is None && *final(self) == *old(self),
            },
    {
        let c = match channel_id {
            Some(c) => c,
            None => {
                return None;
            },
        };
        if !(self.channel_is_unread(c) || self.channel_mention_count(c) > 0) {
            return None;
        }
        let ack = match self.channel_last_message_id(c) {
            Some(m) => Some((crate::text::owned(c), m)),
            None => None,
        };
        self.ack_channel(c);
        ack
    }

    /// Makes sure members of the open channel's guild load so mentions can
    /// be offered; returns whether a load is under way and the guild to load,
    /// marking it loading. See `member_fetch`.
    pub fn schedule_guild_members_fetch_for_mentions(&mut self) -> (r: (bool, Option<String>))
        ensures
            r.0 == member_fetch(old(self)).0,
            opt_str(r.1) == member_fetch(old(self)).1,
            r.1 is None ==> *final(self) == *old(self),
            r.1 matches Some(g) ==> *final(self) == (App { loading_members: final(self).loading_members, ..*old(self) })
                && final(self).loading_members@ == old(self).loading_members@.insert(g@),
    {
        let g = match self.guild_id_for_active_channel() {
            Some(g) => g,
            None => {
                return (false, None);
            },
        };
        if self.guild_members_synced.contains(g.as_str()) {
            return (false, None);
        }
        if !can_try(self, "members:", g.as_str()) {
            return (false, None);
        }
        if self.loading_members.contains(g.as_str()) {
            return (true, None);
        }
        let _ = self.loading_members.insert(g.clone());
        (true, Some(g))
    }

    /// Asks for the open channel's older history when it can be (see
    /// `older_due`), marking it loading; returns the channel and the oldest
    /// stored message id to load before.
    pub fn try_load_older_messages(&mut self) -> (r: Option<(String, String)>)
        ensures
            match (r, older_due(old(self))) {
                (Some((c, m)), Some((c2, m2))) => c@ == c2 && m@ == m2 && *final(self) == (App {
                    loading_older_messages: final(self).loading_older_messages,
                    ..*old(self)
                }) && final(self).loading_older_messages@ == old(self).loading_older_messages@.insert(c@),
                (None, None) => *final(self) == *old(self),
                _ => false,
            },
    {
        let c = match self.active_channel_id() {
            Some(c) => c,
            None => {
                return None;
            },
        };
        if !self.active_channel_is_text() {
            return None;
        }
        if self.messages_older_exhausted.contains(c.as_str()) {
            return None;
        }
        if self.loading_older_messages.contains(c.as_str()) || self.loading_messages.contains(c.as_str()) {
            return None;
        }
        let oldest = match self.active_oldest_message_id() {
            Some(o) => o,
            None => {
                return None;
            },
        };
        let _ = self.loading_older_messages.insert(c.clone());
        Some((c, oldest))
    }

    /// Asks for older history when the view is scrolled near the top; see `try_load_older_messages`.
    pub fn maybe_auto_load_older_messages(&mut self) -> (r: Option<(String, String)>)
        ensures
            !crate::lifecycle::near_top(old(self).message_scroll_max, old(self).message_scroll_from_bottom) ==> r is None
                && *final(self) == *old(self),
            crate::lifecycle::near_top(old(self).message_scroll_max, old(self).message_scroll_from_bottom) ==> match (
                r,
                older_due(old(self)),
            ) {
                (Some((c, m)), Some((c2, m2))) => c@ == c2 && m@ == m2 && *final(self) == (App {
                    loading_older_messages: final(self).loading_older_messages,
                    ..*old(self)
                }) && final(self).loading_older_messages@ == old(self).loading_older_messages@.insert(c@),
                (None, None) => *final(self) == *old(self),
                _ => false,
            },
    {
        if self.should_auto_load_history_on_scroll_up() {
            self.try_load_older_messages()
        } else {
            None
        }
    }

    /// The requests the view needs now (see `needed`), each marked loading.
    #[verifier::rlimit(40)]
    pub fn schedule_needed_fetches(&mut self) -> (r: Vec<FetchRequest>)
        ensures
            fetches_view(r@) == needed(old(self)),
            final(self).loading_channels@ == old(self).loading_channels@ + channel_fetches(
                old(self),
                old(self).guilds@.len() as int,
            ).to_set(),
    {
        let ghost a0 = *self;
        let mut msg_req: Option<String> = None;
        if let Some(c) = self.active_channel_id() {
            if self.active_channel_is_text() && !self.messages.contains_key(c.as_str()) && can_try(
                self,
                "messages:",
                c.as_str(),
            ) && !self.loading_messages.contains(c.as_str()) {
                msg_req = Some(c);
            }
        }
        assert(msg_req is Some == view_fetches(&a0).3);
        let mut out: Vec<FetchRequest> = Vec::new();
        let mut i: usize = 0;
        while i < self.guilds.len()
            invariant
                i <= self.guilds@.len(),
                self.guilds == a0.guilds,
                *self == (App { loading_channels: self.loading_channels, ..a0 }),
                self.loading_channels@ == a0.loading_channels@ + channel_fetches(&a0, i as int).to_set(),
                fetches_view(out@) == tagged(0, channel_fetches(&a0, i as int)),
            decreases self.guilds@.len() - i,
        {
            let g = self.guilds[i].id.clone();
            let want = !self.guild_channels.contains_key(g.as_str()) && can_try(self, "channels:", g.as_str());
            let ghost prev = channel_fetches(&a0, i as int);
            proof {
                assert(prev.contains(g@) ==> self.loading_channels@.contains(g@));
            }
            if want && self.loading_channels.insert(g.clone()) {
                let ghost before = out@;
                out.push(FetchRequest::GuildChannels { guild_id: g });
                proof {
                    assert(fetches_view(out@) =~= fetches_view(before).push((0int, g@)));
                    assert(tagged(0, prev.push(g@)) =~= tagged(0, prev).push((0int, g@)));
                    prev.lemma_push_to_set_commute(g@);
                    assert(a0.loading_channels@ + prev.push(g@).to_set() =~= (a0.loading_channels@ + prev.to_set()).insert(g@));
                }
            } else {
                proof {
                    assert(channel_fetches(&a0, i + 1) == prev);
                }
            }
            i = i + 1;
        }
        let ghost a1 = *self;
        let ghost (e, ro, m, msg) = view_fetches(&a0);
        let ghost g0 = view_guild(&a0)->0;
        let gid = match self.guild_id_for_active_channel() {
            Some(g) => Some(g),
            None => self.active_guild_id(),
        };
        assert(opt_str(gid) == view_guild(&a0));
        if let Some(g) = &gid {
            let ghost before = out@;
            if !self.guild_emojis.contains_key(g.as_str()) && can_try(self, "emojis:", g.as_str())
                && self.loading_emojis.insert(g.clone()) {
                out.push(FetchRequest::GuildEmojis { guild_id: g.clone() });
            }
            assert(fetches_view(out@) =~= fetches_view(before) + (if e {
                seq![(1int, g0)]
            } else {
                Seq::empty()
            }));
            let ghost before = out@;
            if !self.guild_roles.contains_key(g.as_str()) && !self.guild_roles_forbidden.contains(g.as_str())
                && can_try(self, "roles:", g.as_str()) && self.loading_roles.insert(g.clone()) {
                out.push(FetchRequest::GuildRoles { guild_id: g.clone() });
            }
            assert(fetches_view(out@) =~= fetches_view(before) + (if ro {
                seq![(2int, g0)]
            } else {
                Seq::empty()
            }));
            let ghost before = out@;
            if !self.guild_members_synced.contains(g.as_str()) && !self.loading_members.contains(g.as_str())
                && can_try(self, "members:", g.as_str()) && self.loading_members.insert(g.clone()) {
                out.push(FetchRequest::GuildMembers { guild_id: g.clone() });
            }
            assert(fetches_view(out@) =~= fetches_view(before) + (if m {
                seq![(3int, g0)]
            } else {
                Seq::empty()
            }));
        }
        let ghost before = out@;
        if let Some(c) = msg_req {
            let _ = self.loading_messages.insert(c.clone());
            out.push(FetchRequest::Messages { channel_id: c });
        }
        assert(fetches_view(out@) =~= fetches_view(before) + (if msg {
            seq![(4int, a0.selected_channel_id->0@)]
        } else {
            Seq::empty()
        }));
        out
    }
}

} // verus!
