//! The slash-command and emoji pickers of the input line.
use crate::app::{opt_str, App, CommandAutocomplete, EmojiAutocomplete, EmojiMatch, Focus};
use crate::channels::{active_perms, active_spec};
use crate::media::{lemma_last_index_bounds, last_index_of};
use crate::mentions::{after_last, clamp_sel, sat_add, text_after_last};
use crate::members::guild_of_channel;
use crate::permissions::{SEND_MESSAGES, VIEW_CHANNEL};
use crate::slash_commands::{
    cmd_append, cmd_name, command_matches, command_name_query, command_query_spec,
    filter_command_indices, indices_where, slash_command, SLASH_COMMAND_COUNT,
};
use crate::text::{chars_of, contains, contains_exec, find, is_ws, lowercase, owned, string_of, to_lowercase};
use crate::types::GuildEmojiResponse;
use vstd::prelude::*;

verus! {

/// At most this many emojis are offered.
pub const EMOJI_MATCH_CAP: usize = 12;

/// A standard emoji by value: the emoji itself, its name and its first shortcode.
pub type EmojiView = (Seq<char>, Seq<char>, Option<Seq<char>>);

/// The standard emoji at position `i` of the `emojis` crate's list, if there is one.
pub uninterp spec fn emoji_entry(i: int) -> Option<EmojiView>;

/// The `i`-th emoji of `emojis::iter`, with its name and first shortcode.
#[verifier::external_body]
fn emoji_at(i: usize) -> (r: Option<(String, String, Option<String>)>)
    ensures
        match (r, emoji_entry(i as int)) {
            (Some(x), Some(e)) => x.0@ == e.0 && x.1@ == e.1 && opt_str(x.2) == e.2,
            (None, None) => true,
            _ => false,
        },
{
    emojis::iter().nth(i).map(|e| (e.as_str().to_string(), e.name().to_string(), e.shortcode().map(|s| s.to_string())))
}

/// A row of the emoji picker by value: label, inserted text, custom or not.
pub type EmojiMatchView = (Seq<char>, Seq<char>, bool);

pub open spec fn emoji_match_view(m: EmojiMatch) -> EmojiMatchView {
    (m.label@, m.insert@, m.is_custom)
}

pub open spec fn emoji_matches_view(ms: Seq<EmojiMatch>) -> Seq<EmojiMatchView> {
    ms.map_values(|m: EmojiMatch| emoji_match_view(m))
}

/// Whether a guild emoji matches the lower-case filter.
pub open spec fn custom_hits(e: GuildEmojiResponse, q: Seq<char>) -> bool {
    q.len() == 0 || contains(lowercase(e.name@), q)
}

/// The picker row of a guild emoji: `:name:`, inserting `<:name:id>` (`<a:name:id>` when animated).
pub open spec fn custom_view(e: GuildEmojiResponse) -> EmojiMatchView {
    (
        ":"@ + e.name@ + ":"@,
        "<"@ + (if e.animated {
            "a"@
        } else {
            Seq::empty()
        }) + ":"@ + e.name@ + ":"@ + e.id@ + ">"@,
        true,
    )
}

/// The matching guild emojis, in order, at most the cap.
pub open spec fn custom_rows(es: Seq<GuildEmojiResponse>, q: Seq<char>) -> Seq<EmojiMatchView>
    decreases es.len(),
{
    if es.len() == 0 {
        Seq::empty()
    } else {
        let prev = custom_rows(es.drop_last(), q);
        if prev.len() < EMOJI_MATCH_CAP && custom_hits(es.last(), q) {
            prev.push(custom_view(es.last()))
        } else {
            prev
        }
    }
}

/// Whether a standard emoji matches the lower-case filter: by name or by shortcode.
pub open spec fn std_hits(e: EmojiView, q: Seq<char>) -> bool {
    let sc = match e.2 {
        Some(s) => s,
        None => Seq::empty(),
    };
    q.len() == 0 || contains(lowercase(e.1), q) || contains(lowercase(sc), q)
}

/// The picker row of a standard emoji: the emoji and `:shortcode:` (or its
/// lower-case name), inserting the emoji.
pub open spec fn std_view(e: EmojiView) -> EmojiMatchView {
    let sc = match e.2 {
        Some(s) => s,
        None => Seq::empty(),
    };
    (
        if sc.len() > 0 {
            e.0 + " :"@ + sc + ":"@
        } else {
            e.0 + " "@ + lowercase(e.1)
        },
        e.0,
        false,
    )
}

/// The next `need` matching standard emojis from position `from` on.
pub open spec fn emoji_scan(q: Seq<char>, from: int, need: nat) -> Seq<EmojiMatchView>
    decreases usize::MAX - from,
{
    if need == 0 || from < 0 || from >= usize::MAX {
        Seq::empty()
    } else {
        match emoji_entry(from) {
            None => Seq::empty(),
            Some(e) => if std_hits(e, q) {
                seq![std_view(e)] + emoji_scan(q, from + 1, (need - 1) as nat)
            } else {
                emoji_scan(q, from + 1, need)
            },
        }
    }
}

/// The guild emojis available in the selected channel.
pub open spec fn channel_emojis(app: &App) -> Seq<GuildEmojiResponse> {
    match app.selected_channel_id {
        Some(c) => match guild_of_channel(app, c@) {
            Some(g) => if app.guild_emojis@.dom().contains(g) {
                app.guild_emojis@[g]@
            } else {
                Seq::empty()
            },
            None => Seq::empty(),
        },
        None => Seq::empty(),
    }
}

/// The emoji picker's rows for a filter: matching guild emojis first, then
/// matching standard emojis, at most the cap.
pub open spec fn emoji_rows(app: &App, q: Seq<char>) -> Seq<EmojiMatchView> {
    let c = custom_rows(channel_emojis(app), q);
    c + emoji_scan(q, 0, (EMOJI_MATCH_CAP - c.len()) as nat)
}

/// `b` is `a` with the emoji picker refiltered from the text after the
/// last `:` (selection kept inside the rows), or closed when nothing matches.
pub open spec fn emoji_filtered(a: &App, b: &App, sel: usize) -> bool {
    let rows = emoji_rows(a, lowercase(after_last(a.input@, ':')));
    &&& (App { emoji_autocomplete: a.emoji_autocomplete, ..*b }) == *a
    &&& if rows.len() == 0 {
        b.emoji_autocomplete is None
    } else {
        b.emoji_autocomplete matches Some(x) && emoji_matches_view(x.matches@) == rows
            && x.selected_index == clamp_sel(sel, rows.len() as int)
    }
}

/// The command picker for a state: none outside the input, without the
/// right to send, without a command being typed, or without matches; else
/// the matching commands, the selection kept from `prev` inside them.
pub open spec fn command_picker(app: &App, prev: Option<usize>) -> Option<(Seq<usize>, usize)> {
    if app.focus != Focus::Input || !(active_perms(app) & VIEW_CHANNEL != 0 && active_perms(app) & SEND_MESSAGES != 0) {
        None
    } else {
        match command_query_spec(app.input@) {
            None => None,
            Some(q) => {
                let guild_ch = active_spec(app) matches Some(c) && c.guild_id is Some;
                let m = indices_where(
                    SLASH_COMMAND_COUNT as int,
                    |i: int| command_matches(i, q, guild_ch, active_perms(app)),
                );
                if m.len() == 0 {
                    None
                } else {
                    Some((m, match prev {
                        Some(s) => if s < m.len() - 1 {
                            s
                        } else {
                            (m.len() - 1) as usize
                        },
                        None => 0,
                    }))
                }
            },
        }
    }
}

/// `b` is `a` with its command picker recomputed (`command_picker`).
pub open spec fn command_synced(a: &App, b: &App) -> bool {
    &&& (App { command_autocomplete: a.command_autocomplete, ..*b }) == *a
    &&& match command_picker(
        a,
        match a.command_autocomplete {
            Some(x) => Some(x.selected_index),
            None => None,
        },
    ) {
        None => b.command_autocomplete is None,
        Some((m, s)) => b.command_autocomplete matches Some(x) && x.matches@ == m && x.selected_index == s,
    }
}

/// The input after completing a command: the text before the first `/`,
/// the command's name (with a space after it unless the command appends
/// text), then what followed the typed command word.
pub open spec fn completed_input(s: Seq<char>, i: int) -> Seq<char> {
    let p = find(s, seq!['/'])->0;
    let rest = s.skip(p + 1);
    let tok = crate::text::first_index_where(rest, |c: char| is_ws(c), 0);
    s.take(p) + cmd_name(i) + (if cmd_append(i) is None {
        seq![' ']
    } else {
        Seq::empty()
    }) + s.skip(p + 1 + tok)
}

/// `t` is `s` with the command picker on its next row.
pub open spec fn command_forward(s: &App, t: &App) -> bool {
    &&& (App { command_autocomplete: s.command_autocomplete, ..*t }) == *s
    &&& match (s.command_autocomplete, t.command_autocomplete) {
        (None, None) => true,
        (Some(a), Some(b)) => b.matches == a.matches && b.selected_index == if a.matches@.len() == 0 {
            a.selected_index
        } else {
            ((a.selected_index + 1) % (a.matches@.len() as int)) as usize
        },
        _ => false,
    }
}

/// `t` is `s` with the command picker on its previous row.
pub open spec fn command_back(s: &App, t: &App) -> bool {
    &&& (App { command_autocomplete: s.command_autocomplete, ..*t }) == *s
    &&& match (s.command_autocomplete, t.command_autocomplete) {
        (None, None) => true,
        (Some(a), Some(b)) => b.matches == a.matches && b.selected_index == if a.matches@.len() == 0 {
            a.selected_index
        } else {
            (sat_add(a.selected_index, (a.matches@.len() - 1) as usize) % (a.matches@.len() as int)) as usize
        },
        _ => false,
    }
}

/// `t` is `s` after completing the picked command, `r` telling whether one was.
pub open spec fn command_inserted(s: &App, t: &App, r: bool) -> bool {
    &&& r <==> (s.command_autocomplete matches Some(a) && a.selected_index < a.matches@.len()
        && find(s.input@, seq!['/']) is Some)
    &&& !r ==> *t == *s
    &&& r ==> exists|mid: App|
        #[trigger] command_synced(&mid, t) && mid.command_autocomplete is None && mid.input@
            == completed_input(
            s.input@,
            s.command_autocomplete->0.matches@[s.command_autocomplete->0.selected_index as int] as int,
        ) && (App { input: mid.input, command_autocomplete: None, ..*s }) == mid
}

/// `t` is `s` with the emoji picker on its next row.
pub open spec fn emoji_forward(s: &App, t: &App) -> bool {
    &&& (App { emoji_autocomplete: s.emoji_autocomplete, ..*t }) == *s
    &&& match (s.emoji_autocomplete, t.emoji_autocomplete) {
        (None, None) => true,
        (Some(a), Some(b)) => b.matches == a.matches && b.selected_index == if a.matches@.len() == 0 {
            a.selected_index
        } else {
            ((a.selected_index + 1) % (a.matches@.len() as int)) as usize
        },
        _ => false,
    }
}

/// `t` is `s` with the emoji picker on its previous row.
pub open spec fn emoji_back(s: &App, t: &App) -> bool {
    &&& (App { emoji_autocomplete: s.emoji_autocomplete, ..*t }) == *s
    &&& match (s.emoji_autocomplete, t.emoji_autocomplete) {
        (None, None) => true,
        (Some(a), Some(b)) => b.matches == a.matches && b.selected_index == if a.matches@.len() == 0 {
            a.selected_index
        } else {
            (sat_add(a.selected_index, (a.matches@.len() - 1) as usize) % (a.matches@.len() as int)) as usize
        },
        _ => false,
    }
}

/// `t` is `s` after inserting the picked emoji, `r` telling whether one was.
pub open spec fn emoji_inserted(s: &App, t: &App, r: bool) -> bool {
    &&& r <==> (s.emoji_autocomplete matches Some(a) && a.selected_index < a.matches@.len()
        && last_index_of(s.input@, ':') >= 0)
    &&& !r ==> *t == *s
    &&& r ==> ({
        let a = s.emoji_autocomplete->0;
        &&& (App { input: t.input, emoji_autocomplete: None, ..*s }) == *t
        &&& t.input@ == s.input@.take(last_index_of(s.input@, ':'))
            + a.matches@[a.selected_index as int].insert@ + seq![' ']
    })
}

/// `t` is `s` with the emoji picker refiltered.
pub open spec fn emoji_refiltered(s: &App, t: &App) -> bool {
    &&& s.emoji_autocomplete is None ==> *t == *s
    &&& s.emoji_autocomplete matches Some(a) ==> emoji_filtered(s, t, a.selected_index)
}

impl App {
    /// Recomputes the command picker from the input; see `command_picker`.
    pub fn sync_command_autocomplete(&mut self)
        ensures
            command_synced(old(self), final(self)),
    {
        if self.focus != Focus::Input || !self.can_send_in_active_channel() {
            self.command_autocomplete = None;
            return ;
        }
        let q = match command_name_query(self.input.as_str()) {
            Some(q) => q,
            None => {
                self.command_autocomplete = None;
                return ;
            },
        };
        let guild_ch = match self.active_channel() {
            Some(c) => c.guild_id.is_some(),
            None => false,
        };
        let perms = self.active_channel_permissions();
        let matches = filter_command_indices(q.as_str(), guild_ch, perms);
        if matches.len() == 0 {
            self.command_autocomplete = None;
            return ;
        }
        let n = matches.len();
        let sel = match &self.command_autocomplete {
            Some(a) => if a.selected_index < n - 1 {
                a.selected_index
            } else {
                n - 1
            },
            None => 0,
        };
        self.command_autocomplete = Some(CommandAutocomplete { matches, selected_index: sel });
    }

    /// Closes the command picker.
    pub fn dismiss_command_autocomplete(&mut self)
        ensures
            *final(self) == (App { command_autocomplete: None, ..*old(self) }),
    {
        self.command_autocomplete = None;
    }

    /// Moves the command picker's selection down, wrapping.
    pub fn autocomplete_command_next(&mut self)
        ensures
            command_forward(old(self), final(self)),
    {
        if let Some(auto) = &mut self.command_autocomplete {
            let n = auto.matches.len();
            if n > 0 {
                auto.selected_index = ((auto.selected_index as u128 + 1) % (n as u128)) as usize;
            }
        }
    }

    /// Moves the command picker's selection up, wrapping.
    pub fn autocomplete_command_prev(&mut self)
        ensures
            command_back(old(self), final(self)),
    {
        if let Some(auto) = &mut self.command_autocomplete {
            let n = auto.matches.len();
            if n > 0 {
                auto.selected_index = auto.selected_index.saturating_add(n - 1) % n;
            }
        }
    }

    /// Completes the selected command in the input (see `completed_input`),
    /// then recomputes the picker. Returns false, changing nothing, without a
    /// picker, a selected command, or a `/` in the input.
    pub fn insert_selected_slash_command(&mut self) -> (r: bool)
        requires
            old(self).command_autocomplete matches Some(a) ==> (a.selected_index < a.matches@.len()
                ==> a.matches@[a.selected_index as int] < SLASH_COMMAND_COUNT),
        ensures
            command_inserted(old(self), final(self), r),
    {
        let auto = match &self.command_autocomplete {
            Some(a) => a,
            None => {
                return false;
            },
        };
        if auto.selected_index >= auto.matches.len() {
            return false;
        }
        let ci = auto.matches[auto.selected_index];
        let cmd = slash_command(ci);
        let v = chars_of(self.input.as_str());
        let slash = vec!['/'];
        assert(slash@ =~= seq!['/']);
        let p = match crate::text::find_exec(&v, &slash) {
            Some(p) => p,
            None => {
                return false;
            },
        };
        proof {
            crate::text::lemma_find_bounds(v@, seq!['/']);
        }
        let vl = v.len();
        assert(p < vl);
        let mut out: Vec<char> = Vec::new();
        let mut i: usize = 0;
        while i < p
            invariant
                i <= p,
                p < v@.len(),
                out@ == v@.take(i as int),
            decreases p - i,
        {
            out.push(v[i]);
            i = i + 1;
            assert(out@ =~= v@.take(i as int));
        }
        let ghost rest = v@.skip(p + 1);
        let mut e: usize = p + 1;
        while e < v.len() && !crate::text::char_is_whitespace(v[e])
            invariant
                p + 1 <= e <= v@.len(),
                rest == v@.skip(p + 1),
                crate::text::first_index_where(rest, |c: char| is_ws(c), 0) == crate::text::first_index_where(
                    rest,
                    |c: char| is_ws(c),
                    e - (p + 1),
                ),
            decreases v@.len() - e,
        {
            e = e + 1;
        }
        let name = chars_of(cmd.name);
        let mut k: usize = 0;
        let ghost base = out@;
        while k < name.len()
            invariant
                k <= name@.len(),
                out@ == base + name@.take(k as int),
            decreases name@.len() - k,
        {
            out.push(name[k]);
            k = k + 1;
            assert(out@ =~= base + name@.take(k as int));
        }
        if cmd.simple_append.is_none() {
            out.push(' ');
        }
        let ghost base2 = out@;
        let mut j: usize = e;
        while j < v.len()
            invariant
                e <= j <= v@.len(),
                out@ == base2 + v@.subrange(e as int, j as int),
            decreases v@.len() - j,
        {
            out.push(v[j]);
            j = j + 1;
            assert(out@ =~= base2 + v@.subrange(e as int, j as int));
        }
        proof {
            assert(name@.take(name@.len() as int) =~= name@);
            assert(v@.subrange(e as int, v@.len() as int) =~= v@.skip(e as int));
            assert(out@ =~= completed_input(v@, ci as int));
        }
        self.input = string_of(out.as_slice());
        self.command_autocomplete = None;
        let ghost mid = *self;
        self.sync_command_autocomplete();
        true
    }

    /// Opens the emoji picker and filters it.
    pub fn start_emoji_autocomplete(&mut self)
        ensures
            emoji_filtered(old(self), final(self), 0),
    {
        self.emoji_autocomplete = Some(EmojiAutocomplete { matches: Vec::new(), selected_index: 0 });
        self.update_emoji_filter();
    }

    /// Refilters the emoji picker from the text after the last `:`; see `emoji_filtered`.
    pub fn update_emoji_filter(&mut self)
        ensures
            emoji_refiltered(old(self), final(self)),
    {
        if self.emoji_autocomplete.is_none() {
            return ;
        }
        let query = to_lowercase(text_after_last(self.input.as_str(), ':').as_str());
        let ghost q = query@;
        let none: Vec<GuildEmojiResponse> = Vec::new();
        let gid = self.guild_id_for_active_channel();
        let es = match &gid {
            Some(g) => match self.guild_emojis.get(g.as_str()) {
                Some(v) => v,
                None => &none,
            },
            None => &none,
        };
        assert(es@ == channel_emojis(self));
        let qv = chars_of(query.as_str());
        let mut results = custom_emoji_rows(es, &qv);
        let ghost c = emoji_matches_view(results@);
        assert(c == custom_rows(channel_emojis(self), q));
        add_standard_rows(&mut results, &qv);
        assert(emoji_matches_view(results@) =~= emoji_rows(self, q));
        let n = results.len();
        let auto = self.emoji_autocomplete.as_mut().unwrap();
        auto.matches = results;
        if auto.selected_index >= n {
            auto.selected_index = if n == 0 {
                0
            } else {
                n - 1
            };
        }
        if n == 0 {
            self.emoji_autocomplete = None;
        }
    }

    /// Closes the emoji picker.
    pub fn dismiss_emoji_autocomplete(&mut self)
        ensures
            *final(self) == (App { emoji_autocomplete: None, ..*old(self) }),
    {
        self.emoji_autocomplete = None;
    }

    /// Moves the emoji picker's selection down, wrapping.
    pub fn autocomplete_emoji_next(&mut self)
        ensures
            emoji_forward(old(self), final(self)),
    {
        if let Some(auto) = &mut self.emoji_autocomplete {
            let n = auto.matches.len();
            if n > 0 {
                auto.selected_index = ((auto.selected_index as u128 + 1) % (n as u128)) as usize;
            }
        }
    }

    /// Moves the emoji picker's selection up, wrapping.
    pub fn autocomplete_emoji_prev(&mut self)
        ensures
            emoji_back(old(self), final(self)),
    {
        if let Some(auto) = &mut self.emoji_autocomplete {
            let n = auto.matches.len();
            if n > 0 {
                auto.selected_index = auto.selected_index.saturating_add(n - 1) % n;
            }
        }
    }

    /// Replaces the text from the last `:` with the selected emoji's
    /// insertion and a space, and closes the picker.
    pub fn insert_selected_emoji(&mut self) -> (r: bool)
        ensures
            emoji_inserted(old(self), final(self), r),
    {
        let auto = match &self.emoji_autocomplete {
            Some(a) => a,
            None => {
                return false;
            },
        };
        if auto.selected_index >= auto.matches.len() {
            return false;
        }
        let v = chars_of(self.input.as_str());
        proof {
            lemma_last_index_bounds(v@, ':');
        }
        let mut at: usize = v.len();
        let mut found = false;
        assert(v@.subrange(0, at as int) =~= v@);
        while at > 0 && !found
            invariant
                at <= v@.len(),
                !found ==> last_index_of(v@, ':') == last_index_of(v@.subrange(0, at as int), ':'),
                found ==> at < v@.len() && at as int == last_index_of(v@, ':'),
            decreases at + (if found { 0int } else { 1int }),
        {
            if v[at - 1] == ':' {
                at = at - 1;
                found = true;
            } else {
                assert(v@.subrange(0, at as int).drop_last() =~= v@.subrange(0, at - 1));
                at = at - 1;
            }
        }
        if !found {
            assert(v@.subrange(0, 0) =~= Seq::<char>::empty());
            return false;
        }
        let mut head: Vec<char> = Vec::new();
        let mut i: usize = 0;
        while i < at
            invariant
                i <= at,
                at < v@.len(),
                head@ == v@.take(i as int),
            decreases at - i,
        {
            head.push(v[i]);
            i = i + 1;
            assert(head@ =~= v@.take(i as int));
        }
        let mut s = string_of(head.as_slice());
        s.append(auto.matches[auto.selected_index].insert.as_str());
        crate::text::push_char(&mut s, ' ');
        self.input = s;
        self.emoji_autocomplete = None;
        assert(self.input@ =~= old(self).input@.take(last_index_of(old(self).input@, ':'))
            + old(self).emoji_autocomplete->0.matches@[old(self).emoji_autocomplete->0.selected_index as int].insert@
            + seq![' ']);
        true
    }
}

/// The rows of the matching guild emojis, at most the cap.
fn custom_emoji_rows(es: &Vec<GuildEmojiResponse>, qv: &Vec<char>) -> (r: Vec<EmojiMatch>)
    ensures
        emoji_matches_view(r@) == custom_rows(es@, qv@),
        r@.len() <= EMOJI_MATCH_CAP,
{
    let ghost q = qv@;
    let mut results: Vec<EmojiMatch> = Vec::new();
    let mut i: usize = 0;
    while i < es.len() && results.len() < EMOJI_MATCH_CAP
        invariant
            i <= es@.len(),
            qv@ == q,
            emoji_matches_view(results@) == custom_rows(es@.take(i as int), q),
            results@.len() <= EMOJI_MATCH_CAP,
        decreases es@.len() - i,
    {
        assert(es@.take(i + 1).drop_last() =~= es@.take(i as int));
        let e = &es[i];
        if qv.len() == 0 || contains_exec(&chars_of(to_lowercase(e.name.as_str()).as_str()), qv) {
            let mut label = owned(":");
            label.append(e.name.as_str());
            label.append(":");
            let mut ins = owned("<");
            if e.animated {
                ins.append("a");
            }
            ins.append(":");
            ins.append(e.name.as_str());
            ins.append(":");
            ins.append(e.id.as_str());
            ins.append(">");
            proof {
                reveal_strlit(":");
                reveal_strlit("<");
                reveal_strlit("a");
                reveal_strlit(">");
            }
            let ghost before = emoji_matches_view(results@);
            results.push(EmojiMatch { label, insert: ins, is_custom: true });
            assert(emoji_matches_view(results@) =~= before.push(custom_view(*e)));
        }
        i = i + 1;
    }
    proof {
        lemma_custom_rows_stop(es@, i as int, q);
    }
    results
}

/// The row of a standard emoji when it matches the filter.
fn standard_row(e: (String, String, Option<String>), qv: &Vec<char>) -> (r: Option<EmojiMatch>)
    ensures
        ({
            let ev = (e.0@, e.1@, opt_str(e.2));
            match r {
                Some(m) => std_hits(ev, qv@) && emoji_match_view(m) == std_view(ev),
                None => !std_hits(ev, qv@),
            }
        }),
{
    let (emo, name, short) = e;
    let sc: &str = match &short {
        Some(s) => s.as_str(),
        None => "",
    };
    proof {
        reveal_strlit("");
    }
    let ghost ev = (e.0@, e.1@, opt_str(e.2));
    let ghost scv = match ev.2 {
        Some(x) => x,
        None => Seq::<char>::empty(),
    };
    assert(sc@ == scv);
    assert(name@ == ev.1);
    let name_l = to_lowercase(name.as_str());
    let h1 = qv.len() == 0;
    let h2 = contains_exec(&chars_of(name_l.as_str()), qv);
    let h3 = contains_exec(&chars_of(to_lowercase(sc).as_str()), qv);
    assert(h2 == contains(lowercase(ev.1), qv@));
    assert(h3 == contains(lowercase(scv), qv@));
    let hit = h1 || h2 || h3;
    assert(hit == std_hits(ev, qv@));
    if !hit {
        return None;
    }
    let mut label = owned(emo.as_str());
    if !sc.is_empty() {
        label.append(" :");
        label.append(sc);
        label.append(":");
    } else {
        label.append(" ");
        label.append(name_l.as_str());
    }
    proof {
        reveal_strlit(" :");
        reveal_strlit(":");
        reveal_strlit(" ");
    }
    Some(EmojiMatch { label, insert: emo, is_custom: false })
}

/// Appends matching standard emojis, in the crate's order, until the cap.
fn add_standard_rows(results: &mut Vec<EmojiMatch>, qv: &Vec<char>)
    requires
        old(results)@.len() <= EMOJI_MATCH_CAP,
    ensures
        emoji_matches_view(final(results)@) == emoji_matches_view(old(results)@) + emoji_scan(
            qv@,
            0,
            (EMOJI_MATCH_CAP - old(results)@.len()) as nat,
        ),
{
    let ghost q = qv@;
    let ghost c = emoji_matches_view(results@);
    let ghost need0: nat = (EMOJI_MATCH_CAP - c.len()) as nat;
    let mut k: usize = 0;
    while k < usize::MAX && results.len() < EMOJI_MATCH_CAP
        invariant
            qv@ == q,
            c.len() <= results@.len() <= EMOJI_MATCH_CAP,
            need0 == EMOJI_MATCH_CAP - c.len(),
            c + emoji_scan(q, 0, need0) == emoji_matches_view(results@) + emoji_scan(
                q,
                k as int,
                (EMOJI_MATCH_CAP - results@.len()) as nat,
            ),
        ensures
            c + emoji_scan(q, 0, need0) == emoji_matches_view(results@),
        decreases usize::MAX - k,
    {
        let e = match emoji_at(k) {
            Some(e) => e,
            None => {
                assert(emoji_scan(q, k as int, (EMOJI_MATCH_CAP - results@.len()) as nat) =~= Seq::<EmojiMatchView>::empty());
                assert(emoji_matches_view(results@) + Seq::<EmojiMatchView>::empty() =~= emoji_matches_view(results@));
                break;
            },
        };
        let ghost ev = emoji_entry(k as int)->0;
        let ghost need: nat = (EMOJI_MATCH_CAP - results@.len()) as nat;
        let ghost before = emoji_matches_view(results@);
        match standard_row(e, qv) {
            Some(m) => {
                results.push(m);
                assert(emoji_matches_view(results@) =~= before.push(std_view(ev)));
                assert(emoji_scan(q, k as int, need) == seq![std_view(ev)] + emoji_scan(q, k + 1, (need - 1) as nat));
                assert(before + (seq![std_view(ev)] + emoji_scan(q, k + 1, (need - 1) as nat))
                    =~= emoji_matches_view(results@) + emoji_scan(q, k + 1, (need - 1) as nat));
            },
            None => {
                assert(emoji_scan(q, k as int, need) == emoji_scan(q, k + 1, need));
            },
        }
        k = k + 1;
    }
    proof {
        if k == usize::MAX || results@.len() >= EMOJI_MATCH_CAP {
            assert(emoji_scan(q, k as int, (EMOJI_MATCH_CAP - results@.len()) as nat) =~= Seq::<EmojiMatchView>::empty());
            assert(emoji_matches_view(results@) + Seq::<EmojiMatchView>::empty() =~= emoji_matches_view(results@));
        }
    }
}

/// Once the cap is reached or the list is done, no more guild emojis are added.
proof fn lemma_custom_rows_stop(es: Seq<GuildEmojiResponse>, i: int, q: Seq<char>)
    requires
        0 <= i <= es.len(),
        i == es.len() || custom_rows(es.take(i), q).len() >= EMOJI_MATCH_CAP,
    ensures
        custom_rows(es, q) == custom_rows(es.take(i), q),
    decreases es.len() - i,
{
    if i == es.len() {
        assert(es.take(i) =~= es);
    } else {
        lemma_custom_rows_len(es.take(i + 1), q);
        assert(es.take(i + 1).drop_last() =~= es.take(i));
        lemma_custom_rows_stop(es, i + 1, q);
    }
}

proof fn lemma_custom_rows_len(es: Seq<GuildEmojiResponse>, q: Seq<char>)
    ensures
        custom_rows(es, q).len() <= EMOJI_MATCH_CAP,
    decreases es.len(),
{
    if es.len() > 0 {
        lemma_custom_rows_len(es.drop_last(), q);
    }
}

} // verus!
