//! Slash commands typed into the message input: the command table, the
//! autocomplete filter, and how a finished line is turned into an action.
use crate::permissions::{CHANGE_NICKNAME, SEND_TTS_MESSAGES};
use crate::text::{
    chars_of, ends_with, find, lowercase, owned, slice_chars, starts_with, starts_with_exec, str_eq,
    string_of, to_lowercase, trim, trim_chars, trim_end, trim_end_chars, trim_start,
    trim_start_chars,
};
use crate::types::UserPartialResponse;
use vstd::prelude::*;
use vstd::string::*;

verus! {

pub const FLUXERBOT_ID: &'static str = "0";

pub const MESSAGE_TYPE_CLIENT_SYSTEM: i32 = 99;

/// Number of entries in the command table.
pub const SLASH_COMMAND_COUNT: usize = 7;

/// Most suggestions the autocomplete shows.
pub const COMMAND_SUGGESTION_CAP: usize = 24;

#[derive(Debug, Clone, Copy)]
pub struct SlashCommandDef {
    pub name: &'static str,
    pub description: &'static str,
    pub simple_append: Option<&'static str>,
    pub requires_guild: bool,
    pub requires_channel_perm: Option<u64>,
}

/// Name of the `i`-th command.
pub open spec fn cmd_name(i: int) -> Seq<char> {
    if i == 0 {
        "/shrug"@
    } else if i == 1 {
        "/tableflip"@
    } else if i == 2 {
        "/unflip"@
    } else if i == 3 {
        "/me"@
    } else if i == 4 {
        "/spoiler"@
    } else if i == 5 {
        "/tts"@
    } else {
        "/nick"@
    }
}

/// Text that the `i`-th command appends on its own, if it is such a command.
pub open spec fn cmd_append(i: int) -> Option<Seq<char>> {
    if i == 0 {
        Some("¯\\_(ツ)_/¯"@)
    } else if i == 1 {
        Some("(╯°□°)╯︵ ┻━┻"@)
    } else if i == 2 {
        Some("┬─┬ ノ( ゜-゜ノ)"@)
    } else {
        None
    }
}

pub open spec fn cmd_requires_guild(i: int) -> bool {
    i == 6
}

pub open spec fn cmd_requires_perm(i: int) -> Option<u64> {
    if i == 5 {
        Some(SEND_TTS_MESSAGES)
    } else if i == 6 {
        Some(CHANGE_NICKNAME)
    } else {
        None
    }
}

/// The `i`-th entry of the command table.
pub fn slash_command(i: usize) -> (r: SlashCommandDef)
    requires
        i < SLASH_COMMAND_COUNT,
    ensures
        r.name@ == cmd_name(i as int),
        r.simple_append matches Some(a) ==> cmd_append(i as int) == Some(a@),
        r.simple_append is None <==> cmd_append(i as int) is None,
        r.requires_guild == cmd_requires_guild(i as int),
        r.requires_channel_perm == cmd_requires_perm(i as int),
{
    if i == 0 {
        SlashCommandDef {
            name: "/shrug",
            description: "Appends ¯\\_(ツ)_/¯ to your message.",
            simple_append: Some("¯\\_(ツ)_/¯"),
            requires_guild: false,
            requires_channel_perm: None,
        }
    } else if i == 1 {
        SlashCommandDef {
            name: "/tableflip",
            description: "Appends (╯°□°)╯︵ ┻━┻ to your message.",
            simple_append: Some("(╯°□°)╯︵ ┻━┻"),
            requires_guild: false,
            requires_channel_perm: None,
        }
    } else if i == 2 {
        SlashCommandDef {
            name: "/unflip",
            description: "Appends ┬─┬ ノ( ゜-゜ノ) to your message.",
            simple_append: Some("┬─┬ ノ( ゜-゜ノ)"),
            requires_guild: false,
            requires_channel_perm: None,
        }
    } else if i == 3 {
        SlashCommandDef {
            name: "/me",
            description: "Send an action message (wraps in italics).",
            simple_append: None,
            requires_guild: false,
            requires_channel_perm: None,
        }
    } else if i == 4 {
        SlashCommandDef {
            name: "/spoiler",
            description: "Send a spoiler message (wraps in spoiler tags).",
            simple_append: None,
            requires_guild: false,
            requires_channel_perm: None,
        }
    } else if i == 5 {
        SlashCommandDef {
            name: "/tts",
            description: "Send a text-to-speech message.",
            simple_append: None,
            requires_guild: false,
            requires_channel_perm: Some(SEND_TTS_MESSAGES),
        }
    } else {
        SlashCommandDef {
            name: "/nick",
            description: "Change your nickname in this community.",
            simple_append: None,
            requires_guild: true,
            requires_channel_perm: Some(CHANGE_NICKNAME),
        }
    }
}

/// The first line of the text as `str::lines` yields it: up to the first
/// line feed, without a carriage return just before that line feed (a
/// carriage return at the very end, with no line feed after it, stays);
/// nothing for empty text.
pub open spec fn first_line(s: Seq<char>) -> Option<Seq<char>> {
    if s.len() == 0 {
        None
    } else {
        match find(s, seq!['\n']) {
            Some(i) => {
                let line = s.subrange(0, i);
                if ends_with(line, seq!['\r']) {
                    Some(line.drop_last())
                } else {
                    Some(line)
                }
            },
            None => Some(s),
        }
    }
}

/// The command name being typed: the first line, after leading whitespace
/// and a slash, when it holds no space.
pub open spec fn command_query_spec(s: Seq<char>) -> Option<Seq<char>> {
    match first_line(s) {
        None => None,
        Some(line) => {
            let t = trim_start(line);
            if t.len() > 0 && t[0] == '/' && !t.drop_first().contains(' ') {
                Some(t.drop_first())
            } else {
                None
            }
        },
    }
}

/// The partial command name after a leading `/` on the first line, if it holds no space.
#[verifier::loop_isolation(false)]
pub fn command_name_query(input: &str) -> (r: Option<String>)
    ensures
        r matches Some(q) ==> command_query_spec(input@) == Some(q@),
        r is None <==> command_query_spec(input@) is None,
{
    let s = chars_of(input);
    if s.len() == 0 {
        return None;
    }
    let nl = vec!['\n'];
    assert(nl@ =~= seq!['\n']);
    let found = crate::text::find_exec(&s, &nl);
    proof {
        crate::text::lemma_find_bounds(s@, seq!['\n']);
    }
    let line = match found {
        Some(end) => {
            let mut line = slice_chars(&s, 0, end);
            let cr = vec!['\r'];
            assert(cr@ =~= seq!['\r']);
            if crate::text::ends_with_exec(&line, &cr) {
                line.pop();
            }
            line
        },
        None => {
            let line = s.clone();
            assert(line@ =~= s@);
            line
        },
    };
    assert(first_line(input@) == Some(line@));
    let t = trim_start_chars(&line);
    if t.len() == 0 || t[0] != '/' {
        return None;
    }
    let rest = slice_chars(&t, 1, t.len());
    assert(rest@ =~= t@.drop_first());
    let mut i: usize = 0;
    while i < rest.len()
        invariant
            i <= rest@.len(),
            forall|j: int| 0 <= j < i ==> rest@[j] != ' ',
        decreases rest@.len() - i,
    {
        if rest[i] == ' ' {
            assert(rest@[i as int] == ' ');
            assert(t@.drop_first().contains(' '));
            return None;
        }
        i = i + 1;
    }
    Some(string_of(rest.as_slice()))
}

/// Whether the `i`-th command is offered in a channel of the given kind with these permissions.
pub open spec fn command_visible(i: int, guild_channel: bool, channel_perms: u64) -> bool {
    &&& !(cmd_requires_guild(i) && !guild_channel)
    &&& match cmd_requires_perm(i) {
        Some(bit) => channel_perms & bit != 0,
        None => true,
    }
}

fn is_visible(c: &SlashCommandDef, guild_channel: bool, channel_perms: u64) -> (r: bool)
    ensures
        r == (!(c.requires_guild && !guild_channel) && match c.requires_channel_perm {
            Some(bit) => channel_perms & bit != 0,
            None => true,
        }),
{
    if c.requires_guild && !guild_channel {
        return false;
    }
    if let Some(bit) = c.requires_channel_perm {
        if channel_perms & bit == 0 {
            return false;
        }
    }
    true
}

/// The indices, in table order, of the commands that satisfy `keep`, among the first `n`.
pub open spec fn indices_where(n: int, keep: spec_fn(int) -> bool) -> Seq<usize>
    decreases n,
{
    if n <= 0 {
        Seq::empty()
    } else {
        let prev = indices_where(n - 1, keep);
        if keep(n - 1) {
            prev.push((n - 1) as usize)
        } else {
            prev
        }
    }
}

/// Indices of the commands offered in a channel of this kind with these permissions.
pub fn visible_commands(guild_channel: bool, channel_perms: u64) -> (r: Vec<usize>)
    ensures
        r@ == indices_where(
            SLASH_COMMAND_COUNT as int,
            |i: int| command_visible(i, guild_channel, channel_perms),
        ),
{
    let ghost keep = |i: int| command_visible(i, guild_channel, channel_perms);
    let mut out: Vec<usize> = Vec::new();
    let mut i: usize = 0;
    while i < SLASH_COMMAND_COUNT
        invariant
            i <= SLASH_COMMAND_COUNT,
            keep == (|i: int| command_visible(i, guild_channel, channel_perms)),
            out@ == indices_where(i as int, keep),
        decreases SLASH_COMMAND_COUNT - i,
    {
        let c = slash_command(i);
        if is_visible(&c, guild_channel, channel_perms) {
            out.push(i);
        }
        i = i + 1;
    }
    out
}

/// A command name without its leading slashes.
pub open spec fn strip_slashes(s: Seq<char>) -> Seq<char>
    decreases s.len(),
{
    if s.len() > 0 && s[0] == '/' {
        strip_slashes(s.drop_first())
    } else {
        s
    }
}

fn strip_slashes_exec(s: &Vec<char>) -> (r: Vec<char>)
    ensures
        r@ == strip_slashes(s@),
{
    let mut i: usize = 0;
    assert(s@.subrange(0, s@.len() as int) =~= s@);
    while i < s.len() && s[i] == '/'
        invariant
            i <= s@.len(),
            strip_slashes(s@) == strip_slashes(s@.subrange(i as int, s@.len() as int)),
        decreases s@.len() - i,
    {
        assert(s@.subrange(i as int, s@.len() as int).drop_first() =~= s@.subrange(
            i + 1,
            s@.len() as int,
        ));
        i = i + 1;
    }
    slice_chars(s, i, s.len())
}

/// Whether the `i`-th command is offered and matches the (lowercased) query.
pub open spec fn command_matches(
    i: int,
    query: Seq<char>,
    guild_channel: bool,
    channel_perms: u64,
) -> bool {
    command_visible(i, guild_channel, channel_perms) && (lowercase(query).len() == 0 || starts_with(
        lowercase(strip_slashes(cmd_name(i))),
        lowercase(query),
    ))
}

/// Indices of the offered commands whose name (case-insensitively) starts
/// with the query, in table order, at most 24.
pub fn filter_command_indices(query: &str, guild_channel: bool, channel_perms: u64) -> (r: Vec<
    usize,
>)
    ensures
        r@ == indices_where(
            SLASH_COMMAND_COUNT as int,
            |i: int| command_matches(i, query@, guild_channel, channel_perms),
        ),
        r@.len() <= COMMAND_SUGGESTION_CAP,
{
    let q = to_lowercase(query);
    let qv = chars_of(q.as_str());
    let vis = visible_commands(guild_channel, channel_perms);
    let ghost keep = |i: int| command_matches(i, query@, guild_channel, channel_perms);
    let ghost vkeep = |i: int| command_visible(i, guild_channel, channel_perms);
    let mut out: Vec<usize> = Vec::new();
    let mut i: usize = 0;
    while i < SLASH_COMMAND_COUNT
        invariant
            i <= SLASH_COMMAND_COUNT,
            keep == (|i: int| command_matches(i, query@, guild_channel, channel_perms)),
            vkeep == (|i: int| command_visible(i, guild_channel, channel_perms)),
            qv@ == lowercase(query@),
            out@ == indices_where(i as int, keep),
            out@.len() <= i,
        decreases SLASH_COMMAND_COUNT - i,
    {
        let c = slash_command(i);
        if is_visible(&c, guild_channel, channel_perms) {
            let name = strip_slashes_exec(&chars_of(c.name));
            let lname = to_lowercase(string_of(name.as_slice()).as_str());
            if qv.len() == 0 || starts_with_exec(&chars_of(lname.as_str()), &qv) {
                out.push(i);
            }
        }
        i = i + 1;
    }
    out
}

/// What a finished input line turns into.
#[derive(Debug, Clone)]
pub enum OutgoingSlash {
    SendContent(String),
    SendTts(String),
    SetNick { guild_id: String, nick: Option<String>, prev_display: String, new_display: String },
    Blocked(String),
    Normal,
}

/// The action a line stands for, over character sequences.
pub enum SlashOutcome {
    SendContent(Seq<char>),
    SendTts(Seq<char>),
    SetNick {
        guild_id: Seq<char>,
        nick: Option<Seq<char>>,
        prev_display: Seq<char>,
        new_display: Seq<char>,
    },
    Blocked(Seq<char>),
    Normal,
}

impl View for OutgoingSlash {
    type V = SlashOutcome;

    open spec fn view(&self) -> SlashOutcome {
        match self {
            OutgoingSlash::SendContent(s) => SlashOutcome::SendContent(s@),
            OutgoingSlash::SendTts(s) => SlashOutcome::SendTts(s@),
            OutgoingSlash::SetNick { guild_id, nick, prev_display, new_display } =>
                SlashOutcome::SetNick {
                guild_id: guild_id@,
                nick: match nick {
                    Some(n) => Some(n@),
                    None => None,
                },
                prev_display: prev_display@,
                new_display: new_display@,
            },
            OutgoingSlash::Blocked(s) => SlashOutcome::Blocked(s@),
            OutgoingSlash::Normal => SlashOutcome::Normal,
        }
    }
}

pub open spec fn me_blocked_msg() -> Seq<char> {
    "Add text after /me (e.g. /me waves)."@
}

pub open spec fn spoiler_blocked_msg() -> Seq<char> {
    "Add text after /spoiler."@
}

pub open spec fn tts_blocked_msg() -> Seq<char> {
    "Add text after /tts."@
}

pub open spec fn tts_perm_msg() -> Seq<char> {
    "You don’t have permission to send text-to-speech messages here."@
}

pub open spec fn nick_guild_msg() -> Seq<char> {
    "You can only change your nickname in a server."@
}

pub open spec fn nick_perm_msg() -> Seq<char> {
    "You can’t change your nickname in this channel."@
}

/// The argument of `/nick` when the line is that command: empty for the bare command.
pub open spec fn nick_arg(t: Seq<char>) -> Option<Seq<char>> {
    if t == "/nick"@ {
        Some(Seq::empty())
    } else if starts_with(t, "/nick "@) {
        Some(t.subrange(6, t.len() as int))
    } else {
        None
    }
}

/// The message text `rest` with an emoticon appended after a space; the
/// emoticon alone when `rest` is blank.
pub open spec fn appended_to(rest: Seq<char>, emote: Seq<char>) -> Seq<char> {
    let body = trim_end(rest);
    if body.len() == 0 {
        emote
    } else {
        body + seq![' '] + emote
    }
}

/// What the line is when it invokes the `i`-th command, one that appends an
/// emoticon: the bare command sends the emoticon, the command followed by a
/// space and text sends that text with the emoticon appended.
pub open spec fn emote_outcome(t: Seq<char>, i: int) -> Option<SlashOutcome> {
    if t == cmd_name(i) {
        Some(SlashOutcome::SendContent(cmd_append(i)->0))
    } else if starts_with(t, cmd_name(i) + seq![' ']) {
        Some(
            SlashOutcome::SendContent(
                appended_to(t.subrange(cmd_name(i).len() + 1int, t.len() as int), cmd_append(i)->0),
            ),
        )
    } else {
        None
    }
}

/// The action for a trimmed input line.
pub open spec fn resolve_spec(
    t: Seq<char>,
    guild_id: Option<Seq<char>>,
    me_username: Seq<char>,
    prev: Seq<char>,
    perms: u64,
) -> SlashOutcome {
    if emote_outcome(t, 0) is Some {
        emote_outcome(t, 0)->0
    } else if emote_outcome(t, 1) is Some {
        emote_outcome(t, 1)->0
    } else if emote_outcome(t, 2) is Some {
        emote_outcome(t, 2)->0
    } else if t == "/me"@ {
        SlashOutcome::Blocked(me_blocked_msg())
    } else if starts_with(t, "/me "@) {
        let body = trim_end(t.subrange(4, t.len() as int));
        if body.len() == 0 {
            SlashOutcome::Blocked(me_blocked_msg())
        } else {
            SlashOutcome::SendContent(seq!['_'] + body + seq!['_'])
        }
    } else if t == "/spoiler"@ {
        SlashOutcome::Blocked(spoiler_blocked_msg())
    } else if starts_with(t, "/spoiler "@) {
        let body = trim_end(t.subrange(9, t.len() as int));
        if body.len() == 0 {
            SlashOutcome::Blocked(spoiler_blocked_msg())
        } else {
            SlashOutcome::SendContent("||"@ + body + "||"@)
        }
    } else if t == "/tts"@ {
        SlashOutcome::Blocked(tts_blocked_msg())
    } else if starts_with(t, "/tts "@) {
        let body = trim_end(t.subrange(5, t.len() as int));
        if body.len() == 0 {
            SlashOutcome::Blocked(tts_blocked_msg())
        } else if perms & SEND_TTS_MESSAGES == 0 {
            SlashOutcome::Blocked(tts_perm_msg())
        } else {
            SlashOutcome::SendTts(body)
        }
    } else {
        match nick_arg(t) {
            None => SlashOutcome::Normal,
            Some(raw) => match guild_id {
                None => SlashOutcome::Blocked(nick_guild_msg()),
                Some(g) => if perms & CHANGE_NICKNAME == 0 {
                    SlashOutcome::Blocked(nick_perm_msg())
                } else {
                    let arg = trim(raw);
                    let nick = if arg.len() == 0 {
                        None
                    } else {
                        Some(arg)
                    };
                    SlashOutcome::SetNick {
                        guild_id: g,
                        nick,
                        prev_display: prev,
                        new_display: if arg.len() == 0 {
                            me_username
                        } else {
                            arg
                        },
                    }
                },
            },
        }
    }
}

pub open spec fn opt_view(o: Option<&str>) -> Option<Seq<char>> {
    match o {
        Some(s) => Some(s@),
        None => None,
    }
}

/// The text after a literal prefix, when the characters start with it.
fn after_prefix(t: &Vec<char>, p: &str) -> (r: Option<Vec<char>>)
    ensures
        r matches Some(rest) ==> starts_with(t@, p@) && rest@ == t@.subrange(
            p@.len() as int,
            t@.len() as int,
        ),
        r is None ==> !starts_with(t@, p@),
{
    let pv = chars_of(p);
    if starts_with_exec(t, &pv) {
        Some(slice_chars(t, pv.len(), t.len()))
    } else {
        None
    }
}

/// Turns a trimmed input line into the action it stands for: a command's
/// content, a text-to-speech message, a nickname change, a refusal with its
/// reason, or an ordinary message.
#[verifier::loop_isolation(false)]
pub fn resolve_outgoing_slash(
    trimmed: &str,
    guild_id: Option<&str>,
    me_username: &str,
    prev_nick_or_username: &str,
    channel_perms: u64,
) -> (r: OutgoingSlash)
    ensures
        r@ == resolve_spec(
            trimmed@,
            opt_view(guild_id),
            me_username@,
            prev_nick_or_username@,
            channel_perms,
        ),
{
    let t = trimmed;
    let tv = chars_of(t);
    let mut i: usize = 0;
    while i < 3
        invariant
            i <= 3,
            tv@ == t@,
            forall|j: int| 0 <= j < i ==> #[trigger] emote_outcome(t@, j) is None,
        decreases 3 - i,
    {
        let c = slash_command(i);
        if let Some(content) = c.simple_append {
            assert(i == 0 || i == 1 || i == 2);
            assert(cmd_append(i as int) == Some(content@));
            if str_eq(t, c.name) {
                return OutgoingSlash::SendContent(owned(content));
            }
            let mut p = chars_of(c.name);
            p.push(' ');
            assert(p@ =~= cmd_name(i as int) + seq![' ']);
            if starts_with_exec(&tv, &p) {
                let rest = slice_chars(&tv, p.len(), tv.len());
                let body = trim_end_chars(&rest);
                if body.len() == 0 {
                    return OutgoingSlash::SendContent(owned(content));
                }
                let mut s = string_of(body.as_slice());
                s.append(" ");
                s.append(content);
                proof {
                    reveal_strlit(" ");
                    assert(s@ =~= body@ + seq![' '] + content@);
                }
                return OutgoingSlash::SendContent(s);
            }
        }
        i = i + 1;
    }
    if str_eq(t, "/me") {
        return OutgoingSlash::Blocked(owned("Add text after /me (e.g. /me waves)."));
    }
    if let Some(rest) = after_prefix(&tv, "/me ") {
        proof {
            reveal_strlit("/me ");
        }
        let body = trim_end_chars(&rest);
        if body.len() == 0 {
            return OutgoingSlash::Blocked(owned("Add text after /me (e.g. /me waves)."));
        }
        let mut s = owned("_");
        s.append(string_of(body.as_slice()).as_str());
        s.append("_");
        proof {
            reveal_strlit("_");
            assert(s@ =~= seq!['_'] + body@ + seq!['_']);
        }
        return OutgoingSlash::SendContent(s);
    }
    if str_eq(t, "/spoiler") {
        return OutgoingSlash::Blocked(owned("Add text after /spoiler."));
    }
    if let Some(rest) = after_prefix(&tv, "/spoiler ") {
        proof {
            reveal_strlit("/spoiler ");
        }
        let body = trim_end_chars(&rest);
        if body.len() == 0 {
            return OutgoingSlash::Blocked(owned("Add text after /spoiler."));
        }
        let mut s = owned("||");
        s.append(string_of(body.as_slice()).as_str());
        s.append("||");
        return OutgoingSlash::SendContent(s);
    }
    if str_eq(t, "/tts") {
        return OutgoingSlash::Blocked(owned("Add text after /tts."));
    }
    if let Some(rest) = after_prefix(&tv, "/tts ") {
        proof {
            reveal_strlit("/tts ");
        }
        let body = trim_end_chars(&rest);
        if body.len() == 0 {
            return OutgoingSlash::Blocked(owned("Add text after /tts."));
        }
        if channel_perms & SEND_TTS_MESSAGES == 0 {
            return OutgoingSlash::Blocked(
                owned("You don’t have permission to send text-to-speech messages here."),
            );
        }
        return OutgoingSlash::SendTts(string_of(body.as_slice()));
    }
    let nick_arg_raw: Option<Vec<char>> = if str_eq(t, "/nick") {
        Some(Vec::new())
    } else {
        match after_prefix(&tv, "/nick ") {
            Some(rest) => {
                proof {
                    reveal_strlit("/nick ");
                }
                Some(rest)
            },
            None => None,
        }
    };
    match nick_arg_raw {
        None => OutgoingSlash::Normal,
        Some(arg_raw) => {
            assert(nick_arg(t@) == Some(arg_raw@));
            let gid = match guild_id {
                Some(g) => owned(g),
                None => {
                    return OutgoingSlash::Blocked(
                        owned("You can only change your nickname in a server."),
                    );
                },
            };
            if channel_perms & CHANGE_NICKNAME == 0 {
                return OutgoingSlash::Blocked(
                    owned("You can’t change your nickname in this channel."),
                );
            }
            let arg = trim_chars(&arg_raw);
            if arg.len() == 0 {
                OutgoingSlash::SetNick {
                    guild_id: gid,
                    nick: None,
                    prev_display: owned(prev_nick_or_username),
                    new_display: owned(me_username),
                }
            } else {
                OutgoingSlash::SetNick {
                    guild_id: gid,
                    nick: Some(string_of(arg.as_slice())),
                    prev_display: owned(prev_nick_or_username),
                    new_display: string_of(arg.as_slice()),
                }
            }
        },
    }
}

/// The system line shown after a nickname change.
pub open spec fn nick_change_text(prev: Seq<char>, new: Seq<char>) -> Seq<char> {
    "You changed your nickname in this community from **"@ + prev + "** to **"@ + new + "**."@
}

pub fn nick_change_system_markdown(prev: &str, new: &str) -> (r: String)
    ensures
        r@ == nick_change_text(prev@, new@),
{
    let mut s = owned("You changed your nickname in this community from **");
    s.append(prev);
    s.append("** to **");
    s.append(new);
    s.append("**.");
    s
}

/// The author shown on messages the client itself posts.
pub fn fluxerbot_author() -> (r: UserPartialResponse)
    ensures
        r.id@ == "0"@,
        r.username@ == "Fluxerbot"@,
        r.discriminator@ == "0000"@,
        r.global_name is None,
        r.avatar is None,
        r.bot,
        r.system,
{
    UserPartialResponse {
        id: owned(FLUXERBOT_ID),
        username: owned("Fluxerbot"),
        discriminator: owned("0000"),
        global_name: None,
        avatar: None,
        bot: true,
        system: true,
    }
}

} // verus!
