//! Editing the message input: pasted text, deleting a word, the length
//! limit, and the typing notice line.
use crate::app::ServerSelection;
use crate::config::AppConfig;
use crate::text::{
    char_is_control, char_is_whitespace, chars_of, ends_with, is_ctrl, is_ws, lemma_trail_ws_bounds,
    push_char, str_eq, string_of, trail_ws, trailing_ws_len,
};
use crate::types::GuildResponse;
use vstd::prelude::*;

verus! {

/// How many characters the message input holds.
pub const INPUT_MAX_CHARS: usize = 2000;

/// Pasted text without carriage returns.
pub open spec fn without_cr(s: Seq<char>) -> Seq<char>
    decreases s.len(),
{
    if s.len() == 0 {
        Seq::empty()
    } else if s.last() == '\r' {
        without_cr(s.drop_last())
    } else {
        without_cr(s.drop_last()).push(s.last())
    }
}

/// Pasted text without carriage returns; see `without_cr`.
pub fn normalize_pasted_text(s: &str) -> (r: String)
    ensures
        r@ == without_cr(s@),
{
    let cs = chars_of(s);
    let mut out: Vec<char> = Vec::new();
    let mut i: usize = 0;
    while i < cs.len()
        invariant
            i <= cs@.len(),
            cs@ == s@,
            out@ == without_cr(cs@.take(i as int)),
        decreases cs@.len() - i,
    {
        assert(cs@.take(i + 1).drop_last() =~= cs@.take(i as int));
        if cs[i] != '\r' {
            out.push(cs[i]);
        }
        i = i + 1;
    }
    assert(cs@.take(cs@.len() as int) =~= cs@);
    string_of(out.as_slice())
}

/// What a pasted character becomes in the input: a line break stays, a tab
/// becomes a space, other control characters are dropped.
pub open spec fn pasted_char(c: char) -> Option<char> {
    if c == '\n' {
        Some('\n')
    } else if c == '\t' {
        Some(' ')
    } else if is_ctrl(c) {
        None
    } else {
        Some(c)
    }
}

/// What a pasted character becomes in the input; see `pasted_char`.
pub fn sanitize_pasted_char(ch: char) -> (r: Option<char>)
    ensures
        r == pasted_char(ch),
{
    if ch == '\n' {
        Some('\n')
    } else if ch == '\t' {
        Some(' ')
    } else if char_is_control(ch) {
        None
    } else {
        Some(ch)
    }
}

/// The characters pasted text leaves in the input, in order.
pub open spec fn pasted_chars(s: Seq<char>) -> Seq<char>
    decreases s.len(),
{
    if s.len() == 0 {
        Seq::empty()
    } else {
        match pasted_char(s.last()) {
            Some(c) => pasted_chars(s.drop_last()).push(c),
            None => pasted_chars(s.drop_last()),
        }
    }
}

/// Number of trailing characters that are not whitespace.
pub open spec fn trail_word(s: Seq<char>) -> int
    decreases s.len(),
{
    if s.len() > 0 && !is_ws(s.last()) {
        1 + trail_word(s.drop_last())
    } else {
        0
    }
}

/// The text with its last word and the whitespace after it removed.
pub open spec fn without_last_word(s: Seq<char>) -> Seq<char> {
    let t = s.take(s.len() - trail_ws(s));
    t.take(t.len() - trail_word(t))
}

pub proof fn lemma_trail_word_bounds(s: Seq<char>)
    ensures
        0 <= trail_word(s) <= s.len(),
    decreases s.len(),
{
    if s.len() > 0 {
        lemma_trail_word_bounds(s.drop_last());
    }
}

/// Deletes the last word of the input and the whitespace after it.
pub fn delete_word_backward(buf: &mut String)
    ensures
        final(buf)@ == without_last_word(old(buf)@),
{
    let chars = chars_of(buf.as_str());
    proof {
        lemma_trail_ws_bounds(chars@);
        assert(chars@.take(chars@.len() as int) =~= chars@);
    }
    let ws = trailing_ws_len(&chars);
    let k = chars.len() - ws;
    let ghost t = chars@.take(k as int);
    proof {
        lemma_trail_word_bounds(t);
    }
    let mut i: usize = k;
    assert(t.take(k as int) =~= t);
    while i > 0 && !char_is_whitespace(chars[i - 1])
        invariant
            i <= k <= chars@.len(),
            t == chars@.take(k as int),
            trail_word(t) == (k - i) + trail_word(t.take(i as int)),
        decreases i,
    {
        let ghost rest = t.take(i as int);
        assert(rest.drop_last() =~= t.take(i - 1));
        assert(rest.last() == chars@[i - 1]);
        i = i - 1;
    }
    proof {
        let rest = t.take(i as int);
        if i > 0 {
            assert(rest.last() == chars@[i - 1]);
        }
        assert(t.take(t.len() - trail_word(t)) =~= chars@.take(i as int));
    }
    let mut out: Vec<char> = Vec::new();
    let mut j: usize = 0;
    while j < i
        invariant
            j <= i <= chars@.len(),
            out@ == chars@.take(j as int),
        decreases i - j,
    {
        out.push(chars[j]);
        assert(out@ =~= chars@.take(j + 1));
        j = j + 1;
    }
    *buf = string_of(out.as_slice());
}

/// Appends pasted text to the input, sanitized (see `pasted_char`) and cut
/// so the input holds at most `max` characters.
pub fn push_chars_respecting_limit(out: &mut String, text: &str, max: usize)
    ensures
        final(out)@ == old(out)@ + upto(
            pasted_chars(text@),
            if old(out)@.len() >= max {
                0
            } else {
                max - old(out)@.len()
            },
        ),
{
    let have = chars_of(out.as_str()).len();
    let room: usize = if have >= max {
        0
    } else {
        max - have
    };
    let ghost o0 = out@;
    let cs = chars_of(text);
    let mut n: usize = 0;
    let mut i: usize = 0;
    proof {
        lemma_pasted_len(cs@);
    }
    while i < cs.len() && n < room
        invariant
            i <= cs@.len(),
            cs@ == text@,
            n <= room,
            pasted_chars(cs@.take(i as int)).len() == n,
            out@ == o0 + pasted_chars(cs@.take(i as int)),
        decreases cs@.len() - i,
    {
        assert(cs@.take(i + 1).drop_last() =~= cs@.take(i as int));
        if let Some(c) = sanitize_pasted_char(cs[i]) {
            push_char(out, c);
            n = n + 1;
        }
        i = i + 1;
    }
    proof {
        lemma_pasted_prefix(cs@, i as int);
        if i == cs@.len() {
            assert(cs@.take(i as int) =~= cs@);
        }
        assert(pasted_chars(cs@.take(i as int)) =~= upto(pasted_chars(cs@), room as int));
    }
}

/// The first `n` items, or all of them when there are fewer.
pub open spec fn upto<T>(s: Seq<T>, n: int) -> Seq<T> {
    if n < s.len() {
        s.take(n)
    } else {
        s
    }
}

proof fn lemma_pasted_len(s: Seq<char>)
    ensures
        pasted_chars(s).len() <= s.len(),
    decreases s.len(),
{
    if s.len() > 0 {
        lemma_pasted_len(s.drop_last());
    }
}

/// What a prefix of the pasted text leaves is a prefix of what all of it leaves.
proof fn lemma_pasted_prefix(s: Seq<char>, i: int)
    requires
        0 <= i <= s.len(),
    ensures
        pasted_chars(s.take(i)) == pasted_chars(s).take(pasted_chars(s.take(i)).len() as int),
        pasted_chars(s.take(i)).len() <= pasted_chars(s).len(),
    decreases s.len() - i,
{
    if i < s.len() {
        lemma_pasted_prefix(s, i + 1);
        assert(s.take(i + 1).drop_last() =~= s.take(i));
        let a = pasted_chars(s.take(i));
        let b = pasted_chars(s.take(i + 1));
        assert(a =~= b.take(a.len() as int));
        assert(a =~= pasted_chars(s).take(a.len() as int));
    } else {
        assert(s.take(i) =~= s);
        assert(pasted_chars(s) =~= pasted_chars(s).take(pasted_chars(s).len() as int));
    }
}

/// The server selected at start-up: direct messages when last left there,
/// the last guild when it is still listed, else the first guild, else
/// direct messages.
pub open spec fn initial_server(last: Option<Seq<char>>, gs: Seq<GuildResponse>) -> Option<Seq<char>> {
    if last == Some("@me"@) {
        None
    } else if last matches Some(id) && exists|i: int| 0 <= i < gs.len() && #[trigger] gs[i].id@ == id {
        last
    } else if gs.len() > 0 {
        Some(gs[0].id@)
    } else {
        None
    }
}

/// The server selected at start-up; see `initial_server`.
#[verifier::loop_isolation(false)]
pub fn resolve_initial_server(config: &AppConfig, guilds: &[GuildResponse]) -> (r: ServerSelection)
    ensures
        crate::app::server_view(r) == initial_server(crate::app::opt_str(config.last_server_id), guilds@),
{
    proof {
        reveal_strlit("@me");
    }
    match &config.last_server_id {
        Some(id) => {
            if str_eq(id.as_str(), "@me") {
                return ServerSelection::DirectMessages;
            }
            let mut i: usize = 0;
            while i < guilds.len()
                invariant
                    i <= guilds@.len(),
                    forall|j: int| 0 <= j < i ==> #[trigger] guilds@[j].id@ != id@,
                decreases guilds@.len() - i,
            {
                if str_eq(guilds[i].id.as_str(), id.as_str()) {
                    return ServerSelection::Guild(id.clone());
                }
                i = i + 1;
            }
        },
        None => {},
    }
    if guilds.len() > 0 {
        ServerSelection::Guild(guilds[0].id.clone())
    } else {
        ServerSelection::DirectMessages
    }
}

/// The typing notice with its own trailing `...` replaced by the animated dots.
pub open spec fn with_dots(phrase: Seq<char>, dots: Seq<char>) -> Seq<char> {
    if ends_with(phrase, "..."@) {
        phrase.take(phrase.len() - 3) + dots
    } else {
        phrase + dots
    }
}

/// The typing notice with animated dots; see `with_dots`.
pub fn typing_line_with_dots(phrase: &str, dots: &str) -> (r: String)
    ensures
        r@ == with_dots(phrase@, dots@),
{
    let cs = chars_of(phrase);
    proof {
        reveal_strlit("...");
    }
    let n = cs.len();
    let ends = n >= 3 && cs[n - 3] == '.' && cs[n - 2] == '.' && cs[n - 1] == '.';
    assert(ends == ends_with(phrase@, "..."@)) by {
        assert("..."@ =~= seq!['.', '.', '.']);
        if n >= 3 {
            let tail = phrase@.subrange(n - 3, n as int);
            assert(tail[0] == cs@[n - 3] && tail[1] == cs@[n - 2] && tail[2] == cs@[n - 1]);
            if ends {
                assert(tail =~= "..."@);
            } else if tail == "..."@ {
                assert(tail[0] == '.' && tail[1] == '.' && tail[2] == '.');
            }
        }
    }
    let keep = if ends {
        n - 3
    } else {
        n
    };
    let mut out: Vec<char> = Vec::new();
    let mut j: usize = 0;
    while j < keep
        invariant
            j <= keep <= cs@.len(),
            out@ == cs@.take(j as int),
        decreases keep - j,
    {
        out.push(cs[j]);
        assert(out@ =~= cs@.take(j + 1));
        j = j + 1;
    }
    let mut s = string_of(out.as_slice());
    s.append(dots);
    assert(cs@.take(n as int) =~= cs@);
    s
}

} // verus!
