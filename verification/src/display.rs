//! Texts and sizes the front end shows: link labels, channel welcome
//! titles, reply previews, switch labels and the sidebar's proportions.
use crate::messages::{decimal, u128_to_decimal};
use crate::names::{display_name_spec, display_names, join, join_display_names, display_name};
use crate::text::{
    blank, chars_of, concat, contains, ends_with, is_blank, is_web_url, is_web_url_exec, lowercase,
    owned, str_contains, str_ends_with, str_eq, string_of, take, to_lowercase, trim, trim_chars,
};
use crate::types::{
    spec_channel_type, ChannelResponse, EmbedMediaResponse, MessageEmbedResponse, MessageResponse,
    CHANNEL_DM, CHANNEL_DM_PERSONAL_NOTES, CHANNEL_GROUP_DM, CHANNEL_GUILD_TEXT,
};
use vstd::prelude::*;

verus! {

/// A URL trimmed and, when longer than `max` characters, cut to `max - 1` and
/// ended with an ellipsis.
pub open spec fn clipped(url: Seq<char>, max: usize) -> Seq<char> {
    let t = trim(url);
    if t.len() <= max {
        t
    } else {
        take(t, if max > 0 {
            max - 1
        } else {
            0
        }) + seq!['…']
    }
}

/// A URL as shown in a message; see `clipped`.
pub fn clip_url_for_display(url: &str, max_chars: usize) -> (r: String)
    ensures
        r@ == clipped(url@, max_chars),
{
    let t = trim_chars(&chars_of(url));
    if t.len() <= max_chars {
        return string_of(t.as_slice());
    }
    let keep: usize = if max_chars > 0 {
        max_chars - 1
    } else {
        0
    };
    let mut out: Vec<char> = Vec::new();
    let mut i: usize = 0;
    while i < keep
        invariant
            i <= keep < t@.len(),
            out@ == t@.take(i as int),
        decreases keep - i,
    {
        out.push(t[i]);
        assert(out@ =~= t@.take(i + 1));
        i = i + 1;
    }
    out.push('…');
    string_of(out.as_slice())
}

/// The address of an image or thumbnail: the proxy's, else the original's.
pub open spec fn media_link(m: Option<EmbedMediaResponse>) -> Option<String> {
    match m {
        Some(x) => match x.proxy_url {
            Some(p) => Some(p),
            None => x.url,
        },
        None => None,
    }
}

/// The embed's own link, when it is a web address.
pub open spec fn embed_web_url(e: MessageEmbedResponse) -> Option<String> {
    match e.url {
        Some(u) => if is_web_url(u@) {
            Some(u)
        } else {
            None
        },
        None => None,
    }
}

/// Whether an address names a GIF (by its extension, ignoring case).
pub open spec fn gif_name(u: Seq<char>) -> bool {
    ends_with(lowercase(u), ".gif"@)
}

/// Whether an embed shows an animation: its type is `gifv`, its web link is
/// on tenor.com or names a GIF, or its image's address names a GIF.
pub open spec fn embed_is_gif(e: MessageEmbedResponse) -> bool {
    ||| e.embed_type@ == "gifv"@
    ||| (embed_web_url(e) matches Some(u) && (contains(u@, "tenor.com"@) || gif_name(u@)))
    ||| (e.image matches Some(m) && match m.url {
        Some(u) => gif_name(u@),
        None => match m.proxy_url {
            Some(p) => gif_name(p@),
            None => false,
        },
    })
}

/// The label of an embed: its web link, else its image's or thumbnail's
/// address, clipped to 72 characters; empty without any.
pub open spec fn embed_label(e: MessageEmbedResponse) -> Seq<char> {
    match embed_web_url(e) {
        Some(u) => clipped(u@, 72),
        None => match media_link(e.image) {
            Some(u) => clipped(u@, 72),
            None => match media_link(e.thumbnail) {
                Some(u) => clipped(u@, 72),
                None => Seq::empty(),
            },
        },
    }
}

fn names_gif(u: &str) -> (r: bool)
    ensures
        r == gif_name(u@),
{
    str_ends_with(to_lowercase(u).as_str(), ".gif")
}

fn media_link_exec(m: &Option<EmbedMediaResponse>) -> (r: Option<&String>)
    ensures
        match (r, media_link(*m)) {
            (Some(x), Some(y)) => *x == y,
            (None, None) => true,
            _ => false,
        },
{
    match m {
        Some(x) => match &x.proxy_url {
            Some(p) => Some(p),
            None => match &x.url {
                Some(u) => Some(u),
                None => None,
            },
        },
        None => None,
    }
}

/// An embed's label and whether it is an animation; see `embed_label` and `embed_is_gif`.
pub fn embed_display_label(embed: &MessageEmbedResponse) -> (r: (String, bool))
    ensures
        r.0@ == embed_label(*embed),
        r.1 == embed_is_gif(*embed),
{
    let original: Option<&String> = match &embed.url {
        Some(u) => if is_web_url_exec(u.as_str()) {
            Some(u)
        } else {
            None
        },
        None => None,
    };
    let from_link = match original {
        Some(u) => str_contains(u.as_str(), "tenor.com") || names_gif(u.as_str()),
        None => false,
    };
    let from_image = match &embed.image {
        Some(m) => match &m.url {
            Some(u) => names_gif(u.as_str()),
            None => match &m.proxy_url {
                Some(p) => names_gif(p.as_str()),
                None => false,
            },
        },
        None => false,
    };
    let is_gif = str_eq(embed.embed_type.as_str(), "gifv") || from_link || from_image;
    let label = match original {
        Some(u) => clip_url_for_display(u.as_str(), 72),
        None => match media_link_exec(&embed.image) {
            Some(u) => clip_url_for_display(u.as_str(), 72),
            None => match media_link_exec(&embed.thumbnail) {
                Some(u) => clip_url_for_display(u.as_str(), 72),
                None => String::new(),
            },
        },
    };
    (label, is_gif)
}

/// The title of a channel's welcome text: `#name` for a text channel (or a
/// named guild channel), "Personal Notes", the other person of a direct
/// message, a group's name or its members.
pub open spec fn welcome_label(c: ChannelResponse) -> Seq<char> {
    let t = spec_channel_type(c);
    if t == CHANNEL_GUILD_TEXT {
        seq!['#'] + c.name@
    } else if t == CHANNEL_DM_PERSONAL_NOTES {
        "Personal Notes"@
    } else if t == CHANNEL_DM {
        if c.recipients@.len() > 0 {
            display_name_spec(c.recipients@[0])
        } else {
            "Direct Message"@
        }
    } else if t == CHANNEL_GROUP_DM {
        if !is_blank(c.name@) {
            c.name@
        } else if c.recipients@.len() > 0 {
            join(display_names(c.recipients@), ", "@)
        } else {
            "Group DM"@
        }
    } else if c.guild_id is Some && c.name@.len() > 0 {
        seq!['#'] + c.name@
    } else {
        c.name@
    }
}

/// The title of a channel's welcome text; see `welcome_label`.
pub fn channel_welcome_label(channel: &ChannelResponse) -> (r: String)
    ensures
        r@ == welcome_label(*channel),
{
    proof {
        reveal_strlit("#");
    }
    let t = channel.channel_type();
    if t == CHANNEL_GUILD_TEXT {
        concat("#", channel.name.as_str())
    } else if t == CHANNEL_DM_PERSONAL_NOTES {
        owned("Personal Notes")
    } else if t == CHANNEL_DM {
        if channel.recipients.len() > 0 {
            display_name(&channel.recipients[0])
        } else {
            owned("Direct Message")
        }
    } else if t == CHANNEL_GROUP_DM {
        if !blank(channel.name.as_str()) {
            channel.name.clone()
        } else if channel.recipients.len() > 0 {
            join_display_names(&channel.recipients)
        } else {
            owned("Group DM")
        }
    } else if channel.guild_id.is_some() && !channel.name.as_str().is_empty() {
        concat("#", channel.name.as_str())
    } else {
        channel.name.clone()
    }
}

/// Whether a message was edited: it carries an edit time that is not blank.
pub fn message_was_edited(message: &MessageResponse) -> (r: bool)
    ensures
        r == (message.edited_timestamp matches Some(s) && !is_blank(s@)),
{
    match &message.edited_timestamp {
        Some(s) => !blank(s.as_str()),
        None => false,
    }
}

/// Text without line breaks.
pub open spec fn one_line(s: Seq<char>) -> Seq<char>
    decreases s.len(),
{
    if s.len() == 0 {
        s
    } else if s.last() == '\n' || s.last() == '\r' {
        one_line(s.drop_last())
    } else {
        one_line(s.drop_last()).push(s.last())
    }
}

/// What a reply shows of the message it answers: its text on one line, cut
/// to 72 characters with an ellipsis; else its file name or number of
/// files; else "[embed]" or "(no text)".
pub open spec fn reply_preview(m: MessageResponse) -> Seq<char> {
    let c = trim(m.content@);
    if c.len() > 0 {
        let flat = one_line(c);
        if flat.len() > 72 {
            flat.take(72) + seq!['…']
        } else {
            flat
        }
    } else if m.attachments@.len() > 0 {
        if m.attachments@.len() == 1 {
            "[file: "@ + m.attachments@[0].filename@ + "]"@
        } else {
            "["@ + decimal(m.attachments@.len()) + " attachments]"@
        }
    } else if m.embeds@.len() > 0 {
        "[embed]"@
    } else {
        "(no text)"@
    }
}

/// What a reply shows of the message it answers; see `reply_preview`.
pub fn referenced_body_preview(ref_msg: &MessageResponse) -> (r: String)
    ensures
        r@ == reply_preview(*ref_msg),
{
    let c = trim_chars(&chars_of(ref_msg.content.as_str()));
    if c.len() > 0 {
        let mut flat: Vec<char> = Vec::new();
        let mut i: usize = 0;
        while i < c.len()
            invariant
                i <= c@.len(),
                flat@ == one_line(c@.take(i as int)),
            decreases c@.len() - i,
        {
            assert(c@.take(i + 1).drop_last() =~= c@.take(i as int));
            if c[i] != '\n' && c[i] != '\r' {
                flat.push(c[i]);
            }
            i = i + 1;
        }
        assert(c@.take(c@.len() as int) =~= c@);
        if flat.len() > 72 {
            let mut out: Vec<char> = Vec::new();
            let mut j: usize = 0;
            while j < 72
                invariant
                    j <= 72 < flat@.len(),
                    out@ == flat@.take(j as int),
                decreases 72 - j,
            {
                out.push(flat[j]);
                assert(out@ =~= flat@.take(j + 1));
                j = j + 1;
            }
            out.push('…');
            string_of(out.as_slice())
        } else {
            string_of(flat.as_slice())
        }
    } else if ref_msg.attachments.len() > 0 {
        if ref_msg.attachments.len() == 1 {
            let mut s = concat("[file: ", ref_msg.attachments[0].filename.as_str());
            s.append("]");
            s
        } else {
            let mut s = concat("[", u128_to_decimal(ref_msg.attachments.len() as u128).as_str());
            s.append(" attachments]");
            s
        }
    } else if ref_msg.embeds.len() > 0 {
        owned("[embed]")
    } else {
        owned("(no text)")
    }
}

/// The label of a switch: "On" or "Off".
pub fn bool_label(value: bool) -> (r: &'static str)
    ensures
        r@ == (if value {
            "On"@
        } else {
            "Off"@
        }),
{
    if value {
        "On"
    } else {
        "Off"
    }
}

/// The sidebar takes a quarter of the terminal's width, at least 22 and at most 50 columns.
pub fn sidebar_width(terminal_width: u16) -> (r: u16)
    ensures
        r == (if terminal_width / 4 < 22 {
            22
        } else if terminal_width / 4 > 50 {
            50
        } else {
            terminal_width / 4
        }),
{
    let w = terminal_width / 4;
    if w < 22 {
        22
    } else if w > 50 {
        50
    } else {
        w
    }
}

/// The server list's rows in a sidebar of `h` rows: three tenths of it,
/// between 3 and 12, leaving at least three rows for the channels and
/// taking at least one.
pub open spec fn server_rows(h: u16) -> int {
    if h <= 3 {
        1
    } else {
        let max_for_server = h - 3;
        let d = h * 3 / 10;
        let desired = if d < 3 {
            3
        } else if d > 12 {
            12
        } else {
            d
        };
        let m = if desired < max_for_server {
            desired
        } else {
            max_for_server
        };
        if m < 1 {
            1
        } else {
            m
        }
    }
}

/// The server list's rows; see `server_rows`.
pub fn server_list_height(sidebar_height: u16) -> (r: u16)
    requires
        sidebar_height * 3 <= u16::MAX,
    ensures
        r == server_rows(sidebar_height),
{
    if sidebar_height <= 3 {
        return 1;
    }
    let max_for_server = sidebar_height - 3;
    let d = sidebar_height * 3 / 10;
    let desired = if d < 3 {
        3
    } else if d > 12 {
        12
    } else {
        d
    };
    let m = if desired < max_for_server {
        desired
    } else {
        max_for_server
    };
    if m < 1 {
        1
    } else {
        m
    }
}

} // verus!
