//! Which attachment or embed of a message can be previewed, and the small
//! byte and file-name checks used when fetching it.
use crate::text::{
    chars_of, ends_with, ends_with_exec, is_blank, is_web_url, is_web_url_exec, lowercase, owned,
    starts_with, str_eq, str_starts_with, to_lowercase,
};
use crate::types::{
    EmbedMediaResponse, MessageAttachmentResponse, MessageEmbedResponse, MessageResponse,
};
use vstd::prelude::*;

verus! {

/// The media URL to use: the proxy URL, else the URL, kept only when it is a web URL.
pub open spec fn pick_url(proxy: Option<String>, url: Option<String>) -> Option<Seq<char>> {
    let u = match proxy {
        Some(p) => Some(p@),
        None => match url {
            Some(x) => Some(x@),
            None => None,
        },
    };
    match u {
        Some(x) => if is_web_url(x) {
            Some(x)
        } else {
            None
        },
        None => None,
    }
}

fn pick_url_exec(proxy: &Option<String>, url: &Option<String>) -> (r: Option<String>)
    ensures
        r matches Some(s) ==> pick_url(*proxy, *url) == Some(s@),
        r is None <==> pick_url(*proxy, *url) is None,
{
    let u = match proxy {
        Some(p) => Some(p.clone()),
        None => match url {
            Some(x) => Some(x.clone()),
            None => None,
        },
    };
    match u {
        Some(x) => if is_web_url_exec(x.as_str()) {
            Some(x)
        } else {
            None
        },
        None => None,
    }
}

pub fn pick_media_url(m: &EmbedMediaResponse) -> (r: Option<String>)
    ensures
        r matches Some(s) ==> pick_url(m.proxy_url, m.url) == Some(s@),
        r is None <==> pick_url(m.proxy_url, m.url) is None,
{
    pick_url_exec(&m.proxy_url, &m.url)
}

pub open spec fn ends_with_any(s: Seq<char>, exts: Seq<Seq<char>>) -> bool {
    exists|i: int| 0 <= i < exts.len() && ends_with(s, #[trigger] exts[i])
}

pub open spec fn image_exts() -> Seq<Seq<char>> {
    seq![".png"@, ".jpg"@, ".jpeg"@, ".gif"@, ".webp"@, ".bmp"@, ".avif"@]
}

pub open spec fn video_exts() -> Seq<Seq<char>> {
    seq![".mp4"@, ".webm"@, ".mov"@, ".mkv"@, ".avi"@, ".m4v"@, ".ogv"@]
}

pub open spec fn mime_of(a: MessageAttachmentResponse) -> Seq<char> {
    match a.content_type {
        Some(m) => m@,
        None => Seq::empty(),
    }
}

/// An attachment that looks like an image, by MIME type or file extension.
pub open spec fn is_image_attachment(a: MessageAttachmentResponse) -> bool {
    starts_with(mime_of(a), "image/"@) || ends_with_any(lowercase(a.filename@), image_exts())
}

/// An attachment that looks like a video, by MIME type or file extension.
pub open spec fn is_video_attachment(a: MessageAttachmentResponse) -> bool {
    starts_with(mime_of(a), "video/"@) || ends_with_any(lowercase(a.filename@), video_exts())
}

fn ends_with_any_exec(s: &str, exts: &Vec<&'static str>) -> (r: bool)
    ensures
        r == exists|i: int| 0 <= i < exts@.len() && ends_with(s@, #[trigger] exts@[i]@),
{
    let sv = chars_of(s);
    let mut i: usize = 0;
    while i < exts.len()
        invariant
            i <= exts@.len(),
            sv@ == s@,
            forall|j: int| 0 <= j < i ==> !ends_with(s@, #[trigger] exts@[j]@),
        decreases exts@.len() - i,
    {
        if ends_with_exec(&sv, &chars_of(exts[i])) {
            return true;
        }
        i = i + 1;
    }
    false
}

fn mime(a: &MessageAttachmentResponse) -> (r: String)
    ensures
        r@ == mime_of(*a),
{
    match &a.content_type {
        Some(m) => m.clone(),
        None => String::new(),
    }
}

pub fn attachment_is_probably_image(a: &MessageAttachmentResponse) -> (r: bool)
    ensures
        r == is_image_attachment(*a),
{
    if str_starts_with(mime(a).as_str(), "image/") {
        return true;
    }
    let n = to_lowercase(a.filename.as_str());
    let exts = vec![".png", ".jpg", ".jpeg", ".gif", ".webp", ".bmp", ".avif"];
    let r = ends_with_any_exec(n.as_str(), &exts);
    proof {
        assert(exts@.len() == image_exts().len());
        assert forall|i: int| 0 <= i < exts@.len() implies exts@[i]@ == #[trigger] image_exts()[i] by {}
        if r {
            let i = choose|i: int| 0 <= i < exts@.len() && ends_with(n@, #[trigger] exts@[i]@);
            assert(ends_with(lowercase(a.filename@), image_exts()[i]));
        }
        if ends_with_any(lowercase(a.filename@), image_exts()) {
            let i = choose|i: int| 0 <= i < image_exts().len() && ends_with(lowercase(a.filename@), #[trigger] image_exts()[i]);
            assert(ends_with(n@, exts@[i]@));
        }
    }
    r
}

pub fn attachment_is_probably_video(a: &MessageAttachmentResponse) -> (r: bool)
    ensures
        r == is_video_attachment(*a),
{
    if str_starts_with(mime(a).as_str(), "video/") {
        return true;
    }
    let n = to_lowercase(a.filename.as_str());
    let exts = vec![".mp4", ".webm", ".mov", ".mkv", ".avi", ".m4v", ".ogv"];
    let r = ends_with_any_exec(n.as_str(), &exts);
    proof {
        assert(exts@.len() == video_exts().len());
        assert forall|i: int| 0 <= i < exts@.len() implies exts@[i]@ == #[trigger] video_exts()[i] by {}
        if r {
            let i = choose|i: int| 0 <= i < exts@.len() && ends_with(n@, #[trigger] exts@[i]@);
            assert(ends_with(lowercase(a.filename@), video_exts()[i]));
        }
        if ends_with_any(lowercase(a.filename@), video_exts()) {
            let i = choose|i: int| 0 <= i < video_exts().len() && ends_with(lowercase(a.filename@), #[trigger] video_exts()[i]);
            assert(ends_with(n@, exts@[i]@));
        }
    }
    r
}

/// The image URL of an attachment that looks like an image.
pub open spec fn attachment_image_spec(a: MessageAttachmentResponse) -> Option<Seq<char>> {
    if is_image_attachment(a) {
        pick_url(a.proxy_url, a.url)
    } else {
        None
    }
}

/// The video URL of an attachment that looks like a video.
pub open spec fn attachment_video_spec(a: MessageAttachmentResponse) -> Option<Seq<char>> {
    if is_video_attachment(a) {
        pick_url(a.proxy_url, a.url)
    } else {
        None
    }
}

pub fn attachment_image_url(a: &MessageAttachmentResponse) -> (r: Option<String>)
    ensures
        r matches Some(s) ==> attachment_image_spec(*a) == Some(s@),
        r is None <==> attachment_image_spec(*a) is None,
{
    if !attachment_is_probably_image(a) {
        return None;
    }
    pick_url_exec(&a.proxy_url, &a.url)
}

pub fn attachment_video_url(a: &MessageAttachmentResponse) -> (r: Option<String>)
    ensures
        r matches Some(s) ==> attachment_video_spec(*a) == Some(s@),
        r is None <==> attachment_video_spec(*a) is None,
{
    if !attachment_is_probably_video(a) {
        return None;
    }
    pick_url_exec(&a.proxy_url, &a.url)
}

pub open spec fn media_pick(m: Option<EmbedMediaResponse>) -> Option<Seq<char>> {
    match m {
        Some(x) => pick_url(x.proxy_url, x.url),
        None => None,
    }
}

/// The image of an embed: its image, else its thumbnail.
pub open spec fn embed_image_spec(e: MessageEmbedResponse) -> Option<Seq<char>> {
    match media_pick(e.image) {
        Some(u) => Some(u),
        None => media_pick(e.thumbnail),
    }
}

fn media_pick_exec(m: &Option<EmbedMediaResponse>) -> (r: Option<String>)
    ensures
        r matches Some(s) ==> media_pick(*m) == Some(s@),
        r is None <==> media_pick(*m) is None,
{
    match m {
        Some(x) => pick_media_url(x),
        None => None,
    }
}

pub fn embed_image_url(embed: &MessageEmbedResponse) -> (r: Option<String>)
    ensures
        r matches Some(s) ==> embed_image_spec(*embed) == Some(s@),
        r is None <==> embed_image_spec(*embed) is None,
{
    match media_pick_exec(&embed.image) {
        Some(u) => Some(u),
        None => media_pick_exec(&embed.thumbnail),
    }
}

pub open spec fn is_direct_media_type(t: Seq<char>) -> bool {
    t == "image"@ || t == "gifv"@ || t == "video"@
}

/// For image, gifv and video embeds: the image's proxy URL or URL, else the
/// embed URL, kept only when it is a web URL.
pub open spec fn embed_direct_spec(e: MessageEmbedResponse) -> Option<Seq<char>> {
    if is_direct_media_type(e.embed_type@) {
        let img = match e.image {
            Some(m) => match m.proxy_url {
                Some(p) => Some(p@),
                None => match m.url {
                    Some(u) => Some(u@),
                    None => None,
                },
            },
            None => None,
        };
        let u = match img {
            Some(x) => Some(x),
            None => match e.url {
                Some(x) => Some(x@),
                None => None,
            },
        };
        match u {
            Some(x) => if is_web_url(x) {
                Some(x)
            } else {
                None
            },
            None => None,
        }
    } else {
        None
    }
}

fn is_direct_media_type_exec(t: &str) -> (r: bool)
    ensures
        r == is_direct_media_type(t@),
{
    str_eq(t, "image") || str_eq(t, "gifv") || str_eq(t, "video")
}

pub fn embed_direct_media_url(embed: &MessageEmbedResponse) -> (r: Option<String>)
    ensures
        r matches Some(s) ==> embed_direct_spec(*embed) == Some(s@),
        r is None <==> embed_direct_spec(*embed) is None,
{
    if !is_direct_media_type_exec(embed.embed_type.as_str()) {
        return None;
    }
    let img: Option<String> = match &embed.image {
        Some(m) => match &m.proxy_url {
            Some(p) => Some(p.clone()),
            None => match &m.url {
                Some(u) => Some(u.clone()),
                None => None,
            },
        },
        None => None,
    };
    let u = match img {
        Some(x) => Some(x),
        None => match &embed.url {
            Some(x) => Some(x.clone()),
            None => None,
        },
    };
    match u {
        Some(x) => if is_web_url_exec(x.as_str()) {
            Some(x)
        } else {
            None
        },
        None => None,
    }
}

/// The embed's title when it is not blank, else the fallback.
pub open spec fn embed_label_spec(e: MessageEmbedResponse, fallback: Seq<char>) -> Seq<char> {
    match e.title {
        Some(t) => if !is_blank(t@) {
            t@
        } else {
            fallback
        },
        None => fallback,
    }
}

pub fn embed_label(embed: &MessageEmbedResponse, fallback: &str) -> (r: String)
    ensures
        r@ == embed_label_spec(*embed, fallback@),
{
    match &embed.title {
        Some(t) => if !crate::text::blank(t.as_str()) {
            t.clone()
        } else {
            owned(fallback)
        },
        None => owned(fallback),
    }
}

#[derive(Debug, Clone)]
pub enum MessagePreviewMedia {
    Image { url: String, label: String },
    Video { url: String, label: String },
}

/// A preview choice over character sequences: image or video, URL and label.
pub struct PreviewChoice {
    pub is_video: bool,
    pub url: Seq<char>,
    pub label: Seq<char>,
}

impl View for MessagePreviewMedia {
    type V = PreviewChoice;

    open spec fn view(&self) -> PreviewChoice {
        match self {
            MessagePreviewMedia::Image { url, label } => PreviewChoice {
                is_video: false,
                url: url@,
                label: label@,
            },
            MessagePreviewMedia::Video { url, label } => PreviewChoice {
                is_video: true,
                url: url@,
                label: label@,
            },
        }
    }
}

pub open spec fn label_or(name: Seq<char>, fallback: Seq<char>) -> Seq<char> {
    if name.len() == 0 {
        fallback
    } else {
        name
    }
}

/// The first index in `s[from..]` whose element has a value under `f`, or `s.len()`.
pub open spec fn first_some<T, U>(s: Seq<T>, f: spec_fn(T) -> Option<U>, from: int) -> int
    decreases s.len() - from,
{
    if from < 0 || from >= s.len() {
        s.len() as int
    } else if f(s[from]) is Some {
        from
    } else {
        first_some(s, f, from + 1)
    }
}

pub open spec fn video_embed_url(e: MessageEmbedResponse) -> Option<Seq<char>> {
    if e.embed_type@ == "video"@ || e.embed_type@ == "gifv"@ {
        embed_direct_spec(e)
    } else {
        None
    }
}

pub open spec fn image_embed_url(e: MessageEmbedResponse) -> Option<Seq<char>> {
    match embed_image_spec(e) {
        Some(u) => Some(u),
        None => embed_direct_spec(e),
    }
}

/// The media that Ctrl+O opens for a message: the first image attachment,
/// else the first video attachment, else the first video or gifv embed,
/// else the first embed with an image.
pub open spec fn preview_spec(m: MessageResponse) -> Option<PreviewChoice> {
    let a = m.attachments@;
    let e = m.embeds@;
    let ia = first_some(a, |x: MessageAttachmentResponse| attachment_image_spec(x), 0);
    let va = first_some(a, |x: MessageAttachmentResponse| attachment_video_spec(x), 0);
    let ve = first_some(e, |x: MessageEmbedResponse| video_embed_url(x), 0);
    let ie = first_some(e, |x: MessageEmbedResponse| image_embed_url(x), 0);
    if ia < a.len() {
        Some(
            PreviewChoice {
                is_video: false,
                url: attachment_image_spec(a[ia])->0,
                label: label_or(a[ia].filename@, "image"@),
            },
        )
    } else if va < a.len() {
        Some(
            PreviewChoice {
                is_video: true,
                url: attachment_video_spec(a[va])->0,
                label: label_or(a[va].filename@, "video"@),
            },
        )
    } else if ve < e.len() {
        Some(
            PreviewChoice {
                is_video: true,
                url: video_embed_url(e[ve])->0,
                label: embed_label_spec(e[ve], "video"@),
            },
        )
    } else if ie < e.len() {
        Some(
            PreviewChoice {
                is_video: false,
                url: image_embed_url(e[ie])->0,
                label: embed_label_spec(e[ie], "embed image"@),
            },
        )
    } else {
        None
    }
}

pub proof fn lemma_first_some_step<T, U>(s: Seq<T>, f: spec_fn(T) -> Option<U>, i: int)
    requires
        0 <= i < s.len(),
        f(s[i]) is None,
    ensures
        first_some(s, f, i) == first_some(s, f, i + 1),
{
}

pub proof fn lemma_first_some_end<T, U>(s: Seq<T>, f: spec_fn(T) -> Option<U>, i: int)
    requires
        0 <= i,
        i >= s.len(),
    ensures
        first_some(s, f, i) == s.len(),
{
}

/// The first image or video of a message suitable for previewing.
#[verifier::loop_isolation(false)]
pub fn first_message_preview_media(msg: &MessageResponse) -> (r: Option<MessagePreviewMedia>)
    ensures
        r matches Some(m) ==> preview_spec(*msg) == Some(m@),
        r is None <==> preview_spec(*msg) is None,
{
    let ghost a = msg.attachments@;
    let ghost e = msg.embeds@;
    let ghost fi = |x: MessageAttachmentResponse| attachment_image_spec(x);
    let ghost fv = |x: MessageAttachmentResponse| attachment_video_spec(x);
    let ghost gv = |x: MessageEmbedResponse| video_embed_url(x);
    let ghost gi = |x: MessageEmbedResponse| image_embed_url(x);
    let mut i: usize = 0;
    while i < msg.attachments.len()
        invariant
            i <= a.len(),
            first_some(a, fi, 0) == first_some(a, fi, i as int),
        decreases a.len() - i,
    {
        let at = &msg.attachments[i];
        if let Some(u) = attachment_image_url(at) {
            let label = if at.filename.as_str().is_empty() {
                owned("image")
            } else {
                at.filename.clone()
            };
            return Some(MessagePreviewMedia::Image { url: u, label });
        }
        proof {
            lemma_first_some_step(a, fi, i as int);
        }
        i = i + 1;
    }
    let mut i: usize = 0;
    while i < msg.attachments.len()
        invariant
            i <= a.len(),
            first_some(a, fi, 0) == a.len(),
            first_some(a, fv, 0) == first_some(a, fv, i as int),
        decreases a.len() - i,
    {
        let at = &msg.attachments[i];
        if let Some(u) = attachment_video_url(at) {
            let label = if at.filename.as_str().is_empty() {
                owned("video")
            } else {
                at.filename.clone()
            };
            return Some(MessagePreviewMedia::Video { url: u, label });
        }
        proof {
            lemma_first_some_step(a, fv, i as int);
        }
        i = i + 1;
    }
    let mut i: usize = 0;
    while i < msg.embeds.len()
        invariant
            i <= e.len(),
            first_some(a, fi, 0) == a.len(),
            first_some(a, fv, 0) == a.len(),
            first_some(e, gv, 0) == first_some(e, gv, i as int),
        decreases e.len() - i,
    {
        let em = &msg.embeds[i];
        let t = em.embed_type.as_str();
        if str_eq(t, "video") || str_eq(t, "gifv") {
            if let Some(u) = embed_direct_media_url(em) {
                return Some(MessagePreviewMedia::Video { url: u, label: embed_label(em, "video") });
            }
        }
        proof {
            lemma_first_some_step(e, gv, i as int);
        }
        i = i + 1;
    }
    let mut i: usize = 0;
    while i < msg.embeds.len()
        invariant
            i <= e.len(),
            first_some(a, fi, 0) == a.len(),
            first_some(a, fv, 0) == a.len(),
            first_some(e, gv, 0) == e.len(),
            first_some(e, gi, 0) == first_some(e, gi, i as int),
        decreases e.len() - i,
    {
        let em = &msg.embeds[i];
        let u = match embed_image_url(em) {
            Some(u) => Some(u),
            None => embed_direct_media_url(em),
        };
        if let Some(u) = u {
            return Some(MessagePreviewMedia::Image { url: u, label: embed_label(em, "embed image") });
        }
        proof {
            lemma_first_some_step(e, gi, i as int);
        }
        i = i + 1;
    }
    None
}

/// Whether the bytes start with a GIF signature.
pub open spec fn gif_signature(b: Seq<u8>) -> bool {
    b.len() >= 6 && (b.subrange(0, 6) == seq![71u8, 73, 70, 56, 55, 97] || b.subrange(0, 6)
        == seq![71u8, 73, 70, 56, 57, 97])
}

/// True for bytes that start with `GIF87a` or `GIF89a`.
pub fn is_gif_bytes(bytes: &[u8]) -> (r: bool)
    ensures
        r == gif_signature(bytes@),
{
    if bytes.len() < 6 {
        return false;
    }
    let ok = bytes[0] == 71 && bytes[1] == 73 && bytes[2] == 70 && bytes[3] == 56 && (bytes[4]
        == 55 || bytes[4] == 57) && bytes[5] == 97;
    proof {
        let p = bytes@.subrange(0, 6);
        if ok {
            if bytes[4] == 55 {
                assert(p =~= seq![71u8, 73, 70, 56, 55, 97]);
            } else {
                assert(p =~= seq![71u8, 73, 70, 56, 57, 97]);
            }
        } else {
            assert(p[0] == bytes@[0] && p[1] == bytes@[1] && p[2] == bytes@[2] && p[3] == bytes@[3]
                && p[4] == bytes@[4] && p[5] == bytes@[5]);
        }
    }
    ok
}

/// ASCII lowercase of one character.
pub open spec fn ascii_lower(c: char) -> char {
    if 'A' <= c && c <= 'Z' {
        ((c as u32) + 32) as char
    } else {
        c
    }
}

/// The extension of a path's file name, as `Path::extension` finds it: the
/// text after the last dot of the last component, when that dot is not its
/// first character.
pub open spec fn file_name_of(s: Seq<char>) -> Seq<char> {
    let slash = last_index_of(s, '/');
    s.subrange(slash + 1, s.len() as int)
}

pub open spec fn last_index_of(s: Seq<char>, c: char) -> int
    decreases s.len(),
{
    if s.len() == 0 {
        -1
    } else if s.last() == c {
        s.len() - 1
    } else {
        last_index_of(s.drop_last(), c)
    }
}

pub open spec fn extension_of(s: Seq<char>) -> Option<Seq<char>> {
    let name = file_name_of(s);
    let dot = last_index_of(name, '.');
    if name == ".."@ || dot <= 0 {
        None
    } else {
        Some(name.subrange(dot + 1, name.len() as int))
    }
}

pub open spec fn known_video_ext(e: Seq<char>) -> bool {
    e == "mp4"@ || e == "webm"@ || e == "mov"@ || e == "mkv"@ || e == "avi"@ || e == "m4v"@ || e
        == "ogv"@ || e == "gif"@
}

/// The file extension used for a downloaded video: the label's own extension
/// (lowercased) when it is a known video type, else `mp4`.
pub open spec fn video_ext_spec(label: Seq<char>) -> Seq<char> {
    match extension_of(label) {
        Some(e) => {
            let l = e.map_values(|c: char| ascii_lower(c));
            if known_video_ext(l) {
                l
            } else {
                "mp4"@
            }
        },
        None => "mp4"@,
    }
}

pub proof fn lemma_last_index_bounds(s: Seq<char>, c: char)
    ensures
        -1 <= last_index_of(s, c) < s.len(),
        last_index_of(s, c) >= 0 ==> s[last_index_of(s, c)] == c,
        forall|k: int| last_index_of(s, c) < k < s.len() ==> s[k] != c,
    decreases s.len(),
{
    if s.len() > 0 && s.last() != c {
        lemma_last_index_bounds(s.drop_last(), c);
        assert forall|k: int| last_index_of(s, c) < k < s.len() implies s[k] != c by {
            if k < s.len() - 1 {
                assert(s[k] == s.drop_last()[k]);
            }
        }
    }
}

fn last_index_exec(s: &Vec<char>, c: char) -> (r: isize)
    requires
        s@.len() < isize::MAX,
    ensures
        r as int == last_index_of(s@, c),
{
    let mut i: usize = s.len();
    assert(s@.subrange(0, i as int) =~= s@);
    while i > 0
        invariant
            i <= s@.len() < isize::MAX,
            last_index_of(s@, c) == last_index_of(s@.subrange(0, i as int), c),
        decreases i,
    {
        if s[i - 1] == c {
            return (i - 1) as isize;
        }
        assert(s@.subrange(0, i as int).drop_last() =~= s@.subrange(0, i - 1));
        i = i - 1;
    }
    -1
}

/// The extension used for a temporary video file named after `label`.
pub fn video_extension_from_label(label: &str) -> (r: &'static str)
    requires
        label@.len() < isize::MAX,
    ensures
        r@ == video_ext_spec(label@),
{
    let s = chars_of(label);
    let slash = last_index_exec(&s, '/');
    proof {
        lemma_last_index_bounds(s@, '/');
    }
    let name = crate::text::slice_chars(&s, (slash + 1) as usize, s.len());
    let dot = last_index_exec(&name, '.');
    proof {
        lemma_last_index_bounds(name@, '.');
    }
    let dd = vec!['.', '.'];
    proof {
        reveal_strlit("..");
        assert(dd@ =~= ".."@);
    }
    if (name.len() == 2 && name[0] == '.' && name[1] == '.') || dot <= 0 {
        proof {
            if name.len() == 2 && name[0] == '.' && name[1] == '.' {
                assert(name@ =~= ".."@);
            }
        }
        return "mp4";
    }
    proof {
        if name@ == ".."@ {
            assert(name@[0] == '.' && name@[1] == '.');
        }
    }
    let ext = crate::text::slice_chars(&name, (dot + 1) as usize, name.len());
    let mut low: Vec<char> = Vec::new();
    let mut i: usize = 0;
    while i < ext.len()
        invariant
            i <= ext@.len(),
            low@ == ext@.subrange(0, i as int).map_values(|c: char| ascii_lower(c)),
        decreases ext@.len() - i,
    {
        let l = char_to_ascii_lowercase(ext[i]);
        low.push(l);
        i = i + 1;
        assert(low@ =~= ext@.subrange(0, i as int).map_values(|c: char| ascii_lower(c)));
    }
    assert(ext@.subrange(0, ext@.len() as int) =~= ext@);
    let l = string_of_low(&low);
    proof {
        reveal_strlit("mp4");
        reveal_strlit("webm");
        reveal_strlit("mov");
        reveal_strlit("mkv");
        reveal_strlit("avi");
        reveal_strlit("m4v");
        reveal_strlit("ogv");
        reveal_strlit("gif");
    }
    if str_eq(l.as_str(), "mp4") {
        "mp4"
    } else if str_eq(l.as_str(), "webm") {
        "webm"
    } else if str_eq(l.as_str(), "mov") {
        "mov"
    } else if str_eq(l.as_str(), "mkv") {
        "mkv"
    } else if str_eq(l.as_str(), "avi") {
        "avi"
    } else if str_eq(l.as_str(), "m4v") {
        "m4v"
    } else if str_eq(l.as_str(), "ogv") {
        "ogv"
    } else if str_eq(l.as_str(), "gif") {
        "gif"
    } else {
        "mp4"
    }
}

/// The character with `A`..`Z` turned into `a`..`z` (as `char::to_ascii_lowercase`).
pub fn char_to_ascii_lowercase(c: char) -> (r: char)
    ensures
        r == ascii_lower(c),
{
    if 'A' <= c && c <= 'Z' {
        let b: u8 = c as u8;
        assert(b as u32 == c as u32);
        ((b + 32) as char)
    } else {
        c
    }
}

fn string_of_low(v: &Vec<char>) -> (r: String)
    ensures
        r@ == v@,
{
    crate::text::string_of(v.as_slice())
}

} // verus!
