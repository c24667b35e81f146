//! The message list of the open channel: selecting a message, keeping it in
//! view, and replying to it.
use crate::app::{App, Focus, ReplyState};
use crate::channels::clamp;
use crate::members::guild_of_channel;
use crate::messages::{copy_messages, lemma_msort_eqv, msgs_eqv, msgs_of, msort, sort_messages};
use crate::settings::opt_ref_view;
use crate::typing::shown_name;
use crate::types::MessageResponse;
use vstd::prelude::*;

verus! {

/// The open channel's messages in id order (none without an open channel).
pub open spec fn active_list(a: &App) -> Seq<MessageResponse> {
    match a.selected_channel_id {
        Some(c) => msort(msgs_of(a, c@)),
        None => Seq::empty(),
    }
}

/// The selected message of the open channel, when the selection is in range.
pub open spec fn selected_spec(a: &App) -> Option<MessageResponse> {
    match a.selected_message_index {
        Some(i) => if i < active_list(a).len() {
            Some(active_list(a)[i as int])
        } else {
            None
        },
        None => None,
    }
}

/// How the message pane lays out its lines, as the front end measured it
/// for the pane's width.
#[derive(Debug)]
pub struct MessageLayout {
    /// Rows each display line takes, the blank filler above short histories included.
    pub heights: Vec<u16>,
    /// How many lines come before the first line of the first message.
    pub body_offset: usize,
    /// For each message, its first line and one past its last, counted from the first message line.
    pub ranges: Vec<(usize, usize)>,
}

/// Rows taken by the first `n` lines.
pub open spec fn rows_before(h: Seq<u16>, n: int) -> int
    decreases n,
{
    if n <= 0 {
        0
    } else {
        rows_before(h, n - 1) + h[n - 1]
    }
}

/// A layout the pane can produce: each message's lines in order, offsets
/// within `usize`, and all rows within `u32`.
pub open spec fn layout_fits(l: MessageLayout) -> bool {
    &&& rows_before(l.heights@, l.heights@.len() as int) <= u32::MAX
    &&& forall|i: int|
        0 <= i < l.ranges@.len() ==> (#[trigger] l.ranges@[i]).0 <= l.ranges@[i].1 && l.body_offset + l.ranges@[i].1
            <= usize::MAX
}

/// The lines of message `i`, or none when the layout does not list it.
pub open spec fn range_at(rs: Seq<(usize, usize)>, i: int) -> (usize, usize) {
    if 0 <= i < rs.len() {
        rs[i]
    } else {
        (0, 0)
    }
}

/// The scroll (rows from the bottom) that brings the lines `off + range`
/// into a pane of `pane` rows, moving as little as possible from `current`;
/// a message taller than the pane is shown from its top. `None` when the
/// lines lie past the layout.
pub open spec fn scroll_to_lines(h: Seq<u16>, off: int, range: (usize, usize), pane: int, current: int) -> Option<int> {
    let total = rows_before(h, h.len() as int);
    if total <= pane {
        Some(0)
    } else {
        let max_scroll = total - pane;
        let scroll = if current < max_scroll {
            current
        } else {
            max_scroll
        };
        let top0 = max_scroll - scroll;
        let lo = off + range.0;
        let hi = off + range.1;
        if hi > h.len() {
            None
        } else {
            let rs = rows_before(h, lo);
            let re = rows_before(h, hi);
            let top = if re - rs > pane {
                rs
            } else {
                let t1 = if rs < top0 {
                    rs
                } else {
                    top0
                };
                if re > t1 + pane {
                    re - pane
                } else {
                    t1
                }
            };
            let top2 = if top < max_scroll {
                top
            } else {
                max_scroll
            };
            Some(max_scroll - top2)
        }
    }
}

/// The scroll that keeps the selected message in view, when a message of
/// the open channel is selected and its history is not being reloaded.
pub open spec fn selection_scroll(a: &App, l: MessageLayout, pane: int) -> Option<int> {
    match a.selected_message_index {
        None => None,
        Some(idx) => if active_list(a).len() == 0 || idx >= active_list(a).len() {
            None
        } else if a.selected_channel_id matches Some(c) && a.loading_messages@.contains(c@) {
            None
        } else {
            scroll_to_lines(
                l.heights@,
                l.body_offset as int,
                range_at(l.ranges@, idx as int),
                pane,
                a.message_scroll_from_bottom as int,
            )
        },
    }
}

proof fn lemma_rows_mono(h: Seq<u16>, i: int, j: int)
    requires
        0 <= i <= j <= h.len(),
    ensures
        0 <= rows_before(h, i) <= rows_before(h, j),
    decreases j,
{
    if i < j {
        lemma_rows_mono(h, i, j - 1);
    } else if j > 0 {
        lemma_rows_mono(h, 0, j - 1);
    }
}

/// Running row counts: entry `j` is the rows taken by the first `j` lines.
fn cumulative_rows(h: &Vec<u16>) -> (cum: Vec<u32>)
    requires
        rows_before(h@, h@.len() as int) <= u32::MAX,
    ensures
        cum@.len() == h@.len() + 1,
        forall|j: int| 0 <= j < cum@.len() ==> #[trigger] cum@[j] == rows_before(h@, j),
{
    let mut cum: Vec<u32> = Vec::new();
    cum.push(0);
    let mut i: usize = 0;
    while i < h.len()
        invariant
            i <= h@.len(),
            rows_before(h@, h@.len() as int) <= u32::MAX,
            cum@.len() == i + 1,
            forall|j: int| 0 <= j < cum@.len() ==> #[trigger] cum@[j] == rows_before(h@, j),
        decreases h@.len() - i,
    {
        proof {
            lemma_rows_mono(h@, i + 1, h@.len() as int);
        }
        let next = cum[i] + h[i] as u32;
        cum.push(next);
        i = i + 1;
    }
    cum
}

/// The scroll that keeps the selected message in view; see `selection_scroll`.
pub fn scroll_for_selected_message(app: &App, layout: &MessageLayout, pane_visible: u16) -> (r: Option<u16>)
    requires
        layout_fits(*layout),
    ensures
        match (r, selection_scroll(app, *layout, pane_visible as int)) {
            (Some(v), Some(s)) => v == s as u16,
            (None, None) => true,
            _ => false,
        },
{
    let idx = match app.selected_message_index {
        Some(i) => i,
        None => {
            return None;
        },
    };
    let n = app.active_messages().len();
    if n == 0 || idx >= n {
        return None;
    }
    if let Some(c) = &app.selected_channel_id {
        if app.loading_messages.contains(c.as_str()) {
            return None;
        }
    }
    let h = &layout.heights;
    let cum = cumulative_rows(h);
    proof {
        lemma_rows_mono(h@, 0, h@.len() as int);
    }
    let total = cum[h.len()];
    let pane = pane_visible as u32;
    if total <= pane {
        return Some(0);
    }
    let max_scroll = total - pane;
    let cur = app.message_scroll_from_bottom as u32;
    let scroll = if cur < max_scroll {
        cur
    } else {
        max_scroll
    };
    let mut top = max_scroll - scroll;
    let (b0, b1) = if idx < layout.ranges.len() {
        layout.ranges[idx]
    } else {
        (0, 0)
    };
    assert(b0 <= b1 && layout.body_offset + b1 <= usize::MAX);
    let lo = layout.body_offset + b0;
    let hi = layout.body_offset + b1;
    if hi >= cum.len() {
        return None;
    }
    proof {
        lemma_rows_mono(h@, lo as int, hi as int);
        lemma_rows_mono(h@, hi as int, h@.len() as int);
    }
    let rs = cum[lo];
    let re = cum[hi];
    if re - rs > pane {
        top = rs;
    } else {
        if rs < top {
            top = rs;
        }
        let view_bottom = top.saturating_add(pane);
        if re > view_bottom {
            top = re - pane;
        }
    }
    if top > max_scroll {
        top = max_scroll;
    }
    let new_scroll = max_scroll - top;
    Some(new_scroll as u16)
}

/// `b` is `a` with the message selection moved by `delta`.
pub open spec fn selection_moved(a: &App, b: &App, delta: i32) -> bool {
    &&& active_list(a).len() == 0 ==> *b == (App { selected_message_index: None, ..*a })
    &&& active_list(a).len() > 0 ==> *b == (App {
                    selected_message_index: Some(
                        clamp(
                            match a.selected_message_index {
                                Some(i) => i as int,
                                None => active_list(a).len() - 1,
                            } + delta,
                            0,
                            active_list(a).len() - 1,
                        ) as usize,
                    ),
                    ..*a
                })
}

/// `b` is `a` replying to the selected message, if any.
pub open spec fn reply_started(a: &App, b: &App) -> bool {
    &&& selected_spec(a) is None ==> *b == *a
    &&& selected_spec(a) matches Some(m) ==> {
                    &&& *b == (App {
                        edit_target: None,
                        reply_to: b.reply_to,
                        forward_mode: false,
                        focus: Focus::Input,
                        ..*a
                    })
                    &&& b.reply_to matches Some(rep) && rep.channel_id@ == m.channel_id@ && rep.message_id@
                        == m.id@ && crate::app::opt_str(rep.source_guild_id) == guild_of_channel(a, m.channel_id@)
                        && rep.author_name@ == shown_name(
                        a,
                        guild_of_channel(a, m.channel_id@),
                        m.author,
                    )
                }
}

impl App {
    /// The open channel's messages in id order; see `active_list`.
    pub fn active_messages(&self) -> (r: Vec<MessageResponse>)
        ensures
            msgs_eqv(r@, active_list(self)),
    {
        match &self.selected_channel_id {
            None => Vec::new(),
            Some(c) => match self.messages.get(c.as_str()) {
                Some(v) => {
                    let copy = copy_messages(v);
                    proof {
                        lemma_msort_eqv(copy@, v@);
                    }
                    sort_messages(copy)
                },
                None => Vec::new(),
            },
        }
    }

    /// The id of the first message stored for the open channel.
    pub fn active_oldest_message_id(&self) -> (r: Option<String>)
        ensures
            match self.selected_channel_id {
                Some(c) => if msgs_of(self, c@).len() > 0 {
                    r matches Some(id) && id@ == msgs_of(self, c@)[0].id@
                } else {
                    r is None
                },
                None => r is None,
            },
    {
        let c = match &self.selected_channel_id {
            Some(c) => c,
            None => {
                return None;
            },
        };
        match self.messages.get(c.as_str()) {
            Some(v) => if v.len() > 0 {
                Some(v[0].id.clone())
            } else {
                None
            },
            None => None,
        }
    }

    /// A copy of the selected message; see `selected_spec`.
    pub fn selected_message(&self) -> (r: Option<MessageResponse>)
        ensures
            match (r, selected_spec(self)) {
                (Some(x), Some(m)) => x.eqv(&m),
                (None, None) => true,
                _ => false,
            },
    {
        let msgs = self.active_messages();
        match self.selected_message_index {
            Some(i) => if i < msgs.len() {
                let x = msgs[i].duplicate();
                proof {
                    crate::types::lemma_message_eqv_trans(x, msgs@[i as int], active_list(self)[i as int]);
                }
                Some(x)
            } else {
                None
            },
            None => None,
        }
    }

    /// Moves the message selection by `delta`, within the open channel's
    /// messages, starting from the newest when nothing is selected; clears it
    /// when there are none. The front end then keeps the selection in view
    /// with `clamp_scroll_to_selected_message`.
    pub fn move_selected_message(&mut self, delta: i32)
        ensures
            selection_moved(old(self), final(self), delta),
    {
        let count = self.active_messages().len();
        if count == 0 {
            self.selected_message_index = None;
            return;
        }
        let current: i128 = match self.selected_message_index {
            Some(i) => i as i128,
            None => (count - 1) as i128,
        };
        let want = current + delta as i128;
        let next: usize = if want < 0 {
            0
        } else if want > (count - 1) as i128 {
            count - 1
        } else {
            want as usize
        };
        self.selected_message_index = Some(next);
    }

    /// Keeps the selected message in view in a pane of the last measured
    /// size (nothing before the pane has been drawn); see `selection_scroll`.
    pub fn clamp_scroll_to_selected_message(&mut self, layout: &MessageLayout)
        requires
            layout_fits(*layout),
        ensures
            ({
                let (w, h) = old(self).chafa_viewport;
                if w == 0 || h == 0 {
                    *final(self) == *old(self)
                } else {
                    match selection_scroll(old(self), *layout, h as int) {
                        Some(s) => *final(self) == (App { message_scroll_from_bottom: s as u16, ..*old(self) }),
                        None => *final(self) == *old(self),
                    }
                }
            }),
    {
        let (w, h) = self.chafa_viewport;
        if w == 0 || h == 0 {
            return;
        }
        if let Some(s) = scroll_for_selected_message(self, layout, h) {
            self.message_scroll_from_bottom = s;
        }
    }

    /// Starts a reply to the selected message: its channel and id, its
    /// author's name as shown there, and the guild it came from; the input
    /// takes focus and edit and forward modes end.
    pub fn start_reply(&mut self)
        ensures
            reply_started(old(self), final(self)),
    {
        let msg = match self.selected_message() {
            Some(m) => m,
            None => {
                return;
            },
        };
        self.edit_target = None;
        let src_guild = self.guild_id_for_channel(msg.channel_id.as_str());
        let gref: Option<&str> = match &src_guild {
            Some(g) => Some(g.as_str()),
            None => None,
        };
        assert(opt_ref_view(gref) == crate::app::opt_str(src_guild));
        let author_name = self.shown_name_for_user(gref, &msg.author);
        self.reply_to = Some(
            ReplyState {
                channel_id: msg.channel_id.clone(),
                message_id: msg.id.clone(),
                author_name,
                source_guild_id: src_guild,
            },
        );
        self.forward_mode = false;
        self.focus = Focus::Input;
    }

    /// Ends a reply, an edit or forwarding.
    pub fn cancel_reply(&mut self)
        ensures
            *final(self) == (App { reply_to: None, forward_mode: false, edit_target: None, ..*old(self) }),
    {
        self.reply_to = None;
        self.forward_mode = false;
        self.edit_target = None;
    }
}

} // verus!
