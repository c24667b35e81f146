//! The image preview overlay: waiting for an image, scrolling its text
//! rendering, and stepping an animation through its frames.
use crate::app::{App, ImagePreviewState};
use crate::channels::clamp;
use vstd::prelude::*;

verus! {

/// How long a frame shows when its delay is unknown, in milliseconds.
pub const DEFAULT_FRAME_DELAY_MS: u64 = 100;

/// The display time of frame `i`, in milliseconds.
pub open spec fn frame_delay(delays: Seq<u64>, i: int) -> int {
    if 0 <= i < delays.len() {
        delays[i] as int
    } else {
        DEFAULT_FRAME_DELAY_MS as int
    }
}

/// Some frame shows for some time.
pub open spec fn some_delay(delays: Seq<u64>) -> bool {
    exists|j: int| 0 <= j < delays.len() && #[trigger] delays[j] > 0
}

/// How many frames, counted from frame `i` onwards (wrapping around) and
/// starting at the `k`-th of them, pass before one that shows for some time;
/// the number of frames when none does.
pub open spec fn gap_from(delays: Seq<u64>, i: int, k: int) -> int
    decreases delays.len() - k,
{
    let n = delays.len() as int;
    if k >= n || k < 0 {
        n
    } else if delays[(i + k) % n] > 0 {
        k
    } else {
        gap_from(delays, i, k + 1)
    }
}

/// How many frames from frame `i` on pass before one that shows for some time.
pub open spec fn gap(delays: Seq<u64>, i: int) -> int {
    gap_from(delays, i, 0)
}

proof fn lemma_gap_from_bounds(d: Seq<u64>, i: int, k: int)
    ensures
        0 <= gap_from(d, i, k) <= d.len(),
        0 <= k <= d.len() ==> k <= gap_from(d, i, k),
    decreases d.len() - k,
{
    if 0 <= k < d.len() && !(d[(i + k) % (d.len() as int)] > 0) {
        lemma_gap_from_bounds(d, i, k + 1);
    }
}

/// Stepping past a frame without delay brings the next framed delay one step closer.
proof fn lemma_gap_shift(d: Seq<u64>, i: int, k: int)
    requires
        0 <= i < d.len(),
        d[i] == 0,
        0 <= k < d.len(),
    ensures
        gap_from(d, i, k + 1) == if gap_from(d, (i + 1) % (d.len() as int), k) + 1 < d.len() {
            gap_from(d, (i + 1) % (d.len() as int), k) + 1
        } else {
            d.len() as int
        },
    decreases d.len() - k,
{
    let n = d.len() as int;
    let i1 = (i + 1) % n;
    lemma_gap_from_bounds(d, i1, k);
    vstd::arithmetic::div_mod::lemma_add_mod_noop(i + 1, k, n);
    vstd::arithmetic::div_mod::lemma_small_mod(k as nat, n as nat);
    assert((i1 + k) % n == (i + k + 1) % n);
    if k + 1 == n {
        vstd::arithmetic::div_mod::lemma_mod_self_0(n);
        vstd::arithmetic::div_mod::lemma_add_mod_noop(i, n, n);
        vstd::arithmetic::div_mod::lemma_small_mod(i as nat, n as nat);
        assert((i + k + 1) % n == i);
    } else if d[(i + k + 1) % n] > 0 {
    } else {
        lemma_gap_shift(d, i, k + 1);
    }
}

/// With some frame that shows for some time, one is found from every frame.
proof fn lemma_gap_found(d: Seq<u64>, i: int)
    requires
        0 <= i < d.len(),
        some_delay(d),
    ensures
        gap(d, i) < d.len(),
{
    let n = d.len() as int;
    let j = choose|j: int| 0 <= j < d.len() && #[trigger] d[j] > 0;
    let k = if j >= i {
        j - i
    } else {
        j - i + n
    };
    vstd::arithmetic::div_mod::lemma_small_mod(j as nat, n as nat);
    if j < i {
        vstd::arithmetic::div_mod::lemma_mod_add_multiples_vanish(j, n);
    }
    assert((i + k) % n == j);
    lemma_gap_reaches(d, i, 0, k);
}

proof fn lemma_gap_reaches(d: Seq<u64>, i: int, m: int, k: int)
    requires
        0 <= m <= k < d.len(),
        d[(i + k) % (d.len() as int)] > 0,
    ensures
        gap_from(d, i, m) <= k,
    decreases k - m,
{
    if m < k && !(d[(i + m) % (d.len() as int)] > 0) {
        lemma_gap_reaches(d, i, m + 1, k);
    }
}

/// A frame without delay, when some frame has one, is passed over with the
/// next frame's gap one smaller.
pub proof fn lemma_gap_step(d: Seq<u64>, i: int)
    requires
        0 <= i < d.len(),
        d[i] == 0,
        gap(d, i) < d.len(),
    ensures
        0 <= gap(d, (i + 1) % (d.len() as int)) < gap(d, i),
{
    let n = d.len() as int;
    vstd::arithmetic::div_mod::lemma_small_mod(i as nat, n as nat);
    assert((i + 0) % n == i);
    lemma_gap_shift(d, i, 0);
    lemma_gap_from_bounds(d, (i + 1) % n, 0);
}

/// The frame and the time spent on it after `elapsed` milliseconds: while
/// the time covers the current frame's delay, move on to the next frame
/// (wrapping around) and take that delay off. Frames without delay are
/// passed over at once, as long as some frame has a delay.
pub open spec fn animation_step(delays: Seq<u64>, idx: int, elapsed: int) -> (int, int)
    decreases elapsed, gap(delays, idx),
{
    let lim = frame_delay(delays, idx);
    let n = delays.len() as int;
    if n > 0 && 0 <= idx && elapsed >= lim && (lim > 0 || gap(delays, idx) < n) {
        proof {
            if lim == 0 {
                lemma_gap_step(delays, idx);
            }
        }
        animation_step(delays, (idx + 1) % n, elapsed - lim)
    } else {
        (idx, elapsed)
    }
}

/// The preview state can be animated without end: an animation without
/// frames, or one where some frame shows for some time.
pub open spec fn animation_ok(a: &App) -> bool {
    a.image_preview matches Some(ImagePreviewState::ReadyAnimatedGif { delays_ms, .. }) ==> (delays_ms@.len()
        == 0 || some_delay(delays_ms@))
}

/// Whether the preview can be animated; see `animation_ok`.
#[verifier::loop_isolation(false)]
pub fn animation_ready(app: &App) -> (r: bool)
    ensures
        r == animation_ok(app),
{
    match &app.image_preview {
        Some(ImagePreviewState::ReadyAnimatedGif { delays_ms, .. }) => {
            if delays_ms.len() == 0 {
                return true;
            }
            let mut i: usize = 0;
            while i < delays_ms.len()
                invariant
                    i <= delays_ms@.len(),
                    forall|j: int| 0 <= j < i ==> #[trigger] delays_ms@[j] == 0,
                decreases delays_ms@.len() - i,
            {
                if delays_ms[i] > 0 {
                    assert(delays_ms@[i as int] > 0);
                    return true;
                }
                i = i + 1;
            }
            false
        },
        _ => true,
    }
}

/// `b` is `a` with a text-rendered preview scrolled by `delta` lines.
pub open spec fn preview_scrolled(a: &App, b: &App, delta: i32) -> bool {
    &&& match a.image_preview {
                    Some(ImagePreviewState::ReadyChafa { title, lines, scroll }) => *b == (App {
                        image_preview: Some(
                            ImagePreviewState::ReadyChafa {
                                title,
                                lines,
                                scroll: clamp(
                                    scroll + delta,
                                    0,
                                    if lines@.len() > 0 {
                                        lines@.len() - 1
                                    } else {
                                        0
                                    },
                                ) as usize,
                            },
                        ),
                        ..*a
                    }),
                    _ => *b == *a,
                }
}

impl App {
    /// Shows the preview overlay waiting for the image titled `title`.
    pub fn start_image_preview_loading(&mut self, title: String)
        ensures
            *final(self) == (App { image_preview: Some(ImagePreviewState::Loading { title }), ..*old(self) }),
    {
        self.image_preview = Some(ImagePreviewState::Loading { title });
    }

    /// Scrolls a text-rendered preview by `delta` lines, within its lines.
    pub fn image_preview_scroll(&mut self, delta: i32)
        ensures
            preview_scrolled(old(self), final(self), delta),
    {
        let prev = self.image_preview.take();
        self.image_preview = match prev {
            Some(ImagePreviewState::ReadyChafa { title, lines, scroll }) => {
                let max: usize = if lines.len() > 0 {
                    lines.len() - 1
                } else {
                    0
                };
                let want: i128 = scroll as i128 + delta as i128;
                let ns: usize = if want < 0 {
                    0
                } else if want > max as i128 {
                    max
                } else {
                    want as usize
                };
                Some(ImagePreviewState::ReadyChafa { title, lines, scroll: ns })
            },
            other => other,
        };
    }

    /// Lets `dt_ms` milliseconds pass on an animated preview; see
    /// `animation_step`. Returns whether another frame now shows, so the front
    /// end redraws it.
    pub fn advance_image_preview_animation(&mut self, dt_ms: u64) -> (changed: bool)
        requires
            animation_ok(old(self)),
            old(self).image_preview matches Some(ImagePreviewState::ReadyAnimatedGif { elapsed_ms, .. })
                ==> elapsed_ms + dt_ms <= u64::MAX,
        ensures
            match old(self).image_preview {
                Some(ImagePreviewState::ReadyAnimatedGif { title, delays_ms, frame_idx, elapsed_ms }) => if delays_ms@.len()
                    == 0 {
                    *final(self) == *old(self) && !changed
                } else {
                    let (i, e) = animation_step(delays_ms@, frame_idx as int, elapsed_ms + dt_ms);
                    &&& *final(self) == (App {
                        image_preview: Some(
                            ImagePreviewState::ReadyAnimatedGif {
                                title,
                                delays_ms,
                                frame_idx: i as usize,
                                elapsed_ms: e as u64,
                            },
                        ),
                        ..*old(self)
                    })
                    &&& changed == (i != frame_idx)
                },
                _ => *final(self) == *old(self) && !changed,
            },
    {
        let prev = self.image_preview.take();
        match prev {
            Some(ImagePreviewState::ReadyAnimatedGif { title, delays_ms, frame_idx, elapsed_ms }) => {
                if delays_ms.len() == 0 {
                    self.image_preview = Some(
                        ImagePreviewState::ReadyAnimatedGif { title, delays_ms, frame_idx, elapsed_ms },
                    );
                    return false;
                }
                let n = delays_ms.len();
                let mut idx = frame_idx;
                let mut elapsed = elapsed_ms + dt_ms;
                let ghost goal = animation_step(delays_ms@, frame_idx as int, elapsed_ms + dt_ms);
                loop
                    invariant
                        n == delays_ms@.len(),
                        n > 0,
                        some_delay(delays_ms@),
                        animation_step(delays_ms@, idx as int, elapsed as int) == goal,
                        idx == frame_idx || idx < n,
                    ensures
                        (idx as int, elapsed as int) == goal,
                    decreases elapsed, gap(delays_ms@, idx as int),
                {
                    let lim: u64 = if idx < n {
                        delays_ms[idx]
                    } else {
                        DEFAULT_FRAME_DELAY_MS
                    };
                    proof {
                        if idx < n {
                            lemma_gap_found(delays_ms@, idx as int);
                        }
                    }
                    if elapsed < lim {
                        break;
                    }
                    proof {
                        if lim == 0 {
                            lemma_gap_step(delays_ms@, idx as int);
                        }
                    }
                    elapsed = elapsed - lim;
                    let ghost before = idx;
                    idx = if idx < n {
                        (idx + 1) % n
                    } else {
                        (idx % n + 1) % n
                    };
                    proof {
                        let x = before as int;
                        vstd::arithmetic::div_mod::lemma_fundamental_div_mod(x, n as int);
                        vstd::arithmetic::div_mod::lemma_mod_multiples_vanish(x / (n as int), x % (n as int) + 1, n as int);
                        assert(idx as int == (x + 1) % (n as int));
                    }
                }
                self.image_preview = Some(
                    ImagePreviewState::ReadyAnimatedGif { title, delays_ms, frame_idx: idx, elapsed_ms: elapsed },
                );
                idx != frame_idx
            },
            other => {
                self.image_preview = other;
                false
            },
        }
    }
}

} // verus!
