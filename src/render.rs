use crate::layout::Config;
use crate::pixels::{
    blend, blend_max, channel, lemma_blend_channels, lemma_blend_twice, lemma_blend_zero, max_u8,
    PixelBuffer,
};
use vstd::prelude::*;

verus! {

/// The coverage of one label as the glyph rasteriser gave it: the extent of
/// the laid-out text in whole pixels, and each covered pixel as
/// (column, row, coverage) relative to the text's top-left corner.
pub struct GlyphMask {
    pub width: usize,
    pub height: usize,
    pub samples: Vec<(usize, usize, u8)>,
}

/// Whether some coverage of one label had to be dropped, and where it fell.
#[derive(Debug, Clone, Copy, PartialEq, Eq)]
pub struct GlyphClip {
    /// Some sample fell outside the window.
    pub outside_window: bool,
    /// Some sample fell inside the window but outside the label's button.
    pub outside_button: bool,
}

/// Shift that centres a span of length `inner` in one of length `outer`
/// (both halved, rounding down), never moving it before the start.
pub open spec fn center_offset(outer: int, inner: int) -> int {
    if inner / 2 <= outer / 2 {
        outer / 2 - inner / 2
    } else {
        0
    }
}

/// Column in the window where the mask of label `i` starts.
pub open spec fn origin_x(cfg: &Config, i: int, m: &GlyphMask) -> int {
    cfg.left(i) + center_offset(cfg.button_dim.0 as int, m.width as int)
}

/// Row in the window where the mask of a label starts.
pub open spec fn origin_y(cfg: &Config, m: &GlyphMask) -> int {
    cfg.top() + center_offset(cfg.button_dim.1 as int, m.height as int)
}

pub open spec fn outside_window(cfg: &Config, i: int, m: &GlyphMask, s: (usize, usize, u8)) -> bool {
    ||| s.0 + origin_x(cfg, i, m) >= cfg.window_width()
    ||| s.1 + origin_y(cfg, m) >= cfg.window_height()
}

pub open spec fn outside_button(cfg: &Config, i: int, m: &GlyphMask, s: (usize, usize, u8)) -> bool {
    &&& !outside_window(cfg, i, m, s)
    &&& !cfg.in_rect(i, s.0 + origin_x(cfg, i, m), s.1 + origin_y(cfg, m))
}

/// Sample `s` of label `i` is drawn at (x, y): that is where it falls, and
/// it falls inside the label's button.
pub open spec fn lands(cfg: &Config, i: int, m: &GlyphMask, s: (usize, usize, u8), x: int, y: int) -> bool {
    &&& s.0 + origin_x(cfg, i, m) == x
    &&& s.1 + origin_y(cfg, m) == y
    &&& cfg.in_rect(i, x, y)
}

/// Strongest coverage that the first `k` samples of label `i` give (x, y).
pub open spec fn label_cover(cfg: &Config, i: int, m: &GlyphMask, k: int, x: int, y: int) -> u8
    decreases k,
{
    if k <= 0 {
        0
    } else {
        let s = m.samples@[k - 1];
        let c = label_cover(cfg, i, m, k - 1, x, y);
        if lands(cfg, i, m, s, x, y) {
            max_u8(c, s.2)
        } else {
            c
        }
    }
}

/// Strongest coverage that the first `l` labels give (x, y).
pub open spec fn cover(cfg: &Config, masks: Seq<GlyphMask>, l: int, x: int, y: int) -> u8
    decreases l,
{
    if l <= 0 {
        0
    } else {
        max_u8(
            cover(cfg, masks, l - 1, x, y),
            label_cover(cfg, l - 1, &masks[l - 1], masks[l - 1].samples@.len() as int, x, y),
        )
    }
}

/// Background of (x, y): the selected colour on the pressed button, the
/// normal colour on the other buttons, and a faint normal colour between them.
pub open spec fn fill_color(cfg: &Config, focus: Option<usize>, pressed: bool, x: int, y: int) -> u32 {
    match cfg.button_at(x, y) {
        Some(i) => if pressed && focus == Some(i) {
            cfg.sb
        } else {
            cfg.nb
        },
        None => (cfg.nb & 0xff_ffff) | 0x2200_0000,
    }
}

/// The frame for one configuration and pointer state: every pixel is its
/// background, lightened by the labels' coverage.
pub open spec fn frame_pixel(
    cfg: &Config,
    focus: Option<usize>,
    pressed: bool,
    masks: Seq<GlyphMask>,
    x: int,
    y: int,
) -> u32 {
    blend(fill_color(cfg, focus, pressed, x, y), cover(cfg, masks, cfg.count(), x, y))
}

/// One report per label, each saying exactly whether some of that label's
/// samples fell outside the window, and whether some fell inside the
/// window but outside the label's button.
pub open spec fn reports_clips(cfg: &Config, masks: Seq<GlyphMask>, clips: Seq<GlyphClip>) -> bool {
    &&& clips.len() == cfg.count()
    &&& forall|i: int|
        0 <= i < cfg.count() ==> (#[trigger] clips[i]).outside_window == exists|k: int|
            0 <= k < masks[i].samples@.len() && outside_window(
                cfg,
                i,
                &masks[i],
                #[trigger] masks[i].samples@[k],
            )
    &&& forall|i: int|
        0 <= i < cfg.count() ==> (#[trigger] clips[i]).outside_button == exists|k: int|
            0 <= k < masks[i].samples@.len() && outside_button(
                cfg,
                i,
                &masks[i],
                #[trigger] masks[i].samples@[k],
            )
}

proof fn lemma_label_cover_outside(cfg: &Config, i: int, m: &GlyphMask, k: int, x: int, y: int)
    requires
        !cfg.in_rect(i, x, y),
    ensures
        label_cover(cfg, i, m, k, x, y) == 0,
    decreases k,
{
    if k > 0 {
        lemma_label_cover_outside(cfg, i, m, k - 1, x, y);
    }
}

proof fn lemma_cover_outside(cfg: &Config, masks: Seq<GlyphMask>, l: int, x: int, y: int)
    requires
        l <= cfg.count(),
        forall|i: int| 0 <= i < cfg.count() ==> !cfg.in_rect(i, x, y),
    ensures
        cover(cfg, masks, l, x, y) == 0,
    decreases l,
{
    if l > 0 {
        lemma_label_cover_outside(cfg, l - 1, &masks[l - 1], masks[l - 1].samples@.len() as int, x, y);
        lemma_cover_outside(cfg, masks, l - 1, x, y);
    }
}

/// A pixel that lies in no button keeps the faint background in every
/// frame: no label's coverage reaches it, whatever the pointer does.
pub proof fn lemma_gap_keeps_background(
    cfg: &Config,
    focus: Option<usize>,
    pressed: bool,
    masks: Seq<GlyphMask>,
    x: int,
    y: int,
)
    requires
        forall|i: int| 0 <= i < cfg.count() ==> !cfg.in_rect(i, x, y),
    ensures
        frame_pixel(cfg, focus, pressed, masks, x, y) == (cfg.nb & 0xff_ffff) | 0x2200_0000,
{
    lemma_cover_outside(cfg, masks, cfg.count(), x, y);
    lemma_blend_zero((cfg.nb & 0xff_ffff) | 0x2200_0000);
}

/// While a button is pressed, every pixel of it keeps the selected colour's
/// alpha and is at least as bright as that colour in each colour byte; the
/// pixels of every other button do the same against the normal colour.
pub proof fn lemma_pressed_button_highlighted(
    cfg: &Config,
    pressed_button: usize,
    masks: Seq<GlyphMask>,
    i: usize,
    x: int,
    y: int,
)
    requires
        i < cfg.count(),
        cfg.in_rect(i as int, x, y),
    ensures
        ({
            let p = frame_pixel(cfg, Some(pressed_button), true, masks, x, y);
            let c = if i == pressed_button {
                cfg.sb
            } else {
                cfg.nb
            };
            &&& p & 0xff00_0000 == c & 0xff00_0000
            &&& channel(p, 16) >= channel(c, 16)
            &&& channel(p, 8) >= channel(c, 8)
            &&& channel(p, 0) >= channel(c, 0)
        }),
{
    let j = choose|j: usize| j < cfg.count() && #[trigger] cfg.in_rect(j as int, x, y);
    cfg.lemma_rect_index(i as int, x, y);
    cfg.lemma_rect_index(j as int, x, y);
    assert(cfg.button_at(x, y) == Some(i));
    let c = fill_color(cfg, Some(pressed_button), true, x, y);
    lemma_blend_channels(c, cover(cfg, masks, cfg.count(), x, y));
}

/// The buffer is unlocked and has the window's size.
pub open spec fn fits_window(cfg: &Config, buf: &PixelBuffer) -> bool {
    &&& buf.wf()
    &&& !buf.is_locked_spec()
    &&& buf.width_spec() == cfg.window_width()
    &&& buf.height_spec() == cfg.window_height()
}

/// Paints every pixel with its background colour.
pub fn paint_background(cfg: &Config, focus: Option<usize>, pressed: bool, buf: &mut PixelBuffer)
    requires
        cfg.wf(),
        fits_window(cfg, old(buf)),
    ensures
        fits_window(cfg, final(buf)),
        forall|x: int, y: int|
            final(buf).in_bounds(x, y) ==> #[trigger] final(buf).pixel(x, y) == fill_color(
                cfg,
                focus,
                pressed,
                x,
                y,
            ),
{
    let w = buf.width();
    let h = buf.height();
    let mut y: usize = 0;
    while y < h
        invariant
            cfg.wf(),
            fits_window(cfg, buf),
            w == buf.width_spec(),
            h == buf.height_spec(),
            y <= h,
            forall|a: int, b: int|
                buf.in_bounds(a, b) && b < y ==> #[trigger] buf.pixel(a, b) == fill_color(
                    cfg,
                    focus,
                    pressed,
                    a,
                    b,
                ),
        decreases h - y,
    {
        let mut x: usize = 0;
        while x < w
            invariant
                cfg.wf(),
                fits_window(cfg, buf),
                w == buf.width_spec(),
                h == buf.height_spec(),
                y < h,
                x <= w,
                forall|a: int, b: int|
                    buf.in_bounds(a, b) && (b < y || (b == y && a < x)) ==> #[trigger] buf.pixel(
                        a,
                        b,
                    ) == fill_color(cfg, focus, pressed, a, b),
            decreases w - x,
        {
            let c = match cfg.in_button(x, y) {
                Some(i) => {
                    let hit = match focus {
                        Some(f) => f == i,
                        None => false,
                    };
                    if pressed && hit {
                        cfg.sb
                    } else {
                        cfg.nb
                    }
                },
                None => (cfg.nb & 0xff_ffff) | 0x2200_0000,
            };
            let _ = buf.set(x, y, c);
            x = x + 1;
        }
        y = y + 1;
    }
}

/// Lightens the button of label `i` with the label's coverage, each colour
/// byte raised to the coverage (alpha kept). Samples that fall outside the
/// window or outside the button are skipped, and reported.
pub fn draw_label(cfg: &Config, i: usize, mask: &GlyphMask, buf: &mut PixelBuffer) -> (r: GlyphClip)
    requires
        cfg.wf(),
        i < cfg.count(),
        fits_window(cfg, old(buf)),
    ensures
        fits_window(cfg, final(buf)),
        forall|x: int, y: int|
            final(buf).in_bounds(x, y) ==> #[trigger] final(buf).pixel(x, y) == blend(
                old(buf).pixel(x, y),
                label_cover(cfg, i as int, mask, mask.samples@.len() as int, x, y),
            ),
        r.outside_window <==> exists|k: int|
            0 <= k < mask.samples@.len() && outside_window(
                cfg,
                i as int,
                mask,
                #[trigger] mask.samples@[k],
            ),
        r.outside_button <==> exists|k: int|
            0 <= k < mask.samples@.len() && outside_button(
                cfg,
                i as int,
                mask,
                #[trigger] mask.samples@[k],
            ),
{
    let ghost start = *buf;
    let w = buf.width();
    let h = buf.height();
    let (left, right, top, bottom) = cfg.button_bounds(i);
    let (bw, bh) = cfg.button_dim;
    let ox = if mask.width / 2 <= bw / 2 {
        left + (bw / 2 - mask.width / 2)
    } else {
        left
    };
    let oy = if mask.height / 2 <= bh / 2 {
        top + (bh / 2 - mask.height / 2)
    } else {
        top
    };
    proof {
        cfg.lemma_button_fits(i as int);
        assert forall|x: int, y: int| buf.in_bounds(x, y) implies #[trigger] buf.pixel(x, y) == blend(
            start.pixel(x, y),
            label_cover(cfg, i as int, mask, 0, x, y),
        ) by {
            lemma_blend_zero(start.pixel(x, y));
        }
    }
    let mut outside_win = false;
    let mut outside_btn = false;
    let n = mask.samples.len();
    let mut j: usize = 0;
    while j < n
        invariant
            cfg.wf(),
            i < cfg.count(),
            fits_window(cfg, buf),
            fits_window(cfg, &start),
            w == cfg.window_width(),
            h == cfg.window_height(),
            left == cfg.left(i as int),
            right == left + cfg.button_dim.0,
            top == cfg.top(),
            bottom == top + cfg.button_dim.1,
            bottom <= h,
            right <= w,
            ox == origin_x(cfg, i as int, mask),
            oy == origin_y(cfg, mask),
            left <= ox <= right,
            top <= oy <= bottom,
            n == mask.samples@.len(),
            j <= n,
            forall|x: int, y: int|
                buf.in_bounds(x, y) ==> #[trigger] buf.pixel(x, y) == blend(
                    start.pixel(x, y),
                    label_cover(cfg, i as int, mask, j as int, x, y),
                ),
            outside_win <==> exists|k: int|
                0 <= k < j && outside_window(cfg, i as int, mask, #[trigger] mask.samples@[k]),
            outside_btn <==> exists|k: int|
                0 <= k < j && outside_button(cfg, i as int, mask, #[trigger] mask.samples@[k]),
        decreases n - j,
    {
        let (sx, sy, v) = mask.samples[j];
        let ghost s = mask.samples@[j as int];
        let ghost before = *buf;
        if sx >= w - ox || sy >= h - oy {
            outside_win = true;
            proof {
                assert forall|x: int, y: int| buf.in_bounds(x, y) implies #[trigger] buf.pixel(x, y)
                    == blend(start.pixel(x, y), label_cover(cfg, i as int, mask, j + 1, x, y)) by {
                    assert(!lands(cfg, i as int, mask, s, x, y));
                }
            }
        } else {
            let tx = sx + ox;
            let ty = sy + oy;
            if tx >= right || ty >= bottom {
                outside_btn = true;
                proof {
                    assert forall|x: int, y: int| buf.in_bounds(x, y) implies #[trigger] buf.pixel(
                        x,
                        y,
                    ) == blend(start.pixel(x, y), label_cover(cfg, i as int, mask, j + 1, x, y)) by {
                        assert(!lands(cfg, i as int, mask, s, x, y));
                    }
                }
            } else {
                assert(lands(cfg, i as int, mask, s, tx as int, ty as int));
                match buf.get(tx, ty) {
                    Some(p) => {
                        let _ = buf.set(tx, ty, blend_max(p, v));
                        proof {
                            assert forall|x: int, y: int| buf.in_bounds(x, y) implies #[trigger] buf.pixel(
                                x,
                                y,
                            ) == blend(
                                start.pixel(x, y),
                                label_cover(cfg, i as int, mask, j + 1, x, y),
                            ) by {
                                if x == tx && y == ty {
                                    lemma_blend_twice(
                                        start.pixel(x, y),
                                        label_cover(cfg, i as int, mask, j as int, x, y),
                                        v,
                                    );
                                } else {
                                    assert(!lands(cfg, i as int, mask, s, x, y));
                                }
                            }
                        }
                    },
                    None => {},
                }
            }
        }
        proof {
            assert(outside_win <==> exists|k: int|
                0 <= k < j + 1 && outside_window(cfg, i as int, mask, #[trigger] mask.samples@[k])) by {
                if outside_window(cfg, i as int, mask, s) {
                    assert(0 <= j < j + 1);
                }
            }
            assert(outside_btn <==> exists|k: int|
                0 <= k < j + 1 && outside_button(cfg, i as int, mask, #[trigger] mask.samples@[k])) by {
                if outside_button(cfg, i as int, mask, s) {
                    assert(0 <= j < j + 1);
                }
            }
        }
        j = j + 1;
    }
    GlyphClip { outside_window: outside_win, outside_button: outside_btn }
}

/// Draws the whole menu into `buf`: backgrounds, then every label centred
/// in its button. Reports, per label, what coverage had to be dropped.
pub fn render(
    cfg: &Config,
    focus: Option<usize>,
    pressed: bool,
    masks: &Vec<GlyphMask>,
    buf: &mut PixelBuffer,
) -> (r: Vec<GlyphClip>)
    requires
        cfg.wf(),
        fits_window(cfg, old(buf)),
        masks@.len() == cfg.count(),
    ensures
        fits_window(cfg, final(buf)),
        forall|x: int, y: int|
            final(buf).in_bounds(x, y) ==> #[trigger] final(buf).pixel(x, y) == frame_pixel(
                cfg,
                focus,
                pressed,
                masks@,
                x,
                y,
            ),
        reports_clips(cfg, masks@, r@),
{
    paint_background(cfg, focus, pressed, buf);
    proof {
        assert forall|x: int, y: int| buf.in_bounds(x, y) implies #[trigger] buf.pixel(x, y) == blend(
            fill_color(cfg, focus, pressed, x, y),
            cover(cfg, masks@, 0, x, y),
        ) by {
            lemma_blend_zero(buf.pixel(x, y));
        }
    }
    let mut clips: Vec<GlyphClip> = Vec::new();
    let n = cfg.options.len();
    let mut i: usize = 0;
    while i < n
        invariant
            cfg.wf(),
            fits_window(cfg, buf),
            n == cfg.count(),
            masks@.len() == n,
            i <= n,
            forall|x: int, y: int|
                buf.in_bounds(x, y) ==> #[trigger] buf.pixel(x, y) == blend(
                    fill_color(cfg, focus, pressed, x, y),
                    cover(cfg, masks@, i as int, x, y),
                ),
            clips@.len() == i,
            forall|l: int|
                0 <= l < i ==> (#[trigger] clips@[l]).outside_window == exists|k: int|
                    0 <= k < masks@[l].samples@.len() && outside_window(
                        cfg,
                        l,
                        &masks@[l],
                        #[trigger] masks@[l].samples@[k],
                    ),
            forall|l: int|
                0 <= l < i ==> (#[trigger] clips@[l]).outside_button == exists|k: int|
                    0 <= k < masks@[l].samples@.len() && outside_button(
                        cfg,
                        l,
                        &masks@[l],
                        #[trigger] masks@[l].samples@[k],
                    ),
        decreases n - i,
    {
        let ghost before = *buf;
        let clip = draw_label(cfg, i, &masks[i], buf);
        proof {
            assert forall|x: int, y: int| buf.in_bounds(x, y) implies #[trigger] buf.pixel(x, y)
                == blend(fill_color(cfg, focus, pressed, x, y), cover(cfg, masks@, i + 1, x, y)) by {
                lemma_blend_twice(
                    fill_color(cfg, focus, pressed, x, y),
                    cover(cfg, masks@, i as int, x, y),
                    label_cover(cfg, i as int, &masks@[i as int], masks@[i as int].samples@.len() as int, x, y),
                );
            }
        }
        clips.push(clip);
        i = i + 1;
    }
    clips
}

} // verus!
