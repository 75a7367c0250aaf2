use vstd::arithmetic::div_mod::{lemma_fundamental_div_mod, lemma_fundamental_div_mod_converse};
use vstd::arithmetic::mul::{lemma_mul_inequality, lemma_mul_is_distributive_add_other_way, lemma_mul_nonnegative};
use vstd::prelude::*;

verus! {

/// `n` buttons of size `bw` × `bh` with borders of `border` pixels make a
/// window whose edges, and the distance between buttons, fit in a `usize`.
pub open spec fn geometry_fits(border: int, bw: int, bh: int, n: int) -> bool {
    &&& bw + border <= usize::MAX
    &&& border + n * (bw + border) <= usize::MAX
    &&& border + bh + border <= usize::MAX
}

/// What the menu shows: its labels in order, the size of one button, the
/// border between and around buttons, and four ARGB colours (normal and
/// selected, foreground and background). Fixed once the program runs.
pub struct Config {
    pub options: Vec<String>,
    pub nf: u32,
    pub nb: u32,
    pub sf: u32,
    pub sb: u32,
    pub button_dim: (usize, usize),
    pub border: usize,
}

impl Config {
    /// Number of buttons.
    pub open spec fn count(&self) -> int {
        self.options@.len() as int
    }

    /// Horizontal distance from one button's left edge to the next one's.
    pub open spec fn pitch(&self) -> int {
        self.button_dim.0 + self.border
    }

    pub open spec fn window_width(&self) -> int {
        self.border + self.count() * self.pitch()
    }

    pub open spec fn window_height(&self) -> int {
        self.border + self.button_dim.1 + self.border
    }

    /// The window and every button edge can be written as a `usize`.
    pub open spec fn wf(&self) -> bool {
        geometry_fits(self.border as int, self.button_dim.0 as int, self.button_dim.1 as int, self.count())
    }

    /// Left edge of button `i`.
    pub open spec fn left(&self, i: int) -> int {
        self.border + i * self.pitch()
    }

    pub open spec fn top(&self) -> int {
        self.border as int
    }

    /// The point lies in the rectangle of button `i` (right and bottom edges excluded).
    pub open spec fn in_rect(&self, i: int, x: int, y: int) -> bool {
        &&& self.left(i) <= x < self.left(i) + self.button_dim.0
        &&& self.top() <= y < self.top() + self.button_dim.1
    }

    /// The button whose rectangle holds the point, if any.
    pub open spec fn button_at(&self, x: int, y: int) -> Option<usize> {
        if exists|i: usize| i < self.count() && #[trigger] self.in_rect(i as int, x, y) {
            Some(choose|i: usize| i < self.count() && #[trigger] self.in_rect(i as int, x, y))
        } else {
            None
        }
    }

    /// Tells whether the geometry fits in machine integers.
    pub fn is_valid(&self) -> (r: bool)
        ensures
            r == self.wf(),
    {
        let (bw, bh) = self.button_dim;
        let border = self.border;
        let n = self.options.len();
        let pitch = match bw.checked_add(border) {
            Some(p) => p,
            None => return false,
        };
        let span = match n.checked_mul(pitch) {
            Some(s) => s,
            None => return false,
        };
        if span.checked_add(border).is_none() {
            return false;
        }
        match border.checked_add(bh) {
            Some(h) => h.checked_add(border).is_some(),
            None => false,
        }
    }

    /// Width and height of the window that holds all buttons.
    pub fn buttons_bounds(&self) -> (r: (usize, usize))
        requires
            self.wf(),
        ensures
            r.0 == self.window_width(),
            r.1 == self.window_height(),
    {
        (
            self.border + self.options.len() * (self.button_dim.0 + self.border),
            self.border + self.button_dim.1 + self.border,
        )
    }

    /// Rectangle of button `i` as (left, right, top, bottom), right and bottom excluded.
    pub fn button_bounds(&self, i: usize) -> (r: (usize, usize, usize, usize))
        requires
            self.wf(),
            i < self.count(),
        ensures
            r.0 == self.left(i as int),
            r.1 == self.left(i as int) + self.button_dim.0,
            r.2 == self.top(),
            r.3 == self.top() + self.button_dim.1,
    {
        let (bw, bh) = self.button_dim;
        let border = self.border;
        proof {
            self.lemma_button_fits(i as int);
        }
        let left = border + i * (bw + border);
        let right = left + bw;
        let top = border;
        let bottom = top + bh;
        (left, right, top, bottom)
    }

    /// Index of the button under the point, if any.
    pub fn in_button(&self, x: usize, y: usize) -> (r: Option<usize>)
        requires
            self.wf(),
        ensures
            r == self.button_at(x as int, y as int),
    {
        let (bw, bh) = self.button_dim;
        let border = self.border;
        if bw == 0 || y < border || y - border >= bh || x < border {
            proof {
                assert forall|i: usize| i < self.count() implies !self.in_rect(i as int, x as int, y as int) by {
                    lemma_mul_nonnegative(i as int, self.pitch());
                }
            }
            return None;
        }
        let pitch = bw + border;
        let q = (x - border) / pitch;
        let rem = (x - border) % pitch;
        proof {
            lemma_fundamental_div_mod((x - border) as int, pitch as int);
            assert forall|i: usize| i < self.count() && #[trigger] self.in_rect(i as int, x as int, y as int) implies i == q && rem < bw by {
                self.lemma_rect_index(i as int, x as int, y as int);
            }
        }
        if rem < bw && q < self.options.len() {
            proof {
                assert(pitch * q == q * pitch) by (nonlinear_arith);
                assert(self.in_rect(q as int, x as int, y as int));
            }
            Some(q)
        } else {
            None
        }
    }

    /// Button `i` lies inside the window.
    pub proof fn lemma_button_fits(&self, i: int)
        requires
            self.wf(),
            0 <= i < self.count(),
        ensures
            0 <= i * self.pitch(),
            self.left(i) + self.button_dim.0 <= self.window_width(),
            self.top() + self.button_dim.1 <= self.window_height(),
    {
        lemma_mul_nonnegative(i, self.pitch());
        lemma_mul_inequality(i + 1, self.count(), self.pitch());
        lemma_mul_is_distributive_add_other_way(self.pitch(), i, 1);
    }

    /// A point in the rectangle of button `i` gives back `i` by division.
    pub proof fn lemma_rect_index(&self, i: int, x: int, y: int)
        requires
            0 <= i,
            self.in_rect(i, x, y),
        ensures
            self.pitch() > 0,
            i == (x - self.border) / self.pitch(),
            (x - self.border) % self.pitch() < self.button_dim.0,
    {
        lemma_fundamental_div_mod_converse(
            x - self.border,
            self.pitch(),
            i,
            x - self.border - i * self.pitch(),
        );
    }
}

/// Hit-testing the top-left corner of any button of non-empty size gives
/// back that button's index.
pub proof fn lemma_corner_hits_button(cfg: &Config, i: usize)
    requires
        cfg.wf(),
        cfg.button_dim.0 > 0,
        cfg.button_dim.1 > 0,
        i < cfg.count(),
    ensures
        cfg.button_at(cfg.left(i as int), cfg.top()) == Some(i),
{
    let (x, y) = (cfg.left(i as int), cfg.top());
    assert(cfg.in_rect(i as int, x, y));
    let j = choose|j: usize| j < cfg.count() && #[trigger] cfg.in_rect(j as int, x, y);
    cfg.lemma_rect_index(i as int, x, y);
    cfg.lemma_rect_index(j as int, x, y);
}

/// Hit-testing a point of the window that lies in no button's rectangle
/// gives no button.
pub proof fn lemma_gap_hits_nothing(cfg: &Config, x: int, y: int)
    requires
        cfg.wf(),
        0 <= x < cfg.window_width(),
        0 <= y < cfg.window_height(),
        forall|i: int| 0 <= i < cfg.count() ==> !cfg.in_rect(i, x, y),
    ensures
        cfg.button_at(x, y) is None,
{
}

} // verus!
