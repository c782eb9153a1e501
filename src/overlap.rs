//! Counting the positions of a row-major enumeration that fall inside a
//! rectangle.
use vstd::arithmetic::div_mod::{lemma_fundamental_div_mod, lemma_fundamental_div_mod_converse};
use vstd::prelude::*;

use crate::clamp;

verus! {

/// A `valid_width x valid_height` rectangle placed at `(offset_x, offset_y)`
/// inside a `width x height` frame, whose positions are enumerated
/// row-major: position `i` is the cell `(i % width, i / width)`.
#[derive(Debug, Clone, Copy, PartialEq, Eq, Structural)]
pub struct OverhangLayout {
    pub valid_width: usize,
    pub valid_height: usize,
    pub offset_x: usize,
    pub offset_y: usize,
    pub width: usize,
    pub height: usize,
}

impl OverhangLayout {
    /// The rectangle lies in the frame (when it is not empty), and the frame's
    /// positions can be counted in a `usize`.
    pub open spec fn wf(self) -> bool {
        &&& self.width * self.height <= usize::MAX
        &&& self.valid_width > 0 && self.valid_height > 0 ==> self.offset_x + self.valid_width
            <= self.width && self.offset_y + self.valid_height <= self.height
    }

    /// Whether the position `i` lies in the rectangle.
    pub open spec fn in_rect(self, i: int) -> bool {
        &&& self.offset_x <= i % (self.width as int) < self.offset_x + self.valid_width
        &&& self.offset_y <= i / (self.width as int) < self.offset_y + self.valid_height
    }

    /// How many of the positions `[0, to)` lie in the rectangle, counted one
    /// by one.
    pub open spec fn count_before(self, to: int) -> nat
        decreases to,
    {
        if to <= 0 {
            0
        } else {
            self.count_before(to - 1) + if self.in_rect(to - 1) {
                1nat
            } else {
                0nat
            }
        }
    }

    /// The same count in closed form: whole rows of the rectangle above row
    /// `to / width`, plus the part of that row left of column `to % width`.
    pub open spec fn count_closed(self, to: int) -> int {
        let w = self.width as int;
        let row = to / w;
        let col = to % w;
        clamp(row - self.offset_y, 0, self.valid_height as int) * self.valid_width + if self.offset_y
            <= row < self.offset_y + self.valid_height {
            clamp(col - self.offset_x, 0, self.valid_width as int)
        } else {
            0
        }
    }

    /// Moving from `to` to `to + 1` adds one to the closed form exactly when
    /// position `to` lies in the rectangle.
    proof fn lemma_closed_step(self, to: int)
        requires
            self.width > 0,
            self.offset_x + self.valid_width <= self.width,
            0 <= to,
        ensures
            self.count_closed(to + 1) == self.count_closed(to) + if self.in_rect(to) {
                1int
            } else {
                0int
            },
    {
        let w = self.width as int;
        let q = to / w;
        let r = to % w;
        let iw = self.valid_width as int;
        lemma_fundamental_div_mod(to, w);
        if r + 1 < w {
            lemma_fundamental_div_mod_converse(to + 1, w, q, r + 1);
        } else {
            assert(to + 1 == (q + 1) * w + 0) by (nonlinear_arith)
                requires
                    to == w * q + r,
                    r + 1 == w,
            ;
            lemma_fundamental_div_mod_converse(to + 1, w, q + 1, 0);
        }
        let a = clamp(q - self.offset_y, 0, self.valid_height as int);
        let b = clamp(q + 1 - self.offset_y, 0, self.valid_height as int);
        assert(b * iw == a * iw + (b - a) * iw) by (nonlinear_arith);
        assert((b - a) * iw == if b == a + 1 {
            iw
        } else {
            0
        }) by (nonlinear_arith)
            requires
                b == a || b == a + 1,
        ;
    }

    /// The closed form agrees with counting one by one.
    pub proof fn lemma_count_closed(self, to: int)
        requires
            self.width > 0,
            self.offset_x + self.valid_width <= self.width,
            0 <= to,
        ensures
            self.count_closed(to) == self.count_before(to),
        decreases to,
    {
        if to == 0 {
            lemma_fundamental_div_mod_converse(0, self.width as int, 0, 0);
            let a = clamp(0 - self.offset_y, 0, self.valid_height as int);
            assert(a == 0);
            assert(a * self.valid_width == 0) by (nonlinear_arith)
                requires
                    a == 0,
            ;
        } else {
            self.lemma_count_closed(to - 1);
            self.lemma_closed_step(to - 1);
        }
    }

    /// Nothing lies in an empty rectangle.
    pub proof fn lemma_count_empty(self, to: int)
        requires
            self.valid_width == 0 || self.valid_height == 0,
        ensures
            self.count_before(to) == 0,
        decreases to,
    {
        if to > 0 {
            self.lemma_count_empty(to - 1);
        }
    }

    /// The count grows with `to`, by at most one per position.
    pub proof fn lemma_count_monotonic(self, a: int, b: int)
        requires
            a <= b,
        ensures
            self.count_before(a) <= self.count_before(b),
            self.count_before(b) - self.count_before(a) <= b - a || a < 0,
        decreases b - a,
    {
        if a < b {
            self.lemma_count_monotonic(a, b - 1);
        }
    }
}

} // verus!
