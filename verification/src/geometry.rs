//! Pixel rectangles and the fractions that divide them.

use vstd::prelude::*;
use crate::error::ConfigError;

verus! {

/// The axis along which a rectangle is cut in two.
#[derive(Clone, Copy, Debug, PartialEq, Eq, Structural)]
pub enum Orientation {
    /// The parts lie side by side: the cut is a vertical line.
    Horizontal,
    /// The parts lie one above the other: the cut is a horizontal line.
    Vertical,
}

/// A ratio `numer / denom`, the share of a rectangle given to its first part.
#[derive(Clone, Copy, Debug, PartialEq, Eq, Structural)]
pub struct Fraction {
    pub numer: u32,
    pub denom: u32,
}

impl Fraction {
    /// The ratio lies strictly between zero and one.
    pub open spec fn valid(self) -> bool {
        0 < self.numer < self.denom
    }

    /// The share of `extent` that the ratio takes, rounded down.
    pub open spec fn of(self, extent: int) -> int {
        extent * (self.numer as int) / (self.denom as int)
    }

    pub fn new(numer: u32, denom: u32) -> (res: Result<Fraction, ConfigError>)
        ensures
            res == (if 0 < numer < denom {
                Ok::<Fraction, ConfigError>(Fraction { numer, denom })
            } else {
                Err::<Fraction, ConfigError>(ConfigError::FractionOutOfRange)
            }),
    {
        if 0 < numer && numer < denom {
            Ok(Fraction { numer, denom })
        } else {
            Err(ConfigError::FractionOutOfRange)
        }
    }

    pub fn is_valid(&self) -> (res: bool)
        ensures
            res == self.valid(),
    {
        0 < self.numer && self.numer < self.denom
    }
}

/// The share of a valid fraction never exceeds the whole, and misses the exact
/// ratio by less than one unit.
pub proof fn lemma_share_bounds(f: Fraction, extent: int)
    requires
        f.valid(),
        0 <= extent,
    ensures
        0 <= f.of(extent) <= extent,
        f.of(extent) * f.denom <= extent * f.numer,
        extent * f.numer - f.of(extent) * f.denom <= f.denom - 1,
{
    let n: int = f.numer as int;
    let d: int = f.denom as int;
    let p: int = extent * n;
    assert(0 <= p <= extent * d) by (nonlinear_arith)
        requires
            0 <= extent,
            0 < n < d,
            p == extent * n,
    ;
    vstd::arithmetic::div_mod::lemma_fundamental_div_mod(p, d);
    vstd::arithmetic::div_mod::lemma_mod_bound(p, d);
    vstd::arithmetic::div_mod::lemma_div_pos_is_pos(p, d);
    let q: int = p / d;
    assert(d * q == q * d) by (nonlinear_arith);
    assert(q <= extent) by (nonlinear_arith)
        requires
            q * d <= extent * d,
            0 < d,
    ;
}

/// An axis-aligned rectangle of pixels, from its least corner up to, but not
/// including, its greatest.
#[derive(Clone, Copy, Debug, PartialEq, Eq, Structural)]
pub struct Rect {
    pub min_x: i32,
    pub min_y: i32,
    pub max_x: i32,
    pub max_y: i32,
}

/// The length from `lo` to `hi`, nothing where they are out of order.
pub open spec fn span(lo: int, hi: int) -> int {
    if hi >= lo {
        hi - lo
    } else {
        0
    }
}

/// Where the fraction cuts the stretch from `lo` to `hi`.
pub open spec fn cut(lo: int, hi: int, f: Fraction) -> int {
    lo + f.of(span(lo, hi))
}

impl Rect {
    /// The corners are in order on both axes.
    pub open spec fn valid(self) -> bool {
        self.min_x <= self.max_x && self.min_y <= self.max_y
    }

    pub open spec fn spec_width(self) -> int {
        span(self.min_x as int, self.max_x as int)
    }

    pub open spec fn spec_height(self) -> int {
        span(self.min_y as int, self.max_y as int)
    }

    /// The number of pixels covered.
    pub open spec fn area(self) -> int {
        self.spec_width() * self.spec_height()
    }

    /// The pixel at `(x, y)` belongs to the rectangle.
    pub open spec fn contains(self, x: int, y: int) -> bool {
        self.min_x <= x < self.max_x && self.min_y <= y < self.max_y
    }

    /// The extent across the cut of the given orientation.
    pub open spec fn cross(self, orientation: Orientation) -> int {
        match orientation {
            Orientation::Horizontal => self.spec_height(),
            Orientation::Vertical => self.spec_width(),
        }
    }

    /// The two parts into which the fraction cuts the rectangle: the first
    /// is the left or upper one and takes the fraction's share.
    pub open spec fn split_spec(self, orientation: Orientation, f: Fraction) -> (Rect, Rect) {
        match orientation {
            Orientation::Horizontal => {
                let c = cut(self.min_x as int, self.max_x as int, f) as i32;
                (Rect { max_x: c, ..self }, Rect { min_x: c, ..self })
            },
            Orientation::Vertical => {
                let c = cut(self.min_y as int, self.max_y as int, f) as i32;
                (Rect { max_y: c, ..self }, Rect { min_y: c, ..self })
            },
        }
    }

    /// The rectangle spanned by two opposite corners, given in any order.
    pub fn new(x0: i32, y0: i32, x1: i32, y1: i32) -> (res: Rect)
        ensures
            res.valid(),
            res.min_x == (if x0 <= x1 { x0 } else { x1 }),
            res.max_x == (if x0 <= x1 { x1 } else { x0 }),
            res.min_y == (if y0 <= y1 { y0 } else { y1 }),
            res.max_y == (if y0 <= y1 { y1 } else { y0 }),
    {
        let (min_x, max_x): (i32, i32) = if x0 <= x1 { (x0, x1) } else { (x1, x0) };
        let (min_y, max_y): (i32, i32) = if y0 <= y1 { (y0, y1) } else { (y1, y0) };
        Rect { min_x, min_y, max_x, max_y }
    }

    pub fn width(&self) -> (res: u32)
        ensures
            res == self.spec_width(),
    {
        extent(self.min_x, self.max_x)
    }

    pub fn height(&self) -> (res: u32)
        ensures
            res == self.spec_height(),
    {
        extent(self.min_y, self.max_y)
    }

    /// Cuts the rectangle in two along `orientation`. The fraction must lie
    /// strictly between zero and one; any other is refused.
    pub fn split(&self, orientation: Orientation, f: Fraction) -> (res: Result<
        (Rect, Rect),
        ConfigError,
    >)
        ensures
            res == (if f.valid() {
                Ok::<(Rect, Rect), ConfigError>(self.split_spec(orientation, f))
            } else {
                Err::<(Rect, Rect), ConfigError>(ConfigError::FractionOutOfRange)
            }),
    {
        if !f.is_valid() {
            return Err(ConfigError::FractionOutOfRange);
        }
        Ok(self.split_valid(orientation, f))
    }

    pub(crate) fn split_valid(&self, orientation: Orientation, f: Fraction) -> (res: (Rect, Rect))
        requires
            f.valid(),
        ensures
            res == self.split_spec(orientation, f),
    {
        match orientation {
            Orientation::Horizontal => {
                let c: i32 = cut_point(self.min_x, self.max_x, f);
                (
                    Rect { min_x: self.min_x, min_y: self.min_y, max_x: c, max_y: self.max_y },
                    Rect { min_x: c, min_y: self.min_y, max_x: self.max_x, max_y: self.max_y },
                )
            },
            Orientation::Vertical => {
                let c: i32 = cut_point(self.min_y, self.max_y, f);
                (
                    Rect { min_x: self.min_x, min_y: self.min_y, max_x: self.max_x, max_y: c },
                    Rect { min_x: self.min_x, min_y: c, max_x: self.max_x, max_y: self.max_y },
                )
            },
        }
    }
}

fn extent(lo: i32, hi: i32) -> (res: u32)
    ensures
        res == span(lo as int, hi as int),
{
    if hi >= lo {
        let d: i64 = hi as i64 - lo as i64;
        d as u32
    } else {
        0
    }
}

fn cut_point(lo: i32, hi: i32, f: Fraction) -> (res: i32)
    requires
        f.valid(),
    ensures
        res == cut(lo as int, hi as int, f),
{
    let length: u64 = extent(lo, hi) as u64;
    proof {
        lemma_share_bounds(f, length as int);
        assert(length * f.numer <= 0xffff_ffff * 0xffff_ffff) by (nonlinear_arith)
            requires
                0 <= length <= 0xffff_ffff,
                0 <= f.numer <= 0xffff_ffff,
        ;
    }
    let share: u64 = length * (f.numer as u64) / (f.denom as u64);
    let at: i64 = lo as i64 + share as i64;
    at as i32
}

/// Cutting a rectangle leaves two rectangles that do not overlap, that
/// together cover exactly the pixels of the whole, and of which the first
/// holds the fraction's share of the area, short of it by less than one
/// line of pixels along the cut. This holds whatever the rectangle's
/// proportions are.
pub proof fn lemma_split_partitions(r: Rect, orientation: Orientation, f: Fraction)
    requires
        r.valid(),
        f.valid(),
    ensures
        ({
            let (a, b) = r.split_spec(orientation, f);
            &&& a.valid() && b.valid()
            &&& forall|x: int, y: int| r.contains(x, y) <==> (a.contains(x, y) || b.contains(x, y))
            &&& forall|x: int, y: int| !(a.contains(x, y) && b.contains(x, y))
            &&& a.area() + b.area() == r.area()
            &&& a.area() * f.denom <= r.area() * f.numer
            &&& r.area() * f.numer - a.area() * f.denom <= r.cross(orientation) * (f.denom - 1)
        }),
{
    let (a, b) = r.split_spec(orientation, f);
    let w: int = r.spec_width();
    let h: int = r.spec_height();
    let n: int = f.numer as int;
    let d: int = f.denom as int;
    match orientation {
        Orientation::Horizontal => {
            lemma_share_bounds(f, w);
            let s: int = f.of(w);
            assert(a.spec_width() == s);
            assert(b.spec_width() == w - s);
            assert(s * h + (w - s) * h == w * h) by (nonlinear_arith);
            assert((s * h) * d <= (w * h) * n && (w * h) * n - (s * h) * d <= h * (d - 1))
                by (nonlinear_arith)
                requires
                    0 <= h,
                    s * d <= w * n,
                    w * n - s * d <= d - 1,
            ;
        },
        Orientation::Vertical => {
            lemma_share_bounds(f, h);
            let s: int = f.of(h);
            assert(a.spec_height() == s);
            assert(b.spec_height() == h - s);
            assert(w * s + w * (h - s) == w * h) by (nonlinear_arith);
            assert((w * s) * d <= (w * h) * n && (w * h) * n - (w * s) * d <= w * (d - 1))
                by (nonlinear_arith)
                requires
                    0 <= w,
                    s * d <= h * n,
                    h * n - s * d <= d - 1,
            ;
        },
    }
}

} // verus!
