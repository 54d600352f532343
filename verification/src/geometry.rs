//! Axis-aligned rectangles, fixed-point fractions and the two split operations.

use vstd::prelude::*;

verus! {

/// The value of [`Ratio::millionths`] that stands for the whole of a span.
pub const RATIO_ONE: u32 = 1_000_000;

/// One half, the fraction of every split that no configuration governs.
pub const RATIO_HALF: u32 = 500_000;

/// The smallest main-area ratio a tag can be set to, one tenth.
pub const RATIO_MIN: u32 = 100_000;

/// The largest main-area ratio a tag can be set to, nine tenths.
pub const RATIO_MAX: u32 = 900_000;

/// A fraction of a span, counted in millionths.
///
/// The value is not bounded by the type: a ratio above [`RATIO_ONE`] can be
/// stored, but no split accepts it.
#[derive(Debug, Clone, Copy, PartialEq, Eq, Structural)]
pub struct Ratio {
    pub millionths: u32,
}

impl Ratio {
    /// The ratio of so many millionths.
    pub fn new(millionths: u32) -> (r: Ratio)
        ensures
            r.millionths == millionths,
    {
        Ratio { millionths }
    }

    /// One half.
    pub fn half() -> (r: Ratio)
        ensures
            r == Ratio::spec_half(),
    {
        Ratio { millionths: RATIO_HALF }
    }

    /// One half, in specifications.
    pub open spec fn spec_half() -> Ratio {
        Ratio { millionths: RATIO_HALF }
    }

    /// Whether the ratio is at most one, so that a scaled span never
    /// exceeds the span.
    pub open spec fn is_proper(self) -> bool {
        self.millionths <= RATIO_ONE
    }

    /// `span` times the ratio, rounded down.
    pub open spec fn of(self, span: int) -> int {
        span * self.millionths / (RATIO_ONE as int)
    }

    /// `span` times the ratio, rounded down.
    pub fn scale(&self, span: u32) -> (part: u32)
        requires
            self.is_proper(),
        ensures
            part == self.of(span as int),
            part <= span,
    {
        proof {
            lemma_scaled_within(span as int, *self);
        }
        let wide: u64 = (span as u64) * (self.millionths as u64) / (RATIO_ONE as u64);
        wide as u32
    }

    /// The ratio brought into the range from [`RATIO_MIN`] to [`RATIO_MAX`]:
    /// a ratio below the range becomes its lower end, one above it its
    /// upper end.
    pub open spec fn spec_clamped(self) -> Ratio {
        if self.millionths < RATIO_MIN {
            Ratio { millionths: RATIO_MIN }
        } else if self.millionths > RATIO_MAX {
            Ratio { millionths: RATIO_MAX }
        } else {
            self
        }
    }

    /// The ratio brought into the range from [`RATIO_MIN`] to [`RATIO_MAX`].
    pub fn clamped(&self) -> (r: Ratio)
        ensures
            r == self.spec_clamped(),
            RATIO_MIN <= r.millionths <= RATIO_MAX,
    {
        if self.millionths < RATIO_MIN {
            Ratio { millionths: RATIO_MIN }
        } else if self.millionths > RATIO_MAX {
            Ratio { millionths: RATIO_MAX }
        } else {
            *self
        }
    }
}

/// A proper ratio of a non-negative span lies between zero and the span.
pub proof fn lemma_scaled_within(span: int, fraction: Ratio)
    requires
        0 <= span,
        fraction.is_proper(),
    ensures
        0 <= fraction.of(span) <= span,
        span * fraction.millionths <= span * 1_000_000,
{
    let m = fraction.millionths as int;
    assert(0 <= span * m <= span * 1_000_000) by (nonlinear_arith)
        requires
            0 <= span,
            0 <= m <= 1_000_000,
    ;
    assert(0 <= (span * m) / 1_000_000 <= span) by (nonlinear_arith)
        requires
            0 <= span * m <= span * 1_000_000,
    ;
}

/// An axis-aligned rectangle in compositor pixels.
#[derive(Debug, Clone, Copy, PartialEq, Eq, Structural)]
pub struct Rect {
    pub x: i32,
    pub y: i32,
    pub width: u32,
    pub height: u32,
}

/// Builds a rectangle from its position and size.
pub fn rect(x: i32, y: i32, width: u32, height: u32) -> (r: Rect)
    ensures
        r == (Rect { x, y, width, height }),
{
    Rect { x, y, width, height }
}

impl Rect {
    /// Whether the far edges of the rectangle are coordinates too: every
    /// point of it can then be named by signed 32-bit numbers.
    pub open spec fn in_range(self) -> bool {
        &&& self.x + self.width <= i32::MAX
        &&& self.y + self.height <= i32::MAX
    }

    /// The two parts that [`Rect::split_vertial`] cuts the rectangle into.
    pub open spec fn spec_split_vertial(self, gap: u32, fraction: Ratio) -> (Rect, Rect) {
        let left = fraction.of(self.width - gap);
        (
            Rect { x: self.x, y: self.y, width: left as u32, height: self.height },
            Rect {
                x: (self.x + left + gap) as i32,
                y: self.y,
                width: (self.width - left - gap) as u32,
                height: self.height,
            },
        )
    }

    /// The two parts that [`Rect::split_horizontal`] cuts the rectangle into.
    pub open spec fn spec_split_horizontal(self, gap: u32, fraction: Ratio) -> (Rect, Rect) {
        let top = fraction.of(self.height - gap);
        (
            Rect { x: self.x, y: self.y, width: self.width, height: top as u32 },
            Rect {
                x: self.x,
                y: (self.y + top + gap) as i32,
                width: self.width,
                height: (self.height - top - gap) as u32,
            },
        )
    }

    /// Cuts the rectangle into a left and a right part with `gap` pixels
    /// between them. The left part gets `fraction` of the width that the gap
    /// leaves, rounded down; the right part gets the rest.
    pub fn split_vertial(&self, gap: u32, fraction: Ratio) -> (parts: (Rect, Rect))
        requires
            gap <= self.width,
            fraction.is_proper(),
            self.in_range(),
        ensures
            parts == self.spec_split_vertial(gap, fraction),
            parts.0.x == self.x,
            parts.0.width == fraction.of(self.width - gap),
            parts.1.x == self.x + parts.0.width + gap,
            parts.0.width + gap + parts.1.width == self.width,
            parts.0.y == self.y && parts.1.y == self.y,
            parts.0.height == self.height && parts.1.height == self.height,
            parts.0.in_range() && parts.1.in_range(),
    {
        let left: u32 = fraction.scale(self.width - gap);
        let shift: i64 = self.x as i64 + left as i64 + gap as i64;
        (
            rect(self.x, self.y, left, self.height),
            rect(shift as i32, self.y, self.width - left - gap, self.height),
        )
    }

    /// Cuts the rectangle into an upper and a lower part with `gap` pixels
    /// between them. The upper part gets `fraction` of the height that the
    /// gap leaves, rounded down; the lower part gets the rest.
    pub fn split_horizontal(&self, gap: u32, fraction: Ratio) -> (parts: (Rect, Rect))
        requires
            gap <= self.height,
            fraction.is_proper(),
            self.in_range(),
        ensures
            parts == self.spec_split_horizontal(gap, fraction),
            parts.0.y == self.y,
            parts.0.height == fraction.of(self.height - gap),
            parts.1.y == self.y + parts.0.height + gap,
            parts.0.height + gap + parts.1.height == self.height,
            parts.0.x == self.x && parts.1.x == self.x,
            parts.0.width == self.width && parts.1.width == self.width,
            parts.0.in_range() && parts.1.in_range(),
    {
        let top: u32 = fraction.scale(self.height - gap);
        let shift: i64 = self.y as i64 + top as i64 + gap as i64;
        (
            rect(self.x, self.y, self.width, top),
            rect(self.x, shift as i32, self.width, self.height - top - gap),
        )
    }
}

} // verus!
