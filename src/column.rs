//! From a wall hit to a coloured vertical run of one screen column.
use vstd::prelude::*;

verus! {

/// Column height given to a wall at distance zero, and the most any column
/// gets.
pub const HEIGHT_CAP: u32 = 2147483647;

/// Height in pixels of a wall `num / den` cells away on an `h`-pixel-tall
/// image: `h` divided by the distance, rounded down and capped.
pub open spec fn height_of(h: int, num: int, den: int) -> int {
    if num <= 0 {
        HEIGHT_CAP as int
    } else if h * den / num > HEIGHT_CAP {
        HEIGHT_CAP as int
    } else {
        h * den / num
    }
}

/// First row of a column `lh` pixels tall, centred on an `h`-row image.
pub open spec fn span_start(h: int, lh: int) -> int {
    if h / 2 - lh / 2 < 0 {
        0
    } else {
        h / 2 - lh / 2
    }
}

/// Last row (included) of a column `lh` pixels tall on an `h`-row image.
pub open spec fn span_end(h: int, lh: int) -> int {
    if lh / 2 + h / 2 > h - 1 {
        h - 1
    } else {
        lh / 2 + h / 2
    }
}

/// The on-screen height of a wall at distance `num / den` cells.
pub fn line_height(h: u32, num: u64, den: u64) -> (r: u32)
    ensures
        r == height_of(h as int, num as int, den as int),
{
    if num == 0 {
        return HEIGHT_CAP;
    }
    assert((h as int) * (den as int) <= 0xffff_ffff * 0xffff_ffff_ffff_ffff) by (nonlinear_arith)
        requires
            0 <= h <= 0xffff_ffff,
            0 <= den <= 0xffff_ffff_ffff_ffff,
    ;
    let q: u128 = (h as u128) * (den as u128) / (num as u128);
    if q > HEIGHT_CAP as u128 {
        HEIGHT_CAP
    } else {
        q as u32
    }
}

/// The rows `(start, end)`, both included, of a column of height `lh`,
/// centred and clipped to an image of `h` rows.
pub fn column_span(h: u32, lh: u32) -> (r: (u32, u32))
    requires
        h >= 1,
    ensures
        r.0 == span_start(h as int, lh as int),
        r.1 == span_end(h as int, lh as int),
        r.0 <= h / 2 <= r.1 < h,
{
    let half_h = h / 2;
    let half_l = lh / 2;
    let start = if half_l > half_h { 0 } else { half_h - half_l };
    let end = if half_l > h - 1 - half_h { h - 1 } else { half_l + half_h };
    (start, end)
}

/// A pixel colour, one byte per channel.
#[derive(Clone, Copy, Debug, PartialEq, Eq, Structural)]
pub struct Rgba {
    pub r: u8,
    pub g: u8,
    pub b: u8,
    pub a: u8,
}

impl Rgba {
    /// Channel `k` in memory order: red, green, blue, alpha.
    pub open spec fn channel(self, k: int) -> u8 {
        if k == 0 {
            self.r
        } else if k == 1 {
            self.g
        } else if k == 2 {
            self.b
        } else {
            self.a
        }
    }
}

/// The colour of a tile lit from the side that was not shaded.
pub open spec fn base_color(tile: u8) -> Rgba {
    if tile == 1 {
        Rgba { r: 255, g: 0, b: 0, a: 0 }
    } else if tile == 2 {
        Rgba { r: 0, g: 255, b: 0, a: 0 }
    } else if tile == 3 {
        Rgba { r: 0, g: 0, b: 255, a: 0 }
    } else if tile == 4 {
        Rgba { r: 255, g: 255, b: 255, a: 0 }
    } else {
        Rgba { r: 255, g: 255, b: 0, a: 0 }
    }
}

/// The colour of a wall: red, green, blue, white for tiles 1 to 4 and yellow
/// for any other, every channel halved on the side that faces the y axis.
pub open spec fn color_of(tile: u8, side: u8) -> Rgba {
    let c = base_color(tile);
    if side == 1 {
        Rgba { r: c.r / 2, g: c.g / 2, b: c.b / 2, a: c.a / 2 }
    } else {
        c
    }
}

pub fn wall_color(tile: u8, side: u8) -> (c: Rgba)
    ensures
        c == color_of(tile, side),
{
    let mut c = match tile {
        1 => Rgba { r: 255, g: 0, b: 0, a: 0 },
        2 => Rgba { r: 0, g: 255, b: 0, a: 0 },
        3 => Rgba { r: 0, g: 0, b: 255, a: 0 },
        4 => Rgba { r: 255, g: 255, b: 255, a: 0 },
        _ => Rgba { r: 255, g: 255, b: 0, a: 0 },
    };
    if side == 1 {
        c = Rgba { r: c.r / 2, g: c.g / 2, b: c.b / 2, a: c.a / 2 };
    }
    c
}

/// A farther wall is never drawn taller: if `num1 / den1 <= num2 / den2`,
/// the column for the second distance is at most as tall as for the first,
/// and so is the run of rows drawn for it.
pub proof fn lemma_height_monotone(h: int, num1: int, den1: int, num2: int, den2: int)
    requires
        h >= 0,
        num1 >= 0,
        num2 >= 0,
        den1 > 0,
        den2 > 0,
        num1 * den2 <= num2 * den1,
    ensures
        height_of(h, num2, den2) <= height_of(
            h as int,
            num1 as int,
            den1 as int,
        ),
{
    if num1 > 0 && num2 > 0 {
        let q2 = (h * den2) / num2;
        let q1 = (h * den1) / num1;
        assert(q2 * num2 <= h * den2) by (nonlinear_arith)
            requires
                q2 == (h * den2) / num2,
                num2 > 0,
                h * den2 >= 0,
        ;
        assert(q2 >= 0) by (nonlinear_arith)
            requires
                q2 == (h * den2) / num2,
                num2 > 0,
                h * den2 >= 0,
        ;
        assert(q2 * num1 * den2 <= q2 * num2 * den1) by (nonlinear_arith)
            requires
                num1 * den2 <= num2 * den1,
                q2 >= 0,
        ;
        assert(q2 * num2 * den1 <= h * den2 * den1) by (nonlinear_arith)
            requires
                q2 * num2 <= h * den2,
                den1 > 0,
        ;
        assert(q2 * num1 <= h * den1) by (nonlinear_arith)
            requires
                q2 * num1 * den2 <= h * den2 * den1,
                den2 > 0,
        ;
        assert(q2 <= q1) by (nonlinear_arith)
            requires
                q2 * num1 <= h * den1,
                q1 == (h * den1) / num1,
                num1 > 0,
        ;
    } else if num1 > 0 {
        assert(num2 == 0);
        assert(num1 * den2 > 0) by (nonlinear_arith)
            requires
                num1 > 0,
                den2 > 0,
        ;
        assert(num2 * den1 == 0);
    }
}

} // verus!
