//! Common value types used everywhere: points, axis-aligned rectangles and
//! colors, with their translation / scale / inflate / contains / center
//! operations. Pure value types, no state.

use vstd::prelude::*;

verus! {

/// Application unit: the integer drawing coordinate.
pub type Au = i64;

/// Half of `d`, rounded toward zero; the meaning of the executable `d / 2`
/// on a signed operand.
pub open spec fn half_toward_zero(d: int) -> int {
    if d >= 0 {
        d / 2
    } else {
        -((-d) / 2)
    }
}

/// 2D point.
#[derive(Clone, Copy, Debug, PartialEq, Eq, Structural)]
pub struct Pos {
    pub x: Au,
    pub y: Au,
}

impl Pos {
    /// The origin, `(0, 0)`.
    pub fn zero() -> (p: Pos)
        ensures
            p == (Pos { x: 0, y: 0 }),
    {
        Pos { x: 0, y: 0 }
    }

    /// The unit point, `(1, 1)`.
    pub fn one() -> (p: Pos)
        ensures
            p == (Pos { x: 1, y: 1 }),
    {
        Pos { x: 1, y: 1 }
    }

    /// Componentwise addition of an offset.
    pub fn translate(self, pos: Pos) -> (r: Pos)
        requires
            i64::MIN <= self.x + pos.x <= i64::MAX,
            i64::MIN <= self.y + pos.y <= i64::MAX,
        ensures
            r.x == self.x + pos.x,
            r.y == self.y + pos.y,
    {
        Pos { x: self.x + pos.x, y: self.y + pos.y }
    }
}

/// Bounding box defined by two points: `a` (top-left-ish) and `b`
/// (bottom-right-ish). Bounds are immutable values, always produced fresh
/// from layout plus translation; nothing here requires `a <= b`.
#[derive(Clone, Copy, Debug, PartialEq, Eq, Structural)]
pub struct Bounds {
    pub a: Pos,
    pub b: Pos,
}

impl Bounds {
    /// The degenerate box at the origin.
    pub fn zero() -> (r: Bounds)
        ensures
            r == (Bounds { a: Pos { x: 0, y: 0 }, b: Pos { x: 0, y: 0 } }),
    {
        Bounds { a: Pos { x: 0, y: 0 }, b: Pos { x: 0, y: 0 } }
    }

    /// Horizontal extent, `b.x - a.x`.
    pub fn width(&self) -> (r: Au)
        requires
            i64::MIN <= self.b.x - self.a.x <= i64::MAX,
        ensures
            r == self.b.x - self.a.x,
    {
        self.b.x - self.a.x
    }

    /// Vertical extent, `b.y - a.y`.
    pub fn height(&self) -> (r: Au)
        requires
            i64::MIN <= self.b.y - self.a.y <= i64::MAX,
        ensures
            r == self.b.y - self.a.y,
    {
        self.b.y - self.a.y
    }

    /// Expands the box symmetrically by `n` on every side.
    pub fn inflate_uniform(&self, n: Au) -> (r: Bounds)
        requires
            i64::MIN <= self.a.x - n <= i64::MAX,
            i64::MIN <= self.a.y - n <= i64::MAX,
            i64::MIN <= self.b.x + n <= i64::MAX,
            i64::MIN <= self.b.y + n <= i64::MAX,
        ensures
            r.a.x == self.a.x - n,
            r.a.y == self.a.y - n,
            r.b.x == self.b.x + n,
            r.b.y == self.b.y + n,
    {
        Bounds {
            a: Pos { x: self.a.x - n, y: self.a.y - n },
            b: Pos { x: self.b.x + n, y: self.b.y + n },
        }
    }

    /// The midpoint of the box, each axis at `a + (b - a) / 2` with the
    /// division truncating toward zero.
    pub fn center(&self) -> (r: Pos)
        requires
            i64::MIN <= self.b.x - self.a.x <= i64::MAX,
            i64::MIN <= self.b.y - self.a.y <= i64::MAX,
        ensures
            r.x == self.a.x + half_toward_zero(self.b.x - self.a.x),
            r.y == self.a.y + half_toward_zero(self.b.y - self.a.y),
    {
        Pos {
            x: self.a.x + (self.b.x - self.a.x) / 2,
            y: self.a.y + (self.b.y - self.a.y) / 2,
        }
    }

    /// Adds an offset to both corners.
    pub fn translate(&self, pos: Pos) -> (r: Bounds)
        requires
            i64::MIN <= self.a.x + pos.x <= i64::MAX,
            i64::MIN <= self.a.y + pos.y <= i64::MAX,
            i64::MIN <= self.b.x + pos.x <= i64::MAX,
            i64::MIN <= self.b.y + pos.y <= i64::MAX,
        ensures
            r.a.x == self.a.x + pos.x,
            r.a.y == self.a.y + pos.y,
            r.b.x == self.b.x + pos.x,
            r.b.y == self.b.y + pos.y,
    {
        let a = self.a.translate(pos);
        let b = self.b.translate(pos);

        Bounds { a, b }
    }

    /// Strict interior test: points on the boundary are excluded.
    pub fn contains(&self, pos: Pos) -> (r: bool)
        ensures
            r == (pos.x > self.a.x && pos.x < self.b.x && pos.y > self.a.y && pos.y < self.b.y),
    {
        pos.x > self.a.x && pos.x < self.b.x && pos.y > self.a.y && pos.y < self.b.y
    }
}

/// An RGBA color with 8-bit channels.
#[derive(Clone, Copy, Debug, PartialEq, Eq, Structural)]
pub struct Color {
    pub r: u8,
    pub g: u8,
    pub b: u8,
    pub a: u8,
}

impl Color {
    /// Fully transparent black, the default background.
    pub fn transparent() -> (c: Color)
        ensures
            c == (Color { r: 0, g: 0, b: 0, a: 0 }),
    {
        Color { r: 0, g: 0, b: 0, a: 0 }
    }

    /// Opaque black.
    pub fn black() -> (c: Color)
        ensures
            c == (Color { r: 0, g: 0, b: 0, a: 255 }),
    {
        Color { r: 0, g: 0, b: 0, a: 255 }
    }

    /// Opaque white.
    pub fn white() -> (c: Color)
        ensures
            c == (Color { r: 255, g: 255, b: 255, a: 255 }),
    {
        Color { r: 255, g: 255, b: 255, a: 255 }
    }

    /// Opaque red.
    pub fn red() -> (c: Color)
        ensures
            c == (Color { r: 255, g: 0, b: 0, a: 255 }),
    {
        Color { r: 255, g: 0, b: 0, a: 255 }
    }

    /// Opaque green.
    pub fn green() -> (c: Color)
        ensures
            c == (Color { r: 0, g: 255, b: 0, a: 255 }),
    {
        Color { r: 0, g: 255, b: 0, a: 255 }
    }

    /// Opaque blue.
    pub fn blue() -> (c: Color)
        ensures
            c == (Color { r: 0, g: 0, b: 255, a: 255 }),
    {
        Color { r: 0, g: 0, b: 255, a: 255 }
    }

    /// Opaque yellow.
    pub fn yellow() -> (c: Color)
        ensures
            c == (Color { r: 255, g: 255, b: 0, a: 255 }),
    {
        Color { r: 255, g: 255, b: 0, a: 255 }
    }
}

/// The byte at channel `k` of the checkerboard pixel at `(x, y)`: white where
/// `x & square_size` and `y & square_size` disagree, black elsewhere, with an
/// opaque alpha channel.
pub open spec fn checker_byte(x: usize, y: usize, square_size: usize, k: int) -> u8 {
    if k == 3 {
        0xFF
    } else if (x & square_size) != (y & square_size) {
        0xFF
    } else {
        0x00
    }
}

/// The four RGBA bytes of the checkerboard pixel at `(x, y)`.
spec fn checker_pixel(x: usize, y: usize, square_size: usize) -> Seq<u8> {
    seq![
        checker_byte(x, y, square_size, 0),
        checker_byte(x, y, square_size, 1),
        checker_byte(x, y, square_size, 2),
        checker_byte(x, y, square_size, 3),
    ]
}

/// The first `x` pixels of checkerboard row `y`, flattened to bytes.
spec fn checker_row_prefix(y: usize, x: int, square_size: usize) -> Seq<u8>
    decreases x,
{
    if x <= 0 {
        Seq::empty()
    } else {
        checker_row_prefix(y, x - 1, square_size) + checker_pixel((x - 1) as usize, y, square_size)
    }
}

/// The first `rows` full rows of the checkerboard, flattened to bytes.
spec fn checker_grid_prefix(rows: int, width: usize, square_size: usize) -> Seq<u8>
    decreases rows,
{
    if rows <= 0 {
        Seq::empty()
    } else {
        checker_grid_prefix(rows - 1, width, square_size)
            + checker_row_prefix((rows - 1) as usize, width as int, square_size)
    }
}

proof fn lemma_checker_row_prefix(y: usize, x: int, square_size: usize)
    requires
        0 <= x,
    ensures
        checker_row_prefix(y, x, square_size).len() == 4 * x,
        forall|i: int, k: int|
            0 <= i < x && 0 <= k < 4 ==> checker_row_prefix(y, x, square_size)[4 * i + k]
                == #[trigger] checker_byte(i as usize, y, square_size, k),
    decreases x,
{
    if x > 0 {
        lemma_checker_row_prefix(y, x - 1, square_size);
    }
}

proof fn lemma_checker_grid_prefix(rows: int, width: usize, square_size: usize)
    requires
        0 <= rows,
    ensures
        checker_grid_prefix(rows, width, square_size).len() == 4 * (rows * width),
        forall|yy: int, xx: int, k: int|
            0 <= yy < rows && 0 <= xx < width && 0 <= k < 4
                ==> checker_grid_prefix(rows, width, square_size)[4 * (yy * width + xx) + k]
                == #[trigger] checker_byte(xx as usize, yy as usize, square_size, k),
    decreases rows,
{
    if rows == 0 {
        assert(rows * width == 0) by (nonlinear_arith)
            requires rows == 0;
    }
    if rows > 0 {
        lemma_checker_grid_prefix(rows - 1, width, square_size);
        lemma_checker_row_prefix((rows - 1) as usize, width as int, square_size);
        let prev = checker_grid_prefix(rows - 1, width, square_size);
        let row = checker_row_prefix((rows - 1) as usize, width as int, square_size);
        assert(4 * ((rows - 1) * width) + 4 * width == 4 * (rows * width)) by (nonlinear_arith);
        assert forall|yy: int, xx: int, k: int|
            0 <= yy < rows && 0 <= xx < width && 0 <= k < 4
            implies (prev + row)[4 * (yy * width + xx) + k]
                == #[trigger] checker_byte(xx as usize, yy as usize, square_size, k) by {
            if yy < rows - 1 {
                assert(yy * width + xx < (rows - 1) * width) by (nonlinear_arith)
                    requires 0 <= yy < rows - 1 && 0 <= xx < width;
                assert(0 <= yy * width) by (nonlinear_arith)
                    requires 0 <= yy && 0 <= width;
                assert((prev + row)[4 * (yy * width + xx) + k] == prev[4 * (yy * width + xx) + k]);
            } else {
                assert(yy * width + xx == (rows - 1) * width + xx) by (nonlinear_arith)
                    requires yy == rows - 1;
                assert(0 <= (rows - 1) * width) by (nonlinear_arith)
                    requires 0 <= rows - 1 && 0 <= width;
                assert((prev + row)[4 * ((rows - 1) * width + xx) + k] == row[4 * xx + k]);
            }
        }
    }
}

/// A `width` by `height` RGBA8 checkerboard test pattern: a pixel is white
/// where `x & square_size` and `y & square_size` disagree and black elsewhere
/// (so `square_size` is meant to be a power of two), always fully opaque.
pub fn gen_checkerboard(width: usize, height: usize, square_size: usize) -> (r: Vec<u8>)
    requires
        width * height * 4 <= usize::MAX,
    ensures
        r@.len() == width * height * 4,
        forall|y: int, x: int, k: int|
            0 <= y < height && 0 <= x < width && 0 <= k < 4
                ==> r@[4 * (y * width + x) + k]
                == #[trigger] checker_byte(x as usize, y as usize, square_size, k),
{
    let mut data: Vec<u8> = Vec::new();
    let mut y: usize = 0;
    while y < height
        invariant
            y <= height,
            width * height * 4 <= usize::MAX,
            data@ == checker_grid_prefix(y as int, width, square_size),
        decreases height - y,
    {
        let mut x: usize = 0;
        while x < width
            invariant
                y < height,
                x <= width,
                width * height * 4 <= usize::MAX,
                data@ == checker_grid_prefix(y as int, width, square_size)
                    + checker_row_prefix(y, x as int, square_size),
            decreases width - x,
        {
            let v: u8 = if (x & square_size) != (y & square_size) {
                0xFF
            } else {
                0x00
            };
            data.push(v);
            data.push(v);
            data.push(v);
            data.push(0xFF);
            proof {
                assert(data@ =~= checker_grid_prefix(y as int, width, square_size)
                    + checker_row_prefix(y, x as int + 1, square_size));
            }
            x = x + 1;
        }
        proof {
            assert(data@ =~= checker_grid_prefix(y as int + 1, width, square_size));
        }
        y = y + 1;
    }
    proof {
        lemma_checker_grid_prefix(height as int, width, square_size);
        assert(height * width == width * height) by (nonlinear_arith);
        assert(4 * (height * width) == width * height * 4) by (nonlinear_arith);
    }
    data
}

} // verus!
