//! The cursor image of an export, pixel by pixel: a disc with a dot, a
//! crosshair with a ring, or an arrow with an outline. Every test of a
//! pixel against a shape is an exact comparison of integers.

use vstd::prelude::*;
use crate::cursor_style::CursorShape;

verus! {

/// The largest side of a cursor image, in pixels: the largest power of
/// two for which the squares that the edge tests compare fit the widest
/// integers.
pub const MAX_CURSOR_SIZE: u32 = 262_144;

/// What a pixel of the cursor image shows.
#[derive(Clone, Copy, Debug, PartialEq, Eq, Structural)]
pub enum Paint {
    /// Nothing: the video shows through.
    Clear,
    /// The cursor's colour.
    Fill,
    /// The dark outline.
    Outline,
    /// The dark dot in the middle of the disc.
    Centre,
}

/// Four times the square of a pixel's distance from the middle of an
/// image of side `size`.
pub open spec fn spread(size: int, x: int, y: int) -> int {
    (2 * x - size) * (2 * x - size) + (2 * y - size) * (2 * y - size)
}

/// The disc: a dot of radius 0.12 of the side, the disc of radius 0.42
/// around it, and an outline one and a half pixels wide.
pub open spec fn disc_paint(size: int, x: int, y: int) -> Paint {
    let d = 625 * spread(size, x, y);
    if d <= 36 * (size * size) {
        Paint::Centre
    } else if d <= 441 * (size * size) {
        Paint::Fill
    } else if d <= (21 * size + 75) * (21 * size + 75) {
        Paint::Outline
    } else {
        Paint::Clear
    }
}

/// Half the width of the crosshair's arms: 0.08 of the side in whole
/// pixels, and at least two.
pub open spec fn arm_width(size: int) -> int {
    if (2 * size) / 25 < 2 {
        2
    } else {
        (2 * size) / 25
    }
}

/// The magnitude of an integer.
pub open spec fn magnitude(v: int) -> int {
    if v < 0 {
        -v
    } else {
        v
    }
}

/// Whether a pixel lies on an arm of the crosshair: within the arm's
/// width of the axis `across`, and along the axis `along` between the
/// ring of radius 0.18 of the side and 0.58 of the side from the middle.
pub open spec fn on_arm(size: int, along: int, across: int) -> bool {
    &&& magnitude(2 * across - size) < 2 * arm_width(size)
    &&& 25 * magnitude(2 * along - size) > 9 * size
    &&& 25 * magnitude(2 * along - size) < 29 * size
}

/// The crosshair: a ring three pixels wide at 0.18 of the side from the
/// middle, and four arms.
pub open spec fn crosshair_paint(size: int, x: int, y: int) -> Paint {
    let d = 625 * spread(size, x, y);
    let within = d <= (9 * size + 75) * (9 * size + 75);
    let beyond = 9 * size <= 75 || d >= (9 * size - 75) * (9 * size - 75);
    if (within && beyond) || on_arm(size, x, y) || on_arm(size, y, x) {
        Paint::Fill
    } else {
        Paint::Clear
    }
}

/// The corners of the arrow on an image of side `size`, in units of one
/// part in 2400 of a pixel: tip, foot, notch and wing.
pub open spec fn corner(size: int, i: int) -> (int, int) {
    if i == 0 {
        (400 * size, 400 * size)
    } else if i == 1 {
        (1107 * size, 2100 * size)
    } else if i == 2 {
        (1358 * size, 1361 * size)
    } else {
        (2100 * size, 1107 * size)
    }
}

/// Whether the ray from the point `p` to the right crosses the edge from
/// `a` to `b`.
pub open spec fn crosses(p: (int, int), a: (int, int), b: (int, int)) -> bool {
    let rise = b.1 - a.1;
    let left = (p.0 - a.0) * rise;
    let right = (b.0 - a.0) * (p.1 - a.1);
    ((a.1 > p.1) != (b.1 > p.1)) && if rise > 0 {
        left < right
    } else {
        left > right
    }
}

/// Whether the point lies inside the arrow: the ray from it crosses an
/// odd number of edges.
pub open spec fn inside_arrow(size: int, p: (int, int)) -> bool {
    let c0 = crosses(p, corner(size, 0), corner(size, 3));
    let c1 = crosses(p, corner(size, 1), corner(size, 0));
    let c2 = crosses(p, corner(size, 2), corner(size, 1));
    let c3 = crosses(p, corner(size, 3), corner(size, 2));
    (c0 != c1) != (c2 != c3)
}

/// Whether the point lies within 1.2 pixels of the edge from `a` to `b`:
/// of the nearer end where the foot of the perpendicular falls outside
/// the edge, and else of the line.
pub open spec fn near_edge(p: (int, int), a: (int, int), b: (int, int)) -> bool {
    let dx = b.0 - a.0;
    let dy = b.1 - a.1;
    let length = dx * dx + dy * dy;
    let dot = (p.0 - a.0) * dx + (p.1 - a.1) * dy;
    let from_a = (p.0 - a.0) * (p.0 - a.0) + (p.1 - a.1) * (p.1 - a.1);
    let from_b = (p.0 - b.0) * (p.0 - b.0) + (p.1 - b.1) * (p.1 - b.1);
    let cross = (p.0 - a.0) * dy - (p.1 - a.1) * dx;
    length != 0 && if dot <= 0 {
        from_a <= 8_294_400
    } else if dot >= length {
        from_b <= 8_294_400
    } else {
        cross * cross <= 8_294_400 * length
    }
}

/// Whether the point lies within 1.2 pixels of the arrow's edges.
pub open spec fn near_arrow(size: int, p: (int, int)) -> bool {
    ||| near_edge(p, corner(size, 0), corner(size, 1))
    ||| near_edge(p, corner(size, 1), corner(size, 2))
    ||| near_edge(p, corner(size, 2), corner(size, 3))
    ||| near_edge(p, corner(size, 3), corner(size, 0))
}

/// The arrow: filled inside, outlined around.
pub open spec fn arrow_paint(size: int, x: int, y: int) -> Paint {
    let p = (2400 * x, 2400 * y);
    if inside_arrow(size, p) {
        Paint::Fill
    } else if near_arrow(size, p) {
        Paint::Outline
    } else {
        Paint::Clear
    }
}

/// What pixel `(x, y)` of the image of a shape shows.
pub open spec fn paint_at(shape: CursorShape, size: int, x: int, y: int) -> Paint {
    match shape {
        CursorShape::Circle => disc_paint(size, x, y),
        CursorShape::Crosshair => crosshair_paint(size, x, y),
        CursorShape::Pointer => arrow_paint(size, x, y),
    }
}

/// Channel `c` of a paint, for a cursor of colour `color`: the colour
/// itself is nearly opaque, the outline and the dot are translucent black.
pub open spec fn channel(paint: Paint, color: (u8, u8, u8), c: int) -> u8 {
    match paint {
        Paint::Clear => 0,
        Paint::Fill => if c == 0 {
            color.0
        } else if c == 1 {
            color.1
        } else if c == 2 {
            color.2
        } else {
            230
        },
        Paint::Outline => if c == 3 {
            180
        } else {
            0
        },
        Paint::Centre => if c == 3 {
            128
        } else {
            0
        },
    }
}

/// Byte `i` of the image: a channel of the pixel that it belongs to, row
/// by row.
pub open spec fn art_byte(shape: CursorShape, size: int, color: (u8, u8, u8), i: int) -> u8 {
    let pixel = i / 4;
    channel(paint_at(shape, size, pixel % size, pixel / size), color, i % 4)
}

/// The image of a cursor: `size` rows of `size` pixels of four bytes.
pub open spec fn art(shape: CursorShape, size: int, color: (u8, u8, u8)) -> Seq<u8> {
    Seq::new((size * size * 4) as nat, |i: int| art_byte(shape, size, color, i))
}

/// The product of two numbers of moderate size.
fn times(a: i128, b: i128) -> (p: i128)
    requires
        -1_000_000_000_000_000_000 <= a <= 1_000_000_000_000_000_000,
        -1_000_000_000_000_000_000 <= b <= 1_000_000_000_000_000_000,
    ensures
        p == a * b,
        -1_000_000_000_000_000_000_000_000_000_000_000_000 <= p
            <= 1_000_000_000_000_000_000_000_000_000_000_000_000,
{
    proof {
        assert(-1_000_000_000_000_000_000_000_000_000_000_000_000 <= a * b
            <= 1_000_000_000_000_000_000_000_000_000_000_000_000) by (nonlinear_arith)
            requires
                -1_000_000_000_000_000_000 <= a <= 1_000_000_000_000_000_000,
                -1_000_000_000_000_000_000 <= b <= 1_000_000_000_000_000_000,
        ;
    }
    a * b
}

/// A product of two numbers of a few thousand is a few million.
proof fn lemma_small_product(a: int, b: int, bound: int)
    requires
        -bound <= a <= bound,
        -bound <= b <= bound,
        0 <= bound,
    ensures
        -(bound * bound) <= a * b <= bound * bound,
{
    assert(-(bound * bound) <= a * b <= bound * bound) by (nonlinear_arith)
        requires
            -bound <= a <= bound,
            -bound <= b <= bound,
            0 <= bound,
    ;
}

fn spread_of(size: i128, x: i128, y: i128) -> (d: i128)
    requires
        0 <= x < size <= 262_144,
        0 <= y < size,
    ensures
        d == spread(size as int, x as int, y as int),
        0 <= d <= 137_438_953_472,
{
    proof {
        lemma_small_product(2 * x - size, 2 * x - size, 262_144);
        lemma_small_product(2 * y - size, 2 * y - size, 262_144);
        assert((2 * x - size) * (2 * x - size) >= 0) by (nonlinear_arith);
        assert((2 * y - size) * (2 * y - size) >= 0) by (nonlinear_arith);
        assert(262_144int * 262_144 == 68_719_476_736);
    }
    times(2 * x - size, 2 * x - size) + times(2 * y - size, 2 * y - size)
}

fn disc_pixel(size: i128, x: i128, y: i128) -> (paint: Paint)
    requires
        0 <= x < size <= 262_144,
        0 <= y < size,
    ensures
        paint == disc_paint(size as int, x as int, y as int),
{
    let d: i128 = 625 * spread_of(size, x, y);
    let square: i128 = times(size, size);
    let rim: i128 = times(21 * size + 75, 21 * size + 75);
    if d <= 36 * square {
        Paint::Centre
    } else if d <= 441 * square {
        Paint::Fill
    } else if d <= rim {
        Paint::Outline
    } else {
        Paint::Clear
    }
}

fn magnitude_of(v: i128) -> (m: i128)
    requires
        v > i128::MIN,
    ensures
        m == magnitude(v as int),
{
    if v < 0 {
        -v
    } else {
        v
    }
}

fn is_on_arm(size: i128, along: i128, across: i128) -> (on: bool)
    requires
        0 <= along < size <= 262_144,
        0 <= across < size,
    ensures
        on == on_arm(size as int, along as int, across as int),
{
    let width: i128 = if (2 * size) / 25 < 2 {
        2
    } else {
        (2 * size) / 25
    };
    let reach: i128 = 25 * magnitude_of(2 * along - size);
    magnitude_of(2 * across - size) < 2 * width && reach > 9 * size && reach < 29 * size
}

fn crosshair_pixel(size: i128, x: i128, y: i128) -> (paint: Paint)
    requires
        0 <= x < size <= 262_144,
        0 <= y < size,
    ensures
        paint == crosshair_paint(size as int, x as int, y as int),
{
    let d: i128 = 625 * spread_of(size, x, y);
    let outer: i128 = times(9 * size + 75, 9 * size + 75);
    let inner: i128 = times(9 * size - 75, 9 * size - 75);
    let within: bool = d <= outer;
    let beyond: bool = 9 * size <= 75 || d >= inner;
    if (within && beyond) || is_on_arm(size, x, y) || is_on_arm(size, y, x) {
        Paint::Fill
    } else {
        Paint::Clear
    }
}

fn corner_of(size: i128, i: u8) -> (c: (i128, i128))
    requires
        0 <= size <= 262_144,
    ensures
        c.0 == corner(size as int, i as int).0,
        c.1 == corner(size as int, i as int).1,
        0 <= c.0 <= 630_000_000,
        0 <= c.1 <= 630_000_000,
{
    if i == 0 {
        (400 * size, 400 * size)
    } else if i == 1 {
        (1107 * size, 2100 * size)
    } else if i == 2 {
        (1358 * size, 1361 * size)
    } else {
        (2100 * size, 1107 * size)
    }
}

fn does_cross(p: (i128, i128), a: (i128, i128), b: (i128, i128)) -> (c: bool)
    requires
        0 <= p.0 <= 630_000_000 && 0 <= p.1 <= 630_000_000,
        0 <= a.0 <= 630_000_000 && 0 <= a.1 <= 630_000_000,
        0 <= b.0 <= 630_000_000 && 0 <= b.1 <= 630_000_000,
    ensures
        c == crosses((p.0 as int, p.1 as int), (a.0 as int, a.1 as int), (b.0 as int, b.1 as int)),
{
    let rise: i128 = b.1 - a.1;
    let left: i128 = times(p.0 - a.0, rise);
    let right: i128 = times(b.0 - a.0, p.1 - a.1);
    ((a.1 > p.1) != (b.1 > p.1)) && if rise > 0 {
        left < right
    } else {
        left > right
    }
}

fn is_near_edge(p: (i128, i128), a: (i128, i128), b: (i128, i128)) -> (near: bool)
    requires
        0 <= p.0 <= 630_000_000 && 0 <= p.1 <= 630_000_000,
        0 <= a.0 <= 630_000_000 && 0 <= a.1 <= 630_000_000,
        0 <= b.0 <= 630_000_000 && 0 <= b.1 <= 630_000_000,
    ensures
        near == near_edge(
            (p.0 as int, p.1 as int),
            (a.0 as int, a.1 as int),
            (b.0 as int, b.1 as int),
        ),
{
    let dx: i128 = b.0 - a.0;
    let dy: i128 = b.1 - a.1;
    let length: i128 = times(dx, dx) + times(dy, dy);
    if length == 0 {
        return false;
    }
    let dot: i128 = times(p.0 - a.0, dx) + times(p.1 - a.1, dy);
    if dot <= 0 {
        times(p.0 - a.0, p.0 - a.0) + times(p.1 - a.1, p.1 - a.1) <= 8_294_400
    } else if dot >= length {
        times(p.0 - b.0, p.0 - b.0) + times(p.1 - b.1, p.1 - b.1) <= 8_294_400
    } else {
        proof {
            lemma_small_product(p.0 - a.0, dy as int, 630_000_000);
            lemma_small_product(p.1 - a.1, dx as int, 630_000_000);
            lemma_small_product(dx as int, dx as int, 630_000_000);
            lemma_small_product(dy as int, dy as int, 630_000_000);
            assert(630_000_000int * 630_000_000 == 396_900_000_000_000_000);
        }
        let cross: i128 = times(p.0 - a.0, dy) - times(p.1 - a.1, dx);
        times(cross, cross) <= 8_294_400 * length
    }
}

fn arrow_pixel(size: i128, x: i128, y: i128) -> (paint: Paint)
    requires
        0 <= x < size <= 262_144,
        0 <= y < size,
    ensures
        paint == arrow_paint(size as int, x as int, y as int),
{
    let p: (i128, i128) = (2400 * x, 2400 * y);
    let tip: (i128, i128) = corner_of(size, 0);
    let foot: (i128, i128) = corner_of(size, 1);
    let notch: (i128, i128) = corner_of(size, 2);
    let wing: (i128, i128) = corner_of(size, 3);
    let c0: bool = does_cross(p, tip, wing);
    let c1: bool = does_cross(p, foot, tip);
    let c2: bool = does_cross(p, notch, foot);
    let c3: bool = does_cross(p, wing, notch);
    if (c0 != c1) != (c2 != c3) {
        Paint::Fill
    } else if is_near_edge(p, tip, foot) || is_near_edge(p, foot, notch) || is_near_edge(
        p,
        notch,
        wing,
    ) || is_near_edge(p, wing, tip) {
        Paint::Outline
    } else {
        Paint::Clear
    }
}

/// What pixel `(x, y)` of the image of a shape of side `size` shows.
pub fn paint_of(shape: CursorShape, size: u32, x: u32, y: u32) -> (paint: Paint)
    requires
        x < size <= MAX_CURSOR_SIZE,
        y < size,
    ensures
        paint == paint_at(shape, size as int, x as int, y as int),
{
    match shape {
        CursorShape::Circle => disc_pixel(size as i128, x as i128, y as i128),
        CursorShape::Crosshair => crosshair_pixel(size as i128, x as i128, y as i128),
        CursorShape::Pointer => arrow_pixel(size as i128, x as i128, y as i128),
    }
}

fn channels(paint: Paint, color: (u8, u8, u8)) -> (bytes: [u8; 4])
    ensures
        forall|c: int| 0 <= c < 4 ==> bytes[c] == channel(paint, color, c),
{
    match paint {
        Paint::Clear => [0, 0, 0, 0],
        Paint::Fill => [color.0, color.1, color.2, 230],
        Paint::Outline => [0, 0, 0, 180],
        Paint::Centre => [0, 0, 0, 128],
    }
}

/// The image of a cursor of a shape, side and colour, as RGBA bytes row
/// by row; nothing for a side above `MAX_CURSOR_SIZE`.
pub fn cursor_pixels(shape: CursorShape, size: u32, color: (u8, u8, u8)) -> (image: Option<
    Vec<u8>,
>)
    ensures
        image.is_some() == (size <= MAX_CURSOR_SIZE),
        match image {
            Some(pixels) => pixels@ == art(shape, size as int, color),
            None => true,
        },
{
    if size > MAX_CURSOR_SIZE {
        return None;
    }
    let mut out: Vec<u8> = Vec::new();
    let mut y: u32 = 0;
    while y < size
        invariant
            y <= size <= 262_144,
            out@ == Seq::new((y * size * 4) as nat, |i: int| art_byte(shape, size as int, color, i)),
        decreases size - y,
    {
        let mut x: u32 = 0;
        proof {
            assert(y * size * 4 == (y * size + 0) * 4);
            assert(0 <= y * size) by (nonlinear_arith)
                requires
                    0 <= y,
                    0 <= size,
            ;
        }
        while x < size
            invariant
                x <= size <= 262_144,
                y < size,
                0 <= y * size,
                out@ == Seq::new(
                    ((y * size + x) * 4) as nat,
                    |i: int| art_byte(shape, size as int, color, i),
                ),
            decreases size - x,
        {
            let bytes: [u8; 4] = channels(paint_of(shape, size, x, y), color);
            let ghost p = y * size + x;
            out.push(bytes[0]);
            out.push(bytes[1]);
            out.push(bytes[2]);
            out.push(bytes[3]);
            proof {
                crate::fixed::lemma_floor_quotient(p, size as int, y as int);
                vstd::arithmetic::div_mod::lemma_fundamental_div_mod(p, size as int);
                assert(size * (p / (size as int)) == y * size) by (nonlinear_arith)
                    requires
                        p / (size as int) == y,
                ;
                assert(p % (size as int) == x);
                assert((y * size + (x + 1)) * 4 == p * 4 + 4);
                let after = Seq::new(
                    ((y * size + (x + 1)) * 4) as nat,
                    |i: int| art_byte(shape, size as int, color, i),
                );
                assert forall|i: int| 0 <= i < after.len() implies out@[i] == after[i] by {
                    if i >= p * 4 {
                        assert(i / 4 == p);
                    }
                }
                assert(out@ =~= after);
            }
            x += 1;
        }
        proof {
            assert((y + 1) * size * 4 == (y * size + size) * 4) by (nonlinear_arith);
        }
        y += 1;
    }
    Some(out)
}

} // verus!
