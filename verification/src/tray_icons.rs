//! Tray artwork: a device silhouette above its battery percentage, drawn on a
//! 16-pixel grid, a plain percentage icon, and the numbering of the bundled
//! battery icons.

use vstd::prelude::*;
use crate::native_devices::{DeviceKind, PowerState};

verus! {

/// The system colour scheme that the artwork is drawn for.
#[derive(Debug, Clone, Copy, PartialEq, Eq, Structural)]
pub enum Theme {
    Light,
    Dark,
}

/// The image with pixel bytes `idx..idx + 4` set to `color`, when they lie
/// inside the image.
pub open spec fn painted(img: Seq<u8>, idx: int, color: [u8; 4]) -> Seq<u8> {
    if 0 <= idx && idx + 3 < img.len() {
        img.update(idx, color[0]).update(idx + 1, color[1]).update(idx + 2, color[2]).update(
            idx + 3,
            color[3],
        )
    } else {
        img
    }
}

/// Sets pixel (`x`, `y`) of an RGBA image that is `size` pixels wide; a pixel
/// outside the buffer is ignored.
fn put_pixel(img: &mut [u8], size: u32, x: u32, y: u32, color: [u8; 4])
    requires
        (y as int * size as int + x as int) * 4 <= u32::MAX,
    ensures
        final(img)@ == painted(old(img)@, (y as int * size as int + x as int) * 4, color),
{
    assert((y as int * size as int) <= u32::MAX) by (nonlinear_arith)
        requires
            (y as int * size as int + x as int) * 4 <= u32::MAX,
    ;
    let idx = ((y * size + x) * 4) as usize;
    if idx < img.len() && img.len() - idx > 3 {
        img[idx] = color[0];
        img[idx + 1] = color[1];
        img[idx + 2] = color[2];
        img[idx + 3] = color[3];
    }
}

/// Whether the four bytes at `off` hold `color`.
pub open spec fn shows(img: Seq<u8>, off: int, color: [u8; 4]) -> bool {
    &&& img[off] == color[0]
    &&& img[off + 1] == color[1]
    &&& img[off + 2] == color[2]
    &&& img[off + 3] == color[3]
}

/// Whether column `x` of a compact digit row `width` pixels wide is set; the
/// leftmost column is the row's highest bit.
pub open spec fn compact_bit(row: u8, width: u32, x: u32) -> bool {
    row & (1u8 << ((width - x - 1) as u32)) != 0
}

/// The byte offset of column `x`, row `y` of a compact digit drawn at `left`
/// on the 16-pixel grid; digits start at row 9.
pub open spec fn compact_offset(left: u32, x: int, y: int) -> int {
    ((9 + y) * 16 + left + x) * 4
}

/// Whether byte `i` of the image belongs to no lit pixel of the compact digit.
pub open spec fn clear_of_compact(rows: Seq<u8>, width: u32, left: u32, i: int) -> bool {
    forall|y: int, x: int|
        0 <= y < 7 && 0 <= x < width && #[trigger] compact_bit(rows[y], width, x as u32) ==> (i
            < compact_offset(left, x, y) || i >= compact_offset(left, x, y) + 4)
}

/// Draws a seven-row digit glyph `width` pixels wide at column `left` of rows
/// 9 to 15 of the 16-pixel grid.
fn draw_compact_digit(img: &mut [u8], rows: &[u8; 7], width: u32, left: u32, color: [u8; 4])
    requires
        width <= 8,
        (16 * 16 + left as int + width as int) * 4 <= u32::MAX,
    ensures
        final(img)@.len() == old(img)@.len(),
        forall|y: int, x: int|
            0 <= y < 7 && 0 <= x < width && #[trigger] compact_bit(rows@[y], width, x as u32) && compact_offset(left, x, y) + 3
                < old(img)@.len() ==> shows(final(img)@, compact_offset(left, x, y), color),
        forall|i: int|
            0 <= i < old(img)@.len() && clear_of_compact(rows@, width, left, i) ==> final(img)@[i]
                == old(img)@[i],
{
    let ghost start = img@;
    let mut y: usize = 0;
    while y < 7
        invariant
            y <= 7,
            width <= 8,
            (16 * 16 + left as int + width as int) * 4 <= u32::MAX,
            img@.len() == start.len(),
            forall|yy: int, x: int|
                0 <= yy < y && 0 <= x < width && #[trigger] compact_bit(rows@[yy], width, x as u32)
                    && compact_offset(left, x, yy) + 3 < start.len() ==> shows(img@, compact_offset(left, x, yy), color),
            forall|i: int|
                0 <= i < start.len() && (forall|yy: int, x: int|
                    0 <= yy < y && 0 <= x < width && #[trigger] compact_bit(rows@[yy], width, x as u32) ==> (i
                        < compact_offset(left, x, yy) || i >= compact_offset(left, x, yy) + 4)) ==> img@[i]
                    == start[i],
        decreases 7 - y,
    {
        let row = rows[y];
        let mut x: u32 = 0;
        while x < width
            invariant
                y < 7,
                x <= width,
                width <= 8,
                row == rows@[y as int],
                (16 * 16 + left as int + width as int) * 4 <= u32::MAX,
                img@.len() == start.len(),
                forall|yy: int, xx: int|
                    ((0 <= yy < y && 0 <= xx < width) || (yy == y && 0 <= xx < x)) && #[trigger] compact_bit(rows@[yy], width, xx as u32)
                        && compact_offset(left, xx, yy) + 3 < start.len() ==> shows(img@, compact_offset(left, xx, yy), color),
                forall|i: int|
                    0 <= i < start.len() && (forall|yy: int, xx: int|
                        ((0 <= yy < y && 0 <= xx < width) || (yy == y && 0 <= xx < x)) && #[trigger] compact_bit(rows@[yy], width, xx as u32)
                            ==> (i < compact_offset(left, xx, yy) || i >= compact_offset(left, xx, yy) + 4)) ==> img@[i]
                        == start[i],
            decreases width - x,
        {
            let ghost before = img@;
            if row & (1 << (width - x - 1)) != 0 {
                assert(compact_bit(rows@[y as int], width, x));
                put_pixel(img, 16, left + x, 9 + y as u32, color);
            }
            proof {
                assert forall|i: int|
                    0 <= i < start.len() && (forall|yy: int, xx: int|
                        ((0 <= yy < y && 0 <= xx < width) || (yy == y && 0 <= xx < x + 1)) && #[trigger] compact_bit(rows@[yy], width, xx as u32)
                            ==> (i < compact_offset(left, xx, yy) || i >= compact_offset(left, xx, yy) + 4)) implies img@[i]
                        == start[i] by {
                    assert forall|yy: int, xx: int|
                        ((0 <= yy < y && 0 <= xx < width) || (yy == y && 0 <= xx < x)) && #[trigger] compact_bit(rows@[yy], width, xx as u32)
                            implies (i < compact_offset(left, xx, yy) || i >= compact_offset(left, xx, yy) + 4) by {
                        assert(compact_bit(rows@[yy], width, xx as u32));
                    }
                    assert(before[i] == start[i]);
                    if compact_bit(rows@[y as int], width, x) {
                        assert(compact_bit(rows@[y as int], width, (x as int) as u32));
                        assert(i < compact_offset(left, x as int, y as int) || i >= compact_offset(left, x as int, y as int) + 4);
                    }
                }
            }
            x = x + 1;
        }
        y = y + 1;
    }
}


/// Whether column `x` of a glyph row `width` pixels wide is set; the leftmost
/// column is the row's highest bit.
pub open spec fn glyph_bit(row: u16, width: u32, x: u32) -> bool {
    row & (1u16 << ((width - x - 1) as u32)) != 0
}

/// The byte offset of column `x`, row `y` of a glyph drawn at `left` from the
/// top row of the 16-pixel grid.
pub open spec fn glyph_offset(left: u32, x: int, y: int) -> int {
    (y * 16 + left + x) * 4
}

/// Whether byte `i` of the image belongs to no lit pixel of the glyph.
pub open spec fn clear_of_glyph(rows: Seq<u16>, width: u32, left: u32, i: int) -> bool {
    forall|y: int, x: int|
        0 <= y < rows.len() && 0 <= x < width && #[trigger] glyph_bit(rows[y], width, x as u32) ==> (i
            < glyph_offset(left, x, y) || i >= glyph_offset(left, x, y) + 4)
}

/// Draws a device silhouette `width` pixels wide at column `left`, starting
/// at the top row of the 16-pixel grid.
fn draw_glyph(img: &mut [u8], rows: &[u16], width: u32, left: u32, color: [u8; 4])
    requires
        width <= 16,
        (rows@.len() * 16 + left as int + width as int) * 4 <= u32::MAX,
    ensures
        final(img)@.len() == old(img)@.len(),
        forall|y: int, x: int|
            0 <= y < rows@.len() && 0 <= x < width && #[trigger] glyph_bit(rows@[y], width, x as u32)
                && glyph_offset(left, x, y) + 3 < old(img)@.len() ==> shows(final(img)@, glyph_offset(left, x, y), color),
        forall|i: int|
            0 <= i < old(img)@.len() && clear_of_glyph(rows@, width, left, i) ==> final(img)@[i]
                == old(img)@[i],
{
    let ghost start = img@;
    let n = rows.len();
    let mut y: usize = 0;
    while y < n
        invariant
            n == rows@.len(),
            y <= n,
            width <= 16,
            (n * 16 + left as int + width as int) * 4 <= u32::MAX,
            img@.len() == start.len(),
            forall|yy: int, x: int|
                0 <= yy < y && 0 <= x < width && #[trigger] glyph_bit(rows@[yy], width, x as u32)
                    && glyph_offset(left, x, yy) + 3 < start.len() ==> shows(img@, glyph_offset(left, x, yy), color),
            forall|i: int|
                0 <= i < start.len() && (forall|yy: int, x: int|
                    0 <= yy < y && 0 <= x < width && #[trigger] glyph_bit(rows@[yy], width, x as u32) ==> (i
                        < glyph_offset(left, x, yy) || i >= glyph_offset(left, x, yy) + 4)) ==> img@[i]
                    == start[i],
        decreases n - y,
    {
        let row = rows[y];
        let mut x: u32 = 0;
        while x < width
            invariant
                n == rows@.len(),
                y < n,
                x <= width,
                width <= 16,
                row == rows@[y as int],
                (n * 16 + left as int + width as int) * 4 <= u32::MAX,
                img@.len() == start.len(),
                forall|yy: int, xx: int|
                    ((0 <= yy < y && 0 <= xx < width) || (yy == y && 0 <= xx < x)) && #[trigger] glyph_bit(rows@[yy], width, xx as u32)
                        && glyph_offset(left, xx, yy) + 3 < start.len() ==> shows(img@, glyph_offset(left, xx, yy), color),
                forall|i: int|
                    0 <= i < start.len() && (forall|yy: int, xx: int|
                        ((0 <= yy < y && 0 <= xx < width) || (yy == y && 0 <= xx < x)) && #[trigger] glyph_bit(rows@[yy], width, xx as u32)
                            ==> (i < glyph_offset(left, xx, yy) || i >= glyph_offset(left, xx, yy) + 4)) ==> img@[i]
                        == start[i],
            decreases width - x,
        {
            let ghost before = img@;
            if row & (1 << (width - x - 1)) != 0 {
                assert(glyph_bit(rows@[y as int], width, x));
                put_pixel(img, 16, left + x, y as u32, color);
            }
            proof {
                assert forall|i: int|
                    0 <= i < start.len() && (forall|yy: int, xx: int|
                        ((0 <= yy < y && 0 <= xx < width) || (yy == y && 0 <= xx < x + 1)) && #[trigger] glyph_bit(rows@[yy], width, xx as u32)
                            ==> (i < glyph_offset(left, xx, yy) || i >= glyph_offset(left, xx, yy) + 4)) implies img@[i]
                        == start[i] by {
                    assert forall|yy: int, xx: int|
                        ((0 <= yy < y && 0 <= xx < width) || (yy == y && 0 <= xx < x)) && #[trigger] glyph_bit(rows@[yy], width, xx as u32)
                            implies (i < glyph_offset(left, xx, yy) || i >= glyph_offset(left, xx, yy) + 4) by {
                        assert(glyph_bit(rows@[yy], width, xx as u32));
                    }
                    assert(before[i] == start[i]);
                    if glyph_bit(rows@[y as int], width, x) {
                        assert(glyph_bit(rows@[y as int], width, (x as int) as u32));
                        assert(i < glyph_offset(left, x as int, y as int) || i >= glyph_offset(left, x as int, y as int) + 4);
                    }
                }
            }
            x = x + 1;
        }
        y = y + 1;
    }
}

/// The byte offset of pixel (`x`, `y`) of the 16-pixel grid.
pub open spec fn pixel_off(x: int, y: int) -> int {
    (y * 16 + x) * 4
}

/// A lit pixel has the drawing colour, every other pixel is transparent.
pub open spec fn pixel_color(lit: bool, color: [u8; 4]) -> [u8; 4] {
    if lit {
        color
    } else {
        [0u8, 0u8, 0u8, 0u8]
    }
}

/// The image is the 16-pixel grid with exactly the pixels that `lit` selects
/// drawn in `color`.
pub open spec fn grid_shows(img: Seq<u8>, lit: spec_fn(int, int) -> bool, color: [u8; 4]) -> bool {
    &&& img.len() == 16 * 16 * 4
    &&& forall|x: int, y: int|
        0 <= x < 16 && 0 <= y < 16 ==> #[trigger] shows(img, pixel_off(x, y), pixel_color(lit(x, y), color))
}

/// Whether pixel (`x`, `y`) of the grid is lit by a compact digit at `left`.
pub open spec fn compact_lit(rows: Seq<u8>, width: u32, left: u32, x: int, y: int) -> bool {
    9 <= y < 16 && left <= x < left + width && compact_bit(rows[y - 9], width, (x - left) as u32)
}

/// Whether pixel (`x`, `y`) of the grid is lit by a glyph at `left`.
pub open spec fn glyph_lit(rows: Seq<u16>, width: u32, left: u32, x: int, y: int) -> bool {
    0 <= y < rows.len() && left <= x < left + width && glyph_bit(rows[y], width, (x - left) as u32)
}

proof fn lemma_compact_stamp(
    before: Seq<u8>,
    after: Seq<u8>,
    rows: Seq<u8>,
    width: u32,
    left: u32,
    color: [u8; 4],
    lit: spec_fn(int, int) -> bool,
)
    requires
        grid_shows(before, lit, color),
        rows.len() == 7,
        left + width <= 16,
        after.len() == before.len(),
        forall|y: int, x: int|
            0 <= y < 7 && 0 <= x < width && #[trigger] compact_bit(rows[y], width, x as u32) && compact_offset(left, x, y) + 3
                < before.len() ==> shows(after, compact_offset(left, x, y), color),
        forall|i: int|
            0 <= i < before.len() && clear_of_compact(rows, width, left, i) ==> after[i] == before[i],
    ensures
        grid_shows(after, |x: int, y: int| lit(x, y) || compact_lit(rows, width, left, x, y), color),
{
    let lit2 = |x: int, y: int| lit(x, y) || compact_lit(rows, width, left, x, y);
    assert forall|x: int, y: int| 0 <= x < 16 && 0 <= y < 16 implies #[trigger] shows(
        after,
        pixel_off(x, y),
        pixel_color(lit2(x, y), color),
    ) by {
        assert(shows(before, pixel_off(x, y), pixel_color(lit(x, y), color)));
        if compact_lit(rows, width, left, x, y) {
            let xx = x - left;
            let yy = y - 9;
            assert(compact_bit(rows[yy], width, xx as u32));
            assert(compact_offset(left, xx, yy) == pixel_off(x, y));
        } else {
            assert forall|i: int| pixel_off(x, y) <= i < pixel_off(x, y) + 4 implies clear_of_compact(rows, width, left, i) by {
                assert forall|yy: int, xx: int|
                    0 <= yy < 7 && 0 <= xx < width && #[trigger] compact_bit(rows[yy], width, xx as u32) implies (i
                        < compact_offset(left, xx, yy) || i >= compact_offset(left, xx, yy) + 4) by {
                    if compact_offset(left, xx, yy) <= i < compact_offset(left, xx, yy) + 4 {
                        assert(yy + 9 == y && left + xx == x);
                        assert(compact_bit(rows[y - 9], width, (x - left) as u32));
                    }
                }
            }
            assert(after[pixel_off(x, y)] == before[pixel_off(x, y)]);
            assert(after[pixel_off(x, y) + 1] == before[pixel_off(x, y) + 1]);
            assert(after[pixel_off(x, y) + 2] == before[pixel_off(x, y) + 2]);
            assert(after[pixel_off(x, y) + 3] == before[pixel_off(x, y) + 3]);
        }
    }
}

proof fn lemma_glyph_clear(rows: Seq<u16>, width: u32, left: u32, x: int, y: int, i: int)
    requires
        left + width <= 16,
        0 <= x < 16,
        0 <= y < 16,
        !glyph_lit(rows, width, left, x, y),
        pixel_off(x, y) <= i < pixel_off(x, y) + 4,
    ensures
        clear_of_glyph(rows, width, left, i),
{
    assert forall|yy: int, xx: int|
        0 <= yy < rows.len() && 0 <= xx < width && #[trigger] glyph_bit(rows[yy], width, xx as u32) implies (i
            < glyph_offset(left, xx, yy) || i >= glyph_offset(left, xx, yy) + 4) by {
        if glyph_offset(left, xx, yy) <= i < glyph_offset(left, xx, yy) + 4 {
            assert(yy == y && left + xx == x);
            assert(glyph_bit(rows[y], width, (x - left) as u32));
        }
    }
}

proof fn lemma_glyph_stamp(
    before: Seq<u8>,
    after: Seq<u8>,
    rows: Seq<u16>,
    width: u32,
    left: u32,
    color: [u8; 4],
    lit: spec_fn(int, int) -> bool,
)
    requires
        grid_shows(before, lit, color),
        rows.len() <= 16,
        left + width <= 16,
        after.len() == before.len(),
        forall|y: int, x: int|
            0 <= y < rows.len() && 0 <= x < width && #[trigger] glyph_bit(rows[y], width, x as u32) && glyph_offset(left, x, y) + 3
                < before.len() ==> shows(after, glyph_offset(left, x, y), color),
        forall|i: int|
            0 <= i < before.len() && clear_of_glyph(rows, width, left, i) ==> after[i] == before[i],
    ensures
        grid_shows(after, |x: int, y: int| lit(x, y) || glyph_lit(rows, width, left, x, y), color),
{
    let lit2 = |x: int, y: int| lit(x, y) || glyph_lit(rows, width, left, x, y);
    assert forall|x: int, y: int| 0 <= x < 16 && 0 <= y < 16 implies #[trigger] shows(
        after,
        pixel_off(x, y),
        pixel_color(lit2(x, y), color),
    ) by {
        assert(shows(before, pixel_off(x, y), pixel_color(lit(x, y), color)));
        if glyph_lit(rows, width, left, x, y) {
            let xx = x - left;
            assert(glyph_bit(rows[y], width, xx as u32));
            assert(glyph_offset(left, xx, y) == pixel_off(x, y));
        } else {
            assert forall|i: int| pixel_off(x, y) <= i < pixel_off(x, y) + 4 implies clear_of_glyph(rows, width, left, i) by {
                lemma_glyph_clear(rows, width, left, x, y, i);
            }
            assert(after[pixel_off(x, y)] == before[pixel_off(x, y)]);
            assert(after[pixel_off(x, y) + 1] == before[pixel_off(x, y) + 1]);
            assert(after[pixel_off(x, y) + 2] == before[pixel_off(x, y) + 2]);
            assert(after[pixel_off(x, y) + 3] == before[pixel_off(x, y) + 3]);
        }
    }
}

proof fn lemma_pixel_stamp(before: Seq<u8>, px: int, py: int, color: [u8; 4], lit: spec_fn(int, int) -> bool)
    requires
        grid_shows(before, lit, color),
        0 <= px < 16,
        0 <= py < 16,
    ensures
        grid_shows(painted(before, pixel_off(px, py), color), |x: int, y: int| lit(x, y) || (x == px && y == py), color),
{
    let after = painted(before, pixel_off(px, py), color);
    let lit2 = |x: int, y: int| lit(x, y) || (x == px && y == py);
    assert forall|x: int, y: int| 0 <= x < 16 && 0 <= y < 16 implies #[trigger] shows(
        after,
        pixel_off(x, y),
        pixel_color(lit2(x, y), color),
    ) by {
        assert(shows(before, pixel_off(x, y), pixel_color(lit(x, y), color)));
    }
}


/// Headset silhouette, ten pixels wide.
pub const HEADSET_GLYPH: [u16; 7] = [
    0b0001111000,
    0b0010000100,
    0b0100000010,
    0b1100000011,
    0b1100000011,
    0b1100000011,
    0b0100000010,
];

/// Mouse silhouette, eight pixels wide.
pub const MOUSE_GLYPH: [u16; 7] = [
    0b00111100,
    0b01011010,
    0b10011001,
    0b10000001,
    0b10000001,
    0b01000010,
    0b00111100,
];

/// Five-pixel-wide digits 0 to 9, seven rows each.
pub const SMALL_DIGITS: [[u8; 7]; 10] = [
    [14, 17, 19, 21, 25, 17, 14],
    [4, 12, 4, 4, 4, 4, 14],
    [14, 17, 1, 2, 4, 8, 31],
    [30, 1, 1, 14, 1, 1, 30],
    [2, 6, 10, 18, 31, 2, 2],
    [31, 16, 16, 30, 1, 1, 30],
    [14, 16, 16, 30, 17, 17, 14],
    [31, 1, 2, 4, 8, 8, 8],
    [14, 17, 17, 14, 17, 17, 14],
    [14, 17, 17, 15, 1, 1, 14],
];

/// Narrow three-pixel forms of 1 and 0 that fit "100" on the grid.
pub const NARROW_DIGITS: [[u8; 7]; 2] = [
    [0b010, 0b110, 0b010, 0b010, 0b010, 0b010, 0b111],
    [0b111, 0b101, 0b101, 0b101, 0b101, 0b101, 0b111],
];

/// Columns of the two dashes shown when no percentage is known.
pub const DASH_COLUMNS: [u32; 8] = [3, 4, 5, 6, 9, 10, 11, 12];

/// The silhouette rows of a device kind.
pub open spec fn glyph_rows(kind: DeviceKind) -> Seq<u16> {
    match kind {
        DeviceKind::Headset => HEADSET_GLYPH@,
        DeviceKind::Mouse => MOUSE_GLYPH@,
    }
}

/// The silhouette width of a device kind.
pub open spec fn glyph_width(kind: DeviceKind) -> u32 {
    match kind {
        DeviceKind::Headset => 10,
        DeviceKind::Mouse => 8,
    }
}

/// The silhouette's left column, which centres it on the grid.
pub open spec fn glyph_left(kind: DeviceKind) -> u32 {
    match kind {
        DeviceKind::Headset => 3,
        DeviceKind::Mouse => 4,
    }
}

/// Whether pixel (`x`, `y`) belongs to the two dashes of an unknown reading.
pub open spec fn dash_lit(x: int, y: int) -> bool {
    (y == 11 || y == 12) && ((3 <= x <= 6) || (9 <= x <= 12))
}

/// Whether pixel (`x`, `y`) belongs to the percentage `value` drawn below the
/// silhouette: 100 in narrow digits, one digit centred, or two digits.
pub open spec fn percent_lit(value: u8, x: int, y: int) -> bool {
    if value == 100 {
        compact_lit(NARROW_DIGITS@[0]@, 3, 2, x, y) || compact_lit(NARROW_DIGITS@[1]@, 3, 6, x, y)
            || compact_lit(NARROW_DIGITS@[1]@, 3, 10, x, y)
    } else if value < 10 {
        compact_lit(SMALL_DIGITS@[value as int]@, 5, 5, x, y)
    } else {
        compact_lit(SMALL_DIGITS@[(value / 10) as int]@, 5, 2, x, y) || compact_lit(
            SMALL_DIGITS@[(value % 10) as int]@,
            5,
            8,
            x,
            y,
        )
    }
}

/// A reading without a percentage, or from a device that is offline, shows
/// dashes rather than a number.
pub open spec fn icon_unavailable(percent: Option<u8>, power: PowerState) -> bool {
    percent is None || power == PowerState::Offline
}

/// The percentage that the icon shows, capped at 100.
pub open spec fn icon_value(percent: Option<u8>) -> u8 {
    match percent {
        Some(p) => if p <= 100 {
            p
        } else {
            100
        },
        None => 0,
    }
}

/// Whether pixel (`x`, `y`) of the 16-pixel device icon is drawn.
pub open spec fn icon_lit(kind: DeviceKind, percent: Option<u8>, power: PowerState, x: int, y: int) -> bool {
    glyph_lit(glyph_rows(kind), glyph_width(kind), glyph_left(kind), x, y) || if icon_unavailable(
        percent,
        power,
    ) {
        dash_lit(x, y)
    } else {
        percent_lit(icon_value(percent), x, y)
    }
}

/// The colour of the device icon: grey when unavailable, green for a charging
/// mouse, amber at or below 20%, otherwise white on a dark theme and near
/// black on a light one.
pub open spec fn icon_color(kind: DeviceKind, theme: Theme, percent: Option<u8>, power: PowerState) -> [u8; 4] {
    if icon_unavailable(percent, power) {
        [145u8, 150u8, 160u8, 255u8]
    } else if kind == DeviceKind::Mouse && power == PowerState::Charging {
        [54u8, 211u8, 130u8, 255u8]
    } else if percent matches Some(v) && v <= 20 {
        [245u8, 174u8, 57u8, 255u8]
    } else if theme == Theme::Dark {
        [245u8, 247u8, 250u8, 255u8]
    } else {
        [35u8, 40u8, 47u8, 255u8]
    }
}

proof fn lemma_grid_same_lit(img: Seq<u8>, a: spec_fn(int, int) -> bool, b: spec_fn(int, int) -> bool, color: [u8; 4])
    requires
        grid_shows(img, a, color),
        forall|x: int, y: int| 0 <= x < 16 && 0 <= y < 16 ==> #[trigger] a(x, y) == b(x, y),
    ensures
        grid_shows(img, b, color),
{
    assert forall|x: int, y: int| 0 <= x < 16 && 0 <= y < 16 implies #[trigger] shows(img, pixel_off(x, y), pixel_color(b(x, y), color)) by {
        assert(shows(img, pixel_off(x, y), pixel_color(a(x, y), color)));
    }
}

/// Draws a compact digit and records it in the picture of the grid.
fn stamp_compact(
    img: &mut Vec<u8>,
    rows: &[u8; 7],
    width: u32,
    left: u32,
    color: [u8; 4],
    Ghost(lit): Ghost<spec_fn(int, int) -> bool>,
)
    requires
        grid_shows(old(img)@, lit, color),
        width <= 8,
        left + width <= 16,
    ensures
        grid_shows(final(img)@, |x: int, y: int| lit(x, y) || compact_lit(rows@, width, left, x, y), color),
{
    let ghost before = img@;
    draw_compact_digit(img.as_mut_slice(), rows, width, left, color);
    proof {
        lemma_compact_stamp(before, img@, rows@, width, left, color, lit);
    }
}

/// Draws one pixel of the grid and records it in the picture of the grid.
fn stamp_pixel(img: &mut Vec<u8>, x: u32, y: u32, color: [u8; 4], Ghost(lit): Ghost<spec_fn(int, int) -> bool>)
    requires
        grid_shows(old(img)@, lit, color),
        x < 16,
        y < 16,
    ensures
        grid_shows(final(img)@, |xx: int, yy: int| lit(xx, yy) || (xx == x && yy == y), color),
{
    let ghost before = img@;
    put_pixel(img.as_mut_slice(), 16, x, y, color);
    proof {
        assert((y as int * 16 + x as int) * 4 == pixel_off(x as int, y as int));
        lemma_pixel_stamp(before, x as int, y as int, color, lit);
    }
}

/// The device icon on its native 16-pixel grid.
fn native_device_icon(kind: DeviceKind, percent: Option<u8>, power: PowerState, color: [u8; 4]) -> (r: Vec<u8>)
    ensures
        grid_shows(r@, |x: int, y: int| icon_lit(kind, percent, power, x, y), color),
{
    let mut native: Vec<u8> = vec![0u8; 16 * 16 * 4];
    proof {
        assert forall|x: int, y: int| 0 <= x < 16 && 0 <= y < 16 implies #[trigger] shows(
            native@,
            pixel_off(x, y),
            pixel_color(false, color),
        ) by {
            let o = pixel_off(x, y);
            assert(cloned(0u8, native@[o]));
            assert(cloned(0u8, native@[o + 1]));
            assert(cloned(0u8, native@[o + 2]));
            assert(cloned(0u8, native@[o + 3]));
        }
    }
    let ghost nothing = |x: int, y: int| false;
    assert(grid_shows(native@, nothing, color));
    let ghost before = native@;
    match kind {
        DeviceKind::Headset => {
            draw_glyph(native.as_mut_slice(), HEADSET_GLYPH.as_slice(), 10, 3, color);
        },
        DeviceKind::Mouse => {
            draw_glyph(native.as_mut_slice(), MOUSE_GLYPH.as_slice(), 8, 4, color);
        },
    }
    let ghost glyph = |x: int, y: int| glyph_lit(glyph_rows(kind), glyph_width(kind), glyph_left(kind), x, y);
    proof {
        lemma_glyph_stamp(before, native@, glyph_rows(kind), glyph_width(kind), glyph_left(kind), color, nothing);
        lemma_grid_same_lit(
            native@,
            |x: int, y: int| nothing(x, y) || glyph_lit(glyph_rows(kind), glyph_width(kind), glyph_left(kind), x, y),
            glyph,
            color,
        );
    }
    let unavailable = match percent {
        None => true,
        Some(_) => match power {
            PowerState::Offline => true,
            _ => false,
        },
    };
    if unavailable {
        let ghost mut drawn = glyph;
        let mut k: usize = 0;
        while k < 8
            invariant
                k <= 8,
                grid_shows(native@, drawn, color),
                forall|x: int, y: int|
                    0 <= x < 16 && 0 <= y < 16 ==> (#[trigger] drawn(x, y) <==> (glyph(x, y) || ((y == 11 || y == 12)
                        && exists|j: int| 0 <= j < k && DASH_COLUMNS@[j] == x))),
            decreases 8 - k,
        {
            let x = DASH_COLUMNS[k];
            stamp_pixel(&mut native, x, 11, color, Ghost(drawn));
            let ghost d1 = |xx: int, yy: int| drawn(xx, yy) || (xx == x && yy == 11);
            stamp_pixel(&mut native, x, 12, color, Ghost(d1));
            proof {
                let d2 = |xx: int, yy: int| d1(xx, yy) || (xx == x && yy == 12);
                assert forall|xx: int, yy: int|
                    0 <= xx < 16 && 0 <= yy < 16 implies (#[trigger] d2(xx, yy) <==> (glyph(xx, yy) || ((yy == 11 || yy == 12)
                        && exists|j: int| 0 <= j < k + 1 && DASH_COLUMNS@[j] == xx))) by {
                    if (yy == 11 || yy == 12) && exists|j: int| 0 <= j < k + 1 && DASH_COLUMNS@[j] == xx {
                        let j = choose|j: int| 0 <= j < k + 1 && DASH_COLUMNS@[j] == xx;
                        if j < k {
                            assert(exists|j: int| 0 <= j < k && DASH_COLUMNS@[j] == xx);
                        }
                    }
                    if (yy == 11 || yy == 12) && exists|j: int| 0 <= j < k && DASH_COLUMNS@[j] == xx {
                        let j = choose|j: int| 0 <= j < k && DASH_COLUMNS@[j] == xx;
                        assert(0 <= j < k + 1 && DASH_COLUMNS@[j] == xx);
                    }
                    if xx == x && (yy == 11 || yy == 12) {
                        assert(0 <= k < k + 1 && DASH_COLUMNS@[k as int] == xx);
                    }
                }
                drawn = d2;
            }
            k = k + 1;
        }
        proof {
            assert forall|x: int, y: int| 0 <= x < 16 && 0 <= y < 16 implies #[trigger] drawn(x, y) == icon_lit(kind, percent, power, x, y) by {
                if (y == 11 || y == 12) && ((3 <= x <= 6) || (9 <= x <= 12)) {
                    let j: int = if x <= 6 { x - 3 } else { x - 5 };
                    assert(DASH_COLUMNS@[j] == x);
                }
            }
            lemma_grid_same_lit(native@, drawn, |x: int, y: int| icon_lit(kind, percent, power, x, y), color);
        }
    } else {
        let value: u8 = match percent {
            Some(p) => if p <= 100 { p } else { 100 },
            None => 0,
        };
        if value == 100 {
            stamp_compact(&mut native, &NARROW_DIGITS[0], 3, 2, color, Ghost(glyph));
            let ghost d1 = |x: int, y: int| glyph(x, y) || compact_lit(NARROW_DIGITS@[0]@, 3, 2, x, y);
            stamp_compact(&mut native, &NARROW_DIGITS[1], 3, 6, color, Ghost(d1));
            let ghost d2 = |x: int, y: int| d1(x, y) || compact_lit(NARROW_DIGITS@[1]@, 3, 6, x, y);
            stamp_compact(&mut native, &NARROW_DIGITS[1], 3, 10, color, Ghost(d2));
            let ghost d3 = |x: int, y: int| d2(x, y) || compact_lit(NARROW_DIGITS@[1]@, 3, 10, x, y);
            proof {
                lemma_grid_same_lit(native@, d3, |x: int, y: int| icon_lit(kind, percent, power, x, y), color);
            }
        } else if value < 10 {
            stamp_compact(&mut native, &SMALL_DIGITS[value as usize], 5, 5, color, Ghost(glyph));
            let ghost d1 = |x: int, y: int| glyph(x, y) || compact_lit(SMALL_DIGITS@[value as int]@, 5, 5, x, y);
            proof {
                lemma_grid_same_lit(native@, d1, |x: int, y: int| icon_lit(kind, percent, power, x, y), color);
            }
        } else {
            stamp_compact(&mut native, &SMALL_DIGITS[(value / 10) as usize], 5, 2, color, Ghost(glyph));
            let ghost d1 = |x: int, y: int| glyph(x, y) || compact_lit(SMALL_DIGITS@[(value / 10) as int]@, 5, 2, x, y);
            stamp_compact(&mut native, &SMALL_DIGITS[(value % 10) as usize], 5, 8, color, Ghost(d1));
            let ghost d2 = |x: int, y: int| d1(x, y) || compact_lit(SMALL_DIGITS@[(value % 10) as int]@, 5, 8, x, y);
            proof {
                lemma_grid_same_lit(native@, d2, |x: int, y: int| icon_lit(kind, percent, power, x, y), color);
            }
        }
    }
    native
}


/// The four bytes of pixel (`x`, `y`) of an RGBA image `size` pixels wide.
pub open spec fn pixel_at(img: Seq<u8>, size: int, x: int, y: int) -> [u8; 4] {
    let o = (y * size + x) * 4;
    [img[o], img[o + 1], img[o + 2], img[o + 3]]
}

proof fn lemma_size_bound(size: u32)
    requires
        size as int * size as int * 4 <= u32::MAX,
    ensures
        size <= 32768,
{
    if size > 32768 {
        assert(size as int * size as int > 32768 * 32768) by (nonlinear_arith)
            requires
                size > 32768,
        ;
    }
}

proof fn lemma_scaled_coordinate(v: u32, size: u32)
    requires
        v < size,
        size <= 32768,
    ensures
        (v as int * 16) / (size as int) < 16,
        (v as int * 16) / (size as int) >= 0,
{
    assert((v as int * 16) / (size as int) < 16) by (nonlinear_arith)
        requires
            v < size,
            size > 0,
    ;
    assert((v as int * 16) / (size as int) >= 0) by (nonlinear_arith)
        requires
            v < size,
            size > 0,
    ;
}

/// Scales the native 16-pixel icon to `size` pixels by nearest-neighbour
/// sampling: output pixel (`x`, `y`) copies grid pixel
/// (`x * 16 / size`, `y * 16 / size`).
fn scale_grid(native: &Vec<u8>, size: u32, Ghost(lit): Ghost<spec_fn(int, int) -> bool>, Ghost(color): Ghost<[u8; 4]>) -> (r: Vec<u8>)
    requires
        size as int * size as int * 4 <= u32::MAX,
        grid_shows(native@, lit, color),
    ensures
        r@.len() == size * size * 4,
        forall|x: int, y: int|
            0 <= x < size && 0 <= y < size ==> #[trigger] pixel_at(r@, size as int, x, y) == pixel_color(
                lit(x * 16 / (size as int), y * 16 / (size as int)),
                color,
            ),
{
    proof {
        lemma_size_bound(size);
    }
    let ghost sz = size as int;
    let mut output: Vec<u8> = Vec::new();
    let mut y: u32 = 0;
    while y < size
        invariant
            size <= 32768,
            sz == size as int,
            grid_shows(native@, lit, color),
            y <= size,
            output@.len() == (y as int * sz) * 4,
            forall|xx: int, yy: int|
                0 <= xx < sz && 0 <= yy < y ==> #[trigger] pixel_at(output@, sz, xx, yy) == pixel_color(
                    lit(xx * 16 / sz, yy * 16 / sz),
                    color,
                ),
        decreases size - y,
    {
        let mut x: u32 = 0;
        while x < size
            invariant
                size <= 32768,
                sz == size as int,
                grid_shows(native@, lit, color),
                y < size,
                x <= size,
                output@.len() == (y as int * sz + x) * 4,
                forall|xx: int, yy: int|
                    ((0 <= xx < sz && 0 <= yy < y) || (0 <= xx < x && yy == y)) ==> #[trigger] pixel_at(output@, sz, xx, yy)
                        == pixel_color(lit(xx * 16 / sz, yy * 16 / sz), color),
            decreases size - x,
        {
            proof {
                lemma_scaled_coordinate(x, size);
                lemma_scaled_coordinate(y, size);
            }
            let sy = y * 16 / size;
            let sx = x * 16 / size;
            let source = ((sy * 16 + sx) * 4) as usize;
            let ghost before = output@;
            proof {
                assert(shows(native@, pixel_off(sx as int, sy as int), pixel_color(lit(sx as int, sy as int), color)));
            }
            output.push(native[source]);
            output.push(native[source + 1]);
            output.push(native[source + 2]);
            output.push(native[source + 3]);
            proof {
                assert forall|xx: int, yy: int|
                    ((0 <= xx < sz && 0 <= yy < y) || (0 <= xx < x + 1 && yy == y)) implies #[trigger] pixel_at(output@, sz, xx, yy)
                        == pixel_color(lit(xx * 16 / sz, yy * 16 / sz), color) by {
                    if xx == x && yy == y {
                        assert((yy * sz + xx) * 4 == before.len());
                    } else {
                        assert(yy * sz + xx < y * sz + x) by (nonlinear_arith)
                            requires
                                (0 <= xx < sz && 0 <= yy < y) || (0 <= xx < x && yy == y),
                        ;
                        assert(pixel_at(before, sz, xx, yy) == pixel_color(lit(xx * 16 / sz, yy * 16 / sz), color));
                        assert(pixel_at(output@, sz, xx, yy) == pixel_at(before, sz, xx, yy));
                    }
                }
            }
            x = x + 1;
        }
        proof {
            assert((y as int * sz + sz) == (y as int + 1) * sz) by (nonlinear_arith);
        }
        y = y + 1;
    }
    proof {
        assert(size * size * 4 == sz * sz * 4);
    }
    output
}

/// The device icon at `size` pixels: the native 16-pixel artwork scaled by
/// nearest-neighbour sampling.
pub fn device_icon_rgba(kind: DeviceKind, theme: Theme, percent: Option<u8>, power: PowerState, size: u32) -> (r: Vec<u8>)
    requires
        size as int * size as int * 4 <= u32::MAX,
    ensures
        r@.len() == size * size * 4,
        forall|x: int, y: int|
            0 <= x < size && 0 <= y < size ==> #[trigger] pixel_at(r@, size as int, x, y) == pixel_color(
                icon_lit(kind, percent, power, x * 16 / (size as int), y * 16 / (size as int)),
                icon_color(kind, theme, percent, power),
            ),
{
    let offline = match power {
        PowerState::Offline => true,
        _ => false,
    };
    let unavailable = percent.is_none() || offline;
    let mouse_charging = match (kind, power) {
        (DeviceKind::Mouse, PowerState::Charging) => true,
        _ => false,
    };
    let low = match percent {
        Some(value) => value <= 20,
        None => false,
    };
    let dark = match theme {
        Theme::Dark => true,
        Theme::Light => false,
    };
    let color: [u8; 4] = if unavailable {
        [145, 150, 160, 255]
    } else if mouse_charging {
        [54, 211, 130, 255]
    } else if low {
        [245, 174, 57, 255]
    } else if dark {
        [245, 247, 250, 255]
    } else {
        [35, 40, 47, 255]
    };
    assert(color == icon_color(kind, theme, percent, power));
    let native = native_device_icon(kind, percent, power, color);
    scale_grid(&native, size, Ghost(|x: int, y: int| icon_lit(kind, percent, power, x, y)), Ghost(color))
}


/// Six-pixel-wide digits 0 to 9, twelve rows each, for the percentage icon.
pub const DIGIT_BITMAPS: [[u8; 12]; 10] = [
    [0b111111, 0b110011, 0b110011, 0b110011, 0b110011, 0b110011, 0b110011, 0b110011, 0b110011, 0b110011, 0b111111, 0b000000],
    [0b001100, 0b001100, 0b001100, 0b001100, 0b001100, 0b001100, 0b001100, 0b001100, 0b001100, 0b001100, 0b001100, 0b000000],
    [0b111111, 0b000011, 0b000011, 0b000011, 0b000011, 0b111111, 0b110000, 0b110000, 0b110000, 0b110000, 0b111111, 0b000000],
    [0b111111, 0b000011, 0b000011, 0b000011, 0b000011, 0b111111, 0b000011, 0b000011, 0b000011, 0b000011, 0b111111, 0b000000],
    [0b110011, 0b110011, 0b110011, 0b110011, 0b110011, 0b111111, 0b000011, 0b000011, 0b000011, 0b000011, 0b000011, 0b000000],
    [0b111111, 0b110000, 0b110000, 0b110000, 0b110000, 0b111111, 0b000011, 0b000011, 0b000011, 0b000011, 0b111111, 0b000000],
    [0b111111, 0b110000, 0b110000, 0b110000, 0b110000, 0b111111, 0b110011, 0b110011, 0b110011, 0b110011, 0b111111, 0b000000],
    [0b111111, 0b000011, 0b000011, 0b000011, 0b000110, 0b001100, 0b011000, 0b011000, 0b011000, 0b011000, 0b011000, 0b000000],
    [0b111111, 0b110011, 0b110011, 0b110011, 0b110011, 0b111111, 0b110011, 0b110011, 0b110011, 0b110011, 0b111111, 0b000000],
    [0b111111, 0b110011, 0b110011, 0b110011, 0b110011, 0b111111, 0b000011, 0b000011, 0b000011, 0b000011, 0b111111, 0b000000],
];

/// Whether column `col` of a six-pixel digit row is set; column 0 is bit 5.
pub open spec fn digit_bit(row: u8, col: u32) -> bool {
    (row >> ((5 - col) as u32)) & 1u8 == 1u8
}

/// The byte offset of column `col`, row `row` of a digit drawn at (`x`, `y`)
/// on an image `size` pixels wide.
pub open spec fn digit_offset(size: u32, x: u32, y: u32, col: int, row: int) -> int {
    ((y + row) * size + x + col) * 4
}

/// Whether byte `i` belongs to no lit pixel of the digit.
pub open spec fn clear_of_digit(rows: Seq<u8>, size: u32, x: u32, y: u32, i: int) -> bool {
    forall|row: int, col: int|
        0 <= row < 12 && 0 <= col < 6 && #[trigger] digit_bit(rows[row], col as u32) ==> (i < digit_offset(
            size,
            x,
            y,
            col,
            row,
        ) || i >= digit_offset(size, x, y, col, row) + 4)
}

/// Draws digit `digit` with its top-left corner at (`x`, `y`).
fn draw_digit(img: &mut [u8], size: u32, digit: usize, x: u32, y: u32, color: [u8; 4])
    requires
        digit < 10,
        y as int + 12 <= u32::MAX,
        ((y as int + 12) * size as int + x as int + 6) * 4 <= u32::MAX,
    ensures
        final(img)@.len() == old(img)@.len(),
        forall|row: int, col: int|
            0 <= row < 12 && 0 <= col < 6 && #[trigger] digit_bit(DIGIT_BITMAPS@[digit as int]@[row], col as u32)
                && digit_offset(size, x, y, col, row) + 3 < old(img)@.len() ==> shows(
                final(img)@,
                digit_offset(size, x, y, col, row),
                color,
            ),
        forall|i: int|
            0 <= i < old(img)@.len() && clear_of_digit(DIGIT_BITMAPS@[digit as int]@, size, x, y, i) ==> final(img)@[i]
                == old(img)@[i],
{
    let ghost start = img@;
    let bitmap = DIGIT_BITMAPS[digit];
    let ghost rows = DIGIT_BITMAPS@[digit as int]@;
    assert(bitmap@ == rows);
    let mut row: u32 = 0;
    while row < 12
        invariant
            row <= 12,
            bitmap@ == rows,
            y as int + 12 <= u32::MAX,
            ((y as int + 12) * size as int + x as int + 6) * 4 <= u32::MAX,
            img@.len() == start.len(),
            forall|r: int, col: int|
                0 <= r < row && 0 <= col < 6 && #[trigger] digit_bit(rows[r], col as u32) && digit_offset(size, x, y, col, r) + 3
                    < start.len() ==> shows(img@, digit_offset(size, x, y, col, r), color),
            forall|i: int|
                0 <= i < start.len() && (forall|r: int, col: int|
                    0 <= r < row && 0 <= col < 6 && #[trigger] digit_bit(rows[r], col as u32) ==> (i < digit_offset(
                        size,
                        x,
                        y,
                        col,
                        r,
                    ) || i >= digit_offset(size, x, y, col, r) + 4)) ==> img@[i] == start[i],
        decreases 12 - row,
    {
        let row_data = bitmap[row as usize];
        let mut col: u32 = 0;
        while col < 6
            invariant
                row < 12,
                col <= 6,
                row_data == rows[row as int],
                y as int + 12 <= u32::MAX,
                ((y as int + 12) * size as int + x as int + 6) * 4 <= u32::MAX,
                img@.len() == start.len(),
                forall|r: int, c: int|
                    ((0 <= r < row && 0 <= c < 6) || (r == row && 0 <= c < col)) && #[trigger] digit_bit(rows[r], c as u32)
                        && digit_offset(size, x, y, c, r) + 3 < start.len() ==> shows(img@, digit_offset(size, x, y, c, r), color),
                forall|i: int|
                    0 <= i < start.len() && (forall|r: int, c: int|
                        ((0 <= r < row && 0 <= c < 6) || (r == row && 0 <= c < col)) && #[trigger] digit_bit(rows[r], c as u32) ==> (i
                            < digit_offset(size, x, y, c, r) || i >= digit_offset(size, x, y, c, r) + 4)) ==> img@[i] == start[i],
            decreases 6 - col,
        {
            let ghost before = img@;
            if (row_data >> (5 - col)) & 1 == 1 {
                assert(digit_bit(rows[row as int], col));
                assert(((y + row) as int * size as int + (x + col) as int) * 4 <= u32::MAX) by (nonlinear_arith)
                    requires
                        ((y as int + 12) * size as int + x as int + 6) * 4 <= u32::MAX,
                        row < 12,
                        col < 6,
                ;
                put_pixel(img, size, x + col, y + row, color);
                assert(((y + row) as int * size as int + (x + col) as int) * 4 == digit_offset(size, x, y, col as int, row as int));
            }
            proof {
                assert forall|i: int|
                    0 <= i < start.len() && (forall|r: int, c: int|
                        ((0 <= r < row && 0 <= c < 6) || (r == row && 0 <= c < col + 1)) && #[trigger] digit_bit(rows[r], c as u32) ==> (i
                            < digit_offset(size, x, y, c, r) || i >= digit_offset(size, x, y, c, r) + 4)) implies img@[i] == start[i] by {
                    assert forall|r: int, c: int|
                        ((0 <= r < row && 0 <= c < 6) || (r == row && 0 <= c < col)) && #[trigger] digit_bit(rows[r], c as u32) implies (i
                            < digit_offset(size, x, y, c, r) || i >= digit_offset(size, x, y, c, r) + 4) by {
                        assert(digit_bit(rows[r], c as u32));
                    }
                    assert(before[i] == start[i]);
                    if digit_bit(rows[row as int], col) {
                        assert(digit_bit(rows[row as int], (col as int) as u32));
                        assert(i < digit_offset(size, x, y, col as int, row as int) || i >= digit_offset(size, x, y, col as int, row as int) + 4);
                    }
                }
            }
            col = col + 1;
        }
        row = row + 1;
    }
}


/// Whether grid pixel (`px`, `py`) is lit by digit `d` drawn at (`left`, `top`).
pub open spec fn digit_lit(d: int, left: int, top: int, px: int, py: int) -> bool {
    top <= py < top + 12 && left <= px < left + 6 && digit_bit(DIGIT_BITMAPS@[d]@[py - top], (px - left) as u32)
}

proof fn lemma_digit_clear(rows: Seq<u8>, d: int, left: u32, top: u32, px: int, py: int, i: int)
    requires
        0 <= d < 10,
        rows == DIGIT_BITMAPS@[d]@,
        left + 6 <= 16,
        top + 12 <= 16,
        0 <= px < 16,
        0 <= py < 16,
        !digit_lit(d, left as int, top as int, px, py),
        pixel_off(px, py) <= i < pixel_off(px, py) + 4,
    ensures
        clear_of_digit(rows, 16, left, top, i),
{
    assert forall|row: int, col: int|
        0 <= row < 12 && 0 <= col < 6 && #[trigger] digit_bit(rows[row], col as u32) implies (i < digit_offset(
            16,
            left,
            top,
            col,
            row,
        ) || i >= digit_offset(16, left, top, col, row) + 4) by {
        if digit_offset(16, left, top, col, row) <= i < digit_offset(16, left, top, col, row) + 4 {
            assert(top + row == py && left + col == px);
            assert(digit_bit(DIGIT_BITMAPS@[d]@[py - top], (px - left) as u32));
        }
    }
}

proof fn lemma_digit_stamp(
    before: Seq<u8>,
    after: Seq<u8>,
    d: int,
    left: u32,
    top: u32,
    color: [u8; 4],
    lit: spec_fn(int, int) -> bool,
)
    requires
        grid_shows(before, lit, color),
        0 <= d < 10,
        left + 6 <= 16,
        top + 12 <= 16,
        after.len() == before.len(),
        forall|row: int, col: int|
            0 <= row < 12 && 0 <= col < 6 && #[trigger] digit_bit(DIGIT_BITMAPS@[d]@[row], col as u32)
                && digit_offset(16, left, top, col, row) + 3 < before.len() ==> shows(after, digit_offset(16, left, top, col, row), color),
        forall|i: int|
            0 <= i < before.len() && clear_of_digit(DIGIT_BITMAPS@[d]@, 16, left, top, i) ==> after[i] == before[i],
    ensures
        grid_shows(after, |x: int, y: int| lit(x, y) || digit_lit(d, left as int, top as int, x, y), color),
{
    let lit2 = |x: int, y: int| lit(x, y) || digit_lit(d, left as int, top as int, x, y);
    assert forall|x: int, y: int| 0 <= x < 16 && 0 <= y < 16 implies #[trigger] shows(
        after,
        pixel_off(x, y),
        pixel_color(lit2(x, y), color),
    ) by {
        assert(shows(before, pixel_off(x, y), pixel_color(lit(x, y), color)));
        if digit_lit(d, left as int, top as int, x, y) {
            let col = x - left;
            let row = y - top;
            assert(digit_bit(DIGIT_BITMAPS@[d]@[row], col as u32));
            assert(digit_offset(16, left, top, col, row) == pixel_off(x, y));
        } else {
            assert forall|i: int| pixel_off(x, y) <= i < pixel_off(x, y) + 4 implies clear_of_digit(
                DIGIT_BITMAPS@[d]@,
                16,
                left,
                top,
                i,
            ) by {
                lemma_digit_clear(DIGIT_BITMAPS@[d]@, d, left, top, x, y, i);
            }
            assert(after[pixel_off(x, y)] == before[pixel_off(x, y)]);
            assert(after[pixel_off(x, y) + 1] == before[pixel_off(x, y) + 1]);
            assert(after[pixel_off(x, y) + 2] == before[pixel_off(x, y) + 2]);
            assert(after[pixel_off(x, y) + 3] == before[pixel_off(x, y) + 3]);
        }
    }
}

/// Draws a digit on the 16-pixel grid and records it in the picture of the grid.
fn stamp_digit(img: &mut Vec<u8>, digit: usize, x: u32, y: u32, color: [u8; 4], Ghost(lit): Ghost<spec_fn(int, int) -> bool>)
    requires
        grid_shows(old(img)@, lit, color),
        digit < 10,
        x + 6 <= 16,
        y + 12 <= 16,
    ensures
        grid_shows(final(img)@, |xx: int, yy: int| lit(xx, yy) || digit_lit(digit as int, x as int, y as int, xx, yy), color),
{
    let ghost before = img@;
    draw_digit(img.as_mut_slice(), 16, digit, x, y, color);
    proof {
        lemma_digit_stamp(before, img@, digit as int, x, y, color, lit);
    }
}

/// Whether grid pixel (`x`, `y`) lies in the rectangle `x0..x1` by `y0..y1`.
pub open spec fn block_lit(x0: int, x1: int, y0: int, y1: int, x: int, y: int) -> bool {
    x0 <= x < x1 && y0 <= y < y1
}

/// Fills a rectangle of the 16-pixel grid, column by column.
fn stamp_block(
    img: &mut Vec<u8>,
    x0: u32,
    x1: u32,
    y0: u32,
    y1: u32,
    color: [u8; 4],
    Ghost(lit): Ghost<spec_fn(int, int) -> bool>,
)
    requires
        grid_shows(old(img)@, lit, color),
        x0 <= x1 <= 16,
        y0 <= y1 <= 16,
    ensures
        grid_shows(
            final(img)@,
            |x: int, y: int| lit(x, y) || block_lit(x0 as int, x1 as int, y0 as int, y1 as int, x, y),
            color,
        ),
{
    let ghost mut drawn = lit;
    let mut x = x0;
    while x < x1
        invariant
            x0 <= x <= x1 <= 16,
            y0 <= y1 <= 16,
            grid_shows(img@, drawn, color),
            forall|px: int, py: int|
                0 <= px < 16 && 0 <= py < 16 ==> (#[trigger] drawn(px, py) <==> (lit(px, py) || block_lit(
                    x0 as int,
                    x as int,
                    y0 as int,
                    y1 as int,
                    px,
                    py,
                ))),
        decreases x1 - x,
    {
        let mut y = y0;
        while y < y1
            invariant
                x0 <= x < x1 <= 16,
                y0 <= y <= y1 <= 16,
                grid_shows(img@, drawn, color),
                forall|px: int, py: int|
                    0 <= px < 16 && 0 <= py < 16 ==> (#[trigger] drawn(px, py) <==> (lit(px, py) || block_lit(
                        x0 as int,
                        x as int,
                        y0 as int,
                        y1 as int,
                        px,
                        py,
                    ) || (px == x && y0 <= py < y))),
            decreases y1 - y,
        {
            stamp_pixel(img, x, y, color, Ghost(drawn));
            proof {
                let d2 = |px: int, py: int| drawn(px, py) || (px == x && py == y);
                assert forall|px: int, py: int|
                    0 <= px < 16 && 0 <= py < 16 implies (#[trigger] d2(px, py) <==> (lit(px, py) || block_lit(
                        x0 as int,
                        x as int,
                        y0 as int,
                        y1 as int,
                        px,
                        py,
                    ) || (px == x && y0 <= py < y + 1))) by {
                    assert(drawn(px, py) <==> (lit(px, py) || block_lit(x0 as int, x as int, y0 as int, y1 as int, px, py) || (
                    px == x && y0 <= py < y)));
                }
                drawn = d2;
            }
            y = y + 1;
        }
        x = x + 1;
    }
    proof {
        lemma_grid_same_lit(
            img@,
            drawn,
            |px: int, py: int| lit(px, py) || block_lit(x0 as int, x1 as int, y0 as int, y1 as int, px, py),
            color,
        );
    }
}

/// The percentage icon is unavailable when no percentage is known or the
/// device is offline.
pub open spec fn number_unavailable(percent: Option<u8>, state: PowerState) -> bool {
    percent is None || state == PowerState::Offline
}

/// Whether pixel (`x`, `y`) of the 16-pixel percentage icon is drawn: two
/// dashes when unavailable, else the percentage in one, two or three digits.
pub open spec fn number_lit(percent: Option<u8>, state: PowerState, x: int, y: int) -> bool {
    if number_unavailable(percent, state) {
        block_lit(2, 6, 6, 8, x, y) || block_lit(10, 14, 6, 8, x, y)
    } else {
        let p = percent.unwrap() as int;
        if p < 10 {
            digit_lit(p, 5, 2, x, y)
        } else if p == 100 {
            digit_lit(1, 0, 2, x, y) || digit_lit(0, 5, 2, x, y) || digit_lit(0, 10, 2, x, y)
        } else {
            digit_lit(p / 10, 0, 2, x, y) || digit_lit(p % 10, 8, 2, x, y)
        }
    }
}

/// The colour of the percentage icon: green when charging, red when on
/// battery at or below 20%, otherwise white on a dark theme and black on a
/// light one.
pub open spec fn number_color(theme: Theme, percent: Option<u8>, state: PowerState) -> [u8; 4] {
    if state == PowerState::Charging {
        [0u8, 255u8, 0u8, 255u8]
    } else if state == PowerState::Discharging && (percent matches Some(level) && level <= 20) {
        [255u8, 0u8, 0u8, 255u8]
    } else if theme == Theme::Dark {
        [255u8, 255u8, 255u8, 255u8]
    } else {
        [0u8, 0u8, 0u8, 255u8]
    }
}

/// The 16-pixel percentage icon.
pub fn number_icon_rgba(theme: Theme, battery_percent: Option<u8>, state: PowerState) -> (r: Vec<u8>)
    requires
        !number_unavailable(battery_percent, state) ==> battery_percent.unwrap() <= 100,
    ensures
        grid_shows(r@, |x: int, y: int| number_lit(battery_percent, state, x, y), number_color(theme, battery_percent, state)),
{
    let low = match battery_percent {
        Some(level) => level <= 20,
        None => false,
    };
    let color: [u8; 4] = match state {
        PowerState::Charging => [0, 255, 0, 255],
        PowerState::Discharging if low => [255, 0, 0, 255],
        _ => match theme {
            Theme::Dark => [255, 255, 255, 255],
            Theme::Light => [0, 0, 0, 255],
        },
    };
    assert(color == number_color(theme, battery_percent, state));
    let mut img: Vec<u8> = vec![0u8; 16 * 16 * 4];
    proof {
        assert forall|x: int, y: int| 0 <= x < 16 && 0 <= y < 16 implies #[trigger] shows(
            img@,
            pixel_off(x, y),
            pixel_color(false, color),
        ) by {
            let o = pixel_off(x, y);
            assert(cloned(0u8, img@[o]));
            assert(cloned(0u8, img@[o + 1]));
            assert(cloned(0u8, img@[o + 2]));
            assert(cloned(0u8, img@[o + 3]));
        }
    }
    let ghost nothing = |x: int, y: int| false;
    let offline = match state {
        PowerState::Offline => true,
        _ => false,
    };
    if battery_percent.is_none() || offline {
        stamp_block(&mut img, 2, 6, 6, 8, color, Ghost(nothing));
        let ghost d1 = |x: int, y: int| nothing(x, y) || block_lit(2, 6, 6, 8, x, y);
        stamp_block(&mut img, 10, 14, 6, 8, color, Ghost(d1));
        let ghost d2 = |x: int, y: int| d1(x, y) || block_lit(10, 14, 6, 8, x, y);
        proof {
            lemma_grid_same_lit(img@, d2, |x: int, y: int| number_lit(battery_percent, state, x, y), color);
        }
    } else {
        let percent: usize = match battery_percent {
            Some(level) => level as usize,
            None => 0,
        };
        if percent < 10 {
            stamp_digit(&mut img, percent, 5, 2, color, Ghost(nothing));
            let ghost d1 = |x: int, y: int| nothing(x, y) || digit_lit(percent as int, 5, 2, x, y);
            proof {
                lemma_grid_same_lit(img@, d1, |x: int, y: int| number_lit(battery_percent, state, x, y), color);
            }
        } else if percent == 100 {
            stamp_digit(&mut img, 1, 0, 2, color, Ghost(nothing));
            let ghost d1 = |x: int, y: int| nothing(x, y) || digit_lit(1, 0, 2, x, y);
            stamp_digit(&mut img, 0, 5, 2, color, Ghost(d1));
            let ghost d2 = |x: int, y: int| d1(x, y) || digit_lit(0, 5, 2, x, y);
            stamp_digit(&mut img, 0, 10, 2, color, Ghost(d2));
            let ghost d3 = |x: int, y: int| d2(x, y) || digit_lit(0, 10, 2, x, y);
            proof {
                lemma_grid_same_lit(img@, d3, |x: int, y: int| number_lit(battery_percent, state, x, y), color);
            }
        } else {
            let tens = percent / 10;
            let ones = percent % 10;
            stamp_digit(&mut img, tens, 0, 2, color, Ghost(nothing));
            let ghost d1 = |x: int, y: int| nothing(x, y) || digit_lit(tens as int, 0, 2, x, y);
            stamp_digit(&mut img, ones, 8, 2, color, Ghost(d1));
            let ghost d2 = |x: int, y: int| d1(x, y) || digit_lit(ones as int, 8, 2, x, y);
            proof {
                lemma_grid_same_lit(img@, d2, |x: int, y: int| number_lit(battery_percent, state, x, y), color);
            }
        }
    }
    img
}


/// The fill level of the bundled battery icons: 1 (empty) to 5 (full), by
/// rounding the percentage to the nearest quarter.
pub open spec fn battery_level(percent: u8) -> int {
    if percent <= 12 {
        1
    } else if percent <= 37 {
        2
    } else if percent <= 62 {
        3
    } else if percent <= 87 {
        4
    } else {
        5
    }
}

/// The resource number of the bundled battery icon for a reading: dark-theme
/// icons are numbered 10 to 50 by fill level, light-theme icons 5 higher, and
/// the charging variant of each one higher still; an unknown or offline
/// reading shows the empty icon.
pub open spec fn battery_res_id(theme: Theme, percent: Option<u8>, state: PowerState) -> int {
    let theme_offset: int = if theme == Theme::Light { 5 } else { 0 };
    match percent {
        Some(p) => if state == PowerState::Offline {
            10 + theme_offset
        } else {
            battery_level(p) * 10 + theme_offset + if state == PowerState::Charging { 1int } else { 0int }
        },
        None => 10 + theme_offset,
    }
}

/// The resource number of the bundled battery icon for a reading.
pub fn battery_res_id_for(theme: Theme, battery_percent: Option<u8>, state: PowerState) -> (r: u16)
    ensures
        r == battery_res_id(theme, battery_percent, state),
{
    let level: u16 = match battery_percent {
        None => 1,
        Some(p) => if p <= 12 {
            1
        } else if p <= 37 {
            2
        } else if p <= 62 {
            3
        } else if p <= 87 {
            4
        } else {
            5
        },
    };
    let theme_offset: u16 = match theme {
        Theme::Light => 5,
        Theme::Dark => 0,
    };
    let charging_offset: u16 = match state {
        PowerState::Charging => 1,
        _ => 0,
    };
    let offline = match state {
        PowerState::Offline => true,
        _ => false,
    };
    if battery_percent.is_none() || offline {
        10 + theme_offset
    } else {
        level * 10 + theme_offset + charging_offset
    }
}


/// Whether column `col` (0 to 4, left to right) of row `row` of the small
/// digit `d` is set: bit `4 - col` of the row.
pub open spec fn small_digit_pixel(d: int, col: int, row: int) -> bool {
    (SMALL_DIGITS@[d]@[row] >> ((4 - col) as u32)) & 1u8 == 1u8
}

proof fn lemma_compact_bit_is_shifted_bit(row: u8, s: u32)
    requires
        s < 5,
    ensures
        (row & (1u8 << s) != 0) == ((row >> s) & 1u8 == 1u8),
{
    assert((row & (1u8 << s) != 0) == ((row >> s) & 1u8 == 1u8)) by (bit_vector)
        requires
            s < 5,
    ;
}

/// The icon of a two-digit level spells the level: below the silhouette,
/// columns 2 to 6 show the tens digit and columns 8 to 12 the ones digit,
/// each pixel lit exactly where that small digit is set, and the rest of
/// the digit rows stays dark.
pub proof fn lemma_two_digit_icon_spells_level(kind: DeviceKind, power: PowerState, v: u8, x: int, y: int)
    requires
        power != PowerState::Offline,
        10 <= v <= 99,
        9 <= y < 16,
        0 <= x < 16,
    ensures
        2 <= x < 7 ==> (icon_lit(kind, Some(v), power, x, y) <==> small_digit_pixel((v / 10) as int, x - 2, y - 9)),
        8 <= x < 13 ==> (icon_lit(kind, Some(v), power, x, y) <==> small_digit_pixel((v % 10) as int, x - 8, y - 9)),
        (x < 2 || x == 7 || x >= 13) ==> !icon_lit(kind, Some(v), power, x, y),
{
    assert(glyph_rows(kind).len() == 7);
    if 2 <= x < 7 {
        lemma_compact_bit_is_shifted_bit(SMALL_DIGITS@[(v / 10) as int]@[y - 9], (5 - (x - 2) - 1) as u32);
    }
    if 8 <= x < 13 {
        lemma_compact_bit_is_shifted_bit(SMALL_DIGITS@[(v % 10) as int]@[y - 9], (5 - (x - 8) - 1) as u32);
    }
}

/// The icon of a one-digit level shows that digit centred, in columns 5 to 9.
pub proof fn lemma_one_digit_icon_spells_level(kind: DeviceKind, power: PowerState, v: u8, x: int, y: int)
    requires
        power != PowerState::Offline,
        v < 10,
        9 <= y < 16,
        0 <= x < 16,
    ensures
        5 <= x < 10 ==> (icon_lit(kind, Some(v), power, x, y) <==> small_digit_pixel(v as int, x - 5, y - 9)),
        (x < 5 || x >= 10) ==> !icon_lit(kind, Some(v), power, x, y),
{
    assert(glyph_rows(kind).len() == 7);
    if 5 <= x < 10 {
        lemma_compact_bit_is_shifted_bit(SMALL_DIGITS@[v as int]@[y - 9], (5 - (x - 5) - 1) as u32);
    }
}

/// The percentage icon of a two-digit level spells the level: the tens
/// digit in columns 0 to 5 and the ones digit in columns 8 to 13 of rows 2 to
/// 13, each pixel lit exactly where the six-pixel digit has its bit set, and
/// the columns between and after them dark.
pub proof fn lemma_two_digit_number_icon_spells_level(state: PowerState, p: u8, x: int, y: int)
    requires
        state != PowerState::Offline,
        10 <= p <= 99,
        0 <= x < 16,
        2 <= y < 14,
    ensures
        0 <= x < 6 ==> (number_lit(Some(p), state, x, y) <==> (DIGIT_BITMAPS@[(p / 10) as int]@[y - 2] >> ((5
            - x) as u32)) & 1u8 == 1u8),
        8 <= x < 14 ==> (number_lit(Some(p), state, x, y) <==> (DIGIT_BITMAPS@[(p % 10) as int]@[y - 2] >> ((5 - (x
            - 8)) as u32)) & 1u8 == 1u8),
        (x == 6 || x == 7 || x >= 14) ==> !number_lit(Some(p), state, x, y),
{
}

/// The colour of the device icon: grey whenever no level can be shown,
/// green for a charging mouse, amber for any other level at or below 20%,
/// and the theme's text colour otherwise.
pub proof fn lemma_device_icon_colors(kind: DeviceKind, theme: Theme, percent: Option<u8>, power: PowerState)
    ensures
        (percent is None || power == PowerState::Offline) ==> icon_color(kind, theme, percent, power) == [
            145u8,
            150u8,
            160u8,
            255u8,
        ],
        percent is Some && power == PowerState::Charging && kind == DeviceKind::Mouse ==> icon_color(
            kind,
            theme,
            percent,
            power,
        ) == [54u8, 211u8, 130u8, 255u8],
        (percent matches Some(v) && v <= 20) && power != PowerState::Offline && !(power == PowerState::Charging
            && kind == DeviceKind::Mouse) ==> icon_color(kind, theme, percent, power) == [245u8, 174u8, 57u8, 255u8],
        (percent matches Some(v) && v > 20) && power != PowerState::Offline && !(power == PowerState::Charging
            && kind == DeviceKind::Mouse) ==> icon_color(kind, theme, percent, power) == if theme == Theme::Dark {
            [245u8, 247u8, 250u8, 255u8]
        } else {
            [35u8, 40u8, 47u8, 255u8]
        },
{
}

/// How the bundled battery icons are numbered: the light-theme icon is five
/// above the dark one, the charging icon one above the one on battery, a
/// higher level never picks a lower icon, an empty battery and any unknown or
/// offline reading pick 10, and a full one 50.
pub proof fn lemma_battery_icon_numbering(p: u8, q: u8, state: PowerState)
    requires
        state != PowerState::Offline,
    ensures
        battery_res_id(Theme::Light, Some(p), state) == battery_res_id(Theme::Dark, Some(p), state) + 5,
        battery_res_id(Theme::Dark, Some(p), PowerState::Charging) == battery_res_id(
            Theme::Dark,
            Some(p),
            PowerState::Discharging,
        ) + 1,
        p <= q ==> battery_res_id(Theme::Dark, Some(p), PowerState::Discharging) <= battery_res_id(
            Theme::Dark,
            Some(q),
            PowerState::Discharging,
        ),
        battery_res_id(Theme::Dark, Some(0), PowerState::Discharging) == 10,
        battery_res_id(Theme::Dark, Some(100), PowerState::Discharging) == 50,
        battery_res_id(Theme::Dark, None, state) == 10,
        battery_res_id(Theme::Dark, Some(p), PowerState::Offline) == 10,
{
}

/// A reading without a level, or from an offline device, is never drawn as a
/// measured zero: the dashes light a pixel that the 0% icon leaves dark.
pub proof fn lemma_unknown_level_not_drawn_as_zero(kind: DeviceKind, percent: Option<u8>, power: PowerState)
    requires
        icon_unavailable(percent, power),
    ensures
        icon_lit(kind, percent, power, 3, 11),
        !icon_lit(kind, Some(0), PowerState::Discharging, 3, 11),
{
}

} // verus!
