use vstd::prelude::*;

use crate::canvas::{canvas_height, canvas_pixels, canvas_width, Canvas};
use crate::identicon::{
    background, cell_filled, cell_of, color_scale, decision_index, foreground_color,
    foreground_hsl, hue_bits, hue_of, in_pattern, lum_drop_of, sat_drop_of, rendered, CANVAS_SIZE, HALF_AXIS, MARGIN, PIXEL_SIZE,
    SPRITE_SIZE,
};
use crate::nibbles::nibbles_of;

verus! {

/// Rendering is deterministic: two canvases rendered from the same bytes
/// have the same size and the same pixels.
pub proof fn render_deterministic(src: Seq<u8>, first: Canvas, second: Canvas)
    requires
        src.len() >= 16,
        canvas_width(first) == CANVAS_SIZE && canvas_height(first) == CANVAS_SIZE,
        canvas_width(second) == CANVAS_SIZE && canvas_height(second) == CANVAS_SIZE,
        canvas_pixels(first) == rendered(src),
        canvas_pixels(second) == rendered(src),
    ensures
        canvas_width(first) == canvas_width(second),
        canvas_height(first) == canvas_height(second),
        canvas_pixels(first) == canvas_pixels(second),
{
}

proof fn lemma_color_fractions(src: Seq<u8>)
    requires
        src.len() >= 16,
    ensures
        hue_of(src) == (hue_bits(src) * 360, 4095int),
        sat_drop_of(src) == (src[14] * 20, 255int),
        lum_drop_of(src) == (src[15] * 20, 255int),
        color_scale(src) == 4095 * 255 * 255,
        0 <= hue_bits(src) <= 4095,
{
}

/// The derived saturation lies in `[45, 65]` percent and the luminance in
/// `[55, 75]` percent, whatever the bytes.
pub proof fn saturation_luminance_in_range(src: Seq<u8>)
    requires
        src.len() >= 16,
    ensures
        color_scale(src) > 0,
        45 * color_scale(src) <= foreground_hsl(src).1 <= 65 * color_scale(src),
        55 * color_scale(src) <= foreground_hsl(src).2 <= 75 * color_scale(src),
{
    lemma_color_fractions(src);
}

/// The derived hue lies in `[0, 360)` degrees unless all twelve hue bits are
/// set, which gives exactly 360.
pub proof fn hue_in_range(src: Seq<u8>)
    requires
        src.len() >= 16,
        hue_bits(src) < 4095,
    ensures
        0 <= foreground_hsl(src).0 < 360 * color_scale(src),
{
    lemma_color_fractions(src);
}

/// A grid cell and its mirror image across the axis column are filled alike.
pub proof fn cells_mirror_symmetric(src: Seq<u8>, col: int, row: int)
    requires
        src.len() >= 16,
        0 <= col < SPRITE_SIZE,
        0 <= row < SPRITE_SIZE,
    ensures
        cell_filled(src, col, row) == cell_filled(src, 2 * HALF_AXIS - col, row),
{
}

/// The image is mirror-symmetric about the vertical line through the middle
/// of the axis column: pixel column `x` matches column `2 * axis - 1 - x`.
pub proof fn render_mirror_symmetric(src: Seq<u8>, x: int, y: int)
    requires
        src.len() >= 16,
        0 <= x < CANVAS_SIZE,
        0 <= y < CANVAS_SIZE,
    ensures
        ({
            let axis = HALF_AXIS * PIXEL_SIZE + MARGIN + PIXEL_SIZE / 2;
            rendered(src)[(x, y)] == rendered(src)[(2 * axis - 1 - x, y)]
        }),
{
    let mx = 2 * (HALF_AXIS * PIXEL_SIZE + MARGIN + PIXEL_SIZE / 2) - 1 - x;
    if in_pattern(x, y) {
        assert(cell_of(mx) == 2 * HALF_AXIS - cell_of(x));
    }
}

/// Every grid cell takes its decision from the first fifteen nibbles.
pub proof fn decisions_cover_grid(col: int, row: int)
    requires
        0 <= col < SPRITE_SIZE,
        0 <= row < SPRITE_SIZE,
    ensures
        0 <= decision_index(col, row) < (HALF_AXIS + 1) * SPRITE_SIZE,
{
}

/// Decision `k` paints the cell in row `k % 5` of column `2 - k / 5` and its
/// mirror image in column `2 + k / 5`: one cell on the axis for the first
/// five decisions, a pair for each later one.
pub proof fn decision_cells(k: int, col: int, row: int)
    requires
        0 <= k < (HALF_AXIS + 1) * SPRITE_SIZE,
        0 <= col < SPRITE_SIZE,
        0 <= row < SPRITE_SIZE,
    ensures
        decision_index(col, row) == k <==> (row == k % SPRITE_SIZE as int && (col == HALF_AXIS
            - k / SPRITE_SIZE as int || col == HALF_AXIS + k / SPRITE_SIZE as int)),
{
}

/// The image depends on the first fifteen nibbles and on bytes 12 to 15 only.
pub proof fn render_uses_fifteen_decisions(a: Seq<u8>, b: Seq<u8>)
    requires
        a.len() >= 16,
        b.len() >= 16,
        nibbles_of(a).take(((HALF_AXIS + 1) * SPRITE_SIZE) as int) == nibbles_of(b).take(
            ((HALF_AXIS + 1) * SPRITE_SIZE) as int,
        ),
        a.subrange(12, 16) == b.subrange(12, 16),
    ensures
        rendered(a) == rendered(b),
{
    let n = ((HALF_AXIS + 1) * SPRITE_SIZE) as int;
    assert(a[12] == a.subrange(12, 16)[0] && a[13] == a.subrange(12, 16)[1]);
    assert(a[14] == a.subrange(12, 16)[2] && a[15] == a.subrange(12, 16)[3]);
    assert(foreground_color(a) == foreground_color(b));
    assert forall|col: int, row: int|
        0 <= col < SPRITE_SIZE && 0 <= row < SPRITE_SIZE implies cell_filled(a, col, row)
        == cell_filled(b, col, row) by {
        let k = decision_index(col, row);
        assert(nibbles_of(a)[k] == nibbles_of(a).take(n)[k]);
        assert(nibbles_of(b)[k] == nibbles_of(b).take(n)[k]);
    }
    assert(rendered(a) =~= rendered(b));
}

/// Every pixel outside the pattern keeps the light grey background
/// `(240, 240, 240)`, whatever the bytes.
pub proof fn background_outside_pattern(src: Seq<u8>, x: int, y: int)
    requires
        src.len() >= 16,
        0 <= x < CANVAS_SIZE,
        0 <= y < CANVAS_SIZE,
        !in_pattern(x, y),
    ensures
        rendered(src)[(x, y)] == (240u8, 240u8, 240u8),
{
}

} // verus!
