use vstd::prelude::*;

use crate::canvas::{canvas_height, canvas_pixels, canvas_width, grid, raw_layout, Canvas};
use crate::color::{hsl_to_rgb, RgbColor, HSL};
use crate::nibbles::{nibbles_of, Nibbler};

verus! {

/// The edge length of the square canvas in pixels.
pub const CANVAS_SIZE: u32 = 420;

/// The edge length of one grid cell in pixels.
pub const PIXEL_SIZE: u32 = 70;

/// The number of grid cells along each edge.
pub const SPRITE_SIZE: u32 = 5;

/// The edge length of the painted pattern in pixels.
pub const INNER_SIZE: u32 = SPRITE_SIZE * PIXEL_SIZE;

/// The offset of the pattern from the top and left edges of the canvas.
pub const MARGIN: u32 = PIXEL_SIZE / 2;

/// The index of the grid column on the mirror axis.
pub const HALF_AXIS: u32 = (SPRITE_SIZE - 1) / 2;

/// The channel value of the light grey background.
pub const BACKGROUND_LEVEL: u8 = 240;

/// The background colour.
pub open spec fn background() -> RgbColor {
    RgbColor { r: BACKGROUND_LEVEL, g: BACKGROUND_LEVEL, b: BACKGROUND_LEVEL }
}

/// The affine rescale of `value` from `[smin, smax]` onto `[dmin, dmax]`, as a
/// fraction `(numerator, denominator)`.
pub open spec fn rescale(value: int, smin: int, smax: int, dmin: int, dmax: int) -> (int, int) {
    ((value - smin) * (dmax - dmin) + dmin * (smax - smin), smax - smin)
}

/// The twelve hue bits: the low nibble of byte 12 above byte 13.
pub open spec fn hue_bits(src: Seq<u8>) -> int {
    (src[12] % 16) * 256 + src[13]
}

/// The hue in degrees, as a fraction.
pub open spec fn hue_of(src: Seq<u8>) -> (int, int) {
    rescale(hue_bits(src), 0, 4095, 0, 360)
}

/// The amount taken off the saturation, in percent, as a fraction.
pub open spec fn sat_drop_of(src: Seq<u8>) -> (int, int) {
    rescale(src[14] as int, 0, 255, 0, 20)
}

/// The amount taken off the luminance, in percent, as a fraction.
pub open spec fn lum_drop_of(src: Seq<u8>) -> (int, int) {
    rescale(src[15] as int, 0, 255, 0, 20)
}

/// The common denominator of the foreground's HSL components.
pub open spec fn color_scale(src: Seq<u8>) -> int {
    hue_of(src).1 * sat_drop_of(src).1 * lum_drop_of(src).1
}

/// The foreground in HSL: hue, `65 - sat_drop` and `75 - lum_drop`, each as a
/// numerator over `color_scale(src)`.
pub open spec fn foreground_hsl(src: Seq<u8>) -> (int, int, int) {
    let (hn, hd) = hue_of(src);
    let (sn, sd) = sat_drop_of(src);
    let (ln, ld) = lum_drop_of(src);
    let scale = color_scale(src);
    (hn * sd * ld, 65 * scale - sn * hd * ld, 75 * scale - ln * hd * sd)
}

/// The foreground colour derived from bytes 12 to 15.
pub open spec fn foreground_color(src: Seq<u8>) -> RgbColor {
    let (h, s, l) = foreground_hsl(src);
    hsl_to_rgb(h, s, l, color_scale(src))
}

/// The column whose decision a grid column uses: itself up to the axis, its
/// mirror image beyond it.
pub open spec fn folded_column(col: int) -> int {
    if col <= HALF_AXIS {
        col
    } else {
        2 * HALF_AXIS - col
    }
}

/// The position in the nibble sequence of the decision for a grid cell:
/// the axis column first, then outwards, each column top to bottom.
pub open spec fn decision_index(col: int, row: int) -> int {
    (HALF_AXIS - folded_column(col)) * SPRITE_SIZE + row
}

/// Whether a grid cell is painted: its decision nibble is even.
pub open spec fn cell_filled(src: Seq<u8>, col: int, row: int) -> bool {
    nibbles_of(src)[decision_index(col, row)] % 2 == 0
}

/// Whether a canvas coordinate lies in the painted pattern.
pub open spec fn in_pattern(x: int, y: int) -> bool {
    &&& MARGIN <= x < MARGIN + INNER_SIZE
    &&& MARGIN <= y < MARGIN + INNER_SIZE
}

/// The grid cell index of a canvas coordinate within the pattern.
pub open spec fn cell_of(v: int) -> int {
    (v - MARGIN) / PIXEL_SIZE as int
}

/// The colour of the pixel at `(x, y)` of the identicon of `src`.
pub open spec fn pixel_color(src: Seq<u8>, x: int, y: int) -> RgbColor {
    if in_pattern(x, y) && cell_filled(src, cell_of(x), cell_of(y)) {
        foreground_color(src)
    } else {
        background()
    }
}

/// The pixels of the identicon of `src`.
pub open spec fn rendered(src: Seq<u8>) -> Map<(int, int), (u8, u8, u8)> {
    Map::new(
        |p: (int, int)| grid(CANVAS_SIZE as int, CANVAS_SIZE as int).contains(p),
        |p: (int, int)| pixel_color(src, p.0, p.1).triple(),
    )
}

/// The pixels of the identicon of `src` after the first `k` decisions.
pub open spec fn painted(src: Seq<u8>, k: int) -> Map<(int, int), (u8, u8, u8)> {
    Map::new(
        |p: (int, int)| grid(CANVAS_SIZE as int, CANVAS_SIZE as int).contains(p),
        |p: (int, int)|
            if in_pattern(p.0, p.1) && decision_index(cell_of(p.0), cell_of(p.1)) < k
                && cell_filled(src, cell_of(p.0), cell_of(p.1)) {
                foreground_color(src).triple()
            } else {
                background().triple()
            },
    )
}

/// The identicon of a byte string of at least 16 bytes.
pub struct Identicon<'a> {
    source: &'a [u8],
    size: u32,
}

impl<'a> View for Identicon<'a> {
    type V = Seq<u8>;

    closed spec fn view(&self) -> Seq<u8> {
        self.source@
    }
}

impl<'a> Identicon<'a> {
    #[verifier::type_invariant]
    spec fn size_fixed(self) -> bool {
        self.size == CANVAS_SIZE
    }

    /// An identicon over `source`, on a canvas of the fixed size.
    pub fn new(source: &'a [u8]) -> (r: Identicon<'a>)
        ensures
            r@ == source@,
    {
        Identicon { source: source, size: CANVAS_SIZE }
    }

    /// `value` rescaled from `[vmin, vmax]` onto `[dmin, dmax]`, as a fraction.
    fn map(value: u32, vmin: u32, vmax: u32, dmin: u32, dmax: u32) -> (r: (u64, u64))
        requires
            vmin <= value <= vmax,
            vmin < vmax,
            dmin <= dmax,
            (value - vmin) * (dmax - dmin) + dmin * (vmax - vmin) <= u64::MAX,
        ensures
            r.0 == rescale(value as int, vmin as int, vmax as int, dmin as int, dmax as int).0,
            r.1 == rescale(value as int, vmin as int, vmax as int, dmin as int, dmax as int).1,
    {
        proof {
            assert(0 <= (value - vmin) * (dmax - dmin) && 0 <= dmin * (vmax - vmin))
                by (nonlinear_arith)
                requires
                    vmin <= value,
                    vmin < vmax,
                    dmin <= dmax,
            ;
        }
        let span = (vmax - vmin) as u64;
        (((value - vmin) as u64) * ((dmax - dmin) as u64) + (dmin as u64) * span, span)
    }

    /// The foreground colour, from bytes 12 to 15.
    pub fn foreground(&self) -> (r: RgbColor)
        requires
            self@.len() >= 16,
        ensures
            r == foreground_color(self@),
    {
        let b12 = self.source[12] as u16;
        let b13 = self.source[13] as u16;
        let h1 = (b12 & 0x0f) << 8;
        let h = (h1 | b13) as u32;
        assert(((b12 & 0x0f) << 8) | b13 == (b12 % 16) * 256 + b13) by (bit_vector)
            requires
                b12 < 256,
                b13 < 256,
        ;
        let s = self.source[14] as u32;
        let l = self.source[15] as u32;
        let (hue_num, hue_den) = Identicon::map(h, 0, 4095, 0, 360);
        let (sat_num, sat_den) = Identicon::map(s, 0, 255, 0, 20);
        let (lum_num, lum_den) = Identicon::map(l, 0, 255, 0, 20);
        let scale = hue_den * sat_den * lum_den;
        let hsl = HSL::new(
            hue_num * sat_den * lum_den,
            65 * scale - sat_num * hue_den * lum_den,
            75 * scale - lum_num * hue_den * sat_den,
            scale as u32,
        );
        hsl.rgb()
    }

    /// Paints the rectangle `[x0, x1) x [y0, y1)` of the canvas in `color`.
    fn rect(canvas: &mut Canvas, x0: u32, y0: u32, x1: u32, y1: u32, color: RgbColor)
        requires
            x0 <= x1 <= canvas_width(*old(canvas)),
            y0 <= y1 <= canvas_height(*old(canvas)),
            canvas_pixels(*old(canvas)).dom() == grid(
                canvas_width(*old(canvas)) as int,
                canvas_height(*old(canvas)) as int,
            ),
        ensures
            canvas_width(*final(canvas)) == canvas_width(*old(canvas)),
            canvas_height(*final(canvas)) == canvas_height(*old(canvas)),
            canvas_pixels(*final(canvas)) == Map::new(
                |p: (int, int)| canvas_pixels(*old(canvas)).dom().contains(p),
                |p: (int, int)|
                    if x0 <= p.0 < x1 && y0 <= p.1 < y1 {
                        color.triple()
                    } else {
                        canvas_pixels(*old(canvas))[p]
                    },
            ),
    {
        let ghost before = canvas_pixels(*canvas);
        let ghost width = canvas_width(*canvas);
        let ghost height = canvas_height(*canvas);
        let mut x = x0;
        while x < x1
            invariant
                x0 <= x <= x1,
                x1 <= width,
                y0 <= y1 <= height,
                canvas_width(*canvas) == width,
                canvas_height(*canvas) == height,
                before.dom() == grid(width as int, height as int),
                canvas_pixels(*canvas) == Map::new(
                    |p: (int, int)| before.dom().contains(p),
                    |p: (int, int)|
                        if x0 <= p.0 < x && y0 <= p.1 < y1 {
                            color.triple()
                        } else {
                            before[p]
                        },
                ),
            decreases x1 - x,
        {
            let mut y = y0;
            while y < y1
                invariant
                    x0 <= x < x1,
                    x1 <= width,
                    y0 <= y <= y1,
                    y1 <= height,
                    canvas_width(*canvas) == width,
                    canvas_height(*canvas) == height,
                    before.dom() == grid(width as int, height as int),
                    canvas_pixels(*canvas) == Map::new(
                        |p: (int, int)| before.dom().contains(p),
                        |p: (int, int)|
                            if (x0 <= p.0 < x && y0 <= p.1 < y1) || (p.0 == x && y0 <= p.1 < y) {
                                color.triple()
                            } else {
                                before[p]
                            },
                    ),
                decreases y1 - y,
            {
                canvas.put_pixel(x, y, color);
                y += 1;
                assert(canvas_pixels(*canvas) =~= Map::new(
                    |p: (int, int)| before.dom().contains(p),
                    |p: (int, int)|
                        if (x0 <= p.0 < x && y0 <= p.1 < y1) || (p.0 == x && y0 <= p.1 < y) {
                            color.triple()
                        } else {
                            before[p]
                        },
                ));
            }
            x += 1;
            assert(canvas_pixels(*canvas) =~= Map::new(
                |p: (int, int)| before.dom().contains(p),
                |p: (int, int)|
                    if x0 <= p.0 < x && y0 <= p.1 < y1 {
                        color.triple()
                    } else {
                        before[p]
                    },
            ));
        }
    }
    /// Renders the identicon: a light grey canvas with the mirrored pattern
    /// painted in the foreground colour.
    pub fn image(&self) -> (r: Canvas)
        requires
            self@.len() >= 16,
        ensures
            canvas_width(r) == CANVAS_SIZE,
            canvas_height(r) == CANVAS_SIZE,
            canvas_pixels(r) == rendered(self@),
    {
        proof {
            use_type_invariant(self);
        }
        let ghost src = self@;
        let foreground = self.foreground();
        let background = RgbColor { r: BACKGROUND_LEVEL, g: BACKGROUND_LEVEL, b: BACKGROUND_LEVEL };
        let mut canvas = Canvas::filled(self.size, self.size, background);
        assert(canvas_pixels(canvas) =~= painted(src, 0));
        let mut nibbles = Nibbler::new(self.source);
        let mut i: u32 = 0;
        while i <= HALF_AXIS
            invariant
                i <= HALF_AXIS + 1,
                src == self@,
                src.len() >= 16,
                foreground == foreground_color(src),
                nibbles.wf(),
                nibbles.remaining() == nibbles_of(src).skip(i * SPRITE_SIZE),
                canvas_width(canvas) == CANVAS_SIZE,
                canvas_height(canvas) == CANVAS_SIZE,
                canvas_pixels(canvas) == painted(src, i * SPRITE_SIZE),
            decreases HALF_AXIS + 1 - i,
        {
            let x = (HALF_AXIS - i) * PIXEL_SIZE;
            let mut row: u32 = 0;
            while row < SPRITE_SIZE
                invariant
                    i <= HALF_AXIS,
                    x == (HALF_AXIS - i) * PIXEL_SIZE,
                    row <= SPRITE_SIZE,
                    src.len() >= 16,
                    foreground == foreground_color(src),
                    nibbles.wf(),
                    nibbles.remaining() == nibbles_of(src).skip(i * SPRITE_SIZE + row),
                    canvas_width(canvas) == CANVAS_SIZE,
                    canvas_height(canvas) == CANVAS_SIZE,
                    canvas_pixels(canvas) == painted(src, i * SPRITE_SIZE + row),
                decreases SPRITE_SIZE - row,
            {
                let ghost k = i * SPRITE_SIZE + row;
                let y = row * PIXEL_SIZE;
                let ghost before = canvas_pixels(canvas);
                let nibble = nibbles.next().unwrap();
                assert(nibble == nibbles_of(src)[k]);
                assert(before.dom() =~= grid(CANVAS_SIZE as int, CANVAS_SIZE as int));
                if nibble % 2 == 0 {
                    Identicon::rect(
                        &mut canvas,
                        x + MARGIN,
                        y + MARGIN,
                        x + PIXEL_SIZE + MARGIN,
                        y + PIXEL_SIZE + MARGIN,
                        foreground,
                    );
                    if x != HALF_AXIS * PIXEL_SIZE {
                        let x_start = 2 * HALF_AXIS * PIXEL_SIZE - x;
                        assert(canvas_pixels(canvas).dom() =~= grid(
                            CANVAS_SIZE as int,
                            CANVAS_SIZE as int,
                        ));
                        Identicon::rect(
                            &mut canvas,
                            x_start + MARGIN,
                            y + MARGIN,
                            x_start + PIXEL_SIZE + MARGIN,
                            y + PIXEL_SIZE + MARGIN,
                            foreground,
                        );
                    }
                }
                assert(canvas_pixels(canvas) =~= painted(src, k + 1));
                assert(nibbles.remaining() =~= nibbles_of(src).skip(k + 1));
                row += 1;
            }
            i += 1;
        }
        assert(canvas_pixels(canvas) =~= rendered(src));
        canvas
    }

    /// The rendered identicon as raw RGB bytes, row by row, three per pixel.
    pub fn image_bytes(&self) -> (r: Vec<u8>)
        requires
            self@.len() >= 16,
        ensures
            raw_layout(rendered(self@), CANVAS_SIZE as int, CANVAS_SIZE as int, r@),
    {
        self.image().into_raw()
    }
}

} // verus!
