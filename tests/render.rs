use identicon::{Identicon, RgbColor, BACKGROUND_LEVEL, CANVAS_SIZE, HSL, MARGIN, PIXEL_SIZE};

const SAMPLE: [u8; 16] = [
    0xab, 0xcd, 0xef, 0x01, 0x23, 0x45, 0x67, 0x89, 1, 2, 3, 4, 0x5a, 0x3c, 0x80, 0x40,
];

fn pixel(bytes: &[u8], x: u32, y: u32) -> (u8, u8, u8) {
    let i = 3 * (y * CANVAS_SIZE + x) as usize;
    (bytes[i], bytes[i + 1], bytes[i + 2])
}

fn cell_centre(col: u32, row: u32) -> (u32, u32) {
    (MARGIN + col * PIXEL_SIZE + PIXEL_SIZE / 2, MARGIN + row * PIXEL_SIZE + PIXEL_SIZE / 2)
}

const GREY: (u8, u8, u8) = (BACKGROUND_LEVEL, BACKGROUND_LEVEL, BACKGROUND_LEVEL);

#[test]
fn foreground_of_zero_colour_bytes() {
    let mut bytes = [0x55u8; 16];
    bytes[12..16].copy_from_slice(&[0, 0, 0, 0]);
    let fg = Identicon::new(&bytes).foreground();
    assert_eq!(fg, HSL::new(0, 65, 75, 1).rgb());
    assert_eq!(fg, RgbColor { r: 233, g: 150, b: 150 });
}

#[test]
fn foreground_of_sample() {
    assert_eq!(Identicon::new(&SAMPLE).foreground(), RgbColor { r: 136, g: 150, b: 221 });
    assert_eq!(Identicon::new(&[0u8; 16][..]).foreground(), RgbColor { r: 233, g: 150, b: 150 });
}

#[test]
fn foreground_at_extremes() {
    let mut bytes = [0u8; 16];
    bytes[12..16].copy_from_slice(&[0x0f, 0xff, 0xff, 0xff]);
    // hue 360, saturation 45, luminance 55
    assert_eq!(Identicon::new(&bytes).foreground(), RgbColor { r: 192, g: 89, b: 89 });
    assert_eq!(Identicon::new(&bytes).foreground(), HSL::new(0, 45, 55, 1).rgb());
    // the high nibble of byte 12 takes no part in the colour
    bytes[12] = 0xff;
    assert_eq!(Identicon::new(&bytes).foreground(), HSL::new(0, 45, 55, 1).rgb());
}

#[test]
fn image_has_canvas_size() {
    let bytes = Identicon::new(&SAMPLE).image_bytes();
    assert_eq!(bytes.len(), 3 * 420 * 420);
}

#[test]
fn image_is_deterministic() {
    let a = Identicon::new(&SAMPLE).image_bytes();
    let b = Identicon::new(&SAMPLE.to_vec()).image_bytes();
    assert!(a == b);
}

#[test]
fn image_background_outside_pattern() {
    for src in [SAMPLE, [0u8; 16], [0xffu8; 16]] {
        let bytes = Identicon::new(&src).image_bytes();
        for i in 0..CANVAS_SIZE {
            for &j in &[0, MARGIN - 1, MARGIN + 5 * PIXEL_SIZE, CANVAS_SIZE - 1] {
                assert_eq!(pixel(&bytes, i, j), GREY);
                assert_eq!(pixel(&bytes, j, i), GREY);
            }
        }
    }
}

#[test]
fn image_is_mirror_symmetric() {
    let bytes = Identicon::new(&SAMPLE).image_bytes();
    for y in 0..CANVAS_SIZE {
        for x in 0..CANVAS_SIZE {
            assert_eq!(pixel(&bytes, x, y), pixel(&bytes, 419 - x, y));
        }
    }
}

#[test]
fn image_cells_of_sample() {
    let bytes = Identicon::new(&SAMPLE).image_bytes();
    let fg = (136, 150, 221);
    let filled = [
        (0, 0), (0, 2), (0, 4), (1, 1), (1, 3), (2, 0), (2, 2), (2, 4),
        (3, 1), (3, 3), (4, 0), (4, 2), (4, 4),
    ];
    for col in 0..5 {
        for row in 0..5 {
            let (x, y) = cell_centre(col, row);
            let expected = if filled.contains(&(col, row)) { fg } else { GREY };
            assert_eq!(pixel(&bytes, x, y), expected);
        }
    }
    // a filled cell is painted to its edges, and no further
    let x0 = MARGIN;
    let y0 = MARGIN;
    assert_eq!(pixel(&bytes, x0, y0), fg);
    assert_eq!(pixel(&bytes, x0 + PIXEL_SIZE - 1, y0 + PIXEL_SIZE - 1), fg);
    assert_eq!(pixel(&bytes, x0 + PIXEL_SIZE, y0), GREY);
}

#[test]
fn image_uses_fifteen_decisions() {
    // even nibbles everywhere in the first eight bytes: every cell is painted
    let mut src = [0x22u8; 16];
    let bytes = Identicon::new(&src).image_bytes();
    let fg = Identicon::new(&src).foreground();
    for col in 0..5 {
        for row in 0..5 {
            let (x, y) = cell_centre(col, row);
            assert_eq!(pixel(&bytes, x, y), (fg.r, fg.g, fg.b));
        }
    }
    // nibbles past the fifteenth do not matter
    src[7] = 0x23;
    src[8] = 0x11;
    assert!(Identicon::new(&src).image_bytes() == bytes);
    // the fifteenth decides the bottom cells of the outer columns
    src[7] = 0x32;
    let changed = Identicon::new(&src).image_bytes();
    let (x, y) = cell_centre(0, 4);
    assert_eq!(pixel(&changed, x, y), GREY);
    let (x, y) = cell_centre(4, 4);
    assert_eq!(pixel(&changed, x, y), GREY);
    let (x, y) = cell_centre(0, 3);
    assert_eq!(pixel(&changed, x, y), (fg.r, fg.g, fg.b));
}

#[test]
fn image_with_odd_nibbles_is_blank() {
    let src = [0x13u8, 0x57, 0x9b, 0xdf, 0x31, 0x75, 0xb9, 0xfd, 0, 0, 0, 0, 0, 0, 0, 0];
    let bytes = Identicon::new(&src).image_bytes();
    assert!(bytes.iter().all(|&v| v == BACKGROUND_LEVEL));
}
