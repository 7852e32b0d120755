use identicon::{RgbColor, HSL};

fn rgb(r: u8, g: u8, b: u8) -> RgbColor {
    RgbColor { r, g, b }
}

#[test]
fn hsl_black() {
    assert_eq!(HSL::new(0, 0, 0, 1).rgb(), rgb(0, 0, 0));
}

#[test]
fn hsl_white() {
    assert_eq!(HSL::new(0, 0, 100, 1).rgb(), rgb(255, 255, 255));
}

#[test]
fn hsl_pure_green() {
    assert_eq!(HSL::new(120, 100, 50, 1).rgb(), rgb(0, 255, 0));
}

#[test]
fn hsl_pure_blue() {
    assert_eq!(HSL::new(240, 100, 50, 1).rgb(), rgb(0, 0, 255));
}

#[test]
fn hsl_mid_tone_red() {
    assert_eq!(HSL::new(0, 65, 75, 1).rgb(), rgb(233, 150, 150));
}

#[test]
fn hsl_scale_does_not_change_colour() {
    assert_eq!(HSL::new(0, 65 * 7, 75 * 7, 7).rgb(), HSL::new(0, 65, 75, 1).rgb());
    assert_eq!(HSL::new(360, 45, 55, 1).rgb(), HSL::new(0, 45, 55, 1).rgb());
}

#[test]
fn hsl_fractional_components() {
    // hue 60 degrees, saturation 100 percent, luminance 50 percent: yellow
    assert_eq!(HSL::new(120, 200, 100, 2).rgb(), rgb(255, 255, 0));
}
