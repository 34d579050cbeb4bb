//! Tests of the fixed palette and the color resolver.

use termsnap::{Color, Colors, Rgb};

#[test]
fn named_colors_are_solarized_dark() {
    let colors = Colors::new();
    // red, green, and the bright-blue used as the default foreground
    assert_eq!(colors.to_rgb(Color::Named(1)), Rgb { r: 0xdc, g: 0x32, b: 0x2f });
    assert_eq!(colors.to_rgb(Color::Named(2)), Rgb { r: 0x85, g: 0x99, b: 0x00 });
    assert_eq!(colors.to_rgb(Color::Named(12)), Rgb { r: 0x83, g: 0x94, b: 0x96 });
    // the special entries: default foreground and background
    assert_eq!(colors.to_rgb(Color::Named(256)), Rgb { r: 0x83, g: 0x94, b: 0x96 });
    assert_eq!(colors.to_rgb(Color::Named(257)), Rgb { r: 0x00, g: 0x2b, b: 0x36 });
}

#[test]
fn cube_axis_formula() {
    let colors = Colors::new();
    // entry 16 is the cube origin: all axes zero
    assert_eq!(colors.to_rgb(Color::Indexed(16)), Rgb { r: 0, g: 0, b: 0 });
    // entry 196 = 16 + 5*36: full red axis = 40*5 + 55 = 255
    assert_eq!(colors.to_rgb(Color::Indexed(196)), Rgb { r: 255, g: 0, b: 0 });
    // entry 110 = 16 + 2*36 + 3*6 + 4
    let v = |a: u8| if a == 0 { 0 } else { 40 * a + 55 };
    assert_eq!(
        colors.to_rgb(Color::Indexed(110)),
        Rgb { r: v(2), g: v(3), b: v(4) }
    );
}

#[test]
fn gray_ramp_formula() {
    let colors = Colors::new();
    // entry 232 + i has value 10*i + 8 on every channel
    assert_eq!(colors.to_rgb(Color::Indexed(232)), Rgb { r: 8, g: 8, b: 8 });
    assert_eq!(colors.to_rgb(Color::Indexed(244)), Rgb { r: 128, g: 128, b: 128 });
    assert_eq!(colors.to_rgb(Color::Indexed(255)), Rgb { r: 238, g: 238, b: 238 });
}

#[test]
fn direct_color_passes_through() {
    let colors = Colors::new();
    let c = Rgb { r: 1, g: 2, b: 3 };
    assert_eq!(colors.to_rgb(Color::Direct(c)), c);
}

#[test]
fn indexed_and_named_agree_on_base_colors() {
    // The first 16 indexed entries are the named base colors.
    let colors = Colors::new();
    for i in 0..16u8 {
        assert_eq!(
            colors.to_rgb(Color::Indexed(i)),
            colors.to_rgb(Color::Named(u16::from(i)))
        );
    }
}

#[test]
fn hex_formatting() {
    assert_eq!(Rgb { r: 0, g: 0, b: 0 }.hex(), "#000000");
    assert_eq!(Rgb { r: 0x83, g: 0x94, b: 0x96 }.hex(), "#839496");
    assert_eq!(Rgb { r: 255, g: 255, b: 255 }.hex(), "#ffffff");
}
