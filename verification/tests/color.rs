use fractal_gl::color::{hex_to_rgb, palette3, palette4};
use fractal_gl::fixed::ONE;
use fractal_gl::linear_algebra::{Vec3, Vec4};

#[test]
fn parses_primary_colors_exactly() {
    assert_eq!(hex_to_rgb("#000000"), Some(Vec3(0, 0, 0)));
    assert_eq!(hex_to_rgb("#ff0000"), Some(Vec3(ONE, 0, 0)));
    assert_eq!(hex_to_rgb("#00ff00"), Some(Vec3(0, ONE, 0)));
    assert_eq!(hex_to_rgb("#0000ff"), Some(Vec3(0, 0, ONE)));
    assert_eq!(hex_to_rgb("#ffffff"), Some(Vec3(ONE, ONE, ONE)));
}

#[test]
fn parses_mixed_channels_with_floor_scaling() {
    // 0x33 = 51: 51 * 65536 / 255 = 13107; 0x66 = 102 -> 26214; 0x99 = 153 -> 39321
    assert_eq!(hex_to_rgb("#336699"), Some(Vec3(13107, 26214, 39321)));
    // 0x80 = 128: 128 * 65536 / 255 = 32896
    assert_eq!(hex_to_rgb("#80ff00"), Some(Vec3(32896, ONE, 0)));
}

#[test]
fn accepts_uppercase_digits() {
    assert_eq!(hex_to_rgb("#FF00aA"), hex_to_rgb("#ff00aa"));
}

#[test]
fn rejects_malformed_strings() {
    assert_eq!(hex_to_rgb(""), None);
    assert_eq!(hex_to_rgb("red"), None);
    assert_eq!(hex_to_rgb("#fff"), None);
    assert_eq!(hex_to_rgb("#fffffff"), None);
    assert_eq!(hex_to_rgb("ff00000"), None);
    assert_eq!(hex_to_rgb("#ff00zz"), None);
    assert_eq!(hex_to_rgb("#+10000"), None);
    assert_eq!(hex_to_rgb("# f0000"), None);
}

#[test]
fn palette_cycles_every_eight_entries() {
    assert_eq!(palette3(0), Vec3(0, 0, 0));
    assert_eq!(palette3(1), Vec3(ONE, 0, 0));
    assert_eq!(palette3(2), Vec3(ONE, ONE, 0));
    assert_eq!(palette3(3), Vec3(0, ONE, 0));
    assert_eq!(palette3(4), Vec3(0, 0, ONE));
    assert_eq!(palette3(5), Vec3(ONE, 0, ONE));
    assert_eq!(palette3(6), Vec3(0, ONE, ONE));
    assert_eq!(palette3(7), Vec3(ONE, ONE, ONE));
    assert_eq!(palette3(8), palette3(0));
    assert_eq!(palette3(13), palette3(5));
}

#[test]
fn rgba_palette_adds_a_full_alpha_channel() {
    for i in 0..16usize {
        let rgb = palette3(i);
        assert_eq!(palette4(i), Vec4(rgb.0, rgb.1, rgb.2, ONE));
    }
}
