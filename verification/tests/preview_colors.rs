use gcode_frame_gen::preview::opengl_renderer::parse_color;
use gcode_frame_gen::preview::software_renderer::preview_color;

#[test]
fn parses_rgb_and_rgba_colors() {
    assert_eq!(parse_color("#123456", [0; 4]), [18, 52, 86, 255]);
    assert_eq!(parse_color("#12345680", [0; 4]), [18, 52, 86, 128]);
}

#[test]
fn parses_eight_digit_hex_with_alpha() {
    assert_eq!(preview_color("#12345680", (0, 0, 0)), (18, 52, 86, 128));
    assert_eq!(preview_color("#123456", (0, 0, 0)), (18, 52, 86, 255));
}

#[test]
fn malformed_colors_fall_back() {
    assert_eq!(parse_color("#12345", [1, 2, 3, 4]), [1, 2, 3, 4]);
    assert_eq!(parse_color("#12x456", [1, 2, 3, 4]), [1, 2, 3, 4]);
    assert_eq!(preview_color("", (9, 8, 7)), (9, 8, 7, 255));
    assert_eq!(preview_color("é1234", (9, 8, 7)), (9, 8, 7, 255));
}

#[test]
fn colors_are_trimmed_and_accept_several_hashes_and_a_plus_sign() {
    assert_eq!(parse_color("  ##aBcDeF\n", [0; 4]), [171, 205, 239, 255]);
    assert_eq!(parse_color("+f0000ff", [0; 4]), [15, 0, 0, 255]);
}

#[test]
fn unreadable_alpha_is_opaque() {
    assert_eq!(preview_color("#123456zz", (0, 0, 0)), (18, 52, 86, 255));
    assert_eq!(preview_color("#123456é", (0, 0, 0)), (18, 52, 86, 255));
}

#[test]
fn multi_byte_characters_among_the_digits_fall_back() {
    let fallback = [9, 8, 7, 6];
    for value in ["#1é345", "#12é45", "#1é3456", "#12345é7", "#1234é6"] {
        assert_eq!(parse_color(value, fallback), fallback);
        assert_eq!(preview_color(value, (9, 8, 7)), (9, 8, 7, 255));
    }
    assert_eq!(parse_color("#123456é", fallback), [0x12, 0x34, 0x56, 255]);
    assert_eq!(preview_color("#123456é", (0, 0, 0)), (0x12, 0x34, 0x56, 255));
}
