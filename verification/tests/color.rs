use gcode_thumbnailer::color::parse_color;

#[test]
fn accepts_rgb_and_rgba() {
    assert_eq!(parse_color("00000000"), Ok("00000000".to_string()));
    assert_eq!(parse_color("FFaa09"), Ok("FFaa09".to_string()));
}

#[test]
fn rejects_other_lengths_and_digits() {
    for value in ["", "fff", "fffff", "fffffff", "fffffffff", "gggggg", "#fffff", "ffffé"] {
        assert_eq!(
            parse_color(value),
            Err(format!(
                "Invalid background color: {}. Must be a 6 or 8 digit hexadecimal RGB(A) value.",
                value
            )),
            "{value}"
        );
    }
}
