use rab::tui::terminal_colors::{
    color_scheme_from_background, is_osc11_background_color_response,
    parse_osc11_background_color, parse_terminal_color_scheme_report, RgbColor,
    TerminalColorScheme,
};

#[test]
fn test_parse_rgb_format() {
    let data = "\x1b]11;rgb:1111/2222/3333\x07";
    let color = parse_osc11_background_color(data).unwrap();
    assert_eq!(color.r, 17);
    assert_eq!(color.g, 34);
    assert_eq!(color.b, 51);
}

#[test]
fn test_parse_hex_6() {
    let data = "\x1b]11;#ff8800\x07";
    let color = parse_osc11_background_color(data).unwrap();
    assert_eq!(color.r, 255);
    assert_eq!(color.g, 136);
    assert_eq!(color.b, 0);
}

#[test]
fn test_parse_hex_12() {
    let data = "\x1b]11;#ffff88880000\x07";
    let color = parse_osc11_background_color(data).unwrap();
    assert_eq!(color.r, 255);
    assert_eq!(color.g, 136);
    assert_eq!(color.b, 0);
}

#[test]
fn test_parse_st_instead_of_bel() {
    let data = "\x1b]11;rgb:1111/2222/3333\x1b\\";
    assert!(is_osc11_background_color_response(data));
    let color = parse_osc11_background_color(data).unwrap();
    assert_eq!(color.r, 17);
}

#[test]
fn test_is_osc11_response() {
    assert!(is_osc11_background_color_response("\x1b]11;rgb:1/2/3\x07"));
    assert!(!is_osc11_background_color_response("hello"));
    assert!(!is_osc11_background_color_response("\x1b[?997;1n"));
}

#[test]
fn test_parse_color_scheme_dark() {
    let scheme = parse_terminal_color_scheme_report("\x1b[?997;1n");
    assert_eq!(scheme, Some(TerminalColorScheme::Dark));
}

#[test]
fn test_parse_color_scheme_light() {
    let scheme = parse_terminal_color_scheme_report("\x1b[?997;2n");
    assert_eq!(scheme, Some(TerminalColorScheme::Light));
}

#[test]
fn test_color_scheme_from_background() {
    let dark = RgbColor { r: 0, g: 0, b: 0 };
    let light = RgbColor { r: 255, g: 255, b: 255 };
    assert_eq!(color_scheme_from_background(&dark), TerminalColorScheme::Dark);
    assert_eq!(color_scheme_from_background(&light), TerminalColorScheme::Light);
}

#[test]
fn test_invalid_data() {
    assert!(parse_osc11_background_color("garbage").is_none());
    assert!(parse_osc11_background_color("\x1b]11;bad\x07").is_none());
}

#[test]
fn rgb_short_channels_scale() {
    let c = parse_osc11_background_color("\x1b]11;rgb:f/0/8\x07").unwrap();
    assert_eq!((c.r, c.g, c.b), (255, 0, 136));
}

#[test]
fn rgb_with_too_few_channels() {
    assert!(parse_osc11_background_color("\x1b]11;rgb:ff/ff\x07").is_none());
}

#[test]
fn scheme_report_unknown() {
    assert_eq!(parse_terminal_color_scheme_report("\x1b[?997;3n"), None);
}

#[test]
fn luminance_threshold() {
    // 2126*r + 7152*g + 722*b just above and below half of full scale
    assert_eq!(color_scheme_from_background(&RgbColor { r: 0, g: 179, b: 0 }), TerminalColorScheme::Light);
    assert_eq!(color_scheme_from_background(&RgbColor { r: 0, g: 178, b: 0 }), TerminalColorScheme::Dark);
}
