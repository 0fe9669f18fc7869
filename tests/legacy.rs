use rauthy_core::legacy::{parse_legacy_color_value, parse_legacy_font_size};

#[test]
fn test_parse_legacy_font_size() {
    assert_eq!(parse_legacy_font_size("2"), Some("small"));
    assert_eq!(parse_legacy_font_size("+2"), Some("x-large"));
    assert_eq!(parse_legacy_font_size("-8"), Some("x-small"));
    assert_eq!(parse_legacy_font_size("3px"), Some("medium"));
    assert_eq!(parse_legacy_font_size("ahhhh"), None);
    assert_eq!(parse_legacy_font_size("-"), None);
    assert_eq!(parse_legacy_font_size("-1"), Some("small"));
}

#[test]
fn test_parse_legacy_color_value() {
    assert_eq!(parse_legacy_color_value("transparent"), None);
    assert_eq!(parse_legacy_color_value("black"), Some("black".to_string()));
    assert_eq!(parse_legacy_color_value("#000"), Some("#000".to_string()));
    assert_eq!(
        parse_legacy_color_value("coal"),
        Some("#c0a000".to_string())
    );
}

#[test]
fn font_size_skips_leading_white_space_and_clamps() {
    assert_eq!(parse_legacy_font_size("  \t7"), Some("xxx-large"));
    assert_eq!(parse_legacy_font_size("+9"), Some("xxx-large"));
    assert_eq!(parse_legacy_font_size("0"), Some("x-small"));
    assert_eq!(parse_legacy_font_size(""), None);
    assert_eq!(parse_legacy_font_size("   "), None);
    assert_eq!(parse_legacy_font_size("99999999999999999999999"), None);
}

#[test]
fn color_value_edge_cases() {
    assert_eq!(parse_legacy_color_value(""), None);
    assert_eq!(parse_legacy_color_value("  TransParent "), None);
    assert_eq!(parse_legacy_color_value(" Red "), Some("Red".to_string()));
    assert_eq!(parse_legacy_color_value("#abc"), Some("#abc".to_string()));
    assert_eq!(parse_legacy_color_value("#abcdef"), Some("#abcdef".to_string()));
    assert_eq!(parse_legacy_color_value("00ff00"), Some("#00ff00".to_string()));
    assert_eq!(parse_legacy_color_value("#"), Some("#".to_string()));
    assert_eq!(
        parse_legacy_color_value("0000000000ff0000000000ff0000000000ff"),
        Some("#ffffff".to_string())
    );
    assert_eq!(
        parse_legacy_color_value("123456789abc"),
        Some("#12569a".to_string())
    );
}

