use rauthy_core::font::ColorSource;

#[test]
fn test_colorsource() {
    let mut color = ColorSource::Unset;
    color.set_from_attr("foo".to_string());
    assert_eq!(color, ColorSource::Attribute("foo".to_string()));
    color.set_from_inline_style("bar".to_string());
    assert_eq!(color, ColorSource::InlineStyle("bar".to_string()));
    color.set_from_attr("foo".to_string()); // Has no effect
    assert_eq!(color, ColorSource::InlineStyle("bar".to_string()));
}

#[test]
fn color_source_into_style() {
    assert_eq!(ColorSource::Attribute("red".to_string()).into_style(), Some("color: red;".to_string()));
    assert_eq!(
        ColorSource::InlineStyle("color: blue; margin: 0".to_string()).into_style(),
        Some("color: blue; margin: 0".to_string())
    );
    assert_eq!(ColorSource::Unset.into_style(), None);
}
