use dyncss::props::{
    ParsedCssProperty, PixelValue, SizeMetric, TextAlignmentHorz, ColorU, CssParsingError,
    InvalidValueErr,
};

#[test]
fn pixel_values_parse_with_their_units() {
    assert_eq!(
        ParsedCssProperty::from_kv("width", " 10px "),
        Ok(ParsedCssProperty::Width(PixelValue { metric: SizeMetric::Px, number: 10 }))
    );
    assert_eq!(
        ParsedCssProperty::from_kv("min-width", "5pt"),
        Ok(ParsedCssProperty::MinWidth(PixelValue { metric: SizeMetric::Pt, number: 5 }))
    );
    assert_eq!(
        ParsedCssProperty::from_kv("max-height", "2em"),
        Ok(ParsedCssProperty::MaxHeight(PixelValue { metric: SizeMetric::Em, number: 2 }))
    );
    assert_eq!(
        ParsedCssProperty::from_kv("height", "400px"),
        Ok(ParsedCssProperty::Height(PixelValue { metric: SizeMetric::Px, number: 400 }))
    );
}

#[test]
fn pixel_value_rejects_bad_shapes() {
    assert_eq!(
        ParsedCssProperty::from_kv("width", "px"),
        Err(CssParsingError::InvalidValueErr(InvalidValueErr("px".to_string())))
    );
    assert_eq!(
        ParsedCssProperty::from_kv("width", "10 px"),
        Err(CssParsingError::InvalidValueErr(InvalidValueErr("10 px".to_string())))
    );
    // more than nine digits is out of this parser's range
    assert_eq!(
        ParsedCssProperty::from_kv("width", "9999999999px"),
        Err(CssParsingError::InvalidValueErr(InvalidValueErr("9999999999px".to_string())))
    );
}

#[test]
fn alignment_keywords_parse() {
    assert_eq!(
        ParsedCssProperty::from_kv("text-align", "left"),
        Ok(ParsedCssProperty::TextAlign(TextAlignmentHorz::Left))
    );
    assert_eq!(
        ParsedCssProperty::from_kv("text-align", "right"),
        Ok(ParsedCssProperty::TextAlign(TextAlignmentHorz::Right))
    );
    assert_eq!(
        ParsedCssProperty::from_kv("text-align", "hello"),
        Err(CssParsingError::InvalidValueErr(InvalidValueErr("hello".to_string())))
    );
}

#[test]
fn colors_parse_by_name_and_hex() {
    assert_eq!(
        ParsedCssProperty::from_kv("color", "red"),
        Ok(ParsedCssProperty::TextColor(ColorU { r: 255, g: 0, b: 0, a: 255 }))
    );
    assert_eq!(
        ParsedCssProperty::from_kv("color", "white"),
        Ok(ParsedCssProperty::TextColor(ColorU { r: 255, g: 255, b: 255, a: 255 }))
    );
    assert_eq!(
        ParsedCssProperty::from_kv("color", "#102030"),
        Ok(ParsedCssProperty::TextColor(ColorU { r: 16, g: 32, b: 48, a: 255 }))
    );
    assert_eq!(
        ParsedCssProperty::from_kv("color", "#aAbBcC"),
        Ok(ParsedCssProperty::TextColor(ColorU { r: 170, g: 187, b: 204, a: 255 }))
    );
    assert_eq!(
        ParsedCssProperty::from_kv("color", "#12345"),
        Err(CssParsingError::InvalidValueErr(InvalidValueErr("#12345".to_string())))
    );
}

#[test]
fn unknown_keys_are_unsupported() {
    assert_eq!(
        ParsedCssProperty::from_kv(" flavor ", "sweet"),
        Err(CssParsingError::UnsupportedProperty("flavor".to_string()))
    );
}

#[test]
fn inheritability_by_property_kind() {
    let align = ParsedCssProperty::from_kv("text-align", "center").unwrap();
    assert!(align.is_inheritable());
    let color = ParsedCssProperty::from_kv("color", "blue").unwrap();
    assert!(color.is_inheritable());
    let width = ParsedCssProperty::from_kv("width", "10px").unwrap();
    assert!(!width.is_inheritable());
}
