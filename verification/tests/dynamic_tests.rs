use dyncss::dynamic::{
    determine_static_or_dynamic_css_property, CssDeclaration, DynamicCssProperty,
    DynamicCssParseError,
};
use dyncss::props::{ParsedCssProperty, TextAlignmentHorz, CssParsingError, InvalidValueErr};

#[test]
fn test_detect_static_or_dynamic_property() {
    assert_eq!(
        determine_static_or_dynamic_css_property("text-align", " center   "),
        Ok(CssDeclaration::Static(ParsedCssProperty::TextAlign(TextAlignmentHorz::Center)))
    );

    assert_eq!(
        determine_static_or_dynamic_css_property("text-align", "[[    400px ]]"),
        Err(DynamicCssParseError::NoDefaultCase)
    );

    assert_eq!(
        determine_static_or_dynamic_css_property("text-align", "[[  400px"),
        Err(DynamicCssParseError::UnclosedBraces)
    );

    assert_eq!(
        determine_static_or_dynamic_css_property("text-align", "[[  400px | center ]]"),
        Err(DynamicCssParseError::InvalidId)
    );

    assert_eq!(
        determine_static_or_dynamic_css_property("text-align", "[[  hello | center ]]"),
        Ok(CssDeclaration::Dynamic(DynamicCssProperty {
            default: ParsedCssProperty::TextAlign(TextAlignmentHorz::Center),
            dynamic_id: String::from("hello"),
        }))
    );

    assert_eq!(
        determine_static_or_dynamic_css_property("text-align", "[[  abc | hello ]]"),
        Err(DynamicCssParseError::UnexpectedValue(CssParsingError::InvalidValueErr(
            InvalidValueErr("hello".to_string())
        )))
    );

    assert_eq!(
        determine_static_or_dynamic_css_property("text-align", "[[ ]]"),
        Err(DynamicCssParseError::EmptyBraces)
    );
    assert_eq!(
        determine_static_or_dynamic_css_property("text-align", "[[]]"),
        Err(DynamicCssParseError::EmptyBraces)
    );

    assert_eq!(
        determine_static_or_dynamic_css_property("text-align", "[[ center ]]"),
        Err(DynamicCssParseError::NoId)
    );

    assert_eq!(
        determine_static_or_dynamic_css_property("text-align", "[[ hello |  ]]"),
        Err(DynamicCssParseError::NoDefaultCase)
    );

    // debatable if this is a suitable error for this case:
    assert_eq!(
        determine_static_or_dynamic_css_property("text-align", "[[ |  ]]"),
        Err(DynamicCssParseError::EmptyBraces)
    );
}

#[test]
fn unclosed_braces_right_side_only() {
    assert_eq!(
        determine_static_or_dynamic_css_property("text-align", "400px ]]"),
        Err(DynamicCssParseError::UnclosedBraces)
    );
}

#[test]
fn dynamic_with_empty_id_reports_no_id() {
    assert_eq!(
        determine_static_or_dynamic_css_property("text-align", "[[ | center ]]"),
        Err(DynamicCssParseError::NoId)
    );
}

#[test]
fn static_value_for_unknown_key_is_unexpected_value() {
    assert_eq!(
        determine_static_or_dynamic_css_property("flavor", "sweet"),
        Err(DynamicCssParseError::UnexpectedValue(CssParsingError::UnsupportedProperty(
            "flavor".to_string()
        )))
    );
}

#[test]
fn nested_braces_are_stripped_on_both_sides() {
    assert_eq!(
        determine_static_or_dynamic_css_property("width", "[[[[ w | 10px ]]]]"),
        Ok(CssDeclaration::Dynamic(DynamicCssProperty {
            dynamic_id: "w".to_string(),
            default: ParsedCssProperty::Width(dyncss::props::PixelValue {
                metric: dyncss::props::SizeMetric::Px,
                number: 10,
            }),
        }))
    );
}

#[test]
fn declaration_inheritability_follows_property_kind() {
    let align = determine_static_or_dynamic_css_property("text-align", "center").unwrap();
    assert!(align.is_inheritable());
    let width = determine_static_or_dynamic_css_property("width", "10px").unwrap();
    assert!(!width.is_inheritable());
    let dynamic = determine_static_or_dynamic_css_property("color", "[[ c | red ]]").unwrap();
    assert!(dynamic.is_inheritable());
    if let CssDeclaration::Dynamic(d) = &dynamic {
        assert!(d.is_inheritable());
    } else {
        panic!("expected a dynamic declaration");
    }
}
