use dyncss::css::{Css, CssParseError};
use dyncss::overrides::{FakeCss, OverrideMap};
use dyncss::dynamic::{CssDeclaration, DynamicCssParseError};
use dyncss::props::{ParsedCssProperty, PixelValue, SizeMetric, ColorU};
use dyncss::token::CssSyntaxError;

#[test]
fn empty_css_has_no_rules() {
    let css = Css::empty();
    assert!(css.rules.is_empty());
    assert!(!css.needs_relayout);
    assert!(css.hot_reload_path.is_none());
    assert!(!css.hot_reload_override_native);
}

#[test]
fn parsing_empty_text_gives_no_rules_but_forces_relayout() {
    let css = Css::new_from_str("").unwrap();
    assert!(css.rules.is_empty());
    assert!(css.needs_relayout);
}

#[test]
fn stylesheet_two_rules_sorted_classes() {
    let css = Css::new_from_str("#a { width: 10px; } .b.a { color: red; }").unwrap();
    assert_eq!(css.rules.len(), 2);

    let first = &css.rules[0];
    assert_eq!(first.html_type, "*");
    assert_eq!(first.id, Some("a".to_string()));
    assert!(first.classes.is_empty());
    assert_eq!(first.declaration.0, "width");
    assert_eq!(
        first.declaration.1,
        CssDeclaration::Static(ParsedCssProperty::Width(PixelValue {
            metric: SizeMetric::Px,
            number: 10,
        }))
    );

    let second = &css.rules[1];
    assert_eq!(second.html_type, "*");
    assert_eq!(second.id, None);
    assert_eq!(second.classes, vec!["a".to_string(), "b".to_string()]);
    assert_eq!(second.declaration.0, "color");
    assert_eq!(
        second.declaration.1,
        CssDeclaration::Static(ParsedCssProperty::TextColor(ColorU {
            r: 255,
            g: 0,
            b: 0,
            a: 255,
        }))
    );

    assert!(css.needs_relayout);
    assert!(css.rules[0].needs_relayout());
}

#[test]
fn duplicate_classes_are_deduplicated() {
    let css = Css::new_from_str(".b.a.b.a { width: 10px; }").unwrap();
    assert_eq!(css.rules.len(), 1);
    assert_eq!(css.rules[0].classes, vec!["a".to_string(), "b".to_string()]);
}

#[test]
fn selector_resets_between_blocks() {
    let css = Css::new_from_str("div#x.c { width: 1px; } span { width: 2px; }").unwrap();
    assert_eq!(css.rules.len(), 2);
    assert_eq!(css.rules[0].html_type, "div");
    assert_eq!(css.rules[0].id, Some("x".to_string()));
    assert_eq!(css.rules[0].classes, vec!["c".to_string()]);
    assert_eq!(css.rules[1].html_type, "span");
    assert_eq!(css.rules[1].id, None);
    assert!(css.rules[1].classes.is_empty());
}

#[test]
fn dynamic_declaration_in_stylesheet() {
    let css = Css::new_from_str("#a { width: [[ my_width | 10px ]]; }").unwrap();
    assert_eq!(css.rules.len(), 1);
    match &css.rules[0].declaration.1 {
        CssDeclaration::Dynamic(d) => {
            assert_eq!(d.dynamic_id, "my_width");
            assert_eq!(
                d.default,
                ParsedCssProperty::Width(PixelValue { metric: SizeMetric::Px, number: 10 })
            );
        },
        CssDeclaration::Static(_) => panic!("expected a dynamic declaration"),
    }
}

#[test]
fn pseudo_class_declarations_are_skipped() {
    let css = Css::new_from_str("#a:hover { width: 10px; }").unwrap();
    assert!(css.rules.is_empty());
}

#[test]
fn unclosed_block_is_reported() {
    let r = Css::new_from_str("#a {");
    assert_eq!(r.unwrap_err(), CssParseError::UnclosedBlock);
}

#[test]
fn input_ending_inside_a_declaration_is_a_tokenizer_error() {
    let r = Css::new_from_str("#a { width: 10px;");
    assert!(matches!(
        r,
        Err(CssParseError::ParseError(CssSyntaxError::UnexpectedEndOfStream(_)))
    ));
}

#[test]
fn trailing_whitespace_is_tolerated() {
    let css = Css::new_from_str("#a { width: 10px; }\n").unwrap();
    assert_eq!(css.rules.len(), 1);

    let r = Css::new_from_str("#a {\n");
    assert_eq!(r.unwrap_err(), CssParseError::UnclosedBlock);
}

#[test]
fn comments_are_skipped() {
    let css = Css::new_from_str("#a { /* note */ width: 10px; }").unwrap();
    assert_eq!(css.rules.len(), 1);
    assert_eq!(css.rules[0].declaration.0, "width");
}

#[test]
fn tokenizer_error_is_wrapped() {
    let r = Css::new_from_str("@media screen { }");
    assert!(matches!(
        r,
        Err(CssParseError::ParseError(CssSyntaxError::UnsupportedToken(_)))
    ));
}

#[test]
fn non_ascii_input_is_rejected_up_front() {
    let r = Css::new_from_str("#a { width: 10px; } \u{e9}");
    assert!(matches!(
        r,
        Err(CssParseError::ParseError(CssSyntaxError::NonAscii(_)))
    ));
}

#[test]
fn dynamic_grammar_error_is_wrapped() {
    let r = Css::new_from_str("#a { width: [[ ]]; }");
    assert_eq!(
        r.unwrap_err(),
        CssParseError::DynamicCssParseError(DynamicCssParseError::EmptyBraces)
    );
}

#[test]
fn bad_static_value_is_wrapped_as_dynamic_error() {
    let r = Css::new_from_str("#a { width: banana; }");
    assert!(matches!(
        r,
        Err(CssParseError::DynamicCssParseError(DynamicCssParseError::UnexpectedValue(_)))
    ));
}

#[test]
fn round_trip_static_stylesheet() {
    let source = "#a { width: 10px; } .b.a { color: red; } div { text-align: center; }";
    let css = Css::new_from_str(source).unwrap();

    let mut rebuilt = String::new();
    for rule in &css.rules {
        let mut selector = String::new();
        if rule.html_type != "*" {
            selector.push_str(&rule.html_type);
        }
        if let Some(id) = &rule.id {
            selector.push('#');
            selector.push_str(id);
        }
        for class in &rule.classes {
            selector.push('.');
            selector.push_str(class);
        }
        if selector.is_empty() {
            selector.push('*');
        }
        let value = match &rule.declaration.1 {
            CssDeclaration::Static(p) => serialize_prop(p),
            CssDeclaration::Dynamic(_) => panic!("static stylesheet expected"),
        };
        rebuilt.push_str(&format!("{} {{ {}: {}; }}\n", selector, rule.declaration.0, value));
    }

    let css2 = Css::new_from_str(&rebuilt).unwrap();
    assert_eq!(css.rules, css2.rules);
}

fn serialize_prop(p: &ParsedCssProperty) -> String {
    match p {
        ParsedCssProperty::Width(px)
        | ParsedCssProperty::Height(px)
        | ParsedCssProperty::MinWidth(px)
        | ParsedCssProperty::MinHeight(px)
        | ParsedCssProperty::MaxWidth(px)
        | ParsedCssProperty::MaxHeight(px) => {
            let unit = match px.metric {
                SizeMetric::Px => "px",
                SizeMetric::Pt => "pt",
                SizeMetric::Em => "em",
            };
            format!("{}{}", px.number, unit)
        },
        ParsedCssProperty::TextAlign(a) => match a {
            dyncss::props::TextAlignmentHorz::Left => "left".to_string(),
            dyncss::props::TextAlignmentHorz::Center => "center".to_string(),
            dyncss::props::TextAlignmentHorz::Right => "right".to_string(),
        },
        ParsedCssProperty::TextColor(c) => {
            format!("#{:02x}{:02x}{:02x}", c.r, c.g, c.b)
        },
    }
}

#[test]
fn reload_failure_preserves_state() {
    let mut css = Css::new_from_str("#a { width: 10px; }").unwrap();
    css.hot_reload_path = Some("style.css".to_string());
    css.dynamic_css_overrides.insert(
        "x".to_string(),
        ParsedCssProperty::Width(PixelValue { metric: SizeMetric::Px, number: 7 }),
    );
    let before = css.clone();

    let r = css.reload_from_str("#a {");
    assert_eq!(r.unwrap_err(), CssParseError::UnclosedBlock);
    assert_eq!(css, before);

    let r2 = css.reload_from_str("#a { width: banana; }");
    assert!(r2.is_err());
    assert_eq!(css, before);
}

#[test]
fn reload_success_preserves_overrides_and_path() {
    let mut css = Css::new_from_str("#a { width: 10px; }").unwrap();
    css.hot_reload_path = Some("style.css".to_string());
    css.hot_reload_override_native = true;
    css.dynamic_css_overrides.insert(
        "x".to_string(),
        ParsedCssProperty::Width(PixelValue { metric: SizeMetric::Px, number: 7 }),
    );

    css.reload_from_str("#b { height: 20px; }").unwrap();
    assert_eq!(css.rules.len(), 1);
    assert_eq!(css.rules[0].id, Some("b".to_string()));
    assert!(css.needs_relayout);
    assert_eq!(css.hot_reload_path, Some("style.css".to_string()));
    assert!(css.hot_reload_override_native);
    assert!(matches!(
        css.dynamic_css_overrides.get("x"),
        Some(ParsedCssProperty::Width(_))
    ));
}

#[test]
fn fake_css_set_and_clear() {
    let mut fake = FakeCss::default();
    fake.set_dynamic_property("my_id", "width", "10px").unwrap();
    assert!(matches!(
        fake.dynamic_css_overrides.get("my_id"),
        Some(ParsedCssProperty::Width(_))
    ));

    let err = fake.set_dynamic_property("other", "width", "banana");
    assert!(err.is_err());
    assert!(fake.dynamic_css_overrides.get("other").is_none());

    fake.clear();
    assert!(fake.dynamic_css_overrides.get("my_id").is_none());
}

#[test]
fn resolution_prefers_override_and_falls_back_to_default() {
    let css = Css::new_from_str("#a { width: [[ w | 10px ]]; height: 3px; }").unwrap();
    let mut overrides = OverrideMap::new();

    let dynamic = &css.rules[0].declaration.1;
    let fixed = &css.rules[1].declaration.1;

    assert_eq!(
        dyncss::overrides::resolve_declaration(dynamic, &overrides),
        ParsedCssProperty::Width(PixelValue { metric: SizeMetric::Px, number: 10 })
    );
    overrides.insert(
        "w".to_string(),
        ParsedCssProperty::Width(PixelValue { metric: SizeMetric::Px, number: 99 }),
    );
    assert_eq!(
        dyncss::overrides::resolve_declaration(dynamic, &overrides),
        ParsedCssProperty::Width(PixelValue { metric: SizeMetric::Px, number: 99 })
    );
    assert_eq!(
        dyncss::overrides::resolve_declaration(fixed, &overrides),
        ParsedCssProperty::Height(PixelValue { metric: SizeMetric::Px, number: 3 })
    );
}

#[test]
fn error_conversions_wrap_the_inner_error() {
    let parse_err = dyncss::props::CssParsingError::UnsupportedProperty("flavor".to_string());
    assert_eq!(
        DynamicCssParseError::from(parse_err.clone()),
        DynamicCssParseError::UnexpectedValue(parse_err.clone())
    );
    assert_eq!(
        CssParseError::from(parse_err.clone()),
        CssParseError::UnexpectedValue(parse_err.clone())
    );
    let dyn_err = DynamicCssParseError::EmptyBraces;
    assert_eq!(
        CssParseError::from(dyn_err.clone()),
        CssParseError::DynamicCssParseError(DynamicCssParseError::EmptyBraces)
    );
}

#[test]
fn override_map_later_insert_shadows_earlier() {
    let mut map = OverrideMap::new();
    map.insert(
        "a".to_string(),
        ParsedCssProperty::Width(PixelValue { metric: SizeMetric::Px, number: 1 }),
    );
    map.insert(
        "a".to_string(),
        ParsedCssProperty::Width(PixelValue { metric: SizeMetric::Px, number: 2 }),
    );
    match map.get("a") {
        Some(ParsedCssProperty::Width(px)) => assert_eq!(px.number, 2),
        _ => panic!("expected the later width override"),
    }
    map.clear();
    assert!(map.get("a").is_none());
}
