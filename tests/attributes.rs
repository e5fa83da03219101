use formidable::attributes::{
    enum_class, struct_layout, variant_selector, AttrValue, AttributeError, FieldAttributes,
    SectionLayout, VariantSelector,
};

fn text(text: &str) -> AttrValue {
    AttrValue::Str(text.to_string())
}

fn integer(digits: &str) -> AttrValue {
    AttrValue::Int(digits.to_string())
}

#[test]
fn attributes_read_known_keys() {
    let attrs = FieldAttributes::from_pairs(vec![
        ("label".to_string(), text("Street")),
        ("description".to_string(), text("Where you live")),
        ("class".to_string(), text("special-input")),
        ("colspan".to_string(), integer("8")),
        ("columns".to_string(), integer("12")),
        ("placeholder".to_string(), text("Main St")),
        ("render_as".to_string(), text("paginate")),
        ("unknown".to_string(), text("ignored")),
    ]);
    assert!(matches!(attrs.label, Some(AttrValue::Str(ref l)) if l == "Street"));
    assert_eq!(attrs.class.as_deref(), Some("special-input"));
    assert_eq!(attrs.colspan, Some(8));
    assert_eq!(attrs.columns, Some(12));
    assert_eq!(attrs.placeholder.as_deref(), Some("Main St"));
    assert_eq!(attrs.render_as.as_deref(), Some("paginate"));
}

#[test]
fn attributes_ignore_values_of_the_wrong_kind() {
    let attrs = FieldAttributes::from_pairs(vec![
        ("class".to_string(), integer("3")),
        ("colspan".to_string(), text("8")),
        ("columns".to_string(), integer("4294967296")),
        ("render_as".to_string(), AttrValue::Other),
    ]);
    assert_eq!(attrs.class, None);
    assert_eq!(attrs.colspan, None);
    assert_eq!(attrs.columns, None);
    assert_eq!(attrs.render_as, None);
}

#[test]
fn later_attributes_override_earlier_ones() {
    let attrs = FieldAttributes::from_pairs(vec![
        ("colspan".to_string(), integer("2")),
        ("colspan".to_string(), integer("4294967295")),
    ]);
    assert_eq!(attrs.colspan, Some(4294967295));
}

#[test]
fn field_configuration_needs_a_string_label() {
    let attrs = FieldAttributes::from_pairs(vec![
        ("label".to_string(), text("Name")),
        ("colspan".to_string(), integer("2")),
    ]);
    let config = attrs.to_field_configuration().ok().unwrap();
    assert_eq!(config.label.as_deref(), Some("Name"));
    assert_eq!(config.description, None);
    assert_eq!(config.colspan, Some(2));

    let missing = FieldAttributes::from_pairs(vec![("description".to_string(), text("d"))]);
    assert!(matches!(missing.to_field_configuration(), Err(AttributeError::MissingLabel)));

    let expr = FieldAttributes::from_pairs(vec![("label".to_string(), AttrValue::Other)]);
    assert!(matches!(expr.to_field_configuration(), Err(AttributeError::UnsupportedExpression)));

    let number = FieldAttributes::from_pairs(vec![
        ("label".to_string(), text("x")),
        ("description".to_string(), integer("2")),
    ]);
    assert!(matches!(number.to_field_configuration(), Err(AttributeError::UnsupportedExpression)));
}

#[test]
fn layouts_and_selectors_follow_render_as() {
    assert_eq!(struct_layout(None).ok(), Some(SectionLayout::Section));
    assert_eq!(struct_layout(Some("section".to_string())).ok(), Some(SectionLayout::Section));
    assert_eq!(struct_layout(Some("paginate".to_string())).ok(), Some(SectionLayout::Paginated));
    match struct_layout(Some("grid".to_string())) {
        Err(e) => assert_eq!(e.to_string(), "Unsupported render_as type: grid"),
        Ok(_) => panic!("expected an error"),
    }
    assert_eq!(variant_selector(None).ok(), Some(VariantSelector::Radio));
    assert_eq!(variant_selector(Some("select".to_string())).ok(), Some(VariantSelector::Select));
    assert!(variant_selector(Some("tabs".to_string())).is_err());
}

#[test]
fn enum_class_prefixes_enum() {
    assert_eq!(enum_class(None), "enum");
    assert_eq!(enum_class(Some("payment".to_string())), "enum payment");
    assert_eq!(AttributeError::MissingLabel.to_string(), "Label is required");
    assert_eq!(
        AttributeError::UnsupportedExpression.to_string(),
        "Only string literals are supported"
    );
}
