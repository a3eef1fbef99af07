use jellyschema::bounds::{
    deserialize_boolean_object_bounds, deserialize_integer_bounds, deserialize_length_bounds,
    deserialize_string_object_bounds, BooleanObjectBounds, EnumerationValue, IntegerBound, StringObjectBounds,
};
use jellyschema::error::DecodeError;
use jellyschema::schema::{PrimitiveType, Schema};
use jellyschema::yaml::{Mapping, Yaml};

fn text(s: &str) -> Yaml {
    Yaml::Str(s.to_string())
}

fn entries(e: Vec<(&str, Yaml)>) -> Mapping {
    e.into_iter().map(|(k, v)| (k.to_string(), v)).collect()
}

fn colours() -> Yaml {
    Yaml::Sequence(vec![text("red"), text("green")])
}

#[test]
fn enum_and_const_together_fail() {
    let m = entries(vec![("enum", colours()), ("const", text("red"))]);
    assert!(matches!(deserialize_string_object_bounds(&m), Err(DecodeError::EnumAndConst)));
}

#[test]
fn enum_with_pattern_fails() {
    let m = entries(vec![("enum", colours()), ("pattern", text("^r"))]);
    assert!(matches!(deserialize_string_object_bounds(&m), Err(DecodeError::PatternAndPossibleValues)));
}

#[test]
fn const_with_pattern_fails() {
    let m = entries(vec![("const", text("red")), ("pattern", text("^r"))]);
    assert!(matches!(deserialize_string_object_bounds(&m), Err(DecodeError::PatternAndPossibleValues)));
}

#[test]
fn enum_with_length_fails() {
    let m = entries(vec![("enum", colours()), ("minLength", Yaml::Int(1))]);
    assert!(matches!(deserialize_string_object_bounds(&m), Err(DecodeError::LengthAndPossibleValues)));
    let m = entries(vec![("const", text("red")), ("maxLength", Yaml::Int(4))]);
    assert!(matches!(deserialize_string_object_bounds(&m), Err(DecodeError::LengthAndPossibleValues)));
}

#[test]
fn empty_enum_is_rejected() {
    let m = entries(vec![("enum", Yaml::Sequence(vec![])), ("const", text("red"))]);
    assert!(matches!(deserialize_string_object_bounds(&m), Err(DecodeError::EmptyEnum)));
    let m = entries(vec![("enum", Yaml::Sequence(vec![]))]);
    assert!(matches!(deserialize_string_object_bounds(&m), Err(DecodeError::EmptyEnum)));
    let m = entries(vec![("enum", Yaml::Sequence(vec![])), ("minLength", Yaml::Int(1))]);
    assert!(matches!(deserialize_string_object_bounds(&m), Err(DecodeError::EmptyEnum)));
}

#[test]
fn pattern_wins_over_nothing_and_length_stands_alone() {
    let m = entries(vec![("pattern", text("^[a-z]+$"))]);
    assert!(matches!(deserialize_string_object_bounds(&m), Ok(Some(StringObjectBounds::Pattern(p))) if p == "^[a-z]+$"));
    let m = entries(vec![("minLength", Yaml::Int(2)), ("maxLength", Yaml::Int(5))]);
    match deserialize_length_bounds(&m) {
        Ok(Some(StringObjectBounds::Length(l))) => {
            assert_eq!(l.minimum, Some(2));
            assert_eq!(l.maximum, Some(5));
        }
        _ => panic!("expected a length bound"),
    }
    assert!(matches!(deserialize_string_object_bounds(&entries(vec![])), Ok(None)));
}

#[test]
fn invalid_pattern_reports_the_engine() {
    let m = entries(vec![("pattern", text("foo(bar"))]);
    match deserialize_string_object_bounds(&m) {
        Err(DecodeError::InvalidPattern(p, reason)) => {
            assert_eq!(p, "foo(bar");
            assert!(!reason.is_empty());
        }
        _ => panic!("expected an invalid pattern"),
    }
    let m = entries(vec![("pattern", Yaml::Int(3))]);
    assert!(matches!(deserialize_string_object_bounds(&m), Err(DecodeError::PatternNotString(Some(v))) if v == "3"));
}

#[test]
fn integer_const_becomes_its_decimal_text() {
    let m = entries(vec![("const", Yaml::Int(-42))]);
    match deserialize_string_object_bounds(&m) {
        Ok(Some(StringObjectBounds::PossibleValues(v))) => assert_eq!(v[0].value.as_deref(), Some("-42")),
        _ => panic!("expected one possible value"),
    }
    let m = entries(vec![("const", Yaml::Bool(true))]);
    match deserialize_string_object_bounds(&m) {
        Ok(Some(StringObjectBounds::PossibleValues(v))) => assert_eq!(v[0].value.as_deref(), Some("true")),
        _ => panic!("expected one possible value"),
    }
    let m = entries(vec![("const", Yaml::Sequence(vec![]))]);
    assert!(matches!(deserialize_string_object_bounds(&m), Err(DecodeError::ConstNotScalar)));
}

#[test]
fn inclusive_and_exclusive_endpoint_fail() {
    let m = entries(vec![("minimum", Yaml::Int(1)), ("exclusiveMinimum", Yaml::Int(0))]);
    assert!(matches!(deserialize_integer_bounds(&m), Err(DecodeError::InclusiveAndExclusive(k)) if k == "minimum"));
    let m = entries(vec![("maximum", Yaml::Int(9)), ("exclusiveMaximum", Yaml::Int(10))]);
    assert!(matches!(deserialize_integer_bounds(&m), Err(DecodeError::InclusiveAndExclusive(k)) if k == "maximum"));
}

#[test]
fn integer_bounds_decode() {
    let m = entries(vec![("exclusiveMinimum", Yaml::Int(0)), ("maximum", Yaml::Int(10)), ("multipleOf", Yaml::Int(2))]);
    let b = deserialize_integer_bounds(&m).unwrap().unwrap();
    assert_eq!(b.minimum, Some(IntegerBound::Exclusive(0)));
    assert_eq!(b.maximum, Some(IntegerBound::Inclusive(10)));
    assert_eq!(b.multiple_of, Some(2));
    assert!(deserialize_integer_bounds(&entries(vec![])).unwrap().is_none());
    let m = entries(vec![("minimum", text("one"))]);
    assert!(matches!(deserialize_integer_bounds(&m), Err(DecodeError::NotAnInteger(k)) if k == "minimum"));
}

#[test]
fn boolean_default_decodes() {
    let m = entries(vec![("default", Yaml::Bool(true))]);
    assert_eq!(deserialize_boolean_object_bounds(&m).unwrap(), Some(BooleanObjectBounds::DefaultValue(true)));
    let m = entries(vec![("default", text("yes"))]);
    assert!(matches!(deserialize_boolean_object_bounds(&m), Err(DecodeError::DefaultNotBoolean(Some(v))) if v == "yes"));
    let m = entries(vec![("default", Yaml::Int(1))]);
    assert!(matches!(deserialize_boolean_object_bounds(&m), Err(DecodeError::DefaultNotBoolean(Some(v))) if v == "1"));
    let m = entries(vec![("default", Yaml::Sequence(vec![]))]);
    assert!(matches!(deserialize_boolean_object_bounds(&m), Err(DecodeError::DefaultNotBoolean(None))));
    assert_eq!(deserialize_boolean_object_bounds(&entries(vec![])).unwrap(), None);
}

#[test]
fn bare_entry_normalizes_title_from_value() {
    let mut e = EnumerationValue::from_str("red");
    e.normalize();
    assert_eq!(e.value.as_deref(), Some("red"));
    assert_eq!(e.display_information.title.as_deref(), Some("red"));
}

#[test]
fn structured_entry_is_kept_by_normalization() {
    let m = entries(vec![(
        "enum",
        Yaml::Sequence(vec![Yaml::Mapping(entries(vec![("value", text("r")), ("title", text("Red"))]))]),
    )]);
    let mut b = deserialize_string_object_bounds(&m).unwrap().unwrap();
    b.normalize();
    b.normalize();
    match b {
        StringObjectBounds::PossibleValues(v) => {
            assert_eq!(v[0].value.as_deref(), Some("r"));
            assert_eq!(v[0].display_information.title.as_deref(), Some("Red"));
        }
        _ => panic!("expected possible values"),
    }
}

#[test]
fn title_only_entry_gets_value_from_title() {
    let mut e = EnumerationValue::from_str("x");
    e.value = None;
    e.display_information.title = Some("Blue".to_string());
    e.normalize();
    assert_eq!(e.value.as_deref(), Some("Blue"));
    let before = (e.value.clone(), e.display_information.title.clone());
    e.normalize();
    assert_eq!((e.value.clone(), e.display_information.title.clone()), before);
}

#[test]
fn structured_entry_without_value_fails() {
    let m = entries(vec![("enum", Yaml::Sequence(vec![Yaml::Mapping(entries(vec![("title", text("Red"))]))]))]);
    assert!(matches!(deserialize_string_object_bounds(&m), Err(DecodeError::MissingEnumValue)));
}

#[test]
fn malformed_enum_entries_fail() {
    let m = entries(vec![("enum", text("red"))]);
    assert!(matches!(deserialize_string_object_bounds(&m), Err(DecodeError::EnumNotSequence(Some(v))) if v == "red"));
    let m = entries(vec![("enum", Yaml::Sequence(vec![Yaml::Int(1)]))]);
    assert!(matches!(deserialize_string_object_bounds(&m), Err(DecodeError::EnumEntryShape)));
    let m = entries(vec![("enum", Yaml::Sequence(vec![Yaml::Mapping(entries(vec![("value", Yaml::Int(1))]))]))]);
    assert!(matches!(deserialize_string_object_bounds(&m), Err(DecodeError::EnumValueNotString)));
    let m = entries(vec![(
        "enum",
        Yaml::Sequence(vec![Yaml::Mapping(entries(vec![("value", text("r")), ("title", Yaml::Null)]))]),
    )]);
    assert!(matches!(deserialize_string_object_bounds(&m), Err(DecodeError::EnumTitleNotString)));
}

#[test]
fn schema_reads_bounds_of_its_kind() {
    let node = Yaml::Mapping(entries(vec![("type", text("string")), ("enum", colours()), ("title", text("Colour"))]));
    let s = Schema::from_yaml(node).unwrap();
    assert_eq!(s.schema_type, PrimitiveType::String);
    assert!(matches!(s.string_bounds, Some(StringObjectBounds::PossibleValues(ref v)) if v.len() == 2));
    assert_eq!(s.title.as_deref(), Some("Colour"));
    let node = Yaml::Mapping(entries(vec![("type", text("object")), ("enum", colours()), ("pattern", text("^r"))]));
    assert!(Schema::from_yaml(node).unwrap().string_bounds.is_none());
    let node = Yaml::Mapping(entries(vec![("type", text("boolean")), ("default", text("no"))]));
    assert!(matches!(Schema::from_yaml(node), Err(DecodeError::DefaultNotBoolean(Some(v))) if v == "no"));
}

#[test]
fn schema_nesting_is_bounded() {
    let mut node = Yaml::Mapping(entries(vec![]));
    for _ in 0..100 {
        node = Yaml::Mapping(entries(vec![("keys", node)]));
    }
    assert!(matches!(Schema::from_yaml(node), Err(DecodeError::TooDeep)));
}

#[test]
fn schema_flags_and_items() {
    let node = Yaml::Mapping(entries(vec![
        ("type", text("array")),
        ("readOnly", Yaml::Bool(true)),
        ("orderable", Yaml::Bool(false)),
        ("maxItems", Yaml::Int(3)),
        ("items", Yaml::Sequence(vec![Yaml::Mapping(entries(vec![])), Yaml::Mapping(entries(vec![]))])),
    ]));
    let s = Schema::from_yaml(node).unwrap();
    assert!(s.read_only);
    assert!(!s.write_only);
    assert_eq!(s.orderable, Some(false));
    assert_eq!(s.addable, None);
    assert_eq!(s.max_items, Some(3));
    assert_eq!(s.items.len(), 2);
    let node = Yaml::Mapping(entries(vec![("hidden", text("yes"))]));
    assert!(matches!(Schema::from_yaml(node), Err(DecodeError::WrongShape(k)) if k == "hidden"));
}

#[test]
fn tree_normalization_reaches_children_and_is_idempotent() {
    let child = Yaml::Mapping(entries(vec![("type", text("string")), ("enum", colours())]));
    let node = Yaml::Mapping(entries(vec![
        ("enum", Yaml::Sequence(vec![text("a")])),
        ("properties", Yaml::Mapping(entries(vec![("colour", child)]))),
    ]));
    let mut s = Schema::from_yaml(node).unwrap();
    s.normalize();
    assert_eq!(s.enumeration()[0].display_information.title.as_deref(), Some("a"));
    let titles = |s: &Schema| -> Vec<Option<String>> {
        match &s.properties()[0].schema.string_bounds {
            Some(StringObjectBounds::PossibleValues(v)) => v.iter().map(|e| e.display_information.title.clone()).collect(),
            _ => panic!("expected possible values"),
        }
    };
    assert_eq!(titles(&s), vec![Some("red".to_string()), Some("green".to_string())]);
    s.normalize();
    assert_eq!(titles(&s), vec![Some("red".to_string()), Some("green".to_string())]);
    assert_eq!(s.properties()[0].name, "colour");
}

#[test]
fn schema_keeps_const_and_default_as_written() {
    let node = Yaml::Mapping(entries(vec![
        ("type", text("integer")),
        ("const", Yaml::Int(3)),
        ("default", Yaml::Int(4)),
        ("keys", Yaml::Mapping(entries(vec![("type", text("string"))]))),
    ]));
    let s = Schema::from_yaml(node).unwrap();
    assert!(matches!(s.constant(), Some(Yaml::Int(3))));
    assert!(matches!(s.default_value(), Some(Yaml::Int(4))));
    assert!(s.mapping().is_none());
    assert_eq!(s.keys().map(|k| k.schema_type()), Some(PrimitiveType::String));
    assert!(s.values().is_none());
}

#[test]
fn formula_takes_text_of_scalars() {
    let s = Schema::from_yaml(Yaml::Mapping(entries(vec![("formula", Yaml::Bool(true))]))).unwrap();
    assert_eq!(s.formula(), Some("true"));
    let s = Schema::from_yaml(Yaml::Mapping(entries(vec![("formula", Yaml::Int(12))]))).unwrap();
    assert_eq!(s.formula(), Some("12"));
    let s = Schema::from_yaml(Yaml::Mapping(entries(vec![("formula", text("a + b"))]))).unwrap();
    assert_eq!(s.formula(), Some("a + b"));
    let r = Schema::from_yaml(Yaml::Mapping(entries(vec![("formula", Yaml::Null)])));
    assert!(matches!(r, Err(DecodeError::WrongShape(k)) if k == "formula"));
}

#[test]
fn items_decode_one_or_many_in_order() {
    let one = Yaml::Mapping(entries(vec![("items", Yaml::Mapping(entries(vec![("type", text("string"))])))]));
    let s = Schema::from_yaml(one).unwrap();
    assert_eq!(s.items().len(), 1);
    assert_eq!(s.items()[0].schema_type(), PrimitiveType::String);
    let many = Yaml::Mapping(entries(vec![(
        "items",
        Yaml::Sequence(vec![
            Yaml::Mapping(entries(vec![("type", text("integer"))])),
            Yaml::Mapping(entries(vec![("type", text("boolean"))])),
        ]),
    )]));
    let s = Schema::from_yaml(many).unwrap();
    assert_eq!(s.items().len(), 2);
    assert_eq!(s.items()[0].schema_type(), PrimitiveType::Integer);
    assert_eq!(s.items()[1].schema_type(), PrimitiveType::Boolean);
    let bad = Yaml::Mapping(entries(vec![("items", Yaml::Int(1))]));
    assert!(matches!(Schema::from_yaml(bad), Err(DecodeError::WrongShape(k)) if k == "items"));
}

#[test]
fn extreme_integer_consts_keep_their_digits() {
    for (i, t) in [(i64::MIN, "-9223372036854775808"), (i64::MAX, "9223372036854775807"), (0, "0"), (10, "10")] {
        let m = entries(vec![("const", Yaml::Int(i))]);
        match deserialize_string_object_bounds(&m) {
            Ok(Some(StringObjectBounds::PossibleValues(v))) => assert_eq!(v[0].value.as_deref(), Some(t)),
            _ => panic!("expected one possible value"),
        }
    }
}
