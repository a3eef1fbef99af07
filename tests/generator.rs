use jellyschema::compiler::{compile, validate, SourceSchema};
use jellyschema::error::DecodeError;
use jellyschema::generator::Generator;
use jellyschema::json::Json;
use jellyschema::yaml::Yaml;

fn text(s: &str) -> Yaml {
    Yaml::Str(s.to_string())
}

fn mapping(entries: Vec<(&str, Yaml)>) -> Yaml {
    Yaml::Mapping(entries.into_iter().map(|(k, v)| (k.to_string(), v)).collect())
}

fn texts(j: &Json) -> Vec<String> {
    match j {
        Json::Array(a) => a.iter().map(|x| x.as_str().unwrap().to_string()).collect(),
        _ => panic!("not an array"),
    }
}

#[test]
fn hardcode_a_type() -> Result<(), DecodeError> {
    let generator = Generator::new(validate(SourceSchema::empty())?);

    let (json_schema, _) = generator.generate();

    assert_eq!(json_schema.get("type").and_then(|v| v.as_str()), Some("object"));
    Ok(())
}

#[test]
fn hardcode_a_schema_url() -> Result<(), DecodeError> {
    let generator = Generator::new(validate(SourceSchema::empty())?);

    let (json_schema, _) = generator.generate();

    assert_eq!(
        json_schema.get("$schema").and_then(|v| v.as_str()),
        Some("http://json-schema.org/draft-04/schema#")
    );
    Ok(())
}

#[test]
fn pass_title_through() -> Result<(), DecodeError> {
    let schema = validate(SourceSchema::with("some title", 1))?;
    let generator = Generator::new(schema);

    let (json_schema, _) = generator.generate();

    assert_eq!(json_schema.get("title").and_then(|v| v.as_str()), Some("some title"));
    Ok(())
}

#[test]
fn generate_ui_object() -> Result<(), DecodeError> {
    let generator = Generator::new(validate(SourceSchema::empty())?);

    let (_, ui_object) = generator.generate();

    assert!(ui_object.is_object());
    Ok(())
}

#[test]
fn generate_json_schema() -> Result<(), DecodeError> {
    let generator = Generator::new(validate(SourceSchema::empty())?);

    let (json_schema, _) = generator.generate();

    assert!(json_schema.is_object());
    Ok(())
}

#[test]
fn title_and_version_compile_without_properties() {
    let input = mapping(vec![("title", text("some title")), ("version", Yaml::Int(1))]);
    let (json_schema, ui_object) = Generator::with(input).unwrap().generate();
    assert_eq!(json_schema.get("type").and_then(|v| v.as_str()), Some("object"));
    assert_eq!(
        json_schema.get("$schema").and_then(|v| v.as_str()),
        Some("http://json-schema.org/draft-04/schema#")
    );
    assert_eq!(json_schema.get("title").and_then(|v| v.as_str()), Some("some title"));
    assert!(matches!(json_schema.get("$$version"), Some(Json::Uint(1))));
    assert!(json_schema.get("properties").is_none());
    assert!(json_schema.get("required").is_none());
    assert!(json_schema.get("$$order").is_none());
    match ui_object {
        Json::Object(members) => assert!(members.is_empty()),
        _ => panic!("the UI document is not an object"),
    }
}

#[test]
fn properties_keep_declaration_order() {
    let input = mapping(vec![(
        "properties",
        mapping(vec![
            ("name", mapping(vec![("type", text("string"))])),
            ("age", mapping(vec![("type", text("integer"))])),
        ]),
    )]);
    let (json_schema, _) = Generator::with(input).unwrap().generate();
    let expected = vec!["name".to_string(), "age".to_string()];
    assert_eq!(texts(json_schema.get("required").unwrap()), expected);
    assert_eq!(texts(json_schema.get("$$order").unwrap()), expected);
    match json_schema.get("properties").unwrap() {
        Json::Object(members) => {
            assert_eq!(members.len(), 2);
            assert_eq!(members[0].0, "name");
            assert_eq!(members[0].1.get("type").and_then(|v| v.as_str()), Some("string"));
            assert_eq!(members[1].0, "age");
            assert_eq!(members[1].1.get("type").and_then(|v| v.as_str()), Some("integer"));
        }
        _ => panic!("properties is not an object"),
    }
}

#[test]
fn missing_version_defaults_to_one_and_missing_title_to_empty() {
    let compiled = compile(mapping(vec![])).unwrap();
    assert_eq!(compiled.version, 1);
    assert_eq!(compiled.title, "");
    assert!(compiled.properties.is_none());
}

#[test]
fn duplicate_property_names_fail_validation() {
    let mut source = SourceSchema::with("t", 1);
    let props = match compile(mapping(vec![(
        "properties",
        mapping(vec![("a", mapping(vec![])), ("b", mapping(vec![]))]),
    )]))
    .unwrap()
    .properties
    {
        Some(p) => p,
        None => panic!("no properties"),
    };
    let mut props = props;
    props.property_names[1] = "a".to_string();
    props.properties[1].name = "a".to_string();
    source.properties = Some(props);
    assert!(matches!(validate(source), Err(DecodeError::DuplicateProperty(n)) if n == "a"));
}

#[test]
fn non_mapping_input_is_rejected() {
    assert!(matches!(compile(text("x")), Err(DecodeError::NotAMapping)));
}

#[test]
fn unknown_type_is_rejected() {
    let r = compile(mapping(vec![("type", text("colour"))]));
    assert!(matches!(r, Err(DecodeError::UnknownType(t)) if t == "colour"));
}
