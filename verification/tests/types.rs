use kopium::analyzer::{analyze_enum_properties, extract_container};
use kopium::text::{chars_of, contains, contains_char, ends_with, starts_with, str_eq, string_of};
use kopium::{
    AnalysisError, Config, Issue, JsonNumber, JsonValue, MapType, Primitive, Property, SchemaNode,
    TypeRef, WellKnown,
};

#[test]
fn types_are_written_as_in_source() {
    let nested = TypeRef::optional(TypeRef::map_of(TypeRef::list_of(TypeRef::reference(
        "AgentInfo".to_string(),
    ))));
    assert_eq!(nested.render(MapType::BTreeMap), "Option<BTreeMap<String, Vec<AgentInfo>>>");
    assert_eq!(nested.render(MapType::HashMap), "Option<HashMap<String, Vec<AgentInfo>>>");
    assert_eq!(TypeRef::opaque().render(MapType::BTreeMap), "serde_json::Value");
    assert_eq!(
        TypeRef::well_known(WellKnown::IntOrString).render(MapType::BTreeMap),
        "IntOrString"
    );
    assert_eq!(TypeRef::well_known(WellKnown::Condition).render(MapType::BTreeMap), "Condition");
    assert_eq!(
        TypeRef::well_known(WellKnown::ObjectReference).render(MapType::BTreeMap),
        "ObjectReference"
    );
    let names = [
        (Primitive::String, "String"),
        (Primitive::Bool, "bool"),
        (Primitive::F32, "f32"),
        (Primitive::F64, "f64"),
        (Primitive::I8, "i8"),
        (Primitive::I16, "i16"),
        (Primitive::I32, "i32"),
        (Primitive::I64, "i64"),
        (Primitive::I128, "i128"),
        (Primitive::U8, "u8"),
        (Primitive::U16, "u16"),
        (Primitive::U32, "u32"),
        (Primitive::U64, "u64"),
        (Primitive::U128, "u128"),
        (Primitive::Date, "NaiveDate"),
        (Primitive::DateTime, "DateTime<Utc>"),
    ];
    for (primitive, name) in names {
        assert_eq!(primitive.name(), name);
        assert_eq!(TypeRef::primitive(primitive).render(MapType::HashMap), name);
    }
    assert_eq!(MapType::default(), MapType::BTreeMap);
    assert_eq!(MapType::HashMap.name(), "HashMap");
}

#[test]
fn an_error_says_what_and_where() {
    let error = AnalysisError {
        issue: Issue::UnknownType,
        stack: "KindSpec".to_string(),
        key: "x".to_string(),
    };
    assert_eq!(error.message(), "unknown type for x (under KindSpec)");
    assert_eq!(Issue::TooDeep.describe(), "more than 255 levels of nesting");
    assert_eq!(Issue::MissingItems.describe(), "missing items in array type");
}

#[test]
fn a_container_is_extracted_with_its_array_levels() {
    let string = || SchemaNode { type_: Some("string".to_string()), ..SchemaNode::default() };
    let array_of = |items: SchemaNode| SchemaNode {
        type_: Some("array".to_string()),
        items: Some(kopium::SchemaOrArray::Schema(Box::new(items))),
        ..SchemaNode::default()
    };
    let props = vec![
        Property { name: "a".to_string(), schema: string() },
        Property { name: "b".to_string(), schema: array_of(array_of(string())) },
        Property { name: "c".to_string(), schema: array_of(string()) },
    ];
    let holder = SchemaNode { required: Some(vec!["c".to_string()]), ..SchemaNode::default() };
    let owner = SchemaNode { description: Some("words".to_string()), ..SchemaNode::default() };
    let (container, levels) =
        extract_container(&props, "Stack", 3, &holder, &owner, &Config::default()).unwrap();
    assert_eq!(levels, vec![None, Some(2), Some(1)]);
    assert_eq!(container.name, "Stack");
    assert_eq!(container.level, 3);
    assert_eq!(container.docs, Some("words".to_string()));
    assert!(!container.is_enum);
    let types: Vec<&str> = container.members.iter().map(|m| m.type_.as_str()).collect();
    assert_eq!(types, vec!["Option<String>", "Option<Vec<Vec<String>>>", "Vec<String>"]);
}

#[test]
fn an_enum_is_made_of_its_values() {
    let values = vec![
        JsonValue::Number(JsonNumber::PosInt(18446744073709551615)),
        JsonValue::Number(JsonNumber::PosInt(7)),
    ];
    let owner = SchemaNode { description: Some("of the owner".to_string()), ..SchemaNode::default() };
    let container = analyze_enum_properties(&values, "KindCode", 4, &owner, "Kind", "code").unwrap();
    assert!(container.is_enum);
    assert_eq!(container.name, "KindCode");
    assert_eq!(container.level, 4);
    assert_eq!(container.docs, Some("of the owner".to_string()));
    let names: Vec<&str> = container.members.iter().map(|m| m.name.as_str()).collect();
    assert_eq!(names, vec!["18446744073709551615", "7"]);
    assert!(container.members.iter().all(|m| m.type_.is_empty() && m.serde_annot.is_empty()));
    let error = analyze_enum_properties(&vec![JsonValue::Null], "N", 0, &owner, "Kind", "code")
        .err()
        .unwrap();
    assert_eq!(error.issue, Issue::UnsupportedVariant);
    assert_eq!((error.stack.as_str(), error.key.as_str()), ("Kind", "code"));
}

#[test]
fn texts_are_searched_by_characters() {
    assert!(str_eq("héllo", "héllo"));
    assert!(!str_eq("héllo", "hello"));
    assert!(!str_eq("a", "ab"));
    assert!(starts_with("Option<String>", "Option<"));
    assert!(!starts_with("Opt", "Option<"));
    assert!(starts_with("anything", ""));
    assert!(ends_with("ThingSpec", "Spec"));
    assert!(!ends_with("Spec2", "Spec"));
    assert!(!ends_with("pec", "Spec"));
    assert!(contains("Option<BTreeMap<String, String>>", "BTreeMap"));
    assert!(!contains("Option<HashMap<String, String>>", "BTreeMap"));
    assert!(contains("abc", ""));
    assert!(contains("", ""));
    assert!(!contains("", "a"));
    assert!(contains("ééa", "éa"));
    assert!(contains_char("Vec<u8>", '<'));
    assert!(!contains_char("String", '<'));
    assert_eq!(string_of(&chars_of("añb")), "añb");
    assert_eq!(chars_of("añb"), vec!['a', 'ñ', 'b']);
}
