use k8s_openapi::apiextensions_apiserver::pkg::apis::apiextensions::v1::{
    JSONSchemaProps, JSONSchemaPropsOrArray, JSONSchemaPropsOrBool, JSON,
};
use kopium::matching::{
    entries_are_equal, entries_are_subset, is_equal, is_exhaustive, is_subset, json_is_equal,
    json_is_subset, jsons_are_subset, strs_eq, strs_fit,
};
use kopium::{
    analyze, Config, Issue, JsonMember, JsonNumber, JsonValue, OverrideCompileError, Overrides,
    Property, PropertyAction, PropertyName, PropertyRule, PropertySchema, SchemaNode,
    SchemaOrArray, SchemaOrBool,
};

fn json_value(value: &serde_json::Value) -> JsonValue {
    match value {
        serde_json::Value::Null => JsonValue::Null,
        serde_json::Value::Bool(b) => JsonValue::Bool(*b),
        serde_json::Value::Number(n) => {
            if let Some(u) = n.as_u64() {
                JsonValue::Number(JsonNumber::PosInt(u))
            } else if let Some(i) = n.as_i64() {
                JsonValue::Number(JsonNumber::NegInt(i))
            } else {
                let f = n.as_f64().unwrap_or(0.0) + 0.0;
                JsonValue::Number(JsonNumber::Float(f.to_bits()))
            }
        }
        serde_json::Value::String(s) => JsonValue::String(s.clone()),
        serde_json::Value::Array(items) => JsonValue::Array(items.iter().map(json_value).collect()),
        serde_json::Value::Object(entries) => {
            let mut members: Vec<JsonMember> = entries
                .iter()
                .map(|(key, value)| JsonMember { key: key.clone(), value: json_value(value) })
                .collect();
            members.sort_by(|a, b| a.key.cmp(&b.key));
            JsonValue::Object(members)
        }
    }
}

fn schema_or_bool(value: &JSONSchemaPropsOrBool) -> SchemaOrBool {
    match value {
        JSONSchemaPropsOrBool::Schema(s) => SchemaOrBool::Schema(Box::new(schema_node(s))),
        JSONSchemaPropsOrBool::Bool(b) => SchemaOrBool::Bool(*b),
    }
}

fn schema_node(props: &JSONSchemaProps) -> SchemaNode {
    SchemaNode {
        type_: props.type_.clone(),
        format: props.format.clone(),
        description: props.description.clone(),
        enum_: props.enum_.as_ref().map(|values| values.iter().map(|JSON(v)| json_value(v)).collect()),
        items: props.items.as_ref().map(|items| match items {
            JSONSchemaPropsOrArray::Schema(s) => SchemaOrArray::Schema(Box::new(schema_node(s))),
            JSONSchemaPropsOrArray::Schemas(list) => {
                SchemaOrArray::Schemas(list.iter().map(schema_node).collect())
            }
        }),
        additional_items: props.additional_items.as_ref().map(schema_or_bool),
        properties: props.properties.as_ref().map(|map| {
            map.iter()
                .map(|(name, schema)| Property { name: name.clone(), schema: schema_node(schema) })
                .collect()
        }),
        additional_properties: props.additional_properties.as_ref().map(schema_or_bool),
        required: props.required.clone(),
        one_of: props.one_of.as_ref().map(|list| list.iter().map(schema_node).collect()),
        all_of: props.all_of.as_ref().map(|list| list.iter().map(schema_node).collect()),
        any_of: props.any_of.as_ref().map(|list| list.iter().map(schema_node).collect()),
        not: props.not.as_ref().map(|s| Box::new(schema_node(s))),
        x_kubernetes_int_or_string: props.x_kubernetes_int_or_string,
        x_kubernetes_preserve_unknown_fields: props.x_kubernetes_preserve_unknown_fields,
        x_kubernetes_map_type: props.x_kubernetes_map_type.clone(),
    }
}

fn parsed(schema_str: &str) -> SchemaNode {
    let schema: JSONSchemaProps = serde_yaml::from_str(schema_str).unwrap();
    schema_node(&schema)
}

fn flags(entries: &[(&str, bool)]) -> Vec<JsonMember> {
    let map: std::collections::BTreeMap<String, bool> =
        entries.iter().map(|(key, value)| (key.to_string(), *value)).collect();
    map.into_iter().map(|(key, value)| JsonMember { key, value: JsonValue::Bool(value) }).collect()
}

fn exact(name: &str) -> PropertyName {
    PropertyName::Exact(name.to_string())
}

fn regex(pattern: &str) -> PropertyName {
    PropertyName::Regex(pattern.to_string())
}

fn replace(match_name: Vec<PropertyName>, match_schema: Option<PropertySchema>, with: &str) -> PropertyRule {
    PropertyRule { match_name, match_schema, match_success: PropertyAction::Replace(with.to_string()) }
}

fn omit(match_name: Vec<PropertyName>, match_schema: Option<PropertySchema>) -> PropertyRule {
    PropertyRule { match_name, match_schema, match_success: PropertyAction::Omit }
}

fn typed(type_: &str) -> SchemaNode {
    SchemaNode { type_: Some(type_.to_string()), ..SchemaNode::default() }
}

fn action_of(overrides: &Overrides, name: &str, schema: &SchemaNode) -> Option<String> {
    overrides.get_property_action(name, schema).map(|action| match action {
        PropertyAction::Replace(with) => format!("replace {with}"),
        PropertyAction::Omit => "omit".to_string(),
    })
}

#[test]
fn test_btree_map() {
    let subset = flags(&[("foo", true), ("baz", true)]);
    let superset = flags(&[("foo", true), ("bar", true), ("baz", true)]);

    assert!(entries_are_equal(&superset, &superset), "identity should be exhaustive");
    assert!(
        entries_are_subset(&superset, &superset),
        "identity should be a non-proper subset"
    );

    assert!(
        !entries_are_equal(&subset, &superset),
        "subset should _not_ be exhaustive"
    );
    assert!(
        entries_are_subset(&subset, &superset),
        "subset should be a non-proper subset"
    );

    assert!(
        !entries_are_equal(&superset, &subset),
        "superset should _not_ be exhaustive"
    );
    assert!(
        !entries_are_subset(&superset, &subset),
        "subset should _not_ be a non-proper subset"
    );
}

#[test]
fn test_local_object_reference() {
    let subset = parsed(
        r#"
            type: array
            items:
              type: object
              properties:
                name:
                  type: string
            "#,
    );
    let superset = parsed(
        r#"
            type: array
            minItems: 1
            items:
              type: object
              properties:
                name:
                  type: string
                  pattern: "^[a-z0-9]{1,11}$"
                  description: "Name of the listener."
                port:
                  type: integer
                  minimum: 9092
                  description: "Port number used by the listener."
                type:
                  type: string
                  enum:
                  - internal
                  - cluster-ip
            "#,
    );

    assert!(
        !is_exhaustive(&subset, &superset),
        "expected exhaustive match failure, got success"
    );
    assert!(
        is_subset(&subset, &superset),
        "expected subset match success, got failure"
    );
}

#[test]
fn exhaustive_ignores_fields_that_do_not_decide_what_is_generated() {
    let plain = parsed("type: string\nenum: [a, b]\n");
    let described = parsed("type: string\nenum: [a, b]\ndescription: words\nformat: byte\n");
    assert!(is_exhaustive(&plain, &described));
    assert!(is_exhaustive(&described, &plain));
    assert!(!is_equal(&plain, &described));
    assert!(is_equal(&described, &described));
    let reordered = parsed("type: string\nenum: [b, a]\n");
    assert!(!is_exhaustive(&plain, &reordered));
    assert!(is_subset(&plain, &reordered));
    let longer = parsed("type: string\nenum: [a, b, c]\n");
    assert!(is_subset(&plain, &longer));
    assert!(!is_subset(&longer, &plain));
}

#[test]
fn subset_of_an_absent_field_fits_anything() {
    let nothing = SchemaNode::default();
    let something = parsed("type: object\nrequired: [a]\nx-kubernetes-int-or-string: true\n");
    assert!(is_subset(&nothing, &something));
    assert!(!is_subset(&something, &nothing));
    assert!(!is_exhaustive(&nothing, &something));
    assert!(is_exhaustive(&nothing, &nothing));
}

#[test]
fn subset_of_items_fits_one_schema_against_a_list() {
    let one = SchemaOrArray::Schema(Box::new(typed("string")));
    let list = SchemaOrArray::Schemas(vec![typed("integer"), typed("string")]);
    let node = |items: SchemaOrArray| SchemaNode { items: Some(items), ..SchemaNode::default() };
    let single = node(one);
    let listed = node(list);
    assert!(is_subset(&single, &listed));
    assert!(!is_subset(&listed, &single));
    assert!(!is_exhaustive(&single, &listed));
    let strings = node(SchemaOrArray::Schemas(vec![typed("string"), typed("string")]));
    assert!(is_subset(&strings, &single));
    let either = |b: bool| SchemaNode {
        additional_properties: Some(SchemaOrBool::Bool(b)),
        ..SchemaNode::default()
    };
    assert!(is_subset(&either(true), &either(true)));
    assert!(!is_subset(&either(true), &either(false)));
    let with_schema = SchemaNode {
        additional_properties: Some(SchemaOrBool::Schema(Box::new(typed("string")))),
        ..SchemaNode::default()
    };
    assert!(!is_subset(&either(true), &with_schema));
    assert!(!is_exhaustive(&with_schema, &either(true)));
}

#[test]
fn json_subset_lets_null_fit_anything() {
    let number = |n: u64| JsonValue::Number(JsonNumber::PosInt(n));
    assert!(json_is_subset(&JsonValue::Null, &number(1)));
    assert!(!json_is_subset(&number(1), &JsonValue::Null));
    assert!(!json_is_equal(&JsonValue::Null, &number(1)));
    assert!(json_is_equal(&number(1), &number(1)));
    assert!(!json_is_equal(&number(1), &JsonValue::Number(JsonNumber::NegInt(-1))));
    assert!(!json_is_equal(&number(1), &JsonValue::Number(JsonNumber::Float(1.0f64.to_bits()))));
    let list = |items: Vec<JsonValue>| JsonValue::Array(items);
    assert!(json_is_subset(&list(vec![number(2), number(2)]), &list(vec![number(1), number(2)])));
    assert!(!json_is_subset(&list(vec![number(3)]), &list(vec![number(1), number(2)])));
    assert!(!json_is_equal(&list(vec![number(2), number(1)]), &list(vec![number(1), number(2)])));
    let text = |s: &str| JsonValue::String(s.to_string());
    assert!(json_is_subset(&text("a"), &text("a")));
    assert!(!json_is_subset(&text("a"), &text("b")));
    assert!(!json_is_subset(&text("1"), &number(1)));
    assert!(strs_eq(&vec!["a".to_string()], &vec!["a".to_string()]));
    assert!(!strs_eq(&vec!["a".to_string()], &vec!["b".to_string()]));
    assert!(strs_fit(&vec!["b".to_string()], &vec!["a".to_string(), "b".to_string()]));
    assert!(!strs_fit(&vec!["a".to_string(), "b".to_string()], &vec!["b".to_string()]));
}

#[test]
fn no_rule_gives_no_action() {
    let overrides = Overrides::new(vec![]).unwrap();
    assert_eq!(action_of(&overrides, "anything", &typed("string")), None);
    assert_eq!(action_of(&Overrides::empty(), "anything", &typed("string")), None);
}

#[test]
fn an_exact_name_wins_over_an_expression() {
    let overrides = Overrides::new(vec![
        replace(vec![regex("^res.*$")], None, "ByExpression"),
        replace(vec![exact("resources")], None, "ByName"),
    ])
    .unwrap();
    assert_eq!(
        action_of(&overrides, "resources", &typed("object")),
        Some("replace ByName".to_string())
    );
    assert_eq!(
        action_of(&overrides, "respawn", &typed("object")),
        Some("replace ByExpression".to_string())
    );
    assert_eq!(action_of(&overrides, "other", &typed("object")), None);
}

#[test]
fn an_exact_name_whose_schema_does_not_fit_falls_back_to_the_scan() {
    let overrides = Overrides::new(vec![
        replace(vec![regex("^res")], None, "ByExpression"),
        replace(
            vec![exact("resources")],
            Some(PropertySchema::Exhaustive(typed("array"))),
            "ByName",
        ),
    ])
    .unwrap();
    assert_eq!(
        action_of(&overrides, "resources", &typed("object")),
        Some("replace ByExpression".to_string())
    );
    assert_eq!(
        action_of(&overrides, "resources", &typed("array")),
        Some("replace ByName".to_string())
    );
}

#[test]
fn a_rule_with_both_kinds_of_names_is_found_either_way() {
    let overrides =
        Overrides::new(vec![omit(vec![exact("foo"), regex("^bar[1-9]+$"), exact("foo")], None)])
            .unwrap();
    assert_eq!(action_of(&overrides, "foo", &typed("string")), Some("omit".to_string()));
    assert_eq!(action_of(&overrides, "bar12", &typed("string")), Some("omit".to_string()));
    assert_eq!(action_of(&overrides, "bar", &typed("string")), None);
}

#[test]
fn a_rule_without_names_fits_every_name() {
    let overrides = Overrides::new(vec![replace(
        vec![],
        Some(PropertySchema::Subset(typed("integer"))),
        "Number",
    )])
    .unwrap();
    assert_eq!(
        action_of(&overrides, "anything", &parsed("type: integer\nformat: int32\n")),
        Some("replace Number".to_string())
    );
    assert_eq!(action_of(&overrides, "anything", &typed("string")), None);
}

#[test]
fn the_first_rule_that_fits_wins() {
    let overrides = Overrides::new(vec![
        replace(vec![regex("a")], None, "First"),
        replace(vec![regex("b")], None, "Second"),
        replace(vec![exact("ab")], Some(PropertySchema::Subset(typed("array"))), "Third"),
        replace(vec![exact("ab")], None, "Fourth"),
        replace(vec![exact("ab")], None, "Fifth"),
    ])
    .unwrap();
    assert_eq!(action_of(&overrides, "b-a", &typed("string")), Some("replace First".to_string()));
    assert_eq!(action_of(&overrides, "b", &typed("string")), Some("replace Second".to_string()));
    assert_eq!(action_of(&overrides, "ab", &typed("string")), Some("replace Fourth".to_string()));
    assert_eq!(action_of(&overrides, "ab", &typed("array")), Some("replace Third".to_string()));
}

#[test]
fn every_rule_that_does_not_compile_is_reported() {
    let errors: Vec<OverrideCompileError> = Overrides::new(vec![
        replace(vec![regex("(")], None, "A"),
        replace(vec![regex("fine")], None, "B"),
        replace(vec![exact("x"), regex("ok"), regex("[z-a]")], None, "C"),
        omit(vec![exact("(")], None),
    ])
    .err()
    .unwrap();
    let positions: Vec<usize> = errors.iter().map(|e| e.rule).collect();
    assert_eq!(positions, vec![0, 2]);
    let patterns: Vec<Option<&str>> = errors.iter().map(|e| e.pattern.as_deref()).collect();
    assert_eq!(patterns, vec![Some("("), Some("[z-a]")]);
    assert!(errors.iter().all(|e| !e.message.is_empty()));
    assert!(errors[0].message != "(");
}

#[test]
fn every_expression_that_does_not_compile_is_reported() {
    let errors: Vec<OverrideCompileError> = Overrides::new(vec![
        replace(vec![regex("fine")], None, "A"),
        replace(vec![regex("("), regex("ok"), regex("[z-a]"), regex("a{2,1}")], None, "B"),
        omit(vec![regex("x"), regex(")")], None),
    ])
    .err()
    .unwrap();
    let found: Vec<(usize, Option<&str>)> =
        errors.iter().map(|e| (e.rule, e.pattern.as_deref())).collect();
    assert_eq!(
        found,
        vec![(1, Some("(")), (1, Some("[z-a]")), (1, Some("a{2,1}")), (2, Some(")"))]
    );
    assert!(errors.iter().all(|e| !e.message.is_empty()));
    assert!(errors[0].message != errors[1].message);
}

#[test]
fn a_list_fits_a_shorter_list_that_holds_each_of_its_elements() {
    let flag = |b: bool| JsonValue::Bool(b);
    assert!(jsons_are_subset(&vec![flag(true), flag(true)], &vec![flag(true)]));
    assert!(jsons_are_subset(&vec![flag(false)], &vec![flag(true), flag(false)]));
    assert!(!jsons_are_subset(&vec![flag(false), flag(true)], &vec![flag(true)]));
    assert!(jsons_are_subset(&vec![], &vec![]));
    assert!(!jsons_are_subset(&vec![flag(true)], &vec![]));
    let words = |list: &[&str]| list.iter().map(|s| s.to_string()).collect::<Vec<String>>();
    assert!(strs_fit(&words(&["a", "a", "b"]), &words(&["b", "a"])));
    assert!(!strs_fit(&words(&["a", "c"]), &words(&["b", "a", "d"])));
    let twice = parsed("type: string\nenum: [a, a, a]\nrequired: [x, x]\n");
    let once = parsed("type: string\nenum: [a]\nrequired: [x]\n");
    assert!(is_subset(&twice, &once));
    assert!(is_subset(&once, &twice));
    assert!(!is_exhaustive(&twice, &once));
    let alternatives = |types: &[&str]| SchemaNode {
        one_of: Some(types.iter().map(|t| typed(t)).collect()),
        ..SchemaNode::default()
    };
    assert!(is_subset(&alternatives(&["string", "string"]), &alternatives(&["string"])));
    assert!(!is_subset(&alternatives(&["string", "integer"]), &alternatives(&["string"])));
    let tuple = |types: &[&str]| SchemaNode {
        items: Some(SchemaOrArray::Schemas(types.iter().map(|t| typed(t)).collect())),
        ..SchemaNode::default()
    };
    assert!(is_subset(&tuple(&["string", "string", "string"]), &tuple(&["integer", "string"])));
}

#[test]
fn a_map_does_not_fit_a_map_with_fewer_keys() {
    let subset = flags(&[("foo", true)]);
    let superset = flags(&[("bar", true), ("foo", true)]);
    assert!(entries_are_subset(&subset, &superset));
    assert!(!entries_are_subset(&superset, &subset));
    let few = parsed("type: object\nproperties:\n  a: {type: string}\n");
    let many = parsed("type: object\nproperties:\n  a: {type: string}\n  b: {type: string}\n");
    assert!(is_subset(&few, &many));
    assert!(!is_subset(&many, &few));
}

#[test]
fn extend_puts_later_rules_behind_earlier_ones() {
    let mut overrides = Overrides::new(vec![
        replace(vec![exact("a")], Some(PropertySchema::Subset(typed("string"))), "FirstA"),
        replace(vec![regex("^b")], None, "FirstB"),
    ])
    .unwrap();
    overrides.extend(
        Overrides::new(vec![
            replace(vec![exact("a")], None, "SecondA"),
            replace(vec![regex("^b")], None, "SecondB"),
            replace(vec![exact("c")], None, "SecondC"),
            replace(vec![regex("^d")], None, "SecondD"),
        ])
        .unwrap(),
    );
    assert_eq!(action_of(&overrides, "a", &typed("string")), Some("replace FirstA".to_string()));
    assert_eq!(action_of(&overrides, "a", &typed("integer")), Some("replace SecondA".to_string()));
    assert_eq!(action_of(&overrides, "b", &typed("integer")), Some("replace FirstB".to_string()));
    assert_eq!(action_of(&overrides, "c", &typed("integer")), Some("replace SecondC".to_string()));
    assert_eq!(action_of(&overrides, "dd", &typed("integer")), Some("replace SecondD".to_string()));
    assert_eq!(action_of(&overrides, "e", &typed("integer")), None);
}

#[test]
fn extend_drops_a_rule_that_repeats_the_one_before_it() {
    let same = || replace(vec![regex("^x")], Some(PropertySchema::Subset(typed("string"))), "X");
    let mut overrides = Overrides::new(vec![same()]).unwrap();
    overrides.extend(Overrides::new(vec![same(), replace(vec![regex("^y")], None, "Y")]).unwrap());
    assert_eq!(overrides.scanned_len(), 2);
    overrides.extend(Overrides::empty());
    assert_eq!(overrides.scanned_len(), 2);
    overrides.extend(Overrides::new(vec![same(), same(), omit(vec![exact("only")], None)]).unwrap());
    assert_eq!(overrides.scanned_len(), 3);
    overrides.extend(
        Overrides::new(vec![replace(vec![regex("^x")], Some(PropertySchema::Subset(typed("string"))), "Z")])
            .unwrap(),
    );
    assert_eq!(overrides.scanned_len(), 4);
    overrides.extend(
        Overrides::new(vec![replace(
            vec![regex("^x")],
            Some(PropertySchema::Subset(SchemaNode {
                description: Some("told apart".to_string()),
                ..typed("string")
            })),
            "Z",
        )])
        .unwrap(),
    );
    assert_eq!(overrides.scanned_len(), 5);
    assert_eq!(action_of(&overrides, "only", &typed("string")), Some("omit".to_string()));
    assert_eq!(action_of(&overrides, "x", &typed("string")), Some("replace X".to_string()));
    assert_eq!(action_of(&overrides, "y", &typed("string")), Some("replace Y".to_string()));
    assert_eq!(action_of(&overrides, "x", &typed("integer")), None);
}

fn config_with(rules: Vec<PropertyRule>) -> Config {
    Config { overrides: Overrides::new(rules).unwrap(), ..Config::default() }
}

const RESOURCES: &str = r#"
type: object
required: [resources]
properties:
  name:
    type: string
  resources:
    type: object
    properties:
      limits:
        type: object
        additionalProperties:
          type: string
      mode:
        type: string
        enum: [a, b]
  respawn:
    type: array
    items:
      type: object
      properties:
        after:
          type: integer
"#;

#[test]
fn an_omitted_property_is_no_member() {
    let structs = analyze(parsed(RESOURCES), "Pod", config_with(vec![omit(vec![exact("resources")], None)]))
        .unwrap()
        .output();
    let names: Vec<&str> = structs.iter().map(|c| c.name.as_str()).collect();
    assert_eq!(names, vec!["Pod", "PodRespawn"]);
    let members: Vec<&str> = structs[0].members.iter().map(|m| m.name.as_str()).collect();
    assert_eq!(members, vec!["name", "respawn"]);
}

#[test]
fn a_replaced_property_gets_the_type_as_written_and_nothing_below_it() {
    let structs = analyze(
        parsed(RESOURCES),
        "Pod",
        config_with(vec![
            replace(vec![regex("^res")], None, "ByExpression"),
            replace(vec![exact("resources")], None, "k8s::ResourceRequirements"),
        ]),
    )
    .unwrap()
    .output();
    let names: Vec<&str> = structs.iter().map(|c| c.name.as_str()).collect();
    assert_eq!(names, vec!["Pod"]);
    let types: Vec<(&str, &str)> =
        structs[0].members.iter().map(|m| (m.name.as_str(), m.type_.as_str())).collect();
    assert_eq!(
        types,
        vec![
            ("name", "Option<String>"),
            ("resources", "k8s::ResourceRequirements"),
            ("respawn", "Option<ByExpression>")
        ]
    );
}

#[test]
fn without_rules_everything_is_inferred() {
    let structs = analyze(parsed(RESOURCES), "Pod", Config::default()).unwrap().output();
    let names: Vec<&str> = structs.iter().map(|c| c.name.as_str()).collect();
    assert_eq!(names, vec!["Pod", "PodResources", "PodResourcesMode", "PodRespawn"]);
    assert!(structs[2].is_enum);
    assert_eq!(structs[2].level, 1);
    assert_eq!(structs[3].level, 1);
}

#[test]
fn an_untyped_value_fails_unless_relaxed() {
    let schema = "type: object\nproperties:\n  thing: {}\n";
    let error = analyze(parsed(schema), "Kind", Config::default()).err().unwrap();
    assert_eq!(error.issue, Issue::UntypedValue);
    assert_eq!(error.key, "thing");
    assert_eq!(error.stack, "Kind");
    let relaxed = Config { relaxed: true, ..Config::default() };
    let structs = analyze(parsed(schema), "Kind", relaxed).unwrap().output();
    assert_eq!(structs[0].members[0].type_, "Option<BTreeMap<String, serde_json::Value>>");
}
