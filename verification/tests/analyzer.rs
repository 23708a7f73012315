use k8s_openapi::apiextensions_apiserver::pkg::apis::apiextensions::v1::{
    JSONSchemaProps, JSONSchemaPropsOrArray, JSONSchemaPropsOrBool, JSON,
};
use kopium::{
    analyze, Config as Cfg, JsonMember, JsonNumber, JsonValue, Property, SchemaNode,
    SchemaOrArray, SchemaOrBool,
};

fn json_value(value: &serde_json::Value) -> JsonValue {
    match value {
        serde_json::Value::Null => JsonValue::Null,
        serde_json::Value::Bool(b) => JsonValue::Bool(*b),
        serde_json::Value::Number(n) => {
            if let Some(u) = n.as_u64() {
                JsonValue::Number(JsonNumber::PosInt(u))
            } else if let Some(i) = n.as_i64() {
                JsonValue::Number(JsonNumber::NegInt(i))
            } else {
                let f = n.as_f64().unwrap_or(0.0) + 0.0;
                JsonValue::Number(JsonNumber::Float(f.to_bits()))
            }
        }
        serde_json::Value::String(s) => JsonValue::String(s.clone()),
        serde_json::Value::Array(items) => JsonValue::Array(items.iter().map(json_value).collect()),
        serde_json::Value::Object(entries) => {
            let mut members: Vec<JsonMember> = entries
                .iter()
                .map(|(key, value)| JsonMember { key: key.clone(), value: json_value(value) })
                .collect();
            members.sort_by(|a, b| a.key.cmp(&b.key));
            JsonValue::Object(members)
        }
    }
}

fn schema_or_bool(value: &JSONSchemaPropsOrBool) -> SchemaOrBool {
    match value {
        JSONSchemaPropsOrBool::Schema(s) => SchemaOrBool::Schema(Box::new(schema_node(s))),
        JSONSchemaPropsOrBool::Bool(b) => SchemaOrBool::Bool(*b),
    }
}

fn schema_node(props: &JSONSchemaProps) -> SchemaNode {
    SchemaNode {
        type_: props.type_.clone(),
        format: props.format.clone(),
        description: props.description.clone(),
        enum_: props.enum_.as_ref().map(|values| values.iter().map(|JSON(v)| json_value(v)).collect()),
        items: props.items.as_ref().map(|items| match items {
            JSONSchemaPropsOrArray::Schema(s) => SchemaOrArray::Schema(Box::new(schema_node(s))),
            JSONSchemaPropsOrArray::Schemas(list) => {
                SchemaOrArray::Schemas(list.iter().map(schema_node).collect())
            }
        }),
        additional_items: props.additional_items.as_ref().map(schema_or_bool),
        properties: props.properties.as_ref().map(|map| {
            map.iter()
                .map(|(name, schema)| Property { name: name.clone(), schema: schema_node(schema) })
                .collect()
        }),
        additional_properties: props.additional_properties.as_ref().map(schema_or_bool),
        required: props.required.clone(),
        one_of: props.one_of.as_ref().map(|list| list.iter().map(schema_node).collect()),
        all_of: props.all_of.as_ref().map(|list| list.iter().map(schema_node).collect()),
        any_of: props.any_of.as_ref().map(|list| list.iter().map(schema_node).collect()),
        not: props.not.as_ref().map(|s| Box::new(schema_node(s))),
        x_kubernetes_int_or_string: props.x_kubernetes_int_or_string,
        x_kubernetes_preserve_unknown_fields: props.x_kubernetes_preserve_unknown_fields,
        x_kubernetes_map_type: props.x_kubernetes_map_type.clone(),
    }
}

#[test]
fn map_of_struct() {
    // validationsInfo from agent test
    let schema_str = r#"
        description: AgentStatus defines the observed state of Agent
        properties:
          validationsInfo:
            additionalProperties:
              items:
                properties:
                  id:
                    type: string
                  message:
                    type: string
                  status:
                    type: string
                required:
                - id
                - message
                - status
                type: object
              type: array
            description: ValidationsInfo is a JSON-formatted string containing
              the validation results for each validation id grouped by category
              (network, hosts-data, etc.)
            type: object
        type: object
"#;
    let schema: JSONSchemaProps = serde_yaml::from_str(schema_str).unwrap();

    let structs = analyze(schema_node(&schema), "Agent", Cfg::default()).unwrap().output();
    let root = &structs[0];
    assert_eq!(root.name, "Agent");
    assert_eq!(root.level, 0);
    // should have a member with a key to the map:
    let map = &root.members[0];
    assert_eq!(map.name, "validationsInfo");
    assert_eq!(map.type_, "Option<BTreeMap<String, Vec<AgentValidationsInfo>>>");
    // should have a separate struct
    let other = &structs[1];
    assert_eq!(other.name, "AgentValidationsInfo");
    assert_eq!(other.level, 1);
    assert_eq!(other.members[0].name, "id");
    assert_eq!(other.members[0].type_, "String");
    assert_eq!(other.members[1].name, "message");
    assert_eq!(other.members[1].type_, "String");
    assert_eq!(other.members[2].name, "status");
    assert_eq!(other.members[2].type_, "String");
}

#[test]
fn map_of_map() {
    // as found in cnpg-cluster
    let schema_str = r#"
        description: Instances topology.
        properties:
          instances:
            additionalProperties:
              additionalProperties:
                type: string
              description: PodTopologyLabels represent the topology of a Pod.
                map[labelName]labelValue
              type: object
            description: Instances contains the pod topology of the instances
            type: object
        type: object
"#;
    let schema: JSONSchemaProps = serde_yaml::from_str(schema_str).unwrap();

    let structs = analyze(schema_node(&schema), "ClusterStatusTopology", Cfg::default())
        .unwrap()
        .output();
    let root = &structs[0];
    assert_eq!(root.name, "ClusterStatusTopology");
    assert_eq!(root.level, 0);
    // should have a member with a key to the map:
    let map = &root.members[0];
    assert_eq!(map.name, "instances");
    assert_eq!(map.type_, "Option<BTreeMap<String, BTreeMap<String, String>>>");
}

#[test]
fn map_of_number() {
    // as found in aws-lambda-services-aliases
    let schema_str = r#"
        description: "The routing configuration (https://docs.aws.amazon.com/lambda/latest/dg/configuration-aliases.html#configuring-alias-routing)\nof the alias."
        properties:
          additionalVersionWeights:
            additionalProperties:
              type: "number"
            type: "object"
        type: "object"
"#;
    let schema: JSONSchemaProps = serde_yaml::from_str(schema_str).unwrap();

    let structs = analyze(schema_node(&schema), "AliasRoutingConfig", Cfg::default())
        .unwrap()
        .output(); //println!("{:?}", structs);
    let root = &structs[0];
    assert_eq!(root.name, "AliasRoutingConfig");
    assert_eq!(root.level, 0);
    // should have a member with a key to the map:
    let map = &root.members[0];
    assert_eq!(map.name, "additionalVersionWeights");
    assert_eq!(map.type_, "Option<BTreeMap<String, f64>>");
}

#[test]
fn empty_preserve_unknown_fields() {
    let schema_str = r#"
description: |-
  Identifies servers in the same namespace for which this authorization applies.
required:
  - selector
properties:
  selector:
    description: A label query over servers on which this authorization
      applies.
    required:
      - matchLabels
    properties:
      matchLabels:
        type: object
        x-kubernetes-preserve-unknown-fields: true
    type: object
type: object
"#;
    let schema: JSONSchemaProps = serde_yaml::from_str(schema_str).unwrap();
    let structs = analyze(schema_node(&schema), "Server", Cfg::default()).unwrap().output();

    let root = &structs[0];
    assert_eq!(root.name, "Server");
    assert_eq!(root.level, 0);
    let root_member = &root.members[0];
    assert_eq!(root_member.name, "selector");
    assert_eq!(root_member.type_, "ServerSelector");
    let server_selector = &structs[1];
    assert_eq!(server_selector.name, "ServerSelector");
    assert_eq!(server_selector.level, 1);
    let match_labels = &server_selector.members[0];
    assert_eq!(match_labels.name, "matchLabels");
    assert_eq!(match_labels.type_, "BTreeMap<String, serde_json::Value>");
}

#[test]
fn additional_preserve_unknown() {
    let schema_str = r#"
    description: MiddlewareSpec defines the desired state of a Middleware.
    properties:
      plugin:
        additionalProperties:
          x-kubernetes-preserve-unknown-fields: true
        description: traefik middleware crd
        type: object
    type: object"#;
    let schema: JSONSchemaProps = serde_yaml::from_str(schema_str).unwrap();
    println!("got {schema:?}");

    let structs = analyze(schema_node(&schema), "Spec", Cfg::default()).unwrap().output();
    println!("got: {structs:?}");
    let root = &structs[0];
    assert_eq!(root.name, "Spec");
    let member = &root.members[0];
    assert_eq!(member.name, "plugin");
    assert_eq!(member.type_, "Option<BTreeMap<String, serde_json::Value>>");
}

#[test]
fn no_type_preserve_unknown_fields() {
    let schema_str = r#"
description: Schema defines the schema of the variable.
properties:
  openAPIV3Schema:
    description: |-
      OpenAPIV3Schema defines the schema of a variable via OpenAPI v3
      schema. The schema is a subset of the schema used in
      Kubernetes CRDs.
    properties:
      items:
        description: |-
          Items specifies fields of an array.
          NOTE: Can only be set if type is array.
          NOTE: This field uses PreserveUnknownFields and Schemaless,
          because recursive validation is not possible.
        x-kubernetes-preserve-unknown-fields: true
      requiredItems:
        description: |-
          Items specifies fields of an array.
          NOTE: Can only be set if type is array.
          NOTE: This field uses PreserveUnknownFields and Schemaless,
          because recursive validation is not possible.
        x-kubernetes-preserve-unknown-fields: true
    required:
    - requiredItems
    type: object
required:
- openAPIV3Schema
type: object
"#;
    let schema: JSONSchemaProps = serde_yaml::from_str(schema_str).unwrap();
    let structs = analyze(schema_node(&schema), "Variables", Cfg::default()).unwrap().output();

    let root = &structs[0];
    assert_eq!(root.name, "Variables");
    assert_eq!(root.level, 0);
    let root_member = &root.members[0];
    assert_eq!(root_member.name, "openAPIV3Schema");
    assert_eq!(root_member.type_, "VariablesOpenApiv3Schema");
    let variables_schema = &structs[1];
    assert_eq!(variables_schema.name, "VariablesOpenApiv3Schema");
    assert_eq!(variables_schema.level, 1);
    let items = &variables_schema.members[0];
    assert_eq!(items.name, "items");
    assert_eq!(items.type_, "Option<serde_json::Value>");
    let required_items = &variables_schema.members[1];
    assert_eq!(required_items.name, "requiredItems");
    assert_eq!(required_items.type_, "serde_json::Value");
}

#[test]
fn int_or_string() {
    let schema_str = r#"
            properties:
              port:
                description: A port name or number. Must exist in a pod spec.
                x-kubernetes-int-or-string: true
            required:
            - port
            type: object
"#;
    let schema: JSONSchemaProps = serde_yaml::from_str(schema_str).unwrap();

    let structs = analyze(schema_node(&schema), "Server", Cfg::default()).unwrap().output();
    let root = &structs[0];
    assert_eq!(root.name, "Server");
    // should have an IntOrString member:
    let member = &root.members[0];
    assert_eq!(member.name, "port");
    assert_eq!(member.type_, "IntOrString");
    assert!(root.uses_int_or_string());
}

#[test]
fn string_or_string_array() {
    let schema_str = r#"
            type: object
            required:
              - ambassadorId
            properties:
              ambassadorId:
                items:
                  type: "string"
                oneOf:
                  - type: "string"
                  - type: "array"
              other:
                items:
                  type: "string"
                oneOf:
                  - type: "string"
                  - type: "array"
"#;
    let schema: JSONSchemaProps = serde_yaml::from_str(schema_str).unwrap();

    let structs = analyze(schema_node(&schema), "Host", Cfg::default()).unwrap().output();

    let root = &structs[0];
    assert_eq!(root.name, "Host");

    let member = &root.members[0];
    assert_eq!(member.name, "ambassadorId");
    assert_eq!(member.type_, "serde_json::Value");

    let member = &root.members[1];
    assert_eq!(member.name, "other");
    assert_eq!(member.type_, "Option<serde_json::Value>");
}

#[test]
fn boolean_in_additionals() {
    // as found in argo-app
    let schema_str = r#"
            properties:
              options:
                additionalProperties:
                  type: boolean
                type: object
              patch:
                type: string
            type: object
"#;
    let schema: JSONSchemaProps = serde_yaml::from_str(schema_str).unwrap();
    let structs = analyze(schema_node(&schema), "Options", Cfg::default()).unwrap().output();
    println!("got {:?}", structs);
    let root = &structs[0];
    assert_eq!(root.name, "Options");
    assert_eq!(root.level, 0);
    assert_eq!(&root.members[0].name, "options");
    assert_eq!(&root.members[0].type_, "Option<BTreeMap<String, bool>>");
}

#[test]
fn enum_string() {
    let schema_str = r#"
      properties:
        operator:
          enum:
          - In
          - NotIn
          - Exists
          - DoesNotExist
          type: string
      required:
      - operator
      type: object
"#;

    let schema: JSONSchemaProps = serde_yaml::from_str(schema_str).unwrap();
    let structs = analyze(schema_node(&schema), "MatchExpressions", Cfg::default())
        .unwrap()
        .output();
    println!("got {:?}", structs);
    let root = &structs[0];
    assert_eq!(root.name, "MatchExpressions");
    assert_eq!(root.level, 0);
    assert_eq!(&root.members[0].name, "operator");
    assert_eq!(&root.members[0].type_, "MatchExpressionsOperator");

    // operator member
    let op = &structs[1];
    assert!(op.is_enum);
    assert_eq!(op.name, "MatchExpressionsOperator");

    // should have enum members:
    assert_eq!(&op.members[0].name, "In");
    assert_eq!(&op.members[0].type_, "");
    assert_eq!(&op.members[1].name, "NotIn");
    assert_eq!(&op.members[1].type_, "");
    assert_eq!(&op.members[2].name, "Exists");
    assert_eq!(&op.members[2].type_, "");
    assert_eq!(&op.members[3].name, "DoesNotExist");
    assert_eq!(&op.members[3].type_, "");
}

#[test]
fn enum_string_within_container() {
    let schema_str = r#"
      description: Endpoint
      properties:
        relabelings:
          items:
            properties:
              action:
                default: replace
                enum:
                - replace
                - keep
                - drop
                - hashmod
                - labelmap
                - labeldrop
                - labelkeep
                type: string
              modulus:
                format: int64
                type: integer
            type: object
          type: array
      type: object
        "#;

    let schema: JSONSchemaProps = serde_yaml::from_str(schema_str).unwrap();
    let structs = analyze(schema_node(&schema), "Endpoint", Cfg::default()).unwrap().output();
    println!("got {:?}", structs);
    let root = &structs[0];
    assert_eq!(root.name, "Endpoint");
    assert_eq!(root.level, 0);
    assert!(!root.is_enum);
    assert_eq!(&root.members[0].name, "relabelings");
    assert_eq!(&root.members[0].type_, "Option<Vec<EndpointRelabelings>>");

    let rel = &structs[1];
    assert_eq!(rel.name, "EndpointRelabelings");
    assert!(!rel.is_enum);
    assert_eq!(&rel.members[0].name, "action");
    assert_eq!(&rel.members[0].type_, "Option<EndpointRelabelingsAction>");

    // action enum member
    let act = &structs[2];
    assert_eq!(act.name, "EndpointRelabelingsAction");
    assert!(act.is_enum);

    // should have enum members:
    assert_eq!(&act.members[0].name, "replace");
    assert_eq!(&act.members[0].type_, "");
    assert_eq!(&act.members[1].name, "keep");
    assert_eq!(&act.members[1].type_, "");
    assert_eq!(&act.members[2].name, "drop");
    assert_eq!(&act.members[2].type_, "");
    assert_eq!(&act.members[3].name, "hashmod");
    assert_eq!(&act.members[3].type_, "");
}

#[test]
fn service_monitor_params() {
    let schema_str = r#"
        properties:
          endpoints:
            items:
              description: Endpoint defines a scrapeable endpoint serving Prometheus
                metrics.
              properties:
                params:
                  additionalProperties:
                    items:
                      type: string
                    type: array
                  description: Optional HTTP URL parameters
                  type: object
              type: object
            type: array
        required:
        - endpoints
        type: object
"#;
    let schema: JSONSchemaProps = serde_yaml::from_str(schema_str).unwrap();
    let structs = analyze(schema_node(&schema), "ServiceMonitor", Cfg::default())
        .unwrap()
        .output();
    println!("got {:?}", structs);
    let root = &structs[0];
    assert_eq!(root.name, "ServiceMonitor");
    assert_eq!(root.level, 0);

    // should have a required endpoints member
    let member = &root.members[0];
    assert_eq!(member.name, "endpoints");
    assert_eq!(member.type_, "Vec<ServiceMonitorEndpoints>");

    // Should have a endpoints struct:
    let eps = &structs[1];
    assert_eq!(eps.name, "ServiceMonitorEndpoints");
    assert_eq!(eps.level, 1);
    // should have an params member:
    let member = &eps.members[0];
    assert_eq!(member.name, "params");
    assert_eq!(member.type_, "Option<BTreeMap<String, Vec<String>>>");
}

#[test]
fn integer_handling_in_maps() {
    // via https://istio.io/latest/docs/reference/config/networking/destination-rule/
    // distribute:
    // - from: us-west/zone1/*
    //   to:
    //     "us-west/zone1/*": 80
    //     "us-west/zone2/*": 20
    // - from: us-west/zone2/*
    //   to:
    //     "us-west/zone1/*": 20
    //     "us-west/zone2/*": 80

    // i.e. distribute is an array of {from: String, to: BTreeMap<String, Integer>}
    // with the correct integer type

    // the schema is found in destinationrule-crd.yaml with this excerpt:
    let schema_str = r#"
        properties:
          distribute:
            description: 'Optional: only one of distribute, failover
              or failoverPriority can be set.'
            items:
              properties:
                from:
                  description: Originating locality, '/' separated
                  type: string
                to:
                  additionalProperties:
                    type: integer
                    format: int32
                  description: Map of upstream localities to traffic
                    distribution weights.
                  type: object
              type: object
            type: array
        type: object
"#;
    let schema: JSONSchemaProps = serde_yaml::from_str(schema_str).unwrap();

    let structs = analyze(schema_node(&schema), "DestinationRule", Cfg::default())
        .unwrap()
        .output();

    // this should produce the root struct struct
    let root = &structs[0];
    assert_eq!(root.name, "DestinationRule");
    // which contains the distribute member:
    let distmember = &root.members[0];
    assert_eq!(distmember.name, "distribute");
    assert_eq!(distmember.type_, "Option<Vec<DestinationRuleDistribute>>");
    // which references the map type with {from,to} so find that struct:
    let ruledist = &structs[1];
    assert_eq!(ruledist.name, "DestinationRuleDistribute");
    // and has from and to members
    let from = &ruledist.members[0];
    let to = &ruledist.members[1];
    assert_eq!(from.name, "from");
    assert_eq!(to.name, "to");
    assert_eq!(from.type_, "Option<String>");
    assert_eq!(to.type_, "Option<BTreeMap<String, i32>>");
}

#[test]
fn array_of_preserve_unknown_objects() {
    // example from flux kustomization crd
    let schema_str = r#"
        properties:
          patchesStrategicMerge:
            description: Strategic merge patches, defined as inline YAML objects.
            items:
              x-kubernetes-preserve-unknown-fields: true
            type: array
        type: object
        "#;

    let schema: JSONSchemaProps = serde_yaml::from_str(schema_str).unwrap();
    let structs = analyze(schema_node(&schema), "KustomizationSpec", Cfg::default())
        .unwrap()
        .output();
    println!("got {:?}", structs);
    let root = &structs[0];
    assert_eq!(root.name, "KustomizationSpec");
    assert_eq!(root.level, 0);
    assert!(!root.is_enum);
    assert_eq!(&root.members[0].name, "patchesStrategicMerge");
    assert_eq!(&root.members[0].type_, "Option<Vec<serde_json::Value>>");
}

#[test]
fn array_of_int_or_strings() {
    let schema_str = r#"
        properties:
          targetPorts:
            description: Numbers or names of the port to access on the pods targeted by the service.
            items:
              x-kubernetes-int-or-string: true
            type: array
        type: object
        "#;

    let schema: JSONSchemaProps = serde_yaml::from_str(schema_str).unwrap();
    let structs = analyze(schema_node(&schema), "Schema", Cfg::default()).unwrap().output();
    println!("got {:?}", structs);
    let root = &structs[0];
    assert_eq!(root.name, "Schema");
    assert_eq!(root.level, 0);
    assert!(!root.is_enum);
    assert_eq!(&root.members[0].name, "targetPorts");
    assert_eq!(&root.members[0].type_, "Option<Vec<IntOrString>>");
}

#[test]
fn nested_properties_in_additional_properties() {
    // example from flux kustomization crd
    let schema_str = r#"
        properties:
          jwtTokensByRole:
            additionalProperties:
              description: JWTTokens represents a list of JWT tokens
              properties:
                items:
                  items:
                    properties:
                      exp:
                        format: int64
                        type: integer
                      iat:
                        format: int64
                        type: integer
                      id:
                        type: string
                    required:
                    - iat
                    type: object
                  type: array
              type: object
            type: object
        type: object"#;
    let schema: JSONSchemaProps = serde_yaml::from_str(schema_str).unwrap();
    let structs = analyze(schema_node(&schema), "AppProjectStatus", Cfg::default())
        .unwrap()
        .output();
    println!("got {:?}", structs);
    let root = &structs[0];
    assert_eq!(root.name, "AppProjectStatus");
    assert_eq!(root.level, 0);
    assert!(!root.is_enum);
    assert_eq!(&root.members[0].name, "jwtTokensByRole");
    assert_eq!(
        &root.members[0].type_,
        "Option<BTreeMap<String, AppProjectStatusJwtTokensByRole>>"
    );
    let role = &structs[1];
    assert_eq!(role.level, 1);
    assert_eq!(role.name, "AppProjectStatusJwtTokensByRole");
    assert_eq!(&role.members[0].name, "items");
    let items = &structs[2];
    assert_eq!(items.level, 2);
    assert_eq!(items.name, "AppProjectStatusJwtTokensByRoleItems");
    assert_eq!(&items.members[0].name, "exp");
    assert_eq!(&items.members[1].name, "iat");
    assert_eq!(&items.members[2].name, "id");
}

#[test]
fn underscore_to_camel_case() {
    let schema_str = r#"
        properties:
          validations_info:
            type: object
        type: object
"#;
    let schema: JSONSchemaProps = serde_yaml::from_str(schema_str).unwrap();

    let structs = analyze(schema_node(&schema), "Agent", Cfg::default()).unwrap().output();

    let root = &structs[0];
    assert_eq!(root.name, "Agent");
    assert_eq!(root.level, 0);

    let map = &root.members[0];
    assert_eq!(map.name, "validations_info");
    assert_eq!(map.type_, "Option<AgentValidationsInfo>");

    let other = &structs[1];
    assert_eq!(other.name, "AgentValidationsInfo");
    assert_eq!(other.level, 1);
}

#[test]
fn camel_case_of_kinds_with_consecutive_upper_case_letters() {
    let schema_str = r#"
        properties:
          spec:
            type: object
          status:
            type: object
        type: object
"#;
    let schema: JSONSchemaProps = serde_yaml::from_str(schema_str).unwrap();

    let structs = analyze(schema_node(&schema), "ArgoCDExport", Cfg::default()).unwrap().output();

    let root = &structs[0];
    assert_eq!(root.name, "ArgoCdExport");
    assert_eq!(root.level, 0);

    let spec = &structs[1];
    assert_eq!(spec.name, "ArgoCdExportSpec");
    assert_eq!(spec.level, 1);

    let status = &structs[2];
    assert_eq!(status.name, "ArgoCdExportStatus");
    assert_eq!(status.level, 1);
}

#[test]
fn skipped_type_as_map_nested_in_array() {
    let schema_str = r#"
properties:
  records:
    items:
      additionalProperties:
        type: string
      type: object
    type: array
type: object
"#;
    let schema: JSONSchemaProps = serde_yaml::from_str(schema_str).unwrap();

    let structs = analyze(schema_node(&schema), "Geoip", Cfg::default()).unwrap().output();

    assert_eq!(structs.len(), 1);
    assert_eq!(structs[0].members.len(), 1);
    assert_eq!(structs[0].members[0].name, "records");
    assert_eq!(
        structs[0].members[0].type_,
        "Option<Vec<BTreeMap<String, String>>>"
    );
}

#[test]
fn uses_k8s_openapi_conditions() {
    let schema_str = r#"
properties:
  conditions:
    items:
      properties:
        lastTransitionTime:
          type: string  
        message:
          type: string  
        observedGeneration:
          type: integer
        reason:
          type: string
        status:
          type: string
        type:
          type: string
      type: object
    type: array
type: object
"#;

    let schema: JSONSchemaProps = serde_yaml::from_str(schema_str).unwrap();

    let structs = analyze(schema_node(&schema), "Gateway", Cfg::default()).unwrap().output();
    assert_eq!(structs.len(), 1);
    assert_eq!(structs[0].members.len(), 1);
    assert_eq!(structs[0].members[0].type_, "Option<Vec<Condition>>");
}

#[test]
fn uses_k8s_openapi_object_reference() {
    let schema_str = r#"
properties:
  myRef:
    properties:
      apiVersion:
        type: string
      fieldPath:
        type: string
      kind:
        type: string
      name:
        type: string
      namespace:
        type: string
      resourceVersion:
        type: string
      uid:
        type: string
    type: object
type: object
"#;

    let schema: JSONSchemaProps = serde_yaml::from_str(schema_str).unwrap();

    let structs = analyze(schema_node(&schema), "Reference", Cfg::default()).unwrap().output();
    assert_eq!(structs[0].members[0].type_, "Option<ObjectReference>");
}

#[test]
fn uses_k8s_openapi_object_reference_in_list() {
    let schema_str = r#"
        properties:
          controlPlaneRef:
            items:
              properties:
                apiVersion:
                  type: string
                fieldPath:
                  type: string
                kind:
                  type: string
                name:
                  type: string
                namespace:
                  type: string
                resourceVersion:
                  type: string
                uid:
                  type: string
              type: object
              x-kubernetes-map-type: atomic
            type: array
        type: object
        "#;

    let schema: JSONSchemaProps = serde_yaml::from_str(schema_str).unwrap();

    let structs = analyze(schema_node(&schema), "Reference", Cfg::default()).unwrap().output();
    assert_eq!(structs[0].members[0].type_, "Option<Vec<ObjectReference>>");
}

#[test]
fn lowercase_kind() {

    let schema_str = r#"
        properties:
          prop:
            type: object
        required:
        - prop
        type: object
        "#;

    let schema: JSONSchemaProps = serde_yaml::from_str(schema_str).unwrap();

    let structs = analyze(schema_node(&schema), "postgresql", Cfg::default()).unwrap().output();
    assert_eq!(structs[0].members[0].type_, "PostgresqlProp");
}

#[test]
fn nested_additional_properties_object() {

    // as found in rook-cephcluster
    let schema_str = r#"
        properties:
          cephConfigFromSecret:
            additionalProperties:
              additionalProperties:
                description: "SecretKeySelector selects a key of a Secret."
                properties:
                  key:
                    description: "The key of the secret to select from.  Must be a valid secret key."
                    type: "string"
                  name:
                    default: ""
                    description: "Name of the referent.\nThis field is effectively required, but due to backwards compatibility is\nallowed to be empty. Instances of this type with an empty value here are\nalmost certainly wrong.\nMore info: https://kubernetes.io/docs/concepts/overview/working-with-objects/names/#names"
                    type: "string"
                  optional:
                    description: "Specify whether the Secret or its key must be defined"
                    type: "boolean"
                required:
                  - "key"
                type: "object"
                x-kubernetes-map-type: "atomic"
              type: "object"
            description: "CephConfigFromSecret works exactly like CephConfig but takes config value from Secret Key reference."
            nullable: true
            type: "object"
        type: object
        "#;

    let schema: JSONSchemaProps = serde_yaml::from_str(schema_str).unwrap();

    let structs = analyze(schema_node(&schema), "CephClusterSpec", Cfg::default())
        .unwrap()
        .output();


    assert_eq!(structs.len(), 2);
    assert_eq!(
        structs[0].members[0].type_,
        "Option<BTreeMap<String, BTreeMap<String, CephClusterSpecCephConfigFromSecret>>>"
    );
    assert_eq!(structs[1].name, "CephClusterSpecCephConfigFromSecret");
}

#[test]
fn array_of_array() {
    let schema_str = r#"
      properties:
        mounts:
          description: mounts specifies a list of mount points to be setup.
          items:
            description: MountPoints defines input for generated mounts in cloud-init.
            items:
              type: string
            type: array
          type: array
      type: object
      "#;

    let schema: JSONSchemaProps = serde_yaml::from_str(schema_str).unwrap();

    let structs = analyze(schema_node(&schema), "KubeadmConfig", Cfg::default()).unwrap().output();

    let root = &structs[0];
    assert_eq!(root.name, "KubeadmConfig");
    assert_eq!(root.level, 0);

    let map = &root.members[0];
    assert_eq!(map.name, "mounts");
    assert_eq!(map.type_, "Option<Vec<Vec<String>>>");
}

fn parse(schema_str: &str) -> SchemaNode {
    let schema: JSONSchemaProps = serde_yaml::from_str(schema_str).unwrap();
    schema_node(&schema)
}

fn names_and_types(schema_str: &str, kind: &str, cfg: Cfg) -> Vec<(String, Vec<(String, String)>)> {
    analyze(parse(schema_str), kind, cfg)
        .unwrap()
        .output()
        .into_iter()
        .map(|c| {
            let members = c.members.into_iter().map(|m| (m.name, m.type_)).collect();
            (c.name, members)
        })
        .collect()
}

fn issue_of(schema_str: &str, cfg: Cfg) -> (kopium::Issue, String, String) {
    let error = analyze(parse(schema_str), "Kind", cfg).err().unwrap();
    (error.issue, error.stack, error.key)
}

#[test]
fn analysis_of_the_same_schema_is_the_same() {
    let schema_str = r#"
        type: object
        properties:
          b:
            type: array
            items:
              type: object
              properties:
                x: {type: string, enum: [p, q]}
          a:
            type: object
            additionalProperties:
              type: object
              properties:
                y: {type: integer}
"#;
    let first = analyze(parse(schema_str), "Kind", Cfg::default()).unwrap().output();
    let second = analyze(parse(schema_str), "Kind", Cfg::default()).unwrap().output();
    assert_eq!(format!("{first:?}"), format!("{second:?}"));
    let names: Vec<&str> = first.iter().map(|c| c.name.as_str()).collect();
    assert_eq!(names, vec!["Kind", "KindA", "KindB", "KindBX"]);
    let levels: Vec<u8> = first.iter().map(|c| c.level).collect();
    assert_eq!(levels, vec![0, 1, 1, 1]);
}

#[test]
fn a_required_scalar_is_unwrapped_and_any_other_is_optional() {
    let schema_str = r#"
        type: object
        required: [a, c, e, g, i]
        properties:
          a: {type: string}
          b: {type: string}
          c: {type: boolean}
          d: {type: boolean}
          e: {type: integer, format: uint8}
          f: {type: integer, format: int128}
          g: {type: number, format: float}
          h: {type: number}
          i: {type: date, format: date-time}
          j: {type: date, format: date}
          k: {type: date}
          l: {type: integer, format: other}
          m: {type: number, format: double}
"#;
    let found = names_and_types(schema_str, "Kind", Cfg::default());
    let types: Vec<&str> = found[0].1.iter().map(|(_, t)| t.as_str()).collect();
    assert_eq!(
        types,
        vec![
            "String",
            "Option<String>",
            "bool",
            "Option<bool>",
            "u8",
            "Option<i128>",
            "f32",
            "Option<f64>",
            "DateTime<Utc>",
            "Option<NaiveDate>",
            "Option<String>",
            "Option<i64>",
            "Option<f64>"
        ]
    );
    let structs = analyze(parse(schema_str), "Kind", Cfg::default()).unwrap().output();
    assert!(structs[0].members[0].serde_annot.is_empty());
    assert_eq!(
        structs[0].members[1].serde_annot,
        vec!["default".to_string(), "skip_serializing_if = \"Option::is_none\"".to_string()]
    );
}

#[test]
fn every_integer_format_has_its_type() {
    let formats = ["int8", "int16", "int32", "int64", "int128", "uint8", "uint16", "uint32", "uint64", "uint128"];
    let types = ["i8", "i16", "i32", "i64", "i128", "u8", "u16", "u32", "u64", "u128"];
    for (format, type_) in formats.iter().zip(types.iter()) {
        let schema_str = format!(
            "type: object\nrequired: [n]\nproperties:\n  n: {{type: integer, format: {format}}}\n"
        );
        let found = names_and_types(&schema_str, "Kind", Cfg::default());
        assert_eq!(found[0].1[0].1, *type_);
    }
}

#[test]
fn a_map_of_structs_has_a_definition_for_its_values() {
    let schema_str = r#"
        type: object
        properties:
          results:
            type: object
            additionalProperties:
              type: object
              properties:
                id: {type: string}
                message: {type: string}
                status: {type: string}
              required: [id, message, status]
"#;
    let found = names_and_types(schema_str, "Kind", Cfg::default());
    assert_eq!(
        found,
        vec![
            (
                "Kind".to_string(),
                vec![("results".to_string(), "Option<BTreeMap<String, KindResults>>".to_string())]
            ),
            (
                "KindResults".to_string(),
                vec![
                    ("id".to_string(), "String".to_string()),
                    ("message".to_string(), "String".to_string()),
                    ("status".to_string(), "String".to_string())
                ]
            )
        ]
    );
    let hashed = Cfg { map: kopium::MapType::HashMap, ..Cfg::default() };
    let found = names_and_types(schema_str, "Kind", hashed);
    assert_eq!(found[0].1[0].1, "Option<HashMap<String, KindResults>>");
}

#[test]
fn an_enum_of_numbers_has_variants_named_by_the_numbers() {
    let schema_str = r#"
        type: object
        properties:
          code:
            type: integer
            enum: [301, 302, 0]
"#;
    let structs = analyze(parse(schema_str), "Kind", Cfg::default()).unwrap().output();
    assert_eq!(structs[0].members[0].type_, "Option<i64>");
    assert_eq!(structs[1].name, "KindCode");
    assert!(structs[1].is_enum);
    let variants: Vec<&str> = structs[1].members.iter().map(|m| m.name.as_str()).collect();
    assert_eq!(variants, vec!["301", "302", "0"]);
}

#[test]
fn an_object_reference_has_no_definition_of_its_own() {
    let schema_str = r#"
properties:
  myRef:
    properties:
      apiVersion: {type: string}
      fieldPath: {type: string}
      kind: {type: string}
      name: {type: string}
      namespace: {type: string}
      resourceVersion: {type: string}
      uid: {type: string}
    type: object
  refs:
    type: array
    items:
      properties:
        apiVersion: {type: string}
        fieldPath: {type: string}
        kind: {type: string}
        name: {type: string}
        namespace: {type: string}
        resourceVersion: {type: string}
        uid: {type: string}
      type: object
type: object
"#;
    let found = names_and_types(schema_str, "Reference", Cfg::default());
    assert_eq!(found.len(), 1);
    assert_eq!(
        found[0].1,
        vec![
            ("myRef".to_string(), "Option<ObjectReference>".to_string()),
            ("refs".to_string(), "Option<Vec<ObjectReference>>".to_string())
        ]
    );
    let off = Cfg { no_object_reference: true, ..Cfg::default() };
    let found = names_and_types(schema_str, "Reference", off);
    let names: Vec<&str> = found.iter().map(|(name, _)| name.as_str()).collect();
    assert_eq!(names, vec!["Reference", "ReferenceMyRef", "ReferenceRefs"]);
    assert_eq!(found[0].1[0].1, "Option<ReferenceMyRef>");
    assert_eq!(found[0].1[1].1, "Option<Vec<ReferenceRefs>>");
    assert_eq!(found[1].1.len(), 7);
}

#[test]
fn an_object_with_eight_properties_is_no_object_reference() {
    let schema_str = r#"
properties:
  myRef:
    properties:
      apiVersion: {type: string}
      fieldPath: {type: string}
      kind: {type: string}
      name: {type: string}
      namespace: {type: string}
      resourceVersion: {type: string}
      uid: {type: string}
      more: {type: string}
    type: object
type: object
"#;
    let found = names_and_types(schema_str, "Reference", Cfg::default());
    assert_eq!(found.len(), 2);
    assert_eq!(found[0].1[0].1, "Option<ReferenceMyRef>");
}

#[test]
fn conditions_are_recognised_unless_switched_off() {
    let schema_str = r#"
properties:
  conditions:
    items:
      properties:
        lastTransitionTime: {type: string}
        message: {type: string}
        reason: {type: string}
        status: {type: string}
        type: {type: string}
      type: object
    type: array
  history:
    items:
      properties:
        lastTransitionTime: {type: string}
        message: {type: string}
        reason: {type: string}
        status: {type: string}
        type: {type: string}
        extra: {type: string}
      type: object
    type: array
  partial:
    items:
      properties:
        message: {type: string}
        status: {type: string}
        type: {type: string}
      type: object
    type: array
type: object
"#;
    let found = names_and_types(schema_str, "Gateway", Cfg::default());
    let names: Vec<&str> = found.iter().map(|(name, _)| name.as_str()).collect();
    assert_eq!(names, vec!["Gateway", "GatewayPartial"]);
    assert_eq!(
        found[0].1,
        vec![
            ("conditions".to_string(), "Option<Vec<Condition>>".to_string()),
            ("history".to_string(), "Option<Vec<Condition>>".to_string()),
            ("partial".to_string(), "Option<Vec<GatewayPartial>>".to_string())
        ]
    );
    let off = Cfg { no_condition: true, ..Cfg::default() };
    let found = names_and_types(schema_str, "Gateway", off);
    let names: Vec<&str> = found.iter().map(|(name, _)| name.as_str()).collect();
    assert_eq!(names, vec!["Gateway", "GatewayConditions", "GatewayHistory", "GatewayPartial"]);
}

#[test]
fn the_keys_of_every_resource_are_not_searched_at_the_root() {
    let schema_str = r#"
type: object
properties:
  apiVersion: {type: string}
  kind: {type: string}
  metadata: {type: object}
  spec:
    type: object
    properties:
      metadata:
        type: object
        properties:
          kind: {type: string, enum: [a]}
"#;
    let found = names_and_types(schema_str, "Kind", Cfg::default());
    let names: Vec<&str> = found.iter().map(|(name, _)| name.as_str()).collect();
    assert_eq!(names, vec!["Kind", "KindSpec", "KindSpecMetadata", "KindSpecMetadataKind"]);
    assert_eq!(found[0].1.len(), 4);
    assert_eq!(found[0].1[2], ("metadata".to_string(), "Option<KindMetadata>".to_string()));
}

#[test]
fn the_first_definition_of_a_name_stays() {
    let schema_str = r#"
type: object
properties:
  a_b:
    type: object
    properties:
      first: {type: string}
  aB:
    type: object
    properties:
      second: {type: string}
"#;
    let found = names_and_types(schema_str, "Kind", Cfg::default());
    let names: Vec<&str> = found.iter().map(|(name, _)| name.as_str()).collect();
    assert_eq!(names, vec!["Kind", "KindAb"]);
    assert_eq!(found[1].1, vec![("second".to_string(), "Option<String>".to_string())]);
    assert_eq!(found[0].1[0].1, "Option<KindAB>");
    assert_eq!(found[0].1[1].1, "Option<KindAB>");
}

#[test]
fn arrays_of_scalars_read_the_format_of_the_element() {
    let schema_str = r#"
type: object
properties:
  a: {type: array, items: {type: integer, format: int32}}
  b: {type: array, format: int32, items: {type: integer}}
  c: {type: array, items: {type: number}}
  d: {type: array, items: {type: boolean}}
  e: {type: array, items: {type: date, format: date}}
  f: {type: array, items: {type: array, items: {type: array, items: {type: boolean}}}}
  g: {type: array, items: {type: object, additionalProperties: {type: integer}}}
  h: {type: array, items: {type: number, format: float}}
  i: {type: array, format: date, items: {type: date}}
  j: {type: array, items: {type: array, items: {type: integer, format: uint8}}}
  k: {type: array, items: {type: date, format: date-time}}
"#;
    let found = names_and_types(schema_str, "Kind", Cfg::default());
    let types: Vec<&str> = found[0].1.iter().map(|(_, t)| t.as_str()).collect();
    assert_eq!(
        types,
        vec![
            "Option<Vec<i32>>",
            "Option<Vec<i64>>",
            "Option<Vec<f64>>",
            "Option<Vec<bool>>",
            "Option<Vec<NaiveDate>>",
            "Option<Vec<Vec<Vec<bool>>>>",
            "Option<Vec<BTreeMap<String, i64>>>",
            "Option<Vec<f32>>",
            "Option<Vec<String>>",
            "Option<Vec<Vec<u8>>>",
            "Option<Vec<DateTime<Utc>>>"
        ]
    );
}

#[test]
fn an_array_of_dates_with_an_unknown_format_fails() {
    let schema_str = "type: object\nproperties:\n  x: {type: array, items: {type: date, format: yesterday}}\n";
    assert_eq!(
        issue_of(schema_str, Cfg::default()),
        (kopium::Issue::UnknownDateFormat, "Kind".to_string(), "x".to_string())
    );
}

#[test]
fn maps_of_other_values() {
    let schema_str = r#"
type: object
properties:
  a: {type: object, additionalProperties: {x-kubernetes-int-or-string: true}}
  b: {type: object, additionalProperties: {type: quantity}}
  c: {type: object, additionalProperties: true}
  d: {type: object, additionalProperties: {type: array, items: {type: object, properties: {x: {type: string}}}}}
  e: {type: object, x-kubernetes-preserve-unknown-fields: true}
  f: {type: object, additionalProperties: {type: integer, format: uint16}}
"#;
    let found = names_and_types(schema_str, "Kind", Cfg::default());
    assert_eq!(
        found[0].1,
        vec![
            ("a".to_string(), "Option<BTreeMap<String, IntOrString>>".to_string()),
            ("b".to_string(), "Option<BTreeMap<String, Quantity>>".to_string()),
            ("c".to_string(), "Option<KindC>".to_string()),
            ("d".to_string(), "Option<BTreeMap<String, Vec<KindD>>>".to_string()),
            ("e".to_string(), "Option<BTreeMap<String, serde_json::Value>>".to_string()),
            ("f".to_string(), "Option<BTreeMap<String, u16>>".to_string())
        ]
    );
    let names: Vec<&str> = found.iter().map(|(name, _)| name.as_str()).collect();
    assert_eq!(names, vec!["Kind", "KindC", "KindD"]);
}

#[test]
fn what_cannot_be_resolved_fails_with_its_place() {
    let untyped = "type: object\nproperties:\n  x: {}\n";
    assert_eq!(
        issue_of(untyped, Cfg::default()),
        (kopium::Issue::UntypedValue, "Kind".to_string(), "x".to_string())
    );
    let unknown = "type: object\nproperties:\n  spec:\n    type: object\n    properties:\n      x: {type: mystery}\n";
    assert_eq!(
        issue_of(unknown, Cfg::default()),
        (kopium::Issue::UnknownType, "KindSpec".to_string(), "x".to_string())
    );
    let date = "type: object\nproperties:\n  x: {type: date, format: yesterday}\n";
    assert_eq!(issue_of(date, Cfg::default()).0, kopium::Issue::UnknownDateFormat);
    let missing = "type: object\nproperties:\n  x: {type: array}\n";
    assert_eq!(issue_of(missing, Cfg::default()).0, kopium::Issue::MissingItems);
    let tuple = "type: object\nproperties:\n  x: {type: array, items: [{type: string}, {type: integer}]}\n";
    assert_eq!(issue_of(tuple, Cfg::default()).0, kopium::Issue::TupleItems);
    let inner = "type: object\nproperties:\n  x: {type: array, items: {type: array}}\n";
    assert_eq!(issue_of(inner, Cfg::default()).0, kopium::Issue::EmptyInnerArray);
    let items = "type: object\nproperties:\n  x: {type: array, items: {}}\n";
    assert_eq!(issue_of(items, Cfg::default()).0, kopium::Issue::UntypedItems);
    let other = "type: object\nproperties:\n  x: {type: array, items: {type: mystery}}\n";
    assert_eq!(issue_of(other, Cfg::default()).0, kopium::Issue::UnsupportedItems);
    let map = "type: object\nproperties:\n  x: {type: object, additionalProperties: {}}\n";
    assert_eq!(issue_of(map, Cfg::default()).0, kopium::Issue::UntypedValue);
    let signed = "type: object\nproperties:\n  x: {type: integer, enum: [1, -1]}\n";
    assert_eq!(
        issue_of(signed, Cfg::default()),
        (kopium::Issue::SignedOrFloatVariant, "Kind".to_string(), "x".to_string())
    );
    let float = "type: object\nproperties:\n  x: {type: number, enum: [1.5]}\n";
    assert_eq!(issue_of(float, Cfg::default()).0, kopium::Issue::SignedOrFloatVariant);
    let odd = "type: object\nproperties:\n  x: {type: string, enum: [a, true]}\n";
    assert_eq!(issue_of(odd, Cfg::default()).0, kopium::Issue::UnsupportedVariant);
    let mixed = "type: object\nproperties:\n  x: {type: string, enum: [a, 1]}\n";
    assert_eq!(issue_of(mixed, Cfg::default()).0, kopium::Issue::MixedVariants);
}

#[test]
fn relaxed_reading_falls_back_to_a_map_of_anything() {
    let relaxed = || Cfg { relaxed: true, ..Cfg::default() };
    let schema_str = "type: object\nproperties:\n  x: {}\n  y: {type: array, items: {type: array}}\n";
    let found = names_and_types(schema_str, "Kind", relaxed());
    assert_eq!(
        found[0].1,
        vec![
            ("x".to_string(), "Option<BTreeMap<String, serde_json::Value>>".to_string()),
            ("y".to_string(), "Option<BTreeMap<String, serde_json::Value>>".to_string())
        ]
    );
    let strict_still = "type: object\nproperties:\n  x: {type: array, items: {}}\n";
    assert_eq!(issue_of(strict_still, relaxed()).0, kopium::Issue::UntypedItems);
}

fn nested_arrays(depth: usize) -> SchemaNode {
    let mut node = SchemaNode { type_: Some("string".to_string()), ..SchemaNode::default() };
    for _ in 0..depth {
        node = SchemaNode {
            type_: Some("array".to_string()),
            items: Some(SchemaOrArray::Schema(Box::new(node))),
            ..SchemaNode::default()
        };
    }
    node
}

fn holding(key: &str, schema: SchemaNode) -> SchemaNode {
    SchemaNode {
        type_: Some("object".to_string()),
        properties: Some(vec![Property { name: key.to_string(), schema }]),
        ..SchemaNode::default()
    }
}

#[test]
fn list_layers_follow_the_nesting_of_the_arrays() {
    for depth in [1usize, 2, 5, 255] {
        let structs = analyze(holding("x", nested_arrays(depth)), "Kind", Cfg::default()).unwrap().output();
        let expected = format!("Option<{}String{}>", "Vec<".repeat(depth), ">".repeat(depth));
        assert_eq!(structs[0].members[0].type_, expected);
        assert_eq!(structs.len(), 1);
    }
    let error = analyze(holding("x", nested_arrays(256)), "Kind", Cfg::default()).err().unwrap();
    assert_eq!(error.issue, kopium::Issue::TooDeep);
}

#[test]
fn objects_nested_too_deep_fail() {
    let mut node = SchemaNode { type_: Some("object".to_string()), ..SchemaNode::default() };
    for _ in 0..255 {
        node = holding("a", node);
    }
    let structs = analyze(node, "K", Cfg::default()).unwrap().output();
    assert_eq!(structs.len(), 256);
    assert_eq!(structs[255].level, 255);
    let mut node = SchemaNode { type_: Some("object".to_string()), ..SchemaNode::default() };
    for _ in 0..256 {
        node = holding("a", node);
    }
    let error = analyze(node, "K", Cfg::default()).err().unwrap();
    assert_eq!(error.issue, kopium::Issue::TooDeep);
    assert_eq!(error.key, "a");
}

#[test]
fn json_values_are_converted_in_key_order() {
    let value: serde_json::Value = serde_json::from_str(r#"{"b": [1, -2, 1.5, null], "a": "x"}"#).unwrap();
    match json_value(&value) {
        JsonValue::Object(members) => {
            assert_eq!(members.len(), 2);
            assert_eq!(members[0].key, "a");
            assert_eq!(members[1].key, "b");
            let JsonMember { value: list, .. } = &members[1];
            assert!(matches!(list, JsonValue::Array(items) if items.len() == 4
                && matches!(items[0], JsonValue::Number(JsonNumber::PosInt(1)))
                && matches!(items[1], JsonValue::Number(JsonNumber::NegInt(-2)))
                && matches!(items[2], JsonValue::Number(JsonNumber::Float(_)))
                && matches!(items[3], JsonValue::Null)));
        }
        _ => panic!("an object was expected"),
    }
    assert!(matches!(
        schema_or_bool(&JSONSchemaPropsOrBool::Bool(true)),
        SchemaOrBool::Bool(true)
    ));
}

#[test]
fn properties_of_a_parsed_schema_stand_in_key_order() {
    let node = parse("type: object\nproperties:\n  b: {type: string}\n  a: {type: string}\n  aa: {type: string}\n  B: {type: string}\n");
    let props = node.properties.unwrap();
    let keys: Vec<&str> = props.iter().map(|p| p.name.as_str()).collect();
    assert_eq!(keys, vec!["B", "a", "aa", "b"]);
    assert!(kopium::schema::keys_do_ascend(&props));
    let mut swapped = props;
    swapped.swap(1, 2);
    assert!(!kopium::schema::keys_do_ascend(&swapped));
    let twice = vec![
        Property { name: "a".to_string(), schema: SchemaNode::default() },
        Property { name: "a".to_string(), schema: SchemaNode::default() },
    ];
    assert!(!kopium::schema::keys_do_ascend(&twice));
    assert!(kopium::schema::keys_do_ascend(&vec![]));
}

#[test]
fn a_whole_tree_is_checked_for_key_order() {
    let ordered = parse(
        r#"
type: object
properties:
  a:
    type: array
    items:
      type: object
      properties:
        x: {type: string}
        y: {type: string, enum: [p, q]}
  b:
    type: object
    additionalProperties:
      type: object
      properties:
        m: {type: integer}
        n: {type: integer}
"#,
    );
    assert!(ordered.is_ordered());
    assert!(SchemaNode::default().is_ordered());

    let leaf = |name: &str| Property { name: name.to_string(), schema: SchemaNode::default() };
    let object = |props: Vec<Property>| SchemaNode {
        type_: Some("object".to_string()),
        properties: Some(props),
        ..SchemaNode::default()
    };
    assert!(object(vec![leaf("a"), leaf("b")]).is_ordered());
    assert!(!object(vec![leaf("b"), leaf("a")]).is_ordered());
    assert!(!object(vec![leaf("a"), leaf("a")]).is_ordered());

    let unordered = || object(vec![leaf("z"), leaf("y")]);
    let under_key = object(vec![Property { name: "k".to_string(), schema: unordered() }]);
    assert!(!under_key.is_ordered());
    let under_items = SchemaNode {
        items: Some(SchemaOrArray::Schema(Box::new(unordered()))),
        ..SchemaNode::default()
    };
    assert!(!under_items.is_ordered());
    let under_tuple = SchemaNode {
        items: Some(SchemaOrArray::Schemas(vec![SchemaNode::default(), unordered()])),
        ..SchemaNode::default()
    };
    assert!(!under_tuple.is_ordered());
    let under_additional = SchemaNode {
        additional_properties: Some(SchemaOrBool::Schema(Box::new(unordered()))),
        ..SchemaNode::default()
    };
    assert!(!under_additional.is_ordered());
    let switch = SchemaNode {
        additional_properties: Some(SchemaOrBool::Bool(true)),
        additional_items: Some(SchemaOrBool::Bool(false)),
        ..SchemaNode::default()
    };
    assert!(switch.is_ordered());
    let under_more_items = SchemaNode {
        additional_items: Some(SchemaOrBool::Schema(Box::new(unordered()))),
        ..SchemaNode::default()
    };
    assert!(!under_more_items.is_ordered());
    let under_one_of = SchemaNode { one_of: Some(vec![unordered()]), ..SchemaNode::default() };
    assert!(!under_one_of.is_ordered());
    let under_all_of = SchemaNode { all_of: Some(vec![unordered()]), ..SchemaNode::default() };
    assert!(!under_all_of.is_ordered());
    let under_any_of = SchemaNode { any_of: Some(vec![unordered()]), ..SchemaNode::default() };
    assert!(!under_any_of.is_ordered());
    let under_not = SchemaNode { not: Some(Box::new(unordered())), ..SchemaNode::default() };
    assert!(!under_not.is_ordered());

    let entry = |key: &str| JsonMember { key: key.to_string(), value: JsonValue::Null };
    let sorted = JsonValue::Object(vec![entry("a"), entry("b")]);
    let unsorted = || JsonValue::Object(vec![entry("b"), entry("a")]);
    assert!(kopium::schema::json_is_ordered(&sorted));
    assert!(!kopium::schema::json_is_ordered(&unsorted()));
    assert!(!kopium::schema::json_is_ordered(&JsonValue::Array(vec![JsonValue::Null, unsorted()])));
    assert!(!kopium::schema::json_is_ordered(&JsonValue::Object(vec![JsonMember {
        key: "k".to_string(),
        value: unsorted(),
    }])));
    let with_enum = SchemaNode { enum_: Some(vec![unsorted()]), ..SchemaNode::default() };
    assert!(!with_enum.is_ordered());
}

#[test]
fn members_of_an_unordered_tree_stand_as_the_properties_do() {
    let leaf = |name: &str| Property {
        name: name.to_string(),
        schema: SchemaNode { type_: Some("string".to_string()), ..SchemaNode::default() },
    };
    let root = SchemaNode {
        type_: Some("object".to_string()),
        properties: Some(vec![leaf("b"), leaf("a")]),
        ..SchemaNode::default()
    };
    assert!(!root.is_ordered());
    let output = analyze(root, "Kind", Cfg::default()).unwrap().output();
    let names: Vec<&str> = output[0].members.iter().map(|m| m.name.as_str()).collect();
    assert_eq!(names, vec!["b", "a"]);
}

#[test]
fn an_object_reference_is_known_by_its_seven_keys() {
    let keys = ["apiVersion", "fieldPath", "kind", "name", "namespace", "resourceVersion", "uid"];
    let with_keys = |keys: &[&str], type_: &str| SchemaNode {
        type_: Some("object".to_string()),
        properties: Some(
            keys.iter()
                .map(|key| Property {
                    name: key.to_string(),
                    schema: SchemaNode { type_: Some(type_.to_string()), ..SchemaNode::default() },
                })
                .collect(),
        ),
        ..SchemaNode::default()
    };
    assert!(kopium::analyzer::is_object_ref(&with_keys(&keys, "string")));
    assert!(kopium::analyzer::is_object_ref(&with_keys(&keys, "integer")));
    assert!(kopium::analyzer::is_object_ref(&with_keys(&keys, "object")));
    for missing in 0..keys.len() {
        let mut fewer = keys.to_vec();
        fewer.remove(missing);
        assert!(!kopium::analyzer::is_object_ref(&with_keys(&fewer, "string")), "{missing}");
        fewer.push("other");
        fewer.sort();
        assert!(!kopium::analyzer::is_object_ref(&with_keys(&fewer, "string")), "{missing}");
    }
    let mut more = keys.to_vec();
    more.push("zone");
    assert!(!kopium::analyzer::is_object_ref(&with_keys(&more, "string")));
    assert!(!kopium::analyzer::is_object_ref(&with_keys(&[], "string")));
    assert!(!kopium::analyzer::is_object_ref(&SchemaNode::default()));
}
