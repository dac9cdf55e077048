use socle::json::{coerce_boolean_and_2020_schemas, rewrite_nullable_for_progenitor, to_3_0, Json};

fn s(t: &str) -> Json {
    Json::Str(t.to_string())
}

fn obj(members: Vec<(&str, Json)>) -> Json {
    Json::Object(members.into_iter().map(|(k, v)| (k.to_string(), v)).collect())
}

fn get<'a>(j: &'a Json, key: &str) -> Option<&'a Json> {
    match j {
        Json::Object(ms) => ms.iter().find(|(k, _)| k == key).map(|(_, v)| v),
        _ => None,
    }
}

fn keys(j: &Json) -> Vec<String> {
    match j {
        Json::Object(ms) => ms.iter().map(|(k, _)| k.clone()).collect(),
        _ => vec![],
    }
}

fn from_value(v: &serde_json::Value) -> Json {
    match v {
        serde_json::Value::Null => Json::Null,
        serde_json::Value::Bool(b) => Json::Bool(*b),
        serde_json::Value::Number(n) => Json::Number(n.to_string()),
        serde_json::Value::String(t) => Json::Str(t.clone()),
        serde_json::Value::Array(a) => Json::Array(a.iter().map(from_value).collect()),
        serde_json::Value::Object(m) => {
            Json::Object(m.iter().map(|(k, v)| (k.clone(), from_value(v))).collect())
        }
    }
}

#[test]
fn rewrite_nullable_for_progenitor_round_trip() {
    let val = obj(vec![("type", Json::Array(vec![s("string"), s("null")]))]);
    let out = rewrite_nullable_for_progenitor(val);
    assert!(matches!(get(&out, "type"), Some(Json::Str(t)) if t == "string"));
    assert!(matches!(get(&out, "nullable"), Some(Json::Bool(true))));
}

#[test]
fn to_3_0_pretty_json_version_field() {
    let api = utoipa::openapi::OpenApiBuilder::new()
        .info(utoipa::openapi::InfoBuilder::new().title("test").version("0.1.0").build())
        .build();
    let value = serde_json::to_value(&api).unwrap();
    let out = to_3_0(from_value(&value));
    assert!(matches!(get(&out, "openapi"), Some(Json::Str(t)) if t == "3.0.3"));
}

#[test]
fn type_array_without_null_is_collapsed_without_nullable() {
    let out = rewrite_nullable_for_progenitor(obj(vec![("type", Json::Array(vec![s("integer")]))]));
    assert!(matches!(get(&out, "type"), Some(Json::Str(t)) if t == "integer"));
    assert!(get(&out, "nullable").is_none());
    let out = rewrite_nullable_for_progenitor(obj(vec![(
        "type",
        Json::Array(vec![s("integer"), s("string")]),
    )]));
    assert!(matches!(get(&out, "type"), Some(Json::Array(_))));
}

#[test]
fn one_of_with_null_arm_merges_the_remaining_arm() {
    let input = obj(vec![
        ("description", s("kept")),
        (
            "oneOf",
            Json::Array(vec![
                obj(vec![("type", s("null"))]),
                obj(vec![("$ref", s("#/components/schemas/Pet")), ("description", s("arm"))]),
            ]),
        ),
    ]);
    let out = rewrite_nullable_for_progenitor(input);
    assert!(get(&out, "oneOf").is_none());
    assert!(matches!(get(&out, "nullable"), Some(Json::Bool(true))));
    assert!(matches!(get(&out, "$ref"), Some(Json::Str(t)) if t == "#/components/schemas/Pet"));
    assert!(matches!(get(&out, "description"), Some(Json::Str(t)) if t == "kept"));
}

#[test]
fn any_of_with_several_remaining_arms_keeps_them() {
    let input = obj(vec![(
        "anyOf",
        Json::Array(vec![obj(vec![("type", s("string"))]), obj(vec![("type", s("null"))]), obj(vec![("type", s("integer"))])]),
    )]);
    let out = rewrite_nullable_for_progenitor(input);
    match get(&out, "anyOf") {
        Some(Json::Array(arms)) => assert_eq!(arms.len(), 2),
        _ => panic!("anyOf should remain"),
    }
    assert!(matches!(get(&out, "nullable"), Some(Json::Bool(true))));
}

#[test]
fn examples_become_example_and_property_names_go() {
    let input = obj(vec![
        ("propertyNames", obj(vec![])),
        ("examples", Json::Array(vec![Json::Number("1".into()), Json::Number("2".into())])),
        ("items", Json::Array(vec![obj(vec![("examples", Json::Array(vec![s("x")]))])])),
    ]);
    let out = rewrite_nullable_for_progenitor(input);
    assert!(get(&out, "propertyNames").is_none());
    assert!(get(&out, "examples").is_none());
    assert!(matches!(get(&out, "example"), Some(Json::Number(n)) if n == "1"));
    match get(&out, "items") {
        Some(Json::Array(items)) => assert!(matches!(get(&items[0], "example"), Some(Json::Str(t)) if t == "x")),
        _ => panic!("items should remain"),
    }
}

#[test]
fn boolean_schemas_and_2020_keywords_are_coerced() {
    let input = obj(vec![
        ("additionalProperties", Json::Bool(true)),
        ("items", Json::Bool(false)),
        ("$schema", s("https://json-schema.org/draft/2020-12/schema")),
        ("unevaluatedProperties", Json::Bool(false)),
        ("required", Json::Bool(true)),
        ("properties", obj(vec![("a", obj(vec![("not", Json::Bool(true))]))])),
    ]);
    let out = coerce_boolean_and_2020_schemas(input);
    assert_eq!(keys(&out), vec!["additionalProperties", "required", "properties"]);
    assert!(matches!(get(&out, "additionalProperties"), Some(Json::Object(m)) if m.is_empty()));
    assert!(matches!(get(&out, "required"), Some(Json::Bool(true))));
    let inner = get(get(get(&out, "properties").unwrap(), "a").unwrap(), "not").unwrap();
    assert!(matches!(inner, Json::Object(m) if m.is_empty()));
}

#[test]
fn license_identifier_is_dropped() {
    let input = obj(vec![
        ("openapi", s("3.1.0")),
        ("info", obj(vec![("license", obj(vec![("name", s("MIT")), ("identifier", s("MIT"))]))])),
    ]);
    let out = to_3_0(input);
    assert!(matches!(get(&out, "openapi"), Some(Json::Str(t)) if t == "3.0.3"));
    let lic = get(get(&out, "info").unwrap(), "license").unwrap();
    assert_eq!(keys(lic), vec!["name"]);
}

#[test]
fn documents_with_the_same_content_are_rewritten_alike() {
    let make = || {
        obj(vec![
            ("type", Json::Array(vec![s("null"), s("integer")])),
            ("examples", Json::Array(vec![Json::Number("3".into())])),
            ("oneOf", Json::Array(vec![obj(vec![("type", s("null"))]), obj(vec![("minimum", Json::Number("0".into()))])])),
        ])
    };
    let a = to_3_0(make());
    let b = to_3_0(make());
    assert_eq!(format!("{a:?}"), format!("{b:?}"));
    assert!(matches!(get(&a, "type"), Some(Json::Str(t)) if t == "integer"));
    assert!(matches!(get(&a, "nullable"), Some(Json::Bool(true))));
    assert!(matches!(get(&a, "example"), Some(Json::Number(n)) if n == "3"));
    assert!(get(&a, "oneOf").is_none());
    assert!(matches!(get(&a, "minimum"), Some(Json::Number(n)) if n == "0"));
}

#[test]
fn documents_without_nullable_patterns_are_unchanged() {
    let make = || {
        obj(vec![
            ("type", Json::Array(vec![s("string"), s("integer")])),
            ("oneOf", Json::Array(vec![obj(vec![("type", s("string"))])])),
            ("properties", obj(vec![("a", obj(vec![("type", s("integer"))]))])),
        ])
    };
    let out = rewrite_nullable_for_progenitor(make());
    assert_eq!(format!("{out:?}"), format!("{:?}", make()));
}
