use processor::anonymize::{anonymize_event, sensitive_paths, Anonymize};
use processor::helper::{anonymize_property, is_event_sensitive};
use processor::json::{Json, Member};
use processor::json_text::{parse_line, to_line};

fn s(text: &str) -> Json {
    Json::Str(text.to_string())
}

fn obj(members: Vec<(&str, Json)>) -> Json {
    Json::Object(
        members
            .into_iter()
            .map(|(k, v)| Member { key: k.to_string(), value: v })
            .collect(),
    )
}

fn member<'a>(j: &'a Json, key: &str) -> Option<&'a Json> {
    match j {
        Json::Object(ms) => ms.iter().find(|m| m.key == key).map(|m| &m.value),
        _ => None,
    }
}

fn as_str(j: Option<&Json>) -> Option<&str> {
    match j {
        Some(Json::Str(t)) => Some(t.as_str()),
        _ => None,
    }
}

fn event() -> Json {
    obj(vec![
        ("sensitive", Json::Bool(true)),
        ("paths", Json::Array(vec![s("$.user.name"), Json::Number("3".to_string()), s("$.user.email")])),
        ("user", obj(vec![("name", s("Alice")), ("email", s("alice@example.com")), ("age", Json::Number("30".to_string()))])),
        ("id", Json::Number("7".to_string())),
    ])
}

#[test]
fn anonymize_nested_property() {
    let mut j = event();
    assert!(anonymize_property(&mut j, "$.user.name"));
    let user = member(&j, "user");
    assert_eq!(as_str(member(user.unwrap(), "name")), Some("Anonymize"));
    assert_eq!(as_str(member(user.unwrap(), "email")), Some("alice@example.com"));
}

#[test]
fn anonymize_top_level_property() {
    let mut j = obj(vec![("a", s("x")), ("b", s("y"))]);
    assert!(anonymize_property(&mut j, "$.b"));
    assert_eq!(as_str(member(&j, "b")), Some("Anonymize"));
    assert_eq!(as_str(member(&j, "a")), Some("x"));
    match &j {
        Json::Object(ms) => assert_eq!(ms.len(), 2),
        _ => panic!("not an object"),
    }
}

#[test]
fn anonymize_adds_missing_leaf() {
    let mut j = obj(vec![("a", obj(vec![]))]);
    assert!(anonymize_property(&mut j, "$.a.new"));
    assert_eq!(as_str(member(member(&j, "a").unwrap(), "new")), Some("Anonymize"));
}

#[test]
fn anonymize_missing_intermediate_fails() {
    let mut j = obj(vec![("a", s("x"))]);
    assert!(!anonymize_property(&mut j, "$.missing.leaf"));
    assert_eq!(as_str(member(&j, "a")), Some("x"));
    assert!(member(&j, "missing").is_none());
}

#[test]
fn anonymize_through_non_object_fails() {
    let mut j = obj(vec![("a", s("x"))]);
    assert!(!anonymize_property(&mut j, "$.a.b"));
    assert_eq!(as_str(member(&j, "a")), Some("x"));
    let mut arr = Json::Array(vec![s("x")]);
    assert!(!anonymize_property(&mut arr, "$.0"));
}

#[test]
fn anonymize_root_only_path_fails() {
    let mut j = obj(vec![("a", s("x"))]);
    assert!(!anonymize_property(&mut j, "$"));
    assert!(!anonymize_property(&mut j, ""));
    assert_eq!(as_str(member(&j, "a")), Some("x"));
}

#[test]
fn anonymize_twice_is_stable() {
    let mut j = event();
    assert!(anonymize_property(&mut j, "$.id"));
    assert!(anonymize_property(&mut j, "$.id"));
    assert_eq!(as_str(member(&j, "id")), Some("Anonymize"));
}

#[test]
fn sensitivity_flag() {
    assert!(is_event_sensitive(&event()));
    assert!(!is_event_sensitive(&obj(vec![("sensitive", Json::Bool(false))])));
    assert!(!is_event_sensitive(&obj(vec![("sensitive", s("true"))])));
    assert!(!is_event_sensitive(&obj(vec![])));
    assert!(!is_event_sensitive(&Json::Array(vec![Json::Bool(true)])));
    assert!(!is_event_sensitive(&Json::Null));
}

#[test]
fn paths_skip_non_strings() {
    let paths = sensitive_paths(&event());
    assert_eq!(paths, vec!["$.user.name".to_string(), "$.user.email".to_string()]);
    assert!(sensitive_paths(&obj(vec![("paths", s("$.a"))])).is_empty());
    assert!(sensitive_paths(&obj(vec![])).is_empty());
}

#[test]
fn sensitive_event_is_anonymized() {
    let out = anonymize_event(event());
    assert_eq!(out.anonymized, vec!["$.user.name".to_string(), "$.user.email".to_string()]);
    let user = member(&out.event, "user").unwrap();
    assert_eq!(as_str(member(user, "name")), Some("Anonymize"));
    assert_eq!(as_str(member(user, "email")), Some("Anonymize"));
    match member(user, "age") {
        Some(Json::Number(n)) => assert_eq!(n, "30"),
        _ => panic!("age changed"),
    }
}

#[test]
fn insensitive_event_passes_unchanged() {
    let j = obj(vec![
        ("sensitive", Json::Bool(false)),
        ("paths", Json::Array(vec![s("$.name")])),
        ("name", s("Bob")),
    ]);
    let out = anonymize_event(j);
    assert!(out.anonymized.is_empty());
    assert_eq!(as_str(member(&out.event, "name")), Some("Bob"));
}

#[test]
fn unresolvable_paths_are_not_reported() {
    let j = obj(vec![
        ("sensitive", Json::Bool(true)),
        ("paths", Json::Array(vec![s("$.nope.x"), s("$.name")])),
        ("name", s("Bob")),
    ]);
    let out = anonymize_event(j);
    assert_eq!(out.anonymized, vec!["$.name".to_string()]);
}

fn value(text: &str) -> serde_json::Value {
    serde_json::from_str(text).unwrap()
}

#[test]
fn read_drops_unparsed_lines() {
    let stage = Anonymize::default();
    let lines = vec![
        Some(r#"{"sensitive":true,"paths":["$.a"],"a":1}"#.to_string()),
        None,
        Some("not json".to_string()),
        Some(r#"{"x":"y"}"#.to_string()),
    ];
    let mut path = "in/data.json".to_string();
    let out = stage.read(lines, &mut path, 0);
    assert_eq!(path, "in/00000000-0000-0000-0000-000000000000.json");
    assert_eq!(out.len(), 2);
    assert_eq!(out[0].anonymized, vec!["$.a".to_string()]);
    assert_eq!(value(&out[0].text), value(r#"{"sensitive":true,"paths":["$.a"],"a":"Anonymize"}"#));
    assert!(out[1].anonymized.is_empty());
    assert_eq!(value(&out[1].text), value(r#"{"x":"y"}"#));
}

#[test]
fn read_names_output_and_anonymizes() {
    let stage = Anonymize::default();
    let lines = vec![
        Some(r#"{"sensitive":true,"paths":["$.user.name"],"user":{"name":"Bob","age":3}}"#.to_string()),
        Some("not json".to_string()),
        Some(r#"{"sensitive":false,"user":{"name":"Ann"}}"#.to_string()),
    ];
    let mut path = "/tmp/in.json".to_string();
    let out = stage.read(lines, &mut path, 0);
    assert_eq!(path, "/tmp/00000000-0000-0000-0000-000000000000.json");
    assert_eq!(out.len(), 2);
    assert_eq!(
        value(&out[0].text),
        value(r#"{"sensitive":true,"paths":["$.user.name"],"user":{"name":"Anonymize","age":3}}"#)
    );
    assert_eq!(value(&out[1].text), value(r#"{"sensitive":false,"user":{"name":"Ann"}}"#));
    let user = member(&out[0].event, "user").unwrap();
    assert_eq!(as_str(member(user, "name")), Some("Anonymize"));
    assert!(matches!(member(user, "age"), Some(Json::Number(n)) if n == "3"));
}

#[test]
fn parse_and_print_lines() {
    assert!(parse_line("not json").is_none());
    assert!(parse_line("").is_none());
    let j = parse_line(r#"{"b":[1,2.5,null,true],"a":"x"}"#).unwrap();
    assert_eq!(as_str(member(&j, "a")), Some("x"));
    assert!(matches!(member(&j, "b"), Some(Json::Array(items)) if items.len() == 4));
    assert_eq!(value(&to_line(&j)), value(r#"{"a":"x","b":[1,2.5,null,true]}"#));
    let dup = parse_line(r#"{"k":1,"k":2}"#).unwrap();
    match &dup {
        Json::Object(ms) => assert_eq!(ms.len(), 1),
        _ => panic!("not an object"),
    }
    assert_eq!(to_line(&Json::Str("é\"".to_string())), r#""é\"""#);
}

#[test]
fn anonymize_lines_keeps_order() {
    let stage = Anonymize::default();
    let out = stage.anonymize_lines(vec![Some("1".to_string()), Some("[]".to_string())]);
    assert_eq!(out.len(), 2);
    assert_eq!(out[0].text, "1");
    assert_eq!(out[1].text, "[]");
}
