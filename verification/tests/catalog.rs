use fig2json::components::{extract_components_and_styles, refine_metadata};
use fig2json::json::{Json, JsonNumber};
use fig2json::number::{double_json, matrix_bits};
use fig2json::text::{guid_string, str_le};

fn num(u: u64) -> Json {
    Json::Number(JsonNumber::PosInt(u))
}

fn text(s: &str) -> Json {
    Json::String(s.to_string())
}

fn obj(entries: Vec<(&str, Json)>) -> Json {
    Json::Object(entries.into_iter().map(|(k, v)| (k.to_string(), v)).collect())
}

fn guid(session: u64, local: u64) -> Json {
    obj(vec![("sessionID", num(session)), ("localID", num(local))])
}

fn wrapped(s: &str) -> Json {
    obj(vec![("value", text(s))])
}

fn keys(v: &Json) -> Vec<String> {
    match v {
        Json::Object(es) => {
            let mut ks: Vec<String> = es.iter().map(|(k, _)| k.clone()).collect();
            ks.sort();
            ks
        }
        _ => panic!("not an object"),
    }
}

#[test]
fn metadata_unwraps_values_and_defaults_description() {
    let node = obj(vec![
        ("name", wrapped("Button")),
        ("key", text("abc")),
        ("remote", Json::Bool(false)),
        ("styleType", wrapped("FILL")),
        ("other", num(1)),
    ]);
    let m = refine_metadata(&node);
    assert_eq!(m.get("name"), Some(&text("Button")));
    assert_eq!(m.get("key"), Some(&text("abc")));
    assert_eq!(m.get("remote"), Some(&Json::Bool(false)));
    assert_eq!(m.get("styleType"), Some(&text("FILL")));
    assert_eq!(m.get("description"), Some(&text("")));
    assert_eq!(m.get("other"), None);
}

#[test]
fn metadata_keeps_a_description() {
    let m = refine_metadata(&obj(vec![("description", wrapped("Primary"))]));
    assert_eq!(keys(&m), vec!["description"]);
    assert_eq!(m.get("description"), Some(&text("Primary")));
}

#[test]
fn metadata_of_a_non_object_is_empty() {
    assert_eq!(refine_metadata(&text("x")), Json::Object(vec![]));
}

#[test]
fn components_styles_and_sets_collected_by_guid() {
    let nodes = vec![
        obj(vec![("guid", guid(1, 2)), ("type", wrapped("SYMBOL")), ("name", wrapped("Button"))]),
        obj(vec![("guid", guid(1, 3)), ("type", wrapped("COMPONENT_SET")), ("name", text("Set"))]),
        obj(vec![("guid", guid(1, 4)), ("type", wrapped("FRAME")), ("isStateGroup", Json::Bool(true))]),
        obj(vec![("guid", guid(1, 5)), ("type", wrapped("FRAME"))]),
        obj(vec![("guid", guid(1, 6)), ("styleType", wrapped("TEXT")), ("name", text("Heading"))]),
        obj(vec![("guid", guid(1, 7)), ("styleType", text("TEXT"))]),
        obj(vec![("guid", guid(1, 8)), ("type", text("SYMBOL"))]),
        obj(vec![("type", wrapped("SYMBOL"))]),
        obj(vec![("guid", obj(vec![])), ("type", wrapped("SYMBOL")), ("styleType", wrapped("FILL"))]),
        text("not a node"),
    ];
    let (components, styles, sets) = extract_components_and_styles(&nodes);
    assert_eq!(keys(&components), vec!["0:0", "1:2"]);
    assert_eq!(keys(&sets), vec!["1:3", "1:4"]);
    assert_eq!(keys(&styles), vec!["0:0", "1:6"]);
    let button = components.get("1:2").unwrap();
    assert_eq!(button.get("name"), Some(&text("Button")));
    assert_eq!(button.get("description"), Some(&text("")));
    assert_eq!(styles.get("1:6").unwrap().get("styleType"), Some(&text("TEXT")));
    assert_eq!(styles.get("0:0").unwrap().get("styleType"), Some(&text("FILL")));
}

#[test]
fn later_component_replaces_earlier() {
    let nodes = vec![
        obj(vec![("guid", guid(1, 2)), ("type", wrapped("SYMBOL")), ("name", text("old"))]),
        obj(vec![("guid", guid(1, 2)), ("type", wrapped("SYMBOL")), ("name", text("new"))]),
    ];
    let (components, _, _) = extract_components_and_styles(&nodes);
    assert_eq!(keys(&components), vec!["1:2"]);
    assert_eq!(components.get("1:2").unwrap().get("name"), Some(&text("new")));
}

#[test]
fn guid_text_is_session_colon_local() {
    assert_eq!(guid_string(0, 0), "0:0");
    assert_eq!(guid_string(12, 345), "12:345");
    assert_eq!(guid_string(u64::MAX, 10), "18446744073709551615:10");
}

#[test]
fn string_order_is_byte_order() {
    assert!(str_le("", "a"));
    assert!(str_le("B", "a"));
    assert!(!str_le("a", "B"));
    assert!(str_le("10", "9"));
    assert!(str_le("ab", "ab"));
    assert!(!str_le("abc", "ab"));
    assert!(str_le("z", "é"));
}

#[test]
fn matrix_members_read_as_doubles() {
    let t = obj(vec![
        ("m00", num(2)),
        ("m02", Json::Number(JsonNumber::NegInt(-3))),
        ("m12", Json::Number(JsonNumber::Float(0.5f64.to_bits()))),
        ("m10", text("x")),
    ]);
    assert_eq!(
        matrix_bits(&t),
        (2.0f64.to_bits(), 0.0f64.to_bits(), (-3.0f64).to_bits(), 0.0f64.to_bits(), 1.0f64.to_bits(), 0.5f64.to_bits())
    );
    assert_eq!(
        matrix_bits(&text("none")),
        (1.0f64.to_bits(), 0.0f64.to_bits(), 0.0f64.to_bits(), 0.0f64.to_bits(), 1.0f64.to_bits(), 0.0f64.to_bits())
    );
}

#[test]
fn integer_members_become_numbers() {
    let big = num(u64::MAX);
    assert_eq!(double_json(Some(&big), 0), Json::Number(JsonNumber::Float((u64::MAX as f64).to_bits())));
    let neg = Json::Number(JsonNumber::NegInt(i64::MIN));
    assert_eq!(double_json(Some(&neg), 0), Json::Number(JsonNumber::Float((i64::MIN as f64).to_bits())));
    assert_eq!(double_json(Some(&text("1")), 1.0f64.to_bits()), Json::Number(JsonNumber::Float(1.0f64.to_bits())));
    assert_eq!(double_json(None, f64::NAN.to_bits()), Json::Null);
}
