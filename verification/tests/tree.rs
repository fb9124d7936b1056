use fig2json::json::{Json, JsonNumber};
use fig2json::schema::tree::build_tree;

fn num(u: u64) -> Json {
    Json::Number(JsonNumber::PosInt(u))
}

fn text(s: &str) -> Json {
    Json::String(s.to_string())
}

fn obj(entries: Vec<(&str, Json)>) -> Json {
    Json::Object(entries.into_iter().map(|(k, v)| (k.to_string(), v)).collect())
}

fn guid(session: u64, local: u64) -> Json {
    obj(vec![("sessionID", num(session)), ("localID", num(local))])
}

fn member<'a>(v: &'a Json, key: &str) -> &'a Json {
    v.get(key).expect("member present")
}

fn element(v: &Json, i: usize) -> &Json {
    match v {
        Json::Array(items) => &items[i],
        _ => panic!("not an array"),
    }
}

#[test]
fn test_build_tree_simple() {
    let node_changes = vec![
        obj(vec![("guid", guid(0, 0)), ("name", text("Document"))]),
        obj(vec![
            ("guid", guid(1, 1)),
            ("name", text("Page")),
            ("parentIndex", obj(vec![("guid", guid(0, 0)), ("position", text("!"))])),
        ]),
    ];

    let root = build_tree(node_changes).unwrap();
    assert_eq!(member(&root, "name"), &text("Document"));
    assert_eq!(member(element(member(&root, "children"), 0), "name"), &text("Page"));
}

#[test]
fn test_build_tree_nested() {
    let node_changes = vec![
        obj(vec![("guid", guid(0, 0)), ("name", text("Document"))]),
        obj(vec![
            ("guid", guid(1, 1)),
            ("name", text("Page")),
            ("parentIndex", obj(vec![("guid", guid(0, 0)), ("position", text("!"))])),
        ]),
        obj(vec![
            ("guid", guid(1, 2)),
            ("name", text("Frame")),
            ("parentIndex", obj(vec![("guid", guid(1, 1)), ("position", text("!"))])),
        ]),
    ];

    let root = build_tree(node_changes).unwrap();
    let page = element(member(&root, "children"), 0);
    assert_eq!(member(element(member(page, "children"), 0), "name"), &text("Frame"));
}

#[test]
fn test_build_tree_ordering() {
    let node_changes = vec![
        obj(vec![("guid", guid(0, 0)), ("name", text("Document"))]),
        obj(vec![
            ("guid", guid(1, 2)),
            ("name", text("Child B")),
            ("parentIndex", obj(vec![("guid", guid(0, 0)), ("position", text("B"))])),
        ]),
        obj(vec![
            ("guid", guid(1, 1)),
            ("name", text("Child A")),
            ("parentIndex", obj(vec![("guid", guid(0, 0)), ("position", text("A"))])),
        ]),
    ];

    let root = build_tree(node_changes).unwrap();
    let children = member(&root, "children");
    assert_eq!(member(element(children, 0), "name"), &text("Child A"));
    assert_eq!(member(element(children, 1), "name"), &text("Child B"));
}
