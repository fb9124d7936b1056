use fig2json::json::{Json, JsonNumber};
use fig2json::schema::tree::{build_tree, build_tree_layout, format_guid, format_parent_guid};
use fig2json::FigError;

fn num(u: u64) -> Json {
    Json::Number(JsonNumber::PosInt(u))
}

fn text(s: &str) -> Json {
    Json::String(s.to_string())
}

fn obj(entries: Vec<(&str, Json)>) -> Json {
    Json::Object(entries.into_iter().map(|(k, v)| (k.to_string(), v)).collect())
}

fn guid(session: u64, local: u64) -> Json {
    obj(vec![("sessionID", num(session)), ("localID", num(local))])
}

fn node(session: u64, local: u64, name: &str) -> Json {
    obj(vec![("guid", guid(session, local)), ("name", text(name))])
}

fn child(session: u64, local: u64, name: &str, parent: (u64, u64), position: &str) -> Json {
    obj(vec![
        ("guid", guid(session, local)),
        ("name", text(name)),
        ("parentIndex", obj(vec![("guid", guid(parent.0, parent.1)), ("position", text(position))])),
    ])
}

fn member<'a>(v: &'a Json, key: &str) -> Option<&'a Json> {
    v.get(key)
}

fn children(v: &Json) -> &Vec<Json> {
    match member(v, "children") {
        Some(Json::Array(items)) => items,
        _ => panic!("no children"),
    }
}

fn names(v: &Json) -> Vec<String> {
    children(v)
        .iter()
        .map(|c| match member(c, "name") {
            Some(Json::String(s)) => s.clone(),
            _ => panic!("no name"),
        })
        .collect()
}

fn message(r: Result<Json, FigError>) -> String {
    match r {
        Err(FigError::ZipError(m)) => m,
        Ok(_) => panic!("expected an error"),
    }
}

#[test]
fn root_and_children_get_ids_and_lose_parent_index() {
    let root = build_tree(vec![node(0, 0, "Document"), child(12, 345, "Page", (0, 0), "!")]).unwrap();
    assert_eq!(member(&root, "id"), Some(&text("0:0")));
    let page = &children(&root)[0];
    assert_eq!(member(page, "id"), Some(&text("12:345")));
    assert_eq!(member(page, "parentIndex"), None);
    assert_eq!(member(page, "children"), None);
}

#[test]
fn children_ordered_by_bytes_of_position() {
    let root = build_tree(vec![
        node(0, 0, "Document"),
        child(1, 1, "lower a", (0, 0), "a"),
        child(1, 2, "upper B", (0, 0), "B"),
        child(1, 3, "nine", (0, 0), "9"),
        child(1, 4, "ten", (0, 0), "10"),
        child(1, 5, "empty", (0, 0), ""),
    ])
    .unwrap();
    assert_eq!(names(&root), vec!["empty", "ten", "nine", "upper B", "lower a"]);
}

#[test]
fn children_of_equal_position_keep_their_order() {
    let root = build_tree(vec![
        node(0, 0, "Document"),
        child(1, 9, "first", (0, 0), "A"),
        child(1, 1, "second", (0, 0), "A"),
        child(1, 5, "third", (0, 0), "A"),
    ])
    .unwrap();
    assert_eq!(names(&root), vec!["first", "second", "third"]);
}

#[test]
fn missing_position_sorts_first() {
    let mut no_position = node(1, 1, "unplaced");
    if let Json::Object(es) = &mut no_position {
        es.push(("parentIndex".to_string(), obj(vec![("guid", guid(0, 0))])));
    }
    let root = build_tree(vec![node(0, 0, "Document"), child(1, 2, "placed", (0, 0), "!"), no_position]).unwrap();
    assert_eq!(names(&root), vec!["unplaced", "placed"]);
}

#[test]
fn later_node_change_wins() {
    let root = build_tree(vec![node(0, 0, "first"), node(0, 0, "second")]).unwrap();
    assert_eq!(member(&root, "name"), Some(&text("second")));
}

#[test]
fn instance_expands_symbol_children_with_prefixed_ids() {
    let mut instance = child(2, 1, "instance", (0, 0), "a");
    let mut inner_instance = child(3, 2, "inner instance", (3, 1), "a");
    if let Json::Object(es) = &mut instance {
        es.push(("type".to_string(), obj(vec![("value", text("INSTANCE"))])));
        es.push(("symbolData".to_string(), obj(vec![("symbolID", guid(3, 1))])));
    }
    if let Json::Object(es) = &mut inner_instance {
        es.push(("type".to_string(), text("INSTANCE")));
        es.push(("symbolData".to_string(), obj(vec![("symbolID", guid(4, 1))])));
    }
    let root = build_tree(vec![
        node(0, 0, "Document"),
        instance,
        child(2, 2, "own child", (2, 1), "a"),
        child(3, 1, "symbol", (0, 0), "b"),
        inner_instance,
        child(4, 1, "inner symbol", (0, 0), "c"),
        child(4, 2, "leaf", (4, 1), "a"),
    ])
    .unwrap();
    assert_eq!(names(&root), vec!["instance", "symbol", "inner symbol"]);
    let inst = &children(&root)[0];
    assert_eq!(names(inst), vec!["inner instance", "own child"]);
    let copy = &children(inst)[0];
    assert_eq!(member(copy, "id"), Some(&text("I2:1;3:2")));
    assert_eq!(member(&children(copy)[0], "id"), Some(&text("I2:1;3:2;4:2")));
    assert_eq!(member(&children(inst)[1], "id"), Some(&text("2:2")));
    let symbol = &children(&root)[1];
    assert_eq!(member(&children(symbol)[0], "id"), Some(&text("3:2")));
    assert_eq!(member(&children(&children(symbol)[0])[0], "id"), Some(&text("I3:2;4:2")));
}

#[test]
fn layout_follows_the_nesting() {
    let (root, layout) = build_tree_layout(vec![
        node(0, 0, "Document"),
        child(1, 1, "Page", (0, 0), "a"),
        child(1, 2, "Frame", (1, 1), "a"),
        child(1, 3, "Other page", (0, 0), "b"),
    ])
    .unwrap();
    assert_eq!(names(&root), vec!["Page", "Other page"]);
    assert_eq!(layout.children.len(), 2);
    assert_eq!(layout.children[0].children.len(), 1);
    assert_eq!(layout.children[1].children.len(), 0);
}

#[test]
fn node_without_guid_is_an_error() {
    let r = build_tree(vec![node(0, 0, "Document"), obj(vec![("name", text("x"))])]);
    assert_eq!(message(r), "Node missing guid field");
}

#[test]
fn node_with_invalid_session_is_an_error() {
    let r = build_tree(vec![obj(vec![("guid", obj(vec![("sessionID", text("0")), ("localID", num(0))]))])]);
    assert_eq!(message(r), "Invalid sessionID in guid");
}

#[test]
fn node_with_invalid_local_is_an_error() {
    let r = build_tree(vec![obj(vec![("guid", obj(vec![("sessionID", num(0))]))])]);
    assert_eq!(message(r), "Invalid localID in guid");
}

#[test]
fn guid_errors_come_before_parent_errors() {
    let bad_parent = obj(vec![("guid", guid(1, 1)), ("parentIndex", obj(vec![]))]);
    let r = build_tree(vec![node(0, 0, "Document"), bad_parent, obj(vec![])]);
    assert_eq!(message(r), "Node missing guid field");
}

#[test]
fn parent_index_without_guid_is_an_error() {
    let r = build_tree(vec![node(0, 0, "Document"), obj(vec![("guid", guid(1, 1)), ("parentIndex", obj(vec![]))])]);
    assert_eq!(message(r), "parentIndex missing guid field");
}

#[test]
fn parent_index_with_invalid_ids_is_an_error() {
    let bad_session = obj(vec![
        ("guid", guid(1, 1)),
        ("parentIndex", obj(vec![("guid", obj(vec![("localID", num(0))]))])),
    ]);
    assert_eq!(message(build_tree(vec![node(0, 0, "D"), bad_session])), "Invalid sessionID in parentIndex");
    let bad_local = obj(vec![
        ("guid", guid(1, 1)),
        ("parentIndex", obj(vec![("guid", obj(vec![("sessionID", num(0)), ("localID", text("x"))]))])),
    ]);
    assert_eq!(message(build_tree(vec![node(0, 0, "D"), bad_local])), "Invalid localID in parentIndex");
}

#[test]
fn missing_root_is_an_error() {
    let r = build_tree(vec![node(1, 1, "orphan")]);
    assert_eq!(message(r), "Node 0:0 not found");
    assert_eq!(message(build_tree(vec![])), "Node 0:0 not found");
}

#[test]
fn cycle_below_the_root_is_an_error() {
    let r = build_tree(vec![child(0, 0, "Document", (1, 1), "a"), child(1, 1, "Page", (0, 0), "a")]);
    assert_eq!(message(r), "Node 0:0 lies below itself");
}

#[test]
fn formatted_guids() {
    assert_eq!(format_guid(&node(7, 42, "n")).unwrap(), (7, 42));
    assert!(format_guid(&obj(vec![])).is_err());
    let pi = obj(vec![("guid", guid(3, 4)), ("position", text("!"))]);
    assert_eq!(format_parent_guid(&pi).unwrap(), (3, 4));
    match format_parent_guid(&obj(vec![("guid", text("3:4"))])) {
        Err(FigError::ZipError(m)) => assert_eq!(m, "Invalid sessionID in parentIndex"),
        Ok(_) => panic!("expected an error"),
    }
}
