use parametric_ui::{describe, BuildOutcome, Manager, ScreenNode, TreeNode};
use serde_json::Value;
use std::cell::RefCell;

fn node(kind: Option<&str>, name: Option<&str>, children: Vec<ScreenNode>) -> ScreenNode {
    ScreenNode {
        kind: kind.map(|k| k.to_string()),
        data: Value::from(kind.unwrap_or("")),
        name: name.map(|n| n.to_string()),
        children,
    }
}

fn catalogue() -> Manager {
    let mut m = Manager::new();
    assert_eq!(m.register_component_type("Split"), 0);
    assert_eq!(m.register_component_type("Spacer"), 1);
    assert_eq!(m.register_component_type("GroupingBox"), 2);
    m
}

#[test]
fn registering_gives_slots_in_order() {
    let m = catalogue();
    assert_eq!(m.lookup("Split"), Some(0));
    assert_eq!(m.lookup("Spacer"), Some(1));
    assert_eq!(m.lookup("GroupingBox"), Some(2));
    assert_eq!(m.lookup("Grid"), None);
}

#[test]
fn registering_again_keeps_the_slot() {
    let mut m = catalogue();
    assert_eq!(m.register_component_type("Spacer"), 1);
    assert_eq!(m.register_component_type("Grid"), 3);
    assert_eq!(m.lookup("Spacer"), Some(1));
    assert_eq!(m.lookup("Grid"), Some(3));
}

#[test]
fn empty_catalogue_knows_nothing() {
    let m = Manager::new();
    assert_eq!(m.lookup("Split"), None);
}

fn shape(t: &TreeNode<(usize, Value, usize)>) -> String {
    let inner: Vec<String> = t.children.iter().map(shape).collect();
    format!("{}:{}:{}[{}]", t.value.0, t.name.clone().unwrap_or_default(), t.value.2, inner.join(","))
}

#[test]
fn tree_is_built_children_first() {
    let m = catalogue();
    let screen = node(
        Some("Split"),
        Some("root"),
        vec![
            node(Some("Spacer"), Some("left"), vec![node(Some("GroupingBox"), None, vec![])]),
            node(Some("GroupingBox"), Some("right"), vec![]),
        ],
    );
    let calls = RefCell::new(Vec::new());
    let make = |slot: usize, data: &Value, n: usize| {
        calls.borrow_mut().push(slot);
        Some((slot, data.clone(), n))
    };
    match m.build_node(&screen, &make) {
        BuildOutcome::Built(t) => {
            assert_eq!(shape(&t), "0:root:2[1:left:1[2::0[]],2:right:0[]]");
            assert_eq!(t.value.1, Value::from("Split"));
            assert_eq!(t.children[1].value.1, Value::from("GroupingBox"));
        }
        _ => panic!("the tree should be built"),
    }
    assert_eq!(*calls.borrow(), vec![2, 1, 2, 0]);
}

#[test]
fn node_without_type_is_incomplete() {
    let m = catalogue();
    let screen = node(Some("Split"), None, vec![node(None, None, vec![])]);
    let make = |slot: usize, _: &Value, n: usize| Some((slot, n));
    assert!(matches!(m.build_node(&screen, &make), BuildOutcome::Incomplete));
}

#[test]
fn unregistered_type_is_reported() {
    let m = catalogue();
    let screen = node(Some("Split"), None, vec![node(Some("Grid"), None, vec![])]);
    let make = |slot: usize, _: &Value, n: usize| Some((slot, n));
    match m.build_node(&screen, &make) {
        BuildOutcome::UnknownType(name) => assert_eq!(name, "Grid"),
        _ => panic!("the unknown type should be reported"),
    }
}

#[test]
fn failed_initialiser_makes_the_build_incomplete() {
    let m = catalogue();
    let screen = node(Some("Split"), None, vec![node(Some("Spacer"), None, vec![])]);
    let make = |slot: usize, _: &Value, n: usize| if slot == 1 { None } else { Some((slot, n)) };
    assert!(matches!(m.build_node(&screen, &make), BuildOutcome::Incomplete));
}

#[test]
fn first_failure_in_order_decides() {
    let m = catalogue();
    let make = |slot: usize, _: &Value, n: usize| if slot == 1 { None } else { Some((slot, n)) };
    let fails_first = node(
        Some("Split"),
        None,
        vec![node(Some("Spacer"), None, vec![]), node(Some("Grid"), None, vec![])],
    );
    assert!(matches!(m.build_node(&fails_first, &make), BuildOutcome::Incomplete));
    let unknown_first = node(
        Some("Split"),
        None,
        vec![node(Some("Grid"), None, vec![]), node(Some("Spacer"), None, vec![])],
    );
    assert!(matches!(m.build_node(&unknown_first, &make), BuildOutcome::UnknownType(_)));
}

#[test]
fn root_without_type_is_incomplete_before_any_call() {
    let m = catalogue();
    let screen = node(None, None, vec![node(Some("Spacer"), None, vec![])]);
    let calls = RefCell::new(0);
    let make = |slot: usize, _: &Value, _: usize| {
        *calls.borrow_mut() += 1;
        Some(slot)
    };
    assert!(matches!(m.build_node(&screen, &make), BuildOutcome::Incomplete));
    assert_eq!(*calls.borrow(), 0);
}

fn object(pairs: &[(&str, Value)]) -> Value {
    let mut m = serde_json::Map::new();
    for (k, v) in pairs {
        m.insert(k.to_string(), v.clone());
    }
    Value::Object(m)
}

#[test]
fn description_reads_the_screen_fields() {
    let data = object(&[("spacing", Value::from(0.5))]);
    let child = object(&[("type", Value::from("Spacer"))]);
    let v = object(&[
        ("type", Value::from("Split")),
        ("name", Value::from("root")),
        ("data", data.clone()),
        ("children", Value::Array(vec![child])),
    ]);
    let node = describe(&v);
    assert_eq!(node.kind.as_deref(), Some("Split"));
    assert_eq!(node.name.as_deref(), Some("root"));
    assert_eq!(node.data, data);
    assert_eq!(node.children.len(), 1);
    let c = &node.children[0];
    assert_eq!(c.kind.as_deref(), Some("Spacer"));
    assert_eq!(c.name, None);
    assert_eq!(c.data, Value::Null);
    assert!(c.children.is_empty());
}

#[test]
fn description_ignores_fields_of_the_wrong_kind() {
    let v = object(&[
        ("type", Value::from(3)),
        ("name", Value::Bool(true)),
        ("children", object(&[("type", Value::from("Spacer"))])),
    ]);
    let node = describe(&v);
    assert_eq!(node.kind, None);
    assert_eq!(node.name, None);
    assert_eq!(node.data, Value::Null);
    assert!(node.children.is_empty());
}

#[test]
fn description_of_a_value_that_is_no_object() {
    let node = describe(&Value::Array(vec![Value::from("Split")]));
    assert_eq!(node.kind, None);
    assert_eq!(node.name, None);
    assert_eq!(node.data, Value::Null);
    assert!(node.children.is_empty());
}

#[test]
fn tree_is_built_from_json() {
    let m = catalogue();
    let v = object(&[
        ("type", Value::from("GroupingBox")),
        ("name", Value::from("box")),
        ("children", Value::Array(vec![object(&[("type", Value::from("Spacer"))])])),
    ]);
    let make = |slot: usize, data: &Value, n: usize| Some((slot, data.clone(), n));
    match m.build_tree(&v, &make) {
        BuildOutcome::Built(t) => assert_eq!(shape(&t), "2:box:1[1::0[]]"),
        _ => panic!("the tree should be built"),
    }
}

#[test]
fn screen_text_that_is_not_json_gives_nothing() {
    let m = catalogue();
    let make = |slot: usize, _: &Value, n: usize| Some((slot, n));
    assert!(m.make_screen("{\"type\": ", &make).is_none());
    assert!(m.make_screen("", &make).is_none());
}

#[test]
fn screen_text_is_parsed_and_built() {
    let m = catalogue();
    let make = |slot: usize, data: &Value, n: usize| Some((slot, data.clone(), n));
    let text = "{\"type\": \"Split\", \"name\": \"top\", \"data\": {\"spacing\": 0.9}, \"children\": [{\"type\": \"Spacer\"}, {\"type\": \"Spacer\", \"name\": \"s\"}]}";
    match m.make_screen(text, &make) {
        Some(BuildOutcome::Built(t)) => {
            assert_eq!(shape(&t), "0:top:2[1::0[],1:s:0[]]");
            assert_eq!(t.value.1, object(&[("spacing", Value::from(0.9))]));
        }
        _ => panic!("the screen should be built"),
    }
}

#[test]
fn unknown_screen_type_is_reported() {
    let m = Manager::new();
    let make = |slot: usize, _: &Value, n: usize| Some((slot, n));
    match m.make_screen("{\"type\": \"Split\"}", &make) {
        Some(BuildOutcome::UnknownType(name)) => assert_eq!(name, "Split"),
        _ => panic!("the type is unknown"),
    }
    assert!(matches!(m.make_screen("{\"name\": \"x\"}", &make), Some(BuildOutcome::Incomplete)));
}
