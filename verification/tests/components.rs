use parametric_ui::{children_within_limit, instance_data, GroupingBox, JsonObject, Spacer, Split};
use serde_json::Value;

#[test]
fn spacer_takes_one_child() {
    let spacer = Spacer {};
    assert_eq!(spacer.max_children(), Some(1));
    assert_eq!(spacer.get_name(), "Spacer");
}

#[test]
fn split_takes_any_number_of_children() {
    let split = Split { spacer: Spacer {} };
    assert_eq!(split.max_children(), None);
    assert_eq!(split.get_name(), "Split");
}

#[test]
fn grouping_box_takes_one_child() {
    let grouping_box = GroupingBox {};
    assert_eq!(grouping_box.max_children(), Some(1));
    assert_eq!(grouping_box.get_name(), "GroupingBox");
}

#[test]
fn child_limit_is_inclusive() {
    assert!(children_within_limit(Some(1), 0));
    assert!(children_within_limit(Some(1), 1));
    assert!(!children_within_limit(Some(1), 2));
    assert!(children_within_limit(Some(0), 0));
    assert!(!children_within_limit(Some(0), 1));
    assert!(children_within_limit(Some(u32::MAX), u32::MAX as usize));
}

#[test]
fn no_limit_accepts_any_count() {
    assert!(children_within_limit(None, 0));
    assert!(children_within_limit(None, 1_000_000));
}

fn object(pairs: &[(&str, Value)]) -> Value {
    let mut m = serde_json::Map::new();
    for (k, v) in pairs {
        m.insert(k.to_string(), v.clone());
    }
    Value::Object(m)
}

#[test]
fn parsed_data_wins() {
    let json = object(&[("spacing", Value::from(7))]);
    let r = instance_data(
        &json,
        Some(7),
        || -> Option<i64> { panic!("the default is not asked for") },
        |_: &i64, _: &JsonObject| -> i64 { panic!("nothing is joined") },
    );
    assert_eq!(r, Some(7));
}

#[test]
fn default_data_takes_hooks_from_an_object() {
    let json = object(&[("a", Value::from(10)), ("b", Value::from(20))]);
    let r = instance_data(&json, None, || Some(1i64), |d: &i64, m: &JsonObject| {
        d + m.get("a").unwrap().as_i64().unwrap() + m.len() as i64
    });
    assert_eq!(r, Some(13));
}

#[test]
fn default_data_alone_without_an_object() {
    let r = instance_data(&Value::from(3), None, || Some(1i64), |_: &i64, _: &JsonObject| -> i64 {
        panic!("nothing is joined")
    });
    assert_eq!(r, Some(1));
    let r = instance_data(&Value::Null, None, || Some(2i64), |_: &i64, _: &JsonObject| -> i64 {
        panic!("nothing is joined")
    });
    assert_eq!(r, Some(2));
}

#[test]
fn no_data_without_a_default() {
    let json = object(&[("a", Value::from(1))]);
    let r = instance_data(&json, None, || -> Option<i64> { None }, |_: &i64, _: &JsonObject| -> i64 {
        panic!("nothing is joined")
    });
    assert_eq!(r, None);
}
