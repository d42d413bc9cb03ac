use role_auth::path::{chars_of, component_spans, last_dot_in};
use role_auth::role::{DataValue, Item, RoleItems, RoleValues, Value};
use role_auth::AuthError;

fn val(name: &str, data: DataValue) -> Value {
    Value { name: name.to_string(), data, options: None }
}

fn node(name: &str, values: Vec<Value>, items: Vec<Item>) -> Item {
    Item { name: name.to_string(), values: RoleValues(values), items: RoleItems::new(items) }
}

fn parts(path: &str) -> Vec<String> {
    let chars = chars_of(path);
    component_spans(&chars).iter().map(|&(from, to)| chars[from..to].iter().collect()).collect()
}

fn typed() -> RoleItems {
    RoleItems::new(vec![node(
        "limits",
        vec![
            val("quota", DataValue::Integer(42)),
            val("ratio", DataValue::Float(0.25f64.to_bits())),
            val("label", DataValue::String("gold".to_string())),
            val("open", DataValue::Boolean(false)),
            val("a.b", DataValue::Integer(7)),
        ],
        vec![],
    )])
}

fn deep() -> RoleItems {
    RoleItems::new(vec![
        node(
            "a",
            vec![],
            vec![
                node("b", vec![], vec![node("c", vec![val("v", DataValue::Integer(1))], vec![])]),
                node("c", vec![val("v", DataValue::Integer(2))], vec![]),
            ],
        ),
        node("c", vec![val("v", DataValue::Integer(3))], vec![]),
    ])
}

#[test]
fn local_create_resolves_to_true() {
    let tree = RoleItems::local();
    assert_eq!(tree.find_value("/users/create.boolean").unwrap(), DataValue::Boolean(true));
    assert_eq!(tree.find_value("/apps/delete.boolean").unwrap(), DataValue::Boolean(true));
}

#[test]
fn wrong_extension_is_a_type_mismatch() {
    let tree = RoleItems::local();
    assert!(matches!(tree.find_value("/users/create.integer"), Err(AuthError::InvalidDataValueType)));
    assert!(matches!(tree.find_value("/users/create.bool"), Err(AuthError::InvalidDataValueType)));
    assert!(matches!(tree.find_value("/users/create."), Err(AuthError::InvalidDataValueType)));
}

#[test]
fn unknown_item_is_an_invalid_path() {
    let tree = RoleItems::local();
    match tree.find_value("/missing/create.boolean") {
        Err(AuthError::InvalidAuthPath(segment)) => assert_eq!(segment, "missing"),
        other => panic!("unexpected: {:?}", other),
    }
}

#[test]
fn each_type_has_its_extension() {
    let tree = typed();
    assert_eq!(tree.find_value("/limits/quota.integer").unwrap(), DataValue::Integer(42));
    assert_eq!(tree.find_value("/limits/ratio.float").unwrap(), DataValue::Float(0.25f64.to_bits()));
    assert_eq!(tree.find_value("/limits/label.string").unwrap(), DataValue::String("gold".to_string()));
    assert_eq!(tree.find_value("/limits/open.boolean").unwrap(), DataValue::Boolean(false));
    assert!(matches!(tree.find_value("/limits/quota.float"), Err(AuthError::InvalidDataValueType)));
    assert!(matches!(tree.find_value("/limits/ratio.integer"), Err(AuthError::InvalidDataValueType)));
    assert!(matches!(tree.find_value("/limits/label.boolean"), Err(AuthError::InvalidDataValueType)));
    assert!(matches!(tree.find_value("/limits/open.string"), Err(AuthError::InvalidDataValueType)));
}

#[test]
fn the_stem_ends_at_the_last_dot() {
    assert_eq!(typed().find_value("/limits/a.b.integer").unwrap(), DataValue::Integer(7));
}

#[test]
fn a_path_without_directory_has_no_parent() {
    let tree = RoleItems::local();
    assert!(matches!(tree.find_value(""), Err(AuthError::MissingParentPath)));
    assert!(matches!(tree.find_value("/"), Err(AuthError::MissingParentPath)));
    assert!(matches!(tree.find_value("//"), Err(AuthError::MissingParentPath)));
}

#[test]
fn a_bare_file_name_has_no_last_item() {
    let tree = RoleItems::local();
    assert!(matches!(tree.find_value("create.boolean"), Err(AuthError::MissingLastItem)));
    assert!(matches!(tree.find_value("."), Err(AuthError::MissingLastItem)));
}

#[test]
fn the_root_marker_alone_names_no_item() {
    match RoleItems::local().find_value("/create.boolean") {
        Err(AuthError::InvalidAuthPath(segment)) => assert_eq!(segment, "/"),
        other => panic!("unexpected: {:?}", other),
    }
}

#[test]
fn dot_dot_is_no_value_name() {
    assert!(matches!(RoleItems::local().find_value("/users/.."), Err(AuthError::MissingValueName)));
}

#[test]
fn a_name_without_dot_or_with_a_leading_dot_has_no_extension() {
    let tree = RoleItems::local();
    assert!(matches!(tree.find_value("/users/create"), Err(AuthError::MissingValueExtension)));
    assert!(matches!(tree.find_value("/users/.boolean"), Err(AuthError::MissingValueExtension)));
}

#[test]
fn an_unknown_value_is_missing() {
    assert!(matches!(
        RoleItems::local().find_value("/users/purge.boolean"),
        Err(AuthError::MissingValue)
    ));
}

#[test]
fn the_item_is_checked_before_the_file_name() {
    match RoleItems::local().find_value("/missing/create") {
        Err(AuthError::InvalidAuthPath(segment)) => assert_eq!(segment, "missing"),
        other => panic!("unexpected: {:?}", other),
    }
}

#[test]
fn a_relative_directory_of_one_component_is_looked_up_at_the_top() {
    assert_eq!(
        RoleItems::local().find_value("users/create.boolean").unwrap(),
        DataValue::Boolean(true)
    );
}

#[test]
fn the_component_before_the_last_is_passed_over() {
    let tree = deep();
    assert_eq!(tree.find_value("/a/b/c/v.integer").unwrap(), DataValue::Integer(2));
    assert_eq!(tree.find_value("/a/nowhere/c/v.integer").unwrap(), DataValue::Integer(2));
    assert_eq!(tree.find_value("/a/c/v.integer").unwrap(), DataValue::Integer(3));
    assert_eq!(tree.find_value("/c/v.integer").unwrap(), DataValue::Integer(3));
}

#[test]
fn a_miss_on_the_way_down_names_the_segment() {
    match deep().find_value("/x/b/c/v.integer") {
        Err(AuthError::InvalidAuthPath(segment)) => assert_eq!(segment, "x"),
        other => panic!("unexpected: {:?}", other),
    }
    match deep().find_value("/a/zz/b/c/v.integer") {
        Err(AuthError::InvalidAuthPath(segment)) => assert_eq!(segment, "zz"),
        other => panic!("unexpected: {:?}", other),
    }
    match deep().find_value("/a/b/x/y/v.integer") {
        Err(AuthError::InvalidAuthPath(segment)) => assert_eq!(segment, "y"),
        other => panic!("unexpected: {:?}", other),
    }
    assert_eq!(deep().find_value("/a/b/b/c/v.integer").unwrap(), DataValue::Integer(1));
}

#[test]
fn empty_and_dot_components_are_dropped() {
    let tree = RoleItems::local();
    assert_eq!(tree.find_value("//users//create.boolean").unwrap(), DataValue::Boolean(true));
    assert_eq!(tree.find_value("/./users/./create.boolean").unwrap(), DataValue::Boolean(true));
    assert!(matches!(tree.find_value("/users/create.boolean/"), Ok(DataValue::Boolean(true))));
}

#[test]
fn a_failed_resolution_leaves_the_tree_as_it_was() {
    let tree = RoleItems::local();
    let _ = tree.find_value("/missing/create.boolean");
    let _ = tree.find_value("/users/create.integer");
    assert_eq!(tree, RoleItems::local());
}

#[test]
fn components_of_paths() {
    assert_eq!(parts("/users/create.boolean"), vec!["/", "users", "create.boolean"]);
    assert_eq!(parts("a/./b//c/"), vec!["a", "b", "c"]);
    assert_eq!(parts("./a/.."), vec![".", "a", ".."]);
    assert_eq!(parts("/."), vec!["/"]);
    assert_eq!(parts(""), Vec::<String>::new());
    assert_eq!(parts("/é/ü.x"), vec!["/", "é", "ü.x"]);
}

#[test]
fn last_dot_positions() {
    let chars = chars_of("/ab/c.d.e");
    assert_eq!(last_dot_in(&chars, 4, 9), Some(3));
    assert_eq!(last_dot_in(&chars, 0, 4), None);
    assert_eq!(last_dot_in(&chars, 5, 6), Some(0));
    assert_eq!(last_dot_in(&chars, 9, 9), None);
}

#[test]
fn characters_beyond_ascii_are_counted_once() {
    let tree = RoleItems::new(vec![node("straße", vec![val("größe", DataValue::Integer(3))], vec![])]);
    assert_eq!(tree.find_value("/straße/größe.integer").unwrap(), DataValue::Integer(3));
    assert_eq!(chars_of("größe").len(), 5);
}
