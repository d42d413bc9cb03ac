use mongodb::bson::oid::ObjectId;
use role_auth::app::{App, LOCAL_APP};
use role_auth::auth::{Action, Event, Step};
use role_auth::role::{DataValue, Item, Role, RoleItems, RoleValues, Value, LOCAL_ROLE};
use role_auth::{Auth, AuthBuilder, AuthError, MongoDB, Roles};

fn val(name: &str, data: DataValue) -> Value {
    Value { name: name.to_string(), data, options: None }
}

fn node(name: &str, values: Vec<Value>, items: Vec<Item>) -> Item {
    Item { name: name.to_string(), values: RoleValues(values), items: RoleItems::new(items) }
}

fn role(app: ObjectId, name: &str, items: Vec<Item>) -> Role {
    Role {
        id: Some(ObjectId::new()),
        app,
        name: name.to_string(),
        items: RoleItems::new(items),
        created_at: None,
        updated_at: None,
    }
}

fn stored_app(id: ObjectId) -> App {
    App {
        id: Some(id),
        name: "shop".to_string(),
        version: 3,
        default_role: RoleItems::local(),
        created_at: None,
        updated_at: None,
    }
}

fn store_failure() -> mongodb::error::Error {
    mongodb::error::Error::custom("the store is away".to_string())
}

fn quiet(step: &Step) -> bool {
    step.error.is_none()
}

fn started(roles: Vec<Role>) -> Auth {
    let app_id = ObjectId::new();
    let mut auth = Auth::new("shop".to_string());
    assert!(matches!(auth.init(), Action::FindApp(name) if name == "shop"));
    let step = auth.step(Event::App(Some(stored_app(app_id))));
    assert!(matches!(step.next, Action::FindRoles(id) if id == app_id) && quiet(&step));
    let step = auth.step(Event::Cursor);
    assert!(matches!(step.next, Action::NextRole) && quiet(&step));
    for role in roles {
        let step = auth.step(Event::Role(Some(role)));
        assert!(matches!(step.next, Action::NextRole) && quiet(&step));
    }
    let step = auth.step(Event::Role(None));
    assert!(matches!(step.next, Action::Subscribe) && quiet(&step));
    auth
}

fn watching(roles: Vec<Role>) -> Auth {
    let mut auth = started(roles);
    let step = auth.step(Event::Subscribed);
    assert!(matches!(step.next, Action::NextChange) && quiet(&step));
    auth
}

fn two_roles() -> Vec<Role> {
    let app = ObjectId::new();
    vec![
        role(app, "roleA", vec![node("a", vec![val("limit", DataValue::Integer(1))], vec![])]),
        role(
            app,
            "roleB",
            vec![
                node("a", vec![val("limit", DataValue::Integer(2))], vec![]),
                node("b", vec![val("on", DataValue::Boolean(true))], vec![]),
            ],
        ),
    ]
}

#[test]
fn effective_permissions_depend_on_the_order_of_the_roles() {
    let auth = started(two_roles());
    let ab = auth.add_role_items(vec!["roleA".to_string(), "roleB".to_string()]);
    let ba = auth.add_role_items(vec!["roleB".to_string(), "roleA".to_string()]);
    assert_eq!(ab.find_value("/a/limit.integer").unwrap(), DataValue::Integer(2));
    assert_eq!(ba.find_value("/a/limit.integer").unwrap(), DataValue::Integer(1));
    assert_ne!(ab, ba);
    assert_eq!(ab.find_value("/b/on.boolean").unwrap(), DataValue::Boolean(true));
    assert_eq!(ba.find_value("/b/on.boolean").unwrap(), DataValue::Boolean(true));
}

#[test]
fn effective_permissions_of_two_roles_are_the_second_added_to_the_first() {
    let roles = two_roles();
    let mut expected = RoleItems::default();
    roles[0].items.add(&mut expected);
    roles[1].items.add(&mut expected);
    let auth = started(roles);
    assert_eq!(auth.add_role_items(vec!["roleA".to_string(), "roleB".to_string()]), expected);
}

#[test]
fn unknown_role_names_are_skipped() {
    let auth = started(two_roles());
    let only_a = auth.add_role_items(vec!["nobody".to_string(), "roleA".to_string(), "".to_string()]);
    assert_eq!(only_a, RoleItems::new(vec![node("a", vec![val("limit", DataValue::Integer(1))], vec![])]));
    assert!(auth.add_role_items(vec!["nobody".to_string()]).is_empty());
    assert!(auth.add_role_items(vec![]).is_empty());
}

#[test]
fn a_new_auth_knows_no_role() {
    let auth = Auth::new("shop".to_string());
    assert_eq!(auth.app_name(), "shop");
    assert_eq!(auth.roles().len(), 0);
    assert!(auth.add_role_items(vec!["roleA".to_string()]).is_empty());
}

#[test]
fn step_before_init_does_nothing() {
    let mut auth = Auth::new("shop".to_string());
    let step = auth.step(Event::Change);
    assert!(matches!(step.next, Action::Stop) && quiet(&step));
    assert_eq!(auth.roles().len(), 0);
}

#[test]
fn the_first_refresh_fills_the_cache() {
    let auth = started(two_roles());
    assert_eq!(auth.roles().len(), 2);
    assert_eq!(auth.roles().get("roleA").unwrap().name, "roleA");
    assert!(auth.roles().get("roleC").is_none());
    assert!(auth.roles().lookup("roleB").is_some());
}

#[test]
fn of_two_roles_of_one_name_the_later_stays() {
    let app = ObjectId::new();
    let auth = started(vec![
        role(app, "r", vec![node("first", vec![], vec![])]),
        role(app, "r", vec![node("second", vec![], vec![])]),
    ]);
    assert_eq!(auth.roles().len(), 1);
    assert!(auth.roles().get("r").unwrap().items.find("second").is_some());
}

#[test]
fn a_missing_app_fails_the_start() {
    let mut auth = Auth::new("shop".to_string());
    auth.init();
    let step = auth.step(Event::App(None));
    assert!(matches!(step.next, Action::Stop));
    assert!(matches!(step.error, Some(AuthError::MissingAppInDatabase)));
    let step = auth.step(Event::Cursor);
    assert!(matches!(step.next, Action::Stop) && quiet(&step));
}

#[test]
fn store_failures_during_the_start_end_the_task_with_their_error() {
    let mut auth = Auth::new("shop".to_string());
    auth.init();
    let step = auth.step(Event::Failed(store_failure()));
    assert!(matches!(step.next, Action::Stop));
    assert!(matches!(step.error, Some(AuthError::MongoFindOne(_))));

    let mut auth = Auth::new("shop".to_string());
    auth.init();
    auth.step(Event::App(Some(stored_app(ObjectId::new()))));
    let step = auth.step(Event::Failed(store_failure()));
    assert!(matches!(step.next, Action::Stop));
    assert!(matches!(step.error, Some(AuthError::MongoFind(_))));

    let mut auth = Auth::new("shop".to_string());
    auth.init();
    auth.step(Event::App(Some(stored_app(ObjectId::new()))));
    auth.step(Event::Cursor);
    auth.step(Event::Role(Some(role(ObjectId::new(), "r", vec![]))));
    let step = auth.step(Event::Failed(store_failure()));
    assert!(matches!(step.next, Action::Stop));
    assert!(matches!(step.error, Some(AuthError::MongoReadCursor(_))));
    assert_eq!(auth.roles().len(), 0);
}

#[test]
fn a_failed_subscription_ends_the_task() {
    let mut auth = started(two_roles());
    let step = auth.step(Event::Failed(store_failure()));
    assert!(matches!(step.next, Action::Stop));
    assert!(matches!(step.error, Some(AuthError::MongoWatchChangeStream(_))));
    assert_eq!(auth.roles().len(), 2);
    let step = auth.step(Event::Change);
    assert!(matches!(step.next, Action::Stop) && quiet(&step));
}

#[test]
fn a_change_replaces_the_whole_cache() {
    let mut auth = watching(two_roles());
    let app_id = ObjectId::new();
    let step = auth.step(Event::Change);
    assert!(matches!(&step.next, Action::FindApp(name) if name == "shop") && quiet(&step));
    let step = auth.step(Event::App(Some(stored_app(app_id))));
    assert!(matches!(step.next, Action::FindRoles(id) if id == app_id));
    auth.step(Event::Cursor);
    auth.step(Event::Role(Some(role(app_id, "roleC", vec![]))));
    assert_eq!(auth.roles().len(), 2);
    assert!(auth.roles().get("roleC").is_none());
    let step = auth.step(Event::Role(None));
    assert!(matches!(step.next, Action::NextChange) && quiet(&step));
    assert_eq!(auth.roles().len(), 1);
    assert!(auth.roles().get("roleC").is_some());
    assert!(auth.roles().get("roleA").is_none());
}

#[test]
fn a_failed_refresh_keeps_the_cache_and_the_task() {
    let mut auth = watching(two_roles());
    auth.step(Event::Change);
    let step = auth.step(Event::App(None));
    assert!(matches!(step.next, Action::NextChange));
    assert!(matches!(step.error, Some(AuthError::MissingAppInDatabase)));
    assert_eq!(auth.roles().len(), 2);

    auth.step(Event::Change);
    auth.step(Event::App(Some(stored_app(ObjectId::new()))));
    auth.step(Event::Cursor);
    auth.step(Event::Role(Some(role(ObjectId::new(), "roleC", vec![]))));
    let step = auth.step(Event::Failed(store_failure()));
    assert!(matches!(step.next, Action::NextChange));
    assert!(matches!(step.error, Some(AuthError::MongoReadCursor(_))));
    assert_eq!(auth.roles().len(), 2);
    assert!(auth.roles().get("roleC").is_none());

    let step = auth.step(Event::Change);
    assert!(matches!(step.next, Action::FindApp(_)) && quiet(&step));
}

#[test]
fn a_failure_of_the_change_stream_is_surfaced_and_the_end_stops_the_task() {
    let mut auth = watching(two_roles());
    let step = auth.step(Event::Failed(store_failure()));
    assert!(matches!(step.next, Action::NextChange));
    assert!(matches!(step.error, Some(AuthError::MongoWatchChangeStream(_))));
    let step = auth.step(Event::Closed);
    assert!(matches!(step.next, Action::Stop) && quiet(&step));
    assert_eq!(auth.roles().len(), 2);
}

#[test]
fn an_event_out_of_turn_repeats_the_request() {
    let mut auth = Auth::new("shop".to_string());
    auth.init();
    let step = auth.step(Event::Cursor);
    assert!(matches!(&step.next, Action::FindApp(name) if name == "shop") && quiet(&step));
    let app_id = ObjectId::new();
    auth.step(Event::App(Some(stored_app(app_id))));
    let step = auth.step(Event::Role(None));
    assert!(matches!(step.next, Action::FindRoles(id) if id == app_id) && quiet(&step));
    auth.step(Event::Cursor);
    let step = auth.step(Event::Subscribed);
    assert!(matches!(step.next, Action::NextRole) && quiet(&step));
    auth.step(Event::Role(None));
    let step = auth.step(Event::Change);
    assert!(matches!(step.next, Action::Subscribe) && quiet(&step));
    auth.step(Event::Subscribed);
    let step = auth.step(Event::Cursor);
    assert!(matches!(step.next, Action::NextChange) && quiet(&step));
}

#[test]
fn an_app_without_identity_is_asked_for_by_a_fresh_one() {
    let mut auth = Auth::new("local".to_string());
    auth.init();
    let step = auth.step(Event::App(Some(App::default())));
    assert!(matches!(step.next, Action::FindRoles(_)) && quiet(&step));
}

#[test]
fn roles_set_replaces_and_insert_overwrites() {
    let app = ObjectId::new();
    let mut cache = Roles::default();
    cache.insert(role(app, "a", vec![]));
    cache.insert(role(app, "b", vec![]));
    cache.insert(role(app, "a", vec![node("x", vec![], vec![])]));
    assert_eq!(cache.len(), 2);
    assert!(cache.get("a").unwrap().items.find("x").is_some());
    let mut other = Roles::default();
    other.insert(role(app, "c", vec![]));
    cache.set(other);
    assert_eq!(cache.len(), 1);
    assert!(cache.get("a").is_none());
    assert_eq!(cache.get("c").unwrap().name, "c");
}

#[test]
fn default_role_and_app() {
    let role = Role::default();
    assert_eq!(role.name, LOCAL_ROLE);
    assert_eq!(LOCAL_ROLE, "local-default");
    assert!(role.id.is_none() && role.created_at.is_none() && role.updated_at.is_none());
    assert!(role.items.is_empty());
    let app = App::default();
    assert_eq!(app.name, LOCAL_APP);
    assert_eq!(LOCAL_APP, "local");
    assert_eq!(app.version, 1);
    assert_eq!(app.default_role, RoleItems::local());
    assert!(app.id.is_none() && app.created_at.is_none() && app.updated_at.is_none());
    assert_eq!(app.clone(), app);
}

#[test]
fn id_is_the_stored_identity_where_there_is_one() {
    let id = ObjectId::new();
    let app = stored_app(id);
    assert_eq!(app.id(), id);
    let role = role(id, "r", vec![]);
    assert_eq!(Some(role.id()), role.id);
    assert_eq!(role.clone(), role);
    assert_ne!(Role::default().id(), Role::default().id());
}

#[test]
fn builder_collects_the_settings() {
    let mut builder = Auth::builder("shop");
    assert_eq!(builder.app_name(), "shop");
    assert_eq!(builder.mongodb().uri(), "mongodb://localhost:27017");
    assert_eq!(builder.mongodb().db_name(), "umt");
    assert!(!builder.mongodb().client_name().is_empty());
    builder
        .mongodb_uri("mongodb://db:27017")
        .mongodb_db_name(String::from("prod"))
        .mongodb_app_name("billing");
    assert_eq!(builder.mongodb().uri(), "mongodb://db:27017");
    assert_eq!(builder.mongodb().db_name(), "prod");
    assert_eq!(builder.mongodb().client_name(), "billing");
    assert_eq!(builder.app_name(), "shop");
    let auth = builder.build();
    assert_eq!(auth.app_name(), "shop");
    assert_eq!(auth.roles().len(), 0);
}

#[test]
fn settings_with_a_given_client_name() {
    let settings = MongoDB::with_client_name("me".to_string());
    assert_eq!(settings.uri(), "mongodb://localhost:27017");
    assert_eq!(settings.db_name(), "umt");
    assert_eq!(settings.client_name(), "me");
    let builder = AuthBuilder::new(settings, "shop".to_string());
    assert_eq!(builder.mongodb().client_name(), "me");
    assert_eq!(MongoDB::default().db_name(), "umt");
}
