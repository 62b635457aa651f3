use user_service::model::CreateUser;
use user_service::response::{ApiError, STATUS_NO_CONTENT};
use user_service::service::{create_user, delete_user, get_user, list_users, update_user};
use user_service::store::UserStore;

fn payload(username: &str, email: &str) -> CreateUser {
    CreateUser { username: username.to_string(), email: email.to_string() }
}

#[test]
fn create_then_get_returns_created() {
    let mut store = UserStore::new();
    let created = create_user(&mut store, &payload("ana", "ana@x.com"), 1_700_000_000_000_000)
        .expect("a fresh store accepts a create");
    assert_eq!(created.id, 1);
    assert_eq!(created.username, "ana");
    assert_eq!(created.email, "ana@x.com");
    assert_eq!(created.created_at, 1_700_000_000_000_000);

    let first = get_user(&store, 1).expect("the created row is there");
    assert_eq!(first.id, created.id);
    assert_eq!(first.username, created.username);
    assert_eq!(first.email, created.email);
    assert_eq!(first.created_at, created.created_at);

    let second = get_user(&store, 1).expect("a repeated read still finds it");
    assert_eq!(second.id, first.id);
    assert_eq!(second.username, first.username);
    assert_eq!(second.email, first.email);
    assert_eq!(second.created_at, first.created_at);
}

#[test]
fn get_missing_is_not_found() {
    let mut store = UserStore::new();
    assert_eq!(get_user(&store, 1).unwrap_err(), ApiError::NotFound);
    create_user(&mut store, &payload("bo", "bo@x.com"), 7).unwrap();
    let err = get_user(&store, 2).unwrap_err();
    assert_eq!(err, ApiError::NotFound);
    assert_eq!(err.status_code(), 404);
}

#[test]
fn delete_then_get_is_not_found() {
    let mut store = UserStore::new();
    let created = create_user(&mut store, &payload("cy", "cy@x.com"), 9).unwrap();
    assert_eq!(delete_user(&mut store, created.id), STATUS_NO_CONTENT);
    assert_eq!(get_user(&store, created.id).unwrap_err(), ApiError::NotFound);
}

#[test]
fn delete_missing_still_no_content() {
    let mut store = UserStore::new();
    create_user(&mut store, &payload("dee", "dee@x.com"), 3).unwrap();
    assert_eq!(delete_user(&mut store, 42), STATUS_NO_CONTENT);
    assert_eq!(list_users(&store).len(), 1);
}

#[test]
fn update_overwrites_only_texts() {
    let mut store = UserStore::new();
    let created = create_user(&mut store, &payload("eva", "eva@x.com"), 11).unwrap();
    let other = create_user(&mut store, &payload("flo", "flo@x.com"), 12).unwrap();

    let updated = update_user(&mut store, created.id, &payload("eve", "eve@y.com")).unwrap();
    assert_eq!(updated.id, created.id);
    assert_eq!(updated.created_at, created.created_at);
    assert_eq!(updated.username, "eve");
    assert_eq!(updated.email, "eve@y.com");

    let untouched = get_user(&store, other.id).unwrap();
    assert_eq!(untouched.username, "flo");
    assert_eq!(untouched.email, "flo@x.com");
}

#[test]
fn update_twice_is_idempotent() {
    let mut store = UserStore::new();
    let created = create_user(&mut store, &payload("gil", "gil@x.com"), 21).unwrap();
    let once = update_user(&mut store, created.id, &payload("gus", "gus@y.com")).unwrap();
    let twice = update_user(&mut store, created.id, &payload("gus", "gus@y.com")).unwrap();
    assert_eq!(twice.id, once.id);
    assert_eq!(twice.username, once.username);
    assert_eq!(twice.email, once.email);
    assert_eq!(twice.created_at, once.created_at);
    assert_eq!(list_users(&store).len(), 1);
}

#[test]
fn update_missing_is_internal_error() {
    let mut store = UserStore::new();
    let err = update_user(&mut store, 7, &payload("hal", "hal@x.com")).unwrap_err();
    assert_eq!(err, ApiError::InternalError);
    assert_eq!(err.status_code(), 500);
    assert!(list_users(&store).is_empty());
}

#[test]
fn list_returns_every_row_in_order() {
    let mut store = UserStore::new();
    assert!(list_users(&store).is_empty());
    create_user(&mut store, &payload("ida", "ida@x.com"), 1).unwrap();
    create_user(&mut store, &payload("jon", "jon@x.com"), 2).unwrap();
    create_user(&mut store, &payload("kai", "kai@x.com"), 3).unwrap();
    let rows = list_users(&store);
    assert_eq!(rows.len(), 3);
    assert_eq!(rows[0].id, 1);
    assert_eq!(rows[0].username, "ida");
    assert_eq!(rows[1].id, 2);
    assert_eq!(rows[1].username, "jon");
    assert_eq!(rows[2].id, 3);
    assert_eq!(rows[2].username, "kai");
    assert_eq!(rows[2].email, "kai@x.com");
    assert_eq!(rows[2].created_at, 3);
}

#[test]
fn deleted_id_is_never_reissued() {
    let mut store = UserStore::new();
    let first = create_user(&mut store, &payload("lee", "lee@x.com"), 5).unwrap();
    delete_user(&mut store, first.id);
    let next = create_user(&mut store, &payload("mia", "mia@x.com"), 6).unwrap();
    assert_eq!(next.id, 2);
}
