use user_service::model::CreateUser;
use user_service::response::{ApiError, STATUS_NO_CONTENT};
use user_service::router::{route, Method, Route, RouteOutcome};
use user_service::service::{create_user, delete_user, get_user};
use user_service::store::UserStore;

#[test]
fn post_get_delete_get_lifecycle() {
    let mut store = UserStore::new();

    assert_eq!(route(Method::Post, b"/users/"), RouteOutcome::Matched(Route::Create));
    let created = create_user(
        &mut store,
        &CreateUser { username: "ana".to_string(), email: "ana@x.com".to_string() },
        1_700_000_000_000_000,
    )
    .unwrap();
    assert_eq!(created.id, 1);
    assert_eq!(created.username, "ana");
    assert_eq!(created.email, "ana@x.com");

    match route(Method::Get, b"/users/1") {
        RouteOutcome::Matched(Route::Get(id)) => {
            let read = get_user(&store, id).unwrap();
            assert_eq!(read.id, created.id);
            assert_eq!(read.username, created.username);
            assert_eq!(read.email, created.email);
            assert_eq!(read.created_at, created.created_at);
        }
        other => panic!("GET /users/1 must address row 1, landed on {:?}", other),
    }

    match route(Method::Delete, b"/users/1") {
        RouteOutcome::Matched(Route::Delete(id)) => {
            assert_eq!(delete_user(&mut store, id), STATUS_NO_CONTENT);
        }
        other => panic!("DELETE /users/1 must address row 1, landed on {:?}", other),
    }

    let err = get_user(&store, 1).unwrap_err();
    assert_eq!(err, ApiError::NotFound);
    assert_eq!(err.status_code(), 404);
}
