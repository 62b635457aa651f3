use user_service::model::User;
use user_service::response::{
    create_response, delete_response, get_response, greeting, list_response, update_response,
    ApiError, ExecOutcome, RowOutcome, RowsOutcome, STATUS_NO_CONTENT,
};

fn row(id: i32) -> User {
    User {
        id,
        username: "ana".to_string(),
        email: "ana@x.com".to_string(),
        created_at: 1_700_000_000_000_000,
    }
}

#[test]
fn greeting_body() {
    assert_eq!(greeting(), "hello!");
}

#[test]
fn list_maps_failure_to_internal_error() {
    let ok = list_response(RowsOutcome::Rows(vec![row(1), row(2)])).unwrap();
    assert_eq!(ok.len(), 2);
    assert_eq!(ok[0].id, 1);
    assert_eq!(ok[1].id, 2);
    assert_eq!(list_response(RowsOutcome::Failure).unwrap_err(), ApiError::InternalError);
}

#[test]
fn create_maps_failures_to_internal_error() {
    let ok = create_response(RowOutcome::Row(row(1))).unwrap();
    assert_eq!(ok.id, 1);
    assert_eq!(ok.username, "ana");
    assert_eq!(create_response(RowOutcome::NoRow).unwrap_err(), ApiError::InternalError);
    assert_eq!(create_response(RowOutcome::Failure).unwrap_err(), ApiError::InternalError);
}

#[test]
fn get_never_answers_internal_error() {
    let ok = get_response(RowOutcome::Row(row(3))).unwrap();
    assert_eq!(ok.id, 3);
    assert_eq!(get_response(RowOutcome::NoRow).unwrap_err(), ApiError::NotFound);
    assert_eq!(get_response(RowOutcome::Failure).unwrap_err(), ApiError::NotFound);
    assert_eq!(get_response(RowOutcome::NoRow).unwrap_err().status_code(), 404);
}

#[test]
fn update_collapses_missing_row_into_internal_error() {
    let ok = update_response(RowOutcome::Row(row(4))).unwrap();
    assert_eq!(ok.id, 4);
    assert_eq!(update_response(RowOutcome::NoRow).unwrap_err(), ApiError::InternalError);
    assert_eq!(update_response(RowOutcome::Failure).unwrap_err(), ApiError::InternalError);
}

#[test]
fn delete_answers_no_content() {
    assert_eq!(delete_response(ExecOutcome::Done).unwrap(), STATUS_NO_CONTENT);
    assert_eq!(delete_response(ExecOutcome::Failure).unwrap_err(), ApiError::InternalError);
}

#[test]
fn status_codes() {
    assert_eq!(ApiError::NotFound.status_code(), 404);
    assert_eq!(ApiError::InternalError.status_code(), 500);
}
