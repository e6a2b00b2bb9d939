use gif_service::errors::ApiError;

#[test]
fn not_found_envelope() {
    let e = ApiError::NotFound;
    assert_eq!(e.status(), 404);
    assert_eq!(e.message(), "NOT_FOUND");
    assert_eq!(e.body_json(), "{\"code\":404,\"message\":\"NOT_FOUND\"}");
}

#[test]
fn method_not_allowed_envelope() {
    let e = ApiError::MethodNotAllowed;
    assert_eq!(e.status(), 405);
    assert_eq!(e.message(), "METHOD_NOT_ALLOWED");
    assert_eq!(
        e.body_json(),
        "{\"code\":405,\"message\":\"METHOD_NOT_ALLOWED\"}"
    );
}

#[test]
fn internal_envelope() {
    let e = ApiError::Internal;
    assert_eq!(e.status(), 500);
    assert_eq!(e.message(), "UNHANDLED_REJECTION");
    assert_eq!(
        e.body_json(),
        "{\"code\":500,\"message\":\"UNHANDLED_REJECTION\"}"
    );
}
