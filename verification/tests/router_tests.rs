use gif_service::errors::ApiError;
use gif_service::router::{route, Dispatch, Method};

fn get(path: &str, url: Option<&str>) -> Dispatch {
    route(
        Method::Get,
        &path.as_bytes().to_vec(),
        url.map(|u| u.as_bytes().to_vec()),
    )
}

#[test]
fn wait_route_parses_seconds() {
    assert!(matches!(get("/5", None), Dispatch::Wait(5)));
    assert!(matches!(get("/0", None), Dispatch::Wait(0)));
    assert!(matches!(get("/255", None), Dispatch::Wait(255)));
    assert!(matches!(get("/007", None), Dispatch::Wait(7)));
}

#[test]
fn wait_route_rejects_bad_seconds() {
    assert!(matches!(
        get("/256", None),
        Dispatch::Reject(ApiError::NotFound)
    ));
    assert!(matches!(
        get("/abc", None),
        Dispatch::Reject(ApiError::NotFound)
    ));
    assert!(matches!(
        get("/-1", None),
        Dispatch::Reject(ApiError::NotFound)
    ));
    assert!(matches!(get("/", None), Dispatch::Reject(ApiError::NotFound)));
}

#[test]
fn replace_route() {
    match get("/re/hello%20world", None) {
        Dispatch::ReplaceEcho(text) => assert_eq!(text, b"hello%20world".to_vec()),
        other => panic!("expected ReplaceEcho, got {:?}", other),
    }
    assert!(matches!(
        get("/re/", None),
        Dispatch::Reject(ApiError::NotFound)
    ));
    assert!(matches!(
        get("/re", None),
        Dispatch::Reject(ApiError::NotFound)
    ));
}

#[test]
fn fetch_and_insert_share_a_path() {
    // no query: fetch
    match get("/api/gif/cats", None) {
        Dispatch::Fetch(category) => assert_eq!(category, b"cats".to_vec()),
        other => panic!("expected Fetch, got {:?}", other),
    }
    // url query present: insert
    match get("/api/gif/cats", Some("http://y")) {
        Dispatch::Insert { category, url } => {
            assert_eq!(category, b"cats".to_vec());
            assert_eq!(url, b"http://y".to_vec());
        },
        other => panic!("expected Insert, got {:?}", other),
    }
}

#[test]
fn unmatched_paths_are_not_found() {
    for p in ["", "noslash", "/x/y", "/api/gif", "/api/gif/", "/api/gif/a/b", "/api/x/cats"] {
        assert!(
            matches!(get(p, None), Dispatch::Reject(ApiError::NotFound)),
            "path {:?} should be NotFound",
            p
        );
    }
}

#[test]
fn wrong_method_on_matched_path() {
    for m in [Method::Post, Method::Put, Method::Delete, Method::Head, Method::Other] {
        assert!(matches!(
            route(m, &b"/api/gif/cats".to_vec(), None),
            Dispatch::Reject(ApiError::MethodNotAllowed)
        ));
    }
    assert!(matches!(
        route(Method::Post, &b"/5".to_vec(), None),
        Dispatch::Reject(ApiError::MethodNotAllowed)
    ));
}

#[test]
fn wrong_method_on_unmatched_path_is_not_found() {
    assert!(matches!(
        route(Method::Post, &b"/no/such/route/here".to_vec(), None),
        Dispatch::Reject(ApiError::NotFound)
    ));
}
