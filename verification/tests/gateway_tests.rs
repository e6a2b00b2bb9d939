use gif_service::errors::ApiError;
use gif_service::gateway::{fetch_outcome, id_json, Gif};

#[test]
fn empty_category_is_not_found() {
    let r = fetch_outcome(Vec::new());
    assert!(matches!(r, Err(ApiError::NotFound)));
    // and the router maps it to the 404 envelope
    assert_eq!(
        ApiError::NotFound.body_json(),
        "{\"code\":404,\"message\":\"NOT_FOUND\"}"
    );
}

#[test]
fn inserted_row_comes_back() {
    let inserted_id: i64 = 135169;
    let rows = vec![Gif {
        id: inserted_id,
        url: String::from("http://x"),
        category: String::from("cats"),
    }];
    let g = fetch_outcome(rows).unwrap();
    assert_eq!(g.id, inserted_id);
    assert_eq!(g.url, "http://x");
    assert_eq!(g.category, "cats");
}

#[test]
fn first_of_many_rows_is_returned() {
    let rows = vec![
        Gif {
            id: 1,
            url: String::from("http://a"),
            category: String::from("dogs"),
        },
        Gif {
            id: 2,
            url: String::from("http://b"),
            category: String::from("dogs"),
        },
    ];
    let g = fetch_outcome(rows).unwrap();
    assert_eq!(g.id, 1);
}

#[test]
fn id_json_exact() {
    assert_eq!(id_json(123), b"{\"id\":123}".to_vec());
    assert_eq!(id_json(0), b"{\"id\":0}".to_vec());
    assert_eq!(id_json(i64::MAX), b"{\"id\":9223372036854775807}".to_vec());
}
