use oracular::http::{transform, HttpResponse};

#[test]
fn test_transform_keeps_status_and_body() {
    let raw = HttpResponse::new(
        200,
        vec![(String::from("server"), String::from("x"))],
        vec![1, 2, 3],
        Some(true),
    );
    let cleaned = transform(raw);
    assert_eq!(cleaned.status_code, 200);
    assert_eq!(cleaned.body, vec![1, 2, 3]);
    assert!(cleaned.headers.is_empty());
    assert_eq!(cleaned.upgrade, None);
}

#[test]
fn test_outcall_headers() {
    let headers = oracular::http::outcall_headers("api.coinbase.com");
    assert_eq!(headers.len(), 3);
    assert_eq!(headers[0], (String::from("Host"), String::from("api.coinbase.com")));
    assert_eq!(headers[1], (String::from("User-Agent"), String::from("Oracular")));
    assert_eq!(
        headers[2],
        (String::from("Content-Type"), String::from("application/json"))
    );
}

#[test]
fn test_error_response_body_is_message() {
    let r = HttpResponse::error(400, String::from("Method not allowed"));
    assert_eq!(r.status_code, 400);
    assert_eq!(r.body, b"Method not allowed".to_vec());
    assert!(r.headers.is_empty());
    assert_eq!(r.upgrade, None);
}
