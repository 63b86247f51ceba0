use rust_http_server::response::write_response;

#[test]
fn response_without_cookies() {
    let response = write_response("HTTP/1.1 200 OK", "Hello, world!", &Vec::new());
    assert_eq!(
        response,
        "HTTP/1.1 200 OK\r\nContent-Length: 13\r\n\r\nHello, world!"
    );
}

#[test]
fn response_with_cookies_in_their_order() {
    let cookies = vec![
        "old_cookie=won't_be_set; Path=/; HttpOnly".to_string(),
        "new_cookie=x; Path=/; HttpOnly; Expires=Tue, 19 Jan 2038 03:14:07 GMT".to_string(),
    ];
    let response = write_response("HTTP/1.1 404 NOT FOUND", "404 - Not Found", &cookies);
    assert_eq!(
        response,
        "HTTP/1.1 404 NOT FOUND\r\nContent-Length: 15\r\n\
         Set-Cookie: old_cookie=won't_be_set; Path=/; HttpOnly\r\n\
         Set-Cookie: new_cookie=x; Path=/; HttpOnly; Expires=Tue, 19 Jan 2038 03:14:07 GMT\r\n\
         \r\n404 - Not Found"
    );
}

#[test]
fn content_length_counts_bytes() {
    let response = write_response("HTTP/1.1 200 OK", "h\u{e9}llo \u{1f600}", &Vec::new());
    assert!(response.starts_with("HTTP/1.1 200 OK\r\nContent-Length: 11\r\n\r\n"));
}

#[test]
fn empty_body_has_length_zero() {
    let response = write_response("HTTP/1.1 200 OK", "", &Vec::new());
    assert_eq!(response, "HTTP/1.1 200 OK\r\nContent-Length: 0\r\n\r\n");
}
