use chrono::{DateTime, Utc};
use rust_http_server::clock::Timestamp;
use rust_http_server::cookies::{
    expiration_after, expired_at, get_cookie_expiration, is_cookie_expired, parse_cookies,
    set_cookie, split_cookie, unexpired_cookies, valid_cookies,
};
use rust_http_server::text_map::TextMap;

#[test]
fn test_parse_cookies() {
    let mut headers = TextMap::new();
    headers.insert(
        "Cookie".to_string(),
        "sessionId=abc123; userId=789; lang=en".to_string(),
    );

    // Parse cookies
    let cookies = parse_cookies(&headers);

    // Check the parsed cookies
    assert_eq!(cookies.get("sessionId").unwrap(), "abc123");
    assert_eq!(cookies.get("userId").unwrap(), "789");
    assert_eq!(cookies.get("lang").unwrap(), "en");
}

#[test]
fn test_parse_cookies_empty() {
    // No cookies in the headers
    let headers = TextMap::new();
    let cookies = parse_cookies(&headers);
    assert!(cookies.is_empty());
}

#[test]
fn test_set_cookie() {
    // Set a cookie with an expiry date
    let mut cookies = Vec::new();
    set_cookie(
        &mut cookies,
        "sessionId",
        "abc123",
        Some("Tue, 19 Jan 2038 03:14:07 GMT"),
    );

    // Check the generated cookie
    assert_eq!(cookies.len(), 1);
    assert!(cookies[0].contains("sessionId=abc123"));
    assert!(cookies[0].contains("Expires=Tue, 19 Jan 2038 03:14:07 GMT"));
    assert!(cookies[0].contains("Path=/; HttpOnly"));
}

#[test]
fn test_set_cookie_no_expiry() {
    // Set a cookie without an expiry date
    let mut cookies = Vec::new();
    set_cookie(&mut cookies, "sessionId", "abc123", None);

    // Check the generated cookie
    assert_eq!(cookies.len(), 1);
    assert_eq!(cookies[0], "sessionId=abc123; Path=/; HttpOnly");
}

#[test]
fn test_is_cookie_expired() {
    // Check if a past date is expired and a future date is not
    let past_date = "Wed, 01 Jan 2020 00:00:00 GMT";
    let future_date = "Wed, 01 Jan 2030 00:00:00 GMT";

    // Check the expiration status
    assert!(is_cookie_expired(past_date));
    assert!(!is_cookie_expired(future_date));
}

#[test]
fn test_is_cookie_expired_invalid_format() {
    // Check an invalid date format
    let invalid_date = "Invalid Date";
    assert!(!is_cookie_expired(invalid_date));
}

#[test]
fn test_get_cookie_expiration() {
    // Get the expiration date for a cookie
    let duration_secs = 60 * 60 * 24; // 1 day
    let expiration = get_cookie_expiration(duration_secs).unwrap();

    // Parse the expiration date
    let parsed_expiration = DateTime::parse_from_rfc2822(&expiration);
    assert!(parsed_expiration.is_ok());

    // Check the expiration time
    let expiration_datetime = parsed_expiration.unwrap();
    let now = Utc::now();
    let difference = expiration_datetime.signed_duration_since(now).num_seconds();
    assert!((difference - (duration_secs as i64)).abs() < 10); // Allowing a small margin of error
}

#[test]
fn date_before_1970_has_always_expired() {
    assert!(is_cookie_expired("Wed, 31 Dec 1969 23:59:59 GMT"));
    assert!(is_cookie_expired("Mon, 01 Jan 1900 00:00:00 +0000"));
}

#[test]
fn text_that_is_no_date_has_never_expired() {
    for text in ["", "abc123", "2020-01-01", "Wed, 01 Jan 2020", "1577836800"] {
        assert!(!is_cookie_expired(text));
    }
}

#[test]
fn expiration_of_uncountable_duration_is_none() {
    assert_eq!(get_cookie_expiration(u64::MAX), None);
    assert_eq!(get_cookie_expiration(i64::MAX as u64 + 1), None);
}

#[test]
fn expiration_now_is_a_date_of_this_form() {
    let date = get_cookie_expiration(0).unwrap();
    assert_eq!(date.len(), "Thu, 01 Jan 1970 00:00:00 GMT".len());
    assert!(date.ends_with(" GMT"));
    assert!(!is_cookie_expired("Fri, 31 Dec 9999 23:59:59 GMT"));
}

#[test]
fn set_cookie_exact_text_with_expiry() {
    let mut cookies = vec!["first".to_string()];
    set_cookie(&mut cookies, "a", "b", Some("Tue, 19 Jan 2038 03:14:07 GMT"));
    assert_eq!(cookies.len(), 2);
    assert_eq!(cookies[0], "first");
    assert_eq!(
        cookies[1],
        "a=b; Path=/; HttpOnly; Expires=Tue, 19 Jan 2038 03:14:07 GMT"
    );
}

#[test]
fn cookie_piece_without_equals_sign_is_skipped() {
    let mut headers = TextMap::new();
    headers.insert("Cookie".to_string(), "novalue; a=1;; b = 2 ".to_string());
    let cookies = parse_cookies(&headers);
    assert_eq!(cookies.len(), 2);
    assert_eq!(cookies.get("a").unwrap(), "1");
    assert_eq!(cookies.get("b").unwrap(), "2");
    assert!(cookies.get("novalue").is_none());
}

#[test]
fn cookie_value_keeps_later_equals_signs() {
    assert_eq!(
        split_cookie(" token = a=b=c "),
        Some(("token".to_string(), "a=b=c".to_string()))
    );
    assert_eq!(split_cookie("plain"), None);
    assert_eq!(split_cookie("="), Some((String::new(), String::new())));
}

#[test]
fn later_cookie_replaces_earlier_one() {
    let mut headers = TextMap::new();
    headers.insert("Cookie".to_string(), "a=1; a=2".to_string());
    let cookies = parse_cookies(&headers);
    assert_eq!(cookies.len(), 1);
    assert_eq!(cookies.get("a").unwrap(), "2");
}

#[test]
fn cookie_header_name_is_case_sensitive() {
    let mut headers = TextMap::new();
    headers.insert("cookie".to_string(), "a=1".to_string());
    let cookies = parse_cookies(&headers);
    assert!(cookies.is_empty());
}

#[test]
fn expired_at_compares_seconds_then_nanoseconds() {
    let now = Timestamp { secs: 100, nanos: 5 };
    assert!(expired_at(Some((99, 999_999_999)), now));
    assert!(expired_at(Some((100, 4)), now));
    assert!(!expired_at(Some((100, 5)), now));
    assert!(!expired_at(Some((100, 6)), now));
    assert!(!expired_at(Some((101, 0)), now));
    assert!(!expired_at(None, now));
}

#[test]
fn expiration_after_writes_the_date() {
    let now = Timestamp { secs: 2_147_483_647 - 30, nanos: 123 };
    assert_eq!(
        expiration_after(now, 30),
        Some("Tue, 19 Jan 2038 03:14:07 GMT".to_string())
    );
    let epoch = Timestamp { secs: 0, nanos: 0 };
    assert_eq!(
        expiration_after(epoch, 0),
        Some("Thu, 01 Jan 1970 00:00:00 GMT".to_string())
    );
}

#[test]
fn expiration_after_gives_none_out_of_range() {
    let late = Timestamp { secs: i64::MAX, nanos: 0 };
    assert_eq!(expiration_after(late, 1), None);
    let now = Timestamp { secs: 0, nanos: 0 };
    assert_eq!(expiration_after(now, u64::MAX), None);
    // A second that can be counted but that no date stands for.
    assert_eq!(expiration_after(now, (i64::MAX / 2) as u64), None);
}

#[test]
fn expiration_after_counts_from_a_negative_second() {
    let early = Timestamp { secs: -10, nanos: 0 };
    assert_eq!(
        expiration_after(early, 10),
        Some("Thu, 01 Jan 1970 00:00:00 GMT".to_string())
    );
}

#[test]
fn unexpired_cookies_drop_past_dates_only() {
    let mut cookies = TextMap::new();
    cookies.insert("past".to_string(), "Wed, 01 Jan 2020 00:00:00 GMT".to_string());
    cookies.insert("later".to_string(), "Tue, 19 Jan 2038 03:14:07 GMT".to_string());
    cookies.insert("token".to_string(), "abc123".to_string());
    // 1 January 2021.
    let now = Timestamp { secs: 1_609_459_200, nanos: 0 };
    let valid = unexpired_cookies(&cookies, now);
    assert_eq!(valid.len(), 2);
    assert!(valid.get("past").is_none());
    assert_eq!(valid.get("later").unwrap(), "Tue, 19 Jan 2038 03:14:07 GMT");
    assert_eq!(valid.get("token").unwrap(), "abc123");
}

#[test]
fn unexpired_cookies_keep_a_date_that_is_now() {
    let mut cookies = TextMap::new();
    cookies.insert("edge".to_string(), "Wed, 01 Jan 2020 00:00:00 GMT".to_string());
    let at = Timestamp { secs: 1_577_836_800, nanos: 0 };
    assert_eq!(unexpired_cookies(&cookies, at).len(), 1);
    let just_after = Timestamp { secs: 1_577_836_800, nanos: 1 };
    assert_eq!(unexpired_cookies(&cookies, just_after).len(), 0);
}

#[test]
fn valid_cookies_drop_dates_before_1970_and_add_nothing() {
    let mut cookies = TextMap::new();
    cookies.insert("early".to_string(), "Wed, 31 Dec 1969 23:59:59 GMT".to_string());
    cookies.insert("token".to_string(), "abc123".to_string());
    cookies.insert("empty".to_string(), String::new());
    let valid = valid_cookies(&cookies);
    assert_eq!(valid.len(), 2);
    assert!(valid.get("early").is_none());
    assert_eq!(valid.get("token").unwrap(), "abc123");
    assert_eq!(valid.get("empty").unwrap(), "");
    assert!(valid_cookies(&TextMap::new()).is_empty());
}

#[test]
fn valid_cookies_keep_ordinary_values() {
    let mut cookies = TextMap::new();
    cookies.insert("session_id".to_string(), "123456".to_string());
    cookies.insert("past".to_string(), "Wed, 01 Jan 2020 00:00:00 GMT".to_string());
    let valid = valid_cookies(&cookies);
    assert_eq!(valid.get("session_id").unwrap(), "123456");
    assert!(valid.get("past").is_none());
}
