use faptopia::server::{
    extract_thread_id, get_content_type, json_error_body, json_success_body, parse_u64_digits,
    route_request, static_file_path, AppServer, Route,
};

#[test]
fn new_server_keeps_the_port() {
    let server = AppServer::new(8080);
    assert_eq!(server.port, 8080);
    assert_eq!(server.bind_addr(), "127.0.0.1:8080");
}

#[test]
fn get_under_api_prefix_routes_to_thread_api() {
    assert!(matches!(route_request(true, "/api/thread/123"), Route::ThreadApi));
}

#[test]
fn other_get_routes_to_static_file() {
    assert!(matches!(route_request(true, "/index.html"), Route::StaticFile));
    assert!(matches!(route_request(true, "/"), Route::StaticFile));
}

#[test]
fn non_get_is_not_found() {
    assert!(matches!(route_request(false, "/api/thread/123"), Route::NotFound));
}

#[test]
fn thread_id_is_parsed_from_api_path() {
    assert_eq!(extract_thread_id("/api/thread/12345"), Some(12345));
}

#[test]
fn non_numeric_thread_id_is_rejected() {
    assert_eq!(extract_thread_id("/api/thread/abc"), None);
    assert_eq!(extract_thread_id("/api/thread/12x"), None);
    assert_eq!(extract_thread_id("/api/thread/"), None);
}

#[test]
fn path_outside_api_prefix_has_no_thread_id() {
    assert_eq!(extract_thread_id("/threads/12345"), None);
}

#[test]
fn u64_bounds_are_respected() {
    assert_eq!(parse_u64_digits("18446744073709551615"), Some(u64::MAX));
    assert_eq!(parse_u64_digits("18446744073709551616"), None);
    assert_eq!(parse_u64_digits("0"), Some(0));
    assert_eq!(parse_u64_digits(""), None);
}

#[test]
fn root_url_maps_to_index_document() {
    assert_eq!(static_file_path("/"), "index.html");
}

#[test]
fn other_urls_lose_the_leading_slash() {
    assert_eq!(static_file_path("/styles.css"), "styles.css");
    assert_eq!(static_file_path("/sub/page.html"), "sub/page.html");
}

#[test]
fn content_type_follows_the_suffix() {
    assert_eq!(get_content_type("index.html"), "text/html; charset=utf-8");
    assert_eq!(get_content_type("styles.css"), "text/css");
    assert_eq!(get_content_type("script.js"), "application/javascript");
    assert_eq!(get_content_type("movie.mp4"), "application/octet-stream");
}

#[test]
fn success_body_lists_the_links() {
    let urls = vec!["https://i.4cdn.org/gif/1.mp4".to_string(), "https://i.4cdn.org/gif/2.webm".to_string()];
    assert_eq!(
        json_success_body(&urls),
        "{\"success\":true,\"videos\":[\"https://i.4cdn.org/gif/1.mp4\",\"https://i.4cdn.org/gif/2.webm\"]}"
    );
}

#[test]
fn success_body_with_no_links_is_an_empty_array() {
    assert_eq!(json_success_body(&Vec::new()), "{\"success\":true,\"videos\":[]}");
}

#[test]
fn error_body_carries_the_message() {
    assert_eq!(
        json_error_body("Invalid thread ID"),
        "{\"success\":false,\"error\":\"Invalid thread ID\"}"
    );
}

#[test]
fn json_strings_are_escaped() {
    assert_eq!(
        json_error_body("a \"quoted\" \\ back\nslash"),
        "{\"success\":false,\"error\":\"a \\\"quoted\\\" \\\\ back\\nslash\"}"
    );
    let urls = vec!["https://x/?a=\u{1}".to_string()];
    assert_eq!(
        json_success_body(&urls),
        "{\"success\":true,\"videos\":[\"https://x/?a=\\u0001\"]}"
    );
}
