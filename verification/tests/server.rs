use waiter::handler::{
    find_index, get_cache_time_for_filetype, handle, is_static_asset, serve_404,
    set_cache_time, set_correct_mime_type, set_server_header,
};
use waiter::response::HttpResponse;

fn asset(content_type: &str, body: &[u8]) -> HttpResponse {
    HttpResponse::from_parts(200, body.to_vec())
        .with_unique_header("Content-Type", content_type)
}

fn sorted_headers(r: &HttpResponse) -> Vec<(String, String)> {
    let mut hs: Vec<(String, String)> = r
        .header_list()
        .iter()
        .map(|(k, v)| (k.to_ascii_lowercase(), v.clone()))
        .collect();
    hs.sort();
    hs
}

#[test]
fn existing_asset_file_gets_long_cache() {
    let r = handle("/logo.png", None, Some(asset("image/png", b"img")), None);
    assert_eq!(r.status_code(), 200);
    assert_eq!(r.body().as_slice(), b"img");
    assert_eq!(
        r.header("Cache-Control"),
        Some(String::from("public, max-age=31536000"))
    );
    assert_eq!(r.header("Server"), Some(String::from("waiter (Rust)")));
}

#[test]
fn existing_content_file_gets_short_cache() {
    let r = handle("/about.html", None, Some(asset("text/html", b"<p>hi</p>")), None);
    assert_eq!(r.status_code(), 200);
    assert_eq!(
        r.header("Cache-Control"),
        Some(String::from("public, max-age=43200"))
    );
    assert_eq!(r.header("Content-Type"), Some(String::from("text/html")));
}

#[test]
fn index_html_served_when_alone() {
    let chosen = find_index(false, false, true, false);
    assert_eq!(
        chosen,
        Some((String::from("index.html"), String::from("text/html")))
    );
    let r = handle(
        "/",
        None,
        None,
        Some((String::from("text/html"), b"<h1>hello</h1>".to_vec())),
    );
    assert_eq!(r.status_code(), 200);
    assert_eq!(r.body().as_slice(), b"<h1>hello</h1>");
    assert_eq!(r.header("Content-Type"), Some(String::from("text/html")));
}

#[test]
fn index_htmd_wins_over_html() {
    let chosen = find_index(true, false, true, false);
    assert_eq!(
        chosen,
        Some((String::from("index.htmd"), String::from("text/htmd")))
    );
    let all = find_index(true, true, true, true);
    assert_eq!(
        all,
        Some((String::from("index.htmd"), String::from("text/htmd")))
    );
}

#[test]
fn index_priority_order() {
    assert_eq!(
        find_index(false, true, true, true),
        Some((String::from("index.txt"), String::from("text/plain")))
    );
    assert_eq!(
        find_index(false, false, false, true),
        Some((String::from("index.xml"), String::from("text/xml")))
    );
    assert_eq!(find_index(false, false, false, false), None);
}

#[test]
fn htmd_downgraded_for_plain_accept() {
    let r = handle(
        "/",
        Some("text/plain"),
        None,
        Some((String::from("text/htmd"), b"# doc".to_vec())),
    );
    assert_eq!(r.status_code(), 200);
    assert_eq!(r.body().as_slice(), b"# doc");
    assert_eq!(r.header("Content-Type"), Some(String::from("text/plain")));
}

#[test]
fn htmd_downgraded_without_accept_header() {
    let r = handle(
        "/",
        None,
        None,
        Some((String::from("text/htmd"), b"# doc".to_vec())),
    );
    assert_eq!(r.header("Content-Type"), Some(String::from("text/plain")));
}

#[test]
fn htmd_kept_for_htmd_accept() {
    let r = handle(
        "/",
        Some("text/htmd"),
        None,
        Some((String::from("text/htmd"), b"# doc".to_vec())),
    );
    assert_eq!(r.status_code(), 200);
    assert_eq!(r.header("Content-Type"), Some(String::from("text/htmd")));
}

#[test]
fn missing_path_gets_404_with_headers() {
    let r = handle("/missing", None, None, None);
    assert_eq!(r.status_code(), 404);
    assert_eq!(
        r.body().as_slice(),
        b"Resource was not found on this server".as_slice()
    );
    assert_eq!(
        r.header("Cache-Control"),
        Some(String::from("public, max-age=43200"))
    );
    assert_eq!(r.header("Server"), Some(String::from("waiter (Rust)")));
}

#[test]
fn missing_root_with_no_index_gets_404() {
    let r = handle("/", None, None, None);
    assert_eq!(r.status_code(), 404);
    assert_eq!(
        r.body().as_slice(),
        b"Resource was not found on this server".as_slice()
    );
}

#[test]
fn missing_htmd_path_is_negotiated_404() {
    let r = handle("/doc.htmd", Some("text/htmd"), None, None);
    assert_eq!(r.status_code(), 404);
    assert_eq!(r.header("Content-Type"), Some(String::from("text/htmd")));
}

#[test]
fn pipeline_is_idempotent_on_downgraded_htmd() {
    let url = "/";
    let base = handle(
        url,
        Some("text/plain"),
        None,
        Some((String::from("text/htmd"), b"# doc".to_vec())),
    );
    let again = set_server_header(set_correct_mime_type(
        set_cache_time(base.clone(), String::from(url)),
        url,
        Some("text/plain"),
    ));
    assert_eq!(base.status_code(), again.status_code());
    assert_eq!(base.body(), again.body());
    assert_eq!(sorted_headers(&base), sorted_headers(&again));
    assert_eq!(base.header_list().len(), again.header_list().len());
}

#[test]
fn pipeline_is_idempotent_on_404() {
    let url = "/nowhere";
    let base = handle(url, None, None, None);
    let again = set_server_header(set_correct_mime_type(
        set_cache_time(base.clone(), String::from(url)),
        url,
        None,
    ));
    assert_eq!(base.status_code(), again.status_code());
    assert_eq!(base.body(), again.body());
    assert_eq!(sorted_headers(&base), sorted_headers(&again));
    assert_eq!(base.header_list().len(), again.header_list().len());
}

#[test]
fn cache_times_by_suffix() {
    assert_eq!(get_cache_time_for_filetype(String::from("/a.ico")), 31536000);
    assert_eq!(get_cache_time_for_filetype(String::from("/a.woff2")), 31536000);
    assert_eq!(get_cache_time_for_filetype(String::from("/a.html")), 43200);
    assert_eq!(get_cache_time_for_filetype(String::from("/")), 43200);
}

#[test]
fn asset_suffix_test_is_case_sensitive_and_exact() {
    assert!(is_static_asset(String::from("/photo.jpeg")));
    assert!(is_static_asset(String::from("x.gif")));
    assert!(!is_static_asset(String::from("/photo.JPG")));
    assert!(!is_static_asset(String::from("/photo.jpg.txt")));
    assert!(!is_static_asset(String::from("svg")));
}

#[test]
fn not_found_reply_has_plain_content_type() {
    let r = serve_404();
    assert_eq!(r.status_code(), 404);
    assert_eq!(
        r.header("Content-Type"),
        Some(String::from("text/plain; charset=utf-8"))
    );
}

#[test]
fn expires_and_pragma_are_dropped() {
    let stale = asset("text/html", b"old")
        .with_unique_header("Expires", "Thu, 01 Jan 1970 00:00:00 GMT")
        .with_unique_header("Pragma", "no-cache");
    let r = handle("/old.html", None, Some(stale), None);
    assert_eq!(r.header("Expires"), None);
    assert_eq!(r.header("Pragma"), None);
    assert_eq!(
        r.header("Cache-Control"),
        Some(String::from("public, max-age=43200"))
    );
}

#[test]
fn text_utilities() {
    assert!(waiter::text::contains_str(
        "application/json, text/htmd;q=0.9",
        "text/htmd"
    ));
    assert!(!waiter::text::contains_str("*/*", "text/htmd"));
    assert!(waiter::text::contains_str("abc", ""));
    assert!(waiter::text::ends_with_str("index.htmd", ".htmd"));
    assert!(!waiter::text::ends_with_str(".htmd", "index.htmd"));
    assert!(waiter::text::str_eq("/", "/"));
    assert!(!waiter::text::str_eq("/", "/a"));
    assert!(waiter::text::eq_ignore_case("Content-Type", "CONTENT-TYPE"));
    assert!(!waiter::text::eq_ignore_case("Server", "Serves"));
}

#[test]
fn unique_header_replaces_case_insensitively() {
    let r = HttpResponse::from_parts(200, Vec::new())
        .with_unique_header("content-type", "text/plain")
        .with_unique_header("Content-Type", "text/htmd");
    assert_eq!(r.header_list().len(), 1);
    assert_eq!(r.header("CONTENT-TYPE"), Some(String::from("text/htmd")));
    assert_eq!(r.header("X-Other"), None);
}
