use peregrine::handler::static_files::{join_path, normalize_path};
use peregrine::text::decimal_string;
use peregrine::util::mime::content_type;

#[test]
fn root_serves_index_html() {
    assert_eq!(normalize_path("/").as_deref(), Some("index.html"));
    assert_eq!(normalize_path("///").as_deref(), Some("index.html"));
    assert_eq!(normalize_path("").as_deref(), Some("index.html"));
}

#[test]
fn paths_lose_leading_slashes() {
    assert_eq!(normalize_path("/assets/app.js").as_deref(), Some("assets/app.js"));
    assert_eq!(normalize_path("//a/b").as_deref(), Some("a/b"));
}

#[test]
fn dot_dot_is_refused() {
    assert_eq!(normalize_path("/../etc/passwd"), None);
    assert_eq!(normalize_path("/a/..b"), None);
    assert_eq!(normalize_path("/a/./b").as_deref(), Some("a/./b"));
}

#[test]
fn join_path_like_pathbuf() {
    assert_eq!(join_path("./dist", "index.html"), "./dist/index.html");
    assert_eq!(join_path("./dist/", "a.css"), "./dist/a.css");
    assert_eq!(join_path("", "a.css"), "a.css");
    assert_eq!(join_path("./dist", "/abs"), "/abs");
}

#[test]
fn content_types_by_extension() {
    assert_eq!(content_type("./dist/index.html"), "text/html; charset=utf-8");
    assert_eq!(content_type("a.css"), "text/css; charset=utf-8");
    assert_eq!(content_type("a/b.js"), "application/javascript; charset=utf-8");
    assert_eq!(content_type("data.json"), "application/json");
    assert_eq!(content_type("i.png"), "image/png");
    assert_eq!(content_type("i.jpg"), "image/jpeg");
    assert_eq!(content_type("i.jpeg"), "image/jpeg");
    assert_eq!(content_type("i.svg"), "image/svg+xml");
    assert_eq!(content_type("archive.tar.gz"), "application/octet-stream");
    assert_eq!(content_type("README"), "application/octet-stream");
}

#[test]
fn content_type_follows_path_extension_rules() {
    assert_eq!(content_type(".html"), "application/octet-stream");
    assert_eq!(content_type("page.HTML"), "application/octet-stream");
    assert_eq!(content_type("dir.html/"), "text/html; charset=utf-8");
    assert_eq!(content_type("x/page.html/."), "text/html; charset=utf-8");
    assert_eq!(content_type("x/page.html/.."), "application/octet-stream");
    assert_eq!(content_type("site.html/sub"), "application/octet-stream");
    assert_eq!(content_type("/"), "application/octet-stream");
    assert_eq!(content_type("a..html"), "text/html; charset=utf-8");
}

#[test]
fn decimal_string_renders_numbers() {
    assert_eq!(decimal_string(0), "0");
    assert_eq!(decimal_string(7), "7");
    assert_eq!(decimal_string(42), "42");
    assert_eq!(decimal_string(u64::MAX), "18446744073709551615");
}
