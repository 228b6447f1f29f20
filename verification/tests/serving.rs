use poubelle::cache::MimeCache;
use poubelle::location::{is_valid_identifier, public_url, storage_path};
use poubelle::mime_type::MimeType;
use poubelle::serve::{
    is_cli_agent, pretty, render_file, serve_raw, serve_rich, type_override, ServeError,
};

fn cache_with(id: &str, essence: &str) -> MimeCache {
    let mut cache = MimeCache::new();
    cache.insert(id.to_string(), MimeType::from_essence(essence).unwrap());
    cache
}

#[test]
fn paths_and_addresses() {
    assert_eq!(storage_path("./uploads", "n3qa"), "./uploads/n3qa");
    assert_eq!(storage_path("", "n3qa"), "/n3qa");
    assert_eq!(public_url("http://localhost:8080", "n3qa"), "http://localhost:8080/n3qa");
}

#[test]
fn identifier_syntax() {
    assert!(is_valid_identifier("n3qa"));
    assert!(is_valid_identifier("photo.jpg"));
    assert!(!is_valid_identifier(""));
    assert!(!is_valid_identifier("a/b"));
    assert!(!is_valid_identifier("/"));
    assert!(!is_valid_identifier("../etc/passwd"));
}

#[test]
fn command_line_clients() {
    assert!(is_cli_agent("curl/8.4.0"));
    assert!(is_cli_agent("Wget/1.21 wget"));
    assert!(is_cli_agent("wget"));
    assert!(is_cli_agent("libfetch/2.0"));
    assert!(is_cli_agent("Mozilla/5.0 (Windows NT) powershell/7.3"));
    assert!(is_cli_agent("ansible-httpget"));
    assert!(is_cli_agent("xxcurlxx"));
    assert!(!is_cli_agent("Mozilla/5.0 (X11; Linux x86_64) Firefox/120.0"));
    assert!(!is_cli_agent("Wget/1.21"));
    assert!(!is_cli_agent("CURL"));
    assert!(!is_cli_agent("cur"));
    assert!(!is_cli_agent("ansible-http"));
    assert!(!is_cli_agent(""));
}

#[test]
fn pretty_flag() {
    let text = MimeType::new("text", "plain");
    let html = MimeType::new("text", "html");
    let png = MimeType::new("image", "png");
    assert!(pretty(&text, Some("Mozilla/5.0")));
    assert!(pretty(&html, Some("Mozilla/5.0")));
    assert!(pretty(&text, Some("")));
    assert!(!pretty(&text, Some("curl/8.4.0")));
    assert!(!pretty(&text, None));
    assert!(!pretty(&png, Some("Mozilla/5.0")));
    assert!(!pretty(&png, Some("curl/8.4.0")));
    assert!(!pretty(&png, None));
}

#[test]
fn type_from_the_rest_of_the_path() {
    assert_eq!(type_override("/picture.png").unwrap().essence(), "image/png");
    assert_eq!(type_override("/a/b.CSS").unwrap().essence(), "text/css");
    assert!(type_override("").is_none());
    assert!(type_override("/").is_none());
    assert!(type_override("/noextension").is_none());
    assert!(type_override("/name.unknown").is_none());
    assert!(type_override(".png").is_none());
    assert!(type_override("x.png").is_none());
}

#[test]
fn raw_serve_of_a_stored_file() {
    let cache = cache_with("n3qa", "image/png");
    let s = serve_raw(&cache, "./uploads", "n3qa", true).unwrap();
    assert_eq!(s.path, "./uploads/n3qa");
    assert_eq!(s.mime.essence(), "image/png");
    assert!(!s.pretty);
    assert!(s.inline);
}

#[test]
fn raw_serve_never_negotiates() {
    let cache = cache_with("n3qa", "text/plain");
    let s = serve_raw(&cache, "./uploads", "n3qa", true).unwrap();
    assert_eq!(s.mime.essence(), "text/plain");
    assert!(!s.pretty);
}

#[test]
fn unknown_identifier_is_not_found() {
    let cache = cache_with("n3qa", "image/png");
    assert_eq!(serve_raw(&cache, "./uploads", "nWqP", false).unwrap_err(), ServeError::NotFound);
    assert_eq!(
        serve_rich(&cache, "./uploads", "nWqP", "", Some("Mozilla/5.0"), false).unwrap_err(),
        ServeError::NotFound
    );
}

#[test]
fn a_cached_file_that_is_gone_is_not_found() {
    let cache = cache_with("n3qa", "image/png");
    assert_eq!(serve_raw(&cache, "./uploads", "n3qa", false).unwrap_err(), ServeError::NotFound);
    assert_eq!(
        serve_rich(&cache, "./uploads", "n3qa", "/x.png", None, false).unwrap_err(),
        ServeError::NotFound
    );
}

#[test]
fn bad_identifier_is_malformed() {
    let cache = MimeCache::new();
    assert_eq!(serve_raw(&cache, "./uploads", "", true).unwrap_err(), ServeError::Malformed);
    assert_eq!(serve_raw(&cache, "./uploads", "a/b", true).unwrap_err(), ServeError::Malformed);
    assert_eq!(serve_raw(&cache, "./uploads", "a/b", false).unwrap_err(), ServeError::Malformed);
    assert_eq!(
        serve_rich(&cache, "./uploads", "../x", "", None, true).unwrap_err(),
        ServeError::Malformed
    );
}

#[test]
fn a_stored_file_without_an_entry_is_text_plain() {
    let cache = MimeCache::new();
    let s = serve_raw(&cache, "./uploads", "n3qa", true).unwrap();
    assert_eq!(s.mime.essence(), "text/plain");
    let s = serve_rich(&cache, "./uploads", "n3qa", "", Some("Mozilla/5.0"), true).unwrap();
    assert_eq!(s.mime.essence(), "text/plain");
    assert!(s.pretty);
}

#[test]
fn rich_serve_for_a_browser_and_for_a_tool() {
    let cache = cache_with("n3qa", "text/plain");
    let browser = serve_rich(
        &cache,
        "./uploads",
        "n3qa",
        "",
        Some("Mozilla/5.0 (X11; Linux x86_64) Firefox/120.0"),
        true,
    )
    .unwrap();
    assert!(browser.pretty);
    assert!(browser.inline);
    assert_eq!(browser.path, "./uploads/n3qa");
    for agent in ["wget", "curl", "fetch", "powershell", "ansible-httpget", "curl/8.4.0"] {
        let tool = serve_rich(&cache, "./uploads", "n3qa", "", Some(agent), true).unwrap();
        assert!(!tool.pretty);
        assert_eq!(tool.mime.essence(), "text/plain");
    }
    let silent = serve_rich(&cache, "./uploads", "n3qa", "", None, true).unwrap();
    assert!(!silent.pretty);
}

#[test]
fn rich_serve_of_what_is_no_text() {
    let cache = cache_with("n3qa", "image/png");
    let s = serve_rich(&cache, "./uploads", "n3qa", "", Some("Mozilla/5.0"), true).unwrap();
    assert_eq!(s.mime.essence(), "image/png");
    assert!(!s.pretty);
}

#[test]
fn the_path_can_name_the_type() {
    let cache = cache_with("n3qa", "image/png");
    let s = serve_rich(&cache, "./uploads", "n3qa", "/readme.md", Some("Mozilla/5.0"), true)
        .unwrap();
    assert_eq!(s.mime.essence(), "text/markdown");
    assert_eq!(s.path, "./uploads/n3qa");
    assert!(s.pretty);
    let s = serve_rich(&cache, "./uploads", "n3qa", "/whatever", Some("Mozilla/5.0"), true)
        .unwrap();
    assert_eq!(s.mime.essence(), "image/png");
    let s = serve_rich(&cache, "./uploads", "n3qa", "ignored.md", Some("Mozilla/5.0"), true)
        .unwrap();
    assert_eq!(s.mime.essence(), "image/png");
}

#[test]
fn rendering_is_always_in_place() {
    let s = render_file("./uploads/n3qa".to_string(), MimeType::new("image", "png"), false);
    assert_eq!(s.path, "./uploads/n3qa");
    assert_eq!(s.mime.essence(), "image/png");
    assert!(!s.pretty);
    assert!(s.inline);
    let s = render_file("p".to_string(), MimeType::new("text", "plain"), true);
    assert!(s.pretty);
    assert!(s.inline);
}
