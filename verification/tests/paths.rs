use credence::util::decimal::to_decimal;
use credence::configuration::paths::PathsConfiguration;
use credence::middleware::uri::UriMiddleware;
use credence::util::file_path::file_name;
use credence::util::uri_path::{
    uri_path_has_hidden_segment, uri_path_join, uri_path_last_segment, uri_path_parent, uri_path_segments,
};

#[test]
fn segments_split_at_every_separator() {
    assert_eq!(uri_path_segments("/a/b"), vec!["".to_string(), "a".to_string(), "b".to_string()]);
    assert_eq!(uri_path_segments(""), vec!["".to_string()]);
    assert_eq!(uri_path_segments("a//b/"), vec!["a".to_string(), "".to_string(), "b".to_string(), "".to_string()]);
}

#[test]
fn last_segment_follows_the_last_separator() {
    assert_eq!(uri_path_last_segment("/a/b/c.html"), "c.html");
    assert_eq!(uri_path_last_segment("no-separator"), "no-separator");
    assert_eq!(uri_path_last_segment("/a/"), "");
}

#[test]
fn hidden_segments_begin_with_a_dot() {
    assert!(uri_path_has_hidden_segment("/a/.git/config"));
    assert!(uri_path_has_hidden_segment(".hidden"));
    assert!(!uri_path_has_hidden_segment("/a/b.c/d"));
    assert!(!uri_path_has_hidden_segment("/"));
}

#[test]
fn join_drops_trailing_separators_of_the_base() {
    assert_eq!(uri_path_join("/a/b//", "c"), "/a/b/c");
    assert_eq!(uri_path_join("/a", "c"), "/a/c");
    assert_eq!(uri_path_join("", "c"), "/c");
}

#[test]
fn parent_goes_up_one_segment() {
    assert_eq!(uri_path_parent("/a/b/c"), "/a/b");
    assert_eq!(uri_path_parent("/a"), "/");
    assert_eq!(uri_path_parent("abc"), "a");
}

#[test]
fn join_then_split_gives_the_parts_back() {
    let joined = uri_path_join("/docs//", "page");
    assert_eq!(uri_path_last_segment(&joined), "page");
    assert_eq!(uri_path_parent(&joined), "/docs");
    let joined = uri_path_join("//", "page");
    assert_eq!(uri_path_last_segment(&joined), "page");
    assert_eq!(uri_path_parent(&joined), "/");
}

#[test]
fn file_name_with_and_without_extension() {
    assert_eq!(file_name("/a/b/page.r.yaml"), ("page.r.yaml".to_string(), "page".to_string()));
    assert_eq!(file_name("plain"), ("plain".to_string(), "plain".to_string()));
    assert_eq!(file_name("/a/.hidden"), (".hidden".to_string(), "".to_string()));
}

#[test]
fn file_stem_begins_the_file_name() {
    for path in ["/x/y.z.w", "a", "/b/.c", "/d/e."] {
        let (name, stem) = file_name(path);
        assert!(name.starts_with(&stem));
    }
}

#[test]
fn std_paths_through_the_configuration() {
    let mut paths = PathsConfiguration::default();
    paths.with_assets_path("base");
    assert_eq!(paths.asset("rel"), "base/rel");
    paths.assets = "base/".to_string();
    assert_eq!(paths.asset("/rel"), "base/rel");
    paths.assets = String::new();
    assert_eq!(paths.asset("rel"), "rel");
    paths.templates = "/abs".to_string();
    paths.status = "rel".to_string();
    paths.with_base_path("/b");
    assert_eq!(paths.templates, "/abs");
    assert_eq!(paths.status, "/b/rel");
    assert_eq!(UriMiddleware::html_file("/a/b"), "/a/b.html");
    assert_eq!(UriMiddleware::html_file("/a/b.md"), "/a/b.md.html");
    assert_eq!(UriMiddleware::html_file("/v1.2"), "/v1.2.html");
}

#[test]
fn decimals() {
    assert_eq!(to_decimal(0), "0");
    assert_eq!(to_decimal(404), "404");
    assert_eq!(to_decimal(u64::MAX), "18446744073709551615");
}

#[test]
fn segments_rejoin_to_the_path() {
    for path in ["", "/", "/a/b", "a//b/", "/x/y/z.html"] {
        let segments = uri_path_segments(path);
        assert_eq!(segments.join("/"), path);
        assert_eq!(segments.len(), path.matches('/').count() + 1);
        assert!(segments.iter().all(|segment| !segment.contains('/')));
    }
}
