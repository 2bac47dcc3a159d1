use credence::configuration::listen::Listen;
use credence::configuration::paths::PathsConfiguration;
use credence::configuration::protection::Protection;
use credence::configuration::render::RenderConfiguration;
use credence::configuration::requests::RequestsConfiguration;
use credence::configuration::server::ServerConfiguration;
use credence::configuration::uri::UriConfiguration;
use credence::format::Format;
use credence::middleware::authorization::BasicAuthorizationMiddleware;
use credence::middleware::render::RenderMiddleware;
use credence::middleware::status::StatusMiddleware;
use credence::middleware::uri::{UriCheck, UriMiddleware};
use credence::pattern::Pattern;
use credence::render::rendered_page::RenderedPageType;

fn configuration() -> ServerConfiguration {
    let mut paths = PathsConfiguration::default();
    paths.with_assets_path("/srv");
    let mut uri = UriConfiguration::new();
    uri.protect.push(Protection {
        regex: Some(Pattern::new("^/team/").unwrap()),
        realm: None,
        username: "u".to_string(),
        password: "p".to_string(),
    });
    ServerConfiguration {
        paths,
        uri,
        render: RenderConfiguration::default(),
        requests: RequestsConfiguration::default(),
        listen: vec![Listen::new(0, "0".to_string())],
    }
}

#[test]
fn uri_check_redirects_first() {
    let middleware = UriMiddleware::new(configuration());
    assert!(matches!(middleware.check("/a.html/", &None), UriCheck::Redirect(to) if to == "/a.html"));
}

#[test]
fn uri_check_hides_then_protects() {
    let middleware = UriMiddleware::new(configuration());
    assert!(matches!(middleware.check("/a.html", &None), UriCheck::NotFound));
    assert!(matches!(middleware.check("/team/x", &None), UriCheck::Unauthorized(v) if v == "Basic charset=\"UTF-8\""));
    let good = Some(("u".to_string(), "p".to_string()));
    assert!(matches!(middleware.check("/team/x", &good), UriCheck::Pass));
    assert!(matches!(middleware.check("/open", &None), UriCheck::Pass));
    let headers = axum::http::HeaderMap::new();
    assert!(matches!(middleware.check_request("/team/x", &headers), UriCheck::Unauthorized(_)));
}

#[test]
fn uri_rewrites() {
    assert_eq!(
        UriMiddleware::index_rewrite("/docs//", "/srv/docs", true),
        ("/srv/docs/index".to_string(), "/docs/index".to_string())
    );
    assert_eq!(UriMiddleware::index_rewrite("/docs", "/srv/docs", false), ("/srv/docs".to_string(), "/docs".to_string()));
    assert_eq!(UriMiddleware::html_file("/srv/docs/index"), "/srv/docs/index.html");
    assert_eq!(UriMiddleware::rewrite("/docs/index", true, None), Some("/docs/index.html".to_string()));
    assert_eq!(
        UriMiddleware::rewrite("/docs/page", false, Some("/docs/page.r.md".to_string())),
        Some("/docs/page.r.md".to_string())
    );
    assert_eq!(UriMiddleware::rewrite("/docs/page", false, None), None);
}

#[test]
fn status_pages_for_non_success_only() {
    let middleware = StatusMiddleware::new("/srv".to_string());
    assert_eq!(middleware.status_page(200), None);
    assert_eq!(middleware.status_page(204), None);
    assert_eq!(middleware.status_page(404), Some("/srv/404.html".to_string()));
    assert_eq!(middleware.status_page(500), Some("/srv/500.html".to_string()));
    assert_eq!(middleware.status_page(301), Some("/srv/301.html".to_string()));
}

#[test]
fn only_ok_rendered_pages_render() {
    let middleware = RenderMiddleware::new(configuration());
    assert_eq!(middleware.templates, "templates");
    assert_eq!(middleware.renders("/p.r.yaml", 200), Some(RenderedPageType::Annotations(Format::YAML)));
    assert_eq!(middleware.renders("/p.r.yaml", 404), None);
    assert_eq!(middleware.renders("/p.html", 200), None);
}

#[test]
fn basic_authorization() {
    let middleware = BasicAuthorizationMiddleware::new("realm".to_string(), "u".to_string(), "p".to_string());
    assert_eq!(middleware.authorize_credentials(&Some(("u".to_string(), "p".to_string()))), Ok(()));
    assert_eq!(
        middleware.authorize_credentials(&Some(("u".to_string(), "x".to_string()))),
        Err("Basic realm=\"realm\", charset=\"UTF-8\"".to_string())
    );
    let headers = axum::http::HeaderMap::new();
    assert!(middleware.authorize(&headers).is_err());
    let mut good = axum::http::HeaderMap::new();
    good.insert("authorization", "Basic dTpw".parse().unwrap());
    assert_eq!(middleware.authorize(&good), Ok(()));
    let mut wrong = axum::http::HeaderMap::new();
    wrong.insert("authorization", "Basic dTp4".parse().unwrap());
    assert_eq!(middleware.authorize(&wrong), Err("Basic realm=\"realm\", charset=\"UTF-8\"".to_string()));
}

#[test]
fn requests_authorized_by_their_own_credentials() {
    let middleware = UriMiddleware::new(configuration());
    let mut good = axum::http::HeaderMap::new();
    good.insert("authorization", "Basic dTpw".parse().unwrap());
    assert!(matches!(middleware.check_request("/team/x", &good), UriCheck::Pass));
    let mut wrong = axum::http::HeaderMap::new();
    wrong.insert("authorization", "Basic dTp4".parse().unwrap());
    assert!(matches!(middleware.check_request("/team/x", &wrong), UriCheck::Unauthorized(_)));
}
