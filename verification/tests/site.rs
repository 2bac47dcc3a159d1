use credence::configuration::listen::LoadableBlob;
use credence::pattern::Pattern;
use credence::render::annotations::Annotations;
use credence::render::renderer::Renderer;
use credence::site::about::{about_text, status_code_of, AboutInfo, GitInfo};
use credence::site::catch::{CatchAction, CatchMiddleware, DeferredResponse};
use credence::site::credence::{CachingConfiguration, CredenceConfiguration, RenderConfiguration, RequestsConfiguration};
use credence::site::port::{Host, Key, Port, ACME};
use credence::site::server::{display_hosts, redirect_location, Route, Server, Socket, TlsSource};
use credence::site::servers::Servers;
use credence::site::urls::{Protect, Redirect, UrlsConfiguration};
use credence::format::Format;
use credence::time::{zone_offset_overflows_exec, ParseDateTime};
use credence::value::Value;

fn host(name: &str) -> Host {
    Host { name: name.to_string(), redirect_to: None, key: None, acme: None }
}

fn key() -> Key {
    Key { certificates: LoadableBlob::Path("cert.pem".to_string()), private_key: LoadableBlob::Path("/abs/key.pem".to_string()) }
}

fn port(name: &str, hosts: Vec<Host>) -> Port {
    let mut port = Port::new(0);
    port.name = name.to_string();
    port.hosts = hosts;
    port
}

fn route_for<'a>(server: &'a Server, key: &str) -> Option<&'a Route> {
    server.host_router.routers.iter().rev().find(|(k, _)| k == key).map(|(_, r)| r)
}

#[test]
fn host_validation() {
    let mut both = host("a");
    both.key = Some(key());
    both.acme = Some(ACME::default());
    assert_eq!(both.validate("/base"), Err("host cannot have both `key` and `acme`".to_string()));
    let mut keyed = host("a");
    keyed.key = Some(key());
    assert_eq!(keyed.validate("/base"), Ok(()));
    let validated = keyed.key.as_ref().unwrap();
    assert!(matches!(&validated.certificates, LoadableBlob::Path(p) if p == "/base/cert.pem"));
    assert!(matches!(&validated.private_key, LoadableBlob::Path(p) if p == "/abs/key.pem"));
    assert!(keyed.has_tls());
    assert!(!host("b").has_tls());
}

#[test]
fn acme_defaults_and_provider() {
    let mut acme = ACME::default();
    assert_eq!(acme.directory, "https://acme-staging-v02.api.letsencrypt.org/directory");
    assert_eq!(acme.cache, "acme");
    acme.contacts.push("me@example.org".to_string());
    assert_eq!(acme.validate("/base"), Ok(()));
    assert_eq!(acme.cache, "/base/acme");
    let provider = acme.provider("example.org".to_string());
    assert_eq!(provider.hosts, vec!["example.org".to_string()]);
    assert_eq!(provider.contacts, vec!["me@example.org".to_string()]);
}

#[test]
fn port_defaults_and_tls() {
    let p = Port::new(7);
    assert_eq!(p.name, "7");
    assert!(p.include_loopbacks);
    let mut tls = port("tls", vec![host("a"), host("b")]);
    assert!(!tls.is_tls());
    tls.hosts[1].acme = Some(ACME::default());
    assert!(tls.is_tls());
    let configuration = tls.listenable_port_configuration(443);
    assert_eq!(configuration.port, 443);
    assert!(!configuration.allow_unspecified);
    let mut invalid = port("x", vec![host("a"), host("b")]);
    invalid.hosts[1].key = Some(key());
    invalid.hosts[1].acme = Some(ACME::default());
    assert_eq!(invalid.validate("/base"), Err("host cannot have both `key` and `acme`".to_string()));
}

#[test]
fn port_without_hosts_is_the_fallback() {
    let mut server = Server::new();
    let p = port("http", Vec::new());
    assert_eq!(server.add_router(&vec![], 8000, &p), Ok(()));
    assert_eq!(server.host_router.fallback_host, Some(String::new()));
    assert!(matches!(route_for(&server, ""), Some(Route::Site(socket)) if socket.port == 8000 && !socket.tls && socket.host.is_empty()));
    assert_eq!(server.start_plan(), Some(false));
    assert_eq!(Server::new().start_plan(), None);
}

#[test]
fn hosts_are_routed_with_their_port() {
    let mut server = Server::new();
    let p = port("web", vec![host("a.org"), host("b.org")]);
    assert_eq!(server.add_router(&vec![], 8080, &p), Ok(()));
    assert_eq!(server.hosts, vec!["a.org".to_string(), "b.org".to_string()]);
    assert!(matches!(route_for(&server, "a.org:8080"), Some(Route::Site(s)) if s.host == "a.org" && s.port == 8080));
    assert!(route_for(&server, "b.org:8080").is_some());
    let mut standard = Server::new();
    assert_eq!(standard.add_router(&vec![], 80, &port("web", vec![host("a.org")])), Ok(()));
    assert!(route_for(&standard, "a.org").is_some());
}

#[test]
fn hosts_are_used_once() {
    let mut server = Server::new();
    let p = port("web", vec![host("a.org"), host("a.org")]);
    assert_eq!(server.add_router(&vec![], 8080, &p), Err("host used more than once for port 8080: a.org".to_string()));
    assert_eq!(server.hosts, vec!["a.org".to_string()]);
}

#[test]
fn redirects_to_ports_with_the_host() {
    let mut tls_host = host("a.org");
    tls_host.key = Some(key());
    let secure = port("https", vec![tls_host]);
    let mut redirected = host("a.org");
    redirected.redirect_to = Some(443);
    let plain = port("http", vec![redirected]);
    let ports = vec![(80u16, port("http", Vec::new())), (443u16, secure)];
    let mut server = Server::new();
    assert_eq!(server.add_router(&ports, 80, &plain), Ok(()));
    assert!(matches!(route_for(&server, "a.org"), Some(Route::Redirect(true, h, 443)) if h == "a.org"));

    let mut undefined = host("a.org");
    undefined.redirect_to = Some(9999);
    let mut server = Server::new();
    assert_eq!(
        server.add_router(&ports, 80, &port("http", vec![undefined])),
        Err("port 80 host \"a.org\" `redirect-to` port is undefined: 9999".to_string())
    );

    let mut missing = host("b.org");
    missing.redirect_to = Some(443);
    let mut server = Server::new();
    assert_eq!(
        server.add_router(&ports, 80, &port("http", vec![missing])),
        Err("port 80 host \"b.org\" `redirect-to` port 443 does not have the host".to_string())
    );
}

#[test]
fn tls_ports_need_tls_for_every_host() {
    let mut a = host("a.org");
    a.key = Some(key());
    let mut b = host("b.org");
    b.acme = Some(ACME::default());
    let mut server = Server::new();
    assert_eq!(server.add_router(&vec![], 443, &port("https", vec![a, b])), Ok(()));
    assert!(matches!(&server.tls[0], TlsSource::Key(h) if h == "a.org"));
    assert!(matches!(&server.tls[1], TlsSource::Acme(h) if h == "b.org"));
    assert_eq!(server.start_plan(), Some(true));
    let mut c = host("c.org");
    c.key = Some(key());
    let mut server = Server::new();
    assert_eq!(
        server.add_router(&vec![], 443, &port("mixed", vec![c, host("d.org")])),
        Err("listener \"mixed\" has both TLS and non-TLS hosts".to_string())
    );
}

#[test]
fn servers_per_socket_address() {
    let mut servers = Servers::new();
    let ports = vec![(80u16, port("a", vec![host("a.org")])), (8080u16, port("b", vec![host("b.org")]))];
    let addresses = vec![vec!["0.0.0.0:80".to_string()], vec!["0.0.0.0:8080".to_string(), "[::]:8080".to_string()]];
    assert_eq!(servers.add_site(&ports, &addresses), Ok(()));
    assert_eq!(servers.servers.len(), 3);
    let again = vec![(80u16, port("a", vec![host("a.org")]))];
    assert_eq!(
        servers.add_site(&again, &vec![vec!["0.0.0.0:80".to_string()]]),
        Err("host used more than once for port 80: a.org".to_string())
    );
    assert_eq!(servers.servers.len(), 3);
}

#[test]
fn redirect_locations() {
    assert_eq!(redirect_location(true, "a.org", 443, Some("/x?y=1")), "https://a.org/x?y=1");
    assert_eq!(redirect_location(false, "a.org", 8080, None), "http://a.org:8080/");
    assert_eq!(redirect_location(false, "a.org", 80, Some("/")), "http://a.org/");
}

#[test]
fn hosts_displayed_in_prose() {
    assert_eq!(display_hosts(&vec![]), "");
    assert_eq!(display_hosts(&vec!["a".to_string()]), " for \"a\"");
    assert_eq!(display_hosts(&vec!["a".to_string(), "b".to_string()]), " for \"a\" and \"b\"");
    assert_eq!(display_hosts(&vec!["a".to_string(), "b".to_string(), "c".to_string()]), " for \"a\", \"b\", and \"c\"");
}

#[test]
fn urls_redirects_with_status() {
    let mut urls = UrlsConfiguration::default();
    assert_eq!(urls.redirect("/a/"), Some(("/a".to_string(), 301)));
    urls.redirect.push(Redirect { regex: Some(Pattern::new("^/go$").unwrap()), expand_to: "/gone".to_string(), status_code: 302 });
    assert_eq!(urls.redirect("/go"), Some(("/gone".to_string(), 302)));
    assert_eq!(urls.redirect("/stay"), None);
    assert_eq!(Redirect::default().status_code, 301);
}

#[test]
fn urls_protect() {
    let mut urls = UrlsConfiguration::default();
    urls.protect.push(Protect {
        regex: Some(Pattern::new("^/admin").unwrap()),
        realm: Some("admins".to_string()),
        username: "root".to_string(),
        password: "pw".to_string(),
    });
    let protect = urls.protect("/admin/x").expect("protected");
    assert_eq!(protect.authorized_credentials(&Some(("root".to_string(), "pw".to_string()))), None);
    assert_eq!(
        protect.authorized_credentials(&None),
        Some("Basic realm=\"admins\", charset=\"UTF-8\"".to_string())
    );
    assert!(urls.protect("/public").is_none());
    assert!(Protect::default().authorized(&axum::http::HeaderMap::new()).is_some());
    let mut headers = axum::http::HeaderMap::new();
    headers.insert("authorization", "Basic cm9vdDpwdw==".parse().unwrap());
    assert_eq!(protect.authorized(&headers), None);
    let mut malformed = axum::http::HeaderMap::new();
    malformed.insert("authorization", "Bearer cm9vdDpwdw==".parse().unwrap());
    assert_eq!(protect.authorized(&malformed), Some("Basic realm=\"admins\", charset=\"UTF-8\"".to_string()));
}

#[test]
fn parse_date_time_unix_timestamps() {
    assert_eq!(ParseDateTime::parse(""), None);
    assert_eq!(ParseDateTime::parse("1511648546"), Some(1511648546));
    assert_eq!(ParseDateTime::parse("1620021848429"), Some(1620021848));
    assert_eq!(ParseDateTime::parse("not a date"), None);
    assert_eq!(ParseDateTime::parse("2021-05-01T01:17:02Z"), Some(1619831822));
    assert_eq!(ParseDateTime::parse("2000-02-29T23:59:59Z"), Some(951868799));
}

#[test]
fn site_hiding_and_rendered_pages() {
    let configuration = CredenceConfiguration::default();
    assert!(configuration.is_hidden("/page.html"));
    assert!(configuration.is_hidden("/page.r.md"));
    assert!(configuration.is_hidden("/.secret"));
    assert!(!configuration.is_hidden("/page"));
    let names = vec!["page.rss".to_string(), "page.r.md".to_string()];
    assert_eq!(configuration.rendered_page_lookup("/page").map(|(_, prefix)| prefix), Some("page.r.".to_string()));
    assert_eq!(configuration.rendered_page_uri_path("/page", "page.r.", &names), Some("/page.r.md".to_string()));
}

#[test]
fn site_defaults() {
    let configuration = CredenceConfiguration::default();
    assert_eq!(configuration.ports.len(), 1);
    assert_eq!(configuration.ports[0].0, 8000);
    assert_eq!(configuration.ports[0].1.name, "http");
    let caching = CachingConfiguration::default();
    assert_eq!(caching.capacity, 1 << 30);
    assert_eq!(caching.max_body_size, 10 << 20);
    assert_eq!(RequestsConfiguration::default().max_duration, 10);
    let render = RenderConfiguration::default();
    assert_eq!(render.midfix, ".r");
    assert_eq!(render.default_renderer, Renderer::GFM);
}

#[test]
fn site_validation() {
    let mut configuration = CredenceConfiguration::default();
    assert_eq!(configuration.validate("/base"), Ok(()));
    assert_eq!(configuration.files.status, "/base/status");
    let mut both = host("a");
    both.key = Some(key());
    both.acme = Some(ACME::default());
    configuration.ports[0].1.hosts.push(both);
    assert_eq!(configuration.validate("/base"), Err("host cannot have both `key` and `acme`".to_string()));
}

#[test]
fn sockets_as_values() {
    let socket = Socket::new(443, true, "a.org".to_string());
    match Socket::into(&socket) {
        Value::Mapping(entries) => {
            assert_eq!(entries.len(), 3);
            assert!(matches!(&entries[0], (Value::Text(k), Value::UnsignedInteger(443)) if k == "port"));
            assert!(matches!(&entries[1], (Value::Text(k), Value::Boolean(true)) if k == "tls"));
            assert!(matches!(&entries[2], (Value::Text(k), Value::Text(h)) if k == "host" && h == "a.org"));
        },
        _ => panic!("not a map"),
    }
}

#[test]
fn status_codes() {
    assert_eq!(status_code_of(404), 404);
    assert_eq!(status_code_of(99), 500);
    assert_eq!(status_code_of(1000), 500);
}

#[test]
fn about() {
    let mut info = AboutInfo {
        version: "1.2.3".to_string(),
        git: None,
        cpu_arch: "x86_64".to_string(),
        cpu_pointer_width: "64".to_string(),
        cpu_endianness: "Little".to_string(),
        cpu_features: vec![],
        os: "linux".to_string(),
        triple: "x86_64-unknown-linux-gnu".to_string(),
        timestamp: "T".to_string(),
        profile: "release".to_string(),
        optimization_level: "3".to_string(),
        compiler_version: "1.90".to_string(),
        compiler_channel: "Stable".to_string(),
        compiler_commit_id: None,
        compiler_commit_date: None,
    };
    assert_eq!(
        about_text(&info),
        "credence-lib: 1.2.3\n\nbinary-cpu: x86_64\nbinary-cpu-bits: 64]\nbinary-cpu-endianness: little\nbinary-os: linux\n\
         binary-architecture: x86_64-unknown-linux-gnu\n\ncompilation-timestamp: T\ncompilation-profile: release\n\
         compilation-optimization-level: 3\n\ncompiler: rustc\ncompiler-version: 1.90\ncompiler-channel: stable\n"
    );
    info.git = Some(GitInfo {
        commit_id: "abc".to_string(),
        commit_timestamp: "now".to_string(),
        branch: Some("main".to_string()),
        tags: vec!["v1".to_string(), "v2".to_string()],
        dirty: false,
    });
    info.cpu_features = vec!["sse".to_string()];
    let text = about_text(&info);
    assert!(text.starts_with(
        "credence-lib: 1.2.3\n\ngit-commit-id: abc\ngit-commit-timestamp: now\ngit-commit-branch: main\n\
         git-commit-tags: v1,v2\ngit-dirty: false]\n\nbinary-cpu: x86_64\n"
    ));
    assert!(text.contains("binary-cpu-features: sse\n"));
}

#[test]
fn catch_middleware_decisions() {
    let catch = CatchMiddleware::new("/srv".to_string());
    assert_eq!(catch.response(404), "/srv/404.html");
    assert!(matches!(catch.before(&Some(DeferredResponse::Hide)), CatchAction::StatusPage(404, f) if f == "/srv/404.html"));
    assert!(matches!(catch.before(&Some(DeferredResponse::Authenticate("v".to_string()))), CatchAction::Authenticate(v) if v == "v"));
    assert!(matches!(
        catch.before(&Some(DeferredResponse::RedirectTo("/x".to_string(), 307))),
        CatchAction::RedirectTo(u, 307) if u == "/x"
    ));
    assert!(matches!(
        catch.before(&Some(DeferredResponse::Error("boom".to_string()))),
        CatchAction::StatusPage(500, f) if f == "/srv/500.html"
    ));
    assert!(matches!(catch.before(&None), CatchAction::Next));
    assert_eq!(catch.after(200), None);
    assert_eq!(catch.after(403), Some("/srv/403.html".to_string()));
}

#[test]
fn annotations_default_is_empty() {
    let annotations = Annotations::default();
    assert!(annotations.values.is_empty() && annotations.headers.is_empty() && annotations.other.is_empty());
}

#[test]
fn every_address_of_a_site_gets_a_server() {
    let mut servers = Servers::new();
    servers.servers.push(("old:1".to_string(), Server::new()));
    let ports = vec![(8080u16, port("b", vec![host("b.org")]))];
    let addresses = vec![vec!["10.0.0.1:8080".to_string(), "10.0.0.2:8080".to_string()]];
    assert_eq!(servers.add_site(&ports, &addresses), Ok(()));
    for address in ["old:1", "10.0.0.1:8080", "10.0.0.2:8080"] {
        assert!(servers.servers.iter().any(|(a, _)| a == address));
    }
}

#[test]
fn zone_offsets_of_a_day_are_detected() {
    assert!(zone_offset_overflows_exec("2014-04-26 13:13:43 +9900"));
    assert!(zone_offset_overflows_exec("2014-04-26 13:13:44 +24:00"));
    assert!(zone_offset_overflows_exec("2020-07-20-30:00"));
    assert!(!zone_offset_overflows_exec("2014-04-26 13:13:43 +0800"));
    assert!(!zone_offset_overflows_exec("2014-04-26 13:13:44 +09:00"));
    assert!(!zone_offset_overflows_exec("2014-04-26 13:13:43 +99"));
    assert!(!zone_offset_overflows_exec("1511648546"));
    assert_eq!(ParseDateTime::parse("2014-04-26 13:13:43 +0000"), Some(1398518023));
}

#[test]
fn annotations_with_a_day_long_zone_are_refused() {
    assert!(Annotations::parse_checked("created: \"2014-04-26 13:13:43 +9900\"\n", Format::YAML).is_none());
    let annotations = Annotations::parse_checked("created: \"2014-04-26 13:13:43 +0100\"\n", Format::YAML).expect("parses");
    assert_eq!(annotations.created, Some(1398514423));
}
