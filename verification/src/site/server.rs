//! Servers: one per socket address, routing each host (with its port) to a site or to a
//! redirect, and collecting the TLS configuration of its hosts.
use vstd::prelude::*;

use crate::text::{debug_quote, debug_text, str_eq};
use crate::util::decimal::{decimal, to_decimal};
use super::port::{spec_is_tls, Host, Port};

verus! {

// ----------------------------------------------------------------------------------------
// Socket
// ----------------------------------------------------------------------------------------

/// Socket: what a request arrived on.
#[derive(Debug)]
pub struct Socket {
    /// TCP port.
    pub port: u16,
    /// Whether TLS is enabled ("https").
    pub tls: bool,
    /// Host.
    pub host: String,
}

impl Socket {
    /// Constructor.
    pub fn new(port: u16, tls: bool, host: String) -> (socket: Self)
        ensures
            socket.port == port,
            socket.tls == tls,
            socket.host == host,
    {
        Socket { port, tls, host }
    }
}

/// Middleware that attaches [Socket] information to requests.
#[derive(Debug)]
pub struct SocketMiddleware {
    /// Socket.
    pub socket: Socket,
}

impl SocketMiddleware {
    /// Constructor.
    pub fn new(socket: Socket) -> (middleware: Self)
        ensures
            middleware.socket == socket,
    {
        SocketMiddleware { socket }
    }
}

// ----------------------------------------------------------------------------------------
// Routes
// ----------------------------------------------------------------------------------------

/// Where the requests for a host go.
#[derive(Debug)]
pub enum Route {
    /// The site, with the socket attached to each request.
    Site(Socket),
    /// A redirect to the same host on another port: whether that port has TLS, the host and
    /// the port.
    Redirect(bool, String, u16),
}

/// A route as plain values.
pub enum RouteView {
    /// The site: TCP port, TLS, host.
    Site(u16, bool, Seq<char>),
    /// A redirect: TLS, host, TCP port.
    Redirect(bool, Seq<char>, u16),
}

/// A route as plain values.
pub open spec fn route_view(route: Route) -> RouteView {
    match route {
        Route::Site(socket) => RouteView::Site(socket.port, socket.tls, socket.host@),
        Route::Redirect(tls, host, port) => RouteView::Redirect(tls, host@, port),
    }
}

/// The routes by host (with optional port): later entries replace earlier ones.
pub open spec fn routes_map(routers: Seq<(String, Route)>) -> Map<Seq<char>, RouteView>
    decreases routers.len(),
{
    if routers.len() == 0 {
        Map::empty()
    } else {
        routes_map(routers.drop_last()).insert(routers.last().0@, route_view(routers.last().1))
    }
}

/// Routes by host (with optional port), and the host to fall back to.
#[derive(Debug)]
pub struct HostRouter {
    /// Routes, in the order they were added.
    pub routers: Vec<(String, Route)>,
    /// Fallback host (with optional port).
    pub fallback_host: Option<String>,
}

impl HostRouter {
    /// Add (or replace) the route of a host.
    pub fn add(&mut self, host_and_optional_port: String, route: Route)
        ensures
            routes_map(final(self).routers@) == routes_map(old(self).routers@).insert(
                host_and_optional_port@,
                route_view(route),
            ),
            final(self).fallback_host == old(self).fallback_host,
    {
        let ghost entry = (host_and_optional_port, route);
        self.routers.push((host_and_optional_port, route));
        assert(self.routers@.drop_last() =~= old(self).routers@);
        assert(self.routers@.last() == entry);
    }
}

/// What TLS a host gets.
#[derive(Debug)]
pub enum TlsSource {
    /// The key configured for the host.
    Key(String),
    /// A certificate by ACME for the host.
    Acme(String),
}

/// TLS as plain values.
pub enum TlsView {
    /// Key for the host.
    Key(Seq<char>),
    /// ACME for the host.
    Acme(Seq<char>),
}

/// TLS as plain values.
pub open spec fn tls_view(tls: TlsSource) -> TlsView {
    match tls {
        TlsSource::Key(host) => TlsView::Key(host@),
        TlsSource::Acme(host) => TlsView::Acme(host@),
    }
}

// ----------------------------------------------------------------------------------------
// Server
// ----------------------------------------------------------------------------------------

/// Server: listens on a single socket address with one or more routes.
#[derive(Debug)]
pub struct Server {
    /// Hosts.
    pub hosts: Vec<String>,
    /// TLS of the hosts.
    pub tls: Vec<TlsSource>,
    /// Host router.
    pub host_router: HostRouter,
}

/// A server as plain values.
#[verifier::ext_equal]
pub struct ServerView {
    /// Hosts.
    pub hosts: Seq<Seq<char>>,
    /// TLS of the hosts.
    pub tls: Seq<TlsView>,
    /// Routes by host (with optional port).
    pub routers: Map<Seq<char>, RouteView>,
    /// Fallback host.
    pub fallback_host: Option<Seq<char>>,
}

/// A server as plain values.
pub open spec fn server_view(server: Server) -> ServerView {
    ServerView {
        hosts: server.hosts@.map_values(|host: String| host@),
        tls: server.tls@.map_values(|tls: TlsSource| tls_view(tls)),
        routers: routes_map(server.host_router.routers@),
        fallback_host: match server.host_router.fallback_host {
            Some(host) => Some(host@),
            None => None,
        },
    }
}

/// The host with its TCP port, unless the port is 80 or 443.
pub open spec fn host_key(name: Seq<char>, tcp_port: u16) -> Seq<char> {
    if tcp_port == 80 || tcp_port == 443 {
        name
    } else {
        name + ":"@ + decimal(tcp_port as nat)
    }
}

/// The index of a TCP port among the configured ports.
pub open spec fn find_port(ports: Seq<(u16, Port)>, tcp_port: u16) -> Option<int> {
    if exists|i: int| 0 <= i < ports.len() && (#[trigger] ports[i]).0 == tcp_port {
        Some(
            choose|i: int|
                0 <= i < ports.len() && (#[trigger] ports[i]).0 == tcp_port && forall|j: int|
                    0 <= j < i ==> (#[trigger] ports[j]).0 != tcp_port,
        )
    } else {
        None
    }
}

/// Whether a port has a host of that name.
pub open spec fn port_has_host(port: Port, name: Seq<char>) -> bool {
    exists|i: int| 0 <= i < port.hosts@.len() && (#[trigger] port.hosts@[i]).name@ == name
}

/// The error of a host used twice on a server.
pub open spec fn host_used_twice_message(tcp_port: u16, name: Seq<char>) -> Seq<char> {
    "host used more than once for port "@ + decimal(tcp_port as nat) + ": "@ + name
}

/// The error of a redirect to a port that does not have the host.
pub open spec fn redirect_without_host_message(tcp_port: u16, name: Seq<char>, to: u16) -> Seq<char> {
    "port "@ + decimal(tcp_port as nat) + " host "@ + debug_text(name) + " `redirect-to` port "@ + decimal(
        to as nat,
    ) + " does not have the host"@
}

/// The error of a redirect to an undefined port.
pub open spec fn redirect_undefined_message(tcp_port: u16, name: Seq<char>, to: u16) -> Seq<char> {
    "port "@ + decimal(tcp_port as nat) + " host "@ + debug_text(name) + " `redirect-to` port is undefined: "@
        + decimal(to as nat)
}

/// The error of a port with both TLS and non-TLS hosts.
pub open spec fn mixed_tls_message(port_name: Seq<char>) -> Seq<char> {
    "listener "@ + debug_text(port_name) + " has both TLS and non-TLS hosts"@
}

/// The server with another route.
pub open spec fn with_route(s: ServerView, key: Seq<char>, route: RouteView) -> ServerView {
    ServerView { hosts: s.hosts, tls: s.tls, routers: s.routers.insert(key, route), fallback_host: s.fallback_host }
}

/// The route of a host that is not redirected, or the error of a redirect that cannot be.
pub open spec fn host_route(ports: Seq<(u16, Port)>, tcp_port: u16, port: Port, host: Host) -> Result<RouteView, Seq<char>> {
    let name = host.name@;
    match host.redirect_to {
        Some(to) => match find_port(ports, to) {
            Some(k) => if port_has_host(ports[k].1, name) {
                Ok(RouteView::Redirect(spec_is_tls(ports[k].1), name, to))
            } else {
                Err(redirect_without_host_message(tcp_port, name, to))
            },
            None => Err(redirect_undefined_message(tcp_port, name, to)),
        },
        None => Ok(RouteView::Site(tcp_port, spec_is_tls(port), name)),
    }
}

/// Adding one host of a port to a server: the server afterwards, and the error if any. A host
/// already on the server is an error; otherwise it is recorded, routed (to the site, or to a
/// redirect that must name a port with the same host), and on a TLS port given its key or ACME
/// (a host with neither is an error).
pub open spec fn add_host(s: ServerView, ports: Seq<(u16, Port)>, tcp_port: u16, port: Port, host: Host) -> (ServerView, Option<Seq<char>>) {
    let name = host.name@;
    if s.hosts.contains(name) {
        (s, Some(host_used_twice_message(tcp_port, name)))
    } else {
        let s1 = ServerView { hosts: s.hosts.push(name), tls: s.tls, routers: s.routers, fallback_host: s.fallback_host };
        match host_route(ports, tcp_port, port, host) {
            Err(message) => (s1, Some(message)),
            Ok(route) => {
                let s2 = with_route(s1, host_key(name, tcp_port), route);
                if !spec_is_tls(port) {
                    (s2, None)
                } else if host.key is Some {
                    (ServerView { hosts: s2.hosts, tls: s2.tls.push(TlsView::Key(name)), routers: s2.routers, fallback_host: s2.fallback_host }, None)
                } else if host.acme is Some {
                    (ServerView { hosts: s2.hosts, tls: s2.tls.push(TlsView::Acme(name)), routers: s2.routers, fallback_host: s2.fallback_host }, None)
                } else {
                    (s2, Some(mixed_tls_message(port.name@)))
                }
            },
        }
    }
}

/// Adding hosts in order, stopping at the first error.
pub open spec fn add_hosts(s: ServerView, ports: Seq<(u16, Port)>, tcp_port: u16, port: Port, hosts: Seq<Host>) -> (ServerView, Option<Seq<char>>)
    decreases hosts.len(),
{
    if hosts.len() == 0 {
        (s, None)
    } else {
        let (s1, error) = add_host(s, ports, tcp_port, port, hosts[0]);
        if error is Some {
            (s1, error)
        } else {
            add_hosts(s1, ports, tcp_port, port, hosts.drop_first())
        }
    }
}

/// Adding a port to a server: a port without hosts routes every host to the site (and is the
/// fallback); otherwise each host is added.
pub open spec fn spec_add_router(s: ServerView, ports: Seq<(u16, Port)>, tcp_port: u16, port: Port) -> (ServerView, Option<Seq<char>>) {
    if port.hosts@.len() == 0 {
        (
            ServerView {
                hosts: s.hosts,
                tls: s.tls,
                routers: s.routers.insert(Seq::empty(), RouteView::Site(tcp_port, false, Seq::empty())),
                fallback_host: Some(Seq::empty()),
            },
            None,
        )
    } else {
        add_hosts(s, ports, tcp_port, port, port.hosts@)
    }
}

/// The error as plain values.
pub open spec fn error_text(result: Result<(), String>) -> Option<Seq<char>> {
    match result {
        Ok(()) => None,
        Err(message) => Some(message@),
    }
}

/// Whether a host name is among the hosts.
fn host_listed(hosts: &Vec<String>, name: &str) -> (listed: bool)
    ensures
        listed == hosts@.map_values(|host: String| host@).contains(name@),
{
    let ghost names = hosts@.map_values(|host: String| host@);
    let mut i: usize = 0;
    while i < hosts.len()
        invariant
            i <= hosts@.len(),
            names == hosts@.map_values(|host: String| host@),
            forall|j: int| 0 <= j < i ==> names[j] != name@,
        decreases hosts@.len() - i,
    {
        if str_eq(hosts[i].as_str(), name) {
            assert(names[i as int] == name@);
            return true;
        }
        i = i + 1;
    }
    false
}

/// The index of a TCP port among the configured ports.
fn port_index(ports: &Vec<(u16, Port)>, tcp_port: u16) -> (index: Option<usize>)
    ensures
        index is Some <==> find_port(ports@, tcp_port) is Some,
        index matches Some(k) ==> k < ports@.len() && find_port(ports@, tcp_port) == Some(k as int),
{
    let mut i: usize = 0;
    while i < ports.len()
        invariant
            i <= ports@.len(),
            forall|j: int| 0 <= j < i ==> (#[trigger] ports@[j]).0 != tcp_port,
        decreases ports@.len() - i,
    {
        if ports[i].0 == tcp_port {
            proof {
                let k = i as int;
                assert(ports@[k].0 == tcp_port);
                let c = find_port(ports@, tcp_port)->0;
                assert(0 <= c < ports@.len() && ports@[c].0 == tcp_port);
                if c < k {
                } else if c > k {
                }
                assert(c == k);
            }
            return Some(i);
        }
        i = i + 1;
    }
    None
}

/// Whether a port has a host of that name.
fn has_host(port: &Port, name: &str) -> (has: bool)
    ensures
        has == port_has_host(*port, name@),
{
    let mut i: usize = 0;
    while i < port.hosts.len()
        invariant
            i <= port.hosts@.len(),
            forall|j: int| 0 <= j < i ==> (#[trigger] port.hosts@[j]).name@ != name@,
        decreases port.hosts@.len() - i,
    {
        if str_eq(port.hosts[i].name.as_str(), name) {
            return true;
        }
        i = i + 1;
    }
    false
}

/// The host with its TCP port, unless the port is 80 or 443.
pub fn host_and_optional_port(name: &str, tcp_port: u16) -> (key: String)
    ensures
        key@ == host_key(name@, tcp_port),
{
    if tcp_port == 80 || tcp_port == 443 {
        String::from_str(name)
    } else {
        proof {
            reveal_strlit(":");
        }
        String::from_str(name).concat(":").concat(to_decimal(tcp_port as u64).as_str())
    }
}

impl Server {
    /// A server without hosts, TLS or routes.
    pub fn new() -> (server: Self)
        ensures
            server.hosts@.len() == 0,
            server.tls@.len() == 0,
            server.host_router.routers@.len() == 0,
            server.host_router.fallback_host is None,
    {
        Server { hosts: Vec::new(), tls: Vec::new(), host_router: HostRouter { routers: Vec::new(), fallback_host: None } }
    }

    /// The route of a host that is not redirected, or the error of a redirect that cannot be.
    fn route_of(ports: &Vec<(u16, Port)>, tcp_port: u16, port: &Port, is_tls: bool, host: &Host) -> (route: Result<Route, String>)
        requires
            is_tls == spec_is_tls(*port),
        ensures
            match host_route(ports@, tcp_port, *port, *host) {
                Ok(r) => route matches Ok(x) && route_view(x) == r,
                Err(e) => route matches Err(x) && x@ == e,
            },
    {
        let name = host.name.as_str();
        match host.redirect_to {
            Some(to) => match port_index(ports, to) {
                Some(k) => {
                    if has_host(&ports[k].1, name) {
                        let to_tls = ports[k].1.is_tls();
                        Ok(Route::Redirect(to_tls, String::from_str(name), to))
                    } else {
                        proof {
                            reveal_strlit("port ");
                            reveal_strlit(" host ");
                            reveal_strlit(" `redirect-to` port ");
                            reveal_strlit(" does not have the host");
                        }
                        Err(
                            String::from_str("port ").concat(to_decimal(tcp_port as u64).as_str()).concat(" host ").concat(
                                debug_quote(name).as_str(),
                            ).concat(" `redirect-to` port ").concat(to_decimal(to as u64).as_str()).concat(
                                " does not have the host",
                            ),
                        )
                    }
                },
                None => {
                    proof {
                        reveal_strlit("port ");
                        reveal_strlit(" host ");
                        reveal_strlit(" `redirect-to` port is undefined: ");
                    }
                    Err(
                        String::from_str("port ").concat(to_decimal(tcp_port as u64).as_str()).concat(" host ").concat(
                            debug_quote(name).as_str(),
                        ).concat(" `redirect-to` port is undefined: ").concat(to_decimal(to as u64).as_str()),
                    )
                },
            },
            None => Ok(Route::Site(Socket::new(tcp_port, is_tls, String::from_str(name)))),
        }
    }

    /// Add one host of a port.
    fn add_host(&mut self, ports: &Vec<(u16, Port)>, tcp_port: u16, port: &Port, is_tls: bool, host: &Host) -> (result: Result<(), String>)
        requires
            is_tls == spec_is_tls(*port),
        ensures
            ({
                let (view, error) = add_host(server_view(*old(self)), ports@, tcp_port, *port, *host);
                server_view(*final(self)) =~= view && error_text(result) == error
            }),
    {
        let name = host.name.as_str();
        if host_listed(&self.hosts, name) {
            proof {
                reveal_strlit("host used more than once for port ");
                reveal_strlit(": ");
            }
            return Err(
                String::from_str("host used more than once for port ").concat(to_decimal(tcp_port as u64).as_str()).concat(
                    ": ",
                ).concat(name),
            );
        }
        let ghost before = server_view(*self);
        self.hosts.push(String::from_str(name));
        assert(self.hosts@.map_values(|host: String| host@) =~= before.hosts.push(name@));
        let route = match Self::route_of(ports, tcp_port, port, is_tls, host) {
            Ok(route) => route,
            Err(message) => return Err(message),
        };
        let key = host_and_optional_port(name, tcp_port);
        self.host_router.add(key, route);
        if is_tls {
            let ghost routed = server_view(*self);
            if host.key.is_some() {
                self.tls.push(TlsSource::Key(String::from_str(name)));
                assert(self.tls@.map_values(|tls: TlsSource| tls_view(tls)) =~= routed.tls.push(TlsView::Key(name@)));
            } else if host.acme.is_some() {
                self.tls.push(TlsSource::Acme(String::from_str(name)));
                assert(self.tls@.map_values(|tls: TlsSource| tls_view(tls)) =~= routed.tls.push(TlsView::Acme(name@)));
            } else {
                proof {
                    reveal_strlit("listener ");
                    reveal_strlit(" has both TLS and non-TLS hosts");
                }
                return Err(
                    String::from_str("listener ").concat(debug_quote(port.name.as_str()).as_str()).concat(
                        " has both TLS and non-TLS hosts",
                    ),
                );
            }
        }
        Ok(())
    }

    /// Add the site's routes for all the hosts of a port, and their TLS.
    ///
    /// `ports` are the site's ports by TCP port; `port` is the one at `tcp_port`.
    pub fn add_router(&mut self, ports: &Vec<(u16, Port)>, tcp_port: u16, port: &Port) -> (result: Result<(), String>)
        ensures
            ({
                let (view, error) = spec_add_router(server_view(*old(self)), ports@, tcp_port, *port);
                server_view(*final(self)) =~= view && error_text(result) == error
            }),
    {
        if port.hosts.len() == 0 {
            self.host_router.add(String::new(), Route::Site(Socket::new(tcp_port, false, String::new())));
            self.host_router.fallback_host = Some(String::new());
            return Ok(());
        }
        let is_tls = port.is_tls();
        let mut i: usize = 0;
        assert(port.hosts@.subrange(0, port.hosts@.len() as int) =~= port.hosts@);
        while i < port.hosts.len()
            invariant
                i <= port.hosts@.len(),
                port.hosts@.len() > 0,
                is_tls == spec_is_tls(*port),
                spec_add_router(server_view(*old(self)), ports@, tcp_port, *port) == add_hosts(
                    server_view(*self),
                    ports@,
                    tcp_port,
                    *port,
                    port.hosts@.subrange(i as int, port.hosts@.len() as int),
                ),
            decreases port.hosts@.len() - i,
        {
            let ghost rest = port.hosts@.subrange(i as int, port.hosts@.len() as int);
            assert(rest[0] == port.hosts@[i as int]);
            assert(rest.drop_first() =~= port.hosts@.subrange(i + 1, port.hosts@.len() as int));
            let result = self.add_host(ports, tcp_port, port, is_tls, &port.hosts[i]);
            match result {
                Err(message) => return Err(message),
                Ok(()) => {},
            }
            i = i + 1;
        }
        Ok(())
    }
}

/// Whether a server serves anything, and if so whether with TLS.
pub open spec fn spec_start_plan(server: ServerView) -> Option<bool> {
    if server.routers.dom().len() == 0 {
        None
    } else {
        Some(server.tls.len() > 0)
    }
}

impl Server {
    /// How the server is started: not at all when it has no routes, else with TLS when any
    /// host has it.
    pub fn start_plan(&self) -> (plan: Option<bool>)
        ensures
            plan is None <==> routes_map(self.host_router.routers@).dom().is_empty(),
            plan matches Some(tls) ==> tls == (self.tls@.len() > 0),
    {
        proof {
            lemma_routes_map_empty(self.host_router.routers@);
        }
        if self.host_router.routers.len() == 0 {
            None
        } else {
            Some(self.tls.len() > 0)
        }
    }
}

/// The routes are empty exactly when no route was added.
pub proof fn lemma_routes_map_empty(routers: Seq<(String, Route)>)
    ensures
        routes_map(routers).dom().is_empty() <==> routers.len() == 0,
    decreases routers.len(),
{
    if routers.len() > 0 {
        assert(routes_map(routers).dom().contains(routers.last().0@));
    } else {
        assert(routes_map(routers).dom() =~= Set::empty());
    }
}

/// Adding a host keeps the server's hosts distinct.
proof fn lemma_add_host_distinct(s: ServerView, ports: Seq<(u16, Port)>, tcp_port: u16, port: Port, host: Host)
    requires
        s.hosts.no_duplicates(),
    ensures
        add_host(s, ports, tcp_port, port, host).0.hosts.no_duplicates(),
{
    let name = host.name@;
    if !s.hosts.contains(name) {
        let hosts = s.hosts.push(name);
        assert forall|i: int, j: int| 0 <= i < hosts.len() && 0 <= j < hosts.len() && i != j implies hosts[i] != hosts[j] by {
            if i == s.hosts.len() as int {
                assert(s.hosts[j] == hosts[j]);
            } else if j == s.hosts.len() as int {
                assert(s.hosts[i] == hosts[i]);
            }
        }
    }
}

/// Adding hosts keeps the server's hosts distinct.
proof fn lemma_add_hosts_distinct(s: ServerView, ports: Seq<(u16, Port)>, tcp_port: u16, port: Port, hosts: Seq<Host>)
    requires
        s.hosts.no_duplicates(),
    ensures
        add_hosts(s, ports, tcp_port, port, hosts).0.hosts.no_duplicates(),
    decreases hosts.len(),
{
    if hosts.len() > 0 {
        lemma_add_host_distinct(s, ports, tcp_port, port, hosts[0]);
        let (s1, error) = add_host(s, ports, tcp_port, port, hosts[0]);
        if error is None {
            lemma_add_hosts_distinct(s1, ports, tcp_port, port, hosts.drop_first());
        }
    }
}

/// A server never holds a host twice: adding a port's routes, whether it succeeds or fails,
/// keeps the hosts distinct.
pub proof fn law_server_hosts_distinct(s: ServerView, ports: Seq<(u16, Port)>, tcp_port: u16, port: Port)
    requires
        s.hosts.no_duplicates(),
    ensures
        spec_add_router(s, ports, tcp_port, port).0.hosts.no_duplicates(),
{
    if port.hosts@.len() > 0 {
        lemma_add_hosts_distinct(s, ports, tcp_port, port, port.hosts@);
    }
}

/// Adding a host that succeeds routes it, by its name with the TCP port (unless 80 or 443).
proof fn lemma_add_host_routes(s: ServerView, ports: Seq<(u16, Port)>, tcp_port: u16, port: Port, host: Host, key: Seq<char>)
    requires
        s.routers.dom().contains(key),
    ensures
        add_host(s, ports, tcp_port, port, host).0.routers.dom().contains(key),
        add_host(s, ports, tcp_port, port, host).1 is None ==> add_host(s, ports, tcp_port, port, host).0.routers.dom().contains(
            host_key(host.name@, tcp_port),
        ),
{
}

/// Adding hosts that succeeds routes each of them, and keeps earlier routes.
proof fn lemma_add_hosts_routes(s: ServerView, ports: Seq<(u16, Port)>, tcp_port: u16, port: Port, hosts: Seq<Host>)
    ensures
        forall|key: Seq<char>| s.routers.dom().contains(key) ==> add_hosts(s, ports, tcp_port, port, hosts).0.routers.dom().contains(key),
        add_hosts(s, ports, tcp_port, port, hosts).1 is None ==> forall|i: int|
            0 <= i < hosts.len() ==> add_hosts(s, ports, tcp_port, port, hosts).0.routers.dom().contains(
                host_key((#[trigger] hosts[i]).name@, tcp_port),
            ),
    decreases hosts.len(),
{
    if hosts.len() > 0 {
        let (s1, error) = add_host(s, ports, tcp_port, port, hosts[0]);
        assert forall|key: Seq<char>| s.routers.dom().contains(key) implies s1.routers.dom().contains(key) by {
            lemma_add_host_routes(s, ports, tcp_port, port, hosts[0], key);
        }
        if error is None {
            lemma_add_hosts_routes(s1, ports, tcp_port, port, hosts.drop_first());
            let k0 = host_key(hosts[0].name@, tcp_port);
            assert(s1.routers.dom().contains(k0));
            let whole = add_hosts(s, ports, tcp_port, port, hosts);
            assert(whole == add_hosts(s1, ports, tcp_port, port, hosts.drop_first()));
            assert(whole.0.routers.dom().contains(k0));
            assert forall|i: int| 0 <= i < hosts.len() && whole.1 is None implies add_hosts(s, ports, tcp_port, port, hosts).0.routers.dom().contains(
                host_key((#[trigger] hosts[i]).name@, tcp_port),
            ) by {
                if i > 0 {
                    assert(hosts.drop_first()[i - 1] == hosts[i]);
                } else {
                    assert(hosts[i] == hosts[0]);
                }
            }
        }
    }
}

/// Every host of a port that was added without error is routed, by its name with the TCP
/// port (unless 80 or 443), and routes that were there stay.
pub proof fn law_added_hosts_are_routed(s: ServerView, ports: Seq<(u16, Port)>, tcp_port: u16, port: Port)
    ensures
        forall|key: Seq<char>| s.routers.dom().contains(key) ==> spec_add_router(s, ports, tcp_port, port).0.routers.dom().contains(key),
        spec_add_router(s, ports, tcp_port, port).1 is None ==> forall|i: int|
            0 <= i < port.hosts@.len() ==> spec_add_router(s, ports, tcp_port, port).0.routers.dom().contains(
                host_key((#[trigger] port.hosts@[i]).name@, tcp_port),
            ),
{
    if port.hosts@.len() > 0 {
        lemma_add_hosts_routes(s, ports, tcp_port, port, port.hosts@);
    }
}

/// A host added on TCP port 80 or 443 is routed by its bare name (as a request's Host header
/// names it there), and on any other port by its name, a colon and the port in decimal.
pub proof fn law_host_routing_keys(s: ServerView, ports: Seq<(u16, Port)>, tcp_port: u16, port: Port)
    ensures
        spec_add_router(s, ports, tcp_port, port).1 is None && (tcp_port == 80 || tcp_port == 443) ==> forall|i: int|
            0 <= i < port.hosts@.len() ==> spec_add_router(s, ports, tcp_port, port).0.routers.dom().contains(
                (#[trigger] port.hosts@[i]).name@,
            ),
        spec_add_router(s, ports, tcp_port, port).1 is None && tcp_port != 80 && tcp_port != 443 ==> forall|i: int|
            0 <= i < port.hosts@.len() ==> spec_add_router(s, ports, tcp_port, port).0.routers.dom().contains(
                (#[trigger] port.hosts@[i]).name@ + ":"@ + decimal(tcp_port as nat),
            ),
{
    law_added_hosts_are_routed(s, ports, tcp_port, port);
    assert forall|i: int| 0 <= i < port.hosts@.len() implies host_key((#[trigger] port.hosts@[i]).name@, tcp_port) == (if tcp_port == 80
        || tcp_port == 443 {
        port.hosts@[i].name@
    } else {
        port.hosts@[i].name@ + ":"@ + decimal(tcp_port as nat)
    }) by {}
}

// ----------------------------------------------------------------------------------------
// Redirecting and describing
// ----------------------------------------------------------------------------------------

/// Where a redirecting route sends a request: the scheme, the host, the TCP port unless 80 or
/// 443, then the request's path and query ("/" without one).
pub open spec fn spec_redirect_location(tls: bool, host: Seq<char>, tcp_port: u16, path_and_query: Option<Seq<char>>) -> Seq<char> {
    let scheme = if tls {
        "https://"@
    } else {
        "http://"@
    };
    let port = if tcp_port == 80 || tcp_port == 443 {
        Seq::empty()
    } else {
        ":"@ + decimal(tcp_port as nat)
    };
    let path = match path_and_query {
        Some(p) => p,
        None => "/"@,
    };
    scheme + host + port + path
}

/// Where a redirecting route sends a request (301).
pub fn redirect_location(tls: bool, host: &str, tcp_port: u16, path_and_query: Option<&str>) -> (location: String)
    ensures
        location@ == spec_redirect_location(tls, host@, tcp_port, match path_and_query {
            Some(p) => Some(p@),
            None => None,
        }),
{
    proof {
        reveal_strlit("https://");
        reveal_strlit("http://");
        reveal_strlit(":");
        reveal_strlit("/");
    }
    let scheme = if tls {
        "https://"
    } else {
        "http://"
    };
    let mut location = String::from_str(scheme).concat(host);
    if !(tcp_port == 80 || tcp_port == 443) {
        location = location.concat(":").concat(to_decimal(tcp_port as u64).as_str());
    }
    match path_and_query {
        Some(p) => location.concat(p),
        None => location.concat("/"),
    }
}

/// Items joined with commas.
pub open spec fn join_commas(items: Seq<Seq<char>>) -> Seq<char>
    decreases items.len(),
{
    if items.len() == 0 {
        Seq::empty()
    } else if items.len() == 1 {
        items[0]
    } else {
        join_commas(items.drop_last()) + ", "@ + items.last()
    }
}

/// Items joined in prose: "a", "a and b", "a, b, and c".
pub open spec fn spec_join_conjunction(items: Seq<Seq<char>>, conjunction: Seq<char>) -> Seq<char> {
    if items.len() <= 1 {
        join_commas(items)
    } else if items.len() == 2 {
        items[0] + " "@ + conjunction + " "@ + items[1]
    } else {
        join_commas(items.drop_last()) + ", "@ + conjunction + " "@ + items.last()
    }
}

/// `JoinConjunction::join_conjunction` (kutil): the items in order, separated by ", ", with
/// the conjunction before the last item ("a and b" for two items, "a, b, and c" for more).
#[verifier::external_body]
fn join_conjunction(items: &Vec<String>, conjunction: &str) -> (joined: String)
    ensures
        joined@ == spec_join_conjunction(items@.map_values(|item: String| item@), conjunction@),
{
    kutil::std::string::JoinConjunction::join_conjunction(items, conjunction)
}

/// How the hosts of a server are described when it starts: nothing without hosts, else " for "
/// and the quoted hosts joined with "and".
pub open spec fn spec_display_hosts(hosts: Seq<Seq<char>>) -> Seq<char> {
    if hosts.len() == 0 {
        Seq::empty()
    } else {
        " for "@ + spec_join_conjunction(hosts.map_values(|host: Seq<char>| debug_text(host)), "and"@)
    }
}

/// How the hosts of a server are described when it starts.
pub fn display_hosts(hosts: &Vec<String>) -> (text: String)
    ensures
        text@ == spec_display_hosts(hosts@.map_values(|host: String| host@)),
{
    if hosts.len() == 0 {
        return String::new();
    }
    let mut quoted: Vec<String> = Vec::new();
    let mut i: usize = 0;
    while i < hosts.len()
        invariant
            i <= hosts@.len(),
            quoted@.len() == i,
            forall|j: int| 0 <= j < i ==> (#[trigger] quoted@[j])@ == debug_text(hosts@[j]@),
        decreases hosts@.len() - i,
    {
        quoted.push(debug_quote(hosts[i].as_str()));
        i = i + 1;
    }
    proof {
        reveal_strlit(" for ");
        reveal_strlit("and");
        assert(quoted@.map_values(|item: String| item@) =~= hosts@.map_values(|host: String| host@).map_values(
            |host: Seq<char>| debug_text(host),
        ));
    }
    String::from_str(" for ").concat(join_conjunction(&quoted, "and").as_str())
}

} // verus!
