//! All the servers of the sites: one per socket address.
use vstd::prelude::*;

use crate::text::str_eq;
use super::port::Port;
use super::server::{server_view, spec_add_router, Server, ServerView};

verus! {

/// The servers, by socket address.
#[derive(Debug)]
pub struct Servers {
    /// Servers, each with its socket address.
    pub servers: Vec<(String, Server)>,
}

/// Servers as plain values.
pub open spec fn servers_view(servers: Seq<(String, Server)>) -> Seq<(Seq<char>, ServerView)> {
    servers.map_values(|entry: (String, Server)| (entry.0@, server_view(entry.1)))
}

/// A server without hosts, TLS or routes.
pub open spec fn empty_server() -> ServerView {
    ServerView { hosts: Seq::empty(), tls: Seq::empty(), routers: Map::empty(), fallback_host: None }
}

/// The index of the server of a socket address.
pub open spec fn server_index(servers: Seq<(Seq<char>, ServerView)>, address: Seq<char>) -> Option<int> {
    if exists|i: int| 0 <= i < servers.len() && (#[trigger] servers[i]).0 == address {
        Some(
            choose|i: int|
                0 <= i < servers.len() && (#[trigger] servers[i]).0 == address && forall|j: int|
                    0 <= j < i ==> (#[trigger] servers[j]).0 != address,
        )
    } else {
        None
    }
}

/// Adding a port to the server of a socket address: the existing server, else a new one that
/// is kept only when adding succeeds.
pub open spec fn add_to_server(
    servers: Seq<(Seq<char>, ServerView)>,
    ports: Seq<(u16, Port)>,
    tcp_port: u16,
    port: Port,
    address: Seq<char>,
) -> (Seq<(Seq<char>, ServerView)>, Option<Seq<char>>) {
    match server_index(servers, address) {
        Some(i) => {
            let (server, error) = spec_add_router(servers[i].1, ports, tcp_port, port);
            (servers.update(i, (address, server)), error)
        },
        None => {
            let (server, error) = spec_add_router(empty_server(), ports, tcp_port, port);
            if error is Some {
                (servers, error)
            } else {
                (servers.push((address, server)), None)
            }
        },
    }
}

/// Adding a port to the servers of its socket addresses, in order, stopping at an error.
pub open spec fn add_to_servers(
    servers: Seq<(Seq<char>, ServerView)>,
    ports: Seq<(u16, Port)>,
    tcp_port: u16,
    port: Port,
    addresses: Seq<Seq<char>>,
) -> (Seq<(Seq<char>, ServerView)>, Option<Seq<char>>)
    decreases addresses.len(),
{
    if addresses.len() == 0 {
        (servers, None)
    } else {
        let (next, error) = add_to_server(servers, ports, tcp_port, port, addresses[0]);
        if error is Some {
            (next, error)
        } else {
            add_to_servers(next, ports, tcp_port, port, addresses.drop_first())
        }
    }
}

/// Adding the ports from the `i`th on, each to the servers of its socket addresses.
pub open spec fn add_ports(
    servers: Seq<(Seq<char>, ServerView)>,
    ports: Seq<(u16, Port)>,
    addresses: Seq<Seq<Seq<char>>>,
    i: int,
) -> (Seq<(Seq<char>, ServerView)>, Option<Seq<char>>)
    decreases ports.len() - i,
{
    if i < 0 || i >= ports.len() {
        (servers, None)
    } else {
        let (next, error) = add_to_servers(servers, ports, ports[i].0, ports[i].1, addresses[i]);
        if error is Some {
            (next, error)
        } else {
            add_ports(next, ports, addresses, i + 1)
        }
    }
}

/// Socket addresses as plain values.
pub open spec fn addresses_view(addresses: Seq<Vec<String>>) -> Seq<Seq<Seq<char>>> {
    addresses.map_values(|list: Vec<String>| list@.map_values(|address: String| address@))
}

impl Servers {
    /// No servers.
    pub fn new() -> (servers: Self)
        ensures
            servers.servers@.len() == 0,
    {
        Servers { servers: Vec::new() }
    }

    /// The index of the server of a socket address.
    fn index_of(&self, address: &str) -> (index: Option<usize>)
        ensures
            index is Some <==> server_index(servers_view(self.servers@), address@) is Some,
            index matches Some(k) ==> k < self.servers@.len() && server_index(servers_view(self.servers@), address@) == Some(
                k as int,
            ) && self.servers@[k as int].0@ == address@,
    {
        let ghost views = servers_view(self.servers@);
        let mut i: usize = 0;
        while i < self.servers.len()
            invariant
                i <= self.servers@.len(),
                views == servers_view(self.servers@),
                forall|j: int| 0 <= j < i ==> (#[trigger] views[j]).0 != address@,
            decreases self.servers@.len() - i,
        {
            if str_eq(self.servers[i].0.as_str(), address) {
                proof {
                    let k = i as int;
                    assert(views[k].0 == address@);
                    let c = server_index(views, address@)->0;
                    assert(0 <= c < views.len() && views[c].0 == address@);
                    if c < k {
                    } else if c > k {
                    }
                    assert(c == k);
                }
                return Some(i);
            }
            i = i + 1;
        }
        None
    }

    /// Add a port to the server of a socket address, creating the server if necessary.
    #[verifier::rlimit(30)]
    fn add_to(&mut self, ports: &Vec<(u16, Port)>, tcp_port: u16, port: &Port, address: &str) -> (result: Result<(), String>)
        ensures
            ({
                let (servers, error) = add_to_server(servers_view(old(self).servers@), ports@, tcp_port, *port, address@);
                &&& servers_view(final(self).servers@) == servers
                &&& error == match result {
                    Ok(()) => None,
                    Err(message) => Some(message@),
                }
            }),
    {
        let ghost before = servers_view(self.servers@);
        match self.index_of(address) {
            Some(k) => {
                let (key, mut server) = self.servers.remove(k);
                let result = server.add_router(ports, tcp_port, port);
                self.servers.insert(k, (key, server));
                proof {
                    let (v, e) = spec_add_router(before[k as int].1, ports@, tcp_port, *port);
                    assert(key@ == address@);
                    assert(server_view(server) == v);
                    assert(servers_view(self.servers@) =~= before.update(k as int, (address@, v)));
                }
                result
            },
            None => {
                let mut server = Server::new();
                assert(server_view(server) =~= empty_server());
                match server.add_router(ports, tcp_port, port) {
                    Ok(()) => {
                        self.servers.push((String::from_str(address), server));
                        assert(servers_view(self.servers@) =~= before.push((address@, server_view(server))));
                        Ok(())
                    },
                    Err(message) => Err(message),
                }
            },
        }
    }

    /// Add a site: each of its ports (by TCP port) to the servers of its socket addresses,
    /// creating servers as necessary. `addresses` holds the socket addresses of each port, in
    /// the order of the ports.
    pub fn add_site(&mut self, ports: &Vec<(u16, Port)>, addresses: &Vec<Vec<String>>) -> (result: Result<(), String>)
        requires
            addresses@.len() == ports@.len(),
        ensures
            ({
                let (servers, error) = add_ports(servers_view(old(self).servers@), ports@, addresses_view(addresses@), 0);
                &&& servers_view(final(self).servers@) == servers
                &&& error == match result {
                    Ok(()) => None,
                    Err(message) => Some(message@),
                }
            }),
    {
        let ghost all = addresses_view(addresses@);
        let ghost goal = add_ports(servers_view(self.servers@), ports@, all, 0);
        let mut i: usize = 0;
        while i < ports.len()
            invariant
                i <= ports@.len(),
                addresses@.len() == ports@.len(),
                all == addresses_view(addresses@),
                goal == add_ports(servers_view(old(self).servers@), ports@, addresses_view(addresses@), 0),
                goal == add_ports(servers_view(self.servers@), ports@, all, i as int),
            decreases ports@.len() - i,
        {
            let ghost list = all[i as int];
            let ghost start = servers_view(self.servers@);
            assert(list == addresses@[i as int]@.map_values(|address: String| address@));
            let ghost port_goal = add_to_servers(start, ports@, ports@[i as int].0, ports@[i as int].1, list);
            let mut j: usize = 0;
            assert(list.subrange(0, list.len() as int) =~= list);
            while j < addresses[i].len()
                invariant
                    i < ports@.len(),
                    j <= addresses@[i as int]@.len(),
                    addresses@.len() == ports@.len(),
                    list == addresses@[i as int]@.map_values(|address: String| address@),
                    all == addresses_view(addresses@),
                    list == all[i as int],
                    goal == add_ports(start, ports@, all, i as int),
                    goal == add_ports(servers_view(old(self).servers@), ports@, addresses_view(addresses@), 0),
                    port_goal == add_to_servers(start, ports@, ports@[i as int].0, ports@[i as int].1, list),
                    port_goal == add_to_servers(
                        servers_view(self.servers@),
                        ports@,
                        ports@[i as int].0,
                        ports@[i as int].1,
                        list.subrange(j as int, list.len() as int),
                    ),
                decreases addresses@[i as int]@.len() - j,
            {
                let ghost rest = list.subrange(j as int, list.len() as int);
                assert(rest[0] == addresses@[i as int]@[j as int]@);
                assert(rest.drop_first() =~= list.subrange(j + 1, list.len() as int));
                match self.add_to(ports, ports[i].0, &ports[i].1, addresses[i][j].as_str()) {
                    Ok(()) => {},
                    Err(message) => {
                        assert(port_goal.1 == Some(message@));
                        assert(goal == port_goal);
                        assert(port_goal.0 == servers_view(self.servers@));
                        return Err(message);
                    },
                }
                j = j + 1;
            }
            i = i + 1;
        }
        Ok(())
    }
}

/// Whether there is a server for a socket address.
pub open spec fn has_server(servers: Seq<(Seq<char>, ServerView)>, address: Seq<char>) -> bool {
    exists|k: int| 0 <= k < servers.len() && (#[trigger] servers[k]).0 == address
}

/// A socket address that has a server has a first one.
proof fn lemma_first_server(servers: Seq<(Seq<char>, ServerView)>, address: Seq<char>, i: int)
    requires
        0 <= i < servers.len(),
        servers[i].0 == address,
    ensures
        server_index(servers, address) matches Some(k) && 0 <= k < servers.len() && servers[k].0 == address,
    decreases i,
{
    if exists|j: int| 0 <= j < i && (#[trigger] servers[j]).0 == address {
        let j = choose|j: int| 0 <= j < i && (#[trigger] servers[j]).0 == address;
        lemma_first_server(servers, address, j);
    } else {
        assert(0 <= i < servers.len() && servers[i].0 == address && forall|j: int| 0 <= j < i ==> (#[trigger] servers[j]).0 != address);
    }
}

/// Adding a port to the server of an address keeps every server's address, and when it
/// succeeds the address has a server.
proof fn lemma_add_to_server_keeps(servers: Seq<(Seq<char>, ServerView)>, ports: Seq<(u16, Port)>, tcp_port: u16, port: Port, address: Seq<char>)
    ensures
        forall|a: Seq<char>| has_server(servers, a) ==> has_server(add_to_server(servers, ports, tcp_port, port, address).0, a),
        add_to_server(servers, ports, tcp_port, port, address).1 is None ==> has_server(add_to_server(servers, ports, tcp_port, port, address).0, address),
{
    let (after, error) = add_to_server(servers, ports, tcp_port, port, address);
    match server_index(servers, address) {
        Some(i) => {
            if has_server(servers, address) {
                let k = choose|k: int| 0 <= k < servers.len() && (#[trigger] servers[k]).0 == address;
                lemma_first_server(servers, address, k);
            } else {
                assert(false);
            }
            assert(servers[i].0 == address);
            assert forall|a: Seq<char>| has_server(servers, a) implies has_server(after, a) by {
                let k = choose|k: int| 0 <= k < servers.len() && (#[trigger] servers[k]).0 == a;
                assert(after[k].0 == a);
            }
            assert(after[i].0 == address);
        },
        None => {
            if error is None {
                assert forall|a: Seq<char>| has_server(servers, a) implies has_server(after, a) by {
                    let k = choose|k: int| 0 <= k < servers.len() && (#[trigger] servers[k]).0 == a;
                    assert(after[k].0 == a);
                }
                assert(after[servers.len() as int].0 == address);
            }
        },
    }
}

/// Adding a port to the servers of its addresses keeps every server's address, and when it
/// succeeds each of the addresses has a server.
proof fn lemma_add_to_servers_keeps(servers: Seq<(Seq<char>, ServerView)>, ports: Seq<(u16, Port)>, tcp_port: u16, port: Port, addresses: Seq<Seq<char>>)
    ensures
        forall|a: Seq<char>| has_server(servers, a) ==> has_server(add_to_servers(servers, ports, tcp_port, port, addresses).0, a),
        add_to_servers(servers, ports, tcp_port, port, addresses).1 is None ==> forall|j: int|
            0 <= j < addresses.len() ==> has_server(add_to_servers(servers, ports, tcp_port, port, addresses).0, #[trigger] addresses[j]),
    decreases addresses.len(),
{
    if addresses.len() > 0 {
        lemma_add_to_server_keeps(servers, ports, tcp_port, port, addresses[0]);
        let (next, error) = add_to_server(servers, ports, tcp_port, port, addresses[0]);
        if error is None {
            lemma_add_to_servers_keeps(next, ports, tcp_port, port, addresses.drop_first());
            let result = add_to_servers(servers, ports, tcp_port, port, addresses);
            assert(result == add_to_servers(next, ports, tcp_port, port, addresses.drop_first()));
            assert forall|j: int| 0 <= j < addresses.len() && result.1 is None implies has_server(result.0, #[trigger] addresses[j]) by {
                if j > 0 {
                    assert(addresses.drop_first()[j - 1] == addresses[j]);
                } else {
                    assert(has_server(next, addresses[0]));
                }
            }
        }
    }
}

/// Adding the ports from the `i`th on keeps every server's address, and when it succeeds each
/// of their addresses has a server.
proof fn lemma_add_ports_keeps(servers: Seq<(Seq<char>, ServerView)>, ports: Seq<(u16, Port)>, addresses: Seq<Seq<Seq<char>>>, i: int)
    requires
        addresses.len() == ports.len(),
        0 <= i,
    ensures
        forall|a: Seq<char>| has_server(servers, a) ==> has_server(add_ports(servers, ports, addresses, i).0, a),
        add_ports(servers, ports, addresses, i).1 is None ==> forall|p: int, j: int|
            i <= p < ports.len() && 0 <= j < addresses[p].len() ==> has_server(add_ports(servers, ports, addresses, i).0, #[trigger] addresses[p][j]),
    decreases ports.len() - i,
{
    if i < ports.len() {
        lemma_add_to_servers_keeps(servers, ports, ports[i].0, ports[i].1, addresses[i]);
        let (next, error) = add_to_servers(servers, ports, ports[i].0, ports[i].1, addresses[i]);
        if error is None {
            lemma_add_ports_keeps(next, ports, addresses, i + 1);
        }
    }
}

/// A site added without error has a server for each socket address of each of its ports, and
/// every server there was is still there.
pub proof fn law_site_addresses_served(servers: Seq<(Seq<char>, ServerView)>, ports: Seq<(u16, Port)>, addresses: Seq<Seq<Seq<char>>>)
    requires
        addresses.len() == ports.len(),
    ensures
        forall|a: Seq<char>| has_server(servers, a) ==> has_server(add_ports(servers, ports, addresses, 0).0, a),
        add_ports(servers, ports, addresses, 0).1 is None ==> forall|p: int, j: int|
            0 <= p < ports.len() && 0 <= j < addresses[p].len() ==> has_server(add_ports(servers, ports, addresses, 0).0, #[trigger] addresses[p][j]),
{
    lemma_add_ports_keeps(servers, ports, addresses, 0);
}

} // verus!
