//! Listening: sockets and TLS.
use vstd::prelude::*;

use crate::util::file_path::{path_is_absolute, path_join};
use super::paths::spec_with_base;

verus! {

/// Content that is either given inline or loaded from a file.
#[derive(Debug, Clone)]
pub enum LoadableBlob {
    /// File path.
    Path(String),
    /// Inline content.
    Content(Vec<u8>),
}

/// A loadable made relative to a base path (only file paths change).
pub open spec fn loadable_with_base(base: Seq<char>, before: LoadableBlob, after: LoadableBlob) -> bool {
    match before {
        LoadableBlob::Path(path) => after matches LoadableBlob::Path(p) && p@ == spec_with_base(base, path@),
        LoadableBlob::Content(content) => after matches LoadableBlob::Content(c) && c@ == content@,
    }
}

impl LoadableBlob {
    /// Makes a relative file path relative to the base path.
    pub fn with_base_path(&mut self, base_path: &str)
        ensures
            loadable_with_base(base_path@, *old(self), *final(self)),
    {
        match self {
            LoadableBlob::Path(path) => {
                if !path_is_absolute(path.as_str()) {
                    *path = path_join(base_path, path.as_str());
                }
            },
            LoadableBlob::Content(_) => {},
        }
    }
}

impl Default for LoadableBlob {
    fn default() -> (blob: Self)
        ensures
            blob matches LoadableBlob::Content(c) && c@.len() == 0,
    {
        LoadableBlob::Content(Vec::new())
    }
}

//
// TLS
//

/// TLS.
#[derive(Debug, Clone)]
pub struct TLS {
    /// Certificate PEM.
    pub certificate: LoadableBlob,
    /// Key PEM.
    pub key: LoadableBlob,
}

impl TLS {
    /// With base path: makes relative certificate and key paths relative to the base path.
    pub fn with_base_path(&mut self, base_path: &str)
        ensures
            loadable_with_base(base_path@, old(self).certificate, final(self).certificate),
            loadable_with_base(base_path@, old(self).key, final(self).key),
    {
        self.certificate.with_base_path(base_path);
        self.key.with_base_path(base_path);
    }
}

impl Default for TLS {
    fn default() -> (tls: Self)
        ensures
            tls.certificate matches LoadableBlob::Content(c) && c@.len() == 0,
            tls.key matches LoadableBlob::Content(k) && k@.len() == 0,
    {
        TLS { certificate: LoadableBlob::default(), key: LoadableBlob::default() }
    }
}

//
// Listen
//

/// An IP address.
#[derive(Debug, Clone, Copy, PartialEq, Eq, Structural)]
pub enum IpAddress {
    /// IPv4.
    V4(u8, u8, u8, u8),
    /// IPv6, as eight 16-bit segments.
    V6(u16, u16, u16, u16, u16, u16, u16, u16),
}

/// Listen.
#[derive(Debug, Clone)]
pub struct Listen {
    /// Index.
    pub index: usize,
    /// Name. Will default to a string representation of the index.
    pub name: String,
    /// Optional address or hint.
    pub address: Option<IpAddress>,
    /// Optional flowinfo for IPv6 address.
    pub flowinfo: Option<u32>,
    /// Optional scope ID for IPv6 address.
    pub scope: Option<u32>,
    /// Whether to include loopbacks when providing reachable addresses.
    pub include_loopbacks: bool,
    /// Port.
    pub port: u16,
    /// Optional TLS configuration.
    pub tls: Option<TLS>,
}

/// What a listener binds to: a TCP port on the addresses that an address or hint selects.
#[derive(Debug)]
pub struct ListenablePortConfiguration {
    /// TCP port.
    pub port: u16,
    /// Optional address or hint.
    pub address: Option<IpAddress>,
    /// Optional zone for an IPv6 address.
    pub zone: Option<String>,
    /// Optional flowinfo for an IPv6 address.
    pub flowinfo: Option<u32>,
    /// Optional scope ID for an IPv6 address.
    pub scope: Option<u32>,
    /// Whether an unspecified address may be bound.
    pub allow_unspecified: bool,
    /// Whether to include loopbacks when providing reachable addresses.
    pub include_loopbacks: bool,
}

impl Listen {
    /// What the listener binds to: its port on its address or hint, without unspecified
    /// addresses.
    pub fn server_port(&self) -> (configuration: ListenablePortConfiguration)
        ensures
            configuration.port == self.port,
            configuration.address == self.address,
            configuration.zone is None,
            configuration.flowinfo == self.flowinfo,
            configuration.scope == self.scope,
            !configuration.allow_unspecified,
            configuration.include_loopbacks == self.include_loopbacks,
    {
        ListenablePortConfiguration {
            port: self.port,
            address: self.address,
            zone: None,
            flowinfo: self.flowinfo,
            scope: self.scope,
            allow_unspecified: false,
            include_loopbacks: self.include_loopbacks,
        }
    }

    /// A listener with the default settings (port 8080, loopbacks included, no TLS), with the
    /// given index and name.
    pub fn new(index: usize, name: String) -> (listen: Self)
        ensures
            listen.index == index,
            listen.name == name,
            listen.address is None,
            listen.flowinfo is None,
            listen.scope is None,
            listen.include_loopbacks,
            listen.port == 8080,
            listen.tls is None,
    {
        Listen {
            index,
            name,
            address: None,
            flowinfo: None,
            scope: None,
            include_loopbacks: true,
            port: 8080,
            tls: None,
        }
    }

    /// With base path: applies to the TLS configuration, if any.
    pub fn with_base_path(&mut self, base_path: &str)
        ensures
            final(self).tls is Some <==> old(self).tls is Some,
            old(self).tls matches Some(tls) ==> {
                &&& loadable_with_base(base_path@, tls.certificate, final(self).tls->0.certificate)
                &&& loadable_with_base(base_path@, tls.key, final(self).tls->0.key)
            },
            final(self).index == old(self).index,
            final(self).name == old(self).name,
            final(self).address == old(self).address,
            final(self).port == old(self).port,
    {
        match &mut self.tls {
            Some(tls) => tls.with_base_path(base_path),
            None => {},
        }
    }
}

} // verus!
