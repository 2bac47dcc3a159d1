//! Ports and their hosts, with TLS by key or by ACME.
use vstd::prelude::*;

use crate::configuration::listen::{loadable_with_base, IpAddress, ListenablePortConfiguration, LoadableBlob};
use crate::util::decimal::{decimal, to_decimal};
use crate::configuration::paths::spec_with_base;
use crate::text::copy_strings;
use crate::util::file_path::{path_is_absolute, path_join};

verus! {

/// TLS key.
#[derive(Debug, Clone)]
pub struct Key {
    /// Certificates PEM.
    pub certificates: LoadableBlob,
    /// Private key PEM.
    pub private_key: LoadableBlob,
}

impl Key {
    /// Validate: makes relative file paths relative to the base path.
    pub fn validate(&mut self, base_path: &str) -> (result: Result<(), String>)
        ensures
            result is Ok,
            loadable_with_base(base_path@, old(self).certificates, final(self).certificates),
            loadable_with_base(base_path@, old(self).private_key, final(self).private_key),
    {
        self.certificates.with_base_path(base_path);
        self.private_key.with_base_path(base_path);
        Ok(())
    }
}

/// The ACME directory of Let's Encrypt's staging environment.
pub const LETS_ENCRYPT_STAGING_DIRECTORY: &'static str = "https://acme-staging-v02.api.letsencrypt.org/directory";

/// TLS by ACME.
#[derive(Debug)]
pub struct ACME {
    /// ACME directory URI.
    pub directory: String,
    /// Contacts (usually email addresses).
    pub contacts: Vec<String>,
    /// Cache.
    pub cache: String,
}

/// What an ACME certificate provider is made of.
#[derive(Debug)]
pub struct AcmeProvider {
    /// Hosts.
    pub hosts: Vec<String>,
    /// ACME directory URI.
    pub directory: String,
    /// Contacts.
    pub contacts: Vec<String>,
    /// Cache.
    pub cache: String,
}

impl ACME {
    /// Validate: makes a relative cache path relative to the base path.
    pub fn validate(&mut self, base_path: &str) -> (result: Result<(), String>)
        ensures
            result is Ok,
            final(self).directory == old(self).directory,
            final(self).contacts == old(self).contacts,
            final(self).cache@ == spec_with_base(base_path@, old(self).cache@),
    {
        if !path_is_absolute(self.cache.as_str()) {
            self.cache = path_join(base_path, self.cache.as_str());
        }
        Ok(())
    }

    /// The ACME provider for one host.
    pub fn provider(&self, host: String) -> (provider: AcmeProvider)
        ensures
            provider.hosts@.len() == 1,
            provider.hosts@[0] == host,
            provider.directory@ == self.directory@,
            provider.contacts@.len() == self.contacts@.len(),
            forall|i: int| 0 <= i < self.contacts@.len() ==> #[trigger] provider.contacts@[i]@ == self.contacts@[i]@,
            provider.cache@ == self.cache@,
    {
        let mut hosts: Vec<String> = Vec::new();
        hosts.push(host);
        AcmeProvider {
            hosts,
            directory: String::from_str(self.directory.as_str()),
            contacts: copy_strings(&self.contacts),
            cache: String::from_str(self.cache.as_str()),
        }
    }
}

impl Default for ACME {
    fn default() -> (acme: Self)
        ensures
            acme.directory@ == LETS_ENCRYPT_STAGING_DIRECTORY@,
            acme.contacts@.len() == 0,
            acme.cache@ == "acme"@,
    {
        ACME {
            directory: String::from_str(LETS_ENCRYPT_STAGING_DIRECTORY),
            contacts: Vec::new(),
            cache: String::from_str("acme"),
        }
    }
}

/// Host.
#[derive(Debug)]
pub struct Host {
    /// Name.
    pub name: String,
    /// Whether to redirect all requests to this port.
    pub redirect_to: Option<u16>,
    /// Optional key configuration.
    pub key: Option<Key>,
    /// Optional ACME configuration.
    pub acme: Option<ACME>,
}

/// The message of a host configured with both a key and ACME.
pub open spec fn both_key_and_acme_message() -> Seq<char> {
    "host cannot have both `key` and `acme`"@
}

/// Whether a host has TLS: a key or ACME.
pub open spec fn spec_has_tls(host: Host) -> bool {
    host.key is Some || host.acme is Some
}

impl Host {
    /// Validate: a host cannot have both a key and ACME; relative paths are made relative to
    /// the base path.
    pub fn validate(&mut self, base_path: &str) -> (result: Result<(), String>)
        ensures
            result is Err <==> (old(self).key is Some && old(self).acme is Some),
            result matches Err(message) ==> message@ == both_key_and_acme_message() && *final(self) == *old(self),
            result is Ok ==> {
                &&& final(self).name == old(self).name
                &&& final(self).redirect_to == old(self).redirect_to
                &&& (final(self).key is Some <==> old(self).key is Some)
                &&& (old(self).key matches Some(k) ==> final(self).key matches Some(f) && loadable_with_base(
                    base_path@,
                    k.certificates,
                    f.certificates,
                ) && loadable_with_base(base_path@, k.private_key, f.private_key))
                &&& (final(self).acme is Some <==> old(self).acme is Some)
                &&& (old(self).acme matches Some(a) ==> final(self).acme matches Some(f) && f.directory
                    == a.directory && f.contacts == a.contacts && f.cache@ == spec_with_base(base_path@, a.cache@))
            },
    {
        if self.key.is_some() && self.acme.is_some() {
            proof {
                reveal_strlit("host cannot have both `key` and `acme`");
            }
            return Err(String::from_str("host cannot have both `key` and `acme`"));
        }
        match &mut self.key {
            Some(key) => {
                let _ = key.validate(base_path);
            },
            None => {},
        }
        match &mut self.acme {
            Some(acme) => {
                let _ = acme.validate(base_path);
            },
            None => {},
        }
        Ok(())
    }

    /// Whether we have TLS.
    pub fn has_tls(&self) -> (tls: bool)
        ensures
            tls == spec_has_tls(*self),
    {
        self.key.is_some() || self.acme.is_some()
    }
}

/// Port.
#[derive(Debug)]
pub struct Port {
    /// Index.
    pub index: usize,
    /// Name. Defaults to a string representation of the index.
    pub name: String,
    /// Optional address or hint.
    pub address: Option<IpAddress>,
    /// Optional zone for an IPv6 address.
    pub zone: Option<String>,
    /// Optional flowinfo for an IPv6 address.
    pub flowinfo: Option<u32>,
    /// Whether to include loopbacks when providing reachable addresses.
    pub include_loopbacks: bool,
    /// Hosts.
    pub hosts: Vec<Host>,
}

/// Whether any of a port's hosts has TLS.
pub open spec fn spec_is_tls(port: Port) -> bool {
    exists|i: int| 0 <= i < port.hosts@.len() && spec_has_tls(#[trigger] port.hosts@[i])
}

impl Port {
    /// A port with the default settings: named by its index, on any address, with loopbacks
    /// and without hosts.
    pub fn new(index: usize) -> (port: Self)
        ensures
            port.index == index,
            port.name@ == decimal(index as nat),
            port.address is None,
            port.zone is None,
            port.flowinfo is None,
            port.include_loopbacks,
            port.hosts@.len() == 0,
    {
        Port {
            index,
            name: to_decimal(index as u64),
            address: None,
            zone: None,
            flowinfo: None,
            include_loopbacks: true,
            hosts: Vec::new(),
        }
    }

    /// What the port binds to at a TCP port: its address or hint, without unspecified
    /// addresses.
    pub fn listenable_port_configuration(&self, port: u16) -> (configuration: ListenablePortConfiguration)
        ensures
            configuration.port == port,
            configuration.address == self.address,
            configuration.zone == self.zone,
            configuration.flowinfo == self.flowinfo,
            configuration.scope is None,
            !configuration.allow_unspecified,
            configuration.include_loopbacks == self.include_loopbacks,
    {
        ListenablePortConfiguration {
            port,
            address: self.address,
            zone: match &self.zone {
                Some(zone) => Some(zone.clone()),
                None => None,
            },
            flowinfo: self.flowinfo,
            scope: None,
            allow_unspecified: false,
            include_loopbacks: self.include_loopbacks,
        }
    }

    /// Validate every host in order, stopping at the first error.
    pub fn validate(&mut self, base_path: &str) -> (result: Result<(), String>)
        ensures
            result is Err <==> exists|i: int|
                0 <= i < old(self).hosts@.len() && (#[trigger] old(self).hosts@[i]).key is Some && old(self).hosts@[i].acme is Some,
            result matches Err(message) ==> message@ == both_key_and_acme_message(),
            final(self).hosts@.len() == old(self).hosts@.len(),
            final(self).name == old(self).name,
            result is Ok ==> forall|i: int| 0 <= i < old(self).hosts@.len() ==> (#[trigger] final(self).hosts@[i]).name
                == old(self).hosts@[i].name,
    {
        let mut i: usize = 0;
        while i < self.hosts.len()
            invariant
                i <= self.hosts@.len(),
                self.hosts@.len() == old(self).hosts@.len(),
                self.name == old(self).name,
                forall|j: int| i <= j < self.hosts@.len() ==> self.hosts@[j] == old(self).hosts@[j],
                forall|j: int| 0 <= j < i ==> !((#[trigger] old(self).hosts@[j]).key is Some && old(self).hosts@[j].acme is Some),
                forall|j: int| 0 <= j < i ==> (#[trigger] self.hosts@[j]).name == old(self).hosts@[j].name,
            decreases self.hosts@.len() - i,
        {
            let mut host = self.hosts.remove(i);
            let result = host.validate(base_path);
            self.hosts.insert(i, host);
            match result {
                Err(message) => {
                    return Err(message);
                },
                Ok(()) => {},
            }
            i = i + 1;
        }
        Ok(())
    }

    /// Whether any of the hosts has TLS.
    pub fn is_tls(&self) -> (tls: bool)
        ensures
            tls == spec_is_tls(*self),
    {
        let mut i: usize = 0;
        while i < self.hosts.len()
            invariant
                i <= self.hosts@.len(),
                forall|j: int| 0 <= j < i ==> !spec_has_tls(#[trigger] self.hosts@[j]),
            decreases self.hosts@.len() - i,
        {
            if self.hosts[i].has_tls() {
                return true;
            }
            i = i + 1;
        }
        false
    }
}

} // verus!
