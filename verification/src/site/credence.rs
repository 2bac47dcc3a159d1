//! The configuration of a site.
use vstd::prelude::*;

use crate::configuration::annotations::AnnotationsConfiguration;
use crate::configuration::constants::{DEFAULT_RENDER_MIDFIX, DEFAULT_TEMPLATE};
use crate::configuration::paths::PathsConfiguration;
use crate::configuration::render::{rendered_page_type, spec_is_rendered_page};
use crate::pattern::regex_is_match;
use crate::render::rendered_page::RenderedPageType;
use crate::render::renderer::Renderer;
use crate::text::{chars_of, starts_with, starts_with_exec, slice_chars, string_of, trim_start_char};
use crate::util::constants::PATH_SEPARATOR;
use crate::util::file_path::{path_file_name, path_file_name_of, path_parent, path_parent_of, spec_path_join};
use crate::util::uri_path::{law_dot_after_separator_is_hidden, spec_has_hidden_segment, uri_path_has_hidden_segment};
use crate::value::Variables;
use super::port::{both_key_and_acme_message, Port};
use super::urls::UrlsConfiguration;

verus! {

/// One kibibyte.
pub const KIBIBYTE: u64 = 1024;

/// One mebibyte.
pub const MEBIBYTE: u64 = 1048576;

/// One gibibyte.
pub const GIBIBYTE: u64 = 1073741824;

/// Render configuration.
#[derive(Debug)]
pub struct RenderConfiguration {
    /// Global variables.
    pub variables: Variables,
    /// Rendered page URI midfix.
    pub midfix: String,
    /// Annotations.
    pub annotations: AnnotationsConfiguration,
    /// Default renderer.
    pub default_renderer: Renderer,
    /// Default template.
    pub default_template: String,
    /// Maximum content size in bytes.
    pub max_content_size: u64,
}

impl RenderConfiguration {
    /// Whether the URI points to a rendered page, and if so returns its type.
    pub fn is_rendered_page(&self, uri_path: &str) -> (page_type: Option<RenderedPageType>)
        ensures
            page_type == spec_is_rendered_page(uri_path@, self.midfix@),
    {
        rendered_page_type(uri_path, self.midfix.as_str())
    }
}

impl Default for RenderConfiguration {
    fn default() -> (configuration: Self)
        ensures
            configuration.variables@.len() == 0,
            configuration.midfix@ == ".r"@,
            configuration.annotations.start_delimiter@ == "```"@,
            configuration.annotations.end_delimiter@ == "```"@,
            configuration.default_renderer == Renderer::GFM,
            configuration.default_template@ == "default.html"@,
            configuration.max_content_size == 10 * MEBIBYTE,
    {
        RenderConfiguration {
            variables: Vec::new(),
            midfix: String::from_str(DEFAULT_RENDER_MIDFIX),
            annotations: AnnotationsConfiguration::default(),
            default_renderer: Renderer::default(),
            default_template: String::from_str(DEFAULT_TEMPLATE),
            max_content_size: 10 * MEBIBYTE,
        }
    }
}

/// Requests configuration.
#[derive(Debug, Clone, Copy)]
pub struct RequestsConfiguration {
    /// Maximum body size in bytes.
    pub max_body_size: u64,
    /// Maximum duration in seconds.
    pub max_duration: u64,
}

impl Default for RequestsConfiguration {
    fn default() -> (configuration: Self)
        ensures
            configuration.max_body_size == 4 * KIBIBYTE,
            configuration.max_duration == 10,
    {
        RequestsConfiguration { max_body_size: 4 * KIBIBYTE, max_duration: 10 }
    }
}

/// Caching configuration.
#[derive(Debug, Clone, Copy)]
pub struct CachingConfiguration {
    /// Whether responses are cacheable by default.
    pub default: bool,
    /// Capacity in bytes.
    pub capacity: u64,
    /// Cache entry duration in seconds.
    pub duration: u64,
    /// Minimum cacheable body size in bytes.
    pub min_body_size: u64,
    /// Maximum cacheable body size in bytes.
    pub max_body_size: u64,
}

impl Default for CachingConfiguration {
    fn default() -> (configuration: Self)
        ensures
            configuration.default,
            configuration.capacity == GIBIBYTE,
            configuration.duration == 5,
            configuration.min_body_size == 0,
            configuration.max_body_size == 10 * MEBIBYTE,
    {
        CachingConfiguration { default: true, capacity: GIBIBYTE, duration: 5, min_body_size: 0, max_body_size: 10 * MEBIBYTE }
    }
}

/// The configuration of a site.
#[derive(Debug)]
pub struct CredenceConfiguration {
    /// Files.
    pub files: PathsConfiguration,
    /// Ports, by TCP port in ascending order.
    pub ports: Vec<(u16, Port)>,
    /// Requests.
    pub requests: RequestsConfiguration,
    /// URLs.
    pub urls: UrlsConfiguration,
    /// Render.
    pub render: RenderConfiguration,
    /// Caching.
    pub caching: CachingConfiguration,
}

/// Whether a URI path is hidden: it has a hidden segment, a hide regex matches it, or it is a
/// rendered page.
pub open spec fn spec_hide(configuration: CredenceConfiguration, uri_path: Seq<char>) -> bool {
    ||| spec_has_hidden_segment(uri_path)
    ||| exists|i: int|
        0 <= i < configuration.urls.hide@.len() && regex_is_match(
            (#[trigger] configuration.urls.hide@[i]).source(),
            uri_path,
        )
    ||| spec_is_rendered_page(uri_path, configuration.render.midfix@) is Some
}

/// Where the rendered page of a URI path is looked for: the directory of its asset path, and
/// the prefix (the asset's file name followed by the midfix and a dot) of the file names that
/// qualify.
pub open spec fn spec_site_rendered_page_lookup(configuration: CredenceConfiguration, uri_path: Seq<char>) -> Option<(Seq<char>, Seq<char>)> {
    let asset = spec_path_join(configuration.files.assets@, trim_start_char(uri_path, PATH_SEPARATOR));
    match (path_file_name_of(asset), path_parent_of(asset)) {
        (Some(name), Some(parent)) => Some((parent, name + configuration.render.midfix@ + seq!['.'])),
        _ => None,
    }
}

/// The URI path of the rendered page found among a directory's file names: the URI path, the
/// midfix, a dot, then whatever follows the prefix in the first name that begins with it.
pub open spec fn spec_site_rendered_page_uri_path(uri_path: Seq<char>, midfix: Seq<char>, prefix: Seq<char>, names: Seq<String>) -> Option<Seq<char>> {
    if exists|i: int| 0 <= i < names.len() && starts_with(#[trigger] names[i]@, prefix) {
        let i = choose|i: int|
            0 <= i < names.len() && starts_with(#[trigger] names[i]@, prefix) && forall|j: int|
                0 <= j < i ==> !starts_with(#[trigger] names[j]@, prefix);
        Some(uri_path + midfix + seq!['.'] + names[i]@.subrange(prefix.len() as int, names[i]@.len() as int))
    } else {
        None
    }
}

/// Every URI path with a segment that begins with "." (a "." first, or right after a "/") is
/// hidden, wherever that segment stands: "/.git/config" is hidden as well as "/a/.env".
pub proof fn law_dot_segments_hidden(configuration: CredenceConfiguration, uri_path: Seq<char>, k: int)
    requires
        0 <= k < uri_path.len(),
        k == 0 || uri_path[k - 1] == '/',
        uri_path[k] == '.',
    ensures
        spec_hide(configuration, uri_path),
{
    law_dot_after_separator_is_hidden(uri_path, k);
}

impl CredenceConfiguration {
    /// Validate: every port's hosts, in order of the ports; then the files' paths are made
    /// relative to the base path.
    pub fn validate(&mut self, base_path: &str) -> (result: Result<(), String>)
        ensures
            result is Err <==> exists|i: int, j: int|
                0 <= i < old(self).ports@.len() && 0 <= j < old(self).ports@[i].1.hosts@.len() && (#[trigger] old(
                    self,
                ).ports@[i].1.hosts@[j]).key is Some && old(self).ports@[i].1.hosts@[j].acme is Some,
            result matches Err(message) ==> message@ == both_key_and_acme_message(),
            final(self).ports@.len() == old(self).ports@.len(),
            result is Ok ==> final(self).files.assets == old(self).files.assets,
    {
        let mut i: usize = 0;
        while i < self.ports.len()
            invariant
                i <= self.ports@.len(),
                self.ports@.len() == old(self).ports@.len(),
                self.files == old(self).files,
                forall|k: int| i <= k < self.ports@.len() ==> self.ports@[k] == old(self).ports@[k],
                forall|k: int, j: int|
                    0 <= k < i && 0 <= j < old(self).ports@[k].1.hosts@.len() ==> !((#[trigger] old(
                        self,
                    ).ports@[k].1.hosts@[j]).key is Some && old(self).ports@[k].1.hosts@[j].acme is Some),
            decreases self.ports@.len() - i,
        {
            let (tcp_port, mut port) = self.ports.remove(i);
            let result = port.validate(base_path);
            self.ports.insert(i, (tcp_port, port));
            match result {
                Err(message) => return Err(message),
                Ok(()) => {},
            }
            i = i + 1;
        }
        self.files.with_base_path(base_path);
        Ok(())
    }

    /// Whether the URI path is hidden.
    pub fn is_hidden(&self, uri_path: &str) -> (hidden: bool)
        ensures
            hidden == spec_hide(*self, uri_path@),
    {
        if uri_path_has_hidden_segment(uri_path) {
            return true;
        }
        let mut i: usize = 0;
        while i < self.urls.hide.len()
            invariant
                i <= self.urls.hide@.len(),
                forall|j: int| 0 <= j < i ==> !regex_is_match((#[trigger] self.urls.hide@[j]).source(), uri_path@),
            decreases self.urls.hide@.len() - i,
        {
            if self.urls.hide[i].is_match(uri_path) {
                return true;
            }
            i = i + 1;
        }
        self.render.is_rendered_page(uri_path).is_some()
    }

    /// Where the rendered page of a URI path is looked for: a directory, and the prefix of the
    /// file names that qualify.
    pub fn rendered_page_lookup(&self, uri_path: &str) -> (lookup: Option<(String, String)>)
        ensures
            lookup is Some <==> spec_site_rendered_page_lookup(*self, uri_path@) is Some,
            lookup matches Some((directory, prefix)) ==> spec_site_rendered_page_lookup(*self, uri_path@) == Some(
                (directory@, prefix@),
            ),
    {
        let asset_path = self.files.asset(uri_path);
        match path_file_name(asset_path.as_str()) {
            Some(name) => match path_parent(asset_path.as_str()) {
                Some(parent) => {
                    proof {
                        reveal_strlit(".");
                    }
                    Some((parent, name.concat(self.render.midfix.as_str()).concat(".")))
                },
                None => None,
            },
            None => None,
        }
    }

    /// Rendered page URI path: "{path}" -> "{path}.r.yaml" or "{path}.r.*", by the first of
    /// the directory's file names that begins with the prefix.
    pub fn rendered_page_uri_path(&self, uri_path: &str, prefix: &str, names: &Vec<String>) -> (found: Option<String>)
        ensures
            found is Some <==> spec_site_rendered_page_uri_path(uri_path@, self.render.midfix@, prefix@, names@) is Some,
            found matches Some(f) ==> spec_site_rendered_page_uri_path(uri_path@, self.render.midfix@, prefix@, names@)
                == Some(f@),
    {
        let prefix_chars = chars_of(prefix);
        let mut i: usize = 0;
        while i < names.len()
            invariant
                prefix_chars@ == prefix@,
                i <= names@.len(),
                forall|j: int| 0 <= j < i ==> !starts_with(#[trigger] names@[j]@, prefix@),
            decreases names@.len() - i,
        {
            let name = chars_of(names[i].as_str());
            if starts_with_exec(&name, &prefix_chars) {
                proof {
                    let k = i as int;
                    assert(starts_with(names@[k]@, prefix@));
                    let c = choose|c: int|
                        0 <= c < names@.len() && starts_with(#[trigger] names@[c]@, prefix@) && forall|j: int|
                            0 <= j < c ==> !starts_with(#[trigger] names@[j]@, prefix@);
                    assert(0 <= c < names@.len() && starts_with(names@[c]@, prefix@));
                    assert(c == k);
                }
                let extension = string_of(&slice_chars(&name, prefix_chars.len(), name.len()));
                proof {
                    reveal_strlit(".");
                }
                let found = String::from_str(uri_path).concat(self.render.midfix.as_str()).concat(".").concat(extension.as_str());
                return Some(found);
            }
            i = i + 1;
        }
        None
    }
}

/// The port a default site listens on.
pub const DEFAULT_TCP_PORT: u16 = 8000;

impl Default for CredenceConfiguration {
    /// One port, 8000, named "http", without hosts.
    fn default() -> (configuration: Self)
        ensures
            configuration.ports@.len() == 1,
            configuration.ports@[0].0 == DEFAULT_TCP_PORT,
            configuration.ports@[0].1.name@ == "http"@,
            configuration.ports@[0].1.hosts@.len() == 0,
    {
        let mut port = Port::new(0);
        port.name = String::from_str("http");
        let mut ports: Vec<(u16, Port)> = Vec::new();
        ports.push((DEFAULT_TCP_PORT, port));
        CredenceConfiguration {
            files: PathsConfiguration::default(),
            ports,
            requests: RequestsConfiguration::default(),
            urls: UrlsConfiguration::default(),
            render: RenderConfiguration::default(),
            caching: CachingConfiguration::default(),
        }
    }
}

} // verus!
