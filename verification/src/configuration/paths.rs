//! Paths configuration.
use vstd::prelude::*;

use crate::text::{trim_start_char, trim_start_matches};
use crate::util::constants::PATH_SEPARATOR;
use crate::util::file_path::{path_is_absolute, path_join, spec_is_absolute, spec_path_join};

verus! {

/// Paths configuration.
#[derive(Debug, Clone)]
pub struct PathsConfiguration {
    /// Assets path.
    pub assets: String,
    /// Status path.
    pub status: String,
    /// Templates path.
    pub templates: String,
}

/// `path` made relative to `base` unless it is absolute.
pub open spec fn spec_with_base(base: Seq<char>, path: Seq<char>) -> Seq<char> {
    if spec_is_absolute(path) {
        path
    } else {
        spec_path_join(base, path)
    }
}

impl PathsConfiguration {
    /// With assets path: sets the assets path if it is empty.
    pub fn with_assets_path(&mut self, assets_path: &str)
        ensures
            final(self).assets@ == (if old(self).assets@.len() == 0 {
                assets_path@
            } else {
                old(self).assets@
            }),
            final(self).status == old(self).status,
            final(self).templates == old(self).templates,
    {
        if self.assets.as_str().is_empty() {
            self.assets = String::from_str(assets_path);
        }
    }

    /// With base path: makes the status and templates paths relative to the base path unless
    /// they are absolute.
    pub fn with_base_path(&mut self, base_path: &str)
        ensures
            final(self).assets == old(self).assets,
            final(self).status@ == spec_with_base(base_path@, old(self).status@),
            final(self).templates@ == spec_with_base(base_path@, old(self).templates@),
    {
        if !path_is_absolute(self.status.as_str()) {
            self.status = path_join(base_path, self.status.as_str());
        }
        if !path_is_absolute(self.templates.as_str()) {
            self.templates = path_join(base_path, self.templates.as_str());
        }
    }

    /// Asset path for a URI path: the URI path without its leading separators, under the
    /// assets path.
    pub fn asset(&self, uri_path: &str) -> (path: String)
        ensures
            path@ == spec_path_join(self.assets@, trim_start_char(uri_path@, PATH_SEPARATOR)),
    {
        let relative = trim_start_matches(uri_path, PATH_SEPARATOR);
        path_join(self.assets.as_str(), relative.as_str())
    }
}

impl Default for PathsConfiguration {
    fn default() -> (configuration: Self)
        ensures
            configuration.assets@ == Seq::<char>::empty(),
            configuration.status@ == "status"@,
            configuration.templates@ == "templates"@,
    {
        PathsConfiguration {
            assets: String::new(),
            status: String::from_str("status"),
            templates: String::from_str("templates"),
        }
    }
}

} // verus!
