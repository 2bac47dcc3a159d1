//! Rendering pages: which responses are rendered.
use vstd::prelude::*;

use crate::configuration::render::spec_is_rendered_page;
use crate::configuration::server::ServerConfiguration;
use crate::render::rendered_page::RenderedPageType;
use crate::status::OK;

verus! {

/// Middleware that renders pages.
#[derive(Debug)]
pub struct RenderMiddleware {
    /// Configuration.
    pub configuration: ServerConfiguration,
    /// Templates path.
    pub templates: String,
}

/// The type of page a response is rendered as: only a 200 response to a rendered page's URI
/// path is.
pub open spec fn spec_renders(midfix: Seq<char>, uri_path: Seq<char>, status: u16) -> Option<RenderedPageType> {
    match spec_is_rendered_page(uri_path, midfix) {
        Some(page_type) => if status == OK {
            Some(page_type)
        } else {
            None
        },
        None => None,
    }
}

impl RenderMiddleware {
    /// Constructor: templates come from the configured templates path.
    pub fn new(configuration: ServerConfiguration) -> (middleware: Self)
        ensures
            middleware.configuration == configuration,
            middleware.templates@ == configuration.paths.templates@,
    {
        let templates = configuration.paths.templates.clone();
        Self::new_with(configuration, templates)
    }

    /// Constructor.
    pub fn new_with(configuration: ServerConfiguration, templates: String) -> (middleware: Self)
        ensures
            middleware.configuration == configuration,
            middleware.templates == templates,
    {
        RenderMiddleware { configuration, templates }
    }

    /// Whether the response to a request for the URI path, with the status code, is rendered,
    /// and as which type of page.
    pub fn renders(&self, uri_path: &str, status: u16) -> (page_type: Option<RenderedPageType>)
        ensures
            page_type == spec_renders(self.configuration.render.rendered_page_midfix@, uri_path@, status),
    {
        match self.configuration.render.is_rendered_page(uri_path) {
            Some(page_type) => if status == OK {
                Some(page_type)
            } else {
                None
            },
            None => None,
        }
    }
}

} // verus!
