//! Status pages: non-success responses answered with a file of the status code's name.
use vstd::prelude::*;

use crate::configuration::constants::HTML_SUFFIX;
use crate::status::is_success;
use crate::util::decimal::{decimal, to_decimal};
use crate::util::file_path::{path_join, spec_path_join};

verus! {

/// Middleware that answers non-success status codes with files.
#[derive(Debug)]
pub struct StatusMiddleware {
    /// Assets path.
    pub assets_path: String,
}

/// The file that answers a status code: none for a success, else "{status}.html" under the
/// assets path.
pub open spec fn spec_status_page(assets_path: Seq<char>, status: u16) -> Option<Seq<char>> {
    if is_success(status) {
        None
    } else {
        Some(spec_path_join(assets_path, decimal(status as nat) + ".html"@))
    }
}

impl StatusMiddleware {
    /// Constructor.
    pub fn new(assets_path: String) -> (middleware: Self)
        ensures
            middleware.assets_path == assets_path,
    {
        StatusMiddleware { assets_path }
    }

    /// The file to answer a response's status code with, if it exists.
    pub fn status_page(&self, status: u16) -> (page: Option<String>)
        ensures
            page is Some <==> spec_status_page(self.assets_path@, status) is Some,
            page matches Some(p) ==> spec_status_page(self.assets_path@, status) == Some(p@),
    {
        if 200 <= status && status < 300 {
            return None;
        }
        proof {
            reveal_strlit(".html");
        }
        let name = to_decimal(status as u64).concat(HTML_SUFFIX);
        Some(path_join(self.assets_path.as_str(), name.as_str()))
    }
}

} // verus!
