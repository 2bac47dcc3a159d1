//! An unfussy web server's verified core: URI paths, file names, page rendering decisions,
//! redirection, protection and the planning of servers.
pub mod configuration;
pub mod escape;
pub mod format;
pub mod headers;
pub mod markup;
pub mod parsing;
pub mod middleware;
pub mod order;
pub mod pattern;
pub mod render;
pub mod site;
pub mod status;
pub mod text;
pub mod time;
pub mod util;
pub mod value;
