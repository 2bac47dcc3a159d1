//! The decisions of the server's middleware: rewriting URI paths, answering with status
//! pages, rendering pages and basic authorization.
pub mod authorization;
pub mod render;
pub mod status;
pub mod uri;
