//! Configuration.
pub mod annotations;
pub mod constants;
pub mod listen;
pub mod paths;
pub mod render;
pub mod protection;
pub mod redirect;
pub mod requests;
pub mod uri;
pub mod server;
