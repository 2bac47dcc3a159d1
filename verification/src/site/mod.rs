//! Sites: the configuration of ports and hosts, and the planning of the servers that listen
//! on them.
pub mod about;
pub mod catalog;
pub mod catch;
pub mod compare;
pub mod credence;
pub mod page;
pub mod port;
pub mod server;
pub mod servers;
pub mod urls;
