pub mod registry;
pub mod server;
