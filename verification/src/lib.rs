pub mod handlers;
pub mod idgen;
pub mod laws;
pub mod store;
