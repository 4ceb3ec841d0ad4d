pub mod kvstore;
pub mod lucid;
