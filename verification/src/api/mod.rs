pub mod infra;
pub mod transport;
