pub mod address;
pub mod api;
pub mod error;
pub mod response;
pub mod route_map;
pub mod slippage;
pub mod text;
pub mod transactions;
pub mod types;
