pub mod error;
pub mod wav;
pub mod client;
pub mod cache;
pub mod session;
