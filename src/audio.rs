pub mod device;
pub mod stream;
