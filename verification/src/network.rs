pub mod handler;
pub mod protocol;
pub mod stream;
