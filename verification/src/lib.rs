pub mod bytes;
pub mod laws;
