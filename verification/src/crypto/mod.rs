pub mod primitives;
pub mod encryption;
pub mod key_exchange;
