//! Bank-side helpers: account checks, order hashes, security mechanisms.

pub mod account_crc;
pub mod bank_info;
pub mod handler;
pub mod render;
pub mod tan;
pub mod prompts;
pub mod dialog_handler;
pub mod runtime;
pub mod orderhash;
pub mod secmech;

pub use account_crc::AccountCrcAlgs;
pub use orderhash::OrderHashMode;
