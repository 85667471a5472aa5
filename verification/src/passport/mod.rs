//! The PinTAN passport: the user's and the bank's data for a dialog, and
//! the PIN/TAN signature.

pub mod pintan;
pub mod storage;
pub mod user_sig;

pub use storage::{KdfParams, PassportStorage};
pub use user_sig::UserSig;
