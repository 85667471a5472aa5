//! FinTS/HBCI PinTAN client library: protocol data, parameter lookup,
//! account checks, challenge codes and status handling.

pub mod text;
pub mod strmap;
pub mod error;
pub mod callback;
pub mod dialog;
pub mod tools;
pub mod manager;
pub mod passport;
pub mod protocol;
pub mod gv_result;
pub mod swift;
pub mod sepa;
pub mod gv;
pub mod xml;
