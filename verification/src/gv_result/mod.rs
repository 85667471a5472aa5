//! Results of business transactions: statuses, accounts, balances, statements.

pub mod account;
pub mod data;
pub mod exec;
pub mod kums;

pub mod status;

pub use account::{Konto, Limit, Saldo, Value};
pub use data::{
    GvrAccInfo, GvrAccInfoAddress, GvrAccInfoEntry, GvrDauerEdit, GvrDauerList,
    GvrDauerListAussetzung, GvrDauerListEntry, GvrDauerNew, GvrSaldoReq, GvrSaldoReqInfo,
    GvrTanMediaInfo, GvrTanMediaList,
};
pub use exec::{HbciExecStatus, HbciInstMessage, HbciJobResult, HbciJobResultData};
pub use kums::{GvrKUms, GvrKUmsBTag, GvrKUmsLine};

pub use status::{
    HbciDialogStatus, HbciMsgStatus, HbciReturnValue, HbciStatus, HbciStatusCode,
};
