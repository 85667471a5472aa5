//! Reading the reports of a CAMT.052 document: the account, the balances
//! and the entries of each `Rpt`, with the details of the first
//! transaction of each entry.

use vstd::prelude::*;
use crate::error::{ErrorView, HbciError, HbciErrorKind, HbciResult};
use crate::gv_result::account::{cents_text, cents_to_decimal, Konto, Saldo, Value};
use crate::gv_result::kums::{GvrKUmsBTag, GvrKUmsLine};
use crate::gv_result::status::str_views;
use crate::sepa::amount::{amount_fits, decimal_amount_to_cents, normalize_decimal_amount, normalized_amount, sepa_cents, sepa_cents_fit};
use crate::sepa::pain::{ValueView, ends, ends2, ends3, ends4, ends_with_path, first_ten, lemma_str_views_push, local_name, local_name_of, pain_attr, pain_tag_attr};
use crate::text::{
    append, chars_of, decimal, eq_ignore_ascii_case, join, eq_ignore_ascii_case_str, parse_int, parse_int_in, push_char,
    split_char, split_chars, str_eq, string_of, trim, trim_str,
};
use crate::tools::opt_view;
use crate::sepa::{SepaKind, SepaVersion};
use crate::xml::{read_error, xml_events, xml_events_of, XmlEvent, XmlTag};

verus! {

/// A party of a transaction: its account and names.
pub ghost struct PartyV {
    pub iban: Option<Seq<char>>,
    pub bic: Option<Seq<char>>,
    pub name: Option<Seq<char>>,
    pub name2: Option<Seq<char>>,
    pub creditorid: Option<Seq<char>>,
}

/// The details of the first transaction of an entry.
pub ghost struct TxV {
    pub id: Option<Seq<char>>,
    pub acct_svcr_ref: Option<Seq<char>>,
    pub end_to_end_id: Option<Seq<char>>,
    pub mandate_id: Option<Seq<char>>,
    pub debtor: PartyV,
    pub creditor: PartyV,
    pub usages: Seq<Seq<char>>,
    pub purpose_code: Option<Seq<char>>,
    pub return_reason_code: Option<Seq<char>>,
    pub return_additional: Seq<Seq<char>>,
    pub instructed_amount: Option<Seq<char>>,
    pub instructed_amount_currency: Option<Seq<char>>,
    pub proprietary_bank_code: Option<Seq<char>>,
}

/// An entry (`Ntry`) of a report, with what is known of its details.
pub ghost struct EntryV {
    pub amount: Option<Seq<char>>,
    pub currency: Option<Seq<char>>,
    pub credit_debit: Option<Seq<char>>,
    pub reversal: bool,
    pub booking_date: Option<Seq<char>>,
    pub value_date: Option<Seq<char>>,
    pub text: Option<Seq<char>>,
    pub customer_ref: Option<Seq<char>>,
    pub has_details: bool,
    pub seen_detail: bool,
    pub collecting_first_detail: bool,
    pub seen_tx_details: bool,
    pub collecting_first_tx: bool,
    pub tx: TxV,
}

/// A balance (`Bal`) of a report.
pub ghost struct BalanceV {
    pub code: Option<Seq<char>>,
    pub amount: Option<Seq<char>>,
    pub currency: Option<Seq<char>>,
    pub credit_debit: Option<Seq<char>>,
    pub date: Option<Seq<char>>,
}

/// A report (`Rpt`): the account's IBAN, currency and BIC, its balances
/// and its entries.
pub ghost struct ReportV {
    pub iban: Option<Seq<char>>,
    pub curr: Option<Seq<char>>,
    pub bic: Option<Seq<char>>,
    pub balances: Seq<BalanceV>,
    pub entries: Seq<EntryV>,
}

/// Where reading stands: the open elements (by local name), the reports
/// read, and the open report, balance and entry.
pub ghost struct CamtState {
    pub stack: Seq<Seq<char>>,
    pub reports: Seq<ReportV>,
    pub report: Option<ReportV>,
    pub balance: Option<BalanceV>,
    pub entry: Option<EntryV>,
}

pub open spec fn no_party() -> PartyV {
    PartyV { iban: None, bic: None, name: None, name2: None, creditorid: None }
}

pub open spec fn empty_tx() -> TxV {
    TxV {
        id: None,
        acct_svcr_ref: None,
        end_to_end_id: None,
        mandate_id: None,
        debtor: no_party(),
        creditor: no_party(),
        usages: seq![],
        purpose_code: None,
        return_reason_code: None,
        return_additional: seq![],
        instructed_amount: None,
        instructed_amount_currency: None,
        proprietary_bank_code: None,
    }
}

pub open spec fn empty_entry() -> EntryV {
    EntryV {
        amount: None,
        currency: None,
        credit_debit: None,
        reversal: false,
        booking_date: None,
        value_date: None,
        text: None,
        customer_ref: None,
        has_details: false,
        seen_detail: false,
        collecting_first_detail: false,
        seen_tx_details: false,
        collecting_first_tx: false,
        tx: empty_tx(),
    }
}

pub open spec fn empty_balance() -> BalanceV {
    BalanceV { code: None, amount: None, currency: None, credit_debit: None, date: None }
}

/// A new report; its account is in euros until it says otherwise.
pub open spec fn empty_report() -> ReportV {
    ReportV { iban: None, curr: Some("EUR"@), bic: None, balances: seq![], entries: seq![] }
}

pub open spec fn camt_initial() -> CamtState {
    CamtState { stack: seq![], reports: seq![], report: None, balance: None, entry: None }
}

/// The first ten characters (all of a shorter text).
pub open spec fn ten(t: Seq<char>) -> Seq<char> {
    if t.len() > 10 { t.take(10) } else { t }
}

/// The open entry collects its first details.
pub open spec fn first_detail(e: Option<EntryV>) -> bool {
    match e {
        Some(x) => x.collecting_first_detail,
        None => false,
    }
}

/// The open entry collects its first transaction.
pub open spec fn first_tx(e: Option<EntryV>) -> bool {
    match e {
        Some(x) => x.collecting_first_tx,
        None => false,
    }
}

/// An `NtryDtls` element opens: the first one collects details.
pub open spec fn details_start(e: EntryV) -> EntryV {
    if !e.seen_detail {
        EntryV { has_details: true, seen_detail: true, collecting_first_detail: true, ..e }
    } else {
        EntryV { has_details: true, collecting_first_detail: false, ..e }
    }
}

/// An empty `NtryDtls` element.
pub open spec fn details_empty(e: EntryV) -> EntryV {
    EntryV { has_details: true, seen_detail: true, collecting_first_detail: false, ..e }
}

/// A `TxDtls` element opens inside the first details: the first one is
/// collected.
pub open spec fn tx_start(e: EntryV) -> EntryV {
    if !e.seen_tx_details {
        EntryV { seen_tx_details: true, collecting_first_tx: true, ..e }
    } else {
        EntryV { collecting_first_tx: false, ..e }
    }
}

pub open spec fn tx_empty(e: EntryV) -> EntryV {
    EntryV { seen_tx_details: true, collecting_first_tx: false, ..e }
}

/// The currency attribute of an `Amt` element goes to the open balance,
/// else to the entry (for the entry's own amount), else to the collected
/// transaction (for its instructed amount).
#[verifier::opaque]
pub open spec fn camt_amt(st: CamtState, tag: XmlTag, n: Seq<char>) -> Result<CamtState, ErrorView> {
    let to_entry = st.entry is Some && ends(st.stack, seq!["Rpt"@, "Ntry"@]);
    let to_tx = first_tx(st.entry) && ends(
        st.stack,
        seq!["NtryDtls"@, "TxDtls"@, "AmtDtls"@, "InstdAmt"@],
    );
    if n == "Amt"@ && (st.balance is Some || to_entry || to_tx) {
        match pain_attr(tag, "Ccy"@) {
            Err(x) => Err(x),
            Ok(None) => Ok(st),
            Ok(Some(c)) => Ok(
                match (st.balance, st.entry) {
                    (Some(b), _) => CamtState { balance: Some(BalanceV { currency: Some(c), ..b }), ..st },
                    (None, Some(e)) => if to_entry {
                        CamtState { entry: Some(EntryV { currency: Some(c), ..e }), ..st }
                    } else {
                        CamtState {
                            entry: Some(EntryV { tx: TxV { instructed_amount_currency: Some(c), ..e.tx }, ..e }),
                            ..st
                        }
                    },
                    (None, None) => st,
                },
            ),
        }
    } else {
        Ok(st)
    }
}

pub open spec fn camt_start(st: CamtState, tag: XmlTag) -> Result<CamtState, ErrorView> {
    let n = local_name(tag.name@);
    let s1 = if n == "Rpt"@ {
        Ok(CamtState { report: Some(empty_report()), ..st })
    } else if st.report is Some && n == "Bal"@ {
        Ok(CamtState { balance: Some(empty_balance()), ..st })
    } else if st.report is Some && n == "Ntry"@ {
        Ok(CamtState { entry: Some(empty_entry()), ..st })
    } else if st.entry is Some && n == "NtryDtls"@ {
        Ok(CamtState { entry: Some(details_start(st.entry->0)), ..st })
    } else if n == "TxDtls"@ && first_detail(st.entry) {
        Ok(CamtState { entry: Some(tx_start(st.entry->0)), ..st })
    } else {
        camt_amt(st, tag, n)
    };
    match s1 {
        Ok(s) => Ok(CamtState { stack: s.stack.push(n), ..s }),
        Err(x) => Err(x),
    }
}

pub open spec fn camt_empty(st: CamtState, tag: XmlTag) -> Result<CamtState, ErrorView> {
    let n = local_name(tag.name@);
    if st.entry is Some && n == "NtryDtls"@ {
        Ok(CamtState { entry: Some(details_empty(st.entry->0)), ..st })
    } else if n == "TxDtls"@ && first_detail(st.entry) {
        Ok(CamtState { entry: Some(tx_empty(st.entry->0)), ..st })
    } else {
        camt_amt(st, tag, n)
    }
}

/// The path of an element inside the transaction details.
pub open spec fn txp(rest: Seq<Seq<char>>) -> Seq<Seq<char>> {
    seq!["NtryDtls"@, "TxDtls"@] + rest
}

/// An identification of a party, in any of its four places.
pub open spec fn party_id_at(st: Seq<Seq<char>>, role: Seq<char>) -> bool {
    ||| ends(st, txp(seq!["RltdPties"@, role, "Id"@, "PrvtId"@, "Othr"@, "Id"@]))
    ||| ends(st, txp(seq!["RltdPties"@, role, "Id"@, "PrvtId"@, "OthrId"@, "Id"@]))
    ||| ends(st, txp(seq!["RltdPties"@, role, "Pty"@, "Id"@, "PrvtId"@, "Othr"@, "Id"@]))
    ||| ends(st, txp(seq!["RltdPties"@, role, "Pty"@, "Id"@, "PrvtId"@, "OthrId"@, "Id"@]))
}

/// The collected transaction after a text inside it.
#[verifier::opaque]
pub open spec fn tx_text(tx: TxV, st: Seq<Seq<char>>, t: Seq<char>) -> TxV {
    if ends(st, txp(seq!["Refs"@, "Prtry"@, "Ref"@])) {
        TxV { id: Some(t), ..tx }
    } else if ends(st, txp(seq!["Refs"@, "AcctSvcrRef"@])) {
        TxV { acct_svcr_ref: Some(t), ..tx }
    } else if ends(st, txp(seq!["Refs"@, "EndToEndId"@])) {
        TxV { end_to_end_id: Some(t), ..tx }
    } else if ends(st, txp(seq!["Refs"@, "MndtId"@])) {
        TxV { mandate_id: Some(t), ..tx }
    } else if ends(st, txp(seq!["RltdPties"@, "DbtrAcct"@, "Id"@, "IBAN"@])) {
        TxV { debtor: PartyV { iban: Some(t), ..tx.debtor }, ..tx }
    } else if ends(st, txp(seq!["RltdPties"@, "CdtrAcct"@, "Id"@, "IBAN"@])) {
        TxV { creditor: PartyV { iban: Some(t), ..tx.creditor }, ..tx }
    } else if ends(st, txp(seq!["RltdPties"@, "Dbtr"@, "Nm"@])) || ends(st, txp(seq!["RltdPties"@, "Dbtr"@, "Pty"@, "Nm"@])) {
        TxV { debtor: PartyV { name: Some(t), ..tx.debtor }, ..tx }
    } else if ends(st, txp(seq!["RltdPties"@, "Cdtr"@, "Nm"@])) || ends(st, txp(seq!["RltdPties"@, "Cdtr"@, "Pty"@, "Nm"@])) {
        TxV { creditor: PartyV { name: Some(t), ..tx.creditor }, ..tx }
    } else if ends(st, txp(seq!["RltdPties"@, "UltmtDbtr"@, "Nm"@])) {
        TxV { debtor: PartyV { name2: Some(t), ..tx.debtor }, ..tx }
    } else if ends(st, txp(seq!["RltdPties"@, "UltmtCdtr"@, "Nm"@])) {
        TxV { creditor: PartyV { name2: Some(t), ..tx.creditor }, ..tx }
    } else if party_id_at(st, "Dbtr"@) {
        TxV { debtor: PartyV { creditorid: Some(t), ..tx.debtor }, ..tx }
    } else if party_id_at(st, "Cdtr"@) {
        TxV { creditor: PartyV { creditorid: Some(t), ..tx.creditor }, ..tx }
    } else if ends(st, txp(seq!["RltdAgts"@, "DbtrAgt"@, "FinInstnId"@, "BIC"@])) || ends(
        st,
        txp(seq!["RltdAgts"@, "DbtrAgt"@, "FinInstnId"@, "BICFI"@]),
    ) {
        TxV { debtor: PartyV { bic: Some(t), ..tx.debtor }, ..tx }
    } else if ends(st, txp(seq!["RltdAgts"@, "CdtrAgt"@, "FinInstnId"@, "BIC"@])) || ends(
        st,
        txp(seq!["RltdAgts"@, "CdtrAgt"@, "FinInstnId"@, "BICFI"@]),
    ) {
        TxV { creditor: PartyV { bic: Some(t), ..tx.creditor }, ..tx }
    } else if ends(st, txp(seq!["RmtInf"@, "Ustrd"@])) {
        TxV { usages: tx.usages.push(t), ..tx }
    } else if ends(st, txp(seq!["Purp"@, "Cd"@])) {
        TxV { purpose_code: Some(t), ..tx }
    } else if ends(st, txp(seq!["RtrInf"@, "Rsn"@, "Cd"@])) {
        TxV { return_reason_code: Some(t), ..tx }
    } else if ends(st, txp(seq!["RtrInf"@, "AddtlInf"@])) {
        TxV { return_additional: tx.return_additional.push(t), ..tx }
    } else if ends(st, txp(seq!["AmtDtls"@, "InstdAmt"@, "Amt"@])) {
        TxV { instructed_amount: Some(t), ..tx }
    } else if ends(st, txp(seq!["BkTxCd"@, "Prtry"@, "Cd"@])) {
        TxV { proprietary_bank_code: Some(t), ..tx }
    } else {
        tx
    }
}


fn ends_tx2(stack: &[String], a: &str, b: &str) -> (r: bool)
    ensures
        r == ends(str_views(stack@), txp(seq![a@, b@])),
{
    let v = vec!["NtryDtls", "TxDtls", a, b];
    assert(v@.map_values(|x: &str| x@) =~= txp(seq![a@, b@]));
    ends_with_path(stack, v.as_slice())
}

fn ends_tx3(stack: &[String], a: &str, b: &str, c: &str) -> (r: bool)
    ensures
        r == ends(str_views(stack@), txp(seq![a@, b@, c@])),
{
    let v = vec!["NtryDtls", "TxDtls", a, b, c];
    assert(v@.map_values(|x: &str| x@) =~= txp(seq![a@, b@, c@]));
    ends_with_path(stack, v.as_slice())
}

fn ends_tx4(stack: &[String], a: &str, b: &str, c: &str, d: &str) -> (r: bool)
    ensures
        r == ends(str_views(stack@), txp(seq![a@, b@, c@, d@])),
{
    let v = vec!["NtryDtls", "TxDtls", a, b, c, d];
    assert(v@.map_values(|x: &str| x@) =~= txp(seq![a@, b@, c@, d@]));
    ends_with_path(stack, v.as_slice())
}

fn ends_tx5(stack: &[String], a: &str, b: &str, c: &str, d: &str, e: &str) -> (r: bool)
    ensures
        r == ends(str_views(stack@), txp(seq![a@, b@, c@, d@, e@])),
{
    let v = vec!["NtryDtls", "TxDtls", a, b, c, d, e];
    assert(v@.map_values(|x: &str| x@) =~= txp(seq![a@, b@, c@, d@, e@]));
    ends_with_path(stack, v.as_slice())
}

fn ends_tx6(stack: &[String], a: &str, b: &str, c: &str, d: &str, e: &str, f: &str) -> (r: bool)
    ensures
        r == ends(str_views(stack@), txp(seq![a@, b@, c@, d@, e@, f@])),
{
    let v = vec!["NtryDtls", "TxDtls", a, b, c, d, e, f];
    assert(v@.map_values(|x: &str| x@) =~= txp(seq![a@, b@, c@, d@, e@, f@]));
    ends_with_path(stack, v.as_slice())
}

fn ends_tx7(stack: &[String], a: &str, b: &str, c: &str, d: &str, e: &str, f: &str, g: &str) -> (r: bool)
    ensures
        r == ends(str_views(stack@), txp(seq![a@, b@, c@, d@, e@, f@, g@])),
{
    let v = vec!["NtryDtls", "TxDtls", a, b, c, d, e, f, g];
    assert(v@.map_values(|x: &str| x@) =~= txp(seq![a@, b@, c@, d@, e@, f@, g@]));
    ends_with_path(stack, v.as_slice())
}

struct Party {
    iban: Option<String>,
    bic: Option<String>,
    name: Option<String>,
    name2: Option<String>,
    creditorid: Option<String>,
}

struct Tx {
    id: Option<String>,
    acct_svcr_ref: Option<String>,
    end_to_end_id: Option<String>,
    mandate_id: Option<String>,
    debtor: Party,
    creditor: Party,
    usages: Vec<String>,
    purpose_code: Option<String>,
    return_reason_code: Option<String>,
    return_additional: Vec<String>,
    instructed_amount: Option<String>,
    instructed_amount_currency: Option<String>,
    proprietary_bank_code: Option<String>,
}

spec fn party_v(p: Party) -> PartyV {
    PartyV {
        iban: opt_view(p.iban),
        bic: opt_view(p.bic),
        name: opt_view(p.name),
        name2: opt_view(p.name2),
        creditorid: opt_view(p.creditorid),
    }
}

spec fn tx_v(t: Tx) -> TxV {
    TxV {
        id: opt_view(t.id),
        acct_svcr_ref: opt_view(t.acct_svcr_ref),
        end_to_end_id: opt_view(t.end_to_end_id),
        mandate_id: opt_view(t.mandate_id),
        debtor: party_v(t.debtor),
        creditor: party_v(t.creditor),
        usages: str_views(t.usages@),
        purpose_code: opt_view(t.purpose_code),
        return_reason_code: opt_view(t.return_reason_code),
        return_additional: str_views(t.return_additional@),
        instructed_amount: opt_view(t.instructed_amount),
        instructed_amount_currency: opt_view(t.instructed_amount_currency),
        proprietary_bank_code: opt_view(t.proprietary_bank_code),
    }
}

fn party_id_exec(stack: &[String], role: &str) -> (r: bool)
    ensures
        r == party_id_at(str_views(stack@), role@),
{
    ends_tx6(stack, "RltdPties", role, "Id", "PrvtId", "Othr", "Id")
        || ends_tx6(stack, "RltdPties", role, "Id", "PrvtId", "OthrId", "Id")
        || ends_tx7(stack, "RltdPties", role, "Pty", "Id", "PrvtId", "Othr", "Id")
        || ends_tx7(stack, "RltdPties", role, "Pty", "Id", "PrvtId", "OthrId", "Id")
}

#[verifier::rlimit(60)]
fn collect_tx_text(tx: &mut Tx, stack: &[String], t: &str)
    ensures
        tx_v(*final(tx)) == tx_text(tx_v(*old(tx)), str_views(stack@), t@),
{
    proof {
        reveal(tx_text);
    }
    let ghost sv = str_views(stack@);
    if ends_tx3(stack, "Refs", "Prtry", "Ref") {
        tx.id = Some(t.to_string());
    } else if ends_tx2(stack, "Refs", "AcctSvcrRef") {
        tx.acct_svcr_ref = Some(t.to_string());
    } else if ends_tx2(stack, "Refs", "EndToEndId") {
        tx.end_to_end_id = Some(t.to_string());
    } else if ends_tx2(stack, "Refs", "MndtId") {
        tx.mandate_id = Some(t.to_string());
    } else if ends_tx4(stack, "RltdPties", "DbtrAcct", "Id", "IBAN") {
        tx.debtor.iban = Some(t.to_string());
    } else if ends_tx4(stack, "RltdPties", "CdtrAcct", "Id", "IBAN") {
        tx.creditor.iban = Some(t.to_string());
    } else if ends_tx3(stack, "RltdPties", "Dbtr", "Nm") || ends_tx4(stack, "RltdPties", "Dbtr", "Pty", "Nm") {
        tx.debtor.name = Some(t.to_string());
    } else if ends_tx3(stack, "RltdPties", "Cdtr", "Nm") || ends_tx4(stack, "RltdPties", "Cdtr", "Pty", "Nm") {
        tx.creditor.name = Some(t.to_string());
    } else if ends_tx3(stack, "RltdPties", "UltmtDbtr", "Nm") {
        tx.debtor.name2 = Some(t.to_string());
    } else if ends_tx3(stack, "RltdPties", "UltmtCdtr", "Nm") {
        tx.creditor.name2 = Some(t.to_string());
    } else if party_id_exec(stack, "Dbtr") {
        tx.debtor.creditorid = Some(t.to_string());
    } else if party_id_exec(stack, "Cdtr") {
        tx.creditor.creditorid = Some(t.to_string());
    } else if ends_tx4(stack, "RltdAgts", "DbtrAgt", "FinInstnId", "BIC") || ends_tx4(
        stack,
        "RltdAgts",
        "DbtrAgt",
        "FinInstnId",
        "BICFI",
    ) {
        tx.debtor.bic = Some(t.to_string());
    } else if ends_tx4(stack, "RltdAgts", "CdtrAgt", "FinInstnId", "BIC") || ends_tx4(
        stack,
        "RltdAgts",
        "CdtrAgt",
        "FinInstnId",
        "BICFI",
    ) {
        tx.creditor.bic = Some(t.to_string());
    } else if ends_tx2(stack, "RmtInf", "Ustrd") {
        let ghost before = tx.usages@;
        let ts = t.to_string();
        let ghost tg = ts;
        tx.usages.push(ts);
        proof {
            lemma_str_views_push(before, tg);
        }
    } else if ends_tx2(stack, "Purp", "Cd") {
        tx.purpose_code = Some(t.to_string());
    } else if ends_tx3(stack, "RtrInf", "Rsn", "Cd") {
        tx.return_reason_code = Some(t.to_string());
    } else if ends_tx2(stack, "RtrInf", "AddtlInf") {
        let ghost before = tx.return_additional@;
        let ts = t.to_string();
        let ghost tg = ts;
        tx.return_additional.push(ts);
        proof {
            lemma_str_views_push(before, tg);
        }
    } else if ends_tx3(stack, "AmtDtls", "InstdAmt", "Amt") {
        tx.instructed_amount = Some(t.to_string());
    } else if ends_tx3(stack, "BkTxCd", "Prtry", "Cd") {
        tx.proprietary_bank_code = Some(t.to_string());
    }
}


/// An entry after a text inside it; the first transaction collects too.
pub open spec fn entry_text(e: EntryV, st: Seq<Seq<char>>, t: Seq<char>) -> EntryV {
    let e1 = if ends(st, seq!["Rpt"@, "Ntry"@, "Amt"@]) {
        EntryV { amount: Some(t), ..e }
    } else if ends(st, seq!["Rpt"@, "Ntry"@, "CdtDbtInd"@]) {
        EntryV { credit_debit: Some(t), ..e }
    } else if ends(st, seq!["Rpt"@, "Ntry"@, "RvslInd"@]) {
        EntryV { reversal: eq_ignore_ascii_case(t, "true"@), ..e }
    } else if ends(st, seq!["Rpt"@, "Ntry"@, "BookgDt"@, "Dt"@]) || ends(st, seq!["Rpt"@, "Ntry"@, "BookgDt"@, "DtTm"@]) {
        EntryV { booking_date: Some(ten(t)), ..e }
    } else if ends(st, seq!["Rpt"@, "Ntry"@, "ValDt"@, "Dt"@]) || ends(st, seq!["Rpt"@, "Ntry"@, "ValDt"@, "DtTm"@]) {
        EntryV { value_date: Some(ten(t)), ..e }
    } else if ends(st, seq!["Rpt"@, "Ntry"@, "AddtlNtryInf"@]) {
        EntryV { text: Some(t), ..e }
    } else if ends(st, seq!["Rpt"@, "Ntry"@, "AcctSvcrRef"@]) {
        EntryV { customer_ref: Some(t), ..e }
    } else {
        e
    };
    if e1.collecting_first_tx {
        EntryV { tx: tx_text(e1.tx, st, t), ..e1 }
    } else {
        e1
    }
}

/// A balance after a text inside it.
pub open spec fn balance_text(b: BalanceV, st: Seq<Seq<char>>, t: Seq<char>) -> BalanceV {
    if ends(st, seq!["Bal"@, "Tp"@, "CdOrPrtry"@, "Cd"@]) {
        BalanceV { code: Some(t), ..b }
    } else if ends(st, seq!["Bal"@, "Amt"@]) {
        BalanceV { amount: Some(t), ..b }
    } else if ends(st, seq!["Bal"@, "CdtDbtInd"@]) {
        BalanceV { credit_debit: Some(t), ..b }
    } else if ends(st, seq!["Bal"@, "Dt"@, "Dt"@]) || ends(st, seq!["Bal"@, "Dt"@, "DtTm"@]) {
        BalanceV { date: Some(ten(t)), ..b }
    } else {
        b
    }
}

/// A report's account after a text inside it.
pub open spec fn report_text(r: ReportV, st: Seq<Seq<char>>, t: Seq<char>) -> ReportV {
    if ends(st, seq!["Rpt"@, "Acct"@, "Id"@, "IBAN"@]) {
        ReportV { iban: Some(t), ..r }
    } else if ends(st, seq!["Rpt"@, "Acct"@, "Ccy"@]) {
        ReportV { curr: Some(t), ..r }
    } else if ends(st, seq!["Rpt"@, "Acct"@, "Svcr"@, "FinInstnId"@, "BIC"@]) || ends(
        st,
        seq!["Rpt"@, "Acct"@, "Svcr"@, "FinInstnId"@, "BICFI"@],
    ) {
        ReportV { bic: Some(t), ..r }
    } else {
        r
    }
}

/// After a text: its trimmed content, where there is any inside a report,
/// goes to the report's account, the open entry and the open balance.
pub open spec fn camt_text(st: CamtState, raw: Seq<char>) -> CamtState {
    let t = trim(raw);
    if t.len() == 0 {
        st
    } else {
        match st.report {
            None => st,
            Some(r) => CamtState {
                report: Some(report_text(r, st.stack, t)),
                entry: match st.entry {
                    Some(e) => Some(entry_text(e, st.stack, t)),
                    None => None,
                },
                balance: match st.balance {
                    Some(b) => Some(balance_text(b, st.stack, t)),
                    None => None,
                },
                ..st
            },
        }
    }
}

/// After an end tag: a closed balance or entry joins the open report, a
/// closed report joins those read.
pub open spec fn camt_end(st: CamtState, name: Seq<char>) -> CamtState {
    let n = local_name(name);
    let s1 = if n == "TxDtls"@ {
        match st.entry {
            Some(e) => CamtState { entry: Some(EntryV { collecting_first_tx: false, ..e }), ..st },
            None => st,
        }
    } else if n == "NtryDtls"@ {
        match st.entry {
            Some(e) => CamtState { entry: Some(EntryV { collecting_first_detail: false, ..e }), ..st },
            None => st,
        }
    } else if n == "Bal"@ {
        match (st.report, st.balance) {
            (Some(r), Some(b)) => CamtState { report: Some(ReportV { balances: r.balances.push(b), ..r }), balance: None, ..st },
            _ => CamtState { balance: None, ..st },
        }
    } else if n == "Ntry"@ {
        match (st.report, st.entry) {
            (Some(r), Some(e)) => CamtState { report: Some(ReportV { entries: r.entries.push(e), ..r }), entry: None, ..st },
            _ => CamtState { entry: None, ..st },
        }
    } else if n == "Rpt"@ {
        match st.report {
            Some(r) => CamtState { reports: st.reports.push(r), report: None, ..st },
            None => st,
        }
    } else {
        st
    };
    CamtState { stack: if s1.stack.len() > 0 { s1.stack.drop_last() } else { s1.stack }, ..s1 }
}

pub open spec fn camt_step(st: CamtState, e: XmlEvent) -> Result<CamtState, ErrorView> {
    match e {
        XmlEvent::Start(tag) => camt_start(st, tag),
        XmlEvent::Empty(tag) => camt_empty(st, tag),
        XmlEvent::Text(t) => Ok(camt_text(st, t@)),
        XmlEvent::End(n) => Ok(camt_end(st, n@)),
        _ => Ok(st),
    }
}

/// The reports read from events, from state `st`: those complete at the
/// end of the document, or the first error.
pub open spec fn camt_fold(events: Seq<XmlEvent>, st: CamtState) -> Result<Seq<ReportV>, ErrorView>
    decreases events.len(),
{
    if events.len() == 0 {
        Ok(st.reports)
    } else {
        match events[0] {
            XmlEvent::Eof => Ok(st.reports),
            XmlEvent::Error(m) => Err(read_error("failed to parse CAMT document"@, m@)),
            _ => match camt_step(st, events[0]) {
                Err(x) => Err(x),
                Ok(s2) => camt_fold(events.drop_first(), s2),
            },
        }
    }
}

struct Entry {
    amount: Option<String>,
    currency: Option<String>,
    credit_debit: Option<String>,
    reversal: bool,
    booking_date: Option<String>,
    value_date: Option<String>,
    text: Option<String>,
    customer_ref: Option<String>,
    has_details: bool,
    seen_detail: bool,
    collecting_first_detail: bool,
    seen_tx_details: bool,
    collecting_first_tx: bool,
    tx: Tx,
}

struct Balance {
    code: Option<String>,
    amount: Option<String>,
    currency: Option<String>,
    credit_debit: Option<String>,
    date: Option<String>,
}

struct Report {
    iban: Option<String>,
    curr: Option<String>,
    bic: Option<String>,
    balances: Vec<Balance>,
    entries: Vec<Entry>,
}

spec fn entry_v(e: Entry) -> EntryV {
    EntryV {
        amount: opt_view(e.amount),
        currency: opt_view(e.currency),
        credit_debit: opt_view(e.credit_debit),
        reversal: e.reversal,
        booking_date: opt_view(e.booking_date),
        value_date: opt_view(e.value_date),
        text: opt_view(e.text),
        customer_ref: opt_view(e.customer_ref),
        has_details: e.has_details,
        seen_detail: e.seen_detail,
        collecting_first_detail: e.collecting_first_detail,
        seen_tx_details: e.seen_tx_details,
        collecting_first_tx: e.collecting_first_tx,
        tx: tx_v(e.tx),
    }
}

spec fn balance_v(b: Balance) -> BalanceV {
    BalanceV {
        code: opt_view(b.code),
        amount: opt_view(b.amount),
        currency: opt_view(b.currency),
        credit_debit: opt_view(b.credit_debit),
        date: opt_view(b.date),
    }
}

spec fn report_v(r: Report) -> ReportV {
    ReportV {
        iban: opt_view(r.iban),
        curr: opt_view(r.curr),
        bic: opt_view(r.bic),
        balances: r.balances@.map_values(|b: Balance| balance_v(b)),
        entries: r.entries@.map_values(|e: Entry| entry_v(e)),
    }
}

fn collect_entry_text(e: &mut Entry, stack: &[String], t: &str)
    ensures
        entry_v(*final(e)) == entry_text(entry_v(*old(e)), str_views(stack@), t@),
{
    if ends3(stack, "Rpt", "Ntry", "Amt") {
        e.amount = Some(t.to_string());
    } else if ends3(stack, "Rpt", "Ntry", "CdtDbtInd") {
        e.credit_debit = Some(t.to_string());
    } else if ends3(stack, "Rpt", "Ntry", "RvslInd") {
        e.reversal = eq_ignore_ascii_case_str(t, "true");
    } else if ends4(stack, "Rpt", "Ntry", "BookgDt", "Dt") || ends4(stack, "Rpt", "Ntry", "BookgDt", "DtTm") {
        e.booking_date = Some(first_ten(t));
    } else if ends4(stack, "Rpt", "Ntry", "ValDt", "Dt") || ends4(stack, "Rpt", "Ntry", "ValDt", "DtTm") {
        e.value_date = Some(first_ten(t));
    } else if ends3(stack, "Rpt", "Ntry", "AddtlNtryInf") {
        e.text = Some(t.to_string());
    } else if ends3(stack, "Rpt", "Ntry", "AcctSvcrRef") {
        e.customer_ref = Some(t.to_string());
    }
    if e.collecting_first_tx {
        collect_tx_text(&mut e.tx, stack, t);
    }
}

fn collect_balance_text(b: &mut Balance, stack: &[String], t: &str)
    ensures
        balance_v(*final(b)) == balance_text(balance_v(*old(b)), str_views(stack@), t@),
{
    if ends4(stack, "Bal", "Tp", "CdOrPrtry", "Cd") {
        b.code = Some(t.to_string());
    } else if ends2(stack, "Bal", "Amt") {
        b.amount = Some(t.to_string());
    } else if ends2(stack, "Bal", "CdtDbtInd") {
        b.credit_debit = Some(t.to_string());
    } else if ends3(stack, "Bal", "Dt", "Dt") || ends3(stack, "Bal", "Dt", "DtTm") {
        b.date = Some(first_ten(t));
    }
}

fn ends5(stack: &[String], a: &str, b: &str, c: &str, d: &str, e: &str) -> (r: bool)
    ensures
        r == ends(str_views(stack@), seq![a@, b@, c@, d@, e@]),
{
    let v = vec![a, b, c, d, e];
    assert(v@.map_values(|x: &str| x@) =~= seq![a@, b@, c@, d@, e@]);
    ends_with_path(stack, v.as_slice())
}

fn collect_report_text(r: &mut Report, stack: &[String], t: &str)
    ensures
        report_v(*final(r)) == report_text(report_v(*old(r)), str_views(stack@), t@),
{
    if ends4(stack, "Rpt", "Acct", "Id", "IBAN") {
        r.iban = Some(t.to_string());
    } else if ends3(stack, "Rpt", "Acct", "Ccy") {
        r.curr = Some(t.to_string());
    } else if ends5(stack, "Rpt", "Acct", "Svcr", "FinInstnId", "BIC") || ends5(
        stack,
        "Rpt",
        "Acct",
        "Svcr",
        "FinInstnId",
        "BICFI",
    ) {
        r.bic = Some(t.to_string());
    }
}


struct CamtParser {
    stack: Vec<String>,
    reports: Vec<Report>,
    report: Option<Report>,
    balance: Option<Balance>,
    entry: Option<Entry>,
}

spec fn reports_v(rs: Seq<Report>) -> Seq<ReportV> {
    rs.map_values(|r: Report| report_v(r))
}

spec fn camt_state(p: CamtParser) -> CamtState {
    CamtState {
        stack: str_views(p.stack@),
        reports: reports_v(p.reports@),
        report: match p.report {
            Some(r) => Some(report_v(r)),
            None => None,
        },
        balance: match p.balance {
            Some(b) => Some(balance_v(b)),
            None => None,
        },
        entry: match p.entry {
            Some(e) => Some(entry_v(e)),
            None => None,
        },
    }
}

fn new_party() -> (p: Party)
    ensures
        party_v(p) == no_party(),
{
    Party { iban: None, bic: None, name: None, name2: None, creditorid: None }
}

fn new_entry() -> (e: Entry)
    ensures
        entry_v(e) == empty_entry(),
{
    let tx = Tx {
        id: None,
        acct_svcr_ref: None,
        end_to_end_id: None,
        mandate_id: None,
        debtor: new_party(),
        creditor: new_party(),
        usages: Vec::new(),
        purpose_code: None,
        return_reason_code: None,
        return_additional: Vec::new(),
        instructed_amount: None,
        instructed_amount_currency: None,
        proprietary_bank_code: None,
    };
    assert(str_views(tx.usages@) =~= seq![]);
    assert(str_views(tx.return_additional@) =~= seq![]);
    Entry {
        amount: None,
        currency: None,
        credit_debit: None,
        reversal: false,
        booking_date: None,
        value_date: None,
        text: None,
        customer_ref: None,
        has_details: false,
        seen_detail: false,
        collecting_first_detail: false,
        seen_tx_details: false,
        collecting_first_tx: false,
        tx,
    }
}

fn new_report() -> (r: Report)
    ensures
        report_v(r) == empty_report(),
{
    let r = Report { iban: None, curr: Some("EUR".to_string()), bic: None, balances: Vec::new(), entries: Vec::new() };
    assert(r.balances@.map_values(|b: Balance| balance_v(b)) =~= seq![]);
    assert(r.entries@.map_values(|e: Entry| entry_v(e)) =~= seq![]);
    r
}

impl CamtParser {
    fn amt(&mut self, tag: &XmlTag, n: &str) -> (r: HbciResult<()>)
        ensures
            match camt_amt(camt_state(*old(self)), *tag, n@) {
                Ok(s) => r is Ok && camt_state(*final(self)) == s,
                Err(e) => r matches Err(x) && x@ == e,
            },
            final(self).stack == old(self).stack,
            final(self).reports == old(self).reports,
    {
        proof {
            reveal(camt_amt);
        }
        let to_entry = self.entry.is_some() && ends2(self.stack.as_slice(), "Rpt", "Ntry");
        let collecting = match &self.entry {
            Some(e) => e.collecting_first_tx,
            None => false,
        };
        let to_tx = collecting && ends4(self.stack.as_slice(), "NtryDtls", "TxDtls", "AmtDtls", "InstdAmt");
        if str_eq(n, "Amt") && (self.balance.is_some() || to_entry || to_tx) {
            match pain_tag_attr(tag, "Ccy") {
                Err(e) => {
                    return Err(e);
                },
                Ok(None) => {},
                Ok(Some(c)) => {
                    if self.balance.is_some() {
                        let mut b = self.balance.take().unwrap();
                        b.currency = Some(c);
                        self.balance = Some(b);
                    } else if self.entry.is_some() {
                        let mut e = self.entry.take().unwrap();
                        if to_entry {
                            e.currency = Some(c);
                        } else {
                            e.tx.instructed_amount_currency = Some(c);
                        }
                        self.entry = Some(e);
                    }
                },
            }
        }
        Ok(())
    }

    fn start(&mut self, tag: &XmlTag) -> (r: HbciResult<()>)
        ensures
            match camt_start(camt_state(*old(self)), *tag) {
                Ok(s) => r is Ok && camt_state(*final(self)) == s,
                Err(e) => r matches Err(x) && x@ == e,
            },
            final(self).reports == old(self).reports,
    {
        let n = local_name_of(tag.name.as_str());
        let first_detail = match &self.entry {
            Some(e) => e.collecting_first_detail,
            None => false,
        };
        if str_eq(n.as_str(), "Rpt") {
            self.report = Some(new_report());
        } else if self.report.is_some() && str_eq(n.as_str(), "Bal") {
            self.balance = Some(Balance { code: None, amount: None, currency: None, credit_debit: None, date: None });
        } else if self.report.is_some() && str_eq(n.as_str(), "Ntry") {
            self.entry = Some(new_entry());
        } else if self.entry.is_some() && str_eq(n.as_str(), "NtryDtls") {
            let mut e = self.entry.take().unwrap();
            e.has_details = true;
            if !e.seen_detail {
                e.seen_detail = true;
                e.collecting_first_detail = true;
            } else {
                e.collecting_first_detail = false;
            }
            self.entry = Some(e);
        } else if str_eq(n.as_str(), "TxDtls") && first_detail {
            let mut e = self.entry.take().unwrap();
            if !e.seen_tx_details {
                e.seen_tx_details = true;
                e.collecting_first_tx = true;
            } else {
                e.collecting_first_tx = false;
            }
            self.entry = Some(e);
        } else {
            match self.amt(tag, n.as_str()) {
                Ok(()) => {},
                Err(e) => {
                    return Err(e);
                },
            }
        }
        let ghost before = self.stack@;
        let ghost ng = n;
        self.stack.push(n);
        proof {
            lemma_str_views_push(before, ng);
        }
        Ok(())
    }

    fn empty(&mut self, tag: &XmlTag) -> (r: HbciResult<()>)
        ensures
            match camt_empty(camt_state(*old(self)), *tag) {
                Ok(s) => r is Ok && camt_state(*final(self)) == s,
                Err(e) => r matches Err(x) && x@ == e,
            },
            final(self).reports == old(self).reports,
    {
        let n = local_name_of(tag.name.as_str());
        let first_detail = match &self.entry {
            Some(e) => e.collecting_first_detail,
            None => false,
        };
        if self.entry.is_some() && str_eq(n.as_str(), "NtryDtls") {
            let mut e = self.entry.take().unwrap();
            e.has_details = true;
            e.seen_detail = true;
            e.collecting_first_detail = false;
            self.entry = Some(e);
            Ok(())
        } else if str_eq(n.as_str(), "TxDtls") && first_detail {
            let mut e = self.entry.take().unwrap();
            e.seen_tx_details = true;
            e.collecting_first_tx = false;
            self.entry = Some(e);
            Ok(())
        } else {
            self.amt(tag, n.as_str())
        }
    }

    fn text(&mut self, raw: &str)
        ensures
            camt_state(*final(self)) == camt_text(camt_state(*old(self)), raw@),
            final(self).reports == old(self).reports,
    {
        let t = trim_str(raw);
        if t.as_str().unicode_len() == 0 {
            return;
        }
        match self.report.take() {
            None => {},
            Some(mut r) => {
                collect_report_text(&mut r, self.stack.as_slice(), t.as_str());
                self.report = Some(r);
                match self.entry.take() {
                    Some(mut e) => {
                        collect_entry_text(&mut e, self.stack.as_slice(), t.as_str());
                        self.entry = Some(e);
                    },
                    None => {},
                }
                match self.balance.take() {
                    Some(mut b) => {
                        collect_balance_text(&mut b, self.stack.as_slice(), t.as_str());
                        self.balance = Some(b);
                    },
                    None => {},
                }
            },
        }
    }

    fn end(&mut self, name: &str)
        ensures
            camt_state(*final(self)) == camt_end(camt_state(*old(self)), name@),
    {
        let n = local_name_of(name);
        if str_eq(n.as_str(), "TxDtls") {
            match self.entry.take() {
                Some(mut e) => {
                    e.collecting_first_tx = false;
                    self.entry = Some(e);
                },
                None => {},
            }
        } else if str_eq(n.as_str(), "NtryDtls") {
            match self.entry.take() {
                Some(mut e) => {
                    e.collecting_first_detail = false;
                    self.entry = Some(e);
                },
                None => {},
            }
        } else if str_eq(n.as_str(), "Bal") {
            let b = self.balance.take();
            match (self.report.take(), b) {
                (Some(mut r), Some(b)) => {
                    let ghost before = r.balances@;
                    let ghost bg = b;
                    r.balances.push(b);
                    assert(r.balances@.map_values(|x: Balance| balance_v(x)) =~= before.map_values(
                        |x: Balance| balance_v(x),
                    ).push(balance_v(bg)));
                    self.report = Some(r);
                },
                (r, _) => {
                    self.report = r;
                },
            }
        } else if str_eq(n.as_str(), "Ntry") {
            let e = self.entry.take();
            match (self.report.take(), e) {
                (Some(mut r), Some(e)) => {
                    let ghost before = r.entries@;
                    let ghost eg = e;
                    r.entries.push(e);
                    assert(r.entries@.map_values(|x: Entry| entry_v(x)) =~= before.map_values(
                        |x: Entry| entry_v(x),
                    ).push(entry_v(eg)));
                    self.report = Some(r);
                },
                (r, _) => {
                    self.report = r;
                },
            }
        } else if str_eq(n.as_str(), "Rpt") {
            match self.report.take() {
                Some(r) => {
                    let ghost before = self.reports@;
                    let ghost rg = r;
                    self.reports.push(r);
                    assert(reports_v(self.reports@) =~= reports_v(before).push(report_v(rg)));
                },
                None => {},
            }
        }
        if self.stack.len() > 0 {
            let ghost before = self.stack@;
            self.stack.pop();
            assert(str_views(self.stack@) =~= str_views(before).drop_last());
        }
    }
}

/// The reports of a CAMT document from its events.
fn run_camt(events: &[XmlEvent]) -> (r: HbciResult<Vec<Report>>)
    ensures
        match camt_fold(events@, camt_initial()) {
            Ok(vs) => r matches Ok(rs) && reports_v(rs@) == vs,
            Err(e) => r matches Err(x) && x@ == e,
        },
{
    let mut p = CamtParser { stack: Vec::new(), reports: Vec::new(), report: None, balance: None, entry: None };
    assert(camt_state(p) =~= camt_initial()) by {
        assert(str_views(p.stack@) =~= seq![]);
        assert(reports_v(p.reports@) =~= seq![]);
    }
    let mut i: usize = 0;
    assert(events@.skip(0) =~= events@);
    while i < events.len()
        invariant
            i <= events@.len(),
            camt_fold(events@, camt_initial()) == camt_fold(events@.skip(i as int), camt_state(p)),
        decreases events.len() - i,
    {
        assert(events@.skip(i as int)[0] == events@[i as int]);
        assert(events@.skip(i as int).drop_first() =~= events@.skip(i + 1));
        match &events[i] {
            XmlEvent::Eof => {
                return Ok(p.reports);
            },
            XmlEvent::Error(m) => {
                return Err(HbciError::with_source(HbciErrorKind::Protocol, "failed to parse CAMT document", m.as_str()));
            },
            XmlEvent::Start(tag) => {
                match p.start(tag) {
                    Ok(()) => {},
                    Err(e) => {
                        return Err(e);
                    },
                }
            },
            XmlEvent::Empty(tag) => {
                match p.empty(tag) {
                    Ok(()) => {},
                    Err(e) => {
                        return Err(e);
                    },
                }
            },
            XmlEvent::Text(t) => {
                p.text(t.as_str());
            },
            XmlEvent::End(n) => {
                p.end(n.as_str());
            },
            XmlEvent::GeneralRef(_) => {},
            XmlEvent::Other => {},
        }
        i += 1;
    }
    Ok(p.reports)
}


// ---------------------------------------------------------------------------
// The day after a balance date
// ---------------------------------------------------------------------------

/// The value fits `i32`.
pub open spec fn fits32(x: int) -> bool {
    i32::MIN <= x <= i32::MAX
}

/// Division rounding toward zero, as `/` on integers.
pub open spec fn tdiv(a: int, b: int) -> int {
    if a >= 0 { a / b } else { -((-a) / b) }
}

/// A `u32` taken `as i32`.
pub open spec fn wrap32(x: int) -> int {
    if x > i32::MAX { x - 0x1_0000_0000 } else { x }
}

/// Days since 1970-01-01 of a year, month and day (the civil calendar
/// formula in `i32`); `None` where a step leaves `i32`.
#[verifier::opaque]
pub open spec fn days_of(year: int, month: int, day: int) -> Option<int> {
    let y = year - (if month <= 2 { 1int } else { 0int });
    let t = if y >= 0 { y } else { y - 399 };
    let era = tdiv(t, 400);
    let yoe = y - era * 400;
    let m = wrap32(month);
    let d = wrap32(day);
    let s = m + (if m > 2 { -3int } else { 9int });
    let p = 153 * s;
    let q = tdiv(p + 2, 5);
    let doy = q + d - 1;
    let a = yoe * 365;
    let b = a + tdiv(yoe, 4);
    let c = b - tdiv(yoe, 100);
    let doe = c + doy;
    let e = era * 146097;
    let days = e + doe - 719468;
    if fits32(y) && fits32(t) && fits32(era * 400) && fits32(yoe) && fits32(s) && fits32(p) && fits32(p + 2)
        && fits32(q + d) && fits32(doy) && fits32(a) && fits32(b) && fits32(c) && fits32(doe) && fits32(e)
        && fits32(e + doe) && fits32(days) {
        Some(days)
    } else {
        None
    }
}

/// The year, month and day of a day number; `None` where a step leaves
/// `i32`.
#[verifier::opaque]
pub open spec fn civil_of(days: int) -> Option<(int, int, int)> {
    let z = days + 719468;
    let t = if z >= 0 { z } else { z - 146096 };
    let era = tdiv(t, 146097);
    let doe = z - era * 146097;
    let yoe = tdiv(doe - tdiv(doe, 1460) + tdiv(doe, 36524) - tdiv(doe, 146096), 365);
    let year = yoe + era * 400;
    let doy = doe - (365 * yoe + tdiv(yoe, 4) - tdiv(yoe, 100));
    let mp = tdiv(5 * doy + 2, 153);
    let day = doy - tdiv(153 * mp + 2, 5) + 1;
    let month = mp + (if mp < 10 { 3int } else { -9int });
    let y2 = year + (if month <= 2 { 1int } else { 0int });
    if fits32(z) && fits32(t) && fits32(era * 146097) && fits32(doe) && fits32(doe - tdiv(doe, 1460))
        && fits32(doe - tdiv(doe, 1460) + tdiv(doe, 36524))
        && fits32(doe - tdiv(doe, 1460) + tdiv(doe, 36524) - tdiv(doe, 146096)) && fits32(era * 400)
        && fits32(year) && fits32(365 * yoe) && fits32(365 * yoe + tdiv(yoe, 4))
        && fits32(365 * yoe + tdiv(yoe, 4) - tdiv(yoe, 100)) && fits32(doy) && fits32(5 * doy)
        && fits32(5 * doy + 2) && fits32(153 * mp) && fits32(153 * mp + 2) && fits32(doy - tdiv(153 * mp + 2, 5))
        && fits32(day) && fits32(month) && fits32(y2) {
        Some((y2, month, day))
    } else {
        None
    }
}

/// `n` zero-padded to width `w` after its sign (`{:0w}`).
pub open spec fn padded(n: int, w: nat) -> Seq<char> {
    let digits = decimal(if n < 0 { (-n) as nat } else { n as nat });
    let sign: Seq<char> = if n < 0 { seq!['-'] } else { seq![] };
    let room: int = w - sign.len() - digits.len();
    sign + Seq::new(if room > 0 { room as nat } else { 0 }, |i: int| '0') + digits
}

/// What the day after a date `YYYY-MM-DD` gives.
pub ghost enum NextDay {
    Day(Seq<char>),
    /// The text is not such a date.
    NoDate,
    /// A step of the calendar arithmetic leaves `i32`.
    Overflow,
}

pub open spec fn next_day(date: Seq<char>) -> NextDay {
    let ps = split_char(date, '-');
    if ps.len() < 3 {
        NextDay::NoDate
    } else {
        match (parse_int(ps[0], i32::MIN as int, i32::MAX as int), parse_int(ps[1], 0, u32::MAX as int), parse_int(ps[2], 0, u32::MAX as int)) {
            (Ok(y), Ok(m), Ok(d)) => match days_of(y, m, d) {
                None => NextDay::Overflow,
                Some(n) => if !fits32(n + 1) {
                    NextDay::Overflow
                } else {
                    match civil_of(n + 1) {
                        None => NextDay::Overflow,
                        Some((yy, mm, dd)) => NextDay::Day(padded(yy, 4) + seq!['-'] + padded(mm, 2) + seq!['-'] + padded(dd, 2)),
                    }
                },
            },
            _ => NextDay::NoDate,
        }
    }
}

enum NextDayText {
    Day(String),
    NoDate,
    Overflow,
}

fn t32(x: i64) -> (r: bool)
    ensures
        r == fits32(x as int),
{
    i32::MIN as i64 <= x && x <= i32::MAX as i64
}

fn tdiv_exec(a: i64, b: i64) -> (r: i64)
    requires
        b > 0,
        fits32(a as int),
    ensures
        r == tdiv(a as int, b as int),
{
    a / b
}

#[verifier::rlimit(80)]
fn days_of_exec(year: i64, month: i64, day: i64) -> (r: Option<i64>)
    requires
        fits32(year as int),
        0 <= month <= u32::MAX,
        0 <= day <= u32::MAX,
    ensures
        match days_of(year as int, month as int, day as int) {
            Some(v) => r matches Some(x) && x == v,
            None => r is None,
        },
        r matches Some(x) ==> fits32(x as int),
{
    proof {
        reveal(days_of);
    }
    let y: i64 = year - (if month <= 2 { 1 } else { 0 });
    if !t32(y) {
        return None;
    }
    let t: i64 = if y >= 0 { y } else { y - 399 };
    if !t32(t) {
        return None;
    }
    let era: i64 = tdiv_exec(t, 400);
    let era400: i64 = era * 400;
    if !t32(era400) {
        return None;
    }
    let yoe: i64 = y - era400;
    if !t32(yoe) {
        return None;
    }
    let m: i64 = if month > i32::MAX as i64 { month - 0x1_0000_0000 } else { month };
    let d: i64 = if day > i32::MAX as i64 { day - 0x1_0000_0000 } else { day };
    let sh: i64 = m + (if m > 2 { -3 } else { 9 });
    if !t32(sh) {
        return None;
    }
    let p: i64 = 153 * sh;
    if !t32(p) || !t32(p + 2) {
        return None;
    }
    let q: i64 = tdiv_exec(p + 2, 5);
    if !t32(q + d) || !t32(q + d - 1) {
        return None;
    }
    let doy: i64 = q + d - 1;
    let a: i64 = yoe * 365;
    if !t32(a) {
        return None;
    }
    let b: i64 = a + tdiv_exec(yoe, 4);
    if !t32(b) {
        return None;
    }
    let c: i64 = b - tdiv_exec(yoe, 100);
    if !t32(c) || !t32(c + doy) {
        return None;
    }
    let doe: i64 = c + doy;
    let e: i64 = era * 146097;
    if !t32(e) || !t32(e + doe) || !t32(e + doe - 719468) {
        return None;
    }
    Some(e + doe - 719468)
}

#[verifier::rlimit(80)]
fn civil_of_exec(days: i64) -> (r: Option<(i64, i64, i64)>)
    requires
        fits32(days as int),
    ensures
        match civil_of(days as int) {
            Some((y, m, d)) => r matches Some((a, b, c)) && a == y && b == m && c == d,
            None => r is None,
        },
        r matches Some((a, b, c)) ==> fits32(a as int) && fits32(b as int) && fits32(c as int),
{
    proof {
        reveal(civil_of);
    }
    let z: i64 = days + 719468;
    if !t32(z) {
        return None;
    }
    let t: i64 = if z >= 0 { z } else { z - 146096 };
    if !t32(t) {
        return None;
    }
    let era: i64 = tdiv_exec(t, 146097);
    if !t32(era * 146097) || !t32(z - era * 146097) {
        return None;
    }
    let doe: i64 = z - era * 146097;
    let a1: i64 = doe - tdiv_exec(doe, 1460);
    if !t32(a1) {
        return None;
    }
    let a2: i64 = a1 + tdiv_exec(doe, 36524);
    if !t32(a2) {
        return None;
    }
    let a3: i64 = a2 - tdiv_exec(doe, 146096);
    if !t32(a3) {
        return None;
    }
    let yoe: i64 = tdiv_exec(a3, 365);
    if !t32(era * 400) || !t32(yoe + era * 400) {
        return None;
    }
    let year: i64 = yoe + era * 400;
    if !t32(365 * yoe) {
        return None;
    }
    let b1: i64 = 365 * yoe + tdiv_exec(yoe, 4);
    if !t32(b1) {
        return None;
    }
    let b2: i64 = b1 - tdiv_exec(yoe, 100);
    if !t32(b2) || !t32(doe - b2) {
        return None;
    }
    let doy: i64 = doe - b2;
    if !t32(5 * doy) || !t32(5 * doy + 2) {
        return None;
    }
    let mp: i64 = tdiv_exec(5 * doy + 2, 153);
    if !t32(153 * mp) || !t32(153 * mp + 2) {
        return None;
    }
    let c1: i64 = doy - tdiv_exec(153 * mp + 2, 5);
    if !t32(c1) || !t32(c1 + 1) {
        return None;
    }
    let day: i64 = c1 + 1;
    let month: i64 = mp + (if mp < 10 { 3 } else { -9 });
    if !t32(month) {
        return None;
    }
    let y2: i64 = year + (if month <= 2 { 1 } else { 0 });
    if !t32(y2) {
        return None;
    }
    Some((y2, month, day))
}

pub(crate) fn push_padded(s: &mut String, n: i64, w: usize)
    requires
        fits32(n as int),
        w <= 4,
    ensures
        final(s)@ == old(s)@ + padded(n as int, w as nat),
{
    let ghost start = s@;
    let u: u64 = if n < 0 { (-n) as u64 } else { n as u64 };
    let digits = crate::text::decimal_string(u);
    let sign_len: usize = if n < 0 { 1 } else { 0 };
    if n < 0 {
        push_char(s, '-');
    }
    let ghost mid = s@;
    let dl = digits.as_str().unicode_len();
    let mut k: usize = 0;
    let room: usize = if dl >= w {
        0
    } else if w - dl > sign_len {
        w - dl - sign_len
    } else {
        0
    };
    while k < room
        invariant
            k <= room,
            s@ == mid + Seq::new(k as nat, |i: int| '0'),
        decreases room - k,
    {
        push_char(s, '0');
        k += 1;
        assert(s@ =~= mid + Seq::new(k as nat, |i: int| '0'));
    }
    append(s, digits.as_str());
    assert(s@ =~= start + padded(n as int, w as nat));
}

fn next_day_exec(date: &str) -> (r: NextDayText)
    ensures
        match next_day(date@) {
            NextDay::Day(d) => r matches NextDayText::Day(x) && x@ == d,
            NextDay::NoDate => r is NoDate,
            NextDay::Overflow => r is Overflow,
        },
{
    let v = chars_of(date);
    let ps = split_chars(v.as_slice(), '-');
    if ps.len() < 3 {
        return NextDayText::NoDate;
    }
    let p0 = string_of(ps[0].as_slice());
    let p1 = string_of(ps[1].as_slice());
    let p2 = string_of(ps[2].as_slice());
    let y = parse_int_in(p0.as_str(), i32::MIN as i128, i32::MAX as i128);
    let m = parse_int_in(p1.as_str(), 0, u32::MAX as i128);
    let d = parse_int_in(p2.as_str(), 0, u32::MAX as i128);
    proof {
        crate::text::lemma_parse_int_range(p0@, i32::MIN as int, i32::MAX as int);
        crate::text::lemma_parse_int_range(p1@, 0, u32::MAX as int);
        crate::text::lemma_parse_int_range(p2@, 0, u32::MAX as int);
        assert(crate::text::views(ps@)[0] == split_char(date@, '-')[0]);
        assert(crate::text::views(ps@)[1] == split_char(date@, '-')[1]);
        assert(crate::text::views(ps@)[2] == split_char(date@, '-')[2]);
        assert(p0@ == split_char(date@, '-')[0]);
        assert(p1@ == split_char(date@, '-')[1]);
        assert(p2@ == split_char(date@, '-')[2]);
    }
    match (y, m, d) {
        (Ok(y), Ok(m), Ok(d)) => {
            match days_of_exec(y as i64, m as i64, d as i64) {
                None => NextDayText::Overflow,
                Some(n) => {
                    if !t32(n + 1) {
                        return NextDayText::Overflow;
                    }
                    match civil_of_exec(n + 1) {
                        None => NextDayText::Overflow,
                        Some((yy, mm, dd)) => {
                            let mut s = String::new();
                            push_padded(&mut s, yy, 4);
                            push_char(&mut s, '-');
                            push_padded(&mut s, mm, 2);
                            push_char(&mut s, '-');
                            push_padded(&mut s, dd, 2);
                            assert(s@ =~= padded(yy as int, 4) + seq!['-'] + padded(mm as int, 2) + seq!['-'] + padded(dd as int, 2));
                            NextDayText::Day(s)
                        },
                    }
                },
            }
        },
        _ => NextDayText::NoDate,
    }
}


// ---------------------------------------------------------------------------
// Days of an account statement from the reports
// ---------------------------------------------------------------------------

/// A balance: an amount at a date.
pub ghost struct SaldoV {
    pub value: ValueView,
    pub date: Option<Seq<char>>,
}

/// A transaction line of a statement day, as plain values.
pub ghost struct LineV {
    pub valuta: Option<Seq<char>>,
    pub bdate: Option<Seq<char>>,
    pub value: ValueView,
    pub is_storno: bool,
    pub saldo: SaldoV,
    pub customerref: Option<Seq<char>>,
    pub text: Option<Seq<char>>,
    pub other: PartyV,
    pub usage: Seq<Seq<char>>,
    pub id: Option<Seq<char>>,
    pub end_to_end_id: Option<Seq<char>>,
    pub mandate_id: Option<Seq<char>>,
    pub purposecode: Option<Seq<char>>,
    pub gvcode: Option<Seq<char>>,
    pub primanota: Option<Seq<char>>,
    pub addkey: Option<Seq<char>>,
    pub orig_value: Option<ValueView>,
    pub additional: Option<Seq<char>>,
}

/// A statement day, as plain values: the account's IBAN, currency and
/// BIC, the balances and the lines.
pub ghost struct TagV {
    pub iban: Option<Seq<char>>,
    pub curr: Option<Seq<char>>,
    pub bic: Option<Seq<char>>,
    pub start: Option<SaldoV>,
    pub end: Option<SaldoV>,
    pub lines: Seq<LineV>,
}

pub open spec fn or_zero(a: Option<Seq<char>>) -> Seq<char> {
    match a {
        Some(x) => x,
        None => "0"@,
    }
}

/// An amount normalized to two decimals, with a `-` for a debit
/// (`DBIT`) where it is not zero and has no sign yet.
pub open spec fn signed_amount(a: Seq<char>, cd: Option<Seq<char>>) -> Seq<char> {
    let n = normalized_amount(a);
    if cd == Some("DBIT"@) && n != "0.00"@ && !(n.len() > 0 && n[0] == '-') {
        seq!['-'] + n
    } else {
        n
    }
}

/// The cents of an amount text, 0 where it is not one.
pub open spec fn cents_or_zero(a: Seq<char>) -> int {
    match sepa_cents(a) {
        Some(c) => c,
        None => 0,
    }
}

pub open spec fn fits64(x: int) -> bool {
    i64::MIN <= x <= i64::MAX
}

pub open spec fn balance_saldo(b: BalanceV, date: Option<Seq<char>>) -> SaldoV {
    SaldoV { value: ValueView { value: signed_amount(or_zero(b.amount), b.credit_debit), curr: b.currency }, date }
}

/// The opening balance from a `PRCD`, `ITBD` or `OPBD` balance (a `PRCD`
/// balance closed the day before: its date moves one day on); `None` where
/// the amount or the date arithmetic overflows.
pub open spec fn start_saldo(b: BalanceV) -> Option<Option<SaldoV>> {
    match b.code {
        None => Some(None),
        Some(c) => if c == "PRCD"@ || c == "ITBD"@ || c == "OPBD"@ {
            if !sepa_cents_fit(or_zero(b.amount)) {
                None
            } else if c == "PRCD"@ {
                match b.date {
                    None => Some(Some(balance_saldo(b, None))),
                    Some(d) => match next_day(d) {
                        NextDay::Overflow => None,
                        NextDay::NoDate => Some(Some(balance_saldo(b, None))),
                        NextDay::Day(x) => Some(Some(balance_saldo(b, Some(x)))),
                    },
                }
            } else {
                Some(Some(balance_saldo(b, b.date)))
            }
        } else {
            Some(None)
        },
    }
}

/// The closing balance from a `CLBD` or `ITBD` balance.
pub open spec fn end_saldo(b: BalanceV) -> Option<Option<SaldoV>> {
    match b.code {
        None => Some(None),
        Some(c) => if c == "CLBD"@ || c == "ITBD"@ {
            if !sepa_cents_fit(or_zero(b.amount)) {
                None
            } else {
                Some(Some(balance_saldo(b, b.date)))
            }
        } else {
            Some(None)
        },
    }
}

/// The parts of a text split at `+`, without empty parts at the end.
pub open spec fn trim_empty_tail(ps: Seq<Seq<char>>) -> Seq<Seq<char>>
    decreases ps.len(),
{
    if ps.len() > 0 && ps.last().len() == 0 {
        trim_empty_tail(ps.drop_last())
    } else {
        ps
    }
}

/// The business code, primanota and additional key of a proprietary
/// bank transaction code `a+b+c+d`.
pub open spec fn bank_code_parts(code: Option<Seq<char>>) -> Option<Seq<Seq<char>>> {
    match code {
        Some(c) => {
            let ps = trim_empty_tail(split_char(c, '+'));
            if ps.len() == 4 { Some(ps) } else { None }
        },
        None => None,
    }
}

/// The line of an entry, with the balance after it; `Some(None)` for an
/// entry whose details hold no transaction, `None` where an amount or the
/// balance overflows.
#[verifier::opaque]
pub open spec fn entry_line(e: EntryV, saldo: int, saldo_curr: Option<Seq<char>>) -> Option<Option<LineV>> {
    let amount = or_zero(e.amount);
    let v = signed_amount(amount, e.credit_debit);
    let next = saldo + cents_or_zero(v);
    let curr = match e.currency {
        Some(c) => Some(c),
        None => saldo_curr,
    };
    let bdate = match e.booking_date {
        Some(b) => Some(b),
        None => e.value_date,
    };
    let valuta = match e.value_date {
        Some(x) => Some(x),
        None => bdate,
    };
    let base = LineV {
        valuta,
        bdate,
        value: ValueView { value: v, curr },
        is_storno: e.reversal,
        saldo: SaldoV { value: ValueView { value: cents_text(next), curr }, date: bdate },
        customerref: e.customer_ref,
        text: e.text,
        other: no_party(),
        usage: seq![],
        id: None,
        end_to_end_id: None,
        mandate_id: None,
        purposecode: None,
        gvcode: None,
        primanota: None,
        addkey: None,
        orig_value: None,
        additional: None,
    };
    let tx = e.tx;
    let is_return = match tx.return_reason_code {
        Some(c) => c.len() > 0,
        None => false,
    };
    let use_debtor = if is_return { e.credit_debit != Some("CRDT"@) } else { e.credit_debit == Some("CRDT"@) };
    let orig_fits = !is_return || match tx.instructed_amount {
        Some(a) => sepa_cents_fit(a),
        None => true,
    };
    if e.has_details && !e.seen_tx_details {
        Some(None)
    } else if !sepa_cents_fit(amount) || !sepa_cents_fit(v) || !(i64::MIN < next <= i64::MAX) {
        None
    } else if !e.has_details {
        Some(Some(match e.text {
            Some(t) => LineV { usage: seq![t], ..base },
            None => base,
        }))
    } else if !orig_fits {
        None
    } else {
        let codes = bank_code_parts(tx.proprietary_bank_code);
        Some(Some(LineV {
            id: match tx.id {
                Some(i) => Some(i),
                None => match e.customer_ref {
                    Some(c) => Some(c),
                    None => tx.acct_svcr_ref,
                },
            },
            end_to_end_id: tx.end_to_end_id,
            mandate_id: tx.mandate_id,
            other: if use_debtor { tx.debtor } else { tx.creditor },
            usage: tx.usages,
            gvcode: match codes { Some(ps) => Some(ps[1]), None => None },
            primanota: match codes { Some(ps) => Some(ps[2]), None => None },
            addkey: match codes { Some(ps) => Some(ps[3]), None => None },
            purposecode: tx.purpose_code,
            orig_value: if is_return {
                match tx.instructed_amount {
                    Some(a) => Some(ValueView { value: normalized_amount(a), curr: tx.instructed_amount_currency }),
                    None => None,
                }
            } else {
                None
            },
            additional: if is_return && tx.return_additional.len() > 0 {
                Some(join(tx.return_additional, seq![',']))
            } else {
                None
            },
            ..base
        }))
    }
}

/// The lines of the entries, each balance after the one before; `None`
/// where something overflows.
pub open spec fn lines_fold(es: Seq<EntryV>, saldo: int, curr: Option<Seq<char>>) -> Option<Seq<LineV>>
    decreases es.len(),
{
    if es.len() == 0 {
        Some(seq![])
    } else {
        match entry_line(es[0], saldo, curr) {
            None => None,
            Some(None) => lines_fold(es.drop_first(), saldo, curr),
            Some(Some(l)) => if !sepa_cents_fit(l.saldo.value.value) {
                None
            } else {
                let s2 = match sepa_cents(l.saldo.value.value) {
                    Some(c) => c,
                    None => saldo,
                };
                match lines_fold(es.drop_first(), s2, curr) {
                    None => None,
                    Some(ls) => Some(seq![l] + ls),
                }
            },
        }
    }
}

/// The balances of the lines worked back from the closing balance `e`,
/// from the last line to the first.
pub open spec fn from_end(ls: Seq<LineV>, e: int) -> Option<Seq<LineV>>
    decreases ls.len(),
{
    if ls.len() == 0 {
        Some(ls)
    } else {
        let l = ls.last();
        let e2 = e - cents_or_zero(l.value.value);
        if e == i64::MIN || !sepa_cents_fit(l.value.value) || !fits64(e2) {
            None
        } else {
            match from_end(ls.drop_last(), e2) {
                None => None,
                Some(r) => Some(r.push(LineV { saldo: SaldoV { value: ValueView { value: cents_text(e), ..l.saldo.value }, ..l.saldo }, ..l })),
            }
        }
    }
}

/// Where the opening balance has no date and the closing one has, the
/// lines' balances are worked back from the closing balance.
pub open spec fn corrected_lines(start: Option<SaldoV>, end: Option<SaldoV>, ls: Seq<LineV>) -> Option<Seq<LineV>> {
    let missing_start_date = match start {
        Some(s) => s.date is None,
        None => true,
    };
    match end {
        Some(x) => if x.date is Some {
            if !sepa_cents_fit(x.value.value) {
                None
            } else {
                match sepa_cents(x.value.value) {
                    None => Some(ls),
                    Some(c) => if missing_start_date { from_end(ls, c) } else { Some(ls) },
                }
            }
        } else {
            Some(ls)
        },
        None => Some(ls),
    }
}

/// The statement day of a report: its account, the opening balance from
/// its first balance, the closing one from its second, and a line for each
/// entry with the running balance from the opening one; `None` where an
/// amount, a balance or a date overflows.
pub open spec fn report_tag(r: ReportV) -> Option<TagV> {
    let start = if r.balances.len() > 0 { start_saldo(r.balances[0]) } else { Some(None) };
    let end = if r.balances.len() > 1 { end_saldo(r.balances[1]) } else { Some(None) };
    match (start, end) {
        (Some(st), Some(en)) => {
            let fits = match st {
                Some(x) => sepa_cents_fit(x.value.value),
                None => true,
            };
            let saldo0 = match st {
                Some(x) => cents_or_zero(x.value.value),
                None => 0,
            };
            let curr = match st {
                Some(x) => match x.value.curr {
                    Some(c) => Some(c),
                    None => r.curr,
                },
                None => r.curr,
            };
            if !fits {
                None
            } else {
                match lines_fold(r.entries, saldo0, curr) {
                    None => None,
                    Some(ls) => match corrected_lines(st, en, ls) {
                        None => None,
                        Some(ls2) => Some(TagV { iban: r.iban, curr: r.curr, bic: r.bic, start: st, end: en, lines: ls2 }),
                    },
                }
            }
        },
        _ => None,
    }
}

pub open spec fn report_tags(rs: Seq<ReportV>) -> Option<Seq<TagV>>
    decreases rs.len(),
{
    if rs.len() == 0 {
        Some(seq![])
    } else {
        match (report_tag(rs[0]), report_tags(rs.drop_first())) {
            (Some(t), Some(ts)) => Some(seq![t] + ts),
            _ => None,
        }
    }
}

/// The statement days of a CAMT document from its events: the first error
/// of reading, or a day for each report; `None` where an amount, a balance
/// or a date overflows.
pub open spec fn camt_tags(events: Seq<XmlEvent>) -> Option<Result<Seq<TagV>, ErrorView>> {
    match camt_fold(events, camt_initial()) {
        Err(e) => Some(Err(e)),
        Ok(rs) => match report_tags(rs) {
            None => None,
            Some(ts) => Some(Ok(ts)),
        },
    }
}

pub open spec fn value_is(x: Value, v: ValueView) -> bool {
    x.value@ == v.value && opt_view(x.curr) == v.curr
}

pub open spec fn saldo_is(s: Saldo, v: SaldoV) -> bool {
    value_is(s.value, v.value) && opt_view(s.date) == v.date && s.time is None
}

pub open spec fn opt_saldo_is(s: Option<Saldo>, v: Option<SaldoV>) -> bool {
    match (s, v) {
        (Some(a), Some(b)) => saldo_is(a, b),
        (None, None) => true,
        _ => false,
    }
}

/// An account with the data of a party, otherwise empty (in euros).
pub open spec fn party_is(k: Konto, p: PartyV) -> bool {
    &&& opt_view(k.iban) == p.iban && opt_view(k.bic) == p.bic && opt_view(k.name) == p.name
    &&& opt_view(k.name2) == p.name2 && opt_view(k.creditorid) == p.creditorid
    &&& k.country is None && k.blz is None && k.number is None && k.subnumber is None
    &&& k.customer_id is None && k.acctype is None && k.account_type is None && k.limit is None
    &&& k.allowed_gvs@.len() == 0 && opt_view(k.curr) == Some("EUR"@)
}

pub open spec fn line_is(l: GvrKUmsLine, v: LineV) -> bool {
    &&& opt_view(l.valuta) == v.valuta && opt_view(l.bdate) == v.bdate
    &&& l.value matches Some(x) && value_is(x, v.value)
    &&& l.is_storno == v.is_storno
    &&& l.saldo matches Some(s) && saldo_is(s, v.saldo)
    &&& opt_view(l.customerref) == v.customerref && l.instref is None
    &&& match (l.orig_value, v.orig_value) {
        (Some(a), Some(b)) => value_is(a, b),
        (None, None) => true,
        _ => false,
    }
    &&& l.charge_value is None
    &&& opt_view(l.gvcode) == v.gvcode && opt_view(l.additional) == v.additional
    &&& opt_view(l.text) == v.text && opt_view(l.primanota) == v.primanota
    &&& str_views(l.usage@) == v.usage
    &&& l.other matches Some(k) && party_is(k, v.other)
    &&& opt_view(l.addkey) == v.addkey && l.is_sepa && l.is_camt
    &&& opt_view(l.id) == v.id && opt_view(l.end_to_end_id) == v.end_to_end_id
    &&& opt_view(l.purposecode) == v.purposecode && opt_view(l.mandate_id) == v.mandate_id
}

/// A statement day is the one described: the account with IBAN, currency
/// and BIC (otherwise empty), balances of type `F`, and the lines.
#[verifier::opaque]
pub open spec fn tag_is(t: GvrKUmsBTag, v: TagV) -> bool {
    &&& opt_view(t.my.iban) == v.iban && opt_view(t.my.curr) == v.curr && opt_view(t.my.bic) == v.bic
    &&& t.my.name is None && t.my.name2 is None && t.my.creditorid is None
    &&& t.my.country is None && t.my.blz is None && t.my.number is None && t.my.subnumber is None
    &&& t.my.customer_id is None && t.my.acctype is None && t.my.account_type is None && t.my.limit is None
    &&& t.my.allowed_gvs@.len() == 0
    &&& t.counter is None && t.start_type == 'F' && t.end_type == 'F'
    &&& opt_saldo_is(t.start, v.start) && opt_saldo_is(t.end, v.end)
    &&& t.lines@.len() == v.lines.len()
    &&& forall|i: int| 0 <= i < v.lines.len() ==> line_is(#[trigger] t.lines@[i], v.lines[i])
}

pub open spec fn tags_are(ts: Seq<GvrKUmsBTag>, vs: Seq<TagV>) -> bool {
    ts.len() == vs.len() && forall|i: int| 0 <= i < vs.len() ==> tag_is(#[trigger] ts[i], vs[i])
}


pub open spec fn lines_are(ls: Seq<GvrKUmsLine>, vs: Seq<LineV>) -> bool {
    ls.len() == vs.len() && forall|i: int| 0 <= i < vs.len() ==> line_is(#[trigger] ls[i], vs[i])
}

spec fn line_of(o: Option<Option<LineV>>) -> LineV {
    match o {
        Some(Some(v)) => v,
        _ => vstd::pervasive::arbitrary(),
    }
}

fn opt_clone(o: &Option<String>) -> (r: Option<String>)
    ensures
        opt_view(r) == opt_view(*o),
{
    match o {
        Some(s) => Some(s.clone()),
        None => None,
    }
}

fn strings_clone(v: &Vec<String>) -> (r: Vec<String>)
    ensures
        str_views(r@) == str_views(v@),
{
    let mut r: Vec<String> = Vec::new();
    let mut i: usize = 0;
    while i < v.len()
        invariant
            i <= v@.len(),
            str_views(r@) == str_views(v@.take(i as int)),
        decreases v.len() - i,
    {
        let ghost before = r@;
        let x = v[i].clone();
        let ghost xg = x;
        r.push(x);
        proof {
            lemma_str_views_push(before, xg);
            assert(v@.take(i + 1) =~= v@.take(i as int).push(v@[i as int]));
            lemma_str_views_push(v@.take(i as int), v@[i as int]);
        }
        i += 1;
    }
    assert(v@.take(v@.len() as int) =~= v@);
    r
}

/// The texts joined with commas.
fn join_commas(parts: &Vec<String>) -> (r: String)
    ensures
        r@ == join(str_views(parts@), seq![',']),
{
    let mut result = String::new();
    let mut i: usize = 0;
    while i < parts.len()
        invariant
            i <= parts@.len(),
            result@ == join(str_views(parts@.take(i as int)), seq![',']),
        decreases parts.len() - i,
    {
        if i > 0 {
            push_char(&mut result, ',');
        }
        append(&mut result, parts[i].as_str());
        proof {
            let ps = str_views(parts@.take(i + 1));
            assert(ps.drop_last() =~= str_views(parts@.take(i as int)));
            assert(ps.last() == parts@[i as int]@);
            assert(result@ =~= join(ps, seq![',']));
        }
        i += 1;
    }
    assert(parts@.take(parts@.len() as int) =~= parts@);
    result
}

fn signed_amount_exec(a: &str, cd: &Option<String>) -> (r: String)
    requires
        sepa_cents_fit(a@),
    ensures
        r@ == signed_amount(a@, opt_view(*cd)),
{
    let n = normalize_decimal_amount(a);
    let dbit = match cd {
        Some(c) => str_eq(c.as_str(), "DBIT"),
        None => false,
    };
    let nv = chars_of(n.as_str());
    let neg = nv.len() > 0 && nv[0] == '-';
    if dbit && !str_eq(n.as_str(), "0.00") && !neg {
        let mut s = String::new();
        push_char(&mut s, '-');
        append(&mut s, n.as_str());
        assert(s@ =~= seq!['-'] + n@);
        s
    } else {
        n
    }
}

fn balance_saldo_exec(b: &Balance, date: Option<String>) -> (r: Saldo)
    requires
        sepa_cents_fit(or_zero(balance_v(*b).amount)),
    ensures
        saldo_is(r, balance_saldo(balance_v(*b), opt_view(date))),
{
    let a: &str = match &b.amount {
        Some(x) => x.as_str(),
        None => "0",
    };
    Saldo { value: Value { value: signed_amount_exec(a, &b.credit_debit), curr: opt_clone(&b.currency) }, date, time: None }
}

fn start_saldo_exec(b: &Balance) -> (r: Option<Option<Saldo>>)
    ensures
        match start_saldo(balance_v(*b)) {
            None => r is None,
            Some(v) => r matches Some(x) && opt_saldo_is(x, v),
        },
{
    let c = match &b.code {
        None => return Some(None),
        Some(c) => c.as_str(),
    };
    let prcd = str_eq(c, "PRCD");
    if !(prcd || str_eq(c, "ITBD") || str_eq(c, "OPBD")) {
        return Some(None);
    }
    let a: &str = match &b.amount {
        Some(x) => x.as_str(),
        None => "0",
    };
    if !amount_fits(a) {
        return None;
    }
    if prcd {
        match &b.date {
            None => Some(Some(balance_saldo_exec(b, None))),
            Some(d) => match next_day_exec(d.as_str()) {
                NextDayText::Overflow => None,
                NextDayText::NoDate => Some(Some(balance_saldo_exec(b, None))),
                NextDayText::Day(x) => Some(Some(balance_saldo_exec(b, Some(x)))),
            },
        }
    } else {
        Some(Some(balance_saldo_exec(b, opt_clone(&b.date))))
    }
}

fn end_saldo_exec(b: &Balance) -> (r: Option<Option<Saldo>>)
    ensures
        match end_saldo(balance_v(*b)) {
            None => r is None,
            Some(v) => r matches Some(x) && opt_saldo_is(x, v),
        },
{
    let c = match &b.code {
        None => return Some(None),
        Some(c) => c.as_str(),
    };
    if !(str_eq(c, "CLBD") || str_eq(c, "ITBD")) {
        return Some(None);
    }
    let a: &str = match &b.amount {
        Some(x) => x.as_str(),
        None => "0",
    };
    if !amount_fits(a) {
        return None;
    }
    Some(Some(balance_saldo_exec(b, opt_clone(&b.date))))
}

fn bank_code_exec(code: &Option<String>) -> (r: Option<(String, String, String)>)
    ensures
        match bank_code_parts(opt_view(*code)) {
            Some(ps) => r matches Some((a, b, c)) && a@ == ps[1] && b@ == ps[2] && c@ == ps[3],
            None => r is None,
        },
{
    match code {
        None => None,
        Some(c) => {
            let v = chars_of(c.as_str());
            let mut ps = split_chars(v.as_slice(), '+');
            while ps.len() > 0 && ps[ps.len() - 1].len() == 0
                invariant
                    trim_empty_tail(split_char(c@, '+')) == trim_empty_tail(crate::text::views(ps@)),
                decreases ps.len(),
            {
                let ghost before = crate::text::views(ps@);
                ps.pop();
                assert(crate::text::views(ps@) =~= before.drop_last());
            }
            assert(trim_empty_tail(crate::text::views(ps@)) == crate::text::views(ps@));
            if ps.len() == 4 {
                Some((string_of(ps[1].as_slice()), string_of(ps[2].as_slice()), string_of(ps[3].as_slice())))
            } else {
                None
            }
        },
    }
}

fn party_konto(p: &Party) -> (k: Konto)
    ensures
        party_is(k, party_v(*p)),
{
    let mut k = Konto::default();
    k.iban = opt_clone(&p.iban);
    k.bic = opt_clone(&p.bic);
    k.name = opt_clone(&p.name);
    k.name2 = opt_clone(&p.name2);
    k.creditorid = opt_clone(&p.creditorid);
    k
}

#[verifier::rlimit(80)]
fn entry_line_exec(e: &Entry, saldo: i64, saldo_curr: &Option<String>) -> (r: Option<Option<GvrKUmsLine>>)
    ensures
        match entry_line(entry_v(*e), saldo as int, opt_view(*saldo_curr)) {
            None => r is None,
            Some(None) => r matches Some(None),
            Some(Some(v)) => r matches Some(Some(l)) && line_is(l, v),
        },
{
    proof {
        reveal(entry_line);
    }
    if e.has_details && !e.seen_tx_details {
        return Some(None);
    }
    let amount: &str = match &e.amount {
        Some(a) => a.as_str(),
        None => "0",
    };
    if !amount_fits(amount) {
        return None;
    }
    let v = signed_amount_exec(amount, &e.credit_debit);
    if !amount_fits(v.as_str()) {
        return None;
    }
    let vc: i64 = match decimal_amount_to_cents(v.as_str()) {
        Some(c) => c,
        None => 0,
    };
    let next: i64 = match saldo.checked_add(vc) {
        Some(n) => n,
        None => {
            return None;
        },
    };
    if next == i64::MIN {
        return None;
    }
    let curr: Option<String> = match &e.currency {
        Some(c) => Some(c.clone()),
        None => opt_clone(saldo_curr),
    };
    let bdate: Option<String> = match &e.booking_date {
        Some(b) => Some(b.clone()),
        None => opt_clone(&e.value_date),
    };
    let valuta: Option<String> = match &e.value_date {
        Some(x) => Some(x.clone()),
        None => opt_clone(&bdate),
    };
    let tx = &e.tx;
    let is_return = match &tx.return_reason_code {
        Some(c) => c.as_str().unicode_len() > 0,
        None => false,
    };
    if e.has_details && is_return {
        match &tx.instructed_amount {
            Some(a) => if !amount_fits(a.as_str()) {
                return None;
            },
            None => {},
        }
    }
    let mut line = GvrKUmsLine {
        valuta,
        bdate: opt_clone(&bdate),
        value: Some(Value { value: v, curr: opt_clone(&curr) }),
        is_storno: e.reversal,
        saldo: Some(Saldo { value: Value { value: cents_to_decimal(next), curr }, date: bdate, time: None }),
        customerref: opt_clone(&e.customer_ref),
        instref: None,
        orig_value: None,
        charge_value: None,
        gvcode: None,
        additional: None,
        text: opt_clone(&e.text),
        primanota: None,
        usage: Vec::new(),
        other: Some(party_konto(&Party { iban: None, bic: None, name: None, name2: None, creditorid: None })),
        addkey: None,
        is_sepa: true,
        is_camt: true,
        id: None,
        end_to_end_id: None,
        purposecode: None,
        mandate_id: None,
    };
    assert(str_views(line.usage@) =~= seq![]);
    if !e.has_details {
        match &e.text {
            Some(t) => {
                line.usage.push(t.clone());
                assert(str_views(line.usage@) =~= seq![t@]);
            },
            None => {},
        }
        return Some(Some(line));
    }
    let crdt = match &e.credit_debit {
        Some(c) => str_eq(c.as_str(), "CRDT"),
        None => false,
    };
    let use_debtor = if is_return { !crdt } else { crdt };
    line.id = match &tx.id {
        Some(i) => Some(i.clone()),
        None => match &e.customer_ref {
            Some(c) => Some(c.clone()),
            None => opt_clone(&tx.acct_svcr_ref),
        },
    };
    line.end_to_end_id = opt_clone(&tx.end_to_end_id);
    line.mandate_id = opt_clone(&tx.mandate_id);
    line.other = Some(if use_debtor { party_konto(&tx.debtor) } else { party_konto(&tx.creditor) });
    line.usage = strings_clone(&tx.usages);
    match bank_code_exec(&tx.proprietary_bank_code) {
        Some((a, b, c)) => {
            line.gvcode = Some(a);
            line.primanota = Some(b);
            line.addkey = Some(c);
        },
        None => {},
    }
    line.purposecode = opt_clone(&tx.purpose_code);
    if is_return {
        match &tx.instructed_amount {
            Some(a) => {
                line.orig_value = Some(
                    Value { value: normalize_decimal_amount(a.as_str()), curr: opt_clone(&tx.instructed_amount_currency) },
                );
            },
            None => {},
        }
        if tx.return_additional.len() > 0 {
            line.additional = Some(join_commas(&tx.return_additional));
        }
    }
    Some(Some(line))
}


/// The saldo text of a line.
fn saldo_text_of(l: &GvrKUmsLine) -> (r: &str)
    requires
        l.saldo is Some,
    ensures
        r@ == l.saldo->0.value.value@,
{
    match &l.saldo {
        Some(s) => s.value.value.as_str(),
        None => "",
    }
}

fn value_text_of(l: &GvrKUmsLine) -> (r: &str)
    requires
        l.value is Some,
    ensures
        r@ == l.value->0.value@,
{
    match &l.value {
        Some(v) => v.value.as_str(),
        None => "",
    }
}

#[verifier::spinoff_prover]
#[verifier::rlimit(80)]
fn report_lines(r: &Report, saldo0: i64, curr: &Option<String>) -> (res: Option<Vec<GvrKUmsLine>>)
    ensures
        match lines_fold(report_v(*r).entries, saldo0 as int, opt_view(*curr)) {
            None => res is None,
            Some(ls) => res matches Some(v) && lines_are(v@, ls),
        },
{
    let ghost es = report_v(*r).entries;
    let ghost cv = opt_view(*curr);
    let mut out: Vec<GvrKUmsLine> = Vec::new();
    let ghost mut done: Seq<LineV> = seq![];
    let mut saldo = saldo0;
    let mut i: usize = 0;
    assert(es.skip(0) =~= es);
    proof {
        match lines_fold(es, saldo0 as int, cv) {
            Some(x) => assert(Seq::<LineV>::empty() + x =~= x),
            None => {},
        }
    }
    while i < r.entries.len()
        invariant
            es == r.entries@.map_values(|e: Entry| entry_v(e)),
            cv == opt_view(*curr),
            i <= r.entries@.len(),
            lines_are(out@, done),
            lines_fold(es, saldo0 as int, cv) == (match lines_fold(es.skip(i as int), saldo as int, cv) {
                None => None,
                Some(rest) => Some(done + rest),
            }),
        decreases r.entries.len() - i,
    {
        let ghost rest = es.skip(i as int);
        assert(rest[0] == entry_v(r.entries@[i as int]));
        assert(rest.drop_first() =~= es.skip(i + 1));
        match entry_line_exec(&r.entries[i], saldo, curr) {
            None => {
                return None;
            },
            Some(None) => {},
            Some(Some(l)) => {
                let ghost lv = line_of(entry_line(rest[0], saldo as int, cv));
                let st = saldo_text_of(&l);
                if !amount_fits(st) {
                    return None;
                }
                let s2: i64 = match decimal_amount_to_cents(st) {
                    Some(c) => c,
                    None => saldo,
                };
                let ghost before_out = out@;
                out.push(l);
                proof {
                    let d0 = done;
                    done = done.push(lv);
                    assert forall|k: int| 0 <= k < done.len() implies line_is(#[trigger] out@[k], done[k]) by {
                        if k < d0.len() {
                            assert(out@[k] == before_out[k]);
                        }
                    }
                    match lines_fold(es.skip(i + 1), s2 as int, cv) {
                        Some(x) => {
                            assert(d0 + (seq![lv] + x) =~= done + x);
                        },
                        None => {},
                    }
                }
                saldo = s2;
            },
        }
        i += 1;
    }
    proof {
        assert(es.skip(i as int) =~= Seq::<EntryV>::empty());
        assert(done + Seq::<LineV>::empty() =~= done);
    }
    Some(out)
}

/// Works the lines' balances back from the closing balance `e0`; false
/// where something overflows.
#[verifier::spinoff_prover]
#[verifier::rlimit(80)]
fn fix_from_end(lines: &mut Vec<GvrKUmsLine>, e0: i64, Ghost(ls): Ghost<Seq<LineV>>) -> (ok: bool)
    requires
        lines_are(old(lines)@, ls),
    ensures
        match from_end(ls, e0 as int) {
            None => !ok,
            Some(x) => ok && lines_are(final(lines)@, x),
        },
{
    let mut k: usize = lines.len();
    let mut e: i64 = e0;
    let ghost mut tail: Seq<LineV> = seq![];
    assert(ls.take(k as int) =~= ls);
    assert(ls + Seq::<LineV>::empty() =~= ls);
    while k > 0
        invariant
            k <= lines@.len(),
            lines@.len() == ls.len(),
            forall|j: int| 0 <= j < k ==> line_is(#[trigger] lines@[j], ls[j]),
            tail.len() == ls.len() - k,
            forall|j: int| k <= j < ls.len() ==> line_is(#[trigger] lines@[j], tail[j - k]),
            from_end(ls, e0 as int) == (match from_end(ls.take(k as int), e as int) {
                None => None,
                Some(r) => Some(r + tail),
            }),
        decreases k,
    {
        let ghost pre = ls.take(k as int);
        assert(pre.last() == ls[k - 1]);
        assert(pre.drop_last() =~= ls.take(k - 1));
        assert(line_is(lines@[k - 1], ls[k - 1]));
        if e == i64::MIN {
            return false;
        }
        let vt = value_text_of(&lines[k - 1]);
        if !amount_fits(vt) {
            return false;
        }
        let lv: i64 = match decimal_amount_to_cents(vt) {
            Some(c) => c,
            None => 0,
        };
        let e2: i64 = match e.checked_sub(lv) {
            Some(x) => x,
            None => {
                return false;
            },
        };
        let ghost before = lines@;
        let mut l = lines.remove(k - 1);
        let mut sd = l.saldo.take().unwrap();
        sd.value.value = cents_to_decimal(e);
        l.saldo = Some(sd);
        lines.insert(k - 1, l);
        proof {
            let old_l = ls[k - 1];
            let l2 = LineV { saldo: SaldoV { value: ValueView { value: cents_text(e as int), ..old_l.saldo.value }, ..old_l.saldo }, ..old_l };
            let t0 = tail;
            tail = seq![l2] + tail;
            assert(lines@[k - 1] == l);
            assert forall|j: int| 0 <= j < k - 1 implies line_is(#[trigger] lines@[j], ls[j]) by {
                assert(lines@[j] == before[j]);
            }
            assert forall|j: int| k - 1 <= j < ls.len() implies line_is(#[trigger] lines@[j], tail[j - (k - 1)]) by {
                if j > k - 1 {
                    assert(lines@[j] == before[j]);
                    assert(tail[j - (k - 1)] == t0[j - k]);
                }
            }
            match from_end(ls.take(k - 1), e2 as int) {
                Some(x) => {
                    assert(x.push(l2) + t0 =~= x + tail);
                },
                None => {},
            }
        }
        e = e2;
        k -= 1;
    }
    assert(ls.take(0) =~= Seq::<LineV>::empty());
    assert(Seq::<LineV>::empty() + tail =~= tail);
    true
}

/// The statement day of a report; `None` where something overflows.
#[verifier::spinoff_prover]
#[verifier::rlimit(80)]
fn report_tag_exec(r: &Report) -> (res: Option<GvrKUmsBTag>)
    ensures
        match report_tag(report_v(*r)) {
            None => res is None,
            Some(v) => res matches Some(t) && tag_is(t, v),
        },
{
    proof {
        reveal(tag_is);
    }
    let ghost rv = report_v(*r);
    let start: Option<Saldo> = if r.balances.len() > 0 {
        match start_saldo_exec(&r.balances[0]) {
            None => {
                return None;
            },
            Some(x) => x,
        }
    } else {
        None
    };
    let end: Option<Saldo> = if r.balances.len() > 1 {
        match end_saldo_exec(&r.balances[1]) {
            None => {
                return None;
            },
            Some(x) => x,
        }
    } else {
        None
    };
    let ghost stv = if rv.balances.len() > 0 { start_saldo(rv.balances[0])->0 } else { None };
    let ghost env = if rv.balances.len() > 1 { end_saldo(rv.balances[1])->0 } else { None };
    assert(opt_saldo_is(start, stv));
    assert(opt_saldo_is(end, env));
    let saldo0: i64 = match &start {
        Some(x) => {
            if !amount_fits(x.value.value.as_str()) {
                return None;
            }
            match decimal_amount_to_cents(x.value.value.as_str()) {
                Some(c) => c,
                None => 0,
            }
        },
        None => 0,
    };
    let curr: Option<String> = match &start {
        Some(x) => match &x.value.curr {
            Some(c) => Some(c.clone()),
            None => opt_clone(&r.curr),
        },
        None => opt_clone(&r.curr),
    };
    let mut lines = match report_lines(r, saldo0, &curr) {
        None => {
            return None;
        },
        Some(ls) => ls,
    };
    let ghost lsv = lines_fold(rv.entries, saldo0 as int, opt_view(curr))->0;
    let missing_start_date = match &start {
        Some(x) => x.date.is_none(),
        None => true,
    };
    match &end {
        Some(x) => {
            if x.date.is_some() {
                if !amount_fits(x.value.value.as_str()) {
                    return None;
                }
                match decimal_amount_to_cents(x.value.value.as_str()) {
                    None => {},
                    Some(c) => {
                        if missing_start_date {
                            if !fix_from_end(&mut lines, c, Ghost(lsv)) {
                                return None;
                            }
                        }
                    },
                }
            }
        },
        None => {},
    }
    let mut my = Konto::default();
    my.iban = opt_clone(&r.iban);
    my.curr = opt_clone(&r.curr);
    my.bic = opt_clone(&r.bic);
    Some(GvrKUmsBTag { my, counter: None, start, start_type: 'F', lines, end, end_type: 'F' })
}

#[verifier::spinoff_prover]
#[verifier::rlimit(80)]
fn report_tags_exec(rs: &Vec<Report>) -> (res: Option<Vec<GvrKUmsBTag>>)
    ensures
        match report_tags(reports_v(rs@)) {
            None => res is None,
            Some(vs) => res matches Some(ts) && tags_are(ts@, vs),
        },
{
    let ghost all = reports_v(rs@);
    let mut out: Vec<GvrKUmsBTag> = Vec::new();
    let ghost mut done: Seq<TagV> = seq![];
    let mut i: usize = 0;
    assert(all.skip(0) =~= all);
    proof {
        match report_tags(all) {
            Some(x) => assert(Seq::<TagV>::empty() + x =~= x),
            None => {},
        }
    }
    while i < rs.len()
        invariant
            all == reports_v(rs@),
            i <= rs@.len(),
            tags_are(out@, done),
            report_tags(all) == (match report_tags(all.skip(i as int)) {
                None => None,
                Some(rest) => Some(done + rest),
            }),
        decreases rs.len() - i,
    {
        let ghost rest = all.skip(i as int);
        assert(rest[0] == report_v(rs@[i as int]));
        assert(rest.drop_first() =~= all.skip(i + 1));
        match report_tag_exec(&rs[i]) {
            None => {
                return None;
            },
            Some(t) => {
                let ghost tv = report_tag(rest[0])->0;
                let ghost before_out = out@;
                out.push(t);
                proof {
                    let d0 = done;
                    done = done.push(tv);
                    assert forall|k: int| 0 <= k < done.len() implies tag_is(#[trigger] out@[k], done[k]) by {
                        if k < d0.len() {
                            assert(out@[k] == before_out[k]);
                        }
                    }
                    match report_tags(all.skip(i + 1)) {
                        Some(x) => {
                            assert(d0 + (seq![tv] + x) =~= done + x);
                        },
                        None => {},
                    }
                }
            },
        }
        i += 1;
    }
    assert(all.skip(i as int) =~= Seq::<ReportV>::empty());
    assert(done + Seq::<TagV>::empty() =~= done);
    Some(out)
}


/// The statement days of a CAMT document from its events, where nothing
/// overflows; `None` where an amount, a balance or a date does.
pub fn camt_reports_from_events_checked(events: &[XmlEvent]) -> (r: Option<HbciResult<Vec<GvrKUmsBTag>>>)
    ensures
        match camt_tags(events@) {
            None => r is None,
            Some(Ok(vs)) => r matches Some(Ok(ts)) && tags_are(ts@, vs),
            Some(Err(e)) => r matches Some(Err(x)) && x@ == e,
        },
{
    match run_camt(events) {
        Err(e) => Some(Err(e)),
        Ok(reports) => match report_tags_exec(&reports) {
            None => None,
            Some(tags) => Some(Ok(tags)),
        },
    }
}

/// The statement days of a CAMT document, given its events: for each
/// `Rpt`, the account (IBAN, currency, servicer BIC), the opening balance
/// from its first `Bal` (`PRCD` moved on a day, `ITBD`, `OPBD`), the
/// closing balance from its second (`CLBD`, `ITBD`), and a line for each
/// `Ntry` whose details hold a transaction, with the running balance (worked
/// back from the closing balance where the opening one has no date). The
/// amounts, balances and dates must not overflow.
pub fn camt_reports_from_events(events: &[XmlEvent]) -> (r: HbciResult<Vec<GvrKUmsBTag>>)
    requires
        camt_tags(events@) is Some,
    ensures
        match camt_tags(events@) {
            Some(Ok(vs)) => r matches Ok(ts) && tags_are(ts@, vs),
            Some(Err(e)) => r matches Err(x) && x@ == e,
            None => false,
        },
{
    match camt_reports_from_events_checked(events) {
        Some(r) => r,
        None => Err(HbciError::new(HbciErrorKind::Protocol, "CAMT amount out of range")),
    }
}

pub open spec fn camt_version_error() -> ErrorView {
    ErrorView {
        kind: HbciErrorKind::InvalidArgument,
        message: "CAMT report shell parser requires a CAMT.052 version"@,
        source: None,
    }
}

/// The statement days of a CAMT.052 document (see
/// `camt_reports_from_events`); any other version is refused.
pub fn parse_camt_report_shell(xml: &str, version: SepaVersion) -> (r: HbciResult<Vec<GvrKUmsBTag>>)
    requires
        version@.kind == SepaKind::Camt052 ==> camt_tags(xml_events_of(xml@)) is Some,
    ensures
        if version@.kind != SepaKind::Camt052 {
            r matches Err(x) && x@ == camt_version_error()
        } else {
            match camt_tags(xml_events_of(xml@)) {
                Some(Ok(vs)) => r matches Ok(ts) && tags_are(ts@, vs),
                Some(Err(e)) => r matches Err(x) && x@ == e,
                None => false,
            }
        },
{
    if version.kind() != SepaKind::Camt052 {
        return Err(HbciError::new(HbciErrorKind::InvalidArgument, "CAMT report shell parser requires a CAMT.052 version"));
    }
    let events = xml_events(xml);
    camt_reports_from_events(events.as_slice())
}

/// `parse_camt_report_shell` where nothing in the document overflows;
/// `None` where something does.
pub fn parse_camt_report_shell_checked(xml: &str, version: SepaVersion) -> (r: Option<HbciResult<Vec<GvrKUmsBTag>>>)
    ensures
        if version@.kind != SepaKind::Camt052 {
            r matches Some(Err(x)) && x@ == camt_version_error()
        } else {
            match camt_tags(xml_events_of(xml@)) {
                None => r is None,
                Some(Ok(vs)) => r matches Some(Ok(ts)) && tags_are(ts@, vs),
                Some(Err(e)) => r matches Some(Err(x)) && x@ == e,
            }
        },
{
    if version.kind() != SepaKind::Camt052 {
        return Some(parse_camt_report_shell(xml, version));
    }
    let events = xml_events(xml);
    match camt_reports_from_events_checked(events.as_slice()) {
        None => None,
        Some(_) => Some(parse_camt_report_shell(xml, version)),
    }
}

} // verus!
