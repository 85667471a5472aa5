//! Writing PAIN.001 credit transfer and PAIN.008 direct debit documents
//! from SEPA job parameters. The creation time and the message id used
//! where the parameters give none are handed in.

use vstd::prelude::*;
use crate::error::{ErrorView, HbciError, HbciErrorKind, HbciResult};
use crate::gv_result::account::cents_text;
use crate::sepa::sum::{
    idx_view, indexed_name, indexed_name_of, lookup, lookup_in, max_index, max_index_of, sepa_total,
    sepa_total_fits, sum_sepa_transaction_values, transaction_indices,
};
use crate::sepa::xmlout::{el, escaped, push_close, push_el, push_escaped, push_open, tag_close, tag_open};
use crate::sepa::{PAIN_001_001_02_SCHEMA_LOCATION, PAIN_001_001_02_URN, PAIN_008_001_01_SCHEMA_LOCATION, PAIN_008_001_01_URN};
use crate::strmap::text_view;
use crate::sepa::camt::padded;
use crate::text::{append, decimal, push_char, str_eq};
use crate::tools::Properties;

verus! {

/// The value of a parameter for a transaction.
pub open spec fn param(p: Map<Seq<char>, Seq<char>>, name: Seq<char>, index: Option<nat>) -> Option<Seq<char>> {
    lookup(p, indexed_name(name, index))
}

/// A non-empty value, else the default.
pub open spec fn text_or(v: Option<Seq<char>>, d: Seq<char>) -> Seq<char> {
    match v {
        Some(x) => if x.len() > 0 { x } else { d },
        None => d,
    }
}

/// A value, empty where there is none.
pub open spec fn or_empty(v: Option<Seq<char>>) -> Seq<char> {
    match v {
        Some(x) => x,
        None => seq![],
    }
}

pub open spec fn missing_param(name: Seq<char>) -> ErrorView {
    ErrorView {
        kind: HbciErrorKind::InvalidArgument,
        message: "missing required SEPA parameter: "@ + name,
        source: None,
    }
}

/// A parameter that must have a non-empty value.
pub open spec fn required(p: Map<Seq<char>, Seq<char>>, name: Seq<char>, index: Option<nat>) -> Result<Seq<char>, ErrorView> {
    match param(p, name, index) {
        Some(x) => if x.len() > 0 { Ok(x) } else { Err(missing_param(indexed_name(name, index))) },
        None => Err(missing_param(indexed_name(name, index))),
    }
}

/// The XML declaration, the `Document` element with its namespace and
/// schema location, and the root element.
pub open spec fn doc_head(urn: Seq<char>, loc: Seq<char>, root: Seq<char>) -> Seq<char> {
    "<?xml version=\"1.0\" encoding=\"UTF-8\"?>"@ + "<Document xmlns=\""@ + escaped(urn, true)
        + "\" xmlns:xsi=\""@ + escaped("http://www.w3.org/2001/XMLSchema-instance"@, true)
        + "\" xsi:schemaLocation=\""@ + escaped(loc, true) + "\">"@ + tag_open(root)
}

pub open spec fn doc_tail(root: Seq<char>) -> Seq<char> {
    tag_close(root) + tag_close("Document"@)
}

pub open spec fn group_header(id: Seq<char>, dt: Seq<char>, n: Seq<char>, sum: Seq<char>, name: Seq<char>) -> Seq<char> {
    tag_open("GrpHdr"@) + el("MsgId"@, id) + el("CreDtTm"@, dt) + el("NbOfTxs"@, n) + el("CtrlSum"@, sum)
        + el("Grpg"@, "GRPD"@) + tag_open("InitgPty"@) + el("Nm"@, name) + tag_close("InitgPty"@)
        + tag_close("GrpHdr"@)
}

/// `<tag><inner></inner></tag>` around an element with text.
pub open spec fn wrap1(outer: Seq<char>, n: Seq<char>, t: Seq<char>) -> Seq<char> {
    tag_open(outer) + el(n, t) + tag_close(outer)
}

pub open spec fn wrap2(o1: Seq<char>, o2: Seq<char>, n: Seq<char>, t: Seq<char>) -> Seq<char> {
    tag_open(o1) + wrap1(o2, n, t) + tag_close(o1)
}

pub open spec fn payment_head_001(pmt: Seq<char>, date: Seq<char>, name: Seq<char>, iban: Seq<char>, bic: Seq<char>) -> Seq<char> {
    tag_open("PmtInf"@) + el("PmtInfId"@, pmt) + el("PmtMtd"@, "TRF"@) + wrap2("PmtTpInf"@, "SvcLvl"@, "Cd"@, "SEPA"@)
        + el("ReqdExctnDt"@, date) + wrap1("Dbtr"@, "Nm"@, name) + wrap2("DbtrAcct"@, "Id"@, "IBAN"@, iban)
        + wrap2("DbtrAgt"@, "FinInstnId"@, "BIC"@, bic) + el("ChrgBr"@, "SLEV"@)
}

pub open spec fn payment_head_008(
    pmt: Seq<char>,
    seq_type: Seq<char>,
    date: Seq<char>,
    name: Seq<char>,
    iban: Seq<char>,
    bic: Seq<char>,
) -> Seq<char> {
    tag_open("PmtInf"@) + el("PmtInfId"@, pmt) + el("PmtMtd"@, "DD"@) + tag_open("PmtTpInf"@)
        + wrap1("SvcLvl"@, "Cd"@, "SEPA"@) + el("SeqTp"@, seq_type) + tag_close("PmtTpInf"@)
        + el("ReqdColltnDt"@, date) + wrap1("Cdtr"@, "Nm"@, name) + wrap2("CdtrAcct"@, "Id"@, "IBAN"@, iban)
        + wrap2("CdtrAgt"@, "FinInstnId"@, "BIC"@, bic) + el("ChrgBr"@, "SLEV"@)
}

pub open spec fn instd_amt(curr: Seq<char>, amount: Seq<char>) -> Seq<char> {
    "<InstdAmt Ccy=\""@ + escaped(curr, true) + "\">"@ + escaped(amount, false) + tag_close("InstdAmt"@)
}

pub open spec fn remittance(usage: Seq<char>) -> Seq<char> {
    if usage.len() > 0 { wrap1("RmtInf"@, "Ustrd"@, usage) } else { seq![] }
}

/// The values of one credit transfer.
pub ghost struct TransferParams {
    pub e2e: Seq<char>,
    pub curr: Seq<char>,
    pub name: Seq<char>,
    pub iban: Seq<char>,
    pub bic: Seq<char>,
    pub amount: Seq<char>,
    pub usage: Seq<char>,
}

#[verifier::opaque]
pub open spec fn credit_transfer(t: TransferParams) -> Seq<char> {
    tag_open("CdtTrfTxInf"@) + wrap1("PmtId"@, "EndToEndId"@, t.e2e) + tag_open("Amt"@) + instd_amt(t.curr, t.amount)
        + tag_close("Amt"@) + wrap2("CdtrAgt"@, "FinInstnId"@, "BIC"@, t.bic) + wrap1("Cdtr"@, "Nm"@, t.name)
        + wrap2("CdtrAcct"@, "Id"@, "IBAN"@, t.iban) + remittance(t.usage) + tag_close("CdtTrfTxInf"@)
}

/// The values of a credit transfer from the parameters (for a transaction
/// of several where `index` is given).
#[verifier::opaque]
pub open spec fn transfer_params(p: Map<Seq<char>, Seq<char>>, index: Option<nat>) -> Result<TransferParams, ErrorView> {
    match required(p, "dst.name"@, index) {
        Err(e) => Err(e),
        Ok(name) => match required(p, "dst.iban"@, index) {
            Err(e) => Err(e),
            Ok(iban) => match required(p, "btg.value"@, index) {
                Err(e) => Err(e),
                Ok(amount) => Ok(TransferParams {
                    e2e: text_or(param(p, "endtoendid"@, index), "NOTPROVIDED"@),
                    curr: text_or(param(p, "btg.curr"@, index), "EUR"@),
                    name,
                    iban,
                    bic: or_empty(param(p, "dst.bic"@, index)),
                    amount,
                    usage: or_empty(param(p, "usage"@, index)),
                }),
            },
        },
    }
}

/// The values of one direct debit.
pub ghost struct DebitParams {
    pub e2e: Seq<char>,
    pub curr: Seq<char>,
    pub name: Seq<char>,
    pub iban: Seq<char>,
    pub bic: Seq<char>,
    pub amount: Seq<char>,
    pub creditor_id: Seq<char>,
    pub mandate_id: Seq<char>,
    pub mandate_date: Seq<char>,
    pub amend: Seq<char>,
    pub usage: Seq<char>,
    pub address: Seq<char>,
}

/// The debtor's postal address, where a country is given.
pub open spec fn postal_address(p: Map<Seq<char>, Seq<char>>, index: Option<nat>) -> Seq<char> {
    match param(p, "dst.addr.country"@, index) {
        Some(c) => if c.len() > 0 {
            let l1 = or_empty(param(p, "dst.addr.line1"@, index));
            let l2 = or_empty(param(p, "dst.addr.line2"@, index));
            tag_open("PstlAdr"@) + (if l1.len() > 0 { el("AdrLine"@, l1) } else { seq![] }) + (if l2.len() > 0 {
                el("AdrLine"@, l2)
            } else {
                seq![]
            }) + el("Ctry"@, c) + tag_close("PstlAdr"@)
        } else {
            seq![]
        },
        None => seq![],
    }
}

#[verifier::opaque]
pub open spec fn debit_params(p: Map<Seq<char>, Seq<char>>, index: Option<nat>) -> Result<DebitParams, ErrorView> {
    match required(p, "dst.name"@, index) {
        Err(e) => Err(e),
        Ok(name) => match required(p, "dst.iban"@, index) {
            Err(e) => Err(e),
            Ok(iban) => match required(p, "btg.value"@, index) {
                Err(e) => Err(e),
                Ok(amount) => match required(p, "creditorid"@, index) {
                    Err(e) => Err(e),
                    Ok(creditor_id) => match required(p, "mandateid"@, index) {
                        Err(e) => Err(e),
                        Ok(mandate_id) => match required(p, "manddateofsig"@, index) {
                            Err(e) => Err(e),
                            Ok(mandate_date) => Ok(DebitParams {
                                e2e: text_or(param(p, "endtoendid"@, index), "NOTPROVIDED"@),
                                curr: text_or(param(p, "btg.curr"@, index), "EUR"@),
                                name,
                                iban,
                                bic: or_empty(param(p, "dst.bic"@, index)),
                                amount,
                                creditor_id,
                                mandate_id,
                                mandate_date,
                                amend: text_or(param(p, "amendmandindic"@, index), "false"@),
                                usage: or_empty(param(p, "usage"@, index)),
                                address: postal_address(p, index),
                            }),
                        },
                    },
                },
            },
        },
    }
}

pub open spec fn amendment(amend: Seq<char>) -> Seq<char> {
    if amend == "true"@ {
        tag_open("AmdmntInfDtls"@) + tag_open("OrgnlDbtrAgt"@) + wrap2("FinInstnId"@, "PrtryId"@, "Id"@, "SMNDA"@)
            + tag_close("OrgnlDbtrAgt"@) + tag_close("AmdmntInfDtls"@)
    } else {
        seq![]
    }
}

#[verifier::opaque]
pub open spec fn direct_debit(d: DebitParams) -> Seq<char> {
    tag_open("DrctDbtTxInf"@) + wrap1("PmtId"@, "EndToEndId"@, d.e2e) + instd_amt(d.curr, d.amount)
        + tag_open("DrctDbtTx"@) + tag_open("MndtRltdInf"@) + el("MndtId"@, d.mandate_id)
        + el("DtOfSgntr"@, d.mandate_date) + el("AmdmntInd"@, d.amend) + amendment(d.amend)
        + tag_close("MndtRltdInf"@) + tag_open("CdtrSchmeId"@) + tag_open("Id"@) + tag_open("PrvtId"@)
        + tag_open("OthrId"@) + el("Id"@, d.creditor_id) + el("IdTp"@, "SEPA"@) + tag_close("OthrId"@)
        + tag_close("PrvtId"@) + tag_close("Id"@) + tag_close("CdtrSchmeId"@) + tag_close("DrctDbtTx"@)
        + wrap2("DbtrAgt"@, "FinInstnId"@, "BIC"@, d.bic) + tag_open("Dbtr"@) + el("Nm"@, d.name) + d.address
        + tag_close("Dbtr"@) + wrap2("DbtrAcct"@, "Id"@, "IBAN"@, d.iban) + remittance(d.usage)
        + tag_close("DrctDbtTxInf"@)
}

/// The debtor side of a document: its name, IBAN and BIC.
pub ghost struct SourceParams {
    pub name: Seq<char>,
    pub iban: Seq<char>,
    pub bic: Seq<char>,
}

pub open spec fn source_params(p: Map<Seq<char>, Seq<char>>) -> Result<SourceParams, ErrorView> {
    match required(p, "src.name"@, None) {
        Err(e) => Err(e),
        Ok(name) => match required(p, "src.iban"@, None) {
            Err(e) => Err(e),
            Ok(iban) => match required(p, "src.bic"@, None) {
                Err(e) => Err(e),
                Ok(bic) => Ok(SourceParams { name, iban, bic }),
            },
        },
    }
}

/// The message id: the `sepaid` parameter, else the generated one.
pub open spec fn message_id(p: Map<Seq<char>, Seq<char>>, generated_id: Seq<char>) -> Seq<char> {
    text_or(param(p, "sepaid"@, None), generated_id)
}

pub open spec fn payment_id(p: Map<Seq<char>, Seq<char>>, generated_id: Seq<char>) -> Seq<char> {
    text_or(param(p, "pmtinfid"@, None), message_id(p, generated_id))
}

/// The PAIN.001.001.02 document of a single credit transfer.
pub open spec fn pain001_document(p: Map<Seq<char>, Seq<char>>, dt: Seq<char>, generated_id: Seq<char>) -> Result<Seq<char>, ErrorView> {
    match source_params(p) {
        Err(e) => Err(e),
        Ok(s) => match transfer_params(p, None) {
            Err(e) => Err(e),
            Ok(t) => Ok(
                doc_head(PAIN_001_001_02_URN@, PAIN_001_001_02_SCHEMA_LOCATION@, "pain.001.001.02"@)
                    + group_header(message_id(p, generated_id), dt, "1"@, t.amount, s.name)
                    + payment_head_001(
                    payment_id(p, generated_id),
                    text_or(param(p, "date"@, None), "1999-01-01"@),
                    s.name,
                    s.iban,
                    s.bic,
                ) + credit_transfer(t) + tag_close("PmtInf"@) + doc_tail("pain.001.001.02"@),
            ),
        },
    }
}

/// The PAIN.008.001.01 document of a single direct debit.
pub open spec fn pain008_document(p: Map<Seq<char>, Seq<char>>, dt: Seq<char>, generated_id: Seq<char>) -> Result<Seq<char>, ErrorView> {
    match source_params(p) {
        Err(e) => Err(e),
        Ok(s) => match debit_params(p, None) {
            Err(e) => Err(e),
            Ok(d) => Ok(
                doc_head(PAIN_008_001_01_URN@, PAIN_008_001_01_SCHEMA_LOCATION@, "pain.008.001.01"@)
                    + group_header(message_id(p, generated_id), dt, "1"@, d.amount, s.name)
                    + payment_head_008(
                    payment_id(p, generated_id),
                    text_or(param(p, "sequencetype"@, None), "FRST"@),
                    text_or(param(p, "targetdate"@, None), "1999-01-01"@),
                    s.name,
                    s.iban,
                    s.bic,
                ) + direct_debit(d) + tag_close("PmtInf"@) + doc_tail("pain.008.001.01"@),
            ),
        },
    }
}

/// The credit transfers of several transactions, in order; the first
/// missing parameter is the error.
pub open spec fn transfers_xml(p: Map<Seq<char>, Seq<char>>, idxs: Seq<Option<nat>>) -> Result<Seq<char>, ErrorView>
    decreases idxs.len(),
{
    if idxs.len() == 0 {
        Ok(seq![])
    } else {
        match transfer_params(p, idxs[0]) {
            Err(e) => Err(e),
            Ok(t) => match transfers_xml(p, idxs.drop_first()) {
                Err(e) => Err(e),
                Ok(rest) => Ok(credit_transfer(t) + rest),
            },
        }
    }
}

pub open spec fn debits_xml(p: Map<Seq<char>, Seq<char>>, idxs: Seq<Option<nat>>) -> Result<Seq<char>, ErrorView>
    decreases idxs.len(),
{
    if idxs.len() == 0 {
        Ok(seq![])
    } else {
        match debit_params(p, idxs[0]) {
            Err(e) => Err(e),
            Ok(d) => match debits_xml(p, idxs.drop_first()) {
                Err(e) => Err(e),
                Ok(rest) => Ok(direct_debit(d) + rest),
            },
        }
    }
}

/// The PAIN.001.001.02 document of several credit transfers, with their
/// number and total in the group header.
pub open spec fn pain001_transfers_document(
    p: Map<Seq<char>, Seq<char>>,
    keys: Seq<Seq<char>>,
    dt: Seq<char>,
    generated_id: Seq<char>,
) -> Result<Seq<char>, ErrorView> {
    match source_params(p) {
        Err(e) => Err(e),
        Ok(s) => match sepa_total(p, keys) {
            Err(e) => Err(e),
            Ok((total, _)) => match transfers_xml(p, transaction_indices(keys)) {
                Err(e) => Err(e),
                Ok(body) => Ok(
                    doc_head(PAIN_001_001_02_URN@, PAIN_001_001_02_SCHEMA_LOCATION@, "pain.001.001.02"@)
                        + group_header(
                        message_id(p, generated_id),
                        dt,
                        decimal(transaction_indices(keys).len()),
                        cents_text(total),
                        s.name,
                    ) + payment_head_001(
                        payment_id(p, generated_id),
                        text_or(param(p, "date"@, None), "1999-01-01"@),
                        s.name,
                        s.iban,
                        s.bic,
                    ) + body + tag_close("PmtInf"@) + doc_tail("pain.001.001.02"@),
                ),
            },
        },
    }
}

/// The PAIN.008.001.01 document of several direct debits.
pub open spec fn pain008_debits_document(
    p: Map<Seq<char>, Seq<char>>,
    keys: Seq<Seq<char>>,
    dt: Seq<char>,
    generated_id: Seq<char>,
) -> Result<Seq<char>, ErrorView> {
    match source_params(p) {
        Err(e) => Err(e),
        Ok(s) => match sepa_total(p, keys) {
            Err(e) => Err(e),
            Ok((total, _)) => match debits_xml(p, transaction_indices(keys)) {
                Err(e) => Err(e),
                Ok(body) => Ok(
                    doc_head(PAIN_008_001_01_URN@, PAIN_008_001_01_SCHEMA_LOCATION@, "pain.008.001.01"@)
                        + group_header(
                        message_id(p, generated_id),
                        dt,
                        decimal(transaction_indices(keys).len()),
                        cents_text(total),
                        s.name,
                    ) + payment_head_008(
                        payment_id(p, generated_id),
                        text_or(param(p, "sequencetype"@, None), "FRST"@),
                        text_or(param(p, "targetdate"@, None), "1999-01-01"@),
                        s.name,
                        s.iban,
                        s.bic,
                    ) + body + tag_close("PmtInf"@) + doc_tail("pain.008.001.01"@),
                ),
            },
        },
    }
}


/// The result of writing what comes after `a`, with `a` in front.
pub open spec fn prepend(a: Seq<char>, r: Result<Seq<char>, ErrorView>) -> Result<Seq<char>, ErrorView> {
    match r {
        Ok(x) => Ok(a + x),
        Err(e) => Err(e),
    }
}

fn param_in<'a>(params: &'a Properties, name: &str, index: Option<usize>) -> (r: Option<&'a str>)
    ensures
        match param(text_view(params@), name@, idx_view(index)) {
            Some(v) => r matches Some(x) && x@ == v,
            None => r is None,
        },
{
    let n = indexed_name_of(name, index);
    lookup_in(params, n.as_str())
}

fn missing_error(name: &str) -> (e: HbciError)
    ensures
        e@ == missing_param(name@),
{
    let m = crate::text::concat("missing required SEPA parameter: ", name);
    HbciError::new(HbciErrorKind::InvalidArgument, m.as_str())
}

fn required_in<'a>(params: &'a Properties, name: &str, index: Option<usize>) -> (r: HbciResult<&'a str>)
    ensures
        match required(text_view(params@), name@, idx_view(index)) {
            Ok(v) => r matches Ok(x) && x@ == v,
            Err(e) => r matches Err(x) && x@ == e,
        },
{
    let n = indexed_name_of(name, index);
    match lookup_in(params, n.as_str()) {
        Some(v) => if v.unicode_len() > 0 {
            Ok(v)
        } else {
            Err(missing_error(n.as_str()))
        },
        None => Err(missing_error(n.as_str())),
    }
}

fn text_or_in(params: &Properties, name: &str, index: Option<usize>, d: &str) -> (r: String)
    ensures
        r@ == text_or(param(text_view(params@), name@, idx_view(index)), d@),
{
    match param_in(params, name, index) {
        Some(v) => if v.unicode_len() > 0 {
            v.to_string()
        } else {
            d.to_string()
        },
        None => d.to_string(),
    }
}

fn or_empty_in<'a>(params: &'a Properties, name: &str, index: Option<usize>) -> (r: &'a str)
    ensures
        r@ == or_empty(param(text_view(params@), name@, idx_view(index))),
{
    proof {
        reveal_strlit("");
    }
    match param_in(params, name, index) {
        Some(v) => v,
        None => "",
    }
}

fn push_wrap1(out: &mut String, outer: &str, n: &str, t: &str)
    ensures
        final(out)@ == old(out)@ + wrap1(outer@, n@, t@),
{
    let ghost start = out@;
    push_open(out, outer);
    push_el(out, n, t);
    push_close(out, outer);
    assert(out@ =~= start + wrap1(outer@, n@, t@));
}

fn push_wrap2(out: &mut String, o1: &str, o2: &str, n: &str, t: &str)
    ensures
        final(out)@ == old(out)@ + wrap2(o1@, o2@, n@, t@),
{
    let ghost start = out@;
    push_open(out, o1);
    push_wrap1(out, o2, n, t);
    push_close(out, o1);
    assert(out@ =~= start + wrap2(o1@, o2@, n@, t@));
}

fn push_instd_amt(out: &mut String, curr: &str, amount: &str)
    ensures
        final(out)@ == old(out)@ + instd_amt(curr@, amount@),
{
    let ghost start = out@;
    append(out, "<InstdAmt Ccy=\"");
    push_escaped(out, curr, true);
    append(out, "\">");
    push_escaped(out, amount, false);
    push_close(out, "InstdAmt");
    assert(out@ =~= start + instd_amt(curr@, amount@));
}

fn push_remittance(out: &mut String, usage: &str)
    ensures
        final(out)@ == old(out)@ + remittance(usage@),
{
    if usage.unicode_len() > 0 {
        push_wrap1(out, "RmtInf", "Ustrd", usage);
    } else {
        assert(old(out)@ + remittance(usage@) =~= old(out)@);
    }
}

fn push_doc_head(out: &mut String, urn: &str, loc: &str, root: &str)
    ensures
        final(out)@ == old(out)@ + doc_head(urn@, loc@, root@),
{
    let ghost start = out@;
    append(out, "<?xml version=\"1.0\" encoding=\"UTF-8\"?>");
    append(out, "<Document xmlns=\"");
    push_escaped(out, urn, true);
    append(out, "\" xmlns:xsi=\"");
    push_escaped(out, "http://www.w3.org/2001/XMLSchema-instance", true);
    append(out, "\" xsi:schemaLocation=\"");
    push_escaped(out, loc, true);
    append(out, "\">");
    push_open(out, root);
    assert(out@ =~= start + doc_head(urn@, loc@, root@));
}

fn push_doc_tail(out: &mut String, root: &str)
    ensures
        final(out)@ == old(out)@ + doc_tail(root@),
{
    let ghost start = out@;
    push_close(out, root);
    push_close(out, "Document");
    assert(out@ =~= start + doc_tail(root@));
}

fn push_group_header(out: &mut String, id: &str, dt: &str, n: &str, sum: &str, name: &str)
    ensures
        final(out)@ == old(out)@ + group_header(id@, dt@, n@, sum@, name@),
{
    let ghost start = out@;
    push_open(out, "GrpHdr");
    push_el(out, "MsgId", id);
    push_el(out, "CreDtTm", dt);
    push_el(out, "NbOfTxs", n);
    push_el(out, "CtrlSum", sum);
    push_el(out, "Grpg", "GRPD");
    push_wrap1(out, "InitgPty", "Nm", name);
    push_close(out, "GrpHdr");
    assert(out@ =~= start + group_header(id@, dt@, n@, sum@, name@));
}

#[verifier::spinoff_prover]
#[verifier::rlimit(40)]
fn push_payment_head_001(out: &mut String, pmt: &str, date: &str, name: &str, iban: &str, bic: &str)
    ensures
        final(out)@ == old(out)@ + payment_head_001(pmt@, date@, name@, iban@, bic@),
{
    let ghost start = out@;
    push_open(out, "PmtInf");
    push_el(out, "PmtInfId", pmt);
    push_el(out, "PmtMtd", "TRF");
    push_wrap2(out, "PmtTpInf", "SvcLvl", "Cd", "SEPA");
    push_el(out, "ReqdExctnDt", date);
    push_wrap1(out, "Dbtr", "Nm", name);
    push_wrap2(out, "DbtrAcct", "Id", "IBAN", iban);
    push_wrap2(out, "DbtrAgt", "FinInstnId", "BIC", bic);
    push_el(out, "ChrgBr", "SLEV");
    assert(out@ =~= start + payment_head_001(pmt@, date@, name@, iban@, bic@));
}

#[verifier::spinoff_prover]
#[verifier::rlimit(40)]
fn push_payment_head_008(out: &mut String, pmt: &str, seq_type: &str, date: &str, name: &str, iban: &str, bic: &str)
    ensures
        final(out)@ == old(out)@ + payment_head_008(pmt@, seq_type@, date@, name@, iban@, bic@),
{
    let ghost start = out@;
    push_open(out, "PmtInf");
    push_el(out, "PmtInfId", pmt);
    push_el(out, "PmtMtd", "DD");
    push_open(out, "PmtTpInf");
    push_wrap1(out, "SvcLvl", "Cd", "SEPA");
    push_el(out, "SeqTp", seq_type);
    push_close(out, "PmtTpInf");
    push_el(out, "ReqdColltnDt", date);
    push_wrap1(out, "Cdtr", "Nm", name);
    push_wrap2(out, "CdtrAcct", "Id", "IBAN", iban);
    push_wrap2(out, "CdtrAgt", "FinInstnId", "BIC", bic);
    push_el(out, "ChrgBr", "SLEV");
    assert(out@ =~= start + payment_head_008(pmt@, seq_type@, date@, name@, iban@, bic@));
}


/// The XML of one credit transfer.
fn transfer_xml(params: &Properties, index: Option<usize>) -> (r: HbciResult<String>)
    ensures
        match transfer_params(text_view(params@), idx_view(index)) {
            Ok(t) => r matches Ok(s) && s@ == credit_transfer(t),
            Err(e) => r matches Err(x) && x@ == e,
        },
{
    let ghost p = text_view(params@);
    proof {
        reveal(transfer_params);
        reveal(credit_transfer);
    }
    let name = match required_in(params, "dst.name", index) {
        Ok(v) => v,
        Err(e) => return Err(e),
    };
    let iban = match required_in(params, "dst.iban", index) {
        Ok(v) => v,
        Err(e) => return Err(e),
    };
    let amount = match required_in(params, "btg.value", index) {
        Ok(v) => v,
        Err(e) => return Err(e),
    };
    let e2e = text_or_in(params, "endtoendid", index, "NOTPROVIDED");
    let curr = text_or_in(params, "btg.curr", index, "EUR");
    let bic = or_empty_in(params, "dst.bic", index);
    let usage = or_empty_in(params, "usage", index);
    let ghost t = TransferParams {
        e2e: e2e@,
        curr: curr@,
        name: name@,
        iban: iban@,
        bic: bic@,
        amount: amount@,
        usage: usage@,
    };
    assert(transfer_params(p, idx_view(index)) == Ok::<TransferParams, ErrorView>(t));
    let mut out = String::new();
    push_open(&mut out, "CdtTrfTxInf");
    push_wrap1(&mut out, "PmtId", "EndToEndId", e2e.as_str());
    push_open(&mut out, "Amt");
    push_instd_amt(&mut out, curr.as_str(), amount);
    push_close(&mut out, "Amt");
    push_wrap2(&mut out, "CdtrAgt", "FinInstnId", "BIC", bic);
    push_wrap1(&mut out, "Cdtr", "Nm", name);
    push_wrap2(&mut out, "CdtrAcct", "Id", "IBAN", iban);
    push_remittance(&mut out, usage);
    push_close(&mut out, "CdtTrfTxInf");
    assert(out@ =~= credit_transfer(t));
    Ok(out)
}

fn postal_address_xml(params: &Properties, index: Option<usize>) -> (r: String)
    ensures
        r@ == postal_address(text_view(params@), idx_view(index)),
{
    let mut out = String::new();
    match param_in(params, "dst.addr.country", index) {
        Some(c) => if c.unicode_len() > 0 {
            let l1 = or_empty_in(params, "dst.addr.line1", index);
            let l2 = or_empty_in(params, "dst.addr.line2", index);
            push_open(&mut out, "PstlAdr");
            let ghost a = out@;
            if l1.unicode_len() > 0 {
                push_el(&mut out, "AdrLine", l1);
            }
            let ghost b = out@;
            assert(b =~= a + (if l1@.len() > 0 { el("AdrLine"@, l1@) } else { seq![] }));
            if l2.unicode_len() > 0 {
                push_el(&mut out, "AdrLine", l2);
            }
            assert(out@ =~= b + (if l2@.len() > 0 { el("AdrLine"@, l2@) } else { seq![] }));
            push_el(&mut out, "Ctry", c);
            push_close(&mut out, "PstlAdr");
            assert(out@ =~= postal_address(text_view(params@), idx_view(index)));
        },
        None => {},
    }
    out
}

fn push_amendment(out: &mut String, amend: &str)
    ensures
        final(out)@ == old(out)@ + amendment(amend@),
{
    let ghost start = out@;
    if str_eq(amend, "true") {
        push_open(out, "AmdmntInfDtls");
        push_open(out, "OrgnlDbtrAgt");
        push_wrap2(out, "FinInstnId", "PrtryId", "Id", "SMNDA");
        push_close(out, "OrgnlDbtrAgt");
        push_close(out, "AmdmntInfDtls");
    }
    assert(out@ =~= start + amendment(amend@));
}

fn push_creditor_scheme(out: &mut String, creditor_id: &str)
    ensures
        final(out)@ == old(out)@ + tag_open("CdtrSchmeId"@) + tag_open("Id"@) + tag_open("PrvtId"@)
            + tag_open("OthrId"@) + el("Id"@, creditor_id@) + el("IdTp"@, "SEPA"@) + tag_close("OthrId"@)
            + tag_close("PrvtId"@) + tag_close("Id"@) + tag_close("CdtrSchmeId"@),
{
    push_open(out, "CdtrSchmeId");
    push_open(out, "Id");
    push_open(out, "PrvtId");
    push_open(out, "OthrId");
    push_el(out, "Id", creditor_id);
    push_el(out, "IdTp", "SEPA");
    push_close(out, "OthrId");
    push_close(out, "PrvtId");
    push_close(out, "Id");
    push_close(out, "CdtrSchmeId");
}

/// The XML of one direct debit.
fn debit_xml(params: &Properties, index: Option<usize>) -> (r: HbciResult<String>)
    ensures
        match debit_params(text_view(params@), idx_view(index)) {
            Ok(d) => r matches Ok(s) && s@ == direct_debit(d),
            Err(e) => r matches Err(x) && x@ == e,
        },
{
    let ghost p = text_view(params@);
    proof {
        reveal(debit_params);
        reveal(direct_debit);
    }
    let name = match required_in(params, "dst.name", index) {
        Ok(v) => v,
        Err(e) => return Err(e),
    };
    let iban = match required_in(params, "dst.iban", index) {
        Ok(v) => v,
        Err(e) => return Err(e),
    };
    let amount = match required_in(params, "btg.value", index) {
        Ok(v) => v,
        Err(e) => return Err(e),
    };
    let creditor_id = match required_in(params, "creditorid", index) {
        Ok(v) => v,
        Err(e) => return Err(e),
    };
    let mandate_id = match required_in(params, "mandateid", index) {
        Ok(v) => v,
        Err(e) => return Err(e),
    };
    let mandate_date = match required_in(params, "manddateofsig", index) {
        Ok(v) => v,
        Err(e) => return Err(e),
    };
    let e2e = text_or_in(params, "endtoendid", index, "NOTPROVIDED");
    let curr = text_or_in(params, "btg.curr", index, "EUR");
    let bic = or_empty_in(params, "dst.bic", index);
    let amend = text_or_in(params, "amendmandindic", index, "false");
    let usage = or_empty_in(params, "usage", index);
    let address = postal_address_xml(params, index);
    let ghost d = DebitParams {
        e2e: e2e@,
        curr: curr@,
        name: name@,
        iban: iban@,
        bic: bic@,
        amount: amount@,
        creditor_id: creditor_id@,
        mandate_id: mandate_id@,
        mandate_date: mandate_date@,
        amend: amend@,
        usage: usage@,
        address: address@,
    };
    assert(debit_params(p, idx_view(index)) == Ok::<DebitParams, ErrorView>(d));
    let mut out = String::new();
    push_open(&mut out, "DrctDbtTxInf");
    push_wrap1(&mut out, "PmtId", "EndToEndId", e2e.as_str());
    push_instd_amt(&mut out, curr.as_str(), amount);
    push_open(&mut out, "DrctDbtTx");
    push_open(&mut out, "MndtRltdInf");
    push_el(&mut out, "MndtId", mandate_id);
    push_el(&mut out, "DtOfSgntr", mandate_date);
    push_el(&mut out, "AmdmntInd", amend.as_str());
    push_amendment(&mut out, amend.as_str());
    push_close(&mut out, "MndtRltdInf");
    push_creditor_scheme(&mut out, creditor_id);
    push_close(&mut out, "DrctDbtTx");
    push_wrap2(&mut out, "DbtrAgt", "FinInstnId", "BIC", bic);
    push_open(&mut out, "Dbtr");
    push_el(&mut out, "Nm", name);
    append(&mut out, address.as_str());
    push_close(&mut out, "Dbtr");
    push_wrap2(&mut out, "DbtrAcct", "Id", "IBAN", iban);
    push_remittance(&mut out, usage);
    push_close(&mut out, "DrctDbtTxInf");
    assert(out@ =~= direct_debit(d));
    Ok(out)
}


fn source_of<'a>(params: &'a Properties) -> (r: HbciResult<(&'a str, &'a str, &'a str)>)
    ensures
        match source_params(text_view(params@)) {
            Ok(s) => r matches Ok(x) && x.0@ == s.name && x.1@ == s.iban && x.2@ == s.bic,
            Err(e) => r matches Err(x) && x@ == e,
        },
{
    let name = match required_in(params, "src.name", None) {
        Ok(v) => v,
        Err(e) => return Err(e),
    };
    let iban = match required_in(params, "src.iban", None) {
        Ok(v) => v,
        Err(e) => return Err(e),
    };
    let bic = match required_in(params, "src.bic", None) {
        Ok(v) => v,
        Err(e) => return Err(e),
    };
    Ok((name, iban, bic))
}

/// The transactions' XML, one after the other; `debits` picks direct
/// debits, else credit transfers.
pub open spec fn body_xml(p: Map<Seq<char>, Seq<char>>, idxs: Seq<Option<nat>>, debits: bool) -> Result<Seq<char>, ErrorView> {
    if debits { debits_xml(p, idxs) } else { transfers_xml(p, idxs) }
}

fn item_xml(params: &Properties, index: Option<usize>, debits: bool) -> (r: HbciResult<String>)
    ensures
        debits ==> match debit_params(text_view(params@), idx_view(index)) {
            Ok(d) => r matches Ok(s) && s@ == direct_debit(d),
            Err(e) => r matches Err(x) && x@ == e,
        },
        !debits ==> match transfer_params(text_view(params@), idx_view(index)) {
            Ok(t) => r matches Ok(s) && s@ == credit_transfer(t),
            Err(e) => r matches Err(x) && x@ == e,
        },
{
    if debits {
        debit_xml(params, index)
    } else {
        transfer_xml(params, index)
    }
}

proof fn lemma_transfers_step(p: Map<Seq<char>, Seq<char>>, idxs: Seq<Option<nat>>, written: Seq<char>)
    requires
        idxs.len() > 0,
    ensures
        match transfer_params(p, idxs[0]) {
            Ok(t) => prepend(written, transfers_xml(p, idxs))
                == prepend(written + credit_transfer(t), transfers_xml(p, idxs.drop_first())),
            Err(e) => prepend(written, transfers_xml(p, idxs)) == Err::<Seq<char>, ErrorView>(e),
        },
{
    let tp = transfer_params(p, idxs[0]);
    let rest = transfers_xml(p, idxs.drop_first());
    assert(transfers_xml(p, idxs) == match tp {
        Err(e) => Err(e),
        Ok(t) => match rest {
            Err(e) => Err(e),
            Ok(r) => Ok(credit_transfer(t) + r),
        },
    });
    if let (Ok(t), Ok(r)) = (tp, rest) {
        assert(written + (credit_transfer(t) + r) =~= written + credit_transfer(t) + r);
    }
}

proof fn lemma_debits_step(p: Map<Seq<char>, Seq<char>>, idxs: Seq<Option<nat>>, written: Seq<char>)
    requires
        idxs.len() > 0,
    ensures
        match debit_params(p, idxs[0]) {
            Ok(d) => prepend(written, debits_xml(p, idxs))
                == prepend(written + direct_debit(d), debits_xml(p, idxs.drop_first())),
            Err(e) => prepend(written, debits_xml(p, idxs)) == Err::<Seq<char>, ErrorView>(e),
        },
{
    let dp = debit_params(p, idxs[0]);
    let rest = debits_xml(p, idxs.drop_first());
    assert(debits_xml(p, idxs) == match dp {
        Err(e) => Err(e),
        Ok(d) => match rest {
            Err(e) => Err(e),
            Ok(r) => Ok(direct_debit(d) + r),
        },
    });
    if let (Ok(d), Ok(r)) = (dp, rest) {
        assert(written + (direct_debit(d) + r) =~= written + direct_debit(d) + r);
    }
}

proof fn lemma_body_step(p: Map<Seq<char>, Seq<char>>, idxs: Seq<Option<nat>>, debits: bool, written: Seq<char>)
    requires
        idxs.len() > 0,
    ensures
        debits ==> match debit_params(p, idxs[0]) {
            Ok(d) => prepend(written, body_xml(p, idxs, debits))
                == prepend(written + direct_debit(d), body_xml(p, idxs.drop_first(), debits)),
            Err(e) => prepend(written, body_xml(p, idxs, debits)) == Err::<Seq<char>, ErrorView>(e),
        },
        !debits ==> match transfer_params(p, idxs[0]) {
            Ok(t) => prepend(written, body_xml(p, idxs, debits))
                == prepend(written + credit_transfer(t), body_xml(p, idxs.drop_first(), debits)),
            Err(e) => prepend(written, body_xml(p, idxs, debits)) == Err::<Seq<char>, ErrorView>(e),
        },
{
    if debits {
        lemma_debits_step(p, idxs, written);
    } else {
        lemma_transfers_step(p, idxs, written);
    }
}

/// The XML of all transactions of the parameters, in index order.
fn transactions_xml(params: &Properties, debits: bool) -> (r: HbciResult<String>)
    ensures
        match body_xml(text_view(params@), transaction_indices(params.keys_view()), debits) {
            Ok(b) => r matches Ok(s) && s@ == b,
            Err(e) => r matches Err(x) && x@ == e,
        },
{
    let ghost p = text_view(params@);
    let ghost idxs = transaction_indices(params.keys_view());
    let max = max_index_of(params);
    let mut out = String::new();
    match max {
        None => {
            proof {
                lemma_body_step(p, idxs, debits, out@);
                assert(idxs.drop_first() =~= Seq::<Option<nat>>::empty());
                assert(idx_view(None) == idxs[0]);
            }
            match item_xml(params, None, debits) {
                Err(e) => return Err(e),
                Ok(x) => append(&mut out, x.as_str()),
            }
            assert(prepend(out@, body_xml(p, idxs.drop_first(), debits)) == Ok::<Seq<char>, ErrorView>(out@ + seq![]));
            assert(out@ + seq![] =~= out@);
        },
        Some(m) => {
            let mut i: usize = 0;
            assert(idxs.skip(0) =~= idxs);
            assert(out@ + Seq::<char>::empty() =~= Seq::<char>::empty());
            loop
                invariant_except_break
                    i <= m,
                    body_xml(p, idxs, debits) == prepend(out@, body_xml(p, idxs.skip(i as int), debits)),
                invariant
                    max == Some(m),
                    idxs == Seq::new(m as nat + 1, |j: int| Some(j as nat)),
                    idxs == transaction_indices(params.keys_view()),
                    p == text_view(params@),
                ensures
                    body_xml(p, idxs, debits) == Ok::<Seq<char>, ErrorView>(out@),
                decreases m - i,
            {
                let ghost rest = idxs.skip(i as int);
                assert(rest[0] == Some(i as nat));
                assert(rest.drop_first() =~= idxs.skip(i + 1));
                assert(idx_view(Some(i)) == rest[0]);
                proof {
                    lemma_body_step(p, rest, debits, out@);
                }
                match item_xml(params, Some(i), debits) {
                    Err(e) => return Err(e),
                    Ok(x) => append(&mut out, x.as_str()),
                }
                if i == m {
                    assert(idxs.skip(i + 1) =~= Seq::<Option<nat>>::empty());
                    assert(out@ + Seq::<char>::empty() =~= out@);
                    break;
                }
                i += 1;
            }
        },
    }
    Ok(out)
}


/// A PAIN.001.001.02 document around the transfers' XML.
fn pain001_xml(
    params: &Properties,
    dt: &str,
    gid: &str,
    src: (&str, &str, &str),
    count: &str,
    ctrl: &str,
    body: &str,
) -> (r: String)
    ensures
        ({
            let p = text_view(params@);
            r@ == doc_head(PAIN_001_001_02_URN@, PAIN_001_001_02_SCHEMA_LOCATION@, "pain.001.001.02"@)
                + group_header(message_id(p, gid@), dt@, count@, ctrl@, src.0@) + payment_head_001(
                payment_id(p, gid@),
                text_or(param(p, "date"@, None), "1999-01-01"@),
                src.0@,
                src.1@,
                src.2@,
            ) + body@ + tag_close("PmtInf"@) + doc_tail("pain.001.001.02"@)
        }),
{
    let msg_id = text_or_in(params, "sepaid", None, gid);
    let pmt_id = text_or_in(params, "pmtinfid", None, msg_id.as_str());
    let date = text_or_in(params, "date", None, "1999-01-01");
    let mut out = String::new();
    push_doc_head(&mut out, PAIN_001_001_02_URN, PAIN_001_001_02_SCHEMA_LOCATION, "pain.001.001.02");
    push_group_header(&mut out, msg_id.as_str(), dt, count, ctrl, src.0);
    push_payment_head_001(&mut out, pmt_id.as_str(), date.as_str(), src.0, src.1, src.2);
    append(&mut out, body);
    push_close(&mut out, "PmtInf");
    push_doc_tail(&mut out, "pain.001.001.02");
    out
}

/// A PAIN.008.001.01 document around the direct debits' XML.
fn pain008_xml(
    params: &Properties,
    dt: &str,
    gid: &str,
    src: (&str, &str, &str),
    count: &str,
    ctrl: &str,
    body: &str,
) -> (r: String)
    ensures
        ({
            let p = text_view(params@);
            r@ == doc_head(PAIN_008_001_01_URN@, PAIN_008_001_01_SCHEMA_LOCATION@, "pain.008.001.01"@)
                + group_header(message_id(p, gid@), dt@, count@, ctrl@, src.0@) + payment_head_008(
                payment_id(p, gid@),
                text_or(param(p, "sequencetype"@, None), "FRST"@),
                text_or(param(p, "targetdate"@, None), "1999-01-01"@),
                src.0@,
                src.1@,
                src.2@,
            ) + body@ + tag_close("PmtInf"@) + doc_tail("pain.008.001.01"@)
        }),
{
    let msg_id = text_or_in(params, "sepaid", None, gid);
    let pmt_id = text_or_in(params, "pmtinfid", None, msg_id.as_str());
    let seq_type = text_or_in(params, "sequencetype", None, "FRST");
    let date = text_or_in(params, "targetdate", None, "1999-01-01");
    let mut out = String::new();
    push_doc_head(&mut out, PAIN_008_001_01_URN, PAIN_008_001_01_SCHEMA_LOCATION, "pain.008.001.01");
    push_group_header(&mut out, msg_id.as_str(), dt, count, ctrl, src.0);
    push_payment_head_008(&mut out, pmt_id.as_str(), seq_type.as_str(), date.as_str(), src.0, src.1, src.2);
    append(&mut out, body);
    push_close(&mut out, "PmtInf");
    push_doc_tail(&mut out, "pain.008.001.01");
    out
}

/// A PAIN.001.001.02 document for a single credit transfer, from the job
/// parameters (`src.*`, `dst.*`, `btg.*`, `usage`, ...), created at
/// `creation_datetime`; `generated_id` is the message id where `sepaid` is
/// missing or empty.
pub fn generate_pain_001_001_02_transfer(sepa_params: &Properties, creation_datetime: &str, generated_id: &str) -> (r: HbciResult<String>)
    ensures
        match pain001_document(text_view(sepa_params@), creation_datetime@, generated_id@) {
            Ok(d) => r matches Ok(s) && s@ == d,
            Err(e) => r matches Err(x) && x@ == e,
        },
{
    let ghost p = text_view(sepa_params@);
    let src = match source_of(sepa_params) {
        Ok(s) => s,
        Err(e) => return Err(e),
    };
    let body = match transfer_xml(sepa_params, None) {
        Ok(b) => b,
        Err(e) => return Err(e),
    };
    proof {
        reveal(transfer_params);
    }
    let amount = match required_in(sepa_params, "btg.value", None) {
        Ok(a) => a,
        Err(e) => return Err(e),
    };
    Ok(pain001_xml(sepa_params, creation_datetime, generated_id, src, "1", amount, body.as_str()))
}

/// A PAIN.008.001.01 document for a single direct debit (see
/// `generate_pain_001_001_02_transfer`; also `creditorid`, `mandateid`,
/// `manddateofsig`).
pub fn generate_pain_008_001_01_direct_debit(sepa_params: &Properties, creation_datetime: &str, generated_id: &str) -> (r: HbciResult<String>)
    ensures
        match pain008_document(text_view(sepa_params@), creation_datetime@, generated_id@) {
            Ok(d) => r matches Ok(s) && s@ == d,
            Err(e) => r matches Err(x) && x@ == e,
        },
{
    let ghost p = text_view(sepa_params@);
    let src = match source_of(sepa_params) {
        Ok(s) => s,
        Err(e) => return Err(e),
    };
    let body = match debit_xml(sepa_params, None) {
        Ok(b) => b,
        Err(e) => return Err(e),
    };
    proof {
        reveal(debit_params);
    }
    let amount = match required_in(sepa_params, "btg.value", None) {
        Ok(a) => a,
        Err(e) => return Err(e),
    };
    Ok(pain008_xml(sepa_params, creation_datetime, generated_id, src, "1", amount, body.as_str()))
}

/// The number of transactions, as decimal text.
fn transaction_count(params: &Properties) -> (r: String)
    requires
        max_index(params.keys_view()) matches Some(m) ==> m < usize::MAX,
    ensures
        r@ == decimal(transaction_indices(params.keys_view()).len()),
{
    match max_index_of(params) {
        None => crate::text::decimal_string(1),
        Some(m) => crate::text::decimal_string(m as u64 + 1),
    }
}

/// A PAIN.001.001.02 document for all credit transfers of the parameters
/// (`btg[i].value` and so on for transaction `i`), with their number and
/// total in the group header.
pub fn generate_pain_001_001_02_transfers(sepa_params: &Properties, creation_datetime: &str, generated_id: &str) -> (r: HbciResult<String>)
    requires
        sepa_total_fits(text_view(sepa_params@), sepa_params.keys_view()),
        max_index(sepa_params.keys_view()) matches Some(m) ==> m < usize::MAX,
    ensures
        match pain001_transfers_document(
            text_view(sepa_params@),
            sepa_params.keys_view(),
            creation_datetime@,
            generated_id@,
        ) {
            Ok(d) => r matches Ok(s) && s@ == d,
            Err(e) => r matches Err(x) && x@ == e,
        },
{
    let src = match source_of(sepa_params) {
        Ok(s) => s,
        Err(e) => return Err(e),
    };
    let total = match sum_sepa_transaction_values(sepa_params) {
        Ok(v) => v,
        Err(e) => return Err(e),
    };
    let body = match transactions_xml(sepa_params, false) {
        Ok(b) => b,
        Err(e) => return Err(e),
    };
    let count = transaction_count(sepa_params);
    Ok(pain001_xml(sepa_params, creation_datetime, generated_id, src, count.as_str(), total.value.as_str(), body.as_str()))
}

/// A PAIN.008.001.01 document for all direct debits of the parameters.
pub fn generate_pain_008_001_01_direct_debits(sepa_params: &Properties, creation_datetime: &str, generated_id: &str) -> (r: HbciResult<String>)
    requires
        sepa_total_fits(text_view(sepa_params@), sepa_params.keys_view()),
        max_index(sepa_params.keys_view()) matches Some(m) ==> m < usize::MAX,
    ensures
        match pain008_debits_document(
            text_view(sepa_params@),
            sepa_params.keys_view(),
            creation_datetime@,
            generated_id@,
        ) {
            Ok(d) => r matches Ok(s) && s@ == d,
            Err(e) => r matches Err(x) && x@ == e,
        },
{
    let src = match source_of(sepa_params) {
        Ok(s) => s,
        Err(e) => return Err(e),
    };
    let total = match sum_sepa_transaction_values(sepa_params) {
        Ok(v) => v,
        Err(e) => return Err(e),
    };
    let body = match transactions_xml(sepa_params, true) {
        Ok(b) => b,
        Err(e) => return Err(e),
    };
    let count = transaction_count(sepa_params);
    Ok(pain008_xml(sepa_params, creation_datetime, generated_id, src, count.as_str(), total.value.as_str(), body.as_str()))
}


/// Whether the transaction indices of the parameters can be counted in a
/// `usize` (what the documents of several transactions ask).
pub fn transaction_indices_fit(sepa_params: &Properties) -> (b: bool)
    ensures
        b == (max_index(sepa_params.keys_view()) matches Some(m) ==> m < usize::MAX),
{
    match max_index_of(sepa_params) {
        Some(m) => m < usize::MAX,
        None => true,
    }
}

/// The UTC date and time `YYYY-MM-DDTHH:MM:SS` of a number of seconds since
/// 1970-01-01T00:00:00 (the civil calendar; the year taken as an `i32`).
pub open spec fn utc_datetime(seconds: int) -> Seq<char> {
    let days = seconds / 86400;
    let sod = seconds % 86400;
    let z = days + 719468;
    let era = z / 146097;
    let doe = z - era * 146097;
    let yoe = (doe - doe / 1460 + doe / 36524 - doe / 146096) / 365;
    let y = yoe + era * 400;
    let doy = doe - (365 * yoe + yoe / 4 - yoe / 100);
    let mp = (5 * doy + 2) / 153;
    let day = doy - (153 * mp + 2) / 5 + 1;
    let month = if mp < 10 { mp + 3 } else { mp - 9 };
    let year = y + (if month <= 2 { 1int } else { 0int });
    padded((year as i32) as int, 4) + seq!['-'] + padded(month, 2) + seq!['-'] + padded(day, 2) + seq!['T']
        + padded(sod / 3600, 2) + seq![':'] + padded((sod % 3600) / 60, 2) + seq![':'] + padded(sod % 60, 2)
}

/// The UTC date and time of a number of seconds since 1970-01-01 (see
/// `utc_datetime`), as the creation time of a document.
pub fn unix_seconds_to_utc_datetime(seconds: u64) -> (s: String)
    ensures
        s@ == utc_datetime(seconds as int),
{
    let days: u64 = seconds / 86400;
    let sod: u64 = seconds % 86400;
    assert(days < 0x1_0000_0000_0000) by (nonlinear_arith)
        requires
            days == seconds / 86400,
            seconds <= 0xffff_ffff_ffff_ffff,
    ;
    let z: u64 = days + 719468;
    let era: u64 = z / 146097;
    assert(era * 146097 <= z && z - era * 146097 < 146097) by (nonlinear_arith)
        requires
            era == z / 146097,
    ;
    let doe: u64 = z - era * 146097;
    let t1: u64 = doe - doe / 1460 + doe / 36524 - doe / 146096;
    let yoe: u64 = t1 / 365;
    assert(yoe <= 400) by (nonlinear_arith)
        requires
            yoe == t1 / 365,
            t1 <= 146096,
    ;
    assert(era <= z) by (nonlinear_arith)
        requires
            era == z / 146097,
    ;
    let y: u64 = yoe + era * 400;
    let t2: u64 = 365 * yoe + yoe / 4 - yoe / 100;
    assert(t2 <= doe) by (nonlinear_arith)
        requires
            t2 == 365 * yoe + yoe / 4 - yoe / 100,
            yoe == (doe - doe / 1460 + doe / 36524 - doe / 146096) / 365,
            doe < 146097,
    ;
    let doy: u64 = doe - t2;
    assert(doy <= 365) by (nonlinear_arith)
        requires
            doy == doe - (365 * yoe + yoe / 4 - yoe / 100),
            yoe == (doe - doe / 1460 + doe / 36524 - doe / 146096) / 365,
            doe < 146097,
    ;
    let mp: u64 = (5 * doy + 2) / 153;
    let day: u64 = doy - (153 * mp + 2) / 5 + 1;
    let month: u64 = if mp < 10 {
        mp + 3
    } else {
        mp - 9
    };
    let year: u64 = y + if month <= 2 {
        1
    } else {
        0
    };
    let yr: i32 = year as i32;
    let mut s = String::new();
    crate::sepa::camt::push_padded(&mut s, yr as i64, 4);
    push_char(&mut s, '-');
    crate::sepa::camt::push_padded(&mut s, month as i64, 2);
    push_char(&mut s, '-');
    crate::sepa::camt::push_padded(&mut s, day as i64, 2);
    push_char(&mut s, 'T');
    crate::sepa::camt::push_padded(&mut s, (sod / 3600) as i64, 2);
    push_char(&mut s, ':');
    crate::sepa::camt::push_padded(&mut s, ((sod % 3600) / 60) as i64, 2);
    push_char(&mut s, ':');
    crate::sepa::camt::push_padded(&mut s, (sod % 60) as i64, 2);
    s
}

} // verus!
