//! Reading the direct debits of a PAIN.008 document.

use vstd::prelude::*;
use crate::error::{ErrorView, HbciError, HbciErrorKind, HbciResult};
use crate::gv_result::account::{opt_view, Konto, Value};
use crate::gv_result::status::str_views;
use crate::sepa::amount::{normalize_decimal_amount, normalized_amount, sepa_cents_fit};
use crate::sepa::pain::{
    ends, ends2, ends3, ends4, ends_with_path, first_ten, lemma_str_views_push, local_name,
    local_name_of, pain_attr, pain_tag_attr, plain_account, value_view, ValueView,
};
use crate::text::{str_eq, trim, trim_str};
use crate::xml::{read_error, xml_events, xml_events_of, XmlEvent, XmlTag};

verus! {

/// What a payment information block gives its direct debits.
pub ghost struct DebitPaymentView {
    pub name: Option<Seq<char>>,
    pub iban: Option<Seq<char>>,
    pub bic: Option<Seq<char>>,
    pub payment_info_id: Option<Seq<char>>,
    pub collection_date: Option<Seq<char>>,
    pub batch_book: Option<Seq<char>>,
    pub debit_type: Option<Seq<char>>,
    pub sequence_type: Option<Seq<char>>,
    pub creditor_id: Option<Seq<char>>,
}

/// A direct debit being read.
pub ghost struct DebitDraftView {
    pub name: Option<Seq<char>>,
    pub iban: Option<Seq<char>>,
    pub bic: Option<Seq<char>>,
    pub value: Option<ValueView>,
    pub usage: Seq<Seq<char>>,
    pub end_to_end_id: Option<Seq<char>>,
    pub purpose_code: Option<Seq<char>>,
    pub mandate_id: Option<Seq<char>>,
    pub mandate_date_of_signature: Option<Seq<char>>,
}

/// A direct debit read, as plain values: the accounts by IBAN, BIC and name.
pub ghost struct DebitView {
    pub creditor_name: Option<Seq<char>>,
    pub creditor_iban: Option<Seq<char>>,
    pub creditor_bic: Option<Seq<char>>,
    pub debtor_name: Option<Seq<char>>,
    pub debtor_iban: Option<Seq<char>>,
    pub debtor_bic: Option<Seq<char>>,
    pub value: Option<ValueView>,
    pub usage: Seq<Seq<char>>,
    pub collection_date: Option<Seq<char>>,
    pub end_to_end_id: Option<Seq<char>>,
    pub payment_info_id: Option<Seq<char>>,
    pub purpose_code: Option<Seq<char>>,
    pub debit_type: Option<Seq<char>>,
    pub sequence_type: Option<Seq<char>>,
    pub creditor_id: Option<Seq<char>>,
    pub mandate_id: Option<Seq<char>>,
    pub mandate_date_of_signature: Option<Seq<char>>,
    pub batch_book: Option<Seq<char>>,
}

pub ghost struct DebitState {
    pub stack: Seq<Seq<char>>,
    pub debits: Seq<DebitView>,
    pub initiator: Option<Seq<char>>,
    pub payment: Option<DebitPaymentView>,
    pub debit: Option<DebitDraftView>,
}

pub open spec fn debit_initial() -> DebitState {
    DebitState { stack: seq![], debits: seq![], initiator: None, payment: None, debit: None }
}

pub open spec fn empty_debit_payment() -> DebitPaymentView {
    DebitPaymentView {
        name: None,
        iban: None,
        bic: None,
        payment_info_id: None,
        collection_date: None,
        batch_book: None,
        debit_type: None,
        sequence_type: None,
        creditor_id: None,
    }
}

pub open spec fn empty_debit_draft() -> DebitDraftView {
    DebitDraftView {
        name: None,
        iban: None,
        bic: None,
        value: None,
        usage: seq![],
        end_to_end_id: None,
        purpose_code: None,
        mandate_id: None,
        mandate_date_of_signature: None,
    }
}

/// The direct debit after its currency attribute, where the tag is an
/// `InstdAmt` inside a direct debit.
pub open spec fn debit_currency(st: DebitState, tag: XmlTag) -> Result<DebitState, ErrorView> {
    match st.debit {
        Some(d) => if local_name(tag.name@) == "InstdAmt"@ {
            match pain_attr(tag, "Ccy"@) {
                Err(e) => Err(e),
                Ok(None) => Ok(st),
                Ok(Some(c)) => Ok(DebitState {
                    debit: Some(DebitDraftView { value: Some(ValueView { value: seq![], curr: Some(c) }), ..d }),
                    ..st
                }),
            }
        } else {
            Ok(st)
        },
        None => Ok(st),
    }
}

pub open spec fn debit_start(st: DebitState, tag: XmlTag) -> Result<DebitState, ErrorView> {
    let n = local_name(tag.name@);
    let s1 = if n == "PmtInf"@ {
        Ok(DebitState { payment: Some(empty_debit_payment()), ..st })
    } else if st.payment is Some && n == "DrctDbtTxInf"@ {
        Ok(DebitState { debit: Some(empty_debit_draft()), ..st })
    } else {
        debit_currency(st, tag)
    };
    match s1 {
        Ok(s) => Ok(DebitState { stack: s.stack.push(n), ..s }),
        Err(e) => Err(e),
    }
}

/// A direct debit after a text inside it; `None` where the text is an
/// amount whose reading overflows.
pub open spec fn debit_text(d: DebitDraftView, st: Seq<Seq<char>>, t: Seq<char>) -> Option<DebitDraftView> {
    if ends(st, seq!["DrctDbtTxInf"@, "PmtId"@, "EndToEndId"@]) {
        Some(DebitDraftView { end_to_end_id: Some(t), ..d })
    } else if ends(st, seq!["DrctDbtTxInf"@, "Dbtr"@, "Nm"@]) {
        Some(DebitDraftView { name: Some(t), ..d })
    } else if ends(st, seq!["DrctDbtTxInf"@, "DbtrAcct"@, "Id"@, "IBAN"@]) {
        Some(DebitDraftView { iban: Some(t), ..d })
    } else if ends(st, seq!["DrctDbtTxInf"@, "DbtrAgt"@, "FinInstnId"@, "BIC"@]) || ends(
        st,
        seq!["DrctDbtTxInf"@, "DbtrAgt"@, "FinInstnId"@, "BICFI"@],
    ) {
        Some(DebitDraftView { bic: Some(t), ..d })
    } else if ends(st, seq!["DrctDbtTxInf"@, "InstdAmt"@]) {
        if !sepa_cents_fit(t) {
            None
        } else {
            Some(DebitDraftView {
                value: Some(match d.value {
                    Some(v) => ValueView { value: normalized_amount(t), ..v },
                    None => ValueView { value: normalized_amount(t), curr: None },
                }),
                ..d
            })
        }
    } else if ends(st, seq!["DrctDbtTxInf"@, "RmtInf"@, "Ustrd"@]) {
        Some(DebitDraftView { usage: d.usage.push(t), ..d })
    } else if ends(st, seq!["DrctDbtTxInf"@, "Purp"@, "Cd"@]) {
        Some(DebitDraftView { purpose_code: Some(t), ..d })
    } else if ends(st, seq!["DrctDbtTxInf"@, "DrctDbtTx"@, "MndtRltdInf"@, "MndtId"@]) {
        Some(DebitDraftView { mandate_id: Some(t), ..d })
    } else if ends(st, seq!["DrctDbtTxInf"@, "DrctDbtTx"@, "MndtRltdInf"@, "DtOfSgntr"@]) {
        Some(DebitDraftView { mandate_date_of_signature: Some(t), ..d })
    } else {
        Some(d)
    }
}

/// A payment block after a text inside it (outside its direct debits).
pub open spec fn debit_payment_text(p: DebitPaymentView, st: Seq<Seq<char>>, t: Seq<char>) -> DebitPaymentView {
    if ends(st, seq!["PmtInf"@, "PmtInfId"@]) {
        DebitPaymentView { payment_info_id: Some(t), ..p }
    } else if ends(st, seq!["PmtInf"@, "Cdtr"@, "Nm"@]) {
        DebitPaymentView { name: Some(t), ..p }
    } else if ends(st, seq!["PmtInf"@, "CdtrAcct"@, "Id"@, "IBAN"@]) {
        DebitPaymentView { iban: Some(t), ..p }
    } else if ends(st, seq!["PmtInf"@, "CdtrAgt"@, "FinInstnId"@, "BIC"@]) || ends(
        st,
        seq!["PmtInf"@, "CdtrAgt"@, "FinInstnId"@, "BICFI"@],
    ) {
        DebitPaymentView { bic: Some(t), ..p }
    } else if ends(st, seq!["PmtInf"@, "ReqdColltnDt"@]) || ends(st, seq!["PmtInf"@, "ReqdColltnDt"@, "Dt"@]) {
        DebitPaymentView { collection_date: Some(t), ..p }
    } else if ends(st, seq!["PmtInf"@, "ReqdColltnDt"@, "DtTm"@]) {
        DebitPaymentView { collection_date: Some(if t.len() > 10 { t.take(10) } else { t }), ..p }
    } else if ends(st, seq!["PmtInf"@, "BtchBookg"@]) {
        DebitPaymentView { batch_book: Some(t), ..p }
    } else if ends(st, seq!["PmtInf"@, "PmtTpInf"@, "LclInstrm"@, "Cd"@]) {
        DebitPaymentView { debit_type: Some(t), ..p }
    } else if ends(st, seq!["PmtInf"@, "PmtTpInf"@, "SeqTp"@]) {
        DebitPaymentView { sequence_type: Some(t), ..p }
    } else if ends(st, seq!["PmtInf"@, "CdtrSchmeId"@, "Id"@, "PrvtId"@, "Othr"@, "Id"@]) || ends(
        st,
        seq!["PmtInf"@, "CdtrSchmeId"@, "Id"@, "PrvtId"@, "OthrId"@, "Id"@],
    ) {
        DebitPaymentView { creditor_id: Some(t), ..p }
    } else {
        p
    }
}

pub open spec fn debit_state_text(st: DebitState, raw: Seq<char>) -> Option<DebitState> {
    let t = trim(raw);
    if t.len() == 0 {
        Some(st)
    } else {
        match st.debit {
            Some(d) => match debit_text(d, st.stack, t) {
                None => None,
                Some(d2) => Some(DebitState { debit: Some(d2), ..st }),
            },
            None => match st.payment {
                Some(p) => Some(DebitState { payment: Some(debit_payment_text(p, st.stack, t)), ..st }),
                None => if ends(st.stack, seq!["GrpHdr"@, "InitgPty"@, "Nm"@]) {
                    Some(DebitState { initiator: Some(t), ..st })
                } else {
                    Some(st)
                },
            },
        }
    }
}

/// A direct debit from its payment block and its own data; the creditor
/// is named by the initiating party where the block names no creditor.
pub open spec fn debit_from_parts(p: DebitPaymentView, d: DebitDraftView, initiator: Option<Seq<char>>) -> DebitView {
    DebitView {
        creditor_name: if p.name is Some { p.name } else { initiator },
        creditor_iban: p.iban,
        creditor_bic: p.bic,
        debtor_name: d.name,
        debtor_iban: d.iban,
        debtor_bic: d.bic,
        value: d.value,
        usage: d.usage,
        collection_date: p.collection_date,
        end_to_end_id: d.end_to_end_id,
        payment_info_id: p.payment_info_id,
        purpose_code: d.purpose_code,
        debit_type: p.debit_type,
        sequence_type: p.sequence_type,
        creditor_id: p.creditor_id,
        mandate_id: d.mandate_id,
        mandate_date_of_signature: d.mandate_date_of_signature,
        batch_book: p.batch_book,
    }
}

pub open spec fn debit_end(st: DebitState, name: Seq<char>) -> DebitState {
    let n = local_name(name);
    let s1 = if n == "DrctDbtTxInf"@ {
        match (st.payment, st.debit) {
            (Some(p), Some(d)) => DebitState {
                debits: st.debits.push(debit_from_parts(p, d, st.initiator)),
                debit: None,
                ..st
            },
            _ => DebitState { debit: None, ..st },
        }
    } else if n == "PmtInf"@ {
        DebitState { payment: None, ..st }
    } else {
        st
    };
    DebitState { stack: if s1.stack.len() > 0 { s1.stack.drop_last() } else { s1.stack }, ..s1 }
}

pub open spec fn debit_step(st: DebitState, e: XmlEvent) -> Option<Result<DebitState, ErrorView>> {
    match e {
        XmlEvent::Start(tag) => Some(debit_start(st, tag)),
        XmlEvent::Empty(tag) => Some(debit_currency(st, tag)),
        XmlEvent::Text(t) => match debit_state_text(st, t@) {
            None => None,
            Some(s) => Some(Ok(s)),
        },
        XmlEvent::End(n) => Some(Ok(debit_end(st, n@))),
        _ => Some(Ok(st)),
    }
}

/// The direct debits read from events, from state `st`: those complete at
/// the end of the document, or the first error; `None` where an amount
/// overflows.
pub open spec fn debit_fold(events: Seq<XmlEvent>, st: DebitState) -> Option<Result<Seq<DebitView>, ErrorView>>
    decreases events.len(),
{
    if events.len() == 0 {
        Some(Ok(st.debits))
    } else {
        match events[0] {
            XmlEvent::Eof => Some(Ok(st.debits)),
            XmlEvent::Error(m) => Some(Err(read_error("failed to parse PAIN.008 document"@, m@))),
            _ => match debit_step(st, events[0]) {
                None => None,
                Some(Err(e)) => Some(Err(e)),
                Some(Ok(s2)) => debit_fold(events.drop_first(), s2),
            },
        }
    }
}

/// A direct debit of a PAIN.008 document.
#[derive(Debug, Clone)]
pub struct Pain008DirectDebit {
    pub creditor: Konto,
    pub debtor: Konto,
    pub value: Option<Value>,
    pub usage: Vec<String>,
    pub collection_date: Option<String>,
    pub end_to_end_id: Option<String>,
    pub payment_info_id: Option<String>,
    pub purpose_code: Option<String>,
    pub debit_type: Option<String>,
    pub sequence_type: Option<String>,
    pub creditor_id: Option<String>,
    pub mandate_id: Option<String>,
    pub mandate_date_of_signature: Option<String>,
    pub batch_book: Option<String>,
}

pub open spec fn debit_view(t: Pain008DirectDebit) -> DebitView {
    DebitView {
        creditor_name: opt_view(t.creditor.name),
        creditor_iban: opt_view(t.creditor.iban),
        creditor_bic: opt_view(t.creditor.bic),
        debtor_name: opt_view(t.debtor.name),
        debtor_iban: opt_view(t.debtor.iban),
        debtor_bic: opt_view(t.debtor.bic),
        value: value_view(t.value),
        usage: str_views(t.usage@),
        collection_date: opt_view(t.collection_date),
        end_to_end_id: opt_view(t.end_to_end_id),
        payment_info_id: opt_view(t.payment_info_id),
        purpose_code: opt_view(t.purpose_code),
        debit_type: opt_view(t.debit_type),
        sequence_type: opt_view(t.sequence_type),
        creditor_id: opt_view(t.creditor_id),
        mandate_id: opt_view(t.mandate_id),
        mandate_date_of_signature: opt_view(t.mandate_date_of_signature),
        batch_book: opt_view(t.batch_book),
    }
}

/// The direct debits are those read, with plain accounts.
pub open spec fn debits_are(ts: Seq<Pain008DirectDebit>, vs: Seq<DebitView>) -> bool {
    &&& ts.len() == vs.len()
    &&& forall|i: int| 0 <= i < ts.len() ==> #[trigger] debit_view(ts[i]) == vs[i]
        && plain_account(ts[i].creditor) && plain_account(ts[i].debtor)
}

struct DebitPayment {
    name: Option<String>,
    iban: Option<String>,
    bic: Option<String>,
    payment_info_id: Option<String>,
    collection_date: Option<String>,
    batch_book: Option<String>,
    debit_type: Option<String>,
    sequence_type: Option<String>,
    creditor_id: Option<String>,
}

struct DebitDraft {
    name: Option<String>,
    iban: Option<String>,
    bic: Option<String>,
    value: Option<Value>,
    usage: Vec<String>,
    end_to_end_id: Option<String>,
    purpose_code: Option<String>,
    mandate_id: Option<String>,
    mandate_date_of_signature: Option<String>,
}

spec fn payment_view(p: DebitPayment) -> DebitPaymentView {
    DebitPaymentView {
        name: opt_view(p.name),
        iban: opt_view(p.iban),
        bic: opt_view(p.bic),
        payment_info_id: opt_view(p.payment_info_id),
        collection_date: opt_view(p.collection_date),
        batch_book: opt_view(p.batch_book),
        debit_type: opt_view(p.debit_type),
        sequence_type: opt_view(p.sequence_type),
        creditor_id: opt_view(p.creditor_id),
    }
}

spec fn draft_view(d: DebitDraft) -> DebitDraftView {
    DebitDraftView {
        name: opt_view(d.name),
        iban: opt_view(d.iban),
        bic: opt_view(d.bic),
        value: value_view(d.value),
        usage: str_views(d.usage@),
        end_to_end_id: opt_view(d.end_to_end_id),
        purpose_code: opt_view(d.purpose_code),
        mandate_id: opt_view(d.mandate_id),
        mandate_date_of_signature: opt_view(d.mandate_date_of_signature),
    }
}

struct DebitParser {
    stack: Vec<String>,
    debits: Vec<Pain008DirectDebit>,
    initiator: Option<String>,
    payment: Option<DebitPayment>,
    debit: Option<DebitDraft>,
}

spec fn parser_state(p: DebitParser) -> DebitState {
    DebitState {
        stack: str_views(p.stack@),
        debits: p.debits@.map_values(|t: Pain008DirectDebit| debit_view(t)),
        initiator: opt_view(p.initiator),
        payment: match p.payment {
            Some(x) => Some(payment_view(x)),
            None => None,
        },
        debit: match p.debit {
            Some(x) => Some(draft_view(x)),
            None => None,
        },
    }
}

spec fn plain_debits(p: DebitParser) -> bool {
    forall|i: int| 0 <= i < p.debits@.len() ==> plain_account(#[trigger] p.debits@[i].creditor)
        && plain_account(p.debits@[i].debtor)
}

fn ends6(stack: &[String], a: &str, b: &str, c: &str, d: &str, e: &str, f: &str) -> (r: bool)
    ensures
        r == ends(str_views(stack@), seq![a@, b@, c@, d@, e@, f@]),
{
    let v = vec![a, b, c, d, e, f];
    assert(v@.map_values(|x: &str| x@) =~= seq![a@, b@, c@, d@, e@, f@]);
    ends_with_path(stack, v.as_slice())
}

impl DebitParser {
    fn currency(&mut self, tag: &XmlTag, n: &str) -> (r: HbciResult<()>)
        requires
            n@ == local_name(tag.name@),
        ensures
            match debit_currency(parser_state(*old(self)), *tag) {
                Ok(s) => r is Ok && parser_state(*final(self)) == s,
                Err(e) => r matches Err(x) && x@ == e,
            },
            final(self).debits == old(self).debits,
            final(self).stack == old(self).stack,
    {
        if self.debit.is_some() && str_eq(n, "InstdAmt") {
            match pain_tag_attr(tag, "Ccy") {
                Err(e) => {
                    return Err(e);
                },
                Ok(None) => {},
                Ok(Some(c)) => {
                    let mut d = self.debit.take().unwrap();
                    d.value = Some(Value { value: String::new(), curr: Some(c) });
                    self.debit = Some(d);
                },
            }
        }
        Ok(())
    }

    fn start(&mut self, tag: &XmlTag) -> (r: HbciResult<()>)
        ensures
            match debit_start(parser_state(*old(self)), *tag) {
                Ok(s) => r is Ok && parser_state(*final(self)) == s,
                Err(e) => r matches Err(x) && x@ == e,
            },
            final(self).debits == old(self).debits,
    {
        let n = local_name_of(tag.name.as_str());
        if str_eq(n.as_str(), "PmtInf") {
            self.payment = Some(DebitPayment {
                name: None,
                iban: None,
                bic: None,
                payment_info_id: None,
                collection_date: None,
                batch_book: None,
                debit_type: None,
                sequence_type: None,
                creditor_id: None,
            });
        } else if self.payment.is_some() && str_eq(n.as_str(), "DrctDbtTxInf") {
            let d = DebitDraft {
                name: None,
                iban: None,
                bic: None,
                value: None,
                usage: Vec::new(),
                end_to_end_id: None,
                purpose_code: None,
                mandate_id: None,
                mandate_date_of_signature: None,
            };
            assert(str_views(d.usage@) =~= seq![]);
            self.debit = Some(d);
        } else {
            match self.currency(tag, n.as_str()) {
                Ok(()) => {},
                Err(e) => {
                    return Err(e);
                },
            }
        }
        let ghost before = self.stack@;
        let ghost ng = n;
        self.stack.push(n);
        proof {
            lemma_str_views_push(before, ng);
        }
        Ok(())
    }

    fn debit_text(d: &mut DebitDraft, stack: &[String], t: &str) -> (ok: bool)
        ensures
            match debit_text(draft_view(*old(d)), str_views(stack@), t@) {
                Some(x) => ok && draft_view(*final(d)) == x,
                None => !ok,
            },
    {
        if ends3(stack, "DrctDbtTxInf", "PmtId", "EndToEndId") {
            d.end_to_end_id = Some(t.to_string());
        } else if ends3(stack, "DrctDbtTxInf", "Dbtr", "Nm") {
            d.name = Some(t.to_string());
        } else if ends4(stack, "DrctDbtTxInf", "DbtrAcct", "Id", "IBAN") {
            d.iban = Some(t.to_string());
        } else if ends4(stack, "DrctDbtTxInf", "DbtrAgt", "FinInstnId", "BIC") || ends4(
            stack,
            "DrctDbtTxInf",
            "DbtrAgt",
            "FinInstnId",
            "BICFI",
        ) {
            d.bic = Some(t.to_string());
        } else if ends2(stack, "DrctDbtTxInf", "InstdAmt") {
            if !crate::sepa::amount::amount_fits(t) {
                return false;
            }
            let amount = normalize_decimal_amount(t);
            match d.value.take() {
                Some(v) => {
                    d.value = Some(Value { value: amount, curr: v.curr });
                },
                None => {
                    d.value = Some(Value { value: amount, curr: None });
                },
            }
        } else if ends3(stack, "DrctDbtTxInf", "RmtInf", "Ustrd") {
            let ghost before = d.usage@;
            let ts = t.to_string();
            let ghost tg = ts;
            d.usage.push(ts);
            proof {
                lemma_str_views_push(before, tg);
            }
        } else if ends3(stack, "DrctDbtTxInf", "Purp", "Cd") {
            d.purpose_code = Some(t.to_string());
        } else if ends4(stack, "DrctDbtTxInf", "DrctDbtTx", "MndtRltdInf", "MndtId") {
            d.mandate_id = Some(t.to_string());
        } else if ends4(stack, "DrctDbtTxInf", "DrctDbtTx", "MndtRltdInf", "DtOfSgntr") {
            d.mandate_date_of_signature = Some(t.to_string());
        }
        true
    }

    fn payment_text(p: &mut DebitPayment, stack: &[String], t: &str)
        ensures
            payment_view(*final(p)) == debit_payment_text(payment_view(*old(p)), str_views(stack@), t@),
    {
        if ends2(stack, "PmtInf", "PmtInfId") {
            p.payment_info_id = Some(t.to_string());
        } else if ends3(stack, "PmtInf", "Cdtr", "Nm") {
            p.name = Some(t.to_string());
        } else if ends4(stack, "PmtInf", "CdtrAcct", "Id", "IBAN") {
            p.iban = Some(t.to_string());
        } else if ends4(stack, "PmtInf", "CdtrAgt", "FinInstnId", "BIC") || ends4(
            stack,
            "PmtInf",
            "CdtrAgt",
            "FinInstnId",
            "BICFI",
        ) {
            p.bic = Some(t.to_string());
        } else if ends2(stack, "PmtInf", "ReqdColltnDt") || ends3(stack, "PmtInf", "ReqdColltnDt", "Dt") {
            p.collection_date = Some(t.to_string());
        } else if ends3(stack, "PmtInf", "ReqdColltnDt", "DtTm") {
            p.collection_date = Some(first_ten(t));
        } else if ends2(stack, "PmtInf", "BtchBookg") {
            p.batch_book = Some(t.to_string());
        } else if ends4(stack, "PmtInf", "PmtTpInf", "LclInstrm", "Cd") {
            p.debit_type = Some(t.to_string());
        } else if ends3(stack, "PmtInf", "PmtTpInf", "SeqTp") {
            p.sequence_type = Some(t.to_string());
        } else if ends6(stack, "PmtInf", "CdtrSchmeId", "Id", "PrvtId", "Othr", "Id") || ends6(
            stack,
            "PmtInf",
            "CdtrSchmeId",
            "Id",
            "PrvtId",
            "OthrId",
            "Id",
        ) {
            p.creditor_id = Some(t.to_string());
        }
    }

    fn text(&mut self, raw: &str) -> (ok: bool)
        ensures
            match debit_state_text(parser_state(*old(self)), raw@) {
                Some(s) => ok && parser_state(*final(self)) == s,
                None => !ok,
            },
            final(self).debits == old(self).debits,
    {
        let t = trim_str(raw);
        if t.as_str().unicode_len() == 0 {
            return true;
        }
        match self.debit.take() {
            Some(mut d) => {
                let ok = Self::debit_text(&mut d, self.stack.as_slice(), t.as_str());
                self.debit = Some(d);
                ok
            },
            None => {
                match self.payment.take() {
                    Some(mut p) => {
                        Self::payment_text(&mut p, self.stack.as_slice(), t.as_str());
                        self.payment = Some(p);
                    },
                    None => {
                        if ends3(self.stack.as_slice(), "GrpHdr", "InitgPty", "Nm") {
                            self.initiator = Some(t);
                        }
                    },
                }
                true
            },
        }
    }

    fn end(&mut self, name: &str)
        requires
            plain_debits(*old(self)),
        ensures
            parser_state(*final(self)) == debit_end(parser_state(*old(self)), name@),
            plain_debits(*final(self)),
    {
        let n = local_name_of(name);
        if str_eq(n.as_str(), "DrctDbtTxInf") {
            let d = self.debit.take();
            match (&self.payment, d) {
                (Some(p), Some(d)) => {
                    let mut creditor = Konto::default();
                    creditor.name = match &p.name {
                        Some(x) => Some(x.clone()),
                        None => self.initiator.clone(),
                    };
                    creditor.iban = p.iban.clone();
                    creditor.bic = p.bic.clone();
                    let mut debtor = Konto::default();
                    debtor.name = d.name;
                    debtor.iban = d.iban;
                    debtor.bic = d.bic;
                    let t = Pain008DirectDebit {
                        creditor,
                        debtor,
                        value: d.value,
                        usage: d.usage,
                        collection_date: p.collection_date.clone(),
                        end_to_end_id: d.end_to_end_id,
                        payment_info_id: p.payment_info_id.clone(),
                        purpose_code: d.purpose_code,
                        debit_type: p.debit_type.clone(),
                        sequence_type: p.sequence_type.clone(),
                        creditor_id: p.creditor_id.clone(),
                        mandate_id: d.mandate_id,
                        mandate_date_of_signature: d.mandate_date_of_signature,
                        batch_book: p.batch_book.clone(),
                    };
                    let ghost before = self.debits@;
                    let ghost tg = t;
                    self.debits.push(t);
                    assert(self.debits@.map_values(|x: Pain008DirectDebit| debit_view(x)) =~= before.map_values(
                        |x: Pain008DirectDebit| debit_view(x),
                    ).push(debit_view(tg)));
                },
                _ => {},
            }
        } else if str_eq(n.as_str(), "PmtInf") {
            self.payment = None;
        }
        if self.stack.len() > 0 {
            let ghost before = self.stack@;
            self.stack.pop();
            assert(str_views(self.stack@) =~= str_views(before).drop_last());
        }
    }
}

/// The direct debits of a PAIN.008 document from its events, where no
/// amount overflows (`None` where one does).
fn run_pain_008(events: &[XmlEvent]) -> (r: Option<HbciResult<Vec<Pain008DirectDebit>>>)
    ensures
        match debit_fold(events@, debit_initial()) {
            None => r is None,
            Some(Ok(vs)) => r matches Some(Ok(ts)) && debits_are(ts@, vs),
            Some(Err(e)) => r matches Some(Err(x)) && x@ == e,
        },
{
    let mut p = DebitParser { stack: Vec::new(), debits: Vec::new(), initiator: None, payment: None, debit: None };
    assert(parser_state(p) =~= debit_initial()) by {
        assert(str_views(p.stack@) =~= seq![]);
        assert(p.debits@.map_values(|t: Pain008DirectDebit| debit_view(t)) =~= seq![]);
    }
    let mut i: usize = 0;
    assert(events@.skip(0) =~= events@);
    while i < events.len()
        invariant
            i <= events@.len(),
            plain_debits(p),
            debit_fold(events@, debit_initial()) == debit_fold(events@.skip(i as int), parser_state(p)),
        decreases events.len() - i,
    {
        assert(events@.skip(i as int)[0] == events@[i as int]);
        assert(events@.skip(i as int).drop_first() =~= events@.skip(i + 1));
        match &events[i] {
            XmlEvent::Eof => {
                let ts = p.debits;
                assert(debits_are(ts@, parser_state(p).debits));
                return Some(Ok(ts));
            },
            XmlEvent::Error(m) => {
                return Some(Err(HbciError::with_source(HbciErrorKind::Protocol, "failed to parse PAIN.008 document", m.as_str())));
            },
            XmlEvent::Start(tag) => {
                match p.start(tag) {
                    Ok(()) => {},
                    Err(e) => {
                        return Some(Err(e));
                    },
                }
            },
            XmlEvent::Empty(tag) => {
                let n = local_name_of(tag.name.as_str());
                match p.currency(tag, n.as_str()) {
                    Ok(()) => {},
                    Err(e) => {
                        return Some(Err(e));
                    },
                }
            },
            XmlEvent::Text(t) => {
                if !p.text(t.as_str()) {
                    return None;
                }
            },
            XmlEvent::End(n) => {
                p.end(n.as_str());
            },
            XmlEvent::GeneralRef(_) => {},
            XmlEvent::Other => {},
        }
        i += 1;
    }
    let ts = p.debits;
    assert(debits_are(ts@, parser_state(p).debits));
    Some(Ok(ts))
}

/// The direct debits of a PAIN.008 document, given its events: one for
/// each `DrctDbtTxInf` inside a `PmtInf`, with the creditor account (named
/// by the initiating party where the block names no creditor), collection
/// date, payment id, batch booking, local instrument, sequence type and
/// creditor id of its block, and its own debtor account, amount,
/// remittance lines, end-to-end id, purpose code and mandate. The amounts
/// must not overflow `i64` when read as cents.
pub fn pain_008_direct_debits_from_events(events: &[XmlEvent]) -> (r: HbciResult<Vec<Pain008DirectDebit>>)
    requires
        debit_fold(events@, debit_initial()) is Some,
    ensures
        match debit_fold(events@, debit_initial()) {
            Some(Ok(vs)) => r matches Ok(ts) && debits_are(ts@, vs),
            Some(Err(e)) => r matches Err(x) && x@ == e,
            None => false,
        },
{
    match run_pain_008(events) {
        Some(r) => r,
        None => Err(HbciError::new(HbciErrorKind::Protocol, "PAIN.008 amount out of range")),
    }
}

/// The direct debits of a PAIN.008 document (see
/// `pain_008_direct_debits_from_events`); its amounts must not overflow.
pub fn parse_pain_008_direct_debits(xml: &str) -> (r: HbciResult<Vec<Pain008DirectDebit>>)
    requires
        debit_fold(xml_events_of(xml@), debit_initial()) is Some,
    ensures
        match debit_fold(xml_events_of(xml@), debit_initial()) {
            Some(Ok(vs)) => r matches Ok(ts) && debits_are(ts@, vs),
            Some(Err(e)) => r matches Err(x) && x@ == e,
            None => false,
        },
{
    let events = xml_events(xml);
    pain_008_direct_debits_from_events(events.as_slice())
}

/// The direct debits of a PAIN.008 document, where none of its amounts
/// overflows `i64` when read as cents; `None` where one does.
pub fn parse_pain_008_direct_debits_checked(xml: &str) -> (r: Option<HbciResult<Vec<Pain008DirectDebit>>>)
    ensures
        match debit_fold(xml_events_of(xml@), debit_initial()) {
            None => r is None,
            Some(Ok(vs)) => r matches Some(Ok(ts)) && debits_are(ts@, vs),
            Some(Err(e)) => r matches Some(Err(x)) && x@ == e,
        },
{
    let events = xml_events(xml);
    match run_pain_008(events.as_slice()) {
        None => None,
        Some(_) => Some(parse_pain_008_direct_debits(xml)),
    }
}

} // verus!
