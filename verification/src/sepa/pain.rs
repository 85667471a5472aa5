//! Reading the credit transfers of a PAIN.001 document.

use vstd::prelude::*;
use crate::error::{ErrorView, HbciError, HbciErrorKind, HbciResult};
use crate::gv_result::account::{opt_view, Konto, Value};
use crate::gv_result::status::str_views;
use crate::sepa::amount::{normalize_decimal_amount, normalized_amount, sepa_cents_fit};
use crate::text::{chars_of, slice_chars, str_eq, string_of, trim, trim_str};
use crate::xml::{attr_value, checked_tag_attr, read_error, xml_events, xml_events_of, XmlEvent, XmlTag};

verus! {

/// An amount with its currency, as plain values.
pub ghost struct ValueView {
    pub value: Seq<char>,
    pub curr: Option<Seq<char>>,
}

/// What a payment information block gives its transfers.
pub ghost struct PaymentView {
    pub iban: Option<Seq<char>>,
    pub bic: Option<Seq<char>>,
    pub payment_info_id: Option<Seq<char>>,
    pub execution_date: Option<Seq<char>>,
    pub batch_book: Option<Seq<char>>,
}

/// A transfer being read.
pub ghost struct DraftView {
    pub name: Option<Seq<char>>,
    pub iban: Option<Seq<char>>,
    pub bic: Option<Seq<char>>,
    pub end_to_end_id: Option<Seq<char>>,
    pub purpose_code: Option<Seq<char>>,
    pub value: Option<ValueView>,
    pub usage: Seq<Seq<char>>,
}

/// A transfer read, as plain values: the accounts by IBAN, BIC and name.
pub ghost struct TransferView {
    pub source_iban: Option<Seq<char>>,
    pub source_bic: Option<Seq<char>>,
    pub source_name: Option<Seq<char>>,
    pub dest_name: Option<Seq<char>>,
    pub dest_iban: Option<Seq<char>>,
    pub dest_bic: Option<Seq<char>>,
    pub value: Option<ValueView>,
    pub usage: Seq<Seq<char>>,
    pub execution_date: Option<Seq<char>>,
    pub end_to_end_id: Option<Seq<char>>,
    pub payment_info_id: Option<Seq<char>>,
    pub purpose_code: Option<Seq<char>>,
    pub batch_book: Option<Seq<char>>,
}

/// Where reading stands: the open elements (by local name), the transfers
/// read, the initiating party's name, the open payment block and transfer.
pub ghost struct PainState {
    pub stack: Seq<Seq<char>>,
    pub transfers: Seq<TransferView>,
    pub initiator: Option<Seq<char>>,
    pub payment: Option<PaymentView>,
    pub transfer: Option<DraftView>,
}

pub open spec fn pain_initial() -> PainState {
    PainState { stack: seq![], transfers: seq![], initiator: None, payment: None, transfer: None }
}

pub open spec fn empty_payment() -> PaymentView {
    PaymentView { iban: None, bic: None, payment_info_id: None, execution_date: None, batch_book: None }
}

pub open spec fn empty_draft() -> DraftView {
    DraftView { name: None, iban: None, bic: None, end_to_end_id: None, purpose_code: None, value: None, usage: seq![] }
}

/// The part of an element name after its last `:`.
pub open spec fn local_name(n: Seq<char>) -> Seq<char>
    decreases n.len(),
{
    if n.len() == 0 {
        n
    } else if n.last() == ':' {
        seq![]
    } else {
        local_name(n.drop_last()).push(n.last())
    }
}

/// The open elements end with `suffix`.
pub open spec fn ends(stack: Seq<Seq<char>>, suffix: Seq<Seq<char>>) -> bool {
    suffix.len() <= stack.len() && stack.skip(stack.len() - suffix.len()) == suffix
}

/// An attribute of a tag.
pub open spec fn pain_attr(tag: XmlTag, name: Seq<char>) -> Result<Option<Seq<char>>, ErrorView> {
    attr_value(tag.checked_attrs@, name, "failed to read XML attribute"@, "failed to decode XML attribute"@)
}

/// The transfer after its currency attribute, where the tag is an
/// `InstdAmt` inside a transfer.
pub open spec fn with_currency(st: PainState, tag: XmlTag) -> Result<PainState, ErrorView> {
    match st.transfer {
        Some(d) => if local_name(tag.name@) == "InstdAmt"@ {
            match pain_attr(tag, "Ccy"@) {
                Err(e) => Err(e),
                Ok(None) => Ok(st),
                Ok(Some(c)) => Ok(PainState {
                    transfer: Some(DraftView { value: Some(ValueView { value: seq![], curr: Some(c) }), ..d }),
                    ..st
                }),
            }
        } else {
            Ok(st)
        },
        None => Ok(st),
    }
}

pub open spec fn pain_start(st: PainState, tag: XmlTag) -> Result<PainState, ErrorView> {
    let n = local_name(tag.name@);
    let s1 = if n == "PmtInf"@ {
        Ok(PainState { payment: Some(empty_payment()), ..st })
    } else if st.payment is Some && n == "CdtTrfTxInf"@ {
        Ok(PainState { transfer: Some(empty_draft()), ..st })
    } else {
        with_currency(st, tag)
    };
    match s1 {
        Ok(s) => Ok(PainState { stack: s.stack.push(n), ..s }),
        Err(e) => Err(e),
    }
}

/// A transfer after a text inside it; `None` where the text is an amount
/// whose reading overflows.
pub open spec fn transfer_text(d: DraftView, st: Seq<Seq<char>>, t: Seq<char>) -> Option<DraftView> {
    if ends(st, seq!["CdtTrfTxInf"@, "PmtId"@, "EndToEndId"@]) {
        Some(DraftView { end_to_end_id: Some(t), ..d })
    } else if ends(st, seq!["CdtTrfTxInf"@, "Cdtr"@, "Nm"@]) {
        Some(DraftView { name: Some(t), ..d })
    } else if ends(st, seq!["CdtTrfTxInf"@, "CdtrAcct"@, "Id"@, "IBAN"@]) {
        Some(DraftView { iban: Some(t), ..d })
    } else if ends(st, seq!["CdtTrfTxInf"@, "CdtrAgt"@, "FinInstnId"@, "BIC"@]) || ends(
        st,
        seq!["CdtTrfTxInf"@, "CdtrAgt"@, "FinInstnId"@, "BICFI"@],
    ) {
        Some(DraftView { bic: Some(t), ..d })
    } else if ends(st, seq!["CdtTrfTxInf"@, "Amt"@, "InstdAmt"@]) {
        if !sepa_cents_fit(t) {
            None
        } else {
            Some(DraftView {
                value: Some(match d.value {
                    Some(v) => ValueView { value: normalized_amount(t), ..v },
                    None => ValueView { value: normalized_amount(t), curr: None },
                }),
                ..d
            })
        }
    } else if ends(st, seq!["CdtTrfTxInf"@, "RmtInf"@, "Ustrd"@]) {
        Some(DraftView { usage: d.usage.push(t), ..d })
    } else if ends(st, seq!["CdtTrfTxInf"@, "Purp"@, "Cd"@]) {
        Some(DraftView { purpose_code: Some(t), ..d })
    } else {
        Some(d)
    }
}

/// A payment block after a text inside it (outside its transfers).
pub open spec fn payment_text(p: PaymentView, st: Seq<Seq<char>>, t: Seq<char>) -> PaymentView {
    if ends(st, seq!["PmtInf"@, "PmtInfId"@]) {
        PaymentView { payment_info_id: Some(t), ..p }
    } else if ends(st, seq!["PmtInf"@, "DbtrAcct"@, "Id"@, "IBAN"@]) {
        PaymentView { iban: Some(t), ..p }
    } else if ends(st, seq!["PmtInf"@, "DbtrAgt"@, "FinInstnId"@, "BIC"@]) || ends(
        st,
        seq!["PmtInf"@, "DbtrAgt"@, "FinInstnId"@, "BICFI"@],
    ) {
        PaymentView { bic: Some(t), ..p }
    } else if ends(st, seq!["PmtInf"@, "ReqdExctnDt"@]) || ends(st, seq!["PmtInf"@, "ReqdExctnDt"@, "Dt"@]) {
        PaymentView { execution_date: Some(t), ..p }
    } else if ends(st, seq!["PmtInf"@, "ReqdExctnDt"@, "DtTm"@]) {
        PaymentView { execution_date: Some(if t.len() > 10 { t.take(10) } else { t }), ..p }
    } else if ends(st, seq!["PmtInf"@, "BtchBookg"@]) {
        PaymentView { batch_book: Some(t), ..p }
    } else {
        p
    }
}

/// After a text: its trimmed content goes to the open transfer, else the
/// open payment block, else (under `GrpHdr/InitgPty/Nm`) the initiating
/// party's name. `None` where an amount overflows.
pub open spec fn pain_text(st: PainState, raw: Seq<char>) -> Option<PainState> {
    let t = trim(raw);
    if t.len() == 0 {
        Some(st)
    } else {
        match st.transfer {
            Some(d) => match transfer_text(d, st.stack, t) {
                None => None,
                Some(d2) => Some(PainState { transfer: Some(d2), ..st }),
            },
            None => match st.payment {
                Some(p) => Some(PainState { payment: Some(payment_text(p, st.stack, t)), ..st }),
                None => if ends(st.stack, seq!["GrpHdr"@, "InitgPty"@, "Nm"@]) {
                    Some(PainState { initiator: Some(t), ..st })
                } else {
                    Some(st)
                },
            },
        }
    }
}

/// A transfer from its payment block, its own data and the initiating
/// party's name (the name of the source account).
pub open spec fn from_parts(p: PaymentView, d: DraftView, initiator: Option<Seq<char>>) -> TransferView {
    TransferView {
        source_iban: p.iban,
        source_bic: p.bic,
        source_name: initiator,
        dest_name: d.name,
        dest_iban: d.iban,
        dest_bic: d.bic,
        value: d.value,
        usage: d.usage,
        execution_date: p.execution_date,
        end_to_end_id: d.end_to_end_id,
        payment_info_id: p.payment_info_id,
        purpose_code: d.purpose_code,
        batch_book: p.batch_book,
    }
}

pub open spec fn pain_end(st: PainState, name: Seq<char>) -> PainState {
    let n = local_name(name);
    let s1 = if n == "CdtTrfTxInf"@ {
        match (st.payment, st.transfer) {
            (Some(p), Some(d)) => PainState {
                transfers: st.transfers.push(from_parts(p, d, st.initiator)),
                transfer: None,
                ..st
            },
            _ => PainState { transfer: None, ..st },
        }
    } else if n == "PmtInf"@ {
        PainState { payment: None, ..st }
    } else {
        st
    };
    PainState { stack: if s1.stack.len() > 0 { s1.stack.drop_last() } else { s1.stack }, ..s1 }
}

/// One event; `None` where an amount overflows.
pub open spec fn pain_step(st: PainState, e: XmlEvent) -> Option<Result<PainState, ErrorView>> {
    match e {
        XmlEvent::Start(tag) => Some(pain_start(st, tag)),
        XmlEvent::Empty(tag) => Some(with_currency(st, tag)),
        XmlEvent::Text(t) => match pain_text(st, t@) {
            None => None,
            Some(s) => Some(Ok(s)),
        },
        XmlEvent::End(n) => Some(Ok(pain_end(st, n@))),
        _ => Some(Ok(st)),
    }
}

/// The transfers read from events, from state `st`: those complete at the
/// end of the document, or the first error; `None` where an amount
/// overflows.
pub open spec fn pain_fold(events: Seq<XmlEvent>, st: PainState) -> Option<Result<Seq<TransferView>, ErrorView>>
    decreases events.len(),
{
    if events.len() == 0 {
        Some(Ok(st.transfers))
    } else {
        match events[0] {
            XmlEvent::Eof => Some(Ok(st.transfers)),
            XmlEvent::Error(m) => Some(Err(read_error("failed to parse PAIN.001 document"@, m@))),
            _ => match pain_step(st, events[0]) {
                None => None,
                Some(Err(e)) => Some(Err(e)),
                Some(Ok(s2)) => pain_fold(events.drop_first(), s2),
            },
        }
    }
}

/// A credit transfer of a PAIN.001 document.
#[derive(Debug, Clone)]
pub struct Pain001Transfer {
    pub source: Konto,
    pub destination: Konto,
    pub value: Option<Value>,
    pub usage: Vec<String>,
    pub execution_date: Option<String>,
    pub end_to_end_id: Option<String>,
    pub payment_info_id: Option<String>,
    pub purpose_code: Option<String>,
    pub batch_book: Option<String>,
}

/// An account with nothing but IBAN, BIC and name (and the default
/// currency).
pub open spec fn plain_account(k: Konto) -> bool {
    &&& k.country is None && k.blz is None && k.number is None && k.subnumber is None
    &&& k.customer_id is None && k.name2 is None && k.creditorid is None
    &&& k.acctype is None && k.account_type is None && k.limit is None && k.allowed_gvs@.len() == 0
    &&& opt_view(k.curr) == Some("EUR"@)
}

pub open spec fn value_view(v: Option<Value>) -> Option<ValueView> {
    match v {
        Some(x) => Some(ValueView { value: x.value@, curr: opt_view(x.curr) }),
        None => None,
    }
}

pub open spec fn transfer_view(t: Pain001Transfer) -> TransferView {
    TransferView {
        source_iban: opt_view(t.source.iban),
        source_bic: opt_view(t.source.bic),
        source_name: opt_view(t.source.name),
        dest_name: opt_view(t.destination.name),
        dest_iban: opt_view(t.destination.iban),
        dest_bic: opt_view(t.destination.bic),
        value: value_view(t.value),
        usage: str_views(t.usage@),
        execution_date: opt_view(t.execution_date),
        end_to_end_id: opt_view(t.end_to_end_id),
        payment_info_id: opt_view(t.payment_info_id),
        purpose_code: opt_view(t.purpose_code),
        batch_book: opt_view(t.batch_book),
    }
}

/// The transfers are those read, with plain accounts.
pub open spec fn transfers_are(ts: Seq<Pain001Transfer>, vs: Seq<TransferView>) -> bool {
    &&& ts.len() == vs.len()
    &&& forall|i: int| 0 <= i < ts.len() ==> #[trigger] transfer_view(ts[i]) == vs[i]
        && plain_account(ts[i].source) && plain_account(ts[i].destination)
}

struct Payment {
    iban: Option<String>,
    bic: Option<String>,
    payment_info_id: Option<String>,
    execution_date: Option<String>,
    batch_book: Option<String>,
}

struct Draft {
    name: Option<String>,
    iban: Option<String>,
    bic: Option<String>,
    end_to_end_id: Option<String>,
    purpose_code: Option<String>,
    value: Option<Value>,
    usage: Vec<String>,
}

spec fn payment_view(p: Payment) -> PaymentView {
    PaymentView {
        iban: opt_view(p.iban),
        bic: opt_view(p.bic),
        payment_info_id: opt_view(p.payment_info_id),
        execution_date: opt_view(p.execution_date),
        batch_book: opt_view(p.batch_book),
    }
}

spec fn draft_view(d: Draft) -> DraftView {
    DraftView {
        name: opt_view(d.name),
        iban: opt_view(d.iban),
        bic: opt_view(d.bic),
        end_to_end_id: opt_view(d.end_to_end_id),
        purpose_code: opt_view(d.purpose_code),
        value: value_view(d.value),
        usage: str_views(d.usage@),
    }
}

struct PainParser {
    stack: Vec<String>,
    transfers: Vec<Pain001Transfer>,
    initiator: Option<String>,
    payment: Option<Payment>,
    transfer: Option<Draft>,
}

spec fn parser_state(p: PainParser) -> PainState {
    PainState {
        stack: str_views(p.stack@),
        transfers: p.transfers@.map_values(|t: Pain001Transfer| transfer_view(t)),
        initiator: opt_view(p.initiator),
        payment: match p.payment {
            Some(x) => Some(payment_view(x)),
            None => None,
        },
        transfer: match p.transfer {
            Some(x) => Some(draft_view(x)),
            None => None,
        },
    }
}

spec fn plain_transfers(p: PainParser) -> bool {
    forall|i: int| 0 <= i < p.transfers@.len() ==> plain_account(#[trigger] p.transfers@[i].source)
        && plain_account(p.transfers@[i].destination)
}

/// The part of an element name after its last `:`.
pub(crate) fn local_name_of(n: &str) -> (r: String)
    ensures
        r@ == local_name(n@),
{
    let v = chars_of(n);
    let mut i: usize = v.len();
    assert(v@.take(v@.len() as int) =~= v@);
    assert(v@.subrange(v@.len() as int, v@.len() as int) =~= Seq::<char>::empty());
    assert(v@ + Seq::<char>::empty() =~= v@);
    while i > 0 && v[i - 1] != ':'
        invariant
            i <= v@.len(),
            local_name(v@) == local_name(v@.take(i as int)) + v@.subrange(i as int, v@.len() as int),
        decreases i,
    {
        let ghost t = v@.take(i as int);
        assert(t.drop_last() =~= v@.take(i - 1));
        assert(t.last() == v@[i - 1]);
        assert(local_name(t) == local_name(v@.take(i - 1)).push(v@[i - 1]));
        assert(v@.subrange(i - 1, v@.len() as int) =~= seq![v@[i - 1]] + v@.subrange(i as int, v@.len() as int));
        i -= 1;
        assert(local_name(v@) =~= local_name(v@.take(i as int)) + v@.subrange(i as int, v@.len() as int));
    }
    proof {
        if i == 0 {
            assert(v@.take(0) =~= Seq::<char>::empty());
        } else {
            assert(v@.take(i as int).last() == ':');
        }
        assert(local_name(v@) =~= v@.subrange(i as int, v@.len() as int));
    }
    string_of(slice_chars(v.as_slice(), i, v.len()).as_slice())
}

pub(crate) fn ends_with_path(stack: &[String], suffix: &[&str]) -> (b: bool)
    ensures
        b == ends(str_views(stack@), suffix@.map_values(|x: &str| x@)),
{
    let ghost sv = str_views(stack@);
    let ghost xv = suffix@.map_values(|x: &str| x@);
    if suffix.len() > stack.len() {
        return false;
    }
    let total = stack.len();
    let off = total - suffix.len();
    let mut i: usize = 0;
    while i < suffix.len()
        invariant
            total == stack@.len(),
            off + suffix@.len() == stack@.len(),
            sv == str_views(stack@),
            xv == suffix@.map_values(|x: &str| x@),
            i <= suffix@.len(),
            forall|j: int| 0 <= j < i ==> sv[off + j] == xv[j],
        decreases suffix.len() - i,
    {
        assert(off + i < total);
        if !str_eq(stack[off + i].as_str(), suffix[i]) {
            assert(sv.skip(off as int)[i as int] != xv[i as int]);
            return false;
        }
        i += 1;
    }
    assert(sv.skip(off as int) =~= xv);
    true
}

pub(crate) fn ends2(stack: &[String], a: &str, b: &str) -> (r: bool)
    ensures
        r == ends(str_views(stack@), seq![a@, b@]),
{
    let v = vec![a, b];
    assert(v@.map_values(|x: &str| x@) =~= seq![a@, b@]);
    ends_with_path(stack, v.as_slice())
}

pub(crate) fn ends3(stack: &[String], a: &str, b: &str, c: &str) -> (r: bool)
    ensures
        r == ends(str_views(stack@), seq![a@, b@, c@]),
{
    let v = vec![a, b, c];
    assert(v@.map_values(|x: &str| x@) =~= seq![a@, b@, c@]);
    ends_with_path(stack, v.as_slice())
}

pub(crate) fn ends4(stack: &[String], a: &str, b: &str, c: &str, d: &str) -> (r: bool)
    ensures
        r == ends(str_views(stack@), seq![a@, b@, c@, d@]),
{
    let v = vec![a, b, c, d];
    assert(v@.map_values(|x: &str| x@) =~= seq![a@, b@, c@, d@]);
    ends_with_path(stack, v.as_slice())
}

pub(crate) fn pain_tag_attr(tag: &XmlTag, name: &str) -> (r: HbciResult<Option<String>>)
    ensures
        match pain_attr(*tag, name@) {
            Ok(v) => r matches Ok(x) && opt_view(x) == v,
            Err(e) => r matches Err(x) && x@ == e,
        },
{
    checked_tag_attr(tag, name, "failed to read XML attribute", "failed to decode XML attribute")
}

/// The text's first ten characters (all of a shorter one).
pub(crate) fn first_ten(t: &str) -> (r: String)
    ensures
        r@ == (if t@.len() > 10 { t@.take(10) } else { t@ }),
{
    let v = chars_of(t);
    if v.len() > 10 {
        string_of(slice_chars(v.as_slice(), 0, 10).as_slice())
    } else {
        string_of(v.as_slice())
    }
}

pub(crate) proof fn lemma_str_views_push(v: Seq<String>, s: String)
    ensures
        str_views(v.push(s)) == str_views(v).push(s@),
{
    assert(str_views(v.push(s)) =~= str_views(v).push(s@));
}

impl PainParser {
    fn currency(&mut self, tag: &XmlTag, n: &str) -> (r: HbciResult<()>)
        requires
            n@ == local_name(tag.name@),
        ensures
            match with_currency(parser_state(*old(self)), *tag) {
                Ok(s) => r is Ok && parser_state(*final(self)) == s,
                Err(e) => r matches Err(x) && x@ == e,
            },
            final(self).transfers == old(self).transfers,
            final(self).stack == old(self).stack,
    {
        if self.transfer.is_some() && str_eq(n, "InstdAmt") {
            match pain_tag_attr(tag, "Ccy") {
                Err(e) => {
                    return Err(e);
                },
                Ok(None) => {},
                Ok(Some(c)) => {
                    let mut d = self.transfer.take().unwrap();
                    d.value = Some(Value { value: String::new(), curr: Some(c) });
                    self.transfer = Some(d);
                },
            }
        }
        Ok(())
    }

    fn start(&mut self, tag: &XmlTag) -> (r: HbciResult<()>)
        ensures
            match pain_start(parser_state(*old(self)), *tag) {
                Ok(s) => r is Ok && parser_state(*final(self)) == s,
                Err(e) => r matches Err(x) && x@ == e,
            },
            final(self).transfers == old(self).transfers,
    {
        let n = local_name_of(tag.name.as_str());
        if str_eq(n.as_str(), "PmtInf") {
            self.payment = Some(Payment { iban: None, bic: None, payment_info_id: None, execution_date: None, batch_book: None });
        } else if self.payment.is_some() && str_eq(n.as_str(), "CdtTrfTxInf") {
            let d = Draft {
                name: None,
                iban: None,
                bic: None,
                end_to_end_id: None,
                purpose_code: None,
                value: None,
                usage: Vec::new(),
            };
            assert(str_views(d.usage@) =~= seq![]);
            self.transfer = Some(d);
        } else {
            match self.currency(tag, n.as_str()) {
                Ok(()) => {},
                Err(e) => {
                    return Err(e);
                },
            }
        }
        let ghost before = self.stack@;
        let ghost ng = n;
        self.stack.push(n);
        proof {
            lemma_str_views_push(before, ng);
        }
        Ok(())
    }

    fn transfer_text(d: &mut Draft, stack: &[String], t: &str) -> (ok: bool)
        ensures
            match transfer_text(draft_view(*old(d)), str_views(stack@), t@) {
                Some(x) => ok && draft_view(*final(d)) == x,
                None => !ok,
            },
    {
        if ends3(stack, "CdtTrfTxInf", "PmtId", "EndToEndId") {
            d.end_to_end_id = Some(t.to_string());
        } else if ends3(stack, "CdtTrfTxInf", "Cdtr", "Nm") {
            d.name = Some(t.to_string());
        } else if ends4(stack, "CdtTrfTxInf", "CdtrAcct", "Id", "IBAN") {
            d.iban = Some(t.to_string());
        } else if ends4(stack, "CdtTrfTxInf", "CdtrAgt", "FinInstnId", "BIC") || ends4(
            stack,
            "CdtTrfTxInf",
            "CdtrAgt",
            "FinInstnId",
            "BICFI",
        ) {
            d.bic = Some(t.to_string());
        } else if ends3(stack, "CdtTrfTxInf", "Amt", "InstdAmt") {
            if !crate::sepa::amount::amount_fits(t) {
                return false;
            }
            let amount = normalize_decimal_amount(t);
            match d.value.take() {
                Some(v) => {
                    d.value = Some(Value { value: amount, curr: v.curr });
                },
                None => {
                    d.value = Some(Value { value: amount, curr: None });
                },
            }
        } else if ends3(stack, "CdtTrfTxInf", "RmtInf", "Ustrd") {
            let ghost before = d.usage@;
            let ts = t.to_string();
            let ghost tg = ts;
            d.usage.push(ts);
            proof {
                lemma_str_views_push(before, tg);
            }
        } else if ends3(stack, "CdtTrfTxInf", "Purp", "Cd") {
            d.purpose_code = Some(t.to_string());
        }
        true
    }

    fn payment_text(p: &mut Payment, stack: &[String], t: &str)
        ensures
            payment_view(*final(p)) == payment_text(payment_view(*old(p)), str_views(stack@), t@),
    {
        if ends2(stack, "PmtInf", "PmtInfId") {
            p.payment_info_id = Some(t.to_string());
        } else if ends4(stack, "PmtInf", "DbtrAcct", "Id", "IBAN") {
            p.iban = Some(t.to_string());
        } else if ends4(stack, "PmtInf", "DbtrAgt", "FinInstnId", "BIC") || ends4(
            stack,
            "PmtInf",
            "DbtrAgt",
            "FinInstnId",
            "BICFI",
        ) {
            p.bic = Some(t.to_string());
        } else if ends2(stack, "PmtInf", "ReqdExctnDt") || ends3(stack, "PmtInf", "ReqdExctnDt", "Dt") {
            p.execution_date = Some(t.to_string());
        } else if ends3(stack, "PmtInf", "ReqdExctnDt", "DtTm") {
            p.execution_date = Some(first_ten(t));
        } else if ends2(stack, "PmtInf", "BtchBookg") {
            p.batch_book = Some(t.to_string());
        }
    }

    fn text(&mut self, raw: &str) -> (ok: bool)
        ensures
            match pain_text(parser_state(*old(self)), raw@) {
                Some(s) => ok && parser_state(*final(self)) == s,
                None => !ok,
            },
            final(self).transfers == old(self).transfers,
    {
        let t = trim_str(raw);
        if t.as_str().unicode_len() == 0 {
            return true;
        }
        match self.transfer.take() {
            Some(mut d) => {
                let ok = Self::transfer_text(&mut d, self.stack.as_slice(), t.as_str());
                self.transfer = Some(d);
                ok
            },
            None => {
                match self.payment.take() {
                    Some(mut p) => {
                        Self::payment_text(&mut p, self.stack.as_slice(), t.as_str());
                        self.payment = Some(p);
                    },
                    None => {
                        if ends3(self.stack.as_slice(), "GrpHdr", "InitgPty", "Nm") {
                            self.initiator = Some(t);
                        }
                    },
                }
                true
            },
        }
    }

    fn end(&mut self, name: &str)
        requires
            plain_transfers(*old(self)),
        ensures
            parser_state(*final(self)) == pain_end(parser_state(*old(self)), name@),
            plain_transfers(*final(self)),
    {
        let n = local_name_of(name);
        if str_eq(n.as_str(), "CdtTrfTxInf") {
            let d = self.transfer.take();
            match (&self.payment, d) {
                (Some(p), Some(d)) => {
                    let mut source = Konto::default();
                    source.iban = p.iban.clone();
                    source.bic = p.bic.clone();
                    source.name = self.initiator.clone();
                    let mut destination = Konto::default();
                    destination.name = d.name;
                    destination.iban = d.iban;
                    destination.bic = d.bic;
                    let t = Pain001Transfer {
                        source,
                        destination,
                        value: d.value,
                        usage: d.usage,
                        execution_date: p.execution_date.clone(),
                        end_to_end_id: d.end_to_end_id,
                        payment_info_id: p.payment_info_id.clone(),
                        purpose_code: d.purpose_code,
                        batch_book: p.batch_book.clone(),
                    };
                    let ghost before = self.transfers@;
                    let ghost tg = t;
                    self.transfers.push(t);
                    assert(self.transfers@.map_values(|x: Pain001Transfer| transfer_view(x)) =~= before.map_values(
                        |x: Pain001Transfer| transfer_view(x),
                    ).push(transfer_view(tg)));
                },
                _ => {},
            }
        } else if str_eq(n.as_str(), "PmtInf") {
            self.payment = None;
        }
        if self.stack.len() > 0 {
            let ghost before = self.stack@;
            self.stack.pop();
            assert(str_views(self.stack@) =~= str_views(before).drop_last());
        }
    }
}

/// The transfers of a PAIN.001 document from its events, where no amount
/// overflows (`None` where one does).
fn run_pain_001(events: &[XmlEvent]) -> (r: Option<HbciResult<Vec<Pain001Transfer>>>)
    ensures
        match pain_fold(events@, pain_initial()) {
            None => r is None,
            Some(Ok(vs)) => r matches Some(Ok(ts)) && transfers_are(ts@, vs),
            Some(Err(e)) => r matches Some(Err(x)) && x@ == e,
        },
{
    let mut p = PainParser { stack: Vec::new(), transfers: Vec::new(), initiator: None, payment: None, transfer: None };
    assert(parser_state(p) =~= pain_initial()) by {
        assert(str_views(p.stack@) =~= seq![]);
        assert(p.transfers@.map_values(|t: Pain001Transfer| transfer_view(t)) =~= seq![]);
    }
    let mut i: usize = 0;
    assert(events@.skip(0) =~= events@);
    while i < events.len()
        invariant
            i <= events@.len(),
            plain_transfers(p),
            pain_fold(events@, pain_initial()) == pain_fold(events@.skip(i as int), parser_state(p)),
        decreases events.len() - i,
    {
        assert(events@.skip(i as int)[0] == events@[i as int]);
        assert(events@.skip(i as int).drop_first() =~= events@.skip(i + 1));
        match &events[i] {
            XmlEvent::Eof => {
                let ts = p.transfers;
                assert(transfers_are(ts@, parser_state(p).transfers));
                return Some(Ok(ts));
            },
            XmlEvent::Error(m) => {
                return Some(Err(HbciError::with_source(HbciErrorKind::Protocol, "failed to parse PAIN.001 document", m.as_str())));
            },
            XmlEvent::Start(tag) => {
                match p.start(tag) {
                    Ok(()) => {},
                    Err(e) => {
                        return Some(Err(e));
                    },
                }
            },
            XmlEvent::Empty(tag) => {
                let n = local_name_of(tag.name.as_str());
                match p.currency(tag, n.as_str()) {
                    Ok(()) => {},
                    Err(e) => {
                        return Some(Err(e));
                    },
                }
            },
            XmlEvent::Text(t) => {
                if !p.text(t.as_str()) {
                    return None;
                }
            },
            XmlEvent::End(n) => {
                p.end(n.as_str());
            },
            XmlEvent::GeneralRef(_) => {},
            XmlEvent::Other => {},
        }
        i += 1;
    }
    let ts = p.transfers;
    assert(transfers_are(ts@, parser_state(p).transfers));
    Some(Ok(ts))
}

/// The credit transfers of a PAIN.001 document, given its events: one for
/// each `CdtTrfTxInf` inside a `PmtInf`, with the debtor account, date,
/// payment id and batch booking of its block, the initiating party's name
/// as the name of the debtor account, and its own creditor account,
/// amount, remittance lines, end-to-end id and purpose code. The amounts
/// must not overflow `i64` when read as cents.
pub fn pain_001_transfers_from_events(events: &[XmlEvent]) -> (r: HbciResult<Vec<Pain001Transfer>>)
    requires
        pain_fold(events@, pain_initial()) is Some,
    ensures
        match pain_fold(events@, pain_initial()) {
            Some(Ok(vs)) => r matches Ok(ts) && transfers_are(ts@, vs),
            Some(Err(e)) => r matches Err(x) && x@ == e,
            None => false,
        },
{
    match run_pain_001(events) {
        Some(r) => r,
        None => Err(HbciError::new(HbciErrorKind::Protocol, "PAIN.001 amount out of range")),
    }
}

/// The credit transfers of a PAIN.001 document (see
/// `pain_001_transfers_from_events`); its amounts must not overflow.
pub fn parse_pain_001_transfers(xml: &str) -> (r: HbciResult<Vec<Pain001Transfer>>)
    requires
        pain_fold(xml_events_of(xml@), pain_initial()) is Some,
    ensures
        match pain_fold(xml_events_of(xml@), pain_initial()) {
            Some(Ok(vs)) => r matches Ok(ts) && transfers_are(ts@, vs),
            Some(Err(e)) => r matches Err(x) && x@ == e,
            None => false,
        },
{
    let events = xml_events(xml);
    pain_001_transfers_from_events(events.as_slice())
}

/// The credit transfers of a PAIN.001 document, where none of its amounts
/// overflows `i64` when read as cents; `None` where one does.
pub fn parse_pain_001_transfers_checked(xml: &str) -> (r: Option<HbciResult<Vec<Pain001Transfer>>>)
    ensures
        match pain_fold(xml_events_of(xml@), pain_initial()) {
            None => r is None,
            Some(Ok(vs)) => r matches Some(Ok(ts)) && transfers_are(ts@, vs),
            Some(Err(e)) => r matches Some(Err(x)) && x@ == e,
        },
{
    let events = xml_events(xml);
    match run_pain_001(events.as_slice()) {
        None => None,
        Some(_) => Some(parse_pain_001_transfers(xml)),
    }
}

} // verus!
