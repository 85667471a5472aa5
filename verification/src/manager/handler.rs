//! The decisions of a FinTS dialog: filling the request messages from the
//! queued jobs and the passport, and reading responses into statuses and
//! job results. Sending, asking the user and the dialog loop are the
//! caller's; here each step is a function of what it is handed.

use vstd::prelude::*;
use crate::dialog::DialogContext;
use crate::error::{ErrorView, HbciError, HbciErrorKind, HbciResult};
use crate::gv_result::exec::{counted_header, counted_header_string};
use crate::gv_result::{HbciDialogStatus, HbciJobResultData, HbciMsgStatus, HbciReturnValue, HbciStatus, Konto, Saldo, Value};
use crate::gv_result::data::{GvrSaldoReq, GvrSaldoReqInfo};
use crate::gv_result::kums::GvrKUms;
use crate::swift::{decode_umlauts, umlaut_of};
use crate::gv_result::status::{msg_ok, return_value_text, str_views, values_code, values_status_code, HbciStatusCode};
use crate::gv_result::exec::{copy_values, same_value};
use crate::passport::pintan::{
    child_prefix, counted_keys_len, counted_len, counted_prefixes, counted_texts, counted_values, filled_from,
    first_matching, lemma_counted_len, opt_text, optional_value, value_matches, views, PinTanPassport,
    PinTanPassportData,
};
use crate::strmap::text_view;
use crate::protocol::message::{strip_key_prefix, strip_prefix_map};
use crate::text::{append, concat, decimal, join, owned, push_char, push_decimal, starts_with, str_eq};
use crate::tools::Properties;

verus! {

// ---------------------------------------------------------------------------
// Message references
// ---------------------------------------------------------------------------

/// The dialog id and message number that a request carries and that its
/// response must refer to.
#[derive(Debug)]
pub struct MessageReference {
    pub dialog_id: String,
    pub msgnum: String,
}

impl MessageReference {
    pub fn new(dialog_id: &str, msgnum: u32) -> (r: Self)
        ensures
            r.dialog_id@ == dialog_id@,
            r.msgnum@ == decimal(msgnum as nat),
    {
        let mut n = String::new();
        push_decimal(&mut n, msgnum as u64);
        MessageReference { dialog_id: dialog_id.to_owned(), msgnum: n }
    }
}

pub open spec fn protocol_error(message: Seq<char>) -> ErrorView {
    ErrorView { kind: HbciErrorKind::Protocol, message, source: None }
}

/// The non-empty value under `key`; a protocol error with `message` where
/// there is none.
pub open spec fn required_text(m: Map<Seq<char>, Seq<char>>, key: Seq<char>, message: Seq<char>) -> Result<Seq<char>, ErrorView> {
    match opt_text(m, key) {
        Some(v) => Ok(v),
        None => Err(protocol_error(message)),
    }
}

pub open spec fn text_result(r: HbciResult<String>) -> Result<Seq<char>, ErrorView> {
    match r {
        Ok(s) => Ok(s@),
        Err(e) => Err(e@),
    }
}

pub open spec fn unit_result(r: HbciResult<()>) -> Result<(), ErrorView> {
    match r {
        Ok(()) => Ok(()),
        Err(e) => Err(e@),
    }
}

pub fn required_message_value(values: &Properties, key: &str, message: &str) -> (r: HbciResult<String>)
    ensures
        text_result(r) == required_text(text_view(values@), key@, message@),
{
    match values.get(key) {
        Some(v) => {
            if v.as_str().unicode_len() > 0 {
                return Ok(v.clone());
            }
        },
        None => {},
    }
    Err(HbciError::new(HbciErrorKind::Protocol, message))
}

/// A response must refer to the request's dialog id and message number.
pub open spec fn reference_check(
    m: Map<Seq<char>, Seq<char>>,
    name: Seq<char>,
    dialog_id: Seq<char>,
    msgnum: Seq<char>,
) -> Result<(), ErrorView> {
    match required_text(m, name + ".MsgHead.MsgRef.dialogid"@, "FinTS response did not contain a message reference dialog id"@) {
        Err(e) => Err(e),
        Ok(d) => match required_text(m, name + ".MsgHead.MsgRef.msgnum"@, "FinTS response did not contain a message reference number"@) {
            Err(e) => Err(e),
            Ok(n) => if d == dialog_id && n == msgnum {
                Ok(())
            } else {
                Err(protocol_error(
                    name + " references message "@ + d + ":"@ + n + ", expected "@ + dialog_id + ":"@ + msgnum,
                ))
            },
        },
    }
}

pub fn validate_response_message_reference(
    values: &Properties,
    message_name: &str,
    expected: &MessageReference,
) -> (r: HbciResult<()>)
    ensures
        unit_result(r) == reference_check(text_view(values@), message_name@, expected.dialog_id@, expected.msgnum@),
{
    let k1 = concat(message_name, ".MsgHead.MsgRef.dialogid");
    let d = match required_message_value(values, k1.as_str(), "FinTS response did not contain a message reference dialog id") {
        Ok(d) => d,
        Err(e) => {
            return Err(e);
        },
    };
    let k2 = concat(message_name, ".MsgHead.MsgRef.msgnum");
    let n = match required_message_value(values, k2.as_str(), "FinTS response did not contain a message reference number") {
        Ok(n) => n,
        Err(e) => {
            return Err(e);
        },
    };
    if str_eq(d.as_str(), expected.dialog_id.as_str()) && str_eq(n.as_str(), expected.msgnum.as_str()) {
        return Ok(());
    }
    let mut m = concat(message_name, " references message ");
    append(&mut m, d.as_str());
    append(&mut m, ":");
    append(&mut m, n.as_str());
    append(&mut m, ", expected ");
    append(&mut m, expected.dialog_id.as_str());
    append(&mut m, ":");
    append(&mut m, expected.msgnum.as_str());
    Err(HbciError::new(HbciErrorKind::Protocol, m.as_str()))
}

/// Once a dialog is open, a response must carry its dialog id.
pub open spec fn dialog_id_check(m: Map<Seq<char>, Seq<char>>, name: Seq<char>, dialog_id: Seq<char>) -> Result<(), ErrorView> {
    if dialog_id == "0"@ {
        Ok(())
    } else {
        match required_text(m, name + ".MsgHead.dialogid"@, "FinTS response did not contain a dialog id"@) {
            Err(e) => Err(e),
            Ok(a) => if a == dialog_id {
                Ok(())
            } else {
                Err(protocol_error(name + " has dialog id "@ + a + ", expected "@ + dialog_id))
            },
        }
    }
}

pub fn validate_open_dialog_response_id(
    values: &Properties,
    message_name: &str,
    expected: &MessageReference,
) -> (r: HbciResult<()>)
    ensures
        unit_result(r) == dialog_id_check(text_view(values@), message_name@, expected.dialog_id@),
{
    proof {
        reveal_strlit("0");
    }
    if str_eq(expected.dialog_id.as_str(), "0") {
        return Ok(());
    }
    let k = concat(message_name, ".MsgHead.dialogid");
    let a = match required_message_value(values, k.as_str(), "FinTS response did not contain a dialog id") {
        Ok(a) => a,
        Err(e) => {
            return Err(e);
        },
    };
    if str_eq(a.as_str(), expected.dialog_id.as_str()) {
        return Ok(());
    }
    let mut m = concat(message_name, " has dialog id ");
    append(&mut m, a.as_str());
    append(&mut m, ", expected ");
    append(&mut m, expected.dialog_id.as_str());
    Err(HbciError::new(HbciErrorKind::Protocol, m.as_str()))
}

/// The dialog that a dialog initialisation response opens.
pub fn dialog_context_from_init_values(values: &Properties) -> (r: HbciResult<DialogContext>)
    ensures
        match required_text(text_view(values@), "DialogInitRes.MsgHead.dialogid"@, "DialogInitRes did not contain a dialog id"@) {
            Ok(d) => r matches Ok(c) && c.dialog_id matches Some(x) && x@ == d && c.system_id is None
                && c.message_number == 2,
            Err(e) => r matches Err(x) && x@ == e,
        },
{
    match required_message_value(values, "DialogInitRes.MsgHead.dialogid", "DialogInitRes did not contain a dialog id") {
        Ok(d) => Ok(DialogContext::from_dialog_id(d.as_str())),
        Err(e) => Err(e),
    }
}

// ---------------------------------------------------------------------------
// Return values
// ---------------------------------------------------------------------------

/// What a return value holds.
pub ghost struct RetView {
    pub code: Seq<char>,
    pub segment_ref: Option<Seq<char>>,
    pub data_ref: Option<Seq<char>>,
    pub text: Seq<char>,
    pub params: Seq<Seq<char>>,
    pub element: Option<Seq<char>>,
}

pub open spec fn opt_view(o: Option<String>) -> Option<Seq<char>> {
    match o {
        Some(s) => Some(s@),
        None => None,
    }
}

pub open spec fn ret_view(v: HbciReturnValue) -> RetView {
    RetView {
        code: v.code@,
        segment_ref: opt_view(v.segment_ref),
        data_ref: opt_view(v.data_ref),
        text: v.text@,
        params: str_views(v.params@),
        element: opt_view(v.element),
    }
}

pub open spec fn ret_views(vs: Seq<HbciReturnValue>) -> Seq<RetView> {
    vs.map_values(|v: HbciReturnValue| ret_view(v))
}

/// The return value under `prefix`, where it has a code: the reference
/// refers to a data element of the message for a global value and to a
/// segment otherwise; the parameters are the non-empty ones.
pub open spec fn read_return_value(m: Map<Seq<char>, Seq<char>>, prefix: Seq<char>, global: bool) -> Option<RetView> {
    if !m.contains_key(prefix + ".code"@) {
        None
    } else {
        let r = opt_text(m, prefix + ".ref"@);
        let parm = prefix + ".parm"@;
        Some(RetView {
            code: m[prefix + ".code"@],
            segment_ref: if global { None } else { r },
            data_ref: if global { r } else { None },
            text: if m.contains_key(prefix + ".text"@) { m[prefix + ".text"@] } else { seq![] },
            params: counted_texts(m, parm, counted_keys_len(m, parm)),
            element: None,
        })
    }
}

/// The return values of the first `n` occurrences of the group `base`.
pub open spec fn read_return_values(m: Map<Seq<char>, Seq<char>>, base: Seq<char>, n: nat, global: bool) -> Seq<RetView>
    decreases n,
{
    if n == 0 {
        seq![]
    } else {
        read_return_values(m, base, (n - 1) as nat, global) + match read_return_value(m, counted_header(base, (n - 1) as nat), global) {
            Some(v) => seq![v],
            None => seq![],
        }
    }
}

/// The return values of the container `c`: those of the groups `c.RetVal`,
/// `c.RetVal_2`, ... in order.
pub open spec fn return_values_of(m: Map<Seq<char>, Seq<char>>, c: Seq<char>, global: bool) -> Seq<RetView> {
    let base = c + ".RetVal"@;
    read_return_values(m, base, counted_len(m, base), global)
}

/// The segment return values of the first `n` containers `base`, `base_2`, ...
pub open spec fn segment_values(m: Map<Seq<char>, Seq<char>>, base: Seq<char>, n: nat) -> Seq<RetView>
    decreases n,
{
    if n == 0 {
        seq![]
    } else {
        segment_values(m, base, (n - 1) as nat) + return_values_of(m, counted_header(base, (n - 1) as nat), false)
    }
}

/// The segment return values of message `name`, container by container.
pub open spec fn segment_values_of(m: Map<Seq<char>, Seq<char>>, name: Seq<char>) -> Seq<RetView> {
    let base = name + ".RetSeg"@;
    segment_values(m, base, counted_len(m, base))
}

/// The return value under `prefix`, where it has a code.
pub fn return_value(values: &Properties, prefix: &str, global: bool) -> (r: Option<HbciReturnValue>)
    ensures
        match read_return_value(text_view(values@), prefix@, global) {
            Some(v) => r matches Some(x) && ret_view(x) == v,
            None => r is None,
        },
{
    let ghost m = text_view(values@);
    let kc = concat(prefix, ".code");
    let code = match values.get(kc.as_str()) {
        Some(c) => c,
        None => {
            return None;
        },
    };
    let kr = concat(prefix, ".ref");
    let ret_ref = optional_value(values, kr.as_str());
    let kt = concat(prefix, ".text");
    let text: String = match values.get(kt.as_str()) {
        Some(t) => t.clone(),
        None => String::new(),
    };
    let kp = concat(prefix, ".parm");
    let params = counted_values(values, kp.as_str());
    let mut value = HbciReturnValue::new(code.as_str(), text.as_str());
    if global {
        value.data_ref = ret_ref;
    } else {
        value.segment_ref = ret_ref;
    }
    value.params = params;
    proof {
        assert(str_views(value.params@) =~= views(value.params@));
        assert(ret_view(value).text == read_return_value(m, prefix@, global).unwrap().text) by {
            if !m.contains_key(prefix@ + ".text"@) {
                assert(text@ =~= seq![]);
            }
        }
        assert(ret_view(value) == read_return_value(m, prefix@, global).unwrap());
    }
    Some(value)
}

/// The return values of the container `container_prefix`, in order.
pub fn collect_return_values(values: &Properties, container_prefix: &str, global: bool) -> (r: Vec<HbciReturnValue>)
    ensures
        ret_views(r@) == return_values_of(text_view(values@), container_prefix@, global),
{
    let ghost m = text_view(values@);
    let base = concat(container_prefix, ".RetVal");
    let prefixes = counted_prefixes(values, base.as_str());
    proof {
        lemma_counted_len(m, base@, prefixes@.len() as nat);
    }
    let mut r: Vec<HbciReturnValue> = Vec::new();
    let mut i: usize = 0;
    while i < prefixes.len()
        invariant
            m == text_view(values@),
            i <= prefixes@.len(),
            forall|k: int| 0 <= k < prefixes@.len() ==> (#[trigger] prefixes@[k])@ == counted_header(base@, k as nat),
            ret_views(r@) == read_return_values(m, base@, i as nat, global),
        decreases prefixes.len() - i,
    {
        let ghost before = ret_views(r@);
        match return_value(values, prefixes[i].as_str(), global) {
            Some(v) => {
                r.push(v);
                assert(ret_views(r@) =~= before + seq![ret_view(v)]);
            },
            None => {
                assert(before + seq![] =~= before);
            },
        }
        i += 1;
    }
    r
}

fn append_values(target: &mut Vec<HbciReturnValue>, more: Vec<HbciReturnValue>)
    ensures
        ret_views(final(target)@) == ret_views(old(target)@) + ret_views(more@),
{
    let ghost m0 = more@;
    let mut more = more;
    target.append(&mut more);
    assert(ret_views(target@) =~= ret_views(old(target)@) + ret_views(m0));
}

/// The segment return values of message `message_name`.
pub fn collect_segment_return_values(values: &Properties, message_name: &str) -> (r: Vec<HbciReturnValue>)
    ensures
        ret_views(r@) == segment_values_of(text_view(values@), message_name@),
{
    let ghost m = text_view(values@);
    let base = concat(message_name, ".RetSeg");
    let prefixes = counted_prefixes(values, base.as_str());
    proof {
        lemma_counted_len(m, base@, prefixes@.len() as nat);
    }
    let mut r: Vec<HbciReturnValue> = Vec::new();
    let mut i: usize = 0;
    while i < prefixes.len()
        invariant
            m == text_view(values@),
            i <= prefixes@.len(),
            forall|k: int| 0 <= k < prefixes@.len() ==> (#[trigger] prefixes@[k])@ == counted_header(base@, k as nat),
            ret_views(r@) == segment_values(m, base@, i as nat),
        decreases prefixes.len() - i,
    {
        let more = collect_return_values(values, prefixes[i].as_str(), false);
        append_values(&mut r, more);
        i += 1;
    }
    r
}

/// The status of message `message_name`: its global and its segment
/// return values.
pub fn message_status_from_values(values: &Properties, message_name: &str) -> (s: HbciMsgStatus)
    ensures
        ret_views(s.global_status.return_values@) == return_values_of(
            text_view(values@),
            message_name@ + ".RetGlob"@,
            true,
        ),
        ret_views(s.segment_status.return_values@) == segment_values_of(text_view(values@), message_name@),
        s.global_status.exception_messages@.len() == 0,
        s.segment_status.exception_messages@.len() == 0,
{
    let g = concat(message_name, ".RetGlob");
    let global = collect_return_values(values, g.as_str(), true);
    let segment = collect_segment_return_values(values, message_name);
    HbciMsgStatus::from_statuses(HbciStatus::from_return_values(global), HbciStatus::from_return_values(segment))
}


/// Texts joined with a separator.
pub fn join_texts(parts: &Vec<String>, sep: &str) -> (r: String)
    ensures
        r@ == join(str_views(parts@), sep@),
{
    let mut r = String::new();
    let mut i: usize = 0;
    while i < parts.len()
        invariant
            i <= parts@.len(),
            r@ == join(str_views(parts@.take(i as int)), sep@),
        decreases parts.len() - i,
    {
        let ghost before = r@;
        if i > 0 {
            append(&mut r, sep);
        }
        append(&mut r, parts[i].as_str());
        proof {
            let t = str_views(parts@.take(i + 1));
            assert(t.drop_last() =~= str_views(parts@.take(i as int)));
            assert(t.last() == parts@[i as int]@);
            if i == 0 {
                assert(t.len() == 1);
            }
        }
        i += 1;
    }
    assert(parts@.take(parts@.len() as int) =~= parts@);
    r
}

/// The texts of return values.
pub open spec fn value_texts(vs: Seq<HbciReturnValue>) -> Seq<Seq<char>> {
    vs.map_values(|v: HbciReturnValue| return_value_text(v))
}

/// The texts of the return values, in order.
pub fn value_messages(vs: &Vec<HbciReturnValue>) -> (r: Vec<String>)
    ensures
        str_views(r@) == value_texts(vs@),
{
    let mut r: Vec<String> = Vec::new();
    let mut i: usize = 0;
    while i < vs.len()
        invariant
            i <= vs@.len(),
            str_views(r@) == value_texts(vs@.take(i as int)),
        decreases vs.len() - i,
    {
        let ghost before = str_views(r@);
        let m = vs[i].message();
        r.push(m);
        assert(str_views(r@) =~= before.push(m@));
        assert(value_texts(vs@.take(i + 1)) =~= value_texts(vs@.take(i as int)).push(return_value_text(vs@[i as int])));
        i += 1;
    }
    assert(vs@.take(vs@.len() as int) =~= vs@);
    r
}

/// A dialog end must succeed; the error lists the return values.
pub open spec fn dialog_end_check(status: HbciMsgStatus) -> Result<(), ErrorView> {
    if msg_ok(status) {
        Ok(())
    } else {
        let text = join(
            value_texts(status.global_status.return_values@ + status.segment_status.return_values@),
            ", "@,
        );
        Err(protocol_error(
            if text.len() == 0 {
                "FinTS dialog end failed without return values"@
            } else {
                "FinTS dialog end failed: "@ + text
            },
        ))
    }
}

pub fn ensure_dialog_end_ok(status: &HbciMsgStatus) -> (r: HbciResult<()>)
    ensures
        unit_result(r) == dialog_end_check(*status),
{
    if status.is_ok() {
        return Ok(());
    }
    let mut texts = value_messages(&status.global_status.return_values);
    let mut more = value_messages(&status.segment_status.return_values);
    let ghost a = str_views(texts@);
    let ghost b = str_views(more@);
    texts.append(&mut more);
    assert(str_views(texts@) =~= value_texts(status.global_status.return_values@ + status.segment_status.return_values@)) by {
        assert(str_views(texts@) =~= a + b);
    }
    let text = join_texts(&texts, ", ");
    if text.unicode_len() == 0 {
        Err(HbciError::new(HbciErrorKind::Protocol, "FinTS dialog end failed without return values"))
    } else {
        let m = concat("FinTS dialog end failed: ", text.as_str());
        Err(HbciError::new(HbciErrorKind::Protocol, m.as_str()))
    }
}

// ---------------------------------------------------------------------------
// Responses to job messages
// ---------------------------------------------------------------------------

/// Copies of return values.
pub fn copy_return_values(vs: &Vec<HbciReturnValue>) -> (r: Vec<HbciReturnValue>)
    ensures
        ret_views(r@) == ret_views(vs@),
{
    let r = copy_values(vs);
    assert(ret_views(r@) =~= ret_views(vs@)) by {
        assert forall|i: int| 0 <= i < r@.len() implies ret_view(#[trigger] r@[i]) == ret_view(vs@[i]) by {
            assert(same_value(r@[i], vs@[i]));
        }
    }
    r
}

/// The segment return values that refer to segment `segment`, in order.
pub open spec fn values_for_segment(vs: Seq<RetView>, segment: Seq<char>) -> Seq<RetView>
    decreases vs.len(),
{
    if vs.len() == 0 {
        seq![]
    } else {
        values_for_segment(vs.drop_last(), segment) + if vs.last().segment_ref == Some(segment) {
            seq![vs.last()]
        } else {
            seq![]
        }
    }
}

/// The return values of a response to a message of jobs, and all its values.
#[derive(Debug)]
pub struct ParsedResponseStatus {
    pub global_return_values: Vec<HbciReturnValue>,
    pub segment_return_values: Vec<HbciReturnValue>,
    pub values: Properties,
}

impl ParsedResponseStatus {
    /// No return values and no values: what stands for a response that was
    /// not received.
    pub fn empty() -> (r: Self)
        ensures
            r.global_return_values@.len() == 0,
            r.segment_return_values@.len() == 0,
            r.values@ == Map::<Seq<char>, String>::empty(),
    {
        ParsedResponseStatus {
            global_return_values: Vec::new(),
            segment_return_values: Vec::new(),
            values: Properties::new(),
        }
    }

    /// The return values of a response to a job message.
    pub fn from_values(values: Properties) -> (r: Self)
        ensures
            ret_views(r.global_return_values@) == return_values_of(text_view(values@), "CustomMsgRes.RetGlob"@, true),
            ret_views(r.segment_return_values@) == segment_values_of(text_view(values@), "CustomMsgRes"@),
            r.values@ == values@,
    {
        let global_return_values = collect_return_values(&values, "CustomMsgRes.RetGlob", true);
        let segment_return_values = collect_segment_return_values(&values, "CustomMsgRes");
        ParsedResponseStatus { global_return_values, segment_return_values, values }
    }

    /// The texts of the global, then the segment return values.
    pub fn messages(&self) -> (r: Vec<String>)
        ensures
            str_views(r@) == value_texts(self.global_return_values@ + self.segment_return_values@),
    {
        let mut texts = value_messages(&self.global_return_values);
        let mut more = value_messages(&self.segment_return_values);
        let ghost a = str_views(texts@);
        let ghost b = str_views(more@);
        texts.append(&mut more);
        assert(str_views(texts@) =~= a + b);
        assert(value_texts(self.global_return_values@ + self.segment_return_values@) =~= value_texts(self.global_return_values@) + value_texts(self.segment_return_values@));
        texts
    }

    pub fn global_status(&self) -> (s: HbciStatus)
        ensures
            ret_views(s.return_values@) == ret_views(self.global_return_values@),
            s.exception_messages@.len() == 0,
    {
        HbciStatus::from_return_values(copy_return_values(&self.global_return_values))
    }

    pub fn segment_status(&self) -> (s: HbciStatus)
        ensures
            ret_views(s.return_values@) == ret_views(self.segment_return_values@),
            s.exception_messages@.len() == 0,
    {
        HbciStatus::from_return_values(copy_return_values(&self.segment_return_values))
    }

    pub fn message_status(&self) -> (m: HbciMsgStatus)
        ensures
            ret_views(m.global_status.return_values@) == ret_views(self.global_return_values@),
            ret_views(m.segment_status.return_values@) == ret_views(self.segment_return_values@),
            m.global_status.exception_messages@.len() == 0,
            m.segment_status.exception_messages@.len() == 0,
    {
        HbciMsgStatus::from_statuses(self.global_status(), self.segment_status())
    }

    /// Whether the global return values report success.
    pub fn global_is_ok(&self) -> (b: bool)
        ensures
            b == (values_code(self.global_return_values@) == HbciStatusCode::Success),
    {
        values_status_code(&self.global_return_values) == HbciStatusCode::Success
    }

    /// The segment return values about segment number `segment_sequence`.
    pub fn return_values_for_segment(&self, segment_sequence: usize) -> (r: Vec<HbciReturnValue>)
        ensures
            ret_views(r@) == values_for_segment(ret_views(self.segment_return_values@), decimal(segment_sequence as nat)),
    {
        let mut seg = String::new();
        push_decimal(&mut seg, segment_sequence as u64);
        let vs = &self.segment_return_values;
        let mut r: Vec<HbciReturnValue> = Vec::new();
        let mut i: usize = 0;
        while i < vs.len()
            invariant
                vs == &self.segment_return_values,
                seg@ == decimal(segment_sequence as nat),
                i <= vs@.len(),
                ret_views(r@) == values_for_segment(ret_views(vs@.take(i as int)), seg@),
            decreases vs.len() - i,
        {
            let ghost before = ret_views(r@);
            assert(ret_views(vs@.take(i + 1)).drop_last() =~= ret_views(vs@.take(i as int)));
            let hit = match &vs[i].segment_ref {
                Some(x) => str_eq(x.as_str(), seg.as_str()),
                None => false,
            };
            if hit {
                let v = vs[i].copy_value();
                r.push(v);
                assert(ret_views(r@) =~= before + seq![ret_view(vs@[i as int])]);
            } else {
                assert(before + seq![] =~= before);
            }
            i += 1;
        }
        assert(vs@.take(vs@.len() as int) =~= vs@);
        r
    }
}


// ---------------------------------------------------------------------------
// Balances
// ---------------------------------------------------------------------------

/// An amount with the sign of its credit/debit mark: `D` makes it negative.
pub open spec fn signed_text(credit_debit: Seq<char>, amount: Seq<char>) -> Seq<char> {
    if credit_debit == "D"@ {
        "-"@ + amount
    } else {
        amount
    }
}

pub fn signed_amount(credit_debit: &str, amount: String) -> (r: String)
    ensures
        r@ == signed_text(credit_debit@, amount@),
{
    if str_eq(credit_debit, "D") {
        concat("-", amount.as_str())
    } else {
        amount
    }
}

/// A balance under `p`: the credit/debit mark is required, the amount is 0
/// where it is missing.
pub open spec fn saldo_matches(s: Saldo, m: Map<Seq<char>, Seq<char>>, p: Seq<char>) -> bool {
    &&& m.contains_key(p + ".CreditDebit"@)
    &&& s.value.value@ == signed_text(
        m[p + ".CreditDebit"@],
        if m.contains_key(p + ".BTG.value"@) {
            m[p + ".BTG.value"@]
        } else {
            "0"@
        },
    )
    &&& opt_view(s.value.curr) == opt_text(m, p + ".BTG.curr"@)
    &&& opt_view(s.date) == opt_text(m, p + ".date"@)
    &&& opt_view(s.time) == opt_text(m, p + ".time"@)
}

pub fn saldo_from_values(values: &Properties, prefix: &str) -> (r: Option<Saldo>)
    ensures
        r is Some <==> text_view(values@).contains_key(prefix@ + ".CreditDebit"@),
        r matches Some(s) ==> saldo_matches(s, text_view(values@), prefix@),
{
    let kc = concat(prefix, ".CreditDebit");
    let credit_debit = match values.get(kc.as_str()) {
        Some(c) => c,
        None => {
            return None;
        },
    };
    let kv = concat(prefix, ".BTG.value");
    let amount = match values.get(kv.as_str()) {
        Some(a) => a.clone(),
        None => "0".to_owned(),
    };
    let value = Value {
        value: signed_amount(credit_debit.as_str(), amount),
        curr: optional_value(values, concat(prefix, ".BTG.curr").as_str()),
    };
    Some(Saldo {
        value,
        date: optional_value(values, concat(prefix, ".date").as_str()),
        time: optional_value(values, concat(prefix, ".time").as_str()),
    })
}

pub fn value_from_values(values: &Properties, prefix: &str) -> (r: Option<Value>)
    ensures
        value_matches(r, text_view(values@), prefix@),
{
    let kv = concat(prefix, ".value");
    match values.get(kv.as_str()) {
        Some(v) => Some(Value { value: v.clone(), curr: optional_value(values, concat(prefix, ".curr").as_str()) }),
        None => None,
    }
}

/// The account of a balance under `p`, before the passport fills it in.
pub open spec fn saldo_account_matches(k: Konto, m: Map<Seq<char>, Seq<char>>, p: Seq<char>) -> bool {
    &&& opt_view(k.country) == opt_text(m, p + ".KTV.KIK.country"@)
    &&& opt_view(k.blz) == opt_text(m, p + ".KTV.KIK.blz"@)
    &&& opt_view(k.number) == opt_text(m, p + ".KTV.number"@)
    &&& opt_view(k.subnumber) == opt_text(m, p + ".KTV.subnumber"@)
    &&& opt_view(k.bic) == opt_text(m, p + ".KTV.bic"@)
    &&& opt_view(k.iban) == opt_text(m, p + ".KTV.iban"@)
    &&& k.customer_id is None && k.name is None && k.name2 is None
    &&& k.creditorid is None && k.acctype is None
    &&& opt_view(k.account_type) == opt_text(m, p + ".kontobez"@)
    &&& opt_view(k.curr) == opt_text(m, p + ".curr"@)
    &&& k.limit is None
    &&& k.allowed_gvs@.len() == 0
}

pub fn saldo_account_from_values(values: &Properties, prefix: &str) -> (k: Konto)
    ensures
        saldo_account_matches(k, text_view(values@), prefix@),
{
    Konto {
        country: optional_value(values, concat(prefix, ".KTV.KIK.country").as_str()),
        blz: optional_value(values, concat(prefix, ".KTV.KIK.blz").as_str()),
        number: optional_value(values, concat(prefix, ".KTV.number").as_str()),
        subnumber: optional_value(values, concat(prefix, ".KTV.subnumber").as_str()),
        bic: optional_value(values, concat(prefix, ".KTV.bic").as_str()),
        iban: optional_value(values, concat(prefix, ".KTV.iban").as_str()),
        customer_id: None,
        name: None,
        name2: None,
        creditorid: None,
        acctype: None,
        account_type: optional_value(values, concat(prefix, ".kontobez").as_str()),
        curr: optional_value(values, concat(prefix, ".curr").as_str()),
        limit: None,
        allowed_gvs: Vec::new(),
    }
}

/// `new` is `base` with the data of the first passport account that is the
/// same account, where there is one.
pub open spec fn passport_filled(d: PinTanPassportData, new: Konto, base: Konto) -> bool {
    match first_matching(d.accounts@, base) {
        Some(j) => filled_from(new, base, d.accounts@[j]),
        None => new == base,
    }
}

/// Whether there is a balance under `p`: a segment with a booked balance.
pub open spec fn saldo_present(m: Map<Seq<char>, Seq<char>>, p: Seq<char>) -> bool {
    m.contains_key(p + ".SegHead.code"@) && m.contains_key(p + ".booked"@ + ".CreditDebit"@)
}

/// The balances of an account under `p`.
pub open spec fn saldo_info_matches(i: GvrSaldoReqInfo, d: PinTanPassportData, m: Map<Seq<char>, Seq<char>>, p: Seq<char>) -> bool {
    &&& exists|b: Konto| #[trigger] saldo_account_matches(b, m, p) && passport_filled(d, i.konto, b)
    &&& saldo_matches(i.ready, m, p + ".booked"@)
    &&& if m.contains_key(p + ".pending"@ + ".CreditDebit"@) {
        i.unready matches Some(u) && saldo_matches(u, m, p + ".pending"@)
    } else {
        i.unready is None
    }
    &&& value_matches(i.kredit, m, p + ".kredit"@)
    &&& value_matches(i.available, m, p + ".available"@)
    &&& value_matches(i.used, m, p + ".used"@)
}

pub fn saldo_info_from_values(values: &Properties, prefix: &str, passport: &PinTanPassport) -> (r: Option<GvrSaldoReqInfo>)
    ensures
        r is Some <==> saldo_present(text_view(values@), prefix@),
        r matches Some(i) ==> saldo_info_matches(i, passport.data_spec(), text_view(values@), prefix@),
{
    let kc = concat(prefix, ".SegHead.code");
    if !values.contains_key(kc.as_str()) {
        return None;
    }
    let mut konto = saldo_account_from_values(values, prefix);
    let ghost base = konto;
    passport.fill_account_info(&mut konto);
    let ready = match saldo_from_values(values, concat(prefix, ".booked").as_str()) {
        Some(s) => s,
        None => {
            return None;
        },
    };
    let info = GvrSaldoReqInfo {
        konto,
        ready,
        unready: saldo_from_values(values, concat(prefix, ".pending").as_str()),
        kredit: value_from_values(values, concat(prefix, ".kredit").as_str()),
        available: value_from_values(values, concat(prefix, ".available").as_str()),
        used: value_from_values(values, concat(prefix, ".used").as_str()),
    };
    proof {
        assert(saldo_account_matches(base, text_view(values@), prefix@) && passport_filled(passport.data_spec(), info.konto, base));
    }
    Some(info)
}

/// The root of the balance response to the job at queue position `index`.
pub open spec fn saldo_root(index: nat) -> Seq<char> {
    counted_header("CustomMsgRes.GVRes"@, index) + ".SaldoRes7"@
}

/// The root of the statement response `segment` to the job at queue
/// position `index`.
pub open spec fn kums_root(segment: Seq<char>, index: nat) -> Seq<char> {
    counted_header("CustomMsgRes.GVRes"@, index) + "."@ + segment
}

pub fn saldo_response_root(index: usize) -> (r: String)
    requires
        index < usize::MAX,
    ensures
        r@ == saldo_root(index as nat),
{
    let mut r = counted_header_string("CustomMsgRes.GVRes", index);
    append(&mut r, ".SaldoRes7");
    r
}

pub fn kums_response_root(segment_name: &str, index: usize) -> (r: String)
    requires
        index < usize::MAX,
    ensures
        r@ == kums_root(segment_name@, index as nat),
{
    let mut r = counted_header_string("CustomMsgRes.GVRes", index);
    push_char(&mut r, '.');
    append(&mut r, segment_name);
    proof {
        reveal_strlit(".");
    }
    assert(r@ =~= kums_root(segment_name@, index as nat));
    r
}

/// The balances of the first `n` responses `CustomMsgRes.GVRes`,
/// `CustomMsgRes.GVRes_2`, ... that hold one, in order.
pub open spec fn saldo_entries(es: Seq<GvrSaldoReqInfo>, d: PinTanPassportData, m: Map<Seq<char>, Seq<char>>, n: nat) -> bool
    decreases n,
{
    if n == 0 {
        es.len() == 0
    } else {
        let p = saldo_root((n - 1) as nat);
        if saldo_present(m, p) {
            es.len() > 0 && saldo_entries(es.drop_last(), d, m, (n - 1) as nat) && saldo_info_matches(es.last(), d, m, p)
        } else {
            saldo_entries(es, d, m, (n - 1) as nat)
        }
    }
}

// ---------------------------------------------------------------------------
// Statements
// ---------------------------------------------------------------------------

/// Text with the umlauts of the bank's character set put back.
pub open spec fn umlauts(s: Seq<char>) -> Seq<char> {
    s.map_values(|c: char| umlaut_of(c))
}

/// A statement of MT940 and MT942 text under `root`.
pub open spec fn kums_matches(r: Option<HbciJobResultData>, m: Map<Seq<char>, Seq<char>>, root: Seq<char>) -> bool {
    let b = root + ".booked"@;
    let n = root + ".notbooked"@;
    if !m.contains_key(b) && !m.contains_key(n) {
        r is None
    } else {
        r matches Some(HbciJobResultData::KUms(k)) && k.pending_mt940() == (if m.contains_key(b) {
            umlauts(m[b])
        } else {
            seq![]
        }) && k.pending_mt942() == (if m.contains_key(n) {
            umlauts(m[n])
        } else {
            seq![]
        }) && k.days_mt940().len() == 0 && k.days_mt942().len() == 0 && !k.is_parsed() && k.nothing_else()
    }
}

/// The values under the keys `base`, `base_2`, ... as long as they are set.
pub open spec fn counted_raw(m: Map<Seq<char>, Seq<char>>, base: Seq<char>) -> Seq<Seq<char>> {
    Seq::new(counted_keys_len(m, base), |i: int| m[counted_header(base, i as nat)])
}

/// A statement of CAMT documents under `root`.
pub open spec fn camt_matches(r: Option<HbciJobResultData>, m: Map<Seq<char>, Seq<char>>, root: Seq<char>) -> bool {
    let booked = counted_raw(m, root + ".booked.message"@);
    let n = root + ".notbooked"@;
    if booked.len() == 0 && !m.contains_key(n) {
        r is None
    } else {
        r matches Some(HbciJobResultData::KUms(k)) && k.camt_booked_docs() == booked && k.camt_not_booked_docs()
            == (if m.contains_key(n) {
            seq![m[n]]
        } else {
            seq![]
        }) && k.pending_mt940().len() == 0 && k.pending_mt942().len() == 0 && k.days_mt940().len() == 0
            && k.days_mt942().len() == 0 && !k.is_parsed() && k.no_rest()
    }
}

/// The keys `base`, `base_2`, ... as long as they are set.
pub fn counted_value_keys(values: &Properties, base: &str) -> (r: Vec<String>)
    ensures
        r@.len() == counted_keys_len(text_view(values@), base@),
        forall|i: int| 0 <= i < r@.len() ==> (#[trigger] r@[i])@ == counted_header(base@, i as nat),
        forall|i: int| 0 <= i < r@.len() ==> text_view(values@).contains_key(#[trigger] r@[i]@),
{
    values.check_well_formed();
    let ghost m = text_view(values@);
    let mut r: Vec<String> = Vec::new();
    let mut index: usize = 0;
    let ghost mut seen: Set<Seq<char>> = Set::empty();
    proof {
        crate::strmap::lemma_map_of_len(values.keys_view(), values.vals_view());
        vstd::seq_lib::seq_to_set_is_finite(values.keys_view());
    }
    loop
        invariant
            values.well_formed(),
            m == text_view(values@),
            values@.dom().finite(),
            values@.dom().len() == values.size(),
            seen.finite(),
            seen.len() == index,
            seen.subset_of(values@.dom()),
            forall|k: Seq<char>| #[trigger] seen.contains(k) ==> exists|j: nat| j < index && k == counted_header(base@, j),
            forall|i: nat| i < index ==> #[trigger] m.contains_key(counted_header(base@, i)),
            r@.len() == index,
            forall|i: int| 0 <= i < r@.len() ==> (#[trigger] r@[i])@ == counted_header(base@, i as nat),
        ensures
            forall|i: nat| i < index ==> #[trigger] m.contains_key(counted_header(base@, i)),
            !m.contains_key(counted_header(base@, index as nat)),
            r@.len() == index,
            forall|i: int| 0 <= i < r@.len() ==> (#[trigger] r@[i])@ == counted_header(base@, i as nat),
        decreases values.size() - index,
    {
        let ghost key = counted_header(base@, index as nat);
        proof {
            vstd::set_lib::lemma_len_subset(seen, values@.dom());
            assert(!seen.contains(key)) by {
                if seen.contains(key) {
                    let j = choose|j: nat| j < index && key == counted_header(base@, j);
                    crate::gv_result::exec::lemma_counted_header_injective(base@, j, index as nat);
                }
            }
        }
        if index >= values.len() {
            proof {
                if m.contains_key(key) {
                    vstd::set_lib::lemma_len_subset(seen.insert(key), values@.dom());
                }
            }
            break;
        }
        let k = counted_header_string(base, index);
        if !values.contains_key(k.as_str()) {
            break;
        }
        r.push(k);
        proof {
            seen = seen.insert(key);
            vstd::set_lib::lemma_len_subset(seen, values@.dom());
        }
        index += 1;
    }
    proof {
        let n = index as nat;
        let c = counted_keys_len(m, base@);
        assert((forall|i: nat| i < c ==> #[trigger] m.contains_key(counted_header(base@, i))) && !m.contains_key(counted_header(base@, c)));
        if c < n {
            assert(m.contains_key(counted_header(base@, c)));
        } else if c > n {
            assert(m.contains_key(counted_header(base@, n)));
        }
        assert forall|i: int| 0 <= i < r@.len() implies text_view(values@).contains_key(#[trigger] r@[i]@) by {
            assert(m.contains_key(counted_header(base@, i as nat)));
        }
    }
    r
}


/// The values under each root, put behind `content.`, `content_2.`, ... in
/// the order of the roots.
pub open spec fn content_data(m: Map<Seq<char>, Seq<char>>, roots: Seq<Seq<char>>) -> Map<Seq<char>, Seq<char>>
    decreases roots.len(),
{
    if roots.len() == 0 {
        Map::empty()
    } else {
        content_data(m, roots.drop_last()).union_prefer_right(
            prefixed(strip_prefix_map(m, roots.last() + "."@), child_prefix("content"@, (roots.len() - 1) as nat)),
        )
    }
}

/// The map `src` with every key put behind `p`.
pub open spec fn prefixed(src: Map<Seq<char>, Seq<char>>, p: Seq<char>) -> Map<Seq<char>, Seq<char>> {
    Map::new(
        |k: Seq<char>| starts_with(k, p) && src.contains_key(k.skip(p.len() as int)),
        |k: Seq<char>| src[k.skip(p.len() as int)],
    )
}

/// Adds the entries of `source` with their keys put behind `p`.
pub fn insert_prefixed(target: &mut Properties, source: &Properties, p: &str)
    ensures
        text_view(final(target)@) == text_view(old(target)@).union_prefer_right(prefixed(text_view(source@), p@)),
{
    source.check_well_formed();
    let n = source.len();
    let ghost ks = source.keys_view();
    let ghost t0 = text_view(target@);
    let ghost src = text_view(source@);
    let mut i: usize = 0;
    while i < n
        invariant
            n == source.size(),
            source.well_formed(),
            ks == source.keys_view(),
            src == text_view(source@),
            i <= n,
            forall|k: Seq<char>| #[trigger] text_view(target@).contains_key(k) <==> (t0.contains_key(k) || (
                starts_with(k, p@) && exists|j: int| 0 <= j < i && ks[j] == k.skip(p@.len() as int))),
            forall|k: Seq<char>| #[trigger] text_view(target@).contains_key(k) ==> text_view(target@)[k] == if starts_with(k, p@) && exists|j: int| 0 <= j < i && ks[j] == k.skip(p@.len() as int) {
                src[k.skip(p@.len() as int)]
            } else {
                t0[k]
            },
        decreases n - i,
    {
        proof {
            crate::strmap::lemma_entry(source, i as int);
        }
        let key = source.key_at(i);
        let mut k = owned(p);
        append(&mut k, key.as_str());
        let ghost kv = k@;
        assert(kv.skip(p@.len() as int) =~= ks[i as int]);
        assert(starts_with(kv, p@)) by {
            assert(kv.subrange(0, p@.len() as int) =~= p@);
        }
        let ghost before = text_view(target@);
        let ghost before_raw = target@;
        let v = owned(source.value_at(i).as_str());
        target.insert(k, v);
        proof {
            crate::gv::lemma_text_view_insert(before_raw, kv, v);
        }
        assert forall|w: Seq<char>| #[trigger] text_view(target@).contains_key(w) <==> (t0.contains_key(w) || (
            starts_with(w, p@) && exists|j: int| 0 <= j < i + 1 && ks[j] == w.skip(p@.len() as int))) by {
            if w == kv {
                assert(ks[i as int] == w.skip(p@.len() as int));
            } else if starts_with(w, p@) && exists|j: int| 0 <= j < i + 1 && ks[j] == w.skip(p@.len() as int) {
                let j = choose|j: int| 0 <= j < i + 1 && ks[j] == w.skip(p@.len() as int);
                if j == i {
                    assert(w =~= p@ + w.skip(p@.len() as int)) by {
                        assert(w.subrange(0, p@.len() as int) =~= p@);
                    }
                    assert(w =~= kv);
                }
            }
        }
        assert forall|w: Seq<char>| #[trigger] text_view(target@).contains_key(w) implies text_view(target@)[w] == if starts_with(w, p@) && exists|j: int| 0 <= j < i + 1 && ks[j] == w.skip(p@.len() as int) {
            src[w.skip(p@.len() as int)]
        } else {
            t0[w]
        } by {
            if w == kv {
                assert(ks[i as int] == w.skip(p@.len() as int));
            } else {
                if starts_with(w, p@) && exists|j: int| 0 <= j < i + 1 && ks[j] == w.skip(p@.len() as int) {
                    let j = choose|j: int| 0 <= j < i + 1 && ks[j] == w.skip(p@.len() as int);
                    if j == i {
                        assert(w =~= p@ + w.skip(p@.len() as int)) by {
                            assert(w.subrange(0, p@.len() as int) =~= p@);
                        }
                        assert(w =~= kv);
                    }
                    assert(exists|j: int| 0 <= j < i && ks[j] == w.skip(p@.len() as int));
                }
            }
        }
        i += 1;
    }
    proof {
        crate::strmap::lemma_map_of_len(source.keys_view(), source.vals_view());
        let goal = t0.union_prefer_right(prefixed(src, p@));
        assert forall|w: Seq<char>| text_view(target@).contains_key(w) <==> #[trigger] goal.contains_key(w) by {
            let sk = w.skip(p@.len() as int);
            if src.contains_key(sk) {
                assert(ks.to_set().contains(sk));
                let j = ks.index_of(sk);
                assert(ks[j] == sk);
            }
        }
        assert forall|w: Seq<char>| #[trigger] goal.contains_key(w) implies text_view(target@)[w] == goal[w] by {
            let sk = w.skip(p@.len() as int);
            if starts_with(w, p@) && src.contains_key(sk) {
                assert(ks.to_set().contains(sk));
                let j = ks.index_of(sk);
                assert(ks[j] == sk);
            }
        }
        assert(text_view(target@) =~= goal);
    }
}


/// The header of the `index`-th content group: `content`, `content_2`, ...
pub fn counted_result_header(base: &str, index: usize) -> (r: String)
    requires
        index < usize::MAX,
    ensures
        r@ == counted_header(base@, index as nat),
{
    counted_header_string(base, index)
}

/// The values under the roots, each root's put behind `content.`,
/// `content_2.`, ... in order.
pub fn content_result_data(values: &Properties, roots: &Vec<String>) -> (r: Properties)
    ensures
        text_view(r@) == content_data(text_view(values@), str_views(roots@)),
{
    let ghost m = text_view(values@);
    let mut r = Properties::new();
    let mut i: usize = 0;
    assert(text_view(r@) =~= Map::empty());
    while i < roots.len()
        invariant
            m == text_view(values@),
            i <= roots@.len(),
            text_view(r@) == content_data(m, str_views(roots@.take(i as int))),
        decreases roots.len() - i,
    {
        let mut header = counted_result_header("content", i);
        push_char(&mut header, '.');
        let mut rp = owned(roots[i].as_str());
        push_char(&mut rp, '.');
        let stripped = strip_key_prefix(values, rp.as_str());
        proof {
            reveal_strlit(".");
            let ts = str_views(roots@.take(i + 1));
            assert(ts.drop_last() =~= str_views(roots@.take(i as int)));
            assert(ts.last() == roots@[i as int]@);
            assert(rp@ =~= ts.last() + "."@);
            assert(header@ =~= child_prefix("content"@, i as nat));
            assert(text_view(stripped@) =~= strip_prefix_map(m, rp@));
        }
        insert_prefixed(&mut r, &stripped, header.as_str());
        i += 1;
    }
    assert(roots@.take(roots@.len() as int) =~= roots@);
    r
}

/// The roots of the responses to a job of kind `name` at queue position
/// `index`, whose values go into its result data.
pub open spec fn result_roots(m: Map<Seq<char>, Seq<char>>, name: Seq<char>, index: nat) -> Seq<Seq<char>> {
    if name == "KUmsAll"@ {
        seq![kums_root("KUmsZeitRes7"@, index)]
    } else if name == "KUmsAllCamt"@ {
        seq![kums_root("KUmsZeitCamtRes1"@, index)]
    } else if name == "KUmsNew"@ {
        seq![kums_root("KUmsNewRes7"@, index)]
    } else if name == "SaldoReq"@ {
        seq![saldo_root(index)]
    } else if name == "SaldoReqAll"@ {
        Seq::new(counted_len(m, "CustomMsgRes.GVRes"@), |i: int| saldo_root(i as nat))
    } else {
        seq![]
    }
}

fn one_root(root: String) -> (r: Vec<String>)
    ensures
        str_views(r@) == seq![root@],
{
    let mut r: Vec<String> = Vec::new();
    r.push(root);
    assert(str_views(r@) =~= seq![root@]);
    r
}

impl ParsedResponseStatus {
    /// The result data of the job `name` at queue position `index`.
    pub fn result_data_for_job(&self, name: &str, index: usize) -> (r: Properties)
        requires
            index < usize::MAX,
        ensures
            text_view(r@) == content_data(text_view(self.values@), result_roots(text_view(self.values@), name@, index as nat)),
    {
        let ghost m = text_view(self.values@);
        let roots: Vec<String> = if str_eq(name, "KUmsAll") {
            one_root(kums_response_root("KUmsZeitRes7", index))
        } else if str_eq(name, "KUmsAllCamt") {
            one_root(kums_response_root("KUmsZeitCamtRes1", index))
        } else if str_eq(name, "KUmsNew") {
            one_root(kums_response_root("KUmsNewRes7", index))
        } else if str_eq(name, "SaldoReq") {
            one_root(saldo_response_root(index))
        } else if str_eq(name, "SaldoReqAll") {
            let prefixes = counted_prefixes(&self.values, "CustomMsgRes.GVRes");
            proof {
                lemma_counted_len(m, "CustomMsgRes.GVRes"@, prefixes@.len() as nat);
            }
            let mut rs: Vec<String> = Vec::new();
            let mut j: usize = 0;
            while j < prefixes.len()
                invariant
                    j <= prefixes@.len(),
                    forall|k: int| 0 <= k < prefixes@.len() ==> (#[trigger] prefixes@[k])@ == counted_header("CustomMsgRes.GVRes"@, k as nat),
                    rs@.len() == j,
                    forall|k: int| 0 <= k < j ==> (#[trigger] rs@[k])@ == saldo_root(k as nat),
                decreases prefixes.len() - j,
            {
                let mut p = owned(prefixes[j].as_str());
                append(&mut p, ".SaldoRes7");
                rs.push(p);
                j += 1;
            }
            assert(str_views(rs@) =~= Seq::new(counted_len(m, "CustomMsgRes.GVRes"@), |i: int| saldo_root(i as nat)));
            rs
        } else {
            let rs: Vec<String> = Vec::new();
            assert(str_views(rs@) =~= seq![]);
            rs
        };
        content_result_data(&self.values, &roots)
    }
}

/// The result data every job gets: dialog id, message number and the
/// number of its segment.
pub fn basic_result_data(request_ref: &MessageReference, segment_sequence: usize) -> (r: Properties)
    ensures
        text_view(r@) == map![
            "basic.dialogid"@ => request_ref.dialog_id@,
            "basic.msgnum"@ => request_ref.msgnum@,
            "basic.segnum"@ => decimal(segment_sequence as nat),
        ],
{
    let mut r = Properties::new();
    let ghost r0 = r@;
    r.insert("basic.dialogid".to_owned(), owned(request_ref.dialog_id.as_str()));
    let ghost r1 = r@;
    r.insert("basic.msgnum".to_owned(), owned(request_ref.msgnum.as_str()));
    let ghost r2 = r@;
    let mut n = String::new();
    push_decimal(&mut n, segment_sequence as u64);
    r.insert("basic.segnum".to_owned(), n);
    assert(text_view(r@) =~= map![
        "basic.dialogid"@ => request_ref.dialog_id@,
        "basic.msgnum"@ => request_ref.msgnum@,
        "basic.segnum"@ => decimal(segment_sequence as nat),
    ]);
    r
}

/// The segment number of the job at queue position `index`: the first two
/// segments of a message are its header and the signature head.
pub fn queued_job_segment_sequence(index: usize) -> (r: usize)
    requires
        index + 3 <= usize::MAX,
    ensures
        r == index + 3,
{
    index + 3
}


/// No balance among the first `n` responses.
pub open spec fn no_saldo(m: Map<Seq<char>, Seq<char>>, n: nat) -> bool {
    forall|i: nat| i < n ==> !#[trigger] saldo_present(m, saldo_root(i))
}

pub proof fn lemma_saldo_entries_empty(es: Seq<GvrSaldoReqInfo>, d: PinTanPassportData, m: Map<Seq<char>, Seq<char>>, n: nat)
    requires
        saldo_entries(es, d, m, n),
    ensures
        es.len() == 0 <==> no_saldo(m, n),
    decreases n,
{
    if n > 0 {
        let p = saldo_root((n - 1) as nat);
        if saldo_present(m, p) {
            lemma_saldo_entries_empty(es.drop_last(), d, m, (n - 1) as nat);
            assert(!no_saldo(m, n)) by {
                assert(saldo_present(m, saldo_root((n - 1) as nat)));
            }
        } else {
            lemma_saldo_entries_empty(es, d, m, (n - 1) as nat);
            if no_saldo(m, (n - 1) as nat) {
                assert forall|i: nat| i < n implies !#[trigger] saldo_present(m, saldo_root(i)) by {
                    if i < n - 1 {
                        assert(!saldo_present(m, saldo_root(i)));
                    }
                }
            }
        }
    }
}

/// The result of the job `name` at queue position `index`.
pub open spec fn job_result_matches(
    r: Option<HbciJobResultData>,
    d: PinTanPassportData,
    m: Map<Seq<char>, Seq<char>>,
    name: Seq<char>,
    index: nat,
) -> bool {
    if name == "SaldoReq"@ {
        if saldo_present(m, saldo_root(index)) {
            r matches Some(HbciJobResultData::SaldoReq(g)) && g.entries@.len() == 1 && saldo_info_matches(
                g.entries@[0],
                d,
                m,
                saldo_root(index),
            )
        } else {
            r is None
        }
    } else if name == "SaldoReqAll"@ {
        let n = counted_len(m, "CustomMsgRes.GVRes"@);
        if no_saldo(m, n) {
            r is None
        } else {
            r matches Some(HbciJobResultData::SaldoReq(g)) && saldo_entries(g.entries@, d, m, n)
        }
    } else if name == "KUmsAll"@ {
        kums_matches(r, m, kums_root("KUmsZeitRes7"@, index))
    } else if name == "KUmsAllCamt"@ {
        camt_matches(r, m, kums_root("KUmsZeitCamtRes1"@, index))
    } else if name == "KUmsNew"@ {
        kums_matches(r, m, kums_root("KUmsNewRes7"@, index))
    } else {
        r is None
    }
}

impl ParsedResponseStatus {
    /// The balance of the response to the job at queue position `index`.
    pub fn saldo_result_for_index(&self, index: usize, passport: &PinTanPassport) -> (r: Option<GvrSaldoReq>)
        requires
            index < usize::MAX,
        ensures
            r is Some <==> saldo_present(text_view(self.values@), saldo_root(index as nat)),
            r matches Some(g) ==> g.entries@.len() == 1 && saldo_info_matches(
                g.entries@[0],
                passport.data_spec(),
                text_view(self.values@),
                saldo_root(index as nat),
            ),
    {
        let root = saldo_response_root(index);
        match saldo_info_from_values(&self.values, root.as_str(), passport) {
            Some(info) => {
                let mut entries: Vec<GvrSaldoReqInfo> = Vec::new();
                entries.push(info);
                Some(GvrSaldoReq { entries })
            },
            None => None,
        }
    }

    /// The balances of all balance responses, in order.
    pub fn saldo_result_all(&self, passport: &PinTanPassport) -> (r: GvrSaldoReq)
        ensures
            saldo_entries(r.entries@, passport.data_spec(), text_view(self.values@), counted_len(text_view(self.values@), "CustomMsgRes.GVRes"@)),
    {
        let ghost m = text_view(self.values@);
        let ghost d = passport.data_spec();
        let prefixes = counted_prefixes(&self.values, "CustomMsgRes.GVRes");
        proof {
            lemma_counted_len(m, "CustomMsgRes.GVRes"@, prefixes@.len() as nat);
        }
        let mut entries: Vec<GvrSaldoReqInfo> = Vec::new();
        let mut j: usize = 0;
        while j < prefixes.len()
            invariant
                m == text_view(self.values@),
                d == passport.data_spec(),
                j <= prefixes@.len(),
                forall|k: int| 0 <= k < prefixes@.len() ==> (#[trigger] prefixes@[k])@ == counted_header("CustomMsgRes.GVRes"@, k as nat),
                saldo_entries(entries@, d, m, j as nat),
            decreases prefixes.len() - j,
        {
            let mut p = owned(prefixes[j].as_str());
            append(&mut p, ".SaldoRes7");
            assert(p@ == saldo_root(j as nat));
            let ghost before = entries@;
            match saldo_info_from_values(&self.values, p.as_str(), passport) {
                Some(info) => {
                    entries.push(info);
                    assert(entries@.drop_last() =~= before);
                },
                None => {},
            }
            j += 1;
        }
        GvrSaldoReq { entries }
    }

    /// A statement of MT940 and MT942 text under `root`.
    pub fn kums_result_for_root(&self, root: &str) -> (r: Option<HbciJobResultData>)
        ensures
            kums_matches(r, text_view(self.values@), root@),
    {
        let booked = self.values.get(concat(root, ".booked").as_str());
        let notbooked = self.values.get(concat(root, ".notbooked").as_str());
        if booked.is_none() && notbooked.is_none() {
            return None;
        }
        let mut result = GvrKUms::new();
        match booked {
            Some(b) => {
                let t = decode_umlauts(b.as_str());
                result.append_mt940_data(t.as_str());
            },
            None => {},
        }
        match notbooked {
            Some(n) => {
                let t = decode_umlauts(n.as_str());
                result.append_mt942_data(t.as_str());
            },
            None => {},
        }
        proof {
            if booked is None {
                assert(result.pending_mt940() =~= seq![]);
            } else {
                assert(result.pending_mt940() =~= umlauts(booked->0@));
            }
            if notbooked is None {
                assert(result.pending_mt942() =~= seq![]);
            } else {
                assert(result.pending_mt942() =~= umlauts(notbooked->0@));
            }
        }
        Some(HbciJobResultData::KUms(result))
    }

    /// A statement of CAMT documents under `root`.
    pub fn kums_all_camt_result_for_root(&self, root: &str) -> (r: Option<HbciJobResultData>)
        ensures
            camt_matches(r, text_view(self.values@), root@),
    {
        let ghost m = text_view(self.values@);
        let base = concat(root, ".booked.message");
        let docs = counted_documents(&self.values, base.as_str());
        let notbooked = self.values.get(concat(root, ".notbooked").as_str());
        if docs.len() == 0 && notbooked.is_none() {
            return None;
        }
        let mut result = GvrKUms::new();
        proof {
            result.lemma_nothing_else();
        }
        let mut i: usize = 0;
        while i < docs.len()
            invariant
                i <= docs@.len(),
                result.camt_booked_docs() == str_views(docs@).take(i as int),
                result.camt_not_booked_docs().len() == 0,
                result.pending_mt940().len() == 0,
                result.pending_mt942().len() == 0,
                result.days_mt940().len() == 0,
                result.days_mt942().len() == 0,
                !result.is_parsed(),
                result.no_rest(),
            decreases docs.len() - i,
        {
            result.push_camt_booked(owned(docs[i].as_str()));
            assert(result.camt_booked_docs() =~= str_views(docs@).take(i + 1));
            i += 1;
        }
        match notbooked {
            Some(n) => {
                result.push_camt_not_booked(owned(n.as_str()));
                assert(result.camt_not_booked_docs() =~= seq![n@]);
            },
            None => {
                assert(result.camt_not_booked_docs() =~= seq![]);
            },
        }
        assert(str_views(docs@).take(docs@.len() as int) =~= str_views(docs@));
        assert(result.camt_booked_docs() == counted_raw(m, root@ + ".booked.message"@));
        Some(HbciJobResultData::KUms(result))
    }

    /// The result of the job `name` at queue position `index`.
    pub fn result_for_job(&self, name: &str, index: usize, passport: &PinTanPassport) -> (r: Option<HbciJobResultData>)
        requires
            index < usize::MAX,
        ensures
            job_result_matches(r, passport.data_spec(), text_view(self.values@), name@, index as nat),
    {
        if str_eq(name, "SaldoReq") {
            match self.saldo_result_for_index(index, passport) {
                Some(g) => Some(HbciJobResultData::SaldoReq(g)),
                None => None,
            }
        } else if str_eq(name, "SaldoReqAll") {
            let result = self.saldo_result_all(passport);
            proof {
                lemma_saldo_entries_empty(result.entries@, passport.data_spec(), text_view(self.values@), counted_len(text_view(self.values@), "CustomMsgRes.GVRes"@));
            }
            if result.entries.len() == 0 {
                None
            } else {
                Some(HbciJobResultData::SaldoReq(result))
            }
        } else if str_eq(name, "KUmsAll") {
            self.kums_result_for_root(kums_response_root("KUmsZeitRes7", index).as_str())
        } else if str_eq(name, "KUmsAllCamt") {
            self.kums_all_camt_result_for_root(kums_response_root("KUmsZeitCamtRes1", index).as_str())
        } else if str_eq(name, "KUmsNew") {
            self.kums_result_for_root(kums_response_root("KUmsNewRes7", index).as_str())
        } else {
            None
        }
    }
}


/// The values under the keys `base`, `base_2`, ... as long as they are set.
pub fn counted_documents(values: &Properties, base: &str) -> (r: Vec<String>)
    ensures
        str_views(r@) == counted_raw(text_view(values@), base@),
{
    let ghost m = text_view(values@);
    let keys = counted_value_keys(values, base);
    let mut r: Vec<String> = Vec::new();
    let mut i: usize = 0;
    while i < keys.len()
        invariant
            m == text_view(values@),
            i <= keys@.len(),
            keys@.len() == counted_keys_len(m, base@),
            forall|k: int| 0 <= k < keys@.len() ==> (#[trigger] keys@[k])@ == counted_header(base@, k as nat),
            forall|k: int| 0 <= k < keys@.len() ==> m.contains_key(#[trigger] keys@[k]@),
            r@.len() == i,
            forall|k: int| 0 <= k < i ==> (#[trigger] r@[k])@ == m[counted_header(base@, k as nat)],
        decreases keys.len() - i,
    {
        assert(m.contains_key(keys@[i as int]@));
        match values.get(keys[i].as_str()) {
            Some(doc) => {
                r.push(owned(doc.as_str()));
            },
            None => {},
        }
        i += 1;
    }
    assert(str_views(r@) =~= counted_raw(m, base@));
    r
}


// ---------------------------------------------------------------------------
// Copies of statuses
// ---------------------------------------------------------------------------

/// Two statuses with the same return values and exception messages.
pub open spec fn same_status(a: HbciStatus, b: HbciStatus) -> bool {
    ret_views(a.return_values@) == ret_views(b.return_values@) && str_views(a.exception_messages@) == str_views(b.exception_messages@)
}

pub open spec fn same_msg_status(a: HbciMsgStatus, b: HbciMsgStatus) -> bool {
    same_status(a.global_status, b.global_status) && same_status(a.segment_status, b.segment_status)
}

pub open spec fn same_opt_msg_status(a: Option<HbciMsgStatus>, b: Option<HbciMsgStatus>) -> bool {
    match (a, b) {
        (Some(x), Some(y)) => same_msg_status(x, y),
        (None, None) => true,
        _ => false,
    }
}

pub open spec fn same_dialog_status(a: HbciDialogStatus, b: HbciDialogStatus) -> bool {
    &&& a.message_statuses@.len() == b.message_statuses@.len()
    &&& forall|i: int| 0 <= i < a.message_statuses@.len() ==> same_msg_status(#[trigger] a.message_statuses@[i], b.message_statuses@[i])
    &&& same_opt_msg_status(a.init_status, b.init_status)
    &&& same_opt_msg_status(a.end_status, b.end_status)
}

pub fn copy_status(s: &HbciStatus) -> (r: HbciStatus)
    ensures
        same_status(r, *s),
{
    HbciStatus {
        return_values: copy_return_values(&s.return_values),
        exception_messages: crate::gv_result::status::clone_strings(&s.exception_messages),
    }
}

pub fn copy_msg_status(s: &HbciMsgStatus) -> (r: HbciMsgStatus)
    ensures
        same_msg_status(r, *s),
{
    HbciMsgStatus { global_status: copy_status(&s.global_status), segment_status: copy_status(&s.segment_status) }
}

fn copy_opt_msg_status(s: &Option<HbciMsgStatus>) -> (r: Option<HbciMsgStatus>)
    ensures
        same_opt_msg_status(r, *s),
{
    match s {
        Some(x) => Some(copy_msg_status(x)),
        None => None,
    }
}

pub fn copy_dialog_status(s: &HbciDialogStatus) -> (r: HbciDialogStatus)
    ensures
        same_dialog_status(r, *s),
{
    let mut ms: Vec<HbciMsgStatus> = Vec::new();
    let mut i: usize = 0;
    while i < s.message_statuses.len()
        invariant
            i <= s.message_statuses@.len(),
            ms@.len() == i,
            forall|j: int| 0 <= j < i ==> same_msg_status(#[trigger] ms@[j], s.message_statuses@[j]),
        decreases s.message_statuses.len() - i,
    {
        ms.push(copy_msg_status(&s.message_statuses[i]));
        i += 1;
    }
    HbciDialogStatus {
        message_statuses: ms,
        init_status: copy_opt_msg_status(&s.init_status),
        end_status: copy_opt_msg_status(&s.end_status),
    }
}

/// The outcome of return values depends on their codes alone.
pub proof fn lemma_values_code_views(a: Seq<HbciReturnValue>, b: Seq<HbciReturnValue>)
    requires
        ret_views(a) == ret_views(b),
    ensures
        values_code(a) == values_code(b),
{
    assert(a.len() == ret_views(a).len());
    assert(b.len() == ret_views(b).len());
    assert forall|i: int| 0 <= i < a.len() implies #[trigger] a[i].code@ == b[i].code@ by {
        assert(ret_views(a)[i] == ret_view(a[i]));
        assert(ret_views(b)[i] == ret_view(b[i]));
        assert(ret_views(a)[i] == ret_views(b)[i]);
    }
    assert forall|c: char| crate::gv_result::status::any_starts(a, c) == crate::gv_result::status::any_starts(b, c) by {
        if crate::gv_result::status::any_starts(a, c) {
            let i = choose|i: int| 0 <= i < a.len() && crate::gv_result::status::code_starts(#[trigger] a[i], c);
            assert(a[i].code@ == b[i].code@);
            assert(crate::gv_result::status::code_starts(b[i], c));
        }
        if crate::gv_result::status::any_starts(b, c) {
            let i = choose|i: int| 0 <= i < b.len() && crate::gv_result::status::code_starts(#[trigger] b[i], c);
            assert(a[i].code@ == b[i].code@);
            assert(crate::gv_result::status::code_starts(a[i], c));
        }
    }
}

} // verus!
