//! A FinTS dialog with one bank: the passport, the job queue, the dialog
//! context and its status. Each step here is what the library decides; the
//! caller sends the messages, asks the user and hands the answers back.

use vstd::prelude::*;
use crate::callback::CallbackResponse;
use crate::dialog::DialogContext;
use crate::error::{ErrorView, HbciError, HbciErrorKind, HbciResult};
use crate::gv::{pintan_job_names, HbciJob, JobRegistry, JobView};
use crate::gv_result::HbciDialogStatus;
use crate::manager::handler::{
    dialog_context_from_init_values, dialog_end_check, ensure_dialog_end_ok, message_status_from_values,
    required_text, unit_result,
    basic_result_data, content_data, copy_dialog_status, copy_return_values, dialog_id_check,
    insert_prefixed, job_result_matches, lemma_values_code_views, opt_view, prefixed, reference_check,
    result_roots, ret_views, return_values_of, same_dialog_status, segment_values_of,
    validate_open_dialog_response_id, validate_response_message_reference, value_texts,
    values_for_segment, MessageReference, ParsedResponseStatus,
};
use crate::gv_result::exec::{counted_header, job_ok_with, text_value};
use crate::gv_result::status::{str_views, values_code, HbciStatusCode};
use crate::gv_result::{HbciExecStatus, HbciJobResult, HbciReturnValue};
use crate::strmap::text_view;
use crate::tools::Properties;
use crate::manager::prompts::{selected_method, selected_tan_method};
use crate::manager::render::{
    apply_values_seq, apply_message_values, gv_root, job_rendered, render_job_into_custom_message,
    value_views,
};
use crate::manager::tan::{
    job_result, new_job_result, new_tan2step_initial_job, new_tan2step_process1_job,
    new_tan2step_process2_job, new_tan2step_process2_step1_job, process1_result, process2_result,
    process2_step1_result, source_error, source_info, task_segment_result,
};
use crate::passport::pintan::{determined, parameter_data_updated, selection_view, sorted_params, tan2step_param, versions_updated, TanMethodSelection};
use crate::callback::{CallbackDataType, CallbackEvent, CallbackReason};
use crate::gv_result::{HbciInstMessage, HbciMsgStatus};
use crate::passport::pintan::{filled, PinTanPassport, PinTanPassportData, TanMethodOption};
use crate::protocol::builder::built_message;
use crate::protocol::message::{ElementView, HbciMessage};
use crate::protocol::model::ProtocolSyntax;
use crate::text::{concat, decimal, owned, starts_with};

verus! {

/// The version that the product identification of a dialog names.
pub const PRODUCT_VERSION: &'static str = "0.1.0";

/// A dialog with a bank.
#[derive(Debug)]
pub struct HbciHandler {
    hbci_version: String,
    passport: PinTanPassport,
    registry: JobRegistry,
    queue: Vec<HbciJob>,
    dialog: DialogContext,
    dialog_status: HbciDialogStatus,
}

pub open spec fn job_views(q: Seq<HbciJob>) -> Seq<JobView> {
    q.map_values(|j: HbciJob| j@)
}

pub open spec fn msg_result(r: HbciResult<HbciMessage>) -> Result<ElementView, ErrorView> {
    match r {
        Ok(m) => Ok(m@),
        Err(e) => Err(e@),
    }
}

impl HbciHandler {
    pub closed spec fn version_view(&self) -> Seq<char> {
        self.hbci_version@
    }

    pub closed spec fn passport_view(&self) -> PinTanPassport {
        self.passport
    }

    /// The jobs the registry offers.
    pub closed spec fn names_view(&self) -> Seq<Seq<char>> {
        self.registry.names_view()
    }

    pub closed spec fn queue_view(&self) -> Seq<JobView> {
        job_views(self.queue@)
    }

    pub closed spec fn dialog_view(&self) -> DialogContext {
        self.dialog
    }

    pub closed spec fn status_view(&self) -> HbciDialogStatus {
        self.dialog_status
    }

    /// A dialog for a passport: no jobs queued, no dialog open yet.
    pub fn new(hbci_version: &str, passport: PinTanPassport) -> (h: Self)
        ensures
            h.version_view() == hbci_version@,
            h.passport_view() == passport,
            h.names_view() == pintan_job_names(),
            h.queue_view().len() == 0,
            h.dialog_view().dialog_id is None,
            h.dialog_view().system_id is None,
            h.dialog_view().message_number == 1,
            h.status_view().message_statuses@.len() == 0,
            h.status_view().init_status is None,
            h.status_view().end_status is None,
    {
        let h = HbciHandler {
            hbci_version: owned(hbci_version),
            passport,
            registry: JobRegistry::pintan(),
            queue: Vec::new(),
            dialog: DialogContext::default_context(),
            dialog_status: HbciDialogStatus::new(),
        };
        assert(h.queue_view() =~= Seq::<JobView>::empty());
        h
    }

    pub fn hbci_version(&self) -> (r: &str)
        ensures
            r@ == self.version_view(),
    {
        self.hbci_version.as_str()
    }

    pub fn passport(&self) -> (r: &PinTanPassport)
        ensures
            *r == self.passport_view(),
    {
        &self.passport
    }

    pub fn dialog_context(&self) -> (r: &DialogContext)
        ensures
            *r == self.dialog_view(),
    {
        &self.dialog
    }

    pub fn dialog_status(&self) -> (r: &HbciDialogStatus)
        ensures
            *r == self.status_view(),
    {
        &self.dialog_status
    }

    pub fn queued_jobs(&self) -> (r: &[HbciJob])
        ensures
            job_views(r@) == self.queue_view(),
    {
        self.queue.as_slice()
    }

    /// A new job of kind `name`.
    pub fn new_job(&self, name: &str) -> (r: HbciResult<HbciJob>)
        ensures
            job_result(r) == new_job_result(self.names_view(), name@),
    {
        self.registry.new_job(name)
    }

    /// Queues a job as it is.
    pub fn add_to_queue(&mut self, job: HbciJob)
        ensures
            final(self).queue_view() == old(self).queue_view().push(job@),
            final(self).version_view() == old(self).version_view(),
            final(self).passport_view() == old(self).passport_view(),
            final(self).names_view() == old(self).names_view(),
            final(self).dialog_view() == old(self).dialog_view(),
            final(self).status_view() == old(self).status_view(),
    {
        self.queue.push(job);
        assert(self.queue_view() =~= old(self).queue_view().push(job@));
    }

    /// Queues a job once its constraints are met (defaults filled in);
    /// a job with a required parameter missing is refused.
    pub fn try_add_to_queue(&mut self, job: HbciJob) -> (r: HbciResult<()>)
        ensures
            ({
                let (low, res) = crate::gv::resolve_all(job@.constraints, job@.params, job@.lowlevel, Map::empty());
                match res {
                    Ok(_) => r is Ok && final(self).queue_view() == old(self).queue_view().push(
                        JobView { lowlevel: low, ..job@ },
                    ),
                    Err(f) => r matches Err(e) && e@ == crate::gv::job_error(crate::gv::missing_message(f))
                        && final(self).queue_view() == old(self).queue_view(),
                }
            }),
            final(self).version_view() == old(self).version_view(),
            final(self).passport_view() == old(self).passport_view(),
            final(self).names_view() == old(self).names_view(),
            final(self).dialog_view() == old(self).dialog_view(),
            final(self).status_view() == old(self).status_view(),
    {
        let mut job = job;
        match job.verify_constraints() {
            Ok(_) => {
                self.add_to_queue(job);
                Ok(())
            },
            Err(e) => Err(e),
        }
    }

    /// Takes over the TAN procedure that the user chose among `options`.
    pub fn choose_tan_method(&mut self, options: &[TanMethodOption], response: &CallbackResponse) -> (r: HbciResult<()>)
        ensures
            match selected_method(options@, opt_view(response.value)) {
                Ok(m) => r is Ok && opt_view(final(self).passport_view().data_spec().tan_method) == Some(m)
                    && final(self).passport_view().data_spec() == (PinTanPassportData {
                    tan_method: final(self).passport_view().data_spec().tan_method,
                    ..old(self).passport_view().data_spec()
                }),
                Err(x) => r matches Err(e) && e@ == x && final(self).passport_view() == old(self).passport_view(),
            },
            final(self).queue_view() == old(self).queue_view(),
            final(self).dialog_view() == old(self).dialog_view(),
            final(self).status_view() == old(self).status_view(),
    {
        match selected_tan_method(options, response) {
            Ok(m) => {
                self.passport.set_current_tan_method(m.as_str());
                Ok(())
            },
            Err(e) => Err(e),
        }
    }

    /// The answer about the TAN medium, taken over (see
    /// `prompts::tan_media_from_response`).
    pub fn tan_media_from_response(&mut self, response: Option<&CallbackResponse>) -> (r: String)
        ensures
            ({
                let v = match response {
                    Some(x) => opt_view(x.value),
                    None => None,
                };
                if v matches Some(t) && crate::text::trim(t).len() > 0 {
                    r@ == v->0 && opt_view(final(self).passport_view().data_spec().tan_media) == v
                } else {
                    r@ == "noref"@ && final(self).passport_view() == old(self).passport_view()
                }
            }),
            final(self).queue_view() == old(self).queue_view(),
            final(self).dialog_view() == old(self).dialog_view(),
            final(self).status_view() == old(self).status_view(),
    {
        crate::manager::prompts::tan_media_from_response(&mut self.passport, response)
    }

    /// The answer about the PIN, taken over (see `prompts::pin_from_response`).
    pub fn pin_from_response(&mut self, response: Option<&CallbackResponse>) -> (r: HbciResult<String>)
        ensures
            match response {
                None => r is Err && final(self).passport_view() == old(self).passport_view(),
                Some(x) => match opt_view(x.value) {
                    Some(p) => if p.len() > 0 {
                        r matches Ok(s) && s@ == p && opt_view(final(self).passport_view().pin_spec()) == Some(p)
                    } else {
                        r is Err && final(self).passport_view() == old(self).passport_view()
                    },
                    None => r is Err && final(self).passport_view() == old(self).passport_view(),
                },
            },
            final(self).queue_view() == old(self).queue_view(),
            final(self).dialog_view() == old(self).dialog_view(),
            final(self).status_view() == old(self).status_view(),
    {
        crate::manager::prompts::pin_from_response(&mut self.passport, response)
    }

    /// The reference of the next message of the dialog.
    pub fn request_reference(&self) -> (r: MessageReference)
        ensures
            r.dialog_id@ == match self.dialog_view().dialog_id {
                Some(d) => d@,
                None => "0"@,
            },
            r.msgnum@ == decimal(if self.dialog_view().message_number >= 1 {
                self.dialog_view().message_number as nat
            } else {
                1
            }),
    {
        MessageReference::new(self.dialog.current_dialog_id(), self.dialog.current_message_number())
    }

    /// The bank's address.
    pub fn host(&self) -> (r: HbciResult<String>)
        ensures
            match opt_view(self.passport_view().data_spec().host) {
                Some(h) => r matches Ok(x) && x@ == h,
                None => r matches Err(e) && e@ == (ErrorView {
                    kind: HbciErrorKind::InvalidArgument,
                    message: "PinTAN passport has no FinTS endpoint"@,
                    source: None,
                }),
            },
    {
        match self.passport.host() {
            Some(h) => Ok(owned(h)),
            None => Err(HbciError::new(HbciErrorKind::InvalidArgument, "PinTAN passport has no FinTS endpoint")),
        }
    }
}

// ---------------------------------------------------------------------------
// Request messages
// ---------------------------------------------------------------------------

/// The message header and tail values of a message `name`.
pub open spec fn reference_values(name: Seq<char>, r: MessageReference) -> Seq<(Seq<char>, Seq<char>)> {
    seq![
        (name + ".MsgHead.dialogid"@, r.dialog_id@),
        (name + ".MsgHead.msgnum"@, r.msgnum@),
        (name + ".MsgTail.msgnum"@, r.msgnum@),
    ]
}

/// The queued jobs from position `i` on, rendered into the message.
pub open spec fn jobs_rendered(e: ElementView, d: PinTanPassportData, q: Seq<JobView>, i: nat) -> (ElementView, Result<(), ErrorView>)
    decreases q.len() - i,
{
    if i >= q.len() {
        (e, Ok(()))
    } else {
        let (e1, r1) = job_rendered(e, d, q[i as int], i);
        if r1 is Err {
            (e1, r1)
        } else {
            jobs_rendered(e1, d, q, i + 1)
        }
    }
}

/// The job message: the reference values, then the queued jobs.
pub open spec fn queued_message(
    defs: Map<Seq<char>, crate::protocol::model::SyntaxDefinition>,
    d: PinTanPassportData,
    q: Seq<JobView>,
    r: MessageReference,
) -> Result<ElementView, ErrorView> {
    match built_message(defs, "CustomMsg"@) {
        Err(e) => Err(e),
        Ok(e0) => {
            let (e1, r1) = apply_values_seq(e0, reference_values("CustomMsg"@, r));
            match r1 {
                Err(x) => Err(x),
                Ok(_) => {
                    let (e2, r2) = jobs_rendered(e1, d, q, 0);
                    match r2 {
                        Err(x) => Err(x),
                        Ok(_) => Ok(e2),
                    }
                },
            }
        },
    }
}

fn reference_value_list(name: &str, request_ref: &MessageReference) -> (r: Vec<(String, String)>)
    ensures
        value_views(r@) == reference_values(name@, *request_ref),
{
    let mut r: Vec<(String, String)> = Vec::new();
    r.push((concat(name, ".MsgHead.dialogid"), owned(request_ref.dialog_id.as_str())));
    r.push((concat(name, ".MsgHead.msgnum"), owned(request_ref.msgnum.as_str())));
    r.push((concat(name, ".MsgTail.msgnum"), owned(request_ref.msgnum.as_str())));
    assert(value_views(r@) =~= reference_values(name@, *request_ref));
    r
}

impl HbciHandler {
    /// The job message for the queued jobs, before it is signed.
    pub fn render_queued_jobs(&self, syntax: &ProtocolSyntax, request_ref: &MessageReference) -> (r: HbciResult<HbciMessage>)
        requires
            self.queue_view().len() < usize::MAX,
        ensures
            msg_result(r) == queued_message(syntax.defs(), self.passport_view().data_spec(), self.queue_view(), *request_ref),
    {
        let mut message = match HbciMessage::from_syntax(syntax, "CustomMsg") {
            Ok(m) => m,
            Err(e) => {
                return Err(e);
            },
        };
        let values = reference_value_list("CustomMsg", request_ref);
        match apply_message_values(&mut message, &values) {
            Ok(()) => {},
            Err(e) => {
                return Err(e);
            },
        }
        let ghost e1 = message@;
        let ghost d = self.passport_view().data_spec();
        let ghost q = self.queue_view();
        let mut i: usize = 0;
        while i < self.queue.len()
            invariant
                q == self.queue_view(),
                q.len() < usize::MAX,
                d == self.passport_view().data_spec(),
                i <= q.len(),
                jobs_rendered(e1, d, q, 0) == jobs_rendered(message@, d, q, i as nat),
                queued_message(syntax.defs(), d, q, *request_ref) == match jobs_rendered(e1, d, q, 0).1 {
                    Err(x) => Err(x),
                    Ok(_) => Ok::<ElementView, ErrorView>(jobs_rendered(e1, d, q, 0).0),
                },
            decreases self.queue.len() - i,
        {
            assert(q[i as int] == self.queue@[i as int]@);
            let ghost before = message@;
            match render_job_into_custom_message(&mut message, &self.queue[i], i, &self.passport) {
                Ok(()) => {},
                Err(e) => {
                    assert(jobs_rendered(before, d, q, i as nat).1 == Err::<(), ErrorView>(e@));
                    return Err(e);
                },
            }
            i += 1;
        }
        Ok(message)
    }
}


/// A passport value that the dialog needs.
pub open spec fn required_value(v: Seq<char>, message: Seq<char>) -> Result<Seq<char>, ErrorView> {
    if v.len() == 0 {
        Err(ErrorView { kind: HbciErrorKind::InvalidArgument, message, source: None })
    } else {
        Ok(v)
    }
}

pub fn required_passport_value<'a>(value: &'a str, message: &str) -> (r: HbciResult<&'a str>)
    ensures
        match required_value(value@, message@) {
            Ok(v) => r matches Ok(x) && x@ == v,
            Err(e) => r matches Err(x) && x@ == e,
        },
{
    if value.unicode_len() == 0 {
        Err(HbciError::new(HbciErrorKind::InvalidArgument, message))
    } else {
        Ok(value)
    }
}

/// The customer id of the passport, else its user id.
pub open spec fn customer_or_user(d: PinTanPassportData) -> Seq<char> {
    if filled(d.customer_id) {
        opt_view(d.customer_id)->0
    } else {
        d.user_id@
    }
}

/// The values of a dialog initialisation besides the reference values.
pub open spec fn init_values(d: PinTanPassportData, blz: Seq<char>, customer: Seq<char>) -> Seq<(Seq<char>, Seq<char>)> {
    seq![
        ("DialogInit.Idn.KIK.country"@, if d.country@.len() == 0 { "DE"@ } else { d.country@ }),
        ("DialogInit.Idn.KIK.blz"@, blz),
        ("DialogInit.Idn.customerid"@, customer),
        ("DialogInit.Idn.sysid"@, "0"@),
        ("DialogInit.Idn.sysStatus"@, "0"@),
        ("DialogInit.ProcPrep.BPD"@, match opt_view(d.bpd_version) { Some(v) => v, None => "0"@ }),
        ("DialogInit.ProcPrep.UPD"@, match opt_view(d.upd_version) { Some(v) => v, None => "0"@ }),
        ("DialogInit.ProcPrep.lang"@, "0"@),
        ("DialogInit.ProcPrep.prodName"@, "hbci4rust"@),
        ("DialogInit.ProcPrep.prodVersion"@, PRODUCT_VERSION@),
    ]
}

/// The dialog initialisation message, before it is signed.
pub open spec fn init_message(
    defs: Map<Seq<char>, crate::protocol::model::SyntaxDefinition>,
    d: PinTanPassportData,
    r: MessageReference,
) -> Result<ElementView, ErrorView> {
    match built_message(defs, "DialogInit"@) {
        Err(e) => Err(e),
        Ok(e0) => match required_value(d.blz@, "PinTAN passport has no bank code"@) {
            Err(e) => Err(e),
            Ok(blz) => match required_value(customer_or_user(d), "PinTAN passport has no user id or customer id"@) {
                Err(e) => Err(e),
                Ok(c) => {
                    let (e1, r1) = apply_values_seq(e0, reference_values("DialogInit"@, r) + init_values(d, blz, c));
                    match r1 {
                        Err(x) => Err(x),
                        Ok(_) => Ok(e1),
                    }
                },
            },
        },
    }
}

/// The dialog end message, before it is signed.
pub open spec fn end_message(defs: Map<Seq<char>, crate::protocol::model::SyntaxDefinition>, r: MessageReference) -> Result<ElementView, ErrorView> {
    match built_message(defs, "DialogEnd"@) {
        Err(e) => Err(e),
        Ok(e0) => {
            let vs = seq![
                ("DialogEnd.MsgHead.dialogid"@, r.dialog_id@),
                ("DialogEnd.MsgHead.msgnum"@, r.msgnum@),
                ("DialogEnd.DialogEndS.dialogid"@, r.dialog_id@),
                ("DialogEnd.MsgTail.msgnum"@, r.msgnum@),
            ];
            let (e1, r1) = apply_values_seq(e0, vs);
            match r1 {
                Err(x) => Err(x),
                Ok(_) => Ok(e1),
            }
        },
    }
}

fn push_value(values: &mut Vec<(String, String)>, path: &str, value: &str)
    ensures
        value_views(final(values)@) == value_views(old(values)@).push((path@, value@)),
{
    values.push((owned(path), owned(value)));
    assert(value_views(final(values)@) =~= value_views(old(values)@).push((path@, value@)));
}

impl HbciHandler {
    /// The dialog initialisation message, before it is signed.
    pub fn render_dialog_init(&self, syntax: &ProtocolSyntax, request_ref: &MessageReference) -> (r: HbciResult<HbciMessage>)
        ensures
            msg_result(r) == init_message(syntax.defs(), self.passport_view().data_spec(), *request_ref),
    {
        let mut message = match HbciMessage::from_syntax(syntax, "DialogInit") {
            Ok(m) => m,
            Err(e) => {
                return Err(e);
            },
        };
        let passport = self.passport.data();
        let blz = match required_passport_value(passport.blz.as_str(), "PinTAN passport has no bank code") {
            Ok(b) => b,
            Err(e) => {
                return Err(e);
            },
        };
        let customer = self.passport.customer_id();
        let customer = match required_passport_value(customer, "PinTAN passport has no user id or customer id") {
            Ok(c) => c,
            Err(e) => {
                return Err(e);
            },
        };
        let mut values = reference_value_list("DialogInit", request_ref);
        let ghost first = value_views(values@);
        let country = if passport.country.unicode_len() == 0 {
            "DE"
        } else {
            passport.country.as_str()
        };
        push_value(&mut values, "DialogInit.Idn.KIK.country", country);
        push_value(&mut values, "DialogInit.Idn.KIK.blz", blz);
        push_value(&mut values, "DialogInit.Idn.customerid", customer);
        push_value(&mut values, "DialogInit.Idn.sysid", "0");
        push_value(&mut values, "DialogInit.Idn.sysStatus", "0");
        push_value(&mut values, "DialogInit.ProcPrep.BPD", self.passport.bpd_version());
        push_value(&mut values, "DialogInit.ProcPrep.UPD", self.passport.upd_version());
        push_value(&mut values, "DialogInit.ProcPrep.lang", "0");
        push_value(&mut values, "DialogInit.ProcPrep.prodName", "hbci4rust");
        push_value(&mut values, "DialogInit.ProcPrep.prodVersion", PRODUCT_VERSION);
        assert(value_views(values@) =~= reference_values("DialogInit"@, *request_ref) + init_values(
            self.passport_view().data_spec(),
            blz@,
            customer@,
        ));
        match apply_message_values(&mut message, &values) {
            Ok(()) => Ok(message),
            Err(e) => Err(e),
        }
    }

    /// The dialog end message, before it is signed.
    pub fn render_dialog_end(&self, syntax: &ProtocolSyntax, request_ref: &MessageReference) -> (r: HbciResult<HbciMessage>)
        ensures
            msg_result(r) == end_message(syntax.defs(), *request_ref),
    {
        let mut message = match HbciMessage::from_syntax(syntax, "DialogEnd") {
            Ok(m) => m,
            Err(e) => {
                return Err(e);
            },
        };
        let mut values: Vec<(String, String)> = Vec::new();
        push_value(&mut values, "DialogEnd.MsgHead.dialogid", request_ref.dialog_id.as_str());
        push_value(&mut values, "DialogEnd.MsgHead.msgnum", request_ref.msgnum.as_str());
        push_value(&mut values, "DialogEnd.DialogEndS.dialogid", request_ref.dialog_id.as_str());
        push_value(&mut values, "DialogEnd.MsgTail.msgnum", request_ref.msgnum.as_str());
        assert(value_views(values@) =~= seq![
            ("DialogEnd.MsgHead.dialogid"@, request_ref.dialog_id@),
            ("DialogEnd.MsgHead.msgnum"@, request_ref.msgnum@),
            ("DialogEnd.DialogEndS.dialogid"@, request_ref.dialog_id@),
            ("DialogEnd.MsgTail.msgnum"@, request_ref.msgnum@),
        ]);
        match apply_message_values(&mut message, &values) {
            Ok(()) => Ok(message),
            Err(e) => Err(e),
        }
    }

    /// The customer id a dialog status is filed under: the passport's
    /// customer id, else its user id.
    pub fn customer_id_for_status(&self) -> (r: String)
        ensures
            r@ == customer_or_user(self.passport_view().data_spec()),
    {
        owned(self.passport.customer_id())
    }
}


// ---------------------------------------------------------------------------
// Responses
// ---------------------------------------------------------------------------

/// The result of the job `j` at queue position `i` of a job message whose
/// response holds the values `m`, with the response's global and segment
/// return values.
pub open spec fn job_result_ok(
    res: HbciJobResult,
    d: PinTanPassportData,
    m: Map<Seq<char>, Seq<char>>,
    j: JobView,
    i: nat,
    r: MessageReference,
    raw: Seq<char>,
    global: Seq<HbciReturnValue>,
    segment: Seq<HbciReturnValue>,
    http_success: bool,
) -> bool {
    &&& res.job_name@ == j.name
    &&& opt_view(res.raw_response) == Some(raw)
    &&& text_view(res.result_data@) == basic_map(r, i + 3).union_prefer_right(content_data(m, result_roots(m, j.name, i)))
    &&& ret_views(res.global_return_values@) == ret_views(global)
    &&& ret_views(res.return_values@) == values_for_segment(ret_views(segment), decimal(i + 3))
    &&& job_result_matches(res.result, d, m, j.name, i)
    &&& res.success == (http_success && job_ok_with(values_code(global), values_code(res.return_values@)))
}

/// The result data every job gets.
pub open spec fn basic_map(r: MessageReference, segment: nat) -> Map<Seq<char>, Seq<char>> {
    map!["basic.dialogid"@ => r.dialog_id@, "basic.msgnum"@ => r.msgnum@, "basic.segnum"@ => decimal(segment)]
}

/// Whether every job succeeded.
pub open spec fn all_succeeded(rs: Seq<HbciJobResult>) -> bool {
    forall|i: int| 0 <= i < rs.len() ==> (#[trigger] rs[i]).success
}

fn response_status_of(values: Properties, http_success: bool, request_ref: &MessageReference) -> (r: HbciResult<ParsedResponseStatus>)
    ensures
        http_success ==> match reference_check(text_view(values@), "CustomMsgRes"@, request_ref.dialog_id@, request_ref.msgnum@) {
            Err(e) => r matches Err(x) && x@ == e,
            Ok(_) => match dialog_id_check(text_view(values@), "CustomMsgRes"@, request_ref.dialog_id@) {
                Err(e) => r matches Err(x) && x@ == e,
                Ok(_) => r matches Ok(s) && s.values@ == values@
                    && ret_views(s.global_return_values@) == return_values_of(text_view(values@), "CustomMsgRes.RetGlob"@, true)
                    && ret_views(s.segment_return_values@) == segment_values_of(text_view(values@), "CustomMsgRes"@),
            },
        },
        !http_success ==> (r matches Ok(s) && s.values@ == Map::<Seq<char>, String>::empty()
            && s.global_return_values@.len() == 0 && s.segment_return_values@.len() == 0),
{
    if !http_success {
        return Ok(ParsedResponseStatus::empty());
    }
    match validate_response_message_reference(&values, "CustomMsgRes", request_ref) {
        Ok(()) => {},
        Err(e) => {
            return Err(e);
        },
    }
    match validate_open_dialog_response_id(&values, "CustomMsgRes", request_ref) {
        Ok(()) => {},
        Err(e) => {
            return Err(e);
        },
    }
    Ok(ParsedResponseStatus::from_values(values))
}

fn result_data_of(status: &ParsedResponseStatus, request_ref: &MessageReference, name: &str, index: usize) -> (r: Properties)
    requires
        index + 3 <= usize::MAX,
    ensures
        text_view(r@) == basic_map(*request_ref, index as nat + 3).union_prefer_right(
            content_data(text_view(status.values@), result_roots(text_view(status.values@), name@, index as nat)),
        ),
{
    let mut data = basic_result_data(request_ref, index + 3);
    let more = status.result_data_for_job(name, index);
    insert_prefixed(&mut data, &more, "");
    proof {
        reveal_strlit("");
        let src = text_view(more@);
        assert(prefixed(src, ""@) =~= src) by {
            assert forall|k: Seq<char>| #[trigger] prefixed(src, ""@).contains_key(k) <==> src.contains_key(k) by {
                assert(k.skip(0) =~= k);
                assert(starts_with(k, ""@)) by {
                    assert(k.subrange(0, 0) =~= ""@);
                }
            }
            assert forall|k: Seq<char>| #[trigger] prefixed(src, ""@).contains_key(k) implies prefixed(src, ""@)[k] == src[k] by {
                assert(k.skip(0) =~= k);
            }
        }
    }
    data
}

impl HbciHandler {
    /// Takes the response to the job message: the message number moves on,
    /// the response is checked against the request, the authentication
    /// state follows the response, and every queued job gets its result;
    /// the queue is then empty. A response with an HTTP status of 400 or
    /// above holds nothing and fails every job.
    pub fn finish_execute(
        &mut self,
        request_ref: &MessageReference,
        http_status: u16,
        values: Properties,
        raw_response: &str,
    ) -> (r: HbciResult<HbciExecStatus>)
        requires
            old(self).queue_view().len() + 3 <= usize::MAX,
        ensures
            final(self).dialog_view().dialog_id == old(self).dialog_view().dialog_id,
            old(self).dialog_view().message_number <= 1 ==> final(self).dialog_view().message_number == 2,
            1 <= old(self).dialog_view().message_number < u32::MAX ==> final(self).dialog_view().message_number
                == old(self).dialog_view().message_number + 1,
            old(self).dialog_view().message_number == u32::MAX ==> final(self).dialog_view().message_number == u32::MAX,
            final(self).passport_view().data_spec() == old(self).passport_view().data_spec(),
            final(self).passport_view().pin_spec() == old(self).passport_view().pin_spec(),
            http_status < 400 && reference_check(text_view(values@), "CustomMsgRes"@, request_ref.dialog_id@, request_ref.msgnum@) is Err
                ==> (r matches Err(e) && reference_check(text_view(values@), "CustomMsgRes"@, request_ref.dialog_id@, request_ref.msgnum@)
                == Err::<(), ErrorView>(e@) && final(self).queue_view() == old(self).queue_view()),
            http_status < 400 && reference_check(text_view(values@), "CustomMsgRes"@, request_ref.dialog_id@, request_ref.msgnum@) is Ok
                && dialog_id_check(text_view(values@), "CustomMsgRes"@, request_ref.dialog_id@) is Err
                ==> (r matches Err(e) && dialog_id_check(text_view(values@), "CustomMsgRes"@, request_ref.dialog_id@)
                == Err::<(), ErrorView>(e@) && final(self).queue_view() == old(self).queue_view()),
            (http_status >= 400 || (reference_check(text_view(values@), "CustomMsgRes"@, request_ref.dialog_id@, request_ref.msgnum@) is Ok
                && dialog_id_check(text_view(values@), "CustomMsgRes"@, request_ref.dialog_id@) is Ok)) ==> r is Ok,
            r matches Ok(x) ==> ({
                let http = http_status < 400;
                let m = if http { text_view(values@) } else { Map::empty() };
                let q = old(self).queue_view();
                let d = old(self).passport_view().data_spec();
                &&& http ==> reference_check(text_view(values@), "CustomMsgRes"@, request_ref.dialog_id@, request_ref.msgnum@) is Ok
                    && dialog_id_check(text_view(values@), "CustomMsgRes"@, request_ref.dialog_id@) is Ok
                &&& ret_views(x.global_return_values@) == (if http { return_values_of(m, "CustomMsgRes.RetGlob"@, true) } else { seq![] })
                &&& ret_views(x.segment_return_values@) == (if http { segment_values_of(m, "CustomMsgRes"@) } else { seq![] })
                &&& str_views(x.messages@) == value_texts(x.global_return_values@ + x.segment_return_values@)
                &&& x.job_results@.len() == q.len()
                &&& forall|i: int| 0 <= i < q.len() ==> job_result_ok(#[trigger] x.job_results@[i], d, m, q[i], i as nat, *request_ref, raw_response@, x.global_return_values@, x.segment_return_values@, http)
                &&& x.success == (http && values_code(x.global_return_values@) == HbciStatusCode::Success && all_succeeded(x.job_results@))
                &&& final(self).queue_view().len() == 0
                &&& x.exception_messages@ == Map::<Seq<char>, Vec<String>>::empty()
                &&& if old(self).status_view().init_status is Some {
                    &&& final(self).status_view().message_statuses@.len() == old(self).status_view().message_statuses@.len() + 1
                    &&& x.dialog_statuses@.dom() == set![customer_or_user(d)]
                    &&& same_dialog_status(x.dialog_statuses@[customer_or_user(d)], final(self).status_view())
                } else {
                    &&& final(self).status_view() == old(self).status_view()
                    &&& x.dialog_statuses@ == Map::<Seq<char>, HbciDialogStatus>::empty()
                }
            }),
    {
        self.dialog.advance_message_number();
        let http_success = http_status < 400;
        let ghost vals = text_view(values@);
        let response_status = match response_status_of(values, http_success, request_ref) {
            Ok(s) => s,
            Err(e) => {
                return Err(e);
            },
        };
        let ghost m = text_view(response_status.values@);
        let message_status = response_status.message_status();
        let _ = self.passport.update_sca_state_from_response_values(&response_status.values, "CustomMsgRes", &message_status);
        if self.dialog_status.init_status.is_some() {
            self.dialog_status.message_statuses.push(message_status);
        }
        let global_status = response_status.global_status();
        proof {
            lemma_values_code_views(global_status.return_values@, response_status.global_return_values@);
        }
        let mut queue: Vec<HbciJob> = Vec::new();
        std::mem::swap(&mut queue, &mut self.queue);
        let ghost q = job_views(queue@);
        let ghost d = self.passport_view().data_spec();
        let mut results: Vec<HbciJobResult> = Vec::new();
        let mut all_ok = true;
        let mut i: usize = 0;
        while i < queue.len()
            invariant
                q == job_views(queue@),
                q.len() + 3 <= usize::MAX,
                d == self.passport_view().data_spec(),
                m == text_view(response_status.values@),
                i <= q.len(),
                results@.len() == i,
                forall|k: int| 0 <= k < i ==> job_result_ok(#[trigger] results@[k], d, m, q[k], k as nat, *request_ref, raw_response@, response_status.global_return_values@, response_status.segment_return_values@, http_success),
                all_ok == all_succeeded(results@),
                ret_views(global_status.return_values@) == ret_views(response_status.global_return_values@),
                global_status.exception_messages@.len() == 0,
                values_code(global_status.return_values@) == values_code(response_status.global_return_values@),
                !http_success ==> response_status.global_return_values@.len() == 0 && response_status.segment_return_values@.len() == 0,
                http_success ==> reference_check(vals, "CustomMsgRes"@, request_ref.dialog_id@, request_ref.msgnum@) is Ok
                    && dialog_id_check(vals, "CustomMsgRes"@, request_ref.dialog_id@) is Ok
                    && m == vals
                    && ret_views(response_status.global_return_values@) == return_values_of(vals, "CustomMsgRes.RetGlob"@, true)
                    && ret_views(response_status.segment_return_values@) == segment_values_of(vals, "CustomMsgRes"@),
            decreases queue.len() - i,
        {
            let job = &queue[i];
            assert(q[i as int] == job@);
            let name = job.name();
            let data = result_data_of(&response_status, request_ref, name, i);
            let mut result = HbciJobResult {
                job_name: owned(name),
                raw_response: Some(owned(raw_response)),
                result_data: data,
                global_return_values: copy_return_values(&response_status.global_return_values),
                return_values: response_status.return_values_for_segment(i + 3),
                result: response_status.result_for_job(name, i, &self.passport),
                success: false,
            };
            let ok = result.is_ok_with_global_status(&global_status);
            result.success = http_success && ok;
            let ghost before = results@;
            all_ok = all_ok && result.success;
            results.push(result);
            proof {
                assert forall|k: int| 0 <= k < i + 1 implies job_result_ok(#[trigger] results@[k], d, m, q[k], k as nat, *request_ref, raw_response@, response_status.global_return_values@, response_status.segment_return_values@, http_success) by {
                    if k < i {
                        assert(results@[k] == before[k]);
                    }
                }
                if all_ok {
                    assert forall|k: int| 0 <= k < results@.len() implies (#[trigger] results@[k]).success by {
                        if k < i {
                            assert(results@[k] == before[k]);
                        }
                    }
                } else {
                    if !all_succeeded(before) {
                        let k = choose|k: int| 0 <= k < before.len() && !(#[trigger] before[k]).success;
                        assert(results@[k] == before[k]);
                    } else {
                        assert(!results@[i as int].success);
                    }
                }
            }
            i += 1;
        }
        assert(!http_success ==> response_status.global_return_values@.len() == 0);
        assert(!http_success ==> ret_views(response_status.global_return_values@) =~= seq![]);
        assert(!http_success ==> ret_views(response_status.segment_return_values@) =~= seq![]);
        let success = http_success && response_status.global_is_ok() && all_ok;
        let messages = response_status.messages();
        let mut exec_status = HbciExecStatus::new();
        if self.dialog_status.init_status.is_some() {
            let customer = self.customer_id_for_status();
            let status = copy_dialog_status(&self.dialog_status);
            exec_status.add_dialog_status(customer.as_str(), Some(status));
            assert(exec_status.dialog_statuses@.dom() =~= set![customer_or_user(d)]);
        }
        exec_status.success = success;
        exec_status.job_results = results;
        exec_status.messages = messages;
        exec_status.global_return_values = response_status.global_return_values;
        exec_status.segment_return_values = response_status.segment_return_values;
        assert(self.queue_view() =~= Seq::<JobView>::empty());
        proof {
            let http = http_status < 400;
            if !http {
                assert(text_view(response_status.values@) =~= Map::<Seq<char>, Seq<char>>::empty());
            }
            assert(q == old(self).queue_view());
            assert(d == old(self).passport_view().data_spec());
            let x = exec_status;
            let mm = if http { text_view(values@) } else { Map::empty() };
            assert(mm == m);
            assert(ret_views(x.global_return_values@) == (if http { return_values_of(mm, "CustomMsgRes.RetGlob"@, true) } else { seq![] }));
            assert(ret_views(x.segment_return_values@) == (if http { segment_values_of(mm, "CustomMsgRes"@) } else { seq![] }));
            assert(str_views(x.messages@) == value_texts(x.global_return_values@ + x.segment_return_values@));
            assert(x.job_results@.len() == q.len());
            assert(x.success == (http && values_code(x.global_return_values@) == HbciStatusCode::Success && all_succeeded(x.job_results@)));
            assert(x.exception_messages@ == Map::<Seq<char>, Vec<String>>::empty());
        }
        Ok(exec_status)
    }
}


/// A network error for a response with HTTP status `status`.
pub open spec fn http_error(what: Seq<char>, status: u16) -> ErrorView {
    ErrorView {
        kind: HbciErrorKind::Network,
        message: "FinTS dialog "@ + what + " failed with HTTP status "@ + decimal(status as nat),
        source: None,
    }
}

fn http_failure(what: &str, status: u16) -> (e: HbciError)
    ensures
        e@ == http_error(what@, status),
{
    let mut m = concat("FinTS dialog ", what);
    crate::text::append(&mut m, " failed with HTTP status ");
    crate::text::push_decimal(&mut m, status as u64);
    HbciError::new(HbciErrorKind::Network, m.as_str())
}

/// The passport data after taking the TAN procedures that a status allows:
/// the sorted procedures of its 3920 return values, where there are some
/// and they differ from those allowed before.
pub open spec fn mechanisms_taken(new: PinTanPassportData, old: PinTanPassportData, status: HbciMsgStatus) -> bool {
    let ks = sorted_params(status);
    if ks.len() == 0 || ks == crate::passport::pintan::views(old.allowed_twostep_mechanisms@) {
        new == old
    } else {
        &&& crate::passport::pintan::views(new.allowed_twostep_mechanisms@) == ks
        &&& new == (PinTanPassportData { allowed_twostep_mechanisms: new.allowed_twostep_mechanisms, ..old })
    }
}

/// The passport data after a dialog initialisation response, before the
/// choice of the TAN procedure: `a` with the procedures that the status
/// allows, then `b` with the bank's and the user's parameters (past the
/// versions in `mid`; `n` and `k` items taken).
pub open spec fn init_parameters_taken(
    old: PinTanPassportData,
    status: HbciMsgStatus,
    values: Map<Seq<char>, String>,
    a: PinTanPassportData,
    mid: PinTanPassportData,
    n: int,
    b: PinTanPassportData,
    k: int,
) -> bool {
    &&& mechanisms_taken(a, old, status)
    &&& versions_updated(mid, a, text_view(values), "DialogInitRes"@, n)
    &&& parameter_data_updated(b, mid, values, "DialogInitRes"@, k)
}

/// The passport takes over what a dialog initialisation response holds:
/// the TAN procedures the user may use, the bank's parameters, the choice
/// of the TAN procedure, and the user's accounts.
#[verifier::rlimit(30)]
fn apply_init_parameters(passport: &mut PinTanPassport, status: &HbciMsgStatus, values: &Properties) -> (r: TanMethodSelection)
    ensures
        final(passport).sca_spec() == old(passport).sca_spec(),
        final(passport).pin_spec() == old(passport).pin_spec(),
        exists|a: PinTanPassportData, mid: PinTanPassportData, n: int, b: PinTanPassportData, k: int|
            #[trigger] init_parameters_taken(old(passport).data_spec(), *status, values@, a, mid, n, b, k)
                && selection_view(r) == determined(b),
{
    let _ = passport.update_allowed_twostep_mechanisms_from_status(status);
    let ghost a = passport.data_spec();
    let total = passport.update_parameter_data_from_values(values, "DialogInitRes");
    let ghost b = passport.data_spec();
    proof {
        let (mid, n) = choose|mid: PinTanPassportData, n: int| #[trigger] versions_updated(mid, a, text_view(values@), "DialogInitRes"@, n)
            && parameter_data_updated(b, mid, values@, "DialogInitRes"@, total as int - n);
        assert(init_parameters_taken(old(passport).data_spec(), *status, values@, a, mid, n, b, total as int - n));
    }
    let selection = passport.determine_tan_method();
    let _ = passport.update_accounts_from_values(values, "DialogInitRes.UPD");
    selection
}

impl HbciHandler {
    /// Takes the response to the dialog initialisation: the dialog is open,
    /// its status starts with the response's status, and the passport takes
    /// over the bank's and the user's parameters. Gives what the choice of
    /// the TAN procedure came to; where the user must choose, the caller
    /// asks and hands the answer to `choose_tan_method`.
    pub fn finish_dialog_init(&mut self, http_status: u16, values: &Properties, request_ref: &MessageReference) -> (r: HbciResult<TanMethodSelection>)
        ensures
            http_status >= 400 ==> (r matches Err(e) && e@ == http_error("init"@, http_status) && *final(self) == *old(self)),
            http_status < 400 && reference_check(text_view(values@), "DialogInitRes"@, request_ref.dialog_id@, request_ref.msgnum@) is Err
                ==> (r matches Err(e) && reference_check(text_view(values@), "DialogInitRes"@, request_ref.dialog_id@, request_ref.msgnum@)
                == Err::<(), ErrorView>(e@) && *final(self) == *old(self)),
            http_status < 400 && reference_check(text_view(values@), "DialogInitRes"@, request_ref.dialog_id@, request_ref.msgnum@) is Ok
                ==> match required_text(text_view(values@), "DialogInitRes.MsgHead.dialogid"@, "DialogInitRes did not contain a dialog id"@) {
                Err(x) => r matches Err(e) && e@ == x && *final(self) == *old(self),
                Ok(id) => {
                    &&& r is Ok
                    &&& final(self).dialog_view().dialog_id matches Some(fd) && fd@ == id
                    &&& final(self).dialog_view().system_id is None
                    &&& final(self).dialog_view().message_number == 2
                    &&& final(self).status_view().init_status is Some
                    &&& ret_views(final(self).status_view().init_status->0.global_status.return_values@)
                        == return_values_of(text_view(values@), "DialogInitRes"@ + ".RetGlob"@, true)
                    &&& ret_views(final(self).status_view().init_status->0.segment_status.return_values@)
                        == segment_values_of(text_view(values@), "DialogInitRes"@)
                    &&& final(self).status_view().message_statuses@.len() == 0
                    &&& final(self).status_view().end_status is None
                    &&& final(self).passport_view().sca_spec() == old(self).passport_view().sca_spec()
                    &&& final(self).passport_view().pin_spec() == old(self).passport_view().pin_spec()
                    &&& final(self).queue_view() == old(self).queue_view()
                },
            },
    {
        if http_status >= 400 {
            return Err(http_failure("init", http_status));
        }
        match validate_response_message_reference(values, "DialogInitRes", request_ref) {
            Ok(()) => {},
            Err(e) => {
                return Err(e);
            },
        }
        let init_status = message_status_from_values(values, "DialogInitRes");
        let dialog = match dialog_context_from_init_values(values) {
            Ok(d) => d,
            Err(e) => {
                return Err(e);
            },
        };
        self.dialog = dialog;
        let mut status = HbciDialogStatus::new();
        status.set_init_status(init_status);
        self.dialog_status = status;
        let selection = match &self.dialog_status.init_status {
            Some(s) => apply_init_parameters(&mut self.passport, s, values),
            None => TanMethodSelection::OneStepFallback,
        };
        assert(self.status_view().init_status is Some);
        assert(self.status_view().message_statuses@.len() == 0);
        assert(self.dialog_view().message_number == 2);
        assert(self.passport_view().sca_spec() == old(self).passport_view().sca_spec());
        assert(self.queue_view() == old(self).queue_view());
        Ok(selection)
    }

    /// The reference of the dialog end, where a dialog is open.
    pub fn close_reference(&self) -> (r: HbciResult<Option<MessageReference>>)
        ensures
            self.dialog_view().dialog_id is None ==> r matches Ok(None),
            self.dialog_view().dialog_id matches Some(id) ==> match opt_view(self.passport_view().data_spec().host) {
                None => r matches Err(e) && e@.kind == HbciErrorKind::InvalidArgument
                    && e@.message == "PinTAN passport has no FinTS endpoint"@,
                Some(_) => r matches Ok(Some(x)) && x.dialog_id@ == id@ && x.msgnum@ == decimal(
                    if self.dialog_view().message_number >= 1 { self.dialog_view().message_number as nat } else { 1 },
                ),
            },
    {
        if !self.dialog.is_open() {
            return Ok(None);
        }
        match self.host() {
            Ok(_) => {},
            Err(e) => {
                return Err(e);
            },
        }
        match self.dialog.open_dialog_id() {
            Some(id) => Ok(Some(MessageReference::new(id, self.dialog.current_message_number()))),
            None => Err(HbciError::new(HbciErrorKind::InvalidArgument, "DialogEnd requires an open FinTS dialog")),
        }
    }

    /// Takes the response to the dialog end: the dialog status keeps its end
    /// status, which must report success; the dialog is then closed.
    pub fn finish_close(&mut self, http_status: u16, values: &Properties, request_ref: &MessageReference) -> (r: HbciResult<()>)
        ensures
            http_status >= 400 ==> (r matches Err(e) && e@ == http_error("end"@, http_status) && *final(self) == *old(self)),
            http_status < 400 && reference_check(text_view(values@), "DialogEndRes"@, request_ref.dialog_id@, request_ref.msgnum@) is Err
                ==> (r matches Err(e) && reference_check(text_view(values@), "DialogEndRes"@, request_ref.dialog_id@, request_ref.msgnum@)
                == Err::<(), ErrorView>(e@) && *final(self) == *old(self)),
            http_status < 400 && reference_check(text_view(values@), "DialogEndRes"@, request_ref.dialog_id@, request_ref.msgnum@) is Ok
                && dialog_id_check(text_view(values@), "DialogEndRes"@, request_ref.dialog_id@) is Err
                ==> (r matches Err(e) && dialog_id_check(text_view(values@), "DialogEndRes"@, request_ref.dialog_id@)
                == Err::<(), ErrorView>(e@) && *final(self) == *old(self)),
            http_status < 400 && reference_check(text_view(values@), "DialogEndRes"@, request_ref.dialog_id@, request_ref.msgnum@) is Ok
                && dialog_id_check(text_view(values@), "DialogEndRes"@, request_ref.dialog_id@) is Ok ==> {
                &&& final(self).status_view().end_status is Some
                &&& ret_views(final(self).status_view().end_status->0.global_status.return_values@)
                    == return_values_of(text_view(values@), "DialogEndRes"@ + ".RetGlob"@, true)
                &&& ret_views(final(self).status_view().end_status->0.segment_status.return_values@)
                    == segment_values_of(text_view(values@), "DialogEndRes"@)
                &&& unit_result(r) == dialog_end_check(final(self).status_view().end_status->0)
                &&& final(self).status_view().init_status == old(self).status_view().init_status
                &&& final(self).status_view().message_statuses == old(self).status_view().message_statuses
                &&& r is Ok ==> final(self).dialog_view().dialog_id is None && final(self).dialog_view().message_number == 1
                &&& r is Err ==> final(self).dialog_view() == old(self).dialog_view()
                &&& final(self).passport_view() == old(self).passport_view()
                &&& final(self).queue_view() == old(self).queue_view()
            },
    {
        if http_status >= 400 {
            return Err(http_failure("end", http_status));
        }
        match validate_response_message_reference(values, "DialogEndRes", request_ref) {
            Ok(()) => {},
            Err(e) => {
                return Err(e);
            },
        }
        match validate_open_dialog_response_id(values, "DialogEndRes", request_ref) {
            Ok(()) => {},
            Err(e) => {
                return Err(e);
            },
        }
        let end_status = message_status_from_values(values, "DialogEndRes");
        let check = ensure_dialog_end_ok(&end_status);
        let ghost es = end_status;
        self.dialog_status.set_end_status(end_status);
        assert(self.status_view().end_status == Some(es));
        assert(self.passport_view() == old(self).passport_view());
        assert(self.queue_view() == old(self).queue_view());
        assert(self.status_view().init_status == old(self).status_view().init_status);
        match check {
            Ok(()) => {
                self.dialog.reset();
                Ok(())
            },
            Err(e) => Err(e),
        }
    }

    /// The first TAN request for a job, with the passport's TAN medium.
    pub fn new_tan2step_initial_job(&self, syntax: &ProtocolSyntax, task: &HbciJob) -> (r: HbciResult<HbciJob>)
        ensures
            ({
                let d = self.passport_view().data_spec();
                let media = if filled(d.tan_media) {
                    opt_view(d.tan_media)
                } else if crate::passport::pintan::media_required(d) {
                    Some("noref"@)
                } else {
                    None
                };
                &&& tan2step_param(d, "process"@) == Some("1"@) ==> job_result(r) == match source_info(task@.name) {
                    None => Err(source_error(task@.name)),
                    Some(_) => match task_segment_result(syntax.defs(), d, task@) {
                        Err(e) => Err(e),
                        Ok(seg) => process1_result(self.names_view(), d, task@, seg, media),
                    },
                }
                &&& tan2step_param(d, "process"@) != Some("1"@) ==> job_result(r) == process2_step1_result(self.names_view(), task@.name, media)
            }),
    {
        let media = self.passport.tan_media_for_hktan_without_callback();
        let m: Option<&str> = match &media {
            Some(x) => Some(x.as_str()),
            None => None,
        };
        new_tan2step_initial_job(&self.registry, syntax, &self.passport, task, m)
    }

    /// The first TAN request of process 1 for a job, with the passport's TAN medium.
    pub fn new_tan2step_process1_job(&self, syntax: &ProtocolSyntax, task: &HbciJob) -> (r: HbciResult<HbciJob>)
        ensures
            ({
                let d = self.passport_view().data_spec();
                let media = if filled(d.tan_media) {
                    opt_view(d.tan_media)
                } else if crate::passport::pintan::media_required(d) {
                    Some("noref"@)
                } else {
                    None
                };
                job_result(r) == match source_info(task@.name) {
                    None => Err(source_error(task@.name)),
                    Some(_) => match task_segment_result(syntax.defs(), d, task@) {
                        Err(e) => Err(e),
                        Ok(seg) => process1_result(self.names_view(), d, task@, seg, media),
                    },
                }
            }),
    {
        let media = self.passport.tan_media_for_hktan_without_callback();
        let m: Option<&str> = match &media {
            Some(x) => Some(x.as_str()),
            None => None,
        };
        new_tan2step_process1_job(&self.registry, syntax, &self.passport, task, m)
    }

    /// The first step of a process 2 TAN request for a job, with the
    /// passport's TAN medium.
    pub fn new_tan2step_process2_step1_job(&self, task: &HbciJob) -> (r: HbciResult<HbciJob>)
        ensures
            ({
                let d = self.passport_view().data_spec();
                let media = if filled(d.tan_media) {
                    opt_view(d.tan_media)
                } else if crate::passport::pintan::media_required(d) {
                    Some("noref"@)
                } else {
                    None
                };
                job_result(r) == process2_step1_result(self.names_view(), task@.name, media)
            }),
    {
        let media = self.passport.tan_media_for_hktan_without_callback();
        let m: Option<&str> = match &media {
            Some(x) => Some(x.as_str()),
            None => None,
        };
        new_tan2step_process2_step1_job(&self.registry, task, m)
    }

    /// The process 2 TAN request for the order the bank referred to.
    pub fn new_tan2step_process2_job(&self) -> (r: HbciResult<HbciJob>)
        ensures
            job_result(r) == process2_result(self.names_view(), self.passport_view().sca_spec().order_ref),
    {
        new_tan2step_process2_job(&self.registry, &self.passport)
    }
}

/// The text of institute message `i` of a dialog initialisation: its
/// subject, `: ` and its text (`null` without one).
pub open spec fn inst_message_text(values: Map<Seq<char>, String>, i: nat) -> Seq<char> {
    let h = counted_header("DialogInitRes.KIMsg"@, i);
    (match text_value(values, h + ".betreff"@) {
        Some(s) => s,
        None => seq![],
    }) + ": "@ + (match text_value(values, h + ".text"@) {
        Some(t) => t,
        None => "null"@,
    })
}

/// The institute messages of a dialog initialisation, as callback events:
/// one for each message under `DialogInitRes.KIMsg`, `_2`, ... as long as
/// it has a subject.
pub fn inst_message_events(values: &Properties) -> (r: Vec<CallbackEvent>)
    ensures
        forall|i: int| 0 <= i < r@.len() ==> (#[trigger] r@[i]).reason == CallbackReason::HaveInstMsg
            && r@[i].data_type == CallbackDataType::NoValue && r@[i].current_value is None
            && text_value(values@, counted_header("DialogInitRes.KIMsg"@, i as nat) + ".betreff"@) is Some
            && r@[i].message@ == inst_message_text(values@, i as nat),
        text_value(values@, counted_header("DialogInitRes.KIMsg"@, r@.len()) + ".betreff"@) is None,
{
    let messages = HbciInstMessage::collect_from_values(values, "DialogInitRes.KIMsg");
    let mut r: Vec<CallbackEvent> = Vec::new();
    let mut i: usize = 0;
    while i < messages.len()
        invariant
            i <= messages@.len(),
            r@.len() == i,
            forall|j: int|
                0 <= j < messages@.len() ==> text_value(
                    values@,
                    counted_header("DialogInitRes.KIMsg"@, j as nat) + ".betreff"@,
                ) == Some((#[trigger] messages@[j]).subject@) && opt_view(messages@[j].text) == text_value(
                    values@,
                    counted_header("DialogInitRes.KIMsg"@, j as nat) + ".text"@,
                ),
            forall|k: int| 0 <= k < r@.len() ==> (#[trigger] r@[k]).reason == CallbackReason::HaveInstMsg
                && r@[k].data_type == CallbackDataType::NoValue && r@[k].current_value is None
                && text_value(values@, counted_header("DialogInitRes.KIMsg"@, k as nat) + ".betreff"@) is Some
                && r@[k].message@ == inst_message_text(values@, k as nat),
        decreases messages.len() - i,
    {
        let text = messages[i].to_display_string();
        proof {
            let m = messages@[i as int];
            assert(text_value(values@, counted_header("DialogInitRes.KIMsg"@, i as nat) + ".betreff"@) == Some(m.subject@));
            assert(opt_view(m.text) == text_value(values@, counted_header("DialogInitRes.KIMsg"@, i as nat) + ".text"@));
            assert(text@ == inst_message_text(values@, i as nat));
        }
        r.push(CallbackEvent {
            reason: CallbackReason::HaveInstMsg,
            message: text,
            data_type: CallbackDataType::NoValue,
            current_value: None,
        });
        i += 1;
    }
    r
}

} // verus!
