//! The TAN requests (HKTAN) that accompany a job: the order hash of the
//! job's segment, its order account, and the later steps of a process.

use vstd::prelude::*;
use crate::error::{ErrorView, HbciError, HbciErrorKind, HbciResult};
use crate::gv::{constraint_table, set_result, with_structured_fields, HbciJob, JobRegistry, JobView};
use crate::gv_result::Konto;
use crate::manager::handler::{opt_view, text_result};
use crate::manager::orderhash::{hash_error, mode_digest, mode_of, segment_error, OrderHashMode};
use crate::manager::render::{
    effective_account, effective_job_account, first_text, has_account_identity, has_identity,
    job_rendered, render_job_into_custom_message, same_konto, empty_konto, base_account,
    job_value, overlay, effective_identity,
};
use crate::passport::pintan::{order_hash_code, tan2step_param, PinTanPassport, PinTanPassportData};
use crate::protocol::builder::{built_message, set_value_result};
use crate::protocol::message::{find, protocol_error, render, ElementView, HbciMessage};
use crate::text::{append, concat, latin1_bytes, latin1_chars, latin1_encodable, owned, str_eq, trim, trim_str};
use crate::tools::opt_str_view;

verus! {

/// The job whose order a TAN request covers: its segment code, the name of
/// its segment and the path of that segment in a job message.
#[derive(Debug, Clone, Copy)]
pub struct OrderhashSourceJobInfo {
    pub code: &'static str,
    pub lowlevel_segment: &'static str,
    pub path: &'static str,
}

/// Code, segment and path for the jobs that a TAN request can cover.
pub open spec fn source_info(name: Seq<char>) -> Option<(Seq<char>, Seq<char>, Seq<char>)> {
    if name == "KUmsAll"@ {
        Some(("HKKAZ"@, "KUmsZeit7"@, "CustomMsg.GV.KUmsZeit7"@))
    } else if name == "KUmsAllCamt"@ {
        Some(("HKCAZ"@, "KUmsZeitCamt1"@, "CustomMsg.GV.KUmsZeitCamt1"@))
    } else if name == "KUmsNew"@ {
        Some(("HKKAN"@, "KUmsNew7"@, "CustomMsg.GV.KUmsNew7"@))
    } else if name == "SaldoReq"@ || name == "SaldoReqAll"@ {
        Some(("HKSAL"@, "Saldo7"@, "CustomMsg.GV.Saldo7"@))
    } else {
        None
    }
}

pub open spec fn source_error(name: Seq<char>) -> ErrorView {
    ErrorView {
        kind: HbciErrorKind::Unsupported,
        message: "process-1 HKTAN preparation is not supported for "@ + name,
        source: None,
    }
}

pub fn orderhash_source_job_info(job_name: &str) -> (r: HbciResult<OrderhashSourceJobInfo>)
    ensures
        match source_info(job_name@) {
            Some((c, l, p)) => r matches Ok(i) && i.code@ == c && i.lowlevel_segment@ == l && i.path@ == p,
            None => r matches Err(e) && e@ == source_error(job_name@),
        },
{
    if str_eq(job_name, "KUmsAll") {
        Ok(OrderhashSourceJobInfo { code: "HKKAZ", lowlevel_segment: "KUmsZeit7", path: "CustomMsg.GV.KUmsZeit7" })
    } else if str_eq(job_name, "KUmsAllCamt") {
        Ok(OrderhashSourceJobInfo {
            code: "HKCAZ",
            lowlevel_segment: "KUmsZeitCamt1",
            path: "CustomMsg.GV.KUmsZeitCamt1",
        })
    } else if str_eq(job_name, "KUmsNew") {
        Ok(OrderhashSourceJobInfo { code: "HKKAN", lowlevel_segment: "KUmsNew7", path: "CustomMsg.GV.KUmsNew7" })
    } else if str_eq(job_name, "SaldoReq") || str_eq(job_name, "SaldoReqAll") {
        Ok(OrderhashSourceJobInfo { code: "HKSAL", lowlevel_segment: "Saldo7", path: "CustomMsg.GV.Saldo7" })
    } else {
        let m = concat("process-1 HKTAN preparation is not supported for ", job_name);
        Err(HbciError::new(HbciErrorKind::Unsupported, m.as_str()))
    }
}

// ---------------------------------------------------------------------------
// Building the request
// ---------------------------------------------------------------------------

/// A new job of kind `name` from a registry offering `names`.
pub open spec fn new_job_result(names: Seq<Seq<char>>, name: Seq<char>) -> Result<JobView, ErrorView> {
    if names.contains(name) {
        Ok(JobView { name, params: Map::empty(), lowlevel: Map::empty(), constraints: constraint_table(name) })
    } else {
        Err(ErrorView {
            kind: HbciErrorKind::Unsupported,
            message: "unsupported or out-of-scope job: "@ + name,
            source: None,
        })
    }
}

/// Setting a parameter after the steps before succeeded.
pub open spec fn then_set(r: Result<JobView, ErrorView>, f: Seq<char>, v: Seq<char>) -> Result<JobView, ErrorView> {
    match r {
        Ok(j) => set_result(j, f, v),
        Err(e) => Err(e),
    }
}

/// Setting a parameter where a non-empty value is given.
pub open spec fn then_set_opt(r: Result<JobView, ErrorView>, f: Seq<char>, v: Option<Seq<char>>) -> Result<JobView, ErrorView> {
    match v {
        Some(x) => if x.len() > 0 {
            then_set(r, f, x)
        } else {
            r
        },
        None => r,
    }
}

pub open spec fn job_result(r: HbciResult<HbciJob>) -> Result<JobView, ErrorView> {
    match r {
        Ok(j) => Ok(j@),
        Err(e) => Err(e@),
    }
}

fn set_param_checked(job: HbciJob, name: &str, value: &str) -> (r: HbciResult<HbciJob>)
    ensures
        job_result(r) == set_result(job@, name@, value@),
{
    let mut job = job;
    match job.try_set_param(name, value) {
        Ok(()) => Ok(job),
        Err(e) => Err(e),
    }
}

fn set_param_opt(job: HbciJob, name: &str, value: Option<&str>) -> (r: HbciResult<HbciJob>)
    ensures
        job_result(r) == then_set_opt(Ok(job@), name@, opt_str_view(value)),
{
    match value {
        Some(v) => {
            if v.unicode_len() > 0 {
                set_param_checked(job, name, v)
            } else {
                Ok(job)
            }
        },
        None => Ok(job),
    }
}

/// The first step of a two-step process 2 request: which job it covers and
/// the TAN medium, where one is given.
pub open spec fn process2_step1_result(names: Seq<Seq<char>>, task: Seq<char>, tan_media: Option<Seq<char>>) -> Result<JobView, ErrorView> {
    match source_info(task) {
        None => Err(source_error(task)),
        Some((code, _, _)) => then_set_opt(
            then_set(then_set(new_job_result(names, "TAN2Step"@), "process"@, "4"@), "ordersegcode"@, code),
            "tanmedia"@,
            tan_media,
        ),
    }
}

pub fn new_tan2step_process2_step1_job(registry: &JobRegistry, task: &HbciJob, tan_media: Option<&str>) -> (r: HbciResult<HbciJob>)
    ensures
        job_result(r) == process2_step1_result(registry.names_view(), task@.name, opt_str_view(tan_media)),
{
    let info = match orderhash_source_job_info(task.name()) {
        Ok(i) => i,
        Err(e) => {
            return Err(e);
        },
    };
    let hktan = match registry.new_job("TAN2Step") {
        Ok(j) => j,
        Err(e) => {
            return Err(e);
        },
    };
    let hktan = match set_param_checked(hktan, "process", "4") {
        Ok(j) => j,
        Err(e) => {
            return Err(e);
        },
    };
    let hktan = match set_param_checked(hktan, "ordersegcode", info.code) {
        Ok(j) => j,
        Err(e) => {
            return Err(e);
        },
    };
    set_param_opt(hktan, "tanmedia", tan_media)
}

/// The order reference of the current strong authentication, where it is
/// not blank.
pub open spec fn usable_order_ref(o: Option<String>) -> Option<Seq<char>> {
    match o {
        Some(r) => if trim(r@).len() > 0 {
            Some(r@)
        } else {
            None
        },
        None => None,
    }
}

pub open spec fn process2_result(names: Seq<Seq<char>>, order_ref: Option<String>) -> Result<JobView, ErrorView> {
    match usable_order_ref(order_ref) {
        None => Err(ErrorView {
            kind: HbciErrorKind::InvalidArgument,
            message: "PinTAN SCA state does not contain an order reference for process-2 HKTAN"@,
            source: None,
        }),
        Some(r) => then_set(
            then_set(then_set(new_job_result(names, "TAN2Step"@), "process"@, "2"@), "orderref"@, r),
            "notlasttan"@,
            "N"@,
        ),
    }
}

/// The TAN request of process 2 that sends the TAN for the order the bank
/// referred to.
pub fn new_tan2step_process2_job(registry: &JobRegistry, passport: &PinTanPassport) -> (r: HbciResult<HbciJob>)
    ensures
        job_result(r) == process2_result(registry.names_view(), passport.sca_spec().order_ref),
{
    let order_ref: &str = match &passport.sca_state().order_ref {
        Some(r) => {
            let t = trim_str(r.as_str());
            if t.unicode_len() > 0 {
                r.as_str()
            } else {
                return Err(HbciError::new(
                    HbciErrorKind::InvalidArgument,
                    "PinTAN SCA state does not contain an order reference for process-2 HKTAN",
                ));
            }
        },
        None => {
            return Err(HbciError::new(
                HbciErrorKind::InvalidArgument,
                "PinTAN SCA state does not contain an order reference for process-2 HKTAN",
            ));
        },
    };
    let hktan = match registry.new_job("TAN2Step") {
        Ok(j) => j,
        Err(e) => {
            return Err(e);
        },
    };
    let hktan = match set_param_checked(hktan, "process", "2") {
        Ok(j) => j,
        Err(e) => {
            return Err(e);
        },
    };
    let hktan = match set_param_checked(hktan, "orderref", order_ref) {
        Ok(j) => j,
        Err(e) => {
            return Err(e);
        },
    };
    set_param_checked(hktan, "notlasttan", "N")
}


// ---------------------------------------------------------------------------
// Process 1: the order hash
// ---------------------------------------------------------------------------

/// The job's segment in wire syntax, as the order hash covers it: the job
/// rendered alone into a job message, as its third segment.
pub open spec fn task_segment_result(defs: Map<Seq<char>, crate::protocol::model::SyntaxDefinition>, d: PinTanPassportData, task: JobView) -> Result<Seq<char>, ErrorView> {
    match built_message(defs, "CustomMsg"@) {
        Err(e) => Err(e),
        Ok(e0) => match source_info(task.name) {
            None => Err(source_error(task.name)),
            Some((_, _, path)) => {
                let (e1, r1) = job_rendered(e0, d, task, 0);
                match r1 {
                    Err(x) => Err(x),
                    Ok(_) => match set_value_result(e1, path + ".SegHead.seq"@, "3"@) {
                        Err(x) => Err(x),
                        Ok(e2) => match find(e2, path) {
                            None => Err(protocol_error("message element path "@ + path + " is not defined"@)),
                            Some(x) => match render(x, None, true) {
                                Ok(Some(t)) => Ok(t),
                                Ok(None) => Ok(seq![]),
                                Err(err) => Err(err),
                            },
                        },
                    },
                }
            },
        },
    }
}

pub fn render_task_segment_for_orderhash(
    syntax: &crate::protocol::model::ProtocolSyntax,
    task: &HbciJob,
    passport: &PinTanPassport,
) -> (r: HbciResult<String>)
    ensures
        text_result(r) == task_segment_result(syntax.defs(), passport.data_spec(), task@),
{
    let mut message = match HbciMessage::from_syntax(syntax, "CustomMsg") {
        Ok(m) => m,
        Err(e) => {
            return Err(e);
        },
    };
    let info = match orderhash_source_job_info(task.name()) {
        Ok(i) => i,
        Err(e) => {
            return Err(e);
        },
    };
    match render_job_into_custom_message(&mut message, task, 0, passport) {
        Ok(()) => {},
        Err(e) => {
            return Err(e);
        },
    }
    let seq_path = concat(info.path, ".SegHead.seq");
    match crate::manager::render::set_optional_message_value(&mut message, seq_path.as_str(), Some("3")) {
        Ok(()) => {},
        Err(e) => {
            proof {
                reveal_strlit("3");
            }
            return Err(e);
        },
    }
    proof {
        reveal_strlit("3");
    }
    match message.element(info.path) {
        None => {
            let mut m = concat("message element path ", info.path);
            append(&mut m, " is not defined");
            Err(HbciError::new(HbciErrorKind::Protocol, m.as_str()))
        },
        Some(x) => {
            let r = x.to_fints_string();
            proof {
                if r is Ok && render(x@, None, true) == Ok::<Option<Seq<char>>, ErrorView>(None) {
                    assert(r->Ok_0@ =~= seq![]);
                }
            }
            r
        },
    }
}

/// The fields of the job's account as the structured parameter of a TAN
/// request: those the job gives, else the passport's first account's.
pub open spec fn order_account_param_fields(d: PinTanPassportData, j: JobView, low: Seq<char>) -> Seq<(Seq<char>, Option<Seq<char>>)> {
    let base = "my"@;
    seq![
        ("country"@, overlay(first_text(d, |a: Konto| a.country), job_value(j, low + ".KTV.KIK.country"@, base + ".country"@))),
        ("blz"@, overlay(first_text(d, |a: Konto| a.blz), job_value(j, low + ".KTV.KIK.blz"@, base + ".blz"@))),
        ("number"@, overlay(first_text(d, |a: Konto| a.number), job_value(j, low + ".KTV.number"@, base + ".number"@))),
        ("subnumber"@, overlay(first_text(d, |a: Konto| a.subnumber), job_value(j, low + ".KTV.subnumber"@, base + ".subnumber"@))),
        ("name"@, first_text(d, |a: Konto| a.name)),
        ("curr"@, if d.accounts@.len() > 0 { opt_view(d.accounts@[0].curr) } else { Some("EUR"@) }),
        ("bic"@, overlay(first_text(d, |a: Konto| a.bic), job_value(j, low + ".KTV.bic"@, base + ".bic"@))),
        ("iban"@, overlay(first_text(d, |a: Konto| a.iban), job_value(j, low + ".KTV.iban"@, base + ".iban"@))),
    ]
}

proof fn lemma_order_account_fields(k: Konto, d: PinTanPassportData, j: JobView, low: Seq<char>)
    requires
        effective_account(k, d, j, low, "my"@),
    ensures
        crate::gv::account_fields(k) == order_account_param_fields(d, j, low),
{
    let b = choose|b: Konto| #[trigger] base_account(b, d) && ({
        &&& opt_view(k.iban) == overlay(opt_view(b.iban), job_value(j, low + ".KTV.iban"@, "my"@ + ".iban"@))
        &&& opt_view(k.bic) == overlay(opt_view(b.bic), job_value(j, low + ".KTV.bic"@, "my"@ + ".bic"@))
        &&& opt_view(k.country) == overlay(opt_view(b.country), job_value(j, low + ".KTV.KIK.country"@, "my"@ + ".country"@))
        &&& opt_view(k.blz) == overlay(opt_view(b.blz), job_value(j, low + ".KTV.KIK.blz"@, "my"@ + ".blz"@))
        &&& opt_view(k.number) == overlay(opt_view(b.number), job_value(j, low + ".KTV.number"@, "my"@ + ".number"@))
        &&& opt_view(k.subnumber) == overlay(opt_view(b.subnumber), job_value(j, low + ".KTV.subnumber"@, "my"@ + ".subnumber"@))
        &&& same_konto(Konto { iban: b.iban, bic: b.bic, country: b.country, blz: b.blz, number: b.number, subnumber: b.subnumber, ..k }, b)
    });
    assert(crate::gv::account_fields(k) =~= order_account_param_fields(d, j, low));
}

/// The first step of a two-step process 1 request for the job, given the
/// job's segment: the order hash over it and, where the bank asks for it,
/// the order account.
pub open spec fn process1_result(
    names: Seq<Seq<char>>,
    d: PinTanPassportData,
    task: JobView,
    segment: Seq<char>,
    tan_media: Option<Seq<char>>,
) -> Result<JobView, ErrorView> {
    match source_info(task.name) {
        None => Err(source_error(task.name)),
        Some((code, low, _)) => match order_hash_code(d) {
            None => Err(ErrorView {
                kind: HbciErrorKind::InvalidArgument,
                message: "PinTAN BPD does not contain orderhashmode for current HKTAN segment version"@,
                source: None,
            }),
            Some(mc) => match mode_of(mc) {
                Err(e) => Err(e),
                Ok(mode) => if !latin1_encodable(segment) {
                    Err(hash_error(segment))
                } else {
                    let hash = latin1_chars(mode_digest(mode, latin1_bytes(segment)));
                    let base = then_set(
                        then_set(
                            then_set(then_set(new_job_result(names, "TAN2Step"@), "process"@, "1"@), "ordersegcode"@, code),
                            "notlasttan"@,
                            "N"@,
                        ),
                        "orderhash"@,
                        hash,
                    );
                    let with_account = match base {
                        Ok(j) => if tan2step_param(d, "needorderaccount"@) == Some("2"@) && effective_identity(d, task, low, "my"@) {
                            Ok(with_structured_fields(j, "orderaccount"@, order_account_param_fields(d, task, low)))
                        } else {
                            Ok(j)
                        },
                        Err(e) => Err(e),
                    };
                    then_set_opt(with_account, "tanmedia"@, tan_media)
                },
            },
        },
    }
}

/// The job's account for a TAN request, where it has an IBAN or a number.
pub fn task_order_account(task: &HbciJob, passport: &PinTanPassport) -> (r: Option<Konto>)
    ensures
        match source_info(task@.name) {
            None => r is None,
            Some((_, low, _)) => if effective_identity(passport.data_spec(), task@, low, "my"@) {
                r matches Some(k) && effective_account(k, passport.data_spec(), task@, low, "my"@)
            } else {
                r is None
            },
        },
{
    let info = match orderhash_source_job_info(task.name()) {
        Ok(i) => i,
        Err(_) => {
            return None;
        },
    };
    let account = effective_job_account(task, passport, info.lowlevel_segment, "my");
    proof {
        crate::manager::render::lemma_effective_fields(account, passport.data_spec(), task@, ""@, info.lowlevel_segment@, "my"@);
    }
    if has_account_identity(&account) {
        Some(account)
    } else {
        None
    }
}

/// The first TAN request of process 1 for a job whose segment is `task_segment`.
pub fn new_tan2step_process1_job_for_segment(
    registry: &JobRegistry,
    passport: &PinTanPassport,
    task: &HbciJob,
    task_segment: &str,
    tan_media: Option<&str>,
) -> (r: HbciResult<HbciJob>)
    ensures
        job_result(r) == process1_result(registry.names_view(), passport.data_spec(), task@, task_segment@, opt_str_view(tan_media)),
{
    let info = match orderhash_source_job_info(task.name()) {
        Ok(i) => i,
        Err(e) => {
            return Err(e);
        },
    };
    let mode_code = match passport.order_hash_mode_code() {
        Some(c) => c,
        None => {
            return Err(HbciError::new(
                HbciErrorKind::InvalidArgument,
                "PinTAN BPD does not contain orderhashmode for current HKTAN segment version",
            ));
        },
    };
    let mode = match OrderHashMode::from_code(mode_code.as_str()) {
        Ok(m) => m,
        Err(e) => {
            return Err(e);
        },
    };
    let order_hash = match mode.hash_segment(task_segment) {
        Ok(h) => h,
        Err(e) => {
            proof {
                crate::manager::orderhash::lemma_segment_error(task_segment@, e@);
            }
            return Err(e);
        },
    };
    let hktan = match registry.new_job("TAN2Step") {
        Ok(j) => j,
        Err(e) => {
            return Err(e);
        },
    };
    let hktan = match set_param_checked(hktan, "process", "1") {
        Ok(j) => j,
        Err(e) => {
            return Err(e);
        },
    };
    let hktan = match set_param_checked(hktan, "ordersegcode", info.code) {
        Ok(j) => j,
        Err(e) => {
            return Err(e);
        },
    };
    let hktan = match set_param_checked(hktan, "notlasttan", "N") {
        Ok(j) => j,
        Err(e) => {
            return Err(e);
        },
    };
    let mut hktan = match set_param_checked(hktan, "orderhash", order_hash.as_str()) {
        Ok(j) => j,
        Err(e) => {
            return Err(e);
        },
    };
    let need = passport.tan2step_parameter("needorderaccount");
    let wants_account = match &need {
        Some(v) => str_eq(v.as_str(), "2"),
        None => false,
    };
    if wants_account {
        match task_order_account(task, passport) {
            Some(account) => {
                proof {
                    lemma_order_account_fields(account, passport.data_spec(), task@, info.lowlevel_segment@);
                }
                hktan.set_param_account("orderaccount", &account);
            },
            None => {},
        }
    }
    set_param_opt(hktan, "tanmedia", tan_media)
}

/// The first TAN request of process 1 for a job: its segment is rendered
/// with the message syntax, then hashed.
pub fn new_tan2step_process1_job(
    registry: &JobRegistry,
    syntax: &crate::protocol::model::ProtocolSyntax,
    passport: &PinTanPassport,
    task: &HbciJob,
    tan_media: Option<&str>,
) -> (r: HbciResult<HbciJob>)
    ensures
        job_result(r) == match source_info(task@.name) {
            None => Err(source_error(task@.name)),
            Some(_) => match task_segment_result(syntax.defs(), passport.data_spec(), task@) {
                Err(e) => Err(e),
                Ok(seg) => process1_result(registry.names_view(), passport.data_spec(), task@, seg, opt_str_view(tan_media)),
            },
        },
{
    match orderhash_source_job_info(task.name()) {
        Ok(_) => {},
        Err(e) => {
            return Err(e);
        },
    }
    let segment = match render_task_segment_for_orderhash(syntax, task, passport) {
        Ok(s) => s,
        Err(e) => {
            return Err(e);
        },
    };
    new_tan2step_process1_job_for_segment(registry, passport, task, segment.as_str(), tan_media)
}

/// The first TAN request for a job: process 1 where the bank's TAN
/// procedure uses it, else the first step of process 2.
pub fn new_tan2step_initial_job(
    registry: &JobRegistry,
    syntax: &crate::protocol::model::ProtocolSyntax,
    passport: &PinTanPassport,
    task: &HbciJob,
    tan_media: Option<&str>,
) -> (r: HbciResult<HbciJob>)
    ensures
        tan2step_param(passport.data_spec(), "process"@) == Some("1"@) ==> job_result(r) == match source_info(task@.name) {
            None => Err(source_error(task@.name)),
            Some(_) => match task_segment_result(syntax.defs(), passport.data_spec(), task@) {
                Err(e) => Err(e),
                Ok(seg) => process1_result(registry.names_view(), passport.data_spec(), task@, seg, opt_str_view(tan_media)),
            },
        },
        tan2step_param(passport.data_spec(), "process"@) != Some("1"@) ==> job_result(r) == process2_step1_result(
            registry.names_view(),
            task@.name,
            opt_str_view(tan_media),
        ),
{
    let process = passport.tan2step_parameter("process");
    let is_one = match &process {
        Some(p) => str_eq(p.as_str(), "1"),
        None => false,
    };
    if is_one {
        new_tan2step_process1_job(registry, syntax, passport, task, tan_media)
    } else {
        new_tan2step_process2_step1_job(registry, task, tan_media)
    }
}

} // verus!
