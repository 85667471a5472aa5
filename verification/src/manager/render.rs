//! Filling the job segments of a request message from the queued jobs and
//! the passport's accounts.

use vstd::prelude::*;
use crate::error::{ErrorView, HbciError, HbciErrorKind, HbciResult};
use crate::gv::{HbciJob, JobView};
use crate::gv_result::exec::{counted_header, counted_header_string};
use crate::gv_result::Konto;
use crate::manager::handler::{opt_view, unit_result};
use crate::passport::pintan::{copy_limit, limit_view, views, PinTanPassport, PinTanPassportData};
use crate::protocol::builder::set_value_result;
use crate::protocol::message::{ElementView, HbciMessage};
use crate::text::{append, char_len, concat, decimal, owned, push_decimal, str_eq};
use crate::tools::opt_str_view;
use crate::sepa::CAMT_052_001_01_URN;

verus! {

// ---------------------------------------------------------------------------
// Job parameters
// ---------------------------------------------------------------------------

/// A job parameter by its data element name, else by its frontend name;
/// an empty value counts as none.
pub open spec fn job_value(j: JobView, lowlevel: Seq<char>, frontend: Seq<char>) -> Option<Seq<char>> {
    let v = if j.lowlevel.contains_key(lowlevel) {
        Some(j.lowlevel[lowlevel])
    } else if j.params.contains_key(frontend) {
        Some(j.params[frontend])
    } else {
        None
    };
    match v {
        Some(x) => if x.len() > 0 {
            Some(x)
        } else {
            None
        },
        None => None,
    }
}

pub fn job_param<'a>(job: &'a HbciJob, lowlevel_name: &str, frontend_name: &str) -> (r: Option<&'a str>)
    ensures
        opt_str_view(r) == job_value(job@, lowlevel_name@, frontend_name@),
{
    let v = match job.lowlevel_param(lowlevel_name) {
        Some(x) => Some(x),
        None => job.param(frontend_name),
    };
    match v {
        Some(x) => {
            if char_len(x) > 0 {
                Some(x)
            } else {
                None
            }
        },
        None => None,
    }
}

pub fn job_param_required<'a>(job: &'a HbciJob, lowlevel_name: &str, frontend_name: &str, message: &str) -> (r: HbciResult<&'a str>)
    ensures
        match job_value(job@, lowlevel_name@, frontend_name@) {
            Some(v) => r matches Ok(x) && x@ == v,
            None => r matches Err(e) && e@ == (ErrorView { kind: HbciErrorKind::InvalidArgument, message: message@, source: None }),
        },
{
    match job_param(job, lowlevel_name, frontend_name) {
        Some(v) => Ok(v),
        None => Err(HbciError::new(HbciErrorKind::InvalidArgument, message)),
    }
}

/// The order hash of a TAN request: as data element, else the frontend
/// value marked as binary.
pub open spec fn orderhash_value(j: JobView) -> Option<Seq<char>> {
    if j.lowlevel.contains_key("TAN2Step5.orderhash"@) && j.lowlevel["TAN2Step5.orderhash"@].len() > 0 {
        Some(j.lowlevel["TAN2Step5.orderhash"@])
    } else if j.params.contains_key("orderhash"@) && j.params["orderhash"@].len() > 0 {
        Some(seq!['B'] + j.params["orderhash"@])
    } else {
        None
    }
}

pub fn tan_orderhash_param(job: &HbciJob) -> (r: Option<String>)
    ensures
        opt_view(r) == orderhash_value(job@),
{
    match job.lowlevel_param("TAN2Step5.orderhash") {
        Some(v) => {
            if char_len(v) > 0 {
                return Some(owned(v));
            }
        },
        None => {},
    }
    match job.param("orderhash") {
        Some(v) => {
            if char_len(v) > 0 {
                let r = concat("B", v);
                proof {
                    reveal_strlit("B");
                }
                assert(r@ =~= seq!['B'] + v@);
                Some(r)
            } else {
                None
            }
        },
        None => None,
    }
}

// ---------------------------------------------------------------------------
// Accounts
// ---------------------------------------------------------------------------

/// The value if one is given, else what was there.
pub open spec fn overlay(target: Option<Seq<char>>, value: Option<Seq<char>>) -> Option<Seq<char>> {
    match value {
        Some(v) => if v.len() > 0 {
            Some(v)
        } else {
            target
        },
        None => target,
    }
}

pub fn overlay_account_param(target: &mut Option<String>, value: Option<&str>)
    ensures
        opt_view(*final(target)) == overlay(opt_view(*old(target)), opt_str_view(value)),
{
    match value {
        Some(v) => {
            if char_len(v) > 0 {
                *target = Some(owned(v));
            }
        },
        None => {},
    }
}

/// Whether an account can be named: it has an IBAN or a number.
pub open spec fn has_identity(k: Konto) -> bool {
    (opt_view(k.iban) matches Some(i) && i.len() > 0) || (opt_view(k.number) matches Some(n) && n.len() > 0)
}

pub fn has_account_identity(account: &Konto) -> (b: bool)
    ensures
        b == has_identity(*account),
{
    let a = match &account.iban {
        Some(v) => char_len(v.as_str()) > 0,
        None => false,
    };
    let b = match &account.number {
        Some(v) => char_len(v.as_str()) > 0,
        None => false,
    };
    a || b
}

/// The same fields, by value.
pub open spec fn same_konto(a: Konto, b: Konto) -> bool {
    &&& opt_view(a.country) == opt_view(b.country)
    &&& opt_view(a.blz) == opt_view(b.blz)
    &&& opt_view(a.number) == opt_view(b.number)
    &&& opt_view(a.subnumber) == opt_view(b.subnumber)
    &&& opt_view(a.bic) == opt_view(b.bic)
    &&& opt_view(a.iban) == opt_view(b.iban)
    &&& opt_view(a.customer_id) == opt_view(b.customer_id)
    &&& opt_view(a.name) == opt_view(b.name)
    &&& opt_view(a.name2) == opt_view(b.name2)
    &&& opt_view(a.creditorid) == opt_view(b.creditorid)
    &&& opt_view(a.acctype) == opt_view(b.acctype)
    &&& opt_view(a.account_type) == opt_view(b.account_type)
    &&& opt_view(a.curr) == opt_view(b.curr)
    &&& limit_view(a.limit) == limit_view(b.limit)
    &&& views(a.allowed_gvs@) == views(b.allowed_gvs@)
}

fn copy_text(o: &Option<String>) -> (r: Option<String>)
    ensures
        opt_view(r) == opt_view(*o),
{
    match o {
        Some(s) => Some(owned(s.as_str())),
        None => None,
    }
}

/// A copy of an account.
pub fn copy_konto(k: &Konto) -> (r: Konto)
    ensures
        same_konto(r, *k),
{
    let gvs = crate::gv_result::status::clone_strings(&k.allowed_gvs);
    proof {
        assert(views(gvs@) =~= crate::gv_result::status::str_views(gvs@));
        assert(views(k.allowed_gvs@) =~= crate::gv_result::status::str_views(k.allowed_gvs@));
    }
    Konto {
        country: copy_text(&k.country),
        blz: copy_text(&k.blz),
        number: copy_text(&k.number),
        subnumber: copy_text(&k.subnumber),
        bic: copy_text(&k.bic),
        iban: copy_text(&k.iban),
        customer_id: copy_text(&k.customer_id),
        name: copy_text(&k.name),
        name2: copy_text(&k.name2),
        creditorid: copy_text(&k.creditorid),
        acctype: copy_text(&k.acctype),
        account_type: copy_text(&k.account_type),
        curr: copy_text(&k.curr),
        limit: copy_limit(&k.limit),
        allowed_gvs: gvs,
    }
}

/// An account without data, in euros.
pub open spec fn empty_konto(k: Konto) -> bool {
    &&& k.country is None && k.blz is None && k.number is None && k.subnumber is None
    &&& k.bic is None && k.iban is None && k.customer_id is None && k.name is None
    &&& k.name2 is None && k.creditorid is None && k.acctype is None
    &&& k.account_type is None && k.limit is None && k.allowed_gvs@.len() == 0
    &&& opt_view(k.curr) == Some("EUR"@)
}

/// The account a job works on: the passport's first account (or an empty
/// one), with the fields that the job gives for segment `seg` or under the
/// frontend name `base` put over it.
pub open spec fn effective_account(k: Konto, d: PinTanPassportData, j: JobView, seg: Seq<char>, base: Seq<char>) -> bool {
    exists|b: Konto| #[trigger] base_account(b, d) && ({
        &&& opt_view(k.iban) == overlay(opt_view(b.iban), job_value(j, seg + ".KTV.iban"@, base + ".iban"@))
        &&& opt_view(k.bic) == overlay(opt_view(b.bic), job_value(j, seg + ".KTV.bic"@, base + ".bic"@))
        &&& opt_view(k.country) == overlay(opt_view(b.country), job_value(j, seg + ".KTV.KIK.country"@, base + ".country"@))
        &&& opt_view(k.blz) == overlay(opt_view(b.blz), job_value(j, seg + ".KTV.KIK.blz"@, base + ".blz"@))
        &&& opt_view(k.number) == overlay(opt_view(b.number), job_value(j, seg + ".KTV.number"@, base + ".number"@))
        &&& opt_view(k.subnumber) == overlay(opt_view(b.subnumber), job_value(j, seg + ".KTV.subnumber"@, base + ".subnumber"@))
        &&& same_konto(Konto { iban: b.iban, bic: b.bic, country: b.country, blz: b.blz, number: b.number, subnumber: b.subnumber, ..k }, b)
    })
}

/// The account a job starts from: the passport's first one, else an empty one.
pub open spec fn base_account(b: Konto, d: PinTanPassportData) -> bool {
    if d.accounts@.len() > 0 {
        same_konto(b, d.accounts@[0])
    } else {
        empty_konto(b)
    }
}

pub fn effective_job_account(job: &HbciJob, passport: &PinTanPassport, lowlevel_segment: &str, frontend_base: &str) -> (k: Konto)
    ensures
        effective_account(k, passport.data_spec(), job@, lowlevel_segment@, frontend_base@),
{
    let mut account = match passport.first_account() {
        Some(a) => copy_konto(a),
        None => Konto::default(),
    };
    let ghost b = account;
    overlay_account_param(&mut account.iban, job_param(job, concat(lowlevel_segment, ".KTV.iban").as_str(), concat(frontend_base, ".iban").as_str()));
    overlay_account_param(&mut account.bic, job_param(job, concat(lowlevel_segment, ".KTV.bic").as_str(), concat(frontend_base, ".bic").as_str()));
    overlay_account_param(&mut account.country, job_param(job, concat(lowlevel_segment, ".KTV.KIK.country").as_str(), concat(frontend_base, ".country").as_str()));
    overlay_account_param(&mut account.blz, job_param(job, concat(lowlevel_segment, ".KTV.KIK.blz").as_str(), concat(frontend_base, ".blz").as_str()));
    overlay_account_param(&mut account.number, job_param(job, concat(lowlevel_segment, ".KTV.number").as_str(), concat(frontend_base, ".number").as_str()));
    overlay_account_param(&mut account.subnumber, job_param(job, concat(lowlevel_segment, ".KTV.subnumber").as_str(), concat(frontend_base, ".subnumber").as_str()));
    proof {
        assert(base_account(b, passport.data_spec()));
    }
    account
}

/// The account of a TAN request's order, from the job's parameters.
pub open spec fn order_account(k: Konto, j: JobView) -> bool {
    &&& opt_view(k.iban) == job_value(j, "TAN2Step5.OrderAccount.iban"@, "orderaccount.iban"@)
    &&& opt_view(k.bic) == job_value(j, "TAN2Step5.OrderAccount.bic"@, "orderaccount.bic"@)
    &&& opt_view(k.number) == job_value(j, "TAN2Step5.OrderAccount.number"@, "orderaccount.number"@)
    &&& opt_view(k.subnumber) == job_value(j, "TAN2Step5.OrderAccount.subnumber"@, "orderaccount.subnumber"@)
    &&& opt_view(k.country) == job_value(j, "TAN2Step5.OrderAccount.KIK.country"@, "orderaccount.country"@)
    &&& opt_view(k.blz) == job_value(j, "TAN2Step5.OrderAccount.KIK.blz"@, "orderaccount.blz"@)
    &&& k.customer_id is None && k.name is None && k.name2 is None && k.creditorid is None
    &&& k.acctype is None && k.account_type is None && k.limit is None && k.allowed_gvs@.len() == 0
    &&& opt_view(k.curr) == Some("EUR"@)
}

fn owned_opt(o: Option<&str>) -> (r: Option<String>)
    ensures
        opt_view(r) == opt_str_view(o),
{
    match o {
        Some(s) => Some(owned(s)),
        None => None,
    }
}

pub fn tan_order_account(job: &HbciJob) -> (k: Konto)
    ensures
        order_account(k, job@),
{
    let mut k = Konto::default();
    k.iban = owned_opt(job_param(job, "TAN2Step5.OrderAccount.iban", "orderaccount.iban"));
    k.bic = owned_opt(job_param(job, "TAN2Step5.OrderAccount.bic", "orderaccount.bic"));
    k.number = owned_opt(job_param(job, "TAN2Step5.OrderAccount.number", "orderaccount.number"));
    k.subnumber = owned_opt(job_param(job, "TAN2Step5.OrderAccount.subnumber", "orderaccount.subnumber"));
    k.country = owned_opt(job_param(job, "TAN2Step5.OrderAccount.KIK.country", "orderaccount.country"));
    k.blz = owned_opt(job_param(job, "TAN2Step5.OrderAccount.KIK.blz", "orderaccount.blz"));
    k
}

// ---------------------------------------------------------------------------
// Setting message values
// ---------------------------------------------------------------------------

/// Setting the value at `path` where a non-empty value is given.
pub open spec fn set_opt(e: ElementView, path: Seq<char>, value: Option<Seq<char>>) -> Result<ElementView, ErrorView> {
    match value {
        Some(v) => if v.len() > 0 {
            set_value_result(e, path, v)
        } else {
            Ok(e)
        },
        None => Ok(e),
    }
}

/// Setting the values of `fs` in order, stopping at the first error: the
/// message reached and the outcome.
pub open spec fn apply_fields(e: ElementView, fs: Seq<(Seq<char>, Option<Seq<char>>)>) -> (ElementView, Result<(), ErrorView>)
    decreases fs.len(),
{
    if fs.len() == 0 {
        (e, Ok(()))
    } else {
        let (e2, r2) = apply_fields(e, fs.drop_last());
        if r2 is Err {
            (e2, r2)
        } else {
            match set_opt(e2, fs.last().0, fs.last().1) {
                Ok(e3) => (e3, Ok(())),
                Err(x) => (e2, Err(x)),
            }
        }
    }
}

/// Once setting fails, later values change nothing.
pub proof fn lemma_apply_failed(e: ElementView, fs: Seq<(Seq<char>, Option<Seq<char>>)>, more: Seq<(Seq<char>, Option<Seq<char>>)>)
    requires
        apply_fields(e, fs).1 is Err,
    ensures
        apply_fields(e, fs + more) == apply_fields(e, fs),
    decreases more.len(),
{
    if more.len() == 0 {
        assert(fs + more =~= fs);
    } else {
        lemma_apply_failed(e, fs, more.drop_last());
        assert((fs + more).drop_last() =~= fs + more.drop_last());
    }
}

pub proof fn lemma_apply_split(e: ElementView, fs: Seq<(Seq<char>, Option<Seq<char>>)>, more: Seq<(Seq<char>, Option<Seq<char>>)>)
    requires
        apply_fields(e, fs).1 is Ok,
    ensures
        apply_fields(e, fs + more) == apply_fields(apply_fields(e, fs).0, more),
    decreases more.len(),
{
    if more.len() == 0 {
        assert(fs + more =~= fs);
    } else {
        lemma_apply_split(e, fs, more.drop_last());
        assert((fs + more).drop_last() =~= fs + more.drop_last());
    }
}

/// Sets the value at `path`.
pub fn set_message_value(message: &mut HbciMessage, path: &str, value: &str) -> (r: HbciResult<()>)
    ensures
        match set_value_result(old(message)@, path@, value@) {
            Ok(e) => r is Ok && final(message)@ == e,
            Err(x) => r matches Err(y) && y@ == x && final(message)@ == old(message)@,
        },
{
    proof {
        reveal_strlit("requested");
    }
    message.set_value(path, owned(value))
}

/// Sets the value at `path` where a non-empty value is given.
pub fn set_optional_message_value(message: &mut HbciMessage, path: &str, value: Option<&str>) -> (r: HbciResult<()>)
    ensures
        match set_opt(old(message)@, path@, opt_str_view(value)) {
            Ok(e) => r is Ok && final(message)@ == e,
            Err(x) => r matches Err(y) && y@ == x && final(message)@ == old(message)@,
        },
{
    match value {
        Some(v) => {
            if char_len(v) > 0 {
                let ghost before = message@;
                let r = message.set_value(path, owned(v));
                proof {
                    reveal_strlit("requested");
                }
                r
            } else {
                Ok(())
            }
        },
        None => Ok(()),
    }
}

/// Sets the next value of a sequence.
fn set_next(
    message: &mut HbciMessage,
    path: &str,
    value: Option<&str>,
    Ghost(e0): Ghost<ElementView>,
    Ghost(done): Ghost<Seq<(Seq<char>, Option<Seq<char>>)>>,
) -> (r: HbciResult<()>)
    requires
        apply_fields(e0, done) == (old(message)@, Ok::<(), ErrorView>(())),
    ensures
        apply_fields(e0, done.push((path@, opt_str_view(value)))) == (final(message)@, unit_result(r)),
{
    let r = set_optional_message_value(message, path, value);
    assert(done.push((path@, opt_str_view(value))).drop_last() =~= done);
    r
}


pub open spec fn field_views(fs: Seq<(String, Option<String>)>) -> Seq<(Seq<char>, Option<Seq<char>>)> {
    fs.map_values(|f: (String, Option<String>)| (f.0@, opt_view(f.1)))
}

/// Sets the values of `fields` in order, where they are given and not
/// empty; stops at the first error.
pub fn apply_message_fields(message: &mut HbciMessage, fields: &Vec<(String, Option<String>)>) -> (r: HbciResult<()>)
    ensures
        apply_fields(old(message)@, field_views(fields@)) == (final(message)@, unit_result(r)),
{
    let ghost e0 = message@;
    let ghost fv = field_views(fields@);
    let mut i: usize = 0;
    assert(fv.take(0) =~= Seq::<(Seq<char>, Option<Seq<char>>)>::empty());
    while i < fields.len()
        invariant
            e0 == old(message)@,
            fv == field_views(fields@),
            i <= fields@.len(),
            apply_fields(e0, fv.take(i as int)) == (message@, Ok::<(), ErrorView>(())),
        decreases fields.len() - i,
    {
        let value: Option<&str> = match &fields[i].1 {
            Some(v) => Some(v.as_str()),
            None => None,
        };
        assert(fv.take(i + 1) =~= fv.take(i as int).push((fields@[i as int].0@, opt_str_view(value))));
        let r = set_next(message, fields[i].0.as_str(), value, Ghost(e0), Ghost(fv.take(i as int)));
        match r {
            Ok(()) => {},
            Err(e) => {
                proof {
                    lemma_apply_failed(e0, fv.take(i + 1), fv.skip(i + 1));
                    assert(fv.take(i + 1) + fv.skip(i + 1) =~= fv);
                }
                return Err(e);
            },
        }
        i += 1;
    }
    assert(fv.take(fields@.len() as int) =~= fv);
    Ok(())
}

/// The path of the job segments at queue position `index`.
pub open spec fn gv_root(index: nat) -> Seq<char> {
    counted_header("CustomMsg.GV"@, index)
}

/// The passport's first account's field, if there is an account.
pub open spec fn first_text(d: PinTanPassportData, f: spec_fn(Konto) -> Option<String>) -> Option<Seq<char>> {
    if d.accounts@.len() > 0 {
        opt_view(f(d.accounts@[0]))
    } else {
        None
    }
}

/// The account fields of the job's account, to be set under `seg`: those
/// under the data element names of `low` or the frontend names of `base`,
/// else those of the passport's first account.
pub open spec fn effective_fields(seg: Seq<char>, d: PinTanPassportData, j: JobView, low: Seq<char>, base: Seq<char>) -> Seq<(Seq<char>, Option<Seq<char>>)> {
    seq![
        (seg + ".KTV.iban"@, overlay(first_text(d, |a: Konto| a.iban), job_value(j, low + ".KTV.iban"@, base + ".iban"@))),
        (seg + ".KTV.bic"@, overlay(first_text(d, |a: Konto| a.bic), job_value(j, low + ".KTV.bic"@, base + ".bic"@))),
        (seg + ".KTV.KIK.country"@, overlay(first_text(d, |a: Konto| a.country), job_value(j, low + ".KTV.KIK.country"@, base + ".country"@))),
        (seg + ".KTV.KIK.blz"@, overlay(first_text(d, |a: Konto| a.blz), job_value(j, low + ".KTV.KIK.blz"@, base + ".blz"@))),
        (seg + ".KTV.number"@, overlay(first_text(d, |a: Konto| a.number), job_value(j, low + ".KTV.number"@, base + ".number"@))),
        (seg + ".KTV.subnumber"@, overlay(first_text(d, |a: Konto| a.subnumber), job_value(j, low + ".KTV.subnumber"@, base + ".subnumber"@))),
    ]
}

/// Whether the job's account has an IBAN or a number.
pub open spec fn effective_identity(d: PinTanPassportData, j: JobView, low: Seq<char>, base: Seq<char>) -> bool {
    let f = effective_fields(""@, d, j, low, base);
    (f[0].1 matches Some(i) && i.len() > 0) || (f[4].1 matches Some(n) && n.len() > 0)
}

/// The account fields of an account, to be set under `seg`.
pub open spec fn account_fields(seg: Seq<char>, k: Konto) -> Seq<(Seq<char>, Option<Seq<char>>)> {
    seq![
        (seg + ".KTV.iban"@, opt_view(k.iban)),
        (seg + ".KTV.bic"@, opt_view(k.bic)),
        (seg + ".KTV.KIK.country"@, opt_view(k.country)),
        (seg + ".KTV.KIK.blz"@, opt_view(k.blz)),
        (seg + ".KTV.number"@, opt_view(k.number)),
        (seg + ".KTV.subnumber"@, opt_view(k.subnumber)),
    ]
}

pub proof fn lemma_effective_fields(k: Konto, d: PinTanPassportData, j: JobView, seg: Seq<char>, low: Seq<char>, base: Seq<char>)
    requires
        effective_account(k, d, j, low, base),
    ensures
        account_fields(seg, k) == effective_fields(seg, d, j, low, base),
        has_identity(k) == effective_identity(d, j, low, base),
{
    let b = choose|b: Konto| #[trigger] base_account(b, d) && ({
        &&& opt_view(k.iban) == overlay(opt_view(b.iban), job_value(j, low + ".KTV.iban"@, base + ".iban"@))
        &&& opt_view(k.bic) == overlay(opt_view(b.bic), job_value(j, low + ".KTV.bic"@, base + ".bic"@))
        &&& opt_view(k.country) == overlay(opt_view(b.country), job_value(j, low + ".KTV.KIK.country"@, base + ".country"@))
        &&& opt_view(k.blz) == overlay(opt_view(b.blz), job_value(j, low + ".KTV.KIK.blz"@, base + ".blz"@))
        &&& opt_view(k.number) == overlay(opt_view(b.number), job_value(j, low + ".KTV.number"@, base + ".number"@))
        &&& opt_view(k.subnumber) == overlay(opt_view(b.subnumber), job_value(j, low + ".KTV.subnumber"@, base + ".subnumber"@))
        &&& same_konto(Konto { iban: b.iban, bic: b.bic, country: b.country, blz: b.blz, number: b.number, subnumber: b.subnumber, ..k }, b)
    });
    assert(account_fields(seg, k) =~= effective_fields(seg, d, j, low, base));
}

/// Sets the account fields of `account` under `segment`.
pub fn set_account_values(message: &mut HbciMessage, segment: &str, account: &Konto) -> (r: HbciResult<()>)
    ensures
        apply_fields(old(message)@, account_fields(segment@, *account)) == (final(message)@, unit_result(r)),
{
    let mut fields: Vec<(String, Option<String>)> = Vec::new();
    push_account_fields(&mut fields, segment, account);
    assert(field_views(fields@) =~= account_fields(segment@, *account));
    apply_message_fields(message, &fields)
}

fn push_field(fields: &mut Vec<(String, Option<String>)>, path: String, value: Option<String>)
    ensures
        field_views(final(fields)@) == field_views(old(fields)@).push((path@, opt_view(value))),
{
    fields.push((path, value));
    assert(field_views(final(fields)@) =~= field_views(old(fields)@).push((path@, opt_view(value))));
}

fn push_account_fields(fields: &mut Vec<(String, Option<String>)>, segment: &str, account: &Konto)
    ensures
        field_views(final(fields)@) == field_views(old(fields)@) + account_fields(segment@, *account),
{
    let ghost f0 = field_views(fields@);
    push_field(fields, concat(segment, ".KTV.iban"), copy_text(&account.iban));
    push_field(fields, concat(segment, ".KTV.bic"), copy_text(&account.bic));
    push_field(fields, concat(segment, ".KTV.KIK.country"), copy_text(&account.country));
    push_field(fields, concat(segment, ".KTV.KIK.blz"), copy_text(&account.blz));
    push_field(fields, concat(segment, ".KTV.number"), copy_text(&account.number));
    push_field(fields, concat(segment, ".KTV.subnumber"), copy_text(&account.subnumber));
    assert(field_views(fields@) =~= f0 + account_fields(segment@, *account));
}

/// A value, else the default.
pub open spec fn or_default(v: Option<Seq<char>>, default: Seq<char>) -> Seq<char> {
    match v {
        Some(x) => x,
        None => default,
    }
}

fn or_default_str(v: Option<&str>, default: &str) -> (r: String)
    ensures
        r@ == or_default(opt_str_view(v), default@),
{
    match v {
        Some(x) => owned(x),
        None => owned(default),
    }
}

pub open spec fn invalid_argument(message: Seq<char>) -> ErrorView {
    ErrorView { kind: HbciErrorKind::InvalidArgument, message, source: None }
}


// ---------------------------------------------------------------------------
// Job segments
// ---------------------------------------------------------------------------

/// The data element `suffix` of segment `seg`, from the job's value for the
/// element `low.suffix` or the frontend parameter `front`.
pub open spec fn param_field(seg: Seq<char>, low: Seq<char>, j: JobView, suffix: Seq<char>, front: Seq<char>) -> (Seq<char>, Option<Seq<char>>) {
    (seg + "."@ + suffix, job_value(j, low + "."@ + suffix, front))
}

/// As `param_field`, with a default where the job gives no value.
pub open spec fn default_field(
    seg: Seq<char>,
    low: Seq<char>,
    j: JobView,
    suffix: Seq<char>,
    front: Seq<char>,
    default: Seq<char>,
) -> (Seq<char>, Option<Seq<char>>) {
    (seg + "."@ + suffix, Some(or_default(job_value(j, low + "."@ + suffix, front), default)))
}

fn push_param_field(fields: &mut Vec<(String, Option<String>)>, seg: &str, low: &str, job: &HbciJob, suffix: &str, front: &str)
    ensures
        field_views(final(fields)@) == field_views(old(fields)@).push(param_field(seg@, low@, job@, suffix@, front@)),
{
    let mut path = owned(seg);
    append(&mut path, ".");
    append(&mut path, suffix);
    let mut name = owned(low);
    append(&mut name, ".");
    append(&mut name, suffix);
    let v = owned_opt(job_param(job, name.as_str(), front));
    push_field(fields, path, v);
}

fn push_default_field(
    fields: &mut Vec<(String, Option<String>)>,
    seg: &str,
    low: &str,
    job: &HbciJob,
    suffix: &str,
    front: &str,
    default: &str,
)
    ensures
        field_views(final(fields)@) == field_views(old(fields)@).push(default_field(seg@, low@, job@, suffix@, front@, default@)),
{
    let mut path = owned(seg);
    append(&mut path, ".");
    append(&mut path, suffix);
    let mut name = owned(low);
    append(&mut name, ".");
    append(&mut name, suffix);
    let v = or_default_str(job_param(job, name.as_str(), front), default);
    push_field(fields, path, Some(v));
}

pub open spec fn identity_error(label: Seq<char>, low: Seq<char>) -> ErrorView {
    invalid_argument(
        label + " requires my.iban, my.number, or a passport account for the current "@ + low + " tracer renderer"@,
    )
}

/// A job segment about an account: the job's account, then `extras`; where
/// `require` is set, the account must have an IBAN or a number.
pub open spec fn account_job_rendered(
    e: ElementView,
    d: PinTanPassportData,
    j: JobView,
    index: nat,
    label: Seq<char>,
    low: Seq<char>,
    require: bool,
    extras: Seq<(Seq<char>, Option<Seq<char>>)>,
) -> (ElementView, Result<(), ErrorView>) {
    if require && !effective_identity(d, j, low, "my"@) {
        (e, Err(identity_error(label, low)))
    } else {
        apply_fields(e, effective_fields(gv_root(index) + "."@ + low, d, j, low, "my"@) + extras)
    }
}

pub open spec fn saldo_extras(seg: Seq<char>, j: JobView, default: Seq<char>) -> Seq<(Seq<char>, Option<Seq<char>>)> {
    seq![
        default_field(seg, "Saldo7"@, j, "allaccounts"@, "dummyall"@, default),
        param_field(seg, "Saldo7"@, j, "maxentries"@, "maxentries"@),
    ]
}

pub open spec fn kums_all_extras(seg: Seq<char>, j: JobView) -> Seq<(Seq<char>, Option<Seq<char>>)> {
    seq![
        default_field(seg, "KUmsZeit7"@, j, "allaccounts"@, "dummy"@, "N"@),
        param_field(seg, "KUmsZeit7"@, j, "startdate"@, "startdate"@),
        param_field(seg, "KUmsZeit7"@, j, "enddate"@, "enddate"@),
        param_field(seg, "KUmsZeit7"@, j, "maxentries"@, "maxentries"@),
    ]
}

pub open spec fn kums_new_extras(seg: Seq<char>, j: JobView) -> Seq<(Seq<char>, Option<Seq<char>>)> {
    seq![
        default_field(seg, "KUmsNew7"@, j, "allaccounts"@, "dummyall"@, "N"@),
        param_field(seg, "KUmsNew7"@, j, "maxentries"@, "maxentries"@),
    ]
}

pub open spec fn camt_extras(seg: Seq<char>, j: JobView) -> Seq<(Seq<char>, Option<Seq<char>>)> {
    seq![
        default_field(seg, "KUmsZeitCamt1"@, j, "formats.suppformat"@, "suppformat"@, CAMT_052_001_01_URN@),
        default_field(seg, "KUmsZeitCamt1"@, j, "allaccounts"@, "dummy"@, "N"@),
        param_field(seg, "KUmsZeitCamt1"@, j, "startdate"@, "startdate"@),
        param_field(seg, "KUmsZeitCamt1"@, j, "enddate"@, "enddate"@),
        param_field(seg, "KUmsZeitCamt1"@, j, "maxentries"@, "maxentries"@),
        param_field(seg, "KUmsZeitCamt1"@, j, "offset"@, "offset"@),
    ]
}

fn segment_path(index: usize, low: &str) -> (r: String)
    requires
        index < usize::MAX,
    ensures
        r@ == gv_root(index as nat) + "."@ + low@,
{
    let mut r = counted_header_string("CustomMsg.GV", index);
    append(&mut r, ".");
    append(&mut r, low);
    r
}

/// Fills the segment `low` of the job at queue position `index` with the
/// job's account and the extra fields already in `extras`.
fn render_account_job(
    message: &mut HbciMessage,
    job: &HbciJob,
    index: usize,
    passport: &PinTanPassport,
    label: &str,
    low: &str,
    require: bool,
    extras: Vec<(String, Option<String>)>,
) -> (r: HbciResult<()>)
    requires
        index < usize::MAX,
    ensures
        (final(message)@, unit_result(r)) == account_job_rendered(
            old(message)@,
            passport.data_spec(),
            job@,
            index as nat,
            label@,
            low@,
            require,
            field_views(extras@),
        ),
{
    let segment = segment_path(index, low);
    let account = effective_job_account(job, passport, low, "my");
    proof {
        lemma_effective_fields(account, passport.data_spec(), job@, segment@, low@, "my"@);
        lemma_effective_fields(account, passport.data_spec(), job@, ""@, low@, "my"@);
    }
    if require && !has_account_identity(&account) {
        let mut m = concat(label, " requires my.iban, my.number, or a passport account for the current ");
        append(&mut m, low);
        append(&mut m, " tracer renderer");
        return Err(HbciError::new(HbciErrorKind::InvalidArgument, m.as_str()));
    }
    let mut fields: Vec<(String, Option<String>)> = Vec::new();
    push_account_fields(&mut fields, segment.as_str(), &account);
    let ghost f1 = field_views(fields@);
    let ghost fx = field_views(extras@);
    let mut extras = extras;
    fields.append(&mut extras);
    assert(field_views(fields@) =~= f1 + fx);
    apply_message_fields(message, &fields)
}

pub fn render_saldo_job(
    message: &mut HbciMessage,
    job: &HbciJob,
    index: usize,
    passport: &PinTanPassport,
    default_allaccounts: &str,
    require_account: bool,
) -> (r: HbciResult<()>)
    requires
        index < usize::MAX,
    ensures
        (final(message)@, unit_result(r)) == account_job_rendered(
            old(message)@,
            passport.data_spec(),
            job@,
            index as nat,
            "SaldoReq"@,
            "Saldo7"@,
            require_account,
            saldo_extras(gv_root(index as nat) + ".Saldo7"@, job@, default_allaccounts@),
        ),
{
    let segment = segment_path(index, "Saldo7");
    proof {
        reveal_strlit(".");
        reveal_strlit("Saldo7");
        reveal_strlit(".Saldo7");
    }
    assert(segment@ =~= gv_root(index as nat) + ".Saldo7"@);
    let mut extras: Vec<(String, Option<String>)> = Vec::new();
    push_default_field(&mut extras, segment.as_str(), "Saldo7", job, "allaccounts", "dummyall", default_allaccounts);
    push_param_field(&mut extras, segment.as_str(), "Saldo7", job, "maxentries", "maxentries");
    proof {
        reveal_strlit(".");
    }
    assert(field_views(extras@) =~= saldo_extras(gv_root(index as nat) + ".Saldo7"@, job@, default_allaccounts@));
    render_account_job(message, job, index, passport, "SaldoReq", "Saldo7", require_account, extras)
}

pub fn render_saldo_request(message: &mut HbciMessage, job: &HbciJob, index: usize, passport: &PinTanPassport) -> (r: HbciResult<()>)
    requires
        index < usize::MAX,
    ensures
        (final(message)@, unit_result(r)) == account_job_rendered(
            old(message)@,
            passport.data_spec(),
            job@,
            index as nat,
            "SaldoReq"@,
            "Saldo7"@,
            true,
            saldo_extras(gv_root(index as nat) + ".Saldo7"@, job@, "N"@),
        ),
{
    render_saldo_job(message, job, index, passport, "N", true)
}

pub fn render_saldo_request_all(message: &mut HbciMessage, job: &HbciJob, index: usize, passport: &PinTanPassport) -> (r: HbciResult<()>)
    requires
        index < usize::MAX,
    ensures
        (final(message)@, unit_result(r)) == account_job_rendered(
            old(message)@,
            passport.data_spec(),
            job@,
            index as nat,
            "SaldoReq"@,
            "Saldo7"@,
            false,
            saldo_extras(gv_root(index as nat) + ".Saldo7"@, job@, "J"@),
        ),
{
    render_saldo_job(message, job, index, passport, "J", false)
}

pub fn render_kums_all(message: &mut HbciMessage, job: &HbciJob, index: usize, passport: &PinTanPassport) -> (r: HbciResult<()>)
    requires
        index < usize::MAX,
    ensures
        (final(message)@, unit_result(r)) == account_job_rendered(
            old(message)@,
            passport.data_spec(),
            job@,
            index as nat,
            "KUmsAll"@,
            "KUmsZeit7"@,
            true,
            kums_all_extras(gv_root(index as nat) + ".KUmsZeit7"@, job@),
        ),
{
    let segment = segment_path(index, "KUmsZeit7");
    proof {
        reveal_strlit(".");
        reveal_strlit("KUmsZeit7");
        reveal_strlit(".KUmsZeit7");
    }
    assert(segment@ =~= gv_root(index as nat) + ".KUmsZeit7"@);
    let mut extras: Vec<(String, Option<String>)> = Vec::new();
    push_default_field(&mut extras, segment.as_str(), "KUmsZeit7", job, "allaccounts", "dummy", "N");
    push_param_field(&mut extras, segment.as_str(), "KUmsZeit7", job, "startdate", "startdate");
    push_param_field(&mut extras, segment.as_str(), "KUmsZeit7", job, "enddate", "enddate");
    push_param_field(&mut extras, segment.as_str(), "KUmsZeit7", job, "maxentries", "maxentries");
    proof {
        reveal_strlit(".");
    }
    assert(field_views(extras@) =~= kums_all_extras(gv_root(index as nat) + ".KUmsZeit7"@, job@));
    render_account_job(message, job, index, passport, "KUmsAll", "KUmsZeit7", true, extras)
}

pub fn render_kums_new(message: &mut HbciMessage, job: &HbciJob, index: usize, passport: &PinTanPassport) -> (r: HbciResult<()>)
    requires
        index < usize::MAX,
    ensures
        (final(message)@, unit_result(r)) == account_job_rendered(
            old(message)@,
            passport.data_spec(),
            job@,
            index as nat,
            "KUmsNew"@,
            "KUmsNew7"@,
            true,
            kums_new_extras(gv_root(index as nat) + ".KUmsNew7"@, job@),
        ),
{
    let segment = segment_path(index, "KUmsNew7");
    proof {
        reveal_strlit(".");
        reveal_strlit("KUmsNew7");
        reveal_strlit(".KUmsNew7");
    }
    assert(segment@ =~= gv_root(index as nat) + ".KUmsNew7"@);
    let mut extras: Vec<(String, Option<String>)> = Vec::new();
    push_default_field(&mut extras, segment.as_str(), "KUmsNew7", job, "allaccounts", "dummyall", "N");
    push_param_field(&mut extras, segment.as_str(), "KUmsNew7", job, "maxentries", "maxentries");
    proof {
        reveal_strlit(".");
    }
    assert(field_views(extras@) =~= kums_new_extras(gv_root(index as nat) + ".KUmsNew7"@, job@));
    render_account_job(message, job, index, passport, "KUmsNew", "KUmsNew7", true, extras)
}

pub fn render_kums_all_camt(message: &mut HbciMessage, job: &HbciJob, index: usize, passport: &PinTanPassport) -> (r: HbciResult<()>)
    requires
        index < usize::MAX,
    ensures
        (final(message)@, unit_result(r)) == account_job_rendered(
            old(message)@,
            passport.data_spec(),
            job@,
            index as nat,
            "KUmsAllCamt"@,
            "KUmsZeitCamt1"@,
            true,
            camt_extras(gv_root(index as nat) + ".KUmsZeitCamt1"@, job@),
        ),
{
    let segment = segment_path(index, "KUmsZeitCamt1");
    proof {
        reveal_strlit(".");
        reveal_strlit("KUmsZeitCamt1");
        reveal_strlit(".KUmsZeitCamt1");
    }
    assert(segment@ =~= gv_root(index as nat) + ".KUmsZeitCamt1"@);
    let mut extras: Vec<(String, Option<String>)> = Vec::new();
    push_default_field(&mut extras, segment.as_str(), "KUmsZeitCamt1", job, "formats.suppformat", "suppformat", CAMT_052_001_01_URN);
    push_default_field(&mut extras, segment.as_str(), "KUmsZeitCamt1", job, "allaccounts", "dummy", "N");
    push_param_field(&mut extras, segment.as_str(), "KUmsZeitCamt1", job, "startdate", "startdate");
    push_param_field(&mut extras, segment.as_str(), "KUmsZeitCamt1", job, "enddate", "enddate");
    push_param_field(&mut extras, segment.as_str(), "KUmsZeitCamt1", job, "maxentries", "maxentries");
    push_param_field(&mut extras, segment.as_str(), "KUmsZeitCamt1", job, "offset", "offset");
    proof {
        reveal_strlit(".");
    }
    assert(field_views(extras@) =~= camt_extras(gv_root(index as nat) + ".KUmsZeitCamt1"@, job@));
    render_account_job(message, job, index, passport, "KUmsAllCamt", "KUmsZeitCamt1", true, extras)
}


/// The order account of a TAN request under `seg`, where the job names one
/// with an IBAN or a number; the country is `DE` where none is given.
pub open spec fn order_account_fields(seg: Seq<char>, j: JobView) -> Seq<(Seq<char>, Option<Seq<char>>)> {
    let iban = job_value(j, "TAN2Step5.OrderAccount.iban"@, "orderaccount.iban"@);
    let number = job_value(j, "TAN2Step5.OrderAccount.number"@, "orderaccount.number"@);
    if (iban matches Some(i) && i.len() > 0) || (number matches Some(n) && n.len() > 0) {
        seq![
            (seg + ".OrderAccount.iban"@, iban),
            (seg + ".OrderAccount.bic"@, job_value(j, "TAN2Step5.OrderAccount.bic"@, "orderaccount.bic"@)),
            (seg + ".OrderAccount.number"@, number),
            (seg + ".OrderAccount.subnumber"@, job_value(j, "TAN2Step5.OrderAccount.subnumber"@, "orderaccount.subnumber"@)),
            (seg + ".OrderAccount.KIK.country"@, Some(or_default(job_value(j, "TAN2Step5.OrderAccount.KIK.country"@, "orderaccount.country"@), "DE"@))),
            (seg + ".OrderAccount.KIK.blz"@, job_value(j, "TAN2Step5.OrderAccount.KIK.blz"@, "orderaccount.blz"@)),
        ]
    } else {
        seq![]
    }
}

/// The challenge class parameters 1 to 9 of a TAN request under `seg`.
pub open spec fn challenge_param_fields(seg: Seq<char>, j: JobView) -> Seq<(Seq<char>, Option<Seq<char>>)> {
    Seq::new(
        9,
        |i: int| (
            seg + ".ChallengeKlassParams.param"@ + decimal((i + 1) as nat),
            job_value(j, "TAN2Step5.ChallengeKlassParams.param"@ + decimal((i + 1) as nat), "ChallengeKlassParam"@ + decimal((i + 1) as nat)),
        ),
    )
}

/// The fields of a TAN request under `seg` once its process is known.
pub open spec fn tan2step_fields(seg: Seq<char>, j: JobView, process: Seq<char>) -> Seq<(Seq<char>, Option<Seq<char>>)> {
    let low = "TAN2Step5"@;
    seq![(seg + ".process"@, Some(process)), param_field(seg, low, j, "ordersegcode"@, "ordersegcode"@)]
        + order_account_fields(seg, j)
        + seq![
            (seg + ".orderhash"@, orderhash_value(j)),
            param_field(seg, low, j, "orderref"@, "orderref"@),
            param_field(seg, low, j, "listidx"@, "listidx"@),
            param_field(seg, low, j, "notlasttan"@, "notlasttan"@),
            param_field(seg, low, j, "storno"@, "storno"@),
            param_field(seg, low, j, "challengeklass"@, "challengeklass"@),
        ]
        + challenge_param_fields(seg, j)
        + seq![param_field(seg, low, j, "tanmedia"@, "tanmedia"@)]
}

/// A TAN request segment: marked as requested, then its fields; the
/// process is required.
pub open spec fn tan2step_rendered(e: ElementView, j: JobView, index: nat) -> (ElementView, Result<(), ErrorView>) {
    let seg = gv_root(index) + ".TAN2Step5"@;
    match set_opt(e, seg, Some("requested"@)) {
        Err(x) => (e, Err(x)),
        Ok(e1) => match job_value(j, "TAN2Step5.process"@, "process"@) {
            None => (e1, Err(invalid_argument("TAN2Step requires process"@))),
            Some(p) => apply_fields(e1, tan2step_fields(seg, j, p)),
        },
    }
}

fn push_order_account_fields(fields: &mut Vec<(String, Option<String>)>, seg: &str, job: &HbciJob)
    ensures
        field_views(final(fields)@) == field_views(old(fields)@) + order_account_fields(seg@, job@),
{
    let account = tan_order_account(job);
    if !has_account_identity(&account) {
        assert(field_views(fields@) =~= field_views(fields@) + order_account_fields(seg@, job@));
        return;
    }
    let ghost f0 = field_views(fields@);
    push_field(fields, concat(seg, ".OrderAccount.iban"), copy_text(&account.iban));
    push_field(fields, concat(seg, ".OrderAccount.bic"), copy_text(&account.bic));
    push_field(fields, concat(seg, ".OrderAccount.number"), copy_text(&account.number));
    push_field(fields, concat(seg, ".OrderAccount.subnumber"), copy_text(&account.subnumber));
    let country: Option<&str> = match &account.country {
        Some(c) => Some(c.as_str()),
        None => None,
    };
    push_field(fields, concat(seg, ".OrderAccount.KIK.country"), Some(or_default_str(country, "DE")));
    push_field(fields, concat(seg, ".OrderAccount.KIK.blz"), copy_text(&account.blz));
    assert(field_views(fields@) =~= f0 + order_account_fields(seg@, job@));
}

fn push_challenge_param_fields(fields: &mut Vec<(String, Option<String>)>, seg: &str, job: &HbciJob)
    ensures
        field_views(final(fields)@) == field_views(old(fields)@) + challenge_param_fields(seg@, job@),
{
    let ghost f0 = field_views(fields@);
    let mut i: u64 = 1;
    while i <= 9
        invariant
            1 <= i <= 10,
            field_views(fields@) == f0 + challenge_param_fields(seg@, job@).take(i - 1),
        decreases 10 - i,
    {
        let mut path = concat(seg, ".ChallengeKlassParams.param");
        push_decimal(&mut path, i);
        let mut low = owned("TAN2Step5.ChallengeKlassParams.param");
        push_decimal(&mut low, i);
        let mut front = owned("ChallengeKlassParam");
        push_decimal(&mut front, i);
        let v = owned_opt(job_param(job, low.as_str(), front.as_str()));
        push_field(fields, path, v);
        assert(challenge_param_fields(seg@, job@).take(i as int) =~= challenge_param_fields(seg@, job@).take(i - 1).push(challenge_param_fields(seg@, job@)[i - 1]));
        i += 1;
    }
    assert(challenge_param_fields(seg@, job@).take(9) =~= challenge_param_fields(seg@, job@));
}

pub fn render_tan2step(message: &mut HbciMessage, job: &HbciJob, index: usize) -> (r: HbciResult<()>)
    requires
        index < usize::MAX,
    ensures
        (final(message)@, unit_result(r)) == tan2step_rendered(old(message)@, job@, index as nat),
{
    let segment = segment_path(index, "TAN2Step5");
    proof {
        reveal_strlit(".");
        reveal_strlit("TAN2Step5");
        reveal_strlit(".TAN2Step5");
    }
    assert(segment@ =~= gv_root(index as nat) + ".TAN2Step5"@);
    match set_optional_message_value(message, segment.as_str(), Some("requested")) {
        Ok(()) => {},
        Err(e) => {
            return Err(e);
        },
    }
    let process = match job_param_required(job, "TAN2Step5.process", "process", "TAN2Step requires process") {
        Ok(p) => p,
        Err(e) => {
            return Err(e);
        },
    };
    let s = segment.as_str();
    let mut fields: Vec<(String, Option<String>)> = Vec::new();
    push_field(&mut fields, concat(s, ".process"), Some(owned(process)));
    push_param_field(&mut fields, s, "TAN2Step5", job, "ordersegcode", "ordersegcode");
    push_order_account_fields(&mut fields, s, job);
    push_field(&mut fields, concat(s, ".orderhash"), tan_orderhash_param(job));
    push_param_field(&mut fields, s, "TAN2Step5", job, "orderref", "orderref");
    push_param_field(&mut fields, s, "TAN2Step5", job, "listidx", "listidx");
    push_param_field(&mut fields, s, "TAN2Step5", job, "notlasttan", "notlasttan");
    push_param_field(&mut fields, s, "TAN2Step5", job, "storno", "storno");
    push_param_field(&mut fields, s, "TAN2Step5", job, "challengeklass", "challengeklass");
    push_challenge_param_fields(&mut fields, s, job);
    push_param_field(&mut fields, s, "TAN2Step5", job, "tanmedia", "tanmedia");
    assert(field_views(fields@) =~= tan2step_fields(segment@, job@, process@));
    apply_message_fields(message, &fields)
}

/// The job segment of the job at queue position `index`, by the job's kind.
pub open spec fn job_rendered(e: ElementView, d: PinTanPassportData, j: JobView, index: nat) -> (ElementView, Result<(), ErrorView>) {
    if j.name == "KUmsAll"@ {
        account_job_rendered(e, d, j, index, "KUmsAll"@, "KUmsZeit7"@, true, kums_all_extras(gv_root(index) + ".KUmsZeit7"@, j))
    } else if j.name == "KUmsAllCamt"@ {
        account_job_rendered(e, d, j, index, "KUmsAllCamt"@, "KUmsZeitCamt1"@, true, camt_extras(gv_root(index) + ".KUmsZeitCamt1"@, j))
    } else if j.name == "KUmsNew"@ {
        account_job_rendered(e, d, j, index, "KUmsNew"@, "KUmsNew7"@, true, kums_new_extras(gv_root(index) + ".KUmsNew7"@, j))
    } else if j.name == "SaldoReq"@ {
        account_job_rendered(e, d, j, index, "SaldoReq"@, "Saldo7"@, true, saldo_extras(gv_root(index) + ".Saldo7"@, j, "N"@))
    } else if j.name == "SaldoReqAll"@ {
        account_job_rendered(e, d, j, index, "SaldoReq"@, "Saldo7"@, false, saldo_extras(gv_root(index) + ".Saldo7"@, j, "J"@))
    } else if j.name == "TAN2Step"@ {
        tan2step_rendered(e, j, index)
    } else {
        (e, Err(ErrorView {
            kind: HbciErrorKind::Unsupported,
            message: "queued job rendering is not supported for "@ + j.name,
            source: None,
        }))
    }
}

/// Fills the segment of a queued job into a job message.
pub fn render_job_into_custom_message(message: &mut HbciMessage, job: &HbciJob, index: usize, passport: &PinTanPassport) -> (r: HbciResult<()>)
    requires
        index < usize::MAX,
    ensures
        (final(message)@, unit_result(r)) == job_rendered(old(message)@, passport.data_spec(), job@, index as nat),
{
    let name = job.name();
    if str_eq(name, "KUmsAll") {
        render_kums_all(message, job, index, passport)
    } else if str_eq(name, "KUmsAllCamt") {
        render_kums_all_camt(message, job, index, passport)
    } else if str_eq(name, "KUmsNew") {
        render_kums_new(message, job, index, passport)
    } else if str_eq(name, "SaldoReq") {
        render_saldo_request(message, job, index, passport)
    } else if str_eq(name, "SaldoReqAll") {
        render_saldo_request_all(message, job, index, passport)
    } else if str_eq(name, "TAN2Step") {
        render_tan2step(message, job, index)
    } else {
        let m = concat("queued job rendering is not supported for ", name);
        Err(HbciError::new(HbciErrorKind::Unsupported, m.as_str()))
    }
}


/// Setting the values of `fs` in order, each as given, stopping at the
/// first error: the message reached and the outcome.
pub open spec fn apply_values_seq(e: ElementView, fs: Seq<(Seq<char>, Seq<char>)>) -> (ElementView, Result<(), ErrorView>)
    decreases fs.len(),
{
    if fs.len() == 0 {
        (e, Ok(()))
    } else {
        let (e2, r2) = apply_values_seq(e, fs.drop_last());
        if r2 is Err {
            (e2, r2)
        } else {
            match set_value_result(e2, fs.last().0, fs.last().1) {
                Ok(e3) => (e3, Ok(())),
                Err(x) => (e2, Err(x)),
            }
        }
    }
}

pub proof fn lemma_values_failed(e: ElementView, fs: Seq<(Seq<char>, Seq<char>)>, more: Seq<(Seq<char>, Seq<char>)>)
    requires
        apply_values_seq(e, fs).1 is Err,
    ensures
        apply_values_seq(e, fs + more) == apply_values_seq(e, fs),
    decreases more.len(),
{
    if more.len() == 0 {
        assert(fs + more =~= fs);
    } else {
        lemma_values_failed(e, fs, more.drop_last());
        assert((fs + more).drop_last() =~= fs + more.drop_last());
    }
}

pub open spec fn value_views(fs: Seq<(String, String)>) -> Seq<(Seq<char>, Seq<char>)> {
    fs.map_values(|f: (String, String)| (f.0@, f.1@))
}

/// Sets the values in order; stops at the first error.
pub fn apply_message_values(message: &mut HbciMessage, values: &Vec<(String, String)>) -> (r: HbciResult<()>)
    ensures
        apply_values_seq(old(message)@, value_views(values@)) == (final(message)@, unit_result(r)),
{
    let ghost e0 = message@;
    let ghost fv = value_views(values@);
    let mut i: usize = 0;
    assert(fv.take(0) =~= Seq::<(Seq<char>, Seq<char>)>::empty());
    while i < values.len()
        invariant
            e0 == old(message)@,
            fv == value_views(values@),
            i <= values@.len(),
            apply_values_seq(e0, fv.take(i as int)) == (message@, Ok::<(), ErrorView>(())),
        decreases values.len() - i,
    {
        let ghost before = message@;
        assert(fv.take(i + 1) =~= fv.take(i as int).push((values@[i as int].0@, values@[i as int].1@)));
        assert(fv.take(i + 1).drop_last() =~= fv.take(i as int));
        match set_message_value(message, values[i].0.as_str(), values[i].1.as_str()) {
            Ok(()) => {},
            Err(e) => {
                proof {
                    lemma_values_failed(e0, fv.take(i + 1), fv.skip(i + 1));
                    assert(fv.take(i + 1) + fv.skip(i + 1) =~= fv);
                }
                return Err(e);
            },
        }
        i += 1;
    }
    assert(fv.take(values@.len() as int) =~= fv);
    Ok(())
}

} // verus!
