//! Business transactions ("jobs"): which ones the library offers, the
//! parameters each accepts, and how parameters set by name become the
//! low-level data elements of the request.

use vstd::prelude::*;
use crate::error::{ErrorView, HbciError, HbciErrorKind, HbciResult};
use crate::strmap::{StrMap, text_view};
use crate::callback::{CallbackDataType, CallbackEvent, CallbackReason};
use crate::gv_result::{Konto, Value};
use crate::manager::AccountCrcAlgs;
use crate::manager::account_crc::iban_ok;
use vstd::utf8::encode_utf8;
use crate::text::{i64_string, signed_decimal, append, chars_of, concat, decimal, is_ascii_alnum, push_char, push_decimal, split_char, split_str, str_eq};
use crate::tools::{opt_str_view, opt_view};

pub mod tables;

pub use tables::constraint_table;
use tables::constraints_for_job;

verus! {

/// The jobs that a PIN/TAN passport can run, in ascending order. The
/// classic national transfer, scheduled-transfer, standing-order and COR1
/// direct-debit jobs are not offered: their SEPA counterparts are.
pub const PINTAN_JOB_NAMES: [&'static str; 43] = [
    "AccInfo",
    "DauerLastSEPAList",
    "DauerLastSEPANew",
    "DauerSEPADel",
    "DauerSEPAEdit",
    "DauerSEPAList",
    "DauerSEPANew",
    "FestCondList",
    "FestList",
    "InfoList",
    "InfoOrder",
    "InstUebSEPA",
    "KUmsAll",
    "KUmsAllCamt",
    "KUmsNew",
    "KUmsZeitSEPA",
    "Kontoauszug",
    "KontoauszugPdf",
    "LastB2BSEPA",
    "LastSEPA",
    "MultiLastB2BSEPA",
    "MultiLastSEPA",
    "MultiUebSEPA",
    "Receipt",
    "SEPAInfo",
    "SaldoReq",
    "SaldoReqAll",
    "Status",
    "TAN2Step",
    "TANList",
    "TANMediaList",
    "TermMultiUebSEPA",
    "TermUebSEPA",
    "TermUebSEPADel",
    "TermUebSEPAEdit",
    "TermUebSEPAList",
    "UebForeign",
    "UebSEPA",
    "UmbSEPA",
    "VoP",
    "VoPAuth",
    "WPDepotList",
    "WPDepotUms",
];

/// The names in [`PINTAN_JOB_NAMES`].
pub open spec fn pintan_job_names() -> Seq<Seq<char>> {
    seq![
        "AccInfo"@,
        "DauerLastSEPAList"@,
        "DauerLastSEPANew"@,
        "DauerSEPADel"@,
        "DauerSEPAEdit"@,
        "DauerSEPAList"@,
        "DauerSEPANew"@,
        "FestCondList"@,
        "FestList"@,
        "InfoList"@,
        "InfoOrder"@,
        "InstUebSEPA"@,
        "KUmsAll"@,
        "KUmsAllCamt"@,
        "KUmsNew"@,
        "KUmsZeitSEPA"@,
        "Kontoauszug"@,
        "KontoauszugPdf"@,
        "LastB2BSEPA"@,
        "LastSEPA"@,
        "MultiLastB2BSEPA"@,
        "MultiLastSEPA"@,
        "MultiUebSEPA"@,
        "Receipt"@,
        "SEPAInfo"@,
        "SaldoReq"@,
        "SaldoReqAll"@,
        "Status"@,
        "TAN2Step"@,
        "TANList"@,
        "TANMediaList"@,
        "TermMultiUebSEPA"@,
        "TermUebSEPA"@,
        "TermUebSEPADel"@,
        "TermUebSEPAEdit"@,
        "TermUebSEPAList"@,
        "UebForeign"@,
        "UebSEPA"@,
        "UmbSEPA"@,
        "VoP"@,
        "VoPAuth"@,
        "WPDepotList"@,
        "WPDepotUms"@,
    ]
}

/// The set of jobs that a passport offers.
#[derive(Debug, Clone)]
pub struct JobRegistry {
    names: Vec<&'static str>,
}

impl JobRegistry {
    /// The job names, in the order in which they are listed.
    pub closed spec fn names_view(&self) -> Seq<Seq<char>> {
        self.names@.map_values(|n: &'static str| n@)
    }

    /// The registry of the PIN/TAN jobs.
    pub fn pintan() -> (r: Self)
        ensures
            r.names_view() == pintan_job_names(),
    {
        let mut names: Vec<&'static str> = Vec::new();
        let mut i: usize = 0;
        while i < 43
            invariant
                i <= 43,
                names@.len() == i,
                forall|k: int| 0 <= k < i ==> #[trigger] names@[k]@ == pintan_job_names()[k],
            decreases 43 - i,
        {
            names.push(PINTAN_JOB_NAMES[i]);
            i += 1;
        }
        let r = JobRegistry { names };
        assert(r.names_view() =~= pintan_job_names());
        r
    }

    /// Whether the registry offers the job `name`.
    pub fn contains(&self, name: &str) -> (b: bool)
        ensures
            b == self.names_view().contains(name@),
    {
        let mut i: usize = 0;
        while i < self.names.len()
            invariant
                i <= self.names@.len(),
                forall|k: int| 0 <= k < i ==> self.names_view()[k] != name@,
            decreases self.names.len() - i,
        {
            if str_eq(self.names[i], name) {
                assert(self.names_view()[i as int] == name@);
                return true;
            }
            i += 1;
        }
        false
    }

    /// The names of the jobs offered.
    pub fn names(&self) -> (r: Vec<String>)
        ensures
            r@.map_values(|s: String| s@) == self.names_view(),
    {
        let mut r: Vec<String> = Vec::new();
        let mut i: usize = 0;
        while i < self.names.len()
            invariant
                i <= self.names@.len(),
                r@.len() == i,
                forall|k: int| 0 <= k < i ==> #[trigger] r@[k]@ == self.names_view()[k],
            decreases self.names.len() - i,
        {
            r.push(self.names[i].to_string());
            i += 1;
        }
        assert(r@.map_values(|s: String| s@) =~= self.names_view());
        r
    }
}

impl Default for JobRegistry {
    /// A registry without jobs.
    fn default() -> (r: Self)
        ensures
            r.names_view() == Seq::<Seq<char>>::empty(),
    {
        let r = JobRegistry { names: Vec::new() };
        assert(r.names_view() =~= Seq::<Seq<char>>::empty());
        r
    }
}

/// What a parameter constraint says: the name a caller sets, the data element
/// it fills, its default (none: the parameter is required), and whether it
/// can be given per index.
pub ghost struct ConstraintView {
    pub frontend: Seq<char>,
    pub destination: Seq<char>,
    pub default: Option<Seq<char>>,
    pub indexed: bool,
}

/// A constraint that is not indexed.
pub open spec fn cv(frontend: Seq<char>, destination: Seq<char>, default: Option<Seq<char>>) -> ConstraintView {
    ConstraintView { frontend, destination, default, indexed: false }
}

/// How a job parameter maps onto a data element of the request.
#[derive(Debug, Clone)]
pub struct HbciJobConstraint {
    pub frontend_name: String,
    pub destination_name: String,
    pub default_value: Option<String>,
    pub indexed: bool,
}

impl View for HbciJobConstraint {
    type V = ConstraintView;

    open spec fn view(&self) -> ConstraintView {
        ConstraintView {
            frontend: self.frontend_name@,
            destination: self.destination_name@,
            default: opt_view(self.default_value),
            indexed: self.indexed,
        }
    }
}

/// The views of a sequence of constraints.
pub open spec fn constraint_views(v: Seq<HbciJobConstraint>) -> Seq<ConstraintView> {
    v.map_values(|c: HbciJobConstraint| c@)
}

impl HbciJobConstraint {
    /// A constraint that is not indexed.
    pub fn new(frontend_name: &str, destination_name: &str, default_value: Option<&str>) -> (c: Self)
        ensures
            c@ == cv(frontend_name@, destination_name@, opt_str_view(default_value)),
    {
        HbciJobConstraint {
            frontend_name: frontend_name.to_string(),
            destination_name: destination_name.to_string(),
            default_value: match default_value {
                Some(d) => Some(d.to_string()),
                None => None,
            },
            indexed: false,
        }
    }

    /// The same constraint, indexed or not.
    pub fn indexed(self, indexed: bool) -> (c: Self)
        ensures
            c@ == (ConstraintView { indexed, ..self@ }),
    {
        let mut c = self;
        c.indexed = indexed;
        c
    }
}

// ---------------------------------------------------------------------------
// Constraint lookups
// ---------------------------------------------------------------------------

/// Whether some constraint is named `f`.
pub open spec fn accepts(cvs: Seq<ConstraintView>, f: Seq<char>) -> bool {
    exists|i: int| 0 <= i < cvs.len() && #[trigger] cvs[i].frontend == f
}

/// Whether some indexed constraint is named `f`.
pub open spec fn accepts_indexed(cvs: Seq<ConstraintView>, f: Seq<char>) -> bool {
    exists|i: int| 0 <= i < cvs.len() && #[trigger] cvs[i].frontend == f && cvs[i].indexed
}

/// `i` is the first position of a constraint named `f`.
pub open spec fn is_first(cvs: Seq<ConstraintView>, f: Seq<char>, i: int) -> bool {
    &&& 0 <= i < cvs.len()
    &&& cvs[i].frontend == f
    &&& forall|j: int| 0 <= j < i ==> #[trigger] cvs[j].frontend != f
}

/// The data elements that the constraints named `f` fill.
pub open spec fn frontend_dests(cvs: Seq<ConstraintView>, f: Seq<char>) -> Set<Seq<char>> {
    Set::new(
        |d: Seq<char>|
            exists|i: int| 0 <= i < cvs.len() && #[trigger] cvs[i].frontend == f && cvs[i].destination == d,
    )
}

/// The data elements that the indexed constraints named `f` fill at `index`.
pub open spec fn indexed_dests(cvs: Seq<ConstraintView>, f: Seq<char>, index: nat) -> Set<Seq<char>> {
    Set::new(
        |d: Seq<char>|
            exists|i: int|
                0 <= i < cvs.len() && #[trigger] cvs[i].frontend == f && cvs[i].indexed
                    && indexed_destination(cvs[i].destination, index) == d,
    )
}

/// `low` with every element of `ds` set to `v`.
pub open spec fn fill(low: Map<Seq<char>, Seq<char>>, ds: Set<Seq<char>>, v: Seq<char>) -> Map<Seq<char>, Seq<char>> {
    low.union_prefer_right(Map::new(|d: Seq<char>| ds.contains(d), |d: Seq<char>| v))
}

// ---------------------------------------------------------------------------
// Indexed data element names
// ---------------------------------------------------------------------------

/// A non-empty run of ASCII letters, digits and underscores.
pub open spec fn is_word(p: Seq<char>) -> bool {
    p.len() > 0 && forall|i: int| 0 <= i < p.len() ==> is_ascii_alnum(#[trigger] p[i]) || p[i] == '_'
}

/// The name of the `index`-th repetition of a data element: for a path of
/// three or four words, `[index]` follows the third; other names stay as
/// they are.
pub open spec fn indexed_destination(d: Seq<char>, index: nat) -> Seq<char> {
    let parts = split_char(d, '.');
    if (parts.len() == 3 || parts.len() == 4) && forall|i: int| 0 <= i < parts.len() ==> is_word(#[trigger] parts[i]) {
        let base = parts[0] + seq!['.'] + parts[1] + seq!['.'] + parts[2] + seq!['['] + decimal(index) + seq![']'];
        if parts.len() == 4 {
            base + seq!['.'] + parts[3]
        } else {
            base
        }
    } else {
        d
    }
}

/// Whether `part` is a word.
pub fn is_word_part(part: &str) -> (b: bool)
    ensures
        b == is_word(part@),
{
    let v = chars_of(part);
    if v.len() == 0 {
        return false;
    }
    let mut i: usize = 0;
    while i < v.len()
        invariant
            v@ == part@,
            i <= v@.len(),
            forall|k: int| 0 <= k < i ==> is_ascii_alnum(#[trigger] v@[k]) || v@[k] == '_',
        decreases v.len() - i,
    {
        let c = v[i];
        let ok = ('0' <= c && c <= '9') || ('A' <= c && c <= 'Z') || ('a' <= c && c <= 'z') || c == '_';
        if !ok {
            return false;
        }
        i += 1;
    }
    true
}

/// The name of the `index`-th repetition of the data element `destination`.
pub fn indexed_destination_name(destination: &str, index: usize) -> (r: String)
    ensures
        r@ == indexed_destination(destination@, index as nat),
{
    let parts = split_str(destination, '.');
    let ghost sp = split_char(destination@, '.');
    let n = parts.len();
    if n != 3 && n != 4 {
        return destination.to_string();
    }
    let mut i: usize = 0;
    while i < n
        invariant
            n == parts@.len(),
            n == 3 || n == 4,
            sp == split_char(destination@, '.'),
            parts@.len() == sp.len(),
            forall|k: int| 0 <= k < parts@.len() ==> #[trigger] parts@[k]@ == sp[k],
            i <= n,
            forall|k: int| 0 <= k < i ==> is_word(#[trigger] sp[k]),
        decreases n - i,
    {
        if !is_word_part(parts[i].as_str()) {
            assert(!is_word(sp[i as int]));
            assert(!(forall|k: int| 0 <= k < sp.len() ==> is_word(#[trigger] sp[k])));
            return destination.to_string();
        }
        i += 1;
    }
    let mut r = String::new();
    append(&mut r, parts[0].as_str());
    push_char(&mut r, '.');
    append(&mut r, parts[1].as_str());
    push_char(&mut r, '.');
    append(&mut r, parts[2].as_str());
    push_char(&mut r, '[');
    push_decimal(&mut r, index as u64);
    push_char(&mut r, ']');
    if n == 4 {
        push_char(&mut r, '.');
        append(&mut r, parts[3].as_str());
    }
    assert(r@ =~= indexed_destination(destination@, index as nat));
    r
}

// ---------------------------------------------------------------------------
// Jobs
// ---------------------------------------------------------------------------

/// What a job holds: its name, the parameters set by name, the data elements
/// they fill, and the constraints of its kind.
pub ghost struct JobView {
    pub name: Seq<char>,
    pub params: Map<Seq<char>, Seq<char>>,
    pub lowlevel: Map<Seq<char>, Seq<char>>,
    pub constraints: Seq<ConstraintView>,
}

/// A job with its parameters.
#[derive(Debug)]
pub struct HbciJob {
    name: String,
    params: StrMap<String>,
    lowlevel_params: StrMap<String>,
    constraints: Vec<HbciJobConstraint>,
}

impl View for HbciJob {
    type V = JobView;

    closed spec fn view(&self) -> JobView {
        JobView {
            name: self.name@,
            params: text_view(self.params@),
            lowlevel: text_view(self.lowlevel_params@),
            constraints: constraint_views(self.constraints@),
        }
    }
}

/// The data element value for parameter `f`: the order hash of a TAN
/// request is sent as binary data, marked by a leading `B`.
pub open spec fn lowlevel_value(job: Seq<char>, f: Seq<char>, v: Seq<char>) -> Seq<char> {
    if job == "TAN2Step"@ && f == "orderhash"@ {
        seq!['B'] + v
    } else {
        v
    }
}

/// The job after parameter `f` was set to `v`, with the data elements that
/// `f` fills.
pub open spec fn with_param(j: JobView, f: Seq<char>, v: Seq<char>) -> JobView {
    JobView {
        params: j.params.insert(f, v),
        lowlevel: fill(j.lowlevel, frontend_dests(j.constraints, f), lowlevel_value(j.name, f, v)),
        ..j
    }
}

/// The job after the `index`-th repetition of parameter `f` was set to `v`.
pub open spec fn with_indexed(j: JobView, f: Seq<char>, index: nat, v: Seq<char>) -> JobView {
    JobView { lowlevel: fill(j.lowlevel, indexed_dests(j.constraints, f, index), v), ..j }
}

/// An invalid-argument error with message `m`.
pub open spec fn job_error(m: Seq<char>) -> ErrorView {
    ErrorView { kind: HbciErrorKind::InvalidArgument, message: m, source: None }
}

pub open spec fn not_accepted_message(f: Seq<char>, job: Seq<char>) -> Seq<char> {
    "job parameter "@ + f + " is not accepted by "@ + job
}

pub open spec fn empty_value_message(f: Seq<char>, job: Seq<char>) -> Seq<char> {
    "job parameter "@ + f + " must not be empty for "@ + job
}

pub open spec fn not_indexed_message(f: Seq<char>, job: Seq<char>) -> Seq<char> {
    "job parameter "@ + f + " is not indexed by "@ + job
}

/// Setting parameter `f` to `v`, checked: it must be a parameter of the job
/// and not empty.
pub open spec fn set_result(j: JobView, f: Seq<char>, v: Seq<char>) -> Result<JobView, ErrorView> {
    if !accepts(j.constraints, f) {
        Err(job_error(not_accepted_message(f, j.name)))
    } else if v.len() == 0 {
        Err(job_error(empty_value_message(f, j.name)))
    } else {
        Ok(with_param(j, f, v))
    }
}

/// Setting the `index`-th repetition of parameter `f` to `v`, checked: it must
/// be an indexed parameter of the job and `v` not empty.
pub open spec fn indexed_result(j: JobView, f: Seq<char>, index: nat, v: Seq<char>) -> Result<JobView, ErrorView> {
    if !accepts(j.constraints, f) {
        Err(job_error(not_accepted_message(f, j.name)))
    } else if v.len() == 0 {
        Err(job_error(empty_value_message(f, j.name)))
    } else if !accepts_indexed(j.constraints, f) {
        Err(job_error(not_indexed_message(f, j.name)))
    } else {
        Ok(with_indexed(j, f, index, v))
    }
}

/// The name of field `field` of the structured parameter `base`.
pub open spec fn field_name(base: Seq<char>, field: Seq<char>) -> Seq<char> {
    base + seq!['.'] + field
}

/// Sets field `field` of `base`, where the job has it and a value is given.
pub open spec fn with_structured(j: JobView, base: Seq<char>, field: Seq<char>, value: Option<Seq<char>>) -> JobView {
    let n = field_name(base, field);
    if accepts(j.constraints, n) && value is Some && value->0.len() > 0 {
        with_param(j, n, value->0)
    } else {
        j
    }
}

/// Sets the given fields of `base` in turn.
pub open spec fn with_structured_fields(
    j: JobView,
    base: Seq<char>,
    fields: Seq<(Seq<char>, Option<Seq<char>>)>,
) -> JobView
    decreases fields.len(),
{
    if fields.len() == 0 {
        j
    } else {
        with_structured_fields(with_structured(j, base, fields[0].0, fields[0].1), base, fields.drop_first())
    }
}

/// Sets the `index`-th repetition of field `field` of `base`, where the job
/// has it and a value is given.
pub open spec fn opt_indexed_result(
    j: JobView,
    base: Seq<char>,
    index: nat,
    field: Seq<char>,
    value: Option<Seq<char>>,
) -> Result<JobView, ErrorView> {
    let n = field_name(base, field);
    if accepts(j.constraints, n) && value is Some && value->0.len() > 0 {
        indexed_result(j, n, index, value->0)
    } else {
        Ok(j)
    }
}

/// Sets the given indexed fields in turn, up to the first that fails: the job
/// as it is then, and the error.
pub open spec fn indexed_fields_result(
    j: JobView,
    base: Seq<char>,
    index: nat,
    fields: Seq<(Seq<char>, Option<Seq<char>>)>,
) -> (JobView, Result<(), ErrorView>)
    decreases fields.len(),
{
    if fields.len() == 0 {
        (j, Ok(()))
    } else {
        match opt_indexed_result(j, base, index, fields[0].0, fields[0].1) {
            Err(e) => (j, Err(e)),
            Ok(j2) => indexed_fields_result(j2, base, index, fields.drop_first()),
        }
    }
}

/// The fields of an account, in the order in which they are set.
pub open spec fn account_fields(k: Konto) -> Seq<(Seq<char>, Option<Seq<char>>)> {
    seq![
        ("country"@, opt_view(k.country)),
        ("blz"@, opt_view(k.blz)),
        ("number"@, opt_view(k.number)),
        ("subnumber"@, opt_view(k.subnumber)),
        ("name"@, opt_view(k.name)),
        ("curr"@, opt_view(k.curr)),
        ("bic"@, opt_view(k.bic)),
        ("iban"@, opt_view(k.iban)),
    ]
}

/// The fields of an amount, in the order in which they are set.
pub open spec fn value_fields(v: Value) -> Seq<(Seq<char>, Option<Seq<char>>)> {
    seq![("value"@, Some(v.value@)), ("curr"@, opt_view(v.curr))]
}

/// The views of a list of fields.
pub open spec fn field_views(v: Seq<(&str, Option<&str>)>) -> Seq<(Seq<char>, Option<Seq<char>>)> {
    v.map_values(|p: (&str, Option<&str>)| (p.0@, opt_str_view(p.1)))
}

/// The data elements that constraints before position `n` named `f` fill.
spec fn dests_upto(cvs: Seq<ConstraintView>, f: Seq<char>, n: int) -> Set<Seq<char>> {
    Set::new(
        |d: Seq<char>|
            exists|i: int| 0 <= i < n && #[trigger] cvs[i].frontend == f && cvs[i].destination == d,
    )
}

spec fn indexed_dests_upto(cvs: Seq<ConstraintView>, f: Seq<char>, index: nat, n: int) -> Set<Seq<char>> {
    Set::new(
        |d: Seq<char>|
            exists|i: int|
                0 <= i < n && #[trigger] cvs[i].frontend == f && cvs[i].indexed
                    && indexed_destination(cvs[i].destination, index) == d,
    )
}

pub proof fn lemma_text_view_insert(m: Map<Seq<char>, String>, k: Seq<char>, s: String)
    ensures
        text_view(m.insert(k, s)) == text_view(m).insert(k, s@),
{
    assert(text_view(m.insert(k, s)) =~= text_view(m).insert(k, s@));
}

/// An optional string as an optional slice.
fn opt_str(o: &Option<String>) -> (r: Option<&str>)
    ensures
        opt_str_view(r) == opt_view(*o),
{
    match o {
        Some(s) => Some(s.as_str()),
        None => None,
    }
}

/// Sets every data element that a constraint named `f` fills to `value`.
fn fill_dests(low: &mut StrMap<String>, constraints: &Vec<HbciJobConstraint>, f: &str, value: &str)
    ensures
        text_view(final(low)@) == fill(text_view(old(low)@), frontend_dests(constraint_views(constraints@), f@), value@),
{
    let ghost cvs = constraint_views(constraints@);
    let ghost low0 = text_view(low@);
    let mut i: usize = 0;
    assert(fill(low0, dests_upto(cvs, f@, 0), value@) =~= low0);
    while i < constraints.len()
        invariant
            cvs == constraint_views(constraints@),
            i <= constraints@.len(),
            text_view(low@) == fill(low0, dests_upto(cvs, f@, i as int), value@),
        decreases constraints.len() - i,
    {
        let ghost before = low@;
        if str_eq(constraints[i].frontend_name.as_str(), f) {
            let d = constraints[i].destination_name.clone();
            let ghost dv = d@;
            let vs = value.to_string();
            let ghost vg = vs;
            low.insert(d, vs);
            proof {
                lemma_text_view_insert(before, dv, vg);
                assert(cvs[i as int].frontend == f@ && cvs[i as int].destination == dv);
                assert(dests_upto(cvs, f@, i + 1) =~= dests_upto(cvs, f@, i as int).insert(dv));
                assert(text_view(low@) =~= fill(low0, dests_upto(cvs, f@, i + 1), value@));
            }
        } else {
            assert(dests_upto(cvs, f@, i + 1) =~= dests_upto(cvs, f@, i as int));
        }
        i += 1;
    }
    assert(dests_upto(cvs, f@, cvs.len() as int) =~= frontend_dests(cvs, f@));
}

/// Sets the `index`-th repetition of every data element that an indexed
/// constraint named `f` fills to `value`.
fn fill_indexed_dests(
    low: &mut StrMap<String>,
    constraints: &Vec<HbciJobConstraint>,
    f: &str,
    index: usize,
    value: &str,
)
    ensures
        text_view(final(low)@) == fill(
            text_view(old(low)@),
            indexed_dests(constraint_views(constraints@), f@, index as nat),
            value@,
        ),
{
    let ghost cvs = constraint_views(constraints@);
    let ghost low0 = text_view(low@);
    let mut i: usize = 0;
    assert(fill(low0, indexed_dests_upto(cvs, f@, index as nat, 0), value@) =~= low0);
    while i < constraints.len()
        invariant
            cvs == constraint_views(constraints@),
            i <= constraints@.len(),
            text_view(low@) == fill(low0, indexed_dests_upto(cvs, f@, index as nat, i as int), value@),
        decreases constraints.len() - i,
    {
        let ghost before = low@;
        if constraints[i].indexed && str_eq(constraints[i].frontend_name.as_str(), f) {
            let d = indexed_destination_name(constraints[i].destination_name.as_str(), index);
            let ghost dv = d@;
            let vs = value.to_string();
            let ghost vg = vs;
            low.insert(d, vs);
            proof {
                lemma_text_view_insert(before, dv, vg);
                assert(cvs[i as int].frontend == f@ && cvs[i as int].indexed);
                assert(indexed_destination(cvs[i as int].destination, index as nat) == dv);
                assert(indexed_dests_upto(cvs, f@, index as nat, i + 1) =~= indexed_dests_upto(
                    cvs,
                    f@,
                    index as nat,
                    i as int,
                ).insert(dv));
                assert(text_view(low@) =~= fill(low0, indexed_dests_upto(cvs, f@, index as nat, i + 1), value@));
            }
        } else {
            assert(indexed_dests_upto(cvs, f@, index as nat, i + 1) =~= indexed_dests_upto(
                cvs,
                f@,
                index as nat,
                i as int,
            ));
        }
        i += 1;
    }
    assert(indexed_dests_upto(cvs, f@, index as nat, cvs.len() as int) =~= indexed_dests(cvs, f@, index as nat));
}

/// An invalid-argument error whose message names parameter `f` and job `job`.
fn parameter_error(f: &str, middle: &str, job: &str) -> (e: HbciError)
    ensures
        e@ == job_error("job parameter "@ + f@ + middle@ + job@),
{
    let mut m = "job parameter ".to_string();
    append(&mut m, f);
    append(&mut m, middle);
    append(&mut m, job);
    HbciError::new(HbciErrorKind::InvalidArgument, m.as_str())
}

impl HbciJob {
    /// A job of kind `name` without parameters.
    pub fn new(name: &str) -> (r: Self)
        ensures
            r@ == (JobView {
                name: name@,
                params: Map::empty(),
                lowlevel: Map::empty(),
                constraints: constraint_table(name@),
            }),
    {
        let r = HbciJob {
            name: name.to_string(),
            params: StrMap::new(),
            lowlevel_params: StrMap::new(),
            constraints: constraints_for_job(name),
        };
        assert(r@.params =~= Map::empty());
        assert(r@.lowlevel =~= Map::empty());
        r
    }

    pub fn name(&self) -> (r: &str)
        ensures
            r@ == self@.name,
    {
        self.name.as_str()
    }

    /// Sets parameter `name` to `value`, without checks and without touching
    /// the data elements.
    pub fn set_param(&mut self, name: &str, value: &str)
        ensures
            final(self)@ == (JobView { params: old(self)@.params.insert(name@, value@), ..old(self)@ }),
    {
        let vs = value.to_string();
        let ghost vg = vs;
        self.params.insert(name.to_string(), vs);
        proof {
            lemma_text_view_insert(old(self).params@, name@, vg);
        }
    }

    /// Sets parameter `name` to the decimal text of `value`.
    pub fn set_param_int(&mut self, name: &str, value: i32)
        ensures
            final(self)@ == (JobView {
                params: old(self)@.params.insert(name@, signed_decimal(value as int)),
                ..old(self)@
            }),
    {
        let v = i64_string(value as i64);
        self.set_param(name, v.as_str());
    }

    /// The value of parameter `name`.
    pub fn param(&self, name: &str) -> (r: Option<&str>)
        ensures
            r matches Some(v) ==> self@.params.contains_key(name@) && self@.params[name@] == v@,
            r is None ==> !self@.params.contains_key(name@),
    {
        match self.params.get(name) {
            Some(v) => Some(v.as_str()),
            None => None,
        }
    }

    /// All parameters.
    pub fn params(&self) -> (r: &StrMap<String>)
        ensures
            text_view(r@) == self@.params,
    {
        &self.params
    }

    /// The value of the data element `name`.
    pub fn lowlevel_param(&self, name: &str) -> (r: Option<&str>)
        ensures
            r matches Some(v) ==> self@.lowlevel.contains_key(name@) && self@.lowlevel[name@] == v@,
            r is None ==> !self@.lowlevel.contains_key(name@),
    {
        match self.lowlevel_params.get(name) {
            Some(v) => Some(v.as_str()),
            None => None,
        }
    }

    /// All data elements set so far.
    pub fn lowlevel_params(&self) -> (r: &StrMap<String>)
        ensures
            text_view(r@) == self@.lowlevel,
    {
        &self.lowlevel_params
    }

    /// The constraints of the job's kind.
    pub fn constraints(&self) -> (r: &[HbciJobConstraint])
        ensures
            constraint_views(r@) == self@.constraints,
    {
        self.constraints.as_slice()
    }

    fn constraint_index(&self, frontend_name: &str) -> (r: Option<usize>)
        ensures
            r matches Some(i) ==> is_first(self@.constraints, frontend_name@, i as int),
            r is None ==> !accepts(self@.constraints, frontend_name@),
    {
        let ghost cvs = self@.constraints;
        let mut i: usize = 0;
        while i < self.constraints.len()
            invariant
                cvs == constraint_views(self.constraints@),
                i <= self.constraints@.len(),
                forall|j: int| 0 <= j < i ==> #[trigger] cvs[j].frontend != frontend_name@,
            decreases self.constraints.len() - i,
        {
            if str_eq(self.constraints[i].frontend_name.as_str(), frontend_name) {
                return Some(i);
            }
            i += 1;
        }
        None
    }

    /// The first constraint named `frontend_name`.
    pub fn constraint(&self, frontend_name: &str) -> (r: Option<&HbciJobConstraint>)
        ensures
            r matches Some(c) ==> exists|i: int| is_first(self@.constraints, frontend_name@, i) && c@ == #[trigger] self@.constraints[i],
            r is None ==> !accepts(self@.constraints, frontend_name@),
    {
        match self.constraint_index(frontend_name) {
            Some(i) => {
                let c = &self.constraints[i];
                assert(c@ == self@.constraints[i as int]);
                Some(c)
            },
            None => None,
        }
    }

    /// Whether the job has a parameter `frontend_name`.
    pub fn accepts_param(&self, frontend_name: &str) -> (b: bool)
        ensures
            b == accepts(self@.constraints, frontend_name@),
    {
        self.constraint_index(frontend_name).is_some()
    }

    /// Whether the job has an indexed parameter `frontend_name`.
    pub fn accepts_indexed_param(&self, frontend_name: &str) -> (b: bool)
        ensures
            b == accepts_indexed(self@.constraints, frontend_name@),
    {
        let ghost cvs = self@.constraints;
        let mut i: usize = 0;
        while i < self.constraints.len()
            invariant
                cvs == constraint_views(self.constraints@),
                i <= self.constraints@.len(),
                forall|j: int| 0 <= j < i ==> !(#[trigger] cvs[j].frontend == frontend_name@ && cvs[j].indexed),
            decreases self.constraints.len() - i,
        {
            if self.constraints[i].indexed && str_eq(self.constraints[i].frontend_name.as_str(), frontend_name) {
                assert(cvs[i as int].frontend == frontend_name@ && cvs[i as int].indexed);
                return true;
            }
            i += 1;
        }
        false
    }

    fn lowlevel_value_for_frontend(&self, frontend_name: &str, value: &str) -> (r: String)
        ensures
            r@ == lowlevel_value(self@.name, frontend_name@, value@),
    {
        if str_eq(self.name.as_str(), "TAN2Step") && str_eq(frontend_name, "orderhash") {
            proof {
                reveal_strlit("B");
            }
            concat("B", value)
        } else {
            value.to_string()
        }
    }

    fn set_frontend_and_lowlevel_param(&mut self, frontend_name: &str, value: &str)
        ensures
            final(self)@ == with_param(old(self)@, frontend_name@, value@),
    {
        let lv = self.lowlevel_value_for_frontend(frontend_name, value);
        fill_dests(&mut self.lowlevel_params, &self.constraints, frontend_name, lv.as_str());
        let ghost mid = self.params@;
        let vs = value.to_string();
        let ghost vg = vs;
        self.params.insert(frontend_name.to_string(), vs);
        proof {
            lemma_text_view_insert(mid, frontend_name@, vg);
        }
    }

    /// Sets parameter `name` to `value` and the data elements it fills;
    /// refused for a parameter that the job does not have, or an empty value.
    pub fn try_set_param(&mut self, name: &str, value: &str) -> (r: HbciResult<()>)
        ensures
            match set_result(old(self)@, name@, value@) {
                Ok(j) => r is Ok && final(self)@ == j,
                Err(e) => r matches Err(x) && x@ == e && final(self)@ == old(self)@,
            },
    {
        if !self.accepts_param(name) {
            return Err(parameter_error(name, " is not accepted by ", self.name.as_str()));
        }
        if value.unicode_len() == 0 {
            return Err(parameter_error(name, " must not be empty for ", self.name.as_str()));
        }
        self.set_frontend_and_lowlevel_param(name, value);
        Ok(())
    }

    /// `try_set_param` with the decimal text of `value`.
    pub fn try_set_param_int(&mut self, name: &str, value: i32) -> (r: HbciResult<()>)
        ensures
            match set_result(old(self)@, name@, signed_decimal(value as int)) {
                Ok(j) => r is Ok && final(self)@ == j,
                Err(e) => r matches Err(x) && x@ == e && final(self)@ == old(self)@,
            },
    {
        let v = i64_string(value as i64);
        self.try_set_param(name, v.as_str())
    }

    /// Sets the `index`-th repetition of the data elements that parameter
    /// `name` fills; refused for a parameter that the job does not have or
    /// does not index, or an empty value.
    pub fn try_set_indexed_param(&mut self, name: &str, index: usize, value: &str) -> (r: HbciResult<()>)
        ensures
            match indexed_result(old(self)@, name@, index as nat, value@) {
                Ok(j) => r is Ok && final(self)@ == j,
                Err(e) => r matches Err(x) && x@ == e && final(self)@ == old(self)@,
            },
    {
        if !self.accepts_param(name) {
            return Err(parameter_error(name, " is not accepted by ", self.name.as_str()));
        }
        if value.unicode_len() == 0 {
            return Err(parameter_error(name, " must not be empty for ", self.name.as_str()));
        }
        if !self.accepts_indexed_param(name) {
            return Err(parameter_error(name, " is not indexed by ", self.name.as_str()));
        }
        fill_indexed_dests(&mut self.lowlevel_params, &self.constraints, name, index, value);
        Ok(())
    }

    fn set_optional_structured_param(&mut self, base: &str, field: &str, value: Option<&str>)
        ensures
            final(self)@ == with_structured(old(self)@, base@, field@, opt_str_view(value)),
    {
        let mut name = base.to_string();
        push_char(&mut name, '.');
        append(&mut name, field);
        assert(name@ == field_name(base@, field@));
        if self.accepts_param(name.as_str()) {
            match value {
                Some(v) => {
                    if v.unicode_len() > 0 {
                        self.set_frontend_and_lowlevel_param(name.as_str(), v);
                    }
                },
                None => {},
            }
        }
    }

    fn apply_structured_fields(&mut self, base: &str, fields: &Vec<(&str, Option<&str>)>)
        ensures
            final(self)@ == with_structured_fields(old(self)@, base@, field_views(fields@)),
    {
        let ghost fv = field_views(fields@);
        let mut i: usize = 0;
        assert(fv.skip(0) =~= fv);
        while i < fields.len()
            invariant
                fv == field_views(fields@),
                i <= fields@.len(),
                with_structured_fields(self@, base@, fv.skip(i as int)) == with_structured_fields(old(self)@, base@, fv),
            decreases fields.len() - i,
        {
            let ghost before = self@;
            assert(fv.skip(i as int).drop_first() =~= fv.skip(i + 1));
            assert(fv.skip(i as int)[0] == fv[i as int]);
            self.set_optional_structured_param(base, fields[i].0, fields[i].1);
            i += 1;
        }
        assert(fv.skip(i as int) =~= Seq::<(Seq<char>, Option<Seq<char>>)>::empty());
    }

    /// Sets the fields of account `account` as the structured parameter
    /// `name`, each where the job has it and the account a value.
    pub fn set_param_account(&mut self, name: &str, account: &Konto)
        ensures
            final(self)@ == with_structured_fields(old(self)@, name@, account_fields(*account)),
    {
        let fields = vec![
            ("country", opt_str(&account.country)),
            ("blz", opt_str(&account.blz)),
            ("number", opt_str(&account.number)),
            ("subnumber", opt_str(&account.subnumber)),
            ("name", opt_str(&account.name)),
            ("curr", opt_str(&account.curr)),
            ("bic", opt_str(&account.bic)),
            ("iban", opt_str(&account.iban)),
        ];
        assert(field_views(fields@) =~= account_fields(*account));
        self.apply_structured_fields(name, &fields);
    }

    /// Sets the amount and currency of `value` as the structured parameter
    /// `name`, each where the job has it and a value is given.
    pub fn set_param_value(&mut self, name: &str, value: &Value)
        ensures
            final(self)@ == with_structured_fields(old(self)@, name@, value_fields(*value)),
    {
        let fields = vec![("value", Some(value.value.as_str())), ("curr", opt_str(&value.curr))];
        assert(field_views(fields@) =~= value_fields(*value));
        self.apply_structured_fields(name, &fields);
    }

    fn try_set_optional_indexed_structured_param(
        &mut self,
        base: &str,
        index: usize,
        field: &str,
        value: Option<&str>,
    ) -> (r: HbciResult<()>)
        ensures
            match opt_indexed_result(old(self)@, base@, index as nat, field@, opt_str_view(value)) {
                Ok(j) => r is Ok && final(self)@ == j,
                Err(e) => r matches Err(x) && x@ == e && final(self)@ == old(self)@,
            },
    {
        let mut name = base.to_string();
        push_char(&mut name, '.');
        append(&mut name, field);
        assert(name@ == field_name(base@, field@));
        if self.accepts_param(name.as_str()) {
            match value {
                Some(v) => {
                    if v.unicode_len() > 0 {
                        return self.try_set_indexed_param(name.as_str(), index, v);
                    }
                },
                None => {},
            }
        }
        Ok(())
    }

    fn apply_indexed_fields(&mut self, base: &str, index: usize, fields: &Vec<(&str, Option<&str>)>) -> (r: HbciResult<()>)
        ensures
            ({
                let (j, res) = indexed_fields_result(old(self)@, base@, index as nat, field_views(fields@));
                &&& final(self)@ == j
                &&& match res {
                    Ok(_) => r is Ok,
                    Err(e) => r matches Err(x) && x@ == e,
                }
            }),
    {
        let ghost fv = field_views(fields@);
        let mut i: usize = 0;
        assert(fv.skip(0) =~= fv);
        while i < fields.len()
            invariant
                fv == field_views(fields@),
                i <= fields@.len(),
                indexed_fields_result(self@, base@, index as nat, fv.skip(i as int)) == indexed_fields_result(
                    old(self)@,
                    base@,
                    index as nat,
                    fv,
                ),
            decreases fields.len() - i,
        {
            assert(fv.skip(i as int).drop_first() =~= fv.skip(i + 1));
            assert(fv.skip(i as int)[0] == fv[i as int]);
            match self.try_set_optional_indexed_structured_param(base, index, fields[i].0, fields[i].1) {
                Ok(()) => {},
                Err(e) => {
                    return Err(e);
                },
            }
            i += 1;
        }
        assert(fv.skip(i as int) =~= Seq::<(Seq<char>, Option<Seq<char>>)>::empty());
        Ok(())
    }

    /// Sets the `index`-th repetition of the amount and currency of `value`
    /// as the structured parameter `name`, up to the first field refused.
    pub fn try_set_indexed_param_value(&mut self, name: &str, index: usize, value: &Value) -> (r: HbciResult<()>)
        ensures
            ({
                let (j, res) = indexed_fields_result(old(self)@, name@, index as nat, value_fields(*value));
                &&& final(self)@ == j
                &&& match res {
                    Ok(_) => r is Ok,
                    Err(e) => r matches Err(x) && x@ == e,
                }
            }),
    {
        let fields = vec![("value", Some(value.value.as_str())), ("curr", opt_str(&value.curr))];
        assert(field_views(fields@) =~= value_fields(*value));
        self.apply_indexed_fields(name, index, &fields)
    }

    /// Sets the `index`-th repetition of the fields of `account` as the
    /// structured parameter `name`, up to the first field refused.
    pub fn try_set_indexed_param_account(&mut self, name: &str, index: usize, account: &Konto) -> (r: HbciResult<()>)
        ensures
            ({
                let (j, res) = indexed_fields_result(old(self)@, name@, index as nat, account_fields(*account));
                &&& final(self)@ == j
                &&& match res {
                    Ok(_) => r is Ok,
                    Err(e) => r matches Err(x) && x@ == e,
                }
            }),
    {
        let fields = vec![
            ("country", opt_str(&account.country)),
            ("blz", opt_str(&account.blz)),
            ("number", opt_str(&account.number)),
            ("subnumber", opt_str(&account.subnumber)),
            ("name", opt_str(&account.name)),
            ("curr", opt_str(&account.curr)),
            ("bic", opt_str(&account.bic)),
            ("iban", opt_str(&account.iban)),
        ];
        assert(field_views(fields@) =~= account_fields(*account));
        self.apply_indexed_fields(name, index, &fields)
    }

    fn resolved_constraint_value(&self, c: &HbciJobConstraint) -> (r: Option<Option<(String, bool)>>)
        ensures
            resolved_view(r) == resolve(self@.lowlevel, self@.params, c@),
    {
        match self.lowlevel_param(c.destination_name.as_str()) {
            Some(v) => {
                if v.unicode_len() > 0 {
                    return Some(Some((v.to_string(), false)));
                }
            },
            None => {},
        }
        if c.indexed {
            let d0 = indexed_destination_name(c.destination_name.as_str(), 0);
            match self.lowlevel_param(d0.as_str()) {
                Some(v) => {
                    if v.unicode_len() > 0 {
                        return Some(Some((v.to_string(), false)));
                    }
                },
                None => {},
            }
        }
        match self.param(c.frontend_name.as_str()) {
            Some(v) => {
                if v.unicode_len() > 0 {
                    return Some(Some((v.to_string(), true)));
                }
            },
            None => {},
        }
        match &c.default_value {
            None => None,
            Some(d) => {
                if d.as_str().unicode_len() > 0 {
                    Some(Some((d.clone(), true)))
                } else {
                    Some(None)
                }
            },
        }
    }

    /// Resolves every constraint in order: the data element keeps a value it
    /// has, else takes the parameter, else the default, which is then also
    /// kept in the job; a required parameter without a value is an error.
    /// Gives the data elements of the request.
    pub fn verify_constraints(&mut self) -> (r: HbciResult<StrMap<String>>)
        ensures
            ({
                let (low, res) = resolve_all(old(self)@.constraints, old(self)@.params, old(self)@.lowlevel, Map::empty());
                &&& final(self)@ == (JobView { lowlevel: low, ..old(self)@ })
                &&& match res {
                    Ok(m) => r matches Ok(x) && text_view(x@) == m,
                    Err(f) => r matches Err(e) && e@ == job_error(missing_message(f)),
                }
            }),
    {
        let ghost cvs = self@.constraints;
        let ghost params = self@.params;
        let mut out: StrMap<String> = StrMap::new();
        let mut i: usize = 0;
        assert(cvs.skip(0) =~= cvs);
        assert(text_view(out@) =~= Map::empty());
        while i < self.constraints.len()
            invariant
                cvs == self@.constraints,
                cvs == constraint_views(self.constraints@),
                params == self@.params,
                self@ == (JobView { lowlevel: self@.lowlevel, ..old(self)@ }),
                i <= cvs.len(),
                resolve_all(cvs.skip(i as int), params, self@.lowlevel, text_view(out@)) == resolve_all(
                    cvs,
                    params,
                    old(self)@.lowlevel,
                    Map::empty(),
                ),
            decreases self.constraints.len() - i,
        {
            assert(cvs.skip(i as int).drop_first() =~= cvs.skip(i + 1));
            assert(cvs.skip(i as int)[0] == cvs[i as int]);
            let r = self.resolved_constraint_value(&self.constraints[i]);
            match r {
                None => {
                    let m = concat("missing required job parameter: ", self.constraints[i].frontend_name.as_str());
                    return Err(HbciError::new(HbciErrorKind::InvalidArgument, m.as_str()));
                },
                Some(None) => {},
                Some(Some((v, persist))) => {
                    let dest = self.constraints[i].destination_name.clone();
                    let ghost out0 = out@;
                    if persist && !self.lowlevel_params.contains_key(dest.as_str()) {
                        let ghost low0 = self.lowlevel_params@;
                        let vc = v.clone();
                        let ghost vg = vc;
                        self.lowlevel_params.insert(dest.clone(), vc);
                        proof {
                            lemma_text_view_insert(low0, dest@, vg);
                        }
                    }
                    let ghost vg2 = v;
                    out.insert(dest, v);
                    proof {
                        lemma_text_view_insert(out0, cvs[i as int].destination, vg2);
                    }
                },
            }
            i += 1;
        }
        assert(cvs.skip(i as int) =~= Seq::<ConstraintView>::empty());
        Ok(out)
    }

    fn resolved_frontend_value(&self, frontend_name: &str) -> (r: Option<String>)
        ensures
            opt_view(r) == resolved_frontend(self@, frontend_name@),
    {
        match self.constraint_index(frontend_name) {
            None => None,
            Some(i) => {
                proof {
                    lemma_first_unique(self@.constraints, frontend_name@, i as int);
                }
                let d = self.constraints[i].destination_name.as_str();
                match self.lowlevel_param(d) {
                    Some(v) => {
                        if v.unicode_len() > 0 {
                            Some(v.to_string())
                        } else {
                            None
                        }
                    },
                    None => match self.param(frontend_name) {
                        Some(v) => {
                            if v.unicode_len() > 0 {
                                Some(v.to_string())
                            } else {
                                None
                            }
                        },
                        None => None,
                    },
                }
            },
        }
    }

    /// The IBAN that the account checks of this job find invalid, if any:
    /// the jobs on an own account check the IBAN of `my`. The caller asks the
    /// user for a correction (see [`next_iban`]) and hands the outcome to
    /// [`HbciJob::apply_corrected_iban`].
    pub fn iban_to_correct(&self) -> (r: Option<String>)
        ensures
            opt_view(r) == iban_needing_correction(self@),
    {
        let n = self.name.as_str();
        if !(str_eq(n, "KUmsAll") || str_eq(n, "KUmsAllCamt") || str_eq(n, "KUmsNew") || str_eq(n, "SaldoReq")
            || str_eq(n, "SaldoReqAll")) {
            return None;
        }
        match self.resolved_frontend_value("my.iban") {
            None => None,
            Some(iban) => {
                if AccountCrcAlgs::check_iban(iban.as_str()) {
                    None
                } else {
                    Some(iban)
                }
            },
        }
    }

    /// Takes over the IBAN that the user settled on, where it differs from the
    /// one found invalid.
    pub fn apply_corrected_iban(&mut self, original: &str, iban: &str)
        ensures
            final(self)@ == (if iban@ != original@ {
                with_param(old(self)@, "my.iban"@, iban@)
            } else {
                old(self)@
            }),
    {
        if !str_eq(iban, original) {
            self.set_frontend_and_lowlevel_param("my.iban", iban);
        }
    }
}

/// The value that resolving a constraint gives: `None` where a required
/// parameter has no value, `Some(None)` where nothing is to be sent, and else
/// the value with whether the job keeps it.
pub open spec fn resolve(
    low: Map<Seq<char>, Seq<char>>,
    params: Map<Seq<char>, Seq<char>>,
    c: ConstraintView,
) -> Option<Option<(Seq<char>, bool)>> {
    let d0 = indexed_destination(c.destination, 0);
    if low.contains_key(c.destination) && low[c.destination].len() > 0 {
        Some(Some((low[c.destination], false)))
    } else if c.indexed && low.contains_key(d0) && low[d0].len() > 0 {
        Some(Some((low[d0], false)))
    } else if params.contains_key(c.frontend) && params[c.frontend].len() > 0 {
        Some(Some((params[c.frontend], true)))
    } else {
        match c.default {
            None => None,
            Some(d) => if d.len() > 0 {
                Some(Some((d, true)))
            } else {
                Some(None)
            },
        }
    }
}

pub open spec fn resolved_view(r: Option<Option<(String, bool)>>) -> Option<Option<(Seq<char>, bool)>> {
    match r {
        None => None,
        Some(None) => Some(None),
        Some(Some((v, p))) => Some(Some((v@, p))),
    }
}

/// Resolves the constraints `cvs` in turn, starting from the data elements
/// `low` and the collected values `out`: the data elements at the end, and
/// the collected values or the name of the first required parameter without
/// a value.
pub open spec fn resolve_all(
    cvs: Seq<ConstraintView>,
    params: Map<Seq<char>, Seq<char>>,
    low: Map<Seq<char>, Seq<char>>,
    out: Map<Seq<char>, Seq<char>>,
) -> (Map<Seq<char>, Seq<char>>, Result<Map<Seq<char>, Seq<char>>, Seq<char>>)
    decreases cvs.len(),
{
    if cvs.len() == 0 {
        (low, Ok(out))
    } else {
        let c = cvs[0];
        match resolve(low, params, c) {
            None => (low, Err(c.frontend)),
            Some(None) => resolve_all(cvs.drop_first(), params, low, out),
            Some(Some((v, persist))) => {
                let low2 = if persist && !low.contains_key(c.destination) {
                    low.insert(c.destination, v)
                } else {
                    low
                };
                resolve_all(cvs.drop_first(), params, low2, out.insert(c.destination, v))
            },
        }
    }
}

pub open spec fn missing_message(f: Seq<char>) -> Seq<char> {
    "missing required job parameter: "@ + f
}

proof fn lemma_first_unique(cvs: Seq<ConstraintView>, f: Seq<char>, i: int)
    requires
        is_first(cvs, f, i),
    ensures
        (choose|k: int| is_first(cvs, f, k)) == i,
{
    let k = choose|k: int| is_first(cvs, f, k);
    assert(is_first(cvs, f, k));
    if k < i {
        assert(cvs[k].frontend != f);
    } else if k > i {
        assert(cvs[i].frontend != f);
    }
}

/// The value of parameter `f` as the account checks see it: the data element
/// of its first constraint where that is set, else the parameter; nothing
/// where that is empty.
pub open spec fn resolved_frontend(j: JobView, f: Seq<char>) -> Option<Seq<char>> {
    if accepts(j.constraints, f) {
        let d = j.constraints[choose|k: int| is_first(j.constraints, f, k)].destination;
        if j.lowlevel.contains_key(d) {
            if j.lowlevel[d].len() > 0 {
                Some(j.lowlevel[d])
            } else {
                None
            }
        } else if j.params.contains_key(f) && j.params[f].len() > 0 {
            Some(j.params[f])
        } else {
            None
        }
    } else {
        None
    }
}

/// The jobs on an own account whose IBAN is checked.
pub open spec fn account_check_job(name: Seq<char>) -> bool {
    name == "KUmsAll"@ || name == "KUmsAllCamt"@ || name == "KUmsNew"@ || name == "SaldoReq"@ || name == "SaldoReqAll"@
}

/// The IBAN of such a job that fails the check.
pub open spec fn iban_needing_correction(j: JobView) -> Option<Seq<char>> {
    if account_check_job(j.name) {
        match resolved_frontend(j, "my.iban"@) {
            Some(i) => if iban_ok(encode_utf8(i)) {
                None
            } else {
                Some(i)
            },
            None => None,
        }
    } else {
        None
    }
}

/// The IBAN after the user answered: the answer, or the IBAN shown when there
/// was none.
pub open spec fn iban_after(current: Seq<char>, response: Option<Seq<char>>) -> Seq<char> {
    match response {
        Some(r) => r,
        None => current,
    }
}

/// The event that asks the user to correct `iban`.
pub fn iban_error_event(iban: &str) -> (e: CallbackEvent)
    ensures
        e.reason == CallbackReason::HaveIbanError,
        e.message@ == "CALLB_HAVE_IBAN_ERROR"@,
        e.data_type == CallbackDataType::Text,
        opt_view(e.current_value) == Some(iban@),
{
    CallbackEvent {
        reason: CallbackReason::HaveIbanError,
        message: "CALLB_HAVE_IBAN_ERROR".to_string(),
        data_type: CallbackDataType::Text,
        current_value: Some(iban.to_string()),
    }
}

/// One round of the IBAN correction: the IBAN after the user's answer, and
/// whether the asking stops, which it does once the answer repeats the IBAN
/// shown or passes the check.
pub fn next_iban(current: &str, response: Option<&str>) -> (r: (String, bool))
    ensures
        r.0@ == iban_after(current@, opt_str_view(response)),
        r.1 == (r.0@ == current@ || iban_ok(encode_utf8(r.0@))),
{
    let next = match response {
        Some(v) => v.to_string(),
        None => current.to_string(),
    };
    let done = str_eq(next.as_str(), current) || AccountCrcAlgs::check_iban(next.as_str());
    (next, done)
}

impl JobRegistry {
    /// A new job `name`, if the registry offers it.
    pub fn new_job(&self, name: &str) -> (r: HbciResult<HbciJob>)
        ensures
            self.names_view().contains(name@) ==> (r matches Ok(j) && j@ == (JobView {
                name: name@,
                params: Map::empty(),
                lowlevel: Map::empty(),
                constraints: constraint_table(name@),
            })),
            !self.names_view().contains(name@) ==> (r matches Err(e) && e@ == (ErrorView {
                kind: HbciErrorKind::Unsupported,
                message: "unsupported or out-of-scope job: "@ + name@,
                source: None,
            })),
    {
        if self.contains(name) {
            Ok(HbciJob::new(name))
        } else {
            let m = concat("unsupported or out-of-scope job: ", name);
            Err(HbciError::new(HbciErrorKind::Unsupported, m.as_str()))
        }
    }
}

} // verus!
