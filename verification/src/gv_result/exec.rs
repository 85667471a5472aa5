//! The status of a whole execution, per customer id, and the results of jobs.

use vstd::prelude::*;
use crate::dialog::KnownReturncode;
use crate::gv_result::account::opt_view;
use crate::gv_result::status::{
    values_code, values_status_code, values_text, values_text_of, msg_text, HbciStatusCode,
    error_lines, clone_strings, derefs, dialog_ok, dialog_text, is_auth_fail, joined_status_strings, lines,
    non_empty, str_views, code_starts, with_code, HbciDialogStatus, HbciMsgStatus, HbciReturnValue,
    HbciStatus,
};
use crate::strmap::StrMap;
use crate::text::{append, concat, concat3, decimal, push_char, push_decimal, str_eq};

verus! {

/// Two return values with equal contents.
pub open spec fn same_value(a: HbciReturnValue, b: HbciReturnValue) -> bool {
    &&& a.code@ == b.code@
    &&& opt_view(a.segment_ref) == opt_view(b.segment_ref)
    &&& opt_view(a.data_ref) == opt_view(b.data_ref)
    &&& a.text@ == b.text@
    &&& str_views(a.params@) == str_views(b.params@)
    &&& opt_view(a.element) == opt_view(b.element)
}

/// Two lists of return values with equal contents.
pub open spec fn same_values(a: Seq<HbciReturnValue>, b: Seq<HbciReturnValue>) -> bool {
    a.len() == b.len() && forall|i: int| 0 <= i < a.len() ==> same_value(#[trigger] a[i], b[i])
}

fn clone_opt(o: &Option<String>) -> (r: Option<String>)
    ensures
        opt_view(r) == opt_view(*o),
{
    match o {
        Some(s) => Some(s.clone()),
        None => None,
    }
}

impl HbciReturnValue {
    /// A copy with equal contents.
    pub fn copy_value(&self) -> (r: Self)
        ensures
            same_value(r, *self),
    {
        HbciReturnValue {
            code: self.code.clone(),
            segment_ref: clone_opt(&self.segment_ref),
            data_ref: clone_opt(&self.data_ref),
            text: self.text.clone(),
            params: clone_strings(&self.params),
            element: clone_opt(&self.element),
        }
    }
}

/// Copies of return values.
pub fn copy_values(vs: &Vec<HbciReturnValue>) -> (r: Vec<HbciReturnValue>)
    ensures
        same_values(r@, vs@),
{
    let mut r: Vec<HbciReturnValue> = Vec::new();
    let mut i: usize = 0;
    while i < vs.len()
        invariant
            i <= vs@.len(),
            r@.len() == i,
            forall|j: int| 0 <= j < i ==> same_value(#[trigger] r@[j], vs@[j]),
        decreases vs.len() - i,
    {
        r.push(vs[i].copy_value());
        i += 1;
    }
    r
}

// ---------------------------------------------------------------------------
// Status of an execution
// ---------------------------------------------------------------------------

/// The outcome of executing the queued jobs: job results, return values,
/// and per customer id the dialog status and client-side failures.
pub struct HbciExecStatus {
    pub success: bool,
    pub job_results: Vec<HbciJobResult>,
    pub messages: Vec<String>,
    pub global_return_values: Vec<HbciReturnValue>,
    pub segment_return_values: Vec<HbciReturnValue>,
    pub dialog_statuses: StrMap<HbciDialogStatus>,
    pub exception_messages: StrMap<Vec<String>>,
}

/// The customer ids with a dialog status or an exception.
pub open spec fn customer_id_set(e: &HbciExecStatus) -> Set<Seq<char>> {
    e.dialog_statuses@.dom().union(e.exception_messages@.dom())
}

pub open spec fn has_dialog_data(e: &HbciExecStatus) -> bool {
    e.dialog_statuses@.len() > 0 || e.exception_messages@.len() > 0
}

/// A customer is fine when it has no exception and a dialog status that is ok.
pub open spec fn ok_for_customer(e: &HbciExecStatus, id: Seq<char>) -> bool {
    &&& !e.exception_messages@.contains_key(id)
    &&& e.dialog_statuses@.contains_key(id)
    &&& dialog_ok(e.dialog_statuses@[id])
}

pub open spec fn exec_ok(e: &HbciExecStatus) -> bool {
    if has_dialog_data(e) {
        forall|id: Seq<char>| #[trigger] customer_id_set(e).contains(id) ==> ok_for_customer(e, id)
    } else {
        e.success
    }
}

/// The exception messages of a customer, then its dialog status, one per line.
pub open spec fn customer_text(e: &HbciExecStatus, id: Seq<char>) -> Seq<char> {
    lines(
        non_empty(
            (if e.exception_messages@.contains_key(id) {
                str_views(e.exception_messages@[id]@)
            } else {
                seq![]
            }) + (if e.dialog_statuses@.contains_key(id) {
                seq![dialog_text(e.dialog_statuses@[id])]
            } else {
                seq![]
            }),
        ),
    )
}

pub open spec fn sorted_ids(ids: Seq<Seq<char>>) -> bool {
    crate::strmap::sorted_keys(ids)
}

impl HbciExecStatus {
    /// An execution without results.
    pub fn new() -> (e: Self)
        ensures
            !e.success,
            e.job_results@.len() == 0,
            e.messages@.len() == 0,
            e.global_return_values@.len() == 0,
            e.segment_return_values@.len() == 0,
            e.dialog_statuses@ == Map::<Seq<char>, HbciDialogStatus>::empty(),
            e.exception_messages@ == Map::<Seq<char>, Vec<String>>::empty(),
    {
        HbciExecStatus {
            success: false,
            job_results: Vec::new(),
            messages: Vec::new(),
            global_return_values: Vec::new(),
            segment_return_values: Vec::new(),
            dialog_statuses: StrMap::new(),
            exception_messages: StrMap::new(),
        }
    }

    /// The customer ids with a dialog status or an exception, ascending.
    pub fn customer_ids(&self) -> (r: Vec<String>)
        ensures
            sorted_ids(str_views(r@)),
            forall|id: Seq<char>| str_views(r@).contains(id) <==> customer_id_set(self).contains(id),
    {
        let mut set: StrMap<bool> = StrMap::new();
        self.dialog_statuses.check_well_formed();
        self.exception_messages.check_well_formed();
        let n = self.dialog_statuses.len();
        let mut i: usize = 0;
        while i < n
            invariant
                n == self.dialog_statuses.size(),
                self.dialog_statuses.well_formed(),
                i <= n,
                forall|k: Seq<char>| #[trigger] set@.contains_key(k) <==> exists|j: int|
                    0 <= j < i && self.dialog_statuses.keys_view()[j] == k,
            decreases n - i,
        {
            let ghost before = set@;
            set.insert(self.dialog_statuses.key_at(i).clone(), true);
            assert forall|k: Seq<char>| #[trigger] set@.contains_key(k) <==> exists|j: int|
                0 <= j < i + 1 && self.dialog_statuses.keys_view()[j] == k by {
                if set@.contains_key(k) && k != self.dialog_statuses.keys_view()[i as int] {
                    assert(before.contains_key(k));
                }
            }
            i += 1;
        }
        let m = self.exception_messages.len();
        let mut i: usize = 0;
        while i < m
            invariant
                m == self.exception_messages.size(),
                n == self.dialog_statuses.size(),
                self.exception_messages.well_formed(),
                i <= m,
                forall|k: Seq<char>| #[trigger] set@.contains_key(k) <==> (exists|j: int|
                    0 <= j < n && self.dialog_statuses.keys_view()[j] == k) || (exists|j: int|
                    0 <= j < i && self.exception_messages.keys_view()[j] == k),
            decreases m - i,
        {
            let ghost before = set@;
            set.insert(self.exception_messages.key_at(i).clone(), true);
            assert forall|k: Seq<char>| #[trigger] set@.contains_key(k) <==> (exists|j: int|
                0 <= j < n && self.dialog_statuses.keys_view()[j] == k) || (exists|j: int|
                0 <= j < i + 1 && self.exception_messages.keys_view()[j] == k) by {
                if set@.contains_key(k) && k != self.exception_messages.keys_view()[i as int] {
                    assert(before.contains_key(k));
                }
            }
            i += 1;
        }
        set.check_well_formed();
        let total = set.len();
        let mut r: Vec<String> = Vec::new();
        let mut i: usize = 0;
        while i < total
            invariant
                total == set.size(),
                set.well_formed(),
                i <= total,
                str_views(r@) == set.keys_view().take(i as int),
            decreases total - i,
        {
            let ghost before = str_views(r@);
            let k = set.key_at(i).clone();
            assert(k@ == set.keys_view()[i as int]);
            r.push(k);
            assert(str_views(r@) =~= before.push(k@));
            assert(str_views(r@) =~= set.keys_view().take(i + 1));
            i += 1;
        }
        assert(str_views(r@) =~= set.keys_view());
        assert forall|id: Seq<char>| str_views(r@).contains(id) <==> customer_id_set(self).contains(id) by {
            if str_views(r@).contains(id) {
                assert(set@.contains_key(id));
            }
            if customer_id_set(self).contains(id) {
                if self.dialog_statuses@.contains_key(id) {
                    let j = crate::strmap::key_index(self.dialog_statuses.keys_view(), id);
                    assert(self.dialog_statuses.keys_view()[j] == id);
                } else {
                    let j = crate::strmap::key_index(self.exception_messages.keys_view(), id);
                    assert(self.exception_messages.keys_view()[j] == id);
                }
                assert(set@.contains_key(id));
            }
        }
        r
    }

    /// Sets, or with `None` removes, the dialog status of a customer.
    pub fn add_dialog_status(&mut self, customer_id: &str, status: Option<HbciDialogStatus>)
        ensures
            status matches Some(s) ==> final(self).dialog_statuses@ == old(
                self,
            ).dialog_statuses@.insert(customer_id@, s),
            status is None ==> final(self).dialog_statuses@ == old(
                self,
            ).dialog_statuses@.remove(customer_id@),
            final(self).exception_messages@ == old(self).exception_messages@,
            final(self).success == old(self).success,
    {
        match status {
            Some(s) => {
                self.dialog_statuses.insert(customer_id.to_owned(), s);
            },
            None => {
                self.dialog_statuses.remove(customer_id);
            },
        }
    }

    pub fn dialog_status(&self, customer_id: &str) -> (r: Option<&HbciDialogStatus>)
        ensures
            r matches Some(s) ==> self.dialog_statuses@.contains_key(customer_id@) && *s
                == self.dialog_statuses@[customer_id@],
            r is None ==> !self.dialog_statuses@.contains_key(customer_id@),
    {
        self.dialog_statuses.get(customer_id)
    }

    /// The dialog statuses in ascending order of their customer ids.
    pub fn dialog_status_list(&self) -> (r: Vec<&HbciDialogStatus>)
        ensures
            r@.len() == self.dialog_statuses.vals_view().len(),
            forall|i: int| 0 <= i < r@.len() ==> *r@[i] == self.dialog_statuses.vals_view()[i],
    {
        self.dialog_statuses.check_well_formed();
        let n = self.dialog_statuses.len();
        let mut r: Vec<&HbciDialogStatus> = Vec::new();
        let mut i: usize = 0;
        while i < n
            invariant
                n == self.dialog_statuses.size(),
                self.dialog_statuses.well_formed(),
                i <= n,
                r@.len() == i,
                forall|j: int| 0 <= j < i ==> *r@[j] == self.dialog_statuses.vals_view()[j],
            decreases n - i,
        {
            r.push(self.dialog_statuses.value_at(i));
            i += 1;
        }
        r
    }

    /// Records a client-side failure for a customer.
    pub fn add_exception_message(&mut self, customer_id: &str, message: &str)
        ensures
            final(self).exception_messages@.contains_key(customer_id@),
            str_views(final(self).exception_messages@[customer_id@]@) == (if old(
                self,
            ).exception_messages@.contains_key(customer_id@) {
                str_views(old(self).exception_messages@[customer_id@]@)
            } else {
                seq![]
            }).push(message@),
            forall|k: Seq<char>|
                k != customer_id@ ==> (#[trigger] final(self).exception_messages@.contains_key(k)
                    <==> old(self).exception_messages@.contains_key(k)) && (old(
                    self,
                ).exception_messages@.contains_key(k) ==> final(self).exception_messages@[k]
                    == old(self).exception_messages@[k]),
            final(self).dialog_statuses@ == old(self).dialog_statuses@,
            final(self).success == old(self).success,
    {
        let mut list: Vec<String> = match self.exception_messages.remove(customer_id) {
            Some(v) => v,
            None => Vec::new(),
        };
        let ghost before = str_views(list@);
        list.push(message.to_owned());
        assert(str_views(list@) =~= before.push(message@));
        self.exception_messages.insert(customer_id.to_owned(), list);
    }

    /// The client-side failures recorded for a customer.
    pub fn exception_messages(&self, customer_id: &str) -> (r: Option<&[String]>)
        ensures
            r matches Some(v) ==> self.exception_messages@.contains_key(customer_id@) && v@
                == self.exception_messages@[customer_id@]@,
            r is None ==> !self.exception_messages@.contains_key(customer_id@),
    {
        match self.exception_messages.get(customer_id) {
            Some(v) => Some(v.as_slice()),
            None => None,
        }
    }

    fn has_dialog_data(&self) -> (b: bool)
        ensures
            b == has_dialog_data(self),
    {
        self.dialog_statuses.len() > 0 || self.exception_messages.len() > 0
    }

    pub fn is_ok_for_customer(&self, customer_id: &str) -> (b: bool)
        ensures
            b == ok_for_customer(self, customer_id@),
    {
        if self.exception_messages.contains_key(customer_id) {
            return false;
        }
        match self.dialog_status(customer_id) {
            Some(s) => s.is_ok(),
            None => false,
        }
    }

    /// With dialog data, whether every customer is fine; else the success flag.
    pub fn is_ok(&self) -> (b: bool)
        ensures
            b == exec_ok(self),
    {
        if !self.has_dialog_data() {
            return self.success;
        }
        let ids = self.customer_ids();
        let mut i: usize = 0;
        while i < ids.len()
            invariant
                i <= ids@.len(),
                has_dialog_data(self),
                forall|id: Seq<char>| str_views(ids@).contains(id) <==> customer_id_set(self).contains(id),
                forall|j: int| 0 <= j < i ==> ok_for_customer(self, #[trigger] str_views(ids@)[j]),
            decreases ids.len() - i,
        {
            if !self.is_ok_for_customer(ids[i].as_str()) {
                assert(str_views(ids@).contains(ids@[i as int]@)) by {
                    assert(str_views(ids@)[i as int] == ids@[i as int]@);
                }
                assert(customer_id_set(self).contains(ids@[i as int]@));
                assert(!ok_for_customer(self, ids@[i as int]@));
                return false;
            }
            assert(str_views(ids@)[i as int] == ids@[i as int]@);
            i += 1;
        }
        assert forall|id: Seq<char>| #[trigger] customer_id_set(self).contains(id) implies ok_for_customer(self, id) by {
            assert(str_views(ids@).contains(id));
            let j = choose|j: int| 0 <= j < str_views(ids@).len() && str_views(ids@)[j] == id;
            assert(ok_for_customer(self, str_views(ids@)[j]));
        }
        true
    }

    /// The failures and the dialog status of a customer, one per line.
    pub fn to_string_for_customer(&self, customer_id: &str) -> (s: String)
        ensures
            s@ == customer_text(self, customer_id@),
    {
        let mut parts: Vec<String> = match self.exception_messages(customer_id) {
            Some(v) => {
                let mut c: Vec<String> = Vec::new();
                let mut i: usize = 0;
                while i < v.len()
                    invariant
                        i <= v@.len(),
                        str_views(c@) == str_views(v@.take(i as int)),
                    decreases v.len() - i,
                {
                    let ghost before = str_views(c@);
                    c.push(v[i].clone());
                    assert(str_views(c@) =~= before.push(v@[i as int]@));
                    assert(str_views(v@.take(i + 1)) =~= str_views(v@.take(i as int)).push(
                        v@[i as int]@,
                    ));
                    i += 1;
                }
                assert(v@.take(v@.len() as int) =~= v@);
                c
            },
            None => Vec::new(),
        };
        let ghost head = str_views(parts@);
        if let Some(st) = self.dialog_status(customer_id) {
            parts.push(st.to_display_string());
            assert(str_views(parts@) =~= head + seq![dialog_text(*st)]);
        } else {
            assert(str_views(parts@) =~= head + seq![]);
        }
        joined_status_strings(parts)
    }

    /// The status of the global return values.
    pub fn global_status(&self) -> (s: HbciStatus)
        ensures
            same_values(s.return_values@, self.global_return_values@),
            s.exception_messages@.len() == 0,
    {
        HbciStatus::from_return_values(copy_values(&self.global_return_values))
    }

    /// The status of the segment return values.
    pub fn segment_status(&self) -> (s: HbciStatus)
        ensures
            same_values(s.return_values@, self.segment_return_values@),
            s.exception_messages@.len() == 0,
    {
        HbciStatus::from_return_values(copy_values(&self.segment_return_values))
    }

    pub fn message_status(&self) -> (m: HbciMsgStatus)
        ensures
            same_values(m.global_status.return_values@, self.global_return_values@),
            m.global_status.exception_messages@.len() == 0,
            same_values(m.segment_status.return_values@, self.segment_return_values@),
            m.segment_status.exception_messages@.len() == 0,
    {
        HbciMsgStatus::from_statuses(self.global_status(), self.segment_status())
    }

    /// The return values, global ones first, whose code is `code`.
    pub fn return_values_for_code(&self, code: KnownReturncode) -> (r: Vec<&HbciReturnValue>)
        ensures
            derefs(r@) == with_code(self.global_return_values@, code) + with_code(
                self.segment_return_values@,
                code,
            ),
    {
        let mut r: Vec<&HbciReturnValue> = Vec::new();
        collect_with_code(&mut r, &self.global_return_values, code);
        collect_with_code(&mut r, &self.segment_return_values, code);
        assert(derefs(r@) =~= with_code(self.global_return_values@, code) + with_code(
            self.segment_return_values@,
            code,
        ));
        r
    }

    /// The first return value, global ones first, whose code is `code`.
    pub fn return_value_for_code(&self, code: KnownReturncode) -> (r: Option<&HbciReturnValue>)
        ensures
            r matches Some(v) ==> {
                let all = with_code(self.global_return_values@, code) + with_code(
                    self.segment_return_values@,
                    code,
                );
                all.len() > 0 && *v == all[0]
            },
            r is None ==> with_code(self.global_return_values@, code).len() == 0 && with_code(
                self.segment_return_values@,
                code,
            ).len() == 0,
    {
        let all = self.return_values_for_code(code);
        assert(derefs(all@).len() == all@.len());
        if all.len() > 0 {
            Some(all[0])
        } else {
            None
        }
    }

    /// The first error, global ones first, that reports failed authentication.
    pub fn invalid_pin_code(&self) -> (r: Option<&HbciReturnValue>)
        ensures
            r matches Some(v) ==> first_auth_error(
                self.global_return_values@ + self.segment_return_values@,
                0,
            ) == Some(*v),
            r is None ==> first_auth_error(
                self.global_return_values@ + self.segment_return_values@,
                0,
            ) is None,
    {
        proof {
            lemma_first_auth_error_concat(self.global_return_values@, self.segment_return_values@, 0);
        }
        match first_auth_error_in(&self.global_return_values) {
            Some(v) => Some(v),
            None => first_auth_error_in(&self.segment_return_values),
        }
    }

    /// Whether an error reports failed authentication.
    pub fn is_invalid_pin(&self) -> (b: bool)
        ensures
            b == (first_auth_error(self.global_return_values@ + self.segment_return_values@, 0) is Some),
    {
        self.invalid_pin_code().is_some()
    }

    /// Per customer: its failures and dialog errors, headed by the customer
    /// id when there is more than one; one per line.
    fn dialog_error_string(&self) -> (s: String)
        ensures
            s@ == lines(
                dialog_error_lines(
                    self,
                    sorted_set(customer_id_set(self)),
                    sorted_set(customer_id_set(self)).len() > 1,
                ),
            ),
    {
        let ids = self.customer_ids();
        proof {
            lemma_sorted_set(customer_id_set(self), str_views(ids@));
        }
        let ghost all_ids = str_views(ids@);
        let multiple = ids.len() > 1;
        let mut out: Vec<String> = Vec::new();
        let mut i: usize = 0;
        while i < ids.len()
            invariant
                i <= ids@.len(),
                all_ids == str_views(ids@),
                str_views(out@) == dialog_error_lines(self, all_ids.take(i as int), multiple),
            decreases ids.len() - i,
        {
            let id = ids[i].as_str();
            let mut customer_lines: Vec<String> = match self.exception_messages(id) {
                Some(msgs) => {
                    let mut c: Vec<String> = Vec::new();
                    let mut k: usize = 0;
                    while k < msgs.len()
                        invariant
                            k <= msgs@.len(),
                            str_views(c@) == str_views(msgs@.take(k as int)),
                        decreases msgs.len() - k,
                    {
                        let ghost before = str_views(c@);
                        c.push(msgs[k].clone());
                        assert(str_views(c@) =~= before.push(msgs@[k as int]@));
                        assert(str_views(msgs@.take(k + 1)) =~= str_views(msgs@.take(k as int)).push(
                            msgs@[k as int]@,
                        ));
                        k += 1;
                    }
                    assert(msgs@.take(msgs@.len() as int) =~= msgs@);
                    c
                },
                None => Vec::new(),
            };
            let ghost base = str_views(customer_lines@);
            if let Some(st) = self.dialog_status(id) {
                let e = st.error_string();
                if e.as_str().unicode_len() > 0 {
                    customer_lines.push(e);
                    assert(str_views(customer_lines@) =~= base.push(
                        crate::gv_result::status::dialog_error_text(*st),
                    ));
                }
            }
            assert(str_views(customer_lines@) == customer_lines_of(self, id@));
            let ghost before = str_views(out@);
            if customer_lines.len() > 0 {
                if multiple {
                    out.push(concat3("Dialog for '", id, "':"));
                }
                let ghost mid = str_views(out@);
                let mut k: usize = 0;
                while k < customer_lines.len()
                    invariant
                        k <= customer_lines@.len(),
                        str_views(out@) == mid + str_views(customer_lines@.take(k as int)),
                    decreases customer_lines.len() - k,
                {
                    let ghost b2 = str_views(out@);
                    out.push(customer_lines[k].clone());
                    assert(str_views(out@) =~= b2.push(customer_lines@[k as int]@));
                    assert(str_views(customer_lines@.take(k + 1)) =~= str_views(
                        customer_lines@.take(k as int),
                    ).push(customer_lines@[k as int]@));
                    k += 1;
                }
                assert(customer_lines@.take(customer_lines@.len() as int) =~= customer_lines@);
            }
            proof {
                let t = all_ids.take(i + 1);
                assert(t.drop_last() =~= all_ids.take(i as int));
                assert(t.last() == id@);
                assert(str_views(out@) =~= before + customer_block(self, id@, multiple));
            }
            i += 1;
        }
        assert(all_ids.take(all_ids.len() as int) =~= all_ids);
        crate::gv_result::status::join_lines(&out)
    }

    /// With dialog data the errors per customer, else those of the global
    /// and segment return values.
    pub fn error_string(&self) -> (s: String)
        ensures
            has_dialog_data(self) ==> s@ == lines(
                dialog_error_lines(
                    self,
                    sorted_set(customer_id_set(self)),
                    sorted_set(customer_id_set(self)).len() > 1,
                ),
            ),
            !has_dialog_data(self) ==> s@ == lines(
                non_empty(
                    seq![
                        error_lines(self.global_return_values@, seq![]),
                        error_lines(self.segment_return_values@, seq![]),
                    ],
                ),
            ),
    {
        if self.has_dialog_data() {
            self.dialog_error_string()
        } else {
            let none: Vec<String> = Vec::new();
            assert(str_views(none@) =~= Seq::<Seq<char>>::empty());
            let mut parts: Vec<String> = Vec::new();
            parts.push(crate::gv_result::status::error_lines_of(&self.global_return_values, &none));
            parts.push(crate::gv_result::status::error_lines_of(&self.segment_return_values, &none));
            assert(str_views(parts@) =~= seq![
                error_lines(self.global_return_values@, seq![]),
                error_lines(self.segment_return_values@, seq![]),
            ]);
            joined_status_strings(parts)
        }
    }
}

fn collect_with_code<'a>(r: &mut Vec<&'a HbciReturnValue>, vs: &'a Vec<HbciReturnValue>, code: KnownReturncode)
    ensures
        derefs(final(r)@) == derefs(old(r)@) + with_code(vs@, code),
{
    let ghost start = derefs(r@);
    let mut i: usize = 0;
    while i < vs.len()
        invariant
            i <= vs@.len(),
            derefs(r@) == start + with_code(vs@.take(i as int), code),
        decreases vs.len() - i,
    {
        let ghost t = vs@.take(i + 1);
        assert(t.drop_last() =~= vs@.take(i as int));
        assert(t.last() == vs@[i as int]);
        if code.is(vs[i].code.as_str()) {
            let ghost before = derefs(r@);
            r.push(&vs[i]);
            assert(derefs(r@) =~= before.push(vs@[i as int]));
        }
        i += 1;
    }
    assert(vs@.take(vs@.len() as int) =~= vs@);
}

/// The first error from position `i` on whose code reports failed authentication.
pub open spec fn first_auth_error(vs: Seq<HbciReturnValue>, i: int) -> Option<HbciReturnValue>
    decreases vs.len() - i,
{
    if i < 0 || i >= vs.len() {
        None
    } else if code_starts(vs[i], '9') && is_auth_fail(vs[i].code@) {
        Some(vs[i])
    } else {
        first_auth_error(vs, i + 1)
    }
}

proof fn lemma_first_auth_error_concat(a: Seq<HbciReturnValue>, b: Seq<HbciReturnValue>, i: int)
    requires
        0 <= i <= a.len(),
    ensures
        first_auth_error(a + b, i) == match first_auth_error(a, i) {
            Some(v) => Some(v),
            None => first_auth_error(b, 0),
        },
    decreases a.len() - i,
{
    if i < a.len() {
        assert((a + b)[i] == a[i]);
        lemma_first_auth_error_concat(a, b, i + 1);
    } else {
        lemma_first_auth_error_shift(a, b, 0);
    }
}

proof fn lemma_first_auth_error_shift(a: Seq<HbciReturnValue>, b: Seq<HbciReturnValue>, j: int)
    requires
        0 <= j <= b.len(),
    ensures
        first_auth_error(a + b, a.len() + j) == first_auth_error(b, j),
    decreases b.len() - j,
{
    if j < b.len() {
        assert((a + b)[a.len() + j] == b[j]);
        lemma_first_auth_error_shift(a, b, j + 1);
    }
}

fn first_auth_error_in(vs: &Vec<HbciReturnValue>) -> (r: Option<&HbciReturnValue>)
    ensures
        r matches Some(v) ==> first_auth_error(vs@, 0) == Some(*v),
        r is None ==> first_auth_error(vs@, 0) is None,
{
    let mut i: usize = 0;
    while i < vs.len()
        invariant
            i <= vs@.len(),
            first_auth_error(vs@, 0) == first_auth_error(vs@, i as int),
        decreases vs.len() - i,
    {
        let v = &vs[i];
        if v.is_error() && (KnownReturncode::E9340.is(v.code.as_str())
            || KnownReturncode::E9930.is(v.code.as_str()) || KnownReturncode::E9931.is(
            v.code.as_str(),
        ) || KnownReturncode::E9942.is(v.code.as_str())) {
            return Some(v);
        }
        i += 1;
    }
    None
}

/// The ascending enumeration of a finite set of texts.
pub open spec fn sorted_set(s: Set<Seq<char>>) -> Seq<Seq<char>> {
    choose|ks: Seq<Seq<char>>|
        crate::strmap::sorted_keys(ks) && forall|x: Seq<char>| ks.contains(x) <==> s.contains(x)
}

pub proof fn lemma_sorted_set(s: Set<Seq<char>>, ks: Seq<Seq<char>>)
    requires
        crate::strmap::sorted_keys(ks),
        forall|x: Seq<char>| ks.contains(x) <==> s.contains(x),
    ensures
        sorted_set(s) == ks,
{
    let c = sorted_set(s);
    assert(crate::strmap::sorted_keys(c) && forall|x: Seq<char>| c.contains(x) <==> s.contains(x));
    crate::strmap::lemma_sorted_same_elements(c, ks);
}

/// The failures of a customer, then its dialog errors when there are any.
pub open spec fn customer_lines_of(e: &HbciExecStatus, id: Seq<char>) -> Seq<Seq<char>> {
    (if e.exception_messages@.contains_key(id) {
        str_views(e.exception_messages@[id]@)
    } else {
        seq![]
    }) + (if e.dialog_statuses@.contains_key(id)
        && crate::gv_result::status::dialog_error_text(e.dialog_statuses@[id]).len() > 0 {
        seq![crate::gv_result::status::dialog_error_text(e.dialog_statuses@[id])]
    } else {
        seq![]
    })
}

/// The lines for one customer, headed by its id when `multiple`.
pub open spec fn customer_block(e: &HbciExecStatus, id: Seq<char>, multiple: bool) -> Seq<Seq<char>> {
    let ls = customer_lines_of(e, id);
    if ls.len() == 0 {
        seq![]
    } else if multiple {
        seq!["Dialog for '"@ + id + "':"@] + ls
    } else {
        ls
    }
}

pub open spec fn dialog_error_lines(e: &HbciExecStatus, ids: Seq<Seq<char>>, multiple: bool) -> Seq<
    Seq<char>,
>
    decreases ids.len(),
{
    if ids.len() == 0 {
        seq![]
    } else {
        dialog_error_lines(e, ids.drop_last(), multiple) + customer_block(e, ids.last(), multiple)
    }
}

// ---------------------------------------------------------------------------
// Job results
// ---------------------------------------------------------------------------

/// What a job's response segments hold, by kind of job.
pub enum HbciJobResultData {
    AccInfo(crate::gv_result::data::GvrAccInfo),
    DauerEdit(crate::gv_result::data::GvrDauerEdit),
    DauerList(crate::gv_result::data::GvrDauerList),
    DauerNew(crate::gv_result::data::GvrDauerNew),
    SaldoReq(crate::gv_result::data::GvrSaldoReq),
    KUms(crate::gv_result::kums::GvrKUms),
    TanMediaList(crate::gv_result::data::GvrTanMediaList),
}

/// The result of one job.
pub struct HbciJobResult {
    pub job_name: String,
    pub success: bool,
    pub raw_response: Option<String>,
    pub result_data: StrMap<String>,
    pub global_return_values: Vec<HbciReturnValue>,
    pub return_values: Vec<HbciReturnValue>,
    pub result: Option<HbciJobResultData>,
}

pub open spec fn text_of(m: Map<Seq<char>, String>, k: Seq<char>) -> Seq<char> {
    if m.contains_key(k) {
        m[k]@
    } else {
        "null"@
    }
}

impl HbciJobResult {
    /// Stores a value under a key, when there is a value.
    pub fn store_result(&mut self, key: &str, value: Option<&str>)
        ensures
            value matches Some(v) ==> crate::strmap::text_view(final(self).result_data@)
                == crate::strmap::text_view(old(self).result_data@).insert(key@, v@),
            value is None ==> final(self).result_data@ == old(self).result_data@,
    {
        if let Some(v) = value {
            let ghost before = self.result_data@;
            self.result_data.insert(key.to_owned(), v.to_owned());
            assert(crate::strmap::text_view(self.result_data@) =~= crate::strmap::text_view(
                before,
            ).insert(key@, v@));
        }
    }

    fn result_value(&self, key: &str) -> (r: Option<&str>)
        ensures
            r matches Some(v) ==> self.result_data@.contains_key(key@) && v@
                == self.result_data@[key@]@,
            r is None ==> !self.result_data@.contains_key(key@),
    {
        match self.result_data.get(key) {
            Some(v) => Some(v.as_str()),
            None => None,
        }
    }

    pub fn dialog_id(&self) -> (r: Option<&str>)
        ensures
            r matches Some(v) ==> self.result_data@.contains_key("basic.dialogid"@) && v@
                == self.result_data@["basic.dialogid"@]@,
            r is None ==> !self.result_data@.contains_key("basic.dialogid"@),
    {
        self.result_value("basic.dialogid")
    }

    pub fn msg_num(&self) -> (r: Option<&str>)
        ensures
            r matches Some(v) ==> self.result_data@.contains_key("basic.msgnum"@) && v@
                == self.result_data@["basic.msgnum"@]@,
            r is None ==> !self.result_data@.contains_key("basic.msgnum"@),
    {
        self.result_value("basic.msgnum")
    }

    pub fn seg_num(&self) -> (r: Option<&str>)
        ensures
            r matches Some(v) ==> self.result_data@.contains_key("basic.segnum"@) && v@
                == self.result_data@["basic.segnum"@]@,
            r is None ==> !self.result_data@.contains_key("basic.segnum"@),
    {
        self.result_value("basic.segnum")
    }

    /// `date/dialog/message/segment`, with `null` for a missing part.
    pub fn job_id_for_date(&self, yyyymmdd: &str) -> (s: String)
        ensures
            s@ == yyyymmdd@ + seq!['/'] + text_of(self.result_data@, "basic.dialogid"@) + seq![
                '/',
            ] + text_of(self.result_data@, "basic.msgnum"@) + seq!['/'] + text_of(
                self.result_data@,
                "basic.segnum"@,
            ),
    {
        let mut s = yyyymmdd.to_owned();
        crate::text::push_char(&mut s, '/');
        append(
            &mut s,
            match self.dialog_id() {
                Some(v) => v,
                None => "null",
            },
        );
        crate::text::push_char(&mut s, '/');
        append(
            &mut s,
            match self.msg_num() {
                Some(v) => v,
                None => "null",
            },
        );
        crate::text::push_char(&mut s, '/');
        append(
            &mut s,
            match self.seg_num() {
                Some(v) => v,
                None => "null",
            },
        );
        s
    }

    pub fn ret_number(&self) -> (n: usize)
        ensures
            n == self.return_values@.len(),
    {
        self.return_values.len()
    }

    pub fn ret_value(&self, index: usize) -> (r: Option<&HbciReturnValue>)
        ensures
            r matches Some(v) ==> index < self.return_values@.len() && *v
                == self.return_values@[index as int],
            r is None ==> index >= self.return_values@.len(),
    {
        if index < self.return_values.len() {
            Some(&self.return_values[index])
        } else {
            None
        }
    }

    pub fn global_status(&self) -> (s: HbciStatus)
        ensures
            same_values(s.return_values@, self.global_return_values@),
            s.exception_messages@.len() == 0,
    {
        HbciStatus::from_return_values(copy_values(&self.global_return_values))
    }

    pub fn job_status(&self) -> (s: HbciStatus)
        ensures
            same_values(s.return_values@, self.return_values@),
            s.exception_messages@.len() == 0,
    {
        HbciStatus::from_return_values(copy_values(&self.return_values))
    }
}

/// A job succeeded when neither status is an error and not both are unknown.
pub open spec fn job_ok_with(global: HbciStatusCode, job: HbciStatusCode) -> bool {
    global != HbciStatusCode::Error && job != HbciStatusCode::Error && (global
        != HbciStatusCode::Unknown || job != HbciStatusCode::Unknown)
}

/// The lines `key = value` of result data, in ascending key order.
pub open spec fn result_lines(ks: Seq<Seq<char>>, vs: Seq<String>) -> Seq<Seq<char>>
    decreases ks.len(),
{
    if ks.len() == 0 {
        seq![]
    } else {
        result_lines(ks.drop_last(), vs.take(ks.len() - 1)).push(ks.last() + " = "@ + vs[ks.len() - 1]@)
    }
}

impl HbciJobResult {
    /// Whether the job succeeded, judged with the given global status.
    pub fn is_ok_with_global_status(&self, global_status: &HbciStatus) -> (b: bool)
        ensures
            b == job_ok_with(
                crate::gv_result::status::status_code_of(*global_status),
                values_code(self.return_values@),
            ),
    {
        let g = global_status.status_code();
        let j = values_status_code(&self.return_values);
        g != HbciStatusCode::Error && j != HbciStatusCode::Error && (g != HbciStatusCode::Unknown
            || j != HbciStatusCode::Unknown)
    }

    /// Whether the job succeeded, judged with its own global return values.
    pub fn is_ok(&self) -> (b: bool)
        ensures
            b == job_ok_with(values_code(self.global_return_values@), values_code(self.return_values@)),
    {
        let g = values_status_code(&self.global_return_values);
        let j = values_status_code(&self.return_values);
        g != HbciStatusCode::Error && j != HbciStatusCode::Error && (g != HbciStatusCode::Unknown
            || j != HbciStatusCode::Unknown)
    }

    /// The result data as `key = value` lines, as `Display` shows them.
    pub fn to_display_string(&self) -> (s: String)
        ensures
            s@ == lines(result_lines(self.result_data.keys_view(), self.result_data.vals_view())),
    {
        self.result_data.check_well_formed();
        let n = self.result_data.len();
        let mut out: Vec<String> = Vec::new();
        let mut i: usize = 0;
        while i < n
            invariant
                n == self.result_data.size(),
                self.result_data.well_formed(),
                i <= n,
                str_views(out@) == result_lines(
                    self.result_data.keys_view().take(i as int),
                    self.result_data.vals_view().take(i as int),
                ),
            decreases n - i,
        {
            let mut line = self.result_data.key_at(i).clone();
            append(&mut line, " = ");
            append(&mut line, self.result_data.value_at(i).as_str());
            let ghost before = str_views(out@);
            out.push(line);
            proof {
                let ks = self.result_data.keys_view().take(i + 1);
                let vs = self.result_data.vals_view().take(i + 1);
                assert(ks.drop_last() =~= self.result_data.keys_view().take(i as int));
                assert(vs.take(ks.len() - 1) =~= self.result_data.vals_view().take(i as int));
                assert(str_views(out@) =~= before.push(line@));
            }
            i += 1;
        }
        assert(self.result_data.keys_view().take(n as int) =~= self.result_data.keys_view());
        assert(self.result_data.vals_view().take(n as int) =~= self.result_data.vals_view());
        crate::gv_result::status::join_lines(&out)
    }
}

impl HbciExecStatus {
    /// Without dialog data the message status; else per customer a heading
    /// and its failures and dialog status, as `Display` shows them.
    pub fn to_display_string(&self) -> (s: String)
        ensures
            !has_dialog_data(self) ==> s@ == lines(
                non_empty(
                    seq![
                        values_text(self.global_return_values@, seq![]),
                        values_text(self.segment_return_values@, seq![]),
                    ],
                ),
            ),
            has_dialog_data(self) ==> s@ == lines(
                customer_sections(self, sorted_set(customer_id_set(self))),
            ),
    {
        if !self.has_dialog_data() {
            let none: Vec<String> = Vec::new();
            assert(str_views(none@) =~= Seq::<Seq<char>>::empty());
            let mut parts: Vec<String> = Vec::new();
            parts.push(values_text_of(&self.global_return_values, &none));
            parts.push(values_text_of(&self.segment_return_values, &none));
            assert(str_views(parts@) =~= seq![
                values_text(self.global_return_values@, seq![]),
                values_text(self.segment_return_values@, seq![]),
            ]);
            return joined_status_strings(parts);
        }
        let ids = self.customer_ids();
        proof {
            lemma_sorted_set(customer_id_set(self), str_views(ids@));
        }
        let mut out: Vec<String> = Vec::new();
        let mut i: usize = 0;
        while i < ids.len()
            invariant
                i <= ids@.len(),
                str_views(out@) == customer_sections(self, str_views(ids@).take(i as int)),
            decreases ids.len() - i,
        {
            let mut sec = concat3("Dialog for '", ids[i].as_str(), "':\n");
            append(&mut sec, self.to_string_for_customer(ids[i].as_str()).as_str());
            let ghost before = str_views(out@);
            out.push(sec);
            proof {
                let t = str_views(ids@).take(i + 1);
                assert(t.drop_last() =~= str_views(ids@).take(i as int));
                assert(t.last() == ids@[i as int]@);
                assert(str_views(out@) =~= before.push(sec@));
            }
            i += 1;
        }
        assert(str_views(ids@).take(ids@.len() as int) =~= str_views(ids@));
        crate::gv_result::status::join_lines(&out)
    }
}

/// A heading and the text of each customer.
pub open spec fn customer_sections(e: &HbciExecStatus, ids: Seq<Seq<char>>) -> Seq<Seq<char>>
    decreases ids.len(),
{
    if ids.len() == 0 {
        seq![]
    } else {
        customer_sections(e, ids.drop_last()).push(
            "Dialog for '"@ + ids.last() + "':\n"@ + customer_text(e, ids.last()),
        )
    }
}

// ---------------------------------------------------------------------------
// Institute messages
// ---------------------------------------------------------------------------

/// A message of the bank to its customers.
#[derive(Debug, Clone, PartialEq, Eq)]
pub struct HbciInstMessage {
    pub subject: String,
    pub text: Option<String>,
}

/// The header of occurrence `index` of a repeated element: the base for
/// the first, then `base_2`, `base_3` and so on.
pub open spec fn counted_header(base: Seq<char>, index: nat) -> Seq<char> {
    if index == 0 {
        base
    } else {
        base + seq!['_'] + decimal(index + 1)
    }
}

pub fn counted_header_string(base: &str, index: usize) -> (s: String)
    requires
        index < usize::MAX,
    ensures
        s@ == counted_header(base@, index as nat),
{
    let mut s = base.to_owned();
    if index > 0 {
        push_char(&mut s, '_');
        push_decimal(&mut s, (index as u64) + 1);
    }
    s
}

pub proof fn lemma_counted_header_injective(base: Seq<char>, i: nat, j: nat)
    requires
        counted_header(base, i) == counted_header(base, j),
    ensures
        i == j,
{
    crate::text::lemma_decimal_digits(i + 1);
    crate::text::lemma_decimal_digits(j + 1);
    if i > 0 && j > 0 {
        let a = counted_header(base, i);
        let n = base.len() + 1;
        assert(a.skip(n as int) =~= decimal(i + 1));
        assert(counted_header(base, j).skip(n as int) =~= decimal(j + 1));
    }
}

pub open spec fn text_value(values: Map<Seq<char>, String>, key: Seq<char>) -> Option<Seq<char>> {
    if values.contains_key(key) {
        Some(values[key]@)
    } else {
        None
    }
}

impl HbciInstMessage {
    pub fn new(subject: String, text: Option<String>) -> (m: Self)
        ensures
            m.subject == subject,
            m.text == text,
    {
        HbciInstMessage { subject, text }
    }

    /// The message under `header`: its subject (`betreff`) is required.
    pub fn from_values(values: &StrMap<String>, header: &str) -> (r: crate::error::HbciResult<Self>)
        ensures
            text_value(values@, header@ + ".betreff"@) matches Some(subject) ==> (r matches Ok(m)
                && m.subject@ == subject && opt_view(m.text) == text_value(
                values@,
                header@ + ".text"@,
            )),
            text_value(values@, header@ + ".betreff"@) is None ==> (r matches Err(e) && e@ == (
            crate::error::ErrorView {
                kind: crate::error::HbciErrorKind::Protocol,
                message: "institute message "@ + header@ + " has no subject"@,
                source: None,
            })),
    {
        let subject_key = concat(header, ".betreff");
        let text_key = concat(header, ".text");
        let subject = match values.get(subject_key.as_str()) {
            Some(s) => s.clone(),
            None => {
                let msg = concat3("institute message ", header, " has no subject");
                return Err(
                    crate::error::HbciError::new(crate::error::HbciErrorKind::Protocol, msg.as_str()),
                );
            },
        };
        let text = match values.get(text_key.as_str()) {
            Some(t) => Some(t.clone()),
            None => None,
        };
        Ok(HbciInstMessage::new(subject, text))
    }

    /// The messages under `base`, `base_2`, ... as long as they have a subject.
    pub fn collect_from_values(values: &StrMap<String>, base: &str) -> (r: Vec<Self>)
        ensures
            forall|i: int|
                0 <= i < r@.len() ==> text_value(
                    values@,
                    counted_header(base@, i as nat) + ".betreff"@,
                ) == Some((#[trigger] r@[i]).subject@) && opt_view(r@[i].text) == text_value(
                    values@,
                    counted_header(base@, i as nat) + ".text"@,
                ),
            text_value(values@, counted_header(base@, r@.len()) + ".betreff"@) is None,
    {
        values.check_well_formed();
        let mut messages: Vec<Self> = Vec::new();
        let mut index: usize = 0;
        let ghost mut seen: Set<Seq<char>> = Set::empty();
        loop
            invariant
                values.well_formed(),
                index == messages@.len(),
                seen.finite(),
                seen.len() == index,
                seen.subset_of(values@.dom()),
                forall|j: nat| j < index ==> #[trigger] seen.contains(
                    counted_header(base@, j) + ".betreff"@,
                ),
                forall|k: Seq<char>| #[trigger] seen.contains(k) ==> exists|j: nat|
                    j < index && k == counted_header(base@, j) + ".betreff"@,
                forall|i: int|
                    0 <= i < messages@.len() ==> text_value(
                        values@,
                        counted_header(base@, i as nat) + ".betreff"@,
                    ) == Some((#[trigger] messages@[i]).subject@) && opt_view(messages@[i].text)
                        == text_value(values@, counted_header(base@, i as nat) + ".text"@),
            ensures
                text_value(values@, counted_header(base@, messages@.len()) + ".betreff"@) is None,
                forall|i: int|
                    0 <= i < messages@.len() ==> text_value(
                        values@,
                        counted_header(base@, i as nat) + ".betreff"@,
                    ) == Some((#[trigger] messages@[i]).subject@) && opt_view(messages@[i].text)
                        == text_value(values@, counted_header(base@, i as nat) + ".text"@),
            decreases values@.len() - index,
        {
            let ghost key = counted_header(base@, index as nat) + ".betreff"@;
            proof {
                crate::strmap::lemma_map_of_len(values.keys_view(), values.vals_view());
                vstd::seq_lib::seq_to_set_is_finite(values.keys_view());
                vstd::set_lib::lemma_len_subset(seen, values@.dom());
                assert(!seen.contains(key)) by {
                    if seen.contains(key) {
                        let j = choose|j: nat| j < index && key == counted_header(base@, j) + ".betreff"@;
                        assert(counted_header(base@, j) =~= key.take(key.len() - ".betreff"@.len()));
                        assert(counted_header(base@, index as nat) =~= key.take(
                            key.len() - ".betreff"@.len(),
                        ));
                        lemma_counted_header_injective(base@, j, index as nat);
                    }
                }
            }
            if index >= values.len() {
                proof {
                    if values@.contains_key(key) {
                        vstd::set_lib::lemma_len_subset(seen.insert(key), values@.dom());
                    }
                }
                break;
            }
            let header = counted_header_string(base, index);
            match HbciInstMessage::from_values(values, header.as_str()) {
                Ok(m) => {
                    proof {
                        seen = seen.insert(key);
                        vstd::set_lib::lemma_len_subset(seen, values@.dom());
                    }
                    messages.push(m);
                    index += 1;
                },
                Err(_) => {
                    break;
                },
            }
        }
        messages
    }
}

impl HbciInstMessage {
    /// `subject: text` (`null` without text), as `Display` shows it.
    pub fn to_display_string(&self) -> (s: String)
        ensures
            s@ == self.subject@ + ": "@ + match self.text {
                Some(t) => t@,
                None => "null"@,
            },
    {
        let mut s = self.subject.clone();
        append(&mut s, ": ");
        match &self.text {
            Some(t) => append(&mut s, t.as_str()),
            None => append(&mut s, "null"),
        }
        s
    }
}

} // verus!
