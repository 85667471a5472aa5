//! Return values and the statuses built from them: of one message, of a
//! dialog, and of a whole execution.

use vstd::prelude::*;
use crate::dialog::KnownReturncode;
use crate::gv_result::account::{opt_part, opt_view, opt_str_eq};
use crate::text::{append, join, push_char, push_decimal, decimal, str_eq};

verus! {

// ---------------------------------------------------------------------------
// Joining lines
// ---------------------------------------------------------------------------

pub open spec fn str_views(v: Seq<String>) -> Seq<Seq<char>> {
    v.map_values(|s: String| s@)
}

/// Lines joined with line breaks.
pub open spec fn lines(parts: Seq<Seq<char>>) -> Seq<char> {
    join(parts, seq!['\n'])
}

/// The parts that are not empty.
pub open spec fn non_empty(parts: Seq<Seq<char>>) -> Seq<Seq<char>>
    decreases parts.len(),
{
    if parts.len() == 0 {
        parts
    } else if parts.last().len() > 0 {
        non_empty(parts.drop_last()).push(parts.last())
    } else {
        non_empty(parts.drop_last())
    }
}

/// The texts joined with line breaks.
pub fn join_lines(parts: &Vec<String>) -> (r: String)
    ensures
        r@ == lines(str_views(parts@)),
{
    let mut result = String::new();
    let mut i: usize = 0;
    while i < parts.len()
        invariant
            i <= parts@.len(),
            result@ == lines(str_views(parts@.take(i as int))),
        decreases parts.len() - i,
    {
        if i > 0 {
            push_char(&mut result, '\n');
        }
        append(&mut result, parts[i].as_str());
        proof {
            let ps = str_views(parts@.take(i + 1));
            assert(ps.drop_last() =~= str_views(parts@.take(i as int)));
            assert(ps.last() == parts@[i as int]@);
            assert(result@ =~= lines(ps));
        }
        i += 1;
    }
    assert(parts@.take(parts@.len() as int) =~= parts@);
    result
}

/// The non-empty texts joined with line breaks.
pub fn joined_status_strings(parts: Vec<String>) -> (r: String)
    ensures
        r@ == lines(non_empty(str_views(parts@))),
{
    let mut kept: Vec<String> = Vec::new();
    let mut i: usize = 0;
    while i < parts.len()
        invariant
            i <= parts@.len(),
            str_views(kept@) == non_empty(str_views(parts@.take(i as int))),
        decreases parts.len() - i,
    {
        let ghost ps = str_views(parts@.take(i + 1));
        assert(ps.drop_last() =~= str_views(parts@.take(i as int)));
        assert(ps.last() == parts@[i as int]@);
        if parts[i].as_str().unicode_len() > 0 {
            let ghost before = str_views(kept@);
            kept.push(parts[i].clone());
            assert(str_views(kept@) =~= before.push(parts@[i as int]@));
        }
        i += 1;
    }
    assert(parts@.take(parts@.len() as int) =~= parts@);
    join_lines(&kept)
}

// ---------------------------------------------------------------------------
// Return values
// ---------------------------------------------------------------------------

/// A return value of the bank: a four-digit code, a text, parameters and
/// the reference of the segment and data element it is about.
#[derive(Debug, Clone)]
pub struct HbciReturnValue {
    pub code: String,
    pub segment_ref: Option<String>,
    pub data_ref: Option<String>,
    pub text: String,
    pub params: Vec<String>,
    pub element: Option<String>,
}

/// Return values are equal when code, text and references are.
pub open spec fn return_value_eq(a: HbciReturnValue, b: HbciReturnValue) -> bool {
    &&& a.code@ == b.code@
    &&& a.text@ == b.text@
    &&& opt_view(a.segment_ref) == opt_view(b.segment_ref)
    &&& opt_view(a.data_ref) == opt_view(b.data_ref)
}

impl PartialEq for HbciReturnValue {
    fn eq(&self, other: &Self) -> (r: bool) {
        str_eq(self.code.as_str(), other.code.as_str()) && str_eq(
            self.text.as_str(),
            other.text.as_str(),
        ) && opt_str_eq(&self.segment_ref, &other.segment_ref) && opt_str_eq(
            &self.data_ref,
            &other.data_ref,
        )
    }
}

impl vstd::std_specs::cmp::PartialEqSpecImpl for HbciReturnValue {
    open spec fn obeys_eq_spec() -> bool {
        true
    }

    open spec fn eq_spec(&self, other: &Self) -> bool {
        return_value_eq(*self, *other)
    }
}

/// Whether the code starts with `c` (`9` error, `3` warning, `0` success).
pub open spec fn code_starts(v: HbciReturnValue, c: char) -> bool {
    v.code@.len() > 0 && v.code@[0] == c
}

/// The parameters, each as ` p:` and the parameter.
pub open spec fn params_text(ps: Seq<String>) -> Seq<char>
    decreases ps.len(),
{
    if ps.len() == 0 {
        seq![]
    } else {
        params_text(ps.drop_last()) + " p:"@ + ps.last()@
    }
}

/// A return value as `Display` shows it.
pub open spec fn return_value_text(v: HbciReturnValue) -> Seq<char> {
    v.code@ + seq![':'] + v.text@ + params_text(v.params@) + match v.segment_ref {
        Some(s) => " ("@ + s@ + opt_part(v.data_ref, seq![':'], seq![]) + opt_part(
            v.element,
            ": "@,
            seq![],
        ) + seq![')'],
        None => seq![],
    }
}

fn starts_with_char(s: &str, c: char) -> (b: bool)
    ensures
        b == (s@.len() > 0 && s@[0] == c),
{
    s.unicode_len() > 0 && s.get_char(0) == c
}

impl HbciReturnValue {
    /// A return value with a code and a text only.
    pub fn new(code: &str, text: &str) -> (v: Self)
        ensures
            v.code@ == code@,
            v.text@ == text@,
            v.segment_ref is None,
            v.data_ref is None,
            v.params@.len() == 0,
            v.element is None,
    {
        HbciReturnValue {
            code: code.to_owned(),
            segment_ref: None,
            data_ref: None,
            text: text.to_owned(),
            params: Vec::new(),
            element: None,
        }
    }

    pub fn is_error(&self) -> (b: bool)
        ensures
            b == code_starts(*self, '9'),
    {
        starts_with_char(self.code.as_str(), '9')
    }

    pub fn is_warning(&self) -> (b: bool)
        ensures
            b == code_starts(*self, '3'),
    {
        starts_with_char(self.code.as_str(), '3')
    }

    pub fn is_success(&self) -> (b: bool)
        ensures
            b == code_starts(*self, '0'),
    {
        starts_with_char(self.code.as_str(), '0')
    }

    pub fn is_known_status(&self) -> (b: bool)
        ensures
            b == (code_starts(*self, '0') || code_starts(*self, '3') || code_starts(*self, '9')),
    {
        self.is_success() || self.is_warning() || self.is_error()
    }

    /// The return value as `Display` shows it.
    pub fn to_display_string(&self) -> (s: String)
        ensures
            s@ == return_value_text(*self),
    {
        let mut s = self.code.clone();
        push_char(&mut s, ':');
        append(&mut s, self.text.as_str());
        let mut i: usize = 0;
        let ghost head = s@;
        while i < self.params.len()
            invariant
                i <= self.params@.len(),
                s@ == head + params_text(self.params@.take(i as int)),
            decreases self.params.len() - i,
        {
            append(&mut s, " p:");
            append(&mut s, self.params[i].as_str());
            proof {
                let ps = self.params@.take(i + 1);
                assert(ps.drop_last() =~= self.params@.take(i as int));
                assert(ps.last() == self.params@[i as int]);
            }
            assert(s@ =~= head + params_text(self.params@.take(i + 1)));
            i += 1;
        }
        assert(self.params@.take(self.params@.len() as int) =~= self.params@);
        let ghost mid = s@;
        if let Some(seg) = &self.segment_ref {
            append(&mut s, " (");
            append(&mut s, seg.as_str());
            if let Some(d) = &self.data_ref {
                push_char(&mut s, ':');
                append(&mut s, d.as_str());
            }
            if let Some(el) = &self.element {
                append(&mut s, ": ");
                append(&mut s, el.as_str());
            }
            push_char(&mut s, ')');
        }
        assert(s@ =~= return_value_text(*self));
        s
    }

    /// Same as `to_display_string`.
    pub fn message(&self) -> (s: String)
        ensures
            s@ == return_value_text(*self),
    {
        self.to_display_string()
    }
}

/// The return values whose code starts with `c`, in order.
pub open spec fn select(vs: Seq<HbciReturnValue>, c: char) -> Seq<HbciReturnValue>
    decreases vs.len(),
{
    if vs.len() == 0 {
        vs
    } else if code_starts(vs.last(), c) {
        select(vs.drop_last(), c).push(vs.last())
    } else {
        select(vs.drop_last(), c)
    }
}

/// The return values with a given code, in order.
pub open spec fn with_code(vs: Seq<HbciReturnValue>, code: KnownReturncode) -> Seq<HbciReturnValue>
    decreases vs.len(),
{
    if vs.len() == 0 {
        vs
    } else if vs.last().code@ == code.code_text() {
        with_code(vs.drop_last(), code).push(vs.last())
    } else {
        with_code(vs.drop_last(), code)
    }
}

pub open spec fn any_starts(vs: Seq<HbciReturnValue>, c: char) -> bool {
    exists|i: int| 0 <= i < vs.len() && code_starts(#[trigger] vs[i], c)
}

/// The texts of return values.
pub open spec fn texts(vs: Seq<HbciReturnValue>) -> Seq<Seq<char>>
    decreases vs.len(),
{
    if vs.len() == 0 {
        seq![]
    } else {
        texts(vs.drop_last()).push(return_value_text(vs.last()))
    }
}

pub open spec fn derefs(r: Seq<&HbciReturnValue>) -> Seq<HbciReturnValue> {
    r.map_values(|x: &HbciReturnValue| *x)
}

/// The return values whose code starts with `c`.
fn select_exec(vs: &Vec<HbciReturnValue>, c: char) -> (r: Vec<&HbciReturnValue>)
    ensures
        derefs(r@) == select(vs@, c),
{
    let mut r: Vec<&HbciReturnValue> = Vec::new();
    let mut i: usize = 0;
    while i < vs.len()
        invariant
            i <= vs@.len(),
            derefs(r@) == select(vs@.take(i as int), c),
        decreases vs.len() - i,
    {
        let ghost t = vs@.take(i + 1);
        assert(t.drop_last() =~= vs@.take(i as int));
        assert(t.last() == vs@[i as int]);
        if starts_with_char(vs[i].code.as_str(), c) {
            let ghost before = derefs(r@);
            r.push(&vs[i]);
            assert(derefs(r@) =~= before.push(vs@[i as int]));
        }
        i += 1;
    }
    assert(vs@.take(vs@.len() as int) =~= vs@);
    r
}

/// The return values with a given code.
fn with_code_exec(vs: &Vec<HbciReturnValue>, code: KnownReturncode) -> (r: Vec<&HbciReturnValue>)
    ensures
        derefs(r@) == with_code(vs@, code),
{
    let mut r: Vec<&HbciReturnValue> = Vec::new();
    let mut i: usize = 0;
    while i < vs.len()
        invariant
            i <= vs@.len(),
            derefs(r@) == with_code(vs@.take(i as int), code),
        decreases vs.len() - i,
    {
        let ghost t = vs@.take(i + 1);
        assert(t.drop_last() =~= vs@.take(i as int));
        assert(t.last() == vs@[i as int]);
        if code.is(vs[i].code.as_str()) {
            let ghost before = derefs(r@);
            r.push(&vs[i]);
            assert(derefs(r@) =~= before.push(vs@[i as int]));
        }
        i += 1;
    }
    assert(vs@.take(vs@.len() as int) =~= vs@);
    r
}

/// The first return value with a given code.
fn first_with_code(vs: &Vec<HbciReturnValue>, code: KnownReturncode) -> (r: Option<&HbciReturnValue>)
    ensures
        r matches Some(v) ==> with_code(vs@, code).len() > 0 && *v == with_code(vs@, code)[0],
        r is None ==> with_code(vs@, code).len() == 0,
{
    let all = with_code_exec(vs, code);
    if all.len() > 0 {
        Some(all[0])
    } else {
        None
    }
}

fn any_starts_exec(vs: &Vec<HbciReturnValue>, c: char) -> (b: bool)
    ensures
        b == any_starts(vs@, c),
{
    let mut i: usize = 0;
    while i < vs.len()
        invariant
            i <= vs@.len(),
            forall|j: int| 0 <= j < i ==> !code_starts(#[trigger] vs@[j], c),
        decreases vs.len() - i,
    {
        if starts_with_char(vs[i].code.as_str(), c) {
            return true;
        }
        i += 1;
    }
    false
}

/// The texts of return values.
fn texts_exec(vs: &Vec<&HbciReturnValue>) -> (r: Vec<String>)
    ensures
        str_views(r@) == texts(derefs(vs@)),
{
    let mut r: Vec<String> = Vec::new();
    let mut i: usize = 0;
    while i < vs.len()
        invariant
            i <= vs@.len(),
            str_views(r@) == texts(derefs(vs@.take(i as int))),
        decreases vs.len() - i,
    {
        let ghost t = derefs(vs@.take(i + 1));
        assert(t.drop_last() =~= derefs(vs@.take(i as int)));
        assert(t.last() == *vs@[i as int]);
        let ghost before = str_views(r@);
        r.push(vs[i].to_display_string());
        assert(str_views(r@) =~= before.push(return_value_text(*vs@[i as int])));
        i += 1;
    }
    assert(vs@.take(vs@.len() as int) =~= vs@);
    r
}

fn append_all(target: &mut Vec<String>, more: Vec<String>)
    ensures
        str_views(final(target)@) == str_views(old(target)@) + str_views(more@),
{
    let mut i: usize = 0;
    let ghost start = str_views(target@);
    while i < more.len()
        invariant
            i <= more@.len(),
            str_views(target@) == start + str_views(more@.take(i as int)),
        decreases more.len() - i,
    {
        let ghost before = str_views(target@);
        target.push(more[i].clone());
        assert(str_views(target@) =~= before.push(more@[i as int]@));
        assert(str_views(more@.take(i + 1)) =~= str_views(more@.take(i as int)).push(
            more@[i as int]@,
        ));
        i += 1;
    }
    assert(more@.take(more@.len() as int) =~= more@);
}

// ---------------------------------------------------------------------------
// Status of a list of return values
// ---------------------------------------------------------------------------

/// The overall outcome of a status.
#[derive(Debug, Clone, Copy, PartialEq, Eq, Structural)]
pub enum HbciStatusCode {
    Success,
    Unknown,
    Error,
}

impl HbciStatusCode {
    pub const STATUS_OK: i32 = 0;
    pub const STATUS_UNKNOWN: i32 = 1;
    pub const STATUS_ERR: i32 = 2;

    /// The number that stands for the outcome.
    pub fn original_code(&self) -> (c: i32)
        ensures
            c == match *self {
                HbciStatusCode::Success => 0i32,
                HbciStatusCode::Unknown => 1i32,
                HbciStatusCode::Error => 2i32,
            },
    {
        match self {
            HbciStatusCode::Success => Self::STATUS_OK,
            HbciStatusCode::Unknown => Self::STATUS_UNKNOWN,
            HbciStatusCode::Error => Self::STATUS_ERR,
        }
    }
}

/// Return values together with messages of failures on the client side.
#[derive(Debug, Clone)]
pub struct HbciStatus {
    pub return_values: Vec<HbciReturnValue>,
    pub exception_messages: Vec<String>,
}

/// Error if there is an exception or an error, else Ok if there is a
/// success or a warning, else Unknown.
pub open spec fn status_code_of(s: HbciStatus) -> HbciStatusCode {
    if s.exception_messages@.len() > 0 {
        HbciStatusCode::Error
    } else {
        values_code(s.return_values@)
    }
}

/// The outcome of return values alone.
pub open spec fn values_code(vs: Seq<HbciReturnValue>) -> HbciStatusCode {
    if any_starts(vs, '9') {
        HbciStatusCode::Error
    } else if any_starts(vs, '0') || any_starts(vs, '3') {
        HbciStatusCode::Success
    } else {
        HbciStatusCode::Unknown
    }
}

/// The outcome of return values alone.
pub fn values_status_code(vs: &Vec<HbciReturnValue>) -> (c: HbciStatusCode)
    ensures
        c == values_code(vs@),
{
    if any_starts_exec(vs, '9') {
        HbciStatusCode::Error
    } else if any_starts_exec(vs, '0') || any_starts_exec(vs, '3') {
        HbciStatusCode::Success
    } else {
        HbciStatusCode::Unknown
    }
}

/// Exception messages, then errors, warnings and successes, one per line.
pub open spec fn status_text(s: HbciStatus) -> Seq<char> {
    values_text(s.return_values@, str_views(s.exception_messages@))
}

/// Exception messages, then errors, warnings and successes, one per line.
pub open spec fn values_text(vs: Seq<HbciReturnValue>, exceptions: Seq<Seq<char>>) -> Seq<char> {
    lines(
        exceptions + texts(select(vs, '9')) + texts(select(vs, '3')) + texts(select(vs, '0')),
    )
}

/// Exception messages, then errors, warnings and successes, one per line.
pub fn values_text_of(vs: &Vec<HbciReturnValue>, exceptions: &Vec<String>) -> (s: String)
    ensures
        s@ == values_text(vs@, str_views(exceptions@)),
{
    let mut all: Vec<String> = Vec::new();
    append_all(&mut all, clone_strings(exceptions));
    assert(str_views(all@) =~= str_views(exceptions@));
    append_all(&mut all, texts_exec(&select_exec(vs, '9')));
    append_all(&mut all, texts_exec(&select_exec(vs, '3')));
    append_all(&mut all, texts_exec(&select_exec(vs, '0')));
    join_lines(&all)
}

/// Exception messages, then errors, one per line.
pub open spec fn status_error_text(s: HbciStatus) -> Seq<char> {
    lines(str_views(s.exception_messages@) + texts(select(s.return_values@, '9')))
}

/// Exception messages, then the texts of the errors, one per line.
pub open spec fn error_lines(vs: Seq<HbciReturnValue>, exceptions: Seq<Seq<char>>) -> Seq<char> {
    lines(exceptions + texts(select(vs, '9')))
}

/// Exception messages, then the texts of the errors, one per line.
pub fn error_lines_of(vs: &Vec<HbciReturnValue>, exceptions: &Vec<String>) -> (s: String)
    ensures
        s@ == error_lines(vs@, str_views(exceptions@)),
{
    let mut all: Vec<String> = Vec::new();
    append_all(&mut all, clone_strings(exceptions));
    assert(str_views(all@) =~= str_views(exceptions@));
    let errs = select_exec(vs, '9');
    append_all(&mut all, texts_exec(&errs));
    join_lines(&all)
}

impl HbciStatus {
    /// A status without return values or exceptions.
    pub fn new() -> (s: Self)
        ensures
            s.return_values@.len() == 0,
            s.exception_messages@.len() == 0,
    {
        HbciStatus { return_values: Vec::new(), exception_messages: Vec::new() }
    }

    /// A status of the given return values.
    pub fn from_return_values(values: Vec<HbciReturnValue>) -> (s: Self)
        ensures
            s.return_values@ == values@,
            s.exception_messages@.len() == 0,
    {
        HbciStatus { return_values: values, exception_messages: Vec::new() }
    }

    pub fn add_return_value(&mut self, value: HbciReturnValue)
        ensures
            final(self).return_values@ == old(self).return_values@.push(value),
            final(self).exception_messages@ == old(self).exception_messages@,
    {
        self.return_values.push(value);
    }

    pub fn add_exception_message(&mut self, message: &str)
        ensures
            final(self).return_values@ == old(self).return_values@,
            str_views(final(self).exception_messages@) == str_views(
                old(self).exception_messages@,
            ).push(message@),
    {
        let ghost before = str_views(self.exception_messages@);
        self.exception_messages.push(message.to_owned());
        assert(str_views(self.exception_messages@) =~= before.push(message@));
    }

    pub fn has_exceptions(&self) -> (b: bool)
        ensures
            b == (self.exception_messages@.len() > 0),
    {
        self.exception_messages.len() > 0
    }

    pub fn has_errors(&self) -> (b: bool)
        ensures
            b == any_starts(self.return_values@, '9'),
    {
        any_starts_exec(&self.return_values, '9')
    }

    pub fn has_warnings(&self) -> (b: bool)
        ensures
            b == any_starts(self.return_values@, '3'),
    {
        any_starts_exec(&self.return_values, '3')
    }

    pub fn has_success(&self) -> (b: bool)
        ensures
            b == any_starts(self.return_values@, '0'),
    {
        any_starts_exec(&self.return_values, '0')
    }

    pub fn errors(&self) -> (r: Vec<&HbciReturnValue>)
        ensures
            derefs(r@) == select(self.return_values@, '9'),
    {
        select_exec(&self.return_values, '9')
    }

    pub fn warnings(&self) -> (r: Vec<&HbciReturnValue>)
        ensures
            derefs(r@) == select(self.return_values@, '3'),
    {
        select_exec(&self.return_values, '3')
    }

    pub fn successes(&self) -> (r: Vec<&HbciReturnValue>)
        ensures
            derefs(r@) == select(self.return_values@, '0'),
    {
        select_exec(&self.return_values, '0')
    }

    pub fn status_code(&self) -> (c: HbciStatusCode)
        ensures
            c == status_code_of(*self),
    {
        if self.has_exceptions() {
            HbciStatusCode::Error
        } else {
            values_status_code(&self.return_values)
        }
    }

    pub fn is_ok(&self) -> (b: bool)
        ensures
            b == (status_code_of(*self) == HbciStatusCode::Success),
    {
        self.status_code() == HbciStatusCode::Success
    }

    /// The exception messages and the errors, one per line.
    pub fn error_string(&self) -> (s: String)
        ensures
            s@ == status_error_text(*self),
    {
        error_lines_of(&self.return_values, &self.exception_messages)
    }

    /// All lines of the status, as `Display` shows them.
    pub fn to_display_string(&self) -> (s: String)
        ensures
            s@ == status_text(*self),
    {
        values_text_of(&self.return_values, &self.exception_messages)
    }

    pub fn return_values_for_code(&self, code: KnownReturncode) -> (r: Vec<&HbciReturnValue>)
        ensures
            derefs(r@) == with_code(self.return_values@, code),
    {
        with_code_exec(&self.return_values, code)
    }

    pub fn return_value_for_code(&self, code: KnownReturncode) -> (r: Option<&HbciReturnValue>)
        ensures
            r matches Some(v) ==> with_code(self.return_values@, code).len() > 0 && *v == with_code(
                self.return_values@,
                code,
            )[0],
            r is None ==> with_code(self.return_values@, code).len() == 0,
    {
        first_with_code(&self.return_values, code)
    }
}

/// Copies of the texts.
pub fn clone_strings(v: &Vec<String>) -> (r: Vec<String>)
    ensures
        str_views(r@) == str_views(v@),
{
    let mut r: Vec<String> = Vec::new();
    let mut i: usize = 0;
    while i < v.len()
        invariant
            i <= v@.len(),
            str_views(r@) == str_views(v@.take(i as int)),
        decreases v.len() - i,
    {
        let ghost before = str_views(r@);
        r.push(v[i].clone());
        assert(str_views(r@) =~= before.push(v@[i as int]@));
        assert(str_views(v@.take(i + 1)) =~= str_views(v@.take(i as int)).push(v@[i as int]@));
        i += 1;
    }
    assert(v@.take(v@.len() as int) =~= v@);
    r
}

// ---------------------------------------------------------------------------
// Status of a message
// ---------------------------------------------------------------------------

/// Whether a code is one of the codes for failed authentication.
pub open spec fn is_auth_fail(code: Seq<char>) -> bool {
    ||| code == KnownReturncode::E9340.code_text()
    ||| code == KnownReturncode::E9930.code_text()
    ||| code == KnownReturncode::E9931.code_text()
    ||| code == KnownReturncode::E9942.code_text()
}

/// Whether a code is one of `KnownReturncode::LIST_AUTH_FAIL`.
fn is_auth_fail_code(code: &str) -> (b: bool)
    ensures
        b == is_auth_fail(code@),
{
    KnownReturncode::E9340.is(code) || KnownReturncode::E9930.is(code) || KnownReturncode::E9931.is(
        code,
    ) || KnownReturncode::E9942.is(code)
}

/// The first return value from position `i` on whose code means failed authentication.
pub open spec fn first_auth_fail(vs: Seq<HbciReturnValue>, i: int) -> Option<HbciReturnValue>
    decreases vs.len() - i,
{
    if i < 0 || i >= vs.len() {
        None
    } else if is_auth_fail(vs[i].code@) {
        Some(vs[i])
    } else {
        first_auth_fail(vs, i + 1)
    }
}

/// The status of a message: of the message as a whole and of its segments.
#[derive(Debug, Clone)]
pub struct HbciMsgStatus {
    pub global_status: HbciStatus,
    pub segment_status: HbciStatus,
}

pub open spec fn msg_error_text(m: HbciMsgStatus) -> Seq<char> {
    lines(non_empty(seq![status_error_text(m.global_status), status_error_text(m.segment_status)]))
}

pub open spec fn msg_text(m: HbciMsgStatus) -> Seq<char> {
    lines(non_empty(seq![status_text(m.global_status), status_text(m.segment_status)]))
}

pub open spec fn msg_ok(m: HbciMsgStatus) -> bool {
    status_code_of(m.global_status) == HbciStatusCode::Success
}

pub open spec fn msg_has_exceptions(m: HbciMsgStatus) -> bool {
    m.global_status.exception_messages@.len() > 0
}

fn two_strings(a: String, b: String) -> (r: Vec<String>)
    ensures
        str_views(r@) == seq![a@, b@],
{
    let mut r: Vec<String> = Vec::new();
    r.push(a);
    r.push(b);
    assert(str_views(r@) =~= seq![a@, b@]);
    r
}

impl HbciMsgStatus {
    pub fn new() -> (m: Self)
        ensures
            m.global_status.return_values@.len() == 0,
            m.global_status.exception_messages@.len() == 0,
            m.segment_status.return_values@.len() == 0,
            m.segment_status.exception_messages@.len() == 0,
    {
        HbciMsgStatus { global_status: HbciStatus::new(), segment_status: HbciStatus::new() }
    }

    pub fn from_statuses(global_status: HbciStatus, segment_status: HbciStatus) -> (m: Self)
        ensures
            m.global_status == global_status,
            m.segment_status == segment_status,
    {
        HbciMsgStatus { global_status, segment_status }
    }

    pub fn has_exceptions(&self) -> (b: bool)
        ensures
            b == msg_has_exceptions(*self),
    {
        self.global_status.has_exceptions()
    }

    /// Whether the message as a whole succeeded.
    pub fn is_ok(&self) -> (b: bool)
        ensures
            b == msg_ok(*self),
    {
        self.global_status.status_code() == HbciStatusCode::Success
    }

    pub fn error_string(&self) -> (s: String)
        ensures
            s@ == msg_error_text(*self),
    {
        joined_status_strings(
            two_strings(self.global_status.error_string(), self.segment_status.error_string()),
        )
    }

    /// The statuses, as `Display` shows them.
    pub fn to_display_string(&self) -> (s: String)
        ensures
            s@ == msg_text(*self),
    {
        joined_status_strings(
            two_strings(
                self.global_status.to_display_string(),
                self.segment_status.to_display_string(),
            ),
        )
    }

    /// The first error, of the message and then of its segments, that
    /// reports failed authentication.
    pub fn invalid_pin_code(&self) -> (r: Option<&HbciReturnValue>)
        ensures
            r matches Some(v) ==> first_auth_fail(
                select(self.global_status.return_values@, '9') + select(
                    self.segment_status.return_values@,
                    '9',
                ),
                0,
            ) == Some(*v),
            r is None ==> first_auth_fail(
                select(self.global_status.return_values@, '9') + select(
                    self.segment_status.return_values@,
                    '9',
                ),
                0,
            ) is None,
    {
        let mut all = self.global_status.errors();
        let more = self.segment_status.errors();
        let ghost g = derefs(all@);
        let mut k: usize = 0;
        while k < more.len()
            invariant
                k <= more@.len(),
                derefs(all@) == g + derefs(more@.take(k as int)),
            decreases more.len() - k,
        {
            let ghost before = derefs(all@);
            all.push(more[k]);
            assert(derefs(all@) =~= before.push(*more@[k as int]));
            assert(derefs(more@.take(k + 1)) =~= derefs(more@.take(k as int)).push(
                *more@[k as int],
            ));
            k += 1;
        }
        assert(more@.take(more@.len() as int) =~= more@);
        let ghost vs = derefs(all@);
        assert(vs == select(self.global_status.return_values@, '9') + select(
            self.segment_status.return_values@,
            '9',
        ));
        let mut i: usize = 0;
        while i < all.len()
            invariant
                i <= all@.len(),
                vs == derefs(all@),
                vs == select(self.global_status.return_values@, '9') + select(
                    self.segment_status.return_values@,
                    '9',
                ),
                first_auth_fail(vs, 0) == first_auth_fail(vs, i as int),
            decreases all.len() - i,
        {
            let v = all[i];
            if is_auth_fail_code(v.code.as_str()) {
                assert(vs[i as int] == *v);
                assert(first_auth_fail(vs, i as int) == Some(vs[i as int]));
                return Some(v);
            }
            assert(!is_auth_fail(vs[i as int].code@));
            i += 1;
        }
        None
    }

    pub fn is_invalid_pin(&self) -> (b: bool)
        ensures
            b == (first_auth_fail(
                select(self.global_status.return_values@, '9') + select(
                    self.segment_status.return_values@,
                    '9',
                ),
                0,
            ) is Some),
    {
        self.invalid_pin_code().is_some()
    }

    pub fn return_values_for_code(&self, code: KnownReturncode) -> (r: Vec<&HbciReturnValue>)
        ensures
            derefs(r@) == with_code(self.global_status.return_values@, code) + with_code(
                self.segment_status.return_values@,
                code,
            ),
    {
        let mut all = self.global_status.return_values_for_code(code);
        let more = self.segment_status.return_values_for_code(code);
        let ghost g = derefs(all@);
        let mut k: usize = 0;
        while k < more.len()
            invariant
                k <= more@.len(),
                derefs(all@) == g + derefs(more@.take(k as int)),
            decreases more.len() - k,
        {
            let ghost before = derefs(all@);
            all.push(more[k]);
            assert(derefs(all@) =~= before.push(*more@[k as int]));
            assert(derefs(more@.take(k + 1)) =~= derefs(more@.take(k as int)).push(
                *more@[k as int],
            ));
            k += 1;
        }
        assert(more@.take(more@.len() as int) =~= more@);
        all
    }

    pub fn return_value_for_code(&self, code: KnownReturncode) -> (r: Option<&HbciReturnValue>)
        ensures
            r matches Some(v) ==> {
                let all = with_code(self.global_status.return_values@, code) + with_code(
                    self.segment_status.return_values@,
                    code,
                );
                all.len() > 0 && *v == all[0]
            },
            r is None ==> with_code(self.global_status.return_values@, code).len() == 0
                && with_code(self.segment_status.return_values@, code).len() == 0,
    {
        match self.global_status.return_value_for_code(code) {
            Some(v) => Some(v),
            None => self.segment_status.return_value_for_code(code),
        }
    }
}

// ---------------------------------------------------------------------------
// Status of a dialog
// ---------------------------------------------------------------------------

/// The statuses of the messages of a dialog.
#[derive(Debug, Clone)]
pub struct HbciDialogStatus {
    pub message_statuses: Vec<HbciMsgStatus>,
    pub init_status: Option<HbciMsgStatus>,
    pub end_status: Option<HbciMsgStatus>,
}

pub open spec fn opt_seq<T>(o: Option<T>) -> Seq<T> {
    match o {
        Some(x) => seq![x],
        None => seq![],
    }
}

/// The statuses in dialog order: initialisation, messages, end.
pub open spec fn dialog_sequence(d: HbciDialogStatus) -> Seq<HbciMsgStatus> {
    opt_seq(d.init_status) + d.message_statuses@ + opt_seq(d.end_status)
}

pub open spec fn msg_error_texts(ms: Seq<HbciMsgStatus>) -> Seq<Seq<char>>
    decreases ms.len(),
{
    if ms.len() == 0 {
        seq![]
    } else {
        msg_error_texts(ms.drop_last()).push(msg_error_text(ms.last()))
    }
}

/// The error texts of the messages in dialog order, one per line.
pub open spec fn dialog_error_text(d: HbciDialogStatus) -> Seq<char> {
    lines(non_empty(msg_error_texts(dialog_sequence(d))))
}

pub open spec fn dialog_ok(d: HbciDialogStatus) -> bool {
    &&& d.init_status matches Some(s) && msg_ok(s)
    &&& forall|i: int| 0 <= i < d.message_statuses@.len() ==> msg_ok(#[trigger] d.message_statuses@[i])
    &&& d.end_status matches Some(s) && msg_ok(s)
}

pub open spec fn dialog_has_exceptions(d: HbciDialogStatus) -> bool {
    ||| d.init_status matches Some(s) && msg_has_exceptions(s)
    ||| exists|i: int| 0 <= i < d.message_statuses@.len() && msg_has_exceptions(#[trigger] d.message_statuses@[i])
    ||| d.end_status matches Some(s) && msg_has_exceptions(s)
}

pub open spec fn optional_msg_text(o: Option<HbciMsgStatus>) -> Seq<char> {
    match o {
        Some(s) => msg_text(s),
        None => "(not status information available)"@,
    }
}

/// The sections for the messages from position `i` on.
pub open spec fn msg_sections(ms: Seq<HbciMsgStatus>) -> Seq<Seq<char>>
    decreases ms.len(),
{
    if ms.len() == 0 {
        seq![]
    } else {
        msg_sections(ms.drop_last()).push(
            "DIALOG-MSG #"@ + decimal(ms.len()) + ":\n"@ + msg_text(ms.last()),
        )
    }
}

pub open spec fn dialog_text(d: HbciDialogStatus) -> Seq<char> {
    lines(
        seq!["DIALOG-INIT:\n"@ + optional_msg_text(d.init_status)] + msg_sections(
            d.message_statuses@,
        ) + seq!["DIALOG-END:\n"@ + optional_msg_text(d.end_status)],
    )
}

impl HbciDialogStatus {
    pub fn new() -> (d: Self)
        ensures
            d.message_statuses@.len() == 0,
            d.init_status is None,
            d.end_status is None,
    {
        HbciDialogStatus { message_statuses: Vec::new(), init_status: None, end_status: None }
    }

    pub fn set_init_status(&mut self, status: HbciMsgStatus)
        ensures
            final(self).init_status == Some(status),
            final(self).message_statuses == old(self).message_statuses,
            final(self).end_status == old(self).end_status,
    {
        self.init_status = Some(status);
    }

    pub fn set_message_statuses(&mut self, statuses: Vec<HbciMsgStatus>)
        ensures
            final(self).message_statuses == statuses,
            final(self).init_status == old(self).init_status,
            final(self).end_status == old(self).end_status,
    {
        self.message_statuses = statuses;
    }

    pub fn set_end_status(&mut self, status: HbciMsgStatus)
        ensures
            final(self).end_status == Some(status),
            final(self).message_statuses == old(self).message_statuses,
            final(self).init_status == old(self).init_status,
    {
        self.end_status = Some(status);
    }

    /// Whether initialisation, every message and the end succeeded.
    pub fn is_ok(&self) -> (b: bool)
        ensures
            b == dialog_ok(*self),
    {
        let init_ok = match &self.init_status {
            Some(s) => s.is_ok(),
            None => false,
        };
        if !init_ok {
            return false;
        }
        let mut i: usize = 0;
        while i < self.message_statuses.len()
            invariant
                i <= self.message_statuses@.len(),
                forall|j: int| 0 <= j < i ==> msg_ok(#[trigger] self.message_statuses@[j]),
            decreases self.message_statuses.len() - i,
        {
            if !self.message_statuses[i].is_ok() {
                return false;
            }
            i += 1;
        }
        match &self.end_status {
            Some(s) => s.is_ok(),
            None => false,
        }
    }

    pub fn has_exceptions(&self) -> (b: bool)
        ensures
            b == dialog_has_exceptions(*self),
    {
        if let Some(s) = &self.init_status {
            if s.has_exceptions() {
                return true;
            }
        }
        let mut i: usize = 0;
        while i < self.message_statuses.len()
            invariant
                i <= self.message_statuses@.len(),
                !(self.init_status matches Some(s) && msg_has_exceptions(s)),
                forall|j: int| 0 <= j < i ==> !msg_has_exceptions(#[trigger] self.message_statuses@[j]),
            decreases self.message_statuses.len() - i,
        {
            if self.message_statuses[i].has_exceptions() {
                return true;
            }
            i += 1;
        }
        match &self.end_status {
            Some(s) => s.has_exceptions(),
            None => false,
        }
    }

    /// The error texts of the messages in dialog order, one per line.
    pub fn error_string(&self) -> (s: String)
        ensures
            s@ == dialog_error_text(*self),
    {
        let mut parts: Vec<String> = Vec::new();
        let ghost seq_all = dialog_sequence(*self);
        let ghost mut done: Seq<HbciMsgStatus> = seq![];
        if let Some(s) = &self.init_status {
            let t = s.error_string();
            let ghost tv = t@;
            parts.push(t);
            proof {
                done = seq![*s];
                assert(done.drop_last() =~= Seq::<HbciMsgStatus>::empty());
                reveal_with_fuel(msg_error_texts, 2);
                assert(msg_error_texts(done) =~= seq![tv]);
            }
        }
        assert(str_views(parts@) =~= msg_error_texts(done));
        assert(done =~= opt_seq(self.init_status));
        let mut i: usize = 0;
        while i < self.message_statuses.len()
            invariant
                i <= self.message_statuses@.len(),
                done == opt_seq(self.init_status) + self.message_statuses@.take(i as int),
                str_views(parts@) == msg_error_texts(done),
            decreases self.message_statuses.len() - i,
        {
            let ghost before = str_views(parts@);
            let ghost old_done = done;
            parts.push(self.message_statuses[i].error_string());
            proof {
                done = old_done.push(self.message_statuses@[i as int]);
                assert(done.drop_last() =~= old_done);
                assert(self.message_statuses@.take(i + 1) =~= self.message_statuses@.take(
                    i as int,
                ).push(self.message_statuses@[i as int]));
                assert(done =~= opt_seq(self.init_status) + self.message_statuses@.take(i + 1));
                assert(str_views(parts@) =~= before.push(msg_error_text(self.message_statuses@[i as int])));
            }
            i += 1;
        }
        assert(self.message_statuses@.take(self.message_statuses@.len() as int) =~= self.message_statuses@);
        if let Some(s) = &self.end_status {
            let ghost before = str_views(parts@);
            let ghost old_done = done;
            parts.push(s.error_string());
            proof {
                done = old_done.push(*s);
                assert(done.drop_last() =~= old_done);
                assert(str_views(parts@) =~= before.push(msg_error_text(*s)));
            }
        }
        assert(done =~= seq_all);
        joined_status_strings(parts)
    }

    /// The sections of the dialog, as `Display` shows them.
    pub fn to_display_string(&self) -> (s: String)
        ensures
            s@ == dialog_text(*self),
    {
        let mut sections: Vec<String> = Vec::new();
        let mut first = String::new();
        append(&mut first, "DIALOG-INIT:\n");
        match &self.init_status {
            Some(st) => append(&mut first, st.to_display_string().as_str()),
            None => append(&mut first, "(not status information available)"),
        }
        sections.push(first);
        let ghost head = str_views(sections@);
        let mut i: usize = 0;
        while i < self.message_statuses.len()
            invariant
                i <= self.message_statuses@.len(),
                str_views(sections@) == head + msg_sections(self.message_statuses@.take(i as int)),
            decreases self.message_statuses.len() - i,
        {
            let mut sec = String::new();
            append(&mut sec, "DIALOG-MSG #");
            push_decimal(&mut sec, (i as u64) + 1);
            append(&mut sec, ":\n");
            append(&mut sec, self.message_statuses[i].to_display_string().as_str());
            let ghost before = str_views(sections@);
            sections.push(sec);
            proof {
                let ms = self.message_statuses@.take(i + 1);
                assert(ms.drop_last() =~= self.message_statuses@.take(i as int));
                assert(ms.last() == self.message_statuses@[i as int]);
                assert(str_views(sections@) =~= before.push(sec@));
            }
            assert(str_views(sections@) =~= head + msg_sections(self.message_statuses@.take(i + 1)));
            i += 1;
        }
        assert(self.message_statuses@.take(self.message_statuses@.len() as int) =~= self.message_statuses@);
        let mut last = String::new();
        append(&mut last, "DIALOG-END:\n");
        match &self.end_status {
            Some(st) => append(&mut last, st.to_display_string().as_str()),
            None => append(&mut last, "(not status information available)"),
        }
        let ghost before = str_views(sections@);
        sections.push(last);
        assert(str_views(sections@) =~= before.push(last@));
        assert(str_views(sections@) =~= seq!["DIALOG-INIT:\n"@ + optional_msg_text(self.init_status)] + msg_sections(
            self.message_statuses@,
        ) + seq!["DIALOG-END:\n"@ + optional_msg_text(self.end_status)]);
        join_lines(&sections)
    }
}

} // verus!
