//! Accounts, amounts, balances and limits as the bank reports them.

use vstd::prelude::*;
use crate::text::{
    all_digits, all_digits_exec, append, chars_of, decimal, digits_to_u64, digits_value, find,
    find_char_from, is_digit, push_char, push_decimal, slice_chars, str_eq, string_of, trim,
    trim_str, digit_char, is_ws, lemma_decimal_digits, lemma_digit_roundtrip, lemma_find_from_some,
    lemma_trim_end_at, lemma_trim_start_at, match_at, digit_value,
};

verus! {

pub open spec fn opt_view(o: Option<String>) -> Option<Seq<char>> {
    match o {
        Some(s) => Some(s@),
        None => None,
    }
}

/// `pre`, the text and `post` when there is a text, else nothing.
pub open spec fn opt_part(o: Option<String>, pre: Seq<char>, post: Seq<char>) -> Seq<char> {
    match o {
        Some(s) => pre + s@ + post,
        None => seq![],
    }
}

/// Whether two optional texts are equal.
pub fn opt_str_eq(a: &Option<String>, b: &Option<String>) -> (r: bool)
    ensures
        r == (opt_view(*a) == opt_view(*b)),
{
    match (a, b) {
        (Some(x), Some(y)) => str_eq(x.as_str(), y.as_str()),
        (None, None) => true,
        _ => false,
    }
}

/// Appends `pre`, the text and `post` when there is a text.
fn push_opt_part(out: &mut String, o: &Option<String>, pre: &str, post: &str)
    ensures
        final(out)@ == old(out)@ + opt_part(*o, pre@, post@),
{
    match o {
        Some(s) => {
            append(out, pre);
            append(out, s.as_str());
            append(out, post);
        },
        None => {},
    }
}

// ---------------------------------------------------------------------------
// Decimal amounts and cents
// ---------------------------------------------------------------------------

/// `s` without its first character when that is `c`.
pub open spec fn strip_char(s: Seq<char>, c: char) -> Seq<char> {
    if s.len() > 0 && s[0] == c {
        s.skip(1)
    } else {
        s
    }
}

/// The part before the first `.` (all of `s` when there is none).
pub open spec fn before_dot(s: Seq<char>) -> Seq<char> {
    match find(s, seq!['.']) {
        Some(i) => s.take(i),
        None => s,
    }
}

/// The part after the first `.` (empty when there is none).
pub open spec fn after_dot(s: Seq<char>) -> Seq<char> {
    match find(s, seq!['.']) {
        Some(i) => s.skip(i + 1),
        None => seq![],
    }
}

/// An amount such as `-12.5` in cents: an optional sign, digits, and
/// optionally a dot and at most two more digits, around white space;
/// `None` for any other text, and where the cents do not fit in `i64`.
pub open spec fn decimal_cents(input: Seq<char>) -> Option<int> {
    let t = trim(input);
    let negative = t.len() > 0 && t[0] == '-';
    let unsigned = if t.len() > 0 && (t[0] == '-' || t[0] == '+') {
        t.skip(1)
    } else {
        t
    };
    let integer = before_dot(unsigned);
    let fraction = after_dot(unsigned);
    if integer.len() == 0 || !all_digits(integer) || fraction.len() > 2 || !all_digits(fraction) {
        None
    } else {
        let frac_cents: int = if fraction.len() == 0 {
            0
        } else if fraction.len() == 1 {
            (digits_value(fraction) * 10) as int
        } else {
            digits_value(fraction) as int
        };
        let cents = digits_value(integer) * 100 + frac_cents;
        if cents > i64::MAX {
            None
        } else if negative {
            Some(-cents)
        } else {
            Some(cents)
        }
    }
}

/// Position of the first `.` in a character slice.
pub(crate) fn dot_position(v: &[char]) -> (r: Option<usize>)
    ensures
        r matches Some(i) ==> find(v@, seq!['.']) == Some(i as int) && i < v@.len(),
        r is None ==> find(v@, seq!['.']) is None,
{
    let r = find_char_from(v, '.', 0);
    proof {
        crate::text::lemma_find_from_spec(v@, seq!['.'], 0);
        match r {
            Some(i) => {
                assert(v@.subrange(i as int, i + 1) =~= seq!['.']);
            },
            None => {},
        }
    }
    r
}

/// The amount in cents (see `decimal_cents`).
pub fn decimal_to_cents(input: &str) -> (r: Option<i64>)
    ensures
        r matches Some(c) ==> decimal_cents(input@) == Some(c as int),
        r is None ==> decimal_cents(input@) is None,
{
    let t = trim_str(input);
    let tv = chars_of(t.as_str());
    let negative = tv.len() > 0 && tv[0] == '-';
    let start: usize = if tv.len() > 0 && (tv[0] == '-' || tv[0] == '+') {
        1
    } else {
        0
    };
    let unsigned = slice_chars(tv.as_slice(), start, tv.len());
    assert(unsigned@ =~= if tv@.len() > 0 && (tv@[0] == '-' || tv@[0] == '+') {
        tv@.skip(1)
    } else {
        tv@
    });
    let (integer, fraction) = match dot_position(unsigned.as_slice()) {
        Some(i) => (
            slice_chars(unsigned.as_slice(), 0, i),
            slice_chars(unsigned.as_slice(), i + 1, unsigned.len()),
        ),
        None => (slice_chars(unsigned.as_slice(), 0, unsigned.len()), Vec::new()),
    };
    assert(integer@ =~= before_dot(unsigned@));
    assert(fraction@ =~= after_dot(unsigned@));
    if integer.len() == 0 || !all_digits_exec(integer.as_slice()) || fraction.len() > 2
        || !all_digits_exec(fraction.as_slice()) {
        return None;
    }
    let int_part = match digits_to_u64(integer.as_slice()) {
        Some(x) => x,
        None => {
            return None;
        },
    };
    let frac: u64 = if fraction.len() == 0 {
        0
    } else {
        let f = match digits_to_u64(fraction.as_slice()) {
            Some(x) => x,
            None => {
                return None;
            },
        };
        proof {
            reveal_with_fuel(digits_value, 3);
            crate::text::lemma_digits_value_monotone(fraction@, fraction@.len() as int);
        }
        assert(f == digits_value(fraction@));
        assert(f < 100) by {
            reveal_with_fuel(digits_value, 3);
            if fraction@.len() == 1 {
                assert(fraction@.drop_last().len() == 0);
            } else {
                assert(fraction@.drop_last().drop_last().len() == 0);
            }
        }
        if fraction.len() == 1 {
            f * 10
        } else {
            f
        }
    };
    let limit: u64 = 9223372036854775807;
    if int_part > (limit - frac) / 100 {
        assert(int_part * 100 + frac > limit) by (nonlinear_arith)
            requires
                int_part > (limit - frac) / 100,
                frac <= limit,
        ;
        return None;
    }
    assert(int_part * 100 + frac <= limit) by (nonlinear_arith)
        requires
            int_part <= (limit - frac) / 100,
            frac <= limit,
    ;
    let cents = (int_part * 100 + frac) as i64;
    if negative {
        Some(-cents)
    } else {
        Some(cents)
    }
}

/// Two decimal digits of `n < 100`.
pub open spec fn two_digits(n: nat) -> Seq<char> {
    if n < 10 {
        seq!['0'] + decimal(n)
    } else {
        decimal(n)
    }
}

/// An amount in cents written as units, a dot and two digits.
pub open spec fn cents_text(cents: int) -> Seq<char> {
    let u: nat = if cents < 0 {
        (-cents) as nat
    } else {
        cents as nat
    };
    (if cents < 0 {
        seq!['-']
    } else {
        seq![]
    }) + decimal(u / 100) + seq!['.'] + two_digits(u % 100)
}

proof fn lemma_two_digits(r: nat)
    requires
        r < 100,
    ensures
        all_digits(two_digits(r)),
        two_digits(r).len() == 2,
        digits_value(two_digits(r)) == r,
{
    lemma_decimal_digits(r);
    if r < 10 {
        lemma_digit_roundtrip(r);
        let t = two_digits(r);
        assert(decimal(r) == seq![digit_char(r)]);
        assert(t =~= seq!['0', digit_char(r)]);
        assert(t.drop_last() =~= seq!['0']);
        assert(seq!['0'].drop_last() =~= Seq::<char>::empty());
        assert(digit_value('0') == 0);
        assert(digits_value(Seq::<char>::empty()) == 0);
        assert(seq!['0'].last() == '0');
        assert(digits_value(seq!['0']) == 0);
    } else {
        lemma_decimal_digits(r / 10);
        assert(decimal(r / 10) == seq![digit_char(r / 10)]);
        assert(decimal(r).len() == 2);
    }
}

/// Writing an amount in cents as text and reading the text back gives the
/// same amount, for every amount whose magnitude fits in `i64`.
pub proof fn law_cents_text_roundtrip(c: int)
    requires
        i64::MIN < c <= i64::MAX,
    ensures
        decimal_cents(cents_text(c)) == Some(c),
{
    let u: nat = if c < 0 { (-c) as nat } else { c as nat };
    let q = u / 100;
    let r = u % 100;
    lemma_decimal_digits(q);
    lemma_two_digits(r);
    let d = decimal(q);
    let tw = two_digits(r);
    let body = d + seq!['.'] + tw;
    let sign: Seq<char> = if c < 0 { seq!['-'] } else { seq![] };
    let s = cents_text(c);
    assert(s =~= sign + body);
    assert(body[0] == d[0]);
    assert(is_digit(d[0]));
    assert(body.last() == tw[1]);
    assert(is_digit(tw[1]));
    assert(s.last() == body.last());
    assert(!is_ws(s[0]));
    assert(!is_ws(s.last()));
    lemma_trim_start_at(s, 0);
    assert(s.subrange(0, s.len() as int) =~= s);
    lemma_trim_end_at(s, s.len() as int);
    assert(trim(s) == s);
    let unsigned = if s.len() > 0 && (s[0] == '-' || s[0] == '+') { s.skip(1) } else { s };
    assert(unsigned =~= body);
    assert(match_at(body, seq!['.'], d.len() as int)) by {
        assert(body.subrange(d.len() as int, d.len() as int + 1) =~= seq!['.']);
    }
    assert forall|i: int| 0 <= i < d.len() implies !match_at(body, seq!['.'], i) by {
        assert(body[i] == d[i]);
        assert(is_digit(d[i]));
        if match_at(body, seq!['.'], i) {
            assert(body.subrange(i, i + 1)[0] == body[i]);
        }
    }
    lemma_find_from_some(body, seq!['.'], 0, d.len() as int);
    assert(before_dot(body) =~= d);
    assert(after_dot(body) =~= tw);
    assert(digits_value(d) * 100 + digits_value(tw) == u);
}

/// The amount in cents as text such as `-12.50`.
pub fn cents_to_decimal(cents: i64) -> (s: String)
    ensures
        s@ == cents_text(cents as int),
{
    let negative = cents < 0;
    let u: u64 = if negative {
        if cents == i64::MIN {
            9223372036854775808u64
        } else {
            (-cents) as u64
        }
    } else {
        cents as u64
    };
    let mut s = String::new();
    if negative {
        push_char(&mut s, '-');
    }
    push_decimal(&mut s, u / 100);
    push_char(&mut s, '.');
    let rest = u % 100;
    if rest < 10 {
        push_char(&mut s, '0');
    }
    push_decimal(&mut s, rest);
    assert(s@ =~= cents_text(cents as int));
    s
}

// ---------------------------------------------------------------------------
// Value, balance and limit
// ---------------------------------------------------------------------------

/// An amount with its currency.
#[derive(Debug, Clone, PartialEq, Eq)]
pub struct Value {
    pub value: String,
    pub curr: Option<String>,
}

/// `s` without ASCII spaces.
pub open spec fn without_spaces(s: Seq<char>) -> Seq<char>
    decreases s.len(),
{
    if s.len() == 0 {
        s
    } else if s.last() != ' ' {
        without_spaces(s.drop_last()).push(s.last())
    } else {
        without_spaces(s.drop_last())
    }
}

/// `s` without leading zeros; `0` when nothing is left.
pub open spec fn trimmed_integer(s: Seq<char>) -> Seq<char>
    decreases s.len(),
{
    if s.len() == 0 {
        seq!['0']
    } else if s[0] == '0' {
        trimmed_integer(s.skip(1))
    } else {
        s
    }
}

/// An amount as shown: without spaces, and when it is a plain decimal
/// number, with leading zeros removed and exactly two decimals.
pub open spec fn amount_text(value: Seq<char>) -> Seq<char> {
    let compact = without_spaces(value);
    let negative = compact.len() > 0 && compact[0] == '-';
    let unsigned = if compact.len() > 0 && (compact[0] == '-' || compact[0] == '+') {
        compact.skip(1)
    } else {
        compact
    };
    let integer = before_dot(unsigned);
    let fraction = after_dot(unsigned);
    if !all_digits(integer) || !all_digits(fraction) || fraction.len() > 2 || (integer.len() == 0
        && fraction.len() == 0) {
        compact
    } else {
        (if negative {
            seq!['-']
        } else {
            seq![]
        }) + trimmed_integer(integer) + seq!['.'] + fraction + Seq::new(
            (2 - fraction.len()) as nat,
            |i: int| '0',
        )
    }
}

/// Removes all ASCII spaces.
fn remove_spaces(value: &str) -> (r: Vec<char>)
    ensures
        r@ == without_spaces(value@),
{
    let v = chars_of(value);
    let mut out: Vec<char> = Vec::new();
    let mut i: usize = 0;
    while i < v.len()
        invariant
            v@ == value@,
            i <= v@.len(),
            out@ == without_spaces(v@.take(i as int)),
        decreases v.len() - i,
    {
        let ghost t = v@.take(i + 1);
        assert(t.drop_last() =~= v@.take(i as int));
        assert(t.last() == v@[i as int]);
        assert(without_spaces(t) == if v@[i as int] != ' ' {
            without_spaces(v@.take(i as int)).push(v@[i as int])
        } else {
            without_spaces(v@.take(i as int))
        });
        if v[i] != ' ' {
            out.push(v[i]);
        }
        i += 1;
    }
    assert(v@.take(v@.len() as int) =~= v@);
    out
}

fn trimmed_integer_exec(s: &[char]) -> (r: Vec<char>)
    ensures
        r@ == trimmed_integer(s@),
{
    let mut i: usize = 0;
    assert(s@.skip(0) =~= s@);
    while i < s.len() && s[i] == '0'
        invariant
            i <= s@.len(),
            trimmed_integer(s@) == trimmed_integer(s@.skip(i as int)),
        decreases s.len() - i,
    {
        assert(s@.skip(i as int).skip(1) =~= s@.skip(i + 1));
        i += 1;
    }
    if i == s.len() {
        assert(s@.skip(i as int).len() == 0);
        let mut r: Vec<char> = Vec::new();
        r.push('0');
        assert(r@ =~= seq!['0']);
        r
    } else {
        let r = slice_chars(s, i, s.len());
        assert(r@ =~= s@.skip(i as int));
        r
    }
}

/// The amount as shown (see `amount_text`).
pub fn format_value_amount(value: &str) -> (r: String)
    ensures
        r@ == amount_text(value@),
{
    let compact = remove_spaces(value);
    let negative = compact.len() > 0 && compact[0] == '-';
    let start: usize = if compact.len() > 0 && (compact[0] == '-' || compact[0] == '+') {
        1
    } else {
        0
    };
    let unsigned = slice_chars(compact.as_slice(), start, compact.len());
    assert(unsigned@ =~= if compact@.len() > 0 && (compact@[0] == '-' || compact@[0] == '+') {
        compact@.skip(1)
    } else {
        compact@
    });
    let (integer, fraction) = match dot_position(unsigned.as_slice()) {
        Some(i) => (
            slice_chars(unsigned.as_slice(), 0, i),
            slice_chars(unsigned.as_slice(), i + 1, unsigned.len()),
        ),
        None => (slice_chars(unsigned.as_slice(), 0, unsigned.len()), Vec::new()),
    };
    assert(integer@ =~= before_dot(unsigned@));
    assert(fraction@ =~= after_dot(unsigned@));
    if !all_digits_exec(integer.as_slice()) || !all_digits_exec(fraction.as_slice())
        || fraction.len() > 2 || (integer.len() == 0 && fraction.len() == 0) {
        return string_of(compact.as_slice());
    }
    let int_text = trimmed_integer_exec(integer.as_slice());
    let mut out = String::new();
    if negative {
        push_char(&mut out, '-');
    }
    append(&mut out, string_of(int_text.as_slice()).as_str());
    push_char(&mut out, '.');
    append(&mut out, string_of(fraction.as_slice()).as_str());
    let ghost base = out@;
    let mut k: usize = fraction.len();
    while k < 2
        invariant
            fraction@.len() <= k <= 2,
            out@ == base + Seq::new((k - fraction@.len()) as nat, |i: int| '0'),
        decreases 2 - k,
    {
        push_char(&mut out, '0');
        k += 1;
        assert(out@ =~= base + Seq::new((k - fraction@.len()) as nat, |i: int| '0'));
    }
    assert(out@ =~= amount_text(value@));
    out
}

pub open spec fn value_text(v: Value) -> Seq<char> {
    amount_text(v.value@) + seq![' '] + match v.curr {
        Some(c) => c@,
        None => "null"@,
    }
}

impl Value {
    /// The amount and the currency, as `Display` shows them.
    pub fn to_display_string(&self) -> (s: String)
        ensures
            s@ == value_text(*self),
    {
        let mut s = format_value_amount(self.value.as_str());
        push_char(&mut s, ' ');
        match &self.curr {
            Some(c) => append(&mut s, c.as_str()),
            None => append(&mut s, "null"),
        }
        s
    }
}

/// A balance: an amount at a date and time.
#[derive(Debug, Clone, PartialEq, Eq)]
pub struct Saldo {
    pub value: Value,
    pub date: Option<String>,
    pub time: Option<String>,
}

pub open spec fn saldo_text(s: Saldo) -> Seq<char> {
    (match (s.date, s.time) {
        (Some(d), Some(t)) => d@ + seq![' '] + t@,
        (Some(d), None) => d@,
        (None, Some(t)) => t@,
        (None, None) => "null"@,
    }) + seq![' '] + value_text(s.value)
}

impl Saldo {
    /// The date, time and value, as `Display` shows them.
    pub fn to_display_string(&self) -> (s: String)
        ensures
            s@ == saldo_text(*self),
    {
        let mut s = String::new();
        match (&self.date, &self.time) {
            (Some(d), Some(t)) => {
                append(&mut s, d.as_str());
                push_char(&mut s, ' ');
                append(&mut s, t.as_str());
            },
            (Some(d), None) => append(&mut s, d.as_str()),
            (None, Some(t)) => append(&mut s, t.as_str()),
            (None, None) => append(&mut s, "null"),
        }
        push_char(&mut s, ' ');
        let v = self.value.to_display_string();
        append(&mut s, v.as_str());
        s
    }
}

/// A limit on an account.
#[derive(Debug, Clone, PartialEq, Eq)]
pub struct Limit {
    pub limit_type: String,
    pub value: Option<Value>,
    pub days: Option<u32>,
}

impl Limit {
    pub const TYPE_SINGLE: &'static str = "E";
    pub const TYPE_DAILY: &'static str = "T";
    pub const TYPE_WEEKLY: &'static str = "W";
    pub const TYPE_MONTHLY: &'static str = "M";
    pub const TYPE_TIME: &'static str = "Z";
}

pub open spec fn limit_text(l: Limit) -> Seq<char> {
    let t = l.limit_type@;
    (if t == "E"@ {
        "Einzellimit"@
    } else if t == "T"@ {
        "Tageslimit"@
    } else if t == "W"@ {
        "Wochenlimit"@
    } else if t == "M"@ {
        "Monatslimit"@
    } else if t == "Z"@ {
        "Zeitliches Limit ("@ + decimal(
            match l.days {
                Some(d) => d as nat,
                None => 0,
            },
        ) + " Tage)"@
    } else {
        seq![]
    }) + ": "@ + match l.value {
        Some(v) => value_text(v),
        None => "null"@,
    }
}

impl Limit {
    /// The limit kind and value, as `Display` shows them.
    pub fn to_display_string(&self) -> (s: String)
        ensures
            s@ == limit_text(*self),
    {
        let t = self.limit_type.as_str();
        let mut s = String::new();
        if str_eq(t, "E") {
            append(&mut s, "Einzellimit");
        } else if str_eq(t, "T") {
            append(&mut s, "Tageslimit");
        } else if str_eq(t, "W") {
            append(&mut s, "Wochenlimit");
        } else if str_eq(t, "M") {
            append(&mut s, "Monatslimit");
        } else if str_eq(t, "Z") {
            append(&mut s, "Zeitliches Limit (");
            let d: u32 = match self.days {
                Some(d) => d,
                None => 0,
            };
            push_decimal(&mut s, d as u64);
            append(&mut s, " Tage)");
        }
        append(&mut s, ": ");
        match &self.value {
            Some(v) => {
                let vs = v.to_display_string();
                append(&mut s, vs.as_str());
            },
            None => append(&mut s, "null"),
        }
        s
    }
}

// ---------------------------------------------------------------------------
// Accounts
// ---------------------------------------------------------------------------

/// A bank account with what the bank reports about it.
#[derive(Debug, Clone)]
pub struct Konto {
    pub country: Option<String>,
    pub blz: Option<String>,
    pub number: Option<String>,
    pub subnumber: Option<String>,
    pub bic: Option<String>,
    pub iban: Option<String>,
    pub customer_id: Option<String>,
    pub name: Option<String>,
    pub name2: Option<String>,
    pub creditorid: Option<String>,
    pub acctype: Option<String>,
    pub account_type: Option<String>,
    pub curr: Option<String>,
    pub limit: Option<Limit>,
    pub allowed_gvs: Vec<String>,
}

impl Default for Konto {
    /// An account without data, in euros.
    fn default() -> (k: Self)
        ensures
            k.country is None && k.blz is None && k.number is None && k.subnumber is None,
            k.bic is None && k.iban is None && k.customer_id is None && k.name is None,
            k.name2 is None && k.creditorid is None && k.acctype is None,
            k.account_type is None && k.limit is None && k.allowed_gvs@.len() == 0,
            opt_view(k.curr) == Some("EUR"@),
    {
        Konto {
            country: None,
            blz: None,
            number: None,
            subnumber: None,
            bic: None,
            iban: None,
            customer_id: None,
            name: None,
            name2: None,
            creditorid: None,
            acctype: None,
            account_type: None,
            curr: Some("EUR".to_owned()),
            limit: None,
            allowed_gvs: Vec::new(),
        }
    }
}

/// Account equality: the identifying fields, names, type and currency.
pub open spec fn konto_eq(a: Konto, b: Konto) -> bool {
    &&& opt_view(a.blz) == opt_view(b.blz)
    &&& opt_view(a.country) == opt_view(b.country)
    &&& opt_view(a.number) == opt_view(b.number)
    &&& opt_view(a.subnumber) == opt_view(b.subnumber)
    &&& opt_view(a.curr) == opt_view(b.curr)
    &&& opt_view(a.customer_id) == opt_view(b.customer_id)
    &&& opt_view(a.name) == opt_view(b.name)
    &&& opt_view(a.name2) == opt_view(b.name2)
    &&& opt_view(a.account_type) == opt_view(b.account_type)
    &&& opt_view(a.bic) == opt_view(b.bic)
    &&& opt_view(a.iban) == opt_view(b.iban)
}

impl PartialEq for Konto {
    fn eq(&self, other: &Self) -> (r: bool) {
        opt_str_eq(&self.blz, &other.blz) && opt_str_eq(&self.country, &other.country)
            && opt_str_eq(&self.number, &other.number) && opt_str_eq(
            &self.subnumber,
            &other.subnumber,
        ) && opt_str_eq(&self.curr, &other.curr) && opt_str_eq(
            &self.customer_id,
            &other.customer_id,
        ) && opt_str_eq(&self.name, &other.name) && opt_str_eq(&self.name2, &other.name2)
            && opt_str_eq(&self.account_type, &other.account_type) && opt_str_eq(
            &self.bic,
            &other.bic,
        ) && opt_str_eq(&self.iban, &other.iban)
    }
}

impl vstd::std_specs::cmp::PartialEqSpecImpl for Konto {
    open spec fn obeys_eq_spec() -> bool {
        true
    }

    open spec fn eq_spec(&self, other: &Self) -> bool {
        konto_eq(*self, *other)
    }
}

/// The names and the account number.
pub open spec fn konto_head(k: Konto) -> Seq<char> {
    opt_part(k.account_type, seq![], seq![' ']) + opt_part(k.name, seq![], seq![' ']) + opt_part(
        k.name2,
        seq![],
        seq![' '],
    ) + opt_part(k.number, seq![], seq![]) + opt_part(k.subnumber, seq!['/'], seq![])
}

/// The bank, international data, country and currency.
pub open spec fn konto_tail(k: Konto) -> Seq<char> {
    opt_part(k.blz, "BLZ "@, " () "@) + opt_part(k.bic, "BIC "@, seq![' ']) + opt_part(
        k.iban,
        "IBAN "@,
        seq![' '],
    ) + opt_part(k.country, seq!['['], "] "@) + opt_part(k.curr, seq!['('], seq![')'])
}

pub open spec fn konto_text(k: Konto) -> Seq<char> {
    konto_head(k) + seq![' '] + konto_tail(k)
}

impl Konto {
    fn head_string(&self) -> (s: String)
        ensures
            s@ == konto_head(*self),
    {
        let mut s = String::new();
        push_opt_part(&mut s, &self.account_type, "", " ");
        push_opt_part(&mut s, &self.name, "", " ");
        push_opt_part(&mut s, &self.name2, "", " ");
        push_opt_part(&mut s, &self.number, "", "");
        push_opt_part(&mut s, &self.subnumber, "/", "");
        proof {
            reveal_strlit("");
            reveal_strlit(" ");
            reveal_strlit("/");
        }
        assert(s@ =~= konto_head(*self));
        s
    }

    fn tail_string(&self) -> (s: String)
        ensures
            s@ == konto_tail(*self),
    {
        let mut s = String::new();
        push_opt_part(&mut s, &self.blz, "BLZ ", " () ");
        push_opt_part(&mut s, &self.bic, "BIC ", " ");
        push_opt_part(&mut s, &self.iban, "IBAN ", " ");
        push_opt_part(&mut s, &self.country, "[", "] ");
        push_opt_part(&mut s, &self.curr, "(", ")");
        proof {
            reveal_strlit(" ");
            reveal_strlit("[");
            reveal_strlit("(");
            reveal_strlit(")");
        }
        assert(s@ =~= konto_tail(*self));
        s
    }

    /// The account as `Display` shows it.
    pub fn to_display_string(&self) -> (s: String)
        ensures
            s@ == konto_text(*self),
    {
        let mut s = self.head_string();
        push_char(&mut s, ' ');
        let t = self.tail_string();
        append(&mut s, t.as_str());
        s
    }

    /// Whether the IBAN passes the ISO 13616 check.
    pub fn check_iban(&self) -> (ok: bool)
        ensures
            ok == (self.iban matches Some(i) && crate::manager::account_crc::iban_ok(
                vstd::utf8::encode_utf8(i@),
            )),
    {
        match &self.iban {
            Some(i) => crate::manager::AccountCrcAlgs::check_iban(i.as_str()),
            None => false,
        }
    }

    /// Whether the account has both a BIC and an IBAN.
    pub fn is_sepa_account(&self) -> (ok: bool)
        ensures
            ok == ((opt_view(self.bic) matches Some(b) && b.len() > 0) && (opt_view(self.iban) matches Some(
                i,
            ) && i.len() > 0)),
    {
        let bic_ok = match &self.bic {
            Some(b) => b.as_str().unicode_len() > 0,
            None => false,
        };
        let iban_ok = match &self.iban {
            Some(i) => i.as_str().unicode_len() > 0,
            None => false,
        };
        bic_ok && iban_ok
    }
}

} // verus!
