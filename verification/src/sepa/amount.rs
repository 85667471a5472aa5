//! Amounts of SEPA documents: a decimal text read as cents, and cents
//! written back as text.

use vstd::prelude::*;
use crate::gv_result::account::{after_dot, before_dot, cents_text, dot_position, cents_to_decimal};
use crate::text::{
    chars_of, digit_value, is_digit, parse_i64, parse_signed, replace_char, replace_char_str,
    slice_chars, string_of, trim, trim_str,
};

verus! {

/// `s` without its leading `+` and `-` signs.
pub open spec fn strip_signs(s: Seq<char>) -> Seq<char>
    decreases s.len(),
{
    if s.len() > 0 && (s[0] == '+' || s[0] == '-') {
        strip_signs(s.drop_first())
    } else {
        s
    }
}

/// The value of digit `i` of `ds`, zero past its end.
pub open spec fn nth_digit(ds: Seq<char>, i: int) -> int {
    if 0 <= i < ds.len() {
        digit_value(ds[i]) as int
    } else {
        0
    }
}

/// An amount text as the SEPA documents read it: trimmed, a decimal comma
/// taken as a point, leading signs dropped (a first `-` makes it
/// negative), the integer part (if any) parsed as an `i64`, and the first
/// two digits of the fraction taken as cents, rounded up where a third
/// digit is 5 or more. `None` where the integer part is not a number.
pub open spec fn sepa_cents(s: Seq<char>) -> Option<int> {
    let a = replace_char(trim(s), ',', '.');
    let b = strip_signs(a);
    let ip = before_dot(b);
    let ds = after_dot(b).filter(|c: char| is_digit(c));
    let iv: Option<int> = if ip.len() == 0 {
        Some(0)
    } else {
        match parse_signed(ip) {
            Some(v) => if i64::MIN <= v <= i64::MAX { Some(v) } else { None },
            None => None,
        }
    };
    match iv {
        None => None,
        Some(v) => {
            let mag = v * 100 + nth_digit(ds, 0) * 10 + nth_digit(ds, 1) + (if ds.len() > 2 && digit_value(ds[2]) >= 5 {
                1int
            } else {
                0int
            });
            Some(if a.len() > 0 && a[0] == '-' { -mag } else { mag })
        },
    }
}

/// Whether reading the amount stays within `i64` (the reading overflows
/// otherwise).
pub open spec fn sepa_cents_fit(s: Seq<char>) -> bool {
    match sepa_cents(s) {
        Some(c) => -i64::MAX <= c <= i64::MAX,
        None => true,
    }
}

/// An amount text normalized: the cents written back as `[-]units.cc`
/// where it reads as an amount, else the trimmed text with a point for a
/// comma.
pub open spec fn normalized_amount(s: Seq<char>) -> Seq<char> {
    match sepa_cents(s) {
        Some(c) => cents_text(c),
        None => replace_char(trim(s), ',', '.'),
    }
}

proof fn lemma_strip_signs_at(s: Seq<char>, k: int)
    requires
        0 <= k <= s.len(),
        forall|i: int| 0 <= i < k ==> (#[trigger] s[i] == '+' || s[i] == '-'),
        k == s.len() || !(s[k] == '+' || s[k] == '-'),
    ensures
        strip_signs(s) == s.skip(k),
    decreases k,
{
    if k == 0 {
        assert(s.skip(0) =~= s);
    } else {
        assert forall|i: int| 0 <= i < k - 1 implies (#[trigger] s.drop_first()[i] == '+' || s.drop_first()[i] == '-') by {
            assert(s.drop_first()[i] == s[i + 1]);
        }
        if k - 1 < s.drop_first().len() {
            assert(s.drop_first()[k - 1] == s[k]);
        }
        lemma_strip_signs_at(s.drop_first(), k - 1);
        assert(s.drop_first().skip(k - 1) =~= s.skip(k));
    }
}

/// The digits among the characters.
fn digits_of(v: &[char]) -> (r: Vec<char>)
    ensures
        r@ == v@.filter(|c: char| is_digit(c)),
{
    let mut out: Vec<char> = Vec::new();
    let mut i: usize = 0;
    while i < v.len()
        invariant
            i <= v@.len(),
            out@ == v@.take(i as int).filter(|c: char| is_digit(c)),
        decreases v.len() - i,
    {
        let x = v[i];
        proof {
            reveal_with_fuel(Seq::filter, 1);
            assert(v@.take(i + 1).drop_last() =~= v@.take(i as int));
        }
        if crate::text::is_digit_char(x) {
            out.push(x);
        }
        i += 1;
        assert(out@ =~= v@.take(i as int).filter(|c: char| is_digit(c)));
    }
    assert(v@.take(v@.len() as int) =~= v@);
    out
}

fn digit_at(ds: &[char], i: usize) -> (d: i64)
    requires
        forall|k: int| 0 <= k < ds@.len() ==> is_digit(#[trigger] ds@[k]),
    ensures
        d == nth_digit(ds@, i as int),
        0 <= d <= 9,
{
    if i < ds.len() {
        let c = ds[i];
        assert(is_digit(ds@[i as int]));
        ((c as u32) - ('0' as u32)) as i64
    } else {
        0
    }
}

/// The amount in cents (see `sepa_cents`), computed wide enough that it
/// cannot overflow.
fn amount_cents_wide(amount: &str) -> (r: Option<i128>)
    ensures
        match sepa_cents(amount@) {
            Some(c) => r matches Some(x) && x == c,
            None => r is None,
        },
{
    let t = trim_str(amount);
    let a = replace_char_str(t.as_str(), ',', '.');
    let v = chars_of(a.as_str());
    let negative = v.len() > 0 && v[0] == '-';
    let mut k: usize = 0;
    while k < v.len() && (v[k] == '+' || v[k] == '-')
        invariant
            k <= v@.len(),
            forall|i: int| 0 <= i < k ==> (#[trigger] v@[i] == '+' || v@[i] == '-'),
        decreases v.len() - k,
    {
        k += 1;
    }
    proof {
        lemma_strip_signs_at(v@, k as int);
    }
    let b = slice_chars(v.as_slice(), k, v.len());
    assert(b@ =~= v@.skip(k as int));
    let (ip, fp) = match dot_position(b.as_slice()) {
        Some(d) => (slice_chars(b.as_slice(), 0, d), slice_chars(b.as_slice(), d + 1, b.len())),
        None => (slice_chars(b.as_slice(), 0, b.len()), Vec::new()),
    };
    proof {
        match crate::text::find(b@, seq!['.']) {
            Some(d) => {
                assert(ip@ =~= b@.take(d));
                assert(fp@ =~= b@.skip(d + 1));
            },
            None => {
                assert(ip@ =~= b@);
                assert(fp@ =~= Seq::<char>::empty());
            },
        }
    }
    let integer: i64 = if ip.len() == 0 {
        0
    } else {
        match parse_i64(string_of(ip.as_slice()).as_str()) {
            Some(x) => x,
            None => {
                return None;
            },
        }
    };
    let ds = digits_of(fp.as_slice());
    proof {
        assert forall|i: int| 0 <= i < ds@.len() implies is_digit(#[trigger] ds@[i]) by {
            fp@.lemma_filter_pred(|c: char| is_digit(c), i);
        }
    }
    let tens = digit_at(ds.as_slice(), 0);
    let ones = digit_at(ds.as_slice(), 1);
    let round: i64 = if ds.len() > 2 && digit_at(ds.as_slice(), 2) >= 5 { 1 } else { 0 };
    assert(integer >= 0);
    let cents: i128 = (integer as i128) * 100 + (tens as i128) * 10 + (ones as i128) + (round as i128);
    Some(if negative { -cents } else { cents })
}

/// Whether reading the amount stays within `i64`.
pub fn amount_fits(amount: &str) -> (b: bool)
    ensures
        b == sepa_cents_fit(amount@),
{
    match amount_cents_wide(amount) {
        Some(c) => -9223372036854775807i128 <= c && c <= 9223372036854775807i128,
        None => true,
    }
}

/// The amount in cents (see `sepa_cents`).
pub fn decimal_amount_to_cents(amount: &str) -> (r: Option<i64>)
    requires
        sepa_cents_fit(amount@),
    ensures
        match sepa_cents(amount@) {
            Some(c) => r matches Some(x) && x == c,
            None => r is None,
        },
{
    match amount_cents_wide(amount) {
        Some(c) => Some(c as i64),
        None => None,
    }
}

/// The amount normalized (see `normalized_amount`).
pub fn normalize_decimal_amount(amount: &str) -> (s: String)
    requires
        sepa_cents_fit(amount@),
    ensures
        s@ == normalized_amount(amount@),
{
    match decimal_amount_to_cents(amount) {
        Some(c) => cents_to_decimal(c),
        None => replace_char_str(trim_str(amount).as_str(), ',', '.'),
    }
}

} // verus!
