//! The total of the transactions in SEPA job parameters.

use vstd::prelude::*;
use crate::error::{ErrorView, HbciError, HbciErrorKind, HbciResult};
use crate::gv_result::account::{cents_text, cents_to_decimal, Value};
use crate::sepa::amount::{amount_fits, decimal_amount_to_cents, sepa_cents, sepa_cents_fit};
use crate::strmap::text_view;
use crate::text::{
    append, chars_of, decimal, find, find_char_from, parse_unsigned, parse_usize, push_char,
    push_decimal, slice_chars, str_eq, string_of,
};
use crate::tools::Properties;

verus! {

/// The index in a parameter name such as `btg[2].value`: the number
/// between its first `[` and the first `]` after it.
pub open spec fn param_index(name: Seq<char>) -> Option<nat> {
    match find(name, seq!['[']) {
        None => None,
        Some(s) => match find(name.skip(s + 1), seq![']']) {
            None => None,
            Some(e) => match parse_unsigned(name.subrange(s + 1, s + 1 + e)) {
                Some(v) => if v <= usize::MAX { Some(v) } else { None },
                None => None,
            },
        },
    }
}

/// The greatest index among the names.
pub open spec fn max_index(ks: Seq<Seq<char>>) -> Option<nat>
    decreases ks.len(),
{
    if ks.len() == 0 {
        None
    } else {
        let rest = max_index(ks.drop_last());
        match param_index(ks.last()) {
            None => rest,
            Some(v) => match rest {
                None => Some(v),
                Some(w) => Some(if v >= w { v } else { w }),
            },
        }
    }
}

/// The transactions of the parameters: indices `0` to the greatest index
/// found, or a single one without an index.
pub open spec fn transaction_indices(ks: Seq<Seq<char>>) -> Seq<Option<nat>> {
    match max_index(ks) {
        None => seq![None],
        Some(m) => Seq::new(m + 1, |i: int| Some(i as nat)),
    }
}

/// The name of parameter `name` for transaction `index`: `head[i].tail`
/// for a name with a `.`, `name[i]` otherwise.
pub open spec fn indexed_name(name: Seq<char>, index: Option<nat>) -> Seq<char> {
    match index {
        None => name,
        Some(i) => match find(name, seq!['.']) {
            Some(k) => name.take(k) + seq!['['] + decimal(i) + seq![']'] + name.skip(k),
            None => name + seq!['['] + decimal(i) + seq![']'],
        },
    }
}

pub open spec fn lookup(p: Map<Seq<char>, Seq<char>>, k: Seq<char>) -> Option<Seq<char>> {
    if p.contains_key(k) { Some(p[k]) } else { None }
}

/// The currency of a transaction: its `btg.curr`, `EUR` where that is
/// missing or empty.
pub open spec fn currency_at(p: Map<Seq<char>, Seq<char>>, index: Option<nat>) -> Seq<char> {
    match lookup(p, indexed_name("btg.curr"@, index)) {
        Some(c) => if c.len() > 0 { c } else { "EUR"@ },
        None => "EUR"@,
    }
}

pub open spec fn sum_error(m: Seq<char>) -> ErrorView {
    ErrorView { kind: HbciErrorKind::InvalidArgument, message: m, source: None }
}

/// The total in cents of the transactions from `idxs` on, added to `acc`:
/// each needs a non-empty `btg.value` that reads as an amount and the
/// currency `cur`.
pub open spec fn sum_from(p: Map<Seq<char>, Seq<char>>, idxs: Seq<Option<nat>>, cur: Seq<char>, acc: int) -> Result<int, ErrorView>
    decreases idxs.len(),
{
    if idxs.len() == 0 {
        Ok(acc)
    } else {
        let n = indexed_name("btg.value"@, idxs[0]);
        match lookup(p, n) {
            Some(a) => if a.len() == 0 {
                Err(sum_error("missing required SEPA parameter: "@ + n))
            } else {
                match sepa_cents(a) {
                    None => Err(sum_error("invalid SEPA amount for btg.value: "@ + a)),
                    Some(c) => if currency_at(p, idxs[0]) != cur {
                        Err(sum_error("mixed currencies on multiple transactions"@))
                    } else {
                        sum_from(p, idxs.drop_first(), cur, acc + c)
                    },
                }
            },
            None => Err(sum_error("missing required SEPA parameter: "@ + n)),
        }
    }
}

/// Whether adding up the transactions from `idxs` on stays within `i64`,
/// as far as the adding goes.
pub open spec fn sum_fits(p: Map<Seq<char>, Seq<char>>, idxs: Seq<Option<nat>>, cur: Seq<char>, acc: int) -> bool
    decreases idxs.len(),
{
    if idxs.len() == 0 {
        true
    } else {
        match lookup(p, indexed_name("btg.value"@, idxs[0])) {
            Some(a) => if a.len() == 0 {
                true
            } else {
                sepa_cents_fit(a) && match sepa_cents(a) {
                    None => true,
                    Some(c) => i64::MIN <= acc + c <= i64::MAX && (currency_at(p, idxs[0]) != cur || sum_fits(
                        p,
                        idxs.drop_first(),
                        cur,
                        acc + c,
                    )),
                }
            },
            None => true,
        }
    }
}

/// The total of the transactions of SEPA parameters, in cents, with their
/// currency (that of the first transaction).
pub open spec fn sepa_total(p: Map<Seq<char>, Seq<char>>, ks: Seq<Seq<char>>) -> Result<(int, Seq<char>), ErrorView> {
    let idxs = transaction_indices(ks);
    let cur = currency_at(p, idxs[0]);
    match sum_from(p, idxs, cur, 0) {
        Ok(c) => Ok((c, cur)),
        Err(e) => Err(e),
    }
}

/// Whether adding up stays within `i64` and the total is not `i64::MIN`.
pub open spec fn sepa_total_fits(p: Map<Seq<char>, Seq<char>>, ks: Seq<Seq<char>>) -> bool {
    let idxs = transaction_indices(ks);
    &&& sum_fits(p, idxs, currency_at(p, idxs[0]), 0)
    &&& sepa_total(p, ks) matches Ok((c, _)) ==> c != i64::MIN
}

/// The index in a parameter name (see `param_index`).
fn param_index_of(name: &str) -> (r: Option<usize>)
    ensures
        match param_index(name@) {
            Some(v) => r matches Some(x) && x == v,
            None => r is None,
        },
{
    let v = chars_of(name);
    proof {
        crate::text::lemma_find_from_spec(v@, seq!['['], 0);
    }
    let s = match find_char_from(v.as_slice(), '[', 0) {
        Some(s) => s,
        None => {
            return None;
        },
    };
    assert(v@.subrange(s as int, s + 1) == seq!['[']);
    let len = v.len();
    assert(s + 1 <= len);
    let rest = slice_chars(v.as_slice(), s + 1, len);
    assert(rest@ =~= v@.skip(s + 1));
    proof {
        crate::text::lemma_find_from_spec(rest@, seq![']'], 0);
    }
    let e = match find_char_from(rest.as_slice(), ']', 0) {
        Some(e) => e,
        None => {
            return None;
        },
    };
    assert(rest@.subrange(e as int, e + 1) == seq![']']);
    assert(s + 1 + e <= v@.len());
    assert(v@.subrange(s + 1, s + 1 + e) =~= rest@.subrange(0, e as int));
    let inner = slice_chars(v.as_slice(), s + 1, s + 1 + e);
    parse_usize(string_of(inner.as_slice()).as_str())
}

/// The name of a parameter for a transaction (see `indexed_name`).
pub(crate) fn indexed_name_of(name: &str, index: Option<usize>) -> (r: String)
    ensures
        r@ == indexed_name(name@, match index {
            Some(i) => Some(i as nat),
            None => None,
        }),
{
    match index {
        None => name.to_string(),
        Some(i) => {
            let v = chars_of(name);
            proof {
                crate::text::lemma_find_from_spec(v@, seq!['.'], 0);
            }
            match find_char_from(v.as_slice(), '.', 0) {
                Some(k) => {
                    assert(v@.subrange(k as int, k + 1) == seq!['.']);
                    let mut out = string_of(slice_chars(v.as_slice(), 0, k).as_slice());
                    push_char(&mut out, '[');
                    push_decimal(&mut out, i as u64);
                    push_char(&mut out, ']');
                    let tail = string_of(slice_chars(v.as_slice(), k, v.len()).as_slice());
                    append(&mut out, tail.as_str());
                    assert(out@ =~= name@.take(k as int) + seq!['['] + decimal(i as nat) + seq![']'] + name@.skip(k as int));
                    out
                },
                None => {
                    let mut out = name.to_string();
                    push_char(&mut out, '[');
                    push_decimal(&mut out, i as u64);
                    push_char(&mut out, ']');
                    assert(out@ =~= name@ + seq!['['] + decimal(i as nat) + seq![']']);
                    out
                },
            }
        },
    }
}

pub(crate) fn lookup_in<'a>(params: &'a Properties, name: &str) -> (r: Option<&'a str>)
    ensures
        match lookup(text_view(params@), name@) {
            Some(v) => r matches Some(x) && x@ == v,
            None => r is None,
        },
{
    match params.get(name) {
        Some(v) => Some(v.as_str()),
        None => None,
    }
}

fn currency_of(params: &Properties, index: Option<usize>) -> (r: String)
    ensures
        r@ == currency_at(text_view(params@), match index {
            Some(i) => Some(i as nat),
            None => None,
        }),
{
    let n = indexed_name_of("btg.curr", index);
    match lookup_in(params, n.as_str()) {
        Some(c) => if c.unicode_len() > 0 {
            c.to_string()
        } else {
            "EUR".to_string()
        },
        None => "EUR".to_string(),
    }
}

/// The greatest transaction index among the parameter names.
pub(crate) fn max_index_of(params: &Properties) -> (r: Option<usize>)
    ensures
        match max_index(params.keys_view()) {
            Some(m) => r matches Some(x) && x == m,
            None => r is None,
        },
{
    params.check_well_formed();
    let n = params.len();
    let mut best: Option<usize> = None;
    let mut i: usize = 0;
    while i < n
        invariant
            n == params.size(),
            params.well_formed(),
            i <= n,
            match max_index(params.keys_view().take(i as int)) {
                Some(m) => best matches Some(x) && x == m,
                None => best is None,
            },
        decreases n - i,
    {
        let k = params.key_at(i);
        let ghost ks = params.keys_view().take(i + 1);
        assert(ks.drop_last() =~= params.keys_view().take(i as int));
        assert(ks.last() == params.keys_view()[i as int]);
        match param_index_of(k.as_str()) {
            None => {},
            Some(v) => {
                best = match best {
                    None => Some(v),
                    Some(w) => Some(if v >= w { v } else { w }),
                };
            },
        }
        i += 1;
    }
    assert(params.keys_view().take(n as int) =~= params.keys_view());
    best
}

pub open spec fn idx_view(index: Option<usize>) -> Option<nat> {
    match index {
        Some(i) => Some(i as nat),
        None => None,
    }
}

/// Adds the amount of one transaction to `total`; false where that
/// transaction fails (and `err` says why).
fn add_transaction(params: &Properties, index: Option<usize>, cur: &str, total: &mut i64) -> (r: Result<(), HbciError>)
    requires
        sum_fits(text_view(params@), seq![idx_view(index)], cur@, *old(total) as int),
    ensures
        ({
            let p = text_view(params@);
            let n = indexed_name("btg.value"@, idx_view(index));
            match lookup(p, n) {
                Some(a) => if a.len() == 0 {
                    r matches Err(e) && e@ == sum_error("missing required SEPA parameter: "@ + n)
                } else {
                    match sepa_cents(a) {
                        None => r matches Err(e) && e@ == sum_error("invalid SEPA amount for btg.value: "@ + a),
                        Some(c) => if currency_at(p, idx_view(index)) != cur@ {
                            r matches Err(e) && e@ == sum_error("mixed currencies on multiple transactions"@)
                        } else {
                            r is Ok && *final(total) == *old(total) + c
                        },
                    }
                },
                None => r matches Err(e) && e@ == sum_error("missing required SEPA parameter: "@ + n),
            }
        }),
{
    let n = indexed_name_of("btg.value", index);
    let a = match lookup_in(params, n.as_str()) {
        Some(a) => {
            if a.unicode_len() == 0 {
                let m = crate::text::concat("missing required SEPA parameter: ", n.as_str());
                return Err(HbciError::new(HbciErrorKind::InvalidArgument, m.as_str()));
            }
            a
        },
        None => {
            let m = crate::text::concat("missing required SEPA parameter: ", n.as_str());
            return Err(HbciError::new(HbciErrorKind::InvalidArgument, m.as_str()));
        },
    };
    let c = match decimal_amount_to_cents(a) {
        Some(c) => c,
        None => {
            let m = crate::text::concat("invalid SEPA amount for btg.value: ", a);
            return Err(HbciError::new(HbciErrorKind::InvalidArgument, m.as_str()));
        },
    };
    *total = *total + c;
    let here = currency_of(params, index);
    if !str_eq(here.as_str(), cur) {
        return Err(HbciError::new(HbciErrorKind::InvalidArgument, "mixed currencies on multiple transactions"));
    }
    Ok(())
}

proof fn lemma_sum_step(p: Map<Seq<char>, Seq<char>>, idxs: Seq<Option<nat>>, cur: Seq<char>, acc: int)
    requires
        idxs.len() > 0,
    ensures
        sum_fits(p, idxs, cur, acc) ==> sum_fits(p, seq![idxs[0]], cur, acc),
{
    reveal_with_fuel(sum_fits, 2);
    assert(seq![idxs[0]][0] == idxs[0]);
    assert(seq![idxs[0]].drop_first() =~= Seq::<Option<nat>>::empty());
}

/// The total of the transactions of SEPA job parameters (`btg.value` and
/// `btg.curr`, per index `btg[i].…` where there are several), in the
/// currency of the first one.
pub fn sum_sepa_transaction_values(sepa_params: &Properties) -> (r: HbciResult<Value>)
    requires
        sepa_total_fits(text_view(sepa_params@), sepa_params.keys_view()),
    ensures
        match sepa_total(text_view(sepa_params@), sepa_params.keys_view()) {
            Ok((c, cur)) => r matches Ok(v) && v.value@ == cents_text(c) && crate::gv_result::account::opt_view(v.curr) == Some(cur),
            Err(e) => r matches Err(x) && x@ == e,
        },
{
    let ghost p = text_view(sepa_params@);
    let ghost idxs = transaction_indices(sepa_params.keys_view());
    let max = max_index_of(sepa_params);
    let first: Option<usize> = match max {
        None => None,
        Some(_) => Some(0),
    };
    assert(idx_view(first) == idxs[0]);
    let cur = currency_of(sepa_params, first);
    let mut total: i64 = 0;
    match max {
        None => {
            proof {
                lemma_sum_step(p, idxs, cur@, 0);
                assert(idxs.drop_first() =~= Seq::<Option<nat>>::empty());
                reveal_with_fuel(sum_from, 2);
            }
            match add_transaction(sepa_params, None, cur.as_str(), &mut total) {
                Err(e) => {
                    return Err(e);
                },
                Ok(()) => {},
            }
            assert(sum_from(p, idxs, cur@, 0) == Ok::<int, ErrorView>(total as int));
        },
        Some(m) => {
            let mut i: usize = 0;
            assert(idxs.skip(0) =~= idxs);
            loop
                invariant_except_break
                    i <= m,
                    sum_from(p, idxs, cur@, 0) == sum_from(p, idxs.skip(i as int), cur@, total as int),
                    sum_fits(p, idxs.skip(i as int), cur@, total as int),
                invariant
                    max == Some(m),
                    idxs == Seq::new(m as nat + 1, |j: int| Some(j as nat)),
                    idxs == transaction_indices(sepa_params.keys_view()),
                    cur@ == currency_at(p, idxs[0]),
                    p == text_view(sepa_params@),
                ensures
                    sum_from(p, idxs, cur@, 0) == Ok::<int, ErrorView>(total as int),
                decreases m - i,
            {
                let ghost rest = idxs.skip(i as int);
                let ghost before = total as int;
                assert(rest[0] == Some(i as nat));
                assert(rest.drop_first() =~= idxs.skip(i + 1));
                proof {
                    lemma_sum_step(p, rest, cur@, total as int);
                }
                assert(idx_view(Some(i)) == rest[0]);
                match add_transaction(sepa_params, Some(i), cur.as_str(), &mut total) {
                    Err(e) => {
                        assert(sum_from(p, rest, cur@, before) == Err::<int, ErrorView>(e@));
                        return Err(e);
                    },
                    Ok(()) => {},
                }
                assert(sum_from(p, rest, cur@, before) == sum_from(p, idxs.skip(i + 1), cur@, total as int));
                assert(sum_fits(p, idxs.skip(i + 1), cur@, total as int));
                if i == m {
                    assert(idxs.skip(i + 1) =~= Seq::<Option<nat>>::empty());
                    break;
                }
                i += 1;
            }
        },
    }
    assert(total != i64::MIN);
    Ok(Value { value: cents_to_decimal(total), curr: Some(cur) })
}

/// The total of the transfers of PAIN.001 job parameters (see
/// `sum_sepa_transaction_values`).
pub fn sum_pain_001_transfer_values(sepa_params: &Properties) -> (r: HbciResult<Value>)
    requires
        sepa_total_fits(text_view(sepa_params@), sepa_params.keys_view()),
    ensures
        match sepa_total(text_view(sepa_params@), sepa_params.keys_view()) {
            Ok((c, cur)) => r matches Ok(v) && v.value@ == cents_text(c) && crate::gv_result::account::opt_view(v.curr) == Some(cur),
            Err(e) => r matches Err(x) && x@ == e,
        },
{
    sum_sepa_transaction_values(sepa_params)
}


/// Adding up from `idxs` on stays within `i64`, and a total reached is not
/// `i64::MIN`.
pub open spec fn fits_from(p: Map<Seq<char>, Seq<char>>, idxs: Seq<Option<nat>>, cur: Seq<char>, acc: int) -> bool {
    &&& sum_fits(p, idxs, cur, acc)
    &&& sum_from(p, idxs, cur, acc) matches Ok(c) ==> c != i64::MIN
}

/// One transaction of the check: `Err(b)` where the answer is known,
/// else the total after it.
fn fit_step(params: &Properties, index: Option<usize>, cur: &str, acc: i64, Ghost(rest): Ghost<Seq<Option<nat>>>) -> (r: Result<i64, bool>)
    requires
        rest.len() > 0,
        rest[0] == idx_view(index),
    ensures
        match r {
            Err(b) => b == fits_from(text_view(params@), rest, cur@, acc as int),
            Ok(a2) => fits_from(text_view(params@), rest, cur@, acc as int) == fits_from(
                text_view(params@),
                rest.drop_first(),
                cur@,
                a2 as int,
            ),
        },
{
    let n = indexed_name_of("btg.value", index);
    let a = match lookup_in(params, n.as_str()) {
        Some(a) => a,
        None => {
            return Err(true);
        },
    };
    if a.unicode_len() == 0 {
        return Err(true);
    }
    if !amount_fits(a) {
        return Err(false);
    }
    let c = match decimal_amount_to_cents(a) {
        Some(c) => c,
        None => {
            return Err(true);
        },
    };
    let a2 = match acc.checked_add(c) {
        Some(x) => x,
        None => {
            return Err(false);
        },
    };
    let here = currency_of(params, index);
    if !str_eq(here.as_str(), cur) {
        return Err(true);
    }
    Ok(a2)
}

/// Whether adding up the transactions of the parameters stays within
/// `i64` (what `sum_sepa_transaction_values` asks of them).
pub fn sepa_sum_fits(sepa_params: &Properties) -> (b: bool)
    ensures
        b == sepa_total_fits(text_view(sepa_params@), sepa_params.keys_view()),
{
    let ghost p = text_view(sepa_params@);
    let ghost idxs = transaction_indices(sepa_params.keys_view());
    let max = max_index_of(sepa_params);
    let first: Option<usize> = match max {
        None => None,
        Some(_) => Some(0),
    };
    assert(idx_view(first) == idxs[0]);
    let cur = currency_of(sepa_params, first);
    let mut acc: i64 = 0;
    match max {
        None => {
            match fit_step(sepa_params, None, cur.as_str(), 0, Ghost(idxs)) {
                Err(b) => b,
                Ok(a2) => {
                    assert(idxs.drop_first() =~= Seq::<Option<nat>>::empty());
                    a2 != i64::MIN
                },
            }
        },
        Some(m) => {
            let mut i: usize = 0;
            assert(idxs.skip(0) =~= idxs);
            loop
                invariant_except_break
                    i <= m,
                    fits_from(p, idxs, cur@, 0) == fits_from(p, idxs.skip(i as int), cur@, acc as int),
                invariant
                    max == Some(m),
                    idxs == Seq::new(m as nat + 1, |j: int| Some(j as nat)),
                    idxs == transaction_indices(sepa_params.keys_view()),
                    cur@ == currency_at(p, idxs[0]),
                    p == text_view(sepa_params@),
                ensures
                    fits_from(p, idxs, cur@, 0) == (acc != i64::MIN),
                decreases m - i,
            {
                let ghost rest = idxs.skip(i as int);
                assert(rest[0] == Some(i as nat));
                assert(rest.drop_first() =~= idxs.skip(i + 1));
                match fit_step(sepa_params, Some(i), cur.as_str(), acc, Ghost(rest)) {
                    Err(b) => {
                        return b;
                    },
                    Ok(a2) => {
                        acc = a2;
                    },
                }
                if i == m {
                    assert(idxs.skip(i + 1) =~= Seq::<Option<nat>>::empty());
                    break;
                }
                i += 1;
            }
            acc != i64::MIN
        },
    }
}

} // verus!
