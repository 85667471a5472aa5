//! Account checksums: the ISO 7064 MOD 97-10 check of IBANs and creditor
//! ids, and the German account number method 51.

use vstd::prelude::*;
use vstd::arithmetic::div_mod::{lemma_add_mod_noop, lemma_mul_mod_noop_left};
use vstd::string::*;

verus! {

broadcast use vstd::string::group_string_axioms;

/// Remainder modulo 97 of the number that a string of digits and capital
/// letters stands for (letters count as 10..35), computed step by step;
/// `None` as soon as another byte occurs.
pub open spec fn mod97_rem(s: Seq<u8>) -> Option<nat>
    decreases s.len(),
{
    if s.len() == 0 {
        Some(0)
    } else {
        match mod97_rem(s.drop_last()) {
            None => None,
            Some(r) => {
                let b = s.last();
                if 48 <= b <= 57 {
                    Some(((r * 10 + (b - 48)) % 97) as nat)
                } else if 65 <= b <= 90 {
                    Some(((r * 100 + (b - 55)) % 97) as nat)
                } else {
                    None
                }
            },
        }
    }
}

/// The number a string of digits and capital letters stands for, each
/// letter written as its two-digit value.
pub open spec fn expanded_value(s: Seq<u8>) -> nat
    decreases s.len(),
{
    if s.len() == 0 {
        0
    } else {
        let b = s.last();
        if 65 <= b <= 90 {
            expanded_value(s.drop_last()) * 100 + (b - 55) as nat
        } else {
            expanded_value(s.drop_last()) * 10 + (if b >= 48 { (b - 48) as nat } else { 0 })
        }
    }
}

/// Whether a byte string passes the MOD 97-10 check (remainder 1).
pub open spec fn mod97_ok(s: Seq<u8>) -> bool {
    mod97_rem(s) == Some(1nat)
}

/// The IBAN check: country code and check digits moved to the end.
pub open spec fn iban_ok(b: Seq<u8>) -> bool {
    b.len() >= 4 && mod97_ok(b.skip(4) + b.take(4))
}

/// Whether two bytes spell `DE` in any ASCII case.
pub open spec fn is_de(b0: u8, b1: u8) -> bool {
    (b0 == 68 || b0 == 100) && (b1 == 69 || b1 == 101)
}

/// The creditor id check: German ids have 18 characters; the business code
/// (bytes 4..7) is left out of the checksum.
pub open spec fn creditor_id_ok(b: Seq<u8>) -> bool {
    &&& b.len() >= 7
    &&& !(is_de(b[0], b[1]) && b.len() != 18)
    &&& mod97_ok(b.skip(7) + b.take(4))
}

/// The business code of a creditor id (its bytes 4 to 6) does not take
/// part in the check: two ids that differ only there are both accepted or
/// both refused.
pub proof fn law_creditor_id_ignores_business_code(a: Seq<u8>, b: Seq<u8>)
    requires
        a.len() == b.len(),
        forall|i: int| 0 <= i < a.len() && !(4 <= i < 7) ==> a[i] == b[i],
    ensures
        creditor_id_ok(a) == creditor_id_ok(b),
{
    if a.len() >= 7 {
        assert(a.skip(7) + a.take(4) =~= b.skip(7) + b.take(4));
        assert(a[0] == b[0] && a[1] == b[1]);
    }
}

/// A creditor id passes exactly when it has at least seven characters, a
/// German one has eighteen, and the id without its business code passes the
/// IBAN check.
pub proof fn law_creditor_id_is_iban_check_without_business_code(b: Seq<u8>)
    requires
        b.len() >= 7,
    ensures
        creditor_id_ok(b) == (!(is_de(b[0], b[1]) && b.len() != 18) && iban_ok(b.take(4) + b.skip(7))),
{
    let c = b.take(4) + b.skip(7);
    assert(c.skip(4) =~= b.skip(7));
    assert(c.take(4) =~= b.take(4));
}

/// The step-wise remainder is the remainder of the whole number.
pub proof fn law_mod97_is_remainder(s: Seq<u8>)
    requires
        mod97_rem(s) is Some,
    ensures
        mod97_rem(s) == Some(expanded_value(s) % 97),
    decreases s.len(),
{
    if s.len() > 0 {
        let t = s.drop_last();
        law_mod97_is_remainder(t);
        let v = expanded_value(t) as int;
        let b = s.last();
        let (k, d) = if 65 <= b <= 90 {
            (100int, (b - 55) as int)
        } else {
            (10int, (b - 48) as int)
        };
        lemma_mul_mod_noop_left(v, k, 97);
        lemma_add_mod_noop((v % 97) * k, d, 97);
        lemma_add_mod_noop(v * k, d, 97);
        assert((((v % 97) * k) % 97 + d % 97) % 97 == ((v * k) % 97 + d % 97) % 97);
    }
}

fn mod97(bytes: &[u8]) -> (ok: bool)
    ensures
        ok == mod97_ok(bytes@),
{
    let mut remainder: u32 = 0;
    let mut i: usize = 0;
    while i < bytes.len()
        invariant
            i <= bytes@.len(),
            remainder < 97,
            mod97_rem(bytes@.take(i as int)) == Some(remainder as nat),
        decreases bytes.len() - i,
    {
        let b = bytes[i];
        assert(bytes@.take(i + 1).drop_last() =~= bytes@.take(i as int));
        if b >= 48 && b <= 57 {
            remainder = (remainder * 10 + (b - 48) as u32) % 97;
        } else if b >= 65 && b <= 90 {
            remainder = (remainder * 100 + (b - 55) as u32) % 97;
        } else {
            proof {
                lemma_rem_none_extends(bytes@, i as int + 1);
            }
            return false;
        }
        i += 1;
    }
    assert(bytes@.take(bytes@.len() as int) =~= bytes@);
    remainder == 1
}

/// Once the step-wise remainder fails, it fails for every longer prefix.
proof fn lemma_rem_none_extends(s: Seq<u8>, k: int)
    requires
        0 <= k <= s.len(),
        mod97_rem(s.take(k)) is None,
    ensures
        mod97_rem(s) is None,
    decreases s.len() - k,
{
    if k < s.len() {
        assert(s.take(k + 1).drop_last() =~= s.take(k));
        lemma_rem_none_extends(s, k + 1);
    } else {
        assert(s.take(k) =~= s);
    }
}

fn rotated(bytes: &[u8], split: usize, keep_from: usize) -> (r: Vec<u8>)
    requires
        split <= keep_from <= bytes@.len(),
    ensures
        r@ == bytes@.skip(keep_from as int) + bytes@.take(split as int),
{
    let mut r: Vec<u8> = Vec::new();
    let mut i = keep_from;
    while i < bytes.len()
        invariant
            keep_from <= i <= bytes@.len(),
            r@ == bytes@.subrange(keep_from as int, i as int),
        decreases bytes.len() - i,
    {
        r.push(bytes[i]);
        i += 1;
        assert(r@ =~= bytes@.subrange(keep_from as int, i as int));
    }
    let mut j: usize = 0;
    while j < split
        invariant
            j <= split <= bytes@.len(),
            r@ == bytes@.skip(keep_from as int) + bytes@.take(j as int),
        decreases split - j,
    {
        r.push(bytes[j]);
        j += 1;
        assert(r@ =~= bytes@.skip(keep_from as int) + bytes@.take(j as int));
    }
    r
}

// ---------------------------------------------------------------------------
// Method 51
// ---------------------------------------------------------------------------

/// Sum of the digits of a number.
pub open spec fn digit_sum(v: nat) -> nat
    decreases v,
{
    if v == 0 {
        0
    } else {
        v % 10 + digit_sum(v / 10)
    }
}

/// Sum of `number[first + i] * factors[i]` for `i < k`, each product
/// replaced by its digit sum when `cross` is set.
pub open spec fn weighted_sum(number: Seq<u8>, first: int, factors: Seq<u8>, k: nat, cross: bool) -> nat
    decreases k,
{
    if k == 0 {
        0
    } else {
        let p = (number[first + k - 1] * factors[k - 1]) as nat;
        weighted_sum(number, first, factors, (k - 1) as nat, cross) + if cross {
            digit_sum(p)
        } else {
            p
        }
    }
}

/// Check digit by modulus 11: `11 - sum % 11`, with 10 and 11 becoming 0.
pub open spec fn check_digit_11(sum: nat) -> nat {
    let c = 11 - sum % 11;
    if c > 9 {
        0
    } else {
        c as nat
    }
}

pub open spec fn factors_a() -> Seq<u8> {
    seq![7, 6, 5, 4, 3, 2]
}

pub open spec fn factors_b() -> Seq<u8> {
    seq![6, 5, 4, 3, 2]
}

pub open spec fn factors_c() -> Seq<u8> {
    seq![1, 2, 1, 2, 1, 2]
}

pub open spec fn factors_v1() -> Seq<u8> {
    seq![8, 7, 6, 5, 4, 3, 2]
}

pub open spec fn factors_v2() -> Seq<u8> {
    seq![10, 9, 8, 7, 6, 5, 4, 3, 2]
}

pub open spec fn method_a(n: Seq<u8>) -> bool {
    n[9] as nat == check_digit_11(weighted_sum(n, 3, factors_a(), 6, false))
}

pub open spec fn method_b(n: Seq<u8>) -> bool {
    n[9] as nat == check_digit_11(weighted_sum(n, 4, factors_b(), 5, false))
}

pub open spec fn method_c(n: Seq<u8>) -> bool {
    n[9] as nat == (10 - weighted_sum(n, 3, factors_c(), 6, true) % 10) % 10
}

pub open spec fn method_d(n: Seq<u8>) -> bool {
    n[9] as nat == (7 - weighted_sum(n, 4, factors_b(), 5, false) % 7) % 7
}

pub open spec fn variant_1(n: Seq<u8>) -> bool {
    n[9] as nat == check_digit_11(weighted_sum(n, 2, factors_v1(), 7, false))
}

pub open spec fn variant_2(n: Seq<u8>) -> bool {
    n[9] as nat == check_digit_11(weighted_sum(n, 0, factors_v2(), 9, false))
}

/// Method 51 of the German check digit methods, on the ten digits of an
/// account number (`number[9]` is the check digit).
pub open spec fn alg_51_ok(n: Seq<u8>) -> bool {
    if n[2] != 9 {
        method_a(n) || method_b(n) || method_c(n) || (n[9] < 7 && method_d(n))
    } else {
        variant_1(n) || variant_2(n)
    }
}

fn digit_sum_exec(value: u32) -> (s: u32)
    ensures
        s == digit_sum(value as nat),
        s <= value,
{
    let mut v = value;
    let mut sum: u32 = 0;
    while v > 0
        invariant
            sum + digit_sum(v as nat) == digit_sum(value as nat),
            sum + v <= value,
        decreases v,
    {
        sum += v % 10;
        v /= 10;
    }
    sum
}

fn add_products(number: &[u8; 10], first: usize, factors: &[u8], with_checksum: bool) -> (r: u32)
    requires
        first + factors@.len() <= 10,
        factors@.len() <= 10,
        forall|i: int| 0 <= i < factors@.len() ==> factors@[i] <= 10,
    ensures
        r == weighted_sum(number@, first as int, factors@, factors@.len() as nat, with_checksum),
{
    let mut result: u32 = 0;
    let mut k: usize = 0;
    while k < factors.len()
        invariant
            first + factors@.len() <= 10,
            factors@.len() <= 10,
            forall|i: int| 0 <= i < factors@.len() ==> factors@[i] <= 10,
            k <= factors@.len(),
            result == weighted_sum(number@, first as int, factors@, k as nat, with_checksum),
            result <= k * 2550,
        decreases factors.len() - k,
    {
        let a = number[first + k] as u32;
        let f = factors[k] as u32;
        assert(f <= 10);
        assert(a * f <= 2550) by (nonlinear_arith)
            requires
                a <= 255,
                f <= 10,
        ;
        let mut product: u32 = a * f;
        if with_checksum {
            product = digit_sum_exec(product);
        }
        result += product;
        k += 1;
    }
    result
}

fn check_11(sum: u32) -> (c: u32)
    ensures
        c == check_digit_11(sum as nat),
{
    let c = 11 - sum % 11;
    if c > 9 {
        0
    } else {
        c
    }
}

/// Checksum algorithms for account numbers and identifiers.
#[derive(Debug, Clone, Copy)]
pub struct AccountCrcAlgs;

impl AccountCrcAlgs {
    /// The IBAN check (ISO 13616): the first four characters go to the end,
    /// letters count as 10..35, and the number must leave remainder 1 modulo 97.
    pub fn check_iban(iban: &str) -> (ok: bool)
        ensures
            ok == iban_ok(iban.spec_bytes()),
    {
        let bytes = iban.as_bytes();
        if bytes.len() < 4 {
            return false;
        }
        let r = rotated(bytes, 4, 4);
        mod97(r.as_slice())
    }

    /// The SEPA creditor id check.
    pub fn check_creditor_id(creditor_id: &str) -> (ok: bool)
        ensures
            ok == creditor_id_ok(creditor_id.spec_bytes()),
    {
        let bytes = creditor_id.as_bytes();
        if bytes.len() < 7 {
            return false;
        }
        let b0 = bytes[0];
        let b1 = bytes[1];
        if (b0 == 68 || b0 == 100) && (b1 == 69 || b1 == 101) && bytes.len() != 18 {
            return false;
        }
        let r = rotated(bytes, 4, 7);
        mod97(r.as_slice())
    }

    /// Check digit method 51 for a ten-digit account number; the bank code is
    /// not used by this method.
    pub fn alg_51(_blz: Option<&[u8; 8]>, number: &[u8; 10]) -> (ok: bool)
        ensures
            ok == alg_51_ok(number@),
    {
        assert(number@.len() == 10);
        if number[2] != 9 {
            Self::alg_51_method_a(number) || Self::alg_51_method_b(number) || Self::alg_51_method_c(
                number,
            ) || (number[9] < 7 && Self::alg_51_method_d(number))
        } else {
            Self::alg_51_variant_1(number) || Self::alg_51_variant_2(number)
        }
    }

    fn alg_51_method_a(number: &[u8; 10]) -> (ok: bool)
        ensures
            ok == method_a(number@),
    {
        let f: [u8; 6] = [7, 6, 5, 4, 3, 2];
        assert(f@ =~= factors_a());
        let sum = add_products(number, 3, &f, false);
        (number[9] as u32) == check_11(sum)
    }

    fn alg_51_method_b(number: &[u8; 10]) -> (ok: bool)
        ensures
            ok == method_b(number@),
    {
        let f: [u8; 5] = [6, 5, 4, 3, 2];
        assert(f@ =~= factors_b());
        let sum = add_products(number, 4, &f, false);
        (number[9] as u32) == check_11(sum)
    }

    fn alg_51_method_c(number: &[u8; 10]) -> (ok: bool)
        ensures
            ok == method_c(number@),
    {
        let f: [u8; 6] = [1, 2, 1, 2, 1, 2];
        assert(f@ =~= factors_c());
        let sum = add_products(number, 3, &f, true);
        let crc = (10 - sum % 10) % 10;
        (number[9] as u32) == crc
    }

    fn alg_51_method_d(number: &[u8; 10]) -> (ok: bool)
        ensures
            ok == method_d(number@),
    {
        let f: [u8; 5] = [6, 5, 4, 3, 2];
        assert(f@ =~= factors_b());
        let sum = add_products(number, 4, &f, false);
        let crc = (7 - sum % 7) % 7;
        (number[9] as u32) == crc
    }

    fn alg_51_variant_1(number: &[u8; 10]) -> (ok: bool)
        ensures
            ok == variant_1(number@),
    {
        let f: [u8; 7] = [8, 7, 6, 5, 4, 3, 2];
        assert(f@ =~= factors_v1());
        let sum = add_products(number, 2, &f, false);
        (number[9] as u32) == check_11(sum)
    }

    fn alg_51_variant_2(number: &[u8; 10]) -> (ok: bool)
        ensures
            ok == variant_2(number@),
    {
        let f: [u8; 9] = [10, 9, 8, 7, 6, 5, 4, 3, 2];
        assert(f@ =~= factors_v2());
        let sum = add_products(number, 0, &f, false);
        (number[9] as u32) == check_11(sum)
    }
}

} // verus!
