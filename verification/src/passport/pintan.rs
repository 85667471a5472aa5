//! The PIN/TAN passport: the user's and the bank's parameters, the TAN
//! procedures the bank offers, the accounts, and the state of the strong
//! customer authentication.

use vstd::prelude::*;
use crate::gv_result::exec::{counted_header, counted_header_string, lemma_counted_header_injective};
use crate::gv_result::status::non_empty;
use crate::strmap::{StrMap, text_view};
use crate::text::{
    chars_of, decimal, lemma_decimal_digits, parse_int, parse_u32_with_kind, split_char, split_str,
    starts_with, starts_with_str, concat, find, find_str, ends_with, ends_with_str,
};
use crate::tools::{ParameterFinder, ParameterQuery, Properties, opt_view, restrict_path, strip_leading};
use crate::gv_result::{HbciMsgStatus, HbciReturnValue, Konto, Limit, Value};
use crate::gv_result::status::with_code;
use crate::dialog::KnownReturncode;

verus! {

/// The value under `key` where it is set and not empty.
pub open spec fn opt_text(m: Map<Seq<char>, Seq<char>>, key: Seq<char>) -> Option<Seq<char>> {
    if m.contains_key(key) && m[key].len() > 0 {
        Some(m[key])
    } else {
        None
    }
}

/// The value under `key`, where it is set and not empty.
pub fn optional_value(values: &Properties, key: &str) -> (r: Option<String>)
    ensures
        opt_view(r) == opt_text(text_view(values@), key@),
{
    match values.get(key) {
        Some(v) => {
            if v.as_str().unicode_len() > 0 {
                Some(v.clone())
            } else {
                None
            }
        },
        None => None,
    }
}

/// The number under `key`, where it is set and a `u32`.
pub open spec fn opt_u32(m: Map<Seq<char>, Seq<char>>, key: Seq<char>) -> Option<u32> {
    match opt_text(m, key) {
        Some(t) => match parse_int(t, 0, u32::MAX as int) {
            Ok(n) => Some(n as u32),
            Err(_) => None,
        },
        None => None,
    }
}

pub fn optional_u32(values: &Properties, key: &str) -> (r: Option<u32>)
    ensures
        r == opt_u32(text_view(values@), key@),
{
    match optional_value(values, key) {
        Some(t) => match parse_u32_with_kind(t.as_str()) {
            Ok(n) => Some(n),
            Err(_) => None,
        },
        None => None,
    }
}

/// The views of a list of texts.
pub open spec fn views(v: Seq<String>) -> Seq<Seq<char>> {
    v.map_values(|s: String| s@)
}

/// The non-empty parts of a `|`-separated list.
pub fn split_pipe_values(value: &str) -> (r: Vec<String>)
    ensures
        views(r@) == non_empty(split_char(value@, '|')),
{
    let parts = split_str(value, '|');
    let ghost sp = split_char(value@, '|');
    let mut r: Vec<String> = Vec::new();
    let mut i: usize = 0;
    while i < parts.len()
        invariant
            i <= parts@.len(),
            parts@.len() == sp.len(),
            sp == split_char(value@, '|'),
            forall|k: int| 0 <= k < parts@.len() ==> #[trigger] parts@[k]@ == sp[k],
            views(r@) == non_empty(sp.take(i as int)),
        decreases parts.len() - i,
    {
        assert(sp.take(i + 1).drop_last() =~= sp.take(i as int));
        let ghost before = r@;
        if parts[i].as_str().unicode_len() > 0 {
            r.push(parts[i].clone());
            assert(views(r@) =~= views(before).push(sp[i as int]));
        }
        i += 1;
    }
    assert(sp.take(i as int) =~= sp);
    r
}

/// Whether some key starts with `p`.
pub open spec fn has_child(m: Map<Seq<char>, Seq<char>>, p: Seq<char>) -> bool {
    exists|k: Seq<char>| m.contains_key(k) && #[trigger] starts_with(k, p)
}

/// The prefix of the children of occurrence `i` of a repeated group.
pub open spec fn child_prefix(base: Seq<char>, i: nat) -> Seq<char> {
    counted_header(base, i) + seq!['.']
}

pub proof fn lemma_child_prefix_unique(base: Seq<char>, i: nat, j: nat, w: Seq<char>)
    requires
        starts_with(w, child_prefix(base, i)),
        starts_with(w, child_prefix(base, j)),
    ensures
        i == j,
{
    let a = child_prefix(base, i);
    let b = child_prefix(base, j);
    lemma_decimal_digits(i + 1);
    lemma_decimal_digits(j + 1);
    if a.len() == b.len() {
        assert(a =~= b);
        assert(counted_header(base, i) =~= a.drop_last());
        assert(counted_header(base, j) =~= b.drop_last());
        lemma_counted_header_injective(base, i, j);
    } else {
        let (short, long, si, li) = if a.len() < b.len() {
            (a, b, i, j)
        } else {
            (b, a, j, i)
        };
        assert(long.take(short.len() as int) =~= short) by {
            assert forall|k: int| 0 <= k < short.len() implies long[k] == short[k] by {
                assert(w[k] == short[k]);
                assert(w[k] == long[k]);
            }
        }
        let pos = short.len() - 1;
        assert(short[pos] == '.');
        if si == 0 {
            assert(li > 0);
            assert(long[base.len() as int] == '_');
        } else {
            assert(li > 0);
            let d = decimal(li + 1);
            assert(long[pos] == d[pos - base.len() - 1]);
            assert(crate::text::is_digit(d[pos - base.len() - 1]));
        }
    }
}

/// A key that starts with `p`, if any: its position.
fn find_child(values: &Properties, p: &str) -> (r: Option<usize>)
    ensures
        r matches Some(i) ==> i < values.size() && starts_with(values.keys_view()[i as int], p@),
        r is None ==> !has_child(text_view(values@), p@),
{
    values.check_well_formed();
    let n = values.len();
    let mut i: usize = 0;
    while i < n
        invariant
            n == values.size(),
            values.well_formed(),
            i <= n,
            forall|k: int| 0 <= k < i ==> !starts_with(#[trigger] values.keys_view()[k], p@),
        decreases n - i,
    {
        if starts_with_str(values.key_at(i).as_str(), p) {
            return Some(i);
        }
        i += 1;
    }
    proof {
        if has_child(text_view(values@), p@) {
            let k = choose|k: Seq<char>| text_view(values@).contains_key(k) && #[trigger] starts_with(k, p@);
            crate::strmap::lemma_map_of_len(values.keys_view(), values.vals_view());
            assert(values.keys_view().to_set().contains(k));
            let j = values.keys_view().index_of(k);
            assert(values.keys_view()[j] == k);
        }
    }
    None
}

/// The headers `base`, `base_2`, ... of a repeated group, as long as the
/// group has elements.
pub fn counted_prefixes(values: &Properties, base: &str) -> (r: Vec<String>)
    ensures
        forall|i: int| 0 <= i < r@.len() ==> (#[trigger] r@[i])@ == counted_header(base@, i as nat),
        forall|i: nat| i < r@.len() ==> #[trigger] has_child(text_view(values@), child_prefix(base@, i)),
        !has_child(text_view(values@), child_prefix(base@, r@.len())),
{
    values.check_well_formed();
    let ghost m = text_view(values@);
    let mut r: Vec<String> = Vec::new();
    let mut index: usize = 0;
    let ghost mut seen: Set<Seq<char>> = Set::empty();
    proof {
        crate::strmap::lemma_map_of_len(values.keys_view(), values.vals_view());
        vstd::seq_lib::seq_to_set_is_finite(values.keys_view());
    }
    loop
        invariant
            values.well_formed(),
            m == text_view(values@),
            index == r@.len(),
            values@.dom().finite(),
            values@.dom().len() == values.size(),
            seen.finite(),
            seen.len() == index,
            seen.subset_of(values@.dom()),
            forall|k: Seq<char>| #[trigger] seen.contains(k) ==> exists|j: nat|
                j < index && starts_with(k, child_prefix(base@, j)),
            forall|i: int| 0 <= i < r@.len() ==> (#[trigger] r@[i])@ == counted_header(base@, i as nat),
            forall|i: nat| i < r@.len() ==> #[trigger] has_child(m, child_prefix(base@, i)),
        ensures
            forall|i: int| 0 <= i < r@.len() ==> (#[trigger] r@[i])@ == counted_header(base@, i as nat),
            forall|i: nat| i < r@.len() ==> #[trigger] has_child(m, child_prefix(base@, i)),
            !has_child(m, child_prefix(base@, r@.len())),
        decreases values.size() - index,
    {
        proof {
            vstd::set_lib::lemma_len_subset(seen, values@.dom());
        }
        if index >= values.len() {
            proof {
                if has_child(m, child_prefix(base@, index as nat)) {
                    let w = choose|k: Seq<char>| m.contains_key(k) && #[trigger] starts_with(k, child_prefix(base@, index as nat));
                    assert(!seen.contains(w)) by {
                        if seen.contains(w) {
                            let j = choose|j: nat| j < index && starts_with(w, child_prefix(base@, j));
                            lemma_child_prefix_unique(base@, j, index as nat, w);
                        }
                    }
                    vstd::set_lib::lemma_len_subset(seen.insert(w), values@.dom());
                }
            }
            break;
        }
        let header = counted_header_string(base, index);
        let mut p = header.clone();
        crate::text::push_char(&mut p, '.');
        assert(p@ =~= child_prefix(base@, index as nat));
        match find_child(values, p.as_str()) {
            None => {
                break;
            },
            Some(k) => {
                let ghost w = values.keys_view()[k as int];
                proof {
                    crate::strmap::lemma_key_index(values.keys_view(), k as int);
                    assert(values@.dom().contains(w));
                    assert(m.contains_key(w));
                    assert(has_child(m, child_prefix(base@, index as nat)));
                    assert(!seen.contains(w)) by {
                        if seen.contains(w) {
                            let j = choose|j: nat| j < index && starts_with(w, child_prefix(base@, j));
                            lemma_child_prefix_unique(base@, j, index as nat, w);
                        }
                    }
                    seen = seen.insert(w);
                    vstd::set_lib::lemma_len_subset(seen, values@.dom());
                }
                r.push(header);
                index += 1;
            },
        }
    }
    r
}

/// The number of occurrences of a repeated group: the first index without
/// elements.
pub open spec fn counted_len(m: Map<Seq<char>, Seq<char>>, base: Seq<char>) -> nat {
    choose|n: nat| (forall|i: nat| i < n ==> #[trigger] has_child(m, child_prefix(base, i))) && !has_child(m, child_prefix(base, n))
}

pub proof fn lemma_counted_len(m: Map<Seq<char>, Seq<char>>, base: Seq<char>, n: nat)
    requires
        forall|i: nat| i < n ==> #[trigger] has_child(m, child_prefix(base, i)),
        !has_child(m, child_prefix(base, n)),
    ensures
        counted_len(m, base) == n,
{
    let c = counted_len(m, base);
    assert((forall|i: nat| i < c ==> #[trigger] has_child(m, child_prefix(base, i))) && !has_child(m, child_prefix(base, c)));
    if c < n {
        assert(has_child(m, child_prefix(base, c)));
    } else if c > n {
        assert(has_child(m, child_prefix(base, n)));
    }
}

/// `counted_prefixes` with the number of occurrences.
fn counted_prefixes_len(values: &Properties, base: &str) -> (r: Vec<String>)
    ensures
        forall|i: int| 0 <= i < r@.len() ==> (#[trigger] r@[i])@ == counted_header(base@, i as nat),
        r@.len() == counted_len(text_view(values@), base@),
{
    let r = counted_prefixes(values, base);
    proof {
        lemma_counted_len(text_view(values@), base@, r@.len());
    }
    r
}

/// `s` without leading zeros.
pub fn strip_leading_zeroes(value: &str) -> (r: String)
    ensures
        r@ == strip_leading(value@, '0'),
{
    let v = chars_of(value);
    let mut i: usize = 0;
    assert(v@.skip(0) =~= v@);
    while i < v.len() && v[i] == '0'
        invariant
            i <= v@.len(),
            v@ == value@,
            strip_leading(value@, '0') == strip_leading(v@.skip(i as int), '0'),
        decreases v.len() - i,
    {
        assert(v@.skip(i as int).drop_first() =~= v@.skip(i + 1));
        i += 1;
    }
    let r = crate::text::string_of(crate::text::slice_chars(v.as_slice(), i, v.len()).as_slice());
    assert(r@ =~= v@.skip(i as int));
    r
}

/// Whether an optional text is set and not empty.
pub open spec fn filled(o: Option<String>) -> bool {
    o matches Some(s) && s@.len() > 0
}

fn is_filled(o: &Option<String>) -> (b: bool)
    ensures
        b == filled(*o),
{
    match o {
        Some(s) => s.as_str().unicode_len() > 0,
        None => false,
    }
}

/// A copy of an optional text.
fn copy_opt(o: &Option<String>) -> (r: Option<String>)
    ensures
        opt_view(r) == opt_view(*o),
{
    match o {
        Some(s) => Some(s.clone()),
        None => None,
    }
}

/// `target` takes `source` where that is set and not empty.
fn copy_non_empty(target: &mut Option<String>, source: &Option<String>)
    ensures
        opt_view(*final(target)) == if filled(*source) {
            opt_view(*source)
        } else {
            opt_view(*old(target))
        },
        !filled(*source) ==> *final(target) == *old(target),
{
    if is_filled(source) {
        *target = copy_opt(source);
    }
}

/// The value of an optional field after filling: the source's where that is
/// set and not empty.
pub open spec fn fill_text(target: Option<String>, source: Option<String>) -> Option<Seq<char>> {
    if filled(source) {
        opt_view(source)
    } else {
        opt_view(target)
    }
}

/// What a limit says.
pub ghost struct LimitView {
    pub limit_type: Seq<char>,
    pub value: Option<(Seq<char>, Option<Seq<char>>)>,
    pub days: Option<u32>,
}

pub open spec fn limit_view(l: Option<Limit>) -> Option<LimitView> {
    match l {
        None => None,
        Some(x) => Some(
            LimitView {
                limit_type: x.limit_type@,
                value: match x.value {
                    Some(v) => Some((v.value@, opt_view(v.curr))),
                    None => None,
                },
                days: x.days,
            },
        ),
    }
}

pub fn copy_limit(l: &Option<Limit>) -> (r: Option<Limit>)
    ensures
        limit_view(r) == limit_view(*l),
{
    match l {
        None => None,
        Some(x) => Some(
            Limit {
                limit_type: x.limit_type.clone(),
                value: match &x.value {
                    Some(v) => Some(Value { value: v.value.clone(), curr: copy_opt(&v.curr) }),
                    None => None,
                },
                days: x.days,
            },
        ),
    }
}

/// `account` after taking over the set fields of `source`.
pub open spec fn filled_from(new: Konto, account: Konto, source: Konto) -> bool {
    &&& opt_view(new.country) == fill_text(account.country, source.country)
    &&& opt_view(new.blz) == fill_text(account.blz, source.blz)
    &&& opt_view(new.number) == fill_text(account.number, source.number)
    &&& opt_view(new.subnumber) == fill_text(account.subnumber, source.subnumber)
    &&& opt_view(new.bic) == fill_text(account.bic, source.bic)
    &&& opt_view(new.iban) == fill_text(account.iban, source.iban)
    &&& opt_view(new.customer_id) == fill_text(account.customer_id, source.customer_id)
    &&& opt_view(new.name) == fill_text(account.name, source.name)
    &&& opt_view(new.name2) == fill_text(account.name2, source.name2)
    &&& opt_view(new.acctype) == fill_text(account.acctype, source.acctype)
    &&& opt_view(new.account_type) == fill_text(account.account_type, source.account_type)
    &&& opt_view(new.curr) == fill_text(account.curr, source.curr)
    &&& opt_view(new.creditorid) == opt_view(account.creditorid)
    &&& limit_view(new.limit) == if account.limit is None {
        limit_view(source.limit)
    } else {
        limit_view(account.limit)
    }
    &&& views(new.allowed_gvs@) == if source.allowed_gvs@.len() > 0 {
        views(source.allowed_gvs@)
    } else {
        views(account.allowed_gvs@)
    }
}

/// Takes over the fields of `source` that are set.
pub fn fill_from_account(account: &mut Konto, source: &Konto)
    ensures
        filled_from(*final(account), *old(account), *source),
{
    copy_non_empty(&mut account.country, &source.country);
    copy_non_empty(&mut account.blz, &source.blz);
    copy_non_empty(&mut account.number, &source.number);
    copy_non_empty(&mut account.subnumber, &source.subnumber);
    copy_non_empty(&mut account.bic, &source.bic);
    copy_non_empty(&mut account.iban, &source.iban);
    copy_non_empty(&mut account.customer_id, &source.customer_id);
    copy_non_empty(&mut account.name, &source.name);
    copy_non_empty(&mut account.name2, &source.name2);
    copy_non_empty(&mut account.acctype, &source.acctype);
    copy_non_empty(&mut account.account_type, &source.account_type);
    copy_non_empty(&mut account.curr, &source.curr);
    if account.limit.is_none() {
        account.limit = copy_limit(&source.limit);
    }
    if source.allowed_gvs.len() > 0 {
        let gvs = crate::gv_result::status::clone_strings(&source.allowed_gvs);
        proof {
            assert(views(gvs@) =~= crate::gv_result::status::str_views(gvs@));
            assert(views(source.allowed_gvs@) =~= crate::gv_result::status::str_views(source.allowed_gvs@));
        }
        account.allowed_gvs = gvs;
    }
}

/// The first text where it is set, else the second.
pub open spec fn or_text(a: Option<Seq<char>>, b: Option<Seq<char>>) -> Option<Seq<char>> {
    if a is Some {
        a
    } else {
        b
    }
}

/// An amount under `p`: `p.value` (which may be empty) and `p.curr`.
pub open spec fn value_matches(v: Option<Value>, m: Map<Seq<char>, Seq<char>>, p: Seq<char>) -> bool {
    if m.contains_key(p + ".value"@) {
        v matches Some(x) && x.value@ == m[p + ".value"@] && opt_view(x.curr) == opt_text(m, p + ".curr"@)
    } else {
        v is None
    }
}

/// A limit under `p`: its type is required.
pub open spec fn limit_matches(l: Option<Limit>, m: Map<Seq<char>, Seq<char>>, p: Seq<char>) -> bool {
    match opt_text(m, p + ".limittype"@) {
        None => l is None,
        Some(t) => l matches Some(x) && x.limit_type@ == t && value_matches(x.value, m, p + ".BTG"@) && x.days
            == opt_u32(m, p + ".limitdays"@),
    }
}

/// The transaction codes of the allowed jobs among the first `n` groups.
pub open spec fn gv_codes(m: Map<Seq<char>, Seq<char>>, base: Seq<char>, n: nat) -> Seq<Seq<char>>
    decreases n,
{
    if n == 0 {
        seq![]
    } else {
        gv_codes(m, base, (n - 1) as nat) + match opt_text(m, counted_header(base, (n - 1) as nat) + ".code"@) {
            Some(c) => seq![c],
            None => seq![],
        }
    }
}

/// An account read from the account information under `p`.
pub open spec fn account_matches(k: Konto, m: Map<Seq<char>, Seq<char>>, p: Seq<char>) -> bool {
    &&& opt_view(k.number) == opt_text(m, p + ".KTV.number"@)
    &&& opt_view(k.country) == opt_text(m, p + ".KTV.KIK.country"@)
    &&& opt_view(k.blz) == opt_text(m, p + ".KTV.KIK.blz"@)
    &&& opt_view(k.subnumber) == opt_text(m, p + ".KTV.subnumber"@)
    &&& opt_view(k.bic) == or_text(opt_text(m, p + ".KTV.bic"@), opt_text(m, p + ".bic"@))
    &&& opt_view(k.iban) == or_text(opt_text(m, p + ".KTV.iban"@), opt_text(m, p + ".iban"@))
    &&& opt_view(k.customer_id) == opt_text(m, p + ".customerid"@)
    &&& opt_view(k.name) == opt_text(m, p + ".name1"@)
    &&& opt_view(k.name2) == opt_text(m, p + ".name2"@)
    &&& k.creditorid is None
    &&& opt_view(k.acctype) == opt_text(m, p + ".acctype"@)
    &&& opt_view(k.account_type) == opt_text(m, p + ".konto"@)
    &&& opt_view(k.curr) == opt_text(m, p + ".cur"@)
    &&& limit_matches(k.limit, m, p + ".KLimit"@)
    &&& views(k.allowed_gvs@) == gv_codes(m, p + ".AllowedGV"@, counted_len(m, p + ".AllowedGV"@))
}

fn value_from_values(values: &Properties, prefix: &str) -> (r: Option<Value>)
    ensures
        value_matches(r, text_view(values@), prefix@),
{
    let key = concat(prefix, ".value");
    match values.get(key.as_str()) {
        Some(v) => {
            let ck = concat(prefix, ".curr");
            Some(Value { value: v.clone(), curr: optional_value(values, ck.as_str()) })
        },
        None => None,
    }
}

fn limit_from_values(values: &Properties, prefix: &str) -> (r: Option<Limit>)
    ensures
        limit_matches(r, text_view(values@), prefix@),
{
    let tk = concat(prefix, ".limittype");
    let limit_type = match optional_value(values, tk.as_str()) {
        Some(t) => t,
        None => {
            return None;
        },
    };
    let bk = concat(prefix, ".BTG");
    let dk = concat(prefix, ".limitdays");
    Some(Limit { limit_type, value: value_from_values(values, bk.as_str()), days: optional_u32(values, dk.as_str()) })
}

fn allowed_gvs_from_values(values: &Properties, base: &str) -> (r: Vec<String>)
    ensures
        views(r@) == gv_codes(text_view(values@), base@, counted_len(text_view(values@), base@)),
{
    let prefixes = counted_prefixes_len(values, base);
    let ghost m = text_view(values@);
    let mut r: Vec<String> = Vec::new();
    let mut i: usize = 0;
    while i < prefixes.len()
        invariant
            i <= prefixes@.len(),
            m == text_view(values@),
            forall|k: int| 0 <= k < prefixes@.len() ==> (#[trigger] prefixes@[k])@ == counted_header(base@, k as nat),
            views(r@) == gv_codes(m, base@, i as nat),
        decreases prefixes.len() - i,
    {
        let key = concat(prefixes[i].as_str(), ".code");
        let ghost before = views(r@);
        match optional_value(values, key.as_str()) {
            Some(c) => {
                r.push(c);
                assert(views(r@) =~= before + seq![r@.last()@]);
            },
            None => {
                assert(before + seq![] =~= before);
            },
        }
        i += 1;
    }
    r
}

/// The account under `prefix`, where it has an account number.
pub fn account_from_values(values: &Properties, prefix: &str) -> (r: Option<Konto>)
    ensures
        opt_text(text_view(values@), prefix@ + ".KTV.number"@) is None ==> r is None,
        opt_text(text_view(values@), prefix@ + ".KTV.number"@) is Some ==> (r matches Some(k) && account_matches(
            k,
            text_view(values@),
            prefix@,
        )),
{
    let nk = concat(prefix, ".KTV.number");
    let number = match optional_value(values, nk.as_str()) {
        Some(n) => n,
        None => {
            return None;
        },
    };
    let bic = match optional_value(values, concat(prefix, ".KTV.bic").as_str()) {
        Some(b) => Some(b),
        None => optional_value(values, concat(prefix, ".bic").as_str()),
    };
    let iban = match optional_value(values, concat(prefix, ".KTV.iban").as_str()) {
        Some(b) => Some(b),
        None => optional_value(values, concat(prefix, ".iban").as_str()),
    };
    Some(
        Konto {
            country: optional_value(values, concat(prefix, ".KTV.KIK.country").as_str()),
            blz: optional_value(values, concat(prefix, ".KTV.KIK.blz").as_str()),
            number: Some(number),
            subnumber: optional_value(values, concat(prefix, ".KTV.subnumber").as_str()),
            bic,
            iban,
            customer_id: optional_value(values, concat(prefix, ".customerid").as_str()),
            name: optional_value(values, concat(prefix, ".name1").as_str()),
            name2: optional_value(values, concat(prefix, ".name2").as_str()),
            creditorid: None,
            acctype: optional_value(values, concat(prefix, ".acctype").as_str()),
            account_type: optional_value(values, concat(prefix, ".konto").as_str()),
            curr: optional_value(values, concat(prefix, ".cur").as_str()),
            limit: limit_from_values(values, concat(prefix, ".KLimit").as_str()),
            allowed_gvs: allowed_gvs_from_values(values, concat(prefix, ".AllowedGV").as_str()),
        },
    )
}

/// The accounts among the first `n` account information groups under
/// `base`, in order: those with an account number.
pub open spec fn accounts_rel(r: Seq<Konto>, m: Map<Seq<char>, Seq<char>>, base: Seq<char>, n: nat) -> bool
    decreases n,
{
    if n == 0 {
        r.len() == 0
    } else {
        let h = counted_header(base, (n - 1) as nat);
        if opt_text(m, h + ".KTV.number"@) is Some {
            r.len() > 0 && account_matches(r.last(), m, h) && accounts_rel(r.drop_last(), m, base, (n - 1) as nat)
        } else {
            accounts_rel(r, m, base, (n - 1) as nat)
        }
    }
}

/// The accounts of the account information groups `prefix.KInfo`,
/// `prefix.KInfo_2`, ...
pub fn accounts_from_values(values: &Properties, prefix: &str) -> (r: Vec<Konto>)
    ensures
        accounts_rel(r@, text_view(values@), prefix@ + ".KInfo"@, counted_len(text_view(values@), prefix@ + ".KInfo"@)),
{
    let base = concat(prefix, ".KInfo");
    let prefixes = counted_prefixes_len(values, base.as_str());
    let ghost m = text_view(values@);
    let mut r: Vec<Konto> = Vec::new();
    let mut i: usize = 0;
    while i < prefixes.len()
        invariant
            i <= prefixes@.len(),
            m == text_view(values@),
            prefixes@.len() == counted_len(m, base@),
            forall|k: int| 0 <= k < prefixes@.len() ==> (#[trigger] prefixes@[k])@ == counted_header(base@, k as nat),
            accounts_rel(r@, m, base@, i as nat),
        decreases prefixes.len() - i,
    {
        let ghost before = r@;
        match account_from_values(values, prefixes[i].as_str()) {
            Some(k) => {
                r.push(k);
                assert(r@.drop_last() =~= before);
            },
            None => {},
        }
        i += 1;
    }
    r
}

/// Account and previous account have the same number, bank and country.
pub open spec fn same_account(a: Konto, b: Konto) -> bool {
    opt_view(a.number) == opt_view(b.number) && opt_view(a.blz) == opt_view(b.blz) && opt_view(a.country)
        == opt_view(b.country)
}

fn accounts_match_by_number_and_bank(account: &Konto, previous: &Konto) -> (b: bool)
    ensures
        b == same_account(*account, *previous),
{
    crate::gv_result::account::opt_str_eq(&account.number, &previous.number) && crate::gv_result::account::opt_str_eq(
        &account.blz,
        &previous.blz,
    ) && crate::gv_result::account::opt_str_eq(&account.country, &previous.country)
}

/// The first previous account that is the same account, if any.
pub open spec fn first_same(prev: Seq<Konto>, a: Konto) -> Option<int> {
    if exists|i: int| 0 <= i < prev.len() && same_account(a, #[trigger] prev[i]) {
        Some(choose|i: int| 0 <= i < prev.len() && same_account(a, prev[i]) && forall|j: int| 0 <= j < i ==> !same_account(a, #[trigger] prev[j]))
    } else {
        None
    }
}

/// An account after its missing IBAN and BIC were taken from the same
/// previous account: only the two may change.
pub open spec fn sepa_preserved(new: Konto, old: Konto, prev: Seq<Konto>) -> bool {
    &&& (Konto { iban: old.iban, bic: old.bic, ..new }) == old
    &&& if filled(old.iban) && filled(old.bic) {
        new == old
    } else {
        match first_same(prev, old) {
            None => new == old,
            Some(j) => {
                &&& opt_view(new.iban) == if filled(old.iban) {
                    opt_view(old.iban)
                } else {
                    fill_text(old.iban, prev[j].iban)
                }
                &&& opt_view(new.bic) == if filled(old.bic) {
                    opt_view(old.bic)
                } else {
                    fill_text(old.bic, prev[j].bic)
                }
            },
        }
    }
}

fn first_same_index(prev: &[Konto], a: &Konto) -> (r: Option<usize>)
    ensures
        match r {
            Some(i) => first_same(prev@, *a) == Some(i as int) && i < prev@.len(),
            None => first_same(prev@, *a) is None,
        },
{
    let mut i: usize = 0;
    while i < prev.len()
        invariant
            i <= prev@.len(),
            forall|j: int| 0 <= j < i ==> !same_account(*a, #[trigger] prev@[j]),
        decreases prev.len() - i,
    {
        if accounts_match_by_number_and_bank(a, &prev[i]) {
            proof {
                let c = choose|k: int| 0 <= k < prev@.len() && same_account(*a, prev@[k]) && forall|j: int| 0 <= j < k ==> !same_account(*a, #[trigger] prev@[j]);
                assert(0 <= i < prev@.len() && same_account(*a, prev@[i as int]) && forall|j: int| 0 <= j < i ==> !same_account(*a, #[trigger] prev@[j]));
                if c < i {
                } else if c > i {
                    assert(!same_account(*a, prev@[i as int]));
                }
            }
            return Some(i);
        }
        i += 1;
    }
    None
}

/// Takes a missing IBAN and BIC of an account from the same previous account.
fn preserve_one(a: &mut Konto, previous_accounts: &[Konto])
    ensures
        sepa_preserved(*final(a), *old(a), previous_accounts@),
{
    let full = is_filled(&a.iban) && is_filled(&a.bic);
    if full {
        return;
    }
    match first_same_index(previous_accounts, a) {
        None => {},
        Some(j) => {
            if !is_filled(&a.iban) {
                copy_non_empty(&mut a.iban, &previous_accounts[j].iban);
            }
            if !is_filled(&a.bic) {
                copy_non_empty(&mut a.bic, &previous_accounts[j].bic);
            }
        },
    }
}

/// Takes missing IBANs and BICs of the accounts from the same previous
/// accounts.
pub fn preserve_missing_sepa_fields(accounts: &mut Vec<Konto>, previous_accounts: &[Konto])
    ensures
        final(accounts)@.len() == old(accounts)@.len(),
        forall|i: int| 0 <= i < old(accounts)@.len() ==> sepa_preserved(#[trigger] final(accounts)@[i], old(accounts)@[i], previous_accounts@),
{
    let ghost orig = accounts@;
    let mut i: usize = 0;
    while i < accounts.len()
        invariant
            i <= accounts@.len(),
            accounts@.len() == orig.len(),
            forall|k: int| i <= k < orig.len() ==> #[trigger] accounts@[k] == orig[k],
            forall|k: int| 0 <= k < i ==> sepa_preserved(#[trigger] accounts@[k], orig[k], previous_accounts@),
        decreases accounts.len() - i,
    {
        let ghost before = accounts@;
        let mut a = accounts.remove(i);
        preserve_one(&mut a, previous_accounts);
        accounts.insert(i, a);
        assert(accounts@ =~= before.update(i as int, a));
        i += 1;
    }
}

// ---------------------------------------------------------------------------
// TAN procedures in the bank parameters
// ---------------------------------------------------------------------------

/// The number of decimal digits at the start of `s`.
pub open spec fn leading_digits(s: Seq<char>) -> nat
    decreases s.len(),
{
    if s.len() > 0 && crate::text::is_digit(s[0]) {
        1 + leading_digits(s.skip(1))
    } else {
        0
    }
}

/// The segment version of a TAN procedure header `X.TAN2StepParN.ParTAN2Step…`
/// with what follows the version.
pub open spec fn header_segversion(header: Seq<char>) -> Option<(int, Seq<char>)> {
    match find(header, seq!['.']) {
        None => None,
        Some(d) => {
            let sub = header.skip(d + 1);
            if !starts_with(sub, "TAN2StepPar"@) {
                None
            } else {
                let rest = sub.skip(11);
                let n = leading_digits(rest);
                if n == 0 {
                    None
                } else {
                    match parse_int(rest.take(n as int), i32::MIN as int, i32::MAX as int) {
                        Err(_) => None,
                        Ok(v) => {
                            let after = rest.skip(n as int);
                            if starts_with(after, ".ParTAN2Step"@) {
                                Some((v, after))
                            } else {
                                None
                            }
                        },
                    }
                }
            }
        },
    }
}

fn count_leading_digits(v: &[char]) -> (n: usize)
    ensures
        n == leading_digits(v@),
        n <= v@.len(),
{
    let mut i: usize = 0;
    assert(v@.skip(0) =~= v@);
    while i < v.len() && '0' <= v[i] && v[i] <= '9'
        invariant
            i <= v@.len(),
            leading_digits(v@) == i + leading_digits(v@.skip(i as int)),
        decreases v.len() - i,
    {
        assert(v@.skip(i as int).skip(1) =~= v@.skip(i + 1));
        i += 1;
    }
    i
}

/// The segment version of a TAN procedure header.
fn tan2step_header_segment_version(header: &str) -> (r: Option<i32>)
    ensures
        match header_segversion(header@) {
            Some((v, _)) => r matches Some(x) && x as int == v,
            None => r is None,
        },
{
    proof {
        reveal_strlit(".");
        assert("."@ =~= seq!['.']);
    }
    let d = match find_str(header, ".") {
        None => {
            return None;
        },
        Some(d) => d,
    };
    proof {
        crate::text::lemma_find_from_spec(header@, seq!['.'], 0);
        assert(crate::text::match_at(header@, seq!['.'], d as int));
    }
    let hv = chars_of(header);
    let hn = hv.len();
    assert(d < hn);
    let sub = crate::text::string_of(crate::text::slice_chars(hv.as_slice(), d + 1, hn).as_slice());
    assert(sub@ =~= header@.skip(d + 1));
    if !starts_with_str(sub.as_str(), "TAN2StepPar") {
        return None;
    }
    proof {
        reveal_strlit("TAN2StepPar");
    }
    let sv = chars_of(sub.as_str());
    let rest = crate::text::slice_chars(sv.as_slice(), 11, sv.len());
    assert(rest@ =~= sub@.skip(11));
    let n = count_leading_digits(rest.as_slice());
    if n == 0 {
        return None;
    }
    let digits = crate::text::string_of(crate::text::slice_chars(rest.as_slice(), 0, n).as_slice());
    assert(digits@ =~= rest@.take(n as int));
    let v = match crate::text::parse_int_in(digits.as_str(), i32::MIN as i128, i32::MAX as i128) {
        Ok(v) => v,
        Err(_) => {
            return None;
        },
    };
    proof {
        crate::text::lemma_parse_int_range(digits@, i32::MIN as int, i32::MAX as int);
    }
    let after = crate::text::string_of(crate::text::slice_chars(rest.as_slice(), n, rest.len()).as_slice());
    assert(after@ =~= rest@.skip(n as int));
    if starts_with_str(after.as_str(), ".ParTAN2Step") {
        Some(v as i32)
    } else {
        None
    }
}

/// The TAN procedure header of a `…secfunc` key of the bank parameters, with
/// its segment version.
pub open spec fn secfunc_header(key: Seq<char>) -> Option<(int, Seq<char>)> {
    if !starts_with(key, "Params"@) || !ends_with(key, ".secfunc"@) {
        None
    } else {
        let header = key.take(key.len() - 8);
        match header_segversion(header) {
            None => None,
            Some((v, _)) => Some((v, header)),
        }
    }
}

fn tan2step_secfunc_header(key: &str) -> (r: Option<(i32, String)>)
    ensures
        match secfunc_header(key@) {
            Some((v, h)) => r matches Some((x, y)) && x == v && y@ == h,
            None => r is None,
        },
{
    if !starts_with_str(key, "Params") || !ends_with_str(key, ".secfunc") {
        return None;
    }
    proof {
        reveal_strlit(".secfunc");
    }
    let kv = chars_of(key);
    let header = crate::text::string_of(crate::text::slice_chars(kv.as_slice(), 0, kv.len() - 8).as_slice());
    assert(header@ =~= key@.take(key@.len() - 8));
    match tan2step_header_segment_version(header.as_str()) {
        None => None,
        Some(v) => Some((v, header)),
    }
}

/// The part of a key after its last dot.
pub open spec fn last_segment(k: Seq<char>) -> Seq<char>
    decreases k.len(),
{
    if k.len() == 0 {
        k
    } else if k.last() == '.' {
        seq![]
    } else {
        last_segment(k.drop_last()).push(k.last())
    }
}

fn last_segment_of(k: &str) -> (r: String)
    ensures
        r@ == last_segment(k@),
{
    let v = chars_of(k);
    let mut start: usize = 0;
    let mut i: usize = 0;
    while i < v.len()
        invariant
            i <= v@.len(),
            start <= i,
            last_segment(v@.take(i as int)) == v@.subrange(start as int, i as int),
        decreases v.len() - i,
    {
        assert(v@.take(i + 1).drop_last() =~= v@.take(i as int));
        if v[i] == '.' {
            start = i + 1;
        }
        i += 1;
        assert(last_segment(v@.take(i as int)) =~= v@.subrange(start as int, i as int));
    }
    assert(v@.take(i as int) =~= v@);
    let r = crate::text::string_of(crate::text::slice_chars(v.as_slice(), start, v.len()).as_slice());
    r
}

/// The number value of the `segversion` of a TAN procedure, zero where it is
/// missing or not a number.
pub open spec fn mechanism_segversion(m: Map<Seq<char>, Seq<char>>) -> int {
    if m.contains_key("segversion"@) {
        match parse_int(m["segversion"@], i32::MIN as int, i32::MAX as int) {
            Ok(v) => v,
            Err(_) => 0,
        }
    } else {
        0
    }
}

fn mechanism_segversion_of(m: &Properties) -> (r: i32)
    ensures
        r == mechanism_segversion(text_view(m@)),
{
    match m.get("segversion") {
        Some(v) => {
            proof {
                crate::text::lemma_parse_int_range(v@, i32::MIN as int, i32::MAX as int);
            }
            match crate::text::parse_int_in(v.as_str(), i32::MIN as i128, i32::MAX as i128) {
                Ok(x) => x as i32,
                Err(_) => 0,
            }
        },
        None => 0,
    }
}

/// The parameters of a TAN procedure from the bank parameters: its segment
/// version, and the last segment of every key under the header with its
/// value, in key order.
pub open spec fn mechanism_entry(ks: Seq<Seq<char>>, vs: Seq<Seq<char>>, header: Seq<char>) -> Map<Seq<char>, Seq<char>>
    decreases ks.len(),
{
    if ks.len() == 0 {
        match header_segversion(header) {
            Some((v, _)) => map![ "segversion"@ => crate::text::signed_decimal(v) ],
            None => Map::empty(),
        }
    } else {
        let prev = mechanism_entry(ks.drop_last(), vs.drop_last(), header);
        if starts_with(ks.last(), header + seq!['.']) {
            prev.insert(last_segment(ks.last()), vs.last())
        } else {
            prev
        }
    }
}

pub open spec fn text_vals(vs: Seq<String>) -> Seq<Seq<char>> {
    vs.map_values(|v: String| v@)
}

fn twostep_mechanism_entry(bpd: &Properties, header: &str) -> (r: Properties)
    ensures
        text_view(r@) == mechanism_entry(bpd.keys_view(), text_vals(bpd.vals_view()), header@),
{
    bpd.check_well_formed();
    let mut entry = Properties::new();
    match tan2step_header_segment_version(header) {
        Some(v) => {
            let t = crate::text::i64_string(v as i64);
            let ghost tg = t;
            let ghost e0 = entry@;
            entry.insert("segversion".to_string(), t);
            assert(text_view(entry@) =~= map!["segversion"@ => tg@]);
        },
        None => {
            assert(text_view(entry@) =~= Map::empty());
        },
    }
    let ghost ks = bpd.keys_view();
    let ghost vs = text_vals(bpd.vals_view());
    assert(text_view(entry@) =~= mechanism_entry(ks.take(0), vs.take(0), header@));
    let mut p = header.to_string();
    crate::text::push_char(&mut p, '.');
    let n = bpd.len();
    let mut i: usize = 0;
    while i < n
        invariant
            n == bpd.size(),
            bpd.well_formed(),
            ks == bpd.keys_view(),
            vs == text_vals(bpd.vals_view()),
            p@ == header@ + seq!['.'],
            i <= n,
            text_view(entry@) == mechanism_entry(ks.take(i as int), vs.take(i as int), header@),
        decreases n - i,
    {
        assert(ks.take(i + 1).drop_last() =~= ks.take(i as int));
        assert(vs.take(i + 1).drop_last() =~= vs.take(i as int));
        let k = bpd.key_at(i);
        if starts_with_str(k.as_str(), p.as_str()) {
            let name = last_segment_of(k.as_str());
            let val = bpd.value_at(i).clone();
            let ghost e0 = entry@;
            let ghost vg = val;
            let ghost ng = name@;
            entry.insert(name, val);
            proof {
                assert(text_view(e0.insert(ng, vg)) =~= text_view(e0).insert(ng, vg@));
            }
        }
        i += 1;
    }
    assert(ks.take(n as int) =~= ks);
    assert(vs.take(n as int) =~= vs);
    entry
}

/// The TAN procedures of the bank parameters, by security function: for a
/// function offered in several segment versions, the highest version that
/// comes last among equals.
pub open spec fn mechanisms_of(
    ks: Seq<Seq<char>>,
    vs: Seq<Seq<char>>,
    all_ks: Seq<Seq<char>>,
    all_vs: Seq<Seq<char>>,
) -> Map<Seq<char>, Map<Seq<char>, Seq<char>>>
    decreases ks.len(),
{
    if ks.len() == 0 {
        Map::empty()
    } else {
        let prev = mechanisms_of(ks.drop_last(), vs.drop_last(), all_ks, all_vs);
        let v = vs.last();
        if v.len() > 0 && secfunc_header(ks.last()) is Some {
            let (sv, header) = secfunc_header(ks.last())->0;
            if prev.contains_key(v) && mechanism_segversion(prev[v]) > sv {
                prev
            } else {
                prev.insert(v, mechanism_entry(all_ks, all_vs, header))
            }
        } else {
            prev
        }
    }
}

pub open spec fn props_views(m: Map<Seq<char>, Properties>) -> Map<Seq<char>, Map<Seq<char>, Seq<char>>> {
    m.map_values(|p: Properties| text_view(p@))
}

/// The TAN procedures of the bank parameters.
pub fn extract_twostep_mechanisms(bpd: &Properties) -> (r: StrMap<Properties>)
    ensures
        props_views(r@) == mechanisms_of(
            bpd.keys_view(),
            text_vals(bpd.vals_view()),
            bpd.keys_view(),
            text_vals(bpd.vals_view()),
        ),
{
    bpd.check_well_formed();
    let ghost ks = bpd.keys_view();
    let ghost vs = text_vals(bpd.vals_view());
    let mut mechanisms: StrMap<Properties> = StrMap::new();
    assert(props_views(mechanisms@) =~= mechanisms_of(ks.take(0), vs.take(0), ks, vs));
    let n = bpd.len();
    let mut i: usize = 0;
    while i < n
        invariant
            n == bpd.size(),
            bpd.well_formed(),
            ks == bpd.keys_view(),
            vs == text_vals(bpd.vals_view()),
            i <= n,
            props_views(mechanisms@) == mechanisms_of(ks.take(i as int), vs.take(i as int), ks, vs),
        decreases n - i,
    {
        assert(ks.take(i + 1).drop_last() =~= ks.take(i as int));
        assert(vs.take(i + 1).drop_last() =~= vs.take(i as int));
        let secfunc = bpd.value_at(i);
        if secfunc.as_str().unicode_len() > 0 {
            match tan2step_secfunc_header(bpd.key_at(i).as_str()) {
                None => {},
                Some((segversion, header)) => {
                    let skip = match mechanisms.get(secfunc.as_str()) {
                        Some(previous) => mechanism_segversion_of(previous) > segversion,
                        None => false,
                    };
                    if !skip {
                        let entry = twostep_mechanism_entry(bpd, header.as_str());
                        let ghost m0 = mechanisms@;
                        let ghost eg = entry;
                        let key = secfunc.clone();
                        let ghost kg = key@;
                        mechanisms.insert(key, entry);
                        proof {
                            assert(props_views(m0.insert(kg, eg)) =~= props_views(m0).insert(kg, text_view(eg@)));
                        }
                    }
                },
            }
        }
        i += 1;
    }
    assert(ks.take(n as int) =~= ks);
    assert(vs.take(n as int) =~= vs);
    mechanisms
}

// ---------------------------------------------------------------------------
// TAN responses
// ---------------------------------------------------------------------------

/// A path part up to its first underscore.
pub open spec fn before_underscore(part: Seq<char>) -> Seq<char> {
    match find(part, seq!['_']) {
        Some(i) => part.take(i),
        None => part,
    }
}

/// Whether a path part names a TAN response segment.
pub open spec fn is_tan_response(part: Seq<char>) -> bool {
    starts_with(before_underscore(part), "TAN2StepRes"@)
}

/// The position of the first TAN response part.
pub open spec fn first_response_part(parts: Seq<Seq<char>>) -> Option<int>
    decreases parts.len(),
{
    if parts.len() == 0 {
        None
    } else {
        match first_response_part(parts.drop_last()) {
            Some(i) => Some(i),
            None => if is_tan_response(parts.last()) {
                Some(parts.len() - 1)
            } else {
                None
            },
        }
    }
}

/// The path of a key up to its first TAN response segment, if it has one.
pub open spec fn response_root(k: Seq<char>) -> Option<Seq<char>> {
    let parts = split_char(k, '.');
    match first_response_part(parts) {
        Some(i) => Some(crate::text::join(parts.take(i + 1), seq!['.'])),
        None => None,
    }
}

fn is_tan_response_part(part: &str) -> (b: bool)
    ensures
        b == is_tan_response(part@),
{
    proof {
        reveal_strlit("_");
        assert("_"@ =~= seq!['_']);
    }
    let head = match find_str(part, "_") {
        Some(i) => {
            proof {
                crate::text::lemma_find_from_spec(part@, seq!['_'], 0);
            }
            let pv = chars_of(part);
            let h = crate::text::string_of(crate::text::slice_chars(pv.as_slice(), 0, i).as_slice());
            assert(h@ =~= part@.take(i as int));
            h
        },
        None => part.to_string(),
    };
    starts_with_str(head.as_str(), "TAN2StepRes")
}

fn response_root_of(k: &str) -> (r: Option<String>)
    ensures
        opt_view(r) == response_root(k@),
{
    let parts = split_str(k, '.');
    let ghost sp = split_char(k@, '.');
    let mut idx: usize = 0;
    while idx < parts.len() && !is_tan_response_part(parts[idx].as_str())
        invariant
            idx <= parts@.len(),
            parts@.len() == sp.len(),
            forall|j: int| 0 <= j < parts@.len() ==> #[trigger] parts@[j]@ == sp[j],
            first_response_part(sp.take(idx as int)) is None,
        decreases parts.len() - idx,
    {
        assert(sp.take(idx + 1).drop_last() =~= sp.take(idx as int));
        idx += 1;
    }
    if idx == parts.len() {
        assert(sp.take(idx as int) =~= sp);
        return None;
    }
    assert(sp.take(idx + 1).drop_last() =~= sp.take(idx as int));
    assert(sp.take(idx + 1).last() == sp[idx as int]);
    assert(first_response_part(sp.take(idx + 1)) == Some(idx as int));
    proof {
        lemma_first_response_extends(sp, idx as int + 1, idx as int);
    }
    let mut s = parts[0].clone();
    let mut j: usize = 1;
    assert(sp.take(1) =~= seq![sp[0]]);
    while j <= idx
        invariant
            1 <= j <= idx + 1,
            idx < parts@.len(),
            parts@.len() == sp.len(),
            forall|q: int| 0 <= q < parts@.len() ==> #[trigger] parts@[q]@ == sp[q],
            s@ == crate::text::join(sp.take(j as int), seq!['.']),
        decreases idx + 1 - j,
    {
        assert(sp.take(j + 1).drop_last() =~= sp.take(j as int));
        crate::text::push_char(&mut s, '.');
        crate::text::append(&mut s, parts[j].as_str());
        j += 1;
    }
    Some(s)
}

proof fn lemma_first_response_extends(parts: Seq<Seq<char>>, n: int, i: int)
    requires
        0 <= i < n <= parts.len(),
        first_response_part(parts.take(n)) == Some(i),
    ensures
        first_response_part(parts) == Some(i),
    decreases parts.len() - n,
{
    if n < parts.len() {
        assert(parts.take(n + 1).drop_last() =~= parts.take(n));
        assert(first_response_part(parts.take(n + 1)) == Some(i));
        lemma_first_response_extends(parts, n + 1, i);
    } else {
        assert(parts.take(n) =~= parts);
    }
}

/// The TAN response roots of the keys under `mp`.
pub open spec fn response_roots(m: Map<Seq<char>, Seq<char>>, mp: Seq<char>) -> Set<Seq<char>> {
    Set::new(
        |r: Seq<char>|
            exists|k: Seq<char>| m.contains_key(k) && starts_with(k, mp + seq!['.']) && #[trigger] response_root(k) == Some(r),
    )
}

/// The first (smallest) TAN response root among the keys under
/// `message_prefix`.
pub fn first_tan2step_root(values: &Properties, message_prefix: &str) -> (r: Option<String>)
    ensures
        r matches Some(x) ==> response_roots(text_view(values@), message_prefix@).contains(x@) && forall|y: Seq<char>|
            response_roots(text_view(values@), message_prefix@).contains(y) ==> !crate::text::lex_lt(y, x@),
        r is None ==> forall|y: Seq<char>| !response_roots(text_view(values@), message_prefix@).contains(y),
{
    values.check_well_formed();
    let ghost m = text_view(values@);
    let ghost ks = values.keys_view();
    let mut p = message_prefix.to_string();
    crate::text::push_char(&mut p, '.');
    let n = values.len();
    let mut best: Option<String> = None;
    let mut i: usize = 0;
    proof {
        crate::strmap::lemma_map_of_len(ks, values.vals_view());
    }
    while i < n
        invariant
            n == values.size(),
            values.well_formed(),
            ks == values.keys_view(),
            m == text_view(values@),
            m.dom() == ks.to_set(),
            p@ == message_prefix@ + seq!['.'],
            i <= n,
            best matches Some(x) ==> response_roots(m, message_prefix@).contains(x@),
            forall|j: int|
                0 <= j < i && starts_with(ks[j], p@) && (#[trigger] response_root(ks[j])) is Some ==> (best matches Some(x)
                    && !crate::text::lex_lt(response_root(ks[j])->0, x@)),
        decreases n - i,
    {
        let k = values.key_at(i);
        if starts_with_str(k.as_str(), p.as_str()) {
            match response_root_of(k.as_str()) {
                None => {},
                Some(root) => {
                    proof {
                        assert(ks.to_set().contains(ks[i as int]));
                        assert(m.contains_key(ks[i as int]));
                    }
                    let better = match &best {
                        None => true,
                        Some(b) => {
                            let rv = chars_of(root.as_str());
                            let bv = chars_of(b.as_str());
                            crate::text::lex_order(rv.as_slice(), bv.as_slice()) == -1
                        },
                    };
                    proof {
                        if best is Some && !better {
                            crate::text::lemma_lex_total(root@, best->0@);
                        }
                    }
                    let ghost old_best = best;
                    if better {
                        best = Some(root);
                    }
                    proof {
                        assert forall|j: int|
                            0 <= j < i + 1 && starts_with(ks[j], p@) && (#[trigger] response_root(ks[j])) is Some implies (best matches Some(x)
                                && !crate::text::lex_lt(response_root(ks[j])->0, x@)) by {
                            let y = response_root(ks[j])->0;
                            if j < i {
                                if better {
                                    let ob = old_best->0;
                                    if crate::text::lex_lt(y, best->0@) {
                                        crate::text::lemma_lex_transitive(y, best->0@, ob@);
                                    }
                                }
                            } else {
                                crate::text::lemma_lex_irreflexive(y);
                                if !better {
                                    crate::text::lemma_lex_total(y, best->0@);
                                }
                            }
                        }
                    }
                },
            }
        }
        i += 1;
    }
    proof {
        assert forall|y: Seq<char>| response_roots(m, message_prefix@).contains(y) implies (best matches Some(x) && !crate::text::lex_lt(y, x@)) by {
            let k = choose|k: Seq<char>| m.contains_key(k) && starts_with(k, message_prefix@ + seq!['.']) && #[trigger] response_root(k) == Some(y);
            assert(ks.to_set().contains(k));
            let j = ks.index_of(k);
            assert(ks[j] == k);
            assert(response_root(ks[j]) == Some(y));
            assert(response_root(ks[j])->0 == y);
        }
    }
    best
}

// ---------------------------------------------------------------------------
// The passport
// ---------------------------------------------------------------------------

/// The identifier of the one-step procedure (no TAN).
pub const ONESTEP_TAN_METHOD_ID: &'static str = "999";

/// The user's and the bank's data that a passport keeps.
#[derive(Debug)]
pub struct PinTanPassportData {
    pub country: String,
    pub blz: String,
    pub host: Option<String>,
    pub user_id: String,
    pub customer_id: Option<String>,
    pub filter: Option<String>,
    pub tan_method: Option<String>,
    pub tan_media: Option<String>,
    pub tan_media_names: Vec<String>,
    pub tan_segment_version: Option<String>,
    pub bpd_version: Option<String>,
    pub upd_version: Option<String>,
    pub bank_name: Option<String>,
    pub max_gv_per_message: Option<u32>,
    pub max_message_size_kb: Option<u32>,
    pub supported_languages: Vec<String>,
    pub supported_hbci_versions: Vec<String>,
    pub upd_usage: Option<String>,
    pub user_name: Option<String>,
    pub accounts: Vec<Konto>,
    pub bpd_parameters: Properties,
    pub twostep_mechanisms: StrMap<Properties>,
    pub allowed_twostep_mechanisms: Vec<String>,
}

impl Default for PinTanPassportData {
    /// Data without any values.
    fn default() -> (d: Self)
        ensures
            d.country@.len() == 0 && d.blz@.len() == 0 && d.user_id@.len() == 0,
            d.host is None && d.customer_id is None && d.filter is None && d.tan_method is None,
            d.tan_media is None && d.tan_media_names@.len() == 0 && d.tan_segment_version is None,
            d.bpd_version is None && d.upd_version is None && d.bank_name is None,
            d.max_gv_per_message is None && d.max_message_size_kb is None,
            d.supported_languages@.len() == 0 && d.supported_hbci_versions@.len() == 0,
            d.upd_usage is None && d.user_name is None && d.accounts@.len() == 0,
            d.bpd_parameters@ == Map::<Seq<char>, String>::empty(),
            d.twostep_mechanisms@ == Map::<Seq<char>, Properties>::empty(),
            d.allowed_twostep_mechanisms@.len() == 0,
    {
        PinTanPassportData {
            country: String::new(),
            blz: String::new(),
            host: None,
            user_id: String::new(),
            customer_id: None,
            filter: None,
            tan_method: None,
            tan_media: None,
            tan_media_names: Vec::new(),
            tan_segment_version: None,
            bpd_version: None,
            upd_version: None,
            bank_name: None,
            max_gv_per_message: None,
            max_message_size_kb: None,
            supported_languages: Vec::new(),
            supported_hbci_versions: Vec::new(),
            upd_usage: None,
            user_name: None,
            accounts: Vec::new(),
            bpd_parameters: StrMap::new(),
            twostep_mechanisms: StrMap::new(),
            allowed_twostep_mechanisms: Vec::new(),
        }
    }
}

/// The state of a strong customer authentication in progress.
#[derive(Debug, Clone)]
pub struct PinTanScaState {
    pub challenge: Option<String>,
    pub hhd_uc: Option<String>,
    pub order_ref: Option<String>,
    pub sca_exempted: bool,
}

impl Default for PinTanScaState {
    fn default() -> (s: Self)
        ensures
            s.challenge is None && s.hhd_uc is None && s.order_ref is None && !s.sca_exempted,
    {
        PinTanScaState { challenge: None, hhd_uc: None, order_ref: None, sca_exempted: false }
    }
}

/// What a response said about the authentication.
#[derive(Debug, Clone, Copy, PartialEq, Eq, Structural)]
pub struct PinTanScaUpdate {
    pub hitan_found: bool,
    pub sca_exempted: bool,
}

impl Default for PinTanScaUpdate {
    fn default() -> (u: Self)
        ensures
            !u.hitan_found && !u.sca_exempted,
    {
        PinTanScaUpdate { hitan_found: false, sca_exempted: false }
    }
}

/// A TAN procedure to choose from.
#[derive(Debug, Clone)]
pub struct TanMethodOption {
    pub id: String,
    pub name: Option<String>,
}

/// What choosing a TAN procedure came to.
#[derive(Debug, Clone)]
pub enum TanMethodSelection {
    Selected(String),
    OneStepFallback,
    NeedsUserSelection(Vec<TanMethodOption>),
}

/// A PIN/TAN passport: the data, the authentication state and the PIN.
#[derive(Debug)]
pub struct PinTanPassport {
    data: PinTanPassportData,
    sca: PinTanScaState,
    pin: Option<String>,
}

/// The TAN procedure in use, where one is set.
pub open spec fn current_method(d: PinTanPassportData) -> Option<Seq<char>> {
    if filled(d.tan_method) {
        opt_view(d.tan_method)
    } else {
        None
    }
}

/// The parameters of the TAN procedure in use, where the bank offers it.
pub open spec fn current_mechanism(d: PinTanPassportData) -> Option<Map<Seq<char>, Seq<char>>> {
    match current_method(d) {
        Some(m) => if props_views(d.twostep_mechanisms@).contains_key(m) {
            Some(props_views(d.twostep_mechanisms@)[m])
        } else {
            None
        },
        None => None,
    }
}

/// The TAN segment version: of the procedure in use, else the one stored,
/// else 5.
pub open spec fn segment_version(d: PinTanPassportData) -> Seq<char> {
    match current_mechanism(d) {
        Some(mm) => if mm.contains_key("segversion"@) {
            mm["segversion"@]
        } else {
            match opt_view(d.tan_segment_version) {
                Some(v) => v,
                None => "5"@,
            }
        },
        None => match opt_view(d.tan_segment_version) {
            Some(v) => v,
            None => "5"@,
        },
    }
}

fn opt_as_str(o: &Option<String>) -> (r: Option<&str>)
    ensures
        crate::tools::opt_str_view(r) == opt_view(*o),
{
    match o {
        Some(s) => Some(s.as_str()),
        None => None,
    }
}

impl PinTanPassport {
    pub closed spec fn data_spec(&self) -> PinTanPassportData {
        self.data
    }

    pub closed spec fn sca_spec(&self) -> PinTanScaState {
        self.sca
    }

    pub closed spec fn pin_spec(&self) -> Option<String> {
        self.pin
    }

    /// A passport for the data; the TAN procedures are taken from the bank
    /// parameters where none are given.
    pub fn new(data: PinTanPassportData) -> (p: Self)
        ensures
            (data.twostep_mechanisms.size() == 0 && data.bpd_parameters.size() > 0) ==> (props_views(
                p.data_spec().twostep_mechanisms@,
            ) == mechanisms_of(
                data.bpd_parameters.keys_view(),
                text_vals(data.bpd_parameters.vals_view()),
                data.bpd_parameters.keys_view(),
                text_vals(data.bpd_parameters.vals_view()),
            ) && p.data_spec() == (PinTanPassportData {
                twostep_mechanisms: p.data_spec().twostep_mechanisms,
                ..data
            })),
            !(data.twostep_mechanisms.size() == 0 && data.bpd_parameters.size() > 0) ==> p.data_spec() == data,
            p.sca_spec().challenge is None && p.sca_spec().hhd_uc is None && p.sca_spec().order_ref is None
                && !p.sca_spec().sca_exempted,
            p.pin_spec() is None,
    {
        let mut data = data;
        if data.twostep_mechanisms.is_empty() && !data.bpd_parameters.is_empty() {
            data.twostep_mechanisms = extract_twostep_mechanisms(&data.bpd_parameters);
        }
        PinTanPassport { data, sca: PinTanScaState::default(), pin: None }
    }

    pub fn data(&self) -> (r: &PinTanPassportData)
        ensures
            *r == self.data_spec(),
    {
        &self.data
    }

    pub fn data_mut(&mut self) -> (r: &mut PinTanPassportData)
        ensures
            *r == old(self).data_spec(),
            final(self).data_spec() == *final(r),
            final(self).sca_spec() == old(self).sca_spec(),
            final(self).pin_spec() == old(self).pin_spec(),
    {
        &mut self.data
    }

    pub fn sca_state(&self) -> (r: &PinTanScaState)
        ensures
            *r == self.sca_spec(),
    {
        &self.sca
    }

    /// Forgets the authentication in progress.
    pub fn clear_sca_state(&mut self)
        ensures
            final(self).data_spec() == old(self).data_spec(),
            final(self).pin_spec() == old(self).pin_spec(),
            final(self).sca_spec().challenge is None && final(self).sca_spec().hhd_uc is None
                && final(self).sca_spec().order_ref is None && !final(self).sca_spec().sca_exempted,
    {
        self.sca = PinTanScaState::default();
    }

    pub fn pin(&self) -> (r: Option<&str>)
        ensures
            crate::tools::opt_str_view(r) == opt_view(self.pin_spec()),
    {
        opt_as_str(&self.pin)
    }

    pub fn set_pin(&mut self, pin: &str)
        ensures
            opt_view(final(self).pin_spec()) == Some(pin@),
            final(self).data_spec() == old(self).data_spec(),
            final(self).sca_spec() == old(self).sca_spec(),
    {
        self.pin = Some(pin.to_string());
    }

    pub fn clear_pin(&mut self)
        ensures
            final(self).pin_spec() is None,
            final(self).data_spec() == old(self).data_spec(),
            final(self).sca_spec() == old(self).sca_spec(),
    {
        self.pin = None;
    }

    pub fn host(&self) -> (r: Option<&str>)
        ensures
            crate::tools::opt_str_view(r) == opt_view(self.data_spec().host),
    {
        opt_as_str(&self.data.host)
    }

    /// The version of the bank parameters, `0` when there are none.
    pub fn bpd_version(&self) -> (r: &str)
        ensures
            r@ == match opt_view(self.data_spec().bpd_version) {
                Some(v) => v,
                None => "0"@,
            },
    {
        match &self.data.bpd_version {
            Some(v) => v.as_str(),
            None => "0",
        }
    }

    /// The version of the user parameters, `0` when there are none.
    pub fn upd_version(&self) -> (r: &str)
        ensures
            r@ == match opt_view(self.data_spec().upd_version) {
                Some(v) => v,
                None => "0"@,
            },
    {
        match &self.data.upd_version {
            Some(v) => v.as_str(),
            None => "0",
        }
    }

    pub fn bank_name(&self) -> (r: Option<&str>)
        ensures
            crate::tools::opt_str_view(r) == opt_view(self.data_spec().bank_name),
    {
        opt_as_str(&self.data.bank_name)
    }

    pub fn max_gv_per_message(&self) -> (r: Option<u32>)
        ensures
            r == self.data_spec().max_gv_per_message,
    {
        self.data.max_gv_per_message
    }

    pub fn max_message_size_kb(&self) -> (r: Option<u32>)
        ensures
            r == self.data_spec().max_message_size_kb,
    {
        self.data.max_message_size_kb
    }

    pub fn supported_languages(&self) -> (r: &[String])
        ensures
            r@ == self.data_spec().supported_languages@,
    {
        self.data.supported_languages.as_slice()
    }

    pub fn supported_hbci_versions(&self) -> (r: &[String])
        ensures
            r@ == self.data_spec().supported_hbci_versions@,
    {
        self.data.supported_hbci_versions.as_slice()
    }

    pub fn upd_usage(&self) -> (r: Option<&str>)
        ensures
            crate::tools::opt_str_view(r) == opt_view(self.data_spec().upd_usage),
    {
        opt_as_str(&self.data.upd_usage)
    }

    pub fn tan_media(&self) -> (r: Option<&str>)
        ensures
            crate::tools::opt_str_view(r) == opt_view(self.data_spec().tan_media),
    {
        opt_as_str(&self.data.tan_media)
    }

    pub fn set_tan_media(&mut self, tan_media: &str)
        ensures
            opt_view(final(self).data_spec().tan_media) == Some(tan_media@),
            final(self).data_spec() == (PinTanPassportData { tan_media: final(self).data_spec().tan_media, ..old(self).data_spec() }),
            final(self).sca_spec() == old(self).sca_spec(),
            final(self).pin_spec() == old(self).pin_spec(),
    {
        self.data.tan_media = Some(tan_media.to_string());
    }

    pub fn tan_media_names(&self) -> (r: &[String])
        ensures
            r@ == self.data_spec().tan_media_names@,
    {
        self.data.tan_media_names.as_slice()
    }

    /// The names of the TAN media, joined with `|`.
    pub fn tan_media_names_value(&self) -> (r: String)
        ensures
            r@ == crate::text::join(views(self.data_spec().tan_media_names@), seq!['|']),
    {
        let names = &self.data.tan_media_names;
        let mut r = String::new();
        let mut i: usize = 0;
        while i < names.len()
            invariant
                i <= names@.len(),
                r@ == crate::text::join(views(names@.take(i as int)), seq!['|']),
            decreases names.len() - i,
        {
            assert(views(names@.take(i + 1)).drop_last() =~= views(names@.take(i as int)));
            if i > 0 {
                crate::text::push_char(&mut r, '|');
            }
            crate::text::append(&mut r, names[i].as_str());
            assert(views(names@.take(i + 1)).last() == names@[i as int]@);
            i += 1;
        }
        assert(names@.take(i as int) =~= names@);
        r
    }

    pub fn bpd_parameters(&self) -> (r: &Properties)
        ensures
            r == &self.data_spec().bpd_parameters,
    {
        &self.data.bpd_parameters
    }

    pub fn twostep_mechanisms(&self) -> (r: &StrMap<Properties>)
        ensures
            r == &self.data_spec().twostep_mechanisms,
    {
        &self.data.twostep_mechanisms
    }

    pub fn allowed_twostep_mechanisms(&self) -> (r: &[String])
        ensures
            r@ == self.data_spec().allowed_twostep_mechanisms@,
    {
        self.data.allowed_twostep_mechanisms.as_slice()
    }

    /// The TAN procedure in use, where one is set.
    pub fn current_tan_method(&self) -> (r: Option<&str>)
        ensures
            crate::tools::opt_str_view(r) == current_method(self.data_spec()),
    {
        match &self.data.tan_method {
            Some(m) => {
                if m.as_str().unicode_len() > 0 {
                    Some(m.as_str())
                } else {
                    None
                }
            },
            None => None,
        }
    }

    pub fn set_current_tan_method(&mut self, method: &str)
        ensures
            opt_view(final(self).data_spec().tan_method) == Some(method@),
            final(self).data_spec() == (PinTanPassportData { tan_method: final(self).data_spec().tan_method, ..old(self).data_spec() }),
            final(self).sca_spec() == old(self).sca_spec(),
            final(self).pin_spec() == old(self).pin_spec(),
    {
        self.data.tan_method = Some(method.to_string());
    }

    fn current_twostep_mechanism(&self) -> (r: Option<&Properties>)
        ensures
            match current_mechanism(self.data_spec()) {
                Some(mm) => r matches Some(p) && text_view(p@) == mm,
                None => r is None,
            },
    {
        match self.current_tan_method() {
            None => None,
            Some(m) => {
                let r = self.data.twostep_mechanisms.get(m);
                proof {
                    if r is Some {
                        assert(props_views(self.data.twostep_mechanisms@)[m@] == text_view(r->0@));
                    }
                }
                r
            },
        }
    }

    /// The TAN segment version: of the procedure in use, else the one
    /// stored, else `5`.
    pub fn tan_segment_version(&self) -> (r: &str)
        ensures
            r@ == segment_version(self.data_spec()),
    {
        match self.current_twostep_mechanism() {
            Some(mm) => match mm.get("segversion") {
                Some(v) => {
                    return v.as_str();
                },
                None => {},
            },
            None => {},
        }
        match &self.data.tan_segment_version {
            Some(v) => v.as_str(),
            None => "5",
        }
    }

    /// Whether only the jobs of the bank parameters may be used.
    pub fn only_bpd_gvs(&self) -> (b: bool)
        ensures
            b == (opt_view(self.data_spec().upd_usage) == Some("0"@)),
    {
        match &self.data.upd_usage {
            Some(u) => crate::text::str_eq(u.as_str(), "0"),
            None => false,
        }
    }

    pub fn user_name(&self) -> (r: Option<&str>)
        ensures
            crate::tools::opt_str_view(r) == opt_view(self.data_spec().user_name),
    {
        opt_as_str(&self.data.user_name)
    }

    /// The customer id, else the user id.
    pub fn customer_id(&self) -> (r: &str)
        ensures
            r@ == if filled(self.data_spec().customer_id) {
                opt_view(self.data_spec().customer_id)->0
            } else {
                self.data_spec().user_id@
            },
    {
        match &self.data.customer_id {
            Some(c) => {
                if c.as_str().unicode_len() > 0 {
                    return c.as_str();
                }
            },
            None => {},
        }
        self.data.user_id.as_str()
    }

    pub fn accounts(&self) -> (r: &[Konto])
        ensures
            r@ == self.data_spec().accounts@,
    {
        self.data.accounts.as_slice()
    }

    pub fn first_account(&self) -> (r: Option<&Konto>)
        ensures
            self.data_spec().accounts@.len() == 0 ==> r is None,
            self.data_spec().accounts@.len() > 0 ==> r == Some(&self.data_spec().accounts@[0]),
    {
        if self.data.accounts.len() == 0 {
            None
        } else {
            Some(&self.data.accounts[0])
        }
    }

    /// Whether the bank allows the one-step procedure: always without bank
    /// parameters, else where a `can1step` parameter says `J`.
    pub fn one_step_allowed(&self) -> (b: bool)
        ensures
            b == one_step_ok(self.data_spec()),
    {
        if self.data.bpd_parameters.is_empty() {
            return true;
        }
        let q = ParameterQuery::BPD_PINTAN_CAN1STEP();
        match ParameterFinder::find_all_query(&self.data.bpd_parameters, &q) {
            Err(_) => false,
            Ok(found) => {
                proof {
                    reveal_strlit("Params*.TAN2StepPar*.ParTAN2Step*.can1step");
                }
                found.check_well_formed();
                let n = found.len();
                let mut i: usize = 0;
                while i < n
                    invariant
                        n == found.size(),
                        found.well_formed(),
                        found@ == restrict_path(self.data.bpd_parameters@, "Params*.TAN2StepPar*.ParTAN2Step*.can1step"@),
                        i <= n,
                        forall|j: int| 0 <= j < i ==> found.vals_view()[j]@ != "J"@,
                    decreases n - i,
                {
                    if crate::text::str_eq(found.value_at(i).as_str(), "J") {
                        proof {
                            crate::strmap::lemma_entry(&found, i as int);
                        }
                        return true;
                    }
                    i += 1;
                }
                proof {
                    if one_step_ok(self.data) {
                        let k = choose|k: Seq<char>| found@.contains_key(k) && found@[k]@ == "J"@;
                        crate::strmap::lemma_map_of_len(found.keys_view(), found.vals_view());
                        assert(found.keys_view().to_set().contains(k));
                        let j = found.keys_view().index_of(k);
                        crate::strmap::lemma_entry(&found, j);
                    }
                }
                false
            },
        }
    }

    fn option_at(&self, i: usize) -> (o: TanMethodOption)
        requires
            i < self.data_spec().twostep_mechanisms.size(),
        ensures
            option_view(o) == mechanism_option(self.data_spec(), i as int),
    {
        let m = &self.data.twostep_mechanisms;
        m.check_well_formed();
        let id = m.key_at(i).clone();
        let mech = m.value_at(i);
        proof {
            crate::strmap::lemma_entry(m, i as int);
        }
        TanMethodOption { id, name: optional_value(mech, "name") }
    }

    fn bank_twostep_options(&self) -> (r: Vec<TanMethodOption>)
        ensures
            option_views(r@) == bank_options(self.data_spec()),
    {
        let n = self.data.twostep_mechanisms.len();
        let mut r: Vec<TanMethodOption> = Vec::new();
        let mut i: usize = 0;
        while i < n
            invariant
                n == self.data.twostep_mechanisms.size(),
                i <= n,
                option_views(r@) == bank_options(self.data).take(i as int),
            decreases n - i,
        {
            let o = self.option_at(i);
            let ghost before = option_views(r@);
            let ghost ov = option_view(o);
            r.push(o);
            assert(option_views(r@) =~= before.push(ov));
            assert(bank_options(self.data).take(i + 1) =~= bank_options(self.data).take(i as int).push(ov));
            i += 1;
        }
        assert(bank_options(self.data).take(n as int) =~= bank_options(self.data));
        r
    }

    fn allowed_twostep_options(&self) -> (r: Vec<TanMethodOption>)
        ensures
            option_views(r@) == allowed_options(self.data_spec()),
    {
        let n = self.data.twostep_mechanisms.len();
        let mut r: Vec<TanMethodOption> = Vec::new();
        let mut i: usize = 0;
        while i < n
            invariant
                n == self.data.twostep_mechanisms.size(),
                i <= n,
                option_views(r@) == allowed_options_upto(self.data, i as int),
            decreases n - i,
        {
            let allowed = contains_string(&self.data.allowed_twostep_mechanisms, self.data.twostep_mechanisms.key_at(i).as_str());
            if allowed {
                let o = self.option_at(i);
                r.push(o);
            }
            assert(option_views(r@) =~= allowed_options_upto(self.data, i + 1));
            i += 1;
        }
        r
    }

    /// The identifiers of the bank's TAN procedures, ascending.
    pub fn bank_twostep_mechanism_ids(&self) -> (r: Vec<String>)
        ensures
            views(r@) == self.data_spec().twostep_mechanisms.keys_view(),
    {
        let m = &self.data.twostep_mechanisms;
        let n = m.len();
        let mut r: Vec<String> = Vec::new();
        let mut i: usize = 0;
        while i < n
            invariant
                n == m.size(),
                i <= n,
                views(r@) == m.keys_view().take(i as int),
            decreases n - i,
        {
            let ghost before = views(r@);
            let k = m.key_at(i).clone();
            let ghost kv = k@;
            r.push(k);
            assert(views(r@) =~= before.push(kv));
            assert(m.keys_view().take(i + 1) =~= m.keys_view().take(i as int).push(kv));
            i += 1;
        }
        assert(m.keys_view().take(n as int) =~= m.keys_view());
        r
    }

    /// The identifiers of the bank's TAN procedures that the user may use,
    /// ascending.
    pub fn allowed_bank_twostep_mechanism_ids(&self) -> (r: Vec<String>)
        ensures
            views(r@) == allowed_ids(self.data_spec(), self.data_spec().twostep_mechanisms.size() as int),
    {
        let m = &self.data.twostep_mechanisms;
        let n = m.len();
        let mut r: Vec<String> = Vec::new();
        let mut i: usize = 0;
        while i < n
            invariant
                n == m.size(),
                i <= n,
                views(r@) == allowed_ids(self.data, i as int),
                *m == self.data.twostep_mechanisms,
            decreases n - i,
        {
            let ghost before = views(r@);
            let key = m.key_at(i);
            let c = contains_string(&self.data.allowed_twostep_mechanisms, key.as_str());
            assert(key@ == self.data.twostep_mechanisms.keys_view()[i as int]);
            if c {
                let k = key.clone();
                let ghost kv = k@;
                r.push(k);
                assert(views(r@) =~= before.push(kv));
                assert(allowed_ids(self.data, i + 1) == allowed_ids(self.data, i as int).push(kv));
            } else {
                assert(allowed_ids(self.data, i + 1) == allowed_ids(self.data, i as int));
            }
            i += 1;
        }
        r
    }

    /// Chooses the TAN procedure: one-step where nothing is allowed and the
    /// bank permits it; the only allowed procedure (which is then kept); the
    /// one in use where it is allowed; else the user has to choose.
    pub fn determine_tan_method(&mut self) -> (r: TanMethodSelection)
        ensures
            selection_view(r) == determined(old(self).data_spec()),
            final(self).sca_spec() == old(self).sca_spec(),
            final(self).pin_spec() == old(self).pin_spec(),
            allowed_options(old(self).data_spec()).len() == 1 && !(old(self).data_spec().allowed_twostep_mechanisms@.len() == 0 && one_step_ok(old(self).data_spec()))
                ==> opt_view(final(self).data_spec().tan_method) == Some(allowed_options(old(self).data_spec())[0].0)
                && final(self).data_spec() == (PinTanPassportData { tan_method: final(self).data_spec().tan_method, ..old(self).data_spec() }),
            !(allowed_options(old(self).data_spec()).len() == 1 && !(old(self).data_spec().allowed_twostep_mechanisms@.len() == 0 && one_step_ok(old(self).data_spec())))
                ==> final(self).data_spec() == old(self).data_spec(),
    {
        let one_step = self.one_step_allowed();
        if self.data.allowed_twostep_mechanisms.len() == 0 && one_step {
            return TanMethodSelection::OneStepFallback;
        }
        let user_options = self.allowed_twostep_options();
        let bank_options = self.bank_twostep_options();
        if user_options.len() == 0 {
            if one_step || bank_options.len() == 0 {
                return TanMethodSelection::OneStepFallback;
            }
            return TanMethodSelection::NeedsUserSelection(bank_options);
        }
        if user_options.len() == 1 {
            let selected = user_options[0].id.clone();
            self.data.tan_method = Some(selected.clone());
            return TanMethodSelection::Selected(selected);
        }
        match self.current_tan_method() {
            Some(current) => {
                if has_option_id(&user_options, current) {
                    return TanMethodSelection::Selected(current.to_string());
                }
            },
            None => {},
        }
        TanMethodSelection::NeedsUserSelection(user_options)
    }

    /// A parameter of the TAN procedure in use, else of the bank parameters
    /// for the current segment version.
    pub fn tan2step_parameter(&self, name: &str) -> (r: Option<String>)
        ensures
            opt_view(r) == tan2step_param(self.data_spec(), name@),
    {
        match self.current_twostep_mechanism() {
            Some(mm) => match optional_value(mm, name) {
                Some(v) => {
                    return Some(v);
                },
                None => {},
            },
            None => {},
        }
        let mut path = "Params*.TAN2StepPar".to_string();
        crate::text::append(&mut path, self.tan_segment_version());
        crate::text::append(&mut path, ".ParTAN2Step*.");
        crate::text::append(&mut path, name);
        ParameterFinder::get_value(&self.data.bpd_parameters, Some(path.as_str()), None)
    }

    /// The order hash mode of the TAN procedure in use, else of the bank
    /// parameters for the current segment version.
    pub fn order_hash_mode_code(&self) -> (r: Option<String>)
        ensures
            opt_view(r) == order_hash_code(self.data_spec()),
    {
        match self.current_twostep_mechanism() {
            Some(mm) => match optional_value(mm, "orderhashmode") {
                Some(v) => {
                    return Some(v);
                },
                None => {},
            },
            None => {},
        }
        let sv = self.tan_segment_version();
        let params: [&str; 1] = [sv];
        let q = ParameterQuery::BPD_PINTAN_ORDERHASHMODE().with_parameters(&params);
        assert(crate::tools::str_views(params@) =~= seq![segment_version(self.data)]);
        match ParameterFinder::get_value_query(&self.data.bpd_parameters, &q, None) {
            Ok(v) => v,
            Err(_) => None,
        }
    }

    /// The parameters of the TAN procedure in use: those the bank gives for
    /// it with segment version and security function, or else the ones found
    /// in the bank parameters.
    pub fn current_secmech_info(&self) -> (r: Properties)
        ensures
            text_view(r@) == secmech_info(self.data_spec()),
    {
        match self.current_twostep_mechanism() {
            Some(mm) => {
                let mut info = mm.copy();
                if !info.contains_key("segversion") {
                    let v = match &self.data.tan_segment_version {
                        Some(v) => v.clone(),
                        None => "5".to_string(),
                    };
                    let ghost i0 = info@;
                    let ghost vg = v;
                    info.insert("segversion".to_string(), v);
                    proof {
                        assert(text_view(i0.insert("segversion"@, vg)) =~= text_view(i0).insert("segversion"@, vg@));
                    }
                }
                let t = self.current_tan_method().unwrap();
                let ghost i1 = info@;
                let tv = t.to_string();
                let ghost tg = tv;
                info.insert("secfunc".to_string(), tv);
                proof {
                    assert(text_view(i1.insert("secfunc"@, tg)) =~= text_view(i1).insert("secfunc"@, tg@));
                }
                info
            },
            None => {
                let mut info = Properties::new();
                let sv = self.tan_segment_version().to_string();
                let ghost svg = sv;
                info.insert("segversion".to_string(), sv);
                assert(text_view(info@) =~= map!["segversion"@ => svg@]);
                match self.current_tan_method() {
                    Some(t) => {
                        let ghost i1 = info@;
                        let tv = t.to_string();
                        let ghost tg = tv;
                        info.insert("secfunc".to_string(), tv);
                        proof {
                            assert(text_view(i1.insert("secfunc"@, tg)) =~= text_view(i1).insert("secfunc"@, tg@));
                        }
                    },
                    None => {},
                }
                let names: [&str; 7] = [
                    "id",
                    "needchallengeklass",
                    "needorderaccount",
                    "orderhashmode",
                    "process",
                    "zkamethod_name",
                    "zkamethod_version",
                ];
                let ghost base = text_view(info@);
                assert(crate::tools::str_views(names@) =~= secmech_param_names());
                let mut i: usize = 0;
                assert(secmech_param_names().take(0) =~= seq![]);
                while i < 7
                    invariant
                        i <= 7,
                        crate::tools::str_views(names@) == secmech_param_names(),
                        current_mechanism(self.data) is None,
                        text_view(info@) == with_lookups(base, self.data, secmech_param_names().take(i as int)),
                    decreases 7 - i,
                {
                    assert(secmech_param_names().take(i + 1).drop_last() =~= secmech_param_names().take(i as int));
                    assert(names@[i as int]@ == secmech_param_names()[i as int]);
                    match self.tan2step_parameter(names[i]) {
                        Some(v) => {
                            let ghost i1 = info@;
                            let ghost vg = v;
                            info.insert(names[i].to_string(), v);
                            proof {
                                assert(text_view(i1.insert(names@[i as int]@, vg)) =~= text_view(i1).insert(names@[i as int]@, vg@));
                            }
                        },
                        None => {},
                    }
                    i += 1;
                }
                assert(secmech_param_names().take(7) =~= secmech_param_names());
                info
            },
        }
    }

    /// Whether the TAN request has to name a TAN medium: from segment
    /// version 3 on, where the procedure says so.
    pub fn tan_media_required(&self) -> (b: bool)
        ensures
            b == media_required(self.data_spec()),
    {
        let version: u32 = match parse_u32_with_kind(self.tan_segment_version()) {
            Ok(v) => v,
            Err(_) => 0,
        };
        if version < 3 {
            return false;
        }
        let info = self.current_secmech_info();
        match info.get("needtanmedia") {
            Some(v) => crate::text::str_eq(v.as_str(), "2"),
            None => false,
        }
    }

    /// The TAN medium to send without asking the user: the one set, else
    /// `noref` where a medium is required.
    pub fn tan_media_for_hktan_without_callback(&self) -> (r: Option<String>)
        ensures
            opt_view(r) == if filled(self.data_spec().tan_media) {
                opt_view(self.data_spec().tan_media)
            } else if media_required(self.data_spec()) {
                Some("noref"@)
            } else {
                None
            },
    {
        match &self.data.tan_media {
            Some(m) => {
                if m.as_str().unicode_len() > 0 {
                    return Some(m.clone());
                }
            },
            None => {},
        }
        if self.tan_media_required() {
            return Some("noref".to_string());
        }
        None
    }

    /// Takes the challenge, HHDUC data and order reference of the first TAN
    /// response in a bank message; a 3076 return value (no strong
    /// authentication needed) clears the state instead.
    pub fn update_sca_state_from_response_values(
        &mut self,
        values: &Properties,
        message_prefix: &str,
        status: &HbciMsgStatus,
    ) -> (r: PinTanScaUpdate)
        ensures
            final(self).data_spec() == old(self).data_spec(),
            final(self).pin_spec() == old(self).pin_spec(),
            sca_exempt(*status) ==> r == (PinTanScaUpdate { hitan_found: false, sca_exempted: true }) && final(self).sca_spec().challenge is None
                && final(self).sca_spec().hhd_uc is None && final(self).sca_spec().order_ref is None && final(self).sca_spec().sca_exempted,
            !sca_exempt(*status) ==> match min_response_root(text_view(values@), message_prefix@) {
                None => r == (PinTanScaUpdate { hitan_found: false, sca_exempted: false }) && final(self).sca_spec() == old(self).sca_spec(),
                Some(root) => r == (PinTanScaUpdate { hitan_found: true, sca_exempted: false }) && sca_after(
                    final(self).sca_spec(),
                    old(self).sca_spec(),
                    text_view(values@),
                    root,
                ),
            },
    {
        if status.return_value_for_code(KnownReturncode::W3076).is_some() {
            self.sca = PinTanScaState { challenge: None, hhd_uc: None, order_ref: None, sca_exempted: true };
            return PinTanScaUpdate { hitan_found: false, sca_exempted: true };
        }
        let root = match first_tan2step_root(values, message_prefix) {
            None => {
                proof {
                    lemma_min_root_none(text_view(values@), message_prefix@);
                }
                return PinTanScaUpdate { hitan_found: false, sca_exempted: false };
            },
            Some(root) => root,
        };
        proof {
            lemma_min_root(text_view(values@), message_prefix@, root@);
        }
        self.sca.sca_exempted = false;
        match optional_value(values, concat(root.as_str(), ".challenge").as_str()) {
            Some(c) => {
                if !crate::text::str_eq(c.as_str(), "nochallenge") {
                    self.sca.challenge = Some(c);
                }
            },
            None => {},
        }
        match optional_value(values, concat(root.as_str(), ".challenge_hhd_uc").as_str()) {
            Some(h) => {
                self.sca.hhd_uc = Some(h);
            },
            None => {},
        }
        match optional_value(values, concat(root.as_str(), ".orderref").as_str()) {
            Some(o) => {
                self.sca.order_ref = Some(o);
            },
            None => {},
        }
        PinTanScaUpdate { hitan_found: true, sca_exempted: false }
    }

    /// Completes `account` from the first of the passport's accounts that is
    /// the same account, by number (and subnumber) or by IBAN, leading zeros
    /// aside.
    pub fn fill_account_info(&self, account: &mut Konto)
        ensures
            match first_matching(self.data_spec().accounts@, *old(account)) {
                Some(j) => filled_from(*final(account), *old(account), self.data_spec().accounts@[j]),
                None => *final(account) == *old(account),
            },
    {
        match first_matching_index(self.data.accounts.as_slice(), account) {
            Some(j) => fill_from_account(account, &self.data.accounts[j]),
            None => {},
        }
    }

    /// Replaces the accounts by those of the user parameters under `prefix`,
    /// keeping IBAN and BIC of the same previous accounts where the new ones
    /// lack them; nothing changes where there are none. Gives their number.
    pub fn update_accounts_from_values(&mut self, values: &Properties, prefix: &str) -> (r: usize)
        ensures
            final(self).sca_spec() == old(self).sca_spec(),
            final(self).pin_spec() == old(self).pin_spec(),
            exists|fresh: Seq<Konto>| {
                &&& accounts_rel(fresh, text_view(values@), prefix@ + ".KInfo"@, counted_len(text_view(values@), prefix@ + ".KInfo"@))
                &&& r == fresh.len()
                &&& if fresh.len() == 0 {
                    final(self).data_spec() == old(self).data_spec()
                } else {
                    &&& final(self).data_spec() == (PinTanPassportData { accounts: final(self).data_spec().accounts, ..old(self).data_spec() })
                    &&& final(self).data_spec().accounts@.len() == fresh.len()
                    &&& forall|i: int| 0 <= i < fresh.len() ==> sepa_preserved(#[trigger] final(self).data_spec().accounts@[i], fresh[i], old(self).data_spec().accounts@)
                }
            },
    {
        let mut accounts = accounts_from_values(values, prefix);
        let ghost fresh = accounts@;
        if accounts.len() == 0 {
            return 0;
        }
        preserve_missing_sepa_fields(&mut accounts, self.data.accounts.as_slice());
        let count = accounts.len();
        self.data.accounts = accounts;
        count
    }

    /// Takes the versions of bank and user parameters from a response.
    /// Gives how many it found.
    pub fn update_parameter_versions_from_values(&mut self, values: &Properties, prefix: &str) -> (r: usize)
        ensures
            final(self).sca_spec() == old(self).sca_spec(),
            final(self).pin_spec() == old(self).pin_spec(),
            versions_updated(final(self).data_spec(), old(self).data_spec(), text_view(values@), prefix@, r as int),
    {
        let mut updated: usize = 0;
        match optional_value(values, concat(prefix, ".BPD.BPA.version").as_str()) {
            Some(v) => {
                self.data.bpd_version = Some(v);
                updated += 1;
            },
            None => {},
        }
        match optional_value(values, concat(prefix, ".UPD.UPA.version").as_str()) {
            Some(v) => {
                self.data.upd_version = Some(v);
                updated += 1;
            },
            None => {},
        }
        updated
    }

    /// Takes the bank's and the user's parameters from a response: bank
    /// name, limits, the bank parameters with their TAN procedures,
    /// languages, HBCI versions, usage, user name and TAN media. Gives how
    /// many items it took.
    pub fn update_parameter_data_from_values(&mut self, values: &Properties, prefix: &str) -> (r: usize)
        ensures
            final(self).sca_spec() == old(self).sca_spec(),
            final(self).pin_spec() == old(self).pin_spec(),
            exists|mid: PinTanPassportData, n: int| #[trigger] versions_updated(mid, old(self).data_spec(), text_view(values@), prefix@, n)
                && parameter_data_updated(final(self).data_spec(), mid, values@, prefix@, r as int - n),
    {
        let first = self.update_parameter_versions_from_values(values, prefix);
        let ghost mid = self.data;
        let bpa = concat(prefix, ".BPD.BPA");
        let n1 = self.take_bank_group(values, bpa.as_str());
        let ghost a = self.data;
        let n2 = self.take_bpd_group(values, prefix);
        let ghost b = self.data;
        let n3 = self.take_list_group(values, bpa.as_str());
        let ghost c = self.data;
        let n4 = self.take_user_group(values, prefix);
        assert(versions_updated(mid, old(self).data, text_view(values@), prefix@, first as int));
        assert(parameter_chain(self.data, mid, values@, prefix@, (n1 + n2 + n3 + n4) as int, a, b, c, n1 as int, n2 as int, n3 as int));
        first + n1 + n2 + n3 + n4
    }

    fn take_bank_group(&mut self, values: &Properties, bpa: &str) -> (r: usize)
        ensures
            r <= 3,
            final(self).sca_spec() == old(self).sca_spec(),
            final(self).pin_spec() == old(self).pin_spec(),
            bank_group(final(self).data_spec(), old(self).data_spec(), text_view(values@), bpa@, r as int),
    {
        let mut updated: usize = 0;
        match optional_value(values, concat(bpa, ".kiname").as_str()) {
            Some(v) => {
                self.data.bank_name = Some(v);
                updated += 1;
            },
            None => {},
        }
        match optional_u32(values, concat(bpa, ".numgva").as_str()) {
            Some(v) => {
                self.data.max_gv_per_message = Some(v);
                updated += 1;
            },
            None => {},
        }
        match optional_u32(values, concat(bpa, ".maxmsgsize").as_str()) {
            Some(v) => {
                self.data.max_message_size_kb = Some(v);
                updated += 1;
            },
            None => {},
        }
        updated
    }

    fn take_bpd_group(&mut self, values: &Properties, prefix: &str) -> (r: usize)
        ensures
            r <= 1,
            final(self).sca_spec() == old(self).sca_spec(),
            final(self).pin_spec() == old(self).pin_spec(),
            bpd_group(final(self).data_spec(), old(self).data_spec(), values@, prefix@, r as int),
    {
        let bpd = crate::protocol::message::strip_key_prefix(values, concat(prefix, ".BPD.").as_str());
        if !bpd.is_empty() {
            self.data.twostep_mechanisms = extract_twostep_mechanisms(&bpd);
            self.data.bpd_parameters = bpd;
            return 1;
        }
        0
    }

    fn take_list_group(&mut self, values: &Properties, bpa: &str) -> (r: usize)
        ensures
            r <= 2,
            final(self).sca_spec() == old(self).sca_spec(),
            final(self).pin_spec() == old(self).pin_spec(),
            list_group(final(self).data_spec(), old(self).data_spec(), text_view(values@), bpa@, r as int),
    {
        let mut updated: usize = 0;
        let langs = counted_values(values, concat(bpa, ".SuppLangs.lang").as_str());
        if langs.len() > 0 {
            self.data.supported_languages = langs;
            updated += 1;
        }
        let versions = counted_values(values, concat(bpa, ".SuppVersions.version").as_str());
        if versions.len() > 0 {
            self.data.supported_hbci_versions = versions;
            updated += 1;
        }
        updated
    }

    fn take_user_group(&mut self, values: &Properties, prefix: &str) -> (r: usize)
        ensures
            r <= 3,
            final(self).sca_spec() == old(self).sca_spec(),
            final(self).pin_spec() == old(self).pin_spec(),
            user_group(final(self).data_spec(), old(self).data_spec(), text_view(values@), prefix@, r as int),
    {
        let mut updated: usize = 0;
        let upa = concat(prefix, ".UPD.UPA");
        match optional_value(values, concat(upa.as_str(), ".usage").as_str()) {
            Some(v) => {
                self.data.upd_usage = Some(v);
                updated += 1;
            },
            None => {},
        }
        match optional_value(values, concat(upa.as_str(), ".username").as_str()) {
            Some(v) => {
                self.data.user_name = Some(v);
                updated += 1;
            },
            None => {},
        }
        match optional_value(values, concat(prefix, ".UPD.tanmedia.names").as_str()) {
            Some(v) => {
                self.data.tan_media_names = split_pipe_values(v.as_str());
                updated += 1;
            },
            None => {},
        }
        updated
    }

    /// Takes the TAN procedures that a 3920 return value allows, sorted and
    /// without repetitions, where there are any and they differ from those
    /// known. Gives their number, zero where nothing changed.
    pub fn update_allowed_twostep_mechanisms_from_status(&mut self, status: &HbciMsgStatus) -> (r: usize)
        ensures
            final(self).sca_spec() == old(self).sca_spec(),
            final(self).pin_spec() == old(self).pin_spec(),
            ({
                let ks = sorted_params(*status);
                if ks.len() == 0 || ks == views(old(self).data_spec().allowed_twostep_mechanisms@) {
                    r == 0 && final(self).data_spec() == old(self).data_spec()
                } else {
                    &&& r == ks.len()
                    &&& views(final(self).data_spec().allowed_twostep_mechanisms@) == ks
                    &&& final(self).data_spec() == (PinTanPassportData {
                        allowed_twostep_mechanisms: final(self).data_spec().allowed_twostep_mechanisms,
                        ..old(self).data_spec()
                    })
                }
            }),
    {
        let rvs = status.return_values_for_code(KnownReturncode::W3920);
        let ghost all = crate::gv_result::status::derefs(rvs@);
        let mut set: StrMap<bool> = StrMap::new();
        let mut i: usize = 0;
        while i < rvs.len()
            invariant
                i <= rvs@.len(),
                all == crate::gv_result::status::derefs(rvs@),
                all == w3920_values(*status),
                forall|k: Seq<char>| set@.contains_key(k) <==> params_upto(all, i as int, 0).contains(k),
                forall|k: Seq<char>| set@.contains_key(k) ==> set@[k],
            decreases rvs.len() - i,
        {
            let ps = &rvs[i].params;
            let mut j: usize = 0;
            while j < ps.len()
                invariant
                    i < rvs@.len(),
                    j <= ps@.len(),
                    *ps == all[i as int].params,
                    all == crate::gv_result::status::derefs(rvs@),
                    forall|k: Seq<char>| set@.contains_key(k) <==> params_upto(all, i as int, j as int).contains(k),
                    forall|k: Seq<char>| set@.contains_key(k) ==> set@[k],
                decreases ps.len() - j,
            {
                if ps[j].as_str().unicode_len() > 0 {
                    set.insert(ps[j].clone(), true);
                }
                j += 1;
            }
            proof {
                assert forall|k: Seq<char>| params_upto(all, i as int, ps@.len() as int).contains(k) <==> params_upto(all, i + 1, 0).contains(k) by {}
            }
            i += 1;
        }
        set.check_well_formed();
        let keys = set_keys(&set);
        proof {
            crate::strmap::lemma_canonical(&set);
            assert(set@ =~= Map::new(|p: Seq<char>| w3920_params(*status).contains(p), |p: Seq<char>| true)) by {
                assert forall|k: Seq<char>| set@.contains_key(k) <==> w3920_params(*status).contains(k) by {}
            }
        }
        if keys.len() == 0 || same_strings(&keys, &self.data.allowed_twostep_mechanisms) {
            return 0;
        }
        let n = keys.len();
        self.data.allowed_twostep_mechanisms = keys;
        n
    }

    /// An account of the user by number: completed from the passport's
    /// accounts, else with the bank's code, country and the customer id.
    pub fn account_by_number(&self, number: &str) -> (k: Konto)
        ensures
            account_by_number_ok(k, self.data_spec(), number@),
    {
        let mut account = Konto::default();
        account.number = Some(number.to_string());
        let ghost base = account;
        self.fill_account_info(&mut account);
        let ghost filled_acc = account;
        if !is_filled(&account.blz) {
            if self.data.blz.as_str().unicode_len() > 0 {
                account.blz = Some(self.data.blz.clone());
            }
            if self.data.country.as_str().unicode_len() > 0 {
                account.country = Some(self.data.country.clone());
            }
            let customer_id = self.customer_id();
            if customer_id.unicode_len() > 0 {
                account.customer_id = Some(customer_id.to_string());
                account.name = Some(customer_id.to_string());
            }
        }
        assert(account_built(account, self.data, number@, base, filled_acc));
        account
    }

}

/// The value under the first key that matches `path` (any key for an empty
/// path).
pub open spec fn lookup_text(p: Properties, path: Seq<char>) -> Option<Seq<char>> {
    let hit = if path.len() > 0 {
        crate::tools::first_full_match(p.keys_view(), path, p.size())
    } else if p.size() > 0 {
        Some(0int)
    } else {
        None
    };
    match hit {
        Some(i) => Some(p.vals_view()[i]@),
        None => None,
    }
}

/// A parameter of the TAN procedure in use, else of the bank parameters.
pub open spec fn tan2step_param(d: PinTanPassportData, name: Seq<char>) -> Option<Seq<char>> {
    if (current_mechanism(d) matches Some(mm) && opt_text(mm, name) is Some) {
        opt_text(current_mechanism(d)->0, name)
    } else {
        lookup_text(d.bpd_parameters, "Params*.TAN2StepPar"@ + segment_version(d) + ".ParTAN2Step*."@ + name)
    }
}

/// The order hash mode of the procedure in use, else of the bank parameters.
pub open spec fn order_hash_code(d: PinTanPassportData) -> Option<Seq<char>> {
    if (current_mechanism(d) matches Some(mm) && opt_text(mm, "orderhashmode"@) is Some) {
        opt_text(current_mechanism(d)->0, "orderhashmode"@)
    } else {
        lookup_text(
            d.bpd_parameters,
            crate::tools::with_params(
                "Params*.TAN2StepPar{0}.ParTAN2Step*.orderhashmode"@,
                seq![segment_version(d)],
                1,
            ),
        )
    }
}

/// The procedure parameters looked up in the bank parameters.
pub open spec fn secmech_param_names() -> Seq<Seq<char>> {
    seq![
        "id"@,
        "needchallengeklass"@,
        "needorderaccount"@,
        "orderhashmode"@,
        "process"@,
        "zkamethod_name"@,
        "zkamethod_version"@,
    ]
}

/// `m` with the parameters `names` that can be found.
pub open spec fn with_lookups(m: Map<Seq<char>, Seq<char>>, d: PinTanPassportData, names: Seq<Seq<char>>) -> Map<Seq<char>, Seq<char>>
    decreases names.len(),
{
    if names.len() == 0 {
        m
    } else {
        let prev = with_lookups(m, d, names.drop_last());
        match tan2step_param(d, names.last()) {
            Some(v) => prev.insert(names.last(), v),
            None => prev,
        }
    }
}

/// The parameters of the procedure in use.
pub open spec fn secmech_info(d: PinTanPassportData) -> Map<Seq<char>, Seq<char>> {
    match current_mechanism(d) {
        Some(mm) => {
            let a = if mm.contains_key("segversion"@) {
                mm
            } else {
                mm.insert(
                    "segversion"@,
                    match opt_view(d.tan_segment_version) {
                        Some(v) => v,
                        None => "5"@,
                    },
                )
            };
            a.insert("secfunc"@, current_method(d)->0)
        },
        None => {
            let base = map!["segversion"@ => segment_version(d)];
            let b = match current_method(d) {
                Some(t) => base.insert("secfunc"@, t),
                None => base,
            };
            with_lookups(b, d, secmech_param_names())
        },
    }
}

/// Whether a TAN medium is required.
pub open spec fn media_required(d: PinTanPassportData) -> bool {
    let v = match parse_int(segment_version(d), 0, u32::MAX as int) {
        Ok(x) => x,
        Err(_) => 0,
    };
    v >= 3 && secmech_info(d).contains_key("needtanmedia"@) && secmech_info(d)["needtanmedia"@] == "2"@
}

/// Whether the status has a 3076 return value: no strong authentication.
pub open spec fn sca_exempt(status: HbciMsgStatus) -> bool {
    with_code(status.global_status.return_values@, KnownReturncode::W3076).len() > 0 || with_code(
        status.segment_status.return_values@,
        KnownReturncode::W3076,
    ).len() > 0
}

/// The smallest TAN response root under `mp`.
pub open spec fn min_response_root(m: Map<Seq<char>, Seq<char>>, mp: Seq<char>) -> Option<Seq<char>> {
    if exists|x: Seq<char>| response_roots(m, mp).contains(x) {
        Some(choose|x: Seq<char>| response_roots(m, mp).contains(x) && forall|y: Seq<char>| response_roots(m, mp).contains(y) ==> !crate::text::lex_lt(y, x))
    } else {
        None
    }
}

proof fn lemma_min_root(m: Map<Seq<char>, Seq<char>>, mp: Seq<char>, x: Seq<char>)
    requires
        response_roots(m, mp).contains(x),
        forall|y: Seq<char>| response_roots(m, mp).contains(y) ==> !crate::text::lex_lt(y, x),
    ensures
        min_response_root(m, mp) == Some(x),
{
    let c = choose|x: Seq<char>| response_roots(m, mp).contains(x) && forall|y: Seq<char>| response_roots(m, mp).contains(y) ==> !crate::text::lex_lt(y, x);
    assert(response_roots(m, mp).contains(c));
    assert(!crate::text::lex_lt(c, x));
    assert(!crate::text::lex_lt(x, c));
    crate::text::lemma_lex_total(c, x);
}

proof fn lemma_min_root_none(m: Map<Seq<char>, Seq<char>>, mp: Seq<char>)
    requires
        forall|y: Seq<char>| !response_roots(m, mp).contains(y),
    ensures
        min_response_root(m, mp) is None,
{
}

/// The authentication state after a TAN response under `root`.
pub open spec fn sca_after(new: PinTanScaState, old: PinTanScaState, m: Map<Seq<char>, Seq<char>>, root: Seq<char>) -> bool {
    &&& !new.sca_exempted
    &&& opt_view(new.challenge) == match opt_text(m, root + ".challenge"@) {
        Some(c) => if c != "nochallenge"@ {
            Some(c)
        } else {
            opt_view(old.challenge)
        },
        None => opt_view(old.challenge),
    }
    &&& opt_view(new.hhd_uc) == or_text(opt_text(m, root + ".challenge_hhd_uc"@), opt_view(old.hhd_uc))
    &&& opt_view(new.order_ref) == or_text(opt_text(m, root + ".orderref"@), opt_view(old.order_ref))
}

/// An optional text without leading zeros.
pub open spec fn stripped(o: Option<String>) -> Option<Seq<char>> {
    match o {
        Some(s) => Some(strip_leading(s@, '0')),
        None => None,
    }
}

/// Whether `c` is the same account as `a`: the same number (and subnumber,
/// where `a` has one), or the same IBAN, leading zeros aside.
pub open spec fn account_match(a: Konto, c: Konto) -> bool {
    let have_number = stripped(a.number) matches Some(n) && n.len() > 0;
    let number_matches = have_number && stripped(a.number) == stripped(c.number) && (stripped(a.subnumber) is None
        || stripped(a.subnumber)->0.len() == 0 || stripped(a.subnumber) == stripped(c.subnumber));
    let iban_matches = (stripped(a.iban) matches Some(i) && i.len() > 0) && stripped(a.iban) == stripped(c.iban);
    number_matches || iban_matches
}

/// The first of the accounts that is the same account as `a`.
pub open spec fn first_matching(accounts: Seq<Konto>, a: Konto) -> Option<int> {
    if exists|i: int| 0 <= i < accounts.len() && account_match(a, #[trigger] accounts[i]) {
        Some(choose|i: int| 0 <= i < accounts.len() && account_match(a, accounts[i]) && forall|j: int| 0 <= j < i ==> !account_match(a, #[trigger] accounts[j]))
    } else {
        None
    }
}

fn stripped_of(o: &Option<String>) -> (r: Option<String>)
    ensures
        opt_view(r) == stripped(*o),
{
    match o {
        Some(s) => Some(strip_leading_zeroes(s.as_str())),
        None => None,
    }
}

fn opt_eq(a: &Option<String>, b: &Option<String>) -> (r: bool)
    ensures
        r == (opt_view(*a) == opt_view(*b)),
{
    crate::gv_result::account::opt_str_eq(a, b)
}

fn account_matches_exec(a: &Konto, c: &Konto) -> (b: bool)
    ensures
        b == account_match(*a, *c),
{
    let number = stripped_of(&a.number);
    let subnumber = stripped_of(&a.subnumber);
    let iban = stripped_of(&a.iban);
    let have_number = is_filled(&number);
    let sub_free = match &subnumber {
        None => true,
        Some(s) => s.as_str().unicode_len() == 0,
    };
    let number_matches = have_number && opt_eq(&number, &stripped_of(&c.number)) && (sub_free || opt_eq(
        &subnumber,
        &stripped_of(&c.subnumber),
    ));
    let iban_matches = is_filled(&iban) && opt_eq(&iban, &stripped_of(&c.iban));
    number_matches || iban_matches
}

fn first_matching_index(accounts: &[Konto], a: &Konto) -> (r: Option<usize>)
    ensures
        match r {
            Some(i) => first_matching(accounts@, *a) == Some(i as int) && i < accounts@.len(),
            None => first_matching(accounts@, *a) is None,
        },
{
    let mut i: usize = 0;
    while i < accounts.len()
        invariant
            i <= accounts@.len(),
            forall|j: int| 0 <= j < i ==> !account_match(*a, #[trigger] accounts@[j]),
        decreases accounts.len() - i,
    {
        if account_matches_exec(a, &accounts[i]) {
            proof {
                let c = choose|k: int| 0 <= k < accounts@.len() && account_match(*a, accounts@[k]) && forall|j: int| 0 <= j < k ==> !account_match(*a, #[trigger] accounts@[j]);
                assert(0 <= i < accounts@.len() && account_match(*a, accounts@[i as int]) && forall|j: int| 0 <= j < i ==> !account_match(*a, #[trigger] accounts@[j]));
                if c < i {
                } else if c > i {
                    assert(!account_match(*a, accounts@[i as int]));
                }
            }
            return Some(i);
        }
        i += 1;
    }
    None
}

/// The account that `account_by_number` gives.
pub open spec fn account_by_number_ok(k: Konto, d: PinTanPassportData, number: Seq<char>) -> bool {
    exists|base: Konto, f: Konto| #[trigger] account_built(k, d, number, base, f)
}

/// `k` is built from the account `base` with the number, completed to `f`.
pub open spec fn account_built(k: Konto, d: PinTanPassportData, number: Seq<char>, base: Konto, f: Konto) -> bool {
    {
        &&& opt_view(base.number) == Some(number) && opt_view(base.curr) == Some("EUR"@)
        &&& base.country is None && base.blz is None && base.subnumber is None && base.bic is None
        &&& base.iban is None && base.customer_id is None && base.name is None && base.name2 is None
        &&& base.creditorid is None && base.acctype is None && base.account_type is None
        &&& base.limit is None && base.allowed_gvs@.len() == 0
        &&& match first_matching(d.accounts@, base) {
            Some(j) => filled_from(f, base, d.accounts@[j]),
            None => f == base,
        }
        &&& if filled(f.blz) {
            k == f
        } else {
            &&& opt_view(k.blz) == if d.blz@.len() > 0 { Some(d.blz@) } else { opt_view(f.blz) }
            &&& opt_view(k.country) == if d.country@.len() > 0 { Some(d.country@) } else { opt_view(f.country) }
            &&& ({
                let cid = if filled(d.customer_id) { opt_view(d.customer_id)->0 } else { d.user_id@ };
                &&& opt_view(k.customer_id) == if cid.len() > 0 { Some(cid) } else { opt_view(f.customer_id) }
                &&& opt_view(k.name) == if cid.len() > 0 { Some(cid) } else { opt_view(f.name) }
            })
            &&& (Konto { blz: f.blz, country: f.country, customer_id: f.customer_id, name: f.name, ..k }) == f
        }
    }
}

/// The versions of bank and user parameters taken from a response, with
/// the number found.
pub open spec fn versions_updated(
    new: PinTanPassportData,
    old: PinTanPassportData,
    m: Map<Seq<char>, Seq<char>>,
    prefix: Seq<char>,
    n: int,
) -> bool {
    let b = opt_text(m, prefix + ".BPD.BPA.version"@);
    let u = opt_text(m, prefix + ".UPD.UPA.version"@);
    &&& opt_view(new.bpd_version) == or_text(b, opt_view(old.bpd_version))
    &&& opt_view(new.upd_version) == or_text(u, opt_view(old.upd_version))
    &&& (PinTanPassportData { bpd_version: old.bpd_version, upd_version: old.upd_version, ..new }) == old
    &&& n == (if b is Some { 1int } else { 0 }) + (if u is Some { 1int } else { 0 })
}

/// The number of keys `base`, `base_2`, ... that are set.
pub open spec fn counted_keys_len(m: Map<Seq<char>, Seq<char>>, base: Seq<char>) -> nat {
    choose|n: nat| (forall|i: nat| i < n ==> #[trigger] m.contains_key(counted_header(base, i))) && !m.contains_key(counted_header(base, n))
}

/// The non-empty values under the first `n` of those keys.
pub open spec fn counted_texts(m: Map<Seq<char>, Seq<char>>, base: Seq<char>, n: nat) -> Seq<Seq<char>>
    decreases n,
{
    if n == 0 {
        seq![]
    } else {
        counted_texts(m, base, (n - 1) as nat) + match opt_text(m, counted_header(base, (n - 1) as nat)) {
            Some(t) => seq![t],
            None => seq![],
        }
    }
}

/// The non-empty values under the keys `base`, `base_2`, ... as long as
/// they are set.
pub fn counted_values(values: &Properties, base: &str) -> (r: Vec<String>)
    ensures
        views(r@) == counted_texts(text_view(values@), base@, counted_keys_len(text_view(values@), base@)),
{
    values.check_well_formed();
    let ghost m = text_view(values@);
    let mut r: Vec<String> = Vec::new();
    let mut index: usize = 0;
    let ghost mut seen: Set<Seq<char>> = Set::empty();
    proof {
        crate::strmap::lemma_map_of_len(values.keys_view(), values.vals_view());
        vstd::seq_lib::seq_to_set_is_finite(values.keys_view());
    }
    loop
        invariant
            values.well_formed(),
            m == text_view(values@),
            values@.dom().finite(),
            values@.dom().len() == values.size(),
            seen.finite(),
            seen.len() == index,
            seen.subset_of(values@.dom()),
            forall|k: Seq<char>| #[trigger] seen.contains(k) ==> exists|j: nat| j < index && k == counted_header(base@, j),
            forall|i: nat| i < index ==> #[trigger] m.contains_key(counted_header(base@, i)),
            views(r@) == counted_texts(m, base@, index as nat),
        ensures
            forall|i: nat| i < index ==> #[trigger] m.contains_key(counted_header(base@, i)),
            !m.contains_key(counted_header(base@, index as nat)),
            views(r@) == counted_texts(m, base@, index as nat),
        decreases values.size() - index,
    {
        let ghost key = counted_header(base@, index as nat);
        proof {
            vstd::set_lib::lemma_len_subset(seen, values@.dom());
            assert(!seen.contains(key)) by {
                if seen.contains(key) {
                    let j = choose|j: nat| j < index && key == counted_header(base@, j);
                    lemma_counted_header_injective(base@, j, index as nat);
                }
            }
        }
        if index >= values.len() {
            proof {
                if m.contains_key(key) {
                    vstd::set_lib::lemma_len_subset(seen.insert(key), values@.dom());
                }
            }
            break;
        }
        let k = counted_header_string(base, index);
        if !values.contains_key(k.as_str()) {
            break;
        }
        let ghost before = views(r@);
        match optional_value(values, k.as_str()) {
            Some(v) => {
                r.push(v);
                assert(views(r@) =~= before + seq![r@.last()@]);
            },
            None => {
                assert(before + seq![] =~= before);
            },
        }
        proof {
            seen = seen.insert(key);
            vstd::set_lib::lemma_len_subset(seen, values@.dom());
        }
        index += 1;
    }
    proof {
        let n = index as nat;
        let c = counted_keys_len(m, base@);
        assert((forall|i: nat| i < c ==> #[trigger] m.contains_key(counted_header(base@, i))) && !m.contains_key(counted_header(base@, c)));
        if c < n {
            assert(m.contains_key(counted_header(base@, c)));
        } else if c > n {
            assert(m.contains_key(counted_header(base@, n)));
        }
    }
    r
}

/// The bank parameters' bank name and limits taken from a response, with
/// how many were found; nothing else changes.
pub open spec fn bank_group(new: PinTanPassportData, old: PinTanPassportData, m: Map<Seq<char>, Seq<char>>, bpa: Seq<char>, n: int) -> bool {
    &&& opt_view(new.bank_name) == or_text(opt_text(m, bpa + ".kiname"@), opt_view(old.bank_name))
    &&& new.max_gv_per_message == if opt_u32(m, bpa + ".numgva"@) is Some { opt_u32(m, bpa + ".numgva"@) } else { old.max_gv_per_message }
    &&& new.max_message_size_kb == if opt_u32(m, bpa + ".maxmsgsize"@) is Some { opt_u32(m, bpa + ".maxmsgsize"@) } else { old.max_message_size_kb }
    &&& (PinTanPassportData {
        bank_name: old.bank_name,
        max_gv_per_message: old.max_gv_per_message,
        max_message_size_kb: old.max_message_size_kb,
        ..new
    }) == old
    &&& n == (if opt_text(m, bpa + ".kiname"@) is Some { 1int } else { 0 })
        + (if opt_u32(m, bpa + ".numgva"@) is Some { 1int } else { 0 })
        + (if opt_u32(m, bpa + ".maxmsgsize"@) is Some { 1int } else { 0 })
}

/// The bank parameters under `prefix.BPD.` with their TAN procedures, where
/// there are any.
pub open spec fn bpd_group(new: PinTanPassportData, old: PinTanPassportData, values: Map<Seq<char>, String>, prefix: Seq<char>, n: int) -> bool {
    let bpd = crate::protocol::message::strip_prefix_map(values, prefix + ".BPD."@);
    if bpd != Map::<Seq<char>, String>::empty() {
        &&& new.bpd_parameters@ == bpd
        &&& props_views(new.twostep_mechanisms@) == mechanisms_of(
            new.bpd_parameters.keys_view(),
            text_vals(new.bpd_parameters.vals_view()),
            new.bpd_parameters.keys_view(),
            text_vals(new.bpd_parameters.vals_view()),
        )
        &&& (PinTanPassportData { bpd_parameters: old.bpd_parameters, twostep_mechanisms: old.twostep_mechanisms, ..new }) == old
        &&& n == 1
    } else {
        new == old && n == 0
    }
}

/// The supported languages and HBCI versions, where there are any.
pub open spec fn list_group(new: PinTanPassportData, old: PinTanPassportData, m: Map<Seq<char>, Seq<char>>, bpa: Seq<char>, n: int) -> bool {
    let langs = counted_texts(m, bpa + ".SuppLangs.lang"@, counted_keys_len(m, bpa + ".SuppLangs.lang"@));
    let vers = counted_texts(m, bpa + ".SuppVersions.version"@, counted_keys_len(m, bpa + ".SuppVersions.version"@));
    &&& if langs.len() > 0 { views(new.supported_languages@) == langs } else { new.supported_languages == old.supported_languages }
    &&& if vers.len() > 0 { views(new.supported_hbci_versions@) == vers } else { new.supported_hbci_versions == old.supported_hbci_versions }
    &&& (PinTanPassportData {
        supported_languages: old.supported_languages,
        supported_hbci_versions: old.supported_hbci_versions,
        ..new
    }) == old
    &&& n == (if langs.len() > 0 { 1int } else { 0 }) + (if vers.len() > 0 { 1int } else { 0 })
}

/// The usage, user name and TAN media of the user parameters.
pub open spec fn user_group(new: PinTanPassportData, old: PinTanPassportData, m: Map<Seq<char>, Seq<char>>, prefix: Seq<char>, n: int) -> bool {
    let upa = prefix + ".UPD.UPA"@;
    let names = opt_text(m, prefix + ".UPD.tanmedia.names"@);
    &&& opt_view(new.upd_usage) == or_text(opt_text(m, upa + ".usage"@), opt_view(old.upd_usage))
    &&& opt_view(new.user_name) == or_text(opt_text(m, upa + ".username"@), opt_view(old.user_name))
    &&& match names {
        Some(t) => views(new.tan_media_names@) == non_empty(split_char(t, '|')),
        None => new.tan_media_names == old.tan_media_names,
    }
    &&& (PinTanPassportData { upd_usage: old.upd_usage, user_name: old.user_name, tan_media_names: old.tan_media_names, ..new }) == old
    &&& n == (if opt_text(m, upa + ".usage"@) is Some { 1int } else { 0 })
        + (if opt_text(m, upa + ".username"@) is Some { 1int } else { 0 })
        + (if names is Some { 1int } else { 0 })
}

/// The four groups taken in turn, through the states `a`, `b`, `c`.
pub open spec fn parameter_chain(
    new: PinTanPassportData,
    old: PinTanPassportData,
    values: Map<Seq<char>, String>,
    prefix: Seq<char>,
    n: int,
    a: PinTanPassportData,
    b: PinTanPassportData,
    c: PinTanPassportData,
    n1: int,
    n2: int,
    n3: int,
) -> bool {
    &&& bank_group(a, old, text_view(values), prefix + ".BPD.BPA"@, n1)
    &&& bpd_group(b, a, values, prefix, n2)
    &&& list_group(c, b, text_view(values), prefix + ".BPD.BPA"@, n3)
    &&& user_group(new, c, text_view(values), prefix, n - n1 - n2 - n3)
}

/// The bank and user parameters after `update_parameter_data_from_values`
/// (past the versions), with the number of items taken.
pub open spec fn parameter_data_updated(
    new: PinTanPassportData,
    old: PinTanPassportData,
    values: Map<Seq<char>, String>,
    prefix: Seq<char>,
    n: int,
) -> bool {
    exists|a: PinTanPassportData, b: PinTanPassportData, c: PinTanPassportData, n1: int, n2: int, n3: int|
        #[trigger] parameter_chain(new, old, values, prefix, n, a, b, c, n1, n2, n3)
}

/// The return values with code 3920, of the message and then its segments.
pub open spec fn w3920_values(status: HbciMsgStatus) -> Seq<HbciReturnValue> {
    with_code(status.global_status.return_values@, KnownReturncode::W3920) + with_code(
        status.segment_status.return_values@,
        KnownReturncode::W3920,
    )
}

/// The non-empty parameters of the first `i` return values and the first
/// `j` of the next one.
pub open spec fn params_upto(all: Seq<HbciReturnValue>, i: int, j: int) -> Set<Seq<char>> {
    Set::new(
        |p: Seq<char>|
            p.len() > 0 && ((exists|a: int, b: int|
                0 <= a < i && 0 <= b < all[a].params@.len() && #[trigger] all[a].params@[b]@ == p) || (exists|b: int|
                0 <= b < j && #[trigger] all[i].params@[b]@ == p)),
    )
}

/// The TAN procedures that the 3920 return values allow.
pub open spec fn w3920_params(status: HbciMsgStatus) -> Set<Seq<char>> {
    params_upto(w3920_values(status), w3920_values(status).len() as int, 0)
}

/// Those, sorted.
pub open spec fn sorted_params(status: HbciMsgStatus) -> Seq<Seq<char>> {
    crate::strmap::canonical_keys(Map::new(|p: Seq<char>| w3920_params(status).contains(p), |p: Seq<char>| true))
}

fn set_keys(set: &StrMap<bool>) -> (r: Vec<String>)
    ensures
        views(r@) == set.keys_view(),
{
    let n = set.len();
    let mut r: Vec<String> = Vec::new();
    let mut i: usize = 0;
    while i < n
        invariant
            n == set.size(),
            i <= n,
            views(r@) == set.keys_view().take(i as int),
        decreases n - i,
    {
        let ghost before = views(r@);
        let k = set.key_at(i).clone();
        let ghost kv = k@;
        r.push(k);
        assert(views(r@) =~= before.push(kv));
        assert(set.keys_view().take(i + 1) =~= set.keys_view().take(i as int).push(kv));
        i += 1;
    }
    assert(set.keys_view().take(n as int) =~= set.keys_view());
    r
}

fn same_strings(a: &Vec<String>, b: &Vec<String>) -> (r: bool)
    ensures
        r == (views(a@) == views(b@)),
{
    if a.len() != b.len() {
        assert(views(a@).len() != views(b@).len());
        return false;
    }
    let mut i: usize = 0;
    while i < a.len()
        invariant
            i <= a@.len(),
            a@.len() == b@.len(),
            forall|j: int| 0 <= j < i ==> a@[j]@ == b@[j]@,
        decreases a.len() - i,
    {
        if !crate::text::str_eq(a[i].as_str(), b[i].as_str()) {
            assert(views(a@)[i as int] != views(b@)[i as int]);
            return false;
        }
        i += 1;
    }
    assert(views(a@) =~= views(b@));
    true
}

/// Whether one of the options has identifier `id`.
fn has_option_id(v: &Vec<TanMethodOption>, id: &str) -> (b: bool)
    ensures
        b == option_views(v@).map_values(|o: (Seq<char>, Option<Seq<char>>)| o.0).contains(id@),
{
    let ghost ids = option_views(v@).map_values(|o: (Seq<char>, Option<Seq<char>>)| o.0);
    let mut i: usize = 0;
    while i < v.len()
        invariant
            i <= v@.len(),
            ids == option_views(v@).map_values(|o: (Seq<char>, Option<Seq<char>>)| o.0),
            forall|j: int| 0 <= j < i ==> v@[j].id@ != id@,
        decreases v.len() - i,
    {
        if crate::text::str_eq(v[i].id.as_str(), id) {
            assert(ids[i as int] == id@);
            return true;
        }
        i += 1;
    }
    assert(!ids.contains(id@)) by {
        if ids.contains(id@) {
            let j = ids.index_of(id@);
            assert(v@[j].id@ == id@);
        }
    }
    false
}

/// Whether a list of texts holds `s`.
fn contains_string(v: &Vec<String>, s: &str) -> (b: bool)
    ensures
        b == views(v@).contains(s@),
{
    let mut i: usize = 0;
    while i < v.len()
        invariant
            i <= v@.len(),
            forall|j: int| 0 <= j < i ==> v@[j]@ != s@,
        decreases v.len() - i,
    {
        if crate::text::str_eq(v[i].as_str(), s) {
            assert(views(v@)[i as int] == s@);
            return true;
        }
        i += 1;
    }
    assert(!views(v@).contains(s@)) by {
        if views(v@).contains(s@) {
            let j = views(v@).index_of(s@);
            assert(v@[j]@ == s@);
        }
    }
    false
}

/// Whether the one-step procedure is allowed.
pub open spec fn one_step_ok(d: PinTanPassportData) -> bool {
    d.bpd_parameters.size() == 0 || exists|k: Seq<char>|
        restrict_path(d.bpd_parameters@, "Params*.TAN2StepPar*.ParTAN2Step*.can1step"@).contains_key(k)
            && restrict_path(d.bpd_parameters@, "Params*.TAN2StepPar*.ParTAN2Step*.can1step"@)[k]@ == "J"@
}

/// A TAN procedure option as its identifier and name.
pub open spec fn option_view(o: TanMethodOption) -> (Seq<char>, Option<Seq<char>>) {
    (o.id@, opt_view(o.name))
}

pub open spec fn option_views(v: Seq<TanMethodOption>) -> Seq<(Seq<char>, Option<Seq<char>>)> {
    v.map_values(|o: TanMethodOption| option_view(o))
}

/// The option for the `i`-th of the bank's procedures.
pub open spec fn mechanism_option(d: PinTanPassportData, i: int) -> (Seq<char>, Option<Seq<char>>) {
    let id = d.twostep_mechanisms.keys_view()[i];
    (id, opt_text(props_views(d.twostep_mechanisms@)[id], "name"@))
}

/// The options for all the bank's procedures, ascending.
pub open spec fn bank_options(d: PinTanPassportData) -> Seq<(Seq<char>, Option<Seq<char>>)> {
    Seq::new(d.twostep_mechanisms.size(), |i: int| mechanism_option(d, i))
}

/// The options for the first `n` of the bank's procedures that the user may
/// use.
pub open spec fn allowed_options_upto(d: PinTanPassportData, n: int) -> Seq<(Seq<char>, Option<Seq<char>>)>
    decreases n,
{
    if n <= 0 {
        seq![]
    } else if views(d.allowed_twostep_mechanisms@).contains(d.twostep_mechanisms.keys_view()[n - 1]) {
        allowed_options_upto(d, n - 1).push(mechanism_option(d, n - 1))
    } else {
        allowed_options_upto(d, n - 1)
    }
}

pub open spec fn allowed_options(d: PinTanPassportData) -> Seq<(Seq<char>, Option<Seq<char>>)> {
    allowed_options_upto(d, d.twostep_mechanisms.size() as int)
}

/// The identifiers of the first `n` of the bank's procedures that the user
/// may use.
pub open spec fn allowed_ids(d: PinTanPassportData, n: int) -> Seq<Seq<char>>
    decreases n,
{
    if n <= 0 {
        seq![]
    } else if views(d.allowed_twostep_mechanisms@).contains(d.twostep_mechanisms.keys_view()[n - 1]) {
        allowed_ids(d, n - 1).push(d.twostep_mechanisms.keys_view()[n - 1])
    } else {
        allowed_ids(d, n - 1)
    }
}

/// What choosing a TAN procedure comes to.
pub ghost enum SelectionView {
    Selected(Seq<char>),
    OneStep,
    Needs(Seq<(Seq<char>, Option<Seq<char>>)>),
}

pub open spec fn selection_view(s: TanMethodSelection) -> SelectionView {
    match s {
        TanMethodSelection::Selected(id) => SelectionView::Selected(id@),
        TanMethodSelection::OneStepFallback => SelectionView::OneStep,
        TanMethodSelection::NeedsUserSelection(v) => SelectionView::Needs(option_views(v@)),
    }
}

pub open spec fn determined(d: PinTanPassportData) -> SelectionView {
    let user = allowed_options(d);
    let bank = bank_options(d);
    if d.allowed_twostep_mechanisms@.len() == 0 && one_step_ok(d) {
        SelectionView::OneStep
    } else if user.len() == 0 {
        if one_step_ok(d) || bank.len() == 0 {
            SelectionView::OneStep
        } else {
            SelectionView::Needs(bank)
        }
    } else if user.len() == 1 {
        SelectionView::Selected(user[0].0)
    } else if (current_method(d) matches Some(c) && user.map_values(|o: (Seq<char>, Option<Seq<char>>)| o.0).contains(c)) {
        SelectionView::Selected(current_method(d)->0)
    } else {
        SelectionView::Needs(user)
    }
}

} // verus!
