//! Character-level text helpers shared by the protocol modules.
//!
//! Everything here works on sequences of Unicode scalar values (`Seq<char>`),
//! the view that Verus gives to `str` and `String`.

use vstd::prelude::*;
use vstd::string::*;

verus! {

broadcast use vstd::string::group_string_axioms;

// ---------------------------------------------------------------------------
// Specifications
// ---------------------------------------------------------------------------

/// Unicode `White_Space`, the property behind `char::is_whitespace`.
pub open spec fn is_ws(c: char) -> bool {
    ||| c == '\t' || c == '\n' || c == '\x0B' || c == '\x0C' || c == '\r' || c == ' '
    ||| c == '\u{85}' || c == '\u{A0}' || c == '\u{1680}'
    ||| ('\u{2000}' <= c && c <= '\u{200A}')
    ||| c == '\u{2028}' || c == '\u{2029}' || c == '\u{202F}' || c == '\u{205F}' || c == '\u{3000}'
}

pub open spec fn is_digit(c: char) -> bool {
    '0' <= c && c <= '9'
}

pub open spec fn is_ascii_upper(c: char) -> bool {
    'A' <= c && c <= 'Z'
}

pub open spec fn is_ascii_lower(c: char) -> bool {
    'a' <= c && c <= 'z'
}

pub open spec fn is_ascii_alnum(c: char) -> bool {
    is_digit(c) || is_ascii_upper(c) || is_ascii_lower(c)
}

/// ASCII lower-casing of one character; other characters stay as they are.
pub open spec fn ascii_lower(c: char) -> char {
    if is_ascii_upper(c) {
        ((c as u32) + 32) as char
    } else {
        c
    }
}

pub open spec fn all_digits(s: Seq<char>) -> bool {
    forall|i: int| 0 <= i < s.len() ==> is_digit(#[trigger] s[i])
}

/// `s` with its leading white space removed.
pub open spec fn trim_start(s: Seq<char>) -> Seq<char>
    decreases s.len(),
{
    if s.len() > 0 && is_ws(s[0]) {
        trim_start(s.drop_first())
    } else {
        s
    }
}

/// `s` with its trailing white space removed.
pub open spec fn trim_end(s: Seq<char>) -> Seq<char>
    decreases s.len(),
{
    if s.len() > 0 && is_ws(s.last()) {
        trim_end(s.drop_last())
    } else {
        s
    }
}

/// `str::trim`: both ends without white space.
pub open spec fn trim(s: Seq<char>) -> Seq<char> {
    trim_end(trim_start(s))
}

pub open spec fn starts_with(s: Seq<char>, p: Seq<char>) -> bool {
    p.len() <= s.len() && s.subrange(0, p.len() as int) == p
}

pub open spec fn ends_with(s: Seq<char>, p: Seq<char>) -> bool {
    p.len() <= s.len() && s.subrange(s.len() - p.len(), s.len() as int) == p
}

/// `p` occurs in `s` at position `i`.
pub open spec fn match_at(s: Seq<char>, p: Seq<char>, i: int) -> bool {
    0 <= i && i + p.len() <= s.len() && s.subrange(i, i + p.len()) == p
}

/// First position at or after `from` where `p` occurs in `s`.
pub open spec fn find_from(s: Seq<char>, p: Seq<char>, from: int) -> Option<int>
    decreases s.len() + 1 - from,
{
    if from < 0 || from + p.len() > s.len() {
        None
    } else if match_at(s, p, from) {
        Some(from)
    } else {
        find_from(s, p, from + 1)
    }
}

/// `str::find`: first position of `p` in `s`.
pub open spec fn find(s: Seq<char>, p: Seq<char>) -> Option<int> {
    find_from(s, p, 0)
}

/// `str::contains`.
pub open spec fn contains(s: Seq<char>, p: Seq<char>) -> bool {
    find(s, p) is Some
}

/// ASCII case-insensitive equality (`eq_ignore_ascii_case`).
pub open spec fn eq_ignore_ascii_case(a: Seq<char>, b: Seq<char>) -> bool {
    a.len() == b.len() && forall|i: int| 0 <= i < a.len() ==> ascii_lower(#[trigger] a[i])
        == ascii_lower(b[i])
}

/// Lexicographic order of character sequences (the order of `str`).
pub open spec fn lex_lt(a: Seq<char>, b: Seq<char>) -> bool
    decreases a.len(),
{
    if a.len() == 0 {
        b.len() > 0
    } else if b.len() == 0 {
        false
    } else if a[0] < b[0] {
        true
    } else if a[0] == b[0] {
        lex_lt(a.drop_first(), b.drop_first())
    } else {
        false
    }
}

/// `str::split` at every occurrence of the single character `c`.
pub open spec fn split_char(s: Seq<char>, c: char) -> Seq<Seq<char>>
    decreases s.len(),
{
    proof {
        lemma_find_from_spec(s, seq![c], 0);
    }
    match find(s, seq![c]) {
        None => seq![s],
        Some(i) => seq![s.take(i)] + split_char(s.skip(i + 1), c),
    }
}

/// The digit character for `d < 10`.
pub open spec fn digit_char(d: nat) -> char {
    (('0' as u32) + d) as char
}

/// The value of a digit character.
pub open spec fn digit_value(c: char) -> nat {
    ((c as u32) - ('0' as u32)) as nat
}

/// Decimal rendering of a natural number, without leading zeros.
pub open spec fn decimal(n: nat) -> Seq<char>
    decreases n,
{
    if n < 10 {
        seq![digit_char(n)]
    } else {
        decimal(n / 10).push(digit_char(n % 10))
    }
}

/// The value of a sequence of digits (empty gives zero).
pub open spec fn digits_value(s: Seq<char>) -> nat
    decreases s.len(),
{
    if s.len() == 0 {
        0
    } else {
        digits_value(s.drop_last()) * 10 + digit_value(s.last())
    }
}

/// What `str::parse` gives for an unsigned integer type: an optional `+`
/// followed by at least one digit; the value before any range check.
pub open spec fn parse_unsigned(s: Seq<char>) -> Option<nat> {
    let body = if s.len() > 0 && s[0] == '+' {
        s.drop_first()
    } else {
        s
    };
    if body.len() > 0 && all_digits(body) {
        Some(digits_value(body))
    } else {
        None
    }
}

/// What `str::parse` gives for a signed integer type, before any range check.
pub open spec fn parse_signed(s: Seq<char>) -> Option<int> {
    if s.len() > 0 && s[0] == '-' {
        let body = s.drop_first();
        if body.len() > 0 && all_digits(body) {
            Some(-(digits_value(body) as int))
        } else {
            None
        }
    } else {
        match parse_unsigned(s) {
            Some(v) => Some(v as int),
            None => None,
        }
    }
}

/// Replaces every character `from` by `to`.
pub open spec fn replace_char(s: Seq<char>, from: char, to: char) -> Seq<char> {
    s.map_values(|c: char| if c == from { to } else { c })
}

/// Drops every occurrence of `c`.
pub open spec fn remove_char(s: Seq<char>, c: char) -> Seq<char> {
    s.filter(|x: char| x != c)
}

/// Joins the parts with the separator between them.
pub open spec fn join(parts: Seq<Seq<char>>, sep: Seq<char>) -> Seq<char>
    decreases parts.len(),
{
    if parts.len() == 0 {
        Seq::empty()
    } else if parts.len() == 1 {
        parts[0]
    } else {
        join(parts.drop_last(), sep) + sep + parts.last()
    }
}

// ---------------------------------------------------------------------------
// Lemmas
// ---------------------------------------------------------------------------

pub proof fn lemma_trim_start_at(s: Seq<char>, k: int)
    requires
        0 <= k <= s.len(),
        forall|i: int| 0 <= i < k ==> is_ws(#[trigger] s[i]),
        k == s.len() || !is_ws(s[k]),
    ensures
        trim_start(s) == s.subrange(k, s.len() as int),
    decreases k,
{
    if k == 0 {
        assert(s.subrange(0, s.len() as int) =~= s);
    } else {
        let t = s.drop_first();
        assert forall|i: int| 0 <= i < k - 1 implies is_ws(#[trigger] t[i]) by {
            assert(t[i] == s[i + 1]);
        }
        lemma_trim_start_at(t, k - 1);
        assert(t.subrange(k - 1, t.len() as int) =~= s.subrange(k, s.len() as int));
    }
}

pub proof fn lemma_trim_end_at(s: Seq<char>, k: int)
    requires
        0 <= k <= s.len(),
        forall|i: int| k <= i < s.len() ==> is_ws(#[trigger] s[i]),
        k == 0 || !is_ws(s[k - 1]),
    ensures
        trim_end(s) == s.subrange(0, k),
    decreases s.len() - k,
{
    if k == s.len() {
        assert(s.subrange(0, k) =~= s);
    } else {
        let t = s.drop_last();
        assert forall|i: int| k <= i < t.len() implies is_ws(#[trigger] t[i]) by {
            assert(t[i] == s[i]);
        }
        lemma_trim_end_at(t, k);
        assert(t.subrange(0, k) =~= s.subrange(0, k));
    }
}

pub proof fn lemma_find_from_none(s: Seq<char>, p: Seq<char>, from: int)
    requires
        0 <= from,
        forall|i: int| from <= i && i + p.len() <= s.len() ==> !match_at(s, p, i),
    ensures
        find_from(s, p, from) is None,
    decreases s.len() + 1 - from,
{
    if from + p.len() <= s.len() {
        lemma_find_from_none(s, p, from + 1);
    }
}

pub proof fn lemma_find_from_some(s: Seq<char>, p: Seq<char>, from: int, k: int)
    requires
        0 <= from <= k,
        match_at(s, p, k),
        forall|i: int| from <= i < k ==> !match_at(s, p, i),
    ensures
        find_from(s, p, from) == Some(k),
    decreases k - from,
{
    if from < k {
        lemma_find_from_some(s, p, from + 1, k);
    }
}

/// The result of `find_from` is a match, and nothing before it is.
pub proof fn lemma_find_from_spec(s: Seq<char>, p: Seq<char>, from: int)
    requires
        0 <= from,
    ensures
        find_from(s, p, from) matches Some(k) ==> from <= k && match_at(s, p, k) && forall|i: int|
            from <= i < k ==> !match_at(s, p, i),
        find_from(s, p, from) is None ==> forall|i: int| from <= i ==> !match_at(s, p, i),
    decreases s.len() + 1 - from,
{
    if from + p.len() <= s.len() && !match_at(s, p, from) {
        lemma_find_from_spec(s, p, from + 1);
    }
}

pub proof fn lemma_lex_irreflexive(a: Seq<char>)
    ensures
        !lex_lt(a, a),
    decreases a.len(),
{
    if a.len() > 0 {
        lemma_lex_irreflexive(a.drop_first());
    }
}

pub proof fn lemma_lex_transitive(a: Seq<char>, b: Seq<char>, c: Seq<char>)
    requires
        lex_lt(a, b),
        lex_lt(b, c),
    ensures
        lex_lt(a, c),
    decreases a.len(),
{
    if a.len() > 0 && b.len() > 0 && c.len() > 0 && a[0] == b[0] && b[0] == c[0] {
        lemma_lex_transitive(a.drop_first(), b.drop_first(), c.drop_first());
    }
}

pub proof fn lemma_lex_total(a: Seq<char>, b: Seq<char>)
    ensures
        a == b || lex_lt(a, b) || lex_lt(b, a),
    decreases a.len(),
{
    if a.len() > 0 && b.len() > 0 && a[0] == b[0] {
        lemma_lex_total(a.drop_first(), b.drop_first());
        if a.drop_first() == b.drop_first() {
            assert(a =~= seq![a[0]] + a.drop_first());
            assert(b =~= seq![b[0]] + b.drop_first());
        }
    } else if a.len() == 0 && b.len() == 0 {
        assert(a =~= b);
    }
}

pub proof fn lemma_lex_asymmetric(a: Seq<char>, b: Seq<char>)
    requires
        lex_lt(a, b),
    ensures
        !lex_lt(b, a),
    decreases a.len(),
{
    if a.len() > 0 && b.len() > 0 && a[0] == b[0] {
        lemma_lex_asymmetric(a.drop_first(), b.drop_first());
    }
}

pub proof fn lemma_decimal_digits(n: nat)
    ensures
        all_digits(decimal(n)),
        decimal(n).len() > 0,
        digits_value(decimal(n)) == n,
    decreases n,
{
    lemma_digit_roundtrip(n % 10);
    assert(digits_value(decimal(n)) == digits_value(decimal(n).drop_last()) * 10 + digit_value(
        decimal(n).last(),
    ));
    if n < 10 {
        assert(decimal(n).drop_last() =~= Seq::<char>::empty());
    }
    if n >= 10 {
        lemma_decimal_digits(n / 10);
        let d = decimal(n / 10);
        assert(decimal(n).drop_last() =~= d);
        assert(decimal(n).last() == digit_char(n % 10));
        assert(n == (n / 10) * 10 + n % 10);
    }
}

pub proof fn lemma_digit_roundtrip(d: nat)
    requires
        d < 10,
    ensures
        is_digit(digit_char(d)),
        digit_value(digit_char(d)) == d,
{
    assert((('0' as u32) + d) as char as u32 == ('0' as u32) + d);
}

// ---------------------------------------------------------------------------
// Executable helpers
// ---------------------------------------------------------------------------

/// Appends one character to a string (`String::push`).
#[verifier::external_body]
pub fn push_char(s: &mut String, c: char)
    ensures
        final(s)@ == old(s)@.push(c),
{
    s.push(c)
}

/// The characters of `s`, in order.
pub fn chars_of(s: &str) -> (v: Vec<char>)
    ensures
        v@ == s@,
{
    let mut v: Vec<char> = Vec::new();
    for c in it: s.chars()
        invariant
            v@ == it.seq().take(it.index() as int),
    {
        v.push(c);
    }
    v
}

/// A string holding the given characters.
pub fn string_of(v: &[char]) -> (s: String)
    ensures
        s@ == v@,
{
    let mut s = String::new();
    let mut i: usize = 0;
    while i < v.len()
        invariant
            i <= v.len(),
            s@ == v@.take(i as int),
        decreases v.len() - i,
    {
        push_char(&mut s, v[i]);
        i += 1;
        assert(s@ =~= v@.take(i as int));
    }
    assert(v@.take(v@.len() as int) =~= v@);
    s
}

/// An owned copy of a string slice.
pub fn owned(s: &str) -> (r: String)
    ensures
        r@ == s@,
{
    s.to_owned()
}

/// Concatenation of two strings.
pub fn concat(a: &str, b: &str) -> (r: String)
    ensures
        r@ == a@ + b@,
{
    let mut r = a.to_owned();
    r.append(b);
    r
}

/// Concatenation of three strings.
pub fn concat3(a: &str, b: &str, c: &str) -> (r: String)
    ensures
        r@ == a@ + b@ + c@,
{
    let mut r = a.to_owned();
    r.append(b);
    r.append(c);
    r
}

/// String equality of two slices.
pub fn str_eq(a: &str, b: &str) -> (r: bool)
    ensures
        r == (a@ == b@),
{
    let x = a.to_owned();
    let y = b.to_owned();
    x == y
}

pub fn is_ws_char(c: char) -> (b: bool)
    ensures
        b == is_ws(c),
{
    c == '\t' || c == '\n' || c == '\x0B' || c == '\x0C' || c == '\r' || c == ' ' || c == '\u{85}'
        || c == '\u{A0}' || c == '\u{1680}' || ('\u{2000}' <= c && c <= '\u{200A}') || c
        == '\u{2028}' || c == '\u{2029}' || c == '\u{202F}' || c == '\u{205F}' || c == '\u{3000}'
}

pub fn is_digit_char(c: char) -> (b: bool)
    ensures
        b == is_digit(c),
{
    '0' <= c && c <= '9'
}

pub fn ascii_lower_char(c: char) -> (r: char)
    ensures
        r == ascii_lower(c),
{
    if 'A' <= c && c <= 'Z' {
        let v: u32 = (c as u32) + 32;
        assert(v <= 0x7f);
        proof {
            assert(('A' as u32) <= (c as u32) <= ('Z' as u32));
        }
        char_from_ascii(v)
    } else {
        c
    }
}

/// The character of an ASCII code.
pub fn char_from_ascii(v: u32) -> (c: char)
    requires
        v <= 0x7f,
    ensures
        c == v as char,
        c as u32 == v,
{
    let b: u8 = v as u8;
    b as char
}

/// Sub-sequence `[from, to)` of a character vector.
pub fn slice_chars(v: &[char], from: usize, to: usize) -> (r: Vec<char>)
    requires
        from <= to <= v@.len(),
    ensures
        r@ == v@.subrange(from as int, to as int),
{
    let mut r: Vec<char> = Vec::new();
    let mut i = from;
    while i < to
        invariant
            from <= i <= to <= v@.len(),
            r@ == v@.subrange(from as int, i as int),
        decreases to - i,
    {
        r.push(v[i]);
        i += 1;
        assert(r@ =~= v@.subrange(from as int, i as int));
    }
    r
}

/// Sub-string `[from, to)` counted in characters.
pub fn substring(s: &str, from: usize, to: usize) -> (r: String)
    requires
        from <= to <= s@.len(),
    ensures
        r@ == s@.subrange(from as int, to as int),
{
    s.substring_char(from, to).to_owned()
}

/// Number of characters.
pub fn char_len(s: &str) -> (n: usize)
    ensures
        n == s@.len(),
{
    s.unicode_len()
}

/// Whether `p` occurs in `s` at position `i`.
pub fn match_at_exec(s: &[char], p: &[char], i: usize) -> (b: bool)
    ensures
        b == match_at(s@, p@, i as int),
{
    if i > s.len() || p.len() > s.len() - i {
        return false;
    }
    let mut j: usize = 0;
    while j < p.len()
        invariant
            i + p@.len() <= s@.len(),
            i + p.len() <= s.len(),
            j <= p@.len(),
            forall|k: int| 0 <= k < j ==> s@[i + k] == p@[k],
        decreases p.len() - j,
    {
        if s[i + j] != p[j] {
            assert(s@.subrange(i as int, i + p@.len())[j as int] != p@[j as int]);
            return false;
        }
        j += 1;
    }
    assert(s@.subrange(i as int, i + p@.len()) =~= p@);
    true
}

/// `find_from` on character vectors.
pub fn find_from_exec(s: &[char], p: &[char], from: usize) -> (r: Option<usize>)
    ensures
        r matches Some(k) ==> find_from(s@, p@, from as int) == Some(k as int),
        r is None ==> find_from(s@, p@, from as int) is None,
{
    if from > s.len() || p.len() > s.len() - from {
        return None;
    }
    if p.len() == 0 {
        assert(s@.subrange(from as int, from as int) =~= p@);
        return Some(from);
    }
    let mut i = from;
    while i <= s.len() - p.len()
        invariant
            from <= i,
            0 < p@.len() <= s@.len(),
            i <= s.len(),
            find_from(s@, p@, from as int) == find_from(s@, p@, i as int),
        decreases s.len() - i,
    {
        if match_at_exec(s, p, i) {
            return Some(i);
        }
        i += 1;
    }
    None
}

/// First position of the character `c` at or after `from`.
pub fn find_char_from(s: &[char], c: char, from: usize) -> (r: Option<usize>)
    ensures
        r matches Some(k) ==> find_from(s@, seq![c], from as int) == Some(k as int),
        r is None ==> find_from(s@, seq![c], from as int) is None,
{
    let p: Vec<char> = vec![c];
    assert(p@ =~= seq![c]);
    find_from_exec(s, p.as_slice(), from)
}

/// `str::find` on strings.
pub fn find_str(s: &str, p: &str) -> (r: Option<usize>)
    ensures
        r matches Some(k) ==> find(s@, p@) == Some(k as int),
        r is None ==> find(s@, p@) is None,
{
    let sv = chars_of(s);
    let pv = chars_of(p);
    find_from_exec(sv.as_slice(), pv.as_slice(), 0)
}

/// `str::contains`.
pub fn contains_str(s: &str, p: &str) -> (b: bool)
    ensures
        b == contains(s@, p@),
{
    find_str(s, p).is_some()
}

/// `str::starts_with`.
pub fn starts_with_str(s: &str, p: &str) -> (b: bool)
    ensures
        b == starts_with(s@, p@),
{
    let sv = chars_of(s);
    let pv = chars_of(p);
    match_at_exec(sv.as_slice(), pv.as_slice(), 0)
}

/// `str::ends_with`.
pub fn ends_with_str(s: &str, p: &str) -> (b: bool)
    ensures
        b == ends_with(s@, p@),
{
    let sv = chars_of(s);
    let pv = chars_of(p);
    if pv.len() > sv.len() {
        return false;
    }
    match_at_exec(sv.as_slice(), pv.as_slice(), sv.len() - pv.len())
}

/// Index of the first non-white-space character (or the length).
pub fn trim_start_index(s: &[char]) -> (k: usize)
    ensures
        k <= s@.len(),
        trim_start(s@) == s@.subrange(k as int, s@.len() as int),
{
    let mut k: usize = 0;
    while k < s.len() && is_ws_char(s[k])
        invariant
            k <= s@.len(),
            forall|i: int| 0 <= i < k ==> is_ws(#[trigger] s@[i]),
        decreases s.len() - k,
    {
        k += 1;
    }
    proof {
        lemma_trim_start_at(s@, k as int);
    }
    k
}

/// `str::trim` on a string.
pub fn trim_str(s: &str) -> (r: String)
    ensures
        r@ == trim(s@),
{
    let v = chars_of(s);
    let start = trim_start_index(v.as_slice());
    let mut end = v.len();
    while end > start && is_ws_char(v[end - 1])
        invariant
            start <= end <= v@.len(),
            forall|i: int| end <= i < v@.len() ==> is_ws(#[trigger] v@[i]),
        decreases end,
    {
        end -= 1;
    }
    proof {
        let t = v@.subrange(start as int, v@.len() as int);
        let k = end - start;
        if k > 0 {
            assert(!is_ws(v@[end - 1]));
            assert(t[k - 1] == v@[end - 1]);
        }
        assert forall|i: int| k <= i < t.len() implies is_ws(#[trigger] t[i]) by {
            assert(t[i] == v@[start + i]);
        }
        lemma_trim_end_at(t, k as int);
        assert(t.subrange(0, k as int) =~= v@.subrange(start as int, end as int));
    }
    string_of(slice_chars(v.as_slice(), start, end).as_slice())
}

/// Whether the trimmed string is empty.
pub fn is_blank(s: &str) -> (b: bool)
    ensures
        b == (trim(s@).len() == 0),
{
    let t = trim_str(s);
    t.as_str().unicode_len() == 0
}

/// ASCII case-insensitive equality.
pub fn eq_ignore_ascii_case_str(a: &str, b: &str) -> (r: bool)
    ensures
        r == eq_ignore_ascii_case(a@, b@),
{
    let av = chars_of(a);
    let bv = chars_of(b);
    if av.len() != bv.len() {
        return false;
    }
    let mut i: usize = 0;
    while i < av.len()
        invariant
            av@ == a@,
            bv@ == b@,
            av@.len() == bv@.len(),
            i <= av@.len(),
            forall|k: int| 0 <= k < i ==> ascii_lower(#[trigger] av@[k]) == ascii_lower(bv@[k]),
        decreases av.len() - i,
    {
        if ascii_lower_char(av[i]) != ascii_lower_char(bv[i]) {
            assert(ascii_lower(av@[i as int]) != ascii_lower(bv@[i as int]));
            assert(!eq_ignore_ascii_case(av@, bv@));
            return false;
        }
        i += 1;
    }
    true
}

/// Lexicographic comparison: -1, 0 or 1.
pub fn lex_order(a: &[char], b: &[char]) -> (r: i8)
    ensures
        r == -1 <==> lex_lt(a@, b@),
        r == 0 <==> a@ == b@,
        r == 1 <==> lex_lt(b@, a@),
        r == -1 || r == 0 || r == 1,
{
    let mut i: usize = 0;
    while i < a.len() && i < b.len() && a[i] == b[i]
        invariant
            i <= a@.len(),
            i <= b@.len(),
            a@.subrange(0, i as int) == b@.subrange(0, i as int),
        decreases a.len() - i,
    {
        i += 1;
        assert(a@.subrange(0, i as int) =~= b@.subrange(0, i as int));
    }
    proof {
        lemma_lex_prefix(a@, b@, i as int);
        lemma_lex_total(a@, b@);
        lemma_lex_irreflexive(a@);
        if lex_lt(a@, b@) {
            lemma_lex_asymmetric(a@, b@);
        }
    }
    if i < a.len() && i < b.len() {
        if a[i] < b[i] {
            -1
        } else {
            1
        }
    } else if i < b.len() {
        -1
    } else if i < a.len() {
        1
    } else {
        assert(a@ =~= a@.subrange(0, i as int));
        assert(b@ =~= b@.subrange(0, i as int));
        0
    }
}

/// After a common prefix of length `i`, the order is decided by what follows.
pub proof fn lemma_lex_prefix(a: Seq<char>, b: Seq<char>, i: int)
    requires
        0 <= i <= a.len(),
        i <= b.len(),
        a.subrange(0, i) == b.subrange(0, i),
    ensures
        lex_lt(a, b) == lex_lt(a.skip(i), b.skip(i)),
    decreases i,
{
    if i > 0 {
        assert(a[0] == a.subrange(0, i)[0]);
        assert(b[0] == b.subrange(0, i)[0]);
        assert(a.drop_first().subrange(0, i - 1) =~= b.drop_first().subrange(0, i - 1)) by {
            assert forall|k: int| 0 <= k < i - 1 implies a.drop_first()[k] == b.drop_first()[k] by {
                assert(a.subrange(0, i)[k + 1] == a[k + 1]);
                assert(b.subrange(0, i)[k + 1] == b[k + 1]);
                assert(a.subrange(0, i)[k + 1] == b.subrange(0, i)[k + 1]);
            }
        }
        lemma_lex_prefix(a.drop_first(), b.drop_first(), i - 1);
        assert(a.drop_first().skip(i - 1) =~= a.skip(i));
        assert(b.drop_first().skip(i - 1) =~= b.skip(i));
    } else {
        assert(a.skip(0) =~= a);
        assert(b.skip(0) =~= b);
    }
}

/// Appends the decimal rendering of `n`.
pub fn push_decimal(s: &mut String, n: u64)
    ensures
        final(s)@ == old(s)@ + decimal(n as nat),
    decreases n,
{
    if n >= 10 {
        push_decimal(s, n / 10);
    }
    let d: u64 = n % 10;
    let c = char_from_ascii((48 + d) as u32);
    push_char(s, c);
    proof {
        assert(digit_char((n % 10) as nat) == c);
        if n >= 10 {
            assert(decimal(n as nat) == decimal((n / 10) as nat).push(digit_char((n % 10) as nat)));
        }
    }
    assert(final(s)@ =~= old(s)@ + decimal(n as nat));
}

/// Decimal rendering of a number as a string.
pub fn decimal_string(n: u64) -> (s: String)
    ensures
        s@ == decimal(n as nat),
{
    let mut s = String::new();
    push_decimal(&mut s, n);
    assert(s@ =~= decimal(n as nat));
    s
}

/// Decimal rendering of an integer, with a minus sign when it is negative.
pub open spec fn signed_decimal(n: int) -> Seq<char> {
    if n < 0 {
        seq!['-'] + decimal((-n) as nat)
    } else {
        decimal(n as nat)
    }
}

/// Decimal rendering of a signed number, as `to_string` gives it.
pub fn i64_string(n: i64) -> (s: String)
    ensures
        s@ == signed_decimal(n as int),
{
    let mut s = String::new();
    if n < 0 {
        push_char(&mut s, '-');
        let m: u64 = if n == i64::MIN {
            9223372036854775808u64
        } else {
            (-n) as u64
        };
        push_decimal(&mut s, m);
        assert(s@ =~= seq!['-'] + decimal((-n) as nat));
    } else {
        push_decimal(&mut s, n as u64);
        assert(s@ =~= decimal(n as nat));
    }
    s
}

/// Value of a run of digits, if it fits in `u64`.
pub fn digits_to_u64(v: &[char]) -> (r: Option<u64>)
    requires
        all_digits(v@),
    ensures
        r matches Some(x) ==> x == digits_value(v@),
        r is None ==> digits_value(v@) > u64::MAX,
{
    let mut acc: u64 = 0;
    let mut i: usize = 0;
    while i < v.len()
        invariant
            i <= v@.len(),
            all_digits(v@),
            acc == digits_value(v@.take(i as int)),
        decreases v.len() - i,
    {
        assert(v@.take(i + 1).drop_last() =~= v@.take(i as int));
        let d = (v[i] as u32 - 48) as u64;
        assert(is_digit(v@[i as int]));
        proof {
            lemma_digit_roundtrip(0);
            assert(v@.take(i + 1).last() == v@[i as int]);
            assert(digits_value(v@.take(i + 1)) == acc * 10 + digit_value(v@[i as int]));
            assert(digit_value(v@[i as int]) == d);
        }
        if acc > (u64::MAX - d) / 10 {
            proof {
                lemma_digits_value_monotone(v@, i as int + 1);
                assert(acc * 10 + d > u64::MAX) by (nonlinear_arith)
                    requires
                        acc > (u64::MAX - d) / 10,
                        d <= 9,
                ;
            }
            return None;
        }
        acc = acc * 10 + d;
        i += 1;
    }
    assert(v@.take(v@.len() as int) =~= v@);
    Some(acc)
}

/// A longer prefix of digits is worth at least as much.
pub proof fn lemma_digits_value_monotone(s: Seq<char>, k: int)
    requires
        0 <= k <= s.len(),
        all_digits(s),
    ensures
        digits_value(s.take(k)) <= digits_value(s),
    decreases s.len() - k,
{
    if k < s.len() {
        lemma_digits_value_monotone(s, k + 1);
        assert(s.take(k + 1).drop_last() =~= s.take(k));
        assert(s.take(k + 1).last() == s[k]);
        assert(digits_value(s.take(k + 1)) == digits_value(s.take(k)) * 10 + digit_value(s[k]));
    } else {
        assert(s.take(k) =~= s);
    }
}

/// Whether every character is an ASCII digit.
pub fn all_digits_exec(v: &[char]) -> (b: bool)
    ensures
        b == all_digits(v@),
{
    let mut i: usize = 0;
    while i < v.len()
        invariant
            i <= v@.len(),
            forall|k: int| 0 <= k < i ==> is_digit(#[trigger] v@[k]),
        decreases v.len() - i,
    {
        if !is_digit_char(v[i]) {
            return false;
        }
        i += 1;
    }
    true
}

/// `str::parse::<u64>()`.
pub fn parse_u64(s: &str) -> (r: Option<u64>)
    ensures
        r matches Some(x) ==> parse_unsigned(s@) == Some(x as nat),
        r is None ==> parse_unsigned(s@) is None || parse_unsigned(s@).unwrap() > u64::MAX,
{
    let v = chars_of(s);
    let body = if v.len() > 0 && v[0] == '+' {
        slice_chars(v.as_slice(), 1, v.len())
    } else {
        v.clone()
    };
    proof {
        if v@.len() > 0 && v@[0] == '+' {
            assert(body@ =~= v@.drop_first());
        } else {
            assert(body@ =~= v@);
        }
    }
    if body.len() == 0 || !all_digits_exec(body.as_slice()) {
        return None;
    }
    digits_to_u64(body.as_slice())
}

/// `str::parse::<u32>()`.
pub fn parse_u32(s: &str) -> (r: Option<u32>)
    ensures
        r matches Some(x) ==> parse_unsigned(s@) == Some(x as nat),
        r is None ==> parse_unsigned(s@) is None || parse_unsigned(s@).unwrap() > u32::MAX,
{
    match parse_u64(s) {
        Some(x) => if x <= u32::MAX as u64 {
            Some(x as u32)
        } else {
            None
        },
        None => None,
    }
}

/// `str::parse::<usize>()`.
pub fn parse_usize(s: &str) -> (r: Option<usize>)
    ensures
        r matches Some(x) ==> parse_unsigned(s@) == Some(x as nat),
        r is None ==> parse_unsigned(s@) is None || parse_unsigned(s@).unwrap() > usize::MAX,
{
    match parse_u64(s) {
        Some(x) => if x as u128 <= usize::MAX as u128 {
            Some(x as usize)
        } else {
            None
        },
        None => None,
    }
}

/// `str::parse::<i64>()`.
pub fn parse_i64(s: &str) -> (r: Option<i64>)
    ensures
        r matches Some(x) ==> parse_signed(s@) == Some(x as int),
        r is None ==> parse_signed(s@) is None || parse_signed(s@).unwrap() > i64::MAX
            || parse_signed(s@).unwrap() < i64::MIN,
{
    let v = chars_of(s);
    if v.len() > 0 && v[0] == '-' {
        let body = slice_chars(v.as_slice(), 1, v.len());
        assert(body@ =~= v@.drop_first());
        if body.len() == 0 || !all_digits_exec(body.as_slice()) {
            return None;
        }
        match digits_to_u64(body.as_slice()) {
            Some(x) => if x <= 9223372036854775808u64 {
                if x == 9223372036854775808u64 {
                    Some(i64::MIN)
                } else {
                    Some(-(x as i64))
                }
            } else {
                None
            },
            None => None,
        }
    } else {
        match parse_u64(s) {
            Some(x) => if x <= i64::MAX as u64 {
                Some(x as i64)
            } else {
                None
            },
            None => None,
        }
    }
}

/// `str::parse::<i32>()`.
pub fn parse_i32(s: &str) -> (r: Option<i32>)
    ensures
        r matches Some(x) ==> parse_signed(s@) == Some(x as int),
        r is None ==> parse_signed(s@) is None || parse_signed(s@).unwrap() > i32::MAX
            || parse_signed(s@).unwrap() < i32::MIN,
{
    match parse_i64(s) {
        Some(x) => if i32::MIN as i64 <= x && x <= i32::MAX as i64 {
            Some(x as i32)
        } else {
            None
        },
        None => None,
    }
}

/// The views of a sequence of character vectors.
pub open spec fn views(v: Seq<Vec<char>>) -> Seq<Seq<char>> {
    v.map_values(|x: Vec<char>| x@)
}

/// Splits at every occurrence of `c`.
pub fn split_chars(s: &[char], c: char) -> (r: Vec<Vec<char>>)
    ensures
        views(r@) == split_char(s@, c),
    decreases s@.len(),
{
    proof {
        lemma_find_from_spec(s@, seq![c], 0);
    }
    match find_char_from(s, c, 0) {
        None => {
            let v = slice_chars(s, 0, s.len());
            assert(v@ =~= s@);
            let r = vec![v];
            assert(views(r@) =~= seq![s@]);
            r
        },
        Some(i) => {
            assert(match_at(s@, seq![c], i as int));
            assert(i + 1 <= s.len());
            let head = slice_chars(s, 0, i);
            let tail = slice_chars(s, i + 1, s.len());
            assert(head@ =~= s@.take(i as int));
            assert(tail@ =~= s@.skip(i + 1));
            let rest = split_chars(tail.as_slice(), c);
            let mut r = vec![head];
            let ghost r0 = r@;
            let mut rest = rest;
            let ghost rest0 = rest@;
            r.append(&mut rest);
            assert(r@ =~= r0 + rest0);
            assert(views(r@) =~= seq![s@.take(i as int)] + split_char(s@.skip(i + 1), c));
            r
        },
    }
}

/// Splits a string at every occurrence of `c`.
pub fn split_str(s: &str, c: char) -> (r: Vec<String>)
    ensures
        r@.len() == split_char(s@, c).len(),
        forall|i: int| 0 <= i < r@.len() ==> #[trigger] r@[i]@ == split_char(s@, c)[i],
{
    let v = chars_of(s);
    let parts = split_chars(v.as_slice(), c);
    let mut r: Vec<String> = Vec::new();
    let mut i: usize = 0;
    while i < parts.len()
        invariant
            i <= parts@.len(),
            views(parts@) == split_char(s@, c),
            r@.len() == i,
            forall|k: int| 0 <= k < i ==> #[trigger] r@[k]@ == split_char(s@, c)[k],
        decreases parts.len() - i,
    {
        assert(views(parts@)[i as int] == parts@[i as int]@);
        r.push(string_of(parts[i].as_slice()));
        i += 1;
    }
    r
}

/// Replaces every character `from` by `to`.
pub fn replace_char_str(s: &str, from: char, to: char) -> (r: String)
    ensures
        r@ == replace_char(s@, from, to),
{
    let v = chars_of(s);
    let mut out: Vec<char> = Vec::new();
    let mut i: usize = 0;
    while i < v.len()
        invariant
            i <= v@.len(),
            out@ == replace_char(v@.take(i as int), from, to),
        decreases v.len() - i,
    {
        let c = v[i];
        out.push(if c == from { to } else { c });
        i += 1;
        assert(out@ =~= replace_char(v@.take(i as int), from, to));
    }
    assert(v@.take(v@.len() as int) =~= v@);
    string_of(out.as_slice())
}

/// Removes every occurrence of `c`.
pub fn remove_char_str(s: &str, c: char) -> (r: String)
    ensures
        r@ == remove_char(s@, c),
{
    let v = chars_of(s);
    let mut out: Vec<char> = Vec::new();
    let mut i: usize = 0;
    while i < v.len()
        invariant
            i <= v@.len(),
            out@ == remove_char(v@.take(i as int), c),
        decreases v.len() - i,
    {
        let x = v[i];
        proof {
            reveal_with_fuel(Seq::filter, 1);
            assert(v@.take(i + 1).drop_last() =~= v@.take(i as int));
        }
        if x != c {
            out.push(x);
        }
        i += 1;
        assert(out@ =~= remove_char(v@.take(i as int), c));
    }
    assert(v@.take(v@.len() as int) =~= v@);
    string_of(out.as_slice())
}

// ---------------------------------------------------------------------------
// ISO-8859-1
// ---------------------------------------------------------------------------

/// Whether every character has a one-byte ISO-8859-1 code.
pub open spec fn latin1_encodable(s: Seq<char>) -> bool {
    forall|i: int| 0 <= i < s.len() ==> (#[trigger] s[i]) as u32 <= 255
}

/// The ISO-8859-1 bytes of encodable characters.
pub open spec fn latin1_bytes(s: Seq<char>) -> Seq<u8> {
    s.map_values(|c: char| (c as u32) as u8)
}

/// The characters of ISO-8859-1 bytes.
pub open spec fn latin1_chars(b: Seq<u8>) -> Seq<char> {
    b.map_values(|x: u8| x as char)
}

/// Index of the first character without an ISO-8859-1 code.
pub open spec fn first_non_latin1(s: Seq<char>) -> int {
    choose|i: int| 0 <= i < s.len() && (s[i] as u32) > 255 && forall|j: int|
        0 <= j < i ==> (#[trigger] s[j]) as u32 <= 255
}

pub proof fn lemma_latin1_roundtrip(s: Seq<char>)
    requires
        latin1_encodable(s),
    ensures
        latin1_chars(latin1_bytes(s)) == s,
{
    assert forall|i: int| 0 <= i < s.len() implies #[trigger] latin1_chars(latin1_bytes(s))[i]
        == s[i] by {
        let c = s[i];
        let x: u32 = c as u32;
        assert(x <= 255);
        let b: u8 = x as u8;
        assert(b as u32 == x);
        vstd::utf8::char_u32_cast(c, x);
        assert((b as char) == (x as char));
    }
    assert(latin1_chars(latin1_bytes(s)) =~= s);
}

pub proof fn lemma_latin1_chars_encodable(b: Seq<u8>)
    ensures
        latin1_encodable(latin1_chars(b)),
        latin1_bytes(latin1_chars(b)) == b,
{
    assert forall|i: int| 0 <= i < b.len() implies #[trigger] latin1_bytes(latin1_chars(b))[i]
        == b[i] by {
        let x = b[i];
        assert((x as char) as u32 == x as u32);
        assert((((x as char) as u32) as u8) == x);
    }
    assert(latin1_bytes(latin1_chars(b)) =~= b);
}

/// ISO-8859-1 bytes of a string; `None` if a character has no such code.
pub fn latin1_encode(s: &str) -> (r: Option<Vec<u8>>)
    ensures
        r matches Some(b) ==> latin1_encodable(s@) && b@ == latin1_bytes(s@),
        r is None ==> !latin1_encodable(s@),
{
    let v = chars_of(s);
    let mut out: Vec<u8> = Vec::new();
    let mut i: usize = 0;
    while i < v.len()
        invariant
            v@ == s@,
            i <= v@.len(),
            latin1_encodable(v@.take(i as int)),
            out@ == latin1_bytes(v@.take(i as int)),
        decreases v.len() - i,
    {
        let code = v[i] as u32;
        if code > 255 {
            return None;
        }
        out.push(code as u8);
        i += 1;
        assert(out@ =~= latin1_bytes(v@.take(i as int)));
    }
    assert(v@.take(v@.len() as int) =~= v@);
    Some(out)
}

/// The characters of ISO-8859-1 bytes, as a string.
pub fn latin1_decode(b: &[u8]) -> (s: String)
    ensures
        s@ == latin1_chars(b@),
{
    let mut s = String::new();
    let mut i: usize = 0;
    while i < b.len()
        invariant
            i <= b@.len(),
            s@ == latin1_chars(b@.take(i as int)),
        decreases b.len() - i,
    {
        push_char(&mut s, b[i] as char);
        i += 1;
        assert(s@ =~= latin1_chars(b@.take(i as int)));
    }
    assert(b@.take(b@.len() as int) =~= b@);
    s
}

// ---------------------------------------------------------------------------
// Hexadecimal rendering
// ---------------------------------------------------------------------------

/// The upper-case hexadecimal digit for `d < 16`.
pub open spec fn hex_digit_upper(d: nat) -> char {
    if d < 10 {
        (('0' as u32) + d) as char
    } else {
        (('A' as u32) + (d - 10)) as char
    }
}

/// Upper-case hexadecimal rendering of a natural number, without leading zeros.
pub open spec fn hex_upper(n: nat) -> Seq<char>
    decreases n,
{
    if n < 16 {
        seq![hex_digit_upper(n)]
    } else {
        hex_upper(n / 16).push(hex_digit_upper(n % 16))
    }
}

/// `s` preceded by as many copies of `c` as make it `width` long.
pub open spec fn pad_left(s: Seq<char>, width: nat, c: char) -> Seq<char> {
    if s.len() >= width {
        s
    } else {
        Seq::new((width - s.len()) as nat, |i: int| c) + s
    }
}

/// The character of a hexadecimal digit value.
pub fn hex_digit_upper_char(d: u32) -> (c: char)
    requires
        d < 16,
    ensures
        c == hex_digit_upper(d as nat),
{
    if d < 10 {
        char_from_ascii(48 + d)
    } else {
        char_from_ascii(55 + d)
    }
}

/// Appends the upper-case hexadecimal rendering of `n`.
pub fn push_hex_upper(s: &mut String, n: u64)
    ensures
        final(s)@ == old(s)@ + hex_upper(n as nat),
    decreases n,
{
    if n >= 16 {
        push_hex_upper(s, n / 16);
    }
    let d: u64 = n % 16;
    let c = hex_digit_upper_char(d as u32);
    push_char(s, c);
    proof {
        if n >= 16 {
            assert(hex_upper(n as nat) == hex_upper((n / 16) as nat).push(
                hex_digit_upper((n % 16) as nat),
            ));
        }
    }
    assert(final(s)@ =~= old(s)@ + hex_upper(n as nat));
}

/// Upper-case hexadecimal rendering of `n`, padded with zeros to `width` digits.
pub fn hex_upper_padded(n: u64, width: usize) -> (s: String)
    ensures
        s@ == pad_left(hex_upper(n as nat), width as nat, '0'),
{
    let mut digits = String::new();
    push_hex_upper(&mut digits, n);
    assert(digits@ =~= hex_upper(n as nat));
    let len = char_len(digits.as_str());
    let mut s = String::new();
    let mut k: usize = len;
    while k < width
        invariant
            len <= k <= width || (len >= width && k == len),
            s@ == Seq::new((k - len) as nat, |i: int| '0'),
        decreases width - k,
    {
        push_char(&mut s, '0');
        k += 1;
        assert(s@ =~= Seq::new((k - len) as nat, |i: int| '0'));
    }
    let r = concat(s.as_str(), digits.as_str());
    proof {
        if len >= width {
            assert(s@ =~= Seq::<char>::empty());
            assert(r@ =~= digits@);
        } else {
            assert(k == width);
        }
    }
    r
}

// ---------------------------------------------------------------------------
// Appending, byte lengths
// ---------------------------------------------------------------------------

/// Appends a string slice (`String::push_str`).
pub fn append(s: &mut String, t: &str)
    ensures
        final(s)@ == old(s)@ + t@,
{
    s.append(t);
}

/// Number of bytes in the UTF-8 encoding of a character.
pub open spec fn utf8_width(c: char) -> nat {
    if (c as u32) < 0x80 {
        1
    } else if (c as u32) < 0x800 {
        2
    } else if (c as u32) < 0x10000 {
        3
    } else {
        4
    }
}

/// Number of bytes in the UTF-8 encoding of a text (what `str::len` returns).
pub open spec fn utf8_len(s: Seq<char>) -> nat
    decreases s.len(),
{
    if s.len() == 0 {
        0
    } else {
        utf8_width(s[0]) + utf8_len(s.drop_first())
    }
}

pub proof fn lemma_utf8_len(s: Seq<char>)
    ensures
        vstd::utf8::encode_utf8(s).len() == utf8_len(s),
    decreases s.len(),
{
    if s.len() > 0 {
        vstd::utf8::char_is_scalar(s[0]);
        lemma_utf8_len(s.drop_first());
    }
}

/// A text of ASCII characters has as many bytes as characters.
pub proof fn lemma_utf8_len_ascii(s: Seq<char>)
    requires
        forall|i: int| 0 <= i < s.len() ==> (#[trigger] s[i] as u32) < 0x80,
    ensures
        utf8_len(s) == s.len(),
    decreases s.len(),
{
    if s.len() > 0 {
        assert forall|i: int| 0 <= i < s.drop_first().len() implies (#[trigger] s.drop_first()[i]
            as u32) < 0x80 by {
            assert(s.drop_first()[i] == s[i + 1]);
        }
        lemma_utf8_len_ascii(s.drop_first());
    }
}

/// Number of bytes of a string (`str::len`).
pub fn byte_len(s: &str) -> (n: usize)
    ensures
        n == utf8_len(s@),
{
    proof {
        lemma_utf8_len(s@);
    }
    s.as_bytes().len()
}

// ---------------------------------------------------------------------------
// Integer parsing with the error kinds of `str::parse`
// ---------------------------------------------------------------------------

/// Why a text is not an integer of a given range (`core::num::IntErrorKind`).
#[derive(Debug, Clone, Copy, PartialEq, Eq, Structural)]
pub enum IntErrorKind {
    Empty,
    InvalidDigit,
    PosOverflow,
    NegOverflow,
}

/// The text that a parse error displays.
pub open spec fn int_error_text(k: IntErrorKind) -> Seq<char> {
    match k {
        IntErrorKind::Empty => "cannot parse integer from empty string"@,
        IntErrorKind::InvalidDigit => "invalid digit found in string"@,
        IntErrorKind::PosOverflow => "number too large to fit in target type"@,
        IntErrorKind::NegOverflow => "number too small to fit in target type"@,
    }
}

pub fn int_error_string(k: IntErrorKind) -> (s: String)
    ensures
        s@ == int_error_text(k),
{
    match k {
        IntErrorKind::Empty => "cannot parse integer from empty string".to_owned(),
        IntErrorKind::InvalidDigit => "invalid digit found in string".to_owned(),
        IntErrorKind::PosOverflow => "number too large to fit in target type".to_owned(),
        IntErrorKind::NegOverflow => "number too small to fit in target type".to_owned(),
    }
}

/// Accumulates decimal digits left to right, failing at the first
/// character that is not a digit or the first step outside `[lo, hi]`.
pub open spec fn digits_acc(d: Seq<char>, acc: int, positive: bool, lo: int, hi: int) -> Result<
    int,
    IntErrorKind,
>
    decreases d.len(),
{
    if d.len() == 0 {
        Ok(acc)
    } else if !is_digit(d[0]) {
        Err(IntErrorKind::InvalidDigit)
    } else {
        let a = if positive {
            acc * 10 + digit_value(d[0])
        } else {
            acc * 10 - digit_value(d[0])
        };
        if a > hi {
            Err(IntErrorKind::PosOverflow)
        } else if a < lo {
            Err(IntErrorKind::NegOverflow)
        } else {
            digits_acc(d.skip(1), a, positive, lo, hi)
        }
    }
}

/// What `str::parse` gives for an integer type with range `[lo, hi]`
/// (a type is signed when `lo < 0`).
pub open spec fn parse_int(s: Seq<char>, lo: int, hi: int) -> Result<int, IntErrorKind> {
    if s.len() == 0 {
        Err(IntErrorKind::Empty)
    } else if s.len() == 1 && (s[0] == '+' || s[0] == '-') {
        Err(IntErrorKind::InvalidDigit)
    } else if s[0] == '+' {
        digits_acc(s.skip(1), 0, true, lo, hi)
    } else if s[0] == '-' && lo < 0 {
        digits_acc(s.skip(1), 0, false, lo, hi)
    } else {
        digits_acc(s, 0, true, lo, hi)
    }
}

pub proof fn lemma_digits_acc_range(d: Seq<char>, acc: int, positive: bool, lo: int, hi: int)
    requires
        lo <= acc <= hi,
    ensures
        digits_acc(d, acc, positive, lo, hi) matches Ok(x) ==> lo <= x <= hi,
    decreases d.len(),
{
    if d.len() > 0 && is_digit(d[0]) {
        let a = if positive {
            acc * 10 + digit_value(d[0])
        } else {
            acc * 10 - digit_value(d[0])
        };
        if lo <= a <= hi {
            lemma_digits_acc_range(d.skip(1), a, positive, lo, hi);
        }
    }
}

pub proof fn lemma_parse_int_range(s: Seq<char>, lo: int, hi: int)
    requires
        lo <= 0 <= hi,
    ensures
        parse_int(s, lo, hi) matches Ok(x) ==> lo <= x <= hi,
{
    if s.len() > 0 {
        lemma_digits_acc_range(s.skip(1), 0, true, lo, hi);
        lemma_digits_acc_range(s.skip(1), 0, false, lo, hi);
        lemma_digits_acc_range(s, 0, true, lo, hi);
    }
}

/// `str::parse` for an integer range within `[i64::MIN, u64::MAX]`.
pub fn parse_int_in(s: &str, lo: i128, hi: i128) -> (r: Result<i128, IntErrorKind>)
    requires
        i64::MIN <= lo <= 0 <= hi <= u64::MAX,
    ensures
        r matches Ok(x) ==> parse_int(s@, lo as int, hi as int) == Ok::<int, IntErrorKind>(x as int),
        r matches Err(k) ==> parse_int(s@, lo as int, hi as int) == Err::<int, IntErrorKind>(k),
{
    let v = chars_of(s);
    if v.len() == 0 {
        return Err(IntErrorKind::Empty);
    }
    if v.len() == 1 && (v[0] == '+' || v[0] == '-') {
        return Err(IntErrorKind::InvalidDigit);
    }
    let mut start: usize = 0;
    let mut positive = true;
    if v[0] == '+' {
        start = 1;
    } else if v[0] == '-' && lo < 0 {
        start = 1;
        positive = false;
    }
    let ghost d = v@.skip(start as int);
    assert(parse_int(s@, lo as int, hi as int) == digits_acc(d, 0, positive, lo as int, hi as int)) by {
        if start == 0 {
            assert(d =~= v@);
        }
    }
    let mut acc: i128 = 0;
    let mut i: usize = start;
    assert(v@.skip(i as int) =~= d);
    while i < v.len()
        invariant
            start <= i <= v@.len(),
            v@ == s@,
            parse_int(s@, lo as int, hi as int) == digits_acc(d, 0, positive, lo as int, hi as int),
            i64::MIN <= lo <= 0 <= hi <= u64::MAX,
            lo <= acc <= hi,
            d == v@.skip(start as int),
            digits_acc(d, 0, positive, lo as int, hi as int) == digits_acc(
                v@.skip(i as int),
                acc as int,
                positive,
                lo as int,
                hi as int,
            ),
        decreases v.len() - i,
    {
        let c = v[i];
        assert(v@.skip(i as int)[0] == c);
        assert(v@.skip(i as int).skip(1) =~= v@.skip(i + 1));
        if !is_digit_char(c) {
            return Err(IntErrorKind::InvalidDigit);
        }
        let dv = (c as u32 - 48) as i128;
        proof {
            lemma_digit_roundtrip(0);
        }
        assert(dv == digit_value(c));
        let a: i128 = if positive {
            acc * 10 + dv
        } else {
            acc * 10 - dv
        };
        if a > hi {
            return Err(IntErrorKind::PosOverflow);
        }
        if a < lo {
            return Err(IntErrorKind::NegOverflow);
        }
        acc = a;
        i += 1;
    }
    assert(v@.skip(i as int).len() == 0);
    Ok(acc)
}

/// `str::parse::<i64>()` with its error kind.
pub fn parse_i64_with_kind(s: &str) -> (r: Result<i64, IntErrorKind>)
    ensures
        r matches Ok(x) ==> parse_int(s@, i64::MIN as int, i64::MAX as int) == Ok::<
            int,
            IntErrorKind,
        >(x as int),
        r matches Err(k) ==> parse_int(s@, i64::MIN as int, i64::MAX as int) == Err::<
            int,
            IntErrorKind,
        >(k),
{
    proof {
        lemma_parse_int_range(s@, i64::MIN as int, i64::MAX as int);
    }
    match parse_int_in(s, i64::MIN as i128, i64::MAX as i128) {
        Ok(x) => Ok(x as i64),
        Err(k) => Err(k),
    }
}

/// `str::parse::<usize>()` with its error kind.
pub fn parse_usize_with_kind(s: &str) -> (r: Result<usize, IntErrorKind>)
    ensures
        r matches Ok(x) ==> parse_int(s@, 0, usize::MAX as int) == Ok::<int, IntErrorKind>(
            x as int,
        ),
        r matches Err(k) ==> parse_int(s@, 0, usize::MAX as int) == Err::<int, IntErrorKind>(k),
{
    proof {
        lemma_parse_int_range(s@, 0, usize::MAX as int);
    }
    match parse_int_in(s, 0, usize::MAX as i128) {
        Ok(x) => Ok(x as usize),
        Err(k) => Err(k),
    }
}

/// `str::parse::<u32>()` with its error kind.
pub fn parse_u32_with_kind(s: &str) -> (r: Result<u32, IntErrorKind>)
    ensures
        r matches Ok(x) ==> parse_int(s@, 0, u32::MAX as int) == Ok::<int, IntErrorKind>(x as int),
        r matches Err(k) ==> parse_int(s@, 0, u32::MAX as int) == Err::<int, IntErrorKind>(k),
{
    proof {
        lemma_parse_int_range(s@, 0, u32::MAX as int);
    }
    match parse_int_in(s, 0, u32::MAX as i128) {
        Ok(x) => Ok(x as u32),
        Err(k) => Err(k),
    }
}

} // verus!

verus! {

/// The value of a hexadecimal digit of either case.
pub open spec fn hex_value(c: char) -> Option<nat> {
    if '0' <= c && c <= '9' {
        Some((c as nat - 48) as nat)
    } else if 'A' <= c && c <= 'F' {
        Some((c as nat - 55) as nat)
    } else if 'a' <= c && c <= 'f' {
        Some((c as nat - 87) as nat)
    } else {
        None
    }
}

/// The value of a hexadecimal digit.
pub fn hex_digit_value(c: char) -> (r: Option<u32>)
    ensures
        r matches Some(x) ==> hex_value(c) == Some(x as nat) && x < 16,
        r is None ==> hex_value(c) is None,
{
    if '0' <= c && c <= '9' {
        Some(c as u32 - 48)
    } else if 'A' <= c && c <= 'F' {
        Some(c as u32 - 55)
    } else if 'a' <= c && c <= 'f' {
        Some(c as u32 - 87)
    } else {
        None
    }
}

/// Accumulates hexadecimal digits left to right, failing at the first
/// character that is not one or the first step above `hi`.
pub open spec fn hex_acc(d: Seq<char>, acc: int, hi: int) -> Result<int, IntErrorKind>
    decreases d.len(),
{
    if d.len() == 0 {
        Ok(acc)
    } else {
        match hex_value(d[0]) {
            None => Err(IntErrorKind::InvalidDigit),
            Some(x) => {
                let a = acc * 16 + x;
                if a > hi {
                    Err(IntErrorKind::PosOverflow)
                } else {
                    hex_acc(d.skip(1), a, hi)
                }
            },
        }
    }
}

/// What `from_str_radix(s, 16)` gives for an unsigned type whose largest
/// value is `hi`.
pub open spec fn parse_hex_int(s: Seq<char>, hi: int) -> Result<int, IntErrorKind> {
    if s.len() == 0 {
        Err(IntErrorKind::Empty)
    } else if s.len() == 1 && (s[0] == '+' || s[0] == '-') {
        Err(IntErrorKind::InvalidDigit)
    } else if s[0] == '+' {
        hex_acc(s.skip(1), 0, hi)
    } else {
        hex_acc(s, 0, hi)
    }
}

proof fn lemma_hex_acc_range(d: Seq<char>, acc: int, hi: int)
    requires
        0 <= acc <= hi,
    ensures
        hex_acc(d, acc, hi) matches Ok(x) ==> 0 <= x <= hi,
    decreases d.len(),
{
    if d.len() > 0 {
        match hex_value(d[0]) {
            None => {},
            Some(x) => {
                let a = acc * 16 + x;
                if a <= hi {
                    lemma_hex_acc_range(d.skip(1), a, hi);
                }
            },
        }
    }
}

/// `u32::from_str_radix(s, 16)` with its error kind.
pub fn parse_hex_u32(s: &str) -> (r: Result<u32, IntErrorKind>)
    ensures
        r matches Ok(x) ==> parse_hex_int(s@, u32::MAX as int) == Ok::<int, IntErrorKind>(x as int),
        r matches Err(k) ==> parse_hex_int(s@, u32::MAX as int) == Err::<int, IntErrorKind>(k),
{
    let v = chars_of(s);
    if v.len() == 0 {
        return Err(IntErrorKind::Empty);
    }
    if v.len() == 1 && (v[0] == '+' || v[0] == '-') {
        return Err(IntErrorKind::InvalidDigit);
    }
    let start: usize = if v[0] == '+' {
        1
    } else {
        0
    };
    let ghost d = v@.skip(start as int);
    assert(parse_hex_int(s@, u32::MAX as int) == hex_acc(d, 0, u32::MAX as int)) by {
        if start == 0 {
            assert(d =~= v@);
        }
    }
    let mut acc: u64 = 0;
    let mut i: usize = start;
    while i < v.len()
        invariant
            start <= i <= v@.len(),
            v@ == s@,
            parse_hex_int(s@, u32::MAX as int) == hex_acc(d, 0, u32::MAX as int),
            acc <= u32::MAX,
            d == v@.skip(start as int),
            hex_acc(d, 0, u32::MAX as int) == hex_acc(v@.skip(i as int), acc as int, u32::MAX as int),
        decreases v.len() - i,
    {
        assert(v@.skip(i as int)[0] == v@[i as int]);
        assert(v@.skip(i as int).skip(1) =~= v@.skip(i + 1));
        match hex_digit_value(v[i]) {
            None => {
                return Err(IntErrorKind::InvalidDigit);
            },
            Some(x) => {
                let a: u64 = acc * 16 + x as u64;
                if a > u32::MAX as u64 {
                    return Err(IntErrorKind::PosOverflow);
                }
                acc = a;
            },
        }
        i += 1;
    }
    assert(v@.skip(i as int).len() == 0);
    Ok(acc as u32)
}

} // verus!
