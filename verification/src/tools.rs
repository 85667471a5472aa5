//! Small helpers on codes and texts, and the lookup of parameters by
//! dotted path in the bank's parameter data.

use vstd::prelude::*;
use crate::error::{ErrorView, HbciError, HbciErrorKind, HbciResult};
use crate::strmap::{
    canonical_keys, canonical_vals, lemma_canonical, lemma_entry, map_of, StrMap,
};
use crate::text::{
    chars_of, contains, decimal, ends_with, eq_ignore_ascii_case, eq_ignore_ascii_case_str, find,
    find_char_from, find_from, find_from_exec, is_ascii_alnum, is_blank, join, lemma_find_from_spec,
    match_at, match_at_exec, push_char, push_decimal, slice_chars, split_char, starts_with,
    string_of, trim, trim_str,
};

verus! {

/// Parameter data: names (dotted paths) mapped to values, in name order.
pub type Properties = StrMap<String>;

/// The view of an optional string.
pub open spec fn opt_view(o: Option<String>) -> Option<Seq<char>> {
    match o {
        Some(s) => Some(s@),
        None => None,
    }
}

/// The view of an optional string slice.
pub open spec fn opt_str_view(o: Option<&str>) -> Option<Seq<char>> {
    match o {
        Some(s) => Some(s@),
        None => None,
    }
}

// ---------------------------------------------------------------------------
// Codes and texts
// ---------------------------------------------------------------------------

/// The institute code of a segment code: its second character becomes `I`.
pub open spec fn ins_code(code: Seq<char>) -> Seq<char> {
    if code.len() < 3 {
        code
    } else {
        code.update(1, 'I')
    }
}

/// Turns a segment code such as `HKSAL` into its institute code `HISAL`;
/// codes shorter than three characters stay as they are.
pub fn to_ins_code(hbci_code: Option<&str>) -> (r: Option<String>)
    ensures
        hbci_code is None ==> r is None,
        hbci_code matches Some(c) ==> r matches Some(x) && x@ == ins_code(c@),
{
    let code = match hbci_code {
        Some(c) => c,
        None => return None,
    };
    let mut v = chars_of(code);
    if v.len() < 3 {
        return Some(code.to_owned());
    }
    v.set(1, 'I');
    Some(string_of(v.as_slice()))
}

/// The parameter segment code: the institute code followed by `S`.
pub fn to_parameter_code(hbci_code: Option<&str>) -> (r: Option<String>)
    ensures
        hbci_code is None ==> r is None,
        hbci_code matches Some(c) ==> r matches Some(x) && x@ == ins_code(c@).push('S'),
{
    match to_ins_code(hbci_code) {
        Some(mut code) => {
            push_char(&mut code, 'S');
            Some(code)
        },
        None => None,
    }
}

/// `true` exactly for the trimmed text `true` in any ASCII case.
pub fn to_boolean(value: Option<&str>) -> (b: bool)
    ensures
        b == (value matches Some(v) && eq_ignore_ascii_case(trim(v@), "true"@)),
{
    match value {
        Some(v) => {
            let t = trim_str(v);
            eq_ignore_ascii_case_str(t.as_str(), "true")
        },
        None => false,
    }
}

/// Whether there is a value with something other than white space.
pub fn has_text(value: Option<&str>) -> (b: bool)
    ensures
        b == (value matches Some(v) && trim(v@).len() > 0),
{
    match value {
        Some(v) => !is_blank(v),
        None => false,
    }
}

/// The views of a sequence of string slices.
pub open spec fn str_views(v: Seq<&str>) -> Seq<Seq<char>> {
    v.map_values(|x: &str| x@)
}

/// Joins the values, with the separator between them when one is given.
pub fn join_strings(values: Option<&[&str]>, separator: Option<&str>) -> (r: Option<String>)
    ensures
        values is None ==> r is None,
        values matches Some(vs) ==> r matches Some(x) && x@ == join(
            str_views(vs@),
            match separator {
                Some(s) => s@,
                None => Seq::<char>::empty(),
            },
        ),
{
    let values = match values {
        Some(v) => v,
        None => return None,
    };
    let ghost sep = match separator {
        Some(s) => s@,
        None => Seq::<char>::empty(),
    };
    let mut result = String::new();
    let mut i: usize = 0;
    while i < values.len()
        invariant
            i <= values@.len(),
            sep == match separator {
                Some(s) => s@,
                None => Seq::<char>::empty(),
            },
            result@ == join(str_views(values@.take(i as int)), sep),
        decreases values.len() - i,
    {
        let ghost before = result@;
        if i > 0 {
            if let Some(s) = separator {
                result.append(s);
            }
        }
        result.append(values[i]);
        proof {
            let parts = str_views(values@.take(i + 1));
            assert(parts.drop_last() =~= str_views(values@.take(i as int)));
            assert(parts.last() == values@[i as int]@);
            if i == 0 {
                assert(result@ =~= join(parts, sep));
            } else {
                assert(result@ =~= join(parts, sep));
            }
        }
        i += 1;
    }
    assert(values@.take(values@.len() as int) =~= values@);
    Some(result)
}

/// The characters kept in a file name.
pub open spec fn filename_char_ok(c: char) -> bool {
    is_ascii_alnum(c) || c == '_' || c == '.' || c == '-'
}

/// A file name reduced to its safe characters, at most 25 of them.
pub open spec fn sanitized(name: Seq<char>) -> Seq<char> {
    let kept = name.filter(|c: char| filename_char_ok(c));
    if kept.len() <= 25 {
        kept
    } else {
        kept.take(25)
    }
}

/// Keeps only ASCII letters, digits, `_`, `.` and `-`, and at most 25 of them.
pub fn sanitize_filename_component(name: &str) -> (r: String)
    ensures
        r@ == sanitized(name@),
{
    let v = chars_of(name);
    let mut out: Vec<char> = Vec::new();
    let mut i: usize = 0;
    while i < v.len()
        invariant
            i <= v@.len(),
            v@ == name@,
            out@ == v@.take(i as int).filter(|c: char| filename_char_ok(c)),
        decreases v.len() - i,
    {
        let c = v[i];
        proof {
            reveal_with_fuel(Seq::filter, 1);
            assert(v@.take(i + 1).drop_last() =~= v@.take(i as int));
        }
        let ok = ('0' <= c && c <= '9') || ('A' <= c && c <= 'Z') || ('a' <= c && c <= 'z') || c
            == '_' || c == '.' || c == '-';
        if ok {
            out.push(c);
        }
        i += 1;
        assert(out@ =~= v@.take(i as int).filter(|c: char| filename_char_ok(c)));
    }
    assert(v@.take(v@.len() as int) =~= v@);
    if out.len() > 25 {
        out.truncate(25);
    }
    string_of(out.as_slice())
}

// ---------------------------------------------------------------------------
// Parameter queries
// ---------------------------------------------------------------------------

/// The placeholder `{i}` of the `i`-th query parameter.
pub open spec fn placeholder(i: nat) -> Seq<char> {
    seq!['{'] + decimal(i) + seq!['}']
}

/// `s` with every occurrence of the non-empty pattern `p` replaced by `r`,
/// from the left.
pub open spec fn replace_all(s: Seq<char>, p: Seq<char>, r: Seq<char>) -> Seq<char>
    decreases s.len(),
{
    proof {
        lemma_find_from_spec(s, p, 0);
    }
    if p.len() == 0 {
        s
    } else {
        match find(s, p) {
            None => s,
            Some(i) => s.take(i) + r + replace_all(s.skip(i + p.len()), p, r),
        }
    }
}

/// The query text after filling in the first `n` parameters.
pub open spec fn with_params(q: Seq<char>, params: Seq<Seq<char>>, n: nat) -> Seq<char>
    decreases n,
{
    if n == 0 {
        q
    } else {
        replace_all(with_params(q, params, (n - 1) as nat), placeholder((n - 1) as nat), params[n - 1])
    }
}

/// `str::replace` with a non-empty pattern.
pub fn replace_all_str(s: &str, p: &str, r: &str) -> (out: String)
    requires
        p@.len() > 0,
    ensures
        out@ == replace_all(s@, p@, r@),
{
    let sv = chars_of(s);
    let pv = chars_of(p);
    let mut out = String::new();
    let mut pos: usize = 0;
    assert(sv@.skip(0) =~= sv@);
    assert(out@ + replace_all(sv@.skip(0), p@, r@) =~= replace_all(s@, p@, r@));
    loop
        invariant
            sv@ == s@,
            pv@ == p@,
            p@.len() > 0,
            pos <= sv@.len(),
            out@ + replace_all(sv@.skip(pos as int), p@, r@) == replace_all(s@, p@, r@),
        decreases sv@.len() - pos,
    {
        let rest = slice_chars(sv.as_slice(), pos, sv.len());
        assert(rest@ =~= sv@.skip(pos as int));
        match find_from_exec(rest.as_slice(), pv.as_slice(), 0) {
            None => {
                out.append(string_of(rest.as_slice()).as_str());
                assert(replace_all(rest@, p@, r@) == rest@);
                return out;
            },
            Some(i) => {
                proof {
                    lemma_find_from_spec(rest@, p@, 0);
                }
                let head = slice_chars(rest.as_slice(), 0, i);
                out.append(string_of(head.as_slice()).as_str());
                out.append(r);
                proof {
                    assert(head@ =~= rest@.take(i as int));
                    assert(rest@.skip(i + p@.len()) =~= sv@.skip(pos + i + p@.len()));
                }
                pos = pos + i + pv.len();
            },
        }
    }
}

/// The abstract content of a query.
pub ghost struct QueryView {
    pub text: Seq<char>,
    pub params_set: bool,
}

/// A path query into the bank parameters, possibly with `{0}`-style
/// placeholders that must be filled in before use.
#[derive(Debug, Clone)]
pub struct ParameterQuery {
    query: String,
    params_set: bool,
}

impl View for ParameterQuery {
    type V = QueryView;

    closed spec fn view(&self) -> QueryView {
        QueryView { text: self.query@, params_set: self.params_set }
    }
}

impl ParameterQuery {
    fn new_static(query: &str, need_params: bool) -> (q: Self)
        ensures
            q@ == (QueryView { text: query@, params_set: !need_params }),
    {
        ParameterQuery { query: query.to_owned(), params_set: !need_params }
    }

    /// Whether one-step (PIN only) operation is allowed.
    #[allow(non_snake_case)]
    pub fn BPD_PINTAN_CAN1STEP() -> (q: Self)
        ensures
            q@ == (QueryView { text: "Params*.TAN2StepPar*.ParTAN2Step*.can1step"@, params_set: true }),
    {
        Self::new_static("Params*.TAN2StepPar*.ParTAN2Step*.can1step", false)
    }

    /// The order hash mode of a TAN segment version (placeholder `{0}`).
    #[allow(non_snake_case)]
    pub fn BPD_PINTAN_ORDERHASHMODE() -> (q: Self)
        ensures
            q@ == (QueryView {
                text: "Params*.TAN2StepPar{0}.ParTAN2Step*.orderhashmode"@,
                params_set: false,
            }),
    {
        Self::new_static("Params*.TAN2StepPar{0}.ParTAN2Step*.orderhashmode", true)
    }

    #[allow(non_snake_case)]
    pub fn BPD_DECOUPLED_TIME_BEFORE_FIRST_STATUS_REQUEST() -> (q: Self)
        ensures
            q@ == (QueryView {
                text: "Params*.TAN2StepPar*.ParTAN2Step*.TAN2StepParams*.decoupled_time_before_first_status_request"@,
                params_set: true,
            }),
    {
        Self::new_static(
            "Params*.TAN2StepPar*.ParTAN2Step*.TAN2StepParams*.decoupled_time_before_first_status_request",
            false,
        )
    }

    #[allow(non_snake_case)]
    pub fn BPD_DECOUPLED_TIME_BEFORE_NEXT_STATUS_REQUEST() -> (q: Self)
        ensures
            q@ == (QueryView {
                text: "Params*.TAN2StepPar*.ParTAN2Step*.TAN2StepParams*.decoupled_time_before_next_status_request"@,
                params_set: true,
            }),
    {
        Self::new_static(
            "Params*.TAN2StepPar*.ParTAN2Step*.TAN2StepParams*.decoupled_time_before_next_status_request",
            false,
        )
    }

    #[allow(non_snake_case)]
    pub fn BPD_DECOUPLED_MAX_STATUS_REQUESTS() -> (q: Self)
        ensures
            q@ == (QueryView {
                text: "Params*.TAN2StepPar*.ParTAN2Step*.TAN2StepParams*.decoupled_max_status_requests"@,
                params_set: true,
            }),
    {
        Self::new_static(
            "Params*.TAN2StepPar*.ParTAN2Step*.TAN2StepParams*.decoupled_max_status_requests",
            false,
        )
    }

    #[allow(non_snake_case)]
    pub fn BPD_PINTAN_PINLEN_MIN() -> (q: Self)
        ensures
            q@ == (QueryView { text: "Params*.PinTanPar*.ParPinTan*.pinlen_min"@, params_set: true }),
    {
        Self::new_static("Params*.PinTanPar*.ParPinTan*.pinlen_min", false)
    }

    #[allow(non_snake_case)]
    pub fn BPD_PINTAN_PINLEN_MAX() -> (q: Self)
        ensures
            q@ == (QueryView { text: "Params*.PinTanPar*.ParPinTan*.pinlen_max"@, params_set: true }),
    {
        Self::new_static("Params*.PinTanPar*.ParPinTan*.pinlen_max", false)
    }

    /// Fills in `{0}`, `{1}`, … with the given parameters, in that order.
    pub fn with_parameters(&self, parameters: &[&str]) -> (q: Self)
        ensures
            q@.text == with_params(self@.text, str_views(parameters@), parameters@.len()),
            q@.params_set,
    {
        let mut query = self.query.clone();
        let mut i: usize = 0;
        while i < parameters.len()
            invariant
                i <= parameters@.len(),
                query@ == with_params(self@.text, str_views(parameters@), i as nat),
            decreases parameters.len() - i,
        {
            let mut ph = String::new();
            push_char(&mut ph, '{');
            push_decimal(&mut ph, i as u64);
            push_char(&mut ph, '}');
            assert(ph@ =~= placeholder(i as nat));
            query = replace_all_str(query.as_str(), ph.as_str(), parameters[i]);
            i += 1;
        }
        ParameterQuery { query, params_set: true }
    }

    /// The query text, once its parameters are filled in.
    pub fn get_query(&self) -> (r: HbciResult<&str>)
        ensures
            r matches Ok(q) ==> self@.params_set && q@ == self@.text,
            r matches Err(e) ==> !self@.params_set && e@.kind == HbciErrorKind::InvalidArgument,
    {
        if !self.params_set {
            let msg = crate::text::concat("Parameters not set in query: ", self.query.as_str());
            return Err(HbciError::new(HbciErrorKind::InvalidArgument, msg.as_str()));
        }
        Ok(self.query.as_str())
    }
}

// ---------------------------------------------------------------------------
// Path segments
// ---------------------------------------------------------------------------

/// `s` without leading `c` characters.
pub open spec fn strip_leading(s: Seq<char>, c: char) -> Seq<char>
    decreases s.len(),
{
    if s.len() > 0 && s[0] == c {
        strip_leading(s.drop_first(), c)
    } else {
        s
    }
}

/// `s` without trailing `c` characters.
pub open spec fn strip_trailing(s: Seq<char>, c: char) -> Seq<char>
    decreases s.len(),
{
    if s.len() > 0 && s.last() == c {
        strip_trailing(s.drop_last(), c)
    } else {
        s
    }
}

/// Whether a candidate path segment matches a pattern segment, in which a
/// leading `*` allows any prefix and a trailing `*` allows any suffix.
pub open spec fn segment_matches(pattern: Seq<char>, candidate: Seq<char>) -> bool {
    let open_end = ends_with(pattern, seq!['*']);
    let open_start = starts_with(pattern, seq!['*']);
    let core = strip_trailing(strip_leading(pattern, '*'), '*');
    if open_end && !open_start {
        starts_with(candidate, core)
    } else if !open_end && open_start {
        ends_with(candidate, core)
    } else if open_end && open_start {
        contains(candidate, core)
    } else {
        candidate == core
    }
}

/// The first dot-separated segment of a name.
pub open spec fn first_segment(name: Seq<char>) -> Seq<char> {
    split_char(name, '.')[0]
}

/// What follows the first dot of a name (the whole name if it has none).
pub open spec fn after_first_dot(name: Seq<char>) -> Seq<char> {
    match find(name, seq!['.']) {
        Some(i) => name.skip(i + 1),
        None => name,
    }
}

pub proof fn lemma_first_segment(name: Seq<char>)
    ensures
        find(name, seq!['.']) matches Some(i) ==> first_segment(name) == name.take(i),
        find(name, seq!['.']) is None ==> first_segment(name) == name,
{
}

struct PathSegmentMatcher {
    value: Vec<char>,
    starts_with: bool,
    ends_with: bool,
}

impl PathSegmentMatcher {
    spec fn pattern_ok(&self, pattern: Seq<char>) -> bool {
        &&& self.starts_with == ends_with(pattern, seq!['*'])
        &&& self.ends_with == starts_with(pattern, seq!['*'])
        &&& self.value@ == strip_trailing(strip_leading(pattern, '*'), '*')
    }

    fn new(pattern: &[char]) -> (m: Self)
        ensures
            m.pattern_ok(pattern@),
    {
        let star: Vec<char> = vec!['*'];
        let open_end = pattern.len() > 0 && pattern[pattern.len() - 1] == '*';
        let open_start = pattern.len() > 0 && pattern[0] == '*';
        proof {
            assert(star@ =~= seq!['*']);
            if pattern@.len() > 0 {
                assert(pattern@.subrange(0, 1) =~= seq![pattern@[0]]);
                assert(pattern@.subrange(pattern@.len() - 1, pattern@.len() as int) =~= seq![
                    pattern@.last(),
                ]);
            }
        }
        let mut start: usize = 0;
        assert(pattern@.skip(0) =~= pattern@);
        while start < pattern.len() && pattern[start] == '*'
            invariant
                start <= pattern@.len(),
                strip_leading(pattern@.skip(start as int), '*') == strip_leading(pattern@, '*'),
            decreases pattern.len() - start,
        {
            assert(pattern@.skip(start as int).drop_first() =~= pattern@.skip(start + 1));
            start += 1;
        }
        let mut end: usize = pattern.len();
        let ghost lead = pattern@.skip(start as int);
        assert(lead == strip_leading(pattern@, '*'));
        while end > start && pattern[end - 1] == '*'
            invariant
                start <= end <= pattern@.len(),
                lead == pattern@.skip(start as int),
                strip_trailing(pattern@.subrange(start as int, end as int), '*') == strip_trailing(
                    lead,
                    '*',
                ),
            decreases end,
        {
            assert(pattern@.subrange(start as int, end as int).drop_last() =~= pattern@.subrange(
                start as int,
                end - 1,
            ));
            end -= 1;
        }
        proof {
            assert(pattern@.subrange(start as int, pattern@.len() as int) =~= lead);
            let t = pattern@.subrange(start as int, end as int);
            if start < end {
                assert(t.last() != '*');
            }
            if start < pattern@.len() {
                assert(lead[0] != '*');
            }
            assert(strip_leading(lead, '*') == lead);
            assert(strip_trailing(t, '*') == t);
        }
        let value = slice_chars(pattern, start, end);
        PathSegmentMatcher { value, starts_with: open_end, ends_with: open_start }
    }

    fn matches(&self, candidate: &[char]) -> (b: bool)
        ensures
            forall|p: Seq<char>| self.pattern_ok(p) ==> b == segment_matches(p, candidate@),
    {
        assert(candidate@.subrange(0, candidate@.len() as int) =~= candidate@);
        let r = if self.starts_with && !self.ends_with {
            match_at_exec(candidate, self.value.as_slice(), 0)
        } else if !self.starts_with && self.ends_with {
            if self.value.len() > candidate.len() {
                false
            } else {
                match_at_exec(candidate, self.value.as_slice(), candidate.len() - self.value.len())
            }
        } else if self.starts_with && self.ends_with {
            find_from_exec(candidate, self.value.as_slice(), 0).is_some()
        } else {
            if candidate.len() != self.value.len() {
                false
            } else {
                match_at_exec(candidate, self.value.as_slice(), 0)
            }
        };
        proof {
            assert forall|p: Seq<char>| self.pattern_ok(p) implies r == segment_matches(
                p,
                candidate@,
            ) by {
                let core = strip_trailing(strip_leading(p, '*'), '*');
                assert(core == self.value@);
            }
        }
        r
    }
}

/// First segment and the rest of a name, computed on characters.
fn split_first_segment(name: &[char]) -> (r: (Vec<char>, Vec<char>))
    ensures
        r.0@ == first_segment(name@),
        r.1@ == after_first_dot(name@),
{
    proof {
        lemma_find_from_spec(name@, seq!['.'], 0);
        lemma_first_segment(name@);
    }
    match find_char_from(name, '.', 0) {
        Some(i) => {
            assert(match_at(name@, seq!['.'], i as int));
            assert(i + 1 <= name.len());
            (slice_chars(name, 0, i), slice_chars(name, i + 1, name.len()))
        },
        None => {
            let a = slice_chars(name, 0, name.len());
            let b = slice_chars(name, 0, name.len());
            assert(a@ =~= name@);
            (a, b)
        },
    }
}

// ---------------------------------------------------------------------------
// Parameter lookup
// ---------------------------------------------------------------------------

/// One step of `find`: the entries among the first `n` whose first name
/// segment matches `pattern`, renamed to what follows their first dot; a
/// later entry wins over an earlier one that gets the same name.
pub open spec fn find_step(
    ks: Seq<Seq<char>>,
    vs: Seq<String>,
    pattern: Seq<char>,
    n: nat,
) -> Map<Seq<char>, String>
    decreases n,
{
    if n == 0 {
        Map::empty()
    } else {
        let prev = find_step(ks, vs, pattern, (n - 1) as nat);
        let name = ks[n - 1];
        if segment_matches(pattern, first_segment(name)) {
            prev.insert(after_first_dot(name), vs[n - 1])
        } else {
            prev
        }
    }
}

/// What `ParameterFinder::find` gives for the entries `ks`/`vs` (in ascending
/// name order) and a dotted path: segment by segment, the entries whose
/// leading segment matches are kept with that segment removed.
pub open spec fn find_spec(
    ks: Seq<Seq<char>>,
    vs: Seq<String>,
    path: Seq<char>,
) -> Map<Seq<char>, String>
    decreases path.len(),
{
    proof {
        lemma_find_from_spec(path, seq!['.'], 0);
    }
    if path.len() == 0 {
        map_of(ks, vs)
    } else {
        let step = find_step(ks, vs, first_segment(path), ks.len());
        match find(path, seq!['.']) {
            None => step,
            Some(i) => find_spec(canonical_keys(step), canonical_vals(step), path.skip(i + 1)),
        }
    }
}

/// Whether a name matches every segment of a path (at most the first 100).
pub open spec fn matches_all_segments(name: Seq<char>, path: Seq<char>) -> bool {
    let segs = split_char(path, '.');
    let parts = split_char(name, '.');
    forall|i: int| 0 <= i < segs.len() && i < 100 ==> #[trigger] segment_ok(segs, parts, i)
}

/// Segment `i` of a name exists and matches segment `i` of a path.
pub open spec fn segment_ok(segs: Seq<Seq<char>>, parts: Seq<Seq<char>>, i: int) -> bool {
    i < parts.len() && segment_matches(segs[i], parts[i])
}

/// The entries of a map whose names match every segment of `path`.
pub open spec fn restrict_path(m: Map<Seq<char>, String>, path: Seq<char>) -> Map<Seq<char>, String> {
    m.restrict(m.dom().filter(|k: Seq<char>| matches_all_segments(k, path)))
}

/// Index of the first of the first `n` names that matches every segment of
/// `path`.
pub open spec fn first_full_match(ks: Seq<Seq<char>>, path: Seq<char>, n: nat) -> Option<int>
    decreases n,
{
    if n == 0 {
        None
    } else {
        match first_full_match(ks, path, (n - 1) as nat) {
            Some(i) => Some(i),
            None => if matches_all_segments(ks[n - 1], path) {
                Some(n - 1)
            } else {
                None
            },
        }
    }
}

pub proof fn lemma_first_full_match_stable(ks: Seq<Seq<char>>, path: Seq<char>, i: int, n: nat)
    requires
        0 <= i < n <= ks.len(),
        first_full_match(ks, path, i as nat) is None,
        matches_all_segments(ks[i], path),
    ensures
        first_full_match(ks, path, n) == Some(i),
    decreases n,
{
    if n > i + 1 {
        lemma_first_full_match_stable(ks, path, i, (n - 1) as nat);
    }
}

/// Looks up parameters by dotted path patterns.
#[derive(Debug, Clone, Copy)]
pub struct ParameterFinder;

impl ParameterFinder {
    fn find_in(props: &Properties, path: &str) -> (r: Properties)
        ensures
            r@ == find_spec(props.keys_view(), props.vals_view(), path@),
            r.well_formed(),
        decreases path@.len(),
    {
        props.check_well_formed();
        if path.is_empty() {
            return props.copy();
        }
        let pv = chars_of(path);
        let (key, _) = split_first_segment(pv.as_slice());
        let matcher = PathSegmentMatcher::new(key.as_slice());
        let mut next = Properties::new();
        let mut i: usize = 0;
        let n = props.len();
        while i < n
            invariant
                n == props.size(),
                i <= n,
                props.well_formed(),
                matcher.pattern_ok(first_segment(path@)),
                next@ == find_step(props.keys_view(), props.vals_view(), first_segment(path@), i as nat),
                next.well_formed(),
            decreases n - i,
        {
            let name = props.key_at(i);
            let value = props.value_at(i);
            let nv = chars_of(name.as_str());
            let (first, rest) = split_first_segment(nv.as_slice());
            if matcher.matches(first.as_slice()) {
                next.insert(string_of(rest.as_slice()), value.clone());
            }
            i += 1;
        }
        proof {
            lemma_find_from_spec(path@, seq!['.'], 0);
        }
        match find_char_from(pv.as_slice(), '.', 0) {
            None => next,
            Some(j) => {
                assert(match_at(path@, seq!['.'], j as int));
                assert(j + 1 <= pv.len());
                let tail = crate::text::substring(path, j + 1, pv.len());
                proof {
                    lemma_canonical(&next);
                }
                Self::find_in(&next, tail.as_str())
            },
        }
    }

    /// The parameters under a dotted path pattern, with the matched leading
    /// segments removed from their names; everything when no path is given.
    pub fn find(props: &Properties, path: Option<&str>) -> (r: Properties)
        ensures
            path is None ==> r@ == props@,
            path matches Some(p) ==> r@ == find_spec(props.keys_view(), props.vals_view(), p@),
    {
        match path {
            None => props.copy(),
            Some(p) => Self::find_in(props, p),
        }
    }

    /// `find` with a query whose parameters are filled in.
    pub fn find_query(props: &Properties, query: &ParameterQuery) -> (r: HbciResult<Properties>)
        ensures
            r matches Ok(m) ==> query@.params_set && m@ == find_spec(
                props.keys_view(),
                props.vals_view(),
                query@.text,
            ),
            r is Err ==> !query@.params_set,
    {
        let q = query.get_query()?;
        Ok(Self::find_in(props, q))
    }

    /// The parameters whose names match every segment of the path (names are
    /// kept whole); everything when no path or an empty path is given.
    pub fn find_all(props: &Properties, path: Option<&str>) -> (r: Properties)
        ensures
            r.well_formed(),
            path matches Some(p) ==> (p@.len() > 0 ==> r@ == restrict_path(props@, p@)),
            path matches Some(p) ==> (p@.len() == 0 ==> r@ == props@),
            path is None ==> r@ == props@,
    {
        props.check_well_formed();
        let p = match path {
            Some(p) => p,
            None => return props.copy(),
        };
        if p.is_empty() {
            return props.copy();
        }
        let pv = chars_of(p);
        let segments = crate::text::split_chars(pv.as_slice(), '.');
        let mut out = Properties::new();
        let n = props.len();
        let mut i: usize = 0;
        while i < n
            invariant
                n == props.size(),
                i <= n,
                props.well_formed(),
                crate::text::views(segments@) == split_char(p@, '.'),
                out.well_formed(),
                forall|k: Seq<char>| #[trigger]
                    out@.contains_key(k) <==> exists|j: int|
                        0 <= j < i && props.keys_view()[j] == k && matches_all_segments(k, p@),
                forall|k: Seq<char>| #[trigger] out@.contains_key(k) ==> out@[k] == props@[k],
            decreases n - i,
        {
            let name = props.key_at(i);
            let value = props.value_at(i);
            let nv = chars_of(name.as_str());
            let ok = Self::name_matches(nv.as_slice(), &segments);
            proof {
                lemma_entry(props, i as int);
            }
            if ok {
                out.insert(name.clone(), value.clone());
            }
            proof {
                assert forall|k: Seq<char>| #[trigger]
                    out@.contains_key(k) <==> exists|j: int|
                        0 <= j < i + 1 && props.keys_view()[j] == k && matches_all_segments(k, p@) by {
                    if out@.contains_key(k) && k != props.keys_view()[i as int] {
                        let j = choose|j: int|
                            0 <= j < i && props.keys_view()[j] == k && matches_all_segments(k, p@);
                    }
                    if exists|j: int|
                        0 <= j < i + 1 && props.keys_view()[j] == k && matches_all_segments(k, p@) {
                        let j = choose|j: int|
                            0 <= j < i + 1 && props.keys_view()[j] == k && matches_all_segments(k, p@);
                        if j < i {
                        }
                    }
                }
            }
            i += 1;
        }
        proof {
            let target = restrict_path(props@, p@);
            assert forall|k: Seq<char>| out@.contains_key(k) <==> target.contains_key(k) by {
                if target.contains_key(k) {
                    let j = choose|j: int| 0 <= j < props.keys_view().len() && props.keys_view()[j] == k;
                }
            }
            assert(out@ =~= target);
        }
        out
    }

    fn name_matches(name: &[char], segments: &Vec<Vec<char>>) -> (b: bool)
        ensures
            forall|p: Seq<char>| crate::text::views(segments@) == split_char(p, '.') ==> b
                == matches_all_segments(name@, p),
    {
        let parts = crate::text::split_chars(name, '.');
        let mut i: usize = 0;
        while i < segments.len() && i < 100
            invariant
                i <= segments@.len(),
                i <= 100,
                crate::text::views(parts@) == split_char(name@, '.'),
                forall|j: int|
                    0 <= j < i ==> j < parts@.len() && segment_matches(
                        #[trigger] segments@[j]@,
                        parts@[j]@,
                    ),
            decreases segments.len() - i,
        {
            if i >= parts.len() {
                proof {
                    assert forall|p: Seq<char>|
                        crate::text::views(segments@) == split_char(p, '.') implies !matches_all_segments(
                        name@,
                        p,
                    ) by {
                        assert(split_char(p, '.')[i as int] == segments@[i as int]@);
                        assert(split_char(name@, '.').len() == parts@.len());
                        assert(crate::text::views(parts@).len() == parts@.len());
                        if (i as int) < parts@.len() {
                            assert(split_char(name@, '.')[i as int] == parts@[i as int]@);
                        }
                        assert(!segment_ok(split_char(p, '.'), split_char(name@, '.'), i as int));
                    }
                }
                return false;
            }
            let m = PathSegmentMatcher::new(segments[i].as_slice());
            if !m.matches(parts[i].as_slice()) {
                proof {
                    assert(crate::text::views(parts@)[i as int] == parts@[i as int]@);
                    assert forall|p: Seq<char>|
                        crate::text::views(segments@) == split_char(p, '.') implies !matches_all_segments(
                        name@,
                        p,
                    ) by {
                        assert(split_char(p, '.')[i as int] == segments@[i as int]@);
                        assert(split_char(name@, '.').len() == parts@.len());
                        assert(crate::text::views(parts@).len() == parts@.len());
                        if (i as int) < parts@.len() {
                            assert(split_char(name@, '.')[i as int] == parts@[i as int]@);
                        }
                        assert(!segment_ok(split_char(p, '.'), split_char(name@, '.'), i as int));
                    }
                }
                return false;
            }
            i += 1;
        }
        proof {
            assert forall|p: Seq<char>|
                crate::text::views(segments@) == split_char(p, '.') implies matches_all_segments(
                name@,
                p,
            ) by {
                let segs = split_char(p, '.');
                let parts_v = split_char(name@, '.');
                assert(segs.len() == segments@.len());
                assert(parts_v.len() == parts@.len());
                assert forall|j: int| 0 <= j < segs.len() && j < 100 implies #[trigger] segment_ok(
                    segs,
                    parts_v,
                    j,
                ) by {
                    assert(j < i);
                    assert(segment_matches(segments@[j]@, parts@[j]@));
                    assert(crate::text::views(segments@)[j] == segments@[j]@);
                    assert(segs[j] == segments@[j]@);
                    assert(crate::text::views(parts@)[j] == parts@[j]@);
                    assert(parts_v[j] == parts@[j]@);
                }
                assert(matches_all_segments(name@, p));
            }
        }
        true
    }

    /// `find_all` with a query whose parameters are filled in.
    pub fn find_all_query(props: &Properties, query: &ParameterQuery) -> (r: HbciResult<Properties>)
        ensures
            r matches Ok(m) ==> query@.params_set && (query@.text.len() > 0 ==> m@ == restrict_path(
                props@,
                query@.text,
            )) && (query@.text.len() == 0 ==> m@ == props@),
            r is Err ==> !query@.params_set,
    {
        let q = query.get_query()?;
        Ok(Self::find_all(props, Some(q)))
    }

    /// The value of the first name (in name order) that matches the path,
    /// or the default.
    pub fn get_value(props: &Properties, path: Option<&str>, default_value: Option<&str>) -> (r:
        Option<String>)
        ensures
            ({
                let hit = match path {
                    Some(p) => if p@.len() > 0 {
                        first_full_match(props.keys_view(), p@, props.size())
                    } else if props.size() > 0 {
                        Some(0int)
                    } else {
                        None
                    },
                    None => if props.size() > 0 {
                        Some(0int)
                    } else {
                        None
                    },
                };
                match hit {
                    Some(i) => r matches Some(v) && v@ == props.vals_view()[i]@,
                    None => opt_view(r) == opt_str_view(default_value),
                }
            }),
    {
        props.check_well_formed();
        let n = props.len();
        let mut i: usize = 0;
        let (has_path, segments) = match path {
            Some(p) => if p.is_empty() {
                (false, Vec::new())
            } else {
                let pv = chars_of(p);
                (true, crate::text::split_chars(pv.as_slice(), '.'))
            },
            None => (false, Vec::new()),
        };
        while i < n
            invariant
                n == props.size(),
                i <= n,
                has_path == (path matches Some(p) && p@.len() > 0),
                has_path ==> (path matches Some(p) && crate::text::views(segments@) == split_char(
                    p@,
                    '.',
                )),
                has_path ==> (path matches Some(p) && first_full_match(props.keys_view(), p@, i as nat)
                    is None),
                !has_path ==> i == 0,
            decreases n - i,
        {
            let name = props.key_at(i);
            let nv = chars_of(name.as_str());
            let ok = if has_path {
                Self::name_matches(nv.as_slice(), &segments)
            } else {
                true
            };
            if ok {
                proof {
                    if has_path {
                        lemma_first_full_match_stable(props.keys_view(), path.unwrap()@, i as int, n as nat);
                    }
                }
                return Some(props.value_at(i).clone());
            }
            i += 1;
        }
        match default_value {
            Some(d) => Some(d.to_owned()),
            None => None,
        }
    }

    /// `get_value` with a query whose parameters are filled in.
    pub fn get_value_query(
        props: &Properties,
        query: &ParameterQuery,
        default_value: Option<&str>,
    ) -> (r: HbciResult<Option<String>>)
        ensures
            r is Err <==> !query@.params_set,
            r matches Ok(v) ==> ({
                let hit = if query@.text.len() > 0 {
                    first_full_match(props.keys_view(), query@.text, props.size())
                } else if props.size() > 0 {
                    Some(0int)
                } else {
                    None
                };
                match hit {
                    Some(i) => v matches Some(x) && x@ == props.vals_view()[i]@,
                    None => opt_view(v) == opt_str_view(default_value),
                }
            }),
    {
        let q = query.get_query()?;
        Ok(Self::get_value(props, Some(q), default_value))
    }
}

} // verus!
