//! The FinTS wire syntax: segments end with `'`, data elements are separated
//! by `+`, components of a group by `:`, `?` escapes the next character and
//! `@n@` introduces a binary block of `n` bytes.

use vstd::prelude::*;
use crate::error::{ErrorView, HbciError, HbciErrorKind, HbciResult};
use crate::text::{utf8_width, chars_of, digits_to_u64, digits_value, is_digit, is_ws, is_ws_char, push_char, string_of, slice_chars};

verus! {

/// The components of one data element.
pub type FieldV = Seq<Seq<char>>;

/// The data elements of one segment.
pub type SegmentV = Seq<FieldV>;

/// A parsed message.
#[derive(Debug, Clone, PartialEq, Eq)]
pub struct WireMessage {
    segments: Vec<WireSegment>,
}

/// A parsed segment.
#[derive(Debug, Clone, PartialEq, Eq)]
pub struct WireSegment {
    fields: Vec<WireField>,
}

/// A parsed data element (with its components).
#[derive(Debug, Clone, PartialEq, Eq)]
pub struct WireField {
    components: Vec<String>,
}

pub open spec fn string_views(v: Seq<String>) -> Seq<Seq<char>> {
    v.map_values(|c: String| c@)
}

pub open spec fn field_views(v: Seq<WireField>) -> Seq<FieldV> {
    v.map_values(|f: WireField| f@)
}

pub open spec fn segment_views(v: Seq<WireSegment>) -> Seq<SegmentV> {
    v.map_values(|s: WireSegment| s@)
}

impl View for WireField {
    type V = FieldV;

    closed spec fn view(&self) -> FieldV {
        string_views(self.components@)
    }
}

impl View for WireSegment {
    type V = SegmentV;

    closed spec fn view(&self) -> SegmentV {
        field_views(self.fields@)
    }
}

impl View for WireMessage {
    type V = Seq<SegmentV>;

    closed spec fn view(&self) -> Seq<SegmentV> {
        segment_views(self.segments@)
    }
}

// ---------------------------------------------------------------------------
// The grammar
// ---------------------------------------------------------------------------

pub open spec fn protocol_error(message: Seq<char>) -> ErrorView {
    ErrorView { kind: HbciErrorKind::Protocol, message, source: None }
}

pub open spec fn all_ws(s: Seq<char>) -> bool {
    forall|i: int| 0 <= i < s.len() ==> is_ws(#[trigger] s[i])
}

/// Where a run of `need` bytes ends in `t`.
pub enum ByteSpan {
    /// After this many characters.
    Exact(nat),
    /// `t` has fewer bytes.
    Short,
    /// The run ends inside a character.
    Split,
}

pub open spec fn byte_span(t: Seq<char>, need: nat) -> ByteSpan
    decreases t.len(),
{
    if need == 0 {
        ByteSpan::Exact(0)
    } else if t.len() == 0 {
        ByteSpan::Short
    } else if utf8_width(t[0]) > need {
        ByteSpan::Split
    } else {
        match byte_span(t.skip(1), (need - utf8_width(t[0])) as nat) {
            ByteSpan::Exact(p) => ByteSpan::Exact(p + 1),
            other => other,
        }
    }
}

/// Length of the run of decimal digits at the start of `s`.
pub open spec fn digit_run(s: Seq<char>) -> nat
    decreases s.len(),
{
    if s.len() > 0 && is_digit(s[0]) {
        1 + digit_run(s.skip(1))
    } else {
        0
    }
}

/// A binary block `@n@` followed by `n` bytes at the start of `s` (which
/// starts with `@`): the number of characters it takes, or the error.
pub open spec fn binary_block(s: Seq<char>) -> Result<nat, ErrorView> {
    let k: int = (1 + digit_run(s.skip(1))) as int;
    if k >= s.len() {
        Err(protocol_error("unterminated FinTS binary length"@))
    } else if s[k] != '@' {
        Err(protocol_error("invalid FinTS binary length"@))
    } else if k == 1 {
        Err(
            ErrorView {
                kind: HbciErrorKind::Protocol,
                message: "invalid FinTS binary length"@,
                source: Some("cannot parse integer from empty string"@),
            },
        )
    } else if digits_value(s.subrange(1, k)) > usize::MAX {
        Err(
            ErrorView {
                kind: HbciErrorKind::Protocol,
                message: "invalid FinTS binary length"@,
                source: Some("number too large to fit in target type"@),
            },
        )
    } else {
        match byte_span(s.skip(k + 1), digits_value(s.subrange(1, k))) {
            ByteSpan::Exact(p) => Ok((k + 1 + p) as nat),
            ByteSpan::Short => Err(protocol_error("truncated FinTS binary payload"@)),
            ByteSpan::Split => Err(
                protocol_error(
                    "FinTS binary payload is not valid UTF-8 at the declared boundary"@,
                ),
            ),
        }
    }
}

/// The parser as a state machine over the rest `s` of the input: the
/// segments read so far, the data elements and components of the open
/// segment, the token being read, and whether a segment is open.
pub open spec fn scan(
    s: Seq<char>,
    segs: Seq<SegmentV>,
    fields: SegmentV,
    comps: FieldV,
    tok: Seq<char>,
    in_seg: bool,
) -> Result<Seq<SegmentV>, ErrorView>
    decreases s.len(), if in_seg { 0int } else { 1int },
{
    if !in_seg {
        if all_ws(s) {
            Ok(segs)
        } else {
            scan(s, segs, seq![], seq![], seq![], true)
        }
    } else if s.len() == 0 {
        Err(protocol_error("unterminated FinTS segment"@))
    } else {
        let c = s[0];
        if c == ':' {
            scan(s.skip(1), segs, fields, comps.push(tok), seq![], true)
        } else if c == '+' {
            scan(s.skip(1), segs, fields.push(comps.push(tok)), seq![], seq![], true)
        } else if c == '\'' {
            scan(s.skip(1), segs.push(fields.push(comps.push(tok))), seq![], seq![], seq![], false)
        } else if c == '?' {
            if s.len() < 2 {
                Err(protocol_error("unterminated FinTS quoted character"@))
            } else {
                scan(s.skip(2), segs, fields, comps, tok.push(s[1]), true)
            }
        } else if c == '@' {
            match binary_block(s) {
                Ok(m) => if 0 < m <= s.len() {
                    scan(s.skip(m as int), segs, fields, comps, tok + s.take(m as int), true)
                } else {
                    Err(protocol_error("truncated FinTS binary payload"@))
                },
                Err(e) => Err(e),
            }
        } else {
            scan(s.skip(1), segs, fields, comps, tok.push(c), true)
        }
    }
}

/// What parsing a whole message gives.
pub open spec fn wire_parse(s: Seq<char>) -> Result<Seq<SegmentV>, ErrorView> {
    scan(s, seq![], seq![], seq![], seq![], false)
}

// ---------------------------------------------------------------------------
// Rendering, and the law that parsing undoes it
// ---------------------------------------------------------------------------

/// Characters that the syntax escapes with `?`.
pub open spec fn is_special(c: char) -> bool {
    c == '+' || c == ':' || c == '\'' || c == '?' || c == '@'
}

/// A value with every special character escaped.
pub open spec fn quote(v: Seq<char>) -> Seq<char>
    decreases v.len(),
{
    if v.len() == 0 {
        seq![]
    } else if is_special(v[0]) {
        seq!['?', v[0]] + quote(v.skip(1))
    } else {
        seq![v[0]] + quote(v.skip(1))
    }
}

/// Components joined by `:`.
pub open spec fn render_components(comps: FieldV) -> Seq<char>
    decreases comps.len(),
{
    if comps.len() == 0 {
        seq![]
    } else if comps.len() == 1 {
        quote(comps[0])
    } else {
        quote(comps[0]) + seq![':'] + render_components(comps.skip(1))
    }
}

/// Data elements joined by `+`.
pub open spec fn render_fields(fields: SegmentV) -> Seq<char>
    decreases fields.len(),
{
    if fields.len() == 0 {
        seq![]
    } else if fields.len() == 1 {
        render_components(fields[0])
    } else {
        render_components(fields[0]) + seq!['+'] + render_fields(fields.skip(1))
    }
}

/// Segments, each closed by `'`.
pub open spec fn render_segments(segs: Seq<SegmentV>) -> Seq<char>
    decreases segs.len(),
{
    if segs.len() == 0 {
        seq![]
    } else {
        render_fields(segs[0]) + seq!['\''] + render_segments(segs.skip(1))
    }
}

/// Every segment has a data element and every data element a component,
/// as the parser always produces.
pub open spec fn well_shaped(segs: Seq<SegmentV>) -> bool {
    forall|i: int|
        0 <= i < segs.len() ==> {
            &&& (#[trigger] segs[i]).len() > 0
            &&& forall|j: int| 0 <= j < segs[i].len() ==> (#[trigger] segs[i][j]).len() > 0
        }
}

proof fn lemma_scan_quote(
    v: Seq<char>,
    t: Seq<char>,
    segs: Seq<SegmentV>,
    fields: SegmentV,
    comps: FieldV,
    tok: Seq<char>,
)
    ensures
        scan(quote(v) + t, segs, fields, comps, tok, true) == scan(
            t,
            segs,
            fields,
            comps,
            tok + v,
            true,
        ),
    decreases v.len(),
{
    if v.len() == 0 {
        assert(quote(v) + t =~= t);
        assert(tok + v =~= tok);
    } else {
        let c = v[0];
        let rest = quote(v.skip(1)) + t;
        lemma_scan_quote(v.skip(1), t, segs, fields, comps, tok.push(c));
        assert(tok.push(c) + v.skip(1) =~= tok + v);
        if is_special(c) {
            let s = seq!['?', c] + quote(v.skip(1)) + t;
            assert(quote(v) + t =~= s);
            assert(s[0] == '?');
            assert(s[1] == c);
            assert(s.skip(2) =~= rest);
            assert(scan(s, segs, fields, comps, tok, true) == scan(
                s.skip(2),
                segs,
                fields,
                comps,
                tok.push(c),
                true,
            ));
        } else {
            let s = seq![c] + quote(v.skip(1)) + t;
            assert(quote(v) + t =~= s);
            assert(s[0] == c);
            assert(s.skip(1) =~= rest);
            assert(scan(s, segs, fields, comps, tok, true) == scan(
                s.skip(1),
                segs,
                fields,
                comps,
                tok.push(c),
                true,
            ));
        }
    }
}

proof fn lemma_scan_components(
    cs: FieldV,
    d: char,
    t: Seq<char>,
    segs: Seq<SegmentV>,
    fields: SegmentV,
    comps: FieldV,
)
    requires
        cs.len() > 0,
    ensures
        scan(render_components(cs) + (seq![d] + t), segs, fields, comps, seq![], true) == scan(
            seq![d] + t,
            segs,
            fields,
            comps + cs.drop_last(),
            cs.last(),
            true,
        ),
    decreases cs.len(),
{
    if cs.len() == 1 {
        lemma_scan_quote(cs[0], seq![d] + t, segs, fields, comps, seq![]);
        assert(seq![] + cs[0] =~= cs[0]);
        assert(comps + cs.drop_last() =~= comps);
    } else {
        let rest = render_components(cs.skip(1)) + (seq![d] + t);
        let tail = seq![':'] + rest;
        assert(render_components(cs) + (seq![d] + t) =~= quote(cs[0]) + tail);
        lemma_scan_quote(cs[0], tail, segs, fields, comps, seq![]);
        assert(seq![] + cs[0] =~= cs[0]);
        assert(tail[0] == ':');
        assert(tail.skip(1) =~= rest);
        lemma_scan_components(cs.skip(1), d, t, segs, fields, comps.push(cs[0]));
        assert(comps.push(cs[0]) + cs.skip(1).drop_last() =~= comps + cs.drop_last());
        assert(cs.skip(1).last() == cs.last());
    }
}

proof fn lemma_scan_fields(
    fs: SegmentV,
    t: Seq<char>,
    segs: Seq<SegmentV>,
    fields: SegmentV,
)
    requires
        fs.len() > 0,
        forall|j: int| 0 <= j < fs.len() ==> (#[trigger] fs[j]).len() > 0,
    ensures
        scan(render_fields(fs) + (seq!['\''] + t), segs, fields, seq![], seq![], true) == scan(
            t,
            segs.push(fields + fs),
            seq![],
            seq![],
            seq![],
            false,
        ),
    decreases fs.len(),
{
    let f0 = fs[0];
    assert(f0.len() > 0);
    if fs.len() == 1 {
        let s = seq!['\''] + t;
        lemma_scan_components(f0, '\'', t, segs, fields, seq![]);
        assert(seq![] + f0.drop_last() =~= f0.drop_last());
        assert(f0.drop_last().push(f0.last()) =~= f0);
        assert(s[0] == '\'');
        assert(s.skip(1) =~= t);
        assert(fields.push(f0) =~= fields + fs);
    } else {
        let rest = render_fields(fs.skip(1)) + (seq!['\''] + t);
        assert(render_fields(fs) + (seq!['\''] + t) =~= render_components(f0) + (seq!['+']
            + rest));
        lemma_scan_components(f0, '+', rest, segs, fields, seq![]);
        assert(seq![] + f0.drop_last() =~= f0.drop_last());
        assert(f0.drop_last().push(f0.last()) =~= f0);
        let s = seq!['+'] + rest;
        assert(s[0] == '+');
        assert(s.skip(1) =~= rest);
        assert forall|j: int| 0 <= j < fs.skip(1).len() implies (#[trigger] fs.skip(1)[j]).len()
            > 0 by {
            assert(fs.skip(1)[j] == fs[j + 1]);
        }
        lemma_scan_fields(fs.skip(1), t, segs, fields.push(f0));
        assert(fields.push(f0) + fs.skip(1) =~= fields + fs);
    }
}

proof fn lemma_scan_segments(ss: Seq<SegmentV>, segs: Seq<SegmentV>)
    requires
        well_shaped(ss),
    ensures
        scan(render_segments(ss), segs, seq![], seq![], seq![], false) == Ok::<
            Seq<SegmentV>,
            ErrorView,
        >(segs + ss),
    decreases ss.len(),
{
    if ss.len() == 0 {
        assert(segs + ss =~= segs);
    } else {
        let s0 = ss[0];
        let t = render_segments(ss.skip(1));
        let r = render_segments(ss);
        assert(r =~= render_fields(s0) + (seq!['\''] + t));
        assert(s0.len() > 0);
        assert forall|j: int| 0 <= j < s0.len() implies (#[trigger] s0[j]).len() > 0 by {
            assert(ss[0][j].len() > 0);
        }
        let k = render_fields(s0).len();
        assert(r[k as int] == '\'');
        assert(!is_ws(r[k as int]));
        assert(!all_ws(r));
        lemma_scan_fields(s0, t, segs, seq![]);
        assert(seq![] + s0 =~= s0);
        assert forall|i: int| 0 <= i < ss.skip(1).len() implies {
            &&& (#[trigger] ss.skip(1)[i]).len() > 0
            &&& forall|j: int|
                0 <= j < ss.skip(1)[i].len() ==> (#[trigger] ss.skip(1)[i][j]).len() > 0
        } by {
            assert(ss.skip(1)[i] == ss[i + 1]);
        }
        lemma_scan_segments(ss.skip(1), segs.push(s0));
        assert(segs.push(s0) + ss.skip(1) =~= segs + ss);
    }
}

/// Parsing the rendering of segments gives the segments back, whatever
/// characters their components hold.
pub proof fn law_parse_render(segs: Seq<SegmentV>)
    requires
        well_shaped(segs),
    ensures
        wire_parse(render_segments(segs)) == Ok::<Seq<SegmentV>, ErrorView>(segs),
{
    lemma_scan_segments(segs, seq![]);
    assert(seq![] + segs =~= segs);
}

// ---------------------------------------------------------------------------
// The parser
// ---------------------------------------------------------------------------

/// Number of UTF-8 bytes of a character.
fn char_utf8_width(c: char) -> (w: u64)
    ensures
        w == utf8_width(c),
{
    let code = c as u32;
    if code < 0x80 {
        1
    } else if code < 0x800 {
        2
    } else if code < 0x10000 {
        3
    } else {
        4
    }
}

pub open spec fn span_shift(b: ByteSpan, d: nat) -> ByteSpan {
    match b {
        ByteSpan::Exact(q) => ByteSpan::Exact(q + d),
        other => other,
    }
}

/// Reads the binary block that starts at `v[i] == '@'`; on success, the
/// index just after its payload.
fn scan_binary_block(v: &[char], i: usize) -> (r: Result<usize, HbciError>)
    requires
        i < v@.len(),
        v@[i as int] == '@',
    ensures
        r matches Ok(m) ==> i < m <= v@.len() && binary_block(v@.skip(i as int)) == Ok::<
            nat,
            ErrorView,
        >((m - i) as nat),
        r matches Err(e) ==> binary_block(v@.skip(i as int)) == Err::<nat, ErrorView>(e@),
{
    let ghost s = v@.skip(i as int);
    assert(s.skip(1) =~= v@.skip(i + 1));
    let len = v.len();
    assert(i < len);
    let mut k: usize = i + 1;
    while k < v.len() && crate::text::is_digit_char(v[k])
        invariant
            i + 1 <= k <= v@.len(),
            s == v@.skip(i as int),
            digit_run(s.skip(1)) == (k - i - 1) + digit_run(v@.skip(k as int)),
            forall|j: int| i + 1 <= j < k ==> is_digit(#[trigger] v@[j]),
        decreases v.len() - k,
    {
        assert(v@.skip(k as int).skip(1) =~= v@.skip(k + 1));
        k += 1;
    }
    assert(digit_run(v@.skip(k as int)) == 0);
    let ghost kk: int = (1 + digit_run(s.skip(1))) as int;
    assert(kk == k - i);
    if k >= v.len() {
        return Err(HbciError::new(HbciErrorKind::Protocol, "unterminated FinTS binary length"));
    }
    assert(s[kk] == v@[k as int]);
    if v[k] != '@' {
        return Err(HbciError::new(HbciErrorKind::Protocol, "invalid FinTS binary length"));
    }
    if k == i + 1 {
        return Err(
            HbciError::with_source(
                HbciErrorKind::Protocol,
                "invalid FinTS binary length",
                "cannot parse integer from empty string",
            ),
        );
    }
    let digits = slice_chars(v, i + 1, k);
    assert(digits@ =~= s.subrange(1, kk));
    assert(crate::text::all_digits(digits@));
    let parsed = digits_to_u64(digits.as_slice());
    let n: u64 = match parsed {
        Some(n) => n,
        None => {
            return Err(
                HbciError::with_source(
                    HbciErrorKind::Protocol,
                    "invalid FinTS binary length",
                    "number too large to fit in target type",
                ),
            );
        },
    };
    if n > usize::MAX as u64 {
        return Err(
            HbciError::with_source(
                HbciErrorKind::Protocol,
                "invalid FinTS binary length",
                "number too large to fit in target type",
            ),
        );
    }
    assert(s.skip(kk + 1) =~= v@.skip(k + 1));
    let mut need: u64 = n;
    let mut p: usize = k + 1;
    while need > 0 && p < v.len() && char_utf8_width(v[p]) <= need
        invariant
            k + 1 <= p <= v@.len(),
            need <= n,
            byte_span(v@.skip(k + 1), n as nat) == span_shift(
                byte_span(v@.skip(p as int), need as nat),
                (p - k - 1) as nat,
            ),
        decreases v.len() - p,
    {
        let w = char_utf8_width(v[p]);
        assert(v@.skip(p as int)[0] == v@[p as int]);
        assert(v@.skip(p as int).skip(1) =~= v@.skip(p + 1));
        need = need - w;
        p += 1;
    }
    if need == 0 {
        Ok(p)
    } else if p >= v.len() {
        assert(v@.skip(p as int).len() == 0);
        Err(HbciError::new(HbciErrorKind::Protocol, "truncated FinTS binary payload"))
    } else {
        assert(v@.skip(p as int)[0] == v@[p as int]);
        assert(utf8_width(v@[p as int]) > need);
        Err(
            HbciError::new(
                HbciErrorKind::Protocol,
                "FinTS binary payload is not valid UTF-8 at the declared boundary",
            ),
        )
    }
}

/// Whether every character from `i` on is white space.
fn rest_is_ws(v: &[char], i: usize) -> (b: bool)
    requires
        i <= v@.len(),
    ensures
        b == all_ws(v@.skip(i as int)),
{
    let mut j: usize = i;
    while j < v.len()
        invariant
            i <= j <= v@.len(),
            forall|x: int| i <= x < j ==> is_ws(#[trigger] v@[x]),
        decreases v.len() - j,
    {
        if !is_ws_char(v[j]) {
            assert(v@.skip(i as int)[j - i] == v@[j as int]);
            return false;
        }
        j += 1;
    }
    assert forall|x: int| 0 <= x < v@.skip(i as int).len() implies is_ws(
        #[trigger] v@.skip(i as int)[x],
    ) by {
        assert(v@.skip(i as int)[x] == v@[i + x]);
    }
    true
}

/// Parses a message in wire syntax into segments, data elements and components.
pub fn parse_wire_message(input: &str) -> (r: HbciResult<WireMessage>)
    ensures
        r matches Ok(m) ==> wire_parse(input@) == Ok::<Seq<SegmentV>, ErrorView>(m@),
        r matches Err(e) ==> wire_parse(input@) == Err::<Seq<SegmentV>, ErrorView>(e@),
{
    let v = chars_of(input);
    let mut segs: Vec<WireSegment> = Vec::new();
    let mut fields: Vec<WireField> = Vec::new();
    let mut comps: Vec<String> = Vec::new();
    let mut tok = String::new();
    let mut in_seg = false;
    let mut i: usize = 0;
    assert(v@.skip(0) =~= v@);
    assert(segment_views(segs@) =~= seq![]);
    assert(field_views(fields@) =~= seq![]);
    assert(string_views(comps@) =~= seq![]);
    loop
        invariant
            v@ == input@,
            i <= v@.len(),
            scan(
                v@.skip(i as int),
                segment_views(segs@),
                field_views(fields@),
                string_views(comps@),
                tok@,
                in_seg,
            ) == wire_parse(input@),
        decreases 2 * (v@.len() - i) + (if in_seg { 0int } else { 1int }),
    {
        let ghost s = v@.skip(i as int);
        if !in_seg {
            if rest_is_ws(v.as_slice(), i) {
                return Ok(WireMessage { segments: segs });
            }
            fields = Vec::new();
            comps = Vec::new();
            tok = String::new();
            in_seg = true;
            assert(tok@ =~= seq![]);
            assert(field_views(fields@) =~= seq![]);
            assert(string_views(comps@) =~= seq![]);
            continue;
        }
        if i >= v.len() {
            return Err(HbciError::new(HbciErrorKind::Protocol, "unterminated FinTS segment"));
        }
        let c = v[i];
        assert(s[0] == c);
        assert(s.skip(1) =~= v@.skip(i + 1));
        if c == ':' {
            let ghost old_comps = string_views(comps@);
            let ghost old_tok = tok@;
            assert(scan(s, segment_views(segs@), field_views(fields@), old_comps, old_tok, true)
                == scan(s.skip(1), segment_views(segs@), field_views(fields@), old_comps.push(old_tok), seq![], true));
            comps.push(tok);
            tok = String::new();
            assert(string_views(comps@) =~= old_comps.push(old_tok));
            assert(tok@ =~= seq![]);
            i += 1;
        } else if c == '+' {
            let ghost old_fields = field_views(fields@);
            let ghost old_comps = string_views(comps@);
            let ghost old_tok = tok@;
            comps.push(tok);
            let f = WireField { components: comps };
            assert(f@ =~= old_comps.push(old_tok));
            fields.push(f);
            assert(field_views(fields@) =~= old_fields.push(old_comps.push(old_tok)));
            comps = Vec::new();
            tok = String::new();
            assert(string_views(comps@) =~= seq![]);
            assert(tok@ =~= seq![]);
            i += 1;
        } else if c == '\'' {
            let ghost old_segs = segment_views(segs@);
            let ghost old_fields = field_views(fields@);
            let ghost old_comps = string_views(comps@);
            let ghost old_tok = tok@;
            comps.push(tok);
            let f = WireField { components: comps };
            assert(f@ =~= old_comps.push(old_tok));
            fields.push(f);
            let seg = WireSegment { fields: fields };
            assert(seg@ =~= old_fields.push(old_comps.push(old_tok)));
            segs.push(seg);
            assert(segment_views(segs@) =~= old_segs.push(old_fields.push(old_comps.push(old_tok))));
            fields = Vec::new();
            comps = Vec::new();
            tok = String::new();
            assert(field_views(fields@) =~= seq![]);
            assert(string_views(comps@) =~= seq![]);
            assert(tok@ =~= seq![]);
            in_seg = false;
            i += 1;
        } else if c == '?' {
            if i + 1 >= v.len() {
                return Err(
                    HbciError::new(HbciErrorKind::Protocol, "unterminated FinTS quoted character"),
                );
            }
            assert(s[1] == v@[i + 1]);
            assert(s.skip(2) =~= v@.skip(i + 2));
            push_char(&mut tok, v[i + 1]);
            i += 2;
        } else if c == '@' {
            match scan_binary_block(v.as_slice(), i) {
                Ok(m) => {
                    let block = string_of(slice_chars(v.as_slice(), i, m).as_slice());
                    assert(block@ =~= s.take((m - i) as int));
                    assert(s.skip((m - i) as int) =~= v@.skip(m as int));
                    tok = crate::text::concat(tok.as_str(), block.as_str());
                    i = m;
                },
                Err(e) => {
                    return Err(e);
                },
            }
        } else {
            push_char(&mut tok, c);
            i += 1;
        }
    }
}

impl WireMessage {
    pub fn segments(&self) -> (r: &[WireSegment])
        ensures
            segment_views(r@) == self@,
    {
        self.segments.as_slice()
    }

    pub fn len(&self) -> (n: usize)
        ensures
            n == self@.len(),
    {
        self.segments.len()
    }

    pub fn is_empty(&self) -> (b: bool)
        ensures
            b == (self@.len() == 0),
    {
        self.segments.len() == 0
    }
}

impl WireSegment {
    pub fn fields(&self) -> (r: &[WireField])
        ensures
            field_views(r@) == self@,
    {
        self.fields.as_slice()
    }

    /// Component `index` of the segment head (the first data element).
    fn header_component(&self, index: usize) -> (r: Option<&str>)
        ensures
            r matches Some(c) ==> self@.len() > 0 && index < self@[0].len() && c@ == self@[0][index as int],
            r is None ==> self@.len() == 0 || index >= self@[0].len(),
    {
        if self.fields.len() == 0 {
            return None;
        }
        let first = &self.fields[0];
        assert(self@[0] == first@);
        if index < first.components.len() {
            assert(first@[index as int] == first.components@[index as int]@);
            Some(first.components[index].as_str())
        } else {
            None
        }
    }

    /// The segment code, such as `HNHBK`.
    pub fn code(&self) -> (r: Option<&str>)
        ensures
            r matches Some(c) ==> self@.len() > 0 && 0 < self@[0].len() && c@ == self@[0][0],
            r is None ==> self@.len() == 0 || self@[0].len() == 0,
    {
        self.header_component(0)
    }

    /// The segment number.
    pub fn sequence(&self) -> (r: Option<&str>)
        ensures
            r matches Some(c) ==> self@.len() > 0 && 1 < self@[0].len() && c@ == self@[0][1],
            r is None ==> self@.len() == 0 || self@[0].len() <= 1,
    {
        self.header_component(1)
    }

    /// The segment version.
    pub fn version(&self) -> (r: Option<&str>)
        ensures
            r matches Some(c) ==> self@.len() > 0 && 2 < self@[0].len() && c@ == self@[0][2],
            r is None ==> self@.len() == 0 || self@[0].len() <= 2,
    {
        self.header_component(2)
    }
}

impl WireField {
    pub fn components(&self) -> (r: &[String])
        ensures
            string_views(r@) == self@,
    {
        self.components.as_slice()
    }

    /// The value of a data element that has exactly one component.
    pub fn as_value(&self) -> (r: Option<&str>)
        ensures
            r matches Some(c) ==> self@.len() == 1 && c@ == self@[0],
            r is None ==> self@.len() != 1,
    {
        if self.components.len() == 1 {
            Some(self.components[0].as_str())
        } else {
            None
        }
    }

    pub fn value(&self) -> (r: Option<&str>)
        ensures
            r matches Some(c) ==> self@.len() == 1 && c@ == self@[0],
            r is None ==> self@.len() != 1,
    {
        self.as_value()
    }
}

/// Escapes the special characters of a value with `?`.
pub fn quote_data_element(value: &str) -> (r: String)
    ensures
        r@ == quote(value@),
{
    let v = chars_of(value);
    let mut out = String::new();
    let mut i: usize = 0;
    assert(v@.skip(0) =~= v@);
    while i < v.len()
        invariant
            i <= v@.len(),
            v@ == value@,
            quote(value@) == out@ + quote(v@.skip(i as int)),
        decreases v.len() - i,
    {
        let c = v[i];
        assert(v@.skip(i as int)[0] == c);
        assert(v@.skip(i as int).skip(1) =~= v@.skip(i + 1));
        let ghost before = out@;
        if c == '+' || c == ':' || c == '\'' || c == '?' || c == '@' {
            push_char(&mut out, '?');
            push_char(&mut out, c);
            assert(out@ + quote(v@.skip(i + 1)) =~= before + (seq!['?', c] + quote(v@.skip(i + 1))));
        } else {
            push_char(&mut out, c);
            assert(out@ + quote(v@.skip(i + 1)) =~= before + (seq![c] + quote(v@.skip(i + 1))));
        }
        i += 1;
    }
    assert(out@ + quote(v@.skip(i as int)) =~= out@);
    out
}

} // verus!
