//! SWIFT MT940/MT942 text: blocks, tags and the `?nn` sub-fields of tag 86.
//!
//! Positions are counted in characters; tags, markers and separators are
//! ASCII.

use vstd::prelude::*;
use crate::text::{
    match_at, chars_of, find_from, find_from_exec, is_ascii_upper, is_digit, push_char,
    slice_chars, string_of,
};

verus! {

/// A raw MT940 document.
#[derive(Debug, Clone, Default, PartialEq, Eq)]
pub struct Mt940Document {
    pub raw: String,
}

impl Mt940Document {
    pub fn parse(raw: String) -> (d: Self)
        ensures
            d.raw == raw,
    {
        Mt940Document { raw }
    }
}

/// The German letters that the SWIFT character set writes as `[`, `\`, `]` and `~`.
pub open spec fn umlaut_of(c: char) -> char {
    if c == '[' {
        'Ä'
    } else if c == '\\' {
        'Ö'
    } else if c == ']' {
        'Ü'
    } else if c == '~' {
        'ß'
    } else {
        c
    }
}

/// Replaces `[`, `\`, `]` and `~` by `Ä`, `Ö`, `Ü` and `ß`.
pub fn decode_umlauts(input: &str) -> (r: String)
    ensures
        r@ == input@.map_values(|c: char| umlaut_of(c)),
{
    let v = chars_of(input);
    let mut out = String::new();
    let mut i: usize = 0;
    while i < v.len()
        invariant
            i <= v@.len(),
            v@ == input@,
            out@ == v@.take(i as int).map_values(|c: char| umlaut_of(c)),
        decreases v.len() - i,
    {
        let c = v[i];
        let d = if c == '[' {
            'Ä'
        } else if c == '\\' {
            'Ö'
        } else if c == ']' {
            'Ü'
        } else if c == '~' {
            'ß'
        } else {
            c
        };
        push_char(&mut out, d);
        assert(out@ =~= v@.take(i + 1).map_values(|c: char| umlaut_of(c)));
        i += 1;
    }
    assert(v@.take(v@.len() as int) =~= v@);
    out
}

pub open spec fn block_start_marker() -> Seq<char> {
    seq!['\r', '\n', ':', '2', '0', ':']
}

/// The first statement block: up to the next `\r\n:20:` after the first
/// character; `None` when that is empty.
pub open spec fn one_block(s: Seq<char>) -> Option<Seq<char>> {
    let end = match find_from(s, block_start_marker(), 1) {
        Some(e) => e,
        None => s.len() as int,
    };
    if end > 0 {
        Some(s.take(end))
    } else {
        None
    }
}

fn marker_chars(text: &str) -> (v: Vec<char>)
    ensures
        v@ == text@,
{
    chars_of(text)
}

/// The first statement block (see `one_block`).
pub fn get_one_block(input: &str) -> (r: Option<String>)
    ensures
        r matches Some(b) ==> one_block(input@) == Some(b@),
        r is None ==> one_block(input@) is None,
{
    let v = chars_of(input);
    let marker = marker_chars("\r\n:20:");
    proof {
        reveal_strlit("\r\n:20:");
    }
    assert(marker@ =~= block_start_marker());
    proof {
        crate::text::lemma_find_from_spec(v@, marker@, 1);
    }
    let end = match find_from_exec(v.as_slice(), marker.as_slice(), 1) {
        Some(e) => e,
        None => v.len(),
    };
    if end > 0 {
        let b = string_of(slice_chars(v.as_slice(), 0, end).as_slice());
        assert(b@ =~= input@.take(end as int));
        Some(b)
    } else {
        None
    }
}

/// The text with its line breaks (`\r\n`) removed.
pub fn pack_multi(input: &str) -> (r: String)
    ensures
        r@ == crate::tools::replace_all(input@, seq!['\r', '\n'], seq![]),
{
    let mut crlf = String::new();
    push_char(&mut crlf, '\r');
    push_char(&mut crlf, '\n');
    let nothing = String::new();
    assert(crlf@ =~= seq!['\r', '\n']);
    assert(nothing@ =~= Seq::<char>::empty());
    crate::tools::replace_all_str(input, crlf.as_str(), nothing.as_str())
}

/// Where a `?nn` sub-field that starts after `from` ends: at the next `?`
/// followed by two digits; `None` when there is none before the last two
/// characters.
pub open spec fn multi_end(s: Seq<char>, from: int) -> Option<int>
    decreases s.len() + 1 - from,
{
    match find_from(s, seq!['?'], from) {
        None => None,
        Some(c) => if c + 2 < s.len() && is_digit(s[c + 1]) && is_digit(s[c + 2]) {
            Some(c)
        } else if c + 2 >= s.len() {
            None
        } else if c + 1 > from {
            multi_end(s, c + 1)
        } else {
            None
        },
    }
}

/// The value of sub-field `?tag` of a tag 86 text.
pub open spec fn multi_tag_value(s: Seq<char>, tag: Seq<char>) -> Option<Seq<char>> {
    match find(s, seq!['?'] + tag) {
        None => None,
        Some(pos) => {
            let end = match multi_end(s, pos + 3) {
                Some(e) => e,
                None => s.len() as int,
            };
            Some(s.subrange(pos + 3, end))
        },
    }
}

pub open spec fn find(s: Seq<char>, p: Seq<char>) -> Option<int> {
    find_from(s, p, 0)
}

/// The value of the sub-field `?tag` (a tag has two characters) of a tag
/// 86 text: it starts three characters after the `?`, which must lie in the
/// text.
pub fn get_multi_tag_value(input: &str, tag: &str) -> (r: Option<String>)
    requires
        find(input@, seq!['?'] + tag@) matches Some(p) ==> p + 3 <= input@.len(),
    ensures
        r matches Some(v) ==> multi_tag_value(input@, tag@) == Some(v@),
        r is None ==> multi_tag_value(input@, tag@) is None,
{
    let v = chars_of(input);
    proof {
        reveal_strlit("?");
    }
    let marker_text = crate::text::concat("?", tag);
    let marker = chars_of(marker_text.as_str());
    assert(marker@ =~= seq!['?'] + tag@);
    proof {
        crate::text::lemma_find_from_spec(v@, marker@, 0);
    }
    let pos = match find_from_exec(v.as_slice(), marker.as_slice(), 0) {
        Some(p) => p,
        None => {
            return None;
        },
    };
    let len = v.len();
    assert(match_at(v@, marker@, pos as int));
    assert(pos + 3 <= len);
    let mut searchpos: usize = pos + 3;
    let question: Vec<char> = vec!['?'];
    assert(question@ =~= seq!['?']);
    let mut endpos: Option<usize> = None;
    loop
        invariant
            v@ == input@,
            question@ == seq!['?'],
            pos + 3 <= searchpos <= v@.len(),
            multi_end(v@, pos + 3) == multi_end(v@, searchpos as int),
        ensures
            multi_end(v@, pos + 3) == match endpos {
                Some(e) => Some(e as int),
                None => None::<int>,
            },
            endpos matches Some(e) ==> pos + 3 <= e < v@.len(),
        decreases v@.len() - searchpos,
    {
        let found = find_from_exec(v.as_slice(), question.as_slice(), searchpos);
        proof {
            crate::text::lemma_find_from_spec(v@, seq!['?'], searchpos as int);
        }
        match found {
            None => {
                endpos = None;
                break;
            },
            Some(c) => {
                if v.len() - c > 2 && crate::text::is_digit_char(v[c + 1])
                    && crate::text::is_digit_char(v[c + 2]) {
                    endpos = Some(c);
                    break;
                }
                if v.len() - c <= 2 {
                    endpos = None;
                    break;
                }
                searchpos = c + 1;
            },
        }
    }
    let end = match endpos {
        Some(e) => e,
        None => v.len(),
    };
    proof {
        crate::text::lemma_find_from_spec(v@, seq!['?'], pos + 3);
    }
    let r = string_of(slice_chars(v.as_slice(), pos + 3, end).as_slice());
    Some(r)
}

// ---------------------------------------------------------------------------
// Tags
// ---------------------------------------------------------------------------

pub open spec fn is_ch(s: Seq<char>, i: int, c: char) -> bool {
    0 <= i < s.len() && s[i] == c
}

pub open spec fn digit_at(s: Seq<char>, i: int) -> bool {
    0 <= i < s.len() && is_digit(s[i])
}

pub open spec fn upper_at(s: Seq<char>, i: int) -> bool {
    0 <= i < s.len() && is_ascii_upper(s[i])
}

/// Where the tag starts after the line break at `i`: right after it, or
/// after a `-` (with or without one more line break) that banks put before
/// the closing tag.
pub open spec fn tag_start_after(s: Seq<char>, i: int) -> Option<int> {
    let t = i + 2;
    if is_ch(s, t, '-') {
        if is_ch(s, t + 1, ':') {
            Some(t + 1)
        } else if is_ch(s, t + 1, '\r') && is_ch(s, t + 2, '\n') && is_ch(s, t + 3, ':') {
            Some(t + 3)
        } else {
            None
        }
    } else {
        Some(t)
    }
}

/// A line break at `i` followed by a tag `:nn:` or `:nnX:`.
pub open spec fn is_tag_marker(s: Seq<char>, i: int) -> bool {
    &&& is_ch(s, i, '\r')
    &&& is_ch(s, i + 1, '\n')
    &&& match tag_start_after(s, i) {
        None => false,
        Some(t) => is_ch(s, t, ':') && digit_at(s, t + 1) && digit_at(s, t + 2) && (is_ch(
            s,
            t + 3,
            ':',
        ) || (upper_at(s, t + 3) && is_ch(s, t + 4, ':'))),
    }
}

/// The first tag marker at or after `start` that leaves five characters.
pub open spec fn next_tag_marker(s: Seq<char>, start: int) -> Option<int>
    decreases s.len() + 5 - start,
{
    if start < 0 || start + 5 > s.len() {
        None
    } else if is_tag_marker(s, start) {
        Some(start)
    } else {
        next_tag_marker(s, start + 1)
    }
}

fn ch_at(v: &[char], i: usize, c: char) -> (b: bool)
    ensures
        b == is_ch(v@, i as int, c),
{
    i < v.len() && v[i] == c
}

fn digit_at_exec(v: &[char], i: usize) -> (b: bool)
    ensures
        b == digit_at(v@, i as int),
{
    i < v.len() && crate::text::is_digit_char(v[i])
}

fn is_tag_marker_exec(v: &[char], i: usize) -> (b: bool)
    requires
        i + 5 <= v@.len(),
    ensures
        b == is_tag_marker(v@, i as int),
{
    let n = v.len();
    assert(i + 5 <= n);
    if !(ch_at(v, i, '\r') && ch_at(v, i + 1, '\n')) {
        return false;
    }
    let mut t = i + 2;
    if ch_at(v, t, '-') {
        if ch_at(v, t + 1, ':') {
            t = t + 1;
        } else if ch_at(v, t + 1, '\r') && ch_at(v, t + 2, '\n') && ch_at(v, t + 3, ':') {
            t = t + 3;
        } else {
            return false;
        }
    }
    if !(ch_at(v, t, ':') && digit_at_exec(v, t + 1) && digit_at_exec(v, t + 2)) {
        return false;
    }
    if ch_at(v, t + 3, ':') {
        return true;
    }
    t + 3 < v.len() && v[t + 3] >= 'A' && v[t + 3] <= 'Z' && ch_at(v, t + 4, ':')
}

pub fn next_tag_marker_exec(v: &[char], start: usize) -> (r: Option<usize>)
    ensures
        r matches Some(k) ==> next_tag_marker(v@, start as int) == Some(k as int),
        r is None ==> next_tag_marker(v@, start as int) is None,
{
    let mut i = start;
    while i < v.len() && v.len() - i >= 5
        invariant
            start <= i,
            next_tag_marker(v@, start as int) == next_tag_marker(v@, i as int),
        decreases v.len() - i,
    {
        if is_tag_marker_exec(v, i) {
            return Some(i);
        }
        i += 1;
    }
    None
}

/// The text without line breaks and dashes.
pub open spec fn without_line_noise(s: Seq<char>) -> Seq<char>
    decreases s.len(),
{
    if s.len() == 0 {
        s
    } else if s.last() == '\r' || s.last() == '\n' || s.last() == '-' {
        without_line_noise(s.drop_last())
    } else {
        without_line_noise(s.drop_last()).push(s.last())
    }
}

pub fn remove_final_line_noise(v: &[char]) -> (r: String)
    ensures
        r@ == without_line_noise(v@),
{
    let mut out = String::new();
    let mut i: usize = 0;
    while i < v.len()
        invariant
            i <= v@.len(),
            out@ == without_line_noise(v@.take(i as int)),
        decreases v.len() - i,
    {
        let ghost t = v@.take(i + 1);
        assert(t.drop_last() =~= v@.take(i as int));
        assert(t.last() == v@[i as int]);
        let c = v[i];
        if !(c == '\r' || c == '\n' || c == '-') {
            push_char(&mut out, c);
        }
        i += 1;
    }
    assert(v@.take(v@.len() as int) =~= v@);
    out
}

pub open spec fn tag_pattern(tag: Seq<char>, broken: bool) -> Seq<char> {
    (if broken {
        seq!['\r', '\n', '-', ':']
    } else {
        seq!['\r', '\n', ':']
    }) + tag + seq![':']
}

/// Where the value of the next occurrence of the tag at or after `from` starts.
pub open spec fn tag_occurrence(s: Seq<char>, tag: Seq<char>, from: int) -> Option<int> {
    match find_from(s, tag_pattern(tag, false), from) {
        Some(p) => Some(p + tag_pattern(tag, false).len()),
        None => match find_from(s, tag_pattern(tag, true), from) {
            Some(p) => Some(p + tag_pattern(tag, true).len()),
            None => None,
        },
    }
}

/// The value of occurrence `remaining` of the tag, searching from `from`.
/// A value runs to the next tag marker; the last one, without such a
/// marker, runs to the end without its line noise and is what every later
/// occurrence gives.
pub open spec fn tag_value_from(s: Seq<char>, tag: Seq<char>, from: int, remaining: nat) -> Option<
    Seq<char>,
>
    decreases remaining,
{
    match tag_occurrence(s, tag, from) {
        None => None,
        Some(vs) => match next_tag_marker(s, vs) {
            Some(n) => if remaining == 0 {
                Some(s.subrange(vs, n))
            } else {
                tag_value_from(s, tag, n, (remaining - 1) as nat)
            },
            None => if remaining == 0 {
                Some(without_line_noise(s.skip(vs)))
            } else {
                tag_value_from(s, tag, from, (remaining - 1) as nat)
            },
        },
    }
}

pub fn tag_pattern_exec(tag: &[char], broken: bool) -> (r: Vec<char>)
    ensures
        r@ == tag_pattern(tag@, broken),
{
    let mut r: Vec<char> = Vec::new();
    r.push('\r');
    r.push('\n');
    if broken {
        r.push('-');
    }
    r.push(':');
    let mut i: usize = 0;
    let ghost head = r@;
    while i < tag.len()
        invariant
            i <= tag@.len(),
            r@ == head + tag@.take(i as int),
        decreases tag.len() - i,
    {
        r.push(tag[i]);
        assert(r@ =~= head + tag@.take(i + 1));
        i += 1;
    }
    r.push(':');
    assert(r@ =~= tag_pattern(tag@, broken));
    r
}

/// The value of occurrence `counter` (from zero) of tag `:tag:` (see `tag_value_from`).
pub fn get_tag_value(input: &str, tag: &str, counter: usize) -> (r: Option<String>)
    ensures
        r matches Some(v) ==> tag_value_from(input@, tag@, 0, counter as nat) == Some(v@),
        r is None ==> tag_value_from(input@, tag@, 0, counter as nat) is None,
{
    let v = chars_of(input);
    let tv = chars_of(tag);
    let normal = tag_pattern_exec(tv.as_slice(), false);
    let broken = tag_pattern_exec(tv.as_slice(), true);
    let mut endpos: usize = 0;
    let mut remaining: usize = counter;
    loop
        invariant
            v@ == input@,
            normal@ == tag_pattern(tag@, false),
            broken@ == tag_pattern(tag@, true),
            endpos <= v@.len(),
            tag_value_from(input@, tag@, 0, counter as nat) == tag_value_from(
                input@,
                tag@,
                endpos as int,
                remaining as nat,
            ),
        decreases remaining,
    {
        proof {
            crate::text::lemma_find_from_spec(v@, normal@, endpos as int);
            crate::text::lemma_find_from_spec(v@, broken@, endpos as int);
        }
        let value_start = match find_from_exec(v.as_slice(), normal.as_slice(), endpos) {
            Some(p) => p + normal.len(),
            None => match find_from_exec(v.as_slice(), broken.as_slice(), endpos) {
                Some(p) => p + broken.len(),
                None => {
                    return None;
                },
            },
        };
        let ret: String;
        let next = next_tag_marker_exec(v.as_slice(), value_start);
        proof {
            if next is Some {
                assert(next_tag_marker(v@, value_start as int) == Some(next.unwrap() as int));
                lemma_next_marker_bounds(v@, value_start as int);
            }
        }
        match next {
            Some(n) => {
                ret = string_of(slice_chars(v.as_slice(), value_start, n).as_slice());
                assert(ret@ =~= v@.subrange(value_start as int, n as int));
                if remaining == 0 {
                    return Some(ret);
                }
                endpos = n;
            },
            None => {
                let rest = slice_chars(v.as_slice(), value_start, v.len());
                assert(rest@ =~= v@.skip(value_start as int));
                ret = remove_final_line_noise(rest.as_slice());
                if remaining == 0 {
                    return Some(ret);
                }
            },
        }
        remaining -= 1;
    }
}

pub proof fn lemma_next_marker_bounds(s: Seq<char>, start: int)
    ensures
        next_tag_marker(s, start) matches Some(k) ==> start <= k && k + 5 <= s.len(),
    decreases s.len() + 5 - start,
{
    if 0 <= start && start + 5 <= s.len() && !is_tag_marker(s, start) {
        lemma_next_marker_bounds(s, start + 1);
    }
}

/// Where the value of the next occurrence of the tag at or after `from` starts.
pub fn tag_occurrence_exec(v: &Vec<char>, normal: &Vec<char>, broken: &Vec<char>, tag: Ghost<Seq<char>>, from: usize) -> (r: Option<usize>)
    requires
        normal@ == tag_pattern(tag@, false),
        broken@ == tag_pattern(tag@, true),
    ensures
        r matches Some(k) ==> tag_occurrence(v@, tag@, from as int) == Some(k as int) && from < k <= v@.len(),
        r is None ==> tag_occurrence(v@, tag@, from as int) is None,
{
    let vlen = v.len();
    proof {
        crate::text::lemma_find_from_spec(v@, normal@, from as int);
        crate::text::lemma_find_from_spec(v@, broken@, from as int);
    }
    match find_from_exec(v.as_slice(), normal.as_slice(), from) {
        Some(p) => {
            assert(p + normal@.len() <= vlen);
            Some(p + normal.len())
        },
        None => match find_from_exec(v.as_slice(), broken.as_slice(), from) {
            Some(p) => {
                assert(p + broken@.len() <= vlen);
                Some(p + broken.len())
            },
            None => None,
        },
    }
}

} // verus!
