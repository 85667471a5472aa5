//! Writing XML text: escaped character data and attribute values, and
//! tags, as quick-xml's writer puts them out (no indentation).

use vstd::prelude::*;
use crate::text::{append, chars_of, push_char};

verus! {

/// How a character stands in escaped text; in an attribute value tabs and
/// line feeds are escaped too.
pub open spec fn escape_char(c: char, attr: bool) -> Seq<char> {
    if c == '<' {
        "&lt;"@
    } else if c == '>' {
        "&gt;"@
    } else if c == '&' {
        "&amp;"@
    } else if c == '\'' {
        "&apos;"@
    } else if c == '"' {
        "&quot;"@
    } else if c == '\r' {
        "&#13;"@
    } else if attr && c == '\n' {
        "&#10;"@
    } else if attr && c == '\t' {
        "&#9;"@
    } else {
        seq![c]
    }
}

/// Text with each character escaped.
pub open spec fn escaped(s: Seq<char>, attr: bool) -> Seq<char>
    decreases s.len(),
{
    if s.len() == 0 {
        seq![]
    } else {
        escaped(s.drop_last(), attr) + escape_char(s.last(), attr)
    }
}

pub open spec fn tag_open(n: Seq<char>) -> Seq<char> {
    "<"@ + n + ">"@
}

pub open spec fn tag_close(n: Seq<char>) -> Seq<char> {
    "</"@ + n + ">"@
}

/// An element holding text.
pub open spec fn el(n: Seq<char>, t: Seq<char>) -> Seq<char> {
    tag_open(n) + escaped(t, false) + tag_close(n)
}

fn push_escaped_char(out: &mut String, c: char, attr: bool)
    ensures
        final(out)@ == old(out)@ + escape_char(c, attr),
{
    if c == '<' {
        append(out, "&lt;");
    } else if c == '>' {
        append(out, "&gt;");
    } else if c == '&' {
        append(out, "&amp;");
    } else if c == '\'' {
        append(out, "&apos;");
    } else if c == '"' {
        append(out, "&quot;");
    } else if c == '\r' {
        append(out, "&#13;");
    } else if attr && c == '\n' {
        append(out, "&#10;");
    } else if attr && c == '\t' {
        append(out, "&#9;");
    } else {
        push_char(out, c);
    }
}

/// Appends escaped text.
pub fn push_escaped(out: &mut String, s: &str, attr: bool)
    ensures
        final(out)@ == old(out)@ + escaped(s@, attr),
{
    let v = chars_of(s);
    let ghost start = out@;
    let mut i: usize = 0;
    while i < v.len()
        invariant
            v@ == s@,
            i <= v@.len(),
            out@ == start + escaped(v@.take(i as int), attr),
        decreases v.len() - i,
    {
        let ghost before = out@;
        push_escaped_char(out, v[i], attr);
        proof {
            assert(v@.take(i + 1).drop_last() =~= v@.take(i as int));
            assert(v@.take(i + 1).last() == v@[i as int]);
            assert(out@ =~= start + escaped(v@.take(i + 1), attr));
        }
        i += 1;
    }
    assert(v@.take(v@.len() as int) =~= v@);
}

pub fn push_open(out: &mut String, n: &str)
    ensures
        final(out)@ == old(out)@ + tag_open(n@),
{
    let ghost start = out@;
    append(out, "<");
    append(out, n);
    append(out, ">");
    assert(out@ =~= start + tag_open(n@));
}

pub fn push_close(out: &mut String, n: &str)
    ensures
        final(out)@ == old(out)@ + tag_close(n@),
{
    let ghost start = out@;
    append(out, "</");
    append(out, n);
    append(out, ">");
    assert(out@ =~= start + tag_close(n@));
}

/// Appends an element holding the text.
pub fn push_el(out: &mut String, n: &str, t: &str)
    ensures
        final(out)@ == old(out)@ + el(n@, t@),
{
    let ghost start = out@;
    push_open(out, n);
    push_escaped(out, t, false);
    push_close(out, n);
    assert(out@ =~= start + el(n@, t@));
}

} // verus!
