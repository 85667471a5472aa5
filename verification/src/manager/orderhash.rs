//! Hash values over order segments, as the two-step TAN procedure needs them.

use ripemd::Ripemd160;
use sha1::{Digest, Sha1};
use vstd::prelude::*;
use crate::error::{ErrorView, HbciError, HbciErrorKind, HbciResult};
use crate::text::{first_non_latin1, 
    concat, hex_upper, hex_upper_padded, latin1_bytes, latin1_chars, latin1_decode,
    latin1_encodable, pad_left, push_char,
};

verus! {

/// The SHA-1 digest of `data`.
pub uninterp spec fn sha1_of(data: Seq<u8>) -> Seq<u8>;

/// The RIPEMD-160 digest of `data`.
pub uninterp spec fn ripemd160_of(data: Seq<u8>) -> Seq<u8>;

/// Calls `<Sha1 as Digest>::digest` of the `sha1` crate; its contract claims
/// that the 20 bytes returned are the SHA-1 digest of `data`, a function of
/// `data` alone.
#[verifier::external_body]
fn sha1_digest(data: &[u8]) -> (r: Vec<u8>)
    ensures
        r@ == sha1_of(data@),
        r@.len() == 20,
{
    Sha1::digest(data).to_vec()
}

/// Calls `<Ripemd160 as Digest>::digest` of the `ripemd` crate; its contract
/// claims that the 20 bytes returned are the RIPEMD-160 digest of `data`, a
/// function of `data` alone.
#[verifier::external_body]
fn ripemd160_digest(data: &[u8]) -> (r: Vec<u8>)
    ensures
        r@ == ripemd160_of(data@),
        r@.len() == 20,
{
    Ripemd160::digest(data).to_vec()
}

/// The hash function used for the order hash of a two-step TAN job.
#[derive(Debug, Clone, Copy, PartialEq, Eq, Structural)]
pub enum OrderHashMode {
    RipeMd160,
    Sha1,
}

/// The digest that a mode computes.
pub open spec fn mode_digest(mode: OrderHashMode, data: Seq<u8>) -> Seq<u8> {
    match mode {
        OrderHashMode::RipeMd160 => ripemd160_of(data),
        OrderHashMode::Sha1 => sha1_of(data),
    }
}

/// Index of the first character of `s` that has no ISO-8859-1 code.
pub open spec fn is_first_non_latin1(s: Seq<char>, i: int) -> bool {
    &&& 0 <= i < s.len()
    &&& (s[i] as u32) > 255
    &&& latin1_encodable(s.take(i))
}

/// The message for a segment with a character outside ISO-8859-1.
pub open spec fn non_latin1_message(c: char) -> Seq<char> {
    "orderhash data is not ISO-8859-1 representable: U+"@ + pad_left(
        hex_upper(c as u32 as nat),
        4,
        '0',
    )
}

/// The ISO-8859-1 bytes of the segment, or the error for its first character
/// outside that set.
fn segment_latin1_bytes(value: &str) -> (r: HbciResult<Vec<u8>>)
    ensures
        r matches Ok(b) ==> latin1_encodable(value@) && b@ == latin1_bytes(value@),
        r matches Err(e) ==> exists|i: int|
            #[trigger] is_first_non_latin1(value@, i) && e@ == (ErrorView {
                kind: HbciErrorKind::Unsupported,
                message: non_latin1_message(value@[i]),
                source: None,
            }),
{
    let v = crate::text::chars_of(value);
    let mut out: Vec<u8> = Vec::new();
    let mut i: usize = 0;
    while i < v.len()
        invariant
            v@ == value@,
            i <= v@.len(),
            latin1_encodable(v@.take(i as int)),
            out@ == latin1_bytes(v@.take(i as int)),
        decreases v.len() - i,
    {
        let code = v[i] as u32;
        if code > 255 {
            proof {
                reveal_strlit("orderhash data is not ISO-8859-1 representable: U+");
            }
            let digits = hex_upper_padded(code as u64, 4);
            let msg = concat("orderhash data is not ISO-8859-1 representable: U+", digits.as_str());
            let e = HbciError::new(HbciErrorKind::Unsupported, msg.as_str());
            assert(is_first_non_latin1(value@, i as int));
            return Err(e);
        }
        out.push(code as u8);
        i += 1;
        assert(out@ =~= latin1_bytes(v@.take(i as int)));
    }
    assert(v@.take(v@.len() as int) =~= v@);
    Ok(out)
}

/// The error that `hash_segment_bytes` gives for `segment`, if any.
pub open spec fn segment_error(segment: Seq<char>, e: ErrorView) -> bool {
    exists|i: int|
        #[trigger] is_first_non_latin1(segment, i) && e == (ErrorView {
            kind: HbciErrorKind::Unsupported,
            message: non_latin1_message(segment[i]),
            source: None,
        })
}

/// The error for a segment with a character outside ISO-8859-1: about its
/// first such character.
pub open spec fn hash_error(segment: Seq<char>) -> ErrorView {
    ErrorView {
        kind: HbciErrorKind::Unsupported,
        message: non_latin1_message(segment[first_non_latin1(segment)]),
        source: None,
    }
}

/// The error about a segment is the one about its first character outside
/// ISO-8859-1.
pub proof fn lemma_segment_error(segment: Seq<char>, e: ErrorView)
    requires
        segment_error(segment, e),
    ensures
        e == hash_error(segment),
{
    let i = choose|i: int| #[trigger] is_first_non_latin1(segment, i) && e == (ErrorView {
        kind: HbciErrorKind::Unsupported,
        message: non_latin1_message(segment[i]),
        source: None,
    });
    assert(0 <= i < segment.len() && (segment[i] as u32) > 255 && forall|j: int|
        0 <= j < i ==> (#[trigger] segment[j]) as u32 <= 255) by {
        assert forall|j: int| 0 <= j < i implies (#[trigger] segment[j]) as u32 <= 255 by {
            assert(segment.take(i)[j] == segment[j]);
        }
    }
    let k = first_non_latin1(segment);
    if k < i {
        assert(segment.take(i)[k] == segment[k]);
    }
}

/// The mode for a parameter code.
pub open spec fn mode_of(code: Seq<char>) -> Result<OrderHashMode, ErrorView> {
    if code == "1"@ {
        Ok(OrderHashMode::RipeMd160)
    } else if code == "2"@ {
        Ok(OrderHashMode::Sha1)
    } else {
        Err(ErrorView { kind: HbciErrorKind::InvalidArgument, message: "unknown orderhash mode "@ + code, source: None })
    }
}

impl OrderHashMode {
    /// The mode for a parameter code: `"1"` is RIPEMD-160, `"2"` is SHA-1.
    pub fn from_code(code: &str) -> (r: HbciResult<Self>)
        ensures
            code@ == "1"@ ==> r == Ok::<Self, HbciError>(OrderHashMode::RipeMd160),
            code@ == "2"@ ==> r == Ok::<Self, HbciError>(OrderHashMode::Sha1),
            code@ != "1"@ && code@ != "2"@ ==> (r matches Err(e) && e@ == (ErrorView {
                kind: HbciErrorKind::InvalidArgument,
                message: "unknown orderhash mode "@ + code@,
                source: None,
            })),
    {
        proof {
            reveal_strlit("1");
            reveal_strlit("2");
            reveal_strlit("unknown orderhash mode ");
            assert("1"@[0] != "2"@[0]);
        }
        if crate::text::str_eq(code, "1") {
            Ok(OrderHashMode::RipeMd160)
        } else if crate::text::str_eq(code, "2") {
            Ok(OrderHashMode::Sha1)
        } else {
            Err(crate::error::error2(HbciErrorKind::InvalidArgument, "unknown orderhash mode ", code))
        }
    }

    /// The digest of the segment's ISO-8859-1 bytes.
    pub fn hash_segment_bytes(self, segment: &str) -> (r: HbciResult<Vec<u8>>)
        ensures
            latin1_encodable(segment@) ==> (r matches Ok(d) && d@ == mode_digest(
                self,
                latin1_bytes(segment@),
            )),
            r matches Ok(d) ==> d@.len() == 20,
            !latin1_encodable(segment@) ==> (r matches Err(e) && segment_error(segment@, e@)),
    {
        let data = segment_latin1_bytes(segment);
        match data {
            Ok(bytes) => {
                let digest = match self {
                    OrderHashMode::RipeMd160 => ripemd160_digest(bytes.as_slice()),
                    OrderHashMode::Sha1 => sha1_digest(bytes.as_slice()),
                };
                Ok(digest)
            },
            Err(e) => Err(e),
        }
    }

    /// The digest, each byte taken as the character of that ISO-8859-1 code.
    pub fn hash_segment(self, segment: &str) -> (r: HbciResult<String>)
        ensures
            latin1_encodable(segment@) ==> (r matches Ok(s) && s@ == latin1_chars(
                mode_digest(self, latin1_bytes(segment@)),
            )),
            r matches Ok(s) ==> s@.len() == 20,
            !latin1_encodable(segment@) ==> (r matches Err(e) && segment_error(segment@, e@)),
    {
        match self.hash_segment_bytes(segment) {
            Ok(d) => Ok(latin1_decode(d.as_slice())),
            Err(e) => Err(e),
        }
    }

    /// The order hash as a binary data element value: `B` and the digest characters.
    pub fn hash_segment_bin(self, segment: &str) -> (r: HbciResult<String>)
        ensures
            latin1_encodable(segment@) ==> (r matches Ok(s) && s@ == binary_value(
                mode_digest(self, latin1_bytes(segment@)),
            )),
            r matches Ok(s) ==> s@.len() == 21 && s@[0] == 'B',
            !latin1_encodable(segment@) ==> (r matches Err(e) && segment_error(segment@, e@)),
    {
        match self.hash_segment_bytes(segment) {
            Ok(d) => Ok(binary_value_of(d.as_slice())),
            Err(e) => Err(e),
        }
    }
}

/// A binary value written as text: `B` followed by one character per byte.
pub open spec fn binary_value(bytes: Seq<u8>) -> Seq<char> {
    seq!['B'] + latin1_chars(bytes)
}

/// `B` followed by the ISO-8859-1 characters of the bytes.
pub fn binary_value_of(bytes: &[u8]) -> (s: String)
    ensures
        s@ == binary_value(bytes@),
{
    let mut s = String::new();
    push_char(&mut s, 'B');
    let rest = latin1_decode(bytes);
    let r = concat(s.as_str(), rest.as_str());
    assert(r@ =~= binary_value(bytes@));
    r
}

} // verus!
