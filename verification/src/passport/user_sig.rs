//! The PinTAN "signature": PIN and TAN packed into bytes.

use vstd::prelude::*;
use crate::error::{ErrorView, HbciError, HbciErrorKind, HbciResult};
use crate::text::{
    decimal, first_non_latin1, hex_upper, hex_upper_padded, pad_left, push_decimal,
    latin1_bytes, latin1_chars, latin1_decode, latin1_encodable, latin1_encode,
    lemma_latin1_chars_encodable, lemma_latin1_roundtrip,
};

verus! {

/// The abstract content of a PinTAN signature.
pub ghost struct UserSigView {
    pub pin: Seq<char>,
    pub tan: Seq<char>,
}

/// PIN and TAN of a PinTAN signature.
#[derive(Debug, Clone)]
pub struct UserSig {
    pin: String,
    tan: String,
}

impl View for UserSig {
    type V = UserSigView;

    closed spec fn view(&self) -> UserSigView {
        UserSigView { pin: self.pin@, tan: self.tan@ }
    }
}

/// The bytes of a signature: the PIN length, the PIN, then the TAN, all
/// in ISO-8859-1.
pub open spec fn sig_bytes(pin: Seq<char>, tan: Seq<char>) -> Seq<u8> {
    seq![pin.len() as u8] + latin1_bytes(pin) + latin1_bytes(tan)
}

/// Whether PIN and TAN can be packed.
pub open spec fn sig_encodable(pin: Seq<char>, tan: Seq<char>) -> bool {
    latin1_encodable(pin) && latin1_encodable(tan) && pin.len() <= 255
}

/// The error for a character without an ISO-8859-1 code.
pub open spec fn char_error(c: char) -> ErrorView {
    ErrorView {
        kind: HbciErrorKind::Unsupported,
        message: "UserSig character is not ISO-8859-1 representable: U+"@ + pad_left(hex_upper(c as u32 as nat), 4, '0'),
        source: None,
    }
}

/// The error for a PIN of `n` characters, too many for the length byte.
pub open spec fn pin_length_error(n: nat) -> ErrorView {
    ErrorView {
        kind: HbciErrorKind::InvalidArgument,
        message: "PIN is too long for UserSig length byte: "@ + decimal(n),
        source: None,
    }
}

/// What packing PIN and TAN gives: the PIN is checked first for its
/// characters, then for its length, then the TAN for its characters.
pub open spec fn sig_result(pin: Seq<char>, tan: Seq<char>) -> Result<Seq<u8>, ErrorView> {
    if !latin1_encodable(pin) {
        Err(char_error(pin[first_non_latin1(pin)]))
    } else if pin.len() > 255 {
        Err(pin_length_error(pin.len()))
    } else if !latin1_encodable(tan) {
        Err(char_error(tan[first_non_latin1(tan)]))
    } else {
        Ok(sig_bytes(pin, tan))
    }
}

proof fn lemma_first_non_latin1_at(s: Seq<char>, i: int)
    requires
        0 <= i < s.len(),
        (s[i] as u32) > 255,
        latin1_encodable(s.take(i)),
    ensures
        first_non_latin1(s) == i,
{
    assert forall|j: int| 0 <= j < i implies (#[trigger] s[j]) as u32 <= 255 by {
        assert(s.take(i)[j] == s[j]);
    }
    let k = first_non_latin1(s);
    assert(0 <= k < s.len() && (s[k] as u32) > 255 && forall|j: int| 0 <= j < k ==> (#[trigger] s[j]) as u32 <= 255);
    if k < i {
        assert(s.take(i)[k] == s[k]);
    }
}

/// The ISO-8859-1 bytes of `value`, or the error for its first character
/// without such a code.
fn encode_latin1(value: &str) -> (r: HbciResult<Vec<u8>>)
    ensures
        r matches Ok(b) ==> latin1_encodable(value@) && b@ == latin1_bytes(value@),
        r matches Err(e) ==> !latin1_encodable(value@) && e@ == char_error(value@[first_non_latin1(value@)]),
{
    let v = crate::text::chars_of(value);
    let mut out: Vec<u8> = Vec::new();
    let mut i: usize = 0;
    while i < v.len()
        invariant
            v@ == value@,
            i <= v@.len(),
            latin1_encodable(v@.take(i as int)),
            out@ == latin1_bytes(v@.take(i as int)),
        decreases v.len() - i,
    {
        let code = v[i] as u32;
        if code > 255 {
            proof {
                lemma_first_non_latin1_at(v@, i as int);
            }
            let mut msg = "UserSig character is not ISO-8859-1 representable: U+".to_string();
            let digits = hex_upper_padded(code as u64, 4);
            crate::text::append(&mut msg, digits.as_str());
            return Err(HbciError::new(HbciErrorKind::Unsupported, msg.as_str()));
        }
        out.push(code as u8);
        i += 1;
        assert(out@ =~= latin1_bytes(v@.take(i as int)));
    }
    assert(v@.take(v@.len() as int) =~= v@);
    Ok(out)
}

/// PIN and TAN read back from signature bytes, when the length byte fits.
pub open spec fn sig_decode(b: Seq<u8>) -> Option<UserSigView> {
    if b.len() == 0 || b.len() < b[0] + 1 {
        None
    } else {
        Some(
            UserSigView {
                pin: latin1_chars(b.subrange(1, b[0] + 1)),
                tan: latin1_chars(b.skip(b[0] + 1)),
            },
        )
    }
}

impl UserSig {
    pub fn new(pin: &str, tan: &str) -> (s: Self)
        ensures
            s@ == (UserSigView { pin: pin@, tan: tan@ }),
    {
        UserSig { pin: pin.to_owned(), tan: tan.to_owned() }
    }

    /// Packs PIN and TAN (a missing one counts as empty).
    pub fn encode(pin: Option<&str>, tan: Option<&str>) -> (r: HbciResult<Vec<u8>>)
        ensures
            ({
                let p = match pin {
                    Some(x) => x@,
                    None => Seq::<char>::empty(),
                };
                let t = match tan {
                    Some(x) => x@,
                    None => Seq::<char>::empty(),
                };
                &&& r matches Ok(b) ==> sig_encodable(p, t) && b@ == sig_bytes(p, t)
                &&& r is Err ==> !sig_encodable(p, t)
                &&& match sig_result(p, t) {
                    Ok(b) => r matches Ok(x) && x@ == b,
                    Err(e) => r matches Err(x) && x@ == e,
                }
            }),
    {
        proof {
            reveal_strlit("");
        }
        let p = match pin {
            Some(x) => x,
            None => "",
        };
        let t = match tan {
            Some(x) => x,
            None => "",
        };
        Self::new(p, t).to_bytes()
    }

    /// Reads PIN and TAN from signature bytes.
    pub fn decode(sig: Option<&[u8]>) -> (r: HbciResult<Self>)
        ensures
            sig is None ==> (r matches Err(e) && e@.kind == HbciErrorKind::InvalidArgument),
            sig matches Some(b) ==> match sig_decode(b@) {
                Some(v) => (r matches Ok(s) && s@ == v),
                None => (r matches Err(e) && e@.kind == HbciErrorKind::InvalidArgument),
            },
    {
        let sig = match sig {
            Some(s) => s,
            None => {
                return Err(
                    HbciError::new(
                        HbciErrorKind::InvalidArgument,
                        "pin/tan missing or too short - sig length: 0",
                    ),
                );
            },
        };
        if sig.len() == 0 {
            return Err(
                HbciError::new(
                    HbciErrorKind::InvalidArgument,
                    "pin/tan missing or too short - sig length: 0",
                ),
            );
        }
        let pin_len = sig[0] as usize;
        if sig.len() < pin_len + 1 {
            let mut msg = "pin length invalid - sig length: ".to_string();
            push_decimal(&mut msg, sig.len() as u64);
            crate::text::append(&mut msg, ", pin length: ");
            push_decimal(&mut msg, pin_len as u64);
            return Err(HbciError::new(HbciErrorKind::InvalidArgument, msg.as_str()));
        }
        let pin_bytes = slice_bytes(sig, 1, pin_len + 1);
        let tan_bytes = slice_bytes(sig, pin_len + 1, sig.len());
        assert(tan_bytes@ =~= sig@.skip(pin_len + 1));
        Ok(
            UserSig {
                pin: latin1_decode(pin_bytes.as_slice()),
                tan: latin1_decode(tan_bytes.as_slice()),
            },
        )
    }

    pub fn pin(&self) -> (p: &str)
        ensures
            p@ == self@.pin,
    {
        self.pin.as_str()
    }

    pub fn tan(&self) -> (t: &str)
        ensures
            t@ == self@.tan,
    {
        self.tan.as_str()
    }

    /// The signature bytes; fails when a character has no ISO-8859-1 code
    /// or the PIN is longer than 255 characters.
    pub fn to_bytes(&self) -> (r: HbciResult<Vec<u8>>)
        ensures
            r matches Ok(b) ==> sig_encodable(self@.pin, self@.tan) && b@ == sig_bytes(
                self@.pin,
                self@.tan,
            ),
            r matches Err(e) ==> !sig_encodable(self@.pin, self@.tan) && (e@.kind
                == HbciErrorKind::Unsupported || e@.kind == HbciErrorKind::InvalidArgument),
            match sig_result(self@.pin, self@.tan) {
                Ok(b) => r matches Ok(x) && x@ == b,
                Err(e) => r matches Err(x) && x@ == e,
            },
    {
        let pin = match encode_latin1(self.pin.as_str()) {
            Ok(p) => p,
            Err(e) => {
                return Err(e);
            },
        };
        if pin.len() > 255 {
            let mut msg = "PIN is too long for UserSig length byte: ".to_string();
            push_decimal(&mut msg, pin.len() as u64);
            return Err(HbciError::new(HbciErrorKind::InvalidArgument, msg.as_str()));
        }
        let tan = match encode_latin1(self.tan.as_str()) {
            Ok(t) => t,
            Err(e) => {
                return Err(e);
            },
        };
        let mut bytes: Vec<u8> = Vec::new();
        bytes.push(pin.len() as u8);
        let mut pin = pin;
        let mut tan = tan;
        bytes.append(&mut pin);
        bytes.append(&mut tan);
        assert(bytes@ =~= sig_bytes(self@.pin, self@.tan));
        Ok(bytes)
    }
}

fn slice_bytes(v: &[u8], from: usize, to: usize) -> (r: Vec<u8>)
    requires
        from <= to <= v@.len(),
    ensures
        r@ == v@.subrange(from as int, to as int),
{
    let mut r: Vec<u8> = Vec::new();
    let mut i = from;
    while i < to
        invariant
            from <= i <= to <= v@.len(),
            r@ == v@.subrange(from as int, i as int),
        decreases to - i,
    {
        r.push(v[i]);
        i += 1;
        assert(r@ =~= v@.subrange(from as int, i as int));
    }
    r
}

/// Packing and reading back gives PIN and TAN again.
pub proof fn law_sig_roundtrip(pin: Seq<char>, tan: Seq<char>)
    requires
        sig_encodable(pin, tan),
    ensures
        sig_decode(sig_bytes(pin, tan)) == Some(UserSigView { pin, tan }),
{
    let b = sig_bytes(pin, tan);
    assert(b[0] == pin.len() as u8);
    assert(b.subrange(1, pin.len() as int + 1) =~= latin1_bytes(pin));
    assert(b.skip(pin.len() as int + 1) =~= latin1_bytes(tan));
    lemma_latin1_roundtrip(pin);
    lemma_latin1_roundtrip(tan);
}

/// Reading bytes and packing what was read gives the bytes again.
pub proof fn law_sig_bytes_roundtrip(b: Seq<u8>)
    requires
        sig_decode(b) is Some,
    ensures
        ({
            let v = sig_decode(b).unwrap();
            sig_encodable(v.pin, v.tan) && sig_bytes(v.pin, v.tan) == b
        }),
{
    let v = sig_decode(b).unwrap();
    lemma_latin1_chars_encodable(b.subrange(1, b[0] + 1));
    lemma_latin1_chars_encodable(b.skip(b[0] + 1));
    assert(sig_bytes(v.pin, v.tan) =~= b);
}

} // verus!
