//! Security mechanisms of PIN/TAN: the HHD versions a bank offers, the
//! challenge parameters, and the optical codes (flicker, QR, matrix) that
//! carry a challenge to a TAN generator.

use vstd::prelude::*;
use crate::error::{ErrorView, HbciError, HbciErrorKind, HbciResult};
use crate::manager::account_crc::digit_sum;
use crate::text::{
    IntErrorKind, all_digits, all_digits_exec, append, chars_of, find, hex_acc, hex_digit_value, hex_upper, hex_upper_padded,
    hex_value, int_error_string, int_error_text, pad_left, parse_hex_int, parse_hex_u32, parse_int,
    parse_u32_with_kind, push_char, push_hex_upper, remove_char, remove_char_str, slice_chars, string_of,
    substring, find_str, trim, trim_str, starts_with, starts_with_str, contains, contains_str, parse_int_in, str_eq, concat,
    i64_string, signed_decimal, parse_usize_with_kind, latin1_chars, latin1_decode,
};
use crate::tools::{Properties, opt_str_view, opt_view};
use vstd::utf8::encode_utf8;
use crate::strmap::{StrMap, text_view};
use crate::xml::{XmlAttr, XmlEvent, XmlTag, attr_value, read_error, tag_attr, xml_events, xml_events_of};

verus! {

// ---------------------------------------------------------------------------
// Errors
// ---------------------------------------------------------------------------

pub open spec fn flicker_error() -> ErrorView {
    ErrorView { kind: HbciErrorKind::InvalidArgument, message: "invalid flicker code"@, source: None }
}

/// A flicker code error caused by a number that does not parse.
pub open spec fn flicker_number_error(k: IntErrorKind) -> ErrorView {
    ErrorView {
        kind: HbciErrorKind::InvalidArgument,
        message: "invalid flicker code"@,
        source: Some(int_error_text(k)),
    }
}

fn invalid_flicker_code() -> (e: HbciError)
    ensures
        e@ == flicker_error(),
{
    HbciError::new(HbciErrorKind::InvalidArgument, "invalid flicker code")
}

fn flicker_number_err(k: IntErrorKind) -> (e: HbciError)
    ensures
        e@ == flicker_number_error(k),
{
    let t = int_error_string(k);
    HbciError::with_source(HbciErrorKind::InvalidArgument, "invalid flicker code", t.as_str())
}

// ---------------------------------------------------------------------------
// Numbers in flicker codes
// ---------------------------------------------------------------------------

/// A number as two upper-case hexadecimal digits (more where it needs them).
pub open spec fn hex2(n: nat) -> Seq<char> {
    pad_left(hex_upper(n), 2, '0')
}

/// Each character as the two hexadecimal digits of its code.
pub open spec fn hex_text(s: Seq<char>) -> Seq<char>
    decreases s.len(),
{
    if s.len() == 0 {
        seq![]
    } else {
        hex_text(s.drop_last()) + hex2((s.last() as u32) as nat)
    }
}

/// The sum of the bits 0 to `bits` of `value`.
pub fn get_bit_sum(value: u32, bits: u8) -> (r: u32)
    requires
        bits < 31,
    ensures
        r == value & ((1u32 << (bits + 1) as u32) - 1) as u32,
{
    let mut sum: u32 = 0;
    let mut bit: u32 = 0;
    assert(value & ((1u32 << 0u32) - 1) as u32 == 0) by (bit_vector);
    while bit <= bits as u32
        invariant
            bits < 31,
            bit <= bits as u32 + 1,
            sum == value & ((1u32 << bit) - 1) as u32,
        decreases bits as u32 + 1 - bit,
    {
        let part = value & (1u32 << bit);
        assert(((value & ((1u32 << bit) - 1) as u32) + (value & (1u32 << bit))) == value & ((1u32 << (bit + 1) as u32) - 1) as u32
            && (value & ((1u32 << bit) - 1) as u32) + (value & (1u32 << bit)) <= u32::MAX) by (bit_vector)
            requires
                bit < 31,
        ;
        sum = sum + part;
        bit = bit + 1;
    }
    sum
}

/// The low six bits: the length field of a length byte.
pub open spec fn length_bits(v: u32) -> u32 {
    v & 63
}

/// Whether bit `bit` of `value` is set.
pub fn is_bit_set(value: u32, bit: u8) -> (b: bool)
    requires
        bit < 32,
    ensures
        b == (value & (1u32 << bit as u32) != 0),
{
    value & (1u32 << bit as u32) != 0
}

/// `n` as hexadecimal digits, zero-padded to `len`.
pub fn to_hex(value: u64, len: usize) -> (s: String)
    ensures
        s@ == pad_left(hex_upper(value as nat), len as nat, '0'),
{
    hex_upper_padded(value, len)
}

/// Every character of `value` as two hexadecimal digits.
pub fn to_hex_string(value: &str) -> (s: String)
    ensures
        s@ == hex_text(value@),
{
    let v = chars_of(value);
    let mut s = String::new();
    let mut i: usize = 0;
    while i < v.len()
        invariant
            v@ == value@,
            i <= v@.len(),
            s@ == hex_text(v@.take(i as int)),
        decreases v.len() - i,
    {
        let code: u32 = v[i] as u32;
        let h = to_hex(code as u64, 2);
        append(&mut s, h.as_str());
        assert(v@.take(i + 1).drop_last() =~= v@.take(i as int));
        assert(v@.take(i + 1).last() == v@[i as int]);
        assert(s@ =~= hex_text(v@.take(i + 1)));
        i += 1;
    }
    assert(v@.take(i as int) =~= v@);
    s
}

/// XOR of the hexadecimal digit values of `s`, starting from `acc`; nothing
/// where a character is not a hexadecimal digit.
pub open spec fn xor_acc(s: Seq<char>, acc: u32) -> Option<u32>
    decreases s.len(),
{
    if s.len() == 0 {
        Some(acc)
    } else {
        match hex_value(s[0]) {
            None => None,
            Some(x) => xor_acc(s.skip(1), acc ^ (x as u32)),
        }
    }
}

proof fn lemma_xor_acc_small(s: Seq<char>, acc: u32)
    requires
        acc < 16,
    ensures
        xor_acc(s, acc) matches Some(x) ==> x < 16,
    decreases s.len(),
{
    if s.len() > 0 {
        match hex_value(s[0]) {
            None => {},
            Some(x) => {
                let y = x as u32;
                assert(acc ^ y < 16) by (bit_vector)
                    requires
                        acc < 16,
                        y < 16,
                ;
                lemma_xor_acc_small(s.skip(1), acc ^ y);
            },
        }
    }
}

/// The XOR check digit of a payload.
pub open spec fn xor_checksum(payload: Seq<char>) -> Result<Seq<char>, ErrorView> {
    match xor_acc(payload, 0) {
        None => Err(flicker_error()),
        Some(x) => Ok(hex_upper(x as nat)),
    }
}

fn create_xor_checksum(payload: &str) -> (r: HbciResult<String>)
    ensures
        r matches Ok(s) ==> xor_checksum(payload@) == Ok::<Seq<char>, ErrorView>(s@),
        r matches Err(e) ==> xor_checksum(payload@) == Err::<Seq<char>, ErrorView>(e@),
{
    let v = chars_of(payload);
    let mut acc: u32 = 0;
    let mut i: usize = 0;
    assert(v@.skip(0) =~= v@);
    while i < v.len()
        invariant
            v@ == payload@,
            i <= v@.len(),
            acc < 16,
            xor_acc(payload@, 0) == xor_acc(v@.skip(i as int), acc),
        decreases v.len() - i,
    {
        assert(v@.skip(i as int)[0] == v@[i as int]);
        assert(v@.skip(i as int).skip(1) =~= v@.skip(i + 1));
        match hex_digit_value(v[i]) {
            None => {
                return Err(invalid_flicker_code());
            },
            Some(x) => {
                assert(acc ^ x < 16) by (bit_vector)
                    requires
                        acc < 16,
                        x < 16,
                ;
                acc = acc ^ x;
            },
        }
        i += 1;
    }
    assert(v@.skip(i as int).len() == 0);
    Ok(to_hex(acc as u64, 1))
}

/// The Luhn sum, modulo 10, over pairs of hexadecimal digits: the first
/// digit of a pair counts once, the digit sum of twice the second digit too.
pub open spec fn luhn_acc(s: Seq<char>, acc: nat) -> Option<nat>
    decreases s.len(),
{
    if s.len() < 2 {
        Some(acc)
    } else {
        match (hex_value(s[0]), hex_value(s[1])) {
            (Some(a), Some(b)) => luhn_acc(s.skip(2), (acc + a + digit_sum(2 * b)) % 10),
            _ => None,
        }
    }
}

/// The value of a hexadecimal digit, 0 for another character.
pub open spec fn hex_or_zero(c: char) -> nat {
    match hex_value(c) {
        Some(v) => v,
        None => 0,
    }
}

/// The Luhn total of a text of hexadecimal digits read in pairs: the first
/// digit of each pair counts once, the second is doubled and its digits
/// are added.
pub open spec fn pair_total(s: Seq<char>) -> nat
    decreases s.len(),
{
    if s.len() < 2 {
        0
    } else {
        hex_or_zero(s[0]) + digit_sum(2 * hex_or_zero(s[1])) + pair_total(s.skip(2))
    }
}

proof fn lemma_luhn_acc_total(s: Seq<char>, acc: nat)
    requires
        acc < 10,
    ensures
        luhn_acc(s, acc) matches Some(x) ==> x == (acc + pair_total(s)) % 10,
    decreases s.len(),
{
    if s.len() >= 2 {
        match (hex_value(s[0]), hex_value(s[1])) {
            (Some(a), Some(b)) => {
                let t = acc + a + digit_sum(2 * b);
                lemma_luhn_acc_total(s.skip(2), (t % 10) as nat);
                vstd::arithmetic::div_mod::lemma_add_mod_noop(t as int, pair_total(s.skip(2)) as int, 10);
                vstd::arithmetic::div_mod::lemma_mod_twice(t as int, 10);
            },
            _ => {},
        }
    }
}

/// Digit sum of a number.
fn digit_sum_of(value: u32) -> (r: u32)
    ensures
        r == digit_sum(value as nat),
        r <= value,
{
    let mut v = value;
    let mut sum: u32 = 0;
    while v != 0
        invariant
            sum + digit_sum(v as nat) == digit_sum(value as nat),
            sum + v <= value,
        decreases v,
    {
        sum = sum + v % 10;
        v = v / 10;
    }
    sum
}

// ---------------------------------------------------------------------------
// Data elements
// ---------------------------------------------------------------------------

/// How the data of an element is coded on the wire.
#[derive(Debug, Clone, Copy, PartialEq, Eq, Structural)]
pub enum FlickerEncoding {
    Asc,
    Bcd,
}

/// The HHD version of a flicker code.
#[derive(Debug, Clone, Copy, PartialEq, Eq, Structural)]
pub enum FlickerCodeVersion {
    Hhd14,
    Hhd13,
}

/// What a data element holds.
pub ghost struct ElementView {
    pub length: u32,
    pub lde: u32,
    pub lde_len: usize,
    pub encoding: Option<FlickerEncoding>,
    pub data: Option<Seq<char>>,
}

/// A data element of a flicker code: its length byte and its data.
#[derive(Debug, Clone)]
pub struct FlickerDataElement {
    pub length: u32,
    pub lde: u32,
    pub lde_len: usize,
    pub encoding: Option<FlickerEncoding>,
    pub data: Option<String>,
}

impl View for FlickerDataElement {
    type V = ElementView;

    open spec fn view(&self) -> ElementView {
        ElementView {
            length: self.length,
            lde: self.lde,
            lde_len: self.lde_len,
            encoding: self.encoding,
            data: match self.data {
                Some(d) => Some(d@),
                None => None,
            },
        }
    }
}

impl Default for FlickerDataElement {
    /// An element without data.
    fn default() -> (e: Self)
        ensures
            e@ == empty_element(),
    {
        FlickerDataElement { length: 0, lde: 0, lde_len: 0, encoding: None, data: None }
    }
}

pub open spec fn empty_element() -> ElementView {
    ElementView { length: 0, lde: 0, lde_len: 0, encoding: None, data: None }
}

/// The coding of an element: the one set, else BCD for data of decimal
/// digits only, else ASCII.
pub open spec fn resolved_encoding(e: ElementView) -> FlickerEncoding {
    match e.encoding {
        Some(x) => x,
        None => if (e.data matches Some(d) && d.len() > 0 && all_digits(d)) {
            FlickerEncoding::Bcd
        } else {
            FlickerEncoding::Asc
        },
    }
}

/// The data as sent: ASCII data as hexadecimal codes, BCD data padded with
/// `F` to an even number of digits.
pub open spec fn render_data(e: ElementView) -> Seq<char> {
    match e.data {
        None => seq![],
        Some(d) => if resolved_encoding(e) == FlickerEncoding::Asc {
            hex_text(d)
        } else if d.len() % 2 == 1 {
            d.push('F')
        } else {
            d
        },
    }
}

/// The length byte as sent: the number of data bytes, with the coding bit
/// for ASCII data in HHD 1.4, or the digit `1` before it in HHD 1.3.
pub open spec fn render_length(e: ElementView, v: FlickerCodeVersion) -> Seq<char> {
    if e.data is None {
        seq![]
    } else {
        let n = render_data(e).len() / 2;
        if resolved_encoding(e) == FlickerEncoding::Bcd {
            hex2(n)
        } else if v == FlickerCodeVersion::Hhd14 {
            hex2(n + 64)
        } else {
            seq!['1'] + hex_upper(n)
        }
    }
}

/// Reads a data element: `lde_len` decimal digits of length byte, then as
/// many characters of data as its low six bits say; nothing at the end of
/// the input.
pub open spec fn parse_element(input: Seq<char>, lde_len: nat) -> Result<(ElementView, Seq<char>), ErrorView> {
    if input.len() == 0 {
        Ok((empty_element(), input))
    } else if input.len() < lde_len {
        Err(flicker_error())
    } else {
        match parse_int(input.take(lde_len as int), 0, u32::MAX as int) {
            Err(k) => Err(flicker_number_error(k)),
            Ok(lde) => {
                let length = length_bits(lde as u32);
                let rest = input.skip(lde_len as int);
                if rest.len() < length {
                    Err(flicker_error())
                } else {
                    Ok(
                        (
                            ElementView {
                                length,
                                lde: lde as u32,
                                lde_len: lde_len as usize,
                                encoding: None,
                                data: Some(rest.take(length as int)),
                            },
                            rest.skip(length as int),
                        ),
                    )
                }
            },
        }
    }
}

impl FlickerDataElement {
    fn resolved_encoding(&self) -> (r: FlickerEncoding)
        ensures
            r == resolved_encoding(self@),
    {
        match self.encoding {
            Some(x) => x,
            None => match &self.data {
                Some(d) => {
                    let v = chars_of(d.as_str());
                    if v.len() > 0 && all_digits_exec(v.as_slice()) {
                        FlickerEncoding::Bcd
                    } else {
                        FlickerEncoding::Asc
                    }
                },
                None => FlickerEncoding::Asc,
            },
        }
    }

    fn render_data(&self) -> (s: String)
        ensures
            s@ == render_data(self@),
    {
        match &self.data {
            None => String::new(),
            Some(d) => {
                if self.resolved_encoding() == FlickerEncoding::Asc {
                    to_hex_string(d.as_str())
                } else {
                    let mut r = d.clone();
                    if d.as_str().unicode_len() % 2 == 1 {
                        push_char(&mut r, 'F');
                    }
                    r
                }
            },
        }
    }

    fn render_length(&self, version: FlickerCodeVersion) -> (s: String)
        ensures
            s@ == render_length(self@, version),
    {
        if self.data.is_none() {
            return String::new();
        }
        let enc = self.resolved_encoding();
        let data = self.render_data();
        let n = data.as_str().unicode_len() / 2;
        if enc == FlickerEncoding::Bcd {
            return to_hex(n as u64, 2);
        }
        if version == FlickerCodeVersion::Hhd14 {
            return to_hex(n as u64 + 64, 2);
        }
        let mut s = String::new();
        push_char(&mut s, '1');
        push_hex_upper(&mut s, n as u64);
        assert(s@ =~= seq!['1'] + hex_upper(n as nat));
        s
    }

    /// Reads a data element from the front of `input`, giving the rest.
    fn parse(input: &[char], lde_len: usize) -> (r: HbciResult<(Self, Vec<char>)>)
        ensures
            match parse_element(input@, lde_len as nat) {
                Ok((e, rest)) => r matches Ok((x, y)) && x@ == e && y@ == rest,
                Err(err) => r matches Err(x) && x@ == err,
            },
    {
        if input.len() == 0 {
            let rest = slice_chars(input, 0, 0);
            assert(rest@ =~= input@);
            return Ok((FlickerDataElement::default(), rest));
        }
        if input.len() < lde_len {
            return Err(invalid_flicker_code());
        }
        let head = string_of(slice_chars(input, 0, lde_len).as_slice());
        assert(head@ =~= input@.take(lde_len as int));
        let lde = match parse_u32_with_kind(head.as_str()) {
            Ok(x) => x,
            Err(k) => {
                return Err(flicker_number_err(k));
            },
        };
        let length = lde & 63;
        let n = input.len();
        let rest = slice_chars(input, lde_len, n);
        assert(rest@ =~= input@.skip(lde_len as int));
        if rest.len() < length as usize {
            return Err(invalid_flicker_code());
        }
        let data = string_of(slice_chars(rest.as_slice(), 0, length as usize).as_slice());
        let m = rest.len();
        let after = slice_chars(rest.as_slice(), length as usize, m);
        assert(data@ =~= rest@.take(length as int));
        assert(after@ =~= rest@.skip(length as int));
        Ok((FlickerDataElement { length, lde, lde_len, encoding: None, data: Some(data) }, after))
    }
}

// ---------------------------------------------------------------------------
// Start code
// ---------------------------------------------------------------------------

/// What a start code holds.
pub ghost struct StartCodeView {
    pub element: ElementView,
    pub control_bytes: Seq<u32>,
}

/// The start code of a flicker code: a data element preceded by up to ten
/// control bytes.
#[derive(Debug, Clone)]
pub struct FlickerStartCode {
    pub element: FlickerDataElement,
    pub control_bytes: Vec<u32>,
}

impl View for FlickerStartCode {
    type V = StartCodeView;

    open spec fn view(&self) -> StartCodeView {
        StartCodeView { element: self.element@, control_bytes: self.control_bytes@ }
    }
}

impl Default for FlickerStartCode {
    fn default() -> (c: Self)
        ensures
            c@ == (StartCodeView { element: empty_element(), control_bytes: seq![] }),
    {
        FlickerStartCode { element: FlickerDataElement::default(), control_bytes: Vec::new() }
    }
}

/// Reads up to `n` control bytes: each is two hexadecimal digits, and the
/// last is the first whose top bit is clear.
pub open spec fn parse_control_bytes(s: Seq<char>, n: nat) -> Result<(Seq<u32>, Seq<char>), ErrorView>
    decreases n,
{
    if n == 0 {
        Ok((seq![], s))
    } else if s.len() < 2 {
        Err(flicker_error())
    } else {
        match parse_hex_int(s.take(2), u32::MAX as int) {
            Err(k) => Err(flicker_number_error(k)),
            Ok(b) => if (b as u32) & 0x80 == 0 {
                Ok((seq![b as u32], s.skip(2)))
            } else {
                match parse_control_bytes(s.skip(2), (n - 1) as nat) {
                    Err(e) => Err(e),
                    Ok((bs, r)) => Ok((seq![b as u32] + bs, r)),
                }
            },
        }
    }
}

/// Reads the start code: a hexadecimal length byte, control bytes where its
/// top bit is set (which makes the code HHD 1.4), then the data.
pub open spec fn parse_start_code(input: Seq<char>) -> Result<(StartCodeView, FlickerCodeVersion, Seq<char>), ErrorView> {
    if input.len() < 2 {
        Err(flicker_error())
    } else {
        match parse_hex_int(input.take(2), u32::MAX as int) {
            Err(k) => Err(flicker_number_error(k)),
            Ok(l) => {
                let lde = l as u32;
                let length = length_bits(lde);
                let rest = input.skip(2);
                let cb = if lde & 0x80 != 0 {
                    parse_control_bytes(rest, 10)
                } else {
                    Ok((seq![], rest))
                };
                let version = if lde & 0x80 != 0 {
                    FlickerCodeVersion::Hhd14
                } else {
                    FlickerCodeVersion::Hhd13
                };
                match cb {
                    Err(e) => Err(e),
                    Ok((bytes, r)) => if r.len() < length {
                        Err(flicker_error())
                    } else {
                        Ok(
                            (
                                StartCodeView {
                                    element: ElementView {
                                        length,
                                        lde,
                                        lde_len: 0,
                                        encoding: None,
                                        data: Some(r.take(length as int)),
                                    },
                                    control_bytes: bytes,
                                },
                                version,
                                r.skip(length as int),
                            ),
                        )
                    },
                }
            },
        }
    }
}

/// The control bytes as hexadecimal pairs.
pub open spec fn control_hex(bytes: Seq<u32>) -> Seq<char>
    decreases bytes.len(),
{
    if bytes.len() == 0 {
        seq![]
    } else {
        control_hex(bytes.drop_last()) + hex2(bytes.last() as nat)
    }
}

/// The length byte of the start code: in HHD 1.4 with control bytes, the
/// element's length byte with the top bit set.
pub open spec fn start_render_length(c: StartCodeView, v: FlickerCodeVersion) -> Result<Seq<char>, ErrorView> {
    let r = render_length(c.element, v);
    if v == FlickerCodeVersion::Hhd13 || c.control_bytes.len() == 0 {
        Ok(r)
    } else {
        match parse_hex_int(r, u32::MAX as int) {
            Err(k) => Err(flicker_number_error(k)),
            Ok(len) => Ok(hex2((len + 128) as nat)),
        }
    }
}

fn parse_hex_prefix(s: &[char]) -> (r: HbciResult<u32>)
    requires
        s@.len() >= 2,
    ensures
        match parse_hex_int(s@.take(2), u32::MAX as int) {
            Ok(x) => r matches Ok(y) && y == x,
            Err(k) => r matches Err(e) && e@ == flicker_number_error(k),
        },
{
    let head = string_of(slice_chars(s, 0, 2).as_slice());
    assert(head@ =~= s@.take(2));
    match parse_hex_u32(head.as_str()) {
        Ok(x) => Ok(x),
        Err(k) => Err(flicker_number_err(k)),
    }
}

fn parse_control_bytes_exec(s: &[char], n: usize) -> (r: HbciResult<(Vec<u32>, Vec<char>)>)
    ensures
        match parse_control_bytes(s@, n as nat) {
            Ok((bs, rest)) => r matches Ok((x, y)) && x@ == bs && y@ == rest,
            Err(e) => r matches Err(x) && x@ == e,
        },
    decreases n,
{
    if n == 0 {
        let rest = slice_chars(s, 0, s.len());
        assert(rest@ =~= s@);
        return Ok((Vec::new(), rest));
    }
    if s.len() < 2 {
        return Err(invalid_flicker_code());
    }
    let b = match parse_hex_prefix(s) {
        Ok(b) => b,
        Err(e) => {
            return Err(e);
        },
    };
    let m = s.len();
    let rest = slice_chars(s, 2, m);
    assert(rest@ =~= s@.skip(2));
    if b & 0x80 == 0 {
        let mut bs = Vec::new();
        bs.push(b);
        assert(bs@ =~= seq![b]);
        return Ok((bs, rest));
    }
    match parse_control_bytes_exec(rest.as_slice(), n - 1) {
        Err(e) => Err(e),
        Ok((more, r)) => {
            let mut bs = Vec::new();
            bs.push(b);
            let ghost first = bs@;
            let mut more = more;
            let ghost m0 = more@;
            bs.append(&mut more);
            assert(bs@ =~= seq![b] + m0);
            Ok((bs, r))
        },
    }
}

fn control_hex_exec(bytes: &Vec<u32>) -> (s: String)
    ensures
        s@ == control_hex(bytes@),
{
    let mut s = String::new();
    let mut i: usize = 0;
    while i < bytes.len()
        invariant
            i <= bytes@.len(),
            s@ == control_hex(bytes@.take(i as int)),
        decreases bytes.len() - i,
    {
        let h = to_hex(bytes[i] as u64, 2);
        append(&mut s, h.as_str());
        assert(bytes@.take(i + 1).drop_last() =~= bytes@.take(i as int));
        i += 1;
    }
    assert(bytes@.take(i as int) =~= bytes@);
    s
}

impl FlickerStartCode {
    /// Reads the start code from the front of `input`, with the version it
    /// implies and the rest.
    fn parse(input: &[char]) -> (r: HbciResult<(Self, FlickerCodeVersion, Vec<char>)>)
        ensures
            match parse_start_code(input@) {
                Ok((c, v, rest)) => r matches Ok((x, y, z)) && x@ == c && y == v && z@ == rest,
                Err(e) => r matches Err(x) && x@ == e,
            },
    {
        if input.len() < 2 {
            return Err(invalid_flicker_code());
        }
        let lde = match parse_hex_prefix(input) {
            Ok(x) => x,
            Err(e) => {
                return Err(e);
            },
        };
        let length = lde & 63;
        let n = input.len();
        let rest = slice_chars(input, 2, n);
        assert(rest@ =~= input@.skip(2));
        let (control_bytes, version, r) = if lde & 0x80 != 0 {
            match parse_control_bytes_exec(rest.as_slice(), 10) {
                Ok((bs, r)) => (bs, FlickerCodeVersion::Hhd14, r),
                Err(e) => {
                    return Err(e);
                },
            }
        } else {
            (Vec::new(), FlickerCodeVersion::Hhd13, rest)
        };
        assert(control_bytes@.len() == 0 ==> control_bytes@ =~= seq![]);
        if r.len() < length as usize {
            return Err(invalid_flicker_code());
        }
        let data = string_of(slice_chars(r.as_slice(), 0, length as usize).as_slice());
        let m = r.len();
        let after = slice_chars(r.as_slice(), length as usize, m);
        assert(data@ =~= r@.take(length as int));
        assert(after@ =~= r@.skip(length as int));
        let element = FlickerDataElement { length, lde, lde_len: 0, encoding: None, data: Some(data) };
        Ok((FlickerStartCode { element, control_bytes }, version, after))
    }

    fn render_length(&self, version: FlickerCodeVersion) -> (r: HbciResult<String>)
        ensures
            match start_render_length(self@, version) {
                Ok(s) => r matches Ok(x) && x@ == s,
                Err(e) => r matches Err(x) && x@ == e,
            },
    {
        let rendered = self.element.render_length(version);
        if version == FlickerCodeVersion::Hhd13 || self.control_bytes.len() == 0 {
            return Ok(rendered);
        }
        match parse_hex_u32(rendered.as_str()) {
            Ok(len) => Ok(to_hex(len as u64 + 128, 2)),
            Err(k) => Err(flicker_number_err(k)),
        }
    }
}

// ---------------------------------------------------------------------------
// Flicker codes
// ---------------------------------------------------------------------------

/// The flicker code inside a challenge: without spaces and surrounding white
/// space; where the text holds a `CHLGUC` block before `CHLGTEXT`, the part of
/// that block after its first ten characters, behind a `0`.
pub open spec fn clean_flicker(code: Seq<char>) -> Seq<char> {
    let s = trim(remove_char(code, ' '));
    match (find(s, "CHLGUC"@), find(s, "CHLGTEXT"@)) {
        (Some(a), Some(b)) => if b <= a {
            s
        } else {
            let sub = s.subrange(a, b);
            if sub.len() < 10 {
                seq![]
            } else {
                seq!['0'] + sub.skip(10)
            }
        },
        _ => s,
    }
}

fn clean_flicker_code(code: &str) -> (r: String)
    ensures
        r@ == clean_flicker(code@),
{
    let without = remove_char_str(code, ' ');
    let s = trim_str(without.as_str());
    let a = find_str(s.as_str(), "CHLGUC");
    let b = find_str(s.as_str(), "CHLGTEXT");
    match (a, b) {
        (Some(a), Some(b)) => {
            if b <= a {
                return s;
            }
            proof {
                crate::text::lemma_find_from_spec(s@, "CHLGTEXT"@, 0);
            }
            let sub = substring(s.as_str(), a, b);
            let n = sub.as_str().unicode_len();
            if n < 10 {
                return String::new();
            }
            let tail = substring(sub.as_str(), 10, n);
            assert(tail@ =~= sub@.skip(10));
            let mut r = String::new();
            push_char(&mut r, '0');
            append(&mut r, tail.as_str());
            assert(r@ =~= seq!['0'] + sub@.skip(10));
            r
        },
        _ => s,
    }
}

/// What a flicker code holds.
pub ghost struct FlickerCodeView {
    pub version: Option<FlickerCodeVersion>,
    pub lc: u32,
    pub start_code: StartCodeView,
    pub de1: ElementView,
    pub de2: ElementView,
    pub de3: ElementView,
    pub rest: Option<Seq<char>>,
}

/// A flicker code: its length, start code and three data elements.
#[derive(Debug, Clone)]
pub struct FlickerCode {
    pub version: Option<FlickerCodeVersion>,
    pub lc: u32,
    pub start_code: FlickerStartCode,
    pub de1: FlickerDataElement,
    pub de2: FlickerDataElement,
    pub de3: FlickerDataElement,
    pub rest: Option<String>,
}

impl View for FlickerCode {
    type V = FlickerCodeView;

    open spec fn view(&self) -> FlickerCodeView {
        FlickerCodeView {
            version: self.version,
            lc: self.lc,
            start_code: self.start_code@,
            de1: self.de1@,
            de2: self.de2@,
            de3: self.de3@,
            rest: match self.rest {
                Some(r) => Some(r@),
                None => None,
            },
        }
    }
}

impl Default for FlickerCode {
    fn default() -> (c: Self)
        ensures
            c@ == (FlickerCodeView {
                version: None,
                lc: 0,
                start_code: StartCodeView { element: empty_element(), control_bytes: seq![] },
                de1: empty_element(),
                de2: empty_element(),
                de3: empty_element(),
                rest: None,
            }),
    {
        FlickerCode {
            version: None,
            lc: 0,
            start_code: FlickerStartCode::default(),
            de1: FlickerDataElement::default(),
            de2: FlickerDataElement::default(),
            de3: FlickerDataElement::default(),
            rest: None,
        }
    }
}

/// Reads a flicker code of version `v` whose data elements have length
/// bytes of `lde_len` digits: the length (three digits in HHD 1.4, two in
/// 1.3), the start code, three data elements, and what is left.
pub open spec fn parse_flicker(code: Seq<char>, v: FlickerCodeVersion, lde_len: nat) -> Result<FlickerCodeView, ErrorView> {
    let c = clean_flicker(code);
    let lc_len: nat = if v == FlickerCodeVersion::Hhd14 {
        3
    } else {
        2
    };
    if c.len() < lc_len {
        Err(flicker_error())
    } else {
        match parse_int(c.take(lc_len as int), 0, u32::MAX as int) {
            Err(k) => Err(flicker_number_error(k)),
            Ok(lc) => match parse_start_code(c.skip(lc_len as int)) {
                Err(e) => Err(e),
                Ok((sc, pv, r1)) => match parse_element(r1, lde_len) {
                    Err(e) => Err(e),
                    Ok((d1, r2)) => match parse_element(r2, lde_len) {
                        Err(e) => Err(e),
                        Ok((d2, r3)) => match parse_element(r3, lde_len) {
                            Err(e) => Err(e),
                            Ok((d3, r4)) => Ok(
                                FlickerCodeView {
                                    version: Some(pv),
                                    lc: lc as u32,
                                    start_code: sc,
                                    de1: d1,
                                    de2: d2,
                                    de3: d3,
                                    rest: if r4.len() > 0 {
                                        Some(r4)
                                    } else {
                                        None
                                    },
                                },
                            ),
                        },
                    },
                },
            },
        }
    }
}

/// The flicker version that an HHD version uses, if any.
pub open spec fn hhd_flicker_version(h: HhdVersion) -> Option<FlickerCodeVersion> {
    match h {
        HhdVersion::Qr14 | HhdVersion::Hhd14 | HhdVersion::Ms1 => Some(FlickerCodeVersion::Hhd14),
        HhdVersion::Qr13 | HhdVersion::Hhd13 | HhdVersion::Hhd12 => Some(FlickerCodeVersion::Hhd13),
        HhdVersion::Decoupled => None,
    }
}

/// Reads a flicker code: as the version that `hhd` implies where that
/// works, else as HHD 1.4, HHD 1.4 with three-digit length bytes, or HHD 1.3,
/// the first that works.
pub open spec fn flicker_with_hhd(hhd: Option<HhdVersion>, code: Seq<char>) -> Result<FlickerCodeView, ErrorView> {
    let first = match hhd {
        Some(h) => match hhd_flicker_version(h) {
            Some(v) => parse_flicker(code, v, 2),
            None => Err(flicker_error()),
        },
        None => Err(flicker_error()),
    };
    if first is Ok {
        first
    } else {
        match parse_flicker(code, FlickerCodeVersion::Hhd14, 2) {
            Ok(x) => Ok(x),
            Err(_) => match parse_flicker(code, FlickerCodeVersion::Hhd14, 3) {
                Ok(x) => Ok(x),
                Err(_) => parse_flicker(code, FlickerCodeVersion::Hhd13, 2),
            },
        }
    }
}

/// Length byte and data of an element.
pub open spec fn element_part(e: ElementView, v: FlickerCodeVersion) -> Seq<char> {
    render_length(e, v) + render_data(e)
}

/// The payload of a flicker code, behind its own length in bytes.
pub open spec fn flicker_payload(f: FlickerCodeView) -> Result<Seq<char>, ErrorView> {
    match f.version {
        None => Err(flicker_error()),
        Some(v) => match start_render_length(f.start_code, v) {
            Err(e) => Err(e),
            Ok(sl) => {
                let p = sl + control_hex(f.start_code.control_bytes) + render_data(f.start_code.element)
                    + element_part(f.de1, v) + element_part(f.de2, v) + element_part(f.de3, v);
                Ok(hex2(((p.len() + 2) / 2) as nat) + p)
            },
        },
    }
}

/// The digits that the Luhn check digit covers.
pub open spec fn luhn_payload(f: FlickerCodeView) -> Seq<char> {
    control_hex(f.start_code.control_bytes) + render_data(f.start_code.element) + render_data(f.de1)
        + render_data(f.de2) + render_data(f.de3)
}

/// The Luhn check digit of a flicker code.
pub open spec fn luhn_checksum(f: FlickerCodeView) -> Result<Seq<char>, ErrorView> {
    let p = luhn_payload(f);
    if p.len() % 2 == 1 {
        Err(flicker_error())
    } else {
        match luhn_acc(p, 0) {
            None => Err(flicker_error()),
            Some(sum) => Ok(
                if sum % 10 == 0 {
                    seq!['0']
                } else {
                    hex_upper((10 - sum % 10) as nat)
                },
            ),
        }
    }
}

/// The Luhn check digit is the decimal digit that completes the Luhn
/// total of the digits it covers (see `pair_total`) to a multiple of ten.
pub proof fn law_luhn_digit_completes_total(f: FlickerCodeView)
    requires
        luhn_checksum(f) is Ok,
    ensures
        luhn_checksum(f) matches Ok(c) && c.len() == 1 && (hex_value(c[0]) matches Some(d) && d < 10 && (
        pair_total(luhn_payload(f)) + d) % 10 == 0),
{
    let p = luhn_payload(f);
    lemma_luhn_acc_total(p, 0);
    let sum = luhn_acc(p, 0)->0;
    assert(sum == pair_total(p) % 10);
    if sum % 10 != 0 {
        let n = (10 - sum % 10) as nat;
        assert(hex_upper(n) == seq![crate::text::hex_digit_upper(n)]);
        assert(hex_value(crate::text::hex_digit_upper(n)) == Some(n));
    }
}

/// The code as a TAN generator reads it: payload, Luhn and XOR check digits.
pub open spec fn render_flicker(f: FlickerCodeView) -> Result<Seq<char>, ErrorView> {
    match flicker_payload(f) {
        Err(e) => Err(e),
        Ok(p) => match luhn_checksum(f) {
            Err(e) => Err(e),
            Ok(l) => match xor_checksum(p) {
                Err(e) => Err(e),
                Ok(x) => Ok(p + l + x),
            },
        },
    }
}

/// The code found in the HHDUC data or else in the challenge text, the first
/// that reads and renders.
pub open spec fn flicker_try(
    hhd: Option<HhdVersion>,
    challenge: Option<Seq<char>>,
    hhduc: Option<Seq<char>>,
) -> Option<FlickerCodeView> {
    let from_hhduc = match hhduc {
        Some(h) => if trim(h).len() > 0 {
            match flicker_with_hhd(hhd, h) {
                Ok(c) => if render_flicker(c) is Ok {
                    Some(c)
                } else {
                    None
                },
                Err(_) => None,
            }
        } else {
            None
        },
        None => None,
    };
    let from_challenge = match challenge {
        Some(h) => if trim(h).len() > 0 {
            match flicker_with_hhd(hhd, h) {
                Ok(c) => if render_flicker(c) is Ok {
                    Some(c)
                } else {
                    None
                },
                Err(_) => None,
            }
        } else {
            None
        },
        None => None,
    };
    if from_hhduc is Some {
        from_hhduc
    } else {
        from_challenge
    }
}

fn element_part_exec(e: &FlickerDataElement, v: FlickerCodeVersion) -> (s: String)
    ensures
        s@ == element_part(e@, v),
{
    let mut s = e.render_length(v);
    let d = e.render_data();
    append(&mut s, d.as_str());
    s
}

fn luhn_sum_of(p: &str) -> (r: Option<u64>)
    requires
        p@.len() % 2 == 0,
    ensures
        r matches Some(x) ==> luhn_acc(p@, 0) == Some(x as nat),
        r is None ==> luhn_acc(p@, 0) is None,
{
    let v = chars_of(p);
    let mut sum: u64 = 0;
    let mut i: usize = 0;
    assert(v@.skip(0) =~= v@);
    while i < v.len()
        invariant
            v@ == p@,
            i <= v@.len(),
            i % 2 == 0,
            v@.len() % 2 == 0,
            sum < 10,
            luhn_acc(p@, 0) == luhn_acc(v@.skip(i as int), sum as nat),
        decreases v.len() - i,
    {
        assert(v@.skip(i as int)[0] == v@[i as int]);
        assert(v@.skip(i as int)[1] == v@[i + 1]);
        assert(v@.skip(i as int).skip(2) =~= v@.skip(i + 2));
        let a = match hex_digit_value(v[i]) {
            Some(a) => a,
            None => {
                return None;
            },
        };
        let b = match hex_digit_value(v[i + 1]) {
            Some(b) => b,
            None => {
                return None;
            },
        };
        let ds = digit_sum_of(2 * b);
        sum = (sum + a as u64 + ds as u64) % 10;
        i += 2;
    }
    assert(v@.skip(i as int).len() == 0);
    Some(sum)
}

impl FlickerCode {
    /// Reads a flicker code of the given version and length byte size.
    fn parse(code: &str, version: FlickerCodeVersion, lde_len: usize) -> (r: HbciResult<Self>)
        ensures
            match parse_flicker(code@, version, lde_len as nat) {
                Ok(f) => r matches Ok(x) && x@ == f,
                Err(e) => r matches Err(x) && x@ == e,
            },
    {
        let cleaned = clean_flicker_code(code);
        let c = chars_of(cleaned.as_str());
        let lc_len: usize = match version {
            FlickerCodeVersion::Hhd14 => 3,
            FlickerCodeVersion::Hhd13 => 2,
        };
        if c.len() < lc_len {
            return Err(invalid_flicker_code());
        }
        let head = string_of(slice_chars(c.as_slice(), 0, lc_len).as_slice());
        assert(head@ =~= c@.take(lc_len as int));
        let lc = match parse_u32_with_kind(head.as_str()) {
            Ok(x) => x,
            Err(k) => {
                return Err(flicker_number_err(k));
            },
        };
        let n = c.len();
        let rest = slice_chars(c.as_slice(), lc_len, n);
        assert(rest@ =~= c@.skip(lc_len as int));
        let (start_code, parsed_version, r1) = match FlickerStartCode::parse(rest.as_slice()) {
            Ok(x) => x,
            Err(e) => {
                return Err(e);
            },
        };
        let (de1, r2) = match FlickerDataElement::parse(r1.as_slice(), lde_len) {
            Ok(x) => x,
            Err(e) => {
                return Err(e);
            },
        };
        let (de2, r3) = match FlickerDataElement::parse(r2.as_slice(), lde_len) {
            Ok(x) => x,
            Err(e) => {
                return Err(e);
            },
        };
        let (de3, r4) = match FlickerDataElement::parse(r3.as_slice(), lde_len) {
            Ok(x) => x,
            Err(e) => {
                return Err(e);
            },
        };
        let rest = if r4.len() > 0 {
            Some(string_of(r4.as_slice()))
        } else {
            None
        };
        Ok(FlickerCode { version: Some(parsed_version), lc, start_code, de1, de2, de3, rest })
    }

    /// Reads a flicker code, trying the versions in turn.
    pub fn new(code: &str) -> (r: HbciResult<Self>)
        ensures
            match flicker_with_hhd(None, code@) {
                Ok(f) => r matches Ok(x) && x@ == f,
                Err(e) => r matches Err(x) && x@ == e,
            },
    {
        Self::with_hhd(None, code)
    }

    /// Reads a flicker code, first as the version that `hhd` implies.
    pub fn with_hhd(hhd: Option<HhdVersion>, code: &str) -> (r: HbciResult<Self>)
        ensures
            match flicker_with_hhd(hhd, code@) {
                Ok(f) => r matches Ok(x) && x@ == f,
                Err(e) => r matches Err(x) && x@ == e,
            },
    {
        match hhd {
            Some(h) => match FlickerCodeVersion::from_hhd_version(h) {
                Some(v) => match Self::parse(code, v, 2) {
                    Ok(c) => {
                        return Ok(c);
                    },
                    Err(_) => {},
                },
                None => {},
            },
            None => {},
        }
        match Self::parse(code, FlickerCodeVersion::Hhd14, 2) {
            Ok(c) => Ok(c),
            Err(_) => match Self::parse(code, FlickerCodeVersion::Hhd14, 3) {
                Ok(c) => Ok(c),
                Err(_) => Self::parse(code, FlickerCodeVersion::Hhd13, 2),
            },
        }
    }

    fn create_payload(&self) -> (r: HbciResult<String>)
        ensures
            match flicker_payload(self@) {
                Ok(p) => r matches Ok(x) && x@ == p,
                Err(e) => r matches Err(x) && x@ == e,
            },
    {
        let v = match self.version {
            Some(v) => v,
            None => {
                return Err(invalid_flicker_code());
            },
        };
        let mut p = match self.start_code.render_length(v) {
            Ok(s) => s,
            Err(e) => {
                return Err(e);
            },
        };
        let cb = control_hex_exec(&self.start_code.control_bytes);
        append(&mut p, cb.as_str());
        let sd = self.start_code.element.render_data();
        append(&mut p, sd.as_str());
        let e1 = element_part_exec(&self.de1, v);
        append(&mut p, e1.as_str());
        let e2 = element_part_exec(&self.de2, v);
        append(&mut p, e2.as_str());
        let e3 = element_part_exec(&self.de3, v);
        append(&mut p, e3.as_str());
        let n = p.as_str().unicode_len();
        let mut r = to_hex((n / 2 + 1) as u64, 2);
        append(&mut r, p.as_str());
        Ok(r)
    }

    fn create_luhn_checksum(&self) -> (r: HbciResult<String>)
        ensures
            match luhn_checksum(self@) {
                Ok(p) => r matches Ok(x) && x@ == p,
                Err(e) => r matches Err(x) && x@ == e,
            },
    {
        let mut p = control_hex_exec(&self.start_code.control_bytes);
        let sd = self.start_code.element.render_data();
        append(&mut p, sd.as_str());
        let d1 = self.de1.render_data();
        append(&mut p, d1.as_str());
        let d2 = self.de2.render_data();
        append(&mut p, d2.as_str());
        let d3 = self.de3.render_data();
        append(&mut p, d3.as_str());
        if p.as_str().unicode_len() % 2 == 1 {
            return Err(invalid_flicker_code());
        }
        match luhn_sum_of(p.as_str()) {
            None => Err(invalid_flicker_code()),
            Some(sum) => {
                let m = sum % 10;
                if m == 0 {
                    let mut z = String::new();
                    push_char(&mut z, '0');
                    assert(z@ =~= seq!['0']);
                    Ok(z)
                } else {
                    Ok(to_hex(10 - m, 1))
                }
            },
        }
    }

    /// The code as a TAN generator reads it.
    pub fn render(&self) -> (r: HbciResult<String>)
        ensures
            match render_flicker(self@) {
                Ok(p) => r matches Ok(x) && x@ == p,
                Err(e) => r matches Err(x) && x@ == e,
            },
    {
        let payload = match self.create_payload() {
            Ok(p) => p,
            Err(e) => {
                return Err(e);
            },
        };
        let luhn = match self.create_luhn_checksum() {
            Ok(l) => l,
            Err(e) => {
                return Err(e);
            },
        };
        let xor = match create_xor_checksum(payload.as_str()) {
            Ok(x) => x,
            Err(e) => {
                return Err(e);
            },
        };
        let mut r = payload;
        append(&mut r, luhn.as_str());
        append(&mut r, xor.as_str());
        Ok(r)
    }

    fn from_text(hhd: Option<HhdVersion>, text: Option<&str>) -> (r: Option<Self>)
        ensures
            r matches Some(c) ==> text matches Some(t) && trim(t@).len() > 0 && flicker_with_hhd(hhd, t@) == Ok::<FlickerCodeView, ErrorView>(c@) && render_flicker(c@) is Ok,
            r is None ==> !(text matches Some(t) && trim(t@).len() > 0 && flicker_with_hhd(hhd, t@) is Ok
                && render_flicker(flicker_with_hhd(hhd, t@)->Ok_0) is Ok),
    {
        match text {
            None => None,
            Some(t) => {
                let tt = trim_str(t);
                if tt.as_str().unicode_len() == 0 {
                    return None;
                }
                match Self::with_hhd(hhd, t) {
                    Err(_) => None,
                    Ok(c) => match c.render() {
                        Ok(_) => Some(c),
                        Err(_) => None,
                    },
                }
            },
        }
    }

    /// The flicker code in the HHDUC data, or else in the challenge.
    pub fn try_parse(hhd: Option<HhdVersion>, challenge: Option<&str>, hhduc: Option<&str>) -> (r: Option<Self>)
        ensures
            match flicker_try(hhd, opt_str_view(challenge), opt_str_view(hhduc)) {
                Some(f) => r matches Some(c) && c@ == f,
                None => r is None,
            },
    {
        match Self::from_text(hhd, hhduc) {
            Some(c) => Some(c),
            None => Self::from_text(hhd, challenge),
        }
    }
}

impl FlickerCodeVersion {
    fn from_hhd_version(version: HhdVersion) -> (r: Option<Self>)
        ensures
            r == hhd_flicker_version(version),
    {
        match version {
            HhdVersion::Qr14 | HhdVersion::Hhd14 | HhdVersion::Ms1 => Some(FlickerCodeVersion::Hhd14),
            HhdVersion::Qr13 | HhdVersion::Hhd13 | HhdVersion::Hhd12 => Some(FlickerCodeVersion::Hhd13),
            HhdVersion::Decoupled => None,
        }
    }
}

// ---------------------------------------------------------------------------
// HHD versions
// ---------------------------------------------------------------------------

/// The versions of the HHD (chipTAN) specification and its relatives.
#[derive(Debug, Clone, Copy, PartialEq, Eq, Structural)]
pub enum HhdVersion {
    Qr13,
    Qr14,
    Hhd14,
    Hhd13,
    Ms1,
    Hhd12,
    Decoupled,
}

/// The kinds of TAN procedure.
#[derive(Debug, Clone, Copy, PartialEq, Eq, Structural)]
pub enum HhdVersionType {
    ChipTan,
    PhotoTan,
    QrCode,
    Decoupled,
}

/// The value of property `key`, empty where it is missing.
pub open spec fn prop(p: Map<Seq<char>, Seq<char>>, key: Seq<char>) -> Seq<char> {
    if p.contains_key(key) {
        p[key]
    } else {
        seq![]
    }
}

/// The HHD version whose identifier `id` names, in the order in which the
/// versions are tried.
pub open spec fn hhd_by_id(id: Seq<char>) -> Option<HhdVersion> {
    if starts_with(id, "HHD1.3."@) && contains(id, "QR"@) {
        Some(HhdVersion::Qr13)
    } else if starts_with(id, "Q1S"@) {
        Some(HhdVersion::Qr14)
    } else if starts_with(id, "HHD1.4"@) {
        Some(HhdVersion::Hhd14)
    } else if starts_with(id, "HHD1.3"@) {
        Some(HhdVersion::Hhd13)
    } else if starts_with(id, "MS1"@) || starts_with(id, "photoTAN"@) {
        Some(HhdVersion::Ms1)
    } else {
        None
    }
}

/// The HHD version of a TAN procedure's parameters: by the method name
/// (decoupled), the identifier, the ZKA version, the segment version, else
/// HHD 1.2.
pub open spec fn hhd_find(secmech: Option<Map<Seq<char>, Seq<char>>>) -> HhdVersion {
    match secmech {
        None => HhdVersion::Hhd12,
        Some(p) => {
            let name = prop(p, "zkamethod_name"@);
            let zka = prop(p, "zkamethod_version"@);
            if name.len() > 0 && starts_with(name, "Decouple"@) {
                HhdVersion::Decoupled
            } else if hhd_by_id(prop(p, "id"@)) is Some {
                hhd_by_id(prop(p, "id"@))->0
            } else if p.contains_key("zkamethod_version"@) && zka.len() > 0 && starts_with(zka, "1.4"@) {
                HhdVersion::Hhd14
            } else if p.contains_key("zkamethod_version"@) && zka.len() > 0 && starts_with(zka, "1.3"@) {
                HhdVersion::Hhd13
            } else if p.contains_key("segversion"@) && parse_int(p["segversion"@], i32::MIN as int, i32::MAX as int)
                == Ok::<int, IntErrorKind>(5) {
                HhdVersion::Hhd14
            } else if p.contains_key("segversion"@) && parse_int(p["segversion"@], i32::MIN as int, i32::MAX as int)
                == Ok::<int, IntErrorKind>(4) {
                HhdVersion::Hhd13
            } else {
                HhdVersion::Hhd12
            }
        },
    }
}

/// The value of property `key`, empty where it is missing.
fn property<'a>(properties: &'a Properties, key: &str) -> (r: &'a str)
    ensures
        r@ == prop(text_view(properties@), key@),
{
    match properties.get(key) {
        Some(v) => {
            assert(text_view(properties@)[key@] == v@);
            v.as_str()
        },
        None => {
            proof {
                reveal_strlit("");
            }
            ""
        },
    }
}

impl HhdVersion {
    /// The version assumed where nothing says otherwise.
    pub const DEFAULT: HhdVersion = HhdVersion::Hhd12;

    fn by_id(id: &str) -> (r: Option<HhdVersion>)
        ensures
            r == hhd_by_id(id@),
    {
        if starts_with_str(id, "HHD1.3.") && contains_str(id, "QR") {
            Some(HhdVersion::Qr13)
        } else if starts_with_str(id, "Q1S") {
            Some(HhdVersion::Qr14)
        } else if starts_with_str(id, "HHD1.4") {
            Some(HhdVersion::Hhd14)
        } else if starts_with_str(id, "HHD1.3") {
            Some(HhdVersion::Hhd13)
        } else if starts_with_str(id, "MS1") || starts_with_str(id, "photoTAN") {
            Some(HhdVersion::Ms1)
        } else {
            None
        }
    }

    /// The HHD version of a TAN procedure, from its parameters.
    pub fn find(secmech: Option<&Properties>) -> (r: HhdVersion)
        ensures
            r == hhd_find(match secmech {
                Some(p) => Some(text_view(p@)),
                None => None,
            }),
    {
        let p = match secmech {
            None => {
                return HhdVersion::DEFAULT;
            },
            Some(p) => p,
        };
        let name = property(p, "zkamethod_name");
        if name.unicode_len() > 0 && starts_with_str(name, "Decouple") {
            return HhdVersion::Decoupled;
        }
        match HhdVersion::by_id(property(p, "id")) {
            Some(v) => {
                return v;
            },
            None => {},
        }
        match p.get("zkamethod_version") {
            Some(zka) => {
                if zka.as_str().unicode_len() > 0 {
                    if starts_with_str(zka.as_str(), "1.4") {
                        return HhdVersion::Hhd14;
                    }
                    if starts_with_str(zka.as_str(), "1.3") {
                        return HhdVersion::Hhd13;
                    }
                }
            },
            None => {},
        }
        match p.get("segversion") {
            Some(sv) => match parse_int_in(sv.as_str(), i32::MIN as i128, i32::MAX as i128) {
                Ok(n) => {
                    if n == 5 {
                        return HhdVersion::Hhd14;
                    }
                    if n == 4 {
                        return HhdVersion::Hhd13;
                    }
                },
                Err(_) => {},
            },
            None => {},
        }
        HhdVersion::DEFAULT
    }

    /// The kind of TAN procedure of a version.
    pub fn hhd_type(self) -> (t: HhdVersionType)
        ensures
            t == (match self {
                HhdVersion::Qr13 | HhdVersion::Qr14 => HhdVersionType::QrCode,
                HhdVersion::Ms1 => HhdVersionType::PhotoTan,
                HhdVersion::Decoupled => HhdVersionType::Decoupled,
                _ => HhdVersionType::ChipTan,
            }),
    {
        match self {
            HhdVersion::Qr13 | HhdVersion::Qr14 => HhdVersionType::QrCode,
            HhdVersion::Ms1 => HhdVersionType::PhotoTan,
            HhdVersion::Decoupled => HhdVersionType::Decoupled,
            HhdVersion::Hhd14 | HhdVersion::Hhd13 | HhdVersion::Hhd12 => HhdVersionType::ChipTan,
        }
    }

    /// The challenge specification that a version uses, if any.
    pub fn challenge_version(self) -> (r: Option<&'static str>)
        ensures
            opt_str_view(r) == challenge_version_of(self),
    {
        match self {
            HhdVersion::Qr13 => Some("hhd13"),
            HhdVersion::Qr14 => Some("hhd14"),
            HhdVersion::Hhd14 => Some("hhd14"),
            HhdVersion::Hhd13 => Some("hhd13"),
            HhdVersion::Ms1 => Some("hhd14"),
            HhdVersion::Hhd12 => Some("hhd12"),
            HhdVersion::Decoupled => None,
        }
    }
}

pub open spec fn challenge_version_of(v: HhdVersion) -> Option<Seq<char>> {
    match v {
        HhdVersion::Qr13 | HhdVersion::Hhd13 => Some("hhd13"@),
        HhdVersion::Qr14 | HhdVersion::Hhd14 | HhdVersion::Ms1 => Some("hhd14"@),
        HhdVersion::Hhd12 => Some("hhd12"@),
        HhdVersion::Decoupled => None,
    }
}

// ---------------------------------------------------------------------------
// Flicker rendering
// ---------------------------------------------------------------------------

/// The five lines of a flicker frame for a hexadecimal digit: the clock line
/// off, then the four bits of the digit, lowest first.
pub open spec fn nibble_bits(v: nat) -> Seq<bool> {
    seq![false, v % 2 == 1, (v / 2) % 2 == 1, (v / 4) % 2 == 1, (v / 8) % 2 == 1]
}

/// The frames of a code of an even number of hexadecimal digits: for each
/// pair, the second digit, then the first.
pub open spec fn code_frames(c: Seq<char>) -> Option<Seq<Seq<bool>>>
    decreases c.len(),
{
    if c.len() < 2 {
        Some(seq![])
    } else {
        match (code_frames(c.take(c.len() - 2)), hex_value(c[c.len() - 2]), hex_value(c[c.len() - 1])) {
            (Some(f), Some(a), Some(b)) => Some(f + seq![nibble_bits(b), nibble_bits(a)]),
            _ => None,
        }
    }
}

/// The frames of a rendered flicker code, behind the synchronisation
/// digits `0FFF`.
pub open spec fn renderer_frames(code: Seq<char>) -> Result<Seq<Seq<bool>>, ErrorView> {
    let c = seq!['0', 'F', 'F', 'F'] + code;
    if c.len() % 2 != 0 {
        Err(flicker_error())
    } else {
        match code_frames(c) {
            Some(f) => Ok(f),
            None => Err(flicker_error()),
        }
    }
}

fn flicker_bits(c: char) -> (r: HbciResult<[bool; 5]>)
    ensures
        match hex_value(c) {
            Some(v) => r matches Ok(b) && b@ == nibble_bits(v),
            None => r matches Err(e) && e@ == flicker_error(),
        },
{
    match hex_digit_value(c) {
        None => Err(invalid_flicker_code()),
        Some(v) => {
            let b = [false, v % 2 == 1, (v / 2) % 2 == 1, (v / 4) % 2 == 1, (v / 8) % 2 == 1];
            assert(b@ =~= nibble_bits(v as nat));
            Ok(b)
        },
    }
}

/// A flicker code as the frames that a screen shows.
#[derive(Debug, Clone)]
pub struct FlickerRenderer {
    bit_array: Vec<[bool; 5]>,
}

impl FlickerRenderer {
    pub const FREQUENCY_DEFAULT: u32 = 10;
    pub const FREQUENCY_MIN: u32 = 2;
    pub const FREQUENCY_MAX: u32 = 40;

    /// The frames of the code, one per digit.
    pub closed spec fn frames(&self) -> Seq<Seq<bool>> {
        self.bit_array@.map_values(|b: [bool; 5]| b@)
    }

    /// The frames of a rendered flicker code.
    #[verifier::rlimit(40)]
    pub fn new(code: &str) -> (r: HbciResult<Self>)
        ensures
            match renderer_frames(code@) {
                Ok(f) => r matches Ok(x) && x.frames() == f,
                Err(e) => r matches Err(x) && x@ == e,
            },
    {
        let mut c: Vec<char> = Vec::new();
        c.push('0');
        c.push('F');
        c.push('F');
        c.push('F');
        let body = chars_of(code);
        let mut i: usize = 0;
        while i < body.len()
            invariant
                i <= body@.len(),
                c@ == seq!['0', 'F', 'F', 'F'] + body@.take(i as int),
            decreases body.len() - i,
        {
            c.push(body[i]);
            i += 1;
            assert(c@ =~= seq!['0', 'F', 'F', 'F'] + body@.take(i as int));
        }
        assert(body@.take(i as int) =~= code@);
        if c.len() % 2 != 0 {
            return Err(invalid_flicker_code());
        }
        let mut bit_array: Vec<[bool; 5]> = Vec::new();
        let mut k: usize = 0;
        assert(c@.take(0) =~= seq![]);
        while k < c.len()
            invariant
                c@ == seq!['0', 'F', 'F', 'F'] + code@,
                c@.len() % 2 == 0,
                k % 2 == 0,
                k <= c@.len(),
                code_frames(c@.take(k as int)) == Some(bit_array@.map_values(|b: [bool; 5]| b@)),
            decreases c.len() - k,
        {
            assert(c@.take(k + 2).take(k as int) =~= c@.take(k as int));
            let hi = match flicker_bits(c[k + 1]) {
                Ok(b) => b,
                Err(e) => {
                    assert(code_frames(c@.take(k + 2)) is None);
                    proof {
                        lemma_code_frames_none(c@, k as int + 2);
                    }
                    return Err(e);
                },
            };
            let lo = match flicker_bits(c[k]) {
                Ok(b) => b,
                Err(e) => {
                    assert(code_frames(c@.take(k + 2)) is None);
                    proof {
                        lemma_code_frames_none(c@, k as int + 2);
                    }
                    return Err(e);
                },
            };
            let ghost before = bit_array@;
            bit_array.push(hi);
            bit_array.push(lo);
            assert(bit_array@.map_values(|b: [bool; 5]| b@) =~= before.map_values(|b: [bool; 5]| b@) + seq![hi@, lo@]);
            k += 2;
        }
        assert(c@.take(k as int) =~= c@);
        Ok(FlickerRenderer { bit_array })
    }

    /// The frames for `iterations` passes over the code: each frame twice,
    /// with the clock line on, then off.
    pub fn frames_for_iterations(&self, iterations: usize) -> (frames: Vec<[bool; 5]>)
        ensures
            frames@.map_values(|b: [bool; 5]| b@) == repeated(clocked(self.frames()), iterations as nat),
    {
        let n = self.bit_array.len();
        let ghost fr = self.frames();
        let mut frames: Vec<[bool; 5]> = Vec::new();
        let mut it: usize = 0;
        assert(frames@.map_values(|b: [bool; 5]| b@) =~= repeated(clocked(fr), 0));
        while it < iterations
            invariant
                n == fr.len(),
                fr == self.frames(),
                it <= iterations,
                frames@.map_values(|b: [bool; 5]| b@) == repeated(clocked(fr), it as nat),
            decreases iterations - it,
        {
            let mut j: usize = 0;
            let ghost base = frames@.map_values(|b: [bool; 5]| b@);
            assert(fr.take(0) =~= seq![]);
            assert(base + clocked(fr.take(0)) =~= base);
            while j < n
                invariant
                    n == fr.len(),
                    fr == self.frames(),
                    j <= n,
                    frames@.map_values(|b: [bool; 5]| b@) == base + clocked(fr.take(j as int)),
                decreases n - j,
            {
                let bits = self.bit_array[j];
                let mut high = bits;
                high[0] = true;
                let mut low = bits;
                low[0] = false;
                assert(bits@ == fr[j as int]);
                assert(high@ =~= fr[j as int].update(0, true));
                assert(low@ =~= fr[j as int].update(0, false));
                let ghost before = frames@.map_values(|b: [bool; 5]| b@);
                frames.push(high);
                frames.push(low);
                assert(fr.take(j + 1).drop_last() =~= fr.take(j as int));
                assert(frames@.map_values(|b: [bool; 5]| b@) =~= before + seq![high@, low@]);
                assert(frames@.map_values(|b: [bool; 5]| b@) =~= base + clocked(fr.take(j + 1)));
                j += 1;
            }
            assert(fr.take(n as int) =~= fr);
            it += 1;
        }
        frames
    }
}

/// Each frame twice: with the clock line on, then off.
pub open spec fn clocked(fr: Seq<Seq<bool>>) -> Seq<Seq<bool>>
    decreases fr.len(),
{
    if fr.len() == 0 {
        seq![]
    } else {
        clocked(fr.drop_last()) + seq![fr.last().update(0, true), fr.last().update(0, false)]
    }
}

/// `s`, `n` times over.
pub open spec fn repeated<T>(s: Seq<T>, n: nat) -> Seq<T>
    decreases n,
{
    if n == 0 {
        seq![]
    } else {
        repeated(s, (n - 1) as nat) + s
    }
}

proof fn lemma_code_frames_none(c: Seq<char>, k: int)
    requires
        2 <= k <= c.len(),
        k % 2 == 0,
        c.len() % 2 == 0,
        code_frames(c.take(k)) is None,
    ensures
        code_frames(c) is None,
    decreases c.len() - k,
{
    if k < c.len() {
        let t = c.take(k + 2);
        assert(t.take(k) =~= c.take(k));
        assert(code_frames(t) is None);
        lemma_code_frames_none(c, k + 2);
    } else {
        assert(c.take(k) =~= c);
    }
}

// ---------------------------------------------------------------------------
// Challenge parameters
// ---------------------------------------------------------------------------

/// What a challenge parameter says.
pub ghost struct ParamView {
    pub param_type: Seq<char>,
    pub path: Option<Seq<char>>,
    pub condition_name: Option<Seq<char>>,
    pub condition_value: Option<Seq<char>>,
}

/// A parameter of a challenge class: where its value comes from, its type,
/// and the condition on the TAN procedure under which it is sent.
#[derive(Debug, Clone)]
pub struct ChallengeParam {
    param_type: String,
    path: Option<String>,
    condition_name: Option<String>,
    condition_value: Option<String>,
}

impl View for ChallengeParam {
    type V = ParamView;

    closed spec fn view(&self) -> ParamView {
        ParamView {
            param_type: self.param_type@,
            path: opt_view(self.path),
            condition_name: opt_view(self.condition_name),
            condition_value: opt_view(self.condition_value),
        }
    }
}

/// What a value of a challenge parameter turns into.
#[derive(Debug, Clone)]
pub enum ChallengeFormat {
    /// Nothing is sent.
    Skip,
    /// The value is sent as it is.
    Plain(String),
    /// An amount, to be sent with two decimals at most and a comma.
    Wrt(String),
    /// A date, to be sent as `YYYYMMDD`.
    Date(String),
}

/// What a parameter of type `t` makes of `value`.
pub open spec fn challenge_format(t: Seq<char>, value: Option<Seq<char>>) -> Result<ChallengeFormatView, ErrorView> {
    match value {
        None => Ok(ChallengeFormatView::Skip),
        Some(v) => if trim(v).len() == 0 {
            Ok(ChallengeFormatView::Skip)
        } else if trim(t).len() == 0 {
            Ok(ChallengeFormatView::Plain(v))
        } else if t == "Wrt"@ {
            Ok(ChallengeFormatView::Wrt(v))
        } else if t == "Date"@ {
            Ok(ChallengeFormatView::Date(v))
        } else {
            Err(
                ErrorView {
                    kind: HbciErrorKind::Unsupported,
                    message: "unsupported challenge parameter type: "@ + t,
                    source: None,
                },
            )
        },
    }
}

pub ghost enum ChallengeFormatView {
    Skip,
    Plain(Seq<char>),
    Wrt(Seq<char>),
    Date(Seq<char>),
}

pub open spec fn format_view(f: ChallengeFormat) -> ChallengeFormatView {
    match f {
        ChallengeFormat::Skip => ChallengeFormatView::Skip,
        ChallengeFormat::Plain(v) => ChallengeFormatView::Plain(v@),
        ChallengeFormat::Wrt(v) => ChallengeFormatView::Wrt(v@),
        ChallengeFormat::Date(v) => ChallengeFormatView::Date(v@),
    }
}

/// Whether a parameter's condition holds for a TAN procedure: the property
/// it names has the value it asks for (missing counts as empty).
pub open spec fn complied(p: ParamView, secmech: Map<Seq<char>, Seq<char>>) -> bool {
    match p.condition_name {
        None => true,
        Some(n) => prop(secmech, n) == match p.condition_value {
            Some(v) => v,
            None => seq![],
        },
    }
}

impl ChallengeParam {
    /// A parameter of type `param_type` with the given condition.
    pub fn new(
        param_type: &str,
        path: Option<&str>,
        condition_name: Option<&str>,
        condition_value: Option<&str>,
    ) -> (p: Self)
        ensures
            p@ == (ParamView {
                param_type: param_type@,
                path: opt_str_view(path),
                condition_name: opt_str_view(condition_name),
                condition_value: opt_str_view(condition_value),
            }),
    {
        ChallengeParam {
            param_type: param_type.to_string(),
            path: owned_opt(path),
            condition_name: owned_opt(condition_name),
            condition_value: owned_opt(condition_value),
        }
    }

    pub fn param_type(&self) -> (r: &str)
        ensures
            r@ == self@.param_type,
    {
        self.param_type.as_str()
    }

    pub fn path(&self) -> (r: Option<&str>)
        ensures
            opt_str_view(r) == self@.path,
    {
        opt_ref(&self.path)
    }

    pub fn condition_name(&self) -> (r: Option<&str>)
        ensures
            opt_str_view(r) == self@.condition_name,
    {
        opt_ref(&self.condition_name)
    }

    pub fn condition_value(&self) -> (r: Option<&str>)
        ensures
            opt_str_view(r) == self@.condition_value,
    {
        opt_ref(&self.condition_value)
    }

    /// Whether the parameter's condition holds for the TAN procedure.
    pub fn is_complied(&self, secmech: &Properties) -> (b: bool)
        ensures
            b == complied(self@, text_view(secmech@)),
    {
        match &self.condition_name {
            None => true,
            Some(n) => {
                proof {
                    reveal_strlit("");
                }
                let expected = match &self.condition_value {
                    Some(v) => v.as_str(),
                    None => "",
                };
                assert(expected@ == match self@.condition_value {
                    Some(v) => v,
                    None => Seq::<char>::empty(),
                });
                let actual = property(secmech, n.as_str());
                str_eq(actual, expected)
            },
        }
    }

    /// What the parameter makes of `value`: nothing for no or a blank value,
    /// the value itself for a parameter without type, else the formatting its
    /// type asks for; a type other than `Wrt` and `Date` is refused.
    pub fn prepare_format(&self, value: Option<&str>) -> (r: HbciResult<ChallengeFormat>)
        ensures
            match challenge_format(self@.param_type, opt_str_view(value)) {
                Ok(f) => r matches Ok(x) && format_view(x) == f,
                Err(e) => r matches Err(x) && x@ == e,
            },
    {
        let v = match value {
            None => {
                return Ok(ChallengeFormat::Skip);
            },
            Some(v) => v,
        };
        if trim_str(v).as_str().unicode_len() == 0 {
            return Ok(ChallengeFormat::Skip);
        }
        if trim_str(self.param_type.as_str()).as_str().unicode_len() == 0 {
            return Ok(ChallengeFormat::Plain(v.to_string()));
        }
        if str_eq(self.param_type.as_str(), "Wrt") {
            return Ok(ChallengeFormat::Wrt(v.to_string()));
        }
        if str_eq(self.param_type.as_str(), "Date") {
            return Ok(ChallengeFormat::Date(v.to_string()));
        }
        let m = concat("unsupported challenge parameter type: ", self.param_type.as_str());
        Err(HbciError::new(HbciErrorKind::Unsupported, m.as_str()))
    }
}

fn owned_opt(o: Option<&str>) -> (r: Option<String>)
    ensures
        opt_view(r) == opt_str_view(o),
{
    match o {
        Some(s) => Some(s.to_string()),
        None => None,
    }
}

fn opt_ref(o: &Option<String>) -> (r: Option<&str>)
    ensures
        opt_str_view(r) == opt_view(*o),
{
    match o {
        Some(s) => Some(s.as_str()),
        None => None,
    }
}

// ---------------------------------------------------------------------------
// Image payloads: matrix codes and QR codes
// ---------------------------------------------------------------------------

pub open spec fn matrix_error() -> ErrorView {
    ErrorView { kind: HbciErrorKind::InvalidArgument, message: "invalid matrix code"@, source: None }
}

pub open spec fn qr_error() -> ErrorView {
    ErrorView { kind: HbciErrorKind::InvalidArgument, message: "invalid QR code"@, source: None }
}

fn invalid_matrix_code() -> (e: HbciError)
    ensures
        e@ == matrix_error(),
{
    HbciError::new(HbciErrorKind::InvalidArgument, "invalid matrix code")
}

fn invalid_qr_code() -> (e: HbciError)
    ensures
        e@ == qr_error(),
{
    HbciError::new(HbciErrorKind::InvalidArgument, "invalid QR code")
}

/// A byte read as a signed number, in decimal.
pub open spec fn i8_text(b: u8) -> Seq<char> {
    signed_decimal(if b >= 128 {
        b - 256
    } else {
        b as int
    })
}

/// The decimal texts of the bytes, one after the other.
pub open spec fn i8_texts(b: Seq<u8>) -> Seq<char>
    decreases b.len(),
{
    if b.len() == 0 {
        seq![]
    } else {
        i8_texts(b.drop_last()) + i8_text(b.last())
    }
}

/// The length field of an image payload: its bytes read as signed numbers,
/// their decimal texts joined, read as one number.
pub open spec fn decimal_len(b: Seq<u8>) -> Result<int, ErrorView> {
    match parse_int(i8_texts(b), 0, usize::MAX as int) {
        Ok(n) => Ok(n),
        Err(k) => Err(
            ErrorView {
                kind: HbciErrorKind::InvalidArgument,
                message: "invalid image payload"@,
                source: Some(int_error_text(k)),
            },
        ),
    }
}

/// An image payload: at least 100 bytes; two bytes of length, the MIME type
/// of that length, two bytes skipped, then the image.
pub open spec fn image_payload(data: Seq<u8>) -> Result<(Seq<char>, Seq<u8>), ErrorView> {
    if data.len() < 100 {
        Err(matrix_error())
    } else {
        match decimal_len(data.take(2)) {
            Err(e) => Err(e),
            Ok(len) => if 2 + len > data.len() {
                Err(matrix_error())
            } else if 4 + len > data.len() {
                Err(matrix_error())
            } else {
                Ok((latin1_chars(data.subrange(2, 2 + len)), data.skip(4 + len)))
            },
        }
    }
}

fn decode_decimal_len(bytes: &[u8]) -> (r: HbciResult<usize>)
    ensures
        match decimal_len(bytes@) {
            Ok(n) => r matches Ok(x) && x == n,
            Err(e) => r matches Err(x) && x@ == e,
        },
{
    let mut text = String::new();
    let mut i: usize = 0;
    while i < bytes.len()
        invariant
            i <= bytes@.len(),
            text@ == i8_texts(bytes@.take(i as int)),
        decreases bytes.len() - i,
    {
        let b = bytes[i];
        let v: i64 = if b >= 128 {
            b as i64 - 256
        } else {
            b as i64
        };
        let t = i64_string(v);
        append(&mut text, t.as_str());
        assert(bytes@.take(i + 1).drop_last() =~= bytes@.take(i as int));
        i += 1;
    }
    assert(bytes@.take(i as int) =~= bytes@);
    proof {
        crate::text::lemma_parse_int_range(text@, 0, usize::MAX as int);
    }
    match parse_usize_with_kind(text.as_str()) {
        Ok(n) => Ok(n),
        Err(k) => {
            let t = int_error_string(k);
            Err(HbciError::with_source(HbciErrorKind::InvalidArgument, "invalid image payload", t.as_str()))
        },
    }
}

fn parse_image_payload(data: &[u8]) -> (r: HbciResult<(String, Vec<u8>)>)
    ensures
        match image_payload(data@) {
            Ok((m, img)) => r matches Ok((x, y)) && x@ == m && y@ == img,
            Err(e) => r matches Err(x) && x@ == e,
        },
{
    let n = data.len();
    if n < 100 {
        return Err(invalid_matrix_code());
    }
    let head = slice_bytes(data, 0, 2);
    assert(head@ =~= data@.take(2));
    let len = match decode_decimal_len(head.as_slice()) {
        Ok(x) => x,
        Err(e) => {
            return Err(e);
        },
    };
    if len > n - 2 {
        return Err(invalid_matrix_code());
    }
    let mime = slice_bytes(data, 2, 2 + len);
    let mimetype = latin1_decode(mime.as_slice());
    if len > n - 4 {
        return Err(invalid_matrix_code());
    }
    let image = slice_bytes(data, 4 + len, n);
    assert(image@ =~= data@.skip(4 + len));
    Ok((mimetype, image))
}

/// The bytes from `from` up to `to`.
fn slice_bytes(data: &[u8], from: usize, to: usize) -> (r: Vec<u8>)
    requires
        from <= to <= data@.len(),
    ensures
        r@ == data@.subrange(from as int, to as int),
{
    let mut r: Vec<u8> = Vec::new();
    let mut i = from;
    while i < to
        invariant
            from <= i <= to,
            to <= data@.len(),
            r@ == data@.subrange(from as int, i as int),
        decreases to - i,
    {
        r.push(data[i]);
        i += 1;
        assert(r@ =~= data@.subrange(from as int, i as int));
    }
    r
}

/// An image with its MIME type, as a TAN generator app shows it.
#[derive(Debug, Clone)]
pub struct MatrixCode {
    mimetype: Option<String>,
    image: Vec<u8>,
}

impl MatrixCode {
    pub closed spec fn mimetype_view(&self) -> Option<Seq<char>> {
        opt_view(self.mimetype)
    }

    pub closed spec fn image_view(&self) -> Seq<u8> {
        self.image@
    }

    /// The matrix code in an image payload; refused without data.
    pub fn new(data: Option<&[u8]>) -> (r: HbciResult<Self>)
        ensures
            match data {
                None => r matches Err(e) && e@ == matrix_error(),
                Some(d) => match image_payload(d@) {
                    Ok((m, img)) => r matches Ok(x) && x.mimetype_view() == Some(m) && x.image_view() == img,
                    Err(e) => r matches Err(x) && x@ == e,
                },
            },
    {
        let d = match data {
            None => {
                return Err(invalid_matrix_code());
            },
            Some(d) => d,
        };
        match parse_image_payload(d) {
            Ok((mimetype, image)) => Ok(MatrixCode { mimetype: Some(mimetype), image }),
            Err(e) => Err(e),
        }
    }

    /// The matrix code in the UTF-8 bytes of a text.
    pub fn from_text(data: Option<&str>) -> (r: HbciResult<Self>)
        ensures
            match data {
                None => r matches Err(e) && e@ == matrix_error(),
                Some(d) => match image_payload(encode_utf8(d@)) {
                    Ok((m, img)) => r matches Ok(x) && x.mimetype_view() == Some(m) && x.image_view() == img,
                    Err(e) => r matches Err(x) && x@ == e,
                },
            },
    {
        match data {
            None => Self::new(None),
            Some(d) => {
                let b = d.as_bytes();
                Self::new(Some(b))
            },
        }
    }

    /// The matrix code in a text, where there is one.
    pub fn try_parse(data: Option<&str>) -> (r: Option<Self>)
        ensures
            match data {
                None => r is None,
                Some(d) => match image_payload(encode_utf8(d@)) {
                    Ok((m, img)) => r matches Some(x) && x.mimetype_view() == Some(m) && x.image_view() == img,
                    Err(_) => r is None,
                },
            },
    {
        match Self::from_text(data) {
            Ok(c) => Some(c),
            Err(_) => None,
        }
    }

    pub fn image(&self) -> (r: &[u8])
        ensures
            r@ == self.image_view(),
    {
        self.image.as_slice()
    }

    pub fn mimetype(&self) -> (r: Option<&str>)
        ensures
            opt_str_view(r) == self.mimetype_view(),
    {
        opt_ref(&self.mimetype)
    }
}

/// The standard base64 decoding of a text (RFC 4648 alphabet with padding),
/// where the text is valid base64.
pub uninterp spec fn base64_standard_decoded(input: Seq<char>) -> Option<Seq<u8>>;

#[verifier::external_type_specification]
#[verifier::external_body]
pub struct ExDecodeError(base64::DecodeError);

/// `base64::Engine::decode` with the `STANDARD` engine: the decoded bytes, or
/// the reason why the input is not valid base64. The contract ties the
/// outcome to the input through `base64_standard_decoded`.
#[verifier::external_body]
fn base64_decode(input: &str) -> (r: Result<Vec<u8>, base64::DecodeError>)
    ensures
        r matches Ok(v) ==> base64_standard_decoded(input@) == Some(v@),
        r is Err ==> base64_standard_decoded(input@) is None,
{
    base64::Engine::decode(&base64::engine::general_purpose::STANDARD, input)
}

/// The text that `Display` shows for a base64 decoding error; nothing is
/// stated of it.
#[verifier::external_body]
fn decode_error_text(e: &base64::DecodeError) -> (s: String) {
    e.to_string()
}

/// The characters that a QR challenge may be broken up by.
pub open spec fn is_qr_space(c: char) -> bool {
    c == '\n' || c == '\t' || c == '\r' || c == ' '
}

/// `s` without those characters.
pub open spec fn qr_compact(s: Seq<char>) -> Seq<char>
    decreases s.len(),
{
    if s.len() == 0 {
        seq![]
    } else if is_qr_space(s.last()) {
        qr_compact(s.drop_last())
    } else {
        qr_compact(s.drop_last()).push(s.last())
    }
}

/// The base64 text of a QR challenge: between `CHLGUC` and `CHLGTEXT` of the
/// compacted message, after its first ten characters.
pub open spec fn qr_segment(t: Seq<char>) -> Option<Seq<char>> {
    let c = qr_compact(t);
    match (find(c, "CHLGUC"@), find(c, "CHLGTEXT"@)) {
        (Some(a), Some(b)) => if b <= a {
            None
        } else {
            let seg = c.subrange(a, b);
            if seg.len() < 10 {
                None
            } else {
                Some(seg.skip(10))
            }
        },
        _ => None,
    }
}

/// The text of a QR challenge: after `CHLGTEXT` and four length digits.
pub open spec fn qr_text(t: Seq<char>) -> Option<Seq<char>> {
    match find(t, "CHLGTEXT"@) {
        Some(k) => if k + 12 <= t.len() {
            Some(t.skip(k + 12))
        } else {
            None
        },
        None => None,
    }
}

/// Whether the bytes begin like a PNG image.
pub open spec fn png_signature(img: Seq<u8>) -> bool {
    img.len() >= 4 && img[0] == 0x89 && img[1] == 0x50 && img[2] == 0x4E && img[3] == 0x47
}

/// What a QR code holds.
pub ghost struct QrView {
    pub mimetype: Option<Seq<char>>,
    pub message: Option<Seq<char>>,
    pub image: Seq<u8>,
}

/// How reading a QR code ends.
pub ghost enum QrOutcome {
    Read(QrView),
    Failed(ErrorView),
    /// The challenge is not valid base64: an invalid-argument error "invalid
    /// QR code" with the decoder's reason.
    NotBase64,
}

/// The QR code of a trimmed message whose challenge decoded to `img`.
pub open spec fn qr_from_image(t: Seq<char>, img: Seq<u8>) -> Result<QrView, ErrorView> {
    match qr_text(t) {
        None => Err(qr_error()),
        Some(x) => Ok(
            QrView {
                mimetype: if png_signature(img) {
                    Some("image/png"@)
                } else {
                    None
                },
                message: Some(x),
                image: img,
            },
        ),
    }
}

/// Reading a QR code: an image payload of more than 100 bytes in the HHDUC
/// data, else the base64 image and the text in the challenge message.
pub open spec fn qr_code(hhd: Option<Seq<char>>, message: Option<Seq<char>>) -> QrOutcome {
    if (hhd matches Some(h) && h.len() > 0 && encode_utf8(h).len() > 100) {
        match image_payload(encode_utf8(hhd->0)) {
            Err(e) => QrOutcome::Failed(e),
            Ok((m, img)) => QrOutcome::Read(QrView { mimetype: Some(m), message, image: img }),
        }
    } else {
        match message {
            None => QrOutcome::Failed(qr_error()),
            Some(m) => {
                let t = trim(m);
                if t.len() == 0 {
                    QrOutcome::Failed(qr_error())
                } else {
                    match qr_segment(t) {
                        None => QrOutcome::Failed(qr_error()),
                        Some(enc) => match base64_standard_decoded(enc) {
                            None => QrOutcome::NotBase64,
                            Some(img) => match qr_from_image(t, img) {
                                Ok(q) => QrOutcome::Read(q),
                                Err(e) => QrOutcome::Failed(e),
                            },
                        },
                    }
                }
            },
        }
    }
}

fn qr_compact_exec(s: &str) -> (r: Vec<char>)
    ensures
        r@ == qr_compact(s@),
{
    let v = chars_of(s);
    let mut r: Vec<char> = Vec::new();
    let mut i: usize = 0;
    while i < v.len()
        invariant
            v@ == s@,
            i <= v@.len(),
            r@ == qr_compact(v@.take(i as int)),
        decreases v.len() - i,
    {
        let c = v[i];
        assert(v@.take(i + 1).drop_last() =~= v@.take(i as int));
        if !(c == '\n' || c == '\t' || c == '\r' || c == ' ') {
            r.push(c);
        }
        i += 1;
    }
    assert(v@.take(i as int) =~= v@);
    r
}

/// A QR code image with the challenge text.
#[derive(Debug, Clone)]
pub struct QrCode {
    mimetype: Option<String>,
    message: Option<String>,
    image: Vec<u8>,
}

impl View for QrCode {
    type V = QrView;

    closed spec fn view(&self) -> QrView {
        QrView { mimetype: opt_view(self.mimetype), message: opt_view(self.message), image: self.image@ }
    }
}

impl QrCode {
    /// The QR code of a trimmed challenge message whose image decoded to
    /// `image`: the text after `CHLGTEXT` and its length digits, the image,
    /// and `image/png` where the image is one.
    pub fn from_image(message: &str, image: Vec<u8>) -> (r: HbciResult<Self>)
        ensures
            match qr_from_image(message@, image@) {
                Ok(q) => r matches Ok(x) && x@ == q,
                Err(e) => r matches Err(x) && x@ == e,
            },
    {
        let mimetype = if image.len() >= 4 && image[0] == 0x89 && image[1] == 0x50 && image[2] == 0x4E && image[3] == 0x47 {
            Some("image/png".to_string())
        } else {
            None
        };
        let n = message.unicode_len();
        match find_str(message, "CHLGTEXT") {
            None => Err(invalid_qr_code()),
            Some(k) => {
                if k > n || n - k < 12 {
                    return Err(invalid_qr_code());
                }
                let text = substring(message, k + 12, n);
                assert(text@ =~= message@.skip(k + 12));
                Ok(QrCode { mimetype, message: Some(text), image })
            },
        }
    }

    /// Reads a QR code from the HHDUC data or the challenge message.
    pub fn new(hhd: Option<&str>, message: Option<&str>) -> (r: HbciResult<Self>)
        ensures
            match qr_code(opt_str_view(hhd), opt_str_view(message)) {
                QrOutcome::Read(q) => r matches Ok(x) && x@ == q,
                QrOutcome::Failed(e) => r matches Err(x) && x@ == e,
                QrOutcome::NotBase64 => r matches Err(x) && x@.kind == HbciErrorKind::InvalidArgument
                    && x@.message == "invalid QR code"@ && x@.source is Some,
            },
    {
        match hhd {
            Some(h) => {
                let b = h.as_bytes();
                if h.unicode_len() > 0 && b.len() > 100 {
                    return match parse_image_payload(b) {
                        Ok((mimetype, image)) => Ok(QrCode { mimetype: Some(mimetype), message: owned_opt(message), image }),
                        Err(e) => Err(e),
                    };
                }
            },
            None => {},
        }
        let m = match message {
            None => {
                return Err(invalid_qr_code());
            },
            Some(m) => m,
        };
        let t = trim_str(m);
        if t.as_str().unicode_len() == 0 {
            return Err(invalid_qr_code());
        }
        let c = qr_compact_exec(t.as_str());
        let cs = string_of(c.as_slice());
        let a = find_str(cs.as_str(), "CHLGUC");
        let b = find_str(cs.as_str(), "CHLGTEXT");
        let (a, b) = match (a, b) {
            (Some(a), Some(b)) => (a, b),
            _ => {
                return Err(invalid_qr_code());
            },
        };
        if b <= a {
            return Err(invalid_qr_code());
        }
        proof {
            crate::text::lemma_find_from_spec(cs@, "CHLGTEXT"@, 0);
        }
        let seg = substring(cs.as_str(), a, b);
        let sn = seg.as_str().unicode_len();
        if sn < 10 {
            return Err(invalid_qr_code());
        }
        let encoded = substring(seg.as_str(), 10, sn);
        assert(encoded@ =~= seg@.skip(10));
        match base64_decode(encoded.as_str()) {
            Err(e) => {
                let text = decode_error_text(&e);
                Err(HbciError::with_source(HbciErrorKind::InvalidArgument, "invalid QR code", text.as_str()))
            },
            Ok(image) => Self::from_image(t.as_str(), image),
        }
    }

    /// The QR code, where one can be read.
    pub fn try_parse(hhd: Option<&str>, message: Option<&str>) -> (r: Option<Self>)
        ensures
            match qr_code(opt_str_view(hhd), opt_str_view(message)) {
                QrOutcome::Read(q) => r matches Some(x) && x@ == q,
                _ => r is None,
            },
    {
        match Self::new(hhd, message) {
            Ok(q) => Some(q),
            Err(_) => None,
        }
    }

    pub fn image(&self) -> (r: &[u8])
        ensures
            r@ == self@.image,
    {
        self.image.as_slice()
    }

    pub fn message(&self) -> (r: Option<&str>)
        ensures
            opt_str_view(r) == self@.message,
    {
        opt_ref(&self.message)
    }

    pub fn mimetype(&self) -> (r: Option<&str>)
        ensures
            opt_str_view(r) == self@.mimetype,
    {
        opt_ref(&self.mimetype)
    }
}

// ---------------------------------------------------------------------------
// Challenge information (challengeinfo.xml)
// ---------------------------------------------------------------------------

/// What a challenge class of one HHD version holds.
pub ghost struct HhdView {
    pub klass: Seq<char>,
    pub params: Seq<ParamView>,
}

/// The challenge class and parameters of a job for one HHD version.
#[derive(Debug)]
pub struct ChallengeHhdVersion {
    klass: String,
    params: Vec<ChallengeParam>,
}

impl View for ChallengeHhdVersion {
    type V = HhdView;

    closed spec fn view(&self) -> HhdView {
        HhdView { klass: self.klass@, params: self.params@.map_values(|p: ChallengeParam| p@) }
    }
}

impl ChallengeHhdVersion {
    pub fn klass(&self) -> (r: &str)
        ensures
            r@ == self@.klass,
    {
        self.klass.as_str()
    }

    pub fn params(&self) -> (r: &[ChallengeParam])
        ensures
            r@.map_values(|p: ChallengeParam| p@) == self@.params,
    {
        self.params.as_slice()
    }
}

/// The challenge data of a job, by challenge specification (`hhd12`, ...).
#[derive(Debug)]
pub struct ChallengeJob {
    versions: StrMap<ChallengeHhdVersion>,
}

pub open spec fn hhd_views(m: Map<Seq<char>, ChallengeHhdVersion>) -> Map<Seq<char>, HhdView> {
    m.map_values(|v: ChallengeHhdVersion| v@)
}

impl View for ChallengeJob {
    type V = Map<Seq<char>, HhdView>;

    closed spec fn view(&self) -> Map<Seq<char>, HhdView> {
        hhd_views(self.versions@)
    }
}

impl ChallengeJob {
    /// The data for challenge specification `version`.
    pub fn version(&self, version: &str) -> (r: Option<&ChallengeHhdVersion>)
        ensures
            r matches Some(v) ==> self@.contains_key(version@) && v@ == self@[version@],
            r is None ==> !self@.contains_key(version@),
    {
        self.versions.get(version)
    }

    /// The data for the challenge specification of an HHD version.
    pub fn hhd_version(&self, version: HhdVersion) -> (r: Option<&ChallengeHhdVersion>)
        ensures
            match challenge_version_of(version) {
                None => r is None,
                Some(c) => (r matches Some(v) ==> self@.contains_key(c) && v@ == self@[c]) && (r is None
                    ==> !self@.contains_key(c)),
            },
    {
        match version.challenge_version() {
            None => None,
            Some(c) => self.version(c),
        }
    }

    pub fn versions(&self) -> (r: &StrMap<ChallengeHhdVersion>)
        ensures
            hhd_views(r@) == self@,
    {
        &self.versions
    }
}

/// The challenge data of the jobs, by segment code.
#[derive(Debug)]
pub struct ChallengeInfo {
    jobs: StrMap<ChallengeJob>,
}

pub open spec fn job_views(m: Map<Seq<char>, ChallengeJob>) -> Map<Seq<char>, Map<Seq<char>, HhdView>> {
    m.map_values(|j: ChallengeJob| j@)
}

impl View for ChallengeInfo {
    type V = Map<Seq<char>, Map<Seq<char>, HhdView>>;

    closed spec fn view(&self) -> Map<Seq<char>, Map<Seq<char>, HhdView>> {
        job_views(self.jobs@)
    }
}

impl ChallengeInfo {
    /// The challenge data of the job with segment code `code`.
    pub fn get_data(&self, code: &str) -> (r: Option<&ChallengeJob>)
        ensures
            r matches Some(j) ==> self@.contains_key(code@) && j@ == self@[code@],
            r is None ==> !self@.contains_key(code@),
    {
        self.jobs.get(code)
    }

    pub fn jobs(&self) -> (r: &StrMap<ChallengeJob>)
        ensures
            job_views(r@) == self@,
    {
        &self.jobs
    }
}

/// What text is being collected.
pub ghost enum CaptureView {
    Klass(Seq<char>),
    Param(Seq<char>),
}

/// The state of reading challenge information.
pub ghost struct CiState {
    pub info: Map<Seq<char>, Map<Seq<char>, HhdView>>,
    pub job_code: Option<Seq<char>>,
    pub job: Option<Map<Seq<char>, HhdView>>,
    pub spec: Option<Seq<char>>,
    pub hhd: Option<HhdView>,
    pub param: Option<ParamView>,
    pub capture: Option<CaptureView>,
}

pub open spec fn ci_initial() -> CiState {
    CiState { info: Map::empty(), job_code: None, job: None, spec: None, hhd: None, param: None, capture: None }
}

pub open spec fn ci_underflow() -> ErrorView {
    ErrorView { kind: HbciErrorKind::Protocol, message: "challenge info XML parser stack underflow"@, source: None }
}

pub open spec fn ci_attr(tag: XmlTag, name: Seq<char>) -> Result<Option<Seq<char>>, ErrorView> {
    attr_value(
        tag.attrs@,
        name,
        "failed to parse challenge info XML attribute"@,
        "failed to decode challenge info XML attribute"@,
    )
}

pub open spec fn ci_required(tag: XmlTag, name: Seq<char>) -> Result<Seq<char>, ErrorView> {
    match ci_attr(tag, name) {
        Err(e) => Err(e),
        Ok(Some(v)) => Ok(v),
        Ok(None) => Err(
            ErrorView {
                kind: HbciErrorKind::Protocol,
                message: "challenge info element "@ + tag.name@ + " is missing required "@ + name + " attribute"@,
                source: None,
            },
        ),
    }
}

/// A parameter from the attributes of a `param` tag.
pub open spec fn ci_param(tag: XmlTag) -> Result<ParamView, ErrorView> {
    match ci_attr(tag, "type"@) {
        Err(e) => Err(e),
        Ok(t) => match ci_attr(tag, "condition-name"@) {
            Err(e) => Err(e),
            Ok(cn) => match ci_attr(tag, "condition-value"@) {
                Err(e) => Err(e),
                Ok(cv) => Ok(
                    ParamView {
                        param_type: match t {
                            Some(x) => x,
                            None => seq![],
                        },
                        path: None,
                        condition_name: cn,
                        condition_value: cv,
                    },
                ),
            },
        },
    }
}

pub open spec fn ci_start(st: CiState, tag: XmlTag) -> Result<CiState, ErrorView> {
    let n = tag.name@;
    if n == "job"@ {
        match ci_required(tag, "code"@) {
            Err(e) => Err(e),
            Ok(c) => Ok(CiState { job_code: Some(c), job: Some(Map::empty()), ..st }),
        }
    } else if n == "challengeinfo"@ {
        match ci_required(tag, "spec"@) {
            Err(e) => Err(e),
            Ok(c) => Ok(CiState { spec: Some(c), hhd: Some(HhdView { klass: seq![], params: seq![] }), ..st }),
        }
    } else if n == "klass"@ {
        Ok(CiState { capture: Some(CaptureView::Klass(seq![])), ..st })
    } else if n == "param"@ {
        match ci_param(tag) {
            Err(e) => Err(e),
            Ok(p) => Ok(CiState { param: Some(p), capture: Some(CaptureView::Param(seq![])), ..st }),
        }
    } else {
        Ok(st)
    }
}

pub open spec fn ci_empty(st: CiState, tag: XmlTag) -> Result<CiState, ErrorView> {
    if tag.name@ == "param"@ {
        match ci_param(tag) {
            Err(e) => Err(e),
            Ok(p) => match st.hhd {
                None => Err(ci_underflow()),
                Some(h) => Ok(CiState { hhd: Some(HhdView { params: h.params.push(p), ..h }), ..st }),
            },
        }
    } else {
        Ok(st)
    }
}

pub open spec fn ci_end(st: CiState, n: Seq<char>) -> Result<CiState, ErrorView> {
    if n == "klass"@ {
        let st1 = CiState { capture: None, ..st };
        match st.capture {
            Some(CaptureView::Klass(k)) => match st1.hhd {
                None => Err(ci_underflow()),
                Some(h) => Ok(CiState { hhd: Some(HhdView { klass: k, ..h }), ..st1 }),
            },
            _ => Ok(st1),
        }
    } else if n == "param"@ {
        match st.param {
            None => Err(ci_underflow()),
            Some(p) => {
                let p2 = match st.capture {
                    Some(CaptureView::Param(path)) => if path.len() > 0 {
                        ParamView { path: Some(path), ..p }
                    } else {
                        p
                    },
                    _ => p,
                };
                match st.hhd {
                    None => Err(ci_underflow()),
                    Some(h) => Ok(
                        CiState {
                            param: None,
                            capture: None,
                            hhd: Some(HhdView { params: h.params.push(p2), ..h }),
                            ..st
                        },
                    ),
                }
            },
        }
    } else if n == "challengeinfo"@ {
        match (st.spec, st.hhd, st.job) {
            (Some(sp), Some(h), Some(j)) => Ok(CiState { spec: None, hhd: None, job: Some(j.insert(sp, h)), ..st }),
            _ => Err(ci_underflow()),
        }
    } else if n == "job"@ {
        match (st.job_code, st.job) {
            (Some(c), Some(j)) => Ok(CiState { job_code: None, job: None, info: st.info.insert(c, j), ..st }),
            _ => Err(ci_underflow()),
        }
    } else {
        Ok(st)
    }
}

/// One event of challenge information.
pub open spec fn ci_step(st: CiState, e: XmlEvent) -> Result<CiState, ErrorView> {
    match e {
        XmlEvent::Start(tag) => ci_start(st, tag),
        XmlEvent::Empty(tag) => ci_empty(st, tag),
        XmlEvent::Text(t) => Ok(
            match st.capture {
                Some(CaptureView::Klass(k)) => CiState { capture: Some(CaptureView::Klass(k + t@)), ..st },
                Some(CaptureView::Param(p)) => CiState { capture: Some(CaptureView::Param(p + t@)), ..st },
                None => st,
            },
        ),
        XmlEvent::End(n) => ci_end(st, n@),
        _ => Ok(st),
    }
}

/// Challenge information read from events, from state `st`: the jobs at the
/// end of the document, or the first error.
pub open spec fn ci_fold(events: Seq<XmlEvent>, st: CiState) -> Result<Map<Seq<char>, Map<Seq<char>, HhdView>>, ErrorView>
    decreases events.len(),
{
    if events.len() == 0 {
        Ok(st.info)
    } else {
        match events[0] {
            XmlEvent::Eof => Ok(st.info),
            XmlEvent::Error(m) => Err(read_error("failed to parse challenge info XML"@, m@)),
            _ => match ci_step(st, events[0]) {
                Err(e) => Err(e),
                Ok(s2) => ci_fold(events.drop_first(), s2),
            },
        }
    }
}

enum Capture {
    Klass(String),
    Param(String),
}

spec fn capture_view(c: Option<Capture>) -> Option<CaptureView> {
    match c {
        None => None,
        Some(Capture::Klass(k)) => Some(CaptureView::Klass(k@)),
        Some(Capture::Param(p)) => Some(CaptureView::Param(p@)),
    }
}

struct ChallengeInfoParser {
    info: ChallengeInfo,
    job_code: Option<String>,
    job: Option<ChallengeJob>,
    spec: Option<String>,
    hhd: Option<ChallengeHhdVersion>,
    param: Option<ChallengeParam>,
    capture: Option<Capture>,
}

impl View for ChallengeInfoParser {
    type V = CiState;

    closed spec fn view(&self) -> CiState {
        CiState {
            info: self.info@,
            job_code: opt_view(self.job_code),
            job: match self.job {
                Some(j) => Some(j@),
                None => None,
            },
            spec: opt_view(self.spec),
            hhd: match self.hhd {
                Some(h) => Some(h@),
                None => None,
            },
            param: match self.param {
                Some(p) => Some(p@),
                None => None,
            },
            capture: capture_view(self.capture),
        }
    }
}

fn challenge_attr(tag: &XmlTag, name: &str) -> (r: HbciResult<Option<String>>)
    ensures
        match ci_attr(*tag, name@) {
            Ok(v) => r matches Ok(x) && opt_view(x) == v,
            Err(e) => r matches Err(x) && x@ == e,
        },
{
    tag_attr(tag, name, "failed to parse challenge info XML attribute", "failed to decode challenge info XML attribute")
}

fn challenge_required_attr(tag: &XmlTag, name: &str) -> (r: HbciResult<String>)
    ensures
        match ci_required(*tag, name@) {
            Ok(v) => r matches Ok(x) && x@ == v,
            Err(e) => r matches Err(x) && x@ == e,
        },
{
    match challenge_attr(tag, name) {
        Err(e) => Err(e),
        Ok(Some(v)) => Ok(v),
        Ok(None) => {
            let mut m = "challenge info element ".to_string();
            append(&mut m, tag.name.as_str());
            append(&mut m, " is missing required ");
            append(&mut m, name);
            append(&mut m, " attribute");
            Err(HbciError::new(HbciErrorKind::Protocol, m.as_str()))
        },
    }
}

fn parse_challenge_param(tag: &XmlTag) -> (r: HbciResult<ChallengeParam>)
    ensures
        match ci_param(*tag) {
            Ok(p) => r matches Ok(x) && x@ == p,
            Err(e) => r matches Err(x) && x@ == e,
        },
{
    let t = match challenge_attr(tag, "type") {
        Ok(t) => t,
        Err(e) => {
            return Err(e);
        },
    };
    let cn = match challenge_attr(tag, "condition-name") {
        Ok(x) => x,
        Err(e) => {
            return Err(e);
        },
    };
    let cv = match challenge_attr(tag, "condition-value") {
        Ok(x) => x,
        Err(e) => {
            return Err(e);
        },
    };
    let param_type = match t {
        Some(x) => x,
        None => String::new(),
    };
    Ok(ChallengeParam { param_type, path: None, condition_name: cn, condition_value: cv })
}

fn challenge_info_stack_underflow() -> (e: HbciError)
    ensures
        e@ == ci_underflow(),
{
    HbciError::new(HbciErrorKind::Protocol, "challenge info XML parser stack underflow")
}

proof fn lemma_hhd_views_insert(m: Map<Seq<char>, ChallengeHhdVersion>, k: Seq<char>, v: ChallengeHhdVersion)
    ensures
        hhd_views(m.insert(k, v)) == hhd_views(m).insert(k, v@),
{
    assert(hhd_views(m.insert(k, v)) =~= hhd_views(m).insert(k, v@));
}

proof fn lemma_job_views_insert(m: Map<Seq<char>, ChallengeJob>, k: Seq<char>, v: ChallengeJob)
    ensures
        job_views(m.insert(k, v)) == job_views(m).insert(k, v@),
{
    assert(job_views(m.insert(k, v)) =~= job_views(m).insert(k, v@));
}

impl ChallengeInfoParser {
    fn new() -> (p: Self)
        ensures
            p@ == ci_initial(),
    {
        let p = ChallengeInfoParser {
            info: ChallengeInfo { jobs: StrMap::new() },
            job_code: None,
            job: None,
            spec: None,
            hhd: None,
            param: None,
            capture: None,
        };
        assert(p@.info =~= Map::empty());
        p
    }

    fn push_param(&mut self, p: ChallengeParam) -> (r: HbciResult<()>)
        ensures
            match old(self)@.hhd {
                None => r matches Err(e) && e@ == ci_underflow(),
                Some(h) => r is Ok && final(self)@ == (CiState {
                    hhd: Some(HhdView { params: h.params.push(p@), ..h }),
                    ..old(self)@
                }),
            },
    {
        match self.hhd.take() {
            None => Err(challenge_info_stack_underflow()),
            Some(mut h) => {
                let ghost before = h.params@;
                h.params.push(p);
                assert(h.params@.map_values(|q: ChallengeParam| q@) =~= before.map_values(|q: ChallengeParam| q@).push(p@));
                self.hhd = Some(h);
                Ok(())
            },
        }
    }

    fn start(&mut self, tag: &XmlTag) -> (r: HbciResult<()>)
        ensures
            match ci_start(old(self)@, *tag) {
                Ok(s) => r is Ok && final(self)@ == s,
                Err(e) => r matches Err(x) && x@ == e,
            },
    {
        let n = tag.name.as_str();
        if str_eq(n, "job") {
            let code = match challenge_required_attr(tag, "code") {
                Ok(c) => c,
                Err(e) => {
                    return Err(e);
                },
            };
            self.job_code = Some(code);
            let j = ChallengeJob { versions: StrMap::new() };
            assert(j@ =~= Map::empty());
            self.job = Some(j);
        } else if str_eq(n, "challengeinfo") {
            let sp = match challenge_required_attr(tag, "spec") {
                Ok(c) => c,
                Err(e) => {
                    return Err(e);
                },
            };
            self.spec = Some(sp);
            let h = ChallengeHhdVersion { klass: String::new(), params: Vec::new() };
            assert(h@.params =~= seq![]);
            self.hhd = Some(h);
        } else if str_eq(n, "klass") {
            self.capture = Some(Capture::Klass(String::new()));
        } else if str_eq(n, "param") {
            let p = match parse_challenge_param(tag) {
                Ok(p) => p,
                Err(e) => {
                    return Err(e);
                },
            };
            self.param = Some(p);
            self.capture = Some(Capture::Param(String::new()));
        }
        Ok(())
    }

    fn empty(&mut self, tag: &XmlTag) -> (r: HbciResult<()>)
        ensures
            match ci_empty(old(self)@, *tag) {
                Ok(s) => r is Ok && final(self)@ == s,
                Err(e) => r matches Err(x) && x@ == e,
            },
    {
        if str_eq(tag.name.as_str(), "param") {
            let p = match parse_challenge_param(tag) {
                Ok(p) => p,
                Err(e) => {
                    return Err(e);
                },
            };
            return self.push_param(p);
        }
        Ok(())
    }

    fn text(&mut self, t: &String)
        ensures
            ci_step(old(self)@, XmlEvent::Text(*t)) == Ok::<CiState, ErrorView>(final(self)@),
    {
        match self.capture.take() {
            None => {},
            Some(Capture::Klass(mut k)) => {
                append(&mut k, t.as_str());
                self.capture = Some(Capture::Klass(k));
            },
            Some(Capture::Param(mut p)) => {
                append(&mut p, t.as_str());
                self.capture = Some(Capture::Param(p));
            },
        }
    }

    fn end(&mut self, n: &str) -> (r: HbciResult<()>)
        ensures
            match ci_end(old(self)@, n@) {
                Ok(s) => r is Ok && final(self)@ == s,
                Err(e) => r matches Err(x) && x@ == e,
            },
    {
        if str_eq(n, "klass") {
            match self.capture.take() {
                Some(Capture::Klass(k)) => match self.hhd.take() {
                    None => {
                        return Err(challenge_info_stack_underflow());
                    },
                    Some(mut h) => {
                        h.klass = k;
                        self.hhd = Some(h);
                    },
                },
                _ => {},
            }
            Ok(())
        } else if str_eq(n, "param") {
            let mut p = match self.param.take() {
                None => {
                    return Err(challenge_info_stack_underflow());
                },
                Some(p) => p,
            };
            match self.capture.take() {
                Some(Capture::Param(path)) => {
                    if path.as_str().unicode_len() > 0 {
                        p.path = Some(path);
                    }
                },
                _ => {},
            }
            self.push_param(p)
        } else if str_eq(n, "challengeinfo") {
            let sp = match self.spec.take() {
                None => {
                    return Err(challenge_info_stack_underflow());
                },
                Some(x) => x,
            };
            let h = match self.hhd.take() {
                None => {
                    return Err(challenge_info_stack_underflow());
                },
                Some(x) => x,
            };
            match self.job.take() {
                None => Err(challenge_info_stack_underflow()),
                Some(mut j) => {
                    let ghost before = j.versions@;
                    let ghost hv = h;
                    let ghost spv = sp@;
                    j.versions.insert(sp, h);
                    proof {
                        lemma_hhd_views_insert(before, spv, hv);
                    }
                    self.job = Some(j);
                    Ok(())
                },
            }
        } else if str_eq(n, "job") {
            let code = match self.job_code.take() {
                None => {
                    return Err(challenge_info_stack_underflow());
                },
                Some(x) => x,
            };
            let j = match self.job.take() {
                None => {
                    return Err(challenge_info_stack_underflow());
                },
                Some(x) => x,
            };
            let ghost before = self.info.jobs@;
            let ghost jv = j;
            let ghost cv = code@;
            self.info.jobs.insert(code, j);
            proof {
                lemma_job_views_insert(before, cv, jv);
            }
            Ok(())
        } else {
            Ok(())
        }
    }
}

impl ChallengeInfo {
    /// Challenge information from the events of its XML document.
    pub fn from_events(events: &[XmlEvent]) -> (r: HbciResult<Self>)
        ensures
            match ci_fold(events@, ci_initial()) {
                Ok(m) => r matches Ok(x) && x@ == m,
                Err(e) => r matches Err(x) && x@ == e,
            },
    {
        let mut p = ChallengeInfoParser::new();
        let mut i: usize = 0;
        assert(events@.skip(0) =~= events@);
        while i < events.len()
            invariant
                i <= events@.len(),
                ci_fold(events@, ci_initial()) == ci_fold(events@.skip(i as int), p@),
            decreases events.len() - i,
        {
            assert(events@.skip(i as int)[0] == events@[i as int]);
            assert(events@.skip(i as int).drop_first() =~= events@.skip(i + 1));
            let step = match &events[i] {
                XmlEvent::Eof => {
                    return Ok(p.info);
                },
                XmlEvent::Error(m) => {
                    return Err(HbciError::with_source(HbciErrorKind::Protocol, "failed to parse challenge info XML", m.as_str()));
                },
                XmlEvent::Start(tag) => p.start(tag),
                XmlEvent::Empty(tag) => p.empty(tag),
                XmlEvent::Text(t) => {
                    p.text(t);
                    Ok(())
                },
                XmlEvent::End(n) => p.end(n.as_str()),
                XmlEvent::GeneralRef(_) => Ok(()),
                XmlEvent::Other => Ok(()),
            };
            match step {
                Err(e) => {
                    return Err(e);
                },
                Ok(()) => {},
            }
            i += 1;
        }
        Ok(p.info)
    }

    /// Reads challenge information (challengeinfo.xml): per job and challenge
    /// specification, the challenge class and its parameters.
    pub fn parse_xml(xml: &str) -> (r: HbciResult<Self>)
        ensures
            match ci_fold(xml_events_of(xml@), ci_initial()) {
                Ok(m) => r matches Ok(x) && x@ == m,
                Err(e) => r matches Err(x) && x@ == e,
            },
    {
        let events = xml_events(xml);
        let r = Self::from_events(events.as_slice());
        assert(match ci_fold(events@, ci_initial()) {
            Ok(m) => r matches Ok(x) && x@ == m,
            Err(e) => r matches Err(x) && x@ == e,
        });
        r
    }
}

} // verus!
