//! Rendering of single data element values by their FinTS data type.

use vstd::prelude::*;
use crate::error::{ErrorView, HbciError, HbciErrorKind, HbciResult};
use crate::protocol::wire::{quote, quote_data_element};
use crate::text::{
    all_digits, all_digits_exec, append, byte_len, chars_of, concat, decimal, int_error_string,
    int_error_text, pad_left, parse_i64_with_kind, parse_int, push_char, push_decimal, str_eq,
    string_of, trim, trim_str, utf8_len,
};

verus! {

/// Size limits of a data element value, in bytes; a maximum of zero means none.
#[derive(Debug, Clone, Copy, PartialEq, Eq, Structural)]
pub struct DataTypeConstraints {
    pub min_size: Option<usize>,
    pub max_size: Option<usize>,
}

impl Default for DataTypeConstraints {
    fn default() -> (c: Self)
        ensures
            c.min_size is None,
            c.max_size is None,
    {
        DataTypeConstraints { min_size: None, max_size: None }
    }
}

pub open spec fn invalid_argument(message: Seq<char>) -> ErrorView {
    ErrorView { kind: HbciErrorKind::InvalidArgument, message, source: None }
}

/// The complaint about a value that breaks the size limits, if it does.
pub open spec fn size_error(data_type: Seq<char>, value: Seq<char>, c: DataTypeConstraints) -> Option<
    Seq<char>,
> {
    let len = utf8_len(value);
    let too_short = match c.min_size {
        Some(m) => len < m,
        None => false,
    };
    let too_long = match c.max_size {
        Some(m) => m != 0 && len > m,
        None => false,
    };
    if too_short {
        Some(
            data_type + " data element value is too short: "@ + decimal(len) + " < "@ + decimal(
                c.min_size.unwrap() as nat,
            ) + " ("@ + value + ")"@,
        )
    } else if too_long {
        Some(
            data_type + " data element value is too long: "@ + decimal(len) + " > "@ + decimal(
                c.max_size.unwrap() as nat,
            ) + " ("@ + value + ")"@,
        )
    } else {
        None
    }
}

/// The value with leading zeros removed, keeping at least one character.
pub open spec fn strip_leading_zeros(s: Seq<char>) -> Seq<char>
    decreases s.len(),
{
    if s.len() > 1 && s[0] == '0' {
        strip_leading_zeros(s.skip(1))
    } else {
        s
    }
}

/// The checked and quoted value when only the size limits apply.
pub open spec fn sized_quoted(data_type: Seq<char>, v: Seq<char>, c: DataTypeConstraints) -> Result<
    Seq<char>,
    ErrorView,
> {
    match size_error(data_type, v, c) {
        Some(m) => Err(invalid_argument(m)),
        None => Ok(quote(v)),
    }
}

pub open spec fn render_num_spec(value: Seq<char>, c: DataTypeConstraints) -> Result<
    Seq<char>,
    ErrorView,
> {
    match parse_int(value, i64::MIN as int, i64::MAX as int) {
        Err(k) => Err(
            ErrorView {
                kind: HbciErrorKind::InvalidArgument,
                message: "invalid Num data element value: "@ + value,
                source: Some(int_error_text(k)),
            },
        ),
        Ok(_) => {
            let r = strip_leading_zeros(value);
            match size_error("Num"@, r, c) {
                Some(m) => Err(invalid_argument(m)),
                None => Ok(r),
            }
        },
    }
}

pub open spec fn render_dig_spec(value: Seq<char>, c: DataTypeConstraints) -> Result<
    Seq<char>,
    ErrorView,
> {
    let v = trim(value);
    if !all_digits(v) {
        Err(invalid_argument("Dig data element value must contain only digits: "@ + v))
    } else {
        let min = match c.min_size {
            Some(m) => m as nat,
            None => 1nat,
        };
        let r = pad_left(v, min, '0');
        match size_error("Dig"@, r, c) {
            Some(m) => Err(invalid_argument(m)),
            None => Ok(r),
        }
    }
}

pub open spec fn render_currency_spec(value: Seq<char>) -> Result<Seq<char>, ErrorView> {
    let v = trim(value);
    match size_error("Cur"@, v, DataTypeConstraints { min_size: Some(3), max_size: Some(3) }) {
        Some(m) => Err(invalid_argument(m)),
        None => Ok(v),
    }
}

pub open spec fn render_binary_spec(value: Seq<char>, c: DataTypeConstraints) -> Result<
    Seq<char>,
    ErrorView,
> {
    if value.len() > 0 && value[0] == 'B' {
        let payload = value.skip(1);
        match size_error("Bin"@, payload, c) {
            Some(m) => Err(invalid_argument(m)),
            None => Ok("@"@ + decimal(utf8_len(payload)) + "@"@ + payload),
        }
    } else {
        Err(
            ErrorView {
                kind: HbciErrorKind::Unsupported,
                message: "numeric binary data element rendering is not supported"@,
                source: None,
            },
        )
    }
}

/// What a data element value of a FinTS data type is rendered as.
pub open spec fn render_data_element_spec(
    data_type: Seq<char>,
    value: Seq<char>,
    c: DataTypeConstraints,
) -> Result<Seq<char>, ErrorView> {
    if data_type == "AN"@ || data_type == "Code"@ || data_type == "DTAUS"@ || data_type == "JN"@ {
        sized_quoted(data_type, trim(value), c)
    } else if data_type == "ID"@ {
        sized_quoted(data_type, trim(value), DataTypeConstraints { max_size: Some(30), ..c })
    } else if data_type == "Num"@ {
        render_num_spec(value, c)
    } else if data_type == "Dig"@ {
        render_dig_spec(value, c)
    } else if data_type == "Ctr"@ {
        match country_code(trim(value)) {
            Some(code) => Ok(code),
            None => Err(invalid_argument("unknown Ctr data element country: "@ + trim(value))),
        }
    } else if data_type == "Cur"@ {
        render_currency_spec(value)
    } else if data_type == "Bin"@ {
        render_binary_spec(value, c)
    } else {
        sized_quoted(data_type, value, c)
    }
}

/// The numeric ISO 3166 code of a country given by its letter code.
pub open spec fn country_code(c: Seq<char>) -> Option<Seq<char>> {
    if c == "DE"@ {
        Some("280"@)
    } else if c == "AT"@ {
        Some("040"@)
    } else if c == "FR"@ {
        Some("250"@)
    } else if c == "BE"@ {
        Some("056"@)
    } else if c == "BG"@ {
        Some("100"@)
    } else if c == "DK"@ {
        Some("208"@)
    } else if c == "FI"@ {
        Some("246"@)
    } else if c == "GR"@ {
        Some("300"@)
    } else if c == "GB"@ {
        Some("826"@)
    } else if c == "IE"@ {
        Some("372"@)
    } else if c == "IS"@ {
        Some("352"@)
    } else if c == "IT"@ {
        Some("380"@)
    } else if c == "JP"@ {
        Some("392"@)
    } else if c == "CA"@ {
        Some("124"@)
    } else if c == "HR"@ {
        Some("191"@)
    } else if c == "LI"@ {
        Some("438"@)
    } else if c == "LU"@ {
        Some("442"@)
    } else if c == "NL"@ {
        Some("528"@)
    } else if c == "NO"@ {
        Some("578"@)
    } else if c == "PL"@ {
        Some("616"@)
    } else if c == "PT"@ {
        Some("620"@)
    } else if c == "RO"@ {
        Some("642"@)
    } else if c == "RU"@ {
        Some("643"@)
    } else if c == "SE"@ {
        Some("752"@)
    } else if c == "CH"@ {
        Some("756"@)
    } else if c == "SK"@ {
        Some("703"@)
    } else if c == "SI"@ {
        Some("705"@)
    } else if c == "ES"@ {
        Some("724"@)
    } else if c == "CZ"@ {
        Some("203"@)
    } else if c == "TR"@ {
        Some("792"@)
    } else if c == "HU"@ {
        Some("348"@)
    } else if c == "US"@ {
        Some("840"@)
    } else if c == "EU"@ {
        Some("978"@)
    } else {
        None
    }
}
/// Looks up the numeric country code.
fn country_code_of(c: &str) -> (r: Option<&'static str>)
    ensures
        r matches Some(x) ==> country_code(c@) == Some(x@),
        r is None ==> country_code(c@) is None,
{
    if str_eq(c, "DE") {
        Some("280")
    } else if str_eq(c, "AT") {
        Some("040")
    } else if str_eq(c, "FR") {
        Some("250")
    } else if str_eq(c, "BE") {
        Some("056")
    } else if str_eq(c, "BG") {
        Some("100")
    } else if str_eq(c, "DK") {
        Some("208")
    } else if str_eq(c, "FI") {
        Some("246")
    } else if str_eq(c, "GR") {
        Some("300")
    } else if str_eq(c, "GB") {
        Some("826")
    } else if str_eq(c, "IE") {
        Some("372")
    } else if str_eq(c, "IS") {
        Some("352")
    } else if str_eq(c, "IT") {
        Some("380")
    } else if str_eq(c, "JP") {
        Some("392")
    } else if str_eq(c, "CA") {
        Some("124")
    } else if str_eq(c, "HR") {
        Some("191")
    } else if str_eq(c, "LI") {
        Some("438")
    } else if str_eq(c, "LU") {
        Some("442")
    } else if str_eq(c, "NL") {
        Some("528")
    } else if str_eq(c, "NO") {
        Some("578")
    } else if str_eq(c, "PL") {
        Some("616")
    } else if str_eq(c, "PT") {
        Some("620")
    } else if str_eq(c, "RO") {
        Some("642")
    } else if str_eq(c, "RU") {
        Some("643")
    } else if str_eq(c, "SE") {
        Some("752")
    } else if str_eq(c, "CH") {
        Some("756")
    } else if str_eq(c, "SK") {
        Some("703")
    } else if str_eq(c, "SI") {
        Some("705")
    } else if str_eq(c, "ES") {
        Some("724")
    } else if str_eq(c, "CZ") {
        Some("203")
    } else if str_eq(c, "TR") {
        Some("792")
    } else if str_eq(c, "HU") {
        Some("348")
    } else if str_eq(c, "US") {
        Some("840")
    } else if str_eq(c, "EU") {
        Some("978")
    } else {
        None
    }
}
/// Checks a value against the size limits.
pub fn check_size(data_type: &str, value: &str, c: DataTypeConstraints) -> (r: HbciResult<()>)
    ensures
        r is Ok <==> size_error(data_type@, value@, c) is None,
        r matches Err(e) ==> size_error(data_type@, value@, c) == Some(e@.message) && e@
            == invalid_argument(e@.message),
{
    let len = byte_len(value);
    let too_short = match c.min_size {
        Some(m) => len < m,
        None => false,
    };
    let too_long = match c.max_size {
        Some(m) => m != 0 && len > m,
        None => false,
    };
    if too_short || too_long {
        let mut msg = String::new();
        append(&mut msg, data_type);
        let bound: usize;
        if too_short {
            append(&mut msg, " data element value is too short: ");
            push_decimal(&mut msg, len as u64);
            append(&mut msg, " < ");
            bound = c.min_size.unwrap();
        } else {
            append(&mut msg, " data element value is too long: ");
            push_decimal(&mut msg, len as u64);
            append(&mut msg, " > ");
            bound = c.max_size.unwrap();
        }
        push_decimal(&mut msg, bound as u64);
        append(&mut msg, " (");
        append(&mut msg, value);
        append(&mut msg, ")");
        let e = HbciError::new(HbciErrorKind::InvalidArgument, msg.as_str());
        assert(size_error(data_type@, value@, c) == Some(msg@));
        return Err(e);
    }
    Ok(())
}

/// The error for a value that breaks the size limits.
fn size_failure(data_type: &str, value: &str, c: DataTypeConstraints) -> (r: HbciResult<()>)
    ensures
        r is Ok <==> size_error(data_type@, value@, c) is None,
        r matches Err(e) ==> e@ == invalid_argument(size_error(data_type@, value@, c).unwrap()),
{
    check_size(data_type, value, c)
}

/// The value without leading zeros (at least one character stays).
fn strip_zeros(value: &str) -> (r: String)
    ensures
        r@ == strip_leading_zeros(value@),
{
    let v = chars_of(value);
    let mut i: usize = 0;
    assert(v@.skip(0) =~= v@);
    while v.len() - i > 1 && v[i] == '0'
        invariant
            i <= v@.len(),
            v@ == value@,
            strip_leading_zeros(v@.skip(i as int)) == strip_leading_zeros(value@),
        decreases v.len() - i,
    {
        assert(v@.skip(i as int).skip(1) =~= v@.skip(i + 1));
        i += 1;
    }
    let r = string_of(crate::text::slice_chars(v.as_slice(), i, v.len()).as_slice());
    assert(r@ =~= v@.skip(i as int));
    r
}

fn render_num(value: &str, c: DataTypeConstraints) -> (r: HbciResult<String>)
    ensures
        r matches Ok(s) ==> render_num_spec(value@, c) == Ok::<Seq<char>, ErrorView>(s@),
        r matches Err(e) ==> render_num_spec(value@, c) == Err::<Seq<char>, ErrorView>(e@),
{
    match parse_i64_with_kind(value) {
        Err(k) => {
            let msg = concat("invalid Num data element value: ", value);
            let src = int_error_string(k);
            Err(HbciError::with_source(HbciErrorKind::InvalidArgument, msg.as_str(), src.as_str()))
        },
        Ok(_) => {
            let rendered = strip_zeros(value);
            match size_failure("Num", rendered.as_str(), c) {
                Err(e) => Err(e),
                Ok(()) => Ok(rendered),
            }
        },
    }
}

fn render_dig(value: &str, c: DataTypeConstraints) -> (r: HbciResult<String>)
    ensures
        r matches Ok(s) ==> render_dig_spec(value@, c) == Ok::<Seq<char>, ErrorView>(s@),
        r matches Err(e) ==> render_dig_spec(value@, c) == Err::<Seq<char>, ErrorView>(e@),
{
    let v = trim_str(value);
    let chars = chars_of(v.as_str());
    if !all_digits_exec(chars.as_slice()) {
        let msg = concat("Dig data element value must contain only digits: ", v.as_str());
        return Err(HbciError::new(HbciErrorKind::InvalidArgument, msg.as_str()));
    }
    let min: usize = match c.min_size {
        Some(m) => m,
        None => 1,
    };
    let rendered = pad_zeros(v.as_str(), min);
    match size_failure("Dig", rendered.as_str(), c) {
        Err(e) => Err(e),
        Ok(()) => Ok(rendered),
    }
}

/// Pads on the left with `'0'` to `width` characters.
pub fn pad_zeros(v: &str, width: usize) -> (r: String)
    ensures
        r@ == pad_left(v@, width as nat, '0'),
{
    let len = crate::text::char_len(v);
    let mut s = String::new();
    let mut k: usize = len;
    while k < width
        invariant
            len <= k,
            k <= width || k == len,
            s@ == Seq::new((k - len) as nat, |i: int| '0'),
        decreases width - k,
    {
        push_char(&mut s, '0');
        k += 1;
        assert(s@ =~= Seq::new((k - len) as nat, |i: int| '0'));
    }
    let r = concat(s.as_str(), v);
    proof {
        if len >= width {
            assert(s@ =~= Seq::<char>::empty());
            assert(r@ =~= v@);
        }
    }
    r
}

fn render_currency(value: &str) -> (r: HbciResult<String>)
    ensures
        r matches Ok(s) ==> render_currency_spec(value@) == Ok::<Seq<char>, ErrorView>(s@),
        r matches Err(e) ==> render_currency_spec(value@) == Err::<Seq<char>, ErrorView>(e@),
{
    let v = trim_str(value);
    match size_failure("Cur", v.as_str(), DataTypeConstraints { min_size: Some(3), max_size: Some(3) }) {
        Err(e) => Err(e),
        Ok(()) => Ok(v),
    }
}

fn render_binary_data_element(value: &str, c: DataTypeConstraints) -> (r: HbciResult<String>)
    ensures
        r matches Ok(s) ==> render_binary_spec(value@, c) == Ok::<Seq<char>, ErrorView>(s@),
        r matches Err(e) ==> render_binary_spec(value@, c) == Err::<Seq<char>, ErrorView>(e@),
{
    let v = chars_of(value);
    if v.len() == 0 || v[0] != 'B' {
        return Err(
            HbciError::new(
                HbciErrorKind::Unsupported,
                "numeric binary data element rendering is not supported",
            ),
        );
    }
    let payload = string_of(crate::text::slice_chars(v.as_slice(), 1, v.len()).as_slice());
    assert(payload@ =~= value@.skip(1));
    match size_failure("Bin", payload.as_str(), c) {
        Err(e) => Err(e),
        Ok(()) => {
            let mut out = String::new();
            push_char(&mut out, '@');
            push_decimal(&mut out, byte_len(payload.as_str()) as u64);
            push_char(&mut out, '@');
            append(&mut out, payload.as_str());
            proof {
                reveal_strlit("@");
            }
            assert(out@ =~= "@"@ + decimal(utf8_len(payload@)) + "@"@ + payload@);
            Ok(out)
        },
    }
}

/// Renders a data element value for its type, checking the size limits.
pub fn render_data_element(data_type: &str, value: &str, c: DataTypeConstraints) -> (r: HbciResult<
    String,
>)
    ensures
        r matches Ok(s) ==> render_data_element_spec(data_type@, value@, c) == Ok::<
            Seq<char>,
            ErrorView,
        >(s@),
        r matches Err(e) ==> render_data_element_spec(data_type@, value@, c) == Err::<
            Seq<char>,
            ErrorView,
        >(e@),
{
    if str_eq(data_type, "AN") || str_eq(data_type, "Code") || str_eq(data_type, "DTAUS")
        || str_eq(data_type, "JN") {
        let v = trim_str(value);
        match size_failure(data_type, v.as_str(), c) {
            Err(e) => Err(e),
            Ok(()) => Ok(quote_data_element(v.as_str())),
        }
    } else if str_eq(data_type, "ID") {
        let v = trim_str(value);
        let limits = DataTypeConstraints { min_size: c.min_size, max_size: Some(30) };
        assert(limits == DataTypeConstraints { max_size: Some(30), ..c });
        match size_failure(data_type, v.as_str(), limits) {
            Err(e) => Err(e),
            Ok(()) => Ok(quote_data_element(v.as_str())),
        }
    } else if str_eq(data_type, "Num") {
        render_num(value, c)
    } else if str_eq(data_type, "Dig") {
        render_dig(value, c)
    } else if str_eq(data_type, "Ctr") {
        let v = trim_str(value);
        match country_code_of(v.as_str()) {
            Some(code) => Ok(code.to_owned()),
            None => {
                let msg = concat("unknown Ctr data element country: ", v.as_str());
                Err(HbciError::new(HbciErrorKind::InvalidArgument, msg.as_str()))
            },
        }
    } else if str_eq(data_type, "Cur") {
        render_currency(value)
    } else if str_eq(data_type, "Bin") {
        render_binary_data_element(value, c)
    } else {
        match size_failure(data_type, value, c) {
            Err(e) => Err(e),
            Ok(()) => Ok(quote_data_element(value)),
        }
    }
}

} // verus!
