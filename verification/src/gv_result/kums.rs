//! Account statements: MT940 (booked) and MT942 (not yet booked) texts
//! split into days and their transactions.

use vstd::prelude::*;
use crate::gv_result::account::{
    cents_text, cents_to_decimal, decimal_cents, decimal_to_cents, opt_view, Konto, Saldo, Value,
};
use crate::text::{
    replace_char, replace_char_str, append, chars_of, decimal, find_from, find_from_exec, is_digit, is_ws, parse_int,
    parse_int_in, push_char, push_decimal, slice_chars, string_of,
};

verus! {

// ---------------------------------------------------------------------------
// Booking dates
// ---------------------------------------------------------------------------

/// Days since 1970-01-01 of a date of the proleptic Gregorian calendar.
#[verifier::opaque]
pub open spec fn days_from_civil(year: int, month: int, day: int) -> int {
    let y = year - (if month <= 2 {
        1int
    } else {
        0int
    });
    let era = y / 400;
    let yoe = y - era * 400;
    let doy = (153 * (month + (if month > 2 {
        -3int
    } else {
        9int
    })) + 2) / 5 + day - 1;
    let doe = yoe * 365 + yoe / 4 - yoe / 100 + doy;
    era * 146097 + doe - 719468
}

fn days_from_civil_exec(year: i32, month: u32, day: u32) -> (d: i32)
    requires
        1 <= year <= 3000,
        month <= 99,
        day <= 99,
    ensures
        d == days_from_civil(year as int, month as int, day as int),
        -1000000 <= d <= 1000000,
{
    proof {
        reveal(days_from_civil);
    }
    let y: i32 = year - (if month <= 2 {
        1
    } else {
        0
    });
    let era: i32 = y / 400;
    let yoe: i32 = y - era * 400;
    let m: i32 = month as i32;
    let shift: i32 = if m > 2 {
        -3
    } else {
        9
    };
    let doy: i32 = (153 * (m + shift) + 2) / 5 + day as i32 - 1;
    let doe: i32 = yoe * 365 + yoe / 4 - yoe / 100 + doy;
    era * 146097 + doe - 719468
}

/// A number written with at least two digits (`{:02}`).
pub open spec fn two_wide(n: int) -> Seq<char> {
    if n < 0 {
        seq!['-'] + decimal((-n) as nat)
    } else if n < 10 {
        seq!['0'] + decimal(n as nat)
    } else {
        decimal(n as nat)
    }
}

fn push_two_wide(s: &mut String, n: i64)
    requires
        n > i64::MIN,
    ensures
        final(s)@ == old(s)@ + two_wide(n as int),
{
    if n < 0 {
        push_char(s, '-');
        push_decimal(s, (-n) as u64);
    } else {
        if n < 10 {
            push_char(s, '0');
        }
        push_decimal(s, n as u64);
    }
    assert(final(s)@ =~= old(s)@ + two_wide(n as int));
}

pub open spec fn abs(x: int) -> int {
    if x < 0 {
        -x
    } else {
        x
    }
}

/// The booking date `YYMMDD` of a transaction from its value date
/// `YYMMDD` and its booking `MMDD`: the year of the value date, or the
/// neighbouring one when that is more than 180 days closer; the value
/// date's year and the booking `MMDD` when a part is not a number or the
/// dates stay more than 366 days apart.
pub open spec fn corrected_booking_date(valuta: Seq<char>, bmd: Seq<char>) -> Seq<char> {
    let vy = parse_int(valuta.subrange(0, 2), i32::MIN as int, i32::MAX as int);
    let vm = parse_int(valuta.subrange(2, 4), 0, u32::MAX as int);
    let vd = parse_int(valuta.subrange(4, 6), 0, u32::MAX as int);
    let bm = parse_int(bmd.subrange(0, 2), 0, u32::MAX as int);
    let bd = parse_int(bmd.subrange(2, 4), 0, u32::MAX as int);
    if vy is Err {
        valuta.subrange(0, 2) + bmd
    } else if vm is Err || vd is Err || bm is Err || bd is Err {
        two_wide(vy->Ok_0) + bmd
    } else {
        booking_from_numbers(vy->Ok_0, vm->Ok_0, vd->Ok_0, bm->Ok_0, bd->Ok_0, bmd)
    }
}

/// The booking date from the numbers of the value date and of the booking day.
pub open spec fn booking_from_numbers(y: int, vm: int, vd: int, bm: int, bd: int, bmd: Seq<char>) -> Seq<
    char,
> {
    let valuta_days = days_from_civil(2000 + y, vm, vd);
    let first = days_from_civil(2000 + y, bm, bd);
    let by = if abs(first - valuta_days) > 180 {
        if first < valuta_days {
            y + 1
        } else {
            y - 1
        }
    } else {
        y
    };
    let booking_days = days_from_civil(2000 + by, bm, bd);
    if abs(booking_days - valuta_days) > 366 {
        two_wide(y) + bmd
    } else {
        two_wide(by % 100) + two_wide(bm) + two_wide(bd)
    }
}

/// Days before the March-based year `y` (from year 0).
pub open spec fn year_days(y: int) -> int {
    365 * y + y / 4 - y / 100 + y / 400
}

/// The day of a March-based year on which a month and day fall.
pub open spec fn march_day(m: int, d: int) -> int {
    (153 * (m + (if m > 2 { -3int } else { 9int })) + 2) / 5 + d - 1
}

proof fn lemma_year_days_of_era(y: int)
    requires
        y >= 0,
    ensures
        (y / 400) * 146097 + (y - (y / 400) * 400) * 365 + (y - (y / 400) * 400) / 4 - (y - (y / 400) * 400) / 100
            == year_days(y),
{
    let e = y / 400;
    let r = y - e * 400;
    assert(0 <= r < 400 && y == 400 * e + r) by (nonlinear_arith)
        requires
            e == y / 400,
            r == y - e * 400,
            y >= 0,
    ;
    assert(y / 4 == 100 * e + r / 4) by (nonlinear_arith)
        requires
            y == 400 * e + r,
            0 <= r < 400,
            e >= 0,
    ;
    assert(y / 100 == 4 * e + r / 100) by (nonlinear_arith)
        requires
            y == 400 * e + r,
            0 <= r < 400,
            e >= 0,
    ;
}

/// A date of a year from 1 on, as days: the days before its March-based
/// year and its day in that year.
proof fn lemma_days_shape(year: int, month: int, day: int)
    requires
        year >= 1,
        1 <= month <= 12,
    ensures
        days_from_civil(year, month, day) == year_days(year - (if month <= 2 { 1int } else { 0int })) + march_day(
            month,
            day,
        ) - 719468,
{
    reveal(days_from_civil);
    lemma_year_days_of_era(year - (if month <= 2 { 1int } else { 0int }));
}

/// A year has 365 or 366 days.
proof fn lemma_year_length(y: int)
    requires
        y >= 0,
    ensures
        365 <= year_days(y + 1) - year_days(y) <= 366,
{
    assert(0 <= (y + 1) / 4 - y / 4 <= 1) by (nonlinear_arith)
        requires
            y >= 0,
    ;
    assert(0 <= (y + 1) / 400 - y / 400 <= 1) by (nonlinear_arith)
        requires
            y >= 0,
    ;
    assert(0 <= (y + 1) / 100 - y / 100 <= 1) by (nonlinear_arith)
        requires
            y >= 0,
    ;
    assert((y + 1) / 100 - y / 100 == 1 ==> (y + 1) / 4 - y / 4 == 1) by (nonlinear_arith)
        requires
            y >= 0,
    ;
}

/// The same month and day a year later are 365 or 366 days later.
proof fn lemma_next_year(year: int, m: int, d: int)
    requires
        year >= 2,
        1 <= m <= 12,
    ensures
        365 <= days_from_civil(year + 1, m, d) - days_from_civil(year, m, d) <= 366,
{
    lemma_days_shape(year, m, d);
    lemma_days_shape(year + 1, m, d);
    lemma_year_length(year - (if m <= 2 { 1int } else { 0int }));
}

/// Two dates of one year (month 1 to 12, day 1 to 31) are at most 365 days
/// apart.
proof fn lemma_same_year(year: int, m1: int, d1: int, m2: int, d2: int)
    requires
        year >= 2,
        1 <= m1 <= 12,
        1 <= m2 <= 12,
        1 <= d1 <= 31,
        1 <= d2 <= 31,
    ensures
        abs(days_from_civil(year, m1, d1) - days_from_civil(year, m2, d2)) <= 365,
{
    lemma_days_shape(year, m1, d1);
    lemma_days_shape(year, m2, d2);
    lemma_year_length(year - 1);
    assert(306 <= march_day(m1, d1) <= 367 || 0 <= march_day(m1, d1) <= 305);
    assert(m1 <= 2 ==> 306 <= march_day(m1, d1) <= 367);
    assert(m1 > 2 ==> 0 <= march_day(m1, d1) <= 305);
    assert(m2 <= 2 ==> 306 <= march_day(m2, d2) <= 367);
    assert(m2 > 2 ==> 0 <= march_day(m2, d2) <= 305);
}

/// A booking day as a date text `YYMMDD` in a year `z`.
pub open spec fn booking_at(z: int, bm: int, bd: int) -> Seq<char> {
    two_wide(z % 100) + two_wide(bm) + two_wide(bd)
}

/// For a value date and a booking day that are calendar dates (month 1 to
/// 12, day 1 to 31) of the years 2000 to 2099, the corrected booking date
/// is the booking day in the value date's year or in a neighbouring year,
/// and it lies at most 185 days from the value date (a booking early in
/// January for a value date late in December falls in the next year).
pub proof fn law_booking_date_near_value_date(y: int, vm: int, vd: int, bm: int, bd: int, bmd: Seq<char>)
    requires
        0 <= y <= 99,
        1 <= vm <= 12,
        1 <= bm <= 12,
        1 <= vd <= 31,
        1 <= bd <= 31,
    ensures
        exists|z: int|
            y - 1 <= z <= y + 1 && booking_from_numbers(y, vm, vd, bm, bd, bmd) == #[trigger] booking_at(z, bm, bd)
                && abs(days_from_civil(2000 + z, bm, bd) - days_from_civil(2000 + y, vm, vd)) <= 185,
{
    let year = 2000 + y;
    let valuta = days_from_civil(year, vm, vd);
    let first = days_from_civil(year, bm, bd);
    lemma_same_year(year, bm, bd, vm, vd);
    lemma_next_year(year, bm, bd);
    lemma_next_year(year - 1, bm, bd);
    let by = if abs(first - valuta) > 180 {
        if first < valuta { y + 1 } else { y - 1 }
    } else {
        y
    };
    assert(abs(days_from_civil(2000 + by, bm, bd) - valuta) <= 185);
    assert(booking_from_numbers(y, vm, vd, bm, bd, bmd) == booking_at(by, bm, bd));
}

fn booking_date_from_numbers(y: i64, vm: u32, vd: u32, bm: u32, bd: u32, bmd: &str) -> (r: String)
    requires
        -9 <= y <= 99,
        vm <= 99,
        vd <= 99,
        bm <= 99,
        bd <= 99,
    ensures
        r@ == booking_from_numbers(y as int, vm as int, vd as int, bm as int, bd as int, bmd@),
{
    let valuta_days = days_from_civil_exec((2000 + y) as i32, vm, vd);
    let first = days_from_civil_exec((2000 + y) as i32, bm, bd);
    let diff = if first > valuta_days {
        first - valuta_days
    } else {
        valuta_days - first
    };
    let by: i64 = if diff > 180 {
        if first < valuta_days {
            y + 1
        } else {
            y - 1
        }
    } else {
        y
    };
    let booking_days = days_from_civil_exec((2000 + by) as i32, bm, bd);
    let diff2 = if booking_days > valuta_days {
        booking_days - valuta_days
    } else {
        valuta_days - booking_days
    };
    let mut s = String::new();
    if diff2 > 366 {
        push_two_wide(&mut s, y);
        append(&mut s, bmd);
        return s;
    }
    let year2: i64 = ((by % 100) + 100) % 100;
    assert(year2 == by % 100);
    push_two_wide(&mut s, year2);
    push_two_wide(&mut s, bm as i64);
    push_two_wide(&mut s, bd as i64);
    s
}

proof fn lemma_two_digit_range(s: Seq<char>, lo: int, hi: int)
    requires
        s.len() == 2,
        lo <= 0 <= hi,
        hi >= 99,
    ensures
        parse_int(s, lo, hi) matches Ok(x) ==> -9 <= x <= 99,
{
    reveal_with_fuel(crate::text::digits_acc, 3);
    if s[0] == '+' || s[0] == '-' {
        assert(s.skip(1).skip(1).len() == 0);
    } else {
        assert(s.skip(1).skip(1).len() == 0);
    }
}

fn corrected_mt940_booking_date(valuta: &str, booking_month_day: &str) -> (r: String)
    requires
        valuta@.len() == 6,
        booking_month_day@.len() == 4,
    ensures
        r@ == corrected_booking_date(valuta@, booking_month_day@),
{
    let v = chars_of(valuta);
    let b = chars_of(booking_month_day);
    let y_text = string_of(slice_chars(v.as_slice(), 0, 2).as_slice());
    let m_text = string_of(slice_chars(v.as_slice(), 2, 4).as_slice());
    let d_text = string_of(slice_chars(v.as_slice(), 4, 6).as_slice());
    let bm_text = string_of(slice_chars(b.as_slice(), 0, 2).as_slice());
    let bd_text = string_of(slice_chars(b.as_slice(), 2, 4).as_slice());
    assert(y_text@ =~= valuta@.subrange(0, 2));
    assert(m_text@ =~= valuta@.subrange(2, 4));
    assert(d_text@ =~= valuta@.subrange(4, 6));
    assert(bm_text@ =~= booking_month_day@.subrange(0, 2));
    assert(bd_text@ =~= booking_month_day@.subrange(2, 4));
    proof {
        lemma_two_digit_range(y_text@, i32::MIN as int, i32::MAX as int);
        lemma_two_digit_range(m_text@, 0, u32::MAX as int);
        lemma_two_digit_range(d_text@, 0, u32::MAX as int);
        lemma_two_digit_range(bm_text@, 0, u32::MAX as int);
        lemma_two_digit_range(bd_text@, 0, u32::MAX as int);
        crate::text::lemma_parse_int_range(m_text@, 0, u32::MAX as int);
        crate::text::lemma_parse_int_range(d_text@, 0, u32::MAX as int);
        crate::text::lemma_parse_int_range(bm_text@, 0, u32::MAX as int);
        crate::text::lemma_parse_int_range(bd_text@, 0, u32::MAX as int);
    }
    let y = match parse_int_in(y_text.as_str(), i32::MIN as i128, i32::MAX as i128) {
        Ok(x) => x as i64,
        Err(_) => {
            let mut s = y_text.clone();
            append(&mut s, booking_month_day);
            return s;
        },
    };
    let rm = parse_int_in(m_text.as_str(), 0, u32::MAX as i128);
    let rd = parse_int_in(d_text.as_str(), 0, u32::MAX as i128);
    let rbm = parse_int_in(bm_text.as_str(), 0, u32::MAX as i128);
    let rbd = parse_int_in(bd_text.as_str(), 0, u32::MAX as i128);
    if rm.is_err() || rd.is_err() || rbm.is_err() || rbd.is_err() {
        let mut s = String::new();
        push_two_wide(&mut s, y);
        append(&mut s, booking_month_day);
        return s;
    }
    let vm = match rm {
        Ok(a) => a as u32,
        Err(_) => 0,
    };
    let vd = match rd {
        Ok(a) => a as u32,
        Err(_) => 0,
    };
    let bm = match rbm {
        Ok(a) => a as u32,
        Err(_) => 0,
    };
    let bd = match rbd {
        Ok(a) => a as u32,
        Err(_) => 0,
    };
    booking_date_from_numbers(y, vm, vd, bm, bd, booking_month_day)
}

// ---------------------------------------------------------------------------
// Transactions (tag 61)
// ---------------------------------------------------------------------------

/// A transaction line of a statement.
#[derive(Debug, Clone, Default)]
pub struct GvrKUmsLine {
    pub valuta: Option<String>,
    pub bdate: Option<String>,
    pub value: Option<Value>,
    pub is_storno: bool,
    pub saldo: Option<Saldo>,
    pub customerref: Option<String>,
    pub instref: Option<String>,
    pub orig_value: Option<Value>,
    pub charge_value: Option<Value>,
    pub gvcode: Option<String>,
    pub additional: Option<String>,
    pub text: Option<String>,
    pub primanota: Option<String>,
    pub usage: Vec<String>,
    pub other: Option<Konto>,
    pub addkey: Option<String>,
    pub is_sepa: bool,
    pub is_camt: bool,
    pub id: Option<String>,
    pub end_to_end_id: Option<String>,
    pub purposecode: Option<String>,
    pub mandate_id: Option<String>,
}

/// All fields but the purpose lines are equal.
pub open spec fn same_but_usage(a: GvrKUmsLine, b: GvrKUmsLine) -> bool {
    &&& a.valuta == b.valuta
    &&& a.bdate == b.bdate
    &&& a.value == b.value
    &&& a.is_storno == b.is_storno
    &&& a.saldo == b.saldo
    &&& a.customerref == b.customerref
    &&& a.instref == b.instref
    &&& a.orig_value == b.orig_value
    &&& a.charge_value == b.charge_value
    &&& a.gvcode == b.gvcode
    &&& a.additional == b.additional
    &&& a.text == b.text
    &&& a.primanota == b.primanota
    &&& a.other == b.other
    &&& a.addkey == b.addkey
    &&& a.is_sepa == b.is_sepa
    &&& a.is_camt == b.is_camt
    &&& a.id == b.id
    &&& a.end_to_end_id == b.end_to_end_id
    &&& a.purposecode == b.purposecode
    &&& a.mandate_id == b.mandate_id
}

impl GvrKUmsLine {
    /// Adds a line of the purpose text, when there is one.
    pub fn add_usage(&mut self, usage: Option<String>)
        ensures
            usage matches Some(u) ==> final(self).usage@ == old(self).usage@.push(u),
            usage is None ==> final(self).usage@ == old(self).usage@,
            same_but_usage(*final(self), *old(self)),
    {
        if let Some(u) = usage {
            self.usage.push(u);
        }
    }
}

/// What the tag 61 text of a transaction says.
pub ghost struct LineSpec {
    pub valuta: Seq<char>,
    pub bdate: Seq<char>,
    pub cents: int,
    pub curr: Seq<char>,
    pub is_storno: bool,
    pub new_saldo: int,
    pub customerref: Seq<char>,
    pub instref: Seq<char>,
    pub orig_value: Option<(Seq<char>, Seq<char>)>,
    pub charge_value: Option<(Seq<char>, Seq<char>)>,
}

pub open spec fn lit(s: &str) -> Seq<char> {
    s@
}

/// An amount after a marker such as `/OCMT/`: three currency letters, then
/// the amount up to the next `/`; `None` when it is missing or no amount.
pub open spec fn tagged_value(s: Seq<char>, marker: Seq<char>, start: int) -> Option<(Seq<char>, Seq<char>)> {
    match find_from(s, marker, start) {
        None => None,
        Some(pos) => if pos + 9 > s.len() {
            None
        } else {
            let slashpos = match find_from(s, seq!['/'], pos + 9) {
                Some(p) => p,
                None => s.len() as int,
            };
            let amount = replace_char(s.subrange(pos + 9, slashpos), ',', '.');
            if amount.len() == 0 || decimal_cents(amount) is None {
                None
            } else {
                Some((amount, s.subrange(pos + 6, pos + 9)))
            }
        },
    }
}

/// Booking date and where the debit/credit mark starts.
pub open spec fn line_dates(s: Seq<char>, start_date: Option<Seq<char>>) -> Option<(Seq<char>, int)> {
    if s.len() < 7 {
        None
    } else if s[6] > '9' {
        Some(
            (
                match start_date {
                    Some(d) => d,
                    None => s.take(6),
                },
                6,
            ),
        )
    } else if s.len() < 10 {
        None
    } else {
        Some((corrected_booking_date(s.take(6), s.subrange(6, 10)), 10))
    }
}

/// Whether the line is a reversal, its debit/credit mark, and where the amount starts.
pub open spec fn line_mark(s: Seq<char>, next: int) -> Option<(bool, char, int)> {
    if next >= s.len() {
        None
    } else if s[next] == 'C' || s[next] == 'D' {
        let n = next + 1;
        if n >= s.len() {
            None
        } else {
            Some((false, s[next], if s[n] > '9' { n + 1 } else { n }))
        }
    } else if next + 1 >= s.len() {
        None
    } else {
        let n = next + 2;
        if n >= s.len() {
            None
        } else {
            Some((true, s[next + 1], if s[n] > '9' { n + 1 } else { n }))
        }
    }
}

/// The references and the optional original and charge amounts after the amount.
pub open spec fn line_tail(s: Seq<char>, next: int) -> (Seq<char>, Seq<char>, Option<(Seq<char>, Seq<char>)>, Option<(Seq<char>, Seq<char>)>) {
    let customer_end = match find_from(s, seq!['/', '/'], next) {
        Some(p) => p,
        None => match find_from(s, seq!['\r', '\n'], next) {
            Some(p) => p,
            None => s.len() as int,
        },
    };
    let customerref = if 0 <= next <= customer_end {
        s.subrange(next, customer_end)
    } else {
        seq![]
    };
    let has_inst = customer_end + 2 <= s.len() && s.subrange(customer_end, customer_end + 2)
        == seq!['/', '/'];
    let inst_start = customer_end + 2;
    let inst_end = match find_from(s, seq!['\r', '\n'], inst_start) {
        Some(p) => p,
        None => s.len() as int,
    };
    let instref = if has_inst {
        s.subrange(inst_start, inst_end)
    } else {
        seq![]
    };
    let after = if has_inst {
        inst_end + 2
    } else {
        customer_end
    };
    if 0 <= after < s.len() && s[after] == '\r' {
        (
            customerref,
            instref,
            tagged_value(s, "/OCMT/"@, after + 2),
            tagged_value(s, "/CHGS/"@, after + 2),
        )
    } else {
        (customerref, instref, None, None)
    }
}

/// A transaction from its tag 61 text, the opening balance of the day and
/// the running balance in cents before it.
pub open spec fn mt940_line(
    s: Seq<char>,
    start_date: Option<Seq<char>>,
    start_curr: Option<Seq<char>>,
    saldo: int,
) -> Option<LineSpec> {
    match line_dates(s, start_date) {
        None => None,
        Some((bdate, next)) => match line_mark(s, next) {
            None => None,
            Some((storno, cd, n)) => match find_from(s, seq!['N'], n) {
                None => None,
                Some(npos) => {
                    let raw = replace_char(s.subrange(n, npos), ',', '.');
                    let negative_mark = if storno {
                        'C'
                    } else {
                        'D'
                    };
                    let amount = if cd == negative_mark {
                        seq!['-'] + raw
                    } else {
                        raw
                    };
                    match decimal_cents(amount) {
                        None => None,
                        Some(cents) => if saldo + cents > i64::MAX || saldo + cents < i64::MIN {
                            None
                        } else {
                            let tail = line_tail(s, npos + 4);
                            Some(
                                LineSpec {
                                    valuta: s.take(6),
                                    bdate,
                                    cents,
                                    curr: match start_curr {
                                        Some(c) => c,
                                        None => "EUR"@,
                                    },
                                    is_storno: storno,
                                    new_saldo: saldo + cents,
                                    customerref: tail.0,
                                    instref: tail.1,
                                    orig_value: tail.2,
                                    charge_value: tail.3,
                                },
                            )
                        },
                    }
                },
            },
        },
    }
}

pub open spec fn value_is(v: Option<Value>, amount: Seq<char>, curr: Seq<char>) -> bool {
    v matches Some(x) && x.value@ == amount && opt_view(x.curr) == Some(curr)
}

pub open spec fn value_opt_is(v: Option<Value>, p: Option<(Seq<char>, Seq<char>)>) -> bool {
    match p {
        None => v is None,
        Some((a, c)) => value_is(v, a, c),
    }
}

/// The line holds what the tag 61 text says, and nothing from tag 86 yet.
pub open spec fn line_is(l: GvrKUmsLine, sp: LineSpec) -> bool {
    &&& opt_view(l.valuta) == Some(sp.valuta)
    &&& opt_view(l.bdate) == Some(sp.bdate)
    &&& value_is(l.value, cents_text(sp.cents), sp.curr)
    &&& l.is_storno == sp.is_storno
    &&& l.saldo matches Some(b) && value_is(Some(b.value), cents_text(sp.new_saldo), sp.curr)
        && opt_view(b.date) == Some(sp.bdate) && b.time is None
    &&& opt_view(l.customerref) == Some(sp.customerref)
    &&& opt_view(l.instref) == Some(sp.instref)
    &&& value_opt_is(l.orig_value, sp.orig_value)
    &&& value_opt_is(l.charge_value, sp.charge_value)
    &&& l.gvcode is None && l.additional is None && l.text is None && l.primanota is None
    &&& l.usage@.len() == 0 && l.other is None && l.addkey is None
    &&& !l.is_sepa && !l.is_camt && l.id is None && l.end_to_end_id is None
    &&& l.purposecode is None && l.mandate_id is None
}

fn text_of(v: &Vec<char>, from: usize, to: usize) -> (s: String)
    requires
        from <= to <= v@.len(),
    ensures
        s@ == v@.subrange(from as int, to as int),
{
    let r = string_of(slice_chars(v.as_slice(), from, to).as_slice());
    r
}

fn lit_chars(s: &str) -> (v: Vec<char>)
    ensures
        v@ == s@,
{
    chars_of(s)
}

fn find_in(v: &Vec<char>, p: &Vec<char>, from: usize) -> (r: Option<usize>)
    ensures
        r matches Some(k) ==> find_from(v@, p@, from as int) == Some(k as int) && from <= k && k
            + p@.len() <= v@.len(),
        r is None ==> find_from(v@, p@, from as int) is None,
{
    proof {
        crate::text::lemma_find_from_spec(v@, p@, from as int);
    }
    find_from_exec(v.as_slice(), p.as_slice(), from)
}

fn kums_optional_tagged_value(v: &Vec<char>, marker: &str, start: usize) -> (r: Option<Value>)
    ensures
        value_opt_is(r, tagged_value(v@, marker@, start as int)),
{
    let m = lit_chars(marker);
    let pos = match find_in(v, &m, start) {
        Some(p) => p,
        None => {
            return None;
        },
    };
    if pos > v.len() || v.len() - pos < 9 {
        return None;
    }
    let slash: Vec<char> = vec!['/'];
    assert(slash@ =~= seq!['/']);
    let slashpos = match find_in(v, &slash, pos + 9) {
        Some(p) => p,
        None => v.len(),
    };
    let raw = text_of(v, pos + 9, slashpos);
    let amount = replace_char_str(raw.as_str(), ',', '.');
    if amount.as_str().unicode_len() == 0 {
        return None;
    }
    if decimal_to_cents(amount.as_str()).is_none() {
        return None;
    }
    Some(Value { value: amount, curr: Some(text_of(v, pos + 6, pos + 9)) })
}

/// Value date, booking date, reversal flag, debit/credit mark and where the amount starts.
fn kums_line_head(v: &Vec<char>, start: Option<&Saldo>) -> (r: Option<(String, String, bool, char, usize)>)
    ensures
        ({
            let sd = match start {
                Some(b) => opt_view(b.date),
                None => None,
            };
            match line_dates(v@, sd) {
                None => r is None,
                Some((bdate, next)) => match line_mark(v@, next) {
                    None => r is None,
                    Some((storno, cd, n)) => r matches Some(h) && h.0@ == v@.take(6) && h.1@
                        == bdate && h.2 == storno && h.3 == cd && h.4 == n && n <= v@.len(),
                },
            }
        }),
{
    let ghost sd = match start {
        Some(b) => opt_view(b.date),
        None => None,
    };
    if v.len() < 7 {
        return None;
    }
    let valuta = text_of(v, 0, 6);
    assert(valuta@ =~= v@.take(6));
    let bdate: String;
    let mut next: usize;
    if v[6] > '9' {
        bdate = match start {
            Some(b) => match &b.date {
                Some(d) => d.clone(),
                None => valuta.clone(),
            },
            None => valuta.clone(),
        };
        next = 6;
    } else {
        if v.len() < 10 {
            return None;
        }
        let bmd = text_of(v, 6, 10);
        bdate = corrected_mt940_booking_date(valuta.as_str(), bmd.as_str());
        next = 10;
    }
    assert(line_dates(v@, sd) == Some((bdate@, next as int)));
    let is_storno: bool;
    let cd: char;
    if next >= v.len() {
        return None;
    }
    if v[next] == 'C' || v[next] == 'D' {
        is_storno = false;
        cd = v[next];
        next = next + 1;
    } else {
        if v.len() - next < 2 {
            return None;
        }
        is_storno = true;
        cd = v[next + 1];
        next = next + 2;
    }
    if next >= v.len() {
        return None;
    }
    if v[next] > '9' {
        next = next + 1;
    }
    Some((valuta, bdate, is_storno, cd, next))
}

/// Reads the transaction of a tag 61 text; the running balance (in cents)
/// grows by its amount.
fn kums_line_from_mt940(input: &str, start: Option<&Saldo>, saldo: &mut i64) -> (r: Option<
    GvrKUmsLine,
>)
    ensures
        ({
            let sp = mt940_line(
                input@,
                match start {
                    Some(b) => opt_view(b.date),
                    None => None,
                },
                match start {
                    Some(b) => opt_view(b.value.curr),
                    None => None,
                },
                *old(saldo) as int,
            );
            &&& sp is None ==> r is None && *final(saldo) == *old(saldo)
            &&& sp matches Some(x) ==> (r matches Some(l) && line_is(l, x) && *final(saldo)
                == x.new_saldo)
        }),
{
    let v = chars_of(input);
    let (valuta, bdate, is_storno, cd, next) = match kums_line_head(&v, start) {
        Some(h) => h,
        None => {
            return None;
        },
    };
    let n_pat: Vec<char> = vec!['N'];
    assert(n_pat@ =~= seq!['N']);
    let npos = match find_in(&v, &n_pat, next) {
        Some(p) => p,
        None => {
            return None;
        },
    };
    let raw = replace_char_str(text_of(&v, next, npos).as_str(), ',', '.');
    let negative_mark = if is_storno {
        'C'
    } else {
        'D'
    };
    let amount = if cd == negative_mark {
        let mut a = String::new();
        push_char(&mut a, '-');
        append(&mut a, raw.as_str());
        a
    } else {
        raw
    };
    let cents = match decimal_to_cents(amount.as_str()) {
        Some(c) => c,
        None => {
            return None;
        },
    };
    let new_saldo = match saldo.checked_add(cents) {
        Some(x) => x,
        None => {
            return None;
        },
    };
    let curr: String = match start {
        Some(b) => match &b.value.curr {
            Some(c) => c.clone(),
            None => "EUR".to_owned(),
        },
        None => "EUR".to_owned(),
    };
    *saldo = new_saldo;
    let value = Value { value: cents_to_decimal(cents), curr: Some(curr.clone()) };
    let line_saldo = Saldo {
        value: Value { value: cents_to_decimal(new_saldo), curr: Some(curr) },
        date: Some(bdate.clone()),
        time: None,
    };
    let tail_start = if v.len() - npos >= 4 {
        npos + 4
    } else {
        v.len()
    };
    proof {
        if v.len() - npos < 4 {
            lemma_line_tail_clamped(v@, npos + 4);
        }
    }
    let (customerref, instref, orig_value, charge_value) = kums_line_tail(&v, tail_start);
    Some(
        GvrKUmsLine {
            valuta: Some(valuta),
            bdate: Some(bdate),
            value: Some(value),
            is_storno,
            saldo: Some(line_saldo),
            customerref: Some(customerref),
            instref: Some(instref),
            orig_value,
            charge_value,
            gvcode: None,
            additional: None,
            text: None,
            primanota: None,
            usage: Vec::new(),
            other: None,
            addkey: None,
            is_sepa: false,
            is_camt: false,
            id: None,
            end_to_end_id: None,
            purposecode: None,
            mandate_id: None,
        },
    )
}

proof fn lemma_line_tail_clamped(s: Seq<char>, n: int)
    requires
        n >= s.len(),
    ensures
        line_tail(s, n) == line_tail(s, s.len() as int),
{
    assert(find_from(s, seq!['/', '/'], n) is None);
    assert(find_from(s, seq!['\r', '\n'], n) is None);
    assert(find_from(s, seq!['/', '/'], s.len() as int) is None);
    assert(find_from(s, seq!['\r', '\n'], s.len() as int) is None);
    assert(s.subrange(s.len() as int, s.len() as int) =~= Seq::<char>::empty());
}

proof fn lemma_tagged_clamped(s: Seq<char>, m: Seq<char>, n: int)
    requires
        n >= s.len(),
        m.len() > 0,
    ensures
        tagged_value(s, m, n) is None,
{
}

fn kums_line_tail(v: &Vec<char>, next: usize) -> (r: (
    String,
    String,
    Option<Value>,
    Option<Value>,
))
    requires
        next <= v@.len(),
    ensures
        r.0@ == line_tail(v@, next as int).0,
        r.1@ == line_tail(v@, next as int).1,
        value_opt_is(r.2, line_tail(v@, next as int).2),
        value_opt_is(r.3, line_tail(v@, next as int).3),
{
    let slashes: Vec<char> = vec!['/', '/'];
    let crlf: Vec<char> = vec!['\r', '\n'];
    assert(slashes@ =~= seq!['/', '/']);
    assert(crlf@ =~= seq!['\r', '\n']);
    let customer_end = match find_in(v, &slashes, next) {
        Some(p) => p,
        None => match find_in(v, &crlf, next) {
            Some(p) => p,
            None => v.len(),
        },
    };
    let customerref = text_of(v, next, customer_end);
    let has_inst = v.len() - customer_end >= 2 && v[customer_end] == '/' && v[customer_end + 1]
        == '/';
    proof {
        if v@.len() - customer_end >= 2 {
            assert(has_inst == (v@.subrange(customer_end as int, customer_end + 2) == seq!['/', '/']))
                by {
                if v@[customer_end as int] == '/' && v@[customer_end + 1] == '/' {
                    assert(v@.subrange(customer_end as int, customer_end + 2) =~= seq!['/', '/']);
                }
            }
        }
    }
    let mut instref = String::new();
    let mut after = customer_end;
    if has_inst {
        let inst_start = customer_end + 2;
        let inst_end = match find_in(v, &crlf, inst_start) {
            Some(p) => p,
            None => v.len(),
        };
        instref = text_of(v, inst_start, inst_end);
        if v.len() - inst_end >= 2 {
            after = inst_end + 2;
        } else {
            after = v.len();
        }
        proof {
            let spec_after = inst_end + 2;
            if !(v@.len() - inst_end >= 2) {
                assert(!(0 <= spec_after < v@.len()));
            }
        }
    } else {
        assert(instref@ =~= Seq::<char>::empty());
    }
    if after < v.len() && v[after] == '\r' {
        let tag_start = if v.len() - after >= 2 {
            after + 2
        } else {
            v.len()
        };
        proof {
            if v.len() - after < 2 {
                reveal_strlit("/OCMT/");
                reveal_strlit("/CHGS/");
                lemma_tagged_clamped(v@, "/OCMT/"@, after + 2);
                lemma_tagged_clamped(v@, "/CHGS/"@, after + 2);
                lemma_tagged_clamped(v@, "/OCMT/"@, v@.len() as int);
                lemma_tagged_clamped(v@, "/CHGS/"@, v@.len() as int);
            }
        }
        let orig = kums_optional_tagged_value(v, "/OCMT/", tag_start);
        let charge = kums_optional_tagged_value(v, "/CHGS/", tag_start);
        (customerref, instref, orig, charge)
    } else {
        (customerref, instref, None, None)
    }
}

// ---------------------------------------------------------------------------
// Purpose details (tag 86)
// ---------------------------------------------------------------------------

/// `s` up to its first space.
pub open spec fn before_space(s: Seq<char>) -> Seq<char> {
    match find_from(s, seq![' '], 0) {
        Some(i) => s.take(i),
        None => s,
    }
}

fn trim_after_first_space(input: String) -> (r: String)
    ensures
        r@ == before_space(input@),
{
    let v = chars_of(input.as_str());
    let sp: Vec<char> = vec![' '];
    assert(sp@ =~= seq![' ']);
    match find_in(&v, &sp, 0) {
        Some(i) => text_of(&v, 0, i),
        None => input,
    }
}

pub open spec fn opt_map_before_space(o: Option<Seq<char>>) -> Option<Seq<char>> {
    match o {
        Some(s) => Some(before_space(s)),
        None => None,
    }
}

pub open spec fn or_empty(o: Option<Seq<char>>) -> Seq<char> {
    match o {
        Some(s) => s,
        None => seq![],
    }
}

/// The counterparty of a transaction from the sub-fields `?30` to `?33`;
/// for SEPA transactions the bank code and number are BIC and IBAN.
pub open spec fn other_account_is(r: Option<Konto>, st: Seq<char>, is_sepa: bool) -> bool {
    let blz = opt_map_before_space(crate::swift::multi_tag_value(st, "30"@));
    let number = crate::swift::multi_tag_value(st, "31"@);
    let name = crate::swift::multi_tag_value(st, "32"@);
    let name2 = crate::swift::multi_tag_value(st, "33"@);
    if blz is None && number is None && name is None && name2 is None {
        r is None
    } else {
        r matches Some(k) && opt_view(k.blz) == Some(or_empty(blz)) && opt_view(k.number) == Some(
            or_empty(number),
        ) && opt_view(k.name) == Some(or_empty(name)) && opt_view(k.name2) == name2 && (if is_sepa {
            opt_view(k.bic) == Some(or_empty(blz)) && opt_view(k.iban) == Some(or_empty(number))
        } else {
            k.bic is None && k.iban is None
        }) && k.country is None && k.subnumber is None && k.customer_id is None
            && k.creditorid is None && k.acctype is None && k.account_type is None && opt_view(
            k.curr,
        ) == Some("EUR"@) && k.limit is None && k.allowed_gvs@.len() == 0
    }
}

fn multi(st: &str, tag: &str) -> (r: Option<String>)
    requires
        tag@.len() == 2,
    ensures
        opt_view(r) == crate::swift::multi_tag_value(st@, tag@),
{
    proof {
        crate::text::lemma_find_from_spec(st@, seq!['?'] + tag@, 0);
    }
    crate::swift::get_multi_tag_value(st, tag)
}

fn or_empty_string(o: Option<String>) -> (r: String)
    ensures
        r@ == or_empty(opt_view(o)),
{
    match o {
        Some(s) => s,
        None => String::new(),
    }
}

fn clone_opt(o: &Option<String>) -> (r: Option<String>)
    ensures
        opt_view(r) == opt_view(*o),
{
    match o {
        Some(s) => Some(s.clone()),
        None => None,
    }
}

fn kums_other_account_from_multitag(input: &str, is_sepa: bool) -> (r: Option<Konto>)
    ensures
        other_account_is(r, input@, is_sepa),
{
    proof {
        reveal_strlit("30");
        reveal_strlit("31");
        reveal_strlit("32");
        reveal_strlit("33");
    }
    let blz = match multi(input, "30") {
        Some(b) => Some(trim_after_first_space(b)),
        None => None,
    };
    let number = multi(input, "31");
    let name = multi(input, "32");
    let name2 = multi(input, "33");
    if blz.is_none() && number.is_none() && name.is_none() && name2.is_none() {
        return None;
    }
    let blz_s = or_empty_string(blz);
    let number_s = or_empty_string(number);
    let (bic, iban) = if is_sepa {
        (Some(blz_s.clone()), Some(number_s.clone()))
    } else {
        (None, None)
    };
    Some(
        Konto {
            country: None,
            blz: Some(blz_s),
            number: Some(number_s),
            subnumber: None,
            bic,
            iban,
            customer_id: None,
            name: Some(or_empty_string(name)),
            name2,
            creditorid: None,
            acctype: None,
            account_type: None,
            curr: Some("EUR".to_owned()),
            limit: None,
            allowed_gvs: Vec::new(),
        },
    )
}

/// The purpose lines from sub-fields `?from` to `?to - 1` that are present.
pub open spec fn usage_lines(st: Seq<char>, from: nat, to: nat) -> Seq<Seq<char>>
    decreases to - from,
{
    if from >= to {
        seq![]
    } else {
        (match crate::swift::multi_tag_value(st, decimal(from)) {
            Some(u) => seq![u],
            None => seq![],
        }) + usage_lines(st, from + 1, to)
    }
}

/// Adds the purpose lines of sub-fields `?from` to `?to - 1` (two-digit numbers).
fn add_usage_lines(line: &mut GvrKUmsLine, st: &str, from: u64, to: u64)
    requires
        10 <= from <= to <= 100,
    ensures
        crate::gv_result::status::str_views(final(line).usage@) == crate::gv_result::status::str_views(
            old(line).usage@,
        ) + usage_lines(st@, from as nat, to as nat),
        same_but_usage(*final(line), *old(line)),
    decreases to - from,
{
    if from >= to {
        assert(crate::gv_result::status::str_views(line.usage@) =~= crate::gv_result::status::str_views(
            line.usage@,
        ) + usage_lines(st@, from as nat, to as nat));
        return;
    }
    let tag = crate::text::decimal_string(from);
    proof {
        crate::text::lemma_decimal_digits(from as nat);
        lemma_two_digit_decimal(from as nat);
    }
    let u = multi(st, tag.as_str());
    let ghost before = crate::gv_result::status::str_views(line.usage@);
    let ghost uv = opt_view(u);
    line.add_usage(u);
    assert(crate::gv_result::status::str_views(line.usage@) =~= before + match uv {
        Some(x) => seq![x],
        None => Seq::<Seq<char>>::empty(),
    });
    add_usage_lines(line, st, from + 1, to);
    assert(crate::gv_result::status::str_views(line.usage@) =~= before + usage_lines(
        st@,
        from as nat,
        to as nat,
    ));
}

proof fn lemma_two_digit_decimal(n: nat)
    requires
        10 <= n < 100,
    ensures
        decimal(n).len() == 2,
{
    assert(decimal(n / 10).len() == 1);
}

/// The details of a transaction after its tag 86 text: the business
/// transaction code, and for `999` the packed text as is; otherwise the
/// SEPA flag, booking text, primanota, purpose lines, counterparty and
/// text key.
pub open spec fn multitag_applied(old_line: GvrKUmsLine, new_line: GvrKUmsLine, input: Seq<char>) -> bool {
    if input.len() < 3 {
        new_line == old_line
    } else {
        let gvcode = input.take(3);
        let st = crate::tools::replace_all(input.skip(3), seq!['\r', '\n'], seq![]);
        &&& opt_view(new_line.gvcode) == Some(gvcode)
        &&& new_line.valuta == old_line.valuta && new_line.bdate == old_line.bdate
        &&& new_line.value == old_line.value && new_line.is_storno == old_line.is_storno
        &&& new_line.saldo == old_line.saldo && new_line.customerref == old_line.customerref
        &&& new_line.instref == old_line.instref && new_line.orig_value == old_line.orig_value
        &&& new_line.charge_value == old_line.charge_value && new_line.is_camt == old_line.is_camt
        &&& new_line.id == old_line.id && new_line.end_to_end_id == old_line.end_to_end_id
        &&& new_line.purposecode == old_line.purposecode && new_line.mandate_id
            == old_line.mandate_id
        &&& if gvcode == "999"@ {
            &&& opt_view(new_line.additional) == Some(st)
            &&& new_line.text == old_line.text && new_line.primanota == old_line.primanota
            &&& new_line.usage == old_line.usage && new_line.other == old_line.other
            &&& new_line.addkey == old_line.addkey && new_line.is_sepa == old_line.is_sepa
        } else {
            &&& new_line.additional == old_line.additional
            &&& new_line.is_sepa == (gvcode[0] == '1')
            &&& opt_view(new_line.text) == crate::swift::multi_tag_value(st, "00"@)
            &&& opt_view(new_line.primanota) == crate::swift::multi_tag_value(st, "10"@)
            &&& crate::gv_result::status::str_views(new_line.usage@)
                == crate::gv_result::status::str_views(old_line.usage@) + usage_lines(st, 20, 30)
                + usage_lines(st, 60, 64)
            &&& other_account_is(new_line.other, st, gvcode[0] == '1')
            &&& opt_view(new_line.addkey) == crate::swift::multi_tag_value(st, "34"@)
        }
    }
}

fn kums_apply_mt940_multitag(line: &mut GvrKUmsLine, input: &str)
    ensures
        multitag_applied(*old(line), *final(line), input@),
{
    let v = chars_of(input);
    if v.len() < 3 {
        return;
    }
    let gvcode = text_of(&v, 0, 3);
    let rest = text_of(&v, 3, v.len());
    assert(rest@ =~= input@.skip(3));
    let st_multi = crate::swift::pack_multi(rest.as_str());
    proof {
        reveal_strlit("999");
        reveal_strlit("00");
        reveal_strlit("10");
        reveal_strlit("34");
    }
    line.gvcode = Some(gvcode.clone());
    if crate::text::str_eq(gvcode.as_str(), "999") {
        line.additional = Some(st_multi);
        return;
    }
    line.is_sepa = v[0] == '1';
    line.text = multi(st_multi.as_str(), "00");
    line.primanota = multi(st_multi.as_str(), "10");
    add_usage_lines(line, st_multi.as_str(), 20, 30);
    line.other = kums_other_account_from_multitag(st_multi.as_str(), v[0] == '1');
    line.addkey = multi(st_multi.as_str(), "34");
    add_usage_lines(line, st_multi.as_str(), 60, 64);
}

// ---------------------------------------------------------------------------
// Account (tag 25) and balances (tags 60 and 62)
// ---------------------------------------------------------------------------

/// Where the trailing non-digits (the currency) of an account number start.
pub open spec fn currency_split(s: Seq<char>) -> int
    decreases s.len(),
{
    if s.len() == 0 || is_digit(s.last()) {
        s.len() as int
    } else {
        currency_split(s.drop_last())
    }
}

proof fn lemma_currency_split(s: Seq<char>)
    ensures
        0 <= currency_split(s) <= s.len(),
    decreases s.len(),
{
    if s.len() > 0 && !is_digit(s.last()) {
        lemma_currency_split(s.drop_last());
    }
}

/// The account number and the currency letters that follow it.
fn split_mt940_number_currency(number: &str) -> (r: (String, String))
    ensures
        r.0@ == number@.take(currency_split(number@)),
        r.1@ == number@.skip(currency_split(number@)),
{
    let v = chars_of(number);
    let mut split = v.len();
    proof {
        lemma_currency_split(v@);
    }
    assert(v@.take(split as int) =~= v@);
    while split > 0 && !crate::text::is_digit_char(v[split - 1])
        invariant
            split <= v@.len(),
            currency_split(v@) == currency_split(v@.take(split as int)),
        decreases split,
    {
        assert(v@.take(split as int).drop_last() =~= v@.take(split - 1));
        split -= 1;
    }
    proof {
        if split > 0 {
            assert(v@.take(split as int).last() == v@[split - 1]);
        }
    }
    (text_of(&v, 0, split), text_of(&v, split, v.len()))
}

/// The account of a statement from its tag 25 text `BLZ/number` followed
/// by currency letters; a text without `/` is taken as IBAN.
pub open spec fn account_info_is(k: Konto, info: Option<Seq<char>>) -> bool {
    let slash = match info {
        Some(t) => find_from(t, seq!['/'], 0),
        None => None,
    };
    &&& k.country is None && k.subnumber is None && k.bic is None && k.customer_id is None
    &&& k.name is None && k.name2 is None && k.creditorid is None && k.acctype is None
    &&& k.account_type is None && k.limit is None && k.allowed_gvs@.len() == 0
    &&& match slash {
        None => opt_view(k.blz) == Some(Seq::<char>::empty()) && opt_view(k.number) == Some(
            Seq::<char>::empty(),
        ) && opt_view(k.iban) == info && opt_view(k.curr) == Some(Seq::<char>::empty()),
        Some(p) => {
            let t = info.unwrap();
            let rest = t.skip(p + 1);
            &&& opt_view(k.blz) == Some(t.take(p))
            &&& opt_view(k.number) == Some(rest.take(currency_split(rest)))
            &&& opt_view(k.iban) == Some(Seq::<char>::empty())
            &&& opt_view(k.curr) == Some(rest.skip(currency_split(rest)))
        },
    }
}

fn kums_account_from_info(konto_info: Option<&str>) -> (k: Konto)
    ensures
        account_info_is(
            k,
            match konto_info {
                Some(t) => Some(t@),
                None => None,
            },
        ),
{
    let mut account = Konto {
        country: None,
        blz: Some(String::new()),
        number: Some(String::new()),
        subnumber: None,
        bic: None,
        iban: match konto_info {
            Some(t) => Some(t.to_owned()),
            None => None,
        },
        customer_id: None,
        name: None,
        name2: None,
        creditorid: None,
        acctype: None,
        account_type: None,
        curr: Some(String::new()),
        limit: None,
        allowed_gvs: Vec::new(),
    };
    if let Some(info) = konto_info {
        let v = chars_of(info);
        let slash: Vec<char> = vec!['/'];
        assert(slash@ =~= seq!['/']);
        if let Some(p) = find_in(&v, &slash, 0) {
            let blz = text_of(&v, 0, p);
            let n = v.len();
            assert(p + 1 <= n);
            let rest = text_of(&v, p + 1, n);
            assert(rest@ =~= info@.skip(p + 1));
            let (number, curr) = split_mt940_number_currency(rest.as_str());
            account.blz = Some(blz);
            account.number = Some(number);
            account.iban = Some(String::new());
            account.curr = Some(curr);
        }
    }
    account
}

/// `s` without white space.
pub open spec fn without_ws(s: Seq<char>) -> Seq<char>
    decreases s.len(),
{
    if s.len() == 0 {
        s
    } else if is_ws(s.last()) {
        without_ws(s.drop_last())
    } else {
        without_ws(s.drop_last()).push(s.last())
    }
}

/// A balance from its tag 60/62 text: `C` or `D`, the date `YYMMDD`, the
/// currency and the amount (debits negative).
pub open spec fn saldo_is(b: Option<Saldo>, t: Seq<char>) -> bool {
    if t.len() < 10 {
        b is None
    } else {
        let amount = replace_char(without_ws(t.skip(10)), ',', '.');
        b matches Some(x) && x.value.value@ == (if t.take(1) == seq!['D'] {
            seq!['-'] + amount
        } else {
            amount
        }) && opt_view(x.value.curr) == Some(t.subrange(7, 10)) && opt_view(x.date) == Some(
            t.subrange(1, 7),
        ) && x.time is None
    }
}

fn kums_saldo_from_mt940(input: &str) -> (r: Option<Saldo>)
    ensures
        saldo_is(r, input@),
{
    let v = chars_of(input);
    if v.len() < 10 {
        return None;
    }
    let date = text_of(&v, 1, 7);
    let curr = text_of(&v, 7, 10);
    let mut compact = String::new();
    let mut i: usize = 10;
    assert(v@.skip(10).take(0) =~= Seq::<char>::empty());
    while i < v.len()
        invariant
            10 <= i <= v@.len(),
            compact@ == without_ws(v@.skip(10).take(i - 10)),
        decreases v.len() - i,
    {
        let ghost t = v@.skip(10).take(i - 10 + 1);
        assert(t.drop_last() =~= v@.skip(10).take(i - 10));
        assert(t.last() == v@[i as int]);
        if !crate::text::is_ws_char(v[i]) {
            push_char(&mut compact, v[i]);
        }
        i += 1;
    }
    assert(v@.skip(10).take(v@.len() - 10) =~= v@.skip(10));
    let amount = replace_char_str(compact.as_str(), ',', '.');
    let value = if v[0] == 'D' {
        let mut a = String::new();
        push_char(&mut a, '-');
        append(&mut a, amount.as_str());
        a
    } else {
        amount
    };
    proof {
        if v@[0] == 'D' {
            assert(input@.take(1) =~= seq!['D']);
        } else {
            assert(input@.take(1)[0] != 'D');
        }
    }
    Some(Saldo { value: Value { value, curr: Some(curr) }, date: Some(date), time: None })
}

/// All fields but the balance are equal.
pub open spec fn same_but_saldo(a: GvrKUmsLine, b: GvrKUmsLine) -> bool {
    &&& a.valuta == b.valuta
    &&& a.bdate == b.bdate
    &&& a.value == b.value
    &&& a.is_storno == b.is_storno
    &&& a.customerref == b.customerref
    &&& a.instref == b.instref
    &&& a.orig_value == b.orig_value
    &&& a.charge_value == b.charge_value
    &&& a.gvcode == b.gvcode
    &&& a.additional == b.additional
    &&& a.text == b.text
    &&& a.primanota == b.primanota
    &&& a.usage == b.usage
    &&& a.other == b.other
    &&& a.addkey == b.addkey
    &&& a.is_sepa == b.is_sepa
    &&& a.is_camt == b.is_camt
    &&& a.id == b.id
    &&& a.end_to_end_id == b.end_to_end_id
    &&& a.purposecode == b.purposecode
    &&& a.mandate_id == b.mandate_id
}

// ---------------------------------------------------------------------------
// Days of a statement
// ---------------------------------------------------------------------------

/// One day (one statement block) of an account statement.
#[derive(Debug, Clone)]
pub struct GvrKUmsBTag {
    pub my: Konto,
    pub counter: Option<String>,
    pub start: Option<Saldo>,
    pub start_type: char,
    pub lines: Vec<GvrKUmsLine>,
    pub end: Option<Saldo>,
    pub end_type: char,
}

impl Default for GvrKUmsBTag {
    /// A day without account data, balances or transactions.
    fn default() -> (b: Self)
        ensures
            b.counter is None && b.start is None && b.end is None,
            b.start_type == '\0' && b.end_type == '\0',
            b.lines@.len() == 0,
    {
        GvrKUmsBTag {
            my: Konto::default(),
            counter: None,
            start: None,
            start_type: '\0',
            lines: Vec::new(),
            end: None,
            end_type: '\0',
        }
    }
}

impl GvrKUmsBTag {
    pub fn add_line(&mut self, line: GvrKUmsLine)
        ensures
            final(self).lines@ == old(self).lines@.push(line),
            final(self).my == old(self).my,
            final(self).counter == old(self).counter,
            final(self).start == old(self).start,
            final(self).start_type == old(self).start_type,
            final(self).end == old(self).end,
            final(self).end_type == old(self).end_type,
    {
        self.lines.push(line);
    }
}

/// The cents of an optional value.
pub open spec fn value_cents(v: Option<Value>) -> Option<int> {
    match v {
        Some(x) => decimal_cents(x.value@),
        None => None,
    }
}

/// The balance of a line, in cents.
pub open spec fn line_saldo_cents(l: GvrKUmsLine) -> Option<int> {
    match l.saldo {
        Some(b) => decimal_cents(b.value.value@),
        None => None,
    }
}

/// Lines `0..=j`, walked from `j` down, get the balance `s` and then
/// `s` minus their amount; the walk stops at a line without balance or
/// amount, or where the balance would leave the range of `i64`.
pub open spec fn rebalanced(
    old_lines: Seq<GvrKUmsLine>,
    new_lines: Seq<GvrKUmsLine>,
    j: int,
    s: int,
    curr: Option<Seq<char>>,
) -> bool
    decreases j + 1,
{
    if j < 0 {
        true
    } else if old_lines[j].saldo is None || value_cents(old_lines[j].value) is None {
        forall|i: int| 0 <= i <= j ==> new_lines[i] == old_lines[i]
    } else {
        let ob = old_lines[j].saldo.unwrap();
        &&& same_but_saldo(new_lines[j], old_lines[j])
        &&& new_lines[j].saldo matches Some(b) && b.date == ob.date && b.time == ob.time
            && b.value.value@ == cents_text(s) && opt_view(b.value.curr) == curr
        &&& {
            let s2 = s - value_cents(old_lines[j].value).unwrap();
            if s2 < i64::MIN || s2 > i64::MAX {
                forall|i: int| 0 <= i < j ==> new_lines[i] == old_lines[i]
            } else {
                rebalanced(old_lines, new_lines, j - 1, s2, curr)
            }
        }
    }
}

/// When the last line's balance differs from the closing balance, the
/// balances are recomputed backwards from the closing balance.
pub open spec fn balances_corrected(old_b: GvrKUmsBTag, new_b: GvrKUmsBTag) -> bool {
    &&& new_b.my == old_b.my && new_b.counter == old_b.counter && new_b.start == old_b.start
    &&& new_b.start_type == old_b.start_type && new_b.end == old_b.end
    &&& new_b.end_type == old_b.end_type
    &&& new_b.lines@.len() == old_b.lines@.len()
    &&& {
        let n = old_b.lines@.len();
        let end_cents = match old_b.end {
            Some(e) => decimal_cents(e.value.value@),
            None => None,
        };
        if end_cents is None || n == 0 || line_saldo_cents(old_b.lines@[n - 1]) is None
            || line_saldo_cents(old_b.lines@[n - 1]) == end_cents {
            new_b.lines@ == old_b.lines@
        } else {
            rebalanced(
                old_b.lines@,
                new_b.lines@,
                n - 1,
                end_cents.unwrap(),
                opt_view(old_b.end.unwrap().value.curr),
            )
        }
    }
}

proof fn lemma_rebalanced_unchanged_below(
    old_lines: Seq<GvrKUmsLine>,
    new_lines: Seq<GvrKUmsLine>,
    j: int,
    s: int,
    curr: Option<Seq<char>>,
)
    requires
        0 <= j < old_lines.len(),
        old_lines.len() == new_lines.len(),
        forall|i: int| 0 <= i <= j ==> new_lines[i] == old_lines[i],
        old_lines[j].saldo is None || value_cents(old_lines[j].value) is None,
    ensures
        rebalanced(old_lines, new_lines, j, s, curr),
{
}

fn kums_correct_line_balances(btag: &mut GvrKUmsBTag)
    ensures
        balances_corrected(*old(btag), *final(btag)),
{
    let ghost old_b = *btag;
    let end_cents = match &btag.end {
        Some(e) => decimal_to_cents(e.value.value.as_str()),
        None => None,
    };
    let mut saldo = match end_cents {
        Some(c) => c,
        None => {
            return;
        },
    };
    let n = btag.lines.len();
    if n == 0 {
        return;
    }
    let last = match &btag.lines[n - 1].saldo {
        Some(b) => decimal_to_cents(b.value.value.as_str()),
        None => None,
    };
    match last {
        Some(l) => {
            if l == saldo {
                return;
            }
        },
        None => {
            return;
        },
    }
    let curr: Option<String> = match &btag.end {
        Some(e) => clone_opt(&e.value.curr),
        None => None,
    };
    let ghost curr_v = opt_view(curr);
    let mut lines: Vec<GvrKUmsLine> = Vec::new();
    std::mem::swap(&mut lines, &mut btag.lines);
    let ghost old_lines = lines@;
    let ghost e = saldo as int;
    let mut j: usize = n;
    loop
        invariant_except_break
            forall|i: int| 0 <= i < j ==> lines@[i] == old_lines[i],
            forall|fin: Seq<GvrKUmsLine>|
                #[trigger] rebalanced(old_lines, fin, j - 1, saldo as int, curr_v) && fin.len() == n
                    && (forall|i: int| j <= i < n ==> fin[i] == lines@[i]) ==> rebalanced(
                    old_lines,
                    fin,
                    n - 1,
                    e,
                    curr_v,
                ),
        invariant
            j <= n,
            n == old_lines.len(),
            lines@.len() == n,
            curr_v == opt_view(curr),
        ensures
            lines@.len() == n,
            rebalanced(old_lines, lines@, n - 1, e, curr_v),
        decreases j,
    {
        if j == 0 {
            assert(rebalanced(old_lines, lines@, -1, saldo as int, curr_v));
            break;
        }
        let k = j - 1;
        let line_value = match &lines[k].value {
            Some(v) => decimal_to_cents(v.value.as_str()),
            None => None,
        };
        if lines[k].saldo.is_none() || line_value.is_none() {
            proof {
                lemma_rebalanced_unchanged_below(old_lines, lines@, k as int, saldo as int, curr_v);
            }
            break;
        }
        let ghost before = lines@;
        let mut line = lines.remove(k);
        let old_saldo = match line.saldo {
            Some(b) => b,
            None => {
                lines.insert(k, line);
                break;
            },
        };
        line.saldo = Some(
            Saldo {
                value: Value { value: cents_to_decimal(saldo), curr: clone_opt(&curr) },
                date: old_saldo.date,
                time: old_saldo.time,
            },
        );
        let ghost updated = line;
        lines.insert(k, line);
        assert(lines@ =~= before.update(k as int, updated));
        assert(before[k as int] == old_lines[k as int]);
        assert(same_but_saldo(updated, old_lines[k as int]));
        assert(old_lines[k as int].saldo == Some(old_saldo));
        assert(value_cents(old_lines[k as int].value) == Some(line_value.unwrap() as int));
        assert(updated.saldo is Some);
        assert(updated.saldo.unwrap().date == old_saldo.date);
        assert(updated.saldo.unwrap().time == old_saldo.time);
        assert(updated.saldo.unwrap().value.value@ == cents_text(saldo as int));
        assert(opt_view(updated.saldo.unwrap().value.curr) == curr_v);
        let lv = match line_value {
            Some(x) => x,
            None => 0,
        };
        match saldo.checked_sub(lv) {
            Some(x) => {
                let ghost prev = saldo;
                saldo = x;
                assert forall|fin: Seq<GvrKUmsLine>|
                    #[trigger] rebalanced(old_lines, fin, k - 1, saldo as int, curr_v) && fin.len()
                        == n && (forall|i: int| k <= i < n ==> fin[i] == lines@[i]) implies rebalanced(
                    old_lines,
                    fin,
                    n - 1,
                    e,
                    curr_v,
                ) by {
                    assert(rebalanced(old_lines, fin, k as int, prev as int, curr_v));
                }
                j = k;
            },
            None => {
                assert(rebalanced(old_lines, lines@, k as int, saldo as int, curr_v));
                break;
            },
        }
    }
    btag.lines = lines;
}

/// The values of the successive occurrences of a tag from `from` on, each
/// up to the next tag marker; the walk ends after an occurrence that no
/// tag marker follows.
pub open spec fn tag_values(s: Seq<char>, tag: Seq<char>, from: int) -> Seq<Seq<char>>
    decreases s.len() + 1 - from,
{
    match crate::swift::tag_occurrence(s, tag, from) {
        None => seq![],
        Some(vs) => match crate::swift::next_tag_marker(s, vs) {
            Some(n) => if from < n <= s.len() {
                seq![s.subrange(vs, n)] + tag_values(s, tag, n)
            } else {
                seq![]
            },
            None => seq![crate::swift::without_line_noise(s.skip(vs))],
        },
    }
}

/// The line holds a transaction and, when there is a tag 86 text, its details.
pub open spec fn line_with_details(l: GvrKUmsLine, sp: LineSpec, details: Option<Seq<char>>) -> bool {
    match details {
        None => line_is(l, sp),
        Some(t) => exists|l0: GvrKUmsLine| line_is(l0, sp) && multitag_applied(l0, l, t),
    }
}

/// The lines read from the tag 61 texts from position `i` on, with the
/// running balance `saldo`; texts that are no transaction are skipped.
pub open spec fn day_lines_ok(
    block: Seq<char>,
    occs: Seq<Seq<char>>,
    i: int,
    lines: Seq<GvrKUmsLine>,
    start_date: Option<Seq<char>>,
    start_curr: Option<Seq<char>>,
    saldo: int,
) -> bool
    decreases occs.len() - i,
{
    if i < 0 || i >= occs.len() {
        lines.len() == 0
    } else {
        match mt940_line(occs[i], start_date, start_curr, saldo) {
            None => day_lines_ok(block, occs, i + 1, lines, start_date, start_curr, saldo),
            Some(sp) => lines.len() > 0 && line_with_details(
                lines[0],
                sp,
                crate::swift::tag_value_from(block, "86"@, 0, i as nat),
            ) && day_lines_ok(
                block,
                occs,
                i + 1,
                lines.skip(1),
                start_date,
                start_curr,
                sp.new_saldo,
            ),
        }
    }
}

/// The opening or closing balance of a day: from tag `final_tag`, else
/// from tag `interim_tag`.
pub open spec fn balance_from(
    block: Seq<char>,
    final_tag: Seq<char>,
    interim_tag: Seq<char>,
    b: Option<Saldo>,
    kind: char,
    default_kind: char,
) -> bool {
    match crate::swift::tag_value_from(block, final_tag, 0, 0) {
        Some(t) => saldo_is(b, t) && kind == 'F',
        None => match crate::swift::tag_value_from(block, interim_tag, 0, 0) {
            Some(t) => saldo_is(b, t) && kind == 'M',
            None => b is None && kind == default_kind,
        },
    }
}

/// A day as read from its block, before the balances are corrected.
pub open spec fn day_read(b: GvrKUmsBTag, block: Seq<char>) -> bool {
    &&& account_info_is(b.my, crate::swift::tag_value_from(block, "25"@, 0, 0))
    &&& opt_view(b.counter) == crate::swift::tag_value_from(block, "28C"@, 0, 0)
    &&& balance_from(block, "60F"@, "60M"@, b.start, b.start_type, '\0')
    &&& balance_from(block, "62F"@, "62M"@, b.end, b.end_type, 'F')
    &&& day_lines_ok(
        block,
        tag_values(block, "61"@, 0),
        0,
        b.lines@,
        match b.start {
            Some(x) => opt_view(x.date),
            None => None,
        },
        match b.start {
            Some(x) => opt_view(x.value.curr),
            None => None,
        },
        match b.start {
            Some(x) => match decimal_cents(x.value.value@) {
                Some(c) => c,
                None => 0,
            },
            None => 0,
        },
    )
}

/// A day as read from its block, with corrected balances.
pub open spec fn day_is(b: GvrKUmsBTag, block: Seq<char>) -> bool {
    exists|b0: GvrKUmsBTag| day_read(b0, block) && balances_corrected(b0, b)
}

fn tag_value(block: &str, tag: &str) -> (r: Option<String>)
    ensures
        opt_view(r) == crate::swift::tag_value_from(block@, tag@, 0, 0),
{
    crate::swift::get_tag_value(block, tag, 0)
}

/// Reads the balance of tag `final_tag`, else of `interim_tag`.
fn read_balance(block: &str, final_tag: &str, interim_tag: &str, default_kind: char) -> (r: (
    Option<Saldo>,
    char,
))
    ensures
        balance_from(block@, final_tag@, interim_tag@, r.0, r.1, default_kind),
{
    match tag_value(block, final_tag) {
        Some(t) => (kums_saldo_from_mt940(t.as_str()), 'F'),
        None => match tag_value(block, interim_tag) {
            Some(t) => (kums_saldo_from_mt940(t.as_str()), 'M'),
            None => (None, default_kind),
        },
    }
}

/// Reads the transactions of a block.
#[verifier::rlimit(60)]
fn read_day_lines(block: &str, start: &Option<Saldo>) -> (lines: Vec<GvrKUmsLine>)
    ensures
        day_lines_ok(
            block@,
            tag_values(block@, "61"@, 0),
            0,
            lines@,
            match *start {
                Some(x) => opt_view(x.date),
                None => None,
            },
            match *start {
                Some(x) => opt_view(x.value.curr),
                None => None,
            },
            match *start {
                Some(x) => match decimal_cents(x.value.value@) {
                    Some(c) => c,
                    None => 0,
                },
                None => 0,
            },
        ),
{
    proof {
        reveal_strlit("61");
        reveal_strlit("86");
    }
    let ghost sd = start_date_of(*start);
    let ghost sc = start_curr_of(*start);
    let mut saldo: i64 = match start {
        Some(x) => match decimal_to_cents(x.value.value.as_str()) {
            Some(c) => c,
            None => 0,
        },
        None => 0,
    };
    let ghost saldo0 = saldo as int;
    let start_ref: Option<&Saldo> = match start {
        Some(x) => Some(x),
        None => None,
    };
    let v = chars_of(block);
    let t61 = lit_chars("61");
    let normal = crate::swift::tag_pattern_exec(t61.as_slice(), false);
    let broken = crate::swift::tag_pattern_exec(t61.as_slice(), true);
    let ghost occs = tag_values(block@, "61"@, 0);
    let mut lines: Vec<GvrKUmsLine> = Vec::new();
    let mut endpos: usize = 0;
    let mut c: usize = 0;
    let vlen = v.len();
    loop
        invariant_except_break
            forall|rest: Seq<GvrKUmsLine>|
                #[trigger] day_lines_ok(block@, occs, c as int, rest, sd, sc, saldo as int)
                    ==> day_lines_ok(block@, occs, 0, lines@ + rest, sd, sc, saldo0),
        invariant
            v@ == block@,
            t61@ == "61"@,
            normal@ == crate::swift::tag_pattern("61"@, false),
            broken@ == crate::swift::tag_pattern("61"@, true),
            occs == tag_values(block@, "61"@, 0),
            sd == match start_ref {
                Some(b) => opt_view(b.date),
                None => None,
            },
            sc == match start_ref {
                Some(b) => opt_view(b.value.curr),
                None => None,
            },
            endpos <= v@.len(),
            c <= occs.len(),
            occs.skip(c as int) == tag_values(block@, "61"@, endpos as int),
            vlen == v@.len(),
        ensures
            day_lines_ok(block@, occs, 0, lines@, sd, sc, saldo0),
        decreases v@.len() + 1 - endpos,
    {
        let value_start = match crate::swift::tag_occurrence_exec(&v, &normal, &broken, Ghost("61"@), endpos) {
            Some(vs) => vs,
            None => {
                proof {
                    assert(tag_values(block@, "61"@, endpos as int).len() == 0);
                    assert(occs.skip(c as int).len() == 0);
                    assert(day_lines_ok(block@, occs, c as int, seq![], sd, sc, saldo as int));
                    assert(lines@ + seq![] =~= lines@);
                }
                break;
            },
        };
        let next = crate::swift::next_tag_marker_exec(v.as_slice(), value_start);
        proof {
            crate::swift::lemma_next_marker_bounds(v@, value_start as int);
        }
        let text = match next {
            Some(n) => text_of(&v, value_start, n),
            None => {
                let rest = slice_chars(v.as_slice(), value_start, v.len());
                crate::swift::remove_final_line_noise(rest.as_slice())
            },
        };
        proof {
            if next is None {
                assert(slice_chars_view(v@, value_start as int) =~= v@.skip(value_start as int));
            }
            let tvs = tag_values(block@, "61"@, endpos as int);
            match next {
                Some(n) => {
                    assert(tvs == seq![text@] + tag_values(block@, "61"@, n as int));
                },
                None => {
                    assert(tvs == seq![text@]);
                },
            }
            assert(tvs[0] == text@);
            assert(occs.skip(c as int)[0] == occs[c as int]);
            assert(occs[c as int] == text@);
        }
        let ghost saldo_before = saldo as int;
        let ghost lines_before = lines@;
        let parsed = read_one_line(block, text.as_str(), start_ref, &mut saldo, c);
        match parsed {
            Some(line) => {
                lines.push(line);
                proof {
                    assert forall|rest: Seq<GvrKUmsLine>|
                        #[trigger] day_lines_ok(block@, occs, c + 1, rest, sd, sc, saldo as int) implies day_lines_ok(
                        block@,
                        occs,
                        0,
                        lines@ + rest,
                        sd,
                        sc,
                        saldo0,
                    ) by {
                        lemma_day_step_some(block@, occs, c as int, lines@.last(), rest, sd, sc, saldo_before);
                        assert(lines_before + (seq![lines@.last()] + rest) =~= lines@ + rest);
                    }
                }
            },
            None => {
                proof {
                    assert forall|rest: Seq<GvrKUmsLine>|
                        #[trigger] day_lines_ok(block@, occs, c + 1, rest, sd, sc, saldo as int) implies day_lines_ok(
                        block@,
                        occs,
                        0,
                        lines@ + rest,
                        sd,
                        sc,
                        saldo0,
                    ) by {
                        assert(day_lines_ok(block@, occs, c as int, rest, sd, sc, saldo_before));
                    }
                }
            },
        }
        proof {
            lemma_tag_values_len(block@, "61"@, endpos as int);
            lemma_tag_values_len(block@, "61"@, 0);
        }
        match next {
            Some(n) => {
                proof {
                    assert(occs.skip(c + 1) =~= occs.skip(c as int).skip(1));
                }
                endpos = n;
                c = c + 1;
            },
            None => {
                proof {
                    assert(occs.skip(c as int).len() == 1);
                    assert(c + 1 == occs.len());
                    assert(day_lines_ok(block@, occs, c + 1, seq![], sd, sc, saldo as int));
                    assert(lines@ + seq![] =~= lines@);
                }
                break;
            },
        }
    }
    lines
}

proof fn lemma_day_step_some(
    block: Seq<char>,
    occs: Seq<Seq<char>>,
    c: int,
    l: GvrKUmsLine,
    rest: Seq<GvrKUmsLine>,
    sd: Option<Seq<char>>,
    sc: Option<Seq<char>>,
    s_old: int,
)
    requires
        0 <= c < occs.len(),
        mt940_line(occs[c], sd, sc, s_old) is Some,
        line_with_details(
            l,
            mt940_line(occs[c], sd, sc, s_old).unwrap(),
            crate::swift::tag_value_from(block, "86"@, 0, c as nat),
        ),
        day_lines_ok(block, occs, c + 1, rest, sd, sc, mt940_line(occs[c], sd, sc, s_old).unwrap().new_saldo),
    ensures
        day_lines_ok(block, occs, c, seq![l] + rest, sd, sc, s_old),
{
    assert((seq![l] + rest).skip(1) =~= rest);
}

proof fn lemma_tag_values_len(s: Seq<char>, tag: Seq<char>, from: int)
    requires
        0 <= from,
    ensures
        tag_values(s, tag, from).len() <= if from <= s.len() { s.len() - from } else { 0 },
    decreases s.len() + 1 - from,
{
    crate::text::lemma_find_from_spec(s, crate::swift::tag_pattern(tag, false), from);
    crate::text::lemma_find_from_spec(s, crate::swift::tag_pattern(tag, true), from);
    match crate::swift::tag_occurrence(s, tag, from) {
        None => {
            assert(tag_values(s, tag, from).len() == 0);
        },
        Some(vs) => {
            assert(from < vs <= s.len());
            match crate::swift::next_tag_marker(s, vs) {
                Some(n) => {
                    if from < n <= s.len() {
                        lemma_tag_values_len(s, tag, n);
                        assert(tag_values(s, tag, from) == seq![s.subrange(vs, n)] + tag_values(s, tag, n));
                    } else {
                        assert(tag_values(s, tag, from).len() == 0);
                    }
                },
                None => {
                    assert(tag_values(s, tag, from).len() == 1);
                },
            }
        },
    }
}

/// Reads the transaction of one tag 61 text and adds the details of tag 86
/// occurrence `c`.
fn read_one_line(block: &str, text: &str, start: Option<&Saldo>, saldo: &mut i64, c: usize) -> (r: Option<GvrKUmsLine>)
    ensures
        ({
            let sd = match start {
                Some(b) => opt_view(b.date),
                None => None,
            };
            let sc = match start {
                Some(b) => opt_view(b.value.curr),
                None => None,
            };
            match mt940_line(text@, sd, sc, *old(saldo) as int) {
                None => r is None && *final(saldo) == *old(saldo),
                Some(sp) => r matches Some(l) && line_with_details(
                    l,
                    sp,
                    crate::swift::tag_value_from(block@, "86"@, 0, c as nat),
                ) && *final(saldo) == sp.new_saldo,
            }
        }),
{
    proof {
        reveal_strlit("86");
    }
    match kums_line_from_mt940(text, start, saldo) {
        Some(mut line) => {
            let ghost l0 = line;
            match crate::swift::get_tag_value(block, "86", c) {
                Some(t) => {
                    kums_apply_mt940_multitag(&mut line, t.as_str());
                    assert(multitag_applied(l0, line, t@));
                },
                None => {},
            }
            Some(line)
        },
        None => None,
    }
}

pub open spec fn start_date_of(o: Option<Saldo>) -> Option<Seq<char>> {
    match o {
        Some(x) => opt_view(x.date),
        None => None,
    }
}

pub open spec fn start_curr_of(o: Option<Saldo>) -> Option<Seq<char>> {
    match o {
        Some(x) => opt_view(x.value.curr),
        None => None,
    }
}

pub open spec fn slice_chars_view(s: Seq<char>, from: int) -> Seq<char> {
    s.subrange(from, s.len() as int)
}

fn kums_btag_from_block(block: &str) -> (b: GvrKUmsBTag)
    requires
        !tag_ends_open(block@, "61"@, 0),
    ensures
        day_is(b, block@),
{
    proof {
        reveal_strlit("25");
        reveal_strlit("28C");
        reveal_strlit("60F");
        reveal_strlit("60M");
        reveal_strlit("62F");
        reveal_strlit("62M");
    }
    let info = tag_value(block, "25");
    let my = match &info {
        Some(t) => kums_account_from_info(Some(t.as_str())),
        None => kums_account_from_info(None),
    };
    let counter = tag_value(block, "28C");
    let (start, start_type) = read_balance(block, "60F", "60M", '\0');
    let lines = read_day_lines(block, &start);
    let (end, end_type) = read_balance(block, "62F", "62M", 'F');
    let mut b = GvrKUmsBTag { my, counter, start, start_type, lines, end, end_type };
    let ghost b0 = b;
    assert(day_read(b0, block@));
    kums_correct_line_balances(&mut b);
    assert(day_read(b0, block@) && balances_corrected(b0, b));
    b
}

/// The statement blocks of a text: each up to the next `\r\n:20:`.
pub open spec fn statement_blocks(s: Seq<char>) -> Seq<Seq<char>>
    decreases s.len(),
{
    if s.len() == 0 {
        seq![]
    } else {
        match crate::swift::one_block(s) {
            None => seq![],
            Some(b) => if 0 < b.len() <= s.len() {
                seq![b] + statement_blocks(s.skip(b.len() as int))
            } else {
                seq![]
            },
        }
    }
}

/// The occurrences of a tag from `from` on reach one that no further tag
/// follows: reading the tag's values one by one by their number then
/// gives that last value again for every further number, without end.
pub open spec fn tag_ends_open(s: Seq<char>, tag: Seq<char>, from: int) -> bool
    decreases s.len() + 1 - from,
{
    match crate::swift::tag_occurrence(s, tag, from) {
        None => false,
        Some(vs) => match crate::swift::next_tag_marker(s, vs) {
            Some(n) => if from < n <= s.len() {
                tag_ends_open(s, tag, n)
            } else {
                false
            },
            None => true,
        },
    }
}

/// In every statement block of the text a further tag follows each
/// transaction (tag 61), so that reading the block's transactions ends.
pub open spec fn mt94x_readable(text: Seq<char>) -> bool {
    forall|i: int| 0 <= i < statement_blocks(text).len() ==> !tag_ends_open(#[trigger] statement_blocks(text)[i], "61"@, 0)
}

/// The days are the earlier ones followed by one per statement block of `text`.
pub open spec fn days_added(old_days: Seq<GvrKUmsBTag>, new_days: Seq<GvrKUmsBTag>, text: Seq<char>) -> bool {
    let blocks = statement_blocks(text);
    &&& new_days.len() == old_days.len() + blocks.len()
    &&& new_days.take(old_days.len() as int) == old_days
    &&& forall|i: int| 0 <= i < blocks.len() ==> day_is(#[trigger] new_days[old_days.len() + i], blocks[i])
}

proof fn lemma_one_block_len(s: Seq<char>)
    requires
        s.len() > 0,
    ensures
        crate::swift::one_block(s) matches Some(b) && 0 < b.len() <= s.len(),
{
    crate::text::lemma_find_from_spec(s, crate::swift::block_start_marker(), 1);
}

/// Whether the transactions (tag 61) of a block end in one that no further
/// tag follows.
fn tx_tags_end_open(block: &str) -> (b: bool)
    ensures
        b == tag_ends_open(block@, "61"@, 0),
{
    proof {
        reveal_strlit("61");
    }
    let v = chars_of(block);
    let t61 = lit_chars("61");
    let normal = crate::swift::tag_pattern_exec(t61.as_slice(), false);
    let broken = crate::swift::tag_pattern_exec(t61.as_slice(), true);
    let mut endpos: usize = 0;
    loop
        invariant
            v@ == block@,
            t61@ == "61"@,
            normal@ == crate::swift::tag_pattern("61"@, false),
            broken@ == crate::swift::tag_pattern("61"@, true),
            endpos <= v@.len(),
            tag_ends_open(block@, "61"@, 0) == tag_ends_open(block@, "61"@, endpos as int),
        decreases v@.len() + 1 - endpos,
    {
        let value_start = match crate::swift::tag_occurrence_exec(&v, &normal, &broken, Ghost("61"@), endpos) {
            Some(vs) => vs,
            None => {
                return false;
            },
        };
        proof {
            crate::swift::lemma_next_marker_bounds(v@, value_start as int);
        }
        match crate::swift::next_tag_marker_exec(v.as_slice(), value_start) {
            None => {
                return true;
            },
            Some(n) => {
                if !(endpos < n && n <= v.len()) {
                    return false;
                }
                endpos = n;
            },
        }
    }
}

/// Whether reading the text's statement blocks ends (see `mt94x_readable`).
pub fn mt94x_text_readable(text: &str) -> (b: bool)
    ensures
        b == mt94x_readable(text@),
{
    let v = chars_of(text);
    let ghost t = v@;
    let mut pos: usize = 0;
    assert(t.skip(0) =~= t);
    assert(statement_blocks(t).take(0) + statement_blocks(t) =~= statement_blocks(t));
    while pos < v.len()
        invariant
            v@ == t,
            t == text@,
            pos <= v@.len(),
            statement_blocks(t) == statement_blocks(t).take(
                statement_blocks(t).len() - statement_blocks(t.skip(pos as int)).len(),
            ) + statement_blocks(t.skip(pos as int)),
            statement_blocks(t.skip(pos as int)).len() <= statement_blocks(t).len(),
            forall|i: int|
                0 <= i < statement_blocks(t).len() - statement_blocks(t.skip(pos as int)).len() ==> !tag_ends_open(
                    #[trigger] statement_blocks(t)[i],
                    "61"@,
                    0,
                ),
        decreases v@.len() - pos,
    {
        let cur_chars = slice_chars(v.as_slice(), pos, v.len());
        let cur = string_of(cur_chars.as_slice());
        assert(cur@ =~= t.skip(pos as int));
        proof {
            lemma_one_block_len(cur@);
        }
        let block = match crate::swift::get_one_block(cur.as_str()) {
            Some(b) => b,
            None => {
                proof {
                    assert(false);
                }
                String::new()
            },
        };
        let blen = crate::text::char_len(block.as_str());
        let ghost done = statement_blocks(t).len() - statement_blocks(t.skip(pos as int)).len();
        proof {
            assert(statement_blocks(cur@) == seq![block@] + statement_blocks(cur@.skip(blen as int)));
            assert(cur@.skip(blen as int) =~= t.skip(pos + blen));
            assert(statement_blocks(t)[done] == block@);
        }
        if tx_tags_end_open(block.as_str()) {
            return false;
        }
        proof {
            let all = statement_blocks(t);
            assert(all =~= all.take(done + 1) + statement_blocks(t.skip(pos + blen)));
        }
        pos = pos + blen;
    }
    proof {
        assert(t.skip(pos as int).len() == 0);
        assert(statement_blocks(t).take(statement_blocks(t).len() as int) =~= statement_blocks(t));
    }
    true
}

/// Splits the text into statement blocks and reads a day from each; what
/// stays is the part that is no block (nothing, for a text that is not empty).
fn parse_mt94x(buffer: &mut String, tags: &mut Vec<GvrKUmsBTag>, rest: &mut String)
    requires
        mt94x_readable(old(buffer)@),
    ensures
        old(buffer)@.len() == 0 ==> *final(buffer) == *old(buffer) && *final(tags) == *old(tags)
            && *final(rest) == *old(rest),
        old(buffer)@.len() > 0 ==> final(buffer)@.len() == 0 && final(rest)@.len() == 0
            && days_added(old(tags)@, final(tags)@, old(buffer)@),
{
    let v = chars_of(buffer.as_str());
    if v.len() == 0 {
        return;
    }
    let ghost text = v@;
    let ghost start_days = tags@;
    let mut pos: usize = 0;
    assert(text.skip(0) =~= text);
    while pos < v.len()
        invariant
            v@ == text,
            mt94x_readable(text),
            pos <= v@.len(),
            tags@.len() == start_days.len() + statement_blocks(text).len() - statement_blocks(
                text.skip(pos as int),
            ).len(),
            statement_blocks(text) == statement_blocks(text).take(
                statement_blocks(text).len() - statement_blocks(text.skip(pos as int)).len(),
            ) + statement_blocks(text.skip(pos as int)),
            statement_blocks(text.skip(pos as int)).len() <= statement_blocks(text).len(),
            tags@.take(start_days.len() as int) == start_days,
            tags@.len() >= start_days.len(),
            forall|i: int|
                0 <= i < tags@.len() - start_days.len() ==> day_is(
                    #[trigger] tags@[start_days.len() + i],
                    statement_blocks(text)[i],
                ),
        decreases v@.len() - pos,
    {
        let cur_chars = slice_chars(v.as_slice(), pos, v.len());
        let cur = string_of(cur_chars.as_slice());
        assert(cur@ =~= text.skip(pos as int));
        proof {
            lemma_one_block_len(cur@);
        }
        let block = match crate::swift::get_one_block(cur.as_str()) {
            Some(b) => b,
            None => {
                proof {
                    assert(false);
                }
                String::new()
            },
        };
        let blen = crate::text::char_len(block.as_str());
        let ghost done = statement_blocks(text).len() - statement_blocks(text.skip(pos as int)).len();
        proof {
            assert(statement_blocks(cur@) == seq![block@] + statement_blocks(cur@.skip(blen as int)));
            assert(cur@.skip(blen as int) =~= text.skip(pos + blen));
            assert(statement_blocks(text)[done] == block@);
            assert(!tag_ends_open(statement_blocks(text)[done], "61"@, 0));
        }
        let day = kums_btag_from_block(block.as_str());
        let ghost before = tags@;
        tags.push(day);
        proof {
            assert(tags@.take(start_days.len() as int) =~= start_days);
            assert forall|i: int|
                0 <= i < tags@.len() - start_days.len() implies day_is(
                    #[trigger] tags@[start_days.len() + i],
                    statement_blocks(text)[i],
                ) by {
                if i < before.len() - start_days.len() {
                    assert(tags@[start_days.len() + i] == before[start_days.len() + i]);
                }
            }
            let all = statement_blocks(text);
            assert(all =~= all.take(done + 1) + statement_blocks(text.skip(pos + blen)));
        }
        pos = pos + blen;
    }
    proof {
        assert(text.skip(pos as int).len() == 0);
        assert(statement_blocks(text).take(statement_blocks(text).len() as int) =~= statement_blocks(text));
    }
    *buffer = String::new();
    *rest = String::new();
}

// ---------------------------------------------------------------------------
// Statements
// ---------------------------------------------------------------------------

/// An account statement: MT940 text of booked and MT942 text of not yet
/// booked transactions, read into days when first asked for.
pub struct GvrKUms {
    buffer_mt940: String,
    buffer_mt942: String,
    tage_mt940: Vec<GvrKUmsBTag>,
    tage_mt942: Vec<GvrKUmsBTag>,
    pub camt_booked: Vec<String>,
    pub camt_not_booked: Vec<String>,
    parsed: bool,
    pub rest_mt940: String,
    pub rest_mt942: String,
}

impl GvrKUms {
    /// The MT940 text not read yet.
    pub closed spec fn pending_mt940(&self) -> Seq<char> {
        self.buffer_mt940@
    }

    /// The MT942 text not read yet.
    pub closed spec fn pending_mt942(&self) -> Seq<char> {
        self.buffer_mt942@
    }

    /// The days of booked transactions read so far.
    pub closed spec fn days_mt940(&self) -> Seq<GvrKUmsBTag> {
        self.tage_mt940@
    }

    /// The days of not yet booked transactions read so far.
    pub closed spec fn days_mt942(&self) -> Seq<GvrKUmsBTag> {
        self.tage_mt942@
    }

    /// Whether the texts have been read.
    pub closed spec fn is_parsed(&self) -> bool {
        self.parsed
    }

    /// Whether there is no CAMT data and nothing was left over.
    pub closed spec fn nothing_else(&self) -> bool {
        self.camt_booked@.len() == 0 && self.camt_not_booked@.len() == 0 && self.rest_mt940@.len()
            == 0 && self.rest_mt942@.len() == 0
    }

    /// What reading the texts makes of a statement.
    pub open spec fn read_from(&self, old: &GvrKUms) -> bool {
        if old.is_parsed() {
            self.is_parsed() == old.is_parsed() && self.pending_mt940() == old.pending_mt940()
                && self.pending_mt942() == old.pending_mt942() && self.days_mt940()
                == old.days_mt940() && self.days_mt942() == old.days_mt942()
        } else {
            &&& self.is_parsed()
            &&& (old.pending_mt940().len() == 0 ==> self.days_mt940() == old.days_mt940())
            &&& (old.pending_mt940().len() > 0 ==> days_added(
                old.days_mt940(),
                self.days_mt940(),
                old.pending_mt940(),
            ) && self.pending_mt940().len() == 0)
            &&& (old.pending_mt942().len() == 0 ==> self.days_mt942() == old.days_mt942())
            &&& (old.pending_mt942().len() > 0 ==> days_added(
                old.days_mt942(),
                self.days_mt942(),
                old.pending_mt942(),
            ) && self.pending_mt942().len() == 0)
        }
    }

    pub fn new() -> (k: Self)
        ensures
            k.pending_mt940().len() == 0,
            k.pending_mt942().len() == 0,
            k.days_mt940().len() == 0,
            k.days_mt942().len() == 0,
            !k.is_parsed(),
            k.nothing_else(),
    {
        GvrKUms {
            buffer_mt940: String::new(),
            buffer_mt942: String::new(),
            tage_mt940: Vec::new(),
            tage_mt942: Vec::new(),
            camt_booked: Vec::new(),
            camt_not_booked: Vec::new(),
            parsed: false,
            rest_mt940: String::new(),
            rest_mt942: String::new(),
        }
    }

    /// The booked CAMT documents.
    pub closed spec fn camt_booked_docs(&self) -> Seq<Seq<char>> {
        self.camt_booked@.map_values(|d: String| d@)
    }

    /// The CAMT documents of not yet booked transactions.
    pub closed spec fn camt_not_booked_docs(&self) -> Seq<Seq<char>> {
        self.camt_not_booked@.map_values(|d: String| d@)
    }

    /// Whether no text was left over after reading.
    pub closed spec fn no_rest(&self) -> bool {
        self.rest_mt940@.len() == 0 && self.rest_mt942@.len() == 0
    }

    /// Whether there is no CAMT data and nothing was left over, in terms of
    /// the documents.
    pub proof fn lemma_nothing_else(&self)
        ensures
            self.nothing_else() <==> (self.camt_booked_docs().len() == 0 && self.camt_not_booked_docs().len() == 0
                && self.no_rest()),
    {
    }

    /// Adds a booked CAMT document.
    pub fn push_camt_booked(&mut self, doc: String)
        ensures
            final(self).camt_booked_docs() == old(self).camt_booked_docs().push(doc@),
            final(self).camt_not_booked_docs() == old(self).camt_not_booked_docs(),
            final(self).pending_mt940() == old(self).pending_mt940(),
            final(self).pending_mt942() == old(self).pending_mt942(),
            final(self).days_mt940() == old(self).days_mt940(),
            final(self).days_mt942() == old(self).days_mt942(),
            final(self).is_parsed() == old(self).is_parsed(),
            final(self).no_rest() == old(self).no_rest(),
    {
        self.camt_booked.push(doc);
        assert(self.camt_booked_docs() =~= old(self).camt_booked_docs().push(doc@));
    }

    /// Adds a CAMT document of not yet booked transactions.
    pub fn push_camt_not_booked(&mut self, doc: String)
        ensures
            final(self).camt_not_booked_docs() == old(self).camt_not_booked_docs().push(doc@),
            final(self).camt_booked_docs() == old(self).camt_booked_docs(),
            final(self).pending_mt940() == old(self).pending_mt940(),
            final(self).pending_mt942() == old(self).pending_mt942(),
            final(self).days_mt940() == old(self).days_mt940(),
            final(self).days_mt942() == old(self).days_mt942(),
            final(self).is_parsed() == old(self).is_parsed(),
            final(self).no_rest() == old(self).no_rest(),
    {
        self.camt_not_booked.push(doc);
        assert(self.camt_not_booked_docs() =~= old(self).camt_not_booked_docs().push(doc@));
    }

    /// Adds MT940 text to be read.
    pub fn append_mt940_data(&mut self, data: &str)
        ensures
            final(self).pending_mt940() == old(self).pending_mt940() + data@,
            final(self).pending_mt942() == old(self).pending_mt942(),
            final(self).days_mt940() == old(self).days_mt940(),
            final(self).days_mt942() == old(self).days_mt942(),
            final(self).is_parsed() == old(self).is_parsed(),
            final(self).nothing_else() == old(self).nothing_else(),
    {
        append(&mut self.buffer_mt940, data);
    }

    /// Adds MT942 text to be read.
    pub fn append_mt942_data(&mut self, data: &str)
        ensures
            final(self).pending_mt942() == old(self).pending_mt942() + data@,
            final(self).pending_mt940() == old(self).pending_mt940(),
            final(self).days_mt940() == old(self).days_mt940(),
            final(self).days_mt942() == old(self).days_mt942(),
            final(self).is_parsed() == old(self).is_parsed(),
            final(self).nothing_else() == old(self).nothing_else(),
    {
        append(&mut self.buffer_mt942, data);
    }

    fn verify_mt94x_parsing(&mut self)
        requires
            old(self).is_parsed() || (mt94x_readable(old(self).pending_mt940()) && mt94x_readable(
                old(self).pending_mt942(),
            )),
        ensures
            final(self).read_from(old(self)),
    {
        if self.parsed {
            return;
        }
        self.parsed = true;
        parse_mt94x(&mut self.buffer_mt940, &mut self.tage_mt940, &mut self.rest_mt940);
        parse_mt94x(&mut self.buffer_mt942, &mut self.tage_mt942, &mut self.rest_mt942);
    }

    /// The days of booked transactions (the texts are read first, once).
    pub fn get_data_per_day(&mut self) -> (r: &[GvrKUmsBTag])
        requires
            old(self).is_parsed() || (mt94x_readable(old(self).pending_mt940()) && mt94x_readable(
                old(self).pending_mt942(),
            )),
        ensures
            final(self).read_from(old(self)),
            r@ == final(self).days_mt940(),
    {
        self.verify_mt94x_parsing();
        self.tage_mt940.as_slice()
    }

    /// The days of not yet booked transactions (the texts are read first, once).
    pub fn get_data_per_day_unbooked(&mut self) -> (r: &[GvrKUmsBTag])
        requires
            old(self).is_parsed() || (mt94x_readable(old(self).pending_mt940()) && mt94x_readable(
                old(self).pending_mt942(),
            )),
        ensures
            final(self).read_from(old(self)),
            r@ == final(self).days_mt942(),
    {
        self.verify_mt94x_parsing();
        self.tage_mt942.as_slice()
    }

    /// The booked transactions of all days, in order.
    pub fn get_flat_data(&mut self) -> (r: Vec<&GvrKUmsLine>)
        requires
            old(self).is_parsed() || (mt94x_readable(old(self).pending_mt940()) && mt94x_readable(
                old(self).pending_mt942(),
            )),
        ensures
            final(self).read_from(old(self)),
            line_refs(r@) == all_lines(final(self).days_mt940()),
    {
        self.verify_mt94x_parsing();
        flat_lines(&self.tage_mt940)
    }

    /// The not yet booked transactions of all days, in order.
    pub fn get_flat_data_unbooked(&mut self) -> (r: Vec<&GvrKUmsLine>)
        requires
            old(self).is_parsed() || (mt94x_readable(old(self).pending_mt940()) && mt94x_readable(
                old(self).pending_mt942(),
            )),
        ensures
            final(self).read_from(old(self)),
            line_refs(r@) == all_lines(final(self).days_mt942()),
    {
        self.verify_mt94x_parsing();
        flat_lines(&self.tage_mt942)
    }
}

pub open spec fn line_refs(r: Seq<&GvrKUmsLine>) -> Seq<GvrKUmsLine> {
    r.map_values(|x: &GvrKUmsLine| *x)
}

/// The lines of the days, one day after the other.
pub open spec fn all_lines(days: Seq<GvrKUmsBTag>) -> Seq<GvrKUmsLine>
    decreases days.len(),
{
    if days.len() == 0 {
        seq![]
    } else {
        all_lines(days.drop_last()) + days.last().lines@
    }
}

fn flat_lines(days: &Vec<GvrKUmsBTag>) -> (r: Vec<&GvrKUmsLine>)
    ensures
        line_refs(r@) == all_lines(days@),
{
    let mut r: Vec<&GvrKUmsLine> = Vec::new();
    let mut i: usize = 0;
    while i < days.len()
        invariant
            i <= days@.len(),
            line_refs(r@) == all_lines(days@.take(i as int)),
        decreases days.len() - i,
    {
        let ghost base = line_refs(r@);
        let day = &days[i];
        let mut j: usize = 0;
        while j < day.lines.len()
            invariant
                j <= day.lines@.len(),
                line_refs(r@) == base + day.lines@.take(j as int),
            decreases day.lines.len() - j,
        {
            let ghost before = line_refs(r@);
            r.push(&day.lines[j]);
            assert(line_refs(r@) =~= before.push(day.lines@[j as int]));
            assert(day.lines@.take(j + 1) =~= day.lines@.take(j as int).push(day.lines@[j as int]));
            j += 1;
        }
        proof {
            let t = days@.take(i + 1);
            assert(t.drop_last() =~= days@.take(i as int));
            assert(t.last() == days@[i as int]);
            assert(day.lines@.take(day.lines@.len() as int) =~= day.lines@);
        }
        i += 1;
    }
    assert(days@.take(days@.len() as int) =~= days@);
    r
}

} // verus!
