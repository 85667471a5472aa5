//! The directory of German banks by bank code (BLZ): name, place, BIC,
//! check method and the addresses and protocol versions of their FinTS
//! servers, read from a properties text with one bank per line.

use vstd::prelude::*;
use crate::strmap::StrMap;
use crate::text::{
    chars_of, contains, contains_str, find, is_ws, owned, split_char, split_str, starts_with,
    starts_with_str, str_eq, string_of, trim, trim_end, trim_start, trim_str, slice_chars,
    trim_start_index,
};
use crate::tools::{has_text, opt_str_view};

verus! {

/// The protocol versions a bank's server speaks.
#[derive(Debug, Clone, Copy, PartialEq, Eq, Structural)]
pub enum HbciVersion {
    Hbci201,
    Hbci210,
    Hbci220,
    HbciPlus,
    Hbci300,
    Hbci400,
}

pub open spec fn version_by_id(id: Seq<char>) -> Option<HbciVersion> {
    if id == "201"@ {
        Some(HbciVersion::Hbci201)
    } else if id == "210"@ {
        Some(HbciVersion::Hbci210)
    } else if id == "220"@ {
        Some(HbciVersion::Hbci220)
    } else if id == "plus"@ {
        Some(HbciVersion::HbciPlus)
    } else if id == "300"@ {
        Some(HbciVersion::Hbci300)
    } else if id == "400"@ {
        Some(HbciVersion::Hbci400)
    } else {
        None
    }
}

pub open spec fn version_id(v: HbciVersion) -> Seq<char> {
    match v {
        HbciVersion::Hbci201 => "201"@,
        HbciVersion::Hbci210 => "210"@,
        HbciVersion::Hbci220 => "220"@,
        HbciVersion::HbciPlus => "plus"@,
        HbciVersion::Hbci300 => "300"@,
        HbciVersion::Hbci400 => "400"@,
    }
}

pub open spec fn version_name(v: HbciVersion) -> Seq<char> {
    match v {
        HbciVersion::Hbci201 => "HBCI 2.01"@,
        HbciVersion::Hbci210 => "HBCI 2.10"@,
        HbciVersion::Hbci220 => "HBCI 2.2"@,
        HbciVersion::HbciPlus => "HBCI 2.2 (HBCI+)"@,
        HbciVersion::Hbci300 => "FinTS 3.0"@,
        HbciVersion::Hbci400 => "FinTS 4.0"@,
    }
}

impl HbciVersion {
    pub fn by_id(id: &str) -> (r: Option<Self>)
        ensures
            r == version_by_id(id@),
    {
        if str_eq(id, "201") {
            Some(HbciVersion::Hbci201)
        } else if str_eq(id, "210") {
            Some(HbciVersion::Hbci210)
        } else if str_eq(id, "220") {
            Some(HbciVersion::Hbci220)
        } else if str_eq(id, "plus") {
            Some(HbciVersion::HbciPlus)
        } else if str_eq(id, "300") {
            Some(HbciVersion::Hbci300)
        } else if str_eq(id, "400") {
            Some(HbciVersion::Hbci400)
        } else {
            None
        }
    }

    pub fn id(&self) -> (r: &'static str)
        ensures
            r@ == version_id(*self),
    {
        match self {
            HbciVersion::Hbci201 => "201",
            HbciVersion::Hbci210 => "210",
            HbciVersion::Hbci220 => "220",
            HbciVersion::HbciPlus => "plus",
            HbciVersion::Hbci300 => "300",
            HbciVersion::Hbci400 => "400",
        }
    }

    pub fn name(&self) -> (r: &'static str)
        ensures
            r@ == version_name(*self),
    {
        match self {
            HbciVersion::Hbci201 => "HBCI 2.01",
            HbciVersion::Hbci210 => "HBCI 2.10",
            HbciVersion::Hbci220 => "HBCI 2.2",
            HbciVersion::HbciPlus => "HBCI 2.2 (HBCI+)",
            HbciVersion::Hbci300 => "FinTS 3.0",
            HbciVersion::Hbci400 => "FinTS 4.0",
        }
    }

    /// `id: name`.
    pub fn to_display_string(&self) -> (s: String)
        ensures
            s@ == version_id(*self) + ": "@ + version_name(*self),
    {
        let mut s = owned(self.id());
        crate::text::append(&mut s, ": ");
        crate::text::append(&mut s, self.name());
        s
    }
}

/// What the directory knows of a bank.
#[derive(Debug, Clone)]
pub struct BankInfo {
    blz: Option<String>,
    bic: Option<String>,
    checksum_method: Option<String>,
    location: Option<String>,
    name: Option<String>,
    pin_tan_address: Option<String>,
    pin_tan_version: Option<HbciVersion>,
    rdh_address: Option<String>,
    rdh_version: Option<HbciVersion>,
}

pub ghost struct BankInfoView {
    pub blz: Option<Seq<char>>,
    pub bic: Option<Seq<char>>,
    pub checksum_method: Option<Seq<char>>,
    pub location: Option<Seq<char>>,
    pub name: Option<Seq<char>>,
    pub pin_tan_address: Option<Seq<char>>,
    pub pin_tan_version: Option<HbciVersion>,
    pub rdh_address: Option<Seq<char>>,
    pub rdh_version: Option<HbciVersion>,
}

pub open spec fn ov(o: Option<String>) -> Option<Seq<char>> {
    match o {
        Some(s) => Some(s@),
        None => None,
    }
}

impl View for BankInfo {
    type V = BankInfoView;

    closed spec fn view(&self) -> BankInfoView {
        BankInfoView {
            blz: ov(self.blz),
            bic: ov(self.bic),
            checksum_method: ov(self.checksum_method),
            location: ov(self.location),
            name: ov(self.name),
            pin_tan_address: ov(self.pin_tan_address),
            pin_tan_version: self.pin_tan_version,
            rdh_address: ov(self.rdh_address),
            rdh_version: self.rdh_version,
        }
    }
}

pub open spec fn empty_info() -> BankInfoView {
    BankInfoView {
        blz: None,
        bic: None,
        checksum_method: None,
        location: None,
        name: None,
        pin_tan_address: None,
        pin_tan_version: None,
        rdh_address: None,
        rdh_version: None,
    }
}

/// The columns of a value: split at `|`, trailing empty columns dropped.
pub open spec fn columns(text: Seq<char>) -> Seq<Seq<char>> {
    drop_empty_tail(split_char(text, '|'))
}

pub open spec fn drop_empty_tail(cs: Seq<Seq<char>>) -> Seq<Seq<char>>
    decreases cs.len(),
{
    if cs.len() > 0 && cs.last().len() == 0 {
        drop_empty_tail(cs.drop_last())
    } else {
        cs
    }
}

pub open spec fn column(cs: Seq<Seq<char>>, i: int) -> Option<Seq<char>> {
    if 0 <= i < cs.len() {
        Some(cs[i])
    } else {
        None
    }
}

pub open spec fn column_version(cs: Seq<Seq<char>>, i: int) -> Option<HbciVersion> {
    match column(cs, i) {
        Some(c) => version_by_id(c),
        None => None,
    }
}

/// A bank read from its value: name, place, BIC, check method, RDH
/// address, PIN/TAN address, RDH version, PIN/TAN version.
pub open spec fn parsed_value(text: Seq<char>) -> BankInfoView {
    if text.len() == 0 {
        empty_info()
    } else {
        let cs = columns(text);
        BankInfoView {
            blz: None,
            name: column(cs, 0),
            location: column(cs, 1),
            bic: column(cs, 2),
            checksum_method: column(cs, 3),
            rdh_address: column(cs, 4),
            pin_tan_address: column(cs, 5),
            rdh_version: column_version(cs, 6),
            pin_tan_version: column_version(cs, 7),
        }
    }
}

fn column_value(cs: &Vec<String>, index: usize) -> (r: Option<String>)
    ensures
        ov(r) == column(crate::gv_result::status::str_views(cs@), index as int),
{
    if index < cs.len() {
        Some(owned(cs[index].as_str()))
    } else {
        None
    }
}

fn column_version_value(cs: &Vec<String>, index: usize) -> (r: Option<HbciVersion>)
    ensures
        r == column_version(crate::gv_result::status::str_views(cs@), index as int),
{
    if index < cs.len() {
        HbciVersion::by_id(cs[index].as_str())
    } else {
        None
    }
}

fn property_columns(text: &str) -> (r: Vec<String>)
    ensures
        crate::gv_result::status::str_views(r@) == columns(text@),
{
    let mut cs = split_str(text, '|');
    assert(crate::gv_result::status::str_views(cs@) =~= split_char(text@, '|'));
    while cs.len() > 0 && cs[cs.len() - 1].unicode_len() == 0
        invariant
            drop_empty_tail(crate::gv_result::status::str_views(cs@)) == columns(text@),
        decreases cs.len(),
    {
        let ghost before = crate::gv_result::status::str_views(cs@);
        cs.pop();
        assert(crate::gv_result::status::str_views(cs@) =~= before.drop_last());
    }
    r_cols(cs)
}

fn r_cols(cs: Vec<String>) -> (r: Vec<String>)
    ensures
        r@ == cs@,
{
    cs
}

impl BankInfo {
    /// A bank without any data.
    pub fn empty() -> (r: Self)
        ensures
            r@ == empty_info(),
    {
        BankInfo {
            blz: None,
            bic: None,
            checksum_method: None,
            location: None,
            name: None,
            pin_tan_address: None,
            pin_tan_version: None,
            rdh_address: None,
            rdh_version: None,
        }
    }

    /// A bank read from the value of its line.
    pub fn parse_value(text: &str) -> (r: Self)
        ensures
            r@ == parsed_value(text@),
    {
        if text.unicode_len() == 0 {
            return Self::empty();
        }
        let cs = property_columns(text);
        let r = BankInfo {
            blz: None,
            name: column_value(&cs, 0),
            location: column_value(&cs, 1),
            bic: column_value(&cs, 2),
            checksum_method: column_value(&cs, 3),
            rdh_address: column_value(&cs, 4),
            pin_tan_address: column_value(&cs, 5),
            rdh_version: column_version_value(&cs, 6),
            pin_tan_version: column_version_value(&cs, 7),
        };
        r
    }

    /// A bank read from the value of its line, with its bank code.
    pub fn parse_property(blz: &str, value: &str) -> (r: Self)
        ensures
            r@ == (BankInfoView { blz: Some(blz@), ..parsed_value(value@) }),
    {
        let mut info = Self::parse_value(value);
        info.blz = Some(owned(blz));
        info
    }

    pub fn blz(&self) -> (r: Option<&str>)
        ensures
            opt_str_view(r) == self@.blz,
    {
        match &self.blz {
            Some(s) => Some(s.as_str()),
            None => None,
        }
    }

    pub fn bic(&self) -> (r: Option<&str>)
        ensures
            opt_str_view(r) == self@.bic,
    {
        match &self.bic {
            Some(s) => Some(s.as_str()),
            None => None,
        }
    }

    pub fn checksum_method(&self) -> (r: Option<&str>)
        ensures
            opt_str_view(r) == self@.checksum_method,
    {
        match &self.checksum_method {
            Some(s) => Some(s.as_str()),
            None => None,
        }
    }

    pub fn location(&self) -> (r: Option<&str>)
        ensures
            opt_str_view(r) == self@.location,
    {
        match &self.location {
            Some(s) => Some(s.as_str()),
            None => None,
        }
    }

    pub fn name(&self) -> (r: Option<&str>)
        ensures
            opt_str_view(r) == self@.name,
    {
        match &self.name {
            Some(s) => Some(s.as_str()),
            None => None,
        }
    }

    pub fn pin_tan_address(&self) -> (r: Option<&str>)
        ensures
            opt_str_view(r) == self@.pin_tan_address,
    {
        match &self.pin_tan_address {
            Some(s) => Some(s.as_str()),
            None => None,
        }
    }

    pub fn pin_tan_version(&self) -> (r: Option<HbciVersion>)
        ensures
            r == self@.pin_tan_version,
    {
        self.pin_tan_version
    }

    pub fn rdh_address(&self) -> (r: Option<&str>)
        ensures
            opt_str_view(r) == self@.rdh_address,
    {
        match &self.rdh_address {
            Some(s) => Some(s.as_str()),
            None => None,
        }
    }

    pub fn rdh_version(&self) -> (r: Option<HbciVersion>)
        ensures
            r == self@.rdh_version,
    {
        self.rdh_version
    }

    /// Whether the bank has a PIN/TAN server: an address that is not blank,
    /// or a version.
    pub fn supports_pin_tan(&self) -> (b: bool)
        ensures
            b == supports_pin_tan_view(self@),
    {
        has_text(self.pin_tan_address()) || self.pin_tan_version.is_some()
    }

    /// Whether the bank has an RDH server: an address that is not blank, or
    /// a version.
    pub fn supports_rdh(&self) -> (b: bool)
        ensures
            b == ((self@.rdh_address matches Some(a) && trim(a).len() > 0) || self@.rdh_version is Some),
    {
        has_text(self.rdh_address()) || self.rdh_version.is_some()
    }

    /// `blz: name`, `null` for what is missing.
    pub fn to_display_string(&self) -> (s: String)
        ensures
            s@ == or_null(self@.blz) + ": "@ + or_null(self@.name),
    {
        let mut s = match &self.blz {
            Some(b) => owned(b.as_str()),
            None => owned("null"),
        };
        crate::text::append(&mut s, ": ");
        match &self.name {
            Some(n) => crate::text::append(&mut s, n.as_str()),
            None => crate::text::append(&mut s, "null"),
        }
        s
    }

    fn copy(&self) -> (r: Self)
        ensures
            r@ == self@,
    {
        BankInfo {
            blz: copy_text(&self.blz),
            bic: copy_text(&self.bic),
            checksum_method: copy_text(&self.checksum_method),
            location: copy_text(&self.location),
            name: copy_text(&self.name),
            pin_tan_address: copy_text(&self.pin_tan_address),
            pin_tan_version: self.pin_tan_version,
            rdh_address: copy_text(&self.rdh_address),
            rdh_version: self.rdh_version,
        }
    }
}

fn copy_text(o: &Option<String>) -> (r: Option<String>)
    ensures
        ov(r) == ov(*o),
{
    match o {
        Some(s) => Some(owned(s.as_str())),
        None => None,
    }
}

pub open spec fn or_null(o: Option<Seq<char>>) -> Seq<char> {
    match o {
        Some(s) => s,
        None => "null"@,
    }
}

pub open spec fn supports_pin_tan_view(i: BankInfoView) -> bool {
    (i.pin_tan_address matches Some(a) && trim(a).len() > 0) || i.pin_tan_version is Some
}


// ---------------------------------------------------------------------------
// Lower case
// ---------------------------------------------------------------------------

/// `str::to_lowercase`: the Unicode lower case of a text.
pub uninterp spec fn lowercase(s: Seq<char>) -> Seq<char>;

/// `str::to_lowercase`; its result is named, as the Unicode case mapping
/// takes pages to state.
#[verifier::external_body]
fn to_lowercase(s: &str) -> (r: String)
    ensures
        r@ == lowercase(s@),
{
    s.to_lowercase()
}

// ---------------------------------------------------------------------------
// The directory
// ---------------------------------------------------------------------------

/// The lines of a text as `str::lines` gives them, each without its
/// trailing carriage returns.
pub open spec fn text_lines(text: Seq<char>) -> Seq<Seq<char>> {
    let parts = split_char(text, '\n');
    if parts.len() > 0 && parts.last().len() == 0 {
        parts.drop_last()
    } else {
        parts
    }
}

/// Where a property line is split into key and value: at its first `=` or
/// `:`.
pub open spec fn separator(l: Seq<char>) -> Option<int> {
    match (find(l, seq!['=']), find(l, seq![':'])) {
        (Some(a), Some(b)) => Some(if a < b { a } else { b }),
        (Some(a), None) => Some(a),
        (None, Some(b)) => Some(b),
        (None, None) => None,
    }
}

/// The bank that a line of the properties text gives, by its code: blank
/// lines, comments (`#`, `!`) and lines without a code give none.
pub open spec fn line_entry(line: Seq<char>) -> Option<(Seq<char>, BankInfoView)> {
    let l = trim_start(crate::tools::strip_trailing(line, '\r'));
    if l.len() == 0 || l[0] == '#' || l[0] == '!' {
        None
    } else {
        let (key, value) = match separator(l) {
            Some(i) => (l.take(i), l.skip(i + 1)),
            None => (l, seq![]),
        };
        let b = trim_end(key);
        if b.len() == 0 {
            None
        } else {
            Some((b, BankInfoView { blz: Some(b), ..parsed_value(trim_start(value)) }))
        }
    }
}

/// The banks of the first `n` lines; a later line for a code replaces an
/// earlier one.
pub open spec fn banks_of(lines: Seq<Seq<char>>, n: int) -> Map<Seq<char>, BankInfoView>
    decreases n,
{
    if n <= 0 || n > lines.len() {
        Map::empty()
    } else {
        match line_entry(lines[n - 1]) {
            Some((b, i)) => banks_of(lines, n - 1).insert(b, i),
            None => banks_of(lines, n - 1),
        }
    }
}

/// Whether a bank matches a search: its code starts with the query, its
/// BIC in lower case starts with it, or its name or place in lower case
/// contains it.
pub open spec fn matches_query(i: BankInfoView, q: Seq<char>) -> bool {
    ||| i.blz matches Some(b) && starts_with(b, q)
    ||| i.bic matches Some(b) && starts_with(lowercase(b), q)
    ||| i.name matches Some(n) && contains(lowercase(n), q)
    ||| i.location matches Some(l) && contains(lowercase(l), q)
}

/// The banks of a sequence that satisfy `keep`, in order.
pub open spec fn select_banks(bs: Seq<BankInfoView>, keep: spec_fn(BankInfoView) -> bool) -> Seq<BankInfoView>
    decreases bs.len(),
{
    if bs.len() == 0 {
        seq![]
    } else {
        select_banks(bs.drop_last(), keep) + if keep(bs.last()) {
            seq![bs.last()]
        } else {
            seq![]
        }
    }
}

/// The banks that a search for `query` finds, in order: none for a query
/// of fewer than three characters (white space around it aside).
pub open spec fn search_result(bs: Seq<BankInfoView>, query: Seq<char>) -> Seq<BankInfoView> {
    let q = trim(query);
    if q.len() < 3 {
        seq![]
    } else {
        select_banks(bs, |i: BankInfoView| matches_query(i, lowercase(q)))
    }
}

proof fn lemma_select_keeps(bs: Seq<BankInfoView>, keep: spec_fn(BankInfoView) -> bool, i: int)
    requires
        0 <= i < bs.len(),
        keep(bs[i]),
    ensures
        select_banks(bs, keep).contains(bs[i]),
    decreases bs.len(),
{
    let p = select_banks(bs.drop_last(), keep);
    if i == bs.len() - 1 {
        assert(select_banks(bs, keep)[p.len() as int] == bs[i]);
    } else {
        assert(bs.drop_last()[i] == bs[i]);
        lemma_select_keeps(bs.drop_last(), keep, i);
        let k = p.index_of(bs[i]);
        assert(select_banks(bs, keep)[k] == bs[i]);
    }
}

proof fn lemma_select_only(bs: Seq<BankInfoView>, keep: spec_fn(BankInfoView) -> bool, j: int)
    requires
        0 <= j < select_banks(bs, keep).len(),
    ensures
        keep(select_banks(bs, keep)[j]),
        bs.contains(select_banks(bs, keep)[j]),
    decreases bs.len(),
{
    let p = select_banks(bs.drop_last(), keep);
    if j < p.len() {
        assert(select_banks(bs, keep)[j] == p[j]);
        lemma_select_only(bs.drop_last(), keep, j);
        let k = bs.drop_last().index_of(p[j]);
        assert(bs[k] == p[j]);
    } else {
        assert(select_banks(bs, keep)[j] == bs.last());
        assert(bs[bs.len() - 1] == bs.last());
    }
}

/// What a search finds does not depend on case: for a query of at least
/// three characters (white space around it aside), every bank whose code or
/// lower-case BIC starts with the lower-case query, or whose lower-case
/// name or place contains it, is found, and only such banks; a shorter query
/// finds nothing.
pub proof fn law_search_ignores_case(bs: Seq<BankInfoView>, query: Seq<char>)
    ensures
        trim(query).len() < 3 ==> search_result(bs, query).len() == 0,
        forall|i: int|
            0 <= i < bs.len() && trim(query).len() >= 3 && ({
                let q = lowercase(trim(query));
                ||| bs[i].blz matches Some(b) && starts_with(b, q)
                ||| bs[i].bic matches Some(b) && starts_with(lowercase(b), q)
                ||| bs[i].name matches Some(n) && contains(lowercase(n), q)
                ||| bs[i].location matches Some(l) && contains(lowercase(l), q)
            }) ==> search_result(bs, query).contains(#[trigger] bs[i]),
        forall|j: int|
            0 <= j < search_result(bs, query).len() ==> bs.contains(#[trigger] search_result(bs, query)[j]) && ({
                let q = lowercase(trim(query));
                let f = search_result(bs, query)[j];
                ||| f.blz matches Some(b) && starts_with(b, q)
                ||| f.bic matches Some(b) && starts_with(lowercase(b), q)
                ||| f.name matches Some(n) && contains(lowercase(n), q)
                ||| f.location matches Some(l) && contains(lowercase(l), q)
            }),
{
    let q = lowercase(trim(query));
    let keep = |i: BankInfoView| matches_query(i, q);
    if trim(query).len() >= 3 {
        assert(search_result(bs, query) == select_banks(bs, keep));
        assert forall|i: int|
            0 <= i < bs.len() && ({
                ||| bs[i].blz matches Some(b) && starts_with(b, q)
                ||| bs[i].bic matches Some(b) && starts_with(lowercase(b), q)
                ||| bs[i].name matches Some(n) && contains(lowercase(n), q)
                ||| bs[i].location matches Some(l) && contains(lowercase(l), q)
            }) implies select_banks(bs, keep).contains(bs[i]) by {
            lemma_select_keeps(bs, keep, i);
        }
        assert forall|j: int| 0 <= j < select_banks(bs, keep).len() implies bs.contains(
            #[trigger] select_banks(bs, keep)[j],
        ) && keep(select_banks(bs, keep)[j]) by {
            lemma_select_only(bs, keep, j);
        }
    }
}

pub open spec fn info_views(v: Seq<&BankInfo>) -> Seq<BankInfoView> {
    v.map_values(|b: &BankInfo| b@)
}

/// The directory: banks by code.
#[derive(Debug)]
pub struct BankInfoRegistry {
    banks: StrMap<BankInfo>,
}

impl BankInfoRegistry {
    /// The banks by code.
    pub closed spec fn view(&self) -> Map<Seq<char>, BankInfoView> {
        self.banks@.map_values(|b: BankInfo| b@)
    }

    /// The banks in ascending order of their codes.
    pub closed spec fn ordered(&self) -> Seq<BankInfoView> {
        self.banks.vals_view().map_values(|b: BankInfo| b@)
    }

    /// The codes in ascending order.
    pub closed spec fn codes(&self) -> Seq<Seq<char>> {
        self.banks.keys_view()
    }

    /// An empty directory.
    pub fn new() -> (r: Self)
        ensures
            r.view() == Map::<Seq<char>, BankInfoView>::empty(),
    {
        let r = BankInfoRegistry { banks: StrMap::new() };
        assert(r.view() =~= Map::<Seq<char>, BankInfoView>::empty());
        r
    }

    /// The directory of a properties text: one bank per line, `code=value`
    /// (or `code:value`).
    pub fn parse_properties(text: &str) -> (r: Self)
        ensures
            r.view() == banks_of(text_lines(text@), text_lines(text@).len() as int),
    {
        let mut parts = split_str(text, '\n');
        let ghost all = split_char(text@, '\n');
        assert(crate::gv_result::status::str_views(parts@) =~= all);
        if parts.len() > 0 && parts[parts.len() - 1].unicode_len() == 0 {
            parts.pop();
        }
        let ghost lines = text_lines(text@);
        assert(crate::gv_result::status::str_views(parts@) =~= lines);
        let mut registry = Self::new();
        let mut i: usize = 0;
        while i < parts.len()
            invariant
                crate::gv_result::status::str_views(parts@) == lines,
                i <= parts@.len(),
                registry.view() == banks_of(lines, i as int),
            decreases parts.len() - i,
        {
            match entry_of_line(parts[i].as_str()) {
                Some((b, info)) => {
                    let ghost iv = info@;
                    let ghost bv = b@;
                    registry.banks.insert(b, info);
                    assert(registry.view() =~= banks_of(lines, i as int).insert(bv, iv));
                },
                None => {},
            }
            i += 1;
        }
        registry
    }

    /// The bank with the given code.
    pub fn get_bank_info(&self, blz: &str) -> (r: Option<&BankInfo>)
        ensures
            match r {
                Some(i) => self.view().contains_key(blz@) && self.view()[blz@] == i@,
                None => !self.view().contains_key(blz@),
            },
    {
        self.banks.get(blz)
    }

    /// The name of the bank with the given code; empty where there is none.
    pub fn name_for_blz(&self, blz: &str) -> (r: &str)
        ensures
            r@ == if self.view().contains_key(blz@) && self.view()[blz@].name is Some {
                self.view()[blz@].name->0
            } else {
                seq![]
            },
    {
        proof {
            reveal_strlit("");
        }
        match self.get_bank_info(blz) {
            Some(i) => match {
                assert(self.view()[blz@] == i@);
                i.name()
            } {
                Some(n) => n,
                None => "",
            },
            None => "",
        }
    }

    /// All banks, in ascending order of their codes.
    pub fn banks(&self) -> (r: Vec<&BankInfo>)
        ensures
            info_views(r@) == self.ordered(),
    {
        let mut r: Vec<&BankInfo> = Vec::new();
        self.banks.check_well_formed();
        let n = self.banks.len();
        let mut k: usize = 0;
        while k < n
            invariant
                n == self.banks.size(),
                self.banks.well_formed(),
                k <= n,
                info_views(r@) == self.ordered().take(k as int),
            decreases n - k,
        {
            let b = self.banks.value_at(k);
            let ghost before = info_views(r@);
            r.push(b);
            assert(info_views(r@) =~= before.push(b@));
            assert(self.ordered().take(k + 1) =~= self.ordered().take(k as int).push(self.ordered()[k as int]));
            k += 1;
        }
        assert(self.ordered().take(n as int) =~= self.ordered());
        r
    }

    /// The banks with a PIN/TAN server, in order.
    pub fn pin_tan_banks(&self) -> (r: Vec<&BankInfo>)
        ensures
            info_views(r@) == select_banks(self.ordered(), |i: BankInfoView| supports_pin_tan_view(i)),
    {
        let mut r: Vec<&BankInfo> = Vec::new();
        self.banks.check_well_formed();
        let n = self.banks.len();
        let mut k: usize = 0;
        while k < n
            invariant
                n == self.banks.size(),
                self.banks.well_formed(),
                k <= n,
                info_views(r@) == select_banks(self.ordered().take(k as int), |i: BankInfoView| supports_pin_tan_view(i)),
            decreases n - k,
        {
            let b = self.banks.value_at(k);
            assert(self.ordered().take(k + 1).drop_last() =~= self.ordered().take(k as int));
            if b.supports_pin_tan() {
                r.push(b);
                assert(info_views(r@) =~= select_banks(self.ordered().take(k as int), |i: BankInfoView| supports_pin_tan_view(i)) + seq![b@]);
            } else {
                assert(info_views(r@) =~= select_banks(self.ordered().take(k as int), |i: BankInfoView| supports_pin_tan_view(i)) + seq![]);
            }
            k += 1;
        }
        assert(self.ordered().take(n as int) =~= self.ordered());
        r
    }

    /// The banks that match a search, in order (see `search_result`).
    pub fn search_bank_info(&self, query: &str) -> (r: Vec<&BankInfo>)
        ensures
            info_views(r@) == search_result(self.ordered(), query@),
    {
        let q = trim_str(query);
        if q.unicode_len() < 3 {
            let r: Vec<&BankInfo> = Vec::new();
            assert(info_views(r@) =~= seq![]);
            return r;
        }
        let lq = to_lowercase(q.as_str());
        let mut r: Vec<&BankInfo> = Vec::new();
        self.banks.check_well_formed();
        let n = self.banks.len();
        let mut k: usize = 0;
        while k < n
            invariant
                n == self.banks.size(),
                self.banks.well_formed(),
                k <= n,
                lq@ == lowercase(trim(query@)),
                info_views(r@) == select_banks(self.ordered().take(k as int), |i: BankInfoView| matches_query(i, lowercase(trim(query@)))),
            decreases n - k,
        {
            let b = self.banks.value_at(k);
            assert(self.ordered().take(k + 1).drop_last() =~= self.ordered().take(k as int));
            if bank_matches(b, lq.as_str()) {
                r.push(b);
                assert(info_views(r@) =~= select_banks(self.ordered().take(k as int), |i: BankInfoView| matches_query(i, lowercase(trim(query@)))) + seq![b@]);
            } else {
                assert(info_views(r@) =~= select_banks(self.ordered().take(k as int), |i: BankInfoView| matches_query(i, lowercase(trim(query@)))) + seq![]);
            }
            k += 1;
        }
        assert(self.ordered().take(n as int) =~= self.ordered());
        r
    }

    /// The banks with a PIN/TAN server that match a search, in order.
    pub fn search_pin_tan_banks(&self, query: &str) -> (r: Vec<&BankInfo>)
        ensures
            info_views(r@) == select_banks(search_result(self.ordered(), query@), |i: BankInfoView| supports_pin_tan_view(i)),
    {
        let found = self.search_bank_info(query);
        let mut r: Vec<&BankInfo> = Vec::new();
        let mut k: usize = 0;
        while k < found.len()
            invariant
                k <= found@.len(),
                info_views(r@) == select_banks(info_views(found@).take(k as int), |i: BankInfoView| supports_pin_tan_view(i)),
            decreases found.len() - k,
        {
            let b = found[k];
            assert(info_views(found@).take(k + 1).drop_last() =~= info_views(found@).take(k as int));
            if b.supports_pin_tan() {
                r.push(b);
                assert(info_views(r@) =~= select_banks(info_views(found@).take(k as int), |i: BankInfoView| supports_pin_tan_view(i)) + seq![b@]);
            } else {
                assert(info_views(r@) =~= select_banks(info_views(found@).take(k as int), |i: BankInfoView| supports_pin_tan_view(i)) + seq![]);
            }
            k += 1;
        }
        assert(info_views(found@).take(found@.len() as int) =~= info_views(found@));
        r
    }

    pub fn len(&self) -> (n: usize)
        ensures
            n == self.view().len(),
    {
        assert(self.view().dom() =~= self.banks@.dom());
        self.banks.len()
    }

    pub fn is_empty(&self) -> (b: bool)
        ensures
            b == (self.view().len() == 0),
    {
        assert(self.view().dom() =~= self.banks@.dom());
        self.banks.len() == 0
    }
}

/// Whether a bank matches the lower-case query `q`.
fn bank_matches(b: &BankInfo, q: &str) -> (r: bool)
    ensures
        r == matches_query(b@, q@),
{
    match b.blz() {
        Some(x) => {
            if starts_with_str(x, q) {
                return true;
            }
        },
        None => {},
    }
    match b.bic() {
        Some(x) => {
            if starts_with_str(to_lowercase(x).as_str(), q) {
                return true;
            }
        },
        None => {},
    }
    match b.name() {
        Some(x) => {
            if contains_str(to_lowercase(x).as_str(), q) {
                return true;
            }
        },
        None => {},
    }
    match b.location() {
        Some(x) => contains_str(to_lowercase(x).as_str(), q),
        None => false,
    }
}

fn trim_start_string(s: &str) -> (r: String)
    ensures
        r@ == trim_start(s@),
{
    let v = chars_of(s);
    let k = trim_start_index(v.as_slice());
    string_of(slice_chars(v.as_slice(), k, v.len()).as_slice())
}

fn trim_end_string(s: &str) -> (r: String)
    ensures
        r@ == trim_end(s@),
{
    let v = chars_of(s);
    let mut n = v.len();
    assert(v@.take(v@.len() as int) =~= v@);
    while n > 0 && crate::text::is_ws_char(v[n - 1])
        invariant
            n <= v@.len(),
            trim_end(s@) == trim_end(v@.take(n as int)),
        decreases n,
    {
        assert(v@.take(n as int).drop_last() =~= v@.take(n - 1));
        n -= 1;
    }
    assert(v@.take(v@.len() as int) =~= v@);
    string_of(slice_chars(v.as_slice(), 0, n).as_slice())
}

fn strip_trailing_cr(s: &str) -> (r: String)
    ensures
        r@ == crate::tools::strip_trailing(s@, '\r'),
{
    let v = chars_of(s);
    let mut n = v.len();
    assert(v@.take(v@.len() as int) =~= v@);
    while n > 0 && v[n - 1] == '\r'
        invariant
            n <= v@.len(),
            crate::tools::strip_trailing(s@, '\r') == crate::tools::strip_trailing(v@.take(n as int), '\r'),
        decreases n,
    {
        assert(v@.take(n as int).drop_last() =~= v@.take(n - 1));
        n -= 1;
    }
    assert(v@.take(v@.len() as int) =~= v@);
    string_of(slice_chars(v.as_slice(), 0, n).as_slice())
}

/// The bank of one line of a properties text.
fn entry_of_line(line: &str) -> (r: Option<(String, BankInfo)>)
    ensures
        match line_entry(line@) {
            Some((b, i)) => r matches Some((x, y)) && x@ == b && y@ == i,
            None => r is None,
        },
{
    let stripped = strip_trailing_cr(line);
    let l = trim_start_string(stripped.as_str());
    let lv = chars_of(l.as_str());
    if lv.len() == 0 || lv[0] == '#' || lv[0] == '!' {
        return None;
    }
    let eq = crate::text::find_char_from(lv.as_slice(), '=', 0);
    let colon = crate::text::find_char_from(lv.as_slice(), ':', 0);
    proof {
        crate::text::lemma_find_from_spec(lv@, seq!['='], 0);
        crate::text::lemma_find_from_spec(lv@, seq![':'], 0);
    }
    let sep: Option<usize> = match (eq, colon) {
        (Some(a), Some(b)) => Some(if a < b { a } else { b }),
        (Some(a), None) => Some(a),
        (None, Some(b)) => Some(b),
        (None, None) => None,
    };
    assert(lv@ == l@);
    let (key, value) = match sep {
        Some(i) => (string_of(slice_chars(lv.as_slice(), 0, i).as_slice()), string_of(slice_chars(lv.as_slice(), i + 1, lv.len()).as_slice())),
        None => (owned(l.as_str()), String::new()),
    };
    let b = trim_end_string(key.as_str());
    if b.unicode_len() == 0 {
        return None;
    }
    let v = trim_start_string(value.as_str());
    let info = BankInfo::parse_property(b.as_str(), v.as_str());
    Some((b, info))
}

} // verus!
