//! SEPA document formats: the known versions and their identifiers.

use vstd::prelude::*;
use crate::error::{ErrorView, HbciError, HbciErrorKind, HbciResult};
use crate::text::{append, concat, owned, str_eq};
use crate::xml::{attr_value, checked_tag_attr, read_error, xml_events, xml_events_of, XmlEvent};

pub mod amount;
pub mod pain;
pub mod pain008;
pub mod sum;
pub mod xmlout;
pub mod generate;
pub mod camt;

pub use amount::{decimal_amount_to_cents, normalize_decimal_amount};
pub use pain::{pain_001_transfers_from_events, parse_pain_001_transfers, parse_pain_001_transfers_checked, Pain001Transfer};
pub use pain008::{pain_008_direct_debits_from_events, parse_pain_008_direct_debits, parse_pain_008_direct_debits_checked, Pain008DirectDebit};
pub use sum::{sum_pain_001_transfer_values, sum_sepa_transaction_values};
pub use camt::{camt_reports_from_events, camt_reports_from_events_checked, parse_camt_report_shell, parse_camt_report_shell_checked};
pub use generate::{
    generate_pain_001_001_02_transfer, generate_pain_001_001_02_transfers, generate_pain_008_001_01_direct_debit,
    generate_pain_008_001_01_direct_debits,
};


verus! {

pub const DATE_FORMAT: &'static str = "%Y-%m-%d";
pub const DATE_UNDEFINED: &'static str = "1999-01-01";
pub const DATETIME_FORMAT: &'static str = "%Y-%m-%dT%H:%M:%S";
pub const ENDTOEND_ID_NOTPROVIDED: &'static str = "NOTPROVIDED";
pub const PAIN_001_001_02_URN: &'static str = "urn:sepade:xsd:pain.001.001.02";
pub const PAIN_001_001_02_SCHEMA_LOCATION: &'static str = "urn:sepade:xsd:pain.001.001.02 pain.001.001.02.xsd";
pub const PAIN_008_001_01_URN: &'static str = "urn:sepade:xsd:pain.008.001.01";
pub const PAIN_008_001_01_SCHEMA_LOCATION: &'static str = "urn:sepade:xsd:pain.008.001.01 pain.008.001.01.xsd";
pub const PAIN_008_001_02_URN: &'static str = "urn:iso:std:iso:20022:tech:xsd:pain.008.001.02";
pub const PAIN_008_001_02_SCHEMA_LOCATION: &'static str = "urn:iso:std:iso:20022:tech:xsd:pain.008.001.02 pain.008.001.02.xsd";
pub const CAMT_052_001_01_URN: &'static str = "urn:iso:std:iso:20022:tech:xsd:camt.052.001.01";
pub const CAMT_052_001_02_URN: &'static str = "urn:iso:std:iso:20022:tech:xsd:camt.052.001.02";
pub const CAMT_052_001_03_URN: &'static str = "urn:iso:std:iso:20022:tech:xsd:camt.052.001.03";
pub const CAMT_052_001_04_URN: &'static str = "urn:iso:std:iso:20022:tech:xsd:camt.052.001.04";
pub const CAMT_052_001_05_URN: &'static str = "urn:iso:std:iso:20022:tech:xsd:camt.052.001.05";
pub const CAMT_052_001_06_URN: &'static str = "urn:iso:std:iso:20022:tech:xsd:camt.052.001.06";
pub const CAMT_052_001_07_URN: &'static str = "urn:iso:std:iso:20022:tech:xsd:camt.052.001.07";
pub const CAMT_052_001_08_URN: &'static str = "urn:iso:std:iso:20022:tech:xsd:camt.052.001.08";
pub const CAMT_052_001_09_URN: &'static str = "urn:iso:std:iso:20022:tech:xsd:camt.052.001.09";


/// The kinds of SEPA documents, in the order in which versions are compared.
#[derive(Debug, Clone, Copy, PartialEq, Eq, Structural)]
pub enum SepaKind {
    Pain001,
    Pain008,
    Camt052,
}

pub open spec fn kind_rank(k: SepaKind) -> int {
    match k {
        SepaKind::Pain001 => 0,
        SepaKind::Pain008 => 1,
        SepaKind::Camt052 => 2,
    }
}

/// A version of a SEPA document format.
#[derive(Debug, Clone, Copy)]
pub struct SepaVersion {
    kind: SepaKind,
    major: u16,
    minor: u16,
    urn: &'static str,
    schema_file: Option<&'static str>,
    order: u16,
}

pub ghost struct VersionView {
    pub kind: SepaKind,
    pub major: u16,
    pub minor: u16,
    pub urn: Seq<char>,
    pub schema_file: Option<Seq<char>>,
    pub order: u16,
}

impl View for SepaVersion {
    type V = VersionView;

    closed spec fn view(&self) -> VersionView {
        VersionView {
            kind: self.kind,
            major: self.major,
            minor: self.minor,
            urn: self.urn@,
            schema_file: match self.schema_file {
                Some(f) => Some(f@),
                None => None,
            },
            order: self.order,
        }
    }
}

pub open spec fn vv(kind: SepaKind, major: u16, minor: u16, order: u16, urn: Seq<char>, file: Seq<char>) -> VersionView {
    VersionView { kind, major, minor, urn, schema_file: Some(file), order }
}

/// The known versions, in this order.
pub open spec fn known_table() -> Seq<VersionView> {
    seq![
        vv(SepaKind::Pain001, 1, 2, 1, PAIN_001_001_02_URN@, "pain.001.001.02.xsd"@),
        vv(SepaKind::Pain008, 1, 1, 1, PAIN_008_001_01_URN@, "pain.008.001.01.xsd"@),
        vv(SepaKind::Pain008, 1, 2, 5, PAIN_008_001_02_URN@, "pain.008.001.02.xsd"@),
        vv(SepaKind::Camt052, 1, 1, 1, CAMT_052_001_01_URN@, "camt.052.001.01.xsd"@),
        vv(SepaKind::Camt052, 1, 2, 2, CAMT_052_001_02_URN@, "camt.052.001.02.xsd"@),
        vv(SepaKind::Camt052, 1, 3, 3, CAMT_052_001_03_URN@, "camt.052.001.03.xsd"@),
        vv(SepaKind::Camt052, 1, 4, 4, CAMT_052_001_04_URN@, "camt.052.001.04.xsd"@),
        vv(SepaKind::Camt052, 1, 5, 5, CAMT_052_001_05_URN@, "camt.052.001.05.xsd"@),
        vv(SepaKind::Camt052, 1, 6, 6, CAMT_052_001_06_URN@, "camt.052.001.06.xsd"@),
        vv(SepaKind::Camt052, 1, 7, 7, CAMT_052_001_07_URN@, "camt.052.001.07.xsd"@),
        vv(SepaKind::Camt052, 1, 8, 8, CAMT_052_001_08_URN@, "camt.052.001.08.xsd"@),
        vv(SepaKind::Camt052, 1, 9, 9, CAMT_052_001_09_URN@, "camt.052.001.09.xsd"@),
    ]
}

/// The known versions of CAMT.052.
pub open spec fn known_camt_table() -> Seq<VersionView> {
    known_table().skip(3)
}

pub open spec fn version_views(v: Seq<SepaVersion>) -> Seq<VersionView> {
    v.map_values(|x: SepaVersion| x@)
}

/// The comparison key of a version: kind, order, major, minor.
pub open spec fn key_lt(a: VersionView, b: VersionView) -> bool {
    ||| kind_rank(a.kind) < kind_rank(b.kind)
    ||| kind_rank(a.kind) == kind_rank(b.kind) && a.order < b.order
    ||| kind_rank(a.kind) == kind_rank(b.kind) && a.order == b.order && a.major < b.major
    ||| kind_rank(a.kind) == kind_rank(b.kind) && a.order == b.order && a.major == b.major && a.minor < b.minor
}

/// The first known version with the given identifier.
pub open spec fn first_by_urn(t: Seq<VersionView>, urn: Seq<char>) -> Option<VersionView>
    decreases t.len(),
{
    if t.len() == 0 {
        None
    } else if t[0].urn == urn {
        Some(t[0])
    } else {
        first_by_urn(t.drop_first(), urn)
    }
}

/// The greatest of the versions by their keys; of equal ones, the last.
pub open spec fn greatest(vs: Seq<VersionView>) -> Option<VersionView>
    decreases vs.len(),
{
    if vs.len() == 0 {
        None
    } else {
        match greatest(vs.drop_last()) {
            None => Some(vs.last()),
            Some(g) => if key_lt(vs.last(), g) {
                Some(g)
            } else {
                Some(vs.last())
            },
        }
    }
}

/// The greatest version is one of the versions and none of them is
/// greater by kind, order, major and minor number; there is one exactly
/// when there are versions; where the last version is as great as all, it
/// is the one chosen.
pub proof fn law_greatest_is_maximum(vs: Seq<VersionView>)
    ensures
        greatest(vs) is None <==> vs.len() == 0,
        greatest(vs) matches Some(g) ==> vs.contains(g) && forall|i: int| 0 <= i < vs.len() ==> !key_lt(g, #[trigger] vs[i]),
        vs.len() > 0 && (forall|i: int| 0 <= i < vs.len() ==> !key_lt(vs.last(), #[trigger] vs[i])) ==> greatest(vs)
            == Some(vs.last()),
    decreases vs.len(),
{
    if vs.len() > 0 {
        let p = vs.drop_last();
        law_greatest_is_maximum(p);
        match greatest(p) {
            None => {
                assert(p.len() == 0);
            },
            Some(g) => {
                assert forall|i: int| 0 <= i < vs.len() implies !key_lt(greatest(vs)->0, #[trigger] vs[i]) by {
                    if i < p.len() {
                        assert(vs[i] == p[i]);
                    }
                }
                assert(p.contains(g));
                assert(forall|k: int| 0 <= k < p.len() ==> vs[k] == #[trigger] p[k]);
                if forall|i: int| 0 <= i < vs.len() ==> !key_lt(vs.last(), #[trigger] vs[i]) {
                    let k = p.index_of(g);
                    assert(vs[k] == g);
                }
            },
        }
    }
}

fn kind_less(a: SepaKind, b: SepaKind) -> (r: bool)
    ensures
        r == (kind_rank(a) < kind_rank(b)),
{
    let ra: u8 = match a {
        SepaKind::Pain001 => 0,
        SepaKind::Pain008 => 1,
        SepaKind::Camt052 => 2,
    };
    let rb: u8 = match b {
        SepaKind::Pain001 => 0,
        SepaKind::Pain008 => 1,
        SepaKind::Camt052 => 2,
    };
    ra < rb
}

impl SepaVersion {
    fn make(kind: SepaKind, major: u16, minor: u16, order: u16, urn: &'static str, schema_file: &'static str) -> (v: Self)
        ensures
            v@ == vv(kind, major, minor, order, urn@, schema_file@),
    {
        SepaVersion { kind, major, minor, urn, schema_file: Some(schema_file), order }
    }

    pub fn pain_001_001_02() -> (v: Self)
        ensures
            v@ == known_table()[0],
    {
        Self::make(SepaKind::Pain001, 1, 2, 1, PAIN_001_001_02_URN, "pain.001.001.02.xsd")
    }

    pub fn pain_008_001_01() -> (v: Self)
        ensures
            v@ == known_table()[1],
    {
        Self::make(SepaKind::Pain008, 1, 1, 1, PAIN_008_001_01_URN, "pain.008.001.01.xsd")
    }

    pub fn pain_008_001_02() -> (v: Self)
        ensures
            v@ == known_table()[2],
    {
        Self::make(SepaKind::Pain008, 1, 2, 5, PAIN_008_001_02_URN, "pain.008.001.02.xsd")
    }

    pub fn camt_052_001_01() -> (v: Self)
        ensures
            v@ == known_table()[3],
    {
        Self::make(SepaKind::Camt052, 1, 1, 1, CAMT_052_001_01_URN, "camt.052.001.01.xsd")
    }

    pub fn camt_052_001_02() -> (v: Self)
        ensures
            v@ == known_table()[4],
    {
        Self::make(SepaKind::Camt052, 1, 2, 2, CAMT_052_001_02_URN, "camt.052.001.02.xsd")
    }

    pub fn camt_052_001_03() -> (v: Self)
        ensures
            v@ == known_table()[5],
    {
        Self::make(SepaKind::Camt052, 1, 3, 3, CAMT_052_001_03_URN, "camt.052.001.03.xsd")
    }

    pub fn camt_052_001_04() -> (v: Self)
        ensures
            v@ == known_table()[6],
    {
        Self::make(SepaKind::Camt052, 1, 4, 4, CAMT_052_001_04_URN, "camt.052.001.04.xsd")
    }

    pub fn camt_052_001_05() -> (v: Self)
        ensures
            v@ == known_table()[7],
    {
        Self::make(SepaKind::Camt052, 1, 5, 5, CAMT_052_001_05_URN, "camt.052.001.05.xsd")
    }

    pub fn camt_052_001_06() -> (v: Self)
        ensures
            v@ == known_table()[8],
    {
        Self::make(SepaKind::Camt052, 1, 6, 6, CAMT_052_001_06_URN, "camt.052.001.06.xsd")
    }

    pub fn camt_052_001_07() -> (v: Self)
        ensures
            v@ == known_table()[9],
    {
        Self::make(SepaKind::Camt052, 1, 7, 7, CAMT_052_001_07_URN, "camt.052.001.07.xsd")
    }

    pub fn camt_052_001_08() -> (v: Self)
        ensures
            v@ == known_table()[10],
    {
        Self::make(SepaKind::Camt052, 1, 8, 8, CAMT_052_001_08_URN, "camt.052.001.08.xsd")
    }

    pub fn camt_052_001_09() -> (v: Self)
        ensures
            v@ == known_table()[11],
    {
        Self::make(SepaKind::Camt052, 1, 9, 9, CAMT_052_001_09_URN, "camt.052.001.09.xsd")
    }

    pub fn kind(self) -> (r: SepaKind)
        ensures
            r == self@.kind,
    {
        self.kind
    }

    pub fn major(self) -> (r: u16)
        ensures
            r == self@.major,
    {
        self.major
    }

    pub fn minor(self) -> (r: u16)
        ensures
            r == self@.minor,
    {
        self.minor
    }

    pub fn urn(self) -> (r: &'static str)
        ensures
            r@ == self@.urn,
    {
        self.urn
    }

    pub fn schema_file(self) -> (r: Option<&'static str>)
        ensures
            crate::tools::opt_str_view(r) == self@.schema_file,
    {
        self.schema_file
    }

    /// `urn schema_file`, where there is a schema file.
    pub fn schema_location(self) -> (r: Option<String>)
        ensures
            match self@.schema_file {
                Some(f) => r matches Some(x) && x@ == self@.urn + " "@ + f,
                None => r is None,
            },
    {
        match self.schema_file {
            Some(f) => {
                let mut x = owned(self.urn);
                append(&mut x, " ");
                append(&mut x, f);
                Some(x)
            },
            None => None,
        }
    }

    /// The known versions of CAMT.052, oldest first.
    pub fn known_camt_versions() -> (r: Vec<Self>)
        ensures
            version_views(r@) == known_camt_table(),
    {
        let all = Self::known_versions();
        assert(known_table().len() == 12);
        assert(all@.len() == version_views(all@).len());
        let mut r: Vec<Self> = Vec::new();
        let mut i: usize = 3;
        assert(version_views(r@) =~= known_table().subrange(3, 3));
        while i < all.len()
            invariant
                version_views(all@) == known_table(),
                3 <= i <= all@.len(),
                version_views(r@) == known_table().subrange(3, i as int),
            decreases all.len() - i,
        {
            let ghost before = version_views(r@);
            r.push(all[i]);
            assert(version_views(all@)[i as int] == all@[i as int]@);
            assert(version_views(r@) =~= before.push(all@[i as int]@));
            assert(version_views(r@) =~= known_table().subrange(3, i + 1));
            i += 1;
        }
        assert(known_table().subrange(3, 12) =~= known_camt_table());
        r
    }

    /// All known versions.
    pub fn known_versions() -> (r: Vec<Self>)
        ensures
            version_views(r@) == known_table(),
    {
        let r = vec![
            Self::pain_001_001_02(),
            Self::pain_008_001_01(),
            Self::pain_008_001_02(),
            Self::camt_052_001_01(),
            Self::camt_052_001_02(),
            Self::camt_052_001_03(),
            Self::camt_052_001_04(),
            Self::camt_052_001_05(),
            Self::camt_052_001_06(),
            Self::camt_052_001_07(),
            Self::camt_052_001_08(),
            Self::camt_052_001_09(),
        ];
        assert(version_views(r@) =~= known_table());
        r
    }

    /// The known version with the given identifier.
    pub fn by_urn(urn: &str) -> (r: Option<Self>)
        ensures
            match first_by_urn(known_table(), urn@) {
                Some(v) => r matches Some(x) && x@ == v,
                None => r is None,
            },
    {
        let all = Self::known_versions();
        let mut i: usize = 0;
        assert(known_table().skip(0) =~= known_table());
        while i < all.len()
            invariant
                version_views(all@) == known_table(),
                i <= all@.len(),
                first_by_urn(known_table(), urn@) == first_by_urn(known_table().skip(i as int), urn@),
            decreases all.len() - i,
        {
            assert(known_table().skip(i as int)[0] == known_table()[i as int]);
            assert(known_table().skip(i as int).drop_first() =~= known_table().skip(i + 1));
            if str_eq(all[i].urn, urn) {
                return Some(all[i]);
            }
            i += 1;
        }
        None
    }

    /// The greatest of the versions, by kind, then order, major and minor
    /// number; of equal ones, the last.
    pub fn find_greatest(versions: &[Self]) -> (r: Option<Self>)
        ensures
            match greatest(version_views(versions@)) {
                Some(g) => r matches Some(x) && x@ == g,
                None => r is None,
            },
    {
        let mut best: Option<Self> = None;
        let mut i: usize = 0;
        while i < versions.len()
            invariant
                i <= versions@.len(),
                match greatest(version_views(versions@.take(i as int))) {
                    Some(g) => best matches Some(x) && x@ == g,
                    None => best is None,
                },
            decreases versions.len() - i,
        {
            let v = versions[i];
            assert(version_views(versions@.take(i + 1)).drop_last() =~= version_views(versions@.take(i as int)));
            assert(version_views(versions@.take(i + 1)).last() == v@);
            best = match best {
                None => Some(v),
                Some(b) => {
                    let less = kind_less(v.kind, b.kind) || (v.kind == b.kind && (v.order < b.order || (v.order == b.order && (v.major < b.major || (v.major == b.major && v.minor < b.minor)))));
                    assert(less == key_lt(v@, b@)) by {
                        assert(kind_rank(v.kind) == kind_rank(b.kind) <==> v.kind == b.kind);
                    }
                    if less {
                        Some(b)
                    } else {
                        Some(v)
                    }
                },
            };
            i += 1;
        }
        assert(versions@.take(versions@.len() as int) =~= versions@);
        best
    }

    /// The version whose identifier is the namespace of an XML document's
    /// root element, given the document's events; none where the root has
    /// no namespace.
    pub fn autodetect_events(events: &[XmlEvent]) -> (r: HbciResult<Option<Self>>)
        ensures
            match namespace_of(events@, 0) {
                Err(e) => r matches Err(x) && x@ == e,
                Ok(None) => r matches Ok(None),
                Ok(Some(ns)) => match first_by_urn(known_table(), ns) {
                    Some(v) => r matches Ok(Some(x)) && x@ == v,
                    None => r matches Err(x) && x@ == invalid_version(ns),
                },
            },
    {
        match root_namespace_events(events) {
            Err(e) => Err(e),
            Ok(None) => Ok(None),
            Ok(Some(ns)) => match Self::by_urn(ns.as_str()) {
                Some(v) => Ok(Some(v)),
                None => {
                    let m = concat("invalid sepa-version: ", ns.as_str());
                    Err(HbciError::new(HbciErrorKind::InvalidArgument, m.as_str()))
                },
            },
        }
    }

    /// The version of an XML document by its root element's namespace.
    pub fn autodetect(xml: &str) -> (r: HbciResult<Option<Self>>)
        ensures
            autodetected(xml_events_of(xml@), r),
    {
        let events = xml_events(xml);
        let r = Self::autodetect_events(events.as_slice());
        assert(autodetected(events@, r));
        r
    }

    /// The version of SEPA data: that of the data where it is given, else
    /// that of the descriptor (an identifier), given the data's events.
    pub fn choose_events(descriptor: Option<&str>, data_events: Option<&[XmlEvent]>) -> (r: HbciResult<Option<Self>>)
        ensures
            chosen(
                crate::tools::opt_str_view(descriptor),
                match data_events {
                    Some(evs) => Some(evs@),
                    None => None,
                },
                r,
            ),
    {
        let descriptor_version = match descriptor {
            Some(d) => {
                if d.unicode_len() > 0 {
                    Self::by_urn(d)
                } else {
                    None
                }
            },
            None => None,
        };
        let data_version = match data_events {
            Some(evs) => match Self::autodetect_events(evs) {
                Ok(v) => v,
                Err(e) => {
                    return Err(e);
                },
            },
            None => None,
        };
        match data_version {
            Some(v) => Ok(Some(v)),
            None => Ok(descriptor_version),
        }
    }

    /// The version of SEPA data: that of the data (non-empty XML) where it
    /// names one, else that of the descriptor.
    pub fn choose_version(descriptor: Option<&str>, data: Option<&str>) -> (r: HbciResult<Option<Self>>)
        ensures
            chosen(
                crate::tools::opt_str_view(descriptor),
                match data {
                    Some(x) => if x@.len() > 0 { Some(xml_events_of(x@)) } else { None },
                    None => None,
                },
                r,
            ),
    {
        match data {
            Some(x) => {
                if x.unicode_len() > 0 {
                    let events = xml_events(x);
                    return Self::choose_events(descriptor, Some(events.as_slice()));
                }
            },
            None => {},
        }
        Self::choose_events(descriptor, None)
    }
}

/// What choosing the version gives, from the descriptor and the events of
/// the data where there is data: the data's version where its root names
/// one (an unknown one is an error), else the descriptor's.
pub open spec fn chosen(
    descriptor: Option<Seq<char>>,
    data_events: Option<Seq<XmlEvent>>,
    r: HbciResult<Option<SepaVersion>>,
) -> bool {
    let dv = match descriptor {
        Some(d) => if d.len() > 0 { first_by_urn(known_table(), d) } else { None },
        None => None,
    };
    let by_descriptor = match dv {
        Some(v) => r matches Ok(Some(x)) && x@ == v,
        None => r matches Ok(None),
    };
    match data_events {
        None => by_descriptor,
        Some(evs) => match namespace_of(evs, 0) {
            Err(e) => r matches Err(x) && x@ == e,
            Ok(None) => by_descriptor,
            Ok(Some(ns)) => match first_by_urn(known_table(), ns) {
                Some(v) => r matches Ok(Some(x)) && x@ == v,
                None => r matches Err(x) && x@ == invalid_version(ns),
            },
        },
    }
}

pub open spec fn invalid_version(ns: Seq<char>) -> ErrorView {
    ErrorView { kind: HbciErrorKind::InvalidArgument, message: "invalid sepa-version: "@ + ns, source: None }
}

/// What autodetection gives for a document with the events `evs`.
pub open spec fn autodetected(evs: Seq<XmlEvent>, r: HbciResult<Option<SepaVersion>>) -> bool {
    match namespace_of(evs, 0) {
        Err(e) => r matches Err(x) && x@ == e,
        Ok(None) => r matches Ok(None),
        Ok(Some(ns)) => match first_by_urn(known_table(), ns) {
            Some(v) => r matches Ok(Some(x)) && x@ == v,
            None => r matches Err(x) && x@ == invalid_version(ns),
        },
    }
}

/// The namespace (`xmlns`) of the root element, reading the events from
/// position `i`: declarations, comments and text before the root are
/// skipped; a document without a root has none.
pub open spec fn namespace_of(evs: Seq<XmlEvent>, i: int) -> Result<Option<Seq<char>>, ErrorView>
    decreases evs.len() - i,
{
    if i < 0 || i >= evs.len() {
        Ok(None)
    } else {
        match evs[i] {
            XmlEvent::Start(t) => attr_value(t.checked_attrs@, "xmlns"@, "failed to read XML root attribute"@, "failed to decode XML root namespace"@),
            XmlEvent::Empty(t) => attr_value(t.checked_attrs@, "xmlns"@, "failed to read XML root attribute"@, "failed to decode XML root namespace"@),
            XmlEvent::Eof => Ok(None),
            XmlEvent::Error(e) => Err(read_error("failed to parse XML document"@, e@)),
            _ => namespace_of(evs, i + 1),
        }
    }
}

fn root_namespace_events(events: &[XmlEvent]) -> (r: HbciResult<Option<String>>)
    ensures
        match namespace_of(events@, 0) {
            Ok(v) => r matches Ok(x) && crate::tools::opt_view(x) == v,
            Err(e) => r matches Err(x) && x@ == e,
        },
{
    let mut i: usize = 0;
    while i < events.len()
        invariant
            i <= events@.len(),
            namespace_of(events@, 0) == namespace_of(events@, i as int),
        decreases events.len() - i,
    {
        match &events[i] {
            XmlEvent::Start(t) => {
                return checked_tag_attr(t, "xmlns", "failed to read XML root attribute", "failed to decode XML root namespace");
            },
            XmlEvent::Empty(t) => {
                return checked_tag_attr(t, "xmlns", "failed to read XML root attribute", "failed to decode XML root namespace");
            },
            XmlEvent::Eof => {
                return Ok(None);
            },
            XmlEvent::Error(e) => {
                return Err(HbciError::with_source(HbciErrorKind::Protocol, "failed to parse XML document", e.as_str()));
            },
            _ => {},
        }
        i += 1;
    }
    Ok(None)
}

} // verus!
