//! The parameter tables of the jobs that the library knows.

use vstd::prelude::*;
use super::{ConstraintView, HbciJobConstraint, constraint_views, cv};
use crate::text::str_eq;
use crate::sepa::{CAMT_052_001_01_URN, PAIN_001_001_02_URN};

verus! {

/// The parameters of the job tabulated as `dauer_sepa_list`.
pub open spec fn dauer_sepa_list_table() -> Seq<ConstraintView> {
    seq![
        cv("my.bic"@, "DauerSEPAList2.My.bic"@, None),
        cv("my.iban"@, "DauerSEPAList2.My.iban"@, None),
        cv("src.bic"@, "DauerSEPAList2.My.bic"@, Some(""@)),
        cv("src.iban"@, "DauerSEPAList2.My.iban"@, Some(""@)),
        cv("my.country"@, "DauerSEPAList2.My.KIK.country"@, Some(""@)),
        cv("my.blz"@, "DauerSEPAList2.My.KIK.blz"@, Some(""@)),
        cv("my.number"@, "DauerSEPAList2.My.number"@, Some(""@)),
        cv("my.subnumber"@, "DauerSEPAList2.My.subnumber"@, Some(""@)),
        cv("_sepadescriptor"@, "DauerSEPAList2.sepadescr"@, Some(PAIN_001_001_02_URN@)),
        cv("orderid"@, "DauerSEPAList2.orderid"@, Some(""@)),
        cv("maxentries"@, "DauerSEPAList2.maxentries"@, Some(""@)),
    ]
}

fn dauer_sepa_list_constraints() -> (v: Vec<HbciJobConstraint>)
    ensures
        constraint_views(v@) == dauer_sepa_list_table(),
{
    let v = vec![
        HbciJobConstraint::new("my.bic", "DauerSEPAList2.My.bic", None),
        HbciJobConstraint::new("my.iban", "DauerSEPAList2.My.iban", None),
        HbciJobConstraint::new("src.bic", "DauerSEPAList2.My.bic", Some("")),
        HbciJobConstraint::new("src.iban", "DauerSEPAList2.My.iban", Some("")),
        HbciJobConstraint::new("my.country", "DauerSEPAList2.My.KIK.country", Some("")),
        HbciJobConstraint::new("my.blz", "DauerSEPAList2.My.KIK.blz", Some("")),
        HbciJobConstraint::new("my.number", "DauerSEPAList2.My.number", Some("")),
        HbciJobConstraint::new("my.subnumber", "DauerSEPAList2.My.subnumber", Some("")),
        HbciJobConstraint::new("_sepadescriptor", "DauerSEPAList2.sepadescr", Some(PAIN_001_001_02_URN)),
        HbciJobConstraint::new("orderid", "DauerSEPAList2.orderid", Some("")),
        HbciJobConstraint::new("maxentries", "DauerSEPAList2.maxentries", Some("")),
    ];
    assert(constraint_views(v@) =~= dauer_sepa_list_table());
    v
}

/// The parameters of the job tabulated as `dauer_sepa_new`.
pub open spec fn dauer_sepa_new_table() -> Seq<ConstraintView> {
    seq![
        cv("src.bic"@, "DauerSEPANew1.My.bic"@, None),
        cv("src.iban"@, "DauerSEPANew1.My.iban"@, None),
        cv("src.country"@, "DauerSEPANew1.My.KIK.country"@, Some(""@)),
        cv("src.blz"@, "DauerSEPANew1.My.KIK.blz"@, Some(""@)),
        cv("src.number"@, "DauerSEPANew1.My.number"@, Some(""@)),
        cv("src.subnumber"@, "DauerSEPANew1.My.subnumber"@, Some(""@)),
        cv("_sepadescriptor"@, "DauerSEPANew1.sepadescr"@, Some(PAIN_001_001_02_URN@)),
        cv("_sepapain"@, "DauerSEPANew1.sepapain"@, None),
        cv("src.bic"@, "DauerSEPANew1.sepa.src.bic"@, Some(""@)),
        cv("src.iban"@, "DauerSEPANew1.sepa.src.iban"@, Some(""@)),
        cv("src.name"@, "DauerSEPANew1.sepa.src.name"@, Some(""@)),
        cv("dst.bic"@, "DauerSEPANew1.sepa.dst.bic"@, Some(""@)),
        cv("dst.iban"@, "DauerSEPANew1.sepa.dst.iban"@, Some(""@)),
        cv("dst.name"@, "DauerSEPANew1.sepa.dst.name"@, Some(""@)),
        cv("btg.value"@, "DauerSEPANew1.sepa.btg.value"@, Some(""@)),
        cv("btg.curr"@, "DauerSEPANew1.sepa.btg.curr"@, Some("EUR"@)),
        cv("usage"@, "DauerSEPANew1.sepa.usage"@, Some(""@)),
        cv("sepaid"@, "DauerSEPANew1.sepa.sepaid"@, Some(""@)),
        cv("pmtinfid"@, "DauerSEPANew1.sepa.pmtinfid"@, Some(""@)),
        cv("endtoendid"@, "DauerSEPANew1.sepa.endtoendid"@, Some("NOTPROVIDED"@)),
        cv("purposecode"@, "DauerSEPANew1.sepa.purposecode"@, Some(""@)),
        cv("firstdate"@, "DauerSEPANew1.DauerDetails.firstdate"@, None),
        cv("timeunit"@, "DauerSEPANew1.DauerDetails.timeunit"@, None),
        cv("turnus"@, "DauerSEPANew1.DauerDetails.turnus"@, None),
        cv("execday"@, "DauerSEPANew1.DauerDetails.execday"@, None),
        cv("lastdate"@, "DauerSEPANew1.DauerDetails.lastdate"@, Some(""@)),
    ]
}

fn dauer_sepa_new_constraints() -> (v: Vec<HbciJobConstraint>)
    ensures
        constraint_views(v@) == dauer_sepa_new_table(),
{
    let v = vec![
        HbciJobConstraint::new("src.bic", "DauerSEPANew1.My.bic", None),
        HbciJobConstraint::new("src.iban", "DauerSEPANew1.My.iban", None),
        HbciJobConstraint::new("src.country", "DauerSEPANew1.My.KIK.country", Some("")),
        HbciJobConstraint::new("src.blz", "DauerSEPANew1.My.KIK.blz", Some("")),
        HbciJobConstraint::new("src.number", "DauerSEPANew1.My.number", Some("")),
        HbciJobConstraint::new("src.subnumber", "DauerSEPANew1.My.subnumber", Some("")),
        HbciJobConstraint::new("_sepadescriptor", "DauerSEPANew1.sepadescr", Some(PAIN_001_001_02_URN)),
        HbciJobConstraint::new("_sepapain", "DauerSEPANew1.sepapain", None),
        HbciJobConstraint::new("src.bic", "DauerSEPANew1.sepa.src.bic", Some("")),
        HbciJobConstraint::new("src.iban", "DauerSEPANew1.sepa.src.iban", Some("")),
        HbciJobConstraint::new("src.name", "DauerSEPANew1.sepa.src.name", Some("")),
        HbciJobConstraint::new("dst.bic", "DauerSEPANew1.sepa.dst.bic", Some("")),
        HbciJobConstraint::new("dst.iban", "DauerSEPANew1.sepa.dst.iban", Some("")),
        HbciJobConstraint::new("dst.name", "DauerSEPANew1.sepa.dst.name", Some("")),
        HbciJobConstraint::new("btg.value", "DauerSEPANew1.sepa.btg.value", Some("")),
        HbciJobConstraint::new("btg.curr", "DauerSEPANew1.sepa.btg.curr", Some("EUR")),
        HbciJobConstraint::new("usage", "DauerSEPANew1.sepa.usage", Some("")),
        HbciJobConstraint::new("sepaid", "DauerSEPANew1.sepa.sepaid", Some("")),
        HbciJobConstraint::new("pmtinfid", "DauerSEPANew1.sepa.pmtinfid", Some("")),
        HbciJobConstraint::new("endtoendid", "DauerSEPANew1.sepa.endtoendid", Some("NOTPROVIDED")),
        HbciJobConstraint::new("purposecode", "DauerSEPANew1.sepa.purposecode", Some("")),
        HbciJobConstraint::new("firstdate", "DauerSEPANew1.DauerDetails.firstdate", None),
        HbciJobConstraint::new("timeunit", "DauerSEPANew1.DauerDetails.timeunit", None),
        HbciJobConstraint::new("turnus", "DauerSEPANew1.DauerDetails.turnus", None),
        HbciJobConstraint::new("execday", "DauerSEPANew1.DauerDetails.execday", None),
        HbciJobConstraint::new("lastdate", "DauerSEPANew1.DauerDetails.lastdate", Some("")),
    ];
    assert(constraint_views(v@) =~= dauer_sepa_new_table());
    v
}

/// The parameters of the job tabulated as `dauer_sepa_edit`.
pub open spec fn dauer_sepa_edit_table() -> Seq<ConstraintView> {
    seq![
        cv("src.bic"@, "DauerSEPAEdit1.My.bic"@, None),
        cv("src.iban"@, "DauerSEPAEdit1.My.iban"@, None),
        cv("src.country"@, "DauerSEPAEdit1.My.KIK.country"@, Some(""@)),
        cv("src.blz"@, "DauerSEPAEdit1.My.KIK.blz"@, Some(""@)),
        cv("src.number"@, "DauerSEPAEdit1.My.number"@, Some(""@)),
        cv("src.subnumber"@, "DauerSEPAEdit1.My.subnumber"@, Some(""@)),
        cv("_sepadescriptor"@, "DauerSEPAEdit1.sepadescr"@, Some(PAIN_001_001_02_URN@)),
        cv("_sepapain"@, "DauerSEPAEdit1.sepapain"@, None),
        cv("orderid"@, "DauerSEPAEdit1.orderid"@, None),
        cv("src.bic"@, "DauerSEPAEdit1.sepa.src.bic"@, Some(""@)),
        cv("src.iban"@, "DauerSEPAEdit1.sepa.src.iban"@, Some(""@)),
        cv("src.name"@, "DauerSEPAEdit1.sepa.src.name"@, Some(""@)),
        cv("dst.bic"@, "DauerSEPAEdit1.sepa.dst.bic"@, Some(""@)),
        cv("dst.iban"@, "DauerSEPAEdit1.sepa.dst.iban"@, Some(""@)),
        cv("dst.name"@, "DauerSEPAEdit1.sepa.dst.name"@, Some(""@)),
        cv("btg.value"@, "DauerSEPAEdit1.sepa.btg.value"@, Some(""@)),
        cv("btg.curr"@, "DauerSEPAEdit1.sepa.btg.curr"@, Some("EUR"@)),
        cv("usage"@, "DauerSEPAEdit1.sepa.usage"@, Some(""@)),
        cv("date"@, "DauerSEPAEdit1.date"@, Some(""@)),
        cv("sepaid"@, "DauerSEPAEdit1.sepa.sepaid"@, Some(""@)),
        cv("pmtinfid"@, "DauerSEPAEdit1.sepa.pmtinfid"@, Some(""@)),
        cv("endtoendid"@, "DauerSEPAEdit1.sepa.endtoendid"@, Some("NOTPROVIDED"@)),
        cv("purposecode"@, "DauerSEPAEdit1.sepa.purposecode"@, Some(""@)),
        cv("firstdate"@, "DauerSEPAEdit1.DauerDetails.firstdate"@, None),
        cv("timeunit"@, "DauerSEPAEdit1.DauerDetails.timeunit"@, None),
        cv("turnus"@, "DauerSEPAEdit1.DauerDetails.turnus"@, None),
        cv("execday"@, "DauerSEPAEdit1.DauerDetails.execday"@, None),
        cv("lastdate"@, "DauerSEPAEdit1.DauerDetails.lastdate"@, Some(""@)),
    ]
}

fn dauer_sepa_edit_constraints() -> (v: Vec<HbciJobConstraint>)
    ensures
        constraint_views(v@) == dauer_sepa_edit_table(),
{
    let v = vec![
        HbciJobConstraint::new("src.bic", "DauerSEPAEdit1.My.bic", None),
        HbciJobConstraint::new("src.iban", "DauerSEPAEdit1.My.iban", None),
        HbciJobConstraint::new("src.country", "DauerSEPAEdit1.My.KIK.country", Some("")),
        HbciJobConstraint::new("src.blz", "DauerSEPAEdit1.My.KIK.blz", Some("")),
        HbciJobConstraint::new("src.number", "DauerSEPAEdit1.My.number", Some("")),
        HbciJobConstraint::new("src.subnumber", "DauerSEPAEdit1.My.subnumber", Some("")),
        HbciJobConstraint::new("_sepadescriptor", "DauerSEPAEdit1.sepadescr", Some(PAIN_001_001_02_URN)),
        HbciJobConstraint::new("_sepapain", "DauerSEPAEdit1.sepapain", None),
        HbciJobConstraint::new("orderid", "DauerSEPAEdit1.orderid", None),
        HbciJobConstraint::new("src.bic", "DauerSEPAEdit1.sepa.src.bic", Some("")),
        HbciJobConstraint::new("src.iban", "DauerSEPAEdit1.sepa.src.iban", Some("")),
        HbciJobConstraint::new("src.name", "DauerSEPAEdit1.sepa.src.name", Some("")),
        HbciJobConstraint::new("dst.bic", "DauerSEPAEdit1.sepa.dst.bic", Some("")),
        HbciJobConstraint::new("dst.iban", "DauerSEPAEdit1.sepa.dst.iban", Some("")),
        HbciJobConstraint::new("dst.name", "DauerSEPAEdit1.sepa.dst.name", Some("")),
        HbciJobConstraint::new("btg.value", "DauerSEPAEdit1.sepa.btg.value", Some("")),
        HbciJobConstraint::new("btg.curr", "DauerSEPAEdit1.sepa.btg.curr", Some("EUR")),
        HbciJobConstraint::new("usage", "DauerSEPAEdit1.sepa.usage", Some("")),
        HbciJobConstraint::new("date", "DauerSEPAEdit1.date", Some("")),
        HbciJobConstraint::new("sepaid", "DauerSEPAEdit1.sepa.sepaid", Some("")),
        HbciJobConstraint::new("pmtinfid", "DauerSEPAEdit1.sepa.pmtinfid", Some("")),
        HbciJobConstraint::new("endtoendid", "DauerSEPAEdit1.sepa.endtoendid", Some("NOTPROVIDED")),
        HbciJobConstraint::new("purposecode", "DauerSEPAEdit1.sepa.purposecode", Some("")),
        HbciJobConstraint::new("firstdate", "DauerSEPAEdit1.DauerDetails.firstdate", None),
        HbciJobConstraint::new("timeunit", "DauerSEPAEdit1.DauerDetails.timeunit", None),
        HbciJobConstraint::new("turnus", "DauerSEPAEdit1.DauerDetails.turnus", None),
        HbciJobConstraint::new("execday", "DauerSEPAEdit1.DauerDetails.execday", None),
        HbciJobConstraint::new("lastdate", "DauerSEPAEdit1.DauerDetails.lastdate", Some("")),
    ];
    assert(constraint_views(v@) =~= dauer_sepa_edit_table());
    v
}

/// The parameters of the job tabulated as `acc_info`.
pub open spec fn acc_info_table() -> Seq<ConstraintView> {
    seq![
        cv("my.country"@, "AccInfo2.KTV.KIK.country"@, Some("DE"@)),
        cv("my.blz"@, "AccInfo2.KTV.KIK.blz"@, None),
        cv("my.number"@, "AccInfo2.KTV.number"@, None),
        cv("my.subnumber"@, "AccInfo2.KTV.subnumber"@, Some(""@)),
        cv("all"@, "AccInfo2.allaccounts"@, Some("N"@)),
    ]
}

fn acc_info_constraints() -> (v: Vec<HbciJobConstraint>)
    ensures
        constraint_views(v@) == acc_info_table(),
{
    let v = vec![
        HbciJobConstraint::new("my.country", "AccInfo2.KTV.KIK.country", Some("DE")),
        HbciJobConstraint::new("my.blz", "AccInfo2.KTV.KIK.blz", None),
        HbciJobConstraint::new("my.number", "AccInfo2.KTV.number", None),
        HbciJobConstraint::new("my.subnumber", "AccInfo2.KTV.subnumber", Some("")),
        HbciJobConstraint::new("all", "AccInfo2.allaccounts", Some("N")),
    ];
    assert(constraint_views(v@) =~= acc_info_table());
    v
}

/// The parameters of the job tabulated as `kums_all`.
pub open spec fn kums_all_table() -> Seq<ConstraintView> {
    seq![
        cv("my.bic"@, "KUmsZeit7.KTV.bic"@, None),
        cv("my.iban"@, "KUmsZeit7.KTV.iban"@, None),
        cv("my.country"@, "KUmsZeit7.KTV.KIK.country"@, Some("DE"@)),
        cv("my.blz"@, "KUmsZeit7.KTV.KIK.blz"@, None),
        cv("my.number"@, "KUmsZeit7.KTV.number"@, None),
        cv("my.subnumber"@, "KUmsZeit7.KTV.subnumber"@, Some(""@)),
        cv("startdate"@, "KUmsZeit7.startdate"@, Some(""@)),
        cv("enddate"@, "KUmsZeit7.enddate"@, Some(""@)),
        cv("maxentries"@, "KUmsZeit7.maxentries"@, Some(""@)),
        cv("dummy"@, "KUmsZeit7.allaccounts"@, Some("N"@)),
    ]
}

fn kums_all_constraints() -> (v: Vec<HbciJobConstraint>)
    ensures
        constraint_views(v@) == kums_all_table(),
{
    let v = vec![
        HbciJobConstraint::new("my.bic", "KUmsZeit7.KTV.bic", None),
        HbciJobConstraint::new("my.iban", "KUmsZeit7.KTV.iban", None),
        HbciJobConstraint::new("my.country", "KUmsZeit7.KTV.KIK.country", Some("DE")),
        HbciJobConstraint::new("my.blz", "KUmsZeit7.KTV.KIK.blz", None),
        HbciJobConstraint::new("my.number", "KUmsZeit7.KTV.number", None),
        HbciJobConstraint::new("my.subnumber", "KUmsZeit7.KTV.subnumber", Some("")),
        HbciJobConstraint::new("startdate", "KUmsZeit7.startdate", Some("")),
        HbciJobConstraint::new("enddate", "KUmsZeit7.enddate", Some("")),
        HbciJobConstraint::new("maxentries", "KUmsZeit7.maxentries", Some("")),
        HbciJobConstraint::new("dummy", "KUmsZeit7.allaccounts", Some("N")),
    ];
    assert(constraint_views(v@) =~= kums_all_table());
    v
}

/// The parameters of the job tabulated as `kums_new`.
pub open spec fn kums_new_table() -> Seq<ConstraintView> {
    seq![
        cv("my.bic"@, "KUmsNew7.KTV.bic"@, None),
        cv("my.iban"@, "KUmsNew7.KTV.iban"@, None),
        cv("my.country"@, "KUmsNew7.KTV.KIK.country"@, Some("DE"@)),
        cv("my.blz"@, "KUmsNew7.KTV.KIK.blz"@, None),
        cv("my.number"@, "KUmsNew7.KTV.number"@, None),
        cv("my.subnumber"@, "KUmsNew7.KTV.subnumber"@, Some(""@)),
        cv("maxentries"@, "KUmsNew7.maxentries"@, Some(""@)),
        cv("dummyall"@, "KUmsNew7.allaccounts"@, Some("N"@)),
    ]
}

fn kums_new_constraints() -> (v: Vec<HbciJobConstraint>)
    ensures
        constraint_views(v@) == kums_new_table(),
{
    let v = vec![
        HbciJobConstraint::new("my.bic", "KUmsNew7.KTV.bic", None),
        HbciJobConstraint::new("my.iban", "KUmsNew7.KTV.iban", None),
        HbciJobConstraint::new("my.country", "KUmsNew7.KTV.KIK.country", Some("DE")),
        HbciJobConstraint::new("my.blz", "KUmsNew7.KTV.KIK.blz", None),
        HbciJobConstraint::new("my.number", "KUmsNew7.KTV.number", None),
        HbciJobConstraint::new("my.subnumber", "KUmsNew7.KTV.subnumber", Some("")),
        HbciJobConstraint::new("maxentries", "KUmsNew7.maxentries", Some("")),
        HbciJobConstraint::new("dummyall", "KUmsNew7.allaccounts", Some("N")),
    ];
    assert(constraint_views(v@) =~= kums_new_table());
    v
}

/// The parameters of the job tabulated as `kums_all_camt`.
pub open spec fn kums_all_camt_table() -> Seq<ConstraintView> {
    seq![
        cv("my.bic"@, "KUmsZeitCamt1.KTV.bic"@, None),
        cv("my.iban"@, "KUmsZeitCamt1.KTV.iban"@, None),
        cv("my.country"@, "KUmsZeitCamt1.KTV.KIK.country"@, Some("DE"@)),
        cv("my.blz"@, "KUmsZeitCamt1.KTV.KIK.blz"@, None),
        cv("my.number"@, "KUmsZeitCamt1.KTV.number"@, None),
        cv("my.subnumber"@, "KUmsZeitCamt1.KTV.subnumber"@, Some(""@)),
        cv("suppformat"@, "KUmsZeitCamt1.formats.suppformat"@, Some(CAMT_052_001_01_URN@)),
        cv("dummy"@, "KUmsZeitCamt1.allaccounts"@, Some("N"@)),
        cv("startdate"@, "KUmsZeitCamt1.startdate"@, Some(""@)),
        cv("enddate"@, "KUmsZeitCamt1.enddate"@, Some(""@)),
        cv("maxentries"@, "KUmsZeitCamt1.maxentries"@, Some(""@)),
        cv("offset"@, "KUmsZeitCamt1.offset"@, Some(""@)),
    ]
}

fn kums_all_camt_constraints() -> (v: Vec<HbciJobConstraint>)
    ensures
        constraint_views(v@) == kums_all_camt_table(),
{
    let v = vec![
        HbciJobConstraint::new("my.bic", "KUmsZeitCamt1.KTV.bic", None),
        HbciJobConstraint::new("my.iban", "KUmsZeitCamt1.KTV.iban", None),
        HbciJobConstraint::new("my.country", "KUmsZeitCamt1.KTV.KIK.country", Some("DE")),
        HbciJobConstraint::new("my.blz", "KUmsZeitCamt1.KTV.KIK.blz", None),
        HbciJobConstraint::new("my.number", "KUmsZeitCamt1.KTV.number", None),
        HbciJobConstraint::new("my.subnumber", "KUmsZeitCamt1.KTV.subnumber", Some("")),
        HbciJobConstraint::new("suppformat", "KUmsZeitCamt1.formats.suppformat", Some(CAMT_052_001_01_URN)),
        HbciJobConstraint::new("dummy", "KUmsZeitCamt1.allaccounts", Some("N")),
        HbciJobConstraint::new("startdate", "KUmsZeitCamt1.startdate", Some("")),
        HbciJobConstraint::new("enddate", "KUmsZeitCamt1.enddate", Some("")),
        HbciJobConstraint::new("maxentries", "KUmsZeitCamt1.maxentries", Some("")),
        HbciJobConstraint::new("offset", "KUmsZeitCamt1.offset", Some("")),
    ];
    assert(constraint_views(v@) =~= kums_all_camt_table());
    v
}

/// The parameters of the job tabulated as `saldo_req`. The account may be
/// given by its IBAN alone: BIC, bank code and account number are optional.
pub open spec fn saldo_req_table() -> Seq<ConstraintView> {
    seq![
        cv("my.bic"@, "Saldo7.KTV.bic"@, Some(""@)),
        cv("my.iban"@, "Saldo7.KTV.iban"@, None),
        cv("my.country"@, "Saldo7.KTV.KIK.country"@, Some("DE"@)),
        cv("my.blz"@, "Saldo7.KTV.KIK.blz"@, Some(""@)),
        cv("my.number"@, "Saldo7.KTV.number"@, Some(""@)),
        cv("my.subnumber"@, "Saldo7.KTV.subnumber"@, Some(""@)),
        cv("dummyall"@, "Saldo7.allaccounts"@, Some("N"@)),
        cv("maxentries"@, "Saldo7.maxentries"@, Some(""@)),
    ]
}

fn saldo_req_constraints() -> (v: Vec<HbciJobConstraint>)
    ensures
        constraint_views(v@) == saldo_req_table(),
{
    let v = vec![
        HbciJobConstraint::new("my.bic", "Saldo7.KTV.bic", Some("")),
        HbciJobConstraint::new("my.iban", "Saldo7.KTV.iban", None),
        HbciJobConstraint::new("my.country", "Saldo7.KTV.KIK.country", Some("DE")),
        HbciJobConstraint::new("my.blz", "Saldo7.KTV.KIK.blz", Some("")),
        HbciJobConstraint::new("my.number", "Saldo7.KTV.number", Some("")),
        HbciJobConstraint::new("my.subnumber", "Saldo7.KTV.subnumber", Some("")),
        HbciJobConstraint::new("dummyall", "Saldo7.allaccounts", Some("N")),
        HbciJobConstraint::new("maxentries", "Saldo7.maxentries", Some("")),
    ];
    assert(constraint_views(v@) =~= saldo_req_table());
    v
}

/// The parameters of the job tabulated as `saldo_req_all`.
pub open spec fn saldo_req_all_table() -> Seq<ConstraintView> {
    seq![
        cv("maxentries"@, "Saldo7.maxentries"@, Some(""@)),
        cv("dummyall"@, "Saldo7.allaccounts"@, Some("J"@)),
        cv("my.bic"@, "Saldo7.KTV.bic"@, None),
        cv("my.iban"@, "Saldo7.KTV.iban"@, None),
        cv("my.country"@, "Saldo7.KTV.KIK.country"@, Some("DE"@)),
        cv("my.blz"@, "Saldo7.KTV.KIK.blz"@, None),
        cv("my.number"@, "Saldo7.KTV.number"@, None),
        cv("my.subnumber"@, "Saldo7.KTV.subnumber"@, Some(""@)),
    ]
}

fn saldo_req_all_constraints() -> (v: Vec<HbciJobConstraint>)
    ensures
        constraint_views(v@) == saldo_req_all_table(),
{
    let v = vec![
        HbciJobConstraint::new("maxentries", "Saldo7.maxentries", Some("")),
        HbciJobConstraint::new("dummyall", "Saldo7.allaccounts", Some("J")),
        HbciJobConstraint::new("my.bic", "Saldo7.KTV.bic", None),
        HbciJobConstraint::new("my.iban", "Saldo7.KTV.iban", None),
        HbciJobConstraint::new("my.country", "Saldo7.KTV.KIK.country", Some("DE")),
        HbciJobConstraint::new("my.blz", "Saldo7.KTV.KIK.blz", None),
        HbciJobConstraint::new("my.number", "Saldo7.KTV.number", None),
        HbciJobConstraint::new("my.subnumber", "Saldo7.KTV.subnumber", Some("")),
    ];
    assert(constraint_views(v@) =~= saldo_req_all_table());
    v
}

/// The parameters of the job tabulated as `tan_media_list`.
pub open spec fn tan_media_list_table() -> Seq<ConstraintView> {
    seq![
        cv("mediatype"@, "TANMediaList4.mediatype"@, Some("0"@)),
        cv("mediacategory"@, "TANMediaList4.mediacategory"@, Some("A"@)),
    ]
}

fn tan_media_list_constraints() -> (v: Vec<HbciJobConstraint>)
    ensures
        constraint_views(v@) == tan_media_list_table(),
{
    let v = vec![
        HbciJobConstraint::new("mediatype", "TANMediaList4.mediatype", Some("0")),
        HbciJobConstraint::new("mediacategory", "TANMediaList4.mediacategory", Some("A")),
    ];
    assert(constraint_views(v@) =~= tan_media_list_table());
    v
}

/// The parameters of the job tabulated as `tan2step`.
pub open spec fn tan2step_table() -> Seq<ConstraintView> {
    seq![
        cv("process"@, "TAN2Step5.process"@, None),
        cv("ordersegcode"@, "TAN2Step5.ordersegcode"@, Some(""@)),
        cv("orderaccount.bic"@, "TAN2Step5.OrderAccount.bic"@, Some(""@)),
        cv("orderaccount.iban"@, "TAN2Step5.OrderAccount.iban"@, Some(""@)),
        cv("orderaccount.number"@, "TAN2Step5.OrderAccount.number"@, Some(""@)),
        cv("orderaccount.subnumber"@, "TAN2Step5.OrderAccount.subnumber"@, Some(""@)),
        cv("orderaccount.blz"@, "TAN2Step5.OrderAccount.KIK.blz"@, Some(""@)),
        cv("orderaccount.country"@, "TAN2Step5.OrderAccount.KIK.country"@, Some("DE"@)),
        cv("orderhash"@, "TAN2Step5.orderhash"@, Some(""@)),
        cv("orderref"@, "TAN2Step5.orderref"@, Some(""@)),
        cv("listidx"@, "TAN2Step5.listidx"@, Some(""@)),
        cv("notlasttan"@, "TAN2Step5.notlasttan"@, Some(""@)),
        cv("storno"@, "TAN2Step5.storno"@, Some(""@)),
        cv("challengeklass"@, "TAN2Step5.challengeklass"@, Some(""@)),
        cv("ChallengeKlassParam1"@, "TAN2Step5.ChallengeKlassParams.param1"@, Some(""@)),
        cv("ChallengeKlassParam2"@, "TAN2Step5.ChallengeKlassParams.param2"@, Some(""@)),
        cv("ChallengeKlassParam3"@, "TAN2Step5.ChallengeKlassParams.param3"@, Some(""@)),
        cv("ChallengeKlassParam4"@, "TAN2Step5.ChallengeKlassParams.param4"@, Some(""@)),
        cv("ChallengeKlassParam5"@, "TAN2Step5.ChallengeKlassParams.param5"@, Some(""@)),
        cv("ChallengeKlassParam6"@, "TAN2Step5.ChallengeKlassParams.param6"@, Some(""@)),
        cv("ChallengeKlassParam7"@, "TAN2Step5.ChallengeKlassParams.param7"@, Some(""@)),
        cv("ChallengeKlassParam8"@, "TAN2Step5.ChallengeKlassParams.param8"@, Some(""@)),
        cv("ChallengeKlassParam9"@, "TAN2Step5.ChallengeKlassParams.param9"@, Some(""@)),
        cv("tanmedia"@, "TAN2Step5.tanmedia"@, Some(""@)),
    ]
}

fn tan2step_constraints() -> (v: Vec<HbciJobConstraint>)
    ensures
        constraint_views(v@) == tan2step_table(),
{
    let v = vec![
        HbciJobConstraint::new("process", "TAN2Step5.process", None),
        HbciJobConstraint::new("ordersegcode", "TAN2Step5.ordersegcode", Some("")),
        HbciJobConstraint::new("orderaccount.bic", "TAN2Step5.OrderAccount.bic", Some("")),
        HbciJobConstraint::new("orderaccount.iban", "TAN2Step5.OrderAccount.iban", Some("")),
        HbciJobConstraint::new("orderaccount.number", "TAN2Step5.OrderAccount.number", Some("")),
        HbciJobConstraint::new("orderaccount.subnumber", "TAN2Step5.OrderAccount.subnumber", Some("")),
        HbciJobConstraint::new("orderaccount.blz", "TAN2Step5.OrderAccount.KIK.blz", Some("")),
        HbciJobConstraint::new("orderaccount.country", "TAN2Step5.OrderAccount.KIK.country", Some("DE")),
        HbciJobConstraint::new("orderhash", "TAN2Step5.orderhash", Some("")),
        HbciJobConstraint::new("orderref", "TAN2Step5.orderref", Some("")),
        HbciJobConstraint::new("listidx", "TAN2Step5.listidx", Some("")),
        HbciJobConstraint::new("notlasttan", "TAN2Step5.notlasttan", Some("")),
        HbciJobConstraint::new("storno", "TAN2Step5.storno", Some("")),
        HbciJobConstraint::new("challengeklass", "TAN2Step5.challengeklass", Some("")),
        HbciJobConstraint::new("ChallengeKlassParam1", "TAN2Step5.ChallengeKlassParams.param1", Some("")),
        HbciJobConstraint::new("ChallengeKlassParam2", "TAN2Step5.ChallengeKlassParams.param2", Some("")),
        HbciJobConstraint::new("ChallengeKlassParam3", "TAN2Step5.ChallengeKlassParams.param3", Some("")),
        HbciJobConstraint::new("ChallengeKlassParam4", "TAN2Step5.ChallengeKlassParams.param4", Some("")),
        HbciJobConstraint::new("ChallengeKlassParam5", "TAN2Step5.ChallengeKlassParams.param5", Some("")),
        HbciJobConstraint::new("ChallengeKlassParam6", "TAN2Step5.ChallengeKlassParams.param6", Some("")),
        HbciJobConstraint::new("ChallengeKlassParam7", "TAN2Step5.ChallengeKlassParams.param7", Some("")),
        HbciJobConstraint::new("ChallengeKlassParam8", "TAN2Step5.ChallengeKlassParams.param8", Some("")),
        HbciJobConstraint::new("ChallengeKlassParam9", "TAN2Step5.ChallengeKlassParams.param9", Some("")),
        HbciJobConstraint::new("tanmedia", "TAN2Step5.tanmedia", Some("")),
    ];
    assert(constraint_views(v@) =~= tan2step_table());
    v
}

/// The parameters that a job of the given name accepts (none for a job
/// without a table).
pub open spec fn constraint_table(name: Seq<char>) -> Seq<ConstraintView> {
    if name == "AccInfo"@ {
        acc_info_table()
    } else if name == "DauerSEPAEdit"@ {
        dauer_sepa_edit_table()
    } else if name == "DauerSEPAList"@ {
        dauer_sepa_list_table()
    } else if name == "DauerSEPANew"@ {
        dauer_sepa_new_table()
    } else if name == "KUmsAll"@ {
        kums_all_table()
    } else if name == "KUmsAllCamt"@ {
        kums_all_camt_table()
    } else if name == "KUmsNew"@ {
        kums_new_table()
    } else if name == "SaldoReq"@ {
        saldo_req_table()
    } else if name == "SaldoReqAll"@ {
        saldo_req_all_table()
    } else if name == "TANMediaList"@ {
        tan_media_list_table()
    } else if name == "TAN2Step"@ {
        tan2step_table()
    } else {
        seq![]
    }
}

/// The parameter constraints of the job `name`.
pub(crate) fn constraints_for_job(name: &str) -> (v: Vec<HbciJobConstraint>)
    ensures
        constraint_views(v@) == constraint_table(name@),
{
    if str_eq(name, "AccInfo") {
        acc_info_constraints()
    } else if str_eq(name, "DauerSEPAEdit") {
        dauer_sepa_edit_constraints()
    } else if str_eq(name, "DauerSEPAList") {
        dauer_sepa_list_constraints()
    } else if str_eq(name, "DauerSEPANew") {
        dauer_sepa_new_constraints()
    } else if str_eq(name, "KUmsAll") {
        kums_all_constraints()
    } else if str_eq(name, "KUmsAllCamt") {
        kums_all_camt_constraints()
    } else if str_eq(name, "KUmsNew") {
        kums_new_constraints()
    } else if str_eq(name, "SaldoReq") {
        saldo_req_constraints()
    } else if str_eq(name, "SaldoReqAll") {
        saldo_req_all_constraints()
    } else if str_eq(name, "TANMediaList") {
        tan_media_list_constraints()
    } else if str_eq(name, "TAN2Step") {
        tan2step_constraints()
    } else {
        let v: Vec<HbciJobConstraint> = Vec::new();
        assert(constraint_views(v@) =~= seq![]);
        v
    }
}

} // verus!
