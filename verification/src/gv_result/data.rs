//! The result data of account information, standing orders, balances and TAN media.

use vstd::prelude::*;
use crate::gv_result::account::{konto_text, opt_view, saldo_text, value_text, Konto, Saldo, Value};
use crate::text::append;
use crate::gv_result::status::str_views;

verus! {

/// Account information.
#[derive(Debug, Clone, Default)]
pub struct GvrAccInfo {
    pub entries: Vec<GvrAccInfoEntry>,
}

/// Information on one account.
#[derive(Debug, Clone)]
pub struct GvrAccInfoEntry {
    pub account: Konto,
    pub account_kind: Option<i32>,
    pub created: Option<String>,
    pub sollzins: Option<String>,
    pub habenzins: Option<String>,
    pub ueberzins: Option<String>,
    pub kredit: Option<Value>,
    pub ref_account: Option<Konto>,
    pub versandart: Option<i32>,
    pub turnus: Option<i32>,
    pub comment: Option<String>,
    pub address: Option<GvrAccInfoAddress>,
}

/// The address of an account holder.
#[derive(Debug, Clone, Default, PartialEq, Eq)]
pub struct GvrAccInfoAddress {
    pub name1: Option<String>,
    pub name2: Option<String>,
    pub street_pf: Option<String>,
    pub plz_ort: Option<String>,
    pub plz: Option<String>,
    pub ort: Option<String>,
    pub country: Option<String>,
    pub tel: Option<String>,
    pub fax: Option<String>,
    pub email: Option<String>,
}

/// Standing orders.
#[derive(Debug, Clone, Default)]
pub struct GvrDauerList {
    pub entries: Vec<GvrDauerListEntry>,
}

/// One standing order.
#[derive(Debug, Clone)]
pub struct GvrDauerListEntry {
    pub my: Konto,
    pub other: Konto,
    pub value: Option<Value>,
    pub key: Option<String>,
    pub addkey: Option<String>,
    pub usage: Vec<String>,
    pub nextdate: Option<String>,
    pub orderid: Option<String>,
    pub firstdate: Option<String>,
    pub timeunit: Option<String>,
    pub turnus: Option<i32>,
    pub execday: Option<i32>,
    pub exectime: Option<String>,
    pub lastdate: Option<String>,
    pub aussetzung: Option<GvrDauerListAussetzung>,
    pub can_change: bool,
    pub can_skip: bool,
    pub can_delete: bool,
    pub pmtinfid: Option<String>,
    pub purposecode: Option<String>,
    pub sepadescr: Option<String>,
    pub sepapain_raw: Option<String>,
}

/// A suspension of a standing order.
#[derive(Debug, Clone, Default, PartialEq, Eq)]
pub struct GvrDauerListAussetzung {
    pub annual: bool,
    pub startdate: Option<String>,
    pub enddate: Option<String>,
    pub number: Option<String>,
    pub newvalue: Option<Value>,
}

/// The result of creating a standing order.
#[derive(Debug, Clone, Default, PartialEq, Eq)]
pub struct GvrDauerNew {
    pub order_id: Option<String>,
}

/// The result of changing a standing order.
#[derive(Debug, Clone, Default, PartialEq, Eq)]
pub struct GvrDauerEdit {
    pub order_id: Option<String>,
    pub order_id_old: Option<String>,
}

/// The TAN media of a customer.
#[derive(Debug, Clone, Default, PartialEq, Eq)]
pub struct GvrTanMediaList {
    pub tan_option: Option<i32>,
    pub media: Vec<GvrTanMediaInfo>,
}

/// One TAN medium.
#[derive(Debug, Clone, Default, PartialEq, Eq)]
pub struct GvrTanMediaInfo {
    pub media_category: Option<String>,
    pub status: Option<String>,
    pub card_number: Option<String>,
    pub card_seq_number: Option<String>,
    pub card_type: Option<i32>,
    pub valid_from: Option<String>,
    pub valid_to: Option<String>,
    pub tan_list_number: Option<String>,
    pub media_name: Option<String>,
    pub mobile_number: Option<String>,
    pub mobile_number_secure: Option<String>,
    pub free_tans: Option<i32>,
    pub last_use: Option<String>,
    pub activated_on: Option<String>,
}

/// The names of the media with status `1`, where the name is not empty.
pub open spec fn active_names(ms: Seq<GvrTanMediaInfo>) -> Seq<Seq<char>>
    decreases ms.len(),
{
    if ms.len() == 0 {
        seq![]
    } else {
        let m = ms.last();
        let rest = active_names(ms.drop_last());
        if opt_view(m.status) == Some("1"@) && (opt_view(m.media_name) matches Some(n)
            && n.len() > 0) {
            rest.push(opt_view(m.media_name).unwrap())
        } else {
            rest
        }
    }
}

impl GvrTanMediaList {
    /// The names of the active media.
    pub fn active_media_names(&self) -> (r: Vec<String>)
        ensures
            str_views(r@) == active_names(self.media@),
    {
        let mut r: Vec<String> = Vec::new();
        let mut i: usize = 0;
        while i < self.media.len()
            invariant
                i <= self.media@.len(),
                str_views(r@) == active_names(self.media@.take(i as int)),
            decreases self.media.len() - i,
        {
            let m = &self.media[i];
            let ghost t = self.media@.take(i + 1);
            assert(t.drop_last() =~= self.media@.take(i as int));
            assert(t.last() == self.media@[i as int]);
            let active = match &m.status {
                Some(s) => crate::text::str_eq(s.as_str(), "1"),
                None => false,
            };
            if active {
                if let Some(name) = &m.media_name {
                    if name.as_str().unicode_len() > 0 {
                        let ghost before = str_views(r@);
                        r.push(name.clone());
                        assert(str_views(r@) =~= before.push(name@));
                    }
                }
            }
            i += 1;
        }
        assert(self.media@.take(self.media@.len() as int) =~= self.media@);
        r
    }
}

/// Balances of accounts.
#[derive(Debug, Clone, Default)]
pub struct GvrSaldoReq {
    pub entries: Vec<GvrSaldoReqInfo>,
}

/// The balances of one account.
#[derive(Debug, Clone)]
pub struct GvrSaldoReqInfo {
    pub konto: Konto,
    pub ready: Saldo,
    pub unready: Option<Saldo>,
    pub kredit: Option<Value>,
    pub available: Option<Value>,
    pub used: Option<Value>,
}

/// The balances of an account, one per line, as `Display` shows them.
pub open spec fn saldo_info_text(i: GvrSaldoReqInfo) -> Seq<char> {
    "Konto: "@ + konto_text(i.konto) + "\n"@ + "  Gebucht: "@ + saldo_text(i.ready) + match i.unready {
        Some(u) => "\n  Pending: "@ + saldo_text(u),
        None => seq![],
    } + match i.kredit {
        Some(v) => "\n  Kredit: "@ + value_text(v),
        None => seq![],
    } + match i.available {
        Some(v) => "\n  Verfügbar: "@ + value_text(v),
        None => seq![],
    } + match i.used {
        Some(v) => "\n  Benutzt: "@ + value_text(v),
        None => seq![],
    }
}

fn push_opt_value(s: &mut String, label: &str, v: &Option<Value>)
    ensures
        final(s)@ == old(s)@ + match *v {
            Some(x) => label@ + value_text(x),
            None => seq![],
        },
{
    if let Some(x) = v {
        append(s, label);
        append(s, x.to_display_string().as_str());
    }
}

impl GvrSaldoReqInfo {
    pub fn to_display_string(&self) -> (s: String)
        ensures
            s@ == saldo_info_text(*self),
    {
        let mut s = "Konto: ".to_owned();
        append(&mut s, self.konto.to_display_string().as_str());
        append(&mut s, "\n");
        append(&mut s, "  Gebucht: ");
        append(&mut s, self.ready.to_display_string().as_str());
        if let Some(u) = &self.unready {
            append(&mut s, "\n  Pending: ");
            append(&mut s, u.to_display_string().as_str());
        }
        push_opt_value(&mut s, "\n  Kredit: ", &self.kredit);
        push_opt_value(&mut s, "\n  Verfügbar: ", &self.available);
        push_opt_value(&mut s, "\n  Benutzt: ", &self.used);
        s
    }
}

pub open spec fn saldo_infos_texts(es: Seq<GvrSaldoReqInfo>) -> Seq<Seq<char>>
    decreases es.len(),
{
    if es.len() == 0 {
        seq![]
    } else {
        saldo_infos_texts(es.drop_last()).push(saldo_info_text(es.last()))
    }
}

impl GvrSaldoReq {
    /// The accounts' balances, one account after the other.
    pub fn to_display_string(&self) -> (s: String)
        ensures
            s@ == crate::gv_result::status::lines(saldo_infos_texts(self.entries@)),
    {
        let mut parts: Vec<String> = Vec::new();
        let mut i: usize = 0;
        while i < self.entries.len()
            invariant
                i <= self.entries@.len(),
                str_views(parts@) == saldo_infos_texts(self.entries@.take(i as int)),
            decreases self.entries.len() - i,
        {
            let t = self.entries[i].to_display_string();
            let ghost before = str_views(parts@);
            let ghost tv = t@;
            parts.push(t);
            proof {
                let es = self.entries@.take(i + 1);
                assert(es.drop_last() =~= self.entries@.take(i as int));
                assert(es.last() == self.entries@[i as int]);
                assert(str_views(parts@) =~= before.push(tv));
            }
            i += 1;
        }
        assert(self.entries@.take(self.entries@.len() as int) =~= self.entries@);
        crate::gv_result::status::join_lines(&parts)
    }
}

} // verus!
