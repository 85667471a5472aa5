use hbci4rust::error::HbciErrorKind;
use hbci4rust::sepa::{
    decimal_amount_to_cents, normalize_decimal_amount, parse_pain_001_transfers,
    parse_pain_001_transfers_checked, parse_pain_008_direct_debits, sum_sepa_transaction_values,
};
use hbci4rust::tools::Properties;

const PAIN_001: &str = r#"<?xml version="1.0" encoding="UTF-8"?>
<Document xmlns="urn:iso:std:iso:20022:tech:xsd:pain.001.001.03">
  <CstmrCdtTrfInitn>
    <GrpHdr><MsgId>M1</MsgId><InitgPty><Nm>Max Mustermann</Nm></InitgPty></GrpHdr>
    <PmtInf>
      <PmtInfId>P1</PmtInfId>
      <BtchBookg>true</BtchBookg>
      <ReqdExctnDt>2024-05-02</ReqdExctnDt>
      <DbtrAcct><Id><IBAN>DE02123456780012345678</IBAN></Id></DbtrAcct>
      <DbtrAgt><FinInstnId><BIC>TESTDEFFXXX</BIC></FinInstnId></DbtrAgt>
      <CdtTrfTxInf>
        <PmtId><EndToEndId>E1</EndToEndId></PmtId>
        <Amt><InstdAmt Ccy="EUR">12,5</InstdAmt></Amt>
        <CdtrAgt><FinInstnId><BICFI>COBADEFFXXX</BICFI></FinInstnId></CdtrAgt>
        <Cdtr><Nm>Erika</Nm></Cdtr>
        <CdtrAcct><Id><IBAN>DE89370400440532013000</IBAN></Id></CdtrAcct>
        <Purp><Cd>GDDS</Cd></Purp>
        <RmtInf><Ustrd>Rechnung 1</Ustrd><Ustrd>Danke</Ustrd></RmtInf>
      </CdtTrfTxInf>
      <CdtTrfTxInf>
        <Amt><InstdAmt Ccy="USD">3.456</InstdAmt></Amt>
      </CdtTrfTxInf>
    </PmtInf>
  </CstmrCdtTrfInitn>
</Document>
"#;

const PAIN_008: &str = r#"<Document>
  <CstmrDrctDbtInitn>
    <GrpHdr><InitgPty><Nm>Verein</Nm></InitgPty></GrpHdr>
    <PmtInf>
      <PmtInfId>D1</PmtInfId>
      <PmtTpInf><LclInstrm><Cd>CORE</Cd></LclInstrm><SeqTp>FRST</SeqTp></PmtTpInf>
      <ReqdColltnDt>2024-06-01</ReqdColltnDt>
      <CdtrAcct><Id><IBAN>DE02123456780012345678</IBAN></Id></CdtrAcct>
      <CdtrSchmeId><Id><PrvtId><Othr><Id>DE98ZZZ09999999999</Id></Othr></PrvtId></Id></CdtrSchmeId>
      <DrctDbtTxInf>
        <PmtId><EndToEndId>X1</EndToEndId></PmtId>
        <InstdAmt Ccy="EUR">7.00</InstdAmt>
        <DrctDbtTx><MndtRltdInf><MndtId>M-1</MndtId><DtOfSgntr>2020-01-01</DtOfSgntr></MndtRltdInf></DrctDbtTx>
        <Dbtr><Nm>Mitglied</Nm></Dbtr>
        <DbtrAcct><Id><IBAN>DE89370400440532013000</IBAN></Id></DbtrAcct>
      </DrctDbtTxInf>
    </PmtInf>
  </CstmrDrctDbtInitn>
</Document>"#;

#[test]
fn reads_pain_001_transfers() {
    let transfers = parse_pain_001_transfers(PAIN_001).expect("document parses");
    assert_eq!(transfers.len(), 2);
    let t = &transfers[0];
    assert_eq!(t.source.iban.as_deref(), Some("DE02123456780012345678"));
    assert_eq!(t.source.bic.as_deref(), Some("TESTDEFFXXX"));
    assert_eq!(t.source.name.as_deref(), Some("Max Mustermann"));
    assert_eq!(t.destination.name.as_deref(), Some("Erika"));
    assert_eq!(t.destination.iban.as_deref(), Some("DE89370400440532013000"));
    assert_eq!(t.destination.bic.as_deref(), Some("COBADEFFXXX"));
    let value = t.value.as_ref().expect("amount");
    assert_eq!(value.value, "12.50");
    assert_eq!(value.curr.as_deref(), Some("EUR"));
    assert_eq!(t.usage, vec!["Rechnung 1".to_owned(), "Danke".to_owned()]);
    assert_eq!(t.execution_date.as_deref(), Some("2024-05-02"));
    assert_eq!(t.end_to_end_id.as_deref(), Some("E1"));
    assert_eq!(t.payment_info_id.as_deref(), Some("P1"));
    assert_eq!(t.purpose_code.as_deref(), Some("GDDS"));
    assert_eq!(t.batch_book.as_deref(), Some("true"));
    let second = transfers[1].value.as_ref().expect("amount");
    assert_eq!(second.value, "3.46");
    assert_eq!(second.curr.as_deref(), Some("USD"));
}

#[test]
fn malformed_pain_001_is_a_protocol_error() {
    match parse_pain_001_transfers_checked("<Document><PmtInf></Document>") {
        Some(Err(e)) => assert_eq!(e.kind(), HbciErrorKind::Protocol),
        _ => panic!("expected a protocol error"),
    }
}

#[test]
fn reads_pain_008_direct_debits() {
    let debits = parse_pain_008_direct_debits(PAIN_008).expect("document parses");
    assert_eq!(debits.len(), 1);
    let d = &debits[0];
    assert_eq!(d.creditor.name.as_deref(), Some("Verein"));
    assert_eq!(d.creditor.iban.as_deref(), Some("DE02123456780012345678"));
    assert_eq!(d.debtor.name.as_deref(), Some("Mitglied"));
    assert_eq!(d.debtor.iban.as_deref(), Some("DE89370400440532013000"));
    assert_eq!(d.value.as_ref().map(|v| v.value.as_str()), Some("7.00"));
    assert_eq!(d.collection_date.as_deref(), Some("2024-06-01"));
    assert_eq!(d.debit_type.as_deref(), Some("CORE"));
    assert_eq!(d.sequence_type.as_deref(), Some("FRST"));
    assert_eq!(d.creditor_id.as_deref(), Some("DE98ZZZ09999999999"));
    assert_eq!(d.mandate_id.as_deref(), Some("M-1"));
    assert_eq!(d.mandate_date_of_signature.as_deref(), Some("2020-01-01"));
    assert_eq!(d.end_to_end_id.as_deref(), Some("X1"));
}

#[test]
fn sepa_amounts_read_as_cents() {
    assert_eq!(decimal_amount_to_cents(" 12,5 "), Some(1250));
    assert_eq!(decimal_amount_to_cents("-0.005"), Some(-1));
    assert_eq!(decimal_amount_to_cents(".99"), Some(99));
    assert_eq!(decimal_amount_to_cents("abc"), None);
    assert_eq!(normalize_decimal_amount("1,2"), "1.20");
    assert_eq!(normalize_decimal_amount(" x,y "), "x.y");
}

fn params(entries: &[(&str, &str)]) -> Properties {
    let mut p = Properties::new();
    for (k, v) in entries {
        p.insert((*k).to_owned(), (*v).to_owned());
    }
    p
}

#[test]
fn sums_indexed_transactions() {
    let p = params(&[
        ("btg[0].value", "10.50"),
        ("btg[1].value", "1,25"),
        ("btg[0].curr", "EUR"),
        ("src.iban", "DE02123456780012345678"),
    ]);
    let total = sum_sepa_transaction_values(&p).expect("sum");
    assert_eq!(total.value, "11.75");
    assert_eq!(total.curr.as_deref(), Some("EUR"));
}

#[test]
fn sums_single_transaction_and_reports_errors() {
    let single = sum_sepa_transaction_values(&params(&[("btg.value", "3")])).expect("sum");
    assert_eq!(single.value, "3.00");
    assert_eq!(single.curr.as_deref(), Some("EUR"));

    let missing = sum_sepa_transaction_values(&params(&[("btg[1].value", "3")])).expect_err("missing");
    assert_eq!(missing.kind(), HbciErrorKind::InvalidArgument);
    assert_eq!(missing.message(), "missing required SEPA parameter: btg[0].value");

    let invalid = sum_sepa_transaction_values(&params(&[("btg.value", "x")])).expect_err("invalid");
    assert_eq!(invalid.message(), "invalid SEPA amount for btg.value: x");

    let mixed = sum_sepa_transaction_values(&params(&[
        ("btg[0].value", "1"),
        ("btg[1].value", "1"),
        ("btg[1].curr", "USD"),
    ]))
    .expect_err("mixed");
    assert_eq!(mixed.message(), "mixed currencies on multiple transactions");
}
