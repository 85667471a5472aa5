use hbci4rust::error::HbciErrorKind;
use hbci4rust::sepa::{camt_reports_from_events, parse_camt_report_shell, parse_camt_report_shell_checked, SepaVersion};
use hbci4rust::xml::xml_events;

const CAMT: &str = r#"<?xml version="1.0" encoding="UTF-8"?>
<Document xmlns="urn:iso:std:iso:20022:tech:xsd:camt.052.001.02">
 <BkToCstmrAcctRpt>
  <Rpt>
   <Acct>
    <Id><IBAN>DE02123456780012345678</IBAN></Id>
    <Ccy>EUR</Ccy>
    <Svcr><FinInstnId><BIC>TESTDEFFXXX</BIC></FinInstnId></Svcr>
   </Acct>
   <Bal><Tp><CdOrPrtry><Cd>PRCD</Cd></CdOrPrtry></Tp><Amt Ccy="EUR">100.00</Amt><CdtDbtInd>CRDT</CdtDbtInd><Dt><Dt>2024-02-28</Dt></Dt></Bal>
   <Bal><Tp><CdOrPrtry><Cd>CLBD</Cd></CdOrPrtry></Tp><Amt Ccy="EUR">120.50</Amt><CdtDbtInd>CRDT</CdtDbtInd><Dt><Dt>2024-02-29</Dt></Dt></Bal>
   <Ntry>
    <Amt Ccy="EUR">30,5</Amt>
    <CdtDbtInd>CRDT</CdtDbtInd>
    <BookgDt><Dt>2024-02-29</Dt></BookgDt>
    <ValDt><DtTm>2024-02-29T12:00:00</DtTm></ValDt>
    <AcctSvcrRef>REF1</AcctSvcrRef>
    <NtryDtls>
     <TxDtls>
      <Refs><EndToEndId>E2E1</EndToEndId><MndtId>MAND1</MndtId></Refs>
      <RltdPties>
       <Dbtr><Nm>Erika</Nm></Dbtr>
       <DbtrAcct><Id><IBAN>DE89370400440532013000</IBAN></Id></DbtrAcct>
       <Cdtr><Nm>Max</Nm></Cdtr>
      </RltdPties>
      <RltdAgts><DbtrAgt><FinInstnId><BIC>COBADEFFXXX</BIC></FinInstnId></DbtrAgt></RltdAgts>
      <RmtInf><Ustrd>Rechnung 1</Ustrd><Ustrd>Danke</Ustrd></RmtInf>
      <BkTxCd><Prtry><Cd>NTRF+166+9310+000</Cd></Prtry></BkTxCd>
     </TxDtls>
     <TxDtls><Refs><EndToEndId>SECOND</EndToEndId></Refs></TxDtls>
    </NtryDtls>
   </Ntry>
   <Ntry>
    <Amt Ccy="EUR">10.00</Amt>
    <CdtDbtInd>DBIT</CdtDbtInd>
    <BookgDt><Dt>2024-02-29</Dt></BookgDt>
    <AddtlNtryInf>Gebuehr</AddtlNtryInf>
   </Ntry>
  </Rpt>
 </BkToCstmrAcctRpt>
</Document>"#;

const CAMT_UNDATED_START: &str = r#"<Document>
 <BkToCstmrAcctRpt>
  <Rpt>
   <Acct><Id><IBAN>DE02</IBAN></Id></Acct>
   <Bal><Tp><CdOrPrtry><Cd>OPBD</Cd></CdOrPrtry></Tp><Amt Ccy="EUR">40.00</Amt></Bal>
   <Bal><Tp><CdOrPrtry><Cd>CLBD</Cd></CdOrPrtry></Tp><Amt Ccy="EUR">50.00</Amt><Dt><Dt>2024-03-01</Dt></Dt></Bal>
   <Ntry><Amt>5</Amt><CdtDbtInd>CRDT</CdtDbtInd></Ntry>
   <Ntry>
    <Amt>2</Amt><CdtDbtInd>DBIT</CdtDbtInd>
    <NtryDtls><TxDtls>
     <RltdPties><Cdtr><Nm>Bank</Nm></Cdtr><Dbtr><Nm>Ich</Nm></Dbtr></RltdPties>
     <AmtDtls><InstdAmt><Amt Ccy="USD">12,3</Amt></InstdAmt></AmtDtls>
     <RtrInf><Rsn><Cd>AC04</Cd></Rsn><AddtlInf>a</AddtlInf><AddtlInf>b</AddtlInf></RtrInf>
    </TxDtls></NtryDtls>
   </Ntry>
   <Ntry><Amt>1</Amt><NtryDtls/></Ntry>
  </Rpt>
 </BkToCstmrAcctRpt>
</Document>"#;

#[test]
fn reads_camt_report() {
    let tags = parse_camt_report_shell(CAMT, SepaVersion::camt_052_001_02()).expect("document reads");
    assert_eq!(tags.len(), 1);
    let tag = &tags[0];
    assert_eq!(tag.my.iban.as_deref(), Some("DE02123456780012345678"));
    assert_eq!(tag.my.curr.as_deref(), Some("EUR"));
    assert_eq!(tag.my.bic.as_deref(), Some("TESTDEFFXXX"));
    assert_eq!(tag.start_type, 'F');
    assert_eq!(tag.end_type, 'F');
    let start = tag.start.as_ref().expect("opening balance");
    assert_eq!(start.value.value, "100.00");
    assert_eq!(start.value.curr.as_deref(), Some("EUR"));
    assert_eq!(start.date.as_deref(), Some("2024-02-29"));
    let end = tag.end.as_ref().expect("closing balance");
    assert_eq!(end.value.value, "120.50");
    assert_eq!(end.date.as_deref(), Some("2024-02-29"));

    assert_eq!(tag.lines.len(), 2);
    let first = &tag.lines[0];
    assert_eq!(first.value.as_ref().unwrap().value, "30.50");
    assert_eq!(first.value.as_ref().unwrap().curr.as_deref(), Some("EUR"));
    assert_eq!(first.saldo.as_ref().unwrap().value.value, "130.50");
    assert_eq!(first.bdate.as_deref(), Some("2024-02-29"));
    assert_eq!(first.valuta.as_deref(), Some("2024-02-29"));
    assert_eq!(first.id.as_deref(), Some("REF1"));
    assert_eq!(first.customerref.as_deref(), Some("REF1"));
    assert_eq!(first.end_to_end_id.as_deref(), Some("E2E1"));
    assert_eq!(first.mandate_id.as_deref(), Some("MAND1"));
    let other = first.other.as_ref().unwrap();
    assert_eq!(other.name.as_deref(), Some("Erika"));
    assert_eq!(other.iban.as_deref(), Some("DE89370400440532013000"));
    assert_eq!(other.bic.as_deref(), Some("COBADEFFXXX"));
    assert_eq!(first.usage, vec!["Rechnung 1".to_owned(), "Danke".to_owned()]);
    assert_eq!(first.gvcode.as_deref(), Some("166"));
    assert_eq!(first.primanota.as_deref(), Some("9310"));
    assert_eq!(first.addkey.as_deref(), Some("000"));
    assert!(first.is_sepa && first.is_camt && !first.is_storno);

    let second = &tag.lines[1];
    assert_eq!(second.value.as_ref().unwrap().value, "-10.00");
    assert_eq!(second.saldo.as_ref().unwrap().value.value, "120.50");
    assert_eq!(second.valuta.as_deref(), Some("2024-02-29"));
    assert_eq!(second.text.as_deref(), Some("Gebuehr"));
    assert_eq!(second.usage, vec!["Gebuehr".to_owned()]);
    assert_eq!(second.other.as_ref().unwrap().iban, None);
}

#[test]
fn works_balances_back_from_closing_balance() {
    let tags = parse_camt_report_shell(CAMT_UNDATED_START, SepaVersion::camt_052_001_08()).expect("document reads");
    let tag = &tags[0];
    assert_eq!(tag.start.as_ref().unwrap().date, None);
    assert_eq!(tag.lines.len(), 2);
    assert_eq!(tag.lines[0].saldo.as_ref().unwrap().value.value, "52.00");
    assert_eq!(tag.lines[1].saldo.as_ref().unwrap().value.value, "50.00");

    let ret = &tag.lines[1];
    assert_eq!(ret.value.as_ref().unwrap().value, "-2.00");
    assert_eq!(ret.other.as_ref().unwrap().name.as_deref(), Some("Ich"));
    let orig = ret.orig_value.as_ref().expect("original amount");
    assert_eq!(orig.value, "12.30");
    assert_eq!(orig.curr.as_deref(), Some("USD"));
    assert_eq!(ret.additional.as_deref(), Some("a,b"));
    assert_eq!(ret.value.as_ref().unwrap().curr.as_deref(), Some("EUR"));
}

#[test]
fn camt_reader_refuses_other_versions() {
    let err = parse_camt_report_shell(CAMT, SepaVersion::pain_001_001_02()).unwrap_err();
    assert_eq!(err.kind(), HbciErrorKind::InvalidArgument);
    assert_eq!(err.message(), "CAMT report shell parser requires a CAMT.052 version");
    let checked = parse_camt_report_shell_checked(CAMT, SepaVersion::pain_001_001_02());
    assert!(matches!(checked, Some(Err(_))));
}

#[test]
fn camt_reader_reports_broken_documents() {
    let err = parse_camt_report_shell("<Document><Rpt></Document>", SepaVersion::camt_052_001_02()).unwrap_err();
    assert_eq!(err.kind(), HbciErrorKind::Protocol);
    assert_eq!(err.message(), "failed to parse CAMT document");
}

#[test]
fn camt_reports_from_given_events() {
    let events = xml_events(CAMT);
    let tags = camt_reports_from_events(&events).expect("events read");
    assert_eq!(tags.len(), 1);
    assert_eq!(tags[0].lines.len(), 2);
    let empty = camt_reports_from_events(&xml_events("<Document/>")).expect("nothing to read");
    assert!(empty.is_empty());
}

#[test]
fn camt_duplicate_currency_attribute_is_refused() {
    let xml = r#"<Document><Rpt><Bal><Amt x="1" x="2" Ccy="EUR">1</Amt></Bal></Rpt></Document>"#;
    let err = parse_camt_report_shell(xml, SepaVersion::camt_052_001_02()).unwrap_err();
    assert_eq!(err.message(), "failed to read XML attribute");
}
