use hbci4rust::error::HbciErrorKind;
use hbci4rust::sepa::{
    generate_pain_001_001_02_transfer, generate_pain_001_001_02_transfers, generate_pain_008_001_01_direct_debit,
    generate_pain_008_001_01_direct_debits, parse_pain_001_transfers,
};
use hbci4rust::sepa::generate::{transaction_indices_fit, unix_seconds_to_utc_datetime};
use hbci4rust::sepa::sum::sepa_sum_fits;
use hbci4rust::tools::Properties;

const DT: &str = "2024-05-01T10:00:00";
const GID: &str = "2024-05-01T10:00:00:0000";

fn params(entries: &[(&str, &str)]) -> Properties {
    let mut p = Properties::new();
    for (k, v) in entries {
        p.insert((*k).to_owned(), (*v).to_owned());
    }
    p
}

fn transfer_params() -> Properties {
    params(&[
        ("src.name", "Max"),
        ("src.iban", "DE02123456780012345678"),
        ("src.bic", "TESTDEFFXXX"),
        ("dst.name", "Erika & Co"),
        ("dst.iban", "DE89370400440532013000"),
        ("dst.bic", "COBADEFFXXX"),
        ("btg.value", "12.50"),
        ("usage", "Rechnung 1"),
        ("date", "2024-05-02"),
    ])
}

#[test]
fn writes_single_pain_001_transfer() {
    let xml = generate_pain_001_001_02_transfer(&transfer_params(), DT, GID).expect("document is written");
    let expected = [
        r#"<?xml version="1.0" encoding="UTF-8"?>"#,
        r#"<Document xmlns="urn:sepade:xsd:pain.001.001.02" xmlns:xsi="http://www.w3.org/2001/XMLSchema-instance" xsi:schemaLocation="urn:sepade:xsd:pain.001.001.02 pain.001.001.02.xsd">"#,
        "<pain.001.001.02><GrpHdr><MsgId>2024-05-01T10:00:00:0000</MsgId><CreDtTm>2024-05-01T10:00:00</CreDtTm>",
        "<NbOfTxs>1</NbOfTxs><CtrlSum>12.50</CtrlSum><Grpg>GRPD</Grpg><InitgPty><Nm>Max</Nm></InitgPty></GrpHdr>",
        "<PmtInf><PmtInfId>2024-05-01T10:00:00:0000</PmtInfId><PmtMtd>TRF</PmtMtd><PmtTpInf><SvcLvl><Cd>SEPA</Cd></SvcLvl></PmtTpInf>",
        "<ReqdExctnDt>2024-05-02</ReqdExctnDt><Dbtr><Nm>Max</Nm></Dbtr><DbtrAcct><Id><IBAN>DE02123456780012345678</IBAN></Id></DbtrAcct>",
        "<DbtrAgt><FinInstnId><BIC>TESTDEFFXXX</BIC></FinInstnId></DbtrAgt><ChrgBr>SLEV</ChrgBr>",
        "<CdtTrfTxInf><PmtId><EndToEndId>NOTPROVIDED</EndToEndId></PmtId><Amt><InstdAmt Ccy=\"EUR\">12.50</InstdAmt></Amt>",
        "<CdtrAgt><FinInstnId><BIC>COBADEFFXXX</BIC></FinInstnId></CdtrAgt><Cdtr><Nm>Erika &amp; Co</Nm></Cdtr>",
        "<CdtrAcct><Id><IBAN>DE89370400440532013000</IBAN></Id></CdtrAcct><RmtInf><Ustrd>Rechnung 1</Ustrd></RmtInf></CdtTrfTxInf>",
        "</PmtInf></pain.001.001.02></Document>",
    ]
    .concat();
    assert_eq!(xml, expected);
}

#[test]
fn written_transfer_reads_back() {
    let mut p = transfer_params();
    p.insert("dst.name".to_owned(), "Erika Musterfrau".to_owned());
    let xml = generate_pain_001_001_02_transfer(&p, DT, GID).expect("document is written");
    let transfers = parse_pain_001_transfers(&xml).expect("document reads");
    assert_eq!(transfers.len(), 1);
    let t = &transfers[0];
    assert_eq!(t.source.iban.as_deref(), Some("DE02123456780012345678"));
    assert_eq!(t.destination.name.as_deref(), Some("Erika Musterfrau"));
    assert_eq!(t.value.as_ref().map(|v| v.value.as_str()), Some("12.50"));
    assert_eq!(t.usage, vec!["Rechnung 1".to_owned()]);
    assert_eq!(t.execution_date.as_deref(), Some("2024-05-02"));
}

#[test]
fn single_transfer_uses_given_ids() {
    let mut p = transfer_params();
    p.insert("sepaid".to_owned(), "MSG-7".to_owned());
    p.insert("pmtinfid".to_owned(), "PMT-7".to_owned());
    p.insert("endtoendid".to_owned(), "E2E-7".to_owned());
    p.insert("btg.curr".to_owned(), "CHF".to_owned());
    let xml = generate_pain_001_001_02_transfer(&p, DT, GID).expect("document is written");
    assert!(xml.contains("<MsgId>MSG-7</MsgId>"));
    assert!(xml.contains("<PmtInfId>PMT-7</PmtInfId>"));
    assert!(xml.contains("<EndToEndId>E2E-7</EndToEndId>"));
    assert!(xml.contains("<InstdAmt Ccy=\"CHF\">12.50</InstdAmt>"));
}

#[test]
fn single_transfer_needs_its_parameters() {
    let mut p = transfer_params();
    p.insert("src.bic".to_owned(), String::new());
    let err = generate_pain_001_001_02_transfer(&p, DT, GID).unwrap_err();
    assert_eq!(err.kind(), HbciErrorKind::InvalidArgument);
    assert_eq!(err.message(), "missing required SEPA parameter: src.bic");

    let p = params(&[("src.name", "Max"), ("src.iban", "DE02"), ("src.bic", "X"), ("dst.name", "E")]);
    let err = generate_pain_001_001_02_transfer(&p, DT, GID).unwrap_err();
    assert_eq!(err.message(), "missing required SEPA parameter: dst.iban");
}

#[test]
fn writes_several_transfers_with_count_and_total() {
    let p = params(&[
        ("src.name", "Max"),
        ("src.iban", "DE02123456780012345678"),
        ("src.bic", "TESTDEFFXXX"),
        ("dst[0].name", "A"),
        ("dst[0].iban", "DE01"),
        ("btg[0].value", "1,5"),
        ("dst[1].name", "B"),
        ("dst[1].iban", "DE02"),
        ("btg[1].value", "2.25"),
        ("usage[1]", "zwei"),
    ]);
    let xml = generate_pain_001_001_02_transfers(&p, DT, GID).expect("document is written");
    assert!(xml.contains("<NbOfTxs>2</NbOfTxs><CtrlSum>3.75</CtrlSum>"));
    assert!(xml.contains("<Cdtr><Nm>A</Nm></Cdtr>"));
    assert!(xml.contains("<InstdAmt Ccy=\"EUR\">1,5</InstdAmt>"));
    assert!(xml.contains("<RmtInf><Ustrd>zwei</Ustrd></RmtInf>"));
    assert!(xml.find("<Nm>A</Nm>").unwrap() < xml.find("<Nm>B</Nm>").unwrap());
    let transfers = parse_pain_001_transfers(&xml).expect("document reads");
    assert_eq!(transfers.len(), 2);
}

#[test]
fn several_transfers_report_the_missing_one() {
    let p = params(&[
        ("src.name", "Max"),
        ("src.iban", "DE02"),
        ("src.bic", "X"),
        ("dst[0].name", "A"),
        ("dst[0].iban", "DE01"),
        ("btg[0].value", "1"),
        ("btg[1].value", "2"),
        ("dst[1].iban", "DE02"),
    ]);
    let err = generate_pain_001_001_02_transfers(&p, DT, GID).unwrap_err();
    assert_eq!(err.message(), "missing required SEPA parameter: dst[1].name");
}

fn debit_params() -> Properties {
    params(&[
        ("src.name", "Verein"),
        ("src.iban", "DE02123456780012345678"),
        ("src.bic", "TESTDEFFXXX"),
        ("dst.name", "Mitglied"),
        ("dst.iban", "DE89370400440532013000"),
        ("btg.value", "7.00"),
        ("creditorid", "DE98ZZZ09999999999"),
        ("mandateid", "M-1"),
        ("manddateofsig", "2020-01-01"),
        ("amendmandindic", "true"),
        ("dst.addr.country", "DE"),
        ("dst.addr.line2", "12345 Stadt"),
        ("targetdate", "2024-06-01"),
    ])
}

#[test]
fn writes_single_direct_debit() {
    let xml = generate_pain_008_001_01_direct_debit(&debit_params(), DT, GID).expect("document is written");
    assert!(xml.starts_with(r#"<?xml version="1.0" encoding="UTF-8"?><Document xmlns="urn:sepade:xsd:pain.008.001.01""#));
    assert!(xml.contains("<PmtMtd>DD</PmtMtd><PmtTpInf><SvcLvl><Cd>SEPA</Cd></SvcLvl><SeqTp>FRST</SeqTp></PmtTpInf><ReqdColltnDt>2024-06-01</ReqdColltnDt>"));
    assert!(xml.contains("<MndtId>M-1</MndtId><DtOfSgntr>2020-01-01</DtOfSgntr><AmdmntInd>true</AmdmntInd><AmdmntInfDtls><OrgnlDbtrAgt><FinInstnId><PrtryId><Id>SMNDA</Id></PrtryId></FinInstnId></OrgnlDbtrAgt></AmdmntInfDtls>"));
    assert!(xml.contains("<CdtrSchmeId><Id><PrvtId><OthrId><Id>DE98ZZZ09999999999</Id><IdTp>SEPA</IdTp></OthrId></PrvtId></Id></CdtrSchmeId>"));
    assert!(xml.contains("<Dbtr><Nm>Mitglied</Nm><PstlAdr><AdrLine>12345 Stadt</AdrLine><Ctry>DE</Ctry></PstlAdr></Dbtr>"));
    assert!(xml.ends_with("</DrctDbtTxInf></PmtInf></pain.008.001.01></Document>"));
}

#[test]
fn direct_debit_needs_a_mandate() {
    let mut p = debit_params();
    p.insert("mandateid".to_owned(), String::new());
    let err = generate_pain_008_001_01_direct_debit(&p, DT, GID).unwrap_err();
    assert_eq!(err.message(), "missing required SEPA parameter: mandateid");
}

#[test]
fn writes_several_direct_debits() {
    let p = params(&[
        ("src.name", "Verein"),
        ("src.iban", "DE02"),
        ("src.bic", "X"),
        ("dst[0].name", "A"),
        ("dst[0].iban", "DE01"),
        ("btg[0].value", "10"),
        ("creditorid[0]", "C"),
        ("mandateid[0]", "M0"),
        ("manddateofsig[0]", "2020-01-01"),
    ]);
    let xml = generate_pain_008_001_01_direct_debits(&p, DT, GID).expect("document is written");
    assert!(xml.contains("<NbOfTxs>1</NbOfTxs><CtrlSum>10.00</CtrlSum>"));
    assert!(xml.contains("<AmdmntInd>false</AmdmntInd></MndtRltdInf>"));
}

#[test]
fn formats_unix_seconds_as_utc_datetime() {
    assert_eq!(unix_seconds_to_utc_datetime(0), "1970-01-01T00:00:00");
    assert_eq!(unix_seconds_to_utc_datetime(1_714_557_600), "2024-05-01T10:00:00");
    assert_eq!(unix_seconds_to_utc_datetime(951_782_400), "2000-02-29T00:00:00");
    assert_eq!(unix_seconds_to_utc_datetime(86_399), "1970-01-01T23:59:59");
}

#[test]
fn checks_what_several_transactions_ask() {
    let p = params(&[("btg[0].value", "1"), ("btg[1].value", "2")]);
    assert!(transaction_indices_fit(&p));
    assert!(sepa_sum_fits(&p));
    let p = params(&[("btg[0].value", "92233720368547758.07"), ("btg[1].value", "0.01")]);
    assert!(!sepa_sum_fits(&p));
}
