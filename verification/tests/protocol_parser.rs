use hbci4rust::error::HbciErrorKind;
use hbci4rust::protocol::model::{DefinitionKind, SyntaxChildKind};
use hbci4rust::error::HbciError;
use hbci4rust::protocol::{load_protocol_spec, ProtocolSpec};

fn parse_error(xml: &str) -> HbciError {
    match spec(xml).parse_syntax() {
        Ok(_) => panic!("the document should not parse"),
        Err(e) => e,
    }
}

const SPEC: &str = r#"<?xml version="1.0"?>
<hbci>
  <DEGdef id="KTV" dontsign="1">
    <DE name="number" type="ID" minsize="1" maxsize="30"/>
    <DE name="blz" type="AN" minnum="0"/>
  </DEGdef>
  <SEGdef id="Saldo" needsRequestTag="1">
    <DEG type="KTV" name="KTV"/>
    <DE name="allaccounts" type="JN"/>
    <value path="SegHead.code">HKSAL</value>
    <valids path="allaccounts">
      <validvalue>J</validvalue>
      <validvalue>N</validvalue>
    </valids>
  </SEGdef>
  <SFdef id="Params">
    <SEG type="Saldo" minnum="0" maxnum="1"/>
  </SFdef>
  <MSGdef id="SaldoReq" dontcrypt="1">
    <SF type="Params"/>
  </MSGdef>
</hbci>
"#;

fn spec(xml: &str) -> ProtocolSpec {
    load_protocol_spec("300", xml).expect("known version")
}

#[test]
fn parses_definitions_with_children_values_and_valids() {
    let syntax = spec(SPEC).parse_syntax().expect("syntax parses");
    assert_eq!(syntax.version(), "300");
    assert_eq!(syntax.definitions_len(), 4);

    let ktv = syntax.definition("KTV").expect("KTV");
    assert_eq!(ktv.kind, DefinitionKind::Deg);
    assert!(ktv.dont_sign);
    assert!(!ktv.dont_crypt);
    assert_eq!(ktv.children.len(), 2);
    assert_eq!(ktv.children[0].kind, SyntaxChildKind::De);
    assert_eq!(ktv.children[0].data_type, "ID");
    assert_eq!(ktv.children[0].name.as_deref(), Some("number"));
    assert_eq!(ktv.children[0].min_size.as_deref(), Some("1"));
    assert_eq!(ktv.children[0].max_size.as_deref(), Some("30"));
    assert_eq!(ktv.children[1].min_num.as_deref(), Some("0"));

    let saldo = syntax.definition("Saldo").expect("Saldo");
    assert_eq!(saldo.kind, DefinitionKind::Seg);
    assert!(saldo.needs_request_tag);
    assert_eq!(saldo.children.len(), 2);
    assert_eq!(saldo.children[0].kind, SyntaxChildKind::Deg);
    assert_eq!(saldo.values.len(), 1);
    assert_eq!(saldo.values[0].path, "SegHead.code");
    assert_eq!(saldo.values[0].value, "HKSAL");
    assert_eq!(saldo.valids.len(), 1);
    assert_eq!(saldo.valids[0].path, "allaccounts");
    assert_eq!(saldo.valids[0].values, vec!["J".to_owned(), "N".to_owned()]);

    let msg = syntax.definition("SaldoReq").expect("SaldoReq");
    assert_eq!(msg.kind, DefinitionKind::Msg);
    assert!(msg.dont_crypt);
    assert_eq!(syntax.definition_count(DefinitionKind::Sf), 1);
}

#[test]
fn counts_definitions_by_element() {
    let s = spec(SPEC);
    assert_eq!(s.deg_definition_count().expect("count"), 1);
    assert_eq!(s.seg_definition_count().expect("count"), 1);
    assert_eq!(s.sf_definition_count().expect("count"), 1);
    assert_eq!(s.msg_definition_count().expect("count"), 1);
}

#[test]
fn type_falls_back_to_name() {
    let syntax = spec(r#"<hbci><DEGdef id="A"><DE name="x"/></DEGdef></hbci>"#)
        .parse_syntax()
        .expect("syntax parses");
    let a = syntax.definition("A").expect("A");
    assert_eq!(a.children[0].data_type, "x");
}

#[test]
fn child_without_type_or_name_is_an_error() {
    let err = parse_error(r#"<hbci><DEGdef id="A"><DE minsize="1"/></DEGdef></hbci>"#);
    assert_eq!(err.kind(), HbciErrorKind::Protocol);
    assert_eq!(err.message(), "protocol child is missing type/name attribute");
}

#[test]
fn definition_without_id_is_an_error() {
    let err = parse_error(r#"<hbci><SEGdef><DE type="AN"/></SEGdef></hbci>"#);
    assert_eq!(err.message(), "protocol element SEGdef is missing required id attribute");
}

#[test]
fn unbalanced_definition_end_is_an_error() {
    let err = parse_error(r#"<hbci></DEGdef></hbci>"#);
    assert_eq!(err.kind(), HbciErrorKind::Protocol);
}

#[test]
fn unknown_protocol_version_is_unsupported() {
    let err = load_protocol_spec("400", "<hbci/>").expect_err("unsupported");
    assert_eq!(err.kind(), HbciErrorKind::Unsupported);
    assert_eq!(err.message(), "unsupported HBCI version: 400");
    assert!(load_protocol_spec("plus", "<hbci/>").is_ok());
}
