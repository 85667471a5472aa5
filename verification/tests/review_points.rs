use hbci4rust::error::HbciErrorKind;
use hbci4rust::gv::JobRegistry;
use hbci4rust::gv_result::account::{cents_to_decimal, decimal_to_cents};
use hbci4rust::gv_result::Konto;
use hbci4rust::gv_result::kums::mt94x_text_readable;
use hbci4rust::manager::dialog_handler::HbciHandler;
use hbci4rust::manager::OrderHashMode;
use hbci4rust::passport::pintan::{PinTanPassport, PinTanPassportData};
use hbci4rust::passport::{KdfParams, PassportStorage, UserSig};

const REMOVED_JOBS: [&str; 14] = [
    "DauerDel",
    "DauerEdit",
    "DauerList",
    "DauerNew",
    "LastCOR1SEPA",
    "MultiLastCOR1SEPA",
    "TermUeb",
    "TermUebDel",
    "TermUebEdit",
    "TermUebList",
    "Ueb",
    "UebBZU",
    "UebEil",
    "Umb",
];

#[test]
fn registry_leaves_out_removed_national_jobs() {
    let registry = JobRegistry::pintan();
    for name in REMOVED_JOBS {
        assert!(!registry.contains(name), "{name} should not be registered");
    }
    assert!(registry.contains("SaldoReq"));
    assert!(registry.contains("UebSEPA"));
    assert!(registry.contains("DauerSEPANew"));
    assert_eq!(registry.names().len(), 43);
    assert!(registry.new_job("Ueb").is_err());
}

#[test]
fn readme_example_queues_saldo_request_with_iban_only() {
    let mut data = PinTanPassportData::default();
    data.country = "DE".to_owned();
    data.blz = "12345678".to_owned();
    data.host = Some("https://fints.example.test/fints".to_owned());
    data.user_id = "user".to_owned();
    data.customer_id = Some("customer".to_owned());
    let passport = PinTanPassport::new(data);

    let mut handler = HbciHandler::new("300", passport);
    let mut job = handler.new_job("SaldoReq").expect("SaldoReq is registered");
    let mut account = Konto::default();
    account.iban = Some("DE02123456780012345678".to_owned());
    job.set_param_account("my", &account);
    handler.try_add_to_queue(job).expect("job is accepted");
    assert_eq!(handler.queued_jobs().len(), 1);
    assert_eq!(
        handler.queued_jobs()[0].lowlevel_param("Saldo7.KTV.iban"),
        Some("DE02123456780012345678")
    );
}

#[test]
fn orderhash_digests_have_twenty_bytes() {
    let segment = "HKSAL:3:7+DE02123456780000000000+N'";
    assert_eq!(OrderHashMode::RipeMd160.hash_segment_bytes(segment).expect("hash").len(), 20);
    let bin = OrderHashMode::RipeMd160.hash_segment_bin(segment).expect("bin");
    assert_eq!(bin.chars().count(), 21);
}

#[test]
fn user_sig_packs_pin_and_tan() {
    assert_eq!(
        UserSig::encode(Some("1234"), Some("567")).expect("packs"),
        vec![4, b'1', b'2', b'3', b'4', b'5', b'6', b'7']
    );
    assert_eq!(UserSig::encode(None, None).expect("packs"), vec![0]);
}

#[test]
fn user_sig_refuses_long_pin_and_foreign_characters() {
    let long = UserSig::encode(Some(&"1".repeat(256)), None).expect_err("too long");
    assert_eq!(long.kind(), HbciErrorKind::InvalidArgument);
    assert_eq!(long.message(), "PIN is too long for UserSig length byte: 256");
    let euro = UserSig::encode(Some("€"), None).expect_err("not latin-1");
    assert_eq!(euro.kind(), HbciErrorKind::Unsupported);
    assert_eq!(euro.message(), "UserSig character is not ISO-8859-1 representable: U+20AC");
    let tan = UserSig::encode(Some("12"), Some("Ā")).expect_err("not latin-1");
    assert_eq!(tan.message(), "UserSig character is not ISO-8859-1 representable: U+0100");
}

#[test]
fn cents_text_reads_back() {
    for cents in [0i64, 5, -5, 99, 100, 12345, -100001, i64::MAX, -i64::MAX] {
        assert_eq!(decimal_to_cents(&cents_to_decimal(cents)), Some(cents));
    }
    assert_eq!(cents_to_decimal(-1250), "-12.50");
}

#[test]
fn sealed_passport_bytes_open_again() {
    let kdf = KdfParams { memory_cost_kib: 64, time_cost: 1, parallelism: 1 };
    let salt = [7u8; 16];
    let nonce = [9u8; 24];
    let sealed = PassportStorage::seal(b"{\"blz\":\"12345678\"}", b"secret", &salt, &nonce, kdf).expect("seals");
    assert_ne!(sealed.as_slice(), b"{\"blz\":\"12345678\"}".as_slice());
    let opened = PassportStorage::open(&sealed, b"secret", &salt, &nonce, kdf).expect("opens");
    assert_eq!(opened, b"{\"blz\":\"12345678\"}".to_vec());
    let wrong = PassportStorage::open(&sealed, b"other", &salt, &nonce, kdf).expect_err("wrong passphrase");
    assert_eq!(wrong.kind(), HbciErrorKind::Storage);
    assert_eq!(wrong.message(), "failed to decrypt passport");
    let empty = PassportStorage::seal(b"x", b"", &salt, &nonce, kdf).expect_err("empty passphrase");
    assert_eq!(empty.kind(), HbciErrorKind::InvalidArgument);
    let bad = KdfParams { memory_cost_kib: 4, time_cost: 1, parallelism: 1 };
    let invalid = PassportStorage::seal(b"x", b"secret", &salt, &nonce, bad).expect_err("bad params");
    assert_eq!(invalid.message(), "invalid Argon2id parameters");
    let short = PassportStorage::seal(b"x", b"secret", &salt[..4], &nonce, kdf).expect_err("short salt");
    assert_eq!(short.message(), "Argon2id failed");
}

#[test]
fn mt940_reading_needs_a_tag_after_each_transaction() {
    let open = "\r\n:20:STARTUMS\r\n:25:12345678/0001234567\r\n:60F:C240301EUR100,00\r\n:61:2403010301C10,00NTRFNONREF";
    assert!(!mt94x_text_readable(open));
    let closed = "\r\n:20:STARTUMS\r\n:25:12345678/0001234567\r\n:60F:C240301EUR100,00\r\n:61:2403010301C10,00NTRFNONREF\r\n:62F:C240301EUR110,00\r\n-";
    assert!(mt94x_text_readable(closed));
    assert!(mt94x_text_readable(""));
}
