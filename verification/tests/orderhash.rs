use hbci4rust::manager::OrderHashMode;

const SALDO_SEGMENT: &str = "HKSAL:3:7+DE02123456780000000000+N'";

fn hex(bytes: &[u8]) -> String {
    bytes.iter().map(|byte| format!("{byte:02x}")).collect()
}

#[test]
fn maps_orderhash_modes_like_hbci4java() {
    assert_eq!(OrderHashMode::from_code("1").expect("mode 1"), OrderHashMode::RipeMd160);
    assert_eq!(OrderHashMode::from_code("2").expect("mode 2"), OrderHashMode::Sha1);
    assert!(OrderHashMode::from_code("0").is_err());
}

#[test]
fn hashes_order_segments_like_hbci4java() {
    assert_eq!(
        hex(&OrderHashMode::Sha1.hash_segment_bytes(SALDO_SEGMENT).expect("sha1 hash")),
        "1a1882a724fee3fb5f49a616b4fdefad1d6512f0"
    );
    assert_eq!(
        hex(&OrderHashMode::RipeMd160.hash_segment_bytes(SALDO_SEGMENT).expect("ripemd160 hash")),
        "09e2b4cc96fb39674f06f0b21b3a2c80cb3404c9"
    );
}

#[test]
fn creates_hktan_binary_orderhash_value() {
    let value = OrderHashMode::Sha1.hash_segment_bin(SALDO_SEGMENT).expect("hktan binary value");
    assert!(value.starts_with('B'));
    assert_eq!(value.chars().count(), 21);
}

#[test]
fn orderhash_text_has_one_character_per_digest_byte() {
    let text = OrderHashMode::Sha1.hash_segment(SALDO_SEGMENT).expect("sha1 text");
    let bytes = OrderHashMode::Sha1.hash_segment_bytes(SALDO_SEGMENT).expect("sha1 hash");
    let back: Vec<u8> = text.chars().map(|c| c as u32 as u8).collect();
    assert_eq!(back, bytes);
}
