use sha2::Digest;
use sha2::Sha256;
use vehicle_filter::digest::hash_text;
use vehicle_filter::digest::to_upper_hex;
use vehicle_filter::vehicle::make_model_hash;

#[test]
fn fingerprint_of_audi_a4() {
    assert_eq!(
        make_model_hash("Audi", "A4"),
        "1E8B5219DE076477BF99284D482B525226E988A96A20AFB015C1D427FFB1E62B"
    );
}

#[test]
fn fingerprint_is_the_same_every_time() {
    assert_eq!(make_model_hash("VW", "Golf"), make_model_hash("VW", "Golf"));
    assert_eq!(
        make_model_hash("VW", "Golf"),
        "12750C949009A69C8E90125DA3233906B4497222EA41174CD007C0B84009C2C3"
    );
}

#[test]
fn fingerprint_depends_on_the_joined_text_only() {
    let whole = make_model_hash("Audi", "A4");
    assert_eq!(make_model_hash("AudiA", "4"), whole);
    assert_eq!(make_model_hash("", "AudiA4"), whole);
    assert_eq!(make_model_hash("AudiA4", ""), whole);
    assert_ne!(make_model_hash("Audi", " A4"), whole);
}

#[test]
fn fingerprint_is_upper_case_hex_of_64_digits() {
    let hex = make_model_hash("BMW", "X5");
    assert_eq!(hex.len(), 64);
    assert!(hex.chars().all(|c| c.is_ascii_digit() || ('A'..='F').contains(&c)));
    assert_eq!(hex, "B13EDA68E0BB1C2F0581F1F0B63E3DEFA127D45CC0E00FC12FB141FE5FCF536D");
}

#[test]
fn hash_of_empty_text() {
    assert_eq!(
        hash_text(""),
        "E3B0C44298FC1C149AFBF4C8996FB92427AE41E4649B934CA495991B7852B855"
    );
}

#[test]
fn hash_of_abc() {
    assert_eq!(
        hash_text("abc"),
        "BA7816BF8F01CFEA414140DE5DAE2223B00361A396177A9CB410FF61F20015AD"
    );
}

#[test]
fn hash_is_taken_over_utf8_bytes() {
    assert_eq!(
        make_model_hash("Citroën", "C4"),
        "F36CC504FA07D70B379593776DD4BFF4AC1D424B506BB6A0756836F03534A998"
    );
}

#[test]
fn hash_agrees_with_the_hasher_used_step_by_step() {
    let mut hasher = Sha256::new();
    hasher.update(format!("{}{}", "Audi", "A4"));
    assert_eq!(make_model_hash("Audi", "A4"), format!("{:X}", hasher.finalize()));
}

#[test]
fn upper_hex_of_bytes() {
    assert_eq!(to_upper_hex(&[0x00, 0x0f, 0xab, 0xff, 0x10, 0x9a]), "000FABFF109A");
}

#[test]
fn upper_hex_of_nothing() {
    assert_eq!(to_upper_hex(&[]), "");
}

#[test]
fn upper_hex_of_every_byte_has_two_digits() {
    for b in 0..=255u8 {
        assert_eq!(to_upper_hex(&[b]), format!("{:02X}", b));
    }
}
