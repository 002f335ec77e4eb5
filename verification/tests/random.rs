use zo_tunnel::random::{hex_of_fill, random_hex, random_uuid, uuid_of_fill};

#[test]
fn hex_of_a_fill() {
    assert_eq!(hex_of_fill(false, &[1, 2]), None);
    assert_eq!(hex_of_fill(true, &[0xab, 0x01, 0x00, 0xff]), Some("ab0100ff".to_string()));
    assert_eq!(hex_of_fill(true, &[]), Some(String::new()));
}

#[test]
fn random_hex_lengths() {
    assert_eq!(random_hex(0), Some(String::new()));
    let h = random_hex(8).unwrap();
    assert_eq!(h.len(), 16);
    assert!(h.chars().all(|c| c.is_ascii_digit() || ('a'..='f').contains(&c)));
}

#[test]
fn uuid_text_of_bytes() {
    let b = [70, 235, 208, 238, 14, 109, 67, 201, 185, 13, 204, 195, 90, 145, 63, 62];
    assert_eq!(uuid_of_fill(true, &b), Some("46ebd0ee-0e6d-43c9-b90d-ccc35a913f3e".to_string()));
    assert_eq!(
        uuid_of_fill(true, &[0xff; 16]),
        Some("ffffffff-ffff-4fff-bfff-ffffffffffff".to_string())
    );
    assert_eq!(uuid_of_fill(false, &b), None);
    assert_eq!(random_uuid().unwrap().len(), 36);
}
