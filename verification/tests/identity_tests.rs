use ethersync_web::identity::{
    bytes_to_hex, constant_time_eq_bytes, hex_to_bytes, AddressError, Passphrase, PeerId,
    SecretAddress, KEY_LEN,
};

fn err_of(r: Result<SecretAddress, AddressError>) -> AddressError {
    match r {
        Ok(_) => panic!("expected an error"),
        Err(e) => e,
    }
}

fn hex_of(byte: u8, len: usize) -> String {
    let bytes = vec![byte; len];
    bytes_to_hex(&bytes)
}

#[test]
fn hex_renders_lowercase_pairs() {
    assert_eq!(bytes_to_hex(&vec![0x00u8, 0x0f, 0xa5, 0xff]), "000fa5ff");
}

#[test]
fn hex_round_trips() {
    let bytes: Vec<u8> = (0..=255u16).map(|b| b as u8).collect();
    let text = bytes_to_hex(&bytes);
    assert_eq!(hex_to_bytes(&text).unwrap(), bytes);
}

#[test]
fn hex_accepts_uppercase_digits() {
    assert_eq!(hex_to_bytes("A5FF").unwrap(), vec![0xa5u8, 0xff]);
}

#[test]
fn hex_rejects_odd_length_and_bad_digits() {
    assert!(hex_to_bytes("abc").is_none());
    assert!(hex_to_bytes("zz").is_none());
}

#[test]
fn peer_id_round_trips_through_hex() {
    let text = hex_of(0x5a, KEY_LEN);
    let id = PeerId::from_hex(&text).unwrap();
    assert_eq!(id.to_hex(), text);
    assert_eq!(id.as_bytes(), &vec![0x5au8; KEY_LEN]);
}

#[test]
fn peer_id_needs_exactly_32_bytes() {
    assert!(PeerId::from_hex(&hex_of(1, 31)).is_none());
    assert!(PeerId::from_hex(&hex_of(1, 33)).is_none());
    assert!(PeerId::from_bytes(vec![0u8; 31]).is_none());
    assert!(PeerId::from_bytes(vec![0u8; 32]).is_some());
}

#[test]
fn constant_time_eq_agrees_with_equality() {
    let a = vec![1u8, 2, 3, 4];
    let mut b = a.clone();
    assert!(constant_time_eq_bytes(&a, &b));
    b[2] ^= 0x80;
    assert!(!constant_time_eq_bytes(&a, &b));
}

#[test]
fn generated_passphrases_are_full_length_and_fresh() {
    let p = Passphrase::generate();
    let q = Passphrase::generate();
    assert_eq!(p.as_bytes().len(), KEY_LEN);
    assert!(p.matches(&p.as_bytes().clone()));
    assert!(!p.matches(q.as_bytes()) || p.as_bytes() == q.as_bytes());
}

#[test]
fn passphrase_rejects_any_difference() {
    let p = Passphrase::from_bytes(vec![7u8; KEY_LEN]).unwrap();
    assert!(p.matches(&vec![7u8; KEY_LEN]));
    let mut flipped = vec![7u8; KEY_LEN];
    flipped[31] ^= 1;
    assert!(!p.matches(&flipped));
    assert!(!p.matches(&vec![7u8; KEY_LEN - 1]));
    assert!(!p.matches(&Vec::new()));
}

#[test]
fn address_parses_valid_fields() {
    let address =
        SecretAddress::from_string(hex_of(0x11, KEY_LEN), hex_of(0x22, KEY_LEN)).unwrap();
    assert_eq!(address.peer_node_id.to_hex(), hex_of(0x11, KEY_LEN));
    assert_eq!(address.peer_passphrase.to_hex(), hex_of(0x22, KEY_LEN));
}

#[test]
fn address_rejects_empty_fields_first() {
    assert_eq!(
        err_of(SecretAddress::from_string(String::new(), hex_of(0x22, KEY_LEN))),
        AddressError::EmptyNodeId
    );
    assert_eq!(
        err_of(SecretAddress::from_string(hex_of(0x11, KEY_LEN), String::new())),
        AddressError::EmptyPassphrase
    );
}

#[test]
fn address_rejects_malformed_fields() {
    assert_eq!(
        err_of(SecretAddress::from_string(String::from("nonsense"), hex_of(0x22, KEY_LEN))),
        AddressError::InvalidNodeId
    );
    assert_eq!(
        err_of(SecretAddress::from_string(hex_of(0x11, KEY_LEN), hex_of(0x22, 31))),
        AddressError::InvalidPassphrase
    );
}

#[test]
fn join_payload_splits_on_first_hash() {
    let payload = format!("{}#{}", hex_of(0x33, KEY_LEN), hex_of(0x44, KEY_LEN));
    let address = SecretAddress::from_join_payload(&payload).unwrap();
    assert_eq!(address.peer_node_id.to_hex(), hex_of(0x33, KEY_LEN));
    assert_eq!(address.peer_passphrase.to_hex(), hex_of(0x44, KEY_LEN));
}

#[test]
fn join_payload_without_separator_is_rejected() {
    assert_eq!(
        err_of(SecretAddress::from_join_payload(&hex_of(0x33, KEY_LEN))),
        AddressError::MissingSeparator
    );
}

#[test]
fn join_payload_with_empty_parts_is_rejected() {
    assert_eq!(
        err_of(SecretAddress::from_join_payload("#abcd")),
        AddressError::EmptyNodeId
    );
    let payload = format!("{}#", hex_of(0x33, KEY_LEN));
    assert_eq!(
        err_of(SecretAddress::from_join_payload(&payload)),
        AddressError::EmptyPassphrase
    );
}
