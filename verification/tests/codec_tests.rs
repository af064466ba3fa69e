use ethersync_web::peer_message::{
    decode_peer_message, encode_peer_message, CursorState, EphemeralMessage, PeerMessage,
    PeerMessageError, Position, Range, RelativePath, TAG_EPHEMERAL, TAG_SYNC,
};

fn sample_ephemeral() -> EphemeralMessage {
    EphemeralMessage {
        cursor_id: String::from("cursor-1"),
        sequence_number: 42,
        cursor_state: CursorState {
            name: Some(String::from("alice")),
            file_path: RelativePath(String::from("notes/a.txt")),
            ranges: vec![
                Range {
                    start: Position { line: 0, character: 0 },
                    end: Position { line: 0, character: 5 },
                },
                Range {
                    start: Position { line: 3, character: 1 },
                    end: Position { line: 4, character: 0 },
                },
            ],
        },
    }
}

#[test]
fn sync_payload_round_trips() {
    let message = PeerMessage::Sync(vec![1u8, 2, 3, 250]);
    let bytes = encode_peer_message(&message).unwrap();
    assert_eq!(bytes[0], TAG_SYNC);
    assert_eq!(decode_peer_message(&bytes).unwrap(), message);
}

#[test]
fn empty_sync_payload_round_trips() {
    let message = PeerMessage::Sync(Vec::new());
    let bytes = encode_peer_message(&message).unwrap();
    assert_eq!(decode_peer_message(&bytes).unwrap(), message);
}

#[test]
fn ephemeral_payload_round_trips() {
    let message = PeerMessage::Ephemeral(sample_ephemeral());
    let bytes = encode_peer_message(&message).unwrap();
    assert_eq!(bytes[0], TAG_EPHEMERAL);
    assert_eq!(decode_peer_message(&bytes).unwrap(), message);
}

#[test]
fn ephemeral_without_name_round_trips() {
    let mut ephemeral = sample_ephemeral();
    ephemeral.cursor_state.name = None;
    ephemeral.cursor_state.ranges = Vec::new();
    let message = PeerMessage::Ephemeral(ephemeral);
    let bytes = encode_peer_message(&message).unwrap();
    assert_eq!(decode_peer_message(&bytes).unwrap(), message);
}

#[test]
fn ephemeral_with_unicode_text_round_trips() {
    let mut ephemeral = sample_ephemeral();
    ephemeral.cursor_id = String::from("curseur-\u{e9}\u{1f600}");
    ephemeral.cursor_state.file_path = RelativePath(String::from("\u{fc}ber/na\u{ef}ve.txt"));
    let message = PeerMessage::Ephemeral(ephemeral);
    let bytes = encode_peer_message(&message).unwrap();
    assert_eq!(decode_peer_message(&bytes).unwrap(), message);
}

#[test]
fn empty_payload_is_malformed() {
    assert_eq!(decode_peer_message(&Vec::new()), Err(PeerMessageError::Malformed));
}

#[test]
fn unknown_tag_is_malformed() {
    assert_eq!(decode_peer_message(&vec![7u8, 1, 2]), Err(PeerMessageError::Malformed));
}

#[test]
fn truncated_ephemeral_is_malformed() {
    let message = PeerMessage::Ephemeral(sample_ephemeral());
    let bytes = encode_peer_message(&message).unwrap();
    let truncated: Vec<u8> = bytes[..bytes.len() - 1].to_vec();
    assert_eq!(decode_peer_message(&truncated), Err(PeerMessageError::Malformed));
}

#[test]
fn trailing_bytes_after_ephemeral_are_malformed() {
    let message = PeerMessage::Ephemeral(sample_ephemeral());
    let mut bytes = encode_peer_message(&message).unwrap();
    bytes.push(0);
    assert_eq!(decode_peer_message(&bytes), Err(PeerMessageError::Malformed));
}

#[test]
fn ephemeral_with_invalid_utf8_is_malformed() {
    let message = PeerMessage::Ephemeral(sample_ephemeral());
    let mut bytes = encode_peer_message(&message).unwrap();
    // The cursor id starts after the tag and its 4-byte length; stamp
    // an invalid UTF-8 byte into it.
    bytes[5] = 0xff;
    assert_eq!(decode_peer_message(&bytes), Err(PeerMessageError::Malformed));
}
