use notes::identity::Identity;
use notes::layout::{decode_note, encode_note, SLOT_CAPACITY};
use notes::note::Note;

fn ident(b: u8) -> Identity {
    Identity::from_bytes(vec![b; 32]).unwrap()
}

fn image(owner: u8, title: &[u8], message: &[u8]) -> Vec<u8> {
    let mut b = vec![owner; 32];
    b.extend_from_slice(&(title.len() as u32).to_le_bytes());
    b.extend_from_slice(title);
    b.extend_from_slice(&(message.len() as u32).to_le_bytes());
    b.extend_from_slice(message);
    b
}

#[test]
fn slot_capacity_matches_the_layout_at_full_bounds() {
    assert_eq!(SLOT_CAPACITY, 32 + 4 + 50 + 4 + 1000);
}

#[test]
fn encode_lays_fields_out_in_order() {
    let note = Note { owner: ident(7), title: b"diary".to_vec(), message: b"hello".to_vec() };
    let bytes = encode_note(&note);
    assert_eq!(bytes.len(), 32 + 4 + 5 + 4 + 5);
    assert_eq!(&bytes[0..32], &[7u8; 32]);
    assert_eq!(&bytes[32..36], &[5, 0, 0, 0]);
    assert_eq!(&bytes[36..41], b"diary");
    assert_eq!(&bytes[41..45], &[5, 0, 0, 0]);
    assert_eq!(&bytes[45..50], b"hello");
}

#[test]
fn encode_then_decode_is_the_identity() {
    let note = Note { owner: ident(9), title: b"todo".to_vec(), message: vec![b'z'; 1000] };
    let bytes = encode_note(&note);
    let back = decode_note(&bytes).unwrap();
    assert_eq!(back.owner.as_bytes(), &vec![9u8; 32]);
    assert_eq!(back.title, b"todo".to_vec());
    assert_eq!(back.message, vec![b'z'; 1000]);
}

#[test]
fn decode_accepts_a_handmade_image() {
    let bytes = image(3, b"diary", b"hi");
    let note = decode_note(&bytes).unwrap();
    assert_eq!(note.owner.as_bytes(), &vec![3u8; 32]);
    assert_eq!(note.title, b"diary".to_vec());
    assert_eq!(note.message, b"hi".to_vec());
}

#[test]
fn decode_rejects_short_input() {
    assert!(decode_note(&vec![0u8; 10]).is_none());
    assert!(decode_note(&vec![0u8; 39]).is_none());
}

#[test]
fn decode_accepts_the_empty_note_image() {
    let bytes = image(1, b"", b"");
    assert_eq!(bytes.len(), 40);
    assert!(decode_note(&bytes).is_some());
}

#[test]
fn decode_rejects_an_oversized_title_prefix() {
    let bytes = image(1, &vec![b't'; 51], b"m");
    assert!(decode_note(&bytes).is_none());
}

#[test]
fn decode_rejects_an_oversized_message_prefix() {
    let bytes = image(1, b"t", &vec![b'm'; 1001]);
    assert!(decode_note(&bytes).is_none());
}

#[test]
fn decode_rejects_truncated_and_padded_images() {
    let bytes = image(1, b"diary", b"hello");
    let mut truncated = bytes.clone();
    truncated.pop();
    assert!(decode_note(&truncated).is_none());
    let mut padded = bytes.clone();
    padded.push(0);
    assert!(decode_note(&padded).is_none());
    assert!(decode_note(&bytes).is_some());
}
