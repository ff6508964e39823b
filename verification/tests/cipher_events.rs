use secure_notes::events::encode_event;
use secure_notes::notes::SecureNotes;
use secure_notes::types::{Address, EventKind};

fn addr(bytes: [u8; 20]) -> Address {
    Address::new(bytes.to_vec())
}

fn fresh() -> SecureNotes {
    SecureNotes::new(addr([0u8; 20]))
}

#[test]
fn encrypt_decrypt_roundtrip_default_key() {
    let caller = addr([0x42; 20]);
    let notes = fresh();

    let plaintext = "hello, XOR world — ünïcode too";
    let ciphertext = notes.encrypt_note(&caller, plaintext.to_string());
    assert!(ciphertext.len() >= 20);
    assert_eq!(notes.decrypt_note(&caller, ciphertext), plaintext);
}

#[test]
fn encrypt_decrypt_roundtrip_custom_key() {
    let caller = addr([0x42; 20]);
    let mut notes = fresh();
    notes.register_user(&caller, vec![0xde, 0xad, 0xbe, 0xef, 0x01]);

    let plaintext = "with a custom key";
    let ciphertext = notes.encrypt_note(&caller, plaintext.to_string());
    assert_eq!(notes.decrypt_note(&caller, ciphertext), plaintext);
}

#[test]
fn ciphertext_bytes_are_exact() {
    let caller = addr([0x42; 20]);
    let mut notes = fresh();
    notes.update_encryption_key(&caller, vec![0x01]);

    // "AB" is the UTF-8 bytes [0x41, 0x42]; each is XORed with the single
    // key byte 0x01, after the 20-byte owner prefix.
    let ciphertext = notes.encrypt_note(&caller, "AB".to_string());
    let mut expected = vec![0x42u8; 20];
    expected.push(0x41 ^ 0x01);
    expected.push(0x42 ^ 0x01);
    assert_eq!(ciphertext, expected);
}

#[test]
fn default_key_is_the_caller_identifier() {
    let caller = addr([0x17; 20]);
    let notes = fresh();

    // With no stored key, byte i of the body is plaintext[i] ^ caller[i % 20].
    let ciphertext = notes.encrypt_note(&caller, "A".to_string());
    assert_eq!(ciphertext.len(), 21);
    assert_eq!(ciphertext[20], 0x41 ^ 0x17);
}

#[test]
fn cross_owner_decrypt_is_denied() {
    let alice = addr([0x42; 20]);
    let eve = addr([0x43; 20]);
    let notes = fresh();

    let ciphertext = notes.encrypt_note(&alice, "for alice only".to_string());
    assert_eq!(
        notes.decrypt_note(&eve, ciphertext),
        "Error: You don't have permission to decrypt this note"
    );
}

#[test]
fn short_ciphertext_is_invalid_format() {
    let caller = addr([0x42; 20]);
    let notes = fresh();

    assert_eq!(
        notes.decrypt_note(&caller, vec![]),
        "Error: Invalid data format"
    );
    assert_eq!(
        notes.decrypt_note(&caller, vec![0x42; 19]),
        "Error: Invalid data format"
    );
}

#[test]
fn non_utf8_plaintext_is_a_decrypt_failure() {
    let caller = addr([0x42; 20]);
    let notes = fresh();

    // Body byte 0xff ^ key[0] decrypts to 0xff, which is not valid UTF-8.
    let mut ciphertext = vec![0x42u8; 20];
    ciphertext.push(0xff ^ 0x42);
    assert_eq!(
        notes.decrypt_note(&caller, ciphertext),
        "Error: Decryption failed"
    );
}

#[test]
fn changing_the_key_desynchronizes_old_notes() {
    // Documented latent behavior: decryption always uses the current key,
    // so a note encrypted under the old key no longer decrypts to its text.
    let caller = addr([0x42; 20]);
    let mut notes = fresh();
    notes.update_encryption_key(&caller, vec![0x10]);
    let ciphertext = notes.encrypt_note(&caller, "original".to_string());
    notes.update_encryption_key(&caller, vec![0x20]);
    assert_ne!(notes.decrypt_note(&caller, ciphertext), "original");
}

#[test]
fn event_encoding_layout() {
    let caller = addr([
        0xf3, 0x9f, 0xd6, 0xe5, 0x1a, 0xad, 0x88, 0xf6, 0xf4, 0xce, 0x6a, 0xb8, 0x82, 0x72, 0x79,
        0xcf, 0xff, 0xb9, 0x22, 0x66,
    ]);
    let mut notes = fresh();
    notes.create_note(&caller, "Title".to_string(), "Content".to_string(), 9);
    notes.delete_note(&caller, 0);

    assert_eq!(notes.events.len(), 3);
    assert_eq!(notes.events[0].kind, EventKind::UserRegistered);
    assert_eq!(notes.events[1].kind, EventKind::NoteCreated);
    assert_eq!(notes.events[2].kind, EventKind::NoteDeleted);

    // Registration: no data, two topics (signature, caller).
    let (data, topics) = encode_event(&notes.events[0]);
    assert!(data.is_empty());
    assert_eq!(topics.len(), 2);
    assert_eq!(
        topics[0],
        vec![
            0x87u8, 0x7a, 0x15, 0x53, 0x68, 0xc1, 0xf0, 0xde, 0x44, 0xcf, 0xba, 0x7a, 0x7d, 0xa9,
            0x05, 0xcb, 0xae, 0xeb, 0x31, 0x94, 0x3d, 0x83, 0x9b, 0x7c, 0x67, 0x10, 0x3a, 0xca,
            0xa5, 0x30, 0x09, 0xf5,
        ]
    );
    let mut caller_topic = vec![0u8; 12];
    caller_topic.extend_from_slice(&caller.bytes);
    assert_eq!(topics[1], caller_topic);

    // Creation: title bytes as data, three topics, id big-endian.
    let (data, topics) = encode_event(&notes.events[1]);
    assert_eq!(data, b"Title".to_vec());
    assert_eq!(topics.len(), 3);
    assert_eq!(
        topics[0],
        vec![
            0xa5u8, 0x63, 0x76, 0x16, 0x0d, 0x28, 0xd2, 0xb9, 0x0a, 0x07, 0x46, 0xc4, 0x9c, 0xab,
            0xa7, 0x32, 0xb4, 0x76, 0x70, 0xe9, 0xd5, 0x1b, 0xc3, 0x9e, 0x43, 0x1f, 0x4a, 0x6d,
            0x86, 0x1a, 0x0f, 0x9d,
        ]
    );
    assert_eq!(topics[1], caller_topic);
    assert_eq!(topics[2], vec![0u8; 32]);

    // Deletion: no data, its own signature topic.
    let (data, topics) = encode_event(&notes.events[2]);
    assert!(data.is_empty());
    assert_eq!(topics.len(), 3);
    assert_eq!(
        topics[0],
        vec![
            0x95u8, 0xa3, 0x23, 0xc3, 0x16, 0x9c, 0xe1, 0xb2, 0x12, 0xd9, 0x54, 0x54, 0xf3, 0x14,
            0xa7, 0xef, 0x7d, 0xd4, 0x8d, 0xc5, 0x74, 0x8b, 0xe2, 0xc6, 0x6b, 0x0a, 0x52, 0xd1,
            0x02, 0xf2, 0x80, 0xc4,
        ]
    );
}

#[test]
fn id_topic_is_big_endian() {
    let caller = addr([0x05; 20]);
    let mut notes = fresh();
    // Create two notes, update the one with id 1.
    notes.create_note(&caller, "a".to_string(), "x".to_string(), 0);
    notes.create_note(&caller, "b".to_string(), "y".to_string(), 0);
    notes.update_note(&caller, 1, "b2".to_string(), "y2".to_string(), 1);

    let update_event = notes
        .events
        .iter()
        .find(|e| e.kind == EventKind::NoteUpdated)
        .expect("update event recorded");
    assert_eq!(update_event.note_id, 1);
    let (_, topics) = encode_event(update_event);
    let mut expected = vec![0u8; 31];
    expected.push(1);
    assert_eq!(topics[2], expected);
}
