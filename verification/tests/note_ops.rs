use secure_notes::notes::SecureNotes;
use secure_notes::types::{Address, EventKind};

fn addr(bytes: [u8; 20]) -> Address {
    Address::new(bytes.to_vec())
}

fn test_address() -> Address {
    // f39Fd6e51aad88F6F4ce6aB8827279cffFb92266
    addr([
        0xf3, 0x9f, 0xd6, 0xe5, 0x1a, 0xad, 0x88, 0xf6, 0xf4, 0xce, 0x6a, 0xb8, 0x82, 0x72, 0x79,
        0xcf, 0xff, 0xb9, 0x22, 0x66,
    ])
}

fn fresh() -> SecureNotes {
    SecureNotes::new(addr([0u8; 20]))
}

#[test]
fn test_note_operations() {
    let test_address = test_address();
    let test_title = "Test Note";
    let test_content = "This is a test note content";

    let mut notes = fresh();

    // Test creating a note
    let note_id = notes.create_note(
        &test_address,
        test_title.to_string(),
        test_content.to_string(),
        0,
    );

    // Test getting note count
    let count = notes.get_note_count(&test_address);
    assert_eq!(count, 1);

    // Test getting note
    let (title, content, _) = notes.get_note(&test_address, note_id);
    assert_eq!(title, test_title);
    assert_eq!(content, test_content);

    // Test updating note
    let updated_title = "Updated Test Note";
    let updated_content = "This is the updated content";
    notes.update_note(
        &test_address,
        note_id,
        updated_title.to_string(),
        updated_content.to_string(),
        0,
    );

    // Verify update
    let (title, content, _) = notes.get_note(&test_address, note_id);
    assert_eq!(title, updated_title);
    assert_eq!(content, updated_content);

    // Test getting notes list
    let (ids, titles, _) = notes.get_notes_list(&test_address);
    assert_eq!(ids.len(), 1);
    assert_eq!(titles.len(), 1);
    assert_eq!(titles[0], updated_title);

    // Test deleting note
    notes.delete_note(&test_address, note_id);

    // Verify deletion
    let count = notes.get_note_count(&test_address);
    assert_eq!(count, 0);
}

#[test]
fn end_to_end_scenario() {
    let caller = test_address();
    let mut notes = fresh();

    notes.register_user(&caller, vec![7, 7, 7]);
    let id = notes.create_note(&caller, "T".to_string(), "C".to_string(), 1000);
    let (title, content, ts) = notes.get_note(&caller, id);
    assert_eq!(title, "T");
    assert_eq!(content, "C");
    assert_eq!(ts, 1000);

    notes.update_note(&caller, id, "T2".to_string(), "C2".to_string(), 2000);
    let (title, content, ts) = notes.get_note(&caller, id);
    assert_eq!(title, "T2");
    assert_eq!(content, "C2");
    assert_eq!(ts, 2000);

    notes.delete_note(&caller, id);
    assert_eq!(notes.get_note_count(&caller), 0);
}

#[test]
fn swap_delete_moves_last_note_into_deleted_slot() {
    let caller = test_address();
    let mut notes = fresh();

    notes.create_note(&caller, "N0".to_string(), "content zero".to_string(), 10);
    notes.create_note(&caller, "N1".to_string(), "content one".to_string(), 11);
    notes.create_note(&caller, "N2".to_string(), "content two".to_string(), 12);

    notes.delete_note(&caller, 0);

    assert_eq!(notes.get_note_count(&caller), 2);

    // The note that was N2 now sits at id 0; N1 is unchanged at id 1.
    let (title, content, ts) = notes.get_note(&caller, 0);
    assert_eq!(title, "N2");
    assert_eq!(content, "content two");
    assert_eq!(ts, 12);

    let (title, content, ts) = notes.get_note(&caller, 1);
    assert_eq!(title, "N1");
    assert_eq!(content, "content one");
    assert_eq!(ts, 11);

    // Ids stay dense: 0 and 1.
    let (ids, titles, _) = notes.get_notes_list(&caller);
    assert_eq!(ids, vec![0, 1]);
    assert_eq!(titles, vec!["N2".to_string(), "N1".to_string()]);
}

#[test]
fn deleting_last_note_just_shrinks() {
    let caller = test_address();
    let mut notes = fresh();

    notes.create_note(&caller, "A".to_string(), "a".to_string(), 1);
    notes.create_note(&caller, "B".to_string(), "b".to_string(), 2);
    notes.delete_note(&caller, 1);

    assert_eq!(notes.get_note_count(&caller), 1);
    let (title, content, _) = notes.get_note(&caller, 0);
    assert_eq!(title, "A");
    assert_eq!(content, "a");
}

#[test]
fn missing_note_reads_as_sentinel() {
    let caller = test_address();
    let mut notes = fresh();

    let (title, content, ts) = notes.get_note(&caller, 0);
    assert_eq!(title, "");
    assert_eq!(content, "Note does not exist");
    assert_eq!(ts, 0);

    notes.create_note(&caller, "A".to_string(), "a".to_string(), 1);
    let (title, content, ts) = notes.get_note(&caller, 5);
    assert_eq!(title, "");
    assert_eq!(content, "Note does not exist");
    assert_eq!(ts, 0);
}

#[test]
fn update_and_delete_of_missing_note_are_no_ops() {
    let caller = test_address();
    let mut notes = fresh();

    notes.create_note(&caller, "A".to_string(), "a".to_string(), 1);
    notes.update_note(&caller, 9, "X".to_string(), "x".to_string(), 2);
    notes.delete_note(&caller, 9);

    assert_eq!(notes.get_note_count(&caller), 1);
    let (title, content, _) = notes.get_note(&caller, 0);
    assert_eq!(title, "A");
    assert_eq!(content, "a");
    // No update or delete event was recorded for the misses.
    assert!(!notes.events.iter().any(|e| e.kind == EventKind::NoteUpdated));
    assert!(!notes.events.iter().any(|e| e.kind == EventKind::NoteDeleted));
}

#[test]
fn accounts_are_isolated() {
    let alice = test_address();
    let bob = addr([0x11; 20]);
    let mut notes = fresh();

    let id = notes.create_note(&alice, "secret".to_string(), "alice only".to_string(), 5);

    // Bob sees no notes and cannot read Alice's by any id.
    assert_eq!(notes.get_note_count(&bob), 0);
    let (title, content, _) = notes.get_note(&bob, id);
    assert_eq!(title, "");
    assert_eq!(content, "Note does not exist");

    // Bob's update and delete attempts leave Alice's note untouched.
    notes.update_note(&bob, id, "evil".to_string(), "overwritten".to_string(), 6);
    notes.delete_note(&bob, id);
    assert_eq!(notes.get_note_count(&alice), 1);
    let (title, content, _) = notes.get_note(&alice, id);
    assert_eq!(title, "secret");
    assert_eq!(content, "alice only");

    // Bob's own notes never collide with Alice's.
    let bob_id = notes.create_note(&bob, "bobs".to_string(), "bob only".to_string(), 7);
    assert_eq!(bob_id, 0);
    let (title, content, _) = notes.get_note(&alice, 0);
    assert_eq!(title, "secret");
    assert_eq!(content, "alice only");
}

#[test]
fn auto_registration_happens_once() {
    let caller = test_address();
    let mut notes = fresh();

    notes.create_note(&caller, "first".to_string(), "one".to_string(), 1);
    notes.create_note(&caller, "second".to_string(), "two".to_string(), 2);

    let registrations = notes
        .events
        .iter()
        .filter(|e| e.kind == EventKind::UserRegistered)
        .count();
    assert_eq!(registrations, 1);
    // ... and it was recorded on the first call, before the first creation.
    assert_eq!(notes.events[0].kind, EventKind::UserRegistered);
    assert_eq!(notes.events[1].kind, EventKind::NoteCreated);
    assert_eq!(notes.events[2].kind, EventKind::NoteCreated);
}

#[test]
fn explicit_registration_emits_every_time() {
    let caller = test_address();
    let mut notes = fresh();

    notes.register_user(&caller, vec![]);
    notes.register_user(&caller, vec![1, 2, 3]);
    let registrations = notes
        .events
        .iter()
        .filter(|e| e.kind == EventKind::UserRegistered)
        .count();
    assert_eq!(registrations, 2);
}

#[test]
fn contract_address_accessor_returns_own_identity() {
    let own = addr([0xab; 20]);
    let notes = SecureNotes::new(own);
    assert_eq!(notes.get_encryption_contract_address().bytes, vec![0xab; 20]);
}

#[test]
fn ids_stay_dense_across_creates_and_deletes() {
    let caller = test_address();
    let mut notes = fresh();

    for i in 0..5u64 {
        let id = notes.create_note(&caller, format!("t{i}"), format!("c{i}"), i);
        assert_eq!(id, i);
    }
    notes.delete_note(&caller, 2); // t4 moves to id 2
    notes.delete_note(&caller, 0); // t3 moves to id 0

    assert_eq!(notes.get_note_count(&caller), 3);
    let (ids, titles, _) = notes.get_notes_list(&caller);
    assert_eq!(ids, vec![0, 1, 2]);
    assert_eq!(
        titles,
        vec!["t3".to_string(), "t1".to_string(), "t4".to_string()]
    );
    // Every remaining id is readable; the first out-of-range one is not.
    for id in 0..3u64 {
        let (_, content, _) = notes.get_note(&caller, id);
        assert_ne!(content, "Note does not exist");
    }
    let (_, content, _) = notes.get_note(&caller, 3);
    assert_eq!(content, "Note does not exist");
}
