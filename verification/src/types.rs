//! Core data types: account identifiers, notes, and event records.

use vstd::prelude::*;
use vstd::slice::slice_to_vec;

verus! {

/// A caller identity: an opaque, fixed-length (20-byte) account identifier.
pub struct Address {
    pub bytes: Vec<u8>,
}

impl View for Address {
    type V = Seq<u8>;

    open spec fn view(&self) -> Seq<u8> {
        self.bytes@
    }
}

impl Address {
    /// Well-formed: exactly 20 bytes long.
    pub open spec fn wf(&self) -> bool {
        self.bytes@.len() == 20
    }

    pub fn new(bytes: Vec<u8>) -> (r: Address)
        requires
            bytes@.len() == 20,
        ensures
            r@ == bytes@,
            r.wf(),
    {
        Address { bytes }
    }

    /// Byte-wise equality of two identifiers.
    pub fn same_as(&self, other: &Address) -> (r: bool)
        ensures
            r == (self@ == other@),
    {
        bytes_eq(&self.bytes, &other.bytes)
    }
}

impl Clone for Address {
    fn clone(&self) -> (r: Self)
        ensures
            r@ == self@,
    {
        Address { bytes: slice_to_vec(self.bytes.as_slice()) }
    }
}

/// Byte-wise equality of two byte vectors.
pub fn bytes_eq(a: &Vec<u8>, b: &Vec<u8>) -> (r: bool)
    ensures
        r == (a@ == b@),
{
    if a.len() != b.len() {
        return false;
    }
    let mut i: usize = 0;
    while i < a.len()
        invariant
            i <= a@.len(),
            a@.len() == b@.len(),
            forall|j: int| 0 <= j < i ==> a@[j] == b@[j],
        decreases a@.len() - i,
    {
        if a[i] != b[i] {
            return false;
        }
        i = i + 1;
    }
    proof {
        assert(a@ =~= b@);
    }
    true
}

/// One stored note.
pub struct Note {
    /// Dense per-account identifier; equals the note's slot index.
    pub id: u64,
    /// The account that owns the note.
    pub owner: Address,
    /// Ciphertext: 20-byte owner prefix followed by the XOR-stream body.
    pub encrypted_content: Vec<u8>,
    /// Block time of the last create or update.
    pub timestamp: u64,
    /// Plaintext title (titles are not encrypted).
    pub title: String,
}

/// The mathematical value of a stored note.
pub struct NoteView {
    pub id: u64,
    pub owner: Seq<u8>,
    pub content: Seq<u8>,
    pub timestamp: u64,
    pub title: Seq<char>,
}

impl View for Note {
    type V = NoteView;

    open spec fn view(&self) -> NoteView {
        NoteView {
            id: self.id,
            owner: self.owner@,
            content: self.encrypted_content@,
            timestamp: self.timestamp,
            title: self.title@,
        }
    }
}

/// The four kinds of state transition an operation can record.
#[derive(Clone, Copy, Debug, PartialEq, Eq, Structural)]
pub enum EventKind {
    UserRegistered,
    NoteCreated,
    NoteUpdated,
    NoteDeleted,
}

/// A structured event record.
///
/// `note_id` is meaningful for the note events and zero for
/// `UserRegistered`; `data` carries the UTF-8 title bytes for `NoteCreated`
/// and is empty otherwise.
pub struct Event {
    pub kind: EventKind,
    pub caller: Address,
    pub note_id: u64,
    pub data: Vec<u8>,
}

/// The mathematical value of an event record.
pub struct EventView {
    pub kind: EventKind,
    pub caller: Seq<u8>,
    pub note_id: u64,
    pub data: Seq<u8>,
}

impl View for Event {
    type V = EventView;

    open spec fn view(&self) -> EventView {
        EventView {
            kind: self.kind,
            caller: self.caller@,
            note_id: self.note_id,
            data: self.data@,
        }
    }
}

impl EventView {
    /// The registration event for `caller`.
    pub open spec fn registered(caller: Seq<u8>) -> EventView {
        EventView {
            kind: EventKind::UserRegistered,
            caller,
            note_id: 0,
            data: Seq::empty(),
        }
    }

    /// The creation event for note `note_id` of `caller`, carrying the title bytes.
    pub open spec fn created(caller: Seq<u8>, note_id: u64, title_bytes: Seq<u8>) -> EventView {
        EventView { kind: EventKind::NoteCreated, caller, note_id, data: title_bytes }
    }

    /// The update event for note `note_id` of `caller`.
    pub open spec fn updated(caller: Seq<u8>, note_id: u64) -> EventView {
        EventView { kind: EventKind::NoteUpdated, caller, note_id, data: Seq::empty() }
    }

    /// The deletion event for note `note_id` of `caller`.
    pub open spec fn deleted(caller: Seq<u8>, note_id: u64) -> EventView {
        EventView { kind: EventKind::NoteDeleted, caller, note_id, data: Seq::empty() }
    }
}

} // verus!
