//! The event emitter: formats an event record into the data bytes and the
//! 32-byte topic slots that the host log mechanism takes.
//!
//! The first topic is a fixed signature constant per event kind; the second
//! is the caller's 20-byte identifier right-aligned in a 32-byte slot; note
//! events add the note id, big-endian in a 32-byte slot.

use vstd::prelude::*;
use vstd::slice::slice_to_vec;
use crate::types::{Address, Event, EventKind};

verus! {

/// The fixed 32-byte signature identifying each event kind.
pub open spec fn spec_event_signature(kind: EventKind) -> Seq<u8> {
    match kind {
        EventKind::UserRegistered => seq![
            0x87u8, 0x7a, 0x15, 0x53, 0x68, 0xc1, 0xf0, 0xde, 0x44, 0xcf, 0xba, 0x7a, 0x7d, 0xa9,
            0x05, 0xcb, 0xae, 0xeb, 0x31, 0x94, 0x3d, 0x83, 0x9b, 0x7c, 0x67, 0x10, 0x3a, 0xca,
            0xa5, 0x30, 0x09, 0xf5,
        ],
        EventKind::NoteCreated => seq![
            0xa5u8, 0x63, 0x76, 0x16, 0x0d, 0x28, 0xd2, 0xb9, 0x0a, 0x07, 0x46, 0xc4, 0x9c, 0xab,
            0xa7, 0x32, 0xb4, 0x76, 0x70, 0xe9, 0xd5, 0x1b, 0xc3, 0x9e, 0x43, 0x1f, 0x4a, 0x6d,
            0x86, 0x1a, 0x0f, 0x9d,
        ],
        EventKind::NoteUpdated => seq![
            0x9bu8, 0x87, 0x18, 0x32, 0x9e, 0xe8, 0xd9, 0x34, 0xe3, 0xcb, 0x45, 0xc9, 0x85, 0x18,
            0xea, 0x81, 0xc6, 0xec, 0x5e, 0xa3, 0xb1, 0x1d, 0xd7, 0x7b, 0x32, 0x53, 0xe5, 0x9e,
            0x67, 0xc0, 0x5c, 0x8a,
        ],
        EventKind::NoteDeleted => seq![
            0x95u8, 0xa3, 0x23, 0xc3, 0x16, 0x9c, 0xe1, 0xb2, 0x12, 0xd9, 0x54, 0x54, 0xf3, 0x14,
            0xa7, 0xef, 0x7d, 0xd4, 0x8d, 0xc5, 0x74, 0x8b, 0xe2, 0xc6, 0x6b, 0x0a, 0x52, 0xd1,
            0x02, 0xf2, 0x80, 0xc4,
        ],
    }
}

/// A 20-byte identifier right-aligned into a 32-byte topic slot.
pub open spec fn address_topic(a: Seq<u8>) -> Seq<u8>
    recommends
        a.len() == 20,
{
    Seq::new(32, |i: int| if i < 12 { 0u8 } else { a[i - 12] })
}

/// Big-endian byte `j` (0 = most significant) of a 64-bit integer.
pub open spec fn u64_be_byte(x: u64, j: int) -> u8
    recommends
        0 <= j < 8,
{
    (x >> (((7 - j) * 8) as u64)) as u8
}

/// A note id encoded big-endian into a 32-byte topic slot.
pub open spec fn id_topic(x: u64) -> Seq<u8> {
    Seq::new(32, |i: int| if i < 24 { 0u8 } else { u64_be_byte(x, i - 24) })
}

/// The signature constant of `kind` as executable bytes.
pub fn event_signature(kind: EventKind) -> (r: Vec<u8>)
    ensures
        r@ == spec_event_signature(kind),
{
    let r: Vec<u8> = match kind {
        EventKind::UserRegistered => vec![
            0x87u8, 0x7a, 0x15, 0x53, 0x68, 0xc1, 0xf0, 0xde, 0x44, 0xcf, 0xba, 0x7a, 0x7d, 0xa9,
            0x05, 0xcb, 0xae, 0xeb, 0x31, 0x94, 0x3d, 0x83, 0x9b, 0x7c, 0x67, 0x10, 0x3a, 0xca,
            0xa5, 0x30, 0x09, 0xf5,
        ],
        EventKind::NoteCreated => vec![
            0xa5u8, 0x63, 0x76, 0x16, 0x0d, 0x28, 0xd2, 0xb9, 0x0a, 0x07, 0x46, 0xc4, 0x9c, 0xab,
            0xa7, 0x32, 0xb4, 0x76, 0x70, 0xe9, 0xd5, 0x1b, 0xc3, 0x9e, 0x43, 0x1f, 0x4a, 0x6d,
            0x86, 0x1a, 0x0f, 0x9d,
        ],
        EventKind::NoteUpdated => vec![
            0x9bu8, 0x87, 0x18, 0x32, 0x9e, 0xe8, 0xd9, 0x34, 0xe3, 0xcb, 0x45, 0xc9, 0x85, 0x18,
            0xea, 0x81, 0xc6, 0xec, 0x5e, 0xa3, 0xb1, 0x1d, 0xd7, 0x7b, 0x32, 0x53, 0xe5, 0x9e,
            0x67, 0xc0, 0x5c, 0x8a,
        ],
        EventKind::NoteDeleted => vec![
            0x95u8, 0xa3, 0x23, 0xc3, 0x16, 0x9c, 0xe1, 0xb2, 0x12, 0xd9, 0x54, 0x54, 0xf3, 0x14,
            0xa7, 0xef, 0x7d, 0xd4, 0x8d, 0xc5, 0x74, 0x8b, 0xe2, 0xc6, 0x6b, 0x0a, 0x52, 0xd1,
            0x02, 0xf2, 0x80, 0xc4,
        ],
    };
    proof {
        assert(r@ =~= spec_event_signature(kind));
    }
    r
}

/// The caller topic: 12 zero bytes, then the 20-byte identifier.
pub fn encode_address_topic(a: &Address) -> (r: Vec<u8>)
    requires
        a.wf(),
    ensures
        r@ == address_topic(a@),
{
    let mut r: Vec<u8> = Vec::new();
    let mut i: usize = 0;
    while i < 12
        invariant
            i <= 12,
            r@.len() == i,
            forall|j: int| 0 <= j < i ==> r@[j] == 0u8,
        decreases 12 - i,
    {
        r.push(0u8);
        i = i + 1;
    }
    let mut j: usize = 0;
    while j < 20
        invariant
            a.wf(),
            j <= 20,
            r@.len() == 12 + j,
            forall|k: int| 0 <= k < 12 ==> r@[k] == 0u8,
            forall|k: int| 0 <= k < j ==> r@[12 + k] == a@[k],
        decreases 20 - j,
    {
        r.push(a.bytes[j]);
        j = j + 1;
    }
    proof {
        assert(r@ =~= address_topic(a@));
    }
    r
}

/// The note-id topic: 24 zero bytes, then the id big-endian.
pub fn encode_id_topic(x: u64) -> (r: Vec<u8>)
    ensures
        r@ == id_topic(x),
{
    let mut r: Vec<u8> = Vec::new();
    let mut i: usize = 0;
    while i < 24
        invariant
            i <= 24,
            r@.len() == i,
            forall|j: int| 0 <= j < i ==> r@[j] == 0u8,
        decreases 24 - i,
    {
        r.push(0u8);
        i = i + 1;
    }
    let mut j: usize = 0;
    while j < 8
        invariant
            j <= 8,
            r@.len() == 24 + j,
            forall|k: int| 0 <= k < 24 ==> r@[k] == 0u8,
            forall|k: int| 0 <= k < j ==> r@[24 + k] == u64_be_byte(x, k),
        decreases 8 - j,
    {
        let shift: u64 = ((7 - j) * 8) as u64;
        let b: u8 = (x >> shift) as u8;
        r.push(b);
        j = j + 1;
    }
    proof {
        assert(r@ =~= id_topic(x));
    }
    r
}

/// Format an event for the host log mechanism: its data bytes and its
/// topics (signature first, then caller, then — for note events — the id).
pub fn encode_event(e: &Event) -> (r: (Vec<u8>, Vec<Vec<u8>>))
    requires
        e.caller.wf(),
    ensures
        r.0@ == e.data@,
        r.1@.len() == (if e.kind is UserRegistered {
            2int
        } else {
            3int
        }),
        r.1@[0]@ == spec_event_signature(e.kind),
        r.1@[1]@ == address_topic(e.caller@),
        !(e.kind is UserRegistered) ==> r.1@[2]@ == id_topic(e.note_id),
{
    let data = slice_to_vec(e.data.as_slice());
    let mut topics: Vec<Vec<u8>> = Vec::new();
    topics.push(event_signature(e.kind));
    topics.push(encode_address_topic(&e.caller));
    match e.kind {
        EventKind::UserRegistered => {},
        _ => {
            topics.push(encode_id_topic(e.note_id));
        },
    }
    (data, topics)
}

} // verus!
