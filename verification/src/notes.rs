//! The public operation surface: every externally invocable operation of
//! the note store, each scoped to the acting account.
//!
//! The acting identity and the current block time come from the host
//! boundary, so every operation takes them as explicit parameters — never
//! from caller-supplied payload.  Mutating operations append the event
//! records they would emit to the log.

use vstd::prelude::*;
use vstd::slice::slice_to_vec;
use vstd::utf8::encode_utf8;
use crate::cipher::{decrypt_with, encrypt_with, spec_decrypt_str, spec_encrypt};
use crate::cipher::lemma_encrypt_decrypt_roundtrip;
use crate::store::{AccountState, Store};
use crate::types::{Address, Event, EventKind, EventView, NoteView};

verus! {

/// Sentinel content text returned when a requested note does not exist.
pub open spec fn missing_note_msg() -> Seq<char> {
    "Note does not exist"@
}

/// The events that auto-registration adds: one registration event on the
/// account's first mutating call, none afterwards.
pub open spec fn registration_delta(was_registered: bool, caller: Seq<u8>) -> Seq<EventView> {
    if was_registered {
        Seq::empty()
    } else {
        seq![EventView::registered(caller)]
    }
}

/// The note store with its event log and its own host identity.
pub struct SecureNotes {
    pub own_address: Address,
    pub store: Store,
    pub events: Vec<Event>,
}

impl SecureNotes {
    pub open spec fn wf(self) -> bool {
        &&& self.own_address.wf()
        &&& self.store.wf()
    }

    /// The stored state of account `a`.
    pub open spec fn account(self, a: Seq<u8>) -> AccountState {
        self.store.account(a)
    }

    /// All recorded events, oldest first.
    pub open spec fn log(self) -> Seq<EventView> {
        Seq::new(self.events@.len(), |i: int| self.events@[i]@)
    }

    /// A fresh store: no accounts, no events.
    pub fn new(own_address: Address) -> (r: SecureNotes)
        requires
            own_address.wf(),
        ensures
            r.wf(),
            r.own_address@ == own_address@,
            r.log() == Seq::<EventView>::empty(),
            forall|a: Seq<u8>| r.account(a) == AccountState::initial(),
    {
        let r = SecureNotes {
            own_address,
            store: Store { accounts: Vec::new() },
            events: Vec::new(),
        };
        proof {
            assert(r.log() =~= Seq::<EventView>::empty());
        }
        r
    }

    /// Deployment hook: a fresh store needs no further initialization.
    pub fn deploy(&self) {
    }

    /// Record one event.
    fn emit(&mut self, e: Event)
        ensures
            final(self).store == old(self).store,
            final(self).own_address == old(self).own_address,
            final(self).log() == old(self).log().push(e@),
    {
        self.events.push(e);
        proof {
            assert(self.log() =~= old(self).log().push(e@));
        }
    }

    /// Auto-registration: an account's first mutating call stores the
    /// explicit empty key marker and records the one registration event;
    /// later calls change nothing.
    fn ensure_registered(&mut self, caller: &Address)
        requires
            old(self).wf(),
            caller.wf(),
        ensures
            final(self).wf(),
            final(self).own_address == old(self).own_address,
            final(self).account(caller@).key == (if old(self).account(caller@).registered() {
                old(self).account(caller@).key
            } else {
                Some(Seq::<u8>::empty())
            }),
            final(self).account(caller@).stored_key() == old(self).account(
                caller@,
            ).stored_key(),
            final(self).account(caller@).notes == old(self).account(caller@).notes,
            forall|b: Seq<u8>| b != caller@ ==> final(self).account(b) == old(self).account(b),
            final(self).log() == old(self).log() + registration_delta(
                old(self).account(caller@).registered(),
                caller@,
            ),
    {
        if !self.store.is_registered(caller) {
            self.store.write_key(caller, Vec::new());
            self.emit(
                Event {
                    kind: EventKind::UserRegistered,
                    caller: caller.clone(),
                    note_id: 0,
                    data: Vec::new(),
                },
            );
            proof {
                assert(self.log() =~= old(self).log() + registration_delta(false, caller@));
            }
        } else {
            proof {
                assert(self.log() =~= old(self).log() + registration_delta(true, caller@));
            }
        }
    }

    /// Explicit registration: stores `encryption_key` when it is non-empty
    /// and always records a registration event.  May be called repeatedly;
    /// each call with a non-empty key overwrites the stored one.
    pub fn register_user(&mut self, caller: &Address, encryption_key: Vec<u8>)
        requires
            old(self).wf(),
            caller.wf(),
        ensures
            final(self).wf(),
            final(self).own_address == old(self).own_address,
            final(self).account(caller@).key == (if encryption_key@.len() > 0 {
                Some(encryption_key@)
            } else {
                old(self).account(caller@).key
            }),
            final(self).account(caller@).notes == old(self).account(caller@).notes,
            forall|b: Seq<u8>| b != caller@ ==> final(self).account(b) == old(self).account(b),
            final(self).log() == old(self).log().push(EventView::registered(caller@)),
    {
        if encryption_key.len() > 0 {
            self.store.write_key(caller, encryption_key);
        }
        self.emit(
            Event {
                kind: EventKind::UserRegistered,
                caller: caller.clone(),
                note_id: 0,
                data: Vec::new(),
            },
        );
    }

    /// Create a note: auto-registers, encrypts `content` under the caller's
    /// current key state, appends the note with the next dense id, and
    /// records the creation event (after the registration event, if any).
    pub fn create_note(&mut self, caller: &Address, title: String, content: String, timestamp: u64) -> (note_id: u64)
        requires
            old(self).wf(),
            caller.wf(),
        ensures
            final(self).wf(),
            final(self).own_address == old(self).own_address,
            note_id as nat == old(self).account(caller@).count(),
            final(self).account(caller@).notes == old(self).account(caller@).notes.push(
                NoteView {
                    id: note_id,
                    owner: caller@,
                    content: spec_encrypt(
                        caller@,
                        old(self).account(caller@).stored_key(),
                        encode_utf8(content@),
                    ),
                    timestamp,
                    title: title@,
                },
            ),
            final(self).account(caller@).key == (if old(self).account(caller@).registered() {
                old(self).account(caller@).key
            } else {
                Some(Seq::<u8>::empty())
            }),
            forall|b: Seq<u8>| b != caller@ ==> final(self).account(b) == old(self).account(b),
            final(self).log() == old(self).log() + registration_delta(
                old(self).account(caller@).registered(),
                caller@,
            ) + seq![EventView::created(caller@, note_id, encode_utf8(title@))],
    {
        self.ensure_registered(caller);
        let key = self.store.stored_key_bytes(caller);
        let ciphertext = encrypt_with(caller, &key, content.as_str());
        let title_bytes = slice_to_vec(title.as_str().as_bytes());
        let note_id = self.store.append_note(caller, ciphertext, timestamp, title);
        self.emit(
            Event {
                kind: EventKind::NoteCreated,
                caller: caller.clone(),
                note_id,
                data: title_bytes,
            },
        );
        proof {
            assert(self.log() =~= old(self).log() + registration_delta(
                old(self).account(caller@).registered(),
                caller@,
            ) + seq![EventView::created(caller@, note_id, encode_utf8(title@))]);
        }
        note_id
    }

    /// Read a note: its title, its content decrypted under the caller's
    /// current key state, and its timestamp.  A note the caller does not
    /// have yields the sentinel tuple instead of failing.
    pub fn get_note(&self, caller: &Address, note_id: u64) -> (r: (String, String, u64))
        requires
            self.wf(),
            caller.wf(),
        ensures
            (note_id as nat) < self.account(caller@).count() ==> ({
                let n = self.account(caller@).notes[note_id as int];
                r.0@ == n.title && r.1@ == spec_decrypt_str(
                    caller@,
                    self.account(caller@).stored_key(),
                    n.content,
                ) && r.2 == n.timestamp
            }),
            (note_id as nat) >= self.account(caller@).count() ==> r.0@ == Seq::<char>::empty()
                && r.1@ == missing_note_msg() && r.2 == 0,
    {
        match self.store.load_note(caller, note_id) {
            Some((title, content, ts)) => {
                let key = self.store.stored_key_bytes(caller);
                let plain = decrypt_with(caller, &key, content.as_slice());
                (title, plain, ts)
            },
            None => (String::new(), "Note does not exist".to_owned(), 0),
        }
    }

    /// Update a note in place: content re-encrypted under the caller's
    /// current key state, title and timestamp replaced, id and owner fixed.
    /// Auto-registers; a note the caller does not have is left untouched.
    pub fn update_note(&mut self, caller: &Address, note_id: u64, title: String, content: String, timestamp: u64)
        requires
            old(self).wf(),
            caller.wf(),
        ensures
            final(self).wf(),
            final(self).own_address == old(self).own_address,
            (note_id as nat) < old(self).account(caller@).count() ==> final(self).account(
                caller@,
            ).notes == old(self).account(caller@).notes.update(
                note_id as int,
                NoteView {
                    id: note_id,
                    owner: caller@,
                    content: spec_encrypt(
                        caller@,
                        old(self).account(caller@).stored_key(),
                        encode_utf8(content@),
                    ),
                    timestamp,
                    title: title@,
                },
            ),
            (note_id as nat) >= old(self).account(caller@).count() ==> final(self).account(
                caller@,
            ).notes == old(self).account(caller@).notes,
            final(self).account(caller@).key == (if old(self).account(caller@).registered() {
                old(self).account(caller@).key
            } else {
                Some(Seq::<u8>::empty())
            }),
            forall|b: Seq<u8>| b != caller@ ==> final(self).account(b) == old(self).account(b),
            final(self).log() == old(self).log() + registration_delta(
                old(self).account(caller@).registered(),
                caller@,
            ) + (if (note_id as nat) < old(self).account(caller@).count() {
                seq![EventView::updated(caller@, note_id)]
            } else {
                Seq::<EventView>::empty()
            }),
    {
        self.ensure_registered(caller);
        let count = self.store.note_count_of(caller);
        if note_id < count {
            let key = self.store.stored_key_bytes(caller);
            let ciphertext = encrypt_with(caller, &key, content.as_str());
            self.store.overwrite_note(caller, note_id, ciphertext, timestamp, title);
            self.emit(
                Event {
                    kind: EventKind::NoteUpdated,
                    caller: caller.clone(),
                    note_id,
                    data: Vec::new(),
                },
            );
        }
        proof {
            assert(self.log() =~= old(self).log() + registration_delta(
                old(self).account(caller@).registered(),
                caller@,
            ) + (if (note_id as nat) < old(self).account(caller@).count() {
                seq![EventView::updated(caller@, note_id)]
            } else {
                Seq::<EventView>::empty()
            }));
        }
    }

    /// Delete a note by swap-compaction: the last note moves into the
    /// deleted slot (taking over the deleted id) and the count shrinks by
    /// one.  Auto-registers; a note the caller does not have is left
    /// untouched.
    pub fn delete_note(&mut self, caller: &Address, note_id: u64)
        requires
            old(self).wf(),
            caller.wf(),
        ensures
            final(self).wf(),
            final(self).own_address == old(self).own_address,
            (note_id as nat) < old(self).account(caller@).count() ==> final(self).account(
                caller@,
            ).notes == Store::swap_deleted(old(self).account(caller@).notes, note_id as int),
            (note_id as nat) >= old(self).account(caller@).count() ==> final(self).account(
                caller@,
            ).notes == old(self).account(caller@).notes,
            final(self).account(caller@).key == (if old(self).account(caller@).registered() {
                old(self).account(caller@).key
            } else {
                Some(Seq::<u8>::empty())
            }),
            forall|b: Seq<u8>| b != caller@ ==> final(self).account(b) == old(self).account(b),
            final(self).log() == old(self).log() + registration_delta(
                old(self).account(caller@).registered(),
                caller@,
            ) + (if (note_id as nat) < old(self).account(caller@).count() {
                seq![EventView::deleted(caller@, note_id)]
            } else {
                Seq::<EventView>::empty()
            }),
    {
        self.ensure_registered(caller);
        let count = self.store.note_count_of(caller);
        if note_id < count {
            self.store.remove_note_swapped(caller, note_id);
            self.emit(
                Event {
                    kind: EventKind::NoteDeleted,
                    caller: caller.clone(),
                    note_id,
                    data: Vec::new(),
                },
            );
        }
        proof {
            assert(self.log() =~= old(self).log() + registration_delta(
                old(self).account(caller@).registered(),
                caller@,
            ) + (if (note_id as nat) < old(self).account(caller@).count() {
                seq![EventView::deleted(caller@, note_id)]
            } else {
                Seq::<EventView>::empty()
            }));
        }
    }

    /// Number of live notes of the caller.
    pub fn get_note_count(&self, caller: &Address) -> (r: u64)
        requires
            self.wf(),
            caller.wf(),
        ensures
            r as nat == self.account(caller@).count(),
    {
        self.store.note_count_of(caller)
    }

    /// All live notes of the caller as parallel arrays — ids, titles,
    /// timestamps — in ascending id order.
    pub fn get_notes_list(&self, caller: &Address) -> (r: (Vec<u64>, Vec<String>, Vec<u64>))
        requires
            self.wf(),
            caller.wf(),
        ensures
            ({
                let notes = self.account(caller@).notes;
                r.0@.len() == notes.len() && r.1@.len() == notes.len() && r.2@.len()
                    == notes.len() && forall|i: int|
                    0 <= i < notes.len() ==> r.0@[i] == (#[trigger] notes[i]).id && r.1@[i]@
                        == notes[i].title && r.2@[i] == notes[i].timestamp
            }),
    {
        proof {
            self.lemma_notes_dense(caller@);
        }
        let count = self.store.note_count_of(caller);
        let mut ids: Vec<u64> = Vec::new();
        let mut titles: Vec<String> = Vec::new();
        let mut stamps: Vec<u64> = Vec::new();
        let mut i: u64 = 0;
        while i < count
            invariant
                self.wf(),
                caller.wf(),
                i <= count,
                count as nat == self.account(caller@).count(),
                ids@.len() == i as nat,
                titles@.len() == i as nat,
                stamps@.len() == i as nat,
                forall|k: int|
                    0 <= k < i ==> ids@[k] == (#[trigger] self.account(caller@).notes[k]).id
                        && titles@[k]@ == self.account(caller@).notes[k].title && stamps@[k]
                        == self.account(caller@).notes[k].timestamp,
            decreases count - i,
        {
            proof {
                self.lemma_notes_dense(caller@);
            }
            match self.store.load_note(caller, i) {
                Some((title, _content, ts)) => {
                    ids.push(i);
                    titles.push(title);
                    stamps.push(ts);
                },
                None => {
                    proof {
                        assert(false);
                    }
                },
            }
            i = i + 1;
        }
        (ids, titles, stamps)
    }

    /// Unconditionally overwrite the caller's encryption key.
    pub fn update_encryption_key(&mut self, caller: &Address, new_key: Vec<u8>)
        requires
            old(self).wf(),
            caller.wf(),
        ensures
            final(self).wf(),
            final(self).own_address == old(self).own_address,
            final(self).account(caller@).key == Some(new_key@),
            final(self).account(caller@).notes == old(self).account(caller@).notes,
            forall|b: Seq<u8>| b != caller@ ==> final(self).account(b) == old(self).account(b),
            final(self).log() == old(self).log(),
    {
        self.store.write_key(caller, new_key);
    }

    /// The raw cipher engine: encrypt `content` for the caller under the
    /// caller's current key state.
    pub fn encrypt_note(&self, caller: &Address, content: String) -> (r: Vec<u8>)
        requires
            self.wf(),
            caller.wf(),
        ensures
            r@ == spec_encrypt(caller@, self.account(caller@).stored_key(), encode_utf8(content@)),
            r@.len() >= 20,
    {
        let key = self.store.stored_key_bytes(caller);
        encrypt_with(caller, &key, content.as_str())
    }

    /// The raw cipher engine: decrypt for the caller under the caller's
    /// current key state.  Never fails — malformed or foreign input yields
    /// a sentinel text; a ciphertext the caller produced under the same key
    /// state decrypts to the original text.
    pub fn decrypt_note(&self, caller: &Address, encrypted_content: Vec<u8>) -> (r: String)
        requires
            self.wf(),
            caller.wf(),
        ensures
            r@ == spec_decrypt_str(
                caller@,
                self.account(caller@).stored_key(),
                encrypted_content@,
            ),
            forall|t: Seq<char>|
                encrypted_content@ == spec_encrypt(
                    caller@,
                    self.account(caller@).stored_key(),
                    encode_utf8(t),
                ) ==> r@ == t,
    {
        let key = self.store.stored_key_bytes(caller);
        let r = decrypt_with(caller, &key, encrypted_content.as_slice());
        proof {
            assert forall|t: Seq<char>|
                encrypted_content@ == spec_encrypt(
                    caller@,
                    self.account(caller@).stored_key(),
                    encode_utf8(t),
                ) implies r@ == t by {
                lemma_encrypt_decrypt_roundtrip(
                    caller@,
                    self.account(caller@).stored_key(),
                    t,
                );
            }
        }
        r
    }

    /// This unit's own host identity (compatibility accessor).
    pub fn get_encryption_contract_address(&self) -> (r: Address)
        ensures
            r@ == self.own_address@,
    {
        self.own_address.clone()
    }

    /// Density and ownership: in a well-formed state the live note ids of
    /// any account are exactly 0, 1, ..., count-1 — the note in slot `i`
    /// carries id `i` — and every live note is owned by that account.
    pub proof fn lemma_notes_dense(self, a: Seq<u8>)
        requires
            self.wf(),
        ensures
            forall|i: int|
                0 <= i < self.account(a).count() ==> (#[trigger] self.account(a).notes[i]).id
                    == i && self.account(a).notes[i].owner == a,
    {
        if self.store.has_account(a) {
            let j = self.store.account_index(a);
            assert(0 <= j < self.store.accounts@.len() && self.store.accounts@[j].addr@ == a);
            assert(self.store.accounts@[j].wf());
        }
    }
}

} // verus!
