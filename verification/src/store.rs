//! The storage layer: an arena of per-account cells, each holding the
//! account's optional encryption key and its densely indexed notes.
//!
//! Storage is keyed by (account, note id): note ids are dense per account
//! (`0..count`), and the note in slot `i` always carries id `i` and is owned
//! by the cell's account — the well-formedness invariant that delete's
//! swap-compaction must preserve.
//!
//! The key field distinguishes "never written" from "written empty": the
//! explicit empty marker that auto-registration stores is what makes the
//! one-time registration event expressible.

use vstd::prelude::*;
use vstd::slice::slice_to_vec;
use crate::types::{bytes_eq, Address, Note, NoteView};

verus! {

/// All stored fields of one account.
pub struct AccountCell {
    pub addr: Address,
    /// `None` until the first write; `Some` possibly empty afterwards.
    pub key: Option<Vec<u8>>,
    /// Live notes, slot `i` holding the note with id `i`.
    pub notes: Vec<Note>,
}

/// The mathematical value of one account's stored state.
pub struct AccountState {
    pub key: Option<Seq<u8>>,
    pub notes: Seq<NoteView>,
}

impl AccountState {
    /// The state of an account that was never touched.
    pub open spec fn initial() -> AccountState {
        AccountState { key: None, notes: Seq::empty() }
    }

    /// Whether a key (possibly the empty marker) was ever written.
    pub open spec fn registered(self) -> bool {
        self.key is Some
    }

    /// The stored key flattened to bytes: empty when none was written.
    pub open spec fn stored_key(self) -> Seq<u8> {
        match self.key {
            Some(k) => k,
            None => Seq::empty(),
        }
    }

    /// Number of live notes; also the next id assigned on create.
    pub open spec fn count(self) -> nat {
        self.notes.len()
    }
}

impl AccountCell {
    pub open spec fn state(self) -> AccountState {
        AccountState {
            key: match self.key {
                Some(k) => Some(k@),
                None => None,
            },
            notes: Seq::new(self.notes@.len(), |i: int| self.notes@[i]@),
        }
    }

    /// Density and ownership: slot `i` holds the note with id `i`, owned by
    /// this cell's account.
    pub open spec fn wf(self) -> bool {
        &&& self.addr.wf()
        &&& forall|i: int|
            0 <= i < self.notes@.len() ==> (#[trigger] self.notes@[i]).id == i
                && self.notes@[i].owner@ == self.addr@
    }
}

/// The persistent store: one cell per account ever touched.
pub struct Store {
    pub accounts: Vec<AccountCell>,
}

impl Store {
    pub open spec fn wf(self) -> bool {
        &&& forall|i: int|
            0 <= i < self.accounts@.len() ==> (#[trigger] self.accounts@[i]).wf()
        &&& forall|i: int, j: int|
            0 <= i < j < self.accounts@.len() ==> self.accounts@[i].addr@
                != self.accounts@[j].addr@
    }

    pub open spec fn has_account(self, a: Seq<u8>) -> bool {
        exists|i: int|
            0 <= i < self.accounts@.len() && (#[trigger] self.accounts@[i]).addr@ == a
    }

    pub open spec fn account_index(self, a: Seq<u8>) -> int {
        choose|i: int|
            0 <= i < self.accounts@.len() && (#[trigger] self.accounts@[i]).addr@ == a
    }

    /// The stored state of account `a`; untouched accounts read as initial.
    pub open spec fn account(self, a: Seq<u8>) -> AccountState {
        if self.has_account(a) {
            self.accounts@[self.account_index(a)].state()
        } else {
            AccountState::initial()
        }
    }

    /// In a well-formed store the cell holding `a` is unique.
    pub proof fn lemma_index_is(self, a: Seq<u8>, i: int)
        requires
            self.wf(),
            0 <= i < self.accounts@.len(),
            self.accounts@[i].addr@ == a,
        ensures
            self.has_account(a),
            self.account_index(a) == i,
            self.account(a) == self.accounts@[i].state(),
    {
        assert(self.has_account(a));
        let j = self.account_index(a);
        if j < i {
            assert(self.accounts@[j].addr@ != self.accounts@[i].addr@);
        } else if i < j {
            assert(self.accounts@[i].addr@ != self.accounts@[j].addr@);
        }
    }

    /// Replacing cell `i` by one with the same address changes exactly that
    /// account's state.
    proof fn lemma_update_frame(pre: Store, post: Store, i: int, cell: AccountCell)
        requires
            pre.wf(),
            0 <= i < pre.accounts@.len(),
            cell.wf(),
            cell.addr@ == pre.accounts@[i].addr@,
            post.accounts@ == pre.accounts@.update(i, cell),
        ensures
            post.wf(),
            post.account(cell.addr@) == cell.state(),
            forall|b: Seq<u8>| b != cell.addr@ ==> post.account(b) == pre.account(b),
    {
        assert forall|p: int, q: int|
            0 <= p < q < post.accounts@.len() implies post.accounts@[p].addr@
            != post.accounts@[q].addr@ by {
            assert(post.accounts@[p].addr@ == pre.accounts@[p].addr@);
            assert(post.accounts@[q].addr@ == pre.accounts@[q].addr@);
        }
        post.lemma_index_is(cell.addr@, i);
        assert forall|b: Seq<u8>| b != cell.addr@ implies post.account(b) == pre.account(b) by {
            if pre.has_account(b) {
                let j = pre.account_index(b);
                assert(0 <= j < pre.accounts@.len() && pre.accounts@[j].addr@ == b);
                assert(j != i);
                pre.lemma_index_is(b, j);
                post.lemma_index_is(b, j);
            } else {
                if post.has_account(b) {
                    let j = post.account_index(b);
                    assert(0 <= j < post.accounts@.len() && post.accounts@[j].addr@ == b);
                    assert(pre.accounts@[j].addr@ == b);
                    assert(pre.has_account(b));
                }
            }
        }
    }

    /// Appending a cell for a fresh address changes exactly that account's
    /// state.
    proof fn lemma_push_frame(pre: Store, post: Store, cell: AccountCell)
        requires
            pre.wf(),
            cell.wf(),
            !pre.has_account(cell.addr@),
            post.accounts@ == pre.accounts@.push(cell),
        ensures
            post.wf(),
            post.account(cell.addr@) == cell.state(),
            forall|b: Seq<u8>| b != cell.addr@ ==> post.account(b) == pre.account(b),
    {
        let n = pre.accounts@.len() as int;
        assert forall|p: int, q: int|
            0 <= p < q < post.accounts@.len() implies post.accounts@[p].addr@
            != post.accounts@[q].addr@ by {
            if q < n {
                assert(post.accounts@[p].addr@ == pre.accounts@[p].addr@);
                assert(post.accounts@[q].addr@ == pre.accounts@[q].addr@);
            } else {
                assert(post.accounts@[q] == cell);
                assert(post.accounts@[p].addr@ == pre.accounts@[p].addr@);
                if pre.accounts@[p].addr@ == cell.addr@ {
                    assert(pre.has_account(cell.addr@));
                }
            }
        }
        post.lemma_index_is(cell.addr@, n);
        assert forall|b: Seq<u8>| b != cell.addr@ implies post.account(b) == pre.account(b) by {
            if pre.has_account(b) {
                let j = pre.account_index(b);
                assert(0 <= j < pre.accounts@.len() && pre.accounts@[j].addr@ == b);
                pre.lemma_index_is(b, j);
                post.lemma_index_is(b, j);
            } else {
                if post.has_account(b) {
                    let j = post.account_index(b);
                    assert(0 <= j < post.accounts@.len() && post.accounts@[j].addr@ == b);
                    assert(j == n);
                }
            }
        }
    }

    /// Locate the cell of account `a`.
    fn find(&self, a: &Address) -> (r: Option<usize>)
        requires
            self.wf(),
        ensures
            match r {
                Some(i) => 0 <= i < self.accounts@.len() && self.accounts@[i as int].addr@
                    == a@ && self.has_account(a@) && self.account_index(a@) == i as int
                    && self.account(a@) == self.accounts@[i as int].state(),
                None => !self.has_account(a@),
            },
    {
        let mut i: usize = 0;
        while i < self.accounts.len()
            invariant
                self.wf(),
                i <= self.accounts@.len(),
                forall|j: int| 0 <= j < i ==> (#[trigger] self.accounts@[j]).addr@ != a@,
            decreases self.accounts@.len() - i,
        {
            if bytes_eq(&self.accounts[i].addr.bytes, &a.bytes) {
                proof {
                    self.lemma_index_is(a@, i as int);
                }
                return Some(i);
            }
            i = i + 1;
        }
        None
    }

    /// Index of the cell of `a`, creating an empty cell on first touch.
    fn find_or_create(&mut self, a: &Address) -> (i: usize)
        requires
            old(self).wf(),
            a.wf(),
        ensures
            final(self).wf(),
            i < final(self).accounts@.len(),
            final(self).accounts@[i as int].addr@ == a@,
            final(self).has_account(a@),
            final(self).account_index(a@) == i as int,
            final(self).account(a@) == old(self).account(a@),
            forall|b: Seq<u8>| b != a@ ==> final(self).account(b) == old(self).account(b),
    {
        match self.find(a) {
            Some(i) => i,
            None => {
                let ghost pre = *self;
                let cell = AccountCell { addr: a.clone(), key: None, notes: Vec::new() };
                let ghost gcell = cell;
                let i = self.accounts.len();
                self.accounts.push(cell);
                proof {
                    Store::lemma_push_frame(pre, *self, gcell);
                    assert(gcell.state().notes =~= Seq::<NoteView>::empty());
                    assert(gcell.state() == AccountState::initial());
                }
                i
            },
        }
    }

    /// The stored key of `a` as bytes, empty when none was ever written.
    pub fn stored_key_bytes(&self, a: &Address) -> (r: Vec<u8>)
        requires
            self.wf(),
        ensures
            r@ == self.account(a@).stored_key(),
    {
        match self.find(a) {
            Some(i) => match &self.accounts[i].key {
                Some(k) => slice_to_vec(k.as_slice()),
                None => Vec::new(),
            },
            None => Vec::new(),
        }
    }

    /// Whether a key (possibly the empty marker) was ever written for `a`.
    pub fn is_registered(&self, a: &Address) -> (r: bool)
        requires
            self.wf(),
        ensures
            r == self.account(a@).registered(),
    {
        match self.find(a) {
            Some(i) => self.accounts[i].key.is_some(),
            None => false,
        }
    }

    /// Overwrite the stored key of `a` (marks the account as registered).
    pub fn write_key(&mut self, a: &Address, key: Vec<u8>)
        requires
            old(self).wf(),
            a.wf(),
        ensures
            final(self).wf(),
            final(self).account(a@).key == Some(key@),
            final(self).account(a@).notes == old(self).account(a@).notes,
            forall|b: Seq<u8>| b != a@ ==> final(self).account(b) == old(self).account(b),
    {
        let i = self.find_or_create(a);
        let ghost mid = *self;
        let mut cell = self.accounts.remove(i);
        cell.key = Some(key);
        let ghost gcell = cell;
        self.accounts.insert(i, cell);
        proof {
            assert(self.accounts@ =~= mid.accounts@.update(i as int, gcell));
            assert(mid.accounts@[i as int].wf());
            Store::lemma_update_frame(mid, *self, i as int, gcell);
        }
    }

    /// Number of live notes of `a`.
    pub fn note_count_of(&self, a: &Address) -> (r: u64)
        requires
            self.wf(),
        ensures
            r as nat == self.account(a@).count(),
    {
        match self.find(a) {
            Some(i) => self.accounts[i].notes.len() as u64,
            None => 0,
        }
    }

    /// Append a note owned by `a`; its id is the previous count.
    pub fn append_note(&mut self, a: &Address, content: Vec<u8>, timestamp: u64, title: String) -> (id: u64)
        requires
            old(self).wf(),
            a.wf(),
        ensures
            final(self).wf(),
            id as nat == old(self).account(a@).count(),
            final(self).account(a@).key == old(self).account(a@).key,
            final(self).account(a@).notes == old(self).account(a@).notes.push(
                NoteView { id, owner: a@, content: content@, timestamp, title: title@ },
            ),
            forall|b: Seq<u8>| b != a@ ==> final(self).account(b) == old(self).account(b),
    {
        let i = self.find_or_create(a);
        let ghost mid = *self;
        let mut cell = self.accounts.remove(i);
        let id: u64 = cell.notes.len() as u64;
        let note = Note { id, owner: a.clone(), encrypted_content: content, timestamp, title };
        cell.notes.push(note);
        let ghost gcell = cell;
        self.accounts.insert(i, cell);
        proof {
            assert(self.accounts@ =~= mid.accounts@.update(i as int, gcell));
            assert(mid.accounts@[i as int].wf());
            Store::lemma_update_frame(mid, *self, i as int, gcell);
            assert(gcell.state().notes =~= mid.accounts@[i as int].state().notes.push(
                NoteView { id, owner: a@, content: content@, timestamp, title: title@ },
            ));
        }
        id
    }

    /// Overwrite content, timestamp and title of live note `id`; its id and
    /// owner are fixed.
    pub fn overwrite_note(&mut self, a: &Address, id: u64, content: Vec<u8>, timestamp: u64, title: String)
        requires
            old(self).wf(),
            a.wf(),
            (id as nat) < old(self).account(a@).count(),
        ensures
            final(self).wf(),
            final(self).account(a@).key == old(self).account(a@).key,
            final(self).account(a@).notes == old(self).account(a@).notes.update(
                id as int,
                NoteView { id, owner: a@, content: content@, timestamp, title: title@ },
            ),
            forall|b: Seq<u8>| b != a@ ==> final(self).account(b) == old(self).account(b),
    {
        let i = match self.find(a) {
            Some(i) => i,
            None => {
                proof {
                    assert(false);
                }
                0
            },
        };
        let ghost mid = *self;
        let mut cell = self.accounts.remove(i);
        let n = cell.notes.len();
        proof {
            assert((id as nat) < n as nat);
        }
        let idx = id as usize;
        proof {
            assert(idx as int == id as int);
        }
        let note = Note { id, owner: a.clone(), encrypted_content: content, timestamp, title };
        let _replaced = cell.notes.remove(idx);
        cell.notes.insert(idx, note);
        let ghost gcell = cell;
        self.accounts.insert(i, cell);
        proof {
            let pre_notes = mid.accounts@[i as int].notes@;
            assert(mid.accounts@[i as int].wf());
            assert(gcell.notes@ =~= pre_notes.update(idx as int, note));
            assert forall|k: int|
                0 <= k < gcell.notes@.len() implies (#[trigger] gcell.notes@[k]).id == k
                && gcell.notes@[k].owner@ == gcell.addr@ by {
                if k != idx as int {
                    assert(gcell.notes@[k] == pre_notes[k]);
                }
            }
            assert(gcell.wf());
            assert(self.accounts@ =~= mid.accounts@.update(i as int, gcell));
            Store::lemma_update_frame(mid, *self, i as int, gcell);
            assert(gcell.state().notes =~= mid.accounts@[i as int].state().notes.update(
                id as int,
                NoteView { id, owner: a@, content: content@, timestamp, title: title@ },
            ));
        }
    }

    /// Load live note `id` of `a`: its title, ciphertext and timestamp.
    pub fn load_note(&self, a: &Address, id: u64) -> (r: Option<(String, Vec<u8>, u64)>)
        requires
            self.wf(),
            a.wf(),
        ensures
            match r {
                Some(t) => (id as nat) < self.account(a@).count() && t.0@ == self.account(
                    a@,
                ).notes[id as int].title && t.1@ == self.account(a@).notes[id as int].content
                    && t.2 == self.account(a@).notes[id as int].timestamp,
                None => (id as nat) >= self.account(a@).count(),
            },
    {
        let i = match self.find(a) {
            Some(i) => i,
            None => {
                return None;
            },
        };
        let cell = &self.accounts[i];
        if id >= cell.notes.len() as u64 {
            return None;
        }
        let idx = id as usize;
        let note = &cell.notes[idx];
        if !note.owner.same_as(a) {
            // unreachable in a well-formed store: every live note of this
            // cell is owned by its account
            return None;
        }
        Some((note.title.clone(), slice_to_vec(note.encrypted_content.as_slice()), note.timestamp))
    }

    /// The view of the notes after a swap-compaction delete of `id`: the
    /// last note moves into slot `id` (relabelled to that id), and the live
    /// range shrinks by one.
    pub open spec fn swap_deleted(notes: Seq<NoteView>, id: int) -> Seq<NoteView>
        recommends
            0 <= id < notes.len(),
    {
        let last = notes.len() - 1;
        let moved = NoteView {
            id: notes[id].id,
            owner: notes[last].owner,
            content: notes[last].content,
            timestamp: notes[last].timestamp,
            title: notes[last].title,
        };
        notes.update(id, moved).take(last as int)
    }

    /// Delete live note `id` of `a` by swap-compaction.
    pub fn remove_note_swapped(&mut self, a: &Address, id: u64)
        requires
            old(self).wf(),
            a.wf(),
            (id as nat) < old(self).account(a@).count(),
        ensures
            final(self).wf(),
            final(self).account(a@).key == old(self).account(a@).key,
            final(self).account(a@).notes == Store::swap_deleted(
                old(self).account(a@).notes,
                id as int,
            ),
            forall|b: Seq<u8>| b != a@ ==> final(self).account(b) == old(self).account(b),
    {
        let i = match self.find(a) {
            Some(i) => i,
            None => {
                proof {
                    assert(false);
                }
                0
            },
        };
        let ghost mid = *self;
        let mut cell = self.accounts.remove(i);
        let n = cell.notes.len();
        proof {
            assert((id as nat) < n as nat);
        }
        let idx = id as usize;
        proof {
            assert(idx as int == id as int);
        }
        let last = n - 1;
        if idx != last {
            let mut moved = cell.notes.remove(last);
            moved.id = id;
            let _deleted = cell.notes.remove(idx);
            cell.notes.insert(idx, moved);
        } else {
            let _deleted = cell.notes.remove(last);
        }
        let ghost gcell = cell;
        self.accounts.insert(i, cell);
        proof {
            let pre_notes = mid.accounts@[i as int].notes@;
            assert(mid.accounts@[i as int].wf());
            assert(gcell.notes@ =~= pre_notes.update(
                idx as int,
                gcell.notes@[idx as int],
            ).take(last as int));
            assert forall|k: int|
                0 <= k < gcell.notes@.len() implies (#[trigger] gcell.notes@[k]).id == k
                && gcell.notes@[k].owner@ == gcell.addr@ by {
                if k != idx as int {
                    assert(gcell.notes@[k] == pre_notes[k]);
                }
            }
            assert(gcell.wf());
            assert(self.accounts@ =~= mid.accounts@.update(i as int, gcell));
            Store::lemma_update_frame(mid, *self, i as int, gcell);
            assert(gcell.state().notes =~= Store::swap_deleted(
                mid.accounts@[i as int].state().notes,
                id as int,
            ));
        }
    }
}

} // verus!
