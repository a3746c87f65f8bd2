use vstd::prelude::*;
use vstd::utf8::encode_utf8;

use crate::address::note_address;
use crate::note::{authorize, authorize_check, note_create_step, note_update_step, same_key, Note, NoteView, NotesError};
use crate::validation::{content_check, title_check};

verus! {

/// The signer asking to create a note; as the payer of its storage it
/// becomes the note's owner.
pub struct CreateNote {
    pub author: [u8; 32],
}

/// A request to change the content of the note at `note`, signed by `author`.
pub struct UpdateNote {
    pub note: [u8; 32],
    pub author: [u8; 32],
}

/// A request to remove the note at `note`, signed by `author`.
pub struct DeleteNote {
    pub note: [u8; 32],
    pub author: [u8; 32],
}

/// A live note satisfies the title and content rules.
pub open spec fn note_valid(n: NoteView) -> bool {
    &&& title_check(n.title) is Ok
    &&& content_check(n.content) is Ok
}

/// Every live note is valid and sits at the address derived from its own
/// owner and title.
pub open spec fn notes_wf(program_id: Seq<u8>, notes: Map<Seq<u8>, NoteView>) -> bool {
    forall|a: Seq<u8>| #[trigger] notes.contains_key(a) ==> {
        &&& note_valid(notes[a])
        &&& note_address(program_id, notes[a].author, encode_utf8(notes[a].title)) == Some(a)
    }
}

/// What `create` returns and the notes it leaves: checks first, then the
/// address, which must be free.
pub open spec fn create_step(
    program_id: Seq<u8>,
    notes: Map<Seq<u8>, NoteView>,
    author: Seq<u8>,
    title: Seq<char>,
    content: Seq<char>,
    now: i64,
) -> (Result<Seq<u8>, NotesError>, Map<Seq<u8>, NoteView>) {
    match note_create_step(author, title, content, now) {
        Err(e) => (Err(e), notes),
        Ok(n) => match note_address(program_id, author, encode_utf8(title)) {
            None => (Err(NotesError::AddressUnavailable), notes),
            Some(a) => if notes.contains_key(a) {
                (Err(NotesError::AlreadyExists), notes)
            } else {
                (Ok(a), notes.insert(a, n))
            },
        },
    }
}

/// What `update` returns and the notes it leaves: the note must exist, then
/// the note's own update decides.
pub open spec fn update_step(
    notes: Map<Seq<u8>, NoteView>,
    address: Seq<u8>,
    authority: Seq<u8>,
    content: Seq<char>,
    now: i64,
) -> (Result<(), NotesError>, Map<Seq<u8>, NoteView>) {
    if !notes.contains_key(address) {
        (Err(NotesError::NotFound), notes)
    } else {
        let (r, n) = note_update_step(notes[address], authority, content, now);
        if r is Ok {
            (r, notes.insert(address, n))
        } else {
            (r, notes)
        }
    }
}

/// What `delete` returns and the notes it leaves.
pub open spec fn delete_step(
    notes: Map<Seq<u8>, NoteView>,
    address: Seq<u8>,
    authority: Seq<u8>,
) -> (Result<(), NotesError>, Map<Seq<u8>, NoteView>) {
    if !notes.contains_key(address) {
        (Err(NotesError::NotFound), notes)
    } else {
        match authorize_check(notes[address].author, authority) {
            Err(e) => (Err(e), notes),
            Ok(_) => (Ok(()), notes.remove(address)),
        }
    }
}

/// What reading the note at `address` gives.
pub open spec fn read_step(notes: Map<Seq<u8>, NoteView>, address: Seq<u8>) -> Result<NoteView, NotesError> {
    if notes.contains_key(address) {
        Ok(notes[address])
    } else {
        Err(NotesError::NotFound)
    }
}

/// A created note's address, as bytes.
pub open spec fn address_result(r: Result<[u8; 32], NotesError>) -> Result<Seq<u8>, NotesError> {
    match r {
        Ok(a) => Ok(a@),
        Err(e) => Err(e),
    }
}

/// A note read, as a view.
pub open spec fn note_result(r: Result<&Note, NotesError>) -> Result<NoteView, NotesError> {
    match r {
        Ok(n) => Ok(n@),
        Err(e) => Err(e),
    }
}

struct Slot {
    address: [u8; 32],
    note: Note,
}

/// The notes of one program, each keyed by its derived address.
pub struct NoteStore {
    program_id: [u8; 32],
    slots: Vec<Slot>,
    notes: Ghost<Map<Seq<u8>, NoteView>>,
}

impl View for NoteStore {
    type V = Map<Seq<u8>, NoteView>;

    closed spec fn view(&self) -> Map<Seq<u8>, NoteView> {
        self.notes@
    }
}

impl NoteStore {
    /// The key of the program whose notes these are.
    pub closed spec fn program_key(&self) -> Seq<u8> {
        self.program_id@
    }

    /// The slots and the view agree, addresses are distinct, and every live
    /// note is valid and sits at its derived address.
    pub closed spec fn wf(&self) -> bool {
        &&& notes_wf(self.program_id@, self.notes@)
        &&& forall|i: int| 0 <= i < self.slots@.len() ==> {
            &&& #[trigger] self.notes@.contains_key(self.slots@[i].address@)
            &&& self.notes@[self.slots@[i].address@] == self.slots@[i].note@
        }
        &&& forall|a: Seq<u8>| #[trigger] self.notes@.contains_key(a)
            ==> exists|i: int| 0 <= i < self.slots@.len() && #[trigger] self.slots@[i].address@ == a
        &&& forall|i: int, j: int| 0 <= i < self.slots@.len() && 0 <= j < self.slots@.len() && i != j
            ==> #[trigger] self.slots@[i].address@ != #[trigger] self.slots@[j].address@
    }

    /// An empty store for the program `program_id`.
    pub fn new(program_id: [u8; 32]) -> (r: NoteStore)
        ensures
            r.wf(),
            r@ == Map::<Seq<u8>, NoteView>::empty(),
            r.program_key() == program_id@,
    {
        NoteStore { program_id, slots: Vec::new(), notes: Ghost(Map::empty()) }
    }

    /// The key of the program whose notes these are.
    pub fn program_id(&self) -> (r: [u8; 32])
        ensures
            r@ == self.program_key(),
    {
        self.program_id
    }

    /// Every live note is valid and sits at the address derived from its
    /// owner and title, so no lookup key handed in can reach a note stored
    /// under another address.
    pub proof fn lemma_notes_wf(&self)
        requires
            self.wf(),
        ensures
            notes_wf(self.program_key(), self@),
    {
    }

    fn find(&self, address: &[u8; 32]) -> (r: Option<usize>)
        requires
            self.wf(),
        ensures
            match r {
                Some(i) => i < self.slots@.len() && self.slots@[i as int].address@ == address@,
                None => !self@.contains_key(address@),
            },
    {
        let mut i: usize = 0;
        while i < self.slots.len()
            invariant
                i <= self.slots@.len(),
                forall|j: int| 0 <= j < i ==> self.slots@[j].address@ != address@,
            decreases self.slots@.len() - i,
        {
            if same_key(&self.slots[i].address, address) {
                return Some(i);
            }
            i = i + 1;
        }
        None
    }

    /// The note at `address`, or `NotFound`.
    pub fn read(&self, address: &[u8; 32]) -> (r: Result<&Note, NotesError>)
        requires
            self.wf(),
        ensures
            note_result(r) == read_step(self@, address@),
    {
        match self.find(address) {
            Some(i) => Ok(&self.slots[i].note),
            None => Err(NotesError::NotFound),
        }
    }
}

/// Creates the note `(title, content)` of the signer at `now` and returns its
/// address. Nothing changes when it fails.
pub fn create_note(store: &mut NoteStore, ctx: &CreateNote, title: String, content: String, now: i64) -> (r: Result<[u8; 32], NotesError>)
    requires
        old(store).wf(),
    ensures
        final(store).wf(),
        final(store).program_key() == old(store).program_key(),
        (address_result(r), final(store)@) == create_step(old(store).program_key(), old(store)@, ctx.author@, title@, content@, now),
{
    let note = match Note::new_checked(ctx.author, title, content, now) {
        Err(e) => return Err(e),
        Ok(n) => n,
    };
    let address = match crate::address::derive(&store.program_id, &note.author, note.title.as_str()) {
        None => return Err(NotesError::AddressUnavailable),
        Some(a) => a,
    };
    match store.find(&address) {
        Some(_) => return Err(NotesError::AlreadyExists),
        None => {},
    }
    let ghost old_slots = store.slots@;
    store.notes = Ghost(store.notes@.insert(address@, note@));
    store.slots.push(Slot { address, note });
    proof {
        let n = store.slots@.len() - 1;
        assert(store.slots@[n].address@ == address@);
        assert forall|i: int| 0 <= i < old_slots.len() implies old_slots[i].address@ != address@ by {
            assert(old(store).notes@.contains_key(old_slots[i].address@));
        }
        assert forall|a: Seq<u8>| #[trigger] store.notes@.contains_key(a)
            implies exists|i: int| 0 <= i < store.slots@.len() && #[trigger] store.slots@[i].address@ == a by {
            if a == address@ {
                assert(store.slots@[n].address@ == a);
            } else {
                assert(old(store).notes@.contains_key(a));
                let k = choose|i: int| 0 <= i < old_slots.len() && #[trigger] old_slots[i].address@ == a;
                assert(store.slots@[k].address@ == a);
            }
        }
    }
    Ok(address)
}

/// Replaces the content of the note at `ctx.note` and stamps it with `now`,
/// when the signer owns it. Nothing changes when it fails.
pub fn update_note(store: &mut NoteStore, ctx: &UpdateNote, content: String, now: i64) -> (r: Result<(), NotesError>)
    requires
        old(store).wf(),
    ensures
        final(store).wf(),
        final(store).program_key() == old(store).program_key(),
        (r, final(store)@) == update_step(old(store)@, ctx.note@, ctx.author@, content@, now),
{
    let i = match store.find(&ctx.note) {
        None => return Err(NotesError::NotFound),
        Some(i) => i,
    };
    let ghost old_slots = store.slots@;
    assert(store.notes@.contains_key(old_slots[i as int].address@));
    let r = store.slots[i].note.apply_update(&ctx.author, content, now);
    if r.is_err() {
        proof {
            assert forall|j: int| 0 <= j < store.slots@.len() implies
                (#[trigger] store.slots@[j]).address@ == old_slots[j].address@
                && store.slots@[j].note@ == old_slots[j].note@ by {}
            assert forall|a: Seq<u8>| #[trigger] store.notes@.contains_key(a)
                implies exists|k: int| 0 <= k < store.slots@.len() && #[trigger] store.slots@[k].address@ == a by {
                let k = choose|k: int| 0 <= k < old_slots.len() && #[trigger] old_slots[k].address@ == a;
                assert(store.slots@[k].address@ == a);
            }
        }
        return r;
    }
    store.notes = Ghost(store.notes@.insert(ctx.note@, store.slots@[i as int].note@));
    proof {
        let before = old(store).notes@[ctx.note@];
        assert(before == old_slots[i as int].note@);
        assert(store.slots@[i as int].note@ == crate::note::updated_note(before, content@, now));
        assert(note_valid(before));
        assert forall|j: int| 0 <= j < store.slots@.len() && j != i implies store.slots@[j] == old_slots[j] by {}
        assert forall|j: int| 0 <= j < store.slots@.len() implies {
            &&& #[trigger] store.notes@.contains_key(store.slots@[j].address@)
            &&& store.notes@[store.slots@[j].address@] == store.slots@[j].note@
        } by {
            if j != i {
                assert(old_slots[j].address@ != old_slots[i as int].address@);
                assert(old(store).notes@.contains_key(old_slots[j].address@));
            }
        }
        assert forall|a: Seq<u8>| #[trigger] store.notes@.contains_key(a)
            implies exists|k: int| 0 <= k < store.slots@.len() && #[trigger] store.slots@[k].address@ == a by {
            assert(old(store).notes@.contains_key(a));
            let k = choose|k: int| 0 <= k < old_slots.len() && #[trigger] old_slots[k].address@ == a;
            assert(store.slots@[k].address@ == a);
        }
    }
    Ok(())
}

/// Removes the note at `ctx.note`, when the signer owns it; the note is then
/// gone for good. Nothing changes when it fails.
pub fn delete_note(store: &mut NoteStore, ctx: &DeleteNote) -> (r: Result<(), NotesError>)
    requires
        old(store).wf(),
    ensures
        final(store).wf(),
        final(store).program_key() == old(store).program_key(),
        (r, final(store)@) == delete_step(old(store)@, ctx.note@, ctx.author@),
{
    let i = match store.find(&ctx.note) {
        None => return Err(NotesError::NotFound),
        Some(i) => i,
    };
    match authorize(&store.slots[i].note.author, &ctx.author) {
        Err(e) => return Err(e),
        Ok(()) => {},
    }
    let ghost old_slots = store.slots@;
    store.notes = Ghost(store.notes@.remove(ctx.note@));
    let _removed = store.slots.remove(i);
    proof {
        assert forall|j: int| 0 <= j < store.slots@.len()
            implies #[trigger] store.slots@[j] == old_slots[if j < i { j } else { j + 1 }] by {}
        assert forall|a: Seq<u8>| #[trigger] store.notes@.contains_key(a)
            implies exists|k: int| 0 <= k < store.slots@.len() && #[trigger] store.slots@[k].address@ == a by {
            assert(old(store).notes@.contains_key(a));
            let k = choose|k: int| 0 <= k < old_slots.len() && #[trigger] old_slots[k].address@ == a;
            assert(k != i);
            let k2 = if k < i { k } else { k - 1 };
            assert(store.slots@[k2] == old_slots[k]);
        }
        assert forall|j: int| 0 <= j < store.slots@.len() implies {
            &&& #[trigger] store.notes@.contains_key(store.slots@[j].address@)
            &&& store.notes@[store.slots@[j].address@] == store.slots@[j].note@
        } by {
            let oj = if j < i { j } else { j + 1 };
            assert(store.slots@[j] == old_slots[oj]);
            assert(oj != i);
            assert(old_slots[oj].address@ != old_slots[i as int].address@);
            assert(old(store).notes@.contains_key(old_slots[oj].address@));
        }
    }
    Ok(())
}

} // verus!
