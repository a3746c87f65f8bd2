use vstd::prelude::*;
use vstd::utf8::encode_utf8;

use crate::address::{note_address, note_tag};
use crate::note::{new_note, NoteView, NotesError, CONTENT_MAX, TITLE_MAX};
use crate::store::{create_step, delete_step, read_step, update_step};
use crate::validation::{content_check, is_blank, title_check};

verus! {

/// The address is a function of the owner and the title: equal inputs give
/// equal addresses. Distinct inputs hand distinct seeds to the derivation,
/// so two notes can share an address only through a collision of the
/// underlying hash.
pub proof fn lemma_address_is_function_of_owner_and_title(
    program_id: Seq<u8>,
    owner1: Seq<u8>,
    title1: Seq<u8>,
    owner2: Seq<u8>,
    title2: Seq<u8>,
)
    ensures
        owner1 == owner2 && title1 == title2 ==> note_address(program_id, owner1, title1) == note_address(program_id, owner2, title2),
        owner1 != owner2 || title1 != title2 ==> seq![note_tag(), owner1, title1] != seq![note_tag(), owner2, title2],
{
    if owner1 != owner2 || title1 != title2 {
        let s1 = seq![note_tag(), owner1, title1];
        let s2 = seq![note_tag(), owner2, title2];
        assert(s1[1] == owner1 && s2[1] == owner2);
        assert(s1[2] == title1 && s2[2] == title2);
    }
}

/// A create that succeeds returns the address derived from the owner and the
/// title alone: content, time and the other notes do not enter it.
pub proof fn lemma_create_returns_derived_address(
    program_id: Seq<u8>,
    notes: Map<Seq<u8>, NoteView>,
    owner: Seq<u8>,
    title: Seq<char>,
    content: Seq<char>,
    now: i64,
)
    requires
        create_step(program_id, notes, owner, title, content, now).0 is Ok,
    ensures
        note_address(program_id, owner, encode_utf8(title)) is Some,
        create_step(program_id, notes, owner, title, content, now).0
            == Ok::<Seq<u8>, NotesError>(note_address(program_id, owner, encode_utf8(title))->Some_0),
{
}

/// Two valid creates whose derived addresses differ both succeed, one after
/// the other, and both notes are then live.
pub proof fn lemma_distinct_notes_coexist(
    program_id: Seq<u8>,
    notes: Map<Seq<u8>, NoteView>,
    owner1: Seq<u8>,
    title1: Seq<char>,
    content1: Seq<char>,
    now1: i64,
    owner2: Seq<u8>,
    title2: Seq<char>,
    content2: Seq<char>,
    now2: i64,
)
    requires
        create_step(program_id, notes, owner1, title1, content1, now1).0 is Ok,
        title_check(title2) is Ok,
        content_check(content2) is Ok,
        note_address(program_id, owner2, encode_utf8(title2)) is Some,
        !notes.contains_key(note_address(program_id, owner2, encode_utf8(title2))->Some_0),
        note_address(program_id, owner2, encode_utf8(title2)) != note_address(program_id, owner1, encode_utf8(title1)),
    ensures
        ({
            let a1 = note_address(program_id, owner1, encode_utf8(title1))->Some_0;
            let a2 = note_address(program_id, owner2, encode_utf8(title2))->Some_0;
            let after1 = create_step(program_id, notes, owner1, title1, content1, now1).1;
            let (r2, after2) = create_step(program_id, after1, owner2, title2, content2, now2);
            &&& r2 == Ok::<Seq<u8>, NotesError>(a2)
            &&& after2.contains_key(a1) && after2.contains_key(a2)
            &&& after2[a1] == new_note(owner1, title1, content1, now1)
            &&& after2[a2] == new_note(owner2, title2, content2, now2)
        }),
{
}

/// A title longer than `TITLE_MAX` bytes is too long whatever it holds; one
/// within the bound that is whitespace only is empty.
pub proof fn lemma_title_rejections(title: Seq<char>)
    ensures
        encode_utf8(title).len() > TITLE_MAX ==> title_check(title) == Err::<(), NotesError>(NotesError::TitleTooLong),
        encode_utf8(title).len() <= TITLE_MAX && is_blank(title) ==> title_check(title) == Err::<(), NotesError>(NotesError::TitleEmpty),
        title_check(title) is Ok <==> encode_utf8(title).len() <= TITLE_MAX && !is_blank(title),
{
}

/// Content of exactly `CONTENT_MAX` bytes is accepted unless blank; one
/// byte more is too long unless blank; whitespace only, of any length, is
/// empty.
pub proof fn lemma_content_boundary(content: Seq<char>)
    ensures
        encode_utf8(content).len() == CONTENT_MAX && !is_blank(content) ==> content_check(content) is Ok,
        encode_utf8(content).len() == CONTENT_MAX + 1 && !is_blank(content) ==> content_check(content) == Err::<(), NotesError>(NotesError::ContentTooLong),
        is_blank(content) ==> content_check(content) == Err::<(), NotesError>(NotesError::ContentEmpty),
{
}

/// A create with a valid title and content at a free address succeeds, and
/// reading that address right after gives the note as written, with both
/// timestamps at the time of creation.
pub proof fn lemma_create_then_read(
    program_id: Seq<u8>,
    notes: Map<Seq<u8>, NoteView>,
    owner: Seq<u8>,
    title: Seq<char>,
    content: Seq<char>,
    now: i64,
)
    requires
        title_check(title) is Ok,
        content_check(content) is Ok,
        note_address(program_id, owner, encode_utf8(title)) is Some,
        !notes.contains_key(note_address(program_id, owner, encode_utf8(title))->Some_0),
    ensures
        ({
            let a = note_address(program_id, owner, encode_utf8(title))->Some_0;
            let (r, after) = create_step(program_id, notes, owner, title, content, now);
            &&& r == Ok::<Seq<u8>, NotesError>(a)
            &&& read_step(after, a) == Ok::<NoteView, NotesError>(new_note(owner, title, content, now))
            &&& after[a].created_at == now && after[a].last_updated == now
        }),
{
}

/// Creating the same `(owner, title)` twice: when the first succeeds, the
/// second fails and leaves the notes as the first left them; with valid
/// content it fails with `AlreadyExists`.
pub proof fn lemma_create_twice(
    program_id: Seq<u8>,
    notes: Map<Seq<u8>, NoteView>,
    owner: Seq<u8>,
    title: Seq<char>,
    content1: Seq<char>,
    now1: i64,
    content2: Seq<char>,
    now2: i64,
)
    requires
        create_step(program_id, notes, owner, title, content1, now1).0 is Ok,
    ensures
        ({
            let after1 = create_step(program_id, notes, owner, title, content1, now1).1;
            let (r2, after2) = create_step(program_id, after1, owner, title, content2, now2);
            &&& r2 is Err
            &&& after2 == after1
            &&& content_check(content2) is Ok ==> r2 == Err::<Seq<u8>, NotesError>(NotesError::AlreadyExists)
        }),
{
}

/// An update with valid content signed by anyone but the owner fails with
/// `Unauthorized` and changes nothing.
pub proof fn lemma_update_by_other_is_refused(
    notes: Map<Seq<u8>, NoteView>,
    address: Seq<u8>,
    other: Seq<u8>,
    content: Seq<char>,
    now: i64,
)
    requires
        notes.contains_key(address),
        notes[address].author != other,
        content_check(content) is Ok,
    ensures
        update_step(notes, address, other, content, now) == (Err::<(), NotesError>(NotesError::Unauthorized), notes),
{
}

/// A successful update changes only the content and the time of the last
/// update: owner, title and creation time stay, and so does the order of the
/// two timestamps when the clock has not gone back.
pub proof fn lemma_update_keeps_the_rest(
    notes: Map<Seq<u8>, NoteView>,
    address: Seq<u8>,
    authority: Seq<u8>,
    content: Seq<char>,
    now: i64,
)
    requires
        update_step(notes, address, authority, content, now).0 is Ok,
    ensures
        ({
            let after = update_step(notes, address, authority, content, now).1;
            &&& after.dom() == notes.dom()
            &&& after[address].author == notes[address].author
            &&& notes[address].author == authority
            &&& after[address].title == notes[address].title
            &&& after[address].created_at == notes[address].created_at
            &&& after[address].content == content
            &&& after[address].last_updated == now
            &&& notes[address].created_at <= notes[address].last_updated <= now
                ==> after[address].created_at <= after[address].last_updated
            &&& forall|a: Seq<u8>| #[trigger] notes.contains_key(a) && a != address ==> after[a] == notes[a]
        }),
{
    let after = update_step(notes, address, authority, content, now).1;
    assert(after.dom() =~= notes.dom());
}

/// Once a note is deleted, every later update, delete or read of its address
/// fails with `NotFound`.
pub proof fn lemma_delete_is_final(
    notes: Map<Seq<u8>, NoteView>,
    address: Seq<u8>,
    owner: Seq<u8>,
    authority: Seq<u8>,
    content: Seq<char>,
    now: i64,
)
    requires
        delete_step(notes, address, owner).0 is Ok,
    ensures
        ({
            let after = delete_step(notes, address, owner).1;
            &&& update_step(after, address, authority, content, now).0 == Err::<(), NotesError>(NotesError::NotFound)
            &&& delete_step(after, address, authority).0 == Err::<(), NotesError>(NotesError::NotFound)
            &&& read_step(after, address) == Err::<NoteView, NotesError>(NotesError::NotFound)
        }),
{
}

} // verus!
