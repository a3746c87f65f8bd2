use vstd::prelude::*;

use crate::validation::{content_check, title_check, validate_content, validate_title};

verus! {

/// Largest title, in bytes. The title is one seed of the note's address, and a
/// seed holds at most 32 bytes, so storage and validation share this bound.
pub const TITLE_MAX: usize = 32;

/// Largest content, in bytes.
pub const CONTENT_MAX: usize = 1000;

/// Why an operation on a note was refused.
#[derive(Clone, Copy, Debug, PartialEq, Eq, Structural)]
pub enum NotesError {
    TitleTooLong,
    TitleEmpty,
    ContentTooLong,
    ContentEmpty,
    Unauthorized,
    NotFound,
    AlreadyExists,
    /// No bump seed gives an address off the curve for this owner and title.
    AddressUnavailable,
}

/// A stored note. `author` is the owner's 32-byte public key.
#[derive(Clone, Debug, PartialEq, Eq)]
pub struct Note {
    pub author: [u8; 32],
    pub title: String,
    pub content: String,
    pub created_at: i64,
    pub last_updated: i64,
}

/// What a note holds, as mathematical values.
pub struct NoteView {
    pub author: Seq<u8>,
    pub title: Seq<char>,
    pub content: Seq<char>,
    pub created_at: i64,
    pub last_updated: i64,
}

impl View for Note {
    type V = NoteView;

    open spec fn view(&self) -> NoteView {
        NoteView {
            author: self.author@,
            title: self.title@,
            content: self.content@,
            created_at: self.created_at,
            last_updated: self.last_updated,
        }
    }
}

/// Outcome of the ownership check: only the owner itself may act.
pub open spec fn authorize_check(owner: Seq<u8>, authority: Seq<u8>) -> Result<(), NotesError> {
    if owner == authority {
        Ok(())
    } else {
        Err(NotesError::Unauthorized)
    }
}

/// The note that a create writes: both timestamps at `now`.
pub open spec fn new_note(author: Seq<u8>, title: Seq<char>, content: Seq<char>, now: i64) -> NoteView {
    NoteView { author, title, content, created_at: now, last_updated: now }
}

/// `n` with its content replaced at `now`; owner, title and creation time stay.
pub open spec fn updated_note(n: NoteView, content: Seq<char>, now: i64) -> NoteView {
    NoteView { content, last_updated: now, ..n }
}

/// What checking and writing a new note gives: the title is checked first,
/// then the content.
pub open spec fn note_create_step(author: Seq<u8>, title: Seq<char>, content: Seq<char>, now: i64) -> Result<NoteView, NotesError> {
    match title_check(title) {
        Err(e) => Err(e),
        Ok(_) => match content_check(content) {
            Err(e) => Err(e),
            Ok(_) => Ok(new_note(author, title, content, now)),
        },
    }
}

/// What a content update of `n` signed by `authority` gives: the content is
/// checked first, then the owner; a refused update leaves `n` as it was.
pub open spec fn note_update_step(n: NoteView, authority: Seq<u8>, content: Seq<char>, now: i64) -> (Result<(), NotesError>, NoteView) {
    match content_check(content) {
        Err(e) => (Err(e), n),
        Ok(_) => match authorize_check(n.author, authority) {
            Err(e) => (Err(e), n),
            Ok(_) => (Ok(()), updated_note(n, content, now)),
        },
    }
}

impl Note {
    /// The note `(title, content)` of `author`, written at `now`, once both
    /// pass their checks.
    pub fn new_checked(author: [u8; 32], title: String, content: String, now: i64) -> (r: Result<Note, NotesError>)
        ensures
            match r {
                Ok(n) => note_create_step(author@, title@, content@, now) == Ok::<NoteView, NotesError>(n@),
                Err(e) => note_create_step(author@, title@, content@, now) == Err::<NoteView, NotesError>(e),
            },
    {
        match validate_title(title.as_str()) {
            Err(e) => return Err(e),
            Ok(()) => {},
        }
        match validate_content(content.as_str()) {
            Err(e) => return Err(e),
            Ok(()) => {},
        }
        Ok(Note { author, title, content, created_at: now, last_updated: now })
    }

    /// Replaces the content and stamps the note with `now`, when the content
    /// passes and `authority` is the owner. Nothing changes when it fails.
    pub fn apply_update(&mut self, authority: &[u8; 32], content: String, now: i64) -> (r: Result<(), NotesError>)
        ensures
            (r, final(self)@) == note_update_step(old(self)@, authority@, content@, now),
    {
        match validate_content(content.as_str()) {
            Err(e) => return Err(e),
            Ok(()) => {},
        }
        match authorize(&self.author, authority) {
            Err(e) => return Err(e),
            Ok(()) => {},
        }
        self.content = content;
        self.last_updated = now;
        Ok(())
    }
}

/// Compares two 32-byte keys.
pub fn same_key(a: &[u8; 32], b: &[u8; 32]) -> (r: bool)
    ensures
        r == (a@ == b@),
{
    let mut i: usize = 0;
    while i < 32
        invariant
            i <= 32,
            a@.len() == 32,
            b@.len() == 32,
            forall|j: int| 0 <= j < i ==> a@[j] == b@[j],
        decreases 32 - i,
    {
        if a[i] != b[i] {
            return false;
        }
        i = i + 1;
    }
    assert(a@ =~= b@);
    true
}

/// Lets `authority` act on a note owned by `owner` only when the two are the
/// same key: no delegation, no override.
pub fn authorize(owner: &[u8; 32], authority: &[u8; 32]) -> (r: Result<(), NotesError>)
    ensures
        r == authorize_check(owner@, authority@),
{
    if same_key(owner, authority) {
        Ok(())
    } else {
        Err(NotesError::Unauthorized)
    }
}

} // verus!
