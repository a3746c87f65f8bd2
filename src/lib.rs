//! Owner-scoped text notes, each stored at an address derived from its
//! owner's key and its title, with every mutation checked against the owner.

pub mod address;
pub mod laws;
pub mod note;
pub mod store;
pub mod validation;

pub use note::{authorize, Note, NotesError, CONTENT_MAX, TITLE_MAX};
pub use store::{create_note, delete_note, update_note, CreateNote, DeleteNote, NoteStore, UpdateNote};
pub use validation::{validate_content, validate_title};
