use anchor_lang::prelude::Pubkey;
use notes_dapp::{
    authorize, create_note, delete_note, update_note, validate_content, validate_title,
    CreateNote, DeleteNote, Note, NoteStore, NotesError, UpdateNote, CONTENT_MAX, TITLE_MAX,
};

const PROGRAM: [u8; 32] = [7u8; 32];
const A: [u8; 32] = [1u8; 32];
const B: [u8; 32] = [2u8; 32];

fn create(store: &mut NoteStore, owner: [u8; 32], title: &str, content: &str, now: i64) -> Result<[u8; 32], NotesError> {
    create_note(store, &CreateNote { author: owner }, title.to_string(), content.to_string(), now)
}

fn update(store: &mut NoteStore, address: [u8; 32], author: [u8; 32], content: &str, now: i64) -> Result<(), NotesError> {
    update_note(store, &UpdateNote { note: address, author }, content.to_string(), now)
}

fn delete(store: &mut NoteStore, address: [u8; 32], author: [u8; 32]) -> Result<(), NotesError> {
    delete_note(store, &DeleteNote { note: address, author })
}

#[test]
fn derive_is_deterministic() {
    assert_eq!(notes_dapp::address::derive(&PROGRAM, &A, "Groceries"), notes_dapp::address::derive(&PROGRAM, &A, "Groceries"));
    assert!(notes_dapp::address::derive(&PROGRAM, &A, "Groceries").is_some());
}

#[test]
fn derive_matches_program_derived_address() {
    let expected = Pubkey::find_program_address(&[b"note", A.as_slice(), b"Groceries"], &Pubkey::new_from_array(PROGRAM)).0;
    assert_eq!(notes_dapp::address::derive(&PROGRAM, &A, "Groceries"), Some(expected.to_bytes()));
}

#[test]
fn derive_has_no_collisions_on_a_sample() {
    let owners = [A, B, [0u8; 32], [255u8; 32]];
    let titles = ["a", "b", "ab", "ba", "Groceries", "groceries", "Groceries ", "x".repeat(TITLE_MAX).leak()];
    let mut seen: Vec<[u8; 32]> = Vec::new();
    for owner in owners.iter() {
        for title in titles.iter() {
            let address = notes_dapp::address::derive(&PROGRAM, owner, title).unwrap();
            assert!(!seen.contains(&address));
            seen.push(address);
        }
    }
    assert_eq!(seen.len(), owners.len() * titles.len());
}

#[test]
fn derive_depends_on_the_program() {
    assert_ne!(notes_dapp::address::derive(&PROGRAM, &A, "T"), notes_dapp::address::derive(&[8u8; 32], &A, "T"));
}

#[test]
fn title_rules() {
    assert_eq!(validate_title("T"), Ok(()));
    assert_eq!(validate_title(""), Err(NotesError::TitleEmpty));
    assert_eq!(validate_title("   "), Err(NotesError::TitleEmpty));
    assert_eq!(validate_title(" \t\n\u{3000}"), Err(NotesError::TitleEmpty));
    assert_eq!(validate_title("  x  "), Ok(()));
    assert_eq!(validate_title(&"x".repeat(TITLE_MAX)), Ok(()));
    assert_eq!(validate_title(&"x".repeat(TITLE_MAX + 1)), Err(NotesError::TitleTooLong));
    assert_eq!(validate_title(&" ".repeat(TITLE_MAX + 1)), Err(NotesError::TitleTooLong));
}

#[test]
fn title_length_counts_bytes() {
    assert_eq!(validate_title(&"é".repeat(TITLE_MAX / 2)), Ok(()));
    assert_eq!(validate_title(&"é".repeat(TITLE_MAX / 2 + 1)), Err(NotesError::TitleTooLong));
}

#[test]
fn content_boundary() {
    assert_eq!(validate_content(&"c".repeat(CONTENT_MAX)), Ok(()));
    assert_eq!(validate_content(&"c".repeat(CONTENT_MAX + 1)), Err(NotesError::ContentTooLong));
    assert_eq!(validate_content(" "), Err(NotesError::ContentEmpty));
    assert_eq!(validate_content(&" ".repeat(CONTENT_MAX)), Err(NotesError::ContentEmpty));
    assert_eq!(validate_content("\r\n\t"), Err(NotesError::ContentEmpty));
    assert_eq!(validate_content(""), Err(NotesError::ContentEmpty));
    assert_eq!(validate_content(&" ".repeat(CONTENT_MAX + 1)), Err(NotesError::ContentEmpty));
    assert_eq!(validate_content(&"\u{3000}".repeat(CONTENT_MAX)), Err(NotesError::ContentEmpty));
}

#[test]
fn content_boundary_through_create() {
    let mut store = NoteStore::new(PROGRAM);
    assert!(create(&mut store, A, "big", &"c".repeat(CONTENT_MAX), 1).is_ok());
    assert_eq!(create(&mut store, A, "bigger", &"c".repeat(CONTENT_MAX + 1), 1), Err(NotesError::ContentTooLong));
    assert_eq!(create(&mut store, A, "blank", "    ", 1), Err(NotesError::ContentEmpty));
}

#[test]
fn authorize_only_owner() {
    assert_eq!(authorize(&A, &A), Ok(()));
    assert_eq!(authorize(&A, &B), Err(NotesError::Unauthorized));
    let mut near = A;
    near[31] = 0;
    assert_eq!(authorize(&A, &near), Err(NotesError::Unauthorized));
}

#[test]
fn create_then_read() {
    let mut store = NoteStore::new(PROGRAM);
    let address = create(&mut store, A, "T", "C", 42).unwrap();
    assert_eq!(Some(address), notes_dapp::address::derive(&PROGRAM, &A, "T"));
    let note = store.read(&address).unwrap();
    assert_eq!(note.author, A);
    assert_eq!(note.title, "T");
    assert_eq!(note.content, "C");
    assert_eq!(note.created_at, 42);
    assert_eq!(note.last_updated, 42);
}

#[test]
fn create_checks_title_before_content() {
    let mut store = NoteStore::new(PROGRAM);
    assert_eq!(create(&mut store, A, " ", " ", 1), Err(NotesError::TitleEmpty));
    assert_eq!(create(&mut store, A, &"t".repeat(TITLE_MAX + 1), "", 1), Err(NotesError::TitleTooLong));
    assert_eq!(create(&mut store, A, "ok", "", 1), Err(NotesError::ContentEmpty));
    assert_eq!(store.read(&notes_dapp::address::derive(&PROGRAM, &A, "ok").unwrap()), Err(NotesError::NotFound));
}

#[test]
fn create_twice_is_refused() {
    let mut store = NoteStore::new(PROGRAM);
    let address = create(&mut store, A, "T", "first", 1).unwrap();
    let before = store.read(&address).unwrap().clone();
    assert_eq!(create(&mut store, A, "T", "second", 2), Err(NotesError::AlreadyExists));
    assert_eq!(store.read(&address).unwrap(), &before);
}

#[test]
fn same_title_other_owner_is_another_note() {
    let mut store = NoteStore::new(PROGRAM);
    let a = create(&mut store, A, "T", "from a", 1).unwrap();
    let b = create(&mut store, B, "T", "from b", 2).unwrap();
    assert_ne!(a, b);
    assert_eq!(store.read(&a).unwrap().content, "from a");
    assert_eq!(store.read(&b).unwrap().content, "from b");
}

#[test]
fn update_by_other_is_refused() {
    let mut store = NoteStore::new(PROGRAM);
    let address = create(&mut store, A, "T", "C", 10).unwrap();
    assert_eq!(update(&mut store, address, B, "new", 20), Err(NotesError::Unauthorized));
    let note = store.read(&address).unwrap();
    assert_eq!(note.content, "C");
    assert_eq!(note.last_updated, 10);
}

#[test]
fn update_checks_content_before_owner() {
    let mut store = NoteStore::new(PROGRAM);
    let address = create(&mut store, A, "T", "C", 10).unwrap();
    assert_eq!(update(&mut store, address, B, "  ", 20), Err(NotesError::ContentEmpty));
    assert_eq!(update(&mut store, address, A, &"c".repeat(CONTENT_MAX + 1), 20), Err(NotesError::ContentTooLong));
    assert_eq!(store.read(&address).unwrap().content, "C");
}

#[test]
fn update_of_missing_note() {
    let mut store = NoteStore::new(PROGRAM);
    assert_eq!(update(&mut store, [9u8; 32], A, "new", 1), Err(NotesError::NotFound));
}

#[test]
fn delete_by_other_is_refused() {
    let mut store = NoteStore::new(PROGRAM);
    let address = create(&mut store, A, "T", "C", 10).unwrap();
    assert_eq!(delete(&mut store, address, B), Err(NotesError::Unauthorized));
    assert_eq!(store.read(&address).unwrap().content, "C");
}

#[test]
fn delete_is_final() {
    let mut store = NoteStore::new(PROGRAM);
    let keep = create(&mut store, A, "keep", "K", 1).unwrap();
    let address = create(&mut store, A, "T", "C", 10).unwrap();
    assert_eq!(delete(&mut store, address, A), Ok(()));
    assert_eq!(update(&mut store, address, A, "again", 11), Err(NotesError::NotFound));
    assert_eq!(delete(&mut store, address, A), Err(NotesError::NotFound));
    assert_eq!(store.read(&address), Err(NotesError::NotFound));
    assert_eq!(store.read(&keep).unwrap().content, "K");
}

#[test]
fn delete_frees_the_address() {
    let mut store = NoteStore::new(PROGRAM);
    let address = create(&mut store, A, "T", "C", 10).unwrap();
    assert_eq!(delete(&mut store, address, A), Ok(()));
    assert_eq!(create(&mut store, A, "T", "again", 30), Ok(address));
    assert_eq!(store.read(&address).unwrap().created_at, 30);
}

#[test]
fn groceries_scenario() {
    let mut store = NoteStore::new(PROGRAM);
    let address = create(&mut store, A, "Groceries", "Milk, eggs", 100).unwrap();
    let note = store.read(&address).unwrap();
    assert_eq!(note.created_at, 100);
    assert_eq!(note.last_updated, 100);

    assert_eq!(update(&mut store, address, A, "Milk, eggs, bread", 150), Ok(()));
    let note = store.read(&address).unwrap();
    assert_eq!(note.last_updated, 150);
    assert_eq!(note.created_at, 100);
    assert_eq!(note.title, "Groceries");
    assert_eq!(note.content, "Milk, eggs, bread");

    assert_eq!(update(&mut store, address, B, "Beer", 160), Err(NotesError::Unauthorized));
    assert_eq!(store.read(&address).unwrap().content, "Milk, eggs, bread");

    assert_eq!(delete(&mut store, address, A), Ok(()));
    assert_eq!(store.read(&address), Err(NotesError::NotFound));
}

#[test]
fn program_id_is_kept() {
    assert_eq!(NoteStore::new(PROGRAM).program_id(), PROGRAM);
}

#[test]
fn blank_content_is_empty_at_any_length() {
    let mut store = NoteStore::new(PROGRAM);
    let address = create(&mut store, A, "T", "C", 10).unwrap();
    assert_eq!(update(&mut store, address, A, &" ".repeat(CONTENT_MAX + 1), 20), Err(NotesError::ContentEmpty));
    assert_eq!(create(&mut store, A, "U", &"\n".repeat(2 * CONTENT_MAX), 20), Err(NotesError::ContentEmpty));
    let note = store.read(&address).unwrap();
    assert_eq!(note.content, "C");
    assert_eq!(note.last_updated, 10);
}

#[test]
fn new_checked_writes_both_timestamps() {
    let note = Note::new_checked(A, "T".to_string(), "C".to_string(), 7).unwrap();
    assert_eq!(note.author, A);
    assert_eq!(note.title, "T");
    assert_eq!(note.content, "C");
    assert_eq!(note.created_at, 7);
    assert_eq!(note.last_updated, 7);
    assert_eq!(Note::new_checked(A, " ".to_string(), "C".to_string(), 7), Err(NotesError::TitleEmpty));
    assert_eq!(Note::new_checked(A, "T".to_string(), "\t".to_string(), 7), Err(NotesError::ContentEmpty));
}

#[test]
fn apply_update_checks_content_then_owner() {
    let mut note = Note::new_checked(A, "T".to_string(), "C".to_string(), 7).unwrap();
    assert_eq!(note.apply_update(&B, "  ".to_string(), 8), Err(NotesError::ContentEmpty));
    assert_eq!(note.apply_update(&B, "new".to_string(), 8), Err(NotesError::Unauthorized));
    assert_eq!(note.content, "C");
    assert_eq!(note.last_updated, 7);
    assert_eq!(note.apply_update(&A, "new".to_string(), 9), Ok(()));
    assert_eq!(note.content, "new");
    assert_eq!(note.title, "T");
    assert_eq!(note.created_at, 7);
    assert_eq!(note.last_updated, 9);
}
