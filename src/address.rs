use anchor_lang::prelude::Pubkey;
use vstd::prelude::*;
use vstd::utf8::encode_utf8;

verus! {

/// What `Pubkey::try_find_program_address` returns for `seeds` under the
/// program `program_id`: the derived address and its bump seed, or nothing.
pub uninterp spec fn program_address_of(seeds: Seq<Seq<u8>>, program_id: Seq<u8>) -> Option<(Seq<u8>, u8)>;

/// The domain-separation tag that opens every note's seeds: the bytes of "note".
pub open spec fn note_tag() -> Seq<u8> {
    seq![110u8, 111u8, 116u8, 101u8]
}

/// The address of the note titled `title` (its UTF-8 bytes) of `owner`,
/// under the program `program_id`.
pub open spec fn note_address(program_id: Seq<u8>, owner: Seq<u8>, title: Seq<u8>) -> Option<Seq<u8>> {
    match program_address_of(seq![note_tag(), owner, title], program_id) {
        Some(found) => Some(found.0),
        None => None,
    }
}

/// An optional key, as a sequence of bytes.
pub open spec fn key_view(k: Option<[u8; 32]>) -> Option<Seq<u8>> {
    match k {
        Some(a) => Some(a@),
        None => None,
    }
}

/// Relies on solana_program's `Pubkey::try_find_program_address`: the
/// program-derived address of the seeds `[tag, owner, title]` under
/// `program_id`, with its bump, which depends on those bytes alone.
#[verifier::external_body]
fn try_find_program_address(tag: &[u8; 4], owner: &[u8; 32], title: &[u8], program_id: &[u8; 32]) -> (r: Option<([u8; 32], u8)>)
    ensures
        match r {
            Some(found) => program_address_of(seq![tag@, owner@, title@], program_id@) == Some((found.0@, found.1)),
            None => program_address_of(seq![tag@, owner@, title@], program_id@) is None,
        },
{
    let program = Pubkey::new_from_array(*program_id);
    let seeds: [&[u8]; 3] = [tag.as_slice(), owner.as_slice(), title];
    Pubkey::try_find_program_address(&seeds, &program).map(|(key, bump)| (key.to_bytes(), bump))
}

/// The address of `owner`'s note titled `title` under the program
/// `program_id`. The same inputs always give the same address.
pub fn derive(program_id: &[u8; 32], owner: &[u8; 32], title: &str) -> (r: Option<[u8; 32]>)
    ensures
        key_view(r) == note_address(program_id@, owner@, encode_utf8(title@)),
{
    let tag: [u8; 4] = [110, 111, 116, 101];
    assert(tag@ =~= note_tag());
    match try_find_program_address(&tag, owner, title.as_bytes(), program_id) {
        Some(found) => Some(found.0),
        None => None,
    }
}

} // verus!
