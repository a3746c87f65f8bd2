use vstd::prelude::*;
use vstd::utf8::encode_utf8;

use crate::note::{NotesError, CONTENT_MAX, TITLE_MAX};

verus! {

/// Unicode's `White_Space` property, which `char::is_whitespace` follows.
pub open spec fn is_white_space(c: char) -> bool {
    let u = c as u32;
    ||| u == 0x20
    ||| 0x09 <= u <= 0x0d
    ||| u == 0x85
    ||| u == 0xa0
    ||| u == 0x1680
    ||| 0x2000 <= u <= 0x200a
    ||| u == 0x2028
    ||| u == 0x2029
    ||| u == 0x202f
    ||| u == 0x205f
    ||| u == 0x3000
}

/// `s` holds whitespace only (or nothing): it is empty once trimmed.
pub open spec fn is_blank(s: Seq<char>) -> bool {
    forall|i: int| 0 <= i < s.len() ==> is_white_space(#[trigger] s[i])
}

/// `s[lo..hi]` is what is left of `s` once leading and trailing whitespace
/// are cut off.
pub open spec fn trim_bounds(s: Seq<char>, lo: int, hi: int) -> bool {
    &&& 0 <= lo <= hi <= s.len()
    &&& forall|i: int| 0 <= i < lo ==> is_white_space(#[trigger] s[i])
    &&& forall|i: int| hi <= i < s.len() ==> is_white_space(#[trigger] s[i])
    &&& lo < hi ==> !is_white_space(s[lo]) && !is_white_space(s[hi - 1])
}

/// `r` is `s` with leading and trailing whitespace removed.
pub open spec fn is_trim_of(r: Seq<char>, s: Seq<char>) -> bool {
    exists|lo: int, hi: int| #[trigger] trim_bounds(s, lo, hi) && r == s.subrange(lo, hi)
}

/// Relies on `str::trim`: the slice of `s` without its leading and trailing
/// whitespace, whitespace as `char::is_whitespace` defines it.
#[verifier::external_body]
fn trim_str(s: &str) -> (r: &str)
    ensures
        is_trim_of(r@, s@),
{
    s.trim()
}

proof fn lemma_trim_empty_iff_blank(r: Seq<char>, s: Seq<char>)
    requires
        is_trim_of(r, s),
    ensures
        r.len() == 0 <==> is_blank(s),
{
    let (lo, hi) = choose|lo: int, hi: int| #[trigger] trim_bounds(s, lo, hi) && r == s.subrange(lo, hi);
    if r.len() == 0 {
        assert forall|i: int| 0 <= i < s.len() implies is_white_space(#[trigger] s[i]) by {
            if i >= lo {
                assert(hi <= i);
            }
        }
    }
    if is_blank(s) && lo < hi {
        assert(is_white_space(s[lo]));
    }
}

/// Outcome of the title check: too long (in bytes, untrimmed) comes first,
/// then blank.
pub open spec fn title_check(title: Seq<char>) -> Result<(), NotesError> {
    if encode_utf8(title).len() > TITLE_MAX {
        Err(NotesError::TitleTooLong)
    } else if is_blank(title) {
        Err(NotesError::TitleEmpty)
    } else {
        Ok(())
    }
}

/// Outcome of the content check: blank content is empty at any length; other
/// content is too long past `CONTENT_MAX` bytes (untrimmed).
pub open spec fn content_check(content: Seq<char>) -> Result<(), NotesError> {
    if is_blank(content) {
        Err(NotesError::ContentEmpty)
    } else if encode_utf8(content).len() > CONTENT_MAX {
        Err(NotesError::ContentTooLong)
    } else {
        Ok(())
    }
}

/// Checks a title: at most `TITLE_MAX` bytes and not whitespace only.
pub fn validate_title(title: &str) -> (r: Result<(), NotesError>)
    ensures
        r == title_check(title@),
{
    if title.as_bytes().len() > TITLE_MAX {
        return Err(NotesError::TitleTooLong);
    }
    let trimmed = trim_str(title);
    proof {
        lemma_trim_empty_iff_blank(trimmed@, title@);
    }
    if trimmed.is_empty() {
        return Err(NotesError::TitleEmpty);
    }
    Ok(())
}

/// Checks a content: not whitespace only (at any length), then at most
/// `CONTENT_MAX` bytes.
pub fn validate_content(content: &str) -> (r: Result<(), NotesError>)
    ensures
        r == content_check(content@),
{
    let trimmed = trim_str(content);
    proof {
        lemma_trim_empty_iff_blank(trimmed@, content@);
    }
    if trimmed.is_empty() {
        return Err(NotesError::ContentEmpty);
    }
    if content.as_bytes().len() > CONTENT_MAX {
        return Err(NotesError::ContentTooLong);
    }
    Ok(())
}

} // verus!
