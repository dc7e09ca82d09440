//! Picks the note files out of a directory listing.

use crate::text::{chars_of, ends_with, occurs_at_index, texts};
use vstd::prelude::*;

verus! {

/// The ending by which the name of a note file is known.
pub const NOTE_EXTENSION: &'static str = ".md";

/// `path` names a note file: it ends with the note extension.
pub open spec fn is_note_path(path: Seq<char>) -> bool {
    ends_with(path, NOTE_EXTENSION@)
}

/// Whether `path` names a note file.
pub fn is_note_file(path: &str) -> (b: bool)
    ensures
        b == is_note_path(path@),
{
    let chars = chars_of(path);
    let extension = chars_of(NOTE_EXTENSION);
    if chars.len() < extension.len() {
        return false;
    }
    occurs_at_index(&chars, &extension, chars.len() - extension.len())
}

/// The paths of the listing that name note files, in the order of the
/// listing. The listing is not sorted.
pub fn select_note_files(paths: Vec<String>) -> (kept: Vec<String>)
    ensures
        texts(kept@) == texts(paths@).filter(|path: Seq<char>| is_note_path(path)),
{
    let ghost wanted = |path: Seq<char>| is_note_path(path);
    let mut kept: Vec<String> = Vec::new();
    let mut i: usize = 0;
    proof {
        reveal(Seq::filter);
    }
    while i < paths.len()
        invariant
            i <= paths.len(),
            wanted == |path: Seq<char>| is_note_path(path),
            texts(kept@) == texts(paths@).take(i as int).filter(wanted),
        decreases paths.len() - i,
    {
        let ghost before = texts(kept@);
        proof {
            reveal(Seq::filter);
            let seen = texts(paths@).take(i + 1);
            assert(seen.drop_last() =~= texts(paths@).take(i as int));
        }
        if is_note_file(paths[i].as_str()) {
            kept.push(paths[i].clone());
            proof {
                assert(texts(kept@) =~= before.push(paths@[i as int]@));
            }
        }
        i += 1;
    }
    proof {
        assert(texts(paths@).take(i as int) =~= texts(paths@));
    }
    kept
}

} // verus!
