//! The run as a whole: from the texts of the listed files to the request,
//! and from the answer to the text that is put out.
//!
//! The caller does the reading, the sending and the printing. Every failure
//! ends the run: no file is skipped and no partial prompt is sent.

use crate::client::{after_body, Body, BodyDue, GenerationRequest, GenerationRequestView};
use crate::error::{Error, ErrorView};
use crate::note::{parse_document, Note, NoteView};
use crate::prompt::{bodies_of, construct_prompt, prompt_text};
use vstd::prelude::*;

verus! {

/// What becomes of one listed file: its note, or the failure that ends the
/// run. A file is given as its text, or as the cause for which it could not
/// be read.
pub open spec fn load_one(file: Result<String, String>) -> Result<NoteView, ErrorView> {
    match file {
        Err(cause) => Err(ErrorView::FileReadError(cause@)),
        Ok(text) => match parse_document(text@) {
            Some(note) => Ok(note),
            None => Err(ErrorView::MalformedDocument),
        },
    }
}

/// What becomes of the listed files: their notes in the order of the
/// listing, or the failure of the first file that has one.
pub open spec fn load_all(files: Seq<Result<String, String>>) -> Result<Seq<NoteView>, ErrorView>
    decreases files.len(),
{
    if files.len() == 0 {
        Ok(Seq::empty())
    } else {
        match load_all(files.drop_last()) {
            Err(failure) => Err(failure),
            Ok(notes) => match load_one(files.last()) {
                Err(failure) => Err(failure),
                Ok(note) => Ok(notes.push(note)),
            },
        }
    }
}

/// The values of the given notes, in order.
pub open spec fn views(notes: Seq<Note>) -> Seq<NoteView> {
    notes.map_values(|note: Note| note@)
}

/// The bodies of the given notes, in order.
pub open spec fn contents(notes: Seq<NoteView>) -> Seq<Seq<char>> {
    notes.map_values(|note: NoteView| note.content)
}

/// Once a file has failed, the files after it change nothing.
pub proof fn lemma_failure_is_final(files: Seq<Result<String, String>>, n: int)
    requires
        0 <= n <= files.len(),
        load_all(files.take(n)) is Err,
    ensures
        load_all(files) == load_all(files.take(n)),
    decreases files.len() - n,
{
    if n == files.len() {
        assert(files.take(n) =~= files);
    } else {
        assert(files.drop_last().take(n) =~= files.take(n));
        lemma_failure_is_final(files.drop_last(), n);
    }
}

/// The first file that fails decides the run: where every file before
/// `files[i]` gives a note and `files[i]` does not, the run ends with the
/// failure of `files[i]`.
pub proof fn lemma_first_failure_decides(files: Seq<Result<String, String>>, i: int)
    requires
        0 <= i < files.len(),
        forall|k: int| 0 <= k < i ==> (#[trigger] load_one(files[k])) is Ok,
        load_one(files[i]) is Err,
    ensures
        load_all(files) == Err::<Seq<NoteView>, ErrorView>(load_one(files[i])->Err_0),
{
    let before = files.take(i);
    assert forall|k: int| 0 <= k < before.len() implies (#[trigger] load_one(before[k])) is Ok by {
        assert(before[k] == files[k]);
    }
    lemma_every_note_loads(before);
    let upto = files.take(i + 1);
    assert(upto.drop_last() =~= before);
    lemma_failure_is_final(files, i + 1);
}

/// Where every file gives a note, the run has all of them, in the order of
/// the listing.
pub proof fn lemma_every_note_loads(files: Seq<Result<String, String>>)
    requires
        forall|k: int| 0 <= k < files.len() ==> (#[trigger] load_one(files[k])) is Ok,
    ensures
        load_all(files) == Ok::<Seq<NoteView>, ErrorView>(
            Seq::new(files.len(), |k: int| load_one(files[k])->Ok_0),
        ),
    decreases files.len(),
{
    let all = Seq::new(files.len(), |k: int| load_one(files[k])->Ok_0);
    if files.len() == 0 {
        assert(all =~= Seq::<NoteView>::empty());
    } else {
        let rest = files.drop_last();
        assert forall|k: int| 0 <= k < rest.len() implies (#[trigger] load_one(rest[k])) is Ok by {
            assert(rest[k] == files[k]);
        }
        lemma_every_note_loads(rest);
        assert(load_one(files[files.len() - 1]) is Ok);
        let loaded = Seq::new(rest.len(), |k: int| load_one(rest[k])->Ok_0);
        assert(loaded.push(load_one(files.last())->Ok_0) =~= all);
    }
}

/// Parses the listed files in order and stops at the first that fails: one
/// that could not be read is a `FileReadError` with its cause, one that is
/// malformed a `MalformedDocument`.
pub fn load_notes(files: Vec<Result<String, String>>) -> (r: Result<Vec<Note>, Error>)
    ensures
        match load_all(files@) {
            Ok(loaded) => r matches Ok(notes) && views(notes@) == loaded,
            Err(failure) => r matches Err(e) && e@ == failure,
        },
{
    let mut notes: Vec<Note> = Vec::new();
    let mut i: usize = 0;
    proof {
        assert(views(notes@) =~= Seq::<NoteView>::empty());
    }
    while i < files.len()
        invariant
            i <= files.len(),
            load_all(files@.take(i as int)) == Ok::<Seq<NoteView>, ErrorView>(views(notes@)),
        decreases files.len() - i,
    {
        let ghost before = views(notes@);
        proof {
            let seen = files@.take(i + 1);
            assert(seen.drop_last() =~= files@.take(i as int));
        }
        match &files[i] {
            Err(cause) => {
                proof {
                    lemma_failure_is_final(files@, i + 1);
                }
                return Err(Error::FileReadError(cause.clone()));
            },
            Ok(text) => match Note::from_string(text.as_str()) {
                Err(failure) => {
                    proof {
                        lemma_failure_is_final(files@, i + 1);
                    }
                    return Err(failure);
                },
                Ok(note) => {
                    notes.push(note);
                    proof {
                        assert(views(notes@) =~= before.push(note@));
                    }
                },
            },
        }
        i += 1;
    }
    proof {
        assert(files@.take(i as int) =~= files@);
    }
    Ok(notes)
}

/// The first half of a run: parses the listed files and, where all of them
/// give a note, builds the one request of the run. Where a file fails, no
/// request comes to be.
pub fn prepare(endpoint: String, model: String, files: Vec<Result<String, String>>) -> (r: Result<
    GenerationRequest,
    Error,
>)
    ensures
        match load_all(files@) {
            Ok(loaded) => r matches Ok(request) && request@ == (GenerationRequestView {
                endpoint: endpoint@,
                model: model@,
                prompt: prompt_text(contents(loaded)),
                stream: false,
            }),
            Err(failure) => r matches Err(e) && e@ == failure,
        },
{
    match load_notes(files) {
        Err(failure) => Err(failure),
        Ok(notes) => {
            proof {
                assert(bodies_of(notes@) =~= contents(views(notes@)));
            }
            let prompt = construct_prompt(notes);
            Ok(GenerationRequest::new(endpoint, model, prompt))
        },
    }
}

/// The second half of a run: judges the body of a successful answer and
/// gives the text to put out, which is the generated text and nothing else.
pub fn conclude(due: BodyDue, body: Body) -> (r: Result<String, Error>)
    ensures
        match body {
            Body::Decoded(response) => r == Ok::<String, Error>(response.response),
            Body::Undecodable(cause) => r matches Err(e) && e@ == ErrorView::ResponseDecodeError(
                cause@,
            ),
            Body::Interrupted(cause) => r matches Err(e) && e@ == ErrorView::TransportError(
                cause@,
            ),
        },
{
    match after_body(due, body) {
        Ok(response) => Ok(response.response),
        Err(failure) => Err(failure),
    }
}

} // verus!
