//! A note and the parser that splits a raw document into metadata and body.

use crate::error::{Error, ErrorView};
use crate::text::{
    absent_from, all_white_space, chars_of, find_from, first_occurrence,
    lemma_trim_ignores_padding, occurs_at, occurs_at_index, trim, trim_range,
};
use vstd::prelude::*;

verus! {

/// The marker that opens and closes the metadata block of a document.
pub const MARKER: &'static str = "---";

/// The marker as a sequence of characters.
pub open spec fn marker() -> Seq<char> {
    MARKER@
}

/// One parsed document. Built once from the raw text of a file and not
/// changed afterwards.
#[derive(Debug, Clone, PartialEq, Eq)]
pub struct Note {
    /// The metadata block, empty where the document has none.
    pub frontmatter: String,
    /// The body of the document.
    pub content: String,
}

/// The mathematical value of a [`Note`].
pub struct NoteView {
    pub frontmatter: Seq<char>,
    pub content: Seq<char>,
}

impl View for Note {
    type V = NoteView;

    open spec fn view(&self) -> NoteView {
        NoteView { frontmatter: self.frontmatter@, content: self.content@ }
    }
}

/// `text` opens with the marker.
pub open spec fn has_frontmatter(text: Seq<char>) -> bool {
    occurs_at(text, marker(), 0)
}

/// `j` is where the marker that closes the metadata block of `text` stands:
/// the first marker that begins after the opening one has ended.
pub open spec fn closes_at(text: Seq<char>, j: int) -> bool {
    first_occurrence(text, marker(), marker().len() as int, j)
}

/// What a raw document parses to; `None` where it is malformed.
///
/// A text that does not open with the marker is a body and nothing else, kept
/// as it is. One that does is cut at the closing marker: what stands between
/// the two markers is the metadata, what follows the closing marker is the
/// body, each trimmed. Without a closing marker the document is malformed.
pub open spec fn parse_document(text: Seq<char>) -> Option<NoteView> {
    if !has_frontmatter(text) {
        Some(NoteView { frontmatter: Seq::empty(), content: text })
    } else if exists|j: int| closes_at(text, j) {
        let j = choose|j: int| closes_at(text, j);
        Some(
            NoteView {
                frontmatter: trim(text.subrange(marker().len() as int, j)),
                content: trim(text.subrange(j + marker().len(), text.len() as int)),
            },
        )
    } else {
        None
    }
}

/// At most one position closes the metadata block.
pub proof fn lemma_closing_marker_unique(text: Seq<char>, j: int, k: int)
    requires
        closes_at(text, j),
        closes_at(text, k),
    ensures
        j == k,
{
}

/// A document that does not open with the marker has no metadata, and its
/// body is the text itself: nothing is trimmed.
pub proof fn lemma_plain_document(text: Seq<char>)
    requires
        !has_frontmatter(text),
    ensures
        parse_document(text) == Some(NoteView { frontmatter: Seq::empty(), content: text }),
{
}

/// A document that opens with the marker and has its closing marker at `j`
/// parses to what stands between the two markers as metadata and to what
/// follows the closing marker as body, each trimmed.
pub proof fn lemma_well_formed_document(text: Seq<char>, j: int)
    requires
        has_frontmatter(text),
        closes_at(text, j),
    ensures
        parse_document(text) == Some(
            NoteView {
                frontmatter: trim(text.subrange(marker().len() as int, j)),
                content: trim(text.subrange(j + marker().len(), text.len() as int)),
            },
        ),
{
    lemma_closing_marker_unique(text, j, choose|k: int| closes_at(text, k));
}

/// A document that opens with the marker and holds no further marker after
/// it is malformed.
pub proof fn lemma_malformed_document(text: Seq<char>)
    requires
        has_frontmatter(text),
        absent_from(text, marker(), marker().len() as int),
    ensures
        parse_document(text) is None,
{
}

/// `inner` can stand between the two markers of a document: no marker begins
/// inside it, not even one that would run over into the closing marker.
pub open spec fn fits_between_markers(inner: Seq<char>) -> bool {
    forall|k: int| 0 <= k < inner.len() ==> !occurs_at(inner + marker(), marker(), k)
}

/// A document laid out as marker, `inner`, marker, `rest` parses to the
/// trimmed `inner` as metadata and the trimmed `rest` as body.
pub proof fn lemma_framed_document(inner: Seq<char>, rest: Seq<char>)
    requires
        fits_between_markers(inner),
    ensures
        parse_document(marker() + inner + marker() + rest) == Some(
            NoteView { frontmatter: trim(inner), content: trim(rest) },
        ),
{
    reveal_strlit("---");
    let text = marker() + inner + marker() + rest;
    let j = 3 + inner.len() as int;
    assert(text.subrange(0, 3) =~= marker());
    assert(text.subrange(j, j + 3) =~= marker());
    assert forall|k: int| 3 <= k < j implies !occurs_at(text, marker(), k) by {
        if occurs_at(text, marker(), k) {
            assert(text.subrange(k, k + 3) =~= (inner + marker()).subrange(k - 3, k));
            assert(occurs_at(inner + marker(), marker(), k - 3));
        }
    }
    lemma_well_formed_document(text, j);
    assert(text.subrange(3, j) =~= inner);
    assert(text.subrange(j + 3, text.len() as int) =~= rest);
}

/// White space on either side of the metadata and of the body has no effect:
/// a document laid out as marker, padded `metadata`, marker, padded `body`
/// parses to the trimmed `metadata` and the trimmed `body`, whatever the
/// padding is.
pub proof fn lemma_padding_ignored(
    metadata: Seq<char>,
    body: Seq<char>,
    pad: (Seq<char>, Seq<char>, Seq<char>, Seq<char>),
)
    requires
        all_white_space(pad.0),
        all_white_space(pad.1),
        all_white_space(pad.2),
        all_white_space(pad.3),
        fits_between_markers(pad.0 + metadata + pad.1),
    ensures
        parse_document(
            marker() + (pad.0 + metadata + pad.1) + marker() + (pad.2 + body + pad.3),
        ) == Some(NoteView { frontmatter: trim(metadata), content: trim(body) }),
{
    lemma_framed_document(pad.0 + metadata + pad.1, pad.2 + body + pad.3);
    lemma_trim_ignores_padding(pad.0, metadata, pad.1);
    lemma_trim_ignores_padding(pad.2, body, pad.3);
}

impl Note {
    /// Parses the raw text of one document.
    pub fn from_string(note: &str) -> (r: Result<Note, Error>)
        ensures
            match parse_document(note@) {
                Some(parsed) => r matches Ok(n) && n@ == parsed,
                None => r matches Err(e) && e@ == ErrorView::MalformedDocument,
            },
    {
        proof {
            reveal_strlit("---");
        }
        let chars = chars_of(note);
        let marker = chars_of(MARKER);
        if !occurs_at_index(&chars, &marker, 0) {
            return Ok(Note { frontmatter: String::new(), content: note.to_owned() });
        }
        match find_from(&chars, &marker, marker.len()) {
            None => Err(Error::MalformedDocument),
            Some(j) => {
                proof {
                    lemma_well_formed_document(note@, j as int);
                }
                let (a, b) = trim_range(&chars, marker.len(), j);
                let (c, d) = trim_range(&chars, j + marker.len(), chars.len());
                Ok(
                    Note {
                        frontmatter: note.substring_char(a, b).to_owned(),
                        content: note.substring_char(c, d).to_owned(),
                    },
                )
            },
        }
    }
}

} // verus!
