//! Joins the bodies of the notes into the one prompt that is sent out.

use crate::note::Note;
use crate::text::occurs_at;
use vstd::prelude::*;

verus! {

/// The token that ends each note inside the prompt.
pub const NOTE_DELIMITER: &'static str = "===\n---\n===\n";

/// What the preamble says before it names the delimiter.
pub const PREAMBLE_OPENING: &'static str = "Summarize the following notes delimited by '";

/// What the preamble says after it has named the delimiter.
pub const PREAMBLE_CLOSING: &'static str = "': \n";

/// The instruction that follows the last note.
pub const POSTAMBLE: &'static str =
    "okay now you have all my notes, summarize them for me. and ignore the delimiter please\n";

/// The delimiter as a sequence of characters.
pub open spec fn delimiter() -> Seq<char> {
    NOTE_DELIMITER@
}

/// The instruction that precedes the first note. It names the delimiter, in
/// quotes, so that the reader of the prompt knows what to look for.
pub open spec fn preamble() -> Seq<char> {
    PREAMBLE_OPENING@ + delimiter() + PREAMBLE_CLOSING@
}

/// The instruction that follows the last note.
pub open spec fn postamble() -> Seq<char> {
    POSTAMBLE@
}

/// The bodies in order, each followed by the delimiter.
pub open spec fn delimited(bodies: Seq<Seq<char>>) -> Seq<char>
    decreases bodies.len(),
{
    if bodies.len() == 0 {
        Seq::empty()
    } else {
        delimited(bodies.drop_last()) + bodies.last() + delimiter()
    }
}

/// The prompt for the given bodies: preamble, delimited bodies, postamble.
pub open spec fn prompt_text(bodies: Seq<Seq<char>>) -> Seq<char> {
    preamble() + delimited(bodies) + postamble()
}

/// The bodies of the given notes, in order.
pub open spec fn bodies_of(notes: Seq<Note>) -> Seq<Seq<char>> {
    Seq::new(notes.len(), |i: int| notes[i].content@)
}

/// Where the body of note `i` begins inside the prompt; for `i` equal to the
/// number of bodies, where the postamble begins.
pub open spec fn body_start(bodies: Seq<Seq<char>>, i: int) -> int {
    (preamble().len() + delimited(bodies.take(i)).len()) as int
}

/// Delimiting a list of bodies in two parts gives the same text as
/// delimiting it whole.
pub proof fn lemma_delimited_concat(first: Seq<Seq<char>>, second: Seq<Seq<char>>)
    ensures
        delimited(first + second) == delimited(first) + delimited(second),
    decreases second.len(),
{
    if second.len() > 0 {
        assert((first + second).drop_last() =~= first + second.drop_last());
        lemma_delimited_concat(first, second.drop_last());
    }
}

/// Every body stands in the prompt as one piece, with the delimiter right
/// after it, and the next body (or, after the last one, the postamble) begins
/// right after that delimiter. So the bodies appear in the order given and no
/// two of them touch.
pub proof fn lemma_body_in_prompt(bodies: Seq<Seq<char>>, i: int)
    requires
        0 <= i < bodies.len(),
    ensures
        occurs_at(prompt_text(bodies), bodies[i], body_start(bodies, i)),
        occurs_at(prompt_text(bodies), delimiter(), body_start(bodies, i) + bodies[i].len()),
        body_start(bodies, i + 1) == body_start(bodies, i) + bodies[i].len() + delimiter().len(),
{
    let before = bodies.take(i);
    let upto = bodies.take(i + 1);
    let after = bodies.skip(i + 1);
    assert(upto.drop_last() =~= before);
    assert(upto + after =~= bodies);
    lemma_delimited_concat(upto, after);
    let prompt = prompt_text(bodies);
    let at = body_start(bodies, i);
    assert(prompt =~= preamble() + delimited(before) + bodies[i] + delimiter() + delimited(after)
        + postamble());
    assert(prompt.subrange(at, at + bodies[i].len()) =~= bodies[i]);
    assert(prompt.subrange(at + bodies[i].len(), at + bodies[i].len() + delimiter().len())
        =~= delimiter());
}

/// The bodies stand in the prompt in the order given: an earlier body and its
/// delimiter have ended where a later body begins.
pub proof fn lemma_bodies_in_order(bodies: Seq<Seq<char>>, i: int, j: int)
    requires
        0 <= i < j < bodies.len(),
    ensures
        body_start(bodies, i) + bodies[i].len() + delimiter().len() <= body_start(bodies, j),
    decreases j - i,
{
    lemma_body_in_prompt(bodies, i);
    if i + 1 < j {
        lemma_bodies_in_order(bodies, i + 1, j);
    }
}

/// The prompt opens with the preamble, the first body (or, without notes, the
/// postamble) begins where the preamble ends, and the prompt ends with the
/// postamble.
pub proof fn lemma_prompt_frame(bodies: Seq<Seq<char>>)
    ensures
        occurs_at(prompt_text(bodies), preamble(), 0),
        body_start(bodies, 0) == preamble().len(),
        occurs_at(prompt_text(bodies), postamble(), body_start(bodies, bodies.len() as int)),
        prompt_text(bodies).len() == body_start(bodies, bodies.len() as int) + postamble().len(),
{
    let prompt = prompt_text(bodies);
    assert(bodies.take(bodies.len() as int) =~= bodies);
    assert(prompt.subrange(0, preamble().len() as int) =~= preamble());
    let end = body_start(bodies, bodies.len() as int);
    assert(prompt.subrange(end, end + postamble().len()) =~= postamble());
}

/// Without notes the prompt is the preamble followed by the postamble.
pub proof fn lemma_prompt_without_notes()
    ensures
        prompt_text(Seq::empty()) == preamble() + postamble(),
{
}

/// The delimiter stands nowhere in the postamble.
pub proof fn lemma_postamble_without_delimiter()
    ensures
        forall|k: int| !occurs_at(postamble(), delimiter(), k),
{
    reveal_strlit("===\n---\n===\n");
    reveal_strlit(
        "okay now you have all my notes, summarize them for me. and ignore the delimiter please\n",
    );
    assert forall|k: int| !occurs_at(postamble(), delimiter(), k) by {
        if occurs_at(postamble(), delimiter(), k) {
            assert(postamble().subrange(k, k + 12)[0] == '=');
        }
    }
}

/// The opening of the preamble holds no `=`, the character with which the
/// delimiter begins.
proof fn lemma_opening_without_equals()
    ensures
        PREAMBLE_OPENING@.len() == 44,
        forall|k: int| 0 <= k < 44 ==> PREAMBLE_OPENING@[k] != '=',
{
    reveal_strlit("Summarize the following notes delimited by '");
}

/// The delimiter holds `=` in its first and third place and none in its
/// fourth to eighth place.
proof fn lemma_delimiter_shape()
    ensures
        delimiter().len() == 12,
        PREAMBLE_CLOSING@.len() == 4,
        delimiter()[0] == '=',
        delimiter()[2] == '=',
        forall|k: int| 3 <= k < 8 ==> #[trigger] delimiter()[k] != '=',
{
    reveal_strlit("===\n---\n===\n");
    reveal_strlit("': \n");
}

/// The preamble holds the delimiter once: where it names it, between the
/// quotes.
pub proof fn lemma_preamble_names_delimiter()
    ensures
        forall|k: int| occurs_at(preamble(), delimiter(), k) <==> k == PREAMBLE_OPENING@.len(),
{
    lemma_opening_without_equals();
    lemma_delimiter_shape();
    assert(preamble().subrange(44, 56) =~= delimiter());
    assert forall|k: int| occurs_at(preamble(), delimiter(), k) implies k == 44 by {
        let found = preamble().subrange(k, k + 12);
        if k < 44 {
            assert(found[0] == PREAMBLE_OPENING@[k]);
        } else if k > 44 {
            assert(found[2] == delimiter()[k - 42]);
        }
    }
}

/// Builds the prompt from the notes, in the order given. Without notes the
/// prompt is the preamble followed by the postamble.
pub fn construct_prompt(notes: Vec<Note>) -> (prompt: String)
    ensures
        prompt@ == prompt_text(bodies_of(notes@)),
        notes@.len() == 0 ==> prompt@ == preamble() + postamble(),
{
    let mut prompt = String::from_str(PREAMBLE_OPENING);
    prompt.append(NOTE_DELIMITER);
    prompt.append(PREAMBLE_CLOSING);
    let mut i: usize = 0;
    while i < notes.len()
        invariant
            i <= notes.len(),
            prompt@ == preamble() + delimited(bodies_of(notes@).take(i as int)),
        decreases notes.len() - i,
    {
        proof {
            let bodies = bodies_of(notes@);
            assert(bodies.take(i + 1).drop_last() =~= bodies.take(i as int));
        }
        prompt.append(notes[i].content.as_str());
        prompt.append(NOTE_DELIMITER);
        i += 1;
    }
    proof {
        let bodies = bodies_of(notes@);
        assert(bodies.take(i as int) =~= bodies);
    }
    prompt.append(POSTAMBLE);
    prompt
}

} // verus!
