use note_digest::client::{after_send, Body, GenerationResponse};
use note_digest::error::Error;
use note_digest::note::Note;
use note_digest::pipeline::{conclude, load_notes, prepare};
use note_digest::prompt::{NOTE_DELIMITER, POSTAMBLE, PREAMBLE_CLOSING, PREAMBLE_OPENING};

fn text(s: &str) -> Result<String, String> {
    Ok(s.to_string())
}

fn unreadable(cause: &str) -> Result<String, String> {
    Err(cause.to_string())
}

fn answer(text: &str, done: bool) -> GenerationResponse {
    GenerationResponse {
        model: "llama3:instruct".to_string(),
        created_at: "2024-05-01T10:00:00Z".to_string(),
        response: text.to_string(),
        done,
        context: Vec::new(),
        prompt_eval_count: 0,
        eval_count: 0,
        err: None,
    }
}

fn prepared(files: Vec<Result<String, String>>) -> Result<String, Error> {
    prepare("http://host/api".to_string(), "model-a".to_string(), files)
        .map(|r| r.prompt().to_string())
}

#[test]
fn successful_answer_is_put_out_as_it_is() {
    let due = after_send(Ok(200)).expect("200 is a success");
    assert_eq!(conclude(due, Body::Decoded(answer("Summary X", true))), Ok("Summary X".to_string()));
}

#[test]
fn server_error_gives_no_summary() {
    assert_eq!(after_send(Ok(500)).err(), Some(Error::GenerationRequestFailed));
}

#[test]
fn malformed_document_stops_the_run_before_any_request() {
    let outcome =
        prepare("http://host/api".to_string(), "model-a".to_string(), vec![text("---\nonly one section")]);
    assert_eq!(outcome.err(), Some(Error::MalformedDocument));
}

#[test]
fn undecodable_answer_gives_no_summary() {
    let due = after_send(Ok(200)).expect("200 is a success");
    assert_eq!(
        conclude(due, Body::Undecodable("expected value".to_string())),
        Err(Error::ResponseDecodeError("expected value".to_string()))
    );
    let due = after_send(Ok(200)).expect("200 is a success");
    assert_eq!(
        conclude(due, Body::Interrupted("timed out".to_string())),
        Err(Error::TransportError("timed out".to_string()))
    );
}

#[test]
fn notes_are_loaded_in_the_order_of_the_listing() {
    let notes = load_notes(vec![text("b"), text("---\nk: v\n---\n a \n"), text("c")]);
    assert_eq!(
        notes,
        Ok(vec![
            Note { frontmatter: String::new(), content: "b".to_string() },
            Note { frontmatter: "k: v".to_string(), content: "a".to_string() },
            Note { frontmatter: String::new(), content: "c".to_string() },
        ])
    );
    assert_eq!(load_notes(Vec::new()), Ok(Vec::new()));
}

#[test]
fn unreadable_file_stops_the_run() {
    assert_eq!(
        load_notes(vec![text("a"), unreadable("permission denied"), text("b")]),
        Err(Error::FileReadError("permission denied".to_string()))
    );
}

#[test]
fn first_failure_in_the_listing_decides() {
    assert_eq!(
        load_notes(vec![text("a"), unreadable("first"), text("---"), unreadable("second")]),
        Err(Error::FileReadError("first".to_string()))
    );
    assert_eq!(
        load_notes(vec![text("a"), text("---"), unreadable("first")]),
        Err(Error::MalformedDocument)
    );
}

#[test]
fn request_carries_the_settings_and_the_prompt() {
    let request = prepare(
        "http://host/api".to_string(),
        "model-a".to_string(),
        vec![text("---\nkey: v\n---\nHello"), text("Just text")],
    )
    .expect("both documents are well formed");
    assert_eq!(request.endpoint(), "http://host/api");
    assert_eq!(request.model(), "model-a");
    assert!(!request.stream());
    assert_eq!(
        request.prompt(),
        format!(
            "{}{}{}Hello{}Just text{}{}",
            PREAMBLE_OPENING,
            NOTE_DELIMITER,
            PREAMBLE_CLOSING,
            NOTE_DELIMITER,
            NOTE_DELIMITER,
            POSTAMBLE
        )
    );
}

#[test]
fn run_without_files_still_asks() {
    assert_eq!(
        prepared(Vec::new()),
        Ok(format!("{}{}{}{}", PREAMBLE_OPENING, NOTE_DELIMITER, PREAMBLE_CLOSING, POSTAMBLE))
    );
}

#[test]
fn failed_file_leaves_no_request() {
    assert_eq!(
        prepared(vec![text("fine"), unreadable("gone")]),
        Err(Error::FileReadError("gone".to_string()))
    );
}
