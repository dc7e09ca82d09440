use note_digest::config::{Config, DEFAULT_ENDPOINT, DEFAULT_MODEL, DEFAULT_NOTES_PATH};
use note_digest::listing::{is_note_file, select_note_files, NOTE_EXTENSION};

fn paths(names: &[&str]) -> Vec<String> {
    names.iter().map(|n| n.to_string()).collect()
}

#[test]
fn note_files_end_in_the_extension() {
    assert_eq!(NOTE_EXTENSION, ".md");
    assert!(is_note_file("a.md"));
    assert!(is_note_file("./notes/plan.md"));
    assert!(is_note_file(".md"));
    assert!(is_note_file("a.md.md"));
    assert!(is_note_file("\u{e9}t\u{e9}.md"));
}

#[test]
fn other_files_are_not_note_files() {
    assert!(!is_note_file(""));
    assert!(!is_note_file("md"));
    assert!(!is_note_file("a.txt"));
    assert!(!is_note_file("a.md.bak"));
    assert!(!is_note_file("a.MD"));
    assert!(!is_note_file("a.md "));
    assert!(!is_note_file("amd"));
}

#[test]
fn selection_keeps_the_order_of_the_listing() {
    assert_eq!(
        select_note_files(paths(&["z.md", "a.txt", "b.md", "", "a.md", "c.mdx", "z.md"])),
        paths(&["z.md", "b.md", "a.md", "z.md"])
    );
    assert_eq!(select_note_files(Vec::new()), Vec::<String>::new());
    assert_eq!(select_note_files(paths(&["a", "b"])), Vec::<String>::new());
}

#[test]
fn settings_fall_back_to_their_defaults() {
    let config = Config::resolve(None, None, None);
    assert_eq!(config.endpoint, "http://localhost:11434/api/generate");
    assert_eq!(config.model, "llama3:instruct");
    assert_eq!(config.notes_path, "./notes");
    assert_eq!(DEFAULT_ENDPOINT, "http://localhost:11434/api/generate");
    assert_eq!(DEFAULT_MODEL, "llama3:instruct");
    assert_eq!(DEFAULT_NOTES_PATH, "./notes");
}

#[test]
fn settings_take_each_override_alone() {
    let config = Config::resolve(Some("http://other/api".to_string()), None, None);
    assert_eq!(config.endpoint, "http://other/api");
    assert_eq!(config.model, DEFAULT_MODEL);
    assert_eq!(config.notes_path, DEFAULT_NOTES_PATH);
    let config = Config::resolve(None, Some("mistral".to_string()), Some("/tmp/n".to_string()));
    assert_eq!(config.endpoint, DEFAULT_ENDPOINT);
    assert_eq!(config.model, "mistral");
    assert_eq!(config.notes_path, "/tmp/n");
}

#[test]
fn empty_override_is_still_an_override() {
    let config = Config::resolve(Some(String::new()), Some(String::new()), Some(String::new()));
    assert_eq!(config.endpoint, "");
    assert_eq!(config.model, "");
    assert_eq!(config.notes_path, "");
}
