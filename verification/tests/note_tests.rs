use note_digest::error::Error;
use note_digest::note::{Note, MARKER};
use note_digest::text::{chars_of, find_from, is_white_space, occurs_at_index};

fn parsed(text: &str) -> (String, String) {
    let note = Note::from_string(text).expect("the document is well formed");
    (note.frontmatter, note.content)
}

fn pair(frontmatter: &str, content: &str) -> (String, String) {
    (frontmatter.to_string(), content.to_string())
}

/// The same cut made with the string functions of the standard library.
fn with_std_split(text: &str) -> Option<(String, String)> {
    if text.starts_with("---") {
        let parts: Vec<&str> = text.splitn(3, "---").collect();
        if parts.len() > 2 {
            Some((parts[1].trim().to_string(), parts[2].trim().to_string()))
        } else {
            None
        }
    } else {
        Some((String::new(), text.to_string()))
    }
}

#[test]
fn marker_is_three_dashes() {
    assert_eq!(MARKER, "---");
}

#[test]
fn document_with_metadata_is_split() {
    assert_eq!(parsed("---\nkey: v\n---\nHello"), pair("key: v", "Hello"));
}

#[test]
fn document_without_marker_is_all_body() {
    assert_eq!(parsed("Just text"), pair("", "Just text"));
}

#[test]
fn document_without_marker_is_not_trimmed() {
    assert_eq!(parsed("  padded text \n\n"), pair("", "  padded text \n\n"));
    assert_eq!(parsed(""), pair("", ""));
    assert_eq!(parsed("\n"), pair("", "\n"));
}

#[test]
fn marker_after_the_start_does_not_open_metadata() {
    assert_eq!(parsed(" ---\na\n---\nb"), pair("", " ---\na\n---\nb"));
    assert_eq!(parsed("--\n---\nb"), pair("", "--\n---\nb"));
}

#[test]
fn document_without_closing_marker_is_malformed() {
    assert_eq!(Note::from_string("---\nonly one section"), Err(Error::MalformedDocument));
    assert_eq!(Note::from_string("---"), Err(Error::MalformedDocument));
    assert_eq!(Note::from_string("-----"), Err(Error::MalformedDocument));
    assert_eq!(Note::from_string("--- -- - --"), Err(Error::MalformedDocument));
}

#[test]
fn two_markers_and_nothing_else_give_an_empty_note() {
    assert_eq!(parsed("------"), pair("", ""));
    assert_eq!(parsed("--- \n ---"), pair("", ""));
}

#[test]
fn only_the_first_two_markers_cut() {
    assert_eq!(parsed("---a---b---c"), pair("a", "b---c"));
    assert_eq!(parsed("---\nk: v\n---\nabove\n---\nbelow\n"), pair("k: v", "above\n---\nbelow"));
}

#[test]
fn closing_marker_begins_after_the_opening_one() {
    assert_eq!(parsed("----x---y"), pair("-x", "y"));
    assert_eq!(parsed("-------"), pair("", "-"));
}

#[test]
fn white_space_around_the_sections_is_dropped() {
    let expected = pair("key: v", "Hello");
    assert_eq!(parsed("---key: v---Hello"), expected);
    assert_eq!(parsed("---  \n\t key: v \r\n\n---\n\n Hello \n"), expected);
    assert_eq!(parsed("---\u{a0}key: v\u{2003}---\u{3000}Hello\u{85}"), expected);
}

#[test]
fn white_space_inside_the_sections_is_kept() {
    assert_eq!(parsed("--- a  b\n\nc ---\n d \n e \n"), pair("a  b\n\nc", "d \n e"));
}

#[test]
fn characters_beyond_ascii_are_kept_whole() {
    assert_eq!(
        parsed("---\ncl\u{e9}: \u{e9}t\u{e9}\n---\nh\u{e9}llo w\u{f6}rld \u{1f600}\n"),
        pair("cl\u{e9}: \u{e9}t\u{e9}", "h\u{e9}llo w\u{f6}rld \u{1f600}")
    );
    assert_eq!(parsed("\u{2014}--\nx"), pair("", "\u{2014}--\nx"));
}

#[test]
fn parsing_agrees_with_the_standard_string_functions() {
    let samples = [
        "",
        "-",
        "---",
        "------",
        "-------",
        "----x---y",
        "Just text",
        " ---\nkey: v\n---\nHello",
        "---\nkey: v\n---\nHello",
        "---\nonly one section",
        "---\n\n---\n\n",
        "---\ta\u{b}\u{c}---\u{1680}b\u{2028}\u{2029}\u{202f}\u{205f}",
        "---\u{200b}a\u{200b}---\u{feff}b\u{feff}",
        "---\u{e9}---\u{1f600}---",
        "--- - -- ---- -",
    ];
    for sample in samples {
        let ours = Note::from_string(sample).ok().map(|n| (n.frontmatter, n.content));
        assert_eq!(ours, with_std_split(sample), "on {:?}", sample);
    }
}

#[test]
fn characters_are_listed_in_order() {
    assert_eq!(chars_of("a\u{e9}\u{1f600}-"), vec!['a', '\u{e9}', '\u{1f600}', '-']);
    assert_eq!(chars_of(""), Vec::<char>::new());
}

#[test]
fn pattern_is_found_where_it_first_stands() {
    let text = chars_of("ab--ab---ab---");
    let dashes = chars_of("---");
    assert!(!occurs_at_index(&text, &dashes, 2));
    assert!(occurs_at_index(&text, &dashes, 6));
    assert!(!occurs_at_index(&text, &dashes, 12));
    assert!(!occurs_at_index(&text, &dashes, 99));
    assert_eq!(find_from(&text, &dashes, 0), Some(6));
    assert_eq!(find_from(&text, &dashes, 6), Some(6));
    assert_eq!(find_from(&text, &dashes, 7), Some(11));
    assert_eq!(find_from(&text, &dashes, 12), None);
    assert_eq!(find_from(&text, &dashes, 99), None);
    assert_eq!(find_from(&dashes, &text, 0), None);
}

#[test]
fn empty_pattern_stands_everywhere() {
    let text = chars_of("ab");
    let empty = chars_of("");
    assert!(occurs_at_index(&text, &empty, 0));
    assert!(occurs_at_index(&text, &empty, 2));
    assert!(!occurs_at_index(&text, &empty, 3));
    assert_eq!(find_from(&text, &empty, 1), Some(1));
    assert_eq!(find_from(&text, &empty, 2), Some(2));
    assert_eq!(find_from(&text, &empty, 3), None);
}

#[test]
fn white_space_is_what_the_standard_library_calls_so() {
    for code in 0..=0x10FFFF_u32 {
        if let Some(c) = char::from_u32(code) {
            assert_eq!(is_white_space(c), c.is_whitespace(), "on U+{:04X}", code);
        }
    }
}

#[test]
fn white_space_by_example() {
    for c in [' ', '\t', '\n', '\u{b}', '\u{c}', '\r', '\u{85}', '\u{a0}', '\u{1680}', '\u{2000}',
        '\u{200a}', '\u{2028}', '\u{2029}', '\u{202f}', '\u{205f}', '\u{3000}']
    {
        assert!(is_white_space(c), "on {:?}", c);
    }
    for c in ['a', '-', '\u{0}', '\u{8}', '\u{e}', '\u{1f}', '\u{180e}', '\u{200b}', '\u{2060}',
        '\u{feff}', '\u{8d8a}']
    {
        assert!(!is_white_space(c), "on {:?}", c);
    }
}
