use disrust::json::{parse, Json};
use disrust::text::{escape, same_text};

#[test]
fn same_text_compares_characters() {
    assert!(same_text("READY", "READY"));
    assert!(!same_text("READY", "ready"));
    assert!(!same_text("READY", "READY "));
    assert!(same_text("", ""));
}

#[test]
fn escape_writes_quotes_backslashes_and_control_characters() {
    use_escape("a\"b", "a\\\"b");
    use_escape("\\", "\\\\");
    use_escape("\"\"", "\\\"\\\"");
    use_escape("\n\t\r", "\\u000a\\u0009\\u000d");
    use_escape("\u{0}\u{1f}\u{10}\u{b}", "\\u0000\\u001f\\u0010\\u000b");
    use_escape("", "");
}

#[test]
fn escape_leaves_every_other_character_as_it_is() {
    use_escape("abc.DEF-123_xyz", "abc.DEF-123_xyz");
    use_escape(" !#[]{}:,/'", " !#[]{}:,/'");
    use_escape("\u{20}\u{7f}é☃日本", "\u{20}\u{7f}é☃日本");
}

#[test]
fn escaped_text_reads_back_between_quotes() {
    for text in ["a\"b", "\\n", "\\\\\"", "tab\there", "\u{1}\u{2}\u{1e}", "plain", "é\"☃\\"] {
        let quoted = format!("\"{}\"", escape(text));
        assert_eq!(parse(&quoted), Some(Json::String(text.to_string())), "for {:?}", text);
    }
}

fn use_escape(text: &str, expected: &str) {
    assert_eq!(escape(text), expected);
}
