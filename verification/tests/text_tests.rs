use hfss_file_manager::schema::{eq_ignore_ascii_case, has_column};
use hfss_file_manager::text::{blank, chars_of, parse_u32, same_text, split_char, split_words, NumberError};

fn strings(pieces: Vec<Vec<char>>) -> Vec<String> {
    pieces.into_iter().map(|p| p.into_iter().collect()).collect()
}

#[test]
fn split_char_matches_std_split() {
    for text in ["a:b", ":", "", "a::b", "ab", ":a:"] {
        let expected: Vec<String> = text.split(':').map(str::to_string).collect();
        assert_eq!(strings(split_char(&chars_of(text), ':')), expected, "{text:?}");
    }
}

#[test]
fn split_words_matches_std_split_whitespace() {
    for text in ["Mon 09:00", "  a \t b\n", "", "   ", "x", "a\u{a0}b\u{2003}c"] {
        let expected: Vec<String> = text.split_whitespace().map(str::to_string).collect();
        assert_eq!(strings(split_words(&chars_of(text))), expected, "{text:?}");
    }
}

#[test]
fn blank_matches_std_trim() {
    for text in ["", " ", "\t\n\u{3000}\u{85}", " x ", "\u{200b}"] {
        assert_eq!(blank(text), text.trim().is_empty(), "{text:?}");
    }
}

#[test]
fn parse_u32_kinds() {
    assert_eq!(parse_u32(&chars_of("")), Err(NumberError::Empty));
    assert_eq!(parse_u32(&chars_of("+")), Err(NumberError::InvalidDigit));
    assert_eq!(parse_u32(&chars_of("-")), Err(NumberError::InvalidDigit));
    assert_eq!(parse_u32(&chars_of("-7")), Err(NumberError::InvalidDigit));
    assert_eq!(parse_u32(&chars_of("+7")), Ok(7));
    assert_eq!(parse_u32(&chars_of("4294967295")), Ok(u32::MAX));
    assert_eq!(parse_u32(&chars_of("4294967296")), Err(NumberError::Overflow));
}

#[test]
fn same_text_compares() {
    assert!(same_text("success", "success"));
    assert!(!same_text("success", "Success"));
    assert!(!same_text("a", "ab"));
}

#[test]
fn column_names_ignore_ascii_case() {
    assert!(eq_ignore_ascii_case("Backup_Root", "backup_root"));
    assert!(!eq_ignore_ascii_case("backup_root", "backup_roots"));
    assert!(!eq_ignore_ascii_case("É", "é"));
    let names = vec!["id".to_string(), "LAST_RUN_AT".to_string()];
    assert!(has_column(&names, "last_run_at"));
    assert!(!has_column(&names, "last_status"));
    assert!(!has_column(&Vec::new(), "id"));
}
