use talkie::text::{reflow_text, reformat_passage, split_passages};

#[test]
fn test_reformat_passage() {
    assert_eq!(
        "A B C",
        &reformat_passage("  A\n        B\n        \n            C   \n        ")
    );
}

#[test]
fn core_test_reflow_single_line() {
    assert_eq!("abc", reflow_text("abc").trim());
}

#[test]
fn core_test_reflow_lines_no_blanks() {
    assert_eq!(
        "abc def",
        reflow_text(
            "
            abc
            def
            "
            .trim()
        )
    );
}

#[test]
fn core_test_reflow_lines_with_blanks() {
    assert_eq!(
        "abc def \nghi jkl",
        reflow_text(
            "
    abc
    def

    ghi
    jkl
    "
            .trim()
        )
    );
}

#[test]
fn talkie_core_test_reflow_single_line() {
    assert_eq!("abc", reflow_text("abc").trim());
}

#[test]
fn talkie_core_test_reflow_lines_no_blanks() {
    assert_eq!(
        "abc def",
        reflow_text(
            "
            abc
            def
            "
            .trim()
        )
    );
}

#[test]
fn talkie_core_test_reflow_lines_with_blanks() {
    assert_eq!(
        "abc def \nghi jkl",
        reflow_text(
            "
    abc
    def

    ghi
    jkl
    "
            .trim()
        )
    );
}

#[test]
fn utils_test_reflow_single_line() {
    assert_eq!("abc", reflow_text("abc").trim());
}

#[test]
fn utils_test_reflow_lines_no_blanks() {
    assert_eq!(
        "abc def",
        reflow_text(
            "
                abc
                def
                "
            .trim()
        )
    );
}

#[test]
fn utils_test_reflow_lines_with_blanks() {
    assert_eq!(
        "abc def \nghi jkl",
        reflow_text(
            "
        abc
        def

        ghi
        jkl
        "
            .trim()
        )
    );
}

#[test]
fn mod_test_reflow_single_line() {
    assert_eq!("abc", reflow_text("abc").trim());
}

#[test]
fn mod_test_reflow_lines_no_blanks() {
    assert_eq!(
        "abc def",
        reflow_text(
            "
                abc
                def
                "
            .trim()
        )
    );
}

#[test]
fn mod_test_reflow_lines_with_blanks() {
    assert_eq!(
        "abc def \nghi jkl",
        reflow_text(
            "
        abc
        def

        ghi
        jkl
        "
            .trim()
        )
    );
}

/// A single line with no surrounding whitespace comes back unchanged.
#[test]
fn reflow_normalized_text_is_kept() {
    assert_eq!("already normal", reflow_text("already normal"));
    assert_eq!("", reflow_text(""));
    assert_eq!("a b", reflow_text("a\nb\n"));
}

/// Paragraph splitting: blank lines separate passages, newlines within
/// a paragraph collapse to single spaces, every line is trimmed.
#[test]
fn split_passages_separates_paragraphs() {
    assert_eq!(vec!["A B".to_string(), "C".to_string()], split_passages("  A\n  B\n\n  C  \n"));
}

#[test]
fn split_passages_of_whitespace_is_empty() {
    assert!(split_passages("").is_empty());
    assert!(split_passages(" \n\t\n  \n").is_empty());
}

#[test]
fn split_passages_trims_carriage_returns() {
    assert_eq!(vec!["a b".to_string()], split_passages("a\r\nb\r\n"));
}

#[test]
fn reformat_passage_joins_across_blank_lines() {
    assert_eq!("A C", reformat_passage("A\n\nC"));
    assert_eq!("", reformat_passage("   \n \n"));
}
