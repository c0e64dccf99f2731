use talkie::dialogue::{Dialogue, ParseError};

#[test]
fn parses_sections_with_ids_speakers_and_choices() {
    let doc = b"
[[section]]
id = \"start\"
speaker = \"Sig\"
passages = [\"\"\"
  Hello
  there

  Second passage
\"\"\"]

[[section.choices]]
label = \"Go on\"
goto = \"end\"

[[section.choices]]
label = \"Stay\"

[[section]]
id = \"end\"
passages = [\"Bye\"]
";
    let d = Dialogue::from_slice(doc).unwrap();
    assert_eq!(2, d.passage_groups.len());

    let first = &d.passage_groups[0];
    assert_eq!(Some("start".to_string()), first.id);
    assert_eq!(Some("Sig".to_string()), first.speaker);
    assert_eq!(vec!["Hello there".to_string(), "Second passage".to_string()], first.passages);
    let choices = first.choices.as_ref().unwrap();
    assert_eq!(2, choices.len());
    assert_eq!("Go on", choices[0].label);
    assert_eq!(Some("end".to_string()), choices[0].goto);
    assert_eq!("Stay", choices[1].label);
    assert_eq!(None, choices[1].goto);

    let second = &d.passage_groups[1];
    assert_eq!(Some("end".to_string()), second.id);
    assert_eq!(None, second.speaker);
    assert_eq!(vec!["Bye".to_string()], second.passages);
    assert!(second.choices.is_none());
}

#[test]
fn one_block_with_blank_lines_becomes_several_passages() {
    let doc = b"
[[section]]
passages = [\"A\\nB\\n\\nC\"]
";
    let d = Dialogue::from_slice(doc).unwrap();
    assert_eq!(1, d.passage_groups.len());
    assert_eq!(vec!["A B".to_string(), "C".to_string()], d.passage_groups[0].passages);
}

#[test]
fn empty_document_is_malformed() {
    assert!(matches!(Dialogue::from_slice(b""), Err(ParseError::Malformed)));
}

#[test]
fn document_without_sections_is_malformed() {
    assert!(matches!(Dialogue::from_slice(b"title = \"x\"\n"), Err(ParseError::Malformed)));
}

#[test]
fn section_without_passage_text_is_malformed() {
    let empty_list = b"
[[section]]
passages = []
";
    assert!(matches!(Dialogue::from_slice(empty_list), Err(ParseError::Malformed)));
    let blank_text = b"
[[section]]
passages = [\"  \\n  \"]
";
    assert!(matches!(Dialogue::from_slice(blank_text), Err(ParseError::Malformed)));
}

#[test]
fn broken_grammar_is_malformed() {
    assert!(matches!(Dialogue::from_slice(b"[[section\npassages"), Err(ParseError::Malformed)));
    assert!(matches!(Dialogue::from_slice(b"\xff\xfe[[section]]"), Err(ParseError::Malformed)));
}

#[test]
fn wrongly_typed_fields_are_malformed() {
    let bad_passages = b"
[[section]]
passages = [17]
";
    assert!(matches!(Dialogue::from_slice(bad_passages), Err(ParseError::Malformed)));
    let bad_label = b"
[[section]]
passages = [\"hi\"]

[[section.choices]]
label = 3
";
    assert!(matches!(Dialogue::from_slice(bad_label), Err(ParseError::Malformed)));
}

#[test]
fn from_groups_rejects_empty_documents() {
    assert!(Dialogue::from_groups(Vec::new()).is_err());
}
