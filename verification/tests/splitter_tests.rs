use nlprule::error::Error;
use nlprule::splitter::{SentenceSplitter, SplitOn};

fn split_on(tokens: Vec<&str>) -> SplitOn {
    SplitOn::new(tokens).expect("valid splitter tokens")
}

#[test]
fn splits_after_each_configured_codepoint() {
    let splitter = split_on(vec![".", "!"]);
    let out = splitter.split(&vec!["Hi there. How are you! Fine".to_string()]);
    assert_eq!(out, vec![vec!["Hi there.", " How are you!", " Fine"]]);
}

#[test]
fn empty_text_yields_no_sentences() {
    let splitter = split_on(vec!["."]);
    let out = splitter.split(&vec![String::new()]);
    assert_eq!(out.len(), 1);
    assert!(out[0].is_empty());
}

#[test]
fn multi_codepoint_split_token_is_a_configuration_error() {
    let r = SplitOn::new(vec!["ab"]);
    assert!(matches!(r, Err(Error::Configuration(_))));
}

#[test]
fn empty_split_token_is_a_configuration_error() {
    let r = SplitOn::new(vec![""]);
    assert!(matches!(r, Err(Error::Configuration(_))));
}

#[test]
fn round_trip_concatenation_restores_the_text() {
    let splitter = split_on(vec![".", "?", "!"]);
    let texts = vec![
        "One. Two? Three! trailing".to_string(),
        "no splitter here".to_string(),
        "...".to_string(),
        "αβ. γδ!".to_string(),
    ];
    let out = splitter.split(&texts);
    assert_eq!(out.len(), texts.len());
    for (text, sentences) in texts.iter().zip(out.iter()) {
        assert_eq!(&sentences.concat(), text);
    }
}

#[test]
fn trailing_remainder_without_splitter_is_kept_whole() {
    let splitter = split_on(vec!["."]);
    let out = splitter.split(&vec!["abc".to_string()]);
    assert_eq!(out, vec![vec!["abc"]]);
}

#[test]
fn batch_split_preserves_order_and_length() {
    let splitter = split_on(vec!["."]);
    let out = splitter.split(&vec!["a.".to_string(), "b.c".to_string()]);
    assert_eq!(out, vec![vec!["a."], vec!["b.", "c"]]);
}
