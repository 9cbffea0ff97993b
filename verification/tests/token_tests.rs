use nlprule::token::{TagPair, Token};

fn tag(lemma: &str, pos: &str) -> TagPair {
    TagPair { lemma: lemma.to_string(), pos: pos.to_string() }
}

fn sample_token() -> Token {
    Token::new(
        "are".to_string(),
        (4, 7),
        vec![tag("be", "VBP"), tag("be", "VB"), tag("", "VBP"), tag("are", "")],
        vec!["B-NP".to_string(), "I-NP".to_string()],
    )
}

#[test]
fn text_and_span_are_exposed_read_only() {
    let t = sample_token();
    assert_eq!(t.text(), "are");
    assert_eq!(t.span(), (4, 7));
}

#[test]
fn data_preserves_raw_tags_with_duplicates() {
    let t = sample_token();
    let data = t.data();
    assert_eq!(data.len(), 4);
    assert_eq!(data[0], ("be".to_string(), "VBP".to_string()));
    assert_eq!(data[1], ("be".to_string(), "VB".to_string()));
    assert_eq!(data[2], ("".to_string(), "VBP".to_string()));
    assert_eq!(data[3], ("are".to_string(), "".to_string()));
}

#[test]
fn lemmas_are_sorted_deduplicated_and_skip_empties() {
    let t = sample_token();
    assert_eq!(t.lemmas(), vec!["are".to_string(), "be".to_string()]);
}

#[test]
fn tags_are_sorted_deduplicated_and_skip_empties() {
    let t = sample_token();
    assert_eq!(t.tags(), vec!["VB".to_string(), "VBP".to_string()]);
}

#[test]
fn chunks_are_exposed_in_order() {
    let t = sample_token();
    assert_eq!(t.chunks(), vec!["B-NP".to_string(), "I-NP".to_string()]);
}

#[test]
fn lemmas_of_a_tagless_token_are_empty() {
    let t = Token::new("x".to_string(), (0, 1), vec![], vec![]);
    assert!(t.lemmas().is_empty());
    assert!(t.tags().is_empty());
    assert!(t.data().is_empty());
    assert!(t.chunks().is_empty());
}
