use std::sync::Arc;

use nlprule::dispatch::OneOrMany;
use nlprule::engine::{DictionaryAnalyzer, NoRules, TableRules};
use nlprule::error::Error;
use nlprule::rules::Rules;
use nlprule::splitter::SplitOn;
use nlprule::suggestion::Suggestion;
use nlprule::token::TagPair;
use nlprule::tokenizer::Tokenizer;

fn analyzer() -> DictionaryAnalyzer {
    DictionaryAnalyzer {
        tag_table: vec![(
            "are".to_string(),
            vec![TagPair { lemma: "be".to_string(), pos: "VBP".to_string() }],
        )],
        group_table: vec![(
            "be".to_string(),
            vec!["am".to_string(), "are".to_string(), "is".to_string()],
        )],
    }
}

fn dot_splitter() -> SplitOn {
    SplitOn::new(vec!["."]).expect("valid splitter tokens")
}

fn one(text: &str) -> OneOrMany<String> {
    OneOrMany::One(text.to_string())
}

fn many(texts: &[&str]) -> OneOrMany<String> {
    OneOrMany::Many(texts.iter().map(|t| t.to_string()).collect())
}

#[test]
fn tokenize_sentence_mirrors_the_input_shape() {
    let tok = Tokenizer::new(analyzer(), None::<SplitOn>, false);
    match tok.tokenize_sentence(many(&["a", "b"])) {
        OneOrMany::Many(lists) => assert_eq!(lists.len(), 2),
        OneOrMany::One(_) => panic!("batch input must give a batch result"),
    }
    match tok.tokenize_sentence(one("a")) {
        OneOrMany::One(tokens) => {
            assert_eq!(tokens.len(), 1);
            assert_eq!(tokens[0].text(), "a");
            assert_eq!(tokens[0].span(), (0, 1));
        },
        OneOrMany::Many(_) => panic!("scalar input must give a scalar result"),
    }
}

#[test]
fn tokenize_without_a_splitter_names_the_sentence_alternative() {
    let tok = Tokenizer::new(analyzer(), None::<SplitOn>, false);
    match tok.tokenize(one("Hello.")) {
        Err(Error::Configuration(msg)) => assert!(msg.contains(".tokenize_sentence")),
        _ => panic!("a missing splitter must be a configuration error"),
    }
}

#[test]
fn tokenize_concatenates_per_sentence_tokens_with_local_spans() {
    let tok = Tokenizer::new(analyzer(), Some(dot_splitter()), false);
    match tok.tokenize(one("ab. cd.")) {
        Ok(OneOrMany::One(tokens)) => {
            assert_eq!(tokens.len(), 2);
            assert_eq!(tokens[0].text(), "ab.");
            assert_eq!(tokens[0].span(), (0, 3));
            assert_eq!(tokens[1].text(), " cd.");
            // spans stay sentence-local: not rebased to document coordinates
            assert_eq!(tokens[1].span(), (0, 4));
        },
        _ => panic!("tokenize with a splitter must succeed on a scalar"),
    }
}

#[test]
fn tagger_answers_from_the_tables() {
    let tok = Tokenizer::new(analyzer(), None::<SplitOn>, false);
    let tagger = tok.tagger();
    let tags = tagger.get_tags("are", false);
    assert_eq!(tags, vec![("be".to_string(), "VBP".to_string())]);
    assert!(tagger.get_tags("unknown", true).is_empty());
    let members = tagger.get_group_members("be");
    assert_eq!(members, vec!["am".to_string(), "are".to_string(), "is".to_string()]);
    assert!(tagger.get_group_members("unknown").is_empty());
}

#[test]
fn correct_sentence_is_the_identity_without_suggestions() {
    let tok = Arc::new(Tokenizer::new(analyzer(), Some(dot_splitter()), false));
    let rules = Rules::new(NoRules {}, tok, Some(dot_splitter()));
    match rules.correct_sentence(one("The sky is blue.")) {
        OneOrMany::One(out) => assert_eq!(out, "The sky is blue."),
        OneOrMany::Many(_) => panic!("scalar input must give a scalar result"),
    }
}

fn hypothetical_rules() -> TableRules {
    // one rule firing on the second sentence of "a. bb.": local span [1, 2)
    TableRules::new(vec![(
        " bb.".to_string(),
        vec![Suggestion::new(1, 2, vec!["X".to_string()])],
    )])
    .expect("well-formed rule table")
}

#[test]
fn suggest_rebases_spans_into_document_coordinates() {
    let tok = Arc::new(Tokenizer::new(analyzer(), Some(dot_splitter()), false));
    let rules = Rules::new(hypothetical_rules(), tok, Some(dot_splitter()));
    match rules.suggest(one("a. bb.")) {
        Ok(OneOrMany::One(suggestions)) => {
            assert_eq!(suggestions.len(), 1);
            // two codepoints of "a." plus the local offsets 1 and 2
            assert_eq!(suggestions[0].start(), 3);
            assert_eq!(suggestions[0].end(), 4);
            assert_eq!(suggestions[0].text(), vec!["X".to_string()]);
        },
        _ => panic!("suggest with a splitter must succeed on a scalar"),
    }
}

#[test]
fn suggest_sentence_keeps_spans_sentence_local() {
    let tok = Arc::new(Tokenizer::new(analyzer(), None::<SplitOn>, false));
    let rules = Rules::new(hypothetical_rules(), tok, None);
    match rules.suggest_sentence(one(" bb.")) {
        OneOrMany::One(suggestions) => {
            assert_eq!(suggestions.len(), 1);
            assert_eq!(suggestions[0].start(), 1);
            assert_eq!(suggestions[0].end(), 2);
        },
        OneOrMany::Many(_) => panic!("scalar input must give a scalar result"),
    }
}

#[test]
fn suggest_starts_are_non_decreasing_and_spans_ordered() {
    let table = TableRules::new(vec![
        ("a.".to_string(), vec![Suggestion::new(0, 1, vec!["A".to_string()])]),
        (
            " bb.".to_string(),
            vec![
                Suggestion::new(1, 2, vec!["B".to_string()]),
                Suggestion::new(2, 3, vec!["C".to_string()]),
            ],
        ),
    ])
    .expect("well-formed rule table");
    let tok = Arc::new(Tokenizer::new(analyzer(), Some(dot_splitter()), false));
    let rules = Rules::new(table, tok, Some(dot_splitter()));
    match rules.suggest(one("a. bb.")) {
        Ok(OneOrMany::One(suggestions)) => {
            assert_eq!(suggestions.len(), 3);
            for s in &suggestions {
                assert!(s.start() <= s.end());
            }
            for pair in suggestions.windows(2) {
                assert!(pair[0].start() <= pair[1].start());
            }
            assert_eq!(suggestions[1].start(), 3);
            assert_eq!(suggestions[2].start(), 4);
        },
        _ => panic!("suggest with a splitter must succeed on a scalar"),
    }
}

#[test]
fn suggest_without_a_splitter_names_the_sentence_alternative() {
    let tok = Arc::new(Tokenizer::new(analyzer(), None::<SplitOn>, false));
    let rules = Rules::new(NoRules {}, tok, None);
    match rules.suggest(one("a. bb.")) {
        Err(Error::Configuration(msg)) => assert!(msg.contains(".suggest_sentence")),
        _ => panic!("a missing splitter must be a configuration error"),
    }
}

#[test]
fn correct_without_a_splitter_names_the_sentence_alternative() {
    let tok = Arc::new(Tokenizer::new(analyzer(), None::<SplitOn>, false));
    let rules = Rules::new(NoRules {}, tok, None);
    match rules.correct(one("a. bb.")) {
        Err(Error::Configuration(msg)) => assert!(msg.contains(".correct_sentence")),
        _ => panic!("a missing splitter must be a configuration error"),
    }
}

#[test]
fn correct_rewrites_each_sentence_and_concatenates() {
    let tok = Arc::new(Tokenizer::new(analyzer(), Some(dot_splitter()), false));
    let rules = Rules::new(hypothetical_rules(), tok, Some(dot_splitter()));
    match rules.correct(one("a. bb.")) {
        Ok(OneOrMany::One(out)) => assert_eq!(out, "a. Xb."),
        _ => panic!("correct with a splitter must succeed on a scalar"),
    }
}

#[test]
fn correct_equals_concatenated_sentence_corrections() {
    let tok = Arc::new(Tokenizer::new(analyzer(), Some(dot_splitter()), false));
    let rules = Rules::new(hypothetical_rules(), tok, Some(dot_splitter()));
    let whole = match rules.correct(one("a. bb.")) {
        Ok(OneOrMany::One(out)) => out,
        _ => panic!("correct with a splitter must succeed on a scalar"),
    };
    let by_sentence = match rules.correct_sentence(many(&["a.", " bb."])) {
        OneOrMany::Many(parts) => parts.concat(),
        OneOrMany::One(_) => panic!("batch input must give a batch result"),
    };
    assert_eq!(whole, by_sentence);
}

#[test]
fn batch_operations_preserve_length_and_order() {
    let tok = Arc::new(Tokenizer::new(analyzer(), Some(dot_splitter()), false));
    let rules = Rules::new(hypothetical_rules(), tok, Some(dot_splitter()));
    match rules.correct(many(&["a. bb.", "untouched"])) {
        Ok(OneOrMany::Many(out)) => {
            assert_eq!(out, vec!["a. Xb.".to_string(), "untouched".to_string()]);
        },
        _ => panic!("correct with a splitter must succeed on a batch"),
    }
    match rules.suggest(many(&["x.", "a. bb."])) {
        Ok(OneOrMany::Many(out)) => {
            assert_eq!(out.len(), 2);
            assert!(out[0].is_empty());
            assert_eq!(out[1].len(), 1);
            assert_eq!(out[1][0].start(), 3);
        },
        _ => panic!("suggest with a splitter must succeed on a batch"),
    }
}

#[test]
fn a_malformed_rule_table_is_a_configuration_error() {
    // the span [1, 9) reaches beyond the four codepoints of the key
    let r = TableRules::new(vec![(
        " bb.".to_string(),
        vec![Suggestion::new(1, 9, vec!["X".to_string()])],
    )]);
    assert!(matches!(r, Err(Error::Configuration(_))));
    // a suggestion without replacements is malformed too
    let r = TableRules::new(vec![("a.".to_string(), vec![Suggestion::new(0, 1, vec![])])]);
    assert!(matches!(r, Err(Error::Configuration(_))));
}

#[test]
fn tokenize_mirrors_the_batch_shape() {
    let tok = Tokenizer::new(analyzer(), Some(dot_splitter()), false);
    match tok.tokenize(many(&["ab.", "c"])) {
        Ok(OneOrMany::Many(lists)) => {
            assert_eq!(lists.len(), 2);
            assert_eq!(lists[0].len(), 1);
            assert_eq!(lists[1].len(), 1);
        },
        _ => panic!("tokenize with a splitter must succeed on a batch"),
    }
}

#[test]
fn correcting_an_empty_text_yields_an_empty_text() {
    let tok = Arc::new(Tokenizer::new(analyzer(), Some(dot_splitter()), false));
    let rules = Rules::new(hypothetical_rules(), tok, Some(dot_splitter()));
    match rules.correct(one("")) {
        Ok(OneOrMany::One(out)) => assert_eq!(out, ""),
        _ => panic!("correct with a splitter must succeed on an empty scalar"),
    }
    match rules.suggest(one("")) {
        Ok(OneOrMany::One(suggestions)) => assert!(suggestions.is_empty()),
        _ => panic!("suggest with a splitter must succeed on an empty scalar"),
    }
}

#[test]
fn the_facade_version_is_exposed() {
    assert_eq!(nlprule::facade_version(), "0.1.0");
}
