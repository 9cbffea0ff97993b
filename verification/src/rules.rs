//! The rules facade: it applies the rule engine to finalized tokens to
//! produce suggestions, sentence-scoped or document-global, and rewrites
//! texts by their suggestions.
use vstd::prelude::*;

use std::sync::Arc;

use crate::correct::{apply_suggestions, correct_spec};
use crate::dispatch::OneOrMany;
use crate::engine::{Analyzer, RuleEngine};
use crate::error::Error;
use crate::rebase::{bump, bump_all, lemma_rebase_monotone, rebase_from, rebase_spec};
use crate::splitter::SentenceSplitter;
use crate::suggestion::{suggestions_wf, Suggestion, SuggestionModel};
use crate::text::{char_total, concat_texts, views_of};
use crate::tokenizer::Tokenizer;

verus! {

/// The suggestions of one sentence: the rule engine applied to the analyzer's
/// finalized tokens.
pub open spec fn suggest_one_spec<R: RuleEngine, A: Analyzer>(r: R, a: A, s: Seq<char>) -> Seq<
    SuggestionModel,
> {
    r.apply_spec(a.analyze_spec(s), s)
}

/// The per-sentence suggestion lists of a document.
pub open spec fn suggest_lists_spec<R: RuleEngine, A: Analyzer>(
    r: R,
    a: A,
    sentences: Seq<Seq<char>>,
) -> Seq<Seq<SuggestionModel>> {
    sentences.map_values(|s: Seq<char>| suggest_one_spec(r, a, s))
}

/// The document-global suggestions of a document: the per-sentence lists,
/// each rebased by the codepoint count of the sentences before it, in
/// document order.
pub open spec fn suggest_doc_spec<R: RuleEngine, A: Analyzer>(
    r: R,
    a: A,
    sentences: Seq<Seq<char>>,
) -> Seq<SuggestionModel> {
    rebase_spec(suggest_lists_spec(r, a, sentences), sentences)
}

/// One sentence rewritten by its suggestions.
pub open spec fn correct_one_spec<R: RuleEngine, A: Analyzer>(r: R, a: A, s: Seq<char>) -> Seq<
    char,
> {
    correct_spec(s, suggest_one_spec(r, a, s))
}

/// A document rewritten sentence by sentence, the rewritten sentences
/// concatenated with no separator.
pub open spec fn correct_doc_spec<R: RuleEngine, A: Analyzer>(
    r: R,
    a: A,
    sentences: Seq<Seq<char>>,
) -> Seq<char>
    decreases sentences.len(),
{
    if sentences.len() == 0 {
        Seq::empty()
    } else {
        correct_one_spec(r, a, sentences[0]) + correct_doc_spec(r, a, sentences.drop_first())
    }
}

/// Full text is the concatenation of its corrected sentences: rewriting a
/// document equals rewriting each of its sentences and concatenating the
/// results in order.
pub proof fn lemma_correct_full_text_concat<R: RuleEngine, A: Analyzer>(
    r: R,
    a: A,
    sentences: Seq<Seq<char>>,
)
    ensures
        correct_doc_spec(r, a, sentences) == concat_texts(
            sentences.map_values(|s: Seq<char>| correct_one_spec(r, a, s)),
        ),
    decreases sentences.len(),
{
    let mapped = sentences.map_values(|s: Seq<char>| correct_one_spec(r, a, s));
    if sentences.len() == 0 {
        assert(mapped =~= Seq::<Seq<char>>::empty());
    } else {
        lemma_correct_full_text_concat(r, a, sentences.drop_first());
        assert(mapped.drop_first() =~= sentences.drop_first().map_values(
            |s: Seq<char>| correct_one_spec(r, a, s),
        ));
        assert(mapped[0] == correct_one_spec(r, a, sentences[0]));
    }
}

/// The rules facade: a rule engine bound to a shared tokenizer, plus an
/// optional sentence splitter for the full-text operations. Immutable once
/// built; it performs no I/O.
pub struct Rules<R: RuleEngine, A: Analyzer, S: SentenceSplitter> {
    pub rules: R,
    pub tokenizer: Arc<Tokenizer<A, S>>,
    pub sentence_splitter: Option<S>,
}

impl<R: RuleEngine, A: Analyzer, S: SentenceSplitter> Rules<R, A, S> {
    /// Builds the facade around a rule engine and a shared tokenizer.
    pub fn new(rules: R, tokenizer: Arc<Tokenizer<A, S>>, sentence_splitter: Option<S>) -> (r:
        Rules<R, A, S>)
        ensures
            r.rules == rules,
            r.tokenizer == tokenizer,
            r.sentence_splitter == sentence_splitter,
    {
        Rules { rules, tokenizer, sentence_splitter }
    }

    /// The suggestions of one sentence, spans sentence-local.
    fn suggest_in_sentence(&self, sentence: &str) -> (r: Vec<Suggestion>)
        ensures
            r.deep_view() == suggest_one_spec(self.rules, self.tokenizer.engine, sentence@),
            suggestions_wf(r.deep_view(), sentence@.len()),
    {
        let tokens = self.tokenizer.engine.analyze(sentence);
        self.rules.apply(&tokens, sentence)
    }

    /// The sentence-scoped suggesting operation: the rule engine applied to
    /// one sentence, or to each sentence of a batch, spans sentence-local.
    /// The result mirrors the shape of the input.
    pub fn suggest_sentence(&self, input: OneOrMany<String>) -> (r: OneOrMany<Vec<Suggestion>>)
        ensures
            input matches OneOrMany::One(t) ==> (r matches OneOrMany::One(out) && out.deep_view()
                == suggest_one_spec(self.rules, self.tokenizer.engine, t@)),
            input matches OneOrMany::Many(ts) ==> (r matches OneOrMany::Many(out) && out@.len()
                == ts@.len() && forall|i: int|
                0 <= i < ts@.len() ==> (#[trigger] out@[i]).deep_view() == suggest_one_spec(
                    self.rules,
                    self.tokenizer.engine,
                    ts@[i]@,
                )),
    {
        match input {
            OneOrMany::One(t) => OneOrMany::One(self.suggest_in_sentence(t.as_str())),
            OneOrMany::Many(ts) => {
                let mut out: Vec<Vec<Suggestion>> = Vec::new();
                let mut i: usize = 0;
                while i < ts.len()
                    invariant
                        i <= ts.len(),
                        out@.len() == i,
                        forall|k: int|
                            0 <= k < i ==> (#[trigger] out@[k]).deep_view() == suggest_one_spec(
                                self.rules,
                                self.tokenizer.engine,
                                ts@[k]@,
                            ),
                    decreases ts.len() - i,
                {
                    out.push(self.suggest_in_sentence(ts[i].as_str()));
                    i = i + 1;
                }
                OneOrMany::Many(out)
            },
        }
    }

    /// The document-global suggestions of one text split into sentences: each
    /// sentence's suggestions rebased by the codepoint count of the sentences
    /// before it, in document order; starts are non-decreasing and every span
    /// is ordered.
    fn suggest_in_text(&self, sentences: &Vec<String>) -> (r: Vec<Suggestion>)
        requires
            char_total(views_of(sentences@)) <= usize::MAX,
        ensures
            r.deep_view() == suggest_doc_spec(
                self.rules,
                self.tokenizer.engine,
                views_of(sentences@),
            ),
            forall|k: int|
                0 <= k < r.deep_view().len() ==> (#[trigger] r.deep_view()[k]).start
                    <= r.deep_view()[k].end,
            forall|k: int|
                0 <= k < r.deep_view().len() - 1 ==> (#[trigger] r.deep_view()[k]).start
                    <= r.deep_view()[k + 1].start,
    {
        let ghost vs: Seq<Seq<char>> = views_of(sentences@);
        let eng: &A = &self.tokenizer.engine;
        let ghost lists: Seq<Seq<SuggestionModel>> = suggest_lists_spec(self.rules, *eng, vs);
        let mut out: Vec<Suggestion> = Vec::new();
        let mut off: usize = 0;
        let mut i: usize = 0;
        proof {
            assert(vs.skip(0) =~= vs);
            assert(lists.skip(0) =~= lists);
            assert(vs.take(0) =~= Seq::<Seq<char>>::empty());
            assert(out.deep_view() + rebase_from(lists, vs, 0) =~= rebase_spec(lists, vs));
        }
        while i < sentences.len()
            invariant
                i <= sentences.len(),
                vs == views_of(sentences@),
                lists == suggest_lists_spec(self.rules, self.tokenizer.engine, vs),
                vs.len() == sentences@.len(),
                lists.len() == vs.len(),
                off as nat + char_total(vs.skip(i as int)) == char_total(vs),
                char_total(vs) <= usize::MAX,
                out.deep_view() + rebase_from(lists.skip(i as int), vs.skip(i as int), off as nat)
                    == rebase_spec(lists, vs),
                forall|k: int| 0 <= k < i ==> suggestions_wf(#[trigger] lists[k], vs[k].len()),
            decreases sentences.len() - i,
        {
            let ghost before = out.deep_view();
            let suggs = self.suggest_in_sentence(sentences[i].as_str());
            let slen: usize = sentences[i].as_str().unicode_len();
            proof {
                assert(suggs.deep_view() == lists[i as int]);
                assert(vs.skip(i as int)[0] == vs[i as int]);
                assert(lists.skip(i as int)[0] == lists[i as int]);
                assert(vs.skip(i as int).drop_first() =~= vs.skip(i as int + 1));
                assert(lists.skip(i as int).drop_first() =~= lists.skip(i as int + 1));
                assert(char_total(vs.skip(i as int)) == vs[i as int].len() + char_total(
                    vs.skip(i as int + 1),
                ));
                assert(suggestions_wf(lists[i as int], vs[i as int].len()));
            }
            let mut j: usize = 0;
            while j < suggs.len()
                invariant
                    j <= suggs.len(),
                    suggs.deep_view() == lists[i as int],
                    suggs.deep_view().len() == suggs@.len(),
                    0 <= i < lists.len(),
                    suggestions_wf(lists[i as int], vs[i as int].len()),
                    off as nat + vs[i as int].len() <= usize::MAX,
                    slen as nat == vs[i as int].len(),
                    out@.len() == before.len() + j,
                    out.deep_view() == before + bump_all(lists[i as int], off as nat).take(
                        j as int,
                    ),
                decreases suggs.len() - j,
            {
                let s = &suggs[j];
                proof {
                    assert(s@ == lists[i as int][j as int]);
                    assert(s@.start <= s@.end <= vs[i as int].len());
                }
                let ghost pre: Seq<SuggestionModel> = out.deep_view();
                out.push(Suggestion::new(s.start + off, s.end + off, s.text()));
                proof {
                    let bumped = bump_all(lists[i as int], off as nat);
                    assert(bumped[j as int] == bump(lists[i as int][j as int], off as nat));
                    assert(out@[out@.len() - 1]@ =~~= bump(lists[i as int][j as int], off as nat));
                    assert(out.deep_view() =~= pre.push(bump(lists[i as int][j as int], off as nat)));
                    assert(bumped.take(j as int + 1) =~= bumped.take(j as int).push(
                        bump(lists[i as int][j as int], off as nat),
                    ));
                    assert(out.deep_view() =~= before + bumped.take(j as int + 1));
                }
                j = j + 1;
            }
            proof {
                assert(bump_all(lists[i as int], off as nat).take(suggs@.len() as int)
                    =~= bump_all(lists[i as int], off as nat));
                assert(out.deep_view() + rebase_from(
                    lists.skip(i as int + 1),
                    vs.skip(i as int + 1),
                    off as nat + vs[i as int].len(),
                ) =~= before + rebase_from(lists.skip(i as int), vs.skip(i as int), off as nat));
            }
            off = off + slen;
            i = i + 1;
        }
        proof {
            assert(vs.skip(vs.len() as int) =~= Seq::<Seq<char>>::empty());
            assert(lists.skip(lists.len() as int) =~= Seq::<Seq<SuggestionModel>>::empty());
            assert(out.deep_view() + rebase_from(
                lists.skip(lists.len() as int),
                vs.skip(vs.len() as int),
                off as nat,
            ) =~= out.deep_view());
            lemma_rebase_monotone(lists, vs, 0);
        }
        out
    }

    /// The full-text suggesting operation: split each text, apply the rules
    /// to every sentence, and rebase each suggestion into document-global
    /// codepoint coordinates. Starts are non-decreasing and every span is
    /// ordered. A configured sentence splitter is required; without one the
    /// call fails, naming `.suggest_sentence` as the sentence-scoped
    /// alternative. The result mirrors the shape of the input.
    pub fn suggest(&self, input: OneOrMany<String>) -> (r: Result<
        OneOrMany<Vec<Suggestion>>,
        Error,
    >)
        ensures
            r is Err <==> self.sentence_splitter is None,
            r matches Err(e) ==> e is Configuration,
            self.sentence_splitter matches Some(sp) ==> {
                &&& input matches OneOrMany::One(t) ==> (r matches Ok(OneOrMany::One(out))
                    && out.deep_view() == suggest_doc_spec(
                    self.rules,
                    self.tokenizer.engine,
                    sp.split_spec(t@),
                ) && (forall|k: int|
                    0 <= k < out.deep_view().len() ==> (#[trigger] out.deep_view()[k]).start
                        <= out.deep_view()[k].end) && (forall|k: int|
                    0 <= k < out.deep_view().len() - 1 ==> (#[trigger] out.deep_view()[k]).start
                        <= out.deep_view()[k + 1].start))
                &&& input matches OneOrMany::Many(ts) ==> (r matches Ok(OneOrMany::Many(out))
                    && out@.len() == ts@.len() && (forall|i: int|
                    0 <= i < ts@.len() ==> (#[trigger] out@[i]).deep_view() == suggest_doc_spec(
                        self.rules,
                        self.tokenizer.engine,
                        sp.split_spec(ts@[i]@),
                    )) && (forall|i: int, k: int|
                    0 <= i < out@.len() && 0 <= k < (#[trigger] out@[i]).deep_view().len() ==> (
                    #[trigger] out@[i].deep_view()[k]).start <= out@[i].deep_view()[k].end)
                    && (forall|i: int, k: int|
                    0 <= i < out@.len() && 0 <= k < (#[trigger] out@[i]).deep_view().len() - 1
                        ==> (#[trigger] out@[i].deep_view()[k]).start <= out@[i].deep_view()[k
                        + 1].start))
            },
    {
        match &self.sentence_splitter {
            None => Err(
                Error::Configuration(
                    "sentence_splitter must be set. Use .suggest_sentence to correct one sentence."
                        .to_owned(),
                ),
            ),
            Some(splitter) => {
                match input {
                    OneOrMany::One(t) => {
                        let texts: Vec<String> = vec![t];
                        let mut split = splitter.split(&texts);
                        let sentences = split.remove(0);
                        proof {
                            assert(views_of(sentences@) == splitter.split_spec(texts@[0]@));
                        }
                        Ok(OneOrMany::One(self.suggest_in_text(&sentences)))
                    },
                    OneOrMany::Many(ts) => {
                        let split = splitter.split(&ts);
                        let mut out: Vec<Vec<Suggestion>> = Vec::new();
                        let mut i: usize = 0;
                        while i < split.len()
                            invariant
                                i <= split.len(),
                                out@.len() == i,
                                split@.len() == ts@.len(),
                                forall|k: int|
                                    0 <= k < split@.len() ==> views_of(#[trigger] split@[k]@)
                                        == splitter.split_spec(ts@[k]@),
                                forall|k: int|
                                    0 <= k < split@.len() ==> char_total(
                                        splitter.split_spec(#[trigger] ts@[k]@),
                                    ) <= usize::MAX,
                                forall|k: int|
                                    0 <= k < i ==> (#[trigger] out@[k]).deep_view()
                                        == suggest_doc_spec(
                                        self.rules,
                                        self.tokenizer.engine,
                                        splitter.split_spec(ts@[k]@),
                                    ),
                                forall|k: int, m: int|
                                    0 <= k < i && 0 <= m < (#[trigger] out@[k]).deep_view().len()
                                        ==> (#[trigger] out@[k].deep_view()[m]).start
                                        <= out@[k].deep_view()[m].end,
                                forall|k: int, m: int|
                                    0 <= k < i && 0 <= m < (#[trigger] out@[k]).deep_view().len()
                                        - 1 ==> (#[trigger] out@[k].deep_view()[m]).start
                                        <= out@[k].deep_view()[m + 1].start,
                            decreases split.len() - i,
                        {
                            out.push(self.suggest_in_text(&split[i]));
                            i = i + 1;
                        }
                        Ok(OneOrMany::Many(out))
                    },
                }
            },
        }
    }

    /// One sentence rewritten by its suggestions.
    fn correct_in_sentence(&self, sentence: &str) -> (r: String)
        ensures
            r@ == correct_one_spec(self.rules, self.tokenizer.engine, sentence@),
    {
        let suggestions = self.suggest_in_sentence(sentence);
        apply_suggestions(sentence, &suggestions)
    }

    /// The sentence-scoped correcting operation: one sentence, or each
    /// sentence of a batch, rewritten by replacing every suggested span with
    /// its first (best) replacement. A sentence with no suggestions is
    /// returned unchanged. The result mirrors the shape of the input.
    pub fn correct_sentence(&self, input: OneOrMany<String>) -> (r: OneOrMany<String>)
        ensures
            input matches OneOrMany::One(t) ==> (r matches OneOrMany::One(out) && out@
                == correct_one_spec(self.rules, self.tokenizer.engine, t@)),
            input matches OneOrMany::Many(ts) ==> (r matches OneOrMany::Many(out) && out@.len()
                == ts@.len() && forall|i: int|
                0 <= i < ts@.len() ==> (#[trigger] out@[i])@ == correct_one_spec(
                    self.rules,
                    self.tokenizer.engine,
                    ts@[i]@,
                )),
    {
        match input {
            OneOrMany::One(t) => OneOrMany::One(self.correct_in_sentence(t.as_str())),
            OneOrMany::Many(ts) => {
                let mut out: Vec<String> = Vec::new();
                let mut i: usize = 0;
                while i < ts.len()
                    invariant
                        i <= ts.len(),
                        out@.len() == i,
                        forall|k: int|
                            0 <= k < i ==> (#[trigger] out@[k])@ == correct_one_spec(
                                self.rules,
                                self.tokenizer.engine,
                                ts@[k]@,
                            ),
                    decreases ts.len() - i,
                {
                    out.push(self.correct_in_sentence(ts[i].as_str()));
                    i = i + 1;
                }
                OneOrMany::Many(out)
            },
        }
    }

    /// One text rewritten sentence by sentence, the rewritten sentences
    /// concatenated with no separator.
    fn correct_in_text(&self, sentences: &Vec<String>) -> (r: String)
        ensures
            r@ == correct_doc_spec(self.rules, self.tokenizer.engine, views_of(sentences@)),
    {
        let ghost vs: Seq<Seq<char>> = views_of(sentences@);
        let mut out = String::new();
        let mut i: usize = 0;
        proof {
            assert(vs.skip(0) =~= vs);
        }
        while i < sentences.len()
            invariant
                i <= sentences.len(),
                vs == views_of(sentences@),
                vs.len() == sentences@.len(),
                out@ + correct_doc_spec(self.rules, self.tokenizer.engine, vs.skip(i as int))
                    == correct_doc_spec(self.rules, self.tokenizer.engine, vs),
            decreases sentences.len() - i,
        {
            let ghost before = out@;
            let corrected = self.correct_in_sentence(sentences[i].as_str());
            out.append(corrected.as_str());
            proof {
                assert(vs.skip(i as int)[0] == vs[i as int]);
                assert(vs.skip(i as int).drop_first() =~= vs.skip(i as int + 1));
                assert(out@ + correct_doc_spec(
                    self.rules,
                    self.tokenizer.engine,
                    vs.skip(i as int + 1),
                ) =~= before + correct_doc_spec(
                    self.rules,
                    self.tokenizer.engine,
                    vs.skip(i as int),
                ));
            }
            i = i + 1;
        }
        proof {
            assert(vs.skip(vs.len() as int) =~= Seq::<Seq<char>>::empty());
            assert(out@ + correct_doc_spec(
                self.rules,
                self.tokenizer.engine,
                vs.skip(vs.len() as int),
            ) =~= out@);
        }
        out
    }

    /// The full-text correcting operation: split each text, rewrite every
    /// sentence by its suggestions, and concatenate the rewritten sentences
    /// with no separator. A configured sentence splitter is required; without
    /// one the call fails, naming `.correct_sentence` as the sentence-scoped
    /// alternative. The result mirrors the shape of the input.
    pub fn correct(&self, input: OneOrMany<String>) -> (r: Result<OneOrMany<String>, Error>)
        ensures
            r is Err <==> self.sentence_splitter is None,
            r matches Err(e) ==> e is Configuration,
            self.sentence_splitter matches Some(sp) ==> {
                &&& input matches OneOrMany::One(t) ==> (r matches Ok(OneOrMany::One(out)) && out@
                    == correct_doc_spec(self.rules, self.tokenizer.engine, sp.split_spec(t@)))
                &&& input matches OneOrMany::Many(ts) ==> (r matches Ok(OneOrMany::Many(out))
                    && out@.len() == ts@.len() && forall|i: int|
                    0 <= i < ts@.len() ==> (#[trigger] out@[i])@ == correct_doc_spec(
                        self.rules,
                        self.tokenizer.engine,
                        sp.split_spec(ts@[i]@),
                    ))
            },
    {
        match &self.sentence_splitter {
            None => Err(
                Error::Configuration(
                    "sentence_splitter must be set. Use .correct_sentence to correct one sentence."
                        .to_owned(),
                ),
            ),
            Some(splitter) => {
                match input {
                    OneOrMany::One(t) => {
                        let texts: Vec<String> = vec![t];
                        let mut split = splitter.split(&texts);
                        let sentences = split.remove(0);
                        proof {
                            assert(views_of(sentences@) == splitter.split_spec(texts@[0]@));
                        }
                        Ok(OneOrMany::One(self.correct_in_text(&sentences)))
                    },
                    OneOrMany::Many(ts) => {
                        let split = splitter.split(&ts);
                        let mut out: Vec<String> = Vec::new();
                        let mut i: usize = 0;
                        while i < split.len()
                            invariant
                                i <= split.len(),
                                out@.len() == i,
                                split@.len() == ts@.len(),
                                forall|k: int|
                                    0 <= k < split@.len() ==> views_of(#[trigger] split@[k]@)
                                        == splitter.split_spec(ts@[k]@),
                                forall|k: int|
                                    0 <= k < i ==> (#[trigger] out@[k])@ == correct_doc_spec(
                                        self.rules,
                                        self.tokenizer.engine,
                                        splitter.split_spec(ts@[k]@),
                                    ),
                            decreases split.len() - i,
                        {
                            out.push(self.correct_in_text(&split[i]));
                            i = i + 1;
                        }
                        Ok(OneOrMany::Many(out))
                    },
                }
            },
        }
    }
}

} // verus!
