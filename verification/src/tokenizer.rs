//! The tokenizer facade: it runs the analyzer over one sentence or, with a
//! sentence splitter configured, over every sentence of full texts, and
//! exposes the tagger's lookup surface.
use vstd::prelude::*;

use crate::dispatch::OneOrMany;
use crate::engine::Analyzer;
use crate::error::Error;
use crate::splitter::SentenceSplitter;
use crate::text::views_of;
use crate::token::{Token, TokenModel};

verus! {

/// The tokens of a document split into sentences: the per-sentence token
/// lists, concatenated in document order. Spans stay sentence-local; they are
/// deliberately not rebased, unlike suggestion spans.
pub open spec fn analyze_doc_spec<A: Analyzer>(a: A, sentences: Seq<Seq<char>>) -> Seq<TokenModel>
    decreases sentences.len(),
{
    if sentences.len() == 0 {
        Seq::empty()
    } else {
        a.analyze_spec(sentences[0]) + analyze_doc_spec(a, sentences.drop_first())
    }
}

/// The tagger's lookup surface: (lemma, POS) pairs and group members, with
/// the tokenizer's compound-split option passed through verbatim.
pub struct Tagger<'a, A: Analyzer> {
    pub engine: &'a A,
    pub compound_split_heuristic: bool,
}

impl<'a, A: Analyzer> Tagger<'a, A> {
    /// The (lemma, POS) pairs the tagger knows for `word`; the tokenizer's
    /// compound-split option is passed through verbatim.
    pub fn get_tags(&self, word: &str, add_lower: bool) -> (r: Vec<(String, String)>)
        ensures
            r@.len() == self.engine.tags_spec(
                word@,
                add_lower,
                self.compound_split_heuristic,
            ).len(),
            forall|i: int|
                0 <= i < r@.len() ==> (#[trigger] r@[i]).0@ == self.engine.tags_spec(
                    word@,
                    add_lower,
                    self.compound_split_heuristic,
                )[i].lemma && r@[i].1@ == self.engine.tags_spec(
                    word@,
                    add_lower,
                    self.compound_split_heuristic,
                )[i].pos,
    {
        let pairs = self.engine.get_tags(word, add_lower, self.compound_split_heuristic);
        let mut out: Vec<(String, String)> = Vec::new();
        let mut i: usize = 0;
        while i < pairs.len()
            invariant
                i <= pairs.len(),
                out@.len() == i,
                forall|k: int|
                    0 <= k < i ==> (#[trigger] out@[k]).0@ == pairs@[k]@.lemma && out@[k].1@
                        == pairs@[k]@.pos,
            decreases pairs.len() - i,
        {
            out.push((pairs[i].lemma.clone(), pairs[i].pos.clone()));
            i = i + 1;
        }
        out
    }

    /// The morphologically related surface forms of `word`.
    pub fn get_group_members(&self, word: &str) -> (r: Vec<String>)
        ensures
            views_of(r@) == self.engine.group_members_spec(word@),
    {
        self.engine.get_group_members(word)
    }
}

/// The tokenizer facade: an analyzer engine, an optional sentence splitter
/// for the full-text operation, and the engine's compound-split option.
/// Immutable once built; it performs no I/O.
pub struct Tokenizer<A: Analyzer, S: SentenceSplitter> {
    pub engine: A,
    pub sentence_splitter: Option<S>,
    pub compound_split_heuristic: bool,
}

impl<A: Analyzer, S: SentenceSplitter> Tokenizer<A, S> {
    /// Builds the facade around an engine.
    pub fn new(engine: A, sentence_splitter: Option<S>, compound_split_heuristic: bool) -> (r:
        Tokenizer<A, S>)
        ensures
            r.engine == engine,
            r.sentence_splitter == sentence_splitter,
            r.compound_split_heuristic == compound_split_heuristic,
    {
        Tokenizer { engine, sentence_splitter, compound_split_heuristic }
    }

    /// The tagger's lookup surface.
    pub fn tagger(&self) -> (t: Tagger<'_, A>)
        ensures
            *t.engine == self.engine,
            t.compound_split_heuristic == self.compound_split_heuristic,
    {
        Tagger { engine: &self.engine, compound_split_heuristic: self.compound_split_heuristic }
    }

    /// The finalized tokens of every sentence, concatenated in document
    /// order.
    fn analyze_sentences(&self, sentences: &Vec<String>) -> (r: Vec<Token>)
        ensures
            r.deep_view() == analyze_doc_spec(self.engine, views_of(sentences@)),
    {
        let ghost vs: Seq<Seq<char>> = views_of(sentences@);
        let mut out: Vec<Token> = Vec::new();
        let mut i: usize = 0;
        proof {
            assert(vs.skip(0) =~= vs);
            assert(out.deep_view() + analyze_doc_spec(self.engine, vs) =~= analyze_doc_spec(
                self.engine,
                vs,
            ));
        }
        while i < sentences.len()
            invariant
                i <= sentences.len(),
                vs == views_of(sentences@),
                vs.len() == sentences@.len(),
                out.deep_view() + analyze_doc_spec(self.engine, vs.skip(i as int))
                    == analyze_doc_spec(self.engine, vs),
            decreases sentences.len() - i,
        {
            let ghost before = out.deep_view();
            let mut toks = self.engine.analyze(sentences[i].as_str());
            out.append(&mut toks);
            proof {
                assert(vs.skip(i as int)[0] == vs[i as int]);
                assert(vs.skip(i as int).drop_first() =~= vs.skip(i as int + 1));
                assert(out.deep_view() =~= before + self.engine.analyze_spec(vs[i as int]));
                assert(out.deep_view() + analyze_doc_spec(self.engine, vs.skip(i as int + 1))
                    =~= before + analyze_doc_spec(self.engine, vs.skip(i as int)));
            }
            i = i + 1;
        }
        proof {
            assert(vs.skip(vs.len() as int) =~= Seq::<Seq<char>>::empty());
            assert(out.deep_view() + analyze_doc_spec(self.engine, vs.skip(vs.len() as int))
                =~= out.deep_view());
        }
        out
    }

    /// The sentence-scoped operation: tokenize, disambiguate and finalize one
    /// sentence, or each sentence of a batch; no splitter is involved. The
    /// result mirrors the shape of the input.
    pub fn tokenize_sentence(&self, input: OneOrMany<String>) -> (r: OneOrMany<Vec<Token>>)
        ensures
            input matches OneOrMany::One(t) ==> (r matches OneOrMany::One(toks)
                && toks.deep_view() == self.engine.analyze_spec(t@)),
            input matches OneOrMany::Many(ts) ==> (r matches OneOrMany::Many(out) && out@.len()
                == ts@.len() && forall|i: int|
                0 <= i < ts@.len() ==> (#[trigger] out@[i]).deep_view()
                    == self.engine.analyze_spec(ts@[i]@)),
    {
        match input {
            OneOrMany::One(t) => OneOrMany::One(self.engine.analyze(t.as_str())),
            OneOrMany::Many(ts) => {
                let mut out: Vec<Vec<Token>> = Vec::new();
                let mut i: usize = 0;
                while i < ts.len()
                    invariant
                        i <= ts.len(),
                        out@.len() == i,
                        forall|k: int|
                            0 <= k < i ==> (#[trigger] out@[k]).deep_view()
                                == self.engine.analyze_spec(ts@[k]@),
                    decreases ts.len() - i,
                {
                    out.push(self.engine.analyze(ts[i].as_str()));
                    i = i + 1;
                }
                OneOrMany::Many(out)
            },
        }
    }

    /// The full-text operation: split each text into sentences and finalize
    /// every sentence's tokens, concatenated in document order with
    /// sentence-local spans. A configured sentence splitter is required;
    /// without one the call fails, naming `.tokenize_sentence` as the
    /// sentence-scoped alternative. The result mirrors the shape of the
    /// input.
    pub fn tokenize(&self, input: OneOrMany<String>) -> (r: Result<OneOrMany<Vec<Token>>, Error>)
        ensures
            r is Err <==> self.sentence_splitter is None,
            r matches Err(e) ==> e is Configuration,
            self.sentence_splitter matches Some(sp) ==> {
                &&& input matches OneOrMany::One(t) ==> (r matches Ok(OneOrMany::One(toks))
                    && toks.deep_view() == analyze_doc_spec(self.engine, sp.split_spec(t@)))
                &&& input matches OneOrMany::Many(ts) ==> (r matches Ok(OneOrMany::Many(out))
                    && out@.len() == ts@.len() && forall|i: int|
                    0 <= i < ts@.len() ==> (#[trigger] out@[i]).deep_view() == analyze_doc_spec(
                        self.engine,
                        sp.split_spec(ts@[i]@),
                    ))
            },
    {
        match &self.sentence_splitter {
            None => Err(
                Error::Configuration(
                    "sentence_splitter must be set. Use .tokenize_sentence to correct one sentence."
                        .to_owned(),
                ),
            ),
            Some(splitter) => {
                match input {
                    OneOrMany::One(t) => {
                        let texts: Vec<String> = vec![t];
                        let mut split = splitter.split(&texts);
                        let sentences = split.remove(0);
                        proof {
                            assert(views_of(sentences@) == splitter.split_spec(texts@[0]@));
                        }
                        Ok(OneOrMany::One(self.analyze_sentences(&sentences)))
                    },
                    OneOrMany::Many(ts) => {
                        let split = splitter.split(&ts);
                        let mut out: Vec<Vec<Token>> = Vec::new();
                        let mut i: usize = 0;
                        while i < split.len()
                            invariant
                                i <= split.len(),
                                out@.len() == i,
                                split@.len() == ts@.len(),
                                forall|k: int|
                                    0 <= k < split@.len() ==> views_of(#[trigger] split@[k]@)
                                        == splitter.split_spec(ts@[k]@),
                                forall|k: int|
                                    0 <= k < i ==> (#[trigger] out@[k]).deep_view()
                                        == analyze_doc_spec(
                                        self.engine,
                                        splitter.split_spec(ts@[k]@),
                                    ),
                            decreases split.len() - i,
                        {
                            out.push(self.analyze_sentences(&split[i]));
                            i = i + 1;
                        }
                        Ok(OneOrMany::Many(out))
                    },
                }
            },
        }
    }
}

} // verus!
