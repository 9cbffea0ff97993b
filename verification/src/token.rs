//! Finalized lexical units: a token's surface text, its sentence-local
//! character span, its morphological (lemma, POS) pairs and its shallow-parse
//! chunk labels.
use vstd::prelude::*;

use crate::text::{insert_sorted_unique, strictly_sorted, views_of};

verus! {

/// One (lemma, part-of-speech) pair from morphological analysis.
pub struct TagPair {
    pub lemma: String,
    pub pos: String,
}

/// The mathematical value of a `TagPair`.
#[verifier::ext_equal]
pub ghost struct TagModel {
    pub lemma: Seq<char>,
    pub pos: Seq<char>,
}

impl View for TagPair {
    type V = TagModel;

    open spec fn view(&self) -> TagModel {
        TagModel { lemma: self.lemma@, pos: self.pos@ }
    }
}

impl DeepView for TagPair {
    type V = TagModel;

    open spec fn deep_view(&self) -> TagModel {
        self.view()
    }
}

/// A finalized lexical unit. `char_span` is a half-open codepoint range into
/// the sentence the token came from; spans are never rebased to document
/// coordinates.
pub struct Token {
    pub text: String,
    pub char_span: (usize, usize),
    pub tags: Vec<TagPair>,
    pub chunks: Vec<String>,
}

/// The mathematical value of a `Token`.
#[verifier::ext_equal]
pub ghost struct TokenModel {
    pub text: Seq<char>,
    pub start: nat,
    pub end: nat,
    pub tags: Seq<TagModel>,
    pub chunks: Seq<Seq<char>>,
}

impl View for Token {
    type V = TokenModel;

    open spec fn view(&self) -> TokenModel {
        TokenModel {
            text: self.text@,
            start: self.char_span.0 as nat,
            end: self.char_span.1 as nat,
            tags: self.tags@.map_values(|t: TagPair| t@),
            chunks: views_of(self.chunks@),
        }
    }
}

impl DeepView for Token {
    type V = TokenModel;

    open spec fn deep_view(&self) -> TokenModel {
        self.view()
    }
}

/// A token is well formed for a sentence of `n` codepoints when its span is a
/// half-open range inside the sentence.
pub open spec fn token_wf(t: TokenModel, n: nat) -> bool {
    t.start <= t.end && t.end <= n
}

/// Tokens of one sentence are well formed and their spans are non-decreasing
/// in `start`, in reading order.
pub open spec fn tokens_wf(ts: Seq<TokenModel>, n: nat) -> bool {
    &&& forall|i: int| 0 <= i < ts.len() ==> token_wf(#[trigger] ts[i], n)
    &&& forall|i: int| 0 <= i < ts.len() - 1 ==> (#[trigger] ts[i].start) <= ts[i + 1].start
}

impl Token {
    /// Builds a token from its parts.
    pub fn new(text: String, char_span: (usize, usize), tags: Vec<TagPair>, chunks: Vec<String>)
        -> (t: Token)
        ensures
            t@.text == text@,
            t@.start == char_span.0 as nat,
            t@.end == char_span.1 as nat,
            t@.tags == tags@.map_values(|p: TagPair| p@),
            t@.chunks == views_of(chunks@),
    {
        Token { text, char_span, tags, chunks }
    }

    /// The surface word.
    pub fn text(&self) -> (r: &str)
        ensures
            r@ == self@.text,
    {
        self.text.as_str()
    }

    /// The half-open codepoint span into the sentence the token came from.
    pub fn span(&self) -> (r: (usize, usize))
        ensures
            r.0 as nat == self@.start,
            r.1 as nat == self@.end,
    {
        (self.char_span.0, self.char_span.1)
    }

    /// The raw (lemma, POS) pairs, duplicates preserved.
    pub fn data(&self) -> (r: Vec<(String, String)>)
        ensures
            r@.len() == self@.tags.len(),
            forall|i: int|
                0 <= i < r@.len() ==> (#[trigger] r@[i]).0@ == self@.tags[i].lemma && r@[i].1@
                    == self@.tags[i].pos,
    {
        let mut out: Vec<(String, String)> = Vec::new();
        let mut i: usize = 0;
        while i < self.tags.len()
            invariant
                i <= self.tags.len(),
                out@.len() == i,
                forall|k: int|
                    0 <= k < i ==> (#[trigger] out@[k]).0@ == self@.tags[k].lemma && out@[k].1@
                        == self@.tags[k].pos,
            decreases self.tags.len() - i,
        {
            out.push((self.tags[i].lemma.clone(), self.tags[i].pos.clone()));
            i = i + 1;
        }
        out
    }

    /// The distinct non-empty lemmas among the tags, in ascending
    /// lexicographic order.
    pub fn lemmas(&self) -> (r: Vec<String>)
        ensures
            strictly_sorted(views_of(r@)),
            forall|s: Seq<char>|
                views_of(r@).contains(s) <==> (s.len() > 0 && exists|j: int|
                    0 <= j < self@.tags.len() && (#[trigger] self@.tags[j]).lemma == s),
    {
        let mut out: Vec<String> = Vec::new();
        let mut i: usize = 0;
        while i < self.tags.len()
            invariant
                i <= self.tags.len(),
                strictly_sorted(views_of(out@)),
                forall|s: Seq<char>|
                    views_of(out@).contains(s) <==> (s.len() > 0 && exists|j: int|
                        0 <= j < i && (#[trigger] self@.tags[j]).lemma == s),
            decreases self.tags.len() - i,
        {
            let lm: &String = &self.tags[i].lemma;
            if !lm.as_str().is_empty() {
                insert_sorted_unique(&mut out, lm.as_str());
            }
            proof {
                assert(self@.tags[i as int].lemma == self.tags@[i as int].lemma@);
            }
            i = i + 1;
        }
        out
    }

    /// The distinct non-empty POS labels among the tags, in ascending
    /// lexicographic order.
    pub fn tags(&self) -> (r: Vec<String>)
        ensures
            strictly_sorted(views_of(r@)),
            forall|s: Seq<char>|
                views_of(r@).contains(s) <==> (s.len() > 0 && exists|j: int|
                    0 <= j < self@.tags.len() && (#[trigger] self@.tags[j]).pos == s),
    {
        let mut out: Vec<String> = Vec::new();
        let mut i: usize = 0;
        while i < self.tags.len()
            invariant
                i <= self.tags.len(),
                strictly_sorted(views_of(out@)),
                forall|s: Seq<char>|
                    views_of(out@).contains(s) <==> (s.len() > 0 && exists|j: int|
                        0 <= j < i && (#[trigger] self@.tags[j]).pos == s),
            decreases self.tags.len() - i,
        {
            let ps: &String = &self.tags[i].pos;
            if !ps.as_str().is_empty() {
                insert_sorted_unique(&mut out, ps.as_str());
            }
            proof {
                assert(self@.tags[i as int].pos == self.tags@[i as int].pos@);
            }
            i = i + 1;
        }
        out
    }

    /// The ordered shallow-parse chunk labels.
    pub fn chunks(&self) -> (r: Vec<String>)
        ensures
            views_of(r@) == self@.chunks,
    {
        let mut out: Vec<String> = Vec::new();
        let mut i: usize = 0;
        while i < self.chunks.len()
            invariant
                i <= self.chunks.len(),
                out@.len() == i,
                forall|k: int| 0 <= k < i ==> (#[trigger] out@[k])@ == self.chunks@[k]@,
            decreases self.chunks.len() - i,
        {
            out.push(self.chunks[i].clone());
            i = i + 1;
        }
        proof {
            assert(views_of(out@) =~= self@.chunks);
        }
        out
    }
}

} // verus!
