//! Span-anchored correction proposals.
use vstd::prelude::*;

use crate::text::views_of;

verus! {

/// A correction proposal: a half-open codepoint span and a non-empty ordered
/// list of candidate replacements, best first. Offsets are sentence-local
/// when emitted by the sentence API and document-global after rebasing by the
/// full-text API.
pub struct Suggestion {
    pub start: usize,
    pub end: usize,
    pub text: Vec<String>,
}

/// The mathematical value of a `Suggestion`.
#[verifier::ext_equal]
pub ghost struct SuggestionModel {
    pub start: nat,
    pub end: nat,
    pub text: Seq<Seq<char>>,
}

impl View for Suggestion {
    type V = SuggestionModel;

    open spec fn view(&self) -> SuggestionModel {
        SuggestionModel {
            start: self.start as nat,
            end: self.end as nat,
            text: views_of(self.text@),
        }
    }
}

impl DeepView for Suggestion {
    type V = SuggestionModel;

    open spec fn deep_view(&self) -> SuggestionModel {
        self.view()
    }
}

/// A suggestion is well formed for a sentence of `n` codepoints when its span
/// is a half-open range inside the sentence and it offers at least one
/// replacement.
pub open spec fn suggestion_wf(s: SuggestionModel, n: nat) -> bool {
    s.start <= s.end && s.end <= n && s.text.len() > 0
}

/// Suggestions of one sentence are well formed and pairwise non-overlapping,
/// in ascending span order.
pub open spec fn suggestions_wf(ss: Seq<SuggestionModel>, n: nat) -> bool {
    &&& forall|i: int| 0 <= i < ss.len() ==> suggestion_wf(#[trigger] ss[i], n)
    &&& forall|i: int| 0 <= i < ss.len() - 1 ==> (#[trigger] ss[i].end) <= ss[i + 1].start
}

impl Suggestion {
    /// Builds a suggestion from its parts.
    pub fn new(start: usize, end: usize, text: Vec<String>) -> (s: Suggestion)
        ensures
            s@.start == start as nat,
            s@.end == end as nat,
            s@.text == views_of(text@),
    {
        Suggestion { start, end, text }
    }

    /// The span's inclusive lower bound.
    pub fn start(&self) -> (r: usize)
        ensures
            r as nat == self@.start,
    {
        self.start
    }

    /// The span's exclusive upper bound.
    pub fn end(&self) -> (r: usize)
        ensures
            r as nat == self@.end,
    {
        self.end
    }

    /// Copies the suggestion, value for value.
    pub fn duplicate(&self) -> (r: Suggestion)
        ensures
            r@ == self@,
    {
        let r = Suggestion::new(self.start, self.end, self.text());
        proof {
            assert(r@ =~~= self@);
        }
        r
    }

    /// The candidate replacements, best first.
    pub fn text(&self) -> (r: Vec<String>)
        ensures
            views_of(r@) == self@.text,
    {
        let mut out: Vec<String> = Vec::new();
        let mut i: usize = 0;
        while i < self.text.len()
            invariant
                i <= self.text.len(),
                out@.len() == i,
                forall|k: int| 0 <= k < i ==> (#[trigger] out@[k])@ == self.text@[k]@,
            decreases self.text.len() - i,
        {
            out.push(self.text[i].clone());
            i = i + 1;
        }
        proof {
            assert(views_of(out@) =~= self@.text);
        }
        out
    }
}

} // verus!
