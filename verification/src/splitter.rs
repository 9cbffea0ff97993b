//! Sentence splitting: the splitter capability the full-text operations
//! require, and the trivial split-on-character implementation.
use vstd::prelude::*;

use crate::error::Error;
use crate::text::{char_total, concat_texts, lemma_char_total_is_concat_len, views_of};

verus! {

/// The splitter capability: given texts, each is divided into sentences.
///
/// An implementation fixes its behaviour as the spec-level function
/// `split_spec`; the executable `split` must return exactly that, one
/// sentence list per input text. Nothing here obliges a splitter to put the
/// sentences back together into the text (see
/// `lemma_split_on_round_trip` for the built-in one, which does); a splitter
/// that does not loses the document-offset guarantees of the full-text
/// operations, as documented there.
pub trait SentenceSplitter {
    /// The sentences this splitter produces for one text.
    spec fn split_spec(&self, text: Seq<char>) -> Seq<Seq<char>>;

    /// Splits each text into its sentences.
    fn split(&self, texts: &Vec<String>) -> (r: Vec<Vec<String>>)
        ensures
            r@.len() == texts@.len(),
            forall|i: int|
                0 <= i < r@.len() ==> views_of(#[trigger] r@[i]@) == self.split_spec(
                    texts@[i]@,
                ),
            forall|i: int|
                0 <= i < r@.len() ==> char_total(self.split_spec(#[trigger] texts@[i]@))
                    <= usize::MAX,
    ;
}

/// One scan step of the trivial splitter: the sentences found from position
/// `i` on, with `last` the position right after the previous sentence end.
pub open spec fn split_on_go(cs: Seq<char>, t: Seq<char>, i: nat, last: nat) -> Seq<Seq<char>>
    recommends
        last <= i <= t.len(),
    decreases t.len() - i,
{
    if i >= t.len() {
        if last < t.len() {
            seq![t.subrange(last as int, t.len() as int)]
        } else {
            Seq::empty()
        }
    } else if cs.contains(t[i as int]) {
        seq![t.subrange(last as int, i as int + 1)] + split_on_go(cs, t, i + 1, i + 1)
    } else {
        split_on_go(cs, t, i + 1, last)
    }
}

/// What the trivial splitter returns for a text: a sentence ends right after
/// each splitter codepoint, and a trailing remainder is kept.
pub open spec fn split_on_spec(cs: Seq<char>, t: Seq<char>) -> Seq<Seq<char>> {
    split_on_go(cs, t, 0, 0)
}

proof fn lemma_split_on_go_concat(cs: Seq<char>, t: Seq<char>, i: nat, last: nat)
    requires
        last <= i <= t.len(),
    ensures
        concat_texts(split_on_go(cs, t, i, last)) == t.subrange(last as int, t.len() as int),
    decreases t.len() - i,
{
    let tail = t.subrange(last as int, t.len() as int);
    if i >= t.len() {
        if last < t.len() {
            let one = seq![tail];
            assert(one.drop_first() =~= Seq::<Seq<char>>::empty());
            assert(concat_texts(one.drop_first()) == Seq::<char>::empty());
            assert(concat_texts(one) =~= tail);
        } else {
            assert(concat_texts(Seq::<Seq<char>>::empty()) =~= tail);
        }
    } else if cs.contains(t[i as int]) {
        lemma_split_on_go_concat(cs, t, i + 1, i + 1);
        let head = t.subrange(last as int, i as int + 1);
        let rest = split_on_go(cs, t, i + 1, i + 1);
        assert((seq![head] + rest).drop_first() =~= rest);
        assert((seq![head] + rest)[0] == head);
        assert(concat_texts(seq![head] + rest) =~= head + concat_texts(rest));
        assert(head + t.subrange(i as int + 1, t.len() as int) =~= tail);
    } else {
        lemma_split_on_go_concat(cs, t, i + 1, last);
    }
}

/// The trivial splitter's round trip: the concatenation of the sentences it
/// returns for a text is that text, whatever the splitter codepoints.
pub proof fn lemma_split_on_round_trip(cs: Seq<char>, t: Seq<char>)
    ensures
        concat_texts(split_on_spec(cs, t)) == t,
{
    lemma_split_on_go_concat(cs, t, 0, 0);
    assert(t.subrange(0, t.len() as int) =~= t);
}

/// The stateless split-on-character splitter, used when the caller supplies
/// no other: a sentence ends right after each configured codepoint.
pub struct SplitOn {
    pub split_chars: Vec<char>,
}

/// Whether `c` is one of the configured splitter codepoints.
fn contains_char(cs: &Vec<char>, c: char) -> (r: bool)
    ensures
        r == cs@.contains(c),
{
    let mut i: usize = 0;
    while i < cs.len()
        invariant
            i <= cs.len(),
            forall|k: int| 0 <= k < i ==> cs@[k] != c,
        decreases cs.len() - i,
    {
        if cs[i] == c {
            return true;
        }
        i = i + 1;
    }
    false
}

impl SplitOn {
    /// Builds the splitter from split tokens, each of which must be exactly
    /// one codepoint wide; anything else is a configuration error.
    pub fn new(split_chars: Vec<&str>) -> (r: Result<SplitOn, Error>)
        ensures
            r is Ok <==> (forall|i: int|
                0 <= i < split_chars@.len() ==> (#[trigger] split_chars@[i])@.len() == 1),
            r matches Ok(sp) ==> sp.split_chars@.len() == split_chars@.len() && (forall|i: int|
                0 <= i < split_chars@.len() ==> sp.split_chars@[i] == (#[trigger] split_chars@[i])@[0]),
            r matches Err(e) ==> e is Configuration,
    {
        let mut chars: Vec<char> = Vec::new();
        let mut i: usize = 0;
        while i < split_chars.len()
            invariant
                i <= split_chars.len(),
                chars@.len() == i,
                forall|k: int| 0 <= k < i ==> (#[trigger] split_chars@[k])@.len() == 1,
                forall|k: int| 0 <= k < i ==> chars@[k] == (#[trigger] split_chars@[k])@[0],
            decreases split_chars.len() - i,
        {
            let tok: &str = split_chars[i];
            if tok.unicode_len() != 1 {
                return Err(
                    Error::Configuration(
                        "split_chars must consist of strings with exactly one character."
                            .to_owned(),
                    ),
                );
            }
            chars.push(tok.get_char(0));
            i = i + 1;
        }
        Ok(SplitOn { split_chars: chars })
    }

    /// Splits one text: the scan emits a sentence after each splitter
    /// codepoint and keeps the trailing remainder.
    pub fn split_text(&self, t: &str) -> (r: Vec<String>)
        ensures
            views_of(r@) == split_on_spec(self.split_chars@, t@),
    {
        let ghost cs: Seq<char> = self.split_chars@;
        let n: usize = t.unicode_len();
        let mut out: Vec<String> = Vec::new();
        let mut last: usize = 0;
        let mut i: usize = 0;
        proof {
            assert(views_of(out@) + split_on_go(cs, t@, 0, 0) =~~= split_on_spec(cs, t@));
        }
        while i < n
            invariant
                last <= i && i <= n,
                n == t@.len(),
                cs == self.split_chars@,
                views_of(out@) + split_on_go(cs, t@, i as nat, last as nat) =~~= split_on_spec(
                    cs,
                    t@,
                ),
            decreases n - i,
        {
            let c = t.get_char(i);
            if contains_char(&self.split_chars, c) {
                let ghost before: Seq<String> = out@;
                let sentence = t.substring_char(last, i + 1).to_owned();
                out.push(sentence);
                proof {
                    let head = t@.subrange(last as int, i as int + 1);
                    assert(views_of(out@) =~~= views_of(before) + seq![head]);
                    assert(views_of(out@) + split_on_go(cs, t@, i as nat + 1, i as nat + 1)
                        =~~= views_of(before) + split_on_go(cs, t@, i as nat, last as nat));
                }
                last = i + 1;
            }
            i = i + 1;
        }
        if last < n {
            let ghost before: Seq<String> = out@;
            let sentence = t.substring_char(last, n).to_owned();
            out.push(sentence);
            proof {
                let head = t@.subrange(last as int, n as int);
                assert(views_of(out@) =~~= views_of(before) + seq![head]);
                assert(views_of(before) + split_on_go(cs, t@, n as nat, last as nat)
                    =~~= views_of(out@));
            }
        }
        proof {
            assert(views_of(out@) + split_on_go(cs, t@, n as nat, n as nat) =~~= views_of(out@));
        }
        out
    }
}

impl SentenceSplitter for SplitOn {
    /// A sentence ends right after each configured codepoint; a trailing
    /// remainder is kept; an empty text has no sentences.
    open spec fn split_spec(&self, text: Seq<char>) -> Seq<Seq<char>> {
        split_on_spec(self.split_chars@, text)
    }

    fn split(&self, texts: &Vec<String>) -> (r: Vec<Vec<String>>) {
        let mut out: Vec<Vec<String>> = Vec::new();
        let mut i: usize = 0;
        while i < texts.len()
            invariant
                i <= texts.len(),
                out@.len() == i,
                forall|k: int|
                    0 <= k < i ==> views_of(#[trigger] out@[k]@) == self.split_spec(texts@[k]@),
                forall|k: int|
                    0 <= k < i ==> char_total(self.split_spec(#[trigger] texts@[k]@))
                        <= usize::MAX,
            decreases texts.len() - i,
        {
            let text_len: usize = texts[i].as_str().unicode_len();
            let sentences = self.split_text(texts[i].as_str());
            proof {
                let tv: Seq<char> = texts@[i as int]@;
                lemma_split_on_round_trip(self.split_chars@, tv);
                lemma_char_total_is_concat_len(split_on_spec(self.split_chars@, tv));
                assert(char_total(self.split_spec(tv)) == tv.len());
                assert(text_len as nat == tv.len());
            }
            out.push(sentences);
            i = i + 1;
        }
        out
    }
}

} // verus!
