//! Rewriting a sentence by its suggestions: each suggested span is replaced
//! by the suggestion's first (best) replacement, in span order.
use vstd::prelude::*;

use crate::suggestion::{Suggestion, SuggestionModel};

verus! {

/// Whether a suggestion can be applied at scan position `pos`: its span lies
/// at or after `pos`, inside the sentence, and it offers a replacement. A
/// rule engine honouring its contract always satisfies this; anything else
/// (an overlap, an out-of-range span) is skipped rather than defended
/// against.
pub open spec fn applies_at(s: Seq<char>, g: SuggestionModel, pos: nat) -> bool {
    pos <= g.start && g.start <= g.end && g.end <= s.len() && g.text.len() > 0
}

/// The rewritten remainder of sentence `s` from scan position `pos` on,
/// applying the remaining suggestions in order.
pub open spec fn apply_from(s: Seq<char>, sm: Seq<SuggestionModel>, pos: nat) -> Seq<char>
    recommends
        pos <= s.len(),
    decreases sm.len(),
{
    if sm.len() == 0 {
        s.subrange(pos as int, s.len() as int)
    } else if applies_at(s, sm[0], pos) {
        s.subrange(pos as int, sm[0].start as int) + sm[0].text[0] + apply_from(
            s,
            sm.drop_first(),
            sm[0].end,
        )
    } else {
        apply_from(s, sm.drop_first(), pos)
    }
}

/// The sentence rewritten by its suggestions, each span replaced by the
/// suggestion's first replacement.
pub open spec fn correct_spec(s: Seq<char>, sm: Seq<SuggestionModel>) -> Seq<char> {
    apply_from(s, sm, 0)
}

/// Correction identity: with no suggestions, the sentence is returned
/// unchanged.
pub proof fn lemma_correct_empty_identity(s: Seq<char>)
    ensures
        correct_spec(s, Seq::empty()) == s,
{
    assert(s.subrange(0, s.len() as int) =~= s);
}

/// Rewrites a sentence by its suggestions: each applicable span is replaced
/// by its first replacement, in order; the rest of the sentence is kept.
pub fn apply_suggestions(sentence: &str, suggestions: &Vec<Suggestion>) -> (r: String)
    ensures
        r@ == correct_spec(sentence@, suggestions.deep_view()),
{
    let ghost dv: Seq<SuggestionModel> = suggestions.deep_view();
    let n: usize = sentence.unicode_len();
    let mut out = String::new();
    let mut pos: usize = 0;
    let mut i: usize = 0;
    proof {
        assert(dv.skip(0) =~= dv);
    }
    while i < suggestions.len()
        invariant
            i <= suggestions.len(),
            pos <= n,
            n == sentence@.len(),
            dv == suggestions.deep_view(),
            dv.len() == suggestions@.len(),
            out@ + apply_from(sentence@, dv.skip(i as int), pos as nat) == correct_spec(
                sentence@,
                dv,
            ),
        decreases suggestions.len() - i,
    {
        let ghost rest = dv.skip(i as int);
        proof {
            assert(rest[0] == dv[i as int]);
            assert(rest.drop_first() =~= dv.skip(i as int + 1));
        }
        let s = &suggestions[i];
        if pos <= s.start && s.start <= s.end && s.end <= n && s.text.len() > 0 {
            let ghost before = out@;
            out.append(sentence.substring_char(pos, s.start));
            out.append(s.text[0].as_str());
            proof {
                assert(applies_at(sentence@, rest[0], pos as nat));
                assert(out@ + apply_from(sentence@, rest.drop_first(), s@.end) =~= before
                    + apply_from(sentence@, rest, pos as nat));
            }
            pos = s.end;
        } else {
            proof {
                assert(!applies_at(sentence@, rest[0], pos as nat));
            }
        }
        i = i + 1;
    }
    proof {
        assert(dv.skip(dv.len() as int) =~= Seq::<SuggestionModel>::empty());
        assert(apply_from(sentence@, dv.skip(dv.len() as int), pos as nat) == sentence@.subrange(
            pos as int,
            n as int,
        ));
    }
    out.append(sentence.substring_char(pos, n));
    out
}

} // verus!
