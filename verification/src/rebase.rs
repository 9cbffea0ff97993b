//! Offset rebasing: suggestions from later sentences of a document are moved
//! from sentence-local to document-global coordinates by adding the codepoint
//! count of all prior sentences.
use vstd::prelude::*;

use crate::suggestion::{suggestions_wf, SuggestionModel};
use crate::text::char_total;

verus! {

/// A suggestion moved `off` codepoints to the right.
pub open spec fn bump(g: SuggestionModel, off: nat) -> SuggestionModel {
    SuggestionModel { start: g.start + off, end: g.end + off, text: g.text }
}

/// A sentence's suggestions moved `off` codepoints to the right.
pub open spec fn bump_all(gs: Seq<SuggestionModel>, off: nat) -> Seq<SuggestionModel> {
    gs.map_values(|g: SuggestionModel| bump(g, off))
}

/// The document-global suggestion list assembled from per-sentence lists,
/// with `off` the codepoint count accumulated before the first sentence: a
/// suggestion from sentence `i` is moved right by `off` plus the codepoint
/// count of the sentences before `i`.
pub open spec fn rebase_from(
    lists: Seq<Seq<SuggestionModel>>,
    sentences: Seq<Seq<char>>,
    off: nat,
) -> Seq<SuggestionModel>
    recommends
        lists.len() == sentences.len(),
    decreases lists.len(),
{
    if lists.len() == 0 {
        Seq::empty()
    } else {
        bump_all(lists[0], off) + rebase_from(
            lists.drop_first(),
            sentences.drop_first(),
            off + sentences[0].len(),
        )
    }
}

/// The document-global suggestion list of a document split into `sentences`,
/// whose sentence `i` produced the suggestions `lists[i]`.
pub open spec fn rebase_spec(lists: Seq<Seq<SuggestionModel>>, sentences: Seq<Seq<char>>) -> Seq<
    SuggestionModel,
> {
    rebase_from(lists, sentences, 0)
}

/// Offset monotonicity: when every sentence's suggestions are well formed for
/// it, the rebased document-global suggestions have `start <= end`, lie
/// between `off` and `off` plus the document's codepoint count, and their
/// starts are non-decreasing.
pub proof fn lemma_rebase_monotone(
    lists: Seq<Seq<SuggestionModel>>,
    sentences: Seq<Seq<char>>,
    off: nat,
)
    requires
        lists.len() == sentences.len(),
        forall|i: int|
            0 <= i < lists.len() ==> suggestions_wf(#[trigger] lists[i], sentences[i].len()),
    ensures
        forall|k: int|
            0 <= k < rebase_from(lists, sentences, off).len() ==> off <= (#[trigger] rebase_from(
                lists,
                sentences,
                off,
            )[k]).start && rebase_from(lists, sentences, off)[k].start <= rebase_from(
                lists,
                sentences,
                off,
            )[k].end && rebase_from(lists, sentences, off)[k].end <= off + char_total(sentences),
        forall|k: int|
            0 <= k < rebase_from(lists, sentences, off).len() - 1 ==> (#[trigger] rebase_from(
                lists,
                sentences,
                off,
            )[k]).start <= rebase_from(lists, sentences, off)[k + 1].start,
    decreases lists.len(),
{
    if lists.len() > 0 {
        let head = bump_all(lists[0], off);
        let tail = rebase_from(lists.drop_first(), sentences.drop_first(), off
            + sentences[0].len());
        assert(forall|i: int|
            0 <= i < lists.drop_first().len() ==> suggestions_wf(
                #[trigger] lists.drop_first()[i],
                sentences.drop_first()[i].len(),
            )) by {
            assert(forall|i: int|
                0 <= i < lists.drop_first().len() ==> lists.drop_first()[i] == lists[i + 1]
                    && sentences.drop_first()[i] == sentences[i + 1]);
        }
        lemma_rebase_monotone(lists.drop_first(), sentences.drop_first(), off
            + sentences[0].len());
        assert(suggestions_wf(lists[0], sentences[0].len()));
        let whole = rebase_from(lists, sentences, off);
        assert(whole == head + tail);
        assert(char_total(sentences) == sentences[0].len() + char_total(sentences.drop_first()));
        assert(forall|k: int| 0 <= k < head.len() ==> whole[k] == head[k]);
        assert(forall|k: int|
            head.len() <= k < whole.len() ==> whole[k] == tail[k - head.len()]);
        assert(forall|k: int|
            0 <= k < head.len() ==> off <= (#[trigger] head[k]).start && head[k].start
                <= head[k].end && head[k].end <= off + sentences[0].len()) by {
            assert(forall|k: int| 0 <= k < head.len() ==> head[k] == bump(lists[0][k], off));
        }
        assert(forall|k: int|
            0 <= k < head.len() - 1 ==> (#[trigger] head[k]).start <= head[k + 1].start) by {
            assert(forall|k: int|
                0 <= k < lists[0].len() - 1 ==> (#[trigger] lists[0][k]).end <= lists[0][k
                    + 1].start);
            assert(forall|k: int| 0 <= k < head.len() ==> head[k] == bump(lists[0][k], off));
        }
    }
}

/// The codepoint count of the sentences before index `i`.
pub open spec fn offset_of(sentences: Seq<Seq<char>>, i: int) -> nat {
    char_total(sentences.take(i))
}

/// The number of suggestions the sentences before index `i` produced.
pub open spec fn count_before(lists: Seq<Seq<SuggestionModel>>, i: int) -> nat
    decreases i,
{
    if i <= 0 || lists.len() == 0 {
        0
    } else {
        lists[0].len() + count_before(lists.drop_first(), i - 1)
    }
}

/// Offset globalization: suggestion `k` of sentence `i` appears in the
/// document-global list after all suggestions of prior sentences, moved right
/// by exactly the codepoint count of those sentences.
pub proof fn lemma_offset_globalization(
    lists: Seq<Seq<SuggestionModel>>,
    sentences: Seq<Seq<char>>,
    i: int,
    k: int,
)
    requires
        lists.len() == sentences.len(),
        0 <= i < lists.len(),
        0 <= k < lists[i].len(),
    ensures
        0 <= count_before(lists, i) + k < rebase_spec(lists, sentences).len(),
        rebase_spec(lists, sentences)[count_before(lists, i) + k as int] == bump(
            lists[i][k],
            offset_of(sentences, i),
        ),
{
    assert(sentences.take(0) =~= Seq::<Seq<char>>::empty());
    lemma_offset_globalization_from(lists, sentences, i, k, 0);
}

proof fn lemma_offset_globalization_from(
    lists: Seq<Seq<SuggestionModel>>,
    sentences: Seq<Seq<char>>,
    i: int,
    k: int,
    off: nat,
)
    requires
        lists.len() == sentences.len(),
        0 <= i < lists.len(),
        0 <= k < lists[i].len(),
    ensures
        0 <= count_before(lists, i) + k < rebase_from(lists, sentences, off).len(),
        rebase_from(lists, sentences, off)[count_before(lists, i) + k as int] == bump(
            lists[i][k],
            off + offset_of(sentences, i),
        ),
    decreases i,
{
    let whole = rebase_from(lists, sentences, off);
    let head = bump_all(lists[0], off);
    let tail = rebase_from(lists.drop_first(), sentences.drop_first(), off + sentences[0].len());
    assert(whole == head + tail);
    if i == 0 {
        assert(sentences.take(0) =~= Seq::<Seq<char>>::empty());
        assert(offset_of(sentences, 0) == 0);
        assert(whole[k] == head[k]);
        assert(head[k] == bump(lists[0][k], off));
    } else {
        lemma_offset_globalization_from(
            lists.drop_first(),
            sentences.drop_first(),
            i - 1,
            k,
            off + sentences[0].len(),
        );
        assert(lists.drop_first()[i - 1] == lists[i]);
        assert(count_before(lists, i) == lists[0].len() + count_before(lists.drop_first(), i - 1));
        let pos = count_before(lists.drop_first(), i - 1) + k;
        assert(whole[head.len() + pos] == tail[pos as int]);
        assert(offset_of(sentences.drop_first(), i - 1) + sentences[0].len() == offset_of(
            sentences,
            i,
        )) by {
            assert(sentences.take(i).drop_first() =~= sentences.drop_first().take(i - 1));
            assert(sentences.take(i)[0] == sentences[0]);
            assert(char_total(sentences.take(i)) == sentences[0].len() + char_total(
                sentences.take(i).drop_first(),
            ));
        }
    }
}

} // verus!
