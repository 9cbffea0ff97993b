//! Character-sequence helpers shared by the pipeline: concatenation of
//! sentence lists, codepoint counting, and a total lexicographic order on
//! strings used by the deduplicating token projections.
use vstd::prelude::*;

verus! {

/// Concatenation of a list of texts, in order, with no separator.
pub open spec fn concat_texts(ss: Seq<Seq<char>>) -> Seq<char>
    decreases ss.len(),
{
    if ss.len() == 0 {
        Seq::empty()
    } else {
        ss[0] + concat_texts(ss.drop_first())
    }
}

/// Total codepoint count of a list of texts.
pub open spec fn char_total(ss: Seq<Seq<char>>) -> nat
    decreases ss.len(),
{
    if ss.len() == 0 {
        0
    } else {
        ss[0].len() + char_total(ss.drop_first())
    }
}

/// The codepoint count of a concatenation is the sum of the parts' counts.
pub proof fn lemma_char_total_is_concat_len(ss: Seq<Seq<char>>)
    ensures
        char_total(ss) == concat_texts(ss).len(),
    decreases ss.len(),
{
    if ss.len() > 0 {
        lemma_char_total_is_concat_len(ss.drop_first());
    }
}

/// Codepoint-wise lexicographic order: `a` sorts at or before `b`.
pub open spec fn lex_le(a: Seq<char>, b: Seq<char>) -> bool
    decreases a.len(),
{
    if a.len() == 0 {
        true
    } else if b.len() == 0 {
        false
    } else if a[0] == b[0] {
        lex_le(a.drop_first(), b.drop_first())
    } else {
        (a[0] as u32) < (b[0] as u32)
    }
}

/// Strict lexicographic order.
pub open spec fn lex_lt(a: Seq<char>, b: Seq<char>) -> bool {
    lex_le(a, b) && a != b
}

/// Distinct codepoints have distinct `u32` codes, and conversely.
pub proof fn lemma_char_code_inj(c: char, d: char)
    ensures
        (c == d) <==> ((c as u32) == (d as u32)),
{
}

/// The order is total: two strings always compare one way or the other.
pub proof fn lemma_lex_total(a: Seq<char>, b: Seq<char>)
    ensures
        lex_le(a, b) || lex_le(b, a),
    decreases a.len(),
{
    if a.len() > 0 && b.len() > 0 {
        if a[0] == b[0] {
            lemma_lex_total(a.drop_first(), b.drop_first());
        } else {
            lemma_char_code_inj(a[0], b[0]);
        }
    }
}

/// The order is antisymmetric: mutual `lex_le` means equality.
pub proof fn lemma_lex_antisym(a: Seq<char>, b: Seq<char>)
    requires
        lex_le(a, b),
        lex_le(b, a),
    ensures
        a == b,
    decreases a.len(),
{
    if a.len() == 0 {
        assert(b.len() == 0);
        assert(a =~= b);
    } else {
        assert(b.len() > 0);
        assert(a[0] == b[0]);
        lemma_lex_antisym(a.drop_first(), b.drop_first());
        assert(a.drop_first() == b.drop_first());
        assert(a.len() == b.len()) by {
            assert(a.drop_first().len() == b.drop_first().len());
        }
        assert(a =~= b) by {
            assert(forall|i: int| 0 < i < a.len() ==> a[i] == a.drop_first()[i - 1]);
            assert(forall|i: int| 0 < i < b.len() ==> b[i] == b.drop_first()[i - 1]);
        }
    }
}

/// The order is transitive.
pub proof fn lemma_lex_trans(a: Seq<char>, b: Seq<char>, c: Seq<char>)
    requires
        lex_le(a, b),
        lex_le(b, c),
    ensures
        lex_le(a, c),
    decreases a.len(),
{
    if a.len() > 0 && b.len() > 0 && c.len() > 0 {
        if a[0] == b[0] && b[0] == c[0] {
            lemma_lex_trans(a.drop_first(), b.drop_first(), c.drop_first());
        }
    }
}

/// Strict order is transitive.
pub proof fn lemma_lex_lt_trans(a: Seq<char>, b: Seq<char>, c: Seq<char>)
    requires
        lex_lt(a, b),
        lex_lt(b, c),
    ensures
        lex_lt(a, c),
{
    lemma_lex_trans(a, b, c);
    if a == c {
        lemma_lex_antisym(a, b);
    }
}

/// The views of a list of strings.
pub open spec fn views_of(ss: Seq<String>) -> Seq<Seq<char>> {
    ss.map_values(|s: String| s@)
}

/// Strictly ascending in the lexicographic order; in particular, free of
/// duplicates.
pub open spec fn strictly_sorted(ss: Seq<Seq<char>>) -> bool {
    forall|i: int, j: int| 0 <= i < j < ss.len() ==> lex_lt(#[trigger] ss[i], #[trigger] ss[j])
}

/// Compares two strings in the codepoint-wise lexicographic order.
pub fn str_le(a: &str, b: &str) -> (r: bool)
    ensures
        r == lex_le(a@, b@),
{
    let la: usize = a.unicode_len();
    let lb: usize = b.unicode_len();
    let mut i: usize = 0;
    proof {
        assert(a@.skip(0) =~= a@);
        assert(b@.skip(0) =~= b@);
    }
    loop
        invariant
            i <= la,
            i <= lb,
            la == a@.len(),
            lb == b@.len(),
            lex_le(a@, b@) == lex_le(a@.skip(i as int), b@.skip(i as int)),
        decreases la - i,
    {
        if i >= la {
            proof {
                assert(a@.skip(i as int).len() == 0);
            }
            return true;
        }
        if i >= lb {
            proof {
                assert(b@.skip(i as int).len() == 0);
                assert(a@.skip(i as int).len() > 0);
            }
            return false;
        }
        let ca = a.get_char(i);
        let cb = b.get_char(i);
        proof {
            assert(a@.skip(i as int)[0] == a@[i as int]);
            assert(b@.skip(i as int)[0] == b@[i as int]);
        }
        if ca == cb {
            proof {
                assert(a@.skip(i as int).drop_first() =~= a@.skip(i + 1));
                assert(b@.skip(i as int).drop_first() =~= b@.skip(i + 1));
            }
            i = i + 1;
        } else {
            return (ca as u32) < (cb as u32);
        }
    }
}

/// Inserts `x` into a strictly sorted list of strings, keeping it strictly
/// sorted; a string already present is not duplicated.
pub fn insert_sorted_unique(v: &mut Vec<String>, x: &str)
    requires
        strictly_sorted(views_of(old(v)@)),
    ensures
        strictly_sorted(views_of(final(v)@)),
        forall|s: Seq<char>|
            views_of(final(v)@).contains(s) <==> (views_of(old(v)@).contains(s) || s == x@),
{
    let ghost orig: Seq<String> = v@;
    let mut idx: usize = 0;
    loop
        invariant
            idx <= v.len(),
            v@ == orig,
            strictly_sorted(views_of(orig)),
            forall|k: int| 0 <= k < idx ==> lex_lt(#[trigger] views_of(orig)[k], x@),
        ensures
            idx <= v.len(),
            v@ == orig,
            idx == v.len() || lex_le(x@, views_of(orig)[idx as int]),
            forall|k: int| 0 <= k < idx ==> lex_lt(#[trigger] views_of(orig)[k], x@),
        decreases v.len() - idx,
    {
        if idx >= v.len() {
            break;
        }
        let le_elem = str_le(x, v[idx].as_str());
        proof {
            lemma_lex_total(x@, v@[idx as int]@);
            assert(views_of(orig)[idx as int] == v@[idx as int]@);
        }
        if le_elem {
            break;
        }
        idx = idx + 1;
    }
    if idx < v.len() {
        let ge_elem = str_le(v[idx].as_str(), x);
        if ge_elem {
            proof {
                assert(lex_le(x@, views_of(orig)[idx as int]));
                lemma_lex_antisym(v@[idx as int]@, x@);
                assert(views_of(v@)[idx as int] == x@);
                assert(views_of(v@).contains(x@));
            }
            return;
        }
    }
    proof {
        if idx < v.len() {
            assert(lex_le(x@, v@[idx as int]@));
            assert(lex_lt(x@, v@[idx as int]@));
            assert(lex_lt(x@, views_of(orig)[idx as int]));
        }
    }
    let xs = x.to_owned();
    let ghost xg: String = xs;
    v.insert(idx, xs);
    proof {
        orig.insert_ensures(idx as int, xg);
        let nw = views_of(v@);
        let ow = views_of(orig);
        assert(v@ == orig.insert(idx as int, xg));
        assert(nw[idx as int] == x@);
        assert(forall|k: int| 0 <= k < idx ==> nw[k] == ow[k]);
        assert(forall|k: int| idx < k < nw.len() ==> nw[k] == ow[k - 1]);
        assert forall|j: int| idx < j < nw.len() implies lex_lt(x@, nw[j]) by {
            assert(nw[j] == ow[j - 1]);
            if j - 1 > idx {
                lemma_lex_lt_trans(x@, ow[idx as int], ow[j - 1]);
            }
        }
        assert forall|i: int, j: int| 0 <= i < j < nw.len() implies lex_lt(nw[i], nw[j]) by {
            if j < idx {
                assert(lex_lt(ow[i], ow[j]));
            } else if j == idx {
                assert(lex_lt(ow[i], x@));
            } else if i == idx {
                assert(lex_lt(x@, nw[j]));
            } else if i < idx {
                assert(lex_lt(ow[i], x@));
                lemma_lex_lt_trans(ow[i], x@, nw[j]);
            } else {
                assert(lex_lt(ow[i - 1], ow[j - 1]));
            }
        }
        assert forall|s: Seq<char>| nw.contains(s) <==> (ow.contains(s) || s == x@) by {
            if nw.contains(s) {
                let k = choose|k: int| 0 <= k < nw.len() && nw[k] == s;
                if k < idx {
                    assert(ow[k] == s);
                    assert(ow.contains(s));
                } else if k > idx {
                    assert(ow[k - 1] == s);
                    assert(ow.contains(s));
                }
            }
            if ow.contains(s) {
                let k = choose|k: int| 0 <= k < ow.len() && ow[k] == s;
                if k < idx {
                    assert(nw[k] == s);
                } else {
                    assert(nw[k + 1] == s);
                }
                assert(nw.contains(s));
            }
            if s == x@ {
                assert(nw[idx as int] == s);
                assert(nw.contains(s));
            }
        }
    }
}

} // verus!
