//! The engine capabilities behind the facades: the tokenizer/disambiguator
//! (with its tagger lookup surface) and the rule engine. The real engines are
//! deserialized artifacts; here they are capabilities whose behaviour is
//! pinned by a spec-level function each implementation fixes. Table-driven
//! implementations are provided: they serve as reference engines and carry
//! deserialized artifact data handed over as plain values.
use vstd::prelude::*;

use crate::error::Error;
use crate::suggestion::{suggestion_wf, suggestions_wf, Suggestion, SuggestionModel};
use crate::text::views_of;
use crate::token::{tokens_wf, TagModel, TagPair, Token, TokenModel};

verus! {

/// First-match association lookup, the semantics of every table engine.
pub open spec fn assoc_lookup<V>(tbl: Seq<(Seq<char>, V)>, w: Seq<char>, dflt: V) -> V
    decreases tbl.len(),
{
    if tbl.len() == 0 {
        dflt
    } else if tbl[0].0 == w {
        tbl[0].1
    } else {
        assoc_lookup(tbl.drop_first(), w, dflt)
    }
}

/// A lookup whose first match stands at `i` returns that entry's value.
pub proof fn lemma_assoc_lookup_found<V>(tbl: Seq<(Seq<char>, V)>, w: Seq<char>, dflt: V, i: int)
    requires
        0 <= i < tbl.len(),
        forall|k: int| 0 <= k < i ==> (#[trigger] tbl[k]).0 != w,
        tbl[i].0 == w,
    ensures
        assoc_lookup(tbl, w, dflt) == tbl[i].1,
    decreases i,
{
    if i > 0 {
        lemma_assoc_lookup_found(tbl.drop_first(), w, dflt, i - 1);
        assert(forall|k: int|
            0 <= k < i - 1 ==> (#[trigger] tbl.drop_first()[k]).0 == tbl[k + 1].0);
    }
}

/// A lookup with no matching key returns the default.
pub proof fn lemma_assoc_lookup_missing<V>(tbl: Seq<(Seq<char>, V)>, w: Seq<char>, dflt: V)
    requires
        forall|k: int| 0 <= k < tbl.len() ==> (#[trigger] tbl[k]).0 != w,
    ensures
        assoc_lookup(tbl, w, dflt) == dflt,
    decreases tbl.len(),
{
    if tbl.len() > 0 {
        lemma_assoc_lookup_missing(tbl.drop_first(), w, dflt);
    }
}

/// The tokenizer/disambiguator capability: it turns one sentence into
/// finalized tokens and exposes the tagger's lookup surface. An
/// implementation fixes its behaviour as spec-level functions, and its tokens
/// are always well formed for the sentence.
pub trait Analyzer {
    /// The finalized tokens this engine produces for one sentence.
    spec fn analyze_spec(&self, sentence: Seq<char>) -> Seq<TokenModel>;

    /// The (lemma, POS) pairs the tagger returns for a word.
    spec fn tags_spec(&self, word: Seq<char>, add_lower: bool, compound_split: bool) -> Seq<
        TagModel,
    >;

    /// The morphologically related surface forms of a word.
    spec fn group_members_spec(&self, word: Seq<char>) -> Seq<Seq<char>>;

    /// Tokenize, disambiguate and finalize one sentence.
    fn analyze(&self, sentence: &str) -> (r: Vec<Token>)
        ensures
            r.deep_view() == self.analyze_spec(sentence@),
            tokens_wf(self.analyze_spec(sentence@), sentence@.len()),
    ;

    /// The tagger's (lemma, POS) lookup.
    fn get_tags(&self, word: &str, add_lower: bool, compound_split: bool) -> (r: Vec<TagPair>)
        ensures
            r.deep_view() == self.tags_spec(word@, add_lower, compound_split),
    ;

    /// The tagger's group-member lookup.
    fn get_group_members(&self, word: &str) -> (r: Vec<String>)
        ensures
            views_of(r@) == self.group_members_spec(word@),
    ;
}

/// The rule-engine capability: applied to the finalized tokens of one
/// sentence, it proposes suggestions. An implementation fixes its behaviour
/// as a spec-level function, and its suggestions are always well formed for
/// the sentence: spans inside it, non-empty replacements, non-overlapping and
/// in ascending span order.
pub trait RuleEngine {
    /// The suggestions this engine produces for one analyzed sentence.
    spec fn apply_spec(&self, tokens: Seq<TokenModel>, sentence: Seq<char>) -> Seq<
        SuggestionModel,
    >;

    /// Apply the rules to one sentence's finalized tokens.
    fn apply(&self, tokens: &Vec<Token>, sentence: &str) -> (r: Vec<Suggestion>)
        ensures
            r.deep_view() == self.apply_spec(tokens.deep_view(), sentence@),
            suggestions_wf(self.apply_spec(tokens.deep_view(), sentence@), sentence@.len()),
    ;
}

/// Copies a tag list, value for value.
fn clone_tags(v: &Vec<TagPair>) -> (r: Vec<TagPair>)
    ensures
        r.deep_view() == v.deep_view(),
{
    let mut out: Vec<TagPair> = Vec::new();
    let mut i: usize = 0;
    while i < v.len()
        invariant
            i <= v.len(),
            out@.len() == i,
            forall|k: int| 0 <= k < i ==> (#[trigger] out@[k])@ == v@[k]@,
        decreases v.len() - i,
    {
        out.push(TagPair { lemma: v[i].lemma.clone(), pos: v[i].pos.clone() });
        i = i + 1;
    }
    proof {
        assert(out.deep_view() =~= v.deep_view());
    }
    out
}

/// Copies a string list, value for value.
fn clone_strings(v: &Vec<String>) -> (r: Vec<String>)
    ensures
        views_of(r@) == views_of(v@),
{
    let mut out: Vec<String> = Vec::new();
    let mut i: usize = 0;
    while i < v.len()
        invariant
            i <= v.len(),
            out@.len() == i,
            forall|k: int| 0 <= k < i ==> (#[trigger] out@[k])@ == v@[k]@,
        decreases v.len() - i,
    {
        out.push(v[i].clone());
        i = i + 1;
    }
    proof {
        assert(views_of(out@) =~= views_of(v@));
    }
    out
}

/// A dictionary-backed analyzer. Each sentence is finalized as a single
/// untagged token spanning it; the tagger surface answers from the two
/// tables by first match. It stands in for a deserialized engine whose data
/// is handed over as plain values.
pub struct DictionaryAnalyzer {
    pub tag_table: Vec<(String, Vec<TagPair>)>,
    pub group_table: Vec<(String, Vec<String>)>,
}

impl DictionaryAnalyzer {
    /// The tag table, at the specification level.
    pub open spec fn tag_table_view(&self) -> Seq<(Seq<char>, Seq<TagModel>)> {
        self.tag_table@.map_values(|e: (String, Vec<TagPair>)| (e.0@, e.1.deep_view()))
    }

    /// The group table, at the specification level.
    pub open spec fn group_table_view(&self) -> Seq<(Seq<char>, Seq<Seq<char>>)> {
        self.group_table@.map_values(|e: (String, Vec<String>)| (e.0@, views_of(e.1@)))
    }
}

impl Analyzer for DictionaryAnalyzer {
    /// One untagged token spanning the whole sentence; none for an empty one.
    open spec fn analyze_spec(&self, sentence: Seq<char>) -> Seq<TokenModel> {
        if sentence.len() == 0 {
            Seq::empty()
        } else {
            seq![
                TokenModel {
                    text: sentence,
                    start: 0,
                    end: sentence.len(),
                    tags: Seq::empty(),
                    chunks: Seq::empty(),
                },
            ]
        }
    }

    /// First match in the tag table; the tagger flags do not alter table
    /// answers.
    open spec fn tags_spec(&self, word: Seq<char>, add_lower: bool, compound_split: bool) -> Seq<
        TagModel,
    > {
        assoc_lookup(self.tag_table_view(), word, Seq::empty())
    }

    /// First match in the group table.
    open spec fn group_members_spec(&self, word: Seq<char>) -> Seq<Seq<char>> {
        assoc_lookup(self.group_table_view(), word, Seq::empty())
    }

    fn analyze(&self, sentence: &str) -> (r: Vec<Token>) {
        let n: usize = sentence.unicode_len();
        let mut out: Vec<Token> = Vec::new();
        if n > 0 {
            out.push(Token::new(sentence.to_owned(), (0, n), Vec::new(), Vec::new()));
        }
        proof {
            assert(out.deep_view() =~~= self.analyze_spec(sentence@));
        }
        out
    }

    fn get_tags(&self, word: &str, add_lower: bool, compound_split: bool) -> (r: Vec<TagPair>) {
        let wanted = word.to_owned();
        let mut i: usize = 0;
        while i < self.tag_table.len()
            invariant
                i <= self.tag_table.len(),
                wanted@ == word@,
                forall|k: int| 0 <= k < i ==> (#[trigger] self.tag_table_view()[k]).0 != word@,
            decreases self.tag_table.len() - i,
        {
            if self.tag_table[i].0 == wanted {
                let r = clone_tags(&self.tag_table[i].1);
                proof {
                    lemma_assoc_lookup_found(
                        self.tag_table_view(),
                        word@,
                        Seq::empty(),
                        i as int,
                    );
                }
                return r;
            }
            i = i + 1;
        }
        proof {
            lemma_assoc_lookup_missing(self.tag_table_view(), word@, Seq::empty());
        }
        Vec::new()
    }

    fn get_group_members(&self, word: &str) -> (r: Vec<String>) {
        let wanted = word.to_owned();
        let mut i: usize = 0;
        while i < self.group_table.len()
            invariant
                i <= self.group_table.len(),
                wanted@ == word@,
                forall|k: int| 0 <= k < i ==> (#[trigger] self.group_table_view()[k]).0 != word@,
            decreases self.group_table.len() - i,
        {
            if self.group_table[i].0 == wanted {
                let r = clone_strings(&self.group_table[i].1);
                proof {
                    lemma_assoc_lookup_found(
                        self.group_table_view(),
                        word@,
                        Seq::empty(),
                        i as int,
                    );
                }
                return r;
            }
            i = i + 1;
        }
        proof {
            lemma_assoc_lookup_missing(self.group_table_view(), word@, Seq::empty());
        }
        Vec::new()
    }
}

/// The table of a `TableRules` engine, at the specification level.
pub open spec fn suggestion_table_view(entries: Seq<(String, Vec<Suggestion>)>) -> Seq<
    (Seq<char>, Seq<SuggestionModel>),
> {
    entries.map_values(|e: (String, Vec<Suggestion>)| (e.0@, e.1.deep_view()))
}

/// Whether a suggestion list is well formed for a sentence of `n` codepoints.
fn suggestions_ok(list: &Vec<Suggestion>, n: usize) -> (r: bool)
    ensures
        r == suggestions_wf(list.deep_view(), n as nat),
{
    let ghost dv: Seq<SuggestionModel> = list.deep_view();
    let mut i: usize = 0;
    while i < list.len()
        invariant
            i <= list.len(),
            dv == list.deep_view(),
            dv.len() == list@.len(),
            forall|k: int| 0 <= k < i ==> suggestion_wf(#[trigger] dv[k], n as nat),
            forall|k: int| 0 <= k < i && k < dv.len() - 1 ==> (#[trigger] dv[k].end) <= dv[k
                + 1].start,
        decreases list.len() - i,
    {
        let s = &list[i];
        if s.start > s.end || s.end > n || s.text.len() == 0 {
            proof {
                assert(!suggestion_wf(dv[i as int], n as nat));
            }
            return false;
        }
        if i + 1 < list.len() {
            if list[i + 1].start < s.end {
                proof {
                    assert(dv[i as int].end > dv[i as int + 1].start);
                }
                return false;
            }
        }
        i = i + 1;
    }
    true
}

/// Copies a suggestion list, value for value.
fn clone_suggestions(v: &Vec<Suggestion>) -> (r: Vec<Suggestion>)
    ensures
        r.deep_view() == v.deep_view(),
{
    let mut out: Vec<Suggestion> = Vec::new();
    let mut i: usize = 0;
    while i < v.len()
        invariant
            i <= v.len(),
            out@.len() == i,
            forall|k: int| 0 <= k < i ==> (#[trigger] out@[k])@ == v@[k]@,
        decreases v.len() - i,
    {
        out.push(v[i].duplicate());
        i = i + 1;
    }
    proof {
        assert(out.deep_view() =~= v.deep_view());
    }
    out
}

/// A rule engine driven by a sentence-keyed table: the suggestions for a
/// sentence are those of its first matching entry, none otherwise.
/// Construction validates every entry, so the engine's outputs are always
/// well formed. It stands in for a deserialized rule set handed over as
/// plain values.
pub struct TableRules {
    entries: Vec<(String, Vec<Suggestion>)>,
}

impl TableRules {
    /// The table, at the specification level.
    pub closed spec fn entries_view(&self) -> Seq<(Seq<char>, Seq<SuggestionModel>)> {
        suggestion_table_view(self.entries@)
    }

    /// Every entry's suggestions are well formed for its sentence.
    #[verifier::type_invariant]
    pub closed spec fn inv(self) -> bool {
        forall|k: int|
            0 <= k < self.entries_view().len() ==> suggestions_wf(
                (#[trigger] self.entries_view()[k]).1,
                self.entries_view()[k].0.len(),
            )
    }

    /// Builds the engine, validating that each entry's suggestions are well
    /// formed for its sentence; anything else is a configuration error.
    pub fn new(entries: Vec<(String, Vec<Suggestion>)>) -> (r: Result<TableRules, Error>)
        ensures
            r is Ok <==> (forall|k: int|
                0 <= k < entries@.len() ==> suggestions_wf(
                    (#[trigger] suggestion_table_view(entries@)[k]).1,
                    suggestion_table_view(entries@)[k].0.len(),
                )),
            r matches Ok(tr) ==> tr.entries_view() == suggestion_table_view(entries@),
            r matches Err(e) ==> e is Configuration,
    {
        let ghost ev = suggestion_table_view(entries@);
        let mut i: usize = 0;
        while i < entries.len()
            invariant
                i <= entries.len(),
                ev == suggestion_table_view(entries@),
                ev.len() == entries@.len(),
                forall|k: int|
                    0 <= k < i ==> suggestions_wf((#[trigger] ev[k]).1, ev[k].0.len()),
            decreases entries.len() - i,
        {
            let n: usize = entries[i].0.as_str().unicode_len();
            if !suggestions_ok(&entries[i].1, n) {
                proof {
                    assert(!suggestions_wf(ev[i as int].1, ev[i as int].0.len()));
                }
                return Err(
                    Error::Configuration(
                        "rule table entries must carry well-formed suggestions.".to_owned(),
                    ),
                );
            }
            i = i + 1;
        }
        Ok(TableRules { entries })
    }
}

impl RuleEngine for TableRules {
    /// The suggestions of the first entry whose sentence is the one analyzed,
    /// none otherwise; the tokens play no part in a table engine.
    open spec fn apply_spec(&self, tokens: Seq<TokenModel>, sentence: Seq<char>) -> Seq<
        SuggestionModel,
    > {
        assoc_lookup(self.entries_view(), sentence, Seq::empty())
    }

    fn apply(&self, tokens: &Vec<Token>, sentence: &str) -> (r: Vec<Suggestion>) {
        proof {
            use_type_invariant(&self);
        }
        let wanted = sentence.to_owned();
        let mut i: usize = 0;
        while i < self.entries.len()
            invariant
                wanted@ == sentence@,
                i <= self.entries.len(),
                self.inv(),
                forall|k: int| 0 <= k < i ==> (#[trigger] self.entries_view()[k]).0 != sentence@,
            decreases self.entries.len() - i,
        {
            if self.entries[i].0 == wanted {
                let r = clone_suggestions(&self.entries[i].1);
                proof {
                    lemma_assoc_lookup_found(
                        self.entries_view(),
                        sentence@,
                        Seq::empty(),
                        i as int,
                    );
                }
                return r;
            }
            i = i + 1;
        }
        proof {
            lemma_assoc_lookup_missing(self.entries_view(), sentence@, Seq::empty());
        }
        Vec::new()
    }
}

/// A rule engine with no rules: it never proposes a suggestion, so the
/// correcting operations leave their input unchanged.
pub struct NoRules {}

impl RuleEngine for NoRules {
    /// No suggestions, for any sentence.
    open spec fn apply_spec(&self, tokens: Seq<TokenModel>, sentence: Seq<char>) -> Seq<
        SuggestionModel,
    > {
        Seq::empty()
    }

    fn apply(&self, tokens: &Vec<Token>, sentence: &str) -> (r: Vec<Suggestion>) {
        let out: Vec<Suggestion> = Vec::new();
        proof {
            assert(out.deep_view() =~= Seq::<SuggestionModel>::empty());
        }
        out
    }
}

} // verus!
