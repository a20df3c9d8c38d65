//! One check pass over the segments of a document: each segment's
//! suggestions come from the cache of the pass before where its exact text
//! is found there, and from the analyzer otherwise.
//!
//! The analyzer is outside. A pass says which text it needs analyzed, takes
//! the answer, and goes on; at its end it hands out the cache for the next
//! pass, which holds what this pass used and nothing else.

use crate::cache::Cache;
use crate::language::{resolved_language, LanguageMap};
use crate::model::{copy_suggestions, results_view, suggestions_view, Suggestion, SuggestionView};
use vstd::prelude::*;

verus! {

/// A stretch of analyzable text, with the language tag of its place in the
/// document.
#[derive(Clone, Debug, PartialEq, Eq)]
pub struct Segment {
    pub text: String,
    pub language: String,
}

/// The texts of a sequence of segments.
pub open spec fn segment_texts(segments: Seq<Segment>) -> Seq<Seq<char>> {
    segments.map_values(|s: Segment| s.text@)
}

/// The language tags of a sequence of segments.
pub open spec fn segment_languages(segments: Seq<Segment>) -> Seq<Seq<char>> {
    segments.map_values(|s: Segment| s.language@)
}

/// What is left of the cache `initial` after the first `k` texts were
/// looked up: every lookup takes its entry out.
pub open spec fn unconsumed(
    initial: Map<Seq<char>, Seq<SuggestionView>>,
    texts: Seq<Seq<char>>,
    k: int,
) -> Map<Seq<char>, Seq<SuggestionView>> {
    Map::new(
        |text: Seq<char>| initial.contains_key(text) && !texts.take(k).contains(text),
        |text: Seq<char>| initial[text],
    )
}

/// Segment `j` is found in the cache: its text is in `initial` and no
/// earlier segment of the pass has the same text.
pub open spec fn is_hit(
    initial: Map<Seq<char>, Seq<SuggestionView>>,
    texts: Seq<Seq<char>>,
    j: int,
) -> bool {
    initial.contains_key(texts[j]) && !texts.take(j).contains(texts[j])
}

/// Segment `j` was settled from the cache: it was found there, and its
/// results are the suggestions that the cache held for its text.
pub open spec fn from_cache(
    initial: Map<Seq<char>, Seq<SuggestionView>>,
    texts: Seq<Seq<char>>,
    results: Seq<Seq<SuggestionView>>,
    j: int,
) -> bool {
    is_hit(initial, texts, j) && results[j] == initial[texts[j]]
}

/// Every segment from `from` on that has results was settled from the
/// cache.
pub open spec fn settled_from_cache(
    initial: Map<Seq<char>, Seq<SuggestionView>>,
    texts: Seq<Seq<char>>,
    results: Seq<Seq<SuggestionView>>,
    from: int,
) -> bool {
    forall|j: int| from <= j < results.len() ==> #[trigger] from_cache(initial, texts, results, j)
}

/// The cache that the first `k` segments of a pass leave for the next pass:
/// each text with the suggestions of its last segment.
pub open spec fn rebuilt(
    texts: Seq<Seq<char>>,
    results: Seq<Seq<SuggestionView>>,
    k: int,
) -> Map<Seq<char>, Seq<SuggestionView>>
    decreases k,
{
    if k <= 0 {
        Map::empty()
    } else {
        rebuilt(texts, results, k - 1).insert(texts[k - 1], results[k - 1])
    }
}

/// What a pass needs next.
#[derive(Clone, Debug, PartialEq, Eq)]
pub enum Step {
    /// The analyzer is to check `text` as `language`.
    Analyze { language: String, text: String },
    /// Every segment has its suggestions.
    Done,
}

/// A check pass in progress.
pub struct CheckPass {
    segments: Vec<Segment>,
    results: Vec<Vec<Suggestion>>,
    previous: Cache,
    next: Cache,
    awaiting: bool,
    initial: Ghost<Map<Seq<char>, Seq<SuggestionView>>>,
}

impl CheckPass {
    /// The texts of the segments of this pass, in order.
    pub closed spec fn texts(&self) -> Seq<Seq<char>> {
        segment_texts(self.segments@)
    }

    /// The language tags of the segments of this pass, in order.
    pub closed spec fn languages(&self) -> Seq<Seq<char>> {
        segment_languages(self.segments@)
    }

    /// The cache that the pass began with.
    pub closed spec fn initial(&self) -> Map<Seq<char>, Seq<SuggestionView>> {
        self.initial@
    }

    /// The suggestions of the segments settled so far, in order.
    pub closed spec fn results(&self) -> Seq<Seq<SuggestionView>> {
        results_view(self.results@)
    }

    /// What is left of the cache that the pass began with.
    pub closed spec fn remaining(&self) -> Map<Seq<char>, Seq<SuggestionView>> {
        self.previous@
    }

    /// The cache gathered for the next pass.
    pub closed spec fn collected(&self) -> Map<Seq<char>, Seq<SuggestionView>> {
        self.next@
    }

    /// The pass waits for the analyzer's answer on its next segment.
    pub closed spec fn awaiting(&self) -> bool {
        self.awaiting
    }

    /// Every segment has its suggestions.
    pub open spec fn complete(&self) -> bool {
        self.results().len() == self.texts().len()
    }

    /// The pass is in order.
    #[verifier::type_invariant]
    spec fn wf(&self) -> bool {
        in_order(
            self.texts(),
            self.languages(),
            self.initial(),
            self.results(),
            self.remaining(),
            self.collected(),
            self.awaiting(),
        )
    }

    /// Begins a pass over `segments` with the cache of the pass before.
    pub fn begin(previous: Cache, segments: Vec<Segment>) -> (pass: Self)
        ensures
            pass.texts() == segment_texts(segments@),
            pass.languages() == segment_languages(segments@),
            pass.initial() == previous@,
            pass.results() == Seq::<Seq<SuggestionView>>::empty(),
            !pass.awaiting(),
    {
        let ghost initial = previous@;
        let ghost texts = segment_texts(segments@);
        let next = Cache::new();
        let results: Vec<Vec<Suggestion>> = Vec::new();
        proof {
            assert(results_view(results@) =~= Seq::<Seq<SuggestionView>>::empty());
            assert(texts.take(0) =~= Seq::<Seq<char>>::empty());
            assert(previous@ =~= unconsumed(initial, texts, 0));
        }
        Self { segments, results, previous, next, awaiting: false, initial: Ghost(initial) }
    }

    /// Settles segments from the cache until one is not found there, and
    /// asks for that one to be analyzed; says `Done` when none is left.
    /// While an answer is waited for, it asks for the same segment again.
    pub fn advance(&mut self, languages: &LanguageMap) -> (step: Step)
        ensures
            final(self).texts() == old(self).texts(),
            final(self).languages() == old(self).languages(),
            final(self).initial() == old(self).initial(),
            old(self).results().len() <= final(self).results().len() <= final(self).texts().len(),
            final(self).results().take(old(self).results().len() as int) == old(self).results(),
            settled_from_cache(
                final(self).initial(),
                final(self).texts(),
                final(self).results(),
                old(self).results().len() as int,
            ),
            old(self).awaiting() ==> final(self).results() == old(self).results(),
            match step {
                Step::Analyze { language, text } => {
                    let k = final(self).results().len() as int;
                    &&& final(self).awaiting()
                    &&& k < final(self).texts().len()
                    &&& !is_hit(final(self).initial(), final(self).texts(), k)
                    &&& text@ == final(self).texts()[k]
                    &&& language@ == resolved_language(languages@, final(self).languages()[k])
                },
                Step::Done => final(self).complete() && !final(self).awaiting(),
            },
    {
        proof {
            use_type_invariant(&*self);
        }
        let mut taken = CheckPass::begin(Cache::new(), Vec::new());
        std::mem::swap(self, &mut taken);
        let CheckPass { segments, mut results, mut previous, mut next, mut awaiting, initial } =
            taken;
        let ghost texts = segment_texts(segments@);
        let ghost tags = segment_languages(segments@);
        let ghost before = results_view(results@);
        assert(before.take(before.len() as int) =~= before);
        while !awaiting && results.len() < segments.len()
            invariant
                texts == segment_texts(segments@),
                in_order(texts, tags, initial@, results_view(results@), previous@, next@, awaiting),
                before.len() <= results_view(results@).len(),
                results_view(results@).take(before.len() as int) == before,
                settled_from_cache(
                    initial@,
                    texts,
                    results_view(results@),
                    before.len() as int,
                ),
                old(self).awaiting() ==> awaiting && results_view(results@) == before,
            decreases segments.len() - results.len() + if awaiting { 0int } else { 1int },
        {
            let k = results.len();
            let ghost settled = results_view(results@);
            let ghost left = previous@;
            assert(texts[k as int] == segments@[k as int].text@);
            match previous.get(segments[k].text.as_str()) {
                Some(found) => {
                    next.insert(segments[k].text.clone(), copy_suggestions(&found));
                    results.push(found);
                    proof {
                        let r = suggestions_view(found@);
                        assert(results_view(results@) =~= settled.push(r));
                        lemma_unconsumed_step(initial@, texts, k as int);
                        lemma_rebuilt_prefix(texts, settled, results_view(results@), k as int);
                        assert(results_view(results@).take(before.len() as int) =~= settled.take(
                            before.len() as int,
                        ));
                        assert(left == unconsumed(initial@, texts, k as int));
                        lemma_settled_step(initial@, texts, settled, r, before.len() as int);
                    }
                },
                None => {
                    assert(previous@ =~= left);
                    awaiting = true;
                },
            }
        }
        let step = if awaiting {
            let k = results.len();
            Step::Analyze {
                language: languages.resolve(segments[k].language.as_str()),
                text: segments[k].text.clone(),
            }
        } else {
            Step::Done
        };
        *self = CheckPass { segments, results, previous, next, awaiting, initial };
        step
    }

    /// Takes the analyzer's answer for the segment that was asked for. An
    /// answer that was not asked for is refused, and nothing changes.
    pub fn supply(&mut self, suggestions: Vec<Suggestion>) -> (accepted: bool)
        ensures
            final(self).texts() == old(self).texts(),
            final(self).languages() == old(self).languages(),
            final(self).initial() == old(self).initial(),
            accepted == old(self).awaiting(),
            !final(self).awaiting(),
            final(self).results().len() <= final(self).texts().len(),
            accepted ==> final(self).results() == old(self).results().push(
                suggestions_view(suggestions@),
            ),
            !accepted ==> final(self).results() == old(self).results(),
    {
        proof {
            use_type_invariant(&*self);
        }
        if !self.awaiting {
            return false;
        }
        let mut taken = CheckPass::begin(Cache::new(), Vec::new());
        std::mem::swap(self, &mut taken);
        let CheckPass { segments, mut results, previous, mut next, awaiting: _, initial } = taken;
        let ghost texts = segment_texts(segments@);
        let ghost settled = results_view(results@);
        let k = results.len();
        let ghost r = suggestions_view(suggestions@);
        next.insert(segments[k].text.clone(), copy_suggestions(&suggestions));
        results.push(suggestions);
        proof {
            assert(results_view(results@) =~= settled.push(r));
            lemma_unconsumed_step(initial@, texts, k as int);
            assert(previous@ =~= unconsumed(initial@, texts, k + 1));
            lemma_rebuilt_prefix(texts, settled, results_view(results@), k as int);
        }
        *self = CheckPass { segments, results, previous, next, awaiting: false, initial };
        true
    }

    /// Ends the pass. A complete pass hands out the cache for the next pass
    /// and every segment's suggestions, in the order of the segments. A pass
    /// that is given up hands out what is left of the cache it began with,
    /// and no suggestions.
    pub fn conclude(self) -> (outcome: (Cache, Option<Vec<Vec<Suggestion>>>))
        ensures
            self.complete() ==> outcome.0@ == rebuilt(
                self.texts(),
                self.results(),
                self.texts().len() as int,
            ),
            self.complete() <==> outcome.1 is Some,
            outcome.1 matches Some(r) ==> results_view(r@) == self.results(),
            !self.complete() ==> outcome.0@ == unconsumed(
                self.initial(),
                self.texts(),
                self.results().len() as int,
            ),
    {
        proof {
            use_type_invariant(&self);
        }
        let CheckPass { segments, results, previous, next, awaiting: _, initial: _ } = self;
        if results.len() == segments.len() {
            (next, Some(results))
        } else {
            (previous, None)
        }
    }
}

/// What holds of a pass over `texts` that began with the cache `initial`
/// and has settled the segments that `results` has entries for.
pub open spec fn in_order(
    texts: Seq<Seq<char>>,
    languages: Seq<Seq<char>>,
    initial: Map<Seq<char>, Seq<SuggestionView>>,
    results: Seq<Seq<SuggestionView>>,
    remaining: Map<Seq<char>, Seq<SuggestionView>>,
    collected: Map<Seq<char>, Seq<SuggestionView>>,
    awaiting: bool,
) -> bool {
    let k = results.len() as int;
    &&& k <= texts.len()
    &&& languages.len() == texts.len()
    &&& remaining == unconsumed(initial, texts, k)
    &&& collected == rebuilt(texts, results, k)
    &&& forall|j: int|
        0 <= j < k && is_hit(initial, texts, j) ==> #[trigger] results[j] == initial[texts[j]]
    &&& awaiting ==> k < texts.len() && !is_hit(initial, texts, k)
}

/// One more segment settled from the cache keeps all of them so.
pub proof fn lemma_settled_step(
    initial: Map<Seq<char>, Seq<SuggestionView>>,
    texts: Seq<Seq<char>>,
    settled: Seq<Seq<SuggestionView>>,
    found: Seq<SuggestionView>,
    from: int,
)
    requires
        0 <= from,
        settled_from_cache(initial, texts, settled, from),
        is_hit(initial, texts, settled.len() as int),
        found == initial[texts[settled.len() as int]],
    ensures
        settled_from_cache(initial, texts, settled.push(found), from),
{
    let after = settled.push(found);
    assert forall|j: int| from <= j < after.len() implies #[trigger] from_cache(
        initial,
        texts,
        after,
        j,
    ) by {
        if j < settled.len() {
            assert(from_cache(initial, texts, settled, j));
            assert(after[j] == settled[j]);
        }
    }
}

/// Looking up one more text takes that text out of what is left.
pub proof fn lemma_unconsumed_step(
    initial: Map<Seq<char>, Seq<SuggestionView>>,
    texts: Seq<Seq<char>>,
    k: int,
)
    requires
        0 <= k < texts.len(),
    ensures
        unconsumed(initial, texts, k + 1) == unconsumed(initial, texts, k).remove(texts[k]),
{
    assert(texts.take(k + 1) =~= texts.take(k).push(texts[k]));
    assert forall|x: Seq<char>| texts.take(k + 1).contains(x) <==> (texts.take(k).contains(x) || x
        == texts[k]) by {
        if texts.take(k).contains(x) {
            let prior = texts.take(k);
            let i = choose|i: int| 0 <= i < prior.len() && prior[i] == x;
            assert(texts.take(k + 1)[i] == x);
        }
        if x == texts[k] {
            assert(texts.take(k + 1)[k] == x);
        }
    }
    assert(unconsumed(initial, texts, k + 1) =~= unconsumed(initial, texts, k).remove(texts[k]));
}

/// The cache that `k` segments leave depends on their results only.
pub proof fn lemma_rebuilt_prefix(
    texts: Seq<Seq<char>>,
    first: Seq<Seq<SuggestionView>>,
    second: Seq<Seq<SuggestionView>>,
    k: int,
)
    requires
        0 <= k <= first.len(),
        k <= second.len(),
        forall|j: int| 0 <= j < k ==> first[j] == second[j],
    ensures
        rebuilt(texts, first, k) == rebuilt(texts, second, k),
    decreases k,
{
    if k > 0 {
        lemma_rebuilt_prefix(texts, first, second, k - 1);
    }
}

/// The cache that `k` segments leave holds the texts of those segments and
/// no other text.
pub proof fn lemma_rebuilt_domain(
    texts: Seq<Seq<char>>,
    results: Seq<Seq<SuggestionView>>,
    k: int,
    text: Seq<char>,
)
    requires
        0 <= k <= texts.len(),
    ensures
        rebuilt(texts, results, k).contains_key(text) <==> texts.take(k).contains(text),
    decreases k,
{
    if k > 0 {
        lemma_rebuilt_domain(texts, results, k - 1, text);
        assert(texts.take(k) =~= texts.take(k - 1).push(texts[k - 1]));
        if texts.take(k - 1).contains(text) {
            let prior = texts.take(k - 1);
            let i = choose|i: int| 0 <= i < prior.len() && prior[i] == text;
            assert(texts.take(k)[i] == text);
        }
        if text == texts[k - 1] {
            assert(texts.take(k)[k - 1] == text);
        }
    }
}

/// Cache non-growth: a text that no segment of a pass has is not in the
/// cache that the pass leaves, whatever the cache before held.
pub proof fn lemma_cache_holds_pass_only(
    texts: Seq<Seq<char>>,
    results: Seq<Seq<SuggestionView>>,
    text: Seq<char>,
)
    requires
        !texts.contains(text),
    ensures
        !rebuilt(texts, results, texts.len() as int).contains_key(text),
{
    lemma_rebuilt_domain(texts, results, texts.len() as int, text);
    assert(texts.take(texts.len() as int) =~= texts);
}

/// The cache that `k` segments leave holds, for the text of segment `j`, the
/// results of `j` when no later segment among the `k` has the same text.
pub proof fn lemma_rebuilt_value(
    texts: Seq<Seq<char>>,
    results: Seq<Seq<SuggestionView>>,
    k: int,
    j: int,
)
    requires
        0 <= j < k <= texts.len(),
        forall|i: int| j < i < k ==> texts[i] != texts[j],
    ensures
        rebuilt(texts, results, k).contains_key(texts[j]),
        rebuilt(texts, results, k)[texts[j]] == results[j],
    decreases k,
{
    if j < k - 1 {
        lemma_rebuilt_value(texts, results, k - 1, j);
    }
}

/// Cache reuse: when a pass runs on the cache that a complete pass over the
/// same texts left, a segment whose text comes once in the pass is found in
/// the cache, with the results that the pass before had for it. Such a
/// segment is settled without the analyzer.
pub proof fn lemma_second_pass_reuses(
    texts: Seq<Seq<char>>,
    results: Seq<Seq<SuggestionView>>,
    j: int,
)
    requires
        0 <= j < texts.len(),
        forall|i: int| 0 <= i < texts.len() && i != j ==> texts[i] != texts[j],
    ensures
        is_hit(rebuilt(texts, results, texts.len() as int), texts, j),
        rebuilt(texts, results, texts.len() as int)[texts[j]] == results[j],
{
    lemma_rebuilt_value(texts, results, texts.len() as int, j);
    if texts.take(j).contains(texts[j]) {
        let prior = texts.take(j);
        let i = choose|i: int| 0 <= i < prior.len() && prior[i] == texts[j];
        assert(texts[i] == texts[j]);
    }
}

/// A text that comes twice in a pass is found in the cache once: its second
/// segment is not found.
pub proof fn lemma_repeated_text_misses(
    initial: Map<Seq<char>, Seq<SuggestionView>>,
    texts: Seq<Seq<char>>,
    i: int,
    j: int,
)
    requires
        0 <= i < j < texts.len(),
        texts[i] == texts[j],
    ensures
        !is_hit(initial, texts, j),
{
    assert(texts.take(j)[i] == texts[j]);
}

} // verus!
