//! Which language the analyzer is asked for: the configured tag for the
//! base language of a segment, where one is configured.

use crate::payload::strings_view;
use vstd::hash_map::StringHashMap;
use vstd::prelude::*;
use vstd::string::*;

verus! {

/// The base language of a tag ends at `i`: at the first hyphen, or at the
/// end of a tag without one.
pub open spec fn is_base_end(tag: Seq<char>, i: int) -> bool {
    &&& 0 <= i <= tag.len()
    &&& i == tag.len() || tag[i] == '-'
    &&& forall|j: int| 0 <= j < i ==> tag[j] != '-'
}

/// The base language of a tag: what stands before its first hyphen, so
/// `en` for `en-US`, and the whole of a tag without a hyphen.
pub open spec fn base_tag(tag: Seq<char>) -> Seq<char> {
    tag.take(choose|i: int| is_base_end(tag, i))
}

/// The table made from a list of language tags: each tag under its base
/// language, a later tag in place of an earlier one with the same base.
pub open spec fn language_table(tags: Seq<Seq<char>>) -> Map<Seq<char>, Seq<char>>
    decreases tags.len(),
{
    if tags.len() == 0 {
        Map::empty()
    } else {
        language_table(tags.drop_last()).insert(base_tag(tags.last()), tags.last())
    }
}

/// The language to ask for a segment tagged `tag`: the configured tag for
/// its base language, or `tag` itself where none is configured.
pub open spec fn resolved_language(table: Map<Seq<char>, Seq<char>>, tag: Seq<char>) -> Seq<char> {
    if table.contains_key(base_tag(tag)) {
        table[base_tag(tag)]
    } else {
        tag
    }
}

/// The base language of a tag has one end only.
pub proof fn lemma_base_end_unique(tag: Seq<char>, i: int, j: int)
    requires
        is_base_end(tag, i),
        is_base_end(tag, j),
    ensures
        i == j,
{
}

/// The base language of a tag.
pub fn base_language(tag: &str) -> (base: String)
    ensures
        base@ == base_tag(tag@),
{
    let len = tag.unicode_len();
    let mut i: usize = 0;
    while i < len && tag.get_char(i) != '-'
        invariant
            len == tag@.len(),
            i <= len,
            forall|j: int| 0 <= j < i ==> tag@[j] != '-',
        decreases len - i,
    {
        i += 1;
    }
    proof {
        assert(is_base_end(tag@, i as int));
        lemma_base_end_unique(tag@, i as int, choose|k: int| is_base_end(tag@, k));
    }
    tag.substring_char(0, i).to_owned()
}

/// Configured language tags by base language.
pub struct LanguageMap {
    codes: StringHashMap<String>,
}

impl View for LanguageMap {
    type V = Map<Seq<char>, Seq<char>>;

    closed spec fn view(&self) -> Map<Seq<char>, Seq<char>> {
        Map::new(
            |base: Seq<char>| self.codes@.contains_key(base),
            |base: Seq<char>| self.codes@[base]@,
        )
    }
}

impl LanguageMap {
    /// The language to ask for a segment with the given tag.
    pub fn resolve(&self, tag: &str) -> (language: String)
        ensures
            language@ == resolved_language(self@, tag@),
    {
        let base = base_language(tag);
        match self.codes.get(base.as_str()) {
            Some(configured) => configured.clone(),
            None => tag.to_owned(),
        }
    }
}

/// The table of a list of configured language tags.
pub fn create_language_map(codes: Vec<String>) -> (map: LanguageMap)
    ensures
        map@ == language_table(strings_view(codes@)),
{
    let mut map = LanguageMap { codes: StringHashMap::new() };
    assert(map@ =~= language_table(strings_view(codes@.take(0))));
    let mut i: usize = 0;
    while i < codes.len()
        invariant
            i <= codes.len(),
            map@ == language_table(strings_view(codes@.take(i as int))),
        decreases codes.len() - i,
    {
        let ghost before = map@;
        let base = base_language(codes[i].as_str());
        map.codes.insert(base, codes[i].clone());
        proof {
            let tags = strings_view(codes@.take(i + 1));
            assert(tags.drop_last() =~= strings_view(codes@.take(i as int)));
            assert(tags.last() == codes@[i as int]@);
            assert(map@ =~= before.insert(base_tag(tags.last()), tags.last()));
        }
        i += 1;
    }
    assert(codes@.take(codes.len() as int) =~= codes@);
    map
}

} // verus!
