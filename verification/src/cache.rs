//! The cache of rendered hints: each key of the catalog with the fragment
//! of its hint, and the JSON object that a page's script reads it from.

use std::collections::BTreeMap;
use vstd::prelude::*;
use vstd::string::*;

use crate::catalog::{HintCatalog, HintEntryView};
use crate::error::HintError;
use crate::render::{fragment, render_hint};

verus! {

/// `serde_json::Error`, the serializer's reason for failing.
#[verifier::external_type_specification]
#[verifier::external_body]
pub struct ExJsonError(serde_json::Error);

/// The JSON text of the object whose members are `entries`, each value a
/// string; `None` where the serializer fails.
pub uninterp spec fn json_object(entries: Map<Seq<char>, Seq<char>>) -> Option<Seq<char>>;

/// The map that takes each of `keys` to the value at the same place.
pub open spec fn paired(keys: Seq<Seq<char>>, values: Seq<Seq<char>>) -> Map<
    Seq<char>,
    Seq<char>,
> {
    Map::new(|key: Seq<char>| keys.contains(key), |key: Seq<char>| values[keys.index_of(key)])
}

/// What the strings of a vector hold.
pub open spec fn texts(strings: Seq<String>) -> Seq<Seq<char>> {
    strings.map_values(|text: String| text@)
}

/// Calls `serde_json::to_string` on a map from each of `keys` to the value
/// at the same place. The map is ordered by key, so the text depends on
/// nothing but the members.
#[verifier::external_body]
fn serialize(keys: &Vec<String>, values: &Vec<String>) -> (json: Result<String, serde_json::Error>)
    requires
        keys.len() == values.len(),
        texts(keys@).no_duplicates(),
    ensures
        match json {
            Ok(text) => json_object(paired(texts(keys@), texts(values@))) == Some(text@),
            Err(_) => json_object(paired(texts(keys@), texts(values@))) is None,
        },
{
    let object: BTreeMap<&String, &String> = keys.iter().zip(values.iter()).collect();
    serde_json::to_string(&object)
}

/// Every hint of `catalog` has a fragment.
pub open spec fn renders(catalog: Map<Seq<char>, HintEntryView>) -> bool {
    forall|key: Seq<char>| catalog.contains_key(key) ==> fragment(catalog[key].hint) is Some
}

/// The fragments of the hints of `catalog`, under the catalog's keys.
pub open spec fn rendered(catalog: Map<Seq<char>, HintEntryView>) -> Map<Seq<char>, Seq<char>> {
    Map::new(
        |key: Seq<char>| catalog.contains_key(key),
        |key: Seq<char>| fragment(catalog[key].hint)->0,
    )
}

/// The hint under `keys[index]` is the first, in the order of `keys`, that
/// has no fragment.
pub open spec fn fails_first_at(
    catalog: Map<Seq<char>, HintEntryView>,
    keys: Seq<Seq<char>>,
    index: int,
) -> bool {
    &&& 0 <= index < keys.len()
    &&& catalog.contains_key(keys[index])
    &&& fragment(catalog[keys[index]].hint) is None
    &&& forall|earlier: int|
        0 <= earlier < index ==> fragment(catalog[#[trigger] keys[earlier]].hint) is Some
}

/// The cache has the keys of the catalog that it was rendered from, and no
/// others.
pub proof fn lemma_cache_complete(catalog: Map<Seq<char>, HintEntryView>)
    ensures
        rendered(catalog).dom() == catalog.dom(),
{
}

/// The rendered hints, by key.
#[derive(Debug)]
pub struct RenderedHintCache {
    keys: Vec<String>,
    fragments: Vec<String>,
}

impl View for RenderedHintCache {
    type V = Map<Seq<char>, Seq<char>>;

    closed spec fn view(&self) -> Map<Seq<char>, Seq<char>> {
        paired(texts(self.keys@), texts(self.fragments@))
    }
}

impl RenderedHintCache {
    /// The cache's invariant: one fragment for each key, and no key twice.
    pub closed spec fn wf(&self) -> bool {
        &&& self.keys.len() == self.fragments.len()
        &&& texts(self.keys@).no_duplicates()
    }

    /// Renders every hint of `catalog`, in the order of its keys. The first
    /// hint that the compiler rejects ends the work with its error.
    pub fn build(catalog: &HintCatalog) -> (out: Result<Self, HintError>)
        requires
            catalog.wf(),
        ensures
            match out {
                Ok(cache) => {
                    &&& cache.wf()
                    &&& renders(catalog@)
                    &&& cache@ == rendered(catalog@)
                    &&& cache@.dom() == catalog@.dom()
                },
                Err(error) => exists|index: int|
                    {
                        &&& #[trigger] fails_first_at(catalog@, catalog.ordered_keys(), index)
                        &&& error matches HintError::Render { key }
                        &&& key@ == catalog.ordered_keys()[index]
                    },
            },
    {
        let mut keys: Vec<String> = Vec::new();
        let mut fragments: Vec<String> = Vec::new();
        let count = catalog.len();
        let mut index: usize = 0;
        proof {
            catalog.lemma_keys_list_entries();
        }
        while index < count
            invariant
                catalog.wf(),
                HintCatalog::lists(catalog.ordered_keys(), catalog@),
                count == catalog.ordered_keys().len(),
                index <= count,
                keys.len() == index,
                fragments.len() == index,
                forall|done: int|
                    0 <= done < index ==> {
                        &&& (#[trigger] keys[done])@ == catalog.ordered_keys()[done]
                        &&& fragment(catalog@[catalog.ordered_keys()[done]].hint) == Some(
                            fragments[done]@,
                        )
                    },
            decreases count - index,
        {
            let key = catalog.key(index);
            let entry = catalog.entry(index);
            match render_hint(key, entry.hint.as_str()) {
                Ok(inline) => {
                    keys.push(String::from_str(key));
                    fragments.push(inline);
                },
                Err(error) => {
                    proof {
                        assert forall|earlier: int| 0 <= earlier < index implies fragment(
                            catalog@[#[trigger] catalog.ordered_keys()[earlier]].hint,
                        ) is Some by {
                            assert(keys[earlier]@ == catalog.ordered_keys()[earlier]);
                        }
                        assert(fails_first_at(catalog@, catalog.ordered_keys(), index as int));
                    }
                    return Err(error);
                },
            }
            index += 1;
        }
        let cache = RenderedHintCache { keys, fragments };
        proof {
            let ordered = catalog.ordered_keys();
            assert(texts(cache.keys@) =~= ordered);
            assert forall|key: Seq<char>| catalog@.contains_key(key) implies fragment(
                catalog@[key].hint,
            ) == Some(#[trigger] cache@[key]) by {
                assert(ordered.contains(key));
            }
            assert(cache@.dom() =~= catalog@.dom());
        }
        Ok(cache)
    }

    /// The number of cached hints.
    pub fn len(&self) -> (len: usize)
        requires
            self.wf(),
        ensures
            self@.dom().finite(),
            len == self@.len(),
    {
        proof {
            texts(self.keys@).unique_seq_to_set();
        }
        self.keys.len()
    }

    /// The fragment of the hint under `key`.
    pub fn get(&self, key: &str) -> (inline: Option<&str>)
        requires
            self.wf(),
        ensures
            match inline {
                Some(inline) => self@.contains_key(key@) && inline@ == self@[key@],
                None => !self@.contains_key(key@),
            },
    {
        let wanted = String::from_str(key);
        let mut index: usize = 0;
        while index < self.keys.len()
            invariant
                self.wf(),
                wanted@ == key@,
                index <= self.keys.len(),
                forall|seen: int| 0 <= seen < index ==> (#[trigger] self.keys[seen])@ != key@,
            decreases self.keys.len() - index,
        {
            if self.keys[index] == wanted {
                assert(texts(self.keys@)[index as int] == key@);
                return Some(self.fragments[index].as_str());
            }
            index += 1;
        }
        None
    }

    /// What is made of the serializer's answer: its text, or the error of
    /// a cache that cannot be written.
    pub fn json_of(serialized: Result<String, serde_json::Error>) -> (out: Result<String, HintError>)
        ensures
            match serialized {
                Ok(text) => out == Ok::<String, HintError>(text),
                Err(_) => out == Err::<String, HintError>(HintError::Io),
            },
    {
        match serialized {
            Ok(text) => Ok(text),
            Err(_) => Err(HintError::Io),
        }
    }

    /// The cache as the text of one JSON object, each key with its
    /// fragment.
    pub fn to_json(&self) -> (out: Result<String, HintError>)
        requires
            self.wf(),
        ensures
            match json_object(self@) {
                Some(text) => out matches Ok(json) && json@ == text,
                None => out == Err::<String, HintError>(HintError::Io),
            },
    {
        Self::json_of(serialize(&self.keys, &self.fragments))
    }
}

/// What [`output_json`] gives for a catalog: the JSON text of its rendered
/// hints, the error of the first hint without a fragment, or the error of
/// a cache that cannot be serialized.
pub open spec fn is_cache_json(
    catalog: Map<Seq<char>, HintEntryView>,
    keys: Seq<Seq<char>>,
    out: Result<String, HintError>,
) -> bool {
    match out {
        Ok(json) => renders(catalog) && json_object(rendered(catalog)) == Some(json@),
        Err(HintError::Render { key }) => exists|index: int| #[trigger]
            fails_first_at(catalog, keys, index) && key@ == keys[index],
        Err(HintError::Io) => renders(catalog) && json_object(rendered(catalog)) is None,
        Err(HintError::Pattern) => false,
    }
}

/// Renders the catalog and serializes the cache: the text to write for the
/// page's script.
pub fn output_json(catalog: &HintCatalog) -> (out: Result<String, HintError>)
    requires
        catalog.wf(),
    ensures
        is_cache_json(catalog@, catalog.ordered_keys(), out),
{
    match RenderedHintCache::build(catalog) {
        Ok(cache) => cache.to_json(),
        Err(error) => Err(error),
    }
}

} // verus!
