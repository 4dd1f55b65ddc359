//! The catalog of hints: each key with its entry, in the order in which the
//! keys first came.

use vstd::hash_map::StringHashMap;
use vstd::prelude::*;

verus! {

/// One hint as its author wrote it.
#[derive(Debug)]
pub struct HintEntry {
    /// The body of the hint, in Markdown.
    pub hint: String,
    /// Words that may one day link to the hint by themselves. Nothing reads
    /// them yet.
    pub auto: Option<Vec<String>>,
}

/// What a [`HintEntry`] holds.
pub struct HintEntryView {
    pub hint: Seq<char>,
    pub auto: Option<Seq<Seq<char>>>,
}

impl View for HintEntry {
    type V = HintEntryView;

    open spec fn view(&self) -> HintEntryView {
        HintEntryView {
            hint: self.hint@,
            auto: match self.auto {
                Some(words) => Some(words@.map_values(|word: String| word@)),
                None => None,
            },
        }
    }
}

impl HintEntry {
    /// An entry with the body `hint` and no words.
    pub fn new(hint: String) -> (entry: Self)
        ensures
            entry@ == (HintEntryView { hint: hint@, auto: None }),
    {
        HintEntry { hint, auto: None }
    }
}

/// The hints of a book by key. A key occurs once; an entry that comes under
/// a key already there takes the place of the earlier one.
pub struct HintCatalog {
    keys: Vec<String>,
    entries: StringHashMap<HintEntry>,
}

impl View for HintCatalog {
    type V = Map<Seq<char>, HintEntryView>;

    closed spec fn view(&self) -> Map<Seq<char>, HintEntryView> {
        self.entries@.map_values(|entry: HintEntry| entry@)
    }
}

impl HintCatalog {
    /// The keys in the order in which they first came.
    pub closed spec fn ordered_keys(&self) -> Seq<Seq<char>> {
        self.keys@.map_values(|key: String| key@)
    }

    /// `keys` names each key once, and exactly the keys that have an entry.
    pub open spec fn lists(keys: Seq<Seq<char>>, entries: Map<Seq<char>, HintEntryView>) -> bool {
        &&& keys.no_duplicates()
        &&& forall|key: Seq<char>| keys.contains(key) <==> entries.contains_key(key)
    }

    /// The catalog's invariant: the ordered keys are those of the entries.
    pub closed spec fn wf(&self) -> bool {
        Self::lists(self.ordered_keys(), self@)
    }

    /// In a well-formed catalog the ordered keys list the entries.
    pub proof fn lemma_keys_list_entries(&self)
        requires
            self.wf(),
        ensures
            Self::lists(self.ordered_keys(), self@),
    {
    }

    /// The empty catalog.
    pub fn new() -> (catalog: Self)
        ensures
            catalog.wf(),
            catalog@ == Map::<Seq<char>, HintEntryView>::empty(),
            catalog.ordered_keys() == Seq::<Seq<char>>::empty(),
    {
        HintCatalog { keys: Vec::new(), entries: StringHashMap::new() }
    }

    /// Puts `entry` under `key`. An entry already under `key` is replaced
    /// and the key keeps its place; a new key goes to the end.
    pub fn insert(&mut self, key: String, entry: HintEntry)
        requires
            old(self).wf(),
        ensures
            final(self).wf(),
            final(self)@ == old(self)@.insert(key@, entry@),
            final(self).ordered_keys() == if old(self)@.contains_key(key@) {
                old(self).ordered_keys()
            } else {
                old(self).ordered_keys().push(key@)
            },
    {
        let ghost before = *self;
        if !self.entries.contains_key(key.as_str()) {
            self.keys.push(key.clone());
        }
        self.entries.insert(key, entry);
        proof {
            let keys = self.ordered_keys();
            let old_keys = before.ordered_keys();
            assert forall|k: Seq<char>| keys.contains(k) <==> self@.contains_key(k) by {
                if keys.contains(k) {
                    let i = choose|i: int| 0 <= i < keys.len() && keys[i] == k;
                    if i < old_keys.len() {
                        assert(old_keys[i] == k);
                    }
                }
                if self@.contains_key(k) && k != key@ {
                    assert(old_keys.contains(k));
                    let i = choose|i: int| 0 <= i < old_keys.len() && old_keys[i] == k;
                    assert(keys[i] == k);
                }
                if k == key@ {
                    if before@.contains_key(key@) {
                        assert(old_keys.contains(k));
                    } else {
                        assert(keys[old_keys.len() as int] == k);
                    }
                }
            }
            assert forall|i: int, j: int|
                0 <= i < keys.len() && 0 <= j < keys.len() && i != j implies keys[i] != keys[j] by {
                if i < old_keys.len() && j < old_keys.len() {
                    assert(old_keys[i] != old_keys[j]);
                } else if i < old_keys.len() {
                    assert(old_keys.contains(old_keys[i]));
                } else if j < old_keys.len() {
                    assert(old_keys.contains(old_keys[j]));
                }
            }
        }
    }

    /// Whether `key` has an entry.
    pub fn contains_key(&self, key: &str) -> (found: bool)
        ensures
            found == self@.contains_key(key@),
    {
        self.entries.contains_key(key)
    }

    /// The entry under `key`.
    pub fn get(&self, key: &str) -> (entry: Option<&HintEntry>)
        ensures
            match entry {
                Some(entry) => self@.contains_key(key@) && entry@ == self@[key@],
                None => !self@.contains_key(key@),
            },
    {
        self.entries.get(key)
    }

    /// The number of entries.
    pub fn len(&self) -> (len: usize)
        requires
            self.wf(),
        ensures
            len == self.ordered_keys().len(),
            len == self@.len(),
    {
        proof {
            self.lemma_len();
        }
        self.keys.len()
    }

    /// A well-formed catalog has as many entries as ordered keys.
    pub proof fn lemma_len(&self)
        requires
            self.wf(),
        ensures
            self@.dom().finite(),
            self@.len() == self.ordered_keys().len(),
    {
        let keys = self.ordered_keys();
        keys.unique_seq_to_set();
        assert(keys.to_set() =~= self@.dom());
    }

    /// Whether the catalog has no entry.
    pub fn is_empty(&self) -> (empty: bool)
        requires
            self.wf(),
        ensures
            empty == (self@.len() == 0),
    {
        self.len() == 0
    }

    /// The entry of the key that came `index`-th.
    pub fn entry(&self, index: usize) -> (entry: &HintEntry)
        requires
            self.wf(),
            index < self.ordered_keys().len(),
        ensures
            self@.contains_key(self.ordered_keys()[index as int]),
            entry@ == self@[self.ordered_keys()[index as int]],
    {
        assert(self.ordered_keys().contains(self.ordered_keys()[index as int]));
        let entry = self.entries.get(self.keys[index].as_str());
        entry.unwrap()
    }

    /// The key that came `index`-th.
    pub fn key(&self, index: usize) -> (key: &str)
        requires
            index < self.ordered_keys().len(),
        ensures
            key@ == self.ordered_keys()[index as int],
    {
        self.keys[index].as_str()
    }
}

} // verus!
