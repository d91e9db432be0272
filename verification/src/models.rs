//! The table of configured models, keyed by name.

use crate::config::ModelConfig;
use crate::text::same_text;
use vstd::prelude::*;

verus! {

/// Model configurations by model name. No name occurs twice; a new entry goes to the end.
#[derive(Debug)]
pub struct ModelMap {
    entries: Vec<(String, ModelConfig)>,
}

spec fn names_of(entries: Seq<(String, ModelConfig)>) -> Seq<Seq<char>> {
    Seq::new(entries.len(), |i: int| entries[i].0@)
}

spec fn map_of(entries: Seq<(String, ModelConfig)>) -> Map<Seq<char>, ModelConfig> {
    Map::new(
        |name: Seq<char>| names_of(entries).contains(name),
        |name: Seq<char>| entries[names_of(entries).index_of(name)].1,
    )
}

/// Each entry is what the table holds under its name.
proof fn lemma_map_at(entries: Seq<(String, ModelConfig)>, i: int)
    requires
        names_of(entries).no_duplicates(),
        0 <= i < entries.len(),
    ensures
        map_of(entries).contains_key(entries[i].0@),
        map_of(entries)[entries[i].0@] == entries[i].1,
{
    let names = names_of(entries);
    assert(names[i] == entries[i].0@);
    assert(names.contains(names[i]));
}

proof fn lemma_map_push(entries: Seq<(String, ModelConfig)>, entry: (String, ModelConfig))
    requires
        names_of(entries).no_duplicates(),
        !names_of(entries).contains(entry.0@),
    ensures
        names_of(entries.push(entry)) == names_of(entries).push(entry.0@),
        names_of(entries.push(entry)).no_duplicates(),
        map_of(entries.push(entry)) == map_of(entries).insert(entry.0@, entry.1),
{
    let after = entries.push(entry);
    let names = names_of(entries);
    assert(names_of(after) == names.push(entry.0@));
    assert forall|i: int| 0 <= i < names.len() implies names[i] != entry.0@ by {
        assert(names.contains(names[i]));
    }
    assert(map_of(after) == map_of(entries).insert(entry.0@, entry.1)) by {
        assert forall|name: Seq<char>|
            map_of(after).contains_key(name) == map_of(entries).insert(
                entry.0@,
                entry.1,
            ).contains_key(name) by {
            if names.contains(name) {
                let i = names.index_of(name);
                assert(names_of(after)[i] == name);
            }
            if name == entry.0@ {
                assert(names_of(after)[names.len() as int] == name);
            }
        }
        assert forall|name: Seq<char>| map_of(after).contains_key(name) implies map_of(
            after,
        )[name] == map_of(entries).insert(entry.0@, entry.1)[name] by {
            let i = names_of(after).index_of(name);
            lemma_map_at(after, i);
            if i < names.len() {
                lemma_map_at(entries, i);
            }
        }
    }
}

proof fn lemma_map_set(entries: Seq<(String, ModelConfig)>, i: int, entry: (String, ModelConfig))
    requires
        names_of(entries).no_duplicates(),
        0 <= i < entries.len(),
        entries[i].0@ == entry.0@,
    ensures
        names_of(entries.update(i, entry)) == names_of(entries),
        map_of(entries.update(i, entry)) == map_of(entries).insert(entry.0@, entry.1),
{
    let after = entries.update(i, entry);
    assert(names_of(after) == names_of(entries));
    lemma_map_at(entries, i);
    assert(map_of(after) == map_of(entries).insert(entry.0@, entry.1)) by {
        assert forall|name: Seq<char>| map_of(after).contains_key(name) implies map_of(
            after,
        )[name] == map_of(entries).insert(entry.0@, entry.1)[name] by {
            let j = names_of(after).index_of(name);
            lemma_map_at(after, j);
            lemma_map_at(entries, j);
            assert(names_of(entries)[j] == name);
            assert(names_of(entries)[i] == entry.0@);
        }
    }
}

impl View for ModelMap {
    type V = Map<Seq<char>, ModelConfig>;

    closed spec fn view(&self) -> Map<Seq<char>, ModelConfig> {
        map_of(self.entries@)
    }
}

impl Clone for ModelMap {
    fn clone(&self) -> (map: ModelMap)
        ensures
            map@ == self@,
            map.names() == self.names(),
    {
        proof {
            use_type_invariant(self);
        }
        let mut entries: Vec<(String, ModelConfig)> = Vec::new();
        for i in 0..self.entries.len()
            invariant
                entries@ == self.entries@.take(i as int),
        {
            let entry = (self.entries[i].0.clone(), self.entries[i].1.clone());
            assert(entry == self.entries@[i as int]);
            entries.push(entry);
            assert(self.entries@.take(i + 1) == self.entries@.take(i as int).push(entry));
        }
        assert(self.entries@.take(self.entries@.len() as int) == self.entries@);
        ModelMap { entries }
    }
}

impl ModelMap {
    /// The model names, in the order of their entries.
    pub closed spec fn names(&self) -> Seq<Seq<char>> {
        names_of(self.entries@)
    }

    #[verifier::type_invariant]
    spec fn well_formed(&self) -> bool {
        self.names().no_duplicates()
    }

    /// An empty table.
    pub fn new() -> (map: ModelMap)
        ensures
            map@ == Map::<Seq<char>, ModelConfig>::empty(),
            map.names() == Seq::<Seq<char>>::empty(),
    {
        let map = ModelMap { entries: Vec::new() };
        assert(map@ == Map::<Seq<char>, ModelConfig>::empty());
        map
    }

    /// The number of models. The table holds exactly the models that it names, each of them
    /// once.
    pub fn len(&self) -> (len: usize)
        ensures
            len == self.names().len(),
            len == self@.dom().len(),
            self.names().no_duplicates(),
            self.names().to_set() == self@.dom(),
    {
        proof {
            use_type_invariant(self);
            self.names().unique_seq_to_set();
            assert(self.names().to_set() == self@.dom());
        }
        self.entries.len()
    }

    fn position(&self, name: &str) -> (position: Option<usize>)
        ensures
            match position {
                Some(i) => i < self.names().len() && self.names()[i as int] == name@,
                None => !self.names().contains(name@),
            },
    {
        for i in 0..self.entries.len()
            invariant
                forall|k: int| 0 <= k < i ==> self.names()[k] != name@,
        {
            if same_text(self.entries[i].0.as_str(), name) {
                return Some(i);
            }
        }
        None
    }

    /// The configuration of a model, if the model is in the table.
    pub fn get(&self, name: &str) -> (config: Option<&ModelConfig>)
        ensures
            match config {
                Some(config) => self@.contains_key(name@) && *config == self@[name@],
                None => !self@.contains_key(name@),
            },
    {
        match self.position(name) {
            Some(i) => {
                proof {
                    use_type_invariant(self);
                    assert(self.names().contains(self.names()[i as int]));
                }
                Some(&self.entries[i].1)
            },
            None => None,
        }
    }

    /// Whether a model is in the table.
    pub fn contains_key(&self, name: &str) -> (found: bool)
        ensures
            found == self@.contains_key(name@),
    {
        match self.position(name) {
            Some(i) => {
                assert(self.names().contains(self.names()[i as int]));
                true
            },
            None => false,
        }
    }

    /// The name and the configuration of the entry at an index.
    pub fn entry(&self, index: usize) -> (entry: (&String, &ModelConfig))
        requires
            index < self.names().len(),
        ensures
            entry.0@ == self.names()[index as int],
            self@.contains_key(entry.0@),
            *entry.1 == self@[entry.0@],
    {
        proof {
            use_type_invariant(self);
            assert(self.names().contains(self.names()[index as int]));
        }
        (&self.entries[index].0, &self.entries[index].1)
    }

    /// Sets the configuration of a model, in place of the one it may have had.
    pub fn insert(&mut self, name: String, config: ModelConfig)
        ensures
            final(self)@ == old(self)@.insert(name@, config),
            final(self).names() == if old(self)@.contains_key(name@) {
                old(self).names()
            } else {
                old(self).names().push(name@)
            },
    {
        proof {
            use_type_invariant(&*self);
        }
        let position = self.position(name.as_str());
        let mut entries: Vec<(String, ModelConfig)> = Vec::new();
        std::mem::swap(&mut self.entries, &mut entries);
        match position {
            Some(i) => {
                proof {
                    lemma_map_at(entries@, i as int);
                    lemma_map_set(entries@, i as int, (name, config));
                }
                entries.set(i, (name, config));
            },
            None => {
                proof {
                    lemma_map_push(entries@, (name, config));
                }
                entries.push((name, config));
            },
        }
        self.entries = entries;
    }
}

} // verus!
