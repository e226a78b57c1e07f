//! The schema registry: a mapping from stable type name to schema
//! description, populated once per distinct name while documentation
//! generation walks all reachable types.

use vstd::prelude::*;
use crate::schema::MetaSchema;

verus! {

/// A registry of named schemas. Insertion is idempotent: the first schema
/// registered under a name stays.
#[derive(Debug)]
pub struct Registry {
    entries: Vec<(String, MetaSchema)>,
}

/// The mapping that a sequence of named entries denotes; of entries that
/// share a name, the earliest wins, as [`Registry::insert_if_absent`] would
/// have refused the later ones.
pub open spec fn entries_map(s: Seq<(String, MetaSchema)>) -> Map<Seq<char>, MetaSchema>
    decreases s.len(),
{
    if s.len() == 0 {
        Map::empty()
    } else {
        entries_map(s.drop_first()).insert(s[0].0@, s[0].1)
    }
}

proof fn lemma_entries_map_dom(s: Seq<(String, MetaSchema)>, k: Seq<char>)
    ensures
        entries_map(s).dom().contains(k) <==> exists|i: int| 0 <= i < s.len() && s[i].0@ == k,
    decreases s.len(),
{
    if s.len() > 0 {
        lemma_entries_map_dom(s.drop_first(), k);
        if s[0].0@ != k && entries_map(s).dom().contains(k) {
            let i = choose|i: int| 0 <= i < s.drop_first().len() && s.drop_first()[i].0@ == k;
            assert(s[i + 1].0@ == k);
        }
        if exists|i: int| 0 <= i < s.len() && s[i].0@ == k {
            let i = choose|i: int| 0 <= i < s.len() && s[i].0@ == k;
            if i > 0 {
                assert(s.drop_first()[i - 1].0@ == k);
            }
        }
    }
}

proof fn lemma_entries_map_first(s: Seq<(String, MetaSchema)>, k: Seq<char>, i: int)
    requires
        0 <= i < s.len(),
        s[i].0@ == k,
        forall|j: int| 0 <= j < i ==> s[j].0@ != k,
    ensures
        entries_map(s).dom().contains(k),
        entries_map(s)[k] == s[i].1,
    decreases i,
{
    if i == 0 {
    } else {
        lemma_entries_map_first(s.drop_first(), k, i - 1);
    }
}

impl View for Registry {
    type V = Map<Seq<char>, MetaSchema>;

    closed spec fn view(&self) -> Map<Seq<char>, MetaSchema> {
        entries_map(self.entries@)
    }
}

impl Registry {
    /// An empty registry.
    pub fn new() -> (r: Registry)
        ensures
            r@ == Map::<Seq<char>, MetaSchema>::empty(),
    {
        Registry { entries: Vec::new() }
    }

    /// Whether a schema is registered under `name`.
    pub fn contains_name(&self, name: &String) -> (r: bool)
        ensures
            r == self@.dom().contains(name@),
    {
        let mut i: usize = 0;
        while i < self.entries.len()
            invariant
                i <= self.entries@.len(),
                forall|j: int| 0 <= j < i ==> self.entries@[j].0@ != name@,
            decreases self.entries@.len() - i,
        {
            if self.entries[i].0 == *name {
                proof {
                    lemma_entries_map_first(self.entries@, name@, i as int);
                }
                return true;
            }
            i += 1;
        }
        proof {
            lemma_entries_map_dom(self.entries@, name@);
        }
        false
    }

    /// The schema registered under `name`, if any.
    pub fn get(&self, name: &String) -> (r: Option<&MetaSchema>)
        ensures
            match r {
                Some(m) => self@.dom().contains(name@) && *m == self@[name@],
                None => !self@.dom().contains(name@),
            },
    {
        let mut i: usize = 0;
        while i < self.entries.len()
            invariant
                i <= self.entries@.len(),
                forall|j: int| 0 <= j < i ==> self.entries@[j].0@ != name@,
            decreases self.entries@.len() - i,
        {
            if self.entries[i].0 == *name {
                proof {
                    lemma_entries_map_first(self.entries@, name@, i as int);
                }
                return Some(&self.entries[i].1);
            }
            i += 1;
        }
        proof {
            lemma_entries_map_dom(self.entries@, name@);
        }
        None
    }

    /// Register `schema` under `name` unless some schema already is: repeat
    /// registration neither duplicates nor overwrites an entry.
    pub fn insert_if_absent(&mut self, name: String, schema: MetaSchema)
        ensures
            final(self)@ == if old(self)@.dom().contains(name@) {
                old(self)@
            } else {
                old(self)@.insert(name@, schema)
            },
    {
        if !self.contains_name(&name) {
            let ghost pre = self.entries@;
            self.entries.push((name, schema));
            proof {
                assert(self.entries@ == pre.push(self.entries@.last()));
                lemma_entries_map_push(pre, self.entries@.last());
            }
        }
    }
}

proof fn lemma_entries_map_push(s: Seq<(String, MetaSchema)>, e: (String, MetaSchema))
    requires
        !entries_map(s).dom().contains(e.0@),
    ensures
        entries_map(s.push(e)) == entries_map(s).insert(e.0@, e.1),
    decreases s.len(),
{
    if s.len() == 0 {
        assert(s.push(e).drop_first() =~= s);
        assert(s.push(e)[0] == e);
        assert(entries_map(s.push(e)) =~= entries_map(s).insert(e.0@, e.1));
    } else {
        lemma_entries_map_dom(s, e.0@);
        lemma_entries_map_dom(s.drop_first(), e.0@);
        if entries_map(s.drop_first()).dom().contains(e.0@) {
            let i = choose|i: int|
                0 <= i < s.drop_first().len() && s.drop_first()[i].0@ == e.0@;
            assert(s[i + 1].0@ == e.0@);
        }
        lemma_entries_map_push(s.drop_first(), e);
        assert(s.push(e).drop_first() =~= s.drop_first().push(e));
        assert(s.push(e)[0] == s[0]);
        assert(entries_map(s.push(e)) == entries_map(s.drop_first().push(e)).insert(
            s[0].0@,
            s[0].1,
        ));
        assert(s[0].0@ != e.0@);
        assert(entries_map(s.push(e)) =~= entries_map(s).insert(e.0@, e.1));
    }
}

} // verus!
