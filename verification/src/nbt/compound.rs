//! Compounds: names mapped to values, kept in the order they were first
//! inserted, in an `IndexMap`.

use crate::nbt::format::names_distinct;
use crate::nbt::value::{NbtValue, Value};
use indexmap::IndexMap;
use vstd::prelude::*;

verus! {

/// The entries of a compound's map, in order: each name with what its value
/// stands for.
pub uninterp spec fn compound_entries(m: Compound) -> Seq<(Seq<char>, NbtValue)>;

/// Where `name` stands among `entries`, searching from the back; -1 when it
/// is absent.
pub open spec fn find_name(entries: Seq<(Seq<char>, NbtValue)>, name: Seq<char>) -> int
    decreases entries.len(),
{
    if entries.len() == 0 {
        -1
    } else if entries.last().0 == name {
        entries.len() - 1
    } else {
        find_name(entries.drop_last(), name)
    }
}

/// Inserting into ordered entries: a name already there keeps its place and
/// takes the new value; a new name goes last.
pub open spec fn insert_entry(
    entries: Seq<(Seq<char>, NbtValue)>,
    name: Seq<char>,
    v: NbtValue,
) -> Seq<(Seq<char>, NbtValue)> {
    let i = find_name(entries, name);
    if i < 0 {
        entries.push((name, v))
    } else {
        entries.update(i, (name, v))
    }
}

/// Inserting entries one after another into an empty map.
pub open spec fn insert_all(raw: Seq<(Seq<char>, NbtValue)>) -> Seq<(Seq<char>, NbtValue)>
    decreases raw.len(),
{
    if raw.len() == 0 {
        Seq::empty()
    } else {
        insert_entry(insert_all(raw.drop_last()), raw.last().0, raw.last().1)
    }
}

/// Where `find_name` finds a name, an entry has it; where it finds none,
/// no entry has it.
proof fn lemma_find_name(entries: Seq<(Seq<char>, NbtValue)>, name: Seq<char>)
    ensures
        find_name(entries, name) == -1 ==> forall|i: int| 0 <= i < entries.len() ==> entries[i].0 != name,
        find_name(entries, name) != -1 ==> 0 <= find_name(entries, name) < entries.len()
            && entries[find_name(entries, name)].0 == name,
    decreases entries.len(),
{
    if entries.len() > 0 && entries.last().0 != name {
        let d = entries.drop_last();
        lemma_find_name(d, name);
        assert forall|i: int| 0 <= i < d.len() implies d[i] == entries[i] by {}
    }
}

/// Inserting keeps the names distinct.
pub proof fn lemma_insert_entry_distinct(entries: Seq<(Seq<char>, NbtValue)>, name: Seq<char>, v: NbtValue)
    requires
        names_distinct(entries),
    ensures
        names_distinct(insert_entry(entries, name, v)),
{
    lemma_find_name(entries, name);
    let r = insert_entry(entries, name, v);
    let i = find_name(entries, name);
    assert forall|a: int, b: int| 0 <= a < b < r.len() implies r[a].0 != r[b].0 by {
        if i < 0 {
            if b == entries.len() {
                assert(r[a] == entries[a]);
            } else {
                assert(r[a] == entries[a] && r[b] == entries[b]);
            }
        } else {
            assert(r[a].0 == entries[a].0);
            assert(r[b].0 == entries[b].0);
        }
    }
}

/// Inserting entries one after another into an empty map gives distinct
/// names.
pub proof fn lemma_insert_all_names_distinct(raw: Seq<(Seq<char>, NbtValue)>)
    ensures
        names_distinct(insert_all(raw)),
    decreases raw.len(),
{
    if raw.len() > 0 {
        lemma_insert_all_names_distinct(raw.drop_last());
        lemma_insert_entry_distinct(insert_all(raw.drop_last()), raw.last().0, raw.last().1);
    }
}

/// `IndexMap::default`: an empty map.
#[verifier::external_body]
pub(crate) fn map_new() -> (m: Compound)
    ensures
        compound_entries(m) == Seq::<(Seq<char>, NbtValue)>::empty(),
{
    Compound { map: IndexMap::default() }
}

/// `IndexMap::insert`: a name already in the map keeps its place and takes
/// the new value; a new name is inserted last. No name is then in the map
/// twice.
#[verifier::external_body]
pub(crate) fn map_insert(m: &mut Compound, name: String, v: Value)
    ensures
        compound_entries(*final(m)) == insert_entry(compound_entries(*old(m)), name@, v@),
        names_distinct(compound_entries(*final(m))),
{
    m.map.insert(name, v);
}

/// `IndexMap::len`: the number of entries.
#[verifier::external_body]
pub(crate) fn map_len(m: &Compound) -> (n: usize)
    ensures
        n == compound_entries(*m).len(),
{
    m.map.len()
}

/// `IndexMap::get_index`: the entry at position `i`, which is in range.
#[verifier::external_body]
pub(crate) fn map_get_index(m: &Compound, i: usize) -> (r: (&String, &Value))
    requires
        i < compound_entries(*m).len(),
    ensures
        r.0@ == compound_entries(*m)[i as int].0,
        r.1@ == compound_entries(*m)[i as int].1,
{
    m.map.get_index(i).unwrap()
}

/// A compound: named values in the order their names were first inserted,
/// held in an `IndexMap`.
#[verifier::external_body]
#[derive(Debug)]
pub struct Compound {
    map: IndexMap<String, Value>,
}

impl View for Compound {
    type V = Seq<(Seq<char>, NbtValue)>;

    open spec fn view(&self) -> Seq<(Seq<char>, NbtValue)> {
        compound_entries(*self)
    }
}

impl Compound {
    /// An empty compound.
    pub fn new() -> (c: Compound)
        ensures
            c@ == Seq::<(Seq<char>, NbtValue)>::empty(),
            names_distinct(c@),
    {
        map_new()
    }

    /// Inserts a named value: a name already there keeps its place and
    /// takes the new value; a new name goes last.
    pub fn insert(&mut self, name: String, value: Value)
        ensures
            final(self)@ == insert_entry(old(self)@, name@, value@),
            names_distinct(final(self)@),
    {
        map_insert(self, name, value)
    }

    /// The number of entries.
    pub fn len(&self) -> (n: usize)
        ensures
            n == self@.len(),
    {
        map_len(self)
    }

    /// The entry at position `i`, which is in range.
    pub fn get_index(&self, i: usize) -> (r: (&String, &Value))
        requires
            i < self@.len(),
        ensures
            r.0@ == self@[i as int].0,
            r.1@ == self@[i as int].1,
    {
        map_get_index(self, i)
    }
}

} // verus!
