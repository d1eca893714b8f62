//! Maps, read as lists of key and value pairs.

use crate::cursor::unread;
use crate::error::IoError;
use crate::io::args::{ListArgs, ListLength};
use crate::io::impls::lists::list_read;
use crate::io::mc::{read_outcome, McRead};
use std::collections::HashMap;
use std::hash::{BuildHasher, Hash};
use std::io::Cursor;
use vstd::prelude::*;
use vstd::relations::injective;
use vstd::std_specs::hash::{builds_valid_hashers, hash_map_deep_view_impl, obeys_key_model};

verus! {

/// The map that inserting `pairs` one after another into an empty map
/// gives: a later pair replaces an earlier one with the same key.
pub open spec fn pairs_map<KV, VV>(pairs: Seq<(KV, VV)>) -> Map<KV, VV>
    decreases pairs.len(),
{
    if pairs.len() == 0 {
        Map::empty()
    } else {
        pairs_map(pairs.drop_last()).insert(pairs.last().0, pairs.last().1)
    }
}

/// Reading a map: its key and value pairs, read as a list of pairs (each a
/// key, then a value), inserted in the order they were read.
pub open spec fn map_read<K: McRead, V: McRead>(args: ListArgs<(K::Args, V::Args)>, s: Seq<u8>) -> Result<
    (Map<K::V, V::V>, nat),
    IoError,
> {
    match list_read::<(K, V)>(args, s) {
        Ok((pairs, n)) => Ok((pairs_map(pairs), n)),
        Err(e) => Err(e),
    }
}

/// A map with no entries has no entries by its deep view either.
proof fn lemma_empty_deep_view<K: DeepView, V: DeepView, S>(m: HashMap<K, V, S>)
    requires
        m@ == Map::<K, V>::empty(),
    ensures
        m.deep_view() == Map::<K::V, V::V>::empty(),
{
    reveal(hash_map_deep_view_impl);
    assert(m.deep_view() =~= Map::<K::V, V::V>::empty());
}

/// Inserting an entry inserts it by the deep view too, when the keys' deep
/// view tells keys apart.
proof fn lemma_insert_deep_view<K: DeepView, V: DeepView, S>(
    before: HashMap<K, V, S>,
    after: HashMap<K, V, S>,
    k: K,
    v: V,
)
    requires
        after@ == before@.insert(k, v),
        injective(|x: K| x.deep_view()),
    ensures
        after.deep_view() == before.deep_view().insert(k.deep_view(), v.deep_view()),
{
    reveal(hash_map_deep_view_impl);
    let dv = |x: K| x.deep_view();
    let a = after.deep_view();
    let b = before.deep_view().insert(k.deep_view(), v.deep_view());
    assert forall|dk: K::V| a.contains_key(dk) == b.contains_key(dk) by {
        if a.contains_key(dk) {
            let x = choose|x: K| #[trigger] after@.contains_key(x) && dk == x.deep_view();
            if x != k {
                assert(before@.contains_key(x));
            }
        }
        if b.contains_key(dk) && dk != k.deep_view() {
            let x = choose|x: K| #[trigger] before@.contains_key(x) && dk == x.deep_view();
            assert(after@.contains_key(x));
        }
        if dk == k.deep_view() {
            assert(after@.contains_key(k));
        }
    }
    assert forall|dk: K::V| a.contains_key(dk) implies a[dk] == b[dk] by {
        let x = choose|x: K| after@.contains_key(x) && #[trigger] x.deep_view() == dk;
        if dk == k.deep_view() {
            assert(dv(x) == dv(k));
        } else {
            assert(x != k);
            let y = choose|y: K| before@.contains_key(y) && #[trigger] y.deep_view() == dk;
            assert(dv(x) == dv(y));
        }
    }
    assert(a =~= b);
}

impl<K: McRead + Eq + Hash, V: McRead, S: BuildHasher + Default> McRead for HashMap<K, V, S> {
    type Args = ListArgs<(K::Args, V::Args)>;

    open spec fn spec_read(args: ListArgs<(K::Args, V::Args)>, input: Seq<u8>) -> Result<
        (Map<K::V, V::V>, nat),
        IoError,
    > {
        map_read::<K, V>(args, input)
    }

    /// Besides what reading the pairs needs, the map's contents follow from
    /// the pairs only when the keys' hashing and equality agree with their
    /// values, the hasher is a valid one, and keys with the same deep view
    /// are the same key.
    open spec fn read_ok(args: ListArgs<(K::Args, V::Args)>) -> bool {
        &&& <Vec<(K, V)> as McRead>::read_ok(args)
        &&& obeys_key_model::<K>()
        &&& builds_valid_hashers::<S>()
        &&& injective(|x: K| x.deep_view())
    }

    open spec fn progresses(args: ListArgs<(K::Args, V::Args)>) -> bool {
        args.length != ListLength::Remaining
    }

    proof fn lemma_read_len(args: ListArgs<(K::Args, V::Args)>, input: Seq<u8>) {
        <Vec<(K, V)> as McRead>::lemma_read_len(args, input);
    }

    /// Reads the pairs, then inserts them in order. A key that fails to read
    /// for another reason than the end of the input ends the read with its
    /// error.
    fn read(reader: &mut Cursor<&[u8]>, args: &ListArgs<(K::Args, V::Args)>) -> (r: Result<
        HashMap<K, V, S>,
        IoError,
    >) {
        let ghost s = unread(*reader);
        let mut pairs = match <Vec<(K, V)> as McRead>::read(reader, args) {
            Ok(p) => p,
            Err(e) => return Err(e),
        };
        let ghost orig = pairs@;
        let ghost pdv = pairs.deep_view();
        // Take the pairs off the back, so that they come off the reversed
        // list in their order.
        let mut rev: Vec<(K, V)> = Vec::new();
        while pairs.len() > 0
            invariant
                pairs@ == orig.take(pairs.len() as int),
                pairs.len() + rev.len() == orig.len(),
                forall|i: int| 0 <= i < rev.len() ==> #[trigger] rev@[i] == orig[orig.len() - 1 - i],
            decreases pairs.len(),
        {
            let p = pairs.pop().unwrap();
            rev.push(p);
            assert(pairs@ =~= orig.take(pairs.len() as int));
        }
        let mut m: HashMap<K, V, S> = HashMap::default();
        proof {
            lemma_empty_deep_view(m);
            assert(pdv.take(0) =~= Seq::<(K::V, V::V)>::empty());
        }
        while rev.len() > 0
            invariant
                rev.len() <= orig.len(),
                pdv.len() == orig.len(),
                forall|i: int| 0 <= i < rev.len() ==> #[trigger] rev@[i] == orig[orig.len() - 1 - i],
                forall|i: int| 0 <= i < orig.len() ==> #[trigger] pdv[i] == orig[i].deep_view(),
                m.deep_view() == pairs_map(pdv.take(orig.len() - rev.len())),
                obeys_key_model::<K>(),
                builds_valid_hashers::<S>(),
                injective(|x: K| x.deep_view()),
            decreases rev.len(),
        {
            let ghost j = orig.len() - rev.len();
            let ghost before = m;
            let (k, v) = rev.pop().unwrap();
            assert((k, v) == orig[j]);
            m.insert(k, v);
            proof {
                lemma_insert_deep_view(before, m, k, v);
                assert(pdv.take(j + 1).drop_last() =~= pdv.take(j));
            }
        }
        assert(pdv.take(orig.len() as int) =~= pdv);
        Ok(m)
    }
}

} // verus!
