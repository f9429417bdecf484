//! The metadata table of a game: a string-to-string mapping with unique
//! keys, where a repeated tag overwrites the earlier value.

use vstd::prelude::*;

use crate::text::str_eq;

verus! {

/// The mapping described by a sequence of key/value pairs when the pairs
/// are inserted from first to last, so that a later pair with the same key
/// overwrites an earlier one.
pub open spec fn kv_map(pairs: Seq<(Seq<char>, Seq<char>)>) -> Map<Seq<char>, Seq<char>>
    decreases pairs.len(),
{
    if pairs.len() == 0 {
        Map::empty()
    } else {
        kv_map(pairs.drop_last()).insert(pairs.last().0, pairs.last().1)
    }
}

/// Keys of `pairs` are pairwise distinct.
pub open spec fn keys_unique(pairs: Seq<(Seq<char>, Seq<char>)>) -> bool {
    forall|i: int, j: int| 0 <= i < j < pairs.len() ==> pairs[i].0 != pairs[j].0
}

/// A key is in the mapping exactly when some pair carries it.
pub proof fn lemma_kv_contains(pairs: Seq<(Seq<char>, Seq<char>)>, k: Seq<char>)
    ensures
        kv_map(pairs).contains_key(k) <==> exists|i: int| 0 <= i < pairs.len() && pairs[i].0 == k,
    decreases pairs.len(),
{
    if pairs.len() > 0 {
        lemma_kv_contains(pairs.drop_last(), k);
        if pairs.last().0 == k {
            assert(pairs[pairs.len() - 1].0 == k);
        } else if kv_map(pairs).contains_key(k) {
            let i = choose|i: int| 0 <= i < pairs.drop_last().len() && pairs.drop_last()[i].0 == k;
            assert(pairs[i].0 == k);
        } else if exists|i: int| 0 <= i < pairs.len() && pairs[i].0 == k {
            let i = choose|i: int| 0 <= i < pairs.len() && pairs[i].0 == k;
            assert(pairs.drop_last()[i].0 == k);
        }
    }
}

/// The mapping is always finite.
pub proof fn lemma_kv_finite(pairs: Seq<(Seq<char>, Seq<char>)>)
    ensures
        kv_map(pairs).dom().finite(),
    decreases pairs.len(),
{
    if pairs.len() > 0 {
        lemma_kv_finite(pairs.drop_last());
    }
}

/// Last write wins: a pair whose key is not repeated later on gives that
/// key its value in the mapping, whatever came before it.
pub proof fn lemma_kv_last_write_wins(pairs: Seq<(Seq<char>, Seq<char>)>, i: int)
    requires
        0 <= i < pairs.len(),
        forall|j: int| i < j < pairs.len() ==> pairs[j].0 != pairs[i].0,
    ensures
        kv_map(pairs).contains_key(pairs[i].0),
        kv_map(pairs)[pairs[i].0] == pairs[i].1,
    decreases pairs.len(),
{
    if i == pairs.len() - 1 {
    } else {
        assert(pairs.drop_last()[i] == pairs[i]);
        lemma_kv_last_write_wins(pairs.drop_last(), i);
        assert(pairs.last().0 != pairs[i].0);
    }
}

/// Replacing the value at the position of an existing key changes the
/// mapping as an insert of that key does.
pub proof fn lemma_kv_update(pairs: Seq<(Seq<char>, Seq<char>)>, i: int, v: Seq<char>)
    requires
        0 <= i < pairs.len(),
        keys_unique(pairs),
    ensures
        kv_map(pairs.update(i, (pairs[i].0, v))) == kv_map(pairs).insert(pairs[i].0, v),
    decreases pairs.len(),
{
    let k = pairs[i].0;
    let q = pairs.update(i, (k, v));
    if i == pairs.len() - 1 {
        assert(q.drop_last() =~= pairs.drop_last());
        assert(q.last() == (k, v));
        assert(kv_map(q) == kv_map(pairs.drop_last()).insert(k, v));
        assert(kv_map(pairs.drop_last()).insert(k, pairs.last().1).insert(k, v) =~= kv_map(
            pairs.drop_last(),
        ).insert(k, v));
    } else {
        assert(q.drop_last() =~= pairs.drop_last().update(i, (k, v)));
        assert(pairs.drop_last()[i] == pairs[i]);
        assert(keys_unique(pairs.drop_last())) by {
            assert(forall|a: int, b: int|
                0 <= a < b < pairs.drop_last().len() ==> pairs.drop_last()[a]
                    == pairs[a] && pairs.drop_last()[b] == pairs[b]);
        }
        lemma_kv_update(pairs.drop_last(), i, v);
        let last = pairs.last();
        assert(q.last() == last);
        assert(last.0 != k);
        assert(kv_map(q) == kv_map(pairs.drop_last()).insert(k, v).insert(last.0, last.1));
        assert(kv_map(pairs.drop_last()).insert(k, v).insert(last.0, last.1) =~= kv_map(
            pairs.drop_last(),
        ).insert(last.0, last.1).insert(k, v));
    }
}

/// Unique keys mean that the mapping has exactly one entry per pair.
pub proof fn lemma_kv_dom_len(pairs: Seq<(Seq<char>, Seq<char>)>)
    requires
        keys_unique(pairs),
    ensures
        kv_map(pairs).dom().finite(),
        kv_map(pairs).dom().len() == pairs.len(),
    decreases pairs.len(),
{
    lemma_kv_finite(pairs);
    if pairs.len() > 0 {
        let rest = pairs.drop_last();
        assert(keys_unique(rest)) by {
            assert(forall|a: int, b: int|
                0 <= a < b < rest.len() ==> rest[a] == pairs[a] && rest[b] == pairs[b]);
        }
        lemma_kv_dom_len(rest);
        lemma_kv_contains(rest, pairs.last().0);
        assert(forall|i: int| 0 <= i < rest.len() ==> rest[i] == pairs[i]);
        assert(!kv_map(rest).contains_key(pairs.last().0));
        assert(kv_map(pairs).dom() =~= kv_map(rest).dom().insert(pairs.last().0));
        vstd::set::axiom_set_insert_len(kv_map(rest).dom(), pairs.last().0);
    }
}

/// The metadata table of a game.  It behaves as a map from key to value;
/// inserting an existing key overwrites its value.
#[derive(Debug)]
pub struct Metadata {
    pairs: Vec<(String, String)>,
}

impl View for Metadata {
    type V = Map<Seq<char>, Seq<char>>;

    closed spec fn view(&self) -> Map<Seq<char>, Seq<char>> {
        kv_map(self.pair_views())
    }
}

impl Metadata {
    /// The key/value pairs held, as character sequences, in storage order.
    pub closed spec fn pair_views(&self) -> Seq<(Seq<char>, Seq<char>)> {
        self.pairs@.map_values(|p: (String, String)| (p.0@, p.1@))
    }

    /// Keys are stored at most once.
    pub closed spec fn wf(&self) -> bool {
        keys_unique(self.pair_views())
    }

    /// An empty table.
    pub fn new() -> (m: Metadata)
        ensures
            m.wf(),
            m@ == Map::<Seq<char>, Seq<char>>::empty(),
    {
        let m = Metadata { pairs: Vec::new() };
        assert(m.pair_views() =~= Seq::<(Seq<char>, Seq<char>)>::empty());
        m
    }

    /// Inserts a pair; an existing key keeps its place and takes the new
    /// value.
    pub fn insert(&mut self, key: String, value: String)
        requires
            old(self).wf(),
        ensures
            final(self).wf(),
            final(self)@ == old(self)@.insert(key@, value@),
    {
        let ghost orig = old(self).pair_views();
        let n = self.pairs.len();
        let mut i: usize = 0;
        let mut hit: bool = false;
        while i < n && !hit
            invariant
                n == self.pairs@.len(),
                i <= n,
                self.pair_views() == orig,
                forall|k: int| 0 <= k < i ==> orig[k].0 != key@,
                hit ==> i < n && orig[i as int].0 == key@,
            decreases n - i, (if hit { 0int } else { 1int }),
        {
            if str_eq(self.pairs[i].0.as_str(), key.as_str()) {
                hit = true;
            } else {
                i = i + 1;
            }
        }
        if hit {
            let ghost kv = (key@, value@);
            self.pairs.set(i, (key, value));
            proof {
                let up = orig.update(i as int, kv);
                assert(self.pair_views() =~= up);
                assert(kv == (orig[i as int].0, value@));
                lemma_kv_update(orig, i as int, value@);
                assert(kv_map(up) == kv_map(orig).insert(kv.0, value@));
                assert(keys_unique(up)) by {
                    assert(forall|k: int| 0 <= k < up.len() ==> #[trigger] up[k].0 == orig[k].0);
                }
            }
        } else {
            self.pairs.push((key, value));
            proof {
                assert(self.pair_views() =~= orig.push((key@, value@)));
                assert(self.pair_views().drop_last() =~= orig);
                assert(keys_unique(self.pair_views())) by {
                    assert(forall|k: int|
                        0 <= k < orig.len() ==> self.pair_views()[k] == orig[k]);
                }
            }
        }
    }

    /// Looks a key up.
    pub fn get(&self, key: &str) -> (r: Option<&String>)
        requires
            self.wf(),
        ensures
            match r {
                Some(v) => self@.contains_key(key@) && v@ == self@[key@],
                None => !self@.contains_key(key@),
            },
    {
        let n = self.pairs.len();
        let mut i: usize = 0;
        while i < n
            invariant
                self.wf(),
                n == self.pairs@.len(),
                i <= n,
                forall|k: int| 0 <= k < i ==> self.pair_views()[k].0 != key@,
            decreases n - i,
        {
            if str_eq(self.pairs[i].0.as_str(), key) {
                proof {
                    assert(self.pair_views()[i as int].0 == key@);
                    lemma_kv_last_write_wins(self.pair_views(), i as int);
                }
                return Some(&self.pairs[i].1);
            }
            i = i + 1;
        }
        proof {
            lemma_kv_contains(self.pair_views(), key@);
        }
        None
    }

    /// The number of keys held, which is also the number of stored
    /// pairs.
    pub fn len(&self) -> (n: usize)
        requires
            self.wf(),
        ensures
            n == self@.dom().len(),
            n == self.pair_views().len(),
    {
        proof {
            lemma_kv_dom_len(self.pair_views());
        }
        self.pairs.len()
    }

    /// The key stored at position `i`, for walking every tag in
    /// storage order.
    pub fn key_at(&self, i: usize) -> (k: &String)
        requires
            self.wf(),
            i < self.pair_views().len(),
        ensures
            k@ == self.pair_views()[i as int].0,
            self@.contains_key(k@),
    {
        proof {
            lemma_kv_last_write_wins(self.pair_views(), i as int);
        }
        &self.pairs[i].0
    }

    /// The value stored at position `i`: what the mapping holds for the
    /// key at the same position.
    pub fn value_at(&self, i: usize) -> (v: &String)
        requires
            self.wf(),
            i < self.pair_views().len(),
        ensures
            v@ == self.pair_views()[i as int].1,
            self@.contains_key(self.pair_views()[i as int].0),
            v@ == self@[self.pair_views()[i as int].0],
    {
        proof {
            lemma_kv_last_write_wins(self.pair_views(), i as int);
        }
        &self.pairs[i].1
    }
}

} // verus!
