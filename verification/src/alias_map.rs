//! A mapping from alias local-part to provenance note, with
//! overwrite-on-insert semantics and unique keys.
use vstd::prelude::*;

verus! {

/// The map a sequence of key/value pairs denotes, later pairs overwriting
/// earlier ones.
pub open spec fn map_of_pairs(pairs: Seq<(Seq<char>, Seq<char>)>) -> Map<Seq<char>, Seq<char>>
    decreases pairs.len(),
{
    if pairs.len() == 0 {
        Map::empty()
    } else {
        map_of_pairs(pairs.drop_last()).insert(pairs.last().0, pairs.last().1)
    }
}

/// A mapping from alias local-part to note, keyed uniquely.
#[derive(Debug)]
pub struct AliasMap {
    pub entries: Vec<(String, String)>,
}

impl View for AliasMap {
    type V = Map<Seq<char>, Seq<char>>;

    open spec fn view(&self) -> Map<Seq<char>, Seq<char>> {
        map_of_pairs(self.entries.deep_view())
    }
}

/// No two pairs share a key.
pub open spec fn unique_keys(pairs: Seq<(Seq<char>, Seq<char>)>) -> bool {
    forall|i: int, j: int| 0 <= i < j < pairs.len() ==> pairs[i].0 != pairs[j].0
}

proof fn lemma_map_of_pairs_contains(pairs: Seq<(Seq<char>, Seq<char>)>, k: Seq<char>)
    ensures
        map_of_pairs(pairs).contains_key(k) <==> exists|i: int|
            0 <= i < pairs.len() && pairs[i].0 == k,
    decreases pairs.len(),
{
    if pairs.len() > 0 {
        lemma_map_of_pairs_contains(pairs.drop_last(), k);
        if map_of_pairs(pairs).contains_key(k) && pairs.last().0 != k {
            let i = choose|i: int| 0 <= i < pairs.drop_last().len() && pairs.drop_last()[i].0 == k;
            assert(pairs[i].0 == k);
        }
        if exists|i: int| 0 <= i < pairs.len() && pairs[i].0 == k {
            let i = choose|i: int| 0 <= i < pairs.len() && pairs[i].0 == k;
            if i < pairs.len() - 1 {
                assert(pairs.drop_last()[i].0 == k);
            }
        }
    }
}

proof fn lemma_map_of_pairs_at(pairs: Seq<(Seq<char>, Seq<char>)>, i: int)
    requires
        unique_keys(pairs),
        0 <= i < pairs.len(),
    ensures
        map_of_pairs(pairs).contains_key(pairs[i].0),
        map_of_pairs(pairs)[pairs[i].0] == pairs[i].1,
    decreases pairs.len(),
{
    if i == pairs.len() - 1 {
    } else {
        assert(pairs.drop_last()[i] == pairs[i]);
        lemma_map_of_pairs_at(pairs.drop_last(), i);
        assert(pairs[i].0 != pairs.last().0);
    }
}

proof fn lemma_map_of_pairs_update(pairs: Seq<(Seq<char>, Seq<char>)>, i: int, v: Seq<char>)
    requires
        unique_keys(pairs),
        0 <= i < pairs.len(),
    ensures
        map_of_pairs(pairs.update(i, (pairs[i].0, v))) =~= map_of_pairs(pairs).insert(
            pairs[i].0,
            v,
        ),
    decreases pairs.len(),
{
    let up = pairs.update(i, (pairs[i].0, v));
    if i == pairs.len() - 1 {
        assert(up.drop_last() =~= pairs.drop_last());
        assert(up.last() == (pairs[i].0, v));
    } else {
        assert(up.drop_last() =~= pairs.drop_last().update(i, (pairs[i].0, v)));
        assert(pairs.drop_last()[i] == pairs[i]);
        lemma_map_of_pairs_update(pairs.drop_last(), i, v);
        assert(up.last() == pairs.last());
        assert(pairs[i].0 != pairs.last().0);
        assert(map_of_pairs(up) =~= map_of_pairs(pairs.drop_last()).insert(pairs[i].0, v).insert(
            pairs.last().0,
            pairs.last().1,
        ));
        assert(map_of_pairs(pairs.drop_last()).insert(pairs[i].0, v).insert(
            pairs.last().0,
            pairs.last().1,
        ) =~= map_of_pairs(pairs).insert(pairs[i].0, v));
    }
}

impl AliasMap {
    /// The unique-key invariant every operation preserves.
    pub open spec fn wf(&self) -> bool {
        unique_keys(self.entries.deep_view())
    }

    /// An empty mapping.
    pub fn new() -> (r: AliasMap)
        ensures
            r.wf(),
            r@ =~= Map::<Seq<char>, Seq<char>>::empty(),
            r.entries@.len() == 0,
    {
        let entries: Vec<(String, String)> = Vec::new();
        proof {
            assert(entries.deep_view() =~= Seq::<(Seq<char>, Seq<char>)>::empty());
        }
        AliasMap { entries }
    }

    /// The number of aliases held.
    pub fn len(&self) -> (r: usize)
        requires
            self.wf(),
        ensures
            r == self.entries@.len(),
            r == self@.dom().len(),
    {
        proof {
            self.lemma_len(self.entries.deep_view());
        }
        self.entries.len()
    }

    proof fn lemma_len(&self, pairs: Seq<(Seq<char>, Seq<char>)>)
        requires
            unique_keys(pairs),
        ensures
            map_of_pairs(pairs).dom().len() == pairs.len(),
            map_of_pairs(pairs).dom().finite(),
        decreases pairs.len(),
    {
        if pairs.len() > 0 {
            self.lemma_len(pairs.drop_last());
            lemma_map_of_pairs_contains(pairs.drop_last(), pairs.last().0);
        }
    }

    /// Whether `key` is present.
    pub fn contains_key(&self, key: &str) -> (r: bool)
        ensures
            r == self@.contains_key(key@),
    {
        let n = self.entries.len();
        let mut i: usize = 0;
        while i < n
            invariant
                n == self.entries@.len(),
                i <= n,
                forall|j: int| 0 <= j < i ==> self.entries.deep_view()[j].0 != key@,
        decreases n - i,
        {
            if crate::text::str_eq(self.entries[i].0.as_str(), key) {
                proof {
                    lemma_map_of_pairs_contains(self.entries.deep_view(), key@);
                    assert(self.entries.deep_view()[i as int].0 == key@);
                }
                return true;
            }
            i += 1;
        }
        proof {
            lemma_map_of_pairs_contains(self.entries.deep_view(), key@);
        }
        false
    }

    /// The note stored for `key`, when present.
    pub fn get(&self, key: &str) -> (r: Option<&String>)
        requires
            self.wf(),
        ensures
            match r {
                Some(v) => self@.contains_key(key@) && v@ == self@[key@],
                None => !self@.contains_key(key@),
            },
    {
        let n = self.entries.len();
        let mut i: usize = 0;
        while i < n
            invariant
                self.wf(),
                n == self.entries@.len(),
                i <= n,
                forall|j: int| 0 <= j < i ==> self.entries.deep_view()[j].0 != key@,
        decreases n - i,
        {
            if crate::text::str_eq(self.entries[i].0.as_str(), key) {
                proof {
                    lemma_map_of_pairs_at(self.entries.deep_view(), i as int);
                }
                return Some(&self.entries[i].1);
            }
            i += 1;
        }
        proof {
            lemma_map_of_pairs_contains(self.entries.deep_view(), key@);
        }
        None
    }

    /// Inserts `key` with `note`, overwriting any earlier note for `key`.
    pub fn insert(&mut self, key: String, note: String)
        requires
            old(self).wf(),
        ensures
            final(self).wf(),
            final(self)@ =~= old(self)@.insert(key@, note@),
    {
        let n = self.entries.len();
        let mut i: usize = 0;
        while i < n
            invariant
                old(self).wf(),
                n == self.entries@.len(),
                i <= n,
                forall|j: int| 0 <= j < i ==> self.entries.deep_view()[j].0 != key@,
                self == old(self),
        decreases n - i,
        {
            if crate::text::str_eq(self.entries[i].0.as_str(), key.as_str()) {
                let ghost pairs = self.entries.deep_view();
                proof {
                    lemma_map_of_pairs_update(pairs, i as int, note@);
                }
                let k2 = self.entries[i].0.clone();
                self.entries.set(i, (k2, note));
                proof {
                    let up = pairs.update(i as int, (pairs[i as int].0, note@));
                    assert(self.entries.deep_view() =~= up);
                    assert(forall|j: int| 0 <= j < up.len() ==> up[j].0 == pairs[j].0);
                    assert(unique_keys(up));
                }
                return ;
            }
            i += 1;
        }
        let ghost pairs = self.entries.deep_view();
        self.entries.push((key, note));
        proof {
            let up = self.entries.deep_view();
            assert(up.drop_last() =~= pairs);
            assert(up.last() == (key@, note@));
            assert(forall|j: int| 0 <= j < pairs.len() ==> up[j] == pairs[j]);
            assert(unique_keys(up));
        }
    }
}

} // verus!
