//! The existence index: an in-memory map from address to its account
//! snapshot, consulted for fast existence checks and kept consistent with
//! every committed write.

use vstd::prelude::*;
use crate::types::{AccountV, MemoryAccount};
use crate::words::Address;

verus! {

/// No two entries share an address.
pub open spec fn unique_keys(s: Seq<(Address, MemoryAccount)>) -> bool {
    forall|i: int, j: int| 0 <= i < j < s.len() ==> s[i].0@ != s[j].0@
}

/// The map an entry list denotes; later entries would win, but a
/// well-formed list holds each address once.
pub open spec fn assoc_map(s: Seq<(Address, MemoryAccount)>) -> Map<Seq<u8>, AccountV>
    decreases s.len(),
{
    if s.len() == 0 {
        Map::empty()
    } else {
        assoc_map(s.drop_last()).insert(s.last().0@, s.last().1@)
    }
}

proof fn lemma_assoc_contains(s: Seq<(Address, MemoryAccount)>, k: Seq<u8>)
    ensures
        assoc_map(s).contains_key(k) <==> exists|i: int| 0 <= i < s.len() && s[i].0@ == k,
    decreases s.len(),
{
    if s.len() > 0 {
        lemma_assoc_contains(s.drop_last(), k);
        if s.last().0@ == k {
            assert(s[s.len() - 1].0@ == k);
        } else {
            if assoc_map(s).contains_key(k) {
                let i = choose|i: int| 0 <= i < s.drop_last().len() && s.drop_last()[i].0@ == k;
                assert(s[i].0@ == k);
            }
            if exists|i: int| 0 <= i < s.len() && s[i].0@ == k {
                let i = choose|i: int| 0 <= i < s.len() && s[i].0@ == k;
                assert(i < s.len() - 1);
                assert(s.drop_last()[i].0@ == k);
            }
        }
    }
}

proof fn lemma_assoc_index(s: Seq<(Address, MemoryAccount)>, i: int)
    requires
        unique_keys(s),
        0 <= i < s.len(),
    ensures
        assoc_map(s).contains_key(s[i].0@),
        assoc_map(s)[s[i].0@] == s[i].1@,
    decreases s.len(),
{
    lemma_assoc_contains(s, s[i].0@);
    if i < s.len() - 1 {
        assert(s[i].0@ != s.last().0@);
        assert(s.drop_last()[i] == s[i]);
        lemma_assoc_index(s.drop_last(), i);
    }
}

proof fn lemma_assoc_remove(s: Seq<(Address, MemoryAccount)>, i: int)
    requires
        unique_keys(s),
        0 <= i < s.len(),
    ensures
        assoc_map(s.remove(i)) == assoc_map(s).remove(s[i].0@),
    decreases s.len(),
{
    s.remove_ensures(i);
    let k = s[i].0@;
    if i == s.len() - 1 {
        assert(s.remove(i) =~= s.drop_last());
        lemma_assoc_contains(s.drop_last(), k);
        if assoc_map(s.drop_last()).contains_key(k) {
            let j = choose|j: int| 0 <= j < s.drop_last().len() && s.drop_last()[j].0@ == k;
            assert(s[j].0@ == s[i].0@);
            assert(false);
        }
        assert(assoc_map(s).remove(k) =~= assoc_map(s.drop_last()));
    } else {
        assert(s.remove(i).drop_last() =~= s.drop_last().remove(i));
        assert(s.remove(i).last() == s.last());
        assert(forall|p: int, q: int|
            0 <= p < q < s.drop_last().len() ==> s.drop_last()[p].0@ != s.drop_last()[q].0@);
        lemma_assoc_remove(s.drop_last(), i);
        assert(s.last().0@ != k);
        assert(assoc_map(s.remove(i)) == assoc_map(s.drop_last()).remove(k).insert(
            s.last().0@,
            s.last().1@,
        ));
        assert(assoc_map(s.drop_last()).remove(k).insert(s.last().0@, s.last().1@)
            =~= assoc_map(s.drop_last()).insert(s.last().0@, s.last().1@).remove(k));
    }
}

proof fn lemma_remove_unique(s: Seq<(Address, MemoryAccount)>, i: int)
    requires
        unique_keys(s),
        0 <= i < s.len(),
    ensures
        unique_keys(s.remove(i)),
{
    s.remove_ensures(i);
    assert forall|p: int, q: int|
        0 <= p < q < s.remove(i).len() implies s.remove(i)[p].0@ != s.remove(i)[q].0@ by {
        let p2 = if p < i { p } else { p + 1 };
        let q2 = if q < i { q } else { q + 1 };
        assert(s.remove(i)[p] == s[p2]);
        assert(s.remove(i)[q] == s[q2]);
        assert(s[p2].0@ != s[q2].0@);
    }
}

/// The in-memory existence index.
#[derive(Debug)]
pub struct StateMap {
    entries: Vec<(Address, MemoryAccount)>,
}

impl View for StateMap {
    type V = Map<Seq<u8>, AccountV>;

    closed spec fn view(&self) -> Map<Seq<u8>, AccountV> {
        assoc_map(self.entries@)
    }
}

impl StateMap {
    /// Well-formed: each address appears at most once.
    pub closed spec fn wf(self) -> bool {
        unique_keys(self.entries@)
    }

    /// An empty index.
    pub fn new() -> (r: StateMap)
        ensures
            r.wf(),
            r@ == Map::<Seq<u8>, AccountV>::empty(),
    {
        StateMap { entries: Vec::new() }
    }

    /// The position of an address, if present.
    fn find(&self, a: &Address) -> (r: Option<usize>)
        ensures
            match r {
                Some(i) => i < self.entries@.len() && self.entries@[i as int].0@ == a@,
                None => forall|i: int|
                    0 <= i < self.entries@.len() ==> self.entries@[i].0@ != a@,
            },
    {
        let mut i: usize = 0;
        while i < self.entries.len()
            invariant
                i <= self.entries@.len(),
                forall|j: int| 0 <= j < i ==> self.entries@[j].0@ != a@,
            decreases self.entries@.len() - i,
        {
            if self.entries[i].0.eq(a) {
                return Some(i);
            }
            i = i + 1;
        }
        None
    }

    /// Whether the index holds the address.
    pub fn contains_key(&self, a: &Address) -> (r: bool)
        requires
            self.wf(),
        ensures
            r == self@.contains_key(a@),
    {
        proof {
            lemma_assoc_contains(self.entries@, a@);
        }
        match self.find(a) {
            Some(_) => true,
            None => false,
        }
    }

    /// The account snapshot held for the address, if any.
    pub fn get(&self, a: &Address) -> (r: Option<&MemoryAccount>)
        requires
            self.wf(),
        ensures
            r is Some <==> self@.contains_key(a@),
            r is Some ==> r->0@ == self@[a@],
    {
        proof {
            lemma_assoc_contains(self.entries@, a@);
        }
        match self.find(a) {
            Some(i) => {
                proof {
                    lemma_assoc_index(self.entries@, i as int);
                }
                Some(&self.entries[i].1)
            },
            None => None,
        }
    }

    /// Puts (or overwrites) the snapshot held for the address.
    pub fn insert(&mut self, a: Address, acc: MemoryAccount)
        requires
            old(self).wf(),
        ensures
            final(self).wf(),
            final(self)@ == old(self)@.insert(a@, acc@),
    {
        let found = self.find(&a);
        match found {
            Some(i) => {
                proof {
                    lemma_assoc_remove(self.entries@, i as int);
                    self.entries@.remove_ensures(i as int);
                }
                let _ = self.entries.remove(i);
                proof {
                    lemma_remove_unique(old(self).entries@, i as int);
                    assert forall|j: int|
                        0 <= j < self.entries@.len() implies self.entries@[j].0@ != a@ by {
                        let s = old(self).entries@;
                        if j < i {
                            assert(s[j].0@ != s[i as int].0@);
                        } else {
                            assert(s[j + 1].0@ != s[i as int].0@);
                        }
                    }
                }
                self.entries.push((a, acc));
                proof {
                    assert(self.entries@.drop_last() =~= old(self).entries@.remove(i as int));
                    assert(self@ =~= old(self)@.insert(a@, acc@));
                }
            },
            None => {
                proof {
                    lemma_assoc_contains(self.entries@, a@);
                }
                self.entries.push((a, acc));
                proof {
                    assert(self.entries@.drop_last() =~= old(self).entries@);
                    assert(self@ =~= old(self)@.insert(a@, acc@));
                }
            },
        }
    }

    /// Drops the address from the index, if present.
    pub fn remove(&mut self, a: &Address)
        requires
            old(self).wf(),
        ensures
            final(self).wf(),
            final(self)@ == old(self)@.remove(a@),
    {
        let found = self.find(a);
        match found {
            Some(i) => {
                proof {
                    lemma_assoc_remove(self.entries@, i as int);
                    self.entries@.remove_ensures(i as int);
                }
                let _ = self.entries.remove(i);
                proof {
                    lemma_remove_unique(old(self).entries@, i as int);
                }
            },
            None => {
                proof {
                    lemma_assoc_contains(self.entries@, a@);
                    assert(!old(self)@.contains_key(a@));
                    assert(self@ =~= old(self)@.remove(a@));
                }
            },
        }
    }
}

} // verus!
