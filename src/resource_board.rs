use vstd::prelude::*;

use crate::index::IndexHandle;
use crate::resource_node::ResourceSlot;

verus! {

/// The map from a name to a resource index that `entries` stand for; a later entry for a
/// name replaces an earlier one.
pub open spec fn board_map(entries: Seq<(String, IndexHandle<ResourceSlot>)>) -> Map<
    Seq<char>,
    usize,
>
    decreases entries.len(),
{
    if entries.len() == 0 {
        Map::empty()
    } else {
        let last = entries.last();
        board_map(entries.drop_last()).insert(last.0@, last.1.index)
    }
}

/// Past `i`, no entry is for `key`: then the map of the whole agrees on `key` with the map of
/// the first `i` entries.
proof fn lemma_board_suffix(entries: Seq<(String, IndexHandle<ResourceSlot>)>, key: Seq<char>,
    i: int)
    requires
        0 <= i <= entries.len(),
        forall|j: int| i <= j < entries.len() ==> (#[trigger] entries[j]).0@ != key,
    ensures
        board_map(entries).contains_key(key) == board_map(entries.subrange(0, i)).contains_key(key),
        board_map(entries).contains_key(key) ==> board_map(entries)[key] == board_map(
            entries.subrange(0, i),
        )[key],
    decreases entries.len() - i,
{
    if i < entries.len() {
        let shorter = entries.drop_last();
        assert(entries.last() == entries[entries.len() - 1]);
        assert forall|j: int| i <= j < shorter.len() implies (#[trigger] shorter[j]).0@ != key by {
            assert(shorter[j] == entries[j]);
        }
        lemma_board_suffix(shorter, key, i);
        assert(shorter.subrange(0, i) =~= entries.subrange(0, i));
    } else {
        assert(entries.subrange(0, i) =~= entries);
    }
}

/// Which resource each name was declared as in the current frame.
pub struct ResourceBoard {
    entries: Vec<(String, IndexHandle<ResourceSlot>)>,
}

impl View for ResourceBoard {
    type V = Map<Seq<char>, usize>;

    closed spec fn view(&self) -> Map<Seq<char>, usize> {
        board_map(self.entries@)
    }
}

impl ResourceBoard {
    pub fn new() -> (r: Self)
        ensures
            r@ == Map::<Seq<char>, usize>::empty(),
    {
        ResourceBoard { entries: Vec::new() }
    }

    pub fn insert(&mut self, key: String, index: IndexHandle<ResourceSlot>)
        ensures
            final(self)@ == old(self)@.insert(key@, index.index),
    {
        let ghost before = self.entries@;
        self.entries.push((key, index));
        proof {
            assert(self.entries@.drop_last() =~= before);
        }
    }

    pub fn get(&self, key: &String) -> (r: Option<IndexHandle<ResourceSlot>>)
        ensures
            r is Some == self@.contains_key(key@),
            r matches Some(h) ==> h.index == self@[key@],
    {
        let mut i: usize = self.entries.len();
        while i > 0
            invariant
                i <= self.entries@.len(),
                forall|j: int| i <= j < self.entries@.len() ==> (#[trigger] self.entries@[j]).0@
                    != key@,
            decreases i,
        {
            if self.entries[i - 1].0 == *key {
                proof {
                    lemma_board_suffix(self.entries@, key@, i as int);
                    let pre = self.entries@.subrange(0, i as int);
                    assert(pre.drop_last() =~= self.entries@.subrange(0, i - 1));
                    assert(pre.last() == self.entries@[i - 1]);
                }
                return Some(self.entries[i - 1].1);
            }
            i = i - 1;
        }
        proof {
            lemma_board_suffix(self.entries@, key@, 0);
            assert(self.entries@.subrange(0, 0) =~= Seq::<(String,
                IndexHandle<ResourceSlot>)>::empty());
        }
        None
    }
}

impl Default for ResourceBoard {
    fn default() -> (r: Self)
        ensures
            r@ == Map::<Seq<char>, usize>::empty(),
    {
        ResourceBoard::new()
    }
}

} // verus!
