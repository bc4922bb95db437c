//! The sparse grid: a hash map from occupied cells to their items. It works
//! in every space, the unbounded plane included.

use std::collections::HashMap;
use vstd::prelude::*;
use vstd::std_specs::hash::*;
use vstd::std_specs::iter::IteratorSpec;
use crate::grid::Grid;
use crate::grid::MyIter;
use crate::space::CanFitInSize;
use crate::space::FieldTopology;
use crate::space::GridConstraints;
use crate::space::InfiniteSpace;
use crate::space::Space;
use crate::space::Vec2i;
use crate::space::cell_of;
use crate::space::key_of;
use crate::space::lemma_key_roundtrip;

verus! {

broadcast use vstd::std_specs::hash::group_hash_axioms;

/// A grid that stores its occupied cells only.
///
/// The map is keyed by one integer per cell (see [`key_of`]), so that the
/// map's own specification applies to it.
pub struct HashMapGrid<T, C> {
    grid: HashMap<u64, T>,
    constraints: C,
}

/// `HashMap::get_mut`: the value under `key`, to be changed in place, and
/// nothing where the map has no such key. Whatever the caller leaves in the
/// value is what the map then holds under the key; the rest of the map stays.
#[verifier::external_body]
fn entry_mut<'a, T>(map: &'a mut HashMap<u64, T>, key: &u64) -> (r: Option<&'a mut T>)
    ensures
        match r {
            Some(value) => old(map)@.contains_key(*key) && *value == old(map)@[*key] && final(map)@ == old(map)@.insert(*key, *final(value)),
            None => !old(map)@.contains_key(*key) && final(map)@ == old(map)@,
        },
{
    map.get_mut(key)
}

/// The content of a keyed map, read as a map from cells.
pub open spec fn keyed_content<T>(m: Map<u64, T>) -> Map<Vec2i, T> {
    Map::new(|p: Vec2i| m.contains_key(key_of(p)), |p: Vec2i| m[key_of(p)])
}

/// A keyed map and its content have equally many entries.
proof fn lemma_keyed_len<T>(m: Map<u64, T>)
    requires
        m.dom().finite(),
    ensures
        keyed_content(m).dom().finite(),
        keyed_content(m).dom().len() == m.dom().len(),
{
    let f = |k: u64| cell_of(k);
    assert forall|a: u64, b: u64| #[trigger] f(a) == #[trigger] f(b) implies a == b by {
        lemma_key_roundtrip(Vec2i { x: 0, y: 0 }, a);
        lemma_key_roundtrip(Vec2i { x: 0, y: 0 }, b);
    }
    assert forall|p: Vec2i| m.dom().map(f).contains(p) <==> keyed_content(m).dom().contains(p) by {
        lemma_key_roundtrip(p, 0);
        if keyed_content(m).dom().contains(p) {
            assert(m.dom().contains(key_of(p)) && f(key_of(p)) == p);
        }
        if m.dom().map(f).contains(p) {
            let k = choose|k: u64| m.dom().contains(k) && f(k) == p;
            lemma_key_roundtrip(p, k);
        }
    }
    assert(m.dom().map(f) =~= keyed_content(m).dom());
    vstd::set_lib::lemma_map_size(m.dom(), keyed_content(m).dom(), f);
}

proof fn lemma_keyed_insert<T>(m: Map<u64, T>, p: Vec2i, item: T)
    ensures
        keyed_content(m.insert(key_of(p), item)) == keyed_content(m).insert(p, item),
{
    assert forall|q: Vec2i| q != p implies key_of(q) != key_of(p) by {
        lemma_key_roundtrip(q, 0);
        lemma_key_roundtrip(p, 0);
    }
    assert(keyed_content(m.insert(key_of(p), item)) =~= keyed_content(m).insert(p, item));
}

proof fn lemma_keyed_remove<T>(m: Map<u64, T>, p: Vec2i)
    ensures
        keyed_content(m.remove(key_of(p))) == keyed_content(m).remove(p),
{
    assert forall|q: Vec2i| q != p implies key_of(q) != key_of(p) by {
        lemma_key_roundtrip(q, 0);
        lemma_key_roundtrip(p, 0);
    }
    assert(keyed_content(m.remove(key_of(p))) =~= keyed_content(m).remove(p));
}

impl<T, C> HashMapGrid<T, C> where C: CanFitInSize {
    /// An empty grid over the space of the given size.
    pub fn new(size: &Vec2i) -> (r: Self)
        requires
            size.x > 0,
            size.y > 0,
        ensures
            r.wf(),
            r.cells() == Map::<Vec2i, T>::empty(),
            r.space() == (Space { kind: C::kind(), size: *size }),
            r.space().finite(),
    {
        let r = HashMapGrid { grid: HashMap::new(), constraints: C::new(size) };
        assert(r.cells() =~= Map::<Vec2i, T>::empty());
        r
    }
}

impl<T> HashMapGrid<T, InfiniteSpace> {
    /// An empty grid over the unbounded plane.
    pub fn new_infinite() -> (r: Self)
        ensures
            r.wf(),
            r.cells() == Map::<Vec2i, T>::empty(),
            r.space().kind == FieldTopology::Infinite,
    {
        let r = HashMapGrid { grid: HashMap::new(), constraints: InfiniteSpace };
        assert(r.cells() =~= Map::<Vec2i, T>::empty());
        r
    }
}

impl<T, C> MyIter<T> for HashMapGrid<T, C> where C: GridConstraints {
    closed spec fn space(&self) -> Space {
        self.constraints.space()
    }

    closed spec fn cells(&self) -> Map<Vec2i, T> {
        keyed_content(self.grid@)
    }

    closed spec fn wf(&self) -> bool {
        &&& self.constraints.space().wf()
        &&& forall|k: u64| #[trigger]
            self.grid@.contains_key(k) ==> self.constraints.space().is_cell(cell_of(k))
    }

    proof fn lemma_wf(&self) {
        lemma_keyed_len(self.grid@);
        assert forall|p: Vec2i| #[trigger] self.cells().contains_key(p) implies self.space().is_cell(
            p,
        ) by {
            lemma_key_roundtrip(p, 0);
        }
    }

    fn iter(&self) -> (r: Vec<(Vec2i, &T)>) {
        let mut out: Vec<(Vec2i, &T)> = Vec::new();
        let ghost items = spec_hash_map_iter(&self.grid).remaining();
        for pair in it: self.grid.iter()
            invariant
                it.seq() == items,
                out@.len() == it.index(),
                forall|i: int|
                    0 <= i < out@.len() ==> (#[trigger] out@[i]).0 == cell_of(*items[i].0)
                        && out@[i].1 == items[i].1,
        {
            let (k, item) = pair;
            out.push((Vec2i::from_key(*k), item));
        }
        proof {
            lemma_keyed_len(self.grid@);
            assert forall|i: int, j: int| 0 <= i < j < out@.len() implies out@[i].0
                != out@[j].0 by {
                lemma_key_roundtrip(out@[i].0, *items[i].0);
                lemma_key_roundtrip(out@[j].0, *items[j].0);
                assert(self.grid@.contains_key(*items[i].0));
                assert(self.grid@.contains_key(*items[j].0));
                if *items[i].0 == *items[j].0 {
                    assert(items[i] == items[j]);
                }
            }
            assert forall|p: Vec2i| #[trigger] self.cells().contains_key(p) implies exists|i: int|
                0 <= i < out@.len() && out@[i].0 == p by {
                lemma_key_roundtrip(p, 0);
                let k = key_of(p);
                assert(self.grid@.contains_key(k));
                assert(items.contains((&k, &self.grid@[k])));
                let i = choose|i: int| 0 <= i < items.len() && items[i] == (&k, &self.grid@[k]);
                assert(out@[i].0 == p);
            }
        }
        out
    }
}

impl<T, C> Grid<T> for HashMapGrid<T, C> where C: GridConstraints {
    fn can(&self, pos: &Vec2i) -> (r: bool) {
        self.constraints.can(pos)
    }

    fn has(&self, pos: &Vec2i) -> (r: bool) {
        let cell = self.constraints.remap(pos);
        let key = cell.key();
        self.grid.contains_key(&key)
    }

    fn get<'a>(&'a self, pos: &Vec2i) -> (r: Option<&'a T>) {
        let cell = self.constraints.remap(pos);
        let key = cell.key();
        self.grid.get(&key)
    }

    fn get_mut<'a>(&'a mut self, pos: &Vec2i) -> (r: Option<&'a mut T>) {
        let cell = self.constraints.remap(pos);
        let key = cell.key();
        proof {
            let before = self.grid@;
            lemma_key_roundtrip(cell, 0);
            assert forall|item: T| #[trigger]
                keyed_content(before.insert(key, item)) == keyed_content(before).insert(
                    cell,
                    item,
                ) by {
                lemma_keyed_insert(before, cell, item);
            }
        }
        entry_mut(&mut self.grid, &key)
    }

    fn get_owned(&mut self, pos: &Vec2i) -> (r: Option<T>) {
        let cell = self.constraints.remap(pos);
        let key = cell.key();
        proof {
            lemma_keyed_remove(self.grid@, cell);
        }
        self.grid.remove(&key)
    }

    fn set(&mut self, pos: &Vec2i, obj: T) -> (r: Option<T>) {
        if self.can(pos) && !self.has(pos) {
            self.set_unchecked(pos, obj);
            None
        } else {
            Some(obj)
        }
    }

    fn set_unchecked(&mut self, pos: &Vec2i, obj: T) {
        let cell = self.constraints.remap(pos);
        let key = cell.key();
        proof {
            lemma_keyed_insert(self.grid@, cell, obj);
            lemma_key_roundtrip(cell, 0);
        }
        let _ = self.grid.insert(key, obj);
    }

    fn len(&self) -> (r: usize) {
        proof {
            lemma_keyed_len(self.grid@);
        }
        self.grid.len()
    }

    fn clear(&mut self) {
        self.grid.clear();
        assert(self.cells() =~= Map::<Vec2i, T>::empty());
    }

    fn is_repeat_x(&self) -> (r: bool) {
        self.constraints.is_repeat_x()
    }

    fn is_repeat_y(&self) -> (r: bool) {
        self.constraints.is_repeat_y()
    }

    fn is_finite(&self) -> (r: bool) {
        self.constraints.is_finite()
    }
}

} // verus!
