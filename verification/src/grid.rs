//! The contract that every grid container meets.
//!
//! A grid holds at most one item per cell of a [`Space`]. Its mathematical
//! model is a finite map from cells to items; every operation is specified as
//! a function of the space, that map and the arguments alone, so two
//! containers that agree on the model cannot be told apart by their callers.

use vstd::prelude::*;
use crate::space::Space;
use crate::space::Vec2i;

verus! {

/// The cells after an attempt to place `item` at `pos`: the item goes in only
/// where `pos` is legal and its cell is free.
pub open spec fn placed<T>(space: Space, cells: Map<Vec2i, T>, pos: Vec2i, item: T) -> Map<
    Vec2i,
    T,
> {
    if can_place(space, cells, pos) {
        cells.insert(space.canonical(pos), item)
    } else {
        cells
    }
}

/// Whether an item can be placed at `pos`: the coordinate is legal and the
/// cell it names is free.
pub open spec fn can_place<T>(space: Space, cells: Map<Vec2i, T>, pos: Vec2i) -> bool {
    space.admits(pos) && !cells.contains_key(space.canonical(pos))
}

/// What is stored in the cell that `pos` names, if anything.
pub open spec fn peeked<T>(space: Space, cells: Map<Vec2i, T>, pos: Vec2i) -> Option<T> {
    if cells.contains_key(space.canonical(pos)) {
        Some(cells[space.canonical(pos)])
    } else {
        None
    }
}

/// The cells after whatever `pos` names has been taken out.
pub open spec fn taken<T>(space: Space, cells: Map<Vec2i, T>, pos: Vec2i) -> Map<Vec2i, T> {
    cells.remove(space.canonical(pos))
}

/// Whether `cells` can be the content of a grid over `space`: finitely many
/// entries, each keyed by a cell of the space.
pub open spec fn cells_fit<T>(space: Space, cells: Map<Vec2i, T>) -> bool {
    &&& space.wf()
    &&& cells.dom().finite()
    &&& forall|p: Vec2i| #[trigger] cells.contains_key(p) ==> space.is_cell(p)
}

/// A container whose occupied cells can be listed.
pub trait MyIter<T>: Sized {
    /// The space that the container lives in.
    spec fn space(&self) -> Space;

    /// The content: which cell holds which item.
    spec fn cells(&self) -> Map<Vec2i, T>;

    /// The container's internal invariant.
    spec fn wf(&self) -> bool;

    /// A well-formed container holds finitely many items, each in a cell of
    /// its space.
    proof fn lemma_wf(&self)
        requires
            self.wf(),
        ensures
            cells_fit(self.space(), self.cells()),
    ;

    /// Every occupied cell with its item, each cell once. The order is the
    /// container's own, and the same for the same content.
    fn iter(&self) -> (r: Vec<(Vec2i, &T)>)
        requires
            self.wf(),
        ensures
            r@.len() == self.cells().dom().len(),
            forall|i: int|
                0 <= i < r@.len() ==> self.cells().contains_key(#[trigger] r@[i].0) && *r@[i].1
                    == self.cells()[r@[i].0],
            forall|i: int, j: int| 0 <= i < j < r@.len() ==> r@[i].0 != r@[j].0,
            forall|p: Vec2i| #[trigger]
                self.cells().contains_key(p) ==> exists|i: int|
                    0 <= i < r@.len() && r@[i].0 == p,
    ;
}

/// A grid: at most one item per cell of a fixed space.
pub trait Grid<T>: MyIter<T> {
    /// Whether `pos` is a legal coordinate of the grid's space.
    fn can(&self, pos: &Vec2i) -> (r: bool)
        requires
            self.wf(),
        ensures
            r == self.space().admits(*pos),
    ;

    /// Whether the cell that the legal coordinate `pos` names is occupied.
    fn has(&self, pos: &Vec2i) -> (r: bool)
        requires
            self.wf(),
            self.space().admits(*pos),
        ensures
            r == self.cells().contains_key(self.space().canonical(*pos)),
    ;

    /// The item in the cell that `pos` names.
    fn get<'a>(&'a self, pos: &Vec2i) -> (r: Option<&'a T>)
        requires
            self.wf(),
            self.space().admits(*pos),
        ensures
            match r {
                Some(item) => peeked(self.space(), self.cells(), *pos) == Some(*item),
                None => peeked(self.space(), self.cells(), *pos) is None,
            },
    ;

    /// The item in the cell that `pos` names, to be changed in place.
    fn get_mut<'a>(&'a mut self, pos: &Vec2i) -> (r: Option<&'a mut T>)
        requires
            old(self).wf(),
            old(self).space().admits(*pos),
        ensures
            final(self).wf(),
            final(self).space() == old(self).space(),
            match r {
                Some(item) => peeked(old(self).space(), old(self).cells(), *pos) == Some(*item)
                    && final(self).cells() == old(self).cells().insert(
                    old(self).space().canonical(*pos),
                    *final(item),
                ),
                None => peeked(old(self).space(), old(self).cells(), *pos) is None && final(self).cells() == old(self).cells(),
            },
    ;

    /// Takes the item out of the cell that `pos` names.
    fn get_owned(&mut self, pos: &Vec2i) -> (r: Option<T>)
        requires
            old(self).wf(),
            old(self).space().admits(*pos),
        ensures
            final(self).wf(),
            final(self).space() == old(self).space(),
            final(self).cells() == taken(old(self).space(), old(self).cells(), *pos),
            r == peeked(old(self).space(), old(self).cells(), *pos),
    ;

    /// Places `obj` at `pos` if the coordinate is legal and its cell is free,
    /// and hands `obj` back otherwise.
    fn set(&mut self, pos: &Vec2i, obj: T) -> (r: Option<T>)
        requires
            old(self).wf(),
        ensures
            final(self).wf(),
            final(self).space() == old(self).space(),
            final(self).cells() == placed(old(self).space(), old(self).cells(), *pos, obj),
            r == if can_place(old(self).space(), old(self).cells(), *pos) {
                None
            } else {
                Some(obj)
            },
    ;

    /// Puts `obj` into the cell that the legal coordinate `pos` names,
    /// replacing what was there.
    fn set_unchecked(&mut self, pos: &Vec2i, obj: T)
        requires
            old(self).wf(),
            old(self).space().admits(*pos),
        ensures
            final(self).wf(),
            final(self).space() == old(self).space(),
            final(self).cells() == old(self).cells().insert(
                old(self).space().canonical(*pos),
                obj,
            ),
    ;

    /// The number of occupied cells.
    fn len(&self) -> (r: usize)
        requires
            self.wf(),
        ensures
            r == self.cells().dom().len(),
    ;

    /// Empties every cell.
    fn clear(&mut self)
        requires
            old(self).wf(),
        ensures
            final(self).wf(),
            final(self).space() == old(self).space(),
            final(self).cells() == Map::<Vec2i, T>::empty(),
    ;

    fn is_repeat_x(&self) -> (r: bool)
        ensures
            r == self.space().repeat_x(),
    ;

    fn is_repeat_y(&self) -> (r: bool)
        ensures
            r == self.space().repeat_y(),
    ;

    fn is_finite(&self) -> (r: bool)
        ensures
            r == self.space().finite(),
    ;
}

/// One operation on a grid.
pub enum GridOp<T> {
    /// Placing an item at a coordinate, as `set` does.
    Place(Vec2i, T),
    /// Taking out what a coordinate names, as `get_owned` does.
    Take(Vec2i),
    /// Looking at what a coordinate names, as `get` does.
    Peek(Vec2i),
}

/// The cells after one operation.
pub open spec fn after_op<T>(space: Space, cells: Map<Vec2i, T>, op: GridOp<T>) -> Map<Vec2i, T> {
    match op {
        GridOp::Place(pos, item) => placed(space, cells, pos, item),
        GridOp::Take(pos) => taken(space, cells, pos),
        GridOp::Peek(_) => cells,
    }
}

/// What one operation hands to its caller.
pub open spec fn answer_of<T>(space: Space, cells: Map<Vec2i, T>, op: GridOp<T>) -> Option<T> {
    match op {
        GridOp::Place(pos, item) => if can_place(space, cells, pos) {
            None
        } else {
            Some(item)
        },
        GridOp::Take(pos) => peeked(space, cells, pos),
        GridOp::Peek(pos) => peeked(space, cells, pos),
    }
}

/// The cells after a sequence of operations, first to last.
pub open spec fn after_ops<T>(space: Space, cells: Map<Vec2i, T>, ops: Seq<GridOp<T>>) -> Map<
    Vec2i,
    T,
>
    decreases ops.len(),
{
    if ops.len() == 0 {
        cells
    } else {
        after_op(space, after_ops(space, cells, ops.drop_last()), ops.last())
    }
}

/// What each of a sequence of operations hands to its caller.
pub open spec fn answers_of<T>(space: Space, cells: Map<Vec2i, T>, ops: Seq<GridOp<T>>) -> Seq<
    Option<T>,
> {
    Seq::new(
        ops.len(),
        |i: int| answer_of(space, after_ops(space, cells, ops.take(i)), ops[i]),
    )
}

/// Operations keep a grid's content fit for its space.
pub proof fn lemma_ops_keep_fit<T>(space: Space, cells: Map<Vec2i, T>, ops: Seq<GridOp<T>>)
    requires
        cells_fit(space, cells),
    ensures
        cells_fit(space, after_ops(space, cells, ops)),
    decreases ops.len(),
{
    if ops.len() > 0 {
        lemma_ops_keep_fit(space, cells, ops.drop_last());
        let last = after_ops(space, cells, ops.drop_last());
        match ops.last() {
            GridOp::Place(pos, item) => {
                crate::space::lemma_canonical_keeps_admission(space, pos);
            },
            _ => {},
        }
    }
}

/// Two grids over the same space that hold the same cells cannot be told
/// apart by any sequence of placing, taking and looking: each operation
/// hands back the same on both, and after all of them the two hold the same
/// cells, so the same occupied positions and the same count. This holds of
/// any two containers that meet the grid contract, the dense and the sparse
/// one among them.
pub proof fn lemma_backend_equivalence<T, A: Grid<T>, B: Grid<T>>(
    dense: &A,
    sparse: &B,
    ops: Seq<GridOp<T>>,
)
    requires
        dense.wf(),
        sparse.wf(),
        dense.space() == sparse.space(),
        dense.cells() == sparse.cells(),
    ensures
        after_ops(dense.space(), dense.cells(), ops) == after_ops(
            sparse.space(),
            sparse.cells(),
            ops,
        ),
        after_ops(dense.space(), dense.cells(), ops).dom() == after_ops(
            sparse.space(),
            sparse.cells(),
            ops,
        ).dom(),
        after_ops(dense.space(), dense.cells(), ops).dom().len() == after_ops(
            sparse.space(),
            sparse.cells(),
            ops,
        ).dom().len(),
        answers_of(dense.space(), dense.cells(), ops) == answers_of(
            sparse.space(),
            sparse.cells(),
            ops,
        ),
        cells_fit(dense.space(), after_ops(dense.space(), dense.cells(), ops)),
{
    dense.lemma_wf();
    lemma_ops_keep_fit(dense.space(), dense.cells(), ops);
}

} // verus!
