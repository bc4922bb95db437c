//! The dense grid: one slot per cell of a finite space, in row-major order.

use vstd::prelude::*;
use crate::grid::Grid;
use crate::grid::MyIter;
use crate::space::CanFitInSize;
use crate::space::GridConstraints;
use crate::space::Space;
use crate::space::Vec2i;
use crate::space::lemma_canonical_keeps_admission;

verus! {

/// A grid over a finite space that keeps a slot for every cell.
pub struct VecGrid<T, C> where C: CanFitInSize {
    grid: Vec<Option<T>>,
    constraints: C,
    count: usize,
}

/// The slot of the cell `p` in a row-major layout of rows `w` wide.
pub open spec fn slot_of(w: int, p: Vec2i) -> int {
    p.y * w + p.x
}

/// Whether `p` lies in the rectangle `[0, size.x) x [0, size.y)`.
pub open spec fn in_rect(size: Vec2i, p: Vec2i) -> bool {
    0 <= p.x < size.x && 0 <= p.y < size.y
}

/// The content of a row-major slot array: the cells whose slot is filled.
pub open spec fn slots_content<T>(size: Vec2i, slots: Seq<Option<T>>) -> Map<Vec2i, T> {
    Map::new(
        |p: Vec2i| in_rect(size, p) && slots[slot_of(size.x as int, p)] is Some,
        |p: Vec2i| slots[slot_of(size.x as int, p)]->0,
    )
}

proof fn lemma_slot_bounds(size: Vec2i, p: Vec2i)
    requires
        in_rect(size, p),
    ensures
        0 <= slot_of(size.x as int, p) < size.x * size.y,
        0 <= p.y * size.x <= slot_of(size.x as int, p),
{
    let w = size.x as int;
    let h = size.y as int;
    let x = p.x as int;
    let y = p.y as int;
    assert(0 <= y * w && y * w + w <= h * w) by (nonlinear_arith)
        requires
            0 <= y < h,
            0 < w,
    ;
    assert(h * w == w * h) by (nonlinear_arith);
}

proof fn lemma_slot_injective(size: Vec2i, p: Vec2i, q: Vec2i)
    requires
        in_rect(size, p),
        in_rect(size, q),
        slot_of(size.x as int, p) == slot_of(size.x as int, q),
    ensures
        p == q,
{
    let w = size.x as int;
    assert(p.y == q.y) by (nonlinear_arith)
        requires
            p.y * w + p.x == q.y * w + q.x,
            0 <= p.x < w,
            0 <= q.x < w,
    ;
}

/// In a finite space, the cells are exactly the points of the size rectangle.
proof fn lemma_cells_are_rect(space: Space, p: Vec2i)
    requires
        space.wf(),
        space.finite(),
    ensures
        space.is_cell(p) <==> in_rect(space.size, p),
{
    lemma_canonical_keeps_admission(space, p);
    vstd::arithmetic::div_mod::lemma_mod_bound(p.x as int, space.size.x as int);
    vstd::arithmetic::div_mod::lemma_mod_bound(p.y as int, space.size.y as int);
    if 0 <= p.x < space.size.x {
        vstd::arithmetic::div_mod::lemma_small_mod(p.x as nat, space.size.x as nat);
    }
    if 0 <= p.y < space.size.y {
        vstd::arithmetic::div_mod::lemma_small_mod(p.y as nat, space.size.y as nat);
    }
}

proof fn lemma_content_update<T>(size: Vec2i, slots: Seq<Option<T>>, p: Vec2i, v: Option<T>)
    requires
        in_rect(size, p),
        size.x > 0,
        size.y > 0,
        slots.len() == size.x * size.y,
    ensures
        slots_content(size, slots.update(slot_of(size.x as int, p), v)) == match v {
            Some(item) => slots_content(size, slots).insert(p, item),
            None => slots_content(size, slots).remove(p),
        },
{
    let after = slots.update(slot_of(size.x as int, p), v);
    let want = match v {
        Some(item) => slots_content(size, slots).insert(p, item),
        None => slots_content(size, slots).remove(p),
    };
    lemma_slot_bounds(size, p);
    assert forall|q: Vec2i| in_rect(size, q) && q != p implies slot_of(size.x as int, q) != slot_of(
        size.x as int,
        p,
    ) && 0 <= slot_of(size.x as int, q) < slots.len() by {
        lemma_slot_bounds(size, q);
        if slot_of(size.x as int, q) == slot_of(size.x as int, p) {
            lemma_slot_injective(size, p, q);
        }
    }
    assert(slots_content(size, after) =~= want);
}

impl<T, C> VecGrid<T, C> where C: CanFitInSize {
    /// An empty grid over the space of the given size.
    pub fn new(size: &Vec2i) -> (r: Self)
        requires
            size.x > 0,
            size.y > 0,
            size.x * size.y <= usize::MAX,
        ensures
            r.wf(),
            r.cells() == Map::<Vec2i, T>::empty(),
            r.space() == (Space { kind: C::kind(), size: *size }),
            r.space().finite(),
    {
        let w: usize = size.x as usize;
        let h: usize = size.y as usize;
        assert(w * h == size.x * size.y) by (nonlinear_arith)
            requires
                w == size.x,
                h == size.y,
        ;
        let n: usize = w * h;
        let mut grid: Vec<Option<T>> = Vec::new();
        let mut i: usize = 0;
        while i < n
            invariant
                i <= n,
                grid@.len() == i,
                forall|k: int| 0 <= k < i ==> grid@[k] is None,
            decreases n - i,
        {
            grid.push(None);
            i += 1;
        }
        let r = VecGrid { grid, constraints: C::new(size), count: 0 };
        proof {
            lemma_all_empty(*size, r.grid@);
        }
        r
    }

    /// The slot that the legal coordinate `pos` names.
    fn to_pos(&self, pos: &Vec2i) -> (r: usize)
        requires
            self.wf(),
            self.space().admits(*pos),
        ensures
            r == slot_of(self.space().size.x as int, self.space().canonical(*pos)),
            r < self.grid@.len(),
            in_rect(self.space().size, self.space().canonical(*pos)),
    {
        let cell = self.constraints.remap(pos);
        let size = self.constraints.get_size();
        let n = self.grid.len();
        proof {
            lemma_cells_are_rect(self.space(), cell);
            lemma_slot_bounds(size, cell);
        }
        let row: usize = cell.y as usize;
        let width: usize = size.x as usize;
        assert(row * width == cell.y * size.x) by (nonlinear_arith)
            requires
                row == cell.y,
                width == size.x,
        ;
        row * width + (cell.x as usize)
    }
}

proof fn lemma_all_empty<T>(size: Vec2i, slots: Seq<Option<T>>)
    requires
        size.x > 0,
        size.y > 0,
        slots.len() == size.x * size.y,
        forall|k: int| 0 <= k < slots.len() ==> slots[k] is None,
    ensures
        slots_content(size, slots) == Map::<Vec2i, T>::empty(),
{
    assert forall|p: Vec2i| !slots_content(size, slots).contains_key(p) by {
        if in_rect(size, p) {
            lemma_slot_bounds(size, p);
        }
    }
    assert(slots_content(size, slots) =~= Map::<Vec2i, T>::empty());
}

impl<T, C> MyIter<T> for VecGrid<T, C> where C: CanFitInSize {
    closed spec fn space(&self) -> Space {
        self.constraints.space()
    }

    closed spec fn cells(&self) -> Map<Vec2i, T> {
        slots_content(self.constraints.space().size, self.grid@)
    }

    closed spec fn wf(&self) -> bool {
        &&& self.constraints.space().wf()
        &&& self.constraints.space().finite()
        &&& self.grid@.len() == self.constraints.space().size.x * self.constraints.space().size.y
        &&& self.cells().dom().finite()
        &&& self.count == self.cells().dom().len()
    }

    proof fn lemma_wf(&self) {
        assert forall|p: Vec2i| #[trigger] self.cells().contains_key(p) implies self.space().is_cell(
            p,
        ) by {
            lemma_cells_are_rect(self.space(), p);
        }
    }

    /// The dense grid lists its cells row by row, each row from left to
    /// right.
    fn iter(&self) -> (r: Vec<(Vec2i, &T)>)
        ensures
            forall|i: int, j: int|
                0 <= i < j < r@.len() ==> slot_of(
                    self.space().size.x as int,
                    #[trigger] r@[i].0,
                ) < slot_of(self.space().size.x as int, #[trigger] r@[j].0),
    {
        let size = self.constraints.get_size();
        let n = self.grid.len();
        let mut out: Vec<(Vec2i, &T)> = Vec::new();
        let mut y: i32 = 0;
        let mut k: usize = 0;
        while y < size.y
            invariant
                self.wf(),
                n == self.grid@.len(),
                size == self.space().size,
                0 <= y <= size.y,
                k == y * size.x,
                listed(size, self.grid@, out@, k as int),
            decreases size.y - y,
        {
            let mut x: i32 = 0;
            proof {
                lemma_slot_bounds(size, Vec2i { x: 0, y });
            }
            while x < size.x
                invariant
                    self.wf(),
                    n == self.grid@.len(),
                    size == self.space().size,
                    0 <= y < size.y,
                    0 <= x <= size.x,
                    k == y * size.x + x,
                    listed(size, self.grid@, out@, k as int),
                decreases size.x - x,
            {
                let here = Vec2i { x, y };
                proof {
                    lemma_slot_bounds(size, here);
                }
                let ghost before = out@;
                match &self.grid[k] {
                    Some(item) => {
                        out.push((here, item));
                    },
                    None => {},
                }
                proof {
                    assert(self.grid@[k as int] is Some ==> out@.drop_last() =~= before);
                    lemma_listed_step(size, self.grid@, before, out@, here);
                }
                x += 1;
                k += 1;
            }
            assert((y + 1) * size.x == y * size.x + size.x) by (nonlinear_arith);
            y += 1;
        }
        proof {
            assert(size.y * size.x == size.x * size.y) by (nonlinear_arith);
            lemma_listed_all(size, self.grid@, out@);
        }
        out
    }
}

/// What the listing loop has established once the first `k` slots are done:
/// `out` names exactly the filled cells among them, each once, in slot order.
pub closed spec fn listed<T>(size: Vec2i, slots: Seq<Option<T>>, out: Seq<(Vec2i, &T)>, k: int) -> bool {
    &&& forall|i: int|
        0 <= i < out.len() ==> {
            &&& in_rect(size, #[trigger] out[i].0)
            &&& slot_of(size.x as int, out[i].0) < k
            &&& slots[slot_of(size.x as int, out[i].0)] == Some(*out[i].1)
        }
    &&& forall|i: int, j: int|
        0 <= i < j < out.len() ==> slot_of(size.x as int, #[trigger] out[i].0) < slot_of(
            size.x as int,
            #[trigger] out[j].0,
        )
    &&& forall|p: Vec2i|
        in_rect(size, p) && slot_of(size.x as int, p) < k && #[trigger] slots[slot_of(
            size.x as int,
            p,
        )] is Some ==> exists|i: int| 0 <= i < out.len() && out[i].0 == p
}

proof fn lemma_listed_step<T>(
    size: Vec2i,
    slots: Seq<Option<T>>,
    before: Seq<(Vec2i, &T)>,
    after: Seq<(Vec2i, &T)>,
    here: Vec2i,
)
    requires
        size.x > 0,
        size.y > 0,
        slots.len() == size.x * size.y,
        in_rect(size, here),
        listed(size, slots, before, slot_of(size.x as int, here)),
        match slots[slot_of(size.x as int, here)] {
            Some(item) => after.len() == before.len() + 1 && after.drop_last() == before
                && after.last().0 == here && *after.last().1 == item,
            None => after == before,
        },
    ensures
        listed(size, slots, after, slot_of(size.x as int, here) + 1),
{
    let w = size.x as int;
    let k = slot_of(w, here);
    assert forall|p: Vec2i|
        in_rect(size, p) && slot_of(w, p) < k + 1 && #[trigger] slots[slot_of(w, p)] is Some implies exists|
        i: int,
    | 0 <= i < after.len() && after[i].0 == p by {
        if slot_of(w, p) < k {
            let i = choose|i: int| 0 <= i < before.len() && before[i].0 == p;
            if slots[k] is Some {
                assert(after.drop_last()[i] == after[i]);
            }
            assert(after[i].0 == p);
        } else {
            lemma_slot_injective(size, p, here);
            assert(after[after.len() - 1].0 == p);
        }
    }
    if slots[k] is Some {
        assert forall|i: int| 0 <= i < after.len() implies {
            &&& in_rect(size, #[trigger] after[i].0)
            &&& slot_of(w, after[i].0) < k + 1
            &&& slots[slot_of(w, after[i].0)] == Some(*after[i].1)
        } by {
            if i < before.len() {
                assert(after.drop_last()[i] == after[i]);
            }
        }
        assert forall|i: int, j: int| 0 <= i < j < after.len() implies slot_of(
            w,
            #[trigger] after[i].0,
        ) < slot_of(w, #[trigger] after[j].0) by {
            assert(after.drop_last()[i] == after[i]);
            if j < before.len() {
                assert(after.drop_last()[j] == after[j]);
            }
        }
    }
}

proof fn lemma_listed_all<T>(size: Vec2i, slots: Seq<Option<T>>, out: Seq<(Vec2i, &T)>)
    requires
        size.x > 0,
        size.y > 0,
        slots.len() == size.x * size.y,
        listed(size, slots, out, size.x * size.y),
        slots_content(size, slots).dom().finite(),
    ensures
        out.len() == slots_content(size, slots).dom().len(),
        forall|i: int|
            0 <= i < out.len() ==> slots_content(size, slots).contains_key(#[trigger] out[i].0)
                && *out[i].1 == slots_content(size, slots)[out[i].0],
        forall|i: int, j: int| 0 <= i < j < out.len() ==> out[i].0 != out[j].0,
        forall|p: Vec2i| #[trigger]
            slots_content(size, slots).contains_key(p) ==> exists|i: int|
                0 <= i < out.len() && out[i].0 == p,
        forall|i: int, j: int|
            0 <= i < j < out.len() ==> slot_of(size.x as int, #[trigger] out[i].0) < slot_of(
                size.x as int,
                #[trigger] out[j].0,
            ),
{
    let content = slots_content(size, slots);
    let keys = out.map_values(|e: (Vec2i, &T)| e.0);
    assert forall|p: Vec2i| #[trigger] content.contains_key(p) implies exists|i: int|
        0 <= i < out.len() && out[i].0 == p by {
        lemma_slot_bounds(size, p);
    }
    assert(keys.no_duplicates());
    assert forall|p: Vec2i| keys.to_set().contains(p) <==> content.dom().contains(p) by {
        if content.dom().contains(p) {
            lemma_slot_bounds(size, p);
            let i = choose|i: int| 0 <= i < out.len() && out[i].0 == p;
            assert(keys[i] == p);
        }
        if keys.to_set().contains(p) {
            let i = choose|i: int| 0 <= i < keys.len() && keys[i] == p;
            assert(out[i].0 == p);
        }
    }
    assert(keys.to_set() =~= content.dom());
    keys.unique_seq_to_set();
}

impl<T, C> Grid<T> for VecGrid<T, C> where C: CanFitInSize {
    fn can(&self, pos: &Vec2i) -> (r: bool) {
        self.constraints.can(pos)
    }

    fn has(&self, pos: &Vec2i) -> (r: bool) {
        let slot = self.to_pos(pos);
        self.grid[slot].is_some()
    }

    fn get<'a>(&'a self, pos: &Vec2i) -> (r: Option<&'a T>) {
        let slot = self.to_pos(pos);
        self.grid[slot].as_ref()
    }

    fn get_mut<'a>(&'a mut self, pos: &Vec2i) -> (r: Option<&'a mut T>) {
        let slot = self.to_pos(pos);
        proof {
            let cell = self.space().canonical(*pos);
            let size = self.space().size;
            let before = self.grid@;
            let content = slots_content(size, before);
            assert forall|item: T| #[trigger]
                slots_content(size, before.update(slot as int, Some(item))) == content.insert(
                    cell,
                    item,
                ) by {
                lemma_content_update(size, before, cell, Some(item));
            }
            assert forall|item: T| content.contains_key(cell) implies #[trigger] content.insert(
                cell,
                item,
            ).dom() == content.dom() by {
                assert(content.insert(cell, item).dom() =~= content.dom());
            }
            assert(before.update(slot as int, before[slot as int]) =~= before);
        }
        self.grid[slot].as_mut()
    }

    fn get_owned(&mut self, pos: &Vec2i) -> (r: Option<T>) {
        let slot = self.to_pos(pos);
        let ghost cell = self.space().canonical(*pos);
        let ghost before = self.grid@;
        self.grid.push(None);
        let owned = self.grid.swap_remove(slot);
        proof {
            assert(self.grid@ =~= before.update(slot as int, None));
            lemma_content_update(self.space().size, before, cell, None);
        }
        if owned.is_some() {
            self.count -= 1;
        }
        owned
    }

    fn set(&mut self, pos: &Vec2i, obj: T) -> (r: Option<T>) {
        if self.can(pos) && !self.has(pos) {
            self.set_unchecked(pos, obj);
            None
        } else {
            Some(obj)
        }
    }

    fn set_unchecked(&mut self, pos: &Vec2i, obj: T) {
        let slot = self.to_pos(pos);
        let slots = self.grid.len();
        let ghost cell = self.space().canonical(*pos);
        let ghost before = self.grid@;
        if self.grid[slot].is_none() {
            proof {
                let others = rect_cells(self.space().size).remove(cell);
                lemma_rect_cells(self.space().size);
                assert(slots_content(self.space().size, before).dom().subset_of(others));
                vstd::set_lib::lemma_len_subset(
                    slots_content(self.space().size, before).dom(),
                    others,
                );
                assert(rect_cells(self.space().size).contains(cell));
                assert(others.len() + 1 == rect_cells(self.space().size).len());
                assert(self.count < before.len());
            }
            self.count += 1;
        }
        self.grid.push(Some(obj));
        let _ = self.grid.swap_remove(slot);
        proof {
            assert(self.grid@ =~= before.update(slot as int, Some(obj)));
            lemma_content_update(self.space().size, before, cell, Some(obj));
        }
    }

    fn len(&self) -> (r: usize) {
        self.count
    }

    fn clear(&mut self) {
        let n = self.grid.len();
        let mut i: usize = 0;
        while i < n
            invariant
                i <= n,
                n == self.grid@.len(),
                self.constraints == old(self).constraints,
                forall|k: int| 0 <= k < i ==> self.grid@[k] is None,
            decreases n - i,
        {
            let ghost before = self.grid@;
            self.grid.push(None);
            let _ = self.grid.swap_remove(i);
            proof {
                assert(self.grid@ =~= before.update(i as int, None));
            }
            i += 1;
        }
        self.count = 0;
        proof {
            lemma_all_empty(self.space().size, self.grid@);
        }
    }

    fn is_repeat_x(&self) -> (r: bool) {
        self.constraints.is_repeat_x()
    }

    fn is_repeat_y(&self) -> (r: bool) {
        self.constraints.is_repeat_y()
    }

    fn is_finite(&self) -> (r: bool) {
        self.constraints.is_finite()
    }
}

/// Every point of the rectangle `[0, size.x) x [0, size.y)`.
pub open spec fn rect_cells(size: Vec2i) -> Set<Vec2i> {
    Set::new(|p: Vec2i| in_rect(size, p))
}

/// The rectangle has `size.x * size.y` points, so no grid over it holds more.
proof fn lemma_rect_cells(size: Vec2i)
    requires
        size.x > 0,
        size.y > 0,
    ensures
        rect_cells(size).finite(),
        rect_cells(size).len() == size.x * size.y,
{
    lemma_rect_rows(size, size.y as int);
    assert(rect_cells(size) =~= rows_below(size, size.y as int));
}

/// The points of the rectangle in the rows below `rows`.
spec fn rows_below(size: Vec2i, rows: int) -> Set<Vec2i> {
    Set::new(|p: Vec2i| 0 <= p.x < size.x && 0 <= p.y < rows)
}

/// The points of row `y` in the columns below `cols`.
spec fn row_prefix(size: Vec2i, y: int, cols: int) -> Set<Vec2i> {
    Set::new(|p: Vec2i| 0 <= p.x < cols && p.y == y)
}

proof fn lemma_row_prefix(size: Vec2i, y: int, cols: int)
    requires
        0 <= cols <= size.x,
        0 <= y < size.y,
    ensures
        row_prefix(size, y, cols).finite(),
        row_prefix(size, y, cols).len() == cols,
    decreases cols,
{
    if cols == 0 {
        assert(row_prefix(size, y, cols) =~= Set::<Vec2i>::empty());
    } else {
        lemma_row_prefix(size, y, cols - 1);
        let last = Vec2i { x: (cols - 1) as i32, y: y as i32 };
        assert(row_prefix(size, y, cols) =~= row_prefix(size, y, cols - 1).insert(last));
    }
}

proof fn lemma_rect_rows(size: Vec2i, rows: int)
    requires
        size.x > 0,
        0 <= rows <= size.y,
    ensures
        rows_below(size, rows).finite(),
        rows_below(size, rows).len() == size.x * rows,
    decreases rows,
{
    if rows == 0 {
        assert(rows_below(size, rows) =~= Set::<Vec2i>::empty());
        assert(size.x * 0 == 0);
    } else {
        lemma_rect_rows(size, rows - 1);
        lemma_row_prefix(size, rows - 1, size.x as int);
        let lower = rows_below(size, rows - 1);
        let top = row_prefix(size, rows - 1, size.x as int);
        assert(rows_below(size, rows) =~= lower.union(top));
        assert(lower.disjoint(top));
        vstd::set_lib::lemma_set_disjoint_lens(lower, top);
        assert(size.x * rows == size.x * (rows - 1) + size.x) by (nonlinear_arith);
    }
}

} // verus!
