//! The eight cells around a cell, and which of them a bot can reach.

use vstd::prelude::*;
use crate::creature::Bot;
use crate::grid::Grid;
use crate::space::Space;
use crate::space::Vec2i;

verus! {

/// The eight steps to the cells around a cell, clockwise from the upper left.
pub open spec fn moore_neighborhood() -> Seq<Vec2i> {
    seq![
        Vec2i { x: -1i32, y: 1 },
        Vec2i { x: 0, y: 1 },
        Vec2i { x: 1, y: 1 },
        Vec2i { x: 1, y: 0 },
        Vec2i { x: 1, y: -1i32 },
        Vec2i { x: 0, y: -1i32 },
        Vec2i { x: -1i32, y: -1i32 },
        Vec2i { x: -1i32, y: 0 },
    ]
}

/// Whether `v` can be a coordinate.
pub open spec fn fits(v: int) -> bool {
    i32::MIN <= v <= i32::MAX
}

/// The coordinate `dx` to the right of and `dy` above `pos`.
pub open spec fn shifted(pos: Vec2i, dx: int, dy: int) -> Vec2i {
    Vec2i { x: (pos.x + dx) as i32, y: (pos.y + dy) as i32 }
}

/// Whether the step `by` can be taken from `pos`: it leads to a legal
/// coordinate, and a diagonal step does so along both of its axes too, so
/// that no step cuts the corner of a wall.
pub open spec fn passable(space: Space, pos: Vec2i, by: Vec2i) -> bool {
    &&& fits(pos.x + by.x)
    &&& fits(pos.y + by.y)
    &&& space.admits(shifted(pos, by.x as int, by.y as int))
    &&& by.x != 0 && by.y != 0 ==> space.admits(shifted(pos, by.x as int, 0)) && space.admits(
        shifted(pos, 0, by.y as int),
    )
}

/// The coordinates around `pos` that can be reached from it, in the order of
/// the neighbourhood.
pub open spec fn available(space: Space, pos: Vec2i) -> Seq<Vec2i> {
    moore_neighborhood().filter(|by: Vec2i| passable(space, pos, by)).map_values(
        |by: Vec2i| shifted(pos, by.x as int, by.y as int),
    )
}

/// Those of `around` whose cell is free.
pub open spec fn void_cells<T>(space: Space, cells: Map<Vec2i, T>, around: Seq<Vec2i>) -> Seq<
    Vec2i,
> {
    around.filter(|p: Vec2i| !cells.contains_key(space.canonical(p)))
}

/// Those of `around` whose cell holds a living bot.
pub open spec fn living_cells(space: Space, cells: Map<Vec2i, Bot>, around: Seq<Vec2i>) -> Seq<
    Vec2i,
> {
    around.filter(
        |p: Vec2i| cells.contains_key(space.canonical(p)) && cells[space.canonical(p)].alive,
    )
}

/// One more element under a filter: it is appended where it passes.
pub proof fn lemma_filter_step<A>(s: Seq<A>, keep: spec_fn(A) -> bool, i: int)
    requires
        0 <= i < s.len(),
    ensures
        s.take(i + 1).filter(keep) == if keep(s[i]) {
            s.take(i).filter(keep).push(s[i])
        } else {
            s.take(i).filter(keep)
        },
{
    reveal(Seq::filter);
    assert(s.take(i + 1).drop_last() =~= s.take(i));
}

/// Under a filter, nothing of a sequence gives nothing, and all of it gives
/// the filtered sequence.
pub proof fn lemma_filter_ends<A>(s: Seq<A>, keep: spec_fn(A) -> bool)
    ensures
        s.take(0).filter(keep) == Seq::<A>::empty(),
        s.take(s.len() as int) == s,
{
    reveal(Seq::filter);
    assert(s.take(0) =~= Seq::<A>::empty());
    assert(s.take(s.len() as int) =~= s);
}

/// Everything that passes a filter comes from the filtered sequence and
/// meets the condition.
pub proof fn lemma_filter_members<A>(s: Seq<A>, keep: spec_fn(A) -> bool)
    ensures
        forall|a: A| #[trigger] s.filter(keep).contains(a) ==> s.contains(a) && keep(a),
{
    assert forall|a: A| #[trigger] s.filter(keep).contains(a) implies s.contains(a) && keep(a) by {
        let i = choose|i: int| 0 <= i < s.filter(keep).len() && s.filter(keep)[i] == a;
        s.lemma_filter_pred(keep, i);
        s.lemma_filter_contains_rev(keep, a);
    }
}

/// The step that the neighbourhood lists at `index`.
fn moore_step(index: usize) -> (by: Vec2i)
    requires
        index < 8,
    ensures
        by == moore_neighborhood()[index as int],
        -1 <= by.x <= 1,
        -1 <= by.y <= 1,
{
    if index == 0 {
        Vec2i { x: -1, y: 1 }
    } else if index == 1 {
        Vec2i { x: 0, y: 1 }
    } else if index == 2 {
        Vec2i { x: 1, y: 1 }
    } else if index == 3 {
        Vec2i { x: 1, y: 0 }
    } else if index == 4 {
        Vec2i { x: 1, y: -1 }
    } else if index == 5 {
        Vec2i { x: 0, y: -1 }
    } else if index == 6 {
        Vec2i { x: -1, y: -1 }
    } else {
        Vec2i { x: -1, y: 0 }
    }
}

/// Whether the step `by` can be taken from `pos`, and where it leads.
fn try_step<T, G: Grid<T>>(grid: &G, pos: &Vec2i, by: Vec2i) -> (r: Option<Vec2i>)
    requires
        grid.wf(),
        -1 <= by.x <= 1,
        -1 <= by.y <= 1,
    ensures
        r == if passable(grid.space(), *pos, by) {
            Some(shifted(*pos, by.x as int, by.y as int))
        } else {
            None
        },
{
    let x: i64 = pos.x as i64 + by.x as i64;
    let y: i64 = pos.y as i64 + by.y as i64;
    if x < i32::MIN as i64 || x > i32::MAX as i64 || y < i32::MIN as i64 || y > i32::MAX as i64 {
        return None;
    }
    let target = Vec2i { x: x as i32, y: y as i32 };
    if !grid.can(&target) {
        return None;
    }
    if by.x != 0 && by.y != 0 {
        let along_x = Vec2i { x: x as i32, y: pos.y };
        let along_y = Vec2i { x: pos.x, y: y as i32 };
        if !grid.can(&along_x) || !grid.can(&along_y) {
            return None;
        }
    }
    Some(target)
}

/// The coordinates around `pos` that a bot at `pos` can reach.
pub fn available_cells<T, G: Grid<T>>(grid: &G, pos: &Vec2i) -> (r: Vec<Vec2i>)
    requires
        grid.wf(),
    ensures
        r@ == available(grid.space(), *pos),
        r@.len() <= 8,
{
    let mut out: Vec<Vec2i> = Vec::new();
    let ghost keep = |by: Vec2i| passable(grid.space(), *pos, by);
    let ghost lead = |by: Vec2i| shifted(*pos, by.x as int, by.y as int);
    let mut i: usize = 0;
    proof {
        lemma_filter_ends(moore_neighborhood(), keep);
    }
    while i < 8
        invariant
            grid.wf(),
            i <= 8,
            keep == |by: Vec2i| passable(grid.space(), *pos, by),
            lead == |by: Vec2i| shifted(*pos, by.x as int, by.y as int),
            out@ == moore_neighborhood().take(i as int).filter(keep).map_values(lead),
            out@.len() <= i,
        decreases 8 - i,
    {
        let by = moore_step(i);
        proof {
            lemma_filter_step(moore_neighborhood(), keep, i as int);
        }
        let ghost before = out@;
        match try_step(grid, pos, by) {
            Some(target) => {
                out.push(target);
                assert(out@ =~= moore_neighborhood().take(i + 1).filter(keep).map_values(lead));
            },
            None => {},
        }
        i += 1;
    }
    out
}

/// Those of `around` whose cell is free.
pub fn void_around<T, G: Grid<T>>(grid: &G, around: &Vec<Vec2i>) -> (r: Vec<Vec2i>)
    requires
        grid.wf(),
        forall|i: int| 0 <= i < around@.len() ==> grid.space().admits(#[trigger] around@[i]),
    ensures
        r@ == void_cells(grid.space(), grid.cells(), around@),
{
    let mut out: Vec<Vec2i> = Vec::new();
    let ghost keep = |p: Vec2i| !grid.cells().contains_key(grid.space().canonical(p));
    let mut i: usize = 0;
    proof {
        lemma_filter_ends(around@, keep);
    }
    while i < around.len()
        invariant
            grid.wf(),
            i <= around@.len(),
            forall|i: int| 0 <= i < around@.len() ==> grid.space().admits(#[trigger] around@[i]),
            keep == |p: Vec2i| !grid.cells().contains_key(grid.space().canonical(p)),
            out@ == around@.take(i as int).filter(keep),
        decreases around@.len() - i,
    {
        proof {
            lemma_filter_step(around@, keep, i as int);
        }
        if !grid.has(&around[i]) {
            out.push(around[i]);
        }
        i += 1;
    }
    proof {
        lemma_filter_ends(around@, keep);
    }
    out
}

/// Those of `around` whose cell holds a living bot.
pub fn alive_around<G: Grid<Bot>>(grid: &G, around: &Vec<Vec2i>) -> (r: Vec<Vec2i>)
    requires
        grid.wf(),
        forall|i: int| 0 <= i < around@.len() ==> grid.space().admits(#[trigger] around@[i]),
    ensures
        r@ == living_cells(grid.space(), grid.cells(), around@),
{
    let mut out: Vec<Vec2i> = Vec::new();
    let ghost keep = |p: Vec2i|
        grid.cells().contains_key(grid.space().canonical(p)) && grid.cells()[grid.space().canonical(
            p,
        )].alive;
    let mut i: usize = 0;
    proof {
        lemma_filter_ends(around@, keep);
    }
    while i < around.len()
        invariant
            grid.wf(),
            i <= around@.len(),
            forall|i: int| 0 <= i < around@.len() ==> grid.space().admits(#[trigger] around@[i]),
            keep == |p: Vec2i|
                grid.cells().contains_key(grid.space().canonical(p))
                    && grid.cells()[grid.space().canonical(p)].alive,
            out@ == around@.take(i as int).filter(keep),
        decreases around@.len() - i,
    {
        proof {
            lemma_filter_step(around@, keep, i as int);
        }
        let lives = match grid.get(&around[i]) {
            Some(bot) => bot.alive,
            None => false,
        };
        if lives {
            out.push(around[i]);
        }
        i += 1;
    }
    proof {
        lemma_filter_ends(around@, keep);
    }
    out
}

/// Every available coordinate is legal.
pub proof fn lemma_available_admitted(space: Space, pos: Vec2i)
    ensures
        forall|i: int|
            0 <= i < available(space, pos).len() ==> space.admits(
                #[trigger] available(space, pos)[i],
            ),
{
    let keep = |by: Vec2i| passable(space, pos, by);
    let steps = moore_neighborhood().filter(keep);
    lemma_filter_members(moore_neighborhood(), keep);
    assert forall|i: int| 0 <= i < available(space, pos).len() implies space.admits(
        #[trigger] available(space, pos)[i],
    ) by {
        assert(steps.contains(steps[i]));
    }
}

/// From a legal coordinate, a step that leads to a legal coordinate never
/// cuts a corner: in each of the five spaces the rule for diagonal steps
/// follows from the target being legal.
pub proof fn lemma_no_corner_to_cut(space: Space, pos: Vec2i, by: Vec2i)
    requires
        space.admits(pos),
        fits(pos.x + by.x),
        fits(pos.y + by.y),
    ensures
        passable(space, pos, by) == space.admits(shifted(pos, by.x as int, by.y as int)),
{
}

} // verus!
