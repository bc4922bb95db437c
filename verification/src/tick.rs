//! The tick processor: one tick of one cell, and one tick of a whole world.

use rand_pcg::Pcg32;
use vstd::prelude::*;
use crate::actions::aged;
use crate::actions::decay;
use crate::actions::decayed;
use crate::actions::grow_old;
use crate::actions::perished;
use crate::actions::place_or_forfeit;
use crate::creature::Bot;
use crate::creature::Creature;
use crate::grid::Grid;
use crate::grid::can_place;
use crate::grid::placed;
use crate::ledger::lemma_stored_remove;
use crate::ledger::stored_protein;
use crate::resources::Resources;
use crate::resources::Stole;
use crate::space::Space;
use crate::space::Vec2i;
use crate::space::key_of;
use crate::space::lemma_key_order;
use crate::turn::Ending;
use crate::turn::Scene;
use crate::turn::act;
use crate::turn::turn_ends;
use crate::world::Constants;
use crate::world::World;
use crate::world::all_sound;

verus! {

/// Gives all that a perished bot holds back to the free pool.
fn destruct(resources: &mut Resources, bot: &mut Bot)
    requires
        old(resources).free_protein + old(bot).protein <= u32::MAX,
    ensures
        *final(resources) == (Resources {
            free_protein: (old(resources).free_protein + old(bot).protein) as u32,
            ..*old(resources)
        }),
        final(bot).protein == 0,
{
    resources.free_protein.stole_full(&mut bot.protein);
}

/// The protein that a handed-back bot carries with it.
pub open spec fn carried(handed: Option<(Vec2i, Bot)>) -> int {
    match handed {
        Some((_, bot)) => bot.protein as int,
        None => 0,
    }
}

/// Whether no protein and no gas was made or lost between two states of the
/// pool and the grid, counting what a handed-back bot carries.
pub open spec fn books_balance(
    pool: Resources,
    cells: Map<Vec2i, Bot>,
    pool_after: Resources,
    cells_after: Map<Vec2i, Bot>,
    handed: Option<(Vec2i, Bot)>,
) -> bool {
    &&& pool_after.free_protein + stored_protein(cells_after) + carried(handed)
        == pool.free_protein + stored_protein(cells)
    &&& pool_after.gas() == pool.gas()
}

/// One tick of the bot at `pos`.
///
/// The bot is taken out of the grid and aged. A bot that perishes is gone
/// and its protein is free again. A dead bot decays and is handed back for
/// its own cell. A living bot runs up to `constants.comand` instructions of
/// its program, until one succeeds; it is handed back for its own cell or,
/// where it moved, for a free cell around it. The caller places the bot
/// that is handed back.
pub fn process<G: Grid<Bot>>(
    constants: &Constants,
    rng: &mut Pcg32,
    resources: &mut Resources,
    bots: &mut G,
    pos: Vec2i,
) -> (r: Option<(Vec2i, Bot)>)
    requires
        old(bots).wf(),
        all_sound(old(bots).cells()),
        old(bots).space().admits(pos),
        old(resources).free_protein + stored_protein(old(bots).cells()) <= u32::MAX,
        old(resources).gas() <= u32::MAX,
    ensures
        final(bots).wf(),
        final(bots).space() == old(bots).space(),
        all_sound(final(bots).cells()),
        books_balance(
            *old(resources),
            old(bots).cells(),
            *final(resources),
            final(bots).cells(),
            r,
        ),
        match r {
            Some((to, bot)) => bot.sound() && old(bots).space().admits(to),
            None => true,
        },
        ({
            let cell = old(bots).space().canonical(pos);
            let before = old(bots).cells();
            if !before.contains_key(cell) {
                &&& r is None
                &&& *final(resources) == *old(resources)
                &&& final(bots).cells() == before
            } else {
                let bot = aged(before[cell], constants.die);
                if perished(bot) {
                    &&& r is None
                    &&& final(bots).cells() == before.remove(cell)
                    &&& *final(resources) == (Resources {
                        free_protein: (old(resources).free_protein + bot.protein) as u32,
                        ..*old(resources)
                    })
                } else if !bot.alive {
                    &&& r == Some((pos, decayed(bot)))
                    &&& final(bots).cells() == before.remove(cell)
                    &&& *final(resources) == (Resources {
                        free_protein: (old(resources).free_protein + bot.protein - decayed(
                            bot,
                        ).protein) as u32,
                        ..*old(resources)
                    })
                } else {
                    exists|failures: nat| #[trigger]
                        turn_ends(
                            *constants,
                            bot,
                            Scene {
                                pool: *old(resources),
                                space: old(bots).space(),
                                cells: before.remove(cell),
                                pos,
                            },
                            failures,
                            Ending {
                                handed: r,
                                pool: *final(resources),
                                cells: final(bots).cells(),
                            },
                        )
                }
            }
        }),
{
    let ghost space = bots.space();
    let ghost before = bots.cells();
    let ghost pool = *resources;
    let ghost cell = space.canonical(pos);
    proof {
        bots.lemma_wf();
    }
    let mut bot = match bots.get_owned(&pos) {
        Some(bot) => bot,
        None => {
            assert(bots.cells() =~= before);
            return None;
        },
    };
    let ghost taken = before.remove(cell);
    proof {
        lemma_stored_remove(before, cell);
        bots.lemma_wf();
    }
    grow_old(&mut bot, constants.die);
    let ghost start = bot;
    if !bot.alive && bot.timer == 0 {
        destruct(resources, &mut bot);
        return None;
    }
    if !bot.alive {
        decay(&mut bot, resources);
        return Some((pos, bot));
    }
    Some(act(constants, rng, resources, bots, pos, bot))
}

/// `sort_by_key` of std's slices, on the cells' keys: the same cells in the
/// order of their keys, least first.
#[verifier::external_body]
fn sort_by_key(cells: &mut Vec<Vec2i>)
    ensures
        final(cells)@.to_multiset() == old(cells)@.to_multiset(),
        forall|i: int, j: int|
            0 <= i <= j < final(cells)@.len() ==> key_of(#[trigger] final(cells)@[i]) <= key_of(
                #[trigger] final(cells)@[j],
            ),
{
    cells.sort_by_key(|cell| cell.key());
}

/// Whether a tick visits the cell `p` before the cell `q`: cells are taken
/// by rising `x` and, within one `x`, by rising `y`.
pub open spec fn precedes(p: Vec2i, q: Vec2i) -> bool {
    p.x < q.x || (p.x == q.x && p.y < q.y)
}

/// Whether `order` lists cells in the order of a tick's visit, each cell
/// once.
pub open spec fn strictly_ordered(order: Seq<Vec2i>) -> bool {
    forall|i: int, j: int|
        0 <= i < j < order.len() ==> precedes(#[trigger] order[i], #[trigger] order[j])
}

/// The occupied cells of a grid in the order in which a tick visits them:
/// by `x` first and by `y` second. The same cells give the same order,
/// whatever the container.
pub fn snapshot<G: Grid<Bot>>(bots: &G) -> (r: Vec<Vec2i>)
    requires
        bots.wf(),
    ensures
        visits(r@, bots.cells()),
        r@.len() == bots.cells().dom().len(),
{
    let listed = bots.iter();
    let mut positions: Vec<Vec2i> = Vec::new();
    let mut i: usize = 0;
    while i < listed.len()
        invariant
            i <= listed@.len(),
            positions@.len() == i,
            forall|k: int| 0 <= k < i ==> positions@[k] == listed@[k].0,
        decreases listed@.len() - i,
    {
        positions.push(listed[i].0);
        i += 1;
    }
    let ghost unsorted = positions@;
    sort_by_key(&mut positions);
    proof {
        assert(unsorted.no_duplicates());
        unsorted.lemma_multiset_has_no_duplicates();
        positions@.lemma_multiset_has_no_duplicates_conv();
        vstd::seq_lib::to_multiset_len(unsorted);
        vstd::seq_lib::to_multiset_len(positions@);
        assert forall|p: Vec2i| positions@.contains(p) <==> bots.cells().contains_key(p) by {
            vstd::seq_lib::to_multiset_contains(unsorted, p);
            vstd::seq_lib::to_multiset_contains(positions@, p);
            if bots.cells().contains_key(p) {
                let k = choose|k: int| 0 <= k < listed@.len() && listed@[k].0 == p;
                assert(unsorted[k] == p);
            }
            if unsorted.contains(p) {
                let k = choose|k: int| 0 <= k < unsorted.len() && unsorted[k] == p;
                assert(listed@[k].0 == p);
            }
        }
        assert forall|i: int, j: int| 0 <= i < j < positions@.len() implies precedes(
            #[trigger] positions@[i],
            #[trigger] positions@[j],
        ) by {
            lemma_key_order(positions@[i], positions@[j]);
        }
    }
    positions
}

/// What a tick leaves in the cell of a bot that is dead once it has aged:
/// nothing where the bot perishes, the decayed bot elsewhere.
pub open spec fn remains(cells: Map<Vec2i, Bot>, cell: Vec2i, die: u32) -> Map<Vec2i, Bot> {
    let bot = aged(cells[cell], die);
    if perished(bot) {
        cells.remove(cell)
    } else {
        cells.insert(cell, decayed(bot))
    }
}

/// The pool and the grid's content at one moment of a tick.
pub struct State {
    pub pool: Resources,
    pub cells: Map<Vec2i, Bot>,
}

/// Whether `after` is what placing the bot that a turn hands back makes of
/// the turn's ending: the bot takes its cell where that is free and legal,
/// and is given up, its protein going to the free pool, elsewhere.
pub open spec fn settles(space: Space, end: Ending, after: State) -> bool {
    match end.handed {
        Some((to, bot)) => {
            &&& after.cells == placed(space, end.cells, to, bot)
            &&& after.pool == (Resources {
                free_protein: if can_place(space, end.cells, to) {
                    end.pool.free_protein
                } else {
                    (end.pool.free_protein + bot.protein) as u32
                },
                ..end.pool
            })
        },
        None => false,
    }
}

/// Whether `after` is what one tick of the cell that `pos` names can make
/// of `before`.
///
/// An empty cell changes nothing. A bot that is dead once it has aged
/// decays in place or perishes. A living bot takes its turn, and is then
/// placed where the turn sends it.
pub open spec fn cell_ticks(
    constants: Constants,
    space: Space,
    pos: Vec2i,
    before: State,
    after: State,
) -> bool {
    let cell = space.canonical(pos);
    if !before.cells.contains_key(cell) {
        after.pool == before.pool && after.cells == before.cells
    } else {
        let bot = aged(before.cells[cell], constants.die);
        if !bot.alive {
            &&& after.cells == remains(before.cells, cell, constants.die)
            &&& after.pool == (Resources {
                free_protein: (before.pool.free_protein + released(bot)) as u32,
                ..before.pool
            })
        } else {
            exists|failures: nat, end: Ending|
                #[trigger] turn_ends(
                    constants,
                    bot,
                    Scene { pool: before.pool, space, cells: before.cells.remove(cell), pos },
                    failures,
                    end,
                ) && settles(space, end, after)
        }
    }
}

/// Whether `states` is a run of one tick over the cells `order`: each state
/// follows from the one before it by one tick of the next cell.
pub open spec fn tick_runs(
    constants: Constants,
    space: Space,
    order: Seq<Vec2i>,
    states: Seq<State>,
) -> bool {
    &&& states.len() == order.len() + 1
    &&& forall|i: int|
        0 <= i < order.len() ==> cell_ticks(
            constants,
            space,
            #[trigger] order[i],
            states[i],
            states[i + 1],
        )
}

/// Whether `order` is the order in which a tick visits the bots of `cells`:
/// every occupied cell once, by `x` first and by `y` second.
pub open spec fn visits(order: Seq<Vec2i>, cells: Map<Vec2i, Bot>) -> bool {
    &&& strictly_ordered(order)
    &&& forall|p: Vec2i| order.contains(p) <==> cells.contains_key(p)
}

/// The order of a tick's visit depends on nothing but which cells are
/// occupied: two orders that visit the same cells are the same order. So
/// two grids that hold the same bots are visited alike, whatever container
/// each is and in whatever order each lists its cells.
pub proof fn lemma_visiting_order_is_unique(
    first: Seq<Vec2i>,
    second: Seq<Vec2i>,
    cells: Map<Vec2i, Bot>,
)
    requires
        visits(first, cells),
        visits(second, cells),
    ensures
        first == second,
    decreases first.len(),
{
    if first.len() == 0 {
        if second.len() > 0 {
            assert(second.contains(second[0]));
            assert(first.contains(second[0]));
        }
        assert(first =~= second);
    } else {
        let a = first.last();
        assert(first.contains(a)) by {
            assert(first[first.len() - 1] == a);
        }
        assert(second.contains(a));
        let j = choose|j: int| 0 <= j < second.len() && second[j] == a;
        let b = second.last();
        assert(second.contains(b)) by {
            assert(second[second.len() - 1] == b);
        }
        assert(first.contains(b));
        let i = choose|i: int| 0 <= i < first.len() && first[i] == b;
        assert(a == b) by {
            if j < second.len() - 1 {
                assert(precedes(second[j], second[second.len() - 1]));
            }
            if i < first.len() - 1 {
                assert(precedes(first[i], first[first.len() - 1]));
            }
        }
        let rest = cells.remove(a);
        lemma_rest_is_visited(first, cells);
        lemma_rest_is_visited(second, cells);
        lemma_visiting_order_is_unique(first.drop_last(), second.drop_last(), rest);
        assert(first =~= first.drop_last().push(a));
        assert(second =~= second.drop_last().push(b));
    }
}

/// An order without its last cell visits the cells without that cell.
proof fn lemma_rest_is_visited(order: Seq<Vec2i>, cells: Map<Vec2i, Bot>)
    requires
        visits(order, cells),
        order.len() > 0,
    ensures
        visits(order.drop_last(), cells.remove(order.last())),
{
    let last = order.last();
    let front = order.drop_last();
    assert forall|p: Vec2i| front.contains(p) <==> cells.remove(last).contains_key(p) by {
        if front.contains(p) {
            let k = choose|k: int| 0 <= k < front.len() && front[k] == p;
            assert(order[k] == p);
            assert(order.contains(p));
            assert(precedes(order[k], order[order.len() - 1]));
        }
        if cells.remove(last).contains_key(p) {
            assert(order.contains(p));
            let k = choose|k: int| 0 <= k < order.len() && order[k] == p;
            assert(front[k] == p);
        }
    }
    assert forall|i: int, j: int| 0 <= i < j < front.len() implies precedes(
        #[trigger] front[i],
        #[trigger] front[j],
    ) by {
        assert(precedes(order[i], order[j]));
    }
}

/// The protein that a tick sets free from a bot that is dead once it has
/// aged: all of it where the bot perishes, one unit at most elsewhere.
pub open spec fn released(bot: Bot) -> int {
    if perished(bot) {
        bot.protein as int
    } else {
        bot.protein - decayed(bot).protein
    }
}

/// One tick of the bot at `pos`, and the placing of the bot that the tick
/// hands back: it takes its cell where that is free, and is given up, its
/// protein going to the free pool, where another bot has taken the cell.
///
/// A bot that is dead once it has aged stays where it is until it perishes.
pub fn process_cell<G: Grid<Bot>>(
    constants: &Constants,
    rng: &mut Pcg32,
    resources: &mut Resources,
    bots: &mut G,
    pos: Vec2i,
)
    requires
        old(bots).wf(),
        all_sound(old(bots).cells()),
        old(bots).space().admits(pos),
        old(resources).free_protein + stored_protein(old(bots).cells()) <= u32::MAX,
        old(resources).gas() <= u32::MAX,
    ensures
        final(bots).wf(),
        final(bots).space() == old(bots).space(),
        all_sound(final(bots).cells()),
        books_balance(
            *old(resources),
            old(bots).cells(),
            *final(resources),
            final(bots).cells(),
            None,
        ),
        cell_ticks(
            *constants,
            old(bots).space(),
            pos,
            State { pool: *old(resources), cells: old(bots).cells() },
            State { pool: *final(resources), cells: final(bots).cells() },
        ),
{
    let ghost space = bots.space();
    let ghost cell = bots.space().canonical(pos);
    let ghost before = State { pool: *resources, cells: bots.cells() };
    proof {
        bots.lemma_wf();
    }
    let result = process(constants, rng, resources, bots, pos);
    let ghost end = Ending { handed: result, pool: *resources, cells: bots.cells() };
    match result {
        Some((new_pos, new_bot)) => {
            let _ = place_or_forfeit(resources, bots, &new_pos, new_bot);
            proof {
                let after = State { pool: *resources, cells: bots.cells() };
                let bot = aged(before.cells[cell], constants.die);
                if bot.alive {
                    let scene = Scene {
                        pool: before.pool,
                        space,
                        cells: before.cells.remove(cell),
                        pos,
                    };
                    let failures = choose|failures: nat| #[trigger]
                        turn_ends(*constants, bot, scene, failures, end);
                    assert(settles(space, end, after));
                    assert(turn_ends(*constants, bot, scene, failures, end) && settles(
                        space,
                        end,
                        after,
                    ));
                } else {
                    assert(bots.cells() =~= remains(before.cells, cell, constants.die));
                }
            }
        },
        None => {},
    }
}

/// A dead bot's fate over `ticks` ticks of [`process_cell`]: the bot as it
/// then is, or nothing once it has perished.
pub open spec fn lingering(bot: Bot, die: u32, ticks: nat) -> Option<Bot>
    decreases ticks,
{
    if ticks == 0 {
        Some(bot)
    } else {
        match lingering(bot, die, (ticks - 1) as nat) {
            Some(last) => if perished(aged(last, die)) {
                None
            } else {
                Some(decayed(aged(last, die)))
            },
            None => None,
        }
    }
}

/// A living bot whose timer stands at one dies on its next tick, and its
/// timer is then set to `die`. Where `die` is zero that same tick removes
/// it. Elsewhere it lingers, dead, for `die` ticks less one, and the tick
/// after that removes it: it is gone exactly `die` ticks after the tick of
/// its death, and not before.
pub proof fn lemma_death_then_destruction(bot: Bot, die: u32, ticks: nat)
    requires
        bot.alive,
        bot.timer == 1,
        ticks <= die,
    ensures
        !aged(bot, die).alive,
        aged(bot, die).timer == die,
        perished(aged(bot, die)) <==> die == 0,
        die > 0 && ticks < die ==> (lingering(decayed(aged(bot, die)), die, ticks) matches Some(
            then,
        ) && !then.alive && then.timer == die - ticks),
        die > 0 ==> lingering(decayed(aged(bot, die)), die, die as nat) is None,
{
    if die > 0 {
        lemma_lingers(decayed(aged(bot, die)), die, ticks);
        lemma_lingers(decayed(aged(bot, die)), die, die as nat);
    }
}

/// A dead bot with `timer` ticks of decay left is still there, dead, after
/// fewer ticks than that, and is gone after exactly that many.
pub proof fn lemma_lingers(bot: Bot, die: u32, ticks: nat)
    requires
        !bot.alive,
        bot.timer > 0,
        ticks <= bot.timer,
    ensures
        ticks < bot.timer ==> (lingering(bot, die, ticks) matches Some(then) && !then.alive
            && then.timer == bot.timer - ticks),
        ticks == bot.timer ==> lingering(bot, die, ticks) is None,
    decreases ticks,
{
    if ticks > 0 {
        lemma_lingers(bot, die, (ticks - 1) as nat);
    }
}

/// Advances the world by one tick: every bot that is on the grid when the
/// tick starts is processed once, in the order of [`snapshot`], and the bot
/// that each step hands back is placed, or given up where its cell was
/// taken in the meantime.
///
/// No tick makes or loses protein, nor oxygen and carbon together.
pub fn process_world<G: Grid<Bot>>(constants: &Constants, rng: &mut Pcg32, world: &mut World<G>)
    requires
        old(world).wf(),
    ensures
        final(world).wf(),
        final(world).protein() == old(world).protein(),
        final(world).resources.gas() == old(world).resources.gas(),
        final(world).size == old(world).size,
        final(world).bots.space() == old(world).bots.space(),
        exists|order: Seq<Vec2i>, states: Seq<State>|
            {
                &&& visits(order, old(world).bots.cells())
                &&& #[trigger] tick_runs(*constants, old(world).bots.space(), order, states)
                &&& states.first() == (State {
                    pool: old(world).resources,
                    cells: old(world).bots.cells(),
                })
                &&& states.last() == (State {
                    pool: final(world).resources,
                    cells: final(world).bots.cells(),
                })
            },
{
    let positions = snapshot(&world.bots);
    let ghost first = State { pool: world.resources, cells: world.bots.cells() };
    let ghost mut states: Seq<State> = seq![first];
    proof {
        world.bots.lemma_wf();
        assert forall|k: int| 0 <= k < positions@.len() implies world.bots.space().admits(
            #[trigger] positions@[k],
        ) by {
            assert(positions@.contains(positions@[k]));
        }
    }
    let mut i: usize = 0;
    while i < positions.len()
        invariant
            i <= positions@.len(),
            world.wf(),
            world.protein() == old(world).protein(),
            world.resources.gas() == old(world).resources.gas(),
            world.size == old(world).size,
            world.bots.space() == old(world).bots.space(),
            forall|k: int|
                0 <= k < positions@.len() ==> old(world).bots.space().admits(
                    #[trigger] positions@[k],
                ),
            states.len() == i + 1,
            states[0] == first,
            states[i as int] == (State { pool: world.resources, cells: world.bots.cells() }),
            forall|k: int|
                0 <= k < i ==> cell_ticks(
                    *constants,
                    old(world).bots.space(),
                    #[trigger] positions@[k],
                    states[k],
                    states[k + 1],
                ),
        decreases positions@.len() - i,
    {
        let pos = positions[i];
        process_cell(constants, rng, &mut world.resources, &mut world.bots, pos);
        proof {
            states = states.push(State { pool: world.resources, cells: world.bots.cells() });
        }
        i += 1;
    }
    proof {
        assert(tick_runs(*constants, old(world).bots.space(), positions@, states));
    }
}

} // verus!
