//! The turn of a living bot: it multiplies if it holds protein enough, and
//! else runs its program until an instruction succeeds.
//!
//! The random source decides which free cell, which victim and which
//! mutation are taken. Everything else about a turn is stated exactly: see
//! [`turn_ends`].

use rand_pcg::Pcg32;
use vstd::prelude::*;
use crate::actions::ACTION_TINT;
use crate::actions::FORCED_MULTIPLY;
use crate::actions::attack;
use crate::actions::attacked;
use crate::actions::buds_from;
use crate::actions::fed;
use crate::actions::feed;
use crate::actions::multiply;
use crate::actions::parent_of;
use crate::actions::photosynthesize;
use crate::actions::photosynthesized;
use crate::actions::place_or_forfeit;
use crate::actions::rewarded;
use crate::creature::Bot;
use crate::creature::Comand;
use crate::creature::Comands;
use crate::creature::Creature;
use crate::creature::ProgramPos;
use crate::creature::Tint;
use crate::grid::Grid;
use crate::ledger::lemma_stored_insert;
use crate::ledger::lemma_stored_remove;
use crate::ledger::stored_protein;
use crate::neighborhood::alive_around;
use crate::neighborhood::available;
use crate::neighborhood::available_cells;
use crate::neighborhood::lemma_available_admitted;
use crate::neighborhood::lemma_filter_members;
use crate::neighborhood::living_cells;
use crate::neighborhood::void_around;
use crate::neighborhood::void_cells;
use crate::random::choose_cell;
use crate::resources::Resources;
use crate::resources::Stole;
use crate::space::Space;
use crate::space::Vec2i;
use crate::world::Constants;
use crate::world::all_sound;

verus! {

/// Whether a bot holds so much protein that it multiplies whatever its
/// program says.
pub open spec fn forced(constants: Constants, bot: Bot) -> bool {
    bot.protein >= FORCED_MULTIPLY * constants.multiply
}

/// Where the program of `bot` stands after `failures` instructions in a
/// row have failed: each failure takes the failure branch.
pub open spec fn pointer_after(bot: Bot, failures: nat) -> ProgramPos
    decreases failures,
{
    if failures == 0 {
        bot.eip
    } else {
        bot.program@[pointer_after(bot, (failures - 1) as nat).0 as int].goto_fail
    }
}

/// The bot after `failures` failed instructions: nothing but its program
/// pointer has moved.
pub open spec fn after_failures(bot: Bot, failures: nat) -> Bot {
    Bot { eip: pointer_after(bot, failures), ..bot }
}

/// The instruction that `bot` runs next.
pub open spec fn current(bot: Bot) -> Comand {
    bot.program@[bot.eip.0 as int]
}

/// What a living bot finds around it: the pool, the space, the other bots,
/// and its own coordinate.
pub struct Scene {
    pub pool: Resources,
    pub space: Space,
    pub cells: Map<Vec2i, Bot>,
    pub pos: Vec2i,
}

impl Scene {
    /// The free cells around the bot.
    pub open spec fn void(self) -> Seq<Vec2i> {
        void_cells(self.space, self.cells, available(self.space, self.pos))
    }

    /// The cells around the bot that hold a living bot.
    pub open spec fn living(self) -> Seq<Vec2i> {
        living_cells(self.space, self.cells, available(self.space, self.pos))
    }

    /// The bot in the cell that `at` names.
    pub open spec fn bot_at(self, at: Vec2i) -> Bot {
        self.cells[self.space.canonical(at)]
    }

    /// Whether the bot in the cell that `at` names holds no protein.
    pub open spec fn poor(self, at: Vec2i) -> bool {
        self.bot_at(at).protein == 0
    }
}

/// How a bot's turn ends: the bot that is handed back with its cell, and
/// the pool and the grid as the turn leaves them.
pub struct Ending {
    pub handed: Option<(Vec2i, Bot)>,
    pub pool: Resources,
    pub cells: Map<Vec2i, Bot>,
}

/// Whether the instruction that `bot` runs next can fail in `scene`.
/// Whether an attack fails can depend on the victim that is chosen.
pub open spec fn may_fail(constants: Constants, bot: Bot, scene: Scene) -> bool {
    match current(bot).comand {
        Comands::Multiply => bot.protein < constants.multiply || scene.void().len() == 0,
        Comands::Photosynthesis => !photosynthesized(bot, scene.pool, current(bot)).2,
        Comands::Attack => scene.living().len() == 0 || scene.pool.oxygen == 0 || exists|
            at: Vec2i,
        | scene.living().contains(at) && #[trigger] scene.poor(at),
        Comands::Food => !fed(bot, scene.pool, current(bot)).2,
        Comands::Move => scene.void().len() == 0,
    }
}

/// Whether `end` is how `bot` multiplies into the free cell `to` with the
/// child `child`: the child takes the cell and the parent, tinted and, where
/// an instruction made it multiply, sent to `target`, stays in its own.
pub open spec fn multiplies_into(
    constants: Constants,
    bot: Bot,
    scene: Scene,
    target: ProgramPos,
    to: Vec2i,
    child: Bot,
    end: Ending,
) -> bool {
    &&& scene.void().contains(to)
    &&& buds_from(child, bot, constants.live)
    &&& end.handed == Some((scene.pos, rewarded(parent_of(bot, child), Tint::Blue, target)))
    &&& end.pool == scene.pool
    &&& end.cells == scene.cells.insert(scene.space.canonical(to), child)
}

/// Whether `end` is how `bot` attacks the living bot at `at` and succeeds.
pub open spec fn attacks_at(bot: Bot, scene: Scene, at: Vec2i, end: Ending) -> bool {
    let fight = attacked(bot, scene.bot_at(at), scene.pool, current(bot));
    &&& scene.living().contains(at)
    &&& scene.pool.oxygen > 0
    &&& fight.3
    &&& end.handed == Some((scene.pos, fight.0))
    &&& end.pool == fight.2
    &&& end.cells == scene.cells.insert(scene.space.canonical(at), fight.1)
}

/// Whether `end` is how `bot` moves to the free cell `to`.
pub open spec fn moves_to(bot: Bot, scene: Scene, to: Vec2i, end: Ending) -> bool {
    &&& scene.void().contains(to)
    &&& end.handed == Some((to, rewarded(bot, Tint::White, current(bot).goto_success)))
    &&& end.pool == scene.pool
    &&& end.cells == scene.cells
}

/// Whether `end` is how the instruction that `bot` runs next succeeds.
pub open spec fn succeeds(constants: Constants, bot: Bot, scene: Scene, end: Ending) -> bool {
    match current(bot).comand {
        Comands::Multiply => bot.protein >= constants.multiply && exists|to: Vec2i, child: Bot| #[trigger]
            multiplies_into(constants, bot, scene, current(bot).goto_success, to, child, end),
        Comands::Photosynthesis => {
            let made = photosynthesized(bot, scene.pool, current(bot));
            &&& made.2
            &&& end.handed == Some((scene.pos, made.0))
            &&& end.pool == made.1
            &&& end.cells == scene.cells
        },
        Comands::Attack => exists|at: Vec2i| #[trigger] attacks_at(bot, scene, at, end),
        Comands::Food => {
            let made = fed(bot, scene.pool, current(bot));
            &&& made.2
            &&& end.handed == Some((scene.pos, made.0))
            &&& end.pool == made.1
            &&& end.cells == scene.cells
        },
        Comands::Move => exists|to: Vec2i| #[trigger] moves_to(bot, scene, to, end),
    }
}

/// Whether `end` is how a bot that is forced to multiply ends its turn: it
/// multiplies where a cell is free, is tinted either way, and its program
/// stays where it is.
pub open spec fn multiplies_by_force(constants: Constants, bot: Bot, scene: Scene, end: Ending) -> bool {
    ||| {
        &&& scene.void().len() == 0
        &&& end.handed == Some((scene.pos, rewarded(bot, Tint::Blue, bot.eip)))
        &&& end.pool == scene.pool
        &&& end.cells == scene.cells
    }
    ||| exists|to: Vec2i, child: Bot| #[trigger]
        multiplies_into(constants, bot, scene, bot.eip, to, child, end)
}

/// Whether `end` is how the turn of the living bot `bot` can end in `scene`
/// after `failures` failed instructions.
///
/// A bot that holds enough protein multiplies at once. Any other bot runs
/// its program: each instruction that fails sends it to that instruction's
/// failure branch, and the first that succeeds ends the turn. A bot that
/// has used up its `constants.comand` instructions is handed back as it is.
pub open spec fn turn_ends(
    constants: Constants,
    bot: Bot,
    scene: Scene,
    failures: nat,
    end: Ending,
) -> bool {
    &&& failures <= constants.comand
    &&& failures > 0 ==> !forced(constants, bot)
    &&& forall|i: nat|
        i < failures ==> #[trigger] may_fail(constants, after_failures(bot, i), scene)
    &&& if failures == constants.comand {
        &&& end.handed == Some((scene.pos, after_failures(bot, failures)))
        &&& end.pool == scene.pool
        &&& end.cells == scene.cells
    } else if forced(constants, bot) {
        multiplies_by_force(constants, after_failures(bot, failures), scene, end)
    } else {
        succeeds(constants, after_failures(bot, failures), scene, end)
    }
}

/// What the functions that run one instruction ask of their arguments: a
/// well-formed grid of runnable bots, a runnable bot in hand, totals that
/// fit their counters, and the cells around `pos` sorted into free ones and
/// ones with a living bot.
pub open spec fn ready<G: Grid<Bot>>(
    bot: Bot,
    resources: Resources,
    bots: G,
    pos: Vec2i,
    void: Seq<Vec2i>,
    alive: Seq<Vec2i>,
) -> bool {
    &&& bots.wf()
    &&& all_sound(bots.cells())
    &&& bot.sound()
    &&& resources.free_protein + stored_protein(bots.cells()) + bot.protein <= u32::MAX
    &&& resources.gas() <= u32::MAX
    &&& void == scene_of(resources, bots, pos).void()
    &&& alive == scene_of(resources, bots, pos).living()
}

/// The scene that a bot at `pos` finds.
pub open spec fn scene_of<G: Grid<Bot>>(resources: Resources, bots: G, pos: Vec2i) -> Scene {
    Scene { pool: resources, space: bots.space(), cells: bots.cells(), pos }
}

/// What the functions that run one instruction leave behind, however the
/// instruction went: a well-formed grid of runnable bots in the same space,
/// a runnable bot in hand, and no protein or gas made or lost.
pub open spec fn kept<G: Grid<Bot>>(
    bot: Bot,
    resources: Resources,
    bots: G,
    bot_after: Bot,
    resources_after: Resources,
    bots_after: G,
) -> bool {
    &&& bots_after.wf()
    &&& bots_after.space() == bots.space()
    &&& all_sound(bots_after.cells())
    &&& bot_after.sound()
    &&& resources_after.free_protein + stored_protein(bots_after.cells()) + bot_after.protein
        == resources.free_protein + stored_protein(bots.cells()) + bot.protein
    &&& resources_after.gas() == resources.gas()
}

/// Whether a failed instruction left everything as it was but the bot's
/// program, which has taken the failure branch.
pub open spec fn failed<G: Grid<Bot>>(
    constants: Constants,
    bot: Bot,
    resources: Resources,
    bots: G,
    pos: Vec2i,
    bot_after: Bot,
    resources_after: Resources,
    bots_after: G,
) -> bool {
    &&& may_fail(constants, bot, scene_of(resources, bots, pos))
    &&& bot_after == (Bot { eip: current(bot).goto_fail, ..bot })
    &&& resources_after == resources
    &&& bots_after.cells() == bots.cells()
}

/// The free cells in `void` are legal and free; the cells in `alive` hold a
/// bot.
proof fn lemma_scene_cells(scene: Scene)
    ensures
        forall|to: Vec2i| #[trigger]
            scene.void().contains(to) ==> scene.space.admits(to) && !scene.cells.contains_key(
                scene.space.canonical(to),
            ),
        forall|at: Vec2i| #[trigger]
            scene.living().contains(at) ==> scene.space.admits(at) && scene.cells.contains_key(
                scene.space.canonical(at),
            ),
{
    let around = available(scene.space, scene.pos);
    lemma_available_admitted(scene.space, scene.pos);
    lemma_filter_members(around, |p: Vec2i| !scene.cells.contains_key(scene.space.canonical(p)));
    lemma_filter_members(
        around,
        |p: Vec2i|
            scene.cells.contains_key(scene.space.canonical(p))
                && scene.cells[scene.space.canonical(p)].alive,
    );
    assert forall|to: Vec2i| #[trigger] scene.void().contains(to) implies scene.space.admits(to)
        && !scene.cells.contains_key(scene.space.canonical(to)) by {
        let i = choose|i: int| 0 <= i < around.len() && around[i] == to;
    }
    assert forall|at: Vec2i| #[trigger] scene.living().contains(at) implies scene.space.admits(
        at,
    ) && scene.cells.contains_key(scene.space.canonical(at)) by {
        let i = choose|i: int| 0 <= i < around.len() && around[i] == at;
    }
}

/// Lets `bot` multiply into a free cell around it and places the child.
/// Returns whether there was a cell to multiply into; the bot is tinted and
/// sent to `target` only where there was.
fn multiply_and_place<G: Grid<Bot>>(
    constants: &Constants,
    rng: &mut Pcg32,
    resources: &mut Resources,
    bots: &mut G,
    pos: Vec2i,
    bot: &mut Bot,
    void: &Vec<Vec2i>,
    target: ProgramPos,
) -> (done: bool)
    requires
        ready(*old(bot), *old(resources), *old(bots), pos, void@, living_cells(
            old(bots).space(),
            old(bots).cells(),
            available(old(bots).space(), pos),
        )),
        target.sound(),
    ensures
        kept(*old(bot), *old(resources), *old(bots), *final(bot), *final(resources), *final(bots)),
        done == (void@.len() > 0),
        !done ==> *final(bot) == *old(bot) && *final(resources) == *old(resources) && final(
            bots).cells() == old(bots).cells(),
        done ==> exists|to: Vec2i, child: Bot| #[trigger]
            multiplies_into(
                *constants,
                *old(bot),
                scene_of(*old(resources), *old(bots), pos),
                target,
                to,
                child,
                Ending {
                    handed: Some((pos, *final(bot))),
                    pool: *final(resources),
                    cells: final(bots).cells(),
                },
            ),
{
    let ghost scene = scene_of(*resources, *bots, pos);
    let ghost parent = *bot;
    proof {
        bots.lemma_wf();
        lemma_scene_cells(scene);
    }
    match multiply(constants, rng, bot, void) {
        Some((new_pos, new_bot)) => {
            bot.eip = target;
            bot.color = bot.color.interpolate(&Tint::Blue.color(), ACTION_TINT);
            let _ = place_or_forfeit(resources, bots, &new_pos, new_bot);
            proof {
                let end = Ending {
                    handed: Some((pos, *bot)),
                    pool: *resources,
                    cells: bots.cells(),
                };
                assert(multiplies_into(*constants, parent, scene, target, new_pos, new_bot, end));
            }
            true
        },
        None => false,
    }
}

/// Runs an attack instruction: a living bot around the attacker is chosen
/// at random and attacked. Returns whether the attack succeeded.
fn run_attack<G: Grid<Bot>>(
    constants: &Constants,
    rng: &mut Pcg32,
    resources: &mut Resources,
    bots: &mut G,
    pos: Vec2i,
    bot: &mut Bot,
    alive: &Vec<Vec2i>,
) -> (done: bool)
    requires
        ready(*old(bot), *old(resources), *old(bots), pos, void_cells(
            old(bots).space(),
            old(bots).cells(),
            available(old(bots).space(), pos),
        ), alive@),
        current(*old(bot)).comand == Comands::Attack,
    ensures
        kept(*old(bot), *old(resources), *old(bots), *final(bot), *final(resources), *final(bots)),
        done ==> succeeds(
            *constants,
            *old(bot),
            scene_of(*old(resources), *old(bots), pos),
            Ending {
                handed: Some((pos, *final(bot))),
                pool: *final(resources),
                cells: final(bots).cells(),
            },
        ),
        !done ==> failed(
            *constants,
            *old(bot),
            *old(resources),
            *old(bots),
            pos,
            *final(bot),
            *final(resources),
            *final(bots),
        ),
{
    let ghost scene = scene_of(*resources, *bots, pos);
    let ghost actor = *bot;
    let comand = bot.program[bot.eip.0];
    proof {
        bots.lemma_wf();
        lemma_scene_cells(scene);
    }
    if alive.len() == 0 || !resources.oxygen.can_stole() {
        bot.eip = comand.goto_fail;
        return false;
    }
    match choose_cell(rng, alive) {
        Some(attack_to) => {
            match bots.get_owned(&attack_to) {
                Some(mut victim) => {
                    let ghost target = scene.space.canonical(attack_to);
                    proof {
                        lemma_stored_remove(scene.cells, target);
                        bots.lemma_wf();
                    }
                    let done = attack(bot, &mut victim, resources, &comand);
                    proof {
                        lemma_stored_insert(scene.cells.remove(target), target, victim);
                    }
                    let _ = bots.set(&attack_to, victim);
                    proof {
                        assert(bots.cells() =~= scene.cells.insert(target, victim));
                        if done {
                            let end = Ending {
                                handed: Some((pos, *bot)),
                                pool: *resources,
                                cells: bots.cells(),
                            };
                            assert(attacks_at(actor, scene, attack_to, end));
                        } else {
                            assert(bots.cells() =~= scene.cells);
                            assert(scene.poor(attack_to));
                        }
                    }
                    done
                },
                None => {
                    bot.eip = comand.goto_fail;
                    false
                },
            }
        },
        None => {
            bot.eip = comand.goto_fail;
            false
        },
    }
}

/// Runs the instruction at the bot's program pointer. Returns the cell that
/// the bot is to be placed in where the instruction succeeded, and nothing
/// where it failed.
fn run_instruction<G: Grid<Bot>>(
    constants: &Constants,
    rng: &mut Pcg32,
    resources: &mut Resources,
    bots: &mut G,
    pos: Vec2i,
    bot: &mut Bot,
    void: &Vec<Vec2i>,
    alive: &Vec<Vec2i>,
) -> (r: Option<Vec2i>)
    requires
        ready(*old(bot), *old(resources), *old(bots), pos, void@, alive@),
    ensures
        kept(*old(bot), *old(resources), *old(bots), *final(bot), *final(resources), *final(bots)),
        match r {
            Some(to) => (to == pos || void@.contains(to)) && succeeds(
                *constants,
                *old(bot),
                scene_of(*old(resources), *old(bots), pos),
                Ending {
                    handed: Some((to, *final(bot))),
                    pool: *final(resources),
                    cells: final(bots).cells(),
                },
            ),
            None => failed(
                *constants,
                *old(bot),
                *old(resources),
                *old(bots),
                pos,
                *final(bot),
                *final(resources),
                *final(bots),
            ),
        },
{
    let ghost scene = scene_of(*resources, *bots, pos);
    let ghost actor = *bot;
    let comand = bot.program[bot.eip.0];
    assert(comand == current(actor));
    assert(comand.sound());
    match comand.comand {
        Comands::Multiply => {
            if bot.protein >= constants.multiply && multiply_and_place(
                constants,
                rng,
                resources,
                bots,
                pos,
                bot,
                void,
                comand.goto_success,
            ) {
                Some(pos)
            } else {
                bot.eip = comand.goto_fail;
                None
            }
        },
        Comands::Photosynthesis => {
            if photosynthesize(bot, resources, &comand) {
                Some(pos)
            } else {
                None
            }
        },
        Comands::Attack => {
            if run_attack(constants, rng, resources, bots, pos, bot, alive) {
                Some(pos)
            } else {
                None
            }
        },
        Comands::Food => {
            if feed(bot, resources, &comand) {
                Some(pos)
            } else {
                None
            }
        },
        Comands::Move => {
            match choose_cell(rng, void) {
                Some(new_pos) => {
                    bot.color = bot.color.interpolate(&Tint::White.color(), ACTION_TINT);
                    bot.eip = comand.goto_success;
                    proof {
                        let end = Ending {
                            handed: Some((new_pos, *bot)),
                            pool: *resources,
                            cells: bots.cells(),
                        };
                        assert(moves_to(actor, scene, new_pos, end));
                    }
                    Some(new_pos)
                },
                None => {
                    bot.eip = comand.goto_fail;
                    None
                },
            }
        },
    }
}

/// The turn of the living bot `bot`, which has been taken out of its cell
/// at `pos`: it multiplies if it must, and else runs its program until an
/// instruction succeeds or `constants.comand` instructions have failed.
/// Returns the bot and the cell that it is to be placed in.
#[verifier::loop_isolation(false)]
pub fn act<G: Grid<Bot>>(
    constants: &Constants,
    rng: &mut Pcg32,
    resources: &mut Resources,
    bots: &mut G,
    pos: Vec2i,
    bot: Bot,
) -> (r: (Vec2i, Bot))
    requires
        old(bots).wf(),
        all_sound(old(bots).cells()),
        bot.sound(),
        old(resources).free_protein + stored_protein(old(bots).cells()) + bot.protein <= u32::MAX,
        old(resources).gas() <= u32::MAX,
    ensures
        kept(bot, *old(resources), *old(bots), r.1, *final(resources), *final(bots)),
        old(bots).space().admits(pos) ==> old(bots).space().admits(r.0),
        exists|failures: nat| #[trigger]
            turn_ends(
                *constants,
                bot,
                scene_of(*old(resources), *old(bots), pos),
                failures,
                Ending { handed: Some(r), pool: *final(resources), cells: final(bots).cells() },
            ),
{
    let ghost scene = scene_of(*resources, *bots, pos);
    let ghost start = bot;
    let ghost grid = *bots;
    let mut bot = bot;
    let around = available_cells(bots, &pos);
    proof {
        bots.lemma_wf();
        lemma_scene_cells(scene);
    }
    let void = void_around(bots, &around);
    let alive = alive_around(bots, &around);
    let mut step: usize = 0;
    while step < constants.comand
        invariant
            step <= constants.comand,
            ready(bot, *resources, *bots, pos, void@, alive@),
            kept(start, scene.pool, grid, bot, *resources, *bots),
            bots.cells() == scene.cells,
            *resources == scene.pool,
            bot == after_failures(start, step as nat),
            forall|to: Vec2i| #[trigger]
                scene.void().contains(to) ==> scene.space.admits(to),
            step > 0 ==> !forced(*constants, start),
            forall|i: nat|
                i < step ==> #[trigger] may_fail(*constants, after_failures(start, i), scene),
        decreases constants.comand - step,
    {
        let ghost failures = step as nat;
        let ghost actor = bot;
        if bot.protein as u64 >= FORCED_MULTIPLY * constants.multiply as u64 {
            let target = bot.eip;
            let ghost plain = Ending {
                handed: Some((pos, rewarded(actor, Tint::Blue, target))),
                pool: *resources,
                cells: bots.cells(),
            };
            if !multiply_and_place(constants, rng, resources, bots, pos, &mut bot, &void, target) {
                bot.color = bot.color.interpolate(&Tint::Blue.color(), ACTION_TINT);
            }
            proof {
                let end = Ending {
                    handed: Some((pos, bot)),
                    pool: *resources,
                    cells: bots.cells(),
                };
                assert(multiplies_by_force(*constants, actor, scene, end));
                assert(turn_ends(*constants, start, scene, failures, end));
            }
            return (pos, bot);
        }
        match run_instruction(constants, rng, resources, bots, pos, &mut bot, &void, &alive) {
            Some(to) => {
                proof {
                    let end = Ending {
                        handed: Some((to, bot)),
                        pool: *resources,
                        cells: bots.cells(),
                    };
                    assert(turn_ends(*constants, start, scene, failures, end));
                }
                return (to, bot);
            },
            None => {},
        }
        proof {
            assert(may_fail(*constants, actor, scene));
            assert(bot == after_failures(start, (step + 1) as nat));
        }
        step += 1;
    }
    proof {
        let end = Ending { handed: Some((pos, bot)), pool: *resources, cells: bots.cells() };
        assert(turn_ends(*constants, start, scene, step as nat, end));
    }
    (pos, bot)
}

} // verus!
