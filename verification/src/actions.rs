//! What a single bot does: ageing, decay, and the actions that its
//! instructions stand for. Each action is a function of the bot, the pool
//! and, for an attack, the victim, and is specified exactly.

use rand_pcg::Pcg32;
use vstd::prelude::*;
use crate::creature::Bot;
use crate::creature::Comand;
use crate::creature::Creature;
use crate::creature::ProgramPos;
use crate::creature::Tint;
use crate::creature::palette;
use crate::grid::Grid;
use crate::grid::can_place;
use crate::grid::placed;
use crate::ledger::lemma_stored_insert;
use crate::ledger::stored_protein;
use crate::random::choose_cell;
use crate::random::gen_range_i32;
use crate::resources::Resources;
use crate::resources::Stole;
use crate::space::Vec2i;
use crate::world::Constants;

verus! {

/// How far a bot's colour moves towards black at its death, in thousandths.
pub const DEATH_FADE: u16 = 500;

/// How far a dead bot's colour moves towards black each tick, in thousandths.
pub const DECAY_FADE: u16 = 5;

/// How far an action tints a bot towards the action's colour, in thousandths.
pub const ACTION_TINT: u16 = 30;

/// By how much feeding shortens a bot's life, in ticks.
pub const FEED_PRICE: u32 = 10;

/// How many times the cost of multiplying a bot may hold before it
/// multiplies whatever its program says.
pub const FORCED_MULTIPLY: u64 = 10;

/// `timer` lowered by `amount`, not below zero.
pub open spec fn lowered(timer: u32, amount: u32) -> u32 {
    if timer > amount {
        (timer - amount) as u32
    } else {
        0
    }
}

/// The bot one tick older: its timer is lowered by one, and a living bot
/// whose timer has run out dies, which halves its colour towards black and
/// starts the timer of its decay at `die`.
pub open spec fn aged(bot: Bot, die: u32) -> Bot {
    if bot.alive && lowered(bot.timer, 1) == 0 {
        Bot {
            color: bot.color.mix(palette(Tint::Black), DEATH_FADE as int),
            alive: false,
            timer: die,
            ..bot
        }
    } else {
        Bot { timer: lowered(bot.timer, 1), ..bot }
    }
}

/// Whether an aged bot is gone for good: dead, and its decay has run out.
pub open spec fn perished(bot: Bot) -> bool {
    !bot.alive && bot.timer == 0
}

/// A dead bot after one tick of decay: slightly darker, and one unit of its
/// protein, if it has any, given back.
pub open spec fn decayed(bot: Bot) -> Bot {
    Bot {
        color: bot.color.mix(palette(Tint::Black), DECAY_FADE as int),
        protein: lowered(bot.protein, 1),
        ..bot
    }
}

/// The bot tinted by an action and set to go on at `target`.
pub open spec fn rewarded(bot: Bot, tint: Tint, target: ProgramPos) -> Bot {
    Bot { color: bot.color.mix(palette(tint), ACTION_TINT as int), eip: target, ..bot }
}

/// Ages `bot` by one tick.
pub fn grow_old(bot: &mut Bot, die: u32)
    ensures
        *final(bot) == aged(*old(bot), die),
{
    bot.timer = bot.timer.saturating_sub(1);
    if bot.alive && bot.timer == 0 {
        bot.color = bot.color.interpolate(&Tint::Black.color(), DEATH_FADE);
        bot.alive = false;
        bot.timer = die;
    }
}

/// One tick of decay on a dead bot: the unit of protein it loses goes to
/// the free pool.
pub fn decay(bot: &mut Bot, resources: &mut Resources)
    requires
        old(bot).protein + old(resources).free_protein <= u32::MAX,
    ensures
        *final(bot) == decayed(*old(bot)),
        *final(resources) == (Resources {
            free_protein: (old(resources).free_protein + old(bot).protein - final(bot).protein) as u32,
            ..*old(resources)
        }),
{
    bot.color = bot.color.interpolate(&Tint::Black.color(), DECAY_FADE);
    if bot.protein.can_stole() {
        resources.free_protein.stole(&mut bot.protein);
    }
}

/// What photosynthesis makes of a bot and the pool: where free protein and
/// carbon are at hand, one unit of protein goes to the bot and one unit of
/// carbon turns into oxygen; elsewhere only the program moves on.
pub open spec fn photosynthesized(bot: Bot, pool: Resources, comand: Comand) -> (
    Bot,
    Resources,
    bool,
) {
    if pool.free_protein > 0 && pool.carbon > 0 {
        (
            Bot { protein: (bot.protein + 1) as u32, ..rewarded(bot, Tint::Green, comand.goto_success) },
            Resources {
                free_protein: (pool.free_protein - 1) as u32,
                carbon: (pool.carbon - 1) as u32,
                oxygen: (pool.oxygen + 1) as u32,
            },
            true,
        )
    } else {
        (Bot { eip: comand.goto_fail, ..bot }, pool, false)
    }
}

/// Runs a photosynthesis instruction. Returns whether it succeeded.
pub fn photosynthesize(bot: &mut Bot, resources: &mut Resources, comand: &Comand) -> (done: bool)
    requires
        old(bot).protein + old(resources).free_protein <= u32::MAX,
        old(resources).gas() <= u32::MAX,
    ensures
        (*final(bot), *final(resources), done) == photosynthesized(
            *old(bot),
            *old(resources),
            *comand,
        ),
{
    if resources.free_protein.can_stole() && resources.carbon.can_stole() {
        bot.protein.stole(&mut resources.free_protein);
        resources.oxygen.stole(&mut resources.carbon);
        bot.color = bot.color.interpolate(&Tint::Green.color(), ACTION_TINT);
        bot.eip = comand.goto_success;
        true
    } else {
        bot.eip = comand.goto_fail;
        false
    }
}

/// What feeding makes of a bot and the pool: where free protein is at hand,
/// one unit goes to the bot, at the price of ten ticks of its life;
/// elsewhere only the program moves on.
pub open spec fn fed(bot: Bot, pool: Resources, comand: Comand) -> (Bot, Resources, bool) {
    if pool.free_protein > 0 {
        (
            Bot {
                protein: (bot.protein + 1) as u32,
                timer: lowered(bot.timer, FEED_PRICE),
                ..rewarded(bot, Tint::Gray, comand.goto_success)
            },
            Resources { free_protein: (pool.free_protein - 1) as u32, ..pool },
            true,
        )
    } else {
        (Bot { eip: comand.goto_fail, ..bot }, pool, false)
    }
}

/// Runs a feeding instruction. Returns whether it succeeded.
pub fn feed(bot: &mut Bot, resources: &mut Resources, comand: &Comand) -> (done: bool)
    requires
        old(bot).protein + old(resources).free_protein <= u32::MAX,
    ensures
        (*final(bot), *final(resources), done) == fed(*old(bot), *old(resources), *comand),
{
    if resources.free_protein.can_stole() {
        bot.protein.stole(&mut resources.free_protein);
        bot.color = bot.color.interpolate(&Tint::Gray.color(), ACTION_TINT);
        bot.timer = bot.timer.saturating_sub(FEED_PRICE);
        bot.eip = comand.goto_success;
        true
    } else {
        bot.eip = comand.goto_fail;
        false
    }
}

/// What an attack makes of the attacker, its victim and the pool: from a
/// victim that holds protein one unit goes to the attacker and one unit of
/// oxygen turns into carbon; from one that holds none nothing is taken, and
/// only the attacker's program moves on.
pub open spec fn attacked(bot: Bot, victim: Bot, pool: Resources, comand: Comand) -> (
    Bot,
    Bot,
    Resources,
    bool,
) {
    if victim.protein > 0 {
        (
            Bot { protein: (bot.protein + 1) as u32, ..rewarded(bot, Tint::Red, comand.goto_success) },
            Bot { protein: (victim.protein - 1) as u32, ..victim },
            Resources {
                oxygen: (pool.oxygen - 1) as u32,
                carbon: (pool.carbon + 1) as u32,
                ..pool
            },
            true,
        )
    } else {
        (Bot { eip: comand.goto_fail, ..bot }, victim, pool, false)
    }
}

/// Runs an attack on a victim that has been chosen. Returns whether the
/// attack succeeded.
pub fn attack(bot: &mut Bot, victim: &mut Bot, resources: &mut Resources, comand: &Comand) -> (done:
    bool)
    requires
        old(resources).oxygen > 0,
        old(bot).protein + old(victim).protein <= u32::MAX,
        old(resources).gas() <= u32::MAX,
    ensures
        (*final(bot), *final(victim), *final(resources), done) == attacked(
            *old(bot),
            *old(victim),
            *old(resources),
            *comand,
        ),
{
    if victim.protein.can_stole() {
        bot.protein.stole(&mut victim.protein);
        resources.carbon.stole(&mut resources.oxygen);
        bot.color = bot.color.interpolate(&Tint::Red.color(), ACTION_TINT);
        bot.eip = comand.goto_success;
        true
    } else {
        bot.eip = comand.goto_fail;
        false
    }
}

/// The child that buds from `parent` out of `copy`, a copy of the parent
/// that may have been mutated: it takes half of the copy's protein, rounded
/// down, lives for `live` ticks and starts its program at the beginning.
pub open spec fn bud(copy: Bot, live: u32) -> Bot {
    Bot { protein: copy.protein / 2, timer: live, eip: ProgramPos(0), ..copy }
}

/// Splits a child off `parent`. The child is made of `copy`; what it takes
/// of the protein the parent loses, so that the two together hold what the
/// parent held.
pub fn split_off(parent: &mut Bot, copy: Bot, live: u32) -> (child: Bot)
    requires
        copy.protein == old(parent).protein,
    ensures
        child == bud(copy, live),
        *final(parent) == (Bot {
            protein: (old(parent).protein - child.protein) as u32,
            ..*old(parent)
        }),
        old(parent).protein == final(parent).protein + child.protein,
{
    let mut child = copy;
    child.protein = child.protein / 2;
    child.timer = live;
    parent.protein -= child.protein;
    child.eip = ProgramPos(0);
    child
}

/// Places `bot` at `pos`. Where the cell is taken or the coordinate is not
/// legal, the bot is given up and all it holds goes to the free pool.
/// Returns whether the bot was placed.
pub fn place_or_forfeit<G: Grid<Bot>>(
    resources: &mut Resources,
    bots: &mut G,
    pos: &Vec2i,
    bot: Bot,
) -> (placed_it: bool)
    requires
        old(bots).wf(),
        old(resources).free_protein + bot.protein <= u32::MAX,
    ensures
        final(bots).wf(),
        final(bots).space() == old(bots).space(),
        final(bots).cells() == placed(old(bots).space(), old(bots).cells(), *pos, bot),
        placed_it == can_place(old(bots).space(), old(bots).cells(), *pos),
        *final(resources) == (Resources {
            free_protein: if placed_it {
                old(resources).free_protein
            } else {
                (old(resources).free_protein + bot.protein) as u32
            },
            ..*old(resources)
        }),
        final(resources).free_protein + stored_protein(final(bots).cells()) == old(
            resources,
        ).free_protein + stored_protein(old(bots).cells()) + bot.protein,
{
    proof {
        bots.lemma_wf();
        if can_place(bots.space(), bots.cells(), *pos) {
            lemma_stored_insert(bots.cells(), bots.space().canonical(*pos), bot);
        }
    }
    match bots.set(pos, bot) {
        Some(mut back) => {
            resources.free_protein.stole_full(&mut back.protein);
            false
        },
        None => true,
    }
}

/// Whether `child` can be the bot that buds from `parent`: made of the
/// parent or of one mutation of it, with half of the parent's protein, a
/// full life before it and its program at the beginning.
pub open spec fn buds_from(child: Bot, parent: Bot, live: u32) -> bool {
    &&& child.protein == parent.protein / 2
    &&& child.timer == live
    &&& child.eip == ProgramPos(0)
    &&& child.alive == parent.alive
    &&& (child.color == parent.color && child.program == parent.program) || (
    child.color.mutation_of(&parent.color) && child.program.mutation_of(&parent.program))
}

/// The parent once `child` has budded from it: it has lost what the child
/// took.
pub open spec fn parent_of(parent: Bot, child: Bot) -> Bot {
    Bot { protein: (parent.protein - child.protein) as u32, ..parent }
}

/// Lets `bot` multiply into one of the free cells `void_around`, chosen at
/// random: a copy of the bot, mutated one time in three, buds off as its
/// child. Returns the child and its cell, or nothing where no cell is free.
pub fn multiply(constants: &Constants, rng: &mut Pcg32, bot: &mut Bot, void_around: &Vec<Vec2i>) -> (r:
    Option<(Vec2i, Bot)>)
    requires
        old(bot).sound(),
    ensures
        match r {
            None => void_around@.len() == 0 && *final(bot) == *old(bot),
            Some((pos, child)) => {
                &&& void_around@.contains(pos)
                &&& child.sound()
                &&& buds_from(child, *old(bot), constants.live)
                &&& *final(bot) == parent_of(*old(bot), child)
            },
        },
{
    match choose_cell(rng, void_around) {
        None => None,
        Some(new_pos) => {
            let mut copy = *bot;
            if gen_range_i32(rng, 0, 3) == 0 {
                copy.mutate(rng);
            }
            let child = split_off(bot, copy, constants.live);
            Some((new_pos, child))
        },
    }
}

} // verus!
