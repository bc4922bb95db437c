//! The world: a grid of bots, the shared resource pool and the settings of a
//! simulation.

use rand_pcg::Pcg32;
use vstd::prelude::*;
use crate::actions::place_or_forfeit;
use crate::creature::Bot;
use crate::creature::Creature;
use crate::creature::ProgramPos;
use crate::grid::Grid;
use crate::grid::can_place;
use crate::grid::placed;
use crate::ledger::stored_protein;
use crate::random::gen_i32;
use crate::resources::Resources;
use crate::space::FieldTopology;
use crate::space::Space;
use crate::space::Vec2i;

verus! {

/// Which container holds the bots.
#[derive(Clone, Copy, Debug, PartialEq, Eq, Structural)]
pub enum FieldContainer {
    /// The sparse grid.
    HashMap,
    /// The dense grid.
    Vec,
}

/// The settings of a simulation.
#[derive(Clone, Copy, Debug)]
pub struct Constants {
    /// Width of the world.
    pub width: i32,
    /// Height of the world.
    pub height: i32,
    /// How many bots are seeded.
    pub bots: usize,
    /// Free protein at the start.
    pub protein: u32,
    /// Oxygen at the start.
    pub oxygen: u32,
    /// Carbon at the start.
    pub carbon: u32,
    /// For how many ticks a dead bot lingers.
    pub die: u32,
    /// For how many ticks a bot can live.
    pub live: u32,
    /// The most instructions a bot runs in one tick.
    pub comand: usize,
    /// The protein a bot needs to multiply.
    pub multiply: u32,
    /// Seed of the random generator.
    pub seed: u64,
    pub topology: FieldTopology,
    pub container: FieldContainer,
}

impl Constants {
    /// The world's size as a coordinate pair.
    pub fn size(&self) -> (r: Vec2i)
        ensures
            r == (Vec2i { x: self.width, y: self.height }),
    {
        Vec2i::new(self.width, self.height)
    }
}

/// Why a set of constants cannot be run.
#[derive(Clone, Copy, Debug, PartialEq, Eq, Structural)]
pub enum ConstantsError {
    /// The world has no cells: width or height is not positive.
    EmptyWorld,
    /// The dense grid cannot hold the unbounded plane.
    InfiniteInVec,
    /// The dense grid cannot be allocated: it would have more slots than
    /// can be addressed.
    TooLarge,
    /// Oxygen and carbon together do not fit their counter. Each turns into
    /// the other, so either may come to hold the sum.
    TooMuchGas,
}

/// The message that tells a user of a fault.
pub open spec fn message_of(fault: ConstantsError) -> Seq<char> {
    match fault {
        ConstantsError::EmptyWorld => "Width and height of the world must be positive"@,
        ConstantsError::InfiniteInVec =>
            "Cant use infinite topology space with Vec, use HashMap instead"@,
        ConstantsError::TooLarge => "The world is too large for Vec, use HashMap instead"@,
        ConstantsError::TooMuchGas => "Oxygen and carbon together must be below 4294967296"@,
    }
}

impl ConstantsError {
    /// The message shown to the user.
    pub fn message(&self) -> (r: &'static str)
        ensures
            r@ == message_of(*self),
    {
        match self {
            ConstantsError::EmptyWorld => "Width and height of the world must be positive",
            ConstantsError::InfiniteInVec =>
                "Cant use infinite topology space with Vec, use HashMap instead",
            ConstantsError::TooLarge => "The world is too large for Vec, use HashMap instead",
            ConstantsError::TooMuchGas => "Oxygen and carbon together must be below 4294967296",
        }
    }
}

/// What is wrong with `constants`, if anything. The first fault in the order
/// of [`ConstantsError`] is the one reported.
pub open spec fn fault(constants: Constants) -> Option<ConstantsError> {
    if constants.width <= 0 || constants.height <= 0 {
        Some(ConstantsError::EmptyWorld)
    } else if constants.container == FieldContainer::Vec && constants.topology
        == FieldTopology::Infinite {
        Some(ConstantsError::InfiniteInVec)
    } else if constants.container == FieldContainer::Vec && constants.width * constants.height
        > usize::MAX {
        Some(ConstantsError::TooLarge)
    } else if constants.oxygen + constants.carbon > u32::MAX {
        Some(ConstantsError::TooMuchGas)
    } else {
        None
    }
}

/// Constants without a fault meet what building and seeding a world ask of
/// them.
pub proof fn lemma_checked_constants_fit(constants: Constants)
    requires
        fault(constants) is None,
    ensures
        constants.width > 0,
        constants.height > 0,
        constants.oxygen + constants.carbon <= u32::MAX,
        constants.container == FieldContainer::Vec ==> constants.topology
            != FieldTopology::Infinite && constants.width * constants.height <= usize::MAX,
{
}

/// Checks that a world can be built from `constants`.
pub fn check_constants(constants: &Constants) -> (r: Result<(), ConstantsError>)
    ensures
        r == match fault(*constants) {
            Some(e) => Err::<(), ConstantsError>(e),
            None => Ok::<(), ConstantsError>(()),
        },
{
    if constants.width <= 0 || constants.height <= 0 {
        return Err(ConstantsError::EmptyWorld);
    }
    match constants.container {
        FieldContainer::HashMap => {},
        FieldContainer::Vec => {
            match constants.topology {
                FieldTopology::Infinite => {
                    return Err(ConstantsError::InfiniteInVec);
                },
                _ => {
                    let width: u64 = constants.width as u64;
                    let height: u64 = constants.height as u64;
                    assert(width * height <= 0x7fff_ffff * 0x7fff_ffff) by (nonlinear_arith)
                        requires
                            0 <= width <= 0x7fff_ffff,
                            0 <= height <= 0x7fff_ffff,
                    ;
                    let area: u64 = width * height;
                    if area > usize::MAX as u64 {
                        return Err(ConstantsError::TooLarge);
                    }
                },
            }
        },
    }
    if constants.oxygen as u64 + constants.carbon as u64 > u32::MAX as u64 {
        return Err(ConstantsError::TooMuchGas);
    }
    Ok(())
}

/// A grid of bots with the pool they share.
pub struct World<G> {
    /// The extent within which bots are seeded, whatever the grid's space.
    pub size: Vec2i,
    pub resources: Resources,
    pub bots: G,
}

/// Whether every bot in `cells` can be run.
pub open spec fn all_sound(cells: Map<Vec2i, Bot>) -> bool {
    forall|p: Vec2i| #[trigger] cells.contains_key(p) ==> cells[p].sound()
}

impl<G: Grid<Bot>> World<G> {
    /// All protein of the world: what lies free and what the bots hold.
    pub open spec fn protein(&self) -> int {
        self.resources.free_protein + stored_protein(self.bots.cells())
    }

    /// The world's invariant: a well-formed grid of runnable bots, a
    /// positive seeding extent, and totals that fit their counters.
    pub open spec fn wf(&self) -> bool {
        &&& self.bots.wf()
        &&& all_sound(self.bots.cells())
        &&& self.size.x > 0
        &&& self.size.y > 0
        &&& self.protein() <= u32::MAX
        &&& self.resources.gas() <= u32::MAX
    }
}

/// The distance of `v` from zero, folded into `[0, extent)`.
pub open spec fn folded(v: i32, extent: i32) -> i32 {
    ((if v < 0 {
        -v
    } else {
        v as int
    }) % (extent as int)) as i32
}

/// Brings any coordinate pair into the rectangle `[0, size.x) x [0, size.y)`.
pub fn normalize_coords(pos: Vec2i, size: &Vec2i) -> (r: Vec2i)
    requires
        size.x > 0,
        size.y > 0,
    ensures
        r == (Vec2i { x: folded(pos.x, size.x), y: folded(pos.y, size.y) }),
        0 <= r.x < size.x,
        0 <= r.y < size.y,
{
    let x: i64 = if pos.x < 0 {
        -(pos.x as i64)
    } else {
        pos.x as i64
    };
    let y: i64 = if pos.y < 0 {
        -(pos.y as i64)
    } else {
        pos.y as i64
    };
    Vec2i { x: (x % size.x as i64) as i32, y: (y % size.y as i64) as i32 }
}

/// Whether `bot` is a bot as seeding makes them: runnable, alive, with a
/// full life before it, no protein, and its program at the beginning.
pub open spec fn fresh(bot: Bot, live: u32) -> bool {
    &&& bot.sound()
    &&& bot.alive
    &&& bot.timer == live
    &&& bot.protein == 0
    &&& bot.eip == ProgramPos(0)
}

/// Whether `after` is what one attempt to seed a bot can make of `before`:
/// a fresh bot is placed at some coordinate within `size`, or given up
/// where it cannot be placed there.
pub open spec fn seeds(
    size: Vec2i,
    space: Space,
    live: u32,
    before: Map<Vec2i, Bot>,
    after: Map<Vec2i, Bot>,
) -> bool {
    exists|pos: Vec2i, bot: Bot|
        {
            &&& 0 <= pos.x < size.x
            &&& 0 <= pos.y < size.y
            &&& fresh(bot, live)
            &&& after == #[trigger] placed(space, before, pos, bot)
        }
}

/// Whether `steps` is a run of seeding: each content follows from the one
/// before it by one attempt to seed a bot.
pub open spec fn seeding_runs(
    size: Vec2i,
    space: Space,
    live: u32,
    steps: Seq<Map<Vec2i, Bot>>,
) -> bool {
    forall|i: int|
        0 <= i < steps.len() - 1 ==> seeds(size, space, live, #[trigger] steps[i], steps[i + 1])
}

/// Makes a random bot and places it at a random cell within the world's
/// size. Where that cell is taken the bot is given up. Returns whether the
/// bot was placed.
pub fn insert_random_bot<G: Grid<Bot>>(
    constants: &Constants,
    rng: &mut Pcg32,
    world: &mut World<G>,
) -> (inserted: bool)
    requires
        old(world).wf(),
    ensures
        final(world).wf(),
        final(world).size == old(world).size,
        final(world).resources == old(world).resources,
        final(world).bots.space() == old(world).bots.space(),
        final(world).protein() == old(world).protein(),
        seeds(
            old(world).size,
            old(world).bots.space(),
            constants.live,
            old(world).bots.cells(),
            final(world).bots.cells(),
        ),
        inserted == (final(world).bots.cells().dom().len() == old(world).bots.cells().dom().len()
            + 1),
        !inserted ==> final(world).bots.cells() == old(world).bots.cells(),
{
    let mut bot = Bot::make_random(rng);
    let x = gen_i32(rng);
    let y = gen_i32(rng);
    bot.timer = constants.live;
    bot.protein = 0;
    let bot_pos = normalize_coords(Vec2i { x, y }, &world.size);
    let ghost space = world.bots.space();
    let ghost before = world.bots.cells();
    proof {
        world.bots.lemma_wf();
    }
    let inserted = place_or_forfeit(
        &mut world.resources,
        &mut world.bots,
        &bot_pos,
        bot,
    );
    proof {
        assert(inserted == can_place(space, before, bot_pos));
        assert(world.bots.cells() == placed(space, before, bot_pos, bot));
    }
    inserted
}

/// Builds a world around the grid `g` and seeds it with `constants.bots`
/// random bots. The bots that `g` already holds stay as they are.
pub fn init_world<G: Grid<Bot>>(constants: &Constants, rng: &mut Pcg32, g: G) -> (world: World<G>)
    requires
        g.wf(),
        all_sound(g.cells()),
        constants.width > 0,
        constants.height > 0,
        constants.protein + stored_protein(g.cells()) <= u32::MAX,
        constants.oxygen + constants.carbon <= u32::MAX,
    ensures
        world.wf(),
        world.size == (Vec2i { x: constants.width, y: constants.height }),
        world.resources == (Resources {
            free_protein: constants.protein,
            oxygen: constants.oxygen,
            carbon: constants.carbon,
        }),
        world.bots.space() == g.space(),
        stored_protein(world.bots.cells()) == stored_protein(g.cells()),
        world.bots.cells().dom().len() <= g.cells().dom().len() + constants.bots,
        forall|p: Vec2i| #[trigger]
            g.cells().contains_key(p) ==> world.bots.cells().contains_key(p)
                && world.bots.cells()[p] == g.cells()[p],
        forall|p: Vec2i| #[trigger]
            world.bots.cells().contains_key(p) && !g.cells().contains_key(p) ==> fresh(
                world.bots.cells()[p],
                constants.live,
            ),
        exists|steps: Seq<Map<Vec2i, Bot>>|
            {
                &&& steps.len() == constants.bots + 1
                &&& steps.first() == g.cells()
                &&& steps.last() == world.bots.cells()
                &&& #[trigger] seeding_runs(world.size, g.space(), constants.live, steps)
            },
{
    let ghost before = g.cells();
    let ghost mut steps: Seq<Map<Vec2i, Bot>> = seq![before];
    let mut world = World {
        size: constants.size(),
        resources: Resources {
            free_protein: constants.protein,
            oxygen: constants.oxygen,
            carbon: constants.carbon,
        },
        bots: g,
    };
    proof {
        world.bots.lemma_wf();
    }
    let mut i: usize = 0;
    while i < constants.bots
        invariant
            i <= constants.bots,
            world.wf(),
            world.size == (Vec2i { x: constants.width, y: constants.height }),
            world.resources == (Resources {
                free_protein: constants.protein,
                oxygen: constants.oxygen,
                carbon: constants.carbon,
            }),
            world.bots.space() == g.space(),
            stored_protein(world.bots.cells()) == stored_protein(before),
            before.dom().finite(),
            world.bots.cells().dom().len() <= before.dom().len() + i,
            forall|p: Vec2i| #[trigger]
                before.contains_key(p) ==> world.bots.cells().contains_key(p)
                    && world.bots.cells()[p] == before[p],
            forall|p: Vec2i| #[trigger]
                world.bots.cells().contains_key(p) && !before.contains_key(p) ==> fresh(
                    world.bots.cells()[p],
                    constants.live,
                ),
            steps.len() == i + 1,
            steps[0] == before,
            steps[i as int] == world.bots.cells(),
            seeding_runs(world.size, g.space(), constants.live, steps),
        decreases constants.bots - i,
    {
        proof {
            world.bots.lemma_wf();
        }
        let _ = insert_random_bot(constants, rng, &mut world);
        proof {
            steps = steps.push(world.bots.cells());
        }
        i += 1;
    }
    world
}

/// One step of the generator that stretches a seed: three shifts, each
/// folded back in.
pub open spec fn stirred(seed: u64) -> u64 {
    let a = seed ^ (seed << 13);
    let b = a ^ (a >> 17);
    b ^ (b << 5)
}

/// The seed after `steps` steps of stirring.
pub open spec fn stirred_times(seed: u64, steps: nat) -> u64
    decreases steps,
{
    if steps == 0 {
        seed
    } else {
        stirred(stirred_times(seed, (steps - 1) as nat))
    }
}

/// Stretches a 64-bit seed to the sixteen bytes that seed the generator:
/// byte `i` is the low byte of the seed after `i + 1` steps of stirring.
pub fn gen_seed(seed: u64) -> (r: [u8; 16])
    ensures
        forall|i: int| 0 <= i < 16 ==> #[trigger] r@[i] == stirred_times(seed, (i + 1) as nat) % 256,
{
    let mut result = [0u8; 16];
    let mut state = seed;
    let mut i: usize = 0;
    while i < 16
        invariant
            i <= 16,
            state == stirred_times(seed, i as nat),
            forall|k: int| 0 <= k < i ==> #[trigger] result@[k] == stirred_times(seed, (k + 1) as nat) % 256,
        decreases 16 - i,
    {
        state ^= state << 13;
        state ^= state >> 17;
        state ^= state << 5;
        result[i] = (state % 256) as u8;
        i += 1;
    }
    result
}

} // verus!
