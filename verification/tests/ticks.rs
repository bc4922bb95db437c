use crabots::actions::multiply;
use crabots::actions::place_or_forfeit;
use crabots::creature::Bot;
use crabots::creature::Color;
use crabots::creature::Comand;
use crabots::creature::Comands;
use crabots::creature::PROGRAM_SIZE;
use crabots::creature::ProgramPos;
use crabots::grid::Grid;
use crabots::grid::MyIter;
use crabots::hash_map_grid::HashMapGrid;
use crabots::resources::Resources;
use crabots::space::FieldTopology;
use crabots::space::InfiniteSpace;
use crabots::space::RectSpace;
use crabots::space::TorusSpace;
use crabots::space::Vec2i;
use crabots::tick::process;
use crabots::tick::process_cell;
use crabots::tick::process_world;
use crabots::tick::snapshot;
use crabots::vec_grid::VecGrid;
use crabots::world::Constants;
use crabots::world::ConstantsError;
use crabots::world::FieldContainer;
use crabots::world::World;
use crabots::world::check_constants;
use crabots::world::gen_seed;
use crabots::world::init_world;
use crabots::world::insert_random_bot;
use crabots::world::normalize_coords;
use rand::SeedableRng;
use rand_pcg::Pcg32;
fn constants() -> Constants {
    Constants {
        width: 10,
        height: 10,
        bots: 20,
        protein: 300,
        oxygen: 100,
        carbon: 100,
        die: 320,
        live: 160,
        comand: 2,
        multiply: 4,
        seed: 92,
        topology: FieldTopology::Rect,
        container: FieldContainer::Vec,
    }
}

fn instruction(comand: Comands, goto_success: usize, goto_fail: usize) -> Comand {
    Comand { comand, goto_success: ProgramPos(goto_success), goto_fail: ProgramPos(goto_fail) }
}

fn bot_with(comand: Comand, protein: u32, timer: u32) -> Bot {
    Bot {
        color: Color { r: 200, g: 100, b: 50, a: 255 },
        timer,
        protein,
        alive: true,
        program: [comand; PROGRAM_SIZE],
        eip: ProgramPos(0),
    }
}

fn empty_world<G: Grid<Bot>>(bots: G, free_protein: u32) -> World<G> {
    World {
        size: Vec2i::new(10, 10),
        resources: Resources { free_protein, oxygen: 100, carbon: 100 },
        bots,
    }
}

fn population<G: Grid<Bot>>(bots: &G) -> Vec<(Vec2i, Bot)> {
    let mut all: Vec<(Vec2i, Bot)> = bots.iter().into_iter().map(|(p, b)| (p, *b)).collect();
    all.sort_by_key(|(p, _)| *p);
    all
}

fn all_protein<G: Grid<Bot>>(world: &World<G>) -> u64 {
    let stored: u64 = world.bots.iter().into_iter().map(|(_, b)| b.protein as u64).sum();
    stored + world.resources.free_protein as u64
}

fn gas<G: Grid<Bot>>(world: &World<G>) -> u64 {
    world.resources.oxygen as u64 + world.resources.carbon as u64
}

#[test]
fn a_bot_multiplies_into_a_cell_around_it() {
    let c = constants();
    let mut rng = Pcg32::from_seed(gen_seed(c.seed));
    let mut world = empty_world(VecGrid::<Bot, RectSpace>::new(&c.size()), 0);
    let parent = bot_with(instruction(Comands::Multiply, 0, 0), 4, 100);
    assert_eq!(world.bots.set(&Vec2i::new(5, 5), parent), None);
    process_world(&c, &mut rng, &mut world);
    assert_eq!(world.bots.len(), 2);
    let parent_now = *world.bots.get(&Vec2i::new(5, 5)).unwrap();
    assert_eq!(parent_now.protein, 2);
    assert_eq!(parent_now.timer, 99);
    assert_eq!(parent_now.eip, ProgramPos(0));
    let others: Vec<(Vec2i, Bot)> =
        population(&world.bots).into_iter().filter(|(p, _)| *p != Vec2i::new(5, 5)).collect();
    assert_eq!(others.len(), 1);
    let (at, child) = others[0];
    assert!((at.x - 5).abs() <= 1 && (at.y - 5).abs() <= 1);
    assert_eq!(child.protein, 2);
    assert_eq!(child.timer, c.live);
    assert_eq!(child.eip, ProgramPos(0));
    assert!(child.alive);
    assert_eq!(world.resources.free_protein, 0);
}

#[test]
fn multiplying_keeps_the_protein_of_parent_and_child_together() {
    let c = constants();
    let mut rng = Pcg32::from_seed(gen_seed(5));
    let around = vec![Vec2i::new(1, 0), Vec2i::new(0, 1), Vec2i::new(1, 1)];
    let mut mutated = 0;
    for held in 0..300u32 {
        let mut parent = bot_with(instruction(Comands::Multiply, 1, 2), held, 9);
        let before = parent;
        let (at, child) = multiply(&c, &mut rng, &mut parent, &around).unwrap();
        assert!(around.contains(&at));
        assert_eq!(parent.protein + child.protein, held);
        assert_eq!(child.protein, held / 2);
        assert_eq!(child.timer, c.live);
        assert_eq!(child.eip, ProgramPos(0));
        assert_eq!(parent, Bot { protein: held - held / 2, ..before });
        if child.color != before.color || child.program != before.program {
            mutated += 1;
        }
    }
    assert!(mutated > 50 && mutated < 150);
}

#[test]
fn nothing_multiplies_without_a_free_cell() {
    let c = constants();
    let mut rng = Pcg32::from_seed(gen_seed(5));
    let mut parent = bot_with(instruction(Comands::Multiply, 1, 2), 8, 9);
    let before = parent;
    assert!(multiply(&c, &mut rng, &mut parent, &Vec::new()).is_none());
    assert_eq!(parent, before);
}

#[test]
fn photosynthesis_fails_in_a_world_without_free_protein() {
    let mut c = constants();
    c.comand = 1;
    let mut rng = Pcg32::from_seed(gen_seed(c.seed));
    let mut world = empty_world(HashMapGrid::<Bot, RectSpace>::new(&c.size()), 0);
    let bot = bot_with(instruction(Comands::Photosynthesis, 2, 3), 1, 100);
    world.bots.set(&Vec2i::new(5, 5), bot);
    process_world(&c, &mut rng, &mut world);
    assert_eq!(world.resources, Resources { free_protein: 0, oxygen: 100, carbon: 100 });
    let after = *world.bots.get(&Vec2i::new(5, 5)).unwrap();
    assert_eq!(after, Bot { eip: ProgramPos(3), timer: 99, ..bot });
}

#[test]
fn the_second_bot_into_a_cell_forfeits_its_protein() {
    let mut resources = Resources { free_protein: 10, oxygen: 1, carbon: 1 };
    let mut bots: VecGrid<Bot, RectSpace> = VecGrid::new(&Vec2i::new(3, 3));
    let first = bot_with(instruction(Comands::Move, 0, 0), 5, 100);
    let second = bot_with(instruction(Comands::Move, 1, 1), 7, 100);
    assert!(place_or_forfeit(&mut resources, &mut bots, &Vec2i::new(1, 1), first));
    assert!(!place_or_forfeit(&mut resources, &mut bots, &Vec2i::new(1, 1), second));
    assert_eq!(bots.len(), 1);
    assert_eq!(*bots.get(&Vec2i::new(1, 1)).unwrap(), first);
    assert_eq!(resources, Resources { free_protein: 17, oxygen: 1, carbon: 1 });
}

#[test]
fn a_bot_placed_outside_the_space_forfeits_its_protein() {
    let mut resources = Resources { free_protein: 10, oxygen: 1, carbon: 1 };
    let mut bots: HashMapGrid<Bot, RectSpace> = HashMapGrid::new(&Vec2i::new(3, 3));
    let lost = bot_with(instruction(Comands::Move, 0, 0), 5, 100);
    assert!(!place_or_forfeit(&mut resources, &mut bots, &Vec2i::new(3, 1), lost));
    assert_eq!(bots.len(), 0);
    assert_eq!(resources.free_protein, 15);
}

#[test]
fn a_parent_whose_child_took_its_cell_is_given_up() {
    let mut c = constants();
    c.width = 1;
    c.height = 1;
    let mut rng = Pcg32::from_seed(gen_seed(c.seed));
    let mut world = empty_world(HashMapGrid::<Bot, TorusSpace>::new(&c.size()), 3);
    let parent = bot_with(instruction(Comands::Multiply, 0, 0), 5, 100);
    world.bots.set(&Vec2i::new(0, 0), parent);
    process_world(&c, &mut rng, &mut world);
    assert_eq!(world.bots.len(), 1);
    let child = *world.bots.get(&Vec2i::new(0, 0)).unwrap();
    assert_eq!(child.protein, 2);
    assert_eq!(child.timer, c.live);
    assert_eq!(world.resources.free_protein, 6);
}

#[test]
fn a_dying_bot_lingers_for_die_ticks_and_is_then_removed() {
    let mut c = constants();
    c.die = 3;
    c.comand = 0;
    let mut rng = Pcg32::from_seed(gen_seed(c.seed));
    let mut world = empty_world(VecGrid::<Bot, RectSpace>::new(&c.size()), 0);
    let at = Vec2i::new(2, 7);
    world.bots.set(&at, bot_with(instruction(Comands::Move, 0, 0), 5, 1));
    process_world(&c, &mut rng, &mut world);
    let dead = *world.bots.get(&at).unwrap();
    assert!(!dead.alive);
    assert_eq!(dead.timer, 3);
    assert_eq!(dead.protein, 4);
    assert_eq!(world.resources.free_protein, 1);
    process_world(&c, &mut rng, &mut world);
    assert_eq!(world.bots.get(&at).unwrap().timer, 2);
    assert_eq!(world.bots.get(&at).unwrap().protein, 3);
    process_world(&c, &mut rng, &mut world);
    assert_eq!(world.bots.get(&at).unwrap().timer, 1);
    assert!(!world.bots.get(&at).unwrap().alive);
    assert_eq!(world.bots.len(), 1);
    process_world(&c, &mut rng, &mut world);
    assert_eq!(world.bots.len(), 0);
    assert!(!world.bots.has(&at));
    assert_eq!(world.resources.free_protein, 5);
}

#[test]
fn a_bot_that_dies_with_no_time_to_linger_is_removed_at_once() {
    let mut c = constants();
    c.die = 0;
    let mut rng = Pcg32::from_seed(gen_seed(c.seed));
    let mut world = empty_world(HashMapGrid::<Bot, RectSpace>::new(&c.size()), 0);
    world.bots.set(&Vec2i::new(2, 7), bot_with(instruction(Comands::Move, 0, 0), 5, 1));
    process_world(&c, &mut rng, &mut world);
    assert_eq!(world.bots.len(), 0);
    assert_eq!(world.resources.free_protein, 5);
}

#[test]
fn a_bot_moves_to_a_free_cell_around_it() {
    let mut c = constants();
    c.comand = 1;
    let mut rng = Pcg32::from_seed(gen_seed(c.seed));
    let mut world = empty_world(VecGrid::<Bot, RectSpace>::new(&c.size()), 0);
    let bot = bot_with(instruction(Comands::Move, 4, 3), 1, 100);
    world.bots.set(&Vec2i::new(0, 0), bot);
    world.bots.set(&Vec2i::new(0, 1), bot_with(instruction(Comands::Food, 0, 0), 0, 100));
    world.bots.set(&Vec2i::new(1, 1), bot_with(instruction(Comands::Food, 0, 0), 0, 100));
    let result = process(&c, &mut rng, &mut world.resources, &mut world.bots, Vec2i::new(0, 0));
    let (to, moved) = result.unwrap();
    assert_eq!(to, Vec2i::new(1, 0));
    assert_eq!(moved.eip, ProgramPos(4));
    assert_eq!(moved.timer, 99);
    assert_eq!(moved.color, Color { r: 201, g: 104, b: 56, a: 255 });
    assert!(!world.bots.has(&Vec2i::new(0, 0)));
    assert_eq!(world.bots.len(), 2);
}

#[test]
fn a_walled_in_bot_stays_and_takes_the_failure_branch() {
    let mut c = constants();
    c.comand = 1;
    let mut rng = Pcg32::from_seed(gen_seed(c.seed));
    let mut world = empty_world(VecGrid::<Bot, RectSpace>::new(&c.size()), 0);
    let bot = bot_with(instruction(Comands::Move, 4, 3), 1, 100);
    world.bots.set(&Vec2i::new(0, 0), bot);
    for p in [Vec2i::new(0, 1), Vec2i::new(1, 1), Vec2i::new(1, 0)] {
        world.bots.set(&p, bot_with(instruction(Comands::Food, 0, 0), 0, 100));
    }
    process_cell(&c, &mut rng, &mut world.resources, &mut world.bots, Vec2i::new(0, 0));
    let after = *world.bots.get(&Vec2i::new(0, 0)).unwrap();
    assert_eq!(after, Bot { eip: ProgramPos(3), timer: 99, ..bot });
    assert_eq!(world.bots.len(), 4);
}

#[test]
fn an_attacker_feeds_on_a_living_bot_around_it() {
    let mut c = constants();
    c.comand = 1;
    let mut rng = Pcg32::from_seed(gen_seed(c.seed));
    let mut world = empty_world(HashMapGrid::<Bot, InfiniteSpace>::new_infinite(), 0);
    let attacker = bot_with(instruction(Comands::Attack, 2, 3), 0, 100);
    let victim = bot_with(instruction(Comands::Food, 0, 0), 6, 50);
    world.bots.set(&Vec2i::new(0, 0), attacker);
    world.bots.set(&Vec2i::new(-1, -1), victim);
    process_cell(&c, &mut rng, &mut world.resources, &mut world.bots, Vec2i::new(0, 0));
    assert_eq!(world.bots.get(&Vec2i::new(0, 0)).unwrap().protein, 1);
    assert_eq!(world.bots.get(&Vec2i::new(0, 0)).unwrap().eip, ProgramPos(2));
    assert_eq!(*world.bots.get(&Vec2i::new(-1, -1)).unwrap(), Bot { protein: 5, ..victim });
    assert_eq!(world.resources, Resources { free_protein: 0, oxygen: 99, carbon: 101 });
}

#[test]
fn an_attack_on_a_bot_without_protein_leaves_it_in_place() {
    let mut c = constants();
    c.comand = 1;
    let mut rng = Pcg32::from_seed(gen_seed(c.seed));
    let mut world = empty_world(HashMapGrid::<Bot, InfiniteSpace>::new_infinite(), 0);
    let attacker = bot_with(instruction(Comands::Attack, 2, 3), 0, 100);
    let victim = bot_with(instruction(Comands::Food, 0, 0), 0, 50);
    world.bots.set(&Vec2i::new(0, 0), attacker);
    world.bots.set(&Vec2i::new(1, 0), victim);
    process_cell(&c, &mut rng, &mut world.resources, &mut world.bots, Vec2i::new(0, 0));
    assert_eq!(
        *world.bots.get(&Vec2i::new(0, 0)).unwrap(),
        Bot { eip: ProgramPos(3), timer: 99, ..attacker }
    );
    assert_eq!(*world.bots.get(&Vec2i::new(1, 0)).unwrap(), victim);
    assert_eq!(world.resources, Resources { free_protein: 0, oxygen: 100, carbon: 100 });
    assert_eq!(world.bots.len(), 2);
}

#[test]
fn a_dead_bot_is_not_attacked() {
    let mut c = constants();
    c.comand = 1;
    let mut rng = Pcg32::from_seed(gen_seed(c.seed));
    let mut world = empty_world(HashMapGrid::<Bot, InfiniteSpace>::new_infinite(), 0);
    let attacker = bot_with(instruction(Comands::Attack, 2, 3), 0, 100);
    let mut corpse = bot_with(instruction(Comands::Food, 0, 0), 9, 50);
    corpse.alive = false;
    world.bots.set(&Vec2i::new(0, 0), attacker);
    world.bots.set(&Vec2i::new(1, 0), corpse);
    process_cell(&c, &mut rng, &mut world.resources, &mut world.bots, Vec2i::new(0, 0));
    assert_eq!(world.bots.get(&Vec2i::new(0, 0)).unwrap().eip, ProgramPos(3));
    assert_eq!(*world.bots.get(&Vec2i::new(1, 0)).unwrap(), corpse);
}

#[test]
fn a_bot_rich_in_protein_multiplies_whatever_its_program_says() {
    let c = constants();
    let mut rng = Pcg32::from_seed(gen_seed(c.seed));
    let mut world = empty_world(VecGrid::<Bot, TorusSpace>::new(&c.size()), 50);
    let rich = bot_with(instruction(Comands::Food, 1, 1), 40, 100);
    world.bots.set(&Vec2i::new(5, 5), rich);
    process_world(&c, &mut rng, &mut world);
    assert_eq!(world.bots.len(), 2);
    let parent = *world.bots.get(&Vec2i::new(5, 5)).unwrap();
    assert_eq!(parent.protein, 20);
    assert_eq!(parent.eip, ProgramPos(0));
    assert_eq!(parent.color, Color { r: 195, g: 98, b: 54, a: 255 });
    assert_eq!(world.resources.free_protein, 50);
}

#[test]
fn the_snapshot_is_ordered_by_x_then_y() {
    let mut bots: HashMapGrid<Bot, InfiniteSpace> = HashMapGrid::new_infinite();
    let bot = bot_with(instruction(Comands::Food, 1, 1), 0, 100);
    for p in [(3, -1), (-2, 5), (3, -7), (0, 0), (-2, -5), (100, 1), (-100, 1)] {
        bots.set(&Vec2i::new(p.0, p.1), bot);
    }
    assert_eq!(
        snapshot(&bots),
        vec![
            Vec2i::new(-100, 1),
            Vec2i::new(-2, -5),
            Vec2i::new(-2, 5),
            Vec2i::new(0, 0),
            Vec2i::new(3, -7),
            Vec2i::new(3, -1),
            Vec2i::new(100, 1)
        ]
    );
}

#[test]
fn coordinates_are_folded_into_the_world() {
    let size = Vec2i::new(5, 7);
    assert_eq!(normalize_coords(Vec2i::new(-7, 12), &size), Vec2i::new(2, 5));
    assert_eq!(normalize_coords(Vec2i::new(4, 6), &size), Vec2i::new(4, 6));
    assert_eq!(normalize_coords(Vec2i::new(5, 7), &size), Vec2i::new(0, 0));
    assert_eq!(normalize_coords(Vec2i::new(i32::MIN, i32::MAX), &size), Vec2i::new(3, 1));
}

#[test]
fn seeding_places_fresh_bots_and_keeps_the_pool() {
    let c = constants();
    let mut rng = Pcg32::from_seed(gen_seed(c.seed));
    let world = init_world(&c, &mut rng, VecGrid::<Bot, TorusSpace>::new(&c.size()));
    assert_eq!(world.size, Vec2i::new(10, 10));
    assert_eq!(world.resources, Resources { free_protein: 300, oxygen: 100, carbon: 100 });
    assert!(world.bots.len() > 10 && world.bots.len() <= 20);
    for (at, bot) in population(&world.bots) {
        assert!(0 <= at.x && at.x < 10 && 0 <= at.y && at.y < 10);
        assert!(bot.alive);
        assert_eq!(bot.timer, c.live);
        assert_eq!(bot.protein, 0);
        assert_eq!(bot.eip, ProgramPos(0));
    }
}

#[test]
fn inserting_into_a_full_world_gives_the_bot_up() {
    let mut c = constants();
    c.width = 1;
    c.height = 1;
    let mut rng = Pcg32::from_seed(gen_seed(c.seed));
    let mut world = World {
        size: c.size(),
        resources: Resources { free_protein: 9, oxygen: 1, carbon: 1 },
        bots: VecGrid::<Bot, RectSpace>::new(&c.size()),
    };
    assert!(insert_random_bot(&c, &mut rng, &mut world));
    assert!(!insert_random_bot(&c, &mut rng, &mut world));
    assert_eq!(world.bots.len(), 1);
    assert_eq!(world.resources.free_protein, 9);
}

#[test]
fn no_tick_makes_or_loses_protein_or_gas() {
    let mut c = constants();
    c.bots = 60;
    c.live = 30;
    c.die = 10;
    let mut rng = Pcg32::from_seed(gen_seed(c.seed));
    let mut world = init_world(&c, &mut rng, VecGrid::<Bot, TorusSpace>::new(&c.size()));
    let protein = all_protein(&world);
    let gases = gas(&world);
    assert_eq!(protein, 300);
    assert_eq!(gases, 200);
    let mut busy = false;
    for _ in 0..200 {
        process_world(&c, &mut rng, &mut world);
        assert_eq!(all_protein(&world), protein);
        assert_eq!(gas(&world), gases);
        busy = busy || world.resources.free_protein != 300;
    }
    assert!(busy);
}

#[test]
fn the_same_seed_gives_the_same_world() {
    let c = constants();
    let mut first_rng = Pcg32::from_seed(gen_seed(c.seed));
    let mut second_rng = Pcg32::from_seed(gen_seed(c.seed));
    let mut first = init_world(&c, &mut first_rng, VecGrid::<Bot, TorusSpace>::new(&c.size()));
    let mut second = init_world(&c, &mut second_rng, VecGrid::<Bot, TorusSpace>::new(&c.size()));
    for _ in 0..100 {
        process_world(&c, &mut first_rng, &mut first);
        process_world(&c, &mut second_rng, &mut second);
    }
    assert_eq!(population(&first.bots), population(&second.bots));
    assert_eq!(first.resources, second.resources);
    assert!(first.bots.len() > 0);
}

#[test]
fn another_seed_gives_another_world() {
    let c = constants();
    let mut first_rng = Pcg32::from_seed(gen_seed(92));
    let mut second_rng = Pcg32::from_seed(gen_seed(93));
    let first = init_world(&c, &mut first_rng, VecGrid::<Bot, TorusSpace>::new(&c.size()));
    let second = init_world(&c, &mut second_rng, VecGrid::<Bot, TorusSpace>::new(&c.size()));
    assert_ne!(population(&first.bots), population(&second.bots));
}

#[test]
fn both_backends_run_the_same_simulation() {
    let c = constants();
    let mut dense_rng = Pcg32::from_seed(gen_seed(c.seed));
    let mut sparse_rng = Pcg32::from_seed(gen_seed(c.seed));
    let mut dense = init_world(&c, &mut dense_rng, VecGrid::<Bot, TorusSpace>::new(&c.size()));
    let mut sparse =
        init_world(&c, &mut sparse_rng, HashMapGrid::<Bot, TorusSpace>::new(&c.size()));
    for _ in 0..100 {
        process_world(&c, &mut dense_rng, &mut dense);
        process_world(&c, &mut sparse_rng, &mut sparse);
        assert_eq!(dense.bots.len(), sparse.bots.len());
    }
    assert_eq!(population(&dense.bots), population(&sparse.bots));
    assert_eq!(dense.resources, sparse.resources);
}

#[test]
fn constants_are_checked_before_a_world_is_built() {
    let mut c = constants();
    assert_eq!(check_constants(&c), Ok(()));
    c.topology = FieldTopology::Infinite;
    assert_eq!(check_constants(&c), Err(ConstantsError::InfiniteInVec));
    assert_eq!(
        ConstantsError::InfiniteInVec.message(),
        "Cant use infinite topology space with Vec, use HashMap instead"
    );
    c.container = FieldContainer::HashMap;
    assert_eq!(check_constants(&c), Ok(()));
    c.width = 0;
    assert_eq!(check_constants(&c), Err(ConstantsError::EmptyWorld));
    c.width = 5;
    c.height = -1;
    assert_eq!(check_constants(&c), Err(ConstantsError::EmptyWorld));
    c.container = FieldContainer::Vec;
    c.topology = FieldTopology::Infinite;
    assert_eq!(check_constants(&c), Err(ConstantsError::EmptyWorld));
}

#[test]
fn every_fault_has_its_message() {
    assert_eq!(
        ConstantsError::EmptyWorld.message(),
        "Width and height of the world must be positive"
    );
    assert_eq!(
        ConstantsError::TooLarge.message(),
        "The world is too large for Vec, use HashMap instead"
    );
    assert_eq!(
        ConstantsError::TooMuchGas.message(),
        "Oxygen and carbon together must be below 4294967296"
    );
}

#[test]
fn a_world_of_the_largest_size_is_not_too_large_where_addresses_have_64_bits() {
    let mut c = constants();
    c.width = i32::MAX;
    c.height = i32::MAX;
    if usize::MAX as u128 >= (i32::MAX as u128) * (i32::MAX as u128) {
        assert_eq!(check_constants(&c), Ok(()));
    } else {
        assert_eq!(check_constants(&c), Err(ConstantsError::TooLarge));
    }
}

#[test]
fn seeding_attempts_as_many_bots_as_asked_for() {
    let mut c = constants();
    c.width = 2;
    c.height = 2;
    c.bots = 200;
    let mut rng = Pcg32::from_seed(gen_seed(c.seed));
    let world = init_world(&c, &mut rng, HashMapGrid::<Bot, RectSpace>::new(&c.size()));
    assert_eq!(world.bots.len(), 4);
    c.bots = 0;
    let empty = init_world(&c, &mut rng, HashMapGrid::<Bot, RectSpace>::new(&c.size()));
    assert_eq!(empty.bots.len(), 0);
    c.bots = 1;
    let one = init_world(&c, &mut rng, HashMapGrid::<Bot, RectSpace>::new(&c.size()));
    assert_eq!(one.bots.len(), 1);
}

#[test]
fn oxygen_and_carbon_must_fit_one_counter_together() {
    let mut c = constants();
    c.oxygen = u32::MAX;
    c.carbon = 0;
    assert_eq!(check_constants(&c), Ok(()));
    c.carbon = 1;
    assert_eq!(check_constants(&c), Err(ConstantsError::TooMuchGas));
    c.topology = FieldTopology::Infinite;
    assert_eq!(check_constants(&c), Err(ConstantsError::InfiniteInVec));
}
