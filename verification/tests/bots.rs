use crabots::actions::attack;
use crabots::actions::decay;
use crabots::actions::feed;
use crabots::actions::grow_old;
use crabots::actions::photosynthesize;
use crabots::actions::split_off;
use crabots::creature::Bot;
use crabots::creature::Color;
use crabots::creature::Comand;
use crabots::creature::Comands;
use crabots::creature::Creature;
use crabots::creature::PROGRAM_SIZE;
use crabots::creature::Program;
use crabots::creature::ProgramPos;
use crabots::creature::Tint;
use crabots::resources::Resources;
use crabots::resources::Stole;
use crabots::world::gen_seed;
use rand::SeedableRng;
use rand_pcg::Pcg32;
fn instruction(comand: Comands, goto_success: usize, goto_fail: usize) -> Comand {
    Comand { comand, goto_success: ProgramPos(goto_success), goto_fail: ProgramPos(goto_fail) }
}

fn bot_with(comand: Comand, protein: u32, timer: u32) -> Bot {
    Bot {
        color: Color { r: 200, g: 100, b: 50, a: 255 },
        timer,
        protein,
        alive: true,
        program: [comand; PROGRAM_SIZE],
        eip: ProgramPos(0),
    }
}

fn pool(free_protein: u32, oxygen: u32, carbon: u32) -> Resources {
    Resources { free_protein, oxygen, carbon }
}

#[test]
fn colours_blend_by_thousandths() {
    let from = Color { r: 200, g: 100, b: 10, a: 255 };
    let black = Tint::Black.color();
    assert_eq!(black, Color { r: 0, g: 0, b: 0, a: 255 });
    assert_eq!(from.interpolate(&black, 500), Color { r: 100, g: 50, b: 5, a: 255 });
    assert_eq!(from.interpolate(&black, 0), from);
    assert_eq!(from.interpolate(&black, 1000), black);
    let to = Color { r: 50, g: 200, b: 255, a: 255 };
    assert_eq!(
        Color { r: 100, g: 100, b: 255, a: 255 }.interpolate(&to, 30),
        Color { r: 98, g: 103, b: 255, a: 255 }
    );
    assert_eq!(Color { r: 10, g: 201, b: 0, a: 255 }.interpolate(&black, 5).r, 9);
}

#[test]
fn the_palette_is_fixed() {
    assert_eq!(Tint::Blue.color(), Color { r: 50, g: 50, b: 200, a: 255 });
    assert_eq!(Tint::Green.color(), Color { r: 50, g: 200, b: 50, a: 255 });
    assert_eq!(Tint::Red.color(), Color { r: 200, g: 50, b: 50, a: 255 });
    assert_eq!(Tint::Gray.color(), Color { r: 100, g: 100, b: 100, a: 255 });
    assert_eq!(Tint::White.color(), Color { r: 255, g: 255, b: 255, a: 255 });
}

#[test]
fn one_channel_scales_and_is_held_to_its_range() {
    let c = Color { r: 200, g: 100, b: 3, a: 255 };
    assert_eq!(c.scaled(0, 1499), Color { r: 255, g: 100, b: 3, a: 255 });
    assert_eq!(c.scaled(0, 500), Color { r: 100, g: 100, b: 3, a: 255 });
    assert_eq!(c.scaled(1, 1250), Color { r: 200, g: 125, b: 3, a: 255 });
    assert_eq!(c.scaled(2, 500), Color { r: 200, g: 100, b: 1, a: 255 });
}

#[test]
fn opcodes_count_from_multiply() {
    assert_eq!(Comands::from_index(0), Comands::Multiply);
    assert_eq!(Comands::from_index(1), Comands::Photosynthesis);
    assert_eq!(Comands::from_index(2), Comands::Attack);
    assert_eq!(Comands::from_index(3), Comands::Food);
    assert_eq!(Comands::from_index(4), Comands::Move);
}

#[test]
fn one_unit_is_stolen_at_a_time() {
    let mut mine: u32 = 3;
    let mut theirs: u32 = 2;
    assert!(theirs.can_stole());
    mine.stole(&mut theirs);
    assert_eq!((mine, theirs), (4, 1));
    mine.stole(&mut theirs);
    assert_eq!((mine, theirs), (5, 0));
    assert!(!theirs.can_stole());
}

#[test]
fn all_is_stolen_at_once() {
    let mut mine: u32 = 3;
    let mut theirs: u32 = 40;
    mine.stole_full(&mut theirs);
    assert_eq!((mine, theirs), (43, 0));
    mine.stole_full(&mut theirs);
    assert_eq!((mine, theirs), (43, 0));
}

#[test]
fn a_seed_is_stretched_to_sixteen_bytes() {
    assert_eq!(
        gen_seed(92),
        [121, 19, 178, 48, 210, 193, 28, 212, 3, 226, 53, 128, 152, 124, 88, 120]
    );
    assert_eq!(
        gen_seed(1),
        [33, 1, 197, 99, 27, 99, 62, 108, 63, 243, 207, 213, 85, 12, 224, 183]
    );
    assert_eq!(gen_seed(0), [0; 16]);
}

#[test]
fn random_bots_can_be_run() {
    let mut rng = Pcg32::from_seed(gen_seed(92));
    let mut opcodes_seen = [false; 5];
    let mut targets_seen = [false; PROGRAM_SIZE];
    let mut reds = std::collections::HashSet::new();
    for _ in 0..200 {
        let bot = Bot::make_random(&mut rng);
        assert!(bot.alive);
        assert_eq!(bot.timer, 0);
        assert_eq!(bot.protein, 0);
        assert_eq!(bot.eip, ProgramPos(0));
        assert_eq!(bot.color.a, 255);
        reds.insert(bot.color.r);
        for comand in bot.program.iter() {
            assert!(comand.goto_success.0 < PROGRAM_SIZE);
            assert!(comand.goto_fail.0 < PROGRAM_SIZE);
            targets_seen[comand.goto_success.0] = true;
            opcodes_seen[match comand.comand {
                Comands::Multiply => 0,
                Comands::Photosynthesis => 1,
                Comands::Attack => 2,
                Comands::Food => 3,
                Comands::Move => 4,
            }] = true;
        }
    }
    assert_eq!(opcodes_seen, [true; 5]);
    assert_eq!(targets_seen, [true; PROGRAM_SIZE]);
    assert!(reds.len() > 50);
}

#[test]
fn a_mutation_changes_one_channel_and_one_part_of_one_instruction() {
    let mut rng = Pcg32::from_seed(gen_seed(7));
    let mut changed_colour = 0;
    let mut changed_program = 0;
    for _ in 0..300 {
        let before = Bot::make_random(&mut rng);
        let mut after = before;
        after.mutate(&mut rng);
        assert_eq!(after.timer, before.timer);
        assert_eq!(after.protein, before.protein);
        assert_eq!(after.alive, before.alive);
        assert_eq!(after.eip, before.eip);
        assert_eq!(after.color.a, before.color.a);
        let channels = [
            (before.color.r, after.color.r),
            (before.color.g, after.color.g),
            (before.color.b, after.color.b),
        ];
        let moved: Vec<&(u8, u8)> = channels.iter().filter(|(b, a)| b != a).collect();
        assert!(moved.len() <= 1);
        for (b, a) in moved {
            changed_colour += 1;
            assert!(*a as u32 >= *b as u32 / 2);
            assert!(*a as u32 <= *b as u32 * 3 / 2);
        }
        let mut instructions = 0;
        for i in 0..PROGRAM_SIZE {
            let (b, a) = (before.program[i], after.program[i]);
            if a != b {
                instructions += 1;
                let parts = (a.comand != b.comand) as u32
                    + (a.goto_success != b.goto_success) as u32
                    + (a.goto_fail != b.goto_fail) as u32;
                assert_eq!(parts, 1);
                assert!(a.goto_success.0 < PROGRAM_SIZE && a.goto_fail.0 < PROGRAM_SIZE);
            }
        }
        assert!(instructions <= 1);
        changed_program += instructions;
    }
    assert!(changed_colour > 100);
    assert!(changed_program > 100);
}

#[test]
fn a_random_program_has_five_instructions() {
    let mut rng = Pcg32::from_seed(gen_seed(3));
    let program = Program::make_random(&mut rng);
    assert_eq!(program.len(), 5);
}

#[test]
fn a_bot_ages_by_one_tick() {
    let mut bot = bot_with(instruction(Comands::Move, 0, 0), 3, 10);
    grow_old(&mut bot, 320);
    assert_eq!(bot.timer, 9);
    assert!(bot.alive);
    assert_eq!(bot.color, Color { r: 200, g: 100, b: 50, a: 255 });
}

#[test]
fn a_bot_at_its_last_tick_dies() {
    let mut bot = bot_with(instruction(Comands::Move, 0, 0), 3, 1);
    grow_old(&mut bot, 320);
    assert!(!bot.alive);
    assert_eq!(bot.timer, 320);
    assert_eq!(bot.protein, 3);
    assert_eq!(bot.color, Color { r: 100, g: 50, b: 25, a: 255 });
    let mut late = bot_with(instruction(Comands::Move, 0, 0), 3, 0);
    grow_old(&mut late, 7);
    assert!(!late.alive);
    assert_eq!(late.timer, 7);
}

#[test]
fn a_dead_bot_gives_back_one_unit_a_tick() {
    let mut bot = bot_with(instruction(Comands::Move, 0, 0), 2, 5);
    bot.alive = false;
    let mut resources = pool(10, 1, 1);
    decay(&mut bot, &mut resources);
    assert_eq!(bot.protein, 1);
    assert_eq!(resources, pool(11, 1, 1));
    assert_eq!(bot.color, Color { r: 199, g: 99, b: 49, a: 255 });
    decay(&mut bot, &mut resources);
    decay(&mut bot, &mut resources);
    assert_eq!(bot.protein, 0);
    assert_eq!(resources, pool(12, 1, 1));
    assert_eq!(bot.timer, 5);
}

#[test]
fn photosynthesis_takes_protein_and_turns_carbon_into_oxygen() {
    let comand = instruction(Comands::Photosynthesis, 2, 3);
    let mut bot = bot_with(comand, 1, 50);
    let mut resources = pool(10, 5, 7);
    assert!(photosynthesize(&mut bot, &mut resources, &comand));
    assert_eq!(bot.protein, 2);
    assert_eq!(resources, pool(9, 6, 6));
    assert_eq!(bot.eip, ProgramPos(2));
    assert_eq!(bot.timer, 50);
    assert_eq!(bot.color, Color { r: 195, g: 103, b: 50, a: 255 });
}

#[test]
fn photosynthesis_without_free_protein_fails_and_changes_nothing() {
    let comand = instruction(Comands::Photosynthesis, 2, 3);
    let mut bot = bot_with(comand, 1, 50);
    let before = bot;
    let mut resources = pool(0, 5, 7);
    assert!(!photosynthesize(&mut bot, &mut resources, &comand));
    assert_eq!(resources, pool(0, 5, 7));
    assert_eq!(bot.protein, 1);
    assert_eq!(bot.eip, ProgramPos(3));
    assert_eq!(bot, Bot { eip: ProgramPos(3), ..before });
}

#[test]
fn photosynthesis_without_carbon_fails_and_changes_nothing() {
    let comand = instruction(Comands::Photosynthesis, 2, 3);
    let mut bot = bot_with(comand, 1, 50);
    let before = bot;
    let mut resources = pool(9, 5, 0);
    assert!(!photosynthesize(&mut bot, &mut resources, &comand));
    assert_eq!(resources, pool(9, 5, 0));
    assert_eq!(bot, Bot { eip: ProgramPos(3), ..before });
}

#[test]
fn feeding_costs_ten_ticks() {
    let comand = instruction(Comands::Food, 4, 1);
    let mut bot = bot_with(comand, 0, 50);
    let mut resources = pool(1, 5, 7);
    assert!(feed(&mut bot, &mut resources, &comand));
    assert_eq!(bot.protein, 1);
    assert_eq!(bot.timer, 40);
    assert_eq!(bot.eip, ProgramPos(4));
    assert_eq!(resources, pool(0, 5, 7));
    assert_eq!(bot.color, Color { r: 197, g: 100, b: 51, a: 255 });
    let before = bot;
    assert!(!feed(&mut bot, &mut resources, &comand));
    assert_eq!(bot, Bot { eip: ProgramPos(1), ..before });
    assert_eq!(resources, pool(0, 5, 7));
}

#[test]
fn feeding_cannot_push_the_timer_below_zero() {
    let comand = instruction(Comands::Food, 4, 1);
    let mut bot = bot_with(comand, 0, 4);
    let mut resources = pool(1, 0, 0);
    assert!(feed(&mut bot, &mut resources, &comand));
    assert_eq!(bot.timer, 0);
}

#[test]
fn an_attack_takes_one_unit_and_turns_oxygen_into_carbon() {
    let comand = instruction(Comands::Attack, 2, 3);
    let mut bot = bot_with(comand, 1, 50);
    let mut victim = bot_with(instruction(Comands::Move, 0, 0), 5, 20);
    let mut resources = pool(10, 5, 7);
    assert!(attack(&mut bot, &mut victim, &mut resources, &comand));
    assert_eq!(bot.protein, 2);
    assert_eq!(victim.protein, 4);
    assert_eq!(victim.timer, 20);
    assert_eq!(resources, pool(10, 4, 8));
    assert_eq!(bot.eip, ProgramPos(2));
    assert_eq!(bot.color, Color { r: 200, g: 98, b: 50, a: 255 });
}

#[test]
fn an_attack_on_an_empty_victim_fails_and_changes_nothing() {
    let comand = instruction(Comands::Attack, 2, 3);
    let mut bot = bot_with(comand, 1, 50);
    let before = bot;
    let mut victim = bot_with(instruction(Comands::Move, 0, 0), 0, 20);
    let prey = victim;
    let mut resources = pool(10, 5, 7);
    assert!(!attack(&mut bot, &mut victim, &mut resources, &comand));
    assert_eq!(bot, Bot { eip: ProgramPos(3), ..before });
    assert_eq!(victim, prey);
    assert_eq!(resources, pool(10, 5, 7));
}

#[test]
fn a_child_takes_half_rounded_down() {
    let mut parent = bot_with(instruction(Comands::Multiply, 1, 2), 7, 33);
    parent.eip = ProgramPos(4);
    let copy = parent;
    let child = split_off(&mut parent, copy, 160);
    assert_eq!(child.protein, 3);
    assert_eq!(parent.protein, 4);
    assert_eq!(child.timer, 160);
    assert_eq!(child.eip, ProgramPos(0));
    assert_eq!(parent.eip, ProgramPos(4));
    assert_eq!(parent.timer, 33);
    assert_eq!(child.program, parent.program);
    assert_eq!(child.color, parent.color);
    for held in 0..50u32 {
        let mut parent = bot_with(instruction(Comands::Multiply, 1, 2), held, 33);
        let copy = parent;
        let child = split_off(&mut parent, copy, 1);
        assert_eq!(parent.protein + child.protein, held);
        assert_eq!(child.protein, held / 2);
    }
}
