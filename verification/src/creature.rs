//! The bot: its colour, its program and the operators that make a random
//! bot or mutate an existing one.

use rand_pcg::Pcg32;
use vstd::prelude::*;
use crate::random::gen_range_i32;
use crate::random::gen_range_usize;
use crate::random::gen_u8;

verus! {

/// The number of instructions in every bot's program.
pub const PROGRAM_SIZE: usize = 5;

/// An RGB colour with opacity.
#[derive(Clone, Copy, Debug, PartialEq, Eq, Structural)]
pub struct Color {
    pub r: u8,
    pub g: u8,
    pub b: u8,
    pub a: u8,
}

/// One channel of a blend: `permille` thousandths of the way from `from` to
/// `to`, rounded down.
pub open spec fn mix_channel(from: u8, to: u8, permille: int) -> u8 {
    ((from * (1000 - permille) + to * permille) / 1000) as u8
}

/// One channel scaled by `permille` thousandths, held to the channel's range.
pub open spec fn scale_channel(value: u8, permille: int) -> u8 {
    if value * permille / 1000 > 255 {
        255u8
    } else {
        (value * permille / 1000) as u8
    }
}

fn mix_one(from: u8, to: u8, permille: u16) -> (r: u8)
    requires
        permille <= 1000,
    ensures
        r == mix_channel(from, to, permille as int),
{
    let near: u32 = 1000 - permille as u32;
    let far: u32 = permille as u32;
    assert(from * near + to * far <= 255 * 1000 && from * near >= 0 && to * far >= 0)
        by (nonlinear_arith)
        requires
            0 <= from <= 255,
            0 <= to <= 255,
            0 <= far <= 1000,
            near == 1000 - far,
    ;
    let weighted: u32 = from as u32 * near + to as u32 * far;
    (weighted / 1000) as u8
}

impl Color {
    /// The colour with all of `self`'s channels but the one that `which`
    /// names (0 red, 1 green, 2 blue), which is scaled by `permille`
    /// thousandths.
    pub open spec fn with_scaled(self, which: int, permille: int) -> Color {
        if which == 0 {
            Color { r: scale_channel(self.r, permille), ..self }
        } else if which == 1 {
            Color { g: scale_channel(self.g, permille), ..self }
        } else {
            Color { b: scale_channel(self.b, permille), ..self }
        }
    }

    /// The blend of two colours, channel by channel.
    pub open spec fn mix(self, to: Color, permille: int) -> Color {
        Color {
            r: mix_channel(self.r, to.r, permille),
            g: mix_channel(self.g, to.g, permille),
            b: mix_channel(self.b, to.b, permille),
            a: mix_channel(self.a, to.a, permille),
        }
    }

    /// Moves every channel `permille` thousandths of the way towards `to`.
    pub fn interpolate(&self, to: &Color, permille: u16) -> (r: Color)
        requires
            permille <= 1000,
        ensures
            r == self.mix(*to, permille as int),
    {
        Color {
            r: mix_one(self.r, to.r, permille),
            g: mix_one(self.g, to.g, permille),
            b: mix_one(self.b, to.b, permille),
            a: mix_one(self.a, to.a, permille),
        }
    }

    /// Scales one channel (0 red, 1 green, 2 blue) by `permille` thousandths.
    pub fn scaled(&self, which: i32, permille: i32) -> (r: Color)
        requires
            0 <= which < 3,
            0 <= permille <= 2000,
        ensures
            r == self.with_scaled(which as int, permille as int),
    {
        if which == 0 {
            Color { r: scale_one(self.r, permille), ..*self }
        } else if which == 1 {
            Color { g: scale_one(self.g, permille), ..*self }
        } else {
            Color { b: scale_one(self.b, permille), ..*self }
        }
    }
}

fn scale_one(value: u8, permille: i32) -> (r: u8)
    requires
        0 <= permille <= 2000,
    ensures
        r == scale_channel(value, permille as int),
{
    assert(0 <= value * permille <= 255 * 2000) by (nonlinear_arith)
        requires
            0 <= value <= 255,
            0 <= permille <= 2000,
    ;
    let scaled: i32 = value as i32 * permille / 1000;
    if scaled > 255 {
        255
    } else {
        scaled as u8
    }
}

/// The colours that the engine tints a bot with.
pub open spec fn palette(name: Tint) -> Color {
    match name {
        Tint::Black => Color { r: 0, g: 0, b: 0, a: 255 },
        Tint::Blue => Color { r: 50, g: 50, b: 200, a: 255 },
        Tint::Green => Color { r: 50, g: 200, b: 50, a: 255 },
        Tint::Red => Color { r: 200, g: 50, b: 50, a: 255 },
        Tint::Gray => Color { r: 100, g: 100, b: 100, a: 255 },
        Tint::White => Color { r: 255, g: 255, b: 255, a: 255 },
    }
}

/// The names of the palette's colours.
#[derive(Clone, Copy, Debug, PartialEq, Eq, Structural)]
pub enum Tint {
    /// Death and decay.
    Black,
    /// Reproduction.
    Blue,
    /// Photosynthesis.
    Green,
    /// Attack.
    Red,
    /// Feeding.
    Gray,
    /// Movement.
    White,
}

impl Tint {
    /// The colour of this name.
    pub fn color(self) -> (r: Color)
        ensures
            r == palette(self),
    {
        match self {
            Tint::Black => Color { r: 0, g: 0, b: 0, a: 255 },
            Tint::Blue => Color { r: 50, g: 50, b: 200, a: 255 },
            Tint::Green => Color { r: 50, g: 200, b: 50, a: 255 },
            Tint::Red => Color { r: 200, g: 50, b: 50, a: 255 },
            Tint::Gray => Color { r: 100, g: 100, b: 100, a: 255 },
            Tint::White => Color { r: 255, g: 255, b: 255, a: 255 },
        }
    }
}

/// A position in a program: an integer below `PROGRAM_SIZE`.
#[derive(Clone, Copy, Debug, PartialEq, Eq, Structural)]
pub struct ProgramPos(pub usize);

/// What an instruction does.
#[derive(Clone, Copy, Debug, PartialEq, Eq, Structural)]
pub enum Comands {
    Multiply,
    Photosynthesis,
    Attack,
    Food,
    Move,
}

/// The opcode with the given number, counting from `Multiply` as 0.
pub open spec fn opcode(index: int) -> Comands {
    if index == 0 {
        Comands::Multiply
    } else if index == 1 {
        Comands::Photosynthesis
    } else if index == 2 {
        Comands::Attack
    } else if index == 3 {
        Comands::Food
    } else {
        Comands::Move
    }
}

impl Comands {
    /// The opcode with the given number.
    pub fn from_index(index: i32) -> (r: Comands)
        requires
            0 <= index < 5,
        ensures
            r == opcode(index as int),
    {
        if index == 0 {
            Comands::Multiply
        } else if index == 1 {
            Comands::Photosynthesis
        } else if index == 2 {
            Comands::Attack
        } else if index == 3 {
            Comands::Food
        } else {
            Comands::Move
        }
    }
}

/// One instruction: an opcode and where the program goes on after it
/// succeeded and after it failed.
#[derive(Clone, Copy, Debug, PartialEq, Eq, Structural)]
pub struct Comand {
    pub comand: Comands,
    pub goto_success: ProgramPos,
    pub goto_fail: ProgramPos,
}

/// A bot's program.
pub type Program = [Comand; PROGRAM_SIZE];

/// One simulated organism.
#[derive(Clone, Copy, Debug, PartialEq, Eq)]
pub struct Bot {
    pub color: Color,
    /// Ticks left to live while alive, ticks left to linger once dead.
    pub timer: u32,
    /// The bot's own protein reserve.
    pub protein: u32,
    pub alive: bool,
    pub program: Program,
    /// The instruction that runs next.
    pub eip: ProgramPos,
}

/// Something that can be made at random and mutated at random.
pub trait Creature: Sized {
    /// Whether the value is one that the engine can run.
    spec fn sound(&self) -> bool;

    /// Whether `self` can be what one mutation makes of `before`.
    spec fn mutation_of(&self, before: &Self) -> bool;

    fn make_random(rng: &mut Pcg32) -> (r: Self)
        ensures
            r.sound(),
    ;

    fn mutate(&mut self, rng: &mut Pcg32)
        requires
            old(self).sound(),
        ensures
            final(self).sound(),
            final(self).mutation_of(old(self)),
    ;
}

impl Creature for u8 {
    open spec fn sound(&self) -> bool {
        true
    }

    /// The channel scaled by some factor from one half up to, not including,
    /// one and a half.
    open spec fn mutation_of(&self, before: &Self) -> bool {
        exists|permille: int| 500 <= permille < 1500 && *self == scale_channel(*before, permille)
    }

    fn make_random(rng: &mut Pcg32) -> (r: Self) {
        gen_u8(rng)
    }

    fn mutate(&mut self, rng: &mut Pcg32) {
        let permille = gen_range_i32(rng, 500, 1500);
        *self = scale_one(*self, permille);
    }
}

impl Creature for Color {
    open spec fn sound(&self) -> bool {
        true
    }

    /// Exactly one of red, green and blue is mutated; the rest is kept.
    open spec fn mutation_of(&self, before: &Self) -> bool {
        exists|which: int, permille: int|
            0 <= which < 3 && 500 <= permille < 1500 && *self == before.with_scaled(
                which,
                permille,
            )
    }

    fn make_random(rng: &mut Pcg32) -> (r: Self)
        ensures
            r.a == 255,
    {
        let r = u8::make_random(rng);
        let g = u8::make_random(rng);
        let b = u8::make_random(rng);
        Color { r, g, b, a: 255 }
    }

    fn mutate(&mut self, rng: &mut Pcg32) {
        let which = gen_range_i32(rng, 0, 3);
        let permille = gen_range_i32(rng, 500, 1500);
        *self = self.scaled(which, permille);
    }
}

impl Creature for Comands {
    open spec fn sound(&self) -> bool {
        true
    }

    open spec fn mutation_of(&self, before: &Self) -> bool {
        true
    }

    fn make_random(rng: &mut Pcg32) -> (r: Self) {
        let value = gen_range_i32(rng, 0, 5);
        Comands::from_index(value)
    }

    fn mutate(&mut self, rng: &mut Pcg32) {
        *self = Self::make_random(rng);
    }
}

impl Creature for ProgramPos {
    open spec fn sound(&self) -> bool {
        self.0 < PROGRAM_SIZE
    }

    open spec fn mutation_of(&self, before: &Self) -> bool {
        true
    }

    fn make_random(rng: &mut Pcg32) -> (r: Self) {
        ProgramPos(gen_range_usize(rng, 0, PROGRAM_SIZE))
    }

    fn mutate(&mut self, rng: &mut Pcg32) {
        *self = Self::make_random(rng);
    }
}

impl Creature for Comand {
    open spec fn sound(&self) -> bool {
        self.goto_success.sound() && self.goto_fail.sound()
    }

    /// One of the three parts is drawn anew; the other two are kept.
    open spec fn mutation_of(&self, before: &Self) -> bool {
        ||| self.goto_success == before.goto_success && self.goto_fail == before.goto_fail
        ||| self.comand == before.comand && self.goto_fail == before.goto_fail
        ||| self.comand == before.comand && self.goto_success == before.goto_success
    }

    fn make_random(rng: &mut Pcg32) -> (r: Self) {
        let comand = Comands::make_random(rng);
        let goto_success = ProgramPos::make_random(rng);
        let goto_fail = ProgramPos::make_random(rng);
        Comand { comand, goto_success, goto_fail }
    }

    fn mutate(&mut self, rng: &mut Pcg32) {
        let part = gen_range_i32(rng, 0, 3);
        if part == 0 {
            let mut comand = self.comand;
            comand.mutate(rng);
            self.comand = comand;
        } else if part == 1 {
            let mut target = self.goto_success;
            target.mutate(rng);
            self.goto_success = target;
        } else {
            let mut target = self.goto_fail;
            target.mutate(rng);
            self.goto_fail = target;
        }
    }
}

impl Creature for Program {
    open spec fn sound(&self) -> bool {
        forall|i: int| 0 <= i < PROGRAM_SIZE ==> (#[trigger] self@[i]).sound()
    }

    /// One instruction is mutated; the others are kept.
    open spec fn mutation_of(&self, before: &Self) -> bool {
        exists|at: int|
            0 <= at < PROGRAM_SIZE && self@ == before@.update(at, self@[at]) && self@[at].mutation_of(
                &before@[at],
            )
    }

    fn make_random(rng: &mut Pcg32) -> (r: Self) {
        let first = Comand::make_random(rng);
        let second = Comand::make_random(rng);
        let third = Comand::make_random(rng);
        let fourth = Comand::make_random(rng);
        let fifth = Comand::make_random(rng);
        [first, second, third, fourth, fifth]
    }

    fn mutate(&mut self, rng: &mut Pcg32) {
        let at = gen_range_usize(rng, 0, PROGRAM_SIZE);
        let mut instruction = self[at];
        instruction.mutate(rng);
        self[at] = instruction;
        assert(self@ =~= old(self)@.update(at as int, self@[at as int]));
    }
}

impl Creature for Bot {
    /// The instruction pointer and every jump target lie inside the program.
    open spec fn sound(&self) -> bool {
        self.eip.sound() && self.program.sound()
    }

    /// Colour and program are mutated once each; the rest is kept.
    open spec fn mutation_of(&self, before: &Self) -> bool {
        &&& self.color.mutation_of(&before.color)
        &&& self.program.mutation_of(&before.program)
        &&& self.timer == before.timer
        &&& self.protein == before.protein
        &&& self.alive == before.alive
        &&& self.eip == before.eip
    }

    fn make_random(rng: &mut Pcg32) -> (r: Self)
        ensures
            r.timer == 0,
            r.protein == 0,
            r.alive,
            r.eip == ProgramPos(0),
            r.color.a == 255,
    {
        let color = Color::make_random(rng);
        let program = Program::make_random(rng);
        Bot { color, timer: 0, protein: 0, program, eip: ProgramPos(0), alive: true }
    }

    fn mutate(&mut self, rng: &mut Pcg32) {
        let mut color = self.color;
        color.mutate(rng);
        self.color = color;
        let mut program = self.program;
        program.mutate(rng);
        self.program = program;
    }
}

} // verus!
