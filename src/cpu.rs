use vstd::prelude::*;

use crate::display::{blank, collides, drawn, Display, PIXELS};
use crate::keypad::{key_down, Keypad, KEY_COUNT};

verus! {

/// Bytes of addressable memory.
pub const MEMORY_SIZE: usize = 4096;

/// Address at which programs are loaded and execution starts.
pub const PROGRAM_START: usize = 0x200;

/// Largest program that fits between `PROGRAM_START` and the end of memory.
pub const PROGRAM_CAPACITY: usize = 3584;

/// Number of data registers.
pub const REGISTER_COUNT: usize = 16;

/// Register that arithmetic, shift and draw instructions use as a flag.
pub const FLAG: usize = 15;

/// Depth of the call stack.
pub const STACK_DEPTH: usize = 16;

/// Bytes per built-in font glyph.
pub const GLYPH_BYTES: usize = 5;

/// Largest value the index register can hold.
pub const INDEX_MAX: usize = 0xFFFF;

/// The built-in font: sixteen glyphs, for the hexadecimal digits 0 to F,
/// each five rows of four pixels, kept at the bottom of memory.
pub const FONT_SET: [u8; 80] = [
    0xF0, 0x90, 0x90, 0x90, 0xF0,
    0x20, 0x60, 0x20, 0x20, 0x70,
    0xF0, 0x10, 0xF0, 0x80, 0xF0,
    0xF0, 0x10, 0xF0, 0x10, 0xF0,
    0x90, 0x90, 0xF0, 0x10, 0x10,
    0xF0, 0x80, 0xF0, 0x10, 0xF0,
    0xF0, 0x80, 0xF0, 0x90, 0xF0,
    0xF0, 0x10, 0x20, 0x40, 0x40,
    0xF0, 0x90, 0xF0, 0x90, 0xF0,
    0xF0, 0x90, 0xF0, 0x10, 0xF0,
    0xF0, 0x90, 0xF0, 0x90, 0x90,
    0xE0, 0x90, 0xE0, 0x90, 0xE0,
    0xF0, 0x80, 0x80, 0x80, 0xF0,
    0xE0, 0x90, 0x90, 0x90, 0xE0,
    0xF0, 0x80, 0xF0, 0x80, 0xF0,
    0xF0, 0x80, 0xF0, 0x80, 0x80,
];

/// Why a cycle could not run. A faulting cycle leaves the machine untouched.
#[derive(PartialEq, Eq, Structural, Clone, Copy, Debug)]
pub enum Fault {
    /// The program counter does not address a whole instruction in memory.
    PcOutOfRange,
    /// A call with every stack slot in use.
    StackOverflow,
    /// A return with an empty stack.
    StackUnderflow,
    /// An instruction would read or write memory past its end.
    MemoryOutOfRange,
    /// Adding to the index register would carry it past `INDEX_MAX`.
    IndexOverflow,
}

/// What a cycle that ran did.
#[derive(PartialEq, Eq, Structural, Clone, Copy, Debug)]
pub enum Status {
    /// The instruction was recognised and carried out.
    Executed,
    /// The instruction has no meaning; only the program counter moved on.
    UnknownOpcode(u16),
}

/// The whole state of a machine, as mathematical values.
#[verifier::ext_equal]
pub ghost struct Machine {
    pub pc: int,
    pub i: int,
    pub v: Seq<u8>,
    pub memory: Seq<u8>,
    pub stack: Seq<u16>,
    pub sp: int,
    pub delay: u8,
    pub sound: u8,
    pub keys: Seq<bool>,
    pub screen: Seq<bool>,
}

/// The bounds that every reachable machine state keeps.
pub open spec fn valid(m: Machine) -> bool {
    &&& 0 <= m.pc <= 0xFFFF
    &&& 0 <= m.i <= INDEX_MAX
    &&& m.v.len() == REGISTER_COUNT
    &&& m.memory.len() == MEMORY_SIZE
    &&& m.stack.len() == STACK_DEPTH
    &&& forall|s: int| 0 <= s < STACK_DEPTH ==> #[trigger] m.stack[s] < MEMORY_SIZE
    &&& 0 <= m.sp <= STACK_DEPTH
    &&& m.keys.len() == KEY_COUNT
    &&& m.screen.len() == PIXELS
}

// Fields of an opcode.
pub open spec fn family_of(op: u16) -> u16 {
    op / 0x1000
}

pub open spec fn x_of(op: u16) -> u16 {
    (op / 0x100) % 16
}

pub open spec fn y_of(op: u16) -> u16 {
    (op / 0x10) % 16
}

pub open spec fn n_of(op: u16) -> u16 {
    op % 0x10
}

pub open spec fn nn_of(op: u16) -> u16 {
    op % 0x100
}

pub open spec fn nnn_of(op: u16) -> u16 {
    op % 0x1000
}

/// The big-endian instruction word at the program counter.
pub open spec fn fetch(m: Machine) -> u16 {
    (m.memory[m.pc] as int * 0x100 + m.memory[m.pc + 1] as int) as u16
}

/// Whether `op` is an instruction of the set.
pub open spec fn known(op: u16) -> bool {
    let n = n_of(op);
    let nn = nn_of(op);
    match family_of(op) {
        0x0 => op == 0x00E0 || op == 0x00EE,
        0x8 => n <= 7 || n == 0xE,
        0xE => nn == 0x9E || nn == 0xA1,
        0xF => nn == 0x07 || nn == 0x0A || nn == 0x15 || nn == 0x18 || nn == 0x1E || nn == 0x29
            || nn == 0x33 || nn == 0x55 || nn == 0x65,
        _ => true,
    }
}

/// What a cycle that runs `op` reports.
pub open spec fn status_of(op: u16) -> Status {
    if known(op) {
        Status::Executed
    } else {
        Status::UnknownOpcode(op)
    }
}

pub open spec fn advance(m: Machine, by: int) -> Machine {
    Machine { pc: m.pc + by, ..m }
}

/// Skips the next instruction when `cond` holds.
pub open spec fn skip_if(m: Machine, cond: bool) -> Machine {
    advance(m, if cond { 4 } else { 2 })
}

pub open spec fn set_v(m: Machine, r: int, val: u8) -> Machine {
    Machine { v: m.v.update(r, val), ..m }
}

/// Register `x` set to `val`, then the program counter moved on.
pub open spec fn load_v(m: Machine, x: int, val: u8) -> Machine {
    advance(set_v(m, x, val), 2)
}

/// The register-to-register instructions `8xyN`. The flag is written
/// before the result, so with `x` = `FLAG` the result wins.
pub open spec fn alu(m: Machine, op: u16) -> Machine {
    let x = x_of(op) as int;
    let vx = m.v[x];
    let vy = m.v[y_of(op) as int];
    let r = match n_of(op) {
        0x0 => set_v(m, x, vy),
        0x1 => set_v(m, x, vx | vy),
        0x2 => set_v(m, x, vx & vy),
        0x3 => set_v(m, x, vx ^ vy),
        0x4 => set_v(set_v(m, FLAG as int, if vx + vy > 255 { 1 } else { 0 }), x, ((vx + vy) % 256) as u8),
        0x5 => set_v(set_v(m, FLAG as int, if vy > vx { 0 } else { 1 }), x, ((vx - vy) % 256) as u8),
        0x6 => {
            let f = set_v(m, FLAG as int, vx % 2);
            set_v(f, x, f.v[x] / 2)
        },
        0x7 => set_v(set_v(m, FLAG as int, if vx > vy { 0 } else { 1 }), x, ((vy - vx) % 256) as u8),
        0xE => {
            let f = set_v(m, FLAG as int, vx / 128);
            set_v(f, x, ((f.v[x] * 2) % 256) as u8)
        },
        _ => m,
    };
    advance(r, 2)
}

/// The least key, scanning upwards from `k`, that is held down.
pub open spec fn first_down_from(keys: Seq<bool>, k: int) -> Option<int>
    decreases KEY_COUNT - k,
{
    if k < 0 || k >= KEY_COUNT {
        None
    } else if key_down(keys, k) {
        Some(k)
    } else {
        first_down_from(keys, k + 1)
    }
}

/// The least key that is held down, if any.
pub open spec fn first_down(keys: Seq<bool>) -> Option<int> {
    first_down_from(keys, 0)
}

/// Memory with `src` written from address `at` on.
pub open spec fn store(mem: Seq<u8>, at: int, src: Seq<u8>) -> Seq<u8> {
    Seq::new(mem.len(), |a: int| if at <= a < at + src.len() { src[a - at] } else { mem[a] })
}

/// The decimal digits of `b`: hundreds, tens, ones.
pub open spec fn bcd(b: u8) -> Seq<u8> {
    seq![b / 100, (b / 10) % 10, b % 10]
}

/// The instructions `Fxnn`.
pub open spec fn misc(m: Machine, op: u16) -> Result<Machine, Fault> {
    let x = x_of(op) as int;
    let vx = m.v[x];
    match nn_of(op) {
        0x07 => Ok(load_v(m, x, m.delay)),
        0x0A => match first_down(m.keys) {
            Some(k) => Ok(load_v(m, x, k as u8)),
            None => Ok(m),
        },
        0x15 => Ok(advance(Machine { delay: vx, ..m }, 2)),
        0x18 => Ok(advance(Machine { sound: vx, ..m }, 2)),
        0x1E => if m.i + vx > INDEX_MAX {
            Err(Fault::IndexOverflow)
        } else {
            Ok(advance(Machine { i: m.i + vx, ..m }, 2))
        },
        0x29 => Ok(advance(Machine { i: vx * GLYPH_BYTES, ..m }, 2)),
        0x33 => if m.i + 3 > MEMORY_SIZE {
            Err(Fault::MemoryOutOfRange)
        } else {
            Ok(advance(Machine { memory: store(m.memory, m.i, bcd(vx)), ..m }, 2))
        },
        0x55 => if m.i + x + 1 > MEMORY_SIZE {
            Err(Fault::MemoryOutOfRange)
        } else {
            Ok(
                advance(
                    Machine { memory: store(m.memory, m.i, m.v.subrange(0, x + 1)), i: m.i + x + 1, ..m },
                    2,
                ),
            )
        },
        0x65 => if m.i + x + 1 > MEMORY_SIZE {
            Err(Fault::MemoryOutOfRange)
        } else {
            Ok(
                advance(
                    Machine { v: store(m.v, 0, m.memory.subrange(m.i, m.i + x + 1)), i: m.i + x + 1, ..m },
                    2,
                ),
            )
        },
        _ => Ok(advance(m, 2)),
    }
}

/// The machine after running `op`, with `rnd` as the random byte that
/// `Cxnn` masks; or the fault that stops it.
pub open spec fn execute(m: Machine, op: u16, rnd: u8) -> Result<Machine, Fault> {
    let x = x_of(op) as int;
    let vx = m.v[x];
    let vy = m.v[y_of(op) as int];
    let nn = nn_of(op);
    let nnn = nnn_of(op) as int;
    match family_of(op) {
        0x0 => if op == 0x00E0 {
            Ok(advance(Machine { screen: blank(), ..m }, 2))
        } else if op == 0x00EE {
            if m.sp == 0 {
                Err(Fault::StackUnderflow)
            } else {
                Ok(Machine { sp: m.sp - 1, pc: m.stack[m.sp - 1] + 2, ..m })
            }
        } else {
            Ok(advance(m, 2))
        },
        0x1 => Ok(Machine { pc: nnn, ..m }),
        0x2 => if m.sp >= STACK_DEPTH {
            Err(Fault::StackOverflow)
        } else {
            Ok(Machine { stack: m.stack.update(m.sp, m.pc as u16), sp: m.sp + 1, pc: nnn, ..m })
        },
        0x3 => Ok(skip_if(m, vx as u16 == nn)),
        0x4 => Ok(skip_if(m, vx as u16 != nn)),
        0x5 => Ok(skip_if(m, vx == vy)),
        0x6 => Ok(load_v(m, x, nn as u8)),
        0x7 => Ok(load_v(m, x, ((vx + nn) % 256) as u8)),
        0x8 => Ok(alu(m, op)),
        0x9 => Ok(skip_if(m, vx != vy)),
        0xA => Ok(advance(Machine { i: nnn, ..m }, 2)),
        0xB => Ok(Machine { pc: nnn + m.v[0], ..m }),
        0xC => Ok(load_v(m, x, (nn as u8) & rnd)),
        0xD => if m.i + n_of(op) as int > MEMORY_SIZE {
            Err(Fault::MemoryOutOfRange)
        } else {
            let sprite = m.memory.subrange(m.i, m.i + n_of(op) as int);
            let hit = collides(m.screen, vx as int, vy as int, sprite);
            Ok(
                load_v(
                    Machine { screen: drawn(m.screen, vx as int, vy as int, sprite), ..m },
                    FLAG as int,
                    if hit { 1 } else { 0 },
                ),
            )
        },
        0xE => if nn == 0x9E {
            Ok(skip_if(m, key_down(m.keys, vx as int)))
        } else if nn == 0xA1 {
            Ok(skip_if(m, !key_down(m.keys, vx as int)))
        } else {
            Ok(advance(m, 2))
        },
        _ => misc(m, op),
    }
}

/// Each timer that is above zero counts down by one.
pub open spec fn tick(m: Machine) -> Machine {
    Machine {
        delay: if m.delay > 0 { (m.delay - 1) as u8 } else { 0 },
        sound: if m.sound > 0 { (m.sound - 1) as u8 } else { 0 },
        ..m
    }
}

/// One cycle: fetch the instruction at the program counter, run it with
/// `rnd` as the random byte, then count the timers down.
pub open spec fn cycle(m: Machine, rnd: u8) -> Result<Machine, Fault> {
    if m.pc + 1 >= MEMORY_SIZE {
        Err(Fault::PcOutOfRange)
    } else {
        match execute(m, fetch(m), rnd) {
            Ok(n) => Ok(tick(n)),
            Err(f) => Err(f),
        }
    }
}

/// `after` and `r` are what a cycle from `before` with random byte `rnd`
/// gives: the next state and the status, or the fault and no change.
pub open spec fn cycle_outcome(before: Machine, rnd: u8, after: Machine, r: Result<Status, Fault>) -> bool {
    match cycle(before, rnd) {
        Ok(n) => after == n && r == Ok::<Status, Fault>(status_of(fetch(before))),
        Err(f) => after == before && r == Err::<Status, Fault>(f),
    }
}

/// The state of a machine that has just been built around `screen`.
pub open spec fn initial(screen: Seq<bool>) -> Machine {
    Machine {
        pc: PROGRAM_START as int,
        i: 0,
        v: Seq::new(REGISTER_COUNT as nat, |r: int| 0u8),
        memory: Seq::new(MEMORY_SIZE as nat, |a: int| if a < FONT_SET@.len() { FONT_SET@[a] } else { 0u8 }),
        stack: Seq::new(STACK_DEPTH as nat, |s: int| 0u16),
        sp: 0,
        delay: 0,
        sound: 0,
        keys: Seq::new(KEY_COUNT as nat, |k: int| false),
        screen,
    }
}

/// The machine after loading `game`: as many of its bytes as fit, from
/// `PROGRAM_START` on, and the program counter back at `PROGRAM_START`.
pub open spec fn loaded(m: Machine, game: Seq<u8>) -> Machine {
    let len = if game.len() > PROGRAM_CAPACITY { PROGRAM_CAPACITY as int } else { game.len() as int };
    Machine {
        memory: store(m.memory, PROGRAM_START as int, game.subrange(0, len)),
        pc: PROGRAM_START as int,
        ..m
    }
}

/// `after` and `r` are what running one instruction from `before` gives,
/// when `expected` is its meaning: the next state, or the fault and no change.
pub open spec fn step_outcome(before: Machine, after: Machine, r: Result<(), Fault>, expected: Result<Machine, Fault>) -> bool {
    match expected {
        Ok(n) => after == n && r is Ok,
        Err(f) => after == before && r == Err::<(), Fault>(f),
    }
}

/// Running an instruction from a valid state with the program counter on a
/// whole instruction keeps the state valid.
pub proof fn lemma_execute_valid(m: Machine, op: u16, rnd: u8)
    requires
        valid(m),
        m.pc + 1 < MEMORY_SIZE,
    ensures
        execute(m, op, rnd) is Ok ==> valid(execute(m, op, rnd)->Ok_0),
{
}

/// Whether `op` is an instruction of the set.
fn is_known(op: u16) -> (r: bool)
    ensures
        r == known(op),
{
    let n = op_n(op);
    let nn = op_nn(op);
    let family = op_family(op);
    if family == 0x0 {
        op == 0x00E0 || op == 0x00EE
    } else if family == 0x8 {
        n <= 7 || n == 0xE
    } else if family == 0xE {
        nn == 0x9E || nn == 0xA1
    } else if family == 0xF {
        nn == 0x07 || nn == 0x0A || nn == 0x15 || nn == 0x18 || nn == 0x1E || nn == 0x29 || nn == 0x33
            || nn == 0x55 || nn == 0x65
    } else {
        true
    }
}

/// Relies on rand::random::<u8>: a byte from the thread-local generator;
/// any byte may come back.
#[verifier::external_body]
fn random_byte() -> (r: u8) {
    rand::random::<u8>()
}

/// The opcode's top nibble, which selects the instruction family.
fn op_family(op: u16) -> (r: u16)
    ensures
        r == family_of(op),
{
    proof {
        assert((op & 0xF000u16) >> 12u16 == op / 0x1000u16) by (bit_vector);
    }
    (op & 0xF000) >> 12
}

fn op_x(op: u16) -> (r: usize)
    ensures
        r == x_of(op),
        r < REGISTER_COUNT,
{
    proof {
        assert((op & 0x0F00u16) >> 8u16 == (op / 0x100u16) % 16u16) by (bit_vector);
    }
    ((op & 0x0F00) >> 8) as usize
}

fn op_y(op: u16) -> (r: usize)
    ensures
        r == y_of(op),
        r < REGISTER_COUNT,
{
    proof {
        assert((op & 0x00F0u16) >> 4u16 == (op / 0x10u16) % 16u16) by (bit_vector);
    }
    ((op & 0x00F0) >> 4) as usize
}

fn op_n(op: u16) -> (r: u8)
    ensures
        r == n_of(op),
{
    proof {
        assert(op & 0x000Fu16 == op % 0x10u16) by (bit_vector);
    }
    (op & 0x000F) as u8
}

fn op_nn(op: u16) -> (r: u8)
    ensures
        r == nn_of(op),
{
    proof {
        assert(op & 0x00FFu16 == op % 0x100u16) by (bit_vector);
    }
    (op & 0x00FF) as u8
}

fn op_nnn(op: u16) -> (r: u16)
    ensures
        r == nnn_of(op),
{
    proof {
        assert(op & 0x0FFFu16 == op % 0x1000u16) by (bit_vector);
    }
    op & 0x0FFF
}

/// A CHIP-8 machine: registers, memory, call stack, timers, and the key pad
/// and screen it reads and draws on.
pub struct CPU {
    pc: usize,
    i: usize,
    vx: [u8; 16],
    memory: [u8; 4096],
    stack: [u16; 16],
    sp: usize,
    delay_timer: u8,
    sound_timer: u8,
    pub keypad: Keypad,
    pub display: Display,
}

impl View for CPU {
    type V = Machine;

    closed spec fn view(&self) -> Machine {
        Machine {
            pc: self.pc as int,
            i: self.i as int,
            v: self.vx@,
            memory: self.memory@,
            stack: self.stack@,
            sp: self.sp as int,
            delay: self.delay_timer,
            sound: self.sound_timer,
            keys: self.keypad@,
            screen: self.display@,
        }
    }
}

impl CPU {
    pub open spec fn wf(&self) -> bool {
        valid(self@)
    }

    /// A machine with the font at the bottom of memory, everything else
    /// zeroed, no key down, and the program counter at `PROGRAM_START`.
    pub fn new(display: Display) -> (r: CPU)
        ensures
            r.wf(),
            r@ == initial(display@),
    {
        proof {
            display.lemma_size();
        }
        let mut memory = [0u8; 4096];
        let mut a: usize = 0;
        while a < 80
            invariant
                a <= 80,
                memory@.len() == MEMORY_SIZE,
                forall|b: int| 0 <= b < a ==> memory@[b] == FONT_SET@[b],
                forall|b: int| a <= b < MEMORY_SIZE ==> memory@[b] == 0,
            decreases 80 - a,
        {
            memory[a] = FONT_SET[a];
            a = a + 1;
        }
        let cpu = CPU {
            pc: PROGRAM_START,
            i: 0,
            vx: [0; 16],
            memory,
            stack: [0; 16],
            sp: 0,
            delay_timer: 0,
            sound_timer: 0,
            keypad: Keypad::new(),
            display: display,
        };
        assert(cpu@ =~= initial(display@));
        cpu
    }

    /// Copies `game` into memory from `PROGRAM_START` on, dropping what
    /// does not fit, and sets the program counter to `PROGRAM_START`.
    pub fn load_game(&mut self, game: &[u8])
        requires
            old(self).wf(),
        ensures
            final(self).wf(),
            final(self)@ == loaded(old(self)@, game@),
    {
        let ghost before = self@;
        let len: usize = if game.len() > PROGRAM_CAPACITY { PROGRAM_CAPACITY } else { game.len() };
        let mut k: usize = 0;
        while k < len
            invariant
                k <= len <= PROGRAM_CAPACITY,
                len <= game@.len(),
                self@ == (Machine { memory: store(before.memory, PROGRAM_START as int, game@.subrange(0, k as int)), ..before }),
            decreases len - k,
        {
            self.memory[PROGRAM_START + k] = game[k];
            k = k + 1;
            assert(self@.memory =~= store(before.memory, PROGRAM_START as int, game@.subrange(0, k as int)));
        }
        self.pc = PROGRAM_START;
        assert(self@ =~= loaded(before, game@));
    }

    fn fetch_opcode(&self) -> (op: u16)
        requires
            self.wf(),
            self.pc + 1 < MEMORY_SIZE,
        ensures
            op == fetch(self@),
    {
        let hi = self.memory[self.pc] as u16;
        let lo = self.memory[self.pc + 1] as u16;
        proof {
            assert(hi < 256 && lo < 256 ==> (hi << 8u16) | lo == hi * 256 + lo) by (bit_vector);
        }
        hi << 8 | lo
    }

    fn op_0xxx(&mut self, op: u16) -> (r: Result<(), Fault>)
        requires
            old(self).wf(),
            family_of(op) == 0,
        ensures
            step_outcome(old(self)@, final(self)@, r, execute(old(self)@, op, 0)),
    {
        if op == 0x00E0 {
            self.display.clear();
        } else if op == 0x00EE {
            if self.sp == 0 {
                return Err(Fault::StackUnderflow);
            }
            self.sp = self.sp - 1;
            self.pc = self.stack[self.sp] as usize;
        }
        self.pc = self.pc + 2;
        Ok(())
    }

    fn op_1xxx(&mut self, op: u16)
        requires
            old(self).wf(),
            family_of(op) == 1,
        ensures
            execute(old(self)@, op, 0) == Ok::<Machine, Fault>(final(self)@),
    {
        self.pc = op_nnn(op) as usize;
    }

    fn op_2xxx(&mut self, op: u16) -> (r: Result<(), Fault>)
        requires
            old(self).wf(),
            family_of(op) == 2,
        ensures
            step_outcome(old(self)@, final(self)@, r, execute(old(self)@, op, 0)),
    {
        if self.sp >= STACK_DEPTH {
            return Err(Fault::StackOverflow);
        }
        self.stack[self.sp] = self.pc as u16;
        self.sp = self.sp + 1;
        self.pc = op_nnn(op) as usize;
        Ok(())
    }

    /// Moves past the next instruction when `cond` holds, else to it.
    fn skip_when(&mut self, cond: bool)
        requires
            old(self).wf(),
        ensures
            final(self)@ == skip_if(old(self)@, cond),
    {
        if cond {
            self.pc = self.pc + 4;
        } else {
            self.pc = self.pc + 2;
        }
    }

    fn op_3xxx(&mut self, op: u16)
        requires
            old(self).wf(),
            family_of(op) == 3,
        ensures
            execute(old(self)@, op, 0) == Ok::<Machine, Fault>(final(self)@),
    {
        let c = self.vx[op_x(op)] == op_nn(op);
        self.skip_when(c);
    }

    fn op_4xxx(&mut self, op: u16)
        requires
            old(self).wf(),
            family_of(op) == 4,
        ensures
            execute(old(self)@, op, 0) == Ok::<Machine, Fault>(final(self)@),
    {
        let c = self.vx[op_x(op)] != op_nn(op);
        self.skip_when(c);
    }

    fn op_5xxx(&mut self, op: u16)
        requires
            old(self).wf(),
            family_of(op) == 5,
        ensures
            execute(old(self)@, op, 0) == Ok::<Machine, Fault>(final(self)@),
    {
        let c = self.vx[op_x(op)] == self.vx[op_y(op)];
        self.skip_when(c);
    }

    fn op_6xxx(&mut self, op: u16)
        requires
            old(self).wf(),
            family_of(op) == 6,
        ensures
            execute(old(self)@, op, 0) == Ok::<Machine, Fault>(final(self)@),
    {
        self.vx[op_x(op)] = op_nn(op);
        self.pc = self.pc + 2;
    }

    fn op_7xxx(&mut self, op: u16)
        requires
            old(self).wf(),
            family_of(op) == 7,
        ensures
            execute(old(self)@, op, 0) == Ok::<Machine, Fault>(final(self)@),
    {
        let x = op_x(op);
        let v: u8 = self.vx[x];
        self.vx[x] = v.wrapping_add(op_nn(op));
        self.pc = self.pc + 2;
    }

    fn op_8xxx(&mut self, op: u16)
        requires
            old(self).wf(),
        ensures
            final(self)@ == alu(old(self)@, op),
    {
        let x = op_x(op);
        let v: u8 = self.vx[x];
        let vy: u8 = self.vx[op_y(op)];
        let n = op_n(op);
        let ghost m0 = self@;
        if n == 0 {
            self.vx[x] = vy;
            assert(self@.v =~= alu(m0, op).v);
        } else if n == 1 {
            self.vx[x] = v | vy;
            assert(self@.v =~= alu(m0, op).v);
        } else if n == 2 {
            self.vx[x] = v & vy;
            assert(self@.v =~= alu(m0, op).v);
        } else if n == 3 {
            self.vx[x] = v ^ vy;
            assert(self@.v =~= alu(m0, op).v);
        } else if n == 4 {
            self.vx[FLAG] = if (v as u16 + vy as u16) > 0xFF { 1 } else { 0 };
            self.vx[x] = v.wrapping_add(vy);
            assert(self@.v =~= alu(m0, op).v);
        } else if n == 5 {
            self.vx[FLAG] = if vy > v { 0 } else { 1 };
            self.vx[x] = v.wrapping_sub(vy);
            assert(self@.v =~= alu(m0, op).v);
        } else if n == 6 {
            proof {
                assert(v & 1u8 == v % 2) by (bit_vector);
            }
            self.vx[FLAG] = v & 0x1;
            let w = self.vx[x];
            proof {
                assert(w >> 1u8 == w / 2) by (bit_vector);
            }
            self.vx[x] = w >> 1;
            assert(self@.v =~= alu(m0, op).v);
        } else if n == 7 {
            self.vx[FLAG] = if v > vy { 0 } else { 1 };
            self.vx[x] = vy.wrapping_sub(v);
            assert(self@.v =~= alu(m0, op).v);
        } else if n == 0xE {
            proof {
                assert(v >> 7u8 == v / 128) by (bit_vector);
            }
            self.vx[FLAG] = v >> 7;
            let w = self.vx[x];
            proof {
                assert(w << 1u8 == ((w as u16 * 2) % 256) as u8) by (bit_vector);
            }
            self.vx[x] = w << 1;
            assert(self@.v =~= alu(m0, op).v);
        }
        self.pc = self.pc + 2;
        assert(self@ =~= alu(m0, op));
    }

    fn op_9xxx(&mut self, op: u16)
        requires
            old(self).wf(),
            family_of(op) == 9,
        ensures
            execute(old(self)@, op, 0) == Ok::<Machine, Fault>(final(self)@),
    {
        let c = self.vx[op_x(op)] != self.vx[op_y(op)];
        self.skip_when(c);
    }

    fn op_Axxx(&mut self, op: u16)
        requires
            old(self).wf(),
            family_of(op) == 0xA,
        ensures
            execute(old(self)@, op, 0) == Ok::<Machine, Fault>(final(self)@),
    {
        self.i = op_nnn(op) as usize;
        self.pc = self.pc + 2;
    }

    fn op_Bxxx(&mut self, op: u16)
        requires
            old(self).wf(),
            family_of(op) == 0xB,
        ensures
            execute(old(self)@, op, 0) == Ok::<Machine, Fault>(final(self)@),
    {
        self.pc = (op_nnn(op) + (self.vx[0] as u16)) as usize;
    }

    fn op_Cxxx(&mut self, op: u16, rnd: u8)
        requires
            old(self).wf(),
            family_of(op) == 0xC,
        ensures
            execute(old(self)@, op, rnd) == Ok::<Machine, Fault>(final(self)@),
    {
        self.vx[op_x(op)] = op_nn(op) & rnd;
        self.pc = self.pc + 2;
    }

    fn op_Dxxx(&mut self, op: u16) -> (r: Result<(), Fault>)
        requires
            old(self).wf(),
            family_of(op) == 0xD,
        ensures
            step_outcome(old(self)@, final(self)@, r, execute(old(self)@, op, 0)),
    {
        let from = self.i;
        if from + (op_n(op) as usize) > MEMORY_SIZE {
            return Err(Fault::MemoryOutOfRange);
        }
        let to = from + (op_n(op) as usize);
        let x = self.vx[op_x(op)];
        let y = self.vx[op_y(op)];
        let hit = self.display.draw(x, y, vstd::slice::slice_subrange(self.memory.as_slice(), from, to));
        self.vx[FLAG] = if hit { 1 } else { 0 };
        self.pc = self.pc + 2;
        Ok(())
    }

    fn op_Exxx(&mut self, op: u16)
        requires
            old(self).wf(),
            family_of(op) == 0xE,
        ensures
            execute(old(self)@, op, 0) == Ok::<Machine, Fault>(final(self)@),
    {
        let v = self.vx[op_x(op)] as usize;
        let nn = op_nn(op);
        if nn == 0x9E {
            let c = self.keypad.pressed(v);
            self.skip_when(c);
        } else if nn == 0xA1 {
            let c = !self.keypad.pressed(v);
            self.skip_when(c);
        } else {
            self.pc = self.pc + 2;
        }
    }

    /// Sets register `x` to the lowest key held down and moves on; with no
    /// key down, stays on this instruction so that it runs again.
    fn wait_keypress(&mut self, x: usize)
        requires
            old(self).wf(),
            x < REGISTER_COUNT,
        ensures
            final(self)@ == (match first_down(old(self)@.keys) {
                Some(k) => load_v(old(self)@, x as int, k as u8),
                None => old(self)@,
            }),
    {
        let mut k: usize = 0;
        while k < KEY_COUNT
            invariant
                k <= KEY_COUNT,
                x < REGISTER_COUNT,
                self.wf(),
                self@ == old(self)@,
                first_down(self@.keys) == first_down_from(self@.keys, k as int),
            decreases KEY_COUNT - k,
        {
            if self.keypad.pressed(k) {
                self.vx[x] = k as u8;
                self.pc = self.pc + 2;
                return;
            }
            k = k + 1;
        }
    }

    fn op_Fxxx(&mut self, op: u16) -> (r: Result<(), Fault>)
        requires
            old(self).wf(),
        ensures
            step_outcome(old(self)@, final(self)@, r, misc(old(self)@, op)),
    {
        let ghost m0 = self@;
        let x = op_x(op);
        let nn = op_nn(op);
        if nn == 0x07 {
            self.vx[x] = self.delay_timer;
        } else if nn == 0x0A {
            self.wait_keypress(x);
            return Ok(());
        } else if nn == 0x15 {
            self.delay_timer = self.vx[x];
        } else if nn == 0x18 {
            self.sound_timer = self.vx[x];
        } else if nn == 0x1E {
            if self.i + self.vx[x] as usize > INDEX_MAX {
                return Err(Fault::IndexOverflow);
            }
            self.i = self.i + self.vx[x] as usize;
        } else if nn == 0x29 {
            self.i = (self.vx[x] as usize) * GLYPH_BYTES;
        } else if nn == 0x33 {
            if self.i + 3 > MEMORY_SIZE {
                return Err(Fault::MemoryOutOfRange);
            }
            let v = self.vx[x];
            self.memory[self.i] = v / 100;
            self.memory[self.i + 1] = (v / 10) % 10;
            self.memory[self.i + 2] = v % 10;
            assert(self@.memory =~= store(m0.memory, m0.i, bcd(v)));
        } else if nn == 0x55 {
            if self.i + x + 1 > MEMORY_SIZE {
                return Err(Fault::MemoryOutOfRange);
            }
            let mut k: usize = 0;
            while k <= x
                invariant
                    x < REGISTER_COUNT,
                    k <= x + 1,
                    self.i + x + 1 <= MEMORY_SIZE,
                    self@ == (Machine { memory: store(m0.memory, m0.i, m0.v.subrange(0, k as int)), ..m0 }),
                decreases x + 1 - k,
            {
                self.memory[self.i + k] = self.vx[k];
                k = k + 1;
                assert(self@.memory =~= store(m0.memory, m0.i, m0.v.subrange(0, k as int)));
            }
            self.i = self.i + x + 1;
        } else if nn == 0x65 {
            if self.i + x + 1 > MEMORY_SIZE {
                return Err(Fault::MemoryOutOfRange);
            }
            let mut k: usize = 0;
            while k <= x
                invariant
                    x < REGISTER_COUNT,
                    k <= x + 1,
                    self.i + x + 1 <= MEMORY_SIZE,
                    self@ == (Machine { v: store(m0.v, 0, m0.memory.subrange(m0.i, m0.i + k)), ..m0 }),
                decreases x + 1 - k,
            {
                self.vx[k] = self.memory[self.i + k];
                k = k + 1;
                assert(self@.v =~= store(m0.v, 0, m0.memory.subrange(m0.i, m0.i + k)));
            }
            self.i = self.i + x + 1;
        }
        self.pc = self.pc + 2;
        Ok(())
    }

    fn execute_opcode(&mut self, op: u16, rnd: u8) -> (r: Result<(), Fault>)
        requires
            old(self).wf(),
        ensures
            step_outcome(old(self)@, final(self)@, r, execute(old(self)@, op, rnd)),
    {
        let family = op_family(op);
        if family == 0x0 {
            self.op_0xxx(op)
        } else if family == 0x1 {
            self.op_1xxx(op);
            Ok(())
        } else if family == 0x2 {
            self.op_2xxx(op)
        } else if family == 0x3 {
            self.op_3xxx(op);
            Ok(())
        } else if family == 0x4 {
            self.op_4xxx(op);
            Ok(())
        } else if family == 0x5 {
            self.op_5xxx(op);
            Ok(())
        } else if family == 0x6 {
            self.op_6xxx(op);
            Ok(())
        } else if family == 0x7 {
            self.op_7xxx(op);
            Ok(())
        } else if family == 0x8 {
            self.op_8xxx(op);
            Ok(())
        } else if family == 0x9 {
            self.op_9xxx(op);
            Ok(())
        } else if family == 0xA {
            self.op_Axxx(op);
            Ok(())
        } else if family == 0xB {
            self.op_Bxxx(op);
            Ok(())
        } else if family == 0xC {
            self.op_Cxxx(op, rnd);
            Ok(())
        } else if family == 0xD {
            self.op_Dxxx(op)
        } else if family == 0xE {
            self.op_Exxx(op);
            Ok(())
        } else {
            self.op_Fxxx(op)
        }
    }

    /// Runs one cycle with `rnd` as the random byte that `Cxnn` masks:
    /// fetches the instruction at the program counter, runs it, and counts
    /// both timers down. On a fault nothing changes.
    pub fn emulate_cycle_with(&mut self, rnd: u8) -> (r: Result<Status, Fault>)
        requires
            old(self).wf(),
        ensures
            final(self).wf(),
            cycle_outcome(old(self)@, rnd, final(self)@, r),
    {
        if self.pc + 1 >= MEMORY_SIZE {
            return Err(Fault::PcOutOfRange);
        }
        let op = self.fetch_opcode();
        proof {
            lemma_execute_valid(self@, op, rnd);
        }
        match self.execute_opcode(op, rnd) {
            Err(f) => {
                return Err(f);
            },
            Ok(()) => {},
        }
        if self.delay_timer > 0 {
            self.delay_timer = self.delay_timer - 1;
        }
        if self.sound_timer > 0 {
            self.sound_timer = self.sound_timer - 1;
        }
        if is_known(op) {
            Ok(Status::Executed)
        } else {
            Ok(Status::UnknownOpcode(op))
        }
    }

    /// Runs one cycle, drawing a random byte when the instruction is `Cxnn`.
    /// The outcome is that of `emulate_cycle_with` for some byte.
    pub fn emulate_cycle(&mut self) -> (r: Result<Status, Fault>)
        requires
            old(self).wf(),
        ensures
            final(self).wf(),
            exists|rnd: u8| cycle_outcome(old(self)@, rnd, final(self)@, r),
            !(old(self)@.pc + 1 < MEMORY_SIZE && family_of(fetch(old(self)@)) == 0xC) ==> cycle_outcome(
                old(self)@,
                0,
                final(self)@,
                r,
            ),
    {
        let mut rnd: u8 = 0;
        if self.pc + 1 < MEMORY_SIZE && op_family(self.fetch_opcode()) == 0xC {
            rnd = random_byte();
        }
        self.emulate_cycle_with(rnd)
    }

    /// The program counter.
    pub fn pc(&self) -> (r: usize)
        ensures
            r == self@.pc,
    {
        self.pc
    }

    /// The index register.
    pub fn index(&self) -> (r: usize)
        ensures
            r == self@.i,
    {
        self.i
    }

    /// Data register `r`.
    pub fn register(&self, r: usize) -> (v: u8)
        requires
            r < REGISTER_COUNT,
        ensures
            v == self@.v[r as int],
    {
        self.vx[r]
    }

    /// The byte at address `a`.
    pub fn memory_at(&self, a: usize) -> (b: u8)
        requires
            a < MEMORY_SIZE,
        ensures
            b == self@.memory[a as int],
    {
        self.memory[a]
    }

    /// How many return addresses are on the call stack.
    pub fn stack_pointer(&self) -> (r: usize)
        ensures
            r == self@.sp,
    {
        self.sp
    }

    pub fn delay_timer(&self) -> (r: u8)
        ensures
            r == self@.delay,
    {
        self.delay_timer
    }

    pub fn sound_timer(&self) -> (r: u8)
        ensures
            r == self@.sound,
    {
        self.sound_timer
    }

} // impl CPU

} // verus!
