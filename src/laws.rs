//! Properties of the instruction set, proved over the machine model.

use vstd::prelude::*;

use crate::cpu::{
    cycle, execute, family_of, fetch, first_down, first_down_from, loaded, n_of, nn_of, nnn_of, tick, valid, x_of,
    y_of, Fault, Machine, FLAG, MEMORY_SIZE, PROGRAM_CAPACITY, PROGRAM_START, STACK_DEPTH,
};
use crate::keypad::key_down;

verus! {

/// The machine after running one cycle for each byte of `rnds` in turn,
/// each byte the random byte of its cycle; or the first fault.
pub open spec fn run(m: Machine, rnds: Seq<u8>) -> Result<Machine, Fault>
    decreases rnds.len(),
{
    if rnds.len() == 0 {
        Ok(m)
    } else {
        match cycle(m, rnds[0]) {
            Ok(n) => run(n, rnds.drop_first()),
            Err(f) => Err(f),
        }
    }
}

/// Whether `op` writes the delay or the sound timer.
pub open spec fn writes_timers(op: u16) -> bool {
    family_of(op) == 0xF && (nn_of(op) == 0x15 || nn_of(op) == 0x18)
}

/// Every cycle of the run from `m` with random bytes `rnds` completes and
/// none of its instructions writes a timer.
pub open spec fn timers_untouched(m: Machine, rnds: Seq<u8>) -> bool
    decreases rnds.len(),
{
    rnds.len() == 0 || (cycle(m, rnds[0]) is Ok && !writes_timers(fetch(m)) && timers_untouched(
        cycle(m, rnds[0])->Ok_0,
        rnds.drop_first(),
    ))
}

/// A timer at `t` after `k` cycles that do not write it.
pub open spec fn counted_down(t: u8, k: int) -> int {
    if t - k > 0 { t - k } else { 0 }
}

/// `8xy4`, with `x` not the flag register: the flag is 1 exactly when the
/// sum exceeds 255, and `Vx` holds the sum modulo 256.
pub proof fn law_add_carry(m: Machine, op: u16, rnd: u8)
    requires
        valid(m),
        family_of(op) == 8,
        n_of(op) == 4,
        x_of(op) != FLAG,
    ensures
        execute(m, op, rnd) is Ok,
        ({
            let n = execute(m, op, rnd)->Ok_0;
            let vx = m.v[x_of(op) as int];
            let vy = m.v[y_of(op) as int];
            &&& (n.v[FLAG as int] == 1) == (vx + vy > 255)
            &&& n.v[FLAG as int] == 0 || n.v[FLAG as int] == 1
            &&& n.v[x_of(op) as int] == (vx + vy) % 256
        }),
{
}

/// `8xy5`, with `x` not the flag register: the flag is 0 exactly when
/// `Vy` exceeds `Vx`, and `Vx` holds the difference modulo 256.
pub proof fn law_sub_borrow(m: Machine, op: u16, rnd: u8)
    requires
        valid(m),
        family_of(op) == 8,
        n_of(op) == 5,
        x_of(op) != FLAG,
    ensures
        execute(m, op, rnd) is Ok,
        ({
            let n = execute(m, op, rnd)->Ok_0;
            let vx = m.v[x_of(op) as int];
            let vy = m.v[y_of(op) as int];
            &&& (n.v[FLAG as int] == 0) == (vy > vx)
            &&& n.v[FLAG as int] == 0 || n.v[FLAG as int] == 1
            &&& n.v[x_of(op) as int] == (vx - vy) % 256
        }),
{
}

/// `8xy6` and `8xyE`, with `x` not the flag register: the flag holds the
/// bit shifted out (the low bit, the high bit), whatever `Vx` becomes.
pub proof fn law_shift_flag(m: Machine, op: u16, rnd: u8)
    requires
        valid(m),
        family_of(op) == 8,
        n_of(op) == 6 || n_of(op) == 0xE,
        x_of(op) != FLAG,
    ensures
        execute(m, op, rnd) is Ok,
        ({
            let n = execute(m, op, rnd)->Ok_0;
            let vx = m.v[x_of(op) as int];
            &&& n_of(op) == 6 ==> n.v[FLAG as int] == vx % 2 && n.v[x_of(op) as int] == vx / 2
            &&& n_of(op) == 0xE ==> n.v[FLAG as int] == vx / 128 && n.v[x_of(op) as int] == (vx * 2) % 256
        }),
{
}

/// `Fx55` then, with the index register set back, `Fx65` for the same `x`
/// leaves every register as it was; each moves the index on by `x + 1`.
pub proof fn law_store_load_round_trip(m: Machine, st: u16, ld: u16, rnd: u8)
    requires
        valid(m),
        family_of(st) == 0xF,
        nn_of(st) == 0x55,
        family_of(ld) == 0xF,
        nn_of(ld) == 0x65,
        x_of(st) == x_of(ld),
        m.i + x_of(st) + 1 <= MEMORY_SIZE,
    ensures
        execute(m, st, rnd) is Ok,
        execute(m, st, rnd)->Ok_0.i == m.i + x_of(st) + 1,
        ({
            let back = Machine { i: m.i, ..execute(m, st, rnd)->Ok_0 };
            &&& execute(back, ld, rnd) is Ok
            &&& execute(back, ld, rnd)->Ok_0.v == m.v
            &&& execute(back, ld, rnd)->Ok_0.i == m.i + x_of(st) + 1
        }),
{
    let x = x_of(st) as int;
    let stored = execute(m, st, rnd)->Ok_0;
    let back = Machine { i: m.i, ..stored };
    assert(execute(back, ld, rnd)->Ok_0.v =~= m.v);
}

/// Whether the skip instruction `op` skips in `m`.
pub open spec fn skip_condition(m: Machine, op: u16) -> bool {
    let vx = m.v[x_of(op) as int];
    let vy = m.v[y_of(op) as int];
    match family_of(op) {
        0x3 => vx as u16 == nn_of(op),
        0x4 => vx as u16 != nn_of(op),
        0x5 => vx == vy,
        0x9 => vx != vy,
        _ => if nn_of(op) == 0x9E {
            key_down(m.keys, vx as int)
        } else {
            !key_down(m.keys, vx as int)
        },
    }
}

/// Whether `op` is one of the conditional skips.
pub open spec fn is_skip(op: u16) -> bool {
    let f = family_of(op);
    f == 3 || f == 4 || f == 5 || f == 9 || (f == 0xE && (nn_of(op) == 0x9E || nn_of(op) == 0xA1))
}

/// A skip moves the program counter on by 4 when its condition holds and by
/// 2 when it does not, and changes nothing else.
pub proof fn law_skip(m: Machine, op: u16, rnd: u8)
    requires
        valid(m),
        is_skip(op),
    ensures
        execute(m, op, rnd) == Ok::<Machine, Fault>(
            Machine { pc: m.pc + if skip_condition(m, op) { 4int } else { 2int }, ..m },
        ),
{
}

/// A call to any address, code that leaves the stack as the call left it,
/// then a return: execution goes on after the call.
pub proof fn law_call_return(m: Machine, call: u16, callee: Machine, rnd: u8)
    requires
        valid(m),
        family_of(call) == 2,
        m.sp < STACK_DEPTH,
        callee.stack == execute(m, call, rnd)->Ok_0.stack,
        callee.sp == execute(m, call, rnd)->Ok_0.sp,
    ensures
        execute(m, call, rnd) is Ok,
        execute(m, call, rnd)->Ok_0.pc == nnn_of(call),
        execute(callee, 0x00EE, rnd) is Ok,
        execute(callee, 0x00EE, rnd)->Ok_0.pc == m.pc + 2,
        execute(callee, 0x00EE, rnd)->Ok_0.sp == m.sp,
{
}

/// A program of `PROGRAM_CAPACITY` bytes or more fills memory from
/// `PROGRAM_START` to the end with its first bytes; memory below, with the
/// font, is untouched, and the program counter is at `PROGRAM_START`.
pub proof fn law_load_fills(m: Machine, game: Seq<u8>)
    requires
        valid(m),
        game.len() >= PROGRAM_CAPACITY,
    ensures
        loaded(m, game).pc == PROGRAM_START,
        loaded(m, game).memory.len() == MEMORY_SIZE,
        forall|k: int| 0 <= k < PROGRAM_CAPACITY ==> #[trigger] loaded(m, game).memory[PROGRAM_START + k] == game[k],
        forall|a: int| 0 <= a < PROGRAM_START ==> #[trigger] loaded(m, game).memory[a] == m.memory[a],
{
}

/// With no key down, a cycle on `Fx0A` stays on that instruction and only
/// the timers move.
pub proof fn law_wait_without_key(m: Machine, rnd: u8)
    requires
        valid(m),
        m.pc + 1 < MEMORY_SIZE,
        family_of(fetch(m)) == 0xF,
        nn_of(fetch(m)) == 0x0A,
        first_down(m.keys) is None,
    ensures
        cycle(m, rnd) == Ok::<Machine, Fault>(tick(m)),
{
}

/// With no key down, any number of cycles on `Fx0A` leave the program
/// counter where it was.
pub proof fn law_wait_repeats(m: Machine, rnds: Seq<u8>)
    requires
        valid(m),
        m.pc + 1 < MEMORY_SIZE,
        family_of(fetch(m)) == 0xF,
        nn_of(fetch(m)) == 0x0A,
        first_down(m.keys) is None,
    ensures
        run(m, rnds) is Ok,
        run(m, rnds)->Ok_0.pc == m.pc,
        run(m, rnds)->Ok_0.v == m.v,
    decreases rnds.len(),
{
    if rnds.len() > 0 {
        law_wait_without_key(m, rnds[0]);
        let n = tick(m);
        assert(fetch(n) == fetch(m));
        law_wait_repeats(n, rnds.drop_first());
    }
}

/// With a key down, a cycle on `Fx0A` stores the lowest such key in `Vx`
/// and moves on by 2.
pub proof fn law_wait_with_key(m: Machine, rnd: u8)
    requires
        valid(m),
        m.pc + 1 < MEMORY_SIZE,
        family_of(fetch(m)) == 0xF,
        nn_of(fetch(m)) == 0x0A,
        first_down(m.keys) is Some,
    ensures
        cycle(m, rnd) is Ok,
        cycle(m, rnd)->Ok_0.pc == m.pc + 2,
        cycle(m, rnd)->Ok_0.v[x_of(fetch(m)) as int] == first_down(m.keys)->Some_0,
        key_down(m.keys, first_down(m.keys)->Some_0),
        forall|k: int| 0 <= k < first_down(m.keys)->Some_0 ==> !key_down(m.keys, k),
{
    lemma_first_down_from(m.keys, 0);
}

proof fn lemma_first_down_from(keys: Seq<bool>, k: int)
    requires
        0 <= k,
        first_down_from(keys, k) is Some,
    ensures
        k <= first_down_from(keys, k)->Some_0 < 16,
        key_down(keys, first_down_from(keys, k)->Some_0),
        forall|j: int| k <= j < first_down_from(keys, k)->Some_0 ==> !key_down(keys, j),
    decreases 16 - k,
{
    if k < 16 && !key_down(keys, k) {
        lemma_first_down_from(keys, k + 1);
    }
}

/// Over cycles that do not write the timers, each timer counts down by one
/// per cycle and stops at zero.
pub proof fn law_timers_count_down(m: Machine, rnds: Seq<u8>)
    requires
        timers_untouched(m, rnds),
    ensures
        run(m, rnds) is Ok,
        run(m, rnds)->Ok_0.delay == counted_down(m.delay, rnds.len() as int),
        run(m, rnds)->Ok_0.sound == counted_down(m.sound, rnds.len() as int),
    decreases rnds.len(),
{
    if rnds.len() > 0 {
        let n = cycle(m, rnds[0])->Ok_0;
        assert(n.delay == counted_down(m.delay, 1));
        assert(n.sound == counted_down(m.sound, 1));
        law_timers_count_down(n, rnds.drop_first());
    }
}

} // verus!
