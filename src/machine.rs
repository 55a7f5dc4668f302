use vstd::prelude::*;

use crate::alu::{add_spec, sub_spec};
use crate::display::{blank, collides, drawn, pixel_index, SIZE};
use crate::error::Chip8Error;
use crate::keypad::{first_down, KeypadState, KEY_COUNT};
use crate::memory::{initial_memory, MEMORY_SIZE, PROGRAM_START};
use crate::stack::STACK_DEPTH;

verus! {

/// The abstract state of the whole machine.
pub ghost struct MachineState {
    pub memory: Seq<u8>,
    pub display: Seq<bool>,
    pub pc: u16,
    pub i: u16,
    pub stack: Seq<u16>,
    pub delay_timer: u8,
    pub sound_timer: u8,
    pub v: Seq<u8>,
    pub keypad: KeypadState,
    pub cycles_per_frame: u16,
}

/// The flag register's index.
pub open spec fn vf() -> int {
    15
}

/// A flag as the byte stored in VF.
pub open spec fn flag(b: bool) -> u8 {
    if b {
        1
    } else {
        0
    }
}

/// Opcode class: the high nibble.
pub open spec fn op_class(ins: u16) -> u16 {
    ins / 4096
}

/// Register operand `x`: the second nibble.
pub open spec fn op_x(ins: u16) -> int {
    ((ins / 256) % 16) as int
}

/// Register operand `y`: the third nibble.
pub open spec fn op_y(ins: u16) -> int {
    ((ins / 16) % 16) as int
}

/// The low nibble.
pub open spec fn op_n(ins: u16) -> u16 {
    ins % 16
}

/// The low byte.
pub open spec fn op_nn(ins: u16) -> u8 {
    (ins % 256) as u8
}

/// The low twelve bits, an address.
pub open spec fn op_nnn(ins: u16) -> u16 {
    ins % 4096
}

/// The machine as constructed and after reset.
pub open spec fn initial_state(cycles_per_frame: u16) -> MachineState {
    MachineState {
        memory: initial_memory(),
        display: blank(),
        pc: PROGRAM_START as u16,
        i: 0,
        stack: Seq::empty(),
        delay_timer: 0,
        sound_timer: 0,
        v: Seq::new(16, |k: int| 0u8),
        keypad: KeypadState {
            keys: Seq::new(KEY_COUNT as nat, |k: int| false),
            waiting: false,
            register: 0,
            down: 0,
        },
        cycles_per_frame,
    }
}

/// `s` with the program counter moved past the next instruction when `cond` holds.
pub open spec fn skip_if(s: MachineState, cond: bool) -> MachineState {
    if cond {
        MachineState { pc: ((s.pc + 2) % 0x10000) as u16, ..s }
    } else {
        s
    }
}

/// Whether key `k` exists and is down; a value above 0xF names no key
/// and so is never down.
pub open spec fn key_down(keys: Seq<bool>, k: u8) -> bool {
    k < KEY_COUNT && keys[k as int]
}

/// Clear, return, jump, call, set I, and jump with offset
/// (classes 0, 1, 2, A and B).
pub open spec fn step_flow(s: MachineState, ins: u16) -> Result<MachineState, Chip8Error> {
    let c = op_class(ins);
    let nnn = op_nnn(ins);
    if ins == 0x00E0 {
        Ok(MachineState { display: blank(), ..s })
    } else if ins == 0x00EE {
        if s.stack.len() == 0 {
            Err(Chip8Error::StackUnderflow)
        } else {
            Ok(MachineState { pc: s.stack.last(), stack: s.stack.drop_last(), ..s })
        }
    } else if c == 1 {
        Ok(MachineState { pc: nnn, ..s })
    } else if c == 2 {
        if s.stack.len() >= STACK_DEPTH {
            Err(Chip8Error::StackOverflow)
        } else {
            Ok(MachineState { pc: nnn, stack: s.stack.push(s.pc), ..s })
        }
    } else if c == 0xA {
        Ok(MachineState { i: nnn, ..s })
    } else if c == 0xB {
        Ok(MachineState { pc: (s.v[0] + nnn) as u16, ..s })
    } else {
        Err(Chip8Error::UnknownOpcode(ins))
    }
}

/// Conditional skips (classes 3, 4, 5, 9 and E).
pub open spec fn step_skip(s: MachineState, ins: u16) -> Result<MachineState, Chip8Error> {
    let c = op_class(ins);
    let vx = s.v[op_x(ins)];
    let vy = s.v[op_y(ins)];
    let nn = op_nn(ins);
    if c == 3 {
        Ok(skip_if(s, vx == nn))
    } else if c == 4 {
        Ok(skip_if(s, vx != nn))
    } else if c == 5 && op_n(ins) == 0 {
        Ok(skip_if(s, vx == vy))
    } else if c == 9 && op_n(ins) == 0 {
        Ok(skip_if(s, vx != vy))
    } else if c == 0xE && nn == 0x9E {
        Ok(skip_if(s, key_down(s.keypad.keys, vx)))
    } else if c == 0xE && nn == 0xA1 {
        Ok(skip_if(s, !key_down(s.keypad.keys, vx)))
    } else {
        Err(Chip8Error::UnknownOpcode(ins))
    }
}

/// The registers after an arithmetic or logic instruction of class 8 with
/// low nibble `n`, or `None` for a low nibble with no such instruction.
pub open spec fn alu_result(v: Seq<u8>, x: int, y: int, n: u16) -> Option<Seq<u8>> {
    let vx = v[x];
    let vy = v[y];
    if n == 0 {
        Some(v.update(x, vy))
    } else if n == 1 {
        Some(v.update(x, vx | vy))
    } else if n == 2 {
        Some(v.update(x, vx & vy))
    } else if n == 3 {
        Some(v.update(x, vx ^ vy))
    } else if n == 4 {
        Some(v.update(x, add_spec(vx, vy).0).update(vf(), flag(add_spec(vx, vy).1)))
    } else if n == 5 {
        Some(v.update(x, sub_spec(vx, vy).0).update(vf(), flag(sub_spec(vx, vy).1)))
    } else if n == 7 {
        Some(v.update(x, sub_spec(vy, vx).0).update(vf(), flag(sub_spec(vy, vx).1)))
    } else if n == 6 {
        let w = v.update(vf(), vx % 2);
        Some(w.update(x, w[x] / 2))
    } else if n == 0xE {
        let w = v.update(vf(), vx / 128);
        Some(w.update(x, ((w[x] * 2) % 256) as u8))
    } else {
        None
    }
}

/// Register loads and arithmetic (classes 6, 7 and 8).
pub open spec fn step_alu(s: MachineState, ins: u16) -> Result<MachineState, Chip8Error> {
    let c = op_class(ins);
    let x = op_x(ins);
    let nn = op_nn(ins);
    if c == 6 {
        Ok(MachineState { v: s.v.update(x, nn), ..s })
    } else if c == 7 {
        Ok(MachineState { v: s.v.update(x, add_spec(s.v[x], nn).0), ..s })
    } else {
        match alu_result(s.v, x, op_y(ins), op_n(ins)) {
            Some(v) => Ok(MachineState { v, ..s }),
            None => Err(Chip8Error::UnknownOpcode(ins)),
        }
    }
}

/// Random byte masked by `nn` (class C), given the byte drawn.
pub open spec fn step_random(s: MachineState, ins: u16, random: u8) -> MachineState {
    MachineState { v: s.v.update(op_x(ins), random & op_nn(ins)), ..s }
}

/// Sprite drawing (class D).
pub open spec fn step_draw(s: MachineState, ins: u16) -> Result<MachineState, Chip8Error> {
    let n = op_n(ins) as int;
    let vx = s.v[op_x(ins)];
    let vy = s.v[op_y(ins)];
    if n > 0 && s.i + n > MEMORY_SIZE {
        Err(Chip8Error::MemoryOutOfBounds((s.i + n - 1) as usize))
    } else {
        let sprite = Seq::new(n as nat, |k: int| s.memory[s.i + k]);
        Ok(
            MachineState {
                display: drawn(s.display, sprite, vx, vy),
                v: s.v.update(vf(), flag(collides(s.display, sprite, vx, vy))),
                ..s
            },
        )
    }
}

/// Timers, index arithmetic, key wait, font, decimal digits, and register
/// stores and loads (class F).
pub open spec fn step_misc(s: MachineState, ins: u16) -> Result<MachineState, Chip8Error> {
    let x = op_x(ins);
    let vx = s.v[x];
    let nn = op_nn(ins);
    if nn == 0x07 {
        Ok(MachineState { v: s.v.update(x, s.delay_timer), ..s })
    } else if nn == 0x15 {
        Ok(MachineState { delay_timer: vx, ..s })
    } else if nn == 0x18 {
        Ok(MachineState { sound_timer: vx, ..s })
    } else if nn == 0x1E {
        let sum = s.i + vx;
        Ok(MachineState { i: (sum % 0x10000) as u16, v: s.v.update(vf(), flag(sum > 0xFFFF)), ..s })
    } else if nn == 0x0A {
        match first_down(s.keypad.keys) {
            Some(k) => Ok(
                MachineState { keypad: KeypadState { waiting: true, register: x, down: k, ..s.keypad }, ..s },
            ),
            None => Ok(MachineState { pc: ((s.pc + 0xFFFE) % 0x10000) as u16, ..s }),
        }
    } else if nn == 0x29 {
        Ok(MachineState { i: (vx * 5) as u16, ..s })
    } else if nn == 0x33 {
        if s.i + 2 >= MEMORY_SIZE {
            Err(Chip8Error::MemoryOutOfBounds((s.i + 2) as usize))
        } else {
            let m = s.memory.update(s.i as int, vx / 100).update(s.i + 1, (vx / 10) % 10).update(
                s.i + 2,
                vx % 10,
            );
            Ok(MachineState { memory: m, ..s })
        }
    } else if nn == 0x55 {
        if s.i + x >= MEMORY_SIZE {
            Err(Chip8Error::MemoryOutOfBounds((s.i + x) as usize))
        } else {
            let m = Seq::new(
                s.memory.len(),
                |a: int|
                    if s.i <= a <= s.i + x {
                        s.v[a - s.i]
                    } else {
                        s.memory[a]
                    },
            );
            Ok(MachineState { memory: m, ..s })
        }
    } else if nn == 0x65 {
        if s.i + x >= MEMORY_SIZE {
            Err(Chip8Error::MemoryOutOfBounds((s.i + x) as usize))
        } else {
            let v = Seq::new(
                16,
                |k: int|
                    if k <= x {
                        s.memory[s.i + k]
                    } else {
                        s.v[k]
                    },
            );
            Ok(MachineState { v, ..s })
        }
    } else {
        Err(Chip8Error::UnknownOpcode(ins))
    }
}

/// The effect of executing instruction `ins`, with `random` as the byte
/// that a random instruction draws.
#[verifier::opaque]
pub open spec fn step(s: MachineState, ins: u16, random: u8) -> Result<MachineState, Chip8Error> {
    let c = op_class(ins);
    if c == 0 || c == 1 || c == 2 || c == 0xA || c == 0xB {
        step_flow(s, ins)
    } else if c == 3 || c == 4 || c == 5 || c == 9 || c == 0xE {
        step_skip(s, ins)
    } else if c == 6 || c == 7 || c == 8 {
        step_alu(s, ins)
    } else if c == 0xC {
        Ok(step_random(s, ins, random))
    } else if c == 0xD {
        step_draw(s, ins)
    } else {
        step_misc(s, ins)
    }
}

/// The instruction word stored big-endian at `pc`.
pub open spec fn fetch_word(memory: Seq<u8>, pc: int) -> u16 {
    (memory[pc] * 256 + memory[pc + 1]) as u16
}

/// One cycle: while a key wait is pending, end it once the captured key
/// is up; otherwise fetch the instruction at PC, advance PC by 2 and
/// execute it.
#[verifier::opaque]
pub open spec fn cycle_step(s: MachineState, random: u8) -> Result<MachineState, Chip8Error> {
    if s.keypad.waiting {
        if !key_down(s.keypad.keys, s.keypad.down) {
            Ok(
                MachineState {
                    v: s.v.update(s.keypad.register, s.keypad.down),
                    keypad: KeypadState { waiting: false, ..s.keypad },
                    ..s
                },
            )
        } else {
            Ok(s)
        }
    } else if s.pc + 1 >= MEMORY_SIZE {
        Err(Chip8Error::MemoryOutOfBounds((s.pc + 1) as usize))
    } else {
        step(MachineState { pc: (s.pc + 2) as u16, ..s }, fetch_word(s.memory, s.pc as int), random)
    }
}

/// Both timers moved one step toward zero.
pub open spec fn tick(s: MachineState) -> MachineState {
    MachineState {
        delay_timer: if s.delay_timer > 0 {
            (s.delay_timer - 1) as u8
        } else {
            0
        },
        sound_timer: if s.sound_timer > 0 {
            (s.sound_timer - 1) as u8
        } else {
            0
        },
        ..s
    }
}

/// Runs one cycle per byte of `randoms`, each with that byte as its random
/// draw, stopping at the first error: the state reached and the error, if any.
pub open spec fn run(s: MachineState, randoms: Seq<u8>) -> (MachineState, Option<Chip8Error>)
    decreases randoms.len(),
{
    if randoms.len() == 0 {
        (s, None)
    } else {
        let (t, e) = run(s, randoms.drop_last());
        if e is Some {
            (t, e)
        } else {
            match cycle_step(t, randoms.last()) {
                Ok(u) => (u, None),
                Err(err) => (t, Some(err)),
            }
        }
    }
}

/// A frame: `cycles_per_frame` cycles, then one timer tick if all of them succeeded.
pub open spec fn frame(s: MachineState, randoms: Seq<u8>) -> (MachineState, Option<Chip8Error>) {
    let (t, e) = run(s, randoms);
    if e is Some {
        (t, e)
    } else {
        (tick(t), None)
    }
}

/// Whether a call returned `r` and left `after` where `expected` describes
/// the step from `before`: on success the new state, on failure the error
/// with the state unchanged.
pub open spec fn outcome(
    before: MachineState,
    after: MachineState,
    r: Result<(), Chip8Error>,
    expected: Result<MachineState, Chip8Error>,
) -> bool {
    match expected {
        Ok(t) => r == Ok::<(), Chip8Error>(()) && after == t,
        Err(e) => r == Err::<(), Chip8Error>(e) && after == before,
    }
}

} // verus!

verus! {

/// Clearing the screen leaves every pixel of the 64x32 grid off.
pub proof fn lemma_clear_all_off(s: MachineState, random: u8, x: int, y: int)
    requires
        0 <= x < 64,
        0 <= y < 32,
    ensures
        step(s, 0x00E0, random) is Ok,
        !step(s, 0x00E0, random)->Ok_0.display[pixel_index(x, y)],
{
    reveal(step);
    assert(0 <= pixel_index(x, y) < SIZE);
}

/// A call followed by a return gives back the machine as it was before the
/// call: the program counter is again the address after the call, and the
/// stack is as before.
pub proof fn lemma_call_return(s: MachineState, target: u16, random: u8)
    requires
        s.stack.len() < STACK_DEPTH,
        target < 0x1000,
    ensures
        step(s, (0x2000 + target) as u16, random) == Ok::<MachineState, Chip8Error>(
            MachineState { pc: target, stack: s.stack.push(s.pc), ..s },
        ),
        step(step(s, (0x2000 + target) as u16, random)->Ok_0, 0x00EE, random) == Ok::<
            MachineState,
            Chip8Error,
        >(s),
{
    reveal(step);
    let t = MachineState { pc: target, stack: s.stack.push(s.pc), ..s };
    assert(t.stack.drop_last() =~= s.stack);
}

/// A random instruction with a zero mask clears its register, whatever
/// byte is drawn.
pub proof fn lemma_random_zero_mask(s: MachineState, x: u16, random: u8)
    requires
        x < 16,
    ensures
        step(s, (0xC000 + x * 256) as u16, random) == Ok::<MachineState, Chip8Error>(
            MachineState { v: s.v.update(x as int, 0), ..s },
        ),
{
    reveal(step);
    assert(random & 0u8 == 0) by (bit_vector);
}

/// Whether the cycle run from `s` executes an instruction that sets a
/// timer (FX15 or FX18).
pub open spec fn writes_timer(s: MachineState) -> bool {
    let w = fetch_word(s.memory, s.pc as int);
    !s.keypad.waiting && s.pc + 1 < MEMORY_SIZE && op_class(w) == 0xF && (op_nn(w) == 0x15 || op_nn(
        w,
    ) == 0x18)
}

/// Executing instructions never moves a timer unless the instruction sets it.
pub proof fn lemma_cycle_keeps_timers(s: MachineState, random: u8)
    requires
        !writes_timer(s),
        cycle_step(s, random) is Ok,
    ensures
        cycle_step(s, random)->Ok_0.delay_timer == s.delay_timer,
        cycle_step(s, random)->Ok_0.sound_timer == s.sound_timer,
{
    reveal(cycle_step);
    reveal(step);
}

proof fn lemma_run_keeps_timers(s: MachineState, randoms: Seq<u8>)
    requires
        forall|k: int| 0 <= k < randoms.len() ==> !writes_timer(#[trigger] run(s, randoms.take(k)).0),
        run(s, randoms).1 is None,
    ensures
        run(s, randoms).0.delay_timer == s.delay_timer,
        run(s, randoms).0.sound_timer == s.sound_timer,
    decreases randoms.len(),
{
    if randoms.len() > 0 {
        let prev = randoms.drop_last();
        assert forall|k: int| 0 <= k < prev.len() implies !writes_timer(#[trigger] run(s, prev.take(k)).0) by {
            assert(prev.take(k) =~= randoms.take(k));
            assert(!writes_timer(run(s, randoms.take(k)).0));
        }
        assert(run(s, prev).1 is None);
        lemma_run_keeps_timers(s, prev);
        assert(randoms.take(prev.len() as int) =~= prev);
        assert(!writes_timer(run(s, randoms.take(prev.len() as int)).0));
        lemma_cycle_keeps_timers(run(s, prev).0, randoms.last());
    }
}

/// However many cycles a frame runs, when none of them sets a timer the
/// frame moves each timer exactly one step toward zero.
pub proof fn lemma_frame_ticks_once(s: MachineState, randoms: Seq<u8>)
    requires
        forall|k: int| 0 <= k < randoms.len() ==> !writes_timer(#[trigger] run(s, randoms.take(k)).0),
        frame(s, randoms).1 is None,
    ensures
        frame(s, randoms).0.delay_timer == tick(s).delay_timer,
        frame(s, randoms).0.sound_timer == tick(s).sound_timer,
{
    lemma_run_keeps_timers(s, randoms);
}

} // verus!
