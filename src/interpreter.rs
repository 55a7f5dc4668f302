use vstd::prelude::*;

use rand::Rng;

use crate::alu::{add_with_carry, bcd, sub_with_borrow};
use crate::display::{Display, HEIGHT};
use crate::error::Chip8Error;
use crate::keypad::{Keypad, KEY_COUNT};
use crate::machine::{
    cycle_step, fetch_word, frame, initial_state, op_class, outcome, run, skip_if, step, step_alu,
    step_draw, step_flow, step_misc, step_skip, tick, MachineState,
};
use crate::memory::{Memory, MEMORY_SIZE, PROGRAM_START};
use crate::stack::Stack;

verus! {

/// Address at which execution starts.
pub const START_ADDR: u16 = 0x200;

/// Relies on rand::thread_rng and Rng::gen_range: a byte drawn from the
/// thread-local generator. Nothing is known of its value.
#[verifier::external_body]
fn random_byte() -> u8 {
    rand::thread_rng().gen_range(0..=255)
}

/// Once a run has failed, further cycles change nothing.
proof fn lemma_run_stops(s: MachineState, randoms: Seq<u8>, extra: Seq<u8>)
    requires
        run(s, randoms).1 is Some,
    ensures
        run(s, randoms + extra) == run(s, randoms),
    decreases extra.len(),
{
    if extra.len() == 0 {
        assert(randoms + extra =~= randoms);
    } else {
        lemma_run_stops(s, randoms, extra.drop_last());
        assert((randoms + extra).drop_last() =~= randoms + extra.drop_last());
    }
}

/// The whole machine: memory, display, registers, stack, timers and keypad.
pub struct Interpreter {
    /// Cycles run by each call of `update`.
    pub cycles_per_frame: u16,
    pub memory: Memory,
    pub display: Display,
    /// Program counter.
    pub pc: u16,
    /// Index register.
    pub i: u16,
    pub stack: Stack,
    pub delay_timer: u8,
    pub sound_timer: u8,
    /// General registers V0 to VF.
    pub v: [u8; 16],
    pub keypad: Keypad,
}

impl View for Interpreter {
    type V = MachineState;

    open spec fn view(&self) -> MachineState {
        MachineState {
            memory: self.memory@,
            display: self.display@,
            pc: self.pc,
            i: self.i,
            stack: self.stack@,
            delay_timer: self.delay_timer,
            sound_timer: self.sound_timer,
            v: self.v@,
            keypad: self.keypad@,
            cycles_per_frame: self.cycles_per_frame,
        }
    }
}

impl Interpreter {
    /// A machine in its initial state that runs `cycles_per_frame` cycles per frame.
    pub fn new(cycles_per_frame: u16) -> (r: Self)
        ensures
            r@ == initial_state(cycles_per_frame),
    {
        let r = Self {
            cycles_per_frame,
            memory: Memory::new(),
            display: Display::new(),
            pc: START_ADDR,
            i: 0,
            stack: Stack::new(),
            delay_timer: 0,
            sound_timer: 0,
            v: [0; 16],
            keypad: Keypad::new(),
        };
        assert(r.v@ =~= Seq::new(16, |k: int| 0u8));
        r
    }

    /// Returns every component to its initial state.
    pub fn reset(&mut self)
        ensures
            final(self)@ == initial_state(old(self)@.cycles_per_frame),
    {
        *self = Self::new(self.cycles_per_frame);
    }

    /// Loads a program at 0x200; fails with `RomTooLarge`, changing nothing,
    /// when it is longer than 3584 bytes.
    pub fn load(&mut self, rom: &[u8]) -> (r: Result<(), Chip8Error>)
        ensures
            rom@.len() <= crate::memory::MAX_PROGRAM_SIZE ==> r == Ok::<(), Chip8Error>(())
                && final(self)@ == (MachineState {
                memory: crate::memory::loaded(old(self)@.memory, rom@),
                ..old(self)@
            }),
            rom@.len() > crate::memory::MAX_PROGRAM_SIZE ==> r == Err::<(), Chip8Error>(
                Chip8Error::RomTooLarge,
            ) && final(self)@ == old(self)@,
    {
        self.memory.load(rom)
    }

    fn skip_if(&mut self, cond: bool)
        ensures
            final(self)@ == skip_if(old(self)@, cond),
    {
        if cond {
            self.pc = self.pc.wrapping_add(2);
        }
    }

    fn execute_flow(&mut self, ins: u16) -> (r: Result<(), Chip8Error>)
        requires
            op_class(ins) == 0 || op_class(ins) == 1 || op_class(ins) == 2 || op_class(ins) == 0xA
                || op_class(ins) == 0xB,
        ensures
            outcome(old(self)@, final(self)@, r, step_flow(old(self)@, ins)),
    {
        let c = ins / 4096;
        let nnn = ins % 4096;
        if ins == 0x00E0 {
            self.display.clear();
        } else if ins == 0x00EE {
            let a = self.stack.pop()?;
            self.pc = a;
        } else if c == 1 {
            self.pc = nnn;
        } else if c == 2 {
            self.stack.push(self.pc)?;
            self.pc = nnn;
        } else if c == 0xA {
            self.i = nnn;
        } else if c == 0xB {
            self.pc = self.v[0] as u16 + nnn;
        } else {
            return Err(Chip8Error::UnknownOpcode(ins));
        }
        Ok(())
    }

    fn execute_skip(&mut self, ins: u16) -> (r: Result<(), Chip8Error>)
        requires
            op_class(ins) == 3 || op_class(ins) == 4 || op_class(ins) == 5 || op_class(ins) == 9
                || op_class(ins) == 0xE,
        ensures
            outcome(old(self)@, final(self)@, r, step_skip(old(self)@, ins)),
    {
        let c = ins / 4096;
        let vx = self.v[((ins / 256) % 16) as usize];
        let vy = self.v[((ins / 16) % 16) as usize];
        let nn = (ins % 256) as u8;
        let n = ins % 16;
        if c == 3 {
            self.skip_if(vx == nn);
        } else if c == 4 {
            self.skip_if(vx != nn);
        } else if c == 5 && n == 0 {
            self.skip_if(vx == vy);
        } else if c == 9 && n == 0 {
            self.skip_if(vx != vy);
        } else if c == 0xE && nn == 0x9E {
            let down = (vx as usize) < KEY_COUNT && self.keypad.is_down(vx);
            self.skip_if(down);
        } else if c == 0xE && nn == 0xA1 {
            let down = (vx as usize) < KEY_COUNT && self.keypad.is_down(vx);
            self.skip_if(!down);
        } else {
            return Err(Chip8Error::UnknownOpcode(ins));
        }
        Ok(())
    }

    fn execute_alu(&mut self, ins: u16) -> (r: Result<(), Chip8Error>)
        requires
            op_class(ins) == 6 || op_class(ins) == 7 || op_class(ins) == 8,
        ensures
            outcome(old(self)@, final(self)@, r, step_alu(old(self)@, ins)),
    {
        let c = ins / 4096;
        let x = ((ins / 256) % 16) as usize;
        let y = ((ins / 16) % 16) as usize;
        let n = ins % 16;
        let nn = (ins % 256) as u8;
        let vx = self.v[x];
        let vy = self.v[y];
        if c == 6 {
            self.v[x] = nn;
        } else if c == 7 {
            self.v[x] = add_with_carry(vx, nn).0;
        } else if n == 0 {
            self.v[x] = vy;
        } else if n == 1 {
            self.v[x] = vx | vy;
        } else if n == 2 {
            self.v[x] = vx & vy;
        } else if n == 3 {
            self.v[x] = vx ^ vy;
        } else if n == 4 {
            let (sum, carry) = add_with_carry(vx, vy);
            self.v[x] = sum;
            self.v[15] = if carry { 1 } else { 0 };
        } else if n == 5 {
            let (diff, no_borrow) = sub_with_borrow(vx, vy);
            self.v[x] = diff;
            self.v[15] = if no_borrow { 1 } else { 0 };
        } else if n == 7 {
            let (diff, no_borrow) = sub_with_borrow(vy, vx);
            self.v[x] = diff;
            self.v[15] = if no_borrow { 1 } else { 0 };
        } else if n == 6 {
            // Both shifts work on VX itself; VY is not read.
            self.v[15] = vx % 2;
            let cur = self.v[x];
            self.v[x] = cur / 2;
        } else if n == 0xE {
            self.v[15] = vx / 128;
            let cur = self.v[x];
            self.v[x] = ((cur as u16 * 2) % 256) as u8;
        } else {
            return Err(Chip8Error::UnknownOpcode(ins));
        }
        Ok(())
    }

    fn execute_draw(&mut self, ins: u16) -> (r: Result<(), Chip8Error>)
        requires
            op_class(ins) == 0xD,
        ensures
            outcome(old(self)@, final(self)@, r, step_draw(old(self)@, ins)),
    {
        let n = (ins % 16) as usize;
        let vx = self.v[((ins / 256) % 16) as usize];
        let vy = self.v[((ins / 16) % 16) as usize];
        let start = self.i as usize;
        proof {
            self.memory.lemma_view_len();
        }
        if n > 0 && start + n > MEMORY_SIZE {
            return Err(Chip8Error::MemoryOutOfBounds(start + n - 1));
        }
        let sprite = if n == 0 {
            Vec::new()
        } else {
            self.memory.read_range(start, n)
        };
        assert(sprite@ =~= Seq::new(n as nat, |k: int| self@.memory[start + k]));
        let collision = self.display.draw_sprite(sprite.as_slice(), vx, vy);
        self.v[15] = if collision { 1 } else { 0 };
        Ok(())
    }

    fn execute_misc(&mut self, ins: u16) -> (r: Result<(), Chip8Error>)
        requires
            op_class(ins) == 0xF,
        ensures
            outcome(old(self)@, final(self)@, r, step_misc(old(self)@, ins)),
    {
        let x = ((ins / 256) % 16) as usize;
        let nn = (ins % 256) as u8;
        let vx = self.v[x];
        let start = self.i as usize;
        proof {
            self.memory.lemma_view_len();
        }
        if nn == 0x07 {
            self.v[x] = self.delay_timer;
        } else if nn == 0x15 {
            self.delay_timer = vx;
        } else if nn == 0x18 {
            self.sound_timer = vx;
        } else if nn == 0x1E {
            let sum: u32 = self.i as u32 + vx as u32;
            self.i = (sum % 0x10000) as u16;
            self.v[15] = if sum > 0xFFFF { 1 } else { 0 };
        } else if nn == 0x0A {
            // The key that is down now is captured, and the wait ends only
            // once that same key is released; with no key down the
            // instruction is run again on the next cycle.
            match self.keypad.wait_for_key() {
                Some(k) => {
                    self.keypad.begin_wait(x, k);
                },
                None => {
                    self.pc = self.pc.wrapping_sub(2);
                },
            }
        } else if nn == 0x29 {
            self.i = vx as u16 * 5;
        } else if nn == 0x33 {
            if start + 2 >= MEMORY_SIZE {
                return Err(Chip8Error::MemoryOutOfBounds(start + 2));
            }
            let (hundreds, tens, units) = bcd(vx);
            let _ = self.memory.write(start, hundreds);
            let _ = self.memory.write(start + 1, tens);
            let _ = self.memory.write(start + 2, units);
        } else if nn == 0x55 {
            if start + x >= MEMORY_SIZE {
                return Err(Chip8Error::MemoryOutOfBounds(start + x));
            }
            let ghost s0 = self@;
            let mut k: usize = 0;
            while k <= x
                invariant
                    x < 16,
                    start + x < MEMORY_SIZE,
                    start == s0.i,
                    k <= x + 1,
                    self@ == (MachineState { memory: self@.memory, ..s0 }),
                    self@.memory.len() == MEMORY_SIZE,
                    s0.memory.len() == MEMORY_SIZE,
                    forall|a: int|
                        0 <= a < MEMORY_SIZE ==> self@.memory[a] == if start <= a < start + k {
                            s0.v[a - start]
                        } else {
                            s0.memory[a]
                        },
                decreases x + 1 - k,
            {
                let _ = self.memory.write(start + k, self.v[k]);
                k = k + 1;
            }
            assert(self@.memory =~= Seq::new(
                s0.memory.len(),
                |a: int|
                    if s0.i <= a <= s0.i + x {
                        s0.v[a - s0.i]
                    } else {
                        s0.memory[a]
                    },
            ));
        } else if nn == 0x65 {
            if start + x >= MEMORY_SIZE {
                return Err(Chip8Error::MemoryOutOfBounds(start + x));
            }
            let ghost s0 = self@;
            let mut k: usize = 0;
            while k <= x
                invariant
                    x < 16,
                    start + x < MEMORY_SIZE,
                    start == s0.i,
                    k <= x + 1,
                    self@ == (MachineState { v: self@.v, ..s0 }),
                    self@.v.len() == 16,
                    s0.memory.len() == MEMORY_SIZE,
                    forall|j: int|
                        0 <= j < 16 ==> self@.v[j] == if j < k {
                            s0.memory[start + j]
                        } else {
                            s0.v[j]
                        },
                decreases x + 1 - k,
            {
                let b = self.memory.read(start + k);
                if let Ok(b) = b {
                    self.v[k] = b;
                }
                k = k + 1;
            }
            assert(self@.v =~= Seq::new(
                16,
                |j: int|
                    if j <= x {
                        s0.memory[s0.i + j]
                    } else {
                        s0.v[j]
                    },
            ));
        } else {
            return Err(Chip8Error::UnknownOpcode(ins));
        }
        Ok(())
    }

    /// Reads the instruction at PC and moves PC past it.
    fn fetch(&mut self) -> (r: u16)
        requires
            old(self).pc + 1 < MEMORY_SIZE,
        ensures
            r == fetch_word(old(self)@.memory, old(self).pc as int),
            final(self)@ == (MachineState { pc: (old(self).pc + 2) as u16, ..old(self)@ }),
    {
        let a = self.pc as usize;
        let hi = match self.memory.read(a) {
            Ok(b) => b,
            Err(_) => 0,
        };
        let lo = match self.memory.read(a + 1) {
            Ok(b) => b,
            Err(_) => 0,
        };
        self.pc = self.pc + 2;
        (hi as u16) * 256 + lo as u16
    }

    /// One cycle, with `random` as the byte for a random instruction: while
    /// a key wait is pending, ends it once the captured key is up;
    /// otherwise fetches and executes the instruction at PC. Fails with
    /// the state unchanged.
    pub fn cycle_with_random(&mut self, random: u8) -> (r: Result<(), Chip8Error>)
        ensures
            outcome(old(self)@, final(self)@, r, cycle_step(old(self)@, random)),
            final(self).cycles_per_frame == old(self).cycles_per_frame,
    {
        reveal(cycle_step);
        if self.keypad.is_waiting() {
            let key = self.keypad.held_key();
            if !self.keypad.is_down(key) {
                let reg = self.keypad.register();
                self.keypad.end_wait();
                self.v[reg] = key;
            }
            return Ok(());
        }
        let pc = self.pc;
        if pc as usize + 1 >= MEMORY_SIZE {
            return Err(Chip8Error::MemoryOutOfBounds(pc as usize + 1));
        }
        let ins = self.fetch();
        match self.execute_with_random(ins, random) {
            Ok(()) => Ok(()),
            Err(e) => {
                self.pc = pc;
                Err(e)
            },
        }
    }

    /// One cycle; a random instruction draws its byte from the thread-local
    /// generator. Fails with the state unchanged.
    pub fn cycle(&mut self) -> (r: Result<(), Chip8Error>)
        ensures
            exists|random: u8| outcome(old(self)@, final(self)@, r, #[trigger] cycle_step(old(self)@, random)),
            final(self).cycles_per_frame == old(self).cycles_per_frame,
    {
        let random = random_byte();
        self.cycle_with_random(random)
    }

    fn tick_timers(&mut self)
        ensures
            final(self)@ == tick(old(self)@),
    {
        if self.delay_timer > 0 {
            self.delay_timer = self.delay_timer - 1;
        }
        if self.sound_timer > 0 {
            self.sound_timer = self.sound_timer - 1;
        }
    }

    /// One frame: `cycles_per_frame` cycles, then both timers tick once.
    /// On the first failing cycle it stops and returns that error, leaving
    /// the state reached by the cycles before it.
    pub fn update(&mut self) -> (r: Result<(), Chip8Error>)
        ensures
            exists|randoms: Seq<u8>|
                randoms.len() == old(self)@.cycles_per_frame && #[trigger] frame(old(self)@, randoms) == (
                final(self)@,
                match r {
                    Ok(()) => None::<Chip8Error>,
                    Err(e) => Some(e),
                },
            ),
    {
        let ghost s0 = self@;
        let ghost mut rs: Seq<u8> = Seq::empty();
        let mut failure: Option<Chip8Error> = None;
        let mut k: u16 = 0;
        while k < self.cycles_per_frame && failure.is_none()
            invariant
                k <= self.cycles_per_frame,
                self.cycles_per_frame == s0.cycles_per_frame,
                rs.len() == k,
                run(s0, rs) == (self@, failure),
            decreases self.cycles_per_frame - k,
        {
            let ghost before = self@;
            let res = self.cycle();
            let ghost rnd = choose|random: u8| outcome(before, self@, res, #[trigger] cycle_step(before, random));
            proof {
                let prev = rs;
                rs = rs.push(rnd);
                assert(rs.drop_last() =~= prev);
            }
            if let Err(e) = res {
                failure = Some(e);
            }
            k = k + 1;
        }
        if let Some(e) = failure {
            proof {
                let extra = Seq::new((s0.cycles_per_frame - k) as nat, |j: int| 0u8);
                lemma_run_stops(s0, rs, extra);
                assert(frame(s0, rs + extra) == (self@, Some(e)));
                assert((rs + extra).len() == s0.cycles_per_frame);
            }
            return Err(e);
        }
        self.tick_timers();
        assert(frame(s0, rs) == (self@, None::<Chip8Error>));
        Ok(())
    }

    /// Executes `ins`, using `random` as the byte that a random
    /// instruction (CXNN) draws; fails with the state unchanged.
    pub fn execute_with_random(&mut self, ins: u16, random: u8) -> (r: Result<(), Chip8Error>)
        ensures
            outcome(old(self)@, final(self)@, r, step(old(self)@, ins, random)),
            final(self).cycles_per_frame == old(self).cycles_per_frame,
    {
        reveal(step);
        let c = ins / 4096;
        if c == 0 || c == 1 || c == 2 || c == 0xA || c == 0xB {
            self.execute_flow(ins)
        } else if c == 3 || c == 4 || c == 5 || c == 9 || c == 0xE {
            self.execute_skip(ins)
        } else if c == 6 || c == 7 || c == 8 {
            self.execute_alu(ins)
        } else if c == 0xC {
            let x = ((ins / 256) % 16) as usize;
            self.v[x] = random & (ins % 256) as u8;
            Ok(())
        } else if c == 0xD {
            self.execute_draw(ins)
        } else {
            self.execute_misc(ins)
        }
    }

    /// Executes `ins`; a random instruction draws its byte from the
    /// thread-local generator. Fails with the state unchanged.
    pub fn execute(&mut self, ins: u16) -> (r: Result<(), Chip8Error>)
        ensures
            exists|random: u8| outcome(old(self)@, final(self)@, r, #[trigger] step(old(self)@, ins, random)),
    {
        let random = if ins / 4096 == 0xC {
            random_byte()
        } else {
            0
        };
        self.execute_with_random(ins, random)
    }
}

} // verus!
