use vstd::prelude::*;

use crate::error::Chip8Error;

verus! {

/// Size of the address space in bytes.
pub const MEMORY_SIZE: usize = 4096;

/// Address at which programs are loaded and execution starts.
pub const PROGRAM_START: usize = 0x200;

/// Largest program that fits between `PROGRAM_START` and the end of memory.
pub const MAX_PROGRAM_SIZE: usize = 3584;

/// The sixteen 5-byte hex-digit glyphs stored at address 0.
pub open spec fn font() -> Seq<u8> {
    seq![
        0xF0u8, 0x90, 0x90, 0x90, 0xF0, 0x20, 0x60, 0x20, 0x20, 0x70,
        0xF0, 0x10, 0xF0, 0x80, 0xF0, 0xF0, 0x10, 0xF0, 0x10, 0xF0,
        0x90, 0x90, 0xF0, 0x10, 0x10, 0xF0, 0x80, 0xF0, 0x10, 0xF0,
        0xF0, 0x80, 0xF0, 0x90, 0xF0, 0xF0, 0x10, 0x20, 0x40, 0x40,
        0xF0, 0x90, 0xF0, 0x90, 0xF0, 0xF0, 0x90, 0xF0, 0x10, 0xF0,
        0xF0, 0x90, 0xF0, 0x90, 0x90, 0xE0, 0x90, 0xE0, 0x90, 0xE0,
        0xF0, 0x80, 0x80, 0x80, 0xF0, 0xE0, 0x90, 0x90, 0x90, 0xE0,
        0xF0, 0x80, 0xF0, 0x80, 0xF0, 0xF0, 0x80, 0xF0, 0x80, 0x80
    ]
}

/// The contents of freshly initialised memory: the font, then zeros.
pub open spec fn initial_memory() -> Seq<u8> {
    Seq::new(MEMORY_SIZE as nat, |a: int| if a < 80 { font()[a] } else { 0u8 })
}

/// A flat 4096-byte address space.
pub struct Memory {
    bytes: [u8; 4096],
}

impl View for Memory {
    type V = Seq<u8>;

    closed spec fn view(&self) -> Seq<u8> {
        self.bytes@
    }
}

impl Memory {
    /// The view always holds the whole address space.
    pub proof fn lemma_view_len(&self)
        ensures
            self@.len() == MEMORY_SIZE,
    {
    }

    /// Memory holding the font glyphs at 0x000..0x050 and zeros elsewhere.
    pub fn new() -> (r: Self)
        ensures
            r@ == initial_memory(),
    {
        let glyphs: [u8; 80] = [
            0xF0, 0x90, 0x90, 0x90, 0xF0, 0x20, 0x60, 0x20, 0x20, 0x70,
            0xF0, 0x10, 0xF0, 0x80, 0xF0, 0xF0, 0x10, 0xF0, 0x10, 0xF0,
            0x90, 0x90, 0xF0, 0x10, 0x10, 0xF0, 0x80, 0xF0, 0x10, 0xF0,
            0xF0, 0x80, 0xF0, 0x90, 0xF0, 0xF0, 0x10, 0x20, 0x40, 0x40,
            0xF0, 0x90, 0xF0, 0x90, 0xF0, 0xF0, 0x90, 0xF0, 0x10, 0xF0,
            0xF0, 0x90, 0xF0, 0x90, 0x90, 0xE0, 0x90, 0xE0, 0x90, 0xE0,
            0xF0, 0x80, 0x80, 0x80, 0xF0, 0xE0, 0x90, 0x90, 0x90, 0xE0,
            0xF0, 0x80, 0xF0, 0x80, 0xF0, 0xF0, 0x80, 0xF0, 0x80, 0x80,
        ];
        assert(glyphs@ =~= font());
        let mut m = Memory { bytes: [0; 4096] };
        let mut a: usize = 0;
        while a < 80
            invariant
                a <= 80,
                glyphs@ == font(),
                forall|k: int| 0 <= k < a ==> m@[k] == font()[k],
                forall|k: int| a <= k < MEMORY_SIZE ==> m@[k] == 0u8,
                m@.len() == MEMORY_SIZE,
            decreases 80 - a,
        {
            m.bytes[a] = glyphs[a];
            a = a + 1;
        }
        assert(m@ =~= initial_memory());
        m
    }

    /// The byte at `addr`; fails with `MemoryOutOfBounds` past 0xFFF.
    pub fn read(&self, addr: usize) -> (r: Result<u8, Chip8Error>)
        ensures
            addr < MEMORY_SIZE ==> r == Ok::<u8, Chip8Error>(self@[addr as int]),
            addr >= MEMORY_SIZE ==> r == Err::<u8, Chip8Error>(Chip8Error::MemoryOutOfBounds(addr)),
    {
        if addr < MEMORY_SIZE {
            Ok(self.bytes[addr])
        } else {
            Err(Chip8Error::MemoryOutOfBounds(addr))
        }
    }

    /// Stores `value` at `addr`; fails with `MemoryOutOfBounds`, changing
    /// nothing, past 0xFFF.
    pub fn write(&mut self, addr: usize, value: u8) -> (r: Result<(), Chip8Error>)
        ensures
            addr < MEMORY_SIZE ==> r == Ok::<(), Chip8Error>(()) && final(self)@ == old(
                self,
            )@.update(addr as int, value),
            addr >= MEMORY_SIZE ==> r == Err::<(), Chip8Error>(Chip8Error::MemoryOutOfBounds(addr))
                && final(self)@ == old(self)@,
    {
        if addr < MEMORY_SIZE {
            self.bytes[addr] = value;
            Ok(())
        } else {
            Err(Chip8Error::MemoryOutOfBounds(addr))
        }
    }

    /// The `len` bytes from `start` on.
    pub fn read_range(&self, start: usize, len: usize) -> (r: Vec<u8>)
        requires
            start + len <= MEMORY_SIZE,
        ensures
            r@ == self@.subrange(start as int, start + len),
    {
        let mut r: Vec<u8> = Vec::new();
        let mut k: usize = 0;
        while k < len
            invariant
                k <= len,
                start + len <= MEMORY_SIZE,
                self@.len() == MEMORY_SIZE,
                r@ == self@.subrange(start as int, start + k),
            decreases len - k,
        {
            r.push(self.bytes[start + k]);
            k = k + 1;
            assert(r@ =~= self@.subrange(start as int, start + k));
        }
        r
    }

    /// Copies `rom` to memory from address 0x200 on; fails with
    /// `RomTooLarge`, changing nothing, if it is longer than 3584 bytes.
    pub fn load(&mut self, rom: &[u8]) -> (r: Result<(), Chip8Error>)
        ensures
            rom@.len() <= MAX_PROGRAM_SIZE ==> r == Ok::<(), Chip8Error>(()) && final(self)@ == loaded(
                old(self)@,
                rom@,
            ),
            rom@.len() > MAX_PROGRAM_SIZE ==> r == Err::<(), Chip8Error>(Chip8Error::RomTooLarge)
                && final(self)@ == old(self)@,
    {
        if rom.len() > MAX_PROGRAM_SIZE {
            return Err(Chip8Error::RomTooLarge);
        }
        let ghost before = self@;
        let mut k: usize = 0;
        while k < rom.len()
            invariant
                k <= rom@.len() <= MAX_PROGRAM_SIZE,
                self@.len() == MEMORY_SIZE,
                before.len() == MEMORY_SIZE,
                forall|a: int|
                    0 <= a < MEMORY_SIZE ==> self@[a] == if PROGRAM_START <= a < PROGRAM_START + k {
                        rom@[a - PROGRAM_START]
                    } else {
                        before[a]
                    },
            decreases rom@.len() - k,
        {
            self.bytes[PROGRAM_START + k] = rom[k];
            k = k + 1;
        }
        assert(self@ =~= loaded(before, rom@));
        Ok(())
    }
}

/// `mem` with `rom` copied in from `PROGRAM_START` on.
pub open spec fn loaded(mem: Seq<u8>, rom: Seq<u8>) -> Seq<u8> {
    Seq::new(
        mem.len(),
        |a: int|
            if PROGRAM_START <= a < PROGRAM_START + rom.len() {
                rom[a - PROGRAM_START]
            } else {
                mem[a]
            },
    )
}

} // verus!
