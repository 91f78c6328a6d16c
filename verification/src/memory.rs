//! The memory unit, the register file and the bounded call stack.

use vstd::prelude::*;

use crate::font::FONT_SET;
use crate::font::FONT_SET_SIZE;

verus! {

/// Maximum number of return addresses the call stack can hold.
pub const STACK_SIZE: usize = 16;

/// Number of addressable bytes in memory.
pub const RAM_SIZE: usize = 0x1000;

/// Address at which the glyph table is seeded.
pub const FONTS_BASE_ADDR: usize = 0x000;

/// Address at which a loaded program image begins.
pub const ROM_BASE_ADDR: usize = 0x200;

/// The register file: sixteen general-purpose 8-bit registers (register 15
/// doubles as the implicit flag output of several instructions), a 16-bit
/// address register, the program counter, and the two countdown timers.
#[derive(Debug)]
pub struct Registers {
    pub v: [u8; 16],
    pub i: u16,
    pub pc: u16,
    pub dt: u8,
    pub st: u8,
}

impl Default for Registers {
    /// All registers, the program counter and both timers start at zero.
    fn default() -> (r: Self)
        ensures
            r.v@ == Seq::<u8>::new(16, |k: int| 0u8),
            r.i == 0,
            r.pc == 0,
            r.dt == 0,
            r.st == 0,
    {
        let r = Registers { v: [0u8; 16], i: 0, pc: 0, dt: 0, st: 0 };
        proof {
            assert(r.v@ =~= Seq::<u8>::new(16, |k: int| 0u8));
        }
        r
    }
}

/// A bounded LIFO of return addresses; its depth never exceeds
/// [`STACK_SIZE`].
#[derive(Debug)]
pub struct Stack {
    vec: Vec<u16>,
}

impl View for Stack {
    type V = Seq<u16>;

    closed spec fn view(&self) -> Seq<u16> {
        self.vec@
    }
}

impl Stack {
    /// Pushes a return address; fails without mutating anything when the
    /// stack already holds [`STACK_SIZE`] addresses.
    pub fn push(&mut self, val: u16) -> (r: Option<()>)
        ensures
            old(self)@.len() < STACK_SIZE ==> r == Some(()) && final(self)@ == old(self)@.push(val),
            old(self)@.len() >= STACK_SIZE ==> r == None::<()> && final(self)@ == old(self)@,
    {
        if self.vec.len() >= STACK_SIZE {
            return None;
        }
        self.vec.push(val);
        Some(())
    }

    /// Pops the most recently pushed address; fails on an empty stack, which
    /// callers must treat as a fatal program-logic error.
    pub fn pop(&mut self) -> (r: Option<u16>)
        ensures
            old(self)@.len() == 0 ==> r == None::<u16> && final(self)@ == old(self)@,
            old(self)@.len() > 0 ==> r == Some(old(self)@.last()) && final(self)@ == old(self)@.drop_last(),
    {
        self.vec.pop()
    }
}

impl Default for Stack {
    /// A new stack is empty.
    fn default() -> (r: Self)
        ensures
            r@ == Seq::<u16>::empty(),
    {
        let r = Stack { vec: Vec::with_capacity(STACK_SIZE) };
        proof {
            assert(r@ =~= Seq::<u16>::empty());
        }
        r
    }
}

/// The memory contents established by a reset: the glyph table at the lowest
/// addresses, the program image starting at [`ROM_BASE_ADDR`] (bytes that
/// would fall past the end of memory are dropped), and zero everywhere else.
pub open spec fn reset_ram(rom: Seq<u8>) -> Seq<u8> {
    Seq::new(RAM_SIZE as nat, |a: int|
        if a < FONT_SET_SIZE {
            FONT_SET[a]
        } else if ROM_BASE_ADDR <= a && a - ROM_BASE_ADDR < rom.len() {
            rom[a - ROM_BASE_ADDR]
        } else {
            0u8
        })
}

/// The 16-bit big-endian word stored at `addr`: the high byte at `addr`, the
/// low byte at `addr + 1`.
pub open spec fn word_at(ram: Seq<u8>, addr: int) -> u16
    recommends
        0 <= addr,
        addr + 1 < ram.len(),
{
    (ram[addr] * 256 + ram[addr + 1]) as u16
}

/// The stack contents after `k` pops.
pub open spec fn after_pops(s: Seq<u16>, k: nat) -> Seq<u16>
    decreases k,
{
    if k == 0 {
        s
    } else {
        after_pops(s.drop_last(), (k - 1) as nat)
    }
}

/// The values `k` successive pops return, in the order they come out.
pub open spec fn pops_of(s: Seq<u16>, k: nat) -> Seq<u16>
    decreases k,
{
    if k == 0 {
        Seq::empty()
    } else {
        seq![s.last()] + pops_of(s.drop_last(), (k - 1) as nat)
    }
}

/// Call/return round trip: a stack holding a sequence of return addresses,
/// popped until empty, returns the addresses in reverse order. The `push`
/// and `pop` contracts tie this to the executable stack: pushing at most
/// [`STACK_SIZE`] addresses onto an empty stack succeeds and makes the
/// stack hold exactly that sequence, one more push fails and changes
/// nothing, and each pop removes and returns the last address.
pub proof fn lemma_stack_round_trip(addrs: Seq<u16>)
    ensures
        pops_of(addrs, addrs.len()) == addrs.reverse(),
        after_pops(addrs, addrs.len()) == Seq::<u16>::empty(),
    decreases addrs.len(),
{
    if addrs.len() == 0 {
        assert(pops_of(addrs, 0) =~= addrs.reverse());
        assert(after_pops(addrs, 0) =~= Seq::<u16>::empty());
    } else {
        lemma_stack_round_trip(addrs.drop_last());
        assert(pops_of(addrs, addrs.len()) =~= addrs.reverse());
    }
}

/// The memory layout after a reset with a program image of any length: the
/// image sits byte for byte at [`ROM_BASE_ADDR`], the glyph table at the
/// bottom, and every byte between the glyph table and the image, and past
/// the image, is zero.
pub proof fn lemma_reset_ram_layout(rom: Seq<u8>, a: int)
    requires
        0 <= a < RAM_SIZE,
    ensures
        0 <= a < FONT_SET_SIZE ==> reset_ram(rom)[a] == FONT_SET[a],
        FONT_SET_SIZE <= a < ROM_BASE_ADDR ==> reset_ram(rom)[a] == 0,
        ROM_BASE_ADDR <= a < ROM_BASE_ADDR + rom.len() ==> reset_ram(rom)[a] == rom[a
            - ROM_BASE_ADDR],
        ROM_BASE_ADDR + rom.len() <= a ==> reset_ram(rom)[a] == 0,
{
}

/// The main memory unit: [`RAM_SIZE`] addressable bytes, together with the
/// held program image from which the program region is re-populated on reset.
#[derive(Debug)]
pub struct Mem {
    pub ram: [u8; RAM_SIZE],
    pub rom: Vec<u8>,
}

impl Mem {
    /// Creates a memory unit holding the given program image, with memory
    /// already reset (glyph table and image in place, the rest zero).
    pub fn new(rom: Vec<u8>) -> (r: Self)
        ensures
            r.rom@ == rom@,
            r.ram@ == reset_ram(rom@),
    {
        let mut mem = Mem { ram: [0u8; RAM_SIZE], rom };
        mem.reset();
        mem
    }

    /// The held program image.
    pub fn rom(&self) -> (r: &[u8])
        ensures
            r@ == self.rom@,
    {
        self.rom.as_slice()
    }

    /// Replaces the held program image and resets memory.
    pub fn load_rom(&mut self, rom: Vec<u8>)
        ensures
            final(self).rom@ == rom@,
            final(self).ram@ == reset_ram(rom@),
    {
        self.rom = rom;
        self.reset();
    }

    /// Re-initializes memory from the held program image: seeds the glyph
    /// table, copies the image to the program region (dropping bytes that
    /// would fall past the end of memory) and zeroes everything else.
    pub fn reset(&mut self)
        ensures
            final(self).rom@ == old(self).rom@,
            final(self).ram@ == reset_ram(old(self).rom@),
    {
        self.ram = [0u8; RAM_SIZE];
        let mut k: usize = 0;
        while k < FONT_SET_SIZE
            invariant
                k <= FONT_SET_SIZE,
                self.rom@ == old(self).rom@,
                self.ram@.len() == RAM_SIZE,
                forall|a: int| 0 <= a < k ==> self.ram@[a] == FONT_SET[a],
                forall|a: int| k <= a < RAM_SIZE ==> self.ram@[a] == 0u8,
            decreases FONT_SET.len() - k,
        {
            self.ram[k] = FONT_SET[k];
            k = k + 1;
        }
        let mut idx: usize = 0;
        while idx < self.rom.len() && idx < RAM_SIZE - ROM_BASE_ADDR
            invariant
                idx <= self.rom@.len(),
                self.rom@ == old(self).rom@,
                self.ram@.len() == RAM_SIZE,
                forall|a: int| 0 <= a < FONT_SET_SIZE ==> self.ram@[a] == FONT_SET[a],
                forall|a: int|
                    ROM_BASE_ADDR <= a < RAM_SIZE && a - ROM_BASE_ADDR < idx
                        ==> self.ram@[a] == self.rom@[a - ROM_BASE_ADDR],
                forall|a: int|
                    FONT_SET_SIZE <= a < RAM_SIZE
                        && !(ROM_BASE_ADDR <= a && a - ROM_BASE_ADDR < idx)
                        ==> self.ram@[a] == 0u8,
            decreases self.rom@.len() - idx,
        {
            let b = self.rom[idx];
            self.ram[ROM_BASE_ADDR + idx] = b;
            idx = idx + 1;
        }
        proof {
            assert(self.ram@ =~= reset_ram(old(self).rom@));
        }
    }

    /// Reads the byte at `addr`; fails when `addr` is past the end of memory.
    pub fn read_byte(&self, addr: usize) -> (r: Option<u8>)
        ensures
            addr < RAM_SIZE ==> r == Some(self.ram@[addr as int]),
            addr >= RAM_SIZE ==> r == None::<u8>,
    {
        if addr >= RAM_SIZE {
            return None;
        }
        Some(self.ram[addr])
    }

    /// Overwrites the byte at `addr`; fails, mutating nothing, when `addr`
    /// is past the end of memory.
    pub fn write_byte(&mut self, addr: usize, val: u8) -> (r: Option<()>)
        ensures
            final(self).rom@ == old(self).rom@,
            addr < RAM_SIZE ==> r == Some(())
                && final(self).ram@ == old(self).ram@.update(addr as int, val),
            addr >= RAM_SIZE ==> r == None::<()> && final(self).ram@ == old(self).ram@,
    {
        if addr < RAM_SIZE {
            self.ram[addr] = val;
            Some(())
        } else {
            None
        }
    }

    /// Reads `n_bytes` consecutive bytes starting at `addr`; fails
    /// atomically, with no partial result, when any byte of the run would be
    /// past the end of memory.
    pub fn read_segment(&self, n_bytes: usize, addr: usize) -> (r: Option<Vec<u8>>)
        ensures
            n_bytes == 0 ==> (r matches Some(s) && s@ == Seq::<u8>::empty()),
            n_bytes > 0 && addr + n_bytes <= RAM_SIZE
                ==> (r matches Some(s) && s@ == self.ram@.subrange(addr as int, addr + n_bytes)),
            n_bytes > 0 && addr + n_bytes > RAM_SIZE ==> r == None::<Vec<u8>>,
    {
        let mut segment = Vec::<u8>::new();
        let mut offset: usize = 0;
        while offset < n_bytes
            invariant
                offset <= n_bytes,
                offset > 0 ==> addr + offset <= RAM_SIZE,
                segment@.len() == offset,
                forall|j: int| 0 <= j < offset ==> segment@[j] == self.ram@[addr + j],
            decreases n_bytes - offset,
        {
            match self.read_byte(addr + offset) {
                Some(b) => segment.push(b),
                None => {
                    return None;
                },
            }
            offset = offset + 1;
        }
        proof {
            if n_bytes == 0 {
                assert(segment@ =~= Seq::<u8>::empty());
            } else {
                assert(segment@ =~= self.ram@.subrange(addr as int, addr + n_bytes));
            }
        }
        Some(segment)
    }

    /// Reads the 16-bit big-endian word beginning at `addr`; fails when
    /// either byte of the word would be past the end of memory.
    pub fn read_word(&self, addr: usize) -> (r: Option<u16>)
        ensures
            addr + 1 < RAM_SIZE ==> r == Some(word_at(self.ram@, addr as int)),
            addr + 1 >= RAM_SIZE ==> r == None::<u16>,
    {
        if addr >= RAM_SIZE || addr + 1 >= RAM_SIZE {
            return None;
        }
        Some((self.ram[addr] as u16) * 256 + (self.ram[addr + 1] as u16))
    }
}

} // verus!
