//! The machine behind one front door: a processor plus the keypad the
//! external input collaborator feeds.

use vstd::prelude::*;

use crate::cpu::CPU;
use crate::cpu::CpuState;
use crate::cpu::Fault;
use crate::cpu::cleared;
use crate::cpu::exec_matches;
use crate::cpu::fault_msg;
use crate::cpu::modern_quirks;
use crate::cpu::reset_view;
use crate::input::KeyBoard;
use crate::memory::Mem;
use crate::memory::RAM_SIZE;
use crate::memory::word_at;

verus! {

/// A whole machine: the processor and the keypad state it consults.
pub struct Interpreter {
    pub cpu: CPU,
    pub keyboard: KeyBoard,
}

impl Interpreter {
    /// A machine with an empty program image, reset and with no key
    /// pressed.
    pub fn new() -> (r: Self)
        ensures
            r.cpu@ == reset_view(Seq::empty(), modern_quirks()),
            r.cpu.mem.rom@ == Seq::<u8>::empty(),
            r.keyboard@ == None::<u8>,
    {
        let mem = Mem::new(Vec::new());
        Interpreter { cpu: CPU::new(mem), keyboard: KeyBoard::new() }
    }

    /// Replaces the program image and resets the whole machine.
    pub fn load_rom(&mut self, rom: Vec<u8>)
        ensures
            final(self).cpu@ == reset_view(rom@, old(self).cpu.quirks),
            final(self).cpu.mem.rom@ == rom@,
            final(self).keyboard == old(self).keyboard,
    {
        self.cpu.load_rom(rom);
    }

    /// Feeds the current key state: a key code now pressed, or `None` for
    /// nothing pressed.
    pub fn feed_key(&mut self, key: Option<u8>)
        ensures
            final(self).keyboard@ == key,
            final(self).cpu == old(self).cpu,
    {
        self.keyboard.feed_key(key);
    }

    /// Executes one instruction against the current keypad state.
    #[verifier::rlimit(100)]
    pub fn tick(&mut self) -> (r: CpuState)
        ensures
            final(self).keyboard == old(self).keyboard,
            final(self).cpu.mem.rom@ == old(self).cpu.mem.rom@,
            old(self).cpu@.pc >= RAM_SIZE ==> r is Finished && final(self).cpu == old(self).cpu,
            old(self).cpu@.pc < RAM_SIZE && old(self).cpu@.pc + 1 >= RAM_SIZE
                ==> (r matches CpuState::Error(m) && m@ == fault_msg(Fault::FetchOutOfRange, 0))
                    && final(self).cpu@ == cleared(old(self).cpu@),
            old(self).cpu@.pc + 1 < RAM_SIZE ==> exists|rnd: u8|
                #[trigger] exec_matches(
                    cleared(old(self).cpu@),
                    word_at(old(self).cpu@.ram, old(self).cpu@.pc as int),
                    old(self).keyboard@,
                    rnd,
                    final(self).cpu@,
                    r,
                ),
    {
        let r = self.cpu.tick(&self.keyboard);
        proof {
            if old(self).cpu@.pc + 1 < RAM_SIZE {
                let rnd = choose|rnd: u8|
                    exec_matches(
                        cleared(old(self).cpu@),
                        word_at(old(self).cpu@.ram, old(self).cpu@.pc as int),
                        old(self).keyboard@,
                        rnd,
                        self.cpu@,
                        r,
                    );
                assert(exec_matches(
                    cleared(old(self).cpu@),
                    word_at(old(self).cpu@.ram, old(self).cpu@.pc as int),
                    old(self).keyboard@,
                    rnd,
                    self.cpu@,
                    r,
                ));
            }
        }
        r
    }

    /// Whether the last tick changed the display.
    pub fn vram_changed(&self) -> (r: bool)
        ensures
            r == self.cpu@.drawn,
    {
        self.cpu.vram_changed()
    }
}

} // verus!
