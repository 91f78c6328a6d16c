//! The decode-execute engine: fetches an instruction at the program
//! counter, decodes it, mutates the machine state accordingly and reports a
//! tick outcome.

use vstd::prelude::*;
use vstd::string::StringExecFns;

use crate::display::Sprite;
use crate::display::Vram;
use crate::display::blank_grid;
use crate::display::blit_collision;
use crate::display::blit_grid;
use crate::input::KeyBoard;
use crate::memory::FONTS_BASE_ADDR;
use crate::memory::Mem;
use crate::memory::RAM_SIZE;
use crate::memory::ROM_BASE_ADDR;
use crate::memory::Registers;
use crate::memory::STACK_SIZE;
use crate::memory::Stack;
use crate::memory::reset_ram;
use crate::memory::word_at;
use crate::font::FONT_UNIT_SIZE;
use rand::Rng;

verus! {

/// Configuration for the points where historical machines of this family
/// genuinely diverged. The defaults give the widely compatible modern
/// behaviour.
#[derive(Debug, Clone, Copy, PartialEq, Eq, Structural)]
pub struct Quirks {
    /// The shift instructions read the value to shift from register Y (the
    /// older behaviour) instead of from register X (the modern default).
    pub shift_source_y: bool,
    /// The bulk transfer instructions advance the address register by X+1
    /// afterwards (the older behaviour) instead of leaving it unchanged
    /// (the modern default).
    pub bulk_advances_i: bool,
    /// A call pushes the address of the call instruction itself instead of
    /// the address of the instruction after it (the modern default).
    pub call_pushes_current: bool,
}

/// The modern behaviour at every divergence point.
pub open spec fn modern_quirks() -> Quirks {
    Quirks { shift_source_y: false, bulk_advances_i: false, call_pushes_current: false }
}

impl Default for Quirks {
    /// The modern behaviour at every divergence point.
    fn default() -> (r: Self)
        ensures
            r == modern_quirks(),
    {
        Quirks { shift_source_y: false, bulk_advances_i: false, call_pushes_current: false }
    }
}

/// A mathematical snapshot of the whole machine: registers, timers, call
/// stack, memory, pixel grid, the display-changed flag, and the configured
/// quirks.
#[verifier::ext_equal]
pub ghost struct MachineView {
    pub v: Seq<u8>,
    pub i: u16,
    pub pc: u16,
    pub dt: u8,
    pub st: u8,
    pub stack: Seq<u16>,
    pub ram: Seq<u8>,
    pub grid: Seq<Seq<u8>>,
    pub drawn: bool,
    pub quirks: Quirks,
}

/// The machine state right after a reset with the given program image.
pub open spec fn reset_view(rom: Seq<u8>, quirks: Quirks) -> MachineView {
    MachineView {
        v: Seq::new(16, |k: int| 0u8),
        i: 0,
        pc: ROM_BASE_ADDR as u16,
        dt: 0,
        st: 0,
        stack: Seq::empty(),
        ram: reset_ram(rom),
        grid: blank_grid(),
        drawn: false,
        quirks,
    }
}

/// The non-overlapping ways a tick can fail: a decode fault for an
/// unrecognized encoding, and the structural faults, each named after the
/// violated invariant.
pub enum Fault {
    /// The instruction encoding matches no recognized operation.
    BadOpcode,
    /// A call was made with the call stack already at its depth limit.
    StackOverflow,
    /// A return was made with the call stack empty.
    StackUnderflow,
    /// The instruction word at the program counter is not entirely inside
    /// memory.
    FetchOutOfRange,
    /// A sprite draw named zero rows of sprite data.
    BadSpriteSize,
    /// A sprite draw named source bytes not entirely inside memory.
    SpriteOutOfRange,
    /// A bulk register load named source bytes not entirely inside memory.
    RegLoadOutOfRange,
}

/// The specified effect of one instruction: the machine afterwards, and the
/// fault, if any. A faulting instruction leaves the machine unchanged.
#[verifier::ext_equal]
pub ghost struct StepSpec {
    pub post: MachineView,
    pub fault: Option<Fault>,
}

/// A successful step.
pub open spec fn step_ok(post: MachineView) -> StepSpec {
    StepSpec { post, fault: None }
}

/// A faulting step: the machine is left as it was.
pub open spec fn step_fault(pre: MachineView, f: Fault) -> StepSpec {
    StepSpec { post: pre, fault: Some(f) }
}

/// The opcode family: the top nibble of the instruction.
pub open spec fn fam_of(ins: u16) -> int {
    ins as int / 0x1000
}

/// The address field: the low 12 bits.
pub open spec fn nnn_of(ins: u16) -> u16 {
    (ins as int % 0x1000) as u16
}

/// The immediate byte: the low 8 bits.
pub open spec fn kk_of(ins: u16) -> u8 {
    (ins as int % 0x100) as u8
}

/// The sub-opcode nibble: the low 4 bits.
pub open spec fn n_of(ins: u16) -> int {
    ins as int % 0x10
}

/// Register index X: bits 8 to 11.
pub open spec fn x_of(ins: u16) -> int {
    (ins as int / 0x100) % 0x10
}

/// Register index Y: bits 4 to 7.
pub open spec fn y_of(ins: u16) -> int {
    (ins as int / 0x10) % 0x10
}

/// The program counter advanced by `d` bytes, wrapping at the 16-bit
/// boundary.
pub open spec fn pc_plus(pc: u16, d: int) -> u16 {
    ((pc + d) % 0x10000) as u16
}

/// A byte written to memory with the address clamped: a write past the end
/// of memory changes nothing.
pub open spec fn ram_write(ram: Seq<u8>, a: int, b: u8) -> Seq<u8> {
    if 0 <= a < ram.len() {
        ram.update(a, b)
    } else {
        ram
    }
}

/// Memory after the first `count` of the registers are stored at
/// consecutive addresses starting at `i`; bytes aimed past the end of
/// memory are dropped.
pub open spec fn store_block(ram: Seq<u8>, v: Seq<u8>, i: int, count: int) -> Seq<u8> {
    Seq::new(ram.len(), |a: int|
        if i <= a < i + count {
            v[a - i]
        } else {
            ram[a]
        })
}

/// The register file after registers 0 up to and including `x` are loaded
/// from consecutive memory bytes starting at `i`.
pub open spec fn load_block(v: Seq<u8>, ram: Seq<u8>, i: int, x: int) -> Seq<u8> {
    Seq::new(16, |k: int|
        if 0 <= k <= x {
            ram[i + k]
        } else {
            v[k]
        })
}

/// The value and flag an operation of the register-to-register family
/// computes from registers `x` and `y` for sub-opcode `n`: the new value of
/// register `x`, and what the flag register receives, where the operation
/// has a flag output. `None` marks a reserved sub-form.
pub open spec fn alu_result(pre: MachineView, x: int, y: int, n: int) -> Option<(u8, Option<u8>)> {
    let a = pre.v[x];
    let b = pre.v[y];
    let shift_src = if pre.quirks.shift_source_y {
        b
    } else {
        a
    };
    if n == 0x0 {
        Some((b, None))
    } else if n == 0x1 {
        Some((a | b, None))
    } else if n == 0x2 {
        Some((a & b, None))
    } else if n == 0x3 {
        Some((a ^ b, None))
    } else if n == 0x4 {
        Some((((a + b) % 256) as u8, Some(if a + b > 0xFF { 1u8 } else { 0u8 })))
    } else if n == 0x5 {
        Some((((a - b) % 256) as u8, Some(if a >= b { 1u8 } else { 0u8 })))
    } else if n == 0x6 {
        Some(((shift_src / 2) as u8, Some(if shift_src % 2 == 1 { 1u8 } else { 0u8 })))
    } else if n == 0x7 {
        Some((((b - a) % 256) as u8, Some(if b >= a { 1u8 } else { 0u8 })))
    } else if n == 0xE {
        Some((((shift_src * 2) % 256) as u8, Some(if shift_src >= 128 { 1u8 } else { 0u8 })))
    } else {
        None
    }
}

/// The effect of the nine register-to-register operations (family 8): the
/// destination receives the computed value, then the flag register receives
/// the flag, so that when the destination is the flag register the flag
/// wins. `None` marks a reserved sub-form.
pub open spec fn step_alu(pre: MachineView, x: int, y: int, n: int) -> Option<MachineView> {
    match alu_result(pre, x, y, n) {
        None => None,
        Some((val, flag)) => {
            let v1 = pre.v.update(x, val);
            let v2 = match flag {
                Some(f) => v1.update(15, f),
                None => v1,
            };
            Some(MachineView { v: v2, pc: pc_plus(pre.pc, 2), ..pre })
        },
    }
}

/// The effect of a sprite draw (family D): `n` rows of sprite data read at
/// the address register are composited at the coordinates held in registers
/// `x` and `y`, and the flag register receives the collision report.
pub open spec fn step_draw(pre: MachineView, x: int, y: int, n: int) -> StepSpec {
    if n == 0 {
        step_fault(pre, Fault::BadSpriteSize)
    } else if pre.i + n > RAM_SIZE {
        step_fault(pre, Fault::SpriteOutOfRange)
    } else {
        let rows = pre.ram.subrange(pre.i as int, pre.i + n);
        let sx = pre.v[x] as int;
        let sy = pre.v[y] as int;
        let flag: u8 = if blit_collision(pre.grid, rows, sx, sy) {
            1u8
        } else {
            0u8
        };
        step_ok(
            MachineView {
                grid: blit_grid(pre.grid, rows, sx, sy),
                v: pre.v.update(15, flag),
                drawn: true,
                pc: pc_plus(pre.pc, 2),
                ..pre
            },
        )
    }
}

/// The effect of the timer, key-wait, address and bulk-transfer operations
/// (family F), for immediate byte `kk` on register `x`.
pub open spec fn step_misc(pre: MachineView, x: int, kk: u8, key: Option<u8>) -> StepSpec {
    let pc = pc_plus(pre.pc, 2);
    if kk == 0x07 {
        step_ok(MachineView { v: pre.v.update(x, pre.dt), pc, ..pre })
    } else if kk == 0x0A {
        match key {
            Some(k) => step_ok(MachineView { v: pre.v.update(x, k), pc, ..pre }),
            None => step_ok(pre),
        }
    } else if kk == 0x15 {
        step_ok(MachineView { dt: pre.v[x], pc, ..pre })
    } else if kk == 0x18 {
        step_ok(MachineView { st: pre.v[x], pc, ..pre })
    } else if kk == 0x1E {
        step_ok(MachineView { i: ((pre.i + pre.v[x]) % 0x10000) as u16, pc, ..pre })
    } else if kk == 0x29 {
        step_ok(
            MachineView {
                i: (FONTS_BASE_ADDR + pre.v[x] * FONT_UNIT_SIZE) as u16,
                pc,
                ..pre
            },
        )
    } else if kk == 0x33 {
        let c = pre.v[x] as int;
        let ram1 = ram_write(pre.ram, pre.i as int, (c / 100) as u8);
        let ram2 = ram_write(ram1, pre.i + 1, ((c % 100) / 10) as u8);
        let ram3 = ram_write(ram2, pre.i + 2, (c % 10) as u8);
        step_ok(MachineView { ram: ram3, pc, ..pre })
    } else if kk == 0x55 {
        let i2: u16 = if pre.quirks.bulk_advances_i {
            ((pre.i + x + 1) % 0x10000) as u16
        } else {
            pre.i
        };
        step_ok(
            MachineView {
                ram: store_block(pre.ram, pre.v, pre.i as int, x + 1),
                i: i2,
                pc,
                ..pre
            },
        )
    } else if kk == 0x65 {
        if pre.i + x >= RAM_SIZE {
            step_fault(pre, Fault::RegLoadOutOfRange)
        } else {
            let i2: u16 = if pre.quirks.bulk_advances_i {
                ((pre.i + x + 1) % 0x10000) as u16
            } else {
                pre.i
            };
            step_ok(
                MachineView {
                    v: load_block(pre.v, pre.ram, pre.i as int, x),
                    i: i2,
                    pc,
                    ..pre
                },
            )
        }
    } else {
        step_fault(pre, Fault::BadOpcode)
    }
}

/// The effect of a screen clear: every pixel goes off, and the
/// display-changed flag is raised so the renderer redraws.
pub open spec fn step_cls(pre: MachineView) -> StepSpec {
    step_ok(MachineView { grid: blank_grid(), drawn: true, pc: pc_plus(pre.pc, 2), ..pre })
}

/// The effect of a subroutine return: the program counter is restored from
/// the top of the call stack; a return with the stack empty is a fault.
pub open spec fn step_ret(pre: MachineView) -> StepSpec {
    if pre.stack.len() == 0 {
        step_fault(pre, Fault::StackUnderflow)
    } else {
        step_ok(MachineView { pc: pre.stack.last(), stack: pre.stack.drop_last(), ..pre })
    }
}

/// The effect of a jump to an absolute address.
pub open spec fn step_jump(pre: MachineView, target: u16) -> StepSpec {
    step_ok(MachineView { pc: target, ..pre })
}

/// The effect of a subroutine call: the return address is pushed and the
/// program counter set to the target; a call with the stack already at its
/// depth limit is a fault.
pub open spec fn step_call(pre: MachineView, target: u16) -> StepSpec {
    let ret: u16 = if pre.quirks.call_pushes_current {
        pre.pc
    } else {
        pc_plus(pre.pc, 2)
    };
    if pre.stack.len() >= STACK_SIZE {
        step_fault(pre, Fault::StackOverflow)
    } else {
        step_ok(MachineView { stack: pre.stack.push(ret), pc: target, ..pre })
    }
}

/// The effect of a conditional skip: the program counter advances by four
/// when the condition holds and by two otherwise.
pub open spec fn step_skip(pre: MachineView, cond: bool) -> StepSpec {
    step_ok(MachineView { pc: pc_plus(pre.pc, if cond { 4 } else { 2 }), ..pre })
}

/// The effect of loading an immediate byte into register `x`.
pub open spec fn step_ld_imm(pre: MachineView, x: int, kk: u8) -> StepSpec {
    step_ok(MachineView { v: pre.v.update(x, kk), pc: pc_plus(pre.pc, 2), ..pre })
}

/// The effect of adding an immediate byte to register `x`, wrapping modulo
/// 256 and touching no flag.
pub open spec fn step_add_imm(pre: MachineView, x: int, kk: u8) -> StepSpec {
    step_ok(
        MachineView {
            v: pre.v.update(x, ((pre.v[x] + kk) % 256) as u8),
            pc: pc_plus(pre.pc, 2),
            ..pre
        },
    )
}

/// The effect of setting the address register.
pub open spec fn step_set_i(pre: MachineView, target: u16) -> StepSpec {
    step_ok(MachineView { i: target, pc: pc_plus(pre.pc, 2), ..pre })
}

/// The effect of the jump with offset: the program counter is set to the
/// address field plus register 0.
pub open spec fn step_jump_offset(pre: MachineView, target: u16) -> StepSpec {
    step_ok(MachineView { pc: ((target + pre.v[0]) % 0x10000) as u16, ..pre })
}

/// The effect of the randomized AND: register `x` receives the random byte
/// masked with the immediate byte.
pub open spec fn step_rand(pre: MachineView, x: int, kk: u8, rnd: u8) -> StepSpec {
    step_ok(MachineView { v: pre.v.update(x, rnd & kk), pc: pc_plus(pre.pc, 2), ..pre })
}

/// The specified effect of executing one decoded instruction on the
/// machine: the dispatch over all opcode families. `key` is the key the
/// keypad reports pressed, and `rnd` the byte the random source produced
/// for this tick.
pub open spec fn step(pre: MachineView, ins: u16, key: Option<u8>, rnd: u8) -> StepSpec {
    let fam = fam_of(ins);
    let nnn = nnn_of(ins);
    let kk = kk_of(ins);
    let n = n_of(ins);
    let x = x_of(ins);
    let y = y_of(ins);
    if fam == 0x0 {
        if nnn == 0x0E0 {
            step_cls(pre)
        } else if nnn == 0x0EE {
            step_ret(pre)
        } else {
            step_fault(pre, Fault::BadOpcode)
        }
    } else if fam == 0x1 {
        step_jump(pre, nnn)
    } else if fam == 0x2 {
        step_call(pre, nnn)
    } else if fam == 0x3 {
        step_skip(pre, pre.v[x] == kk)
    } else if fam == 0x4 {
        step_skip(pre, pre.v[x] != kk)
    } else if fam == 0x5 {
        if n == 0 {
            step_skip(pre, pre.v[x] == pre.v[y])
        } else {
            step_fault(pre, Fault::BadOpcode)
        }
    } else if fam == 0x6 {
        step_ld_imm(pre, x, kk)
    } else if fam == 0x7 {
        step_add_imm(pre, x, kk)
    } else if fam == 0x8 {
        match step_alu(pre, x, y, n) {
            Some(post) => step_ok(post),
            None => step_fault(pre, Fault::BadOpcode),
        }
    } else if fam == 0x9 {
        if n == 0 {
            step_skip(pre, pre.v[x] != pre.v[y])
        } else {
            step_fault(pre, Fault::BadOpcode)
        }
    } else if fam == 0xA {
        step_set_i(pre, nnn)
    } else if fam == 0xB {
        step_jump_offset(pre, nnn)
    } else if fam == 0xC {
        step_rand(pre, x, kk, rnd)
    } else if fam == 0xD {
        step_draw(pre, x, y, n)
    } else if fam == 0xE {
        if kk == 0x9E {
            step_skip(pre, key == Some(pre.v[x]))
        } else if kk == 0xA1 {
            step_skip(pre, key != Some(pre.v[x]))
        } else {
            step_fault(pre, Fault::BadOpcode)
        }
    } else {
        step_misc(pre, x, kk, key)
    }
}

/// The machine with the display-changed flag cleared, as each tick leaves
/// it before executing the instruction.
pub open spec fn cleared(m: MachineView) -> MachineView {
    MachineView { drawn: false, ..m }
}

/// How the outcome of an executed instruction relates machine states: on a
/// successful step the machine moves to the specified state and the outcome
/// is Normal; on a fault the machine is unchanged and the outcome carries
/// the fault's diagnostic text.
pub open spec fn exec_matches(
    pre: MachineView,
    ins: u16,
    key: Option<u8>,
    rnd: u8,
    post: MachineView,
    r: CpuState,
) -> bool {
    let s = step(pre, ins, key, rnd);
    post == s.post && match s.fault {
        None => r is Normal,
        Some(f) => r matches CpuState::Error(m) && m@ == fault_msg(f, ins),
    }
}

/// The character for one hexadecimal digit.
pub open spec fn hex_char(d: int) -> char {
    if d == 0 {
        '0'
    } else if d == 1 {
        '1'
    } else if d == 2 {
        '2'
    } else if d == 3 {
        '3'
    } else if d == 4 {
        '4'
    } else if d == 5 {
        '5'
    } else if d == 6 {
        '6'
    } else if d == 7 {
        '7'
    } else if d == 8 {
        '8'
    } else if d == 9 {
        '9'
    } else if d == 10 {
        'A'
    } else if d == 11 {
        'B'
    } else if d == 12 {
        'C'
    } else if d == 13 {
        'D'
    } else if d == 14 {
        'E'
    } else {
        'F'
    }
}

/// The four hexadecimal digits of an instruction word, highest first.
pub open spec fn hex_of_word(w: u16) -> Seq<char> {
    seq![
        hex_char(w as int / 0x1000),
        hex_char((w as int / 0x100) % 0x10),
        hex_char((w as int / 0x10) % 0x10),
        hex_char(w as int % 0x10),
    ]
}

/// The diagnostic text reported for a fault; for a decode fault it names
/// the offending instruction word.
pub open spec fn fault_msg(f: Fault, ins: u16) -> Seq<char> {
    match f {
        Fault::BadOpcode => "invalid opcode 0x"@ + hex_of_word(ins),
        Fault::StackOverflow => "call stack overflow"@,
        Fault::StackUnderflow => "call stack underflow"@,
        Fault::FetchOutOfRange => "instruction fetch out of memory range"@,
        Fault::BadSpriteSize => "sprite with no rows"@,
        Fault::SpriteOutOfRange => "sprite data out of memory range"@,
        Fault::RegLoadOutOfRange => "register load out of memory range"@,
    }
}

/// One hexadecimal digit as text.
fn hex_digit_str(d: u16) -> (r: &'static str)
    requires
        d < 16,
    ensures
        r@ == seq![hex_char(d as int)],
{
    proof {
        reveal_strlit("0");
        reveal_strlit("1");
        reveal_strlit("2");
        reveal_strlit("3");
        reveal_strlit("4");
        reveal_strlit("5");
        reveal_strlit("6");
        reveal_strlit("7");
        reveal_strlit("8");
        reveal_strlit("9");
        reveal_strlit("A");
        reveal_strlit("B");
        reveal_strlit("C");
        reveal_strlit("D");
        reveal_strlit("E");
        reveal_strlit("F");
    }
    let r = match d {
        0 => "0",
        1 => "1",
        2 => "2",
        3 => "3",
        4 => "4",
        5 => "5",
        6 => "6",
        7 => "7",
        8 => "8",
        9 => "9",
        10 => "A",
        11 => "B",
        12 => "C",
        13 => "D",
        14 => "E",
        _ => "F",
    };
    proof {
        assert(r@ =~= seq![hex_char(d as int)]);
    }
    r
}

/// The outcome the driver sees from one tick: continue, a terminal fault
/// with its diagnostic text, or normal termination at the end of memory.
pub enum CpuState {
    Normal,
    Error(String),
    Finished,
}

/// Builds the terminal outcome for a fault, with the diagnostic text the
/// specification names.
fn fault_state(f: Fault, ins: u16) -> (r: CpuState)
    ensures
        r matches CpuState::Error(m) && m@ == fault_msg(f, ins),
{
    match f {
        Fault::BadOpcode => {
            let mut s = String::from_str("invalid opcode 0x");
            s.append(hex_digit_str(ins / 0x1000));
            s.append(hex_digit_str((ins / 0x100) % 0x10));
            s.append(hex_digit_str((ins / 0x10) % 0x10));
            s.append(hex_digit_str(ins % 0x10));
            proof {
                assert(s@ =~= fault_msg(Fault::BadOpcode, ins));
            }
            CpuState::Error(s)
        },
        Fault::StackOverflow => CpuState::Error(String::from_str("call stack overflow")),
        Fault::StackUnderflow => CpuState::Error(String::from_str("call stack underflow")),
        Fault::FetchOutOfRange => CpuState::Error(
            String::from_str("instruction fetch out of memory range"),
        ),
        Fault::BadSpriteSize => CpuState::Error(String::from_str("sprite with no rows")),
        Fault::SpriteOutOfRange => CpuState::Error(
            String::from_str("sprite data out of memory range"),
        ),
        Fault::RegLoadOutOfRange => CpuState::Error(
            String::from_str("register load out of memory range"),
        ),
    }
}

/// Draws one byte from the thread-local random number generator.
///
/// Relies on rand::thread_rng and rand::Rng::gen with the Standard
/// distribution: the call returns some u8; nothing can be promised about
/// its value.
#[verifier::external_body]
fn random_byte() -> u8 {
    rand::thread_rng().gen()
}

/// The machine: the register file, the call stack, the memory unit and the
/// framebuffer, with the flag telling the renderer whether the last tick
/// changed the display.
#[derive(Debug)]
pub struct CPU {
    pub registers: Registers,
    pub stack: Stack,
    pub mem: Mem,
    pub vram: Vram,
    pub vram_changed: bool,
    pub quirks: Quirks,
}

impl View for CPU {
    type V = MachineView;

    /// The machine as a mathematical snapshot.
    open spec fn view(&self) -> MachineView {
        MachineView {
            v: self.registers.v@,
            i: self.registers.i,
            pc: self.registers.pc,
            dt: self.registers.dt,
            st: self.registers.st,
            stack: self.stack@,
            ram: self.mem.ram@,
            grid: self.vram@,
            drawn: self.vram_changed,
            quirks: self.quirks,
        }
    }
}

impl CPU {
    /// Creates a machine around the given memory unit and resets it, with
    /// the modern behaviour at every divergence point.
    pub fn new(mem: Mem) -> (r: Self)
        ensures
            r@ == reset_view(mem.rom@, modern_quirks()),
            r.mem.rom@ == mem.rom@,
    {
        let mut cpu = CPU {
            registers: Registers::default(),
            stack: Stack::default(),
            vram: Vram::default(),
            mem,
            vram_changed: false,
            quirks: Quirks::default(),
        };
        cpu.reset();
        cpu
    }

    /// Whether the last tick changed the display.
    pub fn vram_changed(&self) -> (r: bool)
        ensures
            r == self@.drawn,
    {
        self.vram_changed
    }

    /// The framebuffer, for the rendering collaborator to read.
    pub fn vram(&self) -> (r: &Vram)
        ensures
            r@ == self@.grid,
    {
        &self.vram
    }

    /// Re-initializes the whole machine: registers, timers, call stack and
    /// framebuffer are cleared, memory is re-seeded from the held program
    /// image, and the program counter is set to the start of the program
    /// region. The held image and the configured quirks are kept.
    pub fn reset(&mut self)
        ensures
            final(self)@ == reset_view(old(self).mem.rom@, old(self).quirks),
            final(self).mem.rom@ == old(self).mem.rom@,
    {
        self.registers = Registers::default();
        self.registers.pc = ROM_BASE_ADDR as u16;
        self.stack = Stack::default();
        self.vram = Vram::default();
        self.mem.reset();
        self.vram_changed = false;
        proof {
            assert(self@ =~~= reset_view(old(self).mem.rom@, old(self).quirks));
        }
    }

    /// Replaces the held program image and resets the whole machine.
    pub fn load_rom(&mut self, rom: Vec<u8>)
        ensures
            final(self)@ == reset_view(rom@, old(self).quirks),
            final(self).mem.rom@ == rom@,
    {
        self.mem.load_rom(rom);
        self.reset();
    }

    /// Fetches the instruction word at the given address; fails when the
    /// word is not entirely inside memory.
    pub fn fetch(&self, pc: u16) -> (r: Option<u16>)
        ensures
            pc + 1 < RAM_SIZE ==> r == Some(word_at(self@.ram, pc as int)),
            pc + 1 >= RAM_SIZE ==> r == None::<u16>,
    {
        self.mem.read_word(pc as usize)
    }

    /// One step of the autonomous sound-timer countdown: the timer goes
    /// down by one and stops at zero. The driver calls this on its own
    /// fixed cadence, independently of instruction ticks.
    pub fn decrease_soundtimer(&mut self)
        ensures
            final(self)@ == (MachineView {
                st: if old(self)@.st > 0 { (old(self)@.st - 1) as u8 } else { 0u8 },
                ..old(self)@
            }),
            final(self).mem.rom@ == old(self).mem.rom@,
    {
        if self.registers.st != 0 {
            self.registers.st = self.registers.st - 1;
        }
        proof {
            assert(self@ =~~= (MachineView {
                st: if old(self)@.st > 0 { (old(self)@.st - 1) as u8 } else { 0u8 },
                ..old(self)@
            }));
        }
    }

    /// Executes the register-to-register operations (family 8).
    #[verifier::rlimit(100)]
    fn op_alu(&mut self, ins: u16) -> (r: Option<Fault>)
        requires
            fam_of(ins) == 0x8,
            old(self)@.pc + 2 <= 0xFFFF,
        ensures
            step_alu(old(self)@, x_of(ins), y_of(ins), n_of(ins)) matches Some(post)
                ==> final(self)@ == post && r == None::<Fault>,
            step_alu(old(self)@, x_of(ins), y_of(ins), n_of(ins)) is None
                ==> final(self)@ == old(self)@ && r == Some(Fault::BadOpcode),
            final(self).mem.rom@ == old(self).mem.rom@,
    {
        let n = (ins % 0x10) as u8;
        let x = ((ins / 0x100) % 0x10) as usize;
        let y = ((ins / 0x10) % 0x10) as usize;
        let a = self.registers.v[x];
        let b = self.registers.v[y];
        let shift_src = if self.quirks.shift_source_y {
            b
        } else {
            a
        };
        let val: u8;
        let flag: Option<u8>;
        match n {
            0x0 => {
                val = b;
                flag = None;
            },
            0x1 => {
                val = a | b;
                flag = None;
            },
            0x2 => {
                val = a & b;
                flag = None;
            },
            0x3 => {
                val = a ^ b;
                flag = None;
            },
            0x4 => {
                let sum = a as u16 + b as u16;
                val = (sum % 256) as u8;
                flag = Some(if sum > 0xFF { 1 } else { 0 });
            },
            0x5 => {
                val = ((a as u16 + 256 - b as u16) % 256) as u8;
                flag = Some(if a >= b { 1 } else { 0 });
            },
            0x6 => {
                val = shift_src / 2;
                flag = Some(shift_src % 2);
            },
            0x7 => {
                val = ((b as u16 + 256 - a as u16) % 256) as u8;
                flag = Some(if b >= a { 1 } else { 0 });
            },
            0xE => {
                val = ((shift_src as u16 * 2) % 256) as u8;
                flag = Some(shift_src / 128);
            },
            _ => {
                return Some(Fault::BadOpcode);
            },
        }
        self.registers.v[x] = val;
        match flag {
            Some(f) => self.registers.v[15] = f,
            None => {},
        }
        self.registers.pc = self.registers.pc + 2;
        proof {
            let post = step_alu(old(self)@, x_of(ins), y_of(ins), n_of(ins))->Some_0;
            assert(self@.v =~= post.v);
            assert(self@ =~~= post);
        }
        None
    }

    /// Executes a sprite draw (family D).
    fn op_draw(&mut self, ins: u16) -> (r: Option<Fault>)
        requires
            fam_of(ins) == 0xD,
            old(self)@.pc + 2 <= 0xFFFF,
        ensures
            ({
                let s = step_draw(old(self)@, x_of(ins), y_of(ins), n_of(ins));
                final(self)@ == s.post && r == s.fault
            }),
            final(self).mem.rom@ == old(self).mem.rom@,
    {
        let n = (ins % 0x10) as usize;
        let x = ((ins / 0x100) % 0x10) as usize;
        let y = ((ins / 0x10) % 0x10) as usize;
        if n == 0 {
            return Some(Fault::BadSpriteSize);
        }
        let sx = self.registers.v[x];
        let sy = self.registers.v[y];
        match self.mem.read_segment(n, self.registers.i as usize) {
            None => Some(Fault::SpriteOutOfRange),
            Some(bytes) => {
                match Sprite::try_from(bytes) {
                    Ok(sprite) => {
                        let flag = self.vram.put_sprite(sprite, sx as usize, sy as usize);
                        self.registers.v[15] = flag;
                        self.vram_changed = true;
                        self.registers.pc = self.registers.pc + 2;
                        proof {
                            assert(self@ =~~= step_draw(old(self)@, x_of(ins), y_of(ins),
                                n_of(ins)).post);
                        }
                        None
                    },
                    Err(_) => {
                        proof {
                            assert(false);
                        }
                        None
                    },
                }
            },
        }
    }

    /// Executes the timer, key-wait, address and bulk-transfer operations
    /// (family F).
    fn op_misc(&mut self, ins: u16, kb: &KeyBoard) -> (r: Option<Fault>)
        requires
            fam_of(ins) == 0xF,
            old(self)@.pc + 2 <= 0xFFFF,
        ensures
            ({
                let s = step_misc(old(self)@, x_of(ins), kk_of(ins), kb@);
                final(self)@ == s.post && r == s.fault
            }),
            final(self).mem.rom@ == old(self).mem.rom@,
    {
        let kk = (ins % 0x100) as u8;
        let x = ((ins / 0x100) % 0x10) as usize;
        match kk {
            0x07 => {
                self.registers.v[x] = self.registers.dt;
                self.registers.pc = self.registers.pc + 2;
                proof {
                    assert(self@ =~~= step_misc(old(self)@, x_of(ins), kk_of(ins), kb@).post);
                }
                None
            },
            0x0A => {
                match kb.get_key_pressed() {
                    Some(key) => {
                        self.registers.v[x] = key;
                        self.registers.pc = self.registers.pc + 2;
                    },
                    None => {},
                }
                proof {
                    assert(self@ =~~= step_misc(old(self)@, x_of(ins), kk_of(ins), kb@).post);
                }
                None
            },
            0x15 => {
                self.registers.dt = self.registers.v[x];
                self.registers.pc = self.registers.pc + 2;
                proof {
                    assert(self@ =~~= step_misc(old(self)@, x_of(ins), kk_of(ins), kb@).post);
                }
                None
            },
            0x18 => {
                self.registers.st = self.registers.v[x];
                self.registers.pc = self.registers.pc + 2;
                proof {
                    assert(self@ =~~= step_misc(old(self)@, x_of(ins), kk_of(ins), kb@).post);
                }
                None
            },
            0x1E => {
                let sum = self.registers.i as u32 + self.registers.v[x] as u32;
                self.registers.i = (sum % 0x10000) as u16;
                self.registers.pc = self.registers.pc + 2;
                proof {
                    assert(self@ =~~= step_misc(old(self)@, x_of(ins), kk_of(ins), kb@).post);
                }
                None
            },
            0x29 => {
                self.registers.i = FONTS_BASE_ADDR as u16 + (self.registers.v[x] as u16)
                    * (FONT_UNIT_SIZE as u16);
                self.registers.pc = self.registers.pc + 2;
                proof {
                    assert(self@ =~~= step_misc(old(self)@, x_of(ins), kk_of(ins), kb@).post);
                }
                None
            },
            0x33 => {
                let copy = self.registers.v[x];
                let base = self.registers.i as usize;
                self.mem.write_byte(base, copy / 100);
                self.mem.write_byte(base + 1, (copy % 100) / 10);
                self.mem.write_byte(base + 2, copy % 10);
                self.registers.pc = self.registers.pc + 2;
                proof {
                    assert(self@ =~~= step_misc(old(self)@, x_of(ins), kk_of(ins), kb@).post);
                }
                None
            },
            0x55 => {
                let base = self.registers.i as usize;
                let mut off: usize = 0;
                while off <= x
                    invariant
                        off <= x + 1,
                        x < 16,
                        base == old(self)@.i,
                        self.registers == old(self).registers,
                        self.stack@ == old(self).stack@,
                        self.vram == old(self).vram,
                        self.vram_changed == old(self).vram_changed,
                        self.quirks == old(self).quirks,
                        self.mem.rom@ == old(self).mem.rom@,
                        self.mem.ram@ == store_block(old(self)@.ram, old(self)@.v, base as int,
                            off as int),
                    decreases x + 1 - off,
                {
                    let b = self.registers.v[off];
                    self.mem.write_byte(base + off, b);
                    proof {
                        assert(self.mem.ram@ =~= store_block(old(self)@.ram, old(self)@.v,
                            base as int, off + 1));
                    }
                    off = off + 1;
                }
                if self.quirks.bulk_advances_i {
                    let sum = self.registers.i as u32 + x as u32 + 1;
                    self.registers.i = (sum % 0x10000) as u16;
                }
                self.registers.pc = self.registers.pc + 2;
                proof {
                    assert(self@ =~~= step_misc(old(self)@, x_of(ins), kk_of(ins), kb@).post);
                }
                None
            },
            0x65 => {
                let base = self.registers.i as usize;
                if base + x >= RAM_SIZE {
                    return Some(Fault::RegLoadOutOfRange);
                }
                let mut off: usize = 0;
                while off <= x
                    invariant
                        off <= x + 1,
                        x < 16,
                        base == old(self)@.i,
                        base + x < RAM_SIZE,
                        self.registers.i == old(self).registers.i,
                        self.registers.pc == old(self).registers.pc,
                        self.registers.dt == old(self).registers.dt,
                        self.registers.st == old(self).registers.st,
                        self.stack@ == old(self).stack@,
                        self.vram == old(self).vram,
                        self.vram_changed == old(self).vram_changed,
                        self.quirks == old(self).quirks,
                        self.mem == old(self).mem,
                        self.registers.v@.len() == 16,
                        forall|k: int| 0 <= k < off ==> self.registers.v@[k] == old(
                            self,
                        )@.ram[base + k],
                        forall|k: int| off <= k < 16 ==> self.registers.v@[k] == old(self)@.v[k],
                    decreases x + 1 - off,
                {
                    let b = match self.mem.read_byte(base + off) {
                        Some(b) => b,
                        None => 0,
                    };
                    self.registers.v[off] = b;
                    off = off + 1;
                }
                proof {
                    assert(self.registers.v@ =~= load_block(old(self)@.v, old(self)@.ram,
                        base as int, x as int));
                }
                if self.quirks.bulk_advances_i {
                    let sum = self.registers.i as u32 + x as u32 + 1;
                    self.registers.i = (sum % 0x10000) as u16;
                }
                self.registers.pc = self.registers.pc + 2;
                proof {
                    assert(self@ =~~= step_misc(old(self)@, x_of(ins), kk_of(ins), kb@).post);
                }
                None
            },
            _ => Some(Fault::BadOpcode),
        }
    }

    /// Executes one decoded instruction: dispatches on the opcode family,
    /// mutates the machine as the step specification says and advances the
    /// program counter, or reports the fault, leaving the machine unchanged.
    /// `rnd` is the byte the random source produced for this tick.
    pub fn execute(&mut self, instruction: u16, kb: &KeyBoard, rnd: u8) -> (r: CpuState)
        requires
            old(self)@.pc + 4 <= 0xFFFF,
        ensures
            exec_matches(old(self)@, instruction, kb@, rnd, final(self)@, r),
            final(self).mem.rom@ == old(self).mem.rom@,
    {
        let first = (instruction / 0x1000) as u8;
        if first < 0x4 {
            self.execute_low(instruction, kb, rnd)
        } else if first < 0x8 {
            self.execute_mid(instruction, kb, rnd)
        } else if first < 0xC {
            self.execute_high(instruction, kb, rnd)
        } else {
            self.execute_top(instruction, kb, rnd)
        }
    }

    /// Executes an instruction of the opcode families 0 through 3.
    #[verifier::rlimit(100)]
    fn execute_low(&mut self, instruction: u16, kb: &KeyBoard, rnd: u8) -> (r: CpuState)
        requires
            old(self)@.pc + 4 <= 0xFFFF,
            fam_of(instruction) < 0x4,
        ensures
            exec_matches(old(self)@, instruction, kb@, rnd, final(self)@, r),
            final(self).mem.rom@ == old(self).mem.rom@,
    {
        let nnn = instruction % 0x1000;
        let kk = (instruction % 0x100) as u8;
        let n = (instruction % 0x10) as u8;
        let x = ((instruction / 0x100) % 0x10) as usize;
        let y = ((instruction / 0x10) % 0x10) as usize;
        let first = (instruction / 0x1000) as u8;
        match first {
            0x0 => {
                if nnn == 0x0E0 {
                    self.vram.clear();
                    self.vram_changed = true;
                    self.registers.pc = self.registers.pc + 2;
                    proof {
                        assert(self@ =~~= step(old(self)@, instruction, kb@, rnd).post);
                    }
                    CpuState::Normal
                } else if nnn == 0x0EE {
                    match self.stack.pop() {
                        Some(addr) => {
                            self.registers.pc = addr;
                            proof {
                                assert(self@ =~~= step(old(self)@, instruction, kb@, rnd).post);
                            }
                            CpuState::Normal
                        },
                        None => fault_state(Fault::StackUnderflow, instruction),
                    }
                } else {
                    fault_state(Fault::BadOpcode, instruction)
                }
            },
            0x1 => {
                self.registers.pc = nnn;
                proof {
                    assert(self@ =~~= step(old(self)@, instruction, kb@, rnd).post);
                }
                CpuState::Normal
            },
            0x2 => {
                let ret = if self.quirks.call_pushes_current {
                    self.registers.pc
                } else {
                    self.registers.pc + 2
                };
                match self.stack.push(ret) {
                    Some(_) => {
                        self.registers.pc = nnn;
                        proof {
                            assert(self@ =~~= step(old(self)@, instruction, kb@, rnd).post);
                        }
                        CpuState::Normal
                    },
                    None => fault_state(Fault::StackOverflow, instruction),
                }
            },
            0x3 => {
                if self.registers.v[x] == kk {
                    self.registers.pc = self.registers.pc + 4;
                } else {
                    self.registers.pc = self.registers.pc + 2;
                }
                proof {
                    assert(self@ =~~= step(old(self)@, instruction, kb@, rnd).post);
                }
                CpuState::Normal
            },
            _ => {
                proof {
                    assert(false);
                }
                CpuState::Normal
            },
        }
    }


    /// Executes an instruction of the opcode families 4 through 7.
    #[verifier::rlimit(100)]
    fn execute_mid(&mut self, instruction: u16, kb: &KeyBoard, rnd: u8) -> (r: CpuState)
        requires
            old(self)@.pc + 4 <= 0xFFFF,
            0x4 <= fam_of(instruction) < 0x8,
        ensures
            exec_matches(old(self)@, instruction, kb@, rnd, final(self)@, r),
            final(self).mem.rom@ == old(self).mem.rom@,
    {
        let nnn = instruction % 0x1000;
        let kk = (instruction % 0x100) as u8;
        let n = (instruction % 0x10) as u8;
        let x = ((instruction / 0x100) % 0x10) as usize;
        let y = ((instruction / 0x10) % 0x10) as usize;
        let first = (instruction / 0x1000) as u8;
        match first {
            0x4 => {
                if self.registers.v[x] != kk {
                    self.registers.pc = self.registers.pc + 4;
                } else {
                    self.registers.pc = self.registers.pc + 2;
                }
                proof {
                    assert(self@ =~~= step(old(self)@, instruction, kb@, rnd).post);
                }
                CpuState::Normal
            },
            0x5 => {
                if n != 0 {
                    return fault_state(Fault::BadOpcode, instruction);
                }
                if self.registers.v[x] == self.registers.v[y] {
                    self.registers.pc = self.registers.pc + 4;
                } else {
                    self.registers.pc = self.registers.pc + 2;
                }
                proof {
                    assert(self@ =~~= step(old(self)@, instruction, kb@, rnd).post);
                }
                CpuState::Normal
            },
            0x6 => {
                self.registers.v[x] = kk;
                self.registers.pc = self.registers.pc + 2;
                proof {
                    assert(self@ =~~= step(old(self)@, instruction, kb@, rnd).post);
                }
                CpuState::Normal
            },
            0x7 => {
                let sum = self.registers.v[x] as u16 + kk as u16;
                self.registers.v[x] = (sum % 256) as u8;
                self.registers.pc = self.registers.pc + 2;
                proof {
                    assert(self@ =~~= step(old(self)@, instruction, kb@, rnd).post);
                }
                CpuState::Normal
            },
            _ => {
                proof {
                    assert(false);
                }
                CpuState::Normal
            },
        }
    }

    /// Executes an instruction of the opcode families 8 through B.
    #[verifier::rlimit(100)]
    fn execute_high(&mut self, instruction: u16, kb: &KeyBoard, rnd: u8) -> (r: CpuState)
        requires
            old(self)@.pc + 4 <= 0xFFFF,
            0x8 <= fam_of(instruction) < 0xC,
        ensures
            exec_matches(old(self)@, instruction, kb@, rnd, final(self)@, r),
            final(self).mem.rom@ == old(self).mem.rom@,
    {
        let nnn = instruction % 0x1000;
        let kk = (instruction % 0x100) as u8;
        let n = (instruction % 0x10) as u8;
        let x = ((instruction / 0x100) % 0x10) as usize;
        let y = ((instruction / 0x10) % 0x10) as usize;
        let first = (instruction / 0x1000) as u8;
        match first {
            0x8 => {
                match self.op_alu(instruction) {
                    None => {
                        proof {
                            assert(self@ =~~= step(old(self)@, instruction, kb@, rnd).post);
                        }
                        CpuState::Normal
                    },
                    Some(f) => fault_state(f, instruction),
                }
            },
            0x9 => {
                if n != 0 {
                    return fault_state(Fault::BadOpcode, instruction);
                }
                if self.registers.v[x] != self.registers.v[y] {
                    self.registers.pc = self.registers.pc + 4;
                } else {
                    self.registers.pc = self.registers.pc + 2;
                }
                proof {
                    assert(self@ =~~= step(old(self)@, instruction, kb@, rnd).post);
                }
                CpuState::Normal
            },
            0xA => {
                self.registers.i = nnn;
                self.registers.pc = self.registers.pc + 2;
                proof {
                    assert(self@ =~~= step(old(self)@, instruction, kb@, rnd).post);
                }
                CpuState::Normal
            },
            0xB => {
                self.registers.pc = nnn + self.registers.v[0] as u16;
                proof {
                    assert(self@ =~~= step(old(self)@, instruction, kb@, rnd).post);
                }
                CpuState::Normal
            },
            _ => {
                proof {
                    assert(false);
                }
                CpuState::Normal
            },
        }
    }


    /// Executes an instruction of the opcode families C through F.
    #[verifier::rlimit(100)]
    fn execute_top(&mut self, instruction: u16, kb: &KeyBoard, rnd: u8) -> (r: CpuState)
        requires
            old(self)@.pc + 4 <= 0xFFFF,
            fam_of(instruction) >= 0xC,
        ensures
            exec_matches(old(self)@, instruction, kb@, rnd, final(self)@, r),
            final(self).mem.rom@ == old(self).mem.rom@,
    {
        let nnn = instruction % 0x1000;
        let kk = (instruction % 0x100) as u8;
        let n = (instruction % 0x10) as u8;
        let x = ((instruction / 0x100) % 0x10) as usize;
        let y = ((instruction / 0x10) % 0x10) as usize;
        let first = (instruction / 0x1000) as u8;
        match first {
            0xC => {
                self.registers.v[x] = rnd & kk;
                self.registers.pc = self.registers.pc + 2;
                proof {
                    assert(self@ =~~= step(old(self)@, instruction, kb@, rnd).post);
                }
                CpuState::Normal
            },
            0xD => {
                match self.op_draw(instruction) {
                    None => {
                        proof {
                            assert(self@ =~~= step(old(self)@, instruction, kb@, rnd).post);
                        }
                        CpuState::Normal
                    },
                    Some(f) => fault_state(f, instruction),
                }
            },
            0xE => {
                if kk == 0x9E {
                    let key = self.registers.v[x];
                    if kb.is_key_pressed(key) {
                        self.registers.pc = self.registers.pc + 4;
                    } else {
                        self.registers.pc = self.registers.pc + 2;
                    }
                    proof {
                        assert(self@ =~~= step(old(self)@, instruction, kb@, rnd).post);
                    }
                    CpuState::Normal
                } else if kk == 0xA1 {
                    let key = self.registers.v[x];
                    if kb.is_key_up(key) {
                        self.registers.pc = self.registers.pc + 4;
                    } else {
                        self.registers.pc = self.registers.pc + 2;
                    }
                    proof {
                        assert(self@ =~~= step(old(self)@, instruction, kb@, rnd).post);
                    }
                    CpuState::Normal
                } else {
                    fault_state(Fault::BadOpcode, instruction)
                }
            },
            _ => {
                match self.op_misc(instruction, kb) {
                    None => {
                        proof {
                            assert(self@ =~~= step(old(self)@, instruction, kb@, rnd).post);
                        }
                        CpuState::Normal
                    },
                    Some(f) => fault_state(f, instruction),
                }
            },
        }
    }

    /// Executes one tick: reports `Finished` when the program counter has
    /// walked past the end of memory, fetches the instruction word at the
    /// program counter (a fetch that runs past the end of memory is a
    /// fault), and executes it with a fresh byte from the random source.
    /// The display-changed flag is cleared first, so it reports on this
    /// tick alone. Timers are not touched: the driver decrements them on
    /// its own cadence through the dedicated entry points.
    pub fn tick(&mut self, kb: &KeyBoard) -> (r: CpuState)
        ensures
            final(self).mem.rom@ == old(self).mem.rom@,
            old(self)@.pc >= RAM_SIZE ==> r is Finished && *final(self) == *old(self),
            old(self)@.pc < RAM_SIZE && old(self)@.pc + 1 >= RAM_SIZE
                ==> (r matches CpuState::Error(m) && m@ == fault_msg(Fault::FetchOutOfRange, 0))
                    && final(self)@ == cleared(old(self)@),
            old(self)@.pc + 1 < RAM_SIZE ==> exists|rnd: u8|
                #[trigger] exec_matches(
                    cleared(old(self)@),
                    word_at(old(self)@.ram, old(self)@.pc as int),
                    kb@,
                    rnd,
                    final(self)@,
                    r,
                ),
    {
        if self.registers.pc as usize >= RAM_SIZE {
            return CpuState::Finished;
        }
        self.vram_changed = false;
        proof {
            assert(self@ =~~= cleared(old(self)@));
        }
        match self.fetch(self.registers.pc) {
            None => fault_state(Fault::FetchOutOfRange, 0),
            Some(instruction) => {
                let rnd = random_byte();
                let r = self.execute(instruction, kb, rnd);
                proof {
                    assert(exec_matches(
                        cleared(old(self)@),
                        word_at(old(self)@.ram, old(self)@.pc as int),
                        kb@,
                        rnd,
                        self@,
                        r,
                    ));
                }
                r
            },
        }
    }

    /// One step of the autonomous delay-timer countdown: the timer goes
    /// down by one and stops at zero.
    pub fn decrease_delaytimer(&mut self)
        ensures
            final(self)@ == (MachineView {
                dt: if old(self)@.dt > 0 { (old(self)@.dt - 1) as u8 } else { 0u8 },
                ..old(self)@
            }),
            final(self).mem.rom@ == old(self).mem.rom@,
    {
        if self.registers.dt != 0 {
            self.registers.dt = self.registers.dt - 1;
        }
        proof {
            assert(self@ =~~= (MachineView {
                dt: if old(self)@.dt > 0 { (old(self)@.dt - 1) as u8 } else { 0u8 },
                ..old(self)@
            }));
        }
    }
}

/// Whether the tested condition of a compare-and-skip instruction holds.
pub open spec fn skip_condition(pre: MachineView, ins: u16, key: Option<u8>) -> bool {
    let x = x_of(ins);
    let y = y_of(ins);
    let kk = kk_of(ins);
    if fam_of(ins) == 0x3 {
        pre.v[x] == kk
    } else if fam_of(ins) == 0x4 {
        pre.v[x] != kk
    } else if fam_of(ins) == 0x5 {
        pre.v[x] == pre.v[y]
    } else if fam_of(ins) == 0x9 {
        pre.v[x] != pre.v[y]
    } else if kk == 0x9E {
        key == Some(pre.v[x])
    } else {
        key != Some(pre.v[x])
    }
}

/// Every instruction outside the skip, jump, call/return and wait-for-key
/// forms advances the program counter by exactly two when it does not
/// fault.
pub proof fn lemma_pc_advances_by_two(pre: MachineView, ins: u16, key: Option<u8>, rnd: u8)
    requires
        pre.pc + 2 <= 0xFFFF,
        step(pre, ins, key, rnd).fault is None,
        fam_of(ins) != 0x1,
        fam_of(ins) != 0x2,
        fam_of(ins) != 0x3,
        fam_of(ins) != 0x4,
        fam_of(ins) != 0x5,
        fam_of(ins) != 0x9,
        fam_of(ins) != 0xB,
        fam_of(ins) != 0xE,
        !(fam_of(ins) == 0x0 && nnn_of(ins) == 0x0EE),
        !(fam_of(ins) == 0xF && kk_of(ins) == 0x0A),
    ensures
        step(pre, ins, key, rnd).post.pc == pre.pc + 2,
{
}

/// A compare-and-skip instruction advances the program counter by four
/// exactly when its condition holds, and by two otherwise.
pub proof fn lemma_skip_family(pre: MachineView, ins: u16, key: Option<u8>, rnd: u8)
    requires
        pre.pc + 4 <= 0xFFFF,
        step(pre, ins, key, rnd).fault is None,
        fam_of(ins) == 0x3 || fam_of(ins) == 0x4 || fam_of(ins) == 0x5 || fam_of(ins) == 0x9
            || fam_of(ins) == 0xE,
    ensures
        step(pre, ins, key, rnd).post.pc == pre.pc + (if skip_condition(pre, ins, key) {
            4int
        } else {
            2int
        }),
{
}

/// Addition: the destination register receives the sum modulo 256 and the
/// flag register reports whether the unwrapped sum exceeded 255; when the
/// destination is the flag register itself, the flag wins.
pub proof fn lemma_add_semantics(pre: MachineView, ins: u16, key: Option<u8>, rnd: u8)
    requires
        pre.v.len() == 16,
        fam_of(ins) == 0x8,
        n_of(ins) == 0x4,
    ensures
        step(pre, ins, key, rnd).fault is None,
        ({
            let a = pre.v[x_of(ins)];
            let b = pre.v[y_of(ins)];
            let post = step(pre, ins, key, rnd).post;
            &&& post.v[15] == (if a + b > 255 { 1u8 } else { 0u8 })
            &&& x_of(ins) != 15 ==> post.v[x_of(ins)] == (a + b) % 256
        }),
{
}

/// Subtraction: the destination register receives the difference modulo
/// 256 and the flag register is 1 exactly when no borrow occurred, that
/// is, when the minuend is at least the subtrahend; when the destination
/// is the flag register itself, the flag wins.
pub proof fn lemma_sub_semantics(pre: MachineView, ins: u16, key: Option<u8>, rnd: u8)
    requires
        pre.v.len() == 16,
        fam_of(ins) == 0x8,
        n_of(ins) == 0x5,
    ensures
        step(pre, ins, key, rnd).fault is None,
        ({
            let a = pre.v[x_of(ins)];
            let b = pre.v[y_of(ins)];
            let post = step(pre, ins, key, rnd).post;
            &&& post.v[15] == (if a >= b { 1u8 } else { 0u8 })
            &&& x_of(ins) != 15 ==> post.v[x_of(ins)] == (a - b) % 256
        }),
{
}

/// The wait-for-key instruction changes nothing at all while no key is
/// held, so the driver re-issues it on every tick until a key arrives;
/// once a key is held it stores the key code and advances the program
/// counter by two.
pub proof fn lemma_wait_for_key(pre: MachineView, ins: u16, rnd: u8)
    requires
        fam_of(ins) == 0xF,
        kk_of(ins) == 0x0A,
    ensures
        step(pre, ins, None, rnd) == step_ok(pre),
        forall|k: u8| #[trigger] step(pre, ins, Some(k), rnd) == step_ok(
            MachineView { v: pre.v.update(x_of(ins), k), pc: pc_plus(pre.pc, 2), ..pre },
        ),
{
}

/// The machine's structural invariants: sixteen registers, the full
/// memory size, the bounded call stack, the fixed grid dimensions and
/// binary pixels.
pub open spec fn machine_wf(m: MachineView) -> bool {
    &&& m.v.len() == 16
    &&& m.ram.len() == RAM_SIZE
    &&& m.stack.len() <= STACK_SIZE
    &&& m.grid.len() == crate::display::VRAM_HEIGHT
    &&& forall|r: int| 0 <= r < m.grid.len() ==> (#[trigger] m.grid[r]).len()
        == crate::display::VRAM_WIDTH
    &&& forall|r: int, c: int|
        0 <= r < m.grid.len() && 0 <= c < m.grid[r].len() ==> m.grid[r][c] == 0 || #[trigger] m
            .grid[r][c] == 1
}

/// Every step, faulting or not, preserves the machine's structural
/// invariants: the register count, the memory size, the call-stack depth
/// bound, the grid dimensions, and the binary pixel values.
pub proof fn lemma_step_preserves_wf(pre: MachineView, ins: u16, key: Option<u8>, rnd: u8)
    requires
        machine_wf(pre),
    ensures
        machine_wf(step(pre, ins, key, rnd).post),
{
}

} // verus!
