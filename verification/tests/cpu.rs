use chipper::cpu::CPU;
use chipper::display::vram_default;
use chipper::input::KeyBoard;
use chipper::memory::Mem;
use chipper::memory::ROM_BASE_ADDR;

fn cpu_setup() -> CPU {
    CPU::new(Mem::new(Vec::from([1, 2, 3, 4])))
}

#[test]
fn cpu_new() {
    let cpu = cpu_setup();
    assert_eq!(cpu.vram().inner(), vram_default());
    println!("{:?}", cpu.mem);
    println!("{:?}", cpu.registers);
    println!("{:?}", cpu.stack);
    let rom = [1, 2, 3, 4];
    let mut basket = Vec::with_capacity(4);
    for i in 0..4 {
        basket.push(cpu.mem.read_byte(ROM_BASE_ADDR + i).unwrap());
    }
    assert_eq!(Vec::from(rom), basket);
}

#[test]
fn cpu_reset() {
    let mut cpu = cpu_setup();
    cpu.reset();
    assert_eq!(cpu.mem.rom(), &Vec::from([1, 2, 3, 4]));
}

#[test]
fn cpu_fetch() {
    let mut cpu = cpu_setup();
    let instr = cpu.fetch(cpu.registers.pc).unwrap();
    assert_eq!(instr, 258);
    cpu.registers.pc += 1;
    let instr = cpu.fetch(cpu.registers.pc).unwrap();
    assert_eq!(instr, 515);
}

#[test]
fn nibbling() {
    let mut cpu = cpu_setup();
    cpu.execute(0xF0E0, &KeyBoard::new(), 0);
}
