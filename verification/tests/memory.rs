use chipper::font::FONT_SET;
use chipper::memory::Mem;
use chipper::memory::Stack;
use chipper::utils::bits_from_u8;

#[test]
fn stack_push_valid() {
    let mut stack = Stack::default();
    stack.push(1).unwrap();
}

#[test]
#[should_panic]
fn stack_push_valid_invalid() {
    let mut stack = Stack::default();
    let very_high_lim = 100;
    for _ in 0..very_high_lim {
        stack.push(1).unwrap();
    }
}

#[test]
fn stack_pop_valid() {
    let mut stack = Stack::default();
    stack.push(1).unwrap();
    let popped = stack.pop().unwrap();
    assert_eq!(popped, 1);
}

#[test]
#[should_panic]
fn stack_pop_invalid() {
    let mut stack = Stack::default();
    let _popped = stack.pop().unwrap();
}

fn mem_setup() -> Mem {
    Mem::new(vec![])
}

fn mem_setup_filled(rom: Vec<u8>) -> Mem {
    Mem::new(rom)
}

#[test]
fn mem_load_rom() {
    let mut mem = mem_setup();
    mem.load_rom(vec![4, 4, 3, 4]);
    assert_eq!(mem.rom, vec![4, 4, 3, 4]);
}

#[test]
fn mem_set() {
    let mem = mem_setup();
    let should = &FONT_SET[..];
    assert_eq!(should, &mem.ram[..80]);
}

#[test]
fn word_read_valid() {
    let mem = mem_setup_filled(vec![4, 4, 3, 4]);
    assert_eq!(mem.read_word(0).expect("Out of bounds"), 61584);
}

#[test]
#[should_panic]
fn word_read_invalid() {
    let invalid_addr = 4096;
    let mem = mem_setup_filled(vec![4, 4, 3, 4]);
    assert_eq!(mem.read_word(invalid_addr).expect("out of bounds"), 61584);
}

#[test]
fn word_read_segment_valid() {
    let mem = mem_setup_filled(vec![4, 4, 3, 4]);
    assert_eq!(mem.read_segment(5, 4000).unwrap(), vec![0, 0, 0, 0, 0]);
}

#[test]
#[should_panic]
fn word_read_segment_invalid() {
    let mem = mem_setup_filled(vec![4, 4, 3, 4]);
    assert_eq!(mem.read_segment(5, 4095).unwrap(), vec![0, 0, 0, 0, 0]);
}

#[test]
fn mod_from_u8() {
    let val = 253;
    let bits = bits_from_u8(val);
    assert_eq!(
        bits,
        Vec::from([true, true, true, true, true, true, false, true])
    );
}
