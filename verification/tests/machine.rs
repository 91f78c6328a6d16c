use chipper::cpu::CpuState;
use chipper::cpu::CPU;
use chipper::display::Sprite;
use chipper::display::Vram;
use chipper::input::KeyBoard;
use chipper::interpreter::Interpreter;
use chipper::memory::Mem;
use chipper::memory::Stack;

fn fresh_cpu() -> CPU {
    CPU::new(Mem::new(Vec::new()))
}

#[test]
fn end_to_end_set_register() {
    let mut chip8 = Interpreter::new();
    chip8.load_rom(vec![0x60, 0x42, 0x12, 0x02]);
    let pc_before = chip8.cpu.registers.pc;
    let state = chip8.tick();
    assert!(matches!(state, CpuState::Normal));
    assert_eq!(chip8.cpu.registers.v[0], 0x42);
    assert_eq!(chip8.cpu.registers.pc, pc_before + 2);
}

#[test]
fn plain_instruction_advances_pc_by_two() {
    let mut cpu = fresh_cpu();
    let pc = cpu.registers.pc;
    let state = cpu.execute(0x6307, &KeyBoard::new(), 0);
    assert!(matches!(state, CpuState::Normal));
    assert_eq!(cpu.registers.pc, pc + 2);
}

#[test]
fn skip_if_equal_advances_by_four_iff_equal() {
    let mut cpu = fresh_cpu();
    let pc = cpu.registers.pc;
    cpu.registers.v[0] = 0x42;
    cpu.execute(0x3042, &KeyBoard::new(), 0);
    assert_eq!(cpu.registers.pc, pc + 4);

    let mut cpu = fresh_cpu();
    let pc = cpu.registers.pc;
    cpu.registers.v[0] = 0x41;
    cpu.execute(0x3042, &KeyBoard::new(), 0);
    assert_eq!(cpu.registers.pc, pc + 2);
}

#[test]
fn skip_if_register_inequality() {
    let mut cpu = fresh_cpu();
    let pc = cpu.registers.pc;
    cpu.registers.v[1] = 1;
    cpu.registers.v[2] = 2;
    cpu.execute(0x9120, &KeyBoard::new(), 0);
    assert_eq!(cpu.registers.pc, pc + 4);

    let mut cpu = fresh_cpu();
    let pc = cpu.registers.pc;
    cpu.execute(0x5120, &KeyBoard::new(), 0);
    assert_eq!(cpu.registers.pc, pc + 4);
}

#[test]
fn addition_wraps_and_sets_carry() {
    let mut cpu = fresh_cpu();
    cpu.registers.v[1] = 250;
    cpu.registers.v[2] = 10;
    cpu.execute(0x8124, &KeyBoard::new(), 0);
    assert_eq!(cpu.registers.v[1], 4);
    assert_eq!(cpu.registers.v[15], 1);

    let mut cpu = fresh_cpu();
    cpu.registers.v[1] = 10;
    cpu.registers.v[2] = 20;
    cpu.execute(0x8124, &KeyBoard::new(), 0);
    assert_eq!(cpu.registers.v[1], 30);
    assert_eq!(cpu.registers.v[15], 0);
}

#[test]
fn subtraction_wraps_and_sets_borrow_flag() {
    let mut cpu = fresh_cpu();
    cpu.registers.v[1] = 5;
    cpu.registers.v[2] = 10;
    cpu.execute(0x8125, &KeyBoard::new(), 0);
    assert_eq!(cpu.registers.v[1], 251);
    assert_eq!(cpu.registers.v[15], 0);

    let mut cpu = fresh_cpu();
    cpu.registers.v[1] = 10;
    cpu.registers.v[2] = 5;
    cpu.execute(0x8125, &KeyBoard::new(), 0);
    assert_eq!(cpu.registers.v[1], 5);
    assert_eq!(cpu.registers.v[15], 1);
}

#[test]
fn shift_right_keeps_lost_bit_in_flag() {
    let mut cpu = fresh_cpu();
    cpu.registers.v[1] = 5;
    cpu.execute(0x8126, &KeyBoard::new(), 0);
    assert_eq!(cpu.registers.v[1], 2);
    assert_eq!(cpu.registers.v[15], 1);
}

#[test]
fn shift_left_keeps_lost_bit_in_flag() {
    let mut cpu = fresh_cpu();
    cpu.registers.v[1] = 0x81;
    cpu.execute(0x812E, &KeyBoard::new(), 0);
    assert_eq!(cpu.registers.v[1], 2);
    assert_eq!(cpu.registers.v[15], 1);
}

#[test]
fn draw_twice_restores_pixels_and_reports_collision() {
    let mut vram = Vram::default();
    let first = vram.put_sprite(Sprite::try_from(vec![0xFF]).unwrap(), 0, 0);
    assert_eq!(first, 0);
    for col in 0..8 {
        assert_eq!(*vram.get_pixel(col, 0).unwrap(), 1);
    }
    let second = vram.put_sprite(Sprite::try_from(vec![0xFF]).unwrap(), 0, 0);
    assert_eq!(second, 1);
    for col in 0..8 {
        assert_eq!(*vram.get_pixel(col, 0).unwrap(), 0);
    }
}

#[test]
fn sprite_columns_clip_at_right_edge() {
    let mut vram = Vram::default();
    vram.put_sprite(Sprite::try_from(vec![0xFF]).unwrap(), 60, 0);
    for col in 60..64 {
        assert_eq!(*vram.get_pixel(col, 0).unwrap(), 1);
    }
    for col in 0..60 {
        assert_eq!(*vram.get_pixel(col, 0).unwrap(), 0);
    }
}

#[test]
fn stack_round_trip_in_reverse_order() {
    let mut stack = Stack::default();
    for k in 0..16u16 {
        stack.push(0x200 + k).unwrap();
    }
    assert_eq!(stack.push(0x300), None);
    for k in (0..16u16).rev() {
        assert_eq!(stack.pop(), Some(0x200 + k));
    }
    assert_eq!(stack.pop(), None);
}

#[test]
fn load_places_image_and_zeroes_scratch() {
    let mut mem = Mem::new(Vec::new());
    mem.load_rom(vec![0xAB, 0xCD, 0xEF]);
    assert_eq!(mem.read_byte(0x200), Some(0xAB));
    assert_eq!(mem.read_byte(0x201), Some(0xCD));
    assert_eq!(mem.read_byte(0x202), Some(0xEF));
    assert_eq!(mem.read_byte(0x203), Some(0));
    for addr in 0x050..0x200 {
        assert_eq!(mem.read_byte(addr), Some(0));
    }
    for addr in 0x203..0x1000 {
        assert_eq!(mem.read_byte(addr), Some(0));
    }
}

#[test]
fn random_and_with_zero_mask_clears_register() {
    let mut chip8 = Interpreter::new();
    chip8.load_rom(vec![0xC1, 0x00]);
    chip8.cpu.registers.v[1] = 0xEE;
    let state = chip8.tick();
    assert!(matches!(state, CpuState::Normal));
    assert_eq!(chip8.cpu.registers.v[1], 0);
}

#[test]
fn call_and_return_round_trip() {
    let mut cpu = fresh_cpu();
    let pc = cpu.registers.pc;
    cpu.execute(0x2400, &KeyBoard::new(), 0);
    assert_eq!(cpu.registers.pc, 0x400);
    cpu.execute(0x00EE, &KeyBoard::new(), 0);
    assert_eq!(cpu.registers.pc, pc + 2);
}

#[test]
fn call_overflow_is_reported() {
    let mut cpu = fresh_cpu();
    for _ in 0..16 {
        let state = cpu.execute(0x2200, &KeyBoard::new(), 0);
        assert!(matches!(state, CpuState::Normal));
    }
    let state = cpu.execute(0x2200, &KeyBoard::new(), 0);
    match state {
        CpuState::Error(message) => assert_eq!(message, "call stack overflow"),
        _ => panic!("expected an error outcome"),
    }
}

#[test]
fn return_on_empty_stack_is_reported() {
    let mut cpu = fresh_cpu();
    let state = cpu.execute(0x00EE, &KeyBoard::new(), 0);
    match state {
        CpuState::Error(message) => assert_eq!(message, "call stack underflow"),
        _ => panic!("expected an error outcome"),
    }
}

#[test]
fn invalid_opcode_names_the_instruction() {
    let mut cpu = fresh_cpu();
    let state = cpu.execute(0x5001, &KeyBoard::new(), 0);
    match state {
        CpuState::Error(message) => assert_eq!(message, "invalid opcode 0x5001"),
        _ => panic!("expected an error outcome"),
    }
    let mut cpu = fresh_cpu();
    let state = cpu.execute(0xE1FF, &KeyBoard::new(), 0);
    match state {
        CpuState::Error(message) => assert_eq!(message, "invalid opcode 0xE1FF"),
        _ => panic!("expected an error outcome"),
    }
}

#[test]
fn wait_for_key_busy_waits_then_reads_key() {
    let mut chip8 = Interpreter::new();
    chip8.load_rom(vec![0xF3, 0x0A]);
    let pc = chip8.cpu.registers.pc;
    let state = chip8.tick();
    assert!(matches!(state, CpuState::Normal));
    assert_eq!(chip8.cpu.registers.pc, pc);
    chip8.feed_key(Some(0xB));
    let state = chip8.tick();
    assert!(matches!(state, CpuState::Normal));
    assert_eq!(chip8.cpu.registers.pc, pc + 2);
    assert_eq!(chip8.cpu.registers.v[3], 0xB);
}

#[test]
fn key_skip_consults_keypad() {
    let mut chip8 = Interpreter::new();
    chip8.load_rom(vec![0xE1, 0x9E]);
    chip8.cpu.registers.v[1] = 0x5;
    chip8.feed_key(Some(0x5));
    let pc = chip8.cpu.registers.pc;
    chip8.tick();
    assert_eq!(chip8.cpu.registers.pc, pc + 4);
}

#[test]
fn clear_screen_raises_display_changed_flag() {
    let mut chip8 = Interpreter::new();
    chip8.load_rom(vec![0x00, 0xE0]);
    assert!(!chip8.vram_changed());
    let state = chip8.tick();
    assert!(matches!(state, CpuState::Normal));
    assert!(chip8.vram_changed());
}

#[test]
fn display_changed_flag_tracks_the_last_tick() {
    let mut chip8 = Interpreter::new();
    chip8.load_rom(vec![0xD0, 0x01, 0x60, 0x01]);
    let state = chip8.tick();
    assert!(matches!(state, CpuState::Normal));
    assert!(chip8.vram_changed());
    let state = chip8.tick();
    assert!(matches!(state, CpuState::Normal));
    assert!(!chip8.vram_changed());
}

#[test]
fn timers_count_down_to_zero_and_stop() {
    let mut cpu = fresh_cpu();
    cpu.registers.dt = 2;
    cpu.registers.st = 1;
    cpu.decrease_delaytimer();
    cpu.decrease_soundtimer();
    assert_eq!(cpu.registers.dt, 1);
    assert_eq!(cpu.registers.st, 0);
    cpu.decrease_delaytimer();
    cpu.decrease_soundtimer();
    assert_eq!(cpu.registers.dt, 0);
    assert_eq!(cpu.registers.st, 0);
    cpu.decrease_delaytimer();
    assert_eq!(cpu.registers.dt, 0);
}

#[test]
fn bcd_decomposition() {
    let mut cpu = fresh_cpu();
    cpu.registers.v[0] = 123;
    cpu.registers.i = 0x300;
    cpu.execute(0xF033, &KeyBoard::new(), 0);
    assert_eq!(cpu.mem.read_byte(0x300), Some(1));
    assert_eq!(cpu.mem.read_byte(0x301), Some(2));
    assert_eq!(cpu.mem.read_byte(0x302), Some(3));
}

#[test]
fn bulk_store_and_load_leave_address_register_unchanged() {
    let mut cpu = fresh_cpu();
    cpu.registers.v[0] = 7;
    cpu.registers.v[1] = 8;
    cpu.registers.v[2] = 9;
    cpu.registers.i = 0x300;
    cpu.execute(0xF255, &KeyBoard::new(), 0);
    assert_eq!(cpu.registers.i, 0x300);
    assert_eq!(cpu.mem.read_byte(0x300), Some(7));
    assert_eq!(cpu.mem.read_byte(0x301), Some(8));
    assert_eq!(cpu.mem.read_byte(0x302), Some(9));

    cpu.registers.v[0] = 0;
    cpu.registers.v[1] = 0;
    cpu.registers.v[2] = 0;
    cpu.execute(0xF265, &KeyBoard::new(), 0);
    assert_eq!(cpu.registers.i, 0x300);
    assert_eq!(cpu.registers.v[0], 7);
    assert_eq!(cpu.registers.v[1], 8);
    assert_eq!(cpu.registers.v[2], 9);
}

#[test]
fn glyph_lookup_points_into_font_table() {
    let mut cpu = fresh_cpu();
    cpu.registers.v[0] = 2;
    cpu.execute(0xF029, &KeyBoard::new(), 0);
    assert_eq!(cpu.registers.i, 10);
}

#[test]
fn finished_when_pc_walks_off_memory() {
    let mut chip8 = Interpreter::new();
    chip8.cpu.registers.pc = 0x1000;
    let state = chip8.tick();
    assert!(matches!(state, CpuState::Finished));
}

#[test]
fn fetch_at_last_byte_is_reported() {
    let mut chip8 = Interpreter::new();
    chip8.cpu.registers.pc = 0xFFF;
    let state = chip8.tick();
    match state {
        CpuState::Error(message) => assert_eq!(message, "instruction fetch out of memory range"),
        _ => panic!("expected an error outcome"),
    }
}

#[test]
fn screen_buffer_scales_pixels_tenfold() {
    let mut vram = Vram::default();
    vram.set_pixel(0, 0);
    let buffer = vram.to_screen_buffer();
    assert_eq!(buffer.len(), 640 * 320);
    assert_eq!(buffer[0], 0xFFFF);
    assert_eq!(buffer[9], 0xFFFF);
    assert_eq!(buffer[10], 0);
    assert_eq!(buffer[9 * 640 + 9], 0xFFFF);
    assert_eq!(buffer[10 * 640], 0);
}

#[test]
fn legacy_shift_quirk_reads_register_y() {
    let mut cpu = fresh_cpu();
    cpu.quirks.shift_source_y = true;
    cpu.registers.v[1] = 0;
    cpu.registers.v[2] = 5;
    cpu.execute(0x8126, &KeyBoard::new(), 0);
    assert_eq!(cpu.registers.v[1], 2);
    assert_eq!(cpu.registers.v[15], 1);
}

#[test]
fn legacy_bulk_quirk_advances_address_register() {
    let mut cpu = fresh_cpu();
    cpu.quirks.bulk_advances_i = true;
    cpu.registers.i = 0x300;
    cpu.execute(0xF255, &KeyBoard::new(), 0);
    assert_eq!(cpu.registers.i, 0x303);
}
