use chip8::chip8::cpu::{Cpu, OpCode};
use chip8::chip8::keypad::{keypad_index, HostKey, KeyEvent};
use chip8::chip8::sound::{NoOpSoundController, SoundController};
use chip8::chip8::Emulator;

fn lit_pixels(graphics: &[[u8; 64]; 32]) -> usize {
    graphics.iter().map(|row| row.iter().filter(|p| **p == 1).count()).sum()
}

#[test]
fn decode_splits_fields() {
    let op = OpCode::from_u16(0xD12F);
    assert_eq!(op.nibbles, (0xD, 0x1, 0x2, 0xF));
    assert_eq!(op.x, 1);
    assert_eq!(op.y, 2);
    assert_eq!(op.n, 0xF);
    assert_eq!(op.kk, 0x2F);
    assert_eq!(op.nnn, 0x12F);
    assert_eq!(op.raw, 0xD12F);
}

#[test]
fn fresh_machine_state() {
    let emu = Cpu::initialize();
    assert_eq!(emu.pc, 0x200);
    assert_eq!(emu.sp, 0);
    assert_eq!(emu.i, 0);
    assert_eq!(emu.memory.len(), 4096);
    assert_eq!(&emu.memory[0..5], &[0xF0, 0x90, 0x90, 0x90, 0xF0]);
    assert_eq!(&emu.memory[75..80], &[0xF0, 0x80, 0xF0, 0x80, 0x80]);
    assert_eq!(emu.memory[80], 0);
    assert_eq!(emu.memory[0x200], 0);
    assert_eq!(emu.v, vec![0u8; 16]);
    assert_eq!(emu.key, vec![false; 16]);
    assert!(!emu.wait_key);
    assert_eq!(lit_pixels(&emu.graphics), 0);
}

#[test]
fn sys_word_only_advances() {
    let mut emu = Cpu::initialize();
    emu.cpu_step(0x0123);
    assert_eq!(emu.pc, 0x202);
    assert_eq!(emu.sp, 0);
}

#[test]
fn call_then_return() {
    let mut emu = Cpu::initialize();
    emu.cpu_step(0x2300);
    assert_eq!(emu.pc, 0x300);
    assert_eq!(emu.sp, 1);
    assert_eq!(emu.stack[1], 0x200);
    emu.cpu_step(0x00EE);
    assert_eq!(emu.sp, 0);
    assert_eq!(emu.pc, 0x202);
}

#[test]
fn jump_with_offset() {
    let mut emu = Cpu::initialize();
    emu.v[0] = 0x10;
    emu.cpu_step(0xB300);
    assert_eq!(emu.pc, 0x310);
}

#[test]
fn skip_if_vx_not_equal_byte_does_not_skip_on_equal() {
    let mut emu = Cpu::initialize();
    emu.v[2] = 0x44;
    emu.cpu_step(0x4244);
    assert_eq!(emu.pc, 0x202);
}

#[test]
fn subtract_equal_values_clears_flag() {
    let mut emu = Cpu::initialize();
    emu.v[1] = 5;
    emu.v[2] = 5;
    emu.v[0xF] = 7;
    emu.cpu_step(0x8125);
    assert_eq!(emu.v[1], 0);
    assert_eq!(emu.v[0xF], 0);
}

#[test]
fn add_overflow_sets_carry() {
    let mut emu = Cpu::initialize();
    emu.v[3] = 0xFF;
    emu.v[4] = 0x01;
    emu.cpu_step(0x8344);
    assert_eq!(emu.v[3], 0x00);
    assert_eq!(emu.v[0xF], 1);
}

#[test]
fn shift_left_flag_from_msb() {
    let mut emu = Cpu::initialize();
    emu.v[5] = 0b1000_0000;
    emu.cpu_step(0x856E);
    assert_eq!(emu.v[5], 0);
    assert_eq!(emu.v[0xF], 1);
}

#[test]
fn draw_same_sprite_twice_clears_and_flags() {
    let mut emu = Cpu::initialize();
    // glyph "0" of the font, at (0, 0)
    emu.cpu_step(0xA000);
    let first = emu.cpu_step(0xD015);
    assert_eq!(emu.v[0xF], 0);
    assert_eq!(lit_pixels(&first.graphics), 14);
    assert_eq!(first.graphics[0][0..5], [1, 1, 1, 1, 0]);
    assert_eq!(first.graphics[1][0..5], [1, 0, 0, 1, 0]);
    let second = emu.cpu_step(0xD015);
    assert_eq!(emu.v[0xF], 1);
    assert_eq!(lit_pixels(&second.graphics), 0);
    assert_eq!(lit_pixels(&emu.graphics), 0);
}

#[test]
fn draw_partial_overlap_sets_flag() {
    let mut emu = Cpu::initialize();
    emu.cpu_step(0xA000);
    emu.cpu_step(0xD011);
    // draw the same 0xF0 row shifted right by two columns
    emu.v[2] = 2;
    emu.cpu_step(0xD211);
    assert_eq!(emu.v[0xF], 1);
    assert_eq!(emu.graphics[0][0..7], [1, 1, 0, 0, 1, 1, 0]);
}

#[test]
fn draw_wraps_around_edges() {
    let mut emu = Cpu::initialize();
    emu.v[0] = 62;
    emu.v[1] = 31;
    emu.cpu_step(0xA000);
    emu.cpu_step(0xD012);
    assert_eq!(emu.v[0xF], 0);
    assert_eq!(emu.graphics[31][62], 1);
    assert_eq!(emu.graphics[31][63], 1);
    assert_eq!(emu.graphics[31][0], 1);
    assert_eq!(emu.graphics[31][1], 1);
    assert_eq!(emu.graphics[31][2], 0);
    // second sprite row 0x90 lands on row 0
    assert_eq!(emu.graphics[0][62], 1);
    assert_eq!(emu.graphics[0][63], 0);
    assert_eq!(emu.graphics[0][0], 0);
    assert_eq!(emu.graphics[0][1], 1);
    assert_eq!(lit_pixels(&emu.graphics), 6);
}

#[test]
fn clear_screen_twice_is_blank() {
    let mut emu = Cpu::initialize();
    emu.cpu_step(0xA000);
    emu.cpu_step(0xD015);
    assert!(lit_pixels(&emu.graphics) > 0);
    emu.cpu_step(0x00E0);
    assert_eq!(lit_pixels(&emu.graphics), 0);
    let r = emu.cpu_step(0x00E0);
    assert_eq!(lit_pixels(&r.graphics), 0);
    assert_eq!(emu.pc, 0x208);
}

#[test]
fn bcd_of_register() {
    let mut emu = Cpu::initialize();
    emu.v[5] = 234;
    emu.cpu_step(0xA300);
    emu.cpu_step(0xF533);
    assert_eq!(&emu.memory[0x300..0x303], &[2, 3, 4]);
}

#[test]
fn store_then_load_registers() {
    let mut emu = Cpu::initialize();
    emu.v[0] = 1;
    emu.v[1] = 2;
    emu.v[2] = 3;
    emu.v[3] = 4;
    emu.v[4] = 9;
    emu.cpu_step(0xA400);
    emu.cpu_step(0xF355);
    assert_eq!(&emu.memory[0x400..0x405], &[1, 2, 3, 4, 0]);
    for k in 0..5 {
        emu.v[k] = 0;
    }
    emu.cpu_step(0xF365);
    assert_eq!(&emu.v[0..5], &[1, 2, 3, 4, 0]);
    assert_eq!(emu.i, 0x400);
}

#[test]
fn font_glyph_address() {
    let mut emu = Cpu::initialize();
    emu.v[2] = 0xA;
    emu.cpu_step(0xF229);
    assert_eq!(emu.i, 50);
}

#[test]
fn add_register_to_index() {
    let mut emu = Cpu::initialize();
    emu.cpu_step(0xA010);
    emu.v[3] = 0x20;
    emu.cpu_step(0xF31E);
    assert_eq!(emu.i, 0x30);
    assert_eq!(emu.v[0xF], 0);
}

#[test]
fn skip_on_key_state() {
    let mut emu = Cpu::initialize();
    emu.key[5] = true;
    emu.v[1] = 5;
    emu.cpu_step(0xE19E);
    assert_eq!(emu.pc, 0x204);
    emu.cpu_step(0xE1A1);
    assert_eq!(emu.pc, 0x206);
    emu.v[1] = 6;
    emu.cpu_step(0xE1A1);
    assert_eq!(emu.pc, 0x20A);
}

#[test]
fn wait_for_key_polls() {
    let mut emu = Cpu::initialize();
    emu.cpu_step(0xF30A);
    assert_eq!(emu.pc, 0x200);
    assert!(emu.wait_key);
    emu.cpu_step(0xF30A);
    assert_eq!(emu.pc, 0x200);
    assert!(emu.wait_key);
    emu.key[9] = true;
    emu.key[7] = true;
    emu.cpu_step(0xF30A);
    assert_eq!(emu.v[3], 7);
    assert_eq!(emu.pc, 0x202);
    assert!(!emu.wait_key);
}

#[test]
fn delay_timer_counts_down() {
    let mut emu = Cpu::initialize();
    emu.v[1] = 3;
    emu.cpu_step(0xF115);
    assert_eq!(emu.delay_timer, 2);
    emu.cpu_step(0xF207);
    assert_eq!(emu.v[2], 2);
    assert_eq!(emu.delay_timer, 1);
    emu.cpu_step(0x0000);
    emu.cpu_step(0x0000);
    assert_eq!(emu.delay_timer, 0);
}

#[test]
fn sound_flag_after_countdown() {
    let mut emu = Cpu::initialize();
    emu.v[1] = 2;
    let r = emu.cpu_step(0xF118);
    assert_eq!(emu.sound_timer, 1);
    assert!(r.make_sound);
    let r = emu.cpu_step(0x0000);
    assert_eq!(emu.sound_timer, 0);
    assert!(!r.make_sound);
    emu.v[1] = 1;
    let r = emu.cpu_step(0xF118);
    assert!(!r.make_sound);
}

#[test]
fn random_byte_is_masked() {
    let mut emu = Cpu::initialize();
    emu.run_cycle(0xC0F0, 0xAB);
    assert_eq!(emu.v[0], 0xA0);
    assert_eq!(emu.pc, 0x202);
    for _ in 0..20 {
        emu.cpu_step(0xC10F);
        assert!(emu.v[1] <= 0x0F);
    }
}

#[test]
fn load_rom_then_step() {
    let mut emu = Cpu::initialize();
    assert!(emu.load_rom(&[0x12, 0x34]).is_ok());
    assert_eq!(emu.memory[0x200], 0x12);
    assert_eq!(emu.memory[0x201], 0x34);
    assert_eq!(emu.memory[0x202], 0);
    assert_eq!(emu.fetch(), Some(0x1234));
    emu.step();
    assert_eq!(emu.pc, 0x234);
}

#[test]
fn load_rom_that_fills_memory() {
    let mut emu = Cpu::initialize();
    let rom = vec![0xAAu8; 4096 - 0x200];
    assert!(emu.load_rom(&rom).is_ok());
    assert_eq!(emu.memory[4095], 0xAA);
    assert_eq!(emu.memory[0x1FF], 0);
}

#[test]
fn load_rom_too_large() {
    let mut emu = Cpu::initialize();
    let rom = vec![0xAAu8; 4096 - 0x200 + 1];
    match emu.load_rom(&rom) {
        Err(e) => assert_eq!(e.len, 3585),
        Ok(()) => panic!("an oversized image must be refused"),
    }
    assert_eq!(emu.memory[0x200], 0);
}

#[test]
fn fetch_at_end_of_memory() {
    let mut emu = Cpu::initialize();
    emu.cpu_step(0x1FFF);
    assert_eq!(emu.pc, 0xFFF);
    assert_eq!(emu.fetch(), None);
    emu.cpu_step(0x1FFE);
    assert_eq!(emu.fetch(), Some(0));
}

#[test]
fn executability_checks() {
    let mut emu = Cpu::initialize();
    assert!(!emu.can_execute_word(0x00EE));
    assert!(emu.can_execute_word(0x2000));
    assert!(emu.can_execute_word(0x00E0));
    emu.v[1] = 16;
    assert!(!emu.can_execute_word(0xE19E));
    emu.cpu_step(0xAFFF);
    assert!(!emu.can_execute_word(0xF033));
    assert!(emu.can_execute_word(0xD011));
    assert!(!emu.can_execute_word(0xD012));
}

#[test]
fn keypad_layout() {
    assert_eq!(keypad_index('Q'), Some(0xA));
    assert_eq!(keypad_index('Y'), Some(0xF));
    assert_eq!(keypad_index('U'), Some(0));
    assert_eq!(keypad_index('K'), Some(9));
    assert_eq!(keypad_index('Z'), None);
}

#[test]
fn key_events_update_keypad() {
    let mut emu = Cpu::initialize();
    assert!(!emu.handle_key_event(KeyEvent::KeyDown(HostKey::Letter('D'))));
    assert!(emu.key[4]);
    assert!(!emu.handle_key_event(KeyEvent::KeyUp(HostKey::Letter('D'))));
    assert!(!emu.key[4]);
    assert!(!emu.handle_key_event(KeyEvent::KeyDown(HostKey::Letter('Z'))));
    assert!(!emu.handle_key_event(KeyEvent::KeyUp(HostKey::Escape)));
    assert!(!emu.handle_key_event(KeyEvent::Other));
    assert!(emu.handle_key_event(KeyEvent::KeyDown(HostKey::Escape)));
    assert!(emu.handle_key_event(KeyEvent::Quit));
    assert_eq!(emu.key, vec![false; 16]);
}

#[test]
fn session_and_silent_sound() {
    let _emulator = Emulator::initialize();
    let sound = NoOpSoundController {};
    sound.play();
    sound.stop();
}

#[test]
fn unlisted_nine_form_only_advances() {
    let mut emu = Cpu::initialize();
    emu.v[0xA] = 1;
    emu.v[0xE] = 0;
    emu.cpu_step(0x9AE1);
    assert_eq!(emu.pc, 0x202);
    emu.cpu_step(0x9AE0);
    assert_eq!(emu.pc, 0x206);
}
