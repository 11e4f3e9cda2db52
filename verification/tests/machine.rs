use chip8_core::state::{FONT, FONT_SIZE, MAX_ROM_SIZE, RAM_SIZE, SCREEN_SIZE, START_ADDR};
use chip8_core::{Emu, EmuError, SCREEN_HEIGHT, SCREEN_WIDTH};

fn assert_power_on(emu: &Emu) {
    assert_eq!(emu.pc(), 0x200);
    assert_eq!(emu.index_register(), 0);
    assert_eq!(emu.stack_depth(), 0);
    assert_eq!(emu.delay_timer(), 0);
    assert_eq!(emu.sound_timer(), 0);
    assert!(emu.registers().iter().all(|&v| v == 0));
    assert!(emu.call_stack().iter().all(|&a| a == 0));
    assert!(emu.keys().iter().all(|&k| !k));
    assert!(emu.get_display().iter().all(|&c| !c));
    assert_eq!(&emu.memory()[..FONT_SIZE], &FONT[..]);
    assert!(emu.memory()[FONT_SIZE..].iter().all(|&b| b == 0));
}

#[test]
fn new_machine_is_at_power_on() {
    let emu = Emu::new();
    assert_power_on(&emu);
    assert_eq!(emu.memory().len(), RAM_SIZE);
    assert_eq!(emu.get_display().len(), SCREEN_SIZE);
    assert_eq!(SCREEN_WIDTH * SCREEN_HEIGHT, SCREEN_SIZE);
    assert_eq!(emu.registers().len(), 16);
    assert_eq!(emu.call_stack().len(), 16);
    assert_eq!(emu.keys().len(), 16);
}

#[test]
fn reset_returns_to_power_on() {
    let mut emu = Emu::new();
    // Set I to glyph 0, draw it, call a subroutine, set both timers, press a key.
    let rom = [0x60, 0x07, 0xA0, 0x00, 0xD0, 0x05, 0xF0, 0x15, 0xF0, 0x18, 0x22, 0x10];
    emu.load(&rom).unwrap();
    for _ in 0..6 {
        emu.tick().unwrap();
    }
    emu.keypress(3, true).unwrap();
    assert_eq!(emu.pc(), 0x210);
    assert_eq!(emu.stack_depth(), 1);
    assert_eq!(emu.delay_timer(), 7);
    assert!(emu.get_display().iter().any(|&c| c));
    emu.reset();
    assert_power_on(&emu);

    let fresh = Emu::new();
    assert_eq!(emu.pc(), fresh.pc());
    assert_eq!(emu.index_register(), fresh.index_register());
    assert_eq!(emu.stack_depth(), fresh.stack_depth());
    assert_eq!(emu.delay_timer(), fresh.delay_timer());
    assert_eq!(emu.sound_timer(), fresh.sound_timer());
    assert_eq!(emu.registers(), fresh.registers());
    assert_eq!(emu.memory(), fresh.memory());
    assert_eq!(emu.call_stack(), fresh.call_stack());
    assert_eq!(emu.keys(), fresh.keys());
    assert_eq!(emu.get_display(), fresh.get_display());
}

#[test]
fn font_table_has_the_sixteen_glyphs() {
    let emu = Emu::new();
    let mem = emu.memory();
    assert_eq!(&mem[0..5], &[0xF0, 0x90, 0x90, 0x90, 0xF0]);
    assert_eq!(&mem[5..10], &[0x20, 0x60, 0x20, 0x20, 0x70]);
    assert_eq!(&mem[50..55], &[0xF0, 0x90, 0xF0, 0x90, 0x90]);
    assert_eq!(&mem[75..80], &[0xF0, 0x80, 0xF0, 0x80, 0x80]);
    assert_eq!(mem[80], 0);
}

#[test]
fn load_copies_the_program_to_0x200() {
    let mut emu = Emu::new();
    assert_eq!(emu.load(&[0x12, 0x34, 0x56]), Ok(()));
    let mem = emu.memory();
    assert_eq!(&mem[0x200..0x203], &[0x12, 0x34, 0x56]);
    assert_eq!(mem[0x1FF], 0);
    assert_eq!(mem[0x203], 0);
    assert_eq!(emu.pc(), START_ADDR);
}

#[test]
fn load_leaves_the_font_in_place() {
    let mut emu = Emu::new();
    let rom = vec![0xFF; MAX_ROM_SIZE];
    assert_eq!(emu.load(&rom), Ok(()));
    assert_eq!(&emu.memory()[..FONT_SIZE], &FONT[..]);
    assert!(emu.memory()[FONT_SIZE..0x200].iter().all(|&b| b == 0));
    assert!(emu.memory()[0x200..].iter().all(|&b| b == 0xFF));
}

#[test]
fn load_accepts_an_empty_program() {
    let mut emu = Emu::new();
    assert_eq!(emu.load(&[]), Ok(()));
    assert!(emu.memory()[0x200..].iter().all(|&b| b == 0));
}

#[test]
fn load_refuses_a_program_that_does_not_fit() {
    let mut emu = Emu::new();
    let rom = vec![0xAB; MAX_ROM_SIZE + 1];
    assert_eq!(emu.load(&rom), Err(EmuError::OversizedRom));
    assert!(emu.memory()[0x200..].iter().all(|&b| b == 0));
    assert_eq!(&emu.memory()[..FONT_SIZE], &FONT[..]);
}

#[test]
fn keypress_sets_and_clears_one_latch() {
    let mut emu = Emu::new();
    assert_eq!(emu.keypress(0xF, true), Ok(()));
    assert_eq!(emu.keypress(0, true), Ok(()));
    for k in 0..16 {
        assert_eq!(emu.keys()[k], k == 0 || k == 15);
    }
    assert_eq!(emu.keypress(0xF, false), Ok(()));
    for k in 0..16 {
        assert_eq!(emu.keys()[k], k == 0);
    }
}

#[test]
fn keypress_refuses_an_index_of_sixteen_or_more() {
    let mut emu = Emu::new();
    assert_eq!(emu.keypress(16, true), Err(EmuError::InvalidInputIndex));
    assert_eq!(emu.keypress(usize::MAX, true), Err(EmuError::InvalidInputIndex));
    assert!(emu.keys().iter().all(|&k| !k));
}

#[test]
fn timers_count_down_to_zero_and_stay() {
    let mut emu = Emu::new();
    // V0 = 3, V1 = 5, delay = V0, sound = V1.
    emu.load(&[0x60, 0x03, 0x61, 0x05, 0xF0, 0x15, 0xF1, 0x18]).unwrap();
    for _ in 0..4 {
        emu.tick().unwrap();
    }
    assert_eq!((emu.delay_timer(), emu.sound_timer()), (3, 5));
    emu.tick_timers();
    assert_eq!((emu.delay_timer(), emu.sound_timer()), (2, 4));
    emu.tick_timers();
    emu.tick_timers();
    assert_eq!((emu.delay_timer(), emu.sound_timer()), (0, 2));
    emu.tick_timers();
    assert_eq!((emu.delay_timer(), emu.sound_timer()), (0, 1));
    emu.tick_timers();
    assert_eq!((emu.delay_timer(), emu.sound_timer()), (0, 0));
    for _ in 0..10 {
        emu.tick_timers();
        assert_eq!((emu.delay_timer(), emu.sound_timer()), (0, 0));
    }
}

#[test]
fn timer_set_to_255_reaches_zero_after_255_ticks() {
    let mut emu = Emu::new();
    emu.execute(0x60FF, 0).unwrap();
    emu.execute(0xF015, 0).unwrap();
    for n in 1..=255u32 {
        emu.tick_timers();
        assert_eq!(emu.delay_timer() as u32, 255 - n);
    }
    emu.tick_timers();
    assert_eq!(emu.delay_timer(), 0);
}

#[test]
fn tick_timers_changes_nothing_else() {
    let mut emu = Emu::new();
    emu.load(&[0x60, 0x09, 0xF0, 0x15]).unwrap();
    emu.tick().unwrap();
    emu.tick().unwrap();
    let pc = emu.pc();
    let regs = emu.registers().to_vec();
    let mem = emu.memory().to_vec();
    emu.tick_timers();
    assert_eq!(emu.pc(), pc);
    assert_eq!(emu.registers(), &regs[..]);
    assert_eq!(emu.memory(), &mem[..]);
    assert_eq!(emu.delay_timer(), 8);
}

#[test]
fn two_steps_of_a_small_program() {
    let mut emu = Emu::new();
    emu.load(&[0x00, 0xE0, 0x60, 0x05]).unwrap();
    assert_eq!(emu.tick(), Ok(()));
    assert!(emu.get_display().iter().all(|&c| !c));
    assert_eq!(emu.pc(), 0x202);
    assert_eq!(emu.tick(), Ok(()));
    assert_eq!(emu.registers()[0], 5);
    assert_eq!(emu.pc(), 0x204);
}

#[test]
fn stepping_into_empty_memory_is_an_unimplemented_opcode() {
    let mut emu = Emu::new();
    assert_eq!(emu.tick(), Err(EmuError::UnimplementedOpcode { opcode: 0x0000 }));
    // The word was fetched: the program counter stands behind it.
    assert_eq!(emu.pc(), 0x202);
}

#[test]
fn fetch_past_the_end_of_memory_fails() {
    let mut emu = Emu::new();
    // Jump to 0xFFF: only one byte of the instruction lies in memory.
    emu.load(&[0x1F, 0xFF]).unwrap();
    assert_eq!(emu.tick(), Ok(()));
    assert_eq!(emu.pc(), 0xFFF);
    assert_eq!(emu.tick(), Err(EmuError::AddressOutOfRange));
    assert_eq!(emu.pc(), 0xFFF);
}

#[test]
fn last_instruction_slot_can_be_fetched() {
    let mut emu = Emu::new();
    let mut rom = vec![0u8; MAX_ROM_SIZE];
    rom[0] = 0x1F;
    rom[1] = 0xFE;
    rom[MAX_ROM_SIZE - 2] = 0x6A;
    rom[MAX_ROM_SIZE - 1] = 0x42;
    emu.load(&rom).unwrap();
    assert_eq!(emu.tick(), Ok(()));
    assert_eq!(emu.pc(), 0xFFE);
    assert_eq!(emu.tick(), Ok(()));
    assert_eq!(emu.registers()[0xA], 0x42);
    assert_eq!(emu.pc(), 0x1000);
    assert_eq!(emu.tick(), Err(EmuError::AddressOutOfRange));
}

#[test]
fn random_instruction_masks_the_drawn_byte() {
    let mut emu = Emu::new();
    // V0 = random & 0x00, V1 = random & 0x0F, V2 = random & 0xFF, then loop.
    emu.load(&[0xC0, 0x00, 0xC1, 0x0F, 0xC2, 0xFF, 0x12, 0x00]).unwrap();
    let mut seen = [false; 256];
    for _ in 0..2000 {
        emu.tick().unwrap();
        emu.tick().unwrap();
        emu.tick().unwrap();
        emu.tick().unwrap();
        assert_eq!(emu.registers()[0], 0);
        assert!(emu.registers()[1] <= 0x0F);
        seen[emu.registers()[2] as usize] = true;
        assert_eq!(emu.pc(), 0x200);
    }
    // 2000 draws from 256 values leave more than one value seen.
    assert!(seen.iter().filter(|&&s| s).count() > 1);
}
