use chip8_core::{decode, Emu, EmuError, Instruction};

fn run(ops: &[u16]) -> Emu {
    let mut emu = Emu::new();
    for &op in ops {
        assert_eq!(emu.execute(op, 0), Ok(()));
    }
    emu
}

#[test]
fn decode_recognises_every_instruction() {
    assert_eq!(decode(0x00E0), Some(Instruction::ClearScreen));
    assert_eq!(decode(0x00EE), Some(Instruction::Return));
    assert_eq!(decode(0x1ABC), Some(Instruction::Jump { addr: 0xABC }));
    assert_eq!(decode(0x2FFF), Some(Instruction::Call { addr: 0xFFF }));
    assert_eq!(decode(0x3A12), Some(Instruction::SkipEqImm { x: 0xA, nn: 0x12 }));
    assert_eq!(decode(0x4B34), Some(Instruction::SkipNeImm { x: 0xB, nn: 0x34 }));
    assert_eq!(decode(0x5120), Some(Instruction::SkipEqReg { x: 1, y: 2 }));
    assert_eq!(decode(0x6C56), Some(Instruction::LoadImm { x: 0xC, nn: 0x56 }));
    assert_eq!(decode(0x7D78), Some(Instruction::AddImm { x: 0xD, nn: 0x78 }));
    assert_eq!(decode(0x8120), Some(Instruction::Move { x: 1, y: 2 }));
    assert_eq!(decode(0x8121), Some(Instruction::Or { x: 1, y: 2 }));
    assert_eq!(decode(0x8122), Some(Instruction::And { x: 1, y: 2 }));
    assert_eq!(decode(0x8123), Some(Instruction::Xor { x: 1, y: 2 }));
    assert_eq!(decode(0x8124), Some(Instruction::AddReg { x: 1, y: 2 }));
    assert_eq!(decode(0x8125), Some(Instruction::SubReg { x: 1, y: 2 }));
    assert_eq!(decode(0x8126), Some(Instruction::ShiftRight { x: 1 }));
    assert_eq!(decode(0x8127), Some(Instruction::SubFrom { x: 1, y: 2 }));
    assert_eq!(decode(0x812E), Some(Instruction::ShiftLeft { x: 1 }));
    assert_eq!(decode(0x9120), Some(Instruction::SkipNeReg { x: 1, y: 2 }));
    assert_eq!(decode(0xA123), Some(Instruction::LoadIndex { addr: 0x123 }));
    assert_eq!(decode(0xB456), Some(Instruction::JumpOffset { addr: 0x456 }));
    assert_eq!(decode(0xC7F0), Some(Instruction::Random { x: 7, nn: 0xF0 }));
    assert_eq!(decode(0xD125), Some(Instruction::Draw { x: 1, y: 2, n: 5 }));
    assert_eq!(decode(0xE39E), Some(Instruction::SkipKeyDown { x: 3 }));
    assert_eq!(decode(0xE3A1), Some(Instruction::SkipKeyUp { x: 3 }));
    assert_eq!(decode(0xF407), Some(Instruction::ReadDelay { x: 4 }));
    assert_eq!(decode(0xF40A), Some(Instruction::WaitKey { x: 4 }));
    assert_eq!(decode(0xF415), Some(Instruction::SetDelay { x: 4 }));
    assert_eq!(decode(0xF418), Some(Instruction::SetSound { x: 4 }));
    assert_eq!(decode(0xF41E), Some(Instruction::AddIndex { x: 4 }));
    assert_eq!(decode(0xF429), Some(Instruction::FontAddr { x: 4 }));
    assert_eq!(decode(0xF433), Some(Instruction::StoreBcd { x: 4 }));
    assert_eq!(decode(0xF455), Some(Instruction::StoreRegs { x: 4 }));
    assert_eq!(decode(0xF465), Some(Instruction::LoadRegs { x: 4 }));
}

#[test]
fn decode_refuses_words_outside_the_instruction_set() {
    for op in [
        0x0000u16, 0x00E1, 0x00EF, 0x0123, 0x01E0, 0x5121, 0x512F, 0x8128, 0x812D, 0x812F, 0x9121,
        0xE39F, 0xE3A0, 0xE000, 0xF400, 0xF456, 0xF466, 0xF4FF, 0xFFFF,
    ] {
        assert_eq!(decode(op), None, "{:#06X}", op);
    }
}

#[test]
fn decode_covers_exactly_the_documented_patterns() {
    let mut known = 0u32;
    for op in 0..=0xFFFFu16 {
        let a = op >> 12;
        let n = op & 0xF;
        let nn = op & 0xFF;
        let expected = match a {
            0x0 => op == 0x00E0 || op == 0x00EE,
            0x1 | 0x2 | 0x3 | 0x4 | 0x6 | 0x7 | 0xA | 0xB | 0xC | 0xD => true,
            0x5 | 0x9 => n == 0,
            0x8 => n <= 7 || n == 0xE,
            0xE => nn == 0x9E || nn == 0xA1,
            _ => [0x07, 0x0A, 0x15, 0x18, 0x1E, 0x29, 0x33, 0x55, 0x65].contains(&nn),
        };
        assert_eq!(decode(op).is_some(), expected, "{:#06X}", op);
        if expected {
            known += 1;
        }
    }
    assert_eq!(known, 2 + 10 * 4096 + 2 * 256 + 9 * 256 + 2 * 16 + 9 * 16);
}

#[test]
fn execute_reports_an_unimplemented_opcode() {
    let mut emu = Emu::new();
    assert_eq!(emu.execute(0x5121, 0), Err(EmuError::UnimplementedOpcode { opcode: 0x5121 }));
    assert_eq!(emu.execute(0x0000, 0), Err(EmuError::UnimplementedOpcode { opcode: 0 }));
    assert_eq!(emu.pc(), 0x200);
    assert!(emu.registers().iter().all(|&v| v == 0));
}

#[test]
fn load_immediate_and_add_immediate() {
    let emu = run(&[0x6AFE, 0x7A01]);
    assert_eq!(emu.registers()[0xA], 0xFF);
    let emu = run(&[0x6AFE, 0x7A03, 0x6F07]);
    // 0xFE + 3 wraps to 1; VF is only what the program stored.
    assert_eq!(emu.registers()[0xA], 0x01);
    assert_eq!(emu.registers()[0xF], 0x07);
    let emu = run(&[0x6AFE, 0x7A03]);
    assert_eq!(emu.registers()[0xF], 0);
}

#[test]
fn move_or_and_xor() {
    let emu = run(&[0x60CC, 0x61AA, 0x8210, 0x8301, 0x8311, 0x8401, 0x8411, 0x8402]);
    assert_eq!(emu.registers()[2], 0xAA);
    let emu = run(&[0x60CC, 0x61AA, 0x8011]);
    assert_eq!(emu.registers()[0], 0xEE);
    let emu = run(&[0x60CC, 0x61AA, 0x8012]);
    assert_eq!(emu.registers()[0], 0x88);
    let emu = run(&[0x60CC, 0x61AA, 0x8013]);
    assert_eq!(emu.registers()[0], 0x66);
    assert_eq!(emu.registers()[1], 0xAA);
}

#[test]
fn add_with_carry() {
    let emu = run(&[0x60FA, 0x610A, 0x8014]);
    assert_eq!(emu.registers()[0], 4);
    assert_eq!(emu.registers()[0xF], 1);
    let emu = run(&[0x600A, 0x610A, 0x8014]);
    assert_eq!(emu.registers()[0], 20);
    assert_eq!(emu.registers()[0xF], 0);
    let emu = run(&[0x60FF, 0x6100, 0x8014]);
    assert_eq!(emu.registers()[0], 255);
    assert_eq!(emu.registers()[0xF], 0);
    let emu = run(&[0x60FF, 0x6101, 0x8014]);
    assert_eq!(emu.registers()[0], 0);
    assert_eq!(emu.registers()[0xF], 1);
}

#[test]
fn subtract_with_borrow() {
    let emu = run(&[0x600A, 0x6103, 0x8015]);
    assert_eq!(emu.registers()[0], 7);
    assert_eq!(emu.registers()[0xF], 1);
    let emu = run(&[0x6003, 0x610A, 0x8015]);
    assert_eq!(emu.registers()[0], 249);
    assert_eq!(emu.registers()[0xF], 0);
    let emu = run(&[0x6005, 0x6105, 0x8015]);
    assert_eq!(emu.registers()[0], 0);
    assert_eq!(emu.registers()[0xF], 1);
}

#[test]
fn reverse_subtract_with_borrow() {
    let emu = run(&[0x6003, 0x610A, 0x8017]);
    assert_eq!(emu.registers()[0], 7);
    assert_eq!(emu.registers()[0xF], 1);
    let emu = run(&[0x600A, 0x6103, 0x8017]);
    assert_eq!(emu.registers()[0], 249);
    assert_eq!(emu.registers()[0xF], 0);
}

#[test]
fn shifts_put_the_lost_bit_in_vf() {
    let emu = run(&[0x6005, 0x8006]);
    assert_eq!(emu.registers()[0], 2);
    assert_eq!(emu.registers()[0xF], 1);
    let emu = run(&[0x6004, 0x8006]);
    assert_eq!(emu.registers()[0], 2);
    assert_eq!(emu.registers()[0xF], 0);
    let emu = run(&[0x6081, 0x800E]);
    assert_eq!(emu.registers()[0], 2);
    assert_eq!(emu.registers()[0xF], 1);
    let emu = run(&[0x6041, 0x800E]);
    assert_eq!(emu.registers()[0], 0x82);
    assert_eq!(emu.registers()[0xF], 0);
    // The shift works on Vx; Vy is not read.
    let emu = run(&[0x6008, 0x61FF, 0x8016]);
    assert_eq!(emu.registers()[0], 4);
    assert_eq!(emu.registers()[1], 0xFF);
}

#[test]
fn flag_wins_when_the_destination_is_vf() {
    let emu = run(&[0x6FFA, 0x610A, 0x8F14]);
    assert_eq!(emu.registers()[0xF], 1);
    let emu = run(&[0x6F0A, 0x6101, 0x8F14]);
    assert_eq!(emu.registers()[0xF], 0);
    let emu = run(&[0x6F03, 0x8F06]);
    assert_eq!(emu.registers()[0xF], 1);
}

#[test]
fn jump_call_and_return() {
    let mut emu = Emu::new();
    emu.load(&[0x22, 0x06, 0x60, 0x01, 0x12, 0x04, 0x61, 0x02, 0x00, 0xEE]).unwrap();
    emu.tick().unwrap();
    assert_eq!(emu.pc(), 0x206);
    assert_eq!(emu.stack_depth(), 1);
    assert_eq!(emu.call_stack()[0], 0x202);
    emu.tick().unwrap();
    assert_eq!(emu.registers()[1], 2);
    assert_eq!(emu.pc(), 0x208);
    emu.tick().unwrap();
    assert_eq!(emu.pc(), 0x202);
    assert_eq!(emu.stack_depth(), 0);
    emu.tick().unwrap();
    assert_eq!(emu.registers()[0], 1);
    assert_eq!(emu.pc(), 0x204);
    emu.tick().unwrap();
    assert_eq!(emu.pc(), 0x204);
}

#[test]
fn jump_with_offset_adds_v0() {
    let mut emu = run(&[0x60FF]);
    emu.execute(0xBFFF, 0).unwrap();
    assert_eq!(emu.pc(), 0xFFF + 0xFF);
    let mut emu = run(&[0x6004, 0x61FF]);
    emu.execute(0xB300, 0).unwrap();
    assert_eq!(emu.pc(), 0x304);
}

#[test]
fn sixteen_nested_calls_fit_and_the_next_overflows() {
    let mut emu = Emu::new();
    // Every instruction calls the one after it.
    let mut rom = Vec::new();
    for k in 0..17u16 {
        let target = 0x202 + 2 * k;
        rom.push(0x20 | (target >> 8) as u8);
        rom.push(target as u8);
    }
    emu.load(&rom).unwrap();
    for k in 0..16usize {
        assert_eq!(emu.tick(), Ok(()));
        assert_eq!(emu.stack_depth(), k + 1);
        assert_eq!(emu.call_stack()[k] as usize, 0x202 + 2 * k);
    }
    let stack = emu.call_stack().to_vec();
    assert_eq!(emu.tick(), Err(EmuError::StackOverflow));
    assert_eq!(emu.stack_depth(), 16);
    assert_eq!(emu.call_stack(), &stack[..]);
    assert_eq!(emu.pc(), 0x222);
}

#[test]
fn return_with_an_empty_stack_underflows() {
    let mut emu = Emu::new();
    emu.load(&[0x00, 0xEE]).unwrap();
    assert_eq!(emu.tick(), Err(EmuError::StackUnderflow));
    assert_eq!(emu.stack_depth(), 0);
    assert_eq!(emu.pc(), 0x202);
}

#[test]
fn skips_advance_by_four_when_taken_and_two_when_not() {
    let cases: [(&[u8], u16); 8] = [
        (&[0x60, 0x11, 0x30, 0x11], 0x206),
        (&[0x60, 0x11, 0x30, 0x12], 0x204),
        (&[0x60, 0x11, 0x40, 0x12], 0x206),
        (&[0x60, 0x11, 0x40, 0x11], 0x204),
        (&[0x60, 0x11, 0x50, 0x10], 0x204),
        (&[0x60, 0x00, 0x50, 0x10], 0x206),
        (&[0x60, 0x11, 0x90, 0x10], 0x206),
        (&[0x60, 0x00, 0x90, 0x10], 0x204),
    ];
    for (rom, pc) in cases {
        let mut emu = Emu::new();
        emu.load(rom).unwrap();
        emu.tick().unwrap();
        assert_eq!(emu.pc(), 0x202);
        emu.tick().unwrap();
        assert_eq!(emu.pc(), pc, "{:02X?}", rom);
    }
}

#[test]
fn ordinary_instructions_advance_by_two() {
    let rom = [
        0x00, 0xE0, 0x61, 0x07, 0x71, 0x01, 0x82, 0x10, 0x82, 0x14, 0xA3, 0x00, 0xD0, 0x01, 0xF1,
        0x07, 0xF1, 0x15, 0xF1, 0x18, 0xF1, 0x1E, 0xF1, 0x29, 0xA3, 0x00, 0xF1, 0x33, 0xF1, 0x55,
        0xF1, 0x65, 0xC1, 0x0F,
    ];
    let mut emu = Emu::new();
    emu.load(&rom).unwrap();
    for k in 0..rom.len() / 2 {
        assert_eq!(emu.pc() as usize, 0x200 + 2 * k);
        assert_eq!(emu.tick(), Ok(()));
    }
    assert_eq!(emu.pc() as usize, 0x200 + rom.len());
}

#[test]
fn key_skips_follow_the_latch() {
    let mut emu = Emu::new();
    emu.load(&[0x60, 0x05, 0xE0, 0x9E, 0xE0, 0xA1, 0x00, 0x00, 0xE0, 0x9E, 0x00, 0x00, 0xE0, 0xA1])
        .unwrap();
    emu.tick().unwrap();
    emu.tick().unwrap();
    assert_eq!(emu.pc(), 0x204);
    emu.tick().unwrap();
    assert_eq!(emu.pc(), 0x208);
    emu.keypress(5, true).unwrap();
    emu.tick().unwrap();
    assert_eq!(emu.pc(), 0x20C);
    emu.tick().unwrap();
    assert_eq!(emu.pc(), 0x20E);
}

#[test]
fn key_skip_with_a_register_of_sixteen_or_more_fails() {
    let mut emu = run(&[0x6010]);
    assert_eq!(emu.execute(0xE09E, 0), Err(EmuError::InvalidInputIndex));
    assert_eq!(emu.execute(0xE0A1, 0), Err(EmuError::InvalidInputIndex));
    assert_eq!(emu.pc(), 0x200);
    let mut emu = run(&[0x600F]);
    assert_eq!(emu.execute(0xE0A1, 0), Ok(()));
    assert_eq!(emu.pc(), 0x202);
}

#[test]
fn wait_key_repeats_until_a_key_is_down() {
    let mut emu = Emu::new();
    emu.load(&[0xF3, 0x0A, 0x61, 0x01]).unwrap();
    for _ in 0..5 {
        assert_eq!(emu.tick(), Ok(()));
        assert_eq!(emu.pc(), 0x200);
        assert_eq!(emu.registers()[3], 0);
    }
    emu.keypress(9, true).unwrap();
    emu.keypress(0xC, true).unwrap();
    assert_eq!(emu.tick(), Ok(()));
    assert_eq!(emu.pc(), 0x202);
    // The lowest-numbered key that is down.
    assert_eq!(emu.registers()[3], 9);
    assert_eq!(emu.tick(), Ok(()));
    assert_eq!(emu.registers()[1], 1);
}

#[test]
fn wait_key_sees_key_zero() {
    let mut emu = run(&[0x6355]);
    emu.keypress(0, true).unwrap();
    emu.execute(0xF30A, 0).unwrap();
    assert_eq!(emu.registers()[3], 0);
    assert_eq!(emu.pc(), 0x200);
}

#[test]
fn timers_are_set_and_read_through_registers() {
    let emu = run(&[0x602A, 0xF015, 0xF107, 0x6207, 0xF218]);
    assert_eq!(emu.delay_timer(), 0x2A);
    assert_eq!(emu.registers()[1], 0x2A);
    assert_eq!(emu.sound_timer(), 7);
}

#[test]
fn index_register_load_add_and_font_address() {
    let emu = run(&[0xAFFF]);
    assert_eq!(emu.index_register(), 0xFFF);
    let emu = run(&[0xA123, 0x60FF, 0xF01E]);
    assert_eq!(emu.index_register(), 0x222);
    let emu = run(&[0x600A, 0xF029]);
    assert_eq!(emu.index_register(), 50);
    let emu = run(&[0x60FF, 0xF029]);
    assert_eq!(emu.index_register(), 1275);
}

#[test]
fn index_register_addition_wraps_at_sixteen_bits() {
    // 257 additions of 255 take I from 0 to 65535; one more of 2 wraps to 1.
    let mut emu = run(&[0x60FF]);
    for _ in 0..257 {
        emu.execute(0xF01E, 0).unwrap();
    }
    assert_eq!(emu.index_register(), 0xFFFF);
    emu.execute(0x6002, 0).unwrap();
    emu.execute(0xF01E, 0).unwrap();
    assert_eq!(emu.index_register(), 1);
}

#[test]
fn bcd_stores_three_decimal_digits() {
    let emu = run(&[0x609C, 0xA300, 0xF033]);
    assert_eq!(&emu.memory()[0x300..0x303], &[1, 5, 6]);
    let emu = run(&[0x60FF, 0xA300, 0xF033]);
    assert_eq!(&emu.memory()[0x300..0x303], &[2, 5, 5]);
    let emu = run(&[0x6007, 0xA300, 0xF033]);
    assert_eq!(&emu.memory()[0x300..0x303], &[0, 0, 7]);
    let emu = run(&[0x6064, 0xAFFD, 0xF033]);
    assert_eq!(&emu.memory()[0xFFD..0x1000], &[1, 0, 0]);
}

#[test]
fn bcd_past_the_end_of_memory_fails() {
    let mut emu = run(&[0x609C, 0xAFFE]);
    let before = emu.memory().to_vec();
    assert_eq!(emu.execute(0xF033, 0), Err(EmuError::AddressOutOfRange));
    assert_eq!(emu.memory(), &before[..]);
}

#[test]
fn store_then_load_round_trips_the_registers() {
    let mut emu = run(&[0x6011, 0x6122, 0x6233, 0x6344, 0xA400, 0xF255]);
    assert_eq!(&emu.memory()[0x400..0x404], &[0x11, 0x22, 0x33, 0x00]);
    assert_eq!(emu.index_register(), 0x400);
    for op in [0x6000u16, 0x6100, 0x6200, 0x6300] {
        emu.execute(op, 0).unwrap();
    }
    emu.execute(0xF265, 0).unwrap();
    assert_eq!(&emu.registers()[0..4], &[0x11, 0x22, 0x33, 0x00]);
    assert_eq!(emu.index_register(), 0x400);
}

#[test]
fn store_and_load_all_sixteen_registers() {
    let mut emu = Emu::new();
    for x in 0..16u16 {
        emu.execute(0x6000 | (x << 8) | (0xA0 + x), 0).unwrap();
    }
    emu.execute(0xAFF0, 0).unwrap();
    emu.execute(0xFF55, 0).unwrap();
    let expected: Vec<u8> = (0..16u8).map(|x| 0xA0 + x).collect();
    assert_eq!(&emu.memory()[0xFF0..0x1000], &expected[..]);
    for x in 0..16u16 {
        emu.execute(0x6000 | (x << 8), 0).unwrap();
    }
    emu.execute(0xFF65, 0).unwrap();
    assert_eq!(emu.registers(), &expected[..]);
}

#[test]
fn store_and_load_past_the_end_of_memory_fail() {
    let mut emu = run(&[0x6011, 0x6122, 0xAFFF]);
    let before = emu.memory().to_vec();
    assert_eq!(emu.execute(0xF155, 0), Err(EmuError::AddressOutOfRange));
    assert_eq!(emu.memory(), &before[..]);
    assert_eq!(emu.execute(0xF165, 0), Err(EmuError::AddressOutOfRange));
    assert_eq!(&emu.registers()[0..2], &[0x11, 0x22]);
    assert_eq!(emu.execute(0xF055, 0), Ok(()));
    assert_eq!(emu.memory()[0xFFF], 0x11);
}

#[test]
fn stores_above_0x200_leave_the_font_in_place() {
    let emu = run(&[0x60FF, 0xA200, 0xF033, 0xA210, 0xF055]);
    let fresh = Emu::new();
    assert_eq!(&emu.memory()[..0x200], &fresh.memory()[..0x200]);
}

#[test]
fn execute_uses_the_given_random_byte() {
    let mut emu = Emu::new();
    emu.execute(0xC03C, 0xFF).unwrap();
    assert_eq!(emu.registers()[0], 0x3C);
    emu.execute(0xC1F0, 0xAB).unwrap();
    assert_eq!(emu.registers()[1], 0xA0);
    emu.execute(0xC2FF, 0x00).unwrap();
    assert_eq!(emu.registers()[2], 0x00);
    assert_eq!(emu.pc(), 0x200);
}
