use chip_8::cpu::font::FONT_SET;
use chip_8::cpu::model::Fault;
use chip_8::cpu::CPU;

fn program(words: &[u16]) -> Vec<u8> {
    let mut bytes = Vec::new();
    for &word in words {
        bytes.push((word >> 8) as u8);
        bytes.push((word & 0xFF) as u8);
    }
    bytes
}

fn machine(words: &[u16]) -> CPU {
    let mut cpu = CPU::new();
    cpu.reset();
    cpu.load_rom(&program(words)).unwrap();
    cpu
}

fn run(cpu: &mut CPU, cycles: usize) {
    for _ in 0..cycles {
        cpu.execute_cycle().unwrap();
    }
}

fn registers(cpu: &CPU) -> Vec<u8> {
    (0..16).map(|x| cpu.register(x)).collect()
}

fn memory(cpu: &CPU) -> Vec<u8> {
    (0..4096).map(|a| cpu.memory_byte(a)).collect()
}

fn lit_count(cpu: &CPU) -> usize {
    cpu.screen_buffer().iter().filter(|&&cell| cell == 1).count()
}

#[test]
fn new_machine_is_zeroed() {
    let cpu = CPU::new();
    assert_eq!(cpu.program_counter(), 0);
    assert_eq!(cpu.index(), 0);
    assert_eq!(cpu.stack_pointer(), 0);
    assert_eq!(cpu.delay_timer(), 0);
    assert_eq!(cpu.sound_timer(), 0);
    assert_eq!(registers(&cpu), vec![0; 16]);
    assert!(memory(&cpu).iter().all(|&byte| byte == 0));
    assert_eq!(lit_count(&cpu), 0);
    assert_eq!(cpu.keyboard.keys(), [false; 16]);
}

#[test]
fn reset_loads_font_and_points_at_program_start() {
    let mut cpu = CPU::new();
    cpu.reset();
    assert_eq!(cpu.program_counter(), 0x200);
    let bytes = memory(&cpu);
    assert_eq!(&bytes[..80], &FONT_SET[..]);
    assert!(bytes[80..].iter().all(|&byte| byte == 0));
    assert_eq!(bytes[0], 0xF0);
    assert_eq!(bytes[10], 0xF0);
    assert_eq!(bytes[11], 0x10);
    assert_eq!(bytes[79], 0x80);
}

#[test]
fn reset_discards_what_a_program_did() {
    let mut cpu = machine(&[0x6A07, 0xA123, 0x2208, 0x0000, 0xFA15, 0xFA18, 0xD005]);
    run(&mut cpu, 6);
    cpu.keyboard.key_down(4);
    assert_eq!(cpu.stack_pointer(), 1);
    assert!(lit_count(&cpu) > 0 || cpu.index() == 0x123);
    cpu.reset();
    assert_eq!(cpu.program_counter(), 0x200);
    assert_eq!(cpu.index(), 0);
    assert_eq!(cpu.stack_pointer(), 0);
    assert_eq!(cpu.delay_timer(), 0);
    assert_eq!(cpu.sound_timer(), 0);
    assert_eq!(registers(&cpu), vec![0; 16]);
    assert_eq!(lit_count(&cpu), 0);
    assert_eq!(cpu.keyboard.keys(), [false; 16]);
    assert_eq!(cpu.memory_byte(0x200), 0);
}

#[test]
fn load_rom_copies_bytes_to_program_start() {
    let mut cpu = CPU::new();
    cpu.reset();
    let rom = vec![0x12, 0x34, 0x56, 0x78, 0x9A];
    assert_eq!(cpu.load_rom(&rom), Ok(()));
    let bytes = memory(&cpu);
    assert_eq!(&bytes[0x200..0x205], &rom[..]);
    assert_eq!(bytes[0x1FF], 0);
    assert_eq!(bytes[0x205], 0);
    assert_eq!(&bytes[..80], &FONT_SET[..]);
    assert_eq!(cpu.program_counter(), 0x200);
}

#[test]
fn load_rom_accepts_a_rom_that_fills_memory() {
    let mut cpu = CPU::new();
    cpu.reset();
    let rom: Vec<u8> = (0..3584).map(|k| (k % 251) as u8 + 1).collect();
    assert_eq!(cpu.load_rom(&rom), Ok(()));
    let bytes = memory(&cpu);
    assert_eq!(&bytes[0x200..], &rom[..]);
}

#[test]
fn load_rom_refuses_an_oversize_rom_without_touching_memory() {
    let mut cpu = CPU::new();
    cpu.reset();
    cpu.load_rom(&vec![0xAB, 0xCD]).unwrap();
    let before = memory(&cpu);
    let rom = vec![0xFF; 3585];
    assert_eq!(cpu.load_rom(&rom), Err(Fault::RomTooLarge));
    assert_eq!(memory(&cpu), before);
    assert_eq!(cpu.load_rom(&vec![0x11; 100_000]), Err(Fault::RomTooLarge));
    assert_eq!(memory(&cpu), before);
}

#[test]
fn load_rom_of_nothing_changes_nothing() {
    let mut cpu = CPU::new();
    cpu.reset();
    let before = memory(&cpu);
    assert_eq!(cpu.load_rom(&Vec::new()), Ok(()));
    assert_eq!(memory(&cpu), before);
}

#[test]
fn read_opcode_is_big_endian() {
    let cpu = machine(&[0xA1B2]);
    assert_eq!(cpu.memory_byte(0x200), 0xA1);
    assert_eq!(cpu.memory_byte(0x201), 0xB2);
    assert_eq!(cpu.read_opcode(), Ok(0xA1B2));
}

#[test]
fn read_opcode_faults_without_room_for_an_instruction() {
    let mut cpu = machine(&[0x1FFF]);
    run(&mut cpu, 1);
    assert_eq!(cpu.program_counter(), 0xFFF);
    assert_eq!(cpu.read_opcode(), Err(Fault::ProgramCounterOutOfBounds));
    assert_eq!(cpu.execute_cycle(), Err(Fault::ProgramCounterOutOfBounds));
    assert_eq!(cpu.program_counter(), 0xFFF);
}

#[test]
fn last_instruction_slot_executes_and_the_next_fetch_faults() {
    let mut cpu = machine(&[0x1FFE]);
    run(&mut cpu, 1);
    assert_eq!(cpu.program_counter(), 0xFFE);
    assert_eq!(cpu.execute_cycle(), Ok(()));
    assert_eq!(cpu.program_counter(), 0x1000);
    assert_eq!(cpu.execute_cycle(), Err(Fault::ProgramCounterOutOfBounds));
    assert_eq!(cpu.process_opcode(0x6001, 0), Err(Fault::ProgramCounterOutOfBounds));
    assert_eq!(cpu.register(0), 0);
}

#[test]
fn load_byte_then_read_returns_the_byte() {
    for kk in 0..=255u16 {
        let mut cpu = machine(&[0x6300 | kk]);
        run(&mut cpu, 1);
        assert_eq!(cpu.register(3), kk as u8);
        assert_eq!(cpu.program_counter(), 0x202);
    }
    for x in 0..16u16 {
        let mut cpu = machine(&[0x6000 | (x << 8) | 0x5A]);
        run(&mut cpu, 1);
        let mut expected = vec![0u8; 16];
        expected[x as usize] = 0x5A;
        assert_eq!(registers(&cpu), expected);
    }
}

#[test]
fn add_byte_wraps_and_leaves_the_flag_alone() {
    let mut cpu = machine(&[0x62F0, 0x6F07, 0x7220, 0x72FF, 0x7200]);
    run(&mut cpu, 3);
    assert_eq!(cpu.register(2), 0x10);
    assert_eq!(cpu.register(15), 0x07);
    run(&mut cpu, 1);
    assert_eq!(cpu.register(2), 0x0F);
    assert_eq!(cpu.register(15), 0x07);
    run(&mut cpu, 1);
    assert_eq!(cpu.register(2), 0x0F);
    assert_eq!(cpu.program_counter(), 0x20A);
}

#[test]
fn add_byte_to_the_flag_register_adds() {
    let mut cpu = machine(&[0x6FFE, 0x7F03]);
    run(&mut cpu, 2);
    assert_eq!(cpu.register(15), 0x01);
}

#[test]
fn move_or_and_xor() {
    let mut cpu = machine(&[0x61CC, 0x62AA, 0x8310, 0x8321, 0x8410, 0x8422, 0x8510, 0x8523]);
    run(&mut cpu, 8);
    assert_eq!(cpu.register(3), 0xCC | 0xAA);
    assert_eq!(cpu.register(4), 0xCC & 0xAA);
    assert_eq!(cpu.register(5), 0xCC ^ 0xAA);
    assert_eq!(cpu.register(1), 0xCC);
    assert_eq!(cpu.register(2), 0xAA);
    assert_eq!(cpu.register(15), 0);
}

#[test]
fn add_registers_sets_carry() {
    let mut cpu = machine(&[0x61F0, 0x6220, 0x8124, 0x6305, 0x6406, 0x8344, 0x65FF, 0x6601, 0x8564]);
    run(&mut cpu, 3);
    assert_eq!(cpu.register(1), 0x10);
    assert_eq!(cpu.register(15), 1);
    run(&mut cpu, 3);
    assert_eq!(cpu.register(3), 11);
    assert_eq!(cpu.register(15), 0);
    run(&mut cpu, 3);
    assert_eq!(cpu.register(5), 0);
    assert_eq!(cpu.register(15), 1);
}

#[test]
fn add_registers_without_carry_at_255() {
    let mut cpu = machine(&[0x61FE, 0x6201, 0x8124]);
    run(&mut cpu, 3);
    assert_eq!(cpu.register(1), 0xFF);
    assert_eq!(cpu.register(15), 0);
}

#[test]
fn add_into_the_flag_register_leaves_the_sum_there() {
    // The flag is written first, the sum second.
    let mut cpu = machine(&[0x6FF0, 0x6120, 0x8F14]);
    run(&mut cpu, 3);
    assert_eq!(cpu.register(15), 0x10);
    let mut cpu = machine(&[0x6101, 0x6F01, 0x8F14]);
    run(&mut cpu, 3);
    assert_eq!(cpu.register(15), 2);
}

#[test]
fn add_with_the_flag_register_as_operand_uses_its_old_value() {
    let mut cpu = machine(&[0x6FFF, 0x6102, 0x81F4]);
    run(&mut cpu, 3);
    assert_eq!(cpu.register(1), 0x01);
    assert_eq!(cpu.register(15), 1);
}

#[test]
fn subtract_sets_flag_when_nothing_is_borrowed() {
    let mut cpu = machine(&[0x6130, 0x6210, 0x8125]);
    run(&mut cpu, 3);
    assert_eq!(cpu.register(1), 0x20);
    assert_eq!(cpu.register(15), 1);

    let mut cpu = machine(&[0x6110, 0x6230, 0x8125]);
    run(&mut cpu, 3);
    assert_eq!(cpu.register(1), 0xE0);
    assert_eq!(cpu.register(15), 0);

    let mut cpu = machine(&[0x6142, 0x6242, 0x8125]);
    run(&mut cpu, 3);
    assert_eq!(cpu.register(1), 0);
    assert_eq!(cpu.register(15), 1);
}

#[test]
fn subtract_from_sets_flag_when_nothing_is_borrowed() {
    let mut cpu = machine(&[0x6110, 0x6230, 0x8127]);
    run(&mut cpu, 3);
    assert_eq!(cpu.register(1), 0x20);
    assert_eq!(cpu.register(2), 0x30);
    assert_eq!(cpu.register(15), 1);

    let mut cpu = machine(&[0x6130, 0x6210, 0x8127]);
    run(&mut cpu, 3);
    assert_eq!(cpu.register(1), 0xE0);
    assert_eq!(cpu.register(15), 0);

    let mut cpu = machine(&[0x6107, 0x6207, 0x8127]);
    run(&mut cpu, 3);
    assert_eq!(cpu.register(1), 0);
    assert_eq!(cpu.register(15), 1);
}

#[test]
fn shift_right_captures_the_lowest_bit() {
    let mut cpu = machine(&[0x6105, 0x8106, 0x8106, 0x8106, 0x8106]);
    run(&mut cpu, 2);
    assert_eq!(cpu.register(1), 2);
    assert_eq!(cpu.register(15), 1);
    run(&mut cpu, 1);
    assert_eq!(cpu.register(1), 1);
    assert_eq!(cpu.register(15), 0);
    run(&mut cpu, 1);
    assert_eq!(cpu.register(1), 0);
    assert_eq!(cpu.register(15), 1);
    run(&mut cpu, 1);
    assert_eq!(cpu.register(1), 0);
    assert_eq!(cpu.register(15), 0);
}

#[test]
fn shift_right_ignores_vy() {
    let mut cpu = machine(&[0x61FF, 0x6200, 0x8126]);
    run(&mut cpu, 3);
    assert_eq!(cpu.register(1), 0x7F);
    assert_eq!(cpu.register(2), 0);
    assert_eq!(cpu.register(15), 1);
}

#[test]
fn shift_left_captures_the_highest_bit() {
    let mut cpu = machine(&[0x61C1, 0x810E, 0x810E, 0x810E]);
    run(&mut cpu, 2);
    assert_eq!(cpu.register(1), 0x82);
    assert_eq!(cpu.register(15), 1);
    run(&mut cpu, 1);
    assert_eq!(cpu.register(1), 0x04);
    assert_eq!(cpu.register(15), 1);
    run(&mut cpu, 1);
    assert_eq!(cpu.register(1), 0x08);
    assert_eq!(cpu.register(15), 0);
}

#[test]
fn shifting_the_flag_register_shifts_the_captured_bit() {
    // The flag is written first; the shift then applies to the flag register
    // as it stands.
    let mut cpu = machine(&[0x6F03, 0x8F06]);
    run(&mut cpu, 2);
    assert_eq!(cpu.register(15), 0);
    let mut cpu = machine(&[0x6F81, 0x8F0E]);
    run(&mut cpu, 2);
    assert_eq!(cpu.register(15), 2);
    let mut cpu = machine(&[0x6F01, 0x8F0E]);
    run(&mut cpu, 2);
    assert_eq!(cpu.register(15), 0);
}

#[test]
fn unassigned_words_only_advance_the_program_counter() {
    for word in [0x0000u16, 0x0123, 0x00E1, 0x8AB8, 0x8ABF, 0xE000, 0xE19F, 0xF008, 0xF0FF, 0xF166] {
        let mut cpu = machine(&[0x6A11, 0x6B22, word]);
        run(&mut cpu, 2);
        let regs = registers(&cpu);
        let bytes = memory(&cpu);
        run(&mut cpu, 1);
        assert_eq!(cpu.program_counter(), 0x206, "word {:04X}", word);
        assert_eq!(registers(&cpu), regs);
        assert_eq!(memory(&cpu), bytes);
        assert_eq!(cpu.index(), 0);
        assert_eq!(cpu.stack_pointer(), 0);
        assert_eq!(lit_count(&cpu), 0);
    }
}

#[test]
fn jump_sets_the_program_counter() {
    let mut cpu = machine(&[0x1ABC]);
    run(&mut cpu, 1);
    assert_eq!(cpu.program_counter(), 0xABC);
    assert_eq!(cpu.stack_pointer(), 0);
    let mut cpu = machine(&[0x1203]);
    run(&mut cpu, 1);
    assert_eq!(cpu.program_counter(), 0x203);
}

#[test]
fn jump_offset_adds_v0() {
    let mut cpu = machine(&[0x60FF, 0xBFFF]);
    run(&mut cpu, 2);
    assert_eq!(cpu.program_counter(), 0xFFF + 0xFF);
    let mut cpu = machine(&[0x6004, 0xB300]);
    run(&mut cpu, 2);
    assert_eq!(cpu.program_counter(), 0x304);
}

#[test]
fn call_then_return_continues_behind_the_call() {
    // 0x200: CALL 0x206; 0x202: LD V1, 1; 0x206: RET
    let mut cpu = machine(&[0x2206, 0x6101, 0x0000, 0x00EE]);
    run(&mut cpu, 1);
    assert_eq!(cpu.program_counter(), 0x206);
    assert_eq!(cpu.stack_pointer(), 1);
    run(&mut cpu, 1);
    assert_eq!(cpu.program_counter(), 0x202);
    assert_eq!(cpu.stack_pointer(), 0);
    run(&mut cpu, 1);
    assert_eq!(cpu.register(1), 1);
}

#[test]
fn nested_calls_return_in_reverse_order_at_full_depth() {
    // Sixteen subroutines, each calling the next and then returning; the
    // last one only returns.
    let mut words = Vec::new();
    for level in 0..16u16 {
        // Subroutine `level` sits at 0x200 + 4 * level.
        words.push(0x2000 | (0x200 + 4 * (level + 1)));
        words.push(if level == 0 { 0x1202 } else { 0x00EE });
    }
    words[30] = 0x00EE;
    let mut cpu = machine(&words);
    for level in 0..15u16 {
        run(&mut cpu, 1);
        assert_eq!(cpu.stack_pointer(), level as u8 + 1);
        assert_eq!(cpu.program_counter(), 0x200 + 4 * (level + 1));
    }
    assert_eq!(cpu.program_counter(), 0x23C);
    for level in (0..15u16).rev() {
        run(&mut cpu, 1);
        assert_eq!(cpu.stack_pointer(), level as u8);
        assert_eq!(cpu.program_counter(), 0x200 + 4 * level + 2);
    }
    assert_eq!(cpu.program_counter(), 0x202);
}

#[test]
fn seventeenth_nested_call_overflows_the_stack() {
    let mut cpu = machine(&[0x2200]);
    for depth in 1..=16 {
        assert_eq!(cpu.execute_cycle(), Ok(()));
        assert_eq!(cpu.stack_pointer(), depth);
        assert_eq!(cpu.program_counter(), 0x200);
    }
    assert_eq!(cpu.execute_cycle(), Err(Fault::StackOverflow));
    assert_eq!(cpu.stack_pointer(), 16);
    assert_eq!(cpu.program_counter(), 0x200);
}

#[test]
fn return_at_depth_sixteen_works() {
    // 0x200: CALL 0x200 sixteen times, then the word is swapped for a RET by
    // running it through `process_opcode`.
    let mut cpu = machine(&[0x2200]);
    run(&mut cpu, 16);
    assert_eq!(cpu.process_opcode(0x00EE, 0), Ok(()));
    assert_eq!(cpu.stack_pointer(), 15);
    assert_eq!(cpu.program_counter(), 0x202);
}

#[test]
fn return_without_call_underflows_the_stack() {
    let mut cpu = machine(&[0x6A01, 0x00EE]);
    run(&mut cpu, 1);
    assert_eq!(cpu.execute_cycle(), Err(Fault::StackUnderflow));
    assert_eq!(cpu.program_counter(), 0x202);
    assert_eq!(cpu.stack_pointer(), 0);
    assert_eq!(cpu.register(10), 1);
}

#[test]
fn skip_if_equal_to_byte() {
    let mut cpu = machine(&[0x6142, 0x3142, 0x0000, 0x3143]);
    run(&mut cpu, 2);
    assert_eq!(cpu.program_counter(), 0x206);
    run(&mut cpu, 1);
    assert_eq!(cpu.program_counter(), 0x208);
}

#[test]
fn skip_if_not_equal_to_byte() {
    let mut cpu = machine(&[0x6142, 0x4143, 0x0000, 0x4142]);
    run(&mut cpu, 2);
    assert_eq!(cpu.program_counter(), 0x206);
    run(&mut cpu, 1);
    assert_eq!(cpu.program_counter(), 0x208);
}

#[test]
fn skip_if_registers_equal() {
    let mut cpu = machine(&[0x6142, 0x6242, 0x5120, 0x0000, 0x6243, 0x5120]);
    run(&mut cpu, 3);
    assert_eq!(cpu.program_counter(), 0x208);
    run(&mut cpu, 2);
    assert_eq!(cpu.program_counter(), 0x20C);
}

#[test]
fn skip_if_registers_equal_whatever_the_low_nibble() {
    let mut cpu = machine(&[0x5127]);
    run(&mut cpu, 1);
    assert_eq!(cpu.program_counter(), 0x204);
}

#[test]
fn skip_if_registers_not_equal() {
    let mut cpu = machine(&[0x6142, 0x6243, 0x9120, 0x0000, 0x6242, 0x9120]);
    run(&mut cpu, 3);
    assert_eq!(cpu.program_counter(), 0x208);
    run(&mut cpu, 2);
    assert_eq!(cpu.program_counter(), 0x20C);
}

#[test]
fn load_index_is_not_masked_further() {
    let mut cpu = machine(&[0xAFFF, 0xA000]);
    run(&mut cpu, 1);
    assert_eq!(cpu.index(), 0xFFF);
    run(&mut cpu, 1);
    assert_eq!(cpu.index(), 0);
}

#[test]
fn add_to_index_leaves_the_flag_alone_and_goes_beyond_twelve_bits() {
    let mut cpu = machine(&[0xAFFF, 0x61FF, 0x6F09, 0xF11E]);
    run(&mut cpu, 4);
    assert_eq!(cpu.index(), 0xFFF + 0xFF);
    assert_eq!(cpu.register(15), 9);
    assert_eq!(cpu.register(1), 0xFF);
}

#[test]
fn add_to_index_faults_beyond_sixteen_bits() {
    // 0x204: ADD I, VA; 0x206: JP 0x204
    let mut cpu = machine(&[0x6AFF, 0xAFFF, 0xFA1E, 0x1204]);
    run(&mut cpu, 2);
    let mut expected: u32 = 0xFFF;
    loop {
        let result = cpu.execute_cycle();
        if expected + 0xFF > 0xFFFF {
            assert_eq!(result, Err(Fault::IndexOverflow));
            assert_eq!(cpu.index() as u32, expected);
            assert_eq!(cpu.program_counter(), 0x204);
            break;
        }
        assert_eq!(result, Ok(()));
        expected += 0xFF;
        assert_eq!(cpu.index() as u32, expected);
        run(&mut cpu, 1);
    }
    assert!(expected > 0xFFFF - 0xFF);
}

#[test]
fn random_is_masked_by_the_byte() {
    let mut cpu = machine(&[0x61FF, 0xC100, 0xC20F, 0xC3F0, 0xC401]);
    run(&mut cpu, 2);
    assert_eq!(cpu.register(1), 0);
    for _ in 0..50 {
        let mut cpu = machine(&[0xC20F, 0xC3F0, 0xC401]);
        run(&mut cpu, 3);
        assert_eq!(cpu.register(2) & 0xF0, 0);
        assert_eq!(cpu.register(3) & 0x0F, 0);
        assert!(cpu.register(4) <= 1);
        assert_eq!(cpu.program_counter(), 0x206);
    }
}

#[test]
fn random_draws_different_bytes() {
    let mut seen = std::collections::HashSet::new();
    for _ in 0..200 {
        let mut cpu = machine(&[0xC0FF]);
        run(&mut cpu, 1);
        seen.insert(cpu.register(0));
    }
    assert!(seen.len() > 1);
}

#[test]
fn process_opcode_uses_the_random_byte_it_is_given() {
    let mut cpu = machine(&[]);
    assert_eq!(cpu.process_opcode(0xC5FF, 0xAB), Ok(()));
    assert_eq!(cpu.register(5), 0xAB);
    assert_eq!(cpu.process_opcode(0xC50F, 0xAB), Ok(()));
    assert_eq!(cpu.register(5), 0x0B);
    assert_eq!(cpu.process_opcode(0xC6F0, 0xAB), Ok(()));
    assert_eq!(cpu.register(6), 0xA0);
    assert_eq!(cpu.program_counter(), 0x206);
    // No other operation looks at it.
    assert_eq!(cpu.process_opcode(0x6711, 0xFF), Ok(()));
    assert_eq!(cpu.register(7), 0x11);
}

#[test]
fn glyph_scenario_draws_the_top_row_of_the_digit_two() {
    let mut cpu = machine(&[0x6A02, 0xFA29, 0xD001]);
    run(&mut cpu, 3);
    assert_eq!(cpu.index(), 10);
    assert_eq!(cpu.register(10), 2);
    let cells = cpu.screen_buffer();
    assert_eq!(&cells[..8], &[1, 1, 1, 1, 0, 0, 0, 0]);
    assert_eq!(lit_count(&cpu), 4);
    assert_eq!(cpu.register(15), 0);
    assert_eq!(cpu.program_counter(), 0x206);
}

#[test]
fn load_glyph_points_at_five_bytes_per_digit() {
    for digit in 0..16u16 {
        let mut cpu = machine(&[0x6100 | digit, 0xF129]);
        run(&mut cpu, 2);
        assert_eq!(cpu.index(), digit * 5);
    }
    let mut cpu = machine(&[0x61FF, 0xF129]);
    run(&mut cpu, 2);
    assert_eq!(cpu.index(), 255 * 5);
}

#[test]
fn draw_whole_glyph_and_collide_on_redraw() {
    // Draw digit 0 at (V1, V2) = (8, 4), twice.
    let mut cpu = machine(&[0x6108, 0x6204, 0xA000, 0xD125, 0xD125]);
    run(&mut cpu, 4);
    assert_eq!(cpu.register(15), 0);
    assert_eq!(lit_count(&cpu), 14);
    let cells = cpu.screen_buffer();
    assert_eq!(&cells[4 * 64 + 8..4 * 64 + 16], &[1, 1, 1, 1, 0, 0, 0, 0]);
    assert_eq!(&cells[5 * 64 + 8..5 * 64 + 16], &[1, 0, 0, 1, 0, 0, 0, 0]);
    run(&mut cpu, 1);
    assert_eq!(cpu.register(15), 1);
    assert_eq!(lit_count(&cpu), 0);
}

#[test]
fn draw_uses_the_registers_as_they_were_when_the_flag_is_an_operand() {
    // VF holds the column; the collision flag overwrites it afterwards.
    let mut cpu = machine(&[0x6F0A, 0x6103, 0xA000, 0xDF11]);
    run(&mut cpu, 4);
    let cells = cpu.screen_buffer();
    assert_eq!(&cells[3 * 64 + 10..3 * 64 + 14], &[1, 1, 1, 1]);
    assert_eq!(cpu.register(15), 0);
}

#[test]
fn draw_wraps_around_the_edges() {
    // An 8 x 8 block of set bits stored at 0x300, drawn at (60, 30).
    let mut cpu = machine(&[0x60FF, 0x61FF, 0x62FF, 0x63FF, 0x64FF, 0x65FF, 0x66FF, 0x67FF,
        0xA300, 0xF755, 0x6A3C, 0x6B1E, 0xDAB8]);
    run(&mut cpu, 13);
    assert_eq!(cpu.register(15), 0);
    assert_eq!(lit_count(&cpu), 64);
    let cells = cpu.screen_buffer();
    for row in [30usize, 31, 0, 1, 2, 3, 4, 5] {
        for col in [60usize, 61, 62, 63, 0, 1, 2, 3] {
            assert_eq!(cells[row * 64 + col], 1, "row {} column {}", row, col);
        }
    }
}

#[test]
fn draw_beyond_memory_faults_and_draws_nothing() {
    let mut cpu = machine(&[0xAFFF, 0xD002, 0xD001, 0xD000]);
    run(&mut cpu, 1);
    assert_eq!(cpu.execute_cycle(), Err(Fault::MemoryOutOfBounds));
    assert_eq!(cpu.program_counter(), 0x202);
    assert_eq!(lit_count(&cpu), 0);
    // One row still fits: the byte at 0xFFF.
    assert_eq!(cpu.process_opcode(0xD001, 0), Ok(()));
    assert_eq!(cpu.program_counter(), 0x204);
}

#[test]
fn draw_of_no_rows_at_the_end_of_memory_is_allowed() {
    let mut cpu = machine(&[0xAFFF, 0x6001, 0xF01E, 0xD120]);
    run(&mut cpu, 3);
    assert_eq!(cpu.index(), 0x1000);
    assert_eq!(cpu.execute_cycle(), Ok(()));
    assert_eq!(cpu.register(15), 0);
    let mut cpu = machine(&[0xAFFF, 0x6002, 0xF01E, 0xD120]);
    run(&mut cpu, 3);
    assert_eq!(cpu.index(), 0x1001);
    assert_eq!(cpu.execute_cycle(), Err(Fault::MemoryOutOfBounds));
}

#[test]
fn clear_screen_blanks_the_screen() {
    let mut cpu = machine(&[0xA000, 0xD005, 0x00E0]);
    run(&mut cpu, 2);
    assert!(lit_count(&cpu) > 0);
    run(&mut cpu, 1);
    assert_eq!(lit_count(&cpu), 0);
    assert_eq!(cpu.program_counter(), 0x206);
    assert_eq!(cpu.index(), 0);
}

#[test]
fn skip_if_key_down() {
    let mut cpu = machine(&[0x6105, 0xE19E, 0xE19E]);
    run(&mut cpu, 2);
    assert_eq!(cpu.program_counter(), 0x204);
    cpu.keyboard.key_down(5);
    run(&mut cpu, 1);
    assert_eq!(cpu.program_counter(), 0x208);
}

#[test]
fn skip_if_key_up() {
    let mut cpu = machine(&[0x6105, 0xE1A1, 0x0000, 0xE1A1]);
    run(&mut cpu, 2);
    assert_eq!(cpu.program_counter(), 0x206);
    cpu.key_down(5);
    run(&mut cpu, 1);
    assert_eq!(cpu.program_counter(), 0x208);
    cpu.key_up(5);
    assert_eq!(cpu.process_opcode(0xE1A1, 0), Ok(()));
    assert_eq!(cpu.program_counter(), 0x20C);
}

#[test]
fn key_instructions_fault_on_a_key_above_fifteen() {
    let mut cpu = machine(&[0x6110, 0xE19E]);
    run(&mut cpu, 1);
    assert_eq!(cpu.execute_cycle(), Err(Fault::KeyOutOfRange));
    assert_eq!(cpu.program_counter(), 0x202);
    assert_eq!(cpu.process_opcode(0xE1A1, 0), Err(Fault::KeyOutOfRange));
    assert_eq!(cpu.program_counter(), 0x202);
    let mut cpu = machine(&[0x610F, 0xE19E]);
    run(&mut cpu, 2);
    assert_eq!(cpu.program_counter(), 0x204);
}

#[test]
fn key_wait_holds_until_a_key_is_down() {
    let mut cpu = machine(&[0xF30A, 0x6401]);
    let regs = registers(&cpu);
    for _ in 0..25 {
        assert_eq!(cpu.execute_cycle(), Ok(()));
        assert_eq!(cpu.program_counter(), 0x200);
        assert_eq!(registers(&cpu), regs);
    }
    cpu.keyboard.key_down(7);
    run(&mut cpu, 1);
    assert_eq!(cpu.program_counter(), 0x202);
    assert_eq!(cpu.register(3), 7);
    run(&mut cpu, 1);
    assert_eq!(cpu.register(4), 1);
}

#[test]
fn key_wait_takes_the_highest_key_that_is_down() {
    let mut cpu = machine(&[0xF50A]);
    cpu.keyboard.key_down(3);
    cpu.keyboard.key_down(9);
    cpu.keyboard.key_down(0);
    run(&mut cpu, 1);
    assert_eq!(cpu.register(5), 9);
    assert_eq!(cpu.program_counter(), 0x202);

    let mut cpu = machine(&[0xF50A]);
    cpu.keyboard.key_down(0);
    run(&mut cpu, 1);
    assert_eq!(cpu.register(5), 0);
    assert_eq!(cpu.program_counter(), 0x202);

    let mut cpu = machine(&[0x65AA, 0xF50A]);
    for key in 0..16 {
        cpu.keyboard.key_down(key);
    }
    run(&mut cpu, 2);
    assert_eq!(cpu.register(5), 15);
    assert_eq!(cpu.program_counter(), 0x204);
}

#[test]
fn key_wait_resumes_waiting_after_release() {
    let mut cpu = machine(&[0xF10A, 0xF20A]);
    cpu.keyboard.key_down(2);
    run(&mut cpu, 1);
    cpu.keyboard.key_up(2);
    run(&mut cpu, 3);
    assert_eq!(cpu.program_counter(), 0x202);
    assert_eq!(cpu.register(1), 2);
    assert_eq!(cpu.register(2), 0);
}

#[test]
fn timers_are_set_from_and_read_into_registers() {
    let mut cpu = machine(&[0x61C8, 0xF115, 0x6203, 0xF218, 0xF307]);
    run(&mut cpu, 4);
    assert_eq!(cpu.delay_timer(), 200);
    assert_eq!(cpu.sound_timer(), 3);
    assert!(cpu.sound_active());
    cpu.decrement_timers();
    assert_eq!(cpu.delay_timer(), 199);
    assert_eq!(cpu.sound_timer(), 2);
    run(&mut cpu, 1);
    assert_eq!(cpu.register(3), 199);
}

#[test]
fn timers_stop_at_zero() {
    let mut cpu = machine(&[0x6102, 0xF115, 0x6201, 0xF218]);
    run(&mut cpu, 4);
    cpu.decrement_timers();
    assert_eq!((cpu.delay_timer(), cpu.sound_timer()), (1, 0));
    assert!(!cpu.sound_active());
    cpu.decrement_timers();
    assert_eq!((cpu.delay_timer(), cpu.sound_timer()), (0, 0));
    cpu.decrement_timers();
    assert_eq!((cpu.delay_timer(), cpu.sound_timer()), (0, 0));
}

#[test]
fn timers_hold_the_full_byte_range() {
    let mut cpu = machine(&[0x61FF, 0xF115, 0xF118, 0xF207]);
    run(&mut cpu, 4);
    assert_eq!(cpu.delay_timer(), 255);
    assert_eq!(cpu.sound_timer(), 255);
    assert_eq!(cpu.register(2), 255);
}

#[test]
fn timers_do_not_move_with_the_cycles() {
    let mut cpu = machine(&[0x6105, 0xF115, 0x0000, 0x0000, 0x0000]);
    run(&mut cpu, 5);
    assert_eq!(cpu.delay_timer(), 5);
    let pc = cpu.program_counter();
    cpu.decrement_timers();
    assert_eq!(cpu.program_counter(), pc);
    assert_eq!(cpu.register(1), 5);
}

#[test]
fn decimal_digits_are_stored_hundreds_first() {
    for (value, digits) in [(254u16, [2u8, 5, 4]), (7, [0, 0, 7]), (0, [0, 0, 0]), (255, [2, 5, 5]), (100, [1, 0, 0]), (19, [0, 1, 9])] {
        let mut cpu = machine(&[0x6100 | value, 0xA300, 0xF133]);
        run(&mut cpu, 3);
        assert_eq!(
            [cpu.memory_byte(0x300), cpu.memory_byte(0x301), cpu.memory_byte(0x302)],
            digits
        );
        assert_eq!(cpu.memory_byte(0x2FF), 0);
        assert_eq!(cpu.memory_byte(0x303), 0);
        assert_eq!(cpu.index(), 0x300);
    }
}

#[test]
fn decimal_store_checks_the_end_of_memory() {
    let mut cpu = machine(&[0x617B, 0xAFFD, 0xF133, 0xAFFE, 0xF133]);
    run(&mut cpu, 3);
    assert_eq!(
        [cpu.memory_byte(0xFFD), cpu.memory_byte(0xFFE), cpu.memory_byte(0xFFF)],
        [1, 2, 3]
    );
    run(&mut cpu, 1);
    let before = memory(&cpu);
    assert_eq!(cpu.execute_cycle(), Err(Fault::MemoryOutOfBounds));
    assert_eq!(memory(&cpu), before);
    assert_eq!(cpu.program_counter(), 0x208);
}

#[test]
fn store_registers_covers_v0_through_vx() {
    let mut cpu = machine(&[0x6011, 0x6122, 0x6233, 0x6344, 0xA400, 0xF255]);
    run(&mut cpu, 6);
    assert_eq!(
        [cpu.memory_byte(0x400), cpu.memory_byte(0x401), cpu.memory_byte(0x402), cpu.memory_byte(0x403)],
        [0x11, 0x22, 0x33, 0x00]
    );
    assert_eq!(cpu.memory_byte(0x3FF), 0);
    assert_eq!(cpu.index(), 0x400);
}

#[test]
fn load_registers_covers_v0_through_vx() {
    // The four bytes of the first two instructions serve as data.
    let mut cpu = machine(&[0x6AFF, 0x6BEE, 0x63DD, 0xA200, 0xF265]);
    run(&mut cpu, 5);
    assert_eq!(cpu.register(0), 0x6A);
    assert_eq!(cpu.register(1), 0xFF);
    assert_eq!(cpu.register(2), 0x6B);
    assert_eq!(cpu.register(3), 0xDD);
    assert_eq!(cpu.index(), 0x200);
}

#[test]
fn store_then_load_restores_the_registers() {
    let mut words = Vec::new();
    for x in 0..16u16 {
        words.push(0x6000 | (x << 8) | (0x10 + x * 3));
    }
    words.push(0xA500);
    words.push(0xFF55);
    for x in 0..16u16 {
        words.push(0x6000 | (x << 8) | 0xEE);
    }
    words.push(0xFF65);
    let mut cpu = machine(&words);
    run(&mut cpu, 18);
    let saved = registers(&cpu);
    run(&mut cpu, 16);
    assert_eq!(registers(&cpu), vec![0xEE; 16]);
    run(&mut cpu, 1);
    assert_eq!(registers(&cpu), saved);
}

#[test]
fn partial_store_then_load_restores_only_the_low_registers() {
    let mut cpu = machine(&[0x6001, 0x6102, 0x6203, 0xA600, 0xF155, 0x6009, 0x6109, 0x6209, 0xF165]);
    run(&mut cpu, 9);
    assert_eq!(cpu.register(0), 1);
    assert_eq!(cpu.register(1), 2);
    assert_eq!(cpu.register(2), 9);
}

#[test]
fn register_block_copies_check_the_end_of_memory() {
    let mut cpu = machine(&[0x6001, 0x6102, 0xAFFE, 0xF155, 0xAFFF, 0xF155, 0xF165, 0xF055, 0xF065]);
    run(&mut cpu, 4);
    assert_eq!([cpu.memory_byte(0xFFE), cpu.memory_byte(0xFFF)], [1, 2]);
    run(&mut cpu, 1);
    let bytes = memory(&cpu);
    let regs = registers(&cpu);
    assert_eq!(cpu.execute_cycle(), Err(Fault::MemoryOutOfBounds));
    assert_eq!(cpu.process_opcode(0xF165, 0), Err(Fault::MemoryOutOfBounds));
    assert_eq!(memory(&cpu), bytes);
    assert_eq!(registers(&cpu), regs);
    assert_eq!(cpu.program_counter(), 0x20A);
    assert_eq!(cpu.process_opcode(0xF055, 0), Ok(()));
    assert_eq!(cpu.memory_byte(0xFFF), 1);
    assert_eq!(cpu.process_opcode(0xF065, 0), Ok(()));
    assert_eq!(cpu.register(0), 1);
}

#[test]
fn a_fault_leaves_the_machine_as_it_was() {
    let mut cpu = machine(&[0x6A05, 0xA123, 0xFA15, 0x00EE]);
    run(&mut cpu, 3);
    cpu.keyboard.key_down(2);
    let regs = registers(&cpu);
    let bytes = memory(&cpu);
    let screen = *cpu.screen_buffer();
    assert_eq!(cpu.execute_cycle(), Err(Fault::StackUnderflow));
    assert_eq!(registers(&cpu), regs);
    assert_eq!(memory(&cpu), bytes);
    assert_eq!(*cpu.screen_buffer(), screen);
    assert_eq!(cpu.index(), 0x123);
    assert_eq!(cpu.delay_timer(), 5);
    assert_eq!(cpu.program_counter(), 0x206);
    assert_eq!(cpu.stack_pointer(), 0);
    assert!(cpu.keyboard.key_pressed(2));
}

#[test]
fn machine_key_methods_drive_the_keypad() {
    let mut cpu = machine(&[]);
    cpu.key_down(11);
    assert!(cpu.keyboard.key_pressed(11));
    cpu.key_up(11);
    assert!(!cpu.keyboard.key_pressed(11));
}
