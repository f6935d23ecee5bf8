use chip8::{Chip8, Chip8Error, Instruction, WaitState};

const FONT_BYTES: [u8; 80] = [
    0xF0, 0x90, 0x90, 0x90, 0xF0, 0x20, 0x60, 0x20, 0x20, 0x70, 0xF0, 0x10, 0xF0, 0x80, 0xF0, 0xF0,
    0x10, 0xF0, 0x10, 0xF0, 0x90, 0x90, 0xF0, 0x10, 0x10, 0xF0, 0x80, 0xF0, 0x10, 0xF0, 0xF0, 0x80,
    0xF0, 0x90, 0xF0, 0xF0, 0x10, 0x20, 0x40, 0x40, 0xF0, 0x90, 0xF0, 0x90, 0xF0, 0xF0, 0x90, 0xF0,
    0x10, 0xF0, 0xF0, 0x90, 0xF0, 0x90, 0x90, 0xE0, 0x90, 0xE0, 0x90, 0xE0, 0xF0, 0x80, 0x80, 0x80,
    0xF0, 0xE0, 0x90, 0x90, 0x90, 0xE0, 0xF0, 0x80, 0xF0, 0x80, 0xF0, 0xF0, 0x80, 0xF0, 0x80, 0x80,
];

fn machine_with(program: &[u8]) -> Chip8 {
    let mut machine = Chip8::new();
    machine.load_rom(program).unwrap();
    machine
}

fn run(machine: &mut Chip8, steps: usize) {
    for _ in 0..steps {
        machine.tick_with(0).unwrap();
    }
}

#[test]
fn new_machine_is_zero_but_for_the_font() {
    let machine = Chip8::new();
    assert_eq!(machine.pc(), 0);
    assert_eq!(machine.index(), 0);
    assert!(machine.stack().is_empty());
    assert_eq!(machine.delay_timer(), 0);
    assert_eq!(machine.sound_timer(), 0);
    assert_eq!(machine.keyboard(), None);
    assert_eq!(machine.wait_state(), WaitState::Idle);
    for x in 0..16 {
        assert_eq!(machine.register(x), 0);
    }
    assert!(machine.get_screen().iter().all(|pixel| !*pixel));
    for address in 0..4096u16 {
        let expected = if (0x50..0xA0).contains(&address) {
            FONT_BYTES[(address - 0x50) as usize]
        } else {
            0
        };
        assert_eq!(machine.read_u8(address), expected, "address {:#x}", address);
    }
}

#[test]
fn default_is_new() {
    let machine = Chip8::default();
    assert_eq!(machine.pc(), 0);
    assert_eq!(machine.read_u8(0x50), 0xF0);
    assert_eq!(machine.read_u8(0x9F), 0x80);
    assert_eq!(machine.read_u8(0xA0), 0x00);
}

#[test]
fn font_survives_program_loads() {
    let mut machine = Chip8::new();
    machine.load_rom(&[0xFF; 3584]).unwrap();
    machine.load_rom(&[0x12, 0x34]).unwrap();
    for (offset, byte) in FONT_BYTES.iter().enumerate() {
        assert_eq!(machine.read_u8(0x50 + offset as u16), *byte);
    }
    assert_eq!(machine.read_u8(0x4F), 0);
    assert_eq!(machine.read_u8(0x1FF), 0);
}

#[test]
fn load_rom_writes_image_at_0x200_and_resets_pc() {
    let mut machine = Chip8::new();
    assert_eq!(machine.load_rom(&[0xAB, 0xCD, 0xEF]), Ok(()));
    assert_eq!(machine.pc(), 0x200);
    assert_eq!(machine.read_u8(0x200), 0xAB);
    assert_eq!(machine.read_u8(0x201), 0xCD);
    assert_eq!(machine.read_u8(0x202), 0xEF);
    assert_eq!(machine.read_u8(0x203), 0x00);
    assert_eq!(machine.read_u8(0x1FF), 0x00);
}

#[test]
fn reload_overwrites_and_resets_pc_only() {
    let mut machine = machine_with(&[0x60, 0x07, 0x61, 0x09]);
    run(&mut machine, 2);
    assert_eq!(machine.pc(), 0x204);
    machine.load_rom(&[0x62, 0x01]).unwrap();
    assert_eq!(machine.pc(), 0x200);
    assert_eq!(machine.read_u8(0x200), 0x62);
    assert_eq!(machine.read_u8(0x201), 0x01);
    assert_eq!(machine.read_u8(0x202), 0x61);
    assert_eq!(machine.register(0), 7);
    assert_eq!(machine.register(1), 9);
}

#[test]
fn load_rom_accepts_the_largest_image() {
    let mut image = vec![0u8; 3584];
    image[3583] = 0x5A;
    let mut machine = Chip8::new();
    assert_eq!(machine.load_rom(&image), Ok(()));
    assert_eq!(machine.read_u8(0xFFF), 0x5A);
    assert_eq!(machine.read_u8(0x000), 0x00);
}

#[test]
fn load_rom_refuses_an_oversized_image() {
    let mut machine = machine_with(&[0x11, 0x22]);
    run(&mut machine, 0);
    let image = vec![0xEEu8; 3585];
    assert_eq!(machine.load_rom(&image), Err(Chip8Error::ProgramTooLarge));
    assert_eq!(machine.read_u8(0x200), 0x11);
    assert_eq!(machine.read_u8(0x201), 0x22);
    assert_eq!(machine.read_u8(0x202), 0x00);
    assert_eq!(machine.read_u8(0xFFF), 0x00);
    assert_eq!(machine.pc(), 0x200);
}

#[test]
fn load_into_memory_writes_at_the_given_address() {
    let mut machine = Chip8::new();
    machine.load_into_memory(&[1, 2, 3], 0xFFD);
    assert_eq!(machine.read_u8(0xFFC), 0);
    assert_eq!(machine.read_u8(0xFFD), 1);
    assert_eq!(machine.read_u8(0xFFE), 2);
    assert_eq!(machine.read_u8(0xFFF), 3);
    assert_eq!(machine.pc(), 0);
}

#[test]
fn byte_addresses_wrap_at_4096() {
    let mut machine = Chip8::new();
    machine.write_u8(0x1234, 0x77);
    assert_eq!(machine.read_u8(0x0234), 0x77);
    assert_eq!(machine.read_u8(0x1234), 0x77);
    assert_eq!(machine.read_u8(0xF234), 0x77);
    assert_eq!(machine.read_u8(0x1050), 0xF0);
}

#[test]
fn words_are_read_big_endian() {
    let mut machine = Chip8::new();
    machine.write_u8(0x300, 0x12);
    machine.write_u8(0x301, 0x34);
    assert_eq!(machine.read_u16(0x300), 0x1234);
    machine.write_u8(0xFFF, 0xAB);
    machine.write_u8(0x000, 0xCD);
    assert_eq!(machine.read_u16(0xFFF), 0xABCD);
    assert_eq!(machine.read_u16(0xFFFF), 0xABCD);
}

#[test]
fn words_are_written_low_byte_first() {
    let mut machine = Chip8::new();
    machine.write_u16(0x300, 0x1234);
    assert_eq!(machine.read_u8(0x300), 0x34);
    assert_eq!(machine.read_u8(0x301), 0x12);
    assert_eq!(machine.read_u16(0x300), 0x3412);
    machine.write_u16(0xFFF, 0xBEEF);
    assert_eq!(machine.read_u8(0xFFF), 0xEF);
    assert_eq!(machine.read_u8(0x000), 0xBE);
}

#[test]
fn timers_count_down_and_stop_at_zero() {
    // V0 := 3, delay := V0, V1 := 1, sound := V1
    let mut machine = machine_with(&[0x60, 0x03, 0xF0, 0x15, 0x61, 0x01, 0xF1, 0x18]);
    run(&mut machine, 4);
    assert_eq!(machine.delay_timer(), 3);
    assert_eq!(machine.sound_timer(), 1);
    machine.update_timers();
    assert_eq!(machine.delay_timer(), 2);
    assert_eq!(machine.sound_timer(), 0);
    machine.update_timers();
    assert_eq!(machine.delay_timer(), 1);
    assert_eq!(machine.sound_timer(), 0);
    machine.update_timers();
    assert_eq!(machine.delay_timer(), 0);
    for _ in 0..300 {
        machine.update_timers();
        assert_eq!(machine.delay_timer(), 0);
        assert_eq!(machine.sound_timer(), 0);
    }
}

#[test]
fn timer_at_zero_never_wraps() {
    let mut machine = Chip8::new();
    for _ in 0..1000 {
        machine.update_timers();
        assert_eq!(machine.delay_timer(), 0);
        assert_eq!(machine.sound_timer(), 0);
    }
}

#[test]
fn timers_do_not_depend_on_instructions() {
    // V0 := 5, delay := V0, then a jump to itself
    let mut machine = machine_with(&[0x60, 0x05, 0xF0, 0x15, 0x12, 0x04]);
    run(&mut machine, 50);
    assert_eq!(machine.delay_timer(), 5);
    machine.update_timers();
    assert_eq!(machine.delay_timer(), 4);
    assert_eq!(machine.pc(), 0x204);
}

#[test]
fn key_press_sets_and_release_clears() {
    let mut machine = Chip8::new();
    machine.set_keyboard(0xA, true);
    assert_eq!(machine.keyboard(), Some(0xA));
    machine.set_keyboard(0x3, true);
    assert_eq!(machine.keyboard(), Some(0x3));
    machine.set_keyboard(0xA, false);
    assert_eq!(machine.keyboard(), None);
    machine.set_keyboard(0x0, true);
    assert_eq!(machine.keyboard(), Some(0x0));
    machine.set_keyboard(0x0, false);
    assert_eq!(machine.keyboard(), None);
}

#[test]
fn call_then_return() {
    // 0x200: call 0x204; 0x204: return
    let mut machine = machine_with(&[0x22, 0x04, 0x00, 0x00, 0x00, 0xEE]);
    assert_eq!(machine.tick(), Ok(Instruction::Call { addr: 0x204 }));
    assert_eq!(machine.pc(), 0x204);
    assert_eq!(machine.stack().as_slice(), &[0x202]);
    assert_eq!(machine.tick(), Ok(Instruction::Return));
    assert_eq!(machine.pc(), 0x202);
    assert!(machine.stack().is_empty());
}

#[test]
fn nested_calls_return_in_reverse_order() {
    // 0x200: call 0x206; 0x202: jump 0x202; 0x206: call 0x20A; 0x208: return; 0x20A: return
    let mut machine = machine_with(&[
        0x22, 0x06, 0x12, 0x02, 0x00, 0x00, 0x22, 0x0A, 0x00, 0xEE, 0x00, 0xEE,
    ]);
    run(&mut machine, 2);
    assert_eq!(machine.stack().as_slice(), &[0x202, 0x208]);
    assert_eq!(machine.pc(), 0x20A);
    run(&mut machine, 1);
    assert_eq!(machine.stack().as_slice(), &[0x202]);
    assert_eq!(machine.pc(), 0x208);
    run(&mut machine, 1);
    assert!(machine.stack().is_empty());
    assert_eq!(machine.pc(), 0x202);
}

#[test]
fn stack_holds_more_than_sixteen_calls() {
    // 0x200: call 0x200
    let mut machine = machine_with(&[0x22, 0x00]);
    run(&mut machine, 40);
    assert_eq!(machine.stack().len(), 40);
    assert!(machine.stack().iter().all(|address| *address == 0x202));
}

#[test]
fn return_with_empty_stack_is_an_error() {
    let mut machine = machine_with(&[0x00, 0xEE]);
    assert_eq!(machine.tick(), Err(Chip8Error::StackUnderflow));
    assert_eq!(machine.pc(), 0x200);
    assert!(machine.stack().is_empty());
    assert_eq!(machine.tick_with(9), Err(Chip8Error::StackUnderflow));
    assert_eq!(machine.execute(Instruction::Return, 0), Err(Chip8Error::StackUnderflow));
    assert_eq!(machine.pc(), 0x200);
}

#[test]
fn wait_for_key_blocks_until_a_key_is_down() {
    // V1 := 0x11, V2 := 0x22, wait for key into V1
    let mut machine = machine_with(&[0x61, 0x11, 0x62, 0x22, 0xF1, 0x0A, 0x63, 0x33]);
    run(&mut machine, 2);
    assert_eq!(machine.pc(), 0x204);
    for _ in 0..25 {
        assert_eq!(machine.tick(), Ok(Instruction::WaitKey { x: 1 }));
        assert_eq!(machine.pc(), 0x204);
        for x in 0..16 {
            let expected = match x {
                1 => 0x11,
                2 => 0x22,
                _ => 0,
            };
            assert_eq!(machine.register(x), expected);
        }
    }
    machine.set_keyboard(0xB, true);
    assert_eq!(machine.tick(), Ok(Instruction::WaitKey { x: 1 }));
    assert_eq!(machine.register(1), 0xB);
    assert_eq!(machine.register(2), 0x22);
    assert_eq!(machine.pc(), 0x206);
}

#[test]
fn wait_for_key_blocks_again_after_release() {
    let mut machine = machine_with(&[0xF0, 0x0A, 0xF1, 0x0A]);
    machine.set_keyboard(0x4, true);
    run(&mut machine, 1);
    assert_eq!(machine.register(0), 4);
    machine.set_keyboard(0x4, false);
    run(&mut machine, 3);
    assert_eq!(machine.pc(), 0x202);
    assert_eq!(machine.register(1), 0);
}

#[test]
fn unknown_instruction_is_reported_and_does_nothing() {
    // 0x5121 is no instruction; V0 := 7 comes after it
    let mut machine = machine_with(&[0x51, 0x21, 0x60, 0x07]);
    assert_eq!(machine.tick(), Ok(Instruction::Unknown { word: 0x5121 }));
    assert_eq!(machine.pc(), 0x202);
    for x in 0..16 {
        assert_eq!(machine.register(x), 0);
    }
    assert_eq!(machine.index(), 0);
    assert!(machine.stack().is_empty());
    assert_eq!(machine.tick(), Ok(Instruction::Load { x: 0, byte: 7 }));
    assert_eq!(machine.register(0), 7);
}

#[test]
fn zero_word_is_unknown() {
    let mut machine = machine_with(&[]);
    assert_eq!(machine.tick(), Ok(Instruction::Unknown { word: 0x0000 }));
    assert_eq!(machine.pc(), 0x202);
}

#[test]
fn program_counter_wraps_at_sixteen_bits() {
    let mut machine = Chip8::new();
    // jump to 0xFFE + V0, with V0 = 0xFF: beyond memory, where addresses wrap
    machine.load_rom(&[0x60, 0xFF, 0xBF, 0xFE]).unwrap();
    run(&mut machine, 2);
    assert_eq!(machine.pc(), 0x10FD);
    assert_eq!(machine.read_u16(0x10FD), 0x0000);
    run(&mut machine, 1);
    assert_eq!(machine.pc(), 0x10FF);
}

#[test]
fn random_instruction_masks_the_random_byte() {
    // V3 := random & 0x3C
    let mut machine = machine_with(&[0xC3, 0x3C, 0xC4, 0xFF, 0xC5, 0x00]);
    assert_eq!(machine.tick_with(0xA7), Ok(Instruction::Random { x: 3, byte: 0x3C }));
    assert_eq!(machine.register(3), 0x24);
    machine.tick_with(0xA7).unwrap();
    assert_eq!(machine.register(4), 0xA7);
    machine.tick_with(0xA7).unwrap();
    assert_eq!(machine.register(5), 0x00);
}

#[test]
fn random_byte_is_ignored_by_other_instructions() {
    let mut first = machine_with(&[0x60, 0x12, 0x70, 0x01, 0xA1, 0x23]);
    let mut second = machine_with(&[0x60, 0x12, 0x70, 0x01, 0xA1, 0x23]);
    for _ in 0..3 {
        first.tick_with(0x00).unwrap();
        second.tick_with(0xFF).unwrap();
    }
    assert_eq!(first.register(0), 0x13);
    assert_eq!(second.register(0), 0x13);
    assert_eq!(first.index(), second.index());
    assert_eq!(first.pc(), second.pc());
}

#[test]
fn tick_draws_its_own_random_byte() {
    // V0 := random & 0x0F, over and over
    let mut machine = machine_with(&[0xC0, 0x0F, 0x12, 0x00]);
    for _ in 0..64 {
        assert_eq!(machine.tick(), Ok(Instruction::Random { x: 0, byte: 0x0F }));
        assert!(machine.register(0) <= 0x0F);
        assert_eq!(machine.pc(), 0x202);
        assert_eq!(machine.tick(), Ok(Instruction::Jump { addr: 0x200 }));
    }
}

#[test]
fn execute_runs_an_instruction_without_fetching() {
    let mut machine = Chip8::new();
    assert_eq!(machine.execute(Instruction::Load { x: 4, byte: 0x2A }, 0), Ok(()));
    assert_eq!(machine.register(4), 0x2A);
    assert_eq!(machine.pc(), 2);
    assert_eq!(machine.execute(Instruction::Call { addr: 0x300 }, 0), Ok(()));
    assert_eq!(machine.pc(), 0x300);
    assert_eq!(machine.stack().as_slice(), &[4]);
}
