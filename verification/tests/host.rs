use chip8::host::{check_keyboard, draw_screen, keys, HostEvent, PixelRect, ESCAPE};
use chip8::{Chip8, Instruction, WaitState};

#[test]
fn keys_maps_the_sixteen_keypad_keys() {
    let layout: [(char, u8); 16] = [
        ('1', 0x1), ('2', 0x2), ('3', 0x3), ('4', 0xC),
        ('q', 0x4), ('w', 0x5), ('e', 0x6), ('r', 0xD),
        ('a', 0x7), ('s', 0x8), ('d', 0x9), ('f', 0xE),
        ('y', 0xA), ('x', 0x0), ('c', 0xB), ('v', 0xF),
    ];
    for (key, code) in layout {
        assert_eq!(keys(key as i32), Some(code), "key {}", key);
    }
}

#[test]
fn keys_knows_no_other_key() {
    let known = "1234qwerasdfyxcv";
    for key in -300..1300i32 {
        let is_known = key >= 0 && known.contains(char::from_u32(key as u32).unwrap_or('\0'));
        assert_eq!(keys(key).is_some(), is_known, "key {}", key);
    }
    assert_eq!(keys(ESCAPE), None);
    assert_eq!(keys('z' as i32), None);
    assert_eq!(keys('Q' as i32), None);
    assert_eq!(keys(i32::MAX), None);
    assert_eq!(keys(i32::MIN), None);
}

#[test]
fn keys_reaches_every_code_once() {
    let mut seen = [0u8; 16];
    for key in 0..256i32 {
        if let Some(code) = keys(key) {
            seen[code as usize] += 1;
        }
    }
    assert_eq!(seen, [1u8; 16]);
}

#[test]
fn key_down_and_up_reach_the_machine() {
    let mut machine = Chip8::new();
    let quit = check_keyboard(&[HostEvent::KeyDown { key: 'w' as i32 }], &mut machine);
    assert!(!quit);
    assert_eq!(machine.keyboard(), Some(0x5));
    let quit = check_keyboard(&[HostEvent::KeyUp { key: 'w' as i32 }], &mut machine);
    assert!(!quit);
    assert_eq!(machine.keyboard(), None);
}

#[test]
fn releasing_any_keypad_key_clears_the_pressed_key() {
    let mut machine = Chip8::new();
    let events = [HostEvent::KeyDown { key: 'a' as i32 }, HostEvent::KeyUp { key: 'v' as i32 }];
    assert!(!check_keyboard(&events, &mut machine));
    assert_eq!(machine.keyboard(), None);
}

#[test]
fn other_keys_and_events_are_ignored() {
    let mut machine = Chip8::new();
    machine.set_keyboard(0x9, true);
    let events = [
        HostEvent::Other,
        HostEvent::KeyDown { key: 'z' as i32 },
        HostEvent::KeyUp { key: 'p' as i32 },
        HostEvent::KeyUp { key: ESCAPE },
        HostEvent::Other,
    ];
    assert!(!check_keyboard(&events, &mut machine));
    assert_eq!(machine.keyboard(), Some(0x9));
}

#[test]
fn no_events_change_nothing() {
    let mut machine = Chip8::new();
    machine.set_keyboard(0x2, true);
    assert!(!check_keyboard(&[], &mut machine));
    assert_eq!(machine.keyboard(), Some(0x2));
}

#[test]
fn events_apply_in_order() {
    let mut machine = Chip8::new();
    let events = [
        HostEvent::KeyDown { key: '1' as i32 },
        HostEvent::KeyDown { key: 'x' as i32 },
        HostEvent::KeyUp { key: '1' as i32 },
        HostEvent::KeyDown { key: 'f' as i32 },
    ];
    assert!(!check_keyboard(&events, &mut machine));
    assert_eq!(machine.keyboard(), Some(0xE));
}

#[test]
fn quit_ends_the_run_and_stops_reading() {
    let mut machine = Chip8::new();
    let events = [
        HostEvent::KeyDown { key: 'q' as i32 },
        HostEvent::Quit,
        HostEvent::KeyDown { key: 'e' as i32 },
    ];
    assert!(check_keyboard(&events, &mut machine));
    assert_eq!(machine.keyboard(), Some(0x4));
}

#[test]
fn escape_down_ends_the_run() {
    let mut machine = Chip8::new();
    let events = [
        HostEvent::KeyDown { key: ESCAPE },
        HostEvent::KeyDown { key: 'e' as i32 },
    ];
    assert!(check_keyboard(&events, &mut machine));
    assert_eq!(machine.keyboard(), None);
    assert!(check_keyboard(&[HostEvent::Other, HostEvent::Quit], &mut machine));
}

#[test]
fn pressed_key_feeds_the_waiting_instruction() {
    let mut machine = Chip8::new();
    machine.load_rom(&[0xF7, 0x0A]).unwrap();
    machine.tick().unwrap();
    assert_eq!(machine.pc(), 0x200);
    check_keyboard(&[HostEvent::KeyDown { key: 'c' as i32 }], &mut machine);
    assert_eq!(machine.tick(), Ok(Instruction::WaitKey { x: 7 }));
    assert_eq!(machine.register(7), 0xB);
    assert_eq!(machine.pc(), 0x202);
}

#[test]
fn blank_display_needs_no_rectangles() {
    let machine = Chip8::new();
    assert!(draw_screen(&machine).is_empty());
}

#[test]
fn lit_pixels_become_squares_in_pixel_order() {
    // one row 0b1010_0000 at (62, 31) and one at (0, 1)
    let mut machine = Chip8::new();
    machine
        .load_rom(&[0x60, 62, 0x61, 31, 0xA3, 0x00, 0xD0, 0x11, 0x60, 0, 0x61, 1, 0xD0, 0x11])
        .unwrap();
    machine.load_into_memory(&[0xA0], 0x300);
    for _ in 0..3 {
        machine.tick().unwrap();
    }
    machine.set_wait_state(WaitState::Suppressed);
    machine.tick().unwrap();
    for _ in 0..2 {
        machine.tick().unwrap();
    }
    machine.set_wait_state(WaitState::Suppressed);
    machine.tick().unwrap();
    assert_eq!(
        draw_screen(&machine),
        vec![
            PixelRect { x: 0, y: 10, width: 10, height: 10 },
            PixelRect { x: 20, y: 10, width: 10, height: 10 },
            PixelRect { x: 620, y: 310, width: 10, height: 10 },
        ]
    );
}

#[test]
fn full_display_gives_one_square_per_pixel() {
    let mut machine = Chip8::new();
    machine.load_into_memory(&[0xFF; 15], 0x300);
    machine.execute(Instruction::LoadIndex { addr: 0x300 }, 0).unwrap();
    for y in [0u8, 15, 30] {
        for x in [0u8, 8, 16, 24, 32, 40, 48, 56] {
            machine.execute(Instruction::Load { x: 0, byte: x }, 0).unwrap();
            machine.execute(Instruction::Load { x: 1, byte: y }, 0).unwrap();
            machine.set_wait_state(WaitState::Suppressed);
            machine.execute(Instruction::Draw { x: 0, y: 1, n: 15 }, 0).unwrap();
        }
    }
    let rects = draw_screen(&machine);
    assert_eq!(rects.len(), 2048);
    for (i, rect) in rects.iter().enumerate() {
        let expected = PixelRect {
            x: (i % 64 * 10) as i32,
            y: (i / 64 * 10) as i32,
            width: 10,
            height: 10,
        };
        assert_eq!(*rect, expected);
    }
}
