//! The engine's side of the host: window and keyboard events come in as
//! plain values, and the lit pixels go out as rectangles to fill.
use vstd::prelude::*;
use crate::chip8::Chip8;
use crate::consts::{SCALE, WIDTH};
use crate::machine::Machine;

verus! {

/// The key symbol of the escape key, which ends the run.
pub const ESCAPE: i32 = 27;

/// An event of the host's window or keyboard. Keys are named by their
/// symbol: for a printable key its lower-case ASCII code.
#[derive(Clone, Copy, Debug, PartialEq, Eq, Structural)]
pub enum HostEvent {
    /// The window was closed.
    Quit,
    /// A key went down.
    KeyDown { key: i32 },
    /// A key went up.
    KeyUp { key: i32 },
    /// Anything else.
    Other,
}

/// A rectangle of host pixels: its top left corner and its size.
#[derive(Clone, Copy, Debug, PartialEq, Eq, Structural)]
pub struct PixelRect {
    pub x: i32,
    pub y: i32,
    pub width: u32,
    pub height: u32,
}

/// The keypad code of a host key. The keypad's four rows are laid on the
/// keys `1234`, `qwer`, `asdf` and `yxcv`:
///
/// ```text
/// 1 2 3 C
/// 4 5 6 D
/// 7 8 9 E
/// A 0 B F
/// ```
pub open spec fn keypad_code(key: i32) -> Option<u8> {
    if key == 49 {
        Some(0x1u8)
    } else if key == 50 {
        Some(0x2u8)
    } else if key == 51 {
        Some(0x3u8)
    } else if key == 52 {
        Some(0xCu8)
    } else if key == 113 {
        Some(0x4u8)
    } else if key == 119 {
        Some(0x5u8)
    } else if key == 101 {
        Some(0x6u8)
    } else if key == 114 {
        Some(0xDu8)
    } else if key == 97 {
        Some(0x7u8)
    } else if key == 115 {
        Some(0x8u8)
    } else if key == 100 {
        Some(0x9u8)
    } else if key == 102 {
        Some(0xEu8)
    } else if key == 121 {
        Some(0xAu8)
    } else if key == 120 {
        Some(0x0u8)
    } else if key == 99 {
        Some(0xBu8)
    } else if key == 118 {
        Some(0xFu8)
    } else {
        None
    }
}

/// Whether an event ends the run: the window was closed or escape went
/// down.
pub open spec fn is_quit(event: HostEvent) -> bool {
    event == HostEvent::Quit || event == (HostEvent::KeyDown { key: ESCAPE })
}

/// The machine after one event that does not end the run: a keypad key
/// going down or up is recorded, anything else is ignored.
pub open spec fn after_event(m: Machine, event: HostEvent) -> Machine {
    match event {
        HostEvent::KeyDown { key } => match keypad_code(key) {
            Some(code) => m.with_key(code, true),
            None => m,
        },
        HostEvent::KeyUp { key } => match keypad_code(key) {
            Some(code) => m.with_key(code, false),
            None => m,
        },
        _ => m,
    }
}

/// The machine after the events up to the first that ends the run, or
/// after all of them if none does.
pub open spec fn after_events(m: Machine, events: Seq<HostEvent>) -> Machine
    decreases events.len(),
{
    if events.len() == 0 || is_quit(events[0]) {
        m
    } else {
        after_events(after_event(m, events[0]), events.drop_first())
    }
}

/// Whether one of the events ends the run.
pub open spec fn asks_to_quit(events: Seq<HostEvent>) -> bool {
    exists|i: int| 0 <= i < events.len() && is_quit(#[trigger] events[i])
}

/// The rectangle of host pixels that presents the display pixel `i`.
pub open spec fn pixel_rect(i: int) -> PixelRect {
    PixelRect {
        x: ((i % 64) * SCALE) as i32,
        y: ((i / 64) * SCALE) as i32,
        width: SCALE as u32,
        height: SCALE as u32,
    }
}

/// The lit pixels among the first `upto` of a display, in rising order.
pub open spec fn lit_pixels(screen: Seq<bool>, upto: int) -> Seq<int> {
    Seq::new(upto as nat, |i: int| i).filter(|i: int| screen[i])
}

/// The rectangles of the lit pixels among the first `upto` of a display,
/// in the order of the pixels.
pub open spec fn lit_rects(screen: Seq<bool>, upto: int) -> Seq<PixelRect> {
    lit_pixels(screen, upto).map_values(|i: int| pixel_rect(i))
}

/// One pixel more adds its rectangle if it is lit, and nothing if not.
proof fn lemma_lit_rects_next(screen: Seq<bool>, upto: int)
    requires
        0 <= upto,
    ensures
        lit_rects(screen, upto + 1) == if screen[upto] {
            lit_rects(screen, upto).push(pixel_rect(upto))
        } else {
            lit_rects(screen, upto)
        },
        lit_rects(screen, 0) == Seq::<PixelRect>::empty(),
{
    let before = Seq::new(upto as nat, |i: int| i);
    let is_lit = |i: int| screen[i];
    assert(Seq::new((upto + 1) as nat, |i: int| i) =~= before.push(upto));
    before.lemma_filter_push(upto, is_lit);
    if screen[upto] {
        assert(lit_rects(screen, upto + 1) =~= lit_rects(screen, upto).push(pixel_rect(upto)));
    }
    Seq::new(0nat, |i: int| i).lemma_filter_len(is_lit);
    assert(lit_rects(screen, 0) =~= Seq::<PixelRect>::empty());
}

/// The keypad code of a host key, if it is one of the sixteen keypad keys.
pub fn keys(key: i32) -> (code: Option<u8>)
    ensures
        code == keypad_code(key),
{
    match key {
        49 => Some(0x1),
        50 => Some(0x2),
        51 => Some(0x3),
        52 => Some(0xC),
        113 => Some(0x4),
        119 => Some(0x5),
        101 => Some(0x6),
        114 => Some(0xD),
        97 => Some(0x7),
        115 => Some(0x8),
        100 => Some(0x9),
        102 => Some(0xE),
        121 => Some(0xA),
        120 => Some(0x0),
        99 => Some(0xB),
        118 => Some(0xF),
        _ => None,
    }
}

/// Feeds the host's events to the machine, in order, and tells whether
/// the run is to end. The events after the one that ends the run are not
/// looked at.
pub fn check_keyboard(events: &[HostEvent], chip8: &mut Chip8) -> (quit: bool)
    ensures
        quit == asks_to_quit(events@),
        final(chip8)@ == after_events(old(chip8)@, events@),
{
    let mut i: usize = 0;
    assert(events@.subrange(0, events@.len() as int) =~= events@);
    while i < events.len()
        invariant
            i <= events.len(),
            forall|k: int| 0 <= k < i ==> !is_quit(#[trigger] events@[k]),
            after_events(old(chip8)@, events@) == after_events(
                chip8@,
                events@.subrange(i as int, events@.len() as int),
            ),
        decreases events.len() - i,
    {
        let ghost rest = events@.subrange(i as int, events@.len() as int);
        assert(rest[0] == events@[i as int]);
        assert(rest.drop_first() =~= events@.subrange(i + 1, events@.len() as int));
        match events[i] {
            HostEvent::Quit => {
                return true;
            },
            HostEvent::KeyDown { key } => {
                if key == ESCAPE {
                    return true;
                }
                if let Some(code) = keys(key) {
                    chip8.set_keyboard(code, true);
                }
            },
            HostEvent::KeyUp { key } => {
                if let Some(code) = keys(key) {
                    chip8.set_keyboard(code, false);
                }
            },
            HostEvent::Other => {},
        }
        i += 1;
    }
    assert(events@.subrange(i as int, events@.len() as int).len() == 0);
    false
}

/// The rectangles to fill so that the host's window shows the display: one
/// square of side `SCALE` for each lit pixel, in the order of the pixels.
pub fn draw_screen(chip8: &Chip8) -> (rects: Vec<PixelRect>)
    ensures
        rects@ == lit_rects(chip8@.screen, 2048),
{
    let buffer: &[bool; 2048] = chip8.get_screen();
    let mut rects: Vec<PixelRect> = Vec::new();
    let mut i: usize = 0;
    proof {
        lemma_lit_rects_next(buffer@, 0);
    }
    while i < 2048
        invariant
            i <= 2048,
            buffer@ == chip8@.screen,
            rects@ == lit_rects(buffer@, i as int),
        decreases 2048 - i,
    {
        proof {
            lemma_lit_rects_next(buffer@, i as int);
        }
        if buffer[i] {
            let x: usize = i % WIDTH;
            let y: usize = i / WIDTH;
            rects.push(
                PixelRect {
                    x: (x * SCALE) as i32,
                    y: (y * SCALE) as i32,
                    width: SCALE as u32,
                    height: SCALE as u32,
                },
            );
        }
        i += 1;
    }
    rects
}

} // verus!
