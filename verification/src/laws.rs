//! Laws of the model: what holds of every machine, proved from the
//! definitions in `machine`.
use vstd::prelude::*;
use crate::font::font_table;
use crate::host::{after_events, asks_to_quit, is_quit, keypad_code};
use crate::host::{lit_pixels, lit_rects, pixel_rect, HostEvent};
use crate::instruction::Instruction;
use crate::machine::{pc_after, pc_before, Machine, WaitState};

verus! {

/// Every word decodes to an instruction whose operands are in range.
pub proof fn decoded_is_well_formed(word: u16)
    ensures
        Instruction::of_word(word).wf(),
{
}

/// Executing a well-formed instruction on a well-formed machine gives a
/// well-formed machine.
pub proof fn execute_keeps_well_formed(m: Machine, ins: Instruction, random: u8)
    requires
        m.wf(),
        ins.wf(),
        !m.underflows(ins),
    ensures
        m.execute(ins, random).wf(),
{
}

/// Only the random instruction depends on the random byte.
pub proof fn random_byte_matters_to_random_only(m: Machine, ins: Instruction, a: u8, b: u8)
    requires
        !ins.uses_random(),
    ensures
        m.execute(ins, a) == m.execute(ins, b),
{
}

/// Two bytes forward and two bytes back is where the program counter was.
pub proof fn rewinding_undoes_advancing(pc: u16)
    ensures
        pc_before(pc_after(pc)) == pc,
        pc_after(pc_before(pc)) == pc,
{
}

/// A newly constructed machine holds the font at `0x050..0x0A0`.
pub proof fn font_is_in_initial_memory()
    ensures
        Machine::initial().wf(),
        Machine::initial().memory.subrange(0x050, 0x0A0) == font_table(),
{
    assert(Machine::initial().memory.subrange(0x050, 0x0A0) =~= font_table());
}

/// Loading a program image, whatever its length, leaves every byte below
/// `0x200` as it was, and so the font if it was there.
pub proof fn load_keeps_low_memory(m: Machine, image: Seq<u8>)
    requires
        m.wf(),
    ensures
        m.load(image).memory.subrange(0, 0x200) == m.memory.subrange(0, 0x200),
        m.memory.subrange(0x050, 0x0A0) == font_table() ==> m.load(image).memory.subrange(
            0x050,
            0x0A0,
        ) == font_table(),
{
    assert(m.load(image).memory.subrange(0, 0x200) =~= m.memory.subrange(0, 0x200));
    assert(m.load(image).memory.subrange(0x050, 0x0A0) =~= m.memory.subrange(0x050, 0x0A0));
}

/// A loaded image of at most 3584 bytes is in memory from `0x200` on, and
/// the program counter points at it.
pub proof fn load_places_image(m: Machine, image: Seq<u8>)
    requires
        m.wf(),
        image.len() <= 3584,
    ensures
        m.load(image).wf(),
        m.load(image).pc == 0x200,
        m.load(image).memory.subrange(0x200, 0x200 + image.len() as int) == image,
{
    assert(m.load(image).memory.subrange(0x200, 0x200 + image.len() as int) =~= image);
}

/// Adding a byte to a register wraps at 256 and changes no other
/// register, so not the flag either unless it is the target.
pub proof fn add_wraps_and_keeps_flag(m: Machine, x: u8, byte: u8, random: u8)
    requires
        m.wf(),
        x < 16,
    ensures
        m.execute(Instruction::Add { x, byte }, random).regs[x as int] == (m.regs[x as int]
            + byte) % 256,
        forall|j: int|
            0 <= j < 16 && j != x ==> m.execute(Instruction::Add { x, byte }, random).regs[j]
                == m.regs[j],
{
}

/// Adding two registers wraps at 256 and sets the flag to 1 exactly when
/// the sum passed 255, to 0 otherwise.
pub proof fn add_registers_sets_carry(m: Machine, x: u8, y: u8, random: u8)
    requires
        m.wf(),
        x < 16,
        y < 16,
    ensures
        x != 0xF ==> m.execute(Instruction::AddRegisters { x, y }, random).regs[x as int] == (
        m.regs[x as int] + m.regs[y as int]) % 256,
        m.execute(Instruction::AddRegisters { x, y }, random).regs[0xF] == (if m.regs[x as int]
            + m.regs[y as int] > 255 {
            1u8
        } else {
            0u8
        }),
{
}

/// Subtracting a register wraps at 256 and sets the flag to 1 exactly when
/// nothing was borrowed, to 0 otherwise.
pub proof fn subtract_sets_no_borrow(m: Machine, x: u8, y: u8, random: u8)
    requires
        m.wf(),
        x < 16,
        y < 16,
    ensures
        x != 0xF ==> m.execute(Instruction::Subtract { x, y }, random).regs[x as int] == (
        m.regs[x as int] - m.regs[y as int]) % 256,
        m.execute(Instruction::Subtract { x, y }, random).regs[0xF] == (if m.regs[x as int]
            >= m.regs[y as int] {
            1u8
        } else {
            0u8
        }),
        x != 0xF ==> m.execute(Instruction::SubtractFrom { x, y }, random).regs[x as int] == (
        m.regs[y as int] - m.regs[x as int]) % 256,
        m.execute(Instruction::SubtractFrom { x, y }, random).regs[0xF] == (if m.regs[y as int]
            >= m.regs[x as int] {
            1u8
        } else {
            0u8
        }),
{
}

/// After the screen has been cleared every pixel is off, whatever was on
/// it, and nothing else has changed but the program counter.
pub proof fn clear_screen_turns_all_off(m: Machine, random: u8)
    ensures
        m.execute(Instruction::ClearScreen, random).screen.len() == 2048,
        forall|i: int|
            0 <= i < 2048 ==> !m.execute(Instruction::ClearScreen, random).screen[i],
        m.execute(Instruction::ClearScreen, random) == (Machine {
            screen: m.execute(Instruction::ClearScreen, random).screen,
            pc: pc_after(m.pc),
            ..m
        }),
{
}

/// A draw changes no pixel outside the box of 8 columns and `n` rows whose
/// top left corner is the origin: a sprite that reaches over the right or
/// the bottom edge is cut off there and does not come back in on the other
/// side. The display keeps its size. The pixel `i` is in column `i % 64` of
/// row `i / 64`.
pub proof fn draw_stays_in_box(m: Machine, x: u8, y: u8, n: u8)
    requires
        m.wf(),
        x < 16,
        y < 16,
    ensures
        m.draw(x as int, y as int, n as int).screen.len() == 2048,
        forall|i: int|
            0 <= i < 2048 && !(m.regs[x as int] % 64 <= i % 64 < m.regs[x as int] % 64 + 8
                && m.regs[y as int] % 32 <= i / 64 < m.regs[y as int] % 32 + n) ==> #[trigger] m.draw(
                x as int,
                y as int,
                n as int,
            ).screen[i] == m.screen[i],
{
}

/// Drawing a sprite toggles exactly the pixels under its set bits.
pub proof fn draw_toggles_under_set_bits(m: Machine, x: u8, y: u8, n: u8, px: int, py: int)
    requires
        m.wf(),
        x < 16,
        y < 16,
        0 <= px < 64,
        0 <= py < 32,
    ensures
        m.draw(x as int, y as int, n as int).screen[py * 64 + px] == (m.screen[py * 64 + px]
            != m.sprite_at(
            m.regs[x as int] as int % 64,
            m.regs[y as int] as int % 32,
            n as int,
            px,
            py,
        )),
{
    let i = py * 64 + px;
    assert(i / 64 == py && i % 64 == px);
}

/// Drawing the same sprite twice at the same place gives back the display
/// as it was. The second draw reports a collision exactly when the sprite
/// has a set bit on a pixel that was off before the first draw.
pub proof fn drawing_twice_restores(m: Machine, ox: int, oy: int, n: int)
    requires
        m.wf(),
    ensures
        (Machine { screen: m.drawn_screen(ox, oy, n), ..m }).drawn_screen(ox, oy, n) == m.screen,
        (Machine { screen: m.drawn_screen(ox, oy, n), ..m }).collides(ox, oy, n) <==> (exists|
            i: int,
        |
            0 <= i < 2048 && !#[trigger] m.screen[i] && m.sprite_at(ox, oy, n, i % 64, i / 64)),
{
    let once = Machine { screen: m.drawn_screen(ox, oy, n), ..m };
    assert(once.drawn_screen(ox, oy, n) =~= m.screen);
    if once.collides(ox, oy, n) {
        let w = choose|i: int|
            0 <= i < 2048 && #[trigger] once.screen[i] && once.sprite_at(
                ox,
                oy,
                n,
                i % 64,
                i / 64,
            );
        assert(!m.screen[w] && m.sprite_at(ox, oy, n, w % 64, w / 64));
    }
    if exists|i: int|
        0 <= i < 2048 && !#[trigger] m.screen[i] && m.sprite_at(ox, oy, n, i % 64, i / 64) {
        let w = choose|i: int|
            0 <= i < 2048 && !#[trigger] m.screen[i] && m.sprite_at(ox, oy, n, i % 64, i / 64);
        assert(once.screen[w] && once.sprite_at(ox, oy, n, w % 64, w / 64));
    }
}

/// The same for the draw instruction, where neither coordinate is read
/// from the flag register (which the first draw overwrites): the second
/// draw gives back the display, and it sets the flag to 1 if the first draw
/// lit a pixel.
pub proof fn draw_instruction_twice_restores(m: Machine, x: u8, y: u8, n: u8)
    requires
        m.wf(),
        x < 15,
        y < 15,
    ensures
        m.draw(x as int, y as int, n as int).draw(x as int, y as int, n as int).screen
            == m.screen,
        (exists|i: int|
            0 <= i < 2048 && !#[trigger] m.screen[i] && m.sprite_at(
                m.regs[x as int] as int % 64,
                m.regs[y as int] as int % 32,
                n as int,
                i % 64,
                i / 64,
            )) ==> m.draw(x as int, y as int, n as int).draw(
            x as int,
            y as int,
            n as int,
        ).regs[0xF] == 1,
{
    let ox = m.regs[x as int] as int % 64;
    let oy = m.regs[y as int] as int % 32;
    let once = Machine { screen: m.drawn_screen(ox, oy, n as int), ..m };
    let first = m.draw(x as int, y as int, n as int);
    drawing_twice_restores(m, ox, oy, n as int);
    assert(first.drawn_screen(ox, oy, n as int) =~= once.drawn_screen(ox, oy, n as int));
    if exists|i: int|
        0 <= i < 2048 && !#[trigger] m.screen[i] && m.sprite_at(ox, oy, n as int, i % 64, i / 64) {
        let w = choose|i: int|
            0 <= i < 2048 && #[trigger] once.screen[i] && once.sprite_at(
                ox,
                oy,
                n as int,
                i % 64,
                i / 64,
            );
        assert(first.screen[w] && first.sprite_at(ox, oy, n as int, w % 64, w / 64));
    }
}

/// A call followed by a return goes on after the call with the stack as
/// it was before.
pub proof fn return_undoes_call(m: Machine, addr: u16, a: u8, b: u8)
    requires
        m.wf(),
    ensures
        !m.execute(Instruction::Call { addr }, a).underflows(Instruction::Return),
        m.execute(Instruction::Call { addr }, a).execute(Instruction::Return, b) == m.with_pc(
            pc_after(m.pc),
        ),
{
    let called = m.execute(Instruction::Call { addr }, a);
    let back = called.execute(Instruction::Return, b);
    assert(back.stack =~= m.stack);
}

/// While no key is down, the instruction that waits for a key leaves the
/// whole machine as it was, the program counter too, so it is fetched
/// again.
pub proof fn wait_key_blocks_without_key(m: Machine, x: u8, random: u8)
    requires
        m.key is None,
    ensures
        m.execute(Instruction::WaitKey { x }, random) == m,
{
}

/// Once a key is down, the instruction that waits for a key stores its
/// code in `Vx` and the program counter moves past the instruction.
pub proof fn wait_key_takes_pressed_key(m: Machine, x: u8, code: u8, random: u8)
    requires
        m.wf(),
        x < 16,
    ensures
        m.with_key(code, true).execute(Instruction::WaitKey { x }, random) == m.with_key(
            code,
            true,
        ).with_pc(pc_after(m.pc)).with_reg(x as int, code),
        m.with_key(code, true).execute(Instruction::WaitKey { x }, random).regs[x as int]
            == code,
{
}

/// A key going up clears the tracked key whichever key it is.
pub proof fn release_clears_key(m: Machine, code: u8)
    ensures
        m.with_key(code, false).key is None,
{
}

/// A draw attempted while the latch is idle or armed changes nothing but
/// the latch, which is armed afterwards: the program counter is back on the
/// draw instruction. After the end of a frame the draw goes through and
/// the latch is idle again.
pub proof fn draw_waits_for_end_of_frame(m: Machine, x: u8, y: u8, n: u8, random: u8)
    ensures
        m.wait != WaitState::Suppressed ==> m.execute(Instruction::Draw { x, y, n }, random)
            == (Machine { wait: WaitState::ArmedOnce, ..m }),
        m.wait == WaitState::ArmedOnce ==> m.end_frame().execute(
            Instruction::Draw { x, y, n },
            random,
        ) == (Machine { wait: WaitState::Idle, pc: pc_after(m.pc), ..m }).draw(
            x as int,
            y as int,
            n as int,
        ),
{
}

impl Machine {
    /// The machine after `n` timer ticks.
    pub open spec fn tick_timers_times(self, n: nat) -> Machine
        decreases n,
    {
        if n == 0 {
            self
        } else {
            self.tick_timers().tick_timers_times((n - 1) as nat)
        }
    }
}

/// A timer at zero stays at zero.
pub proof fn timers_stay_at_zero(m: Machine)
    ensures
        m.delay == 0 ==> m.tick_timers().delay == 0,
        m.sound == 0 ==> m.tick_timers().sound == 0,
{
}

/// After `n` ticks each timer has gone down by `n`, or to zero if it held
/// less: it never wraps around.
pub proof fn timers_count_down_to_zero(m: Machine, n: nat)
    ensures
        m.tick_timers_times(n).delay == (if m.delay >= n {
            m.delay - n
        } else {
            0
        }),
        m.tick_timers_times(n).sound == (if m.sound >= n {
            m.sound - n
        } else {
            0
        }),
    decreases n,
{
    if n > 0 {
        timers_count_down_to_zero(m.tick_timers(), (n - 1) as nat);
    }
}

/// A keypad code fits in four bits.
pub proof fn keypad_codes_fit_four_bits(key: i32)
    ensures
        keypad_code(key) matches Some(code) ==> code <= 0xF,
{
}

/// Two keys with the same keypad code are the same key.
pub proof fn keypad_keys_have_distinct_codes(a: i32, b: i32)
    requires
        keypad_code(a) is Some,
        keypad_code(a) == keypad_code(b),
    ensures
        a == b,
{
}

/// Every keypad code has a key.
pub proof fn every_keypad_code_has_a_key(code: u8) -> (key: i32)
    requires
        code <= 0xF,
    ensures
        keypad_code(key) == Some(code),
{
    if code == 0x0 {
        120
    } else if code == 0x1 {
        49
    } else if code == 0x2 {
        50
    } else if code == 0x3 {
        51
    } else if code == 0x4 {
        113
    } else if code == 0x5 {
        119
    } else if code == 0x6 {
        101
    } else if code == 0x7 {
        97
    } else if code == 0x8 {
        115
    } else if code == 0x9 {
        100
    } else if code == 0xA {
        121
    } else if code == 0xB {
        99
    } else if code == 0xC {
        52
    } else if code == 0xD {
        114
    } else if code == 0xE {
        102
    } else {
        118
    }
}

/// Events of which the first ends the run leave the machine as it was.
pub proof fn nothing_is_read_after_quit(m: Machine, events: Seq<HostEvent>)
    requires
        events.len() > 0,
        is_quit(events[0]),
    ensures
        asks_to_quit(events),
        after_events(m, events) == m,
{
}

/// A display pixel is lit exactly when its rectangle is among those to
/// fill.
pub proof fn rectangles_are_those_of_lit_pixels(screen: Seq<bool>, i: int)
    requires
        screen.len() == 2048,
        0 <= i < 2048,
    ensures
        screen[i] <==> lit_rects(screen, 2048).contains(pixel_rect(i)),
{
    let all = Seq::new(2048nat, |k: int| k);
    let is_lit = |k: int| screen[k];
    let pixels = lit_pixels(screen, 2048);
    let rects = lit_rects(screen, 2048);
    if screen[i] {
        assert(all[i] == i);
        all.lemma_filter_contains(is_lit, i);
        let j = choose|j: int| 0 <= j < pixels.len() && pixels[j] == i;
        assert(rects[j] == pixel_rect(i));
    }
    if rects.contains(pixel_rect(i)) {
        let j = choose|j: int| 0 <= j < rects.len() && rects[j] == pixel_rect(i);
        let k = pixels[j];
        all.lemma_filter_pred(is_lit, j);
        assert(pixels.contains(k));
        all.lemma_filter_contains_rev(is_lit, k);
        let a = choose|a: int| 0 <= a < all.len() && all[a] == k;
        assert(0 <= k < 2048);
        assert(pixel_rect(k) == pixel_rect(i));
        assert(k == (k / 64) * 64 + k % 64);
        assert(i == (i / 64) * 64 + i % 64);
    }
}

} // verus!
