//! The executable engine. Every operation is proved to act on the state as
//! the model in `machine` says.
use vstd::prelude::*;
use crate::consts::{HEIGHT, WIDTH};
use crate::font::FONT;
use crate::instruction::Instruction;
use crate::machine::{blank_screen, initial_memory, overlay, pc_after, pc_before};
use crate::machine::{Chip8Error, Machine, WaitState};
use crate::random::random_byte;

verus! {

/// A CHIP-8 machine: memory, registers, timers, display and keypad.
pub struct Chip8 {
    screen: [bool; 2048],
    memory: [u8; 4096],
    pc: u16,
    index_register: u16,
    stack: Vec<u16>,
    delay_timer: u8,
    sound_timer: u8,
    registers: [u8; 16],
    keyboard_state: Option<u8>,
    wait_int: WaitState,
}

impl View for Chip8 {
    type V = Machine;

    closed spec fn view(&self) -> Machine {
        Machine {
            screen: self.screen@,
            memory: self.memory@,
            pc: self.pc,
            index: self.index_register,
            stack: self.stack@,
            delay: self.delay_timer,
            sound: self.sound_timer,
            regs: self.registers@,
            key: self.keyboard_state,
            wait: self.wait_int,
        }
    }
}

/// Writes `data` over `memory` from `start` on.
fn copy_into(memory: &mut [u8; 4096], data: &[u8], start: usize)
    requires
        start + data.len() <= 4096,
    ensures
        final(memory)@ == overlay(old(memory)@, start as int, data@),
{
    let mut i: usize = 0;
    while i < data.len()
        invariant
            i <= data.len(),
            start + data.len() <= 4096,
            memory@ == overlay(old(memory)@, start as int, data@.take(i as int)),
        decreases data.len() - i,
    {
        memory[start + i] = data[i];
        i += 1;
        assert(memory@ =~= overlay(old(memory)@, start as int, data@.take(i as int)));
    }
    assert(data@.take(i as int) =~= data@);
}

/// Turns every pixel of `screen` off.
fn fill_blank(screen: &mut [bool; 2048])
    ensures
        final(screen)@ == blank_screen(),
{
    let mut i: usize = 0;
    while i < 2048
        invariant
            i <= 2048,
            forall|k: int| 0 <= k < i ==> screen@[k] == false,
        decreases 2048 - i,
    {
        screen[i] = false;
        i += 1;
    }
    assert(screen@ =~= blank_screen());
}

/// The sum of two bytes modulo 256, and whether it passed 255.
fn overflowing_add(a: u8, b: u8) -> (sum: (u8, bool))
    ensures
        sum.0 == (a + b) % 256,
        sum.1 == (a + b > 255),
{
    (a.wrapping_add(b), a > 255 - b)
}

/// The difference of two bytes modulo 256, and whether it fell below zero.
fn overflowing_sub(a: u8, b: u8) -> (difference: (u8, bool))
    ensures
        difference.0 == (a - b) % 256,
        difference.1 == (a - b < 0),
{
    (a.wrapping_sub(b), a < b)
}

/// Stores the first `x + 1` registers in `memory` from `index` on.
fn store_registers(memory: &mut [u8; 4096], registers: &[u8; 16], index: u16, x: usize)
    requires
        x < 16,
        index <= 0x0FFF,
    ensures
        forall|a: int|
            0 <= a < 4096 ==> #[trigger] final(memory)@[a] == if (a - index) % 4096 <= x {
                registers@[(a - index) % 4096]
            } else {
                old(memory)@[a]
            },
{
    let mut i: usize = 0;
    while i <= x
        invariant
            i <= x + 1,
            x < 16,
            index <= 0x0FFF,
            forall|a: int|
                0 <= a < 4096 ==> #[trigger] memory@[a] == if (a - index) % 4096 < i {
                    registers@[(a - index) % 4096]
                } else {
                    old(memory)@[a]
                },
        decreases x + 1 - i,
    {
        let address: u16 = (index + i as u16) & 0x0FFF;
        assert((index + i as u16) as u16 & 0x0FFF == (index + i as u16) as u16 % 4096)
            by (bit_vector);
        memory[address as usize] = registers[i];
        i += 1;
    }
}

/// Loads the first `x + 1` registers from `memory` at `index` on.
fn load_registers(registers: &mut [u8; 16], memory: &[u8; 4096], index: u16, x: usize)
    requires
        x < 16,
        index <= 0x0FFF,
    ensures
        forall|i: int|
            0 <= i < 16 ==> #[trigger] final(registers)@[i] == if i <= x {
                memory@[(index + i) % 4096]
            } else {
                old(registers)@[i]
            },
{
    let mut i: usize = 0;
    while i <= x
        invariant
            i <= x + 1,
            x < 16,
            index <= 0x0FFF,
            forall|k: int|
                0 <= k < 16 ==> #[trigger] registers@[k] == if k < i {
                    memory@[(index + k) % 4096]
                } else {
                    old(registers)@[k]
                },
        decreases x + 1 - i,
    {
        let address: u16 = (index + i as u16) & 0x0FFF;
        assert((index + i as u16) as u16 & 0x0FFF == (index + i as u16) as u16 % 4096)
            by (bit_vector);
        registers[i] = memory[address as usize];
        i += 1;
    }
}

/// Whether a draw that is about to visit column `column` of sprite row
/// `row` has already visited the pixel `i`.
spec fn reached(ox: int, oy: int, row: int, column: int, i: int) -> bool {
    i / 64 - oy < row || (i / 64 - oy == row && i % 64 - ox < column)
}

/// Whether the pixel `i` was lit, lies under a set bit of the sprite and has
/// been visited.
spec fn hit(m: Machine, ox: int, oy: int, n: int, row: int, column: int, i: int) -> bool {
    &&& 0 <= i < 2048
    &&& m.screen[i]
    &&& m.sprite_at(ox, oy, n, i % 64, i / 64)
    &&& reached(ox, oy, row, column, i)
}

/// Visiting one more pixel adds exactly that pixel to those visited.
proof fn lemma_visit_pixel(
    m: Machine,
    ox: int,
    oy: int,
    n: int,
    row: int,
    column: int,
    after: int,
)
    requires
        0 <= ox < 64,
        0 <= oy < 32,
        0 <= row < n,
        oy + row < 32,
        0 <= column < 8,
        ox + column < 64,
        after == column + 1,
    ensures
        forall|i: int|
            0 <= i < 2048 ==> (#[trigger] reached(ox, oy, row, after, i) <==> reached(
                ox,
                oy,
                row,
                column,
                i,
            ) || i == (oy + row) * 64 + ox + column),
        !reached(ox, oy, row, column, (oy + row) * 64 + ox + column),
        (exists|i: int| hit(m, ox, oy, n, row, after, i)) <==> (exists|i: int|
            hit(m, ox, oy, n, row, column, i)) || (m.screen[(oy + row) * 64 + ox + column]
            && m.sprite_at(ox, oy, n, ox + column, oy + row)),
{
    let pixel = (oy + row) * 64 + ox + column;
    assert(pixel / 64 == oy + row && pixel % 64 == ox + column);
    assert forall|i: int| 0 <= i < 2048 implies (#[trigger] reached(ox, oy, row, after, i)
        <==> reached(ox, oy, row, column, i) || i == pixel) by {
        assert(i == (i / 64) * 64 + i % 64);
    }
    if exists|i: int| hit(m, ox, oy, n, row, after, i) {
        let w = choose|i: int| hit(m, ox, oy, n, row, after, i);
        assert(reached(ox, oy, row, after, w));
        if w != pixel {
            assert(hit(m, ox, oy, n, row, column, w));
        }
    }
    if exists|i: int| hit(m, ox, oy, n, row, column, i) {
        let w = choose|i: int| hit(m, ox, oy, n, row, column, i);
        assert(reached(ox, oy, row, after, w));
        assert(hit(m, ox, oy, n, row, after, w));
    }
    if m.screen[pixel] && m.sprite_at(ox, oy, n, ox + column, oy + row) {
        assert(reached(ox, oy, row, after, pixel));
        assert(hit(m, ox, oy, n, row, after, pixel));
    }
}

/// Once a row has been visited up to the right edge of the sprite or of
/// the display, the pixels under the sprite that were visited are those of
/// the rows so far.
proof fn lemma_row_done(
    m: Machine,
    ox: int,
    oy: int,
    n: int,
    row: int,
    column: int,
    below: int,
)
    requires
        0 <= ox < 64,
        0 <= oy < 32,
        0 <= row < n,
        0 <= column <= 8,
        column == 8 || ox + column >= 64,
        below == row + 1,
    ensures
        forall|i: int|
            0 <= i < 2048 && m.sprite_at(ox, oy, n, i % 64, i / 64) ==> (#[trigger] reached(
                ox,
                oy,
                below,
                0,
                i,
            ) <==> reached(ox, oy, row, column, i)),
        (exists|i: int| hit(m, ox, oy, n, below, 0, i)) <==> (exists|i: int|
            hit(m, ox, oy, n, row, column, i)),
{
    assert forall|i: int|
        0 <= i < 2048 && m.sprite_at(ox, oy, n, i % 64, i / 64) implies (#[trigger] reached(
        ox,
        oy,
        below,
        0,
        i,
    ) <==> reached(ox, oy, row, column, i)) by {}
    if exists|i: int| hit(m, ox, oy, n, below, 0, i) {
        let w = choose|i: int| hit(m, ox, oy, n, below, 0, i);
        assert(reached(ox, oy, below, 0, w));
        assert(hit(m, ox, oy, n, row, column, w));
    }
    if exists|i: int| hit(m, ox, oy, n, row, column, i) {
        let w = choose|i: int| hit(m, ox, oy, n, row, column, i);
        assert(reached(ox, oy, below, 0, w));
        assert(hit(m, ox, oy, n, below, 0, w));
    }
}

/// Once the rows have been visited down to the bottom edge of the sprite
/// or of the display, every pixel under the sprite has been visited.
proof fn lemma_rows_done(m: Machine, ox: int, oy: int, n: int, row: int)
    requires
        0 <= ox < 64,
        0 <= oy < 32,
        0 <= row <= n,
        row == n || oy + row >= 32,
    ensures
        forall|i: int|
            0 <= i < 2048 && m.sprite_at(ox, oy, n, i % 64, i / 64) ==> #[trigger] reached(
                ox,
                oy,
                row,
                0,
                i,
            ),
        (exists|i: int| hit(m, ox, oy, n, row, 0, i)) <==> m.collides(ox, oy, n),
{
    assert forall|i: int|
        0 <= i < 2048 && m.sprite_at(ox, oy, n, i % 64, i / 64) implies #[trigger] reached(
        ox,
        oy,
        row,
        0,
        i,
    ) by {}
    if exists|i: int| hit(m, ox, oy, n, row, 0, i) {
        let w = choose|i: int| hit(m, ox, oy, n, row, 0, i);
        assert(m.screen[w] && m.sprite_at(ox, oy, n, w % 64, w / 64));
    }
    if m.collides(ox, oy, n) {
        let w = choose|i: int|
            0 <= i < 2048 && #[trigger] m.screen[i] && m.sprite_at(ox, oy, n, i % 64, i / 64);
        assert(reached(ox, oy, row, 0, w));
        assert(hit(m, ox, oy, n, row, 0, w));
    }
}

/// Toggles on `screen` the pixels under the set bits of the sprite of `n`
/// rows that `memory` holds at `index`, its top left corner at `(ox, oy)`,
/// and tells whether a lit pixel went off. `m` is the machine that the
/// buffers belong to.
fn draw_sprite(
    screen: &mut [bool; 2048],
    memory: &[u8; 4096],
    index: u16,
    ox: usize,
    oy: usize,
    n: usize,
    Ghost(m): Ghost<Machine>,
) -> (flipped: bool)
    requires
        ox < 64,
        oy < 32,
        n < 16,
        index <= 0x0FFF,
        m.screen == old(screen)@,
        m.memory == memory@,
        m.index == index,
    ensures
        final(screen)@ == m.drawn_screen(ox as int, oy as int, n as int),
        flipped == m.collides(ox as int, oy as int, n as int),
{
    let mut flipped: bool = false;
    let mut row: usize = 0;
    while row < n && oy + row < HEIGHT
        invariant
            ox < 64,
            oy < 32,
            n < 16,
            index <= 0x0FFF,
            row <= n,
            m.memory == memory@,
            m.index == index,
            forall|i: int|
                0 <= i < 2048 ==> #[trigger] screen@[i] == (m.screen[i] != (m.sprite_at(
                    ox as int,
                    oy as int,
                    n as int,
                    i % 64,
                    i / 64,
                ) && reached(ox as int, oy as int, row as int, 0, i))),
            flipped == (exists|i: int|
                hit(m, ox as int, oy as int, n as int, row as int, 0, i)),
        decreases n - row,
    {
        let address: u16 = (index + row as u16) & 0x0FFF;
        assert((index + row as u16) as u16 & 0x0FFF == (index + row as u16) as u16 % 4096)
            by (bit_vector);
        let sprite_row: u8 = memory[address as usize];
        let mut column: usize = 0;
        while column < 8 && ox + column < WIDTH
            invariant
                ox < 64,
                oy < 32,
                n < 16,
                row < n,
                oy + row < 32,
                column <= 8,
                m.index == index,
                sprite_row == m.byte_at(index + row),
                forall|i: int|
                    0 <= i < 2048 ==> #[trigger] screen@[i] == (m.screen[i] != (m.sprite_at(
                        ox as int,
                        oy as int,
                        n as int,
                        i % 64,
                        i / 64,
                    ) && reached(ox as int, oy as int, row as int, column as int, i))),
                flipped == (exists|i: int|
                    hit(m, ox as int, oy as int, n as int, row as int, column as int, i)),
            decreases 8 - column,
        {
            let pixel: usize = (oy + row) * WIDTH + ox + column;
            proof {
                lemma_visit_pixel(
                    m,
                    ox as int,
                    oy as int,
                    n as int,
                    row as int,
                    column as int,
                    column + 1,
                );
            }
            if sprite_row & (0x80u8 >> column) != 0 {
                flipped = flipped || screen[pixel];
                screen[pixel] = !screen[pixel];
            }
            column += 1;
        }
        proof {
            lemma_row_done(
                m,
                ox as int,
                oy as int,
                n as int,
                row as int,
                column as int,
                row + 1,
            );
        }
        row += 1;
    }
    proof {
        lemma_rows_done(m, ox as int, oy as int, n as int, row as int);
        assert(screen@ =~= m.drawn_screen(ox as int, oy as int, n as int));
    }
    flipped
}

impl Chip8 {
    /// The engine's state is well formed: see [`Machine::wf`].
    pub open spec fn wf(&self) -> bool {
        self@.wf()
    }

    /// A machine with the font in memory and everything else zero.
    pub fn new() -> (chip8: Self)
        ensures
            chip8@ == Machine::initial(),
            chip8.wf(),
    {
        let mut chip8 = Chip8 {
            memory: [0; 4096],
            screen: [false; 2048],
            pc: 0,
            index_register: 0,
            stack: Vec::new(),
            delay_timer: 0,
            sound_timer: 0,
            registers: [0; 16],
            keyboard_state: None,
            wait_int: WaitState::Idle,
        };
        chip8.load_into_memory(&FONT, 0x50);
        proof {
            assert(chip8@.memory =~= initial_memory());
            assert(chip8@.screen =~= blank_screen());
            assert(chip8@.regs =~= Seq::new(16, |i: int| 0u8));
        }
        chip8
    }

    /// Writes `data` into memory from `start_address` on.
    pub fn load_into_memory(&mut self, data: &[u8], start_address: usize)
        requires
            start_address + data.len() <= 4096,
        ensures
            final(self)@ == (Machine {
                memory: overlay(old(self)@.memory, start_address as int, data@),
                ..old(self)@
            }),
    {
        copy_into(&mut self.memory, data, start_address);
    }

    /// Loads a program image at `0x200` and points the program counter at
    /// it. An image of more than 3584 bytes does not fit and leaves the
    /// machine as it was.
    pub fn load_rom(&mut self, image: &[u8]) -> (loaded: Result<(), Chip8Error>)
        ensures
            image@.len() <= 3584 ==> loaded == Ok::<(), Chip8Error>(()) && final(self)@
                == old(self)@.load(image@),
            image@.len() > 3584 ==> loaded == Err::<(), Chip8Error>(Chip8Error::ProgramTooLarge)
                && final(self)@ == old(self)@,
    {
        if image.len() > 3584 {
            return Err(Chip8Error::ProgramTooLarge);
        }
        self.load_into_memory(image, 0x200);
        self.pc = 0x200;
        Ok(())
    }

    /// The display buffer, row by row.
    pub fn get_screen(&self) -> (screen: &[bool; 2048])
        ensures
            screen@ == self@.screen,
    {
        &self.screen
    }

    /// Records that key `state` went down (`down`) or up. One key is
    /// tracked: a key going up clears it whichever key it is.
    pub fn set_keyboard(&mut self, state: u8, down: bool)
        ensures
            final(self)@ == old(self)@.with_key(state, down),
    {
        if down {
            self.keyboard_state = Some(state);
        } else {
            self.keyboard_state = None;
        }
    }

    /// Counts both timers down by one, stopping at zero.
    pub fn update_timers(&mut self)
        ensures
            final(self)@ == old(self)@.tick_timers(),
    {
        if self.delay_timer > 0 {
            self.delay_timer -= 1;
        }
        if self.sound_timer > 0 {
            self.sound_timer -= 1;
        }
    }

    /// The byte at `address`, which wraps at 4096.
    pub fn read_u8(&self, address: u16) -> (value: u8)
        ensures
            value == self@.byte_at(address as int),
    {
        assert(address & 0x0FFF == address % 4096) by (bit_vector);
        self.memory[(address & 0x0FFF) as usize]
    }

    /// The big-endian word at `address`.
    pub fn read_u16(&self, address: u16) -> (value: u16)
        ensures
            value == self@.word_at(address as int),
    {
        let high: u8 = self.read_u8(address);
        let low: u8 = self.read_u8(address.wrapping_add(1));
        assert(((high as u16) << 8) | (low as u16) == high * 256 + low) by (bit_vector);
        ((high as u16) << 8) | (low as u16)
    }

    /// Stores a byte at `address`, which wraps at 4096.
    pub fn write_u8(&mut self, address: u16, value: u8)
        ensures
            final(self)@ == old(self)@.with_byte(address as int, value),
    {
        assert(address & 0x0FFF == address % 4096) by (bit_vector);
        self.memory[(address & 0x0FFF) as usize] = value;
    }

    /// Stores a word low byte first: the low byte at `address`, the high
    /// byte after it.
    pub fn write_u16(&mut self, address: u16, value: u16)
        ensures
            final(self)@ == old(self)@.with_word(address as int, value),
    {
        assert(value & 0x00FF == value % 256) by (bit_vector);
        assert(value >> 8 == value / 256) by (bit_vector);
        self.write_u8(address, (value & 0x00FF) as u8);
        self.write_u8(address.wrapping_add(1), (value >> 8) as u8);
    }

    /// Turns every pixel off.
    pub fn clear_scene(&mut self)
        ensures
            final(self)@ == (Machine { screen: blank_screen(), ..old(self)@ }),
    {
        fill_blank(&mut self.screen);
    }

    /// Passes a draw by the latch and tells whether the draw is held back.
    /// A draw that is held back rewinds the program counter, so that the
    /// draw instruction is fetched again.
    pub fn wait_for_int(&mut self) -> (held: bool)
        ensures
            held == old(self)@.holds_draw(),
            final(self)@ == old(self)@.pass_latch(),
    {
        match self.wait_int {
            WaitState::Idle => {
                self.wait_int = WaitState::ArmedOnce;
                self.pc = self.pc.wrapping_sub(2);
                true
            },
            WaitState::ArmedOnce => {
                self.pc = self.pc.wrapping_sub(2);
                true
            },
            WaitState::Suppressed => {
                self.wait_int = WaitState::Idle;
                false
            },
        }
    }

    /// The register `Vx`.
    pub fn register(&self, x: usize) -> (value: u8)
        requires
            x < 16,
        ensures
            value == self@.regs[x as int],
    {
        self.registers[x]
    }

    /// Sets the register `Vx`.
    fn set_register(&mut self, x: usize, value: u8)
        requires
            x < 16,
        ensures
            final(self)@ == old(self)@.with_reg(x as int, value),
    {
        self.registers[x] = value;
    }

    /// Sets `VF` to 1 or 0.
    fn set_flag(&mut self, set: bool)
        ensures
            final(self)@ == old(self)@.with_flag(set),
    {
        self.registers[0xF] = if set { 1 } else { 0 };
    }

    /// Sets the program counter.
    fn jump(&mut self, address: u16)
        ensures
            final(self)@ == old(self)@.with_pc(address),
    {
        self.pc = address;
    }

    /// Moves the program counter past one instruction.
    fn advance(&mut self)
        ensures
            final(self)@ == old(self)@.with_pc(pc_after(old(self)@.pc)),
    {
        self.pc = self.pc.wrapping_add(2);
    }

    /// Moves the program counter back by one instruction.
    fn rewind(&mut self)
        ensures
            final(self)@ == old(self)@.with_pc(pc_before(old(self)@.pc)),
    {
        self.pc = self.pc.wrapping_sub(2);
    }

    /// Skips the next instruction if `condition` holds.
    fn skip_if(&mut self, condition: bool)
        ensures
            final(self)@ == old(self)@.skip_if(condition),
    {
        if condition {
            self.advance();
        }
    }

    /// Returns to the most recent caller.
    fn return_from_call(&mut self)
        requires
            old(self)@.stack.len() > 0,
        ensures
            final(self)@ == (Machine {
                pc: old(self)@.stack.last(),
                stack: old(self)@.stack.drop_last(),
                ..old(self)@
            }),
    {
        let address: u16 = self.stack.pop().unwrap();
        self.pc = address;
    }

    /// Calls the subroutine at `address`.
    fn call(&mut self, address: u16)
        ensures
            final(self)@ == (Machine {
                pc: address,
                stack: old(self)@.stack.push(old(self)@.pc),
                ..old(self)@
            }),
    {
        self.stack.push(self.pc);
        self.pc = address;
    }

    /// Sets the index register.
    fn set_index(&mut self, index: u16)
        ensures
            final(self)@ == (Machine { index, ..old(self)@ }),
    {
        self.index_register = index;
    }

    /// Stores `V0..=Vx` at `I` and moves `I` past them.
    fn store_up_to(&mut self, x: usize)
        requires
            old(self).wf(),
            x < 16,
        ensures
            final(self)@ == (Machine {
                memory: old(self)@.stored_registers(x as int),
                index: ((old(self)@.index + x + 1) % 0x1000) as u16,
                ..old(self)@
            }),
    {
        store_registers(&mut self.memory, &self.registers, self.index_register, x);
        assert(self@.memory =~= old(self)@.stored_registers(x as int));
        let next: u16 = self.index_register + x as u16 + 1;
        assert(next & 0x0FFF == next % 0x1000) by (bit_vector);
        self.index_register = next & 0x0FFF;
    }

    /// Loads `V0..=Vx` from `I` and moves `I` past them.
    fn load_up_to(&mut self, x: usize)
        requires
            old(self).wf(),
            x < 16,
        ensures
            final(self)@ == (Machine {
                regs: old(self)@.loaded_registers(x as int),
                index: ((old(self)@.index + x + 1) % 0x1000) as u16,
                ..old(self)@
            }),
    {
        load_registers(&mut self.registers, &self.memory, self.index_register, x);
        assert(self@.regs =~= old(self)@.loaded_registers(x as int));
        let next: u16 = self.index_register + x as u16 + 1;
        assert(next & 0x0FFF == next % 0x1000) by (bit_vector);
        self.index_register = next & 0x0FFF;
    }

    /// Executes one instruction; `random` is the byte that a random
    /// instruction draws. A return with no call outstanding is refused and
    /// leaves the machine as it was.
    pub fn execute(&mut self, ins: Instruction, random: u8) -> (done: Result<(), Chip8Error>)
        requires
            old(self).wf(),
            ins.wf(),
        ensures
            match done {
                Ok(()) => !old(self)@.underflows(ins) && final(self)@ == old(self)@.execute(
                    ins,
                    random,
                ),
                Err(e) => e == Chip8Error::StackUnderflow && old(self)@.underflows(ins)
                    && final(self)@ == old(self)@,
            },
            final(self).wf(),
    {
        if ins == Instruction::Return && self.stack.len() == 0 {
            return Err(Chip8Error::StackUnderflow);
        }
        self.advance();
        match ins {
            Instruction::ClearScreen => self.clear_scene(),
            Instruction::Return => self.return_from_call(),
            Instruction::Jump { addr } => self.jump(addr),
            Instruction::Call { addr } => self.call(addr),
            Instruction::SkipIfEqual { x, byte } => {
                let vx: u8 = self.register(x as usize);
                self.skip_if(vx == byte);
            },
            Instruction::SkipIfNotEqual { x, byte } => {
                let vx: u8 = self.register(x as usize);
                self.skip_if(vx != byte);
            },
            Instruction::SkipIfRegistersEqual { x, y } => {
                let vx: u8 = self.register(x as usize);
                let vy: u8 = self.register(y as usize);
                self.skip_if(vx == vy);
            },
            Instruction::Load { x, byte } => self.set_register(x as usize, byte),
            Instruction::Add { x, byte } => {
                let sum: (u8, bool) = overflowing_add(self.register(x as usize), byte);
                self.set_register(x as usize, sum.0);
            },
            Instruction::Move { x, y } => {
                let vy: u8 = self.register(y as usize);
                self.set_register(x as usize, vy);
            },
            Instruction::Or { x, y } => {
                let vx: u8 = self.register(x as usize);
                let vy: u8 = self.register(y as usize);
                self.set_register(x as usize, vx | vy);
                self.set_flag(false);
            },
            Instruction::And { x, y } => {
                let vx: u8 = self.register(x as usize);
                let vy: u8 = self.register(y as usize);
                self.set_register(x as usize, vx & vy);
                self.set_flag(false);
            },
            Instruction::Xor { x, y } => {
                let vx: u8 = self.register(x as usize);
                let vy: u8 = self.register(y as usize);
                self.set_register(x as usize, vx ^ vy);
                self.set_flag(false);
            },
            Instruction::AddRegisters { x, y } => {
                let sum: (u8, bool) = overflowing_add(
                    self.register(x as usize),
                    self.register(y as usize),
                );
                self.set_register(x as usize, sum.0);
                self.set_flag(sum.1);
            },
            Instruction::Subtract { x, y } => {
                let difference: (u8, bool) = overflowing_sub(
                    self.register(x as usize),
                    self.register(y as usize),
                );
                self.set_register(x as usize, difference.0);
                self.set_flag(!difference.1);
            },
            Instruction::ShiftRight { x, y } => {
                let vy: u8 = self.register(y as usize);
                assert(vy >> 1 == vy / 2 && (vy & 1 == 1 <==> vy % 2 == 1)) by (bit_vector);
                self.set_register(x as usize, vy >> 1);
                self.set_flag(vy & 1 == 1);
            },
            Instruction::SubtractFrom { x, y } => {
                let difference: (u8, bool) = overflowing_sub(
                    self.register(y as usize),
                    self.register(x as usize),
                );
                self.set_register(x as usize, difference.0);
                self.set_flag(!difference.1);
            },
            Instruction::ShiftLeft { x, y } => {
                let vy: u8 = self.register(y as usize);
                assert(vy << 1 == (vy * 2) % 256 && (vy & 128 != 0 <==> vy >= 128))
                    by (bit_vector);
                self.set_register(x as usize, vy << 1);
                self.set_flag(vy & 128 != 0);
            },
            Instruction::SkipIfRegistersNotEqual { x, y } => {
                let vx: u8 = self.register(x as usize);
                let vy: u8 = self.register(y as usize);
                self.skip_if(vx != vy);
            },
            Instruction::LoadIndex { addr } => self.set_index(addr),
            Instruction::JumpOffset { addr } => {
                let v0: u8 = self.register(0);
                self.jump(addr + v0 as u16);
            },
            Instruction::Random { x, byte } => self.set_register(x as usize, random & byte),
            Instruction::Draw { x, y, n } => self.display(x as usize, y as usize, n as usize),
            Instruction::SkipIfKey { x } => {
                let vx: u8 = self.register(x as usize);
                self.skip_if(self.keyboard_state == Some(vx));
            },
            Instruction::SkipIfNotKey { x } => {
                let vx: u8 = self.register(x as usize);
                self.skip_if(self.keyboard_state != Some(vx));
            },
            Instruction::ReadDelay { x } => self.set_register(x as usize, self.delay_timer),
            Instruction::WaitKey { x } => {
                if let Some(code) = self.keyboard_state {
                    self.set_register(x as usize, code);
                } else {
                    self.rewind();
                }
            },
            Instruction::SetDelay { x } => self.delay_timer = self.registers[x as usize],
            Instruction::SetSound { x } => self.sound_timer = self.registers[x as usize],
            Instruction::AddIndex { x } => {
                let sum: u16 = self.register(x as usize) as u16 + self.index_register;
                assert(sum & 0x0FFF == sum % 0x1000) by (bit_vector);
                self.set_flag(sum > 0x1000);
                self.set_index(sum & 0x0FFF);
            },
            Instruction::Glyph { x } => {
                let vx: u8 = self.register(x as usize);
                assert(vx & 0xF == vx % 16) by (bit_vector);
                self.set_index(0x50 + (vx & 0xF) as u16 * 5);
            },
            Instruction::StoreDecimal { x } => {
                let value: u8 = self.register(x as usize);
                self.write_u8(self.index_register, value / 100);
                self.write_u8(self.index_register + 1, value / 10 % 10);
                self.write_u8(self.index_register + 2, value % 10);
            },
            Instruction::StoreRegisters { x } => self.store_up_to(x as usize),
            Instruction::LoadRegisters { x } => self.load_up_to(x as usize),
            Instruction::Unknown { .. } => {},
        }
        Ok(())
    }

    /// Executes the instruction at the program counter, with `random` for
    /// the byte that a random instruction draws, and returns the
    /// instruction. A return with no call outstanding is refused and leaves
    /// the machine as it was.
    pub fn tick_with(&mut self, random: u8) -> (done: Result<Instruction, Chip8Error>)
        requires
            old(self).wf(),
        ensures
            match done {
                Ok(ins) => ins == Instruction::of_word(old(self)@.fetch()) && !old(self)@.underflows(ins) && final(self)@ == old(self)@.step(random),
                Err(e) => e == Chip8Error::StackUnderflow && old(self)@.underflows(
                    Instruction::of_word(old(self)@.fetch()),
                ) && final(self)@ == old(self)@,
            },
            final(self).wf(),
    {
        let ins: Instruction = Instruction::decode(self.read_u16(self.pc));
        match self.execute(ins, random) {
            Ok(()) => Ok(ins),
            Err(e) => Err(e),
        }
    }

    /// Executes the instruction at the program counter and returns it. A
    /// random instruction draws its byte from the thread's generator, so
    /// of its outcome only this is known: it is the outcome for some byte.
    /// A return with no call outstanding is refused and leaves the machine
    /// as it was.
    pub fn tick(&mut self) -> (done: Result<Instruction, Chip8Error>)
        requires
            old(self).wf(),
        ensures
            match done {
                Ok(ins) => ins == Instruction::of_word(old(self)@.fetch()) && !old(self)@.underflows(ins) && (exists|random: u8|
                    final(self)@ == #[trigger] old(self)@.step(random)) && (!ins.uses_random()
                    ==> final(self)@ == old(self)@.step(0)),
                Err(e) => e == Chip8Error::StackUnderflow && old(self)@.underflows(
                    Instruction::of_word(old(self)@.fetch()),
                ) && final(self)@ == old(self)@,
            },
            final(self).wf(),
    {
        let random: u8 = match Instruction::decode(self.read_u16(self.pc)) {
            Instruction::Random { .. } => random_byte(),
            _ => 0,
        };
        self.tick_with(random)
    }

    /// Signals the end of a frame: a draw that waits is released.
    pub fn end_frame(&mut self)
        ensures
            final(self)@ == old(self)@.end_frame(),
    {
        if self.wait_int == WaitState::ArmedOnce {
            self.wait_int = WaitState::Suppressed;
        }
    }

    /// The state of the draw latch.
    pub fn wait_state(&self) -> (state: WaitState)
        ensures
            state == self@.wait,
    {
        self.wait_int
    }

    /// Puts the draw latch in another state.
    pub fn set_wait_state(&mut self, state: WaitState)
        ensures
            final(self)@ == (Machine { wait: state, ..old(self)@ }),
    {
        self.wait_int = state;
    }

    /// The program counter.
    pub fn pc(&self) -> (pc: u16)
        ensures
            pc == self@.pc,
    {
        self.pc
    }

    /// The index register `I`.
    pub fn index(&self) -> (index: u16)
        ensures
            index == self@.index,
    {
        self.index_register
    }

    /// The return addresses, the most recent call last.
    pub fn stack(&self) -> (stack: &Vec<u16>)
        ensures
            stack@ == self@.stack,
    {
        &self.stack
    }

    /// The delay timer.
    pub fn delay_timer(&self) -> (delay: u8)
        ensures
            delay == self@.delay,
    {
        self.delay_timer
    }

    /// The sound timer.
    pub fn sound_timer(&self) -> (sound: u8)
        ensures
            sound == self@.sound,
    {
        self.sound_timer
    }

    /// The key that is held down, if any.
    pub fn keyboard(&self) -> (key: Option<u8>)
        ensures
            key == self@.key,
    {
        self.keyboard_state
    }

    /// Draws the sprite of `n` rows at `I` at `(Vx mod 64, Vy mod 32)`,
    /// unless the latch holds the draw back.
    pub fn display(&mut self, x: usize, y: usize, n: usize)
        requires
            old(self).wf(),
            x < 16,
            y < 16,
            n < 16,
        ensures
            final(self)@ == if old(self)@.holds_draw() {
                old(self)@.pass_latch()
            } else {
                old(self)@.pass_latch().draw(x as int, y as int, n as int)
            },
    {
        if self.wait_for_int() {
            return;
        }
        let ox: usize = self.registers[x] as usize % WIDTH;
        let oy: usize = self.registers[y] as usize % HEIGHT;
        self.registers[0xF] = 0;
        let ghost latched = old(self)@.pass_latch();
        let flipped: bool = draw_sprite(
            &mut self.screen,
            &self.memory,
            self.index_register,
            ox,
            oy,
            n,
            Ghost(latched),
        );
        self.registers[0xF] = if flipped { 1 } else { 0 };
        assert(self@.regs =~= latched.draw(x as int, y as int, n as int).regs);
    }
}

impl Default for Chip8 {
    fn default() -> (chip8: Self)
        ensures
            chip8@ == Machine::initial(),
            chip8.wf(),
    {
        Self::new()
    }
}

} // verus!
