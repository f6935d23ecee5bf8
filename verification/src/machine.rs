//! The mathematical model of the machine: its state as plain values and the
//! meaning of every operation as a function on that state.
use vstd::prelude::*;
use crate::font::font_table;
use crate::instruction::Instruction;

verus! {

/// State of the latch that holds a draw back until the host has signalled
/// the end of a frame.
#[derive(Clone, Copy, Debug, PartialEq, Eq, Structural)]
pub enum WaitState {
    /// No draw is waiting.
    Idle,
    /// A draw has been attempted and waits for the end of the frame.
    ArmedOnce,
    /// The frame has ended: the waiting is over and the next draw goes through.
    Suppressed,
}

/// Why an operation was refused.
#[derive(Clone, Copy, Debug, PartialEq, Eq, Structural)]
pub enum Chip8Error {
    /// A return was executed with no call outstanding.
    StackUnderflow,
    /// A program image does not fit between the load address and the end of
    /// memory.
    ProgramTooLarge,
}

/// The machine state as mathematical values.
pub struct Machine {
    /// The pixels, row by row: the pixel `(x, y)` is at `y * 64 + x`.
    pub screen: Seq<bool>,
    /// The 4096 bytes of memory.
    pub memory: Seq<u8>,
    /// Address of the next instruction.
    pub pc: u16,
    /// The index register `I`.
    pub index: u16,
    /// Return addresses, the most recent call last.
    pub stack: Seq<u16>,
    /// The delay timer.
    pub delay: u8,
    /// The sound timer.
    pub sound: u8,
    /// The registers `V0` to `VF`.
    pub regs: Seq<u8>,
    /// The key that is held down, if any.
    pub key: Option<u8>,
    /// The draw latch.
    pub wait: WaitState,
}

/// A display with every pixel off.
pub open spec fn blank_screen() -> Seq<bool> {
    Seq::new(2048, |i: int| false)
}

/// Memory as it is before any program is loaded: the font at `0x050`, zero
/// everywhere else.
pub open spec fn initial_memory() -> Seq<u8> {
    Seq::new(4096, |a: int| if 0x050 <= a < 0x0A0 { font_table()[a - 0x050] } else { 0u8 })
}

/// `memory` with `data` written over it from `start` on.
pub open spec fn overlay(memory: Seq<u8>, start: int, data: Seq<u8>) -> Seq<u8> {
    Seq::new(
        memory.len(),
        |a: int| if start <= a < start + data.len() { data[a - start] } else { memory[a] },
    )
}

/// The program counter two bytes further on, wrapping at 16 bits.
pub open spec fn pc_after(pc: u16) -> u16 {
    ((pc + 2) % 0x1_0000) as u16
}

/// The program counter two bytes back, wrapping at 16 bits.
pub open spec fn pc_before(pc: u16) -> u16 {
    ((pc - 2) % 0x1_0000) as u16
}

/// Whether the pixel in column `column` (0 is leftmost) of a sprite row is set.
pub open spec fn sprite_bit(row: u8, column: int) -> bool {
    row & (0x80u8 >> (column as u8)) != 0
}

impl Machine {
    /// The three buffers have their fixed sizes and `I` fits in twelve bits.
    pub open spec fn wf(self) -> bool {
        &&& self.screen.len() == 2048
        &&& self.memory.len() == 4096
        &&& self.regs.len() == 16
        &&& self.index <= 0x0FFF
    }

    /// The machine as it is constructed.
    pub open spec fn initial() -> Machine {
        Machine {
            screen: blank_screen(),
            memory: initial_memory(),
            pc: 0,
            index: 0,
            stack: Seq::empty(),
            delay: 0,
            sound: 0,
            regs: Seq::new(16, |i: int| 0u8),
            key: None,
            wait: WaitState::Idle,
        }
    }

    /// The byte at an address; addresses wrap at 4096.
    pub open spec fn byte_at(self, address: int) -> u8 {
        self.memory[address % 4096]
    }

    /// The big-endian word whose high byte is at `address`.
    pub open spec fn word_at(self, address: int) -> u16 {
        (self.byte_at(address) * 256 + self.byte_at(address + 1)) as u16
    }

    /// The machine with one byte of memory replaced.
    pub open spec fn with_byte(self, address: int, value: u8) -> Machine {
        Machine { memory: self.memory.update(address % 4096, value), ..self }
    }

    /// The machine with a word stored low byte first: the low byte at
    /// `address`, the high byte after it.
    pub open spec fn with_word(self, address: int, value: u16) -> Machine {
        self.with_byte(address, (value % 256) as u8).with_byte(address + 1, (value / 256) as u8)
    }

    /// The machine with one register replaced.
    pub open spec fn with_reg(self, x: int, value: u8) -> Machine {
        Machine { regs: self.regs.update(x, value), ..self }
    }

    /// The machine with `VF` set to 1 or 0.
    pub open spec fn with_flag(self, set: bool) -> Machine {
        self.with_reg(0xF, if set { 1u8 } else { 0u8 })
    }

    /// The machine with another program counter.
    pub open spec fn with_pc(self, pc: u16) -> Machine {
        Machine { pc, ..self }
    }

    /// The machine with the next instruction skipped if `condition` holds.
    pub open spec fn skip_if(self, condition: bool) -> Machine {
        if condition {
            self.with_pc(pc_after(self.pc))
        } else {
            self
        }
    }

    /// The machine after a program image has been loaded at `0x200`.
    pub open spec fn load(self, image: Seq<u8>) -> Machine {
        Machine { memory: overlay(self.memory, 0x200, image), pc: 0x200, ..self }
    }

    /// The machine after one timer tick: each timer that is not zero has
    /// gone down by one.
    pub open spec fn tick_timers(self) -> Machine {
        Machine {
            delay: if self.delay > 0 { (self.delay - 1) as u8 } else { 0 },
            sound: if self.sound > 0 { (self.sound - 1) as u8 } else { 0 },
            ..self
        }
    }

    /// The machine after a key went down (`pressed`) or up.
    pub open spec fn with_key(self, code: u8, pressed: bool) -> Machine {
        Machine { key: if pressed { Some(code) } else { None }, ..self }
    }

    /// The machine after the host has signalled the end of a frame: a draw
    /// that waits is released.
    pub open spec fn end_frame(self) -> Machine {
        if self.wait == WaitState::ArmedOnce {
            Machine { wait: WaitState::Suppressed, ..self }
        } else {
            self
        }
    }

    /// Whether the latch holds back a draw attempted now.
    pub open spec fn holds_draw(self) -> bool {
        self.wait != WaitState::Suppressed
    }

    /// The machine after a draw has passed by the latch. A draw that is held
    /// back rewinds the program counter so that it is attempted again.
    pub open spec fn pass_latch(self) -> Machine {
        match self.wait {
            WaitState::Idle => Machine {
                wait: WaitState::ArmedOnce,
                pc: pc_before(self.pc),
                ..self
            },
            WaitState::ArmedOnce => Machine { pc: pc_before(self.pc), ..self },
            WaitState::Suppressed => Machine { wait: WaitState::Idle, ..self },
        }
    }

    /// Whether the sprite of `n` rows at `I`, drawn with its top left corner
    /// at `(ox, oy)`, has a set bit on the pixel `(px, py)`.
    pub open spec fn sprite_at(self, ox: int, oy: int, n: int, px: int, py: int) -> bool {
        &&& oy <= py < oy + n
        &&& ox <= px < ox + 8
        &&& sprite_bit(self.byte_at(self.index + (py - oy)), px - ox)
    }

    /// The display after the sprite has been drawn at `(ox, oy)`: each pixel
    /// under a set bit of the sprite is toggled. Sprite bits that fall
    /// outside the display have no pixel and so are dropped.
    pub open spec fn drawn_screen(self, ox: int, oy: int, n: int) -> Seq<bool> {
        Seq::new(2048, |i: int| self.screen[i] != self.sprite_at(ox, oy, n, i % 64, i / 64))
    }

    /// Whether drawing the sprite at `(ox, oy)` turns a lit pixel off.
    pub open spec fn collides(self, ox: int, oy: int, n: int) -> bool {
        exists|i: int|
            0 <= i < 2048 && #[trigger] self.screen[i] && self.sprite_at(
                ox,
                oy,
                n,
                i % 64,
                i / 64,
            )
    }

    /// The machine after the sprite of `n` rows at `I` has been drawn at
    /// `(Vx mod 64, Vy mod 32)`; `VF` tells whether a pixel went off.
    pub open spec fn draw(self, x: int, y: int, n: int) -> Machine {
        let ox = self.regs[x] as int % 64;
        let oy = self.regs[y] as int % 32;
        Machine { screen: self.drawn_screen(ox, oy, n), ..self }.with_flag(
            self.collides(ox, oy, n),
        )
    }

    /// Memory after `V0..=Vx` have been stored from `I` on.
    pub open spec fn stored_registers(self, x: int) -> Seq<u8> {
        Seq::new(
            4096,
            |a: int|
                {
                    let k = (a - self.index) % 4096;
                    if k <= x {
                        self.regs[k]
                    } else {
                        self.memory[a]
                    }
                },
        )
    }

    /// The registers after `V0..=Vx` have been loaded from `I` on.
    pub open spec fn loaded_registers(self, x: int) -> Seq<u8> {
        Seq::new(
            16,
            |i: int| if i <= x { self.byte_at(self.index + i) } else { self.regs[i] },
        )
    }

    /// The instruction word at the program counter.
    pub open spec fn fetch(self) -> u16 {
        self.word_at(self.pc as int)
    }

    /// Whether executing `ins` fails for want of a return address.
    pub open spec fn underflows(self, ins: Instruction) -> bool {
        ins == Instruction::Return && self.stack.len() == 0
    }

    /// The machine after `ins` has been executed, where that does not fail.
    /// The program counter moves past the instruction first; the
    /// instruction then acts on the machine with that program counter.
    pub open spec fn execute(self, ins: Instruction, random: u8) -> Machine {
        let m = self.with_pc(pc_after(self.pc));
        match ins {
            Instruction::ClearScreen => Machine { screen: blank_screen(), ..m },
            Instruction::Return => Machine { pc: m.stack.last(), stack: m.stack.drop_last(), ..m },
            Instruction::Jump { addr } => m.with_pc(addr),
            Instruction::Call { addr } => Machine { pc: addr, stack: m.stack.push(m.pc), ..m },
            Instruction::SkipIfEqual { x, byte } => m.skip_if(m.regs[x as int] == byte),
            Instruction::SkipIfNotEqual { x, byte } => m.skip_if(m.regs[x as int] != byte),
            Instruction::SkipIfRegistersEqual { x, y } => m.skip_if(
                m.regs[x as int] == m.regs[y as int],
            ),
            Instruction::Load { x, byte } => m.with_reg(x as int, byte),
            Instruction::Add { x, byte } => m.with_reg(
                x as int,
                ((m.regs[x as int] + byte) % 256) as u8,
            ),
            Instruction::Move { x, y } => m.with_reg(x as int, m.regs[y as int]),
            Instruction::Or { x, y } => m.with_reg(
                x as int,
                m.regs[x as int] | m.regs[y as int],
            ).with_flag(false),
            Instruction::And { x, y } => m.with_reg(
                x as int,
                m.regs[x as int] & m.regs[y as int],
            ).with_flag(false),
            Instruction::Xor { x, y } => m.with_reg(
                x as int,
                m.regs[x as int] ^ m.regs[y as int],
            ).with_flag(false),
            Instruction::AddRegisters { x, y } => {
                let sum = m.regs[x as int] + m.regs[y as int];
                m.with_reg(x as int, (sum % 256) as u8).with_flag(sum > 255)
            },
            Instruction::Subtract { x, y } => {
                let difference = m.regs[x as int] - m.regs[y as int];
                m.with_reg(x as int, (difference % 256) as u8).with_flag(difference >= 0)
            },
            Instruction::ShiftRight { x, y } => {
                let vy = m.regs[y as int];
                m.with_reg(x as int, vy / 2).with_flag(vy % 2 == 1)
            },
            Instruction::SubtractFrom { x, y } => {
                let difference = m.regs[y as int] - m.regs[x as int];
                m.with_reg(x as int, (difference % 256) as u8).with_flag(difference >= 0)
            },
            Instruction::ShiftLeft { x, y } => {
                let vy = m.regs[y as int];
                m.with_reg(x as int, ((vy * 2) % 256) as u8).with_flag(vy >= 128)
            },
            Instruction::SkipIfRegistersNotEqual { x, y } => m.skip_if(
                m.regs[x as int] != m.regs[y as int],
            ),
            Instruction::LoadIndex { addr } => Machine { index: addr, ..m },
            Instruction::JumpOffset { addr } => m.with_pc((addr + m.regs[0]) as u16),
            Instruction::Random { x, byte } => m.with_reg(x as int, random & byte),
            Instruction::Draw { x, y, n } => {
                if m.holds_draw() {
                    m.pass_latch()
                } else {
                    m.pass_latch().draw(x as int, y as int, n as int)
                }
            },
            Instruction::SkipIfKey { x } => m.skip_if(m.key == Some(m.regs[x as int])),
            Instruction::SkipIfNotKey { x } => m.skip_if(m.key != Some(m.regs[x as int])),
            Instruction::ReadDelay { x } => m.with_reg(x as int, m.delay),
            Instruction::WaitKey { x } => match m.key {
                Some(code) => m.with_reg(x as int, code),
                None => m.with_pc(pc_before(m.pc)),
            },
            Instruction::SetDelay { x } => Machine { delay: m.regs[x as int], ..m },
            Instruction::SetSound { x } => Machine { sound: m.regs[x as int], ..m },
            Instruction::AddIndex { x } => {
                let sum = m.index + m.regs[x as int];
                Machine { index: (sum % 0x1000) as u16, ..m.with_flag(sum > 0x1000) }
            },
            Instruction::Glyph { x } => Machine {
                index: (0x050 + (m.regs[x as int] % 16) * 5) as u16,
                ..m
            },
            Instruction::StoreDecimal { x } => {
                let v = m.regs[x as int];
                m.with_byte(m.index as int, v / 100).with_byte(
                    m.index + 1,
                    v / 10 % 10,
                ).with_byte(m.index + 2, v % 10)
            },
            Instruction::StoreRegisters { x } => Machine {
                memory: m.stored_registers(x as int),
                index: ((m.index + x + 1) % 0x1000) as u16,
                ..m
            },
            Instruction::LoadRegisters { x } => Machine {
                regs: m.loaded_registers(x as int),
                index: ((m.index + x + 1) % 0x1000) as u16,
                ..m
            },
            Instruction::Unknown { .. } => m,
        }
    }

    /// The machine after the instruction at the program counter has been
    /// executed, where that does not fail.
    pub open spec fn step(self, random: u8) -> Machine {
        self.execute(Instruction::of_word(self.fetch()), random)
    }
}

} // verus!
