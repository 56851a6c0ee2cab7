//! The mathematical model of the machine: its state as sequences and integers, and every
//! transition as a function on that state.

use vstd::prelude::*;

verus! {

/// Width of the display in pixels.
pub const DISPLAY_WIDTH: usize = 64;

/// Height of the display in pixels.
pub const DISPLAY_HEIGHT: usize = 32;

/// Number of bytes in the framebuffer, one per pixel.
pub const DISPLAY_BYTES: usize = 2048;

/// Number of return addresses the call stack can hold.
pub const STACK_SIZE: usize = 16;

/// Number of addressable bytes.
pub const MEM_SIZE: usize = 4096;

/// Address at which a program is installed and at which execution starts.
pub const ROM_START: usize = 0x200;

/// Largest program that fits between `ROM_START` and the end of memory.
pub const ROM_CAPACITY: usize = 3584;

/// A timer is kept in billionths of a tick, so that one nanosecond of elapsed time
/// takes exactly sixty of these away from it.
pub const TIMER_UNIT: u64 = 1_000_000_000;

/// Why a step could not be carried out.
#[derive(Clone, Copy, Debug, PartialEq, Eq, Structural)]
pub enum Fault {
    /// A subroutine call with sixteen return addresses already on the stack.
    StackOverflow,
    /// A return with no return address on the stack.
    StackUnderflow,
    /// An instruction fetch, a sprite, a digit store or a register transfer that would
    /// reach past the last byte of memory.
    MemoryOutOfRange,
    /// A key test on a register that holds no key number.
    KeyOutOfRange,
}

/// The whole state of a machine.
pub struct Machine {
    pub mem: Seq<u8>,
    pub display: Seq<u8>,
    pub pc: int,
    pub stack: Seq<usize>,
    pub sp: int,
    pub index: int,
    pub regs: Seq<u8>,
    /// Delay timer, in billionths of a tick.
    pub delay: int,
    /// Sound timer, in billionths of a tick.
    pub sound: int,
    pub keys: Seq<bool>,
    pub latch: Option<u8>,
}

/// The sixteen five-byte glyphs for the hexadecimal digits, in ascending order.
pub open spec fn glyphs() -> Seq<u8> {
    seq![
        0xF0u8, 0x90, 0x90, 0x90, 0xF0,
        0x20, 0x60, 0x20, 0x20, 0x70,
        0xF0, 0x10, 0xF0, 0x80, 0xF0,
        0xF0, 0x10, 0xF0, 0x10, 0xF0,
        0x90, 0x90, 0xF0, 0x10, 0x10,
        0xF0, 0x80, 0xF0, 0x10, 0xF0,
        0xF0, 0x80, 0xF0, 0x90, 0xF0,
        0xF0, 0x10, 0x20, 0x40, 0x40,
        0xF0, 0x90, 0xF0, 0x90, 0xF0,
        0xF0, 0x90, 0xF0, 0x10, 0xF0,
        0xF0, 0x90, 0xF0, 0x90, 0x90,
        0xE0, 0x90, 0xE0, 0x90, 0xE0,
        0xF0, 0x80, 0x80, 0x80, 0xF0,
        0xE0, 0x90, 0x90, 0x90, 0xE0,
        0xF0, 0x80, 0xF0, 0x80, 0xF0,
        0xF0, 0x80, 0xF0, 0x80, 0x80,
    ]
}

/// A display with every pixel off.
pub open spec fn blank() -> Seq<u8> {
    Seq::new(2048, |p: int| 0u8)
}

/// What every reachable state satisfies.
pub open spec fn well_formed(m: Machine) -> bool {
    &&& m.mem.len() == 4096
    &&& m.display.len() == 2048
    &&& m.stack.len() == 16
    &&& m.regs.len() == 16
    &&& m.keys.len() == 16
    &&& 0 <= m.pc
    &&& 0 <= m.sp <= 16
    &&& 0 <= m.index < 4096
    &&& 0 <= m.delay <= 255 * TIMER_UNIT
    &&& 0 <= m.sound <= 255 * TIMER_UNIT
    &&& binary(m.display)
    &&& (m.latch matches Some(k) ==> k < 16)
}

/// Every pixel is either off (0) or on (0xFF).
pub open spec fn binary(display: Seq<u8>) -> bool {
    forall|p: int| 0 <= p < display.len() ==> display[p] == 0 || display[p] == 0xFF
}

/// The state of a newly built machine: glyphs at the bottom of memory, everything else zero,
/// execution about to start at `ROM_START`.
pub open spec fn initial() -> Machine {
    Machine {
        mem: Seq::new(4096, |a: int| if 0 <= a < 80 { glyphs()[a] } else { 0u8 }),
        display: blank(),
        pc: 0x200,
        stack: Seq::new(16, |i: int| 0usize),
        sp: 0,
        index: 0,
        regs: Seq::new(16, |i: int| 0u8),
        delay: 0,
        sound: 0,
        keys: Seq::new(16, |i: int| false),
        latch: None,
    }
}

/// A reset puts registers, stack, timers, display and latch back to their initial values.
/// Memory and the level state of the keys stay.
pub open spec fn reset_of(m: Machine) -> Machine {
    Machine {
        mem: m.mem,
        display: blank(),
        pc: 0x200,
        stack: Seq::new(16, |i: int| 0usize),
        sp: 0,
        index: 0,
        regs: Seq::new(16, |i: int| 0u8),
        delay: 0,
        sound: 0,
        keys: m.keys,
        latch: None,
    }
}

/// Memory after `rom` was installed at `ROM_START`: exactly the program's own byte range is
/// overwritten, every other byte stays.
pub open spec fn installed(mem: Seq<u8>, rom: Seq<u8>) -> Seq<u8> {
    Seq::new(4096, |a: int| if 0x200 <= a < 0x200 + rom.len() { rom[a - 0x200] } else { mem[a] })
}

/// Loading a program resets the machine and installs the program.
pub open spec fn loaded(m: Machine, rom: Seq<u8>) -> Machine {
    Machine { mem: installed(m.mem, rom), ..reset_of(m) }
}

/// A key going down or up. A key coming down that was up before is noted in the latch.
pub open spec fn key_event(m: Machine, key: u8, pressed: bool) -> Machine {
    if key < 16 {
        Machine {
            keys: m.keys.update(key as int, pressed),
            latch: if pressed && !m.keys[key as int] { Some(key) } else { m.latch },
            ..m
        }
    } else {
        m
    }
}

/// The value of a timer after `elapsed_nanos` nanoseconds: sixty ticks a second, never below zero.
pub open spec fn decayed(timer: int, elapsed_nanos: int) -> int {
    if timer <= elapsed_nanos * 60 { 0 } else { timer - elapsed_nanos * 60 }
}

/// The first nibble of an instruction.
pub open spec fn family(hi: u8) -> int {
    hi as int / 16
}

/// The second nibble of an instruction.
pub open spec fn field_x(hi: u8) -> int {
    hi as int % 16
}

/// The third nibble of an instruction.
pub open spec fn field_y(lo: u8) -> int {
    lo as int / 16
}

/// The fourth nibble of an instruction.
pub open spec fn field_n(lo: u8) -> int {
    lo as int % 16
}

/// The low twelve bits of an instruction.
pub open spec fn address(hi: u8, lo: u8) -> int {
    (hi as int % 16) * 256 + lo as int
}

/// 1 for true, 0 for false.
pub open spec fn flag(b: bool) -> u8 {
    if b { 1 } else { 0 }
}

/// The low eight bits of an integer.
pub open spec fn wrap8(i: int) -> u8 {
    (i % 256) as u8
}

/// The registers after the register-to-register instruction `8xyn`. The flag register is
/// written before register `x`, and register `x` is then computed from the registers as the
/// flag left them.
pub open spec fn alu(regs: Seq<u8>, x: int, y: int, n: int) -> Seq<u8> {
    let vx = regs[x];
    let vy = regs[y];
    if n == 0x0 {
        regs.update(x, vy)
    } else if n == 0x1 {
        regs.update(x, vx | vy)
    } else if n == 0x2 {
        regs.update(x, vx & vy)
    } else if n == 0x3 {
        regs.update(x, vx ^ vy)
    } else if n == 0x4 {
        regs.update(0xF, flag(vx + vy > 255)).update(x, wrap8(vx + vy))
    } else if n == 0x5 {
        let f = regs.update(0xF, flag(vx > vy));
        f.update(x, wrap8(f[x] - f[y]))
    } else if n == 0x6 {
        let f = regs.update(0xF, (vx % 2) as u8);
        f.update(x, (f[x] / 2) as u8)
    } else if n == 0x7 {
        let f = regs.update(0xF, flag(vy > vx));
        f.update(x, wrap8(f[y] - f[x]))
    } else if n == 0xE {
        let f = regs.update(0xF, (vx / 128) as u8);
        f.update(x, ((f[x] % 128) * 2) as u8)
    } else {
        regs
    }
}

/// Whether bit `col` of a sprite row is set, counting from the most significant bit.
pub open spec fn sprite_bit(row: u8, col: u8) -> bool {
    (row >> ((7 - col) as u8)) & 1 == 1
}

/// The state of a pixel after a set sprite bit was drawn over it.
pub open spec fn toggled(pixel: u8) -> u8 {
    pixel ^ 0xFF
}

/// The sprite row that falls on display row `p / 64` when the sprite's top is at `vy`.
pub open spec fn sprite_row_at(vy: int, p: int) -> int {
    (p / 64 - vy) % 32
}

/// The sprite column that falls on display column `p % 64` when the sprite's left edge is at `vx`.
pub open spec fn sprite_col_at(vx: int, p: int) -> int {
    (p % 64 - vx) % 64
}

/// Whether the sprite of `n` rows at `mem[index..]`, drawn with its top left corner at
/// (`vx`, `vy`) and wrapped round both edges, has a set bit on pixel `p`.
pub open spec fn covers(mem: Seq<u8>, index: int, n: int, vx: int, vy: int, p: int) -> bool {
    let row = sprite_row_at(vy, p);
    let col = sprite_col_at(vx, p);
    row < n && col < 8 && sprite_bit(mem[index + row], col as u8)
}

/// The display after the sprite was drawn: the pixels under its set bits are toggled.
pub open spec fn blit(display: Seq<u8>, mem: Seq<u8>, index: int, n: int, vx: int, vy: int) -> Seq<
    u8,
> {
    Seq::new(
        2048,
        |p: int| if covers(mem, index, n, vx, vy, p) { toggled(display[p]) } else { display[p] },
    )
}

/// Whether the sprite has a set bit on a pixel that was on.
pub open spec fn collides(
    display: Seq<u8>,
    mem: Seq<u8>,
    index: int,
    n: int,
    vx: int,
    vy: int,
) -> bool {
    exists|p: int| 0 <= p < 2048 && #[trigger] covers(mem, index, n, vx, vy, p) && display[p] != 0
}

/// The machine after `Dxyn`.
pub open spec fn drawn(m: Machine, x: int, y: int, n: int) -> Machine {
    let vx = m.regs[x] as int;
    let vy = m.regs[y] as int;
    Machine {
        display: blit(m.display, m.mem, m.index, n, vx, vy),
        regs: m.regs.update(0xF, flag(collides(m.display, m.mem, m.index, n, vx, vy))),
        ..m
    }
}

/// Memory after `Fx55`: registers 0 to `x` stored from `index` on.
pub open spec fn stored(mem: Seq<u8>, regs: Seq<u8>, index: int, x: int) -> Seq<u8> {
    Seq::new(4096, |a: int| if index <= a <= index + x { regs[a - index] } else { mem[a] })
}

/// Registers after `Fx65`: registers 0 to `x` fetched from `index` on.
pub open spec fn fetched(mem: Seq<u8>, regs: Seq<u8>, index: int, x: int) -> Seq<u8> {
    Seq::new(16, |i: int| if 0 <= i <= x { mem[index + i] } else { regs[i] })
}

/// The machine after an instruction of family `F`, with low byte `lo`. `m.pc` is already
/// past the instruction.
pub open spec fn misc(m: Machine, x: int, lo: u8) -> Machine {
    let vx = m.regs[x];
    if lo == 0x07 {
        Machine { regs: m.regs.update(x, wrap8(m.delay / (TIMER_UNIT as int))), ..m }
    } else if lo == 0x0A {
        match m.latch {
            Some(key) => Machine { regs: m.regs.update(x, key), ..m },
            None => Machine { pc: m.pc - 2, ..m },
        }
    } else if lo == 0x15 {
        Machine { delay: vx as int * TIMER_UNIT as int, ..m }
    } else if lo == 0x18 {
        Machine { sound: vx as int * TIMER_UNIT as int, ..m }
    } else if lo == 0x1E {
        Machine { index: (m.index + vx as int) % 4096, ..m }
    } else if lo == 0x29 {
        Machine { index: (vx as int * 5) % 4096, ..m }
    } else if lo == 0x33 {
        Machine {
            mem: m.mem.update(m.index, vx / 100).update(m.index + 1, (vx / 10) % 10).update(
                m.index + 2,
                vx % 10,
            ),
            ..m
        }
    } else if lo == 0x55 {
        Machine { mem: stored(m.mem, m.regs, m.index, x), ..m }
    } else if lo == 0x65 {
        Machine { regs: fetched(m.mem, m.regs, m.index, x), ..m }
    } else {
        m
    }
}

/// The machine after the instruction `hi lo` was carried out. `m.pc` is already past the
/// instruction. `random` is the byte that `Cxkk` masks. An instruction that matches no
/// pattern changes nothing.
pub open spec fn executed(m: Machine, hi: u8, lo: u8, random: u8) -> Machine {
    let a = family(hi);
    let x = field_x(hi);
    let y = field_y(lo);
    let n = field_n(lo);
    let nnn = address(hi, lo);
    let vx = m.regs[x];
    let vy = m.regs[y];
    if hi == 0x00 && lo == 0xE0 {
        Machine { display: blank(), ..m }
    } else if hi == 0x00 && lo == 0xEE {
        Machine { pc: m.stack[m.sp - 1] as int, sp: m.sp - 1, ..m }
    } else if a == 0x1 {
        Machine { pc: nnn, ..m }
    } else if a == 0x2 {
        Machine { stack: m.stack.update(m.sp, m.pc as usize), sp: m.sp + 1, pc: nnn, ..m }
    } else if a == 0x3 {
        Machine { pc: if vx == lo { m.pc + 2 } else { m.pc }, ..m }
    } else if a == 0x4 {
        Machine { pc: if vx != lo { m.pc + 2 } else { m.pc }, ..m }
    } else if a == 0x5 && n == 0 {
        Machine { pc: if vx == vy { m.pc + 2 } else { m.pc }, ..m }
    } else if a == 0x6 {
        Machine { regs: m.regs.update(x, lo), ..m }
    } else if a == 0x7 {
        Machine { regs: m.regs.update(x, wrap8(vx + lo)), ..m }
    } else if a == 0x8 {
        Machine { regs: alu(m.regs, x, y, n), ..m }
    } else if a == 0x9 && n == 0 {
        Machine { pc: if vx != vy { m.pc + 2 } else { m.pc }, ..m }
    } else if a == 0xA {
        Machine { index: nnn, ..m }
    } else if a == 0xB {
        Machine { pc: nnn + m.regs[0], ..m }
    } else if a == 0xC {
        Machine { regs: m.regs.update(x, random & lo), ..m }
    } else if a == 0xD {
        drawn(m, x, y, n)
    } else if a == 0xE && lo == 0x9E {
        Machine { pc: if m.keys[vx as int] { m.pc + 2 } else { m.pc }, ..m }
    } else if a == 0xE && lo == 0xA1 {
        Machine { pc: if !m.keys[vx as int] { m.pc + 2 } else { m.pc }, ..m }
    } else if a == 0xF {
        misc(m, x, lo)
    } else {
        m
    }
}

/// The instruction table: whether `hi lo` matches the pattern of an instruction. One that
/// matches none is carried out as a step that changes nothing but what every step changes.
pub open spec fn known(hi: u8, lo: u8) -> bool {
    let a = family(hi);
    let n = field_n(lo);
    ||| hi == 0x00 && (lo == 0xE0 || lo == 0xEE)
    ||| a == 0x1 || a == 0x2 || a == 0x3 || a == 0x4 || a == 0x6 || a == 0x7
    ||| (a == 0x5 || a == 0x9) && n == 0
    ||| a == 0x8 && (n <= 0x7 || n == 0xE)
    ||| a == 0xA || a == 0xB || a == 0xC || a == 0xD
    ||| a == 0xE && (lo == 0x9E || lo == 0xA1)
    ||| a == 0xF && (lo == 0x07 || lo == 0x0A || lo == 0x15 || lo == 0x18 || lo == 0x1E || lo
        == 0x29 || lo == 0x33 || lo == 0x55 || lo == 0x65)
}

/// Whether the next instruction of `m` can be fetched whole and is in the instruction table.
pub open spec fn next_known(m: Machine) -> bool {
    m.pc + 1 < 4096 && known(m.mem[m.pc], m.mem[m.pc + 1])
}

/// Whether the next instruction of `m` can be fetched whole and is `Cxkk`, the one
/// instruction that reads the random byte of a step.
pub open spec fn draws_random(m: Machine) -> bool {
    m.pc + 1 < 4096 && family(m.mem[m.pc]) == 0xC
}

/// The fault, if any, that stands in the way of the next step of `m`: the instruction at
/// `m.pc` cannot be fetched whole, or it would leave the stack, the memory or the keypad.
pub open spec fn fault_of(m: Machine) -> Option<Fault> {
    if m.pc + 1 >= 4096 {
        Some(Fault::MemoryOutOfRange)
    } else {
        let hi = m.mem[m.pc];
        let lo = m.mem[m.pc + 1];
        let a = family(hi);
        let x = field_x(hi);
        if hi == 0x00 && lo == 0xEE && m.sp == 0 {
            Some(Fault::StackUnderflow)
        } else if a == 0x2 && m.sp >= 16 {
            Some(Fault::StackOverflow)
        } else if a == 0xD && m.index + field_n(lo) > 4096 {
            Some(Fault::MemoryOutOfRange)
        } else if a == 0xE && (lo == 0x9E || lo == 0xA1) && m.regs[x] >= 16 {
            Some(Fault::KeyOutOfRange)
        } else if a == 0xF && lo == 0x33 && m.index + 2 >= 4096 {
            Some(Fault::MemoryOutOfRange)
        } else if a == 0xF && (lo == 0x55 || lo == 0x65) && m.index + x >= 4096 {
            Some(Fault::MemoryOutOfRange)
        } else {
            None
        }
    }
}

/// One step of a machine on which no fault stands in the way: fetch the instruction at
/// `m.pc`, move `m.pc` past it, carry it out, let both timers run down by the elapsed time,
/// and clear the latch.
pub open spec fn stepped(m: Machine, random: u8, elapsed_nanos: u64) -> Machine {
    let hi = m.mem[m.pc];
    let lo = m.mem[m.pc + 1];
    let e = executed(Machine { pc: m.pc + 2, ..m }, hi, lo, random);
    Machine {
        delay: decayed(e.delay, elapsed_nanos as int),
        sound: decayed(e.sound, elapsed_nanos as int),
        latch: None,
        ..e
    }
}

/// What a step makes of `pre`: with a fault in the way it reports the fault and leaves the
/// machine as it was, and otherwise it succeeds and leaves `stepped(pre, ..)`.
pub open spec fn step_relation(
    pre: Machine,
    random: u8,
    elapsed_nanos: u64,
    res: Result<(), Fault>,
    post: Machine,
) -> bool {
    match fault_of(pre) {
        Some(fault) => res == Err::<(), Fault>(fault) && post == pre,
        None => res is Ok && post == stepped(pre, random, elapsed_nanos),
    }
}

} // verus!
