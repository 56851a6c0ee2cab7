//! The machine itself.

use vstd::prelude::*;
use crate::host::{clock_now, nanos_between, random_byte};
use crate::laws::lemma_step_well_formed;
use crate::model::{
    alu, binary, blank, decayed, drawn, draws_random, executed, family, fault_of, fetched, glyphs,
    initial, installed, key_event, loaded, misc, next_known, reset_of, step_relation, stored,
    well_formed, Fault, Machine, DISPLAY_BYTES, MEM_SIZE, ROM_CAPACITY, ROM_START, STACK_SIZE,
    TIMER_UNIT,
};
use crate::sprite::blit_into;

verus! {

/// A CHIP-8 machine. Its view is the `Machine` that the contracts speak of.
pub struct Chip8 {
    mem: [u8; MEM_SIZE],
    display: [u8; DISPLAY_BYTES],
    pc: usize,
    stack: [usize; STACK_SIZE],
    sp: usize,
    index: u16,
    regs: [u8; 16],
    /// In billionths of a tick.
    sound: u64,
    /// In billionths of a tick.
    delay: u64,
    keys: [bool; 16],
    latch: Option<u8>,
    /// When the machine was built, reset or last advanced by `tick`. Not part of the view.
    last_time: instant::Instant,
}

/// The glyph table as bytes.
fn glyph_table() -> (table: [u8; 80])
    ensures
        table@ == glyphs(),
{
    let table: [u8; 80] = [
        0xF0, 0x90, 0x90, 0x90, 0xF0,
        0x20, 0x60, 0x20, 0x20, 0x70,
        0xF0, 0x10, 0xF0, 0x80, 0xF0,
        0xF0, 0x10, 0xF0, 0x10, 0xF0,
        0x90, 0x90, 0xF0, 0x10, 0x10,
        0xF0, 0x80, 0xF0, 0x10, 0xF0,
        0xF0, 0x80, 0xF0, 0x90, 0xF0,
        0xF0, 0x10, 0x20, 0x40, 0x40,
        0xF0, 0x90, 0xF0, 0x90, 0xF0,
        0xF0, 0x90, 0xF0, 0x10, 0xF0,
        0xF0, 0x90, 0xF0, 0x90, 0x90,
        0xE0, 0x90, 0xE0, 0x90, 0xE0,
        0xF0, 0x80, 0x80, 0x80, 0xF0,
        0xE0, 0x90, 0x90, 0x90, 0xE0,
        0xF0, 0x80, 0xF0, 0x80, 0xF0,
        0xF0, 0x80, 0xF0, 0x80, 0x80,
    ];
    assert(table@ =~= glyphs());
    table
}

impl View for Chip8 {
    type V = Machine;

    closed spec fn view(&self) -> Machine {
        Machine {
            mem: self.mem@,
            display: self.display@,
            pc: self.pc as int,
            stack: self.stack@,
            sp: self.sp as int,
            index: self.index as int,
            regs: self.regs@,
            delay: self.delay as int,
            sound: self.sound as int,
            keys: self.keys@,
            latch: self.latch,
        }
    }
}

impl Default for Chip8 {
    /// The same machine as `Chip8::new` builds.
    fn default() -> (vm: Chip8)
        ensures
            vm@ == initial(),
            vm.wf(),
    {
        Chip8::new()
    }
}

impl Chip8 {
    /// Every machine is well formed at all times: no operation needs to ask for it.
    #[verifier::type_invariant]
    closed spec fn inv(&self) -> bool {
        well_formed(self@)
    }

    /// Whether the state of the machine is well formed.
    pub open spec fn wf(&self) -> bool {
        well_formed(self@)
    }

    /// A machine with the glyph table at the bottom of memory, everything else zero, and
    /// execution about to start at `ROM_START`.
    pub fn new() -> (vm: Chip8)
        ensures
            vm@ == initial(),
            vm.wf(),
    {
        let table = glyph_table();
        let mut mem = [0u8; MEM_SIZE];
        let mut a: usize = 0;
        while a < 80
            invariant
                a <= 80,
                table@ == glyphs(),
                forall|b: int| 0 <= b < a ==> mem@[b] == glyphs()[b],
                forall|b: int| a <= b < 4096 ==> mem@[b] == 0,
            decreases 80 - a,
        {
            mem[a] = table[a];
            a += 1;
        }
        let vm = Chip8 {
            mem,
            display: [0u8; DISPLAY_BYTES],
            pc: ROM_START,
            stack: [0usize; STACK_SIZE],
            sp: 0,
            index: 0,
            regs: [0u8; 16],
            sound: 0,
            delay: 0,
            keys: [false; 16],
            latch: None,
            last_time: clock_now(),
        };
        assert(vm@.mem =~= initial().mem);
        assert(vm@.display =~= initial().display);
        assert(vm@.stack =~= initial().stack);
        assert(vm@.regs =~= initial().regs);
        assert(vm@.keys =~= initial().keys);
        vm
    }

    /// Puts registers, stack, timers, display and latch back to their initial values.
    /// Memory and the level state of the keys stay.
    pub fn reset(&mut self)
        ensures
            final(self)@ == reset_of(old(self)@),
            final(self).wf(),
    {
        proof {
            use_type_invariant(&*self);
        }
        self.pc = ROM_START;
        self.sp = 0;
        self.stack = [0usize; STACK_SIZE];
        self.display = [0u8; DISPLAY_BYTES];
        self.latch = None;
        self.delay = 0;
        self.sound = 0;
        self.last_time = clock_now();
        self.index = 0;
        self.regs = [0u8; 16];
        assert(self@.display =~= blank());
        assert(self@.stack =~= reset_of(old(self)@).stack);
        assert(self@.regs =~= reset_of(old(self)@).regs);
    }

    /// Installs a program at `ROM_START` and resets the machine. A program of more than
    /// `ROM_CAPACITY` bytes is refused, and the machine stays as it was.
    pub fn load_rom_from_slice(&mut self, bytes: &[u8]) -> (res: Result<(), &'static str>)
        ensures
            bytes@.len() <= ROM_CAPACITY ==> res is Ok && final(self)@ == loaded(old(self)@, bytes@),
            bytes@.len() > ROM_CAPACITY ==> res is Err && final(self)@ == old(self)@,
            res matches Err(message) ==> message@ == "The provided slice was too large"@,
            final(self).wf(),
    {
        proof {
            use_type_invariant(&*self);
        }
        if bytes.len() > MEM_SIZE - ROM_START {
            return Err("The provided slice was too large");
        }
        self.reset();
        let mut i: usize = 0;
        while i < bytes.len()
            invariant
                i <= bytes@.len() <= ROM_CAPACITY,
                self@ == (Machine { mem: self@.mem, ..reset_of(old(self)@) }),
                forall|a: int| 0x200 <= a < 0x200 + i ==> self@.mem[a] == bytes@[a - 0x200],
                forall|a: int|
                    0 <= a < 4096 && !(0x200 <= a < 0x200 + i) ==> self@.mem[a] == old(self)@.mem[a],
            decreases bytes@.len() - i,
        {
            self.mem[ROM_START + i] = bytes[i];
            i += 1;
        }
        assert(self@.mem =~= installed(old(self)@.mem, bytes@));
        Ok(())
    }

    /// Tells the machine that a key went down or up. A key number above 15 is ignored.
    /// A key coming down that was up before is noted in the latch, over whatever the latch
    /// held.
    pub fn set_pressed_key(&mut self, key: u8, pressed: bool)
        ensures
            final(self)@ == key_event(old(self)@, key, pressed),
            final(self).wf(),
    {
        proof {
            use_type_invariant(&*self);
        }
        if key <= 0xF {
            if pressed && !self.keys[key as usize] {
                self.latch = Some(key);
            }
            self.keys[key as usize] = pressed;
        }
    }

    /// The framebuffer: one byte per pixel, row by row, 0 for off and 0xFF for on.
    pub fn display(&self) -> (frame: &[u8])
        ensures
            frame@ == self@.display,
            frame@.len() == 2048,
            binary(frame@),
    {
        proof {
            use_type_invariant(self);
        }
        &self.display
    }

    /// The whole of memory.
    pub fn memory(&self) -> (bytes: &[u8])
        ensures
            bytes@ == self@.mem,
    {
        &self.mem
    }

    /// The address of the next instruction.
    pub fn program_counter(&self) -> (pc: usize)
        ensures
            pc as int == self@.pc,
    {
        self.pc
    }

    /// The index register.
    pub fn index_register(&self) -> (index: u16)
        ensures
            index as int == self@.index,
    {
        self.index
    }

    /// General-purpose register `x`, for `x` below 16.
    pub fn register(&self, x: u8) -> (value: Option<u8>)
        ensures
            x < 16 ==> value == Some(self@.regs[x as int]),
            x >= 16 ==> value is None,
    {
        if x < 16 {
            Some(self.regs[x as usize])
        } else {
            None
        }
    }

    /// The number of return addresses on the call stack.
    pub fn stack_depth(&self) -> (depth: usize)
        ensures
            depth as int == self@.sp,
    {
        self.sp
    }

    /// The delay timer in whole ticks, rounded down; 255 stands for anything above.
    pub fn delay_timer(&self) -> (ticks: u8)
        ensures
            ticks as int == if self@.delay / (TIMER_UNIT as int) > 255 {
                255
            } else {
                self@.delay / (TIMER_UNIT as int)
            },
    {
        let ticks: u64 = self.delay / TIMER_UNIT;
        if ticks > 255 {
            255
        } else {
            ticks as u8
        }
    }

    /// The sound timer in whole ticks, rounded down; 255 stands for anything above.
    pub fn sound_timer(&self) -> (ticks: u8)
        ensures
            ticks as int == if self@.sound / (TIMER_UNIT as int) > 255 {
                255
            } else {
                self@.sound / (TIMER_UNIT as int)
            },
    {
        let ticks: u64 = self.sound / TIMER_UNIT;
        if ticks > 255 {
            255
        } else {
            ticks as u8
        }
    }
}

/// Carries out the register-to-register instruction `8xyn` on the registers.
fn alu_into(regs: &mut [u8; 16], x: usize, y: usize, n: u8)
    requires
        x < 16,
        y < 16,
    ensures
        final(regs)@ == alu(old(regs)@, x as int, y as int, n as int),
{
    let vx = regs[x];
    let vy = regs[y];
    if n == 0x0 {
        regs[x] = vy;
    } else if n == 0x1 {
        regs[x] = vx | vy;
    } else if n == 0x2 {
        regs[x] = vx & vy;
    } else if n == 0x3 {
        regs[x] = vx ^ vy;
    } else if n == 0x4 {
        let sum = vx.wrapping_add(vy);
        regs[0xF] = if sum < vx { 1 } else { 0 };
        regs[x] = sum;
    } else if n == 0x5 {
        regs[0xF] = if vx > vy { 1 } else { 0 };
        regs[x] = regs[x].wrapping_sub(regs[y]);
    } else if n == 0x6 {
        regs[0xF] = vx % 2;
        regs[x] = regs[x] / 2;
    } else if n == 0x7 {
        regs[0xF] = if vy > vx { 1 } else { 0 };
        regs[x] = regs[y].wrapping_sub(regs[x]);
    } else if n == 0xE {
        regs[0xF] = vx / 128;
        regs[x] = (regs[x] % 128) * 2;
    }
}

/// The value of a timer after `elapsed_nanos` nanoseconds.
fn decay(timer: u64, elapsed_nanos: u64) -> (left: u64)
    ensures
        left as int == decayed(timer as int, elapsed_nanos as int),
{
    let gone: u128 = elapsed_nanos as u128 * 60;
    if timer as u128 <= gone {
        0
    } else {
        (timer as u128 - gone) as u64
    }
}

/// Whether `m` has just fetched the instruction `hi lo`, with no fault in the way.
spec fn ready(m: Machine, hi: u8, lo: u8) -> bool {
    &&& well_formed(m)
    &&& 2 <= m.pc <= 4096
    &&& m.mem[m.pc - 2] == hi
    &&& m.mem[m.pc - 1] == lo
    &&& fault_of(Machine { pc: m.pc - 2, ..m }) is None
}

/// The instructions that `flow_step` carries out, and those that match no pattern.
spec fn flow_family(hi: u8, lo: u8) -> bool {
    let a = family(hi);
    !(hi == 0x00 && lo == 0xE0) && a != 0x6 && a != 0x7 && a != 0x8 && a != 0xA && a != 0xC && a
        != 0xD && a != 0xF
}

/// The instructions that `register_step` carries out.
spec fn register_family(hi: u8) -> bool {
    let a = family(hi);
    a == 0x6 || a == 0x7 || a == 0x8 || a == 0xC
}

impl Chip8 {
    /// Carries out an instruction of family `F` with low byte `lo`, the program counter
    /// being past it already.
    fn misc_step(&mut self, x: usize, lo: u8)
        requires
            x < 16,
            old(self).pc >= 2,
            lo == 0x33 ==> old(self).index + 2 < 4096,
            lo == 0x55 || lo == 0x65 ==> old(self).index + x < 4096,
        ensures
            final(self)@ == misc(old(self)@, x as int, lo),
    {
        proof {
            use_type_invariant(&*self);
        }
        let vx = self.regs[x];
        let index = self.index as usize;
        if lo == 0x07 {
            self.regs[x] = ((self.delay / TIMER_UNIT) % 256) as u8;
        } else if lo == 0x0A {
            match self.latch {
                Some(key) => {
                    self.regs[x] = key;
                },
                None => {
                    self.pc -= 2;
                },
            }
        } else if lo == 0x15 {
            self.delay = vx as u64 * TIMER_UNIT;
        } else if lo == 0x18 {
            self.sound = vx as u64 * TIMER_UNIT;
        } else if lo == 0x1E {
            self.index = (self.index + vx as u16) % 4096;
        } else if lo == 0x29 {
            self.index = (vx as u16 * 5) % 4096;
        } else if lo == 0x33 {
            self.mem[index] = vx / 100;
            self.mem[index + 1] = (vx / 10) % 10;
            self.mem[index + 2] = vx % 10;
        } else if lo == 0x55 {
            let mut i: usize = 0;
            while i <= x
                invariant
                    i <= x + 1,
                    x < 16,
                    index + x < 4096,
                    index == old(self).index,
                    self.wf(),
                    self@ == (Machine { mem: self@.mem, ..old(self)@ }),
                    self@.mem == stored(old(self)@.mem, old(self)@.regs, index as int, i - 1),
                decreases x + 1 - i,
            {
                self.mem[index + i] = self.regs[i];
                i += 1;
                assert(self@.mem =~= stored(old(self)@.mem, old(self)@.regs, index as int, i - 1));
            }
        } else if lo == 0x65 {
            let mut i: usize = 0;
            while i <= x
                invariant
                    i <= x + 1,
                    x < 16,
                    index + x < 4096,
                    index == old(self).index,
                    self.wf(),
                    self@ == (Machine { regs: self@.regs, ..old(self)@ }),
                    self@.regs == fetched(old(self)@.mem, old(self)@.regs, index as int, i - 1),
                decreases x + 1 - i,
            {
                self.regs[i] = self.mem[index + i];
                i += 1;
                assert(self@.regs =~= fetched(old(self)@.mem, old(self)@.regs, index as int, i - 1));
            }
        }
    }

    /// The fault, if any, that stands in the way of the next step.
    pub fn pending_fault(&self) -> (fault: Option<Fault>)
        ensures
            fault == fault_of(self@),
            self.wf(),
    {
        proof {
            use_type_invariant(self);
        }
        if self.pc >= MEM_SIZE - 1 {
            return Some(Fault::MemoryOutOfRange);
        }
        let hi = self.mem[self.pc];
        let lo = self.mem[self.pc + 1];
        let a = hi / 16;
        let x = (hi % 16) as usize;
        let n = (lo % 16) as usize;
        let index = self.index as usize;
        if hi == 0x00 && lo == 0xEE && self.sp == 0 {
            Some(Fault::StackUnderflow)
        } else if a == 0x2 && self.sp >= STACK_SIZE {
            Some(Fault::StackOverflow)
        } else if a == 0xD && index + n > MEM_SIZE {
            Some(Fault::MemoryOutOfRange)
        } else if a == 0xE && (lo == 0x9E || lo == 0xA1) && self.regs[x] >= 16 {
            Some(Fault::KeyOutOfRange)
        } else if a == 0xF && lo == 0x33 && index + 2 >= MEM_SIZE {
            Some(Fault::MemoryOutOfRange)
        } else if a == 0xF && (lo == 0x55 || lo == 0x65) && index + x >= MEM_SIZE {
            Some(Fault::MemoryOutOfRange)
        } else {
            None
        }
    }

    /// Carries out an instruction that only moves the program counter or the stack: a
    /// return, a jump, a call or a skip. The program counter is past it already.
    fn flow_step(&mut self, hi: u8, lo: u8)
        requires
            ready(old(self)@, hi, lo),
            flow_family(hi, lo),
        ensures
            final(self)@ == executed(old(self)@, hi, lo, 0),
    {
        proof {
            use_type_invariant(&*self);
        }
        let a = hi / 16;
        let x = (hi % 16) as usize;
        let y = (lo / 16) as usize;
        let n = lo % 16;
        let nnn: usize = (hi % 16) as usize * 256 + lo as usize;
        if hi == 0x00 && lo == 0xEE {
            self.pc = self.stack[self.sp - 1];
            self.sp -= 1;
        } else if a == 0x1 {
            self.pc = nnn;
        } else if a == 0x2 {
            self.stack[self.sp] = self.pc;
            self.sp += 1;
            self.pc = nnn;
        } else if a == 0x3 {
            if self.regs[x] == lo {
                self.pc += 2;
            }
        } else if a == 0x4 {
            if self.regs[x] != lo {
                self.pc += 2;
            }
        } else if a == 0x5 && n == 0 {
            if self.regs[x] == self.regs[y] {
                self.pc += 2;
            }
        } else if a == 0x9 && n == 0 {
            if self.regs[x] != self.regs[y] {
                self.pc += 2;
            }
        } else if a == 0xB {
            self.pc = nnn + self.regs[0] as usize;
        } else if a == 0xE && lo == 0x9E {
            if self.keys[self.regs[x] as usize] {
                self.pc += 2;
            }
        } else if a == 0xE && lo == 0xA1 {
            if !self.keys[self.regs[x] as usize] {
                self.pc += 2;
            }
        }
    }

    /// Carries out an instruction that only writes registers from registers, from the
    /// instruction itself or from `random`.
    fn register_step(&mut self, hi: u8, lo: u8, random: u8)
        requires
            register_family(hi),
        ensures
            final(self)@ == executed(old(self)@, hi, lo, random),
    {
        proof {
            use_type_invariant(&*self);
        }
        let a = hi / 16;
        let x = (hi % 16) as usize;
        let y = (lo / 16) as usize;
        let n = lo % 16;
        if a == 0x6 {
            self.regs[x] = lo;
        } else if a == 0x7 {
            self.regs[x] = self.regs[x].wrapping_add(lo);
        } else if a == 0x8 {
            let mut regs = self.regs;
            alu_into(&mut regs, x, y, n);
            self.regs = regs;
        } else {
            self.regs[x] = random & lo;
        }
    }

    /// Carries out `Dxyn`.
    fn draw_step(&mut self, x: usize, y: usize, n: usize)
        requires
            x < 16,
            y < 16,
            n < 16,
            old(self)@.index + n <= 4096,
        ensures
            final(self)@ == drawn(old(self)@, x as int, y as int, n as int),
    {
        proof {
            use_type_invariant(&*self);
        }
        let vx = self.regs[x];
        let vy = self.regs[y];
        let mut display = self.display;
        let hit = blit_into(&mut display, &self.mem, self.index as usize, n, vx, vy);
        self.display = display;
        self.regs[0xF] = if hit { 1 } else { 0 };
    }

    /// Carries out one instruction, with `random` as the byte that a random-number
    /// instruction masks, then lets both timers run down by `elapsed_nanos` nanoseconds and
    /// clears the latch. With a fault in the way nothing is carried out: the fault is
    /// returned and the machine stays as it was.
    pub fn step(&mut self, random: u8, elapsed_nanos: u64) -> (res: Result<(), Fault>)
        ensures
            final(self).wf(),
            step_relation(old(self)@, random, elapsed_nanos, res, final(self)@),
    {
        proof {
            use_type_invariant(&*self);
        }
        match self.pending_fault() {
            Some(fault) => {
                return Err(fault);
            },
            None => {},
        }
        let hi = self.mem[self.pc];
        let lo = self.mem[self.pc + 1];
        self.pc += 2;
        let ghost start = self@;
        let a = hi / 16;
        if hi == 0x00 && lo == 0xE0 {
            self.display = [0u8; DISPLAY_BYTES];
            assert(self.display@ =~= blank());
        } else if a == 0x6 || a == 0x7 || a == 0x8 || a == 0xC {
            self.register_step(hi, lo, random);
        } else if a == 0xA {
            self.index = (hi % 16) as u16 * 256 + lo as u16;
        } else if a == 0xD {
            self.draw_step((hi % 16) as usize, (lo / 16) as usize, (lo % 16) as usize);
        } else if a == 0xF {
            self.misc_step((hi % 16) as usize, lo);
        } else {
            self.flow_step(hi, lo);
        }
        assert(self@ == executed(start, hi, lo, random));
        proof {
            lemma_step_well_formed(old(self)@, random, elapsed_nanos);
        }
        self.delay = decay(self.delay, elapsed_nanos);
        self.sound = decay(self.sound, elapsed_nanos);
        self.latch = None;
        Ok(())
    }

    /// Whether the next instruction can be fetched whole and is in the instruction table.
    /// A step on one that can be fetched and is not in the table succeeds and moves past it;
    /// a host that wants to report such instructions asks here before the step.
    pub fn next_is_known(&self) -> (is_known: bool)
        ensures
            is_known == next_known(self@),
    {
        if self.pc >= MEM_SIZE - 1 {
            return false;
        }
        let hi = self.mem[self.pc];
        let lo = self.mem[self.pc + 1];
        let a = hi / 16;
        let n = lo % 16;
        if a == 0x0 {
            hi == 0x00 && (lo == 0xE0 || lo == 0xEE)
        } else if a == 0x5 || a == 0x9 {
            n == 0
        } else if a == 0x8 {
            n <= 0x7 || n == 0xE
        } else if a == 0xE {
            lo == 0x9E || lo == 0xA1
        } else if a == 0xF {
            lo == 0x07 || lo == 0x0A || lo == 0x15 || lo == 0x18 || lo == 0x1E || lo == 0x29 || lo
                == 0x33 || lo == 0x55 || lo == 0x65
        } else {
            true
        }
    }

    /// Whether the next instruction, if it can be fetched, asks for a random byte.
    fn wants_random(&self) -> (wants: bool)
        ensures
            wants == draws_random(self@),
    {
        self.pc < MEM_SIZE - 1 && self.mem[self.pc] / 16 == 0xC
    }

    /// Carries out one instruction as `step` does, with a random byte drawn where the
    /// instruction asks for one and with the time that has passed on the clock since the
    /// machine was built, reset or last advanced.
    pub fn tick(&mut self) -> (res: Result<(), Fault>)
        ensures
            final(self).wf(),
            exists|random: u8, elapsed_nanos: u64|
                step_relation(old(self)@, random, elapsed_nanos, res, final(self)@),
    {
        let random: u8 = if self.wants_random() { random_byte() } else { 0 };
        let now = clock_now();
        let nanos = nanos_between(&now, &self.last_time);
        let elapsed_nanos: u64 = if nanos > u64::MAX as u128 { u64::MAX } else { nanos as u64 };
        let res = self.step(random, elapsed_nanos);
        if res.is_ok() {
            self.last_time = now;
        }
        assert(step_relation(old(self)@, random, elapsed_nanos, res, self@));
        res
    }
}

} // verus!
