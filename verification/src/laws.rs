//! What holds of the machine over and above the contract of each operation.

use vstd::prelude::*;
use crate::model::{
    address, binary, blit, collides, covers, decayed, drawn, draws_random, executed, family,
    fault_of, field_x, initial, key_event, known, loaded, reset_of, step_relation, stepped, toggled,
    well_formed, Fault, Machine,
};

verus! {

/// Toggling keeps a pixel either off or on, and toggling twice changes nothing.
pub proof fn lemma_toggled(pixel: u8)
    ensures
        pixel == 0 ==> toggled(pixel) == 0xFF,
        pixel == 0xFF ==> toggled(pixel) == 0,
        toggled(toggled(pixel)) == pixel,
{
    assert(pixel == 0 ==> pixel ^ 0xFF == 0xFF) by (bit_vector);
    assert(pixel == 0xFF ==> pixel ^ 0xFF == 0) by (bit_vector);
    assert((pixel ^ 0xFF) ^ 0xFF == pixel) by (bit_vector);
}

/// A step that no fault stands in the way of leaves a well-formed machine well formed.
pub proof fn lemma_step_well_formed(m: Machine, random: u8, elapsed_nanos: u64)
    requires
        well_formed(m),
        fault_of(m) is None,
    ensures
        well_formed(stepped(m, random, elapsed_nanos)),
{
    let hi = m.mem[m.pc];
    let lo = m.mem[m.pc + 1];
    let s = Machine { pc: m.pc + 2, ..m };
    let e = executed(s, hi, lo, random);
    assert forall|p: int| 0 <= p < 2048 implies e.display[p] == 0 || e.display[p] == 0xFF by {
        lemma_toggled(m.display[p]);
    }
}

/// A reset that follows a load changes nothing, and the registers, timers, stack, display
/// and latch after a load, with the program as it lies in memory, are those that a newly
/// built machine has after the same load, whatever the machine went through before.
pub proof fn lemma_reset_after_load(m: Machine, rom: Seq<u8>)
    requires
        rom.len() <= 3584,
    ensures
        reset_of(loaded(m, rom)) == loaded(m, rom),
        loaded(m, rom) == (Machine {
            mem: loaded(m, rom).mem,
            keys: m.keys,
            ..loaded(initial(), rom)
        }),
        forall|a: int|
            0x200 <= a < 0x200 + rom.len() ==> loaded(m, rom).mem[a] == loaded(initial(), rom).mem[a],
        m.mem == initial().mem && m.keys == initial().keys ==> reset_of(loaded(m, rom)) == loaded(
            initial(),
            rom,
        ),
{
}

/// Whether the instruction `hi lo` is the next one that `m` carries out.
pub open spec fn next_is(m: Machine, hi: u8, lo: u8) -> bool {
    m.pc + 1 < 4096 && m.mem[m.pc] == hi && m.mem[m.pc + 1] == lo
}

/// `00E0` leaves every pixel off, whatever the display held.
pub proof fn lemma_clear_blanks_display(m: Machine, random: u8, elapsed_nanos: u64)
    requires
        well_formed(m),
        next_is(m, 0x00, 0xE0),
    ensures
        fault_of(m) is None,
        stepped(m, random, elapsed_nanos).display.len() == 2048,
        forall|p: int| 0 <= p < 2048 ==> stepped(m, random, elapsed_nanos).display[p] == 0,
{
}

/// `Annn` leaves exactly `nnn` in the index register, whatever it held.
pub proof fn lemma_load_index(m: Machine, hi: u8, lo: u8, random: u8, elapsed_nanos: u64)
    requires
        well_formed(m),
        next_is(m, hi, lo),
        family(hi) == 0xA,
    ensures
        fault_of(m) is None,
        stepped(m, random, elapsed_nanos).index == address(hi, lo),
{
}

/// An instruction that is not in the instruction table never faults, and the step over it
/// changes nothing but what every step changes: the program counter moves past it, the
/// timers run down and the latch is cleared.
pub proof fn lemma_unknown_changes_nothing(m: Machine, hi: u8, lo: u8, random: u8, elapsed_nanos: u64)
    requires
        well_formed(m),
        next_is(m, hi, lo),
        !known(hi, lo),
    ensures
        fault_of(m) is None,
        stepped(m, random, elapsed_nanos) == (Machine {
            pc: m.pc + 2,
            delay: decayed(m.delay, elapsed_nanos as int),
            sound: decayed(m.sound, elapsed_nanos as int),
            latch: None,
            ..m
        }),
{
}

/// The random byte of a step matters only where the next instruction draws one: on every
/// other machine a step comes out the same whatever the byte.
pub proof fn lemma_random_only_where_drawn(
    m: Machine,
    first: u8,
    second: u8,
    elapsed_nanos: u64,
    res: Result<(), Fault>,
    post: Machine,
)
    requires
        well_formed(m),
        !draws_random(m),
    ensures
        fault_of(m) is None ==> stepped(m, first, elapsed_nanos) == stepped(m, second, elapsed_nanos),
        step_relation(m, first, elapsed_nanos, res, post) <==> step_relation(
            m,
            second,
            elapsed_nanos,
            res,
            post,
        ),
{
}

/// Only `00E0` and `Dxyn` change the display, and only `Fx33` and `Fx55` change memory.
pub proof fn lemma_display_and_memory_stay(m: Machine, hi: u8, lo: u8, random: u8, elapsed_nanos: u64)
    requires
        well_formed(m),
        next_is(m, hi, lo),
        fault_of(m) is None,
    ensures
        !(hi == 0x00 && lo == 0xE0) && family(hi) != 0xD ==> stepped(
            m,
            random,
            elapsed_nanos,
        ).display == m.display,
        !(family(hi) == 0xF && (lo == 0x33 || lo == 0x55)) ==> stepped(m, random, elapsed_nanos).mem
            == m.mem,
{
}

/// Drawing a sprite a second time at the same place puts every pixel back as it was, and
/// the second drawing reports a collision if and only if the sprite has a set bit on a
/// pixel that was off before the first.
pub proof fn lemma_blit_twice(display: Seq<u8>, mem: Seq<u8>, index: int, n: int, vx: int, vy: int)
    requires
        display.len() == 2048,
        binary(display),
    ensures
        blit(blit(display, mem, index, n, vx, vy), mem, index, n, vx, vy) == display,
        collides(blit(display, mem, index, n, vx, vy), mem, index, n, vx, vy) <==> exists|p: int|
            0 <= p < 2048 && #[trigger] covers(mem, index, n, vx, vy, p) && display[p] == 0,
{
    let once = blit(display, mem, index, n, vx, vy);
    let twice = blit(once, mem, index, n, vx, vy);
    assert forall|p: int| 0 <= p < 2048 implies twice[p] == display[p] && (once[p] != 0 <==> (if covers(
        mem,
        index,
        n,
        vx,
        vy,
        p,
    ) {
        display[p] == 0
    } else {
        display[p] != 0
    })) by {
        lemma_toggled(display[p]);
    }
    assert(twice =~= display);
    if collides(once, mem, index, n, vx, vy) {
        let p = choose|p: int| 0 <= p < 2048 && #[trigger] covers(mem, index, n, vx, vy, p) && once[p] != 0;
        assert(covers(mem, index, n, vx, vy, p) && display[p] == 0);
    }
    if exists|p: int| 0 <= p < 2048 && #[trigger] covers(mem, index, n, vx, vy, p) && display[p] == 0 {
        let p = choose|p: int|
            0 <= p < 2048 && #[trigger] covers(mem, index, n, vx, vy, p) && display[p] == 0;
        assert(covers(mem, index, n, vx, vy, p) && once[p] != 0);
    }
}

/// The same for `Dxyn` carried out twice, where neither coordinate lies in the flag
/// register and the sprite has a set bit on a pixel that is off: the display is back as it
/// was and the flag register holds 1.
pub proof fn lemma_draw_twice(m: Machine, x: int, y: int, n: int, p: int)
    requires
        well_formed(m),
        0 <= x < 15,
        0 <= y < 15,
        0 <= p < 2048,
        covers(m.mem, m.index, n, m.regs[x] as int, m.regs[y] as int, p),
        m.display[p] == 0,
    ensures
        drawn(drawn(m, x, y, n), x, y, n).display == m.display,
        drawn(drawn(m, x, y, n), x, y, n).regs[0xF] == 1,
{
    lemma_blit_twice(m.display, m.mem, m.index, n, m.regs[x] as int, m.regs[y] as int);
}

/// A timer never runs below zero and never runs up, and it is at zero once a sixtieth of a
/// second has passed for each of its ticks.
pub proof fn lemma_timer_runs_down(timer: int, elapsed_nanos: int)
    requires
        0 <= timer,
        0 <= elapsed_nanos,
    ensures
        0 <= decayed(timer, elapsed_nanos) <= timer,
        timer <= 60 * elapsed_nanos ==> decayed(timer, elapsed_nanos) == 0,
        timer > 60 * elapsed_nanos ==> decayed(timer, elapsed_nanos) == timer - 60 * elapsed_nanos,
{
}

/// Whether `m` is waiting for a key: its next instruction is `Fx0A` and the latch is empty.
pub open spec fn waiting(m: Machine) -> bool {
    &&& well_formed(m)
    &&& m.pc + 1 < 4096
    &&& family(m.mem[m.pc]) == 0xF
    &&& m.mem[m.pc + 1] == 0x0A
    &&& m.latch is None
}

/// The machine after one step for each entry of `inputs`, which gives the random byte and
/// the elapsed nanoseconds of that step.
pub open spec fn stepped_through(m: Machine, inputs: Seq<(u8, u64)>) -> Machine
    decreases inputs.len(),
{
    if inputs.len() == 0 {
        m
    } else {
        stepped(stepped_through(m, inputs.drop_last()), inputs.last().0, inputs.last().1)
    }
}

/// A machine that waits for a key still waits after a step, at the same instruction and
/// with memory and registers as they were.
pub proof fn lemma_wait_holds(m: Machine, random: u8, elapsed_nanos: u64)
    requires
        waiting(m),
    ensures
        fault_of(m) is None,
        waiting(stepped(m, random, elapsed_nanos)),
        stepped(m, random, elapsed_nanos).pc == m.pc,
        stepped(m, random, elapsed_nanos).mem == m.mem,
        stepped(m, random, elapsed_nanos).regs == m.regs,
{
    lemma_step_well_formed(m, random, elapsed_nanos);
}

/// A machine that waits for a key waits at the same instruction after any number of steps.
pub proof fn lemma_wait_holds_on(m: Machine, inputs: Seq<(u8, u64)>)
    requires
        waiting(m),
    ensures
        waiting(stepped_through(m, inputs)),
        stepped_through(m, inputs).pc == m.pc,
        stepped_through(m, inputs).mem == m.mem,
        stepped_through(m, inputs).regs == m.regs,
    decreases inputs.len(),
{
    if inputs.len() > 0 {
        lemma_wait_holds_on(m, inputs.drop_last());
        lemma_wait_holds(stepped_through(m, inputs.drop_last()), inputs.last().0, inputs.last().1);
    }
}

/// Once a key that was up comes down, the next step of a machine that waited puts the
/// key's number into register `x` and moves on to the next instruction.
pub proof fn lemma_wait_ends(m: Machine, key: u8, random: u8, elapsed_nanos: u64)
    requires
        waiting(m),
        key < 16,
        !m.keys[key as int],
    ensures
        fault_of(key_event(m, key, true)) is None,
        stepped(key_event(m, key, true), random, elapsed_nanos).pc == m.pc + 2,
        stepped(key_event(m, key, true), random, elapsed_nanos).regs == m.regs.update(
            field_x(m.mem[m.pc]),
            key,
        ),
        stepped(key_event(m, key, true), random, elapsed_nanos).latch is None,
{
}

} // verus!
