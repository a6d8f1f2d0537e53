//! What holds of the machine in general, proved from its description in
//! [`model`](crate::model).

use crate::consts::{
    DISPLAY_HEIGHT, DISPLAY_WIDTH, FONTSET, FONTSET_SIZE, MAX_ROM_SIZE, MEMORY_SIZE, PROGRAM_START,
    STACK_SIZE,
};
use crate::error::Chip8Error;
use crate::instruction::{decode_opcode, Instruction};
use crate::model::{
    add_reg, advance, any_key_down, call, cls, collides, drw, execute, initial_state,
    is_lowest_key_down, jp, ld_b, load, lowest_key_down, opcode_at, ready, ret, run_opcode, shl,
    shr, sprite_bit, sprite_hits, step, sub_reg, subn_reg, tick, MachineState, Outcome,
};
use vstd::prelude::*;

verus! {

/// The state after one step for each byte of `randoms`, in order. A step
/// that fails leaves the state as it was, and the run goes on.
pub open spec fn run(s: MachineState, randoms: Seq<u8>) -> MachineState
    decreases randoms.len(),
{
    if randoms.len() == 0 {
        s
    } else {
        run(step(s, randoms[0]).state, randoms.drop_first())
    }
}

/// What a run of calls, one to each of `targets` in order, leaves behind:
/// the outcome of the first call that fails, or of the last call.
pub open spec fn call_chain(s: MachineState, targets: Seq<u16>) -> Outcome
    decreases targets.len(),
{
    if targets.len() == 0 {
        Outcome { state: s, result: Ok(()) }
    } else {
        let before = call_chain(s, targets.drop_last());
        if before.result is Ok {
            call(before.state, targets.last())
        } else {
            before
        }
    }
}

/// Whether the `n`-row sprite at `I` has any pixel set.
pub open spec fn sprite_is_visible(s: MachineState, n: int) -> bool {
    exists|row: int, col: int|
        0 <= row < n && 0 <= col < 8 && #[trigger] sprite_bit(s.memory[s.i + row], col)
}

/// After a program was loaded its bytes stand in memory from the program
/// start onwards, in order, and everything below the program start is as it
/// was.
pub proof fn lemma_load_places_program(s: MachineState, rom: Seq<u8>)
    requires
        s.wf(),
        rom.len() <= MAX_ROM_SIZE,
    ensures
        load(s, rom).result is Ok,
        load(s, rom).state.wf(),
        forall|k: int| 0 <= k < rom.len() ==> load(s, rom).state.memory[PROGRAM_START + k] == rom[k],
        forall|a: int| 0 <= a < PROGRAM_START ==> load(s, rom).state.memory[a] == s.memory[a],
{
}

/// A program image that is too large is refused and changes nothing.
pub proof fn lemma_load_refuses_large_program(s: MachineState, rom: Seq<u8>)
    requires
        rom.len() > MAX_ROM_SIZE,
    ensures
        load(s, rom).result == Err::<(), Chip8Error>(Chip8Error::RomTooLarge),
        load(s, rom).state == s,
{
}

/// A new machine holds the font at the bottom of memory, and loading a
/// program into it does not touch the font.
pub proof fn lemma_font_survives_load(rom: Seq<u8>)
    ensures
        initial_state().wf(),
        forall|k: int| 0 <= k < FONTSET_SIZE ==> initial_state().memory[k] == FONTSET@[k],
        forall|k: int|
            0 <= k < FONTSET_SIZE ==> load(initial_state(), rom).state.memory[k] == FONTSET@[k],
{
}

/// Every step of a well-formed machine leaves a well-formed machine.
pub proof fn lemma_step_preserves_wf(s: MachineState, random: u8)
    requires
        s.wf(),
    ensures
        step(s, random).state.wf(),
{
    if s.waiting is None && ready(s) {
        lemma_run_opcode_preserves_wf(s, opcode_at(s), random);
    }
}

/// Every instruction word leaves a well-formed machine well-formed.
pub proof fn lemma_run_opcode_preserves_wf(s: MachineState, opcode: u16, random: u8)
    requires
        s.wf(),
        ready(s),
    ensures
        run_opcode(s, opcode, random).state.wf(),
{
    lemma_decoded_is_wf(opcode);
}

/// Whatever a word decodes to has its registers and sprite height below 16
/// and its address below 4096.
pub proof fn lemma_decoded_is_wf(opcode: u16)
    ensures
        decode_opcode(opcode) matches Some(instruction) ==> instruction.wf(),
{
}

/// A step that fails leaves the machine exactly as it was.
pub proof fn lemma_failed_step_changes_nothing(s: MachineState, random: u8)
    requires
        step(s, random).result is Err,
    ensures
        step(s, random).state == s,
{
}

/// The random byte matters to `Cxnn` alone: on any other instruction, and
/// while the machine waits for a key, two steps with different bytes agree.
pub proof fn lemma_random_matters_to_rnd_only(s: MachineState, r1: u8, r2: u8)
    requires
        !(ready(s) && decode_opcode(opcode_at(s)) matches Some(Instruction::Rnd { .. })),
    ensures
        step(s, r1) == step(s, r2),
{
}

/// No step moves a timer, but for the two instructions that set one from a
/// register.
pub proof fn lemma_step_keeps_timers(s: MachineState, random: u8)
    ensures
        !(ready(s) && decode_opcode(opcode_at(s)) matches Some(Instruction::LdDtVx { .. }))
            ==> step(s, random).state.delay_timer == s.delay_timer,
        !(ready(s) && decode_opcode(opcode_at(s)) matches Some(Instruction::LdStVx { .. }))
            ==> step(s, random).state.sound_timer == s.sound_timer,
{
}

/// A tick takes 1 from each timer that is above 0 and leaves a timer at 0
/// where it is; nothing else changes.
pub proof fn lemma_tick_counts_down(s: MachineState)
    ensures
        tick(s).delay_timer == (if s.delay_timer == 0 { 0 } else { s.delay_timer - 1 }),
        tick(s).sound_timer == (if s.sound_timer == 0 { 0 } else { s.sound_timer - 1 }),
        tick(s) == (MachineState {
            delay_timer: tick(s).delay_timer,
            sound_timer: tick(s).sound_timer,
            ..s
        }),
        s.wf() ==> tick(s).wf(),
{
}

/// Only clearing the display and drawing a sprite touch the display or mark
/// it as changed, and both always mark it. No step takes the mark away.
pub proof fn lemma_display_changes_by_cls_and_drw_only(s: MachineState, random: u8)
    ensures
        ({
            let draws = ready(s) && (decode_opcode(opcode_at(s)) matches Some(instruction) && (
            instruction is Cls || instruction is Drw));
            let after = step(s, random);
            &&& !draws ==> after.state.gfx == s.gfx && after.state.redraw == s.redraw
            &&& draws && after.result is Ok ==> after.state.redraw
            &&& s.redraw ==> after.state.redraw
        }),
{
}

/// Whether `instruction` moves `pc` to the next instruction whenever it succeeds.
pub open spec fn falls_through(instruction: Instruction) -> bool {
    match instruction {
        Instruction::Ret
        | Instruction::Jp { .. }
        | Instruction::Call { .. }
        | Instruction::JpV0 { .. }
        | Instruction::SeImm { .. }
        | Instruction::SneImm { .. }
        | Instruction::SeReg { .. }
        | Instruction::SneReg { .. }
        | Instruction::Skp { .. }
        | Instruction::Sknp { .. }
        | Instruction::LdVxK { .. } => false,
        _ => true,
    }
}

/// Whether `instruction` is one of the six that may skip the next instruction.
pub open spec fn is_skip(instruction: Instruction) -> bool {
    match instruction {
        Instruction::SeImm { .. }
        | Instruction::SneImm { .. }
        | Instruction::SeReg { .. }
        | Instruction::SneReg { .. }
        | Instruction::Skp { .. }
        | Instruction::Sknp { .. } => true,
        _ => false,
    }
}

/// Every instruction that succeeds moves `pc` by exactly 2, but for jumps,
/// calls and returns, which set it, skips, which move it by 2 or by 4, and
/// the wait for a key, which holds it.
pub proof fn lemma_pc_advances_by_two(s: MachineState, instruction: Instruction, random: u8)
    requires
        s.wf(),
        ready(s),
        instruction.wf(),
        execute(s, instruction, random).result is Ok,
    ensures
        falls_through(instruction) ==> execute(s, instruction, random).state.pc == s.pc + 2,
        is_skip(instruction) ==> execute(s, instruction, random).state.pc == s.pc + 2 || execute(
            s,
            instruction,
            random,
        ).state.pc == s.pc + 4,
        instruction is LdVxK ==> execute(s, instruction, random).state.pc == s.pc,
{
}

/// Clearing the display darkens every pixel and marks the display as changed.
pub proof fn lemma_cls_darkens_display(s: MachineState)
    ensures
        forall|y: int, x: int|
            0 <= y < DISPLAY_HEIGHT && 0 <= x < DISPLAY_WIDTH ==> #[trigger] cls(s).gfx[y][x] == 0,
        cls(s).redraw,
        cls(s).pc == advance(s).pc,
{
}

/// A jump leaves `pc` at exactly its target and changes nothing else.
pub proof fn lemma_jump_lands_on_target(s: MachineState, nnn: u16)
    ensures
        jp(s, nnn).pc == nnn,
        jp(s, nnn) == (MachineState { pc: nnn, ..s }),
{
}

/// A call followed at once by a return comes back to the instruction after
/// the call, with the stack as it was before.
pub proof fn lemma_call_then_ret(s: MachineState, nnn: u16)
    requires
        s.wf(),
        ready(s),
        s.stack.len() < STACK_SIZE,
    ensures
        call(s, nnn).result is Ok,
        call(s, nnn).state.pc == nnn,
        ret(call(s, nnn).state).result is Ok,
        ret(call(s, nnn).state).state.pc == s.pc + 2,
        ret(call(s, nnn).state).state == advance(s),
{
    let called = call(s, nnn).state;
    assert(called.stack.drop_last() =~= s.stack);
}

/// A call fails with `StackOverflow` exactly when all sixteen slots are in
/// use, and a return with `StackUnderflow` exactly when none is.
pub proof fn lemma_stack_limits(s: MachineState, nnn: u16)
    requires
        s.wf(),
    ensures
        call(s, nnn).result == (if s.stack.len() == STACK_SIZE {
            Err::<(), Chip8Error>(Chip8Error::StackOverflow)
        } else {
            Ok::<(), Chip8Error>(())
        }),
        call(s, nnn).result is Ok ==> call(s, nnn).state.stack.len() == s.stack.len() + 1,
        ret(s).result == (if s.stack.len() == 0 {
            Err::<(), Chip8Error>(Chip8Error::StackUnderflow)
        } else {
            Ok::<(), Chip8Error>(())
        }),
        ret(s).result is Ok ==> ret(s).state.stack.len() == s.stack.len() - 1,
{
}

/// From an empty stack, calls that are not answered by a return succeed up
/// to the sixteenth, and the seventeenth fails with `StackOverflow`.
pub proof fn lemma_seventeenth_call_overflows(s: MachineState, targets: Seq<u16>)
    requires
        s.wf(),
        s.stack.len() == 0,
        targets.len() <= STACK_SIZE + 1,
    ensures
        targets.len() <= STACK_SIZE ==> call_chain(s, targets).result is Ok && call_chain(
            s,
            targets,
        ).state.stack.len() == targets.len(),
        targets.len() == STACK_SIZE + 1 ==> call_chain(s, targets).result == Err::<(), Chip8Error>(
            Chip8Error::StackOverflow,
        ),
    decreases targets.len(),
{
    if targets.len() > 0 {
        lemma_seventeenth_call_overflows(s, targets.drop_last());
    }
}

/// Adding two registers loses nothing: the carry in `VF` and the sum in
/// `Vx` together are the true sum.
pub proof fn lemma_add_keeps_sum(s: MachineState, x: int, y: int)
    requires
        s.wf(),
        0 <= x < 15,
        0 <= y < 16,
    ensures
        add_reg(s, x, y).v[x] + 256 * add_reg(s, x, y).v[15] == s.v[x] + s.v[y],
        add_reg(s, x, y).v[15] <= 1,
{
}

/// Subtracting, either way round, loses nothing: `VF` is 0 exactly when
/// 256 had to be borrowed.
pub proof fn lemma_sub_keeps_difference(s: MachineState, x: int, y: int)
    requires
        s.wf(),
        0 <= x < 15,
        0 <= y < 16,
    ensures
        sub_reg(s, x, y).v[x] == s.v[x] - s.v[y] + 256 * (1 - sub_reg(s, x, y).v[15]),
        subn_reg(s, x, y).v[x] == s.v[y] - s.v[x] + 256 * (1 - subn_reg(s, x, y).v[15]),
        sub_reg(s, x, y).v[15] <= 1,
        subn_reg(s, x, y).v[15] <= 1,
{
}

/// Shifting loses nothing: the bit in `VF` and what is left in `Vx` together
/// are the old `Vx`.
pub proof fn lemma_shift_keeps_bits(s: MachineState, x: int)
    requires
        s.wf(),
        0 <= x < 15,
    ensures
        2 * shr(s, x).v[x] + shr(s, x).v[15] == s.v[x],
        shl(s, x).v[x] + 256 * shl(s, x).v[15] == 2 * s.v[x],
        shr(s, x).v[15] <= 1,
        shl(s, x).v[15] <= 1,
{
}

/// The three bytes that `Fx33` writes are decimal digits, and read as
/// hundreds, tens and ones they are `Vx`.
pub proof fn lemma_bcd_digits(s: MachineState, x: int)
    requires
        s.wf(),
        0 <= x < 16,
        s.i + 2 < MEMORY_SIZE,
    ensures
        ({
            let m = ld_b(s, x).state.memory;
            &&& ld_b(s, x).result is Ok
            &&& m[s.i as int] <= 9 && m[s.i + 1] <= 9 && m[s.i + 2] <= 9
            &&& 100 * m[s.i as int] + 10 * m[s.i + 1] + m[s.i + 2] == s.v[x]
        }),
{
}

/// Drawing a sprite on a dark display lights exactly the sprite's pixels and
/// reports no collision.
pub proof fn lemma_draw_on_dark_display(s: MachineState, x: int, y: int, n: int)
    requires
        s.wf(),
        0 <= x < 16,
        0 <= y < 16,
        0 <= n < 16,
        s.i + n <= MEMORY_SIZE,
        forall|py: int, px: int|
            0 <= py < DISPLAY_HEIGHT && 0 <= px < DISPLAY_WIDTH ==> #[trigger] s.gfx[py][px] == 0,
    ensures
        drw(s, x, y, n).result is Ok,
        drw(s, x, y, n).state.v[15] == 0,
        forall|py: int, px: int|
            0 <= py < DISPLAY_HEIGHT && 0 <= px < DISPLAY_WIDTH ==> #[trigger] drw(
                s,
                x,
                y,
                n,
            ).state.gfx[py][px] == (if sprite_hits(s, x, y, n, px, py) {
                1u8
            } else {
                0u8
            }),
{
}

/// Drawing the same sprite twice at the same place puts the display back
/// as it was. The second drawing reports a collision exactly if the first
/// one lit a pixel; on a display that was dark, that is whenever the sprite
/// has a pixel set.
pub proof fn lemma_draw_twice_restores_display(s: MachineState, x: int, y: int, n: int)
    requires
        s.wf(),
        0 <= x < 15,
        0 <= y < 15,
        0 <= n < 16,
        s.i + n <= MEMORY_SIZE,
    ensures
        ({
            let once = drw(s, x, y, n).state;
            let twice = drw(once, x, y, n).state;
            &&& drw(s, x, y, n).result is Ok
            &&& drw(once, x, y, n).result is Ok
            &&& twice.gfx == s.gfx
            &&& twice.v[15] == 1 <==> exists|px: int, py: int|
                0 <= px < DISPLAY_WIDTH && 0 <= py < DISPLAY_HEIGHT && #[trigger] sprite_hits(
                    s,
                    x,
                    y,
                    n,
                    px,
                    py,
                ) && s.gfx[py][px] == 0
        }),
{
    let once = drw(s, x, y, n).state;
    let twice = drw(once, x, y, n).state;
    assert forall|px: int, py: int| #[trigger]
        sprite_hits(once, x, y, n, px, py) == sprite_hits(s, x, y, n, px, py) by {}
    assert(twice.gfx =~~= s.gfx);
    if collides(once, x, y, n) {
        let (wx, wy) = choose|wx: int, wy: int|
            0 <= wx < DISPLAY_WIDTH && 0 <= wy < DISPLAY_HEIGHT && #[trigger] sprite_hits(
                once,
                x,
                y,
                n,
                wx,
                wy,
            ) && once.gfx[wy][wx] == 1;
        assert(sprite_hits(s, x, y, n, wx, wy) && s.gfx[wy][wx] == 0);
    }
    if exists|px: int, py: int|
        0 <= px < DISPLAY_WIDTH && 0 <= py < DISPLAY_HEIGHT && #[trigger] sprite_hits(
            s,
            x,
            y,
            n,
            px,
            py,
        ) && s.gfx[py][px] == 0 {
        let (wx, wy) = choose|wx: int, wy: int|
            0 <= wx < DISPLAY_WIDTH && 0 <= wy < DISPLAY_HEIGHT && #[trigger] sprite_hits(
                s,
                x,
                y,
                n,
                wx,
                wy,
            ) && s.gfx[wy][wx] == 0;
        assert(sprite_hits(once, x, y, n, wx, wy) && once.gfx[wy][wx] == 1);
    }
}

/// On a display that was dark, drawing a sprite a second time reports a
/// collision exactly if the sprite has a pixel set.
pub proof fn lemma_second_draw_collides_if_visible(s: MachineState, x: int, y: int, n: int)
    requires
        s.wf(),
        0 <= x < 15,
        0 <= y < 15,
        0 <= n < 16,
        s.i + n <= MEMORY_SIZE,
        forall|py: int, px: int|
            0 <= py < DISPLAY_HEIGHT && 0 <= px < DISPLAY_WIDTH ==> #[trigger] s.gfx[py][px] == 0,
    ensures
        drw(s, x, y, n).state.v[15] == 0,
        drw(drw(s, x, y, n).state, x, y, n).state.v[15] == 1 <==> sprite_is_visible(s, n),
{
    lemma_draw_twice_restores_display(s, x, y, n);
    let left = s.v[x] as int;
    let top = s.v[y] as int;
    if sprite_is_visible(s, n) {
        let (row, col) = choose|row: int, col: int|
            0 <= row < n && 0 <= col < 8 && #[trigger] sprite_bit(s.memory[s.i + row], col);
        let px = (left + col) % (DISPLAY_WIDTH as int);
        let py = (top + row) % (DISPLAY_HEIGHT as int);
        assert((px - left) % (DISPLAY_WIDTH as int) == col);
        assert((py - top) % (DISPLAY_HEIGHT as int) == row);
        assert(sprite_hits(s, x, y, n, px, py) && s.gfx[py][px] == 0);
    }
    if exists|px: int, py: int|
        0 <= px < DISPLAY_WIDTH && 0 <= py < DISPLAY_HEIGHT && #[trigger] sprite_hits(
            s,
            x,
            y,
            n,
            px,
            py,
        ) && s.gfx[py][px] == 0 {
        let (px, py) = choose|px: int, py: int|
            0 <= px < DISPLAY_WIDTH && 0 <= py < DISPLAY_HEIGHT && #[trigger] sprite_hits(
                s,
                x,
                y,
                n,
                px,
                py,
            ) && s.gfx[py][px] == 0;
        let col = (px - left) % (DISPLAY_WIDTH as int);
        let row = (py - top) % (DISPLAY_HEIGHT as int);
        assert(0 <= row < n && 0 <= col < 8 && sprite_bit(s.memory[s.i + row], col));
    }
}

/// There is one lowest key that is down, if any key is.
pub proof fn lemma_lowest_key_is_unique(keypad: Seq<bool>, k: int)
    requires
        is_lowest_key_down(keypad, k),
    ensures
        any_key_down(keypad),
        lowest_key_down(keypad) == k,
{
}

/// While no key is down, a machine that waits for a key does not change,
/// however many steps it is given.
pub proof fn lemma_wait_without_key_is_idle(s: MachineState, randoms: Seq<u8>)
    requires
        s.waiting is Some,
        !any_key_down(s.keypad),
    ensures
        run(s, randoms) == s,
    decreases randoms.len(),
{
    if randoms.len() > 0 {
        lemma_wait_without_key_is_idle(s, randoms.drop_first());
    }
}

/// Once a key is down, the next step of a machine that waits for a key for
/// `Vx` puts the lowest code among the keys that are down into `Vx`, moves
/// `pc` to the next instruction, ends the wait, and changes nothing else.
pub proof fn lemma_key_ends_wait(s: MachineState, x: u8, k: int, random: u8)
    requires
        s.wf(),
        s.waiting == Some(x),
        is_lowest_key_down(s.keypad, k),
    ensures
        step(s, random).result is Ok,
        step(s, random).state == (MachineState {
            v: s.v.update(x as int, k as u8),
            pc: (s.pc + 2) as u16,
            waiting: None,
            ..s
        }),
        step(s, random).state.v[x as int] == k,
        step(s, random).state.pc == s.pc + 2,
{
    lemma_lowest_key_is_unique(s.keypad, k);
}

/// The instruction `Fx0A` starts the wait and leaves `pc` on itself.
pub proof fn lemma_key_wait_begins(s: MachineState, x: u8, random: u8)
    requires
        s.wf(),
        ready(s),
        decode_opcode(opcode_at(s)) == Some(Instruction::LdVxK { x }),
    ensures
        step(s, random).result is Ok,
        step(s, random).state == (MachineState { waiting: Some(x), ..s }),
{
}

} // verus!
