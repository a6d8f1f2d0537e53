//! The machine as a mathematical object: a state, and one function per
//! instruction that says which state follows.

use crate::consts::{
    DISPLAY_HEIGHT, DISPLAY_WIDTH, FONTSET, FONTSET_SIZE, GLYPH_SIZE, KEYPAD_SIZE, MAX_ROM_SIZE,
    MEMORY_SIZE, PROGRAM_START, REGISTER_SIZE, STACK_SIZE,
};
use crate::error::Chip8Error;
use crate::instruction::{decode_opcode, Instruction};
use vstd::prelude::*;

verus! {

/// Everything the machine holds between two steps.
#[verifier::ext_equal]
pub struct MachineState {
    /// The 4096 bytes of memory.
    pub memory: Seq<u8>,
    /// The display, row by row: `gfx[y][x]` is 1 for a lit pixel and 0 for a dark one.
    pub gfx: Seq<Seq<u8>>,
    /// The return addresses of the calls that have not returned yet, oldest first.
    pub stack: Seq<u16>,
    /// The general registers `V0` to `VF`.
    pub v: Seq<u8>,
    /// The address register `I`.
    pub i: u16,
    /// The program counter.
    pub pc: u16,
    /// The delay timer.
    pub delay_timer: u8,
    /// The sound timer.
    pub sound_timer: u8,
    /// Which keys are down.
    pub keypad: Seq<bool>,
    /// Whether the display changed since the host last asked.
    pub redraw: bool,
    /// `Some(x)` while the machine waits for a key to put in `Vx`.
    pub waiting: Option<u8>,
}

/// What one instruction or one step leaves behind.
pub struct Outcome {
    /// The state afterwards.
    pub state: MachineState,
    /// Whether the step succeeded.
    pub result: Result<(), Chip8Error>,
}

impl MachineState {
    /// The dimensions are those of the machine, pixels are 0 or 1, and a
    /// machine that waits for a key stands on the instruction that made it wait.
    pub open spec fn wf(self) -> bool {
        &&& self.memory.len() == MEMORY_SIZE
        &&& self.gfx.len() == DISPLAY_HEIGHT
        &&& forall|y: int| 0 <= y < DISPLAY_HEIGHT ==> (#[trigger] self.gfx[y]).len() == DISPLAY_WIDTH
        &&& forall|y: int, x: int|
            0 <= y < DISPLAY_HEIGHT && 0 <= x < DISPLAY_WIDTH ==> #[trigger] self.gfx[y][x] <= 1
        &&& self.stack.len() <= STACK_SIZE
        &&& self.v.len() == REGISTER_SIZE
        &&& self.keypad.len() == KEYPAD_SIZE
        &&& (self.waiting matches Some(x) ==> x < REGISTER_SIZE && fetchable(self))
    }
}

/// A step that succeeded and left `state`.
pub open spec fn done(state: MachineState) -> Outcome {
    Outcome { state, result: Ok(()) }
}

/// A step that failed with `error`; the machine stays as it was.
pub open spec fn fail(state: MachineState, error: Chip8Error) -> Outcome {
    Outcome { state, result: Err(error) }
}

/// A display with every pixel dark.
pub open spec fn blank_display() -> Seq<Seq<u8>> {
    Seq::new(DISPLAY_HEIGHT as nat, |y: int| Seq::new(DISPLAY_WIDTH as nat, |x: int| 0u8))
}

/// Memory as a new machine has it: the font at the bottom, zero above.
pub open spec fn initial_memory() -> Seq<u8> {
    Seq::new(MEMORY_SIZE as nat, |a: int| if a < FONTSET_SIZE { FONTSET@[a] } else { 0u8 })
}

/// The state of a machine that was just made.
pub open spec fn initial_state() -> MachineState {
    MachineState {
        memory: initial_memory(),
        gfx: blank_display(),
        stack: Seq::empty(),
        v: Seq::new(REGISTER_SIZE as nat, |k: int| 0u8),
        i: 0,
        pc: PROGRAM_START as u16,
        delay_timer: 0,
        sound_timer: 0,
        keypad: Seq::new(KEYPAD_SIZE as nat, |k: int| false),
        redraw: false,
        waiting: None,
    }
}

/// Memory with `rom` copied in from `PROGRAM_START` onwards.
pub open spec fn loaded_memory(memory: Seq<u8>, rom: Seq<u8>) -> Seq<u8> {
    Seq::new(
        memory.len(),
        |a: int|
            if PROGRAM_START <= a < PROGRAM_START + rom.len() {
                rom[a - PROGRAM_START]
            } else {
                memory[a]
            },
    )
}

/// Loading a program image: it fails, and changes nothing, if the image has
/// more than `MAX_ROM_SIZE` bytes; else only memory from `PROGRAM_START` on changes.
pub open spec fn load(s: MachineState, rom: Seq<u8>) -> Outcome {
    if rom.len() > MAX_ROM_SIZE {
        fail(s, Chip8Error::RomTooLarge)
    } else {
        done(MachineState { memory: loaded_memory(s.memory, rom), ..s })
    }
}

/// One tick of the 60 Hz clock: each timer that is not yet 0 goes down by 1.
pub open spec fn tick(s: MachineState) -> MachineState {
    MachineState {
        delay_timer: if s.delay_timer > 0 { (s.delay_timer - 1) as u8 } else { 0 },
        sound_timer: if s.sound_timer > 0 { (s.sound_timer - 1) as u8 } else { 0 },
        ..s
    }
}

/// Key `code` goes down or up.
pub open spec fn set_key(s: MachineState, code: int, pressed: bool) -> MachineState {
    MachineState { keypad: s.keypad.update(code, pressed), ..s }
}

/// The host has seen the display.
pub open spec fn clear_redraw(s: MachineState) -> MachineState {
    MachineState { redraw: false, ..s }
}

/// Whether both bytes of the instruction at `pc` lie within memory.
pub open spec fn fetchable(s: MachineState) -> bool {
    s.pc + 1 < MEMORY_SIZE
}

/// Whether the machine is about to execute an instruction: it does not wait
/// for a key, and the instruction at `pc` lies within memory.
pub open spec fn ready(s: MachineState) -> bool {
    s.waiting is None && fetchable(s)
}

/// The big-endian word at `pc`.
pub open spec fn opcode_at(s: MachineState) -> u16 {
    (s.memory[s.pc as int] * 256 + s.memory[s.pc + 1]) as u16
}

/// The state with `pc` moved to the next instruction.
pub open spec fn advance(s: MachineState) -> MachineState {
    MachineState { pc: (s.pc + 2) as u16, ..s }
}

/// The state with `pc` moved past the next instruction if `skip`, else to it.
pub open spec fn skip_if(s: MachineState, skip: bool) -> MachineState {
    MachineState { pc: (if skip { s.pc + 4 } else { s.pc + 2 }) as u16, ..s }
}

/// The state with `value` in `Vx` and `pc` moved to the next instruction.
pub open spec fn write_register(s: MachineState, x: int, value: u8) -> MachineState {
    advance(MachineState { v: s.v.update(x, value), ..s })
}

/// The state with `flag` in `VF`, then `value` in `Vx`, and `pc` moved to the
/// next instruction. Where `x` is 15 the value, written last, is what `VF` holds.
pub open spec fn write_flag_and_register(s: MachineState, x: int, flag: bool, value: u8) -> MachineState {
    advance(
        MachineState { v: s.v.update(0xF, if flag { 1u8 } else { 0u8 }).update(x, value), ..s },
    )
}

/// Whether key number `code` exists and is down.
pub open spec fn key_down(s: MachineState, code: int) -> bool {
    0 <= code < s.keypad.len() && s.keypad[code]
}

/// Whether any key is down.
pub open spec fn any_key_down(keypad: Seq<bool>) -> bool {
    exists|k: int| 0 <= k < keypad.len() && #[trigger] keypad[k]
}

/// Whether `k` is down and no key with a smaller code is.
pub open spec fn is_lowest_key_down(keypad: Seq<bool>, k: int) -> bool {
    &&& 0 <= k < keypad.len()
    &&& keypad[k]
    &&& forall|j: int| 0 <= j < k ==> !#[trigger] keypad[j]
}

/// The smallest code among the keys that are down, if any is.
pub open spec fn lowest_key_down(keypad: Seq<bool>) -> int {
    choose|k: int| is_lowest_key_down(keypad, k)
}

/// `00E0`: every pixel goes dark and the display is marked as changed.
pub open spec fn cls(s: MachineState) -> MachineState {
    advance(MachineState { gfx: blank_display(), redraw: true, ..s })
}

/// `00EE`: `pc` becomes the newest return address, which leaves the stack.
/// With no call outstanding it fails with `StackUnderflow`.
pub open spec fn ret(s: MachineState) -> Outcome {
    if s.stack.len() == 0 {
        fail(s, Chip8Error::StackUnderflow)
    } else {
        done(MachineState { pc: s.stack.last(), stack: s.stack.drop_last(), ..s })
    }
}

/// `1nnn`: `pc` becomes `nnn`.
pub open spec fn jp(s: MachineState, nnn: u16) -> MachineState {
    MachineState { pc: nnn, ..s }
}

/// `2nnn`: the address of the next instruction goes onto the stack and `pc`
/// becomes `nnn`. With all slots in use it fails with `StackOverflow`.
pub open spec fn call(s: MachineState, nnn: u16) -> Outcome {
    if s.stack.len() >= STACK_SIZE {
        fail(s, Chip8Error::StackOverflow)
    } else {
        done(MachineState { pc: nnn, stack: s.stack.push((s.pc + 2) as u16), ..s })
    }
}

/// `3xnn`: skip if `Vx == nn`.
pub open spec fn se_imm(s: MachineState, x: int, nn: u8) -> MachineState {
    skip_if(s, s.v[x] == nn)
}

/// `4xnn`: skip if `Vx != nn`.
pub open spec fn sne_imm(s: MachineState, x: int, nn: u8) -> MachineState {
    skip_if(s, s.v[x] != nn)
}

/// `5xy0`: skip if `Vx == Vy`.
pub open spec fn se_reg(s: MachineState, x: int, y: int) -> MachineState {
    skip_if(s, s.v[x] == s.v[y])
}

/// `6xnn`: `Vx = nn`.
pub open spec fn ld_imm(s: MachineState, x: int, nn: u8) -> MachineState {
    write_register(s, x, nn)
}

/// `7xnn`: `Vx = (Vx + nn) mod 256`.
pub open spec fn add_imm(s: MachineState, x: int, nn: u8) -> MachineState {
    write_register(s, x, ((s.v[x] + nn) % 256) as u8)
}

/// `8xy0`: `Vx = Vy`.
pub open spec fn ld_reg(s: MachineState, x: int, y: int) -> MachineState {
    write_register(s, x, s.v[y])
}

/// `8xy1`: `Vx = Vx | Vy`.
pub open spec fn or(s: MachineState, x: int, y: int) -> MachineState {
    write_register(s, x, s.v[x] | s.v[y])
}

/// `8xy2`: `Vx = Vx & Vy`.
pub open spec fn and(s: MachineState, x: int, y: int) -> MachineState {
    write_register(s, x, s.v[x] & s.v[y])
}

/// `8xy3`: `Vx = Vx ^ Vy`.
pub open spec fn xor(s: MachineState, x: int, y: int) -> MachineState {
    write_register(s, x, s.v[x] ^ s.v[y])
}

/// `8xy4`: `VF` = 1 if `Vx + Vy > 255` else 0, then `Vx = (Vx + Vy) mod 256`.
pub open spec fn add_reg(s: MachineState, x: int, y: int) -> MachineState {
    let sum = s.v[x] + s.v[y];
    write_flag_and_register(s, x, sum > 255, (sum % 256) as u8)
}

/// `8xy5`: `VF` = 1 if `Vx >= Vy` else 0, then `Vx = (Vx - Vy) mod 256`.
pub open spec fn sub_reg(s: MachineState, x: int, y: int) -> MachineState {
    write_flag_and_register(s, x, s.v[x] >= s.v[y], ((s.v[x] - s.v[y]) % 256) as u8)
}

/// `8xy6`: `VF` = lowest bit of `Vx`, then `Vx = Vx / 2`.
pub open spec fn shr(s: MachineState, x: int) -> MachineState {
    write_flag_and_register(s, x, s.v[x] % 2 == 1, s.v[x] / 2)
}

/// `8xy7`: `VF` = 1 if `Vy >= Vx` else 0, then `Vx = (Vy - Vx) mod 256`.
pub open spec fn subn_reg(s: MachineState, x: int, y: int) -> MachineState {
    write_flag_and_register(s, x, s.v[y] >= s.v[x], ((s.v[y] - s.v[x]) % 256) as u8)
}

/// `8xyE`: `VF` = highest bit of `Vx`, then `Vx = (Vx * 2) mod 256`.
pub open spec fn shl(s: MachineState, x: int) -> MachineState {
    write_flag_and_register(s, x, s.v[x] >= 128, ((s.v[x] * 2) % 256) as u8)
}

/// `9xy0`: skip if `Vx != Vy`.
pub open spec fn sne_reg(s: MachineState, x: int, y: int) -> MachineState {
    skip_if(s, s.v[x] != s.v[y])
}

/// `Annn`: `I = nnn`.
pub open spec fn ld_i(s: MachineState, nnn: u16) -> MachineState {
    advance(MachineState { i: nnn, ..s })
}

/// `Bnnn`: `pc = nnn + V0`.
pub open spec fn jp_v0(s: MachineState, nnn: u16) -> MachineState {
    MachineState { pc: (nnn + s.v[0]) as u16, ..s }
}

/// `Cxnn`: `Vx = random & nn`.
pub open spec fn rnd(s: MachineState, x: int, nn: u8, random: u8) -> MachineState {
    write_register(s, x, random & nn)
}

/// Whether pixel `col` of the sprite row `byte` is set; pixel 0 is the
/// leftmost one and sits in the highest bit.
pub open spec fn sprite_bit(byte: u8, col: int) -> bool {
    (byte >> ((7 - col) as u8)) & 1 == 1
}

/// Whether the `n`-row sprite at `I`, drawn at (`Vx`, `Vy`) and wrapped
/// around the edges, has a set pixel on the display pixel (`px`, `py`).
pub open spec fn sprite_hits(s: MachineState, x: int, y: int, n: int, px: int, py: int) -> bool {
    let col = (px - s.v[x]) % (DISPLAY_WIDTH as int);
    let row = (py - s.v[y]) % (DISPLAY_HEIGHT as int);
    col < 8 && row < n && sprite_bit(s.memory[s.i + row], col)
}

/// A pixel after it was XOR-ed with a set sprite pixel.
pub open spec fn toggled(pixel: u8) -> u8 {
    if pixel == 0 {
        1
    } else {
        0
    }
}

/// The display after the sprite was XOR-ed onto it.
pub open spec fn drawn(s: MachineState, x: int, y: int, n: int) -> Seq<Seq<u8>> {
    Seq::new(
        DISPLAY_HEIGHT as nat,
        |py: int|
            Seq::new(
                DISPLAY_WIDTH as nat,
                |px: int|
                    if sprite_hits(s, x, y, n, px, py) {
                        toggled(s.gfx[py][px])
                    } else {
                        s.gfx[py][px]
                    },
            ),
    )
}

/// Whether the sprite has a set pixel on a display pixel that is lit.
pub open spec fn collides(s: MachineState, x: int, y: int, n: int) -> bool {
    exists|px: int, py: int|
        0 <= px < DISPLAY_WIDTH && 0 <= py < DISPLAY_HEIGHT && #[trigger] sprite_hits(
            s,
            x,
            y,
            n,
            px,
            py,
        ) && s.gfx[py][px] == 1
}

/// `Dxyn`: the sprite is XOR-ed onto the display, `VF` = 1 if that turned a
/// lit pixel dark, else 0, and the display is marked as changed. It fails
/// with `OutOfBounds` if a sprite row lies past the end of memory.
pub open spec fn drw(s: MachineState, x: int, y: int, n: int) -> Outcome {
    if n > 0 && s.i + n > MEMORY_SIZE {
        fail(s, Chip8Error::OutOfBounds)
    } else {
        done(
            advance(
                MachineState {
                    gfx: drawn(s, x, y, n),
                    v: s.v.update(0xF, if collides(s, x, y, n) { 1u8 } else { 0u8 }),
                    redraw: true,
                    ..s
                },
            ),
        )
    }
}

/// `Ex9E`: skip if the key whose code is in `Vx` is down.
pub open spec fn skp(s: MachineState, x: int) -> MachineState {
    skip_if(s, key_down(s, s.v[x] as int))
}

/// `ExA1`: skip if the key whose code is in `Vx` is not down.
pub open spec fn sknp(s: MachineState, x: int) -> MachineState {
    skip_if(s, !key_down(s, s.v[x] as int))
}

/// `Fx07`: `Vx` = delay timer.
pub open spec fn ld_vx_dt(s: MachineState, x: int) -> MachineState {
    write_register(s, x, s.delay_timer)
}

/// `Fx0A`: the machine starts to wait for a key for `Vx`; `pc` stays.
pub open spec fn ld_vx_k(s: MachineState, x: u8) -> MachineState {
    MachineState { waiting: Some(x), ..s }
}

/// `Fx15`: delay timer = `Vx`.
pub open spec fn ld_dt_vx(s: MachineState, x: int) -> MachineState {
    advance(MachineState { delay_timer: s.v[x], ..s })
}

/// `Fx18`: sound timer = `Vx`.
pub open spec fn ld_st_vx(s: MachineState, x: int) -> MachineState {
    advance(MachineState { sound_timer: s.v[x], ..s })
}

/// `Fx1E`: `I = (I + Vx) mod 65536`.
pub open spec fn add_i(s: MachineState, x: int) -> MachineState {
    advance(MachineState { i: ((s.i + s.v[x]) % 0x10000) as u16, ..s })
}

/// `Fx29`: `I` = address of the glyph of the digit in the low four bits of `Vx`.
pub open spec fn ld_f(s: MachineState, x: int) -> MachineState {
    advance(MachineState { i: (GLYPH_SIZE * (s.v[x] % 16)) as u16, ..s })
}

/// `Fx33`: the hundreds, tens and ones of `Vx` go to `I`, `I + 1`, `I + 2`.
/// It fails with `OutOfBounds` if `I + 2` lies past the end of memory.
pub open spec fn ld_b(s: MachineState, x: int) -> Outcome {
    if s.i + 2 >= MEMORY_SIZE {
        fail(s, Chip8Error::OutOfBounds)
    } else {
        let value = s.v[x];
        done(
            advance(
                MachineState {
                    memory: s.memory.update(s.i as int, value / 100).update(
                        s.i + 1,
                        (value / 10) % 10,
                    ).update(s.i + 2, value % 10),
                    ..s
                },
            ),
        )
    }
}

/// `Fx55`: `V0..=Vx` go to memory at `I` onwards; `I` stays. It fails with
/// `OutOfBounds` if `I + x` lies past the end of memory.
pub open spec fn store_regs(s: MachineState, x: int) -> Outcome {
    if s.i + x >= MEMORY_SIZE {
        fail(s, Chip8Error::OutOfBounds)
    } else {
        done(
            advance(
                MachineState {
                    memory: Seq::new(
                        s.memory.len(),
                        |a: int|
                            if s.i <= a <= s.i + x {
                                s.v[a - s.i]
                            } else {
                                s.memory[a]
                            },
                    ),
                    ..s
                },
            ),
        )
    }
}

/// `Fx65`: `V0..=Vx` are filled from memory at `I` onwards; `I` stays. It
/// fails with `OutOfBounds` if `I + x` lies past the end of memory.
pub open spec fn load_regs(s: MachineState, x: int) -> Outcome {
    if s.i + x >= MEMORY_SIZE {
        fail(s, Chip8Error::OutOfBounds)
    } else {
        done(
            advance(
                MachineState {
                    v: Seq::new(
                        s.v.len(),
                        |k: int|
                            if k <= x {
                                s.memory[s.i + k]
                            } else {
                                s.v[k]
                            },
                    ),
                    ..s
                },
            ),
        )
    }
}

/// What `instruction` does to `s`; `random` is the byte that `Rnd` draws.
pub open spec fn execute(s: MachineState, instruction: Instruction, random: u8) -> Outcome {
    match instruction {
        Instruction::Cls => done(cls(s)),
        Instruction::Ret => ret(s),
        Instruction::Jp { nnn } => done(jp(s, nnn)),
        Instruction::Call { nnn } => call(s, nnn),
        Instruction::SeImm { x, nn } => done(se_imm(s, x as int, nn)),
        Instruction::SneImm { x, nn } => done(sne_imm(s, x as int, nn)),
        Instruction::SeReg { x, y } => done(se_reg(s, x as int, y as int)),
        Instruction::LdImm { x, nn } => done(ld_imm(s, x as int, nn)),
        Instruction::AddImm { x, nn } => done(add_imm(s, x as int, nn)),
        Instruction::LdReg { x, y } => done(ld_reg(s, x as int, y as int)),
        Instruction::Or { x, y } => done(or(s, x as int, y as int)),
        Instruction::And { x, y } => done(and(s, x as int, y as int)),
        Instruction::Xor { x, y } => done(xor(s, x as int, y as int)),
        Instruction::AddReg { x, y } => done(add_reg(s, x as int, y as int)),
        Instruction::SubReg { x, y } => done(sub_reg(s, x as int, y as int)),
        Instruction::Shr { x } => done(shr(s, x as int)),
        Instruction::SubnReg { x, y } => done(subn_reg(s, x as int, y as int)),
        Instruction::Shl { x } => done(shl(s, x as int)),
        Instruction::SneReg { x, y } => done(sne_reg(s, x as int, y as int)),
        Instruction::LdI { nnn } => done(ld_i(s, nnn)),
        Instruction::JpV0 { nnn } => done(jp_v0(s, nnn)),
        Instruction::Rnd { x, nn } => done(rnd(s, x as int, nn, random)),
        Instruction::Drw { x, y, n } => drw(s, x as int, y as int, n as int),
        Instruction::Skp { x } => done(skp(s, x as int)),
        Instruction::Sknp { x } => done(sknp(s, x as int)),
        Instruction::LdVxDt { x } => done(ld_vx_dt(s, x as int)),
        Instruction::LdVxK { x } => done(ld_vx_k(s, x)),
        Instruction::LdDtVx { x } => done(ld_dt_vx(s, x as int)),
        Instruction::LdStVx { x } => done(ld_st_vx(s, x as int)),
        Instruction::AddI { x } => done(add_i(s, x as int)),
        Instruction::LdF { x } => done(ld_f(s, x as int)),
        Instruction::LdB { x } => ld_b(s, x as int),
        Instruction::StoreRegs { x } => store_regs(s, x as int),
        Instruction::LoadRegs { x } => load_regs(s, x as int),
    }
}

/// What the word `opcode` does to `s`: what its instruction does, or
/// `UnknownOpcode` if it encodes none.
pub open spec fn run_opcode(s: MachineState, opcode: u16, random: u8) -> Outcome {
    match decode_opcode(opcode) {
        Some(instruction) => execute(s, instruction, random),
        None => fail(s, Chip8Error::UnknownOpcode(opcode)),
    }
}

/// One step of a machine that waits for a key for `Vx`: if a key is down, the
/// smallest code among them goes to `Vx`, `pc` moves to the next instruction
/// and the wait is over; else nothing changes.
pub open spec fn poll_key(s: MachineState, x: int) -> MachineState {
    if any_key_down(s.keypad) {
        advance(
            MachineState { v: s.v.update(x, lowest_key_down(s.keypad) as u8), waiting: None, ..s },
        )
    } else {
        s
    }
}

/// One step: a machine that waits for a key polls the keypad; any other
/// fetches the word at `pc`, failing with `OutOfBounds` where it does not lie
/// within memory, and runs it.
pub open spec fn step(s: MachineState, random: u8) -> Outcome {
    match s.waiting {
        Some(x) => done(poll_key(s, x as int)),
        None => if fetchable(s) {
            run_opcode(s, opcode_at(s), random)
        } else {
            fail(s, Chip8Error::OutOfBounds)
        },
    }
}

} // verus!
