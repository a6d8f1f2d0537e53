//! The machine itself: fixed-size buffers and one method per instruction.

use crate::consts::{
    DISPLAY_HEIGHT, DISPLAY_WIDTH, FONTSET, FONTSET_SIZE, GLYPH_SIZE, KEYPAD_SIZE, MAX_ROM_SIZE,
    MEMORY_SIZE, PROGRAM_START, REGISTER_SIZE, STACK_SIZE,
};
use crate::error::Chip8Error;
use crate::instruction::Instruction;
use crate::model;
use crate::model::MachineState;
use crate::sprite::{
    collides_before, drawn_before, lemma_all_drawn, lemma_nothing_drawn, lemma_pixel_drawn,
    lemma_row_drawn, with_pixel_toggled,
};
use vstd::prelude::*;

verus! {

/// The virtual machine.
///
/// Its fields are private; what it holds is its view, a
/// [`MachineState`](crate::model::MachineState), and every method says in
/// terms of that view what it does.
pub struct Chip8 {
    memory: [u8; MEMORY_SIZE],
    gfx: [[u8; DISPLAY_WIDTH]; DISPLAY_HEIGHT],
    stack: [u16; STACK_SIZE],
    sp: usize,
    vx: [u8; REGISTER_SIZE],
    i: u16,
    pc: u16,
    delay_timer: u8,
    sound_timer: u8,
    keypad: [bool; KEYPAD_SIZE],
    redraw: bool,
    waiting: Option<u8>,
}

/// A byte from `fastrand`'s generator of the calling thread, by
/// `fastrand::u8` on the full range, the one range on which that function
/// cannot find its argument empty. Nothing is said of the byte: any value may
/// come back, and two calls need not agree.
#[verifier::external_body]
fn random_byte() -> (byte: u8) {
    fastrand::u8(..)
}

impl View for Chip8 {
    type V = MachineState;

    closed spec fn view(&self) -> MachineState {
        MachineState {
            memory: self.memory@,
            gfx: Seq::new(DISPLAY_HEIGHT as nat, |y: int| self.gfx@[y]@),
            stack: self.stack@.subrange(0, self.sp as int),
            v: self.vx@,
            i: self.i,
            pc: self.pc,
            delay_timer: self.delay_timer,
            sound_timer: self.sound_timer,
            keypad: self.keypad@,
            redraw: self.redraw,
            waiting: self.waiting,
        }
    }
}

impl Chip8 {
    /// What the fields of every machine satisfy: the stack pointer is within
    /// the stack, pixels are 0 or 1, and a machine that waits for a key
    /// stands on an instruction that lies within memory.
    #[verifier::type_invariant]
    spec fn inv(&self) -> bool {
        &&& self.sp <= STACK_SIZE
        &&& forall|y: int, x: int|
            0 <= y < DISPLAY_HEIGHT && 0 <= x < DISPLAY_WIDTH ==> #[trigger] self.gfx@[y]@[x] <= 1
        &&& (self.waiting matches Some(x) ==> x < REGISTER_SIZE && self.pc + 1 < MEMORY_SIZE)
    }

    /// The view of a machine that satisfies `inv` is well-formed.
    proof fn lemma_inv_gives_wf(&self)
        requires
            self.inv(),
        ensures
            self@.wf(),
    {
    }

    /// A machine with the font in low memory, a dark display, an empty
    /// stack, all registers, timers and keys at rest, and `pc` at the
    /// program start.
    pub fn new() -> (r: Self)
        ensures
            r@ == model::initial_state(),
            r@.wf(),
    {
        let mut memory = [0u8; MEMORY_SIZE];
        let mut n: usize = 0;
        while n < FONTSET_SIZE
            invariant
                n <= FONTSET_SIZE,
                forall|a: int| 0 <= a < n ==> memory@[a] == FONTSET@[a],
                forall|a: int| n <= a < MEMORY_SIZE ==> memory@[a] == 0,
            decreases FONTSET_SIZE - n,
        {
            memory[n] = FONTSET[n];
            n += 1;
        }
        let r = Chip8 {
            memory,
            gfx: [[0u8; DISPLAY_WIDTH]; DISPLAY_HEIGHT],
            stack: [0u16; STACK_SIZE],
            sp: 0,
            vx: [0u8; REGISTER_SIZE],
            i: 0,
            pc: PROGRAM_START as u16,
            delay_timer: 0,
            sound_timer: 0,
            keypad: [false; KEYPAD_SIZE],
            redraw: false,
            waiting: None,
        };
        proof {
            assert(r@.memory =~= model::initial_memory());
            assert(r@.gfx =~~= model::blank_display());
            assert(r@.stack =~= Seq::<u16>::empty());
            assert(r@.v =~= model::initial_state().v);
            assert(r@.keypad =~= model::initial_state().keypad);
            r.lemma_inv_gives_wf();
        }
        r
    }

    /// The word at `pc`, high byte first, or `OutOfBounds` where its second
    /// byte would lie past the end of memory.
    pub fn fetch(&self) -> (res: Result<u16, Chip8Error>)
        ensures
            model::fetchable(self@) ==> res == Ok::<u16, Chip8Error>(model::opcode_at(self@)),
            !model::fetchable(self@) ==> res == Err::<u16, Chip8Error>(Chip8Error::OutOfBounds),
            self@.wf(),
    {
        proof {
            use_type_invariant(self);
            self.lemma_inv_gives_wf();
        }
        let pc: usize = self.pc as usize;
        if pc + 1 >= MEMORY_SIZE {
            return Err(Chip8Error::OutOfBounds);
        }
        let hi: u8 = self.memory[pc];
        let lo: u8 = self.memory[pc + 1];
        assert((hi as u16) << 8 | (lo as u16) == hi * 256 + lo) by (bit_vector);
        Ok((hi as u16) << 8 | (lo as u16))
    }

    /// Copies a program image into memory from `PROGRAM_START` onwards.
    ///
    /// An image of more than `MAX_ROM_SIZE` bytes is refused with
    /// `RomTooLarge` and nothing changes. Else the image's bytes stand at
    /// `PROGRAM_START + k`, and the memory below it, the registers, the
    /// stack, the display, the timers and the keys are as they were.
    pub fn load_cartridge(&mut self, data: &Vec<u8>) -> (res: Result<(), Chip8Error>)
        ensures
            final(self)@ == model::load(old(self)@, data@).state,
            res == model::load(old(self)@, data@).result,
            res is Ok <==> data.len() <= MAX_ROM_SIZE,
            res is Ok ==> forall|k: int|
                0 <= k < data.len() ==> final(self)@.memory[PROGRAM_START + k] == data[k],
            forall|a: int| 0 <= a < PROGRAM_START ==> final(self)@.memory[a] == old(self)@.memory[a],
            final(self)@.wf(),
    {
        proof {
            use_type_invariant(&*self);
            self.lemma_inv_gives_wf();
        }
        let ghost s0 = self@;
        let len: usize = data.len();
        if len > MAX_ROM_SIZE {
            return Err(Chip8Error::RomTooLarge);
        }
        let mut k: usize = 0;
        while k < len
            invariant
                k <= len <= MAX_ROM_SIZE,
                len == data.len(),
                self@ == (MachineState { memory: self@.memory, ..s0 }),
                forall|a: int|
                    0 <= a < MEMORY_SIZE ==> self@.memory[a] == (if PROGRAM_START <= a
                        < PROGRAM_START + k {
                        data[a - PROGRAM_START]
                    } else {
                        s0.memory[a]
                    }),
            decreases len - k,
        {
            proof {
                use_type_invariant(&*self);
            }
            self.memory[PROGRAM_START + k] = data[k];
            k += 1;
        }
        proof {
            assert(self@.memory =~= model::loaded_memory(s0.memory, data@));
            use_type_invariant(&*self);
            self.lemma_inv_gives_wf();
        }
        Ok(())
    }

    /// One step, with a byte drawn at random for `Cxnn` to use.
    ///
    /// Whatever byte was drawn, the machine did what
    /// [`cycle_with`](Self::cycle_with) does with it.
    pub fn cycle(&mut self) -> (res: Result<(), Chip8Error>)
        ensures
            exists|random: u8|
                final(self)@ == (#[trigger] model::step(old(self)@, random)).state && res
                    == model::step(old(self)@, random).result,
            final(self)@.wf(),
    {
        let random: u8 = random_byte();
        self.cycle_with(random)
    }

    /// One step: a machine that waits for a key looks at the keypad, any
    /// other fetches the instruction at `pc` and executes it. `random` is
    /// the byte that `Cxnn` masks; no other instruction looks at it.
    ///
    /// A failed step leaves the machine as it was.
    pub fn cycle_with(&mut self, random: u8) -> (res: Result<(), Chip8Error>)
        ensures
            final(self)@ == model::step(old(self)@, random).state,
            res == model::step(old(self)@, random).result,
            final(self)@.wf(),
    {
        proof {
            use_type_invariant(&*self);
            self.lemma_inv_gives_wf();
        }
        let res = match self.waiting {
            Some(x) => {
                self.poll_key(x);
                Ok(())
            },
            None => match self.fetch() {
                Ok(opcode) => self.decode(opcode, random),
                Err(e) => Err(e),
            },
        };
        proof {
            use_type_invariant(&*self);
            self.lemma_inv_gives_wf();
        }
        res
    }

    /// Whether the display changed since this was last asked; asking
    /// clears the mark.
    #[allow(non_snake_case)]
    pub fn needsRedraw(&mut self) -> (changed: bool)
        ensures
            changed == old(self)@.redraw,
            final(self)@ == model::clear_redraw(old(self)@),
            final(self)@.wf(),
    {
        proof {
            use_type_invariant(&*self);
            self.lemma_inv_gives_wf();
        }
        let changed = self.redraw;
        self.redraw = false;
        changed
    }

    /// A copy of the display: `vram[y][x]` is 1 for a lit pixel, 0 for a dark one.
    #[allow(non_snake_case)]
    pub fn checkVram(&mut self) -> (vram: [[u8; DISPLAY_WIDTH]; DISPLAY_HEIGHT])
        ensures
            final(self)@ == old(self)@,
            final(self)@.wf(),
            forall|y: int, x: int|
                0 <= y < DISPLAY_HEIGHT && 0 <= x < DISPLAY_WIDTH ==> #[trigger] vram@[y]@[x]
                    == old(self)@.gfx[y][x],
            forall|y: int, x: int|
                0 <= y < DISPLAY_HEIGHT && 0 <= x < DISPLAY_WIDTH ==> #[trigger] vram@[y]@[x] <= 1,
    {
        proof {
            use_type_invariant(&*self);
            self.lemma_inv_gives_wf();
        }
        self.gfx
    }

    /// One tick of the 60 Hz clock: each timer that is not yet 0 goes down by 1.
    pub fn tick_timers(&mut self)
        ensures
            final(self)@ == model::tick(old(self)@),
            final(self)@.wf(),
    {
        proof {
            use_type_invariant(&*self);
            self.lemma_inv_gives_wf();
        }
        if self.delay_timer > 0 {
            self.delay_timer = self.delay_timer - 1;
        }
        if self.sound_timer > 0 {
            self.sound_timer = self.sound_timer - 1;
        }
    }

    /// Records that key `code` went down (`pressed`) or up.
    pub fn set_key_state(&mut self, code: u8, pressed: bool)
        requires
            code < KEYPAD_SIZE,
        ensures
            final(self)@ == model::set_key(old(self)@, code as int, pressed),
            final(self)@.wf(),
    {
        proof {
            use_type_invariant(&*self);
            self.lemma_inv_gives_wf();
        }
        self.keypad[code as usize] = pressed;
    }

    /// The program counter.
    pub fn pc(&self) -> (pc: u16)
        ensures
            pc == self@.pc,
            self@.wf(),
    {
        proof {
            use_type_invariant(self);
            self.lemma_inv_gives_wf();
        }
        self.pc
    }

    /// The address register `I`.
    pub fn index(&self) -> (i: u16)
        ensures
            i == self@.i,
            self@.wf(),
    {
        proof {
            use_type_invariant(self);
            self.lemma_inv_gives_wf();
        }
        self.i
    }

    /// The general register `Vx`.
    pub fn register(&self, x: u8) -> (value: u8)
        requires
            x < REGISTER_SIZE,
        ensures
            value == self@.v[x as int],
            self@.wf(),
    {
        proof {
            use_type_invariant(self);
            self.lemma_inv_gives_wf();
        }
        self.vx[x as usize]
    }

    /// The byte of memory at `address`.
    pub fn memory_at(&self, address: usize) -> (value: u8)
        requires
            address < MEMORY_SIZE,
        ensures
            value == self@.memory[address as int],
            self@.wf(),
    {
        proof {
            use_type_invariant(self);
            self.lemma_inv_gives_wf();
        }
        self.memory[address]
    }

    /// How many calls have not returned yet.
    pub fn stack_depth(&self) -> (depth: usize)
        ensures
            depth == self@.stack.len(),
            depth <= STACK_SIZE,
            self@.wf(),
    {
        proof {
            use_type_invariant(self);
            self.lemma_inv_gives_wf();
        }
        self.sp
    }

    /// The delay timer.
    pub fn delay_timer(&self) -> (value: u8)
        ensures
            value == self@.delay_timer,
            self@.wf(),
    {
        proof {
            use_type_invariant(self);
            self.lemma_inv_gives_wf();
        }
        self.delay_timer
    }

    /// The sound timer.
    pub fn sound_timer(&self) -> (value: u8)
        ensures
            value == self@.sound_timer,
            self@.wf(),
    {
        proof {
            use_type_invariant(self);
            self.lemma_inv_gives_wf();
        }
        self.sound_timer
    }

    /// The register that the machine waits to fill with a key, if it waits.
    pub fn awaiting_key(&self) -> (target: Option<u8>)
        ensures
            target == self@.waiting,
            target matches Some(x) ==> x < REGISTER_SIZE,
            self@.wf(),
    {
        proof {
            use_type_invariant(self);
            self.lemma_inv_gives_wf();
        }
        self.waiting
    }

    /// Whether the key whose code is `code` is down; no key has a code above 15.
    pub fn key_is_down(&self, code: u8) -> (down: bool)
        ensures
            down == model::key_down(self@, code as int),
            self@.wf(),
    {
        proof {
            use_type_invariant(self);
            self.lemma_inv_gives_wf();
        }
        (code as usize) < KEYPAD_SIZE && self.keypad[code as usize]
    }

    /// One step of a machine that waits for a key for `Vx`.
    fn poll_key(&mut self, x: u8)
        requires
            old(self)@.waiting == Some(x),
        ensures
            final(self)@ == model::poll_key(old(self)@, x as int),
    {
        proof {
            use_type_invariant(&*self);
        }
        let mut k: u8 = 0;
        while k < 16
            invariant
                k <= 16,
                x < 16,
                self.pc + 1 < MEMORY_SIZE,
                *self == *old(self),
                forall|j: int| 0 <= j < k ==> !self@.keypad[j],
            decreases 16 - k,
        {
            if self.keypad[k as usize] {
                proof {
                    use_type_invariant(&*self);
                    assert(model::is_lowest_key_down(self@.keypad, k as int));
                }
                self.waiting = None;
                self.vx[x as usize] = k;
                self.pc = self.pc + 2;
                return ;
            }
            k += 1;
        }
    }

    /// Executes the instruction that the word `opcode` encodes, or fails
    /// with `UnknownOpcode` if it encodes none.
    fn decode(&mut self, opcode: u16, random: u8) -> (res: Result<(), Chip8Error>)
        requires
            model::ready(old(self)@),
        ensures
            final(self)@ == model::run_opcode(old(self)@, opcode, random).state,
            res == model::run_opcode(old(self)@, opcode, random).result,
    {
        match Instruction::from_opcode(opcode) {
            None => Err(Chip8Error::UnknownOpcode(opcode)),
            Some(Instruction::Cls) => {
                self.op_00e0();
                Ok(())
            },
            Some(Instruction::Ret) => self.op_00ee(),
            Some(Instruction::Jp { nnn }) => {
                self.op_1nnn(nnn);
                Ok(())
            },
            Some(Instruction::Call { nnn }) => self.op_2nnn(nnn),
            Some(Instruction::SeImm { x, nn }) => {
                self.op_3xnn(x, nn);
                Ok(())
            },
            Some(Instruction::SneImm { x, nn }) => {
                self.op_4xnn(x, nn);
                Ok(())
            },
            Some(Instruction::SeReg { x, y }) => {
                self.op_5xy0(x, y);
                Ok(())
            },
            Some(Instruction::LdImm { x, nn }) => {
                self.op_6xnn(x, nn);
                Ok(())
            },
            Some(Instruction::AddImm { x, nn }) => {
                self.op_7xnn(x, nn);
                Ok(())
            },
            Some(Instruction::LdReg { x, y }) => {
                self.op_8xy0(x, y);
                Ok(())
            },
            Some(Instruction::Or { x, y }) => {
                self.op_8xy1(x, y);
                Ok(())
            },
            Some(Instruction::And { x, y }) => {
                self.op_8xy2(x, y);
                Ok(())
            },
            Some(Instruction::Xor { x, y }) => {
                self.op_8xy3(x, y);
                Ok(())
            },
            Some(Instruction::AddReg { x, y }) => {
                self.op_8xy4(x, y);
                Ok(())
            },
            Some(Instruction::SubReg { x, y }) => {
                self.op_8xy5(x, y);
                Ok(())
            },
            Some(Instruction::Shr { x }) => {
                self.op_8xy6(x);
                Ok(())
            },
            Some(Instruction::SubnReg { x, y }) => {
                self.op_8xy7(x, y);
                Ok(())
            },
            Some(Instruction::Shl { x }) => {
                self.op_8xye(x);
                Ok(())
            },
            Some(Instruction::SneReg { x, y }) => {
                self.op_9xy0(x, y);
                Ok(())
            },
            Some(Instruction::LdI { nnn }) => {
                self.op_annn(nnn);
                Ok(())
            },
            Some(Instruction::JpV0 { nnn }) => {
                self.op_bnnn(nnn);
                Ok(())
            },
            Some(Instruction::Rnd { x, nn }) => {
                self.op_cxnn(x, nn, random);
                Ok(())
            },
            Some(Instruction::Drw { x, y, n }) => self.op_dxyn(x, y, n),
            Some(Instruction::Skp { x }) => {
                self.op_ex9e(x);
                Ok(())
            },
            Some(Instruction::Sknp { x }) => {
                self.op_exa1(x);
                Ok(())
            },
            Some(Instruction::LdVxDt { x }) => {
                self.op_fx07(x);
                Ok(())
            },
            Some(Instruction::LdVxK { x }) => {
                self.op_fx0a(x);
                Ok(())
            },
            Some(Instruction::LdDtVx { x }) => {
                self.op_fx15(x);
                Ok(())
            },
            Some(Instruction::LdStVx { x }) => {
                self.op_fx18(x);
                Ok(())
            },
            Some(Instruction::AddI { x }) => {
                self.op_fx1e(x);
                Ok(())
            },
            Some(Instruction::LdF { x }) => {
                self.op_fx29(x);
                Ok(())
            },
            Some(Instruction::LdB { x }) => self.op_fx33(x),
            Some(Instruction::StoreRegs { x }) => self.op_fx55(x),
            Some(Instruction::LoadRegs { x }) => self.op_fx65(x),
        }
    }

    /// `Annn`: `I = nnn`.
    fn op_annn(&mut self, nnn: u16)
        requires
            model::ready(old(self)@),
        ensures
            final(self)@ == model::ld_i(old(self)@, nnn),
    {
        proof {
            use_type_invariant(&*self);
        }
        self.i = nnn;
        self.pc = self.pc + 2;
    }

    /// `Bnnn`: jumps to `nnn + V0`.
    fn op_bnnn(&mut self, nnn: u16)
        requires
            nnn < 0x1000,
            model::ready(old(self)@),
        ensures
            final(self)@ == model::jp_v0(old(self)@, nnn),
    {
        proof {
            use_type_invariant(&*self);
        }
        self.pc = nnn + self.vx[0] as u16;
    }

    /// `1nnn`: jumps to `nnn`.
    fn op_1nnn(&mut self, nnn: u16)
        requires
            model::ready(old(self)@),
        ensures
            final(self)@ == model::jp(old(self)@, nnn),
    {
        proof {
            use_type_invariant(&*self);
        }
        self.pc = nnn;
    }

    /// `2nnn`: calls the subroutine at `nnn`; the instruction after the
    /// call is where it will return to.
    fn op_2nnn(&mut self, nnn: u16) -> (res: Result<(), Chip8Error>)
        requires
            model::ready(old(self)@),
        ensures
            final(self)@ == model::call(old(self)@, nnn).state,
            res == model::call(old(self)@, nnn).result,
    {
        proof {
            use_type_invariant(&*self);
        }
        let sp: usize = self.sp;
        if sp >= STACK_SIZE {
            return Err(Chip8Error::StackOverflow);
        }
        self.stack[sp] = self.pc + 2;
        self.sp = sp + 1;
        self.pc = nnn;
        assert(self@.stack =~= old(self)@.stack.push((old(self)@.pc + 2) as u16));
        Ok(())
    }

    /// `3xnn`: skips the next instruction if `Vx == nn`.
    fn op_3xnn(&mut self, x: u8, nn: u8)
        requires
            x < 16,
            model::ready(old(self)@),
        ensures
            final(self)@ == model::se_imm(old(self)@, x as int, nn),
    {
        proof {
            use_type_invariant(&*self);
        }
        if self.vx[x as usize] == nn {
            self.pc = self.pc + 4;
        } else {
            self.pc = self.pc + 2;
        }
    }

    /// `4xnn`: skips the next instruction if `Vx != nn`.
    fn op_4xnn(&mut self, x: u8, nn: u8)
        requires
            x < 16,
            model::ready(old(self)@),
        ensures
            final(self)@ == model::sne_imm(old(self)@, x as int, nn),
    {
        proof {
            use_type_invariant(&*self);
        }
        if self.vx[x as usize] != nn {
            self.pc = self.pc + 4;
        } else {
            self.pc = self.pc + 2;
        }
    }

    /// `5xy0`: skips the next instruction if `Vx == Vy`.
    fn op_5xy0(&mut self, x: u8, y: u8)
        requires
            x < 16,
            y < 16,
            model::ready(old(self)@),
        ensures
            final(self)@ == model::se_reg(old(self)@, x as int, y as int),
    {
        proof {
            use_type_invariant(&*self);
        }
        if self.vx[x as usize] == self.vx[y as usize] {
            self.pc = self.pc + 4;
        } else {
            self.pc = self.pc + 2;
        }
    }

    /// `6xnn`: `Vx = nn`.
    fn op_6xnn(&mut self, x: u8, nn: u8)
        requires
            x < 16,
            model::ready(old(self)@),
        ensures
            final(self)@ == model::ld_imm(old(self)@, x as int, nn),
    {
        proof {
            use_type_invariant(&*self);
        }
        self.vx[x as usize] = nn;
        self.pc = self.pc + 2;
    }

    /// `7xnn`: `Vx = Vx + nn`, wrapping; `VF` is left alone.
    fn op_7xnn(&mut self, x: u8, nn: u8)
        requires
            x < 16,
            model::ready(old(self)@),
        ensures
            final(self)@ == model::add_imm(old(self)@, x as int, nn),
    {
        proof {
            use_type_invariant(&*self);
        }
        let value: u8 = self.vx[x as usize].wrapping_add(nn);
        self.vx[x as usize] = value;
        self.pc = self.pc + 2;
    }

    /// `Cxnn`: `Vx = random & nn`.
    fn op_cxnn(&mut self, x: u8, nn: u8, random: u8)
        requires
            x < 16,
            model::ready(old(self)@),
        ensures
            final(self)@ == model::rnd(old(self)@, x as int, nn, random),
    {
        proof {
            use_type_invariant(&*self);
        }
        self.vx[x as usize] = random & nn;
        self.pc = self.pc + 2;
    }

    /// `8xy0`: `Vx = Vy`.
    fn op_8xy0(&mut self, x: u8, y: u8)
        requires
            x < 16,
            y < 16,
            model::ready(old(self)@),
        ensures
            final(self)@ == model::ld_reg(old(self)@, x as int, y as int),
    {
        proof {
            use_type_invariant(&*self);
        }
        self.vx[x as usize] = self.vx[y as usize];
        self.pc = self.pc + 2;
    }

    /// `8xy1`: `Vx = Vx | Vy`.
    fn op_8xy1(&mut self, x: u8, y: u8)
        requires
            x < 16,
            y < 16,
            model::ready(old(self)@),
        ensures
            final(self)@ == model::or(old(self)@, x as int, y as int),
    {
        proof {
            use_type_invariant(&*self);
        }
        let value: u8 = self.vx[x as usize] | self.vx[y as usize];
        self.vx[x as usize] = value;
        self.pc = self.pc + 2;
    }

    /// `8xy2`: `Vx = Vx & Vy`.
    fn op_8xy2(&mut self, x: u8, y: u8)
        requires
            x < 16,
            y < 16,
            model::ready(old(self)@),
        ensures
            final(self)@ == model::and(old(self)@, x as int, y as int),
    {
        proof {
            use_type_invariant(&*self);
        }
        let value: u8 = self.vx[x as usize] & self.vx[y as usize];
        self.vx[x as usize] = value;
        self.pc = self.pc + 2;
    }

    /// `8xy3`: `Vx = Vx ^ Vy`.
    fn op_8xy3(&mut self, x: u8, y: u8)
        requires
            x < 16,
            y < 16,
            model::ready(old(self)@),
        ensures
            final(self)@ == model::xor(old(self)@, x as int, y as int),
    {
        proof {
            use_type_invariant(&*self);
        }
        let value: u8 = self.vx[x as usize] ^ self.vx[y as usize];
        self.vx[x as usize] = value;
        self.pc = self.pc + 2;
    }

    /// `8xy4`: `Vx = Vx + Vy`, wrapping; `VF` says whether there was a carry.
    fn op_8xy4(&mut self, x: u8, y: u8)
        requires
            x < 16,
            y < 16,
            model::ready(old(self)@),
        ensures
            final(self)@ == model::add_reg(old(self)@, x as int, y as int),
    {
        proof {
            use_type_invariant(&*self);
        }
        let a: u8 = self.vx[x as usize];
        let b: u8 = self.vx[y as usize];
        self.vx[0xF] = if a as u16 + b as u16 > 255 { 1 } else { 0 };
        self.vx[x as usize] = a.wrapping_add(b);
        self.pc = self.pc + 2;
    }

    /// `8xy5`: `Vx = Vx - Vy`, wrapping; `VF` says whether there was no borrow.
    fn op_8xy5(&mut self, x: u8, y: u8)
        requires
            x < 16,
            y < 16,
            model::ready(old(self)@),
        ensures
            final(self)@ == model::sub_reg(old(self)@, x as int, y as int),
    {
        proof {
            use_type_invariant(&*self);
        }
        let a: u8 = self.vx[x as usize];
        let b: u8 = self.vx[y as usize];
        self.vx[0xF] = if a >= b { 1 } else { 0 };
        self.vx[x as usize] = a.wrapping_sub(b);
        self.pc = self.pc + 2;
    }

    /// `8xy6`: `Vx = Vx >> 1`; `VF` holds the bit that fell out.
    fn op_8xy6(&mut self, x: u8)
        requires
            x < 16,
            model::ready(old(self)@),
        ensures
            final(self)@ == model::shr(old(self)@, x as int),
    {
        proof {
            use_type_invariant(&*self);
        }
        let a: u8 = self.vx[x as usize];
        assert(a >> 1 == a / 2) by (bit_vector);
        assert((a & 1 == 1) == (a % 2 == 1)) by (bit_vector);
        self.vx[0xF] = if a & 1 == 1 { 1 } else { 0 };
        self.vx[x as usize] = a >> 1;
        self.pc = self.pc + 2;
    }

    /// `8xy7`: `Vx = Vy - Vx`, wrapping; `VF` says whether there was no borrow.
    fn op_8xy7(&mut self, x: u8, y: u8)
        requires
            x < 16,
            y < 16,
            model::ready(old(self)@),
        ensures
            final(self)@ == model::subn_reg(old(self)@, x as int, y as int),
    {
        proof {
            use_type_invariant(&*self);
        }
        let a: u8 = self.vx[x as usize];
        let b: u8 = self.vx[y as usize];
        self.vx[0xF] = if b >= a { 1 } else { 0 };
        self.vx[x as usize] = b.wrapping_sub(a);
        self.pc = self.pc + 2;
    }

    /// `8xyE`: `Vx = Vx << 1`; `VF` holds the bit that fell out.
    fn op_8xye(&mut self, x: u8)
        requires
            x < 16,
            model::ready(old(self)@),
        ensures
            final(self)@ == model::shl(old(self)@, x as int),
    {
        proof {
            use_type_invariant(&*self);
        }
        let a: u8 = self.vx[x as usize];
        assert(a << 1 == (a * 2) % 256) by (bit_vector);
        assert(((a >> 7) & 1 == 1) == (a >= 128)) by (bit_vector);
        self.vx[0xF] = if (a >> 7) & 1 == 1 { 1 } else { 0 };
        self.vx[x as usize] = a << 1;
        self.pc = self.pc + 2;
    }

    /// `9xy0`: skips the next instruction if `Vx != Vy`.
    fn op_9xy0(&mut self, x: u8, y: u8)
        requires
            x < 16,
            y < 16,
            model::ready(old(self)@),
        ensures
            final(self)@ == model::sne_reg(old(self)@, x as int, y as int),
    {
        proof {
            use_type_invariant(&*self);
        }
        if self.vx[x as usize] != self.vx[y as usize] {
            self.pc = self.pc + 4;
        } else {
            self.pc = self.pc + 2;
        }
    }

    /// `Dxyn`: draws the `n`-row sprite at `I` at (`Vx`, `Vy`), wrapping
    /// around the edges, and leaves in `VF` whether a lit pixel went dark.
    fn op_dxyn(&mut self, x: u8, y: u8, n: u8) -> (res: Result<(), Chip8Error>)
        requires
            x < 16,
            y < 16,
            n < 16,
            model::ready(old(self)@),
        ensures
            final(self)@ == model::drw(old(self)@, x as int, y as int, n as int).state,
            res == model::drw(old(self)@, x as int, y as int, n as int).result,
    {
        proof {
            use_type_invariant(&*self);
            self.lemma_inv_gives_wf();
        }
        let ghost s0 = self@;
        let ghost (xi, yi, ni) = (x as int, y as int, n as int);
        let i: usize = self.i as usize;
        if n > 0 && i + n as usize > MEMORY_SIZE {
            return Err(Chip8Error::OutOfBounds);
        }
        let left: usize = self.vx[x as usize] as usize;
        let top: usize = self.vx[y as usize] as usize;
        let mut collision = false;
        let mut row: u8 = 0;
        proof {
            lemma_nothing_drawn(s0, xi, yi, ni);
        }
        while row < n
            invariant
                row <= n < 16,
                x < 16,
                y < 16,
                xi == x,
                yi == y,
                ni == n,
                s0.wf(),
                i == s0.i,
                n > 0 ==> i + n <= MEMORY_SIZE,
                left == s0.v[xi],
                top == s0.v[yi],
                self@ == (MachineState { gfx: self@.gfx, ..s0 }),
                self@.gfx == drawn_before(s0, xi, yi, ni, row as int, 0),
                collision == collides_before(s0, xi, yi, ni, row as int, 0),
            decreases n - row,
        {
            let byte: u8 = self.memory[i + row as usize];
            let py: usize = (top + row as usize) % DISPLAY_HEIGHT;
            let mut col: u8 = 0;
            while col < 8
                invariant
                    col <= 8,
                    row < n < 16,
                    x < 16,
                    y < 16,
                    xi == x,
                    yi == y,
                    ni == n,
                    s0.wf(),
                    i == s0.i,
                    left == s0.v[xi],
                    top == s0.v[yi],
                    s0.i + n <= MEMORY_SIZE,
                    byte == s0.memory[s0.i + row],
                    py == (top + row) % (DISPLAY_HEIGHT as int),
                    self@ == (MachineState { gfx: self@.gfx, ..s0 }),
                    self@.gfx == drawn_before(s0, xi, yi, ni, row as int, col as int),
                    collision == collides_before(s0, xi, yi, ni, row as int, col as int),
                decreases 8 - col,
            {
                proof {
                    use_type_invariant(&*self);
                    lemma_pixel_drawn(s0, xi, yi, ni, row as int, col as int);
                }
                let px: usize = (left + col as usize) % DISPLAY_WIDTH;
                let ghost before = self@.gfx;
                let shift: u8 = 7 - col;
                if (byte >> shift) & 1 == 1 {
                    if self.gfx[py][px] == 1 {
                        collision = true;
                        self.gfx[py][px] = 0;
                    } else {
                        self.gfx[py][px] = 1;
                    }
                    assert(self@.gfx =~~= with_pixel_toggled(before, px as int, py as int));
                }
                col += 1;
            }
            proof {
                lemma_row_drawn(s0, xi, yi, ni, row as int);
            }
            row += 1;
        }
        proof {
            use_type_invariant(&*self);
            lemma_all_drawn(s0, xi, yi, ni);
        }
        self.vx[0xF] = if collision { 1 } else { 0 };
        self.redraw = true;
        self.pc = self.pc + 2;
        Ok(())
    }

    /// `Ex9E`: skips the next instruction if the key whose code is in `Vx` is down.
    fn op_ex9e(&mut self, x: u8)
        requires
            x < 16,
            model::ready(old(self)@),
        ensures
            final(self)@ == model::skp(old(self)@, x as int),
    {
        proof {
            use_type_invariant(&*self);
        }
        if self.key_is_down(self.vx[x as usize]) {
            self.pc = self.pc + 4;
        } else {
            self.pc = self.pc + 2;
        }
    }

    /// `ExA1`: skips the next instruction if the key whose code is in `Vx` is not down.
    fn op_exa1(&mut self, x: u8)
        requires
            x < 16,
            model::ready(old(self)@),
        ensures
            final(self)@ == model::sknp(old(self)@, x as int),
    {
        proof {
            use_type_invariant(&*self);
        }
        if !self.key_is_down(self.vx[x as usize]) {
            self.pc = self.pc + 4;
        } else {
            self.pc = self.pc + 2;
        }
    }

    /// `Fx07`: `Vx` = delay timer.
    fn op_fx07(&mut self, x: u8)
        requires
            x < 16,
            model::ready(old(self)@),
        ensures
            final(self)@ == model::ld_vx_dt(old(self)@, x as int),
    {
        proof {
            use_type_invariant(&*self);
        }
        self.vx[x as usize] = self.delay_timer;
        self.pc = self.pc + 2;
    }

    /// `Fx0A`: starts the wait for a key for `Vx`. `pc` stays on this
    /// instruction until a later step finds a key down.
    fn op_fx0a(&mut self, x: u8)
        requires
            x < 16,
            model::ready(old(self)@),
        ensures
            final(self)@ == model::ld_vx_k(old(self)@, x),
    {
        proof {
            use_type_invariant(&*self);
        }
        self.waiting = Some(x);
    }

    /// `Fx15`: delay timer = `Vx`.
    fn op_fx15(&mut self, x: u8)
        requires
            x < 16,
            model::ready(old(self)@),
        ensures
            final(self)@ == model::ld_dt_vx(old(self)@, x as int),
    {
        proof {
            use_type_invariant(&*self);
        }
        self.delay_timer = self.vx[x as usize];
        self.pc = self.pc + 2;
    }

    /// `Fx18`: sound timer = `Vx`.
    fn op_fx18(&mut self, x: u8)
        requires
            x < 16,
            model::ready(old(self)@),
        ensures
            final(self)@ == model::ld_st_vx(old(self)@, x as int),
    {
        proof {
            use_type_invariant(&*self);
        }
        self.sound_timer = self.vx[x as usize];
        self.pc = self.pc + 2;
    }

    /// `Fx1E`: `I = I + Vx`, wrapping at 16 bits; `VF` is left alone.
    fn op_fx1e(&mut self, x: u8)
        requires
            x < 16,
            model::ready(old(self)@),
        ensures
            final(self)@ == model::add_i(old(self)@, x as int),
    {
        proof {
            use_type_invariant(&*self);
        }
        self.i = self.i.wrapping_add(self.vx[x as usize] as u16);
        self.pc = self.pc + 2;
    }

    /// `Fx29`: `I` = where the glyph of the digit in the low four bits of `Vx` starts.
    fn op_fx29(&mut self, x: u8)
        requires
            x < 16,
            model::ready(old(self)@),
        ensures
            final(self)@ == model::ld_f(old(self)@, x as int),
    {
        proof {
            use_type_invariant(&*self);
        }
        let digit: u8 = self.vx[x as usize] % 16;
        self.i = GLYPH_SIZE as u16 * digit as u16;
        self.pc = self.pc + 2;
    }

    /// `Fx33`: writes the hundreds, tens and ones of `Vx` to `I`, `I + 1`, `I + 2`.
    fn op_fx33(&mut self, x: u8) -> (res: Result<(), Chip8Error>)
        requires
            x < 16,
            model::ready(old(self)@),
        ensures
            final(self)@ == model::ld_b(old(self)@, x as int).state,
            res == model::ld_b(old(self)@, x as int).result,
    {
        proof {
            use_type_invariant(&*self);
        }
        let i: usize = self.i as usize;
        if i + 2 >= MEMORY_SIZE {
            return Err(Chip8Error::OutOfBounds);
        }
        let value: u8 = self.vx[x as usize];
        self.memory[i] = value / 100;
        self.memory[i + 1] = (value / 10) % 10;
        self.memory[i + 2] = value % 10;
        self.pc = self.pc + 2;
        Ok(())
    }

    /// `Fx55`: copies `V0..=Vx` to memory at `I` onwards; `I` stays.
    fn op_fx55(&mut self, x: u8) -> (res: Result<(), Chip8Error>)
        requires
            x < 16,
            model::ready(old(self)@),
        ensures
            final(self)@ == model::store_regs(old(self)@, x as int).state,
            res == model::store_regs(old(self)@, x as int).result,
    {
        proof {
            use_type_invariant(&*self);
        }
        let ghost s0 = self@;
        let i: usize = self.i as usize;
        let last: usize = x as usize;
        if i + last >= MEMORY_SIZE {
            return Err(Chip8Error::OutOfBounds);
        }
        let mut k: usize = 0;
        while k <= last
            invariant
                k <= last + 1,
                last < 16,
                i == s0.i,
                i + last < MEMORY_SIZE,
                self@ == (MachineState { memory: self@.memory, ..s0 }),
                forall|a: int|
                    0 <= a < MEMORY_SIZE ==> self@.memory[a] == (if i <= a < i + k {
                        s0.v[a - i]
                    } else {
                        s0.memory[a]
                    }),
            decreases last + 1 - k,
        {
            proof {
                use_type_invariant(&*self);
            }
            self.memory[i + k] = self.vx[k];
            k += 1;
        }
        proof {
            use_type_invariant(&*self);
        }
        self.pc = self.pc + 2;
        assert(self@.memory =~= model::store_regs(s0, x as int).state.memory);
        Ok(())
    }

    /// `Fx65`: fills `V0..=Vx` from memory at `I` onwards; `I` stays.
    fn op_fx65(&mut self, x: u8) -> (res: Result<(), Chip8Error>)
        requires
            x < 16,
            model::ready(old(self)@),
        ensures
            final(self)@ == model::load_regs(old(self)@, x as int).state,
            res == model::load_regs(old(self)@, x as int).result,
    {
        proof {
            use_type_invariant(&*self);
        }
        let ghost s0 = self@;
        let i: usize = self.i as usize;
        let last: usize = x as usize;
        if i + last >= MEMORY_SIZE {
            return Err(Chip8Error::OutOfBounds);
        }
        let mut k: usize = 0;
        while k <= last
            invariant
                k <= last + 1,
                last < 16,
                i == s0.i,
                i + last < MEMORY_SIZE,
                self@ == (MachineState { v: self@.v, ..s0 }),
                forall|j: int|
                    0 <= j < REGISTER_SIZE ==> self@.v[j] == (if j < k {
                        s0.memory[i + j]
                    } else {
                        s0.v[j]
                    }),
            decreases last + 1 - k,
        {
            proof {
                use_type_invariant(&*self);
            }
            self.vx[k] = self.memory[i + k];
            k += 1;
        }
        proof {
            use_type_invariant(&*self);
        }
        self.pc = self.pc + 2;
        assert(self@.v =~= model::load_regs(s0, x as int).state.v);
        Ok(())
    }

    /// `00E0`: darkens every pixel and marks the display as changed.
    fn op_00e0(&mut self)
        requires
            model::ready(old(self)@),
        ensures
            final(self)@ == model::cls(old(self)@),
    {
        proof {
            use_type_invariant(&*self);
        }
        let ghost s0 = self@;
        let mut y: usize = 0;
        while y < DISPLAY_HEIGHT
            invariant
                y <= DISPLAY_HEIGHT,
                self@ == (MachineState { gfx: self@.gfx, ..s0 }),
                forall|r: int, c: int|
                    0 <= r < y && 0 <= c < DISPLAY_WIDTH ==> #[trigger] self@.gfx[r][c] == 0,
            decreases DISPLAY_HEIGHT - y,
        {
            let mut x: usize = 0;
            while x < DISPLAY_WIDTH
                invariant
                    x <= DISPLAY_WIDTH,
                    y < DISPLAY_HEIGHT,
                    self@ == (MachineState { gfx: self@.gfx, ..s0 }),
                    forall|r: int, c: int|
                        0 <= r < y && 0 <= c < DISPLAY_WIDTH ==> #[trigger] self@.gfx[r][c] == 0,
                    forall|c: int| 0 <= c < x ==> #[trigger] self@.gfx[y as int][c] == 0,
                decreases DISPLAY_WIDTH - x,
            {
                proof {
                    use_type_invariant(&*self);
                }
                let ghost before = self@.gfx;
                self.gfx[y][x] = 0;
                assert(self@.gfx =~~= before.update(y as int, before[y as int].update(x as int, 0u8)));
                x += 1;
            }
            y += 1;
        }
        proof {
            use_type_invariant(&*self);
        }
        self.redraw = true;
        self.pc = self.pc + 2;
        assert(self@.gfx =~~= model::blank_display());
    }

    /// `00EE`: returns to the instruction after the newest call.
    fn op_00ee(&mut self) -> (res: Result<(), Chip8Error>)
        requires
            model::ready(old(self)@),
        ensures
            final(self)@ == model::ret(old(self)@).state,
            res == model::ret(old(self)@).result,
    {
        proof {
            use_type_invariant(&*self);
        }
        if self.sp == 0 {
            return Err(Chip8Error::StackUnderflow);
        }
        let sp: usize = self.sp - 1;
        self.pc = self.stack[sp];
        self.sp = sp;
        assert(self@.stack =~= old(self)@.stack.drop_last());
        Ok(())
    }
}

} // verus!
