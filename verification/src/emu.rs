use vstd::prelude::*;
use crate::display::draw_sprite;
use crate::error::EmuError;
use crate::instruction::{decode, Instruction};
use crate::random::random_byte;
use crate::semantics::{
    any_pressed, can_fetch, draws_random, execute_spec, first_pressed, instruction_effect,
    is_arithmetic, is_flow, keypress_spec, lemma_first_pressed, lemma_random_unused, load_regs,
    load_spec, move_pc, opcode_at, rom_fits, set_reg, set_reg_and_flag, settle, skip_if,
    step_spec, store_regs, tick_timers_spec,
};
use crate::state::{
    initial_state, State, FLAG_REG, FONT, FONT_SIZE, GLYPH_SIZE, MAX_ROM_SIZE, NUM_KEYS, NUM_REGS,
    RAM_SIZE, SCREEN_SIZE, STACK_SIZE, START_ADDR,
};

verus! {

/// The virtual machine: memory, registers, call stack, display, keypad
/// latches and the two timers, owned as one value.
pub struct Emu {
    pc: u16,
    ram: [u8; RAM_SIZE],
    screen: [bool; SCREEN_SIZE],
    v_reg: [u8; NUM_REGS],
    i_reg: u16,
    sp: u16,
    stack: [u16; STACK_SIZE],
    keys: [bool; NUM_KEYS],
    dt: u8,
    st: u8,
}

impl View for Emu {
    type V = State;

    closed spec fn view(&self) -> State {
        State {
            pc: self.pc,
            ram: self.ram@,
            screen: self.screen@,
            v: self.v_reg@,
            i: self.i_reg,
            sp: self.sp as nat,
            stack: self.stack@,
            keys: self.keys@,
            dt: self.dt,
            st: self.st,
        }
    }
}

/// Writes the font table to the bottom of `ram`.
fn install_font(ram: &mut [u8; RAM_SIZE])
    ensures
        forall|a: int| 0 <= a < FONT_SIZE ==> final(ram)@[a] == FONT[a],
        forall|a: int| FONT_SIZE <= a < RAM_SIZE ==> final(ram)@[a] == old(ram)@[a],
    no_unwind
{
    let mut k: usize = 0;
    while k < FONT_SIZE
        invariant
            k <= FONT_SIZE,
            forall|a: int| 0 <= a < k ==> ram@[a] == FONT[a],
            forall|a: int| FONT_SIZE <= a < RAM_SIZE ==> ram@[a] == old(ram)@[a],
        decreases FONT_SIZE - k,
    {
        ram[k] = FONT[k];
        k += 1;
    }
}

/// Copies V0 to V`x` into `ram` from address `i` on.
fn store_registers(ram: &mut [u8; RAM_SIZE], v: &[u8; NUM_REGS], i: usize, x: usize)
    requires
        x < NUM_REGS,
        i + x < RAM_SIZE,
    ensures
        final(ram)@ == store_regs(old(ram)@, v@, i as int, x as int),
    no_unwind
{
    let mut k: usize = 0;
    while k <= x
        invariant
            k <= x + 1,
            x < NUM_REGS,
            i + x < RAM_SIZE,
            forall|a: int|
                0 <= a < RAM_SIZE ==> ram@[a] == if i <= a < i + k {
                    v@[a - i]
                } else {
                    old(ram)@[a]
                },
        decreases x + 1 - k,
    {
        ram[i + k] = v[k];
        k += 1;
    }
    assert(ram@ =~= store_regs(old(ram)@, v@, i as int, x as int));
}

/// Copies the bytes of `ram` from address `i` on into V0 to V`x`.
fn load_registers(v: &mut [u8; NUM_REGS], ram: &[u8; RAM_SIZE], i: usize, x: usize)
    requires
        x < NUM_REGS,
        i + x < RAM_SIZE,
    ensures
        final(v)@ == load_regs(ram@, old(v)@, i as int, x as int),
    no_unwind
{
    let mut k: usize = 0;
    while k <= x
        invariant
            k <= x + 1,
            x < NUM_REGS,
            i + x < RAM_SIZE,
            forall|j: int|
                0 <= j < NUM_REGS ==> v@[j] == if j < k {
                    ram@[i + j]
                } else {
                    old(v)@[j]
                },
        decreases x + 1 - k,
    {
        v[k] = ram[i + k];
        k += 1;
    }
    assert(v@ =~= load_regs(ram@, old(v)@, i as int, x as int));
}

impl Emu {
    /// The stack pointer never exceeds the number of stack slots.
    #[verifier::type_invariant]
    spec fn stack_pointer_in_range(self) -> bool {
        self.sp <= STACK_SIZE
    }

    /// A machine at power-on.
    pub fn new() -> (emu: Emu)
        ensures
            emu@ == initial_state(),
            emu@.wf(),
    {
        let mut emu = Emu {
            pc: START_ADDR,
            ram: [0u8; RAM_SIZE],
            screen: [false; SCREEN_SIZE],
            v_reg: [0u8; NUM_REGS],
            i_reg: 0,
            sp: 0,
            stack: [0u16; STACK_SIZE],
            keys: [false; NUM_KEYS],
            dt: 0,
            st: 0,
        };
        install_font(&mut emu.ram);
        proof {
            let s = initial_state();
            assert(emu@.ram =~= s.ram);
            assert(emu@.screen =~= s.screen);
            assert(emu@.v =~= s.v);
            assert(emu@.stack =~= s.stack);
            assert(emu@.keys =~= s.keys);
        }
        emu
    }

    /// Returns the machine to its power-on state, discarding any program.
    pub fn reset(&mut self)
        ensures
            final(self)@ == initial_state(),
            final(self)@.wf(),
    {
        proof {
            use_type_invariant(&*self);
        }
        self.pc = START_ADDR;
        self.sp = 0;
        self.ram = [0u8; RAM_SIZE];
        self.screen = [false; SCREEN_SIZE];
        self.v_reg = [0u8; NUM_REGS];
        self.i_reg = 0;
        self.stack = [0u16; STACK_SIZE];
        self.keys = [false; NUM_KEYS];
        self.dt = 0;
        self.st = 0;
        install_font(&mut self.ram);
        proof {
            let s = initial_state();
            assert(self@.ram =~= s.ram);
            assert(self@.screen =~= s.screen);
            assert(self@.v =~= s.v);
            assert(self@.stack =~= s.stack);
            assert(self@.keys =~= s.keys);
        }
    }

    /// Executes one fetch-decode-execute cycle.
    ///
    /// The outcome is that of `step_spec` for some byte in the place of the
    /// random draw, and for every byte where the instruction at the program
    /// counter draws none.
    pub fn tick(&mut self) -> (res: Result<(), EmuError>)
        ensures
            final(self)@.wf(),
            exists|random: u8| (final(self)@, res) == #[trigger] step_spec(old(self)@, random),
            !draws_random(old(self)@) ==> forall|random: u8|
                (final(self)@, res) == #[trigger] step_spec(old(self)@, random),
    {
        let ghost before = self@;
        let op = match self.fetch() {
            Ok(op) => op,
            Err(e) => {
                proof {
                    use_type_invariant(&*self);
                    assert((self@, Err::<(), EmuError>(e)) == step_spec(before, 0u8));
                }
                return Err(e);
            },
        };
        match decode(op) {
            Some(instr) => {
                let random = match instr {
                    Instruction::Random { .. } => random_byte(),
                    _ => 0,
                };
                let res = self.run(instr, random);
                proof {
                    use_type_invariant(&*self);
                    assert((self@, res) == step_spec(before, random));
                }
                res
            },
            None => {
                proof {
                    use_type_invariant(&*self);
                    let failed = Err::<(), EmuError>(EmuError::UnimplementedOpcode { opcode: op });
                    assert((self@, failed) == step_spec(before, 0u8));
                }
                Err(EmuError::UnimplementedOpcode { opcode: op })
            },
        }
    }

    /// Reads the instruction word at the program counter, most significant
    /// byte first, and moves the program counter past it.
    fn fetch(&mut self) -> (res: Result<u16, EmuError>)
        ensures
            can_fetch(old(self)@) ==> res == Ok::<u16, EmuError>(
                opcode_at(old(self)@.ram, old(self)@.pc as int),
            ) && final(self)@ == move_pc(old(self)@, 2),
            !can_fetch(old(self)@) ==> res == Err::<u16, EmuError>(EmuError::AddressOutOfRange)
                && final(self)@ == old(self)@,
    {
        proof {
            use_type_invariant(&*self);
        }
        let pc = self.pc as usize;
        if pc + 1 >= RAM_SIZE {
            return Err(EmuError::AddressOutOfRange);
        }
        let higher_byte = self.ram[pc] as u16;
        let lower_byte = self.ram[pc + 1] as u16;
        let op: u16 = (higher_byte << 8) | lower_byte;
        assert(op == higher_byte * 256 + lower_byte) by (bit_vector)
            requires
                op == (higher_byte << 8) | lower_byte,
                higher_byte < 256,
                lower_byte < 256,
        ;
        self.pc = self.pc + 2;
        Ok(op)
    }

    /// Decodes the instruction word `op` and carries it out, with `random`
    /// as the byte that a random draw yields.
    ///
    /// The program counter is taken to stand behind the instruction already,
    /// as `tick` leaves it after fetching.
    pub fn execute(&mut self, op: u16, random: u8) -> (res: Result<(), EmuError>)
        ensures
            final(self)@.wf(),
            (final(self)@, res) == execute_spec(old(self)@, op, random),
    {
        let res = match decode(op) {
            Some(instr) => self.run(instr, random),
            None => Err(EmuError::UnimplementedOpcode { opcode: op }),
        };
        proof {
            use_type_invariant(&*self);
        }
        res
    }

    /// Moves the program counter past the next instruction if `cond` holds.
    fn skip_when(&mut self, cond: bool)
        ensures
            final(self)@ == skip_if(old(self)@, cond),
    {
        proof {
            use_type_invariant(&*self);
        }
        if cond {
            self.pc = self.pc.wrapping_add(2);
        }
    }

    /// Sets register `x` to `val`, then VF to 1 if `flag` holds and to 0 if not.
    fn set_with_flag(&mut self, x: usize, val: u8, flag: bool)
        requires
            x < NUM_REGS,
        ensures
            final(self)@ == set_reg_and_flag(old(self)@, x as int, val, flag),
    {
        proof {
            use_type_invariant(&*self);
        }
        self.v_reg[x] = val;
        self.v_reg[FLAG_REG] = if flag {
            1
        } else {
            0
        };
    }

    /// The lowest-numbered key that is down, if any is.
    fn pressed_key(&self) -> (r: Option<u8>)
        ensures
            match r {
                Some(k) => any_pressed(self@.keys) && first_pressed(self@.keys) == k,
                None => !any_pressed(self@.keys),
            },
    {
        let mut k: usize = 0;
        while k < NUM_KEYS
            invariant
                k <= NUM_KEYS,
                forall|j: int| 0 <= j < k ==> !self.keys@[j],
            decreases NUM_KEYS - k,
        {
            if self.keys[k] {
                proof {
                    lemma_first_pressed(self@.keys, k as int);
                }
                return Some(k as u8);
            }
            k += 1;
        }
        None
    }

    /// Sets register `x` to `val`.
    fn set_register(&mut self, x: u8, val: u8)
        requires
            x < NUM_REGS,
        ensures
            final(self)@ == set_reg(old(self)@, x as int, val),
    {
        proof {
            use_type_invariant(&*self);
        }
        self.v_reg[x as usize] = val;
    }

    /// Returns from a subroutine: the program counter becomes the address
    /// on top of the call stack.
    fn return_from_call(&mut self) -> (res: Result<(), EmuError>)
        ensures
            (final(self)@, res) == settle(
                old(self)@,
                instruction_effect(old(self)@, Instruction::Return, 0),
            ),
    {
        match self.pop() {
            Ok(addr) => {
                proof {
                    use_type_invariant(&*self);
                }
                self.pc = addr;
                Ok(())
            },
            Err(e) => Err(e),
        }
    }

    /// Calls the subroutine at `addr`: the program counter goes onto the
    /// call stack and then becomes `addr`.
    fn call(&mut self, addr: u16) -> (res: Result<(), EmuError>)
        ensures
            (final(self)@, res) == settle(
                old(self)@,
                instruction_effect(old(self)@, Instruction::Call { addr }, 0),
            ),
    {
        let pc = self.pc;
        match self.push(pc) {
            Ok(()) => {
                proof {
                    use_type_invariant(&*self);
                }
                self.pc = addr;
                Ok(())
            },
            Err(e) => Err(e),
        }
    }

    /// Draws the `n`-row sprite at I at column Vx, row Vy, and sets VF to
    /// the collision flag.
    fn draw(&mut self, x: u8, y: u8, n: u8) -> (res: Result<(), EmuError>)
        requires
            x < NUM_REGS,
            y < NUM_REGS,
            n < 16,
        ensures
            (final(self)@, res) == settle(
                old(self)@,
                instruction_effect(old(self)@, Instruction::Draw { x, y, n }, 0),
            ),
    {
        proof {
            use_type_invariant(&*self);
        }
        let start = self.i_reg as usize;
        if n > 0 && start + n as usize > RAM_SIZE {
            return Err(EmuError::AddressOutOfRange);
        }
        let vx = self.v_reg[x as usize];
        let vy = self.v_reg[y as usize];
        let flipped = draw_sprite(&mut self.screen, &self.ram, start, n, vx, vy);
        self.v_reg[FLAG_REG] = if flipped {
            1
        } else {
            0
        };
        Ok(())
    }

    /// Skips the next instruction if the key numbered Vx is down (`down`)
    /// or up (not `down`).
    fn skip_on_key(&mut self, x: u8, down: bool) -> (res: Result<(), EmuError>)
        requires
            x < NUM_REGS,
        ensures
            (final(self)@, res) == settle(
                old(self)@,
                instruction_effect(
                    old(self)@,
                    if down {
                        Instruction::SkipKeyDown { x }
                    } else {
                        Instruction::SkipKeyUp { x }
                    },
                    0,
                ),
            ),
    {
        let key = self.v_reg[x as usize] as usize;
        if key >= NUM_KEYS {
            return Err(EmuError::InvalidInputIndex);
        }
        let cond = self.keys[key] == down;
        self.skip_when(cond);
        Ok(())
    }

    /// Stores the lowest-numbered key that is down in Vx; with no key down,
    /// moves the program counter back onto the instruction, so that the
    /// next step repeats it.
    fn wait_key(&mut self, x: u8)
        requires
            x < NUM_REGS,
        ensures
            Ok::<State, EmuError>(final(self)@) == instruction_effect(
                old(self)@,
                Instruction::WaitKey { x },
                0,
            ),
    {
        proof {
            use_type_invariant(&*self);
        }
        match self.pressed_key() {
            Some(key) => {
                self.v_reg[x as usize] = key;
            },
            None => {
                self.pc = self.pc.wrapping_sub(2);
            },
        }
    }

    /// Stores the decimal digits of Vx at I, I+1 and I+2, hundreds first.
    fn store_digits(&mut self, x: u8) -> (res: Result<(), EmuError>)
        requires
            x < NUM_REGS,
        ensures
            (final(self)@, res) == settle(
                old(self)@,
                instruction_effect(old(self)@, Instruction::StoreBcd { x }, 0),
            ),
    {
        proof {
            use_type_invariant(&*self);
        }
        let i = self.i_reg as usize;
        if i + 2 >= RAM_SIZE {
            return Err(EmuError::AddressOutOfRange);
        }
        let vx = self.v_reg[x as usize];
        self.ram[i] = vx / 100;
        self.ram[i + 1] = (vx / 10) % 10;
        self.ram[i + 2] = vx % 10;
        Ok(())
    }

    /// Copies V0 to Vx to memory at I (`store`), or memory at I to V0 to Vx.
    fn transfer_registers(&mut self, x: u8, store: bool) -> (res: Result<(), EmuError>)
        requires
            x < NUM_REGS,
        ensures
            (final(self)@, res) == settle(
                old(self)@,
                instruction_effect(
                    old(self)@,
                    if store {
                        Instruction::StoreRegs { x }
                    } else {
                        Instruction::LoadRegs { x }
                    },
                    0,
                ),
            ),
    {
        proof {
            use_type_invariant(&*self);
        }
        let i = self.i_reg as usize;
        if i + x as usize >= RAM_SIZE {
            return Err(EmuError::AddressOutOfRange);
        }
        if store {
            store_registers(&mut self.ram, &self.v_reg, i, x as usize);
        } else {
            load_registers(&mut self.v_reg, &self.ram, i, x as usize);
        }
        Ok(())
    }

    /// Carries out an instruction that works on the general registers alone.
    fn run_arithmetic(&mut self, instr: Instruction, random: u8)
        requires
            instr.wf(),
            is_arithmetic(instr),
        ensures
            Ok::<State, EmuError>(final(self)@) == instruction_effect(old(self)@, instr, random),
    {
        proof {
            use_type_invariant(&*self);
        }
        match instr {
            Instruction::LoadImm { x, nn } => self.set_register(x, nn),
            Instruction::AddImm { x, nn } => {
                let vx = self.v_reg[x as usize];
                self.set_register(x, vx.wrapping_add(nn));
            },
            Instruction::Move { x, y } => {
                let vy = self.v_reg[y as usize];
                self.set_register(x, vy);
            },
            Instruction::Or { x, y } => {
                let val = self.v_reg[x as usize] | self.v_reg[y as usize];
                self.set_register(x, val);
            },
            Instruction::And { x, y } => {
                let val = self.v_reg[x as usize] & self.v_reg[y as usize];
                self.set_register(x, val);
            },
            Instruction::Xor { x, y } => {
                let val = self.v_reg[x as usize] ^ self.v_reg[y as usize];
                self.set_register(x, val);
            },
            Instruction::AddReg { x, y } => {
                let vx = self.v_reg[x as usize];
                let vy = self.v_reg[y as usize];
                self.set_with_flag(x as usize, vx.wrapping_add(vy), vx > 255 - vy);
            },
            Instruction::SubReg { x, y } => {
                let vx = self.v_reg[x as usize];
                let vy = self.v_reg[y as usize];
                self.set_with_flag(x as usize, vx.wrapping_sub(vy), vx >= vy);
            },
            Instruction::SubFrom { x, y } => {
                let vx = self.v_reg[x as usize];
                let vy = self.v_reg[y as usize];
                self.set_with_flag(x as usize, vy.wrapping_sub(vx), vy >= vx);
            },
            Instruction::ShiftRight { x } => {
                let vx = self.v_reg[x as usize];
                assert(vx >> 1 == vx / 2 && (vx & 1 == 1) == (vx % 2 == 1)) by (bit_vector);
                self.set_with_flag(x as usize, vx >> 1, vx & 1 == 1);
            },
            Instruction::ShiftLeft { x } => {
                let vx = self.v_reg[x as usize];
                assert(vx << 1 == (vx as u16 * 2) % 256 && ((vx >> 7) & 1 == 1) == (vx >= 128))
                    by (bit_vector);
                self.set_with_flag(x as usize, vx << 1, (vx >> 7) & 1 == 1);
            },
            Instruction::Random { x, nn } => self.set_register(x, random & nn),
            _ => {},
        }
    }

    /// Carries out an instruction that decides where execution goes on:
    /// a jump, call, return, skip or wait.
    fn run_flow(&mut self, instr: Instruction) -> (res: Result<(), EmuError>)
        requires
            instr.wf(),
            is_flow(instr),
        ensures
            (final(self)@, res) == settle(old(self)@, instruction_effect(old(self)@, instr, 0)),
    {
        proof {
            use_type_invariant(&*self);
        }
        match instr {
            Instruction::Return => self.return_from_call(),
            Instruction::Jump { addr } => {
                self.pc = addr;
                Ok(())
            },
            Instruction::Call { addr } => self.call(addr),
            Instruction::SkipEqImm { x, nn } => {
                let cond = self.v_reg[x as usize] == nn;
                self.skip_when(cond);
                Ok(())
            },
            Instruction::SkipNeImm { x, nn } => {
                let cond = self.v_reg[x as usize] != nn;
                self.skip_when(cond);
                Ok(())
            },
            Instruction::SkipEqReg { x, y } => {
                let cond = self.v_reg[x as usize] == self.v_reg[y as usize];
                self.skip_when(cond);
                Ok(())
            },
            Instruction::SkipNeReg { x, y } => {
                let cond = self.v_reg[x as usize] != self.v_reg[y as usize];
                self.skip_when(cond);
                Ok(())
            },
            Instruction::JumpOffset { addr } => {
                self.pc = self.v_reg[0] as u16 + addr;
                Ok(())
            },
            Instruction::SkipKeyDown { x } => self.skip_on_key(x, true),
            Instruction::SkipKeyUp { x } => self.skip_on_key(x, false),
            Instruction::WaitKey { x } => {
                self.wait_key(x);
                Ok(())
            },
            _ => Ok(()),
        }
    }

    /// Carries out an instruction that works on the display, memory, the
    /// address register or the timers.
    fn run_machine(&mut self, instr: Instruction) -> (res: Result<(), EmuError>)
        requires
            instr.wf(),
            !is_flow(instr),
            !is_arithmetic(instr),
        ensures
            (final(self)@, res) == settle(old(self)@, instruction_effect(old(self)@, instr, 0)),
    {
        proof {
            use_type_invariant(&*self);
        }
        match instr {
            Instruction::ClearScreen => {
                self.screen = [false; SCREEN_SIZE];
                assert(self@.screen =~= Seq::new(SCREEN_SIZE as nat, |p: int| false));
                Ok(())
            },
            Instruction::LoadIndex { addr } => {
                self.i_reg = addr;
                Ok(())
            },
            Instruction::Draw { x, y, n } => self.draw(x, y, n),
            Instruction::ReadDelay { x } => {
                let dt = self.dt;
                self.set_register(x, dt);
                Ok(())
            },
            Instruction::SetDelay { x } => {
                self.dt = self.v_reg[x as usize];
                Ok(())
            },
            Instruction::SetSound { x } => {
                self.st = self.v_reg[x as usize];
                Ok(())
            },
            Instruction::AddIndex { x } => {
                self.i_reg = self.i_reg.wrapping_add(self.v_reg[x as usize] as u16);
                Ok(())
            },
            Instruction::FontAddr { x } => {
                self.i_reg = self.v_reg[x as usize] as u16 * GLYPH_SIZE;
                Ok(())
            },
            Instruction::StoreBcd { x } => self.store_digits(x),
            Instruction::StoreRegs { x } => self.transfer_registers(x, true),
            Instruction::LoadRegs { x } => self.transfer_registers(x, false),
            _ => Ok(()),
        }
    }

    /// Carries out one decoded instruction.
    fn run(&mut self, instr: Instruction, random: u8) -> (res: Result<(), EmuError>)
        requires
            instr.wf(),
        ensures
            (final(self)@, res) == settle(
                old(self)@,
                instruction_effect(old(self)@, instr, random),
            ),
    {
        match instr {
            Instruction::Return
            | Instruction::Jump { .. }
            | Instruction::Call { .. }
            | Instruction::SkipEqImm { .. }
            | Instruction::SkipNeImm { .. }
            | Instruction::SkipEqReg { .. }
            | Instruction::SkipNeReg { .. }
            | Instruction::JumpOffset { .. }
            | Instruction::SkipKeyDown { .. }
            | Instruction::SkipKeyUp { .. }
            | Instruction::WaitKey { .. } => {
                proof {
                    lemma_random_unused(self@, instr, random, 0);
                }
                self.run_flow(instr)
            },
            Instruction::LoadImm { .. }
            | Instruction::AddImm { .. }
            | Instruction::Move { .. }
            | Instruction::Or { .. }
            | Instruction::And { .. }
            | Instruction::Xor { .. }
            | Instruction::AddReg { .. }
            | Instruction::SubReg { .. }
            | Instruction::SubFrom { .. }
            | Instruction::ShiftRight { .. }
            | Instruction::ShiftLeft { .. }
            | Instruction::Random { .. } => {
                self.run_arithmetic(instr, random);
                Ok(())
            },
            _ => {
                proof {
                    lemma_random_unused(self@, instr, random, 0);
                }
                self.run_machine(instr)
            },
        }
    }

    /// The display, row-major: the cell at column x of row y is at index
    /// `x + SCREEN_WIDTH * y`.
    pub fn get_display(&self) -> (cells: &[bool])
        ensures
            cells@ == self@.screen,
            cells@.len() == SCREEN_SIZE,
    {
        &self.screen
    }

    /// Records that key `idx` went down (`pressed`) or up.
    pub fn keypress(&mut self, idx: usize, pressed: bool) -> (res: Result<(), EmuError>)
        ensures
            final(self)@.wf(),
            idx < NUM_KEYS ==> res is Ok && final(self)@ == keypress_spec(
                old(self)@,
                idx as int,
                pressed,
            ),
            idx >= NUM_KEYS ==> res == Err::<(), EmuError>(EmuError::InvalidInputIndex) && final(self)@ == old(self)@,
    {
        proof {
            use_type_invariant(&*self);
        }
        if idx >= NUM_KEYS {
            return Err(EmuError::InvalidInputIndex);
        }
        self.keys[idx] = pressed;
        Ok(())
    }

    /// Copies the program `data` into memory at `START_ADDR`.
    ///
    /// A program that does not fit is refused whole: nothing is copied.
    pub fn load(&mut self, data: &[u8]) -> (res: Result<(), EmuError>)
        ensures
            final(self)@.wf(),
            rom_fits(data@.len()) ==> res is Ok && final(self)@ == load_spec(old(self)@, data@),
            !rom_fits(data@.len()) ==> res == Err::<(), EmuError>(EmuError::OversizedRom) && final(self)@ == old(self)@,
    {
        proof {
            use_type_invariant(&*self);
        }
        if data.len() > MAX_ROM_SIZE {
            return Err(EmuError::OversizedRom);
        }
        let start: usize = START_ADDR as usize;
        let mut k: usize = 0;
        while k < data.len()
            invariant
                k <= data@.len() <= MAX_ROM_SIZE,
                start == START_ADDR,
                self.stack_pointer_in_range(),
                self@ == (State { ram: self@.ram, ..old(self)@ }),
                forall|a: int|
                    0 <= a < RAM_SIZE ==> self@.ram[a] == if start <= a < start + k {
                        data@[a - start]
                    } else {
                        old(self)@.ram[a]
                    },
            decreases data@.len() - k,
        {
            self.ram[start + k] = data[k];
            k += 1;
        }
        assert(self@.ram =~= load_spec(old(self)@, data@).ram);
        Ok(())
    }

    /// Advances the 60 Hz clock by one tick: each timer that is above zero
    /// goes down by one.
    pub fn tick_timers(&mut self)
        ensures
            final(self)@.wf(),
            final(self)@ == tick_timers_spec(old(self)@),
    {
        proof {
            use_type_invariant(&*self);
        }
        if self.dt > 0 {
            self.dt -= 1;
        }
        if self.st > 0 {
            self.st -= 1;
        }
    }

    /// Puts the return address `val` on the call stack.
    fn push(&mut self, val: u16) -> (res: Result<(), EmuError>)
        ensures
            old(self)@.sp < STACK_SIZE ==> res is Ok && final(self)@ == (State {
                stack: old(self)@.stack.update(old(self)@.sp as int, val),
                sp: old(self)@.sp + 1,
                ..old(self)@
            }),
            old(self)@.sp >= STACK_SIZE ==> res == Err::<(), EmuError>(EmuError::StackOverflow)
                && final(self)@ == old(self)@,
    {
        proof {
            use_type_invariant(&*self);
        }
        if self.sp as usize >= STACK_SIZE {
            return Err(EmuError::StackOverflow);
        }
        self.stack[self.sp as usize] = val;
        self.sp += 1;
        Ok(())
    }

    /// Takes the most recent return address off the call stack.
    fn pop(&mut self) -> (res: Result<u16, EmuError>)
        ensures
            old(self)@.sp > 0 ==> res == Ok::<u16, EmuError>(
                old(self)@.stack[old(self)@.sp - 1],
            ) && final(self)@ == (State { sp: (old(self)@.sp - 1) as nat, ..old(self)@ }),
            old(self)@.sp == 0 ==> res == Err::<u16, EmuError>(EmuError::StackUnderflow) && final(self)@ == old(self)@,
    {
        proof {
            use_type_invariant(&*self);
        }
        if self.sp == 0 {
            return Err(EmuError::StackUnderflow);
        }
        self.sp -= 1;
        Ok(self.stack[self.sp as usize])
    }

    /// The program counter.
    pub fn pc(&self) -> (r: u16)
        ensures
            r == self@.pc,
    {
        self.pc
    }

    /// The address register I.
    pub fn index_register(&self) -> (r: u16)
        ensures
            r == self@.i,
    {
        self.i_reg
    }

    /// The general registers, V0 first.
    pub fn registers(&self) -> (r: &[u8])
        ensures
            r@ == self@.v,
            r@.len() == NUM_REGS,
    {
        &self.v_reg
    }

    /// All of memory, address 0 first.
    pub fn memory(&self) -> (r: &[u8])
        ensures
            r@ == self@.ram,
            r@.len() == RAM_SIZE,
    {
        &self.ram
    }

    /// The number of return addresses on the call stack.
    pub fn stack_depth(&self) -> (r: usize)
        ensures
            r == self@.sp,
            r <= STACK_SIZE,
    {
        proof {
            use_type_invariant(self);
        }
        self.sp as usize
    }

    /// The slots of the call stack; the first `stack_depth` of them are in use.
    pub fn call_stack(&self) -> (r: &[u16])
        ensures
            r@ == self@.stack,
            r@.len() == STACK_SIZE,
    {
        &self.stack
    }

    /// The key latches, key 0 first.
    pub fn keys(&self) -> (r: &[bool])
        ensures
            r@ == self@.keys,
            r@.len() == NUM_KEYS,
    {
        &self.keys
    }

    /// The delay timer.
    pub fn delay_timer(&self) -> (r: u8)
        ensures
            r == self@.dt,
    {
        self.dt
    }

    /// The sound timer. The host sounds its tone while this is above zero.
    pub fn sound_timer(&self) -> (r: u8)
        ensures
            r == self@.st,
    {
        self.st
    }
}

} // verus!
