use vstd::prelude::*;
use crate::display::{collides, draw_screen, sprite_rows};
use crate::error::EmuError;
use crate::instruction::{decode_spec, Instruction};
use crate::state::{
    State, FLAG_REG, GLYPH_SIZE, MAX_ROM_SIZE, NUM_KEYS, RAM_SIZE, SCREEN_SIZE, STACK_SIZE,
    START_ADDR,
};

verus! {

/// `s` with its program counter moved by `delta`, wrapping at 16 bits.
pub open spec fn move_pc(s: State, delta: int) -> State {
    State { pc: ((s.pc + delta) % 0x1_0000) as u16, ..s }
}

/// `s` with the next instruction skipped if `cond` holds.
pub open spec fn skip_if(s: State, cond: bool) -> State {
    if cond {
        move_pc(s, 2)
    } else {
        s
    }
}

/// `s` with register `x` set to `val`.
pub open spec fn set_reg(s: State, x: int, val: u8) -> State {
    State { v: s.v.update(x, val), ..s }
}

/// `s` with register `x` set to `val` and then VF set to 1 if `flag` holds
/// and to 0 if not. Where `x` is VF itself, the flag is what remains.
pub open spec fn set_reg_and_flag(s: State, x: int, val: u8, flag: bool) -> State {
    State { v: s.v.update(x, val).update(FLAG_REG as int, if flag { 1u8 } else { 0u8 }), ..s }
}

/// Whether `k` is the lowest-numbered key that is down.
pub open spec fn is_first_pressed(keys: Seq<bool>, k: int) -> bool {
    &&& 0 <= k < keys.len()
    &&& keys[k]
    &&& forall|j: int| 0 <= j < k ==> !keys[j]
}

/// Whether any key is down.
pub open spec fn any_pressed(keys: Seq<bool>) -> bool {
    exists|k: int| 0 <= k < keys.len() && keys[k]
}

/// The lowest-numbered key that is down; meaningful where `any_pressed` holds.
pub open spec fn first_pressed(keys: Seq<bool>) -> int {
    choose|k: int| is_first_pressed(keys, k)
}

/// The lowest-numbered key that is down is the only one of which
/// `is_first_pressed` holds.
pub proof fn lemma_first_pressed(keys: Seq<bool>, k: int)
    requires
        is_first_pressed(keys, k),
    ensures
        any_pressed(keys),
        first_pressed(keys) == k,
{
    let c = first_pressed(keys);
    assert(is_first_pressed(keys, c));
}

/// Memory with registers V0 to V`x` stored at address `i` and above.
pub open spec fn store_regs(ram: Seq<u8>, v: Seq<u8>, i: int, x: int) -> Seq<u8> {
    Seq::new(ram.len(), |a: int| if i <= a <= i + x { v[a - i] } else { ram[a] })
}

/// The registers with V0 to V`x` loaded from address `i` and above.
pub open spec fn load_regs(ram: Seq<u8>, v: Seq<u8>, i: int, x: int) -> Seq<u8> {
    Seq::new(v.len(), |k: int| if k <= x { ram[i + k] } else { v[k] })
}

/// Memory with the three decimal digits of `val` stored at `i`, `i + 1` and
/// `i + 2`, hundreds first.
pub open spec fn store_bcd(ram: Seq<u8>, i: int, val: u8) -> Seq<u8> {
    ram.update(i, val / 100).update(i + 1, val / 10 % 10).update(i + 2, val % 10)
}

/// Whether `instr` reads and writes nothing but the general registers (and,
/// for `Random`, the random byte).
pub open spec fn is_arithmetic(instr: Instruction) -> bool {
    match instr {
        Instruction::LoadImm { .. }
        | Instruction::AddImm { .. }
        | Instruction::Move { .. }
        | Instruction::Or { .. }
        | Instruction::And { .. }
        | Instruction::Xor { .. }
        | Instruction::AddReg { .. }
        | Instruction::SubReg { .. }
        | Instruction::SubFrom { .. }
        | Instruction::ShiftRight { .. }
        | Instruction::ShiftLeft { .. }
        | Instruction::Random { .. } => true,
        _ => false,
    }
}

/// Whether `instr` decides where execution goes on: a jump, call, return,
/// skip or wait.
pub open spec fn is_flow(instr: Instruction) -> bool {
    match instr {
        Instruction::Return
        | Instruction::Jump { .. }
        | Instruction::Call { .. }
        | Instruction::SkipEqImm { .. }
        | Instruction::SkipNeImm { .. }
        | Instruction::SkipEqReg { .. }
        | Instruction::SkipNeReg { .. }
        | Instruction::JumpOffset { .. }
        | Instruction::SkipKeyDown { .. }
        | Instruction::SkipKeyUp { .. }
        | Instruction::WaitKey { .. } => true,
        _ => false,
    }
}

/// What one instruction does to the machine.
///
/// `Ok` holds the machine after the instruction; `Err` says why the
/// instruction cannot be carried out, and then the machine is left as it
/// was. `s.pc` is the address after the instruction, as it stands once the
/// instruction has been fetched. `random` is the byte that a `Random`
/// instruction draws; no other instruction reads it.
pub open spec fn instruction_effect(s: State, instr: Instruction, random: u8) -> Result<
    State,
    EmuError,
> {
    match instr {
        Instruction::ClearScreen => Ok(
            State { screen: Seq::new(SCREEN_SIZE as nat, |p: int| false), ..s },
        ),
        Instruction::Return => if s.sp == 0 {
            Err(EmuError::StackUnderflow)
        } else {
            Ok(State { pc: s.stack[s.sp - 1], sp: (s.sp - 1) as nat, ..s })
        },
        Instruction::Jump { addr } => Ok(State { pc: addr, ..s }),
        Instruction::Call { addr } => if s.sp >= STACK_SIZE {
            Err(EmuError::StackOverflow)
        } else {
            Ok(State { pc: addr, stack: s.stack.update(s.sp as int, s.pc), sp: s.sp + 1, ..s })
        },
        Instruction::SkipEqImm { x, nn } => Ok(skip_if(s, s.v[x as int] == nn)),
        Instruction::SkipNeImm { x, nn } => Ok(skip_if(s, s.v[x as int] != nn)),
        Instruction::SkipEqReg { x, y } => Ok(skip_if(s, s.v[x as int] == s.v[y as int])),
        Instruction::SkipNeReg { x, y } => Ok(skip_if(s, s.v[x as int] != s.v[y as int])),
        Instruction::LoadImm { x, nn } => Ok(set_reg(s, x as int, nn)),
        Instruction::AddImm { x, nn } => Ok(
            set_reg(s, x as int, ((s.v[x as int] + nn) % 256) as u8),
        ),
        Instruction::Move { x, y } => Ok(set_reg(s, x as int, s.v[y as int])),
        Instruction::Or { x, y } => Ok(set_reg(s, x as int, s.v[x as int] | s.v[y as int])),
        Instruction::And { x, y } => Ok(set_reg(s, x as int, s.v[x as int] & s.v[y as int])),
        Instruction::Xor { x, y } => Ok(set_reg(s, x as int, s.v[x as int] ^ s.v[y as int])),
        Instruction::AddReg { x, y } => Ok(
            set_reg_and_flag(
                s,
                x as int,
                ((s.v[x as int] + s.v[y as int]) % 256) as u8,
                s.v[x as int] + s.v[y as int] > 255,
            ),
        ),
        Instruction::SubReg { x, y } => Ok(
            set_reg_and_flag(
                s,
                x as int,
                ((s.v[x as int] - s.v[y as int]) % 256) as u8,
                s.v[x as int] >= s.v[y as int],
            ),
        ),
        Instruction::SubFrom { x, y } => Ok(
            set_reg_and_flag(
                s,
                x as int,
                ((s.v[y as int] - s.v[x as int]) % 256) as u8,
                s.v[y as int] >= s.v[x as int],
            ),
        ),
        Instruction::ShiftRight { x } => Ok(
            set_reg_and_flag(s, x as int, s.v[x as int] / 2, s.v[x as int] % 2 == 1),
        ),
        Instruction::ShiftLeft { x } => Ok(
            set_reg_and_flag(
                s,
                x as int,
                ((s.v[x as int] * 2) % 256) as u8,
                s.v[x as int] >= 128,
            ),
        ),
        Instruction::LoadIndex { addr } => Ok(State { i: addr, ..s }),
        Instruction::JumpOffset { addr } => Ok(State { pc: (s.v[0] + addr) as u16, ..s }),
        Instruction::Random { x, nn } => Ok(set_reg(s, x as int, random & nn)),
        Instruction::Draw { x, y, n } => if n > 0 && s.i + n > RAM_SIZE {
            Err(EmuError::AddressOutOfRange)
        } else {
            let rows = sprite_rows(s.ram, s.i as int, n as int);
            let vx = s.v[x as int] as int;
            let vy = s.v[y as int] as int;
            Ok(
                State {
                    screen: draw_screen(s.screen, rows, vx, vy),
                    v: s.v.update(
                        FLAG_REG as int,
                        if collides(s.screen, rows, vx, vy) {
                            1u8
                        } else {
                            0u8
                        },
                    ),
                    ..s
                },
            )
        },
        Instruction::SkipKeyDown { x } => if s.v[x as int] >= NUM_KEYS {
            Err(EmuError::InvalidInputIndex)
        } else {
            Ok(skip_if(s, s.keys[s.v[x as int] as int]))
        },
        Instruction::SkipKeyUp { x } => if s.v[x as int] >= NUM_KEYS {
            Err(EmuError::InvalidInputIndex)
        } else {
            Ok(skip_if(s, !s.keys[s.v[x as int] as int]))
        },
        Instruction::ReadDelay { x } => Ok(set_reg(s, x as int, s.dt)),
        Instruction::WaitKey { x } => if any_pressed(s.keys) {
            Ok(set_reg(s, x as int, first_pressed(s.keys) as u8))
        } else {
            Ok(move_pc(s, -2))
        },
        Instruction::SetDelay { x } => Ok(State { dt: s.v[x as int], ..s }),
        Instruction::SetSound { x } => Ok(State { st: s.v[x as int], ..s }),
        Instruction::AddIndex { x } => Ok(
            State { i: ((s.i + s.v[x as int]) % 0x1_0000) as u16, ..s },
        ),
        Instruction::FontAddr { x } => Ok(State { i: (s.v[x as int] * GLYPH_SIZE) as u16, ..s }),
        Instruction::StoreBcd { x } => if s.i + 2 >= RAM_SIZE {
            Err(EmuError::AddressOutOfRange)
        } else {
            Ok(State { ram: store_bcd(s.ram, s.i as int, s.v[x as int]), ..s })
        },
        Instruction::StoreRegs { x } => if s.i + x >= RAM_SIZE {
            Err(EmuError::AddressOutOfRange)
        } else {
            Ok(State { ram: store_regs(s.ram, s.v, s.i as int, x as int), ..s })
        },
        Instruction::LoadRegs { x } => if s.i + x >= RAM_SIZE {
            Err(EmuError::AddressOutOfRange)
        } else {
            Ok(State { v: load_regs(s.ram, s.v, s.i as int, x as int), ..s })
        },
    }
}

/// No instruction but `Random` reads the random byte.
pub proof fn lemma_random_unused(s: State, instr: Instruction, r1: u8, r2: u8)
    requires
        !(instr is Random),
    ensures
        instruction_effect(s, instr, r1) == instruction_effect(s, instr, r2),
{
}

/// The machine and the result after an attempt that ends in `attempt`: the
/// new machine on success, the machine as it was `before` on failure.
pub open spec fn settle(before: State, attempt: Result<State, EmuError>) -> (
    State,
    Result<(), EmuError>,
) {
    match attempt {
        Ok(after) => (after, Ok(())),
        Err(e) => (before, Err(e)),
    }
}

/// Decoding and carrying out the instruction word `op` on `s`.
pub open spec fn execute_spec(s: State, op: u16, random: u8) -> (State, Result<(), EmuError>) {
    match decode_spec(op) {
        Some(instr) => settle(s, instruction_effect(s, instr, random)),
        None => (s, Err(EmuError::UnimplementedOpcode { opcode: op })),
    }
}

/// The instruction word stored at `addr`, most significant byte first.
pub open spec fn opcode_at(ram: Seq<u8>, addr: int) -> u16 {
    (ram[addr] * 256 + ram[addr + 1]) as u16
}

/// Whether both bytes of the instruction at the program counter lie in memory.
pub open spec fn can_fetch(s: State) -> bool {
    s.pc + 1 < RAM_SIZE
}

/// Whether the instruction at the program counter is one that draws a random byte.
pub open spec fn draws_random(s: State) -> bool {
    can_fetch(s) && decode_spec(opcode_at(s.ram, s.pc as int)) matches Some(
        Instruction::Random { .. },
    )
}

/// One fetch-decode-execute cycle.
///
/// A fetch from outside memory fails and leaves the machine as it was. After
/// a successful fetch the program counter has moved past the instruction,
/// and it stays there if decoding or executing the instruction fails.
pub open spec fn step_spec(s: State, random: u8) -> (State, Result<(), EmuError>) {
    if can_fetch(s) {
        execute_spec(move_pc(s, 2), opcode_at(s.ram, s.pc as int), random)
    } else {
        (s, Err(EmuError::AddressOutOfRange))
    }
}

/// `t` counted down by one, stopping at zero.
pub open spec fn count_down(t: u8) -> u8 {
    if t > 0 {
        (t - 1) as u8
    } else {
        0
    }
}

/// One tick of the 60 Hz clock: both timers count down by one, stopping at zero.
pub open spec fn tick_timers_spec(s: State) -> State {
    State { dt: count_down(s.dt), st: count_down(s.st), ..s }
}

/// Memory with the program `data` copied in at `START_ADDR`.
pub open spec fn load_spec(s: State, data: Seq<u8>) -> State {
    State {
        ram: Seq::new(
            s.ram.len(),
            |a: int|
                if START_ADDR <= a < START_ADDR + data.len() {
                    data[a - START_ADDR]
                } else {
                    s.ram[a]
                },
        ),
        ..s
    }
}

/// Whether a program of `len` bytes fits between `START_ADDR` and the end of memory.
pub open spec fn rom_fits(len: nat) -> bool {
    len <= MAX_ROM_SIZE
}

/// `s` with key latch `idx` set to `pressed`.
pub open spec fn keypress_spec(s: State, idx: int, pressed: bool) -> State {
    State { keys: s.keys.update(idx, pressed), ..s }
}

} // verus!
