use vstd::prelude::*;
use crate::display::{collides, draw_screen, sprite_hits, sprite_rows};
use crate::instruction::{decode_spec, Instruction};
use crate::semantics::{
    any_pressed, can_fetch, draws_random, execute_spec, instruction_effect, load_spec, move_pc,
    opcode_at, step_spec, tick_timers_spec,
};
use crate::error::EmuError;
use crate::state::{initial_state, State, FLAG_REG, FONT, FONT_SIZE, SCREEN_SIZE, START_ADDR};

verus! {

/// The instruction that the next step executes: the one encoded at the
/// program counter, if both of its bytes lie in memory and encode one.
pub open spec fn next_instruction(s: State) -> Option<Instruction> {
    if can_fetch(s) {
        decode_spec(opcode_at(s.ram, s.pc as int))
    } else {
        None
    }
}

/// Whether the font table stands at the bottom of memory.
pub open spec fn has_font(s: State) -> bool {
    forall|a: int| 0 <= a < FONT_SIZE ==> s.ram[a] == FONT[a]
}

/// Whether `instr` writes to memory.
pub open spec fn writes_memory(instr: Instruction) -> bool {
    instr is StoreBcd || instr is StoreRegs
}

/// Whether a skip instruction finds its condition true in `s`.
pub open spec fn skip_taken(s: State, instr: Instruction) -> bool {
    match instr {
        Instruction::SkipEqImm { x, nn } => s.v[x as int] == nn,
        Instruction::SkipNeImm { x, nn } => s.v[x as int] != nn,
        Instruction::SkipEqReg { x, y } => s.v[x as int] == s.v[y as int],
        Instruction::SkipNeReg { x, y } => s.v[x as int] != s.v[y as int],
        Instruction::SkipKeyDown { x } => s.keys[s.v[x as int] as int],
        Instruction::SkipKeyUp { x } => !s.keys[s.v[x as int] as int],
        _ => false,
    }
}

/// Whether drawing the sprite `rows` at (`vx`, `vy`) turns on a cell that
/// was off: some cell is hit and dark.
pub open spec fn lights_up(screen: Seq<bool>, rows: Seq<u8>, vx: int, vy: int) -> bool {
    exists|p: int| 0 <= p < screen.len() && !screen[p] && #[trigger] sprite_hits(rows, vx, vy, p)
}

/// The machine after `n` ticks of the 60 Hz clock.
pub open spec fn tick_timers_n(s: State, n: nat) -> State
    decreases n,
{
    if n == 0 {
        s
    } else {
        tick_timers_spec(tick_timers_n(s, (n - 1) as nat))
    }
}

/// The power-on state is well formed and holds the font table.
pub proof fn lemma_initial_state()
    ensures
        initial_state().wf(),
        has_font(initial_state()),
{
}

/// Every instruction takes a well-formed machine to a well-formed machine.
/// In particular the stack pointer stays within the stack across every call
/// and return.
pub proof fn lemma_instruction_preserves_wf(s: State, instr: Instruction, random: u8)
    requires
        s.wf(),
        instr.wf(),
    ensures
        instruction_effect(s, instr, random) matches Ok(t) ==> t.wf(),
{
}

/// Every step takes a well-formed machine to a well-formed machine, whether
/// it succeeds or fails.
pub proof fn lemma_step_preserves_wf(s: State, random: u8)
    requires
        s.wf(),
    ensures
        step_spec(s, random).0.wf(),
{
    if can_fetch(s) {
        let op = opcode_at(s.ram, s.pc as int);
        lemma_decode_wf(op);
        match decode_spec(op) {
            Some(instr) => {
                lemma_instruction_preserves_wf(move_pc(s, 2), instr, random);
            },
            None => {},
        }
    }
}

/// Every word that decodes gives a well-formed instruction.
pub proof fn lemma_decode_wf(op: u16)
    ensures
        decode_spec(op) matches Some(instr) ==> instr.wf(),
{
}

/// Only a step that executes a `Random` instruction depends on the random
/// byte.
pub proof fn lemma_random_matters_only_when_drawn(s: State, r1: u8, r2: u8)
    requires
        !draws_random(s),
    ensures
        step_spec(s, r1) == step_spec(s, r2),
{
}

/// Loading a program leaves all memory below `START_ADDR` as it was, so the
/// font table stays in place.
pub proof fn lemma_load_keeps_low_memory(s: State, data: Seq<u8>)
    requires
        s.wf(),
    ensures
        forall|a: int| 0 <= a < START_ADDR ==> load_spec(s, data).ram[a] == s.ram[a],
        has_font(s) ==> has_font(load_spec(s, data)),
{
}

/// A step whose instruction, if it writes to memory at all, writes at
/// `START_ADDR` or above leaves all memory below `START_ADDR` as it was, so
/// the font table stays in place.
pub proof fn lemma_step_keeps_low_memory(s: State, random: u8)
    requires
        s.wf(),
        next_instruction(s) matches Some(instr) ==> writes_memory(instr) ==> s.i >= START_ADDR,
    ensures
        forall|a: int| 0 <= a < START_ADDR ==> step_spec(s, random).0.ram[a] == s.ram[a],
        has_font(s) ==> has_font(step_spec(s, random).0),
{
    if can_fetch(s) {
        lemma_decode_wf(opcode_at(s.ram, s.pc as int));
    }
}

/// Where a successful step leaves the program counter.
///
/// A jump or call goes to its target, a jump with offset to its target plus
/// V0, a return to the address on top of the stack. A skip instruction
/// advances by 4 if its condition holds and by 2 if not. Waiting for a key
/// with no key down leaves the program counter where it was. Every other
/// instruction advances it by exactly 2.
pub proof fn lemma_pc_after_step(s: State, random: u8)
    requires
        s.wf(),
        step_spec(s, random).1 is Ok,
    ensures
        next_instruction(s) is Some,
        ({
            let t = step_spec(s, random).0;
            match next_instruction(s)->Some_0 {
                Instruction::Jump { addr } | Instruction::Call { addr } => t.pc == addr,
                Instruction::JumpOffset { addr } => t.pc == s.v[0] + addr,
                Instruction::Return => s.sp > 0 && t.pc == s.stack[s.sp - 1],
                Instruction::SkipEqImm { .. }
                | Instruction::SkipNeImm { .. }
                | Instruction::SkipEqReg { .. }
                | Instruction::SkipNeReg { .. }
                | Instruction::SkipKeyDown { .. }
                | Instruction::SkipKeyUp { .. } => t.pc == s.pc + if skip_taken(
                    s,
                    next_instruction(s)->Some_0,
                ) {
                    4int
                } else {
                    2int
                },
                Instruction::WaitKey { .. } => t.pc == if any_pressed(s.keys) {
                    s.pc + 2
                } else {
                    s.pc as int
                },
                _ => t.pc == s.pc + 2,
            }
        }),
{
    lemma_decode_wf(opcode_at(s.ram, s.pc as int));
}

/// Clearing the display turns every cell off, whatever it showed before,
/// and changes nothing else.
pub proof fn lemma_clear_screen(s: State, random: u8)
    requires
        s.wf(),
    ensures
        instruction_effect(s, Instruction::ClearScreen, random) matches Ok(t) && t == (State {
            screen: t.screen,
            ..s
        }) && t.screen.len() == SCREEN_SIZE && forall|p: int|
            0 <= p < SCREEN_SIZE ==> !t.screen[p],
        execute_spec(s, 0x00E0, random) == (
            instruction_effect(s, Instruction::ClearScreen, random)->Ok_0,
            Ok::<(), EmuError>(()),
        ),
{
}

/// Drawing a sprite a second time at the same place undoes the first
/// drawing: the display is as it was before the two. The second drawing
/// raises the collision flag exactly if the first turned some cell on.
///
/// "The same place" asks that the first drawing leaves the two position
/// registers as they were, which it does unless one of them is VF.
pub proof fn lemma_draw_twice_restores(s: State, x: u8, y: u8, n: u8, random: u8)
    requires
        s.wf(),
        x < 16,
        y < 16,
        n < 16,
        instruction_effect(s, Instruction::Draw { x, y, n }, random) matches Ok(first)
            && first.v[x as int] == s.v[x as int] && first.v[y as int] == s.v[y as int],
    ensures
        ({
            let draw = Instruction::Draw { x, y, n };
            let first = instruction_effect(s, draw, random)->Ok_0;
            let rows = sprite_rows(s.ram, s.i as int, n as int);
            &&& instruction_effect(first, draw, random) matches Ok(second)
            &&& second.screen == s.screen
            &&& second.v[FLAG_REG as int] == if lights_up(
                s.screen,
                rows,
                s.v[x as int] as int,
                s.v[y as int] as int,
            ) {
                1u8
            } else {
                0u8
            }
        }),
{
    let draw = Instruction::Draw { x, y, n };
    let first = instruction_effect(s, draw, random)->Ok_0;
    let second = instruction_effect(first, draw, random)->Ok_0;
    let rows = sprite_rows(s.ram, s.i as int, n as int);
    let vx = s.v[x as int] as int;
    let vy = s.v[y as int] as int;
    assert(second.screen =~= s.screen);
    if lights_up(s.screen, rows, vx, vy) {
        let p = choose|p: int|
            0 <= p < s.screen.len() && !s.screen[p] && #[trigger] sprite_hits(rows, vx, vy, p);
        assert(first.screen[p] && sprite_hits(rows, vx, vy, p));
    }
    if collides(first.screen, rows, vx, vy) {
        let p = choose|p: int|
            0 <= p < first.screen.len() && first.screen[p] && #[trigger] sprite_hits(
                rows,
                vx,
                vy,
                p,
            );
        assert(!s.screen[p] && sprite_hits(rows, vx, vy, p));
    }
}

/// Two sprites that share no cell, drawn one after the other onto cells
/// that are all dark, raise no collision flag: VF is 0 after each.
pub proof fn lemma_disjoint_sprites_do_not_collide(
    s: State,
    a: Instruction,
    b: Instruction,
    random: u8,
)
    requires
        s.wf(),
        a.wf(),
        b.wf(),
        a is Draw,
        b is Draw,
        instruction_effect(s, a, random) matches Ok(first) && instruction_effect(
            first,
            b,
            random,
        ) is Ok,
        ({
            let first = instruction_effect(s, a, random)->Ok_0;
            let a_rows = sprite_rows(s.ram, s.i as int, a->n as int);
            let ax = s.v[a->Draw_x as int] as int;
            let ay = s.v[a->Draw_y as int] as int;
            let b_rows = sprite_rows(first.ram, first.i as int, b->n as int);
            let bx = first.v[b->Draw_x as int] as int;
            let by = first.v[b->Draw_y as int] as int;
            forall|p: int|
                0 <= p < SCREEN_SIZE ==> {
                    &&& !(#[trigger] sprite_hits(a_rows, ax, ay, p) && #[trigger] sprite_hits(
                        b_rows,
                        bx,
                        by,
                        p,
                    ))
                    &&& sprite_hits(a_rows, ax, ay, p) || sprite_hits(b_rows, bx, by, p)
                        ==> !s.screen[p]
                }
        }),
    ensures
        ({
            let first = instruction_effect(s, a, random)->Ok_0;
            let second = instruction_effect(first, b, random)->Ok_0;
            first.v[FLAG_REG as int] == 0 && second.v[FLAG_REG as int] == 0
        }),
{
    let first = instruction_effect(s, a, random)->Ok_0;
    let a_rows = sprite_rows(s.ram, s.i as int, a->n as int);
    let ax = s.v[a->Draw_x as int] as int;
    let ay = s.v[a->Draw_y as int] as int;
    let b_rows = sprite_rows(first.ram, first.i as int, b->n as int);
    let bx = first.v[b->Draw_x as int] as int;
    let by = first.v[b->Draw_y as int] as int;
    if collides(s.screen, a_rows, ax, ay) {
        let p = choose|p: int|
            0 <= p < s.screen.len() && s.screen[p] && #[trigger] sprite_hits(a_rows, ax, ay, p);
        // Naming both sprites at `p` brings in what is assumed of that cell.
        let hit_by_b = sprite_hits(b_rows, bx, by, p);
        assert(!s.screen[p]);
    }
    if collides(first.screen, b_rows, bx, by) {
        let p = choose|p: int|
            0 <= p < first.screen.len() && first.screen[p] && #[trigger] sprite_hits(
                b_rows,
                bx,
                by,
                p,
            );
        let hit_by_a = sprite_hits(a_rows, ax, ay, p);
        assert(first.screen == draw_screen(s.screen, a_rows, ax, ay));
        assert(first.screen[p] == (s.screen[p] != hit_by_a));
        assert(!hit_by_a && !s.screen[p]);
    }
}

/// Storing V0 to Vx and loading them back from the same address recovers
/// the stored values, whatever became of the registers in between, as long
/// as the bytes that were written are still in place and I is the same.
pub proof fn lemma_store_load_round_trip(s: State, mid: State, x: u8, random: u8)
    requires
        s.wf(),
        mid.wf(),
        x < 16,
        instruction_effect(s, Instruction::StoreRegs { x }, random) matches Ok(stored) && forall|
            a: int,
        |
            s.i <= a <= s.i + x ==> mid.ram[a] == stored.ram[a],
        mid.i == s.i,
    ensures
        instruction_effect(mid, Instruction::LoadRegs { x }, random) matches Ok(loaded)
            && forall|k: int| 0 <= k <= x ==> loaded.v[k] == s.v[k],
{
    let stored = instruction_effect(s, Instruction::StoreRegs { x }, random)->Ok_0;
    let loaded = instruction_effect(mid, Instruction::LoadRegs { x }, random)->Ok_0;
    assert forall|k: int| 0 <= k <= x implies loaded.v[k] == s.v[k] by {
        assert(mid.ram[s.i + k] == stored.ram[s.i + k]);
    }
}

/// After `n` ticks each timer has gone down by `n`, or to zero if it held
/// less. So a timer set to `n` reaches zero with the `n`-th tick and stays
/// there on every further one. Nothing but the timers changes.
pub proof fn lemma_timers_run_down(s: State, n: nat)
    ensures
        tick_timers_n(s, n).dt == if s.dt >= n {
            s.dt - n
        } else {
            0
        },
        tick_timers_n(s, n).st == if s.st >= n {
            s.st - n
        } else {
            0
        },
        tick_timers_n(s, n) == (State {
            dt: tick_timers_n(s, n).dt,
            st: tick_timers_n(s, n).st,
            ..s
        }),
    decreases n,
{
    if n > 0 {
        lemma_timers_run_down(s, (n - 1) as nat);
    }
}

} // verus!
