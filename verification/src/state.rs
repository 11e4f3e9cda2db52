use vstd::prelude::*;

verus! {

/// Width of the display in cells.
pub const SCREEN_WIDTH: usize = 64;

/// Height of the display in cells.
pub const SCREEN_HEIGHT: usize = 32;

/// Number of display cells: `SCREEN_WIDTH` times `SCREEN_HEIGHT`.
pub const SCREEN_SIZE: usize = 2048;

/// Number of addressable bytes.
pub const RAM_SIZE: usize = 4096;

/// Number of general registers, V0 to VF.
pub const NUM_REGS: usize = 16;

/// Index of VF, the register that receives carry, borrow and collision flags.
pub const FLAG_REG: usize = 15;

/// Number of return addresses the call stack can hold.
pub const STACK_SIZE: usize = 16;

/// Number of keys on the keypad.
pub const NUM_KEYS: usize = 16;

/// Address at which programs are loaded and execution starts.
pub const START_ADDR: u16 = 0x200;

/// Length of the font table in bytes: sixteen glyphs of five rows each.
pub const FONT_SIZE: usize = 80;

/// Length in bytes of one glyph of the font table.
pub const GLYPH_SIZE: u16 = 5;

/// Largest program that fits between `START_ADDR` and the end of memory.
pub const MAX_ROM_SIZE: usize = 3584;

/// The built-in hexadecimal font, glyph 0 first, five rows per glyph.
pub const FONT: [u8; 80] = [
    0xF0, 0x90, 0x90, 0x90, 0xF0,
    0x20, 0x60, 0x20, 0x20, 0x70,
    0xF0, 0x10, 0xF0, 0x80, 0xF0,
    0xF0, 0x10, 0xF0, 0x10, 0xF0,
    0x90, 0x90, 0xF0, 0x10, 0x10,
    0xF0, 0x80, 0xF0, 0x10, 0xF0,
    0xF0, 0x80, 0xF0, 0x90, 0xF0,
    0xF0, 0x10, 0x20, 0x40, 0x40,
    0xF0, 0x90, 0xF0, 0x90, 0xF0,
    0xF0, 0x90, 0xF0, 0x10, 0xF0,
    0xF0, 0x90, 0xF0, 0x90, 0x90,
    0xE0, 0x90, 0xE0, 0x90, 0xE0,
    0xF0, 0x80, 0x80, 0x80, 0xF0,
    0xE0, 0x90, 0x90, 0x90, 0xE0,
    0xF0, 0x80, 0xF0, 0x80, 0xF0,
    0xF0, 0x80, 0xF0, 0x80, 0x80,
];

/// The whole machine as a mathematical value.
///
/// Every contract of the emulator is stated over this model: the emulator's
/// view is a `State`, and each operation is a function from `State` to
/// `State`.
pub struct State {
    /// Program counter.
    pub pc: u16,
    /// Memory, one byte per address.
    pub ram: Seq<u8>,
    /// Display cells, row-major: the cell at column x of row y is `screen[x + 64 * y]`.
    pub screen: Seq<bool>,
    /// General registers V0 to VF.
    pub v: Seq<u8>,
    /// Address register I.
    pub i: u16,
    /// Number of return addresses on the call stack.
    pub sp: nat,
    /// Call stack slots; the live ones are `stack[0]` to `stack[sp - 1]`.
    pub stack: Seq<u16>,
    /// Key latches: `keys[k]` holds while key k is down.
    pub keys: Seq<bool>,
    /// Delay timer.
    pub dt: u8,
    /// Sound timer.
    pub st: u8,
}

impl State {
    /// The sizes of the machine's parts are the fixed ones, and the stack
    /// pointer does not exceed the number of slots.
    pub open spec fn wf(self) -> bool {
        &&& self.ram.len() == RAM_SIZE
        &&& self.screen.len() == SCREEN_SIZE
        &&& self.v.len() == NUM_REGS
        &&& self.stack.len() == STACK_SIZE
        &&& self.keys.len() == NUM_KEYS
        &&& self.sp <= STACK_SIZE
    }
}

/// Memory at power-on: the font table at the bottom, zero above it.
pub open spec fn initial_ram() -> Seq<u8> {
    Seq::new(RAM_SIZE as nat, |a: int| if a < FONT_SIZE { FONT[a] } else { 0u8 })
}

/// The machine at power-on: font table installed, program counter at
/// `START_ADDR`, everything else zero.
pub open spec fn initial_state() -> State {
    State {
        pc: START_ADDR,
        ram: initial_ram(),
        screen: Seq::new(SCREEN_SIZE as nat, |p: int| false),
        v: Seq::new(NUM_REGS as nat, |k: int| 0u8),
        i: 0,
        sp: 0,
        stack: Seq::new(STACK_SIZE as nat, |k: int| 0u16),
        keys: Seq::new(NUM_KEYS as nat, |k: int| false),
        dt: 0,
        st: 0,
    }
}

} // verus!
