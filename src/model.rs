use vstd::prelude::*;

verus! {

/// Bytes of addressable memory.
pub const MEMORY: usize = 4096;

/// Where a program image is copied to, and where execution starts.
pub const ROM_LOAD_INDEX: usize = 0x200;

/// Rows of the display.
pub const V_HEIGHT: usize = 32;

/// Columns of the display.
pub const V_WIDTH: usize = 64;

/// Entries of the call stack.
pub const STACK_SIZE: usize = 16;

/// Bytes of one glyph of the hexadecimal font.
pub const FONT_GLYPH_BYTES: usize = 5;

/// How an instruction moves the program counter.
pub enum Pc {
    /// On to the following instruction.
    Next,
    /// Absolute jump.
    Jump(usize),
    /// Past `n` more instructions.
    Skip(usize),
}

/// The mathematical state of an interpreter.
#[verifier::ext_equal]
pub struct ChipView {
    pub i: usize,
    pub v: Seq<u8>,
    pub vram: Seq<Seq<u8>>,
    pub vram_changed: bool,
    pub pc: usize,
    pub stack: Seq<usize>,
    pub sp: usize,
    pub memory: Seq<u8>,
    pub current_op: (u8, u8),
    pub delay_timer: u8,
    pub sound_timer: u8,
    pub keys: Seq<bool>,
    pub random: u8,
}

/// The four 4-bit fields of an opcode, most significant first.
pub open spec fn nybbles_of(op: (u8, u8)) -> (u8, u8, u8, u8) {
    ((op.0 / 16) as u8, (op.0 % 16) as u8, (op.1 / 16) as u8, (op.1 % 16) as u8)
}

/// The 12-bit address operand: low nybble of the first byte, then the second byte.
pub open spec fn nnn_of(op: (u8, u8)) -> usize {
    ((op.0 % 16) * 256 + op.1) as usize
}

/// The program counter that a directive leads to.
pub open spec fn next_pc(pc: usize, d: Pc) -> int {
    match d {
        Pc::Next => pc + 2,
        Pc::Skip(n) => pc + n * 2 + 2,
        Pc::Jump(addr) => addr as int,
    }
}

/// The state with register `x` set to `val`.
pub open spec fn set_reg(s: ChipView, x: int, val: u8) -> ChipView {
    ChipView { v: s.v.update(x, val), ..s }
}

/// A conditional skip: past the next instruction when `cond` holds.
pub open spec fn skip_if(cond: bool) -> Pc {
    if cond {
        Pc::Skip(1)
    } else {
        Pc::Next
    }
}

/// A blank display.
pub open spec fn blank_vram() -> Seq<Seq<u8>> {
    Seq::new(V_HEIGHT as nat, |r: int| Seq::new(V_WIDTH as nat, |c: int| 0u8))
}

// ---------------------------------------------------------------------------
// Sprite drawing

/// Bit `c` (0 = most significant) of a sprite byte.
pub open spec fn sprite_bit(b: u8, c: int) -> u8 {
    (b >> ((7 - c) as u32)) & 1u8
}

/// The sprite row that lands on display row `py` for a sprite whose top is at `vy`.
pub open spec fn sprite_row(vy: int, py: int) -> int {
    (py - vy) % (V_HEIGHT as int)
}

/// The sprite column that lands on display column `px` for a sprite whose left edge is at `vx`.
pub open spec fn sprite_col(vx: int, px: int) -> int {
    (px - vx) % (V_WIDTH as int)
}

/// Whether the sprite cell at (`r`, `c`) comes before the cell at (`rows`, `cols`)
/// in drawing order (rows from the top, columns from the left).
pub open spec fn cell_done(r: int, c: int, rows: int, cols: int) -> bool {
    c < 8 && (r < rows || (r == rows && c < cols))
}

/// Pixel (`px`, `py`) once the cells before (`rows`, `cols`) of the sprite of
/// `mem[i..]` at (`vx`, `vy`) have been combined into `old` by exclusive-or.
pub open spec fn pixel_after(
    old: u8,
    mem: Seq<u8>,
    i: int,
    vx: int,
    vy: int,
    rows: int,
    cols: int,
    px: int,
    py: int,
) -> u8 {
    let r = sprite_row(vy, py);
    let c = sprite_col(vx, px);
    if cell_done(r, c, rows, cols) {
        old ^ sprite_bit(mem[i + r], c)
    } else {
        old
    }
}

/// The display once the cells before (`rows`, `cols`) have been drawn.
pub open spec fn vram_after(
    vram: Seq<Seq<u8>>,
    mem: Seq<u8>,
    i: int,
    vx: int,
    vy: int,
    rows: int,
    cols: int,
) -> Seq<Seq<u8>> {
    Seq::new(
        V_HEIGHT as nat,
        |py: int|
            Seq::new(
                V_WIDTH as nat,
                |px: int| pixel_after(vram[py][px], mem, i, vx, vy, rows, cols, px, py),
            ),
    )
}

/// The display after a whole sprite of `n` rows has been drawn.
pub open spec fn drawn_vram(
    vram: Seq<Seq<u8>>,
    mem: Seq<u8>,
    i: int,
    vx: int,
    vy: int,
    n: int,
) -> Seq<Seq<u8>> {
    vram_after(vram, mem, i, vx, vy, n, 0)
}

/// The collision value of the cell (`r`, `c`): its incoming bit AND the pixel it lands on.
pub open spec fn cell_collision(
    vram: Seq<Seq<u8>>,
    mem: Seq<u8>,
    i: int,
    vx: int,
    vy: int,
    r: int,
    c: int,
) -> u8 {
    sprite_bit(mem[i + r], c) & vram[(vy + r) % (V_HEIGHT as int)][(vx + c) % (V_WIDTH as int)]
}

/// The flag register after drawing: the collision value of the last cell drawn,
/// or `old_flag` when the sprite has no rows.
pub open spec fn draw_flag(
    vram: Seq<Seq<u8>>,
    mem: Seq<u8>,
    i: int,
    vx: int,
    vy: int,
    n: int,
    old_flag: u8,
) -> u8 {
    if n == 0 {
        old_flag
    } else {
        cell_collision(vram, mem, i, vx, vy, n - 1, 7)
    }
}

/// Whether the `n` sprite bytes at the index register lie inside memory.
pub open spec fn sprite_in_memory(s: ChipView, n: int) -> bool {
    s.i + n <= MEMORY
}

/// DXYN: draws the `n`-byte sprite at the index register at (register `x`,
/// register `y`), sets the flag and marks the display changed; a no-op where
/// the sprite bytes would reach past memory.
pub open spec fn draw_spec(s: ChipView, x: int, y: int, n: int) -> (ChipView, Pc) {
    if sprite_in_memory(s, n) {
        let vx = s.v[x] as int;
        let vy = s.v[y] as int;
        (
            ChipView {
                vram: drawn_vram(s.vram, s.memory, s.i as int, vx, vy, n),
                v: s.v.update(15, draw_flag(s.vram, s.memory, s.i as int, vx, vy, n, s.v[15])),
                vram_changed: true,
                ..s
            },
            Pc::Next,
        )
    } else {
        (s, Pc::Next)
    }
}

// ---------------------------------------------------------------------------
// Keys

/// The lowest key code at or above `k` whose key is down, or 16 when none is.
pub open spec fn lowest_key_from(keys: Seq<bool>, k: int) -> int
    decreases 16 - k,
{
    if k >= 16 {
        16
    } else if keys[k] {
        k
    } else {
        lowest_key_from(keys, k + 1)
    }
}

/// Whether the key with code `code` is down; codes above 15 name no key.
pub open spec fn key_down(s: ChipView, code: u8) -> bool {
    code < 16 && s.keys[code as int]
}

// ---------------------------------------------------------------------------
// Instructions

/// 00EE: pops a return address and jumps to it; a no-op on an empty stack.
pub open spec fn return_spec(s: ChipView) -> (ChipView, Pc) {
    if 0 < s.sp <= STACK_SIZE {
        (ChipView { sp: (s.sp - 1) as usize, ..s }, Pc::Jump(s.stack[s.sp - 1]))
    } else {
        (s, Pc::Next)
    }
}

/// 2NNN: pushes the address after this instruction and jumps to NNN; a
/// no-op on a full stack.
pub open spec fn call_spec(s: ChipView, nnn: usize) -> (ChipView, Pc) {
    if s.sp < STACK_SIZE {
        (
            ChipView {
                stack: s.stack.update(s.sp as int, (s.pc + 2) as usize),
                sp: (s.sp + 1) as usize,
                ..s
            },
            Pc::Jump(nnn),
        )
    } else {
        (s, Pc::Next)
    }
}

/// 8XY4: register X plus register Y modulo 256; the flag is 1 on a carry.
pub open spec fn add_carry_spec(s: ChipView, x: int, y: int) -> ChipView {
    let sum = s.v[x] + s.v[y];
    set_reg(set_reg(s, x, (sum % 256) as u8), 15, if sum > 255 { 1u8 } else { 0u8 })
}

/// Register X becomes `a - b` modulo 256; the flag is 1 when nothing was borrowed.
pub open spec fn sub_spec(s: ChipView, x: int, a: u8, b: u8) -> ChipView {
    set_reg(set_reg(s, x, ((a - b) % 256) as u8), 15, if a >= b { 1u8 } else { 0u8 })
}

/// 8XY6: the flag takes the low bit of register Y, then register X takes Y shifted right.
pub open spec fn shift_right_spec(s: ChipView, x: int, y: int) -> ChipView {
    let vy = s.v[y];
    set_reg(set_reg(s, 15, vy % 2), x, vy / 2)
}

/// 8XYE: the flag takes the high bit of register Y, then register X takes Y
/// shifted left, keeping the low byte.
pub open spec fn shift_left_spec(s: ChipView, x: int, y: int) -> ChipView {
    let vy = s.v[y];
    set_reg(set_reg(s, 15, vy / 128), x, ((vy * 2) % 256) as u8)
}

/// FX0A: loads the lowest key that is down into register X, or holds the
/// program counter on this instruction while none is.
pub open spec fn wait_key_spec(s: ChipView, x: int) -> (ChipView, Pc) {
    let k = lowest_key_from(s.keys, 0);
    if k < 16 {
        (set_reg(s, x, k as u8), Pc::Next)
    } else {
        (s, Pc::Jump(s.pc))
    }
}

/// FX1E: adds register X to the index register, unless the sum would not fit.
pub open spec fn add_index_spec(s: ChipView, x: int) -> ChipView {
    if s.i + s.v[x] <= usize::MAX {
        ChipView { i: (s.i + s.v[x]) as usize, ..s }
    } else {
        s
    }
}

/// FX33: hundreds, tens and units of register X at the index register and
/// the two bytes after it; a no-op where they would reach past memory.
pub open spec fn bcd_spec(s: ChipView, x: int) -> ChipView {
    let vx = s.v[x];
    if s.i + 2 < MEMORY {
        ChipView {
            memory: s.memory.update(s.i as int, vx / 100).update(s.i + 1, (vx % 100) / 10).update(
                s.i + 2,
                vx % 10,
            ),
            ..s
        }
    } else {
        s
    }
}

/// Whether registers 0..=x fit in memory from the index register on.
pub open spec fn regs_in_memory(s: ChipView, x: int) -> bool {
    s.i + x < MEMORY
}

/// FX55: registers 0..=x to memory from the index register on, which then
/// moves past them; a no-op where they would reach past memory.
pub open spec fn dump_spec(s: ChipView, x: int) -> ChipView {
    if regs_in_memory(s, x) {
        ChipView {
            memory: Seq::new(
                MEMORY as nat,
                |a: int|
                    if s.i <= a <= s.i + x {
                        s.v[a - s.i]
                    } else {
                        s.memory[a]
                    },
            ),
            i: (s.i + x + 1) as usize,
            ..s
        }
    } else {
        s
    }
}

/// FX65: registers 0..=x from memory at the index register on, which then
/// moves past them; a no-op where they would reach past memory.
pub open spec fn load_spec(s: ChipView, x: int) -> ChipView {
    if regs_in_memory(s, x) {
        ChipView {
            v: Seq::new(
                16,
                |k: int|
                    if k <= x {
                        s.memory[s.i + k]
                    } else {
                        s.v[k]
                    },
            ),
            i: (s.i + x + 1) as usize,
            ..s
        }
    } else {
        s
    }
}

/// What one decoded instruction does to the state (all but the program
/// counter), and how it moves the program counter.
pub open spec fn execute_spec(s: ChipView, op: (u8, u8)) -> (ChipView, Pc) {
    let (a, b, c, d) = nybbles_of(op);
    let nnn = nnn_of(op);
    let nn = op.1;
    let x = b as int;
    let y = c as int;
    let n = d as int;
    match (a, b, c, d) {
        (0x0, 0x0, 0xe, 0x0) => (ChipView { vram: blank_vram(), vram_changed: true, ..s }, Pc::Next),
        (0x0, 0x0, 0xe, 0xe) => return_spec(s),
        (0x0, _, _, _) => (s, Pc::Next),
        (0x1, _, _, _) => (s, Pc::Jump(nnn)),
        (0x2, _, _, _) => call_spec(s, nnn),
        (0x3, _, _, _) => (s, skip_if(s.v[x] == nn)),
        (0x4, _, _, _) => (s, skip_if(s.v[x] != nn)),
        (0x5, _, _, 0x0) => (s, skip_if(s.v[x] == s.v[y])),
        (0x6, _, _, _) => (set_reg(s, x, nn), Pc::Next),
        (0x7, _, _, _) => (set_reg(s, x, ((s.v[x] + nn) % 256) as u8), Pc::Next),
        (0x8, _, _, 0x0) => (set_reg(s, x, s.v[y]), Pc::Next),
        (0x8, _, _, 0x1) => (set_reg(s, x, s.v[x] | s.v[y]), Pc::Next),
        (0x8, _, _, 0x2) => (set_reg(s, x, s.v[x] & s.v[y]), Pc::Next),
        (0x8, _, _, 0x3) => (set_reg(s, x, s.v[x] ^ s.v[y]), Pc::Next),
        (0x8, _, _, 0x4) => (add_carry_spec(s, x, y), Pc::Next),
        (0x8, _, _, 0x5) => (sub_spec(s, x, s.v[x], s.v[y]), Pc::Next),
        (0x8, _, _, 0x6) => (shift_right_spec(s, x, y), Pc::Next),
        (0x8, _, _, 0x7) => (sub_spec(s, x, s.v[y], s.v[x]), Pc::Next),
        (0x8, _, _, 0xe) => (shift_left_spec(s, x, y), Pc::Next),
        (0x9, _, _, 0x0) => (s, skip_if(s.v[x] != s.v[y])),
        (0xa, _, _, _) => (ChipView { i: nnn, ..s }, Pc::Next),
        (0xb, _, _, _) => (s, Pc::Jump((nnn + s.v[0]) as usize)),
        (0xc, _, _, _) => (set_reg(s, x, s.random & nn), Pc::Next),
        (0xd, _, _, _) => draw_spec(s, x, y, n),
        (0xe, _, 0x9, 0xe) => (s, skip_if(key_down(s, s.v[x]))),
        (0xe, _, 0xa, 0x1) => (s, skip_if(!key_down(s, s.v[x]))),
        (0xf, _, 0x0, 0x7) => (set_reg(s, x, s.delay_timer), Pc::Next),
        (0xf, _, 0x0, 0xa) => wait_key_spec(s, x),
        (0xf, _, 0x1, 0x5) => (ChipView { delay_timer: s.v[x], ..s }, Pc::Next),
        (0xf, _, 0x1, 0x8) => (ChipView { sound_timer: s.v[x], ..s }, Pc::Next),
        (0xf, _, 0x1, 0xe) => (add_index_spec(s, x), Pc::Next),
        (0xf, _, 0x2, 0x9) => (
            ChipView { i: ((s.v[x] % 16) * FONT_GLYPH_BYTES) as usize, ..s },
            Pc::Next,
        ),
        (0xf, _, 0x3, 0x3) => (bcd_spec(s, x), Pc::Next),
        (0xf, _, 0x5, 0x5) => (dump_spec(s, x), Pc::Next),
        (0xf, _, 0x6, 0x5) => (load_spec(s, x), Pc::Next),
        _ => (s, Pc::Next),
    }
}

/// One cycle on a fetched opcode: record it, execute it, move the program counter.
pub open spec fn step(s: ChipView, op: (u8, u8)) -> ChipView {
    let s1 = ChipView { current_op: op, ..s };
    let (s2, d) = execute_spec(s1, op);
    ChipView { pc: next_pc(s1.pc, d) as usize, ..s2 }
}

/// A freshly built interpreter: everything zero, the program counter at the load address.
pub open spec fn initial_view() -> ChipView {
    ChipView {
        i: 0,
        v: Seq::new(16, |k: int| 0u8),
        vram: blank_vram(),
        vram_changed: false,
        pc: ROM_LOAD_INDEX,
        stack: Seq::new(STACK_SIZE as nat, |k: int| 0usize),
        sp: 0,
        memory: Seq::new(MEMORY as nat, |a: int| 0u8),
        current_op: (0, 0),
        delay_timer: 0,
        sound_timer: 0,
        keys: Seq::new(16, |k: int| false),
        random: 0,
    }
}

/// Memory with a program image copied in from the load address on; bytes
/// that would fall past the end of memory are dropped.
pub open spec fn loaded_memory(memory: Seq<u8>, rom: Seq<u8>) -> Seq<u8> {
    Seq::new(
        MEMORY as nat,
        |a: int|
            if ROM_LOAD_INDEX <= a < ROM_LOAD_INDEX + rom.len() {
                rom[a - ROM_LOAD_INDEX]
            } else {
                memory[a]
            },
    )
}

/// The opcode at the program counter, or (0, 0) where it would reach past memory.
pub open spec fn fetch_spec(s: ChipView) -> (u8, u8) {
    if s.pc + 1 < MEMORY {
        (s.memory[s.pc as int], s.memory[s.pc + 1])
    } else {
        (0, 0)
    }
}

} // verus!
