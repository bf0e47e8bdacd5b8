use vstd::prelude::*;

use crate::chip8::Chip8;
use crate::model::{drawn_vram, sprite_bit, step, ChipView, MEMORY, STACK_SIZE};

verus! {

/// The shapes that every interpreter state has.
pub open spec fn well_shaped(s: ChipView) -> bool {
    &&& s.v.len() == 16
    &&& s.vram.len() == 32
    &&& forall|r: int| 0 <= r < 32 ==> (#[trigger] s.vram[r]).len() == 64
    &&& s.stack.len() == STACK_SIZE
    &&& s.memory.len() == MEMORY
    &&& s.keys.len() == 16
}

/// Every interpreter's state has those shapes, so the laws below apply to it.
pub proof fn lemma_view_well_shaped(c: Chip8)
    ensures
        well_shaped(c@),
{
}

/// The opcode 8XYK.
pub open spec fn alu_op(x: u8, y: u8, k: u8) -> (u8, u8) {
    ((0x80 + x) as u8, (y * 16 + k) as u8)
}

/// Adding register Y to register X wraps modulo 256, and the flag register
/// becomes 1 exactly when the true sum exceeds 255, else 0.
pub proof fn law_add_wraps(s: ChipView, x: u8, y: u8)
    requires
        well_shaped(s),
        x < 16,
        y < 16,
    ensures
        ({
            let t = step(s, alu_op(x, y, 4));
            let sum = s.v[x as int] + s.v[y as int];
            &&& x != 15 ==> t.v[x as int] == sum % 256
            &&& t.v[15] == (if sum > 255 { 1u8 } else { 0u8 })
        }),
{
}

/// Subtracting register Y from register X wraps modulo 256, and the flag
/// register becomes 1 exactly when no borrow happened (X >= Y), else 0.
pub proof fn law_sub_wraps(s: ChipView, x: u8, y: u8)
    requires
        well_shaped(s),
        x < 16,
        y < 16,
    ensures
        ({
            let t = step(s, alu_op(x, y, 5));
            &&& x != 15 ==> t.v[x as int] == (s.v[x as int] - s.v[y as int]) % 256
            &&& t.v[15] == (if s.v[x as int] >= s.v[y as int] { 1u8 } else { 0u8 })
        }),
{
}

/// Subtracting register X from register Y into register X wraps modulo 256,
/// and the flag register becomes 1 exactly when no borrow happened (Y >= X), else 0.
pub proof fn law_sub_reversed_wraps(s: ChipView, x: u8, y: u8)
    requires
        well_shaped(s),
        x < 16,
        y < 16,
    ensures
        ({
            let t = step(s, alu_op(x, y, 7));
            &&& x != 15 ==> t.v[x as int] == (s.v[y as int] - s.v[x as int]) % 256
            &&& t.v[15] == (if s.v[y as int] >= s.v[x as int] { 1u8 } else { 0u8 })
        }),
{
}

/// A call to NNN immediately followed by a return leaves the program counter
/// on the instruction after the call and the stack pointer where it was.
pub proof fn law_call_return(s: ChipView, hi: u8, lo: u8)
    requires
        well_shaped(s),
        s.sp < STACK_SIZE,
        s.pc <= usize::MAX - 4,
        hi < 16,
    ensures
        ({
            let t = step(step(s, ((0x20 + hi) as u8, lo)), (0x00, 0xee));
            t.pc == s.pc + 2 && t.sp == s.sp
        }),
{
}

/// Exclusive-or with the same bit twice gives the pixel back.
proof fn lemma_xor_twice(a: u8, b: u8)
    ensures
        (a ^ b) ^ b == a,
{
    assert((a ^ b) ^ b == a) by (bit_vector);
}

/// Drawing the same sprite at the same place twice gives the display back.
/// The coordinate registers X and Y are not the flag register, which the
/// first draw overwrites.
pub proof fn law_draw_twice(s: ChipView, x: u8, y: u8, n: u8)
    requires
        well_shaped(s),
        x < 15,
        y < 15,
        n < 16,
    ensures
        ({
            let op = ((0xd0 + x) as u8, (y * 16 + n) as u8);
            step(step(s, op), op).vram == s.vram
        }),
{
    let op = ((0xd0 + x) as u8, (y * 16 + n) as u8);
    let t1 = step(s, op);
    let t2 = step(t1, op);
    if s.i + n <= MEMORY {
        let vx = s.v[x as int] as int;
        let vy = s.v[y as int] as int;
        let i = s.i as int;
        assert(t1.v[x as int] == s.v[x as int]);
        assert(t1.v[y as int] == s.v[y as int]);
        assert(t1.vram == drawn_vram(s.vram, s.memory, i, vx, vy, n as int));
        assert(t2.vram == drawn_vram(t1.vram, s.memory, i, vx, vy, n as int));
        assert forall|py: int, px: int| 0 <= py < 32 && 0 <= px < 64 implies #[trigger] t2.vram[py][px]
            == s.vram[py][px] by {
            let r = (py - vy) % 32;
            let c = (px - vx) % 64;
            if c < 8 && r < n {
                lemma_xor_twice(s.vram[py][px], sprite_bit(s.memory[i + r], c));
            }
        }
        assert(t2.vram =~~= s.vram);
    }
}

/// Sprite cell (`r`, `c`) lands on display row `(vy + r) mod 32` and column
/// `(vx + c) mod 64`, where its bit is combined into the pixel by exclusive-or:
/// a sprite crossing the right or bottom edge wraps to the left or top.
pub proof fn law_sprite_placement(
    vram: Seq<Seq<u8>>,
    mem: Seq<u8>,
    i: int,
    vx: int,
    vy: int,
    n: int,
    r: int,
    c: int,
)
    requires
        vram.len() == 32,
        forall|k: int| 0 <= k < 32 ==> (#[trigger] vram[k]).len() == 64,
        0 <= r < n < 16,
        0 <= c < 8,
    ensures
        drawn_vram(vram, mem, i, vx, vy, n)[(vy + r) % 32][(vx + c) % 64] == vram[(vy + r)
            % 32][(vx + c) % 64] ^ sprite_bit(mem[i + r], c),
{
    let py = (vy + r) % 32;
    let px = (vx + c) % 64;
    assert((py - vy) % 32 == r);
    assert((px - vx) % 64 == c);
}

/// Storing the decimal digits of register X writes three digits below ten
/// that spell its value: hundreds, tens, units.
pub proof fn law_bcd_digits(s: ChipView, x: u8)
    requires
        well_shaped(s),
        x < 16,
        s.i + 2 < MEMORY,
    ensures
        ({
            let t = step(s, ((0xf0 + x) as u8, 0x33));
            let i = s.i as int;
            &&& t.memory[i] < 10 && t.memory[i + 1] < 10 && t.memory[i + 2] < 10
            &&& t.memory[i] * 100 + t.memory[i + 1] * 10 + t.memory[i + 2] == s.v[x as int]
        }),
{
}

/// Dumping registers 0..=X and then loading them back from the same base
/// restores every register; each of the two moves the index register by X + 1.
pub proof fn law_dump_load(s: ChipView, x: u8)
    requires
        well_shaped(s),
        x < 16,
        s.i + x < MEMORY,
    ensures
        ({
            let dumped = step(s, ((0xf0 + x) as u8, 0x55));
            let loaded = step(ChipView { i: s.i, ..dumped }, ((0xf0 + x) as u8, 0x65));
            &&& loaded.v == s.v
            &&& dumped.i == s.i + x + 1
            &&& loaded.i == s.i + x + 1
        }),
{
    let dumped = step(s, ((0xf0 + x) as u8, 0x55));
    let loaded = step(ChipView { i: s.i, ..dumped }, ((0xf0 + x) as u8, 0x65));
    assert(loaded.v =~= s.v);
}

} // verus!
