use vstd::prelude::*;

use crate::model::{
    add_carry_spec, add_index_spec, execute_spec, fetch_spec, initial_view, loaded_memory, step, bcd_spec, blank_vram, call_spec, cell_collision, draw_flag,
    draw_spec, dump_spec, key_down, load_spec, lowest_key_from, nybbles_of, return_spec, set_reg,
    shift_left_spec, shift_right_spec, skip_if, sub_spec, vram_after, wait_key_spec, ChipView, Pc,
    FONT_GLYPH_BYTES, MEMORY, ROM_LOAD_INDEX, STACK_SIZE, V_HEIGHT, V_WIDTH,
};

verus! {

/// An interpreter: all of its state, owned by one instance.
#[derive(Debug)]
pub struct Chip8 {
    /// Index register.
    pub i: usize,
    /// General registers; register 15 is the flag register.
    pub v: [u8; 16],
    /// Display, one byte per pixel, rows first.
    pub vram: [[u8; 64]; 32],
    /// Set whenever an instruction changes the display; only the host clears it.
    pub vram_changed: bool,
    /// Address of the next instruction.
    pub pc: usize,
    /// Return addresses; the first `sp` entries are in use.
    pub stack: [usize; 16],
    pub sp: usize,
    pub memory: [u8; 4096],
    /// The last opcode executed.
    pub current_op: (u8, u8),
    /// Delay timer, counted down by the host.
    pub delay_timer: u8,
    /// Sound timer, counted down by the host.
    pub sound_timer: u8,
    /// Which of the sixteen keys are down, as the host last reported.
    pub keys: [bool; 16],
    /// The random byte for the next random-load instruction, supplied by the host.
    pub random: u8,
}

/// A read-only snapshot of the registers and the call stack.
#[derive(Debug)]
pub struct DebugInfo {
    pub i: usize,
    pub v: [u8; 16],
    pub pc: usize,
    pub stack: [usize; 16],
    pub sp: usize,
}

/// The display as a sequence of rows.
pub open spec fn vram_view(vram: [[u8; 64]; 32]) -> Seq<Seq<u8>> {
    vram@.map_values(|row: [u8; 64]| row@)
}

impl View for Chip8 {
    type V = ChipView;

    open spec fn view(&self) -> ChipView {
        ChipView {
            i: self.i,
            v: self.v@,
            vram: vram_view(self.vram),
            vram_changed: self.vram_changed,
            pc: self.pc,
            stack: self.stack@,
            sp: self.sp,
            memory: self.memory@,
            current_op: self.current_op,
            delay_timer: self.delay_timer,
            sound_timer: self.sound_timer,
            keys: self.keys@,
            random: self.random,
        }
    }
}

/// Splits an opcode into its four 4-bit fields, most significant first.
pub fn to_nybbles(op: (u8, u8)) -> (r: (u8, u8, u8, u8))
    ensures
        r == nybbles_of(op),
{
    let (hi, lo) = op;
    assert((hi & 0xF0u8) >> 4u8 == hi / 16 && hi & 0x0Fu8 == hi % 16) by (bit_vector);
    assert((lo & 0xF0u8) >> 4u8 == lo / 16 && lo & 0x0Fu8 == lo % 16) by (bit_vector);
    ((hi & 0xF0) >> 4, hi & 0x0F, (lo & 0xF0) >> 4, lo & 0x0F)
}

/// For a row or column offset `k` below the size `m` of its axis, pixel `p`
/// is the one that offset `k` from `v` wraps to exactly when `p - v` wraps to `k`.
proof fn lemma_wrap_inverse(v: int, k: int, p: int, m: int)
    requires
        m == 32 || m == 64,
        0 <= k < m,
        0 <= p < m,
    ensures
        ((p - v) % m == k) <==> (p == (v + k) % m),
{
}

/// Only the conditional-skip instructions skip, and each by one instruction.
proof fn lemma_skip_one(s: ChipView, op: (u8, u8))
    ensures
        execute_spec(s, op).1 matches Pc::Skip(k) ==> k == 1,
{
}

impl Chip8 {
    /// A new interpreter: memory, registers, stack and display zeroed, the
    /// program counter at the load address.
    pub fn new() -> (r: Self)
        ensures
            r@ == initial_view(),
    {
        let r = Chip8 {
            i: 0,
            v: [0; 16],
            vram: [[0; 64]; 32],
            vram_changed: false,
            pc: ROM_LOAD_INDEX,
            stack: [0; 16],
            sp: 0,
            memory: [0; 4096],
            current_op: (0, 0),
            delay_timer: 0,
            sound_timer: 0,
            keys: [false; 16],
            random: 0,
        };
        assert(r@ =~~= initial_view());
        r
    }

    /// A snapshot of the index register, the registers, the program counter and the stack.
    pub fn debug_info(&self) -> (r: DebugInfo)
        ensures
            r.i == self.i,
            r.v == self.v,
            r.pc == self.pc,
            r.stack == self.stack,
            r.sp == self.sp,
    {
        DebugInfo { i: self.i, v: self.v, pc: self.pc, stack: self.stack, sp: self.sp }
    }

    /// Copies a program image into memory from the load address on; bytes
    /// that would fall past the end of memory are dropped.
    pub fn load_rom(&mut self, rom: &[u8])
        ensures
            final(self)@ == (ChipView { memory: loaded_memory(old(self).memory@, rom@), ..old(self)@ }),
    {
        let mut memory = self.memory;
        let mut k: usize = 0;
        while k < rom.len()
            invariant
                k <= rom.len(),
                forall|a: int|
                    0 <= a < MEMORY ==> #[trigger] memory@[a] == if ROM_LOAD_INDEX <= a < ROM_LOAD_INDEX + k {
                        rom@[a - ROM_LOAD_INDEX]
                    } else {
                        old(self).memory@[a]
                    },
            decreases rom.len() - k,
        {
            if k < MEMORY - ROM_LOAD_INDEX {
                memory[ROM_LOAD_INDEX + k] = rom[k];
            }
            k += 1;
        }
        self.memory = memory;
        assert(self.memory@ =~= loaded_memory(old(self).memory@, rom@));
    }

    /// Runs one cycle: fetches the opcode at the program counter and runs it.
    pub fn execute(&mut self)
        requires
            old(self).pc <= usize::MAX - 4,
        ensures
            final(self)@ == step(old(self)@, fetch_spec(old(self)@)),
    {
        let op = self.get_current_op();
        self.run_op(op)
    }

    /// The two bytes at the program counter, or (0, 0) where the second would
    /// lie past the end of memory.
    fn get_current_op(&self) -> (r: (u8, u8))
        ensures
            r == fetch_spec(self@),
    {
        if self.pc < MEMORY - 1 {
            return (self.memory[self.pc], self.memory[self.pc + 1]);
        }
        (0, 0)
    }

    /// Runs one opcode: records it, executes the instruction it names (an
    /// opcode that names none changes nothing) and moves the program counter.
    pub fn run_op(&mut self, opcode: (u8, u8))
        requires
            old(self).pc <= usize::MAX - 4,
        ensures
            final(self)@ == step(old(self)@, opcode),
    {
        let nybbles = to_nybbles(opcode);
        let hi = opcode.0;
        assert(hi & 0x0Fu8 == hi % 16) by (bit_vector);
        let nnn = (hi & 0x0F) as usize * 256 + opcode.1 as usize;
        let nn = opcode.1;
        let x = nybbles.1 as usize;
        let y = nybbles.2 as usize;
        let n = nybbles.3 as usize;

        self.current_op = opcode;
        let ghost s1 = self@;

        let pc_next: Pc = match nybbles {
            (0x00, 0x00, 0x0e, 0x00) => self.op_00e0(),
            (0x00, 0x00, 0x0e, 0x0e) => self.op_00ee(),
            (0x00, _, _, _) => self.op_0nnn(),
            (0x01, _, _, _) => self.op_1nnn(nnn),
            (0x02, _, _, _) => self.op_2nnn(nnn),
            (0x03, _, _, _) => self.op_3xnn(x, nn),
            (0x04, _, _, _) => self.op_4xnn(x, nn),
            (0x05, _, _, 0x00) => self.op_5xy0(x, y),
            (0x06, _, _, _) => self.op_6xnn(x, nn),
            (0x07, _, _, _) => self.op_7xnn(x, nn),
            (0x08, _, _, 0x00) => self.op_8xy0(x, y),
            (0x08, _, _, 0x01) => self.op_8xy1(x, y),
            (0x08, _, _, 0x02) => self.op_8xy2(x, y),
            (0x08, _, _, 0x03) => self.op_8xy3(x, y),
            (0x08, _, _, 0x04) => self.op_8xy4(x, y),
            (0x08, _, _, 0x05) => self.op_8xy5(x, y),
            (0x08, _, _, 0x06) => self.op_8xy6(x, y),
            (0x08, _, _, 0x07) => self.op_8xy7(x, y),
            (0x08, _, _, 0x0e) => self.op_8xye(x, y),
            (0x09, _, _, 0x00) => self.op_9xy0(x, y),
            (0x0a, _, _, _) => self.op_annn(nnn),
            (0x0b, _, _, _) => self.op_bnnn(nnn),
            (0x0c, _, _, _) => self.op_cxnn(x, nn),
            (0x0d, _, _, _) => self.op_dxyn(x, y, n),
            (0x0e, _, 0x09, 0x0e) => self.op_ex9e(x),
            (0x0e, _, 0x0a, 0x01) => self.op_exa1(x),
            (0x0f, _, 0x00, 0x07) => self.op_fx07(x),
            (0x0f, _, 0x00, 0x0a) => self.op_fx0a(x),
            (0x0f, _, 0x01, 0x05) => self.op_fx15(x),
            (0x0f, _, 0x01, 0x08) => self.op_fx18(x),
            (0x0f, _, 0x01, 0x0e) => self.op_fx1e(x),
            (0x0f, _, 0x02, 0x09) => self.op_fx29(x),
            (0x0f, _, 0x03, 0x03) => self.op_fx33(x),
            (0x0f, _, 0x05, 0x05) => self.op_fx55(x),
            (0x0f, _, 0x06, 0x05) => self.op_fx65(x),
            (_, _, _, _) => self.no_op(),
        };
        assert((self@, pc_next) == execute_spec(s1, opcode));
        proof {
            lemma_skip_one(s1, opcode);
        }

        match pc_next {
            Pc::Jump(addr) => self.pc = addr,
            Pc::Skip(k) => self.pc = self.pc + (k * 2) + 2,
            Pc::Next => self.pc = self.pc + 2,
        }
        assert(self@ =~~= step(old(self)@, opcode));
    }

    /// 00E0: clears the display.
    fn op_00e0(&mut self) -> (r: Pc)
        ensures
            (final(self)@, r) == (ChipView { vram: blank_vram(), vram_changed: true, ..old(self)@ }, Pc::Next),
    {
        self.vram = [[0u8; 64]; 32];
        self.vram_changed = true;
        assert(vram_view(self.vram) =~~= blank_vram());
        Pc::Next
    }

    /// 00EE: returns from a subroutine; an empty stack makes it a no-op.
    fn op_00ee(&mut self) -> (r: Pc)
        ensures
            (final(self)@, r) == return_spec(old(self)@),
    {
        if self.sp == 0 || self.sp > STACK_SIZE {
            return Pc::Next;
        }
        self.sp -= 1;
        Pc::Jump(self.stack[self.sp])
    }

    /// 0NNN: a call into native code, which this machine has none of: a no-op.
    fn op_0nnn(&self) -> (r: Pc)
        ensures
            r == Pc::Next,
    {
        Pc::Next
    }

    /// 1NNN: jumps to NNN.
    fn op_1nnn(&self, nnn: usize) -> (r: Pc)
        ensures
            r == Pc::Jump(nnn),
    {
        Pc::Jump(nnn)
    }

    /// 2NNN: calls the subroutine at NNN; a full stack makes it a no-op.
    fn op_2nnn(&mut self, nnn: usize) -> (r: Pc)
        requires
            old(self).pc + 2 <= usize::MAX,
        ensures
            (final(self)@, r) == call_spec(old(self)@, nnn),
    {
        if self.sp >= STACK_SIZE {
            return Pc::Next;
        }
        self.stack[self.sp] = self.pc + 2;
        self.sp += 1;
        Pc::Jump(nnn)
    }

    /// 3XNN: skips the next instruction when register X equals NN.
    fn op_3xnn(&self, x: usize, nn: u8) -> (r: Pc)
        requires
            x < 16,
        ensures
            r == skip_if(self.v[x as int] == nn),
    {
        if self.v[x] == nn {
            return Pc::Skip(1);
        }
        Pc::Next
    }

    /// 4XNN: skips the next instruction when register X differs from NN.
    fn op_4xnn(&self, x: usize, nn: u8) -> (r: Pc)
        requires
            x < 16,
        ensures
            r == skip_if(self.v[x as int] != nn),
    {
        if self.v[x] != nn {
            return Pc::Skip(1);
        }
        Pc::Next
    }

    /// 5XY0: skips the next instruction when registers X and Y are equal.
    fn op_5xy0(&self, x: usize, y: usize) -> (r: Pc)
        requires
            x < 16,
            y < 16,
        ensures
            r == skip_if(self.v[x as int] == self.v[y as int]),
    {
        if self.v[x] == self.v[y] {
            return Pc::Skip(1);
        }
        Pc::Next
    }

    /// 6XNN: loads NN into register X.
    fn op_6xnn(&mut self, x: usize, nn: u8) -> (r: Pc)
        requires
            x < 16,
        ensures
            (final(self)@, r) == (set_reg(old(self)@, x as int, nn), Pc::Next),
    {
        self.v[x] = nn;
        Pc::Next
    }

    /// 7XNN: adds NN to register X, wrapping, without touching the flag.
    fn op_7xnn(&mut self, x: usize, nn: u8) -> (r: Pc)
        requires
            x < 16,
        ensures
            (final(self)@, r) == (
                set_reg(old(self)@, x as int, ((old(self).v[x as int] + nn) % 256) as u8),
                Pc::Next,
            ),
    {
        self.v[x] = self.v[x].wrapping_add(nn);
        Pc::Next
    }

    /// 8XY0: copies register Y into register X.
    fn op_8xy0(&mut self, x: usize, y: usize) -> (r: Pc)
        requires
            x < 16,
            y < 16,
        ensures
            (final(self)@, r) == (set_reg(old(self)@, x as int, old(self).v[y as int]), Pc::Next),
    {
        self.v[x] = self.v[y];
        Pc::Next
    }

    /// 8XY1: register X becomes X OR Y.
    fn op_8xy1(&mut self, x: usize, y: usize) -> (r: Pc)
        requires
            x < 16,
            y < 16,
        ensures
            (final(self)@, r) == (
                set_reg(old(self)@, x as int, old(self).v[x as int] | old(self).v[y as int]),
                Pc::Next,
            ),
    {
        self.v[x] = self.v[x] | self.v[y];
        Pc::Next
    }

    /// 8XY2: register X becomes X AND Y.
    fn op_8xy2(&mut self, x: usize, y: usize) -> (r: Pc)
        requires
            x < 16,
            y < 16,
        ensures
            (final(self)@, r) == (
                set_reg(old(self)@, x as int, old(self).v[x as int] & old(self).v[y as int]),
                Pc::Next,
            ),
    {
        self.v[x] = self.v[x] & self.v[y];
        Pc::Next
    }

    /// 8XY3: register X becomes X XOR Y.
    fn op_8xy3(&mut self, x: usize, y: usize) -> (r: Pc)
        requires
            x < 16,
            y < 16,
        ensures
            (final(self)@, r) == (
                set_reg(old(self)@, x as int, old(self).v[x as int] ^ old(self).v[y as int]),
                Pc::Next,
            ),
    {
        self.v[x] = self.v[x] ^ self.v[y];
        Pc::Next
    }

    /// 8XY4: adds register Y to register X, wrapping; the flag tells whether it carried.
    fn op_8xy4(&mut self, x: usize, y: usize) -> (r: Pc)
        requires
            x < 16,
            y < 16,
        ensures
            (final(self)@, r) == (add_carry_spec(old(self)@, x as int, y as int), Pc::Next),
    {
        let sum: u16 = self.v[x] as u16 + self.v[y] as u16;
        self.v[x] = (sum % 256) as u8;
        if sum > 255 {
            self.v[15] = 1;
        } else {
            self.v[15] = 0;
        }
        Pc::Next
    }

    /// Register X becomes `a - b`, wrapping; the flag is 1 when nothing was borrowed.
    fn sub_into(&mut self, x: usize, a: u8, b: u8)
        requires
            x < 16,
        ensures
            final(self)@ == sub_spec(old(self)@, x as int, a, b),
    {
        self.v[x] = a.wrapping_sub(b);
        if a >= b {
            self.v[15] = 1;
        } else {
            self.v[15] = 0;
        }
    }

    /// 8XY5: subtracts register Y from register X.
    fn op_8xy5(&mut self, x: usize, y: usize) -> (r: Pc)
        requires
            x < 16,
            y < 16,
        ensures
            (final(self)@, r) == (
                sub_spec(old(self)@, x as int, old(self).v[x as int], old(self).v[y as int]),
                Pc::Next,
            ),
    {
        let vx = self.v[x];
        let vy = self.v[y];
        self.sub_into(x, vx, vy);
        Pc::Next
    }

    /// 8XY6: register X becomes register Y shifted right; the flag takes the bit shifted out.
    fn op_8xy6(&mut self, x: usize, y: usize) -> (r: Pc)
        requires
            x < 16,
            y < 16,
        ensures
            (final(self)@, r) == (shift_right_spec(old(self)@, x as int, y as int), Pc::Next),
    {
        let vy = self.v[y];
        assert(vy & 1u8 == vy % 2 && vy >> 1u8 == vy / 2) by (bit_vector);
        self.v[15] = vy & 1;
        self.v[x] = vy >> 1;
        Pc::Next
    }

    /// 8XY7: register X becomes register Y minus register X.
    fn op_8xy7(&mut self, x: usize, y: usize) -> (r: Pc)
        requires
            x < 16,
            y < 16,
        ensures
            (final(self)@, r) == (
                sub_spec(old(self)@, x as int, old(self).v[y as int], old(self).v[x as int]),
                Pc::Next,
            ),
    {
        let vx = self.v[x];
        let vy = self.v[y];
        self.sub_into(x, vy, vx);
        Pc::Next
    }

    /// 8XYE: register X becomes register Y shifted left; the flag takes the bit shifted out.
    fn op_8xye(&mut self, x: usize, y: usize) -> (r: Pc)
        requires
            x < 16,
            y < 16,
        ensures
            (final(self)@, r) == (shift_left_spec(old(self)@, x as int, y as int), Pc::Next),
    {
        let vy = self.v[y];
        assert((vy >> 7u8) & 1u8 == vy / 128 && vy << 1u8 == (vy * 2) % 256) by (bit_vector);
        self.v[15] = (vy >> 7) & 1;
        self.v[x] = vy << 1;
        Pc::Next
    }

    /// 9XY0: skips the next instruction when registers X and Y differ.
    fn op_9xy0(&self, x: usize, y: usize) -> (r: Pc)
        requires
            x < 16,
            y < 16,
        ensures
            r == skip_if(self.v[x as int] != self.v[y as int]),
    {
        if self.v[x] != self.v[y] {
            return Pc::Skip(1);
        }
        Pc::Next
    }

    /// ANNN: loads NNN into the index register.
    fn op_annn(&mut self, nnn: usize) -> (r: Pc)
        ensures
            (final(self)@, r) == (ChipView { i: nnn, ..old(self)@ }, Pc::Next),
    {
        self.i = nnn;
        Pc::Next
    }

    /// BNNN: jumps to NNN plus register 0.
    fn op_bnnn(&self, nnn: usize) -> (r: Pc)
        requires
            nnn < 4096,
        ensures
            r == Pc::Jump((nnn + self.v[0]) as usize),
    {
        Pc::Jump(nnn + self.v[0] as usize)
    }

    /// CXNN: register X becomes the host's random byte masked with NN.
    fn op_cxnn(&mut self, x: usize, nn: u8) -> (r: Pc)
        requires
            x < 16,
        ensures
            (final(self)@, r) == (set_reg(old(self)@, x as int, old(self).random & nn), Pc::Next),
    {
        self.v[x] = self.random & nn;
        Pc::Next
    }

    /// Whether the key named by `code` is down; codes above 15 name no key.
    fn key_is_down(&self, code: u8) -> (r: bool)
        ensures
            r == key_down(self@, code),
    {
        code < 16 && self.keys[code as usize]
    }

    /// EX9E: skips the next instruction when the key in register X is down.
    fn op_ex9e(&self, x: usize) -> (r: Pc)
        requires
            x < 16,
        ensures
            r == skip_if(key_down(self@, self.v[x as int])),
    {
        if self.key_is_down(self.v[x]) {
            return Pc::Skip(1);
        }
        Pc::Next
    }

    /// EXA1: skips the next instruction when the key in register X is up.
    fn op_exa1(&self, x: usize) -> (r: Pc)
        requires
            x < 16,
        ensures
            r == skip_if(!key_down(self@, self.v[x as int])),
    {
        if !self.key_is_down(self.v[x]) {
            return Pc::Skip(1);
        }
        Pc::Next
    }

    /// FX07: loads the delay timer into register X.
    fn op_fx07(&mut self, x: usize) -> (r: Pc)
        requires
            x < 16,
        ensures
            (final(self)@, r) == (set_reg(old(self)@, x as int, old(self).delay_timer), Pc::Next),
    {
        self.v[x] = self.delay_timer;
        Pc::Next
    }

    /// FX0A: waits for a key: loads the lowest key that is down into register
    /// X, or stays on this instruction while none is.
    fn op_fx0a(&mut self, x: usize) -> (r: Pc)
        requires
            x < 16,
        ensures
            (final(self)@, r) == wait_key_spec(old(self)@, x as int),
    {
        let mut k: usize = 0;
        while k < 16 && !self.keys[k]
            invariant
                k <= 16,
                lowest_key_from(self.keys@, 0) == lowest_key_from(self.keys@, k as int),
            decreases 16 - k,
        {
            k += 1;
        }
        if k < 16 {
            self.v[x] = k as u8;
            Pc::Next
        } else {
            Pc::Jump(self.pc)
        }
    }

    /// FX15: sets the delay timer from register X.
    fn op_fx15(&mut self, x: usize) -> (r: Pc)
        requires
            x < 16,
        ensures
            (final(self)@, r) == (ChipView { delay_timer: old(self).v[x as int], ..old(self)@ }, Pc::Next),
    {
        self.delay_timer = self.v[x];
        Pc::Next
    }

    /// FX18: sets the sound timer from register X.
    fn op_fx18(&mut self, x: usize) -> (r: Pc)
        requires
            x < 16,
        ensures
            (final(self)@, r) == (ChipView { sound_timer: old(self).v[x as int], ..old(self)@ }, Pc::Next),
    {
        self.sound_timer = self.v[x];
        Pc::Next
    }

    /// FX1E: adds register X to the index register; a no-op where the sum would not fit.
    fn op_fx1e(&mut self, x: usize) -> (r: Pc)
        requires
            x < 16,
        ensures
            (final(self)@, r) == (add_index_spec(old(self)@, x as int), Pc::Next),
    {
        let vx = self.v[x] as usize;
        if vx <= usize::MAX - self.i {
            self.i = self.i + vx;
        }
        Pc::Next
    }

    /// FX29: points the index register at the font glyph of the digit in register X.
    fn op_fx29(&mut self, x: usize) -> (r: Pc)
        requires
            x < 16,
        ensures
            (final(self)@, r) == (
                ChipView { i: ((old(self).v[x as int] % 16) * FONT_GLYPH_BYTES) as usize, ..old(self)@ },
                Pc::Next,
            ),
    {
        self.i = (self.v[x] % 16) as usize * FONT_GLYPH_BYTES;
        Pc::Next
    }

    /// FX33: stores the decimal digits of register X at the index register;
    /// a no-op where they would reach past memory.
    fn op_fx33(&mut self, x: usize) -> (r: Pc)
        requires
            x < 16,
        ensures
            (final(self)@, r) == (bcd_spec(old(self)@, x as int), Pc::Next),
    {
        if self.i >= MEMORY - 2 {
            return Pc::Next;
        }
        let vx = self.v[x];
        self.memory[self.i] = vx / 100;
        self.memory[self.i + 1] = (vx % 100) / 10;
        self.memory[self.i + 2] = vx % 10;
        Pc::Next
    }

    /// FX55: stores registers 0..=X from the index register on, which then
    /// moves past them; a no-op where they would reach past memory.
    fn op_fx55(&mut self, x: usize) -> (r: Pc)
        requires
            x < 16,
        ensures
            (final(self)@, r) == (dump_spec(old(self)@, x as int), Pc::Next),
    {
        if self.i >= MEMORY || x >= MEMORY - self.i {
            return Pc::Next;
        }
        let ghost s0 = self@;
        let base = self.i;
        let mut memory = self.memory;
        let mut pos: usize = 0;
        while pos <= x
            invariant
                pos <= x + 1,
                x < 16,
                base + x < MEMORY,
                self.v == old(self).v,
                forall|a: int|
                    0 <= a < MEMORY ==> #[trigger] memory@[a] == if base <= a < base + pos {
                        self.v@[a - base]
                    } else {
                        s0.memory[a]
                    },
            decreases x + 1 - pos,
        {
            memory[base + pos] = self.v[pos];
            pos += 1;
        }
        self.memory = memory;
        self.i = base + x + 1;
        assert(self@ =~~= dump_spec(s0, x as int));
        Pc::Next
    }

    /// FX65: loads registers 0..=X from the index register on, which then
    /// moves past them; a no-op where they would reach past memory.
    fn op_fx65(&mut self, x: usize) -> (r: Pc)
        requires
            x < 16,
        ensures
            (final(self)@, r) == (load_spec(old(self)@, x as int), Pc::Next),
    {
        if self.i >= MEMORY || x >= MEMORY - self.i {
            return Pc::Next;
        }
        let ghost s0 = self@;
        let base = self.i;
        let mut v = self.v;
        let mut pos: usize = 0;
        while pos <= x
            invariant
                pos <= x + 1,
                x < 16,
                base + x < MEMORY,
                self.memory == old(self).memory,
                forall|k: int|
                    0 <= k < 16 ==> #[trigger] v@[k] == if k < pos {
                        self.memory@[base + k]
                    } else {
                        s0.v[k]
                    },
            decreases x + 1 - pos,
        {
            v[pos] = self.memory[base + pos];
            pos += 1;
        }
        self.v = v;
        self.i = base + x + 1;
        assert(self@ =~~= load_spec(s0, x as int));
        Pc::Next
    }

    /// An opcode that names no instruction: nothing happens.
    fn no_op(&self) -> (r: Pc)
        ensures
            r == Pc::Next,
    {
        Pc::Next
    }

    /// Draws the `n`-byte sprite at the index register with its top-left
    /// corner at (register `x`, register `y`).
    fn op_dxyn(&mut self, x: usize, y: usize, n: usize) -> (r: Pc)
        requires
            x < 16,
            y < 16,
            n < 16,
        ensures
            (final(self)@, r) == draw_spec(old(self)@, x as int, y as int, n as int),
    {
        if self.i > MEMORY || n > MEMORY - self.i {
            return Pc::Next;
        }
        let ghost s0 = self@;
        let base = self.i;
        let vx = self.v[x] as usize;
        let vy = self.v[y] as usize;
        let mut vram = self.vram;
        let mut flag: u8 = self.v[15];
        let mut byte: usize = 0;
        assert(vram_view(vram) =~~= vram_after(s0.vram, s0.memory, base as int, vx as int, vy as int, 0, 0));
        while byte < n
            invariant
                byte <= n,
                n < 16,
                base + n <= MEMORY,
                vx < 256,
                vy < 256,
                s0 == old(self)@,
                self.memory@ == s0.memory,
                base == s0.i,
                vram_view(vram) == vram_after(s0.vram, s0.memory, base as int, vx as int, vy as int, byte as int, 0),
                flag == draw_flag(s0.vram, s0.memory, base as int, vx as int, vy as int, byte as int, s0.v[15]),
            decreases n - byte,
        {
            let row = (vy + byte) % V_HEIGHT;
            let sprite = self.memory[base + byte];
            let mut line: [u8; 64] = vram[row];
            let ghost before = vram_after(s0.vram, s0.memory, base as int, vx as int, vy as int, byte as int, 0);
            let mut bit: usize = 0;
            while bit < 8
                invariant
                    bit <= 8,
                    byte < n,
                    n < 16,
                    base + n <= MEMORY,
                    vx < 256,
                    vy < 256,
                    row == (vy + byte) % 32,
                    sprite == s0.memory[base + byte],
                    line@ == vram_after(s0.vram, s0.memory, base as int, vx as int, vy as int, byte as int, bit as int)[row as int],
                    bit == 0 ==> flag == draw_flag(s0.vram, s0.memory, base as int, vx as int, vy as int, byte as int, s0.v[15]),
                    bit > 0 ==> flag == cell_collision(s0.vram, s0.memory, base as int, vx as int, vy as int, byte as int, bit - 1),
                decreases 8 - bit,
            {
                let col = (vx + bit) % V_WIDTH;
                let pixel = (sprite >> ((7 - bit) as u32)) & 1u8;
                proof {
                    lemma_wrap_inverse(vy as int, byte as int, row as int, 32);
                    lemma_wrap_inverse(vx as int, bit as int, col as int, 64);
                }
                flag = pixel & line[col];
                line[col] = line[col] ^ pixel;
                proof {
                    assert forall|px: int| 0 <= px < 64 implies line@[px] == vram_after(
                        s0.vram, s0.memory, base as int, vx as int, vy as int, byte as int, bit + 1)[row as int][px] by {
                        lemma_wrap_inverse(vx as int, bit as int, px, 64);
                    }
                    assert(line@ =~= vram_after(s0.vram, s0.memory, base as int, vx as int, vy as int, byte as int, bit + 1)[row as int]);
                }
                bit += 1;
            }
            let ghost line_done = vram_after(s0.vram, s0.memory, base as int, vx as int, vy as int, byte as int, 8);
            vram[row] = line;
            proof {
                let after = vram_after(s0.vram, s0.memory, base as int, vx as int, vy as int, byte + 1, 0);
                assert forall|py: int| 0 <= py < 32 implies #[trigger] vram_view(vram)[py] == after[py] by {
                    lemma_wrap_inverse(vy as int, byte as int, py, 32);
                    if py == row {
                        assert(vram_view(vram)[py] == line_done[py]);
                        assert(line_done[py] =~= after[py]);
                    } else {
                        assert(vram_view(vram)[py] == before[py]);
                        assert(before[py] =~= after[py]);
                    }
                }
                assert(vram_view(vram) =~= after);
            }
            byte += 1;
        }
        self.vram = vram;
        self.v[15] = flag;
        self.vram_changed = true;
        assert(self@ =~~= draw_spec(s0, x as int, y as int, n as int).0);
        Pc::Next
    }
}

} // verus!
