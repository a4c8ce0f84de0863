//! The mathematical model of the virtual machine.
//!
//! [`ChipState`] is the complete state of the CPU together with the frame
//! buffer and the key-input vector. [`spec_step`] is the transition function:
//! one fetch-decode-execute step followed by the timer decrement, exactly as
//! the interpreter performs it. The executable interpreter in `chip` is
//! proved to implement `spec_step`.

use vstd::prelude::*;

verus! {

/// The complete state of the virtual machine, as mathematical values.
#[verifier::ext_equal]
pub ghost struct ChipState {
    /// 4096 bytes; `[0, 80)` holds the font table, programs load at 512.
    pub memory: Seq<u8>,
    /// The sixteen 8-bit registers `V0..VF`.
    pub v: Seq<u8>,
    /// The 16-bit index register `I`.
    pub vi: u16,
    /// The program counter.
    pub pc: u16,
    /// The stack pointer; 0 denotes an empty stack.
    pub sp: u8,
    /// Sixteen 16-bit return addresses; slot 0 is never a real entry.
    pub stack: Seq<u16>,
    /// Decremented once per cycle while nonzero.
    pub delay_timer: u8,
    /// Decremented once per cycle while nonzero; nonzero requests a tone.
    pub sound_timer: u8,
    /// The 64x32 frame buffer, row-major.
    pub fb: Seq<bool>,
    /// The sixteen pressed/released key flags.
    pub keys: Seq<bool>,
}

impl ChipState {
    /// Well-formedness: every component has its fixed size and the stack
    /// pointer stays a valid stack index.
    pub open spec fn wf(self) -> bool {
        &&& self.memory.len() == 4096
        &&& self.v.len() == 16
        &&& self.stack.len() == 16
        &&& self.fb.len() == 2048
        &&& self.keys.len() == 16
        &&& self.sp <= 15
    }
}

/// What one cycle asks of the collaborators: a full-grid redraw, a tone.
#[derive(Clone, Copy, Debug, PartialEq, Eq, Structural)]
pub struct Effect {
    /// The frame buffer changed; the render collaborator must redraw.
    pub redraw: bool,
    /// The sound timer is running; a tone is requested this cycle.
    pub beep: bool,
}

/// A fatal condition: the run stops.
#[derive(Clone, Copy, Debug, PartialEq, Eq, Structural)]
pub enum VmError {
    /// The fetched word matches no recognized instruction pattern.
    UnknownOpcode(u16),
    /// A malformed program indexed memory or the stack out of range.
    OutOfBounds,
}

/// The outcome of one cycle of the transition function.
#[verifier::ext_equal]
pub ghost enum StepRes {
    /// The cycle completed; `post` includes the timer decrement.
    Stepped { post: ChipState, redraw: bool, beep: bool },
    /// The cycle failed; `post` is the state at the point of failure.
    Halted { post: ChipState, err: VmError },
}

// ---------------------------------------------------------------------------
// Opcode decoding
// ---------------------------------------------------------------------------

/// The field `x`: bits 8-11 of the opcode.
pub open spec fn op_x(op: u16) -> u8 {
    ((op & 0x0F00) >> 8) as u8
}

/// The field `y`: bits 4-7 of the opcode.
pub open spec fn op_y(op: u16) -> u8 {
    ((op & 0x00F0) >> 4) as u8
}

/// The field `n`: bits 0-3 of the opcode.
pub open spec fn op_n(op: u16) -> u8 {
    (op & 0x000F) as u8
}

/// The field `nn`: bits 0-7 of the opcode.
pub open spec fn op_nn(op: u16) -> u8 {
    (op & 0x00FF) as u8
}

/// The field `nnn`: bits 0-11 of the opcode.
pub open spec fn op_nnn(op: u16) -> u16 {
    op & 0x0FFF
}

/// The 16-bit big-endian word at `pc`.
pub open spec fn word_at(mem: Seq<u8>, pc: int) -> u16 {
    ((mem[pc] as u16) << 8) | (mem[pc + 1] as u16)
}

/// The decoded fields are in range: registers are 4-bit indices, `nnn` is a
/// 12-bit address.
pub proof fn lemma_decode_bounds(op: u16)
    by (bit_vector)
    ensures
        (op & 0x0F00) >> 8 < 16,
        (op & 0x00F0) >> 4 < 16,
        op & 0x000F < 16,
        op & 0x00FF < 256,
        op & 0x0FFF < 4096,
{
}

// ---------------------------------------------------------------------------
// 8-bit wrapping arithmetic
// ---------------------------------------------------------------------------

/// `a + b` modulo 256.
pub open spec fn wrap_add8(a: u8, b: u8) -> u8 {
    if a + b > 255 {
        (a + b - 256) as u8
    } else {
        (a + b) as u8
    }
}

/// `a - b` modulo 256, no borrow adjustment.
pub open spec fn wrap_sub8(a: u8, b: u8) -> u8 {
    if a - b < 0 {
        (a - b + 256) as u8
    } else {
        (a - b) as u8
    }
}

// ---------------------------------------------------------------------------
// Small state transformers
// ---------------------------------------------------------------------------

/// An all-off frame buffer.
pub open spec fn blank_fb() -> Seq<bool> {
    Seq::new(2048, |i: int| false)
}

/// Register `x` set to `val`, all else unchanged.
pub open spec fn with_reg(s: ChipState, x: u8, val: u8) -> ChipState {
    ChipState { v: s.v.update(x as int, val), ..s }
}

/// The skip-next-instruction step: `pc += 2` when `cond` holds.
pub open spec fn skip_if(s: ChipState, cond: bool) -> ChipState {
    if cond {
        ChipState { pc: (s.pc + 2) as u16, ..s }
    } else {
        s
    }
}

/// The post-instruction timer decrement: each timer saturates at 0.
pub open spec fn tick_timers(s: ChipState) -> ChipState {
    ChipState {
        delay_timer: if s.delay_timer > 0 { (s.delay_timer - 1) as u8 } else { 0 },
        sound_timer: if s.sound_timer > 0 { (s.sound_timer - 1) as u8 } else { 0 },
        ..s
    }
}

/// The lowest pressed key index at or above `i`, if any.
pub open spec fn first_pressed_from(keys: Seq<bool>, i: int) -> Option<u8>
    decreases keys.len() - i,
{
    if i < 0 || i >= keys.len() {
        None
    } else if keys[i] {
        Some(i as u8)
    } else {
        first_pressed_from(keys, i + 1)
    }
}

/// The lowest pressed key index, if any key is pressed.
pub open spec fn spec_first_pressed(keys: Seq<bool>) -> Option<u8> {
    first_pressed_from(keys, 0)
}

// ---------------------------------------------------------------------------
// Call stack
// ---------------------------------------------------------------------------

/// `00EE`: pop the return address. Fails on an empty stack.
pub open spec fn spec_ret(s: ChipState) -> Result<ChipState, VmError> {
    if s.sp == 0 {
        Err(VmError::OutOfBounds)
    } else {
        Ok(ChipState { pc: s.stack[s.sp as int], sp: (s.sp - 1) as u8, ..s })
    }
}

/// `2nnn`: push the address of the next instruction, jump to `nnn`.
/// Fails when all 15 usable stack slots are in use.
pub open spec fn spec_call(s: ChipState, nnn: u16) -> Result<ChipState, VmError> {
    if s.sp >= 15 {
        Err(VmError::OutOfBounds)
    } else {
        Ok(ChipState {
            sp: (s.sp + 1) as u8,
            stack: s.stack.update(s.sp + 1, s.pc),
            pc: nnn,
            ..s
        })
    }
}

// ---------------------------------------------------------------------------
// The 8xyN arithmetic/logic family
// ---------------------------------------------------------------------------

/// `8xyN`: register-to-register operations, with the flag-setting quirks of
/// this machine (`8xyE` assigns `Vx & 0x10` to `VF`).
pub open spec fn spec_alu(s: ChipState, op: u16) -> Result<ChipState, VmError> {
    let x = op_x(op) as int;
    let y = op_y(op) as int;
    let vx = s.v[x];
    let vy = s.v[y];
    if op & 0x000F == 0 {
        Ok(ChipState { v: s.v.update(x, vy), ..s })
    } else if op & 0x000F == 1 {
        Ok(ChipState { v: s.v.update(x, vx | vy), ..s })
    } else if op & 0x000F == 2 {
        Ok(ChipState { v: s.v.update(x, vx & vy), ..s })
    } else if op & 0x000F == 3 {
        Ok(ChipState { v: s.v.update(x, vx ^ vy), ..s })
    } else if op & 0x000F == 4 {
        let vf: u8 = if vx + vy > 255 { 1 } else { 0 };
        Ok(ChipState { v: s.v.update(15, vf).update(x, wrap_add8(vx, vy)), ..s })
    } else if op & 0x000F == 5 {
        let vf: u8 = if vx > vy { 1 } else { 0 };
        Ok(ChipState { v: s.v.update(15, vf).update(x, wrap_sub8(vx, vy)), ..s })
    } else if op & 0x000F == 6 {
        let vf: u8 = vx & 1;
        Ok(ChipState { v: s.v.update(15, vf).update(x, vx >> 1), ..s })
    } else if op & 0x000F == 7 {
        let vf: u8 = if vx < vy { 1 } else { 0 };
        Ok(ChipState { v: s.v.update(15, vf).update(x, wrap_sub8(vy, vx)), ..s })
    } else if op & 0x000F == 0xE {
        let vf: u8 = vx & 0x10;
        Ok(ChipState { v: s.v.update(15, vf).update(x, (vx & 0x7F) << 1), ..s })
    } else {
        Err(VmError::UnknownOpcode(op))
    }
}

// ---------------------------------------------------------------------------
// Sprite drawing
// ---------------------------------------------------------------------------

/// Bit `c` of one sprite byte, counted from the left (bit 0 is the most
/// significant, the leftmost pixel).
pub open spec fn sprite_bit(byte: u8, c: int) -> bool {
    (byte >> ((7 - c) as u8)) & 1 == 1
}

/// Blend the bits of one sprite `byte` into frame-buffer row `row`, columns
/// `ox + col ..`, stopping at column 8 of the sprite or at the right screen
/// edge, whichever comes first. Each processed bit overwrites `vf`: 1 when
/// that bit erased a lit pixel, 0 otherwise (last write wins).
pub open spec fn draw_cols(
    fb: Seq<bool>,
    byte: u8,
    col: int,
    ox: int,
    row: int,
    vf: u8,
) -> (Seq<bool>, u8)
    decreases 8 - col,
{
    if col < 0 || col >= 8 || ox + col >= 64 {
        (fb, vf)
    } else {
        let on = sprite_bit(byte, col);
        let idx = row * 64 + ox + col;
        let cur = fb[idx];
        let vf2: u8 = if cur && on { 1 } else { 0 };
        draw_cols(fb.update(idx, on != cur), byte, col + 1, ox, row, vf2)
    }
}

/// Blend sprite rows `r..n` read from `mem[vi + r ..]` into the frame buffer
/// at origin column `ox`, origin row `oy`, stopping at the bottom screen
/// edge. Threads the `VF` value through every processed bit.
pub open spec fn draw_rows(
    fb: Seq<bool>,
    mem: Seq<u8>,
    vi: int,
    r: int,
    n: int,
    ox: int,
    oy: int,
    vf: u8,
) -> (Seq<bool>, u8)
    decreases n - r,
{
    if r < 0 || r >= n || oy + r >= 32 {
        (fb, vf)
    } else {
        let step = draw_cols(fb, mem[vi + r], 0, ox, oy + r, vf);
        draw_rows(step.0, mem, vi, r + 1, n, ox, oy, step.1)
    }
}

/// Whether pixel `idx` lies in the clipped rectangle that a sprite draw at
/// origin (`ox`, `oy`) with rows `r0..n` touches: at most 8 columns wide,
/// never past the right or bottom screen edge (no wraparound).
pub open spec fn drawn_pixel(idx: int, ox: int, oy: int, r0: int, n: int) -> bool {
    &&& oy + r0 <= idx / 64 < oy + n
    &&& idx / 64 < 32
    &&& ox <= idx % 64 < ox + 8
}

/// Pointwise effect of blending one sprite byte into a row: the touched
/// pixels are exactly columns `ox + col .. ox + 8` of `row`, clipped at the
/// right edge; each becomes the XOR of its sprite bit and its old value.
pub proof fn lemma_draw_cols_pointwise(
    fb: Seq<bool>,
    byte: u8,
    col: int,
    ox: int,
    row: int,
    vf: u8,
)
    requires
        fb.len() == 2048,
        0 <= ox < 64,
        0 <= row < 32,
        0 <= col <= 8,
    ensures
        draw_cols(fb, byte, col, ox, row, vf).0.len() == 2048,
        forall|idx: int|
            0 <= idx < 2048 && !(row * 64 + ox + col <= idx < row * 64 + ox + 8 && idx < row * 64
                + 64) ==> #[trigger] draw_cols(fb, byte, col, ox, row, vf).0[idx] == fb[idx],
        forall|idx: int|
            row * 64 + ox + col <= idx < row * 64 + ox + 8 && idx < row * 64 + 64
                ==> #[trigger] draw_cols(fb, byte, col, ox, row, vf).0[idx] == (sprite_bit(
                byte,
                idx - row * 64 - ox,
            ) != fb[idx]),
    decreases 8 - col,
{
    if col >= 8 || ox + col >= 64 {
    } else {
        let idx0 = row * 64 + ox + col;
        let on = sprite_bit(byte, col);
        let cur = fb[idx0];
        let vf2: u8 = if cur && on {
            1
        } else {
            0
        };
        let fb1 = fb.update(idx0, on != cur);
        lemma_draw_cols_pointwise(fb1, byte, col + 1, ox, row, vf2);
        assert(draw_cols(fb, byte, col, ox, row, vf) == draw_cols(fb1, byte, col + 1, ox, row, vf2));
    }
}

/// Pointwise effect of a whole sprite draw: exactly the pixels of
/// [`drawn_pixel`]'s clipped rectangle change, each to the XOR of its sprite
/// bit and its old value; every other pixel keeps its value.
pub proof fn lemma_draw_rows_pointwise(
    fb: Seq<bool>,
    mem: Seq<u8>,
    vi: int,
    r0: int,
    n: int,
    ox: int,
    oy: int,
    vf: u8,
)
    requires
        fb.len() == 2048,
        0 <= ox < 64,
        0 <= oy < 32,
        0 <= r0 <= n,
        0 <= vi,
        vi + n <= mem.len(),
    ensures
        draw_rows(fb, mem, vi, r0, n, ox, oy, vf).0.len() == 2048,
        forall|idx: int|
            0 <= idx < 2048 && !drawn_pixel(idx, ox, oy, r0, n) ==> #[trigger] draw_rows(
                fb,
                mem,
                vi,
                r0,
                n,
                ox,
                oy,
                vf,
            ).0[idx] == fb[idx],
        forall|idx: int|
            0 <= idx < 2048 && drawn_pixel(idx, ox, oy, r0, n) ==> #[trigger] draw_rows(
                fb,
                mem,
                vi,
                r0,
                n,
                ox,
                oy,
                vf,
            ).0[idx] == (sprite_bit(mem[vi + idx / 64 - oy], idx % 64 - ox) != fb[idx]),
    decreases n - r0,
{
    if r0 >= n || oy + r0 >= 32 {
        assert forall|idx: int| 0 <= idx < 2048 implies !drawn_pixel(idx, ox, oy, r0, n) by {
            if oy + r0 >= 32 {
                assert(idx / 64 < 32) by {
                    assert(idx < 2048);
                    assert(idx / 64 <= 2047int / 64) by (nonlinear_arith)
                        requires
                            0 <= idx <= 2047,
                    ;
                }
            }
        }
    } else {
        let row = oy + r0;
        let byte = mem[vi + r0];
        let step = draw_cols(fb, byte, 0, ox, row, vf);
        lemma_draw_cols_pointwise(fb, byte, 0, ox, row, vf);
        lemma_draw_rows_pointwise(step.0, mem, vi, r0 + 1, n, ox, oy, step.1);
        let res = draw_rows(fb, mem, vi, r0, n, ox, oy, vf);
        assert(res == draw_rows(step.0, mem, vi, r0 + 1, n, ox, oy, step.1));
        assert forall|idx: int|
            0 <= idx < 2048 && !drawn_pixel(idx, ox, oy, r0, n) implies res.0[idx] == fb[idx] by {
            vstd::arithmetic::div_mod::lemma_fundamental_div_mod(idx, 64);
            assert(!drawn_pixel(idx, ox, oy, r0 + 1, n));
            assert(!(row * 64 + ox <= idx < row * 64 + ox + 8 && idx < row * 64 + 64));
        }
        assert forall|idx: int|
            0 <= idx < 2048 && drawn_pixel(idx, ox, oy, r0, n) implies res.0[idx] == (sprite_bit(
            mem[vi + idx / 64 - oy],
            idx % 64 - ox,
        ) != fb[idx]) by {
            vstd::arithmetic::div_mod::lemma_fundamental_div_mod(idx, 64);
            if idx / 64 == row {
                assert(!drawn_pixel(idx, ox, oy, r0 + 1, n));
                assert(row * 64 + ox <= idx < row * 64 + ox + 8 && idx < row * 64 + 64);
                assert(step.0[idx] == (sprite_bit(byte, idx - row * 64 - ox) != fb[idx]));
                assert(res.0[idx] == step.0[idx]);
                assert(idx % 64 - ox == idx - row * 64 - ox);
            } else {
                assert(drawn_pixel(idx, ox, oy, r0 + 1, n));
                assert(!(row * 64 + ox <= idx < row * 64 + ox + 8 && idx < row * 64 + 64));
                assert(step.0[idx] == fb[idx]);
            }
        }
    }
}

/// `Dxyn`: XOR-blend an 8-wide, `n`-tall sprite read from `mem[I..I+n]`.
/// The origin wraps (`Vx mod 64`, `Vy mod 32`); the body clips at the screen
/// edges. Fails when the sprite bytes lie beyond memory.
pub open spec fn spec_drw(s: ChipState, op: u16) -> Result<ChipState, VmError> {
    let n = op_n(op);
    if s.vi + n > 4096 {
        Err(VmError::OutOfBounds)
    } else {
        let ox = (s.v[op_x(op) as int] % 64) as int;
        let oy = (s.v[op_y(op) as int] % 32) as int;
        let drawn = draw_rows(s.fb, s.memory, s.vi as int, 0, n as int, ox, oy, s.v[15]);
        Ok(ChipState { fb: drawn.0, v: s.v.update(15, drawn.1), ..s })
    }
}

// ---------------------------------------------------------------------------
// The Ex and Fx families
// ---------------------------------------------------------------------------

/// `Ex9E` / `ExA1`: skip on the key `Vx` being pressed / released.
/// Fails when `Vx` is not a key index.
pub open spec fn spec_ex(s: ChipState, op: u16) -> Result<ChipState, VmError> {
    let vx = s.v[op_x(op) as int];
    if op & 0x00FF == 0x9E {
        if vx >= 16 {
            Err(VmError::OutOfBounds)
        } else {
            Ok(skip_if(s, s.keys[vx as int]))
        }
    } else if op & 0x00FF == 0xA1 {
        if vx >= 16 {
            Err(VmError::OutOfBounds)
        } else {
            Ok(skip_if(s, !s.keys[vx as int]))
        }
    } else {
        Err(VmError::UnknownOpcode(op))
    }
}

/// `Fx55`: memory with `v[0..=x]` stored at `[vi, vi + x]`.
pub open spec fn store_regs(mem: Seq<u8>, v: Seq<u8>, vi: int, x: int) -> Seq<u8> {
    Seq::new(mem.len(), |i: int| if vi <= i <= vi + x { v[i - vi] } else { mem[i] })
}

/// `Fx65`: registers with `mem[vi .. vi + x]` loaded into `v[0..=x]`.
pub open spec fn load_regs(mem: Seq<u8>, v: Seq<u8>, vi: int, x: int) -> Seq<u8> {
    Seq::new(v.len(), |i: int| if i <= x { mem[vi + i] } else { v[i] })
}

/// The `FxNN` family: timers, index register, key wait, BCD, register
/// store/load.
pub open spec fn spec_fx(s: ChipState, op: u16) -> Result<ChipState, VmError> {
    let x = op_x(op) as int;
    let vx = s.v[x];
    if op & 0x00FF == 0x07 {
        Ok(ChipState { v: s.v.update(x, s.delay_timer), ..s })
    } else if op & 0x00FF == 0x0A {
        match spec_first_pressed(s.keys) {
            Some(k) => Ok(ChipState { v: s.v.update(x, k), ..s }),
            None => Ok(ChipState { pc: (s.pc - 2) as u16, ..s }),
        }
    } else if op & 0x00FF == 0x15 {
        Ok(ChipState { delay_timer: vx, ..s })
    } else if op & 0x00FF == 0x18 {
        Ok(ChipState { sound_timer: vx, ..s })
    } else if op & 0x00FF == 0x1E {
        if s.vi + vx > 0xFFFF {
            Err(VmError::OutOfBounds)
        } else {
            Ok(ChipState { vi: (s.vi + vx) as u16, ..s })
        }
    } else if op & 0x00FF == 0x29 {
        Ok(ChipState { vi: vx as u16, ..s })
    } else if op & 0x00FF == 0x33 {
        if s.vi + 2 >= 4096 {
            Err(VmError::OutOfBounds)
        } else {
            Ok(ChipState {
                memory: s.memory
                    .update(s.vi as int, (vx / 100) as u8)
                    .update(s.vi + 1, ((vx / 10) % 10) as u8)
                    .update(s.vi + 2, (vx % 10) as u8),
                ..s
            })
        }
    } else if op & 0x00FF == 0x55 {
        if s.vi + op_x(op) >= 4096 {
            Err(VmError::OutOfBounds)
        } else {
            Ok(ChipState { memory: store_regs(s.memory, s.v, s.vi as int, x), ..s })
        }
    } else if op & 0x00FF == 0x65 {
        if s.vi + op_x(op) >= 4096 {
            Err(VmError::OutOfBounds)
        } else {
            Ok(ChipState { v: load_regs(s.memory, s.v, s.vi as int, x), ..s })
        }
    } else {
        Err(VmError::UnknownOpcode(op))
    }
}

// ---------------------------------------------------------------------------
// Dispatch and the full cycle
// ---------------------------------------------------------------------------

/// Execute one decoded instruction on a state whose `pc` has already been
/// advanced past it. Returns the new state and whether the frame buffer
/// changed (so the render collaborator must redraw).
pub open spec fn spec_exec(s: ChipState, op: u16, rnd: u8) -> Result<(ChipState, bool), VmError> {
    if op == 0x00E0 {
        Ok((ChipState { fb: blank_fb(), ..s }, true))
    } else if op == 0x00EE {
        match spec_ret(s) {
            Ok(s2) => Ok((s2, false)),
            Err(e) => Err(e),
        }
    } else if op & 0xF000 == 0x1000 {
        Ok((ChipState { pc: op_nnn(op), ..s }, false))
    } else if op & 0xF000 == 0x2000 {
        match spec_call(s, op_nnn(op)) {
            Ok(s2) => Ok((s2, false)),
            Err(e) => Err(e),
        }
    } else if op & 0xF000 == 0x3000 {
        Ok((skip_if(s, s.v[op_x(op) as int] == op_nn(op)), false))
    } else if op & 0xF000 == 0x4000 {
        Ok((skip_if(s, s.v[op_x(op) as int] != op_nn(op)), false))
    } else if op & 0xF000 == 0x5000 {
        if op & 0x000F == 0 {
            Ok((skip_if(s, s.v[op_x(op) as int] == s.v[op_y(op) as int]), false))
        } else {
            Err(VmError::UnknownOpcode(op))
        }
    } else if op & 0xF000 == 0x6000 {
        Ok((with_reg(s, op_x(op), op_nn(op)), false))
    } else if op & 0xF000 == 0x7000 {
        Ok((with_reg(s, op_x(op), wrap_add8(s.v[op_x(op) as int], op_nn(op))), false))
    } else if op & 0xF000 == 0x8000 {
        match spec_alu(s, op) {
            Ok(s2) => Ok((s2, false)),
            Err(e) => Err(e),
        }
    } else if op & 0xF000 == 0x9000 {
        if op & 0x000F == 0 {
            Ok((skip_if(s, s.v[op_x(op) as int] != s.v[op_y(op) as int]), false))
        } else {
            Err(VmError::UnknownOpcode(op))
        }
    } else if op & 0xF000 == 0xA000 {
        Ok((ChipState { vi: op_nnn(op), ..s }, false))
    } else if op & 0xF000 == 0xB000 {
        Ok((ChipState { pc: (op_nnn(op) + s.v[0]) as u16, ..s }, false))
    } else if op & 0xF000 == 0xC000 {
        Ok((with_reg(s, op_x(op), rnd & op_nn(op)), false))
    } else if op & 0xF000 == 0xD000 {
        match spec_drw(s, op) {
            Ok(s2) => Ok((s2, true)),
            Err(e) => Err(e),
        }
    } else if op & 0xF000 == 0xE000 {
        match spec_ex(s, op) {
            Ok(s2) => Ok((s2, false)),
            Err(e) => Err(e),
        }
    } else if op & 0xF000 == 0xF000 {
        match spec_fx(s, op) {
            Ok(s2) => Ok((s2, false)),
            Err(e) => Err(e),
        }
    } else {
        Err(VmError::UnknownOpcode(op))
    }
}

/// One full cycle: fetch the word at `pc` (failing when a two-byte read does
/// not fit below 4096), advance `pc` by 2, execute, then decrement the
/// timers. A tone is requested while the sound timer is nonzero, checked
/// before the decrement. On failure the timers are left alone.
pub open spec fn spec_step(pre: ChipState, rnd: u8) -> StepRes {
    if pre.pc > 4094 {
        StepRes::Halted { post: pre, err: VmError::OutOfBounds }
    } else {
        let op = word_at(pre.memory, pre.pc as int);
        let s1 = ChipState { pc: (pre.pc + 2) as u16, ..pre };
        match spec_exec(s1, op, rnd) {
            Ok(done) => StepRes::Stepped {
                post: tick_timers(done.0),
                redraw: done.1,
                beep: done.0.sound_timer > 0,
            },
            Err(e) => StepRes::Halted { post: s1, err: e },
        }
    }
}

} // verus!
