//! Laws of the instruction set: properties that hold of every state and
//! every program, proved over the transition function [`spec_step`].

use crate::chip::font_seq;
use crate::chip::init_memory;
use crate::chip::initial_state;
use crate::chip::loaded_memory;
use crate::machine::blank_fb;
use crate::machine::drawn_pixel;
use crate::machine::lemma_draw_rows_pointwise;
use crate::machine::spec_first_pressed;
use crate::machine::spec_step;
use crate::machine::sprite_bit;
use crate::machine::word_at;
use crate::machine::ChipState;
use crate::machine::StepRes;
use vstd::prelude::*;

verus! {

/// Field values of an opcode built as `(h << 12) | (x << 8) | nn`.
proof fn lemma_word_xnn(op: u16, h: u16, x: u8, nn: u8)
    by (bit_vector)
    requires
        op == (h << 12) | ((x as u16) << 8) | (nn as u16),
        h < 16,
        x < 16,
    ensures
        op & 0xF000 == h << 12,
        (op & 0x0F00) >> 8 == x as u16,
        op & 0x00FF == nn as u16,
        op & 0x000F == (nn & 0x0F) as u16,
        op & 0x0FFF == ((x as u16) << 8) | (nn as u16),
        h != 0 ==> op != 0x00E0 && op != 0x00EE,
        h << 12 == h * 4096,
{
}

/// Field values of an opcode built as `(h << 12) | (x << 8) | (y << 4) | n`.
proof fn lemma_word_xyn(op: u16, h: u16, x: u8, y: u8, n: u8)
    by (bit_vector)
    requires
        op == (h << 12) | ((x as u16) << 8) | ((y as u16) << 4) | (n as u16),
        h < 16,
        x < 16,
        y < 16,
        n < 16,
    ensures
        op & 0xF000 == h << 12,
        (op & 0x0F00) >> 8 == x as u16,
        (op & 0x00F0) >> 4 == y as u16,
        op & 0x000F == n as u16,
        h != 0 ==> op != 0x00E0 && op != 0x00EE,
        h << 12 == h * 4096,
{
}

/// Field values of an opcode built as `(h << 12) | nnn`.
proof fn lemma_word_nnn(op: u16, h: u16, nnn: u16)
    by (bit_vector)
    requires
        op == (h << 12) | nnn,
        h < 16,
        nnn < 4096,
    ensures
        op & 0xF000 == h << 12,
        op & 0x0FFF == nnn,
        h != 0 ==> op != 0x00E0 && op != 0x00EE,
        h << 12 == h * 4096,
{
}

/// The machine's structural invariant survives every cycle: stepping a
/// well-formed state — every component at its fixed size, the stack pointer
/// within its 15 usable slots — leaves a well-formed state, whether the
/// cycle succeeded or halted the run.
pub proof fn lemma_step_preserves_wf(pre: ChipState, b: u8)
    requires
        pre.wf(),
    ensures
        (match spec_step(pre, b) {
            StepRes::Stepped { post, .. } => post.wf(),
            StepRes::Halted { post, .. } => post.wf(),
        }),
{
    if pre.pc <= 4094 {
        let op = word_at(pre.memory, pre.pc as int);
        crate::machine::lemma_decode_bounds(op);
        let s1 = ChipState { pc: (pre.pc + 2) as u16, ..pre };
        if op & 0xF000 == 0xD000 {
            let n = (op & 0x000F) as int;
            if s1.vi + n <= 4096 {
                let ox = (s1.v[((op & 0x0F00) >> 8) as int] % 64) as int;
                let oy = (s1.v[((op & 0x00F0) >> 4) as int] % 32) as int;
                lemma_draw_rows_pointwise(
                    s1.fb,
                    s1.memory,
                    s1.vi as int,
                    0,
                    n,
                    ox,
                    oy,
                    s1.v[15],
                );
            }
        }
    }
}

/// CLS clears: executing `00E0` leaves the frame buffer all-zero and asks
/// for a redraw, whatever was on the screen before.
pub proof fn lemma_cls_clears_screen(pre: ChipState, b: u8)
    requires
        pre.wf(),
        pre.pc <= 4094,
        word_at(pre.memory, pre.pc as int) == 0x00E0,
    ensures
        spec_step(pre, b) matches StepRes::Stepped { post, redraw, .. } && post.fb == blank_fb()
            && redraw && post.pc == pre.pc + 2,
{
}

/// A sprite draw only changes pixels inside its clipped rectangle: the
/// origin wraps (`Vx mod 64`, `Vy mod 32`), the body does not wrap — rows
/// and columns past the screen edges are left untouched. Each touched pixel
/// becomes the XOR of its sprite bit and its old value.
pub proof fn lemma_drw_clips(pre: ChipState, x: u8, y: u8, n: u8, b: u8)
    requires
        pre.wf(),
        pre.pc <= 4094,
        x < 16,
        y < 16,
        n < 16,
        word_at(pre.memory, pre.pc as int) == (0xDu16 << 12) | ((x as u16) << 8) | ((
        y as u16) << 4) | (n as u16),
        pre.vi + n <= 4096,
    ensures
        ({
            let ox = (pre.v[x as int] % 64) as int;
            let oy = (pre.v[y as int] % 32) as int;
            spec_step(pre, b) matches StepRes::Stepped { post, redraw, .. } && redraw && {
                &&& forall|idx: int|
                    0 <= idx < 2048 && !drawn_pixel(idx, ox, oy, 0, n as int)
                        ==> post.fb[idx] == pre.fb[idx]
                &&& forall|idx: int|
                    0 <= idx < 2048 && drawn_pixel(idx, ox, oy, 0, n as int)
                        ==> post.fb[idx] == (sprite_bit(
                        pre.memory[pre.vi + idx / 64 - oy],
                        idx % 64 - ox,
                    ) != pre.fb[idx])
            }
        }),
{
    let op = word_at(pre.memory, pre.pc as int);
    lemma_word_xyn(op, 0xD, x, y, n);
    let s1 = ChipState { pc: (pre.pc + 2) as u16, ..pre };
    let ox = (pre.v[x as int] % 64) as int;
    let oy = (pre.v[y as int] % 32) as int;
    lemma_draw_rows_pointwise(pre.fb, pre.memory, pre.vi as int, 0, n as int, ox, oy, pre.v[15]);
}

/// Store/load round trip: `Fx55` writing `V0..Vx` to memory at `I`, then
/// `Fx65` reading the same range back, restores every register bit-for-bit.
/// The stored range must not overwrite the `Fx65` instruction itself.
pub proof fn lemma_store_load_round_trip(pre: ChipState, x: u8, b1: u8, b2: u8)
    requires
        pre.wf(),
        pre.pc <= 4092,
        x < 16,
        word_at(pre.memory, pre.pc as int) == (0xFu16 << 12) | ((x as u16) << 8) | 0x55,
        word_at(pre.memory, pre.pc as int + 2) == (0xFu16 << 12) | ((x as u16) << 8) | 0x65,
        pre.vi + x < 4096,
        pre.vi > pre.pc + 3 || pre.vi + x < pre.pc + 2,
    ensures
        ({
            let r1 = spec_step(pre, b1);
            r1 matches StepRes::Stepped { post: s1, .. } && {
                let r2 = spec_step(s1, b2);
                r2 matches StepRes::Stepped { post: s2, .. } && s2.v == pre.v
            }
        }),
{
    let op1 = word_at(pre.memory, pre.pc as int);
    lemma_word_xnn(op1, 0xF, x, 0x55);
    let r1 = spec_step(pre, b1);
    assert(r1 is Stepped);
    let s1 = r1->Stepped_post;
    assert(word_at(s1.memory, s1.pc as int) == word_at(pre.memory, pre.pc as int + 2));
    let op2 = word_at(s1.memory, s1.pc as int);
    lemma_word_xnn(op2, 0xF, x, 0x65);
    let r2 = spec_step(s1, b2);
    assert(r2 is Stepped);
    let s2 = r2->Stepped_post;
    assert forall|i: int| 0 <= i < 16 implies s2.v[i] == pre.v[i] by {
        if i <= x {
            assert(s1.memory[pre.vi + i] == pre.v[i]);
        }
    }
    assert(s2.v =~= pre.v);
}

/// CALL/RET pairing: `2nnn` followed immediately by `00EE` at `nnn` brings
/// `pc` back to its value right after the CALL fetch and `sp` back to its
/// pre-call value.
pub proof fn lemma_call_ret(pre: ChipState, nnn: u16, b1: u8, b2: u8)
    requires
        pre.wf(),
        pre.pc <= 4094,
        pre.sp < 15,
        nnn <= 4094,
        word_at(pre.memory, pre.pc as int) == (0x2u16 << 12) | nnn,
        word_at(pre.memory, nnn as int) == 0x00EE,
    ensures
        ({
            let r1 = spec_step(pre, b1);
            r1 matches StepRes::Stepped { post: s1, .. } && s1.pc == nnn && s1.sp == pre.sp + 1
                && {
                let r2 = spec_step(s1, b2);
                r2 matches StepRes::Stepped { post: s2, .. } && s2.pc == pre.pc + 2 && s2.sp
                    == pre.sp
            }
        }),
{
    let op1 = word_at(pre.memory, pre.pc as int);
    lemma_word_nnn(op1, 0x2, nnn);
}

/// Key wait: `Fx0A` with no key pressed leaves `pc` where it was, so the
/// same instruction is fetched again next cycle; with a key pressed it
/// stores that key's index in `Vx` and lets `pc` advance normally.
pub proof fn lemma_wait_key(pre: ChipState, x: u8, b: u8)
    requires
        pre.wf(),
        pre.pc <= 4094,
        x < 16,
        word_at(pre.memory, pre.pc as int) == (0xFu16 << 12) | ((x as u16) << 8) | 0x0A,
    ensures
        ({
            let r = spec_step(pre, b);
            r matches StepRes::Stepped { post, .. } && (match spec_first_pressed(pre.keys) {
                Option::None => post.pc == pre.pc && post.v == pre.v,
                Option::Some(k) => post.pc == pre.pc + 2 && post.v == pre.v.update(x as int, k),
            })
        }),
{
    let op = word_at(pre.memory, pre.pc as int);
    lemma_word_xnn(op, 0xF, x, 0x0A);
}

/// Font glyph draw: `6xnn` then `Fx29` then `Dxy5` draws the five font rows
/// this machine maps to `nn` — the bytes at memory address `nn`, which the
/// font table fills for every `nn` below 16 — at the screen coordinate taken
/// from `Vx` (just loaded with `nn`) and `Vy`, XOR-blended into the frame
/// and clipped at the screen edges.
pub proof fn lemma_font_glyph_draw(pre: ChipState, x: u8, y: u8, nn: u8, b1: u8, b2: u8, b3: u8)
    requires
        pre.wf(),
        pre.pc <= 4090,
        x < 16,
        y < 16,
        nn < 16,
        forall|i: int| 0 <= i < 80 ==> pre.memory[i] == font_seq()[i],
        word_at(pre.memory, pre.pc as int) == (0x6u16 << 12) | ((x as u16) << 8) | (nn as u16),
        word_at(pre.memory, pre.pc as int + 2) == (0xFu16 << 12) | ((x as u16) << 8) | 0x29,
        word_at(pre.memory, pre.pc as int + 4) == (0xDu16 << 12) | ((x as u16) << 8) | ((
        y as u16) << 4) | 5,
    ensures
        ({
            let r1 = spec_step(pre, b1);
            r1 matches StepRes::Stepped { post: s1, .. } && {
                let r2 = spec_step(s1, b2);
                r2 matches StepRes::Stepped { post: s2, .. } && {
                    let r3 = spec_step(s2, b3);
                    let ox = nn as int;
                    let oy = (s1.v[y as int] % 32) as int;
                    r3 matches StepRes::Stepped { post: s3, redraw, .. } && redraw && {
                        &&& forall|idx: int|
                            0 <= idx < 2048 && !drawn_pixel(idx, ox, oy, 0, 5)
                                ==> s3.fb[idx] == pre.fb[idx]
                        &&& forall|idx: int|
                            0 <= idx < 2048 && drawn_pixel(idx, ox, oy, 0, 5)
                                ==> s3.fb[idx] == (sprite_bit(
                                font_seq()[nn + idx / 64 - oy],
                                idx % 64 - ox,
                            ) != pre.fb[idx])
                    }
                }
            }
        }),
{
    let op1 = word_at(pre.memory, pre.pc as int);
    lemma_word_xnn(op1, 0x6, x, nn);
    let r1 = spec_step(pre, b1);
    assert(r1 is Stepped);
    let s1 = r1->Stepped_post;
    let op2 = word_at(s1.memory, s1.pc as int);
    assert(op2 == word_at(pre.memory, pre.pc as int + 2));
    lemma_word_xnn(op2, 0xF, x, 0x29);
    let r2 = spec_step(s1, b2);
    assert(r2 is Stepped);
    let s2 = r2->Stepped_post;
    assert(s2.vi == nn as u16);
    assert(s2.v[x as int] == nn);
    let op3 = word_at(s2.memory, s2.pc as int);
    assert(op3 == word_at(pre.memory, pre.pc as int + 4));
    lemma_drw_clips(s2, x, y, 5, b3);
    let r3 = spec_step(s2, b3);
    assert(r3 is Stepped);
    let s3 = r3->Stepped_post;
    let ox = nn as int;
    let oy = (s1.v[y as int] % 32) as int;
    assert((s2.v[x as int] % 64) as int == ox);
    assert((s2.v[y as int] % 32) as int == oy);
    assert forall|idx: int| 0 <= idx < 2048 && drawn_pixel(idx, ox, oy, 0, 5) implies s3.fb[idx]
        == (sprite_bit(font_seq()[nn + idx / 64 - oy], idx % 64 - ox) != pre.fb[idx]) by {
        assert(s3.fb[idx] == (sprite_bit(s2.memory[s2.vi + idx / 64 - oy], idx % 64 - ox)
            != s2.fb[idx]));
        assert(0 <= nn + idx / 64 - oy < 80);
        assert(s2.memory[s2.vi + idx / 64 - oy] == font_seq()[nn + idx / 64 - oy]);
    }
}

/// The states a machine can be in while it runs the two-instruction program
/// `00E0` (CLS) at `0x200` and `1200` (jump back) at `0x202`: the screen
/// stays dark and `pc` keeps returning to `0x200`.
pub open spec fn cls_jump_invariant(s: ChipState) -> bool {
    &&& s.wf()
    &&& s.pc == 0x200 || s.pc == 0x202
    &&& s.memory[0x200] == 0x00
    &&& s.memory[0x201] == 0xE0
    &&& s.memory[0x202] == 0x12
    &&& s.memory[0x203] == 0x00
    &&& forall|i: int| 0 <= i < 2048 ==> !s.fb[i]
}

/// A fresh machine loaded with the program `00E0 1200` satisfies the loop
/// invariant of that program.
pub proof fn lemma_cls_jump_initial()
    ensures
        cls_jump_invariant(
            ChipState {
                memory: loaded_memory(init_memory(), seq![0x00u8, 0xE0u8, 0x12u8, 0x00u8]),
                ..initial_state()
            },
        ),
{
}

/// Running one cycle of the `00E0 1200` program from any state of its loop
/// never fails and stays in the loop: the machine runs indefinitely, the
/// frame buffer remains all-zero, and `pc` stabilizes on the `0x200`/`0x202`
/// cycle.
pub proof fn lemma_cls_jump_runs_forever(s: ChipState, b: u8)
    requires
        cls_jump_invariant(s),
    ensures
        spec_step(s, b) matches StepRes::Stepped { post, .. } && cls_jump_invariant(post),
{
    if s.pc == 0x200 {
        let hi = s.memory[0x200];
        let lo = s.memory[0x201];
        assert(((hi as u16) << 8) | (lo as u16) == 0x00E0) by (bit_vector)
            requires
                hi == 0x00,
                lo == 0xE0,
        ;
        let r = spec_step(s, b);
        assert(r is Stepped && r->Stepped_post.fb =~= blank_fb());
    } else {
        let hi = s.memory[0x202];
        let lo = s.memory[0x203];
        let op = word_at(s.memory, 0x202);
        assert(((hi as u16) << 8) | (lo as u16) == (0x1u16 << 12) | 0x200u16) by (bit_vector)
            requires
                hi == 0x12,
                lo == 0x00,
        ;
        lemma_word_nnn(op, 0x1, 0x200);
    }
}

} // verus!
