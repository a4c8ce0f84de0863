//! The virtual CPU and its interpreter.
//!
//! [`Chip`] owns the complete machine state: memory, registers, stack,
//! timers, the frame buffer and the key flags. [`Chip::exec_cycle`] performs
//! one fetch-decode-execute step and is proved to implement the transition
//! function [`spec_step`] of the model.

use crate::graphics::Graphics;
use crate::keyboard::Keyboard;
use crate::machine::blank_fb;
use crate::machine::draw_cols;
use crate::machine::draw_rows;
use crate::machine::lemma_decode_bounds;
use crate::machine::load_regs;
use crate::machine::spec_alu;
use crate::machine::spec_drw;
use crate::machine::spec_ex;
use crate::machine::spec_exec;
use crate::machine::spec_fx;
use crate::machine::spec_step;
use crate::machine::store_regs;
use crate::machine::tick_timers;
use crate::machine::Effect;
use crate::machine::StepRes;
use crate::machine::word_at;
use crate::machine::wrap_add8;
use crate::machine::wrap_sub8;
use crate::machine::ChipState;
use crate::machine::VmError;
use vstd::prelude::*;

verus! {

/// Relies on rand::random: a value drawn from the thread-local generator.
/// Nothing can be promised of a random value; the `Cxnn` instruction states
/// what holds of its register whatever byte came back.
pub assume_specification<T>[ rand::random::<T> ]() -> (r: T)
    where
        rand::distributions::Standard: rand::distributions::Distribution<T>,
;

/// The assembler name of the operation an instruction word encodes, or
/// `UNKNOWN` where no pattern matches.
pub open spec fn spec_mnemonic(op: u16) -> Seq<char> {
    if op == 0x00E0 {
        "CLS"@
    } else if op == 0x00EE {
        "RET"@
    } else if op & 0xF000 == 0x1000 {
        "JP"@
    } else if op & 0xF000 == 0x2000 {
        "CALL"@
    } else if op & 0xF000 == 0x3000 {
        "SE"@
    } else if op & 0xF000 == 0x4000 {
        "SNE"@
    } else if op & 0xF000 == 0x5000 {
        if op & 0x000F == 0 {
            "SE"@
        } else {
            "UNKNOWN"@
        }
    } else if op & 0xF000 == 0x6000 {
        "LD"@
    } else if op & 0xF000 == 0x7000 {
        "ADD"@
    } else if op & 0xF000 == 0x8000 {
        if op & 0x000F == 0 {
            "LD"@
        } else if op & 0x000F == 1 {
            "OR"@
        } else if op & 0x000F == 2 {
            "AND"@
        } else if op & 0x000F == 3 {
            "XOR"@
        } else if op & 0x000F == 4 {
            "ADD"@
        } else if op & 0x000F == 5 {
            "SUB"@
        } else if op & 0x000F == 6 {
            "SHR"@
        } else if op & 0x000F == 7 {
            "SUBN"@
        } else if op & 0x000F == 0xE {
            "SHL"@
        } else {
            "UNKNOWN"@
        }
    } else if op & 0xF000 == 0x9000 {
        if op & 0x000F == 0 {
            "SNE"@
        } else {
            "UNKNOWN"@
        }
    } else if op & 0xF000 == 0xA000 {
        "LD"@
    } else if op & 0xF000 == 0xB000 {
        "JP"@
    } else if op & 0xF000 == 0xC000 {
        "RND"@
    } else if op & 0xF000 == 0xD000 {
        "DRW"@
    } else if op & 0xF000 == 0xE000 {
        if op & 0x00FF == 0x9E {
            "SKP"@
        } else if op & 0x00FF == 0xA1 {
            "SKNP"@
        } else {
            "UNKNOWN"@
        }
    } else if op & 0xF000 == 0xF000 {
        if op & 0x00FF == 0x1E {
            "ADD"@
        } else if op & 0x00FF == 0x07 || op & 0x00FF == 0x0A || op & 0x00FF == 0x15 || op
            & 0x00FF == 0x18 || op & 0x00FF == 0x29 || op & 0x00FF == 0x33 || op & 0x00FF == 0x55
            || op & 0x00FF == 0x65 {
            "LD"@
        } else {
            "UNKNOWN"@
        }
    } else {
        "UNKNOWN"@
    }
}

/// The assembler name of the operation `op` encodes, for the step/debug
/// display: the textual mnemonic of the instruction about to execute.
pub fn mnemonic(op: u16) -> (r: &'static str)
    ensures
        r@ == spec_mnemonic(op),
{
    if op == 0x00E0 {
        "CLS"
    } else if op == 0x00EE {
        "RET"
    } else {
        let family = op & 0xF000;
        let sub = op & 0x000F;
        let low = op & 0x00FF;
        if family == 0x1000 {
            "JP"
        } else if family == 0x2000 {
            "CALL"
        } else if family == 0x3000 {
            "SE"
        } else if family == 0x4000 {
            "SNE"
        } else if family == 0x5000 {
            if sub == 0 {
                "SE"
            } else {
                "UNKNOWN"
            }
        } else if family == 0x6000 {
            "LD"
        } else if family == 0x7000 {
            "ADD"
        } else if family == 0x8000 {
            if sub == 0 {
                "LD"
            } else if sub == 1 {
                "OR"
            } else if sub == 2 {
                "AND"
            } else if sub == 3 {
                "XOR"
            } else if sub == 4 {
                "ADD"
            } else if sub == 5 {
                "SUB"
            } else if sub == 6 {
                "SHR"
            } else if sub == 7 {
                "SUBN"
            } else if sub == 0xE {
                "SHL"
            } else {
                "UNKNOWN"
            }
        } else if family == 0x9000 {
            if sub == 0 {
                "SNE"
            } else {
                "UNKNOWN"
            }
        } else if family == 0xA000 {
            "LD"
        } else if family == 0xB000 {
            "JP"
        } else if family == 0xC000 {
            "RND"
        } else if family == 0xD000 {
            "DRW"
        } else if family == 0xE000 {
            if low == 0x9E {
                "SKP"
            } else if low == 0xA1 {
                "SKNP"
            } else {
                "UNKNOWN"
            }
        } else if family == 0xF000 {
            if low == 0x1E {
                "ADD"
            } else if low == 0x07 || low == 0x0A || low == 0x15 || low == 0x18 || low == 0x29
                || low == 0x33 || low == 0x55 || low == 0x65 {
                "LD"
            } else {
                "UNKNOWN"
            }
        } else {
            "UNKNOWN"
        }
    }
}

/// The 16-glyph, 5-byte-per-glyph hexadecimal font, preloaded at address 0.
pub open spec fn font_seq() -> Seq<u8> {
    seq![
        0xF0u8, 0x90, 0x90, 0x90, 0xF0, // 0
        0x20, 0x60, 0x20, 0x20, 0x70, // 1
        0xF0, 0x10, 0xF0, 0x80, 0xF0, // 2
        0xF0, 0x10, 0xF0, 0x10, 0xF0, // 3
        0x90, 0x90, 0xF0, 0x10, 0x10, // 4
        0xF0, 0x80, 0xF0, 0x10, 0xF0, // 5
        0xF0, 0x80, 0xF0, 0x90, 0xF0, // 6
        0xF0, 0x10, 0x20, 0x40, 0x40, // 7
        0xF0, 0x90, 0xF0, 0x90, 0xF0, // 8
        0xF0, 0x90, 0xF0, 0x10, 0xF0, // 9
        0xF0, 0x90, 0xF0, 0x90, 0x90, // A
        0xE0, 0x90, 0xE0, 0x90, 0xE0, // B
        0xF0, 0x80, 0x80, 0x80, 0xF0, // C
        0xE0, 0x90, 0x90, 0x90, 0xE0, // D
        0xF0, 0x80, 0xF0, 0x80, 0xF0, // E
        0xF0, 0x80, 0xF0, 0x80, 0x80, // F
    ]
}

/// Memory at construction: the font in `[0, 80)`, zeroes above it.
pub open spec fn init_memory() -> Seq<u8> {
    Seq::new(4096, |i: int| if i < 80 { font_seq()[i] } else { 0u8 })
}

/// The machine as it is created: cleared registers, stack, timers, screen
/// and keys; the font in low memory; execution starting at `0x200`.
pub open spec fn initial_state() -> ChipState {
    ChipState {
        memory: init_memory(),
        v: Seq::new(16, |i: int| 0u8),
        vi: 0,
        pc: 0x200,
        sp: 0,
        stack: Seq::new(16, |i: int| 0u16),
        delay_timer: 0,
        sound_timer: 0,
        fb: blank_fb(),
        keys: Seq::new(16, |i: int| false),
    }
}

/// Memory after a program image is written at 512; an image longer than the
/// remaining 3584 bytes is truncated.
pub open spec fn loaded_memory(mem: Seq<u8>, img: Seq<u8>) -> Seq<u8> {
    let count = if img.len() < 3584 {
        img.len() as int
    } else {
        3584
    };
    Seq::new(mem.len(), |i: int| if 512 <= i < 512 + count { img[i - 512] } else { mem[i] })
}

/// The virtual machine: CPU state, frame buffer and key flags, owned as one
/// aggregate and mutated only by the interpreter.
pub struct Chip {
    memory: Vec<u8>,
    v: Vec<u8>,
    vi: u16,
    pc: u16,
    sp: u8,
    stack: Vec<u16>,
    gfx: Graphics,
    keyboard: Keyboard,
    delay_timer: u8,
    sound_timer: u8,
    debug: bool,
    fps: u32,
}

impl View for Chip {
    type V = ChipState;

    closed spec fn view(&self) -> ChipState {
        ChipState {
            memory: self.memory@,
            v: self.v@,
            vi: self.vi,
            pc: self.pc,
            sp: self.sp,
            stack: self.stack@,
            delay_timer: self.delay_timer,
            sound_timer: self.sound_timer,
            fb: self.gfx@,
            keys: self.keyboard@,
        }
    }
}

impl Chip {
    /// The configured instructions-per-second target.
    pub closed spec fn spec_fps(&self) -> u32 {
        self.fps
    }

    /// Whether step/debug mode is on.
    pub closed spec fn spec_debug(&self) -> bool {
        self.debug
    }

    /// The font table as an executable vector.
    #[verifier::rlimit(100)]
    fn font() -> (f: Vec<u8>)
        ensures
            f@ == font_seq(),
    {
        let mut f: Vec<u8> = Vec::new();
        f.push(0xF0); f.push(0x90); f.push(0x90); f.push(0x90); f.push(0xF0);
        f.push(0x20); f.push(0x60); f.push(0x20); f.push(0x20); f.push(0x70);
        f.push(0xF0); f.push(0x10); f.push(0xF0); f.push(0x80); f.push(0xF0);
        f.push(0xF0); f.push(0x10); f.push(0xF0); f.push(0x10); f.push(0xF0);
        f.push(0x90); f.push(0x90); f.push(0xF0); f.push(0x10); f.push(0x10);
        f.push(0xF0); f.push(0x80); f.push(0xF0); f.push(0x10); f.push(0xF0);
        f.push(0xF0); f.push(0x80); f.push(0xF0); f.push(0x90); f.push(0xF0);
        f.push(0xF0); f.push(0x10); f.push(0x20); f.push(0x40); f.push(0x40);
        f.push(0xF0); f.push(0x90); f.push(0xF0); f.push(0x90); f.push(0xF0);
        f.push(0xF0); f.push(0x90); f.push(0xF0); f.push(0x10); f.push(0xF0);
        f.push(0xF0); f.push(0x90); f.push(0xF0); f.push(0x90); f.push(0x90);
        f.push(0xE0); f.push(0x90); f.push(0xE0); f.push(0x90); f.push(0xE0);
        f.push(0xF0); f.push(0x80); f.push(0x80); f.push(0x80); f.push(0xF0);
        f.push(0xE0); f.push(0x90); f.push(0x90); f.push(0x90); f.push(0xE0);
        f.push(0xF0); f.push(0x80); f.push(0xF0); f.push(0x80); f.push(0xF0);
        f.push(0xF0); f.push(0x80); f.push(0xF0); f.push(0x80); f.push(0x80);
        proof {
            assert(f@ =~= font_seq());
        }
        f
    }

    /// A machine in its initial state, with the given pacing target and
    /// debug-mode flag.
    pub fn new(fps: u32, debug: bool) -> (c: Chip)
        ensures
            c@.wf(),
            c@ == initial_state(),
            c.spec_fps() == fps,
            c.spec_debug() == debug,
    {
        let mut memory = Self::font();
        while memory.len() < 4096
            invariant
                80 <= memory@.len() <= 4096,
                forall|i: int| 0 <= i < 80 ==> memory@[i] == font_seq()[i],
                forall|i: int| 80 <= i < memory@.len() ==> memory@[i] == 0u8,
            decreases 4096 - memory.len(),
        {
            memory.push(0);
        }
        let mut v: Vec<u8> = Vec::new();
        while v.len() < 16
            invariant
                v@.len() <= 16,
                forall|i: int| 0 <= i < v@.len() ==> v@[i] == 0u8,
            decreases 16 - v.len(),
        {
            v.push(0);
        }
        let mut stack: Vec<u16> = Vec::new();
        while stack.len() < 16
            invariant
                stack@.len() <= 16,
                forall|i: int| 0 <= i < stack@.len() ==> stack@[i] == 0u16,
            decreases 16 - stack.len(),
        {
            stack.push(0);
        }
        let c = Chip {
            memory,
            v,
            vi: 0,
            pc: 0x200,
            sp: 0,
            stack,
            gfx: Graphics::new(),
            keyboard: Keyboard::new(),
            delay_timer: 0,
            sound_timer: 0,
            debug,
            fps,
        };
        proof {
            assert(c@.memory =~= init_memory());
            assert(c@.v =~= Seq::new(16, |i: int| 0u8));
            assert(c@.stack =~= Seq::new(16, |i: int| 0u16));
            assert(c@.fb =~= blank_fb());
            assert(c@.keys =~= Seq::new(16, |i: int| false));
            assert(c@ =~= initial_state());
        }
        c
    }

    /// Write a program image into memory starting at 512, truncating what
    /// does not fit. A loading collaborator reads the image from disk and
    /// hands the bytes in.
    pub fn load(&mut self, image: &Vec<u8>)
        requires
            old(self)@.wf(),
        ensures
            final(self)@.wf(),
            final(self)@ == (ChipState {
                memory: loaded_memory(old(self)@.memory, image@),
                ..old(self)@
            }),
            final(self).spec_fps() == old(self).spec_fps(),
            final(self).spec_debug() == old(self).spec_debug(),
    {
        let count = if image.len() > 3584 {
            3584
        } else {
            image.len()
        };
        let mut i: usize = 0;
        while i < count
            invariant
                self@.memory.len() == 4096,
                count <= 3584,
                count <= image@.len(),
                i <= count,
                forall|j: int| 0 <= j < i ==> self@.memory[512 + j] == image@[j],
                forall|j: int|
                    0 <= j < 4096 && !(512 <= j < 512 + i) ==> self@.memory[j] == old(
                        self,
                    )@.memory[j],
                self@ == (ChipState { memory: self@.memory, ..old(self)@ }),
                self.spec_fps() == old(self).spec_fps(),
                self.spec_debug() == old(self).spec_debug(),
            decreases count - i,
        {
            self.memory[512 + i] = image[i];
            i = i + 1;
        }
        proof {
            assert(self@.memory =~= loaded_memory(old(self)@.memory, image@));
            assert(self@ =~= (ChipState {
                memory: loaded_memory(old(self)@.memory, image@),
                ..old(self)@
            }));
        }
    }

    /// Read the big-endian instruction word at `pc` and advance `pc` past it.
    fn fetch_opcode(&mut self) -> (op: u16)
        requires
            old(self)@.wf(),
            old(self)@.pc <= 4094,
        ensures
            final(self)@.wf(),
            op == word_at(old(self)@.memory, old(self)@.pc as int),
            final(self)@ == (ChipState { pc: (old(self)@.pc + 2) as u16, ..old(self)@ }),
            final(self).spec_fps() == old(self).spec_fps(),
            final(self).spec_debug() == old(self).spec_debug(),
    {
        let hi = self.memory[self.pc as usize];
        let lo = self.memory[self.pc as usize + 1];
        self.pc = self.pc + 2;
        ((hi as u16) << 8) | (lo as u16)
    }

    /// Execute one `8xyN` register-to-register instruction.
    fn exec_alu(&mut self, op: u16) -> (r: Result<(), VmError>)
        requires
            old(self)@.wf(),
        ensures
            final(self)@.wf(),
            (match r {
                Ok(u) => spec_alu(old(self)@, op) == Ok::<ChipState, VmError>(final(self)@),
                Err(e) => spec_alu(old(self)@, op) == Err::<ChipState, VmError>(e)
                    && final(self)@ == old(self)@,
            }),
            final(self).spec_fps() == old(self).spec_fps(),
            final(self).spec_debug() == old(self).spec_debug(),
    {
        proof {
            lemma_decode_bounds(op);
        }
        let x = ((op & 0x0F00) >> 8) as usize;
        let y = ((op & 0x00F0) >> 4) as usize;
        let sub = op & 0x000F;
        let vx = self.v[x];
        let vy = self.v[y];
        if sub == 0 {
            self.v[x] = vy;
            Ok(())
        } else if sub == 1 {
            self.v[x] = vx | vy;
            Ok(())
        } else if sub == 2 {
            self.v[x] = vx & vy;
            Ok(())
        } else if sub == 3 {
            self.v[x] = vx ^ vy;
            Ok(())
        } else if sub == 4 {
            let sum: u16 = vx as u16 + vy as u16;
            self.v[15] = if sum > 255 {
                1
            } else {
                0
            };
            self.v[x] = vx.wrapping_add(vy);
            proof {
                assert(vx.wrapping_add(vy) == wrap_add8(vx, vy));
            }
            Ok(())
        } else if sub == 5 {
            self.v[15] = if vx > vy {
                1
            } else {
                0
            };
            self.v[x] = vx.wrapping_sub(vy);
            proof {
                assert(vx.wrapping_sub(vy) == wrap_sub8(vx, vy));
            }
            Ok(())
        } else if sub == 6 {
            self.v[15] = vx & 1;
            self.v[x] = vx >> 1;
            Ok(())
        } else if sub == 7 {
            self.v[15] = if vx < vy {
                1
            } else {
                0
            };
            self.v[x] = vy.wrapping_sub(vx);
            proof {
                assert(vy.wrapping_sub(vx) == wrap_sub8(vy, vx));
            }
            Ok(())
        } else if sub == 0xE {
            self.v[15] = vx & 0x10;
            self.v[x] = (vx & 0x7F) << 1;
            Ok(())
        } else {
            Err(VmError::UnknownOpcode(op))
        }
    }

    /// Execute one `Dxyn` sprite-draw instruction: XOR-blend `n` sprite rows
    /// read from `memory[I..I+n]` at origin (`Vx mod 64`, `Vy mod 32`),
    /// clipping at the screen edges.
    fn exec_drw(&mut self, op: u16) -> (r: Result<(), VmError>)
        requires
            old(self)@.wf(),
        ensures
            final(self)@.wf(),
            (match r {
                Ok(u) => spec_drw(old(self)@, op) == Ok::<ChipState, VmError>(final(self)@),
                Err(e) => spec_drw(old(self)@, op) == Err::<ChipState, VmError>(e)
                    && final(self)@ == old(self)@,
            }),
            final(self).spec_fps() == old(self).spec_fps(),
            final(self).spec_debug() == old(self).spec_debug(),
    {
        proof {
            lemma_decode_bounds(op);
        }
        let x = ((op & 0x0F00) >> 8) as usize;
        let y = ((op & 0x00F0) >> 4) as usize;
        let n = (op & 0x000F) as usize;
        if self.vi as usize + n > 4096 {
            return Err(VmError::OutOfBounds);
        }
        let vi = self.vi as usize;
        let ox = (self.v[x] % 64) as usize;
        let oy = (self.v[y] % 32) as usize;
        let mut vf: u8 = self.v[15];
        let ghost s0 = self@;
        let mut r: usize = 0;
        while r < n && oy + r < 32
            invariant
                self@.wf(),
                r <= n,
                n < 16,
                ox < 64,
                oy < 32,
                vi == s0.vi,
                vi + n <= 4096,
                self@ == (ChipState { fb: self@.fb, ..s0 }),
                draw_rows(s0.fb, s0.memory, vi as int, 0, n as int, ox as int, oy as int, s0.v[15])
                    == draw_rows(self@.fb, s0.memory, vi as int, r as int, n as int, ox as int, oy as int, vf),
                self.spec_fps() == old(self).spec_fps(),
                self.spec_debug() == old(self).spec_debug(),
            decreases n - r,
        {
            let byte = self.memory[vi + r];
            let row = oy + r;
            let ghost fb_row = self@.fb;
            let ghost vf_row = vf;
            let mut c: usize = 0;
            while c < 8 && ox + c < 64
                invariant
                    self@.wf(),
                    c <= 8,
                    ox < 64,
                    row < 32,
                    self@ == (ChipState { fb: self@.fb, ..s0 }),
                    draw_cols(fb_row, byte, 0, ox as int, row as int, vf_row)
                        == draw_cols(self@.fb, byte, c as int, ox as int, row as int, vf),
                    self.spec_fps() == old(self).spec_fps(),
                    self.spec_debug() == old(self).spec_debug(),
                decreases 8 - c,
            {
                let shift: u8 = (7 - c) as u8;
                let on = ((byte >> shift) & 1) == 1;
                let cur = self.gfx.get(row, ox + c);
                let ghost fb_before = self@.fb;
                let ghost vf_before = vf;
                vf = if cur && on {
                    1
                } else {
                    0
                };
                self.gfx.set(row, ox + c, on != cur);
                proof {
                    assert(draw_cols(fb_before, byte, c as int, ox as int, row as int, vf_before)
                        == draw_cols(self@.fb, byte, c as int + 1, ox as int, row as int, vf));
                }
                c = c + 1;
            }
            proof {
                assert(draw_cols(self@.fb, byte, c as int, ox as int, row as int, vf)
                    == (self@.fb, vf));
                assert(byte == s0.memory[vi + r]);
                assert(draw_rows(fb_row, s0.memory, vi as int, r as int, n as int, ox as int, oy as int, vf_row)
                    == draw_rows(self@.fb, s0.memory, vi as int, r as int + 1, n as int, ox as int, oy as int, vf));
            }
            r = r + 1;
        }
        proof {
            assert(draw_rows(self@.fb, s0.memory, vi as int, r as int, n as int, ox as int, oy as int, vf)
                == (self@.fb, vf));
        }
        self.v[15] = vf;
        proof {
            assert(self@ =~= (ChipState { fb: self@.fb, v: s0.v.update(15, vf), ..s0 }));
            assert(spec_drw(s0, op) == Ok::<ChipState, VmError>(self@));
        }
        Ok(())
    }

    /// Execute one `Ex9E` / `ExA1` key-skip instruction.
    fn exec_ex(&mut self, op: u16) -> (r: Result<(), VmError>)
        requires
            old(self)@.wf(),
            old(self)@.pc <= 4096,
        ensures
            final(self)@.wf(),
            (match r {
                Ok(u) => spec_ex(old(self)@, op) == Ok::<ChipState, VmError>(final(self)@),
                Err(e) => spec_ex(old(self)@, op) == Err::<ChipState, VmError>(e)
                    && final(self)@ == old(self)@,
            }),
            final(self).spec_fps() == old(self).spec_fps(),
            final(self).spec_debug() == old(self).spec_debug(),
    {
        proof {
            lemma_decode_bounds(op);
        }
        let x = ((op & 0x0F00) >> 8) as usize;
        let sub = op & 0x00FF;
        if sub == 0x9E {
            let vx = self.v[x];
            if vx >= 16 {
                return Err(VmError::OutOfBounds);
            }
            if self.keyboard.get(vx as usize) {
                self.pc = self.pc + 2;
            }
            Ok(())
        } else if sub == 0xA1 {
            let vx = self.v[x];
            if vx >= 16 {
                return Err(VmError::OutOfBounds);
            }
            if !self.keyboard.get(vx as usize) {
                self.pc = self.pc + 2;
            }
            Ok(())
        } else {
            Err(VmError::UnknownOpcode(op))
        }
    }

    /// Execute one `FxNN` instruction: timers, index register, key wait,
    /// BCD decomposition, register store/load.
    fn exec_fx(&mut self, op: u16) -> (r: Result<(), VmError>)
        requires
            old(self)@.wf(),
            2 <= old(self)@.pc,
        ensures
            final(self)@.wf(),
            (match r {
                Ok(u) => spec_fx(old(self)@, op) == Ok::<ChipState, VmError>(final(self)@),
                Err(e) => spec_fx(old(self)@, op) == Err::<ChipState, VmError>(e)
                    && final(self)@ == old(self)@,
            }),
            final(self).spec_fps() == old(self).spec_fps(),
            final(self).spec_debug() == old(self).spec_debug(),
    {
        proof {
            lemma_decode_bounds(op);
        }
        let x = ((op & 0x0F00) >> 8) as usize;
        let sub = op & 0x00FF;
        if sub == 0x07 {
            let dt = self.delay_timer;
            self.v[x] = dt;
            Ok(())
        } else if sub == 0x0A {
            match self.keyboard.find_pressed_key() {
                Some(k) => {
                    self.v[x] = k;
                },
                None => {
                    self.pc = self.pc - 2;
                },
            }
            Ok(())
        } else if sub == 0x15 {
            self.delay_timer = self.v[x];
            Ok(())
        } else if sub == 0x18 {
            self.sound_timer = self.v[x];
            Ok(())
        } else if sub == 0x1E {
            let vx = self.v[x];
            if self.vi > 0xFFFF - vx as u16 {
                return Err(VmError::OutOfBounds);
            }
            self.vi = self.vi + vx as u16;
            Ok(())
        } else if sub == 0x29 {
            let vx = self.v[x];
            self.vi = vx as u16;
            Ok(())
        } else if sub == 0x33 {
            if self.vi as usize + 2 >= 4096 {
                return Err(VmError::OutOfBounds);
            }
            let vx = self.v[x];
            let vi = self.vi as usize;
            self.memory[vi] = vx / 100;
            self.memory[vi + 1] = (vx / 10) % 10;
            self.memory[vi + 2] = vx % 10;
            Ok(())
        } else if sub == 0x55 {
            if self.vi as usize + x >= 4096 {
                return Err(VmError::OutOfBounds);
            }
            let vi = self.vi as usize;
            let ghost s0 = self@;
            let mut i: usize = 0;
            while i <= x
                invariant
                    self@.wf(),
                    i <= x + 1,
                    x < 16,
                    vi == s0.vi,
                    vi + x < 4096,
                    self@ == (ChipState { memory: self@.memory, ..s0 }),
                    forall|j: int| vi <= j < vi + i ==> self@.memory[j] == s0.v[j - vi],
                    forall|j: int|
                        0 <= j < 4096 && !(vi <= j < vi + i) ==> self@.memory[j] == s0.memory[j],
                    self.spec_fps() == old(self).spec_fps(),
                    self.spec_debug() == old(self).spec_debug(),
                decreases x + 1 - i,
            {
                let value = self.v[i];
                self.memory[vi + i] = value;
                i = i + 1;
            }
            proof {
                assert(self@.memory =~= store_regs(s0.memory, s0.v, vi as int, x as int));
                assert(spec_fx(s0, op) == Ok::<ChipState, VmError>(self@));
            }
            Ok(())
        } else if sub == 0x65 {
            if self.vi as usize + x >= 4096 {
                return Err(VmError::OutOfBounds);
            }
            let vi = self.vi as usize;
            let ghost s0 = self@;
            let mut i: usize = 0;
            while i <= x
                invariant
                    self@.wf(),
                    i <= x + 1,
                    x < 16,
                    vi == s0.vi,
                    vi + x < 4096,
                    self@ == (ChipState { v: self@.v, ..s0 }),
                    forall|j: int| 0 <= j < i ==> self@.v[j] == s0.memory[vi + j],
                    forall|j: int| i <= j < 16 ==> self@.v[j] == s0.v[j],
                    self.spec_fps() == old(self).spec_fps(),
                    self.spec_debug() == old(self).spec_debug(),
                decreases x + 1 - i,
            {
                let value = self.memory[vi + i];
                self.v[i] = value;
                i = i + 1;
            }
            proof {
                assert(self@.v =~= load_regs(s0.memory, s0.v, vi as int, x as int));
                assert(spec_fx(s0, op) == Ok::<ChipState, VmError>(self@));
            }
            Ok(())
        } else {
            Err(VmError::UnknownOpcode(op))
        }
    }

    /// Execute one decoded instruction; `pc` has already been advanced past
    /// it. Returns whether the frame buffer changed. The `Cxnn` instruction
    /// draws a fresh random byte, so the contract holds for some byte.
    fn exec_op(&mut self, op: u16) -> (r: Result<bool, VmError>)
        requires
            old(self)@.wf(),
            2 <= old(self)@.pc <= 4096,
        ensures
            final(self)@.wf(),
            (match r {
                Ok(redraw) => exists|b: u8|
                    #[trigger] spec_exec(old(self)@, op, b) == Ok::<(ChipState, bool), VmError>(
                        (final(self)@, redraw),
                    ),
                Err(e) => spec_exec(old(self)@, op, 0) == Err::<(ChipState, bool), VmError>(e)
                    && final(self)@ == old(self)@,
            }),
            final(self).spec_fps() == old(self).spec_fps(),
            final(self).spec_debug() == old(self).spec_debug(),
    {
        proof {
            lemma_decode_bounds(op);
        }
        let x = ((op & 0x0F00) >> 8) as usize;
        let y = ((op & 0x00F0) >> 4) as usize;
        let nn = (op & 0x00FF) as u8;
        let nnn = op & 0x0FFF;
        if op == 0x00E0 {
            self.gfx.clear();
            proof {
                assert(self@.fb =~= blank_fb());
                assert(self@ =~= (ChipState { fb: blank_fb(), ..old(self)@ }));
                assert(spec_exec(old(self)@, op, 0) == Ok::<(ChipState, bool), VmError>(
                    (self@, true),
                ));
            }
            Ok(true)
        } else if op == 0x00EE {
            if self.sp == 0 {
                return Err(VmError::OutOfBounds);
            }
            let sp = self.sp;
            self.pc = self.stack[sp as usize];
            self.sp = sp - 1;
            proof {
                assert(spec_exec(old(self)@, op, 0) == Ok::<(ChipState, bool), VmError>(
                    (self@, false),
                ));
            }
            Ok(false)
        } else {
            let family = op & 0xF000;
            if family == 0x1000 {
                self.pc = nnn;
                proof {
                    assert(spec_exec(old(self)@, op, 0) == Ok::<(ChipState, bool), VmError>(
                        (self@, false),
                    ));
                }
                Ok(false)
            } else if family == 0x2000 {
                if self.sp >= 15 {
                    return Err(VmError::OutOfBounds);
                }
                let pc = self.pc;
                self.sp = self.sp + 1;
                self.stack[self.sp as usize] = pc;
                self.pc = nnn;
                proof {
                    assert(spec_exec(old(self)@, op, 0) == Ok::<(ChipState, bool), VmError>(
                        (self@, false),
                    ));
                }
                Ok(false)
            } else if family == 0x3000 {
                if self.v[x] == nn {
                    self.pc = self.pc + 2;
                }
                proof {
                    assert(spec_exec(old(self)@, op, 0) == Ok::<(ChipState, bool), VmError>(
                        (self@, false),
                    ));
                }
                Ok(false)
            } else if family == 0x4000 {
                if self.v[x] != nn {
                    self.pc = self.pc + 2;
                }
                proof {
                    assert(spec_exec(old(self)@, op, 0) == Ok::<(ChipState, bool), VmError>(
                        (self@, false),
                    ));
                }
                Ok(false)
            } else if family == 0x5000 {
                if op & 0x000F != 0 {
                    return Err(VmError::UnknownOpcode(op));
                }
                if self.v[x] == self.v[y] {
                    self.pc = self.pc + 2;
                }
                proof {
                    assert(spec_exec(old(self)@, op, 0) == Ok::<(ChipState, bool), VmError>(
                        (self@, false),
                    ));
                }
                Ok(false)
            } else if family == 0x6000 {
                self.v[x] = nn;
                proof {
                    assert(spec_exec(old(self)@, op, 0) == Ok::<(ChipState, bool), VmError>(
                        (self@, false),
                    ));
                }
                Ok(false)
            } else if family == 0x7000 {
                let vx = self.v[x];
                self.v[x] = vx.wrapping_add(nn);
                proof {
                    assert(vx.wrapping_add(nn) == wrap_add8(vx, nn));
                    assert(spec_exec(old(self)@, op, 0) == Ok::<(ChipState, bool), VmError>(
                        (self@, false),
                    ));
                }
                Ok(false)
            } else if family == 0x8000 {
                match self.exec_alu(op) {
                    Ok(u) => Ok(false),
                    Err(e) => Err(e),
                }
            } else if family == 0x9000 {
                if op & 0x000F != 0 {
                    return Err(VmError::UnknownOpcode(op));
                }
                if self.v[x] != self.v[y] {
                    self.pc = self.pc + 2;
                }
                proof {
                    assert(spec_exec(old(self)@, op, 0) == Ok::<(ChipState, bool), VmError>(
                        (self@, false),
                    ));
                }
                Ok(false)
            } else if family == 0xA000 {
                self.vi = nnn;
                proof {
                    assert(spec_exec(old(self)@, op, 0) == Ok::<(ChipState, bool), VmError>(
                        (self@, false),
                    ));
                }
                Ok(false)
            } else if family == 0xB000 {
                let v0 = self.v[0];
                self.pc = nnn + v0 as u16;
                proof {
                    assert(spec_exec(old(self)@, op, 0) == Ok::<(ChipState, bool), VmError>(
                        (self@, false),
                    ));
                }
                Ok(false)
            } else if family == 0xC000 {
                let b = rand::random::<u8>();
                self.v[x] = b & nn;
                proof {
                    assert(spec_exec(old(self)@, op, b) == Ok::<(ChipState, bool), VmError>(
                        (self@, false),
                    ));
                }
                Ok(false)
            } else if family == 0xD000 {
                match self.exec_drw(op) {
                    Ok(u) => Ok(true),
                    Err(e) => Err(e),
                }
            } else if family == 0xE000 {
                match self.exec_ex(op) {
                    Ok(u) => Ok(false),
                    Err(e) => Err(e),
                }
            } else if family == 0xF000 {
                match self.exec_fx(op) {
                    Ok(u) => Ok(false),
                    Err(e) => Err(e),
                }
            } else {
                Err(VmError::UnknownOpcode(op))
            }
        }
    }

    /// Emulate one cycle: fetch, decode, execute, then decrement the timers.
    /// Implements the transition function [`spec_step`] of the model, for
    /// some value of the random byte an executed `Cxnn` may have drawn.
    pub fn exec_cycle(&mut self) -> (r: Result<Effect, VmError>)
        requires
            old(self)@.wf(),
        ensures
            final(self)@.wf(),
            (match r {
                Ok(eff) => exists|b: u8|
                    #[trigger] spec_step(old(self)@, b) == (StepRes::Stepped {
                        post: final(self)@,
                        redraw: eff.redraw,
                        beep: eff.beep,
                    }),
                Err(e) => exists|b: u8|
                    #[trigger] spec_step(old(self)@, b) == (StepRes::Halted {
                        post: final(self)@,
                        err: e,
                    }),
            }),
            final(self).spec_fps() == old(self).spec_fps(),
            final(self).spec_debug() == old(self).spec_debug(),
    {
        if self.pc > 4094 {
            proof {
                assert(spec_step(old(self)@, 0) == (StepRes::Halted {
                    post: old(self)@,
                    err: VmError::OutOfBounds,
                }));
            }
            return Err(VmError::OutOfBounds);
        }
        let op = self.fetch_opcode();
        let ghost s1 = self@;
        let res = self.exec_op(op);
        let ghost s2 = self@;
        match res {
            Ok(redraw) => {
                let beep = self.sound_timer > 0;
                if self.delay_timer > 0 {
                    self.delay_timer = self.delay_timer - 1;
                }
                if self.sound_timer > 0 {
                    self.sound_timer = self.sound_timer - 1;
                }
                proof {
                    let b = choose|b: u8|
                        #[trigger] spec_exec(s1, op, b) == Ok::<(ChipState, bool), VmError>(
                            (s2, redraw),
                        );
                    assert(self@ =~= tick_timers(s2));
                    assert(spec_step(old(self)@, b) == (StepRes::Stepped {
                        post: self@,
                        redraw: redraw,
                        beep: beep,
                    }));
                }
                Ok(Effect { redraw, beep })
            },
            Err(e) => {
                proof {
                    assert(spec_step(old(self)@, 0) == (StepRes::Halted { post: self@, err: e }));
                }
                Err(e)
            },
        }
    }

    /// The instruction word the next cycle will fetch, if `pc` leaves room
    /// for a two-byte read. Step/debug mode shows it before executing.
    pub fn peek_opcode(&self) -> (r: Option<u16>)
        requires
            self@.wf(),
        ensures
            r == (if self@.pc <= 4094 {
                Some(word_at(self@.memory, self@.pc as int))
            } else {
                Option::<u16>::None
            }),
    {
        if self.pc > 4094 {
            return None;
        }
        let hi = self.memory[self.pc as usize];
        let lo = self.memory[self.pc as usize + 1];
        Some(((hi as u16) << 8) | (lo as u16))
    }

    /// The value of register `Vx`.
    pub fn reg(&self, x: u8) -> (r: u8)
        requires
            self@.wf(),
            x < 16,
        ensures
            r == self@.v[x as int],
    {
        self.v[x as usize]
    }

    /// The program counter.
    pub fn program_counter(&self) -> (r: u16)
        ensures
            r == self@.pc,
    {
        self.pc
    }

    /// The stack pointer.
    pub fn stack_pointer(&self) -> (r: u8)
        ensures
            r == self@.sp,
    {
        self.sp
    }

    /// The index register `I`.
    pub fn index_register(&self) -> (r: u16)
        ensures
            r == self@.vi,
    {
        self.vi
    }

    /// The delay timer.
    pub fn delay(&self) -> (r: u8)
        ensures
            r == self@.delay_timer,
    {
        self.delay_timer
    }

    /// The sound timer.
    pub fn sound(&self) -> (r: u8)
        ensures
            r == self@.sound_timer,
    {
        self.sound_timer
    }

    /// The byte at memory address `addr`.
    pub fn mem_at(&self, addr: usize) -> (r: u8)
        requires
            self@.wf(),
            addr < 4096,
        ensures
            r == self@.memory[addr as int],
    {
        self.memory[addr]
    }

    /// The pixel at (`row`, `col`) of the frame buffer.
    pub fn pixel(&self, row: usize, col: usize) -> (b: bool)
        requires
            self@.wf(),
            row < 32,
            col < 64,
        ensures
            b == self@.fb[row as int * 64 + col as int],
    {
        self.gfx.get(row, col)
    }

    /// Whether key `k` is pressed.
    pub fn key(&self, k: usize) -> (b: bool)
        requires
            self@.wf(),
            k < 16,
        ensures
            b == self@.keys[k as int],
    {
        self.keyboard.get(k)
    }

    /// Mark `k` as the one pressed key, releasing all others.
    pub fn press_key(&mut self, k: u8)
        requires
            old(self)@.wf(),
            k < 16,
        ensures
            final(self)@.wf(),
            final(self)@ == (ChipState {
                keys: Seq::new(16, |i: int| i == k as int),
                ..old(self)@
            }),
            final(self).spec_fps() == old(self).spec_fps(),
            final(self).spec_debug() == old(self).spec_debug(),
    {
        self.keyboard.press(k);
    }

    /// The configured instructions-per-second target.
    pub fn fps(&self) -> (r: u32)
        ensures
            r == self.spec_fps(),
    {
        self.fps
    }

    /// Whether step/debug mode is on.
    pub fn debug_mode(&self) -> (r: bool)
        ensures
            r == self.spec_debug(),
    {
        self.debug
    }
}

} // verus!
