use vstd::prelude::*;
use crate::display::ScreenRAM;
use crate::display::blank_screen;
use crate::display::draw_collision;
use crate::display::draw_pixels;
use crate::input::Get;
use crate::ram::RAM;
use crate::ram::word_at;
use crate::types::Chip8Error;
use crate::types::Chip8Utils;
use crate::types::op_family;
use crate::types::op_kk;
use crate::types::op_n;
use crate::types::op_nnn;
use crate::types::op_x;
use crate::types::op_y;

verus! {

/// The state token one cycle returns when it does not fail.
#[derive(Clone, Copy, Debug, PartialEq, Eq, Structural)]
pub enum CPUState {
    /// The instruction completed; the next one can be fetched.
    Running,
    /// A wait-for-key instruction found no pending latch; the same
    /// instruction will be re-presented on the next cycle.
    WaitForInput,
}

/// The machine as the contracts see it: the sixteen general registers,
/// the index register, the program counter, the call stack, the two
/// timers, the memory image and the pixel grid.
#[verifier::ext_equal]
pub struct CpuSnap {
    pub v: Seq<u8>,
    pub i: u16,
    pub pc: u16,
    pub stack: Seq<u16>,
    pub dt: u8,
    pub st: u8,
    pub mem: Seq<u8>,
    pub screen: Seq<bool>,
}

/// What one decoded step of the machine does: the next snapshot, whether
/// the key latch was consumed, and the state token or error returned.
pub struct Step {
    pub post: CpuSnap,
    pub take_latch: bool,
    pub result: Result<CPUState, Chip8Error>,
}

pub open spec fn snap_wf(s: CpuSnap) -> bool {
    &&& s.v.len() == 16
    &&& s.mem.len() == 0x1000
    &&& s.screen.len() == 2048
}

/// A failed step: the error is surfaced and the machine is untouched.
pub open spec fn halt_step(pre: CpuSnap, e: Chip8Error) -> Step {
    Step { post: pre, take_latch: false, result: Err(e) }
}

/// A completed step.
pub open spec fn run_step(post: CpuSnap) -> Step {
    Step { post, take_latch: false, result: Ok(CPUState::Running) }
}

/// 8-bit addition, wrapping modulo 256.
pub open spec fn add8(a: u8, b: u8) -> u8 {
    ((a + b) % 0x100) as u8
}

/// 8-bit subtraction, wrapping modulo 256.
pub open spec fn sub8(a: u8, b: u8) -> u8 {
    (if a >= b {
        a - b
    } else {
        a + 0x100 - b
    }) as u8
}

/// 16-bit addition, wrapping modulo 65536.
pub open spec fn add16(a: u16, b: u16) -> u16 {
    ((a + b) % 0x10000) as u16
}

/// Whether key `k` is down in the key map.
pub open spec fn key_down(keys: Seq<bool>, k: u8) -> bool {
    k <= 0xF && keys[k as int]
}

/// The register-register family (most-significant nibble 8). Flag
/// results land in register 15 before the target register is written,
/// and every operand is read from the pre-state.
pub open spec fn step_alu(pre: CpuSnap, pc2: u16, w: u16) -> Step {
    let x = op_x(w) as int;
    let y = op_y(w) as int;
    let vx = pre.v[x];
    let vy = pre.v[y];
    let sub = op_n(w);
    if sub == 0x0 {
        run_step(CpuSnap { pc: pc2, v: pre.v.update(x, vy), ..pre })
    } else if sub == 0x1 {
        run_step(CpuSnap { pc: pc2, v: pre.v.update(x, vx | vy), ..pre })
    } else if sub == 0x2 {
        run_step(CpuSnap { pc: pc2, v: pre.v.update(x, vx & vy), ..pre })
    } else if sub == 0x3 {
        run_step(CpuSnap { pc: pc2, v: pre.v.update(x, vx ^ vy), ..pre })
    } else if sub == 0x4 {
        let carry: u8 = if vx + vy > 0xFF {
            1
        } else {
            0
        };
        run_step(CpuSnap { pc: pc2, v: pre.v.update(15, carry).update(x, add8(vx, vy)), ..pre })
    } else if sub == 0x5 {
        let flag: u8 = if vx > vy {
            1
        } else {
            0
        };
        run_step(CpuSnap { pc: pc2, v: pre.v.update(15, flag).update(x, sub8(vx, vy)), ..pre })
    } else if sub == 0x6 {
        run_step(CpuSnap { pc: pc2, v: pre.v.update(15, vx & 1).update(x, vx >> 1u8), ..pre })
    } else if sub == 0x7 {
        let flag: u8 = if vy > vx {
            1
        } else {
            0
        };
        run_step(CpuSnap { pc: pc2, v: pre.v.update(15, flag).update(x, sub8(vy, vx)), ..pre })
    } else if sub == 0xE {
        run_step(CpuSnap { pc: pc2, v: pre.v.update(15, vx >> 7u8).update(x, vx << 1u8), ..pre })
    } else {
        halt_step(pre, Chip8Error::InvalidOpcode)
    }
}

/// Memory after registers 0 through `count - 1` are copied to the
/// addresses starting at `base`.
pub open spec fn store_regs(m: Seq<u8>, v: Seq<u8>, base: int, count: int) -> Seq<u8> {
    Seq::new(0x1000, |a: int| if base <= a < base + count {
        v[a - base]
    } else {
        m[a]
    })
}

/// Registers after the first `count` of them are loaded from the
/// addresses starting at `base`.
pub open spec fn load_regs(v: Seq<u8>, m: Seq<u8>, base: int, count: int) -> Seq<u8> {
    Seq::new(16, |j: int| if j < count {
        m[base + j]
    } else {
        v[j]
    })
}

/// The miscellaneous family (most-significant nibble F).
pub open spec fn step_misc(pre: CpuSnap, pc2: u16, w: u16, latch: Option<u8>) -> Step {
    let x = op_x(w) as int;
    let kk = op_kk(w);
    let vx = pre.v[x];
    if kk == 0x07 {
        run_step(CpuSnap { pc: pc2, v: pre.v.update(x, pre.dt), ..pre })
    } else if kk == 0x0A {
        match latch {
            None => Step {
                post: pre,
                take_latch: true,
                result: Ok(CPUState::WaitForInput),
            },
            Some(k) => Step {
                post: CpuSnap { pc: pc2, v: pre.v.update(x, k), ..pre },
                take_latch: true,
                result: Ok(CPUState::Running),
            },
        }
    } else if kk == 0x15 {
        run_step(CpuSnap { pc: pc2, dt: vx, ..pre })
    } else if kk == 0x18 {
        run_step(CpuSnap { pc: pc2, st: vx, ..pre })
    } else if kk == 0x1E {
        run_step(CpuSnap { pc: pc2, i: add16(pre.i, vx as u16), ..pre })
    } else if kk == 0x29 {
        if vx <= 0xF {
            run_step(CpuSnap { pc: pc2, i: (vx * 5) as u16, ..pre })
        } else {
            halt_step(pre, Chip8Error::InvalidDigit)
        }
    } else if kk == 0x33 {
        if pre.i > 0xFFC {
            halt_step(pre, Chip8Error::OutOfBounds)
        } else {
            let m = pre.mem.update(pre.i as int, (vx / 100 % 10) as u8).update(
                pre.i as int + 1,
                (vx / 10 % 10) as u8,
            ).update(pre.i as int + 2, (vx % 10) as u8);
            run_step(CpuSnap { pc: pc2, mem: m, ..pre })
        }
    } else if kk == 0x55 {
        if pre.i + x > 0xFFE {
            halt_step(pre, Chip8Error::OutOfBounds)
        } else {
            run_step(
                CpuSnap { pc: pc2, mem: store_regs(pre.mem, pre.v, pre.i as int, x + 1), ..pre },
            )
        }
    } else if kk == 0x65 {
        if pre.i + x > 0xFFE {
            halt_step(pre, Chip8Error::OutOfBounds)
        } else {
            run_step(CpuSnap { pc: pc2, v: load_regs(pre.v, pre.mem, pre.i as int, x + 1), ..pre })
        }
    } else {
        halt_step(pre, Chip8Error::InvalidOpcode)
    }
}

/// One full cycle of the machine: fetch the word at the program counter,
/// advance past it, decode and execute. `rnd` stands for the byte the
/// random source hands the C family; every other family ignores it.
/// A failed step leaves the machine exactly as it was.
pub open spec fn step(pre: CpuSnap, keys: Seq<bool>, latch: Option<u8>, rnd: u8) -> Step {
    if pre.pc > 0xFFE {
        halt_step(pre, Chip8Error::OutOfBounds)
    } else if pre.pc % 2 != 0 {
        halt_step(pre, Chip8Error::Misaligned)
    } else {
        let w = word_at(pre.mem, pre.pc as int);
        let pc2 = (pre.pc + 2) as u16;
        let x = op_x(w) as int;
        let y = op_y(w) as int;
        let nnn = op_nnn(w);
        let kk = op_kk(w);
        let n = op_n(w);
        let fam = op_family(w);
        if fam == 0x0 {
            if nnn == 0x0E0 {
                run_step(CpuSnap { pc: pc2, screen: blank_screen(), ..pre })
            } else if nnn == 0x0EE {
                if pre.stack.len() == 0 {
                    halt_step(pre, Chip8Error::StackUnderflow)
                } else {
                    run_step(CpuSnap { pc: pre.stack.last(), stack: pre.stack.drop_last(), ..pre })
                }
            } else {
                run_step(CpuSnap { pc: pc2, ..pre })
            }
        } else if fam == 0x1 {
            run_step(CpuSnap { pc: nnn, ..pre })
        } else if fam == 0x2 {
            run_step(CpuSnap { pc: nnn, stack: pre.stack.push(pc2), ..pre })
        } else if fam == 0x3 {
            run_step(CpuSnap { pc: if pre.v[x] == kk { (pc2 + 2) as u16 } else { pc2 }, ..pre })
        } else if fam == 0x4 {
            run_step(CpuSnap { pc: if pre.v[x] != kk { (pc2 + 2) as u16 } else { pc2 }, ..pre })
        } else if fam == 0x5 {
            run_step(
                CpuSnap { pc: if pre.v[x] == pre.v[y] { (pc2 + 2) as u16 } else { pc2 }, ..pre },
            )
        } else if fam == 0x6 {
            run_step(CpuSnap { pc: pc2, v: pre.v.update(x, kk), ..pre })
        } else if fam == 0x7 {
            run_step(CpuSnap { pc: pc2, v: pre.v.update(x, add8(pre.v[x], kk)), ..pre })
        } else if fam == 0x8 {
            step_alu(pre, pc2, w)
        } else if fam == 0x9 {
            run_step(
                CpuSnap { pc: if pre.v[x] != pre.v[y] { (pc2 + 2) as u16 } else { pc2 }, ..pre },
            )
        } else if fam == 0xA {
            run_step(CpuSnap { pc: pc2, i: nnn, ..pre })
        } else if fam == 0xB {
            run_step(CpuSnap { pc: (nnn + pre.v[0]) as u16, ..pre })
        } else if fam == 0xC {
            run_step(CpuSnap { pc: pc2, v: pre.v.update(x, rnd & kk), ..pre })
        } else if fam == 0xD {
            if pre.i + n > 0xFFF {
                halt_step(pre, Chip8Error::IndexOverflow)
            } else {
                let s = pre.mem.subrange(pre.i as int, pre.i as int + n);
                let coll = draw_collision(pre.screen, pre.v[x], pre.v[y], s);
                run_step(
                    CpuSnap {
                        pc: pc2,
                        screen: draw_pixels(pre.screen, pre.v[x], pre.v[y], s),
                        v: pre.v.update(15, if coll { 1u8 } else { 0u8 }),
                        ..pre
                    },
                )
            }
        } else if fam == 0xE {
            if kk == 0x9E {
                run_step(
                    CpuSnap {
                        pc: if key_down(keys, pre.v[x]) { (pc2 + 2) as u16 } else { pc2 },
                        ..pre
                    },
                )
            } else if kk == 0xA1 {
                run_step(
                    CpuSnap {
                        pc: if !key_down(keys, pre.v[x]) { (pc2 + 2) as u16 } else { pc2 },
                        ..pre
                    },
                )
            } else {
                halt_step(pre, Chip8Error::InvalidOpcode)
            }
        } else {
            step_misc(pre, pc2, w, latch)
        }
    }
}

/// The built-in font table: sixteen glyphs of five bytes, one bitmap per
/// hexadecimal digit, preloaded at addresses 0x000 through 0x04F.
pub open spec fn font_sprites() -> Seq<u8> {
    seq![
        0xF0u8, 0x90, 0x90, 0x90, 0xF0,  // 0
        0x20, 0x60, 0x20, 0x20, 0x70,  // 1
        0xF0, 0x10, 0xF0, 0x80, 0xF0,  // 2
        0xF0, 0x10, 0xF0, 0x10, 0xF0,  // 3
        0x90, 0x90, 0xF0, 0x10, 0x10,  // 4
        0xF0, 0x80, 0xF0, 0x10, 0xF0,  // 5
        0xF0, 0x80, 0xF0, 0x90, 0xF0,  // 6
        0xF0, 0x10, 0x20, 0x40, 0x40,  // 7
        0xF0, 0x90, 0xF0, 0x90, 0xF0,  // 8
        0xF0, 0x90, 0xF0, 0x10, 0xF0,  // 9
        0xF0, 0x90, 0xF0, 0x90, 0x90,  // A
        0xE0, 0x90, 0xE0, 0x90, 0xE0,  // B
        0xF0, 0x80, 0x80, 0x80, 0xF0,  // C
        0xE0, 0x90, 0x90, 0x90, 0xE0,  // D
        0xF0, 0x80, 0xF0, 0x80, 0xF0,  // E
        0xF0, 0x80, 0xF0, 0x80, 0x80,  // F
    ]
}

/// A memory image with the first `upto` font bytes written over `m`.
pub open spec fn with_font_upto(m: Seq<u8>, upto: int) -> Seq<u8> {
    Seq::new(0x1000, |a: int| if 0 <= a < upto {
        font_sprites()[a]
    } else {
        m[a]
    })
}

/// A memory image with the whole font table written over `m`.
pub open spec fn with_font(m: Seq<u8>) -> Seq<u8> {
    with_font_upto(m, 80)
}

/// The sixteen general registers, all zero.
pub open spec fn zero_regs() -> Seq<u8> {
    Seq::new(16, |j: int| 0u8)
}

/// The font table as an executable value.
fn fontset() -> (f: Vec<u8>)
    ensures
        f@ == font_sprites(),
{
    let mut f: Vec<u8> = Vec::new();
    f.push(0xF0);
    f.push(0x90);
    f.push(0x90);
    f.push(0x90);
    f.push(0xF0);
    f.push(0x20);
    f.push(0x60);
    f.push(0x20);
    f.push(0x20);
    f.push(0x70);
    f.push(0xF0);
    f.push(0x10);
    f.push(0xF0);
    f.push(0x80);
    f.push(0xF0);
    f.push(0xF0);
    f.push(0x10);
    f.push(0xF0);
    f.push(0x10);
    f.push(0xF0);
    f.push(0x90);
    f.push(0x90);
    f.push(0xF0);
    f.push(0x10);
    f.push(0x10);
    f.push(0xF0);
    f.push(0x80);
    f.push(0xF0);
    f.push(0x10);
    f.push(0xF0);
    f.push(0xF0);
    f.push(0x80);
    f.push(0xF0);
    f.push(0x90);
    f.push(0xF0);
    f.push(0xF0);
    f.push(0x10);
    f.push(0x20);
    f.push(0x40);
    f.push(0x40);
    f.push(0xF0);
    f.push(0x90);
    f.push(0xF0);
    f.push(0x90);
    f.push(0xF0);
    f.push(0xF0);
    f.push(0x90);
    f.push(0xF0);
    f.push(0x10);
    f.push(0xF0);
    f.push(0xF0);
    f.push(0x90);
    f.push(0xF0);
    f.push(0x90);
    f.push(0x90);
    f.push(0xE0);
    f.push(0x90);
    f.push(0xE0);
    f.push(0x90);
    f.push(0xE0);
    f.push(0xF0);
    f.push(0x80);
    f.push(0x80);
    f.push(0x80);
    f.push(0xF0);
    f.push(0xE0);
    f.push(0x90);
    f.push(0x90);
    f.push(0x90);
    f.push(0xE0);
    f.push(0xF0);
    f.push(0x80);
    f.push(0xF0);
    f.push(0x80);
    f.push(0xF0);
    f.push(0xF0);
    f.push(0x80);
    f.push(0xF0);
    f.push(0x80);
    f.push(0x80);
    proof {
        assert(f@ =~= font_sprites());
    }
    f
}

/// Relies on rand::random: a byte sampled from the thread-local
/// generator. Nothing is promised of its value.
#[verifier::external_body]
fn random_byte() -> u8 {
    rand::random::<u8>()
}

/// The execution engine. It exclusively owns the memory and the pixel
/// grid; the input capability is handed to each cycle by the driver.
pub struct CPU {
    v: Vec<u8>,
    i: u16,
    pc: u16,
    stack: Vec<u16>,
    dt: u8,
    st: u8,
    ram: RAM,
    screen: ScreenRAM,
}

impl View for CPU {
    type V = CpuSnap;

    closed spec fn view(&self) -> CpuSnap {
        CpuSnap {
            v: self.v@,
            i: self.i,
            pc: self.pc,
            stack: self.stack@,
            dt: self.dt,
            st: self.st,
            mem: self.ram@,
            screen: self.screen@,
        }
    }
}

impl CPU {
    pub open spec fn wf(&self) -> bool {
        snap_wf(self@)
    }

    /// A freshly reset machine over the given memory: font table written
    /// at address zero, program counter at 0x200, everything else clear.
    pub fn new(ram: RAM) -> (c: CPU)
        requires
            ram.wf(),
        ensures
            c.wf(),
            c@.v == zero_regs(),
            c@.i == 0,
            c@.pc == 0x200,
            c@.stack == Seq::<u16>::empty(),
            c@.dt == 0,
            c@.st == 0,
            c@.mem == with_font(ram@),
            c@.screen == blank_screen(),
    {
        let mut ram = ram;
        let ghost m0 = ram@;
        let font = fontset();
        let mut idx: usize = 0;
        while idx < 80
            invariant
                ram.wf(),
                font@ == font_sprites(),
                idx <= 80,
                ram@ == with_font_upto(m0, idx as int),
            decreases 80 - idx,
        {
            proof {
                assert(with_font_upto(m0, idx as int)[idx as int] == m0[idx as int]);
            }
            let _ = ram.store_u8(idx as u16, font[idx]);
            proof {
                assert(ram@ =~= with_font_upto(m0, idx as int + 1));
            }
            idx = idx + 1;
        }
        let c = CPU {
            v: vec![0u8; 16],
            i: 0,
            pc: 0x200,
            stack: Vec::new(),
            dt: 0,
            st: 0,
            ram,
            screen: ScreenRAM::new(),
        };
        proof {
            assert(c@.v =~= zero_regs());
            assert(c@.stack =~= Seq::<u16>::empty());
        }
        c
    }

    /// One external timer tick: each timer drops by one if it is above
    /// zero, and never below it. Nothing else moves.
    pub fn decrement_counters(&mut self)
        requires
            old(self).wf(),
        ensures
            final(self).wf(),
            final(self)@ == (CpuSnap {
                dt: if old(self)@.dt > 0 {
                    (old(self)@.dt - 1) as u8
                } else {
                    0u8
                },
                st: if old(self)@.st > 0 {
                    (old(self)@.st - 1) as u8
                } else {
                    0u8
                },
                ..old(self)@
            }),
    {
        if self.dt > 0 {
            self.dt = self.dt - 1;
        }
        if self.st > 0 {
            self.st = self.st - 1;
        }
        proof {
            assert(final(self)@ =~= (CpuSnap {
                dt: if old(self)@.dt > 0 {
                    (old(self)@.dt - 1) as u8
                } else {
                    0u8
                },
                st: if old(self)@.st > 0 {
                    (old(self)@.st - 1) as u8
                } else {
                    0u8
                },
                ..old(self)@
            }));
        }
    }

    /// General register `idx`, for diagnostic consumers.
    pub fn reg(&self, idx: u8) -> (r: u8)
        requires
            self.wf(),
            idx <= 0xF,
        ensures
            r == self@.v[idx as int],
    {
        self.v[idx as usize]
    }

    /// The index register.
    pub fn index_reg(&self) -> (r: u16)
        ensures
            r == self@.i,
    {
        self.i
    }

    /// The program counter.
    pub fn pc(&self) -> (r: u16)
        ensures
            r == self@.pc,
    {
        self.pc
    }

    /// The delay timer.
    pub fn delay_timer(&self) -> (r: u8)
        ensures
            r == self@.dt,
    {
        self.dt
    }

    /// The sound timer.
    pub fn sound_timer(&self) -> (r: u8)
        ensures
            r == self@.st,
    {
        self.st
    }

    /// How many return addresses the call stack holds.
    pub fn stack_depth(&self) -> (r: usize)
        ensures
            r == self@.stack.len(),
    {
        self.stack.len()
    }

    /// The pixel grid, for rendering backends.
    pub fn screen(&self) -> (r: &ScreenRAM)
        ensures
            r@ == self@.screen,
    {
        &self.screen
    }
}

impl CPU {
    /// Fetch, decode and execute one instruction against the machine and
    /// the input capability. The whole effect, the state token or error
    /// returned, and whether the key latch was consumed are all given by
    /// `step`, for some byte `rnd` that stands for what the random
    /// source returned; the key map and the exit flag never move.
    /// A failed cycle leaves the machine exactly as it was.
    pub fn cycle<It: Get>(&mut self, input: &mut It) -> (r: Result<CPUState, Chip8Error>)
        requires
            old(self).wf(),
            old(input).get_inv(),
        ensures
            final(self).wf(),
            final(input).get_inv(),
            final(input).keys() == old(input).keys(),
            final(input).esc() == old(input).esc(),
            exists|rnd: u8|
                cycle_post(
                    old(self)@,
                    final(self)@,
                    old(input).keys(),
                    old(input).latch(),
                    final(input).latch(),
                    r,
                    rnd,
                ),
    {
        let ghost pre = self@;
        let ghost keys0 = input.keys();
        let ghost latch0 = input.latch();
        let ghost mut grnd: u8 = 0u8;

        let w = match self.ram.load_u16(self.pc) {
            Ok(w) => w,
            Err(e) => {
                proof {
                    assert(cycle_post(pre, self@, keys0, latch0, input.latch(), Err(e), 0u8));
                }
                return Err(e);
            },
        };
        proof {
            assert(w == word_at(pre.mem, pre.pc as int));
        }
        let pc2: u16 = self.pc + 2;
        let fam = w.nibble_at(0);
        let x = w.nibble_at(1);
        let y = w.nibble_at(2);
        let n = w.nibble_at(3);
        let nnn: u16 = w % 0x1000;
        let kk: u8 = (w % 0x100) as u8;
        let xi = x as usize;
        let yi = y as usize;

        match fam {
            0x0 => {
                if nnn == 0x0E0 {
                    self.screen.clear();
                    self.pc = pc2;
                    proof {
                        assert(self@ =~= step(pre, keys0, latch0, grnd).post);
                    }
                } else if nnn == 0x0EE {
                    match self.stack.pop() {
                        Some(addr) => {
                            self.pc = addr;
                            proof {
                                assert(self@ =~= step(pre, keys0, latch0, grnd).post);
                            }
                        },
                        None => {
                            proof {
                                assert(cycle_post(
                                    pre,
                                    self@,
                                    keys0,
                                    latch0,
                                    input.latch(),
                                    Err(Chip8Error::StackUnderflow),
                                    grnd,
                                ));
                            }
                            return Err(Chip8Error::StackUnderflow);
                        },
                    }
                } else {
                    self.pc = pc2;
                    proof {
                        assert(self@ =~= step(pre, keys0, latch0, grnd).post);
                    }
                }
            },
            0x1 => {
                self.pc = nnn;
                proof {
                    assert(self@ =~= step(pre, keys0, latch0, grnd).post);
                }
            },
            0x2 => {
                self.stack.push(pc2);
                self.pc = nnn;
                proof {
                    assert(self@ =~= step(pre, keys0, latch0, grnd).post);
                }
            },
            0x3 => {
                self.pc = if self.v[xi] == kk {
                    pc2 + 2
                } else {
                    pc2
                };
                proof {
                    assert(self@ =~= step(pre, keys0, latch0, grnd).post);
                }
            },
            0x4 => {
                self.pc = if self.v[xi] != kk {
                    pc2 + 2
                } else {
                    pc2
                };
                proof {
                    assert(self@ =~= step(pre, keys0, latch0, grnd).post);
                }
            },
            0x5 => {
                self.pc = if self.v[xi] == self.v[yi] {
                    pc2 + 2
                } else {
                    pc2
                };
                proof {
                    assert(self@ =~= step(pre, keys0, latch0, grnd).post);
                }
            },
            0x6 => {
                self.v[xi] = kk;
                self.pc = pc2;
                proof {
                    assert(self@ =~= step(pre, keys0, latch0, grnd).post);
                }
            },
            0x7 => {
                let vx = self.v[xi];
                self.v[xi] = vx.wrapping_add(kk);
                self.pc = pc2;
                proof {
                    assert(vx.wrapping_add(kk) == add8(vx, kk));
                    assert(self@ =~= step(pre, keys0, latch0, grnd).post);
                }
            },
            0x8 => {
                let vx = self.v[xi];
                let vy = self.v[yi];
                match n {
                    0x0 => {
                        self.v[xi] = vy;
                    },
                    0x1 => {
                        self.v[xi] = vx | vy;
                    },
                    0x2 => {
                        self.v[xi] = vx & vy;
                    },
                    0x3 => {
                        self.v[xi] = vx ^ vy;
                    },
                    0x4 => {
                        let sum: u16 = vx as u16 + vy as u16;
                        self.v[15] = if sum > 0xFF {
                            1
                        } else {
                            0
                        };
                        self.v[xi] = (sum % 0x100) as u8;
                        proof {
                            assert((sum % 0x100) as u8 == add8(vx, vy));
                        }
                    },
                    0x5 => {
                        self.v[15] = if vx > vy {
                            1
                        } else {
                            0
                        };
                        self.v[xi] = vx.wrapping_sub(vy);
                        proof {
                            assert(vx.wrapping_sub(vy) == sub8(vx, vy));
                        }
                    },
                    0x6 => {
                        self.v[15] = vx & 1;
                        self.v[xi] = vx >> 1u8;
                    },
                    0x7 => {
                        self.v[15] = if vy > vx {
                            1
                        } else {
                            0
                        };
                        self.v[xi] = vy.wrapping_sub(vx);
                        proof {
                            assert(vy.wrapping_sub(vx) == sub8(vy, vx));
                        }
                    },
                    0xE => {
                        self.v[15] = vx >> 7u8;
                        self.v[xi] = vx << 1u8;
                    },
                    _ => {
                        proof {
                            assert(cycle_post(
                                pre,
                                self@,
                                keys0,
                                latch0,
                                input.latch(),
                                Err(Chip8Error::InvalidOpcode),
                                grnd,
                            ));
                        }
                        return Err(Chip8Error::InvalidOpcode);
                    },
                }
                self.pc = pc2;
                proof {
                    assert(self@ =~= step(pre, keys0, latch0, grnd).post);
                }
            },
            0x9 => {
                self.pc = if self.v[xi] != self.v[yi] {
                    pc2 + 2
                } else {
                    pc2
                };
                proof {
                    assert(self@ =~= step(pre, keys0, latch0, grnd).post);
                }
            },
            0xA => {
                self.i = nnn;
                self.pc = pc2;
                proof {
                    assert(self@ =~= step(pre, keys0, latch0, grnd).post);
                }
            },
            0xB => {
                self.pc = nnn + self.v[0] as u16;
                proof {
                    assert(self@ =~= step(pre, keys0, latch0, grnd).post);
                }
            },
            0xC => {
                let rv = random_byte();
                proof {
                    grnd = rv;
                }
                self.v[xi] = rv & kk;
                self.pc = pc2;
                proof {
                    assert(self@ =~= step(pre, keys0, latch0, grnd).post);
                }
            },
            0xD => {
                let n16: u16 = n as u16;
                if self.i > 0xFFF - n16 {
                    proof {
                        assert(cycle_post(
                            pre,
                            self@,
                            keys0,
                            latch0,
                            input.latch(),
                            Err(Chip8Error::IndexOverflow),
                            grnd,
                        ));
                    }
                    return Err(Chip8Error::IndexOverflow);
                }
                let mut sprite: Vec<u8> = Vec::new();
                let mut k: u16 = 0;
                while k < n16
                    invariant
                        self@ == pre,
                        self.wf(),
                        k <= n16,
                        n16 <= 15,
                        pre.i + n16 <= 0xFFF,
                        sprite@ == pre.mem.subrange(pre.i as int, pre.i as int + k as int),
                    decreases n16 - k,
                {
                    let b = match self.ram.load_u8(self.i + k) {
                        Ok(b) => b,
                        Err(e) => {
                            proof {
                                assert(false);
                            }
                            return Err(e);
                        },
                    };
                    sprite.push(b);
                    proof {
                        assert(sprite@ =~= pre.mem.subrange(
                            pre.i as int,
                            pre.i as int + (k + 1) as int,
                        ));
                    }
                    k = k + 1;
                }
                let vx = self.v[xi];
                let vy = self.v[yi];
                let collision = self.screen.draw(vx, vy, sprite.as_slice());
                self.v[15] = if collision {
                    1
                } else {
                    0
                };
                self.pc = pc2;
                proof {
                    assert(self@ =~= step(pre, keys0, latch0, grnd).post);
                }
            },
            0xE => {
                let vx = self.v[xi];
                if kk == 0x9E {
                    self.pc = if input.pressed_key(vx) {
                        pc2 + 2
                    } else {
                        pc2
                    };
                    proof {
                        assert(self@ =~= step(pre, keys0, latch0, grnd).post);
                    }
                } else if kk == 0xA1 {
                    self.pc = if !input.pressed_key(vx) {
                        pc2 + 2
                    } else {
                        pc2
                    };
                    proof {
                        assert(self@ =~= step(pre, keys0, latch0, grnd).post);
                    }
                } else {
                    proof {
                        assert(cycle_post(
                            pre,
                            self@,
                            keys0,
                            latch0,
                            input.latch(),
                            Err(Chip8Error::InvalidOpcode),
                            grnd,
                        ));
                    }
                    return Err(Chip8Error::InvalidOpcode);
                }
            },
            0xF => {
                match kk {
                    0x07 => {
                        self.v[xi] = self.dt;
                        self.pc = pc2;
                        proof {
                            assert(self@ =~= step(pre, keys0, latch0, grnd).post);
                        }
                    },
                    0x0A => {
                        match input.last_press() {
                            Some(key) => {
                                self.v[xi] = key;
                                self.pc = pc2;
                                proof {
                                    assert(self@ =~= step(pre, keys0, latch0, grnd).post);
                                }
                            },
                            None => {
                                proof {
                                    assert(cycle_post(
                                        pre,
                                        self@,
                                        keys0,
                                        latch0,
                                        input.latch(),
                                        Ok(CPUState::WaitForInput),
                                        grnd,
                                    ));
                                }
                                return Ok(CPUState::WaitForInput);
                            },
                        }
                    },
                    0x15 => {
                        self.dt = self.v[xi];
                        self.pc = pc2;
                        proof {
                            assert(self@ =~= step(pre, keys0, latch0, grnd).post);
                        }
                    },
                    0x18 => {
                        self.st = self.v[xi];
                        self.pc = pc2;
                        proof {
                            assert(self@ =~= step(pre, keys0, latch0, grnd).post);
                        }
                    },
                    0x1E => {
                        self.i = self.i.wrapping_add(self.v[xi] as u16);
                        self.pc = pc2;
                        proof {
                            assert(self@.i == add16(pre.i, pre.v[x as int] as u16));
                            assert(self@ =~= step(pre, keys0, latch0, grnd).post);
                        }
                    },
                    0x29 => {
                        let vx = self.v[xi];
                        if vx <= 0xF {
                            self.i = vx as u16 * 5;
                            self.pc = pc2;
                            proof {
                                assert(self@ =~= step(pre, keys0, latch0, grnd).post);
                            }
                        } else {
                            proof {
                                assert(cycle_post(
                                    pre,
                                    self@,
                                    keys0,
                                    latch0,
                                    input.latch(),
                                    Err(Chip8Error::InvalidDigit),
                                    grnd,
                                ));
                            }
                            return Err(Chip8Error::InvalidDigit);
                        }
                    },
                    0x33 => {
                        if self.i > 0xFFC {
                            proof {
                                assert(cycle_post(
                                    pre,
                                    self@,
                                    keys0,
                                    latch0,
                                    input.latch(),
                                    Err(Chip8Error::OutOfBounds),
                                    grnd,
                                ));
                            }
                            return Err(Chip8Error::OutOfBounds);
                        }
                        let vx = self.v[xi];
                        let _ = self.ram.store_u8(self.i, vx / 100 % 10);
                        let _ = self.ram.store_u8(self.i + 1, vx / 10 % 10);
                        let _ = self.ram.store_u8(self.i + 2, vx % 10);
                        self.pc = pc2;
                        proof {
                            assert(self@ =~= step(pre, keys0, latch0, grnd).post);
                        }
                    },
                    0x55 => {
                        let xu16: u16 = x as u16;
                        if self.i > 0xFFE - xu16 {
                            proof {
                                assert(cycle_post(
                                    pre,
                                    self@,
                                    keys0,
                                    latch0,
                                    input.latch(),
                                    Err(Chip8Error::OutOfBounds),
                                    grnd,
                                ));
                            }
                            return Err(Chip8Error::OutOfBounds);
                        }
                        let mut j: u16 = 0;
                        while j <= xu16
                            invariant
                                self.v@ == pre.v,
                                self.i == pre.i,
                                self.pc == pre.pc,
                                self.stack@ == pre.stack,
                                self.dt == pre.dt,
                                self.st == pre.st,
                                self.screen@ == pre.screen,
                                self.wf(),
                                j <= xu16 + 1,
                                xu16 <= 15,
                                pre.i + xu16 <= 0xFFE,
                                self.ram@ == store_regs(pre.mem, pre.v, pre.i as int, j as int),
                            decreases xu16 + 1 - j,
                        {
                            let _ = self.ram.store_u8(self.i + j, self.v[j as usize]);
                            proof {
                                assert(self.ram@ =~= store_regs(
                                    pre.mem,
                                    pre.v,
                                    pre.i as int,
                                    j as int + 1,
                                ));
                            }
                            j = j + 1;
                        }
                        self.pc = pc2;
                        proof {
                            assert(self@ =~= step(pre, keys0, latch0, grnd).post);
                        }
                    },
                    0x65 => {
                        let xu16: u16 = x as u16;
                        if self.i > 0xFFE - xu16 {
                            proof {
                                assert(cycle_post(
                                    pre,
                                    self@,
                                    keys0,
                                    latch0,
                                    input.latch(),
                                    Err(Chip8Error::OutOfBounds),
                                    grnd,
                                ));
                            }
                            return Err(Chip8Error::OutOfBounds);
                        }
                        let mut j: u16 = 0;
                        while j <= xu16
                            invariant
                                self.ram@ == pre.mem,
                                self.i == pre.i,
                                self.pc == pre.pc,
                                self.stack@ == pre.stack,
                                self.dt == pre.dt,
                                self.st == pre.st,
                                self.screen@ == pre.screen,
                                self.wf(),
                                j <= xu16 + 1,
                                xu16 <= 15,
                                pre.i + xu16 <= 0xFFE,
                                self.v@ == load_regs(pre.v, pre.mem, pre.i as int, j as int),
                            decreases xu16 + 1 - j,
                        {
                            let b = match self.ram.load_u8(self.i + j) {
                                Ok(b) => b,
                                Err(e) => {
                                    proof {
                                        assert(false);
                                    }
                                    return Err(e);
                                },
                            };
                            self.v[j as usize] = b;
                            proof {
                                assert(self.v@ =~= load_regs(
                                    pre.v,
                                    pre.mem,
                                    pre.i as int,
                                    j as int + 1,
                                ));
                            }
                            j = j + 1;
                        }
                        self.pc = pc2;
                        proof {
                            assert(self@ =~= step(pre, keys0, latch0, grnd).post);
                        }
                    },
                    _ => {
                        proof {
                            assert(cycle_post(
                                pre,
                                self@,
                                keys0,
                                latch0,
                                input.latch(),
                                Err(Chip8Error::InvalidOpcode),
                                grnd,
                            ));
                        }
                        return Err(Chip8Error::InvalidOpcode);
                    },
                }
            },
            _ => {
                // The family nibble is at most 0xF, so every word is
                // covered by the arms above.
                proof {
                    assert(op_family(w) <= 0xF);
                    assert(false);
                }
                return Err(Chip8Error::InvalidOpcode);
            },
        }
        proof {
            assert(cycle_post(
                pre,
                self@,
                keys0,
                latch0,
                input.latch(),
                Ok(CPUState::Running),
                grnd,
            ));
        }
        Ok(CPUState::Running)
    }
}

/// How one executed cycle relates the machine and the input latch before
/// and after the call, given the byte the random source returned.
pub open spec fn cycle_post(
    pre: CpuSnap,
    post: CpuSnap,
    keys: Seq<bool>,
    latch0: Option<u8>,
    latch1: Option<u8>,
    r: Result<CPUState, Chip8Error>,
    rnd: u8,
) -> bool {
    let s = step(pre, keys, latch0, rnd);
    &&& post == s.post
    &&& r == s.result
    &&& latch1 == (if s.take_latch {
        Option::<u8>::None
    } else {
        latch0
    })
}

/// The word the next cycle will fetch.
pub open spec fn fetched(pre: CpuSnap) -> u16 {
    word_at(pre.mem, pre.pc as int)
}

/// Whether the next fetch itself succeeds.
pub open spec fn fetch_ok(pre: CpuSnap) -> bool {
    pre.pc <= 0xFFE && pre.pc % 2 == 0
}

/// A step of a well-formed machine leaves it well-formed: the register
/// file, the memory and the screen keep their sizes.
pub proof fn lemma_step_preserves_wf(pre: CpuSnap, keys: Seq<bool>, latch: Option<u8>, rnd: u8)
    requires
        snap_wf(pre),
    ensures
        snap_wf(step(pre, keys, latch, rnd).post),
{
}

/// A failed step surfaces its error and leaves the whole machine, the
/// key latch included, exactly as it was.
pub proof fn lemma_error_preserves_state(pre: CpuSnap, keys: Seq<bool>, latch: Option<u8>, rnd: u8)
    ensures
        step(pre, keys, latch, rnd).result is Err ==> step(pre, keys, latch, rnd).post == pre
            && !step(pre, keys, latch, rnd).take_latch,
{
}

/// A wait-for-key instruction with no pending latch reports
/// WaitForInput, consumes nothing it could re-report, and leaves every
/// register, the program counter, and all other state unchanged, so the
/// identical instruction is re-presented on the next cycle.
pub proof fn lemma_wait_for_key_blocks(pre: CpuSnap, keys: Seq<bool>, rnd: u8)
    requires
        fetch_ok(pre),
        op_family(fetched(pre)) == 0xF,
        op_kk(fetched(pre)) == 0x0A,
    ensures
        step(pre, keys, None, rnd).result == Ok::<CPUState, Chip8Error>(CPUState::WaitForInput),
        step(pre, keys, None, rnd).post == pre,
{
}

/// Once a latch is available, a wait-for-key instruction consumes it,
/// stores exactly that key in the destination register, advances past
/// the instruction, and reports Running.
pub proof fn lemma_wait_for_key_receives(pre: CpuSnap, keys: Seq<bool>, k: u8, rnd: u8)
    requires
        fetch_ok(pre),
        op_family(fetched(pre)) == 0xF,
        op_kk(fetched(pre)) == 0x0A,
    ensures
        step(pre, keys, Some(k), rnd).result == Ok::<CPUState, Chip8Error>(CPUState::Running),
        step(pre, keys, Some(k), rnd).take_latch,
        step(pre, keys, Some(k), rnd).post == (CpuSnap {
            v: pre.v.update(op_x(fetched(pre)) as int, k),
            pc: (pre.pc + 2) as u16,
            ..pre
        }),
{
}

/// A return with an empty call stack fails StackUnderflow and leaves the
/// program counter, and everything else, unmodified.
pub proof fn lemma_return_underflow(pre: CpuSnap, keys: Seq<bool>, latch: Option<u8>, rnd: u8)
    requires
        fetch_ok(pre),
        fetched(pre) == 0x00EE,
        pre.stack.len() == 0,
    ensures
        step(pre, keys, latch, rnd).result == Err::<CPUState, Chip8Error>(
            Chip8Error::StackUnderflow,
        ),
        step(pre, keys, latch, rnd).post.pc == pre.pc,
        step(pre, keys, latch, rnd).post == pre,
{
    assert(op_family(0x00EEu16) == 0);
    assert(op_nnn(0x00EEu16) == 0x0EE);
}

/// A font lookup for a register value above 15 fails InvalidDigit and
/// leaves the index register, and everything else, unmodified.
pub proof fn lemma_font_lookup_invalid(pre: CpuSnap, keys: Seq<bool>, latch: Option<u8>, rnd: u8)
    requires
        fetch_ok(pre),
        op_family(fetched(pre)) == 0xF,
        op_kk(fetched(pre)) == 0x29,
        pre.v[op_x(fetched(pre)) as int] > 0xF,
    ensures
        step(pre, keys, latch, rnd).result == Err::<CPUState, Chip8Error>(Chip8Error::InvalidDigit),
        step(pre, keys, latch, rnd).post.i == pre.i,
        step(pre, keys, latch, rnd).post == pre,
{
}

} // verus!
