//! The machine: its state, the mathematical view of that state, the
//! per-instruction semantics as spec functions, and the verified step.

use vstd::prelude::*;

use crate::decode::{Instr, spec_decode, instr_wf};

verus! {

/// Number of bytes of machine memory.
pub const MEM_SIZE: usize = 0x1000;

/// Number of general-purpose registers.
pub const NUM_REGS: usize = 16;

/// Depth of the call stack.
pub const STACK_SIZE: usize = 16;

/// Number of pixels in the frame buffer: 64 columns by 32 rows, row-major.
pub const SCREEN_SIZE: usize = 2048;

/// Address at which a program image is placed; the entry point.
pub const PROGRAM_START: usize = 0x200;

/// A condition that makes a run unrecoverable: the loaded program or a prior
/// instruction has corrupted the machine's control flow or addressing.
#[derive(Clone, Copy, Debug, PartialEq, Eq, Structural)]
pub enum ExecutionFault {
    /// The program counter is odd before a fetch.
    UnalignedPc,
    /// A return was executed with an empty call stack.
    StackUnderflow,
    /// A call was executed with a full call stack.
    StackOverflow,
    /// The instruction word matches no pattern of the instruction set.
    UnknownOpcode,
    /// A fetch or an indexed access reaches past the end of memory.
    MemoryOutOfBounds,
}

/// Why a program image was not loaded.
#[derive(Clone, Copy, Debug, PartialEq, Eq, Structural)]
pub enum LoadError {
    /// The image does not fit between the entry point and the end of memory.
    TooLarge,
    /// The image could not be read at all.  The machine itself never reads
    /// an image source; a caller that does maps its failure to this.
    Unreadable,
}

/// The mathematical view of a machine: every component as a sequence or a
/// plain number.
#[verifier::ext_equal]
pub ghost struct ChipView {
    /// The frame buffer, row-major, `row * 64 + col`.
    pub screen: Seq<bool>,
    /// The 4096 bytes of memory.
    pub memory: Seq<u8>,
    /// The 16 general-purpose registers.
    pub v: Seq<u8>,
    /// The index register.
    pub i: u16,
    /// The delay timer, decremented by an external driver.
    pub delay_timer: u16,
    /// The sound timer, decremented by an external driver.
    pub sound_timer: u16,
    /// The return-address stack.
    pub stack: Seq<u16>,
    /// The number of return addresses on the stack.
    pub sp: int,
    /// The program counter.
    pub pc: u16,
}

impl ChipView {
    /// Dimensions every reachable machine state keeps.
    pub open spec fn wf(self) -> bool {
        &&& self.screen.len() == SCREEN_SIZE
        &&& self.memory.len() == MEM_SIZE
        &&& self.v.len() == NUM_REGS
        &&& self.stack.len() == STACK_SIZE
        &&& 0 <= self.sp <= STACK_SIZE
    }

    /// The state of a machine as constructed: every component zero.
    pub open spec fn zeroed() -> ChipView {
        ChipView {
            screen: Seq::new(SCREEN_SIZE as nat, |p: int| false),
            memory: Seq::new(MEM_SIZE as nat, |a: int| 0u8),
            v: Seq::new(NUM_REGS as nat, |x: int| 0u8),
            i: 0,
            delay_timer: 0,
            sound_timer: 0,
            stack: Seq::new(STACK_SIZE as nat, |d: int| 0u16),
            sp: 0,
            pc: 0,
        }
    }
}

/// Addition of two register values, wrapping at 8 bits.
pub open spec fn wrap_add_u8(a: u8, b: u8) -> u8 {
    (((a + b) % 256) as u8)
}

/// Subtraction of two register values, wrapping at 8 bits.
pub open spec fn wrap_sub_u8(a: u8, b: u8) -> u8 {
    (((a - b + 256) % 256) as u8)
}

/// Bit `c` of a sprite row, most significant bit first.
pub open spec fn sprite_bit(byte: u8, c: int) -> bool
    recommends
        0 <= c < 8,
{
    byte & (1u8 << ((7 - c) as u8)) != 0
}

/// The frame buffer after xor-ing the first `c` bits of one sprite row into
/// row `row` of the screen, starting at column `vx` and wrapping at the
/// right edge.  `row` is already reduced modulo the screen height.
pub open spec fn spec_draw_bits(screen: Seq<bool>, byte: u8, vx: int, row: int, c: int) -> Seq<
    bool,
>
    decreases c,
{
    if c <= 0 {
        screen
    } else {
        let s1 = spec_draw_bits(screen, byte, vx, row, c - 1);
        let idx = row * 64 + ((vx + c - 1) % 64);
        s1.update(idx, s1[idx] ^ sprite_bit(byte, c - 1))
    }
}

/// The frame buffer after drawing the first `r` rows of an `n`-row sprite
/// read from `memory` at index `i`, at screen position `(vx, vy)`, with both
/// coordinates wrapping around the screen edges.
pub open spec fn spec_draw_rows(
    screen: Seq<bool>,
    memory: Seq<u8>,
    i: int,
    vx: int,
    vy: int,
    r: int,
) -> Seq<bool>
    decreases r,
{
    if r <= 0 {
        screen
    } else {
        let s1 = spec_draw_rows(screen, memory, i, vx, vy, r - 1);
        spec_draw_bits(s1, memory[i + r - 1], vx, (vy + r - 1) % 32, 8)
    }
}

/// Memory after copying registers `V[0]` up to `V[k-1]` to addresses
/// `i` up to `i + k - 1`.
pub open spec fn spec_store_regs(memory: Seq<u8>, v: Seq<u8>, i: int, k: int) -> Seq<u8>
    decreases k,
{
    if k <= 0 {
        memory
    } else {
        spec_store_regs(memory, v, i, k - 1).update(i + k - 1, v[k - 1])
    }
}

/// Registers after copying memory at addresses `i` up to `i + k - 1` into
/// `V[0]` up to `V[k-1]`.
pub open spec fn spec_load_regs(v: Seq<u8>, memory: Seq<u8>, i: int, k: int) -> Seq<u8>
    decreases k,
{
    if k <= 0 {
        v
    } else {
        spec_load_regs(v, memory, i, k - 1).update(k - 1, memory[i + k - 1])
    }
}

/// The state after executing one decoded instruction on `s`, whose program
/// counter has already been advanced past the instruction, or the fault the
/// instruction raises.  A faulting instruction changes nothing: every index
/// is validated before any component is touched.
pub open spec fn spec_exec(s: ChipView, ins: Instr) -> Result<ChipView, ExecutionFault> {
    match ins {
        Instr::Cls => Ok(ChipView { screen: Seq::new(SCREEN_SIZE as nat, |p: int| false), ..s }),
        Instr::Ret => if s.sp <= 0 {
            Err(ExecutionFault::StackUnderflow)
        } else {
            Ok(ChipView { sp: s.sp - 1, pc: s.stack[s.sp - 1], ..s })
        },
        Instr::Jp { addr } => Ok(ChipView { pc: addr, ..s }),
        Instr::Call { addr } => if s.sp >= STACK_SIZE {
            Err(ExecutionFault::StackOverflow)
        } else {
            Ok(ChipView { stack: s.stack.update(s.sp, s.pc), sp: s.sp + 1, pc: addr, ..s })
        },
        Instr::SeByte { x, kk } => if s.v[x as int] == kk {
            Ok(ChipView { pc: ((s.pc + 2) as u16), ..s })
        } else {
            Ok(s)
        },
        Instr::SneByte { x, kk } => if s.v[x as int] != kk {
            Ok(ChipView { pc: ((s.pc + 2) as u16), ..s })
        } else {
            Ok(s)
        },
        Instr::SeReg { x, y } => if s.v[x as int] == s.v[y as int] {
            Ok(ChipView { pc: ((s.pc + 2) as u16), ..s })
        } else {
            Ok(s)
        },
        Instr::LdByte { x, kk } => Ok(ChipView { v: s.v.update(x as int, kk), ..s }),
        Instr::AddByte { x, kk } => Ok(
            ChipView { v: s.v.update(x as int, wrap_add_u8(s.v[x as int], kk)), ..s },
        ),
        Instr::LdReg { x, y } => Ok(ChipView { v: s.v.update(x as int, s.v[y as int]), ..s }),
        Instr::Or { x, y } => Ok(
            ChipView { v: s.v.update(x as int, s.v[x as int] | s.v[y as int]), ..s },
        ),
        Instr::And { x, y } => Ok(
            ChipView { v: s.v.update(x as int, s.v[x as int] & s.v[y as int]), ..s },
        ),
        Instr::Xor { x, y } => Ok(
            ChipView { v: s.v.update(x as int, s.v[x as int] ^ s.v[y as int]), ..s },
        ),
        Instr::AddReg { x, y } => {
            let a = s.v[x as int];
            let b = s.v[y as int];
            let flag: u8 = if a + b > 255 {
                1
            } else {
                0
            };
            Ok(ChipView { v: s.v.update(x as int, wrap_add_u8(a, b)).update(0xF, flag), ..s })
        },
        Instr::Sub { x, y } => {
            let a = s.v[x as int];
            let b = s.v[y as int];
            let flag: u8 = if a >= b {
                1
            } else {
                0
            };
            Ok(ChipView { v: s.v.update(x as int, wrap_sub_u8(a, b)).update(0xF, flag), ..s })
        },
        Instr::Shr { x, y } => {
            let b = s.v[y as int];
            Ok(ChipView { v: s.v.update(x as int, b >> 1).update(0xF, b & 1), ..s })
        },
        Instr::Subn { x, y } => {
            let a = s.v[x as int];
            let b = s.v[y as int];
            let flag: u8 = if b >= a {
                1
            } else {
                0
            };
            Ok(ChipView { v: s.v.update(x as int, wrap_sub_u8(b, a)).update(0xF, flag), ..s })
        },
        Instr::Shl { x, y } => {
            let b = s.v[y as int];
            Ok(ChipView { v: s.v.update(x as int, b << 1).update(0xF, (b >> 7) & 1), ..s })
        },
        Instr::SneReg { x, y } => if s.v[x as int] != s.v[y as int] {
            Ok(ChipView { pc: ((s.pc + 2) as u16), ..s })
        } else {
            Ok(s)
        },
        Instr::LdI { addr } => Ok(ChipView { i: addr, ..s }),
        Instr::Drw { x, y, n } => if s.i + n > MEM_SIZE {
            Err(ExecutionFault::MemoryOutOfBounds)
        } else {
            Ok(
                ChipView {
                    screen: spec_draw_rows(
                        s.screen,
                        s.memory,
                        s.i as int,
                        s.v[x as int] as int,
                        s.v[y as int] as int,
                        n as int,
                    ),
                    ..s
                },
            )
        },
        Instr::AddI { x } => Ok(
            ChipView { i: (((s.i + s.v[x as int]) % 0x10000) as u16), ..s },
        ),
        Instr::Bcd { x } => if s.i + 3 > MEM_SIZE {
            Err(ExecutionFault::MemoryOutOfBounds)
        } else {
            let val = s.v[x as int];
            Ok(
                ChipView {
                    memory: s.memory.update(s.i as int, ((val / 100) as u8)).update(
                        s.i as int + 1,
                        (((val % 100) / 10) as u8),
                    ).update(s.i as int + 2, ((val % 10) as u8)),
                    ..s
                },
            )
        },
        Instr::StoreRegs { x } => if s.i + x + 1 > MEM_SIZE {
            Err(ExecutionFault::MemoryOutOfBounds)
        } else {
            Ok(ChipView { memory: spec_store_regs(s.memory, s.v, s.i as int, x as int + 1), ..s })
        },
        Instr::LoadRegs { x } => if s.i + x + 1 > MEM_SIZE {
            Err(ExecutionFault::MemoryOutOfBounds)
        } else {
            Ok(ChipView { v: spec_load_regs(s.v, s.memory, s.i as int, x as int + 1), ..s })
        },
    }
}

/// The big-endian 16-bit instruction word at the program counter.
pub open spec fn spec_fetch(s: ChipView) -> u16 {
    ((s.memory[s.pc as int] as u16) << 8) | (s.memory[s.pc as int + 1] as u16)
}

/// The state after one whole step on `s` — fetch, decode, execute — or the
/// fault that stops it.  The program counter is advanced past the fetched
/// instruction before execution, so jumps and calls overwrite it.  A
/// faulting step leaves the state exactly as it was.
pub open spec fn spec_step(s: ChipView) -> Result<ChipView, ExecutionFault> {
    if s.pc % 2 != 0 {
        Err(ExecutionFault::UnalignedPc)
    } else if s.pc + 1 >= MEM_SIZE {
        Err(ExecutionFault::MemoryOutOfBounds)
    } else {
        match spec_decode(spec_fetch(s)) {
            None => Err(ExecutionFault::UnknownOpcode),
            Some(ins) => spec_exec(ChipView { pc: ((s.pc + 2) as u16), ..s }, ins),
        }
    }
}

/// The state after a reset: registers, timers, stack and stack pointer
/// zeroed, the program counter at the entry point; memory and frame buffer
/// kept.
pub open spec fn spec_reset(s: ChipView) -> ChipView {
    ChipView {
        v: Seq::new(NUM_REGS as nat, |x: int| 0u8),
        i: 0,
        delay_timer: 0,
        sound_timer: 0,
        stack: Seq::new(STACK_SIZE as nat, |d: int| 0u16),
        sp: 0,
        pc: 0x200,
        ..s
    }
}

/// Memory after loading a program image: zero everywhere except the image
/// itself, copied verbatim starting at the entry point.
pub open spec fn spec_loaded_memory(image: Seq<u8>) -> Seq<u8> {
    Seq::new(
        MEM_SIZE as nat,
        |a: int|
            if PROGRAM_START <= a < PROGRAM_START + image.len() {
                image[a - PROGRAM_START]
            } else {
                0u8
            },
    )
}

/// The machine: all state of one emulated program run.
pub struct Chip {
    /// The frame buffer, row-major, `row * 64 + col`; read by an external
    /// renderer.
    pub screen: Vec<bool>,
    memory: Vec<u8>,
    v: Vec<u8>,
    i: u16,
    delay_timer: u16,
    sound_timer: u16,
    stack: Vec<u16>,
    sp: usize,
    pc: u16,
}

impl View for Chip {
    type V = ChipView;

    closed spec fn view(&self) -> ChipView {
        ChipView {
            screen: self.screen@,
            memory: self.memory@,
            v: self.v@,
            i: self.i,
            delay_timer: self.delay_timer,
            sound_timer: self.sound_timer,
            stack: self.stack@,
            sp: self.sp as int,
            pc: self.pc,
        }
    }
}

/// A vector of `n` copies of `val`.
fn filled<T: Copy>(n: usize, val: T) -> (r: Vec<T>)
    ensures
        r@ == Seq::new(n as nat, |k: int| val),
{
    let mut r: Vec<T> = Vec::new();
    let mut j: usize = 0;
    while j < n
        invariant
            j <= n,
            r@ == Seq::new(j as nat, |k: int| val),
        decreases n - j,
    {
        r.push(val);
        j = j + 1;
        proof {
            assert(r@ =~= Seq::new(j as nat, |k: int| val));
        }
    }
    r
}

impl Chip {
    /// Dimensions the machine keeps from construction on.
    pub open spec fn wf(&self) -> bool {
        self@.wf()
    }

    /// A machine with every component zero.
    pub fn new() -> (r: Chip)
        ensures
            r.wf(),
            r@ == ChipView::zeroed(),
    {
        let r = Chip {
            screen: filled(SCREEN_SIZE, false),
            memory: filled(MEM_SIZE, 0u8),
            v: filled(NUM_REGS, 0u8),
            i: 0,
            delay_timer: 0,
            sound_timer: 0,
            stack: filled(STACK_SIZE, 0u16),
            sp: 0,
            pc: 0,
        };
        proof {
            assert(r@ =~= ChipView::zeroed());
        }
        r
    }

    /// Zero the registers, timers, stack and stack pointer and put the
    /// program counter at the entry point; memory and frame buffer stay.
    pub fn reset(&mut self)
        requires
            old(self).wf(),
        ensures
            final(self).wf(),
            final(self)@ == spec_reset(old(self)@),
    {
        self.v = filled(NUM_REGS, 0u8);
        self.i = 0;
        self.delay_timer = 0;
        self.sound_timer = 0;
        self.stack = filled(STACK_SIZE, 0u16);
        self.sp = 0;
        self.pc = 0x200;
        proof {
            assert(self@ =~= spec_reset(old(self)@));
        }
    }

    /// Load a program image: memory is cleared and the image copied verbatim
    /// starting at the entry point.  An image longer than the space between
    /// the entry point and the end of memory is rejected whole.
    pub fn load(&mut self, image: &Vec<u8>) -> (r: Result<(), LoadError>)
        requires
            old(self).wf(),
        ensures
            final(self).wf(),
            image@.len() <= MEM_SIZE - PROGRAM_START ==> r == Ok::<(), LoadError>(())
                && final(self)@ == (ChipView { memory: spec_loaded_memory(image@), ..old(self)@ }),
            image@.len() > MEM_SIZE - PROGRAM_START ==> r == Err::<(), LoadError>(
                LoadError::TooLarge,
            ) && final(self)@ == old(self)@,
    {
        if image.len() > MEM_SIZE - PROGRAM_START {
            return Err(LoadError::TooLarge);
        }
        self.memory = filled(MEM_SIZE, 0u8);
        let mut j: usize = 0;
        while j < image.len()
            invariant
                j <= image@.len(),
                image@.len() <= MEM_SIZE - PROGRAM_START,
                self.memory@.len() == MEM_SIZE,
                forall|a: int|
                    0 <= a < MEM_SIZE ==> self.memory@[a] == (if PROGRAM_START <= a
                        < PROGRAM_START + j {
                        image@[a - PROGRAM_START]
                    } else {
                        0u8
                    }),
                self.screen == old(self).screen,
                self.v == old(self).v,
                self.i == old(self).i,
                self.delay_timer == old(self).delay_timer,
                self.sound_timer == old(self).sound_timer,
                self.stack == old(self).stack,
                self.sp == old(self).sp,
                self.pc == old(self).pc,
            decreases image@.len() - j,
        {
            self.memory[PROGRAM_START + j] = image[j];
            j = j + 1;
        }
        proof {
            assert(self.memory@ =~= spec_loaded_memory(image@));
            assert(self@ =~= (ChipView { memory: spec_loaded_memory(image@), ..old(self)@ }));
        }
        Ok(())
    }

    /// The program counter.
    pub fn pc(&self) -> (r: u16)
        ensures
            r == self@.pc,
    {
        self.pc
    }

    /// The index register.
    pub fn index_reg(&self) -> (r: u16)
        ensures
            r == self@.i,
    {
        self.i
    }

    /// The number of return addresses on the call stack.
    pub fn sp(&self) -> (r: usize)
        ensures
            r == self@.sp,
    {
        self.sp
    }

    /// General-purpose register `x`.
    pub fn reg(&self, x: usize) -> (r: u8)
        requires
            self.wf(),
            x < NUM_REGS,
        ensures
            r == self@.v[x as int],
    {
        self.v[x]
    }

    /// The byte of memory at `addr`.
    pub fn mem_at(&self, addr: usize) -> (r: u8)
        requires
            self.wf(),
            addr < MEM_SIZE,
        ensures
            r == self@.memory[addr as int],
    {
        self.memory[addr]
    }

    /// Execute one already-decoded instruction.  The program counter of
    /// `self` has already been advanced past the instruction word.  Every
    /// index is validated before anything is touched, so a faulting
    /// instruction changes nothing.
    fn exec_instr(&mut self, ins: Instr) -> (r: Result<(), ExecutionFault>)
        requires
            old(self).wf(),
            instr_wf(ins),
            old(self)@.pc + 2 < 0x10000,
        ensures
            final(self).wf(),
            (match spec_exec(old(self)@, ins) {
                Ok(s2) => r == Ok::<(), ExecutionFault>(()) && final(self)@ == s2,
                Err(f) => r == Err::<(), ExecutionFault>(f) && final(self)@ == old(self)@,
            }),
    {
        match ins {
            Instr::Cls => {
                self.screen = filled(SCREEN_SIZE, false);
                proof {
                    let s2 = spec_exec(old(self)@, ins)->Ok_0;
                    assert(self@ =~= s2);
                }
                Ok(())
            },
            Instr::Ret => {
                if self.sp == 0 {
                    return Err(ExecutionFault::StackUnderflow);
                }
                self.sp = self.sp - 1;
                self.pc = self.stack[self.sp];
                proof {
                    assert(self@ =~= spec_exec(old(self)@, ins)->Ok_0);
                }
                Ok(())
            },
            Instr::Jp { addr } => {
                self.pc = addr;
                proof {
                    assert(self@ =~= spec_exec(old(self)@, ins)->Ok_0);
                }
                Ok(())
            },
            Instr::Call { addr } => {
                if self.sp >= STACK_SIZE {
                    return Err(ExecutionFault::StackOverflow);
                }
                self.stack[self.sp] = self.pc;
                self.sp = self.sp + 1;
                self.pc = addr;
                proof {
                    assert(self@ =~= spec_exec(old(self)@, ins)->Ok_0);
                }
                Ok(())
            },
            Instr::SeByte { x, kk } => {
                if self.v[x] == kk {
                    self.pc = self.pc + 2;
                }
                proof {
                    assert(self@ =~= spec_exec(old(self)@, ins)->Ok_0);
                }
                Ok(())
            },
            Instr::SneByte { x, kk } => {
                if self.v[x] != kk {
                    self.pc = self.pc + 2;
                }
                proof {
                    assert(self@ =~= spec_exec(old(self)@, ins)->Ok_0);
                }
                Ok(())
            },
            Instr::SeReg { x, y } => {
                if self.v[x] == self.v[y] {
                    self.pc = self.pc + 2;
                }
                proof {
                    assert(self@ =~= spec_exec(old(self)@, ins)->Ok_0);
                }
                Ok(())
            },
            Instr::LdByte { x, kk } => {
                self.v[x] = kk;
                proof {
                    assert(self@ =~= spec_exec(old(self)@, ins)->Ok_0);
                }
                Ok(())
            },
            Instr::AddByte { x, kk } => {
                let sum: u16 = self.v[x] as u16 + kk as u16;
                self.v[x] = (sum % 256) as u8;
                proof {
                    assert(self@ =~= spec_exec(old(self)@, ins)->Ok_0);
                }
                Ok(())
            },
            Instr::LdReg { x, y } => {
                self.v[x] = self.v[y];
                proof {
                    assert(self@ =~= spec_exec(old(self)@, ins)->Ok_0);
                }
                Ok(())
            },
            Instr::Or { x, y } => {
                self.v[x] = self.v[x] | self.v[y];
                proof {
                    assert(self@ =~= spec_exec(old(self)@, ins)->Ok_0);
                }
                Ok(())
            },
            Instr::And { x, y } => {
                self.v[x] = self.v[x] & self.v[y];
                proof {
                    assert(self@ =~= spec_exec(old(self)@, ins)->Ok_0);
                }
                Ok(())
            },
            Instr::Xor { x, y } => {
                self.v[x] = self.v[x] ^ self.v[y];
                proof {
                    assert(self@ =~= spec_exec(old(self)@, ins)->Ok_0);
                }
                Ok(())
            },
            Instr::AddReg { x, y } => {
                let sum: u16 = self.v[x] as u16 + self.v[y] as u16;
                self.v[x] = (sum % 256) as u8;
                self.v[0xF] = if sum > 255 {
                    1
                } else {
                    0
                };
                proof {
                    assert(self@ =~= spec_exec(old(self)@, ins)->Ok_0);
                }
                Ok(())
            },
            Instr::Sub { x, y } => {
                let flag: u8 = if self.v[x] >= self.v[y] {
                    1
                } else {
                    0
                };
                let diff: u16 = self.v[x] as u16 + 256 - self.v[y] as u16;
                self.v[x] = (diff % 256) as u8;
                self.v[0xF] = flag;
                proof {
                    assert(self@ =~= spec_exec(old(self)@, ins)->Ok_0);
                }
                Ok(())
            },
            Instr::Shr { x, y } => {
                let carry = self.v[y] & 1;
                self.v[x] = self.v[y] >> 1u8;
                self.v[0xF] = carry;
                proof {
                    assert(self@ =~= spec_exec(old(self)@, ins)->Ok_0);
                }
                Ok(())
            },
            Instr::Subn { x, y } => {
                let flag: u8 = if self.v[y] >= self.v[x] {
                    1
                } else {
                    0
                };
                let diff: u16 = self.v[y] as u16 + 256 - self.v[x] as u16;
                self.v[x] = (diff % 256) as u8;
                self.v[0xF] = flag;
                proof {
                    assert(self@ =~= spec_exec(old(self)@, ins)->Ok_0);
                }
                Ok(())
            },
            Instr::Shl { x, y } => {
                let carry = (self.v[y] >> 7u8) & 1;
                self.v[x] = self.v[y] << 1u8;
                self.v[0xF] = carry;
                proof {
                    assert(self@ =~= spec_exec(old(self)@, ins)->Ok_0);
                }
                Ok(())
            },
            Instr::SneReg { x, y } => {
                if self.v[x] != self.v[y] {
                    self.pc = self.pc + 2;
                }
                proof {
                    assert(self@ =~= spec_exec(old(self)@, ins)->Ok_0);
                }
                Ok(())
            },
            Instr::LdI { addr } => {
                self.i = addr;
                proof {
                    assert(self@ =~= spec_exec(old(self)@, ins)->Ok_0);
                }
                Ok(())
            },
            Instr::Drw { x, y, n } => {
                let iu = self.i as usize;
                if iu + n > MEM_SIZE {
                    return Err(ExecutionFault::MemoryOutOfBounds);
                }
                let vx = self.v[x] as usize;
                let vy = self.v[y] as usize;
                let mut r: usize = 0;
                while r < n
                    invariant
                        r <= n,
                        n < 16,
                        iu + n <= MEM_SIZE,
                        iu == old(self)@.i,
                        vx == old(self)@.v[x as int],
                        vy == old(self)@.v[y as int],
                        x < 16,
                        y < 16,
                        old(self).wf(),
                        self.memory == old(self).memory,
                        self.v == old(self).v,
                        self.i == old(self).i,
                        self.delay_timer == old(self).delay_timer,
                        self.sound_timer == old(self).sound_timer,
                        self.stack == old(self).stack,
                        self.sp == old(self).sp,
                        self.pc == old(self).pc,
                        self.screen@.len() == SCREEN_SIZE,
                        self.screen@ == spec_draw_rows(
                            old(self)@.screen,
                            old(self)@.memory,
                            iu as int,
                            vx as int,
                            vy as int,
                            r as int,
                        ),
                    decreases n - r,
                {
                    let byte = self.memory[iu + r];
                    let rowc = (vy + r) % 32;
                    let ghost screen_row_start = self.screen@;
                    let mut c: usize = 0;
                    while c < 8
                        invariant
                            c <= 8,
                            rowc == (vy + r) % 32,
                            rowc < 32,
                            vx == old(self)@.v[x as int],
                            self.memory == old(self).memory,
                            self.v == old(self).v,
                            self.i == old(self).i,
                            self.delay_timer == old(self).delay_timer,
                            self.sound_timer == old(self).sound_timer,
                            self.stack == old(self).stack,
                            self.sp == old(self).sp,
                            self.pc == old(self).pc,
                            self.screen@.len() == SCREEN_SIZE,
                            self.screen@ == spec_draw_bits(
                                screen_row_start,
                                byte,
                                vx as int,
                                rowc as int,
                                c as int,
                            ),
                        decreases 8 - c,
                    {
                        let sh: u8 = (7 - c) as u8;
                        let bit = (byte & (1u8 << sh)) != 0;
                        let col = (vx + c) % 64;
                        let idx = rowc * 64 + col;
                        let cur = self.screen[idx];
                        self.screen[idx] = cur ^ bit;
                        c = c + 1;
                    }
                    r = r + 1;
                }
                proof {
                    assert(self@ =~= spec_exec(old(self)@, ins)->Ok_0);
                }
                Ok(())
            },
            Instr::AddI { x } => {
                let sum: u32 = self.i as u32 + self.v[x] as u32;
                self.i = (sum % 0x10000) as u16;
                proof {
                    assert(self@ =~= spec_exec(old(self)@, ins)->Ok_0);
                }
                Ok(())
            },
            Instr::Bcd { x } => {
                let iu = self.i as usize;
                if iu + 3 > MEM_SIZE {
                    return Err(ExecutionFault::MemoryOutOfBounds);
                }
                let val = self.v[x];
                self.memory[iu] = val / 100;
                self.memory[iu + 1] = (val % 100) / 10;
                self.memory[iu + 2] = val % 10;
                proof {
                    assert(self@ =~= spec_exec(old(self)@, ins)->Ok_0);
                }
                Ok(())
            },
            Instr::StoreRegs { x } => {
                let iu = self.i as usize;
                if iu + x + 1 > MEM_SIZE {
                    return Err(ExecutionFault::MemoryOutOfBounds);
                }
                let mut k: usize = 0;
                while k < x + 1
                    invariant
                        k <= x + 1,
                        x < 16,
                        iu + x + 1 <= MEM_SIZE,
                        iu == old(self)@.i,
                        old(self).wf(),
                        self.screen == old(self).screen,
                        self.v == old(self).v,
                        self.i == old(self).i,
                        self.delay_timer == old(self).delay_timer,
                        self.sound_timer == old(self).sound_timer,
                        self.stack == old(self).stack,
                        self.sp == old(self).sp,
                        self.pc == old(self).pc,
                        self.memory@.len() == MEM_SIZE,
                        self.memory@ == spec_store_regs(
                            old(self)@.memory,
                            old(self)@.v,
                            iu as int,
                            k as int,
                        ),
                    decreases x + 1 - k,
                {
                    self.memory[iu + k] = self.v[k];
                    k = k + 1;
                }
                proof {
                    assert(self@ =~= spec_exec(old(self)@, ins)->Ok_0);
                }
                Ok(())
            },
            Instr::LoadRegs { x } => {
                let iu = self.i as usize;
                if iu + x + 1 > MEM_SIZE {
                    return Err(ExecutionFault::MemoryOutOfBounds);
                }
                let mut k: usize = 0;
                while k < x + 1
                    invariant
                        k <= x + 1,
                        x < 16,
                        iu + x + 1 <= MEM_SIZE,
                        iu == old(self)@.i,
                        old(self).wf(),
                        self.screen == old(self).screen,
                        self.memory == old(self).memory,
                        self.i == old(self).i,
                        self.delay_timer == old(self).delay_timer,
                        self.sound_timer == old(self).sound_timer,
                        self.stack == old(self).stack,
                        self.sp == old(self).sp,
                        self.pc == old(self).pc,
                        self.v@.len() == NUM_REGS,
                        self.v@ == spec_load_regs(
                            old(self)@.v,
                            old(self)@.memory,
                            iu as int,
                            k as int,
                        ),
                    decreases x + 1 - k,
                {
                    self.v[k] = self.memory[iu + k];
                    k = k + 1;
                }
                proof {
                    assert(self@ =~= spec_exec(old(self)@, ins)->Ok_0);
                }
                Ok(())
            },
        }
    }

    /// Advance the machine by exactly one instruction: fetch the big-endian
    /// instruction word at the program counter, advance the counter past it,
    /// decode, and execute.  A step that faults returns the fault and leaves
    /// the state exactly as it was.
    pub fn tick(&mut self) -> (r: Result<(), ExecutionFault>)
        requires
            old(self).wf(),
        ensures
            final(self).wf(),
            (match spec_step(old(self)@) {
                Ok(s2) => r == Ok::<(), ExecutionFault>(()) && final(self)@ == s2,
                Err(f) => r == Err::<(), ExecutionFault>(f) && final(self)@ == old(self)@,
            }),
    {
        if self.pc % 2 != 0 {
            return Err(ExecutionFault::UnalignedPc);
        }
        let pcu = self.pc as usize;
        if pcu + 1 >= MEM_SIZE {
            return Err(ExecutionFault::MemoryOutOfBounds);
        }
        let hi = self.memory[pcu];
        let lo = self.memory[pcu + 1];
        let inst: u16 = ((hi as u16) << 8) | (lo as u16);
        let ins = match crate::decode::decode(inst) {
            None => {
                return Err(ExecutionFault::UnknownOpcode);
            },
            Some(ins0) => ins0,
        };
        self.pc = self.pc + 2;
        proof {
            assert(inst == spec_fetch(old(self)@));
            assert(self@ =~= (ChipView { pc: ((old(self)@.pc + 2) as u16), ..old(self)@ }));
        }
        let stepped = self.exec_instr(ins);
        match stepped {
            Ok(()) => Ok(()),
            Err(f) => {
                self.pc = self.pc - 2;
                proof {
                    assert(self@ =~= old(self)@);
                }
                Err(f)
            },
        }
    }
}

} // verus!
