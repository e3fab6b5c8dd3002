//! The interpreter: registers, program counter and the fetch/decode/execute
//! cycle over memory, stack, timers and display.
use vstd::prelude::*;
use rand::Rng;
use crate::decoder::{decode, decoded, lemma_decoded_operands_in_range, Instruction};
use crate::error::C8Err;
use crate::keypad::{first_held, held, lowest_held};
use crate::mem::{
    accessible, block_accessible, block_fault, font, spliced, Memory, FONT_START, GLYPH_SIZE,
    MEMORY_SIZE, PROGRAM_START,
};
use crate::screen::{collides, drawn, Screen, CELLS};
use crate::stack::{Stack, MAX};
use crate::timer::{ticked, Timer, TimerState};

verus! {

/// Index of the flag register VF.
pub const FLAG: usize = 15;

/// The whole state of the machine.
#[verifier::ext_equal]
pub struct Machine {
    pub pc: u16,
    pub i: u16,
    /// V0 to VF.
    pub v: Seq<u8>,
    /// Return addresses, bottom to top.
    pub stack: Seq<u16>,
    pub memory: Seq<u8>,
    pub screen: Seq<bool>,
    pub delay: TimerState,
    pub sound: TimerState,
}

/// `m` with register `x` set to `val`.
pub open spec fn with_reg(m: Machine, x: int, val: u8) -> Machine {
    Machine { v: m.v.update(x, val), ..m }
}

/// `m` with VF set to `flag`, then register `x` set to `val`: where `x` is
/// VF itself, `val` is what it holds afterwards.
pub open spec fn with_flag_then_reg(m: Machine, flag: u8, x: int, val: u8) -> Machine {
    with_reg(with_reg(m, FLAG as int, flag), x, val)
}

/// `m` with the next instruction skipped when `cond` holds.
pub open spec fn skip_if(m: Machine, cond: bool) -> Machine {
    if cond {
        Machine { pc: (m.pc + 2) as u16, ..m }
    } else {
        m
    }
}

/// The three decimal digits of `v`, hundreds first.
pub open spec fn bcd(v: u8) -> Seq<u8> {
    seq![(v / 100) as u8, (v / 10 % 10) as u8, (v % 10) as u8]
}

/// `1` if `b` holds, else `0`.
pub open spec fn flag_of(b: bool) -> u8 {
    if b {
        1
    } else {
        0
    }
}

/// What executing the instruction `word` does to `m`, whose program counter
/// already points past it, with the keypad in state `keys` and `rnd` as the
/// random byte. Register arithmetic wraps at 256; where an instruction sets
/// both VF and a destination register, VF is written first.
pub open spec fn executed(m: Machine, word: u16, keys: Seq<bool>, rnd: u8) -> Result<
    Machine,
    C8Err,
> {
    match decoded(word) {
        Instruction::Cls => Ok(Machine { screen: Seq::new(CELLS as nat, |c: int| false), ..m }),
        Instruction::Ret => if m.stack.len() == 0 {
            Err(C8Err::StackUnderflow)
        } else {
            Ok(Machine { pc: m.stack.last(), stack: m.stack.drop_last(), ..m })
        },
        Instruction::Jump { location } => Ok(Machine { pc: location, ..m }),
        Instruction::Call { location } => if m.stack.len() >= MAX {
            Err(C8Err::StackOverflow)
        } else {
            Ok(Machine { pc: location, stack: m.stack.push(m.pc), ..m })
        },
        Instruction::SkipEqualRegisterBytes { register_index, bytes } => Ok(
            skip_if(m, m.v[register_index as int] == bytes),
        ),
        Instruction::SkipNotEqualRegisterBytes { register_index, bytes } => Ok(
            skip_if(m, m.v[register_index as int] != bytes),
        ),
        Instruction::SkipEqualRegisterRegister { register_x, register_y } => Ok(
            skip_if(m, m.v[register_x as int] == m.v[register_y as int]),
        ),
        Instruction::SetRegisterToBytes { register, bytes } => Ok(
            with_reg(m, register as int, bytes),
        ),
        Instruction::AddBytesToRegister { register, bytes } => Ok(
            with_reg(m, register as int, ((m.v[register as int] + bytes) % 256) as u8),
        ),
        Instruction::SetRegisterToRegister { register_x, register_y } => Ok(
            with_reg(m, register_x as int, m.v[register_y as int]),
        ),
        Instruction::BitwiseOr { register_x, register_y } => Ok(
            with_reg(m, register_x as int, m.v[register_x as int] | m.v[register_y as int]),
        ),
        Instruction::BitwiseAnd { register_x, register_y } => Ok(
            with_reg(m, register_x as int, m.v[register_x as int] & m.v[register_y as int]),
        ),
        Instruction::BitwiseXor { register_x, register_y } => Ok(
            with_reg(m, register_x as int, m.v[register_x as int] ^ m.v[register_y as int]),
        ),
        Instruction::AddRegisterToRegister { register_x, register_y } => {
            let sum = m.v[register_x as int] + m.v[register_y as int];
            Ok(with_flag_then_reg(m, flag_of(sum > 255), register_x as int, (sum % 256) as u8))
        },
        Instruction::SubtractRegisterToRegister { register_x, register_y } => {
            let (vx, vy) = (m.v[register_x as int], m.v[register_y as int]);
            Ok(
                with_flag_then_reg(
                    m,
                    flag_of(vx >= vy),
                    register_x as int,
                    ((vx - vy + 256) % 256) as u8,
                ),
            )
        },
        Instruction::LeastSignificantBit { register } => {
            let vx = m.v[register as int];
            Ok(with_flag_then_reg(m, vx % 2, register as int, vx / 2))
        },
        Instruction::SubtractInversed { register_x, register_y } => {
            let (vx, vy) = (m.v[register_x as int], m.v[register_y as int]);
            Ok(
                with_flag_then_reg(
                    m,
                    flag_of(vy >= vx),
                    register_x as int,
                    ((vy - vx + 256) % 256) as u8,
                ),
            )
        },
        Instruction::MostSignificantBit { register } => {
            let vx = m.v[register as int];
            Ok(with_flag_then_reg(m, vx / 128, register as int, ((vx * 2) % 256) as u8))
        },
        Instruction::SkipNotEqualRegisterRegister { register_x, register_y } => Ok(
            skip_if(m, m.v[register_x as int] != m.v[register_y as int]),
        ),
        Instruction::SetI { value } => Ok(Machine { i: value, ..m }),
        Instruction::JumpToLocationPlusZeroRegister { address } => Ok(
            Machine { pc: (address + m.v[0]) as u16, ..m },
        ),
        Instruction::Random { register, value } => Ok(with_reg(m, register as int, rnd & value)),
        Instruction::Display { register_x, register_y, nibble } => if m.i + nibble
            > MEMORY_SIZE {
            Err(C8Err::MemoryOutOfRange { address: m.i as usize })
        } else {
            let sprite = m.memory.subrange(m.i as int, m.i + nibble);
            let (x, y) = (m.v[register_x as int] as int, m.v[register_y as int] as int);
            Ok(
                with_reg(
                    Machine { screen: drawn(m.screen, x, y, sprite), ..m },
                    FLAG as int,
                    flag_of(collides(m.screen, x, y, sprite)),
                ),
            )
        },
        Instruction::SkipIfKeyIsPressed { register } => Ok(
            skip_if(m, held(keys, m.v[register as int] as int)),
        ),
        Instruction::SkipIfKeyIsNotPressed { register } => Ok(
            skip_if(m, !held(keys, m.v[register as int] as int)),
        ),
        Instruction::SetRegisterToDelayTimer { register } => Ok(
            with_reg(m, register as int, m.delay.value),
        ),
        Instruction::WaitForKey { register } => match lowest_held(keys) {
            Some(k) => Ok(with_reg(m, register as int, k)),
            None => Ok(Machine { pc: (m.pc - 2) as u16, ..m }),
        },
        Instruction::SetDelayTimer { register } => Ok(
            Machine {
                delay: TimerState { value: m.v[register as int], running: m.delay.running },
                ..m
            },
        ),
        Instruction::SetSoundTimer { register } => Ok(
            Machine {
                sound: TimerState { value: m.v[register as int], running: m.sound.running },
                ..m
            },
        ),
        Instruction::AddRegisterToI { register } => Ok(
            Machine { i: ((m.i + m.v[register as int]) % 0x10000) as u16, ..m },
        ),
        Instruction::SetIToLocationOfSprite { register } => Ok(
            Machine { i: (FONT_START + GLYPH_SIZE * (m.v[register as int] % 16)) as u16, ..m },
        ),
        Instruction::StoreBCD { register } => if !block_accessible(m.i as int, 3) {
            Err(C8Err::MemoryOutOfRange { address: block_fault(m.i as int) as usize })
        } else {
            Ok(Machine { memory: spliced(m.memory, m.i as int, bcd(m.v[register as int])), ..m })
        },
        Instruction::StoreRegistersToMemory { to_register } => if !block_accessible(
            m.i as int,
            to_register + 1,
        ) {
            Err(C8Err::MemoryOutOfRange { address: block_fault(m.i as int) as usize })
        } else {
            Ok(
                Machine {
                    memory: spliced(m.memory, m.i as int, m.v.subrange(0, to_register + 1)),
                    ..m
                },
            )
        },
        Instruction::LoadRegistersFromMemory { to_register } => if !block_accessible(
            m.i as int,
            to_register + 1,
        ) {
            Err(C8Err::MemoryOutOfRange { address: block_fault(m.i as int) as usize })
        } else {
            Ok(
                Machine {
                    v: spliced(m.v, 0, m.memory.subrange(m.i as int, m.i + to_register + 1)),
                    ..m
                },
            )
        },
        Instruction::Invalid => Err(C8Err::InvalidInstruction { word }),
    }
}

/// The instruction word at `pc`, big-endian.
pub open spec fn word_at(memory: Seq<u8>, pc: int) -> u16 {
    (memory[pc] * 256 + memory[pc + 1]) as u16
}

/// One cycle from `m`: fetch the word at the program counter through the
/// memory guard, advance past it, decode and execute it.
pub open spec fn stepped(m: Machine, keys: Seq<bool>, rnd: u8) -> Result<Machine, C8Err> {
    if !accessible(m.pc as int) {
        Err(C8Err::MemoryOutOfRange { address: m.pc as usize })
    } else if !accessible(m.pc + 1) {
        Err(C8Err::MemoryOutOfRange { address: (m.pc + 1) as usize })
    } else {
        executed(
            Machine { pc: (m.pc + 2) as u16, ..m },
            word_at(m.memory, m.pc as int),
            keys,
            rnd,
        )
    }
}

/// `r` and the state `after` are what `expected` asks for: its machine on
/// success; on a fault the same fault, with the state left as it was.
pub open spec fn outcome(
    r: Result<(), C8Err>,
    before: Machine,
    after: Machine,
    expected: Result<Machine, C8Err>,
) -> bool {
    match expected {
        Ok(m) => r == Ok::<(), C8Err>(()) && after == m,
        Err(e) => r == Err::<(), C8Err>(e) && after == before,
    }
}

/// Relies on rand's `thread_rng` and `Rng::gen_range`: a byte drawn from the
/// thread's generator; nothing is known of its value.
#[verifier::external_body]
fn random_byte() -> (r: u8) {
    rand::thread_rng().gen_range(0..=255u8)
}

/// A CHIP-8 machine.
pub struct Chip {
    pc: u16,
    i: u16,
    delay_t: Timer,
    sound_t: Timer,
    registers: [u8; 16],
    stack: Stack,
    memory: Memory,
    pub screen: Screen,
}

impl View for Chip {
    type V = Machine;

    closed spec fn view(&self) -> Machine {
        Machine {
            pc: self.pc,
            i: self.i,
            v: self.registers@,
            stack: self.stack@,
            memory: self.memory@,
            screen: self.screen@,
            delay: self.delay_t@,
            sound: self.sound_t@,
        }
    }
}

impl Chip {
    /// Memory and display have their full size.
    pub open spec fn wf(&self) -> bool {
        self@.memory.len() == MEMORY_SIZE && self@.screen.len() == CELLS && self@.v.len() == 16
    }

    /// A machine at power-on: the program counter at `PROGRAM_START`, every
    /// register, the memory and the stack empty, both timers stopped at zero.
    pub fn new() -> (r: Chip)
        ensures
            r.wf(),
            r@ == (Machine {
                pc: PROGRAM_START as u16,
                i: 0,
                v: Seq::new(16, |k: int| 0u8),
                stack: Seq::empty(),
                memory: Seq::new(MEMORY_SIZE as nat, |a: int| 0u8),
                screen: Seq::new(CELLS as nat, |c: int| true),
                delay: TimerState { value: 0, running: false },
                sound: TimerState { value: 0, running: false },
            }),
    {
        let r = Chip {
            pc: PROGRAM_START as u16,
            i: 0,
            delay_t: Timer::new(),
            sound_t: Timer::new(),
            registers: [0; 16],
            stack: Stack::new(),
            memory: Memory::new(),
            screen: Screen::new(),
        };
        assert(r@.v =~= Seq::new(16, |k: int| 0u8));
        r
    }
    /// V0 to V(n-1), in order.
    fn registers_upto(&self, n: usize) -> (r: Vec<u8>)
        requires
            n <= 16,
        ensures
            r@ == self@.v.subrange(0, n as int),
    {
        let mut out: Vec<u8> = Vec::new();
        let mut k: usize = 0;
        while k < n
            invariant
                n <= 16,
                k <= n,
                out@ == self@.v.subrange(0, k as int),
            decreases n - k,
        {
            out.push(self.registers[k]);
            k = k + 1;
            assert(out@ =~= self@.v.subrange(0, k as int));
        }
        out
    }

    /// Loads `data` into V0 onwards.
    fn set_registers(&mut self, data: &Vec<u8>)
        requires
            data@.len() <= 16,
        ensures
            final(self)@ == (Machine { v: spliced(old(self)@.v, 0, data@), ..old(self)@ }),
    {
        let mut k: usize = 0;
        while k < data.len()
            invariant
                data@.len() <= 16,
                k <= data@.len(),
                self@ == (Machine {
                    v: spliced(old(self)@.v, 0, data@.subrange(0, k as int)),
                    ..old(self)@
                }),
            decreases data@.len() - k,
        {
            self.registers[k] = data[k];
            k = k + 1;
            assert(self@.v =~= spliced(old(self)@.v, 0, data@.subrange(0, k as int)));
        }
        assert(data@.subrange(0, k as int) =~= data@);
    }

    /// Executes `ins`, the decoding of `word`, with the program counter
    /// already past it. On a fault nothing changes.
    #[verifier::rlimit(100)]
    fn execute(&mut self, word: u16, ins: Instruction, keys: &[bool; 16], rnd: u8) -> (r: Result<
        (),
        C8Err,
    >)
        requires
            old(self).wf(),
            ins == decoded(word),
            2 <= old(self)@.pc <= MEMORY_SIZE,
        ensures
            final(self).wf(),
            outcome(r, old(self)@, final(self)@, executed(old(self)@, word, keys@, rnd)),
    {
        proof {
            lemma_decoded_operands_in_range(word);
        }
        let ghost m = self@;
        match ins {
            Instruction::Cls => {
                self.screen.clear();
                assert(self@ =~= Machine { screen: Seq::new(CELLS as nat, |c: int| false), ..m });
                Ok(())
            },
            Instruction::Ret => match self.stack.pop() {
                Ok(a) => {
                    self.pc = a;
                    Ok(())
                },
                Err(e) => Err(e),
            },
            Instruction::Jump { location } => {
                self.pc = location;
                Ok(())
            },
            Instruction::Call { location } => match self.stack.push(self.pc) {
                Ok(()) => {
                    self.pc = location;
                    Ok(())
                },
                Err(e) => Err(e),
            },
            Instruction::SkipEqualRegisterBytes { register_index, bytes } => {
                if self.registers[register_index as usize] == bytes {
                    self.pc = self.pc + 2;
                }
                Ok(())
            },
            Instruction::SkipNotEqualRegisterBytes { register_index, bytes } => {
                if self.registers[register_index as usize] != bytes {
                    self.pc = self.pc + 2;
                }
                Ok(())
            },
            Instruction::SkipEqualRegisterRegister { register_x, register_y } => {
                if self.registers[register_x as usize] == self.registers[register_y as usize] {
                    self.pc = self.pc + 2;
                }
                Ok(())
            },
            Instruction::SetRegisterToBytes { register, bytes } => {
                self.registers[register as usize] = bytes;
                assert(self@ =~= with_reg(m, register as int, bytes));
                Ok(())
            },
            Instruction::AddBytesToRegister { register, bytes } => {
                let vx = self.registers[register as usize];
                let val = ((vx as u16 + bytes as u16) % 256) as u8;
                self.registers[register as usize] = val;
                assert(self@ =~= with_reg(m, register as int, val));
                Ok(())
            },
            Instruction::SetRegisterToRegister { register_x, register_y } => {
                let vy = self.registers[register_y as usize];
                self.registers[register_x as usize] = vy;
                assert(self@ =~= with_reg(m, register_x as int, vy));
                Ok(())
            },
            Instruction::BitwiseOr { register_x, register_y } => {
                let val = self.registers[register_x as usize] | self.registers[register_y as usize];
                self.registers[register_x as usize] = val;
                assert(self@ =~= with_reg(m, register_x as int, val));
                Ok(())
            },
            Instruction::BitwiseAnd { register_x, register_y } => {
                let val = self.registers[register_x as usize] & self.registers[register_y as usize];
                self.registers[register_x as usize] = val;
                assert(self@ =~= with_reg(m, register_x as int, val));
                Ok(())
            },
            Instruction::BitwiseXor { register_x, register_y } => {
                let val = self.registers[register_x as usize] ^ self.registers[register_y as usize];
                self.registers[register_x as usize] = val;
                assert(self@ =~= with_reg(m, register_x as int, val));
                Ok(())
            },
            Instruction::AddRegisterToRegister { register_x, register_y } => {
                let sum = self.registers[register_x as usize] as u16
                    + self.registers[register_y as usize] as u16;
                let flag: u8 = if sum > 255 {
                    1
                } else {
                    0
                };
                self.registers[FLAG] = flag;
                self.registers[register_x as usize] = (sum % 256) as u8;
                assert(self@ =~= with_flag_then_reg(
                    m,
                    flag,
                    register_x as int,
                    (sum % 256) as u8,
                ));
                Ok(())
            },
            Instruction::SubtractRegisterToRegister { register_x, register_y } => {
                let vx = self.registers[register_x as usize];
                let vy = self.registers[register_y as usize];
                let flag: u8 = if vx >= vy {
                    1
                } else {
                    0
                };
                let val = ((vx as u16 + 256 - vy as u16) % 256) as u8;
                self.registers[FLAG] = flag;
                self.registers[register_x as usize] = val;
                assert(self@ =~= with_flag_then_reg(m, flag, register_x as int, val));
                Ok(())
            },
            Instruction::LeastSignificantBit { register } => {
                let vx = self.registers[register as usize];
                self.registers[FLAG] = vx % 2;
                self.registers[register as usize] = vx / 2;
                assert(self@ =~= with_flag_then_reg(m, vx % 2, register as int, vx / 2));
                Ok(())
            },
            Instruction::SubtractInversed { register_x, register_y } => {
                let vx = self.registers[register_x as usize];
                let vy = self.registers[register_y as usize];
                let flag: u8 = if vy >= vx {
                    1
                } else {
                    0
                };
                let val = ((vy as u16 + 256 - vx as u16) % 256) as u8;
                self.registers[FLAG] = flag;
                self.registers[register_x as usize] = val;
                assert(self@ =~= with_flag_then_reg(m, flag, register_x as int, val));
                Ok(())
            },
            Instruction::MostSignificantBit { register } => {
                let vx = self.registers[register as usize];
                let val = ((vx as u16 * 2) % 256) as u8;
                self.registers[FLAG] = vx / 128;
                self.registers[register as usize] = val;
                assert(self@ =~= with_flag_then_reg(m, vx / 128, register as int, val));
                Ok(())
            },
            Instruction::SkipNotEqualRegisterRegister { register_x, register_y } => {
                if self.registers[register_x as usize] != self.registers[register_y as usize] {
                    self.pc = self.pc + 2;
                }
                Ok(())
            },
            Instruction::SetI { value } => {
                self.i = value;
                Ok(())
            },
            Instruction::JumpToLocationPlusZeroRegister { address } => {
                self.pc = address + self.registers[0] as u16;
                Ok(())
            },
            Instruction::Random { register, value } => {
                self.registers[register as usize] = rnd & value;
                assert(self@ =~= with_reg(m, register as int, rnd & value));
                Ok(())
            },
            Instruction::Display { register_x, register_y, nibble } => {
                let vx = self.registers[register_x as usize];
                let vy = self.registers[register_y as usize];
                match self.memory.sprite(self.i as usize, nibble as usize) {
                    Ok(sprite) => {
                        let hit = self.screen.draw(vx as usize, vy as usize, sprite.as_slice());
                        let flag: u8 = if hit {
                            1
                        } else {
                            0
                        };
                        self.registers[FLAG] = flag;
                        assert(self@ =~= with_reg(
                            Machine {
                                screen: drawn(m.screen, vx as int, vy as int, sprite@),
                                ..m
                            },
                            FLAG as int,
                            flag,
                        ));
                        Ok(())
                    },
                    Err(e) => Err(e),
                }
            },
            Instruction::SkipIfKeyIsPressed { register } => {
                let key = self.registers[register as usize];
                if key < 16 && keys[key as usize] {
                    self.pc = self.pc + 2;
                }
                Ok(())
            },
            Instruction::SkipIfKeyIsNotPressed { register } => {
                let key = self.registers[register as usize];
                if !(key < 16 && keys[key as usize]) {
                    self.pc = self.pc + 2;
                }
                Ok(())
            },
            Instruction::SetRegisterToDelayTimer { register } => {
                let value = self.delay_t.get();
                self.registers[register as usize] = value;
                assert(self@ =~= with_reg(m, register as int, value));
                Ok(())
            },
            Instruction::WaitForKey { register } => {
                match first_held(keys) {
                    Some(k) => {
                        self.registers[register as usize] = k;
                        assert(self@ =~= with_reg(m, register as int, k));
                    },
                    None => {
                        self.pc = self.pc - 2;
                    },
                }
                Ok(())
            },
            Instruction::SetDelayTimer { register } => {
                self.delay_t.set(self.registers[register as usize]);
                Ok(())
            },
            Instruction::SetSoundTimer { register } => {
                self.sound_t.set(self.registers[register as usize]);
                Ok(())
            },
            Instruction::AddRegisterToI { register } => {
                self.i = ((self.i as u32 + self.registers[register as usize] as u32) % 0x10000) as u16;
                Ok(())
            },
            Instruction::SetIToLocationOfSprite { register } => {
                let digit = self.registers[register as usize] % 16;
                self.i = (FONT_START + GLYPH_SIZE * digit as usize) as u16;
                Ok(())
            },
            Instruction::StoreBCD { register } => {
                let vx = self.registers[register as usize];
                let digits: Vec<u8> = vec![vx / 100, vx / 10 % 10, vx % 10];
                assert(digits@ =~= bcd(vx));
                self.memory.write_block(self.i as usize, digits.as_slice())
            },
            Instruction::StoreRegistersToMemory { to_register } => {
                let data = self.registers_upto(to_register as usize + 1);
                self.memory.write_block(self.i as usize, data.as_slice())
            },
            Instruction::LoadRegistersFromMemory { to_register } => {
                match self.memory.read_block(self.i as usize, to_register as usize + 1) {
                    Ok(data) => {
                        self.set_registers(&data);
                        Ok(())
                    },
                    Err(e) => Err(e),
                }
            },
            Instruction::Invalid => Err(C8Err::InvalidInstruction { word }),
        }
    }

    /// One cycle, with `random` as the byte that a random-number instruction
    /// uses: fetch the word at the program counter, advance past it, decode
    /// and execute it. On a fault the machine is left as it was, its program
    /// counter on the faulting word.
    pub fn step(&mut self, keys: &[bool; 16], random: u8) -> (r: Result<(), C8Err>)
        requires
            old(self).wf(),
        ensures
            final(self).wf(),
            outcome(r, old(self)@, final(self)@, stepped(old(self)@, keys@, random)),
    {
        let hi = match self.memory.get(self.pc as usize) {
            Ok(b) => b,
            Err(e) => return Err(e),
        };
        let lo = match self.memory.get(self.pc as usize + 1) {
            Ok(b) => b,
            Err(e) => return Err(e),
        };
        let word: u16 = hi as u16 * 256 + lo as u16;
        let ins = decode(word);
        let saved = self.pc;
        self.pc = self.pc + 2;
        let r = self.execute(word, ins, keys, random);
        if r.is_err() {
            self.pc = saved;
            assert(self@ =~= old(self)@);
        }
        r
    }

    /// One cycle, drawing the byte for a random-number instruction from the
    /// thread's generator; otherwise as `step`.
    pub fn cycle(&mut self, keys: &[bool; 16]) -> (r: Result<(), C8Err>)
        requires
            old(self).wf(),
        ensures
            final(self).wf(),
            exists|rnd: u8| outcome(r, old(self)@, final(self)@, stepped(old(self)@, keys@, rnd)),
    {
        let random = random_byte();
        self.step(keys, random)
    }
    /// Writes the font into memory, sets both timers to 100 and starts them.
    pub fn start(&mut self)
        requires
            old(self).wf(),
        ensures
            final(self).wf(),
            final(self)@ == (Machine {
                memory: spliced(old(self)@.memory, FONT_START as int, font()),
                delay: TimerState { value: 100, running: true },
                sound: TimerState { value: 100, running: true },
                ..old(self)@
            }),
    {
        self.memory.load_font();
        self.delay_t.set(100);
        self.sound_t.set(100);
        self.delay_t.start();
        self.sound_t.start();
    }

    /// Copies `program` into memory from `PROGRAM_START` on; fails, changing
    /// nothing, when it does not fit.
    pub fn load(&mut self, program: &[u8]) -> (r: Result<(), C8Err>)
        requires
            old(self).wf(),
        ensures
            final(self).wf(),
            outcome(
                r,
                old(self)@,
                final(self)@,
                if program@.len() <= MEMORY_SIZE - PROGRAM_START {
                    Ok(
                        Machine {
                            memory: spliced(old(self)@.memory, PROGRAM_START as int, program@),
                            ..old(self)@
                        },
                    )
                } else {
                    Err(C8Err::MemoryOutOfRange { address: MEMORY_SIZE })
                },
            ),
    {
        self.memory.load_program(program)
    }

    /// One timer period (1/60 s) elapsed: each started timer above zero
    /// counts down by one.
    pub fn tick_timers(&mut self)
        ensures
            final(self)@ == (Machine {
                delay: ticked(old(self)@.delay),
                sound: ticked(old(self)@.sound),
                ..old(self)@
            }),
    {
        self.delay_t.tick();
        self.sound_t.tick();
    }

    /// The program counter.
    pub fn pc(&self) -> (r: u16)
        ensures
            r == self@.pc,
    {
        self.pc
    }

    /// The index register I.
    pub fn i(&self) -> (r: u16)
        ensures
            r == self@.i,
    {
        self.i
    }

    /// V0 to VF.
    pub fn registers(&self) -> (r: [u8; 16])
        ensures
            r@ == self@.v,
    {
        self.registers
    }

    /// The return addresses on the stack, bottom to top.
    pub fn stack(&self) -> (r: Vec<u16>)
        ensures
            r@ == self@.stack,
    {
        self.stack.addresses()
    }

    /// The delay timer's count.
    pub fn delay_timer(&self) -> (r: u8)
        ensures
            r == self@.delay.value,
    {
        self.delay_t.get()
    }

    /// The sound timer's count.
    pub fn sound_timer(&self) -> (r: u8)
        ensures
            r == self@.sound.value,
    {
        self.sound_t.get()
    }
}

} // verus!
