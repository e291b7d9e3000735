use vstd::prelude::*;

use crate::model::{
    add_with_carry, adc_signed_overflow, adc_sum, carry_in, copy_into, halted_state, halts,
    has_operand, increment_x, load_accumulator, load_program, operand_address, operand_in_bounds,
    power_on_state, read_u16, reset_state, run_for, store_accumulator, transfer_a_to_x,
    well_formed, write_u16, zero_negative, CpuState, FLAG_NEGATIVE, FLAG_ZERO, MEMORY_SIZE,
    PROGRAM_START, RESET_VECTOR,
};
use crate::laws::lemma_adc_overflow_rule;

verus! {

/// How an instruction finds its operand.
#[derive(Debug)]
#[allow(non_camel_case_types)]
pub enum AddressingMode {
    Immediate,
    ZeroPage,
    ZeroPage_X,
    ZeroPage_Y,
    Absolute,
    Absolute_X,
    Absolute_Y,
    Indirect_X,
    Indirect_Y,
    NoneAddressing,
}

/// The processor: accumulator, index registers, status, program counter
/// and 64 KiB of memory.
pub struct CPU {
    pub register_a: u8,
    pub register_x: u8,
    pub register_y: u8,
    pub status: u8,
    pub program_counter: u16,
    memory: [u8; 0x10000],
}

/// The processor seen as its abstract state: the registers as they stand and
/// the memory in address order.
impl View for CPU {
    type V = CpuState;

    closed spec fn view(&self) -> CpuState {
        CpuState {
            a: self.register_a,
            x: self.register_x,
            y: self.register_y,
            status: self.status,
            pc: self.program_counter,
            mem: self.memory@,
        }
    }
}

impl CPU {
    /// The memory of every processor covers the whole address space.
    pub proof fn lemma_well_formed(&self)
        ensures
            well_formed(self@),
    {
    }

    /// The value of the accumulator.
    pub fn register_a(&self) -> (r: u8)
        ensures
            r == self@.a,
    {
        self.register_a
    }

    /// Sets the accumulator to `value`; nothing else changes.
    pub fn set_register_a(&mut self, value: u8)
        ensures
            final(self)@ == (CpuState { a: value, ..old(self)@ }),
    {
        self.register_a = value;
    }

    /// The value of the X index register.
    pub fn register_x(&self) -> (r: u8)
        ensures
            r == self@.x,
    {
        self.register_x
    }

    /// Sets the X index register to `value`; nothing else changes.
    pub fn set_register_x(&mut self, value: u8)
        ensures
            final(self)@ == (CpuState { x: value, ..old(self)@ }),
    {
        self.register_x = value;
    }

    /// The value of the Y index register.
    pub fn register_y(&self) -> (r: u8)
        ensures
            r == self@.y,
    {
        self.register_y
    }

    /// Sets the Y index register to `value`; nothing else changes.
    pub fn set_register_y(&mut self, value: u8)
        ensures
            final(self)@ == (CpuState { y: value, ..old(self)@ }),
    {
        self.register_y = value;
    }

    /// The value of the status register.
    pub fn status(&self) -> (r: u8)
        ensures
            r == self@.status,
    {
        self.status
    }

    /// Sets the status register to `value`; nothing else changes.
    pub fn set_status(&mut self, value: u8)
        ensures
            final(self)@ == (CpuState { status: value, ..old(self)@ }),
    {
        self.status = value;
    }

    /// The value of the program counter.
    pub fn program_counter(&self) -> (r: u16)
        ensures
            r == self@.pc,
    {
        self.program_counter
    }

    /// Sets the program counter to `value`; nothing else changes.
    pub fn set_program_counter(&mut self, value: u16)
        ensures
            final(self)@ == (CpuState { pc: value, ..old(self)@ }),
    {
        self.program_counter = value;
    }

    /// A processor with every register and every byte of memory at zero.
    pub fn new() -> (cpu: Self)
        ensures
            cpu@ == power_on_state(),
    {
        let cpu = CPU {
            register_a: 0,
            register_x: 0,
            register_y: 0,
            status: 0,
            program_counter: 0,
            memory: [0x00; 0x10000],
        };
        assert(cpu.memory@ =~= power_on_state().mem);
        cpu
    }

    /// The byte at `addr`.
    pub fn mem_read(&self, addr: u16) -> (data: u8)
        ensures
            data == self@.mem[addr as int],
    {
        self.memory[addr as usize]
    }

    /// Writes `data` at `addr`; nothing else changes.
    pub fn mem_write(&mut self, addr: u16, data: u8)
        ensures
            final(self)@ == (CpuState { mem: old(self)@.mem.update(addr as int, data), ..old(self)@ }),
    {
        self.memory[addr as usize] = data;
    }

    /// Loads `program`, resets the processor and runs it until BRK.
    pub fn load_and_run(&mut self, program: Vec<u8>)
        requires
            program.len() <= 0x8000,
            halts(reset_state(load_program(old(self)@, program@))),
        ensures
            final(self)@ == halted_state(reset_state(load_program(old(self)@, program@))),
    {
        self.load(program);
        self.reset();
        self.run()
    }

    /// Clears the registers and the status and sets the program counter from
    /// the reset vector at 0xFFFC.
    pub fn reset(&mut self)
        ensures
            final(self)@ == reset_state(old(self)@),
    {
        self.register_a = 0;
        self.register_x = 0;
        self.register_y = 0;
        self.status = 0;
        self.program_counter = self.mem_read_u16(RESET_VECTOR);
    }

    /// Copies `program` into memory from 0x8000 on and points the reset vector there.
    pub fn load(&mut self, program: Vec<u8>)
        requires
            program.len() <= 0x8000,
        ensures
            final(self)@ == load_program(old(self)@, program@),
    {
        let mut i: usize = 0;
        while i < program.len()
            invariant
                i <= program.len() <= 0x8000,
                self.register_a == old(self).register_a,
                self.register_x == old(self).register_x,
                self.register_y == old(self).register_y,
                self.status == old(self).status,
                self.program_counter == old(self).program_counter,
                forall|j: int|
                    0 <= j < MEMORY_SIZE ==> #[trigger] self.memory@[j] == if 0x8000 <= j < 0x8000 + i {
                        program@[j - 0x8000]
                    } else {
                        old(self).memory@[j]
                    },
            decreases program.len() - i,
        {
            self.memory[0x8000 + i] = program[i];
            i = i + 1;
        }
        assert(self.memory@ =~= copy_into(old(self)@.mem, PROGRAM_START as int, program@));
        self.mem_write_u16(RESET_VECTOR, PROGRAM_START);
    }

    /// Fetches and executes instructions until BRK.
    pub fn run(&mut self)
        requires
            halts(old(self)@),
        ensures
            final(self)@ == halted_state(old(self)@),
    {
        let ghost start = self@;
        let ghost mut fuel: nat = choose|fuel: nat| (#[trigger] run_for(start, fuel)) is Some;
        loop
            invariant
                start == old(self)@,
                run_for(self@, fuel) == Some(halted_state(start)),
            decreases fuel,
        {
            let ghost before = self@;
            assert(fuel > 0);
            let code = self.mem_read(self.program_counter);
            self.program_counter += 1;

            match code {
                0xA9 => {
                    self.lda(&AddressingMode::Immediate);
                    self.program_counter += 1;
                },
                0xA5 => {
                    self.lda(&AddressingMode::ZeroPage);
                    self.program_counter += 1;
                },
                0xB5 => {
                    self.lda(&AddressingMode::ZeroPage_X);
                    self.program_counter += 1;
                },
                0xAD => {
                    self.lda(&AddressingMode::Absolute);
                    self.program_counter += 2;
                },
                0xBD => {
                    self.lda(&AddressingMode::Absolute_X);
                    self.program_counter += 2;
                },
                0xB9 => {
                    self.lda(&AddressingMode::Absolute_Y);
                    self.program_counter += 2;
                },
                0xA1 => {
                    self.lda(&AddressingMode::Indirect_X);
                    self.program_counter += 1;
                },
                0xB1 => {
                    self.lda(&AddressingMode::Indirect_Y);
                    self.program_counter += 1;
                },
                0x85 => {
                    self.sta(&AddressingMode::ZeroPage);
                    self.program_counter += 1;
                },
                0x95 => {
                    self.sta(&AddressingMode::ZeroPage_X);
                    self.program_counter += 1;
                },
                0x8D => {
                    self.sta(&AddressingMode::Absolute);
                    self.program_counter += 2;
                },
                0x9D => {
                    self.sta(&AddressingMode::Absolute_X);
                    self.program_counter += 2;
                },
                0x99 => {
                    self.sta(&AddressingMode::Absolute_Y);
                    self.program_counter += 2;
                },
                0x81 => {
                    self.sta(&AddressingMode::Indirect_X);
                    self.program_counter += 1;
                },
                0x91 => {
                    self.sta(&AddressingMode::Indirect_Y);
                    self.program_counter += 1;
                },
                // BRK Implied
                0x00 => return ,
                // TAX Implied
                0xAA => self.tax(),
                // INX Implied.
                0xE8 => self.inx(),
                0x69 => {
                    self.adc(&AddressingMode::Immediate);
                    self.program_counter += 1;
                },
                // `halts` rules out every opcode outside the instruction set.
                _ => unreached(),
            }
            proof {
                fuel = (fuel - 1) as nat;
            }
        }
    }

    /// The little-endian word at `pos` and `pos + 1`.
    pub fn mem_read_u16(&self, pos: u16) -> (data: u16)
        requires
            pos < 0xFFFF,
        ensures
            data == read_u16(self@.mem, pos as int),
    {
        let lo = self.mem_read(pos) as u16;
        let hi = self.mem_read(pos + 1) as u16;
        proof {
            lemma_bytes_to_word(lo as u8, hi as u8);
        }
        (hi << 8) | (lo as u16)
    }

    /// Stores `data` little-endian at `pos` and `pos + 1`; nothing else changes.
    pub fn mem_write_u16(&mut self, pos: u16, data: u16)
        requires
            pos < 0xFFFF,
        ensures
            final(self)@ == (CpuState { mem: write_u16(old(self)@.mem, pos as int, data), ..old(self)@ }),
    {
        let hi = (data >> 8) as u8;
        let lo = (data & 0xff) as u8;
        proof {
            lemma_word_to_bytes(data);
        }
        self.mem_write(pos, lo);
        self.mem_write(pos + 1, hi);
    }

    /// The address of the operand in `mode`, whose bytes start at the program counter.
    #[verifier::spinoff_prover]
    fn get_operand_address(&self, mode: &AddressingMode) -> (addr: u16)
        requires
            has_operand(*mode),
            operand_in_bounds(self@, *mode),
        ensures
            addr == operand_address(self@, *mode),
    {
        match mode {
            AddressingMode::Immediate => self.program_counter,
            AddressingMode::ZeroPage => self.mem_read(self.program_counter) as u16,
            AddressingMode::Absolute => self.mem_read_u16(self.program_counter),
            AddressingMode::ZeroPage_X => {
                let pos = self.mem_read(self.program_counter);
                let addr = pos.wrapping_add(self.register_x) as u16;
                addr
            },
            AddressingMode::ZeroPage_Y => {
                let pos = self.mem_read(self.program_counter);
                let addr = pos.wrapping_add(self.register_y) as u16;
                addr
            },
            AddressingMode::Absolute_X => {
                let base = self.mem_read_u16(self.program_counter);
                let addr = base.wrapping_add(self.register_x as u16);
                addr
            },
            AddressingMode::Absolute_Y => {
                let base = self.mem_read_u16(self.program_counter);
                let addr = base.wrapping_add(self.register_y as u16);
                addr
            },
            AddressingMode::Indirect_X => {
                let base = self.mem_read(self.program_counter);
                let ptr: u8 = base.wrapping_add(self.register_x);
                let lo = self.mem_read(ptr as u16);
                let hi = self.mem_read(ptr.wrapping_add(1) as u16);
                proof {
                    lemma_bytes_to_word(lo, hi);
                }
                (hi as u16) << 8 | (lo as u16)
            },
            AddressingMode::Indirect_Y => {
                let base = self.mem_read(self.program_counter);
                let lo = self.mem_read(base as u16);
                let hi = self.mem_read(base.wrapping_add(1) as u16);
                proof {
                    lemma_bytes_to_word(lo, hi);
                }
                let deref_base = (hi as u16) << 8 | (lo as u16);
                let deref = deref_base.wrapping_add(self.register_y as u16);
                deref
            },
            AddressingMode::NoneAddressing => unreached(),
        }
    }

    /// Sets Z when `result` is zero and N when its bit 7 is set, clearing each
    /// otherwise; nothing else changes.
    fn update_zero_and_negative_flags(&mut self, result: u8)
        ensures
            final(self)@ == (CpuState { status: zero_negative(old(self)@.status, result), ..old(self)@ }),
    {
        if result == 0 {
            self.status = self.status | 0b0000_0010;
        } else {
            self.status = self.status & 0b1111_1101;
        }
        let ghost middle = self.status;
        if result & 0b1000_0000 != 0 {
            self.status = self.status | 0b1000_0000;
        } else {
            self.status = self.status & 0b0111_1111;
        }
        proof {
            lemma_flag_masks(old(self).status, result);
            lemma_flag_masks(middle, result);
        }
    }

    /// LDA: loads the operand into the accumulator.
    fn lda(&mut self, mode: &AddressingMode)
        requires
            has_operand(*mode),
            operand_in_bounds(old(self)@, *mode),
        ensures
            final(self)@ == load_accumulator(old(self)@, operand_address(old(self)@, *mode)),
    {
        let addr = self.get_operand_address(mode);
        let value = self.mem_read(addr);
        self.register_a = value;
        self.update_zero_and_negative_flags(self.register_a);
    }

    /// TAX: copies the accumulator into X.
    fn tax(&mut self)
        ensures
            final(self)@ == transfer_a_to_x(old(self)@),
    {
        self.register_x = self.register_a;
        self.update_zero_and_negative_flags(self.register_x);
    }

    /// INX: increments X, wrapping from 0xFF to 0x00.
    fn inx(&mut self)
        ensures
            final(self)@ == increment_x(old(self)@),
    {
        self.register_x = self.register_x.wrapping_add(1);
        self.update_zero_and_negative_flags(self.register_x);
    }

    /// STA: stores the accumulator at the operand's address.
    fn sta(&mut self, mode: &AddressingMode)
        requires
            has_operand(*mode),
            operand_in_bounds(old(self)@, *mode),
        ensures
            final(self)@ == store_accumulator(old(self)@, operand_address(old(self)@, *mode)),
    {
        let addr = self.get_operand_address(mode);
        self.mem_write(addr, self.register_a);
    }

    /// ADC: adds the operand and the carry flag to the accumulator.
    fn adc(&mut self, mode: &AddressingMode)
        requires
            has_operand(*mode),
            operand_in_bounds(old(self)@, *mode),
        ensures
            final(self)@ == add_with_carry(old(self)@, operand_address(old(self)@, *mode)),
    {
        let addr = self.get_operand_address(mode);
        let value = self.mem_read(addr);
        let carry = self.status & 0x01;

        let (rhs, carry_flag1) = overflowing_add(value, carry);
        let (n, carry_flag2) = overflowing_add(self.register_a, rhs);

        let overflow = ((self.register_a & 0x80) == (value & 0x80)) && ((value & 0x80) != (n
            & 0x80));
        proof {
            let a = old(self)@.a;
            lemma_carry_bit(old(self)@.status);
            assert(carry == carry_in(old(self)@.status));
            assert(n == adc_sum(old(self)@, value) % 256);
            assert((carry_flag1 || carry_flag2) == (adc_sum(old(self)@, value) > 0xFF));
            lemma_sign_bit(a);
            lemma_sign_bit(value);
            lemma_sign_bit(n);
            lemma_adc_overflow_rule(a, value, carry_in(old(self)@.status));
            assert(overflow == adc_signed_overflow(old(self)@, value));
        }
        self.register_a = n;

        self.status = if carry_flag1 || carry_flag2 {
            self.status | 0x01
        } else {
            self.status & !0x01
        };
        self.status = if overflow {
            self.status | 0x40
        } else {
            self.status & !0x40
        };
        self.update_zero_and_negative_flags(self.register_a);
    }
}


/// Byte addition with its carry out: the sum modulo 256, and whether the true
/// sum exceeded 0xFF.
fn overflowing_add(lhs: u8, rhs: u8) -> (r: (u8, bool))
    ensures
        r.0 == (lhs + rhs) % 256,
        r.1 == (lhs + rhs > 0xFF),
{
    let sum = lhs.wrapping_add(rhs);
    (sum, sum < lhs)
}

/// Two bytes joined by shift and or form the little-endian word.
proof fn lemma_bytes_to_word(lo: u8, hi: u8)
    ensures
        ((hi as u16) << 8) | (lo as u16) == lo + 256 * hi,
{
    assert(((hi as u16) << 8) | (lo as u16) == lo + 256 * hi) by (bit_vector);
}

/// Shift and mask split a word into its high and low bytes.
proof fn lemma_word_to_bytes(data: u16)
    ensures
        (data >> 8) as u8 == data / 256,
        (data & 0xff) as u8 == data % 256,
{
    assert((data >> 8) as u8 == data / 256) by (bit_vector);
    assert((data & 0xff) as u8 == data % 256) by (bit_vector);
}

/// The masks written out in the flag updates are those of the named flags.
proof fn lemma_flag_masks(status: u8, result: u8)
    ensures
        status & 0b1111_1101 == status & !FLAG_ZERO,
        status & 0b0111_1111 == status & !FLAG_NEGATIVE,
        (result & 0b1000_0000 != 0) == (result >= 0x80),
{
    assert(status & 0b1111_1101 == status & !2u8) by (bit_vector);
    assert(status & 0b0111_1111 == status & !0x80u8) by (bit_vector);
    assert((result & 0b1000_0000 != 0) == (result >= 0x80)) by (bit_vector);
}

/// The carry bit of `status`, taken by a mask, is `carry_in(status)`.
proof fn lemma_carry_bit(status: u8)
    ensures
        status & 0x01 == carry_in(status),
{
    assert(status & 0x01 == 0 || status & 0x01 == 1) by (bit_vector);
}

/// Bit 7 of a byte is set exactly when the byte is at least 0x80.
proof fn lemma_sign_bit(b: u8)
    ensures
        (b & 0x80 == 0x80) == (b >= 0x80),
        (b & 0x80 == 0) == (b < 0x80),
{
    assert((b & 0x80 == 0x80) == (b >= 0x80)) by (bit_vector);
    assert((b & 0x80 == 0) == (b < 0x80)) by (bit_vector);
}

} // verus!
