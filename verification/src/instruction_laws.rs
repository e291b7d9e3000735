use vstd::prelude::*;

use crate::cpu::AddressingMode;
use crate::model::{
    add_with_carry, increment_x, load_accumulator, operand_address, step, store_accumulator,
    transfer_a_to_x, CpuState, Step,
};

verus! {

/// `t.status` carries Z and N for `r`: Z is set exactly when `r` is zero, N
/// exactly when bit 7 of `r` is set; bits other than Z, N, C and V are those
/// of `s.status`.
pub open spec fn zero_negative_of(s: CpuState, t: CpuState, r: u8) -> bool {
    &&& (t.status & 0x02 != 0) == (r == 0)
    &&& (t.status & 0x80 != 0) == (r >= 0x80)
    &&& t.status & 0x3C == s.status & 0x3C
}

/// `t.status` keeps the carry and overflow bits of `s.status`.
pub open spec fn carry_overflow_kept(s: CpuState, t: CpuState) -> bool {
    &&& (t.status & 0x01) == (s.status & 0x01)
    &&& (t.status & 0x40) == (s.status & 0x40)
}

/// The byte at bit positions of a status register after a Z/N update, written
/// out bit by bit.
proof fn lemma_zn_bits(st: u8, r: u8)
    ensures
        ({
            let z = if r == 0 { st | 2u8 } else { st & !2u8 };
            let n = if r >= 0x80 { z | 0x80u8 } else { z & !0x80u8 };
            &&& (n & 0x02 != 0) == (r == 0)
            &&& (n & 0x80 != 0) == (r >= 0x80)
            &&& n & 0x3C == st & 0x3C
            &&& n & 0x01 == st & 0x01
            &&& n & 0x40 == st & 0x40
        }),
{
    let z = if r == 0 { st | 2u8 } else { st & !2u8 };
    let n = if r >= 0x80 { z | 0x80u8 } else { z & !0x80u8 };
    assert((n & 0x02 != 0) == (r == 0) && (n & 0x80 != 0) == (r >= 0x80) && n & 0x3C == st & 0x3C
        && n & 0x01 == st & 0x01 && n & 0x40 == st & 0x40) by (bit_vector)
        requires
            z == (if r == 0 { st | 2u8 } else { st & !2u8 }),
            n == (if r >= 0x80 { z | 0x80u8 } else { z & !0x80u8 }),
    ;
}

/// The status after ADC's carry, overflow, zero and negative updates, bit by bit.
proof fn lemma_adc_bits(st: u8, c: bool, o: bool, r: u8)
    ensures
        ({
            let s1 = if c { st | 1u8 } else { st & !1u8 };
            let s2 = if o { s1 | 0x40u8 } else { s1 & !0x40u8 };
            let z = if r == 0 { s2 | 2u8 } else { s2 & !2u8 };
            let n = if r >= 0x80 { z | 0x80u8 } else { z & !0x80u8 };
            &&& (n & 0x01 != 0) == c
            &&& (n & 0x40 != 0) == o
            &&& (n & 0x02 != 0) == (r == 0)
            &&& (n & 0x80 != 0) == (r >= 0x80)
            &&& n & 0x3C == st & 0x3C
        }),
{
    let s1 = if c { st | 1u8 } else { st & !1u8 };
    let s2 = if o { s1 | 0x40u8 } else { s1 & !0x40u8 };
    let z = if r == 0 { s2 | 2u8 } else { s2 & !2u8 };
    let n = if r >= 0x80 { z | 0x80u8 } else { z & !0x80u8 };
    assert((n & 0x01 != 0) == c && (n & 0x40 != 0) == o && (n & 0x02 != 0) == (r == 0) && (n
        & 0x80 != 0) == (r >= 0x80) && n & 0x3C == st & 0x3C) by (bit_vector)
        requires
            s1 == (if c { st | 1u8 } else { st & !1u8 }),
            s2 == (if o { s1 | 0x40u8 } else { s1 & !0x40u8 }),
            z == (if r == 0 { s2 | 2u8 } else { s2 & !2u8 }),
            n == (if r >= 0x80 { z | 0x80u8 } else { z & !0x80u8 }),
    ;
    assert(st & 1u8 == 0 || st & 1u8 == 1) by (bit_vector);
}

/// ADC adds the operand and the carry bit to the accumulator: the new
/// accumulator is the sum modulo 256; C is set exactly when the sum exceeds
/// 0xFF; V is set exactly when the sum of the two bytes read as two's
/// complement numbers, plus the carry, lies outside -128..=127; Z and N follow
/// the new accumulator; every other register, bit and byte stays.
pub proof fn lemma_adc_semantics(s: CpuState, addr: int)
    ensures
        ({
            let t = add_with_carry(s, addr);
            let v = s.mem[addr];
            let c: int = (s.status & 0x01) as int;
            let sa: int = if s.a < 0x80 { s.a as int } else { s.a - 256 };
            let sv: int = if v < 0x80 { v as int } else { v - 256 };
            &&& c == 0 || c == 1
            &&& t.a == (s.a + v + c) % 256
            &&& (t.status & 0x01 != 0) == (s.a + v + c > 0xFF)
            &&& (t.status & 0x40 != 0) == (sa + sv + c < -128 || sa + sv + c > 127)
            &&& zero_negative_of(s, t, t.a)
            &&& t.x == s.x && t.y == s.y && t.pc == s.pc && t.mem == s.mem
        }),
{
    let v = s.mem[addr];
    let t = add_with_carry(s, addr);
    let sum = s.a + v + (s.status & 0x01);
    let st = s.status;
    assert(st & 1u8 == 0 || st & 1u8 == 1) by (bit_vector);
    assert((st & 1u8 != 0) == (st & 1u8 == 1)) by (bit_vector);
    lemma_adc_bits(s.status, sum > 0xFF, crate::model::adc_signed_overflow(s, v), t.a);
}

/// LDA loads the byte at the operand address into the accumulator; Z and N
/// follow it, C and V stay, and so does everything else.
pub proof fn lemma_lda_semantics(s: CpuState, addr: int)
    ensures
        ({
            let t = load_accumulator(s, addr);
            &&& t.a == s.mem[addr]
            &&& zero_negative_of(s, t, t.a)
            &&& carry_overflow_kept(s, t)
            &&& t.x == s.x && t.y == s.y && t.pc == s.pc && t.mem == s.mem
        }),
{
    lemma_zn_bits(s.status, s.mem[addr]);
}

/// STA writes the accumulator at the operand address and changes nothing else.
pub proof fn lemma_sta_semantics(s: CpuState, addr: int)
    requires
        s.mem.len() == 0x10000,
        0 <= addr < 0x10000,
    ensures
        ({
            let t = store_accumulator(s, addr);
            &&& t.mem[addr] == s.a
            &&& forall|i: int| 0 <= i < 0x10000 && i != addr ==> t.mem[i] == s.mem[i]
            &&& t.mem.len() == s.mem.len()
            &&& t.a == s.a && t.x == s.x && t.y == s.y && t.status == s.status && t.pc == s.pc
        }),
{
}

/// TAX copies the accumulator into X; Z and N follow the new X, C and V stay,
/// and so does everything else.
pub proof fn lemma_tax_semantics(s: CpuState)
    ensures
        ({
            let t = transfer_a_to_x(s);
            &&& t.x == s.a
            &&& zero_negative_of(s, t, t.x)
            &&& carry_overflow_kept(s, t)
            &&& t.a == s.a && t.y == s.y && t.pc == s.pc && t.mem == s.mem
        }),
{
    lemma_zn_bits(s.status, s.a);
}

/// INX adds one to X, wrapping from 0xFF to 0x00; Z and N follow the new X
/// whatever the accumulator holds, C and V stay, and so does everything else.
pub proof fn lemma_inx_semantics(s: CpuState)
    ensures
        ({
            let t = increment_x(s);
            &&& t.x == (if s.x == 0xFF { 0 } else { s.x + 1 })
            &&& zero_negative_of(s, t, t.x)
            &&& carry_overflow_kept(s, t)
            &&& t.a == s.a && t.y == s.y && t.pc == s.pc && t.mem == s.mem
        }),
{
    lemma_zn_bits(s.status, ((s.x + 1) % 256) as u8);
}

/// Where each addressing mode finds its operand, when the operand bytes
/// start at the program counter: indexed modes add the index register to
/// the base, with the carry going into the high byte for absolute bases and
/// dropped on the zero page; the indirect modes read a little-endian pointer
/// from the zero page, wrapping from 0xFF to 0x00.
pub proof fn lemma_operand_address_modes(s: CpuState)
    ensures
        ({
            let p = s.pc as int;
            let zp = s.mem[p] as int;
            let base = s.mem[p] + 256 * s.mem[p + 1];
            let zx = if zp + s.x < 256 { zp + s.x } else { zp + s.x - 256 };
            let zy = if zp + s.y < 256 { zp + s.y } else { zp + s.y - 256 };
            let ptr_x = s.mem[zx] + 256 * s.mem[if zx == 255 { 0 } else { zx + 1 }];
            let ptr_y = s.mem[zp] + 256 * s.mem[if zp == 255 { 0 } else { zp + 1 }];
            &&& operand_address(s, AddressingMode::Immediate) == p
            &&& operand_address(s, AddressingMode::ZeroPage) == zp
            &&& operand_address(s, AddressingMode::ZeroPage_X) == zx
            &&& operand_address(s, AddressingMode::ZeroPage_Y) == zy
            &&& operand_address(s, AddressingMode::Absolute) == base
            &&& operand_address(s, AddressingMode::Absolute_X) == if base + s.x < 0x10000 {
                base + s.x
            } else {
                base + s.x - 0x10000
            }
            &&& operand_address(s, AddressingMode::Absolute_Y) == if base + s.y < 0x10000 {
                base + s.y
            } else {
                base + s.y - 0x10000
            }
            &&& operand_address(s, AddressingMode::Indirect_X) == ptr_x
            &&& operand_address(s, AddressingMode::Indirect_Y) == if ptr_y + s.y < 0x10000 {
                ptr_y + s.y
            } else {
                ptr_y + s.y - 0x10000
            }
        }),
{
}

/// `t` is `s` after an LDA of the byte at `addr` in an instruction of `len`
/// bytes.
pub open spec fn loads_a(s: CpuState, t: CpuState, addr: int, len: int) -> bool {
    &&& t.pc == s.pc + len
    &&& t.a == s.mem[addr]
    &&& zero_negative_of(s, t, t.a)
    &&& carry_overflow_kept(s, t)
    &&& t.x == s.x && t.y == s.y && t.mem == s.mem
}

/// `t` is `s` after an STA to `addr` in an instruction of `len` bytes.
pub open spec fn stores_a(s: CpuState, t: CpuState, addr: int, len: int) -> bool {
    &&& t.pc == s.pc + len
    &&& t.mem == s.mem.update(addr, s.a)
    &&& t.a == s.a && t.x == s.x && t.y == s.y && t.status == s.status
}

/// The operand addresses of the modes, for operand bytes that follow an
/// opcode at the program counter of `s`: zero page, zero page + X, zero page
/// + Y, absolute, absolute + X, absolute + Y, (zero page + X) indirect and
/// (zero page) indirect + Y.
pub open spec fn addresses_after_opcode(s: CpuState) -> (int, int, int, int, int, int, int, int) {
    let p = s.pc as int;
    let zp = s.mem[p + 1] as int;
    let base = s.mem[p + 1] + 256 * s.mem[p + 2];
    let zx = if zp + s.x < 256 { zp + s.x } else { zp + s.x - 256 };
    let zy = if zp + s.y < 256 { zp + s.y } else { zp + s.y - 256 };
    let ptr_x = s.mem[zx] + 256 * s.mem[if zx == 255 { 0 } else { zx + 1 }];
    let ptr_y = s.mem[zp] + 256 * s.mem[if zp == 255 { 0 } else { zp + 1 }];
    (
        zp,
        zx,
        zy,
        base,
        if base + s.x < 0x10000 { base + s.x } else { base + s.x - 0x10000 },
        if base + s.y < 0x10000 { base + s.y } else { base + s.y - 0x10000 },
        ptr_x,
        if ptr_y + s.y < 0x10000 { ptr_y + s.y } else { ptr_y + s.y - 0x10000 },
    )
}

/// `s` with the program counter moved past the opcode byte.
spec fn after_opcode(s: CpuState) -> CpuState {
    CpuState { pc: (s.pc + 1) as u16, ..s }
}

/// The LDA opcodes: a cycle on 0xA9, 0xA5, 0xB5, 0xAD, 0xBD, 0xB9, 0xA1 or
/// 0xB1 loads the accumulator from the immediate byte, zero page, zero page +
/// X, absolute, absolute + X, absolute + Y, (zero page + X) indirect or (zero
/// page) indirect + Y, and moves the program counter past the two-byte
/// (immediate, zero page, indirect) or three-byte (absolute) instruction.
pub proof fn lemma_step_lda_opcodes(s: CpuState)
    ensures
        ({
            let p = s.pc as int;
            let code = s.mem[p];
            let (zp, zx, zy, abs, abs_x, abs_y, ind_x, ind_y) = addresses_after_opcode(s);
            &&& code == 0xA9 && p + 2 <= 0xFFFF ==> (step(s) matches Step::Continue(t) && loads_a(
                s,
                t,
                p + 1,
                2,
            ))
            &&& code == 0xA5 && p + 2 <= 0xFFFF ==> (step(s) matches Step::Continue(t) && loads_a(
                s,
                t,
                zp,
                2,
            ))
            &&& code == 0xB5 && p + 2 <= 0xFFFF ==> (step(s) matches Step::Continue(t) && loads_a(
                s,
                t,
                zx,
                2,
            ))
            &&& code == 0xAD && p + 3 <= 0xFFFF ==> (step(s) matches Step::Continue(t) && loads_a(
                s,
                t,
                abs,
                3,
            ))
            &&& code == 0xBD && p + 3 <= 0xFFFF ==> (step(s) matches Step::Continue(t) && loads_a(
                s,
                t,
                abs_x,
                3,
            ))
            &&& code == 0xB9 && p + 3 <= 0xFFFF ==> (step(s) matches Step::Continue(t) && loads_a(
                s,
                t,
                abs_y,
                3,
            ))
            &&& code == 0xA1 && p + 2 <= 0xFFFF ==> (step(s) matches Step::Continue(t) && loads_a(
                s,
                t,
                ind_x,
                2,
            ))
            &&& code == 0xB1 && p + 2 <= 0xFFFF ==> (step(s) matches Step::Continue(t) && loads_a(
                s,
                t,
                ind_y,
                2,
            ))
        }),
{
    if s.pc < 0xFFFF {
        let t = after_opcode(s);
        lemma_operand_address_modes(t);
        lemma_lda_semantics(t, (s.pc + 1) as int);
        lemma_lda_semantics(t, operand_address(t, AddressingMode::ZeroPage));
        lemma_lda_semantics(t, operand_address(t, AddressingMode::ZeroPage_X));
        lemma_lda_semantics(t, operand_address(t, AddressingMode::Absolute));
        lemma_lda_semantics(t, operand_address(t, AddressingMode::Absolute_X));
        lemma_lda_semantics(t, operand_address(t, AddressingMode::Absolute_Y));
        lemma_lda_semantics(t, operand_address(t, AddressingMode::Indirect_X));
        lemma_lda_semantics(t, operand_address(t, AddressingMode::Indirect_Y));
    }
}

/// The STA opcodes: a cycle on 0x85, 0x95, 0x8D, 0x9D, 0x99, 0x81 or 0x91
/// stores the accumulator at zero page, zero page + X, absolute, absolute +
/// X, absolute + Y, (zero page + X) indirect or (zero page) indirect + Y, and
/// moves the program counter past the two- or three-byte instruction.
pub proof fn lemma_step_sta_opcodes(s: CpuState)
    ensures
        ({
            let p = s.pc as int;
            let code = s.mem[p];
            let (zp, zx, zy, abs, abs_x, abs_y, ind_x, ind_y) = addresses_after_opcode(s);
            &&& code == 0x85 && p + 2 <= 0xFFFF ==> (step(s) matches Step::Continue(t)
                && stores_a(s, t, zp, 2))
            &&& code == 0x95 && p + 2 <= 0xFFFF ==> (step(s) matches Step::Continue(t)
                && stores_a(s, t, zx, 2))
            &&& code == 0x8D && p + 3 <= 0xFFFF ==> (step(s) matches Step::Continue(t)
                && stores_a(s, t, abs, 3))
            &&& code == 0x9D && p + 3 <= 0xFFFF ==> (step(s) matches Step::Continue(t)
                && stores_a(s, t, abs_x, 3))
            &&& code == 0x99 && p + 3 <= 0xFFFF ==> (step(s) matches Step::Continue(t)
                && stores_a(s, t, abs_y, 3))
            &&& code == 0x81 && p + 2 <= 0xFFFF ==> (step(s) matches Step::Continue(t)
                && stores_a(s, t, ind_x, 2))
            &&& code == 0x91 && p + 2 <= 0xFFFF ==> (step(s) matches Step::Continue(t)
                && stores_a(s, t, ind_y, 2))
        }),
{
    if s.pc < 0xFFFF {
        lemma_operand_address_modes(after_opcode(s));
    }
}

/// The other opcodes: 0x69 (ADC immediate) adds the next byte and the carry
/// to the accumulator and moves two bytes on; 0xAA (TAX) and 0xE8 (INX) move
/// one byte on; 0x00 (BRK) stops with the program counter one past it and
/// nothing else changed; any other opcode, a fetch at 0xFFFF, and an
/// instruction whose bytes would run past 0xFFFE are faults.
pub proof fn lemma_step_other_opcodes(s: CpuState)
    ensures
        ({
            let p = s.pc as int;
            let code = s.mem[p];
            let v = s.mem[p + 1];
            let c: int = (s.status & 0x01) as int;
            let sa: int = if s.a < 0x80 { s.a as int } else { s.a - 256 };
            let sv: int = if v < 0x80 { v as int } else { v - 256 };
            &&& code == 0x69 && p + 2 <= 0xFFFF ==> (step(s) matches Step::Continue(t) && {
                &&& t.pc == p + 2
                &&& t.a == (s.a + v + c) % 256
                &&& (t.status & 0x01 != 0) == (s.a + v + c > 0xFF)
                &&& (t.status & 0x40 != 0) == (sa + sv + c < -128 || sa + sv + c > 127)
                &&& zero_negative_of(s, t, t.a)
                &&& t.x == s.x && t.y == s.y && t.mem == s.mem
            })
            &&& code == 0xAA && p + 1 <= 0xFFFF ==> (step(s) matches Step::Continue(t) && {
                &&& t.pc == p + 1
                &&& t.x == s.a
                &&& zero_negative_of(s, t, t.x)
                &&& carry_overflow_kept(s, t)
                &&& t.a == s.a && t.y == s.y && t.mem == s.mem
            })
            &&& code == 0xE8 && p + 1 <= 0xFFFF ==> (step(s) matches Step::Continue(t) && {
                &&& t.pc == p + 1
                &&& t.x == (if s.x == 0xFF { 0 } else { s.x + 1 })
                &&& zero_negative_of(s, t, t.x)
                &&& carry_overflow_kept(s, t)
                &&& t.a == s.a && t.y == s.y && t.mem == s.mem
            })
            &&& code == 0x00 && p + 1 <= 0xFFFF ==> step(s) == Step::Halt(
                CpuState { pc: (s.pc + 1) as u16, ..s },
            )
            &&& p == 0xFFFF ==> step(s) is Fault
            &&& (code == 0xA9 || code == 0xA5 || code == 0xB5 || code == 0xA1 || code == 0xB1
                || code == 0x85 || code == 0x95 || code == 0x81 || code == 0x91 || code == 0x69)
                && p + 2 > 0xFFFF ==> step(s) is Fault
            &&& (code == 0xAD || code == 0xBD || code == 0xB9 || code == 0x8D || code == 0x9D
                || code == 0x99) && p + 3 > 0xFFFF ==> step(s) is Fault
            &&& !(code == 0x00 || code == 0xAA || code == 0xE8 || code == 0x69 || code == 0xA9
                || code == 0xA5 || code == 0xB5 || code == 0xAD || code == 0xBD || code == 0xB9
                || code == 0xA1 || code == 0xB1 || code == 0x85 || code == 0x95 || code == 0x8D
                || code == 0x9D || code == 0x99 || code == 0x81 || code == 0x91) ==> step(s) is Fault
        }),
{
    if s.pc < 0xFFFF {
        let t = after_opcode(s);
        lemma_adc_semantics(t, (s.pc + 1) as int);
        lemma_tax_semantics(t);
        lemma_inx_semantics(t);
    }
}

} // verus!
