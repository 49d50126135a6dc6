use vstd::prelude::*;

use crate::decode::{decoded, Instruction};
use crate::keypad::{first_just_pressed, is_down, KeyState};
use crate::screen::{collides, drawn, lemma_draw_twice, sprite_cell, visible_rows};

verus! {

/// Bytes of addressable memory.
pub const MEMORY_BYTES: usize = 4096;

/// Address at which a program is loaded and execution starts.
pub const PROGRAM_START: usize = 0x200;

/// Address of the first font glyph.
pub const FONT_START: usize = 0;

/// Opcode behaviours on which historical machines differ, fixed when the
/// machine is built.
#[derive(PartialEq, Eq, Structural, Clone, Copy, Debug)]
pub struct Quirks {
    /// BNNN jumps to NNN + V0 instead of NNN + VX.
    pub offset_jump_uses_v0: bool,
    /// 8XY1, 8XY2 and 8XY3 also set VF to 0.
    pub logic_resets_flag: bool,
    /// 8XY6 and 8XYE shift VY into VX instead of shifting VX in place.
    pub shift_reads_vy: bool,
}

/// A condition that stops the machine.
#[derive(PartialEq, Eq, Structural, Clone, Copy, Debug)]
pub enum Fault {
    /// 00EE with no subroutine to return from.
    ReturnWithEmptyStack,
    /// A 0NNN native machine routine call.
    MachineRoutine { nnn: u16 },
    /// An access to memory at or past its end; `address` is the first such byte.
    AddressOutOfRange { address: usize },
}

/// What one step of the machine did.
#[derive(PartialEq, Eq, Structural, Clone, Copy, Debug)]
pub enum StepOutcome {
    /// A key wait is pending and no key went down: nothing happened.
    Waiting,
    /// The instruction was carried out.
    Executed(Instruction),
    /// The word matched no instruction; it was skipped.
    Unrecognized(u16),
}

/// The whole state of the machine, as the contracts see it.
pub struct Machine {
    pub memory: Seq<u8>,
    pub registers: Seq<u8>,
    pub index: u16,
    pub pc: u16,
    pub stack: Seq<u16>,
    pub delay: u8,
    pub sound: u8,
    /// Lit framebuffer cells, by flat index `y * 64 + x`.
    pub screen: Set<nat>,
    pub keys: Seq<KeyState>,
    /// The register that a pending key wait will fill.
    pub waiting: Option<u8>,
}

/// Sum and carry flag of 8-bit addition.
pub open spec fn add_with_carry(a: u8, b: u8) -> (u8, u8) {
    (((a + b) % 256) as u8, if a + b > 255 { 1u8 } else { 0u8 })
}

/// Difference and no-borrow flag of 8-bit subtraction `a - b`.
pub open spec fn sub_with_borrow(a: u8, b: u8) -> (u8, u8) {
    (((a - b) % 256) as u8, if a >= b { 1u8 } else { 0u8 })
}

/// `v` shifted right by one, and the bit shifted out.
pub open spec fn shift_right(v: u8) -> (u8, u8) {
    (v >> 1u8, v & 1u8)
}

/// `v` shifted left by one, and the bit shifted out.
pub open spec fn shift_left(v: u8) -> (u8, u8) {
    (v << 1u8, (v >> 7u8) & 1u8)
}

/// The first address of `[start, start + len)` that lies outside memory.
pub open spec fn first_outside(start: int) -> int {
    if start >= 4096 { start } else { 4096 }
}

pub open spec fn with_register(m: Machine, x: u8, v: u8) -> Machine {
    Machine { registers: m.registers.update(x as int, v), ..m }
}

/// VX gets `r.0`, then VF gets the flag `r.1`.
pub open spec fn with_flagged(m: Machine, x: u8, r: (u8, u8)) -> Machine {
    Machine { registers: m.registers.update(x as int, r.0).update(15, r.1), ..m }
}

pub open spec fn with_logic(q: Quirks, m: Machine, x: u8, v: u8) -> Machine {
    if q.logic_resets_flag {
        with_flagged(m, x, (v, 0u8))
    } else {
        with_register(m, x, v)
    }
}

/// Skips the next instruction when `cond` holds.
pub open spec fn skip_if(m: Machine, cond: bool) -> Machine {
    if cond {
        Machine { pc: (m.pc + 2) as u16, ..m }
    } else {
        m
    }
}

pub open spec fn shift_source(q: Quirks, m: Machine, x: u8, y: u8) -> u8 {
    if q.shift_reads_vy { m.registers[y as int] } else { m.registers[x as int] }
}

/// The decimal digits of `v`: hundreds, tens, ones.
pub open spec fn bcd(v: u8) -> (u8, u8, u8) {
    (v / 100, (v / 10) % 10, v % 10)
}

/// The effect of a register arithmetic, logic or load instruction.
pub open spec fn apply_alu(q: Quirks, m: Machine, ins: Instruction, rnd: u8) -> Machine {
    let v = m.registers;
    match ins {
        Instruction::Load { x, nn } => with_register(m, x, nn),
        Instruction::AddConst { x, nn } => with_register(m, x, add_with_carry(v[x as int], nn).0),
        Instruction::Assign { x, y } => with_register(m, x, v[y as int]),
        Instruction::Or { x, y } => with_logic(q, m, x, v[x as int] | v[y as int]),
        Instruction::And { x, y } => with_logic(q, m, x, v[x as int] & v[y as int]),
        Instruction::Xor { x, y } => with_logic(q, m, x, v[x as int] ^ v[y as int]),
        Instruction::Add { x, y } => with_flagged(m, x, add_with_carry(v[x as int], v[y as int])),
        Instruction::Sub { x, y } => with_flagged(m, x, sub_with_borrow(v[x as int], v[y as int])),
        Instruction::SubReverse { x, y } => with_flagged(m, x, sub_with_borrow(v[y as int], v[x as int])),
        Instruction::ShiftRight { x, y } => with_flagged(m, x, shift_right(shift_source(q, m, x, y))),
        Instruction::ShiftLeft { x, y } => with_flagged(m, x, shift_left(shift_source(q, m, x, y))),
        Instruction::Random { x, nn } => with_register(m, x, rnd & nn),
        _ => m,
    }
}

/// The effect of a screen clear, jump, call, return or skip.
pub open spec fn apply_flow(q: Quirks, m: Machine, ins: Instruction) -> Result<Machine, Fault> {
    let v = m.registers;
    match ins {
        Instruction::ClearScreen => Ok(Machine { screen: Set::empty(), ..m }),
        Instruction::Return => if m.stack.len() == 0 {
            Err(Fault::ReturnWithEmptyStack)
        } else {
            Ok(Machine { pc: m.stack.last(), stack: m.stack.drop_last(), ..m })
        },
        Instruction::MachineCall { nnn } => Err(Fault::MachineRoutine { nnn }),
        Instruction::Jump { nnn } => Ok(Machine { pc: nnn, ..m }),
        Instruction::Call { nnn } => Ok(Machine { pc: nnn, stack: m.stack.push(m.pc), ..m }),
        Instruction::SkipIfEqual { x, nn } => Ok(skip_if(m, v[x as int] == nn)),
        Instruction::SkipIfNotEqual { x, nn } => Ok(skip_if(m, v[x as int] != nn)),
        Instruction::SkipIfRegsEqual { x, y } => Ok(skip_if(m, v[x as int] == v[y as int])),
        Instruction::SkipIfRegsNotEqual { x, y } => Ok(skip_if(m, v[x as int] != v[y as int])),
        Instruction::JumpOffset { x, nnn } => {
            let r = if q.offset_jump_uses_v0 { 0int } else { x as int };
            Ok(Machine { pc: (nnn + v[r]) as u16, ..m })
        },
        _ => Ok(m),
    }
}

/// The effect of a draw, key, timer, index register or memory instruction.
pub open spec fn apply_other(m: Machine, ins: Instruction) -> Result<Machine, Fault> {
    let v = m.registers;
    let i = m.index as int;
    match ins {
        Instruction::SetIndex { nnn } => Ok(Machine { index: nnn, ..m }),
        Instruction::Draw { x, y, n } => {
            let x0 = v[x as int] % 64;
            let y0 = v[y as int] % 32;
            if i + visible_rows(y0 as int, n as int) > 4096 {
                Err(Fault::AddressOutOfRange { address: first_outside(i) as usize })
            } else {
                let hit = collides(m.screen, m.memory, i, x0 as int, y0 as int, n as int);
                Ok(
                    Machine {
                        screen: drawn(m.screen, m.memory, i, x0 as int, y0 as int, n as int),
                        registers: v.update(15, if hit { 1u8 } else { 0u8 }),
                        ..m
                    },
                )
            }
        },
        Instruction::SkipIfKey { x } => Ok(skip_if(m, is_down(m.keys[(v[x as int] % 16) as int]))),
        Instruction::SkipIfNotKey { x } => Ok(skip_if(m, !is_down(m.keys[(v[x as int] % 16) as int]))),
        Instruction::ReadDelay { x } => Ok(with_register(m, x, m.delay)),
        Instruction::WaitKey { x } => Ok(Machine { waiting: Some(x), ..m }),
        Instruction::SetDelay { x } => Ok(Machine { delay: v[x as int], ..m }),
        Instruction::SetSound { x } => Ok(Machine { sound: v[x as int], ..m }),
        Instruction::AddIndex { x } => Ok(Machine { index: ((m.index + v[x as int]) % 65536) as u16, ..m }),
        Instruction::FontGlyph { x } => Ok(Machine { index: (FONT_START + (v[x as int] % 16) * 5) as u16, ..m }),
        Instruction::StoreBcd { x } => if i + 3 > 4096 {
            Err(Fault::AddressOutOfRange { address: first_outside(i) as usize })
        } else {
            let (h, t, o) = bcd(v[x as int]);
            Ok(Machine { memory: m.memory.update(i, h).update(i + 1, t).update(i + 2, o), ..m })
        },
        Instruction::StoreRegs { x } => if i + x + 1 > 4096 {
            Err(Fault::AddressOutOfRange { address: first_outside(i) as usize })
        } else {
            Ok(
                Machine {
                    memory: Seq::new(m.memory.len(), |a: int| if i <= a <= i + x { v[a - i] } else { m.memory[a] }),
                    ..m
                },
            )
        },
        Instruction::LoadRegs { x } => if i + x + 1 > 4096 {
            Err(Fault::AddressOutOfRange { address: first_outside(i) as usize })
        } else {
            Ok(
                Machine {
                    registers: Seq::new(v.len(), |r: int| if r <= x { m.memory[i + r] } else { v[r] }),
                    ..m
                },
            )
        },
        _ => Ok(m),
    }
}

/// Instructions that change registers only.
pub open spec fn is_alu_op(i: Instruction) -> bool {
    ||| i is Load
    ||| i is AddConst
    ||| i is Assign
    ||| i is Or
    ||| i is And
    ||| i is Xor
    ||| i is Add
    ||| i is Sub
    ||| i is SubReverse
    ||| i is ShiftRight
    ||| i is ShiftLeft
    ||| i is Random
}

/// Instructions that clear the screen or steer the program counter.
pub open spec fn is_flow_op(i: Instruction) -> bool {
    ||| i is ClearScreen
    ||| i is Return
    ||| i is MachineCall
    ||| i is Jump
    ||| i is Call
    ||| i is JumpOffset
    ||| i is SkipIfEqual
    ||| i is SkipIfNotEqual
    ||| i is SkipIfRegsEqual
    ||| i is SkipIfRegsNotEqual
}

/// The effect of one instruction on `m`, whose program counter already
/// points past it. `rnd` is the random byte that CXNN uses. An unknown
/// word changes nothing.
pub open spec fn apply(q: Quirks, m: Machine, ins: Instruction, rnd: u8) -> Result<Machine, Fault> {
    if is_alu_op(ins) {
        Ok(apply_alu(q, m, ins, rnd))
    } else if is_flow_op(ins) {
        apply_flow(q, m, ins)
    } else {
        apply_other(m, ins)
    }
}

/// A pending key wait, resolved by the lowest key that went down on the
/// latest frame; `None` while it stays unresolved.
pub open spec fn resolve_wait(m: Machine) -> Option<Machine> {
    match m.waiting {
        None => Some(m),
        Some(r) => match first_just_pressed(m.keys, 0) {
            None => None,
            Some(k) => Some(Machine { registers: m.registers.update(r as int, k), waiting: None, ..m }),
        },
    }
}

/// The big-endian instruction word at `pc`.
pub open spec fn word_at(mem: Seq<u8>, pc: int) -> u16 {
    (mem[pc] * 256 + mem[pc + 1]) as u16
}

/// One step: resolve a pending key wait or idle, then fetch the word at the
/// program counter, advance it by 2, decode and execute.
#[verifier::opaque]
pub open spec fn step_spec(q: Quirks, m: Machine, rnd: u8) -> Result<(Machine, StepOutcome), Fault> {
    match resolve_wait(m) {
        None => Ok((m, StepOutcome::Waiting)),
        Some(m1) => if m1.pc + 2 > 4096 {
            Err(Fault::AddressOutOfRange { address: first_outside(m1.pc as int) as usize })
        } else {
            let w = word_at(m1.memory, m1.pc as int);
            let ins = decoded(w);
            match apply(q, Machine { pc: (m1.pc + 2) as u16, ..m1 }, ins, rnd) {
                Ok(m2) => Ok((m2, if ins is Unknown { StepOutcome::Unrecognized(w) } else { StepOutcome::Executed(ins) })),
                Err(f) => Err(f),
            }
        },
    }
}

/// `m1` is reached from `m0` by steps whose outcomes are `outs`, in order.
pub open spec fn runs(q: Quirks, m0: Machine, outs: Seq<StepOutcome>, m1: Machine) -> bool
    decreases outs.len(),
{
    if outs.len() == 0 {
        m0 == m1
    } else {
        exists|mid: Machine, rnd: u8|
            runs(q, m0, outs.drop_last(), mid) && #[trigger] step_spec(q, mid, rnd) == Ok::<(Machine, StepOutcome), Fault>((m1, outs.last()))
    }
}

/// 8XY4 sets VX to `(a + b) mod 256` and the flag to 1 exactly when
/// `a + b > 255`; 8XY5 sets VX to `(a - b) mod 256` and the flag to 1
/// exactly when `a >= b`, where `a` is VX and `b` is VY before the step.
/// When X is F the flag is what stays in VF.
pub proof fn lemma_add_sub_flags(q: Quirks, m: Machine, x: u8, y: u8, rnd: u8)
    requires
        m.registers.len() == 16,
        x < 16,
        y < 16,
    ensures
        ({
            let (a, b) = (m.registers[x as int], m.registers[y as int]);
            &&& apply(q, m, Instruction::Add { x, y }, rnd) matches Ok(r) && r.registers[15] == (if a + b > 255 { 1u8 } else { 0u8 })
                && (x != 15 ==> r.registers[x as int] == (a + b) % 256)
            &&& apply(q, m, Instruction::Sub { x, y }, rnd) matches Ok(r) && r.registers[15] == (if a >= b { 1u8 } else { 0u8 })
                && (x != 15 ==> r.registers[x as int] == (a - b) % 256)
        }),
{
}

/// 8XY6 and 8XYE leave in VF exactly the bit shifted out of their source
/// (VX, or VY under the shift quirk): its lowest bit for a right shift, its
/// highest for a left shift, whatever the shifted value becomes, and also
/// when X is F.
pub proof fn lemma_shift_flags(q: Quirks, m: Machine, x: u8, y: u8, rnd: u8)
    requires
        m.registers.len() == 16,
        x < 16,
        y < 16,
    ensures
        ({
            let s = shift_source(q, m, x, y);
            &&& apply(q, m, Instruction::ShiftRight { x, y }, rnd) matches Ok(r) && r.registers[15] == s % 2
                && (x != 15 ==> r.registers[x as int] == s / 2)
            &&& apply(q, m, Instruction::ShiftLeft { x, y }, rnd) matches Ok(r) && r.registers[15] == s / 128
                && (x != 15 ==> r.registers[x as int] == (s * 2) % 256)
        }),
{
    let s = shift_source(q, m, x, y);
    assert(s >> 1u8 == s / 2 && s & 1u8 == s % 2) by (bit_vector);
    assert(s << 1u8 == (s * 2) % 256 && (s >> 7u8) & 1u8 == s / 128) by (bit_vector);
}

/// A call returns to the instruction right after it. When the word at the
/// program counter is 2NNN, the step jumps to NNN and pushes the address
/// after the call. A later 00EE that finds the stack as the call left it
/// (subroutines called in between pop what they push, so at any depth)
/// resumes there with the stack as it was before the call. A 00EE on an
/// empty stack faults.
pub proof fn lemma_call_return(q: Quirks, m: Machine, n: Machine, rnd: u8, rnd2: u8)
    requires
        m.waiting is None,
        m.pc + 2 <= 4096,
        decoded(word_at(m.memory, m.pc as int)) is Call,
        n.waiting is None,
        n.pc + 2 <= 4096,
        word_at(n.memory, n.pc as int) == 0x00EE,
        n.stack == m.stack.push((m.pc + 2) as u16),
    ensures
        step_spec(q, m, rnd) matches Ok((r, _)) && r.stack == n.stack && r.pc == decoded(
            word_at(m.memory, m.pc as int),
        )->Call_nnn,
        step_spec(q, n, rnd2) == Ok::<(Machine, StepOutcome), Fault>(
            (Machine { pc: (m.pc + 2) as u16, stack: m.stack, ..n }, StepOutcome::Executed(Instruction::Return)),
        ),
        n.stack.len() == 1 ==> step_spec(q, Machine { stack: Seq::empty(), ..n }, rnd2) == Err::<(Machine, StepOutcome), Fault>(
            Fault::ReturnWithEmptyStack,
        ),
{
    reveal(step_spec);
    assert(n.stack.drop_last() =~= m.stack);
}

/// Drawing one sprite twice, with the origin registers other than VF, gives
/// back the framebuffer as it was, and after the second drawing VF is 1
/// exactly when the first one lit some pixel, which the second turns off.
pub proof fn lemma_draw_twice_restores(q: Quirks, m: Machine, x: u8, y: u8, h: u8, rnd: u8)
    requires
        m.registers.len() == 16,
        x < 15,
        y < 15,
        h < 16,
    ensures
        apply(q, m, Instruction::Draw { x, y, n: h }, rnd) matches Ok(m1) ==> ({
            let x0 = m.registers[x as int] % 64;
            let y0 = m.registers[y as int] % 32;
            apply(q, m1, Instruction::Draw { x, y, n: h }, rnd) matches Ok(m2) && m2.screen == m.screen
                && m2.registers[15] == (if exists|c: nat|
                sprite_cell(m.memory, m.index as int, x0 as int, y0 as int, h as int, c as int) && !#[trigger] m.screen.contains(c) {
                1u8
            } else {
                0u8
            })
        }),
{
    let x0 = m.registers[x as int] % 64;
    let y0 = m.registers[y as int] % 32;
    lemma_draw_twice(m.screen, m.memory, m.index as int, x0 as int, y0 as int, h as int);
}

} // verus!
