use vstd::prelude::*;

use crate::decode::{decode, operands_valid, Instruction};
use crate::keypad::{next_state, KeyState, Keypad};
use crate::machine::{
    add_with_carry, apply, apply_alu, apply_flow, apply_other, is_alu_op, is_flow_op, runs, shift_source, skip_if,
    step_spec, sub_with_borrow, with_flagged, with_logic, with_register, Fault, Machine, Quirks, StepOutcome,
    FONT_START, MEMORY_BYTES, PROGRAM_START,
};
use crate::screen::Screen;
use crate::timers::{after_ticks, pace, Pacer, Timers, TIMER_HZ};

verus! {

/// Instructions executed per second of host time.
pub const TARGET_OPS_PER_SECOND: u64 = 650;

/// The hexadecimal digit glyphs 0..F, five rows each, most significant bit
/// leftmost.
pub const STANDARD_FONT: [u8; 80] = [
    0xF0, 0x90, 0x90, 0x90, 0xF0,
    0x20, 0x60, 0x20, 0x20, 0x70,
    0xF0, 0x10, 0xF0, 0x80, 0xF0,
    0xF0, 0x10, 0xF0, 0x10, 0xF0,
    0x90, 0x90, 0xF0, 0x10, 0x10,
    0xF0, 0x80, 0xF0, 0x10, 0xF0,
    0xF0, 0x80, 0xF0, 0x90, 0xF0,
    0xF0, 0x10, 0x20, 0x40, 0x40,
    0xF0, 0x90, 0xF0, 0x90, 0xF0,
    0xF0, 0x90, 0xF0, 0x10, 0xF0,
    0xF0, 0x90, 0xF0, 0x90, 0x90,
    0xE0, 0x90, 0xE0, 0x90, 0xE0,
    0xF0, 0x80, 0x80, 0x80, 0xF0,
    0xE0, 0x90, 0x90, 0x90, 0xE0,
    0xF0, 0x80, 0xF0, 0x80, 0xF0,
    0xF0, 0x80, 0xF0, 0x80, 0x80,
];

/// Relies on `rand::random_range`: some byte drawn from the thread-local
/// generator. Nothing is known of which.
#[verifier::external_body]
fn random_byte() -> (r: u8) {
    rand::random_range(0..=u8::MAX)
}

fn wrapping_sum(a: u8, b: u8) -> (r: u8)
    ensures
        r == add_with_carry(a, b).0,
{
    a.wrapping_add(b)
}

fn wrapping_difference(a: u8, b: u8) -> (r: u8)
    ensures
        r == sub_with_borrow(a, b).0,
{
    a.wrapping_sub(b)
}

fn zeroed(n: usize) -> (r: Vec<u8>)
    ensures
        r@ == Seq::new(n as nat, |i: int| 0u8),
{
    let mut r: Vec<u8> = Vec::new();
    let mut i: usize = 0;
    while i < n
        invariant
            i <= n,
            r@ == Seq::new(i as nat, |j: int| 0u8),
        decreases n - i,
    {
        r.push(0);
        i += 1;
        assert(r@ =~= Seq::new(i as nat, |j: int| 0u8));
    }
    r
}

/// The state at the start of a frame's steps: the timers have ticked
/// `ticks` times and the keys have advanced once from `held`.
pub open spec fn frame_start(m: Machine, ticks: nat, held: Seq<bool>) -> Machine {
    Machine {
        delay: after_ticks(m.delay as nat, ticks) as u8,
        sound: after_ticks(m.sound as nat, ticks) as u8,
        keys: Seq::new(16, |k: int| next_state(m.keys[k], held[k])),
        ..m
    }
}

/// The virtual machine: memory, registers, call stack, framebuffer, timers
/// and keypad, and the two pacers that drive it from host time.
pub struct Emulator {
    memory: Vec<u8>,
    registers: Vec<u8>,
    index_register: u16,
    program_counter: u16,
    stack: Vec<u16>,
    timers: Timers,
    screen: Screen,
    keypad: Keypad,
    awaiting_key: Option<u8>,
    quirks: Quirks,
    timer_pacer: Pacer,
    cycle_pacer: Pacer,
}

impl Emulator {
    /// The machine state.
    pub closed spec fn view(&self) -> Machine {
        Machine {
            memory: self.memory@,
            registers: self.registers@,
            index: self.index_register,
            pc: self.program_counter,
            stack: self.stack@,
            delay: self.timers.delay,
            sound: self.timers.sound,
            screen: self.screen.view(),
            keys: self.keypad.view(),
            waiting: self.awaiting_key,
        }
    }

    /// The opcode behaviours chosen at construction.
    pub closed spec fn quirks(&self) -> Quirks {
        self.quirks
    }

    /// The timer pacer's carried fraction of a tick.
    pub closed spec fn timer_carry(&self) -> nat {
        self.timer_pacer.carry()
    }

    /// The instruction pacer's carried fraction of a cycle.
    pub closed spec fn cycle_carry(&self) -> nat {
        self.cycle_pacer.carry()
    }

    pub closed spec fn wf(&self) -> bool {
        &&& self.memory@.len() == 4096
        &&& self.registers@.len() == 16
        &&& self.screen.wf()
        &&& self.keypad.wf()
        &&& self.timer_pacer.wf()
        &&& self.timer_pacer.rate() == TIMER_HZ
        &&& self.cycle_pacer.wf()
        &&& self.cycle_pacer.rate() == TARGET_OPS_PER_SECOND
        &&& self.awaiting_key matches Some(r) ==> r < 16
        &&& forall|c: nat| #[trigger] self.view().screen.contains(c) ==> c < 2048
    }

    /// A machine with the given quirks: memory, registers, stack and timers
    /// zeroed, screen off, keys released, execution to start at 0x200.
    pub fn with_quirks(quirks: Quirks) -> (r: Emulator)
        ensures
            r.wf(),
            r.quirks() == quirks,
            r.view().memory == Seq::new(4096, |i: int| 0u8),
            r.view().registers == Seq::new(16, |i: int| 0u8),
            r.view().index == 0,
            r.view().pc == PROGRAM_START,
            r.view().stack.len() == 0,
            r.view().delay == 0,
            r.view().sound == 0,
            r.view().screen == Set::<nat>::empty(),
            r.view().keys == Seq::new(16, |i: int| KeyState::Inactive),
            r.view().waiting is None,
            r.timer_carry() == 0,
            r.cycle_carry() == 0,
    {
        let keypad = Keypad::new();
        assert(keypad.view() =~= Seq::new(16, |i: int| KeyState::Inactive));
        Emulator {
            memory: zeroed(MEMORY_BYTES),
            registers: zeroed(16),
            index_register: 0,
            program_counter: PROGRAM_START as u16,
            stack: Vec::new(),
            timers: Timers::new(),
            screen: Screen::new(),
            keypad,
            awaiting_key: None,
            quirks,
            timer_pacer: Pacer::new(TIMER_HZ),
            cycle_pacer: Pacer::new(TARGET_OPS_PER_SECOND),
        }
    }

    /// A machine with no quirk switched on: BNNN adds VX, the bitwise
    /// group leaves VF alone, and shifts work on VX in place.
    pub fn new() -> (r: Emulator)
        ensures
            r.wf(),
            r.quirks() == (Quirks { offset_jump_uses_v0: false, logic_resets_flag: false, shift_reads_vy: false }),
            r.view().memory == Seq::new(4096, |i: int| 0u8),
            r.view().registers == Seq::new(16, |i: int| 0u8),
            r.view().index == 0,
            r.view().pc == PROGRAM_START,
            r.view().stack.len() == 0,
            r.view().delay == 0,
            r.view().sound == 0,
            r.view().screen == Set::<nat>::empty(),
            r.view().keys == Seq::new(16, |i: int| KeyState::Inactive),
            r.view().waiting is None,
            r.timer_carry() == 0,
            r.cycle_carry() == 0,
    {
        Emulator::with_quirks(Quirks { offset_jump_uses_v0: false, logic_resets_flag: false, shift_reads_vy: false })
    }

    /// Writes `data` into memory from `start` on.
    fn write_memory(&mut self, start: usize, data: &[u8])
        requires
            old(self).wf(),
            start + data@.len() <= 4096,
        ensures
            final(self).wf(),
            final(self).quirks() == old(self).quirks(),
            final(self).timer_carry() == old(self).timer_carry(),
            final(self).cycle_carry() == old(self).cycle_carry(),
            final(self).view() == (Machine {
                memory: Seq::new(4096, |a: int| if start <= a < start + data@.len() { data@[a - start] } else { old(self).view().memory[a] }),
                ..old(self).view()
            }),
    {
        let mut i: usize = 0;
        assert(self.memory@ =~= Seq::new(4096, |a: int| if start <= a < start + i { data@[a - start] } else { old(self).view().memory[a] }));
        while i < data.len()
            invariant
                self.wf(),
                i <= data@.len(),
                start + data@.len() <= 4096,
                self.quirks() == old(self).quirks(),
                self.timer_carry() == old(self).timer_carry(),
                self.cycle_carry() == old(self).cycle_carry(),
                self.view() == (Machine {
                    memory: Seq::new(4096, |a: int| if start <= a < start + i { data@[a - start] } else { old(self).view().memory[a] }),
                    ..old(self).view()
                }),
            decreases data@.len() - i,
        {
            self.memory[start + i] = data[i];
            i += 1;
            assert(self.memory@ =~= Seq::new(4096, |a: int| if start <= a < start + i { data@[a - start] } else { old(self).view().memory[a] }));
        }
    }

    /// Writes the 80 font bytes to memory from address 0 on.
    pub fn load_font(&mut self, font_data: &[u8; 80])
        requires
            old(self).wf(),
        ensures
            final(self).wf(),
            final(self).quirks() == old(self).quirks(),
            final(self).timer_carry() == old(self).timer_carry(),
            final(self).cycle_carry() == old(self).cycle_carry(),
            final(self).view() == (Machine {
                memory: Seq::new(4096, |a: int| if a < 80 { font_data@[a] } else { old(self).view().memory[a] }),
                ..old(self).view()
            }),
    {
        self.write_memory(FONT_START, font_data.as_slice());
        assert(self.view().memory =~= Seq::new(4096, |a: int| if a < 80 { font_data@[a] } else { old(self).view().memory[a] }));
    }

    /// Writes a program to memory from address 0x200 on; it must fit.
    pub fn load_program(&mut self, data: &[u8])
        requires
            old(self).wf(),
            PROGRAM_START + data@.len() <= MEMORY_BYTES,
        ensures
            final(self).wf(),
            final(self).quirks() == old(self).quirks(),
            final(self).timer_carry() == old(self).timer_carry(),
            final(self).cycle_carry() == old(self).cycle_carry(),
            final(self).view() == (Machine {
                memory: Seq::new(4096, |a: int| if 512 <= a < 512 + data@.len() { data@[a - 512] } else { old(self).view().memory[a] }),
                ..old(self).view()
            }),
    {
        self.write_memory(PROGRAM_START, data);
    }

    /// The settings and pacers of `self` are those of `o`.
    pub closed spec fn kept(&self, o: &Emulator) -> bool {
        self.quirks == o.quirks && self.timer_pacer == o.timer_pacer && self.cycle_pacer == o.cycle_pacer
    }

    fn set_register(&mut self, x: u8, v: u8)
        requires
            old(self).wf(),
            x < 16,
        ensures
            final(self).wf(),
            final(self).kept(old(self)),
            final(self).view() == with_register(old(self).view(), x, v),
    {
        self.registers[x as usize] = v;
    }

    fn set_flagged(&mut self, x: u8, v: u8, flag: u8)
        requires
            old(self).wf(),
            x < 16,
        ensures
            final(self).wf(),
            final(self).kept(old(self)),
            final(self).view() == with_flagged(old(self).view(), x, (v, flag)),
    {
        self.registers[x as usize] = v;
        self.registers[15] = flag;
    }

    fn skip_next_if(&mut self, cond: bool)
        requires
            old(self).wf(),
            old(self).view().pc <= 0xFFFD,
        ensures
            final(self).wf(),
            final(self).kept(old(self)),
            final(self).view() == skip_if(old(self).view(), cond),
    {
        if cond {
            self.program_counter = self.program_counter + 2;
        }
    }

    fn logic(&mut self, x: u8, v: u8)
        requires
            old(self).wf(),
            x < 16,
        ensures
            final(self).wf(),
            final(self).kept(old(self)),
            final(self).view() == with_logic(old(self).quirks(), old(self).view(), x, v),
    {
        if self.quirks.logic_resets_flag {
            self.set_flagged(x, v, 0);
        } else {
            self.set_register(x, v);
        }
    }

    fn shift_source(&self, x: u8, y: u8) -> (r: u8)
        requires
            self.wf(),
            x < 16,
            y < 16,
        ensures
            r == shift_source(self.quirks(), self.view(), x, y),
    {
        if self.quirks.shift_reads_vy {
            self.registers[y as usize]
        } else {
            self.registers[x as usize]
        }
    }

    /// DXYN: draws at (VX mod 64, VY mod 32) and sets VF to the collision flag.
    fn op_dxyn(&mut self, x: u8, y: u8, n: u8) -> (r: Result<(), Fault>)
        requires
            old(self).wf(),
            x < 16,
            y < 16,
            n < 16,
        ensures
            final(self).wf(),
            final(self).kept(old(self)),
            match apply_other(old(self).view(), Instruction::Draw { x, y, n }) {
                Ok(m) => r is Ok && final(self).view() == m,
                Err(f) => r == Err::<(), Fault>(f),
            },
    {
        let x0 = self.registers[x as usize] % 64;
        let y0 = self.registers[y as usize] % 32;
        let index = self.index_register as usize;
        let rows: usize = if y0 as usize + n as usize <= 32 { n as usize } else { 32 - y0 as usize };
        if index + rows > MEMORY_BYTES {
            return Err(Fault::AddressOutOfRange { address: if index >= MEMORY_BYTES { index } else { MEMORY_BYTES } });
        }
        let hit = self.screen.draw(&self.memory, index, x0, y0, n);
        self.registers[15] = if hit { 1 } else { 0 };
        Ok(())
    }

    /// FX33: the hundreds, tens and ones digits of VX go to I, I+1 and I+2.
    fn op_fx33(&mut self, x: u8) -> (r: Result<(), Fault>)
        requires
            old(self).wf(),
            x < 16,
        ensures
            final(self).wf(),
            final(self).kept(old(self)),
            match apply_other(old(self).view(), Instruction::StoreBcd { x }) {
                Ok(m) => r is Ok && final(self).view() == m,
                Err(f) => r == Err::<(), Fault>(f),
            },
    {
        let i = self.index_register as usize;
        if i + 3 > MEMORY_BYTES {
            return Err(Fault::AddressOutOfRange { address: if i >= MEMORY_BYTES { i } else { MEMORY_BYTES } });
        }
        let v = self.registers[x as usize];
        self.memory[i] = v / 100;
        self.memory[i + 1] = v / 10 % 10;
        self.memory[i + 2] = v % 10;
        Ok(())
    }

    /// FX55: V0..=VX go to memory from I on.
    fn op_fx55(&mut self, x: u8) -> (r: Result<(), Fault>)
        requires
            old(self).wf(),
            x < 16,
        ensures
            final(self).wf(),
            final(self).kept(old(self)),
            match apply_other(old(self).view(), Instruction::StoreRegs { x }) {
                Ok(m) => r is Ok && final(self).view() == m,
                Err(f) => r == Err::<(), Fault>(f),
            },
    {
        let start = self.index_register as usize;
        if start + x as usize + 1 > MEMORY_BYTES {
            return Err(Fault::AddressOutOfRange { address: if start >= MEMORY_BYTES { start } else { MEMORY_BYTES } });
        }
        let ghost v = self.registers@;
        let ghost mem0 = self.memory@;
        let mut k: usize = 0;
        assert(self.memory@ =~= Seq::new(4096, |a: int| if start <= a < start + k { v[a - start] } else { mem0[a] }));
        while k <= x as usize
            invariant
                self.wf(),
                self.kept(old(self)),
                k <= x + 1,
                x < 16,
                start + x + 1 <= 4096,
                start == old(self).view().index,
                v == old(self).view().registers,
                mem0 == old(self).view().memory,
                self.view() == (Machine {
                    memory: Seq::new(4096, |a: int| if start <= a < start + k { v[a - start] } else { mem0[a] }),
                    ..old(self).view()
                }),
            decreases x + 1 - k,
        {
            self.memory[start + k] = self.registers[k];
            k += 1;
            assert(self.memory@ =~= Seq::new(4096, |a: int| if start <= a < start + k { v[a - start] } else { mem0[a] }));
        }
        assert(self.memory@ =~= Seq::new(mem0.len(), |a: int| if start <= a <= start + x { v[a - start] } else { mem0[a] }));
        Ok(())
    }

    /// FX65: V0..=VX are loaded from memory from I on.
    fn op_fx65(&mut self, x: u8) -> (r: Result<(), Fault>)
        requires
            old(self).wf(),
            x < 16,
        ensures
            final(self).wf(),
            final(self).kept(old(self)),
            match apply_other(old(self).view(), Instruction::LoadRegs { x }) {
                Ok(m) => r is Ok && final(self).view() == m,
                Err(f) => r == Err::<(), Fault>(f),
            },
    {
        let start = self.index_register as usize;
        if start + x as usize + 1 > MEMORY_BYTES {
            return Err(Fault::AddressOutOfRange { address: if start >= MEMORY_BYTES { start } else { MEMORY_BYTES } });
        }
        let ghost v = self.registers@;
        let ghost mem0 = self.memory@;
        let mut k: usize = 0;
        assert(self.registers@ =~= Seq::new(16, |r: int| if r < k { mem0[start + r] } else { v[r] }));
        while k <= x as usize
            invariant
                self.wf(),
                self.kept(old(self)),
                k <= x + 1,
                x < 16,
                start + x + 1 <= 4096,
                start == old(self).view().index,
                v == old(self).view().registers,
                mem0 == old(self).view().memory,
                self.view() == (Machine {
                    registers: Seq::new(16, |r: int| if r < k { mem0[start + r] } else { v[r] }),
                    ..old(self).view()
                }),
            decreases x + 1 - k,
        {
            self.registers[k] = self.memory[start + k];
            k += 1;
            assert(self.registers@ =~= Seq::new(16, |r: int| if r < k { mem0[start + r] } else { v[r] }));
        }
        assert(self.registers@ =~= Seq::new(v.len(), |r: int| if r <= x { mem0[start + r] } else { v[r] }));
        Ok(())
    }

    /// Register arithmetic, logic and loads.
    fn exec_alu(&mut self, ins: Instruction, rnd: u8) -> (r: Result<(), Fault>)
        requires
            old(self).wf(),
            operands_valid(ins),
            old(self).view().pc <= 0xFFFD,
            is_alu_op(ins),
        ensures
            final(self).wf(),
            final(self).kept(old(self)),
            r is Ok,
            final(self).view() == apply_alu(old(self).quirks(), old(self).view(), ins, rnd),
    {
        match ins {
            Instruction::AddConst { .. } | Instruction::Add { .. } | Instruction::Sub { .. }
            | Instruction::SubReverse { .. } | Instruction::ShiftRight { .. } | Instruction::ShiftLeft { .. } => self.exec_arith(ins, rnd),
            _ => self.exec_moves(ins, rnd),
        }
    }

    /// Wrapping arithmetic and shifts, which set the flag.
    fn exec_arith(&mut self, ins: Instruction, rnd: u8) -> (r: Result<(), Fault>)
        requires
            old(self).wf(),
            operands_valid(ins),
            old(self).view().pc <= 0xFFFD,
            ins is AddConst || ins is Add || ins is Sub || ins is SubReverse || ins is ShiftRight || ins is ShiftLeft,
        ensures
            final(self).wf(),
            final(self).kept(old(self)),
            r is Ok,
            final(self).view() == apply_alu(old(self).quirks(), old(self).view(), ins, rnd),
    {
        match ins {
            Instruction::AddConst { x, nn } => {
                let v = wrapping_sum(self.registers[x as usize], nn);
                self.set_register(x, v);
            },
            Instruction::Add { x, y } => {
                let a = self.registers[x as usize];
                let b = self.registers[y as usize];
                let flag: u8 = if a as u16 + b as u16 > 0xFF { 1 } else { 0 };
                self.set_flagged(x, wrapping_sum(a, b), flag);
            },
            Instruction::Sub { x, y } => {
                let a = self.registers[x as usize];
                let b = self.registers[y as usize];
                let flag: u8 = if a >= b { 1 } else { 0 };
                self.set_flagged(x, wrapping_difference(a, b), flag);
            },
            Instruction::SubReverse { x, y } => {
                let a = self.registers[x as usize];
                let b = self.registers[y as usize];
                let flag: u8 = if b >= a { 1 } else { 0 };
                self.set_flagged(x, wrapping_difference(b, a), flag);
            },
            Instruction::ShiftRight { x, y } => {
                let v = self.shift_source(x, y);
                self.set_flagged(x, v >> 1u8, v & 1u8);
            },
            Instruction::ShiftLeft { x, y } => {
                let v = self.shift_source(x, y);
                self.set_flagged(x, v << 1u8, (v >> 7u8) & 1u8);
            },
            _ => {},
        }
        Ok(())
    }

    /// Loads, bitwise logic and the random byte.
    fn exec_moves(&mut self, ins: Instruction, rnd: u8) -> (r: Result<(), Fault>)
        requires
            old(self).wf(),
            operands_valid(ins),
            old(self).view().pc <= 0xFFFD,
            ins is Load || ins is Assign || ins is Or || ins is And || ins is Xor || ins is Random,
        ensures
            final(self).wf(),
            final(self).kept(old(self)),
            r is Ok,
            final(self).view() == apply_alu(old(self).quirks(), old(self).view(), ins, rnd),
    {
        match ins {
            Instruction::Load { x, nn } => {
                self.set_register(x, nn);
            },
            Instruction::Assign { x, y } => {
                let v = self.registers[y as usize];
                self.set_register(x, v);
            },
            Instruction::Or { x, y } => {
                let v = self.registers[x as usize] | self.registers[y as usize];
                self.logic(x, v);
            },
            Instruction::And { x, y } => {
                let v = self.registers[x as usize] & self.registers[y as usize];
                self.logic(x, v);
            },
            Instruction::Xor { x, y } => {
                let v = self.registers[x as usize] ^ self.registers[y as usize];
                self.logic(x, v);
            },
            Instruction::Random { x, nn } => {
                self.set_register(x, rnd & nn);
            },
            _ => {},
        }
        Ok(())
    }

    /// Jumps, calls, returns and skips.
    fn exec_flow(&mut self, ins: Instruction) -> (r: Result<(), Fault>)
        requires
            old(self).wf(),
            operands_valid(ins),
            old(self).view().pc <= 0xFFFD,
            is_flow_op(ins),
        ensures
            final(self).wf(),
            final(self).kept(old(self)),
            match apply_flow(old(self).quirks(), old(self).view(), ins) {
                Ok(m) => r is Ok && final(self).view() == m,
                Err(f) => r == Err::<(), Fault>(f),
            },
    {
        match ins {
            Instruction::ClearScreen => {
                self.screen.clear();
            },
            Instruction::Return => {
                match self.stack.pop() {
                    Some(a) => {
                        self.program_counter = a;
                    },
                    None => {
                        return Err(Fault::ReturnWithEmptyStack);
                    },
                }
            },
            Instruction::MachineCall { nnn } => {
                return Err(Fault::MachineRoutine { nnn });
            },
            Instruction::Jump { nnn } => {
                self.program_counter = nnn;
            },
            Instruction::Call { nnn } => {
                self.stack.push(self.program_counter);
                self.program_counter = nnn;
            },
            Instruction::SkipIfEqual { x, nn } => {
                let c = self.registers[x as usize] == nn;
                self.skip_next_if(c);
            },
            Instruction::SkipIfNotEqual { x, nn } => {
                let c = self.registers[x as usize] != nn;
                self.skip_next_if(c);
            },
            Instruction::SkipIfRegsEqual { x, y } => {
                let c = self.registers[x as usize] == self.registers[y as usize];
                self.skip_next_if(c);
            },
            Instruction::SkipIfRegsNotEqual { x, y } => {
                let c = self.registers[x as usize] != self.registers[y as usize];
                self.skip_next_if(c);
            },
            Instruction::JumpOffset { x, nnn } => {
                let r = if self.quirks.offset_jump_uses_v0 { 0 } else { x as usize };
                self.program_counter = nnn + self.registers[r] as u16;
            },
            _ => {},
        }
        Ok(())
    }

    /// Display, keys, timers, the index register and memory.
    fn exec_other(&mut self, ins: Instruction) -> (r: Result<(), Fault>)
        requires
            old(self).wf(),
            operands_valid(ins),
            old(self).view().pc <= 0xFFFD,
            !is_alu_op(ins) && !is_flow_op(ins),
        ensures
            final(self).wf(),
            final(self).kept(old(self)),
            match apply_other(old(self).view(), ins) {
                Ok(m) => r is Ok && final(self).view() == m,
                Err(f) => r == Err::<(), Fault>(f),
            },
    {
        match ins {
            Instruction::SetIndex { nnn } => {
                self.index_register = nnn;
            },
            Instruction::Draw { x, y, n } => {
                return self.op_dxyn(x, y, n);
            },
            Instruction::SkipIfKey { x } => {
                let c = self.keypad.is_pressed(self.registers[x as usize] % 16);
                self.skip_next_if(c);
            },
            Instruction::SkipIfNotKey { x } => {
                let c = !self.keypad.is_pressed(self.registers[x as usize] % 16);
                self.skip_next_if(c);
            },
            Instruction::ReadDelay { x } => {
                let v = self.timers.delay;
                self.set_register(x, v);
            },
            Instruction::WaitKey { x } => {
                self.awaiting_key = Some(x);
            },
            Instruction::SetDelay { x } => {
                self.timers.delay = self.registers[x as usize];
            },
            Instruction::SetSound { x } => {
                self.timers.sound = self.registers[x as usize];
            },
            Instruction::AddIndex { x } => {
                self.index_register = self.index_register.wrapping_add(self.registers[x as usize] as u16);
            },
            Instruction::FontGlyph { x } => {
                self.index_register = (FONT_START + (self.registers[x as usize] % 16) as usize * 5) as u16;
            },
            Instruction::StoreBcd { x } => {
                return self.op_fx33(x);
            },
            Instruction::StoreRegs { x } => {
                return self.op_fx55(x);
            },
            Instruction::LoadRegs { x } => {
                return self.op_fx65(x);
            },
            _ => {},
        }
        Ok(())
    }

    /// Carries out one decoded instruction; the program counter already
    /// points past it. `rnd` is the random byte that CXNN masks.
    pub fn execute_with(&mut self, ins: Instruction, rnd: u8) -> (r: Result<(), Fault>)
        requires
            old(self).wf(),
            operands_valid(ins),
            old(self).view().pc <= 0xFFFD,
        ensures
            final(self).wf(),
            final(self).kept(old(self)),
            match apply(old(self).quirks(), old(self).view(), ins, rnd) {
                Ok(m) => r is Ok && final(self).view() == m,
                Err(f) => r == Err::<(), Fault>(f),
            },
    {
        match ins {
            Instruction::Load { .. } | Instruction::AddConst { .. } | Instruction::Assign { .. } | Instruction::Or { .. }
            | Instruction::And { .. } | Instruction::Xor { .. } | Instruction::Add { .. } | Instruction::Sub { .. }
            | Instruction::SubReverse { .. } | Instruction::ShiftRight { .. } | Instruction::ShiftLeft { .. }
            | Instruction::Random { .. } => self.exec_alu(ins, rnd),
            Instruction::ClearScreen | Instruction::Return | Instruction::MachineCall { .. } | Instruction::Jump { .. }
            | Instruction::Call { .. } | Instruction::JumpOffset { .. } | Instruction::SkipIfEqual { .. }
            | Instruction::SkipIfNotEqual { .. } | Instruction::SkipIfRegsEqual { .. }
            | Instruction::SkipIfRegsNotEqual { .. } => self.exec_flow(ins),
            _ => self.exec_other(ins),
        }
    }

    /// One step: resolves a pending key wait or idles, then fetches the
    /// word at the program counter, advances it by 2 and executes the word.
    /// `rnd` is the random byte that CXNN masks.
    pub fn step_with(&mut self, rnd: u8) -> (r: Result<StepOutcome, Fault>)
        requires
            old(self).wf(),
        ensures
            final(self).wf(),
            final(self).kept(old(self)),
            match step_spec(old(self).quirks(), old(self).view(), rnd) {
                Ok((m, o)) => r == Ok::<StepOutcome, Fault>(o) && final(self).view() == m,
                Err(f) => r == Err::<StepOutcome, Fault>(f),
            },
    {
        reveal(step_spec);
        if let Some(reg) = self.awaiting_key {
            match self.keypad.just_pressed_key() {
                Some(k) => {
                    self.registers[reg as usize] = k;
                    self.awaiting_key = None;
                },
                None => {
                    return Ok(StepOutcome::Waiting);
                },
            }
        }
        let pc = self.program_counter as usize;
        if pc + 2 > MEMORY_BYTES {
            return Err(Fault::AddressOutOfRange { address: if pc >= MEMORY_BYTES { pc } else { MEMORY_BYTES } });
        }
        let word = (self.memory[pc] as u16) * 256 + self.memory[pc + 1] as u16;
        self.program_counter = self.program_counter + 2;
        let ins = decode(word);
        match self.execute_with(ins, rnd) {
            Ok(()) => match ins {
                Instruction::Unknown { .. } => Ok(StepOutcome::Unrecognized(word)),
                _ => Ok(StepOutcome::Executed(ins)),
            },
            Err(f) => Err(f),
        }
    }

    /// One step, as `step_with`, with a byte drawn at random for CXNN.
    pub fn step(&mut self) -> (r: Result<StepOutcome, Fault>)
        requires
            old(self).wf(),
        ensures
            final(self).wf(),
            final(self).kept(old(self)),
            match r {
                Ok(o) => exists|rnd: u8| #[trigger] step_spec(old(self).quirks(), old(self).view(), rnd) == Ok::<(Machine, StepOutcome), Fault>((final(self).view(), o)),
                Err(f) => exists|rnd: u8| #[trigger] step_spec(old(self).quirks(), old(self).view(), rnd) == Err::<(Machine, StepOutcome), Fault>(f),
            },
    {
        let rnd = random_byte();
        self.step_with(rnd)
    }

    /// Advances every key by one frame, given which keys are held now.
    pub fn update_keys(&mut self, held: &[bool; 16])
        requires
            old(self).wf(),
        ensures
            final(self).wf(),
            final(self).kept(old(self)),
            final(self).view() == (Machine {
                keys: Seq::new(16, |k: int| next_state(old(self).view().keys[k], held@[k])),
                ..old(self).view()
            }),
    {
        self.keypad.update(held);
        assert(self.keypad.view() =~= Seq::new(16, |k: int| next_state(old(self).view().keys[k], held@[k])));
    }

    /// One host frame of `elapsed` nanoseconds: the timers tick as many
    /// times as 60 Hz periods fell due, the keys advance once from `held`,
    /// then as many steps run as instruction periods fell due. Returns the
    /// outcome of each step, or the fault that stopped one.
    pub fn frame(&mut self, elapsed: u64, held: &[bool; 16]) -> (r: Result<Vec<StepOutcome>, Fault>)
        requires
            old(self).wf(),
        ensures
            final(self).wf(),
            final(self).quirks() == old(self).quirks(),
            final(self).timer_carry() == pace(old(self).timer_carry(), TIMER_HZ as nat, elapsed as nat).1,
            final(self).cycle_carry() == pace(old(self).cycle_carry(), TARGET_OPS_PER_SECOND as nat, elapsed as nat).1,
            match r {
                Ok(outs) => outs@.len() == pace(old(self).cycle_carry(), TARGET_OPS_PER_SECOND as nat, elapsed as nat).0
                    && runs(
                    old(self).quirks(),
                    frame_start(old(self).view(), pace(old(self).timer_carry(), TIMER_HZ as nat, elapsed as nat).0, held@),
                    outs@,
                    final(self).view(),
                ),
                Err(f) => exists|outs: Seq<StepOutcome>, mid: Machine, rnd: u8|
                    outs.len() < pace(old(self).cycle_carry(), TARGET_OPS_PER_SECOND as nat, elapsed as nat).0
                    && #[trigger] runs(
                    old(self).quirks(),
                    frame_start(old(self).view(), pace(old(self).timer_carry(), TIMER_HZ as nat, elapsed as nat).0, held@),
                    outs,
                    mid,
                ) && #[trigger] step_spec(old(self).quirks(), mid, rnd) == Err::<(Machine, StepOutcome), Fault>(f),
            },
    {
        let ticks = self.timer_pacer.advance(elapsed);
        self.timers.tick_many(ticks);
        self.update_keys(held);
        let cycles = self.cycle_pacer.advance(elapsed);
        let ghost start = self.view();
        assert(start == frame_start(old(self).view(), ticks as nat, held@));
        assert(ticks as nat == pace(old(self).timer_carry(), TIMER_HZ as nat, elapsed as nat).0);
        let mut outs: Vec<StepOutcome> = Vec::new();
        let mut i: u64 = 0;
        while i < cycles
            invariant
                self.wf(),
                self.quirks() == old(self).quirks(),
                self.timer_carry() == pace(old(self).timer_carry(), TIMER_HZ as nat, elapsed as nat).1,
                self.cycle_carry() == pace(old(self).cycle_carry(), TARGET_OPS_PER_SECOND as nat, elapsed as nat).1,
                cycles == pace(old(self).cycle_carry(), TARGET_OPS_PER_SECOND as nat, elapsed as nat).0,
                i <= cycles,
                outs@.len() == i,
                runs(self.quirks(), start, outs@, self.view()),
                start == frame_start(old(self).view(), pace(old(self).timer_carry(), TIMER_HZ as nat, elapsed as nat).0, held@),
            decreases cycles - i,
        {
            let ghost before = self.view();
            let ghost done = outs@;
            match self.step() {
                Ok(o) => {
                    outs.push(o);
                    assert(outs@.drop_last() =~= done);
                    let ghost rnd = choose|rnd: u8| #[trigger] step_spec(self.quirks(), before, rnd) == Ok::<(Machine, StepOutcome), Fault>((self.view(), o));
                    assert(runs(self.quirks(), start, outs@.drop_last(), before) && step_spec(self.quirks(), before, rnd) == Ok::<(Machine, StepOutcome), Fault>((self.view(), outs@.last())));
                },
                Err(f) => {
                    let ghost rnd = choose|rnd: u8| #[trigger] step_spec(self.quirks(), before, rnd) == Err::<(Machine, StepOutcome), Fault>(f);
                    assert(done.len() < cycles && runs(self.quirks(), start, done, before) && step_spec(self.quirks(), before, rnd) == Err::<(Machine, StepOutcome), Fault>(f));
                    assert(runs(old(self).quirks(), frame_start(old(self).view(), pace(old(self).timer_carry(), TIMER_HZ as nat, elapsed as nat).0, held@), done, before));
                    assert(step_spec(old(self).quirks(), before, rnd) == Err::<(Machine, StepOutcome), Fault>(f));
                    return Err(f);
                },
            }
            i += 1;
        }
        Ok(outs)
    }

    /// Register `i`.
    pub fn register(&self, i: usize) -> (r: u8)
        requires
            self.wf(),
            i < 16,
        ensures
            r == self.view().registers[i as int],
    {
        self.registers[i]
    }

    /// The index register.
    pub fn index_register(&self) -> (r: u16)
        ensures
            r == self.view().index,
    {
        self.index_register
    }

    /// The program counter.
    pub fn program_counter(&self) -> (r: u16)
        ensures
            r == self.view().pc,
    {
        self.program_counter
    }

    /// Number of return addresses on the call stack.
    pub fn stack_depth(&self) -> (r: usize)
        ensures
            r == self.view().stack.len(),
    {
        self.stack.len()
    }

    /// The byte at `address`.
    pub fn memory_at(&self, address: usize) -> (r: u8)
        requires
            self.wf(),
            address < MEMORY_BYTES,
        ensures
            r == self.view().memory[address as int],
    {
        self.memory[address]
    }

    /// The delay timer.
    pub fn delay_timer(&self) -> (r: u8)
        ensures
            r == self.view().delay,
    {
        self.timers.delay
    }

    /// The sound timer; a tone plays while it is not 0.
    pub fn sound_timer(&self) -> (r: u8)
        ensures
            r == self.view().sound,
    {
        self.timers.sound
    }

    /// The framebuffer, for the host to show.
    pub fn screen(&self) -> (r: &Screen)
        ensures
            r.view() == self.view().screen,
            self.wf() ==> r.wf(),
    {
        &self.screen
    }

    /// The state of key `key`.
    pub fn key_state(&self, key: u8) -> (r: KeyState)
        requires
            self.wf(),
            key < 16,
        ensures
            r == self.view().keys[key as int],
    {
        self.keypad.state(key)
    }

    /// The register that a pending key wait will fill, if one is pending.
    pub fn awaiting_key(&self) -> (r: Option<u8>)
        ensures
            r == self.view().waiting,
    {
        self.awaiting_key
    }
}

} // verus!
