//! The fetch-decode-execute step of the machine. The caller drives the loop: it
//! polls the terminal where a step needs input, runs the step and shows what the
//! step emitted.
use vstd::prelude::*;

use crate::memory::{dst_field, src_field, Memory};
use crate::registers::{
    catalogue, spec_get, spec_set, Console, Env, Fault, Op, Output, Registers, Wiring, PC,
    REGISTER_COUNT,
};

verus! {

/// The bit of the source field that marks an immediate operand.
pub const IMMEDIATE_FLAG: u16 = 0x8000;

/// The operand of a source field: an immediate in its low 15 bits where its high
/// bit is set, else the value read from the register it names.
pub open spec fn operand(w: Wiring, src: int, e: Env) -> Result<(Env, i64), Fault> {
    if src >= 32768 {
        Ok((e, (src - 32768) as i64))
    } else {
        spec_get(w, src, e)
    }
}

/// Whether the counter addresses a word of a memory of `len` words.
pub open spec fn counter_in_range(pc: i64, len: int) -> bool {
    0 <= pc < len
}

/// One step: `None` where the counter is outside memory (the machine halts), else
/// the state after fetching the instruction at the counter, reading its operand,
/// advancing the counter by one (wrapping, as a register does) and then writing the operand to its destination.
pub open spec fn spec_tick(w: Wiring, e: Env) -> Result<Option<Env>, Fault> {
    let pc = e.regs[PC as int];
    if !counter_in_range(pc, e.mem.len() as int) {
        Ok(None)
    } else {
        let word = e.mem[pc as int];
        match operand(w, src_field(word), e) {
            Err(f) => Err(f),
            Ok((e1, v)) => match spec_set(
                w,
                dst_field(word),
                v,
                Env { regs: e1.regs.update(PC as int, pc.wrapping_add(1)), ..e1 },
            ) {
                Ok(e2) => Ok(Some(e2)),
                Err(f) => Err(f),
            },
        }
    }
}

/// What one step did.
pub enum Step {
    /// The counter was outside memory; nothing ran.
    Halted,
    /// One instruction ran and emitted these outputs, in order.
    Executed(Vec<Output>),
}

/// A machine: registers wired with the catalogue, memory, and the number of
/// instructions executed.
pub struct Machine {
    registers: Registers,
    memory: Memory,
    ticks: u64,
}

impl Machine {
    /// The register values.
    pub closed spec fn values(&self) -> Seq<i64> {
        self.registers.values()
    }

    /// The trigger lists of each register.
    pub closed spec fn wiring(&self) -> Wiring {
        self.registers.wiring()
    }

    /// The memory words.
    pub closed spec fn words(&self) -> Seq<u32> {
        self.memory@
    }

    /// The number of instructions executed.
    pub closed spec fn tick_count(&self) -> u64 {
        self.ticks
    }

    /// Every register exists and has its trigger lists.
    pub closed spec fn wf(&self) -> bool {
        self.registers.wf()
    }

    /// A machine with `capacity` words of zeroed memory, zeroed registers wired
    /// with the catalogue, and no instruction executed.
    pub fn new(capacity: usize) -> (m: Machine)
        ensures
            m.wf(),
            m.values() == Seq::new(REGISTER_COUNT as nat, |i: int| 0i64),
            m.wiring() == catalogue(),
            m.words() == Seq::new(capacity as nat, |i: int| 0u32),
            m.tick_count() == 0,
    {
        let mut registers = Registers::new();
        registers.init_triggers();
        assert(registers.wiring() =~= catalogue());
        Machine { registers, memory: Memory::new(capacity), ticks: 0 }
    }

    /// Loads a program image at word offset `base`, as `Memory::store` does.
    pub fn load_program(&mut self, data: &[u8], base: usize)
        requires
            old(self).wf(),
        ensures
            final(self).wf(),
            final(self).values() == old(self).values(),
            final(self).wiring() == old(self).wiring(),
            final(self).tick_count() == old(self).tick_count(),
            final(self).words() == crate::memory::loaded(old(self).words(), data@, base as int),
    {
        self.memory.store(data, base);
    }

    /// The registers.
    pub fn registers(&self) -> (r: &Registers)
        ensures
            r.values() == self.values(),
            r.wiring() == self.wiring(),
    {
        &self.registers
    }

    /// The memory.
    pub fn memory(&self) -> (r: &Memory)
        ensures
            r@ == self.words(),
    {
        &self.memory
    }

    /// The number of instructions executed.
    pub fn ticks(&self) -> (r: u64)
        ensures
            r == self.tick_count(),
    {
        self.ticks
    }

    /// The program counter.
    pub fn counter(&self) -> (r: i64)
        requires
            self.wf(),
        ensures
            r == self.values()[PC as int],
    {
        self.registers.value(PC)
    }

    /// Writes `value` to register `index` as an instruction would, running its
    /// write-triggers, and returns what they emitted.
    pub fn set_register(&mut self, index: usize, value: i64) -> (r: Result<Vec<Output>, Fault>)
        requires
            old(self).wf(),
        ensures
            final(self).wf(),
            final(self).wiring() == old(self).wiring(),
            final(self).tick_count() == old(self).tick_count(),
            match spec_set(
                old(self).wiring(),
                index as int,
                value,
                Env { regs: old(self).values(), mem: old(self).words(), input: None, out: Seq::empty() },
            ) {
                Ok(e) => r matches Ok(out) && out@ == e.out && final(self).values() == e.regs
                    && final(self).words() == e.mem,
                Err(f) => r == Err::<Vec<Output>, Fault>(f),
            },
    {
        let mut console = Console::new();
        match self.registers.set(index, value, &mut self.memory, &mut console) {
            Ok(()) => Ok(console.output),
            Err(f) => Err(f),
        }
    }

    /// Reads register `index` as an instruction would, running its read-triggers;
    /// `input` is the byte polled for the read, if any.
    pub fn get_register(&mut self, index: usize, input: Option<u8>) -> (r: Result<i64, Fault>)
        requires
            old(self).wf(),
        ensures
            final(self).wf(),
            final(self).wiring() == old(self).wiring(),
            final(self).tick_count() == old(self).tick_count(),
            match spec_get(
                old(self).wiring(),
                index as int,
                Env { regs: old(self).values(), mem: old(self).words(), input, out: Seq::empty() },
            ) {
                Ok((e, v)) => r == Ok::<i64, Fault>(v) && final(self).values() == e.regs
                    && final(self).words() == e.mem,
                Err(f) => r == Err::<i64, Fault>(f),
            },
    {
        let mut console = Console { input, output: Vec::new() };
        self.registers.get(index, &mut self.memory, &mut console)
    }

    /// Whether the counter is outside memory, so that the machine has halted.
    pub fn halted(&self) -> (r: bool)
        requires
            self.wf(),
        ensures
            r == !counter_in_range(self.values()[PC as int], self.words().len() as int),
    {
        let pc = self.registers.value(PC);
        !(pc >= 0 && (pc as u128) < self.memory.capacity() as u128)
    }

    /// Whether the next step reads a register that polls the terminal, so that
    /// the caller should poll it before the step.
    pub fn needs_input(&self) -> (r: bool)
        requires
            self.wf(),
        ensures
            r == {
                let pc = self.values()[PC as int];
                &&& counter_in_range(pc, self.words().len() as int)
                &&& src_field(self.words()[pc as int]) < REGISTER_COUNT
                &&& self.wiring()[src_field(self.words()[pc as int])].0.contains(Op::Console)
            },
    {
        if self.halted() {
            return false;
        }
        let capacity = self.memory.capacity();
        assert(self.values()[PC as int] < capacity);
        let pc = self.registers.value(PC) as usize;
        let (src, _dst) = self.memory.load_opcode(pc);
        if src as usize >= REGISTER_COUNT {
            return false;
        }
        self.registers.reads_console(src as usize)
    }

    /// Runs one step. `input` is the byte polled for it, if any; a trigger that
    /// polls takes it, and one that polls after it finds none.
    pub fn tick(&mut self, input: Option<u8>) -> (r: Result<Step, Fault>)
        requires
            old(self).wf(),
            old(self).tick_count() < u64::MAX,
        ensures
            final(self).wf(),
            final(self).wiring() == old(self).wiring(),
            final(self).words().len() == old(self).words().len(),
            match spec_tick(
                old(self).wiring(),
                Env { regs: old(self).values(), mem: old(self).words(), input, out: Seq::empty() },
            ) {
                Ok(None) => r matches Ok(Step::Halted) && *final(self) == *old(self),
                Ok(Some(e)) => r matches Ok(Step::Executed(out)) && out@ == e.out
                    && final(self).values() == e.regs && final(self).words() == e.mem
                    && final(self).tick_count() == old(self).tick_count() + 1,
                Err(f) => r == Err::<Step, Fault>(f),
            },
    {
        if self.halted() {
            return Ok(Step::Halted);
        }
        let pc = self.registers.value(PC);
        let capacity = self.memory.capacity();
        assert(pc < capacity);
        let (src, dst) = self.memory.load_opcode(pc as usize);
        let mut console = Console { input, output: Vec::new() };
        let value = if src & IMMEDIATE_FLAG != 0 {
            assert(src & 0x8000u16 != 0 <==> src >= 32768) by (bit_vector);
            assert(src & 0x7FFFu16 == src - 32768) by (bit_vector)
                requires
                    src >= 32768,
            ;
            (src & 0x7FFF) as i64
        } else {
            assert(src & 0x8000u16 != 0 <==> src >= 32768) by (bit_vector);
            match self.registers.get(src as usize, &mut self.memory, &mut console) {
                Ok(v) => v,
                Err(f) => return Err(f),
            }
        };
        self.registers.put(PC, pc.wrapping_add(1));
        match self.registers.set(dst as usize, value, &mut self.memory, &mut console) {
            Ok(()) => {},
            Err(f) => return Err(f),
        }
        self.ticks = self.ticks + 1;
        Ok(Step::Executed(console.output))
    }
}

} // verus!
