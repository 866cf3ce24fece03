//! The register file: signed 64-bit registers, each with ordered lists of
//! operations that run when it is read ("get") and when it is written ("set").
use vstd::prelude::*;

use crate::memory::{double_at, double_in_range, store_double_spec, Memory};

verus! {

/// Number of registers.
pub const REGISTER_COUNT: usize = 36;

/// The register that holds the program counter.
pub const PC: usize = 27;

/// The character code that clears the screen instead of printing.
pub const CLEAR_SCREEN_CODE: i64 = 256;

/// Which access runs a trigger.
#[derive(Clone, Copy, PartialEq, Eq, Structural, Debug)]
pub enum Phase {
    Read,
    Write,
}

/// The operations that triggers run. Each reads and writes fixed registers.
#[derive(Clone, Copy, PartialEq, Eq, Structural, Debug)]
pub enum Op {
    /// r2 = r0 + r1
    Add,
    /// r5 = r3 - r4
    Sub,
    /// r8 = r6 * r7
    Mul,
    /// r11, r12 = r9 / r10, r9 % r10
    Div,
    /// r15 = (r13 < r14)
    Less,
    /// r23 = if r20 == 0 { r21 } else { r22 }
    Select,
    /// on set, prints the character r16; on get, polls a byte into r16
    Console,
    /// on set, prints the character r18; on get, puts a newline code in r19
    Aux,
    /// on set, stores r24 at the address in r26; on get, loads it into r24
    MemAccess,
}

/// What the machine hands to its terminal.
#[derive(Clone, Copy, PartialEq, Eq, Structural, Debug)]
pub enum Output {
    Char(char),
    ClearScreen,
}

/// A fault that stops the machine.
#[derive(Clone, Copy, PartialEq, Eq, Structural, Debug)]
pub enum Fault {
    /// An instruction named a register that does not exist.
    RegisterOutOfRange,
    /// A memory access addressed a word pair outside memory, or a negative one.
    AddressOutOfRange,
    /// A value to store was negative, or a loaded value does not fit a register.
    ValueOutOfRange,
    /// A code to print is not a Unicode scalar value.
    InvalidChar,
}

/// The state that triggers act on.
pub struct Env {
    pub regs: Seq<i64>,
    pub mem: Seq<u32>,
    /// The polled input byte that has not been consumed yet.
    pub input: Option<u8>,
    /// What has been emitted, in order.
    pub out: Seq<Output>,
}

/// The trigger lists of each register: read-triggers first, then write-triggers.
pub type Wiring = Seq<(Seq<Op>, Seq<Op>)>;

/// Whether `code` is a Unicode scalar value.
pub open spec fn is_scalar(code: int) -> bool {
    0 <= code <= 0x10FFFF && !(0xD800 <= code <= 0xDFFF)
}

/// Quotient of division truncated toward zero.
pub open spec fn trunc_div(n: int, d: int) -> int {
    if n >= 0 {
        n / d
    } else {
        -((-n) / d)
    }
}

/// Remainder of division truncated toward zero; it has the sign of `n`.
pub open spec fn trunc_rem(n: int, d: int) -> int {
    if n >= 0 {
        n % d
    } else {
        -((-n) % d)
    }
}

/// Quotient and remainder as the machine computes them: a zero divisor gives the
/// dividend and zero, and the one overflowing case wraps to the dividend and zero.
pub open spec fn div_result(n: i64, d: i64) -> (i64, i64) {
    if d == 0 || (n == i64::MIN && d == -1) {
        (if d == 0 { n } else { i64::MIN }, 0)
    } else {
        (trunc_div(n as int, d as int) as i64, trunc_rem(n as int, d as int) as i64)
    }
}

/// The register value that a polled byte gives: a zero byte counts as no input.
pub open spec fn input_value(b: Option<u8>) -> i64 {
    match b {
        Some(v) => if v == 0 { -1i64 } else { v as i64 },
        None => -1i64,
    }
}

/// Emitting the character with code `code`.
pub open spec fn emit_char(e: Env, code: i64) -> Result<Env, Fault> {
    if is_scalar(code as int) {
        Ok(Env { out: e.out.push(Output::Char(code as u32 as char)), ..e })
    } else {
        Err(Fault::InvalidChar)
    }
}

/// What one operation does to the state, run from a trigger of `phase`.
pub open spec fn apply_op(op: Op, phase: Phase, e: Env) -> Result<Env, Fault> {
    let r = e.regs;
    match op {
        Op::Add => Ok(Env { regs: r.update(2, r[0].wrapping_add(r[1])), ..e }),
        Op::Sub => Ok(Env { regs: r.update(5, r[3].wrapping_sub(r[4])), ..e }),
        Op::Mul => Ok(Env { regs: r.update(8, r[6].wrapping_mul(r[7])), ..e }),
        Op::Div => {
            let (q, m) = div_result(r[9], r[10]);
            Ok(Env { regs: r.update(11, q).update(12, m), ..e })
        },
        Op::Less => Ok(Env { regs: r.update(15, if r[13] < r[14] { 1 } else { 0 }), ..e }),
        Op::Select => Ok(Env { regs: r.update(23, if r[20] == 0 { r[21] } else { r[22] }), ..e }),
        Op::Console => match phase {
            Phase::Write => if r[16] == CLEAR_SCREEN_CODE {
                Ok(Env { out: e.out.push(Output::ClearScreen), ..e })
            } else {
                emit_char(e, r[16])
            },
            Phase::Read => Ok(Env { regs: r.update(16, input_value(e.input)), input: None, ..e }),
        },
        Op::Aux => match phase {
            Phase::Write => emit_char(e, r[18]),
            Phase::Read => Ok(Env { regs: r.update(19, 10), ..e }),
        },
        Op::MemAccess => {
            let address = r[26] as int;
            if address < 0 {
                Err(Fault::AddressOutOfRange)
            } else {
                match phase {
                    Phase::Write => if r[24] < 0 {
                        Err(Fault::ValueOutOfRange)
                    } else if !double_in_range(e.mem.len() as int, address) {
                        Err(Fault::AddressOutOfRange)
                    } else {
                        Ok(Env { mem: store_double_spec(e.mem, address, r[24] as u64), ..e })
                    },
                    Phase::Read => if !double_in_range(e.mem.len() as int, address) {
                        Err(Fault::AddressOutOfRange)
                    } else if double_at(e.mem, address) > i64::MAX {
                        Err(Fault::ValueOutOfRange)
                    } else {
                        Ok(Env { regs: r.update(24, double_at(e.mem, address) as i64), ..e })
                    },
                }
            }
        },
    }
}

/// Running the operations of `ops` in order, stopping at the first fault.
pub open spec fn run_ops(ops: Seq<Op>, phase: Phase, e: Env) -> Result<Env, Fault>
    decreases ops.len(),
{
    if ops.len() == 0 {
        Ok(e)
    } else {
        match run_ops(ops.drop_last(), phase, e) {
            Ok(e1) => apply_op(ops.last(), phase, e1),
            Err(f) => Err(f),
        }
    }
}

/// A fault in a prefix of a trigger list is the fault of the whole list.
proof fn lemma_fault_prefix(ops: Seq<Op>, k: int, phase: Phase, e: Env)
    requires
        0 <= k <= ops.len(),
        run_ops(ops.take(k), phase, e) is Err,
    ensures
        run_ops(ops, phase, e) == run_ops(ops.take(k), phase, e),
    decreases ops.len(),
{
    if k == ops.len() {
        assert(ops.take(k) =~= ops);
    } else {
        assert(ops.drop_last().take(k) =~= ops.take(k));
        lemma_fault_prefix(ops.drop_last(), k, phase, e);
    }
}

/// Writing `value` to register `index`: store it, then run its write-triggers.
pub open spec fn spec_set(w: Wiring, index: int, value: i64, e: Env) -> Result<Env, Fault> {
    if !(0 <= index < REGISTER_COUNT) {
        Err(Fault::RegisterOutOfRange)
    } else {
        run_ops(w[index].1, Phase::Write, Env { regs: e.regs.update(index, value), ..e })
    }
}

/// Reading register `index`: run its read-triggers, then take its value.
pub open spec fn spec_get(w: Wiring, index: int, e: Env) -> Result<(Env, i64), Fault> {
    if !(0 <= index < REGISTER_COUNT) {
        Err(Fault::RegisterOutOfRange)
    } else {
        match run_ops(w[index].0, Phase::Read, e) {
            Ok(e1) => Ok((e1, e1.regs[index])),
            Err(f) => Err(f),
        }
    }
}

/// The operation that the machine wires to reads of register `i`, if any.
pub open spec fn wired_read_op(i: int) -> Option<Op> {
    if i == 2 {
        Some(Op::Add)
    } else if i == 5 {
        Some(Op::Sub)
    } else if i == 8 {
        Some(Op::Mul)
    } else if i == 11 || i == 12 {
        Some(Op::Div)
    } else if i == 15 {
        Some(Op::Less)
    } else if i == 16 {
        Some(Op::Console)
    } else if i == 19 {
        Some(Op::Aux)
    } else if i == 23 {
        Some(Op::Select)
    } else if i == 24 {
        Some(Op::MemAccess)
    } else {
        None
    }
}

/// The operation that the machine wires to writes of register `i`, if any.
pub open spec fn wired_write_op(i: int) -> Option<Op> {
    if i == 0 || i == 1 {
        Some(Op::Add)
    } else if i == 3 || i == 4 {
        Some(Op::Sub)
    } else if i == 6 || i == 7 {
        Some(Op::Mul)
    } else if i == 9 || i == 10 {
        Some(Op::Div)
    } else if i == 13 || i == 14 {
        Some(Op::Less)
    } else if i == 16 {
        Some(Op::Console)
    } else if i == 18 {
        Some(Op::Aux)
    } else if 20 <= i <= 22 {
        Some(Op::Select)
    } else if i == 24 || i == 26 {
        Some(Op::MemAccess)
    } else {
        None
    }
}

/// The list of at most one operation.
pub open spec fn op_list(o: Option<Op>) -> Seq<Op> {
    match o {
        Some(op) => seq![op],
        None => Seq::empty(),
    }
}

/// The machine's catalogue of operations as trigger lists.
pub open spec fn catalogue() -> Wiring {
    Seq::new(
        REGISTER_COUNT as nat,
        |i: int| (op_list(wired_read_op(i)), op_list(wired_write_op(i))),
    )
}

/// The trigger state built from the parts that hold it.
pub open spec fn env_of(regs: Seq<i64>, mem: Seq<u32>, con: &Console) -> Env {
    Env { regs, mem, input: con.input, out: con.output@ }
}

/// `r` reports `spec_r`, and on success the state became its state.
pub open spec fn reports(r: Result<(), Fault>, spec_r: Result<Env, Fault>, after: Env) -> bool {
    match spec_r {
        Ok(e) => r == Ok::<(), Fault>(()) && after == e,
        Err(f) => r == Err::<(), Fault>(f),
    }
}

/// The terminal side of the machine: the byte polled for the current step, and
/// what was emitted.
pub struct Console {
    pub input: Option<u8>,
    pub output: Vec<Output>,
}

impl Console {
    /// No pending input, nothing emitted.
    pub fn new() -> (c: Console)
        ensures
            c.input.is_none(),
            c.output@ == Seq::<Output>::empty(),
    {
        Console { input: None, output: Vec::new() }
    }
}

/// Relies on std's `char::from_u32`: `Some` exactly for a Unicode scalar value,
/// holding the character of that code.
#[verifier::external_body]
fn char_from_code(code: u32) -> (r: Option<char>)
    ensures
        is_scalar(code as int) ==> r == Some(code as char),
        !is_scalar(code as int) ==> r.is_none(),
{
    char::from_u32(code)
}

/// Emits the character with code `code`, or fails if it is not one.
fn emit(code: i64, con: &mut Console) -> (r: Result<(), Fault>)
    ensures
        reports(r, emit_char(env_of(Seq::empty(), Seq::empty(), old(con)), code), env_of(Seq::empty(), Seq::empty(), final(con))),
{
    if code < 0 || code > 0x10FFFF {
        return Err(Fault::InvalidChar);
    }
    match char_from_code(code as u32) {
        Some(c) => {
            con.output.push(Output::Char(c));
            Ok(())
        },
        None => Err(Fault::InvalidChar),
    }
}

/// The truncated quotient fits the register width, but for `i64::MIN / -1`.
pub proof fn lemma_trunc_div_fits(n: i64, d: i64)
    requires
        d != 0,
        !(n == i64::MIN && d == -1),
    ensures
        i64::MIN <= trunc_div(n as int, d as int) <= i64::MAX,
{
    let (ni, di) = (n as int, d as int);
    if ni >= 0 {
        assert(0 <= ni / di <= ni || (di < 0 && -ni <= ni / di <= 0)) by (nonlinear_arith)
            requires
                di != 0,
                ni >= 0,
        ;
    } else {
        assert(0 <= (-ni) / di <= -ni || (di < 0 && ni <= (-ni) / di <= 0)) by (nonlinear_arith)
            requires
                di != 0,
                ni < 0,
        ;
        if di < -1 {
            assert(2 * ((-ni) / di) >= ni) by (nonlinear_arith)
                requires
                    di < -1,
                    ni < 0,
            ;
        }
    }
}

/// Quotient and remainder of `n` by `d`, truncated toward zero; a zero divisor
/// gives the dividend and zero.
pub fn divide(n: i64, d: i64) -> (r: (i64, i64))
    ensures
        r == div_result(n, d),
{
    if d == 0 {
        return (n, 0);
    }
    if n == i64::MIN && d == -1 {
        return (i64::MIN, 0);
    }
    proof {
        lemma_trunc_div_fits(n, d);
    }
    (n / d, n % d)
}

/// The register value for a polled byte: the byte, or -1 where none came or it
/// was zero.
pub fn console_input_value(b: Option<u8>) -> (r: i64)
    ensures
        r == input_value(b),
{
    match b {
        Some(v) => if v == 0 {
            -1
        } else {
            v as i64
        },
        None => -1,
    }
}


/// Runs one operation on the registers, the memory and the console.
fn apply(op: Op, phase: Phase, regs: &mut Vec<i64>, mem: &mut Memory, con: &mut Console) -> (r:
    Result<(), Fault>)
    requires
        old(regs)@.len() == REGISTER_COUNT,
    ensures
        final(regs)@.len() == REGISTER_COUNT,
        final(mem)@.len() == old(mem)@.len(),
        reports(
            r,
            apply_op(op, phase, env_of(old(regs)@, old(mem)@, old(con))),
            env_of(final(regs)@, final(mem)@, final(con)),
        ),
{
    match op {
        Op::Add => {
            let v = regs[0].wrapping_add(regs[1]);
            regs.set(2, v);
        },
        Op::Sub => {
            let v = regs[3].wrapping_sub(regs[4]);
            regs.set(5, v);
        },
        Op::Mul => {
            let v = regs[6].wrapping_mul(regs[7]);
            regs.set(8, v);
        },
        Op::Div => {
            let (q, m) = divide(regs[9], regs[10]);
            regs.set(11, q);
            regs.set(12, m);
        },
        Op::Less => {
            let v: i64 = if regs[13] < regs[14] {
                1
            } else {
                0
            };
            regs.set(15, v);
        },
        Op::Select => {
            let v = if regs[20] == 0 {
                regs[21]
            } else {
                regs[22]
            };
            regs.set(23, v);
        },
        Op::Console => match phase {
            Phase::Write => {
                if regs[16] == CLEAR_SCREEN_CODE {
                    con.output.push(Output::ClearScreen);
                } else {
                    return emit(regs[16], con);
                }
            },
            Phase::Read => {
                let v = console_input_value(con.input);
                con.input = None;
                regs.set(16, v);
            },
        },
        Op::Aux => match phase {
            Phase::Write => {
                return emit(regs[18], con);
            },
            Phase::Read => {
                regs.set(19, 10);
            },
        },
        Op::MemAccess => {
            let address = regs[26];
            if address < 0 {
                return Err(Fault::AddressOutOfRange);
            }
            let in_range = (address as u128) * 2 + 1 < mem.capacity() as u128;
            match phase {
                Phase::Write => {
                    let value = regs[24];
                    if value < 0 {
                        return Err(Fault::ValueOutOfRange);
                    }
                    if !in_range {
                        return Err(Fault::AddressOutOfRange);
                    }
                    mem.store64(address as usize, value as u64);
                },
                Phase::Read => {
                    if !in_range {
                        return Err(Fault::AddressOutOfRange);
                    }
                    let value = mem.load64(address as usize);
                    if value > i64::MAX as u64 {
                        return Err(Fault::ValueOutOfRange);
                    }
                    regs.set(24, value as i64);
                },
            }
        },
    }
    Ok(())
}

/// The trigger lists of one register.
pub struct Triggers {
    on_read: Vec<Op>,
    on_write: Vec<Op>,
}

/// The register file: register values and the trigger lists of each register.
pub struct Registers {
    buffer: Vec<i64>,
    triggers: Vec<Triggers>,
}

impl Registers {
    /// The register values.
    pub closed spec fn values(&self) -> Seq<i64> {
        self.buffer@
    }

    /// The trigger lists of each register, read-triggers first.
    pub closed spec fn wiring(&self) -> Wiring {
        self.triggers@.map_values(|t: Triggers| (t.on_read@, t.on_write@))
    }

    /// Every register exists and has its trigger lists.
    pub closed spec fn wf(&self) -> bool {
        &&& self.buffer@.len() == REGISTER_COUNT
        &&& self.triggers@.len() == REGISTER_COUNT
    }

    /// All registers zero, no triggers.
    pub fn new() -> (r: Registers)
        ensures
            r.wf(),
            r.values() == Seq::new(REGISTER_COUNT as nat, |i: int| 0i64),
            r.wiring() == Seq::new(
                REGISTER_COUNT as nat,
                |i: int| (Seq::<Op>::empty(), Seq::<Op>::empty()),
            ),
    {
        let mut buffer: Vec<i64> = Vec::new();
        let mut triggers: Vec<Triggers> = Vec::new();
        let mut i: usize = 0;
        while i < REGISTER_COUNT
            invariant
                i <= REGISTER_COUNT,
                buffer@ == Seq::new(i as nat, |j: int| 0i64),
                triggers@.len() == i,
                forall|j: int|
                    0 <= j < i ==> (#[trigger] triggers@[j]).on_read@ == Seq::<Op>::empty()
                        && triggers@[j].on_write@ == Seq::<Op>::empty(),
            decreases REGISTER_COUNT - i,
        {
            buffer.push(0);
            triggers.push(Triggers { on_read: Vec::new(), on_write: Vec::new() });
            i = i + 1;
            assert(buffer@ =~= Seq::new(i as nat, |j: int| 0i64));
        }
        let r = Registers { buffer, triggers };
        assert(r.wiring() =~= Seq::new(
            REGISTER_COUNT as nat,
            |i: int| (Seq::<Op>::empty(), Seq::<Op>::empty()),
        ));
        r
    }

    /// The value of register `index`, read without running its triggers.
    pub fn value(&self, index: usize) -> (r: i64)
        requires
            self.wf(),
            index < REGISTER_COUNT,
        ensures
            r == self.values()[index as int],
    {
        self.buffer[index]
    }

    /// Puts `value` in register `index` without running its triggers.
    pub fn put(&mut self, index: usize, value: i64)
        requires
            old(self).wf(),
            index < REGISTER_COUNT,
        ensures
            final(self).wf(),
            final(self).values() == old(self).values().update(index as int, value),
            final(self).wiring() == old(self).wiring(),
    {
        self.buffer.set(index, value);
    }

    /// Appends `op` to the triggers of `phase` of register `index`.
    pub fn register_trigger(&mut self, index: usize, phase: Phase, op: Op) -> (r: Result<
        (),
        Fault,
    >)
        requires
            old(self).wf(),
        ensures
            final(self).wf(),
            final(self).values() == old(self).values(),
            index < REGISTER_COUNT ==> r is Ok && final(self).wiring() == old(self).wiring().update(
                index as int,
                match phase {
                    Phase::Read => (
                        old(self).wiring()[index as int].0.push(op),
                        old(self).wiring()[index as int].1,
                    ),
                    Phase::Write => (
                        old(self).wiring()[index as int].0,
                        old(self).wiring()[index as int].1.push(op),
                    ),
                },
            ),
            index >= REGISTER_COUNT ==> r == Err::<(), Fault>(Fault::RegisterOutOfRange)
                && final(self).wiring() == old(self).wiring(),
    {
        if index >= REGISTER_COUNT {
            return Err(Fault::RegisterOutOfRange);
        }
        let mut t = self.triggers.remove(index);
        match phase {
            Phase::Read => t.on_read.push(op),
            Phase::Write => t.on_write.push(op),
        }
        self.triggers.insert(index, t);
        assert(self.wiring() =~= old(self).wiring().update(
            index as int,
            match phase {
                Phase::Read => (
                    old(self).wiring()[index as int].0.push(op),
                    old(self).wiring()[index as int].1,
                ),
                Phase::Write => (
                    old(self).wiring()[index as int].0,
                    old(self).wiring()[index as int].1.push(op),
                ),
            },
        ));
        Ok(())
    }

    /// Writes `value` to register `index`, then runs the write-triggers of `index`
    /// in the order they were registered. A fault stops at the trigger that made it.
    pub fn set(&mut self, index: usize, value: i64, memory: &mut Memory, console: &mut Console) -> (r:
        Result<(), Fault>)
        requires
            old(self).wf(),
        ensures
            final(self).wf(),
            final(self).wiring() == old(self).wiring(),
            final(memory)@.len() == old(memory)@.len(),
            reports(
                r,
                spec_set(
                    old(self).wiring(),
                    index as int,
                    value,
                    env_of(old(self).values(), old(memory)@, old(console)),
                ),
                env_of(final(self).values(), final(memory)@, final(console)),
            ),
    {
        if index >= REGISTER_COUNT {
            return Err(Fault::RegisterOutOfRange);
        }
        self.buffer.set(index, value);
        let ghost ops = old(self).wiring()[index as int].1;
        let ghost start = env_of(self.buffer@, memory@, console);
        let n = self.triggers[index].on_write.len();
        let mut k: usize = 0;
        while k < n
            invariant
                self.wf(),
                self.wiring() == old(self).wiring(),
                ops == self.triggers@[index as int].on_write@,
                n == ops.len(),
                k <= n,
                index < REGISTER_COUNT,
                memory@.len() == old(memory)@.len(),
                start == env_of(old(self).values().update(index as int, value), old(memory)@, old(console)),
                run_ops(ops.take(k as int), Phase::Write, start) == Ok::<Env, Fault>(
                    env_of(self.buffer@, memory@, console),
                ),
            decreases n - k,
        {
            let op = self.triggers[index].on_write[k];
            let res = apply(op, Phase::Write, &mut self.buffer, memory, console);
            assert(ops.take(k + 1).drop_last() =~= ops.take(k as int));
            if let Err(f) = res {
                proof {
                    lemma_fault_prefix(ops, k + 1, Phase::Write, start);
                }
                return Err(f);
            }
            k = k + 1;
        }
        assert(ops.take(n as int) =~= ops);
        Ok(())
    }

    /// Runs the read-triggers of register `index` in the order they were
    /// registered, then returns the value of `index`.
    pub fn get(&mut self, index: usize, memory: &mut Memory, console: &mut Console) -> (r: Result<
        i64,
        Fault,
    >)
        requires
            old(self).wf(),
        ensures
            final(self).wf(),
            final(self).wiring() == old(self).wiring(),
            final(memory)@.len() == old(memory)@.len(),
            match spec_get(
                old(self).wiring(),
                index as int,
                env_of(old(self).values(), old(memory)@, old(console)),
            ) {
                Ok((e, v)) => r == Ok::<i64, Fault>(v) && env_of(
                    final(self).values(),
                    final(memory)@,
                    final(console),
                ) == e,
                Err(f) => r == Err::<i64, Fault>(f),
            },
    {
        if index >= REGISTER_COUNT {
            return Err(Fault::RegisterOutOfRange);
        }
        let ghost ops = old(self).wiring()[index as int].0;
        let ghost start = env_of(self.buffer@, memory@, console);
        let n = self.triggers[index].on_read.len();
        let mut k: usize = 0;
        while k < n
            invariant
                self.wf(),
                self.wiring() == old(self).wiring(),
                ops == self.triggers@[index as int].on_read@,
                n == ops.len(),
                k <= n,
                index < REGISTER_COUNT,
                memory@.len() == old(memory)@.len(),
                start == env_of(old(self).values(), old(memory)@, old(console)),
                run_ops(ops.take(k as int), Phase::Read, start) == Ok::<Env, Fault>(
                    env_of(self.buffer@, memory@, console),
                ),
            decreases n - k,
        {
            let op = self.triggers[index].on_read[k];
            let res = apply(op, Phase::Read, &mut self.buffer, memory, console);
            assert(ops.take(k + 1).drop_last() =~= ops.take(k as int));
            if let Err(f) = res {
                proof {
                    lemma_fault_prefix(ops, k + 1, Phase::Read, start);
                }
                return Err(f);
            }
            k = k + 1;
        }
        assert(ops.take(n as int) =~= ops);
        Ok(self.buffer[index])
    }

    /// Whether the read-triggers of register `index` poll the terminal.
    pub fn reads_console(&self, index: usize) -> (r: bool)
        requires
            self.wf(),
            index < REGISTER_COUNT,
        ensures
            r == self.wiring()[index as int].0.contains(Op::Console),
    {
        let ops = &self.triggers[index].on_read;
        let mut k: usize = 0;
        while k < ops.len()
            invariant
                k <= ops@.len(),
                ops@ == self.wiring()[index as int].0,
                forall|j: int| 0 <= j < k ==> ops@[j] != Op::Console,
            decreases ops@.len() - k,
        {
            if ops[k] == Op::Console {
                return true;
            }
            k = k + 1;
        }
        false
    }

    /// Wires the machine's catalogue of operations: each register's lists get the
    /// catalogue's operations for it appended.
    pub fn init_triggers(&mut self)
        requires
            old(self).wf(),
        ensures
            final(self).wf(),
            final(self).values() == old(self).values(),
            final(self).wiring() == Seq::new(
                REGISTER_COUNT as nat,
                |i: int|
                    (
                        old(self).wiring()[i].0 + catalogue()[i].0,
                        old(self).wiring()[i].1 + catalogue()[i].1,
                    ),
            ),
    {
        let mut i: usize = 0;
        while i < REGISTER_COUNT
            invariant
                i <= REGISTER_COUNT,
                self.wf(),
                self.values() == old(self).values(),
                forall|j: int|
                    0 <= j < REGISTER_COUNT ==> #[trigger] self.wiring()[j] == if j < i {
                        (
                            old(self).wiring()[j].0 + catalogue()[j].0,
                            old(self).wiring()[j].1 + catalogue()[j].1,
                        )
                    } else {
                        old(self).wiring()[j]
                    },
            decreases REGISTER_COUNT - i,
        {
            let ghost before = self.wiring();
            if let Some(op) = read_op_for(i) {
                let _ = self.register_trigger(i, Phase::Read, op);
            }
            if let Some(op) = write_op_for(i) {
                let _ = self.register_trigger(i, Phase::Write, op);
            }
            assert(self.wiring()[i as int].0 =~= before[i as int].0 + catalogue()[i as int].0);
            assert(self.wiring()[i as int].1 =~= before[i as int].1 + catalogue()[i as int].1);
            i = i + 1;
        }
        assert(self.wiring() =~= Seq::new(
            REGISTER_COUNT as nat,
            |i: int|
                (
                    old(self).wiring()[i].0 + catalogue()[i].0,
                    old(self).wiring()[i].1 + catalogue()[i].1,
                ),
        ));
    }
}

/// The catalogue's read-trigger of register `i`.
fn read_op_for(i: usize) -> (r: Option<Op>)
    ensures
        r == wired_read_op(i as int),
{
    if i == 2 {
        Some(Op::Add)
    } else if i == 5 {
        Some(Op::Sub)
    } else if i == 8 {
        Some(Op::Mul)
    } else if i == 11 || i == 12 {
        Some(Op::Div)
    } else if i == 15 {
        Some(Op::Less)
    } else if i == 16 {
        Some(Op::Console)
    } else if i == 19 {
        Some(Op::Aux)
    } else if i == 23 {
        Some(Op::Select)
    } else if i == 24 {
        Some(Op::MemAccess)
    } else {
        None
    }
}

/// The catalogue's write-trigger of register `i`.
fn write_op_for(i: usize) -> (r: Option<Op>)
    ensures
        r == wired_write_op(i as int),
{
    if i == 0 || i == 1 {
        Some(Op::Add)
    } else if i == 3 || i == 4 {
        Some(Op::Sub)
    } else if i == 6 || i == 7 {
        Some(Op::Mul)
    } else if i == 9 || i == 10 {
        Some(Op::Div)
    } else if i == 13 || i == 14 {
        Some(Op::Less)
    } else if i == 16 {
        Some(Op::Console)
    } else if i == 18 {
        Some(Op::Aux)
    } else if 20 <= i && i <= 22 {
        Some(Op::Select)
    } else if i == 24 || i == 26 {
        Some(Op::MemAccess)
    } else {
        None
    }
}

} // verus!
