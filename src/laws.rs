//! Properties of the machine that relate several accesses, proved over the
//! specifications that the accessors' own contracts use.
use vstd::prelude::*;

use crate::memory::{double_at, double_in_range, store_double_spec};
use crate::registers::{
    lemma_trunc_div_fits, apply_op, catalogue, div_result, run_ops, spec_get, spec_set, trunc_div, trunc_rem, Env, Op,
    Phase, REGISTER_COUNT,
};

verus! {

/// A list of one operation runs that operation.
proof fn lemma_run_one(op: Op, phase: Phase, e: Env)
    ensures
        run_ops(seq![op], phase, e) == apply_op(op, phase, e),
{
    let ops = seq![op];
    assert(ops.drop_last() =~= Seq::<Op>::empty());
    assert(ops.last() == op);
    assert(run_ops(ops.drop_last(), phase, e) == run_ops(Seq::<Op>::empty(), phase, e));
    assert(run_ops(Seq::<Op>::empty(), phase, e) is Ok);
}

/// Writing `a` to the first addend register and then `b` to the second leaves
/// their sum in the result register, with no read of it: the sum wraps at the
/// register width, and is `a + b` wherever that fits.
pub proof fn law_add_on_write(e: Env, a: i64, b: i64)
    requires
        e.regs.len() == REGISTER_COUNT,
    ensures
        spec_set(catalogue(), 0, a, e) is Ok,
        spec_set(catalogue(), 1, b, spec_set(catalogue(), 0, a, e)->Ok_0) is Ok,
        ({
            let sum = spec_set(catalogue(), 1, b, spec_set(catalogue(), 0, a, e)->Ok_0)->Ok_0.regs[2];
            &&& sum == a.wrapping_add(b)
            &&& (i64::MIN <= a + b <= i64::MAX ==> sum == a + b)
        }),
{
    let w = catalogue();
    assert(w[0].1 == seq![Op::Add]);
    assert(w[1].1 == seq![Op::Add]);
    let e0 = Env { regs: e.regs.update(0, a), ..e };
    lemma_run_one(Op::Add, Phase::Write, e0);
    let e1 = spec_set(w, 0, a, e)->Ok_0;
    let e2 = Env { regs: e1.regs.update(1, b), ..e1 };
    lemma_run_one(Op::Add, Phase::Write, e2);
}

/// The magnitude of `x`.
pub open spec fn magnitude(x: int) -> int {
    if x < 0 {
        -x
    } else {
        x
    }
}

/// Writing the dividend `n` and then the divisor `d` leaves in the quotient and
/// remainder registers `q` and `r` with `q * d + r == n`, `|r| < |d|` and `r` of
/// the sign of `n` (division truncated toward zero); a zero divisor leaves
/// `q == n` and `r == 0`. The one quotient that does not fit a register,
/// `i64::MIN / -1`, is left out.
pub proof fn law_divide_on_write(e: Env, n: i64, d: i64)
    requires
        e.regs.len() == REGISTER_COUNT,
        !(n == i64::MIN && d == -1),
    ensures
        spec_set(catalogue(), 9, n, e) is Ok,
        spec_set(catalogue(), 10, d, spec_set(catalogue(), 9, n, e)->Ok_0) is Ok,
        ({
            let regs = spec_set(catalogue(), 10, d, spec_set(catalogue(), 9, n, e)->Ok_0)->Ok_0.regs;
            let (q, r) = (regs[11] as int, regs[12] as int);
            &&& d == 0 ==> q == n && r == 0
            &&& d != 0 ==> q * d + r == n && magnitude(r) < magnitude(d as int) && (n >= 0 ==> r >= 0)
                && (n < 0 ==> r <= 0)
        }),
{
    let w = catalogue();
    assert(w[9].1 == seq![Op::Div]);
    assert(w[10].1 == seq![Op::Div]);
    let e0 = Env { regs: e.regs.update(9, n), ..e };
    lemma_run_one(Op::Div, Phase::Write, e0);
    let e1 = spec_set(w, 9, n, e)->Ok_0;
    let e2 = Env { regs: e1.regs.update(10, d), ..e1 };
    lemma_run_one(Op::Div, Phase::Write, e2);
    if d != 0 {
        lemma_trunc_div_fits(n, d);
        let (ni, di) = (n as int, d as int);
        if ni >= 0 {
            assert(trunc_div(ni, di) * di + trunc_rem(ni, di) == ni) by (nonlinear_arith)
                requires
                    di != 0,
                    ni >= 0,
                    trunc_div(ni, di) == ni / di,
                    trunc_rem(ni, di) == ni % di,
            ;
        } else {
            assert(trunc_div(ni, di) * di + trunc_rem(ni, di) == ni) by (nonlinear_arith)
                requires
                    di != 0,
                    ni < 0,
                    trunc_div(ni, di) == -((-ni) / di),
                    trunc_rem(ni, di) == -((-ni) % di),
            ;
        }
        assert(div_result(n, d) == (trunc_div(ni, di) as i64, trunc_rem(ni, di) as i64));
    }
}

/// A read of the select result register takes the "if zero" operand where the
/// condition register holds zero and the other operand otherwise, from the values
/// the registers hold at that read, whatever the result register held before.
pub proof fn law_select_on_read(e: Env)
    requires
        e.regs.len() == REGISTER_COUNT,
    ensures
        spec_get(catalogue(), 23, e) is Ok,
        spec_get(catalogue(), 23, e)->Ok_0.1 == if e.regs[20] == 0 {
            e.regs[21]
        } else {
            e.regs[22]
        },
{
    assert(catalogue()[23].0 == seq![Op::Select]);
    lemma_run_one(Op::Select, Phase::Read, e);
}

/// Storing a 64-bit value at a word pair and loading it back gives the value.
pub proof fn law_double_round_trip(words: Seq<u32>, address: int, value: u64)
    requires
        double_in_range(words.len() as int, address),
    ensures
        double_at(store_double_spec(words, address, value), address) == value,
{
    let v = value as int;
    assert(0 <= v / 4294967296 < 4294967296 && 0 <= v % 4294967296 < 4294967296
        && (v / 4294967296) * 4294967296 + v % 4294967296 == v) by (nonlinear_arith)
        requires
            0 <= v < 0x1_0000_0000_0000_0000,
    ;
}

} // verus!
