//! Evaluation of a flat expression by precedence-ordered reduction.
//!
//! No parse tree is built. While operators remain, the leftmost occurrence
//! of the highest remaining priority is selected and applied to its two
//! adjacent operands, collapsing both sequences by one; ties between equal
//! priorities resolve to the left, which makes equal-rank evaluation
//! left-associative.

use vstd::prelude::*;
use crate::ops::Operator;
use crate::rat::{Value, apply_op, apply_op_spec};

verus! {

/// Index of the leftmost operator of maximal priority.
pub open spec fn lmax_spec(ops: Seq<Operator>) -> int
    decreases ops.len(),
{
    if ops.len() <= 1 {
        0
    } else {
        let r = 1 + lmax_spec(ops.drop_first());
        if ops[0].priority_spec() >= ops[r].priority_spec() {
            0
        } else {
            r
        }
    }
}

/// `lmax_spec` selects a valid index whose priority no operator exceeds,
/// and that every operator strictly left of it stays under.
pub proof fn lemma_lmax_props(ops: Seq<Operator>)
    requires
        ops.len() >= 1,
    ensures
        0 <= lmax_spec(ops) < ops.len(),
        forall|j: int|
            0 <= j < ops.len() ==> (#[trigger] ops[j].priority_spec())
                <= ops[lmax_spec(ops)].priority_spec(),
        forall|j: int|
            0 <= j < lmax_spec(ops) ==> (#[trigger] ops[j].priority_spec())
                < ops[lmax_spec(ops)].priority_spec(),
    decreases ops.len(),
{
    if ops.len() > 1 {
        lemma_lmax_props(ops.drop_first());
        let rest = ops.drop_first();
        assert(forall|j: int| 1 <= j < ops.len() ==> ops[j] == rest[j - 1]);
    }
}

/// Any index with the properties of `lemma_lmax_props` is `lmax_spec`.
pub proof fn lemma_lmax_unique(ops: Seq<Operator>, i: int)
    requires
        0 <= i < ops.len(),
        forall|j: int|
            0 <= j < ops.len() ==> (#[trigger] ops[j].priority_spec())
                <= ops[i].priority_spec(),
        forall|j: int|
            0 <= j < i ==> (#[trigger] ops[j].priority_spec()) < ops[i].priority_spec(),
    ensures
        i == lmax_spec(ops),
{
    lemma_lmax_props(ops);
    let r = lmax_spec(ops);
    if i < r {
        assert(ops[i].priority_spec() < ops[r].priority_spec());
        assert(ops[r].priority_spec() <= ops[i].priority_spec());
    } else if r < i {
        assert(ops[r].priority_spec() < ops[i].priority_spec());
        assert(ops[i].priority_spec() <= ops[r].priority_spec());
    }
}

/// Index of the leftmost operator of maximal priority.
pub fn max_op(ops: &Vec<Operator>) -> (i: usize)
    requires
        ops@.len() >= 1,
    ensures
        i == lmax_spec(ops@),
{
    let mut max_idx: usize = 0;
    let mut idx: usize = 0;
    while idx < ops.len()
        invariant
            0 <= max_idx < ops@.len(),
            max_idx <= idx <= ops@.len(),
            forall|j: int|
                0 <= j < idx ==> (#[trigger] ops@[j].priority_spec())
                    <= ops@[max_idx as int].priority_spec(),
            forall|j: int|
                0 <= j < max_idx ==> (#[trigger] ops@[j].priority_spec())
                    < ops@[max_idx as int].priority_spec(),
        decreases ops@.len() - idx,
    {
        if ops[idx].priority() > ops[max_idx].priority() {
            max_idx = idx;
        }
        idx += 1;
    }
    proof {
        lemma_lmax_unique(ops@, max_idx as int);
    }
    max_idx
}

/// Result of reducing the operand sequence `vals` with the operator
/// sequence `ops` (one shorter), collapsing the leftmost maximal priority
/// first.
pub open spec fn eval_spec(vals: Seq<Value>, ops: Seq<Operator>) -> Value
    decreases ops.len(),
    via eval_spec_decreases
{
    if ops.len() == 0 {
        vals[0]
    } else {
        let i = lmax_spec(ops);
        let c = apply_op_spec(ops[i], vals[i], vals[i + 1]);
        eval_spec(vals.update(i, c).remove(i + 1), ops.remove(i))
    }
}

#[via_fn]
proof fn eval_spec_decreases(vals: Seq<Value>, ops: Seq<Operator>) {
    if ops.len() > 0 {
        lemma_lmax_props(ops);
    }
}

/// Reduce `operands` with `operators` until a single value remains.
pub fn evaluate(operands: Vec<Value>, operators: Vec<Operator>) -> (r: Value)
    requires
        operands@.len() == operators@.len() + 1,
        forall|i: int| 0 <= i < operands@.len() ==> operands@[i].wf(),
    ensures
        r == eval_spec(operands@, operators@),
        r.wf(),
{
    let mut vals = operands;
    let mut ops = operators;
    while ops.len() > 0
        invariant
            vals@.len() == ops@.len() + 1,
            forall|i: int| 0 <= i < vals@.len() ==> vals@[i].wf(),
            eval_spec(vals@, ops@) == eval_spec(operands@, operators@),
        decreases ops@.len(),
    {
        let ghost vals0 = vals@;
        let ghost ops0 = ops@;
        let i = max_op(&ops);
        proof {
            lemma_lmax_props(ops@);
        }
        let c = apply_op(ops[i], vals[i], vals[i + 1]);
        vals.set(i, c);
        vals.remove(i + 1);
        ops.remove(i);
        proof {
            assert(vals@ == vals0.update(i as int, c).remove(i as int + 1));
            assert(ops@ == ops0.remove(i as int));
            assert(eval_spec(vals0, ops0) == eval_spec(vals@, ops@));
        }
    }
    vals[0]
}

} // verus!
