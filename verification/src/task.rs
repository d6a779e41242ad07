//! Task generation: configuration, operand and operator sampling, and the
//! assembled arithmetic task.
//!
//! A task's operands are scaled decimals drawn from the configured range;
//! an operand that is exactly zero is redrawn, so the rendered text never
//! contains a literal zero operand. The retry is bounded: if the budget is
//! exhausted, a nonzero endpoint of the range stands in (the configuration
//! is required to offer at least one nonzero value, since a range that
//! holds only zero could never satisfy the rule).

use vstd::prelude::*;
use crate::ops::Operator;
use crate::rat::{Rat, Value};
use crate::rounding::{
    pow10, pow10_spec, round_value, round_value_spec, lemma_pow10_pos, lemma_pow10_18,
};
use crate::render::{render_expr, render_expr_spec, render_scaled_spec, lemma_render_scaled_nonzero};
use crate::eval::{evaluate, eval_spec};
use crate::rng::{fresh_rng, gen_i64_in, gen_usize_in};

verus! {

/// Fewest operands a valid configuration may ask for.
pub const MIN_VARIABLE_NUM: u8 = 2;

/// Most operands a valid configuration may ask for.
pub const MAX_VARIABLE_NUM: u8 = 30;

/// A generated arithmetic task: the rendered expression, the precision the
/// result was rounded to, and the rounded result itself.
#[derive(Clone, Debug)]
pub struct ArithmeticTask {
    /// The task as text: operands and operator symbols, single spaces
    /// between them, no parentheses.
    pub task_string: String,
    /// Number of decimal points the result is rounded to.
    pub result_decimal_points: u8,
    /// The result, rounded to `result_decimal_points` digits.
    pub result: Value,
}

/// Parameters governing one batch of task generation. Validated once via
/// `is_valid`, then treated as immutable.
#[derive(Clone, Debug)]
pub struct Config {
    /// Has to lie in `[MIN_VARIABLE_NUM, MAX_VARIABLE_NUM]`.
    pub variable_num: u8,
    /// Inclusive lower bound of the operand range.
    pub variable_min: i32,
    /// Inclusive upper bound of the operand range.
    pub variable_max: i32,
    /// Has to be non-empty. Which of the provided operators is chosen for
    /// a slot is random, per slot, with replacement.
    pub operators: Vec<Operator>,
    /// Decimal digits each operand is drawn at.
    pub variable_decimal_points: u8,
    /// Decimal digits the final result is rounded to.
    pub result_decimal_points: u8,
    /// Number of tasks generated in one batch.
    pub num_tasks: u8,
}

/// The operand mantissas `ks` over the scale `10^d`, as values ready for
/// evaluation.
pub open spec fn operand_values(ks: Seq<i64>, d: nat) -> Seq<Value> {
    ks.map(|i: int, k: i64| Value::Finite(Rat { num: k, den: pow10_spec(d) as i64 }))
}

/// What a generated task guarantees, given the operand mantissas `ks` and
/// the operator slots `os` that produced it: counts match the
/// configuration, no operand is zero, every operand lies in the scaled
/// range, every operator was picked from the configured set, the text is
/// the rendering of exactly that sequence, and the result is its reduction,
/// rounded.
pub open spec fn task_matches(cfg: Config, t: ArithmeticTask, ks: Seq<i64>, os: Seq<Operator>) -> bool {
    let d = cfg.variable_decimal_points as nat;
    let p = pow10_spec(d) as int;
    &&& ks.len() == cfg.variable_num as int
    &&& os.len() == cfg.variable_num as int - 1
    &&& (forall|i: int| 0 <= i < ks.len() ==> #[trigger] ks[i] != 0)
    &&& (forall|i: int|
        0 <= i < ks.len() ==> cfg.variable_min * p <= #[trigger] ks[i] <= cfg.variable_max * p)
    &&& (forall|i: int| 0 <= i < os.len() ==> cfg.operators@.contains(#[trigger] os[i]))
    &&& t.task_string@ == render_expr_spec(ks, d, os)
    &&& t.result == round_value_spec(eval_spec(operand_values(ks, d), os), cfg.result_decimal_points as nat)
    &&& t.result_decimal_points == cfg.result_decimal_points
}

/// A task that generation may return for `cfg`: some operand and
/// operator sequence witnesses everything `task_matches` states.
pub open spec fn generated_ok(cfg: Config, t: ArithmeticTask) -> bool {
    exists|ks: Seq<i64>, os: Seq<Operator>| task_matches(cfg, t, ks, os)
}

/// A generated task never embeds a literal zero operand in its text: the
/// text renders exactly the witnessing operand sequence, every witnessed
/// operand is nonzero, and a nonzero operand never renders as `0`.
pub proof fn lemma_task_no_zero_operand(
    cfg: Config,
    t: ArithmeticTask,
    ks: Seq<i64>,
    os: Seq<Operator>,
)
    requires
        task_matches(cfg, t, ks, os),
    ensures
        t.task_string@ == render_expr_spec(ks, cfg.variable_decimal_points as nat, os),
        forall|i: int|
            0 <= i < ks.len() ==> render_scaled_spec(
                #[trigger] ks[i] as int,
                cfg.variable_decimal_points as nat,
            ) != seq!['0'],
{
    let d = cfg.variable_decimal_points as nat;
    assert forall|i: int|
        0 <= i < ks.len() implies render_scaled_spec(#[trigger] ks[i] as int, d)
        != seq!['0'] by {
        lemma_render_scaled_nonzero(ks[i] as int, d);
    }
}

/// Draw from `lo..=hi` until the sample is nonzero, within a bounded
/// budget; past the budget a nonzero endpoint of the range stands in.
fn draw_nonzero(rng: &mut rand::rngs::ThreadRng, lo: i64, hi: i64) -> (k: i64)
    requires
        lo <= hi,
        !(lo == 0 && hi == 0),
    ensures
        lo <= k <= hi,
        k != 0,
{
    let mut attempts: u8 = 0;
    while attempts < 64
        invariant
            lo <= hi,
        decreases 64 - attempts,
    {
        let k = gen_i64_in(rng, lo, hi);
        if k != 0 {
            return k;
        }
        attempts += 1;
    }
    if hi != 0 {
        hi
    } else {
        lo
    }
}

fn to_values(ks: &Vec<i64>, den: i64) -> (vs: Vec<Value>)
    requires
        den >= 1,
    ensures
        vs@ == ks@.map(|i: int, k: i64| Value::Finite(Rat { num: k, den: den })),
{
    let mut vs: Vec<Value> = Vec::new();
    let mut i: usize = 0;
    while i < ks.len()
        invariant
            i <= ks@.len(),
            vs@.len() == i as int,
            forall|j: int|
                0 <= j < i ==> #[trigger] vs@[j] == Value::Finite(
                    Rat { num: ks@[j], den: den },
                ),
        decreases ks@.len() - i,
    {
        vs.push(Value::Finite(Rat { num: ks[i], den }));
        i += 1;
    }
    proof {
        assert(vs@ =~= ks@.map(|i: int, k: i64| Value::Finite(Rat { num: k, den: den })));
    }
    vs
}

impl Config {
    /// A configuration is valid when the operand count lies in the fixed
    /// bounds and at least one operator is provided.
    pub open spec fn is_valid_spec(self) -> bool {
        &&& MIN_VARIABLE_NUM <= self.variable_num <= MAX_VARIABLE_NUM
        &&& self.operators@.len() > 0
    }

    /// Whether generation may be attempted with this configuration. The
    /// range ordering, decimal points and task count are not checked here:
    /// they are the caller's responsibility.
    pub fn is_valid(&self) -> (valid: bool)
        ensures
            valid == self.is_valid_spec(),
    {
        if !(self.variable_num >= MIN_VARIABLE_NUM && self.variable_num <= MAX_VARIABLE_NUM) {
            false
        } else if self.operators.len() == 0 {
            false
        } else {
            true
        }
    }

    /// What generation itself needs beyond `is_valid`: machine limits of
    /// the scaled representation (the scaled range bounds must fit `i64`),
    /// an ordered range, and a range that can yield a nonzero operand (a
    /// range holding only zero would leave the zero-rejection rule
    /// nothing to draw).
    pub open spec fn can_generate(self) -> bool {
        let p = pow10_spec(self.variable_decimal_points as nat) as int;
        &&& self.is_valid_spec()
        &&& self.variable_decimal_points <= 18
        &&& self.result_decimal_points <= 18
        &&& self.variable_min <= self.variable_max
        &&& !(self.variable_min == 0 && self.variable_max == 0)
        &&& i64::MIN <= self.variable_min * p
        &&& self.variable_max * p <= i64::MAX
    }

    /// Generate one task: draw `variable_num` nonzero operands from the
    /// scaled range and `variable_num - 1` operators from the configured
    /// set, render the expression, reduce it by precedence, and round the
    /// result.
    pub fn generate_new_task(&self) -> (t: ArithmeticTask)
        requires
            self.can_generate(),
        ensures
            generated_ok(*self, t),
    {
        let d = self.variable_decimal_points;
        let p = pow10(d);
        proof {
            assert(-0x1000_0000_0000_0000_0000_0000 <= (self.variable_min as int) * (p as int)
                <= 0x1000_0000_0000_0000_0000_0000) by (nonlinear_arith)
                requires
                    -0x8000_0000 <= self.variable_min <= 0x7FFF_FFFF,
                    1 <= p <= 1_000_000_000_000_000_000,
            ;
            assert(-0x1000_0000_0000_0000_0000_0000 <= (self.variable_max as int) * (p as int)
                <= 0x1000_0000_0000_0000_0000_0000) by (nonlinear_arith)
                requires
                    -0x8000_0000 <= self.variable_max <= 0x7FFF_FFFF,
                    1 <= p <= 1_000_000_000_000_000_000,
            ;
            assert((self.variable_min as int) * (p as int) <= (self.variable_max as int) * (
            p as int)) by (nonlinear_arith)
                requires
                    self.variable_min <= self.variable_max,
                    p >= 1,
            ;
            assert(self.variable_min != 0 ==> (self.variable_min as int) * (p as int) != 0)
                by (nonlinear_arith)
                requires
                    p >= 1,
            ;
            assert(self.variable_max != 0 ==> (self.variable_max as int) * (p as int) != 0)
                by (nonlinear_arith)
                requires
                    p >= 1,
            ;
        }
        let lo_w: i128 = (self.variable_min as i128) * (p as i128);
        let hi_w: i128 = (self.variable_max as i128) * (p as i128);
        let lo: i64 = lo_w as i64;
        let hi: i64 = hi_w as i64;

        let mut rng = fresh_rng();

        let n = self.variable_num;
        let mut mantissas: Vec<i64> = Vec::new();
        let mut i: u8 = 0;
        while i < n
            invariant
                i <= n,
                lo <= hi,
                !(lo == 0 && hi == 0),
                mantissas@.len() == i as int,
                forall|j: int| 0 <= j < mantissas@.len() ==> #[trigger] mantissas@[j] != 0,
                forall|j: int|
                    0 <= j < mantissas@.len() ==> lo <= #[trigger] mantissas@[j] <= hi,
            decreases n - i,
        {
            let k = draw_nonzero(&mut rng, lo, hi);
            mantissas.push(k);
            i += 1;
        }

        let mut chosen: Vec<Operator> = Vec::new();
        let mut j: u8 = 0;
        while j < n - 1
            invariant
                n >= 2,
                self.operators@.len() >= 1,
                j <= n - 1,
                chosen@.len() == j as int,
                forall|t: int|
                    0 <= t < chosen@.len() ==> self.operators@.contains(#[trigger] chosen@[t]),
            decreases n - 1 - j,
        {
            let idx = gen_usize_in(&mut rng, 0, self.operators.len() - 1);
            let op = self.operators[idx];
            chosen.push(op);
            j += 1;
        }

        let task_string = render_expr(&mantissas, d, &chosen);
        let ghost os_snap = chosen@;
        let vs = to_values(&mantissas, p);
        proof {
            let dn = d as nat;
            assert forall|t: int| 0 <= t < vs@.len() implies vs@[t] == operand_values(
                mantissas@,
                dn,
            )[t] by {}
            assert(vs@ =~= operand_values(mantissas@, dn));
        }
        let reduced = evaluate(vs, chosen);
        let result = round_value(reduced, self.result_decimal_points);
        let t = ArithmeticTask {
            task_string,
            result_decimal_points: self.result_decimal_points,
            result,
        };
        proof {
            assert(task_matches(*self, t, mantissas@, os_snap));
            assert(generated_ok(*self, t));
        }
        t
    }

    /// Generate a batch of exactly `num_tasks` independent tasks.
    pub fn generate_new_tasks(&self) -> (tasks: Vec<ArithmeticTask>)
        requires
            self.can_generate(),
        ensures
            tasks@.len() == self.num_tasks as int,
            forall|i: int| 0 <= i < tasks@.len() ==> generated_ok(*self, #[trigger] tasks@[i]),
    {
        let mut tasks: Vec<ArithmeticTask> = Vec::new();
        let mut i: u8 = 0;
        while i < self.num_tasks
            invariant
                self.can_generate(),
                i <= self.num_tasks,
                tasks@.len() == i as int,
                forall|t: int|
                    0 <= t < tasks@.len() ==> generated_ok(*self, #[trigger] tasks@[t]),
            decreases self.num_tasks - i,
        {
            let ghost prior = tasks@;
            let task = self.generate_new_task();
            tasks.push(task);
            proof {
                assert forall|t: int|
                    0 <= t < tasks@.len() implies generated_ok(*self, #[trigger] tasks@[t]) by {
                    if t < prior.len() {
                        assert(tasks@[t] == prior[t]);
                    } else {
                        assert(tasks@[t] == task);
                    }
                }
            }
            i += 1;
        }
        tasks
    }
}

impl Default for Config {
    /// The known-good default: three operands from `[-100, 100]`, all four
    /// operators, whole operands, one result digit, ten tasks.
    fn default() -> (c: Config)
        ensures
            c.variable_num == 3,
            c.variable_min == -100,
            c.variable_max == 100,
            c.operators@ == seq![
                Operator::Addition,
                Operator::Subtraction,
                Operator::Multiplication,
                Operator::Division,
            ],
            c.variable_decimal_points == 0,
            c.result_decimal_points == 1,
            c.num_tasks == 10,
            c.is_valid_spec(),
            c.can_generate(),
    {
        let mut operators: Vec<Operator> = Vec::new();
        operators.push(Operator::Addition);
        operators.push(Operator::Subtraction);
        operators.push(Operator::Multiplication);
        operators.push(Operator::Division);
        let c = Config {
            variable_num: 3,
            variable_min: -100,
            variable_max: 100,
            operators,
            variable_decimal_points: 0,
            result_decimal_points: 1,
            num_tasks: 10,
        };
        proof {
            assert(c.operators@ =~= seq![
                Operator::Addition,
                Operator::Subtraction,
                Operator::Multiplication,
                Operator::Division,
            ]);
        }
        c
    }
}

} // verus!
