//! Rendering of scaled decimal operands and of a whole expression.
//!
//! An operand is a mantissa `k` over the scale `10^d`; it is printed as a
//! plain decimal numeral with trailing fractional zeros removed and no
//! decimal point when nothing remains behind it, the way the natural
//! default textual form of a number looks. An expression is its operands
//! interleaved with operator symbols, single spaces between all tokens.

use vstd::prelude::*;
use vstd::arithmetic::div_mod::{
    lemma_fundamental_div_mod, lemma_mod_division_less_than_divisor, lemma_multiply_divide_lt,
};
use vstd::string::StringExecFns;
use crate::ops::Operator;
use crate::rounding::{pow10, pow10_spec, lemma_pow10_pos};

verus! {

/// The character of a single decimal digit.
pub open spec fn digit_char(n: int) -> char {
    if n == 0 {
        '0'
    } else if n == 1 {
        '1'
    } else if n == 2 {
        '2'
    } else if n == 3 {
        '3'
    } else if n == 4 {
        '4'
    } else if n == 5 {
        '5'
    } else if n == 6 {
        '6'
    } else if n == 7 {
        '7'
    } else if n == 8 {
        '8'
    } else {
        '9'
    }
}

/// Decimal numeral of `n`, most significant digit first, no leading zeros
/// (a single `0` for zero).
pub open spec fn dec_spec(n: nat) -> Seq<char>
    decreases n,
{
    if n < 10 {
        seq![digit_char(n as int)]
    } else {
        dec_spec(n / 10) + seq![digit_char((n % 10) as int)]
    }
}

/// Fractional part `f` written with exactly `d` digits, leading zeros kept.
pub open spec fn frac_spec(f: nat, d: nat) -> Seq<char>
    decreases d,
{
    if d == 0 {
        Seq::empty()
    } else {
        frac_spec(f / 10, (d - 1) as nat).push(digit_char((f % 10) as int))
    }
}

/// Drop trailing zeros of a fraction of `d` digits: the remaining digits
/// and their count.
pub open spec fn trim_spec(f: nat, d: nat) -> (nat, nat)
    decreases d,
{
    if d > 0 && f % 10 == 0 {
        trim_spec(f / 10, (d - 1) as nat)
    } else {
        (f, d)
    }
}

/// Textual form of the scaled decimal `k / 10^d`: optional sign, integer
/// part, and the trimmed fraction behind a point when one remains.
pub open spec fn render_scaled_spec(k: int, d: nat) -> Seq<char> {
    let p = pow10_spec(d) as int;
    let a = if k < 0 {
        -k
    } else {
        k
    };
    let ip = (a / p) as nat;
    let fp = (a % p) as nat;
    let t = trim_spec(fp, d);
    let digits = if t.1 == 0 {
        dec_spec(ip)
    } else {
        dec_spec(ip) + seq!['.'] + frac_spec(t.0, t.1)
    };
    if k < 0 {
        seq!['-'] + digits
    } else {
        digits
    }
}

fn digit_str(n: u64) -> (s: &'static str)
    requires
        n < 10,
    ensures
        s@ == seq![digit_char(n as int)],
{
    proof {
        reveal_strlit("0");
        reveal_strlit("1");
        reveal_strlit("2");
        reveal_strlit("3");
        reveal_strlit("4");
        reveal_strlit("5");
        reveal_strlit("6");
        reveal_strlit("7");
        reveal_strlit("8");
        reveal_strlit("9");
    }
    let s: &'static str = if n == 0 {
        "0"
    } else if n == 1 {
        "1"
    } else if n == 2 {
        "2"
    } else if n == 3 {
        "3"
    } else if n == 4 {
        "4"
    } else if n == 5 {
        "5"
    } else if n == 6 {
        "6"
    } else if n == 7 {
        "7"
    } else if n == 8 {
        "8"
    } else {
        "9"
    };
    proof {
        assert(s@ =~= seq![digit_char(n as int)]);
    }
    s
}

/// Decimal numeral of `n`.
pub fn dec_string(n: u64) -> (s: String)
    ensures
        s@ == dec_spec(n as nat),
    decreases n,
{
    if n < 10 {
        digit_str(n).to_owned()
    } else {
        let mut s = dec_string(n / 10);
        s.append(digit_str(n % 10));
        proof {
            assert(s@ =~= dec_spec(n as nat));
        }
        s
    }
}

fn frac_string(f: u64, d: u8) -> (s: String)
    ensures
        s@ == frac_spec(f as nat, d as nat),
    decreases d,
{
    if d == 0 {
        String::new()
    } else {
        let mut s = frac_string(f / 10, d - 1);
        s.append(digit_str(f % 10));
        proof {
            assert(s@ =~= frac_spec(f as nat, d as nat));
        }
        s
    }
}

fn trim(f: u64, d: u8) -> (r: (u64, u8))
    ensures
        (r.0 as nat, r.1 as nat) == trim_spec(f as nat, d as nat),
    decreases d,
{
    if d > 0 && f % 10 == 0 {
        trim(f / 10, d - 1)
    } else {
        (f, d)
    }
}

/// Render the scaled decimal `k / 10^points`.
pub fn render_scaled(k: i64, points: u8) -> (s: String)
    requires
        points <= 18,
    ensures
        s@ == render_scaled_spec(k as int, points as nat),
{
    let p = pow10(points);
    let a: u64 = if k < 0 {
        (-(k as i128)) as u64
    } else {
        k as u64
    };
    let pu = p as u64;
    let ip = a / pu;
    let fp = a % pu;
    let (f2, d2) = trim(fp, points);
    let mut s = if k < 0 {
        "-".to_owned()
    } else {
        String::new()
    };
    let ds = dec_string(ip);
    s.append(ds.as_str());
    if d2 > 0 {
        s.append(".");
        let fs = frac_string(f2, d2);
        s.append(fs.as_str());
    }
    proof {
        reveal_strlit("-");
        reveal_strlit(".");
        assert(s@ =~= render_scaled_spec(k as int, points as nat));
    }
    s
}

/// Textual form of the whole expression: operands interleaved with
/// operator symbols, one space between consecutive tokens.
pub open spec fn render_expr_spec(ks: Seq<i64>, d: nat, os: Seq<Operator>) -> Seq<char>
    decreases os.len(),
{
    if os.len() == 0 {
        render_scaled_spec(ks[0] as int, d)
    } else {
        render_scaled_spec(ks[0] as int, d) + seq![' '] + seq![os[0].symbol_spec()] + seq![' ']
            + render_expr_spec(ks.drop_first(), d, os.drop_first())
    }
}

fn symbol_str(op: Operator) -> (s: &'static str)
    ensures
        s@ == seq![op.symbol_spec()],
{
    proof {
        reveal_strlit("+");
        reveal_strlit("-");
        reveal_strlit("*");
        reveal_strlit("/");
    }
    let s: &'static str = match op {
        Operator::Addition => "+",
        Operator::Subtraction => "-",
        Operator::Multiplication => "*",
        Operator::Division => "/",
    };
    proof {
        assert(s@ =~= seq![op.symbol_spec()]);
    }
    s
}

fn render_expr_from(ks: &Vec<i64>, points: u8, os: &Vec<Operator>, start: usize) -> (s: String)
    requires
        points <= 18,
        ks@.len() == os@.len() + 1,
        start < ks@.len(),
    ensures
        s@ == render_expr_spec(ks@.skip(start as int), points as nat, os@.skip(start as int)),
    decreases ks@.len() - start,
{
    let mut s = render_scaled(ks[start], points);
    if start < os.len() {
        s.append(" ");
        s.append(symbol_str(os[start]));
        s.append(" ");
        let rest = render_expr_from(ks, points, os, start + 1);
        s.append(rest.as_str());
    }
    proof {
        reveal_strlit(" ");
        let kss = ks@.skip(start as int);
        let oss = os@.skip(start as int);
        if start < os@.len() {
            assert(kss.drop_first() =~= ks@.skip(start as int + 1));
            assert(oss.drop_first() =~= os@.skip(start as int + 1));
        }
        assert(s@ =~= render_expr_spec(kss, points as nat, oss));
    }
    s
}

/// Render the expression with operand mantissas `ks` over `10^points` and
/// the operators `os` between them.
pub fn render_expr(ks: &Vec<i64>, points: u8, os: &Vec<Operator>) -> (s: String)
    requires
        points <= 18,
        ks@.len() == os@.len() + 1,
    ensures
        s@ == render_expr_spec(ks@, points as nat, os@),
{
    let s = render_expr_from(ks, points, os, 0);
    proof {
        assert(ks@.skip(0) =~= ks@);
        assert(os@.skip(0) =~= os@);
    }
    s
}

proof fn lemma_dec_len(n: nat)
    ensures
        dec_spec(n).len() >= 1,
    decreases n,
{
    if n >= 10 {
        lemma_dec_len(n / 10);
    }
}

proof fn lemma_frac_len(f: nat, d: nat)
    ensures
        frac_spec(f, d).len() == d,
    decreases d,
{
    if d > 0 {
        lemma_frac_len(f / 10, (d - 1) as nat);
    }
}

proof fn lemma_trim_zero(f: nat, d: nat)
    requires
        f < pow10_spec(d),
    ensures
        trim_spec(f, d).1 == 0 ==> f == 0,
    decreases d,
{
    if d > 0 && f % 10 == 0 {
        lemma_multiply_divide_lt(f as int, 10, pow10_spec((d - 1) as nat) as int);
        lemma_trim_zero(f / 10, (d - 1) as nat);
        lemma_fundamental_div_mod(f as int, 10);
    }
}

proof fn lemma_dec_nonzero(n: nat)
    requires
        n >= 1,
    ensures
        dec_spec(n) != seq!['0'],
{
    if n < 10 {
        assert(dec_spec(n)[0] == digit_char(n as int));
        assert(digit_char(n as int) != '0');
    } else {
        lemma_dec_len(n / 10);
        assert(dec_spec(n).len() >= 2);
    }
}

/// Number of space characters in a piece of text.
pub open spec fn space_count(s: Seq<char>) -> int
    decreases s.len(),
{
    if s.len() == 0 {
        0
    } else {
        (if s[0] == ' ' {
            1int
        } else {
            0int
        }) + space_count(s.drop_first())
    }
}

proof fn lemma_space_count_add(a: Seq<char>, b: Seq<char>)
    ensures
        space_count(a + b) == space_count(a) + space_count(b),
    decreases a.len(),
{
    if a.len() == 0 {
        assert(a + b =~= b);
    } else {
        assert((a + b).drop_first() =~= a.drop_first() + b);
        assert((a + b)[0] == a[0]);
        lemma_space_count_add(a.drop_first(), b);
    }
}

proof fn lemma_space_count_none(s: Seq<char>)
    requires
        forall|i: int| 0 <= i < s.len() ==> s[i] != ' ',
    ensures
        space_count(s) == 0,
    decreases s.len(),
{
    if s.len() > 0 {
        lemma_space_count_none(s.drop_first());
    }
}

proof fn lemma_dec_no_space(n: nat)
    ensures
        forall|i: int| 0 <= i < dec_spec(n).len() ==> dec_spec(n)[i] != ' ',
    decreases n,
{
    if n >= 10 {
        lemma_dec_no_space(n / 10);
        assert forall|i: int| 0 <= i < dec_spec(n).len() implies dec_spec(n)[i] != ' ' by {
            if i < dec_spec(n / 10).len() {
                assert(dec_spec(n)[i] == dec_spec(n / 10)[i]);
            }
        }
    }
}

proof fn lemma_frac_no_space(f: nat, d: nat)
    ensures
        forall|i: int| 0 <= i < frac_spec(f, d).len() ==> frac_spec(f, d)[i] != ' ',
    decreases d,
{
    if d > 0 {
        lemma_frac_no_space(f / 10, (d - 1) as nat);
        assert forall|i: int| 0 <= i < frac_spec(f, d).len() implies frac_spec(f, d)[i] != ' ' by {
            if i < frac_spec(f / 10, (d - 1) as nat).len() {
                assert(frac_spec(f, d)[i] == frac_spec(f / 10, (d - 1) as nat)[i]);
            }
        }
    }
}

/// An operand rendering holds no space: a sign, digits and at most one
/// point. Splitting the expression text at spaces therefore cannot split
/// an operand.
pub proof fn lemma_render_scaled_no_space(k: int, d: nat)
    ensures
        space_count(render_scaled_spec(k, d)) == 0,
{
    lemma_pow10_pos(d);
    let p = pow10_spec(d) as int;
    let a = if k < 0 {
        -k
    } else {
        k
    };
    let ip = (a / p) as nat;
    let fp = (a % p) as nat;
    let t = trim_spec(fp, d);
    lemma_dec_no_space(ip);
    lemma_space_count_none(dec_spec(ip));
    if t.1 == 0 {
        if k < 0 {
            lemma_space_count_add(seq!['-'], dec_spec(ip));
            lemma_space_count_none(seq!['-']);
        }
    } else {
        lemma_frac_no_space(t.0, t.1);
        lemma_space_count_none(frac_spec(t.0, t.1));
        lemma_space_count_none(seq!['.']);
        lemma_space_count_add(dec_spec(ip), seq!['.']);
        lemma_space_count_add(dec_spec(ip) + seq!['.'], frac_spec(t.0, t.1));
        if k < 0 {
            lemma_space_count_add(seq!['-'], dec_spec(ip) + seq!['.'] + frac_spec(t.0, t.1));
            lemma_space_count_none(seq!['-']);
        }
    }
}

/// The rendered expression holds exactly two spaces for each operator
/// slot: together with `lemma_render_scaled_no_space` this pins the token
/// shape of the text — splitting it at single spaces yields the operands
/// and the `os.len()` operator symbols, alternating.
pub proof fn lemma_render_expr_spaces(ks: Seq<i64>, d: nat, os: Seq<Operator>)
    requires
        ks.len() == os.len() + 1,
    ensures
        space_count(render_expr_spec(ks, d, os)) == 2 * os.len(),
    decreases os.len(),
{
    let head = render_scaled_spec(ks[0] as int, d);
    lemma_render_scaled_no_space(ks[0] as int, d);
    if os.len() == 0 {
    } else {
        let sym = seq![os[0].symbol_spec()];
        let rest = render_expr_spec(ks.drop_first(), d, os.drop_first());
        lemma_render_expr_spaces(ks.drop_first(), d, os.drop_first());
        lemma_space_count_none(sym);
        assert(space_count(seq![' ']) == 1) by {
            reveal_with_fuel(space_count, 3);
            assert(seq![' '].drop_first() =~= Seq::<char>::empty());
            assert(space_count(Seq::<char>::empty()) == 0);
        }
        lemma_space_count_add(head, seq![' ']);
        lemma_space_count_add(head + seq![' '], sym);
        lemma_space_count_add(head + seq![' '] + sym, seq![' ']);
        lemma_space_count_add(head + seq![' '] + sym + seq![' '], rest);
    }
}

/// A nonzero operand never renders as the literal zero, whatever the
/// scale.
pub proof fn lemma_render_scaled_nonzero(k: int, d: nat)
    requires
        k != 0,
    ensures
        render_scaled_spec(k, d) != seq!['0'],
{
    lemma_pow10_pos(d);
    let p = pow10_spec(d) as int;
    let a = if k < 0 {
        -k
    } else {
        k
    };
    let ip = (a / p) as nat;
    let fp = (a % p) as nat;
    lemma_mod_division_less_than_divisor(a, p);
    let t = trim_spec(fp, d);
    if k < 0 {
        assert(render_scaled_spec(k, d)[0] == '-');
        assert(seq!['0'][0] == '0');
    } else {
        if t.1 == 0 {
            lemma_trim_zero(fp, d);
            lemma_fundamental_div_mod(a, p);
            assert(ip >= 1) by (nonlinear_arith)
                requires
                    a == p * (a / p) + (a % p),
                    a % p == 0,
                    a >= 1,
                    p >= 1,
                    ip == a / p,
            ;
            lemma_dec_nonzero(ip);
        } else {
            lemma_dec_len(ip);
            lemma_frac_len(t.0, t.1);
            assert(render_scaled_spec(k, d).len() >= 3);
        }
    }
}

} // verus!
