//! What the operators do to values, stated as functions of the models of the values.

use vstd::prelude::*;
use vstd::std_specs::iter::IteratorSpec;
use vstd::string::StringExecFns;
use crate::interpreter::RunErr;
use crate::interpreter::RunErrModel;
use crate::node::Bop;
use crate::node::Const;
use crate::node::ConstModel;
use crate::node::Uop;

verus! {

/// The reason of the type error of `+`.
pub const FAULT_PLUS: &'static str = "Add operator must be applied to 2 ints, floats, or strings";

/// The reason of the type error of `*`.
pub const FAULT_MULTIPLY: &'static str =
    "Multiply operator must be applied to 2 ints, 2 floats, or between a string and an int";

/// The reason of the type error of `-` between two values.
pub const FAULT_MINUS: &'static str = "Subtract operator must be applied to 2 ints or 2 floats";

/// The reason of the type error of `/`.
pub const FAULT_DIVIDE: &'static str = "Divide operator must be applied to 2 ints or 2 floats";

/// The reason of the type error of `/` by the integer zero.
pub const FAULT_DIVIDE_ZERO: &'static str = "Divide operator rhs must not be zero";

/// The reason of the type error of `**`.
pub const FAULT_EXP: &'static str = "Exponent operator must be applied to an int and a positive int";

/// The reason of the type error of `**` to a negative exponent.
pub const FAULT_EXP_NEGATIVE: &'static str = "Exponent operator rhs must be a positive int";

/// The reason of the type error of `<`, `<=`, `>` and `>=`.
pub const FAULT_ORDER: &'static str =
    "Comparison operator must be applied to 2 values of the same kind";

/// The reason of the type error of `&&`.
pub const FAULT_AND: &'static str = "And operator must be applied to 2 bools";

/// The reason of the type error of `||`.
pub const FAULT_OR: &'static str = "Or operator must be applied to 2 bools";

/// The reason of the type error of `!`.
pub const FAULT_NOT: &'static str = "Not operator must be applied to a bool";

/// The reason of the type error of `-` before one value.
pub const FAULT_NEGATE: &'static str = "Unary minus must be applied to an int or a float";

/// The reason of the type error of a node that is no expression of the kinds that are
/// reduced.
pub const FAULT_NODE: &'static str = "Only constants, variables, operators and calls are evaluated";

/// The arithmetic on floating values that the host does.
#[derive(Debug, Clone, Copy, PartialEq, Eq)]
pub enum FloatOp {
    Add,
    Sub,
    Mul,
    Div,
}

/// The sign bit of a floating value.
pub const FLOAT_SIGN: u64 = 0x8000_0000_0000_0000;

/// The bits of a floating value but the sign bit.
pub const FLOAT_MAGNITUDE: u64 = 0x7FFF_FFFF_FFFF_FFFF;

/// The magnitude of the infinities; a greater magnitude is no number.
pub const FLOAT_INFINITY: u64 = 0x7FF0_0000_0000_0000;

/// Whether the bits `x` are no number.
pub open spec fn float_is_nan(x: u64) -> bool {
    (x & FLOAT_MAGNITUDE) > FLOAT_INFINITY
}

/// An integer that orders the numbers among the floating values as the values themselves
/// are ordered: the magnitude, negated under the sign bit. Both zeros have the rank zero.
pub open spec fn float_rank(x: u64) -> int {
    if x & FLOAT_SIGN != 0 {
        -((x & FLOAT_MAGNITUDE) as int)
    } else {
        (x & FLOAT_MAGNITUDE) as int
    }
}

/// Whether the floating value `a` equals `b`: both are numbers of the same rank.
pub open spec fn float_equal(a: u64, b: u64) -> bool {
    !float_is_nan(a) && !float_is_nan(b) && float_rank(a) == float_rank(b)
}

/// Whether the floating value `a` is less than `b`: both are numbers, and `a` has the
/// lower rank.
pub open spec fn float_less(a: u64, b: u64) -> bool {
    !float_is_nan(a) && !float_is_nan(b) && float_rank(a) < float_rank(b)
}

/// The floating value `x` with its sign changed.
pub open spec fn float_negate(x: u64) -> u64 {
    x ^ FLOAT_SIGN
}

/// Whether the text `a` comes before `b` in the lexicographic order of their characters.
pub open spec fn text_less(a: Seq<char>, b: Seq<char>) -> bool
    decreases a.len(),
{
    if b.len() == 0 {
        false
    } else if a.len() == 0 {
        true
    } else if a[0] != b[0] {
        a[0] < b[0]
    } else {
        text_less(a.drop_first(), b.drop_first())
    }
}

/// The quotient of `x` by `d` rounded toward zero.
pub open spec fn truncated_quotient(x: int, d: int) -> int
    recommends
        d != 0,
{
    if x >= 0 && d > 0 {
        x / d
    } else if x < 0 && d < 0 {
        (-x) / (-d)
    } else if x < 0 {
        -((-x) / d)
    } else {
        -(x / (-d))
    }
}

/// The power of `base` to `exp` by repeated multiplication, each product wrapped to 32
/// bits.
pub open spec fn wrapping_power(base: i32, exp: nat) -> i32
    decreases exp,
{
    if exp == 0 {
        1
    } else {
        wrapping_power(base, (exp - 1) as nat).wrapping_mul(base)
    }
}

/// The text `s` repeated `n` times; the empty text for `n` at or below zero.
pub open spec fn repeated(s: Seq<char>, n: int) -> Seq<char>
    decreases n,
{
    if n <= 0 {
        Seq::empty()
    } else {
        repeated(s, n - 1) + s
    }
}

/// The arithmetic on floating values that a binary operator stands for, if it is one of
/// `+`, `-`, `*` and `/`.
pub open spec fn arithmetic(op: Bop) -> Option<FloatOp> {
    match op {
        Bop::Plus => Some(FloatOp::Add),
        Bop::Minus => Some(FloatOp::Sub),
        Bop::Multiply => Some(FloatOp::Mul),
        Bop::Divide => Some(FloatOp::Div),
        _ => None,
    }
}

/// What `==` gives for two values: within a variant whether the values are equal, across
/// variants `false`.
pub open spec fn values_equal(l: ConstModel, r: ConstModel) -> bool {
    match (l, r) {
        (ConstModel::Int(a), ConstModel::Int(b)) => a == b,
        (ConstModel::Float(a), ConstModel::Float(b)) => float_equal(a, b),
        (ConstModel::Bool(a), ConstModel::Bool(b)) => a == b,
        (ConstModel::Char(a), ConstModel::Char(b)) => a == b,
        (ConstModel::String(a), ConstModel::String(b)) => a == b,
        _ => false,
    }
}

/// Whether `l` is less than `r`, for two values of one variant; nothing across variants.
/// Integers and floating values are ordered as numbers, `false` comes before `true`,
/// characters are ordered by their scalars, and text lexicographically.
pub open spec fn values_less(l: ConstModel, r: ConstModel) -> Option<bool> {
    match (l, r) {
        (ConstModel::Int(a), ConstModel::Int(b)) => Some(a < b),
        (ConstModel::Float(a), ConstModel::Float(b)) => Some(float_less(a, b)),
        (ConstModel::Bool(a), ConstModel::Bool(b)) => Some(!a && b),
        (ConstModel::Char(a), ConstModel::Char(b)) => Some(a < b),
        (ConstModel::String(a), ConstModel::String(b)) => Some(text_less(a, b)),
        _ => None,
    }
}

/// What an ordering operator gives for two values: `l < r` for `Lt`, `r < l` for `Gt`,
/// `l < r` or `l == r` for `Leq`, `r < l` or `l == r` for `Geq`; a type error across
/// variants.
pub open spec fn ordered(op: Bop, l: ConstModel, r: ConstModel) -> Result<ConstModel, RunErrModel> {
    match (values_less(l, r), values_less(r, l)) {
        (Some(less), Some(greater)) => Ok(
            ConstModel::Bool(
                match op {
                    Bop::Lt => less,
                    Bop::Gt => greater,
                    Bop::Leq => less || values_equal(l, r),
                    _ => greater || values_equal(l, r),
                },
            ),
        ),
        _ => Err(RunErrModel::Type(FAULT_ORDER@)),
    }
}

/// What a binary operator gives for two values, where `float_op` is the arithmetic of the
/// host on floating values.
///
/// `+` adds integers and floating values and concatenates text. `*` multiplies integers
/// and floating values and repeats a text. `-` and `/` take integers and floating values;
/// the quotient of integers is rounded toward zero, and a divisor of zero is a type error.
/// `**` takes an integer and an exponent that is not negative. Integer results wrap to 32
/// bits. `==` and `!=` take any two values; the ordering operators take two values of one
/// variant. `&&` and `||` take booleans. Everything else is a type error.
pub open spec fn binop(
    op: Bop,
    l: ConstModel,
    r: ConstModel,
    float_op: spec_fn(FloatOp, u64, u64) -> u64,
) -> Result<ConstModel, RunErrModel> {
    match op {
        Bop::Plus => match (l, r) {
            (ConstModel::Int(a), ConstModel::Int(b)) => Ok(ConstModel::Int(a.wrapping_add(b))),
            (ConstModel::Float(a), ConstModel::Float(b)) => Ok(
                ConstModel::Float(float_op(FloatOp::Add, a, b)),
            ),
            (ConstModel::String(a), ConstModel::String(b)) => Ok(ConstModel::String(a + b)),
            _ => Err(RunErrModel::Type(FAULT_PLUS@)),
        },
        Bop::Multiply => match (l, r) {
            (ConstModel::Int(a), ConstModel::Int(b)) => Ok(ConstModel::Int(a.wrapping_mul(b))),
            (ConstModel::Float(a), ConstModel::Float(b)) => Ok(
                ConstModel::Float(float_op(FloatOp::Mul, a, b)),
            ),
            (ConstModel::String(a), ConstModel::Int(b)) => Ok(
                ConstModel::String(repeated(a, b as int)),
            ),
            _ => Err(RunErrModel::Type(FAULT_MULTIPLY@)),
        },
        Bop::Minus => match (l, r) {
            (ConstModel::Int(a), ConstModel::Int(b)) => Ok(ConstModel::Int(a.wrapping_sub(b))),
            (ConstModel::Float(a), ConstModel::Float(b)) => Ok(
                ConstModel::Float(float_op(FloatOp::Sub, a, b)),
            ),
            _ => Err(RunErrModel::Type(FAULT_MINUS@)),
        },
        Bop::Divide => match (l, r) {
            (ConstModel::Int(a), ConstModel::Int(b)) => if b == 0 {
                Err(RunErrModel::Type(FAULT_DIVIDE_ZERO@))
            } else if a == i32::MIN && b == -1 {
                Ok(ConstModel::Int(i32::MIN))
            } else {
                Ok(ConstModel::Int(truncated_quotient(a as int, b as int) as i32))
            },
            (ConstModel::Float(a), ConstModel::Float(b)) => Ok(
                ConstModel::Float(float_op(FloatOp::Div, a, b)),
            ),
            _ => Err(RunErrModel::Type(FAULT_DIVIDE@)),
        },
        Bop::Exp => match (l, r) {
            (ConstModel::Int(a), ConstModel::Int(b)) => if b < 0 {
                Err(RunErrModel::Type(FAULT_EXP_NEGATIVE@))
            } else {
                Ok(ConstModel::Int(wrapping_power(a, b as nat)))
            },
            _ => Err(RunErrModel::Type(FAULT_EXP@)),
        },
        Bop::Eq => Ok(ConstModel::Bool(values_equal(l, r))),
        Bop::Neq => Ok(ConstModel::Bool(!values_equal(l, r))),
        Bop::Leq => ordered(op, l, r),
        Bop::Geq => ordered(op, l, r),
        Bop::Lt => ordered(op, l, r),
        Bop::Gt => ordered(op, l, r),
        Bop::And => match (l, r) {
            (ConstModel::Bool(a), ConstModel::Bool(b)) => Ok(ConstModel::Bool(a && b)),
            _ => Err(RunErrModel::Type(FAULT_AND@)),
        },
        Bop::Or => match (l, r) {
            (ConstModel::Bool(a), ConstModel::Bool(b)) => Ok(ConstModel::Bool(a || b)),
            _ => Err(RunErrModel::Type(FAULT_OR@)),
        },
    }
}

/// What a unary operator gives for a value: `!` takes a boolean, `-` an integer, which
/// wraps to 32 bits, or a floating value.
pub open spec fn unop(op: Uop, v: ConstModel) -> Result<ConstModel, RunErrModel> {
    match op {
        Uop::Not => match v {
            ConstModel::Bool(b) => Ok(ConstModel::Bool(!b)),
            _ => Err(RunErrModel::Type(FAULT_NOT@)),
        },
        Uop::Minus => match v {
            ConstModel::Int(n) => Ok(ConstModel::Int(0i32.wrapping_sub(n))),
            ConstModel::Float(x) => Ok(ConstModel::Float(float_negate(x))),
            _ => Err(RunErrModel::Type(FAULT_NEGATE@)),
        },
    }
}

/// The model of what an evaluation returns.
pub open spec fn outcome(r: Result<Const, RunErr>) -> Result<ConstModel, RunErrModel> {
    match r {
        Ok(value) => Ok(value@),
        Err(e) => Err(e@),
    }
}

/// Whether `f` may give `out` for the operation `op` on `a` and `b`.
pub open spec fn computes<A: Fn(FloatOp, u64, u64) -> u64>(
    f: A,
    op: FloatOp,
    a: u64,
    b: u64,
    out: u64,
) -> bool {
    call_ensures(f, (op, a, b), out)
}

/// The function on the bits of floating values that `f` computes.
pub open spec fn float_fn<A: Fn(FloatOp, u64, u64) -> u64>(f: A) -> spec_fn(FloatOp, u64, u64) -> u64 {
    |op: FloatOp, a: u64, b: u64| choose|out: u64| computes(f, op, a, b, out)
}

/// What the evaluator asks of the arithmetic of the host on floating values: it takes any
/// operation on any two values, and what it answers depends on them alone.
pub open spec fn float_ok<A: Fn(FloatOp, u64, u64) -> u64>(f: A) -> bool {
    &&& forall|op: FloatOp, a: u64, b: u64| call_requires(f, (op, a, b))
    &&& forall|op: FloatOp, a: u64, b: u64, o1: u64, o2: u64|
        #[trigger] computes(f, op, a, b, o1) && #[trigger] computes(f, op, a, b, o2) ==> o1 == o2
}

/// Whether the text `a` comes before `b` in the lexicographic order of their characters.
fn string_less(a: &String, b: &String) -> (r: bool)
    ensures
        r == text_less(a@, b@),
{
    broadcast use vstd::string::group_string_axioms;

    let mut left = a.as_str().chars();
    let mut right = b.as_str().chars();
    loop
        invariant
            left.obeys_prophetic_iter_laws(),
            right.obeys_prophetic_iter_laws(),
            left.decrease() is Some,
            text_less(left.remaining(), right.remaining()) == text_less(a@, b@),
        decreases left.decrease()->0,
    {
        let y = right.next();
        let x = left.next();
        match (x, y) {
            (_, None) => {
                return false;
            },
            (None, Some(_)) => {
                return true;
            },
            (Some(c), Some(d)) => {
                if c != d {
                    return c < d;
                }
            },
        }
    }
}

/// Whether the floating value `a` is less than `b`.
pub fn float_lt(a: u64, b: u64) -> (r: bool)
    ensures
        r == float_less(a, b),
{
    let ma: u64 = a & FLOAT_MAGNITUDE;
    let mb: u64 = b & FLOAT_MAGNITUDE;
    if ma > FLOAT_INFINITY || mb > FLOAT_INFINITY {
        false
    } else if a & FLOAT_SIGN != 0 {
        if b & FLOAT_SIGN != 0 {
            mb < ma
        } else {
            ma != 0 || mb != 0
        }
    } else {
        if b & FLOAT_SIGN != 0 {
            false
        } else {
            ma < mb
        }
    }
}

/// Whether the floating value `a` equals `b`.
pub fn float_eq(a: u64, b: u64) -> (r: bool)
    ensures
        r == float_equal(a, b),
{
    let ma: u64 = a & FLOAT_MAGNITUDE;
    let mb: u64 = b & FLOAT_MAGNITUDE;
    if ma > FLOAT_INFINITY || mb > FLOAT_INFINITY {
        false
    } else if (a & FLOAT_SIGN != 0) == (b & FLOAT_SIGN != 0) {
        ma == mb
    } else {
        ma == 0 && mb == 0
    }
}

/// The quotient of two integers, rounded toward zero and wrapped to 32 bits.
fn divide(a: i32, b: i32) -> (q: i32)
    requires
        b != 0,
    ensures
        q == if a == i32::MIN && b == -1 {
            i32::MIN
        } else {
            truncated_quotient(a as int, b as int) as i32
        },
{
    proof {
        let x = a as int;
        let d = b as int;
        lemma_quotient_bounds(x, d);
        assert(x * -1 == -x);
        assert(d * -1 == -d);
        if x < 0 && d > 0 {
            assert(((x * -1) / d) * -1 == -((-x) / d));
        }
        if x > 0 && d < 0 {
            assert((x / (d * -1)) * -1 == -(x / (-d)));
        }
        if x < 0 && d < 0 {
            assert((x * -1) / (d * -1) == (-x) / (-d));
        }
        if x == 0 {
            vstd::arithmetic::div_mod::lemma_div_basics(if d < 0 { -d } else { d });
        }
    }
    match a.checked_div(b) {
        Some(q) => q,
        None => i32::MIN,
    }
}

/// A quotient rounded toward zero has the sign of the exact quotient and is no larger in
/// magnitude than the dividend; it is at most half of the dividend in magnitude where the
/// divisor is neither 1 nor -1.
pub proof fn lemma_quotient_bounds(x: int, d: int)
    requires
        d != 0,
    ensures
        x >= 0 ==> -x <= truncated_quotient(x, d) <= x,
        x < 0 ==> x <= truncated_quotient(x, d) <= -x,
        (x < 0) != (d < 0) ==> truncated_quotient(x, d) <= 0,
        x < 0 && d < -1 ==> 2 * truncated_quotient(x, d) <= -x,
        d == 1 ==> truncated_quotient(x, d) == x,
        d == -1 ==> truncated_quotient(x, d) == -x,
{
    let ax = if x < 0 { -x } else { x };
    let ad = if d < 0 { -d } else { d };
    vstd::arithmetic::div_mod::lemma_div_pos_is_pos(ax, ad);
    vstd::arithmetic::div_mod::lemma_div_nonincreasing(ax, ad);
    vstd::arithmetic::div_mod::lemma_div_basics(ax);
    if ad >= 2 {
        vstd::arithmetic::div_mod::lemma_div_is_ordered_by_denominator(ax, 2, ad);
    }
}

/// The power of `base` to `exp` by repeated multiplication, each product wrapped to 32
/// bits.
fn power(base: i32, exp: i32) -> (r: i32)
    requires
        exp >= 0,
    ensures
        r == wrapping_power(base, exp as nat),
{
    let mut r: i32 = 1;
    let mut i: i32 = 0;
    while i < exp
        invariant
            0 <= i <= exp,
            r == wrapping_power(base, i as nat),
        decreases exp - i,
    {
        r = r.wrapping_mul(base);
        i = i + 1;
    }
    r
}

/// The text `s` repeated `n` times; the empty text for `n` at or below zero.
fn repeat(s: &String, n: i32) -> (r: String)
    ensures
        r@ == repeated(s@, n as int),
{
    let mut r = String::new();
    let mut i: i32 = 0;
    while i < n
        invariant
            0 <= i,
            n > 0 ==> i <= n,
            n <= 0 ==> i == 0,
            r@ == repeated(s@, i as int),
        decreases n - i,
    {
        r.append(s.as_str());
        i = i + 1;
    }
    r
}

/// Whether two values are equal as `==` has it.
fn equal(l: &Const, r: &Const) -> (b: bool)
    ensures
        b == values_equal(l@, r@),
{
    match (l, r) {
        (Const::Int(a), Const::Int(b)) => *a == *b,
        (Const::Float(a), Const::Float(b)) => float_eq(*a, *b),
        (Const::Bool(a), Const::Bool(b)) => *a == *b,
        (Const::Char(a), Const::Char(b)) => *a == *b,
        (Const::String(a), Const::String(b)) => *a == *b,
        _ => false,
    }
}

/// Whether `l` is less than `r`, for two values of one variant.
fn less(l: &Const, r: &Const) -> (b: Option<bool>)
    ensures
        b == values_less(l@, r@),
{
    match (l, r) {
        (Const::Int(a), Const::Int(b)) => Some(*a < *b),
        (Const::Float(a), Const::Float(b)) => Some(float_lt(*a, *b)),
        (Const::Bool(a), Const::Bool(b)) => Some(!*a && *b),
        (Const::Char(a), Const::Char(b)) => Some(*a < *b),
        (Const::String(a), Const::String(b)) => Some(string_less(a, b)),
        _ => None,
    }
}

/// Applies an ordering operator to two values.
fn order(op: Bop, l: &Const, r: &Const) -> (out: Result<Const, RunErr>)
    requires
        op == Bop::Lt || op == Bop::Gt || op == Bop::Leq || op == Bop::Geq,
    ensures
        outcome(out) == ordered(op, l@, r@),
{
    match (less(l, r), less(r, l)) {
        (Some(lt), Some(gt)) => {
            let b = match op {
                Bop::Lt => lt,
                Bop::Gt => gt,
                Bop::Leq => lt || equal(l, r),
                _ => gt || equal(l, r),
            };
            Ok(Const::Bool(b))
        },
        _ => Err(RunErr::Type(FAULT_ORDER)),
    }
}

/// Applies a binary operator to two values; `float_op` does the arithmetic on floating
/// values.
pub fn apply_binop<A: Fn(FloatOp, u64, u64) -> u64>(
    op: Bop,
    lhs: Const,
    rhs: Const,
    float_op: &A,
) -> (out: Result<Const, RunErr>)
    requires
        float_ok(*float_op),
    ensures
        outcome(out) == binop(op, lhs@, rhs@, float_fn(*float_op)),
        match (arithmetic(op), lhs@, rhs@) {
            (Some(sum), ConstModel::Float(a), ConstModel::Float(b)) => computes(
                *float_op,
                sum,
                a,
                b,
                float_fn(*float_op)(sum, a, b),
            ),
            _ => true,
        },
{
    match op {
        Bop::Plus => match (lhs, rhs) {
            (Const::Int(a), Const::Int(b)) => Ok(Const::Int(a.wrapping_add(b))),
            (Const::Float(a), Const::Float(b)) => Ok(Const::Float(float_apply(float_op, FloatOp::Add, a, b))),
            (Const::String(a), Const::String(b)) => {
                let mut s = a;
                s.append(b.as_str());
                Ok(Const::String(s))
            },
            _ => Err(RunErr::Type(FAULT_PLUS)),
        },
        Bop::Multiply => match (lhs, rhs) {
            (Const::Int(a), Const::Int(b)) => Ok(Const::Int(a.wrapping_mul(b))),
            (Const::Float(a), Const::Float(b)) => Ok(Const::Float(float_apply(float_op, FloatOp::Mul, a, b))),
            (Const::String(a), Const::Int(b)) => Ok(Const::String(repeat(&a, b))),
            _ => Err(RunErr::Type(FAULT_MULTIPLY)),
        },
        Bop::Minus => match (lhs, rhs) {
            (Const::Int(a), Const::Int(b)) => Ok(Const::Int(a.wrapping_sub(b))),
            (Const::Float(a), Const::Float(b)) => Ok(Const::Float(float_apply(float_op, FloatOp::Sub, a, b))),
            _ => Err(RunErr::Type(FAULT_MINUS)),
        },
        Bop::Divide => match (lhs, rhs) {
            (Const::Int(a), Const::Int(b)) => {
                if b == 0 {
                    Err(RunErr::Type(FAULT_DIVIDE_ZERO))
                } else {
                    Ok(Const::Int(divide(a, b)))
                }
            },
            (Const::Float(a), Const::Float(b)) => Ok(Const::Float(float_apply(float_op, FloatOp::Div, a, b))),
            _ => Err(RunErr::Type(FAULT_DIVIDE)),
        },
        Bop::Exp => match (lhs, rhs) {
            (Const::Int(a), Const::Int(b)) => {
                if b < 0 {
                    Err(RunErr::Type(FAULT_EXP_NEGATIVE))
                } else {
                    Ok(Const::Int(power(a, b)))
                }
            },
            _ => Err(RunErr::Type(FAULT_EXP)),
        },
        Bop::Eq => Ok(Const::Bool(equal(&lhs, &rhs))),
        Bop::Neq => Ok(Const::Bool(!equal(&lhs, &rhs))),
        Bop::Leq => order(op, &lhs, &rhs),
        Bop::Geq => order(op, &lhs, &rhs),
        Bop::Lt => order(op, &lhs, &rhs),
        Bop::Gt => order(op, &lhs, &rhs),
        Bop::And => match (lhs, rhs) {
            (Const::Bool(a), Const::Bool(b)) => Ok(Const::Bool(a && b)),
            _ => Err(RunErr::Type(FAULT_AND)),
        },
        Bop::Or => match (lhs, rhs) {
            (Const::Bool(a), Const::Bool(b)) => Ok(Const::Bool(a || b)),
            _ => Err(RunErr::Type(FAULT_OR)),
        },
    }
}

/// Asks the host for the result of `op` on the floating values `a` and `b`.
fn float_apply<A: Fn(FloatOp, u64, u64) -> u64>(float_op: &A, op: FloatOp, a: u64, b: u64) -> (r: u64)
    requires
        float_ok(*float_op),
    ensures
        r == float_fn(*float_op)(op, a, b),
        computes(*float_op, op, a, b, r),
{
    let r = float_op(op, a, b);
    proof {
        assert(computes(*float_op, op, a, b, r));
    }
    r
}

/// Applies a unary operator to a value.
pub fn apply_unop(op: Uop, value: Const) -> (out: Result<Const, RunErr>)
    ensures
        outcome(out) == unop(op, value@),
{
    match op {
        Uop::Not => match value {
            Const::Bool(b) => Ok(Const::Bool(!b)),
            _ => Err(RunErr::Type(FAULT_NOT)),
        },
        Uop::Minus => match value {
            Const::Int(n) => Ok(Const::Int(0i32.wrapping_sub(n))),
            Const::Float(x) => Ok(Const::Float(x ^ FLOAT_SIGN)),
            _ => Err(RunErr::Type(FAULT_NEGATE)),
        },
    }
}

/// Whether two values are of one variant.
pub open spec fn same_variant(l: ConstModel, r: ConstModel) -> bool {
    match (l, r) {
        (ConstModel::Int(_), ConstModel::Int(_)) => true,
        (ConstModel::Float(_), ConstModel::Float(_)) => true,
        (ConstModel::Bool(_), ConstModel::Bool(_)) => true,
        (ConstModel::Char(_), ConstModel::Char(_)) => true,
        (ConstModel::String(_), ConstModel::String(_)) => true,
        _ => false,
    }
}

/// What the six comparison operators give for two values of which `less`, `equal` and
/// `greater` say how the first stands to the second.
pub open spec fn compares_as(
    l: ConstModel,
    r: ConstModel,
    float_op: spec_fn(FloatOp, u64, u64) -> u64,
    less: bool,
    equal: bool,
    greater: bool,
) -> bool {
    &&& binop(Bop::Lt, l, r, float_op) == Ok::<ConstModel, RunErrModel>(ConstModel::Bool(less))
    &&& binop(Bop::Leq, l, r, float_op) == Ok::<ConstModel, RunErrModel>(
        ConstModel::Bool(less || equal),
    )
    &&& binop(Bop::Gt, l, r, float_op) == Ok::<ConstModel, RunErrModel>(ConstModel::Bool(greater))
    &&& binop(Bop::Geq, l, r, float_op) == Ok::<ConstModel, RunErrModel>(
        ConstModel::Bool(greater || equal),
    )
    &&& binop(Bop::Eq, l, r, float_op) == Ok::<ConstModel, RunErrModel>(ConstModel::Bool(equal))
    &&& binop(Bop::Neq, l, r, float_op) == Ok::<ConstModel, RunErrModel>(ConstModel::Bool(!equal))
}

/// Within a variant the comparison operators agree with the order of the wrapped values:
/// that of the numbers for integers and floating values, `false` before `true` for
/// booleans, that of the scalars for characters, and the lexicographic order for text.
pub proof fn lemma_comparisons_within_variant(
    l: ConstModel,
    r: ConstModel,
    float_op: spec_fn(FloatOp, u64, u64) -> u64,
)
    requires
        same_variant(l, r),
    ensures
        match (l, r) {
            (ConstModel::Int(a), ConstModel::Int(b)) => compares_as(l, r, float_op, a < b, a == b, a > b),
            (ConstModel::Float(a), ConstModel::Float(b)) => compares_as(
                l,
                r,
                float_op,
                float_less(a, b),
                float_equal(a, b),
                float_less(b, a),
            ),
            (ConstModel::Bool(a), ConstModel::Bool(b)) => compares_as(
                l,
                r,
                float_op,
                !a && b,
                a == b,
                a && !b,
            ),
            (ConstModel::Char(a), ConstModel::Char(b)) => compares_as(l, r, float_op, a < b, a == b, a > b),
            (ConstModel::String(a), ConstModel::String(b)) => compares_as(
                l,
                r,
                float_op,
                text_less(a, b),
                a == b,
                text_less(b, a),
            ),
            _ => true,
        },
{
}

/// Of two texts either one comes before the other or they are the same text, and only
/// one of the three holds.
pub proof fn lemma_text_order_total(a: Seq<char>, b: Seq<char>)
    ensures
        text_less(a, b) || a == b || text_less(b, a),
        !(text_less(a, b) && text_less(b, a)),
        !(text_less(a, b) && a == b),
    decreases a.len(),
{
    if a.len() == 0 || b.len() == 0 {
        assert(a.len() == 0 && b.len() == 0 ==> a =~= b);
    } else if a[0] == b[0] {
        lemma_text_order_total(a.drop_first(), b.drop_first());
        if a.drop_first() == b.drop_first() {
            assert(a =~= seq![a[0]] + a.drop_first());
            assert(b =~= seq![b[0]] + b.drop_first());
        }
    }
}

/// Across variants `==` gives `false` and `!=` gives `true`, and every other operator
/// gives a type error, but for `*` on a text and an integer, which repeats the text.
pub proof fn lemma_operators_across_variants(
    op: Bop,
    l: ConstModel,
    r: ConstModel,
    float_op: spec_fn(FloatOp, u64, u64) -> u64,
)
    requires
        !same_variant(l, r),
        !(op == Bop::Multiply && l is String && r is Int),
    ensures
        op == Bop::Eq ==> binop(op, l, r, float_op) == Ok::<ConstModel, RunErrModel>(
            ConstModel::Bool(false),
        ),
        op == Bop::Neq ==> binop(op, l, r, float_op) == Ok::<ConstModel, RunErrModel>(
            ConstModel::Bool(true),
        ),
        op != Bop::Eq && op != Bop::Neq ==> (binop(op, l, r, float_op) matches Err(e) && e is Type),
{
}

} // verus!
