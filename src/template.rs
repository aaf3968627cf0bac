//! Aperture macro templates: their arithmetic expressions, their parsing
//! from the body of an `AM` statement, and their evaluation against the
//! parameters of a flash.
//!
//! Values are exact fractions whose numerator and denominator fit an `i64`;
//! an operation whose result does not fit is an evaluation error.
use vstd::prelude::*;

use crate::primitive::{
    lemma_span_bounds, span, is_digit, spec_unsigned_decimal, spec_unsigned_integer, unsigned_decimal, unsigned_integer,
    Decimal,
};
use crate::statement::{at, byte_is, from, newlines_end, skip_newlines};

verus! {

/// Largest magnitude of a numerator or a denominator.
pub const VALUE_MAX: i128 = 0x7fff_ffff_ffff_ffff;

/// Bound on the product of two parts of values.
pub const PRODUCT_MAX: i128 = 0x3fff_ffff_ffff_ffff_0000_0000_0000_0001;

/// Largest number of decimals a value may be written with.
pub const SCALE_MAX: usize = 18;

/// A fraction `num / den`, with `den` positive.
#[derive(Clone, Copy, Debug, PartialEq, Eq, Structural)]
pub struct Value {
    pub num: i64,
    pub den: i64,
}

/// A fraction of unbounded integers.
pub type Fraction = (int, int);

impl Value {
    pub open spec fn view(&self) -> Fraction {
        (self.num as int, self.den as int)
    }
}

/// Both parts of `f` fit a value, and the denominator is positive.
pub open spec fn fits(f: Fraction) -> bool {
    -VALUE_MAX <= f.0 <= VALUE_MAX && 0 < f.1 <= VALUE_MAX
}

/// An arithmetic expression of a macro template.
#[derive(Debug, PartialEq)]
pub enum Expr {
    /// A number written in the template.
    Literal(Decimal),
    /// `$n`.
    Variable(u32),
    /// Unary minus.
    Neg(Box<Expr>),
    /// `a + b`.
    Add(Box<Expr>, Box<Expr>),
    /// `a - b`.
    Sub(Box<Expr>, Box<Expr>),
    /// `a x b`.
    Mul(Box<Expr>, Box<Expr>),
    /// `a / b`.
    Div(Box<Expr>, Box<Expr>),
}

/// One statement of a macro template.
#[derive(Debug, PartialEq)]
pub enum MacroStatement {
    /// A primitive with its code and one expression per field.
    Primitive(u32, Vec<Expr>),
    /// `$n=<expr>`: binds a variable for the statements that follow.
    Assign(u32, Expr),
}

/// A concrete shape: the primitive code and the values of its fields.
#[derive(Clone, Debug, PartialEq)]
pub struct ShapeInstance {
    pub code: u32,
    pub values: Vec<Value>,
}

/// Why an expression has no value.
#[derive(Clone, Copy, Debug, PartialEq, Eq, Structural)]
pub enum ExprError {
    /// The variable has no value.
    Unbound(u32),
    /// A division by zero.
    DivisionByZero,
    /// A number does not fit.
    Overflow,
}

/// Why a template could not be evaluated.
#[derive(Clone, Copy, Debug, PartialEq, Eq, Structural)]
pub enum EvalError {
    /// The parameter bound to `$n` does not fit a value.
    Parameter(u32),
    /// An expression of the statement at this index has no value.
    Statement(usize, ExprError),
}

/// The fraction a decimal is worth, if it fits.
pub open spec fn decimal_fraction(d: Decimal) -> Result<Fraction, ExprError> {
    if d.scale <= SCALE_MAX && -VALUE_MAX <= d.mantissa {
        Ok((d.mantissa as int, vstd::arithmetic::power::pow(10, d.scale as nat)))
    } else {
        Err(ExprError::Overflow)
    }
}

/// `f`, unless it does not fit.
pub open spec fn checked(f: Fraction) -> Result<Fraction, ExprError> {
    if fits(f) {
        Ok(f)
    } else {
        Err(ExprError::Overflow)
    }
}

/// The latest binding of `v` among `env`.
pub open spec fn lookup(env: Seq<(u32, Value)>, v: u32) -> Option<Value>
    decreases env.len(),
{
    if env.len() == 0 {
        None
    } else if env.last().0 == v {
        Some(env.last().1)
    } else {
        lookup(env.drop_last(), v)
    }
}

/// The sum of two fractions.
pub open spec fn frac_add(a: Fraction, b: Fraction) -> Fraction {
    (a.0 * b.1 + b.0 * a.1, a.1 * b.1)
}

/// The difference of two fractions.
pub open spec fn frac_sub(a: Fraction, b: Fraction) -> Fraction {
    (a.0 * b.1 - b.0 * a.1, a.1 * b.1)
}

/// The product of two fractions.
pub open spec fn frac_mul(a: Fraction, b: Fraction) -> Fraction {
    (a.0 * b.0, a.1 * b.1)
}

/// The quotient of two fractions, `b` not zero; the denominator stays
/// positive.
pub open spec fn frac_div(a: Fraction, b: Fraction) -> Fraction {
    if b.0 > 0 {
        (a.0 * b.1, a.1 * b.0)
    } else {
        (-(a.0 * b.1), -(a.1 * b.0))
    }
}

/// Applies a binary operation to two results.
pub open spec fn binary(
    a: Result<Fraction, ExprError>,
    b: Result<Fraction, ExprError>,
    op: spec_fn(Fraction, Fraction) -> Result<Fraction, ExprError>,
) -> Result<Fraction, ExprError> {
    match a {
        Err(e) => Err(e),
        Ok(x) => match b {
            Err(e) => Err(e),
            Ok(y) => op(x, y),
        },
    }
}

/// The value of `e` where the variables have the values of `env`.
pub open spec fn eval(e: Expr, env: Seq<(u32, Value)>) -> Result<Fraction, ExprError>
    decreases e,
{
    match e {
        Expr::Literal(d) => decimal_fraction(d),
        Expr::Variable(v) => match lookup(env, v) {
            Some(x) => Ok(x@),
            None => Err(ExprError::Unbound(v)),
        },
        Expr::Neg(a) => match eval(*a, env) {
            Ok(x) => checked((-x.0, x.1)),
            Err(err) => Err(err),
        },
        Expr::Add(a, b) => binary(eval(*a, env), eval(*b, env), |x, y| checked(frac_add(x, y))),
        Expr::Sub(a, b) => binary(eval(*a, env), eval(*b, env), |x, y| checked(frac_sub(x, y))),
        Expr::Mul(a, b) => binary(eval(*a, env), eval(*b, env), |x, y| checked(frac_mul(x, y))),
        Expr::Div(a, b) => binary(
            eval(*a, env),
            eval(*b, env),
            |x: Fraction, y: Fraction|
                if y.0 == 0 {
                    Err(ExprError::DivisionByZero)
                } else {
                    checked(frac_div(x, y))
                },
        ),
    }
}

fn to_value(n: i128, d: i128) -> (r: Result<Value, ExprError>)
    ensures
        r matches Ok(v) ==> fits(v@),
        match checked((n as int, d as int)) {
            Ok(f) => r matches Ok(v) && v@ == f,
            Err(err) => r == Err::<Value, ExprError>(err),
        },
{
    if -VALUE_MAX <= n && n <= VALUE_MAX && 0 < d && d <= VALUE_MAX {
        Ok(Value { num: n as i64, den: d as i64 })
    } else {
        Err(ExprError::Overflow)
    }
}

/// The value of a decimal.
fn decimal_value(d: Decimal) -> (r: Result<Value, ExprError>)
    ensures
        r matches Ok(v) ==> fits(v@),
        match decimal_fraction(d) {
            Ok(f) => r matches Ok(v) && v@ == f,
            Err(err) => r == Err::<Value, ExprError>(err),
        },
{
    if d.scale > SCALE_MAX || (d.mantissa as i128) < -VALUE_MAX {
        return Err(ExprError::Overflow);
    }
    let mut den: i64 = 1;
    let mut k: usize = 0;
    proof {
        reveal_with_fuel(vstd::arithmetic::power::pow, 19);
        assert(vstd::arithmetic::power::pow(10, 18) == 1_000_000_000_000_000_000);
        assert(vstd::arithmetic::power::pow(10, 0) == 1);
    }
    while k < d.scale
        invariant
            k <= d.scale <= SCALE_MAX,
            den as int == vstd::arithmetic::power::pow(10, k as nat),
            vstd::arithmetic::power::pow(10, 18) == 1_000_000_000_000_000_000,
        decreases d.scale - k,
    {
        proof {
            vstd::arithmetic::power::lemma_pow_increases(10, (k + 1) as nat, 18);
            vstd::arithmetic::power::lemma_pow_adds(10, k as nat, 1);
            vstd::arithmetic::power::lemma_pow1(10);
            assert(vstd::arithmetic::power::pow(10, (k + 1) as nat) == den * 10);
            assert(vstd::arithmetic::power::pow(10, (k + 1) as nat) <= vstd::arithmetic::power::pow(10, 18));
            vstd::arithmetic::power::lemma_pow_positive(10, k as nat);
        }
        den = den * 10;
        k += 1;
    }
    proof {
        vstd::arithmetic::power::lemma_pow_positive(10, k as nat);
        vstd::arithmetic::power::lemma_pow_increases(10, k as nat, 18);
    }
    Ok(Value { num: d.mantissa, den })
}

/// Looks up the latest binding of `v`.
fn lookup_var(env: &Vec<(u32, Value)>, v: u32) -> (r: Option<Value>)
    requires
        forall|i: int| 0 <= i < env@.len() ==> fits(#[trigger] env@[i].1@),
    ensures
        r == lookup(env@, v),
        r matches Some(x) ==> fits(x@),
{
    let mut i: usize = env.len();
    assert(env@.subrange(0, env@.len() as int) =~= env@);
    while i > 0
        invariant
            i <= env@.len(),
            lookup(env@.subrange(0, i as int), v) == lookup(env@, v),
            forall|j: int| 0 <= j < env@.len() ==> fits(#[trigger] env@[j].1@),
        decreases i,
    {
        let ghost pre = env@.subrange(0, i as int);
        assert(pre.drop_last() =~= env@.subrange(0, i - 1));
        if env[i - 1].0 == v {
            assert(fits(env@[i - 1].1@));
            return Some(env[i - 1].1);
        }
        i -= 1;
    }
    None
}

/// Evaluates an expression.
pub fn evaluate_expr(e: &Expr, env: &Vec<(u32, Value)>) -> (r: Result<Value, ExprError>)
    requires
        forall|i: int| 0 <= i < env@.len() ==> fits(#[trigger] env@[i].1@),
    ensures
        r matches Ok(v) ==> fits(v@),
        match eval(*e, env@) {
            Ok(f) => r matches Ok(v) && v@ == f,
            Err(err) => r == Err::<Value, ExprError>(err),
        },
    decreases e,
{
    match e {
        Expr::Literal(d) => decimal_value(*d),
        Expr::Variable(v) => match lookup_var(env, *v) {
            Some(x) => Ok(x),
            None => Err(ExprError::Unbound(*v)),
        },
        Expr::Neg(a) => {
            let x = evaluate_expr(a, env)?;
            to_value(-(x.num as i128), x.den as i128)
        },
        Expr::Add(a, b) => {
            let x = evaluate_expr(a, env)?;
            let y = evaluate_expr(b, env)?;
            let (xn, xd, yn, yd) = (x.num as i128, x.den as i128, y.num as i128, y.den as i128);
            proof { lemma_products(xn, xd, yn, yd); }
            to_value(xn * yd + yn * xd, xd * yd)
        },
        Expr::Sub(a, b) => {
            let x = evaluate_expr(a, env)?;
            let y = evaluate_expr(b, env)?;
            let (xn, xd, yn, yd) = (x.num as i128, x.den as i128, y.num as i128, y.den as i128);
            proof { lemma_products(xn, xd, yn, yd); }
            to_value(xn * yd - yn * xd, xd * yd)
        },
        Expr::Mul(a, b) => {
            let x = evaluate_expr(a, env)?;
            let y = evaluate_expr(b, env)?;
            let (xn, xd, yn, yd) = (x.num as i128, x.den as i128, y.num as i128, y.den as i128);
            proof { lemma_products(xn, xd, yn, yd); }
            to_value(xn * yn, xd * yd)
        },
        Expr::Div(a, b) => {
            let x = evaluate_expr(a, env)?;
            let y = evaluate_expr(b, env)?;
            if y.num == 0 {
                return Err(ExprError::DivisionByZero);
            }
            let (xn, xd, yn, yd) = (x.num as i128, x.den as i128, y.num as i128, y.den as i128);
            proof { lemma_products(xn, xd, yn, yd); }
            if yn > 0 {
                to_value(xn * yd, xd * yn)
            } else {
                to_value(-(xn * yd), -(xd * yn))
            }
        },
    }
}

/// A value worth the fraction `f`.
pub open spec fn value_of(f: Fraction) -> Value {
    Value { num: f.0 as i64, den: f.1 as i64 }
}

/// The variables `$1` to `$n` bound to the parameters.
pub open spec fn bind_parameters(params: Seq<Decimal>) -> Result<Seq<(u32, Value)>, EvalError>
    decreases params.len(),
{
    if params.len() == 0 {
        Ok(Seq::empty())
    } else {
        match bind_parameters(params.drop_last()) {
            Err(e) => Err(e),
            Ok(env) => match decimal_fraction(params.last()) {
                Ok(f) => Ok(env.push((params.len() as u32, value_of(f)))),
                Err(_) => Err(EvalError::Parameter(params.len() as u32)),
            },
        }
    }
}

/// The values of `args`, in order, or the error of the first that has none.
pub open spec fn eval_args(args: Seq<Expr>, env: Seq<(u32, Value)>) -> Result<
    Seq<Fraction>,
    ExprError,
>
    decreases args.len(),
{
    if args.len() == 0 {
        Ok(Seq::empty())
    } else {
        match eval_args(args.drop_last(), env) {
            Err(e) => Err(e),
            Ok(vs) => match eval(args.last(), env) {
                Ok(v) => Ok(vs.push(v)),
                Err(e) => Err(e),
            },
        }
    }
}

/// A shape as the primitive code and the fractions of its fields.
pub type ShapeView = (u32, Seq<Fraction>);

/// The shapes that the statements from index `i` on produce, the variables
/// having the values of `env`; an assignment binds its variable for the
/// statements after it.
pub open spec fn run(stmts: Seq<MacroStatement>, i: int, env: Seq<(u32, Value)>) -> Result<
    Seq<ShapeView>,
    EvalError,
>
    decreases stmts.len() - i,
{
    if i < 0 || i >= stmts.len() {
        Ok(Seq::empty())
    } else {
        match stmts[i] {
            MacroStatement::Primitive(code, args) => match eval_args(args@, env) {
                Err(e) => Err(EvalError::Statement(i as usize, e)),
                Ok(vs) => match run(stmts, i + 1, env) {
                    Ok(rest) => Ok(seq![(code, vs)] + rest),
                    Err(e) => Err(e),
                },
            },
            MacroStatement::Assign(v, e) => match eval(e, env) {
                Err(err) => Err(EvalError::Statement(i as usize, err)),
                Ok(f) => run(stmts, i + 1, env.push((v, value_of(f)))),
            },
        }
    }
}

/// What evaluating `stmts` with the parameters `params` gives.
pub open spec fn spec_evaluate(stmts: Seq<MacroStatement>, params: Seq<Decimal>) -> Result<
    Seq<ShapeView>,
    EvalError,
> {
    match bind_parameters(params) {
        Err(e) => Err(e),
        Ok(env) => run(stmts, 0, env),
    }
}

/// The fractions of the values in `vs`.
pub open spec fn fractions(vs: Seq<Value>) -> Seq<Fraction> {
    vs.map_values(|v: Value| v@)
}

/// A shape as its code and the fractions of its fields.
pub open spec fn shape_view(s: ShapeInstance) -> ShapeView {
    (s.code, fractions(s.values@))
}

/// `done` followed by what `rest` holds.
pub open spec fn prepend(done: Seq<ShapeView>, rest: Result<Seq<ShapeView>, EvalError>) -> Result<
    Seq<ShapeView>,
    EvalError,
> {
    match rest {
        Ok(r) => Ok(done + r),
        Err(e) => Err(e),
    }
}

/// Once an expression fails, the expressions after it leave the error as it is.
proof fn lemma_args_error_stays(args: Seq<Expr>, env: Seq<(u32, Value)>, j: int, k: int)
    requires
        0 <= j <= k <= args.len(),
        eval_args(args.subrange(0, j), env) is Err,
    ensures
        eval_args(args.subrange(0, k), env) == eval_args(args.subrange(0, j), env),
    decreases k - j,
{
    if k > j {
        lemma_args_error_stays(args, env, j, k - 1);
        assert(args.subrange(0, k).drop_last() =~= args.subrange(0, k - 1));
    }
}

/// Evaluates the expressions of a primitive.
fn evaluate_args(args: &Vec<Expr>, env: &Vec<(u32, Value)>) -> (r: Result<Vec<Value>, ExprError>)
    requires
        forall|i: int| 0 <= i < env@.len() ==> fits(#[trigger] env@[i].1@),
    ensures
        match eval_args(args@, env@) {
            Ok(vs) => r matches Ok(out) && fractions(out@) == vs,
            Err(e) => r == Err::<Vec<Value>, ExprError>(e),
        },
{
    let mut out: Vec<Value> = Vec::new();
    let mut j: usize = 0;
    assert(fractions(out@) =~= Seq::<Fraction>::empty());
    assert(args@.subrange(0, 0) =~= Seq::<Expr>::empty());
    while j < args.len()
        invariant
            j <= args@.len(),
            forall|i: int| 0 <= i < env@.len() ==> fits(#[trigger] env@[i].1@),
            eval_args(args@.subrange(0, j as int), env@) == Ok::<Seq<Fraction>, ExprError>(
                fractions(out@),
            ),
        decreases args@.len() - j,
    {
        let ghost pre = args@.subrange(0, j + 1);
        assert(pre.drop_last() =~= args@.subrange(0, j as int));
        let v = evaluate_expr(&args[j], env);
        match v {
            Ok(v) => {
                let ghost before = out@;
                out.push(v);
                assert(fractions(out@) =~= fractions(before).push(v@));
            },
            Err(e) => {
                proof {
                    lemma_args_error_stays(args@, env@, j + 1, args@.len() as int);
                    assert(args@.subrange(0, args@.len() as int) =~= args@);
                }
                return Err(e);
            },
        }
        j += 1;
    }
    assert(args@.subrange(0, j as int) =~= args@);
    Ok(out)
}

/// Once a parameter fails to bind, the parameters after it leave the
/// error as it is.
proof fn lemma_bind_error_stays(params: Seq<Decimal>, j: int, k: int)
    requires
        0 <= j <= k <= params.len(),
        bind_parameters(params.subrange(0, j)) is Err,
    ensures
        bind_parameters(params.subrange(0, k)) == bind_parameters(params.subrange(0, j)),
    decreases k - j,
{
    if k > j {
        lemma_bind_error_stays(params, j, k - 1);
        assert(params.subrange(0, k).drop_last() =~= params.subrange(0, k - 1));
    }
}

/// Binds `$1` to `$n` to the parameters.
fn bind(params: &Vec<Decimal>) -> (r: Result<Vec<(u32, Value)>, EvalError>)
    requires
        params@.len() <= u32::MAX,
    ensures
        match bind_parameters(params@) {
            Ok(env) => r matches Ok(out) && out@ == env && forall|i: int|
                0 <= i < out@.len() ==> fits(#[trigger] out@[i].1@),
            Err(e) => r == Err::<Vec<(u32, Value)>, EvalError>(e),
        },
{
    let mut env: Vec<(u32, Value)> = Vec::new();
    let mut k: usize = 0;
    assert(params@.subrange(0, 0) =~= Seq::<Decimal>::empty());
    while k < params.len()
        invariant
            k <= params@.len() <= u32::MAX,
            bind_parameters(params@.subrange(0, k as int)) == Ok::<Seq<(u32, Value)>, EvalError>(
                env@,
            ),
            forall|i: int| 0 <= i < env@.len() ==> fits(#[trigger] env@[i].1@),
        decreases params@.len() - k,
    {
        let ghost pre = params@.subrange(0, k + 1);
        assert(pre.drop_last() =~= params@.subrange(0, k as int));
        match decimal_value(params[k]) {
            Ok(v) => {
                env.push(((k + 1) as u32, v));
            },
            Err(_) => {
                proof {
                    lemma_bind_error_stays(params@, k + 1, params@.len() as int);
                    assert(params@.subrange(0, params@.len() as int) =~= params@);
                }
                return Err(EvalError::Parameter((k + 1) as u32));
            },
        }
        k += 1;
    }
    assert(params@.subrange(0, k as int) =~= params@);
    Ok(env)
}

/// The views of the shapes in `out`.
pub open spec fn views(out: Seq<ShapeInstance>) -> Seq<ShapeView> {
    out.map_values(|s: ShapeInstance| shape_view(s))
}

proof fn lemma_prepend_step(
    done: Seq<ShapeView>,
    x: ShapeView,
    rest: Result<Seq<ShapeView>, EvalError>,
)
    ensures
        prepend(
            done,
            match rest {
                Ok(r) => Ok(seq![x] + r),
                Err(e) => Err(e),
            },
        ) == prepend(done.push(x), rest),
{
    if let Ok(r) = rest {
        assert(done + (seq![x] + r) =~= done.push(x) + r);
    }
}

/// Evaluates a macro template with the parameters of an aperture: `$1` to
/// `$n` are bound to them, the statements are evaluated in order, and each
/// primitive gives one shape.
pub fn evaluate(template: &Vec<MacroStatement>, params: &Vec<Decimal>) -> (r: Result<
    Vec<ShapeInstance>,
    EvalError,
>)
    requires
        params@.len() <= u32::MAX,
    ensures
        match spec_evaluate(template@, params@) {
            Ok(shapes) => r matches Ok(out) && views(out@) == shapes,
            Err(e) => r == Err::<Vec<ShapeInstance>, EvalError>(e),
        },
{
    let mut env = bind(params)?;
    let ghost env0 = env@;
    let mut out: Vec<ShapeInstance> = Vec::new();
    let mut i: usize = 0;
    assert(views(out@) =~= Seq::<ShapeView>::empty());
    while i < template.len()
        invariant
            i <= template@.len(),
            forall|j: int| 0 <= j < env@.len() ==> fits(#[trigger] env@[j].1@),
            prepend(views(out@), run(template@, i as int, env@)) == run(template@, 0, env0),
            bind_parameters(params@) == Ok::<Seq<(u32, Value)>, EvalError>(env0),
        decreases template@.len() - i,
    {
        match &template[i] {
            MacroStatement::Primitive(code, args) => {
                match evaluate_args(args, &env) {
                    Ok(vals) => {
                        let ghost before = out@;
                        let ghost x: ShapeView = (*code, fractions(vals@));
                        out.push(ShapeInstance { code: *code, values: vals });
                        proof {
                            lemma_prepend_step(views(before), x, run(template@, i + 1, env@));
                            assert(views(out@) =~= views(before).push(x));
                        }
                    },
                    Err(e) => return Err(EvalError::Statement(i, e)),
                }
            },
            MacroStatement::Assign(v, e) => {
                match evaluate_expr(e, &env) {
                    Ok(x) => {
                        assert(value_of(x@) == x);
                        env.push((*v, x));
                    },
                    Err(err) => return Err(EvalError::Statement(i, err)),
                }
            },
        }
        i += 1;
    }
    assert(views(out@) + Seq::<ShapeView>::empty() =~= views(out@));
    Ok(out)
}

fn tail(s: &[u8], i: usize) -> (r: &[u8])
    requires
        i <= s@.len(),
    ensures
        r@ == from(s@, i as int),
        s@.len() <= usize::MAX,
{
    &s[i..s.len()]
}

/// The expression at `i` and where it ends, as a pair of values.
pub open spec fn parsed_expr(r: Option<(Expr, usize)>) -> Option<(Expr, int)> {
    match r {
        Some((e, n)) => Some((e, n as int)),
        None => None,
    }
}

/// `<term>{(+|-)<term>}` at `i`, left-associative.
pub open spec fn spec_expr(s: Seq<u8>, i: int) -> Option<(Expr, int)>
    decreases s.len() - i, 4nat,
{
    if 0 <= i <= s.len() {
        match spec_term(s, i) {
            Some((e, p)) => if i < p <= s.len() {
                spec_expr_rest(s, e, p)
            } else {
                None
            },
            None => None,
        }
    } else {
        None
    }
}

/// The rest of a sum after `acc`, from `p` on.
pub open spec fn spec_expr_rest(s: Seq<u8>, acc: Expr, p: int) -> Option<(Expr, int)>
    decreases s.len() - p, 3nat,
{
    if 0 <= p <= s.len() && (at(s, p, '+' as u8) || at(s, p, '-' as u8)) {
        match spec_term(s, p + 1) {
            Some((rhs, q)) => if p + 1 < q <= s.len() {
                spec_expr_rest(
                    s,
                    if at(s, p, '+' as u8) {
                        Expr::Add(Box::new(acc), Box::new(rhs))
                    } else {
                        Expr::Sub(Box::new(acc), Box::new(rhs))
                    },
                    q,
                )
            } else {
                None
            },
            None => None,
        }
    } else {
        Some((acc, p))
    }
}

/// `<factor>{(x|/)<factor>}` at `i`, left-associative.
pub open spec fn spec_term(s: Seq<u8>, i: int) -> Option<(Expr, int)>
    decreases s.len() - i, 2nat,
{
    if 0 <= i <= s.len() {
        match spec_factor(s, i) {
            Some((e, p)) => if i < p <= s.len() {
                spec_term_rest(s, e, p)
            } else {
                None
            },
            None => None,
        }
    } else {
        None
    }
}

/// The rest of a product after `acc`, from `p` on.
pub open spec fn spec_term_rest(s: Seq<u8>, acc: Expr, p: int) -> Option<(Expr, int)>
    decreases s.len() - p, 1nat,
{
    if 0 <= p <= s.len() && (at(s, p, 'x' as u8) || at(s, p, '/' as u8)) {
        match spec_factor(s, p + 1) {
            Some((rhs, q)) => if p + 1 < q <= s.len() {
                spec_term_rest(
                    s,
                    if at(s, p, 'x' as u8) {
                        Expr::Mul(Box::new(acc), Box::new(rhs))
                    } else {
                        Expr::Div(Box::new(acc), Box::new(rhs))
                    },
                    q,
                )
            } else {
                None
            },
            None => None,
        }
    } else {
        Some((acc, p))
    }
}

/// A signed factor, a parenthesised expression, `$n` or a number at `i`.
pub open spec fn spec_factor(s: Seq<u8>, i: int) -> Option<(Expr, int)>
    decreases s.len() - i, 0nat,
{
    if !(0 <= i < s.len()) {
        None
    } else if s[i] == '+' as u8 || s[i] == '-' as u8 {
        match spec_factor(s, i + 1) {
            Some((e, q)) => Some(
                (if s[i] == '-' as u8 {
                    Expr::Neg(Box::new(e))
                } else {
                    e
                }, q),
            ),
            None => None,
        }
    } else if s[i] == '(' as u8 {
        match spec_expr(s, i + 1) {
            Some((e, q)) => if at(s, q, ')' as u8) {
                Some((e, q + 1))
            } else {
                None
            },
            None => None,
        }
    } else if s[i] == '$' as u8 {
        match spec_unsigned_integer(from(s, i + 1)) {
            Some((v, n)) => Some((Expr::Variable(v as u32), i + 1 + n)),
            None => None,
        }
    } else {
        match spec_unsigned_decimal(from(s, i)) {
            Some((d, n)) => Some((Expr::Literal(d), i + n)),
            None => None,
        }
    }
}

/// Parses a sum or a difference of terms at `i`; returns it and where it ends.
pub fn parse_expr(s: &[u8], i: usize) -> (r: Option<(Expr, usize)>)
    requires
        i <= s@.len(),
    ensures
        parsed_expr(r) == spec_expr(s@, i as int),
        r matches Some((_, e)) ==> i < e <= s@.len(),
    decreases s@.len() - i, 2nat,
{
    let (mut acc, mut p) = match parse_term(s, i) {
        Some(v) => v,
        None => return None,
    };
    loop
        invariant
            i < p <= s@.len(),
            spec_expr(s@, i as int) == spec_expr_rest(s@, acc, p as int),
        ensures
            i < p <= s@.len(),
            spec_expr(s@, i as int) == Some((acc, p as int)),
        decreases s@.len() - p,
    {
        let plus = byte_is(s, p, '+' as u8);
        if !plus && !byte_is(s, p, '-' as u8) {
            break;
        }
        let (rhs, q) = match parse_term(s, p + 1) {
            Some(v) => v,
            None => return None,
        };
        acc = if plus {
            Expr::Add(Box::new(acc), Box::new(rhs))
        } else {
            Expr::Sub(Box::new(acc), Box::new(rhs))
        };
        p = q;
    }
    Some((acc, p))
}

/// Parses a product or a quotient of factors at `i`.
pub fn parse_term(s: &[u8], i: usize) -> (r: Option<(Expr, usize)>)
    requires
        i <= s@.len(),
    ensures
        parsed_expr(r) == spec_term(s@, i as int),
        r matches Some((_, e)) ==> i < e <= s@.len(),
    decreases s@.len() - i, 1nat,
{
    let (mut acc, mut p) = match parse_factor(s, i) {
        Some(v) => v,
        None => return None,
    };
    loop
        invariant
            i < p <= s@.len(),
            spec_term(s@, i as int) == spec_term_rest(s@, acc, p as int),
        ensures
            i < p <= s@.len(),
            spec_term(s@, i as int) == Some((acc, p as int)),
        decreases s@.len() - p,
    {
        let times = byte_is(s, p, 'x' as u8);
        if !times && !byte_is(s, p, '/' as u8) {
            break;
        }
        let (rhs, q) = match parse_factor(s, p + 1) {
            Some(v) => v,
            None => return None,
        };
        acc = if times {
            Expr::Mul(Box::new(acc), Box::new(rhs))
        } else {
            Expr::Div(Box::new(acc), Box::new(rhs))
        };
        p = q;
    }
    Some((acc, p))
}

/// Parses a factor at `i`: a signed factor, a parenthesised expression, a
/// variable `$n` or a number.
pub fn parse_factor(s: &[u8], i: usize) -> (r: Option<(Expr, usize)>)
    requires
        i <= s@.len(),
    ensures
        parsed_expr(r) == spec_factor(s@, i as int),
        r matches Some((_, e)) ==> i < e <= s@.len(),
        i < s@.len() && is_digit(s@[i as int]) ==> match spec_unsigned_decimal(from(s@, i as int)) {
            Some((d, n)) => r == Some((Expr::Literal(d), (i + n) as usize)),
            None => r is None,
        },
        at(s@, i as int, '$' as u8) ==> match spec_unsigned_integer(from(s@, i + 1)) {
            Some((v, n)) => r == Some((Expr::Variable(v as u32), (i + 1 + n) as usize)),
            None => r is None,
        },
    decreases s@.len() - i, 0nat,
{
    if i >= s.len() {
        return None;
    }
    let b = s[i];
    if b == '+' as u8 || b == '-' as u8 {
        let (inner, e) = match parse_factor(s, i + 1) {
            Some(v) => v,
            None => return None,
        };
        if b == '-' as u8 {
            Some((Expr::Neg(Box::new(inner)), e))
        } else {
            Some((inner, e))
        }
    } else if b == '(' as u8 {
        let (inner, e) = match parse_expr(s, i + 1) {
            Some(v) => v,
            None => return None,
        };
        if byte_is(s, e, ')' as u8) {
            Some((inner, e + 1))
        } else {
            None
        }
    } else if b == '$' as u8 {
        match unsigned_integer(tail(s, i + 1)) {
            Some((v, n)) => Some((Expr::Variable(v as u32), i + 1 + n)),
            None => None,
        }
    } else {
        match unsigned_decimal(tail(s, i)) {
            Some((d, n)) => Some((Expr::Literal(d), i + n)),
            None => None,
        }
    }
}

/// A macro statement as a value.
pub enum StatementView {
    Primitive(u32, Seq<Expr>),
    Assign(u32, Expr),
}

impl MacroStatement {
    /// The statement as a value.
    pub open spec fn view(&self) -> StatementView {
        match self {
            MacroStatement::Primitive(c, fs) => StatementView::Primitive(*c, fs@),
            MacroStatement::Assign(v, e) => StatementView::Assign(*v, *e),
        }
    }
}

/// The codes of the primitives: circle, vector line, outline, polygon,
/// moire, thermal, and the line and rectangle forms.
pub open spec fn is_primitive_code(c: i32) -> bool {
    c == 1 || c == 2 || c == 4 || c == 5 || c == 6 || c == 7 || c == 20 || c == 21 || c == 22
}

/// `{,<expr>}*` at `q`: the fields of a primitive and where they end.
pub open spec fn spec_field_list(s: Seq<u8>, q: int) -> Option<(Seq<Expr>, int)>
    decreases s.len() - q,
{
    if !(0 <= q <= s.len()) {
        None
    } else if at(s, q, ',' as u8) {
        let start = newlines_end(s, q + 1);
        match spec_expr(s, start) {
            Some((e, end)) => {
                let next = newlines_end(s, end);
                if q < next <= s.len() {
                    match spec_field_list(s, next) {
                        Some((rest, f)) => Some((seq![e] + rest, f)),
                        None => None,
                    }
                } else {
                    None
                }
            },
            None => None,
        }
    } else if at(s, q, '*' as u8) {
        Some((Seq::empty(), q + 1))
    } else {
        None
    }
}

/// `x` before what `r` holds.
pub open spec fn cons_statement(x: StatementView, r: Option<Seq<StatementView>>) -> Option<
    Seq<StatementView>,
> {
    match r {
        Some(rest) => Some(seq![x] + rest),
        None => None,
    }
}

/// The statements of a macro body from `p` on: line breaks are skipped,
/// then an assignment `$n=<expr>*`, a comment `0 <text>*`, or a primitive
/// `<code>{,<expr>}*` with one of the primitive codes.
pub open spec fn spec_template(s: Seq<u8>, p: int) -> Option<Seq<StatementView>>
    decreases s.len() - p,
{
    let p1 = newlines_end(s, p);
    if !(0 <= p <= p1 <= s.len()) {
        None
    } else if p1 == s.len() {
        Some(Seq::empty())
    } else if s[p1] == '$' as u8 {
        match spec_unsigned_integer(from(s, p1 + 1)) {
            Some((v, n)) => if at(s, p1 + 1 + n, '=' as u8) {
                match spec_expr(s, p1 + 2 + n) {
                    Some((e, q)) => if at(s, q, '*' as u8) && p1 < q {
                        cons_statement(StatementView::Assign(v as u32, e), spec_template(s, q + 1))
                    } else {
                        None
                    },
                    None => None,
                }
            } else {
                None
            },
            None => None,
        }
    } else {
        match spec_unsigned_integer(from(s, p1)) {
            Some((code, n)) => if code == 0 {
                let q = span(s, p1 + n, |b: u8| b != '*' as u8);
                if p1 + n <= q < s.len() {
                    spec_template(s, q + 1)
                } else {
                    None
                }
            } else if is_primitive_code(code) {
                match spec_field_list(s, p1 + n) {
                    Some((fs, q)) => if p1 < q <= s.len() {
                        cons_statement(StatementView::Primitive(code as u32, fs), spec_template(s, q))
                    } else {
                        None
                    },
                    None => None,
                }
            } else {
                None
            },
            None => None,
        }
    }
}

/// The views of the statements in `t`.
pub open spec fn statement_views(t: Seq<MacroStatement>) -> Seq<StatementView> {
    t.map_values(|m: MacroStatement| m.view())
}

/// Parses the fields of a primitive after its code, at `p`: `{,<expr>}*`.
fn parse_fields(s: &[u8], p: usize) -> (r: Option<(Vec<Expr>, usize)>)
    requires
        p <= s@.len(),
    ensures
        r matches Some((_, e)) ==> p < e <= s@.len(),
        match spec_field_list(s@, p as int) {
            Some((fs, e)) => r matches Some((x, f)) && x@ == fs && f == e,
            None => r is None,
        },
{
    let mut fields: Vec<Expr> = Vec::new();
    let mut q: usize = p;
    assert(fields@ =~= Seq::<Expr>::empty());
    while byte_is(s, q, ',' as u8)
        invariant
            p <= q <= s@.len(),
            match spec_field_list(s@, p as int) {
                Some((fs, e)) => spec_field_list(s@, q as int) matches Some((rest, f)) && fields@
                    + rest == fs && f == e,
                None => spec_field_list(s@, q as int) is None,
            },
        decreases s@.len() - q,
    {
        let start = skip_newlines(s, q + 1);
        let (e, end) = match parse_expr(s, start) {
            Some(v) => v,
            None => return None,
        };
        let ghost before = fields@;
        let ghost ev = e;
        fields.push(e);
        q = skip_newlines(s, end);
        proof {
            if let Some((fs, f)) = spec_field_list(s@, p as int) {
                let (rest, _) = spec_field_list(s@, q as int)->Some_0;
                assert(before + (seq![ev] + rest) =~= fields@ + rest);
            }
        }
    }
    if byte_is(s, q, '*' as u8) {
        proof {
            if let Some((fs, f)) = spec_field_list(s@, p as int) {
                assert(fields@ + Seq::<Expr>::empty() =~= fields@);
            }
        }
        Some((fields, q + 1))
    } else {
        None
    }
}

/// Parses the body of a macro aperture into its template: primitives
/// `<code>{,<expr>}*`, assignments `$n=<expr>*` and comments `0 <text>*`,
/// with line breaks between them.
pub fn parse_template(body: &[u8]) -> (r: Option<Vec<MacroStatement>>)
    ensures
        match spec_template(body@, 0) {
            Some(v) => r matches Some(t) && statement_views(t@) == v,
            None => r is None,
        },
{
    let mut stmts: Vec<MacroStatement> = Vec::new();
    let mut p: usize = 0;
    assert(statement_views(stmts@) =~= Seq::<StatementView>::empty());
    loop
        invariant
            p <= body@.len(),
            match spec_template(body@, 0) {
                Some(v) => spec_template(body@, p as int) matches Some(rest)
                    && statement_views(stmts@) + rest == v,
                None => spec_template(body@, p as int) is None,
            },
        decreases body@.len() - p,
    {
        let p1 = skip_newlines(body, p);
        if p1 == body.len() {
            proof {
                if let Some(v) = spec_template(body@, 0) {
                    assert(statement_views(stmts@) + Seq::<StatementView>::empty() =~= statement_views(
                        stmts@,
                    ));
                }
            }
            return Some(stmts);
        }
        let end;
        let ghost before = statement_views(stmts@);
        if body[p1] == '$' as u8 {
            let (v, n) = match unsigned_integer(tail(body, p1 + 1)) {
                Some(x) => x,
                None => return None,
            };
            if !byte_is(body, p1 + 1 + n, '=' as u8) {
                return None;
            }
            let (e, q) = match parse_expr(body, p1 + 2 + n) {
                Some(x) => x,
                None => return None,
            };
            if !byte_is(body, q, '*' as u8) {
                return None;
            }
            let ghost sv = StatementView::Assign(v as u32, e);
            stmts.push(MacroStatement::Assign(v as u32, e));
            end = q + 1;
            proof {
                assert(statement_views(stmts@) =~= before.push(sv));
                if let Some(rest) = spec_template(body@, end as int) {
                    assert(before + (seq![sv] + rest) =~= statement_views(stmts@) + rest);
                }
            }
        } else {
            let (code, n) = match unsigned_integer(tail(body, p1)) {
                Some(x) => x,
                None => return None,
            };
            if code == 0 {
                let mut q: usize = p1 + n;
                proof {
                    lemma_span_bounds(body@, q as int, |b: u8| b != '*' as u8);
                }
                while q < body.len() && body[q] != '*' as u8
                    invariant
                        p1 + n <= q <= body@.len(),
                        span(body@, q as int, |b: u8| b != '*' as u8) == span(
                            body@,
                            p1 + n,
                            |b: u8| b != '*' as u8,
                        ),
                    decreases body@.len() - q,
                {
                    q += 1;
                }
                if q >= body.len() {
                    return None;
                }
                end = q + 1;
            } else {
                if !(code == 1 || code == 2 || code == 4 || code == 5 || code == 6 || code == 7
                    || code == 20 || code == 21 || code == 22) {
                    return None;
                }
                let (fields, q) = match parse_fields(body, p1 + n) {
                    Some(x) => x,
                    None => return None,
                };
                let ghost sv = StatementView::Primitive(code as u32, fields@);
                stmts.push(MacroStatement::Primitive(code as u32, fields));
                end = q;
                proof {
                    assert(statement_views(stmts@) =~= before.push(sv));
                    if let Some(rest) = spec_template(body@, end as int) {
                        assert(before + (seq![sv] + rest) =~= statement_views(stmts@) + rest);
                    }
                }
            }
        }
        p = end;
    }
}

/// Products of parts of two values stay far inside an `i128`.
proof fn lemma_products(xn: i128, xd: i128, yn: i128, yd: i128)
    requires
        fits((xn as int, xd as int)),
        fits((yn as int, yd as int)),
    ensures
        -PRODUCT_MAX <= xn * yd <= PRODUCT_MAX,
        -PRODUCT_MAX <= yn * xd <= PRODUCT_MAX,
        -PRODUCT_MAX <= xn * yn <= PRODUCT_MAX,
        -PRODUCT_MAX <= xd * yd <= PRODUCT_MAX,
        -PRODUCT_MAX <= xd * yn <= PRODUCT_MAX,
{
    assert(-PRODUCT_MAX <= xn * yd <= PRODUCT_MAX) by (nonlinear_arith)
        requires
            -VALUE_MAX <= xn <= VALUE_MAX,
            -VALUE_MAX <= yd <= VALUE_MAX,
    ;
    assert(-PRODUCT_MAX <= yn * xd <= PRODUCT_MAX) by (nonlinear_arith)
        requires
            -VALUE_MAX <= yn <= VALUE_MAX,
            -VALUE_MAX <= xd <= VALUE_MAX,
    ;
    assert(-PRODUCT_MAX <= xn * yn <= PRODUCT_MAX) by (nonlinear_arith)
        requires
            -VALUE_MAX <= xn <= VALUE_MAX,
            -VALUE_MAX <= yn <= VALUE_MAX,
    ;
    assert(-PRODUCT_MAX <= xd * yd <= PRODUCT_MAX) by (nonlinear_arith)
        requires
            -VALUE_MAX <= xd <= VALUE_MAX,
            -VALUE_MAX <= yd <= VALUE_MAX,
    ;
    assert(-PRODUCT_MAX <= xd * yn <= PRODUCT_MAX) by (nonlinear_arith)
        requires
            -VALUE_MAX <= xd <= VALUE_MAX,
            -VALUE_MAX <= yn <= VALUE_MAX,
    ;
}

} // verus!
