//! General laws of the evaluator, each stated over the evaluation machine
//! `spec_eval` and proved for every state, every fuel and every admissible
//! operand.

use crate::evaluator::{
    lemma_eval_more_fuel, spec_eval, spec_eval_form, spec_eval_list, Ev, EvalErr, EvalSt,
};
use crate::lisptype::Val;
use crate::rational::{trunc_div, Rat};
use crate::type_enums::{BinOp, SpecForms};
use vstd::prelude::*;

verus! {

/// Dividing one integer by a nonzero integer yields the quotient truncated
/// towards zero. The one excluded operand pair is the largest negative
/// integer over minus one, whose quotient does not fit and fails as the
/// machine's checked division does.
pub proof fn law_integer_division(st: EvalSt, fuel: nat, x: int, y: int)
    requires
        i64::MIN <= x <= i64::MAX,
        i64::MIN <= y <= i64::MAX,
        y != 0,
        !(x == i64::MIN && y == -1),
    ensures
        spec_eval(fuel, st, Val::List(seq![Val::BinOp(BinOp::DIV), Val::Int(x), Val::Int(y)]))
            == Ev::Done(st, Val::Int(trunc_div(x, y))),
{
    let items = seq![Val::BinOp(BinOp::DIV), Val::Int(x), Val::Int(y)];
    assert(spec_eval(fuel, st, Val::List(items)) == spec_eval_list(fuel, st, items));
    assert(spec_eval(fuel, st, items[1]) == Ev::Done(st, Val::Int(x)));
    assert(spec_eval(fuel, st, items[2]) == Ev::Done(st, Val::Int(y)));
}

/// Dividing any integer by zero fails with the division-by-zero error and
/// leaves the state unchanged.
pub proof fn law_integer_division_by_zero(st: EvalSt, fuel: nat, x: int)
    requires
        i64::MIN <= x <= i64::MAX,
    ensures
        spec_eval(fuel, st, Val::List(seq![Val::BinOp(BinOp::DIV), Val::Int(x), Val::Int(0)]))
            == Ev::Fail(st, EvalErr::DivisionByZero),
{
    let items = seq![Val::BinOp(BinOp::DIV), Val::Int(x), Val::Int(0)];
    assert(spec_eval(fuel, st, Val::List(items)) == spec_eval_list(fuel, st, items));
    assert(spec_eval(fuel, st, items[1]) == Ev::Done(st, Val::Int(x)));
    assert(spec_eval(fuel, st, items[2]) == Ev::Done(st, Val::Int(0)));
}

/// Dividing any fractional number by a zero one fails with the
/// division-by-zero error — never an infinity — and leaves the state
/// unchanged.
pub proof fn law_float_division_by_zero(st: EvalSt, fuel: nat, x: Rat, y: Rat)
    requires
        y.n == 0,
    ensures
        spec_eval(fuel, st, Val::List(seq![Val::BinOp(BinOp::DIV), Val::Float(x), Val::Float(y)]))
            == Ev::Fail(st, EvalErr::DivisionByZero),
{
    let items = seq![Val::BinOp(BinOp::DIV), Val::Float(x), Val::Float(y)];
    assert(spec_eval(fuel, st, Val::List(items)) == spec_eval_list(fuel, st, items));
    assert(spec_eval(fuel, st, items[1]) == Ev::Done(st, Val::Float(x)));
    assert(spec_eval(fuel, st, items[2]) == Ev::Done(st, Val::Float(y)));
}

/// Taking `car` of `(cons a b)` yields `a`'s evaluated value, for any
/// self-evaluating `a` and any `b` whose evaluation succeeds.
pub proof fn law_car_cons(st: EvalSt, fuel: nat, a: Val, b: Val, st1: EvalSt, bv: Val)
    requires
        !(a is Sym),
        !(a is List),
        spec_eval(fuel, st, b) == Ev::Done(st1, bv),
    ensures
        spec_eval(
            fuel,
            st,
            Val::List(
                seq![
                    Val::SpecForm(SpecForms::CAR),
                    Val::List(seq![Val::SpecForm(SpecForms::CONS), a, b]),
                ],
            ),
        ) == Ev::Done(st1, a),
{
    let inner = seq![Val::SpecForm(SpecForms::CONS), a, b];
    let outer = seq![Val::SpecForm(SpecForms::CAR), Val::List(inner)];
    assert(spec_eval(fuel, st, inner[1]) == Ev::Done(st, a));
    assert(spec_eval(fuel, st, inner[2]) == Ev::Done(st1, bv));
    assert(spec_eval(fuel, st, Val::List(inner)) == spec_eval_list(fuel, st, inner));
    assert(spec_eval_list(fuel, st, inner) == spec_eval_form(fuel, st, SpecForms::CONS, inner));
    let consed: Val = match bv {
        Val::List(l) => Val::List(seq![a] + l),
        _ => Val::List(seq![a, bv]),
    };
    assert(spec_eval(fuel, st, Val::List(inner)) == Ev::Done(st1, consed));
    assert(consed->List_0[0] == a);
    assert(consed->List_0.len() > 0);
    assert(spec_eval(fuel, st, Val::List(outer)) == spec_eval_list(fuel, st, outer));
    assert(spec_eval_list(fuel, st, outer) == spec_eval_form(fuel, st, SpecForms::CAR, outer));
    assert(outer[1] == Val::List(inner));
    assert(spec_eval_form(fuel, st, SpecForms::CAR, outer) == Ev::Done(st1, a));
}

/// Taking `cdr` of `(cons a (cons b t))`, where `t` evaluates to the empty
/// list, yields the one-element list holding `b`'s value, for any
/// self-evaluating `a` and `b`. The empty list is written as a value that
/// evaluates to it — quoted, say — since a bare `()` never evaluates.
pub proof fn law_cdr_cons_pair(st: EvalSt, fuel: nat, a: Val, b: Val, t: Val, st1: EvalSt)
    requires
        !(a is Sym),
        !(a is List),
        !(b is Sym),
        !(b is List),
        spec_eval(fuel, st, t) == Ev::Done(st1, Val::List(Seq::<Val>::empty())),
    ensures
        spec_eval(
            fuel,
            st,
            Val::List(
                seq![
                    Val::SpecForm(SpecForms::CDR),
                    Val::List(
                        seq![
                            Val::SpecForm(SpecForms::CONS),
                            a,
                            Val::List(seq![Val::SpecForm(SpecForms::CONS), b, t]),
                        ],
                    ),
                ],
            ),
        ) == Ev::Done(st1, Val::List(seq![b])),
{
    let pair = seq![Val::SpecForm(SpecForms::CONS), b, t];
    let outer_cons = seq![Val::SpecForm(SpecForms::CONS), a, Val::List(pair)];
    let whole = seq![Val::SpecForm(SpecForms::CDR), Val::List(outer_cons)];
    assert(spec_eval(fuel, st, pair[1]) == Ev::Done(st, b));
    assert(spec_eval(fuel, st, pair[2]) == Ev::Done(st1, Val::List(Seq::<Val>::empty())));
    assert(spec_eval(fuel, st, Val::List(pair)) == spec_eval_list(fuel, st, pair));
    assert(spec_eval_list(fuel, st, pair) == spec_eval_form(fuel, st, SpecForms::CONS, pair));
    assert(seq![b] + Seq::<Val>::empty() =~= seq![b]);
    assert(spec_eval(fuel, st, Val::List(pair)) == Ev::Done(st1, Val::List(seq![b])));
    assert(spec_eval(fuel, st, outer_cons[1]) == Ev::Done(st, a));
    assert(outer_cons[2] == Val::List(pair));
    assert(spec_eval(fuel, st, Val::List(outer_cons)) == spec_eval_list(fuel, st, outer_cons));
    assert(spec_eval_list(fuel, st, outer_cons) == spec_eval_form(
        fuel,
        st,
        SpecForms::CONS,
        outer_cons,
    ));
    let full = seq![a] + seq![b];
    assert(spec_eval(fuel, st, Val::List(outer_cons)) == Ev::Done(st1, Val::List(full)));
    assert(spec_eval(fuel, st, Val::List(whole)) == spec_eval_list(fuel, st, whole));
    assert(spec_eval_list(fuel, st, whole) == spec_eval_form(fuel, st, SpecForms::CDR, whole));
    assert(whole[1] == Val::List(outer_cons));
    assert(full.len() > 0);
    assert(full.drop_first() =~= seq![b]);
    assert(spec_eval_form(fuel, st, SpecForms::CDR, whole) == Ev::Done(st1, Val::List(seq![b])));
}

/// Quoting defers evaluation exactly once: evaluating `(eval (quote X))`
/// is evaluating `X` itself, one unit of re-evaluation fuel later, for every
/// expression `X` and every state.
pub proof fn law_quote_eval_round_trip(st: EvalSt, fuel: nat, x: Val)
    requires
        fuel >= 1,
    ensures
        spec_eval(
            fuel,
            st,
            Val::List(
                seq![
                    Val::SpecForm(SpecForms::EVAL),
                    Val::List(seq![Val::SpecForm(SpecForms::QUOTE), x]),
                ],
            ),
        ) == spec_eval((fuel - 1) as nat, st, x),
{
    let quoted = seq![Val::SpecForm(SpecForms::QUOTE), x];
    let outer = seq![Val::SpecForm(SpecForms::EVAL), Val::List(quoted)];
    assert(spec_eval(fuel, st, Val::List(quoted)) == spec_eval_list(fuel, st, quoted));
    assert(spec_eval_list(fuel, st, quoted) == spec_eval_form(fuel, st, SpecForms::QUOTE, quoted));
    assert(spec_eval(fuel, st, Val::List(quoted)) == Ev::Done(st, x));
    assert(outer[1] == Val::List(quoted));
    assert(spec_eval(fuel, st, Val::List(outer)) == spec_eval_list(fuel, st, outer));
    assert(spec_eval_list(fuel, st, outer) == spec_eval_form(fuel, st, SpecForms::EVAL, outer));
}

/// The round trip through `quote` and `eval` reproduces evaluating the
/// expression directly, with the same fuel, whenever the direct evaluation
/// completes within one unit less: the unit the round trip consumes is
/// invisible in every completed outcome.
pub proof fn law_quote_eval_same_fuel(st: EvalSt, fuel: nat, x: Val)
    requires
        fuel >= 1,
        !(spec_eval((fuel - 1) as nat, st, x) is Stop),
    ensures
        spec_eval(
            fuel,
            st,
            Val::List(
                seq![
                    Val::SpecForm(SpecForms::EVAL),
                    Val::List(seq![Val::SpecForm(SpecForms::QUOTE), x]),
                ],
            ),
        ) == spec_eval(fuel, st, x),
{
    law_quote_eval_round_trip(st, fuel, x);
    lemma_eval_more_fuel((fuel - 1) as nat, fuel, st, x);
}

/// On an expression built only of scalars and operator tags, the round trip
/// through `quote` and `eval` reproduces evaluating the expression directly,
/// with the same fuel: such an expression evaluates to itself.
pub proof fn law_quote_round_trip_scalar(st: EvalSt, fuel: nat, x: Val)
    requires
        fuel >= 1,
        !(x is Sym),
        !(x is List),
    ensures
        spec_eval(
            fuel,
            st,
            Val::List(
                seq![
                    Val::SpecForm(SpecForms::EVAL),
                    Val::List(seq![Val::SpecForm(SpecForms::QUOTE), x]),
                ],
            ),
        ) == spec_eval(fuel, st, x),
        spec_eval(fuel, st, x) == Ev::Done(st, x),
{
    law_quote_eval_round_trip(st, fuel, x);
    assert(spec_eval((fuel - 1) as nat, st, x) == Ev::Done(st, x));
    assert(spec_eval(fuel, st, x) == Ev::Done(st, x));
}

} // verus!

