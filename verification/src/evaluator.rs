//! The evaluator: a recursive tree-walker that reduces a value tree to a
//! final value against a mutable symbol table, applying special forms and
//! binary operators and predicates with numeric coercion and arity and type
//! checking.
//!
//! The whole reduction is specified by `spec_eval` and its companions: a
//! state machine over an environment, an output log, and a fuel that bounds
//! chained re-evaluation through the `eval` form. Running out of fuel is the
//! explicit counterpart of the unbounded recursion the language allows.

use crate::conslist::{rc_dup, ConsList};
use crate::lisptype::{val_text, LispType, Val};
use crate::rational::{
    rat_add, rat_div, rat_eq, rat_fits, rat_int, rat_lt, rat_mod, rat_mul, rat_sub, trunc_div, Rat,
    Rational,
};
use crate::type_enums::{binop_text, binpred_text, str_eq, BinOp, BinPred, SpecForms};
use std::rc::Rc;
use vstd::prelude::*;

verus! {

/// An evaluation error: an unbound symbol, a wrong arity or structurally
/// invalid operand, an operand of the wrong kind, a zero divisor, an
/// unmatched brace reported by a caller, or another failure named by its
/// message.
#[derive(Debug)]
pub enum EvaluatorError {
    UndefinedSymbol(String),
    InvalidArguments(String),
    TypeMismatch(String),
    DivisionByZero,
    UnmatchedBrace,
    Other(String),
}

/// The mathematical model of an evaluation error.
pub enum EvalErr {
    UndefinedSymbol(Seq<char>),
    InvalidArguments(Seq<char>),
    TypeMismatch(Seq<char>),
    DivisionByZero,
    UnmatchedBrace,
    Other(Seq<char>),
}

impl EvaluatorError {
    /// The model of this error.
    pub open spec fn model(self) -> EvalErr {
        match self {
            EvaluatorError::UndefinedSymbol(s) => EvalErr::UndefinedSymbol(s@),
            EvaluatorError::InvalidArguments(s) => EvalErr::InvalidArguments(s@),
            EvaluatorError::TypeMismatch(s) => EvalErr::TypeMismatch(s@),
            EvaluatorError::DivisionByZero => EvalErr::DivisionByZero,
            EvaluatorError::UnmatchedBrace => EvalErr::UnmatchedBrace,
            EvaluatorError::Other(s) => EvalErr::Other(s@),
        }
    }
}

impl View for EvaluatorError {
    type V = EvalErr;

    open spec fn view(&self) -> EvalErr {
        (*self).model()
    }
}

/// The rendering of an evaluation error, naming its kind and context.
pub open spec fn err_text(e: EvalErr) -> Seq<char> {
    match e {
        EvalErr::UndefinedSymbol(s) => "Undefined symbol: "@ + s,
        EvalErr::InvalidArguments(s) => "Invalid arguments: "@ + s,
        EvalErr::TypeMismatch(s) => "Type mismatch: "@ + s,
        EvalErr::DivisionByZero => "Error: Division by zero"@,
        EvalErr::UnmatchedBrace => "Error: Unmatched brace detected"@,
        EvalErr::Other(s) => "Error: "@ + s,
    }
}

impl EvaluatorError {
    /// The human-readable message for this error.
    pub fn show(&self) -> (r: String)
        ensures
            r@ == err_text(self@),
    {
        match self {
            EvaluatorError::UndefinedSymbol(s) => String::from_str("Undefined symbol: ").concat(
                s.as_str(),
            ),
            EvaluatorError::InvalidArguments(s) => String::from_str("Invalid arguments: ").concat(
                s.as_str(),
            ),
            EvaluatorError::TypeMismatch(s) => String::from_str("Type mismatch: ").concat(
                s.as_str(),
            ),
            EvaluatorError::DivisionByZero => String::from_str("Error: Division by zero"),
            EvaluatorError::UnmatchedBrace => String::from_str("Error: Unmatched brace detected"),
            EvaluatorError::Other(s) => String::from_str("Error: ").concat(s.as_str()),
        }
    }
}

/// The models of a run of values.
pub open spec fn vals_model(s: Seq<LispType>) -> Seq<Val> {
    s.map_values(|x: LispType| x.model())
}

/// The model of a symbol table: later entries override earlier ones, though
/// the table in fact keeps its keys unique.
pub open spec fn env_model(s: Seq<(String, LispType)>) -> Map<Seq<char>, Val>
    decreases s.len(),
{
    if s.len() == 0 {
        Map::empty()
    } else {
        env_model(s.drop_last()).insert(s.last().0@, s.last().1@)
    }
}

/// Whether the table holds each symbol at most once.
pub open spec fn env_keys_unique(s: Seq<(String, LispType)>) -> bool {
    forall|i: int, j: int| 0 <= i < j < s.len() ==> s[i].0@ != s[j].0@
}

/// A symbol is in the table's model exactly when some entry holds it.
proof fn lemma_env_dom(s: Seq<(String, LispType)>, k: Seq<char>)
    ensures
        env_model(s).contains_key(k) <==> (exists|i: int| 0 <= i < s.len() && s[i].0@ == k),
    decreases s.len(),
{
    if s.len() > 0 {
        let dl = s.drop_last();
        lemma_env_dom(dl, k);
        if k == s.last().0@ {
            assert(s[s.len() - 1].0@ == k);
        } else {
            if env_model(dl).contains_key(k) {
                let i = choose|i: int| 0 <= i < dl.len() && dl[i].0@ == k;
                assert(s[i].0@ == k);
            }
            if exists|i: int| 0 <= i < s.len() && s[i].0@ == k {
                let i = choose|i: int| 0 <= i < s.len() && s[i].0@ == k;
                assert(dl[i].0@ == k);
            }
        }
    }
}

/// With unique keys, the model's value for a symbol is the value of the
/// entry that holds it.
proof fn lemma_env_val(s: Seq<(String, LispType)>, k: Seq<char>, i: int)
    requires
        env_keys_unique(s),
        0 <= i < s.len(),
        s[i].0@ == k,
    ensures
        env_model(s).contains_key(k),
        env_model(s)[k] == s[i].1@,
    decreases s.len(),
{
    let dl = s.drop_last();
    if i == s.len() - 1 {
    } else {
        assert(k != s.last().0@);
        assert(env_keys_unique(dl));
        lemma_env_val(dl, k, i);
    }
}

/// Overwriting the entry that holds a symbol is, in the model, inserting the
/// new value for it.
proof fn lemma_env_update(s: Seq<(String, LispType)>, i: int, p: (String, LispType))
    requires
        env_keys_unique(s),
        0 <= i < s.len(),
        s[i].0@ == p.0@,
    ensures
        env_model(s.update(i, p)) =~= env_model(s).insert(p.0@, p.1@),
        env_keys_unique(s.update(i, p)),
    decreases s.len(),
{
    let s2 = s.update(i, p);
    assert(forall|j: int| 0 <= j < s.len() && j != i ==> s2[j] == s[j]);
    let dl = s.drop_last();
    if i == s.len() - 1 {
        assert(s2.drop_last() =~= dl);
        assert(env_model(s2) == env_model(dl).insert(p.0@, p.1@));
        assert(env_model(s).insert(p.0@, p.1@) =~= env_model(dl).insert(p.0@, p.1@));
    } else {
        assert(env_keys_unique(dl));
        lemma_env_update(dl, i, p);
        assert(s2.drop_last() =~= dl.update(i, p));
        assert(s2.last() == s.last());
        assert(p.0@ != s.last().0@);
        assert(env_model(s2) == env_model(dl.update(i, p)).insert(s.last().0@, s.last().1@));
        assert(env_model(s2) =~= env_model(s).insert(p.0@, p.1@));
    }
}

/// Appending an entry for a fresh symbol is, in the model, inserting it.
proof fn lemma_env_push(s: Seq<(String, LispType)>, p: (String, LispType))
    ensures
        env_model(s.push(p)) == env_model(s).insert(p.0@, p.1@),
{
    assert(s.push(p).drop_last() =~= s);
    assert(s.push(p).last() == p);
}

/// The numeric content of a value: integers are widened to rationals,
/// rationals pass through, everything else is not numeric.
pub open spec fn spec_as_rat(v: Val) -> Option<Rat> {
    match v {
        Val::Int(i) => Some(rat_int(i)),
        Val::Float(q) => Some(q),
        _ => None,
    }
}

/// What a binary predicate yields on two values: string equality for `==`
/// and `!=` on two strings (and no result for the other predicates there),
/// an exact rational comparison after numeric coercion otherwise, and a type
/// mismatch when either operand is neither.
pub open spec fn spec_apply_bp(p: BinPred, a: Val, b: Val) -> Result<Option<bool>, EvalErr> {
    match (a, b) {
        (Val::Str(x), Val::Str(y)) => match p {
            BinPred::EQ => Ok(Some(x == y)),
            BinPred::NOEQ => Ok(Some(x != y)),
            _ => Ok(None),
        },
        _ => match (spec_as_rat(a), spec_as_rat(b)) {
            (Some(ax), Some(bx)) => Ok(
                Some(
                    match p {
                        BinPred::EQ => rat_eq(ax, bx),
                        BinPred::NOEQ => !rat_eq(ax, bx),
                        BinPred::GT => rat_lt(bx, ax),
                        BinPred::GTE => !rat_lt(ax, bx),
                        BinPred::LT => rat_lt(ax, bx),
                        BinPred::LTE => !rat_lt(bx, ax),
                    },
                ),
            ),
            _ => Err(EvalErr::TypeMismatch("BinPred operands must be numbers or strings"@)),
        },
    }
}

/// What an arithmetic operator yields on two machine integers: the exact
/// result when it fits, an overflow error otherwise; division and remainder
/// truncate towards zero, and fail on a zero divisor and on the one quotient
/// that does not fit.
pub open spec fn spec_int_op(op: BinOp, x: int, y: int) -> Result<Option<Val>, EvalErr> {
    match op {
        BinOp::ADD => if i64::MIN <= x + y <= i64::MAX {
            Ok(Some(Val::Int(x + y)))
        } else {
            Err(EvalErr::Other("arithmetic overflow"@))
        },
        BinOp::SUB => if i64::MIN <= x - y <= i64::MAX {
            Ok(Some(Val::Int(x - y)))
        } else {
            Err(EvalErr::Other("arithmetic overflow"@))
        },
        BinOp::MUL => if i64::MIN <= x * y <= i64::MAX {
            Ok(Some(Val::Int(x * y)))
        } else {
            Err(EvalErr::Other("arithmetic overflow"@))
        },
        BinOp::DIV => if y == 0 || (x == i64::MIN && y == -1) {
            Err(EvalErr::DivisionByZero)
        } else {
            Ok(Some(Val::Int(trunc_div(x, y))))
        },
        BinOp::MOD => if y == 0 || (x == i64::MIN && y == -1) {
            Err(EvalErr::DivisionByZero)
        } else {
            Ok(Some(Val::Int(x - trunc_div(x, y) * y)))
        },
        BinOp::SCONCAT => Err(EvalErr::TypeMismatch("Unsupported integer BinOp"@)),
    }
}

/// What an arithmetic operator yields on two rationals: the exact result
/// when its components fit, an overflow error otherwise; a zero divisor
/// fails rather than yield an infinity.
pub open spec fn spec_float_op(op: BinOp, x: Rat, y: Rat) -> Result<Option<Val>, EvalErr> {
    match op {
        BinOp::ADD => if rat_fits(rat_add(x, y)) {
            Ok(Some(Val::Float(rat_add(x, y))))
        } else {
            Err(EvalErr::Other("arithmetic overflow"@))
        },
        BinOp::SUB => if rat_fits(rat_sub(x, y)) {
            Ok(Some(Val::Float(rat_sub(x, y))))
        } else {
            Err(EvalErr::Other("arithmetic overflow"@))
        },
        BinOp::MUL => if rat_fits(rat_mul(x, y)) {
            Ok(Some(Val::Float(rat_mul(x, y))))
        } else {
            Err(EvalErr::Other("arithmetic overflow"@))
        },
        BinOp::DIV => if y.n == 0 {
            Err(EvalErr::DivisionByZero)
        } else if rat_fits(rat_div(x, y)) {
            Ok(Some(Val::Float(rat_div(x, y))))
        } else {
            Err(EvalErr::Other("arithmetic overflow"@))
        },
        BinOp::MOD => if y.n == 0 {
            Err(EvalErr::DivisionByZero)
        } else if rat_fits(rat_mod(x, y)) {
            Ok(Some(Val::Float(rat_mod(x, y))))
        } else {
            Err(EvalErr::Other("arithmetic overflow"@))
        },
        BinOp::SCONCAT => Err(EvalErr::TypeMismatch("Unsupported float BinOp"@)),
    }
}

/// What a binary operator yields on two values: string concatenation for
/// `++` on two strings, integer arithmetic on two integers, exact rational
/// arithmetic when either operand is a rational and the other is numeric,
/// and a type mismatch otherwise.
pub open spec fn spec_apply_bo(op: BinOp, a: Val, b: Val) -> Result<Option<Val>, EvalErr> {
    match op {
        BinOp::SCONCAT => match (a, b) {
            (Val::Str(x), Val::Str(y)) => Ok(Some(Val::Str(x + y))),
            _ => Err(EvalErr::TypeMismatch("sconcat requires two strings"@)),
        },
        _ => match (a, b) {
            (Val::Int(x), Val::Int(y)) => spec_int_op(op, x, y),
            (Val::Float(x), Val::Float(y)) => spec_float_op(op, x, y),
            (Val::Float(x), Val::Int(y)) => spec_float_op(op, x, rat_int(y)),
            (Val::Int(x), Val::Float(y)) => spec_float_op(op, rat_int(x), y),
            _ => Err(EvalErr::TypeMismatch("BinOp requires numeric operands"@)),
        },
    }
}

/// Whether an executable operator result is what the specification says.
pub open spec fn bo_matches(
    s: Result<Option<Val>, EvalErr>,
    r: Result<Option<LispType>, EvaluatorError>,
) -> bool {
    match (s, r) {
        (Ok(None), Ok(None)) => true,
        (Ok(Some(v)), Ok(Some(x))) => x@ == v,
        (Err(e), Err(x)) => x@ == e,
        _ => false,
    }
}

/// Whether an executable predicate result is what the specification says.
pub open spec fn bp_matches(
    s: Result<Option<bool>, EvalErr>,
    r: Result<Option<bool>, EvaluatorError>,
) -> bool {
    match (s, r) {
        (Ok(o), Ok(o2)) => o == o2,
        (Err(e), Err(x)) => x@ == e,
        _ => false,
    }
}

/// Truncating division of machine integers, off the two failing inputs.
fn div_trunc_i64(x: i64, y: i64) -> (r: i64)
    requires
        y != 0,
        !(x == i64::MIN && y == -1),
    ensures
        r as int == trunc_div(x as int, y as int),
{
    let ax: u64 = if x < 0 {
        (-(x as i128)) as u64
    } else {
        x as u64
    };
    let ay: u64 = if y < 0 {
        (-(y as i128)) as u64
    } else {
        y as u64
    };
    let m: u64 = ax / ay;
    proof {
        assert(0 <= (ax as int) / (ay as int) <= ax as int) by (nonlinear_arith)
            requires
                ax as int >= 0,
                ay as int >= 1,
        ;
        if ay >= 2 {
            vstd::arithmetic::div_mod::lemma_fundamental_div_mod(ax as int, ay as int);
            assert((ay as int) * ((ax as int) / (ay as int)) >= 2 * ((ax as int) / (ay as int)))
                by (nonlinear_arith)
                requires
                    ay as int >= 2,
                    (ax as int) / (ay as int) >= 0,
            ;
        } else {
            assert(ay == 1);
            assert((ax as int) / 1 == ax as int);
        }
    }
    if (x < 0) != (y < 0) {
        (-(m as i128)) as i64
    } else {
        m as i64
    }
}

/// Performs an arithmetic operator on two machine integers, checked.
fn perform_integer_op(op: BinOp, x: i64, y: i64) -> (r: Result<Option<LispType>, EvaluatorError>)
    ensures
        bo_matches(spec_int_op(op, x as int, y as int), r),
{
    match op {
        BinOp::ADD => match x.checked_add(y) {
            Some(z) => Ok(Some(LispType::Integer(z))),
            None => Err(EvaluatorError::Other(String::from_str("arithmetic overflow"))),
        },
        BinOp::SUB => match x.checked_sub(y) {
            Some(z) => Ok(Some(LispType::Integer(z))),
            None => Err(EvaluatorError::Other(String::from_str("arithmetic overflow"))),
        },
        BinOp::MUL => match x.checked_mul(y) {
            Some(z) => Ok(Some(LispType::Integer(z))),
            None => Err(EvaluatorError::Other(String::from_str("arithmetic overflow"))),
        },
        BinOp::DIV => {
            if y == 0 || (x == i64::MIN && y == -1) {
                Err(EvaluatorError::DivisionByZero)
            } else {
                Ok(Some(LispType::Integer(div_trunc_i64(x, y))))
            }
        },
        BinOp::MOD => {
            if y == 0 || (x == i64::MIN && y == -1) {
                Err(EvaluatorError::DivisionByZero)
            } else {
                let q = div_trunc_i64(x, y);
                proof {
                    lemma_trunc_rem_fits(x as int, y as int);
                }
                let z = x - q * y;
                Ok(Some(LispType::Integer(z)))
            }
        },
        BinOp::SCONCAT => Err(
            EvaluatorError::TypeMismatch(String::from_str("Unsupported integer BinOp")),
        ),
    }
}

/// Performs an arithmetic operator on two rationals, exactly.
fn perform_float_op(op: BinOp, x: Rational, y: Rational) -> (r: Result<
    Option<LispType>,
    EvaluatorError,
>)
    ensures
        bo_matches(spec_float_op(op, x@, y@), r),
{
    match op {
        BinOp::ADD => match x.add(&y) {
            Some(z) => Ok(Some(LispType::Float(z))),
            None => Err(EvaluatorError::Other(String::from_str("arithmetic overflow"))),
        },
        BinOp::SUB => match x.sub(&y) {
            Some(z) => Ok(Some(LispType::Float(z))),
            None => Err(EvaluatorError::Other(String::from_str("arithmetic overflow"))),
        },
        BinOp::MUL => match x.mul(&y) {
            Some(z) => Ok(Some(LispType::Float(z))),
            None => Err(EvaluatorError::Other(String::from_str("arithmetic overflow"))),
        },
        BinOp::DIV => {
            if y.is_zero() {
                Err(EvaluatorError::DivisionByZero)
            } else {
                match x.div(&y) {
                    Some(z) => Ok(Some(LispType::Float(z))),
                    None => Err(EvaluatorError::Other(String::from_str("arithmetic overflow"))),
                }
            }
        },
        BinOp::MOD => {
            if y.is_zero() {
                Err(EvaluatorError::DivisionByZero)
            } else {
                match x.rem_trunc(&y) {
                    Some(z) => Ok(Some(LispType::Float(z))),
                    None => Err(EvaluatorError::Other(String::from_str("arithmetic overflow"))),
                }
            }
        },
        BinOp::SCONCAT => Err(
            EvaluatorError::TypeMismatch(String::from_str("Unsupported float BinOp")),
        ),
    }
}

/// The evaluator: one mutable symbol table, and the log of what `print` has
/// rendered, which the caller takes and displays.
pub struct Evaluator {
    env: Vec<(String, LispType)>,
    out: Vec<String>,
}

/// The evaluator's state: the symbol table as a map, and the output log as
/// the sequence of rendered lines.
pub struct EvalSt {
    pub env: Map<Seq<char>, Val>,
    pub out: Seq<Seq<char>>,
}

impl View for Evaluator {
    type V = EvalSt;

    closed spec fn view(&self) -> EvalSt {
        EvalSt { env: env_model(self.env@), out: self.out@.map_values(|s: String| s@) }
    }
}

impl Evaluator {
    #[verifier::type_invariant]
    spec fn inv(self) -> bool {
        env_keys_unique(self.env@)
    }

    /// A fresh evaluator with an empty symbol table and an empty output log.
    pub fn new() -> (r: Self)
        ensures
            r@.env == Map::<Seq<char>, Val>::empty(),
            r@.out == Seq::<Seq<char>>::empty(),
    {
        let r = Evaluator { env: Vec::new(), out: Vec::new() };
        proof {
            assert(r@.out =~= Seq::<Seq<char>>::empty());
        }
        r
    }

    /// Takes the lines that `print` has rendered since the last call,
    /// leaving the log empty.
    pub fn take_output(&mut self) -> (r: Vec<String>)
        ensures
            r@.map_values(|s: String| s@) == old(self)@.out,
            final(self)@.out == Seq::<Seq<char>>::empty(),
            final(self)@.env == old(self)@.env,
    {
        proof {
            use_type_invariant(&*self);
        }
        let mut v: Vec<String> = Vec::new();
        std::mem::swap(&mut self.out, &mut v);
        proof {
            assert(final(self)@.out =~= Seq::<Seq<char>>::empty());
        }
        v
    }

    /// The position of the entry holding a symbol, if any.
    fn env_find(&self, name: &str) -> (r: Option<usize>)
        ensures
            match r {
                Some(i) => i < self.env@.len() && self.env@[i as int].0@ == name@,
                None => forall|j: int| 0 <= j < self.env@.len() ==> self.env@[j].0@ != name@,
            },
    {
        let n = self.env.len();
        let mut i: usize = 0;
        while i < n
            invariant
                i <= n,
                n == self.env@.len(),
                forall|j: int| 0 <= j < i ==> self.env@[j].0@ != name@,
            decreases n - i,
        {
            if str_eq(self.env[i].0.as_str(), name) {
                return Some(i);
            }
            i = i + 1;
        }
        None
    }

    /// The value bound to a symbol, if any.
    fn env_lookup(&self, name: &str) -> (r: Option<LispType>)
        ensures
            match r {
                Some(v) => self@.env.contains_key(name@) && v@ == self@.env[name@],
                None => !self@.env.contains_key(name@),
            },
    {
        proof {
            use_type_invariant(self);
        }
        match self.env_find(name) {
            Some(i) => {
                let v = self.env[i].1.clone();
                proof {
                    lemma_env_val(self.env@, name@, i as int);
                }
                Some(v)
            },
            None => {
                proof {
                    lemma_env_dom(self.env@, name@);
                }
                None
            },
        }
    }

    /// Binds a symbol, inserting or overwriting.
    fn env_insert(&mut self, name: String, v: LispType)
        ensures
            final(self)@.env == old(self)@.env.insert(name@, v@),
            final(self)@.out == old(self)@.out,
    {
        proof {
            use_type_invariant(&*self);
        }
        let found = self.env_find(name.as_str());
        let mut table: Vec<(String, LispType)> = Vec::new();
        std::mem::swap(&mut self.env, &mut table);
        let ghost s0 = table@;
        match found {
            Some(i) => {
                let ghost p = (name, v);
                proof {
                    lemma_env_update(s0, i as int, p);
                }
                table.set(i, (name, v));
            },
            None => {
                let ghost p = (name, v);
                proof {
                    lemma_env_push(s0, p);
                    lemma_env_dom(s0, p.0@);
                    assert forall|a: int, b: int|
                        0 <= a < b < s0.push(p).len() implies s0.push(p)[a].0@ != s0.push(
                        p,
                    )[b].0@ by {
                        if b < s0.len() {
                        } else {
                            assert(s0.push(p)[b] == p);
                            assert(s0[a].0@ != p.0@);
                        }
                    }
                }
                table.push((name, v));
            },
        }
        std::mem::swap(&mut self.env, &mut table);
    }

    /// Converts a list into the vector of its elements, sharing each value.
    fn list_to_vec(&self, list: Rc<ConsList>) -> (r: Result<Vec<LispType>, EvaluatorError>)
        ensures
            r matches Ok(v) && vals_model(v@) == list@,
    {
        let mut vec: Vec<LispType> = Vec::new();
        let mut current: Rc<ConsList> = list;
        let ghost whole = current@;
        loop
            invariant_except_break
                vals_model(vec@) + current@ == whole,
            ensures
                vals_model(vec@) == whole,
            decreases current@.len(),
        {
            let ghost vec0 = vec@;
            let ghost cur0 = current@;
            match &*current {
                ConsList::Cons(head, tail) => {
                    let h = head.clone();
                    let t = rc_dup(tail);
                    vec.push(h);
                    current = t;
                    proof {
                        assert(cur0.drop_first() =~= current@);
                        assert(vals_model(vec@) =~= vals_model(vec0).push(cur0[0]));
                        assert(vals_model(vec@) + current@ =~= whole);
                    }
                },
                ConsList::Nil => {
                    proof {
                        assert(vals_model(vec@) =~= whole);
                    }
                    break ;
                },
            }
        }
        Ok(vec)
    }

    /// Applies a binary predicate to two values, as `spec_apply_bp` states.
    pub fn apply_bp(op: BinPred, a: &LispType, b: &LispType) -> (r: Result<
        Option<bool>,
        EvaluatorError,
    >)
        ensures
            bp_matches(spec_apply_bp(op, a@, b@), r),
    {
        match (a, b) {
            (LispType::String(x), LispType::String(y)) => match op {
                BinPred::EQ => Ok(Some(str_eq(x.as_str(), y.as_str()))),
                BinPred::NOEQ => Ok(Some(!str_eq(x.as_str(), y.as_str()))),
                _ => Ok(None),
            },
            _ => {
                let ax = a.as_float();
                let bx = b.as_float();
                match (ax, bx) {
                    (Some(p), Some(q)) => {
                        let result = match op {
                            BinPred::EQ => p.eq_rat(&q),
                            BinPred::NOEQ => !p.eq_rat(&q),
                            BinPred::GT => q.lt(&p),
                            BinPred::GTE => !p.lt(&q),
                            BinPred::LT => p.lt(&q),
                            BinPred::LTE => !q.lt(&p),
                        };
                        Ok(Some(result))
                    },
                    _ => Err(
                        EvaluatorError::TypeMismatch(
                            String::from_str("BinPred operands must be numbers or strings"),
                        ),
                    ),
                }
            },
        }
    }

    /// Applies a binary operator to two values, as `spec_apply_bo` states.
    pub fn apply_bo(op: BinOp, a: LispType, b: LispType) -> (r: Result<
        Option<LispType>,
        EvaluatorError,
    >)
        ensures
            bo_matches(spec_apply_bo(op, a@, b@), r),
    {
        match op {
            BinOp::SCONCAT => match (a, b) {
                (LispType::String(sa), LispType::String(sb)) => Ok(
                    Some(LispType::String(sa.concat(sb.as_str()))),
                ),
                _ => Err(
                    EvaluatorError::TypeMismatch(String::from_str("sconcat requires two strings")),
                ),
            },
            _ => match (a, b) {
                (LispType::Integer(x), LispType::Integer(y)) => perform_integer_op(op, x, y),
                (LispType::Float(x), LispType::Float(y)) => perform_float_op(op, x, y),
                (LispType::Float(x), LispType::Integer(y)) => perform_float_op(
                    op,
                    x,
                    Rational::from_integer(y),
                ),
                (LispType::Integer(x), LispType::Float(y)) => perform_float_op(
                    op,
                    Rational::from_integer(x),
                    y,
                ),
                _ => Err(
                    EvaluatorError::TypeMismatch(
                        String::from_str("BinOp requires numeric operands"),
                    ),
                ),
            },
        }
    }
}

/// The outcome of an evaluation: a value, a typed failure, or exhaustion of
/// the re-evaluation fuel; each carries the state it leaves behind.
pub enum Ev {
    Done(EvalSt, Val),
    Fail(EvalSt, EvalErr),
    Stop(EvalSt),
}

/// How many chained re-evaluations through the `eval` form one call allows.
/// The language permits unbounded self-re-evaluation; this bound makes that
/// failure mode an explicit error instead of an exhausted call stack.
pub const EVAL_FUEL: u64 = 1000000;

/// What evaluating a value yields: scalars and operator tags evaluate to
/// themselves, a symbol to its binding, a list by `spec_eval_list`.
pub open spec fn spec_eval(fuel: nat, st: EvalSt, v: Val) -> Ev
    decreases fuel, v, 2int, 0int,
{
    match v {
        Val::Sym(name) => if st.env.contains_key(name) {
            Ev::Done(st, st.env[name])
        } else {
            Ev::Fail(st, EvalErr::UndefinedSymbol(name))
        },
        Val::List(items) => spec_eval_list(fuel, st, items),
        _ => Ev::Done(st, v),
    }
}

/// What evaluating a list yields: the empty list is an error; a special
/// form dispatches to its rule; a binary operator or predicate takes exactly
/// two operands, both evaluated first; a nested list in operator position is
/// evaluated first and its result then stands as the head over the remaining
/// elements, one unit of fuel later; anything else there is a type mismatch.
pub open spec fn spec_eval_list(fuel: nat, st: EvalSt, items: Seq<Val>) -> Ev
    decreases fuel, items, 1int, 0int,
{
    if items.len() == 0 {
        Ev::Fail(st, EvalErr::InvalidArguments("Cannot evaluate an empty list"@))
    } else {
        match items[0] {
            Val::SpecForm(tag) => spec_eval_form(fuel, st, tag, items),
            Val::BinOp(op) => if items.len() != 3 {
                Ev::Fail(
                    st,
                    EvalErr::InvalidArguments(
                        "BinOp "@ + binop_text(op) + " requires exactly two arguments"@,
                    ),
                )
            } else {
                match spec_eval(fuel, st, items[1]) {
                    Ev::Done(st1, a) => match spec_eval(fuel, st1, items[2]) {
                        Ev::Done(st2, b) => match spec_apply_bo(op, a, b) {
                            Ok(Some(v)) => Ev::Done(st2, v),
                            Ok(None) => Ev::Fail(st2, EvalErr::Other("BinOp application failed"@)),
                            Err(e) => Ev::Fail(st2, e),
                        },
                        Ev::Fail(st2, e) => Ev::Fail(st2, e),
                        Ev::Stop(st2) => Ev::Stop(st2),
                    },
                    Ev::Fail(st1, e) => Ev::Fail(st1, e),
                    Ev::Stop(st1) => Ev::Stop(st1),
                }
            },
            Val::BinPred(p) => if items.len() != 3 {
                Ev::Fail(
                    st,
                    EvalErr::InvalidArguments(
                        "BinPred "@ + binpred_text(p) + " requires exactly two arguments"@,
                    ),
                )
            } else {
                match spec_eval(fuel, st, items[1]) {
                    Ev::Done(st1, a) => match spec_eval(fuel, st1, items[2]) {
                        Ev::Done(st2, b) => match spec_apply_bp(p, a, b) {
                            Ok(Some(v)) => Ev::Done(st2, Val::Bool(v)),
                            Ok(None) => Ev::Fail(
                                st2,
                                EvalErr::Other("BinPred application failed"@),
                            ),
                            Err(e) => Ev::Fail(st2, e),
                        },
                        Ev::Fail(st2, e) => Ev::Fail(st2, e),
                        Ev::Stop(st2) => Ev::Stop(st2),
                    },
                    Ev::Fail(st1, e) => Ev::Fail(st1, e),
                    Ev::Stop(st1) => Ev::Stop(st1),
                }
            },
            Val::Sym(s) => Ev::Fail(
                st,
                EvalErr::TypeMismatch("Cannot apply operator to symbol: "@ + s),
            ),
            Val::List(inner) => match spec_eval_list(fuel, st, inner) {
                Ev::Done(st1, h) => if fuel == 0 {
                    Ev::Stop(st1)
                } else {
                    spec_eval_list((fuel - 1) as nat, st1, seq![h] + items.drop_first())
                },
                Ev::Fail(st1, e) => Ev::Fail(st1, e),
                Ev::Stop(st1) => Ev::Stop(st1),
            },
            _ => Ev::Fail(
                st,
                EvalErr::TypeMismatch(
                    "The first element of the list must be a SpecForm, BinOp, or BinPred"@,
                ),
            ),
        }
    }
}

/// What each special form yields; `items` holds the form tag at position
/// zero and the unevaluated operands after it. Each form checks its own
/// arity. Forms the parser recognises but the evaluator does not implement
/// fail as an undefined symbol.
pub open spec fn spec_eval_form(fuel: nat, st: EvalSt, tag: SpecForms, items: Seq<Val>) -> Ev
    decreases fuel, items, 0int, items.len() + 1,
{
    match tag {
        SpecForms::DEF => if items.len() != 3 {
            Ev::Fail(st, EvalErr::InvalidArguments("def requires exactly two arguments"@))
        } else {
            match items[1] {
                Val::Sym(name) => match spec_eval(fuel, st, items[2]) {
                    Ev::Done(st1, v) => Ev::Done(
                        EvalSt { env: st1.env.insert(name, v), out: st1.out },
                        v,
                    ),
                    Ev::Fail(st1, e) => Ev::Fail(st1, e),
                    Ev::Stop(st1) => Ev::Stop(st1),
                },
                _ => Ev::Fail(st, EvalErr::TypeMismatch("First argument to def must be a symbol"@)),
            }
        },
        SpecForms::SET => if items.len() != 3 {
            Ev::Fail(st, EvalErr::InvalidArguments("set requires exactly two arguments"@))
        } else {
            match items[1] {
                Val::Sym(name) => match spec_eval(fuel, st, items[2]) {
                    Ev::Done(st1, v) => if st1.env.contains_key(name) {
                        Ev::Done(EvalSt { env: st1.env.insert(name, v), out: st1.out }, v)
                    } else {
                        Ev::Fail(st1, EvalErr::UndefinedSymbol(name))
                    },
                    Ev::Fail(st1, e) => Ev::Fail(st1, e),
                    Ev::Stop(st1) => Ev::Stop(st1),
                },
                _ => Ev::Fail(st, EvalErr::TypeMismatch("First argument to set must be a symbol"@)),
            }
        },
        SpecForms::GET => if items.len() != 2 {
            Ev::Fail(st, EvalErr::InvalidArguments("get requires exactly one argument"@))
        } else {
            match items[1] {
                Val::Sym(name) => if st.env.contains_key(name) {
                    Ev::Done(st, st.env[name])
                } else {
                    Ev::Fail(st, EvalErr::UndefinedSymbol(name))
                },
                _ => Ev::Fail(st, EvalErr::TypeMismatch("Argument to get must be a symbol"@)),
            }
        },
        SpecForms::QUOTE => if items.len() != 2 {
            Ev::Fail(st, EvalErr::InvalidArguments("quote requires exactly one argument"@))
        } else {
            Ev::Done(st, items[1])
        },
        SpecForms::EVAL => if items.len() != 2 {
            Ev::Fail(st, EvalErr::InvalidArguments("eval requires exactly one argument"@))
        } else {
            match spec_eval(fuel, st, items[1]) {
                Ev::Done(st1, v) => if fuel == 0 {
                    Ev::Stop(st1)
                } else {
                    spec_eval((fuel - 1) as nat, st1, v)
                },
                Ev::Fail(st1, e) => Ev::Fail(st1, e),
                Ev::Stop(st1) => Ev::Stop(st1),
            }
        },
        SpecForms::PRINT => spec_eval_print(fuel, st, items, 1),
        SpecForms::CAR => if items.len() != 2 {
            Ev::Fail(st, EvalErr::InvalidArguments("car requires exactly one argument"@))
        } else {
            match spec_eval(fuel, st, items[1]) {
                Ev::Done(st1, v) => match v {
                    Val::List(l) => if l.len() > 0 {
                        Ev::Done(st1, l[0])
                    } else {
                        Ev::Fail(st1, EvalErr::InvalidArguments("Cannot take car of an empty list"@))
                    },
                    _ => Ev::Fail(st1, EvalErr::TypeMismatch("car expects a list"@)),
                },
                Ev::Fail(st1, e) => Ev::Fail(st1, e),
                Ev::Stop(st1) => Ev::Stop(st1),
            }
        },
        SpecForms::CDR => if items.len() != 2 {
            Ev::Fail(st, EvalErr::InvalidArguments("cdr requires exactly one argument"@))
        } else {
            match spec_eval(fuel, st, items[1]) {
                Ev::Done(st1, v) => match v {
                    Val::List(l) => if l.len() > 0 {
                        Ev::Done(st1, Val::List(l.drop_first()))
                    } else {
                        Ev::Fail(st1, EvalErr::InvalidArguments("Cannot take cdr of an empty list"@))
                    },
                    _ => Ev::Fail(st1, EvalErr::TypeMismatch("cdr expects a list"@)),
                },
                Ev::Fail(st1, e) => Ev::Fail(st1, e),
                Ev::Stop(st1) => Ev::Stop(st1),
            }
        },
        SpecForms::CONS => if items.len() != 3 {
            Ev::Fail(st, EvalErr::InvalidArguments("cons requires exactly two arguments"@))
        } else {
            match spec_eval(fuel, st, items[1]) {
                Ev::Done(st1, h) => match spec_eval(fuel, st1, items[2]) {
                    Ev::Done(st2, t) => match t {
                        Val::List(l) => Ev::Done(st2, Val::List(seq![h] + l)),
                        _ => Ev::Done(st2, Val::List(seq![h, t])),
                    },
                    Ev::Fail(st2, e) => Ev::Fail(st2, e),
                    Ev::Stop(st2) => Ev::Stop(st2),
                },
                Ev::Fail(st1, e) => Ev::Fail(st1, e),
                Ev::Stop(st1) => Ev::Stop(st1),
            }
        },
        SpecForms::DO => if items.len() < 3 {
            Ev::Fail(st, EvalErr::InvalidArguments("do requires at least two arguments"@))
        } else {
            Ev::Done(st, items[2])
        },
        _ => Ev::Fail(st, EvalErr::UndefinedSymbol("undef symb"@)),
    }
}

/// What `print` yields: each operand from position `i` on is evaluated in
/// order and its rendering appended to the output log; the result is `true`.
pub open spec fn spec_eval_print(fuel: nat, st: EvalSt, items: Seq<Val>, i: int) -> Ev
    decreases fuel, items, 0int, items.len() + 1 - i,
{
    if i < 1 || i >= items.len() {
        Ev::Done(st, Val::Bool(true))
    } else {
        match spec_eval(fuel, st, items[i]) {
            Ev::Done(st1, v) => spec_eval_print(
                fuel,
                EvalSt { env: st1.env, out: st1.out.push(val_text(v)) },
                items,
                i + 1,
            ),
            Ev::Fail(st1, e) => Ev::Fail(st1, e),
            Ev::Stop(st1) => Ev::Stop(st1),
        }
    }
}

/// More fuel never changes an evaluation that completed: the depth bound
/// only ever cuts an evaluation short, it never alters a finished outcome,
/// whether value or error.
pub proof fn lemma_eval_more_fuel(f: nat, g: nat, st: EvalSt, v: Val)
    requires
        f <= g,
        !(spec_eval(f, st, v) is Stop),
    ensures
        spec_eval(g, st, v) == spec_eval(f, st, v),
    decreases f, v, 2int, 0int,
{
    match v {
        Val::List(items) => {
            lemma_eval_list_more_fuel(f, g, st, items);
        },
        _ => {},
    }
}

/// Fuel monotonicity for the evaluation of a list.
pub proof fn lemma_eval_list_more_fuel(f: nat, g: nat, st: EvalSt, items: Seq<Val>)
    requires
        f <= g,
        !(spec_eval_list(f, st, items) is Stop),
    ensures
        spec_eval_list(g, st, items) == spec_eval_list(f, st, items),
    decreases f, items, 1int, 0int,
{
    if items.len() == 0 {
    } else {
        match items[0] {
            Val::SpecForm(tag) => {
                lemma_eval_form_more_fuel(f, g, st, tag, items);
            },
            Val::BinOp(op) => {
                if items.len() == 3 {
                    let e1 = spec_eval(f, st, items[1]);
                    assert(!(e1 is Stop));
                    lemma_eval_more_fuel(f, g, st, items[1]);
                    match e1 {
                        Ev::Done(st1, a) => {
                            let e2 = spec_eval(f, st1, items[2]);
                            assert(!(e2 is Stop));
                            lemma_eval_more_fuel(f, g, st1, items[2]);
                        },
                        _ => {},
                    }
                }
            },
            Val::BinPred(p) => {
                if items.len() == 3 {
                    let e1 = spec_eval(f, st, items[1]);
                    assert(!(e1 is Stop));
                    lemma_eval_more_fuel(f, g, st, items[1]);
                    match e1 {
                        Ev::Done(st1, a) => {
                            let e2 = spec_eval(f, st1, items[2]);
                            assert(!(e2 is Stop));
                            lemma_eval_more_fuel(f, g, st1, items[2]);
                        },
                        _ => {},
                    }
                }
            },
            Val::List(inner) => {
                let e1 = spec_eval_list(f, st, inner);
                assert(!(e1 is Stop));
                lemma_eval_list_more_fuel(f, g, st, inner);
                match e1 {
                    Ev::Done(st1, h) => {
                        assert(f >= 1);
                        let rest = seq![h] + items.drop_first();
                        assert(!(spec_eval_list((f - 1) as nat, st1, rest) is Stop));
                        lemma_eval_list_more_fuel((f - 1) as nat, (g - 1) as nat, st1, rest);
                    },
                    _ => {},
                }
            },
            _ => {},
        }
    }
}

/// Fuel monotonicity for each special form.
pub proof fn lemma_eval_form_more_fuel(f: nat, g: nat, st: EvalSt, tag: SpecForms, items: Seq<Val>)
    requires
        f <= g,
        !(spec_eval_form(f, st, tag, items) is Stop),
    ensures
        spec_eval_form(g, st, tag, items) == spec_eval_form(f, st, tag, items),
    decreases f, items, 0int, items.len() + 1,
{
    match tag {
        SpecForms::DEF => {
            if items.len() == 3 && items[1] is Sym {
                assert(!(spec_eval(f, st, items[2]) is Stop));
                lemma_eval_more_fuel(f, g, st, items[2]);
            }
        },
        SpecForms::SET => {
            if items.len() == 3 && items[1] is Sym {
                assert(!(spec_eval(f, st, items[2]) is Stop));
                lemma_eval_more_fuel(f, g, st, items[2]);
            }
        },
        SpecForms::EVAL => {
            if items.len() == 2 {
                let e1 = spec_eval(f, st, items[1]);
                assert(!(e1 is Stop));
                lemma_eval_more_fuel(f, g, st, items[1]);
                match e1 {
                    Ev::Done(st1, v1) => {
                        assert(f >= 1);
                        assert(!(spec_eval((f - 1) as nat, st1, v1) is Stop));
                        lemma_eval_more_fuel((f - 1) as nat, (g - 1) as nat, st1, v1);
                    },
                    _ => {},
                }
            }
        },
        SpecForms::PRINT => {
            lemma_eval_print_more_fuel(f, g, st, items, 1);
        },
        SpecForms::CAR => {
            if items.len() == 2 {
                assert(!(spec_eval(f, st, items[1]) is Stop));
                lemma_eval_more_fuel(f, g, st, items[1]);
            }
        },
        SpecForms::CDR => {
            if items.len() == 2 {
                assert(!(spec_eval(f, st, items[1]) is Stop));
                lemma_eval_more_fuel(f, g, st, items[1]);
            }
        },
        SpecForms::CONS => {
            if items.len() == 3 {
                let e1 = spec_eval(f, st, items[1]);
                assert(!(e1 is Stop));
                lemma_eval_more_fuel(f, g, st, items[1]);
                match e1 {
                    Ev::Done(st1, h) => {
                        assert(!(spec_eval(f, st1, items[2]) is Stop));
                        lemma_eval_more_fuel(f, g, st1, items[2]);
                    },
                    _ => {},
                }
            }
        },
        _ => {},
    }
}

/// Fuel monotonicity for the `print` form's operand run.
pub proof fn lemma_eval_print_more_fuel(f: nat, g: nat, st: EvalSt, items: Seq<Val>, i: int)
    requires
        f <= g,
        !(spec_eval_print(f, st, items, i) is Stop),
    ensures
        spec_eval_print(g, st, items, i) == spec_eval_print(f, st, items, i),
    decreases f, items, 0int, items.len() + 1 - i,
{
    if i < 1 || i >= items.len() {
    } else {
        let e1 = spec_eval(f, st, items[i]);
        assert(!(e1 is Stop));
        lemma_eval_more_fuel(f, g, st, items[i]);
        match e1 {
            Ev::Done(st1, v) => {
                let st2 = EvalSt { env: st1.env, out: st1.out.push(val_text(v)) };
                assert(!(spec_eval_print(f, st2, items, i + 1) is Stop));
                lemma_eval_print_more_fuel(f, g, st2, items, i + 1);
            },
            _ => {},
        }
    }
}

/// Whether an executable evaluation result and final state are what the
/// specified outcome says: the same value or error, and the same state; fuel
/// exhaustion surfaces as an error naming the depth limit.
pub open spec fn ev_matches(e: Ev, st2: EvalSt, r: Result<LispType, EvaluatorError>) -> bool {
    match e {
        Ev::Done(st, v) => st2 == st && (r matches Ok(x) && x@ == v),
        Ev::Fail(st, err) => st2 == st && (r matches Err(x) && x@ == err),
        Ev::Stop(st) => st2 == st && (r matches Err(x) && x@ == EvalErr::Other(
            "evaluation depth limit reached"@,
        )),
    }
}

impl Evaluator {
    /// Whether a symbol is bound.
    fn env_contains(&self, name: &str) -> (r: bool)
        ensures
            r == self@.env.contains_key(name@),
    {
        proof {
            use_type_invariant(self);
            lemma_env_dom(self.env@, name@);
        }
        match self.env_find(name) {
            Some(_) => true,
            None => false,
        }
    }

    /// Appends one rendered line to the output log.
    fn out_push(&mut self, line: String)
        ensures
            final(self)@.env == old(self)@.env,
            final(self)@.out == old(self)@.out.push(line@),
    {
        proof {
            use_type_invariant(&*self);
        }
        let ghost l0 = self.out@;
        let mut log: Vec<String> = Vec::new();
        std::mem::swap(&mut self.out, &mut log);
        log.push(line);
        std::mem::swap(&mut self.out, &mut log);
        proof {
            assert(self.out@.map_values(|s: String| s@) =~= l0.map_values(|s: String| s@).push(
                self.out@.last()@,
            ));
        }
    }

    /// Evaluates a symbol by looking it up.
    fn eval_symbol(&mut self, sym: String) -> (r: Result<LispType, EvaluatorError>)
        ensures
            final(self)@ == old(self)@,
            match r {
                Ok(v) => old(self)@.env.contains_key(sym@) && v@ == old(self)@.env[sym@],
                Err(e) => !old(self)@.env.contains_key(sym@) && e@ == EvalErr::UndefinedSymbol(
                    sym@,
                ),
            },
    {
        match self.env_lookup(sym.as_str()) {
            Some(v) => Ok(v),
            None => Err(EvaluatorError::UndefinedSymbol(sym)),
        }
    }

    /// Evaluates an expression, as `spec_eval` states, with the given fuel.
    fn eval_fueled(&mut self, expr: LispType, fuel: u64) -> (r: Result<LispType, EvaluatorError>)
        ensures
            ev_matches(spec_eval(fuel as nat, old(self)@, expr@), final(self)@, r),
        decreases fuel, expr@, 2int, 0int,
    {
        match expr {
            LispType::Cons(list) => self.eval_list(list, fuel),
            LispType::Symbol(s) => self.eval_symbol(s),
            _ => Ok(expr),
        }
    }

    /// Evaluates a list, as `spec_eval_list` states.
    fn eval_list(&mut self, list: Rc<ConsList>, fuel: u64) -> (r: Result<
        LispType,
        EvaluatorError,
    >)
        ensures
            ev_matches(spec_eval_list(fuel as nat, old(self)@, list@), final(self)@, r),
        decreases fuel, list@, 1int, 1int,
    {
        let elements = match self.list_to_vec(list) {
            Ok(v) => v,
            Err(e) => {
                proof {
                    assert(false);
                }
                return Err(e);
            },
        };
        self.eval_elements(elements, fuel)
    }

    /// Evaluates a list given as the vector of its elements, as
    /// `spec_eval_list` states.
    fn eval_elements(&mut self, elements: Vec<LispType>, fuel: u64) -> (r: Result<
        LispType,
        EvaluatorError,
    >)
        ensures
            ev_matches(
                spec_eval_list(fuel as nat, old(self)@, vals_model(elements@)),
                final(self)@,
                r,
            ),
        decreases fuel, vals_model(elements@), 1int, 0int,
    {
        let ghost items = vals_model(elements@);
        proof {
            assert(items.len() == elements@.len());
        }
        if elements.len() == 0 {
            return Err(
                EvaluatorError::InvalidArguments(String::from_str("Cannot evaluate an empty list")),
            );
        }
        match &elements[0] {
            LispType::SpecForm(tag) => {
                let t = *tag;
                proof {
                    assert(items[0] == elements@[0]@);
                }
                self.eval_spec_form(t, &elements, fuel)
            },
            LispType::BinOp(op) => {
                let o = *op;
                proof {
                    assert(items[0] == elements@[0]@);
                }
                if elements.len() != 3 {
                    let msg = String::from_str("BinOp ").concat(o.to_string()).concat(
                        " requires exactly two arguments",
                    );
                    return Err(EvaluatorError::InvalidArguments(msg));
                }
                proof {
                    assert(items[1] == elements@[1]@);
                    assert(items[2] == elements@[2]@);
                }
                let arg1 = match self.eval_fueled(elements[1].clone(), fuel) {
                    Ok(v) => v,
                    Err(e) => {
                        return Err(e);
                    },
                };
                let arg2 = match self.eval_fueled(elements[2].clone(), fuel) {
                    Ok(v) => v,
                    Err(e) => {
                        return Err(e);
                    },
                };
                match Self::apply_bo(o, arg1, arg2) {
                    Ok(Some(v)) => Ok(v),
                    Ok(None) => Err(
                        EvaluatorError::Other(String::from_str("BinOp application failed")),
                    ),
                    Err(e) => Err(e),
                }
            },
            LispType::BinPred(p) => {
                let pr = *p;
                proof {
                    assert(items[0] == elements@[0]@);
                }
                if elements.len() != 3 {
                    let msg = String::from_str("BinPred ").concat(pr.to_string()).concat(
                        " requires exactly two arguments",
                    );
                    return Err(EvaluatorError::InvalidArguments(msg));
                }
                proof {
                    assert(items[1] == elements@[1]@);
                    assert(items[2] == elements@[2]@);
                }
                let arg1 = match self.eval_fueled(elements[1].clone(), fuel) {
                    Ok(v) => v,
                    Err(e) => {
                        return Err(e);
                    },
                };
                let arg2 = match self.eval_fueled(elements[2].clone(), fuel) {
                    Ok(v) => v,
                    Err(e) => {
                        return Err(e);
                    },
                };
                match Self::apply_bp(pr, &arg1, &arg2) {
                    Ok(Some(v)) => Ok(LispType::Bool(v)),
                    Ok(None) => Err(
                        EvaluatorError::Other(String::from_str("BinPred application failed")),
                    ),
                    Err(e) => Err(e),
                }
            },
            LispType::Symbol(s) => {
                proof {
                    assert(items[0] == elements@[0]@);
                }
                Err(
                    EvaluatorError::TypeMismatch(
                        String::from_str("Cannot apply operator to symbol: ").concat(s.as_str()),
                    ),
                )
            },
            LispType::Cons(inner) => {
                proof {
                    assert(items[0] == elements@[0]@);
                }
                let inner2 = rc_dup(inner);
                let h = match self.eval_list(inner2, fuel) {
                    Ok(v) => v,
                    Err(e) => {
                        return Err(e);
                    },
                };
                if fuel == 0 {
                    return Err(
                        EvaluatorError::Other(String::from_str("evaluation depth limit reached")),
                    );
                }
                let ghost hv = h@;
                let mut rest: Vec<LispType> = Vec::new();
                rest.push(h);
                proof {
                    assert(vals_model(rest@) =~= seq![hv] + vals_model(elements@).subrange(1, 1));
                }
                let mut i: usize = 1;
                while i < elements.len()
                    invariant
                        1 <= i <= elements@.len(),
                        vals_model(rest@) == seq![hv] + vals_model(elements@).subrange(
                            1,
                            i as int,
                        ),
                    decreases elements@.len() - i,
                {
                    let ghost rest0 = rest@;
                    rest.push(elements[i].clone());
                    i = i + 1;
                    proof {
                        assert(vals_model(rest@) =~= vals_model(rest0).push(
                            elements@[i - 1].model(),
                        ));
                        assert((seq![hv] + vals_model(elements@).subrange(1, i - 1)).push(
                            elements@[i - 1].model(),
                        ) =~= seq![hv] + vals_model(elements@).subrange(1, i as int));
                    }
                }
                proof {
                    assert(vals_model(rest@) =~= seq![hv] + items.drop_first());
                }
                self.eval_elements(rest, fuel - 1)
            },
            _ => {
                proof {
                    assert(items[0] == elements@[0]@);
                }
                Err(
                    EvaluatorError::TypeMismatch(
                        String::from_str(
                            "The first element of the list must be a SpecForm, BinOp, or BinPred",
                        ),
                    ),
                )
            },
        }
    }

    /// Dispatches a special form to its rule, as `spec_eval_form` states.
    fn eval_spec_form(&mut self, tag: SpecForms, elements: &Vec<LispType>, fuel: u64) -> (r: Result<
        LispType,
        EvaluatorError,
    >)
        ensures
            ev_matches(
                spec_eval_form(fuel as nat, old(self)@, tag, vals_model(elements@)),
                final(self)@,
                r,
            ),
        decreases fuel, vals_model(elements@), 0int, elements@.len() + 1,
    {
        match tag {
            SpecForms::DEF => self.eval_def(elements, fuel),
            SpecForms::SET => self.eval_set(elements, fuel),
            SpecForms::GET => self.eval_get(elements),
            SpecForms::QUOTE => self.eval_quote(elements),
            SpecForms::EVAL => self.eval_eval(elements, fuel),
            SpecForms::PRINT => self.eval_print_at(elements, 1, fuel),
            SpecForms::CAR => self.eval_car(elements, fuel),
            SpecForms::CDR => self.eval_cdr(elements, fuel),
            SpecForms::CONS => self.eval_cons(elements, fuel),
            SpecForms::DO => self.eval_do(elements),
            _ => Err(EvaluatorError::UndefinedSymbol(String::from_str("undef symb"))),
        }
    }

    /// The `def` form: binds a symbol to the evaluated operand.
    fn eval_def(&mut self, elements: &Vec<LispType>, fuel: u64) -> (r: Result<
        LispType,
        EvaluatorError,
    >)
        ensures
            ev_matches(
                spec_eval_form(fuel as nat, old(self)@, SpecForms::DEF, vals_model(elements@)),
                final(self)@,
                r,
            ),
        decreases fuel, vals_model(elements@), 0int, 0int,
    {
        if elements.len() != 3 {
            return Err(
                EvaluatorError::InvalidArguments(
                    String::from_str("def requires exactly two arguments"),
                ),
            );
        }
        proof {
            assert(vals_model(elements@)[1] == elements@[1]@);
            assert(vals_model(elements@)[2] == elements@[2]@);
        }
        let name = match &elements[1] {
            LispType::Symbol(s) => s.clone(),
            _ => {
                return Err(
                    EvaluatorError::TypeMismatch(
                        String::from_str("First argument to def must be a symbol"),
                    ),
                );
            },
        };
        let value = match self.eval_fueled(elements[2].clone(), fuel) {
            Ok(v) => v,
            Err(e) => {
                return Err(e);
            },
        };
        let out = value.clone();
        self.env_insert(name, value);
        Ok(out)
    }

    /// The `set!` form: like `def`, but the symbol must already be bound.
    fn eval_set(&mut self, elements: &Vec<LispType>, fuel: u64) -> (r: Result<
        LispType,
        EvaluatorError,
    >)
        ensures
            ev_matches(
                spec_eval_form(fuel as nat, old(self)@, SpecForms::SET, vals_model(elements@)),
                final(self)@,
                r,
            ),
        decreases fuel, vals_model(elements@), 0int, 0int,
    {
        if elements.len() != 3 {
            return Err(
                EvaluatorError::InvalidArguments(
                    String::from_str("set requires exactly two arguments"),
                ),
            );
        }
        proof {
            assert(vals_model(elements@)[1] == elements@[1]@);
            assert(vals_model(elements@)[2] == elements@[2]@);
        }
        let name = match &elements[1] {
            LispType::Symbol(s) => s.clone(),
            _ => {
                return Err(
                    EvaluatorError::TypeMismatch(
                        String::from_str("First argument to set must be a symbol"),
                    ),
                );
            },
        };
        let value = match self.eval_fueled(elements[2].clone(), fuel) {
            Ok(v) => v,
            Err(e) => {
                return Err(e);
            },
        };
        if self.env_contains(name.as_str()) {
            let out = value.clone();
            self.env_insert(name, value);
            Ok(out)
        } else {
            Err(EvaluatorError::UndefinedSymbol(name))
        }
    }

    /// The `get` form: the current binding of a symbol.
    fn eval_get(&mut self, elements: &Vec<LispType>) -> (r: Result<LispType, EvaluatorError>)
        ensures
            forall|fuel: nat|
                ev_matches(
                    #[trigger] spec_eval_form(
                        fuel,
                        old(self)@,
                        SpecForms::GET,
                        vals_model(elements@),
                    ),
                    final(self)@,
                    r,
                ),
    {
        if elements.len() != 2 {
            return Err(
                EvaluatorError::InvalidArguments(
                    String::from_str("get requires exactly one argument"),
                ),
            );
        }
        proof {
            assert(vals_model(elements@)[1] == elements@[1]@);
        }
        let name = match &elements[1] {
            LispType::Symbol(s) => s.clone(),
            _ => {
                return Err(
                    EvaluatorError::TypeMismatch(
                        String::from_str("Argument to get must be a symbol"),
                    ),
                );
            },
        };
        self.eval_symbol(name)
    }

    /// The `quote` form: the operand itself, unevaluated.
    fn eval_quote(&mut self, elements: &Vec<LispType>) -> (r: Result<LispType, EvaluatorError>)
        ensures
            final(self)@ == old(self)@,
            forall|fuel: nat|
                ev_matches(
                    #[trigger] spec_eval_form(
                        fuel,
                        old(self)@,
                        SpecForms::QUOTE,
                        vals_model(elements@),
                    ),
                    final(self)@,
                    r,
                ),
    {
        if elements.len() != 2 {
            return Err(
                EvaluatorError::InvalidArguments(
                    String::from_str("quote requires exactly one argument"),
                ),
            );
        }
        proof {
            assert(vals_model(elements@)[1] == elements@[1]@);
        }
        Ok(elements[1].clone())
    }

    /// The `eval` form: evaluates the operand, then evaluates the result.
    fn eval_eval(&mut self, elements: &Vec<LispType>, fuel: u64) -> (r: Result<
        LispType,
        EvaluatorError,
    >)
        ensures
            ev_matches(
                spec_eval_form(fuel as nat, old(self)@, SpecForms::EVAL, vals_model(elements@)),
                final(self)@,
                r,
            ),
        decreases fuel, vals_model(elements@), 0int, 0int,
    {
        if elements.len() != 2 {
            return Err(
                EvaluatorError::InvalidArguments(
                    String::from_str("eval requires exactly one argument"),
                ),
            );
        }
        proof {
            assert(vals_model(elements@)[1] == elements@[1]@);
        }
        let v1 = match self.eval_fueled(elements[1].clone(), fuel) {
            Ok(v) => v,
            Err(e) => {
                return Err(e);
            },
        };
        if fuel == 0 {
            return Err(
                EvaluatorError::Other(String::from_str("evaluation depth limit reached")),
            );
        }
        self.eval_fueled(v1, fuel - 1)
    }

    /// The `print` form: evaluates each operand in order, appending its
    /// rendering to the output log, and yields `true`.
    fn eval_print_at(&mut self, elements: &Vec<LispType>, i: usize, fuel: u64) -> (r: Result<
        LispType,
        EvaluatorError,
    >)
        requires
            1 <= i,
        ensures
            ev_matches(
                spec_eval_print(fuel as nat, old(self)@, vals_model(elements@), i as int),
                final(self)@,
                r,
            ),
        decreases fuel, vals_model(elements@), 0int, elements@.len() + 1 - i,
    {
        if i >= elements.len() {
            return Ok(LispType::Bool(true));
        }
        proof {
            assert(vals_model(elements@)[i as int] == elements@[i as int]@);
        }
        let v = match self.eval_fueled(elements[i].clone(), fuel) {
            Ok(v) => v,
            Err(e) => {
                return Err(e);
            },
        };
        let line = v.show();
        self.out_push(line);
        self.eval_print_at(elements, i + 1, fuel)
    }

    /// The `car` form: the head of the list the operand evaluates to.
    fn eval_car(&mut self, elements: &Vec<LispType>, fuel: u64) -> (r: Result<
        LispType,
        EvaluatorError,
    >)
        ensures
            ev_matches(
                spec_eval_form(fuel as nat, old(self)@, SpecForms::CAR, vals_model(elements@)),
                final(self)@,
                r,
            ),
        decreases fuel, vals_model(elements@), 0int, 0int,
    {
        if elements.len() != 2 {
            return Err(
                EvaluatorError::InvalidArguments(
                    String::from_str("car requires exactly one argument"),
                ),
            );
        }
        proof {
            assert(vals_model(elements@)[1] == elements@[1]@);
        }
        let lst = match self.eval_fueled(elements[1].clone(), fuel) {
            Ok(v) => v,
            Err(e) => {
                return Err(e);
            },
        };
        match lst {
            LispType::Cons(cl) => match cl.car() {
                Some(h) => Ok(h.clone()),
                None => Err(
                    EvaluatorError::InvalidArguments(
                        String::from_str("Cannot take car of an empty list"),
                    ),
                ),
            },
            _ => Err(EvaluatorError::TypeMismatch(String::from_str("car expects a list"))),
        }
    }

    /// The `cdr` form: the tail of the list the operand evaluates to.
    fn eval_cdr(&mut self, elements: &Vec<LispType>, fuel: u64) -> (r: Result<
        LispType,
        EvaluatorError,
    >)
        ensures
            ev_matches(
                spec_eval_form(fuel as nat, old(self)@, SpecForms::CDR, vals_model(elements@)),
                final(self)@,
                r,
            ),
        decreases fuel, vals_model(elements@), 0int, 0int,
    {
        if elements.len() != 2 {
            return Err(
                EvaluatorError::InvalidArguments(
                    String::from_str("cdr requires exactly one argument"),
                ),
            );
        }
        proof {
            assert(vals_model(elements@)[1] == elements@[1]@);
        }
        let lst = match self.eval_fueled(elements[1].clone(), fuel) {
            Ok(v) => v,
            Err(e) => {
                return Err(e);
            },
        };
        match lst {
            LispType::Cons(cl) => match &*cl {
                ConsList::Cons(_, tail) => {
                    proof {
                        assert((**tail)@ =~= cl@.drop_first());
                    }
                    Ok(LispType::Cons(rc_dup(tail)))
                },
                ConsList::Nil => Err(
                    EvaluatorError::InvalidArguments(
                        String::from_str("Cannot take cdr of an empty list"),
                    ),
                ),
            },
            _ => Err(EvaluatorError::TypeMismatch(String::from_str("cdr expects a list"))),
        }
    }

    /// The `cons` form: prepends the first evaluated operand onto the
    /// second; a non-list second operand is first wrapped as a one-element
    /// list.
    fn eval_cons(&mut self, elements: &Vec<LispType>, fuel: u64) -> (r: Result<
        LispType,
        EvaluatorError,
    >)
        ensures
            ev_matches(
                spec_eval_form(fuel as nat, old(self)@, SpecForms::CONS, vals_model(elements@)),
                final(self)@,
                r,
            ),
        decreases fuel, vals_model(elements@), 0int, 0int,
    {
        if elements.len() != 3 {
            return Err(
                EvaluatorError::InvalidArguments(
                    String::from_str("cons requires exactly two arguments"),
                ),
            );
        }
        proof {
            assert(vals_model(elements@)[1] == elements@[1]@);
            assert(vals_model(elements@)[2] == elements@[2]@);
        }
        let head = match self.eval_fueled(elements[1].clone(), fuel) {
            Ok(v) => v,
            Err(e) => {
                return Err(e);
            },
        };
        let tail = match self.eval_fueled(elements[2].clone(), fuel) {
            Ok(v) => v,
            Err(e) => {
                return Err(e);
            },
        };
        let ghost hv = head@;
        let ghost tv = tail@;
        match tail {
            LispType::Cons(tl) => {
                let ghost lv = (*tl)@;
                let r = LispType::Cons(Rc::new(ConsList::Cons(head, tl)));
                proof {
                    assert(r@ == Val::List(seq![hv] + lv));
                }
                Ok(r)
            },
            other => {
                let single = Rc::new(ConsList::Cons(other, Rc::new(ConsList::Nil)));
                proof {
                    reveal_with_fuel(ConsList::model, 3);
                    assert((*single)@ =~= seq![tv]);
                }
                let r = LispType::Cons(Rc::new(ConsList::Cons(head, single)));
                proof {
                    assert(r@ == Val::List(seq![hv] + seq![tv]));
                    assert(seq![hv] + seq![tv] =~= seq![hv, tv]);
                }
                Ok(r)
            },
        }
    }

    /// The `do` form, a placeholder: with at least two operands it yields
    /// the second, unevaluated.
    fn eval_do(&mut self, elements: &Vec<LispType>) -> (r: Result<LispType, EvaluatorError>)
        ensures
            final(self)@ == old(self)@,
            forall|fuel: nat|
                ev_matches(
                    #[trigger] spec_eval_form(
                        fuel,
                        old(self)@,
                        SpecForms::DO,
                        vals_model(elements@),
                    ),
                    final(self)@,
                    r,
                ),
    {
        if elements.len() < 3 {
            return Err(
                EvaluatorError::InvalidArguments(
                    String::from_str("do requires at least two arguments"),
                ),
            );
        }
        proof {
            assert(vals_model(elements@)[2] == elements@[2]@);
        }
        Ok(elements[2].clone())
    }

    /// Evaluates an expression against the symbol table, with the standard
    /// fuel for chained re-evaluation.
    pub fn eval(&mut self, expr: LispType) -> (r: Result<LispType, EvaluatorError>)
        ensures
            ev_matches(spec_eval(EVAL_FUEL as nat, old(self)@, expr@), final(self)@, r),
    {
        self.eval_fueled(expr, EVAL_FUEL)
    }
}

/// A truncated quotient and remainder of two machine integers, and the
/// quotient times the divisor, all fit a machine integer.
proof fn lemma_trunc_rem_fits(x: int, y: int)
    requires
        i64::MIN <= x <= i64::MAX,
        i64::MIN <= y <= i64::MAX,
        y != 0,
        !(x == i64::MIN && y == -1),
    ensures
        i64::MIN <= trunc_div(x, y) <= i64::MAX,
        i64::MIN <= trunc_div(x, y) * y <= i64::MAX,
        i64::MIN <= x - trunc_div(x, y) * y <= i64::MAX,
{
    let ax = if x < 0 {
        -x
    } else {
        x
    };
    let ay = if y < 0 {
        -y
    } else {
        y
    };
    let m = ax / ay;
    let r = ax % ay;
    let t = trunc_div(x, y);
    vstd::arithmetic::div_mod::lemma_fundamental_div_mod(ax, ay);
    vstd::arithmetic::div_mod::lemma_div_pos_is_pos(ax, ay);
    vstd::arithmetic::div_mod::lemma_mod_division_less_than_divisor(ax, ay);
    assert(ay * m >= 0) by (nonlinear_arith)
        requires
            ay >= 1,
            m >= 0,
    ;
    assert(r <= ax);
    assert(ay * m >= m) by (nonlinear_arith)
        requires
            ay >= 1,
            m >= 0,
    ;
    assert(m <= ax);
    if x == i64::MIN && (x < 0) == (y < 0) {
        assert(y <= -2);
        assert(ay >= 2);
        assert(ay * m >= 2 * m) by (nonlinear_arith)
            requires
                ay >= 2,
                m >= 0,
        ;
        assert(m <= ax / 2 + 1);
    }
    assert(t == if (x < 0) != (y < 0) {
        -m
    } else {
        m
    });
    if (x < 0) == (y < 0) {
        // y == ay or y == -ay matching x's sign; t == m
        if y < 0 {
            assert(m * y == -(ay * m)) by (nonlinear_arith)
                requires
                    y == -ay,
            ;
            assert(t * y == x + r);
        } else {
            assert(m * y == ay * m) by (nonlinear_arith)
                requires
                    y == ay,
            ;
            assert(t * y == x - r);
        }
    } else {
        if y < 0 {
            assert((-m) * y == ay * m) by (nonlinear_arith)
                requires
                    y == -ay,
            ;
            assert(t * y == x - r);
        } else {
            assert((-m) * y == -(ay * m)) by (nonlinear_arith)
                requires
                    y == ay,
            ;
            assert(t * y == x + r);
        }
    }
}

} // verus!
