//! The tagged union of every runtime datum: scalars, symbols, compound
//! lists and the first-class operator tags, together with its mathematical
//! model.

use crate::conslist::{rc_dup, ConsList};
use crate::rational::{pow10, rat_int, Rat, Rational};
use crate::type_enums::{binop_text, binpred_text, specform_text, BinOp, BinPred, SpecForms};
use std::rc::Rc;
use vstd::prelude::*;

verus! {

/// The decimal digit character for `d` between zero and nine.
pub open spec fn digit_char(d: int) -> char {
    if d == 0 {
        '0'
    } else if d == 1 {
        '1'
    } else if d == 2 {
        '2'
    } else if d == 3 {
        '3'
    } else if d == 4 {
        '4'
    } else if d == 5 {
        '5'
    } else if d == 6 {
        '6'
    } else if d == 7 {
        '7'
    } else if d == 8 {
        '8'
    } else {
        '9'
    }
}

/// The decimal numeral of a nonnegative integer.
pub open spec fn nat_text(n: int) -> Seq<char>
    decreases n,
{
    if n < 10 {
        seq![digit_char(n)]
    } else {
        nat_text(n / 10) + seq![digit_char(n % 10)]
    }
}

/// The decimal numeral of an integer, with a leading minus sign when
/// negative.
pub open spec fn int_text(n: int) -> Seq<char> {
    if n < 0 {
        seq!['-'] + nat_text(-n)
    } else {
        nat_text(n)
    }
}

/// How many times ten divides `d` exactly.
pub open spec fn tens_in(d: int) -> nat
    decreases d,
{
    if d >= 10 && d % 10 == 0 {
        1 + tens_in(d / 10)
    } else {
        0
    }
}

/// What remains of `d` after all factors of ten are taken out.
pub open spec fn core10(d: int) -> int
    decreases d,
{
    if d >= 10 && d % 10 == 0 {
        core10(d / 10)
    } else {
        d
    }
}

/// `s` filled on the left with zero digits up to length `m`.
pub open spec fn zero_pad(s: Seq<char>, m: int) -> Seq<char> {
    if s.len() >= m {
        s
    } else {
        Seq::new((m - s.len()) as nat, |i: int| '0') + s
    }
}

/// The numeral of `n / 10^k` written with a decimal point and `k` digits
/// after it.
pub open spec fn dec_text(n: int, k: nat) -> Seq<char> {
    let a = if n < 0 {
        -n
    } else {
        n
    };
    let sign: Seq<char> = if n < 0 {
        seq!['-']
    } else {
        seq![]
    };
    let digits = zero_pad(nat_text(a), k + 1 as int);
    sign + digits.take(digits.len() - k) + seq!['.'] + digits.skip(digits.len() - k)
}

/// The rendering of a rational: an integer plainly, a fraction over a power
/// of ten as a decimal numeral, any other fraction as numerator and
/// denominator over a slash.
pub open spec fn rat_text(r: Rat) -> Seq<char> {
    if r.d == 1 {
        int_text(r.n)
    } else if core10(r.d) == 1 {
        dec_text(r.n, tens_in(r.d))
    } else {
        int_text(r.n) + seq!['/'] + int_text(r.d)
    }
}

/// The rendering of a value: scalars as their literal, strings
/// single-quoted, operator tags as their spelling, a list parenthesized.
pub open spec fn val_text(v: Val) -> Seq<char>
    decreases v, 0int,
{
    match v {
        Val::Bool(b) => if b {
            "true"@
        } else {
            "false"@
        },
        Val::Str(s) => seq!['\''] + s + seq!['\''],
        Val::Int(i) => int_text(i),
        Val::Float(r) => rat_text(r),
        Val::Sym(s) => s,
        Val::List(items) => seq!['('] + list_text(items, 0) + seq![')'],
        Val::BinOp(op) => binop_text(op),
        Val::BinPred(p) => binpred_text(p),
        Val::SpecForm(f) => specform_text(f),
    }
}

/// The renderings of the elements of `items` from position `i` on, joined
/// by single spaces.
pub open spec fn list_text(items: Seq<Val>, i: int) -> Seq<char>
    decreases items, items.len() - i,
{
    if i < 0 || i >= items.len() {
        seq![]
    } else {
        let head = val_text(items[i]);
        let tail = list_text(items, i + 1);
        if tail.len() == 0 {
            head
        } else {
            head + seq![' '] + tail
        }
    }
}

/// Rendering the elements of a list from position `i` on does not depend on
/// the elements before `i`.
pub proof fn lemma_list_text_drop(items: Seq<Val>, i: int)
    requires
        1 <= i,
        1 <= items.len(),
    ensures
        list_text(items, i) == list_text(items.drop_first(), i - 1),
    decreases items.len() - i,
{
    if i >= items.len() {
        assert(items.drop_first().len() == items.len() - 1);
    } else {
        lemma_list_text_drop(items, i + 1);
        assert(items.drop_first()[i - 1] == items[i]);
    }
}

/// The mathematical model of a runtime value. Strings and symbols are
/// character sequences, numbers are unbounded, and a compound list is the
/// sequence of the models of its elements.
pub enum Val {
    Str(Seq<char>),
    Int(int),
    Float(Rat),
    Bool(bool),
    Sym(Seq<char>),
    List(Seq<Val>),
    SpecForm(SpecForms),
    BinPred(BinPred),
    BinOp(BinOp),
}

/// A runtime value. `Float` carries an exact rational; `Cons` shares its
/// list through a reference count.
#[derive(Debug)]
pub enum LispType {
    String(String),
    Integer(i64),
    Float(Rational),
    Bool(bool),
    Symbol(String),
    Cons(Rc<ConsList>),
    SpecForm(SpecForms),
    BinPred(BinPred),
    BinOp(BinOp),
}

impl LispType {
    /// The mathematical value this datum holds.
    pub open spec fn model(self) -> Val
        decreases self,
    {
        match self {
            LispType::String(s) => Val::Str(s@),
            LispType::Integer(i) => Val::Int(i as int),
            LispType::Float(r) => Val::Float(r@),
            LispType::Bool(b) => Val::Bool(b),
            LispType::Symbol(s) => Val::Sym(s@),
            LispType::Cons(list) => Val::List((*list).model()),
            LispType::SpecForm(f) => Val::SpecForm(f),
            LispType::BinPred(p) => Val::BinPred(p),
            LispType::BinOp(op) => Val::BinOp(op),
        }
    }
}

impl View for LispType {
    type V = Val;

    open spec fn view(&self) -> Val {
        (*self).model()
    }
}

impl Clone for LispType {
    /// A copy holds the same value; list nodes are shared, not copied.
    fn clone(&self) -> (r: Self)
        ensures
            r@ == self@,
    {
        match self {
            LispType::String(s) => LispType::String(s.clone()),
            LispType::Integer(i) => LispType::Integer(*i),
            LispType::Float(r) => LispType::Float(*r),
            LispType::Bool(b) => LispType::Bool(*b),
            LispType::Symbol(s) => LispType::Symbol(s.clone()),
            LispType::Cons(list) => LispType::Cons(rc_dup(list)),
            LispType::SpecForm(f) => LispType::SpecForm(*f),
            LispType::BinPred(p) => LispType::BinPred(*p),
            LispType::BinOp(op) => LispType::BinOp(*op),
        }
    }
}

impl LispType {
    /// The numeric value as a rational: integers are widened, rationals
    /// pass through, everything else is not numeric.
    pub fn as_float(&self) -> (r: Option<Rational>)
        ensures
            match r {
                Some(q) => match self@ {
                    Val::Int(i) => q@ == rat_int(i),
                    Val::Float(x) => q@ == x,
                    _ => false,
                },
                None => !(self@ is Int || self@ is Float),
            },
    {
        match self {
            LispType::Integer(i) => Some(Rational::from_integer(*i)),
            LispType::Float(r) => Some(*r),
            _ => None,
        }
    }

    /// The integer this value holds, if it is an integer.
    pub fn as_integer(&self) -> (r: Option<i64>)
        ensures
            match r {
                Some(i) => self@ == Val::Int(i as int),
                None => !(self@ is Int),
            },
    {
        match self {
            LispType::Integer(i) => Some(*i),
            _ => None,
        }
    }

    /// The rendering of this value: scalars as their literal, strings
    /// single-quoted, operator tags as their spelling, a list parenthesized.
    pub fn show(&self) -> (r: String)
        ensures
            r@ == val_text(self@),
        decreases *self, 1int,
    {
        match self {
            LispType::Bool(b) => {
                if *b {
                    String::from_str("true")
                } else {
                    String::from_str("false")
                }
            },
            LispType::String(s) => {
                proof {
                    reveal_strlit("'");
                    assert("'"@ =~= seq!['\'']);
                }
                let r = String::from_str("'").concat(s.as_str()).concat("'");
                proof {
                    assert(r@ =~= seq!['\''] + s@ + seq!['\'']);
                }
                r
            },
            LispType::Integer(i) => int_str(*i),
            LispType::Float(q) => show_rational(q),
            LispType::Symbol(s) => s.clone(),
            LispType::Cons(list) => list.show(),
            LispType::BinOp(op) => String::from_str(op.to_string()),
            LispType::BinPred(p) => String::from_str(p.to_string()),
            LispType::SpecForm(f) => String::from_str(f.to_string()),
        }
    }

    /// The text this value holds, if it is a string.
    pub fn as_string(&self) -> (r: Option<String>)
        ensures
            match r {
                Some(s) => self@ == Val::Str(s@),
                None => !(self@ is Str),
            },
    {
        match self {
            LispType::String(s) => Some(s.clone()),
            _ => None,
        }
    }
}

/// The decimal digit character for `d`, as a string slice.
fn digit_str(d: u64) -> (r: &'static str)
    requires
        d < 10,
    ensures
        r@ == seq![digit_char(d as int)],
{
    proof {
        reveal_strlit("0");
        reveal_strlit("1");
        reveal_strlit("2");
        reveal_strlit("3");
        reveal_strlit("4");
        reveal_strlit("5");
        reveal_strlit("6");
        reveal_strlit("7");
        reveal_strlit("8");
        reveal_strlit("9");
        assert("0"@ =~= seq!['0']);
        assert("1"@ =~= seq!['1']);
        assert("2"@ =~= seq!['2']);
        assert("3"@ =~= seq!['3']);
        assert("4"@ =~= seq!['4']);
        assert("5"@ =~= seq!['5']);
        assert("6"@ =~= seq!['6']);
        assert("7"@ =~= seq!['7']);
        assert("8"@ =~= seq!['8']);
        assert("9"@ =~= seq!['9']);
    }
    if d == 0 {
        "0"
    } else if d == 1 {
        "1"
    } else if d == 2 {
        "2"
    } else if d == 3 {
        "3"
    } else if d == 4 {
        "4"
    } else if d == 5 {
        "5"
    } else if d == 6 {
        "6"
    } else if d == 7 {
        "7"
    } else if d == 8 {
        "8"
    } else {
        "9"
    }
}

/// The decimal numeral of a nonnegative machine integer.
fn nat_str(n: u64) -> (r: String)
    ensures
        r@ == nat_text(n as int),
    decreases n,
{
    if n < 10 {
        String::from_str(digit_str(n))
    } else {
        nat_str(n / 10).concat(digit_str(n % 10))
    }
}

/// The magnitude of a machine integer.
fn abs64(n: i64) -> (r: u64)
    ensures
        r as int == if n < 0 {
            -(n as int)
        } else {
            n as int
        },
{
    if n < 0 {
        (-(n as i128)) as u64
    } else {
        n as u64
    }
}

/// The decimal numeral of a machine integer, signed.
fn int_str(n: i64) -> (r: String)
    ensures
        r@ == int_text(n as int),
{
    if n < 0 {
        proof {
            reveal_strlit("-");
            assert("-"@ =~= seq!['-']);
        }
        let a = nat_str(abs64(n));
        String::from_str("-").concat(a.as_str())
    } else {
        nat_str(n as u64)
    }
}

/// A run of `m` zero digits.
fn zeros(m: usize) -> (r: String)
    ensures
        r@ == Seq::new(m as nat, |i: int| '0'),
{
    proof {
        reveal_strlit("0");
        assert("0"@ =~= seq!['0']);
    }
    let mut s = String::new();
    let mut i: usize = 0;
    while i < m
        invariant
            i <= m,
            s@ == Seq::new(i as nat, |j: int| '0'),
            "0"@ == seq!['0'],
        decreases m - i,
    {
        s.append("0");
        i = i + 1;
        proof {
            assert(s@ =~= Seq::new(i as nat, |j: int| '0'));
        }
    }
    proof {
        assert(s@ =~= Seq::new(m as nat, |i: int| '0'));
    }
    s
}

/// The rendering of a rational, as `rat_text` states it.
fn show_rational(q: &Rational) -> (r: String)
    ensures
        r@ == rat_text(q@),
{
    let num: i64 = q.num();
    let den: i64 = q.den();
    if den == 1 {
        int_str(num)
    } else {
        let mut d0: u64 = den as u64;
        let mut k: usize = 0;
        while d0 % 10 == 0
            invariant
                1 <= d0,
                d0 <= 0x7fffffffffffffffu64,
                2 <= den,
                den as int == q@.d,
                num as int == q@.n,
                den as int == d0 as int * pow10(k as nat),
                tens_in(den as int) == k + tens_in(d0 as int),
                core10(den as int) == core10(d0 as int),
                k <= 18,
            decreases d0,
        {
            let ghost dv = d0 as int;
            let ghost kv = k as nat;
            proof {
                crate::rational::lemma_pow10_pos(kv);
            }
            d0 = d0 / 10;
            k = k + 1;
            proof {
                assert(dv == 10 * (d0 as int));
                assert(pow10((kv + 1) as nat) == 10 * pow10(kv));
                assert((10 * (d0 as int)) * pow10(kv) == (d0 as int) * (10 * pow10(kv)))
                    by (nonlinear_arith);
                assert(den as int == d0 as int * pow10(k as nat));
                assert(pow10(k as nat) <= (d0 as int) * pow10(k as nat)) by (nonlinear_arith)
                    requires
                        1 <= d0 as int,
                        0 <= pow10(k as nat),
                ;
                if k >= 19 {
                    crate::rational::lemma_pow10_gt_i64(k as nat);
                    assert(false);
                }
                assert(tens_in(dv) == 1 + tens_in(d0 as int));
                assert(core10(dv) == core10(d0 as int));
            }
        }
        proof {
            assert(tens_in(d0 as int) == 0);
            assert(core10(d0 as int) == d0 as int);
        }
        if d0 == 1 {
            let ghost kv = k as nat;
            proof {
                assert(core10(den as int) == 1);
                assert(tens_in(den as int) == kv);
            }
            let a: u64 = abs64(num);
            let s: String = nat_str(a);
            let len: usize = s.as_str().unicode_len();
            let padded: String = if len > k {
                s
            } else {
                zeros(k + 1 - len).concat(s.as_str())
            };
            let ghost digits = zero_pad(nat_text(a as int), kv + 1 as int);
            proof {
                assert(padded@ == digits);
            }
            let plen: usize = padded.as_str().unicode_len();
            let ip: &str = padded.as_str().substring_char(0, plen - k);
            let fp: &str = padded.as_str().substring_char(plen - k, plen);
            let mut out = String::new();
            if num < 0 {
                out.append("-");
            }
            out.append(ip);
            out.append(".");
            out.append(fp);
            proof {
                reveal_strlit("-");
                reveal_strlit(".");
                assert("-"@ =~= seq!['-']);
                assert("."@ =~= seq!['.']);
                assert(ip@ == digits.take(digits.len() - kv));
                assert(fp@ == digits.skip(digits.len() - kv));
                assert(out@ =~= dec_text(num as int, kv));
            }
            out
        } else {
            proof {
                reveal_strlit("/");
                assert("/"@ =~= seq!['/']);
            }
            let mut out = int_str(num);
            out.append("/");
            let ds = int_str(den);
            out.append(ds.as_str());
            proof {
                assert(out@ =~= int_text(num as int) + seq!['/'] + int_text(den as int));
            }
            out
        }
    }
}

} // verus!
