//! The parser: it consumes the token sequence and builds the value tree
//! mirroring the nested-parenthesis structure. A bare word is resolved
//! against the binary-predicate, special-form and binary-operator tables in
//! that order, falling back to a plain symbol.
//!
//! The function `spec_parse_list` states the whole construction: what list
//! of values a token run denotes and where the run ends.

use crate::conslist::{rc_dup, ConsList};
use crate::lexer::{Tok, Token};
use crate::lisptype::{LispType, Val};
use crate::type_enums::{
    binop_of_text, binpred_of_text, specform_of_text, BinOp, BinPred, SpecForms,
};
use std::rc::Rc;
use vstd::prelude::*;

verus! {

/// The models of a run of tokens.
pub open spec fn toks_model(ts: Seq<Token>) -> Seq<Tok> {
    ts.map_values(|t: Token| t.model())
}

/// The value a bare word denotes: a binary predicate, a special form or a
/// binary operator when it spells one, and a plain symbol otherwise.
pub open spec fn spec_symbol_val(s: Seq<char>) -> Val {
    match binpred_of_text(s) {
        Some(p) => Val::BinPred(p),
        None => match specform_of_text(s) {
            Some(f) => Val::SpecForm(f),
            None => match binop_of_text(s) {
                Some(op) => Val::BinOp(op),
                None => Val::Sym(s),
            },
        },
    }
}

/// The value a single token denotes: parentheses and comments denote none,
/// literals pass through, a bare word is resolved by `spec_symbol_val`.
pub open spec fn spec_token_val(t: Tok) -> Option<Val> {
    match t {
        Tok::LParen(line, col) => None,
        Tok::RParen(line, col) => None,
        Tok::Float(q) => Some(Val::Float(q)),
        Tok::Int(i) => Some(Val::Int(i)),
        Tok::Comment(s) => None,
        Tok::Sym(s) => Some(spec_symbol_val(s)),
        Tok::StrLit(s) => Some(Val::Str(s)),
    }
}

/// The list of values that the tokens from position `i` denote, and the
/// position just past them: an opening parenthesis starts a nested list, the
/// matching closing parenthesis ends it, and the first unmatched closing
/// parenthesis ends the current level.
pub open spec fn spec_parse_list(toks: Seq<Tok>, i: int) -> (Seq<Val>, int)
    decreases toks.len() - i,
{
    if i < 0 || i >= toks.len() {
        (seq![], toks.len() as int)
    } else {
        match toks[i] {
            Tok::LParen(line, col) => {
                let (sub, j0) = spec_parse_list(toks, i + 1);
                let j = if j0 <= i + 1 {
                    i + 1
                } else if j0 > toks.len() {
                    toks.len() as int
                } else {
                    j0
                };
                let (rest, k) = spec_parse_list(toks, j);
                (seq![Val::List(sub)] + rest, k)
            },
            Tok::RParen(line, col) => (seq![], i + 1),
            _ => {
                let (rest, k) = spec_parse_list(toks, i + 1);
                match spec_token_val(toks[i]) {
                    Some(v) => (seq![v] + rest, k),
                    None => (rest, k),
                }
            },
        }
    }
}

/// The value tree that a whole token sequence denotes.
pub open spec fn spec_parse(toks: Seq<Tok>) -> Seq<Val> {
    spec_parse_list(toks, 0).0
}

/// The recursive-descent parser over a token sequence.
pub struct Parser {}

impl Parser {
    /// Resolves one token to the value it denotes, if any.
    fn parse_token(token: &Token) -> (r: Option<LispType>)
        ensures
            match r {
                Some(v) => spec_token_val(token@) == Some(v@),
                None => spec_token_val(token@) is None,
            },
    {
        match token {
            Token::LParen(_, _) => None,
            Token::RParen(_, _) => None,
            Token::Float(q) => Some(LispType::Float(*q)),
            Token::Integer(i) => Some(LispType::Integer(*i)),
            Token::Comment(_) => None,
            Token::Symbol(s) => Some(Self::parse_symbol(s.as_str())),
            Token::StringLiteral(s) => Some(LispType::String(s.clone())),
        }
    }

    /// Resolves a bare word against the three operator tables, in order,
    /// falling back to a plain symbol.
    fn parse_symbol(s: &str) -> (r: LispType)
        ensures
            r@ == spec_symbol_val(s@),
    {
        if let Some(p) = BinPred::from_str(s) {
            return LispType::BinPred(p);
        }
        if let Some(f) = SpecForms::from_str(s) {
            return LispType::SpecForm(f);
        }
        if let Some(op) = BinOp::from_str(s) {
            return LispType::BinOp(op);
        }
        LispType::Symbol(String::from_str(s))
    }

    /// Reverses a list, sharing the element values.
    fn reverse_list(list: Rc<ConsList>) -> (r: Rc<ConsList>)
        ensures
            r@ == list@.reverse(),
    {
        let mut reversed: Rc<ConsList> = Rc::new(ConsList::Nil);
        let mut current: Rc<ConsList> = list;
        loop
            invariant_except_break
                current@.reverse() + reversed@ == list@.reverse(),
            ensures
                reversed@ == list@.reverse(),
            decreases current@.len(),
        {
            let ghost cur0 = current@;
            let ghost rev0 = reversed@;
            match &*current {
                ConsList::Cons(head, tail) => {
                    let h = head.clone();
                    let t = rc_dup(tail);
                    reversed = Rc::new(ConsList::Cons(h, reversed));
                    current = t;
                    proof {
                        assert(cur0.drop_first() =~= current@);
                        assert(cur0.reverse() =~= current@.reverse() + seq![cur0[0]]);
                        assert(reversed@ =~= seq![cur0[0]] + rev0);
                        assert(current@.reverse() + reversed@ =~= cur0.reverse() + rev0);
                    }
                },
                ConsList::Nil => {
                    proof {
                        assert(current@.reverse() =~= Seq::<Val>::empty());
                        assert(reversed@ =~= list@.reverse());
                    }
                    break ;
                },
            }
        }
        reversed
    }

    /// Whether a token that belongs to the current nesting level stands at
    /// position `idx`.
    fn more_elems(tokens: &Vec<Token>, idx: usize) -> (r: bool)
        ensures
            r == (idx < tokens@.len() && !(toks_model(tokens@)[idx as int] is RParen)),
    {
        if idx < tokens.len() {
            match &tokens[idx] {
                Token::RParen(_, _) => false,
                _ => true,
            }
        } else {
            false
        }
    }

    /// Parses one nesting level, starting at `idx`: the values it denotes,
    /// in source order, and the position just past its closing parenthesis
    /// or the end of the tokens.
    fn parse_list_at(tokens: &Vec<Token>, idx: usize) -> (res: (Rc<ConsList>, usize))
        requires
            idx <= tokens@.len(),
        ensures
            ({
                let (vals, j) = spec_parse_list(toks_model(tokens@), idx as int);
                (*res.0)@ == vals && res.1 as int == j && idx <= res.1 <= tokens@.len()
            }),
        decreases tokens@.len() - idx, 0int,
    {
        let ghost toksm = toks_model(tokens@);
        let mut acc: Rc<ConsList> = Rc::new(ConsList::Nil);
        let mut i: usize = idx;
        while Self::more_elems(tokens, i)
            invariant
                idx <= i <= tokens@.len(),
                toksm == toks_model(tokens@),
                ({
                    let (vals, j) = spec_parse_list(toksm, idx as int);
                    let (rest, k) = spec_parse_list(toksm, i as int);
                    vals == acc@.reverse() + rest && j == k
                }),
            decreases tokens@.len() - i, 1int,
        {
            let ghost acc0 = acc@;
            proof {
                vstd::std_specs::vec::axiom_spec_len(tokens);
            }
            let t = &tokens[i];
            proof {
                assert(toksm[i as int] == t.model());
            }
            match t {
                Token::LParen(_, _) => {
                    let (sub, j) = Self::parse_list_at(tokens, i + 1);
                    let ghost subv = (*sub)@;
                    let node = LispType::Cons(sub);
                    proof {
                        assert(node@ == Val::List(subv));
                    }
                    let ghost nodev = node@;
                    acc = Rc::new(ConsList::Cons(node, acc));
                    proof {
                        assert(acc@ == seq![nodev] + acc0);
                        assert(acc@ =~= seq![Val::List(subv)] + acc0);
                        assert(acc@.reverse() =~= acc0.reverse() + seq![Val::List(subv)]);
                        let (vals, jj) = spec_parse_list(toksm, idx as int);
                        let (rest, k) = spec_parse_list(toksm, j as int);
                        assert(vals =~= acc@.reverse() + rest);
                    }
                    i = j;
                },
                Token::RParen(_, _) => {
                    proof {
                        assert(false);
                    }
                },
                _ => {
                    match Self::parse_token(t) {
                        Some(v) => {
                            acc = Rc::new(ConsList::Cons(v, acc));
                            proof {
                                let vv = spec_token_val(toksm[i as int])->Some_0;
                                assert(acc@ =~= seq![vv] + acc0);
                                assert(acc@.reverse() =~= acc0.reverse() + seq![vv]);
                                let (vals, jj) = spec_parse_list(toksm, idx as int);
                                let (rest, k) = spec_parse_list(toksm, (i + 1) as int);
                                assert(vals =~= acc@.reverse() + rest);
                            }
                        },
                        None => {},
                    }
                    i = i + 1;
                },
            }
        }
        if i < tokens.len() {
            i = i + 1;
        }
        let r = Self::reverse_list(acc);
        proof {
            assert((*r)@ =~= acc@.reverse());
        }
        (r, i)
    }

    /// Parses a whole token sequence into the value tree it denotes.
    pub fn parse(tokens: Vec<Token>) -> (r: Rc<ConsList>)
        ensures
            (*r)@ == spec_parse(toks_model(tokens@)),
    {
        let (list, _rest) = Self::parse_list_at(&tokens, 0);
        list
    }
}

} // verus!
