//! The persistent list: an immutable, singly-linked sequence of values.
//! Nodes are shared through reference counting and never mutated, so many
//! lists may share a tail without copying.

use crate::lisptype::{lemma_list_text_drop, list_text, val_text, LispType, Val};
use std::rc::Rc;
use vstd::prelude::*;

verus! {

/// An immutable list of values: either a pair of a head value and a shared
/// tail, or the empty list. Its mathematical model is the sequence of the
/// models of its elements.
#[derive(Debug)]
pub enum ConsList {
    Cons(LispType, Rc<ConsList>),
    Nil,
}

impl ConsList {
    /// The sequence of values this list holds.
    pub open spec fn model(self) -> Seq<Val>
        decreases self,
    {
        match self {
            ConsList::Cons(head, tail) => seq![head.model()] + (*tail).model(),
            ConsList::Nil => seq![],
        }
    }
}

impl View for ConsList {
    type V = Seq<Val>;

    open spec fn view(&self) -> Seq<Val> {
        (*self).model()
    }
}

/// Relies on `Rc::clone`: the copy shares the same list, so it holds the
/// same value.
#[verifier::external_body]
pub(crate) fn rc_dup(list: &Rc<ConsList>) -> (r: Rc<ConsList>)
    ensures
        r == *list,
{
    Rc::clone(list)
}

impl ConsList {
    /// The head of the list, or `None` when the list is empty.
    pub fn car(&self) -> (r: Option<&LispType>)
        ensures
            match r {
                Some(v) => self@.len() > 0 && v@ == self@[0],
                None => self@.len() == 0,
            },
    {
        match self {
            ConsList::Cons(head, _) => Some(head),
            ConsList::Nil => None,
        }
    }

    /// The rendering of the whole list: its elements' renderings joined by
    /// single spaces, parenthesized.
    pub fn show(&self) -> (r: String)
        ensures
            r@ == val_text(Val::List(self@)),
        decreases *self, 1int,
    {
        proof {
            reveal_strlit("(");
            reveal_strlit(")");
            assert("("@ =~= seq!['(']);
            assert(")"@ =~= seq![')']);
        }
        let mid = self.show_();
        let r = String::from_str("(").concat(mid.as_str()).concat(")");
        proof {
            assert(r@ =~= val_text(Val::List(self@)));
        }
        r
    }

    /// The renderings of the elements, joined by single spaces, without the
    /// surrounding parentheses.
    pub fn show_(&self) -> (r: String)
        ensures
            r@ == list_text(self@, 0),
        decreases *self, 0int,
    {
        match self {
            ConsList::Cons(head, tail) => {
                let head_str: String = match head {
                    LispType::Cons(inner) => {
                        proof {
                            reveal_strlit("(");
                            reveal_strlit(")");
                            assert("("@ =~= seq!['(']);
                            assert(")"@ =~= seq![')']);
                        }
                        let mid = (&**inner).show_();
                        let r0 = String::from_str("(").concat(mid.as_str()).concat(")");
                        proof {
                            assert(r0@ =~= val_text(head@));
                        }
                        r0
                    },
                    _ => head.show(),
                };
                let tail_str = tail.show_();
                proof {
                    assert(self@.len() >= 1);
                    lemma_list_text_drop(self@, 1);
                    assert(self@.drop_first() =~= (**tail)@);
                    assert(self@[0] == head@);
                }
                if tail_str.as_str().unicode_len() == 0 {
                    head_str
                } else {
                    proof {
                        reveal_strlit(" ");
                        assert(" "@ =~= seq![' ']);
                    }
                    let r1 = head_str.concat(" ").concat(tail_str.as_str());
                    proof {
                        assert(r1@ =~= list_text(self@, 0));
                    }
                    r1
                }
            },
            ConsList::Nil => String::new(),
        }
    }

    /// The tail of the list, or `None` when the list is empty.
    pub fn cdr(&self) -> (r: Option<&ConsList>)
        ensures
            match r {
                Some(t) => self@.len() > 0 && t@ == self@.drop_first(),
                None => self@.len() == 0,
            },
    {
        match self {
            ConsList::Cons(_, tail) => {
                proof {
                    assert(self@.drop_first() =~= (**tail)@);
                }
                Some(tail)
            },
            ConsList::Nil => None,
        }
    }
}

} // verus!
