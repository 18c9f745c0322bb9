//! The closed enumerations of built-in operator tags: binary operators,
//! binary predicates and special forms, each with its bidirectional mapping
//! between tag and textual spelling.

use vstd::prelude::*;

verus! {

/// Tags of the binary arithmetic and string operators.
#[derive(Debug, Clone, Copy, PartialEq, Eq, Structural)]
pub enum BinOp {
    ADD,
    SUB,
    MUL,
    DIV,
    MOD,
    SCONCAT,
}

/// Tags of the binary comparison predicates.
#[derive(Debug, Clone, Copy, PartialEq, Eq, Structural)]
pub enum BinPred {
    GT,
    GTE,
    LT,
    LTE,
    EQ,
    NOEQ,
}

/// Tags of the special forms. Several are recognised by the parser but have
/// no evaluation rule yet; the evaluator rejects those.
#[derive(Debug, Clone, Copy, PartialEq, Eq, Structural)]
pub enum SpecForms {
    DEF,
    SET,
    GET,
    QUOTE,
    TYPEOF,
    CONS,
    CAR,
    CDR,
    COND,
    PRINT,
    READ,
    EVAL,
    EVALIN,
    LAMBDA,
    MACRO,
    MACROEXPAND,
    DO,
}

/// Character-for-character equality of two string slices.
pub fn str_eq(a: &str, b: &str) -> (r: bool)
    ensures
        r == (a@ == b@),
{
    let alen: usize = a.unicode_len();
    let blen: usize = b.unicode_len();
    if alen != blen {
        proof {
            assert(a@ != b@) by {
                assert(a@.len() != b@.len());
            }
        }
        return false;
    }
    let mut i: usize = 0;
    while i < alen
        invariant
            alen == a@.len(),
            alen == b@.len(),
            i <= alen,
            forall|j: int| 0 <= j < i ==> a@[j] == b@[j],
        decreases alen - i,
    {
        if a.get_char(i) != b.get_char(i) {
            return false;
        }
        i = i + 1;
    }
    proof {
        assert(a@ =~= b@);
    }
    true
}

/// The spelling of each binary operator tag.
pub open spec fn binop_text(op: BinOp) -> Seq<char> {
    match op {
        BinOp::ADD => "+"@,
        BinOp::SUB => "-"@,
        BinOp::MUL => "*"@,
        BinOp::DIV => "/"@,
        BinOp::MOD => "%"@,
        BinOp::SCONCAT => "++"@,
    }
}

/// The binary operator tag spelled by a string, if any.
pub open spec fn binop_of_text(s: Seq<char>) -> Option<BinOp> {
    if s == "+"@ {
        Some(BinOp::ADD)
    } else if s == "-"@ {
        Some(BinOp::SUB)
    } else if s == "*"@ {
        Some(BinOp::MUL)
    } else if s == "/"@ {
        Some(BinOp::DIV)
    } else if s == "%"@ {
        Some(BinOp::MOD)
    } else if s == "++"@ {
        Some(BinOp::SCONCAT)
    } else {
        None
    }
}

/// The spelling of each binary predicate tag.
pub open spec fn binpred_text(p: BinPred) -> Seq<char> {
    match p {
        BinPred::GT => ">"@,
        BinPred::GTE => ">="@,
        BinPred::LT => "<"@,
        BinPred::LTE => "<="@,
        BinPred::EQ => "=="@,
        BinPred::NOEQ => "!="@,
    }
}

/// The binary predicate tag spelled by a string, if any.
pub open spec fn binpred_of_text(s: Seq<char>) -> Option<BinPred> {
    if s == ">"@ {
        Some(BinPred::GT)
    } else if s == ">="@ {
        Some(BinPred::GTE)
    } else if s == "<"@ {
        Some(BinPred::LT)
    } else if s == "<="@ {
        Some(BinPred::LTE)
    } else if s == "=="@ {
        Some(BinPred::EQ)
    } else if s == "!="@ {
        Some(BinPred::NOEQ)
    } else {
        None
    }
}

/// The spelling of each special-form tag.
pub open spec fn specform_text(f: SpecForms) -> Seq<char> {
    match f {
        SpecForms::DEF => "def"@,
        SpecForms::SET => "set!"@,
        SpecForms::GET => "get"@,
        SpecForms::QUOTE => "quote"@,
        SpecForms::TYPEOF => "typeof"@,
        SpecForms::CONS => "cons"@,
        SpecForms::CAR => "car"@,
        SpecForms::CDR => "cdr"@,
        SpecForms::COND => "cond"@,
        SpecForms::PRINT => "print"@,
        SpecForms::READ => "read"@,
        SpecForms::EVAL => "eval"@,
        SpecForms::EVALIN => "eval-in"@,
        SpecForms::LAMBDA => "lambda"@,
        SpecForms::MACRO => "macro"@,
        SpecForms::MACROEXPAND => "macroexpand"@,
        SpecForms::DO => "do"@,
    }
}

/// The special-form tag spelled by a string, if any.
pub open spec fn specform_of_text(s: Seq<char>) -> Option<SpecForms> {
    if s == "def"@ {
        Some(SpecForms::DEF)
    } else if s == "set!"@ {
        Some(SpecForms::SET)
    } else if s == "get"@ {
        Some(SpecForms::GET)
    } else if s == "quote"@ {
        Some(SpecForms::QUOTE)
    } else if s == "typeof"@ {
        Some(SpecForms::TYPEOF)
    } else if s == "cons"@ {
        Some(SpecForms::CONS)
    } else if s == "car"@ {
        Some(SpecForms::CAR)
    } else if s == "cdr"@ {
        Some(SpecForms::CDR)
    } else if s == "cond"@ {
        Some(SpecForms::COND)
    } else if s == "print"@ {
        Some(SpecForms::PRINT)
    } else if s == "read"@ {
        Some(SpecForms::READ)
    } else if s == "eval"@ {
        Some(SpecForms::EVAL)
    } else if s == "eval-in"@ {
        Some(SpecForms::EVALIN)
    } else if s == "lambda"@ {
        Some(SpecForms::LAMBDA)
    } else if s == "macro"@ {
        Some(SpecForms::MACRO)
    } else if s == "macroexpand"@ {
        Some(SpecForms::MACROEXPAND)
    } else if s == "do"@ {
        Some(SpecForms::DO)
    } else {
        None
    }
}

impl BinOp {
    /// Resolves a spelling to its binary operator tag.
    pub fn from_str(s: &str) -> (r: Option<Self>)
        ensures
            r == binop_of_text(s@),
    {
        if str_eq(s, "+") {
            Some(Self::ADD)
        } else if str_eq(s, "-") {
            Some(Self::SUB)
        } else if str_eq(s, "*") {
            Some(Self::MUL)
        } else if str_eq(s, "/") {
            Some(Self::DIV)
        } else if str_eq(s, "%") {
            Some(Self::MOD)
        } else if str_eq(s, "++") {
            Some(Self::SCONCAT)
        } else {
            None
        }
    }

    /// The spelling of this tag.
    pub fn to_string(&self) -> (r: &'static str)
        ensures
            r@ == binop_text(*self),
    {
        match self {
            Self::ADD => "+",
            Self::SUB => "-",
            Self::MUL => "*",
            Self::DIV => "/",
            Self::MOD => "%",
            Self::SCONCAT => "++",
        }
    }
}

impl BinPred {
    /// Resolves a spelling to its binary predicate tag.
    pub fn from_str(s: &str) -> (r: Option<Self>)
        ensures
            r == binpred_of_text(s@),
    {
        if str_eq(s, ">") {
            Some(Self::GT)
        } else if str_eq(s, ">=") {
            Some(Self::GTE)
        } else if str_eq(s, "<") {
            Some(Self::LT)
        } else if str_eq(s, "<=") {
            Some(Self::LTE)
        } else if str_eq(s, "==") {
            Some(Self::EQ)
        } else if str_eq(s, "!=") {
            Some(Self::NOEQ)
        } else {
            None
        }
    }

    /// The spelling of this tag.
    pub fn to_string(&self) -> (r: &'static str)
        ensures
            r@ == binpred_text(*self),
    {
        match self {
            Self::GT => ">",
            Self::GTE => ">=",
            Self::LT => "<",
            Self::LTE => "<=",
            Self::EQ => "==",
            Self::NOEQ => "!=",
        }
    }
}

impl SpecForms {
    /// Resolves a spelling to its special-form tag.
    pub fn from_str(s: &str) -> (r: Option<Self>)
        ensures
            r == specform_of_text(s@),
    {
        if str_eq(s, "def") {
            Some(Self::DEF)
        } else if str_eq(s, "set!") {
            Some(Self::SET)
        } else if str_eq(s, "get") {
            Some(Self::GET)
        } else if str_eq(s, "quote") {
            Some(Self::QUOTE)
        } else if str_eq(s, "typeof") {
            Some(Self::TYPEOF)
        } else if str_eq(s, "cons") {
            Some(Self::CONS)
        } else if str_eq(s, "car") {
            Some(Self::CAR)
        } else if str_eq(s, "cdr") {
            Some(Self::CDR)
        } else if str_eq(s, "cond") {
            Some(Self::COND)
        } else if str_eq(s, "print") {
            Some(Self::PRINT)
        } else if str_eq(s, "read") {
            Some(Self::READ)
        } else if str_eq(s, "eval") {
            Some(Self::EVAL)
        } else if str_eq(s, "eval-in") {
            Some(Self::EVALIN)
        } else if str_eq(s, "lambda") {
            Some(Self::LAMBDA)
        } else if str_eq(s, "macro") {
            Some(Self::MACRO)
        } else if str_eq(s, "macroexpand") {
            Some(Self::MACROEXPAND)
        } else if str_eq(s, "do") {
            Some(Self::DO)
        } else {
            None
        }
    }

    /// The spelling of this tag.
    pub fn to_string(&self) -> (r: &'static str)
        ensures
            r@ == specform_text(*self),
    {
        match self {
            Self::DEF => "def",
            Self::SET => "set!",
            Self::GET => "get",
            Self::QUOTE => "quote",
            Self::TYPEOF => "typeof",
            Self::CONS => "cons",
            Self::CAR => "car",
            Self::CDR => "cdr",
            Self::COND => "cond",
            Self::PRINT => "print",
            Self::READ => "read",
            Self::EVAL => "eval",
            Self::EVALIN => "eval-in",
            Self::LAMBDA => "lambda",
            Self::MACRO => "macro",
            Self::MACROEXPAND => "macroexpand",
            Self::DO => "do",
        }
    }
}

} // verus!
