//! The compiled program tree the engine evaluates.
//!
//! A program node is immutable once produced; the external front end turns
//! filter source text into this form.  `ast_size` is the structural measure
//! the evaluator's termination arguments are built on.

use std::rc::Rc;
use vstd::prelude::*;

use crate::ops::BinaryOp;
use crate::value::Value;

verus! {

/// One node of a compiled filter program.
#[derive(Debug)]
pub enum Ast {
    /// `.` — emit the subject unchanged.
    Identity,
    /// Emit a constant value.
    Literal(Value),
    /// `$x` — emit the value bound to a variable.
    Variable(Vec<char>),
    /// `E[K]` — index each base value by each key value.
    Index { base: Box<Ast>, key: Box<Ast> },
    /// `E[L:H]` — slice each base value; an absent bound is open.
    Slice { base: Box<Ast>, lo: Option<Box<Ast>>, hi: Option<Box<Ast>> },
    /// `E[]` — emit every element of each base value.
    Iterate(Box<Ast>),
    /// `[F1, .., Fn]` — one array per combination of element values.
    ArrayCons(Vec<Ast>),
    /// `{K1: V1, ..}` — one object per combination of key/value values.
    ObjectCons(Vec<(Ast, Ast)>),
    /// `A | B` — feed each of `A`'s emissions to `B` as its subject.
    Pipe(Box<Ast>, Box<Ast>),
    /// `A , B` — all of `A`'s emissions, then all of `B`'s.
    Comma(Box<Ast>, Box<Ast>),
    /// `-E` — negate each emitted number.
    Negate(Box<Ast>),
    /// `L op R` — apply the operator over the operand streams.
    BinOp { op: BinaryOp, lhs: Box<Ast>, rhs: Box<Ast> },
    /// `if C then T else E end` — branch on each condition value.
    IfThenElse { cond: Box<Ast>, thn: Box<Ast>, els: Box<Ast> },
    /// `E as $x | B` — bind each of `E`'s emissions and evaluate `B`.
    BindVar { source: Box<Ast>, name: Vec<char>, body: Box<Ast> },
    /// `def f(..): body; rest` — define a function for `rest`; the body is
    /// shared with every environment that captures the definition.
    FunDef { name: Vec<char>, params: Vec<Vec<char>>, body: Rc<Ast>, rest: Box<Ast> },
    /// `f(..)` — call a defined function.
    FunCall { name: Vec<char>, args: Vec<Ast> },
    /// `try B catch F` — on failure, the fallback runs instead.
    TryCatch { body: Box<Ast>, fallback: Option<Box<Ast>> },
    /// `E?` — failures are swallowed, producing no emission.
    Optional(Box<Ast>),
}

/// Structural size of a node; always at least one.
pub open spec fn ast_size(a: Ast) -> nat
    decreases a,
{
    match a {
        Ast::Identity => 1,
        Ast::Literal(_) => 1,
        Ast::Variable(_) => 1,
        Ast::Index { base, key } => 2 + ast_size(*base) + ast_size(*key),
        Ast::Slice { base, lo, hi } => 5 + ast_size(*base) + opt_size(lo) + opt_size(hi),
        Ast::Iterate(e) => 2 + ast_size(*e),
        Ast::ArrayCons(items) => 2 + seq_ast_size(items@),
        Ast::ObjectCons(pairs) => 3 + pair_seq_size(pairs@),
        Ast::Pipe(a1, b) => 2 + ast_size(*a1) + ast_size(*b),
        Ast::Comma(a1, b) => 2 + ast_size(*a1) + ast_size(*b),
        Ast::Negate(e) => 2 + ast_size(*e),
        Ast::BinOp { op, lhs, rhs } => 3 + ast_size(*lhs) + ast_size(*rhs),
        Ast::IfThenElse { cond, thn, els } => 2 + ast_size(*cond) + ast_size(*thn) + ast_size(
            *els,
        ),
        Ast::BindVar { source, name, body } => 2 + ast_size(*source) + ast_size(*body),
        Ast::FunDef { name, params, body, rest } => 2 + ast_size(*body) + ast_size(*rest),
        Ast::FunCall { name, args } => 2 + seq_ast_size(args@),
        Ast::TryCatch { body, fallback } => 2 + ast_size(*body) + (match fallback {
            Some(c) => ast_size(*c),
            None => 1,
        }),
        Ast::Optional(e) => 2 + ast_size(*e),
    }
}

/// Size of an optional sub-node (an absent one counts one).
pub open spec fn opt_size(o: Option<Box<Ast>>) -> nat
    decreases o,
{
    match o {
        Some(b) => ast_size(*b),
        None => 1,
    }
}

/// Summed size of a node list.
pub open spec fn seq_ast_size(s: Seq<Ast>) -> nat
    decreases s,
{
    if s.len() == 0 {
        0
    } else {
        1 + ast_size(s[0]) + seq_ast_size(s.drop_first())
    }
}

/// Summed size of a key/value node list.
pub open spec fn pair_seq_size(s: Seq<(Ast, Ast)>) -> nat
    decreases s,
{
    if s.len() == 0 {
        0
    } else {
        1 + ast_size(s[0].0) + ast_size(s[0].1) + pair_seq_size(s.drop_first())
    }
}

/// Every node has positive size.
pub broadcast proof fn lemma_ast_size_pos(a: Ast)
    ensures
        #[trigger] ast_size(a) >= 1,
{
    match a {
        Ast::Identity => {},
        Ast::Literal(_) => {},
        Ast::Variable(_) => {},
        Ast::Index { base, key } => {},
        Ast::Slice { base, lo, hi } => {},
        Ast::Iterate(e) => {},
        Ast::ArrayCons(items) => {},
        Ast::ObjectCons(pairs) => {},
        Ast::Pipe(a1, b) => {},
        Ast::Comma(a1, b) => {},
        Ast::Negate(e) => {},
        Ast::BinOp { op, lhs, rhs } => {},
        Ast::IfThenElse { cond, thn, els } => {},
        Ast::BindVar { source, name, body } => {},
        Ast::FunDef { name, params, body, rest } => {},
        Ast::FunCall { name, args } => {},
        Ast::TryCatch { body, fallback } => {},
        Ast::Optional(e) => {},
    }
}

} // verus!
