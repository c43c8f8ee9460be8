//! The mathematical semantics of program evaluation.
//!
//! `eval` maps a fuel bound, a program node and an environment to an `Out`:
//! the sequence of emitted values together with how the evaluation ended
//! (completed, failed with an error after those emissions, or ran out of
//! call fuel).  Emissions made before a failure stay delivered; try/catch
//! and the optional marker recover from failures but not from fuel
//! exhaustion.
//!
//! Operand and construction nodes evaluate their sub-filter streams fully
//! first (a failing sub-filter fails the node with no emissions), then
//! enumerate the Cartesian product of the streams with the rightmost
//! sub-filter varying slowest — equivalently, for each value of the right
//! operand, for each value of the left, the operation is applied — emitting
//! one result per combination until an application fails.
//!
//! Function calls consume one unit of fuel; everything else is bounded by
//! the program's structure, so evaluation with enough fuel is exact.

use vstd::prelude::*;

use crate::ast::{ast_size, opt_size, pair_seq_size, seq_ast_size, Ast};
use crate::env::{lookup_fun, lookup_var, subject_of, FrameV};
use crate::error::ErrV;
use crate::ops::{binop_vv, construct_object_vv, index_vv, iterate_vv, neg_vv, slice_vv, BinaryOp};
use crate::value::{truthy_vv, ValueV};

verus! {

/// The outcome of evaluating one node: what it emitted, and how it ended.
#[verifier::ext_equal]
pub enum Out {
    /// All outputs were produced.
    Done(Seq<ValueV>),
    /// These outputs were produced, then evaluation failed.
    Fail(Seq<ValueV>, ErrV),
    /// These outputs were produced, then the call-fuel bound was reached.
    Exhausted(Seq<ValueV>),
}

/// The values an outcome emitted.
pub open spec fn emitted(o: Out) -> Seq<ValueV> {
    match o {
        Out::Done(vs) => vs,
        Out::Fail(vs, _) => vs,
        Out::Exhausted(vs) => vs,
    }
}

/// Prefix an outcome with earlier emissions.
pub open spec fn prepend(vs: Seq<ValueV>, o: Out) -> Out {
    match o {
        Out::Done(ws) => Out::Done(vs + ws),
        Out::Fail(ws, e) => Out::Fail(vs + ws, e),
        Out::Exhausted(ws) => Out::Exhausted(vs + ws),
    }
}

/// Seal a sequencing node's outcome: the inner evaluation ran over the
/// source's emissions; if the source itself did not complete, its ending
/// wins once the inner evaluation completes.
pub open spec fn cap(src: Out, inner: Out) -> Out {
    match src {
        Out::Done(_) => inner,
        Out::Fail(_, e) => match inner {
            Out::Done(ws) => Out::Fail(ws, e),
            _ => inner,
        },
        Out::Exhausted(_) => match inner {
            Out::Done(ws) => Out::Exhausted(ws),
            _ => inner,
        },
    }
}

/// An operand stream that did not complete fails its node with no
/// emissions (the emissions were inputs, not outputs, of the node).
pub open spec fn strm_fail(o: Out) -> Out {
    match o {
        Out::Done(_) => Out::Done(Seq::empty()),
        Out::Fail(_, e) => Out::Fail(Seq::empty(), e),
        Out::Exhausted(_) => Out::Exhausted(Seq::empty()),
    }
}

/// One combination with each value of `s0` in front of `tail`.
pub open spec fn cart_row(s0: Seq<ValueV>, tail: Seq<ValueV>) -> Seq<Seq<ValueV>>
    decreases s0.len(),
{
    if s0.len() == 0 {
        Seq::empty()
    } else {
        seq![seq![s0[0]] + tail] + cart_row(s0.drop_first(), tail)
    }
}

/// Rows of combinations, one per tail, each varying `s0` fastest.
pub open spec fn cart_rows(s0: Seq<ValueV>, tails: Seq<Seq<ValueV>>) -> Seq<Seq<ValueV>>
    decreases tails.len(),
{
    if tails.len() == 0 {
        Seq::empty()
    } else {
        cart_row(s0, tails[0]) + cart_rows(s0, tails.drop_first())
    }
}

/// Cartesian product of the streams: one combination picks one value from
/// each stream; the first stream varies fastest (the rightmost slowest).
pub open spec fn cart(streams: Seq<Seq<ValueV>>) -> Seq<Seq<ValueV>>
    decreases streams.len(),
{
    if streams.len() == 0 {
        seq![Seq::empty()]
    } else {
        cart_rows(streams[0], cart(streams.drop_first()))
    }
}

/// The operation a product node applies per combination.
pub enum AppKind {
    /// A binary operator over `[lhs, rhs]`.
    Arith(BinaryOp),
    /// Indexing over `[base, key]`.
    Indexing,
    /// Slicing over `[base, lo, hi]`.
    Slicing,
    /// An array from the whole combination.
    BuildArray,
    /// An object from consecutive key/value pairs of the combination.
    BuildObject,
}

/// Consecutive pairs of a combination.
pub open spec fn combo_pairs(c: Seq<ValueV>) -> Seq<(ValueV, ValueV)>
    decreases c.len(),
{
    if c.len() < 2 {
        Seq::empty()
    } else {
        seq![(c[0], c[1])] + combo_pairs(c.skip(2))
    }
}

/// Apply a product node's operation to one combination.
pub open spec fn apply_app(app: AppKind, combo: Seq<ValueV>) -> Result<ValueV, ErrV> {
    match app {
        AppKind::Arith(op) => binop_vv(op, combo[0], combo[1]),
        AppKind::Indexing => index_vv(combo[0], combo[1]),
        AppKind::Slicing => slice_vv(combo[0], combo[1], combo[2]),
        AppKind::BuildArray => Ok(ValueV::Array(combo)),
        AppKind::BuildObject => construct_object_vv(combo_pairs(combo)),
    }
}

/// Emit one result per combination, in order, until an application fails.
pub open spec fn apply_combos(app: AppKind, combos: Seq<Seq<ValueV>>) -> Out
    decreases combos.len(),
{
    if combos.len() == 0 {
        Out::Done(Seq::empty())
    } else {
        match apply_app(app, combos[0]) {
            Ok(v) => prepend(seq![v], apply_combos(app, combos.drop_first())),
            Err(e) => Out::Fail(Seq::empty(), e),
        }
    }
}

/// Iterate each source value in turn, concatenating the elements, until a
/// non-iterable value fails the stream.
pub open spec fn iter_vals(vals: Seq<ValueV>) -> Out
    decreases vals.len(),
{
    if vals.len() == 0 {
        Out::Done(Seq::empty())
    } else {
        match iterate_vv(vals[0]) {
            Ok(ws) => prepend(ws, iter_vals(vals.drop_first())),
            Err(e) => Out::Fail(Seq::empty(), e),
        }
    }
}

/// Negate each source value in turn until a non-number fails the stream.
pub open spec fn neg_vals(vals: Seq<ValueV>) -> Out
    decreases vals.len(),
{
    if vals.len() == 0 {
        Out::Done(Seq::empty())
    } else {
        match neg_vv(vals[0]) {
            Ok(w) => prepend(seq![w], neg_vals(vals.drop_first())),
            Err(e) => Out::Fail(Seq::empty(), e),
        }
    }
}

/// Bind formals to one combination's values, left to right.
pub open spec fn push_params(
    env: Seq<FrameV>,
    params: Seq<Seq<char>>,
    vals: Seq<ValueV>,
) -> Seq<FrameV>
    decreases params.len(),
{
    if params.len() == 0 {
        env
    } else {
        push_params(
            env.push(FrameV::Var(params[0], vals[0])),
            params.drop_first(),
            vals.drop_first(),
        )
    }
}

/// The result of evaluating a list of sub-filter streams.
pub enum StreamsOut {
    /// Every stream completed.
    Streams(Seq<Seq<ValueV>>),
    /// The first (leftmost) failing stream's error.
    Failed(ErrV),
    /// A stream hit the call-fuel bound.
    Exhausted,
}

/// Evaluate a program node.  See the module description for the emission
/// and failure discipline of each construct.
pub open spec fn eval(fuel: nat, ast: Ast, env: Seq<FrameV>) -> Out
    decreases fuel, ast_size(ast), 0nat,
{
    match ast {
        Ast::Identity => Out::Done(seq![subject_of(env)]),
        Ast::Literal(v) => Out::Done(seq![v@]),
        Ast::Variable(n) => match lookup_var(env, n@) {
            Some(v) => Out::Done(seq![v]),
            None => Out::Fail(Seq::empty(), ErrV::UndefinedVariable(n@)),
        },
        Ast::Pipe(a, b) => {
            let src = eval(fuel, *a, env);
            cap(src, eval_pipe(fuel, *b, emitted(src), env))
        },
        Ast::Comma(a, b) => {
            let first = eval(fuel, *a, env);
            match first {
                Out::Done(vs) => prepend(vs, eval(fuel, *b, env)),
                _ => first,
            }
        },
        Ast::Iterate(e) => {
            let src = eval(fuel, *e, env);
            cap(src, iter_vals(emitted(src)))
        },
        Ast::Negate(e) => {
            let src = eval(fuel, *e, env);
            cap(src, neg_vals(emitted(src)))
        },
        Ast::BinOp { op, lhs, rhs } => eval_product2(fuel, AppKind::Arith(op), *lhs, *rhs, env),
        Ast::Index { base, key } => eval_product2(fuel, AppKind::Indexing, *base, *key, env),
        Ast::Slice { base, lo, hi } => {
            let bo = eval(fuel, *base, env);
            match bo {
                Out::Done(bvs) => {
                    let lo_o = eval_opt(fuel, lo, env);
                    match lo_o {
                        Out::Done(lvs) => {
                            let hi_o = eval_opt(fuel, hi, env);
                            match hi_o {
                                Out::Done(hvs) => apply_combos(
                                    AppKind::Slicing,
                                    cart(seq![bvs, lvs, hvs]),
                                ),
                                _ => strm_fail(hi_o),
                            }
                        },
                        _ => strm_fail(lo_o),
                    }
                },
                _ => strm_fail(bo),
            }
        },
        Ast::ArrayCons(items) => match eval_items(fuel, items@, env) {
            StreamsOut::Streams(ss) => apply_combos(AppKind::BuildArray, cart(ss)),
            StreamsOut::Failed(e) => Out::Fail(Seq::empty(), e),
            StreamsOut::Exhausted => Out::Exhausted(Seq::empty()),
        },
        Ast::ObjectCons(pairs) => match eval_pairs(fuel, pairs@, env) {
            StreamsOut::Streams(ss) => apply_combos(AppKind::BuildObject, cart(ss)),
            StreamsOut::Failed(e) => Out::Fail(Seq::empty(), e),
            StreamsOut::Exhausted => Out::Exhausted(Seq::empty()),
        },
        Ast::IfThenElse { cond, thn, els } => {
            let c = eval(fuel, *cond, env);
            cap(c, eval_if(fuel, *thn, *els, emitted(c), env))
        },
        Ast::BindVar { source, name, body } => {
            let src = eval(fuel, *source, env);
            cap(src, eval_bind(fuel, name@, *body, emitted(src), env))
        },
        Ast::FunDef { name, params, body, rest } => eval(
            fuel,
            *rest,
            env.push(FrameV::Fun(name@, crate::env::params_view(params@), *body)),
        ),
        Ast::FunCall { name, args } => match lookup_fun(env, name@, args@.len()) {
            None => Out::Fail(Seq::empty(), ErrV::UndefinedFunction(name@, args@.len())),
            Some(f) => {
                if fuel == 0 {
                    Out::Exhausted(Seq::empty())
                } else {
                    match eval_items(fuel, args@, env) {
                        StreamsOut::Streams(ss) => eval_call(
                            (fuel - 1) as nat,
                            f.1,
                            f.2,
                            f.0,
                            subject_of(env),
                            cart(ss),
                        ),
                        StreamsOut::Failed(e) => Out::Fail(Seq::empty(), e),
                        StreamsOut::Exhausted => Out::Exhausted(Seq::empty()),
                    }
                }
            },
        },
        Ast::TryCatch { body, fallback } => {
            let b = eval(fuel, *body, env);
            match b {
                Out::Fail(vs, _) => match fallback {
                    Some(c) => prepend(vs, eval(fuel, *c, env)),
                    None => Out::Done(vs),
                },
                _ => b,
            }
        },
        Ast::Optional(e) => {
            let b = eval(fuel, *e, env);
            match b {
                Out::Fail(vs, _) => Out::Done(vs),
                _ => b,
            }
        },
    }
}

/// Evaluate an optional sub-filter: an absent one emits a single null (an
/// open slice bound).
pub open spec fn eval_opt(fuel: nat, o: Option<Box<Ast>>, env: Seq<FrameV>) -> Out
    decreases fuel, opt_size(o) + 1, 0nat,
{
    match o {
        None => Out::Done(seq![ValueV::Null]),
        Some(f) => eval(fuel, *f, env),
    }
}

/// Feed each source value to `b` as its subject, concatenating emissions.
pub open spec fn eval_pipe(fuel: nat, b: Ast, vals: Seq<ValueV>, env: Seq<FrameV>) -> Out
    decreases fuel, ast_size(b) + 1, vals.len(),
{
    if vals.len() == 0 {
        Out::Done(Seq::empty())
    } else {
        let first = eval(fuel, b, env.push(FrameV::Subj(vals[0])));
        match first {
            Out::Done(ws) => prepend(ws, eval_pipe(fuel, b, vals.drop_first(), env)),
            _ => first,
        }
    }
}

/// Bind each source value to `name` and evaluate `body`, concatenating.
pub open spec fn eval_bind(
    fuel: nat,
    name: Seq<char>,
    body: Ast,
    vals: Seq<ValueV>,
    env: Seq<FrameV>,
) -> Out
    decreases fuel, ast_size(body) + 1, vals.len(),
{
    if vals.len() == 0 {
        Out::Done(Seq::empty())
    } else {
        let first = eval(fuel, body, env.push(FrameV::Var(name, vals[0])));
        match first {
            Out::Done(ws) => prepend(ws, eval_bind(fuel, name, body, vals.drop_first(), env)),
            _ => first,
        }
    }
}

/// For each condition value, evaluate the then branch when it is truthy and
/// the else branch otherwise, against the unmodified subject.
pub open spec fn eval_if(
    fuel: nat,
    thn: Ast,
    els: Ast,
    vals: Seq<ValueV>,
    env: Seq<FrameV>,
) -> Out
    decreases fuel, ast_size(thn) + ast_size(els) + 1, vals.len(),
{
    if vals.len() == 0 {
        Out::Done(Seq::empty())
    } else {
        let first = if truthy_vv(vals[0]) {
            eval(fuel, thn, env)
        } else {
            eval(fuel, els, env)
        };
        match first {
            Out::Done(ws) => prepend(ws, eval_if(fuel, thn, els, vals.drop_first(), env)),
            _ => first,
        }
    }
}

/// Evaluate two operand streams and apply the operation over their product.
pub open spec fn eval_product2(
    fuel: nat,
    app: AppKind,
    l: Ast,
    r: Ast,
    env: Seq<FrameV>,
) -> Out
    decreases fuel, ast_size(l) + ast_size(r) + 1, 0nat,
{
    let lo = eval(fuel, l, env);
    match lo {
        Out::Done(lvs) => {
            let ro = eval(fuel, r, env);
            match ro {
                Out::Done(rvs) => apply_combos(app, cart(seq![lvs, rvs])),
                _ => strm_fail(ro),
            }
        },
        _ => strm_fail(lo),
    }
}

/// Evaluate each element filter to a stream, left to right.
pub open spec fn eval_items(fuel: nat, items: Seq<Ast>, env: Seq<FrameV>) -> StreamsOut
    decreases fuel, seq_ast_size(items) + 1, 0nat,
{
    if items.len() == 0 {
        StreamsOut::Streams(Seq::empty())
    } else {
        let first = eval(fuel, items[0], env);
        match first {
            Out::Done(vs) => match eval_items(fuel, items.drop_first(), env) {
                StreamsOut::Streams(ss) => StreamsOut::Streams(seq![vs] + ss),
                other => other,
            },
            Out::Fail(_, e) => StreamsOut::Failed(e),
            Out::Exhausted(_) => StreamsOut::Exhausted,
        }
    }
}

/// Evaluate each field's key and value filters to streams, in field order.
pub open spec fn eval_pairs(fuel: nat, pairs: Seq<(Ast, Ast)>, env: Seq<FrameV>) -> StreamsOut
    decreases fuel, pair_seq_size(pairs) + 2, 0nat,
{
    if pairs.len() == 0 {
        StreamsOut::Streams(Seq::empty())
    } else {
        let ko = eval(fuel, pairs[0].0, env);
        match ko {
            Out::Done(ks) => {
                let vo = eval(fuel, pairs[0].1, env);
                match vo {
                    Out::Done(vs) => match eval_pairs(fuel, pairs.drop_first(), env) {
                        StreamsOut::Streams(ss) => StreamsOut::Streams(seq![ks, vs] + ss),
                        other => other,
                    },
                    Out::Fail(_, e) => StreamsOut::Failed(e),
                    Out::Exhausted(_) => StreamsOut::Exhausted,
                }
            },
            Out::Fail(_, e) => StreamsOut::Failed(e),
            Out::Exhausted(_) => StreamsOut::Exhausted,
        }
    }
}

/// Call a function once per argument combination: the body runs in the
/// closure's chain, with the caller's subject and the formals bound.
pub open spec fn eval_call(
    fuel: nat,
    params: Seq<Seq<char>>,
    body: Ast,
    fenv: Seq<FrameV>,
    subj: ValueV,
    combos: Seq<Seq<ValueV>>,
) -> Out
    decreases fuel, ast_size(body) + 1, combos.len(),
{
    if combos.len() == 0 {
        Out::Done(Seq::empty())
    } else {
        let call_env = push_params(fenv.push(FrameV::Subj(subj)), params, combos[0]);
        let first = eval(fuel, body, call_env);
        match first {
            Out::Done(ws) => prepend(
                ws,
                eval_call(fuel, params, body, fenv, subj, combos.drop_first()),
            ),
            _ => first,
        }
    }
}

} // verus!
