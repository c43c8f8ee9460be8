//! The execution engine: a recursive-descent evaluator over the program
//! tree, exact with respect to the mathematical semantics in `sem`.
//!
//! `evaluate` returns the values the node emitted, in order, together with
//! how the evaluation ended.  Values emitted before a failure are kept: a
//! failing subtree's outputs stay delivered, exactly as the semantics says.
//! The fuel parameter bounds nesting of function calls only; a program
//! whose calls fit in the bound is evaluated exactly.

use std::rc::Rc;
use vstd::prelude::*;

use crate::ast::{ast_size, lemma_ast_size_pos, opt_size, pair_seq_size, seq_ast_size, Ast};
use crate::env::{lookup_function, params_view, rc_dup, Env, FrameV};
use crate::error::QueryExecutionError;
use crate::ops;
use crate::sem;
use crate::sem::{AppKind, Out, StreamsOut};
use crate::value::{chars_dup, lemma_vals_view, vals_dup, vals_view, Value, ValueV};

verus! {

broadcast use
    vstd::std_specs::vec::group_vec_axioms,
    vstd::seq::group_seq_axioms,
    lemma_vals_view,
    lemma_ast_size_pos,
;

/// How an evaluation ended.
#[derive(Debug, PartialEq, Eq)]
pub enum Status {
    /// All outputs were produced.
    Finished,
    /// Evaluation failed with this error after the outputs produced so far.
    Failed(QueryExecutionError),
    /// The call-fuel bound was reached.
    Exhausted,
}

/// Whether a status reports the ending of an outcome.
pub open spec fn status_matches(st: Status, o: Out) -> bool {
    match st {
        Status::Finished => o is Done,
        Status::Failed(e) => o matches Out::Fail(_, ev) && e@ == ev,
        Status::Exhausted => o is Exhausted,
    }
}

/// The evaluator's contract: the emitted values and the status together
/// are exactly the outcome of the mathematical semantics.
pub open spec fn eval_post(vs: Seq<Value>, st: Status, o: Out) -> bool {
    vals_view(vs) == sem::emitted(o) && status_matches(st, o)
}

/// View of a list of value streams.
pub open spec fn streams_view(s: Seq<Vec<Value>>) -> Seq<Seq<ValueV>>
    decreases s,
{
    if s.len() == 0 {
        Seq::empty()
    } else {
        seq![vals_view(s[0]@)] + streams_view(s.drop_first())
    }
}

/// A list of streams is viewed pointwise.
pub broadcast proof fn lemma_streams_view(s: Seq<Vec<Value>>)
    ensures
        (#[trigger] streams_view(s)).len() == s.len(),
        forall|i: int| 0 <= i < s.len() ==> streams_view(s)[i] == vals_view(s[i]@),
    decreases s,
{
    if s.len() > 0 {
        lemma_streams_view(s.drop_first());
        assert(streams_view(s) == seq![vals_view(s[0]@)] + streams_view(s.drop_first()));
        assert forall|i: int| 0 <= i < s.len() implies streams_view(s)[i] == vals_view(
            s[i]@,
        ) by {
            if i > 0 {
                assert(streams_view(s)[i] == streams_view(s.drop_first())[i - 1]);
                assert(s.drop_first()[i - 1] == s[i]);
            }
        }
    }
}

/// Append a batch of emissions to an accumulator.
fn append_vals(acc: &mut Vec<Value>, tail: Vec<Value>)
    ensures
        vals_view(final(acc)@) == vals_view(old(acc)@) + vals_view(tail@),
{
    let mut t = tail;
    let ghost av = acc@;
    let ghost tv = t@;
    acc.append(&mut t);
    proof {
        assert(vals_view(acc@) =~= vals_view(av) + vals_view(tv));
    }
}

/// Every combination drawn from `streams` picks one value per stream.
proof fn lemma_cart_row_len(s0: Seq<ValueV>, tail: Seq<ValueV>)
    ensures
        forall|j: int|
            0 <= j < sem::cart_row(s0, tail).len() ==> (#[trigger] sem::cart_row(s0, tail)[j]).len()
                == tail.len() + 1,
    decreases s0.len(),
{
    if s0.len() > 0 {
        lemma_cart_row_len(s0.drop_first(), tail);
        assert(sem::cart_row(s0, tail) == seq![seq![s0[0]] + tail] + sem::cart_row(
            s0.drop_first(),
            tail,
        ));
    }
}

proof fn lemma_cart_rows_len(s0: Seq<ValueV>, tails: Seq<Seq<ValueV>>, n: nat)
    requires
        forall|j: int| 0 <= j < tails.len() ==> (#[trigger] tails[j]).len() == n,
    ensures
        forall|j: int|
            0 <= j < sem::cart_rows(s0, tails).len() ==> (#[trigger] sem::cart_rows(s0, tails)[j]).len()
                == n + 1,
    decreases tails.len(),
{
    if tails.len() > 0 {
        lemma_cart_rows_len(s0, tails.drop_first(), n);
        lemma_cart_row_len(s0, tails[0]);
        assert(sem::cart_rows(s0, tails) == sem::cart_row(s0, tails[0]) + sem::cart_rows(
            s0,
            tails.drop_first(),
        ));
    }
}

/// Each combination of the Cartesian product has one value per stream.
pub proof fn lemma_cart_combo_len(streams: Seq<Seq<ValueV>>)
    ensures
        forall|j: int|
            0 <= j < sem::cart(streams).len() ==> (#[trigger] sem::cart(streams)[j]).len()
                == streams.len(),
    decreases streams.len(),
{
    if streams.len() == 0 {
        assert(sem::cart(streams) == seq![Seq::<ValueV>::empty()]);
    } else {
        lemma_cart_combo_len(streams.drop_first());
        lemma_cart_rows_len(streams[0], sem::cart(streams.drop_first()), (streams.len()
            - 1) as nat);
        assert(sem::cart(streams) == sem::cart_rows(streams[0], sem::cart(streams.drop_first())));
    }
}

/// One row of combinations: each value of `s0` (from position `i`) in front
/// of `tail`.
fn cart_row_exec(s0: &Vec<Value>, tail: &Vec<Value>, i: usize) -> (r: Vec<Vec<Value>>)
    requires
        i <= s0.len(),
    ensures
        streams_view(r@) == sem::cart_row(vals_view(s0@).skip(i as int), vals_view(tail@)),
    decreases s0.len() - i,
{
    broadcast use lemma_streams_view;

    let ghost sv = vals_view(s0@);
    if i == s0.len() {
        proof {
            assert(sv.skip(i as int) =~= Seq::<ValueV>::empty());
        }
        let r: Vec<Vec<Value>> = Vec::new();
        proof {
            assert(streams_view(r@) =~= sem::cart_row(sv.skip(i as int), vals_view(tail@)));
        }
        r
    } else {
        proof {
            assert(sv.skip(i as int)[0] == sv[i as int]);
            assert(sv.skip(i as int).drop_first() =~= sv.skip(i as int + 1));
        }
        let mut combo: Vec<Value> = Vec::new();
        combo.push(s0[i].duplicate());
        append_vals(&mut combo, vals_dup(tail));
        proof {
            assert(vals_view(combo@) =~= seq![sv[i as int]] + vals_view(tail@));
        }
        let mut rest = cart_row_exec(s0, tail, i + 1);
        rest.insert(0, combo);
        proof {
            assert(streams_view(rest@) =~= seq![seq![sv[i as int]] + vals_view(tail@)]
                + sem::cart_row(sv.skip(i as int + 1), vals_view(tail@)));
        }
        rest
    }
}

/// All rows: one per tail (from position `i`), each varying `s0` fastest.
fn cart_rows_exec(s0: &Vec<Value>, tails: &Vec<Vec<Value>>, i: usize) -> (r: Vec<Vec<Value>>)
    requires
        i <= tails.len(),
    ensures
        streams_view(r@) == sem::cart_rows(vals_view(s0@), streams_view(tails@).skip(i as int)),
    decreases tails.len() - i,
{
    broadcast use lemma_streams_view;

    let ghost tv = streams_view(tails@);
    if i == tails.len() {
        proof {
            assert(tv.skip(i as int) =~= Seq::<Seq<ValueV>>::empty());
        }
        let r: Vec<Vec<Value>> = Vec::new();
        proof {
            assert(streams_view(r@) =~= sem::cart_rows(vals_view(s0@), tv.skip(i as int)));
        }
        r
    } else {
        proof {
            assert(tv.skip(i as int)[0] == tv[i as int]);
            assert(tv.skip(i as int).drop_first() =~= tv.skip(i as int + 1));
        }
        let mut row = cart_row_exec(s0, &tails[i], 0);
        proof {
            assert(vals_view(s0@).skip(0) =~= vals_view(s0@));
            assert(tv[i as int] == vals_view(tails@[i as int]@));
        }
        let ghost rv = streams_view(row@);
        let mut rest = cart_rows_exec(s0, tails, i + 1);
        let ghost restv = streams_view(rest@);
        row.append(&mut rest);
        proof {
            assert(streams_view(row@) =~= rv + restv);
        }
        row
    }
}

/// The Cartesian product of the streams from position `i` on.
fn cart_exec(streams: &Vec<Vec<Value>>, i: usize) -> (r: Vec<Vec<Value>>)
    requires
        i <= streams.len(),
    ensures
        streams_view(r@) == sem::cart(streams_view(streams@).skip(i as int)),
    decreases streams.len() - i,
{
    broadcast use lemma_streams_view;

    let ghost sv = streams_view(streams@);
    if i == streams.len() {
        proof {
            assert(sv.skip(i as int) =~= Seq::<Seq<ValueV>>::empty());
        }
        let mut r: Vec<Vec<Value>> = Vec::new();
        r.push(Vec::new());
        proof {
            assert(streams_view(r@) =~= seq![Seq::<ValueV>::empty()]);
        }
        r
    } else {
        proof {
            assert(sv.skip(i as int)[0] == sv[i as int]);
            assert(sv.skip(i as int).drop_first() =~= sv.skip(i as int + 1));
        }
        let tails = cart_exec(streams, i + 1);
        let r = cart_rows_exec(&streams[i], &tails, 0);
        proof {
            assert(streams_view(tails@).skip(0) =~= streams_view(tails@));
        }
        r
    }
}

/// Consecutive key/value pairs of a combination, from position `i`.
fn combo_pairs_exec(combo: &Vec<Value>, i: usize) -> (r: Vec<(Value, Value)>)
    requires
        i <= combo.len(),
    ensures
        ops::pairs_view(r@) == sem::combo_pairs(vals_view(combo@).skip(i as int)),
    decreases combo.len() - i,
{
    broadcast use ops::lemma_pairs_view;

    let ghost cv = vals_view(combo@);
    if combo.len() - i < 2 {
        let r: Vec<(Value, Value)> = Vec::new();
        proof {
            assert(ops::pairs_view(r@) =~= sem::combo_pairs(cv.skip(i as int)));
        }
        r
    } else {
        proof {
            assert(cv.skip(i as int)[0] == cv[i as int]);
            assert(cv.skip(i as int)[1] == cv[i as int + 1]);
            assert(cv.skip(i as int).skip(2) =~= cv.skip(i as int + 2));
        }
        let mut rest = combo_pairs_exec(combo, i + 2);
        rest.insert(0, (combo[i].duplicate(), combo[i + 1].duplicate()));
        proof {
            assert(ops::pairs_view(rest@) =~= seq![(cv[i as int], cv[i as int + 1])]
                + sem::combo_pairs(cv.skip(i as int + 2)));
        }
        rest
    }
}

/// Apply a product node's operation to one combination.
fn apply_exec(app: &AppKind, combo: &Vec<Value>) -> (r: Result<Value, QueryExecutionError>)
    requires
        match *app {
            AppKind::Arith(_) => combo@.len() >= 2,
            AppKind::Indexing => combo@.len() >= 2,
            AppKind::Slicing => combo@.len() >= 3,
            _ => true,
        },
    ensures
        ops::res_view(r) == sem::apply_app(*app, vals_view(combo@)),
{
    match app {
        AppKind::Arith(op) => ops::binary_op(*op, &combo[0], &combo[1]),
        AppKind::Indexing => ops::index(&combo[0], &combo[1]),
        AppKind::Slicing => ops::slice(&combo[0], &combo[1], &combo[2]),
        AppKind::BuildArray => Ok(Value::Array(vals_dup(combo))),
        AppKind::BuildObject => {
            let pairs = combo_pairs_exec(combo, 0);
            proof {
                assert(vals_view(combo@).skip(0) =~= vals_view(combo@));
            }
            ops::construct_object(&pairs)
        },
    }
}

/// Emit one result per combination, from position `i`, until one fails.
fn apply_combos_exec(app: &AppKind, combos: &Vec<Vec<Value>>, i: usize) -> (r: (
    Vec<Value>,
    Status,
))
    requires
        i <= combos.len(),
        forall|j: int|
            i <= j < combos.len() ==> match *app {
                AppKind::Arith(_) => (#[trigger] combos@[j])@.len() >= 2,
                AppKind::Indexing => combos@[j]@.len() >= 2,
                AppKind::Slicing => combos@[j]@.len() >= 3,
                _ => true,
            },
    ensures
        eval_post(r.0@, r.1, sem::apply_combos(*app, streams_view(combos@).skip(i as int))),
    decreases combos.len() - i,
{
    broadcast use lemma_streams_view;

    let ghost cv = streams_view(combos@);
    if i == combos.len() {
        proof {
            assert(cv.skip(i as int) =~= Seq::<Seq<ValueV>>::empty());
        }
        let r: Vec<Value> = Vec::new();
        proof {
            assert(vals_view(r@) =~= Seq::<ValueV>::empty());
        }
        (r, Status::Finished)
    } else {
        proof {
            assert(cv.skip(i as int)[0] == cv[i as int]);
            assert(cv.skip(i as int).drop_first() =~= cv.skip(i as int + 1));
        }
        match apply_exec(app, &combos[i]) {
            Ok(v) => {
                let (rest, st) = apply_combos_exec(app, combos, i + 1);
                let ghost gv = v@;
                let mut out: Vec<Value> = Vec::new();
                out.push(v);
                proof {
                    assert(vals_view(out@) =~= seq![gv]);
                }
                append_vals(&mut out, rest);
                (out, st)
            },
            Err(e) => {
                let r: Vec<Value> = Vec::new();
                proof {
                    assert(vals_view(r@) =~= Seq::<ValueV>::empty());
                }
                (r, Status::Failed(e))
            },
        }
    }
}

/// Iterate each source value from position `i`, concatenating elements.
fn iter_vals_exec(vals: &Vec<Value>, i: usize) -> (r: (Vec<Value>, Status))
    requires
        i <= vals.len(),
    ensures
        eval_post(r.0@, r.1, sem::iter_vals(vals_view(vals@).skip(i as int))),
    decreases vals.len() - i,
{
    let ghost vv = vals_view(vals@);
    if i == vals.len() {
        proof {
            assert(vv.skip(i as int) =~= Seq::<ValueV>::empty());
        }
        let r: Vec<Value> = Vec::new();
        proof {
            assert(vals_view(r@) =~= Seq::<ValueV>::empty());
        }
        (r, Status::Finished)
    } else {
        proof {
            assert(vv.skip(i as int)[0] == vv[i as int]);
            assert(vv.skip(i as int).drop_first() =~= vv.skip(i as int + 1));
        }
        match ops::iterate(&vals[i]) {
            Ok(ws) => {
                let (rest, st) = iter_vals_exec(vals, i + 1);
                let mut out = ws;
                append_vals(&mut out, rest);
                (out, st)
            },
            Err(e) => {
                let r: Vec<Value> = Vec::new();
                proof {
                    assert(vals_view(r@) =~= Seq::<ValueV>::empty());
                }
                (r, Status::Failed(e))
            },
        }
    }
}

/// Negate each source value from position `i`.
fn neg_vals_exec(vals: &Vec<Value>, i: usize) -> (r: (Vec<Value>, Status))
    requires
        i <= vals.len(),
    ensures
        eval_post(r.0@, r.1, sem::neg_vals(vals_view(vals@).skip(i as int))),
    decreases vals.len() - i,
{
    let ghost vv = vals_view(vals@);
    if i == vals.len() {
        proof {
            assert(vv.skip(i as int) =~= Seq::<ValueV>::empty());
        }
        let r: Vec<Value> = Vec::new();
        proof {
            assert(vals_view(r@) =~= Seq::<ValueV>::empty());
        }
        (r, Status::Finished)
    } else {
        proof {
            assert(vv.skip(i as int)[0] == vv[i as int]);
            assert(vv.skip(i as int).drop_first() =~= vv.skip(i as int + 1));
        }
        match ops::unary_negate(&vals[i]) {
            Ok(w) => {
                let (rest, st) = neg_vals_exec(vals, i + 1);
                let ghost gw = w@;
                let mut out: Vec<Value> = Vec::new();
                out.push(w);
                proof {
                    assert(vals_view(out@) =~= seq![gw]);
                }
                append_vals(&mut out, rest);
                (out, st)
            },
            Err(e) => {
                let r: Vec<Value> = Vec::new();
                proof {
                    assert(vals_view(r@) =~= Seq::<ValueV>::empty());
                }
                (r, Status::Failed(e))
            },
        }
    }
}

/// Copies of a parameter-name list.
fn params_dup(a: &Vec<Vec<char>>) -> (r: Vec<Vec<char>>)
    ensures
        params_view(r@) == params_view(a@),
{
    let mut out: Vec<Vec<char>> = Vec::new();
    let mut i: usize = 0;
    while i < a.len()
        invariant
            i <= a.len(),
            out@.len() == i,
            forall|j: int| 0 <= j < i ==> out@[j]@ == a@[j]@,
        decreases a.len() - i,
    {
        out.push(chars_dup(&a[i]));
        i += 1;
    }
    proof {
        assert(params_view(out@) =~= params_view(a@));
    }
    out
}

/// Bind formals from position `j` to the combination's values.
fn bind_params(env: Rc<Env>, params: &Vec<Vec<char>>, vals: &Vec<Value>, j: usize) -> (r: Rc<
    Env,
>)
    requires
        j <= params.len(),
        params@.len() == vals@.len(),
    ensures
        r@ == sem::push_params(
            env@,
            params_view(params@).skip(j as int),
            vals_view(vals@).skip(j as int),
        ),
    decreases params.len() - j,
{
    let ghost pv = params_view(params@);
    let ghost vv = vals_view(vals@);
    if j == params.len() {
        proof {
            assert(pv.skip(j as int) =~= Seq::<Seq<char>>::empty());
        }
        env
    } else {
        proof {
            assert(pv.skip(j as int)[0] == pv[j as int]);
            assert(pv.skip(j as int).drop_first() =~= pv.skip(j as int + 1));
            assert(vv.skip(j as int)[0] == vv[j as int]);
            assert(vv.skip(j as int).drop_first() =~= vv.skip(j as int + 1));
        }
        let child = Rc::new(Env::bind_variable(env, chars_dup(&params[j]), vals[j].duplicate()));
        bind_params(child, params, vals, j + 1)
    }
}

/// Feed each source value from position `i` to `b` as its subject.
fn eval_pipe_exec(fuel: u64, b: &Ast, vals: &Vec<Value>, i: usize, env: &Rc<Env>) -> (r: (
    Vec<Value>,
    Status,
))
    requires
        i <= vals.len(),
    ensures
        eval_post(
            r.0@,
            r.1,
            sem::eval_pipe(fuel as nat, *b, vals_view(vals@).skip(i as int), env@),
        ),
    decreases fuel, ast_size(*b) + 1, vals.len() - i,
{
    let ghost vv = vals_view(vals@);
    if i == vals.len() {
        proof {
            assert(vv.skip(i as int) =~= Seq::<ValueV>::empty());
        }
        let r: Vec<Value> = Vec::new();
        proof {
            assert(vals_view(r@) =~= Seq::<ValueV>::empty());
        }
        (r, Status::Finished)
    } else {
        proof {
            assert(vv.skip(i as int)[0] == vv[i as int]);
            assert(vv.skip(i as int).drop_first() =~= vv.skip(i as int + 1));
        }
        let child = Rc::new(Env::with_subject(rc_dup(env), vals[i].duplicate()));
        let (first, st) = evaluate(fuel, b, &child);
        match st {
            Status::Finished => {
                let (rest, st2) = eval_pipe_exec(fuel, b, vals, i + 1, env);
                let mut out = first;
                append_vals(&mut out, rest);
                (out, st2)
            },
            _ => (first, st),
        }
    }
}

/// Bind each source value from position `i` to `name` and evaluate `body`.
fn eval_bind_exec(
    fuel: u64,
    name: &Vec<char>,
    body: &Ast,
    vals: &Vec<Value>,
    i: usize,
    env: &Rc<Env>,
) -> (r: (Vec<Value>, Status))
    requires
        i <= vals.len(),
    ensures
        eval_post(
            r.0@,
            r.1,
            sem::eval_bind(fuel as nat, name@, *body, vals_view(vals@).skip(i as int), env@),
        ),
    decreases fuel, ast_size(*body) + 1, vals.len() - i,
{
    let ghost vv = vals_view(vals@);
    if i == vals.len() {
        proof {
            assert(vv.skip(i as int) =~= Seq::<ValueV>::empty());
        }
        let r: Vec<Value> = Vec::new();
        proof {
            assert(vals_view(r@) =~= Seq::<ValueV>::empty());
        }
        (r, Status::Finished)
    } else {
        proof {
            assert(vv.skip(i as int)[0] == vv[i as int]);
            assert(vv.skip(i as int).drop_first() =~= vv.skip(i as int + 1));
        }
        let child = Rc::new(
            Env::bind_variable(rc_dup(env), chars_dup(name), vals[i].duplicate()),
        );
        let (first, st) = evaluate(fuel, body, &child);
        match st {
            Status::Finished => {
                let (rest, st2) = eval_bind_exec(fuel, name, body, vals, i + 1, env);
                let mut out = first;
                append_vals(&mut out, rest);
                (out, st2)
            },
            _ => (first, st),
        }
    }
}

/// Branch on each condition value from position `i`.
fn eval_if_exec(
    fuel: u64,
    thn: &Ast,
    els: &Ast,
    vals: &Vec<Value>,
    i: usize,
    env: &Rc<Env>,
) -> (r: (Vec<Value>, Status))
    requires
        i <= vals.len(),
    ensures
        eval_post(
            r.0@,
            r.1,
            sem::eval_if(fuel as nat, *thn, *els, vals_view(vals@).skip(i as int), env@),
        ),
    decreases fuel, ast_size(*thn) + ast_size(*els) + 1, vals.len() - i,
{
    let ghost vv = vals_view(vals@);
    if i == vals.len() {
        proof {
            assert(vv.skip(i as int) =~= Seq::<ValueV>::empty());
        }
        let r: Vec<Value> = Vec::new();
        proof {
            assert(vals_view(r@) =~= Seq::<ValueV>::empty());
        }
        (r, Status::Finished)
    } else {
        proof {
            assert(vv.skip(i as int)[0] == vv[i as int]);
            assert(vv.skip(i as int).drop_first() =~= vv.skip(i as int + 1));
        }
        let (first, st) = if vals[i].truthy() {
            evaluate(fuel, thn, env)
        } else {
            evaluate(fuel, els, env)
        };
        match st {
            Status::Finished => {
                let (rest, st2) = eval_if_exec(fuel, thn, els, vals, i + 1, env);
                let mut out = first;
                append_vals(&mut out, rest);
                (out, st2)
            },
            _ => (first, st),
        }
    }
}

/// Call the body once per argument combination from position `i`.
fn eval_call_exec(
    fuel: u64,
    params: &Vec<Vec<char>>,
    body: &Ast,
    fenv: &Rc<Env>,
    subj: &Value,
    combos: &Vec<Vec<Value>>,
    i: usize,
) -> (r: (Vec<Value>, Status))
    requires
        i <= combos.len(),
        forall|j: int| i <= j < combos.len() ==> (#[trigger] combos@[j])@.len() == params@.len(),
    ensures
        eval_post(
            r.0@,
            r.1,
            sem::eval_call(
                fuel as nat,
                params_view(params@),
                *body,
                fenv@,
                subj@,
                streams_view(combos@).skip(i as int),
            ),
        ),
    decreases fuel, ast_size(*body) + 1, combos.len() - i,
{
    broadcast use lemma_streams_view;

    let ghost cv = streams_view(combos@);
    if i == combos.len() {
        proof {
            assert(cv.skip(i as int) =~= Seq::<Seq<ValueV>>::empty());
        }
        let r: Vec<Value> = Vec::new();
        proof {
            assert(vals_view(r@) =~= Seq::<ValueV>::empty());
        }
        (r, Status::Finished)
    } else {
        proof {
            assert(cv.skip(i as int)[0] == cv[i as int]);
            assert(cv.skip(i as int).drop_first() =~= cv.skip(i as int + 1));
        }
        let base = Rc::new(Env::with_subject(rc_dup(fenv), subj.duplicate()));
        let cenv = bind_params(base, params, &combos[i], 0);
        proof {
            assert(params_view(params@).skip(0) =~= params_view(params@));
            assert(vals_view(combos@[i as int]@).skip(0) =~= vals_view(combos@[i as int]@));
        }
        let (first, st) = evaluate(fuel, body, &cenv);
        match st {
            Status::Finished => {
                let (rest, st2) = eval_call_exec(fuel, params, body, fenv, subj, combos, i + 1);
                let mut out = first;
                append_vals(&mut out, rest);
                (out, st2)
            },
            _ => (first, st),
        }
    }
}

/// Evaluate each element filter from position `i` to a stream.
fn eval_items_exec(fuel: u64, items: &Vec<Ast>, i: usize, env: &Rc<Env>) -> (r: (
    Vec<Vec<Value>>,
    Status,
))
    requires
        i <= items.len(),
    ensures
        match r.1 {
            Status::Finished => sem::eval_items(fuel as nat, items@.skip(i as int), env@)
                == StreamsOut::Streams(streams_view(r.0@)),
            Status::Failed(e) => sem::eval_items(fuel as nat, items@.skip(i as int), env@)
                == StreamsOut::Failed(e@),
            Status::Exhausted => sem::eval_items(fuel as nat, items@.skip(i as int), env@)
                == StreamsOut::Exhausted,
        },
    decreases fuel, seq_ast_size(items@.skip(i as int)) + 1, 0nat,
{
    broadcast use lemma_streams_view;

    if i == items.len() {
        proof {
            assert(items@.skip(i as int) =~= Seq::<Ast>::empty());
        }
        let r: Vec<Vec<Value>> = Vec::new();
        proof {
            assert(streams_view(r@) =~= Seq::<Seq<ValueV>>::empty());
        }
        (r, Status::Finished)
    } else {
        proof {
            assert(items@.skip(i as int)[0] == items@[i as int]);
            assert(items@.skip(i as int).drop_first() =~= items@.skip(i as int + 1));
            assert(seq_ast_size(items@.skip(i as int)) == 1 + ast_size(items@[i as int])
                + seq_ast_size(items@.skip(i as int + 1)));
        }
        let (vs, st) = evaluate(fuel, &items[i], env);
        match st {
            Status::Finished => {
                let (rest, st2) = eval_items_exec(fuel, items, i + 1, env);
                match st2 {
                    Status::Finished => {
                        let ghost gvs = vals_view(vs@);
                        let ghost grest = streams_view(rest@);
                        let mut out = rest;
                        out.insert(0, vs);
                        proof {
                            assert(streams_view(out@) =~= seq![gvs] + grest);
                        }
                        (out, Status::Finished)
                    },
                    _ => (rest, st2),
                }
            },
            Status::Failed(e) => {
                let r: Vec<Vec<Value>> = Vec::new();
                (r, Status::Failed(e))
            },
            Status::Exhausted => {
                let r: Vec<Vec<Value>> = Vec::new();
                (r, Status::Exhausted)
            },
        }
    }
}

/// Evaluate each field's key and value filters from position `i`.
fn eval_pairs_exec(fuel: u64, pairs: &Vec<(Ast, Ast)>, i: usize, env: &Rc<Env>) -> (r: (
    Vec<Vec<Value>>,
    Status,
))
    requires
        i <= pairs.len(),
    ensures
        match r.1 {
            Status::Finished => sem::eval_pairs(fuel as nat, pairs@.skip(i as int), env@)
                == StreamsOut::Streams(streams_view(r.0@)),
            Status::Failed(e) => sem::eval_pairs(fuel as nat, pairs@.skip(i as int), env@)
                == StreamsOut::Failed(e@),
            Status::Exhausted => sem::eval_pairs(fuel as nat, pairs@.skip(i as int), env@)
                == StreamsOut::Exhausted,
        },
    decreases fuel, pair_seq_size(pairs@.skip(i as int)) + 2, 0nat,
{
    broadcast use lemma_streams_view;

    if i == pairs.len() {
        proof {
            assert(pairs@.skip(i as int) =~= Seq::<(Ast, Ast)>::empty());
        }
        let r: Vec<Vec<Value>> = Vec::new();
        proof {
            assert(streams_view(r@) =~= Seq::<Seq<ValueV>>::empty());
        }
        (r, Status::Finished)
    } else {
        proof {
            assert(pairs@.skip(i as int)[0] == pairs@[i as int]);
            assert(pairs@.skip(i as int).drop_first() =~= pairs@.skip(i as int + 1));
            assert(pair_seq_size(pairs@.skip(i as int)) == 1 + ast_size(pairs@[i as int].0)
                + ast_size(pairs@[i as int].1) + pair_seq_size(pairs@.skip(i as int + 1)));
        }
        let (ks, kst) = evaluate(fuel, &pairs[i].0, env);
        match kst {
            Status::Finished => {
                let (vs, vst) = evaluate(fuel, &pairs[i].1, env);
                match vst {
                    Status::Finished => {
                        let (rest, st2) = eval_pairs_exec(fuel, pairs, i + 1, env);
                        match st2 {
                            Status::Finished => {
                                let ghost gks = vals_view(ks@);
                                let ghost gvs = vals_view(vs@);
                                let ghost grest = streams_view(rest@);
                                let mut out = rest;
                                out.insert(0, vs);
                                out.insert(0, ks);
                                proof {
                                    assert(streams_view(out@) =~= seq![gks, gvs] + grest);
                                }
                                (out, Status::Finished)
                            },
                            _ => (rest, st2),
                        }
                    },
                    Status::Failed(e) => {
                        let r: Vec<Vec<Value>> = Vec::new();
                        (r, Status::Failed(e))
                    },
                    Status::Exhausted => {
                        let r: Vec<Vec<Value>> = Vec::new();
                        (r, Status::Exhausted)
                    },
                }
            },
            Status::Failed(e) => {
                let r: Vec<Vec<Value>> = Vec::new();
                (r, Status::Failed(e))
            },
            Status::Exhausted => {
                let r: Vec<Vec<Value>> = Vec::new();
                (r, Status::Exhausted)
            },
        }
    }
}

/// Evaluate an optional sub-filter: an absent one emits a single null.
fn eval_opt_exec(fuel: u64, o: &Option<Box<Ast>>, env: &Rc<Env>) -> (r: (Vec<Value>, Status))
    ensures
        eval_post(r.0@, r.1, sem::eval_opt(fuel as nat, *o, env@)),
    decreases fuel, opt_size(*o) + 1, 0nat,
{
    match o {
        None => {
            let mut out: Vec<Value> = Vec::new();
            out.push(Value::Null);
            proof {
                assert(vals_view(out@) =~= seq![ValueV::Null]);
            }
            (out, Status::Finished)
        },
        Some(f) => evaluate(fuel, &**f, env),
    }
}

/// A completed stream list has one stream per element filter.
proof fn lemma_eval_items_len(fuel: nat, items: Seq<Ast>, env: Seq<FrameV>)
    ensures
        sem::eval_items(fuel, items, env) matches StreamsOut::Streams(ss) ==> ss.len()
            == items.len(),
    decreases items.len(),
{
    if items.len() > 0 {
        lemma_eval_items_len(fuel, items.drop_first(), env);
    }
}

/// Seal a sequencing node: the source's ending wins once the inner
/// evaluation over its emissions completes.
fn seal(src_st: Status, inner: (Vec<Value>, Status)) -> (r: (Vec<Value>, Status))
    ensures
        r.0@ == inner.0@,
        match (src_st, inner.1) {
            (Status::Finished, _) => r.1 == inner.1,
            (Status::Failed(e), Status::Finished) => r.1 == Status::Failed(e),
            (Status::Exhausted, Status::Finished) => r.1 == Status::Exhausted,
            (_, ist) => r.1 == ist,
        },
{
    let (ivals, ist) = inner;
    match src_st {
        Status::Finished => (ivals, ist),
        Status::Failed(e) => match ist {
            Status::Finished => (ivals, Status::Failed(e)),
            _ => (ivals, ist),
        },
        Status::Exhausted => match ist {
            Status::Finished => (ivals, Status::Exhausted),
            _ => (ivals, ist),
        },
    }
}

/// Evaluate a program node against an environment: the emitted values in
/// order, and how the evaluation ended — exactly the outcome given by the
/// mathematical semantics `sem::eval`.
#[verifier::rlimit(100)]
pub fn evaluate(fuel: u64, ast: &Ast, env: &Rc<Env>) -> (r: (Vec<Value>, Status))
    ensures
        eval_post(r.0@, r.1, sem::eval(fuel as nat, *ast, env@)),
    decreases fuel, ast_size(*ast), 1nat,
{
    broadcast use lemma_streams_view;

    match ast {
        Ast::Identity => {
            let s = (&**env).subject();
            let mut out: Vec<Value> = Vec::new();
            out.push(s.duplicate());
            proof {
                assert(vals_view(out@) =~= seq![crate::env::subject_of(env@)]);
            }
            (out, Status::Finished)
        },
        Ast::Literal(v) => {
            let mut out: Vec<Value> = Vec::new();
            out.push(v.duplicate());
            proof {
                assert(vals_view(out@) =~= seq![v@]);
            }
            (out, Status::Finished)
        },
        Ast::Variable(n) => variable_node(fuel, ast, env),
        Ast::Pipe(a, b) => pipe_node(fuel, ast, env),
        Ast::Comma(a, b) => comma_node(fuel, ast, env),
        Ast::Iterate(e) => iterate_node(fuel, ast, env),
        Ast::Negate(e) => negate_node(fuel, ast, env),
        Ast::BinOp { op, lhs, rhs } => binop_node(fuel, ast, env),
        Ast::Index { base, key } => index_node(fuel, ast, env),
        Ast::Slice { base, lo, hi } => slice_node(fuel, ast, env),
        Ast::ArrayCons(items) => arraycons_node(fuel, ast, env),
        Ast::ObjectCons(pairs) => objectcons_node(fuel, ast, env),
        Ast::IfThenElse { cond, thn, els } => if_node(fuel, ast, env),
        Ast::BindVar { source, name, body } => bindvar_node(fuel, ast, env),
        Ast::FunDef { name, params, body, rest } => fundef_node(fuel, ast, env),
        Ast::FunCall { name, args } => funcall_node(fuel, ast, env),
        Ast::TryCatch { body, fallback } => trycatch_node(fuel, ast, env),
        Ast::Optional(e) => optional_node(fuel, ast, env),
    }
}

/// Evaluate one node kind (see `sem::eval`).
fn variable_node(fuel: u64, ast: &Ast, env: &Rc<Env>) -> (r: (Vec<Value>, Status))
    requires
        ast matches Ast::Variable(_),
    ensures
        eval_post(r.0@, r.1, sem::eval(fuel as nat, *ast, env@)),
    decreases fuel, ast_size(*ast), 0nat,
{
    broadcast use lemma_streams_view;

    match ast {
        Ast::Variable(n) => match (&**env).lookup_variable(n) {
            Some(v) => {
                let ghost gv = v@;
                let mut out: Vec<Value> = Vec::new();
                out.push(v.duplicate());
                proof {
                    assert(vals_view(out@) =~= seq![gv]);
                }
                (out, Status::Finished)
            },
            None => {
                let r: Vec<Value> = Vec::new();
                proof {
                    assert(vals_view(r@) =~= Seq::<ValueV>::empty());
                }
                (r, Status::Failed(QueryExecutionError::UndefinedVariable(chars_dup(n))))
            },
        },
        _ => {
            proof {
                assert(false);
            }
            (Vec::new(), Status::Exhausted)
        },
    }
}

/// Evaluate one node kind (see `sem::eval`).
fn pipe_node(fuel: u64, ast: &Ast, env: &Rc<Env>) -> (r: (Vec<Value>, Status))
    requires
        ast matches Ast::Pipe(_, _),
    ensures
        eval_post(r.0@, r.1, sem::eval(fuel as nat, *ast, env@)),
    decreases fuel, ast_size(*ast), 0nat,
{
    broadcast use lemma_streams_view;

    match ast {
        Ast::Pipe(a, b) => {
            let (avals, ast1) = evaluate(fuel, &**a, env);
            let inner = eval_pipe_exec(fuel, &**b, &avals, 0, env);
            proof {
                assert(vals_view(avals@).skip(0) =~= vals_view(avals@));
            }
            seal(ast1, inner)
        },
        _ => {
            proof {
                assert(false);
            }
            (Vec::new(), Status::Exhausted)
        },
    }
}

/// Evaluate one node kind (see `sem::eval`).
fn comma_node(fuel: u64, ast: &Ast, env: &Rc<Env>) -> (r: (Vec<Value>, Status))
    requires
        ast matches Ast::Comma(_, _),
    ensures
        eval_post(r.0@, r.1, sem::eval(fuel as nat, *ast, env@)),
    decreases fuel, ast_size(*ast), 0nat,
{
    broadcast use lemma_streams_view;

    match ast {
        Ast::Comma(a, b) => {
            let (avals, st1) = evaluate(fuel, &**a, env);
            match st1 {
                Status::Finished => {
                    let (bvals, st2) = evaluate(fuel, &**b, env);
                    let mut out = avals;
                    append_vals(&mut out, bvals);
                    (out, st2)
                },
                _ => (avals, st1),
            }
        },
        _ => {
            proof {
                assert(false);
            }
            (Vec::new(), Status::Exhausted)
        },
    }
}

/// Evaluate one node kind (see `sem::eval`).
fn iterate_node(fuel: u64, ast: &Ast, env: &Rc<Env>) -> (r: (Vec<Value>, Status))
    requires
        ast matches Ast::Iterate(_),
    ensures
        eval_post(r.0@, r.1, sem::eval(fuel as nat, *ast, env@)),
    decreases fuel, ast_size(*ast), 0nat,
{
    broadcast use lemma_streams_view;

    match ast {
        Ast::Iterate(e) => {
            let (vals, st) = evaluate(fuel, &**e, env);
            let inner = iter_vals_exec(&vals, 0);
            proof {
                assert(vals_view(vals@).skip(0) =~= vals_view(vals@));
            }
            seal(st, inner)
        },
        _ => {
            proof {
                assert(false);
            }
            (Vec::new(), Status::Exhausted)
        },
    }
}

/// Evaluate one node kind (see `sem::eval`).
fn negate_node(fuel: u64, ast: &Ast, env: &Rc<Env>) -> (r: (Vec<Value>, Status))
    requires
        ast matches Ast::Negate(_),
    ensures
        eval_post(r.0@, r.1, sem::eval(fuel as nat, *ast, env@)),
    decreases fuel, ast_size(*ast), 0nat,
{
    broadcast use lemma_streams_view;

    match ast {
        Ast::Negate(e) => {
            let (vals, st) = evaluate(fuel, &**e, env);
            let inner = neg_vals_exec(&vals, 0);
            proof {
                assert(vals_view(vals@).skip(0) =~= vals_view(vals@));
            }
            seal(st, inner)
        },
        _ => {
            proof {
                assert(false);
            }
            (Vec::new(), Status::Exhausted)
        },
    }
}

/// Evaluate one node kind (see `sem::eval`).
#[verifier::rlimit(100)]
fn binop_node(fuel: u64, ast: &Ast, env: &Rc<Env>) -> (r: (Vec<Value>, Status))
    requires
        ast matches Ast::BinOp { .. },
    ensures
        eval_post(r.0@, r.1, sem::eval(fuel as nat, *ast, env@)),
    decreases fuel, ast_size(*ast), 0nat,
{
    broadcast use lemma_streams_view;

    match ast {
        Ast::BinOp { op, lhs, rhs } => {
            let app = AppKind::Arith(*op);
            proof {
                assert(sem::eval(fuel as nat, *ast, env@) == sem::eval_product2(
                    fuel as nat,
                    AppKind::Arith(*op),
                    **lhs,
                    **rhs,
                    env@,
                ));
            }
            let (lv, lst) = evaluate(fuel, &**lhs, env);
            match lst {
                Status::Finished => {
                    let (rv, rst) = evaluate(fuel, &**rhs, env);
                    match rst {
                        Status::Finished => product2_finish(app, lv, rv),
                        _ => {
                            let r: Vec<Value> = Vec::new();
                            proof {
                                assert(vals_view(r@) =~= Seq::<ValueV>::empty());
                            }
                            (r, rst)
                        },
                    }
                },
                _ => {
                    let r: Vec<Value> = Vec::new();
                    proof {
                        assert(vals_view(r@) =~= Seq::<ValueV>::empty());
                    }
                    (r, lst)
                },
            }
        },
        _ => {
            proof {
                assert(false);
            }
            (Vec::new(), Status::Exhausted)
        },
    }
}

/// Evaluate one node kind (see `sem::eval`).
#[verifier::rlimit(100)]
fn index_node(fuel: u64, ast: &Ast, env: &Rc<Env>) -> (r: (Vec<Value>, Status))
    requires
        ast matches Ast::Index { .. },
    ensures
        eval_post(r.0@, r.1, sem::eval(fuel as nat, *ast, env@)),
    decreases fuel, ast_size(*ast), 0nat,
{
    broadcast use lemma_streams_view;

    match ast {
        Ast::Index { base, key } => {
            let app = AppKind::Indexing;
            proof {
                assert(sem::eval(fuel as nat, *ast, env@) == sem::eval_product2(
                    fuel as nat,
                    AppKind::Indexing,
                    **base,
                    **key,
                    env@,
                ));
            }
            let (lv, lst) = evaluate(fuel, &**base, env);
            match lst {
                Status::Finished => {
                    let (rv, rst) = evaluate(fuel, &**key, env);
                    match rst {
                        Status::Finished => product2_finish(app, lv, rv),
                        _ => {
                            let r: Vec<Value> = Vec::new();
                            proof {
                                assert(vals_view(r@) =~= Seq::<ValueV>::empty());
                            }
                            (r, rst)
                        },
                    }
                },
                _ => {
                    let r: Vec<Value> = Vec::new();
                    proof {
                        assert(vals_view(r@) =~= Seq::<ValueV>::empty());
                    }
                    (r, lst)
                },
            }
        },
        _ => {
            proof {
                assert(false);
            }
            (Vec::new(), Status::Exhausted)
        },
    }
}

/// Evaluate one node kind (see `sem::eval`).
fn if_node(fuel: u64, ast: &Ast, env: &Rc<Env>) -> (r: (Vec<Value>, Status))
    requires
        ast matches Ast::IfThenElse { .. },
    ensures
        eval_post(r.0@, r.1, sem::eval(fuel as nat, *ast, env@)),
    decreases fuel, ast_size(*ast), 0nat,
{
    broadcast use lemma_streams_view;

    match ast {
        Ast::IfThenElse { cond, thn, els } => {
            let (cvals, cst) = evaluate(fuel, &**cond, env);
            let inner = eval_if_exec(fuel, &**thn, &**els, &cvals, 0, env);
            proof {
                assert(vals_view(cvals@).skip(0) =~= vals_view(cvals@));
            }
            seal(cst, inner)
        },
        _ => {
            proof {
                assert(false);
            }
            (Vec::new(), Status::Exhausted)
        },
    }
}

/// Evaluate one node kind (see `sem::eval`).
fn bindvar_node(fuel: u64, ast: &Ast, env: &Rc<Env>) -> (r: (Vec<Value>, Status))
    requires
        ast matches Ast::BindVar { .. },
    ensures
        eval_post(r.0@, r.1, sem::eval(fuel as nat, *ast, env@)),
    decreases fuel, ast_size(*ast), 0nat,
{
    broadcast use lemma_streams_view;

    match ast {
        Ast::BindVar { source, name, body } => {
            let (svals, sst) = evaluate(fuel, &**source, env);
            let inner = eval_bind_exec(fuel, name, &**body, &svals, 0, env);
            proof {
                assert(vals_view(svals@).skip(0) =~= vals_view(svals@));
            }
            seal(sst, inner)
        },
        _ => {
            proof {
                assert(false);
            }
            (Vec::new(), Status::Exhausted)
        },
    }
}

/// Evaluate one node kind (see `sem::eval`).
fn fundef_node(fuel: u64, ast: &Ast, env: &Rc<Env>) -> (r: (Vec<Value>, Status))
    requires
        ast matches Ast::FunDef { .. },
    ensures
        eval_post(r.0@, r.1, sem::eval(fuel as nat, *ast, env@)),
    decreases fuel, ast_size(*ast), 0nat,
{
    broadcast use lemma_streams_view;

    match ast {
        Ast::FunDef { name, params, body, rest } => {
            let child = Rc::new(
                Env::define_function(
                    rc_dup(env),
                    chars_dup(name),
                    params_dup(params),
                    rc_dup(body),
                ),
            );
            evaluate(fuel, &**rest, &child)
        },
        _ => {
            proof {
                assert(false);
            }
            (Vec::new(), Status::Exhausted)
        },
    }
}

/// Evaluate one node kind (see `sem::eval`).
fn trycatch_node(fuel: u64, ast: &Ast, env: &Rc<Env>) -> (r: (Vec<Value>, Status))
    requires
        ast matches Ast::TryCatch { .. },
    ensures
        eval_post(r.0@, r.1, sem::eval(fuel as nat, *ast, env@)),
    decreases fuel, ast_size(*ast), 0nat,
{
    broadcast use lemma_streams_view;

    match ast {
        Ast::TryCatch { body, fallback } => {
            let (bvals, bst) = evaluate(fuel, &**body, env);
            match bst {
                Status::Failed(_) => match fallback {
                    Some(c) => {
                        let (cvals, cst) = evaluate(fuel, &**c, env);
                        let mut out = bvals;
                        append_vals(&mut out, cvals);
                        (out, cst)
                    },
                    None => (bvals, Status::Finished),
                },
                _ => (bvals, bst),
            }
        },
        _ => {
            proof {
                assert(false);
            }
            (Vec::new(), Status::Exhausted)
        },
    }
}

/// Evaluate one node kind (see `sem::eval`).
fn optional_node(fuel: u64, ast: &Ast, env: &Rc<Env>) -> (r: (Vec<Value>, Status))
    requires
        ast matches Ast::Optional(_),
    ensures
        eval_post(r.0@, r.1, sem::eval(fuel as nat, *ast, env@)),
    decreases fuel, ast_size(*ast), 0nat,
{
    broadcast use lemma_streams_view;

    match ast {
        Ast::Optional(e) => {
            let (vals, st) = evaluate(fuel, &**e, env);
            match st {
                Status::Failed(_) => (vals, Status::Finished),
                _ => (vals, st),
            }
        },
        _ => {
            proof {
                assert(false);
            }
            (Vec::new(), Status::Exhausted)
        },
    }
}

/// Evaluate a slice node.
fn slice_node(fuel: u64, ast: &Ast, env: &Rc<Env>) -> (r: (Vec<Value>, Status))
    requires
        ast matches Ast::Slice { .. },
    ensures
        eval_post(r.0@, r.1, sem::eval(fuel as nat, *ast, env@)),
    decreases fuel, ast_size(*ast), 0nat,
{
    match ast {
        Ast::Slice { base, lo, hi } => {
            let (bv, bst) = evaluate(fuel, &**base, env);
            match bst {
                Status::Finished => {
                    let (lv, lst) = eval_opt_exec(fuel, lo, env);
                    match lst {
                        Status::Finished => {
                            let (hv, hst) = eval_opt_exec(fuel, hi, env);
                            match hst {
                                Status::Finished => slice_finish(bv, lv, hv),
                                _ => {
                                    let r: Vec<Value> = Vec::new();
                                    proof {
                                        assert(vals_view(r@) =~= Seq::<ValueV>::empty());
                                    }
                                    (r, hst)
                                },
                            }
                        },
                        _ => {
                            let r: Vec<Value> = Vec::new();
                            proof {
                                assert(vals_view(r@) =~= Seq::<ValueV>::empty());
                            }
                            (r, lst)
                        },
                    }
                },
                _ => {
                    let r: Vec<Value> = Vec::new();
                    proof {
                        assert(vals_view(r@) =~= Seq::<ValueV>::empty());
                    }
                    (r, bst)
                },
            }
        },
        _ => {
            proof {
                assert(false);
            }
            (Vec::new(), Status::Exhausted)
        },
    }
}

/// Evaluate an array construction node.
fn arraycons_node(fuel: u64, ast: &Ast, env: &Rc<Env>) -> (r: (Vec<Value>, Status))
    requires
        ast matches Ast::ArrayCons(_),
    ensures
        eval_post(r.0@, r.1, sem::eval(fuel as nat, *ast, env@)),
    decreases fuel, ast_size(*ast), 0nat,
{
    broadcast use lemma_streams_view;

    match ast {
        Ast::ArrayCons(items) => {
            proof {
                assert(items@.skip(0) =~= items@);
            }
            let (ss, st) = eval_items_exec(fuel, items, 0, env);
            match st {
                Status::Finished => {
                    let combos = cart_exec(&ss, 0);
                    proof {
                        assert(streams_view(ss@).skip(0) =~= streams_view(ss@));
                        lemma_cart_combo_len(streams_view(ss@));
                        assert(streams_view(combos@).skip(0) =~= streams_view(combos@));
                    }
                    apply_combos_exec(&AppKind::BuildArray, &combos, 0)
                },
                _ => {
                    let r: Vec<Value> = Vec::new();
                    proof {
                        assert(vals_view(r@) =~= Seq::<ValueV>::empty());
                    }
                    (r, st)
                },
            }
        },
        _ => {
            proof {
                assert(false);
            }
            (Vec::new(), Status::Exhausted)
        },
    }
}

/// Evaluate an object construction node.
fn objectcons_node(fuel: u64, ast: &Ast, env: &Rc<Env>) -> (r: (Vec<Value>, Status))
    requires
        ast matches Ast::ObjectCons(_),
    ensures
        eval_post(r.0@, r.1, sem::eval(fuel as nat, *ast, env@)),
    decreases fuel, ast_size(*ast), 0nat,
{
    broadcast use lemma_streams_view;

    match ast {
        Ast::ObjectCons(pairs) => {
            proof {
                assert(pairs@.skip(0) =~= pairs@);
            }
            let (ss, st) = eval_pairs_exec(fuel, pairs, 0, env);
            match st {
                Status::Finished => {
                    let combos = cart_exec(&ss, 0);
                    proof {
                        assert(streams_view(ss@).skip(0) =~= streams_view(ss@));
                        lemma_cart_combo_len(streams_view(ss@));
                        assert(streams_view(combos@).skip(0) =~= streams_view(combos@));
                    }
                    apply_combos_exec(&AppKind::BuildObject, &combos, 0)
                },
                _ => {
                    let r: Vec<Value> = Vec::new();
                    proof {
                        assert(vals_view(r@) =~= Seq::<ValueV>::empty());
                    }
                    (r, st)
                },
            }
        },
        _ => {
            proof {
                assert(false);
            }
            (Vec::new(), Status::Exhausted)
        },
    }
}

/// Evaluate a function call node.
#[verifier::rlimit(50)]
fn funcall_node(fuel: u64, ast: &Ast, env: &Rc<Env>) -> (r: (Vec<Value>, Status))
    requires
        ast matches Ast::FunCall { .. },
    ensures
        eval_post(r.0@, r.1, sem::eval(fuel as nat, *ast, env@)),
    decreases fuel, ast_size(*ast), 0nat,
{
    broadcast use lemma_streams_view;

    match ast {
        Ast::FunCall { name, args } => match lookup_function(env, name, args.len()) {
            None => {
                let r: Vec<Value> = Vec::new();
                proof {
                    assert(vals_view(r@) =~= Seq::<ValueV>::empty());
                }
                (r, Status::Failed(QueryExecutionError::UndefinedFunction(
                    chars_dup(name),
                    args.len(),
                )))
            },
            Some((fenv, params, body)) => {
                if fuel == 0 {
                    let r: Vec<Value> = Vec::new();
                    proof {
                        assert(vals_view(r@) =~= Seq::<ValueV>::empty());
                    }
                    (r, Status::Exhausted)
                } else {
                    proof {
                        assert(args@.skip(0) =~= args@);
                    }
                    let (ss, st) = eval_items_exec(fuel, args, 0, env);
                    match st {
                        Status::Finished => {
                            let combos = cart_exec(&ss, 0);
                            proof {
                                assert(streams_view(ss@).skip(0) =~= streams_view(ss@));
                                lemma_eval_items_len(fuel as nat, args@, env@);
                                lemma_cart_combo_len(streams_view(ss@));
                                assert(streams_view(combos@).skip(0) =~= streams_view(
                                    combos@,
                                ));
                                assert(params_view(params@).len() == params@.len());
                                crate::env::lemma_lookup_fun_arity(
                                    env@,
                                    name@,
                                    args@.len() as nat,
                                );
                                assert(params@.len() == args@.len());
                                assert(streams_view(ss@).len() == args@.len());
                                assert forall|j: int|
                                    0 <= j < combos@.len() implies (#[trigger] combos@[j])@.len()
                                    == params@.len() by {
                                    assert(streams_view(combos@)[j] == vals_view(
                                        combos@[j]@,
                                    ));
                                    assert(vals_view(combos@[j]@).len() == combos@[j]@.len());
                                    assert(streams_view(combos@)[j].len() == streams_view(
                                        ss@,
                                    ).len());
                                }
                            }
                            let subj = (&**env).subject().duplicate();
                            eval_call_exec(fuel - 1, params, &**body, &fenv, &subj, &combos, 0)
                        },
                        _ => {
                            let r: Vec<Value> = Vec::new();
                            proof {
                                assert(vals_view(r@) =~= Seq::<ValueV>::empty());
                            }
                            (r, st)
                        },
                    }
                }
            },
        },
        _ => {
            proof {
                assert(false);
            }
            (Vec::new(), Status::Exhausted)
        },
    }
}

/// Apply a two-operand product once both streams completed.
fn product2_finish(app: AppKind, lv: Vec<Value>, rv: Vec<Value>) -> (r: (Vec<Value>, Status))
    requires
        app is Arith || app is Indexing,
    ensures
        eval_post(
            r.0@,
            r.1,
            sem::apply_combos(app, sem::cart(seq![vals_view(lv@), vals_view(rv@)])),
        ),
{
    broadcast use lemma_streams_view;

    let mut streams: Vec<Vec<Value>> = Vec::new();
    streams.push(lv);
    streams.push(rv);
    let combos = cart_exec(&streams, 0);
    proof {
        assert(streams_view(streams@).skip(0) =~= streams_view(streams@));
        assert(streams_view(streams@) =~= seq![
            vals_view(streams@[0]@),
            vals_view(streams@[1]@),
        ]);
        lemma_cart_combo_len(streams_view(streams@));
        assert(streams_view(combos@).skip(0) =~= streams_view(combos@));
        assert forall|j: int| 0 <= j < combos@.len() implies (#[trigger] combos@[j])@.len()
            == 2 by {
            assert(streams_view(combos@)[j] == vals_view(combos@[j]@));
            assert(streams_view(combos@)[j].len() == streams_view(streams@).len());
        }
    }
    apply_combos_exec(&app, &combos, 0)
}

/// Apply slicing once the base and both bound streams completed.
fn slice_finish(bv: Vec<Value>, lv: Vec<Value>, hv: Vec<Value>) -> (r: (Vec<Value>, Status))
    ensures
        eval_post(
            r.0@,
            r.1,
            sem::apply_combos(
                AppKind::Slicing,
                sem::cart(seq![vals_view(bv@), vals_view(lv@), vals_view(hv@)]),
            ),
        ),
{
    broadcast use lemma_streams_view;

    let mut streams: Vec<Vec<Value>> = Vec::new();
    streams.push(bv);
    streams.push(lv);
    streams.push(hv);
    let combos = cart_exec(&streams, 0);
    proof {
        assert(streams_view(streams@).skip(0) =~= streams_view(streams@));
        assert(streams_view(streams@) =~= seq![
            vals_view(streams@[0]@),
            vals_view(streams@[1]@),
            vals_view(streams@[2]@),
        ]);
        lemma_cart_combo_len(streams_view(streams@));
        assert(streams_view(combos@).skip(0) =~= streams_view(combos@));
        assert forall|j: int| 0 <= j < combos@.len() implies (#[trigger] combos@[j])@.len()
            == 3 by {
            assert(streams_view(combos@)[j] == vals_view(combos@[j]@));
            assert(streams_view(combos@)[j].len() == streams_view(streams@).len());
        }
    }
    apply_combos_exec(&AppKind::Slicing, &combos, 0)
}

/// Evaluate a compiled program against one input document: build the root
/// environment from the input and stream the program's emissions, exactly
/// as the mathematical semantics gives them.
pub fn run(program: &Ast, input: Value, fuel: u64) -> (r: (Vec<Value>, Status))
    ensures
        eval_post(
            r.0@,
            r.1,
            sem::eval(fuel as nat, *program, seq![FrameV::Subj(input@)]),
        ),
{
    let env = Rc::new(Env::root(input));
    evaluate(fuel, program, &env)
}

} // verus!
