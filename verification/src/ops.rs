//! The polymorphic primitive operations of the value model: index, slice,
//! iterate, unary negation, binary operators, object construction, and the
//! shared integrality check.  Every operation is total: it returns either a
//! new value or the `QueryExecutionError` tied to the violated precondition.

use vstd::prelude::*;

use crate::error::{ErrV, QueryExecutionError};
use crate::number::{n_add, n_div, n_mod, n_mul, n_neg, n_sub, n_trunc, whole, Number};
use crate::value::{
    chars_dup, chars_eq, entries_view, lemma_entries_view, lemma_vals_view, vals_dup, vals_view,
    Value, ValueV,
};

verus! {

broadcast use
    vstd::std_specs::vec::group_vec_axioms,
    vstd::seq::group_seq_axioms,
    lemma_vals_view,
    lemma_entries_view,
;

/// An arithmetic (or concatenation/merge/repeat) binary operator.
#[derive(Copy, Clone, Debug, PartialEq, Eq)]
pub enum BinaryOp {
    Add,
    Sub,
    Mul,
    Div,
    Mod,
}

/// The symbol a binary operator is reported with.
pub open spec fn op_symbol(op: BinaryOp) -> Seq<char> {
    match op {
        BinaryOp::Add => "+"@,
        BinaryOp::Sub => "-"@,
        BinaryOp::Mul => "*"@,
        BinaryOp::Div => "/"@,
        BinaryOp::Mod => "%"@,
    }
}

/// View of a result of a primitive operation.
pub open spec fn res_view(r: Result<Value, QueryExecutionError>) -> Result<ValueV, ErrV> {
    match r {
        Ok(v) => Ok(v@),
        Err(e) => Err(e@),
    }
}

/// First binding of a key in an entry list.
pub open spec fn obj_get(es: Seq<(Seq<char>, ValueV)>, k: Seq<char>) -> Option<ValueV>
    decreases es.len(),
{
    if es.len() == 0 {
        None
    } else if es[0].0 == k {
        Some(es[0].1)
    } else {
        obj_get(es.drop_first(), k)
    }
}

/// Bind `k` to `v`: replace the value in place if `k` is present, else append.
pub open spec fn obj_insert(
    es: Seq<(Seq<char>, ValueV)>,
    k: Seq<char>,
    v: ValueV,
) -> Seq<(Seq<char>, ValueV)>
    decreases es.len(),
{
    if es.len() == 0 {
        seq![(k, v)]
    } else if es[0].0 == k {
        seq![(k, v)] + es.drop_first()
    } else {
        seq![es[0]] + obj_insert(es.drop_first(), k, v)
    }
}

/// Shallow right-biased merge: the left object's key order is kept, the
/// right object's new keys are appended in their order.
pub open spec fn obj_merge(
    a: Seq<(Seq<char>, ValueV)>,
    b: Seq<(Seq<char>, ValueV)>,
) -> Seq<(Seq<char>, ValueV)>
    decreases b.len(),
{
    if b.len() == 0 {
        a
    } else {
        obj_merge(obj_insert(a, b[0].0, b[0].1), b.drop_first())
    }
}

/// The values of an object's entries, in entry order.
pub open spec fn obj_values(es: Seq<(Seq<char>, ValueV)>) -> Seq<ValueV>
    decreases es.len(),
{
    if es.len() == 0 {
        Seq::empty()
    } else {
        seq![es[0].1] + obj_values(es.drop_first())
    }
}

/// `s` repeated `k` times.
pub open spec fn str_repeat(s: Seq<char>, k: nat) -> Seq<char>
    decreases k,
{
    if k == 0 {
        Seq::empty()
    } else {
        str_repeat(s, (k - 1) as nat) + s
    }
}

/// What `index(base, key)` yields.
///
/// An object indexed by a string yields the bound value, or null if the key
/// is absent; an array indexed by a whole number yields the element at that
/// position (negative counts from the end), or null if out of range; null
/// yields null for any key.  An array index that is not a whole number (or
/// not a number at all) fails with `ArrayIndexByNonInt`; an object index
/// that is not a string fails with `ObjectIndexByNonString`; any other base
/// fails with `IndexOnNonIndexable`.
pub open spec fn index_vv(b: ValueV, k: ValueV) -> Result<ValueV, ErrV> {
    match b {
        ValueV::Null => Ok(ValueV::Null),
        ValueV::Object(es) => match k {
            ValueV::Str(s) => match obj_get(es, s) {
                Some(v) => Ok(v),
                None => Ok(ValueV::Null),
            },
            _ => Err(ErrV::ObjectIndexByNonString(k)),
        },
        ValueV::Array(items) => match k {
            ValueV::Number(u) => {
                if !whole(u) {
                    Err(ErrV::ArrayIndexByNonInt(k))
                } else {
                    let i = n_trunc(u);
                    let j = if i < 0 {
                        i + items.len()
                    } else {
                        i
                    };
                    if 0 <= j < items.len() {
                        Ok(items[j])
                    } else {
                        Ok(ValueV::Null)
                    }
                }
            },
            _ => Err(ErrV::ArrayIndexByNonInt(k)),
        },
        _ => Err(ErrV::IndexOnNonIndexable(b)),
    }
}

/// Clamp a possibly negative bound into `[0, len]`, counting from the end
/// when negative.
pub open spec fn clamp_idx(i: int, len: int) -> int {
    let j = if i < 0 {
        i + len
    } else {
        i
    };
    if j < 0 {
        0
    } else if j > len {
        len
    } else {
        j
    }
}

/// Resolve one slice bound: null means absent (the default applies); a whole
/// number is clamped into range; anything else fails with `SliceByNonInt`.
pub open spec fn slice_bound(x: ValueV, dflt: int, len: int) -> Result<int, ErrV> {
    match x {
        ValueV::Null => Ok(dflt),
        ValueV::Number(u) => {
            if whole(u) {
                Ok(clamp_idx(n_trunc(u), len))
            } else {
                Err(ErrV::SliceByNonInt(x))
            }
        },
        _ => Err(ErrV::SliceByNonInt(x)),
    }
}

/// What `slice(base, lo, hi)` yields: the sub-array or sub-string between
/// the clamped bounds (empty when they cross).  The base's type is checked
/// first, then the lower bound, then the upper.
pub open spec fn slice_vv(b: ValueV, lo: ValueV, hi: ValueV) -> Result<ValueV, ErrV> {
    match b {
        ValueV::Array(items) => match slice_bound(lo, 0, items.len() as int) {
            Err(e) => Err(e),
            Ok(l) => match slice_bound(hi, items.len() as int, items.len() as int) {
                Err(e) => Err(e),
                Ok(h) => Ok(
                    ValueV::Array(
                        if l <= h {
                            items.subrange(l, h)
                        } else {
                            Seq::empty()
                        },
                    ),
                ),
            },
        },
        ValueV::Str(s) => match slice_bound(lo, 0, s.len() as int) {
            Err(e) => Err(e),
            Ok(l) => match slice_bound(hi, s.len() as int, s.len() as int) {
                Err(e) => Err(e),
                Ok(h) => Ok(
                    ValueV::Str(
                        if l <= h {
                            s.subrange(l, h)
                        } else {
                            Seq::empty()
                        },
                    ),
                ),
            },
        },
        _ => Err(ErrV::SliceOnNonArrayNorString(b)),
    }
}

/// What `iterate(base)` yields: an array's elements in order, an object's
/// values in entry order; a scalar fails with `IterateOnNonIterable`.
pub open spec fn iterate_vv(b: ValueV) -> Result<Seq<ValueV>, ErrV> {
    match b {
        ValueV::Array(items) => Ok(items),
        ValueV::Object(es) => Ok(obj_values(es)),
        _ => Err(ErrV::IterateOnNonIterable(b)),
    }
}

/// What unary negation yields: defined for numbers only.
pub open spec fn neg_vv(v: ValueV) -> Result<ValueV, ErrV> {
    match v {
        ValueV::Number(x) => Ok(ValueV::Number(n_neg(x))),
        _ => Err(ErrV::UnaryOnNonNumeric("-"@, v)),
    }
}

/// What `binary_op(op, l, r)` yields.  Dispatch is directed by the pair of
/// types: number arithmetic (with `DivModByZero` for a zero divisor),
/// string/array concatenation, right-biased object merge, and repetition of
/// a string by a whole non-negative number; every other combination fails
/// with `IncompatibleBinaryOperator`.
pub open spec fn binop_vv(op: BinaryOp, l: ValueV, r: ValueV) -> Result<ValueV, ErrV> {
    match (l, r) {
        (ValueV::Number(x), ValueV::Number(y)) => match op {
            BinaryOp::Add => Ok(ValueV::Number(n_add(x, y))),
            BinaryOp::Sub => Ok(ValueV::Number(n_sub(x, y))),
            BinaryOp::Mul => Ok(ValueV::Number(n_mul(x, y))),
            BinaryOp::Div => {
                if y == 0 {
                    Err(ErrV::DivModByZero)
                } else {
                    Ok(ValueV::Number(n_div(x, y)))
                }
            },
            BinaryOp::Mod => {
                if n_trunc(y) == 0 {
                    Err(ErrV::DivModByZero)
                } else {
                    Ok(ValueV::Number(n_mod(x, y)))
                }
            },
        },
        (ValueV::Str(a), ValueV::Str(b)) => {
            if op == BinaryOp::Add {
                Ok(ValueV::Str(a + b))
            } else {
                Err(ErrV::IncompatibleBinaryOperator(op_symbol(op), l, r))
            }
        },
        (ValueV::Array(a), ValueV::Array(b)) => {
            if op == BinaryOp::Add {
                Ok(ValueV::Array(a + b))
            } else {
                Err(ErrV::IncompatibleBinaryOperator(op_symbol(op), l, r))
            }
        },
        (ValueV::Object(a), ValueV::Object(b)) => {
            if op == BinaryOp::Add {
                Ok(ValueV::Object(obj_merge(a, b)))
            } else {
                Err(ErrV::IncompatibleBinaryOperator(op_symbol(op), l, r))
            }
        },
        (ValueV::Str(s), ValueV::Number(y)) => {
            if op == BinaryOp::Mul {
                if !whole(y) || y < 0 {
                    Err(ErrV::StringRepeatByNonUSize(y))
                } else if s.len() * n_trunc(y) > usize::MAX as int {
                    Err(ErrV::StringRepeatByNonUSize(y))
                } else {
                    Ok(ValueV::Str(str_repeat(s, n_trunc(y) as nat)))
                }
            } else {
                Err(ErrV::IncompatibleBinaryOperator(op_symbol(op), l, r))
            }
        },
        _ => Err(ErrV::IncompatibleBinaryOperator(op_symbol(op), l, r)),
    }
}

/// View of a sequence of key/value filter results.
pub open spec fn pairs_view(s: Seq<(Value, Value)>) -> Seq<(ValueV, ValueV)>
    decreases s,
{
    if s.len() == 0 {
        Seq::empty()
    } else {
        seq![(s[0].0@, s[0].1@)] + pairs_view(s.drop_first())
    }
}

/// A sequence of pairs is viewed pointwise.
pub broadcast proof fn lemma_pairs_view(s: Seq<(Value, Value)>)
    ensures
        (#[trigger] pairs_view(s)).len() == s.len(),
        forall|i: int| 0 <= i < s.len() ==> pairs_view(s)[i] == (s[i].0@, s[i].1@),
    decreases s,
{
    if s.len() > 0 {
        lemma_pairs_view(s.drop_first());
        assert(pairs_view(s) == seq![(s[0].0@, s[0].1@)] + pairs_view(s.drop_first()));
        assert forall|i: int| 0 <= i < s.len() implies pairs_view(s)[i] == (
            s[i].0@,
            s[i].1@,
        ) by {
            if i > 0 {
                assert(pairs_view(s)[i] == pairs_view(s.drop_first())[i - 1]);
                assert(s.drop_first()[i - 1] == s[i]);
            }
        }
    }
}

/// Fold key/value pairs into an entry list; a non-string key fails with
/// `ObjectNonStringKey`.
pub open spec fn build_entries(
    acc: Seq<(Seq<char>, ValueV)>,
    pairs: Seq<(ValueV, ValueV)>,
) -> Result<Seq<(Seq<char>, ValueV)>, ErrV>
    decreases pairs.len(),
{
    if pairs.len() == 0 {
        Ok(acc)
    } else {
        match pairs[0].0 {
            ValueV::Str(k) => build_entries(obj_insert(acc, k, pairs[0].1), pairs.drop_first()),
            _ => Err(ErrV::ObjectNonStringKey(pairs[0].0)),
        }
    }
}

/// What `construct_object(pairs)` yields: an object built left to right,
/// later bindings of a repeated key replacing earlier ones in place.
pub open spec fn construct_object_vv(pairs: Seq<(ValueV, ValueV)>) -> Result<ValueV, ErrV> {
    match build_entries(Seq::empty(), pairs) {
        Ok(es) => Ok(ValueV::Object(es)),
        Err(e) => Err(e),
    }
}

/// An object's value sequence is its entries' values pointwise.
pub broadcast proof fn lemma_obj_values(es: Seq<(Seq<char>, ValueV)>)
    ensures
        (#[trigger] obj_values(es)).len() == es.len(),
        forall|i: int| 0 <= i < es.len() ==> obj_values(es)[i] == es[i].1,
    decreases es.len(),
{
    if es.len() > 0 {
        lemma_obj_values(es.drop_first());
        assert(obj_values(es) == seq![es[0].1] + obj_values(es.drop_first()));
        assert forall|i: int| 0 <= i < es.len() implies obj_values(es)[i] == es[i].1 by {
            if i > 0 {
                assert(obj_values(es)[i] == obj_values(es.drop_first())[i - 1]);
                assert(es.drop_first()[i - 1] == es[i]);
            }
        }
    }
}

/// The symbol a binary operator is reported with.
pub fn op_sym(op: BinaryOp) -> (s: &'static str)
    ensures
        s@ == op_symbol(op),
{
    match op {
        BinaryOp::Add => "+",
        BinaryOp::Sub => "-",
        BinaryOp::Mul => "*",
        BinaryOp::Div => "/",
        BinaryOp::Mod => "%",
    }
}

/// First entry bound to `k`, if any.
#[verifier::loop_isolation(false)]
fn obj_find<'a>(es: &'a Vec<(Vec<char>, Value)>, k: &Vec<char>) -> (r: Option<&'a Value>)
    ensures
        match r {
            Some(v) => obj_get(entries_view(es@), k@) == Some(v@),
            None => obj_get(entries_view(es@), k@) is None,
        },
{
    let ghost ev = entries_view(es@);
    let mut i: usize = 0;
    proof {
        assert(ev.skip(0) =~= ev);
    }
    while i < es.len()
        invariant
            i <= es.len(),
            obj_get(ev.skip(i as int), k@) == obj_get(ev, k@),
        decreases es.len() - i,
    {
        proof {
            assert(ev.skip(i as int)[0] == ev[i as int]);
        }
        if chars_eq(&es[i].0, k) {
            return Some(&es[i].1);
        }
        proof {
            assert(ev.skip(i as int).drop_first() =~= ev.skip(i as int + 1));
        }
        i += 1;
    }
    proof {
        assert(ev.skip(es.len() as int) =~= Seq::<(Seq<char>, ValueV)>::empty());
    }
    None
}

/// Index a value by a key (see `index_vv`).
pub fn index(base: &Value, key: &Value) -> (r: Result<Value, QueryExecutionError>)
    ensures
        res_view(r) == index_vv(base@, key@),
{
    match base {
        Value::Null => Ok(Value::Null),
        Value::Object(es) => match key {
            Value::Str(s) => match obj_find(es, s) {
                Some(v) => Ok(v.duplicate()),
                None => Ok(Value::Null),
            },
            _ => Err(QueryExecutionError::ObjectIndexByNonString(key.duplicate())),
        },
        Value::Array(items) => match key {
            Value::Number(n) => {
                proof {
                    lemma_vals_view(items@);
                }
                if !n.is_whole() {
                    Err(QueryExecutionError::ArrayIndexByNonInt(key.duplicate()))
                } else {
                    let i = n.trunc();
                    let j: i128 = if i < 0 {
                        i as i128 + items.len() as i128
                    } else {
                        i as i128
                    };
                    if 0 <= j && j < items.len() as i128 {
                        Ok(items[j as usize].duplicate())
                    } else {
                        Ok(Value::Null)
                    }
                }
            },
            _ => Err(QueryExecutionError::ArrayIndexByNonInt(key.duplicate())),
        },
        _ => Err(QueryExecutionError::IndexOnNonIndexable(base.duplicate())),
    }
}

/// Resolve one slice bound (see `slice_bound`).
fn slice_bound_exec(x: &Value, dflt: usize, len: usize) -> (r: Result<
    usize,
    QueryExecutionError,
>)
    requires
        dflt <= len,
    ensures
        match r {
            Ok(i) => slice_bound(x@, dflt as int, len as int) == Ok::<int, ErrV>(i as int) && i
                <= len,
            Err(e) => slice_bound(x@, dflt as int, len as int) == Err::<int, ErrV>(e@),
        },
{
    match x {
        Value::Null => Ok(dflt),
        Value::Number(n) => {
            if n.is_whole() {
                let i = n.trunc();
                let j: i128 = if i < 0 {
                    i as i128 + len as i128
                } else {
                    i as i128
                };
                if j < 0 {
                    Ok(0)
                } else if j > len as i128 {
                    Ok(len)
                } else {
                    Ok(j as usize)
                }
            } else {
                Err(QueryExecutionError::SliceByNonInt(x.duplicate()))
            }
        },
        _ => Err(QueryExecutionError::SliceByNonInt(x.duplicate())),
    }
}

/// Slice an array between two resolved bound values.
#[verifier::loop_isolation(false)]
fn slice_items(items: &Vec<Value>, lo: &Value, hi: &Value) -> (r: Result<
    Value,
    QueryExecutionError,
>)
    ensures
        res_view(r) == slice_vv(ValueV::Array(vals_view(items@)), lo@, hi@),
{
    let l = match slice_bound_exec(lo, 0, items.len()) {
        Ok(l) => l,
        Err(e) => {
            return Err(e);
        },
    };
    let h = match slice_bound_exec(hi, items.len(), items.len()) {
        Ok(h) => h,
        Err(e) => {
            return Err(e);
        },
    };
    let mut out: Vec<Value> = Vec::new();
    if l <= h {
        let mut i: usize = l;
        while i < h
            invariant
                l <= i <= h,
                out@.len() == i - l,
                forall|t: int| 0 <= t < out@.len() ==> out@[t]@ == items@[l + t]@,
            decreases h - i,
        {
            out.push(items[i].duplicate());
            i += 1;
        }
    }
    proof {
        if l <= h {
            assert(vals_view(out@) =~= vals_view(items@).subrange(l as int, h as int));
        } else {
            assert(vals_view(out@) =~= Seq::<ValueV>::empty());
        }
    }
    Ok(Value::Array(out))
}

/// Slice a text value between two resolved bound values.
#[verifier::loop_isolation(false)]
fn slice_text(s: &Vec<char>, lo: &Value, hi: &Value) -> (r: Result<Value, QueryExecutionError>)
    ensures
        res_view(r) == slice_vv(ValueV::Str(s@), lo@, hi@),
{
    let l = match slice_bound_exec(lo, 0, s.len()) {
        Ok(l) => l,
        Err(e) => {
            return Err(e);
        },
    };
    let h = match slice_bound_exec(hi, s.len(), s.len()) {
        Ok(h) => h,
        Err(e) => {
            return Err(e);
        },
    };
    let mut out: Vec<char> = Vec::new();
    if l <= h {
        let mut i: usize = l;
        while i < h
            invariant
                l <= i <= h,
                out@ =~= s@.subrange(l as int, i as int),
            decreases h - i,
        {
            out.push(s[i]);
            i += 1;
            proof {
                assert(out@ =~= s@.subrange(l as int, i as int));
            }
        }
    }
    proof {
        if l <= h {
            assert(out@ =~= s@.subrange(l as int, h as int));
        } else {
            assert(out@ =~= Seq::<char>::empty());
        }
    }
    Ok(Value::Str(out))
}

/// Slice a value between two bounds (see `slice_vv`); a null bound is an
/// absent one.
pub fn slice(base: &Value, lo: &Value, hi: &Value) -> (r: Result<Value, QueryExecutionError>)
    ensures
        res_view(r) == slice_vv(base@, lo@, hi@),
{
    match base {
        Value::Array(items) => slice_items(items, lo, hi),
        Value::Str(s) => slice_text(s, lo, hi),
        _ => Err(QueryExecutionError::SliceOnNonArrayNorString(base.duplicate())),
    }
}

/// Enumerate a value's elements (see `iterate_vv`).
#[verifier::loop_isolation(false)]
pub fn iterate(base: &Value) -> (r: Result<Vec<Value>, QueryExecutionError>)
    ensures
        match r {
            Ok(vs) => iterate_vv(base@) == Ok::<Seq<ValueV>, ErrV>(vals_view(vs@)),
            Err(e) => iterate_vv(base@) == Err::<Seq<ValueV>, ErrV>(e@),
        },
{
    match base {
        Value::Array(items) => Ok(vals_dup(items)),
        Value::Object(es) => {
            let mut out: Vec<Value> = Vec::new();
            let mut i: usize = 0;
            while i < es.len()
                invariant
                    i <= es.len(),
                    out@.len() == i,
                    forall|t: int| 0 <= t < i ==> out@[t]@ == es@[t].1@,
                decreases es.len() - i,
            {
                out.push(es[i].1.duplicate());
                i += 1;
            }
            proof {
                lemma_obj_values(entries_view(es@));
                assert(vals_view(out@) =~= obj_values(entries_view(es@)));
            }
            Ok(out)
        },
        _ => Err(QueryExecutionError::IterateOnNonIterable(base.duplicate())),
    }
}

/// Negate a numeric value (see `neg_vv`).
pub fn unary_negate(v: &Value) -> (r: Result<Value, QueryExecutionError>)
    ensures
        res_view(r) == neg_vv(v@),
{
    match v {
        Value::Number(n) => Ok(Value::Number(n.neg())),
        _ => Err(QueryExecutionError::UnaryOnNonNumeric("-", v.duplicate())),
    }
}

/// Exact copy of an entry list.
fn entries_dup(a: &Vec<(Vec<char>, Value)>) -> (r: Vec<(Vec<char>, Value)>)
    ensures
        entries_view(r@) == entries_view(a@),
{
    let mut out: Vec<(Vec<char>, Value)> = Vec::new();
    let mut i: usize = 0;
    while i < a.len()
        invariant
            i <= a.len(),
            out@.len() == i,
            forall|j: int| 0 <= j < i ==> out@[j].0@ == a@[j].0@ && out@[j].1@ == a@[j].1@,
        decreases a.len() - i,
    {
        out.push((chars_dup(&a[i].0), a[i].1.duplicate()));
        i += 1;
    }
    proof {
        assert(entries_view(out@) =~= entries_view(a@));
    }
    out
}

/// Bind `k` to `v` in the entries from position `i` on (see `obj_insert`).
#[verifier::loop_isolation(false)]
fn obj_insert_from(es: &Vec<(Vec<char>, Value)>, i: usize, k: &Vec<char>, v: &Value) -> (r: Vec<
    (Vec<char>, Value),
>)
    requires
        i <= es.len(),
    ensures
        entries_view(r@) == obj_insert(entries_view(es@).skip(i as int), k@, v@),
    decreases es.len() - i,
{
    let ghost tail = entries_view(es@).skip(i as int);
    if i == es.len() {
        let mut out: Vec<(Vec<char>, Value)> = Vec::new();
        out.push((chars_dup(k), v.duplicate()));
        proof {
            assert(tail =~= Seq::<(Seq<char>, ValueV)>::empty());
            assert(entries_view(out@) =~= obj_insert(tail, k@, v@));
        }
        out
    } else {
        proof {
            assert(tail[0] == entries_view(es@)[i as int]);
        }
        if chars_eq(&es[i].0, k) {
            let mut out: Vec<(Vec<char>, Value)> = Vec::new();
            out.push((chars_dup(k), v.duplicate()));
            let mut j: usize = i + 1;
            while j < es.len()
                invariant
                    i + 1 <= j <= es.len(),
                    out@.len() == j - i,
                    out@[0].0@ == k@ && out@[0].1@ == v@,
                    forall|t: int|
                        1 <= t < out@.len() ==> out@[t].0@ == es@[i + t].0@ && out@[t].1@
                            == es@[i + t].1@,
                decreases es.len() - j,
            {
                out.push((chars_dup(&es[j].0), es[j].1.duplicate()));
                j += 1;
            }
            proof {
                assert(tail.drop_first() =~= entries_view(es@).skip(i as int + 1));
                assert(entries_view(out@) =~= seq![(k@, v@)] + tail.drop_first());
            }
            out
        } else {
            let mut rest = obj_insert_from(es, i + 1, k, v);
            rest.insert(0, (chars_dup(&es[i].0), es[i].1.duplicate()));
            proof {
                assert(tail.drop_first() =~= entries_view(es@).skip(i as int + 1));
                assert(entries_view(rest@) =~= seq![tail[0]] + obj_insert(
                    tail.drop_first(),
                    k@,
                    v@,
                ));
            }
            rest
        }
    }
}

/// Right-biased shallow merge of two objects' entries (see `obj_merge`).
#[verifier::loop_isolation(false)]
fn merge_objects(a: &Vec<(Vec<char>, Value)>, b: &Vec<(Vec<char>, Value)>) -> (r: Vec<
    (Vec<char>, Value),
>)
    ensures
        entries_view(r@) == obj_merge(entries_view(a@), entries_view(b@)),
{
    let ghost bv = entries_view(b@);
    let mut acc = entries_dup(a);
    let mut i: usize = 0;
    proof {
        assert(bv.skip(0) =~= bv);
    }
    while i < b.len()
        invariant
            i <= b.len(),
            obj_merge(entries_view(acc@), bv.skip(i as int)) == obj_merge(
                entries_view(a@),
                bv,
            ),
        decreases b.len() - i,
    {
        proof {
            assert(bv.skip(i as int)[0] == bv[i as int]);
            assert(bv.skip(i as int).drop_first() =~= bv.skip(i as int + 1));
        }
        let next = obj_insert_from(&acc, 0, &b[i].0, &b[i].1);
        proof {
            assert(entries_view(acc@).skip(0) =~= entries_view(acc@));
        }
        acc = next;
        i += 1;
    }
    proof {
        assert(bv.skip(b.len() as int) =~= Seq::<(Seq<char>, ValueV)>::empty());
    }
    acc
}

/// Apply a binary operator to two values (see `binop_vv`).
#[verifier::loop_isolation(false)]
pub fn binary_op(op: BinaryOp, lhs: &Value, rhs: &Value) -> (r: Result<
    Value,
    QueryExecutionError,
>)
    ensures
        res_view(r) == binop_vv(op, lhs@, rhs@),
{
    match (lhs, rhs) {
        (Value::Number(x), Value::Number(y)) => match op {
            BinaryOp::Add => Ok(Value::Number(x.add(*y))),
            BinaryOp::Sub => Ok(Value::Number(x.sub(*y))),
            BinaryOp::Mul => Ok(Value::Number(x.mul(*y))),
            BinaryOp::Div => {
                if y.units == 0 {
                    Err(QueryExecutionError::DivModByZero)
                } else {
                    Ok(Value::Number(x.div(*y)))
                }
            },
            BinaryOp::Mod => {
                if y.trunc() == 0 {
                    Err(QueryExecutionError::DivModByZero)
                } else {
                    Ok(Value::Number(x.rem(*y)))
                }
            },
        },
        (Value::Str(a), Value::Str(b)) => {
            if matches!(op, BinaryOp::Add) {
                let mut out = chars_dup(a);
                let mut tail = chars_dup(b);
                out.append(&mut tail);
                Ok(Value::Str(out))
            } else {
                Err(
                    QueryExecutionError::IncompatibleBinaryOperator(
                        op_sym(op),
                        lhs.duplicate(),
                        rhs.duplicate(),
                    ),
                )
            }
        },
        (Value::Array(a), Value::Array(b)) => {
            if matches!(op, BinaryOp::Add) {
                let mut out = vals_dup(a);
                let mut tail = vals_dup(b);
                out.append(&mut tail);
                proof {
                    assert(vals_view(out@) =~= vals_view(a@) + vals_view(b@));
                }
                Ok(Value::Array(out))
            } else {
                Err(
                    QueryExecutionError::IncompatibleBinaryOperator(
                        op_sym(op),
                        lhs.duplicate(),
                        rhs.duplicate(),
                    ),
                )
            }
        },
        (Value::Object(a), Value::Object(b)) => {
            if matches!(op, BinaryOp::Add) {
                Ok(Value::Object(merge_objects(a, b)))
            } else {
                Err(
                    QueryExecutionError::IncompatibleBinaryOperator(
                        op_sym(op),
                        lhs.duplicate(),
                        rhs.duplicate(),
                    ),
                )
            }
        },
        (Value::Str(s), Value::Number(y)) => {
            if matches!(op, BinaryOp::Mul) {
                if !y.is_whole() || y.units < 0 {
                    Err(QueryExecutionError::StringRepeatByNonUSize(*y))
                } else {
                    let k = y.trunc();
                    let sl = s.len();
                    proof {
                        assert((sl as u128) * (k as u128) < u128::MAX as u128)
                            by (nonlinear_arith)
                            requires
                                sl as int <= u64::MAX as int,
                                0 <= k as int <= 9_223_372_036,
                        ;
                    }
                    if (sl as u128) * (k as u128) > usize::MAX as u128 {
                        Err(QueryExecutionError::StringRepeatByNonUSize(*y))
                    } else {
                        let mut out: Vec<char> = Vec::new();
                        let mut t: i64 = 0;
                        while t < k
                            invariant
                                0 <= t <= k,
                                out@ == str_repeat(s@, t as nat),
                            decreases k - t,
                        {
                            let mut j: usize = 0;
                            while j < s.len()
                                invariant
                                    j <= s.len(),
                                    out@ == str_repeat(s@, t as nat) + s@.take(j as int),
                                decreases s.len() - j,
                            {
                                out.push(s[j]);
                                proof {
                                    assert(str_repeat(s@, t as nat) + s@.take(j as int + 1)
                                        =~= out@);
                                }
                                j += 1;
                            }
                            t += 1;
                            proof {
                                assert(str_repeat(s@, t as nat) == str_repeat(
                                    s@,
                                    (t - 1) as nat,
                                ) + s@);
                                assert(s@.take(s@.len() as int) =~= s@);
                            }
                        }
                        Ok(Value::Str(out))
                    }
                }
            } else {
                Err(
                    QueryExecutionError::IncompatibleBinaryOperator(
                        op_sym(op),
                        lhs.duplicate(),
                        rhs.duplicate(),
                    ),
                )
            }
        },
        _ => Err(
            QueryExecutionError::IncompatibleBinaryOperator(
                op_sym(op),
                lhs.duplicate(),
                rhs.duplicate(),
            ),
        ),
    }
}

/// Build an object from key/value pairs (see `construct_object_vv`).
#[verifier::loop_isolation(false)]
pub fn construct_object(pairs: &Vec<(Value, Value)>) -> (r: Result<Value, QueryExecutionError>)
    ensures
        res_view(r) == construct_object_vv(pairs_view(pairs@)),
{
    broadcast use lemma_pairs_view;

    let ghost pv = pairs_view(pairs@);
    let mut acc: Vec<(Vec<char>, Value)> = Vec::new();
    let mut i: usize = 0;
    proof {
        assert(pv.skip(0) =~= pv);
        assert(entries_view(acc@) =~= Seq::<(Seq<char>, ValueV)>::empty());
    }
    while i < pairs.len()
        invariant
            i <= pairs.len(),
            build_entries(entries_view(acc@), pv.skip(i as int)) == build_entries(
                Seq::empty(),
                pv,
            ),
        decreases pairs.len() - i,
    {
        proof {
            assert(pv.skip(i as int)[0] == pv[i as int]);
            assert(pv.skip(i as int).drop_first() =~= pv.skip(i as int + 1));
        }
        match &pairs[i].0 {
            Value::Str(k) => {
                let next = obj_insert_from(&acc, 0, k, &pairs[i].1);
                proof {
                    assert(entries_view(acc@).skip(0) =~= entries_view(acc@));
                }
                acc = next;
            },
            _ => {
                return Err(QueryExecutionError::ObjectNonStringKey(pairs[i].0.duplicate()));
            },
        }
        i += 1;
    }
    proof {
        assert(pv.skip(pairs.len() as int) =~= Seq::<(ValueV, ValueV)>::empty());
    }
    Ok(Value::Object(acc))
}

/// The shared integrality check: the whole value of a number that must be
/// an integer, or `NonIntegralNumber`.
pub fn require_integer(n: Number) -> (r: Result<i64, QueryExecutionError>)
    ensures
        match r {
            Ok(i) => whole(n@) && i as int == n_trunc(n@),
            Err(e) => !whole(n@) && e@ == ErrV::NonIntegralNumber(n@),
        },
{
    if n.is_whole() {
        Ok(n.trunc())
    } else {
        Err(QueryExecutionError::NonIntegralNumber(n))
    }
}

} // verus!
