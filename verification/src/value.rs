//! The immutable JSON value model.
//!
//! A `Value` is a tagged union of null, booleans, fixed-point numbers,
//! text (as a vector of characters), arrays, and objects (entry lists with
//! unique keys in insertion order).  Values are never mutated: every
//! operation builds new values.  The mathematical model of a value is
//! `ValueV`, built from `Seq` and `int`; every contract of the library
//! speaks of values through that view.

use vstd::prelude::*;

use crate::number::Number;

verus! {

broadcast use vstd::std_specs::vec::group_vec_axioms, vstd::seq::group_seq_axioms;

/// Mathematical model of a JSON value.
#[verifier::ext_equal]
pub enum ValueV {
    Null,
    Boolean(bool),
    /// The unit count of a fixed-point number (see `number`).
    Number(int),
    Str(Seq<char>),
    Array(Seq<ValueV>),
    /// Entries in insertion order; keys are unique.
    Object(Seq<(Seq<char>, ValueV)>),
}

/// A JSON value.
#[derive(Debug, PartialEq, Eq)]
pub enum Value {
    Null,
    Boolean(bool),
    Number(Number),
    /// UTF-8 text as its sequence of characters.
    Str(Vec<char>),
    Array(Vec<Value>),
    /// Entries in insertion order; keys are unique.
    Object(Vec<(Vec<char>, Value)>),
}

/// View of a sequence of values, element by element.
pub open spec fn vals_view(s: Seq<Value>) -> Seq<ValueV>
    decreases s,
{
    if s.len() == 0 {
        Seq::empty()
    } else {
        seq![s[0]@] + vals_view(s.drop_first())
    }
}

/// View of an object's entry list, entry by entry.
pub open spec fn entries_view(s: Seq<(Vec<char>, Value)>) -> Seq<(Seq<char>, ValueV)>
    decreases s,
{
    if s.len() == 0 {
        Seq::empty()
    } else {
        seq![(s[0].0@, s[0].1@)] + entries_view(s.drop_first())
    }
}

impl View for Value {
    type V = ValueV;

    open spec fn view(&self) -> ValueV
        decreases self,
    {
        match self {
            Value::Null => ValueV::Null,
            Value::Boolean(b) => ValueV::Boolean(*b),
            Value::Number(n) => ValueV::Number(n@),
            Value::Str(s) => ValueV::Str(s@),
            Value::Array(items) => ValueV::Array(vals_view(items@)),
            Value::Object(entries) => ValueV::Object(entries_view(entries@)),
        }
    }
}

/// A sequence of values is viewed pointwise.
pub broadcast proof fn lemma_vals_view(s: Seq<Value>)
    ensures
        (#[trigger] vals_view(s)).len() == s.len(),
        forall|i: int| 0 <= i < s.len() ==> vals_view(s)[i] == s[i]@,
    decreases s,
{
    if s.len() == 0 {
        assert(vals_view(s) == Seq::<ValueV>::empty());
    } else {
        lemma_vals_view(s.drop_first());
        assert(vals_view(s) == seq![s[0]@] + vals_view(s.drop_first()));
        assert forall|i: int| 0 <= i < s.len() implies vals_view(s)[i] == s[i]@ by {
            if i > 0 {
                assert(vals_view(s)[i] == vals_view(s.drop_first())[i - 1]);
                assert(s.drop_first()[i - 1] == s[i]);
            }
        }
    }
}

/// An entry list is viewed pointwise.
pub broadcast proof fn lemma_entries_view(s: Seq<(Vec<char>, Value)>)
    ensures
        (#[trigger] entries_view(s)).len() == s.len(),
        forall|i: int|
            0 <= i < s.len() ==> entries_view(s)[i] == (s[i].0@, s[i].1@),
    decreases s,
{
    if s.len() == 0 {
        assert(entries_view(s) == Seq::<(Seq<char>, ValueV)>::empty());
    } else {
        lemma_entries_view(s.drop_first());
        assert(entries_view(s) == seq![(s[0].0@, s[0].1@)] + entries_view(s.drop_first()));
        assert forall|i: int| 0 <= i < s.len() implies entries_view(s)[i] == (
            s[i].0@,
            s[i].1@,
        ) by {
            if i > 0 {
                assert(entries_view(s)[i] == entries_view(s.drop_first())[i - 1]);
                assert(s.drop_first()[i - 1] == s[i]);
            }
        }
    }
}

/// Whether a value counts as true in a conditional: everything but
/// `null` and `false`.
pub open spec fn truthy_vv(v: ValueV) -> bool {
    !(v == ValueV::Null || v == ValueV::Boolean(false))
}

/// Exact copy of a character vector.
pub fn chars_dup(a: &Vec<char>) -> (r: Vec<char>)
    ensures
        r@ == a@,
{
    let mut out: Vec<char> = Vec::new();
    let mut i: usize = 0;
    while i < a.len()
        invariant
            i <= a.len(),
            out@ =~= a@.take(i as int),
        decreases a.len() - i,
    {
        out.push(a[i]);
        i += 1;
    }
    proof {
        assert(out@ =~= a@);
    }
    out
}

/// Whether two character vectors hold the same text.
pub fn chars_eq(a: &Vec<char>, b: &Vec<char>) -> (r: bool)
    ensures
        r == (a@ == b@),
{
    if a.len() != b.len() {
        return false;
    }
    let mut i: usize = 0;
    while i < a.len()
        invariant
            i <= a.len(),
            a.len() == b.len(),
            forall|j: int| 0 <= j < i ==> a@[j] == b@[j],
        decreases a.len() - i,
    {
        if a[i] != b[i] {
            return false;
        }
        i += 1;
    }
    proof {
        assert(a@ =~= b@);
    }
    true
}

impl Value {
    /// Whether this value counts as true in a conditional.
    pub fn truthy(&self) -> (r: bool)
        ensures
            r == truthy_vv(self@),
    {
        match self {
            Value::Null => false,
            Value::Boolean(b) => *b,
            _ => true,
        }
    }

    /// A structurally equal copy of this value.
    #[verifier::loop_isolation(false)]
    pub fn duplicate(&self) -> (r: Value)
        ensures
            r@ == self@,
        decreases self,
    {
        match self {
            Value::Null => Value::Null,
            Value::Boolean(b) => Value::Boolean(*b),
            Value::Number(n) => Value::Number(*n),
            Value::Str(s) => Value::Str(chars_dup(s)),
            Value::Array(items) => {
                let mut out: Vec<Value> = Vec::new();
                let mut i: usize = 0;
                while i < items.len()
                    invariant
                        i <= items.len(),
                        out@.len() == i,
                        forall|j: int| 0 <= j < i ==> out@[j]@ == items@[j]@,
                    decreases items.len() - i,
                {
                    proof {
                        assert(decreases_to!(*items => items@[i as int]));
                    }
                    out.push(items[i].duplicate());
                    i += 1;
                }
                proof {
                    lemma_vals_view(out@);
                    lemma_vals_view(items@);
                    assert(vals_view(out@) =~= vals_view(items@));
                }
                Value::Array(out)
            },
            Value::Object(entries) => {
                let mut out: Vec<(Vec<char>, Value)> = Vec::new();
                let mut i: usize = 0;
                while i < entries.len()
                    invariant
                        i <= entries.len(),
                        out@.len() == i,
                        forall|j: int|
                            0 <= j < i ==> out@[j].0@ == entries@[j].0@ && out@[j].1@
                                == entries@[j].1@,
                    decreases entries.len() - i,
                {
                    proof {
                        assert(decreases_to!(*entries => entries@[i as int]));
                    }
                    let e = &entries[i];
                    out.push((chars_dup(&e.0), e.1.duplicate()));
                    i += 1;
                }
                proof {
                    lemma_entries_view(out@);
                    lemma_entries_view(entries@);
                    assert(entries_view(out@) =~= entries_view(entries@));
                }
                Value::Object(out)
            },
        }
    }
}

/// Exact copies of a vector of values.
pub fn vals_dup(a: &Vec<Value>) -> (r: Vec<Value>)
    ensures
        vals_view(r@) == vals_view(a@),
        r@.len() == a@.len(),
{
    let mut out: Vec<Value> = Vec::new();
    let mut i: usize = 0;
    while i < a.len()
        invariant
            i <= a.len(),
            out@.len() == i,
            forall|j: int| 0 <= j < i ==> out@[j]@ == a@[j]@,
        decreases a.len() - i,
    {
        out.push(a[i].duplicate());
        i += 1;
    }
    proof {
        lemma_vals_view(out@);
        lemma_vals_view(a@);
        assert(vals_view(out@) =~= vals_view(a@));
    }
    out
}

} // verus!
