//! The chained, lexically scoped evaluation environment.
//!
//! An `Env` is an immutable node: the current subject, a variable binding,
//! or a function definition, each holding a shared handle to its parent.
//! Creating a child environment references the parent instead of copying it.
//! The mathematical model of a chain is the sequence of its frames, oldest
//! first; lookups walk from the newest frame, so the innermost binding wins.

use std::rc::Rc;
use vstd::prelude::*;

use crate::ast::Ast;
use crate::value::{chars_dup, chars_eq, Value, ValueV};

verus! {

broadcast use vstd::std_specs::vec::group_vec_axioms, vstd::seq::group_seq_axioms;

/// One frame of an environment chain, as the model sees it.
#[verifier::ext_equal]
pub enum FrameV {
    /// The current subject value.
    Subj(ValueV),
    /// A variable binding.
    Var(Seq<char>, ValueV),
    /// A function definition: name, formal parameters, body.
    Fun(Seq<char>, Seq<Seq<char>>, Ast),
}

/// View of a parameter-name list.
pub open spec fn params_view(s: Seq<Vec<char>>) -> Seq<Seq<char>> {
    s.map_values(|p: Vec<char>| p@)
}

/// An immutable environment node.
pub enum Env {
    /// The root of a chain: the input document as subject.
    Root { subject: Value },
    /// A changed subject.
    Subject { subject: Value, parent: Rc<Env> },
    /// A variable binding, shadowing outer bindings of the same name.
    Var { name: Vec<char>, value: Value, parent: Rc<Env> },
    /// A function definition; its body's scope is the chain up to and
    /// including this node, so the function can call itself.
    Fun { name: Vec<char>, params: Vec<Vec<char>>, body: Rc<Ast>, parent: Rc<Env> },
}

impl View for Env {
    type V = Seq<FrameV>;

    open spec fn view(&self) -> Seq<FrameV>
        decreases self,
    {
        match self {
            Env::Root { subject } => seq![FrameV::Subj(subject@)],
            Env::Subject { subject, parent } => (**parent).view().push(FrameV::Subj(subject@)),
            Env::Var { name, value, parent } => (**parent).view().push(
                FrameV::Var(name@, value@),
            ),
            Env::Fun { name, params, body, parent } => (**parent).view().push(
                FrameV::Fun(name@, params_view(params@), **body),
            ),
        }
    }
}

/// The current subject: the newest subject frame.
pub open spec fn subject_of(env: Seq<FrameV>) -> ValueV
    decreases env.len(),
{
    if env.len() == 0 {
        ValueV::Null
    } else {
        match env.last() {
            FrameV::Subj(v) => v,
            _ => subject_of(env.drop_last()),
        }
    }
}

/// The nearest binding of a variable, if any.
pub open spec fn lookup_var(env: Seq<FrameV>, name: Seq<char>) -> Option<ValueV>
    decreases env.len(),
{
    if env.len() == 0 {
        None
    } else {
        match env.last() {
            FrameV::Var(n, v) => {
                if n == name {
                    Some(v)
                } else {
                    lookup_var(env.drop_last(), name)
                }
            },
            _ => lookup_var(env.drop_last(), name),
        }
    }
}

/// The nearest definition of a function with the given name and arity:
/// the chain up to and including its frame (the function's own scope),
/// its formal parameters, and its body.
pub open spec fn lookup_fun(env: Seq<FrameV>, name: Seq<char>, arity: nat) -> Option<
    (Seq<FrameV>, Seq<Seq<char>>, Ast),
>
    decreases env.len(),
{
    if env.len() == 0 {
        None
    } else {
        match env.last() {
            FrameV::Fun(n, ps, b) => {
                if n == name && ps.len() == arity {
                    Some((env, ps, b))
                } else {
                    lookup_fun(env.drop_last(), name, arity)
                }
            },
            _ => lookup_fun(env.drop_last(), name, arity),
        }
    }
}

/// A found definition's parameter count is the arity looked up.
pub proof fn lemma_lookup_fun_arity(env: Seq<FrameV>, name: Seq<char>, arity: nat)
    ensures
        lookup_fun(env, name, arity) matches Some(f) ==> f.1.len() == arity,
    decreases env.len(),
{
    if env.len() > 0 {
        lemma_lookup_fun_arity(env.drop_last(), name, arity);
    }
}

/// Relies on `Rc::clone`: the returned handle refers to the same shared
/// value, without copying it.
#[verifier::external_body]
pub(crate) fn rc_dup<T>(e: &Rc<T>) -> (r: Rc<T>)
    ensures
        r == *e,
{
    Rc::clone(e)
}

impl Env {
    /// The root environment for one input document.
    pub fn root(subject: Value) -> (e: Env)
        ensures
            e@ == seq![FrameV::Subj(subject@)],
    {
        Env::Root { subject }
    }

    /// A child with a new current subject and the same bindings.
    pub fn with_subject(parent: Rc<Env>, subject: Value) -> (e: Env)
        ensures
            e@ == parent@.push(FrameV::Subj(subject@)),
    {
        Env::Subject { subject, parent }
    }

    /// A child with one more variable binding, shadowing outer ones.
    pub fn bind_variable(parent: Rc<Env>, name: Vec<char>, value: Value) -> (e: Env)
        ensures
            e@ == parent@.push(FrameV::Var(name@, value@)),
    {
        Env::Var { name, value, parent }
    }

    /// A child that defines a function; the closure captures the chain at
    /// the definition, so the body sees definition-site bindings only.
    pub fn define_function(parent: Rc<Env>, name: Vec<char>, params: Vec<Vec<char>>, body: Rc<
        Ast,
    >) -> (e: Env)
        ensures
            e@ == parent@.push(FrameV::Fun(name@, params_view(params@), *body)),
    {
        Env::Fun { name, params, body, parent }
    }

    /// The current subject value.
    pub fn subject(&self) -> (r: &Value)
        ensures
            r@ == subject_of(self@),
        decreases self,
    {
        match self {
            Env::Root { subject } => {
                proof {
                    assert(self@ =~= seq![FrameV::Subj(subject@)]);
                    assert(subject_of(self@) == subject@);
                }
                subject
            },
            Env::Subject { subject, parent } => {
                proof {
                    assert(self@ =~= (**parent)@.push(FrameV::Subj(subject@)));
                    assert(self@.last() == FrameV::Subj(subject@));
                    assert(subject_of(self@) == subject@);
                }
                subject
            },
            Env::Var { name, value, parent } => {
                proof {
                    assert(self@.drop_last() =~= (**parent)@);
                    assert(self@.last() == FrameV::Var(name@, value@));
                    assert(subject_of(self@) == subject_of((**parent)@));
                }
                (**parent).subject()
            },
            Env::Fun { name, params, body, parent } => {
                proof {
                    assert(self@.drop_last() =~= (**parent)@);
                }
                (**parent).subject()
            },
        }
    }

    /// The nearest binding of a variable, if any.
    pub fn lookup_variable(&self, name: &Vec<char>) -> (r: Option<&Value>)
        ensures
            match r {
                Some(v) => lookup_var(self@, name@) == Some(v@),
                None => lookup_var(self@, name@) is None,
            },
        decreases self,
    {
        match self {
            Env::Root { subject } => {
                proof {
                    assert(self@ =~= seq![FrameV::Subj(subject@)]);
                    assert(self@.drop_last() =~= Seq::<FrameV>::empty());
                    assert(lookup_var(Seq::<FrameV>::empty(), name@) is None);
                    assert(lookup_var(self@, name@) is None);
                }
                None
            },
            Env::Subject { subject, parent } => {
                proof {
                    assert(self@.drop_last() =~= (**parent)@);
                    assert(self@.last() == FrameV::Subj(subject@));
                    assert(lookup_var(self@, name@) == lookup_var((**parent)@, name@));
                }
                (**parent).lookup_variable(name)
            },
            Env::Var { name: n, value, parent } => {
                proof {
                    assert(self@.drop_last() =~= (**parent)@);
                    assert(self@.last() == FrameV::Var(n@, value@));
                }
                if chars_eq(n, name) {
                    proof {
                        assert(lookup_var(self@, name@) == Some(value@));
                    }
                    Some(value)
                } else {
                    proof {
                        assert(lookup_var(self@, name@) == lookup_var((**parent)@, name@));
                    }
                    (**parent).lookup_variable(name)
                }
            },
            Env::Fun { name: n, params, body, parent } => {
                proof {
                    assert(self@.drop_last() =~= (**parent)@);
                    assert(self@.last() == FrameV::Fun(n@, params_view(params@), **body));
                    assert(lookup_var(self@, name@) == lookup_var((**parent)@, name@));
                }
                (**parent).lookup_variable(name)
            },
        }
    }
}

/// The nearest definition of a function with the given name and arity: a
/// handle to its node (the function's own scope), its parameters and body.
pub fn lookup_function<'a>(env: &'a Rc<Env>, name: &Vec<char>, arity: usize) -> (r: Option<
    (Rc<Env>, &'a Vec<Vec<char>>, &'a Rc<Ast>),
>)
    ensures
        match r {
            Some(t) => lookup_fun(env@, name@, arity as nat) == Some(
                (t.0@, params_view(t.1@), **t.2),
            ),
            None => lookup_fun(env@, name@, arity as nat) is None,
        },
    decreases **env,
{
    match &**env {
        Env::Root { subject } => {
            proof {
                assert(env@ =~= seq![FrameV::Subj(subject@)]);
                assert(env@.drop_last() =~= Seq::<FrameV>::empty());
                assert(lookup_fun(Seq::<FrameV>::empty(), name@, arity as nat) is None);
                assert(lookup_fun(env@, name@, arity as nat) is None);
            }
            None
        },
        Env::Subject { subject, parent } => {
            proof {
                assert(env@.drop_last() =~= (**parent)@);
                assert(env@.last() == FrameV::Subj(subject@));
                assert(lookup_fun(env@, name@, arity as nat) == lookup_fun(
                    (**parent)@,
                    name@,
                    arity as nat,
                ));
            }
            lookup_function(parent, name, arity)
        },
        Env::Var { name: n, value, parent } => {
            proof {
                assert(env@.drop_last() =~= (**parent)@);
                assert(env@.last() == FrameV::Var(n@, value@));
                assert(lookup_fun(env@, name@, arity as nat) == lookup_fun(
                    (**parent)@,
                    name@,
                    arity as nat,
                ));
            }
            lookup_function(parent, name, arity)
        },
        Env::Fun { name: n, params, body, parent } => {
            proof {
                assert(env@.drop_last() =~= (**parent)@);
                assert(env@.last() == FrameV::Fun(n@, params_view(params@), **body));
                assert(params_view(params@).len() == params@.len());
            }
            if chars_eq(n, name) && params.len() == arity {
                proof {
                    assert(lookup_fun(env@, name@, arity as nat) == Some(
                        (env@, params_view(params@), **body),
                    ));
                }
                Some((rc_dup(env), params, body))
            } else {
                proof {
                    assert(lookup_fun(env@, name@, arity as nat) == lookup_fun(
                        (**parent)@,
                        name@,
                        arity as nat,
                    ));
                }
                lookup_function(parent, name, arity)
            }
        },
    }
}

} // verus!
