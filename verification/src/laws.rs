//! General properties of the engine, stated once for all inputs and proved
//! from the semantics.

use vstd::prelude::*;

use crate::ast::Ast;
use crate::env::{lookup_var, subject_of, FrameV};
use crate::sem::{self, emitted, Out};
use crate::value::ValueV;

verus! {

/// The identity filter emits exactly one value: the subject, unchanged.
pub proof fn law_identity(fuel: nat, env: Seq<FrameV>)
    ensures
        sem::eval(fuel, Ast::Identity, env) == Out::Done(seq![subject_of(env)]),
{
}

/// Comma order: when both sides complete, the node emits the whole left
/// stream, then the whole right stream.
pub proof fn law_comma_order(fuel: nat, node: Ast, env: Seq<FrameV>)
    requires
        node matches Ast::Comma(_, _),
    ensures
        ({
            let a = node->Comma_0;
            let b = node->Comma_1;
            (sem::eval(fuel, *a, env) is Done && sem::eval(fuel, *b, env) is Done)
                ==> sem::eval(fuel, node, env) == Out::Done(
                emitted(sem::eval(fuel, *a, env)) + emitted(sem::eval(fuel, *b, env)),
            )
        }),
{
}

/// The optional marker swallows failures: a failing body yields only its
/// earlier emissions, as a completed stream, and the node never fails.
pub proof fn law_optional_swallows(fuel: nat, node: Ast, env: Seq<FrameV>)
    requires
        node matches Ast::Optional(_),
    ensures
        !(sem::eval(fuel, node, env) is Fail),
        ({
            let e = node->Optional_0;
            sem::eval(fuel, *e, env) matches Out::Fail(vs, _) ==> sem::eval(fuel, node, env)
                == Out::Done(vs)
        }),
{
}

/// Lexical shadowing: a new binding is the one found for its own name, and
/// changes nothing for any other name.
pub proof fn law_binding_shadows(
    env: Seq<FrameV>,
    name: Seq<char>,
    v: ValueV,
    other: Seq<char>,
)
    ensures
        lookup_var(env.push(FrameV::Var(name, v)), name) == Some(v),
        other != name ==> lookup_var(env.push(FrameV::Var(name, v)), other) == lookup_var(
            env,
            other,
        ),
{
    assert(env.push(FrameV::Var(name, v)).drop_last() =~= env);
}

/// A new binding does not change the subject.
pub proof fn law_binding_keeps_subject(env: Seq<FrameV>, name: Seq<char>, v: ValueV)
    ensures
        subject_of(env.push(FrameV::Var(name, v))) == subject_of(env),
{
    assert(env.push(FrameV::Var(name, v)).drop_last() =~= env);
}

} // verus!
