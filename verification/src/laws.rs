//! Laws of the resolution model. Together with the contract of
//! [`crate::load`], which returns `Ok` exactly when `errors_of` is empty and
//! whose results and store effect equal `resolved_of` and `env_after`, each
//! law here is a statement about every possible call.

use vstd::prelude::*;

use crate::model::{entry_fails, entry_resolves, env_after, errors_of, resolved_of};
use crate::VarErrorKind;

verus! {

/// When every requested name is present in the store with decodable text,
/// a load succeeds, resolves exactly the requested names to the store's
/// current values, and leaves the store unchanged.
pub proof fn lemma_all_present(
    req: Map<Seq<char>, Option<Seq<char>>>,
    env: Map<Seq<char>, Option<Seq<char>>>,
)
    requires
        forall|k: Seq<char>|
            req.dom().contains(k) ==> env.dom().contains(k) && env[k] is Some,
    ensures
        errors_of(req, env) == Map::<Seq<char>, VarErrorKind>::empty(),
        resolved_of(req, env).dom() == req.dom(),
        forall|k: Seq<char>|
            req.dom().contains(k) ==> resolved_of(req, env)[k] == env[k]->Some_0,
        env_after(req, env) == env,
{
    assert(errors_of(req, env) =~= Map::<Seq<char>, VarErrorKind>::empty());
    assert(resolved_of(req, env).dom() =~= req.dom());
    assert(env_after(req, env) =~= env);
}

/// A requested name that is absent from the store but carries a default `d`
/// resolves to `d`, raises no error, and `d` is written back into the store,
/// where an independent later read finds it.
pub proof fn lemma_absent_with_default(
    req: Map<Seq<char>, Option<Seq<char>>>,
    env: Map<Seq<char>, Option<Seq<char>>>,
    k: Seq<char>,
    d: Seq<char>,
)
    requires
        req.dom().contains(k),
        req[k] == Some(d),
        !env.dom().contains(k),
    ensures
        resolved_of(req, env).dom().contains(k),
        resolved_of(req, env)[k] == d,
        !errors_of(req, env).dom().contains(k),
        env_after(req, env).dom().contains(k),
        env_after(req, env)[k] == Some(d),
{
}

/// A requested name that is absent from the store and carries no default is
/// reported as `NotPresent`, so the load as a whole fails.
pub proof fn lemma_absent_without_default(
    req: Map<Seq<char>, Option<Seq<char>>>,
    env: Map<Seq<char>, Option<Seq<char>>>,
    k: Seq<char>,
)
    requires
        req.dom().contains(k),
        req[k] is None,
        !env.dom().contains(k),
    ensures
        errors_of(req, env).dom().contains(k),
        errors_of(req, env)[k] == VarErrorKind::NotPresent,
        errors_of(req, env) != Map::<Seq<char>, VarErrorKind>::empty(),
        !resolved_of(req, env).dom().contains(k),
{
    assert(!Map::<Seq<char>, VarErrorKind>::empty().dom().contains(k));
}

/// A requested name whose stored value does not decode as text is reported
/// as `NotValidText`, whether or not the request carries a default: a default
/// never rescues a present-but-undecodable variable, and the load as a whole
/// fails.
pub proof fn lemma_present_not_text(
    req: Map<Seq<char>, Option<Seq<char>>>,
    env: Map<Seq<char>, Option<Seq<char>>>,
    k: Seq<char>,
)
    requires
        req.dom().contains(k),
        env.dom().contains(k),
        env[k] is None,
    ensures
        errors_of(req, env).dom().contains(k),
        errors_of(req, env)[k] == VarErrorKind::NotValidText,
        errors_of(req, env) != Map::<Seq<char>, VarErrorKind>::empty(),
        !resolved_of(req, env).dom().contains(k),
        env_after(req, env)[k] == env[k],
{
    assert(!Map::<Seq<char>, VarErrorKind>::empty().dom().contains(k));
}

/// Loading the same request twice is idempotent: against the store the first
/// load leaves behind, a second load resolves the same names to the same
/// values, fails on the same names for the same causes, and writes nothing
/// further.
pub proof fn lemma_idempotent(
    req: Map<Seq<char>, Option<Seq<char>>>,
    env: Map<Seq<char>, Option<Seq<char>>>,
)
    ensures
        resolved_of(req, env_after(req, env)) == resolved_of(req, env),
        errors_of(req, env_after(req, env)) == errors_of(req, env),
        env_after(req, env_after(req, env)) == env_after(req, env),
{
    let env1 = env_after(req, env);
    assert(resolved_of(req, env1) =~= resolved_of(req, env));
    assert(errors_of(req, env1) =~= errors_of(req, env));
    assert(env_after(req, env1) =~= env1);
}

/// Every requested name lands in exactly one of the resolved mapping and the
/// error mapping: their key sets are disjoint and their union is exactly the
/// request's key set.
pub proof fn lemma_partition(
    req: Map<Seq<char>, Option<Seq<char>>>,
    env: Map<Seq<char>, Option<Seq<char>>>,
)
    ensures
        forall|k: Seq<char>|
            !(resolved_of(req, env).dom().contains(k) && errors_of(req, env).dom().contains(k)),
        resolved_of(req, env).dom() + errors_of(req, env).dom() == req.dom(),
{
    assert forall|k: Seq<char>| req.dom().contains(k)
        implies entry_resolves(req, env, k) <==> !entry_fails(req, env, k) by {}
    assert(resolved_of(req, env).dom() + errors_of(req, env).dom() =~= req.dom());
}

} // verus!
