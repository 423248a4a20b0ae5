//! The mathematical model of one resolution pass: given the request and the
//! store as they stand when `load` is called, these functions say which names
//! resolve to which values, which names fail and why, and what the store
//! holds afterwards.
//!
//! A request maps each name to its optional default; a store maps each
//! present name to `Some(text)`, or to `None` when the value does not decode
//! as text.

use vstd::prelude::*;

use crate::VarErrorKind;

verus! {

/// The name resolves: it is present and decodable, or absent with a default.
pub open spec fn entry_resolves(
    req: Map<Seq<char>, Option<Seq<char>>>,
    env: Map<Seq<char>, Option<Seq<char>>>,
    name: Seq<char>,
) -> bool {
    ||| (env.dom().contains(name) && env[name] is Some)
    ||| (!env.dom().contains(name) && req[name] is Some)
}

/// The value the name resolves to: the stored text if present, else the
/// request's default.
pub open spec fn entry_value(
    req: Map<Seq<char>, Option<Seq<char>>>,
    env: Map<Seq<char>, Option<Seq<char>>>,
    name: Seq<char>,
) -> Seq<char> {
    if env.dom().contains(name) {
        env[name]->Some_0
    } else {
        req[name]->Some_0
    }
}

/// The name fails: present but not decodable, or absent with no default.
/// For a name of the request, this is the exact complement of
/// `entry_resolves`.
pub open spec fn entry_fails(
    req: Map<Seq<char>, Option<Seq<char>>>,
    env: Map<Seq<char>, Option<Seq<char>>>,
    name: Seq<char>,
) -> bool {
    ||| (env.dom().contains(name) && env[name] is None)
    ||| (!env.dom().contains(name) && req[name] is None)
}

/// Why the name fails: a present value that does not decode beats every
/// default; only an absent name can be defaulted.
pub open spec fn entry_cause(
    env: Map<Seq<char>, Option<Seq<char>>>,
    name: Seq<char>,
) -> VarErrorKind {
    if env.dom().contains(name) {
        VarErrorKind::NotValidText
    } else {
        VarErrorKind::NotPresent
    }
}

/// The resolved mapping: every requested name that is present and decodable,
/// with its stored value, and every requested name that is absent but has a
/// default, with that default.
pub open spec fn resolved_of(
    req: Map<Seq<char>, Option<Seq<char>>>,
    env: Map<Seq<char>, Option<Seq<char>>>,
) -> Map<Seq<char>, Seq<char>> {
    Map::new(
        |name: Seq<char>| req.dom().contains(name) && entry_resolves(req, env, name),
        |name: Seq<char>| entry_value(req, env, name),
    )
}

/// The error mapping: every requested name that is absent with no default
/// (`NotPresent`), and every requested name whose present value does not
/// decode as text (`NotValidText`).
pub open spec fn errors_of(
    req: Map<Seq<char>, Option<Seq<char>>>,
    env: Map<Seq<char>, Option<Seq<char>>>,
) -> Map<Seq<char>, VarErrorKind> {
    Map::new(
        |name: Seq<char>| req.dom().contains(name) && entry_fails(req, env, name),
        |name: Seq<char>| entry_cause(env, name),
    )
}

/// The store after the pass: unchanged at every present name, and extended
/// with the request's default at every absent name that has one.
pub open spec fn env_after(
    req: Map<Seq<char>, Option<Seq<char>>>,
    env: Map<Seq<char>, Option<Seq<char>>>,
) -> Map<Seq<char>, Option<Seq<char>>> {
    Map::new(
        |name: Seq<char>|
            env.dom().contains(name)
                || (req.dom().contains(name) && req[name] is Some),
        |name: Seq<char>|
            if env.dom().contains(name) {
                env[name]
            } else {
                Some(req[name]->Some_0)
            },
    )
}

} // verus!
