//! The resolver: one pass over the request, against a caller-supplied
//! environment store.

use vstd::prelude::*;
use vstd::string::StringExecFns;

use crate::model::{env_after, errors_of, resolved_of};
use crate::str_map::StrMap;
use crate::{EnvErrors, EnvMap, EnvStore, EnvValue, Request, VarErrorKind};

verus! {

/// The set of names that the first `n` of the listed keys carry.
spec fn names_of(ks: Seq<String>, n: int) -> Set<Seq<char>> {
    Set::new(|k: Seq<char>| exists|a: int| 0 <= a < n && ks[a]@ == k)
}

/// The aggregate failure of one `load` call: every requested variable that
/// could not be resolved, each with its cause.
pub struct LoadError {
    env_errors: EnvErrors,
}

impl View for LoadError {
    type V = Map<Seq<char>, VarErrorKind>;

    closed spec fn view(&self) -> Map<Seq<char>, VarErrorKind> {
        self.env_errors@
    }
}

/// The fixed human-readable summary a `LoadError` carries; the per-variable
/// causes are in the error mapping, not in this text.
pub open spec fn load_error_message() -> Seq<char> {
    "error(s) occurred loading environment variables"@
}

impl LoadError {
    /// The per-variable causes: never empty.
    pub fn env_errors(&self) -> (r: &EnvErrors)
        ensures
            r@ == self@,
    {
        &self.env_errors
    }

    /// The fixed summary line of this error.
    pub fn message(&self) -> (r: String)
        ensures
            r@ == load_error_message(),
    {
        String::from_str("error(s) occurred loading environment variables")
    }
}

/// Loads variables from the environment store, falling back on and writing
/// back defaults where they are provided. It returns an error mapping that
/// covers every missing required variable and every value that does not
/// decode as text.
///
/// On success the returned map resolves the whole request; on failure the
/// error carries the complete set of failing variables, never only the first.
/// Defaults are written into the store per entry, even when the call as a
/// whole fails for other variables.
pub fn load(env_vars: &Request, env: &mut EnvStore) -> (r: Result<EnvMap, LoadError>)
    ensures
        final(env)@ == env_after(env_vars@, old(env)@),
        r is Ok <==> errors_of(env_vars@, old(env)@) == Map::<Seq<char>, VarErrorKind>::empty(),
        match r {
            Ok(m) => m@ == resolved_of(env_vars@, old(env)@),
            Err(e) => e@ == errors_of(env_vars@, old(env)@),
        },
{
    let ghost req = env_vars@;
    let ghost env0 = env@;
    let keys = env_vars.keys();
    let mut env_map: EnvMap = StrMap::new();
    let mut env_errors: EnvErrors = StrMap::new();

    let n = keys.len();
    let mut i: usize = 0;
    proof {
        assert(env_map@ =~= resolved_of(req.restrict(names_of(keys@, 0)), env0));
        assert(env_errors@ =~= errors_of(req.restrict(names_of(keys@, 0)), env0));
        assert(env@ =~= env_after(req.restrict(names_of(keys@, 0)), env0));
    }
    while i < n
        invariant
            i <= n,
            n == keys@.len(),
            env_vars@ == req,
            forall|a: int, b: int| 0 <= a < b < n ==> keys@[a]@ != keys@[b]@,
            forall|a: int| 0 <= a < n ==> req.dom().contains(#[trigger] keys@[a]@),
            forall|k: Seq<char>|
                req.dom().contains(k) ==> exists|a: int| 0 <= a < n && #[trigger] keys@[a]@ == k,
            env_map@ == resolved_of(req.restrict(names_of(keys@, i as int)), env0),
            env_errors@ == errors_of(req.restrict(names_of(keys@, i as int)), env0),
            env@ == env_after(req.restrict(names_of(keys@, i as int)), env0),
        decreases n - i,
    {
        let name = &keys[i];
        let ghost k0 = name@;
        let ghost s_pre = names_of(keys@, i as int);
        let ghost s_post = names_of(keys@, i as int + 1);
        proof {
            // `name` has not been processed yet, so the store still agrees
            // with the initial store at it.
            assert(!s_pre.contains(k0));
            assert(s_post =~= s_pre.insert(k0));
            assert(env@.dom().contains(k0) <==> env0.dom().contains(k0));
            assert(env0.dom().contains(k0) ==> env@[k0] == env0[k0]);
        }
        match env.get(name) {
            Some(value) => {
                match value {
                    EnvValue::Text(text) => {
                        let text = text.clone();
                        env_map.insert(name.clone(), text);
                    }
                    EnvValue::NotText => {
                        env_errors.insert(name.clone(), VarErrorKind::NotValidText);
                    }
                }
            }
            None => {
                match env_vars.get(name) {
                    Some(default) => {
                        match default {
                            Some(value) => {
                                env.insert(name.clone(), EnvValue::Text(value.clone()));
                                env_map.insert(name.clone(), value.clone());
                            }
                            None => {
                                env_errors.insert(name.clone(), VarErrorKind::NotPresent);
                            }
                        }
                    }
                    None => {
                        // Unreachable: every listed key is in the request.
                        proof {
                            assert(req.dom().contains(k0));
                            assert(false);
                        }
                        env_errors.insert(name.clone(), VarErrorKind::NotPresent);
                    }
                }
            }
        }
        proof {
            assert(env_map@ =~= resolved_of(req.restrict(s_post), env0));
            assert(env_errors@ =~= errors_of(req.restrict(s_post), env0));
            assert(env@ =~= env_after(req.restrict(s_post), env0));
        }
        i += 1;
    }
    proof {
        assert(req.restrict(names_of(keys@, n as int)) =~= req);
    }
    if env_errors.is_empty() {
        Ok(env_map)
    } else {
        Err(LoadError { env_errors })
    }
}

} // verus!
