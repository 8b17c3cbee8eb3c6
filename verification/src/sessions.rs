//! The session value of the root application: a scope list and an
//! optional username, plus a payload section that is never shared.

use vstd::prelude::*;

use crate::scopes::ScopeList;

verus! {

/// Marks a payload section that never leaves the server in clear form.
#[derive(Debug, Hash, PartialEq, Eq, Clone, Copy)]
pub struct Opaque<T>(pub T);

/// Data a session carries that is never shared with the client.
#[derive(Debug, Clone, PartialEq, Eq, Structural)]
pub struct UnsharedData {}

/// A session: the scopes granted, the signed-in username if any, and the
/// unshared payload.
#[derive(Debug, Clone)]
pub struct Session {
    pub scopes: ScopeList,
    pub username: Option<String>,
    pub opaque: Opaque<UnsharedData>,
}

impl Session {
    /// A fresh session: no scopes, no username.
    pub fn new_empty() -> (r: Self)
        ensures
            r.scopes.0 == 0,
            r.username is None,
    {
        Session { scopes: ScopeList(0), username: None, opaque: Opaque(UnsharedData {}) }
    }
}

} // verus!
