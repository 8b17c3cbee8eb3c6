//! Application permission scopes, kept as a bitmask.
//!
//! A `ScopeList` packs a set of `Scope`s into a `u32`, one bit per scope.

use vstd::prelude::*;

verus! {

/// A single permission that a session may carry.
#[derive(Debug, Hash, PartialEq, Eq, Clone, Copy, Structural)]
pub enum Scope {
    Admin,
}

/// The bit position a scope occupies inside a `ScopeList`.
pub open spec fn scope_bit(scope: Scope) -> u32 {
    match scope {
        Scope::Admin => 0,
    }
}

impl Scope {
    /// The bit position this scope occupies inside a `ScopeList`.
    pub fn bit(self) -> (r: u32)
        ensures
            r == scope_bit(self),
            r < 32,
    {
        match self {
            Scope::Admin => 0,
        }
    }

    /// Every scope, in bit order.
    pub fn variants() -> (r: Vec<Scope>)
        ensures
            r@ == seq![Scope::Admin],
    {
        let mut v: Vec<Scope> = Vec::new();
        v.push(Scope::Admin);
        proof {
            assert(v@ =~= seq![Scope::Admin]);
        }
        v
    }
}

/// A set of scopes packed into a `u32` bitmask.
#[derive(Debug, Hash, PartialEq, Eq, Clone, Copy, Structural)]
pub struct ScopeList(pub u32);

impl ScopeList {
    /// Whether this list has the bit of `scope` set.
    pub open spec fn spec_contains(self, scope: Scope) -> bool {
        self.0 & (1u32 << scope_bit(scope)) != 0
    }

    /// The list with no scope at all.
    pub fn empty() -> (r: Self)
        ensures
            r.0 == 0,
            forall|s: Scope| !r.spec_contains(s),
    {
        let r = ScopeList(0);
        proof {
            assert forall|s: Scope| !r.spec_contains(s) by {
                let b = scope_bit(s);
                assert(0u32 & (1u32 << b) == 0) by (bit_vector);
            }
        }
        r
    }

    /// The list holding exactly the administrator scope.
    pub fn admin() -> (r: Self)
        ensures
            r == Self::spec_from_scope(Scope::Admin),
    {
        Self::from_scope(Scope::Admin)
    }

    /// The list holding exactly `scope`.
    pub open spec fn spec_from_scope(scope: Scope) -> Self {
        ScopeList(1u32 << scope_bit(scope))
    }

    /// The list holding exactly `scope`.
    pub fn from_scope(scope: Scope) -> (r: Self)
        ensures
            r == Self::spec_from_scope(scope),
            r.spec_contains(scope),
    {
        let b = scope.bit();
        let r = ScopeList(1u32 << b);
        proof {
            let bb = scope_bit(scope);
            assert((1u32 << bb) & (1u32 << bb) != 0) by (bit_vector)
                requires bb < 32u32;
        }
        r
    }

    /// Whether `scope` is a member of this list.
    pub fn contains(&self, scope: Scope) -> (r: bool)
        ensures
            r == self.spec_contains(scope),
    {
        self.0 & (1u32 << scope.bit()) != 0
    }

    /// The raw bitmask.
    pub fn bits(&self) -> (r: u32)
        ensures
            r == self.0,
    {
        self.0
    }

    /// The union of two scope lists.
    pub fn union(self, rhs: Self) -> (r: Self)
        ensures
            r.0 == self.0 | rhs.0,
    {
        ScopeList(self.0 | rhs.0)
    }

    /// Adds `scope` to the list in place.
    pub fn insert(&mut self, scope: Scope)
        ensures
            final (self).0 == old(self).0 | (1u32 << scope_bit(scope)),
            final (self).spec_contains(scope),
    {
        let b = scope.bit();
        self.0 = self.0 | (1u32 << b);
        proof {
            let bb = scope_bit(scope);
            let x = self.0;
            assert(x & (1u32 << bb) != 0) by (bit_vector)
                requires bb < 32u32, exists|y: u32| x == y | (1u32 << bb);
        }
    }

    /// The union of all the scopes of a sequence, folded from the left.
    pub open spec fn spec_union_of(scopes: Seq<Scope>) -> u32
        decreases scopes.len(),
    {
        if scopes.len() == 0 {
            0u32
        } else {
            Self::spec_union_of(scopes.drop_last()) | (1u32 << scope_bit(scopes.last()))
        }
    }

    /// The list holding the union of all the scopes given.
    pub fn from_scopes(scopes: &Vec<Scope>) -> (r: Self)
        ensures
            r.0 == Self::spec_union_of(scopes@),
    {
        let mut acc: u32 = 0;
        let mut i: usize = 0;
        while i < scopes.len()
            invariant
                i <= scopes.len(),
                acc == Self::spec_union_of(scopes@.subrange(0, i as int)),
            decreases scopes.len() - i,
        {
            let b = scopes[i].bit();
            acc = acc | (1u32 << b);
            i = i + 1;
            proof {
                let pre = scopes@.subrange(0, i - 1);
                let cur = scopes@.subrange(0, i as int);
                assert(cur.drop_last() =~= pre);
                assert(cur.last() == scopes@[i - 1]);
            }
        }
        proof {
            assert(scopes@.subrange(0, scopes@.len() as int) =~= scopes@);
        }
        ScopeList(acc)
    }

    /// Every scope the list contains, in bit order.
    pub fn to_scopes(&self) -> (r: Vec<Scope>)
        ensures
            r@ == if self.spec_contains(Scope::Admin) {
                seq![Scope::Admin]
            } else {
                Seq::<Scope>::empty()
            },
    {
        let mut v: Vec<Scope> = Vec::new();
        if self.contains(Scope::Admin) {
            v.push(Scope::Admin);
            proof {
                assert(v@ =~= seq![Scope::Admin]);
            }
        } else {
            proof {
                assert(v@ =~= Seq::<Scope>::empty());
            }
        }
        v
    }
}

impl Default for ScopeList {
    /// The empty scope list.
    fn default() -> (r: Self)
        ensures
            r.0 == 0,
    {
        ScopeList(0)
    }
}

} // verus!
