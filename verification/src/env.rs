//! The type environment: a name-keyed side table of declared functions
//! and inferred types, consulted by the compiler for gross mismatches.
//! Later entries for a name shadow earlier ones.

use vstd::prelude::*;
use crate::ast::Literal;
use crate::types::{Type, type_compat, type_matches_literal};

verus! {

pub struct Env {
    function_store: Vec<String>,
    type_store: Vec<(String, Type)>,
}

/// The map an association list denotes, its front entries shadowing the
/// ones behind them.
pub open spec fn assoc_map(s: Seq<(String, Type)>) -> Map<Seq<char>, Type>
    decreases s.len(),
{
    if s.len() == 0 {
        Map::empty()
    } else {
        assoc_map(s.drop_first()).insert(s.first().0@, s.first().1)
    }
}

impl Env {
    /// The names registered as functions, in registration order.
    pub closed spec fn fns(self) -> Seq<Seq<char>> {
        self.function_store@.map_values(|s: String| s@)
    }

    /// The name-to-type table.
    pub closed spec fn types(self) -> Map<Seq<char>, Type> {
        assoc_map(self.type_store@)
    }

    pub fn new() -> (e: Self)
        ensures
            e.fns() == Seq::<Seq<char>>::empty(),
            e.types() == Map::<Seq<char>, Type>::empty(),
    {
        let e = Env { function_store: Vec::new(), type_store: Vec::new() };
        proof {
            assert(e.fns() =~= Seq::<Seq<char>>::empty());
        }
        e
    }

    /// Register a name as a function.
    pub fn add_fn(&mut self, id: String)
        ensures
            final(self).fns() == old(self).fns().push(id@),
            final(self).types() == old(self).types(),
    {
        self.function_store.push(id);
        proof {
            assert(final(self).fns() =~= old(self).fns().push(id@));
        }
    }

    /// Whether a name was registered as a function.
    pub fn has_fn(&mut self, id: String) -> (r: bool)
        ensures
            *final(self) == *old(self),
            r == old(self).fns().contains(id@),
    {
        let mut i: usize = 0;
        while i < self.function_store.len()
            invariant
                i <= self.function_store@.len(),
                *self == *old(self),
                forall|j: int| 0 <= j < i ==> self.function_store@[j]@ != id@,
            decreases self.function_store@.len() - i,
        {
            if self.function_store[i] == id {
                proof {
                    assert(self.fns()[i as int] == id@);
                }
                return true;
            }
            i = i + 1;
        }
        proof {
            assert forall|j: int| 0 <= j < self.fns().len() implies self.fns()[j] != id@ by {
                assert(self.function_store@[j]@ != id@);
            }
        }
        false
    }

    /// Record the type of a name from the literal assigned to it.
    pub fn addt(&mut self, id: &str, t: &Literal)
        ensures
            final(self).fns() == old(self).fns(),
            final(self).types() == old(self).types().insert(
                id@,
                final(self).types()[id@],
            ),
            type_matches_literal(final(self).types()[id@], *t),
    {
        let ty = Type::from_literal(t);
        self.sett(id, ty);
    }

    /// Set the type recorded for a name.
    pub fn sett(&mut self, id: &str, t: Type)
        ensures
            final(self).fns() == old(self).fns(),
            final(self).types() == old(self).types().insert(id@, t),
            final(self).types()[id@] == t,
    {
        let key = id.to_owned();
        let ghost prev = self.type_store@;
        self.type_store.insert(0, (key, t));
        proof {
            assert(self.type_store@.drop_first() =~= prev);
            assert(final(self).types() =~= old(self).types().insert(id@, t));
        }
    }

    /// The gradual compatibility check: whether the name has a recorded
    /// type compatible with `t`; an unrecorded name never checks.
    pub fn checkt(&mut self, id: &str, t: &Type) -> (r: bool)
        ensures
            *final(self) == *old(self),
            r == (old(self).types().contains_key(id@) && type_compat(
                old(self).types()[id@],
                *t,
            )),
    {
        let key = id.to_owned();
        let mut i: usize = 0;
        while i < self.type_store.len()
            invariant
                i <= self.type_store@.len(),
                *self == *old(self),
                key@ == id@,
                forall|j: int| 0 <= j < i ==> self.type_store@[j].0@ != id@,
            decreases self.type_store@.len() - i,
        {
            if self.type_store[i].0 == key {
                proof {
                    lemma_assoc_lookup(self.type_store@, id@, i as int);
                }
                return self.type_store[i].1 == *t;
            }
            i = i + 1;
        }
        proof {
            lemma_assoc_absent(self.type_store@, id@);
        }
        false
    }

    /// The type recorded for a name, or `Unknown` if none is.
    pub fn gett(&mut self, id: String) -> (r: &Type)
        ensures
            *final(self) == *old(self),
            old(self).types().contains_key(id@) ==> *r == old(self).types()[id@],
            !old(self).types().contains_key(id@) ==> *r is Unknown,
    {
        let mut i: usize = 0;
        while i < self.type_store.len()
            invariant
                i <= self.type_store@.len(),
                *self == *old(self),
                forall|j: int| 0 <= j < i ==> self.type_store@[j].0@ != id@,
            decreases self.type_store@.len() - i,
        {
            if self.type_store[i].0 == id {
                proof {
                    lemma_assoc_lookup(self.type_store@, id@, i as int);
                }
                return &self.type_store[i].1;
            }
            i = i + 1;
        }
        proof {
            lemma_assoc_absent(self.type_store@, id@);
        }
        &Type::Unknown
    }
}

/// Looking a key up in the association list finds the frontmost entry.
proof fn lemma_assoc_lookup(s: Seq<(String, Type)>, k: Seq<char>, i: int)
    requires
        0 <= i < s.len(),
        s[i].0@ == k,
        forall|j: int| 0 <= j < i ==> s[j].0@ != k,
    ensures
        assoc_map(s).contains_key(k),
        assoc_map(s)[k] == s[i].1,
    decreases s.len(),
{
    if i > 0 {
        lemma_assoc_lookup(s.drop_first(), k, i - 1);
    }
}

/// A key on no entry of the association list is not in the map.
proof fn lemma_assoc_absent(s: Seq<(String, Type)>, k: Seq<char>)
    requires
        forall|j: int| 0 <= j < s.len() ==> s[j].0@ != k,
    ensures
        !assoc_map(s).contains_key(k),
    decreases s.len(),
{
    if s.len() > 0 {
        lemma_assoc_absent(s.drop_first(), k);
    }
}

} // verus!
