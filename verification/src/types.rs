//! The gradual type model: a closed variant set with an intentionally
//! coarse compatibility relation. `Unknown` compares equal to everything,
//! and the aggregate variants compare by shape alone, ignoring their
//! element types.

use vstd::prelude::*;
use crate::ast::{Expr, Literal};

verus! {

broadcast use vstd::std_specs::vec::axiom_vec_index_decreases, vstd::std_specs::vec::axiom_vec_decreases_to_view, vstd::seq::axiom_seq_index_decreases;

#[derive(Debug)]
pub enum Type {
    String,
    Number,
    Array(Vec<Type>),
    Bool,
    Hash(Vec<(Type, Type)>),
    Function,
    Unknown,
}

/// The gradual compatibility relation: `Unknown` matches anything, and
/// concrete variants match same-shaped concrete variants regardless of
/// their nested element types.
pub open spec fn type_compat(a: Type, b: Type) -> bool {
    match (a, b) {
        (Type::Number, Type::Number) => true,
        (Type::Bool, Type::Bool) => true,
        (Type::String, Type::String) => true,
        (Type::Array(_), Type::Array(_)) => true,
        (Type::Hash(_), Type::Hash(_)) => true,
        (Type::Function, Type::Function) => true,
        (Type::Unknown, _) => true,
        (_, Type::Unknown) => true,
        _ => false,
    }
}

impl PartialEq for Type {
    /// Equality is the gradual compatibility check, not structural
    /// equality: it is reflexive and symmetric but deliberately not
    /// transitive.
    fn eq(&self, other: &Self) -> (r: bool) {
        match (self, other) {
            (Type::Number, Type::Number) => true,
            (Type::Bool, Type::Bool) => true,
            (Type::String, Type::String) => true,
            (Type::Array(_), Type::Array(_)) => true,
            (Type::Hash(_), Type::Hash(_)) => true,
            (Type::Function, Type::Function) => true,
            (Type::Unknown, _) => true,
            (_, Type::Unknown) => true,
            _ => false,
        }
    }
}

impl vstd::std_specs::cmp::PartialEqSpecImpl for Type {
    open spec fn obeys_eq_spec() -> bool {
        true
    }

    open spec fn eq_spec(&self, other: &Self) -> bool {
        type_compat(*self, *other)
    }
}

/// The type that `Type::from_literal` assigns to a literal: the literal's
/// shape, with element types taken from nested literals and `Unknown` for
/// any non-literal element.
pub open spec fn type_matches_literal(t: Type, l: Literal) -> bool
    decreases l,
{
    match l {
        Literal::Number(_) => t is Number,
        Literal::String(_) => t is String,
        Literal::Bool(_) => t is Bool,
        Literal::Array(v) => t matches Type::Array(ts) && ts@.len() == v@.len() && (forall|i: int|
            0 <= i < v@.len() ==> type_matches_expr(#[trigger] ts@[i], v@[i])),
        Literal::Hash(ps) => t matches Type::Hash(tps) && tps@.len() == ps@.len() && (forall|
            i: int,
        |
            0 <= i < ps@.len() ==> type_matches_expr(#[trigger] tps@[i].0, ps@[i].0)
                && type_matches_expr(tps@[i].1, ps@[i].1)),
    }
}

pub open spec fn type_matches_expr(t: Type, e: Expr) -> bool
    decreases e,
{
    match e {
        Expr::Literal(l) => type_matches_literal(t, l),
        _ => t is Unknown,
    }
}

impl Type {
    /// The type of a literal, recursing into array elements and hash
    /// pairs; non-literal elements type as `Unknown`.
    pub fn from_literal(lit: &Literal) -> (t: Self)
        ensures
            type_matches_literal(t, *lit),
        decreases *lit,
    {
        match lit {
            Literal::Number(_) => Type::Number,
            Literal::String(_) => Type::String,
            Literal::Bool(_) => Type::Bool,
            Literal::Array(v) => {
                let mut ts: Vec<Type> = Vec::new();
                let mut idx: usize = 0;
                while idx < v.len()
                    invariant
                        *lit == Literal::Array(*v),
                        idx <= v@.len(),
                        ts@.len() == idx,
                        forall|i: int|
                            0 <= i < idx ==> type_matches_expr(#[trigger] ts@[i], v@[i]),
                    decreases v@.len() - idx,
                {
                    match &v[idx] {
                        Expr::Literal(l) => {
                            proof {
                                assert(decreases_to!(*lit => lit->Array_0));
                                assert(decreases_to!(*v => v@));
                                assert(decreases_to!(v@ => v@[idx as int]));
                                assert(decreases_to!(v@[idx as int] => v@[idx as int]->Literal_0));
                                assert(v@[idx as int]->Literal_0 == *l);
                            }
                            let ty = Self::from_literal(l);
                            ts.push(ty);
                        },
                        _ => {
                            ts.push(Type::Unknown);
                        },
                    }
                    idx = idx + 1;
                }
                Type::Array(ts)
            },
            Literal::Hash(o) => {
                let mut tps: Vec<(Type, Type)> = Vec::new();
                let mut idx: usize = 0;
                while idx < o.len()
                    invariant
                        *lit == Literal::Hash(*o),
                        idx <= o@.len(),
                        tps@.len() == idx,
                        forall|i: int|
                            0 <= i < idx ==> type_matches_expr(#[trigger] tps@[i].0, o@[i].0)
                                && type_matches_expr(tps@[i].1, o@[i].1),
                    decreases o@.len() - idx,
                {
                    proof {
                        assert(decreases_to!(*lit => lit->Hash_0));
                        assert(decreases_to!(*o => o@));
                        assert(decreases_to!(o@ => o@[idx as int]));
                    }
                    let kt = match &o[idx].0 {
                        Expr::Literal(l) => {
                            proof {
                                assert(decreases_to!(o@[idx as int] => o@[idx as int].0));
                                assert(decreases_to!(o@[idx as int].0 => o@[idx as int].0->Literal_0));
                                assert(o@[idx as int].0->Literal_0 == *l);
                            }
                            Self::from_literal(l)
                        },
                        _ => Type::Unknown,
                    };
                    let vt = match &o[idx].1 {
                        Expr::Literal(l) => {
                            proof {
                                assert(decreases_to!(o@[idx as int] => o@[idx as int].1));
                                assert(decreases_to!(o@[idx as int].1 => o@[idx as int].1->Literal_0));
                                assert(o@[idx as int].1->Literal_0 == *l);
                            }
                            Self::from_literal(l)
                        },
                        _ => Type::Unknown,
                    };
                    tps.push((kt, vt));
                    idx = idx + 1;
                }
                Type::Hash(tps)
            },
        }
    }
}

} // verus!
