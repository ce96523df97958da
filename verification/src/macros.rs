//! The macro expander: a fixed, closed registry of named text-producing
//! macros. Expansion is a pure function from the macro and its arguments
//! to output text; a wrong argument count or shape yields no expansion,
//! and the compiler turns that into a located fatal error.

use vstd::prelude::*;
use crate::ast::{Expr, Ident, Literal};
use crate::strutil::push_char;

verus! {

pub enum Macro {
    Regexp,
}

/// The text a macro argument contributes: the name of an identifier or
/// the contents of a string literal.
pub open spec fn macro_arg_text(e: Expr) -> Seq<char> {
    match e {
        Expr::Ident(Ident(i)) => i@,
        Expr::Literal(Literal::String(t)) => t@,
        _ => Seq::empty(),
    }
}

/// Whether a macro argument has an accepted shape.
pub open spec fn macro_arg_ok(e: Expr) -> bool {
    e matches Expr::Ident(_) || e matches Expr::Literal(Literal::String(_))
}

impl Macro {
    /// Look a macro up by its source-level name; the registry is closed.
    pub fn from_name(name: &str) -> (r: Option<Self>)
        ensures
            r is Some <==> name@ == "regex"@,
            r matches Some(m) ==> m is Regexp,
    {
        let n = String::from_str(name);
        let k = String::from_str("regex");
        if n == k {
            Some(Macro::Regexp)
        } else {
            None
        }
    }

    /// Expand the macro: the `regex` macro takes exactly one argument, an
    /// identifier or a string literal, and produces `/<text>/;` exactly;
    /// any other argument count or shape yields no expansion.
    pub fn expand(&self, args: &Vec<Expr>) -> (r: Option<String>)
        ensures
            r is Some <==> args@.len() == 1 && macro_arg_ok(args@[0]),
            r matches Some(s) ==> args@.len() == 1 && s@ == seq!['/'] + macro_arg_text(args@[0])
                + seq!['/', ';'],
    {
        let mut source = String::new();
        match self {
            Macro::Regexp => {
                if args.len() == 1 {
                    push_char(&mut source, '/');
                    match &args[0] {
                        Expr::Ident(Ident(i)) => source.append(i.as_str()),
                        Expr::Literal(Literal::String(i)) => source.append(i.as_str()),
                        _ => {
                            return None;
                        },
                    }
                    push_char(&mut source, '/');
                    push_char(&mut source, ';');
                    proof {
                        assert(source@ =~= seq!['/'] + macro_arg_text(args@[0]) + seq![
                            '/',
                            ';',
                        ]);
                    }
                    return Some(source);
                }
                None
            },
        }
    }
}

} // verus!
