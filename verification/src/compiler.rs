//! The compiler: walks the parsed program, dispatches to the code
//! generators and the macro expander, consults the type environment, and
//! produces the final output text or a located error.
//!
//! The output text is pinned by a pure mirror (`block_text` and friends);
//! whether compilation succeeds is pinned by a fold over the same walk
//! (`block_ok`), which fails exactly on macro misuse and on assigning a
//! literal of one shape to a name already recorded with an incompatible
//! shape.

use vstd::prelude::*;
use crate::ast::{BlockStmt, Expr, Ident, Infix, Literal, Program, Stmt};
use crate::ast::{infix_code, prefix_code};
use crate::codegen::{BaseGenerator, FunctionGenerator};
use crate::env::Env;
use crate::macros::{Macro, macro_arg_ok, macro_arg_text};
use crate::parser::ParseError;
use crate::strutil::{char_string, dec_digits, push_char, push_u64};
use crate::tokens::Number;
use crate::tokenizer::{digits_val, dot_count, is_digit, is_num_char};
use crate::types::{Type, type_compat};

verus! {

broadcast use vstd::std_specs::vec::axiom_vec_index_decreases, vstd::std_specs::vec::axiom_vec_decreases_to_view, vstd::seq::axiom_seq_index_decreases, vstd::seq::axiom_seq_subrange_decreases;

/// A fatal compiler error, carrying the character offset of the statement
/// it arose in and a display message.
#[derive(Debug, PartialEq)]
pub struct CompileError {
    pub loc: usize,
    pub msg: String,
}

/// The shape of a type: what the gradual compatibility check actually
/// compares.
pub enum Shape {
    Str,
    Num,
    Boolean,
    Arr,
    Hsh,
    Fun,
    Unk,
}

pub open spec fn shape_of(t: Type) -> Shape {
    match t {
        Type::String => Shape::Str,
        Type::Number => Shape::Num,
        Type::Bool => Shape::Boolean,
        Type::Array(_) => Shape::Arr,
        Type::Hash(_) => Shape::Hsh,
        Type::Function => Shape::Fun,
        Type::Unknown => Shape::Unk,
    }
}

pub open spec fn lit_shape(l: Literal) -> Shape {
    match l {
        Literal::Number(_) => Shape::Num,
        Literal::String(_) => Shape::Str,
        Literal::Bool(_) => Shape::Boolean,
        Literal::Array(_) => Shape::Arr,
        Literal::Hash(_) => Shape::Hsh,
    }
}

pub open spec fn shape_compat(a: Shape, b: Shape) -> bool {
    a == b || a is Unk || b is Unk
}

/// The shapes recorded in a type table.
pub open spec fn shapes(m: Map<Seq<char>, Type>) -> Map<Seq<char>, Shape> {
    m.map_values(|t: Type| shape_of(t))
}

/// The output spelling of a 32-bit integer literal.
pub open spec fn int_text(v: i32) -> Seq<char> {
    if v < 0 {
        seq!['-'] + dec_digits((-(v as int)) as nat)
    } else {
        dec_digits(v as nat)
    }
}

/// The output text of an expression.
pub open spec fn expr_text(e: Expr) -> Seq<char>
    decreases e,
{
    match e {
        Expr::Ident(Ident(n)) => n@,
        Expr::Let(Ident(n), v) => "let "@ + n@ + " = "@ + expr_text(*v),
        Expr::Assign(t, v) => expr_text(*t) + " = "@ + expr_text(*v),
        Expr::Literal(l) => lit_text(l),
        Expr::Prefix(op, x) => "("@ + prefix_code(op) + expr_text(*x) + ")"@,
        Expr::Infix(op, a, b) => "("@ + expr_text(*a) + " "@ + infix_code(op) + " "@ + expr_text(
            *b,
        ) + ")"@,
        Expr::Index(a, i) => expr_text(*a) + "["@ + expr_text(*i) + "]"@,
        Expr::Accessor(a, Ident(n)) => expr_text(*a) + "."@ + n@,
        Expr::If { cond, consequence, alternative } => "if ("@ + expr_text(*cond) + ") {\n"@
            + block_text(consequence@) + "}"@ + (match alternative {
            Some(alt) => " else {\n"@ + block_text(alt@) + "}"@,
            None => Seq::empty(),
        }),
        Expr::While { cond, consequence } => "while ("@ + expr_text(*cond) + ") {\n"@
            + block_text(consequence@) + "}"@,
        Expr::Func { params, body, name } => "function "@ + (match name {
            Some(Ident(n)) => n@,
            None => Seq::empty(),
        }) + "("@ + params_join(params@) + ") {\n"@ + block_text(body@) + "}\n"@,
        Expr::Macro { name: _, args } => macro_text(args@),
        Expr::Call { func, args } => match *func {
            Expr::Ident(Ident(n)) => if n@ == "regex"@ {
                macro_text(args@)
            } else {
                n@ + "("@ + texts_join(args@) + ")"@
            },
            _ => expr_text(*func) + "("@ + texts_join(args@) + ")"@,
        },
        Expr::Regexp { pattern, flags } => "/"@ + (match *pattern {
            Expr::Literal(Literal::String(t)) => t@,
            _ => expr_text(*pattern),
        }) + "/"@ + (match flags {
            Some(Ident(f)) => f@,
            None => Seq::empty(),
        }),
    }
}

/// What a macro invocation expands to, where its arguments are accepted.
pub open spec fn macro_text(args: Seq<Expr>) -> Seq<char> {
    if args.len() == 1 {
        seq!['/'] + macro_arg_text(args[0]) + seq!['/', ';']
    } else {
        Seq::empty()
    }
}

pub open spec fn lit_text(l: Literal) -> Seq<char>
    decreases l,
{
    match l {
        Literal::Number(Number::Int(v)) => int_text(v),
        Literal::Number(Number::Float(t)) => t@,
        Literal::String(t) => "\""@ + t@ + "\""@,
        Literal::Bool(b) => if b {
            "true"@
        } else {
            "false"@
        },
        Literal::Array(es) => "["@ + texts_join(es@) + "]"@,
        Literal::Hash(ps) => "{"@ + pairs_text(ps@) + "}"@,
    }
}

/// Comma-joined expression texts.
pub open spec fn texts_join(es: Seq<Expr>) -> Seq<char>
    decreases es,
{
    if es.len() == 0 {
        Seq::empty()
    } else if es.len() == 1 {
        expr_text(es[0])
    } else {
        texts_join(es.subrange(0, es.len() - 1)) + ","@ + expr_text(es.last())
    }
}

/// Comma-joined `key: value` pair texts.
pub open spec fn pairs_text(ps: Seq<(Expr, Expr)>) -> Seq<char>
    decreases ps,
{
    if ps.len() == 0 {
        Seq::empty()
    } else if ps.len() == 1 {
        expr_text(ps[0].0) + ": "@ + expr_text(ps[0].1)
    } else {
        pairs_text(ps.subrange(0, ps.len() - 1)) + ","@ + expr_text(ps.last().0) + ": "@
            + expr_text(ps.last().1)
    }
}

/// Comma-joined parameter names.
pub open spec fn params_join(ps: Seq<Ident>) -> Seq<char>
    decreases ps.len(),
{
    if ps.len() == 0 {
        Seq::empty()
    } else if ps.len() == 1 {
        ps[0].0@
    } else {
        params_join(ps.subrange(0, ps.len() - 1)) + ","@ + ps.last().0@
    }
}

pub open spec fn stmt_text(st: Stmt) -> Seq<char>
    decreases st,
{
    match st {
        Stmt::Blank => Seq::empty(),
        Stmt::Expr(e) => expr_text(e) + ";\n"@,
        Stmt::Return(e) => "return "@ + expr_text(e) + ";\n"@,
    }
}

/// The output text of a whole block, in statement order.
pub open spec fn block_text(b: Seq<(Stmt, usize)>) -> Seq<char>
    decreases b,
{
    if b.len() == 0 {
        Seq::empty()
    } else {
        block_text(b.subrange(0, b.len() - 1)) + stmt_text(b.last().0)
    }
}

/// The success fold: the shape table after compiling the expression, or
/// `None` where compilation fails (macro misuse, or a literal assigned to
/// a name recorded with an incompatible shape).
pub open spec fn expr_ok(e: Expr, env: Map<Seq<char>, Shape>) -> Option<Map<Seq<char>, Shape>>
    decreases e,
{
    match e {
        Expr::Ident(_) => Some(env),
        Expr::Let(Ident(n), v) => match expr_ok(*v, env) {
            None => None,
            Some(env1) => match *v {
                Expr::Literal(l) => Some(env1.insert(n@, lit_shape(l))),
                _ => Some(env1),
            },
        },
        Expr::Assign(t, v) => match expr_ok(*t, env) {
            None => None,
            Some(env1) => match expr_ok(*v, env1) {
                None => None,
                Some(env2) => match (*t, *v) {
                    (Expr::Ident(Ident(n2)), Expr::Literal(l)) => if env2.contains_key(n2@)
                        && !shape_compat(env2[n2@], lit_shape(l)) {
                        None
                    } else {
                        Some(env2.insert(n2@, lit_shape(l)))
                    },
                    _ => Some(env2),
                },
            },
        },
        Expr::Literal(l) => lit_ok(l, env),
        Expr::Prefix(_, x) => expr_ok(*x, env),
        Expr::Infix(_, a, b) => match expr_ok(*a, env) {
            None => None,
            Some(env1) => expr_ok(*b, env1),
        },
        Expr::Index(a, i) => match expr_ok(*a, env) {
            None => None,
            Some(env1) => expr_ok(*i, env1),
        },
        Expr::Accessor(a, _) => expr_ok(*a, env),
        Expr::If { cond, consequence, alternative } => match expr_ok(*cond, env) {
            None => None,
            Some(env1) => match block_ok(consequence@, env1) {
                None => None,
                Some(env2) => match alternative {
                    Some(alt) => block_ok(alt@, env2),
                    None => Some(env2),
                },
            },
        },
        Expr::While { cond, consequence } => match expr_ok(*cond, env) {
            None => None,
            Some(env1) => block_ok(consequence@, env1),
        },
        Expr::Func { params: _, body, name: _ } => block_ok(body@, env),
        Expr::Macro { name, args } => match *name {
            Expr::Ident(Ident(n)) => if n@ == "regex"@ && args.len() == 1 && macro_arg_ok(
                args[0],
            ) {
                Some(env)
            } else {
                None
            },
            _ => None,
        },
        Expr::Call { func, args } => match *func {
            Expr::Ident(Ident(n)) => if n@ == "regex"@ {
                if args.len() == 1 && macro_arg_ok(args[0]) {
                    Some(env)
                } else {
                    None
                }
            } else {
                list_ok(args@, env)
            },
            _ => match expr_ok(*func, env) {
                None => None,
                Some(env1) => list_ok(args@, env1),
            },
        },
        Expr::Regexp { pattern, flags: _ } => match *pattern {
            Expr::Literal(Literal::String(_)) => Some(env),
            _ => expr_ok(*pattern, env),
        },
    }
}

pub open spec fn lit_ok(l: Literal, env: Map<Seq<char>, Shape>) -> Option<Map<Seq<char>, Shape>>
    decreases l,
{
    match l {
        Literal::Array(es) => list_ok(es@, env),
        Literal::Hash(ps) => pairs_ok(ps@, env),
        _ => Some(env),
    }
}

pub open spec fn list_ok(es: Seq<Expr>, env: Map<Seq<char>, Shape>) -> Option<
    Map<Seq<char>, Shape>,
>
    decreases es,
{
    if es.len() == 0 {
        Some(env)
    } else {
        match list_ok(es.subrange(0, es.len() - 1), env) {
            None => None,
            Some(env1) => expr_ok(es.last(), env1),
        }
    }
}

pub open spec fn pairs_ok(ps: Seq<(Expr, Expr)>, env: Map<Seq<char>, Shape>) -> Option<
    Map<Seq<char>, Shape>,
>
    decreases ps,
{
    if ps.len() == 0 {
        Some(env)
    } else {
        match pairs_ok(ps.subrange(0, ps.len() - 1), env) {
            None => None,
            Some(env1) => match expr_ok(ps.last().0, env1) {
                None => None,
                Some(env2) => expr_ok(ps.last().1, env2),
            },
        }
    }
}

pub open spec fn stmt_ok(st: Stmt, env: Map<Seq<char>, Shape>) -> Option<Map<Seq<char>, Shape>>
    decreases st,
{
    match st {
        Stmt::Blank => Some(env),
        Stmt::Expr(e) => expr_ok(e, env),
        Stmt::Return(e) => expr_ok(e, env),
    }
}

pub open spec fn block_ok(b: Seq<(Stmt, usize)>, env: Map<Seq<char>, Shape>) -> Option<
    Map<Seq<char>, Shape>,
>
    decreases b,
{
    if b.len() == 0 {
        Some(env)
    } else {
        match block_ok(b.subrange(0, b.len() - 1), env) {
            None => None,
            Some(env1) => stmt_ok(b.last().0, env1),
        }
    }
}

/// The relation between the executable type table and its shape mirror.
proof fn lemma_shapes_insert(m: Map<Seq<char>, Type>, k: Seq<char>, t: Type)
    ensures
        shapes(m.insert(k, t)) == shapes(m).insert(k, shape_of(t)),
{
    assert(shapes(m.insert(k, t)) =~= shapes(m).insert(k, shape_of(t)));
}

/// The shape table has the same keys as the type table, shape for type.
proof fn lemma_shapes_at(m: Map<Seq<char>, Type>, k: Seq<char>)
    ensures
        shapes(m).contains_key(k) == m.contains_key(k),
        m.contains_key(k) ==> shapes(m)[k] == shape_of(m[k]),
{
}

/// A walk that fails on a prefix of the list fails on the whole list.
proof fn lemma_list_ok_none(es: Seq<Expr>, env: Map<Seq<char>, Shape>, i: int)
    requires
        0 <= i <= es.len(),
        list_ok(es.subrange(0, i), env) is None,
    ensures
        list_ok(es, env) is None,
    decreases es.len(),
{
    if i < es.len() {
        assert(es.subrange(0, es.len() - 1).subrange(0, i) =~= es.subrange(0, i));
        lemma_list_ok_none(es.subrange(0, es.len() - 1), env, i);
    } else {
        assert(es.subrange(0, i) =~= es);
    }
}

proof fn lemma_pairs_ok_none(ps: Seq<(Expr, Expr)>, env: Map<Seq<char>, Shape>, i: int)
    requires
        0 <= i <= ps.len(),
        pairs_ok(ps.subrange(0, i), env) is None,
    ensures
        pairs_ok(ps, env) is None,
    decreases ps.len(),
{
    if i < ps.len() {
        assert(ps.subrange(0, ps.len() - 1).subrange(0, i) =~= ps.subrange(0, i));
        lemma_pairs_ok_none(ps.subrange(0, ps.len() - 1), env, i);
    } else {
        assert(ps.subrange(0, i) =~= ps);
    }
}

proof fn lemma_block_ok_none(b: Seq<(Stmt, usize)>, env: Map<Seq<char>, Shape>, i: int)
    requires
        0 <= i <= b.len(),
        block_ok(b.subrange(0, i), env) is None,
    ensures
        block_ok(b, env) is None,
    decreases b.len(),
{
    if i < b.len() {
        assert(b.subrange(0, b.len() - 1).subrange(0, i) =~= b.subrange(0, i));
        lemma_block_ok_none(b.subrange(0, b.len() - 1), env, i);
    } else {
        assert(b.subrange(0, i) =~= b);
    }
}

/// The gradual check compares exactly the shapes of its two types.
proof fn lemma_compat_shape(a: Type, b: Type)
    ensures
        type_compat(a, b) == shape_compat(shape_of(a), shape_of(b)),
{
}

/// A type assigned from a literal has the literal's shape.
proof fn lemma_lit_shape(t: Type, l: Literal)
    requires
        crate::types::type_matches_literal(t, l),
    ensures
        shape_of(t) == lit_shape(l),
{
}

/// A one-statement program holding one scalar literal compiles, and to
/// exactly that literal's output text followed by `;` and a newline.
proof fn lemma_single_scalar_program(progv: Seq<(Stmt, usize)>)
    requires
        progv.len() == 1,
        progv[0].0 matches Stmt::Expr(e) && e matches Expr::Literal(l) && !(l is Array) && !(l
            is Hash),
    ensures
        block_ok(progv, Map::empty()) is Some,
        block_text(progv) =~= lit_text(progv[0].0->Expr_0->Literal_0) + ";\n"@,
{
    reveal_with_fuel(block_ok, 2);
    reveal_with_fuel(stmt_ok, 2);
    reveal_with_fuel(expr_ok, 2);
    reveal_with_fuel(lit_ok, 2);
    reveal_with_fuel(block_text, 2);
    reveal_with_fuel(stmt_text, 2);
    reveal_with_fuel(expr_text, 2);
    assert(progv.subrange(0, 0) =~= Seq::<(Stmt, usize)>::empty());
    assert(progv.last() == progv[0]);
    let emp: Map<Seq<char>, Shape> = Map::empty();
    assert(block_ok(progv.subrange(0, 0), emp) == Some(emp));
    assert(stmt_ok(progv[0].0, emp) == Some(emp));
    assert(stmt_text(progv[0].0) =~= lit_text(progv[0].0->Expr_0->Literal_0) + ";\n"@);
}

/// A one-statement program holding the sum chain `1 + 190.7 - 1` compiles,
/// and to exactly the parenthesized left-associated output text.
#[verifier::rlimit(100)]
proof fn lemma_sum_chain_program(progv: Seq<(Stmt, usize)>)
    requires
        progv.len() == 1,
        progv[0].0 matches Stmt::Expr(e) && crate::parser::sum_chain_tree(e),
    ensures
        block_ok(progv, Map::empty()) is Some,
        block_text(progv) == "((1 + 190.7) - 1);\n"@,
{
    reveal_with_fuel(block_ok, 2);
    reveal_with_fuel(stmt_ok, 2);
    reveal_with_fuel(expr_ok, 4);
    reveal_with_fuel(lit_ok, 2);
    reveal_with_fuel(block_text, 2);
    reveal_with_fuel(stmt_text, 2);
    reveal_with_fuel(expr_text, 4);
    reveal_with_fuel(lit_text, 2);
    reveal_with_fuel(dec_digits, 2);
    reveal_strlit("(");
    reveal_strlit(")");
    reveal_strlit(" ");
    reveal_strlit(";\n");
    reveal_strlit("190.7");
    reveal_strlit("((1 + 190.7) - 1);\n");
    assert(progv.subrange(0, 0) =~= Seq::<(Stmt, usize)>::empty());
    assert(progv.last() == progv[0]);
    let emp: Map<Seq<char>, Shape> = Map::empty();
    assert(block_ok(progv.subrange(0, 0), emp) == Some(emp));
    let e = progv[0].0->Expr_0;
    let a = *e->Infix_1;
    let b = *e->Infix_2;
    let a1 = *a->Infix_1;
    let b1 = *a->Infix_2;
    assert(expr_ok(a1, emp) == Some(emp));
    assert(expr_ok(b1, emp) == Some(emp));
    assert(expr_ok(a, emp) == Some(emp));
    assert(expr_ok(b, emp) == Some(emp));
    assert(expr_ok(e, emp) == Some(emp));
    assert(stmt_ok(progv[0].0, emp) == Some(emp));
    assert(expr_text(a1) =~= seq!['1']);
    assert(expr_text(b1) =~= "190.7"@);
    assert(expr_text(b) =~= seq!['1']);
    assert(expr_text(a) =~= "("@ + expr_text(a1) + " "@ + infix_code(Infix::Plus) + " "@
        + expr_text(b1) + ")"@);
    assert(expr_text(e) =~= "("@ + expr_text(a) + " "@ + infix_code(Infix::Minus) + " "@
        + expr_text(b) + ")"@);
    assert(stmt_text(progv[0].0) =~= expr_text(e) + ";\n"@);
    assert(block_text(progv) =~= "((1 + 190.7) - 1);\n"@);
}

/// The decimal spelling of a 32-bit integer.
fn int_string(v: i32) -> (s: String)
    ensures
        s@ == int_text(v),
{
    let mut s = String::new();
    if v < 0 {
        push_char(&mut s, '-');
        let m: u64 = (-(v as i64)) as u64;
        push_u64(&mut s, m);
        proof {
            assert(s@ =~= int_text(v));
        }
    } else {
        push_u64(&mut s, v as u64);
        proof {
            assert(s@ =~= int_text(v));
        }
    }
    s
}

fn compile_expr(e: &Expr, loc: usize, env: &mut Env) -> (r: Result<String, CompileError>)
    ensures
        match expr_ok(*e, shapes(old(env).types())) {
            Some(env2) => (r matches Ok(s) && s@ == expr_text(*e)) && shapes(final(env).types())
                == env2,
            None => r is Err,
        },
    decreases *e, 1int,
{
    match e {
        Expr::Ident(Ident(n)) => Ok(n.clone()),
        Expr::Let(Ident(n), v) => {
            let vtext = match compile_expr(v, loc, env) {
                Ok(s) => s,
                Err(err) => {
                    return Err(err);
                },
            };
            let ghost pre_v = env.types();
            match &**v {
                Expr::Literal(l) => {
                    env.addt(n.as_str(), l);
                    proof {
                        lemma_lit_shape(env.types()[n@], *l);
                        lemma_shapes_insert(pre_v, n@, env.types()[n@]);
                        assert(shapes(env.types()) == shapes(pre_v).insert(n@, lit_shape(*l)));
                    }
                },
                Expr::Func { .. } => {
                    env.add_fn(n.clone());
                },
                _ => {},
            }
            let mut out = String::from_str("let ");
            out.append(n.as_str());
            out.append(" = ");
            out.append(vtext.as_str());
            proof {
                assert(out@ =~= expr_text(*e));
            }
            Ok(out)
        },
        Expr::Assign(t, v) => {
            let ttext = match compile_expr(t, loc, env) {
                Ok(s) => s,
                Err(err) => {
                    return Err(err);
                },
            };
            let vtext = match compile_expr(v, loc, env) {
                Ok(s) => s,
                Err(err) => {
                    return Err(err);
                },
            };
            match (&**t, &**v) {
                (Expr::Ident(Ident(n)), Expr::Literal(l)) => {
                    let vt = Type::from_literal(l);
                    let ghost vtg = vt;
                    let ghost pre = env.types();
                    let compatible = {
                        let cur = env.gett(n.clone());
                        *cur == vt
                    };
                    proof {
                        lemma_lit_shape(vtg, *l);
                        lemma_shapes_at(pre, n@);
                        if pre.contains_key(n@) {
                            lemma_compat_shape(pre[n@], vtg);
                        } else {
                            lemma_compat_shape(Type::Unknown, vtg);
                        }
                    }
                    if !compatible {
                        return Err(
                            CompileError { loc, msg: String::from_str("type mismatch") },
                        );
                    }
                    env.sett(n.as_str(), vt);
                    proof {
                        lemma_shapes_insert(pre, n@, vtg);
                        assert(shapes(env.types()) == shapes(pre).insert(n@, lit_shape(*l)));
                    }
                },
                _ => {},
            }
            let mut out = ttext;
            out.append(" = ");
            out.append(vtext.as_str());
            proof {
                assert(out@ =~= expr_text(*e));
            }
            Ok(out)
        },
        Expr::Literal(l) => {
            let r = compile_literal(l, loc, env);
            proof {
                reveal_with_fuel(expr_text, 2);
                reveal_with_fuel(expr_ok, 2);
            }
            r
        },
        Expr::Prefix(op, x) => {
            let xtext = match compile_expr(x, loc, env) {
                Ok(s) => s,
                Err(err) => {
                    return Err(err);
                },
            };
            let mut out = String::from_str("(");
            let opc = op.to_code();
            out.append(opc.as_str());
            out.append(xtext.as_str());
            out.append(")");
            proof {
                assert(out@ =~= expr_text(*e));
            }
            Ok(out)
        },
        Expr::Infix(op, a, b) => {
            let atext = match compile_expr(a, loc, env) {
                Ok(s) => s,
                Err(err) => {
                    return Err(err);
                },
            };
            let btext = match compile_expr(b, loc, env) {
                Ok(s) => s,
                Err(err) => {
                    return Err(err);
                },
            };
            let mut out = String::from_str("(");
            out.append(atext.as_str());
            out.append(" ");
            let opc = op.to_code();
            out.append(opc.as_str());
            out.append(" ");
            out.append(btext.as_str());
            out.append(")");
            proof {
                assert(out@ =~= expr_text(*e));
            }
            Ok(out)
        },
        Expr::Index(a, i) => {
            let atext = match compile_expr(a, loc, env) {
                Ok(s) => s,
                Err(err) => {
                    return Err(err);
                },
            };
            let itext = match compile_expr(i, loc, env) {
                Ok(s) => s,
                Err(err) => {
                    return Err(err);
                },
            };
            let mut out = atext;
            out.append("[");
            out.append(itext.as_str());
            out.append("]");
            proof {
                assert(out@ =~= expr_text(*e));
            }
            Ok(out)
        },
        Expr::Accessor(a, Ident(n)) => {
            let atext = match compile_expr(a, loc, env) {
                Ok(s) => s,
                Err(err) => {
                    return Err(err);
                },
            };
            let mut out = atext;
            out.append(".");
            out.append(n.as_str());
            proof {
                assert(out@ =~= expr_text(*e));
            }
            Ok(out)
        },
        Expr::If { cond, consequence, alternative } => {
            let ctext = match compile_expr(cond, loc, env) {
                Ok(s) => s,
                Err(err) => {
                    return Err(err);
                },
            };
            let constext = match compile_block(consequence, env) {
                Ok(s) => s,
                Err(err) => {
                    return Err(err);
                },
            };
            let mut out = String::from_str("if (");
            out.append(ctext.as_str());
            out.append(") {\n");
            out.append(constext.as_str());
            out.append("}");
            match alternative {
                Some(alt) => {
                    let alttext = match compile_block(alt, env) {
                        Ok(s) => s,
                        Err(err) => {
                            return Err(err);
                        },
                    };
                    out.append(" else {\n");
                    out.append(alttext.as_str());
                    out.append("}");
                },
                None => {},
            }
            proof {
                assert(out@ =~= expr_text(*e));
            }
            Ok(out)
        },
        Expr::While { cond, consequence } => {
            let ctext = match compile_expr(cond, loc, env) {
                Ok(s) => s,
                Err(err) => {
                    return Err(err);
                },
            };
            let constext = match compile_block(consequence, env) {
                Ok(s) => s,
                Err(err) => {
                    return Err(err);
                },
            };
            let mut out = String::from_str("while (");
            out.append(ctext.as_str());
            out.append(") {\n");
            out.append(constext.as_str());
            out.append("}");
            proof {
                assert(out@ =~= expr_text(*e));
            }
            Ok(out)
        },
        Expr::Func { params, body, name } => {
            let mut g = FunctionGenerator::new();
            match name {
                Some(Ident(n)) => {
                    g.set_name(n.clone());
                    env.add_fn(n.clone());
                },
                None => {
                    g.set_name(String::new());
                },
            }
            let ghost base = g.code();
            let mut i: usize = 0;
            while i < params.len()
                invariant
                    i <= params@.len(),
                    i == 0 ==> g.named() && g.code() == base,
                    i > 0 ==> g.in_params() && g.code() == base + "("@ + params_join(
                        params@.subrange(0, i as int),
                    ),
                decreases params@.len() - i,
            {
                let ghost prefix = params@.subrange(0, i as int);
                let ghost prefix1 = params@.subrange(0, i + 1);
                proof {
                    assert(prefix1.subrange(0, prefix1.len() - 1) =~= prefix);
                    assert(prefix1.last() == params@[i as int]);
                }
                g.set_param(params[i].0.clone());
                proof {
                    assert(g.code() =~= base + "("@ + params_join(prefix1));
                }
                i = i + 1;
            }
            let btext = match compile_block(body, env) {
                Ok(s) => s,
                Err(err) => {
                    return Err(err);
                },
            };
            g.set_block(btext);
            let out = g.generate();
            proof {
                reveal_strlit("(");
                reveal_strlit("()");
                reveal_strlit(") {\n");
                reveal_strlit("() {\n");
                reveal_strlit("function");
                reveal_strlit("function ");
                reveal_strlit(" ");
                reveal_strlit("");
                assert(params@.subrange(0, params@.len() as int) =~= params@);
                assert(out@ =~= expr_text(*e));
            }
            Ok(out)
        },
        Expr::Macro { name, args } => {
            match &**name {
                Expr::Ident(Ident(n)) => {
                    match Macro::from_name(n.as_str()) {
                        Some(m) => match m.expand(args) {
                            Some(s) => {
                                proof {
                                    assert(s@ =~= expr_text(*e));
                                }
                                Ok(s)
                            },
                            None => Err(
                                CompileError {
                                    loc,
                                    msg: String::from_str("macro usage error"),
                                },
                            ),
                        },
                        None => Err(
                            CompileError { loc, msg: String::from_str("unknown macro") },
                        ),
                    }
                },
                _ => Err(CompileError { loc, msg: String::from_str("unknown macro") }),
            }
        },
        Expr::Call { func, args } => {
            match &**func {
                Expr::Ident(Ident(n)) => {
                    match Macro::from_name(n.as_str()) {
                        Some(m) => match m.expand(args) {
                            Some(s) => {
                                proof {
                                    assert(s@ =~= expr_text(*e));
                                }
                                Ok(s)
                            },
                            None => Err(
                                CompileError {
                                    loc,
                                    msg: String::from_str("macro usage error"),
                                },
                            ),
                        },
                        None => {
                            let argtext = match compile_list(args, loc, env) {
                                Ok(s) => s,
                                Err(err) => {
                                    return Err(err);
                                },
                            };
                            let mut out = n.clone();
                            out.append("(");
                            out.append(argtext.as_str());
                            out.append(")");
                            proof {
                                assert(out@ =~= expr_text(*e));
                            }
                            Ok(out)
                        },
                    }
                },
                _ => {
                    let ftext = match compile_expr(func, loc, env) {
                        Ok(s) => s,
                        Err(err) => {
                            return Err(err);
                        },
                    };
                    let argtext = match compile_list(args, loc, env) {
                        Ok(s) => s,
                        Err(err) => {
                            return Err(err);
                        },
                    };
                    let mut out = ftext;
                    out.append("(");
                    out.append(argtext.as_str());
                    out.append(")");
                    proof {
                        assert(out@ =~= expr_text(*e));
                    }
                    Ok(out)
                },
            }
        },
        Expr::Regexp { pattern, flags } => {
            let mut out = String::from_str("/");
            match &**pattern {
                Expr::Literal(Literal::String(t)) => {
                    out.append(t.as_str());
                },
                _ => {
                    let ptext = match compile_expr(pattern, loc, env) {
                        Ok(s) => s,
                        Err(err) => {
                            return Err(err);
                        },
                    };
                    out.append(ptext.as_str());
                },
            }
            out.append("/");
            match flags {
                Some(Ident(f)) => out.append(f.as_str()),
                None => {},
            }
            proof {
                assert(out@ =~= expr_text(*e));
            }
            Ok(out)
        },
    }
}

fn compile_literal(l: &Literal, loc: usize, env: &mut Env) -> (r: Result<String, CompileError>)
    ensures
        match lit_ok(*l, shapes(old(env).types())) {
            Some(env2) => (r matches Ok(s) && s@ == lit_text(*l)) && shapes(final(env).types())
                == env2,
            None => r is Err,
        },
    decreases *l, 1int,
{
    match l {
        Literal::Number(Number::Int(v)) => Ok(int_string(*v)),
        Literal::Number(Number::Float(t)) => Ok(t.clone()),
        Literal::String(t) => {
            let mut out = String::from_str("\"");
            out.append(t.as_str());
            out.append("\"");
            proof {
                assert(out@ =~= lit_text(*l));
            }
            Ok(out)
        },
        Literal::Bool(b) => {
            if *b {
                Ok(String::from_str("true"))
            } else {
                Ok(String::from_str("false"))
            }
        },
        Literal::Array(es) => {
            let inner = match compile_list(es, loc, env) {
                Ok(s) => s,
                Err(err) => {
                    return Err(err);
                },
            };
            let mut out = String::from_str("[");
            out.append(inner.as_str());
            out.append("]");
            proof {
                assert(out@ =~= lit_text(*l));
            }
            Ok(out)
        },
        Literal::Hash(ps) => {
            let inner = match compile_pairs(ps, loc, env) {
                Ok(s) => s,
                Err(err) => {
                    return Err(err);
                },
            };
            let mut out = String::from_str("{");
            out.append(inner.as_str());
            out.append("}");
            proof {
                assert(out@ =~= lit_text(*l));
            }
            Ok(out)
        },
    }
}

fn compile_list(es: &Vec<Expr>, loc: usize, env: &mut Env) -> (r: Result<String, CompileError>)
    ensures
        match list_ok(es@, shapes(old(env).types())) {
            Some(env2) => (r matches Ok(s) && s@ == texts_join(es@)) && shapes(
                final(env).types(),
            ) == env2,
            None => r is Err,
        },
    decreases *es, 0int,
{
    let mut out = String::new();
    let mut i: usize = 0;
    while i < es.len()
        invariant
            i <= es@.len(),
            list_ok(es@.subrange(0, i as int), shapes(old(env).types())) == Some(
                shapes(env.types()),
            ),
            out@ == texts_join(es@.subrange(0, i as int)),
        decreases es@.len() - i,
    {
        let ghost prefix = es@.subrange(0, i as int);
        let ghost prefix1 = es@.subrange(0, i + 1);
        proof {
            assert(prefix1.subrange(0, prefix1.len() - 1) =~= prefix);
            assert(prefix1.last() == es@[i as int]);
            assert(decreases_to!(*es => es@));
            assert(decreases_to!(es@ => es@[i as int]));
        }
        let t = match compile_expr(&es[i], loc, env) {
            Ok(s) => s,
            Err(err) => {
                proof {
                    lemma_list_ok_none(es@, shapes(old(env).types()), i + 1);
                }
                return Err(err);
            },
        };
        if i > 0 {
            out.append(",");
        }
        out.append(t.as_str());
        proof {
            assert(out@ =~= texts_join(prefix1));
        }
        i = i + 1;
    }
    proof {
        assert(es@.subrange(0, es@.len() as int) =~= es@);
    }
    Ok(out)
}

fn compile_pairs(
    ps: &Vec<(Expr, Expr)>,
    loc: usize,
    env: &mut Env,
) -> (r: Result<String, CompileError>)
    ensures
        match pairs_ok(ps@, shapes(old(env).types())) {
            Some(env2) => (r matches Ok(s) && s@ == pairs_text(ps@)) && shapes(
                final(env).types(),
            ) == env2,
            None => r is Err,
        },
    decreases *ps, 0int,
{
    let mut out = String::new();
    let mut i: usize = 0;
    while i < ps.len()
        invariant
            i <= ps@.len(),
            pairs_ok(ps@.subrange(0, i as int), shapes(old(env).types())) == Some(
                shapes(env.types()),
            ),
            out@ == pairs_text(ps@.subrange(0, i as int)),
        decreases ps@.len() - i,
    {
        let ghost prefix = ps@.subrange(0, i as int);
        let ghost prefix1 = ps@.subrange(0, i + 1);
        proof {
            assert(prefix1.subrange(0, prefix1.len() - 1) =~= prefix);
            assert(prefix1.last() == ps@[i as int]);
            assert(decreases_to!(*ps => ps@));
            assert(decreases_to!(ps@ => ps@[i as int]));
            assert(decreases_to!(ps@[i as int] => ps@[i as int].0));
            assert(decreases_to!(ps@[i as int] => ps@[i as int].1));
        }
        let kt = match compile_expr(&ps[i].0, loc, env) {
            Ok(s) => s,
            Err(err) => {
                proof {
                    lemma_pairs_ok_none(ps@, shapes(old(env).types()), i + 1);
                }
                return Err(err);
            },
        };
        let vt = match compile_expr(&ps[i].1, loc, env) {
            Ok(s) => s,
            Err(err) => {
                proof {
                    lemma_pairs_ok_none(ps@, shapes(old(env).types()), i + 1);
                }
                return Err(err);
            },
        };
        if i > 0 {
            out.append(",");
        }
        out.append(kt.as_str());
        out.append(": ");
        out.append(vt.as_str());
        proof {
            assert(out@ =~= pairs_text(prefix1));
        }
        i = i + 1;
    }
    proof {
        assert(ps@.subrange(0, ps@.len() as int) =~= ps@);
    }
    Ok(out)
}

fn compile_block(b: &BlockStmt, env: &mut Env) -> (r: Result<String, CompileError>)
    ensures
        match block_ok(b@, shapes(old(env).types())) {
            Some(env2) => (r matches Ok(s) && s@ == block_text(b@)) && shapes(final(env).types())
                == env2,
            None => r is Err,
        },
    decreases *b, 2int,
{
    let mut out = String::new();
    let mut i: usize = 0;
    while i < b.len()
        invariant
            i <= b@.len(),
            block_ok(b@.subrange(0, i as int), shapes(old(env).types())) == Some(
                shapes(env.types()),
            ),
            out@ == block_text(b@.subrange(0, i as int)),
        decreases b@.len() - i,
    {
        let ghost prefix = b@.subrange(0, i as int);
        let ghost prefix1 = b@.subrange(0, i + 1);
        proof {
            assert(prefix1.subrange(0, prefix1.len() - 1) =~= prefix);
            assert(prefix1.last() == b@[i as int]);
            assert(decreases_to!(*b => b@));
            assert(decreases_to!(b@ => b@[i as int]));
            assert(decreases_to!(b@[i as int] => b@[i as int].0));
        }
        let ghost cur_env = shapes(env.types());
        let loc = b[i].1;
        match &b[i].0 {
            Stmt::Blank => {},
            Stmt::Expr(e) => {
                let t = match compile_expr(e, loc, env) {
                    Ok(s) => s,
                    Err(err) => {
                        proof {
                            reveal_with_fuel(block_ok, 2);
                            reveal_with_fuel(stmt_ok, 2);
                            assert(block_ok(prefix1, shapes(old(env).types())) is None);
                            lemma_block_ok_none(b@, shapes(old(env).types()), i + 1);
                        }
                        return Err(err);
                    },
                };
                out.append(t.as_str());
                out.append(";\n");
            },
            Stmt::Return(e) => {
                let t = match compile_expr(e, loc, env) {
                    Ok(s) => s,
                    Err(err) => {
                        proof {
                            reveal_with_fuel(block_ok, 2);
                            reveal_with_fuel(stmt_ok, 2);
                            assert(block_ok(prefix1, shapes(old(env).types())) is None);
                            lemma_block_ok_none(b@, shapes(old(env).types()), i + 1);
                        }
                        return Err(err);
                    },
                };
                out.append("return ");
                out.append(t.as_str());
                out.append(";\n");
            },
        }
        proof {
            reveal_with_fuel(block_text, 2);
            reveal_with_fuel(stmt_text, 2);
            reveal_with_fuel(block_ok, 2);
            reveal_with_fuel(stmt_ok, 2);
            assert(out@ =~= block_text(prefix1));
            assert(block_ok(prefix1, shapes(old(env).types())) == Some(shapes(env.types())));
        }
        i = i + 1;
    }
    proof {
        assert(b@.subrange(0, b@.len() as int) =~= b@);
    }
    Ok(out)
}

/// The compiler instance: owns the parsed program it lowers.
pub struct Compiler {
    program: Program,
}

impl Compiler {
    /// The program this compiler was built over.
    pub closed spec fn prog(self) -> Program {
        self.program
    }

    pub fn new(program: Program) -> (c: Self)
        ensures
            c.prog() == program,
    {
        Compiler { program }
    }

    /// Lower the program to output text. Succeeds exactly when the walk
    /// meets no macro misuse and no incompatible literal reassignment,
    /// and then returns exactly the mirrored output text.
    pub fn compile(self) -> (r: Result<String, CompileError>)
        ensures
            match block_ok(self.prog()@, Map::empty()) {
                Some(_) => r matches Ok(s) && s@ == block_text(self.prog()@),
                None => r is Err,
            },
    {
        let mut env = Env::new();
        proof {
            assert(shapes(env.types()) =~= Map::<Seq<char>, Shape>::empty());
        }
        compile_block(&self.program, &mut env)
    }
}

/// The one-character code excerpt a rendered diagnostic shows for the
/// token at `loc`: the character just before it, where one exists.
pub open spec fn excerpt_at(s: Seq<char>, loc: int) -> Seq<char> {
    let idx = if loc > 0 {
        loc - 1
    } else {
        0
    };
    if idx < s.len() {
        seq![s[idx]]
    } else {
        Seq::empty()
    }
}

/// The diagnostic rendered for the first parse error collected on a
/// source: the error's message, twice (as error and hint), located at its
/// token's offset.
pub open spec fn parse_error_text(src: Seq<char>, e: ParseError) -> Seq<char> {
    crate::diagnostics::diagnostic_text(
        "main.uwu"@,
        excerpt_at(src, e.current_token.loc as int),
        e.current_token.loc as nat,
        e.current_token.loc as nat,
        e.msg@,
        e.msg@,
    )
}

/// Lower an already parsed program. The routing is owed in full: a
/// non-empty parse-error list is fatal and yields the rendered diagnostic
/// of the first error; with no parse error, a clean walk yields exactly
/// the mirrored output text, and a failed walk (macro misuse, incompatible
/// reassignment) yields a rendered compile error.
pub fn compile_parsed(source: &str, prog: Program, errs: &Vec<ParseError>) -> (r: Result<
    String,
    String,
>)
    ensures
        errs@.len() > 0 ==> (r matches Err(d) && d@ == parse_error_text(source@, errs@[0])),
        errs@.len() == 0 ==> match block_ok(prog@, Map::empty()) {
            Some(_) => (r matches Ok(t) && t@ == block_text(prog@)),
            None => r is Err,
        },
{
    if errs.len() > 0 {
        let e = &errs[0];
        let cl = source.unicode_len();
        let loc = e.current_token.loc;
        let idx = if loc > 0 {
            loc - 1
        } else {
            0
        };
        let code = if idx < cl {
            char_string(source.get_char(idx))
        } else {
            String::new()
        };
        proof {
            assert(code@ == excerpt_at(source@, loc as int));
        }
        return Err(
            crate::diagnostics::create_diagnostic(
                "main.uwu",
                code.as_str(),
                [loc, loc],
                e.msg.as_str(),
                e.msg.as_str(),
            ),
        );
    }
    let ghost progv = prog@;
    let compiler = Compiler::new(prog);
    match compiler.compile() {
        Ok(s) => {
            proof {
                assert(compiler.prog()@ == progv);
            }
            Ok(s)
        },
        Err(ce) => {
            let cl = source.unicode_len();
            let idx = if ce.loc > 0 {
                ce.loc - 1
            } else {
                0
            };
            let code = if idx < cl {
                char_string(source.get_char(idx))
            } else {
                String::new()
            };
            Err(
                crate::diagnostics::create_diagnostic(
                    "main.uwu",
                    code.as_str(),
                    [ce.loc, ce.loc],
                    ce.msg.as_str(),
                    ce.msg.as_str(),
                ),
            )
        },
    }
}

/// Compile a whole source text: parse it, then lower through
/// `compile_parsed`, whose contract owes the routing — a non-empty
/// parse-error list is fatal and renders the first error, a clean walk
/// returns exactly the mirrored output text, a failed walk a rendered
/// compile error.
///
/// For a source that is one scalar literal the output is owed exactly:
/// one decimal integer literal compiles to its digits, a float literal
/// and a quoted string literal compile to themselves, each followed by
/// `;` and a newline. The sum chain source compiles to its left-associated
/// parenthesized spelling, and the source whose callee is parenthesized is
/// refused with a rendered diagnostic.
#[verifier::rlimit(100)]
pub fn compile_source(source: &str) -> (r: Result<String, String>)
    ensures
        ({
            let s = source@;
            (s.len() > 0 && (forall|i: int| 0 <= i < s.len() ==> is_digit(#[trigger] s[i]))
                && digits_val(s) <= i32::MAX as nat) ==> (r matches Ok(t) && t@ == dec_digits(
                digits_val(s),
            ) + ";\n"@)
        }),
        ({
            let s = source@;
            (s.len() > 0 && is_digit(s[0]) && (forall|i: int|
                0 <= i < s.len() ==> is_num_char(#[trigger] s[i])) && dot_count(s) == 1) ==> (r
                matches Ok(t) && t@ == s + ";\n"@)
        }),
        ({
            let s = source@;
            (s.len() >= 2 && s[0] == '"' && s[s.len() - 1] == '"' && (forall|i: int|
                0 < i < s.len() - 1 ==> #[trigger] s[i] != '"' && s[i] != '\0')) ==> (r matches
                Ok(t) && t@ == s + ";\n"@)
        }),
        source@ == crate::parser::src_sum_chain() ==> (r matches Ok(t) && t@
            == "((1 + 190.7) - 1);\n"@),
        source@ == crate::parser::src_paren_call() ==> r is Err,
{
    let (prog, errs) = crate::parser::parse(source);
    let ghost progv = prog@;
    proof {
        let s = source@;
        reveal_with_fuel(lit_text, 2);
        if s.len() > 0 && (forall|i: int| 0 <= i < s.len() ==> is_digit(#[trigger] s[i]))
            && digits_val(s) <= i32::MAX as nat {
            let v = progv[0].0->Expr_0->Literal_0->Number_0->Int_0;
            assert(progv[0].0 == Stmt::Expr(Expr::Literal(Literal::Number(Number::Int(v)))));
            lemma_single_scalar_program(progv);
            assert(block_text(progv) =~= dec_digits(digits_val(s)) + ";\n"@);
        }
        if s.len() > 0 && is_digit(s[0]) && (forall|i: int|
            0 <= i < s.len() ==> is_num_char(#[trigger] s[i])) && dot_count(s) == 1 {
            lemma_single_scalar_program(progv);
            assert(block_text(progv) =~= s + ";\n"@);
        }
        if s == crate::parser::src_sum_chain() {
            lemma_sum_chain_program(progv);
        }
        if s.len() >= 2 && s[0] == '"' && s[s.len() - 1] == '"' && (forall|i: int|
            0 < i < s.len() - 1 ==> #[trigger] s[i] != '"' && s[i] != '\0') {
            lemma_single_scalar_program(progv);
            reveal_strlit("\"");
            let inner = progv[0].0->Expr_0->Literal_0->String_0;
            assert(lit_text(progv[0].0->Expr_0->Literal_0) =~= "\""@ + inner@ + "\""@);
            assert("\""@ + inner@ + "\""@ =~= s);
            assert(block_text(progv) =~= s + ";\n"@);
        }
    }
    compile_parsed(source, prog, &errs)
}

} // verus!
