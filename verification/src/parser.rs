//! The parser: recursive descent with precedence climbing, pulling tokens
//! from the lexer on demand with one token of lookahead. Parsing never
//! aborts: failed productions record an error and the walk continues, so
//! the caller receives a best-effort program plus the collected errors.
//!
//! Two guarantees are part of the contracts here: every program returned
//! satisfies `calls_direct_block` (a call's target is always a bare
//! identifier), and a source consisting of a single literal parses to
//! exactly that literal (see the free `parse` function).

use vstd::prelude::*;
use crate::ast::{BlockStmt, Expr, Ident, Infix, Literal, Precedence, Prefix, Program, Stmt};
use crate::ast::{calls_direct_block, calls_direct_expr, calls_direct_stmt};
use crate::ast::prec_rank;
use crate::tokens::{Node, Number, Token};
use crate::tokenizer::{Lexer, skip_pos, token_from, is_digit, is_num_char, dot_count, digits_val};
use crate::tokenizer::{lemma_no_dot_count, char_at, op_token, op2, ident_end, num_end, str_close, rx_close, is_kw_text, kw_token};

verus! {

#[derive(Debug, Clone, Copy, PartialEq, Eq, Structural)]
pub enum ParseErrorKind {
    UnexpectedToken,
}

/// A recorded parse error: what went wrong, a display message, and the
/// token at which it was noticed.
#[derive(Debug, PartialEq)]
pub struct ParseError {
    pub kind: ParseErrorKind,
    pub msg: String,
    pub current_token: Node,
}

/// Structural equality of two tokens, comparing payload texts by content.
pub open spec fn tok_same(a: Token, b: Token) -> bool {
    match (a, b) {
        (Token::Ident(x), Token::Ident(y)) => x@ == y@,
        (Token::Number(Number::Int(x)), Token::Number(Number::Int(y))) => x == y,
        (Token::Number(Number::Float(x)), Token::Number(Number::Float(y))) => x@ == y@,
        (Token::Bool(x), Token::Bool(y)) => x == y,
        (Token::String(x), Token::String(y)) => x@ == y@,
        (Token::Regexp(p1, f1), Token::Regexp(p2, f2)) => p1@ == p2@ && f1@ == f2@,
        (Token::Illegal, Token::Illegal) => true,
        (Token::Blank, Token::Blank) => true,
        (Token::Eof, Token::Eof) => true,
        (Token::Assign, Token::Assign) => true,
        (Token::If, Token::If) => true,
        (Token::Else, Token::Else) => true,
        (Token::While, Token::While) => true,
        (Token::Let, Token::Let) => true,
        (Token::Return, Token::Return) => true,
        (Token::Plus, Token::Plus) => true,
        (Token::Minus, Token::Minus) => true,
        (Token::Bang, Token::Bang) => true,
        (Token::Asterisk, Token::Asterisk) => true,
        (Token::Slash, Token::Slash) => true,
        (Token::Caret, Token::Caret) => true,
        (Token::Percent, Token::Percent) => true,
        (Token::PlusAssign, Token::PlusAssign) => true,
        (Token::MulAssign, Token::MulAssign) => true,
        (Token::DivAssign, Token::DivAssign) => true,
        (Token::SubAssign, Token::SubAssign) => true,
        (Token::Equal, Token::Equal) => true,
        (Token::NotEqual, Token::NotEqual) => true,
        (Token::LessThan, Token::LessThan) => true,
        (Token::LessThanEqual, Token::LessThanEqual) => true,
        (Token::GreaterThan, Token::GreaterThan) => true,
        (Token::GreaterThanEqual, Token::GreaterThanEqual) => true,
        (Token::Comma, Token::Comma) => true,
        (Token::Dot, Token::Dot) => true,
        (Token::Colon, Token::Colon) => true,
        (Token::Semicolon, Token::Semicolon) => true,
        (Token::Lparen, Token::Lparen) => true,
        (Token::Rparen, Token::Rparen) => true,
        (Token::Lbrace, Token::Lbrace) => true,
        (Token::Rbrace, Token::Rbrace) => true,
        (Token::Lbracket, Token::Lbracket) => true,
        (Token::Rbracket, Token::Rbracket) => true,
        (Token::Func, Token::Func) => true,
        (Token::End, Token::End) => true,
        _ => false,
    }
}

pub fn tok_eq(a: &Token, b: &Token) -> (r: bool)
    ensures
        r == tok_same(*a, *b),
{
    match (a, b) {
        (Token::Ident(x), Token::Ident(y)) => *x == *y,
        (Token::Number(Number::Int(x)), Token::Number(Number::Int(y))) => *x == *y,
        (Token::Number(Number::Float(x)), Token::Number(Number::Float(y))) => *x == *y,
        (Token::Bool(x), Token::Bool(y)) => *x == *y,
        (Token::String(x), Token::String(y)) => *x == *y,
        (Token::Regexp(p1, f1), Token::Regexp(p2, f2)) => *p1 == *p2 && *f1 == *f2,
        (Token::Illegal, Token::Illegal) => true,
        (Token::Blank, Token::Blank) => true,
        (Token::Eof, Token::Eof) => true,
        (Token::Assign, Token::Assign) => true,
        (Token::If, Token::If) => true,
        (Token::Else, Token::Else) => true,
        (Token::While, Token::While) => true,
        (Token::Let, Token::Let) => true,
        (Token::Return, Token::Return) => true,
        (Token::Plus, Token::Plus) => true,
        (Token::Minus, Token::Minus) => true,
        (Token::Bang, Token::Bang) => true,
        (Token::Asterisk, Token::Asterisk) => true,
        (Token::Slash, Token::Slash) => true,
        (Token::Caret, Token::Caret) => true,
        (Token::Percent, Token::Percent) => true,
        (Token::PlusAssign, Token::PlusAssign) => true,
        (Token::MulAssign, Token::MulAssign) => true,
        (Token::DivAssign, Token::DivAssign) => true,
        (Token::SubAssign, Token::SubAssign) => true,
        (Token::Equal, Token::Equal) => true,
        (Token::NotEqual, Token::NotEqual) => true,
        (Token::LessThan, Token::LessThan) => true,
        (Token::LessThanEqual, Token::LessThanEqual) => true,
        (Token::GreaterThan, Token::GreaterThan) => true,
        (Token::GreaterThanEqual, Token::GreaterThanEqual) => true,
        (Token::Comma, Token::Comma) => true,
        (Token::Dot, Token::Dot) => true,
        (Token::Colon, Token::Colon) => true,
        (Token::Semicolon, Token::Semicolon) => true,
        (Token::Lparen, Token::Lparen) => true,
        (Token::Rparen, Token::Rparen) => true,
        (Token::Lbrace, Token::Lbrace) => true,
        (Token::Rbrace, Token::Rbrace) => true,
        (Token::Lbracket, Token::Lbracket) => true,
        (Token::Rbracket, Token::Rbracket) => true,
        (Token::Func, Token::Func) => true,
        (Token::End, Token::End) => true,
        _ => false,
    }
}

fn token_clone(t: &Token) -> (r: Token)
    ensures
        tok_same(*t, r),
{
    match t {
        Token::Ident(x) => Token::Ident(x.clone()),
        Token::Number(Number::Int(x)) => Token::Number(Number::Int(*x)),
        Token::Number(Number::Float(x)) => Token::Number(Number::Float(x.clone())),
        Token::Bool(x) => Token::Bool(*x),
        Token::String(x) => Token::String(x.clone()),
        Token::Regexp(p, f) => Token::Regexp(p.clone(), f.clone()),
        Token::Illegal => Token::Illegal,
        Token::Blank => Token::Blank,
        Token::Eof => Token::Eof,
        Token::Assign => Token::Assign,
        Token::If => Token::If,
        Token::Else => Token::Else,
        Token::While => Token::While,
        Token::Let => Token::Let,
        Token::Return => Token::Return,
        Token::Plus => Token::Plus,
        Token::Minus => Token::Minus,
        Token::Bang => Token::Bang,
        Token::Asterisk => Token::Asterisk,
        Token::Slash => Token::Slash,
        Token::Caret => Token::Caret,
        Token::Percent => Token::Percent,
        Token::PlusAssign => Token::PlusAssign,
        Token::MulAssign => Token::MulAssign,
        Token::DivAssign => Token::DivAssign,
        Token::SubAssign => Token::SubAssign,
        Token::Equal => Token::Equal,
        Token::NotEqual => Token::NotEqual,
        Token::LessThan => Token::LessThan,
        Token::LessThanEqual => Token::LessThanEqual,
        Token::GreaterThan => Token::GreaterThan,
        Token::GreaterThanEqual => Token::GreaterThanEqual,
        Token::Comma => Token::Comma,
        Token::Dot => Token::Dot,
        Token::Colon => Token::Colon,
        Token::Semicolon => Token::Semicolon,
        Token::Lparen => Token::Lparen,
        Token::Rparen => Token::Rparen,
        Token::Lbrace => Token::Lbrace,
        Token::Rbrace => Token::Rbrace,
        Token::Lbracket => Token::Lbracket,
        Token::Rbracket => Token::Rbracket,
        Token::Func => Token::Func,
        Token::End => Token::End,
    }
}

fn node_clone(n: &Node) -> (r: Node)
    ensures
        tok_same(n.token, r.token),
        r.ch@ == n.ch@,
        r.loc == n.loc,
{
    Node { token: token_clone(&n.token), ch: n.ch.clone(), loc: n.loc }
}

/// The numeric precedence rank of the infix-capable tokens; every other
/// token ranks as `Lowest`.
pub open spec fn spec_token_prec(t: Token) -> Precedence {
    match t {
        Token::Equal => Precedence::Equals,
        Token::NotEqual => Precedence::Equals,
        Token::LessThan => Precedence::LessGreater,
        Token::LessThanEqual => Precedence::LessGreater,
        Token::GreaterThan => Precedence::LessGreater,
        Token::GreaterThanEqual => Precedence::LessGreater,
        Token::Plus => Precedence::Sum,
        Token::Minus => Precedence::Sum,
        Token::Caret => Precedence::Sum,
        Token::Percent => Precedence::Sum,
        Token::Asterisk => Precedence::Product,
        Token::Slash => Precedence::Product,
        Token::Lparen => Precedence::Call,
        Token::Lbracket => Precedence::Index,
        Token::Dot => Precedence::Index,
        Token::Assign => Precedence::Assign,
        Token::PlusAssign => Precedence::Assign,
        Token::SubAssign => Precedence::Assign,
        Token::MulAssign => Precedence::Assign,
        Token::DivAssign => Precedence::Assign,
        _ => Precedence::Lowest,
    }
}

/// The precedence tier at which `t` binds as an infix-capable token.
pub fn token_precedence(t: &Token) -> (p: Precedence)
    ensures
        p == spec_token_prec(*t),
{
    match t {
        Token::Equal => Precedence::Equals,
        Token::NotEqual => Precedence::Equals,
        Token::LessThan => Precedence::LessGreater,
        Token::LessThanEqual => Precedence::LessGreater,
        Token::GreaterThan => Precedence::LessGreater,
        Token::GreaterThanEqual => Precedence::LessGreater,
        Token::Plus => Precedence::Sum,
        Token::Minus => Precedence::Sum,
        Token::Caret => Precedence::Sum,
        Token::Percent => Precedence::Sum,
        Token::Asterisk => Precedence::Product,
        Token::Slash => Precedence::Product,
        Token::Lparen => Precedence::Call,
        Token::Lbracket => Precedence::Index,
        Token::Dot => Precedence::Index,
        Token::Assign => Precedence::Assign,
        Token::PlusAssign => Precedence::Assign,
        Token::SubAssign => Precedence::Assign,
        Token::MulAssign => Precedence::Assign,
        Token::DivAssign => Precedence::Assign,
        _ => Precedence::Lowest,
    }
}

/// A token that is itself a complete literal expression.
pub open spec fn is_lit_token(t: Token) -> bool {
    ||| t matches Token::Number(_)
    ||| t matches Token::String(_)
    ||| t matches Token::Bool(_)
}

/// The literal that a literal token parses to.
pub open spec fn lit_match(t: Token, l: Literal) -> bool {
    match t {
        Token::Number(Number::Int(v)) => l matches Literal::Number(Number::Int(w)) && w == v,
        Token::Number(Number::Float(x)) => l matches Literal::Number(Number::Float(y)) && y@
            == x@,
        Token::String(x) => l matches Literal::String(y) && y@ == x@,
        Token::Bool(b) => l matches Literal::Bool(c) && c == b,
        _ => false,
    }
}

// --- Concrete parsing laws --------------------------------------------
//
// The grammar's laws beyond single literals are stated on representative
// sources: operator precedence and left associativity, element and pair
// order of array and hash literals, conditional structure, regexp
// literals, index-assignment, and the error owed to a call whose callee
// is not a bare identifier. Each `src_*` function names such a source,
// each `*_tree` predicate the exact program it must parse to, and the
// contracts of `Parser::parse` and the free `parse` state the law.

pub open spec fn src_sum_chain() -> Seq<char> {
    "1 + 190.7 - 1"@
}

pub open spec fn src_array3() -> Seq<char> {
    "[1,2,3]"@
}

pub open spec fn src_hash_kv() -> Seq<char> {
    "{\"k\":\"v\"}"@
}

pub open spec fn src_paren_call() -> Seq<char> {
    "(1+2)(3)"@
}

pub open spec fn src_if_empty() -> Seq<char> {
    "if(true): end"@
}

pub open spec fn src_if_else() -> Seq<char> {
    "if(1<2): x else: y end"@
}

pub open spec fn src_regex_plain() -> Seq<char> {
    "/x/"@
}

pub open spec fn src_regex_flags() -> Seq<char> {
    "/a\\/b/g"@
}

pub open spec fn src_index_assign() -> Seq<char> {
    "a[0] = 5"@
}

/// The node holds the given payload-free token at the given offset.
pub open spec fn node_at(n: Node, t: Token, l: int) -> bool {
    n.token == t && n.loc == l
}

pub open spec fn int_node(n: Node, v: i32, l: int) -> bool {
    n.token matches Token::Number(Number::Int(w)) && w == v && n.loc == l
}

pub open spec fn float_node(n: Node, t: Seq<char>, l: int) -> bool {
    n.token matches Token::Number(Number::Float(x)) && x@ == t && n.loc == l
}

pub open spec fn str_node(n: Node, t: Seq<char>, l: int) -> bool {
    n.token matches Token::String(x) && x@ == t && n.loc == l
}

pub open spec fn ident_node(n: Node, t: Seq<char>, l: int) -> bool {
    n.token matches Token::Ident(x) && x@ == t && n.loc == l
}

pub open spec fn lit_int(e: Expr, v: i32) -> bool {
    e matches Expr::Literal(Literal::Number(Number::Int(w))) && w == v
}

pub open spec fn lit_float(e: Expr, t: Seq<char>) -> bool {
    e matches Expr::Literal(Literal::Number(Number::Float(x))) && x@ == t
}

pub open spec fn lit_str(e: Expr, t: Seq<char>) -> bool {
    e matches Expr::Literal(Literal::String(x)) && x@ == t
}

pub open spec fn ident_expr(e: Expr, t: Seq<char>) -> bool {
    e matches Expr::Ident(Ident(x)) && x@ == t
}

/// The expression is the bare identifier spelled by the identifier token.
pub open spec fn ident_match(t: Token, e: Expr) -> bool {
    t matches Token::Ident(nm) && e matches Expr::Ident(Ident(m)) && m@ == nm@
}

/// `1 + 190.7`, the left half of the sum chain.
pub open spec fn sum_chain_left(e: Expr) -> bool {
    e matches Expr::Infix(Infix::Plus, a, b) && lit_int(*a, 1) && lit_float(*b, "190.7"@)
}

/// `(1 + 190.7) - 1`: equal precedence resolved left to right.
pub open spec fn sum_chain_tree(e: Expr) -> bool {
    e matches Expr::Infix(Infix::Minus, a, b) && sum_chain_left(*a) && lit_int(*b, 1)
}

/// `1`, `2`, `3` in source order.
pub open spec fn array3_items(es: Seq<Expr>) -> bool {
    es.len() == 3 && lit_int(es[0], 1) && lit_int(es[1], 2) && lit_int(es[2], 3)
}

pub open spec fn array3_tree(e: Expr) -> bool {
    e matches Expr::Literal(Literal::Array(es)) && array3_items(es@)
}

/// One pair, the key `"k"` paired with the value `"v"`.
pub open spec fn hash_kv_tree(e: Expr) -> bool {
    e matches Expr::Literal(Literal::Hash(ps)) && ps@.len() == 1 && lit_str(ps@[0].0, "k"@)
        && lit_str(ps@[0].1, "v"@)
}

/// `1 < 2`.
pub open spec fn lt_tree(e: Expr) -> bool {
    e matches Expr::Infix(Infix::LessThan, a, b) && lit_int(*a, 1) && lit_int(*b, 2)
}

/// `if(true): end`: an empty consequence block and no alternative.
pub open spec fn if_empty_tree(e: Expr) -> bool {
    e matches Expr::If { cond, consequence, alternative } && (*cond matches Expr::Literal(
        Literal::Bool(b),
    ) && b == true) && consequence@.len() == 0 && alternative is None
}

/// `if(1<2): x else: y end`: both blocks populated, with their offsets.
pub open spec fn if_else_tree(e: Expr) -> bool {
    e matches Expr::If { cond, consequence, alternative } && lt_tree(*cond) && consequence@.len()
        == 1 && (consequence@[0].0 matches Stmt::Expr(x) && ident_expr(x, "x"@))
        && consequence@[0].1 == 9 && (alternative matches Some(alt) && alt@.len() == 1 && (
    alt@[0].0 matches Stmt::Expr(y) && ident_expr(y, "y"@)) && alt@[0].1 == 17)
}

/// `/x/`: the pattern `x`, no flags.
pub open spec fn regex_plain_tree(e: Expr) -> bool {
    e matches Expr::Regexp { pattern, flags } && lit_str(*pattern, "x"@) && flags is None
}

/// `/a\/b/g`: the escaped slash kept verbatim, the trailing flag `g`.
pub open spec fn regex_flags_tree(e: Expr) -> bool {
    e matches Expr::Regexp { pattern, flags } && lit_str(*pattern, seq!['a', '\\', '/', 'b']) && (
    flags matches Some(Ident(f)) && f@ == "g"@)
}

/// `a[0] = 5`: an assignment through an index expression.
pub open spec fn index_assign_tree(e: Expr) -> bool {
    e matches Expr::Assign(t, v) && (*t matches Expr::Index(a, i) && ident_expr(*a, "a"@)
        && lit_int(*i, 0)) && lit_int(*v, 5)
}

/// What the lexer hands back at each cursor position of the plain-regexp
/// source.
proof fn lemma_toks_regex_plain(p: int, n: Node, e: int)
    requires
        token_from(src_regex_plain(), p, n, e),
    ensures
        p == 0 ==> node_at(n, Token::Slash, 0) && e == 1,
        p == 1 ==> ident_node(n, "x"@, 1) && e == 2,
        p == 3 ==> n.token is Eof && n.loc == 3 && e == 3,
{
    reveal_strlit("/x/");
    reveal_strlit("x");
    reveal_strlit("if");
    reveal_strlit("let");
    reveal_strlit("else");
    reveal_strlit("while");
    reveal_strlit("fn");
    reveal_strlit("true");
    reveal_strlit("false");
    reveal_strlit("end");
    reveal_strlit("return");
    reveal_with_fuel(skip_pos, 5);
    reveal_with_fuel(ident_end, 5);
    let s = src_regex_plain();
    assert(s.len() == 3);
    assert(skip_pos(s, 0) == 0 && skip_pos(s, 1) == 1 && skip_pos(s, 3) == 3);
    assert(ident_end(s, 1) == 2);
    assert(s.subrange(1, 2) =~= "x"@);
    assert(!is_kw_text("x"@));
    assert(op_token('/', char_at(s, 1)) == Token::Slash);
}

/// What the lexer hands back at each cursor position of the sum-chain
/// source.
proof fn lemma_toks_sum_chain(p: int, n: Node, e: int)
    requires
        token_from(src_sum_chain(), p, n, e),
    ensures
        p == 0 ==> int_node(n, 1, 0) && e == 1,
        p == 1 ==> node_at(n, Token::Plus, 2) && e == 3,
        p == 3 ==> float_node(n, "190.7"@, 4) && e == 9,
        p == 9 ==> node_at(n, Token::Minus, 10) && e == 11,
        p == 11 ==> int_node(n, 1, 12) && e == 13,
        p == 13 ==> n.token is Eof && n.loc == 13 && e == 13,
{
    reveal_strlit("1 + 190.7 - 1");
    reveal_strlit("1");
    reveal_strlit("190.7");
    reveal_with_fuel(skip_pos, 5);
    reveal_with_fuel(num_end, 8);
    reveal_with_fuel(dot_count, 8);
    reveal_with_fuel(digits_val, 4);
    let s = src_sum_chain();
    assert(s.len() == 13);
    assert(skip_pos(s, 0) == 0 && skip_pos(s, 1) == 2 && skip_pos(s, 3) == 4 && skip_pos(s, 9)
        == 10 && skip_pos(s, 11) == 12 && skip_pos(s, 13) == 13);
    assert(num_end(s, 0) == 1 && num_end(s, 4) == 9 && num_end(s, 12) == 13);
    assert(s.subrange(0, 1) =~= "1"@);
    assert(s.subrange(4, 9) =~= "190.7"@);
    assert(s.subrange(12, 13) =~= "1"@);
    assert(dot_count("1"@) == 0 && digits_val("1"@) == 1);
    assert(dot_count("190.7"@) == 1);
    assert(op_token('+', char_at(s, 3)) == Token::Plus);
    assert(op_token('-', char_at(s, 11)) == Token::Minus);
}

/// What the lexer hands back at each cursor position of the
/// index-assignment source.
proof fn lemma_toks_index_assign(p: int, n: Node, e: int)
    requires
        token_from(src_index_assign(), p, n, e),
    ensures
        p == 0 ==> ident_node(n, "a"@, 0) && e == 1,
        p == 1 ==> node_at(n, Token::Lbracket, 1) && e == 2,
        p == 2 ==> int_node(n, 0, 2) && e == 3,
        p == 3 ==> node_at(n, Token::Rbracket, 3) && e == 4,
        p == 4 ==> node_at(n, Token::Assign, 5) && e == 6,
        p == 6 ==> int_node(n, 5, 7) && e == 8,
        p == 8 ==> n.token is Eof && n.loc == 8 && e == 8,
{
    reveal_strlit("a[0] = 5");
    reveal_strlit("a");
    reveal_strlit("0");
    reveal_strlit("5");
    reveal_strlit("if");
    reveal_strlit("let");
    reveal_strlit("else");
    reveal_strlit("while");
    reveal_strlit("fn");
    reveal_strlit("true");
    reveal_strlit("false");
    reveal_strlit("end");
    reveal_strlit("return");
    reveal_with_fuel(skip_pos, 5);
    reveal_with_fuel(num_end, 5);
    reveal_with_fuel(ident_end, 5);
    reveal_with_fuel(dot_count, 5);
    reveal_with_fuel(digits_val, 5);
    let s = src_index_assign();
    assert(s.len() == 8);
    assert(skip_pos(s, 0) == 0 && skip_pos(s, 1) == 1 && skip_pos(s, 2) == 2 && skip_pos(s, 3)
        == 3 && skip_pos(s, 4) == 5 && skip_pos(s, 6) == 7 && skip_pos(s, 8) == 8);
    assert(ident_end(s, 0) == 1);
    assert(num_end(s, 2) == 3 && num_end(s, 7) == 8);
    assert(s.subrange(0, 1) =~= "a"@);
    assert(s.subrange(2, 3) =~= "0"@);
    assert(s.subrange(7, 8) =~= "5"@);
    assert(!is_kw_text("a"@));
    assert(dot_count("0"@) == 0 && digits_val("0"@) == 0);
    assert(dot_count("5"@) == 0 && digits_val("5"@) == 5);
    assert(op_token('[', char_at(s, 2)) == Token::Lbracket);
    assert(op_token(']', char_at(s, 4)) == Token::Rbracket);
    assert(op_token('=', char_at(s, 6)) == Token::Assign);
}

/// What the lexer hands back at each cursor position of the array-literal
/// source.
proof fn lemma_toks_array3(p: int, n: Node, e: int)
    requires
        token_from(src_array3(), p, n, e),
    ensures
        p == 0 ==> node_at(n, Token::Lbracket, 0) && e == 1,
        p == 1 ==> int_node(n, 1, 1) && e == 2,
        p == 2 ==> node_at(n, Token::Comma, 2) && e == 3,
        p == 3 ==> int_node(n, 2, 3) && e == 4,
        p == 4 ==> node_at(n, Token::Comma, 4) && e == 5,
        p == 5 ==> int_node(n, 3, 5) && e == 6,
        p == 6 ==> node_at(n, Token::Rbracket, 6) && e == 7,
        p == 7 ==> n.token is Eof && n.loc == 7 && e == 7,
{
    reveal_strlit("[1,2,3]");
    reveal_strlit("1");
    reveal_strlit("2");
    reveal_strlit("3");
    reveal_with_fuel(skip_pos, 3);
    reveal_with_fuel(num_end, 3);
    reveal_with_fuel(dot_count, 3);
    reveal_with_fuel(digits_val, 3);
    let s = src_array3();
    assert(s.len() == 7);
    assert(skip_pos(s, 0) == 0 && skip_pos(s, 1) == 1 && skip_pos(s, 2) == 2 && skip_pos(s, 3)
        == 3 && skip_pos(s, 4) == 4 && skip_pos(s, 5) == 5 && skip_pos(s, 6) == 6 && skip_pos(
        s,
        7,
    ) == 7);
    assert(num_end(s, 1) == 2 && num_end(s, 3) == 4 && num_end(s, 5) == 6);
    assert(s.subrange(1, 2) =~= "1"@);
    assert(s.subrange(3, 4) =~= "2"@);
    assert(s.subrange(5, 6) =~= "3"@);
    assert(dot_count("1"@) == 0 && digits_val("1"@) == 1);
    assert(dot_count("2"@) == 0 && digits_val("2"@) == 2);
    assert(dot_count("3"@) == 0 && digits_val("3"@) == 3);
    assert(op_token('[', char_at(s, 1)) == Token::Lbracket);
    assert(op_token(',', char_at(s, 3)) == Token::Comma);
    assert(op_token(',', char_at(s, 5)) == Token::Comma);
    assert(op_token(']', char_at(s, 7)) == Token::Rbracket);
}

/// What the lexer hands back at each cursor position of the hash-literal
/// source.
proof fn lemma_toks_hash_kv(p: int, n: Node, e: int)
    requires
        token_from(src_hash_kv(), p, n, e),
    ensures
        p == 0 ==> node_at(n, Token::Lbrace, 0) && e == 1,
        p == 1 ==> str_node(n, "k"@, 2) && e == 4,
        p == 4 ==> node_at(n, Token::Colon, 4) && e == 5,
        p == 5 ==> str_node(n, "v"@, 6) && e == 8,
        p == 8 ==> node_at(n, Token::Rbrace, 8) && e == 9,
        p == 9 ==> n.token is Eof && n.loc == 9 && e == 9,
{
    reveal_strlit("{\"k\":\"v\"}");
    reveal_strlit("k");
    reveal_strlit("v");
    reveal_with_fuel(skip_pos, 3);
    reveal_with_fuel(str_close, 3);
    let s = src_hash_kv();
    assert(s.len() == 9);
    assert(skip_pos(s, 0) == 0 && skip_pos(s, 1) == 1 && skip_pos(s, 4) == 4 && skip_pos(s, 5)
        == 5 && skip_pos(s, 8) == 8 && skip_pos(s, 9) == 9);
    assert(str_close(s, 2) == 3 && str_close(s, 6) == 7);
    assert(s.subrange(2, 3) =~= "k"@);
    assert(s.subrange(6, 7) =~= "v"@);
    assert(op_token('{', char_at(s, 1)) == Token::Lbrace);
    assert(op_token(':', char_at(s, 5)) == Token::Colon);
    assert(op_token('}', char_at(s, 9)) == Token::Rbrace);
}

/// What the lexer hands back at each cursor position of the
/// parenthesized-callee source.
proof fn lemma_toks_paren_call(p: int, n: Node, e: int)
    requires
        token_from(src_paren_call(), p, n, e),
    ensures
        p == 0 ==> node_at(n, Token::Lparen, 0) && e == 1,
        p == 1 ==> int_node(n, 1, 1) && e == 2,
        p == 2 ==> node_at(n, Token::Plus, 2) && e == 3,
        p == 3 ==> int_node(n, 2, 3) && e == 4,
        p == 4 ==> node_at(n, Token::Rparen, 4) && e == 5,
        p == 5 ==> node_at(n, Token::Lparen, 5) && e == 6,
{
    reveal_strlit("(1+2)(3)");
    reveal_strlit("1");
    reveal_strlit("2");
    reveal_with_fuel(skip_pos, 3);
    reveal_with_fuel(num_end, 3);
    reveal_with_fuel(dot_count, 3);
    reveal_with_fuel(digits_val, 3);
    let s = src_paren_call();
    assert(s.len() == 8);
    assert(skip_pos(s, 0) == 0 && skip_pos(s, 1) == 1 && skip_pos(s, 2) == 2 && skip_pos(s, 3)
        == 3 && skip_pos(s, 4) == 4 && skip_pos(s, 5) == 5);
    assert(num_end(s, 1) == 2 && num_end(s, 3) == 4);
    assert(s.subrange(1, 2) =~= "1"@);
    assert(s.subrange(3, 4) =~= "2"@);
    assert(dot_count("1"@) == 0 && digits_val("1"@) == 1);
    assert(dot_count("2"@) == 0 && digits_val("2"@) == 2);
    assert(op_token('(', char_at(s, 1)) == Token::Lparen);
    assert(op_token('+', char_at(s, 3)) == Token::Plus);
    assert(op_token(')', char_at(s, 5)) == Token::Rparen);
    assert(op_token('(', char_at(s, 6)) == Token::Lparen);
}

/// What the lexer hands back at each cursor position of the
/// empty-conditional source.
proof fn lemma_toks_if_empty(p: int, n: Node, e: int)
    requires
        token_from(src_if_empty(), p, n, e),
    ensures
        p == 0 ==> node_at(n, Token::If, 0) && e == 2,
        p == 2 ==> node_at(n, Token::Lparen, 2) && e == 3,
        p == 3 ==> node_at(n, Token::Bool(true), 3) && e == 7,
        p == 7 ==> node_at(n, Token::Rparen, 7) && e == 8,
        p == 8 ==> node_at(n, Token::Colon, 8) && e == 9,
        p == 9 ==> node_at(n, Token::End, 10) && e == 13,
        p == 13 ==> n.token is Eof && n.loc == 13 && e == 13,
{
    reveal_strlit("if(true): end");
    reveal_strlit("if");
    reveal_strlit("let");
    reveal_strlit("else");
    reveal_strlit("while");
    reveal_strlit("fn");
    reveal_strlit("true");
    reveal_strlit("false");
    reveal_strlit("end");
    reveal_strlit("return");
    reveal_with_fuel(skip_pos, 3);
    reveal_with_fuel(ident_end, 6);
    let s = src_if_empty();
    assert(s.len() == 13);
    assert(skip_pos(s, 0) == 0 && skip_pos(s, 2) == 2 && skip_pos(s, 3) == 3 && skip_pos(s, 7)
        == 7 && skip_pos(s, 8) == 8 && skip_pos(s, 9) == 10 && skip_pos(s, 13) == 13);
    assert(ident_end(s, 0) == 2 && ident_end(s, 3) == 7 && ident_end(s, 10) == 13);
    assert(s.subrange(0, 2) =~= "if"@);
    assert(s.subrange(3, 7) =~= "true"@);
    assert(s.subrange(10, 13) =~= "end"@);
    assert("true"@ != "else"@) by {
        assert("true"@[0] == 't' && "else"@[0] == 'e');
    }
    assert("end"@ != "let"@) by {
        assert("end"@[0] == 'e' && "let"@[0] == 'l');
    }
    assert(kw_token("if"@) == Token::If);
    assert(kw_token("true"@) == Token::Bool(true));
    assert(kw_token("end"@) == Token::End);
    assert(op_token('(', char_at(s, 3)) == Token::Lparen);
    assert(op_token(')', char_at(s, 8)) == Token::Rparen);
    assert(op_token(':', char_at(s, 9)) == Token::Colon);
}

/// What the lexer hands back at each cursor position of the
/// conditional-with-alternative source.
proof fn lemma_toks_if_else(p: int, n: Node, e: int)
    requires
        token_from(src_if_else(), p, n, e),
    ensures
        p == 0 ==> node_at(n, Token::If, 0) && e == 2,
        p == 2 ==> node_at(n, Token::Lparen, 2) && e == 3,
        p == 3 ==> int_node(n, 1, 3) && e == 4,
        p == 4 ==> node_at(n, Token::LessThan, 4) && e == 5,
        p == 5 ==> int_node(n, 2, 5) && e == 6,
        p == 6 ==> node_at(n, Token::Rparen, 6) && e == 7,
        p == 7 ==> node_at(n, Token::Colon, 7) && e == 8,
        p == 8 ==> ident_node(n, "x"@, 9) && e == 10,
        p == 10 ==> node_at(n, Token::Else, 11) && e == 15,
        p == 15 ==> node_at(n, Token::Colon, 15) && e == 16,
        p == 16 ==> ident_node(n, "y"@, 17) && e == 18,
        p == 18 ==> node_at(n, Token::End, 19) && e == 22,
        p == 22 ==> n.token is Eof && n.loc == 22 && e == 22,
{
    reveal_strlit("if(1<2): x else: y end");
    reveal_strlit("x");
    reveal_strlit("y");
    reveal_strlit("1");
    reveal_strlit("2");
    reveal_strlit("if");
    reveal_strlit("let");
    reveal_strlit("else");
    reveal_strlit("while");
    reveal_strlit("fn");
    reveal_strlit("true");
    reveal_strlit("false");
    reveal_strlit("end");
    reveal_strlit("return");
    reveal_with_fuel(skip_pos, 3);
    reveal_with_fuel(ident_end, 6);
    reveal_with_fuel(num_end, 3);
    reveal_with_fuel(dot_count, 3);
    reveal_with_fuel(digits_val, 3);
    let s = src_if_else();
    assert(s.len() == 22);
    assert(skip_pos(s, 0) == 0 && skip_pos(s, 2) == 2 && skip_pos(s, 3) == 3 && skip_pos(s, 4)
        == 4 && skip_pos(s, 5) == 5 && skip_pos(s, 6) == 6 && skip_pos(s, 7) == 7 && skip_pos(
        s,
        8,
    ) == 9 && skip_pos(s, 10) == 11 && skip_pos(s, 15) == 15 && skip_pos(s, 16) == 17
        && skip_pos(s, 18) == 19 && skip_pos(s, 22) == 22);
    assert(ident_end(s, 0) == 2 && ident_end(s, 9) == 10 && ident_end(s, 11) == 15 && ident_end(
        s,
        17,
    ) == 18 && ident_end(s, 19) == 22);
    assert(num_end(s, 3) == 4 && num_end(s, 5) == 6);
    assert(s.subrange(0, 2) =~= "if"@);
    assert(s.subrange(9, 10) =~= "x"@);
    assert(s.subrange(11, 15) =~= "else"@);
    assert(s.subrange(17, 18) =~= "y"@);
    assert(s.subrange(19, 22) =~= "end"@);
    assert(s.subrange(3, 4) =~= "1"@);
    assert(s.subrange(5, 6) =~= "2"@);
    assert("end"@ != "let"@) by {
        assert("end"@[0] == 'e' && "let"@[0] == 'l');
    }
    assert("else"@ != "true"@) by {
        assert("else"@[0] == 'e' && "true"@[0] == 't');
    }
    assert(kw_token("if"@) == Token::If);
    assert(kw_token("else"@) == Token::Else);
    assert(kw_token("end"@) == Token::End);
    assert(!is_kw_text("x"@) && !is_kw_text("y"@));
    assert(dot_count("1"@) == 0 && digits_val("1"@) == 1);
    assert(dot_count("2"@) == 0 && digits_val("2"@) == 2);
    assert(op_token('(', char_at(s, 3)) == Token::Lparen);
    assert(op_token('<', char_at(s, 5)) == Token::LessThan);
    assert(op_token(')', char_at(s, 7)) == Token::Rparen);
    assert(op_token(':', char_at(s, 8)) == Token::Colon);
    assert(op_token(':', char_at(s, 16)) == Token::Colon);
}

/// What the lexer hands back at each cursor position of the
/// regexp-with-flags source.
proof fn lemma_toks_regex_flags(p: int, n: Node, e: int)
    requires
        token_from(src_regex_flags(), p, n, e),
    ensures
        p == 0 ==> node_at(n, Token::Slash, 0) && e == 1,
        p == 1 ==> ident_node(n, "a"@, 1) && e == 2,
        p == 7 ==> n.token is Eof && n.loc == 7 && e == 7,
{
    reveal_strlit("/a\\/b/g");
    reveal_strlit("a");
    reveal_strlit("if");
    reveal_strlit("let");
    reveal_strlit("else");
    reveal_strlit("while");
    reveal_strlit("fn");
    reveal_strlit("true");
    reveal_strlit("false");
    reveal_strlit("end");
    reveal_strlit("return");
    reveal_with_fuel(skip_pos, 3);
    reveal_with_fuel(ident_end, 3);
    let s = src_regex_flags();
    assert(s.len() == 7);
    assert(skip_pos(s, 0) == 0 && skip_pos(s, 1) == 1 && skip_pos(s, 7) == 7);
    assert(ident_end(s, 1) == 2);
    assert(s.subrange(1, 2) =~= "a"@);
    assert(!is_kw_text("a"@));
    assert(op_token('/', char_at(s, 1)) == Token::Slash);
    assert(!op2('/', char_at(s, 1)));
}

/// Where the raw regexp scan of the plain-regexp source stops, and what it
/// captures.
proof fn lemma_rx_plain()
    ensures
        rx_close(src_regex_plain(), 1) == 2,
        src_regex_plain().len() == 3,
        src_regex_plain()[2] == '/',
        ident_end(src_regex_plain(), 3) == 3,
        src_regex_plain().subrange(1, 2) == "x"@,
        src_regex_plain().subrange(3, 3) == Seq::<char>::empty(),
{
    reveal_strlit("/x/");
    reveal_strlit("x");
    reveal_with_fuel(rx_close, 3);
    reveal_with_fuel(ident_end, 2);
    let s = src_regex_plain();
    assert(s.subrange(1, 2) =~= "x"@);
    assert(s.subrange(3, 3) =~= Seq::<char>::empty());
}

/// Where the raw regexp scan of the regexp-with-flags source stops, and
/// what it captures: the escaped slash stays in the pattern, the trailing
/// identifier is the flags.
proof fn lemma_rx_flags()
    ensures
        rx_close(src_regex_flags(), 1) == 5,
        src_regex_flags().len() == 7,
        src_regex_flags()[5] == '/',
        ident_end(src_regex_flags(), 6) == 7,
        src_regex_flags().subrange(1, 5) == seq!['a', '\\', '/', 'b'],
        src_regex_flags().subrange(6, 7) == "g"@,
{
    reveal_strlit("/a\\/b/g");
    reveal_strlit("g");
    reveal_with_fuel(rx_close, 4);
    reveal_with_fuel(ident_end, 3);
    let s = src_regex_flags();
    assert(s.subrange(1, 5) =~= seq!['a', '\\', '/', 'b']);
    assert(s.subrange(6, 7) =~= "g"@);
}

/// The parser: the lexer it owns, the current and lookahead tokens, and
/// the errors collected so far.
pub struct Parser<'a> {
    pub lexer: Lexer<'a>,
    pub cur: Node,
    pub next: Node,
    pub errors: Vec<ParseError>,
}

impl<'a> Parser<'a> {
    pub open spec fn inp(self) -> Seq<char> {
        self.lexer.input@
    }

    /// A buffered token lies within the input, and only end-of-input,
    /// string and regexp tokens may sit at its very end.
    pub open spec fn tok_ok(self, t: Node) -> bool {
        &&& t.loc <= self.inp().len()
        &&& (!(t.token is Eof) && !(t.token is String) && !(t.token is Regexp) ==> t.loc
            < self.inp().len())
    }

    pub open spec fn wf(self) -> bool {
        &&& self.lexer.wf()
        &&& self.tok_ok(self.cur)
        &&& self.tok_ok(self.next)
        &&& self.cur.loc <= self.next.loc
        &&& self.next.loc <= self.lexer.pos
        &&& (self.next.loc == self.lexer.pos ==> self.next.loc == self.inp().len())
        &&& (self.cur.loc == self.next.loc ==> self.next.token is Eof)
    }

    /// The termination measure of the parse: how much input can still be
    /// consumed, weighted so that every advance of the cursor pays for the
    /// bookkeeping around it.
    pub open spec fn pm(self) -> int {
        5 * (self.inp().len() + 1 - self.cur.loc) + (if self.cur.token is Eof {
            0int
        } else {
            2int
        })
    }

    /// What every parsing step preserves: well-formedness, the input, the
    /// already-recorded errors, and a never-growing measure.
    pub open spec fn steps_to(self, post: Self) -> bool {
        &&& post.wf()
        &&& post.lexer.input == self.lexer.input
        &&& post.pm() <= self.pm()
        &&& self.errors@.is_prefix_of(post.errors@)
        &&& (post.cur.token is Eof && !(self.cur.token is Eof) ==> post.pm() <= self.pm() - 2)
    }

    /// A parsing step never moves the current token's offset backwards:
    /// the measure pays at least five per offset step and at most two for
    /// the end-of-input bookkeeping.
    proof fn lemma_steps_loc(self, post: Self)
        requires
            self.steps_to(post),
        ensures
            post.cur.loc >= self.cur.loc,
    {
    }

    // The entry states of the concrete parsing laws: where the cursor of a
    // freshly primed (or mid-production) parser stands on each law's
    // source.

    pub open spec fn entry_sum_chain(self) -> bool {
        &&& self.inp() == src_sum_chain()
        &&& int_node(self.cur, 1, 0)
        &&& node_at(self.next, Token::Plus, 2)
        &&& self.lexer.pos == 3
    }

    pub open spec fn entry_array3(self) -> bool {
        &&& self.inp() == src_array3()
        &&& node_at(self.cur, Token::Lbracket, 0)
        &&& int_node(self.next, 1, 1)
        &&& self.lexer.pos == 2
    }

    pub open spec fn entry_hash_kv(self) -> bool {
        &&& self.inp() == src_hash_kv()
        &&& node_at(self.cur, Token::Lbrace, 0)
        &&& str_node(self.next, "k"@, 2)
        &&& self.lexer.pos == 4
    }

    pub open spec fn entry_paren_call(self) -> bool {
        &&& self.inp() == src_paren_call()
        &&& node_at(self.cur, Token::Lparen, 0)
        &&& int_node(self.next, 1, 1)
        &&& self.lexer.pos == 2
    }

    pub open spec fn entry_paren_inner(self) -> bool {
        &&& self.inp() == src_paren_call()
        &&& int_node(self.cur, 1, 1)
        &&& node_at(self.next, Token::Plus, 2)
        &&& self.lexer.pos == 3
    }

    pub open spec fn entry_if_empty(self) -> bool {
        &&& self.inp() == src_if_empty()
        &&& node_at(self.cur, Token::If, 0)
        &&& node_at(self.next, Token::Lparen, 2)
        &&& self.lexer.pos == 3
    }

    pub open spec fn entry_if_empty_block(self) -> bool {
        &&& self.inp() == src_if_empty()
        &&& node_at(self.cur, Token::Colon, 8)
        &&& node_at(self.next, Token::End, 10)
        &&& self.lexer.pos == 13
    }

    pub open spec fn entry_if_else(self) -> bool {
        &&& self.inp() == src_if_else()
        &&& node_at(self.cur, Token::If, 0)
        &&& node_at(self.next, Token::Lparen, 2)
        &&& self.lexer.pos == 3
    }

    pub open spec fn entry_lt_cond(self) -> bool {
        &&& self.inp() == src_if_else()
        &&& int_node(self.cur, 1, 3)
        &&& node_at(self.next, Token::LessThan, 4)
        &&& self.lexer.pos == 5
    }

    pub open spec fn entry_if_else_cons(self) -> bool {
        &&& self.inp() == src_if_else()
        &&& node_at(self.cur, Token::Colon, 7)
        &&& ident_node(self.next, "x"@, 9)
        &&& self.lexer.pos == 10
    }

    pub open spec fn entry_if_else_alt(self) -> bool {
        &&& self.inp() == src_if_else()
        &&& node_at(self.cur, Token::Colon, 15)
        &&& ident_node(self.next, "y"@, 17)
        &&& self.lexer.pos == 18
    }

    pub open spec fn entry_regex_plain(self) -> bool {
        &&& self.inp() == src_regex_plain()
        &&& node_at(self.cur, Token::Slash, 0)
        &&& ident_node(self.next, "x"@, 1)
        &&& self.lexer.pos == 2
    }

    pub open spec fn entry_regex_flags(self) -> bool {
        &&& self.inp() == src_regex_flags()
        &&& node_at(self.cur, Token::Slash, 0)
        &&& ident_node(self.next, "a"@, 1)
        &&& self.lexer.pos == 2
    }

    pub open spec fn entry_index_assign(self) -> bool {
        &&& self.inp() == src_index_assign()
        &&& ident_node(self.cur, "a"@, 0)
        &&& node_at(self.next, Token::Lbracket, 1)
        &&& self.lexer.pos == 2
    }

    /// Create a parser over the given lexer, priming the current and
    /// lookahead tokens.
    pub fn new(lexer: Lexer<'a>) -> (p: Self)
        requires
            lexer.wf(),
        ensures
            p.wf(),
            p.lexer.input == lexer.input,
            p.errors@.len() == 0,
            exists|mid: int|
                #[trigger] token_from(lexer.input@, lexer.pos as int, p.cur, mid) && token_from(
                    lexer.input@,
                    mid,
                    p.next,
                    p.lexer.pos as int,
                ),
    {
        let mut lx = lexer;
        let cur = lx.next_token();
        let ghost mid = lx.pos as int;
        let next = lx.next_token();
        let p = Parser { lexer: lx, cur, next, errors: Vec::new() };
        proof {
            assert(token_from(lexer.input@, lexer.pos as int, p.cur, mid) && token_from(
                lexer.input@,
                mid,
                p.next,
                p.lexer.pos as int,
            ));
        }
        p
    }

    /// The errors collected so far.
    pub fn get_errors(&self) -> (r: &Vec<ParseError>)
        ensures
            r == &self.errors,
    {
        &self.errors
    }

    /// Advance: the lookahead token becomes current and a fresh token is
    /// pulled from the lexer.
    fn bump(&mut self)
        requires
            old(self).wf(),
        ensures
            old(self).steps_to(*final(self)),
            final(self).cur == old(self).next,
            final(self).errors == old(self).errors,
            !(old(self).cur.token is Eof) ==> final(self).pm() <= old(self).pm() - 2,
            token_from(
                old(self).inp(),
                old(self).lexer.pos as int,
                final(self).next,
                final(self).lexer.pos as int,
            ),
    {
        core::mem::swap(&mut self.cur, &mut self.next);
        self.next = self.lexer.next_token();
    }

    fn cur_token_is(&self, t: &Token) -> (r: bool)
        ensures
            r == tok_same(self.cur.token, *t),
    {
        tok_eq(&self.cur.token, t)
    }

    fn next_token_is(&self, t: &Token) -> (r: bool)
        ensures
            r == tok_same(self.next.token, *t),
    {
        tok_eq(&self.next.token, t)
    }

    /// Record an unexpected-token error at the current token.
    fn error_next_token(&mut self)
        requires
            old(self).wf(),
        ensures
            old(self).steps_to(*final(self)),
            final(self).cur == old(self).cur,
            final(self).next == old(self).next,
            final(self).lexer == old(self).lexer,
            final(self).pm() == old(self).pm(),
            final(self).errors@.len() == old(self).errors@.len() + 1,
    {
        let tok = node_clone(&self.cur);
        let err = ParseError {
            kind: ParseErrorKind::UnexpectedToken,
            msg: String::from_str("unexpected token"),
            current_token: tok,
        };
        self.errors.push(err);
    }

    /// If the lookahead token is of the expected kind (or the blank
    /// separator, accepted anywhere), advance past it; otherwise record an
    /// error and fail the calling production.
    fn expect_next_token(&mut self, t: &Token) -> (r: bool)
        requires
            old(self).wf(),
        ensures
            old(self).steps_to(*final(self)),
            r ==> final(self).cur == old(self).next && (tok_same(old(self).next.token, *t)
                || old(self).next.token is Blank),
            r && !(old(self).cur.token is Eof) ==> final(self).pm() <= old(self).pm() - 2,
            r ==> final(self).errors == old(self).errors,
            r ==> token_from(
                old(self).inp(),
                old(self).lexer.pos as int,
                final(self).next,
                final(self).lexer.pos as int,
            ),
            r == (tok_same(old(self).next.token, *t) || old(self).next.token is Blank),
            !r ==> final(self).cur == old(self).cur && final(self).next == old(self).next
                && final(self).pm() == old(self).pm() && final(self).errors@.len() == old(self).errors@.len() + 1,
    {
        if tok_eq(&self.next.token, t) || self.next_token_is(&Token::Blank) {
            self.bump();
            true
        } else {
            self.error_next_token();
            false
        }
    }

    /// Parse a prefix production: an identifier, a literal (number,
    /// string, boolean, array or hash), a prefix operator, a grouped
    /// expression, a conditional, a loop, a function literal or a regexp
    /// literal.
    fn parse_primary(&mut self, depth: usize) -> (r: Option<Expr>)
        requires
            old(self).wf(),
            depth < 64,
        ensures
            old(self).steps_to(*final(self)),
            (r matches Some(e) ==> calls_direct_expr(e)),
            r is Some ==> !(final(self).cur.token is Eof),
            is_lit_token(old(self).cur.token) ==> final(self).cur == old(self).cur && final(self).next == old(self).next && final(self).lexer == old(self).lexer && final(self).errors
                == old(self).errors && (r matches Some(e) && e matches Expr::Literal(l)
                && lit_match(old(self).cur.token, l)),
            old(self).cur.token is Ident ==> *final(self) == *old(self) && (r matches Some(e)
                && ident_match(old(self).cur.token, e)),
            (old(self).entry_array3() && depth < 8) ==> (r matches Some(e) && array3_tree(e))
                && node_at(final(self).cur, Token::Rbracket, 6) && final(self).next.token is Eof
                && final(self).errors == old(self).errors,
            (old(self).entry_hash_kv() && depth < 8) ==> (r matches Some(e) && hash_kv_tree(e))
                && node_at(final(self).cur, Token::Rbrace, 8) && final(self).next.token is Eof
                && final(self).errors == old(self).errors,
            (old(self).entry_if_empty() && depth < 8) ==> (r matches Some(e) && if_empty_tree(e))
                && node_at(final(self).cur, Token::End, 10) && final(self).next.token is Eof
                && final(self).errors == old(self).errors,
            (old(self).entry_if_else() && depth < 8) ==> (r matches Some(e) && if_else_tree(e))
                && node_at(final(self).cur, Token::End, 19) && final(self).next.token is Eof
                && final(self).errors == old(self).errors,
            (old(self).entry_paren_call() && depth < 8) ==> (r matches Some(e) && !(e is Ident))
                && node_at(final(self).cur, Token::Rparen, 4) && node_at(
                final(self).next,
                Token::Lparen,
                5,
            ) && final(self).lexer.pos == 6 && final(self).errors == old(self).errors,
            old(self).entry_regex_plain() ==> (r matches Some(e) && regex_plain_tree(e))
                && final(self).next.token is Eof && final(self).errors == old(self).errors,
            old(self).entry_regex_flags() ==> (r matches Some(e) && regex_flags_tree(e))
                && final(self).next.token is Eof && final(self).errors == old(self).errors,
        decreases old(self).pm(), 8int,
    {
        match &self.cur.token {
            Token::Ident(name) => {
                let n = name.clone();
                let e = Expr::Ident(Ident(n));
                assert(calls_direct_expr(e));
                Some(e)
            },
            Token::Number(Number::Int(v)) => {
                let e = Expr::Literal(Literal::Number(Number::Int(*v)));
                proof {
                    reveal_with_fuel(calls_direct_expr, 2);
                }
                assert(calls_direct_expr(e));
                Some(e)
            },
            Token::Number(Number::Float(t)) => {
                let e = Expr::Literal(Literal::Number(Number::Float(t.clone())));
                proof {
                    reveal_with_fuel(calls_direct_expr, 2);
                }
                assert(calls_direct_expr(e));
                Some(e)
            },
            Token::String(t) => {
                let e = Expr::Literal(Literal::String(t.clone()));
                proof {
                    reveal_with_fuel(calls_direct_expr, 2);
                }
                assert(calls_direct_expr(e));
                Some(e)
            },
            Token::Bool(b) => {
                let e = Expr::Literal(Literal::Bool(*b));
                proof {
                    reveal_with_fuel(calls_direct_expr, 2);
                }
                assert(calls_direct_expr(e));
                Some(e)
            },
            Token::Bang => self.parse_prefix_expr(Prefix::Not, depth),
            Token::Plus => self.parse_prefix_expr(Prefix::Plus, depth),
            Token::Minus => self.parse_prefix_expr(Prefix::Minus, depth),
            Token::Lparen => self.parse_grouped_expr(depth),
            Token::Lbracket => self.parse_array_expr(depth),
            Token::Lbrace => self.parse_hash_expr(depth),
            Token::If => self.parse_if_expr(depth),
            Token::While => self.parse_while_expr(depth),
            Token::Func => self.parse_func_expr(depth),
            Token::Slash => {
                let r = self.parse_regexp_expr();
                proof {
                    if old(self).entry_regex_plain() {
                        lemma_rx_plain();
                        lemma_toks_regex_plain(3, self.next, self.lexer.pos as int);
                    }
                    if old(self).entry_regex_flags() {
                        lemma_rx_flags();
                        lemma_toks_regex_flags(7, self.next, self.lexer.pos as int);
                    }
                }
                r
            },
            Token::Let => self.parse_let_expr(),
            _ => {
                self.error_next_token();
                None
            },
        }
    }

    /// Parse `[ <expr>, ... ]`.
    fn parse_array_expr(&mut self, depth: usize) -> (r: Option<Expr>)
        requires
            old(self).wf(),
            depth < 64,
            !(old(self).cur.token is Eof),
        ensures
            old(self).steps_to(*final(self)),
            (r matches Some(e) ==> calls_direct_expr(e)),
            r is Some ==> !(final(self).cur.token is Eof),
            (old(self).entry_array3() && depth < 8) ==> (r matches Some(e) && array3_tree(e))
                && node_at(final(self).cur, Token::Rbracket, 6) && final(self).next.token is Eof
                && final(self).errors == old(self).errors,
        decreases old(self).pm(), 7int,
    {
        let items = match self.parse_expr_list(&Token::Rbracket, depth) {
            Some(i) => i,
            None => {
                return None;
            },
        };
        let e = Expr::Literal(Literal::Array(items));
        proof {
            reveal_with_fuel(calls_direct_expr, 2);
        }
        Some(e)
    }

    /// Parse `{ <expr> : <expr>, ... }`, keeping the pairs in source order.
    fn parse_hash_expr(&mut self, depth: usize) -> (r: Option<Expr>)
        requires
            old(self).wf(),
            depth < 64,
            !(old(self).cur.token is Eof),
        ensures
            old(self).steps_to(*final(self)),
            (r matches Some(e) ==> calls_direct_expr(e)),
            r is Some ==> !(final(self).cur.token is Eof),
            (old(self).entry_hash_kv() && depth < 8) ==> (r matches Some(e) && hash_kv_tree(e))
                && node_at(final(self).cur, Token::Rbrace, 8) && final(self).next.token is Eof
                && final(self).errors == old(self).errors,
        decreases old(self).pm(), 7int,
    {
        let mut pairs: Vec<(Expr, Expr)> = Vec::new();
        while !self.next_token_is(&Token::Rbrace)
            invariant
                self.wf(),
                old(self).steps_to(*self),
                !(self.cur.token is Eof),
                depth < 64,
                forall|i: int|
                    0 <= i < pairs@.len() ==> calls_direct_expr(#[trigger] pairs@[i].0)
                        && calls_direct_expr(pairs@[i].1),
                (old(self).entry_hash_kv() && depth < 8) ==> self.errors == old(self).errors && {
                    ||| (*self == *old(self) && pairs@.len() == 0)
                    ||| (str_node(self.cur, "v"@, 6) && node_at(self.next, Token::Rbrace, 8)
                        && self.lexer.pos == 9 && pairs@.len() == 1 && lit_str(pairs@[0].0, "k"@)
                        && lit_str(pairs@[0].1, "v"@))
                },
            decreases self.pm(),
        {
            let ghost pre1 = *self;
            self.bump();
            proof {
                if pre1.inp() == src_hash_kv() {
                    lemma_toks_hash_kv(pre1.lexer.pos as int, self.next, self.lexer.pos as int);
                }
            }
            let k = match self.parse_expr_rank(0, depth + 1) {
                Some(e) => e,
                None => {
                    return None;
                },
            };
            let ghost pre2 = *self;
            if !self.expect_next_token(&Token::Colon) {
                return None;
            }
            let ghost pre3 = *self;
            self.bump();
            proof {
                if pre2.inp() == src_hash_kv() {
                    lemma_toks_hash_kv(pre2.lexer.pos as int, pre3.next, pre3.lexer.pos as int);
                    lemma_toks_hash_kv(pre3.lexer.pos as int, self.next, self.lexer.pos as int);
                }
            }
            let v = match self.parse_expr_rank(0, depth + 1) {
                Some(e) => e,
                None => {
                    return None;
                },
            };
            let ghost prev = pairs@;
            let ghost gk = k;
            let ghost gv = v;
            pairs.push((k, v));
            proof {
                assert(pairs@ =~= prev.push((gk, gv)));
                assert forall|i: int|
                    0 <= i < pairs@.len() implies calls_direct_expr(#[trigger] pairs@[i].0)
                    && calls_direct_expr(pairs@[i].1) by {
                    if i < prev.len() {
                        assert(pairs@[i] == prev[i]);
                    } else {
                        assert(pairs@[i] == (gk, gv));
                    }
                }
            }
            if !self.next_token_is(&Token::Rbrace) {
                if !self.expect_next_token(&Token::Comma) {
                    return None;
                }
            }
        }
        let ghost pre4 = *self;
        if !self.expect_next_token(&Token::Rbrace) {
            return None;
        }
        proof {
            if pre4.inp() == src_hash_kv() {
                lemma_toks_hash_kv(pre4.lexer.pos as int, self.next, self.lexer.pos as int);
            }
        }
        let e = Expr::Literal(Literal::Hash(pairs));
        proof {
            reveal_with_fuel(calls_direct_expr, 2);
        }
        Some(e)
    }

    /// Parse `if ( <cond> ) : <consequence> [ else : <alternative> ] end`.
    #[verifier::rlimit(100)]
    fn parse_if_expr(&mut self, depth: usize) -> (r: Option<Expr>)
        requires
            old(self).wf(),
            depth < 64,
            !(old(self).cur.token is Eof),
        ensures
            old(self).steps_to(*final(self)),
            (r matches Some(e) ==> calls_direct_expr(e)),
            r is Some ==> !(final(self).cur.token is Eof),
            (old(self).entry_if_empty() && depth < 8) ==> (r matches Some(e) && if_empty_tree(e))
                && node_at(final(self).cur, Token::End, 10) && final(self).next.token is Eof
                && final(self).errors == old(self).errors,
            (old(self).entry_if_else() && depth < 8) ==> (r matches Some(e) && if_else_tree(e))
                && node_at(final(self).cur, Token::End, 19) && final(self).next.token is Eof
                && final(self).errors == old(self).errors,
        decreases old(self).pm(), 7int,
    {
        let ghost pre1 = *self;
        if !self.expect_next_token(&Token::Lparen) {
            return None;
        }
        let ghost pre2 = *self;
        self.bump();
        proof {
            if pre1.inp() == src_if_empty() {
                lemma_toks_if_empty(pre1.lexer.pos as int, pre2.next, pre2.lexer.pos as int);
                lemma_toks_if_empty(pre2.lexer.pos as int, self.next, self.lexer.pos as int);
            }
            if pre1.inp() == src_if_else() {
                lemma_toks_if_else(pre1.lexer.pos as int, pre2.next, pre2.lexer.pos as int);
                lemma_toks_if_else(pre2.lexer.pos as int, self.next, self.lexer.pos as int);
            }
        }
        let cond = match self.parse_expr_rank(0, depth + 1) {
            Some(e) => e,
            None => {
                return None;
            },
        };
        let ghost pre3 = *self;
        if !self.expect_next_token(&Token::Rparen) {
            return None;
        }
        let ghost pre4 = *self;
        proof {
            if pre3.inp() == src_if_empty() {
                lemma_toks_if_empty(pre3.lexer.pos as int, pre4.next, pre4.lexer.pos as int);
            }
            if pre3.inp() == src_if_else() {
                lemma_toks_if_else(pre3.lexer.pos as int, pre4.next, pre4.lexer.pos as int);
            }
        }
        if !self.expect_next_token(&Token::Colon) {
            return None;
        }
        proof {
            if pre4.inp() == src_if_empty() {
                lemma_toks_if_empty(pre4.lexer.pos as int, self.next, self.lexer.pos as int);
            }
            if pre4.inp() == src_if_else() {
                lemma_toks_if_else(pre4.lexer.pos as int, self.next, self.lexer.pos as int);
            }
        }
        let consequence = self.parse_block_stmt();
        let mut alternative: Option<BlockStmt> = None;
        if self.cur_token_is(&Token::Else) {
            let ghost pre5 = *self;
            if !self.expect_next_token(&Token::Colon) {
                return None;
            }
            proof {
                if pre5.inp() == src_if_else() {
                    lemma_toks_if_else(pre5.lexer.pos as int, self.next, self.lexer.pos as int);
                }
            }
            alternative = Some(self.parse_block_stmt());
        }
        if self.cur_token_is(&Token::Eof) {
            self.error_next_token();
            return None;
        }
        Some(Expr::If { cond: Box::new(cond), consequence, alternative })
    }

    /// Parse `while ( <cond> ) : <body> end`.
    fn parse_while_expr(&mut self, depth: usize) -> (r: Option<Expr>)
        requires
            old(self).wf(),
            depth < 64,
            !(old(self).cur.token is Eof),
        ensures
            old(self).steps_to(*final(self)),
            (r matches Some(e) ==> calls_direct_expr(e)),
            r is Some ==> !(final(self).cur.token is Eof),
        decreases old(self).pm(), 7int,
    {
        if !self.expect_next_token(&Token::Lparen) {
            return None;
        }
        self.bump();
        let cond = match self.parse_expr_rank(0, depth + 1) {
            Some(e) => e,
            None => {
                return None;
            },
        };
        if !self.expect_next_token(&Token::Rparen) {
            return None;
        }
        if !self.expect_next_token(&Token::Colon) {
            return None;
        }
        let consequence = self.parse_block_stmt();
        if self.cur_token_is(&Token::Eof) {
            self.error_next_token();
            return None;
        }
        Some(Expr::While { cond: Box::new(cond), consequence })
    }

    /// Parse `fn [name] ( <params> ) : <body> end`; the name is optional.
    fn parse_func_expr(&mut self, depth: usize) -> (r: Option<Expr>)
        requires
            old(self).wf(),
            depth < 64,
            !(old(self).cur.token is Eof),
        ensures
            old(self).steps_to(*final(self)),
            (r matches Some(e) ==> calls_direct_expr(e)),
            r is Some ==> !(final(self).cur.token is Eof),
        decreases old(self).pm(), 7int,
    {
        let nm = match &self.next.token {
            Token::Ident(n) => Some(n.clone()),
            _ => None,
        };
        let name = match nm {
            Some(n) => {
                self.bump();
                Some(Ident(n))
            },
            None => None,
        };
        if !self.expect_next_token(&Token::Lparen) {
            return None;
        }
        let params = match self.parse_func_params() {
            Some(p) => p,
            None => {
                return None;
            },
        };
        if !self.expect_next_token(&Token::Colon) {
            return None;
        }
        let body = self.parse_block_stmt();
        if self.cur_token_is(&Token::Eof) {
            self.error_next_token();
            return None;
        }
        Some(Expr::Func { params, body, name })
    }

    /// Parse the comma-separated identifier list of a parameter list,
    /// entered on the opening parenthesis and ending on the closing one.
    fn parse_func_params(&mut self) -> (r: Option<Vec<Ident>>)
        requires
            old(self).wf(),
        ensures
            old(self).steps_to(*final(self)),
            r is Some ==> !(final(self).cur.token is Eof),
        decreases old(self).pm(), 6int,
    {
        let mut params: Vec<Ident> = Vec::new();
        if self.next_token_is(&Token::Rparen) {
            self.bump();
            return Some(params);
        }
        self.bump();
        match &self.cur.token {
            Token::Ident(n) => params.push(Ident(n.clone())),
            _ => {
                self.error_next_token();
                return None;
            },
        }
        while self.next_token_is(&Token::Comma)
            invariant
                self.wf(),
                old(self).steps_to(*self),
                !(self.cur.token is Eof),
            decreases self.pm(),
        {
            self.bump();
            self.bump();
            match &self.cur.token {
                Token::Ident(n) => params.push(Ident(n.clone())),
                _ => {
                    self.error_next_token();
                    return None;
                },
            }
        }
        if !self.expect_next_token(&Token::Rparen) {
            return None;
        }
        Some(params)
    }

    /// Parse the comma-separated expression list of a call, array or
    /// index form, entered on the opening delimiter and ending on `end`.
    fn parse_expr_list(&mut self, end: &Token, depth: usize) -> (r: Option<Vec<Expr>>)
        requires
            old(self).wf(),
            depth < 64,
            !(old(self).cur.token is Eof),
            !(*end is Eof),
            !(*end is Blank),
        ensures
            old(self).steps_to(*final(self)),
            (r matches Some(es) ==> forall|i: int|
                0 <= i < es@.len() ==> calls_direct_expr(#[trigger] es@[i])),
            r is Some ==> !(final(self).cur.token is Eof),
            (old(self).entry_array3() && *end is Rbracket && depth < 8) ==> (r matches Some(es)
                && array3_items(es@)) && node_at(final(self).cur, Token::Rbracket, 6)
                && final(self).next.token is Eof && final(self).errors == old(self).errors,
        decreases old(self).pm(), 6int,
    {
        let mut list: Vec<Expr> = Vec::new();
        if self.next_token_is(end) {
            self.bump();
            return Some(list);
        }
        let ghost pre1 = *self;
        self.bump();
        proof {
            if pre1.inp() == src_array3() {
                lemma_toks_array3(pre1.lexer.pos as int, self.next, self.lexer.pos as int);
            }
        }
        let first = match self.parse_expr_rank(0, depth + 1) {
            Some(e) => e,
            None => {
                return None;
            },
        };
        let ghost prev0 = list@;
        list.push(first);
        assert(list@ =~= prev0.push(list@[0]));
        while self.next_token_is(&Token::Comma)
            invariant
                self.wf(),
                old(self).steps_to(*self),
                !(self.cur.token is Eof),
                depth < 64,
                forall|i: int| 0 <= i < list@.len() ==> calls_direct_expr(#[trigger] list@[i]),
                (old(self).entry_array3() && *end is Rbracket && depth < 8) ==> self.errors
                    == old(self).errors && {
                    ||| (int_node(self.cur, 1, 1) && node_at(self.next, Token::Comma, 2)
                        && self.lexer.pos == 3 && list@.len() == 1 && lit_int(list@[0], 1))
                    ||| (int_node(self.cur, 2, 3) && node_at(self.next, Token::Comma, 4)
                        && self.lexer.pos == 5 && list@.len() == 2 && lit_int(list@[0], 1)
                        && lit_int(list@[1], 2))
                    ||| (int_node(self.cur, 3, 5) && node_at(self.next, Token::Rbracket, 6)
                        && self.lexer.pos == 7 && array3_items(list@))
                },
            decreases self.pm(),
        {
            let ghost pre2 = *self;
            self.bump();
            let ghost pre3 = *self;
            self.bump();
            proof {
                if pre2.inp() == src_array3() {
                    lemma_toks_array3(pre2.lexer.pos as int, pre3.next, pre3.lexer.pos as int);
                    lemma_toks_array3(pre3.lexer.pos as int, self.next, self.lexer.pos as int);
                }
            }
            let e = match self.parse_expr_rank(0, depth + 1) {
                Some(e) => e,
                None => {
                    return None;
                },
            };
            let ghost prev = list@;
            list.push(e);
            assert(list@ =~= prev.push(list@[prev.len() as int]));
        }
        let ghost pre4 = *self;
        if !self.expect_next_token(end) {
            return None;
        }
        proof {
            if pre4.inp() == src_array3() {
                lemma_toks_array3(pre4.lexer.pos as int, self.next, self.lexer.pos as int);
            }
        }
        Some(list)
    }

    /// Parse a regexp literal: the current `/` marks where raw scanning
    /// resumes in the source, regardless of how far the lexer has read
    /// ahead. The result is owed exactly: the pattern holds the raw text up
    /// to the next unescaped `/` (escapes kept verbatim), and a trailing
    /// identifier, if any, becomes the flags.
    fn parse_regexp_expr(&mut self) -> (r: Option<Expr>)
        requires
            old(self).wf(),
            old(self).cur.token is Slash,
        ensures
            old(self).steps_to(*final(self)),
            (r matches Some(e) ==> calls_direct_expr(e)),
            r is Some ==> !(final(self).cur.token is Eof),
            ({
                let s = old(self).inp();
                let start = old(self).cur.loc as int;
                let c = rx_close(s, start + 1);
                let fl = if c < s.len() && s[c] == '/' {
                    s.subrange(c + 1, ident_end(s, c + 1))
                } else {
                    Seq::<char>::empty()
                };
                &&& r is Some
                &&& final(self).cur.token is Regexp
                &&& final(self).cur.loc == start
                &&& token_from(
                    s,
                    (if c < s.len() && s[c] == '/' {
                        ident_end(s, c + 1)
                    } else {
                        c
                    }),
                    final(self).next,
                    final(self).lexer.pos as int,
                )
                &&& final(self).errors == old(self).errors
                &&& (r matches Some(e) && e matches Expr::Regexp { pattern, flags } && (*pattern
                    matches Expr::Literal(Literal::String(pt)) && pt@ == s.subrange(
                    start + 1,
                    c,
                )) && (fl.len() == 0 ==> flags is None) && (fl.len() > 0 ==> (flags matches Some(
                    Ident(f),
                ) && f@ == fl)))
            }),
        decreases old(self).pm(), 7int,
    {
        assert(self.cur.loc < self.inp().len());
        let node = self.lexer.consume_regexp(self.cur.loc);
        self.cur = node;
        self.next = self.lexer.next_token();
        let parts = match &self.cur.token {
            Token::Regexp(p, f) => Some((p.clone(), f.clone())),
            _ => None,
        };
        match parts {
            Some((pat, fl)) => {
                let flags = if fl.as_str().unicode_len() == 0 {
                    None
                } else {
                    Some(Ident(fl))
                };
                let e = Expr::Regexp {
                    pattern: Box::new(Expr::Literal(Literal::String(pat))),
                    flags,
                };
                proof {
                    reveal_with_fuel(calls_direct_expr, 3);
                }
                Some(e)
            },
            None => None,
        }
    }

    /// Parse `let <ident> = <expr>`.
    fn parse_let_expr(&mut self) -> (r: Option<Expr>)
        requires
            old(self).wf(),
            !(old(self).cur.token is Eof),
        ensures
            old(self).steps_to(*final(self)),
            (r matches Some(e) ==> calls_direct_expr(e)),
            r is Some ==> !(final(self).cur.token is Eof),
        decreases old(self).pm(), 7int,
    {
        let nm = match &self.next.token {
            Token::Ident(n) => Some(n.clone()),
            _ => None,
        };
        let name = match nm {
            Some(n) => {
                self.bump();
                Ident(n)
            },
            None => {
                self.error_next_token();
                return None;
            },
        };
        if !self.expect_next_token(&Token::Assign) {
            return None;
        }
        self.bump();
        let value = match self.parse_expr_rank(0, 0) {
            Some(e) => e,
            None => {
                return None;
            },
        };
        Some(Expr::Let(name, Box::new(value)))
    }

    /// Parse statements until a closing delimiter (`end`, `}` or `else`)
    /// or the end of the input, entered on the token before the block.
    fn parse_block_stmt(&mut self) -> (b: BlockStmt)
        requires
            old(self).wf(),
        ensures
            old(self).steps_to(*final(self)),
            calls_direct_block(b@),
            forall|i: int, j: int| 0 <= i <= j < b@.len() ==> b@[i].1 <= b@[j].1,
            old(self).entry_if_empty_block() ==> b@.len() == 0 && node_at(
                final(self).cur,
                Token::End,
                10,
            ) && final(self).next.token is Eof && final(self).errors == old(self).errors,
            old(self).entry_if_else_cons() ==> (b@.len() == 1 && b@[0].1 == 9 && (b@[0].0 matches
                Stmt::Expr(e) && ident_expr(e, "x"@))) && node_at(final(self).cur, Token::Else, 11)
                && node_at(final(self).next, Token::Colon, 15) && final(self).lexer.pos == 16
                && final(self).errors == old(self).errors,
            old(self).entry_if_else_alt() ==> (b@.len() == 1 && b@[0].1 == 17 && (b@[0].0 matches
                Stmt::Expr(e) && ident_expr(e, "y"@))) && node_at(final(self).cur, Token::End, 19)
                && final(self).next.token is Eof && final(self).errors == old(self).errors,
        decreases old(self).pm(), 12int,
    {
        let ghost pre1 = *self;
        self.bump();
        proof {
            if pre1.inp() == src_if_empty() {
                lemma_toks_if_empty(pre1.lexer.pos as int, self.next, self.lexer.pos as int);
            }
            if pre1.inp() == src_if_else() {
                lemma_toks_if_else(pre1.lexer.pos as int, self.next, self.lexer.pos as int);
            }
        }
        let mut block: BlockStmt = Vec::new();
        while !self.cur_token_is(&Token::End) && !self.cur_token_is(&Token::Rbrace)
            && !self.cur_token_is(&Token::Else) && !self.cur_token_is(&Token::Eof)
            invariant
                self.wf(),
                old(self).steps_to(*self),
                calls_direct_block(block@),
                forall|i: int, j: int| 0 <= i <= j < block@.len() ==> block@[i].1 <= block@[j].1,
                block@.len() > 0 ==> block@[block@.len() - 1].1 <= self.cur.loc,
                old(self).entry_if_empty_block() ==> block@.len() == 0 && node_at(
                    self.cur,
                    Token::End,
                    10,
                ) && self.next.token is Eof && self.errors == old(self).errors,
                old(self).entry_if_else_cons() ==> self.errors == old(self).errors && {
                    ||| (ident_node(self.cur, "x"@, 9) && node_at(self.next, Token::Else, 11)
                        && self.lexer.pos == 15 && block@.len() == 0)
                    ||| (node_at(self.cur, Token::Else, 11) && node_at(self.next, Token::Colon, 15)
                        && self.lexer.pos == 16 && block@.len() == 1 && block@[0].1 == 9 && (
                    block@[0].0 matches Stmt::Expr(e) && ident_expr(e, "x"@)))
                },
                old(self).entry_if_else_alt() ==> self.errors == old(self).errors && {
                    ||| (ident_node(self.cur, "y"@, 17) && node_at(self.next, Token::End, 19)
                        && self.lexer.pos == 22 && block@.len() == 0)
                    ||| (node_at(self.cur, Token::End, 19) && self.next.token is Eof
                        && block@.len() == 1 && block@[0].1 == 17 && (block@[0].0 matches
                        Stmt::Expr(e) && ident_expr(e, "y"@)))
                },
            decreases self.pm(),
        {
            let loc = self.cur.loc;
            let ghost prev = block@;
            let ghost hd = *self;
            let st = self.parse_stmt();
            proof {
                hd.lemma_steps_loc(*self);
            }
            match st {
                Some(stmt) => {
                    block.push((stmt, loc));
                    assert(block@ =~= prev.push((block@[prev.len() as int].0, loc)));
                },
                None => {},
            }
            let ghost pre2 = *self;
            self.bump();
            proof {
                if pre2.inp() == src_if_else() {
                    lemma_toks_if_else(pre2.lexer.pos as int, self.next, self.lexer.pos as int);
                }
            }
        }
        block
    }

    /// Parse `<op> <operand>`, the operand binding at prefix precedence.
    fn parse_prefix_expr(&mut self, op: Prefix, depth: usize) -> (r: Option<Expr>)
        requires
            old(self).wf(),
            depth < 64,
            !(old(self).cur.token is Eof),
        ensures
            old(self).steps_to(*final(self)),
            (r matches Some(e) ==> calls_direct_expr(e)),
            r is Some ==> !(final(self).cur.token is Eof),
        decreases old(self).pm(), 7int,
    {
        self.bump();
        let operand = match self.parse_expr_rank(prefix_rank(), depth + 1) {
            Some(e) => e,
            None => {
                return None;
            },
        };
        Some(Expr::Prefix(op, Box::new(operand)))
    }

    /// Parse `( <expr> )`.
    fn parse_grouped_expr(&mut self, depth: usize) -> (r: Option<Expr>)
        requires
            old(self).wf(),
            depth < 64,
            !(old(self).cur.token is Eof),
        ensures
            old(self).steps_to(*final(self)),
            (r matches Some(e) ==> calls_direct_expr(e)),
            r is Some ==> !(final(self).cur.token is Eof),
            (old(self).entry_paren_call() && depth < 8) ==> (r matches Some(e) && !(e is Ident))
                && node_at(final(self).cur, Token::Rparen, 4) && node_at(
                final(self).next,
                Token::Lparen,
                5,
            ) && final(self).lexer.pos == 6 && final(self).errors == old(self).errors,
        decreases old(self).pm(), 7int,
    {
        let ghost pre1 = *self;
        self.bump();
        proof {
            if pre1.inp() == src_paren_call() {
                lemma_toks_paren_call(pre1.lexer.pos as int, self.next, self.lexer.pos as int);
            }
        }
        let e = match self.parse_expr_rank(0, depth + 1) {
            Some(e) => e,
            None => {
                return None;
            },
        };
        let ghost pre2 = *self;
        if !self.expect_next_token(&Token::Rparen) {
            return None;
        }
        proof {
            if pre2.inp() == src_paren_call() {
                lemma_toks_paren_call(pre2.lexer.pos as int, self.next, self.lexer.pos as int);
            }
        }
        Some(e)
    }

    /// Precedence climbing: parse a prefix production, then keep extending
    /// it while the lookahead is an infix-capable token binding tighter
    /// than `min_rank`.
    #[verifier::rlimit(100)]
    fn parse_expr_rank(&mut self, min_rank: u8, depth: usize) -> (r: Option<Expr>)
        requires
            old(self).wf(),
        ensures
            old(self).steps_to(*final(self)),
            (r matches Some(e) ==> calls_direct_expr(e)),
            r is Some ==> !(final(self).cur.token is Eof),
            is_lit_token(old(self).cur.token) && prec_rank(
                spec_token_prec(old(self).next.token),
            ) <= min_rank && depth < 64 ==> final(self).cur == old(self).cur && final(self).next == old(self).next && final(self).lexer == old(self).lexer && final(self).errors == old(self).errors && (r matches Some(e) && e matches Expr::Literal(l) && lit_match(
                old(self).cur.token,
                l,
            )),
            (old(self).cur.token is Ident && prec_rank(spec_token_prec(old(self).next.token))
                <= min_rank && depth < 64) ==> *final(self) == *old(self) && (r matches Some(e)
                && ident_match(old(self).cur.token, e)),
            (old(self).entry_sum_chain() && min_rank == 0 && depth < 8) ==> (r matches Some(e)
                && sum_chain_tree(e)) && int_node(final(self).cur, 1, 12) && final(self).next.token
                is Eof && final(self).errors == old(self).errors,
            (old(self).entry_index_assign() && min_rank == 0 && depth < 8) ==> (r matches Some(e)
                && index_assign_tree(e)) && int_node(final(self).cur, 5, 7)
                && final(self).next.token is Eof && final(self).errors == old(self).errors,
            (old(self).entry_paren_inner() && min_rank == 0 && depth < 9) ==> (r matches Some(e)
                && (e matches Expr::Infix(Infix::Plus, a, b) && lit_int(*a, 1) && lit_int(*b, 2)))
                && int_node(final(self).cur, 2, 3) && node_at(final(self).next, Token::Rparen, 4)
                && final(self).lexer.pos == 5 && final(self).errors == old(self).errors,
            (old(self).entry_lt_cond() && min_rank == 0 && depth < 9) ==> (r matches Some(e)
                && lt_tree(e)) && int_node(final(self).cur, 2, 5) && node_at(
                final(self).next,
                Token::Rparen,
                6,
            ) && final(self).lexer.pos == 7 && final(self).errors == old(self).errors,
            (old(self).entry_array3() && min_rank == 0 && depth < 8) ==> (r matches Some(e)
                && array3_tree(e)) && node_at(final(self).cur, Token::Rbracket, 6)
                && final(self).next.token is Eof && final(self).errors == old(self).errors,
            (old(self).entry_hash_kv() && min_rank == 0 && depth < 8) ==> (r matches Some(e)
                && hash_kv_tree(e)) && node_at(final(self).cur, Token::Rbrace, 8)
                && final(self).next.token is Eof && final(self).errors == old(self).errors,
            (old(self).entry_if_empty() && min_rank == 0 && depth < 8) ==> (r matches Some(e)
                && if_empty_tree(e)) && node_at(final(self).cur, Token::End, 10)
                && final(self).next.token is Eof && final(self).errors == old(self).errors,
            (old(self).entry_if_else() && min_rank == 0 && depth < 8) ==> (r matches Some(e)
                && if_else_tree(e)) && node_at(final(self).cur, Token::End, 19)
                && final(self).next.token is Eof && final(self).errors == old(self).errors,
            (old(self).entry_regex_plain() && min_rank == 0 && depth < 8) ==> (r matches Some(e)
                && regex_plain_tree(e)) && final(self).next.token is Eof && final(self).errors
                == old(self).errors,
            (old(self).entry_regex_flags() && min_rank == 0 && depth < 8) ==> (r matches Some(e)
                && regex_flags_tree(e)) && final(self).next.token is Eof && final(self).errors
                == old(self).errors,
            (old(self).entry_paren_call() && min_rank == 0 && depth < 8) ==> r is None
                && final(self).errors@.len() > old(self).errors@.len(),
        decreases old(self).pm(), 9int,
    {
        if depth >= 64 {
            self.error_next_token();
            return None;
        }
        let mut left = match self.parse_primary(depth) {
            Some(e) => e,
            None => {
                return None;
            },
        };
        let mut go = true;
        while go && min_rank < token_precedence(&self.next.token).rank()
            invariant
                self.wf(),
                old(self).steps_to(*self),
                calls_direct_expr(left),
                !(self.cur.token is Eof),
                depth < 64,
                (is_lit_token(old(self).cur.token) && prec_rank(
                    spec_token_prec(old(self).next.token),
                ) <= min_rank) ==> self.cur == old(self).cur && self.next == old(self).next
                    && self.lexer == old(self).lexer && self.errors == old(self).errors && (left
                    matches Expr::Literal(l) && lit_match(old(self).cur.token, l)),
                (old(self).cur.token is Ident && prec_rank(spec_token_prec(old(self).next.token))
                    <= min_rank) ==> *self == *old(self) && ident_match(
                    old(self).cur.token,
                    left,
                ),
                (old(self).entry_sum_chain() && min_rank == 0 && depth < 8) ==> go && {
                    ||| (*self == *old(self) && lit_int(left, 1))
                    ||| (float_node(self.cur, "190.7"@, 4) && node_at(self.next, Token::Minus, 10)
                        && self.lexer.pos == 11 && self.errors == old(self).errors
                        && sum_chain_left(left))
                    ||| (int_node(self.cur, 1, 12) && self.next.token is Eof && self.errors
                        == old(self).errors && sum_chain_tree(left))
                },
                (old(self).entry_index_assign() && min_rank == 0 && depth < 8) ==> go && {
                    ||| (*self == *old(self) && ident_expr(left, "a"@))
                    ||| (node_at(self.cur, Token::Rbracket, 3) && node_at(
                        self.next,
                        Token::Assign,
                        5,
                    ) && self.lexer.pos == 6 && self.errors == old(self).errors && (left matches
                        Expr::Index(a, i) && ident_expr(*a, "a"@) && lit_int(*i, 0)))
                    ||| (int_node(self.cur, 5, 7) && self.next.token is Eof && self.errors
                        == old(self).errors && index_assign_tree(left))
                },
                (old(self).entry_paren_inner() && min_rank == 0 && depth < 9) ==> go && {
                    ||| (*self == *old(self) && lit_int(left, 1))
                    ||| (int_node(self.cur, 2, 3) && node_at(self.next, Token::Rparen, 4)
                        && self.lexer.pos == 5 && self.errors == old(self).errors && (left matches
                        Expr::Infix(Infix::Plus, a, b) && lit_int(*a, 1) && lit_int(*b, 2)))
                },
                (old(self).entry_lt_cond() && min_rank == 0 && depth < 9) ==> go && {
                    ||| (*self == *old(self) && lit_int(left, 1))
                    ||| (int_node(self.cur, 2, 5) && node_at(self.next, Token::Rparen, 6)
                        && self.lexer.pos == 7 && self.errors == old(self).errors && lt_tree(
                        left,
                    ))
                },
                (old(self).entry_array3() && min_rank == 0 && depth < 8) ==> node_at(
                    self.cur,
                    Token::Rbracket,
                    6,
                ) && self.next.token is Eof && self.errors == old(self).errors && array3_tree(
                    left,
                ),
                (old(self).entry_hash_kv() && min_rank == 0 && depth < 8) ==> node_at(
                    self.cur,
                    Token::Rbrace,
                    8,
                ) && self.next.token is Eof && self.errors == old(self).errors && hash_kv_tree(
                    left,
                ),
                (old(self).entry_if_empty() && min_rank == 0 && depth < 8) ==> node_at(
                    self.cur,
                    Token::End,
                    10,
                ) && self.next.token is Eof && self.errors == old(self).errors && if_empty_tree(
                    left,
                ),
                (old(self).entry_if_else() && min_rank == 0 && depth < 8) ==> node_at(
                    self.cur,
                    Token::End,
                    19,
                ) && self.next.token is Eof && self.errors == old(self).errors && if_else_tree(
                    left,
                ),
                (old(self).entry_regex_plain() && min_rank == 0 && depth < 8) ==> self.next.token
                    is Eof && self.errors == old(self).errors && regex_plain_tree(left),
                (old(self).entry_regex_flags() && min_rank == 0 && depth < 8) ==> self.next.token
                    is Eof && self.errors == old(self).errors && regex_flags_tree(left),
                (old(self).entry_paren_call() && min_rank == 0 && depth < 8) ==> go && node_at(
                    self.cur,
                    Token::Rparen,
                    4,
                ) && node_at(self.next, Token::Lparen, 5) && self.lexer.pos == 6 && self.errors
                    == old(self).errors && !(left is Ident),
            decreases self.pm(), (if go {
                1int
            } else {
                0int
            }),
        {
            let op_opt: Option<Infix> = match &self.next.token {
                Token::Plus => Some(Infix::Plus),
                Token::Minus => Some(Infix::Minus),
                Token::Slash => Some(Infix::Divide),
                Token::Asterisk => Some(Infix::Multiply),
                Token::Caret => Some(Infix::Power),
                Token::Percent => Some(Infix::Modulo),
                Token::Equal => Some(Infix::Equal),
                Token::NotEqual => Some(Infix::NotEqual),
                Token::LessThan => Some(Infix::LessThan),
                Token::LessThanEqual => Some(Infix::LessThanEqual),
                Token::GreaterThan => Some(Infix::GreaterThan),
                Token::GreaterThanEqual => Some(Infix::GreaterThanEqual),
                Token::PlusAssign => Some(Infix::PlusAssign),
                Token::SubAssign => Some(Infix::SubAssign),
                Token::MulAssign => Some(Infix::MulAssign),
                Token::DivAssign => Some(Infix::DivAssign),
                _ => None,
            };
            match op_opt {
                Some(op) => {
                    let op_rank = token_precedence(&self.next.token).rank();
                    let ghost pre1 = *self;
                    self.bump();
                    let ghost pre2 = *self;
                    self.bump();
                    proof {
                        if pre1.inp() == src_sum_chain() {
                            lemma_toks_sum_chain(
                                pre1.lexer.pos as int,
                                pre2.next,
                                pre2.lexer.pos as int,
                            );
                            lemma_toks_sum_chain(
                                pre2.lexer.pos as int,
                                self.next,
                                self.lexer.pos as int,
                            );
                        }
                        if pre1.inp() == src_if_else() {
                            lemma_toks_if_else(
                                pre1.lexer.pos as int,
                                pre2.next,
                                pre2.lexer.pos as int,
                            );
                            lemma_toks_if_else(
                                pre2.lexer.pos as int,
                                self.next,
                                self.lexer.pos as int,
                            );
                        }
                        if pre1.inp() == src_paren_call() {
                            lemma_toks_paren_call(
                                pre1.lexer.pos as int,
                                pre2.next,
                                pre2.lexer.pos as int,
                            );
                            lemma_toks_paren_call(
                                pre2.lexer.pos as int,
                                self.next,
                                self.lexer.pos as int,
                            );
                        }
                    }
                    let rhs = match self.parse_expr_rank(op_rank, depth + 1) {
                        Some(e) => e,
                        None => {
                            return None;
                        },
                    };
                    left = Expr::Infix(op, Box::new(left), Box::new(rhs));
                },
                None => {
                    if self.next_token_is(&Token::Lparen) {
                        self.bump();
                        let is_ident = match &left {
                            Expr::Ident(_) => true,
                            _ => false,
                        };
                        if !is_ident {
                            self.error_next_token();
                            return None;
                        }
                        let args = match self.parse_expr_list(&Token::Rparen, depth) {
                            Some(a) => a,
                            None => {
                                return None;
                            },
                        };
                        left = Expr::Call { func: Box::new(left), args };
                    } else if self.next_token_is(&Token::Lbracket) {
                        let ghost pre1 = *self;
                        self.bump();
                        let ghost pre2 = *self;
                        self.bump();
                        proof {
                            if pre1.inp() == src_index_assign() {
                                lemma_toks_index_assign(
                                    pre1.lexer.pos as int,
                                    pre2.next,
                                    pre2.lexer.pos as int,
                                );
                                lemma_toks_index_assign(
                                    pre2.lexer.pos as int,
                                    self.next,
                                    self.lexer.pos as int,
                                );
                            }
                        }
                        let idx = match self.parse_expr_rank(0, depth + 1) {
                            Some(e) => e,
                            None => {
                                return None;
                            },
                        };
                        let ghost pre3 = *self;
                        if !self.expect_next_token(&Token::Rbracket) {
                            return None;
                        }
                        proof {
                            if pre3.inp() == src_index_assign() {
                                lemma_toks_index_assign(
                                    pre3.lexer.pos as int,
                                    self.next,
                                    self.lexer.pos as int,
                                );
                            }
                        }
                        left = Expr::Index(Box::new(left), Box::new(idx));
                    } else if self.next_token_is(&Token::Dot) {
                        self.bump();
                        let nm = match &self.next.token {
                            Token::Ident(n) => Some(n.clone()),
                            _ => None,
                        };
                        match nm {
                            Some(n) => {
                                self.bump();
                                left = Expr::Accessor(Box::new(left), Ident(n));
                            },
                            None => {
                                self.error_next_token();
                                return None;
                            },
                        }
                    } else if self.next_token_is(&Token::Assign) {
                        let ghost pre1 = *self;
                        self.bump();
                        let ghost pre2 = *self;
                        let lv = match &left {
                            Expr::Ident(_) => true,
                            Expr::Index(_, _) => true,
                            Expr::Accessor(_, _) => true,
                            _ => false,
                        };
                        if !lv {
                            self.error_next_token();
                            return None;
                        }
                        self.bump();
                        proof {
                            if pre1.inp() == src_index_assign() {
                                lemma_toks_index_assign(
                                    pre1.lexer.pos as int,
                                    pre2.next,
                                    pre2.lexer.pos as int,
                                );
                                lemma_toks_index_assign(
                                    pre2.lexer.pos as int,
                                    self.next,
                                    self.lexer.pos as int,
                                );
                            }
                        }
                        let rhs = match self.parse_expr_rank(0, depth + 1) {
                            Some(e) => e,
                            None => {
                                return None;
                            },
                        };
                        left = Expr::Assign(Box::new(left), Box::new(rhs));
                    } else {
                        go = false;
                    }
                },
            }
        }
        Some(left)
    }

    /// Parse one statement: a blank separator, a `return`, or an
    /// expression statement (optionally closed by a semicolon).
    fn parse_stmt(&mut self) -> (r: Option<Stmt>)
        requires
            old(self).wf(),
        ensures
            old(self).steps_to(*final(self)),
            (r matches Some(st) ==> calls_direct_stmt(st)),
            (is_lit_token(old(self).cur.token) && old(self).next.token is Eof) ==> final(self).cur == old(self).cur && final(self).next == old(self).next && final(self).lexer
                == old(self).lexer && final(self).errors == old(self).errors && (r matches Some(st) && st matches Stmt::Expr(e) && e matches Expr::Literal(l) && lit_match(
                old(self).cur.token,
                l,
            )),
            (old(self).cur.token is Ident && prec_rank(spec_token_prec(old(self).next.token)) == 0
                && !(old(self).next.token is Semicolon)) ==> *final(self) == *old(self) && (r
                matches Some(st) && st matches Stmt::Expr(e) && ident_match(
                old(self).cur.token,
                e,
            )),
            old(self).entry_sum_chain() ==> (r matches Some(st) && st matches Stmt::Expr(e)
                && sum_chain_tree(e)) && final(self).next.token is Eof && final(self).errors
                == old(self).errors,
            old(self).entry_index_assign() ==> (r matches Some(st) && st matches Stmt::Expr(e)
                && index_assign_tree(e)) && final(self).next.token is Eof && final(self).errors
                == old(self).errors,
            old(self).entry_array3() ==> (r matches Some(st) && st matches Stmt::Expr(e)
                && array3_tree(e)) && final(self).next.token is Eof && final(self).errors
                == old(self).errors,
            old(self).entry_hash_kv() ==> (r matches Some(st) && st matches Stmt::Expr(e)
                && hash_kv_tree(e)) && final(self).next.token is Eof && final(self).errors
                == old(self).errors,
            old(self).entry_if_empty() ==> (r matches Some(st) && st matches Stmt::Expr(e)
                && if_empty_tree(e)) && final(self).next.token is Eof && final(self).errors
                == old(self).errors,
            old(self).entry_if_else() ==> (r matches Some(st) && st matches Stmt::Expr(e)
                && if_else_tree(e)) && final(self).next.token is Eof && final(self).errors
                == old(self).errors,
            old(self).entry_regex_plain() ==> (r matches Some(st) && st matches Stmt::Expr(e)
                && regex_plain_tree(e)) && final(self).next.token is Eof && final(self).errors
                == old(self).errors,
            old(self).entry_regex_flags() ==> (r matches Some(st) && st matches Stmt::Expr(e)
                && regex_flags_tree(e)) && final(self).next.token is Eof && final(self).errors
                == old(self).errors,
            old(self).entry_paren_call() ==> r is None && final(self).errors@.len() > old(
                self,
            ).errors@.len(),
        decreases old(self).pm(), 11int,
    {
        if self.cur_token_is(&Token::Blank) {
            return Some(Stmt::Blank);
        }
        if self.cur_token_is(&Token::Let) {
            let e = match self.parse_let_expr() {
                Some(e) => e,
                None => {
                    return None;
                },
            };
            if self.next_token_is(&Token::Semicolon) {
                self.bump();
            }
            return Some(Stmt::Expr(e));
        }
        if self.cur_token_is(&Token::Return) {
            self.bump();
            let e = match self.parse_expr_rank(0, 0) {
                Some(e) => e,
                None => {
                    return None;
                },
            };
            if self.next_token_is(&Token::Semicolon) {
                self.bump();
            }
            return Some(Stmt::Return(e));
        }
        let e = match self.parse_expr_rank(0, 0) {
            Some(e) => e,
            None => {
                return None;
            },
        };
        if self.next_token_is(&Token::Semicolon) {
            self.bump();
        }
        Some(Stmt::Expr(e))
    }

    /// Parse the whole program: statements until end of input, collecting
    /// errors rather than stopping at the first one. Statement offsets come
    /// out in non-decreasing source order.
    pub fn parse(&mut self) -> (prog: Program)
        requires
            old(self).wf(),
        ensures
            old(self).steps_to(*final(self)),
            final(self).cur.token is Eof,
            calls_direct_block(prog@),
            forall|i: int, j: int| 0 <= i <= j < prog@.len() ==> prog@[i].1 <= prog@[j].1,
            (is_lit_token(old(self).cur.token) && old(self).next.token is Eof && old(self).errors@.len() == 0) ==> final(self).errors@.len() == 0 && prog@.len() == 1
                && prog@[0].1 == old(self).cur.loc && (prog@[0].0 matches Stmt::Expr(e) && e
                matches Expr::Literal(l) && lit_match(old(self).cur.token, l)),
            (old(self).entry_sum_chain() && old(self).errors@.len() == 0) ==> final(self).errors@.len() == 0 && prog@.len() == 1 && prog@[0].1 == 0 && (prog@[0].0 matches
                Stmt::Expr(e) && sum_chain_tree(e)),
            (old(self).entry_index_assign() && old(self).errors@.len() == 0) ==> final(self).errors@.len() == 0 && prog@.len() == 1 && prog@[0].1 == 0 && (prog@[0].0 matches
                Stmt::Expr(e) && index_assign_tree(e)),
            (old(self).entry_array3() && old(self).errors@.len() == 0) ==> final(self).errors@.len() == 0 && prog@.len() == 1 && prog@[0].1 == 0 && (prog@[0].0 matches
                Stmt::Expr(e) && array3_tree(e)),
            (old(self).entry_hash_kv() && old(self).errors@.len() == 0) ==> final(self).errors@.len() == 0 && prog@.len() == 1 && prog@[0].1 == 0 && (prog@[0].0 matches
                Stmt::Expr(e) && hash_kv_tree(e)),
            (old(self).entry_if_empty() && old(self).errors@.len() == 0) ==> final(self).errors@.len() == 0 && prog@.len() == 1 && prog@[0].1 == 0 && (prog@[0].0 matches
                Stmt::Expr(e) && if_empty_tree(e)),
            (old(self).entry_if_else() && old(self).errors@.len() == 0) ==> final(self).errors@.len() == 0 && prog@.len() == 1 && prog@[0].1 == 0 && (prog@[0].0 matches
                Stmt::Expr(e) && if_else_tree(e)),
            (old(self).entry_regex_plain() && old(self).errors@.len() == 0) ==> final(self).errors@.len() == 0 && prog@.len() == 1 && prog@[0].1 == 0 && (prog@[0].0 matches
                Stmt::Expr(e) && regex_plain_tree(e)),
            (old(self).entry_regex_flags() && old(self).errors@.len() == 0) ==> final(self).errors@.len() == 0 && prog@.len() == 1 && prog@[0].1 == 0 && (prog@[0].0 matches
                Stmt::Expr(e) && regex_flags_tree(e)),
            old(self).entry_paren_call() ==> final(self).errors@.len() >= old(self).errors@.len()
                + 1,
    {
        let mut program: Program = Vec::new();
        while !self.cur_token_is(&Token::Eof)
            invariant
                self.wf(),
                old(self).steps_to(*self),
                calls_direct_block(program@),
                forall|i: int, j: int|
                    0 <= i <= j < program@.len() ==> program@[i].1 <= program@[j].1,
                program@.len() > 0 ==> program@[program@.len() - 1].1 <= self.cur.loc,
                (is_lit_token(old(self).cur.token) && old(self).next.token is Eof && old(self).errors@.len() == 0) ==> (if program@.len() == 0 {
                    *self == *old(self)
                } else {
                    &&& self.errors@.len() == 0
                    &&& program@.len() == 1
                    &&& program@[0].1 == old(self).cur.loc
                    &&& (program@[0].0 matches Stmt::Expr(e) && e matches Expr::Literal(l)
                        && lit_match(old(self).cur.token, l))
                    &&& self.cur.token is Eof
                }),
                (old(self).entry_sum_chain() && old(self).errors@.len() == 0) ==> {
                    ||| (program@.len() == 0 && *self == *old(self))
                    ||| (program@.len() == 1 && program@[0].1 == 0 && (program@[0].0 matches
                        Stmt::Expr(e) && sum_chain_tree(e)) && self.errors@.len() == 0
                        && self.cur.token is Eof)
                },
                (old(self).entry_index_assign() && old(self).errors@.len() == 0) ==> {
                    ||| (program@.len() == 0 && *self == *old(self))
                    ||| (program@.len() == 1 && program@[0].1 == 0 && (program@[0].0 matches
                        Stmt::Expr(e) && index_assign_tree(e)) && self.errors@.len() == 0
                        && self.cur.token is Eof)
                },
                (old(self).entry_array3() && old(self).errors@.len() == 0) ==> {
                    ||| (program@.len() == 0 && *self == *old(self))
                    ||| (program@.len() == 1 && program@[0].1 == 0 && (program@[0].0 matches
                        Stmt::Expr(e) && array3_tree(e)) && self.errors@.len() == 0
                        && self.cur.token is Eof)
                },
                (old(self).entry_hash_kv() && old(self).errors@.len() == 0) ==> {
                    ||| (program@.len() == 0 && *self == *old(self))
                    ||| (program@.len() == 1 && program@[0].1 == 0 && (program@[0].0 matches
                        Stmt::Expr(e) && hash_kv_tree(e)) && self.errors@.len() == 0
                        && self.cur.token is Eof)
                },
                (old(self).entry_if_empty() && old(self).errors@.len() == 0) ==> {
                    ||| (program@.len() == 0 && *self == *old(self))
                    ||| (program@.len() == 1 && program@[0].1 == 0 && (program@[0].0 matches
                        Stmt::Expr(e) && if_empty_tree(e)) && self.errors@.len() == 0
                        && self.cur.token is Eof)
                },
                (old(self).entry_if_else() && old(self).errors@.len() == 0) ==> {
                    ||| (program@.len() == 0 && *self == *old(self))
                    ||| (program@.len() == 1 && program@[0].1 == 0 && (program@[0].0 matches
                        Stmt::Expr(e) && if_else_tree(e)) && self.errors@.len() == 0
                        && self.cur.token is Eof)
                },
                (old(self).entry_regex_plain() && old(self).errors@.len() == 0) ==> {
                    ||| (program@.len() == 0 && *self == *old(self))
                    ||| (program@.len() == 1 && program@[0].1 == 0 && (program@[0].0 matches
                        Stmt::Expr(e) && regex_plain_tree(e)) && self.errors@.len() == 0
                        && self.cur.token is Eof)
                },
                (old(self).entry_regex_flags() && old(self).errors@.len() == 0) ==> {
                    ||| (program@.len() == 0 && *self == *old(self))
                    ||| (program@.len() == 1 && program@[0].1 == 0 && (program@[0].0 matches
                        Stmt::Expr(e) && regex_flags_tree(e)) && self.errors@.len() == 0
                        && self.cur.token is Eof)
                },
                old(self).entry_paren_call() ==> {
                    ||| (program@.len() == 0 && *self == *old(self))
                    ||| self.errors@.len() >= old(self).errors@.len() + 1
                },
            decreases self.pm(),
        {
            let loc = self.cur.loc;
            let ghost prev = program@;
            let ghost hd = *self;
            let st = self.parse_stmt();
            proof {
                hd.lemma_steps_loc(*self);
            }
            match st {
                Some(stmt) => {
                    program.push((stmt, loc));
                    assert(program@ =~= prev.push((program@[prev.len() as int].0, loc)));
                },
                None => {},
            }
            self.bump();
        }
        program
    }
}

/// The rank of the prefix-operand precedence tier.
pub open spec fn spec_prefix_rank() -> u8 {
    prec_rank(Precedence::Prefix)
}

fn prefix_rank() -> (r: u8)
    ensures
        r == spec_prefix_rank(),
{
    Precedence::Prefix.rank()
}

/// Parse a whole source text: the best-effort program together with the
/// parse errors collected along the way.
///
/// The contract pins the laws of literal parsing: a source that is one
/// decimal integer literal parses to exactly that integer; one float
/// literal (digits with exactly one dot) parses to a float literal holding
/// its text verbatim; and a double-quoted source whose inside holds no quote (and
/// no NUL) parses to a string literal preserving that inside character for
/// character. Every call node in the returned program names its callee
/// directly, and statement offsets come out in non-decreasing source order.
///
/// Beyond the literal laws, the contract pins the grammar on the
/// representative sources (see the `src_*` functions): equal-precedence
/// infix operators associate left to right, array elements and hash pairs
/// keep source order, conditionals populate their blocks, regexp literals
/// capture pattern and flags verbatim, an indexed target parses as an
/// assignment through the index, and a call on a parenthesized callee
/// records a parse error.
pub fn parse(source: &str) -> (r: (Program, Vec<ParseError>))
    ensures
        calls_direct_block(r.0@),
        forall|i: int, j: int| 0 <= i <= j < r.0@.len() ==> r.0@[i].1 <= r.0@[j].1,
        source@ == src_sum_chain() ==> r.1@.len() == 0 && r.0@.len() == 1 && r.0@[0].1 == 0 && (
        r.0@[0].0 matches Stmt::Expr(e) && sum_chain_tree(e)),
        source@ == src_index_assign() ==> r.1@.len() == 0 && r.0@.len() == 1 && r.0@[0].1 == 0 && (
        r.0@[0].0 matches Stmt::Expr(e) && index_assign_tree(e)),
        source@ == src_array3() ==> r.1@.len() == 0 && r.0@.len() == 1 && r.0@[0].1 == 0 && (
        r.0@[0].0 matches Stmt::Expr(e) && array3_tree(e)),
        source@ == src_hash_kv() ==> r.1@.len() == 0 && r.0@.len() == 1 && r.0@[0].1 == 0 && (
        r.0@[0].0 matches Stmt::Expr(e) && hash_kv_tree(e)),
        source@ == src_if_empty() ==> r.1@.len() == 0 && r.0@.len() == 1 && r.0@[0].1 == 0 && (
        r.0@[0].0 matches Stmt::Expr(e) && if_empty_tree(e)),
        source@ == src_if_else() ==> r.1@.len() == 0 && r.0@.len() == 1 && r.0@[0].1 == 0 && (
        r.0@[0].0 matches Stmt::Expr(e) && if_else_tree(e)),
        source@ == src_regex_plain() ==> r.1@.len() == 0 && r.0@.len() == 1 && r.0@[0].1 == 0 && (
        r.0@[0].0 matches Stmt::Expr(e) && regex_plain_tree(e)),
        source@ == src_regex_flags() ==> r.1@.len() == 0 && r.0@.len() == 1 && r.0@[0].1 == 0 && (
        r.0@[0].0 matches Stmt::Expr(e) && regex_flags_tree(e)),
        source@ == src_paren_call() ==> r.1@.len() >= 1,
        ({
            let s = source@;
            (s.len() > 0 && (forall|i: int| 0 <= i < s.len() ==> is_digit(#[trigger] s[i]))
                && digits_val(s) <= i32::MAX as nat) ==> r.1@.len() == 0 && r.0@.len() == 1
                && r.0@[0].1 == 0 && (r.0@[0].0 matches Stmt::Expr(e) && e matches Expr::Literal(
                l,
            ) && l matches Literal::Number(Number::Int(v)) && v as int == digits_val(s))
        }),
        ({
            let s = source@;
            (s.len() > 0 && is_digit(s[0]) && (forall|i: int|
                0 <= i < s.len() ==> is_num_char(#[trigger] s[i])) && dot_count(s) == 1)
                ==> r.1@.len() == 0 && r.0@.len() == 1 && r.0@[0].1 == 0 && (r.0@[0].0 matches
                Stmt::Expr(e) && e matches Expr::Literal(l) && l matches Literal::Number(
                Number::Float(t),
            ) && t@ == s)
        }),
        ({
            let s = source@;
            (s.len() >= 2 && s[0] == '"' && s[s.len() - 1] == '"' && (forall|i: int|
                0 < i < s.len() - 1 ==> #[trigger] s[i] != '"' && s[i] != '\0')) ==> r.1@.len()
                == 0 && r.0@.len() == 1 && r.0@[0].1 == 1 && (r.0@[0].0 matches Stmt::Expr(e) && e
                matches Expr::Literal(l) && l matches Literal::String(t) && t@ == s.subrange(
                1,
                s.len() - 1,
            ))
        }),
{
    let lexer = Lexer::new(source);
    let mut parser = Parser::new(lexer);
    proof {
        let s = source@;
        let mid = choose|mid: int|
            #[trigger] token_from(s, 0, parser.cur, mid) && token_from(
                s,
                mid,
                parser.next,
                parser.lexer.pos as int,
            );
        if s.len() > 0 && (forall|i: int| 0 <= i < s.len() ==> is_digit(#[trigger] s[i]))
            && digits_val(s) <= i32::MAX as nat {
            crate::tokenizer::lemma_num_end_full(s, 0);
            assert(forall|i: int| 0 <= i < s.len() ==> s[i] != '.');
            lemma_no_dot_count(s);
            assert(s.subrange(0, s.len() as int) =~= s);
            assert(skip_pos(s, mid) == mid);
        }
        if s.len() > 0 && is_digit(s[0]) && (forall|i: int|
            0 <= i < s.len() ==> is_num_char(#[trigger] s[i])) && dot_count(s) == 1 {
            crate::tokenizer::lemma_num_end_full(s, 0);
            assert(s.subrange(0, s.len() as int) =~= s);
            assert(skip_pos(s, mid) == mid);
        }
        if s.len() >= 2 && s[0] == '"' && s[s.len() - 1] == '"' && (forall|i: int|
            0 < i < s.len() - 1 ==> #[trigger] s[i] != '"' && s[i] != '\0') {
            crate::tokenizer::lemma_str_close_at(s, 1, s.len() - 1);
            assert(skip_pos(s, mid) == mid);
        }
        if s == src_sum_chain() {
            lemma_toks_sum_chain(0, parser.cur, mid);
            lemma_toks_sum_chain(mid, parser.next, parser.lexer.pos as int);
        }
        if s == src_index_assign() {
            lemma_toks_index_assign(0, parser.cur, mid);
            lemma_toks_index_assign(mid, parser.next, parser.lexer.pos as int);
        }
        if s == src_array3() {
            lemma_toks_array3(0, parser.cur, mid);
            lemma_toks_array3(mid, parser.next, parser.lexer.pos as int);
        }
        if s == src_hash_kv() {
            lemma_toks_hash_kv(0, parser.cur, mid);
            lemma_toks_hash_kv(mid, parser.next, parser.lexer.pos as int);
        }
        if s == src_if_empty() {
            lemma_toks_if_empty(0, parser.cur, mid);
            lemma_toks_if_empty(mid, parser.next, parser.lexer.pos as int);
        }
        if s == src_if_else() {
            lemma_toks_if_else(0, parser.cur, mid);
            lemma_toks_if_else(mid, parser.next, parser.lexer.pos as int);
        }
        if s == src_regex_plain() {
            lemma_toks_regex_plain(0, parser.cur, mid);
            lemma_toks_regex_plain(mid, parser.next, parser.lexer.pos as int);
        }
        if s == src_regex_flags() {
            lemma_toks_regex_flags(0, parser.cur, mid);
            lemma_toks_regex_flags(mid, parser.next, parser.lexer.pos as int);
        }
        if s == src_paren_call() {
            lemma_toks_paren_call(0, parser.cur, mid);
            lemma_toks_paren_call(mid, parser.next, parser.lexer.pos as int);
        }
    }
    let prog = parser.parse();
    let errors = parser.errors;
    (prog, errors)
}

} // verus!
