//! The abstract syntax tree produced by the parser: a tagged, recursive,
//! tree-shaped term language in which every node owns its children.

use vstd::prelude::*;
pub use crate::tokens::Number;

verus! {

broadcast use vstd::seq::axiom_seq_index_decreases, vstd::std_specs::vec::axiom_vec_decreases_to_view, vstd::std_specs::vec::axiom_vec_index_decreases;

/// An identifier; equality is structural on the wrapped name.
#[derive(Debug, Clone, PartialEq)]
pub struct Ident(pub String);

#[derive(Debug, Clone, PartialEq, Eq, Structural)]
pub enum Prefix {
    Plus,
    Minus,
    Not,
}

impl Prefix {
    /// The operator's source spelling.
    pub fn to_code(&self) -> (s: String)
        ensures
            s@ == prefix_code(*self),
    {
        proof {
            reveal_strlit("+");
            reveal_strlit("-");
            reveal_strlit("!");
        }
        let r = match self {
            Prefix::Plus => String::from_str("+"),
            Prefix::Minus => String::from_str("-"),
            Prefix::Not => String::from_str("!"),
        };
        proof {
            assert(r@ =~= prefix_code(*self));
        }
        r
    }
}

/// The spelling of a prefix operator, as a character sequence.
pub open spec fn prefix_code(op: Prefix) -> Seq<char> {
    match op {
        Prefix::Plus => seq!['+'],
        Prefix::Minus => seq!['-'],
        Prefix::Not => seq!['!'],
    }
}

#[derive(Debug, Clone, PartialEq, Eq, Structural)]
pub enum Infix {
    Plus,
    Minus,
    Divide,
    Multiply,
    Equal,
    NotEqual,
    Power,
    Modulo,
    PlusAssign,
    MulAssign,
    DivAssign,
    SubAssign,
    GreaterThanEqual,
    GreaterThan,
    LessThanEqual,
    LessThan,
}

impl Infix {
    /// The operator's output spelling.
    pub fn to_code(&self) -> (s: String)
        ensures
            s@ == infix_code(*self),
    {
        proof {
            reveal_strlit("+");
            reveal_strlit("-");
            reveal_strlit("/");
            reveal_strlit("*");
            reveal_strlit("==");
            reveal_strlit("!=");
            reveal_strlit("**");
            reveal_strlit("%");
            reveal_strlit("+=");
            reveal_strlit("*=");
            reveal_strlit("/=");
            reveal_strlit("-=");
            reveal_strlit(">=");
            reveal_strlit(">");
            reveal_strlit("<=");
            reveal_strlit("<");
        }
        let r = match self {
            Infix::Plus => String::from_str("+"),
            Infix::Minus => String::from_str("-"),
            Infix::Divide => String::from_str("/"),
            Infix::Multiply => String::from_str("*"),
            Infix::Equal => String::from_str("=="),
            Infix::NotEqual => String::from_str("!="),
            Infix::Power => String::from_str("**"),
            Infix::Modulo => String::from_str("%"),
            Infix::PlusAssign => String::from_str("+="),
            Infix::MulAssign => String::from_str("*="),
            Infix::DivAssign => String::from_str("/="),
            Infix::SubAssign => String::from_str("-="),
            Infix::GreaterThanEqual => String::from_str(">="),
            Infix::GreaterThan => String::from_str(">"),
            Infix::LessThanEqual => String::from_str("<="),
            Infix::LessThan => String::from_str("<"),
        };
        proof {
            assert(r@ =~= infix_code(*self));
        }
        r
    }
}

/// The spelling of an infix operator, as a character sequence.
pub open spec fn infix_code(op: Infix) -> Seq<char> {
    match op {
        Infix::Plus => seq!['+'],
        Infix::Minus => seq!['-'],
        Infix::Divide => seq!['/'],
        Infix::Multiply => seq!['*'],
        Infix::Equal => seq!['=', '='],
        Infix::NotEqual => seq!['!', '='],
        Infix::Power => seq!['*', '*'],
        Infix::Modulo => seq!['%'],
        Infix::PlusAssign => seq!['+', '='],
        Infix::MulAssign => seq!['*', '='],
        Infix::DivAssign => seq!['/', '='],
        Infix::SubAssign => seq!['-', '='],
        Infix::GreaterThanEqual => seq!['>', '='],
        Infix::GreaterThan => seq!['>'],
        Infix::LessThanEqual => seq!['<', '='],
        Infix::LessThan => seq!['<'],
    }
}

#[derive(Debug, PartialEq)]
pub enum Expr {
    Ident(Ident),
    Let(Ident, Box<Expr>),
    Assign(Box<Expr>, Box<Expr>),
    Literal(Literal),
    Prefix(Prefix, Box<Expr>),
    Infix(Infix, Box<Expr>, Box<Expr>),
    Index(Box<Expr>, Box<Expr>),
    Accessor(Box<Expr>, Ident),
    If { cond: Box<Expr>, consequence: BlockStmt, alternative: Option<BlockStmt> },
    While { cond: Box<Expr>, consequence: BlockStmt },
    Func { params: Vec<Ident>, body: BlockStmt, name: Option<Ident> },
    Macro { name: Box<Expr>, args: Vec<Expr> },
    Call { func: Box<Expr>, args: Vec<Expr> },
    Regexp { pattern: Box<Expr>, flags: Option<Ident> },
}

#[derive(Debug, PartialEq)]
pub enum Literal {
    Number(Number),
    String(String),
    Bool(bool),
    Array(Vec<Expr>),
    Hash(Vec<(Expr, Expr)>),
}

#[derive(Debug, PartialEq)]
pub enum Stmt {
    Blank,
    Expr(Expr),
    Return(Expr),
}

/// An ordered sequence of statements, each keeping the character offset at
/// which it started, for diagnostic mapping.
pub type BlockStmt = Vec<(Stmt, usize)>;

pub type Program = BlockStmt;

/// The comparison key of precedence climbing; never persisted in the tree.
#[derive(Debug, Clone, Copy, PartialEq, Eq, Structural, PartialOrd)]
pub enum Precedence {
    Lowest,
    Equals,
    LessGreater,
    Sum,
    Product,
    Prefix,
    Call,
    Index,
    Assign,
}

impl Precedence {
    /// The rank that orders the precedence tiers, `Lowest` ranking least.
    pub fn rank(&self) -> (r: u8)
        ensures
            r == prec_rank(*self),
    {
        match self {
            Precedence::Lowest => 0,
            Precedence::Equals => 1,
            Precedence::LessGreater => 2,
            Precedence::Sum => 3,
            Precedence::Product => 4,
            Precedence::Prefix => 5,
            Precedence::Call => 6,
            Precedence::Index => 7,
            Precedence::Assign => 8,
        }
    }
}

/// The numeric rank of a precedence tier.
pub open spec fn prec_rank(p: Precedence) -> u8 {
    match p {
        Precedence::Lowest => 0,
        Precedence::Equals => 1,
        Precedence::LessGreater => 2,
        Precedence::Sum => 3,
        Precedence::Product => 4,
        Precedence::Prefix => 5,
        Precedence::Call => 6,
        Precedence::Index => 7,
        Precedence::Assign => 8,
    }
}

/// Every call (and macro invocation) in the expression names its target
/// directly: the callee is a bare identifier, never a computed expression.
pub open spec fn calls_direct_expr(e: Expr) -> bool
    decreases e,
{
    match e {
        Expr::Ident(_) => true,
        Expr::Let(_, v) => calls_direct_expr(*v),
        Expr::Assign(t, v) => calls_direct_expr(*t) && calls_direct_expr(*v),
        Expr::Literal(l) => calls_direct_lit(l),
        Expr::Prefix(_, x) => calls_direct_expr(*x),
        Expr::Infix(_, a, b) => calls_direct_expr(*a) && calls_direct_expr(*b),
        Expr::Index(a, b) => calls_direct_expr(*a) && calls_direct_expr(*b),
        Expr::Accessor(a, _) => calls_direct_expr(*a),
        Expr::If { cond, consequence, alternative } => {
            &&& calls_direct_expr(*cond)
            &&& calls_direct_block(consequence@)
            &&& (alternative matches Some(alt) ==> calls_direct_block(alt@))
        },
        Expr::While { cond, consequence } => calls_direct_expr(*cond) && calls_direct_block(
            consequence@,
        ),
        Expr::Func { params: _, body, name: _ } => calls_direct_block(body@),
        Expr::Macro { name, args } => {
            &&& *name matches Expr::Ident(_)
            &&& forall|i: int| 0 <= i < args@.len() ==> calls_direct_expr(#[trigger] args@[i])
        },
        Expr::Call { func, args } => {
            &&& *func matches Expr::Ident(_)
            &&& forall|i: int| 0 <= i < args@.len() ==> calls_direct_expr(#[trigger] args@[i])
        },
        Expr::Regexp { pattern, flags: _ } => calls_direct_expr(*pattern),
    }
}

pub open spec fn calls_direct_lit(l: Literal) -> bool
    decreases l,
{
    match l {
        Literal::Array(es) => forall|i: int|
            0 <= i < es@.len() ==> calls_direct_expr(#[trigger] es@[i]),
        Literal::Hash(ps) => forall|i: int|
            0 <= i < ps@.len() ==> calls_direct_expr(#[trigger] ps@[i].0) && calls_direct_expr(
                ps@[i].1,
            ),
        _ => true,
    }
}

pub open spec fn calls_direct_stmt(s: Stmt) -> bool
    decreases s,
{
    match s {
        Stmt::Blank => true,
        Stmt::Expr(e) => calls_direct_expr(e),
        Stmt::Return(e) => calls_direct_expr(e),
    }
}

pub open spec fn calls_direct_block(b: Seq<(Stmt, usize)>) -> bool
    decreases b,
{
    forall|i: int| 0 <= i < b.len() ==> calls_direct_stmt(#[trigger] b[i].0)
}

} // verus!
