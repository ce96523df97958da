//! The lexer: a single-forward-pass state machine over the source text,
//! with one character of lookahead, producing located tokens on demand.
//!
//! Offsets (`pos`, `loc`) count characters of the source, a deliberate
//! deviation from byte offsets: the two coincide on ASCII sources, and
//! counting characters lets every contract here speak over the source's
//! character sequence directly. Once the input is exhausted the cursor
//! stays parked at the end (its lookahead one further) and `next_token`
//! returns an end-of-input token forever.

use vstd::prelude::*;
use crate::strutil::{char_string, push_char, string_is};
use crate::tokens::{Node, Number, Token};

verus! {

/// The character of `s` at `i`, or the NUL sentinel outside the text.
pub open spec fn char_at(s: Seq<char>, i: int) -> char {
    if 0 <= i < s.len() {
        s[i]
    } else {
        '\0'
    }
}

pub open spec fn is_ws(c: char) -> bool {
    c == ' ' || c == '\t'
}

pub open spec fn is_letter(c: char) -> bool {
    ('a' <= c && c <= 'z') || ('A' <= c && c <= 'Z') || c == '_'
}

pub open spec fn is_digit(c: char) -> bool {
    '0' <= c && c <= '9'
}

pub open spec fn is_num_char(c: char) -> bool {
    is_digit(c) || c == '.'
}

/// Where the token after `p` starts: spaces, tabs, newlines and `#` line
/// comments are passed over silently.
pub open spec fn skip_pos(s: Seq<char>, p: int) -> int
    decreases s.len() - p, 1int,
{
    if p < 0 || p >= s.len() {
        p
    } else if is_ws(s[p]) || s[p] == '\n' {
        skip_pos(s, p + 1)
    } else if s[p] == '#' {
        skip_from_comment(s, p + 1)
    } else {
        p
    }
}

/// Where the token after a comment starting before `p` starts: the comment
/// runs to the next newline, carriage return or NUL.
pub open spec fn skip_from_comment(s: Seq<char>, p: int) -> int
    decreases s.len() - p, 0int,
{
    if p < 0 || p >= s.len() {
        p
    } else if s[p] == '\n' {
        skip_pos(s, p + 1)
    } else if s[p] == '\r' || s[p] == '\0' {
        p
    } else {
        skip_from_comment(s, p + 1)
    }
}

/// The end of the identifier run starting at `p`.
pub open spec fn ident_end(s: Seq<char>, p: int) -> int
    decreases s.len() - p,
{
    if p < 0 || p >= s.len() || !is_letter(s[p]) {
        p
    } else {
        ident_end(s, p + 1)
    }
}

/// The end of the numeric run (digits and dots) starting at `p`.
pub open spec fn num_end(s: Seq<char>, p: int) -> int
    decreases s.len() - p,
{
    if p < 0 || p >= s.len() || !is_num_char(s[p]) {
        p
    } else {
        num_end(s, p + 1)
    }
}

/// The position of the closing quote (or terminating NUL, or the end of the
/// input) of a string whose contents start at `p`.
pub open spec fn str_close(s: Seq<char>, p: int) -> int
    decreases s.len() - p,
{
    if p < 0 || p >= s.len() || s[p] == '"' || s[p] == '\0' {
        p
    } else {
        str_close(s, p + 1)
    }
}

/// The value of a run of decimal digits.
pub open spec fn digits_val(s: Seq<char>) -> nat
    decreases s.len(),
{
    if s.len() == 0 {
        0
    } else {
        digits_val(s.drop_last()) * 10 + digit_val(s.last())
    }
}

pub open spec fn digit_val(c: char) -> nat {
    if is_digit(c) {
        (c as u32 - '0' as u32) as nat
    } else {
        0
    }
}

/// The keyword table: the identifier spellings that map to fixed tokens.
pub open spec fn is_kw_text(t: Seq<char>) -> bool {
    t == "if"@ || t == "let"@ || t == "else"@ || t == "while"@ || t == "fn"@ || t == "true"@
        || t == "false"@ || t == "end"@ || t == "return"@
}

pub open spec fn kw_token(t: Seq<char>) -> Token {
    if t == "if"@ {
        Token::If
    } else if t == "let"@ {
        Token::Let
    } else if t == "else"@ {
        Token::Else
    } else if t == "while"@ {
        Token::While
    } else if t == "fn"@ {
        Token::Func
    } else if t == "true"@ {
        Token::Bool(true)
    } else if t == "false"@ {
        Token::Bool(false)
    } else if t == "end"@ {
        Token::End
    } else if t == "return"@ {
        Token::Return
    } else {
        Token::Illegal
    }
}

/// Whether the operator at `c` extends to a two-character operator when
/// followed by `d`.
pub open spec fn op2(c: char, d: char) -> bool {
    d == '=' && (c == '=' || c == '!' || c == '<' || c == '>' || c == '+' || c == '-' || c == '*'
        || c == '/')
}

/// The token of the operator or delimiter spelled by `c`, possibly extended
/// by `d`.
pub open spec fn op_token(c: char, d: char) -> Token {
    if c == '=' {
        if d == '=' {
            Token::Equal
        } else {
            Token::Assign
        }
    } else if c == '!' {
        if d == '=' {
            Token::NotEqual
        } else {
            Token::Bang
        }
    } else if c == '<' {
        if d == '=' {
            Token::LessThanEqual
        } else {
            Token::LessThan
        }
    } else if c == '>' {
        if d == '=' {
            Token::GreaterThanEqual
        } else {
            Token::GreaterThan
        }
    } else if c == '+' {
        if d == '=' {
            Token::PlusAssign
        } else {
            Token::Plus
        }
    } else if c == '-' {
        if d == '=' {
            Token::SubAssign
        } else {
            Token::Minus
        }
    } else if c == '*' {
        if d == '=' {
            Token::MulAssign
        } else {
            Token::Asterisk
        }
    } else if c == '/' {
        if d == '=' {
            Token::DivAssign
        } else {
            Token::Slash
        }
    } else if c == '^' {
        Token::Caret
    } else if c == '%' {
        Token::Percent
    } else if c == '(' {
        Token::Lparen
    } else if c == ')' {
        Token::Rparen
    } else if c == '{' {
        Token::Lbrace
    } else if c == '}' {
        Token::Rbrace
    } else if c == '[' {
        Token::Lbracket
    } else if c == ']' {
        Token::Rbracket
    } else if c == ',' {
        Token::Comma
    } else if c == ';' {
        Token::Semicolon
    } else if c == ':' {
        Token::Colon
    } else if c == '.' {
        Token::Dot
    } else {
        Token::Illegal
    }
}

/// Where the lookahead cursor stands when the current one is at `p`: one
/// further, saturating at the machine bound.
pub open spec fn succ_pos(p: int) -> int {
    if p + 1 <= usize::MAX {
        p + 1
    } else {
        usize::MAX as int
    }
}

/// A lexer over `input`, reading the character `ch` at `pos`, with `next_pos`
/// holding the cursor of the upcoming character.
pub struct Lexer<'a> {
    pub input: &'a str,
    pub pos: usize,
    pub next_pos: usize,
    pub ch: char,
}

impl<'a> Lexer<'a> {
    /// The cursor sits on a character of the input (or is parked at its
    /// end), the lookahead cursor one further (one past the end at most).
    pub open spec fn wf(self) -> bool {
        let s = self.input@;
        &&& s.len() <= usize::MAX
        &&& self.pos <= s.len()
        &&& self.next_pos == succ_pos(self.pos as int)
        &&& self.ch == char_at(s, self.pos as int)
    }

    /// Create a new lexer for the given source, positioned on its first
    /// character after exactly one read: the lookahead cursor is 1 for
    /// every input, the empty one included.
    pub fn new(input: &'a str) -> (l: Self)
        ensures
            l.wf(),
            l.input == input,
            l.pos == 0,
            l.next_pos == 1,
    {
        let mut lexer = Lexer { input, pos: 0, next_pos: 0, ch: '\0' };
        lexer.read_char();
        lexer
    }

    fn read_char(&mut self)
        ensures
            final(self).input == old(self).input,
            final(self).input@.len() <= usize::MAX,
            final(self).pos == if old(self).next_pos <= old(self).input@.len() {
                old(self).next_pos as int
            } else {
                old(self).input@.len() as int
            },
            final(self).ch == char_at(old(self).input@, final(self).pos as int),
            final(self).next_pos == succ_pos(final(self).pos as int),
    {
        let n = self.input.unicode_len();
        if self.next_pos >= n {
            self.ch = '\0';
            self.pos = n;
        } else {
            self.ch = self.input.get_char(self.next_pos);
            self.pos = self.next_pos;
        }
        if self.pos < usize::MAX {
            self.next_pos = self.pos + 1;
        } else {
            self.next_pos = usize::MAX;
        }
    }

    fn nextch(&mut self) -> (c: char)
        requires
            old(self).wf(),
        ensures
            *final(self) == *old(self),
            c == char_at(old(self).input@, old(self).next_pos as int),
    {
        let n = self.input.unicode_len();
        if self.next_pos >= n {
            '\0'
        } else {
            self.input.get_char(self.next_pos)
        }
    }

    fn nextch_is(&mut self, c: char) -> (r: bool)
        requires
            old(self).wf(),
        ensures
            *final(self) == *old(self),
            r == (char_at(old(self).input@, old(self).next_pos as int) == c),
    {
        self.nextch() == c
    }

    fn skip_whitespace(&mut self)
        requires
            old(self).wf(),
        ensures
            final(self).wf(),
            final(self).input == old(self).input,
            old(self).pos <= final(self).pos <= final(self).input@.len(),
            skip_pos(final(self).input@, final(self).pos as int) == skip_pos(
                old(self).input@,
                old(self).pos as int,
            ),
            !is_ws(final(self).ch),
    {
        while self.ch == ' ' || self.ch == '\t'
            invariant
                self.wf(),
                self.input == old(self).input,
                old(self).pos <= self.pos <= self.input@.len(),
                skip_pos(self.input@, self.pos as int) == skip_pos(
                    old(self).input@,
                    old(self).pos as int,
                ),
            decreases self.input@.len() - self.pos,
        {
            assert(self.pos < self.input@.len());
            self.read_char();
        }
    }

    fn skip_comments(&mut self)
        requires
            old(self).wf(),
        ensures
            final(self).wf(),
            final(self).input == old(self).input,
            old(self).pos <= final(self).pos <= final(self).input@.len(),
            skip_from_comment(final(self).input@, final(self).pos as int) == skip_from_comment(
                old(self).input@,
                old(self).pos as int,
            ),
            final(self).ch == '\n' || final(self).ch == '\r' || final(self).ch == '\0',
            (!(old(self).ch == '\n' || old(self).ch == '\r' || old(self).ch == '\0')) ==> final(self).pos > old(self).pos,
    {
        while !(self.ch == '\n' || self.ch == '\r' || self.ch == '\0')
            invariant
                self.wf(),
                self.input == old(self).input,
                old(self).pos <= self.pos <= self.input@.len(),
                skip_from_comment(self.input@, self.pos as int) == skip_from_comment(
                    old(self).input@,
                    old(self).pos as int,
                ),
                self.pos == old(self).pos ==> self.ch == old(self).ch,
            decreases self.input@.len() - self.pos,
        {
            assert(self.pos < self.input@.len());
            self.read_char();
        }
    }

    fn consume_identifier(&mut self) -> (n: Node)
        requires
            old(self).wf(),
            is_letter(old(self).ch),
        ensures
            final(self).wf(),
            final(self).input == old(self).input,
            final(self).pos == ident_end(old(self).input@, old(self).pos as int),
            n.loc == old(self).pos,
            n.ch@ == old(self).input@.subrange(old(self).pos as int, final(self).pos as int),
            is_kw_text(n.ch@) ==> n.token == kw_token(n.ch@),
            !is_kw_text(n.ch@) ==> (n.token matches Token::Ident(name) && name@ == n.ch@),
    {
        let ghost s = self.input@;
        let start_pos = self.pos;
        while char_is_letter(self.ch)
            invariant
                self.wf(),
                self.input == old(self).input,
                self.input@ == s,
                start_pos == old(self).pos,
                start_pos <= self.pos <= s.len(),
                ident_end(s, self.pos as int) == ident_end(s, start_pos as int),
            decreases s.len() - self.pos,
        {
            assert(self.pos < s.len());
            self.read_char();
        }
        assert(ident_end(s, self.pos as int) == self.pos as int);
        let text = self.input.substring_char(start_pos, self.pos);
        let lit = text.to_owned();
        if string_is(&lit, "if") {
            return Node::new(Token::If, lit, start_pos);
        }
        if string_is(&lit, "let") {
            return Node::new(Token::Let, lit, start_pos);
        }
        if string_is(&lit, "else") {
            return Node::new(Token::Else, lit, start_pos);
        }
        if string_is(&lit, "while") {
            return Node::new(Token::While, lit, start_pos);
        }
        if string_is(&lit, "fn") {
            return Node::new(Token::Func, lit, start_pos);
        }
        if string_is(&lit, "true") {
            return Node::new(Token::Bool(true), lit, start_pos);
        }
        if string_is(&lit, "false") {
            return Node::new(Token::Bool(false), lit, start_pos);
        }
        if string_is(&lit, "end") {
            return Node::new(Token::End, lit, start_pos);
        }
        if string_is(&lit, "return") {
            return Node::new(Token::Return, lit, start_pos);
        }
        let name = lit.clone();
        Node::new(Token::Ident(name), lit, start_pos)
    }

    fn consume_number(&mut self) -> (n: Node)
        requires
            old(self).wf(),
            is_digit(old(self).ch),
        ensures
            final(self).wf(),
            final(self).input == old(self).input,
            final(self).pos == num_end(old(self).input@, old(self).pos as int),
            n.loc == old(self).pos,
            n.ch@ == old(self).input@.subrange(old(self).pos as int, final(self).pos as int),
            dot_count(n.ch@) == 1 ==> (n.token matches Token::Number(num) && num matches
                Number::Float(t) && t@ == n.ch@),
            dot_count(n.ch@) >= 2 ==> n.token is Illegal,
            dot_count(n.ch@) == 0 && digits_val(n.ch@) <= i32::MAX as nat ==> (n.token matches
                Token::Number(num) && num matches Number::Int(v) && v as int == digits_val(n.ch@)),
            dot_count(n.ch@) == 0 && digits_val(n.ch@) > i32::MAX as nat ==> n.token is Illegal,
    {
        let ghost s = self.input@;
        let start_pos = self.pos;
        let mut ndots: usize = 0;
        while char_is_num(self.ch)
            invariant
                self.wf(),
                self.input == old(self).input,
                self.input@ == s,
                start_pos == old(self).pos,
                start_pos <= self.pos <= s.len(),
                num_end(s, self.pos as int) == num_end(s, start_pos as int),
                forall|j: int| start_pos <= j < self.pos ==> is_num_char(#[trigger] s[j]),
                ndots <= self.pos - start_pos,
                ndots as nat == dot_count(s.subrange(start_pos as int, self.pos as int)),
            decreases s.len() - self.pos,
        {
            assert(self.pos < s.len());
            let ghost before = s.subrange(start_pos as int, self.pos as int);
            let ghost after = s.subrange(start_pos as int, self.pos + 1);
            proof {
                assert(after =~= before.push(s[self.pos as int]));
                assert(after.drop_last() =~= before);
            }
            if self.ch == '.' {
                ndots = ndots + 1;
            }
            self.read_char();
        }
        assert(num_end(s, self.pos as int) == self.pos as int);
        let text = self.input.substring_char(start_pos, self.pos);
        let lit = text.to_owned();
        if ndots == 1 {
            let lit2 = lit.clone();
            Node::new(Token::Number(Number::Float(lit2)), lit, start_pos)
        } else if ndots >= 2 {
            Node::new(Token::Illegal, lit, start_pos)
        } else {
            assert(forall|i: int| 0 <= i < lit@.len() ==> is_digit(#[trigger] lit@[i])) by {
                lemma_dot_count_zero(lit@);
                assert(forall|i: int|
                    0 <= i < lit@.len() ==> lit@[i] == s[start_pos + i] && is_num_char(
                        #[trigger] lit@[i],
                    ));
            }
            match digits_to_i32(&lit) {
                Some(v) => Node::new(Token::Number(Number::Int(v)), lit, start_pos),
                None => Node::new(Token::Illegal, lit, start_pos),
            }
        }
    }

    fn consume_string(&mut self) -> (n: Node)
        requires
            old(self).wf(),
            old(self).ch == '"',
        ensures
            final(self).wf(),
            final(self).input == old(self).input,
            ({
                let s = old(self).input@;
                let cl = str_close(s, old(self).pos + 1);
                &&& n.loc == old(self).pos + 1
                &&& (n.token matches Token::String(t) && t@ == s.subrange(old(self).pos + 1, cl))
                &&& n.ch@ == s.subrange(old(self).pos + 1, cl)
                &&& final(self).pos == if cl + 1 <= s.len() {
                    cl + 1
                } else {
                    s.len() as int
                }
            }),
    {
        let ghost s = self.input@;
        assert(self.pos < s.len());
        self.read_char();
        let start_pos = self.pos;
        while !(self.ch == '"' || self.ch == '\0')
            invariant
                self.wf(),
                self.input == old(self).input,
                self.input@ == s,
                start_pos == old(self).pos + 1,
                start_pos <= self.pos <= s.len(),
                str_close(s, self.pos as int) == str_close(s, start_pos as int),
            decreases s.len() - self.pos,
        {
            assert(self.pos < s.len());
            self.read_char();
        }
        assert(str_close(s, self.pos as int) == self.pos as int);
        let text = self.input.substring_char(start_pos, self.pos);
        let lit = text.to_owned();
        let lit2 = lit.clone();
        let node = Node::new(Token::String(lit2), lit, start_pos);
        self.read_char();
        node
    }

    /// Scans a regexp literal raw, starting right after the `/` that sits at
    /// `start`: the pattern runs verbatim to the next unescaped `/` (or the
    /// end of the input), and a trailing identifier, if any, is taken as
    /// the flags.
    pub fn consume_regexp(&mut self, start: usize) -> (n: Node)
        requires
            old(self).wf(),
            start < old(self).input@.len(),
        ensures
            final(self).wf(),
            final(self).input == old(self).input,
            n.loc == start,
            start + 1 <= final(self).pos <= final(self).input@.len(),
            ({
                let s = old(self).input@;
                let c = rx_close(s, start + 1);
                &&& (n.token matches Token::Regexp(pat, fl) && pat@ == s.subrange(start + 1, c)
                    && (if c < s.len() && s[c] == '/' {
                    fl@ == s.subrange(c + 1, ident_end(s, c + 1))
                } else {
                    fl@.len() == 0
                }))
                &&& n.ch@ == s.subrange(start + 1, c)
                &&& final(self).pos == (if c < s.len() && s[c] == '/' {
                    ident_end(s, c + 1)
                } else {
                    c
                })
            }),
    {
        let ghost s = self.input@;
        proof {
            lemma_rx_close_bounds(s, start + 1);
        }
        self.next_pos = start;
        self.read_char();
        self.read_char();
        let mut pattern = String::new();
        while !(self.ch == '/' || self.ch == '\0')
            invariant
                self.wf(),
                self.input == old(self).input,
                self.input@ == s,
                start + 1 <= self.pos <= s.len(),
                pattern@ == s.subrange(start + 1, self.pos as int),
                rx_close(s, self.pos as int) == rx_close(s, start + 1),
            decreases s.len() - self.pos,
        {
            if self.ch == '\\' {
                push_char(&mut pattern, self.ch);
                assert(self.pos < s.len());
                self.read_char();
                if !(self.ch == '\0') {
                    push_char(&mut pattern, self.ch);
                    assert(self.pos < s.len());
                    self.read_char();
                }
                proof {
                    assert(pattern@ =~= s.subrange(start + 1, self.pos as int));
                }
            } else {
                push_char(&mut pattern, self.ch);
                assert(self.pos < s.len());
                self.read_char();
                proof {
                    assert(pattern@ =~= s.subrange(start + 1, self.pos as int));
                }
            }
        }
        assert(rx_close(s, self.pos as int) == self.pos as int);
        let ghost c = self.pos as int;
        let closed = self.ch == '/';
        if closed {
            assert(self.pos < s.len());
            self.read_char();
        }
        let mut flags = String::new();
        while char_is_letter(self.ch)
            invariant
                self.wf(),
                self.input == old(self).input,
                self.input@ == s,
                start + 1 <= self.pos <= s.len(),
                start + 1 <= c <= s.len(),
                closed ==> c + 1 <= self.pos && flags@ == s.subrange(c + 1, self.pos as int)
                    && ident_end(s, self.pos as int) == ident_end(s, c + 1),
                !closed ==> flags@.len() == 0 && self.pos == c && char_at(s, c) == '\0',
            decreases s.len() - self.pos,
        {
            let ghost at = self.pos as int;
            push_char(&mut flags, self.ch);
            assert(self.pos < s.len());
            self.read_char();
            proof {
                assert(s.subrange(c + 1, at + 1) =~= s.subrange(c + 1, at).push(s[at]));
                assert(flags@ =~= s.subrange(c + 1, self.pos as int));
            }
        }
        proof {
            if closed {
                assert(ident_end(s, self.pos as int) == self.pos as int);
                assert(c < s.len() && s[c] == '/');
                assert(self.pos == ident_end(s, c + 1));
            } else {
                assert(!(c < s.len() && s[c] == '/'));
                assert(self.pos == c);
            }
        }
        let pat2 = pattern.clone();
        Node::new(Token::Regexp(pattern, flags), pat2, start)
    }

    /// The next token of the input, skipping whitespace, newlines and `#`
    /// line comments; returns an end-of-input token forever once the input
    /// is exhausted.
    pub fn next_token(&mut self) -> (n: Node)
        requires
            old(self).wf(),
        ensures
            final(self).wf(),
            final(self).input == old(self).input,
            token_from(old(self).input@, old(self).pos as int, n, final(self).pos as int),
        decreases old(self).input@.len() - old(self).pos,
    {
        let ghost s = self.input@;
        proof {
            lemma_skip_pos_bounds(s, old(self).pos as int);
        }
        self.skip_whitespace();
        let ghost q = skip_pos(s, old(self).pos as int);
        let c = self.ch;
        if char_is_letter(c) {
            assert(skip_pos(s, self.pos as int) == self.pos as int);
            proof {
                lemma_ident_end_bounds(s, self.pos + 1);
            }
            return self.consume_identifier();
        }
        if char_is_digit(c) {
            assert(skip_pos(s, self.pos as int) == self.pos as int);
            proof {
                lemma_num_end_bounds(s, self.pos + 1);
            }
            return self.consume_number();
        }
        if c == '"' {
            assert(skip_pos(s, self.pos as int) == self.pos as int);
            proof {
                lemma_str_close_bounds(s, self.pos + 1);
            }
            return self.consume_string();
        }
        if c == '\n' {
            assert(self.pos < s.len());
            self.read_char();
            let n = self.next_token();
            return n;
        }
        if c == '#' {
            let ghost w = self.pos as int;
            self.skip_comments();
            let ghost e = self.pos as int;
            proof {
                assert(skip_from_comment(s, w + 1) == skip_from_comment(s, e));
                assert(skip_pos(s, w) == skip_from_comment(s, w + 1));
                assert(skip_from_comment(s, e) == skip_pos(s, e));
            }
            let n = self.next_token();
            return n;
        }
        if c == '\0' {
            assert(skip_pos(s, self.pos as int) == self.pos as int);
            let node = Node::new(Token::Eof, char_string(c), self.pos);
            self.read_char();
            return node;
        }
        assert(skip_pos(s, self.pos as int) == self.pos as int);
        let d = self.nextch();
        let two = d == '=' && (c == '=' || c == '!' || c == '<' || c == '>' || c == '+' || c == '-'
            || c == '*' || c == '/');
        let token = if c == '=' {
            if two {
                Token::Equal
            } else {
                Token::Assign
            }
        } else if c == '!' {
            if two {
                Token::NotEqual
            } else {
                Token::Bang
            }
        } else if c == '<' {
            if two {
                Token::LessThanEqual
            } else {
                Token::LessThan
            }
        } else if c == '>' {
            if two {
                Token::GreaterThanEqual
            } else {
                Token::GreaterThan
            }
        } else if c == '+' {
            if two {
                Token::PlusAssign
            } else {
                Token::Plus
            }
        } else if c == '-' {
            if two {
                Token::SubAssign
            } else {
                Token::Minus
            }
        } else if c == '*' {
            if two {
                Token::MulAssign
            } else {
                Token::Asterisk
            }
        } else if c == '/' {
            if two {
                Token::DivAssign
            } else {
                Token::Slash
            }
        } else if c == '^' {
            Token::Caret
        } else if c == '%' {
            Token::Percent
        } else if c == '(' {
            Token::Lparen
        } else if c == ')' {
            Token::Rparen
        } else if c == '{' {
            Token::Lbrace
        } else if c == '}' {
            Token::Rbrace
        } else if c == '[' {
            Token::Lbracket
        } else if c == ']' {
            Token::Rbracket
        } else if c == ',' {
            Token::Comma
        } else if c == ';' {
            Token::Semicolon
        } else if c == ':' {
            Token::Colon
        } else if c == '.' {
            Token::Dot
        } else {
            Token::Illegal
        };
        let node = Node::new(token, char_string(c), self.pos);
        if two {
            self.read_char();
        }
        self.read_char();
        node
    }
}


/// What `next_token` returns when called with the cursor at `p`: the token
/// starting at `q = skip_pos(s, p)`, classified by its first character, with
/// `endpos` the cursor position afterwards.
pub open spec fn token_from(s: Seq<char>, p: int, n: Node, endpos: int) -> bool {
    let q = skip_pos(s, p);
    &&& p <= q <= s.len()
    &&& p <= endpos <= s.len()
    &&& p <= n.loc <= s.len()
    &&& n.loc <= endpos
    &&& (n.loc < s.len() ==> n.loc + 1 <= endpos)
    &&& (n.token is Eof <==> q >= s.len() || s[q] == '\0')
    &&& (n.token is Eof ==> n.loc == q && n.ch@ == seq!['\0'] && endpos == if q + 1 <= s.len() {
        q + 1
    } else {
        s.len() as int
    })
    &&& (!(n.token is Eof) ==> q < s.len() && {
        let c = s[q];
        if is_letter(c) {
            &&& n.loc == q
            &&& endpos == ident_end(s, q)
            &&& n.ch@ == s.subrange(q, ident_end(s, q))
            &&& (is_kw_text(n.ch@) ==> n.token == kw_token(n.ch@))
            &&& (!is_kw_text(n.ch@) ==> (n.token matches Token::Ident(name) && name@ == n.ch@))
        } else if is_digit(c) {
            &&& n.loc == q
            &&& endpos == num_end(s, q)
            &&& n.ch@ == s.subrange(q, num_end(s, q))
            &&& (dot_count(n.ch@) == 1 ==> (n.token matches Token::Number(num) && num matches
                Number::Float(t) && t@ == n.ch@))
            &&& (dot_count(n.ch@) >= 2 ==> n.token is Illegal)
            &&& (dot_count(n.ch@) == 0 && digits_val(n.ch@) <= i32::MAX as nat ==> (n.token matches
                Token::Number(num) && num matches Number::Int(v) && v as int == digits_val(n.ch@)))
            &&& (dot_count(n.ch@) == 0 && digits_val(n.ch@) > i32::MAX as nat ==> n.token
                is Illegal)
        } else if c == '"' {
            let cl = str_close(s, q + 1);
            &&& n.loc == q + 1
            &&& (n.token matches Token::String(t) && t@ == s.subrange(q + 1, cl))
            &&& endpos == if cl + 1 <= s.len() {
                cl + 1
            } else {
                s.len() as int
            }
        } else {
            &&& n.loc == q
            &&& n.token == op_token(c, char_at(s, q + 1))
            &&& n.ch@ == seq![c]
            &&& endpos == q + (if op2(c, char_at(s, q + 1)) {
                2int
            } else {
                1int
            })
        }
    })
}

/// How many dots the sequence holds. A numeric run with exactly one dot is
/// a float literal; one with several is malformed and becomes an illegal
/// token.
pub open spec fn dot_count(t: Seq<char>) -> nat
    decreases t.len(),
{
    if t.len() == 0 {
        0
    } else {
        dot_count(t.drop_last()) + (if t.last() == '.' {
            1nat
        } else {
            0nat
        })
    }
}

/// A sequence without a dot counts zero dots.
pub proof fn lemma_no_dot_count(t: Seq<char>)
    requires
        forall|i: int| 0 <= i < t.len() ==> t[i] != '.',
    ensures
        dot_count(t) == 0,
    decreases t.len(),
{
    if t.len() > 0 {
        assert(forall|i: int|
            0 <= i < t.drop_last().len() ==> #[trigger] t.drop_last()[i] == t[i]);
        lemma_no_dot_count(t.drop_last());
    }
}

/// A sequence counting zero dots holds none.
pub proof fn lemma_dot_count_zero(t: Seq<char>)
    requires
        dot_count(t) == 0,
    ensures
        forall|i: int| 0 <= i < t.len() ==> t[i] != '.',
    decreases t.len(),
{
    if t.len() > 0 {
        lemma_dot_count_zero(t.drop_last());
        assert forall|i: int| 0 <= i < t.len() implies t[i] != '.' by {
            if i < t.len() - 1 {
                assert(t[i] == t.drop_last()[i]);
            }
        }
    }
}

fn char_is_letter(c: char) -> (b: bool)
    ensures
        b == is_letter(c),
{
    ('a' <= c && c <= 'z') || ('A' <= c && c <= 'Z') || c == '_'
}

fn char_is_num(c: char) -> (b: bool)
    ensures
        b == is_num_char(c),
{
    ('0' <= c && c <= '9') || c == '.'
}

/// The value of a digit string, where it fits a 32-bit signed integer.
fn digits_to_i32(t: &String) -> (r: Option<i32>)
    requires
        forall|i: int| 0 <= i < t@.len() ==> is_digit(#[trigger] t@[i]),
    ensures
        match r {
            Some(v) => digits_val(t@) <= i32::MAX as nat && v as int == digits_val(t@),
            None => digits_val(t@) > i32::MAX as nat,
        },
{
    let text = t.as_str();
    let len = text.unicode_len();
    let mut i: usize = 0;
    let mut acc: u32 = 0;
    let mut over = false;
    while i < len
        invariant
            forall|k: int| 0 <= k < t@.len() ==> is_digit(#[trigger] t@[k]),
            text@ == t@,
            len == t@.len(),
            0 <= i <= len,
            !over ==> acc as nat == digits_val(t@.subrange(0, i as int)) && acc
                <= i32::MAX as u32,
            over ==> digits_val(t@.subrange(0, i as int)) > i32::MAX as nat,
        decreases len - i,
    {
        let c = text.get_char(i);
        assert(is_digit(c));
        let d: u32 = c as u32 - 48;
        let ghost before = t@.subrange(0, i as int);
        let ghost after = t@.subrange(0, i + 1);
        proof {
            assert(after =~= before.push(t@[i as int]));
            assert(before.push(t@[i as int]).drop_last() =~= before);
            assert(before.push(t@[i as int]).last() == t@[i as int]);
            assert(digits_val(after) == digits_val(before) * 10 + digit_val(t@[i as int]));
        }
        if over || acc > 214748364 || (acc == 214748364 && d > 7) {
            proof {
                if !over {
                    assert(digits_val(after) > i32::MAX as nat);
                }
            }
            over = true;
        } else {
            acc = acc * 10 + d;
        }
        i = i + 1;
    }
    assert(t@.subrange(0, len as int) =~= t@);
    if over {
        None
    } else {
        Some(acc as i32)
    }
}

fn char_is_digit(c: char) -> (b: bool)
    ensures
        b == is_digit(c),
{
    '0' <= c && c <= '9'
}

/// An identifier run never runs backwards, nor past the end of the input.
pub proof fn lemma_ident_end_bounds(s: Seq<char>, p: int)
    requires
        0 <= p <= s.len(),
    ensures
        p <= ident_end(s, p) <= s.len(),
    decreases s.len() - p,
{
    if p < s.len() && is_letter(s[p]) {
        lemma_ident_end_bounds(s, p + 1);
    }
}

/// A numeric run never runs backwards, nor past the end of the input.
pub proof fn lemma_num_end_bounds(s: Seq<char>, p: int)
    requires
        0 <= p <= s.len(),
    ensures
        p <= num_end(s, p) <= s.len(),
    decreases s.len() - p,
{
    if p < s.len() && is_num_char(s[p]) {
        lemma_num_end_bounds(s, p + 1);
    }
}

/// The closing quote scan never runs backwards, nor past the end of the
/// input.
pub proof fn lemma_str_close_bounds(s: Seq<char>, p: int)
    requires
        0 <= p <= s.len(),
    ensures
        p <= str_close(s, p) <= s.len(),
    decreases s.len() - p,
{
    if p < s.len() && s[p] != '"' && s[p] != '\0' {
        lemma_str_close_bounds(s, p + 1);
    }
}


/// Where the raw regexp scan stops: the position of the next unescaped
/// `/` after `p`, or of the NUL (or input end) that cut the pattern short.
pub open spec fn rx_close(s: Seq<char>, p: int) -> int
    decreases s.len() - p,
{
    if p < 0 || p >= s.len() || s[p] == '/' || s[p] == '\0' {
        p
    } else if s[p] == '\\' {
        if p + 1 >= s.len() || s[p + 1] == '\0' {
            p + 1
        } else {
            rx_close(s, p + 2)
        }
    } else {
        rx_close(s, p + 1)
    }
}

/// The raw scan never runs backwards, nor past the end of the input.
pub proof fn lemma_rx_close_bounds(s: Seq<char>, p: int)
    requires
        0 <= p <= s.len(),
    ensures
        p <= rx_close(s, p) <= s.len(),
    decreases s.len() - p,
{
    if p < s.len() && s[p] != '/' && s[p] != '\0' {
        if s[p] == '\\' {
            if !(p + 1 >= s.len() || s[p + 1] == '\0') {
                lemma_rx_close_bounds(s, p + 2);
            }
        } else {
            lemma_rx_close_bounds(s, p + 1);
        }
    }
}

/// A numeric run over the whole rest of the input ends at the input's end.
pub proof fn lemma_num_end_full(s: Seq<char>, p: int)
    requires
        0 <= p <= s.len(),
        forall|i: int| p <= i < s.len() ==> is_num_char(#[trigger] s[i]),
    ensures
        num_end(s, p) == s.len(),
    decreases s.len() - p,
{
    if p < s.len() {
        lemma_num_end_full(s, p + 1);
    }
}

/// The closing-quote scan from `p` stops exactly at `c`, the first quote.
pub proof fn lemma_str_close_at(s: Seq<char>, p: int, c: int)
    requires
        0 <= p <= c < s.len(),
        s[c] == '"' || s[c] == '\0',
        forall|i: int| p <= i < c ==> #[trigger] s[i] != '"' && s[i] != '\0',
    ensures
        str_close(s, p) == c,
    decreases c - p,
{
    if p < c {
        lemma_str_close_at(s, p + 1, c);
    }
}

/// A skipping scan never runs backwards, nor past the end of the input.
pub proof fn lemma_skip_pos_bounds(s: Seq<char>, p: int)
    requires
        0 <= p <= s.len(),
    ensures
        p <= skip_pos(s, p) <= s.len(),
    decreases s.len() - p, 1int,
{
    if p < s.len() {
        if is_ws(s[p]) || s[p] == '\n' {
            lemma_skip_pos_bounds(s, p + 1);
        } else if s[p] == '#' {
            lemma_skip_comment_bounds(s, p + 1);
        }
    }
}

pub proof fn lemma_skip_comment_bounds(s: Seq<char>, p: int)
    requires
        0 <= p <= s.len(),
    ensures
        p <= skip_from_comment(s, p) <= s.len(),
    decreases s.len() - p, 0int,
{
    if p < s.len() {
        if s[p] == '\n' {
            lemma_skip_pos_bounds(s, p + 1);
        } else if s[p] == '\r' || s[p] == '\0' {
        } else {
            lemma_skip_comment_bounds(s, p + 1);
        }
    }
}

} // verus!
