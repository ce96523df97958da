//! Textual diagnostic rendering: a source-annotated error message with an
//! underline and a hint, built from a byte offset pair the parser or
//! compiler reported.

use vstd::prelude::*;
use crate::strutil::{dec_digits, push_char, push_u64};

verus! {

/// A run of `col` dashes.
pub open spec fn dashes(col: nat) -> Seq<char> {
    Seq::new(col, |i: int| '-')
}

/// The rendered diagnostic text.
pub open spec fn diagnostic_text(
    src: Seq<char>,
    code: Seq<char>,
    line: nat,
    col: nat,
    err: Seq<char>,
    hint: Seq<char>,
) -> Seq<char> {
    seq!['\n'] + "error[ERRCODE]: "@ + err + "\n--> "@ + src + seq![':'] + dec_digits(line)
        + seq![':'] + dec_digits(col) + "\n    |\n"@ + dec_digits(line) + "   | "@ + code + seq![
        '\n',
    ] + "    | "@ + dashes(col) + seq![' '] + hint + "\n    "@
}

/// The underline of a diagnostic: one dash per column.
pub fn underline(col: usize) -> (s: String)
    ensures
        s@ == dashes(col as nat),
{
    let mut s = String::new();
    let mut i: usize = 0;
    while i < col
        invariant
            i <= col,
            s@ =~= dashes(i as nat),
        decreases col - i,
    {
        push_char(&mut s, '-');
        assert(s@ =~= dashes((i + 1) as nat));
        i = i + 1;
    }
    proof {
        assert(s@ =~= dashes(col as nat));
    }
    s
}

/// Render a located diagnostic: the error, the source coordinates, the
/// offending code line, and an underline with a hint.
pub fn create_diagnostic(
    src: &str,
    code: &str,
    span: [usize; 2],
    err: &str,
    hint: &str,
) -> (s: String)
    ensures
        s@ == diagnostic_text(src@, code@, span@[0] as nat, span@[1] as nat, err@, hint@),
{
    let line = span[0];
    let col = span[1];
    let mut s = String::new();
    push_char(&mut s, '\n');
    s.append("error[ERRCODE]: ");
    s.append(err);
    s.append("\n--> ");
    s.append(src);
    push_char(&mut s, ':');
    push_u64(&mut s, line as u64);
    push_char(&mut s, ':');
    push_u64(&mut s, col as u64);
    s.append("\n    |\n");
    push_u64(&mut s, line as u64);
    s.append("   | ");
    s.append(code);
    push_char(&mut s, '\n');
    s.append("    | ");
    let ul = underline(col);
    s.append(ul.as_str());
    push_char(&mut s, ' ');
    s.append(hint);
    s.append("\n    ");
    proof {
        assert(s@ =~= diagnostic_text(src@, code@, span@[0] as nat, span@[1] as nat, err@, hint@));
    }
    s
}

} // verus!
