//! Diagnostics: the parser's error value, and the formatting of report
//! lines. Reports are returned and collected as strings in a caller-owned
//! [`Lox`] record; the surrounding program decides where to write them.
use vstd::prelude::*;
use vstd::string::StringExecFns;

use crate::token::Token;
use crate::token_type::TokenTypeView;
use crate::Lox;

verus! {

/// The single error kind at the parsing layer, carrying a human-readable
/// message. A failed parse returns this; it never halts the program.
#[derive(Debug)]
pub enum Error {
    ParserError(String),
}

impl Error {
    /// The message carried by the error.
    pub open spec fn msg(&self) -> Seq<char> {
        match self {
            Error::ParserError(m) => m@,
        }
    }
}

/// The decimal text of a natural number, most significant digit first.
pub open spec fn dec_digits(n: nat) -> Seq<char>
    decreases n,
{
    if n < 10 {
        seq![digit_char(n)]
    } else {
        dec_digits(n / 10) + seq![digit_char(n % 10)]
    }
}

/// The character for one decimal digit.
pub open spec fn digit_char(d: nat) -> char {
    if d == 0 {
        '0'
    } else if d == 1 {
        '1'
    } else if d == 2 {
        '2'
    } else if d == 3 {
        '3'
    } else if d == 4 {
        '4'
    } else if d == 5 {
        '5'
    } else if d == 6 {
        '6'
    } else if d == 7 {
        '7'
    } else if d == 8 {
        '8'
    } else {
        '9'
    }
}

/// One formatted report line: `[line N] Error <location>: <message>`.
pub open spec fn report_view(line: nat, location: Seq<char>, message: Seq<char>) -> Seq<char> {
    "[line "@ + dec_digits(line) + "] Error "@ + location + ": "@ + message
}

/// The report line for a syntax error at a given token: located `at end`
/// for the end marker, else `at '<lexeme>'`.
pub open spec fn parser_error_view(t: crate::token::TokenView, message: Seq<char>) -> Seq<char> {
    if t.kind == TokenTypeView::Eof {
        report_view(t.line, " at end"@, message)
    } else {
        report_view(t.line, " at '"@ + t.lexeme + "'"@, message)
    }
}

/// The decimal text of a number, written with a digit per character.
pub fn usize_to_string(n: usize) -> (r: String)
    ensures
        r@ == dec_digits(n as nat),
    decreases n,
{
    proof {
        reveal_strlit("0");
        reveal_strlit("1");
        reveal_strlit("2");
        reveal_strlit("3");
        reveal_strlit("4");
        reveal_strlit("5");
        reveal_strlit("6");
        reveal_strlit("7");
        reveal_strlit("8");
        reveal_strlit("9");
    }
    let d: &str = match n % 10 {
        0 => "0",
        1 => "1",
        2 => "2",
        3 => "3",
        4 => "4",
        5 => "5",
        6 => "6",
        7 => "7",
        8 => "8",
        _ => "9",
    };
    if n < 10 {
        let r = d.to_owned();
        proof {
            assert(r@ =~= dec_digits(n as nat));
        }
        r
    } else {
        let mut r = usize_to_string(n / 10);
        r.append(d);
        proof {
            assert(r@ =~= dec_digits(n as nat));
        }
        r
    }
}

/// Formats one report line; the caller stores or prints it.
pub fn report(line: usize, location: &str, message: &str) -> (r: String)
    ensures
        r@ == report_view(line as nat, location@, message@),
{
    let mut r = String::from_str("[line ");
    let digits = usize_to_string(line);
    r.append(digits.as_str());
    r.append("] Error ");
    r.append(location);
    r.append(": ");
    r.append(message);
    proof {
        assert(r@ =~= report_view(line as nat, location@, message@));
    }
    r
}

/// Records a lexical error: appends the formatted report line to the
/// diagnostics and raises the error flag.
pub fn error(lox: &mut Lox, line: usize, message: &str)
    ensures
        final (lox).had_error,
        final (lox).diags() =~= old(lox).diags() + seq![
            report_view(line as nat, Seq::<char>::empty(), message@),
        ],
{
    proof {
        reveal_strlit("");
    }
    let r = report(line, "", message);
    lox.diagnostics.push(r);
    lox.had_error = true;
    proof {
        assert(lox.diags() =~= old(lox).diags() + seq![
            report_view(line as nat, Seq::<char>::empty(), message@),
        ]);
    }
}

/// Records a syntax error at a token: appends the formatted report line,
/// located at the token's lexeme or at the end marker, and raises the flag.
pub fn parser_error(lox: &mut Lox, token: &Token, message: &str)
    ensures
        final (lox).had_error,
        final (lox).diags() =~= old(lox).diags() + seq![parser_error_view(token@, message@)],
{
    let r = match &token.kind {
        crate::token_type::TokenType::Eof => report(token.line, " at end", message),
        _ => {
            let mut location = String::from_str(" at '");
            location.append(token.lexeme.as_str());
            location.append("'");
            report(token.line, location.as_str(), message)
        },
    };
    lox.diagnostics.push(r);
    lox.had_error = true;
    proof {
        assert(lox.diags() =~= old(lox).diags() + seq![parser_error_view(token@, message@)]);
    }
}

} // verus!
