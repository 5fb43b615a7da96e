//! Front end of a small expression language: a lexical scanner that turns
//! source text into tokens, a recursive-descent parser that turns tokens into
//! an expression tree, and a printer that renders the tree in a fully
//! parenthesized prefix form.
//!
//! Diagnostics are collected as values in a caller-owned [`Lox`] record rather
//! than written to a stream, so scanning and parsing stay pure and testable;
//! the surrounding program decides what to do with them.
use vstd::prelude::*;

pub mod error;
pub mod parser;
pub mod expression;
pub mod scanner;
pub mod token;
pub mod token_type;

verus! {

/// Caller-owned diagnostic state: whether any error was reported, and the
/// formatted report lines, in the order they were produced.
pub struct Lox {
    pub had_error: bool,
    pub diagnostics: Vec<String>,
}

impl Lox {
    /// The formatted report lines as mathematical sequences of characters.
    pub open spec fn diags(&self) -> Seq<Seq<char>> {
        self.diagnostics@.map_values(|s: String| s@)
    }

    pub fn new() -> (l: Lox)
        ensures
            !l.had_error,
            l.diags() == Seq::<Seq<char>>::empty(),
    {
        Lox { had_error: false, diagnostics: Vec::new() }
    }
}

/// Everything one run over a source text prints and reports after
/// scanning: the canonical printing of each expression parsed, and the
/// report line of each syntax error, in order.
pub ghost struct RunOut {
    pub prints: Seq<Seq<char>>,
    pub perrs: Seq<Seq<char>>,
}

/// What repeated parsing over the token sequence yields from `pos` to the
/// end marker: each parsed expression is printed; after each syntax error
/// the report line is made and parsing resumes at the synchronization
/// point.
pub open spec fn run_parses(ts: Seq<crate::token::TokenView>, pos: int) -> RunOut
    decreases ts.len() - pos,
{
    if !(0 <= pos < ts.len()) || ts[pos].kind == crate::token_type::TokenTypeView::Eof {
        RunOut { prints: Seq::<Seq<char>>::empty(), perrs: Seq::<Seq<char>>::empty() }
    } else {
        match crate::parser::p_expression(ts, pos) {
            crate::parser::ParseOutcome::Parsed { e, next } => {
                if pos < next <= ts.len() {
                    let rest = run_parses(ts, next);
                    RunOut {
                        prints: seq![crate::expression::print_view(e)] + rest.prints,
                        perrs: rest.perrs,
                    }
                } else {
                    RunOut { prints: Seq::<Seq<char>>::empty(), perrs: Seq::<Seq<char>>::empty() }
                }
            },
            crate::parser::ParseOutcome::Failed { msg, at } => {
                if pos <= at < ts.len() {
                    let diag = crate::error::parser_error_view(ts[at], msg);
                    let s = crate::parser::sync_pos(ts, at);
                    if pos < s <= ts.len() {
                        let rest = run_parses(ts, s);
                        RunOut { prints: rest.prints, perrs: seq![diag] + rest.perrs }
                    } else {
                        RunOut { prints: Seq::<Seq<char>>::empty(), perrs: seq![diag] }
                    }
                } else {
                    RunOut { prints: Seq::<Seq<char>>::empty(), perrs: Seq::<Seq<char>>::empty() }
                }
            },
        }
    }
}

/// Scans the source, then parses expression after expression until the end
/// marker, printing each tree in canonical prefix form. Lexical and syntax
/// errors are reported into `lox`, in order; after a syntax error the
/// parser resynchronizes and goes on, so one bad expression does not block
/// the rest.
#[verifier::rlimit(100)]
pub fn run(source: &str, lox: &mut Lox) -> (prints: Vec<String>)
    requires
        source@.len() < usize::MAX,
    ensures
        ({
            let sc = crate::scanner::scan_from(source@, 0, 1);
            let rp = run_parses(sc.toks, 0);
            &&& prints@.map_values(|s: String| s@) == rp.prints
            &&& final (lox).diags() == old(lox).diags() + sc.errs + rp.perrs
            &&& final (lox).had_error == (old(lox).had_error || sc.errs.len() > 0
                || rp.perrs.len() > 0)
        }),
{
    let ghost src = source@;
    let mut scanner = crate::scanner::Scanner::new(source.to_owned());
    scanner.scan_tokens(lox);
    proof {
        crate::scanner::lemma_scan_terminated(src, 0, 1);
        assert(scanner.toks() =~= crate::scanner::scan_from(src, 0, 1).toks);
    }
    let mut parser = crate::parser::Parser::new(scanner.tokens);
    let ghost ts = parser.toks();
    let ghost d1 = lox.diags().len() as int;
    let ghost diags1 = lox.diags();
    let ghost h1 = lox.had_error;
    let ghost rp0 = run_parses(ts, 0);
    let mut prints: Vec<String> = Vec::new();
    proof {
        assert(prints@.map_values(|s: String| s@) =~= Seq::<Seq<char>>::empty());
    }
    while !parser.complete()
        invariant
            parser.wf(),
            parser.toks() == ts,
            rp0 == run_parses(ts, 0),
            0 <= parser.current as int,
            rp0.prints == prints@.map_values(|s: String| s@) + run_parses(
                ts,
                parser.current as int,
            ).prints,
            0 <= d1 <= lox.diags().len(),
            d1 == diags1.len(),
            lox.diags().take(d1) == diags1,
            rp0.perrs == lox.diags().skip(d1) + run_parses(ts, parser.current as int).perrs,
            lox.had_error == (h1 || lox.diags().len() > d1),
        decreases ts.len() - parser.current,
    {
        let ghost pre_cur = parser.current as int;
        let ghost pre_prints = prints@.map_values(|s: String| s@);
        let ghost pre_diags = lox.diags();
        match parser.parse() {
            Ok(expr) => {
                let printer = crate::expression::AstPrinter;
                let rendered = printer.print(expr);
                prints.push(rendered);
                proof {
                    assert(prints@.map_values(|s: String| s@) =~= pre_prints + seq![
                        rendered@,
                    ]);
                    assert(pre_prints + (seq![rendered@] + run_parses(
                        ts,
                        parser.current as int,
                    ).prints) =~= (pre_prints + seq![rendered@]) + run_parses(
                        ts,
                        parser.current as int,
                    ).prints);
                }
            },
            Err(e) => {
                let ghost at = parser.current as int;
                let offending = parser.peek_copy();
                let msg = match e {
                    crate::error::Error::ParserError(m) => m,
                };
                crate::error::parser_error(lox, &offending, msg.as_str());
                if !parser.complete() {
                    parser.synchronize();
                }
                proof {
                    crate::parser::lemma_sync_scan_bounds(ts, at + 1);
                    assert(lox.diags().skip(d1) =~= pre_diags.skip(d1) + seq![
                        crate::error::parser_error_view(ts[at], msg@),
                    ]);
                    assert(pre_diags.skip(d1) + (seq![
                        crate::error::parser_error_view(ts[at], msg@),
                    ] + run_parses(ts, parser.current as int).perrs) =~= (pre_diags.skip(d1)
                        + seq![crate::error::parser_error_view(ts[at], msg@)]) + run_parses(
                        ts,
                        parser.current as int,
                    ).perrs);
                }
            },
        }
    }
    proof {
        assert(rp0.prints =~= prints@.map_values(|s: String| s@));
        assert(rp0.perrs =~= lox.diags().skip(d1));
        assert(lox.diags() =~= lox.diags().take(d1) + lox.diags().skip(d1));
        assert(diags1 =~= old(lox).diags() + crate::scanner::scan_from(src, 0, 1).errs);
        assert(lox.diags() =~= old(lox).diags() + crate::scanner::scan_from(src, 0, 1).errs
            + rp0.perrs);
    }
    prints
}

} // verus!
