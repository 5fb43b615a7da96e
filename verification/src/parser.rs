//! The recursive-descent expression parser: precedence climbing over the
//! token sequence, each binary level folding same-precedence chains into
//! left-nested nodes. The mathematical model is the family of mutually
//! recursive functions [`p_expression`] through [`p_primary`], one per
//! grammar rule; the executable parser is proved to return exactly the
//! model's tree or its error, leaving the cursor where the model says.
use vstd::prelude::*;

use crate::error::Error;
use crate::expression::{Expr, ExprView, LiteralValue, LiteralValueView};
use crate::token::{copy_token, copy_token_type, Token, TokenView};
use crate::token_type::{TokenType, TokenTypeView};

verus! {

/// A well-formed token stream: nonempty, ending in exactly one end marker.
pub open spec fn wf_tokens(ts: Seq<TokenView>) -> bool {
    &&& ts.len() >= 1
    &&& ts.last().kind == TokenTypeView::Eof
    &&& forall|i: int| 0 <= i < ts.len() - 1 ==> (#[trigger] ts[i].kind) != TokenTypeView::Eof
}

/// The message a missing or invalid primary expression fails with.
pub open spec fn msg_expected_expression() -> Seq<char> {
    "expected expression"@
}

/// The message an unmatched grouping fails with.
pub open spec fn msg_expect_rparen() -> Seq<char> {
    "Expect ) after expression"@
}

/// What one parsing rule yields: a tree and the position after it, or the
/// error message and the position the parse stopped at.
pub ghost enum ParseOutcome {
    Parsed { e: ExprView, next: int },
    Failed { msg: Seq<char>, at: int },
}

/// A left-nested binary node.
pub open spec fn bin_view(l: ExprView, op: TokenView, r: ExprView) -> ExprView {
    ExprView::Binary { left: Box::new(l), operator: op, right: Box::new(r) }
}

/// A position the model treats as out of play; parsing there fails.
pub open spec fn bad_pos(ts: Seq<TokenView>, pos: int) -> bool {
    pos < 0 || pos > ts.len()
}

/// The `primary` rule: a literal token, or a parenthesized expression that
/// must be closed. Anything else fails with "expected expression".
pub open spec fn p_primary(ts: Seq<TokenView>, pos: int) -> ParseOutcome
    decreases ts.len() - pos, 0int,
{
    if bad_pos(ts, pos) || pos == ts.len() {
        ParseOutcome::Failed { msg: msg_expected_expression(), at: pos }
    } else {
        match ts[pos].kind {
            TokenTypeView::True => ParseOutcome::Parsed {
                e: ExprView::Literal { value: LiteralValueView::Bool(true) },
                next: pos + 1,
            },
            TokenTypeView::False => ParseOutcome::Parsed {
                e: ExprView::Literal { value: LiteralValueView::Bool(false) },
                next: pos + 1,
            },
            TokenTypeView::Nil => ParseOutcome::Parsed {
                e: ExprView::Literal { value: LiteralValueView::Null },
                next: pos + 1,
            },
            TokenTypeView::Number { text } => ParseOutcome::Parsed {
                e: ExprView::Literal { value: LiteralValueView::Number(text) },
                next: pos + 1,
            },
            TokenTypeView::String { literal } => ParseOutcome::Parsed {
                e: ExprView::Literal { value: LiteralValueView::String(literal) },
                next: pos + 1,
            },
            TokenTypeView::LeftParen => match p_expression(ts, pos + 1) {
                ParseOutcome::Parsed { e, next } => {
                    if 0 <= next < ts.len() && ts[next].kind == TokenTypeView::RightParen {
                        ParseOutcome::Parsed {
                            e: ExprView::Grouping { expression: Box::new(e) },
                            next: next + 1,
                        }
                    } else {
                        ParseOutcome::Failed { msg: msg_expect_rparen(), at: next }
                    }
                },
                ParseOutcome::Failed { msg, at } => ParseOutcome::Failed { msg, at },
            },
            _ => ParseOutcome::Failed { msg: msg_expected_expression(), at: pos },
        }
    }
}

/// The `unary` rule: a bang or minus applied to a unary, else a primary.
pub open spec fn p_unary(ts: Seq<TokenView>, pos: int) -> ParseOutcome
    decreases ts.len() - pos, 1int,
{
    if bad_pos(ts, pos) {
        ParseOutcome::Failed { msg: msg_expected_expression(), at: pos }
    } else if pos < ts.len() && (ts[pos].kind == TokenTypeView::Bang || ts[pos].kind
        == TokenTypeView::Minus) {
        match p_unary(ts, pos + 1) {
            ParseOutcome::Parsed { e, next } => ParseOutcome::Parsed {
                e: ExprView::Unary { operator: ts[pos], right: Box::new(e) },
                next,
            },
            ParseOutcome::Failed { msg, at } => ParseOutcome::Failed { msg, at },
        }
    } else {
        p_primary(ts, pos)
    }
}

/// The fold of the `factor` rule: while a star or slash follows, consume it
/// and a unary, nesting to the left.
pub open spec fn p_factor_rest(ts: Seq<TokenView>, pos: int, acc: ExprView) -> ParseOutcome
    decreases ts.len() - pos, 3int,
{
    if bad_pos(ts, pos) {
        ParseOutcome::Failed { msg: msg_expected_expression(), at: pos }
    } else if pos < ts.len() && (ts[pos].kind == TokenTypeView::Star || ts[pos].kind
        == TokenTypeView::Slash) {
        match p_unary(ts, pos + 1) {
            ParseOutcome::Parsed { e, next } => {
                if pos < next <= ts.len() {
                    p_factor_rest(ts, next, bin_view(acc, ts[pos], e))
                } else {
                    ParseOutcome::Failed { msg: msg_expected_expression(), at: pos }
                }
            },
            ParseOutcome::Failed { msg, at } => ParseOutcome::Failed { msg, at },
        }
    } else {
        ParseOutcome::Parsed { e: acc, next: pos }
    }
}

/// The `factor` rule: a unary, then the star/slash fold.
pub open spec fn p_factor(ts: Seq<TokenView>, pos: int) -> ParseOutcome
    decreases ts.len() - pos, 4int,
{
    if bad_pos(ts, pos) {
        ParseOutcome::Failed { msg: msg_expected_expression(), at: pos }
    } else {
        match p_unary(ts, pos) {
            ParseOutcome::Parsed { e, next } => {
                if pos < next <= ts.len() {
                    p_factor_rest(ts, next, e)
                } else {
                    ParseOutcome::Failed { msg: msg_expected_expression(), at: pos }
                }
            },
            ParseOutcome::Failed { msg, at } => ParseOutcome::Failed { msg, at },
        }
    }
}

/// The fold of the `term` rule: plus and minus, nesting to the left.
pub open spec fn p_term_rest(ts: Seq<TokenView>, pos: int, acc: ExprView) -> ParseOutcome
    decreases ts.len() - pos, 5int,
{
    if bad_pos(ts, pos) {
        ParseOutcome::Failed { msg: msg_expected_expression(), at: pos }
    } else if pos < ts.len() && (ts[pos].kind == TokenTypeView::Plus || ts[pos].kind
        == TokenTypeView::Minus) {
        match p_factor(ts, pos + 1) {
            ParseOutcome::Parsed { e, next } => {
                if pos < next <= ts.len() {
                    p_term_rest(ts, next, bin_view(acc, ts[pos], e))
                } else {
                    ParseOutcome::Failed { msg: msg_expected_expression(), at: pos }
                }
            },
            ParseOutcome::Failed { msg, at } => ParseOutcome::Failed { msg, at },
        }
    } else {
        ParseOutcome::Parsed { e: acc, next: pos }
    }
}

/// The `term` rule: a factor, then the plus/minus fold.
pub open spec fn p_term(ts: Seq<TokenView>, pos: int) -> ParseOutcome
    decreases ts.len() - pos, 6int,
{
    if bad_pos(ts, pos) {
        ParseOutcome::Failed { msg: msg_expected_expression(), at: pos }
    } else {
        match p_factor(ts, pos) {
            ParseOutcome::Parsed { e, next } => {
                if pos < next <= ts.len() {
                    p_term_rest(ts, next, e)
                } else {
                    ParseOutcome::Failed { msg: msg_expected_expression(), at: pos }
                }
            },
            ParseOutcome::Failed { msg, at } => ParseOutcome::Failed { msg, at },
        }
    }
}

/// Whether a token kind is one of the four comparison operators.
pub open spec fn is_comparison_op(k: TokenTypeView) -> bool {
    k == TokenTypeView::Greater || k == TokenTypeView::GreaterEqual || k == TokenTypeView::Less
        || k == TokenTypeView::LessEqual
}

/// The fold of the `comparison` rule, nesting to the left.
pub open spec fn p_comparison_rest(ts: Seq<TokenView>, pos: int, acc: ExprView) -> ParseOutcome
    decreases ts.len() - pos, 7int,
{
    if bad_pos(ts, pos) {
        ParseOutcome::Failed { msg: msg_expected_expression(), at: pos }
    } else if pos < ts.len() && is_comparison_op(ts[pos].kind) {
        match p_term(ts, pos + 1) {
            ParseOutcome::Parsed { e, next } => {
                if pos < next <= ts.len() {
                    p_comparison_rest(ts, next, bin_view(acc, ts[pos], e))
                } else {
                    ParseOutcome::Failed { msg: msg_expected_expression(), at: pos }
                }
            },
            ParseOutcome::Failed { msg, at } => ParseOutcome::Failed { msg, at },
        }
    } else {
        ParseOutcome::Parsed { e: acc, next: pos }
    }
}

/// The `comparison` rule: a term, then the comparison fold.
pub open spec fn p_comparison(ts: Seq<TokenView>, pos: int) -> ParseOutcome
    decreases ts.len() - pos, 8int,
{
    if bad_pos(ts, pos) {
        ParseOutcome::Failed { msg: msg_expected_expression(), at: pos }
    } else {
        match p_term(ts, pos) {
            ParseOutcome::Parsed { e, next } => {
                if pos < next <= ts.len() {
                    p_comparison_rest(ts, next, e)
                } else {
                    ParseOutcome::Failed { msg: msg_expected_expression(), at: pos }
                }
            },
            ParseOutcome::Failed { msg, at } => ParseOutcome::Failed { msg, at },
        }
    }
}

/// The fold of the `equality` rule, nesting to the left.
pub open spec fn p_equality_rest(ts: Seq<TokenView>, pos: int, acc: ExprView) -> ParseOutcome
    decreases ts.len() - pos, 9int,
{
    if bad_pos(ts, pos) {
        ParseOutcome::Failed { msg: msg_expected_expression(), at: pos }
    } else if pos < ts.len() && (ts[pos].kind == TokenTypeView::BangEqual || ts[pos].kind
        == TokenTypeView::EqualEqual) {
        match p_comparison(ts, pos + 1) {
            ParseOutcome::Parsed { e, next } => {
                if pos < next <= ts.len() {
                    p_equality_rest(ts, next, bin_view(acc, ts[pos], e))
                } else {
                    ParseOutcome::Failed { msg: msg_expected_expression(), at: pos }
                }
            },
            ParseOutcome::Failed { msg, at } => ParseOutcome::Failed { msg, at },
        }
    } else {
        ParseOutcome::Parsed { e: acc, next: pos }
    }
}

/// The `equality` rule: a comparison, then the equality fold.
pub open spec fn p_equality(ts: Seq<TokenView>, pos: int) -> ParseOutcome
    decreases ts.len() - pos, 10int,
{
    if bad_pos(ts, pos) {
        ParseOutcome::Failed { msg: msg_expected_expression(), at: pos }
    } else {
        match p_comparison(ts, pos) {
            ParseOutcome::Parsed { e, next } => {
                if pos < next <= ts.len() {
                    p_equality_rest(ts, next, e)
                } else {
                    ParseOutcome::Failed { msg: msg_expected_expression(), at: pos }
                }
            },
            ParseOutcome::Failed { msg, at } => ParseOutcome::Failed { msg, at },
        }
    }
}

/// The whole grammar: an expression is an equality.
pub open spec fn p_expression(ts: Seq<TokenView>, pos: int) -> ParseOutcome
    decreases ts.len() - pos, 11int,
{
    p_equality(ts, pos)
}

/// Whether a token kind begins a statement-level construct: where error
/// recovery may safely resume.
pub open spec fn is_statement_start(k: TokenTypeView) -> bool {
    ||| k == TokenTypeView::Class
    ||| k == TokenTypeView::Fun
    ||| k == TokenTypeView::Var
    ||| k == TokenTypeView::For
    ||| k == TokenTypeView::If
    ||| k == TokenTypeView::While
    ||| k == TokenTypeView::Print
    ||| k == TokenTypeView::Return
}

/// The scan synchronization makes after its first step: forward until just
/// past a semicolon, at a statement start, or at the end marker.
pub open spec fn sync_scan(ts: Seq<TokenView>, pos: int) -> int
    decreases ts.len() - pos,
{
    if pos < 0 || pos >= ts.len() {
        pos
    } else if ts[pos].kind == TokenTypeView::Eof {
        pos
    } else if pos >= 1 && ts[pos - 1].kind == TokenTypeView::Semicolon {
        pos
    } else if is_statement_start(ts[pos].kind) {
        pos
    } else {
        sync_scan(ts, pos + 1)
    }
}

/// Where synchronization leaves the cursor when started at `pos`: one token
/// is always discarded first, unless the cursor already rests on the end
/// marker.
pub open spec fn sync_pos(ts: Seq<TokenView>, pos: int) -> int {
    if 0 <= pos < ts.len() && ts[pos].kind != TokenTypeView::Eof {
        sync_scan(ts, pos + 1)
    } else {
        pos
    }
}

/// Synchronization never moves backwards, and never past the end.
pub proof fn lemma_sync_scan_bounds(ts: Seq<TokenView>, i: int)
    requires
        0 <= i <= ts.len(),
    ensures
        i <= sync_scan(ts, i) <= ts.len(),
    decreases ts.len() - i,
{
    if i < ts.len() && ts[i].kind != TokenTypeView::Eof && !(i >= 1 && ts[i - 1].kind
        == TokenTypeView::Semicolon) && !is_statement_start(ts[i].kind) {
        lemma_sync_scan_bounds(ts, i + 1);
    }
}

/// How a returned `Result` corresponds to a model outcome, with the cursor
/// standing at `cur`: a tree means the model parsed that tree and the
/// cursor advanced to just past it; an error means the model failed with
/// that message at the cursor.
pub open spec fn outcome_matches(
    r: Result<Expr, Error>,
    pr: ParseOutcome,
    cur: int,
    pos0: int,
) -> bool {
    match r {
        Ok(e) => pr == (ParseOutcome::Parsed { e: e@, next: cur }) && pos0 < cur,
        Err(er) => pr == (ParseOutcome::Failed { msg: er.msg(), at: cur }) && pos0 <= cur,
    }
}

/// The parser: the token sequence it reads and the cursor into it.
pub struct Parser {
    pub tokens: Vec<Token>,
    pub current: usize,
}

impl Parser {
    /// The token sequence as mathematical images.
    pub open spec fn toks(&self) -> Seq<TokenView> {
        self.tokens@.map_values(|t: Token| t@)
    }

    /// The parser's internal soundness: a well-formed token stream and a
    /// cursor that never passes the end marker.
    pub open spec fn wf(&self) -> bool {
        &&& wf_tokens(self.toks())
        &&& self.current < self.toks().len()
    }

    pub fn new(tokens: Vec<Token>) -> (p: Parser)
        requires
            wf_tokens(tokens@.map_values(|t: Token| t@)),
        ensures
            p.wf(),
            p.toks() == tokens@.map_values(|t: Token| t@),
            p.current == 0,
    {
        Parser { tokens, current: 0 }
    }

    /// Whether the cursor rests on the end marker: nothing is left to
    /// parse.
    fn is_at_end(&self) -> (b: bool)
        requires
            self.wf(),
        ensures
            b == (self.toks()[self.current as int].kind == TokenTypeView::Eof),
            b == (self.current == self.toks().len() - 1),
    {
        match &self.tokens[self.current].kind {
            TokenType::Eof => true,
            _ => false,
        }
    }

    /// Whether the whole token sequence has been consumed.
    pub fn complete(&self) -> (b: bool)
        requires
            self.wf(),
        ensures
            b == (self.toks()[self.current as int].kind == TokenTypeView::Eof),
    {
        self.is_at_end()
    }

    /// Whether the cursor rests on an equality operator.
    fn at_equality_op(&self) -> (b: bool)
        requires
            self.wf(),
        ensures
            b == (self.toks()[self.current as int].kind == TokenTypeView::BangEqual
                || self.toks()[self.current as int].kind == TokenTypeView::EqualEqual),
    {
        match &self.tokens[self.current].kind {
            TokenType::BangEqual | TokenType::EqualEqual => true,
            _ => false,
        }
    }

    /// Whether the cursor rests on a comparison operator.
    fn at_comparison_op(&self) -> (b: bool)
        requires
            self.wf(),
        ensures
            b == is_comparison_op(self.toks()[self.current as int].kind),
    {
        match &self.tokens[self.current].kind {
            TokenType::Greater | TokenType::GreaterEqual | TokenType::Less
                | TokenType::LessEqual => true,
            _ => false,
        }
    }

    /// Whether the cursor rests on an additive operator.
    fn at_term_op(&self) -> (b: bool)
        requires
            self.wf(),
        ensures
            b == (self.toks()[self.current as int].kind == TokenTypeView::Plus
                || self.toks()[self.current as int].kind == TokenTypeView::Minus),
    {
        match &self.tokens[self.current].kind {
            TokenType::Plus | TokenType::Minus => true,
            _ => false,
        }
    }

    /// Whether the cursor rests on a multiplicative operator.
    fn at_factor_op(&self) -> (b: bool)
        requires
            self.wf(),
        ensures
            b == (self.toks()[self.current as int].kind == TokenTypeView::Star
                || self.toks()[self.current as int].kind == TokenTypeView::Slash),
    {
        match &self.tokens[self.current].kind {
            TokenType::Star | TokenType::Slash => true,
            _ => false,
        }
    }

    /// Whether the cursor rests on a unary operator.
    fn at_unary_op(&self) -> (b: bool)
        requires
            self.wf(),
        ensures
            b == (self.toks()[self.current as int].kind == TokenTypeView::Bang
                || self.toks()[self.current as int].kind == TokenTypeView::Minus),
    {
        match &self.tokens[self.current].kind {
            TokenType::Bang | TokenType::Minus => true,
            _ => false,
        }
    }

    /// Whether the cursor rests on a closing parenthesis.
    fn at_right_paren(&self) -> (b: bool)
        requires
            self.wf(),
        ensures
            b == (self.toks()[self.current as int].kind == TokenTypeView::RightParen),
    {
        match &self.tokens[self.current].kind {
            TokenType::RightParen => true,
            _ => false,
        }
    }

    /// Moves the cursor past the current token, unless it is the end
    /// marker.
    fn advance(&mut self)
        requires
            old(self).wf(),
        ensures
            final (self).wf(),
            final (self).toks() == old(self).toks(),
            final (self).current as int == (if old(self).toks()[old(self).current as int].kind
                == TokenTypeView::Eof {
                old(self).current as int
            } else {
                old(self).current + 1
            }),
    {
        if !self.is_at_end() {
            let n = self.tokens.len();
            assert(self.current < n);
            self.current = self.current + 1;
        }
    }

    /// A copy of the token under the cursor.
    pub fn peek_copy(&self) -> (t: Token)
        requires
            self.wf(),
        ensures
            t@ == self.toks()[self.current as int],
    {
        copy_token(&self.tokens[self.current])
    }


    /// The `equality` rule: a comparison, then while an equality operator
    /// follows, consume it and another comparison, folding to the left.
    fn equality(&mut self) -> (r: Result<Expr, Error>)
        requires
            old(self).wf(),
        ensures
            final (self).wf(),
            final (self).toks() == old(self).toks(),
            old(self).current <= final (self).current,
            outcome_matches(
                r,
                p_equality(old(self).toks(), old(self).current as int),
                final (self).current as int,
                old(self).current as int,
            ),
        decreases self.toks().len() - self.current, 10int,
    {
        let ghost ts = self.toks();
        let ghost pos0 = self.current as int;
        let mut expr = match self.comparison() {
            Ok(e) => e,
            Err(er) => {
                return Err(er);
            },
        };
        while self.at_equality_op()
            invariant
                self.wf(),
                self.toks() == ts,
                ts == old(self).toks(),
                pos0 == old(self).current as int,
                0 <= pos0 < self.current as int,
                p_equality(ts, pos0) == p_equality_rest(ts, self.current as int, expr@),
            decreases ts.len() - self.current,
        {
            let operator = self.peek_copy();
            self.advance();
            let right = match self.comparison() {
                Ok(e) => e,
                Err(er) => {
                    return Err(er);
                },
            };
            expr = Expr::Binary { left: Box::new(expr), operator, right: Box::new(right) };
        }
        Ok(expr)
    }

    fn comparison(&mut self) -> (r: Result<Expr, Error>)
        requires
            old(self).wf(),
        ensures
            final (self).wf(),
            final (self).toks() == old(self).toks(),
            old(self).current <= final (self).current,
            outcome_matches(
                r,
                p_comparison(old(self).toks(), old(self).current as int),
                final (self).current as int,
                old(self).current as int,
            ),
        decreases self.toks().len() - self.current, 8int,
    {
        let ghost ts = self.toks();
        let ghost pos0 = self.current as int;
        let mut expr = match self.term() {
            Ok(e) => e,
            Err(er) => {
                return Err(er);
            },
        };
        while self.at_comparison_op()
            invariant
                self.wf(),
                self.toks() == ts,
                ts == old(self).toks(),
                pos0 == old(self).current as int,
                0 <= pos0 < self.current as int,
                p_comparison(ts, pos0) == p_comparison_rest(ts, self.current as int, expr@),
            decreases ts.len() - self.current,
        {
            let operator = self.peek_copy();
            self.advance();
            let right = match self.term() {
                Ok(e) => e,
                Err(er) => {
                    return Err(er);
                },
            };
            expr = Expr::Binary { left: Box::new(expr), operator, right: Box::new(right) };
        }
        Ok(expr)
    }

    fn term(&mut self) -> (r: Result<Expr, Error>)
        requires
            old(self).wf(),
        ensures
            final (self).wf(),
            final (self).toks() == old(self).toks(),
            old(self).current <= final (self).current,
            outcome_matches(
                r,
                p_term(old(self).toks(), old(self).current as int),
                final (self).current as int,
                old(self).current as int,
            ),
        decreases self.toks().len() - self.current, 6int,
    {
        let ghost ts = self.toks();
        let ghost pos0 = self.current as int;
        let mut expr = match self.factor() {
            Ok(e) => e,
            Err(er) => {
                return Err(er);
            },
        };
        while self.at_term_op()
            invariant
                self.wf(),
                self.toks() == ts,
                ts == old(self).toks(),
                pos0 == old(self).current as int,
                0 <= pos0 < self.current as int,
                p_term(ts, pos0) == p_term_rest(ts, self.current as int, expr@),
            decreases ts.len() - self.current,
        {
            let operator = self.peek_copy();
            self.advance();
            let right = match self.factor() {
                Ok(e) => e,
                Err(er) => {
                    return Err(er);
                },
            };
            expr = Expr::Binary { left: Box::new(expr), operator, right: Box::new(right) };
        }
        Ok(expr)
    }

    fn factor(&mut self) -> (r: Result<Expr, Error>)
        requires
            old(self).wf(),
        ensures
            final (self).wf(),
            final (self).toks() == old(self).toks(),
            old(self).current <= final (self).current,
            outcome_matches(
                r,
                p_factor(old(self).toks(), old(self).current as int),
                final (self).current as int,
                old(self).current as int,
            ),
        decreases self.toks().len() - self.current, 4int,
    {
        let ghost ts = self.toks();
        let ghost pos0 = self.current as int;
        let mut expr = match self.unary() {
            Ok(e) => e,
            Err(er) => {
                return Err(er);
            },
        };
        while self.at_factor_op()
            invariant
                self.wf(),
                self.toks() == ts,
                ts == old(self).toks(),
                pos0 == old(self).current as int,
                0 <= pos0 < self.current as int,
                p_factor(ts, pos0) == p_factor_rest(ts, self.current as int, expr@),
            decreases ts.len() - self.current,
        {
            let operator = self.peek_copy();
            self.advance();
            let right = match self.unary() {
                Ok(e) => e,
                Err(er) => {
                    return Err(er);
                },
            };
            expr = Expr::Binary { left: Box::new(expr), operator, right: Box::new(right) };
        }
        Ok(expr)
    }

    /// The `unary` rule: a bang or minus applied to a unary, else a
    /// primary.
    fn unary(&mut self) -> (r: Result<Expr, Error>)
        requires
            old(self).wf(),
        ensures
            final (self).wf(),
            final (self).toks() == old(self).toks(),
            old(self).current <= final (self).current,
            outcome_matches(
                r,
                p_unary(old(self).toks(), old(self).current as int),
                final (self).current as int,
                old(self).current as int,
            ),
        decreases self.toks().len() - self.current, 1int,
    {
        if self.at_unary_op() {
            let operator = self.peek_copy();
            self.advance();
            match self.unary() {
                Ok(right) => Ok(Expr::Unary { operator, right: Box::new(right) }),
                Err(er) => Err(er),
            }
        } else {
            self.primary()
        }
    }

    /// The `primary` rule: a literal token or a parenthesized expression,
    /// consumed; anything else fails with "expected expression" and the
    /// cursor unmoved.
    fn primary(&mut self) -> (r: Result<Expr, Error>)
        requires
            old(self).wf(),
        ensures
            final (self).wf(),
            final (self).toks() == old(self).toks(),
            old(self).current <= final (self).current,
            outcome_matches(
                r,
                p_primary(old(self).toks(), old(self).current as int),
                final (self).current as int,
                old(self).current as int,
            ),
        decreases self.toks().len() - self.current, 0int,
    {
        let k = copy_token_type(&self.tokens[self.current].kind);
        match k {
            TokenType::True => {
                self.advance();
                Ok(Expr::Literal { value: LiteralValue::Bool(true) })
            },
            TokenType::False => {
                self.advance();
                Ok(Expr::Literal { value: LiteralValue::Bool(false) })
            },
            TokenType::Nil => {
                self.advance();
                Ok(Expr::Literal { value: LiteralValue::Null })
            },
            TokenType::Number { text } => {
                self.advance();
                Ok(Expr::Literal { value: LiteralValue::Number(text) })
            },
            TokenType::String { literal } => {
                self.advance();
                Ok(Expr::Literal { value: LiteralValue::String(literal) })
            },
            TokenType::LeftParen => {
                self.advance();
                let expr = match self.expression() {
                    Ok(e) => e,
                    Err(er) => {
                        return Err(er);
                    },
                };
                if self.at_right_paren() {
                    self.advance();
                    Ok(Expr::Grouping { expression: Box::new(expr) })
                } else {
                    Err(Error::ParserError("Expect ) after expression".to_owned()))
                }
            },
            _ => Err(Error::ParserError("expected expression".to_owned())),
        }
    }

    /// The whole grammar: an expression is an equality.
    fn expression(&mut self) -> (r: Result<Expr, Error>)
        requires
            old(self).wf(),
        ensures
            final (self).wf(),
            final (self).toks() == old(self).toks(),
            old(self).current <= final (self).current,
            outcome_matches(
                r,
                p_expression(old(self).toks(), old(self).current as int),
                final (self).current as int,
                old(self).current as int,
            ),
        decreases self.toks().len() - self.current, 11int,
    {
        self.equality()
    }

    /// Attempts one full expression parse from the current position:
    /// exactly the model's tree, or its error with the cursor left on the
    /// offending token.
    pub fn parse(&mut self) -> (r: Result<Expr, Error>)
        requires
            old(self).wf(),
        ensures
            final (self).wf(),
            final (self).toks() == old(self).toks(),
            old(self).current <= final (self).current,
            outcome_matches(
                r,
                p_expression(old(self).toks(), old(self).current as int),
                final (self).current as int,
                old(self).current as int,
            ),
    {
        self.expression()
    }

    /// Discards tokens until just past a semicolon, at a token that begins
    /// a statement-level construct, or at the end marker: where a caller
    /// may resume parsing after a syntax error without cascading failures.
    pub fn synchronize(&mut self)
        requires
            old(self).wf(),
        ensures
            final (self).wf(),
            final (self).toks() == old(self).toks(),
            old(self).current <= final (self).current,
            final (self).current as int == sync_pos(
                old(self).toks(),
                old(self).current as int,
            ),
    {
        let ghost ts = self.toks();
        let ghost pos0 = self.current as int;
        if self.is_at_end() {
            return ;
        }
        self.advance();
        while !self.is_at_end()
            invariant
                self.wf(),
                self.toks() == ts,
                ts == old(self).toks(),
                pos0 == old(self).current as int,
                0 <= pos0 < self.current as int,
                1 <= self.current,
                sync_pos(ts, pos0) == sync_scan(ts, self.current as int),
            decreases ts.len() - self.current,
        {
            match &self.tokens[self.current - 1].kind {
                TokenType::Semicolon => {
                    return ;
                },
                _ => {},
            }
            match &self.tokens[self.current].kind {
                TokenType::Class | TokenType::Fun | TokenType::Var | TokenType::For
                    | TokenType::If | TokenType::While | TokenType::Print
                    | TokenType::Return => {
                    return ;
                },
                _ => {},
            }
            self.advance();
        }
    }
}

} // verus!

