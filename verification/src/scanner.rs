//! The lexical scanner: one left-to-right pass over the source characters,
//! producing the token sequence and reporting lexical errors without
//! halting. The mathematical model is the recursive function [`scan_from`],
//! built from one-step dispatch ([`scan_step`]) exactly as the scanner
//! consumes characters; the executable scanner is proved to produce the
//! model's tokens and reports.
use vstd::prelude::*;
use vstd::string::StrSliceExecFns;
use vstd::string::StringExecFns;

use crate::token::{Token, TokenView};
use crate::token_type::{TokenType, TokenTypeView};
use crate::error::report_view;
use crate::Lox;

verus! {

/// A decimal digit.
pub open spec fn is_digit(c: char) -> bool {
    48 <= c as u32 && c as u32 <= 57
}

/// An ASCII letter or underscore: what may start an identifier.
pub open spec fn is_alpha(c: char) -> bool {
    (65 <= c as u32 && c as u32 <= 90) || (97 <= c as u32 && c as u32 <= 122) || c == '_'
}

/// What may continue an identifier.
pub open spec fn is_alnum(c: char) -> bool {
    is_digit(c) || is_alpha(c)
}

/// End of the maximal run of digits starting at `i`.
pub open spec fn digits_end(s: Seq<char>, i: int) -> int
    decreases s.len() - i,
{
    if 0 <= i && i < s.len() && is_digit(s[i]) {
        digits_end(s, i + 1)
    } else {
        i
    }
}

/// End of the maximal run of identifier characters starting at `i`.
pub open spec fn ident_end(s: Seq<char>, i: int) -> int
    decreases s.len() - i,
{
    if 0 <= i && i < s.len() && is_alnum(s[i]) {
        ident_end(s, i + 1)
    } else {
        i
    }
}

/// Position of the next newline at or after `i`, or the end of input: where
/// a line comment stops.
pub open spec fn line_comment_end(s: Seq<char>, i: int) -> int
    decreases s.len() - i,
{
    if 0 <= i && i < s.len() && s[i] != '\n' {
        line_comment_end(s, i + 1)
    } else {
        i
    }
}

/// Position of the next double quote at or after `i`, or the end of input:
/// where a string literal's body stops.
pub open spec fn string_body_end(s: Seq<char>, i: int) -> int
    decreases s.len() - i,
{
    if 0 <= i && i < s.len() && s[i] != '"' {
        string_body_end(s, i + 1)
    } else {
        i
    }
}

/// How many newlines `s` holds in positions `i` (inclusive) to `j`
/// (exclusive).
pub open spec fn newlines_in(s: Seq<char>, i: int, j: int) -> nat
    decreases j - i,
{
    if i < j {
        newlines_in(s, i, j - 1) + (if 0 <= j - 1 && j - 1 < s.len() && s[j - 1] == '\n' {
            1nat
        } else {
            0nat
        })
    } else {
        0nat
    }
}

/// Scanning a block comment body from `i` at the given nesting depth:
/// every `/*` raises the depth, every `*/` lowers it. Yields the position
/// after the comment and whether it was terminated before the input ended.
pub open spec fn block_scan(s: Seq<char>, i: int, depth: nat) -> (int, bool)
    decreases s.len() - i,
{
    if i < 0 || i >= s.len() {
        (i, false)
    } else if i + 1 < s.len() && s[i] == '*' && s[i + 1] == '/' {
        if depth <= 1 {
            (i + 2, true)
        } else {
            block_scan(s, i + 2, (depth - 1) as nat)
        }
    } else if i + 1 < s.len() && s[i] == '/' && s[i + 1] == '*' {
        block_scan(s, i + 2, depth + 1)
    } else {
        block_scan(s, i + 1, depth)
    }
}

/// End of a number starting at `i`: a maximal run of digits, then at most
/// one dot followed by at least one digit and the maximal run after it.
pub open spec fn number_end(s: Seq<char>, i: int) -> int {
    let d = digits_end(s, i);
    if d + 1 < s.len() && s[d] == '.' && is_digit(s[d + 1]) {
        digits_end(s, d + 2)
    } else {
        d
    }
}

/// Position of the first dot at or after `i`, or the end.
pub open spec fn first_dot(s: Seq<char>, i: int) -> int
    decreases s.len() - i,
{
    if 0 <= i && i < s.len() && s[i] != '.' {
        first_dot(s, i + 1)
    } else {
        i
    }
}

/// Leading zeros removed, keeping at least one character.
pub open spec fn strip_leading_zeros(s: Seq<char>) -> Seq<char>
    decreases s.len(),
{
    if s.len() > 1 && s[0] == '0' {
        strip_leading_zeros(s.drop_first())
    } else {
        s
    }
}

/// Trailing zeros removed, possibly leaving nothing.
pub open spec fn strip_trailing_zeros(s: Seq<char>) -> Seq<char>
    decreases s.len(),
{
    if s.len() > 0 && s[s.len() - 1] == '0' {
        strip_trailing_zeros(s.drop_last())
    } else {
        s
    }
}

/// Canonical decimal text of a scanned number: integer part without leading
/// zeros (one digit kept if all were zero), fraction without trailing
/// zeros, and no dot when the fraction empties out. This is the text the
/// number's native decimal printing would give.
pub open spec fn canon_number(s: Seq<char>) -> Seq<char> {
    let d = first_dot(s, 0);
    let ip = strip_leading_zeros(s.take(d));
    let fp = if d < s.len() {
        strip_trailing_zeros(s.subrange(d + 1, s.len() as int))
    } else {
        Seq::<char>::empty()
    };
    if fp.len() == 0 {
        ip
    } else {
        ip + seq!['.'] + fp
    }
}

/// The fixed keyword table: the token category an identifier spelling is
/// reserved for, if any.
pub open spec fn keyword(s: Seq<char>) -> Option<TokenTypeView> {
    if s == "and"@ {
        Some(TokenTypeView::And)
    } else if s == "or"@ {
        Some(TokenTypeView::Or)
    } else if s == "class"@ {
        Some(TokenTypeView::Class)
    } else if s == "else"@ {
        Some(TokenTypeView::Else)
    } else if s == "false"@ {
        Some(TokenTypeView::False)
    } else if s == "true"@ {
        Some(TokenTypeView::True)
    } else if s == "for"@ {
        Some(TokenTypeView::For)
    } else if s == "fun"@ {
        Some(TokenTypeView::Fun)
    } else if s == "if"@ {
        Some(TokenTypeView::If)
    } else if s == "nil"@ {
        Some(TokenTypeView::Nil)
    } else if s == "print"@ {
        Some(TokenTypeView::Print)
    } else if s == "return"@ {
        Some(TokenTypeView::Return)
    } else if s == "this"@ {
        Some(TokenTypeView::This)
    } else if s == "super"@ {
        Some(TokenTypeView::Super)
    } else if s == "var"@ {
        Some(TokenTypeView::Var)
    } else if s == "while"@ {
        Some(TokenTypeView::While)
    } else {
        None
    }
}

/// What one dispatch step of the scanner does at position `pos`: where it
/// leaves the cursor and the line counter, which token it emits, and which
/// error report it makes, if any.
pub ghost struct ScanStep {
    pub next: int,
    pub line: nat,
    pub tok: Option<TokenView>,
    pub err: Option<Seq<char>>,
}

/// A token whose lexeme is the source text from `start` to `end`.
pub open spec fn span_token(
    k: TokenTypeView,
    s: Seq<char>,
    start: int,
    end: int,
    line: nat,
) -> TokenView {
    TokenView { kind: k, lexeme: s.subrange(start, end), line }
}

/// A step that only emits the given token.
pub open spec fn token_step(k: TokenTypeView, s: Seq<char>, start: int, end: int, line: nat) -> ScanStep {
    ScanStep { next: end, line, tok: Some(span_token(k, s, start, end, line)), err: None }
}

/// Maximal munch for the one- or two-character operators: the two-character
/// category is chosen exactly when `=` follows.
pub open spec fn two_char_step(
    s: Seq<char>,
    pos: int,
    line: nat,
    one: TokenTypeView,
    two: TokenTypeView,
) -> ScanStep {
    if pos + 1 < s.len() && s[pos + 1] == '=' {
        token_step(two, s, pos, pos + 2, line)
    } else {
        token_step(one, s, pos, pos + 1, line)
    }
}

/// One step of the scanner: consume the character at `pos` and dispatch.
pub open spec fn scan_step(s: Seq<char>, pos: int, line: nat) -> ScanStep
    recommends
        0 <= pos < s.len(),
{
    let c = s[pos];
    if c == '(' {
        token_step(TokenTypeView::LeftParen, s, pos, pos + 1, line)
    } else if c == ')' {
        token_step(TokenTypeView::RightParen, s, pos, pos + 1, line)
    } else if c == '{' {
        token_step(TokenTypeView::LeftBrace, s, pos, pos + 1, line)
    } else if c == '}' {
        token_step(TokenTypeView::RightBrace, s, pos, pos + 1, line)
    } else if c == ',' {
        token_step(TokenTypeView::Comma, s, pos, pos + 1, line)
    } else if c == '.' {
        token_step(TokenTypeView::Dot, s, pos, pos + 1, line)
    } else if c == '-' {
        token_step(TokenTypeView::Minus, s, pos, pos + 1, line)
    } else if c == '+' {
        token_step(TokenTypeView::Plus, s, pos, pos + 1, line)
    } else if c == '*' {
        token_step(TokenTypeView::Star, s, pos, pos + 1, line)
    } else if c == ';' {
        token_step(TokenTypeView::Semicolon, s, pos, pos + 1, line)
    } else if c == '!' {
        two_char_step(s, pos, line, TokenTypeView::Bang, TokenTypeView::BangEqual)
    } else if c == '=' {
        two_char_step(s, pos, line, TokenTypeView::Equal, TokenTypeView::EqualEqual)
    } else if c == '>' {
        two_char_step(s, pos, line, TokenTypeView::Greater, TokenTypeView::GreaterEqual)
    } else if c == '<' {
        two_char_step(s, pos, line, TokenTypeView::Less, TokenTypeView::LessEqual)
    } else if c == '/' {
        if pos + 1 < s.len() && s[pos + 1] == '/' {
            ScanStep { next: line_comment_end(s, pos + 2), line, tok: None, err: None }
        } else if pos + 1 < s.len() && s[pos + 1] == '*' {
            let (e, terminated) = block_scan(s, pos + 2, 1);
            if terminated {
                ScanStep { next: e, line, tok: None, err: None }
            } else {
                ScanStep {
                    next: e,
                    line,
                    tok: None,
                    err: Some(report_view(line, Seq::<char>::empty(), "Unterminated block comment"@)),
                }
            }
        } else {
            token_step(TokenTypeView::Slash, s, pos, pos + 1, line)
        }
    } else if c == ' ' || c == '\r' || c == '\t' {
        ScanStep { next: pos + 1, line, tok: None, err: None }
    } else if c == '\n' {
        ScanStep { next: pos + 1, line: line + 1, tok: None, err: None }
    } else if c == '"' {
        let e = string_body_end(s, pos + 1);
        let l2 = line + newlines_in(s, pos + 1, e);
        if e >= s.len() {
            ScanStep {
                next: e,
                line: l2,
                tok: None,
                err: Some(report_view(l2, Seq::<char>::empty(), "Unterminated string"@)),
            }
        } else {
            ScanStep {
                next: e + 1,
                line: l2,
                tok: Some(
                    TokenView {
                        kind: TokenTypeView::String { literal: s.subrange(pos + 1, e) },
                        lexeme: s.subrange(pos, e + 1),
                        line: l2,
                    },
                ),
                err: None,
            }
        }
    } else if is_digit(c) {
        let e = number_end(s, pos);
        ScanStep {
            next: e,
            line,
            tok: Some(
                TokenView {
                    kind: TokenTypeView::Number { text: canon_number(s.subrange(pos, e)) },
                    lexeme: s.subrange(pos, e),
                    line,
                },
            ),
            err: None,
        }
    } else if is_alpha(c) {
        let e = ident_end(s, pos);
        let lex = s.subrange(pos, e);
        let k = match keyword(lex) {
            Some(kw) => kw,
            None => TokenTypeView::Identifier,
        };
        token_step(k, s, pos, e, line)
    } else {
        ScanStep {
            next: pos + 1,
            line,
            tok: None,
            err: Some(report_view(line, Seq::<char>::empty(), "Unexpected character"@)),
        }
    }
}

/// Everything a scan produces: the tokens, and the error reports, each in
/// the order made.
pub ghost struct ScanOut {
    pub toks: Seq<TokenView>,
    pub errs: Seq<Seq<char>>,
}

/// The end marker appended when the input is exhausted.
pub open spec fn eof_token(line: nat) -> TokenView {
    TokenView { kind: TokenTypeView::Eof, lexeme: Seq::<char>::empty(), line }
}

/// An optional element as a sequence of length zero or one.
pub open spec fn opt_seq<T>(o: Option<T>) -> Seq<T> {
    match o {
        Some(x) => seq![x],
        None => Seq::<T>::empty(),
    }
}

/// The whole scan from position `pos` on line `line`: steps until the input
/// is exhausted, then exactly one end marker.
pub open spec fn scan_from(s: Seq<char>, pos: int, line: nat) -> ScanOut
    decreases s.len() - pos,
    via scan_from_dec
{
    if !(0 <= pos < s.len()) {
        ScanOut { toks: seq![eof_token(line)], errs: Seq::<Seq<char>>::empty() }
    } else {
        let st = scan_step(s, pos, line);
        let rest = scan_from(s, st.next, st.line);
        ScanOut { toks: opt_seq(st.tok) + rest.toks, errs: opt_seq(st.err) + rest.errs }
    }
}

#[via_fn]
proof fn scan_from_dec(s: Seq<char>, pos: int, line: nat) {
    if 0 <= pos < s.len() {
        lemma_scan_step_bounds(s, pos, line);
    }
}

proof fn lemma_digits_end_bounds(s: Seq<char>, i: int)
    requires
        0 <= i <= s.len(),
    ensures
        i <= digits_end(s, i) <= s.len(),
    decreases s.len() - i,
{
    if i < s.len() && is_digit(s[i]) {
        lemma_digits_end_bounds(s, i + 1);
    }
}

proof fn lemma_ident_end_bounds(s: Seq<char>, i: int)
    requires
        0 <= i <= s.len(),
    ensures
        i <= ident_end(s, i) <= s.len(),
    decreases s.len() - i,
{
    if i < s.len() && is_alnum(s[i]) {
        lemma_ident_end_bounds(s, i + 1);
    }
}

proof fn lemma_line_comment_end_bounds(s: Seq<char>, i: int)
    requires
        0 <= i <= s.len(),
    ensures
        i <= line_comment_end(s, i) <= s.len(),
    decreases s.len() - i,
{
    if i < s.len() && s[i] != '\n' {
        lemma_line_comment_end_bounds(s, i + 1);
    }
}

proof fn lemma_string_body_end_bounds(s: Seq<char>, i: int)
    requires
        0 <= i <= s.len(),
    ensures
        i <= string_body_end(s, i) <= s.len(),
    decreases s.len() - i,
{
    if i < s.len() && s[i] != '"' {
        lemma_string_body_end_bounds(s, i + 1);
    }
}

proof fn lemma_block_scan_bounds(s: Seq<char>, i: int, depth: nat)
    requires
        0 <= i <= s.len(),
    ensures
        i <= block_scan(s, i, depth).0 <= s.len(),
    decreases s.len() - i,
{
    if i < s.len() {
        if i + 1 < s.len() && s[i] == '*' && s[i + 1] == '/' {
            if depth > 1 {
                lemma_block_scan_bounds(s, i + 2, (depth - 1) as nat);
            }
        } else if i + 1 < s.len() && s[i] == '/' && s[i + 1] == '*' {
            lemma_block_scan_bounds(s, i + 2, depth + 1);
        } else {
            lemma_block_scan_bounds(s, i + 1, depth);
        }
    }
}

proof fn lemma_number_end_bounds(s: Seq<char>, i: int)
    requires
        0 <= i < s.len(),
        is_digit(s[i]),
    ensures
        i + 1 <= number_end(s, i) <= s.len(),
{
    lemma_digits_end_bounds(s, i + 1);
    let d = digits_end(s, i);
    if d + 1 < s.len() && s[d] == '.' && is_digit(s[d + 1]) {
        lemma_digits_end_bounds(s, d + 2);
    }
}

proof fn lemma_scan_step_bounds(s: Seq<char>, pos: int, line: nat)
    requires
        0 <= pos < s.len(),
    ensures
        pos < scan_step(s, pos, line).next <= s.len(),
{
    let c = s[pos];
    if c == '/' {
        if pos + 1 < s.len() && s[pos + 1] == '/' {
            lemma_line_comment_end_bounds(s, pos + 2);
        } else if pos + 1 < s.len() && s[pos + 1] == '*' {
            lemma_block_scan_bounds(s, pos + 2, 1);
        }
    } else if c == '"' {
        lemma_string_body_end_bounds(s, pos + 1);
    } else if c == '(' || c == ')' || c == '{' || c == '}' || c == ',' || c == '.' || c == '-'
        || c == '+' || c == '*' || c == ';' || c == '!' || c == '=' || c == '>' || c == '<'
        || c == ' ' || c == '\r' || c == '\t' || c == '\n' {
    } else if is_digit(c) {
        lemma_number_end_bounds(s, pos);
    } else if is_alpha(c) {
        lemma_ident_end_bounds(s, pos);
        assert(ident_end(s, pos) == ident_end(s, pos + 1));
        lemma_ident_end_bounds(s, pos + 1);
    }
}

/// However a scan starts, its token sequence is never empty: it ends with
/// exactly one end marker, and no token before the last one is an end
/// marker — even for empty input.
pub proof fn lemma_scan_terminated(s: Seq<char>, pos: int, line: nat)
    ensures
        scan_from(s, pos, line).toks.len() >= 1,
        scan_from(s, pos, line).toks.last().kind == TokenTypeView::Eof,
        forall|i: int|
            0 <= i < scan_from(s, pos, line).toks.len() - 1 ==> #[trigger] scan_from(
                s,
                pos,
                line,
            ).toks[i].kind != TokenTypeView::Eof,
    decreases s.len() - pos,
{
    if !(0 <= pos < s.len()) {
    } else {
        let st = scan_step(s, pos, line);
        lemma_scan_step_bounds(s, pos, line);
        lemma_scan_terminated(s, st.next, st.line);
        match st.tok {
            Some(t) => {
                assert(t.kind != TokenTypeView::Eof);
            },
            None => {},
        }
    }
}

/// Maximal munch: where the full two-character form of an operator starts a
/// token, the scan yields the single two-character token — never two
/// one-character tokens.
pub proof fn lemma_maximal_munch(s: Seq<char>, pos: int, line: nat)
    requires
        0 <= pos,
        pos + 1 < s.len(),
        s[pos] == '!' || s[pos] == '=' || s[pos] == '>' || s[pos] == '<',
        s[pos + 1] == '=',
    ensures
        scan_from(s, pos, line).toks[0].lexeme == s.subrange(pos, pos + 2),
        scan_from(s, pos, line).toks[0].kind == (if s[pos] == '!' {
            TokenTypeView::BangEqual
        } else if s[pos] == '=' {
            TokenTypeView::EqualEqual
        } else if s[pos] == '>' {
            TokenTypeView::GreaterEqual
        } else {
            TokenTypeView::LessEqual
        }),
        scan_from(s, pos, line).toks.drop_first() == scan_from(s, pos + 2, line).toks,
{
    let st = scan_step(s, pos, line);
    assert(st.next == pos + 2);
    assert(scan_from(s, pos, line).toks =~= seq![st.tok.unwrap()] + scan_from(
        s,
        pos + 2,
        line,
    ).toks);
    assert(scan_from(s, pos, line).toks.drop_first() =~= scan_from(s, pos + 2, line).toks);
}

proof fn lemma_first_dot_bounds(s: Seq<char>, i: int)
    requires
        0 <= i <= s.len(),
    ensures
        i <= first_dot(s, i) <= s.len(),
    decreases s.len() - i,
{
    if i < s.len() && s[i] != '.' {
        lemma_first_dot_bounds(s, i + 1);
    }
}

/// Whether `c` is a decimal digit.
pub fn check_digit(c: char) -> (b: bool)
    ensures
        b == is_digit(c),
{
    let u = c as u32;
    (48 <= u) && (u <= 57)
}

/// Whether `c` may start an identifier.
pub fn check_alpha(c: char) -> (b: bool)
    ensures
        b == is_alpha(c),
{
    let u = c as u32;
    ((65 <= u) && (u <= 90)) || ((97 <= u) && (u <= 122)) || c == '_'
}

/// Whether `c` may continue an identifier.
pub fn check_alnum(c: char) -> (b: bool)
    ensures
        b == is_alnum(c),
{
    check_digit(c) || check_alpha(c)
}

/// Whether two pieces of text hold the same characters.
fn str_eq(a: &str, b: &str) -> (r: bool)
    ensures
        r == (a@ == b@),
{
    let sa = a.to_owned();
    let sb = b.to_owned();
    sa == sb
}

/// The token category for an identifier spelling: its keyword category if
/// the spelling is reserved, else a plain identifier.
pub fn keyword_kind(lex: &String) -> (k: TokenType)
    ensures
        k@ == (match keyword(lex@) {
            Some(kw) => kw,
            None => TokenTypeView::Identifier,
        }),
{
    let s = lex.as_str();
    if str_eq(s, "and") {
        TokenType::And
    } else if str_eq(s, "or") {
        TokenType::Or
    } else if str_eq(s, "class") {
        TokenType::Class
    } else if str_eq(s, "else") {
        TokenType::Else
    } else if str_eq(s, "false") {
        TokenType::False
    } else if str_eq(s, "true") {
        TokenType::True
    } else if str_eq(s, "for") {
        TokenType::For
    } else if str_eq(s, "fun") {
        TokenType::Fun
    } else if str_eq(s, "if") {
        TokenType::If
    } else if str_eq(s, "nil") {
        TokenType::Nil
    } else if str_eq(s, "print") {
        TokenType::Print
    } else if str_eq(s, "return") {
        TokenType::Return
    } else if str_eq(s, "this") {
        TokenType::This
    } else if str_eq(s, "super") {
        TokenType::Super
    } else if str_eq(s, "var") {
        TokenType::Var
    } else if str_eq(s, "while") {
        TokenType::While
    } else {
        TokenType::Identifier
    }
}

/// The canonical decimal text of a scanned number literal: leading zeros of
/// the integer part dropped (one digit kept), trailing zeros of the
/// fraction dropped, and the dot dropped when the fraction empties out.
pub fn canonical_number(s: &str) -> (r: String)
    requires
        s@.len() >= 1,
        s@.len() < usize::MAX,
        is_digit(s@[0]),
    ensures
        r@ == canon_number(s@),
{
    let n = s.unicode_len();
    let mut d: usize = 0;
    while d < n && s.get_char(d) != '.'
        invariant
            0 <= d <= n,
            n == s@.len() < usize::MAX,
            first_dot(s@, 0) == first_dot(s@, d as int),
        decreases n - d,
    {
        d = d + 1;
    }
    proof {
        lemma_first_dot_bounds(s@, 1);
    }
    let mut a: usize = 0;
    while a + 1 < d && s.get_char(a) == '0'
        invariant
            0 <= a < d <= n,
            n == s@.len() < usize::MAX,
            strip_leading_zeros(s@.subrange(0, d as int)) == strip_leading_zeros(
                s@.subrange(a as int, d as int),
            ),
        decreases d - a,
    {
        proof {
            assert(s@.subrange(a as int, d as int).drop_first() =~= s@.subrange(
                a as int + 1,
                d as int,
            ));
        }
        a = a + 1;
    }
    let mut e = n;
    if d < n {
        while e > d + 1 && s.get_char(e - 1) == '0'
            invariant
                d < n == s@.len() < usize::MAX,
                d + 1 <= e <= n,
                strip_trailing_zeros(s@.subrange(d + 1, n as int)) == strip_trailing_zeros(
                    s@.subrange(d + 1, e as int),
                ),
            decreases e,
        {
            proof {
                assert(s@.subrange(d + 1, e as int).drop_last() =~= s@.subrange(
                    d + 1,
                    e as int - 1,
                ));
            }
            e = e - 1;
        }
    }
    let ip = s.substring_char(a, d).to_owned();
    proof {
        assert(s@.take(d as int) =~= s@.subrange(0, d as int));
    }
    if d >= n || e == d + 1 {
        proof {
            assert(ip@ =~= canon_number(s@));
        }
        ip
    } else {
        let mut r = ip;
        r.append(".");
        r.append(s.substring_char(d + 1, e));
        proof {
            reveal_strlit(".");
            assert("."@ =~= seq!['.']);
            assert(r@ =~= canon_number(s@));
        }
        r
    }
}

/// The scanner: a single cursor over the source characters, the tokens
/// produced so far, the start of the lexeme in hand, and the current
/// 1-based line.
pub struct Scanner {
    pub source: String,
    pub tokens: Vec<Token>,
    pub start: usize,
    pub current: usize,
    pub line: usize,
}

impl Scanner {
    /// The source as a sequence of characters.
    pub open spec fn src(&self) -> Seq<char> {
        self.source@
    }

    /// The tokens produced so far, as their mathematical images.
    pub open spec fn toks(&self) -> Seq<TokenView> {
        self.tokens@.map_values(|t: Token| t@)
    }

    /// The scanner's internal soundness: the cursor and lexeme start lie
    /// within the source, the line counter cannot outrun the cursor, and the
    /// source is short enough for positions to fit the machine.
    pub open spec fn wf(&self) -> bool {
        &&& self.source@.len() < usize::MAX
        &&& self.current <= self.source@.len()
        &&& self.start <= self.source@.len()
        &&& 1 <= self.line
        &&& self.line as int <= self.current as int + 1
    }

    pub fn new(source: String) -> (sc: Scanner)
        requires
            source@.len() < usize::MAX,
        ensures
            sc.wf(),
            sc.source == source,
            sc.toks() == Seq::<TokenView>::empty(),
            sc.current == 0,
            sc.start == 0,
            sc.line == 1,
    {
        let sc = Scanner { source, line: 1, tokens: Vec::new(), start: 0, current: 0 };
        proof {
            assert(sc.toks() =~= Seq::<TokenView>::empty());
        }
        sc
    }

    /// How many characters the source holds.
    fn src_len(&self) -> (n: usize)
        ensures
            n == self.src().len(),
    {
        self.source.as_str().unicode_len()
    }

    /// The character at position `i`.
    fn char_at(&self, i: usize) -> (c: char)
        requires
            i < self.src().len(),
        ensures
            c == self.src()[i as int],
    {
        self.source.as_str().get_char(i)
    }

    /// Whether the cursor has consumed the whole source.
    pub fn is_at_end(&self) -> (b: bool)
        ensures
            b == (self.current >= self.src().len()),
    {
        self.current >= self.src_len()
    }

    /// Consumes and returns the character under the cursor.
    fn advance(&mut self) -> (c: char)
        requires
            old(self).current < old(self).src().len(),
            old(self).src().len() < usize::MAX,
        ensures
            final (self).current == old(self).current + 1,
            c == old(self).src()[old(self).current as int],
            final (self).source == old(self).source,
            final (self).tokens == old(self).tokens,
            final (self).start == old(self).start,
            final (self).line == old(self).line,
    {
        let c = self.char_at(self.current);
        self.current = self.current + 1;
        c
    }

    /// Consumes the character under the cursor exactly when it is the
    /// expected one (one-character lookahead).
    fn match_char(&mut self, expected: char) -> (b: bool)
        requires
            old(self).src().len() < usize::MAX,
            old(self).current <= old(self).src().len(),
        ensures
            final (self).source == old(self).source,
            final (self).tokens == old(self).tokens,
            final (self).start == old(self).start,
            final (self).line == old(self).line,
            b == (old(self).current < old(self).src().len() && old(self).src()[old(
                self,
            ).current as int] == expected),
            final (self).current as int == old(self).current as int + (if b {
                1int
            } else {
                0int
            }),
    {
        if self.is_at_end() {
            return false;
        }
        let c = self.char_at(self.current);
        if c != expected {
            return false;
        }
        self.current = self.current + 1;
        true
    }

    /// The character under the cursor, or the null character at the end.
    fn peek(&self) -> (c: char)
        ensures
            c == (if self.current < self.src().len() {
                self.src()[self.current as int]
            } else {
                '\0'
            }),
    {
        if self.is_at_end() {
            return '\0';
        }
        self.char_at(self.current)
    }

    /// The character one past the cursor, or the null character at the end.
    fn peek_next(&self) -> (c: char)
        requires
            self.current <= self.src().len(),
        ensures
            c == (if self.current + 1 < self.src().len() {
                self.src()[self.current as int + 1]
            } else {
                '\0'
            }),
    {
        let n = self.src_len();
        if self.current >= n || self.current + 1 >= n {
            return '\0';
        }
        self.char_at(self.current + 1)
    }

    /// Emits one token whose lexeme is the source text from the lexeme
    /// start to the cursor, on the current line.
    fn add_token(&mut self, kind: TokenType)
        requires
            old(self).start <= old(self).current <= old(self).src().len(),
        ensures
            final (self).toks() == old(self).toks() + seq![
                TokenView {
                    kind: kind@,
                    lexeme: old(self).src().subrange(
                        old(self).start as int,
                        old(self).current as int,
                    ),
                    line: old(self).line as nat,
                },
            ],
            final (self).source == old(self).source,
            final (self).start == old(self).start,
            final (self).current == old(self).current,
            final (self).line == old(self).line,
    {
        let text = self.source.as_str().substring_char(self.start, self.current).to_owned();
        let line = self.line;
        self.tokens.push(Token::new(kind, text, line));
        proof {
            assert(self.toks() =~= old(self).toks() + seq![
                TokenView {
                    kind: kind@,
                    lexeme: old(self).src().subrange(
                        old(self).start as int,
                        old(self).current as int,
                    ),
                    line: old(self).line as nat,
                },
            ]);
        }
    }

    /// Scans a string literal. The opening quote is already consumed; the
    /// body runs to the next quote, embedded newlines counting against the
    /// line counter. An unterminated string is a reported lexical error.
    fn string(&mut self, lox: &mut Lox)
        requires
            old(self).wf(),
            old(self).start + 1 == old(self).current,
            old(self).current <= old(self).src().len(),
            old(self).src()[old(self).start as int] == '"',
        ensures
            final (self).wf(),
            final (self).source == old(self).source,
            final (self).start == old(self).start,
            ({
                let s = old(self).src();
                let e = string_body_end(s, old(self).current as int);
                let l2 = old(self).line as nat + newlines_in(s, old(self).current as int, e);
                &&& final (self).line as nat == l2
                &&& final (self).current as int == (if e < s.len() {
                    e + 1
                } else {
                    e
                })
                &&& final (self).toks() == old(self).toks() + (if e < s.len() {
                    seq![
                        TokenView {
                            kind: TokenTypeView::String {
                                literal: s.subrange(old(self).current as int, e),
                            },
                            lexeme: s.subrange(old(self).start as int, e + 1),
                            line: l2,
                        },
                    ]
                } else {
                    Seq::<TokenView>::empty()
                })
                &&& final (lox).diags() == old(lox).diags() + (if e >= s.len() {
                    seq![report_view(l2, Seq::<char>::empty(), "Unterminated string"@)]
                } else {
                    Seq::<Seq<char>>::empty()
                })
                &&& final (lox).had_error == (old(lox).had_error || e >= s.len())
            }),
    {
        let ghost s = self.src();
        let ghost c0 = self.current as int;
        while self.peek() != '"' && !self.is_at_end()
            invariant
                self.wf(),
                self.source == old(self).source,
                self.start == old(self).start,
                self.tokens == old(self).tokens,
                c0 <= self.current as int <= s.len(),
                s == self.src(),
                string_body_end(s, c0) == string_body_end(s, self.current as int),
                self.line as nat == old(self).line as nat + newlines_in(
                    s,
                    c0,
                    self.current as int,
                ),
            decreases s.len() - self.current,
        {
            let c = self.advance();
            if c == '\n' {
                self.line = self.line + 1;
            }
        }
        proof {
            assert(string_body_end(s, c0) == self.current as int);
            assert(self.toks() =~= old(self).toks() + Seq::<TokenView>::empty());
        }
        if self.is_at_end() {
            crate::error::error(lox, self.line, "Unterminated string");
            return ;
        }
        let _ = self.advance();
        let literal = self.source.as_str().substring_char(self.start + 1, self.current - 1)
            .to_owned();
        self.add_token(TokenType::String { literal });
    }

    /// Scans a number: a maximal run of digits, then at most one dot
    /// followed by at least one digit and the run after it. The token
    /// carries the canonical decimal text of the captured substring.
    fn number(&mut self)
        requires
            old(self).wf(),
            old(self).start + 1 == old(self).current,
            old(self).current <= old(self).src().len(),
            is_digit(old(self).src()[old(self).start as int]),
        ensures
            final (self).wf(),
            final (self).source == old(self).source,
            final (self).start == old(self).start,
            final (self).line == old(self).line,
            ({
                let s = old(self).src();
                let e = number_end(s, old(self).start as int);
                &&& final (self).current as int == e
                &&& final (self).toks() == old(self).toks() + seq![
                    TokenView {
                        kind: TokenTypeView::Number {
                            text: canon_number(s.subrange(old(self).start as int, e)),
                        },
                        lexeme: s.subrange(old(self).start as int, e),
                        line: old(self).line as nat,
                    },
                ]
            }),
    {
        let ghost s = self.src();
        let ghost p = self.start as int;
        while check_digit(self.peek())
            invariant
                self.wf(),
                self.source == old(self).source,
                self.start == old(self).start,
                self.tokens == old(self).tokens,
                self.line == old(self).line,
                p + 1 <= self.current as int <= s.len(),
                s == self.src(),
                digits_end(s, p + 1) == digits_end(s, self.current as int),
            decreases s.len() - self.current,
        {
            let _ = self.advance();
        }
        proof {
            assert(digits_end(s, p) == self.current as int);
        }
        if self.peek() == '.' && check_digit(self.peek_next()) {
            let _ = self.advance();
            let ghost c1 = self.current as int;
            while check_digit(self.peek())
                invariant
                    self.wf(),
                    self.source == old(self).source,
                    self.start == old(self).start,
                    self.tokens == old(self).tokens,
                    self.line == old(self).line,
                    c1 <= self.current as int <= s.len(),
                    s == self.src(),
                    digits_end(s, c1) == digits_end(s, self.current as int),
                decreases s.len() - self.current,
            {
                let _ = self.advance();
            }
            proof {
                assert(self.current as int == number_end(s, p));
            }
        }
        proof {
            assert(self.current as int == number_end(s, p));
        }
        let lex = self.source.as_str().substring_char(self.start, self.current).to_owned();
        let text = canonical_number(lex.as_str());
        self.add_token(TokenType::Number { text });
    }

    /// Scans an identifier: a maximal run of identifier characters, then a
    /// keyword-table lookup on the captured spelling.
    fn identifier(&mut self)
        requires
            old(self).wf(),
            old(self).start + 1 == old(self).current,
            old(self).current <= old(self).src().len(),
            is_alpha(old(self).src()[old(self).start as int]),
        ensures
            final (self).wf(),
            final (self).source == old(self).source,
            final (self).start == old(self).start,
            final (self).line == old(self).line,
            ({
                let s = old(self).src();
                let e = ident_end(s, old(self).start as int);
                let lex = s.subrange(old(self).start as int, e);
                &&& final (self).current as int == e
                &&& final (self).toks() == old(self).toks() + seq![
                    TokenView {
                        kind: (match keyword(lex) {
                            Some(kw) => kw,
                            None => TokenTypeView::Identifier,
                        }),
                        lexeme: lex,
                        line: old(self).line as nat,
                    },
                ]
            }),
    {
        let ghost s = self.src();
        let ghost p = self.start as int;
        while check_alnum(self.peek())
            invariant
                self.wf(),
                self.source == old(self).source,
                self.start == old(self).start,
                self.tokens == old(self).tokens,
                self.line == old(self).line,
                p + 1 <= self.current as int <= s.len(),
                s == self.src(),
                ident_end(s, p + 1) == ident_end(s, self.current as int),
            decreases s.len() - self.current,
        {
            let _ = self.advance();
        }
        proof {
            assert(ident_end(s, p) == self.current as int);
        }
        let lex = self.source.as_str().substring_char(self.start, self.current).to_owned();
        let kind = keyword_kind(&lex);
        self.add_token(kind);
    }

    /// Scans the body of a block comment whose opener is already consumed,
    /// tracking the nesting depth: every further `/*` raises it, every `*/`
    /// lowers it, and the comment ends when the depth returns to zero. An
    /// unterminated comment is a reported lexical error.
    fn block_comment(&mut self, lox: &mut Lox)
        requires
            old(self).wf(),
            old(self).current <= old(self).src().len(),
        ensures
            final (self).wf(),
            final (self).source == old(self).source,
            final (self).start == old(self).start,
            final (self).line == old(self).line,
            final (self).tokens == old(self).tokens,
            ({
                let s = old(self).src();
                let r = block_scan(s, old(self).current as int, 1);
                &&& final (self).current as int == r.0
                &&& final (lox).diags() == old(lox).diags() + (if r.1 {
                    Seq::<Seq<char>>::empty()
                } else {
                    seq![
                        report_view(
                            old(self).line as nat,
                            Seq::<char>::empty(),
                            "Unterminated block comment"@,
                        ),
                    ]
                })
                &&& final (lox).had_error == (old(lox).had_error || !r.1)
            }),
    {
        let ghost s = self.src();
        let ghost c0 = self.current as int;
        let mut depth: usize = 1;
        let mut terminated = false;
        while !terminated && !self.is_at_end()
            invariant
                self.wf(),
                self.source == old(self).source,
                self.start == old(self).start,
                self.tokens == old(self).tokens,
                self.line == old(self).line,
                c0 <= self.current as int <= s.len(),
                s == self.src(),
                1 <= depth,
                depth as int <= self.current as int + 1,
                !terminated ==> block_scan(s, c0, 1) == block_scan(
                    s,
                    self.current as int,
                    depth as nat,
                ),
                terminated ==> block_scan(s, c0, 1) == (self.current as int, true),
            decreases s.len() - self.current,
        {
            let c = self.peek();
            let cn = self.peek_next();
            if c == '*' && cn == '/' {
                let _ = self.advance();
                let _ = self.advance();
                if depth == 1 {
                    terminated = true;
                } else {
                    depth = depth - 1;
                }
            } else if c == '/' && cn == '*' {
                let _ = self.advance();
                let _ = self.advance();
                depth = depth + 1;
            } else {
                let _ = self.advance();
            }
        }
        if !terminated {
            crate::error::error(lox, self.line, "Unterminated block comment");
        }
    }

    /// Consumes one character and dispatches on it, emitting at most one
    /// token and at most one error report: exactly what one [`scan_step`] of
    /// the model says.
    fn scan_token(&mut self, lox: &mut Lox)
        requires
            old(self).wf(),
            old(self).current < old(self).src().len(),
            old(self).start == old(self).current,
        ensures
            final (self).wf(),
            final (self).source == old(self).source,
            final (self).start == old(self).start,
            ({
                let st = scan_step(old(self).src(), old(self).current as int, old(self).line as nat);
                &&& final (self).current as int == st.next
                &&& final (self).line as nat == st.line
                &&& final (self).toks() == old(self).toks() + opt_seq(st.tok)
                &&& final (lox).diags() == old(lox).diags() + opt_seq(st.err)
                &&& final (lox).had_error == (old(lox).had_error || st.err is Some)
            }),
    {
        let ghost s = self.src();
        let ghost pos = self.current as int;
        let ghost l0 = self.line as nat;
        let c = self.advance();
        match c {
            '(' => self.add_token(TokenType::LeftParen),
            ')' => self.add_token(TokenType::RightParen),
            '{' => self.add_token(TokenType::LeftBrace),
            '}' => self.add_token(TokenType::RightBrace),
            ',' => self.add_token(TokenType::Comma),
            '.' => self.add_token(TokenType::Dot),
            '-' => self.add_token(TokenType::Minus),
            '+' => self.add_token(TokenType::Plus),
            '*' => self.add_token(TokenType::Star),
            ';' => self.add_token(TokenType::Semicolon),
            '!' => {
                let k = if self.match_char('=') {
                    TokenType::BangEqual
                } else {
                    TokenType::Bang
                };
                self.add_token(k);
            },
            '=' => {
                let k = if self.match_char('=') {
                    TokenType::EqualEqual
                } else {
                    TokenType::Equal
                };
                self.add_token(k);
            },
            '>' => {
                let k = if self.match_char('=') {
                    TokenType::GreaterEqual
                } else {
                    TokenType::Greater
                };
                self.add_token(k);
            },
            '<' => {
                let k = if self.match_char('=') {
                    TokenType::LessEqual
                } else {
                    TokenType::Less
                };
                self.add_token(k);
            },
            '/' => {
                if self.match_char('/') {
                    let ghost c1 = self.current as int;
                    while self.peek() != '\n' && !self.is_at_end()
                        invariant
                            self.wf(),
                            self.source == old(self).source,
                            self.start == old(self).start,
                            self.tokens == old(self).tokens,
                            self.line == old(self).line,
                            c1 <= self.current as int <= s.len(),
                            s == self.src(),
                            line_comment_end(s, c1) == line_comment_end(s, self.current as int),
                        decreases s.len() - self.current,
                    {
                        let _ = self.advance();
                    }
                    proof {
                        assert(line_comment_end(s, c1) == self.current as int);
                    }
                } else if self.match_char('*') {
                    self.block_comment(lox);
                } else {
                    self.add_token(TokenType::Slash);
                }
            },
            ' ' | '\r' | '\t' => {},
            '\n' => {
                self.line = self.line + 1;
            },
            '"' => self.string(lox),
            _ => {
                if check_digit(c) {
                    self.number();
                } else if check_alpha(c) {
                    self.identifier();
                } else {
                    crate::error::error(lox, self.line, "Unexpected character");
                }
            },
        }
        proof {
            let st = scan_step(s, pos, l0);
            assert(self.toks() =~= old(self).toks() + opt_seq(st.tok));
            assert(lox.diags() =~= old(lox).diags() + opt_seq(st.err));
        }
    }

    /// Scans the whole remaining source: repeats [`scan_step`] until the
    /// input is exhausted, then appends exactly one end marker. Lexical
    /// errors are reported into `lox` and scanning continues past them.
    pub fn scan_tokens(&mut self, lox: &mut Lox)
        requires
            old(self).wf(),
        ensures
            final (self).source == old(self).source,
            ({
                let out = scan_from(old(self).src(), old(self).current as int, old(self).line as nat);
                &&& final (self).toks() == old(self).toks() + out.toks
                &&& final (lox).diags() == old(lox).diags() + out.errs
                &&& final (lox).had_error == (old(lox).had_error || out.errs.len() > 0)
            }),
    {
        let ghost s = self.src();
        let ghost c0 = self.current as int;
        let ghost l0 = self.line as nat;
        let ghost n0 = old(self).toks().len() as int;
        let ghost d0 = old(lox).diags().len() as int;
        while !self.is_at_end()
            invariant
                self.wf(),
                self.source == old(self).source,
                s == self.src(),
                0 <= n0 <= self.toks().len(),
                self.toks().take(n0) == old(self).toks(),
                0 <= d0 <= lox.diags().len(),
                lox.diags().take(d0) == old(lox).diags(),
                scan_from(s, c0, l0).toks == self.toks().skip(n0) + scan_from(
                    s,
                    self.current as int,
                    self.line as nat,
                ).toks,
                scan_from(s, c0, l0).errs == lox.diags().skip(d0) + scan_from(
                    s,
                    self.current as int,
                    self.line as nat,
                ).errs,
                lox.had_error == (old(lox).had_error || lox.diags().len() > d0),
            decreases s.len() - self.current,
        {
            let ghost pre_toks = self.toks();
            let ghost pre_cur = self.current as int;
            let ghost pre_line = self.line as nat;
            let ghost pre_diags = lox.diags();
            self.start = self.current;
            self.scan_token(lox);
            proof {
                broadcast use vstd::seq_lib::group_seq_properties;

                lemma_scan_step_bounds(s, pre_cur, pre_line);
                let st = scan_step(s, pre_cur, pre_line);
                assert(self.toks() == pre_toks + opt_seq(st.tok));
                assert(n0 <= pre_toks.len());
                assert(self.toks().skip(n0) =~= pre_toks.skip(n0) + opt_seq(st.tok));
                assert(lox.diags().skip(d0) =~= pre_diags.skip(d0) + opt_seq(st.err));
                assert(pre_toks.skip(n0) + (opt_seq(st.tok) + scan_from(
                    s,
                    self.current as int,
                    self.line as nat,
                ).toks) =~= (pre_toks.skip(n0) + opt_seq(st.tok)) + scan_from(
                    s,
                    self.current as int,
                    self.line as nat,
                ).toks);
                assert(pre_diags.skip(d0) + (opt_seq(st.err) + scan_from(
                    s,
                    self.current as int,
                    self.line as nat,
                ).errs) =~= (pre_diags.skip(d0) + opt_seq(st.err)) + scan_from(
                    s,
                    self.current as int,
                    self.line as nat,
                ).errs);
                assert(self.toks().take(n0) =~= pre_toks.take(n0));
                assert(lox.diags().take(d0) =~= pre_diags.take(d0));
            }
        }
        let ghost pre_toks = self.toks();
        let ghost pre_cur = self.current as int;
        let ghost pre_line = self.line as nat;
        let line = self.line;
        self.tokens.push(Token::new(TokenType::Eof, String::new(), line));
        proof {
            broadcast use vstd::seq_lib::group_seq_properties;

            assert(self.toks() =~= pre_toks + seq![eof_token(pre_line)]);
            assert(self.toks().skip(n0) =~= pre_toks.skip(n0) + seq![eof_token(pre_line)]);
            assert(scan_from(s, pre_cur, pre_line).toks =~= seq![eof_token(pre_line)]);
            assert(scan_from(s, c0, l0).toks =~= self.toks().skip(n0));
            assert(scan_from(s, c0, l0).errs =~= lox.diags().skip(d0));
            assert(self.toks() =~= self.toks().take(n0) + self.toks().skip(n0));
            assert(lox.diags() =~= lox.diags().take(d0) + lox.diags().skip(d0));
        }
    }
}

} // verus!
