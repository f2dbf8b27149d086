//! The scanner: a single pass over source text that produces tokens or
//! lexical errors on demand, with one- and two-character lookahead and exact
//! row/column bookkeeping.

use vstd::prelude::*;
use vstd::string::StrSliceExecFns;

use crate::error::{LexicalError, LexicalErrorView};
use crate::number::{pow10, Number};
use crate::text::str_content_eq;
use crate::token::{
    Keyword, Literal, Operator, Structure, Token, TokenKind, TokenKindView, TokenMeta, TokenView,
};

verus! {

/// Names the result of `char::is_alphanumeric`: whether the character has an
/// alphabetic or numeric general category. The result depends on the
/// character alone.
pub uninterp spec fn unicode_alphanumeric(c: char) -> bool;

/// Relies on `char::is_alphanumeric` for identifier continuation beyond
/// ASCII.
#[verifier::external_body]
fn is_alphanumeric_char(c: char) -> (r: bool)
    ensures
        r == unicode_alphanumeric(c),
{
    c.is_alphanumeric()
}

/// A decimal digit.
pub open spec fn is_digit_char(c: char) -> bool {
    ('0' as u32) <= (c as u32) <= ('9' as u32)
}

/// A character that may start an identifier: an ASCII letter or underscore.
pub open spec fn is_ident_start(c: char) -> bool {
    ||| ('a' as u32) <= (c as u32) <= ('z' as u32)
    ||| ('A' as u32) <= (c as u32) <= ('Z' as u32)
    ||| c == '_'
}

/// How consuming one character moves the 1-based row and column.
pub open spec fn pos_step(c: char, row: int, col: int) -> (int, int) {
    if c == '\n' {
        (row + 1, 1)
    } else {
        (row, col + 1)
    }
}

/// The row and column after consuming the characters `s[i..j]` starting from
/// `(row, col)`.
pub open spec fn pos_after(s: Seq<char>, i: int, j: int, row: int, col: int) -> (int, int)
    decreases j - i,
{
    if i < j && 0 <= i < s.len() {
        let rc = pos_step(s[i], row, col);
        pos_after(s, i + 1, j, rc.0, rc.1)
    } else {
        (row, col)
    }
}

/// Extending the consumed range by one character on the right applies one
/// more step.
proof fn lemma_pos_after_snoc(s: Seq<char>, i: int, j: int, row: int, col: int)
    requires
        0 <= i <= j < s.len(),
    ensures
        pos_after(s, i, j + 1, row, col) == pos_step(
            s[j],
            pos_after(s, i, j, row, col).0,
            pos_after(s, i, j, row, col).1,
        ),
    decreases j - i,
{
    let rc = pos_step(s[i], row, col);
    if i < j {
        lemma_pos_after_snoc(s, i + 1, j, rc.0, rc.1);
    } else {
        assert(pos_after(s, i, j, row, col) == (row, col));
        assert(pos_after(s, i + 1, j + 1, rc.0, rc.1) == (rc.0, rc.1));
    }
}

/// The index of the next newline at or after `i`, or the end of input.
pub open spec fn line_end(s: Seq<char>, i: int) -> int
    decreases s.len() - i,
{
    if 0 <= i < s.len() {
        if s[i] == '\n' {
            i
        } else {
            line_end(s, i + 1)
        }
    } else {
        s.len() as int
    }
}

proof fn lemma_line_end_bounds(s: Seq<char>, i: int)
    requires
        0 <= i <= s.len(),
    ensures
        i <= line_end(s, i) <= s.len(),
    decreases s.len() - i,
{
    if i < s.len() && s[i] != '\n' {
        lemma_line_end_bounds(s, i + 1);
    }
}

/// The index of the first non-digit at or after `i`, or the end of input.
pub open spec fn digits_end(s: Seq<char>, i: int) -> int
    decreases s.len() - i,
{
    if 0 <= i < s.len() {
        if is_digit_char(s[i]) {
            digits_end(s, i + 1)
        } else {
            i
        }
    } else {
        if i < 0 {
            i
        } else {
            s.len() as int
        }
    }
}

proof fn lemma_digits_end_bounds(s: Seq<char>, i: int)
    requires
        0 <= i <= s.len(),
    ensures
        i <= digits_end(s, i) <= s.len(),
    decreases s.len() - i,
{
    if i < s.len() && is_digit_char(s[i]) {
        lemma_digits_end_bounds(s, i + 1);
    }
}

/// The index of the first character at or after `i` that does not continue
/// an identifier, or the end of input.
pub open spec fn ident_end(s: Seq<char>, i: int) -> int
    decreases s.len() - i,
{
    if 0 <= i < s.len() {
        if unicode_alphanumeric(s[i]) {
            ident_end(s, i + 1)
        } else {
            i
        }
    } else {
        if i < 0 {
            i
        } else {
            s.len() as int
        }
    }
}

proof fn lemma_ident_end_bounds(s: Seq<char>, i: int)
    requires
        0 <= i <= s.len(),
    ensures
        i <= ident_end(s, i) <= s.len(),
    decreases s.len() - i,
{
    if i < s.len() && unicode_alphanumeric(s[i]) {
        lemma_ident_end_bounds(s, i + 1);
    }
}

/// The index of the next `"` at or after `i`, or the end of input when the
/// string is unterminated.
pub open spec fn string_end(s: Seq<char>, i: int) -> int
    decreases s.len() - i,
{
    if 0 <= i < s.len() {
        if s[i] == '"' {
            i
        } else {
            string_end(s, i + 1)
        }
    } else {
        if i < 0 {
            i
        } else {
            s.len() as int
        }
    }
}

proof fn lemma_string_end_bounds(s: Seq<char>, i: int)
    requires
        0 <= i <= s.len(),
    ensures
        i <= string_end(s, i) <= s.len(),
        string_end(s, i) < s.len() ==> s[string_end(s, i)] == '"',
    decreases s.len() - i,
{
    if i < s.len() && s[i] != '"' {
        lemma_string_end_bounds(s, i + 1);
    }
}

/// The value of the decimal digit `c`.
pub open spec fn digit_val(c: char) -> nat {
    if is_digit_char(c) {
        (c as u32 - '0' as u32) as nat
    } else {
        0
    }
}

/// The value of the decimal digits `s[i..j]` read as one numeral.
pub open spec fn digits_val(s: Seq<char>, i: int, j: int) -> nat
    decreases j - i,
{
    if i < j {
        digits_val(s, i, j - 1) * 10 + digit_val(s[j - 1])
    } else {
        0
    }
}

/// The classification of a scanned word: the word operators, the literal
/// spellings, the reserved keywords, and otherwise an identifier.
pub open spec fn word_kind(w: Seq<char>) -> TokenKindView {
    if w == "and"@ {
        TokenKindView::Operator(Operator::And)
    } else if w == "or"@ {
        TokenKindView::Operator(Operator::Or)
    } else if w == "true"@ {
        TokenKindView::Literal(Literal::True)
    } else if w == "false"@ {
        TokenKindView::Literal(Literal::False)
    } else if w == "nil"@ {
        TokenKindView::Literal(Literal::Nil)
    } else if w == "class"@ {
        TokenKindView::Keyword(Keyword::Class)
    } else if w == "else"@ {
        TokenKindView::Keyword(Keyword::Else)
    } else if w == "fun"@ {
        TokenKindView::Keyword(Keyword::Fun)
    } else if w == "for"@ {
        TokenKindView::Keyword(Keyword::For)
    } else if w == "if"@ {
        TokenKindView::Keyword(Keyword::If)
    } else if w == "print"@ {
        TokenKindView::Keyword(Keyword::Print)
    } else if w == "return"@ {
        TokenKindView::Keyword(Keyword::Return)
    } else if w == "super"@ {
        TokenKindView::Keyword(Keyword::Super)
    } else if w == "this"@ {
        TokenKindView::Keyword(Keyword::This)
    } else if w == "var"@ {
        TokenKindView::Keyword(Keyword::Var)
    } else if w == "while"@ {
        TokenKindView::Keyword(Keyword::While)
    } else {
        TokenKindView::Identifier(w)
    }
}

/// One step of the scanner: the end of input, a skipped stretch of
/// whitespace or comment, or an emitted token or error, each with the cursor
/// state it leaves behind.
pub enum ScanStep {
    Finished,
    Skipped(int, int, int),
    Emitted(Result<TokenView, LexicalErrorView>, int, int, int),
}

/// A fixed token of `width` characters (never a newline) starting at `i`.
pub open spec fn fixed_step(kind: TokenKindView, i: int, row: int, col: int, width: int) -> ScanStep {
    ScanStep::Emitted(
        Ok(TokenView { kind, row, col }),
        i + width,
        row,
        col + width,
    )
}

/// Scanning a string literal whose opening quote sits at `i`: the contents
/// up to the next quote, or an unterminated-string error carrying the
/// opening quote's position.
pub open spec fn string_step(s: Seq<char>, i: int, row: int, col: int) -> ScanStep {
    let close = string_end(s, i + 1);
    if close < s.len() {
        let rc = pos_after(s, i, close + 1, row, col);
        ScanStep::Emitted(
            Ok(TokenView { kind: TokenKindView::String(s.subrange(i + 1, close)), row, col }),
            close + 1,
            rc.0,
            rc.1,
        )
    } else {
        let rc = pos_after(s, i, s.len() as int, row, col);
        ScanStep::Emitted(
            Err(LexicalErrorView::UnterminatedString(row, col)),
            s.len() as int,
            rc.0,
            rc.1,
        )
    }
}

/// Scanning a number whose first digit sits at `i`: an integer part, an
/// optional fraction introduced by a dot that is followed by a digit, and a
/// number-parse error when the exact value does not fit the representation.
pub open spec fn number_step(s: Seq<char>, i: int, row: int, col: int) -> ScanStep {
    let ip_end = digits_end(s, i);
    let has_frac = ip_end + 1 < s.len() && s[ip_end] == '.' && is_digit_char(s[ip_end + 1]);
    let end = if has_frac {
        digits_end(s, ip_end + 1)
    } else {
        ip_end
    };
    let scale = if has_frac {
        (end - (ip_end + 1)) as nat
    } else {
        0
    };
    let mantissa = digits_val(s, i, ip_end) * pow10(scale) + (if has_frac {
        digits_val(s, ip_end + 1, end)
    } else {
        0
    });
    if mantissa <= i64::MAX as nat && pow10(scale) <= u64::MAX as nat {
        ScanStep::Emitted(
            Ok(
                TokenView {
                    kind: TokenKindView::Number(
                        Number { num: mantissa as i64, den: pow10(scale) as u64 },
                    ),
                    row,
                    col,
                },
            ),
            end,
            row,
            col + (end - i),
        )
    } else {
        ScanStep::Emitted(
            Err(LexicalErrorView::ParseNumberError(row, col)),
            end,
            row,
            col + (end - i),
        )
    }
}

/// Scanning a word whose first character sits at `i`: it extends over every
/// following alphanumeric character and is classified by its spelling.
pub open spec fn word_step(s: Seq<char>, i: int, row: int, col: int) -> ScanStep {
    let end = ident_end(s, i + 1);
    let rc = pos_after(s, i, end, row, col);
    ScanStep::Emitted(
        Ok(TokenView { kind: word_kind(s.subrange(i, end)), row, col }),
        end,
        rc.0,
        rc.1,
    )
}

/// One full scanner step from cursor `(i, row, col)`.
pub open spec fn scan_step(s: Seq<char>, i: int, row: int, col: int) -> ScanStep {
    if !(0 <= i < s.len()) {
        ScanStep::Finished
    } else {
        let c = s[i];
        if c == '(' {
            fixed_step(TokenKindView::Structure(Structure::LeftParen), i, row, col, 1)
        } else if c == ')' {
            fixed_step(TokenKindView::Structure(Structure::RightParen), i, row, col, 1)
        } else if c == '{' {
            fixed_step(TokenKindView::Structure(Structure::LeftBrace), i, row, col, 1)
        } else if c == '}' {
            fixed_step(TokenKindView::Structure(Structure::RightBrace), i, row, col, 1)
        } else if c == ',' {
            fixed_step(TokenKindView::Structure(Structure::Comma), i, row, col, 1)
        } else if c == '.' {
            fixed_step(TokenKindView::Structure(Structure::Dot), i, row, col, 1)
        } else if c == ';' {
            fixed_step(TokenKindView::Structure(Structure::SemiColon), i, row, col, 1)
        } else if c == '-' {
            fixed_step(TokenKindView::Operator(Operator::Minus), i, row, col, 1)
        } else if c == '+' {
            fixed_step(TokenKindView::Operator(Operator::Plus), i, row, col, 1)
        } else if c == '*' {
            fixed_step(TokenKindView::Operator(Operator::Star), i, row, col, 1)
        } else if c == '!' {
            if i + 1 < s.len() && s[i + 1] == '=' {
                fixed_step(TokenKindView::Operator(Operator::BangEqual), i, row, col, 2)
            } else {
                fixed_step(TokenKindView::Operator(Operator::Bang), i, row, col, 1)
            }
        } else if c == '=' {
            if i + 1 < s.len() && s[i + 1] == '=' {
                fixed_step(TokenKindView::Operator(Operator::EqualEqual), i, row, col, 2)
            } else {
                fixed_step(TokenKindView::Operator(Operator::Equal), i, row, col, 1)
            }
        } else if c == '<' {
            if i + 1 < s.len() && s[i + 1] == '=' {
                fixed_step(TokenKindView::Operator(Operator::LessEqual), i, row, col, 2)
            } else {
                fixed_step(TokenKindView::Operator(Operator::Less), i, row, col, 1)
            }
        } else if c == '>' {
            if i + 1 < s.len() && s[i + 1] == '=' {
                fixed_step(TokenKindView::Operator(Operator::GreaterEqual), i, row, col, 2)
            } else {
                fixed_step(TokenKindView::Operator(Operator::Greater), i, row, col, 1)
            }
        } else if c == '/' {
            if i + 1 < s.len() && s[i + 1] == '/' {
                let close = line_end(s, i + 2);
                ScanStep::Skipped(close, row, col + (close - i))
            } else {
                fixed_step(TokenKindView::Operator(Operator::Slash), i, row, col, 1)
            }
        } else if c == ' ' || c == '\r' || c == '\t' {
            ScanStep::Skipped(i + 1, row, col + 1)
        } else if c == '\n' {
            ScanStep::Skipped(i + 1, row + 1, 1)
        } else if c == '"' {
            string_step(s, i, row, col)
        } else if is_digit_char(c) {
            number_step(s, i, row, col)
        } else if is_ident_start(c) {
            word_step(s, i, row, col)
        } else {
            let rc = pos_step(c, row, col);
            ScanStep::Emitted(
                Err(LexicalErrorView::UnexpectedChar(c, row, col)),
                i + 1,
                rc.0,
                rc.1,
            )
        }
    }
}

/// Every step from a valid cursor either finishes at the end of input or
/// moves the cursor strictly forward, staying in bounds.
pub proof fn lemma_scan_step_progress(s: Seq<char>, i: int, row: int, col: int)
    requires
        0 <= i <= s.len(),
    ensures
        scan_step(s, i, row, col) is Finished ==> i == s.len(),
        scan_step(s, i, row, col) matches ScanStep::Skipped(i2, r2, c2) ==> i < i2 <= s.len(),
        scan_step(s, i, row, col) matches ScanStep::Emitted(_, i2, r2, c2) ==> i < i2 <= s.len(),
{
    if i < s.len() {
        let c = s[i];
        if c == '/' && i + 1 < s.len() && s[i + 1] == '/' {
            lemma_line_end_bounds(s, i + 2);
        } else if c == '"' {
            lemma_string_end_bounds(s, i + 1);
        } else if is_digit_char(c) {
            lemma_digits_end_bounds(s, i);
            let ip_end = digits_end(s, i);
            assert(digits_end(s, i) == digits_end(s, i + 1));
            lemma_digits_end_bounds(s, i + 1);
            if ip_end + 1 < s.len() && s[ip_end] == '.' && is_digit_char(s[ip_end + 1]) {
                lemma_digits_end_bounds(s, ip_end + 1);
                assert(digits_end(s, ip_end + 1) == digits_end(s, ip_end + 2));
                lemma_digits_end_bounds(s, ip_end + 2);
            }
        } else if is_ident_start(c) {
            lemma_ident_end_bounds(s, i + 1);
        }
    }
}

/// The sequence of tokens and errors the scanner produces from cursor
/// `(i, row, col)` to the end of input.
pub open spec fn scan_items(s: Seq<char>, i: int, row: int, col: int) -> Seq<
    Result<TokenView, LexicalErrorView>,
>
    decreases s.len() - i,
{
    match scan_step(s, i, row, col) {
        ScanStep::Finished => Seq::empty(),
        ScanStep::Skipped(i2, r2, c2) => if i < i2 <= s.len() {
            scan_items(s, i2, r2, c2)
        } else {
            Seq::empty()
        },
        ScanStep::Emitted(item, i2, r2, c2) => seq![item] + (if i < i2 <= s.len() {
            scan_items(s, i2, r2, c2)
        } else {
            Seq::empty()
        }),
    }
}

/// Position order: `(r1, c1)` does not come after `(r2, c2)` in the source.
pub open spec fn pos_le(r1: int, c1: int, r2: int, c2: int) -> bool {
    r1 < r2 || (r1 == r2 && c1 <= c2)
}

/// Every token in the item sequence carries a position no earlier than any
/// token before it.
pub open spec fn token_positions_ordered(
    items: Seq<Result<TokenView, LexicalErrorView>>,
) -> bool {
    forall|k1: int, k2: int|
        0 <= k1 < k2 < items.len() && items[k1] is Ok && items[k2] is Ok ==> pos_le(
            items[k1]->Ok_0.row,
            items[k1]->Ok_0.col,
            items[k2]->Ok_0.row,
            items[k2]->Ok_0.col,
        )
}

/// Every token in the item sequence carries a position no earlier than
/// `(row, col)`.
pub open spec fn tokens_at_or_after(
    items: Seq<Result<TokenView, LexicalErrorView>>,
    row: int,
    col: int,
) -> bool {
    forall|k: int|
        0 <= k < items.len() && items[k] is Ok ==> pos_le(
            row,
            col,
            items[k]->Ok_0.row,
            items[k]->Ok_0.col,
        )
}

/// Consuming characters never moves the cursor backwards.
proof fn lemma_pos_after_monotone(s: Seq<char>, i: int, j: int, row: int, col: int)
    ensures
        pos_le(row, col, pos_after(s, i, j, row, col).0, pos_after(s, i, j, row, col).1),
    decreases j - i,
{
    if i < j && 0 <= i < s.len() {
        let rc = pos_step(s[i], row, col);
        lemma_pos_after_monotone(s, i + 1, j, rc.0, rc.1);
    }
}

/// One scanner step stamps any emitted token with the cursor position it
/// started from, and leaves the cursor no earlier than it was.
proof fn lemma_scan_step_positions(s: Seq<char>, i: int, row: int, col: int)
    requires
        0 <= i <= s.len(),
    ensures
        scan_step(s, i, row, col) matches ScanStep::Skipped(i2, r2, c2) ==> pos_le(
            row,
            col,
            r2,
            c2,
        ),
        scan_step(s, i, row, col) matches ScanStep::Emitted(item, i2, r2, c2) ==> pos_le(
            row,
            col,
            r2,
            c2,
        ) && (item matches Ok(t) ==> t.row == row && t.col == col),
{
    if i < s.len() {
        let c = s[i];
        if c == '/' && i + 1 < s.len() && s[i + 1] == '/' {
            lemma_line_end_bounds(s, i + 2);
        } else if c == '"' {
            lemma_string_end_bounds(s, i + 1);
            let close = string_end(s, i + 1);
            if close < s.len() {
                lemma_pos_after_monotone(s, i, close + 1, row, col);
            } else {
                lemma_pos_after_monotone(s, i, s.len() as int, row, col);
            }
        } else if is_digit_char(c) {
            lemma_scan_step_progress(s, i, row, col);
        } else if is_ident_start(c) {
            lemma_pos_after_monotone(s, i, ident_end(s, i + 1), row, col);
        }
    }
}

/// The invariant of the token stream: positions are stamped at the lexeme
/// start and never decrease across the sequence, so every token's row and
/// column come at or after those of every earlier token.
pub proof fn lemma_token_positions_monotone(s: Seq<char>, i: int, row: int, col: int)
    requires
        0 <= i <= s.len(),
    ensures
        token_positions_ordered(scan_items(s, i, row, col)),
        tokens_at_or_after(scan_items(s, i, row, col), row, col),
    decreases s.len() - i,
{
    lemma_scan_step_progress(s, i, row, col);
    lemma_scan_step_positions(s, i, row, col);
    let items = scan_items(s, i, row, col);
    match scan_step(s, i, row, col) {
        ScanStep::Finished => {},
        ScanStep::Skipped(i2, r2, c2) => {
            lemma_token_positions_monotone(s, i2, r2, c2);
        },
        ScanStep::Emitted(item, i2, r2, c2) => {
            lemma_token_positions_monotone(s, i2, r2, c2);
            let rest = scan_items(s, i2, r2, c2);
            assert(items == seq![item] + rest);
            assert forall|k: int| 0 <= k < items.len() && items[k] is Ok implies pos_le(
                row,
                col,
                items[k]->Ok_0.row,
                items[k]->Ok_0.col,
            ) by {
                if k > 0 {
                    assert(items[k] == rest[k - 1]);
                }
            }
            assert forall|k1: int, k2: int|
                0 <= k1 < k2 < items.len() && items[k1] is Ok && items[k2] is Ok implies pos_le(
                items[k1]->Ok_0.row,
                items[k1]->Ok_0.col,
                items[k2]->Ok_0.row,
                items[k2]->Ok_0.col,
            ) by {
                assert(items[k2] == rest[k2 - 1]);
                if k1 > 0 {
                    assert(items[k1] == rest[k1 - 1]);
                }
            }
        },
    }
}

/// A decimal digit, as executable code.
fn is_digit(c: char) -> (r: bool)
    ensures
        r == is_digit_char(c),
{
    let u = c as u32;
    u >= '0' as u32 && u <= '9' as u32
}

/// A character that may start an identifier, as executable code.
fn is_ident_start_char(c: char) -> (r: bool)
    ensures
        r == is_ident_start(c),
{
    let u = c as u32;
    (u >= 'a' as u32 && u <= 'z' as u32) || (u >= 'A' as u32 && u <= 'Z' as u32) || c == '_'
}

/// Classifies a scanned word by its spelling.
fn word_token_kind<'b>(w: &'b str) -> (k: TokenKind<'b>)
    ensures
        k@ == word_kind(w@),
{
    if str_content_eq(w, "and") {
        TokenKind::Operator(Operator::And)
    } else if str_content_eq(w, "or") {
        TokenKind::Operator(Operator::Or)
    } else if str_content_eq(w, "true") {
        TokenKind::Literal(Literal::True)
    } else if str_content_eq(w, "false") {
        TokenKind::Literal(Literal::False)
    } else if str_content_eq(w, "nil") {
        TokenKind::Literal(Literal::Nil)
    } else if str_content_eq(w, "class") {
        TokenKind::Keyword(Keyword::Class)
    } else if str_content_eq(w, "else") {
        TokenKind::Keyword(Keyword::Else)
    } else if str_content_eq(w, "fun") {
        TokenKind::Keyword(Keyword::Fun)
    } else if str_content_eq(w, "for") {
        TokenKind::Keyword(Keyword::For)
    } else if str_content_eq(w, "if") {
        TokenKind::Keyword(Keyword::If)
    } else if str_content_eq(w, "print") {
        TokenKind::Keyword(Keyword::Print)
    } else if str_content_eq(w, "return") {
        TokenKind::Keyword(Keyword::Return)
    } else if str_content_eq(w, "super") {
        TokenKind::Keyword(Keyword::Super)
    } else if str_content_eq(w, "this") {
        TokenKind::Keyword(Keyword::This)
    } else if str_content_eq(w, "var") {
        TokenKind::Keyword(Keyword::Var)
    } else if str_content_eq(w, "while") {
        TokenKind::Keyword(Keyword::While)
    } else {
        TokenKind::Identifier(w)
    }
}

/// The images of a sequence of produced items.
pub open spec fn items_of<'a>(v: Seq<Result<Token<'a>, LexicalError>>) -> Seq<
    Result<TokenView, LexicalErrorView>,
> {
    v.map_values(|x: Result<Token<'a>, LexicalError>| item_view(x))
}

/// The image of one produced item.
pub open spec fn item_view<'a>(r: Result<Token<'a>, LexicalError>) -> Result<
    TokenView,
    LexicalErrorView,
> {
    match r {
        Ok(t) => Ok(t@),
        Err(e) => Err(e@),
    }
}

/// A cursor into the source: a character index with its 1-based row and
/// column.
#[derive(Debug, Clone, Copy)]
pub(crate) struct Pos {
    pub(crate) index: usize,
    pub(crate) row: usize,
    pub(crate) col: usize,
}

/// The scanner: the source text, the start of the lexeme being scanned, and
/// the current cursor.
pub struct Scanner<'a> {
    pub(crate) source: &'a str,
    pub(crate) start: Pos,
    pub(crate) current: Pos,
}

impl<'a> Scanner<'a> {
    /// The characters of the source text.
    pub closed spec fn src(self) -> Seq<char> {
        self.source@
    }

    /// The cursor is in bounds and the row/column stay small enough that
    /// advancing them cannot overflow.
    pub closed spec fn wf(self) -> bool {
        &&& self.source@.len() < usize::MAX
        &&& self.current.index <= self.source@.len()
        &&& 1 <= self.current.row <= self.current.index + 1
        &&& 1 <= self.current.col <= self.current.index + 1
        &&& self.start.index <= self.source@.len()
    }

    /// The items still to come from the current cursor.
    pub closed spec fn items(self) -> Seq<Result<TokenView, LexicalErrorView>> {
        scan_items(
            self.source@,
            self.current.index as int,
            self.current.row as int,
            self.current.col as int,
        )
    }

    /// Builds a scanner at the start of `source`.
    pub fn new(source: &'a str) -> (r: Scanner<'a>)
        requires
            source@.len() < usize::MAX,
        ensures
            r.wf(),
            r.src() == source@,
            r.items() == scan_items(source@, 0, 1, 1),
    {
        Scanner {
            source,
            start: Pos { index: 0, row: 1, col: 1 },
            current: Pos { index: 0, row: 1, col: 1 },
        }
    }

    /// Consumes and returns the next character, keeping row and column in
    /// step.
    fn advance(&mut self) -> (r: Option<char>)
        requires
            old(self).wf(),
        ensures
            final(self).wf(),
            final(self).source == old(self).source,
            final(self).start == old(self).start,
            match r {
                None => {
                    &&& old(self).current.index == old(self).source@.len()
                    &&& final(self).current == old(self).current
                },
                Some(c) => {
                    &&& old(self).current.index < old(self).source@.len()
                    &&& c == old(self).source@[old(self).current.index as int]
                    &&& final(self).current.index == old(self).current.index + 1
                    &&& (final(self).current.row as int, final(self).current.col as int) == pos_step(
                        c,
                        old(self).current.row as int,
                        old(self).current.col as int,
                    )
                },
            },
    {
        let len: usize = self.source.unicode_len();
        if self.current.index >= len {
            return None;
        }
        let c = self.source.get_char(self.current.index);
        self.current.index += 1;
        if c == '\n' {
            self.current.row += 1;
            self.current.col = 1;
        } else {
            self.current.col += 1;
        }
        Some(c)
    }

    /// Marks the start of a fresh lexeme at the current cursor, then
    /// consumes one character.
    fn restart(&mut self) -> (r: Option<char>)
        requires
            old(self).wf(),
        ensures
            final(self).wf(),
            final(self).source == old(self).source,
            final(self).start == old(self).current,
            match r {
                None => {
                    &&& old(self).current.index == old(self).source@.len()
                    &&& final(self).current == old(self).current
                },
                Some(c) => {
                    &&& old(self).current.index < old(self).source@.len()
                    &&& c == old(self).source@[old(self).current.index as int]
                    &&& final(self).current.index == old(self).current.index + 1
                    &&& (final(self).current.row as int, final(self).current.col as int) == pos_step(
                        c,
                        old(self).current.row as int,
                        old(self).current.col as int,
                    )
                },
            },
    {
        self.start = self.current;
        self.advance()
    }

    /// The characters from the current cursor to the end of input.
    pub(crate) fn rest(&self) -> (r: &'a str)
        requires
            self.wf(),
        ensures
            r@ == self.source@.subrange(self.current.index as int, self.source@.len() as int),
    {
        let len: usize = self.source.unicode_len();
        self.source.substring_char(self.current.index, len)
    }

    /// Consumes the next character when it equals `expected`.
    fn matches(&mut self, expected: char) -> (r: bool)
        requires
            old(self).wf(),
        ensures
            final(self).wf(),
            final(self).source == old(self).source,
            final(self).start == old(self).start,
            r == (old(self).current.index < old(self).source@.len() && old(self).source@[old(
                self,
            ).current.index as int] == expected),
            r ==> {
                &&& final(self).current.index == old(self).current.index + 1
                &&& (final(self).current.row as int, final(self).current.col as int) == pos_step(
                    expected,
                    old(self).current.row as int,
                    old(self).current.col as int,
                )
            },
            !r ==> final(self).current == old(self).current,
    {
        match self.look_ahead() {
            Some(c) => {
                if c == expected {
                    self.advance();
                    true
                } else {
                    false
                }
            },
            None => false,
        }
    }

    /// The next character, without consuming it.
    fn look_ahead(&mut self) -> (r: Option<char>)
        requires
            old(self).wf(),
        ensures
            *final(self) == *old(self),
            match r {
                None => old(self).current.index == old(self).source@.len(),
                Some(c) => old(self).current.index < old(self).source@.len() && c
                    == old(self).source@[old(self).current.index as int],
            },
    {
        let len: usize = self.source.unicode_len();
        if self.current.index >= len {
            None
        } else {
            Some(self.source.get_char(self.current.index))
        }
    }

    /// The character `n` places past the current cursor, without consuming
    /// anything.
    fn look_ahead_nth(&mut self, n: usize) -> (r: Option<char>)
        requires
            old(self).wf(),
        ensures
            *final(self) == *old(self),
            match r {
                None => old(self).current.index + n >= old(self).source@.len(),
                Some(c) => old(self).current.index + n < old(self).source@.len() && c
                    == old(self).source@[old(self).current.index as int + n],
            },
    {
        let len: usize = self.source.unicode_len();
        if n >= len - self.current.index {
            None
        } else {
            Some(self.source.get_char(self.current.index + n))
        }
    }

    /// Scans one token or lexical error, or reports the end of input.
    ///
    /// Whitespace and `//` line comments are skipped without emitting
    /// anything.
    #[verifier::rlimit(50)]
    pub fn scan_token(&mut self) -> (r: Option<Result<Token<'a>, LexicalError>>)
        requires
            old(self).wf(),
        ensures
            final(self).wf(),
            final(self).src() == old(self).src(),
            match r {
                None => old(self).items() == final(self).items() && old(self).items().len() == 0,
                Some(item) => old(self).items() == seq![item_view(item)] + final(self).items(),
            },
    {
        self.start = self.current;
        let mut c = match self.advance() {
            Some(ch) => ch,
            None => {
                return None;
            },
        };
        loop
            invariant
                self.wf(),
                self.source == old(self).source,
                self.start.index < self.source@.len(),
                self.current.index == self.start.index + 1,
                c == self.source@[self.start.index as int],
                1 <= self.start.row <= self.start.index + 1,
                1 <= self.start.col <= self.start.index + 1,
                (self.current.row as int, self.current.col as int) == pos_step(
                    c,
                    self.start.row as int,
                    self.start.col as int,
                ),
                scan_items(
                    self.source@,
                    self.start.index as int,
                    self.start.row as int,
                    self.start.col as int,
                ) == old(self).items(),
            decreases self.source@.len() - self.start.index,
        {
            let ghost s = self.source@;
            let ghost i0 = self.start.index as int;
            let ghost r0 = self.start.row as int;
            let ghost c0 = self.start.col as int;
            proof {
                lemma_scan_step_progress(s, i0, r0, c0);
            }
            match c {
                '(' => {
                    return Some(Ok(self.fixed_token(TokenKind::Structure(Structure::LeftParen))));
                },
                ')' => {
                    return Some(Ok(self.fixed_token(TokenKind::Structure(Structure::RightParen))));
                },
                '{' => {
                    return Some(Ok(self.fixed_token(TokenKind::Structure(Structure::LeftBrace))));
                },
                '}' => {
                    return Some(Ok(self.fixed_token(TokenKind::Structure(Structure::RightBrace))));
                },
                ',' => {
                    return Some(Ok(self.fixed_token(TokenKind::Structure(Structure::Comma))));
                },
                '.' => {
                    return Some(Ok(self.fixed_token(TokenKind::Structure(Structure::Dot))));
                },
                ';' => {
                    return Some(Ok(self.fixed_token(TokenKind::Structure(Structure::SemiColon))));
                },
                '-' => {
                    return Some(Ok(self.fixed_token(TokenKind::Operator(Operator::Minus))));
                },
                '+' => {
                    return Some(Ok(self.fixed_token(TokenKind::Operator(Operator::Plus))));
                },
                '*' => {
                    return Some(Ok(self.fixed_token(TokenKind::Operator(Operator::Star))));
                },
                '!' => {
                    let kind = if self.matches('=') {
                        TokenKind::Operator(Operator::BangEqual)
                    } else {
                        TokenKind::Operator(Operator::Bang)
                    };
                    return Some(Ok(self.fixed_token(kind)));
                },
                '=' => {
                    let kind = if self.matches('=') {
                        TokenKind::Operator(Operator::EqualEqual)
                    } else {
                        TokenKind::Operator(Operator::Equal)
                    };
                    return Some(Ok(self.fixed_token(kind)));
                },
                '<' => {
                    let kind = if self.matches('=') {
                        TokenKind::Operator(Operator::LessEqual)
                    } else {
                        TokenKind::Operator(Operator::Less)
                    };
                    return Some(Ok(self.fixed_token(kind)));
                },
                '>' => {
                    let kind = if self.matches('=') {
                        TokenKind::Operator(Operator::GreaterEqual)
                    } else {
                        TokenKind::Operator(Operator::Greater)
                    };
                    return Some(Ok(self.fixed_token(kind)));
                },
                '/' => {
                    if self.matches('/') {
                        loop
                            invariant_except_break
                                self.wf(),
                                self.source == old(self).source,
                                self.source@ == s,
                                self.start.index as int == i0,
                                self.start.row as int == r0,
                                self.start.col as int == c0,
                                i0 + 1 < s.len(),
                                s[i0] == '/',
                                s[i0 + 1] == '/',
                                scan_items(s, i0, r0, c0) == old(self).items(),
                                i0 + 2 <= self.current.index <= s.len(),
                                self.current.row as int == r0,
                                self.current.col as int == c0 + (self.current.index - i0),
                                line_end(s, i0 + 2) == line_end(s, self.current.index as int),
                            ensures
                                self.wf(),
                                self.source == old(self).source,
                                self.source@ == s,
                                self.start.index as int == i0,
                                self.start.row as int == r0,
                                self.start.col as int == c0,
                                i0 + 2 <= self.current.index < s.len(),
                                s[self.current.index as int] == '\n',
                                self.current.row as int == r0,
                                self.current.col as int == c0 + (self.current.index - i0),
                                line_end(s, i0 + 2) == self.current.index as int,
                            decreases self.source@.len() - self.current.index,
                        {
                            match self.look_ahead() {
                                None => {
                                    proof {
                                        assert(line_end(s, self.current.index as int) == s.len());
                                        assert(scan_step(s, i0, r0, c0) == ScanStep::Skipped(
                                            s.len() as int,
                                            r0,
                                            c0 + (s.len() - i0),
                                        ));
                                        assert(scan_items(s, i0, r0, c0) == scan_items(
                                            s,
                                            s.len() as int,
                                            r0,
                                            c0 + (s.len() - i0),
                                        ));
                                        assert(scan_items(
                                            s,
                                            s.len() as int,
                                            r0,
                                            c0 + (s.len() - i0),
                                        ) == Seq::<Result<TokenView, LexicalErrorView>>::empty());
                                    }
                                    return None;
                                },
                                Some(ch) => {
                                    if ch == '\n' {
                                        break ;
                                    }
                                    self.advance();
                                },
                            }
                        }
                        proof {
                            assert(scan_step(s, i0, r0, c0) == ScanStep::Skipped(
                                self.current.index as int,
                                r0,
                                c0 + (self.current.index - i0),
                            ));
                            assert(scan_items(s, i0, r0, c0) == scan_items(
                                s,
                                self.current.index as int,
                                self.current.row as int,
                                self.current.col as int,
                            ));
                        }
                        c = match self.restart() {
                            Some(ch) => ch,
                            None => {
                                return None;
                            },
                        };
                    } else {
                        return Some(Ok(self.fixed_token(TokenKind::Operator(Operator::Slash))));
                    }
                },
                ' ' | '\r' | '\t' | '\n' => {
                    proof {
                        let rc = pos_step(c, r0, c0);
                        assert(scan_step(s, i0, r0, c0) == ScanStep::Skipped(i0 + 1, rc.0, rc.1));
                        assert(scan_items(s, i0, r0, c0) == scan_items(s, i0 + 1, rc.0, rc.1));
                    }
                    c = match self.restart() {
                        Some(ch) => ch,
                        None => {
                            proof {
                                assert(scan_items(
                                    s,
                                    self.current.index as int,
                                    self.current.row as int,
                                    self.current.col as int,
                                ) == Seq::<Result<TokenView, LexicalErrorView>>::empty());
                            }
                            return None;
                        },
                    };
                },
                '"' => {
                    let item = self.string();
                    return Some(item);
                },
                _ => {
                    if is_digit(c) {
                        let item = self.number();
                        return Some(item);
                    }
                    if is_ident_start_char(c) {
                        let item = self.identifier();
                        return Some(item);
                    }
                    return Some(
                        Err(LexicalError::UnexpectedChar(c, self.start.row, self.start.col)),
                    );
                },
            }
        }
    }

    /// Builds a token of the kind just scanned, stamped with the lexeme's
    /// start position.
    fn fixed_token(&self, kind: TokenKind<'a>) -> (r: Token<'a>)
        ensures
            r.kind == kind,
            r.meta.row == self.start.row,
            r.meta.col == self.start.col,
    {
        Token { kind, meta: TokenMeta { row: self.start.row, col: self.start.col } }
    }

    /// The scanner has marked a lexeme start and consumed its first
    /// character.
    spec fn lexeme_started(self) -> bool {
        &&& self.wf()
        &&& self.start.index < self.source@.len()
        &&& self.current.index == self.start.index + 1
        &&& 1 <= self.start.row <= self.start.index + 1
        &&& 1 <= self.start.col <= self.start.index + 1
        &&& (self.current.row as int, self.current.col as int) == pos_step(
            self.source@[self.start.index as int],
            self.start.row as int,
            self.start.col as int,
        )
    }

    /// Scans the rest of a string literal whose opening quote has just been
    /// consumed; fails with an unterminated-string error carrying the
    /// opening quote's position when the input ends first.
    fn string(&mut self) -> (r: Result<Token<'a>, LexicalError>)
        requires
            old(self).lexeme_started(),
            old(self).source@[old(self).start.index as int] == '"',
        ensures
            final(self).wf(),
            final(self).source == old(self).source,
            scan_step(
                old(self).source@,
                old(self).start.index as int,
                old(self).start.row as int,
                old(self).start.col as int,
            ) == ScanStep::Emitted(
                item_view(r),
                final(self).current.index as int,
                final(self).current.row as int,
                final(self).current.col as int,
            ),
    {
        let ghost s = self.source@;
        let ghost i0 = self.start.index as int;
        let ghost r0 = self.start.row as int;
        let ghost c0 = self.start.col as int;
        proof {
            let rc = pos_step(s[i0], r0, c0);
            assert(pos_after(s, i0 + 1, i0 + 1, rc.0, rc.1) == rc);
            assert(pos_after(s, i0, i0 + 1, r0, c0) == rc);
        }
        loop
            invariant_except_break
                self.wf(),
                self.source == old(self).source,
                self.source@ == s,
                self.start == old(self).start,
                i0 == self.start.index as int,
                r0 == self.start.row as int,
                c0 == self.start.col as int,
                0 <= i0 < s.len(),
                s[i0] == '"',
                i0 + 1 <= self.current.index <= s.len(),
                string_end(s, i0 + 1) == string_end(s, self.current.index as int),
                (self.current.row as int, self.current.col as int) == pos_after(
                    s,
                    i0,
                    self.current.index as int,
                    r0,
                    c0,
                ),
            ensures
                self.wf(),
                self.source == old(self).source,
                self.start == old(self).start,
                i0 == self.start.index as int,
                r0 == self.start.row as int,
                c0 == self.start.col as int,
                i0 + 1 <= self.current.index < s.len(),
                s[self.current.index as int] == '"',
                string_end(s, i0 + 1) == self.current.index as int,
                (self.current.row as int, self.current.col as int) == pos_after(
                    s,
                    i0,
                    self.current.index as int,
                    r0,
                    c0,
                ),
            decreases s.len() - self.current.index,
        {
            match self.look_ahead() {
                None => {
                    proof {
                        assert(string_end(s, self.current.index as int) == s.len());
                        assert(scan_step(s, i0, r0, c0) == ScanStep::Emitted(
                            Err(LexicalErrorView::UnterminatedString(r0, c0)),
                            s.len() as int,
                            self.current.row as int,
                            self.current.col as int,
                        ));
                    }
                    return Err(
                        LexicalError::UnterminatedString(self.start.row, self.start.col),
                    );
                },
                Some(ch) => {
                    if ch == '"' {
                        break ;
                    }
                    proof {
                        lemma_pos_after_snoc(s, i0, self.current.index as int, r0, c0);
                    }
                    self.advance();
                },
            }
        }
        proof {
            lemma_pos_after_snoc(s, i0, self.current.index as int, r0, c0);
        }
        self.advance();
        let t = self.source.substring_char(self.start.index + 1, self.current.index - 1);
        Ok(
            Token {
                kind: TokenKind::String(t),
                meta: TokenMeta { row: self.start.row, col: self.start.col },
            },
        )
    }

    /// Scans the rest of a number whose first digit has just been consumed:
    /// an integer part and an optional fraction introduced by a dot that is
    /// followed by a digit. Fails with a number-parse error when the exact
    /// value does not fit the representation.
    fn number(&mut self) -> (r: Result<Token<'a>, LexicalError>)
        requires
            old(self).lexeme_started(),
            is_digit_char(old(self).source@[old(self).start.index as int]),
        ensures
            final(self).wf(),
            final(self).source == old(self).source,
            scan_step(
                old(self).source@,
                old(self).start.index as int,
                old(self).start.row as int,
                old(self).start.col as int,
            ) == ScanStep::Emitted(
                item_view(r),
                final(self).current.index as int,
                final(self).current.row as int,
                final(self).current.col as int,
            ),
    {
        let ghost s = self.source@;
        let ghost i0 = self.start.index as int;
        let ghost r0 = self.start.row as int;
        let ghost c0 = self.start.col as int;
        let limit: u64 = 0x7fff_ffff_ffff_ffff;
        let d0 = self.source.get_char(self.start.index);
        let mut acc: u64 = (d0 as u32 - '0' as u32) as u64;
        let mut over: bool = false;
        proof {
            assert(digits_val(s, i0, i0) == 0);
            assert(digits_val(s, i0, i0 + 1) == digit_val(s[i0]));
            assert(digits_end(s, i0) == digits_end(s, i0 + 1));
        }
        loop
            invariant_except_break
                self.wf(),
                self.source == old(self).source,
                self.source@ == s,
                self.start == old(self).start,
                i0 == self.start.index as int,
                r0 == self.start.row as int,
                c0 == self.start.col as int,
                i0 + 1 <= self.current.index <= s.len(),
                digits_end(s, i0) == digits_end(s, self.current.index as int),
                self.current.row as int == r0,
                self.current.col as int == c0 + (self.current.index - i0),
                limit == i64::MAX as u64,
                !over ==> acc as nat == digits_val(s, i0, self.current.index as int) && acc
                    <= limit,
                over ==> digits_val(s, i0, self.current.index as int) > limit as nat,
            ensures
                self.wf(),
                self.source == old(self).source,
                self.source@ == s,
                self.start == old(self).start,
                i0 == self.start.index as int,
                r0 == self.start.row as int,
                c0 == self.start.col as int,
                i0 + 1 <= self.current.index <= s.len(),
                self.current.index as int == digits_end(s, i0),
                self.current.row as int == r0,
                self.current.col as int == c0 + (self.current.index - i0),
                !over ==> acc as nat == digits_val(s, i0, self.current.index as int) && acc
                    <= limit,
                over ==> digits_val(s, i0, self.current.index as int) > limit as nat,
            decreases s.len() - self.current.index,
        {
            match self.look_ahead() {
                Some(ch) => {
                    if !is_digit(ch) {
                        break ;
                    }
                    let d: u64 = (ch as u32 - '0' as u32) as u64;
                    self.advance();
                    if over {
                        proof {
                            let v = digits_val(s, i0, self.current.index - 1);
                            assert(digits_val(s, i0, self.current.index as int) == v * 10 + d);
                            assert(v * 10 >= v);
                        }
                    } else if acc > (limit - d) / 10 {
                        proof {
                            assert(acc * 10 + d > limit);
                        }
                        over = true;
                    } else {
                        proof {
                            assert(acc * 10 + d <= limit);
                        }
                        acc = acc * 10 + d;
                    }
                },
                None => {
                    break ;
                },
            }
        }
        let ghost ip_end = digits_end(s, i0);
        let ghost ip = digits_val(s, i0, ip_end);
        let mut den: u64 = 1;
        let mut den_over: bool = false;
        let mut has_frac: bool = false;
        match self.look_ahead() {
            Some(dot) => {
                if dot == '.' {
                    match self.look_ahead_nth(1) {
                        Some(d2) => {
                            if is_digit(d2) {
                                has_frac = true;
                            }
                        },
                        None => {},
                    }
                }
            },
            None => {},
        }
        if has_frac {
            self.advance();
            let ghost fr0 = self.current.index as int;
            proof {
                assert(pow10(0) == 1);
                assert(digits_val(s, fr0, fr0) == 0);
                assert(ip * pow10(0) + digits_val(s, fr0, fr0) == ip);
            }
            loop
                invariant_except_break
                    self.wf(),
                    self.source == old(self).source,
                    self.source@ == s,
                    self.start == old(self).start,
                    i0 == self.start.index as int,
                    r0 == self.start.row as int,
                    c0 == self.start.col as int,
                    ip_end == digits_end(s, i0),
                    ip == digits_val(s, i0, ip_end),
                    i0 <= ip_end,
                    fr0 == ip_end + 1,
                    ip_end + 1 < s.len(),
                    s[ip_end] == '.',
                    is_digit_char(s[ip_end + 1]),
                    fr0 <= self.current.index <= s.len(),
                    digits_end(s, fr0) == digits_end(s, self.current.index as int),
                    self.current.row as int == r0,
                    self.current.col as int == c0 + (self.current.index - i0),
                    limit == i64::MAX as u64,
                    !den_over ==> den as nat == pow10((self.current.index - fr0) as nat),
                    den_over ==> pow10((self.current.index - fr0) as nat) > u64::MAX as nat,
                    !over ==> acc as nat == ip * pow10((self.current.index - fr0) as nat)
                        + digits_val(s, fr0, self.current.index as int) && acc <= limit,
                    over ==> ip * pow10((self.current.index - fr0) as nat) + digits_val(
                        s,
                        fr0,
                        self.current.index as int,
                    ) > limit as nat,
                ensures
                    self.wf(),
                    self.source == old(self).source,
                    self.source@ == s,
                    self.start == old(self).start,
                    i0 == self.start.index as int,
                    r0 == self.start.row as int,
                    c0 == self.start.col as int,
                    ip_end == digits_end(s, i0),
                    ip == digits_val(s, i0, ip_end),
                    i0 <= ip_end,
                    fr0 == ip_end + 1,
                    ip_end + 1 < s.len(),
                    s[ip_end] == '.',
                    is_digit_char(s[ip_end + 1]),
                    fr0 <= self.current.index <= s.len(),
                    self.current.index as int == digits_end(s, fr0),
                    self.current.row as int == r0,
                    self.current.col as int == c0 + (self.current.index - i0),
                    !den_over ==> den as nat == pow10((self.current.index - fr0) as nat),
                    den_over ==> pow10((self.current.index - fr0) as nat) > u64::MAX as nat,
                    !over ==> acc as nat == ip * pow10((self.current.index - fr0) as nat)
                        + digits_val(s, fr0, self.current.index as int) && acc <= limit,
                    over ==> ip * pow10((self.current.index - fr0) as nat) + digits_val(
                        s,
                        fr0,
                        self.current.index as int,
                    ) > limit as nat,
                decreases s.len() - self.current.index,
            {
                match self.look_ahead() {
                    Some(ch) => {
                        if !is_digit(ch) {
                            break ;
                        }
                        let d: u64 = (ch as u32 - '0' as u32) as u64;
                        self.advance();
                        let ghost m = (self.current.index - 1 - fr0) as nat;
                        let ghost fv = digits_val(s, fr0, self.current.index - 1);
                        proof {
                            assert(pow10(m + 1) == 10 * pow10(m));
                            assert(digits_val(s, fr0, self.current.index as int) == fv * 10 + d);
                            assert(ip * pow10(m + 1) + (fv * 10 + d) == (ip * pow10(m) + fv) * 10
                                + d) by (nonlinear_arith)
                                requires
                                    pow10(m + 1) == 10 * pow10(m),
                            {
                            }
                        }
                        if over {
                            proof {
                                let v = ip * pow10(m) + fv;
                                assert(v * 10 >= v);
                            }
                        } else if acc > (limit - d) / 10 {
                            proof {
                                assert(acc * 10 + d > limit);
                            }
                            over = true;
                        } else {
                            proof {
                                assert(acc * 10 + d <= limit);
                            }
                            acc = acc * 10 + d;
                        }
                        if den_over {
                            proof {
                                assert(10 * pow10(m) >= pow10(m));
                            }
                        } else if den > u64::MAX / 10 {
                            proof {
                                assert(den * 10 > u64::MAX);
                            }
                            den_over = true;
                        } else {
                            den = den * 10;
                        }
                    },
                    None => {
                        break ;
                    },
                }
            }
        }
        if over || den_over {
            Err(LexicalError::ParseNumberError(self.start.row, self.start.col))
        } else {
            let token = Token {
                kind: TokenKind::Number(Number { num: acc as i64, den }),
                meta: TokenMeta { row: self.start.row, col: self.start.col },
            };
            Ok(token)
        }
    }

    /// Scans the rest of a word whose first character has just been
    /// consumed, classifying it as an operator word, a literal spelling, a
    /// keyword, or an identifier.
    fn identifier(&mut self) -> (r: Result<Token<'a>, LexicalError>)
        requires
            old(self).lexeme_started(),
            is_ident_start(old(self).source@[old(self).start.index as int]),
        ensures
            final(self).wf(),
            final(self).source == old(self).source,
            scan_step(
                old(self).source@,
                old(self).start.index as int,
                old(self).start.row as int,
                old(self).start.col as int,
            ) == ScanStep::Emitted(
                item_view(r),
                final(self).current.index as int,
                final(self).current.row as int,
                final(self).current.col as int,
            ),
    {
        let ghost s = self.source@;
        let ghost i0 = self.start.index as int;
        let ghost r0 = self.start.row as int;
        let ghost c0 = self.start.col as int;
        proof {
            let rc = pos_step(s[i0], r0, c0);
            assert(pos_after(s, i0 + 1, i0 + 1, rc.0, rc.1) == rc);
            assert(pos_after(s, i0, i0 + 1, r0, c0) == rc);
        }
        loop
            invariant_except_break
                self.wf(),
                self.source == old(self).source,
                self.source@ == s,
                self.start == old(self).start,
                i0 == self.start.index as int,
                r0 == self.start.row as int,
                c0 == self.start.col as int,
                i0 + 1 <= self.current.index <= s.len(),
                ident_end(s, i0 + 1) == ident_end(s, self.current.index as int),
                (self.current.row as int, self.current.col as int) == pos_after(
                    s,
                    i0,
                    self.current.index as int,
                    r0,
                    c0,
                ),
            ensures
                self.wf(),
                self.source == old(self).source,
                self.source@ == s,
                self.start == old(self).start,
                i0 == self.start.index as int,
                r0 == self.start.row as int,
                c0 == self.start.col as int,
                i0 + 1 <= self.current.index <= s.len(),
                self.current.index as int == ident_end(s, i0 + 1),
                (self.current.row as int, self.current.col as int) == pos_after(
                    s,
                    i0,
                    self.current.index as int,
                    r0,
                    c0,
                ),
            decreases s.len() - self.current.index,
        {
            match self.look_ahead() {
                Some(ch) => {
                    if !is_alphanumeric_char(ch) {
                        break ;
                    }
                    proof {
                        lemma_pos_after_snoc(s, i0, self.current.index as int, r0, c0);
                    }
                    self.advance();
                },
                None => {
                    break ;
                },
            }
        }
        let w = self.sub_str();
        let kind = word_token_kind(w);
        Ok(Token { kind, meta: TokenMeta { row: self.start.row, col: self.start.col } })
    }

    /// Scans the whole input, collecting every token and lexical error in
    /// order.
    pub fn scan_all(&mut self) -> (r: Vec<Result<Token<'a>, LexicalError>>)
        requires
            old(self).wf(),
        ensures
            final(self).wf(),
            final(self).src() == old(self).src(),
            items_of(r@) == old(self).items(),
            final(self).items().len() == 0,
    {
        let mut out: Vec<Result<Token<'a>, LexicalError>> = Vec::new();
        proof {
            assert(items_of(out@) =~= Seq::<Result<TokenView, LexicalErrorView>>::empty());
        }
        loop
            invariant_except_break
                self.wf(),
                self.src() == old(self).src(),
                old(self).items() == items_of(out@) + self.items(),
            ensures
                self.wf(),
                self.src() == old(self).src(),
                old(self).items() == items_of(out@) + self.items(),
                self.items().len() == 0,
            decreases self.items().len(),
        {
            let ghost before = out@;
            match self.scan_token() {
                Some(item) => {
                    out.push(item);
                    proof {
                        assert(items_of(out@) =~= items_of(before) + seq![item_view(item)]);
                        assert(items_of(before) + (seq![item_view(item)] + self.items())
                            =~= items_of(out@) + self.items());
                    }
                },
                None => {
                    break ;
                },
            }
        }
        proof {
            assert(items_of(out@) + self.items() =~= items_of(out@));
        }
        out
    }

    /// The lexeme between the start mark and the current cursor.
    fn sub_str(&mut self) -> (r: &'a str)
        requires
            old(self).wf(),
            old(self).start.index <= old(self).current.index,
        ensures
            *final(self) == *old(self),
            r@ == old(self).source@.subrange(
                old(self).start.index as int,
                old(self).current.index as int,
            ),
    {
        self.source.substring_char(self.start.index, self.current.index)
    }
}

} // verus!
