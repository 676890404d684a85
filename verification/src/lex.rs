//! The lexer: a single pass over the source characters with one-character
//! lookahead, producing spanned tokens or terminal lex errors.

use vstd::prelude::*;

use crate::error::LexError;
use crate::span::Span;
use crate::text::{char_to_string, chars_to_string, str_to_chars};
use crate::token::{Token, TokenType, TokenTypeV};
use crate::unicode::{
    char_numeric, char_whitespace, is_char_numeric, is_char_whitespace, is_xid_continue,
    is_xid_start, xid_continue, xid_start,
};

verus! {

/// Whether a character can start an identifier: Unicode `XID_Start` or one
/// of the extra symbol characters.
pub open spec fn spec_is_id_start(c: char) -> bool {
    ||| xid_start(c)
    ||| c == '!'
    ||| c == '$'
    ||| c == '%'
    ||| c == '&'
    ||| c == '*'
    ||| c == '/'
    ||| c == '<'
    ||| c == '='
    ||| c == '>'
    ||| c == '?'
    ||| c == '^'
    ||| c == '_'
    ||| c == '~'
    ||| c == ':'
    ||| c == '+'
    ||| c == '-'
}

/// Whether a character can continue an identifier.
pub open spec fn spec_is_id_continue(c: char) -> bool {
    ||| spec_is_id_start(c)
    ||| xid_continue(c)
    ||| char_numeric(c)
    ||| c == '.'
    ||| c == '@'
}

/// Whether a character delimits an atom or boolean literal.
pub open spec fn spec_is_delimiter(c: char) -> bool {
    ||| char_whitespace(c)
    ||| c == '('
    ||| c == ')'
    ||| c == '"'
    ||| c == '\''
    ||| c == ';'
    ||| c == '`'
}

/// Whether a character is skipped as whitespace between tokens.
pub open spec fn spec_is_ws(c: char) -> bool {
    c == ' ' || c == '\t' || c == '\n'
}

/// The value of a character as a base-16 digit; 16 when it is no such digit.
pub open spec fn spec_digit_val(c: char) -> int {
    if ('0' as u32) <= (c as u32) <= ('9' as u32) {
        (c as u32) - ('0' as u32)
    } else if ('a' as u32) <= (c as u32) <= ('f' as u32) {
        (c as u32) - ('a' as u32) + 10
    } else if ('A' as u32) <= (c as u32) <= ('F' as u32) {
        (c as u32) - ('A' as u32) + 10
    } else {
        16
    }
}

/// Whether a character is an ASCII decimal digit.
pub open spec fn spec_is_digit(c: char) -> bool {
    spec_digit_val(c) < 10
}

/// Whether a character can continue a number literal.
pub open spec fn spec_is_number_char(c: char) -> bool {
    ||| spec_digit_val(c) < 16
    ||| c == 'x'
    ||| c == 'X'
    ||| c == 'o'
    ||| c == 'O'
    ||| c == '_'
    ||| c == '.'
}

/// What a character-literal escape code stands for, if it is recognized.
pub open spec fn spec_unescape(c: char) -> Option<char> {
    if c == 'n' {
        Option::Some('\n')
    } else if c == 'r' {
        Option::Some('\r')
    } else if c == 't' {
        Option::Some('\t')
    } else if c == '\\' {
        Option::Some('\\')
    } else if c == '0' {
        Option::Some('\0')
    } else if c == '\'' {
        Option::Some('\'')
    } else {
        Option::None
    }
}

/// The classes of characters the lexer scans runs of.
#[derive(Clone, Copy, Debug, PartialEq, Eq, Structural)]
pub enum ScanKind {
    /// Characters that are not delimiters.
    NotDelimiter,
    /// Characters that can continue a number literal.
    NumberChar,
    /// Characters that can continue an identifier.
    IdContinue,
}

/// Whether a character belongs to a scan class.
pub open spec fn scan_pred(k: ScanKind, c: char) -> bool {
    match k {
        ScanKind::NotDelimiter => !spec_is_delimiter(c),
        ScanKind::NumberChar => spec_is_number_char(c),
        ScanKind::IdContinue => spec_is_id_continue(c),
    }
}

/// The first position at or after `i` whose character leaves the scan
/// class, or the end of the source.
pub open spec fn spec_scan(src: Seq<char>, i: int, k: ScanKind) -> int
    decreases src.len() - i when 0 <= i <= src.len()
{
    if i >= src.len() || !scan_pred(k, src[i]) {
        i
    } else {
        spec_scan(src, i + 1, k)
    }
}

/// A scan ends between its start and the end of the source, and every
/// character it passed belongs to the class while the one it stopped on
/// does not.
pub proof fn lemma_scan_bounds(src: Seq<char>, i: int, k: ScanKind)
    requires
        0 <= i <= src.len(),
    ensures
        i <= spec_scan(src, i, k) <= src.len(),
        forall|j: int| i <= j < spec_scan(src, i, k) ==> scan_pred(k, src[j]),
        spec_scan(src, i, k) < src.len() ==> !scan_pred(k, src[spec_scan(src, i, k)]),
    decreases src.len() - i,
{
    if i < src.len() && scan_pred(k, src[i]) {
        lemma_scan_bounds(src, i + 1, k);
    }
}

/// The position after any run of whitespace and comments starting at `i`.
pub open spec fn spec_trim(src: Seq<char>, i: int) -> int
    decreases src.len() - i, 1int when 0 <= i <= src.len()
{
    if i >= src.len() {
        i
    } else if spec_is_ws(src[i]) {
        spec_trim(src, i + 1)
    } else if src[i] == ';' {
        spec_trim_comment(src, i + 1)
    } else {
        i
    }
}

/// The position after a comment whose body starts at `i`, and after any
/// further whitespace and comments.
pub open spec fn spec_trim_comment(src: Seq<char>, i: int) -> int
    decreases src.len() - i, 0int when 0 <= i <= src.len()
{
    if i >= src.len() {
        i
    } else if src[i] == '\n' {
        spec_trim(src, i + 1)
    } else {
        spec_trim_comment(src, i + 1)
    }
}

/// Trimming never moves backwards and never leaves the source.
pub proof fn lemma_trim_bounds(src: Seq<char>, i: int)
    requires
        0 <= i <= src.len(),
    ensures
        i <= spec_trim(src, i) <= src.len(),
        spec_trim(src, i) < src.len() ==> !spec_is_ws(src[spec_trim(src, i)]) && src[spec_trim(
            src,
            i,
        )] != ';',
    decreases src.len() - i, 1int,
{
    if i < src.len() {
        if spec_is_ws(src[i]) {
            lemma_trim_bounds(src, i + 1);
        } else if src[i] == ';' {
            lemma_trim_comment_bounds(src, i + 1);
        }
    }
}

/// Comment trimming never moves backwards and never leaves the source.
pub proof fn lemma_trim_comment_bounds(src: Seq<char>, i: int)
    requires
        0 <= i <= src.len(),
    ensures
        i <= spec_trim_comment(src, i) <= src.len(),
        spec_trim_comment(src, i) < src.len() ==> !spec_is_ws(
            src[spec_trim_comment(src, i)],
        ) && src[spec_trim_comment(src, i)] != ';',
    decreases src.len() - i, 0int,
{
    if i < src.len() {
        if src[i] == '\n' {
            lemma_trim_bounds(src, i + 1);
        } else {
            lemma_trim_comment_bounds(src, i + 1);
        }
    }
}

/// A comment body with no newline up to `b` trims like its remainder.
proof fn lemma_trim_comment_scan(src: Seq<char>, a: int, b: int)
    requires
        0 <= a <= b <= src.len(),
        forall|k: int| a <= k < b ==> src[k] != '\n',
        b == src.len() || src[b] == '\n',
    ensures
        spec_trim_comment(src, a) == if b == src.len() {
            b
        } else {
            spec_trim(src, b)
        },
    decreases b - a,
{
    if a == b {
        if b < src.len() {
            assert(spec_trim_comment(src, b) == spec_trim(src, b + 1));
            assert(spec_trim(src, b) == spec_trim(src, b + 1));
        }
    } else {
        lemma_trim_comment_scan(src, a + 1, b);
    }
}

/// The value of a base-`base` digit string, read left to right.
pub open spec fn spec_num_val(s: Seq<char>, base: int) -> int
    decreases s.len(),
{
    if s.len() == 0 {
        0
    } else {
        spec_num_val(s.drop_last(), base) * base + spec_digit_val(s.last())
    }
}

/// Whether every character of `s` is a digit of the given base.
pub open spec fn spec_all_digits(s: Seq<char>, base: int) -> bool {
    forall|i: int| 0 <= i < s.len() ==> spec_digit_val(s[i]) < base
}

/// A digit string's value is never negative.
pub proof fn lemma_num_val_nonneg(s: Seq<char>, base: int)
    requires
        base >= 1,
    ensures
        spec_num_val(s, base) >= 0,
    decreases s.len(),
{
    if s.len() > 0 {
        lemma_num_val_nonneg(s.drop_last(), base);
        assert(spec_num_val(s.drop_last(), base) * base >= 0) by (nonlinear_arith)
            requires
                spec_num_val(s.drop_last(), base) >= 0,
                base >= 1,
        ;
    }
}

/// Extending a digit string never lowers its value.
pub proof fn lemma_num_val_prefix_le(s: Seq<char>, k: int, base: int)
    requires
        0 <= k <= s.len(),
        base >= 1,
    ensures
        spec_num_val(s.subrange(0, k), base) <= spec_num_val(s, base),
    decreases s.len() - k,
{
    if k == s.len() {
        assert(s.subrange(0, k) =~= s);
    } else {
        lemma_num_val_prefix_le(s, k + 1, base);
        let p = s.subrange(0, k);
        let q = s.subrange(0, k + 1);
        assert(q.drop_last() =~= p);
        lemma_num_val_nonneg(p, base);
        assert(spec_num_val(p, base) <= spec_num_val(p, base) * base + spec_digit_val(q.last()))
            by (nonlinear_arith)
            requires
                spec_num_val(p, base) >= 0,
                base >= 1,
                spec_digit_val(q.last()) >= 0,
        ;
    }
}

/// `s` with its underscores removed.
pub open spec fn spec_strip_underscores(s: Seq<char>) -> Seq<char>
    decreases s.len(),
{
    if s.len() == 0 {
        Seq::empty()
    } else {
        spec_strip_underscores(s.drop_last()) + (if s.last() == '_' {
            Seq::<char>::empty()
        } else {
            seq![s.last()]
        })
    }
}

/// Appending one character appends it to the stripped text unless it is an
/// underscore.
pub proof fn lemma_strip_push(s: Seq<char>, x: char)
    ensures
        spec_strip_underscores(s.push(x)) == spec_strip_underscores(s) + (if x == '_' {
            Seq::<char>::empty()
        } else {
            seq![x]
        }),
{
    assert(s.push(x).drop_last() =~= s);
    assert(s.push(x).last() == x);
}

/// Stripping underscores never lengthens the text.
pub proof fn lemma_strip_len(s: Seq<char>)
    ensures
        spec_strip_underscores(s).len() <= s.len(),
    decreases s.len(),
{
    if s.len() > 0 {
        lemma_strip_len(s.drop_last());
    }
}

/// Whether `s` holds a `.` anywhere.
pub open spec fn spec_contains_dot(s: Seq<char>) -> bool {
    exists|i: int| 0 <= i < s.len() && s[i] == '.'
}

/// Whether `s` starts with `0` followed by the given base letter.
pub open spec fn spec_has_prefix(s: Seq<char>, c: char) -> bool {
    s.len() >= 2 && s[0] == '0' && s[1] == c
}

/// The first position at or after `i` in `s` that is no decimal digit.
pub open spec fn spec_scan_dec(s: Seq<char>, i: int) -> int
    decreases s.len() - i when 0 <= i <= s.len()
{
    if i >= s.len() || !spec_is_digit(s[i]) {
        i
    } else {
        spec_scan_dec(s, i + 1)
    }
}

/// A decimal-digit scan stays within bounds.
pub proof fn lemma_scan_dec_bounds(s: Seq<char>, i: int)
    requires
        0 <= i <= s.len(),
    ensures
        i <= spec_scan_dec(s, i) <= s.len(),
    decreases s.len() - i,
{
    if i < s.len() && spec_is_digit(s[i]) {
        lemma_scan_dec_bounds(s, i + 1);
    }
}

/// Whether `s` is a well-formed decimal float literal: digits, a point,
/// optional fraction digits, and an optional `e`/`E` exponent with digits.
pub open spec fn spec_valid_float(s: Seq<char>) -> bool {
    let d1 = spec_scan_dec(s, 0);
    &&& d1 > 0
    &&& d1 < s.len()
    &&& s[d1] == '.'
    &&& {
        let d2 = spec_scan_dec(s, d1 + 1);
        ||| d2 == s.len()
        ||| (d2 < s.len() && (s[d2] == 'e' || s[d2] == 'E') && d2 + 1 < s.len() && spec_scan_dec(
            s,
            d2 + 1,
        ) == s.len())
    }
}

/// The help text attached to a float literal written in a non-decimal base.
pub open spec fn spec_non_decimal_float_help() -> Seq<char> {
    "this number appears to be a float, however floats can only be created using decimal notation"@
}

/// Whether `r` is exactly the given token.
pub open spec fn spec_is_token(r: Result<Token, LexError>, span: Span, t: TokenTypeV) -> bool {
    match r {
        Result::Ok(tok) => tok@.span == span && tok@.t == t,
        Result::Err(_) => false,
    }
}

/// Whether `r` is exactly the given `InvalidNumber` error.
pub open spec fn spec_is_invalid_number(
    r: Result<Token, LexError>,
    loc: Span,
    found: Seq<char>,
    help: Option<Seq<char>>,
) -> bool {
    match r {
        Result::Err(LexError::InvalidNumber { loc: l, help: h, found: f }) => {
            &&& l == loc
            &&& f@ == found
            &&& match (h, help) {
                (Option::Some(ht), Option::Some(he)) => ht@ == he,
                (Option::None, Option::None) => true,
                _ => false,
            }
        },
        _ => false,
    }
}

/// Whether `r` is exactly the given `UnexpectedEof` error.
pub open spec fn spec_is_unexpected_eof(r: Result<Token, LexError>, loc: Span) -> bool {
    match r {
        Result::Err(LexError::UnexpectedEof { loc: l }) => l == loc,
        _ => false,
    }
}

/// Whether `r` is exactly the given `UnexpectedSymbol` error.
pub open spec fn spec_is_unexpected_symbol(
    r: Result<Token, LexError>,
    loc: Span,
    found: char,
    expected: Seq<char>,
) -> bool {
    match r {
        Result::Err(LexError::UnexpectedSymbol { loc: l, found: f, expected: e }) => l == loc && f
            == found && e@ == expected,
        _ => false,
    }
}

/// The position of the first unescaped `"` at or after `i`, where `prev` is
/// the character before `i`; the end of the source when there is none.
pub open spec fn spec_string_scan(src: Seq<char>, i: int, prev: char) -> int
    decreases src.len() - i when 0 <= i <= src.len()
{
    if i >= src.len() {
        i
    } else if src[i] == '"' && prev != '\\' {
        i
    } else {
        spec_string_scan(src, i + 1, src[i])
    }
}

/// A string scan stays within bounds.
pub proof fn lemma_string_scan_bounds(src: Seq<char>, i: int, prev: char)
    requires
        0 <= i <= src.len(),
    ensures
        i <= spec_string_scan(src, i, prev) <= src.len(),
    decreases src.len() - i,
{
    if i < src.len() && !(src[i] == '"' && prev != '\\') {
        lemma_string_scan_bounds(src, i + 1, src[i]);
    }
}

/// What lexing an atom from `t` produces: the characters to the next
/// delimiter, colon included, as an `Atom` token.
pub open spec fn atom_case_post(src: Seq<char>, t: int, i1: int, r: Result<Token, LexError>) -> bool {
    let e = spec_scan(src, t + 1, ScanKind::NotDelimiter);
    &&& i1 == e
    &&& spec_is_token(
        r,
        Span { offset: t as usize, len: (e - t) as usize },
        TokenTypeV::Atom(src.subrange(t, e)),
    )
}

/// What lexing a boolean from `t` produces: `#t`, `#true`, `#f` and
/// `#false` make `Boolean` tokens; any other run to a delimiter is an
/// `InvalidBoolean` error.
pub open spec fn bool_case_post(src: Seq<char>, t: int, i1: int, r: Result<Token, LexError>) -> bool {
    let e = spec_scan(src, t + 1, ScanKind::NotDelimiter);
    let raw = src.subrange(t, e);
    let span = Span { offset: t as usize, len: (e - t) as usize };
    &&& i1 == e
    &&& if raw == "#t"@ || raw == "#true"@ {
        spec_is_token(r, span, TokenTypeV::Boolean(true))
    } else if raw == "#f"@ || raw == "#false"@ {
        spec_is_token(r, span, TokenTypeV::Boolean(false))
    } else {
        match r {
            Result::Err(LexError::InvalidBoolean { loc, found }) => loc == span && found@ == raw,
            _ => false,
        }
    }
}

/// What lexing a character literal from `t` produces: `'c'` or a
/// two-character escape `'\e'`; a missing closing quote, an unknown escape,
/// or running out of input each give their error.
pub open spec fn char_case_post(src: Seq<char>, t: int, i1: int, r: Result<Token, LexError>) -> bool {
    let n = src.len();
    if t + 1 >= n {
        i1 == t + 1 && spec_is_unexpected_eof(r, Span { offset: (t + 1) as usize, len: 1 })
    } else if src[t + 1] == '\\' {
        if t + 2 >= n {
            i1 == t + 2 && spec_is_unexpected_eof(r, Span { offset: (t + 2) as usize, len: 1 })
        } else if t + 3 >= n {
            i1 == t + 3 && spec_is_unexpected_eof(r, Span { offset: (t + 3) as usize, len: 1 })
        } else if src[t + 3] != '\'' {
            i1 == t + 4 && spec_is_unexpected_symbol(
                r,
                Span { offset: (t + 3) as usize, len: 1 },
                src[t + 3],
                seq!['\''],
            )
        } else {
            match spec_unescape(src[t + 2]) {
                Option::Some(ch) => i1 == t + 4 && spec_is_token(
                    r,
                    Span { offset: t as usize, len: 4 },
                    TokenTypeV::Character(ch),
                ),
                Option::None => i1 == t + 4 && match r {
                    Result::Err(LexError::InvalidEscape { loc, found }) => loc == (Span {
                        offset: (t + 1) as usize,
                        len: 2,
                    }) && found@ == src.subrange(t + 1, t + 3),
                    _ => false,
                },
            }
        }
    } else {
        if t + 2 >= n {
            i1 == t + 2 && spec_is_unexpected_eof(r, Span { offset: (t + 2) as usize, len: 1 })
        } else if src[t + 2] != '\'' {
            i1 == t + 3 && spec_is_unexpected_symbol(
                r,
                Span { offset: (t + 2) as usize, len: 1 },
                src[t + 2],
                seq!['\''],
            )
        } else {
            i1 == t + 3 && spec_is_token(
                r,
                Span { offset: t as usize, len: 3 },
                TokenTypeV::Character(src[t + 1]),
            )
        }
    }
}

/// What lexing a string literal from `t` produces: the characters to the
/// first unescaped `"`, kept as written; an unterminated literal is an
/// `UnexpectedEof` error.
pub open spec fn string_case_post(src: Seq<char>, t: int, i1: int, r: Result<Token, LexError>) -> bool {
    let n = src.len();
    let e = spec_string_scan(src, t + 1, ' ');
    if e >= n {
        i1 == n && spec_is_unexpected_eof(r, Span { offset: n as usize, len: 1 })
    } else {
        i1 == e + 1 && spec_is_token(
            r,
            Span { offset: t as usize, len: (e + 1 - t) as usize },
            TokenTypeV::String(src.subrange(t + 1, e)),
        )
    }
}

/// What lexing a number from `t` produces, after stripping underscores: a
/// `0x`/`0o`/`0b` prefix selects the base and forbids `.`; text with a `.`
/// and no prefix must be a well-formed decimal float and is kept as text;
/// anything else must be digits of the selected base whose value fits.
pub open spec fn number_case_post(src: Seq<char>, t: int, i1: int, r: Result<Token, LexError>) -> bool {
    let e = spec_scan(src, t + 1, ScanKind::NumberChar);
    let raw = spec_strip_underscores(src.subrange(t, e));
    let span = Span { offset: t as usize, len: (e - t) as usize };
    &&& i1 == e
    &&& {
        let prefixed = spec_has_prefix(raw, 'x') || spec_has_prefix(raw, 'o') || spec_has_prefix(
            raw,
            'b',
        );
        if prefixed && spec_contains_dot(raw) {
            spec_is_invalid_number(r, span, raw, Option::Some(spec_non_decimal_float_help()))
        } else if !prefixed && spec_contains_dot(raw) {
            if spec_valid_float(raw) {
                spec_is_token(r, span, TokenTypeV::Float(raw))
            } else {
                spec_is_invalid_number(r, span, raw, Option::None)
            }
        } else {
            let digits = if prefixed {
                raw.subrange(2, raw.len() as int)
            } else {
                raw
            };
            let base = if spec_has_prefix(raw, 'x') {
                16int
            } else if spec_has_prefix(raw, 'o') {
                8int
            } else if spec_has_prefix(raw, 'b') {
                2int
            } else {
                10int
            };
            if digits.len() > 0 && spec_all_digits(digits, base) && spec_num_val(digits, base)
                <= u64::MAX {
                spec_is_token(r, span, TokenTypeV::Integer(spec_num_val(digits, base) as u64))
            } else {
                spec_is_invalid_number(r, span, raw, Option::None)
            }
        }
    }
}

/// The token type an identifier's text makes: a keyword where the fixed
/// table says so, otherwise a plain identifier.
pub open spec fn spec_keyword(text: Seq<char>) -> TokenTypeV {
    if text == "Bottom"@ {
        TokenTypeV::TypeKwBottom
    } else if text == "Tuple"@ {
        TokenTypeV::TypeKwTuple
    } else if text == "List"@ {
        TokenTypeV::TypeKwList
    } else if text == "Vector"@ {
        TokenTypeV::TypeKwVector
    } else if text == "Function"@ {
        TokenTypeV::TypeKwFunction
    } else if text == "Sum"@ {
        TokenTypeV::TypeKwSum
    } else if text == "Product"@ {
        TokenTypeV::TypeKwProduct
    } else if text == "quote"@ {
        TokenTypeV::KwQuote
    } else if text == "let"@ {
        TokenTypeV::KwLet
    } else if text == "fn"@ {
        TokenTypeV::KwFn
    } else if text == "lambda"@ {
        TokenTypeV::KwLambda
    } else if text == "seq"@ {
        TokenTypeV::KwSeq
    } else if text == "if"@ {
        TokenTypeV::KwIf
    } else if text == "include"@ {
        TokenTypeV::KwInclude
    } else {
        TokenTypeV::Identifier(text)
    }
}

/// What lexing an identifier from `t` produces: the identifier-continue run
/// from `t`, matched against the keyword table.
pub open spec fn ident_case_post(src: Seq<char>, t: int, i1: int, r: Result<Token, LexError>) -> bool {
    let e = spec_scan(src, t + 1, ScanKind::IdContinue);
    &&& i1 == e
    &&& spec_is_token(
        r,
        Span { offset: t as usize, len: (e - t) as usize },
        spec_keyword(src.subrange(t, e)),
    )
}

/// What one lexing step from position `t` (the first character of the
/// token) produces, by dispatch on that character.
pub open spec fn lex_dispatch_post(
    src: Seq<char>,
    t: int,
    i1: int,
    r: Result<Token, LexError>,
) -> bool {
    let c = src[t];
    let one = Span { offset: t as usize, len: 1 };
    if c == '(' {
        i1 == t + 1 && spec_is_token(r, one, TokenTypeV::LeftParen)
    } else if c == ')' {
        i1 == t + 1 && spec_is_token(r, one, TokenTypeV::RightParen)
    } else if c == '.' {
        i1 == t + 1 && spec_is_token(r, one, TokenTypeV::Period)
    } else if c == '`' {
        i1 == t + 1 && spec_is_token(r, one, TokenTypeV::Backtick)
    } else if c == ':' {
        atom_case_post(src, t, i1, r)
    } else if c == '#' {
        if t + 1 >= src.len() {
            i1 == t + 1 && spec_is_unexpected_eof(r, Span { offset: (t + 1) as usize, len: 1 })
        } else if src[t + 1] == 't' || src[t + 1] == 'f' {
            bool_case_post(src, t, i1, r)
        } else {
            i1 == t + 1 && spec_is_unexpected_symbol(r, one, src[t + 1], seq!['t', 'f'])
        }
    } else if c == '\'' {
        char_case_post(src, t, i1, r)
    } else if c == '"' {
        string_case_post(src, t, i1, r)
    } else if spec_is_digit(c) {
        number_case_post(src, t, i1, r)
    } else if spec_is_id_start(c) {
        ident_case_post(src, t, i1, r)
    } else {
        i1 == t + 1 && match r {
            Result::Err(LexError::UnknownSymbol { loc, found }) => loc == one && found == c,
            _ => false,
        }
    }
}

/// Whether `toks` followed by the optional terminal error is exactly what
/// repeated lexing yields from position `i`: each token is one dispatch
/// step from the position the previous one ended at, and the stream ends
/// at the end of the input or at its first error.
pub open spec fn spec_tokens_from(
    src: Seq<char>,
    i: int,
    toks: Seq<Token>,
    trailing: Option<LexError>,
) -> bool
    decreases src.len() - i when 0 <= i <= src.len()
{
    let t = spec_trim(src, i);
    if t >= src.len() {
        toks.len() == 0 && trailing is None
    } else if toks.len() == 0 {
        match trailing {
            Option::Some(e) => exists|i1: int|
                i < i1 <= src.len() && #[trigger] lex_dispatch_post(src, t, i1, Result::Err(e)),
            Option::None => false,
        }
    } else {
        exists|i1: int|
            i < i1 <= src.len() && #[trigger] lex_dispatch_post(src, t, i1, Result::Ok(toks[0]))
                && spec_tokens_from(src, i1, toks.drop_first(), trailing)
    }
}

/// A lexer for a single source text.
#[derive(Debug)]
pub struct Lexer {
    /// The source, as characters.
    pub source: Vec<char>,
    /// The start of the current token.
    pub start: usize,
    /// The current position in the source.
    pub idx: usize,
}

impl Lexer {
    /// The lexer's position lies within its source.
    pub open spec fn wf(self) -> bool {
        self.idx <= self.source@.len()
    }

    /// Create a new lexer over the given source text.
    pub fn new(source: &str) -> (l: Lexer)
        ensures
            l.source@ == source@,
            l.start == 0,
            l.idx == 0,
            l.wf(),
    {
        let chars = str_to_chars(source);
        Lexer { source: chars, start: 0, idx: 0 }
    }

    /// Consume whitespace and comments. Returns whether a character is left.
    fn trim(&mut self) -> (r: bool)
        requires
            old(self).wf(),
        ensures
            final(self).wf(),
            final(self).source@ == old(self).source@,
            final(self).start == old(self).start,
            final(self).idx == spec_trim(old(self).source@, old(self).idx as int),
            r <==> final(self).idx < old(self).source@.len(),
        decreases old(self).source@.len() - old(self).idx,
    {
        if self.idx >= self.source.len() {
            return false;
        }
        let c = self.source[self.idx];
        if c == ' ' || c == '\t' || c == '\n' {
            self.idx = self.idx + 1;
            self.trim()
        } else if c == ';' {
            let ghost i0 = self.idx as int;
            let ghost src = self.source@;
            while self.idx < self.source.len() && self.source[self.idx] != '\n'
                invariant
                    self.source@ == src,
                    self.start == old(self).start,
                    i0 <= self.idx <= src.len(),
                    forall|k: int| i0 <= k < self.idx ==> src[k] != '\n',
                decreases src.len() - self.idx,
            {
                self.idx = self.idx + 1;
            }
            proof {
                lemma_trim_comment_scan(src, i0 + 1, self.idx as int);
            }
            if self.idx >= self.source.len() {
                false
            } else {
                self.trim()
            }
        } else {
            true
        }
    }

    /// Advance over a run of characters of the given class.
    fn scan(&mut self, k: ScanKind)
        requires
            old(self).wf(),
        ensures
            final(self).wf(),
            final(self).source@ == old(self).source@,
            final(self).start == old(self).start,
            final(self).idx == spec_scan(old(self).source@, old(self).idx as int, k),
    {
        let ghost src = self.source@;
        let ghost i0 = self.idx as int;
        loop
            invariant
                self.wf(),
                self.source@ == src,
                self.start == old(self).start,
                i0 <= self.idx <= src.len(),
                spec_scan(src, i0, k) == spec_scan(src, self.idx as int, k),
            ensures
                self.idx == spec_scan(src, i0, k),
            decreases src.len() - self.idx,
        {
            if self.idx >= self.source.len() {
                break ;
            }
            let c = self.source[self.idx];
            if !char_in_class(k, c) {
                break ;
            }
            self.idx = self.idx + 1;
        }
    }
}

/// Whether a character belongs to a scan class.
fn char_in_class(k: ScanKind, c: char) -> (r: bool)
    ensures
        r == scan_pred(k, c),
{
    match k {
        ScanKind::NotDelimiter => !is_delimiter(c),
        ScanKind::NumberChar => is_number_char(c),
        ScanKind::IdContinue => is_id_continue(c),
    }
}

/// Whether a character can start an identifier.
fn is_id_start(c: char) -> (r: bool)
    ensures
        r == spec_is_id_start(c),
{
    is_xid_start(c) || c == '!' || c == '$' || c == '%' || c == '&' || c == '*' || c == '/' || c
        == '<' || c == '=' || c == '>' || c == '?' || c == '^' || c == '_' || c == '~' || c == ':'
        || c == '+' || c == '-'
}

/// Whether a character can continue an identifier.
fn is_id_continue(c: char) -> (r: bool)
    ensures
        r == spec_is_id_continue(c),
{
    is_id_start(c) || is_xid_continue(c) || is_char_numeric(c) || c == '.' || c == '@'
}

/// Whether a character delimits an atom or boolean literal.
fn is_delimiter(c: char) -> (r: bool)
    ensures
        r == spec_is_delimiter(c),
{
    is_char_whitespace(c) || c == '(' || c == ')' || c == '"' || c == '\'' || c == ';' || c == '`'
}

/// The value of a character as a base-16 digit; 16 when it is no such digit.
fn digit_value(c: char) -> (d: u64)
    ensures
        d as int == spec_digit_val(c),
{
    let u = c as u32;
    if ('0' as u32) <= u && u <= ('9' as u32) {
        (u - ('0' as u32)) as u64
    } else if ('a' as u32) <= u && u <= ('f' as u32) {
        (u - ('a' as u32) + 10) as u64
    } else if ('A' as u32) <= u && u <= ('F' as u32) {
        (u - ('A' as u32) + 10) as u64
    } else {
        16
    }
}

/// Whether a character can continue a number literal.
fn is_number_char(c: char) -> (r: bool)
    ensures
        r == spec_is_number_char(c),
{
    digit_value(c) < 16 || c == 'x' || c == 'X' || c == 'o' || c == 'O' || c == '_' || c == '.'
}

/// Whether a character is an ASCII decimal digit.
fn is_digit(c: char) -> (r: bool)
    ensures
        r == spec_is_digit(c),
{
    digit_value(c) < 10
}

/// Read `chars[from..to]` as a base-`base` number.
///
/// Returns its value exactly when the range is nonempty, every character is
/// a digit of the base, and the value fits in a `u64`.
fn parse_digits(chars: &Vec<char>, from: usize, to: usize, base: u64) -> (r: Option<u64>)
    requires
        from <= to <= chars@.len(),
        2 <= base <= 16,
    ensures
        ({
            let s = chars@.subrange(from as int, to as int);
            match r {
                Option::Some(v) => from < to && spec_all_digits(s, base as int) && v as int
                    == spec_num_val(s, base as int),
                Option::None => !(from < to && spec_all_digits(s, base as int) && spec_num_val(
                    s,
                    base as int,
                ) <= u64::MAX),
            }
        }),
{
    let ghost s = chars@.subrange(from as int, to as int);
    if from >= to {
        return Option::None;
    }
    let mut acc: u64 = 0;
    let mut i: usize = from;
    while i < to
        invariant
            from <= i <= to <= chars@.len(),
            s == chars@.subrange(from as int, to as int),
            2 <= base <= 16,
            spec_all_digits(s.subrange(0, i - from), base as int),
            acc as int == spec_num_val(s.subrange(0, i - from), base as int),
        decreases to - i,
    {
        let c = chars[i];
        let d = digit_value(c);
        proof {
            assert(s[i - from] == chars@[i as int]);
        }
        if d >= base {
            proof {
                assert(!spec_all_digits(s, base as int));
            }
            return Option::None;
        }
        let limit = (u64::MAX - d) / base;
        let ghost prefix = s.subrange(0, i - from);
        let ghost extended = s.subrange(0, i - from + 1);
        proof {
            assert(extended.drop_last() =~= prefix);
            assert(extended.last() == s[i - from]);
        }
        if acc > limit {
            proof {
                lemma_num_val_nonneg(prefix, base as int);
                assert(spec_num_val(extended, base as int) > u64::MAX) by (nonlinear_arith)
                    requires
                        spec_num_val(extended, base as int) == spec_num_val(prefix, base as int)
                            * base + d,
                        spec_num_val(prefix, base as int) == acc as int,
                        acc > (u64::MAX - d) as int / base as int,
                        2 <= base <= 16,
                        0 <= d < base,
                ;
                lemma_num_val_prefix_le(s, i - from + 1, base as int);
                assert(s.subrange(0, i - from + 1) =~= extended);
            }
            return Option::None;
        }
        proof {
            assert(acc as int * base + d <= u64::MAX) by (nonlinear_arith)
                requires
                    0 <= acc as int <= (u64::MAX - d) as int / base as int,
                    2 <= base <= 16,
                    0 <= d < base,
            ;
        }
        acc = acc * base + d;
        i = i + 1;
        proof {
            assert(s.subrange(0, i - from) =~= extended);
        }
    }
    proof {
        assert(s.subrange(0, to - from) =~= s);
    }
    Option::Some(acc)
}

/// Whether `chars[from..to]` is exactly the text of `s`.
fn slice_eq_str(chars: &Vec<char>, from: usize, to: usize, s: &str) -> (r: bool)
    requires
        from <= to <= chars@.len(),
    ensures
        r == (chars@.subrange(from as int, to as int) == s@),
{
    let n = s.unicode_len();
    if n != to - from {
        return false;
    }
    let mut i: usize = 0;
    while i < n
        invariant
            from <= to <= chars@.len(),
            n == s@.len() == to - from,
            i <= n,
            forall|j: int| 0 <= j < i ==> chars@[from + j] == s@[j],
        decreases n - i,
    {
        if chars[from + i] != s.get_char(i) {
            proof {
                assert(chars@.subrange(from as int, to as int)[i as int] != s@[i as int]);
            }
            return false;
        }
        i = i + 1;
    }
    proof {
        assert(chars@.subrange(from as int, to as int) =~= s@);
    }
    true
}

/// Whether `v` holds a `.` anywhere.
fn contains_dot(v: &Vec<char>) -> (r: bool)
    ensures
        r == spec_contains_dot(v@),
{
    let mut i: usize = 0;
    while i < v.len()
        invariant
            i <= v@.len(),
            forall|j: int| 0 <= j < i ==> v@[j] != '.',
        decreases v@.len() - i,
    {
        if v[i] == '.' {
            return true;
        }
        i = i + 1;
    }
    false
}

/// The first position at or after `from` in `v` that is no decimal digit.
fn scan_dec(v: &Vec<char>, from: usize) -> (r: usize)
    requires
        from <= v@.len(),
    ensures
        r == spec_scan_dec(v@, from as int),
        from <= r <= v@.len(),
{
    let ghost s = v@;
    let mut i: usize = from;
    loop
        invariant
            from <= i <= s.len(),
            s == v@,
            spec_scan_dec(s, from as int) == spec_scan_dec(s, i as int),
        ensures
            i == spec_scan_dec(s, from as int),
        decreases s.len() - i,
    {
        if i >= v.len() {
            break ;
        }
        if !is_digit(v[i]) {
            break ;
        }
        i = i + 1;
    }
    proof {
        lemma_scan_dec_bounds(s, from as int);
    }
    i
}

/// Whether `v` is a well-formed decimal float literal.
fn check_valid_float(v: &Vec<char>) -> (r: bool)
    ensures
        r == spec_valid_float(v@),
{
    let n = v.len();
    let d1 = scan_dec(v, 0);
    if d1 == 0 || d1 >= n {
        return false;
    }
    if v[d1] != '.' {
        return false;
    }
    let d2 = scan_dec(v, d1 + 1);
    if d2 == n {
        return true;
    }
    let c = v[d2];
    if !(c == 'e' || c == 'E') {
        return false;
    }
    if d2 + 1 >= n {
        return false;
    }
    let d3 = scan_dec(v, d2 + 1);
    d3 == n
}

/// What a character-literal escape code stands for, if it is recognized.
fn unescape_char(c: char) -> (r: Option<char>)
    ensures
        r == spec_unescape(c),
{
    match c {
        'n' => Option::Some('\n'),
        'r' => Option::Some('\r'),
        't' => Option::Some('\t'),
        '\\' => Option::Some('\\'),
        '0' => Option::Some('\0'),
        '\'' => Option::Some('\''),
        _ => Option::None,
    }
}

/// The single closing quote a character literal accepts.
fn expected_quote() -> (v: Vec<char>)
    ensures
        v@ == seq!['\''],
{
    let mut v: Vec<char> = Vec::new();
    v.push('\'');
    proof {
        assert(v@ =~= seq!['\'']);
    }
    v
}

/// The two characters a `#` literal accepts next.
fn expected_tf() -> (v: Vec<char>)
    ensures
        v@ == seq!['t', 'f'],
{
    let mut v: Vec<char> = Vec::new();
    v.push('t');
    v.push('f');
    proof {
        assert(v@ =~= seq!['t', 'f']);
    }
    v
}

impl Lexer {
    /// Make an atom token; the `:` at `self.start` is already consumed.
    fn make_atom_token(&mut self) -> (r: Result<Token, LexError>)
        requires
            old(self).wf(),
            old(self).start < old(self).source@.len(),
            old(self).idx == old(self).start + 1,
        ensures
            final(self).wf(),
            final(self).source@ == old(self).source@,
            final(self).start == old(self).start,
            atom_case_post(
                old(self).source@,
                old(self).start as int,
                final(self).idx as int,
                r,
            ),
    {
        let ghost src = self.source@;
        let ghost t = self.start as int;
        self.scan(ScanKind::NotDelimiter);
        proof {
            lemma_scan_bounds(src, t + 1, ScanKind::NotDelimiter);
        }
        let text = chars_to_string(&self.source, self.start, self.idx);
        let len = self.idx - self.start;
        Result::Ok(Token { span: Span { offset: self.start, len }, t: TokenType::Atom(text) })
    }

    /// Make a boolean token; the `#` at `self.start` is already consumed.
    fn make_boolean_token(&mut self) -> (r: Result<Token, LexError>)
        requires
            old(self).wf(),
            old(self).start < old(self).source@.len(),
            old(self).idx == old(self).start + 1,
        ensures
            final(self).wf(),
            final(self).source@ == old(self).source@,
            final(self).start == old(self).start,
            bool_case_post(
                old(self).source@,
                old(self).start as int,
                final(self).idx as int,
                r,
            ),
    {
        let ghost src = self.source@;
        let ghost t = self.start as int;
        self.scan(ScanKind::NotDelimiter);
        proof {
            lemma_scan_bounds(src, t + 1, ScanKind::NotDelimiter);
        }
        let len = self.idx - self.start;
        let span = Span { offset: self.start, len };
        if slice_eq_str(&self.source, self.start, self.idx, "#t") || slice_eq_str(
            &self.source,
            self.start,
            self.idx,
            "#true",
        ) {
            Result::Ok(Token { span, t: TokenType::Boolean(true) })
        } else if slice_eq_str(&self.source, self.start, self.idx, "#f") || slice_eq_str(
            &self.source,
            self.start,
            self.idx,
            "#false",
        ) {
            Result::Ok(Token { span, t: TokenType::Boolean(false) })
        } else {
            let found = chars_to_string(&self.source, self.start, self.idx);
            Result::Err(LexError::InvalidBoolean { loc: span, found })
        }
    }

    /// Make a character token; the opening `'` at `self.start` is already
    /// consumed.
    fn make_character_token(&mut self) -> (r: Result<Token, LexError>)
        requires
            old(self).wf(),
            old(self).start < old(self).source@.len(),
            old(self).idx == old(self).start + 1,
        ensures
            final(self).wf(),
            final(self).source@ == old(self).source@,
            final(self).start == old(self).start,
            char_case_post(
                old(self).source@,
                old(self).start as int,
                final(self).idx as int,
                r,
            ),
    {
        let n = self.source.len();
        if self.idx >= n {
            return Result::Err(
                LexError::UnexpectedEof { loc: Span { offset: self.start + 1, len: 1 } },
            );
        }
        let chr = self.source[self.idx];
        self.idx = self.idx + 1;
        if chr == '\\' {
            if self.idx >= n {
                return Result::Err(
                    LexError::UnexpectedEof { loc: Span { offset: self.start + 2, len: 1 } },
                );
            }
            let escaped = self.source[self.idx];
            self.idx = self.idx + 1;
            if self.idx >= n {
                return Result::Err(
                    LexError::UnexpectedEof { loc: Span { offset: self.start + 3, len: 1 } },
                );
            }
            let close = self.source[self.idx];
            self.idx = self.idx + 1;
            if close != '\'' {
                return Result::Err(
                    LexError::UnexpectedSymbol {
                        loc: Span { offset: self.start + 3, len: 1 },
                        found: close,
                        expected: expected_quote(),
                    },
                );
            }
            match unescape_char(escaped) {
                Option::Some(ch) => Result::Ok(
                    Token {
                        span: Span { offset: self.start, len: 4 },
                        t: TokenType::Character(ch),
                    },
                ),
                Option::None => {
                    let found = chars_to_string(&self.source, self.start + 1, self.start + 3);
                    Result::Err(
                        LexError::InvalidEscape {
                            loc: Span { offset: self.start + 1, len: 2 },
                            found,
                        },
                    )
                },
            }
        } else {
            if self.idx >= n {
                return Result::Err(
                    LexError::UnexpectedEof { loc: Span { offset: self.start + 2, len: 1 } },
                );
            }
            let close = self.source[self.idx];
            self.idx = self.idx + 1;
            if close != '\'' {
                return Result::Err(
                    LexError::UnexpectedSymbol {
                        loc: Span { offset: self.start + 2, len: 1 },
                        found: close,
                        expected: expected_quote(),
                    },
                );
            }
            Result::Ok(
                Token { span: Span { offset: self.start, len: 3 }, t: TokenType::Character(chr) },
            )
        }
    }

    /// Make a string token; the opening `"` at `self.start` is already
    /// consumed. The contents are kept exactly as written.
    fn make_string_token(&mut self) -> (r: Result<Token, LexError>)
        requires
            old(self).wf(),
            old(self).start < old(self).source@.len(),
            old(self).idx == old(self).start + 1,
        ensures
            final(self).wf(),
            final(self).source@ == old(self).source@,
            final(self).start == old(self).start,
            string_case_post(
                old(self).source@,
                old(self).start as int,
                final(self).idx as int,
                r,
            ),
    {
        let ghost src = self.source@;
        let ghost t = self.start as int;
        let n = self.source.len();
        let mut prev: char = ' ';
        loop
            invariant
                self.source@ == src,
                self.start == old(self).start,
                t + 1 <= self.idx <= src.len(),
                n == src.len(),
                spec_string_scan(src, self.idx as int, prev) == spec_string_scan(src, t + 1, ' '),
            ensures
                self.source@ == src,
                self.start == old(self).start,
                t + 1 <= self.idx <= src.len(),
                self.idx == spec_string_scan(src, t + 1, ' '),
            decreases src.len() - self.idx,
        {
            if self.idx >= n {
                break ;
            }
            let c = self.source[self.idx];
            if c == '"' && prev != '\\' {
                break ;
            }
            self.idx = self.idx + 1;
            prev = c;
        }
        if self.idx >= n {
            return Result::Err(LexError::UnexpectedEof { loc: Span { offset: n, len: 1 } });
        }
        let e = self.idx;
        let content = chars_to_string(&self.source, self.start + 1, e);
        self.idx = self.idx + 1;
        Result::Ok(
            Token {
                span: Span { offset: self.start, len: e + 1 - self.start },
                t: TokenType::String(content),
            },
        )
    }

    /// Make a number token; the first digit at `self.start` is already
    /// consumed.
    fn make_number_token(&mut self) -> (r: Result<Token, LexError>)
        requires
            old(self).wf(),
            old(self).start < old(self).source@.len(),
            old(self).idx == old(self).start + 1,
        ensures
            final(self).wf(),
            final(self).source@ == old(self).source@,
            final(self).start == old(self).start,
            number_case_post(
                old(self).source@,
                old(self).start as int,
                final(self).idx as int,
                r,
            ),
    {
        let ghost src = self.source@;
        let ghost t = self.start as int;
        self.scan(ScanKind::NumberChar);
        proof {
            lemma_scan_bounds(src, t + 1, ScanKind::NumberChar);
        }
        let e = self.idx;
        let mut rawv: Vec<char> = Vec::new();
        let mut i: usize = self.start;
        while i < e
            invariant
                self.start <= i <= e <= src.len(),
                self.source@ == src,
                rawv@ == spec_strip_underscores(src.subrange(self.start as int, i as int)),
            decreases e - i,
        {
            let c = self.source[i];
            proof {
                lemma_strip_push(src.subrange(self.start as int, i as int), src[i as int]);
                assert(src.subrange(self.start as int, i + 1) =~= src.subrange(
                    self.start as int,
                    i as int,
                ).push(src[i as int]));
            }
            if c != '_' {
                rawv.push(c);
            }
            i = i + 1;
        }
        let ghost raw = spec_strip_underscores(src.subrange(t, e as int));
        proof {
            lemma_strip_len(src.subrange(t, e as int));
        }
        let rawlen = rawv.len();
        proof {
            assert(rawv@.subrange(0, rawlen as int) =~= rawv@);
        }
        let span = Span { offset: self.start, len: e - self.start };
        let px = rawlen >= 2 && rawv[0] == '0' && rawv[1] == 'x';
        let po = rawlen >= 2 && rawv[0] == '0' && rawv[1] == 'o';
        let pb = rawlen >= 2 && rawv[0] == '0' && rawv[1] == 'b';
        let prefixed = px || po || pb;
        let has_dot = contains_dot(&rawv);
        if prefixed && has_dot {
            let found = chars_to_string(&rawv, 0, rawlen);
            let help = String::from_str(
                "this number appears to be a float, however floats can only be created using decimal notation",
            );
            return Result::Err(
                LexError::InvalidNumber { loc: span, help: Option::Some(help), found },
            );
        }
        if has_dot {
            if check_valid_float(&rawv) {
                let text = chars_to_string(&rawv, 0, rawlen);
                return Result::Ok(Token { span, t: TokenType::Float(text) });
            } else {
                let found = chars_to_string(&rawv, 0, rawlen);
                return Result::Err(
                    LexError::InvalidNumber { loc: span, help: Option::None, found },
                );
            }
        }
        let from: usize = if prefixed {
            2
        } else {
            0
        };
        let base: u64 = if px {
            16
        } else if po {
            8
        } else if pb {
            2
        } else {
            10
        };
        match parse_digits(&rawv, from, rawlen, base) {
            Option::Some(v) => Result::Ok(Token { span, t: TokenType::Integer(v) }),
            Option::None => {
                let found = chars_to_string(&rawv, 0, rawlen);
                Result::Err(LexError::InvalidNumber { loc: span, help: Option::None, found })
            },
        }
    }

    /// Recognize the text `self.source[from..to]` as a keyword, or keep it
    /// a generic identifier.
    fn match_identifier(&self, from: usize, to: usize) -> (tt: TokenType)
        requires
            from <= to <= self.source@.len(),
        ensures
            tt@ == spec_keyword(self.source@.subrange(from as int, to as int)),
    {
        if slice_eq_str(&self.source, from, to, "Bottom") {
            TokenType::TypeKwBottom
        } else if slice_eq_str(&self.source, from, to, "Tuple") {
            TokenType::TypeKwTuple
        } else if slice_eq_str(&self.source, from, to, "List") {
            TokenType::TypeKwList
        } else if slice_eq_str(&self.source, from, to, "Vector") {
            TokenType::TypeKwVector
        } else if slice_eq_str(&self.source, from, to, "Function") {
            TokenType::TypeKwFunction
        } else if slice_eq_str(&self.source, from, to, "Sum") {
            TokenType::TypeKwSum
        } else if slice_eq_str(&self.source, from, to, "Product") {
            TokenType::TypeKwProduct
        } else if slice_eq_str(&self.source, from, to, "quote") {
            TokenType::KwQuote
        } else if slice_eq_str(&self.source, from, to, "let") {
            TokenType::KwLet
        } else if slice_eq_str(&self.source, from, to, "fn") {
            TokenType::KwFn
        } else if slice_eq_str(&self.source, from, to, "lambda") {
            TokenType::KwLambda
        } else if slice_eq_str(&self.source, from, to, "seq") {
            TokenType::KwSeq
        } else if slice_eq_str(&self.source, from, to, "if") {
            TokenType::KwIf
        } else if slice_eq_str(&self.source, from, to, "include") {
            TokenType::KwInclude
        } else {
            TokenType::Identifier(chars_to_string(&self.source, from, to))
        }
    }

    /// Make an identifier or keyword token; the starting character at
    /// `self.start` is already consumed.
    fn make_identifier_token(&mut self) -> (r: Result<Token, LexError>)
        requires
            old(self).wf(),
            old(self).start < old(self).source@.len(),
            old(self).idx == old(self).start + 1,
        ensures
            final(self).wf(),
            final(self).source@ == old(self).source@,
            final(self).start == old(self).start,
            ident_case_post(
                old(self).source@,
                old(self).start as int,
                final(self).idx as int,
                r,
            ),
    {
        let ghost src = self.source@;
        let ghost t = self.start as int;
        self.scan(ScanKind::IdContinue);
        proof {
            lemma_scan_bounds(src, t + 1, ScanKind::IdContinue);
        }
        let tt = self.match_identifier(self.start, self.idx);
        let len = self.idx - self.start;
        Result::Ok(Token { span: Span { offset: self.start, len }, t: tt })
    }

    /// Lex a single token.
    ///
    /// Returns `None` when only whitespace and comments are left. A
    /// returned error is terminal for that token; the caller decides
    /// whether to keep pulling.
    pub fn lex_token(&mut self) -> (r: Option<Result<Token, LexError>>)
        requires
            old(self).wf(),
        ensures
            final(self).wf(),
            final(self).source@ == old(self).source@,
            old(self).idx <= final(self).idx,
            ({
                let src = old(self).source@;
                let t = spec_trim(src, old(self).idx as int);
                match r {
                    Option::None => final(self).idx == t && t == src.len(),
                    Option::Some(res) => {
                        &&& t < src.len()
                        &&& final(self).start == t
                        &&& final(self).idx > old(self).idx
                        &&& lex_dispatch_post(src, t, final(self).idx as int, res)
                        &&& match res {
                            Result::Ok(tok) => tok@.span.offset == t && tok@.span.offset
                                + tok@.span.len <= final(self).idx,
                            Result::Err(_) => true,
                        }
                    },
                }
            }),
    {
        let ghost src = self.source@;
        let ghost i0 = self.idx as int;
        proof {
            lemma_trim_bounds(src, i0);
        }
        if !self.trim() {
            return Option::None;
        }
        let n = self.source.len();
        proof {
            assert(self.idx < n);
        }
        self.start = self.idx;
        let ghost t = self.start as int;
        let c = self.source[self.idx];
        self.idx = self.idx + 1;
        let one = Span { offset: self.start, len: 1 };
        if c == '(' {
            Option::Some(Result::Ok(Token { span: one, t: TokenType::LeftParen }))
        } else if c == ')' {
            Option::Some(Result::Ok(Token { span: one, t: TokenType::RightParen }))
        } else if c == '.' {
            Option::Some(Result::Ok(Token { span: one, t: TokenType::Period }))
        } else if c == '`' {
            Option::Some(Result::Ok(Token { span: one, t: TokenType::Backtick }))
        } else if c == ':' {
            let res = self.make_atom_token();
            proof {
                lemma_scan_bounds(src, t + 1, ScanKind::NotDelimiter);
            }
            Option::Some(res)
        } else if c == '#' {
            if self.idx >= self.source.len() {
                return Option::Some(
                    Result::Err(
                        LexError::UnexpectedEof { loc: Span { offset: self.start + 1, len: 1 } },
                    ),
                );
            }
            let c1 = self.source[self.idx];
            if c1 == 't' || c1 == 'f' {
                let res = self.make_boolean_token();
                proof {
                    lemma_scan_bounds(src, t + 1, ScanKind::NotDelimiter);
                }
                Option::Some(res)
            } else {
                Option::Some(
                    Result::Err(
                        LexError::UnexpectedSymbol { loc: one, found: c1, expected: expected_tf() },
                    ),
                )
            }
        } else if c == '\'' {
            let res = self.make_character_token();
            Option::Some(res)
        } else if c == '"' {
            let res = self.make_string_token();
            proof {
                lemma_string_scan_bounds(src, t + 1, ' ');
            }
            Option::Some(res)
        } else if is_digit(c) {
            let res = self.make_number_token();
            proof {
                lemma_scan_bounds(src, t + 1, ScanKind::NumberChar);
                lemma_strip_len(src.subrange(t, spec_scan(src, t + 1, ScanKind::NumberChar)));
            }
            Option::Some(res)
        } else if is_id_start(c) {
            let res = self.make_identifier_token();
            proof {
                lemma_scan_bounds(src, t + 1, ScanKind::IdContinue);
            }
            Option::Some(res)
        } else {
            Option::Some(Result::Err(LexError::UnknownSymbol { loc: one, found: c }))
        }
    }
}

} // verus!
