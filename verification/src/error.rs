//! Structured errors: each carries a source span, a kind, and the data a
//! host needs to render a message. Rendering itself is a host concern.

use vstd::prelude::*;

use crate::span::Span;
use crate::text::char_to_string;

verus! {

/// Any error related to lexing.
#[derive(Debug)]
pub enum LexError {
    /// Ran past the end of the input where more characters were needed.
    UnexpectedEof {
        /// Where the missing input was expected.
        loc: Span,
    },
    /// Expected one of a fixed set of characters, found another.
    UnexpectedSymbol {
        /// Where the character was found.
        loc: Span,
        /// The character that was found.
        found: char,
        /// The characters that would have been accepted.
        expected: Vec<char>,
    },
    /// A `#` literal that is none of `#t`, `#true`, `#f`, `#false`.
    InvalidBoolean {
        /// Where the literal was found.
        loc: Span,
        /// The text of the rejected literal.
        found: String,
    },
    /// An escape sequence in a character literal that is not recognized.
    InvalidEscape {
        /// Where the escape sequence was found.
        loc: Span,
        /// The text of the rejected escape sequence.
        found: String,
    },
    /// A number literal that cannot be read in its selected base.
    InvalidNumber {
        /// Where the literal was found.
        loc: Span,
        /// Explanatory help text, when the shape of the mistake is known.
        help: Option<String>,
        /// The text of the rejected literal, underscores stripped.
        found: String,
    },
    /// A character that cannot start any token.
    UnknownSymbol {
        /// Where the character was found.
        loc: Span,
        /// The character that was found.
        found: char,
    },
}

/// Any error related to parsing.
#[derive(Debug)]
pub enum ParseError {
    /// Ran out of tokens where more were needed.
    UnexpectedEof {
        /// A zero-width location one past the last consumed token.
        loc: Span,
    },
    /// Expected a specific token, found another.
    UnexpectedToken {
        /// Where the token was found.
        loc: Span,
        /// The display name of the token that was found.
        found: String,
        /// The display names of the tokens that would have been accepted.
        expected: Vec<String>,
    },
    /// A token that cannot start an expression.
    InvalidExpression {
        /// Where the token was found.
        loc: Span,
        /// The display name of the token that was found.
        found: String,
        /// The display names of the tokens that would have been accepted.
        expected: Vec<String>,
    },
    /// An annotation whose atom is neither `:type` nor `:doc`.
    InvalidAnnotation {
        /// Where the atom was found.
        loc: Span,
        /// The text of the rejected atom.
        found: String,
    },
    /// A token that cannot start a datum.
    InvalidDatum {
        /// Where the token was found.
        loc: Span,
        /// The display name of the token that was found.
        found: String,
    },
    /// A token that cannot introduce the formals of a lambda.
    InvalidLambdaFormals {
        /// Where the token was found.
        loc: Span,
        /// The display name of the token that was found.
        found: String,
    },
}

/// Any error related to evaluation.
#[derive(Debug)]
pub enum EvalError {
    /// An identifier bound in no reachable scope.
    UnknownIdentifier {
        /// Where the identifier was found.
        loc: Span,
        /// The identifier itself.
        id: String,
    },
    /// A value in operator position that cannot be called.
    NotAFunction {
        /// Where the operator was found.
        loc: Span,
        /// The name of the operator.
        name: String,
    },
    /// A call whose argument count differs from the callee's formal count.
    WrongArgumentCount {
        /// Where the call was found.
        loc: Span,
        /// The name of the callee.
        callee: String,
        /// The number of arguments the callee takes.
        expected: usize,
        /// The number of arguments the call supplied.
        found: usize,
    },
    /// An operand whose type a primitive does not accept.
    WrongType {
        /// The span of the offending operand.
        loc: Span,
        /// The display name of the type that was expected.
        expected: String,
        /// The display name of the type that was found.
        found: String,
    },
    /// An integer division with a zero divisor.
    DivisionByZero {
        /// The span of the zero divisor.
        loc: Span,
    },
    /// Integer arithmetic whose result does not fit its type.
    Overflow {
        /// The span of the operation's second operand.
        loc: Span,
    },
    /// A construct that parses but is deliberately not evaluated.
    Unsupported {
        /// Where the construct was found.
        loc: Span,
        /// The display name of the construct.
        kind: String,
    },
    /// The host-imposed recursion bound was exhausted before evaluation
    /// finished.
    RecursionLimit {
        /// Where evaluation stopped.
        loc: Span,
    },
}

/// Any error the virtual machine can report at run time. Each is
/// reported, never a process abort.
#[derive(Debug)]
pub enum RuntimeError {
    /// An operand whose type the instruction does not accept.
    WrongType {
        /// The span of the failing instruction.
        loc: Span,
        /// The display name of the type that was found.
        found: String,
    },
    /// An integer division with a zero divisor.
    DivisionByZero {
        /// The span of the failing instruction.
        loc: Span,
    },
    /// Integer arithmetic whose result does not fit its type.
    Overflow {
        /// The span of the failing instruction.
        loc: Span,
    },
    /// A push onto a full value stack.
    StackOverflow {
        /// The span of the failing instruction.
        loc: Span,
    },
    /// A pop from an empty value stack.
    StackUnderflow {
        /// The span of the failing instruction.
        loc: Span,
    },
}

/// Any error the front end can produce.
#[derive(Debug)]
pub enum Error {
    /// An error from the lexer.
    Lex(LexError),
    /// An error from the parser.
    Parse(ParseError),
}

/// `s` wrapped in backticks.
pub open spec fn spec_quoted(s: Seq<char>) -> Seq<char> {
    "`"@ + s + "`"@
}

/// The backtick-quoted items from index `i` on, separated by commas.
pub open spec fn spec_join_expected(items: Seq<Seq<char>>, i: int) -> Seq<char>
    decreases items.len() - i when 0 <= i <= items.len()
{
    if i >= items.len() {
        Seq::empty()
    } else if i + 1 == items.len() {
        spec_quoted(items[i])
    } else {
        spec_quoted(items[i]) + ", "@ + spec_join_expected(items, i + 1)
    }
}

/// How a list of acceptable alternatives is rendered: one item is quoted
/// alone; several are quoted and joined behind `one of`.
pub open spec fn spec_format_expected(items: Seq<Seq<char>>) -> Seq<char> {
    if items.len() == 1 {
        spec_quoted(items[0])
    } else {
        "one of "@ + spec_join_expected(items, 0)
    }
}

/// Render a list of acceptable characters for an error message.
pub fn format_expected_symbols(ex: &[char]) -> (r: String)
    ensures
        r@ == spec_format_expected(ex@.map_values(|c: char| seq![c])),
{
    let ghost items = ex@.map_values(|c: char| seq![c]);
    if ex.len() == 1 {
        let mut r = String::from_str("`");
        let piece = char_to_string(ex[0]);
        r.append(piece.as_str());
        r.append("`");
        proof {
            assert(r@ =~= spec_quoted(items[0]));
        }
        r
    } else {
        let mut r = String::from_str("one of ");
        let mut i: usize = 0;
        while i < ex.len()
            invariant
                i <= ex@.len(),
                items == ex@.map_values(|c: char| seq![c]),
                items.len() == ex@.len(),
                r@ + spec_join_expected(items, i as int) == "one of "@ + spec_join_expected(
                    items,
                    0,
                ),
            decreases ex@.len() - i,
        {
            r.append("`");
            let piece = char_to_string(ex[i]);
            r.append(piece.as_str());
            r.append("`");
            if i + 1 < ex.len() {
                r.append(", ");
            }
            proof {
                assert(items[i as int] == seq![ex@[i as int]]);
            }
            i = i + 1;
            proof {
                assert(r@ + spec_join_expected(items, i as int) =~= "one of "@
                    + spec_join_expected(items, 0));
            }
        }
        proof {
            assert(r@ =~= "one of "@ + spec_join_expected(items, 0));
        }
        r
    }
}

/// Render a list of acceptable token names for an error message.
pub fn format_expected_tokens(ex: &[String]) -> (r: String)
    ensures
        r@ == spec_format_expected(ex@.map_values(|s: String| s@)),
{
    let ghost items = ex@.map_values(|s: String| s@);
    if ex.len() == 1 {
        let mut r = String::from_str("`");
        r.append(ex[0].as_str());
        r.append("`");
        proof {
            assert(r@ =~= spec_quoted(items[0]));
        }
        r
    } else {
        let mut r = String::from_str("one of ");
        let mut i: usize = 0;
        while i < ex.len()
            invariant
                i <= ex@.len(),
                items == ex@.map_values(|s: String| s@),
                items.len() == ex@.len(),
                r@ + spec_join_expected(items, i as int) == "one of "@ + spec_join_expected(
                    items,
                    0,
                ),
            decreases ex@.len() - i,
        {
            r.append("`");
            r.append(ex[i].as_str());
            r.append("`");
            if i + 1 < ex.len() {
                r.append(", ");
            }
            proof {
                assert(items[i as int] == ex@[i as int]@);
            }
            i = i + 1;
            proof {
                assert(r@ + spec_join_expected(items, i as int) =~= "one of "@
                    + spec_join_expected(items, 0));
            }
        }
        proof {
            assert(r@ =~= "one of "@ + spec_join_expected(items, 0));
        }
        r
    }
}

} // verus!
