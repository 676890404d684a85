//! Unicode character classes the lexer relies on. The tables live in
//! outside code; each is reached through one trusted wrapper that also
//! states the table's documented behavior on ASCII.

use unicode_xid::UnicodeXID;
use vstd::prelude::*;

verus! {

/// Whether a character has the Unicode `XID_Start` property.
pub uninterp spec fn xid_start(c: char) -> bool;

/// Whether a character has the Unicode `XID_Continue` property.
pub uninterp spec fn xid_continue(c: char) -> bool;

/// Whether a character is Unicode numeric.
pub uninterp spec fn char_numeric(c: char) -> bool;

/// Whether a character is Unicode whitespace.
pub uninterp spec fn char_whitespace(c: char) -> bool;

/// Relies on `unicode_xid`'s `is_xid_start`: the `XID_Start` table, whose
/// ASCII part holds exactly the letters.
#[verifier::external_body]
pub fn is_xid_start(c: char) -> (r: bool)
    ensures
        r == xid_start(c),
        (c as u32) < 128 ==> (r <==> (('a' as u32) <= (c as u32) <= ('z' as u32) || ('A' as u32)
            <= (c as u32) <= ('Z' as u32))),
{
    UnicodeXID::is_xid_start(c)
}

/// Relies on `unicode_xid`'s `is_xid_continue`: the `XID_Continue` table,
/// whose ASCII part holds exactly the letters, the digits and `_`.
#[verifier::external_body]
pub fn is_xid_continue(c: char) -> (r: bool)
    ensures
        r == xid_continue(c),
        (c as u32) < 128 ==> (r <==> (('a' as u32) <= (c as u32) <= ('z' as u32) || ('A' as u32)
            <= (c as u32) <= ('Z' as u32) || ('0' as u32) <= (c as u32) <= ('9' as u32) || c
            == '_')),
{
    UnicodeXID::is_xid_continue(c)
}

/// Relies on `char::is_numeric`: the Unicode number categories, whose ASCII
/// part holds exactly the digits.
#[verifier::external_body]
pub fn is_char_numeric(c: char) -> (r: bool)
    ensures
        r == char_numeric(c),
        (c as u32) < 128 ==> (r <==> ('0' as u32) <= (c as u32) <= ('9' as u32)),
{
    c.is_numeric()
}

/// Relies on `char::is_whitespace`: the Unicode `White_Space` property,
/// whose ASCII part holds exactly space, `\t`, `\n`, `\r`, and the vertical
/// tab and form feed controls.
#[verifier::external_body]
pub fn is_char_whitespace(c: char) -> (r: bool)
    ensures
        r == char_whitespace(c),
        (c as u32) < 128 ==> (r <==> c == ' ' || c == '\t' || c == '\n' || c == '\r' || (c as u32)
            == 0x0b || (c as u32) == 0x0c),
{
    c.is_whitespace()
}

} // verus!
