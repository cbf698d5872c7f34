//! Classification of a textual identifier as numeric or text.
//!
//! A token is numeric exactly when the whole of it is a signed 64-bit
//! decimal integer. The classification looks at the token alone: a document
//! whose `id` was stored as numeric-looking text is not found through a
//! numeric token, and the reverse. That ambiguity is kept on purpose.

use vstd::prelude::*;

verus! {

/// Whether a character is an ASCII decimal digit.
pub open spec fn is_digit(c: char) -> bool {
    '0' <= c && c <= '9'
}

/// The value of a sequence of decimal digits, most significant first.
pub open spec fn digits_value(s: Seq<char>) -> int
    decreases s.len(),
{
    if s.len() == 0 {
        0
    } else {
        digits_value(s.subrange(0, s.len() - 1)) * 10 + ((s[s.len() - 1] as u32) - ('0' as u32))
    }
}

/// The digits of a token, after an optional leading sign.
pub open spec fn unsigned_part(s: Seq<char>) -> Seq<char> {
    if s.len() > 0 && (s[0] == '-' || s[0] == '+') {
        s.subrange(1, s.len() as int)
    } else {
        s
    }
}

/// The signed 64-bit integer that a token spells, if it spells one: an
/// optional `+` or `-`, then one or more ASCII digits, and nothing else.
pub open spec fn decimal_value(s: Seq<char>) -> Option<int> {
    let body = unsigned_part(s);
    let magnitude = digits_value(body);
    let v = if s.len() > 0 && s[0] == '-' {
        -magnitude
    } else {
        magnitude
    };
    if body.len() > 0 && (forall|i: int| 0 <= i < body.len() ==> is_digit(#[trigger] body[i]))
        && i64::MIN <= v <= i64::MAX {
        Some(v)
    } else {
        None
    }
}

/// Relies on std's `str::parse::<i64>`: it accepts an optional sign followed by
/// one or more ASCII digits, with no other character, whose value fits.
#[verifier::external_body]
fn parse_i64(s: &str) -> (r: Option<i64>)
    ensures
        match decimal_value(s@) {
            Some(v) => r == Some(v as i64),
            None => r is None,
        },
{
    s.parse::<i64>().ok()
}

/// An identifier: numeric, or opaque text.
#[derive(Debug, PartialEq)]
pub enum Identifier {
    Numeric(i64),
    Text(String),
}

/// Whether `id` is what a token classifies as.
pub open spec fn classifies_as(token: Seq<char>, id: Identifier) -> bool {
    match decimal_value(token) {
        Some(v) => id == Identifier::Numeric(v as i64),
        None => id matches Identifier::Text(t) && t@ == token,
    }
}

/// Classifies a token: numeric when the whole token is a signed 64-bit
/// integer, text otherwise.
pub fn resolve_identifier(token: &str) -> (r: Identifier)
    ensures
        classifies_as(token@, r),
{
    match parse_i64(token) {
        Some(v) => Identifier::Numeric(v),
        None => Identifier::Text(token.to_string()),
    }
}

} // verus!
