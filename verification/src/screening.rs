//! Which source texts the parser can be given.
//!
//! On two kinds of text the parser does not answer with an error but
//! stops the program: a number that has a base prefix and underscores
//! but no digit, such as `0x_`, and a character name after `\N{` that is
//! longer than the parser's fixed buffer. This module finds them, so that
//! such a text is turned away before the parser sees it.
//!
//! The search goes over the bytes of the text and knows no context: it
//! also turns away a text that holds such a pattern inside a comment, a
//! string or a longer word.

use vstd::prelude::*;
use vstd::utf8::encode_utf8;

verus! {

/// The byte of `0`.
pub const DIGIT_0: u8 = 48;

/// The byte of `1`.
pub const DIGIT_1: u8 = 49;

/// The byte of `7`.
pub const DIGIT_7: u8 = 55;

/// The byte of `9`.
pub const DIGIT_9: u8 = 57;

/// The byte of `A`.
pub const CAPITAL_A: u8 = 65;

/// The byte of `B`.
pub const CAPITAL_B: u8 = 66;

/// The byte of `F`.
pub const CAPITAL_F: u8 = 70;

/// The byte of `N`.
pub const CAPITAL_N: u8 = 78;

/// The byte of `O`.
pub const CAPITAL_O: u8 = 79;

/// The byte of `X`.
pub const CAPITAL_X: u8 = 88;

/// The byte of a backslash.
pub const BACKSLASH: u8 = 92;

/// The byte of `_`.
pub const UNDERSCORE: u8 = 95;

/// The byte of `a`.
pub const SMALL_A: u8 = 97;

/// The byte of `b`.
pub const SMALL_B: u8 = 98;

/// The byte of `f`.
pub const SMALL_F: u8 = 102;

/// The byte of `o`.
pub const SMALL_O: u8 = 111;

/// The byte of `x`.
pub const SMALL_X: u8 = 120;

/// The byte of `{`.
pub const OPEN_BRACE: u8 = 123;

/// The byte of `}`.
pub const CLOSE_BRACE: u8 = 125;

/// The longest character name, in bytes, that the parser's buffer holds.
pub const LONGEST_NAME: usize = 84;

/// Whether a byte is one of the letters that name a base in a number
/// prefix: `b`, `o` or `x`, small or capital.
pub open spec fn is_base_letter(byte: u8) -> bool {
    ||| byte == SMALL_B
    ||| byte == CAPITAL_B
    ||| byte == SMALL_O
    ||| byte == CAPITAL_O
    ||| byte == SMALL_X
    ||| byte == CAPITAL_X
}

/// Whether `byte` is a digit of the base that `letter` names.
pub open spec fn is_digit_of(letter: u8, byte: u8) -> bool {
    if letter == SMALL_B || letter == CAPITAL_B {
        DIGIT_0 <= byte <= DIGIT_1
    } else if letter == SMALL_O || letter == CAPITAL_O {
        DIGIT_0 <= byte <= DIGIT_7
    } else {
        ||| DIGIT_0 <= byte <= DIGIT_9
        ||| SMALL_A <= byte <= SMALL_F
        ||| CAPITAL_A <= byte <= CAPITAL_F
    }
}

/// The first position from `from` on that holds no underscore.
pub open spec fn end_of_underscores(bytes: Seq<u8>, from: int) -> int
    decreases bytes.len() - from,
{
    if 0 <= from < bytes.len() && bytes[from] == UNDERSCORE {
        end_of_underscores(bytes, from + 1)
    } else {
        from
    }
}

/// Whether a number without a digit begins at `at`: a zero, a base
/// letter, one or more underscores, and then no digit of that base.
pub open spec fn digitless_number_at(bytes: Seq<u8>, at: int) -> bool {
    &&& 0 <= at
    &&& at + 2 < bytes.len()
    &&& bytes[at] == DIGIT_0
    &&& is_base_letter(bytes[at + 1])
    &&& bytes[at + 2] == UNDERSCORE
    &&& {
        let end = end_of_underscores(bytes, at + 2);
        end >= bytes.len() || !is_digit_of(bytes[at + 1], bytes[end])
    }
}

/// Whether a character name too long for the parser begins at `at`: the
/// three bytes `\N{`, and then more than [`LONGEST_NAME`] bytes of which
/// none closes the brace.
pub open spec fn long_name_at(bytes: Seq<u8>, at: int) -> bool {
    &&& 0 <= at
    &&& at + 3 + LONGEST_NAME < bytes.len()
    &&& bytes[at] == BACKSLASH
    &&& bytes[at + 1] == CAPITAL_N
    &&& bytes[at + 2] == OPEN_BRACE
    &&& forall|k: int| at + 3 <= k <= at + 3 + LONGEST_NAME ==> bytes[k] != CLOSE_BRACE
}

/// Whether a number without a digit begins anywhere.
pub open spec fn has_digitless_number(bytes: Seq<u8>) -> bool {
    exists|at: int| digitless_number_at(bytes, at)
}

/// Whether a character name too long for the parser begins anywhere.
pub open spec fn has_long_name(bytes: Seq<u8>) -> bool {
    exists|at: int| long_name_at(bytes, at)
}

/// What is said of a text with a number without a digit.
pub open spec fn digitless_number_text() -> Seq<char> {
    "a number has a base prefix and underscores but no digit"@
}

/// What is said of a text with a character name that is too long.
pub open spec fn long_name_text() -> Seq<char> {
    "a character name after \\N{ is longer than 84 bytes"@
}

/// Why a text is turned away, if it is.
pub open spec fn refusal(source: Seq<char>) -> Option<Seq<char>> {
    let bytes = encode_utf8(source);
    if has_digitless_number(bytes) {
        Some(digitless_number_text())
    } else if has_long_name(bytes) {
        Some(long_name_text())
    } else {
        None
    }
}

/// Whether a text may be handed to the parser.
pub open spec fn parser_takes(source: Seq<char>) -> bool {
    refusal(source) is None
}

fn base_letter(byte: u8) -> (yes: bool)
    ensures
        yes == is_base_letter(byte),
{
    byte == SMALL_B || byte == CAPITAL_B || byte == SMALL_O || byte == CAPITAL_O || byte == SMALL_X
        || byte == CAPITAL_X
}

fn digit_of(letter: u8, byte: u8) -> (yes: bool)
    ensures
        yes == is_digit_of(letter, byte),
{
    if letter == SMALL_B || letter == CAPITAL_B {
        DIGIT_0 <= byte && byte <= DIGIT_1
    } else if letter == SMALL_O || letter == CAPITAL_O {
        DIGIT_0 <= byte && byte <= DIGIT_7
    } else {
        (DIGIT_0 <= byte && byte <= DIGIT_9) || (SMALL_A <= byte && byte <= SMALL_F) || (CAPITAL_A
            <= byte && byte <= CAPITAL_F)
    }
}

/// Whether a number without a digit begins at `at`.
fn digitless_number_here(bytes: &[u8], at: usize) -> (found: bool)
    requires
        at < bytes.len(),
    ensures
        found == digitless_number_at(bytes@, at as int),
{
    let n = bytes.len();
    if n - at <= 2 {
        return false;
    }
    if bytes[at] != DIGIT_0 || !base_letter(bytes[at + 1]) || bytes[at + 2] != UNDERSCORE {
        return false;
    }
    let mut end: usize = at + 2;
    while end < n && bytes[end] == UNDERSCORE
        invariant
            n == bytes.len(),
            at + 2 <= end <= n,
            end_of_underscores(bytes@, at + 2) == end_of_underscores(bytes@, end as int),
        decreases n - end,
    {
        end += 1;
    }
    end >= n || !digit_of(bytes[at + 1], bytes[end])
}

/// Whether a character name too long for the parser begins at `at`.
fn long_name_here(bytes: &[u8], at: usize) -> (found: bool)
    requires
        at < bytes.len(),
    ensures
        found == long_name_at(bytes@, at as int),
{
    let n = bytes.len();
    if n - at <= 3 + LONGEST_NAME {
        return false;
    }
    if bytes[at] != BACKSLASH || bytes[at + 1] != CAPITAL_N || bytes[at + 2] != OPEN_BRACE {
        return false;
    }
    let mut k: usize = at + 3;
    while k <= at + 3 + LONGEST_NAME
        invariant
            n == bytes.len(),
            at + 3 + LONGEST_NAME < n,
            at + 3 <= k <= at + 3 + LONGEST_NAME + 1,
            forall|j: int| at + 3 <= j < k ==> bytes@[j] != CLOSE_BRACE,
        decreases at + 3 + LONGEST_NAME + 1 - k,
    {
        if bytes[k] == CLOSE_BRACE {
            return false;
        }
        k += 1;
    }
    true
}

/// Looks through a text for what the parser cannot be given, and says
/// why the text is turned away if it is.
pub fn find_refusal(source: &str) -> (found: Option<String>)
    ensures
        match found {
            Some(reason) => refusal(source@) == Some(reason@),
            None => refusal(source@) is None,
        },
{
    let bytes = source.as_bytes();
    let n = bytes.len();
    let mut at: usize = 0;
    while at < n
        invariant
            n == bytes.len(),
            bytes@ == encode_utf8(source@),
            at <= n,
            forall|j: int| 0 <= j < at ==> !digitless_number_at(bytes@, j),
        decreases n - at,
    {
        if digitless_number_here(bytes, at) {
            return Some("a number has a base prefix and underscores but no digit".to_owned());
        }
        at += 1;
    }
    assert(!has_digitless_number(bytes@));
    at = 0;
    while at < n
        invariant
            n == bytes.len(),
            bytes@ == encode_utf8(source@),
            at <= n,
            !has_digitless_number(bytes@),
            forall|j: int| 0 <= j < at ==> !long_name_at(bytes@, j),
        decreases n - at,
    {
        if long_name_here(bytes, at) {
            return Some("a character name after \\N{ is longer than 84 bytes".to_owned());
        }
        at += 1;
    }
    assert(!has_long_name(bytes@));
    None
}

} // verus!
