//! Short identifiers made of a timestamp and a random draw.

use vstd::prelude::*;

verus! {

/// The smallest random draw that goes into an identifier.
pub const DRAW_MIN: u64 = 1;

/// The largest random draw that goes into an identifier.
pub const DRAW_MAX: u64 = 999;

/// Why no identifier could be made.
#[derive(Clone, Copy, Debug, PartialEq, Eq, Structural)]
pub enum IdError {
    /// Every candidate the encoder tried is on its blocklist.
    Exhausted,
}

/// The error type of `sqids`, taken as it comes and never looked into.
#[verifier::external_type_specification]
#[verifier::external_body]
pub struct ExSqidsError(sqids::Error);

/// The text that `sqids` with its default alphabet, minimum length and
/// blocklist makes of a list of numbers, or `None` where it gives up.
pub uninterp spec fn sqids_encoding(numbers: Seq<u64>) -> Option<Seq<char>>;

/// A character of the encoder's default alphabet: an ASCII letter or digit.
pub open spec fn in_alphabet(c: char) -> bool {
    ('a' <= c && c <= 'z') || ('A' <= c && c <= 'Z') || ('0' <= c && c <= '9')
}

/// A text as the encoder writes it: not empty, and made of ASCII letters and
/// digits only.
pub open spec fn alphanumeric(id: Seq<char>) -> bool {
    id.len() > 0 && forall|i: int| 0 <= i < id.len() ==> in_alphabet(#[trigger] id[i])
}

/// The encoder indexes its alphabet with numbers narrowed to the machine
/// word, so only on these inputs is its answer the same on every machine.
pub open spec fn word_independent(unix: u64, random: u64) -> bool {
    usize::BITS == 64 || (unix <= u32::MAX && random <= u32::MAX)
}

/// The identifier that belongs to a timestamp and a draw.
pub open spec fn identifier_of(unix: u64, random: u64) -> Option<Seq<char>> {
    sqids_encoding(seq![unix, random])
}

/// `r` is what encoding `unix` and `random` gives.
pub open spec fn is_encoding(unix: u64, random: u64, r: Result<String, IdError>) -> bool {
    match r {
        Ok(id) => identifier_of(unix, random) == Some(id@),
        Err(_) => identifier_of(unix, random) is None,
    }
}

/// `r` is what making an identifier for the second `unix` may give, with
/// `random` as the draw.
pub open spec fn is_generated(unix: u64, random: u64, r: Result<String, IdError>) -> bool {
    &&& DRAW_MIN <= random <= DRAW_MAX
    &&& word_independent(unix, random) ==> is_encoding(unix, random, r)
}

/// Calls `Sqids::encode` on a `Sqids::default()` with a list of exactly two
/// numbers. Trusted, of the encoder with its default settings:
/// an identifier it gives starts with a character of its alphabet and goes
/// on with such characters only, the alphabet being the ASCII letters and
/// digits of `sqids::DEFAULT_ALPHABET`; and the outcome depends on the two
/// numbers alone (up to the width of the machine word), which is what
/// `sqids_encoding` names.
#[verifier::external_body]
fn sqids_encode(first: u64, second: u64) -> (r: Result<String, sqids::Error>)
    ensures
        r matches Ok(id) ==> alphanumeric(id@),
        word_independent(first, second) ==> match r {
            Ok(id) => sqids_encoding(seq![first, second]) == Some(id@),
            Err(_) => sqids_encoding(seq![first, second]) is None,
        },
{
    sqids::Sqids::default().encode(&[first, second])
}

/// Calls `Rng::gen_range` on `rand::thread_rng()` with the range
/// `low..high`. Trusted: the draw lies in the range; nothing else is known
/// of it.
#[verifier::external_body]
fn draw_between(low: u64, high: u64) -> (r: u64)
    requires
        low < high,
    ensures
        low <= r < high,
{
    rand::Rng::gen_range(&mut rand::thread_rng(), low..high)
}

/// Encodes a timestamp (whole seconds since the epoch) and a random draw
/// into one identifier. The same two numbers always give the same
/// identifier, and an identifier is made of ASCII letters and digits.
pub fn encode_identifier(unix: u64, random: u64) -> (r: Result<String, IdError>)
    ensures
        r matches Ok(id) ==> alphanumeric(id@),
        word_independent(unix, random) ==> is_encoding(unix, random, r),
{
    match sqids_encode(unix, random) {
        Ok(id) => Ok(id),
        Err(_) => Err(IdError::Exhausted),
    }
}

/// Makes an identifier for the second `unix`: draws a number between
/// `DRAW_MIN` and `DRAW_MAX` and encodes the two.
pub fn generate(unix: u64) -> (r: Result<String, IdError>)
    ensures
        r matches Ok(id) ==> alphanumeric(id@),
        exists|random: u64| is_generated(unix, random, r),
{
    let random: u64 = draw_between(DRAW_MIN, DRAW_MAX + 1);
    let r = encode_identifier(unix, random);
    assert(is_generated(unix, random, r));
    r
}

} // verus!
