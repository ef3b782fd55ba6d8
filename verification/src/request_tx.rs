//! The transaction every request runs in: which user the row-level
//! policies see, and whether the transaction is committed when the
//! handler has answered.

use vstd::prelude::*;

verus! {

/// A hexadecimal digit in lower case.
pub open spec fn hex_digit(n: int) -> char {
    if n < 10 {
        (48 + n) as char
    } else {
        (87 + n) as char
    }
}

/// The `k`-th of the 32 hexadecimal digits of `id`, most significant first.
pub open spec fn nibble(id: u128, k: int) -> int {
    (id as int / vstd::arithmetic::power::pow(16, (31 - k) as nat)) % 16
}

/// How many hyphens the hyphenated form puts before position `i`.
pub open spec fn hyphens_before(i: int) -> int {
    (if i > 8 { 1int } else { 0int }) + (if i > 13 { 1int } else { 0int }) + (if i > 18 {
        1int
    } else {
        0int
    }) + (if i > 23 { 1int } else { 0int })
}

/// The hyphenated form of a UUID: its 32 lower-case hexadecimal digits,
/// most significant first, in groups of 8, 4, 4, 4 and 12 joined by `-`.
pub open spec fn uuid_hyphenated(id: u128) -> Seq<char> {
    Seq::new(
        36,
        |i: int|
            if i == 8 || i == 13 || i == 18 || i == 23 {
                '-'
            } else {
                hex_digit(nibble(id, i - hyphens_before(i)))
            },
    )
}

/// `uuid::Uuid::from_u128(id).to_string()`: the hyphenated lower-case form
/// of the id's sixteen big-endian bytes.
#[verifier::external_body]
fn uuid_text(id: u128) -> (r: String)
    ensures
        r@ == uuid_hyphenated(id),
{
    uuid::Uuid::from_u128(id).to_string()
}

/// The value of `app.current_user_id` for the request: the session's user
/// id as text, or the empty string for an anonymous request (which every
/// policy then refuses).
pub fn current_user_setting(session_user: Option<u128>) -> (r: String)
    ensures
        r@ == match session_user {
            Some(u) => uuid_hyphenated(u),
            None => Seq::<char>::empty(),
        },
{
    match session_user {
        Some(u) => uuid_text(u),
        None => String::new(),
    }
}

/// How the request's transaction ends.
#[derive(Debug, Clone, Copy, PartialEq, Eq, Structural)]
pub enum TxEnd {
    Commit,
    Rollback,
}

/// A successful (2xx) answer commits; any other rolls back.
pub fn tx_end_for(status: u16) -> (r: TxEnd)
    ensures
        r == (if 200 <= status < 300 {
            TxEnd::Commit
        } else {
            TxEnd::Rollback
        }),
{
    if 200 <= status && status < 300 {
        TxEnd::Commit
    } else {
        TxEnd::Rollback
    }
}

} // verus!
