//! Identifiers. Every identifier stands for a UUID and holds its 128-bit
//! value; the textual form is the hyphenated lower-case one.

use vstd::prelude::*;
use vstd::arithmetic::power::pow;

verus! {

/// Internal identifier of a user. Never changes once assigned.
#[derive(Clone, Copy, Debug, PartialEq, Eq, Hash, Structural)]
pub struct UserId(pub u128);

/// Identity of a user at the external authentication provider.
#[derive(Clone, Copy, Debug, PartialEq, Eq, Hash, Structural)]
pub struct AuthId(pub u128);

/// Identifier of a team.
#[derive(Clone, Copy, Debug, PartialEq, Eq, Hash, Structural)]
pub struct TeamId(pub u128);

/// Identifier of a workspace.
#[derive(Clone, Copy, Debug, PartialEq, Eq, Hash, Structural)]
pub struct WorkspaceId(pub u128);

/// The lower-case hexadecimal digit for `n`, `0 <= n < 16`.
pub open spec fn hex_digit(n: int) -> char
    recommends
        0 <= n < 16,
{
    if n < 10 {
        ((48 + n) as u8) as char
    } else {
        ((87 + n) as u8) as char
    }
}

/// The `k`-th hexadecimal digit of `value`, counted from the most
/// significant one, `0 <= k < 32`.
pub open spec fn nibble(value: u128, k: int) -> int
    recommends
        0 <= k < 32,
{
    (value as int / pow(16, (31 - k) as nat)) % 16
}

/// The hyphenated form of a UUID: 32 lower-case hexadecimal digits, most
/// significant first, in groups of 8, 4, 4, 4 and 12 with `-` between them.
pub open spec fn uuid_text(value: u128) -> Seq<char> {
    Seq::new(
        36,
        |i: int|
            if i == 8 || i == 13 || i == 18 || i == 23 {
                '-'
            } else if i < 8 {
                hex_digit(nibble(value, i))
            } else if i < 13 {
                hex_digit(nibble(value, i - 1))
            } else if i < 18 {
                hex_digit(nibble(value, i - 2))
            } else if i < 23 {
                hex_digit(nibble(value, i - 3))
            } else {
                hex_digit(nibble(value, i - 4))
            },
    )
}

/// Formats a 128-bit value as a UUID, by `uuid::Uuid::from_u128` and the
/// `Display` of `uuid::Uuid`. Trusted: `Display` writes the hyphenated
/// lower-case form of the value's big-endian bytes, which is `uuid_text`.
#[verifier::external_body]
fn hyphenated(value: u128) -> (text: String)
    ensures
        text@ == uuid_text(value),
{
    uuid::Uuid::from_u128(value).to_string()
}

impl UserId {
    /// The identifier as hyphenated UUID text.
    pub fn to_string(&self) -> (text: String)
        ensures
            text@ == uuid_text(self.0),
    {
        hyphenated(self.0)
    }
}

impl AuthId {
    /// The identifier as hyphenated UUID text.
    pub fn to_string(&self) -> (text: String)
        ensures
            text@ == uuid_text(self.0),
    {
        hyphenated(self.0)
    }
}

impl TeamId {
    /// The identifier as hyphenated UUID text.
    pub fn to_string(&self) -> (text: String)
        ensures
            text@ == uuid_text(self.0),
    {
        hyphenated(self.0)
    }
}

impl WorkspaceId {
    /// The identifier as hyphenated UUID text.
    pub fn to_string(&self) -> (text: String)
        ensures
            text@ == uuid_text(self.0),
    {
        hyphenated(self.0)
    }
}

} // verus!
