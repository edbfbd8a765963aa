//! Random identifiers: the keys of sessions, the passwords of agents and
//! the ids of prompts.

use crate::text::is_digit;
use vstd::prelude::*;

verus! {

/// `c` is a hexadecimal digit in lower case.
pub open spec fn is_lower_hex(c: char) -> bool {
    is_digit(c) || ('a' <= c <= 'f')
}

/// `s` has the shape of an identifier: 36 characters, hyphens at the
/// indices 8, 13, 18 and 23, and hexadecimal digits in lower case
/// everywhere else.
pub open spec fn is_token(s: Seq<char>) -> bool {
    &&& s.len() == 36
    &&& forall|i: int|
        0 <= i < 36 ==> if i == 8 || i == 13 || i == 18 || i == 23 {
            #[trigger] s[i] == '-'
        } else {
            is_lower_hex(s[i])
        }
}

/// `uuid::Uuid::new_v4`, written out by the `Display` of `Uuid`: a random
/// identifier in its hyphenated lower-case form. Which identifier comes is
/// left open; only its shape is stated. The outside function panics where
/// the system gives it no random bytes.
#[verifier::external_body]
pub(crate) fn fresh_token() -> (s: String)
    ensures
        is_token(s@),
{
    uuid::Uuid::new_v4().to_string()
}

} // verus!
