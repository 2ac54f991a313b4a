//! Fresh identifiers for new wars.

use vstd::prelude::*;

verus! {

/// The character is a decimal digit or one of the letters `a` to `f`.
pub open spec fn is_lower_hex(c: char) -> bool {
    ('0' <= c && c <= '9') || ('a' <= c && c <= 'f')
}

/// The text is a random (version 4, RFC 4122 variant) UUID in its
/// lower-case hyphenated form: 36 characters, hyphens at 8, 13, 18 and 23,
/// the version digit `4` at 14, one of `8`, `9`, `a`, `b` at 19, and
/// lower-case hexadecimal digits everywhere else.
pub open spec fn is_v4_uuid_text(t: Seq<char>) -> bool {
    &&& t.len() == 36
    &&& forall|i: int| 0 <= i < 36 ==> {
        let c = #[trigger] t[i];
        if i == 8 || i == 13 || i == 18 || i == 23 {
            c == '-'
        } else if i == 14 {
            c == '4'
        } else if i == 19 {
            c == '8' || c == '9' || c == 'a' || c == 'b'
        } else {
            is_lower_hex(c)
        }
    }
}

/// A fresh war identifier: `uuid::Uuid::new_v4()` rendered by its `Display`
/// impl. `new_v4` masks random bits so that the version is 4 and the variant
/// is that of RFC 4122, and `Display` writes the value in lower-case
/// hexadecimal, hyphenated, in 36 characters. Which random value it is, is
/// left open.
#[verifier::external_body]
pub(crate) fn new_war_id() -> (r: String)
    ensures
        is_v4_uuid_text(r@),
{
    uuid::Uuid::new_v4().to_string()
}

} // verus!
