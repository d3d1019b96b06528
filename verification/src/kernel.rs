//! Cross-cutting helpers: fresh post identifiers and the wall clock.

use vstd::prelude::*;

use crate::dates::in_utc_range;

verus! {

/// Whether `c` is a lowercase hexadecimal digit.
pub open spec fn is_lower_hex(c: char) -> bool {
    ('0' <= c <= '9') || ('a' <= c <= 'f')
}

/// Whether `s` is the hyphenated, lowercase text of a random (version 4,
/// RFC 4122 variant) UUID, such as `"67e55044-10b1-426f-9247-bb680e5fe0c8"`.
pub open spec fn is_uuid_v4_text(s: Seq<char>) -> bool {
    &&& s.len() == 36
    &&& forall|i: int|
        0 <= i < 36 ==> if i == 8 || i == 13 || i == 18 || i == 23 {
            s[i] == '-'
        } else {
            is_lower_hex(#[trigger] s[i])
        }
    &&& s[14] == '4'
    &&& (s[19] == '8' || s[19] == '9' || s[19] == 'a' || s[19] == 'b')
}

/// Generator of opaque string identifiers for blog posts.
pub struct PostUuid;

impl PostUuid {
    /// A fresh random identifier: calls `uuid::Uuid::new_v4` and formats it
    /// with `to_string`, which writes the hyphenated lowercase form. The
    /// contract states that form; which identifier comes out is chance.
    #[verifier::external_body]
    pub fn new() -> (res: String)
        ensures
            is_uuid_v4_text(res@),
    {
        uuid::Uuid::new_v4().to_string()
    }
}

/// Wall-clock helper for domain timestamps (Unix seconds).
pub struct Datetime;

impl Datetime {
    /// Current time as a Unix timestamp in seconds: calls
    /// `chrono::Utc::now().timestamp()`, which reads the system clock as a
    /// duration since the epoch (panicking on a clock set before 1970) and
    /// turns it into an instant with `from_timestamp(..).unwrap()`. So every
    /// reading is non-negative and within chrono's range; which one it is
    /// is the machine's clock.
    #[verifier::external_body]
    pub fn now() -> (res: i64)
        ensures
            0 <= res,
            in_utc_range(res),
    {
        chrono::Utc::now().timestamp()
    }
}

} // verus!
