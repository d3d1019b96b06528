//! What the PostgreSQL adapter decides before it queries: the uuid key a
//! post id stands for, and whether a timestamp fits a `timestamptz` column.

use vstd::prelude::*;
use vstd::string::StringExecFns;

use crate::dates::{in_utc_range, utc_instant};
use crate::dynamo::{decimal_text, i64_text};
use crate::errors::RepositoryError;
use crate::kernel::is_uuid_v4_text;
use crate::model::BlogPost;
use crate::text::is_hex_char;

verus! {

/// Whether `s` is a uuid in its hyphenated form: 36 characters, hyphens at
/// positions 8, 13, 18 and 23, hexadecimal digits of either case elsewhere.
pub open spec fn is_hyphenated_uuid(s: Seq<char>) -> bool {
    &&& s.len() == 36
    &&& forall|i: int|
        0 <= i < 36 ==> if i == 8 || i == 13 || i == 18 || i == 23 {
            s[i] == '-'
        } else {
            is_hex_char(#[trigger] s[i])
        }
}

/// What `uuid::Uuid::parse_str` gives for a text: the uuid as its 128-bit
/// value, or the display text of the parse error.
pub uninterp spec fn uuid_parse(text: Seq<char>) -> Result<u128, Seq<char>>;

/// Calls `uuid::Uuid::parse_str` and takes `as_u128` of the uuid; a parse
/// error is converted to its display text. The parser accepts every text in
/// the hyphenated form (36 characters go to `parse_hyphenated`, which checks
/// the hyphens and decodes the 32 digits); the value, the error text and the
/// other forms it accepts are left to the name `uuid_parse`.
#[verifier::external_body]
fn parse_uuid(text: &str) -> (res: Result<u128, String>)
    ensures
        match res {
            Ok(v) => uuid_parse(text@) == Ok::<u128, Seq<char>>(v),
            Err(e) => uuid_parse(text@) == Err::<u128, Seq<char>>(e@),
        },
        is_hyphenated_uuid(text@) ==> res is Ok,
{
    match uuid::Uuid::parse_str(text) {
        Ok(id) => Ok(id.as_u128()),
        Err(e) => Err(e.to_string()),
    }
}

/// How the adapter answers a lookup by id.
#[derive(Debug, Clone, Copy, PartialEq, Eq)]
pub enum Lookup {
    /// The id is no uuid, so no row can hold it: not found, with no query.
    NotFound,
    /// Query the row with this uuid.
    Query(u128),
}

/// The lookup a post id calls for: a malformed uuid cannot match any row.
pub fn lookup_key(post_id: &str) -> (res: Lookup)
    ensures
        match uuid_parse(post_id@) {
            Ok(v) => res == Lookup::Query(v),
            Err(_) => res == Lookup::NotFound,
        },
        is_hyphenated_uuid(post_id@) ==> res is Query,
{
    match parse_uuid(post_id) {
        Ok(v) => Lookup::Query(v),
        Err(_) => Lookup::NotFound,
    }
}

/// The error of a timestamp chrono cannot represent.
pub open spec fn out_of_range_message(secs: i64) -> Seq<char> {
    "timestamp out of range: "@ + decimal_text(secs)
}

/// A timestamp as the adapter binds it to a `timestamptz` column.
pub fn utc_seconds(secs: i64) -> (res: Result<i64, RepositoryError>)
    ensures
        in_utc_range(secs) ==> res == Ok::<i64, RepositoryError>(secs),
        !in_utc_range(secs) ==> (res matches Err(RepositoryError::Infrastructure(m)) && m@
            == out_of_range_message(secs)),
{
    match utc_instant(secs) {
        Some(t) => Ok(t),
        None => {
            let mut m = String::from_str("timestamp out of range: ");
            let digits = i64_text(secs);
            m.append(digits.as_str());
            Err(RepositoryError::Infrastructure(m))
        },
    }
}

/// The converted columns of an upsert: the uuid key and the timestamps.
/// The text columns are bound from the post as they are.
#[derive(Debug, Clone, Copy, PartialEq, Eq)]
pub struct UpsertRow {
    pub post_id: u128,
    pub created_at: i64,
    pub updated_at: i64,
    pub published_at: Option<i64>,
}

/// The first timestamp of a post that chrono cannot represent, in the order
/// the adapter converts them: publication, creation, last update.
pub open spec fn first_out_of_range(post: BlogPost) -> Option<i64> {
    if post.published_at matches Some(t) && !in_utc_range(t) {
        post.published_at
    } else if !in_utc_range(post.created_at) {
        Some(post.created_at)
    } else if !in_utc_range(post.updated_at) {
        Some(post.updated_at)
    } else {
        None
    }
}

/// The columns an upsert binds for a post: an id that is no uuid, then a
/// timestamp out of range, fails it before any query.
pub fn upsert_row(post: &BlogPost) -> (res: Result<UpsertRow, RepositoryError>)
    ensures
        match uuid_parse(post.post_id@) {
            Err(e) => res matches Err(RepositoryError::Infrastructure(m)) && m@
                == "invalid post_id: "@ + e,
            Ok(id) => match first_out_of_range(*post) {
                Some(t) => res matches Err(RepositoryError::Infrastructure(m)) && m@
                    == out_of_range_message(t),
                None => res == Ok::<UpsertRow, RepositoryError>(
                    UpsertRow {
                        post_id: id,
                        created_at: post.created_at,
                        updated_at: post.updated_at,
                        published_at: post.published_at,
                    },
                ),
            },
        },
        is_hyphenated_uuid(post.post_id@) && first_out_of_range(*post) is None ==> res is Ok,
{
    let post_id = match parse_uuid(post.post_id.as_str()) {
        Ok(v) => v,
        Err(e) => {
            let mut m = String::from_str("invalid post_id: ");
            m.append(e.as_str());
            return Err(RepositoryError::Infrastructure(m));
        },
    };
    let published_at = match post.published_at {
        Some(t) => match utc_seconds(t) {
            Ok(t) => Some(t),
            Err(e) => return Err(e),
        },
        None => None,
    };
    let created_at = match utc_seconds(post.created_at) {
        Ok(t) => t,
        Err(e) => return Err(e),
    };
    let updated_at = match utc_seconds(post.updated_at) {
        Ok(t) => t,
        Err(e) => return Err(e),
    };
    Ok(UpsertRow { post_id, created_at, updated_at, published_at })
}

/// The identifiers drawn for new posts are uuids in hyphenated form, so
/// the adapter always accepts them as keys.
pub proof fn lemma_fresh_ids_are_uuids(id: Seq<char>)
    requires
        is_uuid_v4_text(id),
    ensures
        is_hyphenated_uuid(id),
{
    assert forall|i: int| 0 <= i < 36 && !(i == 8 || i == 13 || i == 18 || i == 23) implies is_hex_char(#[trigger] id[i]) by {
        assert(!(i == 8 || i == 13 || i == 18 || i == 23) ==> crate::kernel::is_lower_hex(id[i]));
    }
}

} // verus!
