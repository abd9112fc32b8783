//! Names made at random.

use vstd::prelude::*;

verus! {

/// A character of a random name: a small hexadecimal digit or a hyphen.
pub open spec fn is_id_char(c: char) -> bool {
    '0' <= c <= '9' || 'a' <= c <= 'f' || c == '-'
}

/// `uuid::Uuid::new_v4`, written out as `Display` does: hyphenated, in small
/// letters. Which one comes is chance.
#[verifier::external_body]
pub(crate) fn new_id() -> (out: String)
    ensures
        out@.len() == 36,
        forall|i: int| 0 <= i < out@.len() ==> is_id_char(#[trigger] out@[i]),
{
    uuid::Uuid::new_v4().to_string()
}

/// A random name without hyphens.
pub open spec fn is_simple_id(id: Seq<char>) -> bool {
    id.len() == 32 && forall|i: int|
        0 <= i < id.len() ==> '0' <= #[trigger] id[i] <= '9' || 'a' <= id[i] <= 'f'
}

/// `uuid::Uuid::new_v4` with `simple`, written out as `Display` does: without
/// hyphens, in small letters. Which one comes is chance.
#[verifier::external_body]
pub(crate) fn new_simple_id() -> (out: String)
    ensures
        is_simple_id(out@),
{
    uuid::Uuid::new_v4().simple().to_string()
}

}
