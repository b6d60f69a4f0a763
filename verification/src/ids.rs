//! Fresh random identifiers.

use uuid::Uuid;
use vstd::prelude::*;

use crate::text;

verus! {

/// A lower-case hexadecimal digit.
pub open spec fn lower_hex(c: char) -> bool {
    ('0' <= c && c <= '9') || ('a' <= c && c <= 'f')
}

/// A digit that says the variant of a random UUID.
pub open spec fn variant_digit(c: char) -> bool {
    c == '8' || c == '9' || c == 'a' || c == 'b'
}

/// The text of a version 4 UUID without hyphens.
pub open spec fn simple_uuid(s: Seq<char>) -> bool {
    &&& s.len() == 32
    &&& forall|i: int| 0 <= i < 32 ==> lower_hex(#[trigger] s[i])
    &&& s[12] == '4'
    &&& variant_digit(s[16])
}

/// The text of a version 4 UUID with hyphens.
pub open spec fn hyphenated_uuid(s: Seq<char>) -> bool {
    &&& s.len() == 36
    &&& forall|i: int|
        0 <= i < 36 ==> if i == 8 || i == 13 || i == 18 || i == 23 {
            #[trigger] s[i] == '-'
        } else {
            lower_hex(s[i])
        }
    &&& s[14] == '4'
    &&& variant_digit(s[19])
}

/// `uuid::Uuid::new_v4`, written in the form of `Uuid::simple`: 32 lower-case
/// hexadecimal digits, of which the version digit is 4 and the variant digit
/// one of 8, 9, a and b. Nothing is claimed of the other digits, which are
/// random, nor that two calls differ.
#[verifier::external_body]
pub(crate) fn new_simple_uuid() -> (res: String)
    ensures
        simple_uuid(res@),
{
    Uuid::new_v4().simple().to_string()
}

/// `uuid::Uuid::new_v4`, written by `Uuid`'s own `Display`: as above, with
/// hyphens after 8, 12, 16 and 20 digits.
#[verifier::external_body]
pub(crate) fn new_hyphenated_uuid() -> (res: String)
    ensures
        hyphenated_uuid(res@),
{
    Uuid::new_v4().to_string()
}

/// A prefix followed by the text of a random UUID.
pub open spec fn prefixed_id(s: Seq<char>, prefix: Seq<char>) -> bool {
    text::starts_with(s, prefix) && simple_uuid(s.skip(prefix.len() as int))
}

/// A fresh identifier that starts with `prefix`.
pub fn new_prefixed_id(prefix: &str) -> (res: String)
    ensures
        prefixed_id(res@, prefix@),
{
    let unique = new_simple_uuid();
    let res = text::join2(prefix, unique.as_str());
    proof {
        assert(res@.take(prefix@.len() as int) =~= prefix@);
        assert(res@.skip(prefix@.len() as int) =~= unique@);
    }
    res
}

/// A fresh identifier without a prefix.
pub fn new_id() -> (res: String)
    ensures
        hyphenated_uuid(res@),
{
    new_hyphenated_uuid()
}

} // verus!
