use vstd::prelude::*;

verus! {

/// The lower-case hexadecimal MD5 digest of the UTF-8 bytes of a text.
pub uninterp spec fn md5_hex(s: Seq<char>) -> Seq<char>;

/// Relies on `md5::compute` and the digest's `LowerHex` form, which writes each
/// of its sixteen bytes as two hexadecimal digits.
#[verifier::external_body]
pub(crate) fn md5_hex_of(s: &str) -> (r: String)
    ensures
        r@ == md5_hex(s@),
        r@.len() == 32,
{
    format!("{:x}", md5::compute(s))
}

/// Relies on `uuid::Uuid::new_v4`: a fresh random identifier in its text form.
/// Nothing is promised of its value.
#[verifier::external_body]
pub(crate) fn random_uuid() -> (r: String) {
    uuid::Uuid::new_v4().to_string()
}

} // verus!
