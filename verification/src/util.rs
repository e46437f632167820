//! Where files live, and names for staged uploads.

use vstd::prelude::*;
use vstd::string::StringExecFns;

verus! {

/// The path of `s` in the staging directory.
pub fn prepend_tmp_dir(s: &str) -> (path: String)
    ensures
        path@ == "tmp/"@ + s@,
{
    let mut path = String::from_str("tmp/");
    path.append(s);
    path
}

/// The path of `s` in the directory of published uploads.
pub fn prepend_upload_dir(s: &str) -> (path: String)
    ensures
        path@ == "uploads/"@ + s@,
{
    let mut path = String::from_str("uploads/");
    path.append(s);
    path
}

/// A lower-case hexadecimal digit.
pub open spec fn is_hex_digit(c: char) -> bool {
    ('0' <= c <= '9') || ('a' <= c <= 'f')
}

/// The text has the hyphenated form of a random UUID: 36 characters,
/// hyphens at the places 8, 13, 18 and 23, lower-case hexadecimal digits
/// elsewhere; the digit at the place 14 is the version, 4, and the digit at
/// the place 19 holds the variant and is one of 8, 9, a and b.
pub open spec fn is_uuid_text(text: Seq<char>) -> bool {
    &&& text.len() == 36
    &&& forall|i: int|
        0 <= i < 36 ==> if i == 8 || i == 13 || i == 18 || i == 23 {
            #[trigger] text[i] == '-'
        } else {
            is_hex_digit(text[i])
        }
    &&& text[14] == '4'
    &&& text[19] == '8' || text[19] == '9' || text[19] == 'a' || text[19] == 'b'
}

/// A fresh random name for a staged upload.
///
/// Calls `Uuid::new_v4`, which sets the version and the variant and leaves
/// the rest to the system's random source, and writes the result with
/// `to_string`, which gives the hyphenated lower-case form.
#[verifier::external_body]
pub fn new_random_uuid() -> (name: String)
    ensures
        is_uuid_text(name@),
{
    uuid::Uuid::new_v4().to_string()
}

} // verus!
