//! Random identifiers for devices and transfers.

use vstd::prelude::*;

verus! {

/// A lowercase hexadecimal digit.
pub open spec fn is_lower_hex(c: char) -> bool {
    ('0' <= c && c <= '9') || ('a' <= c && c <= 'f')
}

/// The hyphenated lowercase text of a version-4 UUID: 36 characters,
/// hyphens at 8, 13, 18 and 23, hex digits elsewhere, the version digit `4`
/// at 14 and a variant digit `8`, `9`, `a` or `b` at 19.
pub open spec fn is_uuid_v4_text(s: Seq<char>) -> bool {
    &&& s.len() == 36
    &&& forall|i: int|
        0 <= i < 36 ==> if i == 8 || i == 13 || i == 18 || i == 23 {
            #[trigger] s[i] == '-'
        } else {
            is_lower_hex(s[i])
        }
    &&& s[14] == '4'
    &&& (s[19] == '8' || s[19] == '9' || s[19] == 'a' || s[19] == 'b')
}

/// `uuid::Uuid::new_v4`, formatted by its `Display` impl. The value is
/// random; what holds of every outcome is the text's format. The call
/// panics when the system's random source fails, which no input governs.
#[verifier::external_body]
pub(crate) fn uuid_v4_text() -> (s: String)
    ensures
        is_uuid_v4_text(s@),
{
    uuid::Uuid::new_v4().to_string()
}

/// A fresh random identifier for this device.
pub fn new_device_id() -> (id: String)
    ensures
        is_uuid_v4_text(id@),
{
    uuid_v4_text()
}

/// A UUID text never holds the field separator `|`.
pub proof fn lemma_uuid_has_no_bar(s: Seq<char>)
    requires
        is_uuid_v4_text(s),
    ensures
        !s.contains('|'),
{
    if s.contains('|') {
        let i = choose|i: int| 0 <= i < s.len() && s[i] == '|';
        assert(s[i] == '|');
    }
}

} // verus!
