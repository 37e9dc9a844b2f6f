//! Names for sockets that have none of their own.

use crate::link;
use vstd::prelude::*;
use vstd::utf8::*;

verus! {

/// A digit of a hexadecimal number in lower case.
pub open spec fn is_hex(c: char) -> bool {
    '0' <= c <= '9' || 'a' <= c <= 'f'
}

/// The places of the hyphens of a UUID.
pub open spec fn is_hyphen_place(i: int) -> bool {
    i == 8 || i == 13 || i == 18 || i == 23
}

/// The hyphenated text of a random UUID, which shows its version and its variant.
pub open spec fn is_random_uuid(s: Seq<char>) -> bool {
    &&& s.len() == 36
    &&& forall|i: int|
        0 <= i < 36 ==> if is_hyphen_place(i) {
            #[trigger] s[i] == '-'
        } else {
            is_hex(s[i])
        }
    &&& s[14] == '4'
    &&& s[19] == '8' || s[19] == '9' || s[19] == 'a' || s[19] == 'b'
}

/// Calls `uuid::Uuid::new_v4` and writes the UUID as text: 36 characters in lower case, with
/// hyphens at their places, the version 4 and the variant of RFC 9562. Which UUID it is, is left
/// to chance.
#[verifier::external_body]
pub(crate) fn random_uuid() -> (id: String)
    ensures
        is_random_uuid(id@),
{
    uuid::Uuid::new_v4().to_string()
}

/// A random UUID can always stand for the path of a socket: a locator can hold it.
pub proof fn lemma_random_uuid_fits(id: Seq<char>)
    requires
        is_random_uuid(id),
    ensures
        link::path_fits(id),
        link::path_locator(id) == link::UNIXSOCKSTREAM_LOCATOR_PREFIX@ + seq!['/'] + id,
{
    assert forall|i: int| 0 <= i < id.len() implies id[i] != '?' && id[i] != '#' && '\0'
        <= #[trigger] id[i] <= '\u{7f}' by {}
    is_ascii_chars_encode_utf8(id);
    link::lemma_plain_path_fits(id);
}

} // verus!
