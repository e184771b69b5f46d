//! Factories of domain values.

use vstd::prelude::*;
use vstd::utf8::{is_ascii_chars, is_ascii_chars_encode_utf8};

use super::error::ValueObjectError;
use super::value_object::{valid_room_id, RoomId};

verus! {

/// Length of a UUID in its hyphenated form.
pub const HYPHENATED_UUID_LENGTH: usize = 36;

/// Whether `c` is a digit of lower-case hexadecimal.
pub open spec fn is_lower_hex(c: char) -> bool {
    '0' <= c <= '9' || 'a' <= c <= 'f'
}

/// Whether `text` has the shape of a hyphenated lower-case UUID: 36
/// characters, hyphens after the 8th, 12th, 16th and 20th digit, and
/// hexadecimal digits everywhere else.
pub open spec fn is_hyphenated_uuid(text: Seq<char>) -> bool {
    &&& text.len() == HYPHENATED_UUID_LENGTH
    &&& forall|i: int|
        0 <= i < text.len() ==> if i == 8 || i == 13 || i == 18 || i == 23 {
            #[trigger] text[i] == '-'
        } else {
            is_lower_hex(text[i])
        }
}

/// Whether `text`, a hyphenated UUID, says that it is a random one: its
/// version digit is 4 and its variant digit is one of 8, 9, a and b.
pub open spec fn is_random_uuid(text: Seq<char>) -> bool {
    &&& is_hyphenated_uuid(text)
    &&& text[14] == '4'
    &&& text[19] == '8' || text[19] == '9' || text[19] == 'a' || text[19] == 'b'
}

/// A fresh random UUID in its hyphenated lower-case form.
///
/// Calls `uuid::Uuid::new_v4`, which sets the version and the variant and
/// leaves the other bits to chance, and formats the result with its
/// `Display` impl, which writes the hyphenated lower-case form. Which UUID
/// comes out is left open; only the shape of its text is claimed. The
/// operating system's random source must be available.
#[verifier::external_body]
fn random_uuid_text() -> (text: String)
    ensures
        is_random_uuid(text@),
{
    uuid::Uuid::new_v4().to_string()
}

/// Factory of room identifiers.
pub struct RoomIdFactory;

impl RoomIdFactory {
    /// A new room identifier: a random UUID in hyphenated form.
    pub fn generate() -> (res: Result<RoomId, ValueObjectError>)
        ensures
            res is Ok,
            is_random_uuid(res->Ok_0@),
    {
        let text = random_uuid_text();
        proof {
            assert(is_ascii_chars(text@)) by {
                assert forall|i: int| 0 <= i < text@.len() implies '\0' <= #[trigger] text@[i]
                    <= '\u{7f}' by {
                    if !(i == 8 || i == 13 || i == 18 || i == 23) {
                        assert(is_lower_hex(text@[i]));
                    }
                }
            }
            is_ascii_chars_encode_utf8(text@);
            assert(valid_room_id(text@));
        }
        RoomId::new(text)
    }
}

} // verus!
