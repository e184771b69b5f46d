//! Value objects of the domain.
//!
//! A value object is immutable and compared by value. Each constructor
//! validates its input, so holding a value means holding a valid one.

use vstd::prelude::*;
use vstd::std_specs::cmp::PartialEqSpecImpl;
use vstd::utf8::encode_utf8;

use super::error::ValueObjectError;

verus! {

/// Longest client identifier accepted, in bytes of its UTF-8 encoding.
pub const MAX_CLIENT_ID_LENGTH: usize = 100;

/// Longest room identifier accepted, in bytes of its UTF-8 encoding.
pub const MAX_ROOM_ID_LENGTH: usize = 100;

/// Longest message content accepted, in bytes of its UTF-8 encoding.
pub const MAX_MESSAGE_CONTENT_LENGTH: usize = 10000;

/// Number of bytes in the UTF-8 encoding of `text`.
pub open spec fn utf8_len(text: Seq<char>) -> nat {
    encode_utf8(text).len()
}

/// Whether `text` is acceptable as a client identifier.
pub open spec fn valid_client_id(text: Seq<char>) -> bool {
    text.len() > 0 && utf8_len(text) <= MAX_CLIENT_ID_LENGTH
}

/// Whether `text` is acceptable as a room identifier.
pub open spec fn valid_room_id(text: Seq<char>) -> bool {
    text.len() > 0 && utf8_len(text) <= MAX_ROOM_ID_LENGTH
}

/// Whether `text` is acceptable as the content of a message.
pub open spec fn valid_message_content(text: Seq<char>) -> bool {
    text.len() > 0 && utf8_len(text) <= MAX_MESSAGE_CONTENT_LENGTH
}

/// Length of `text` in bytes.
fn byte_len(text: &str) -> (len: usize)
    ensures
        len == utf8_len(text@),
{
    text.as_bytes().len()
}

/// Identifier of a chat client: a non-empty string of at most
/// [`MAX_CLIENT_ID_LENGTH`] bytes.
#[derive(Debug, Eq, Hash)]
pub struct ClientId(String);

impl View for ClientId {
    type V = Seq<char>;

    closed spec fn view(&self) -> Seq<char> {
        self.0@
    }
}

impl ClientId {
    /// Every client identifier is valid.
    #[verifier::type_invariant]
    pub open spec fn well_formed(&self) -> bool {
        valid_client_id(self@)
    }

    /// Validates `id` and wraps it.
    pub fn new(id: String) -> (res: Result<Self, ValueObjectError>)
        ensures
            id@.len() == 0 ==> res == Err::<Self, _>(ValueObjectError::ClientIdEmpty),
            id@.len() > 0 && utf8_len(id@) > MAX_CLIENT_ID_LENGTH ==> res == Err::<Self, _>(
                ValueObjectError::ClientIdTooLong {
                    max: MAX_CLIENT_ID_LENGTH,
                    actual: utf8_len(id@) as usize,
                },
            ),
            valid_client_id(id@) ==> res is Ok && res->Ok_0@ == id@,
    {
        if id.as_str().is_empty() {
            return Err(ValueObjectError::ClientIdEmpty);
        }
        let len: usize = byte_len(id.as_str());
        if len > MAX_CLIENT_ID_LENGTH {
            return Err(
                ValueObjectError::ClientIdTooLong { max: MAX_CLIENT_ID_LENGTH, actual: len },
            );
        }
        Ok(Self(id))
    }

    /// The identifier as a string slice.
    pub fn as_str(&self) -> (res: &str)
        ensures
            res@ == self@,
            valid_client_id(res@),
    {
        proof {
            use_type_invariant(self);
        }
        self.0.as_str()
    }

    /// The identifier as an owned string.
    pub fn into_string(self) -> (res: String)
        ensures
            res@ == self@,
            valid_client_id(res@),
    {
        proof {
            use_type_invariant(&self);
        }
        self.0
    }
}

impl PartialEq for ClientId {
    fn eq(&self, other: &Self) -> (res: bool) {
        self.0 == other.0
    }
}

impl PartialEqSpecImpl for ClientId {
    open spec fn obeys_eq_spec() -> bool {
        true
    }

    open spec fn eq_spec(&self, other: &Self) -> bool {
        self@ == other@
    }
}

impl Clone for ClientId {
    fn clone(&self) -> (res: Self)
        ensures
            res@ == self@,
    {
        proof {
            use_type_invariant(self);
        }
        ClientId(self.0.clone())
    }
}

/// Identifier of a chat room: a non-empty string of at most
/// [`MAX_ROOM_ID_LENGTH`] bytes.
#[derive(Debug, Eq, Hash)]
pub struct RoomId(String);

impl View for RoomId {
    type V = Seq<char>;

    closed spec fn view(&self) -> Seq<char> {
        self.0@
    }
}

impl RoomId {
    /// Every room identifier is valid.
    #[verifier::type_invariant]
    pub open spec fn well_formed(&self) -> bool {
        valid_room_id(self@)
    }

    /// Validates `id` and wraps it.
    pub fn new(id: String) -> (res: Result<Self, ValueObjectError>)
        ensures
            id@.len() == 0 ==> res == Err::<Self, _>(ValueObjectError::RoomIdEmpty),
            id@.len() > 0 && utf8_len(id@) > MAX_ROOM_ID_LENGTH ==> res == Err::<Self, _>(
                ValueObjectError::RoomIdTooLong {
                    max: MAX_ROOM_ID_LENGTH,
                    actual: utf8_len(id@) as usize,
                },
            ),
            valid_room_id(id@) ==> res is Ok && res->Ok_0@ == id@,
    {
        if id.as_str().is_empty() {
            return Err(ValueObjectError::RoomIdEmpty);
        }
        let len: usize = byte_len(id.as_str());
        if len > MAX_ROOM_ID_LENGTH {
            return Err(ValueObjectError::RoomIdTooLong { max: MAX_ROOM_ID_LENGTH, actual: len });
        }
        Ok(Self(id))
    }

    /// The identifier as a string slice.
    pub fn as_str(&self) -> (res: &str)
        ensures
            res@ == self@,
            valid_room_id(res@),
    {
        proof {
            use_type_invariant(self);
        }
        self.0.as_str()
    }

    /// The identifier as an owned string.
    pub fn into_string(self) -> (res: String)
        ensures
            res@ == self@,
            valid_room_id(res@),
    {
        proof {
            use_type_invariant(&self);
        }
        self.0
    }
}

impl PartialEq for RoomId {
    fn eq(&self, other: &Self) -> (res: bool) {
        self.0 == other.0
    }
}

impl PartialEqSpecImpl for RoomId {
    open spec fn obeys_eq_spec() -> bool {
        true
    }

    open spec fn eq_spec(&self, other: &Self) -> bool {
        self@ == other@
    }
}

impl Clone for RoomId {
    fn clone(&self) -> (res: Self)
        ensures
            res@ == self@,
    {
        proof {
            use_type_invariant(self);
        }
        RoomId(self.0.clone())
    }
}

/// Text of a chat message: a non-empty string of at most
/// [`MAX_MESSAGE_CONTENT_LENGTH`] bytes.
#[derive(Debug, Eq)]
pub struct MessageContent(String);

impl View for MessageContent {
    type V = Seq<char>;

    closed spec fn view(&self) -> Seq<char> {
        self.0@
    }
}

impl MessageContent {
    /// Every message content is valid.
    #[verifier::type_invariant]
    pub open spec fn well_formed(&self) -> bool {
        valid_message_content(self@)
    }

    /// Validates `content` and wraps it.
    pub fn new(content: String) -> (res: Result<Self, ValueObjectError>)
        ensures
            content@.len() == 0 ==> res == Err::<Self, _>(ValueObjectError::MessageContentEmpty),
            content@.len() > 0 && utf8_len(content@) > MAX_MESSAGE_CONTENT_LENGTH ==> res == Err::<
                Self,
                _,
            >(
                ValueObjectError::MessageContentTooLong {
                    max: MAX_MESSAGE_CONTENT_LENGTH,
                    actual: utf8_len(content@) as usize,
                },
            ),
            valid_message_content(content@) ==> res is Ok && res->Ok_0@ == content@,
    {
        if content.as_str().is_empty() {
            return Err(ValueObjectError::MessageContentEmpty);
        }
        let len: usize = byte_len(content.as_str());
        if len > MAX_MESSAGE_CONTENT_LENGTH {
            return Err(
                ValueObjectError::MessageContentTooLong {
                    max: MAX_MESSAGE_CONTENT_LENGTH,
                    actual: len,
                },
            );
        }
        Ok(Self(content))
    }

    /// The content as a string slice.
    pub fn as_str(&self) -> (res: &str)
        ensures
            res@ == self@,
            valid_message_content(res@),
    {
        proof {
            use_type_invariant(self);
        }
        self.0.as_str()
    }

    /// The content as an owned string.
    pub fn into_string(self) -> (res: String)
        ensures
            res@ == self@,
            valid_message_content(res@),
    {
        proof {
            use_type_invariant(&self);
        }
        self.0
    }
}

impl PartialEq for MessageContent {
    fn eq(&self, other: &Self) -> (res: bool) {
        self.0 == other.0
    }
}

impl PartialEqSpecImpl for MessageContent {
    open spec fn obeys_eq_spec() -> bool {
        true
    }

    open spec fn eq_spec(&self, other: &Self) -> bool {
        self@ == other@
    }
}

impl Clone for MessageContent {
    fn clone(&self) -> (res: Self)
        ensures
            res@ == self@,
    {
        proof {
            use_type_invariant(self);
        }
        MessageContent(self.0.clone())
    }
}

/// A point in time, in milliseconds since the Unix epoch.
#[derive(Debug, Clone, Copy, PartialEq, Eq, Structural, PartialOrd, Ord)]
pub struct Timestamp(i64);

impl View for Timestamp {
    type V = i64;

    closed spec fn view(&self) -> i64 {
        self.0
    }
}

impl Timestamp {
    /// Wraps a number of milliseconds since the Unix epoch.
    pub fn new(value: i64) -> (res: Self)
        ensures
            res@ == value,
    {
        Self(value)
    }

    /// The number of milliseconds since the Unix epoch.
    pub fn value(&self) -> (res: i64)
        ensures
            res == self@,
    {
        self.0
    }
}

} // verus!
