//! The messages that the relay passes on, as the websocket layer hands them over.

use tungstenite::protocol::Message;
use vstd::prelude::*;

verus! {

/// `tungstenite::protocol::Message`, one message of a websocket connection.
/// The relay passes such a value on without looking inside.
#[verifier::external_type_specification]
#[verifier::external_body]
pub struct ExMessage(Message);

/// `tungstenite::error::Error`, which `Message::into_text` returns for a
/// message that is not valid UTF-8.
#[verifier::external_type_specification]
#[verifier::external_body]
pub struct ExTransportError(tungstenite::error::Error);

/// The text that `Message::into_text` finds in a message, or `None` where it
/// returns an error.
pub uninterp spec fn text_of(message: Message) -> Option<Seq<char>>;

/// `Clone::clone` of `Message`, which tungstenite derives: the copy is the
/// same message.
pub assume_specification[ <Message as Clone>::clone ](message: &Message) -> (copy: Message)
    ensures
        copy == *message,
;

/// Calls `Message::into_text`. The contract gives the outcome its name: the
/// text on `Ok`, no text on `Err`.
#[verifier::external_body]
pub(crate) fn message_text(message: Message) -> (text: Result<String, tungstenite::error::Error>)
    ensures
        match text {
            Ok(found) => text_of(message) == Some(found@),
            Err(_) => text_of(message) is None,
        },
{
    message.into_text()
}

} // verus!
