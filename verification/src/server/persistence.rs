//! What is kept of an update: a line in the history of its room and user, and
//! a snapshot that holds the latest update alone.

use crate::server::bonzoendpoint::{BonzoEndpoint, EndpointView};
use crate::server::json::{json_object, json_text, read_object, write_object};
use crate::server::message::{message_text, text_of};
use crate::server::queue::PersistenceJob;
use tungstenite::protocol::Message;
use vstd::prelude::*;
use vstd::string::*;

verus! {

/// A text with the NUL character that ends every message on the wire.
pub open spec fn with_sentinel(payload: Seq<char>) -> Seq<char> {
    payload.push('\0')
}

/// What a message carries: its text without the last character, which on the
/// wire is the sentinel. An empty message carries nothing.
pub open spec fn payload_of(text: Seq<char>) -> Option<Seq<char>> {
    if text.len() == 0 {
        None
    } else {
        Some(text.drop_last())
    }
}

/// Taking the sentinel off a framed payload gives the payload back.
pub proof fn lemma_frame_round_trip(payload: Seq<char>)
    ensures
        payload_of(with_sentinel(payload)) == Some(payload),
{
    assert(with_sentinel(payload).drop_last() == payload);
}

/// Frames a payload for the wire: the payload, then the sentinel.
pub fn frame_payload(payload: &str) -> (framed: String)
    ensures
        framed@ == with_sentinel(payload@),
{
    let mut framed = payload.to_owned();
    framed.append("\0");
    proof {
        reveal_strlit("\0");
        assert(framed@ == payload@.push('\0'));
    }
    framed
}

/// Takes the sentinel off a message's text. Returns `None` for an empty text.
pub fn payload_text(text: &str) -> (payload: Option<&str>)
    ensures
        payload is Some == payload_of(text@) is Some,
        payload matches Some(found) ==> Some(found@) == payload_of(text@),
{
    let length = text.unicode_len();
    if length == 0 {
        None
    } else {
        let found = text.substring_char(0, length - 1);
        assert(found@ == text@.drop_last());
        Some(found)
    }
}

/// Why a payload was not accepted.
#[derive(Clone, Copy, Debug, PartialEq, Eq, Structural)]
pub enum PayloadError {
    /// The text is not a JSON object.
    Malformed,
    /// The object could not be written as text again.
    NotEncodable,
}

/// The canonical form of a payload: what `serde_json` writes for the object
/// that it reads from the text.
pub open spec fn canonical_form(text: Seq<char>) -> Result<Seq<char>, PayloadError> {
    match json_object(text) {
        None => Err(PayloadError::Malformed),
        Some(object) => match json_text(object) {
            None => Err(PayloadError::NotEncodable),
            Some(canonical) => Ok(canonical),
        },
    }
}

/// Checks that a payload is a JSON object and writes it in canonical form.
pub fn canonical_payload(text: &str) -> (canonical: Result<String, PayloadError>)
    ensures
        canonical is Ok == canonical_form(text@) is Ok,
        canonical matches Ok(payload) ==> Ok::<Seq<char>, PayloadError>(payload@)
            == canonical_form(text@),
        canonical matches Err(error) ==> Err::<Seq<char>, PayloadError>(error) == canonical_form(
            text@,
        ),
{
    match read_object(text) {
        Err(_) => Err(PayloadError::Malformed),
        Ok(object) => match write_object(&object) {
            Err(_) => Err(PayloadError::NotEncodable),
            Ok(payload) => Ok(payload),
        },
    }
}

/// Why a job left no trace.
#[derive(Clone, Copy, Debug, PartialEq, Eq, Structural)]
pub enum DiscardReason {
    /// The message is not text.
    NotText,
    /// The payload was not accepted.
    BadPayload(PayloadError),
    /// The sender's address has no user, so no file belongs to it.
    NoUser,
}

/// The two writes that store one update.
#[derive(Debug, PartialEq, Eq)]
pub struct WritePlan {
    /// The file to append to.
    pub history_file: String,
    /// What to append to it: the canonical payload and a line feed.
    pub history_line: String,
    /// The file to overwrite.
    pub snapshot_file: String,
    /// What it holds afterwards: the canonical payload.
    pub snapshot: String,
}

/// The mathematical value of a `WritePlan`.
pub struct WritePlanView {
    pub history_file: Seq<char>,
    pub history_line: Seq<char>,
    pub snapshot_file: Seq<char>,
    pub snapshot: Seq<char>,
}

impl View for WritePlan {
    type V = WritePlanView;

    open spec fn view(&self) -> WritePlanView {
        WritePlanView {
            history_file: self.history_file@,
            history_line: self.history_line@,
            snapshot_file: self.snapshot_file@,
            snapshot: self.snapshot@,
        }
    }
}

/// What the worker does with a job.
#[derive(Debug, PartialEq, Eq)]
pub enum Disposition {
    /// The message was empty: nothing to do.
    Skip,
    /// The job is dropped, for the reason given.
    Discard(DiscardReason),
    /// The update is stored by these writes.
    Write(WritePlan),
}

/// The mathematical value of a `Disposition`.
pub enum DispositionView {
    Skip,
    Discard(DiscardReason),
    Write(WritePlanView),
}

impl View for Disposition {
    type V = DispositionView;

    open spec fn view(&self) -> DispositionView {
        match self {
            Disposition::Skip => DispositionView::Skip,
            Disposition::Discard(reason) => DispositionView::Discard(*reason),
            Disposition::Write(plan) => DispositionView::Write(plan@),
        }
    }
}

/// The name of the snapshot that goes with a history file.
pub open spec fn snapshot_name(history_file: Seq<char>) -> Seq<char> {
    "last_"@ + history_file
}

/// The line that a payload adds to a history file.
pub open spec fn history_line(canonical: Seq<char>) -> Seq<char> {
    canonical + "\n"@
}

/// How a canonical payload from `address` is stored: under the file name of
/// the address, if it has one.
pub open spec fn write_plan(canonical: Seq<char>, address: EndpointView) -> DispositionView {
    match address.json_filename() {
        Some(file) => DispositionView::Write(
            WritePlanView {
                history_file: file,
                history_line: history_line(canonical),
                snapshot_file: snapshot_name(file),
                snapshot: canonical,
            },
        ),
        None => DispositionView::Discard(DiscardReason::NoUser),
    }
}

/// What becomes of a message's text that came from `address`.
pub open spec fn text_plan(text: Seq<char>, address: EndpointView) -> DispositionView {
    match payload_of(text) {
        None => DispositionView::Skip,
        Some(payload) => match canonical_form(payload) {
            Err(error) => DispositionView::Discard(DiscardReason::BadPayload(error)),
            Ok(canonical) => write_plan(canonical, address),
        },
    }
}

/// What becomes of a message that came from `address`.
pub open spec fn job_plan(message: Message, address: EndpointView) -> DispositionView {
    match text_of(message) {
        None => DispositionView::Discard(DiscardReason::NotText),
        Some(text) => text_plan(text, address),
    }
}

/// A framed update from an address with a user is stored whenever its payload
/// has a canonical form: a line with that form is added to the history of the
/// room and user, and their snapshot becomes that form alone.
pub proof fn lemma_framed_update_is_stored(
    message: Message,
    payload: Seq<char>,
    canonical: Seq<char>,
    address: EndpointView,
)
    requires
        text_of(message) == Some(with_sentinel(payload)),
        canonical_form(payload) == Ok::<Seq<char>, PayloadError>(canonical),
        address.user is Some,
    ensures
        job_plan(message, address) == DispositionView::Write(
            WritePlanView {
                history_file: address.room + "_"@ + address.user->0 + ".json"@,
                history_line: canonical + "\n"@,
                snapshot_file: "last_"@ + (address.room + "_"@ + address.user->0 + ".json"@),
                snapshot: canonical,
            },
        ),
{
    lemma_frame_round_trip(payload);
}

/// An update from an address without a user is never stored, whatever it holds.
pub proof fn lemma_room_update_is_not_stored(message: Message, address: EndpointView)
    requires
        address.user is None,
    ensures
        !(job_plan(message, address) is Write),
{
}

/// Names the snapshot that goes with a history file.
pub fn snapshot_file_name(history_file: &str) -> (name: String)
    ensures
        name@ == snapshot_name(history_file@),
{
    let mut name = String::from_str("last_");
    name.append(history_file);
    name
}

/// Plans the writes for a canonical payload: a line for the history of the
/// sender's room and user, and the payload alone for their snapshot. An address
/// without a user has no files, and its payload is dropped.
pub fn plan_write(canonical: String, address: &BonzoEndpoint) -> (disposition: Disposition)
    ensures
        disposition@ == write_plan(canonical@, address@),
{
    match address.json_filename() {
        Err(_) => Disposition::Discard(DiscardReason::NoUser),
        Ok(history_file) => {
            let snapshot_file = snapshot_file_name(history_file.as_str());
            let mut history_line = canonical.clone();
            history_line.append("\n");
            Disposition::Write(
                WritePlan { history_file, history_line, snapshot_file, snapshot: canonical },
            )
        },
    }
}

/// Decides what becomes of a message's text: nothing if it is empty; else the
/// sentinel is taken off, the payload checked and put in canonical form, and
/// its writes planned.
pub fn plan_text(text: &str, address: &BonzoEndpoint) -> (disposition: Disposition)
    ensures
        disposition@ == text_plan(text@, address@),
{
    match payload_text(text) {
        None => Disposition::Skip,
        Some(payload) => match canonical_payload(payload) {
            Err(error) => Disposition::Discard(DiscardReason::BadPayload(error)),
            Ok(canonical) => plan_write(canonical, address),
        },
    }
}

/// Decides what becomes of a job. A message that is not text is dropped.
pub fn plan_job(job: PersistenceJob) -> (disposition: Disposition)
    ensures
        disposition@ == job_plan(job.message, job.address@),
{
    let PersistenceJob { message, address } = job;
    match message_text(message) {
        Err(_) => Disposition::Discard(DiscardReason::NotText),
        Ok(text) => plan_text(text.as_str(), &address),
    }
}

} // verus!
