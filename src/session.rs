//! The upload handler's decisions, as a state machine. The caller reads the
//! multipart stream, reads field bodies and writes files; after each of these
//! it reports what happened as an [`Event`], and the session answers with the
//! next [`Action`] to perform.

use vstd::prelude::*;
use crate::naming::{is_v4, new_identifier, stored_filename, stored_name};

verus! {

/// The message of a successful upload.
pub open spec fn success_message() -> Seq<char> {
    seq![
        'F', 'i', 'l', 'e', 's', ' ', 'u', 'p', 'l', 'o', 'a', 'd', 'e', 'd', ' ', 's', 'u', 'c',
        'c', 'e', 's', 's', 'f', 'u', 'l', 'l', 'y',
    ]
}

/// Why a request failed.
#[derive(Clone, Copy, Debug, PartialEq, Eq, Structural)]
pub enum UploadError {
    /// A field body could not be read, or no file was uploaded.
    BadRequest,
    /// A file could not be written.
    InternalServerError,
}

impl UploadError {
    /// The HTTP status code for this error.
    pub fn status_code(&self) -> (r: u16)
        ensures
            r == (match self {
                UploadError::BadRequest => 400u16,
                UploadError::InternalServerError => 500u16,
            }),
    {
        match self {
            UploadError::BadRequest => 400,
            UploadError::InternalServerError => 500,
        }
    }
}

/// The payload of a successful upload.
#[derive(Debug)]
pub struct UploadResponse {
    pub message: String,
    /// Stored names, in the order the fields came.
    pub filenames: Vec<String>,
}

/// The characters of each string.
pub open spec fn names_of(v: Seq<String>) -> Seq<Seq<char>> {
    Seq::new(v.len(), |i: int| v[i]@)
}

/// An upload response as values.
pub struct ResponseView {
    pub message: Seq<char>,
    pub filenames: Seq<Seq<char>>,
}

impl View for UploadResponse {
    type V = ResponseView;

    open spec fn view(&self) -> ResponseView {
        ResponseView { message: self.message@, filenames: names_of(self.filenames@) }
    }
}

/// What the caller observed since the last action.
#[derive(Debug)]
pub enum Event {
    /// The next field carries a file with this client-side name.
    FileField { original: String },
    /// The next field is a plain form field.
    PlainField,
    /// The stream has no more fields.
    NoMoreFields,
    /// The stream could not be parsed further.
    MalformedStream,
    /// The current field's body was read in full.
    BodyReceived,
    /// The current field's body could not be read.
    BodyFailed,
    /// The current field's bytes were written.
    Written,
    /// Writing the current field's bytes failed.
    WriteFailed,
}

/// An event as values.
pub enum EventView {
    FileField(Seq<char>),
    PlainField,
    NoMoreFields,
    MalformedStream,
    BodyReceived,
    BodyFailed,
    Written,
    WriteFailed,
}

impl View for Event {
    type V = EventView;

    open spec fn view(&self) -> EventView {
        match self {
            Event::FileField { original } => EventView::FileField(original@),
            Event::PlainField => EventView::PlainField,
            Event::NoMoreFields => EventView::NoMoreFields,
            Event::MalformedStream => EventView::MalformedStream,
            Event::BodyReceived => EventView::BodyReceived,
            Event::BodyFailed => EventView::BodyFailed,
            Event::Written => EventView::Written,
            Event::WriteFailed => EventView::WriteFailed,
        }
    }
}

/// What the caller is to do next.
#[derive(Debug)]
pub enum Action {
    /// Read the next field of the stream.
    NextField,
    /// Read the current field's body.
    ReadBody,
    /// Write the body just read to the upload directory under this name.
    Write { name: String },
    /// Answer the request; the session is over.
    Respond(Result<UploadResponse, UploadError>),
}

/// An action as values.
pub enum ActionView {
    NextField,
    ReadBody,
    Write(Seq<char>),
    Respond(Result<ResponseView, UploadError>),
}

impl View for Action {
    type V = ActionView;

    open spec fn view(&self) -> ActionView {
        match self {
            Action::NextField => ActionView::NextField,
            Action::ReadBody => ActionView::ReadBody,
            Action::Write { name } => ActionView::Write(name@),
            Action::Respond(Ok(resp)) => ActionView::Respond(Ok(resp@)),
            Action::Respond(Err(e)) => ActionView::Respond(Err(*e)),
        }
    }
}

/// Where a request stands.
enum Phase {
    AwaitingField,
    ReadingBody { name: String },
    Writing { name: String },
    Finished,
}

/// Where a request stands, as values.
pub enum Stage {
    /// Waiting for the next field of the stream.
    AwaitingField,
    /// Reading the body of a file field that will be stored under this name.
    ReadingBody(Seq<char>),
    /// Writing a body under this name.
    Writing(Seq<char>),
    /// The request has been answered.
    Finished,
}

/// A session as values: the names stored so far, in order, and the stage.
pub struct SessionView {
    pub saved: Seq<Seq<char>>,
    pub stage: Stage,
}

/// The handling of one upload request.
pub struct UploadSession {
    saved: Vec<String>,
    phase: Phase,
}

impl View for UploadSession {
    type V = SessionView;

    closed spec fn view(&self) -> SessionView {
        SessionView {
            saved: names_of(self.saved@),
            stage: match self.phase {
                Phase::AwaitingField => Stage::AwaitingField,
                Phase::ReadingBody { name } => Stage::ReadingBody(name@),
                Phase::Writing { name } => Stage::Writing(name@),
                Phase::Finished => Stage::Finished,
            },
        }
    }
}

/// A session before the first field.
pub open spec fn start() -> SessionView {
    SessionView { saved: Seq::empty(), stage: Stage::AwaitingField }
}

/// Whether `e` reports on what the session in stage `st` asked for.
pub open spec fn accepts(st: Stage, e: EventView) -> bool {
    match st {
        Stage::AwaitingField => e is FileField || e is PlainField || e is NoMoreFields
            || e is MalformedStream,
        Stage::ReadingBody(_) => e is BodyReceived || e is BodyFailed,
        Stage::Writing(_) => e is Written || e is WriteFailed,
        Stage::Finished => false,
    }
}

/// The answer once the stream has no more fields: the stored names, or a
/// bad request where there are none.
pub open spec fn final_answer(saved: Seq<Seq<char>>) -> ActionView {
    if saved.len() == 0 {
        ActionView::Respond(Err(UploadError::BadRequest))
    } else {
        ActionView::Respond(Ok(ResponseView { message: success_message(), filenames: saved }))
    }
}

/// One step: the session after event `e`, and the next action. `id` is the
/// identifier drawn for a file field's stored name.
pub open spec fn next(s: SessionView, e: EventView, id: u128) -> (SessionView, ActionView) {
    let finished = SessionView { saved: s.saved, stage: Stage::Finished };
    match (s.stage, e) {
        (Stage::AwaitingField, EventView::FileField(original)) => (
            SessionView { saved: s.saved, stage: Stage::ReadingBody(stored_name(original, id)) },
            ActionView::ReadBody,
        ),
        (Stage::AwaitingField, EventView::PlainField) => (s, ActionView::NextField),
        (Stage::AwaitingField, EventView::NoMoreFields) => (finished, final_answer(s.saved)),
        (Stage::AwaitingField, EventView::MalformedStream) => (finished, final_answer(s.saved)),
        (Stage::ReadingBody(name), EventView::BodyReceived) => (
            SessionView { saved: s.saved, stage: Stage::Writing(name) },
            ActionView::Write(name),
        ),
        (Stage::ReadingBody(_), EventView::BodyFailed) => (
            finished,
            ActionView::Respond(Err(UploadError::BadRequest)),
        ),
        (Stage::Writing(name), EventView::Written) => (
            SessionView { saved: s.saved.push(name), stage: Stage::AwaitingField },
            ActionView::NextField,
        ),
        (Stage::Writing(_), EventView::WriteFailed) => (
            finished,
            ActionView::Respond(Err(UploadError::InternalServerError)),
        ),
        _ => (s, ActionView::NextField),
    }
}

impl UploadSession {
    /// A session for a new request.
    pub fn new() -> (r: Self)
        ensures
            r@ == start(),
    {
        let r = UploadSession { saved: Vec::new(), phase: Phase::AwaitingField };
        assert(r@.saved =~= Seq::<Seq<char>>::empty());
        r
    }

    /// Whether the request has been answered.
    pub fn is_finished(&self) -> (r: bool)
        ensures
            r == (self@.stage is Finished),
    {
        match self.phase {
            Phase::Finished => true,
            _ => false,
        }
    }

    /// Whether `event` reports on what this session asked for last.
    pub fn accepts(&self, event: &Event) -> (r: bool)
        ensures
            r == accepts(self@.stage, event@),
    {
        match (&self.phase, event) {
            (Phase::AwaitingField, Event::FileField { .. }) => true,
            (Phase::AwaitingField, Event::PlainField) => true,
            (Phase::AwaitingField, Event::NoMoreFields) => true,
            (Phase::AwaitingField, Event::MalformedStream) => true,
            (Phase::ReadingBody { .. }, Event::BodyReceived) => true,
            (Phase::ReadingBody { .. }, Event::BodyFailed) => true,
            (Phase::Writing { .. }, Event::Written) => true,
            (Phase::Writing { .. }, Event::WriteFailed) => true,
            _ => false,
        }
    }

    /// The stored names so far, with the success message, or a bad request
    /// where there are none.
    fn answer(&self) -> (r: Action)
        ensures
            r@ == final_answer(self@.saved),
    {
        if self.saved.len() == 0 {
            return Action::Respond(Err(UploadError::BadRequest));
        }
        let mut filenames: Vec<String> = Vec::new();
        let mut i: usize = 0;
        while i < self.saved.len()
            invariant
                i <= self.saved@.len(),
                filenames@ == self.saved@.subrange(0, i as int),
            decreases self.saved@.len() - i,
        {
            filenames.push(self.saved[i].clone());
            i = i + 1;
            assert(filenames@ =~= self.saved@.subrange(0, i as int));
        }
        assert(filenames@ =~= self.saved@);
        let message = String::from_str("Files uploaded successfully");
        proof {
            reveal_strlit("Files uploaded successfully");
            assert(message@ =~= success_message());
        }
        Action::Respond(Ok(UploadResponse { message, filenames }))
    }

    /// Takes in `event`, with `id` as the identifier for a file field's
    /// stored name, and returns what to do next.
    pub fn step_with_id(&mut self, event: Event, id: u128) -> (r: Action)
        requires
            accepts(old(self)@.stage, event@),
        ensures
            (final(self)@, r@) == next(old(self)@, event@, id),
    {
        let mut phase = Phase::Finished;
        std::mem::swap(&mut phase, &mut self.phase);
        match (phase, event) {
            (Phase::AwaitingField, Event::FileField { original }) => {
                let name = stored_filename(original.as_str(), id);
                self.phase = Phase::ReadingBody { name };
                Action::ReadBody
            },
            (Phase::AwaitingField, Event::PlainField) => {
                self.phase = Phase::AwaitingField;
                Action::NextField
            },
            (Phase::ReadingBody { name }, Event::BodyReceived) => {
                self.phase = Phase::Writing { name: name.clone() };
                Action::Write { name }
            },
            (Phase::Writing { name }, Event::Written) => {
                self.saved.push(name);
                self.phase = Phase::AwaitingField;
                assert(self@.saved =~= old(self)@.saved.push(name@));
                Action::NextField
            },
            (Phase::ReadingBody { .. }, Event::BodyFailed) => {
                Action::Respond(Err(UploadError::BadRequest))
            },
            (Phase::Writing { .. }, Event::WriteFailed) => {
                Action::Respond(Err(UploadError::InternalServerError))
            },
            _ => self.answer(),
        }
    }

    /// Takes in `event` and returns what to do next; a file field's stored
    /// name is drawn under a fresh random identifier.
    pub fn step(&mut self, event: Event) -> (r: Action)
        requires
            accepts(old(self)@.stage, event@),
        ensures
            exists|id: u128| is_v4(id) && (final(self)@, r@) == next(old(self)@, event@, id),
    {
        let id = new_identifier();
        self.step_with_id(event, id)
    }
}

} // verus!
