//! One request and its reply, step by step.
//!
//! An [`Exchange`] never touches a stream. It tells its driver what to do
//! next (an [`Action`]) and is told what came of it (an [`Event`]):
//!
//! 1. write the framed request in one call;
//! 2. read the three header fields of the reply, four bytes each, exactly:
//!    a field that does not arrive in full ends the exchange with a
//!    connection error;
//! 3. read the body, as many bytes as the header declares, leniently: when
//!    the stream ends or fails before that, the bytes that did arrive are the
//!    body;
//! 4. decode the body as UTF-8, which may fail;
//! 5. read the two bytes of the terminator, and return the reply whether or
//!    not they arrive.
//!
//! The leniency of steps 3 and 5 is intended: servers are known to send
//! short or unterminated replies, and a client that insisted would be of
//! little use with them.

use crate::errors::{RCONError, RCONErrorView};
use crate::types::{
    to_wire_id, wire_id, wire_type, AuthRequest, ExecuteResponse, ExecuteResponseView, RCONRequest,
};
use crate::wire::{
    encode_request, fits_in_packet, fits_packet, i32_from_le, le_value, packet, LENGTH_OVERHEAD,
};
use vstd::prelude::*;
use vstd::string::*;
use vstd::utf8::*;

verus! {

/// Bytes in one field of a packet's header.
pub const FIELD_SIZE: usize = 4;

/// Bytes in the terminator of a packet.
pub const TERMINATOR_SIZE: usize = 2;

/// What the driver reports.
#[derive(Debug, PartialEq, Eq)]
pub enum Event {
    /// The write went through.
    Written,
    /// A read returned these bytes; none at all when the stream has ended.
    Data(Vec<u8>),
    /// The write or the read failed; the text is the stream's own account.
    Failed(String),
}

/// An [`Event`] with its bytes and its text as sequences.
pub enum EventView {
    Written,
    Data(Seq<u8>),
    Failed(Seq<char>),
}

impl View for Event {
    type V = EventView;

    open spec fn view(&self) -> EventView {
        match self {
            Event::Written => EventView::Written,
            Event::Data(bytes) => EventView::Data(bytes@),
            Event::Failed(why) => EventView::Failed(why@),
        }
    }
}

/// What the driver is to do next.
#[derive(Debug, PartialEq, Eq)]
pub enum Action {
    /// Write all of these bytes to the stream in one call, and report
    /// `Written` or `Failed`.
    Write(Vec<u8>),
    /// Read exactly this many bytes, and report them as `Data`, or `Failed`
    /// if the stream cannot deliver them all.
    ReadExact(usize),
    /// Read once, at most this many bytes, and report what came as `Data`
    /// (nothing, if the stream has ended), or `Failed`.
    Read(usize),
    /// Stop: this is the outcome of the exchange.
    Finish(Result<ExecuteResponse, RCONError>),
}

/// An [`Action`] with its bytes and its outcome as mathematical values.
pub enum ActionView {
    Write(Seq<u8>),
    ReadExact(nat),
    Read(nat),
    Finish(Result<ExecuteResponseView, RCONErrorView>),
}

impl View for Action {
    type V = ActionView;

    open spec fn view(&self) -> ActionView {
        match self {
            Action::Write(bytes) => ActionView::Write(bytes@),
            Action::ReadExact(n) => ActionView::ReadExact(*n as nat),
            Action::Read(n) => ActionView::Read(*n as nat),
            Action::Finish(Ok(reply)) => ActionView::Finish(Ok(reply@)),
            Action::Finish(Err(error)) => ActionView::Finish(Err(error@)),
        }
    }
}

/// How far an exchange has come.
pub enum Stage {
    /// The request is being written.
    Sending,
    /// The length field of the reply is awaited.
    AwaitLength,
    /// The id of the reply is awaited.
    AwaitId { length: i32 },
    /// The type of the reply is awaited.
    AwaitType { length: i32, id: i32 },
    /// The body is awaited: `wanted` bytes in all, of which `got` are here.
    AwaitBody { id: i32, kind: i32, wanted: nat, got: Seq<u8> },
    /// The body is decoded; the terminator is awaited.
    AwaitTerminator { reply: ExecuteResponseView },
    /// The exchange is over.
    Done,
}

impl Stage {
    /// While a body is awaited, part of it is still missing.
    pub open spec fn wf(self) -> bool {
        self matches Stage::AwaitBody { wanted, got, .. } ==> got.len() < wanted
    }
}

/// The text with which `String::from_utf8` turns down `bytes` that are no
/// UTF-8.
pub uninterp spec fn utf8_error_text(bytes: Seq<u8>) -> Seq<char>;

/// `bytes` read as UTF-8: the text that they encode, or why they encode
/// none.
pub open spec fn utf8_decoding(bytes: Seq<u8>) -> Result<Seq<char>, Seq<char>> {
    if valid_utf8(bytes) {
        Ok(decode_utf8(bytes))
    } else {
        Err(utf8_error_text(bytes))
    }
}

/// The exchange ends with `outcome`.
pub open spec fn finish(outcome: Result<ExecuteResponseView, RCONErrorView>) -> (Stage, ActionView) {
    (Stage::Done, ActionView::Finish(outcome))
}

/// What follows the body, given its decoding: with a text the terminator is
/// read next, without one the exchange fails.
pub open spec fn after_body(id: i32, kind: i32, decoded: Result<Seq<char>, Seq<char>>) -> (
    Stage,
    ActionView,
) {
    match decoded {
        Ok(text) => (
            Stage::AwaitTerminator {
                reply: ExecuteResponseView {
                    response_id: id,
                    response_type: kind,
                    response_body: text,
                },
            },
            ActionView::ReadExact(TERMINATOR_SIZE as nat),
        ),
        Err(why) => finish(Err(RCONErrorView::undecodable(why))),
    }
}

/// What follows a header that is complete: nothing but failure if it
/// declares less than an empty packet; the terminator at once if it
/// declares an empty body; else the first read of the body.
pub open spec fn after_header(length: i32, id: i32, kind: i32) -> (Stage, ActionView) {
    if length < LENGTH_OVERHEAD {
        finish(Err(RCONErrorView::negative_body()))
    } else if length == LENGTH_OVERHEAD {
        after_body(id, kind, utf8_decoding(Seq::empty()))
    } else {
        (
            Stage::AwaitBody {
                id,
                kind,
                wanted: (length - LENGTH_OVERHEAD) as nat,
                got: Seq::empty(),
            },
            ActionView::Read((length - LENGTH_OVERHEAD) as nat),
        )
    }
}

/// The step that an exchange at stage `s` takes on event `e`: the stage it
/// moves to and the action it asks for. There is none where `e` cannot be
/// what came of the action that led to `s`.
pub open spec fn next(s: Stage, e: EventView) -> Option<(Stage, ActionView)> {
    match s {
        Stage::Sending => match e {
            EventView::Written => Some(
                (Stage::AwaitLength, ActionView::ReadExact(FIELD_SIZE as nat)),
            ),
            EventView::Failed(why) => Some(finish(Err(RCONErrorView::request_failed(why)))),
            EventView::Data(_) => None,
        },
        Stage::AwaitLength => match e {
            EventView::Data(field) => if field.len() == FIELD_SIZE {
                Some(
                    (
                        Stage::AwaitId { length: le_value(field) },
                        ActionView::ReadExact(FIELD_SIZE as nat),
                    ),
                )
            } else {
                None
            },
            EventView::Failed(why) => Some(finish(Err(RCONErrorView::response_failed(why)))),
            EventView::Written => None,
        },
        Stage::AwaitId { length } => match e {
            EventView::Data(field) => if field.len() == FIELD_SIZE {
                Some(
                    (
                        Stage::AwaitType { length, id: le_value(field) },
                        ActionView::ReadExact(FIELD_SIZE as nat),
                    ),
                )
            } else {
                None
            },
            EventView::Failed(why) => Some(finish(Err(RCONErrorView::response_failed(why)))),
            EventView::Written => None,
        },
        Stage::AwaitType { length, id } => match e {
            EventView::Data(field) => if field.len() == FIELD_SIZE {
                Some(after_header(length, id, le_value(field)))
            } else {
                None
            },
            EventView::Failed(why) => Some(finish(Err(RCONErrorView::response_failed(why)))),
            EventView::Written => None,
        },
        Stage::AwaitBody { id, kind, wanted, got } => match e {
            EventView::Data(chunk) => if got.len() + chunk.len() > wanted {
                None
            } else if chunk.len() == 0 || got.len() + chunk.len() == wanted {
                Some(after_body(id, kind, utf8_decoding(got + chunk)))
            } else {
                Some(
                    (
                        Stage::AwaitBody { id, kind, wanted, got: got + chunk },
                        ActionView::Read((wanted - got.len() - chunk.len()) as nat),
                    ),
                )
            },
            EventView::Failed(_) => Some(after_body(id, kind, utf8_decoding(got))),
            EventView::Written => None,
        },
        Stage::AwaitTerminator { reply } => match e {
            EventView::Data(bytes) => if bytes.len() == TERMINATOR_SIZE {
                Some(finish(Ok(reply)))
            } else {
                None
            },
            EventView::Failed(_) => Some(finish(Ok(reply))),
            EventView::Written => None,
        },
        Stage::Done => None,
    }
}

/// Whether `begun` is how an exchange begins that sends `body` under `id` and
/// `kind`: with the request framed and to be written, or, where no packet
/// can carry `body`, with an error.
pub open spec fn begins(
    begun: Result<(Exchange, Action), RCONError>,
    id: i32,
    kind: i32,
    body: Seq<u8>,
) -> bool {
    if fits_packet(body.len()) {
        begun matches Ok((exchange, action)) && exchange@ == Stage::Sending && action@
            == ActionView::Write(packet(id, kind, body))
    } else {
        begun matches Err(error) && error@ == RCONErrorView::oversized_payload()
    }
}

/// `String::from_utf8`, with the error that it returns printed as text. It
/// succeeds exactly on well-formed UTF-8, and the string then holds the
/// characters that the bytes encode. What the error says is a matter of the
/// bytes alone, and goes by the name of [`utf8_error_text`].
#[verifier::external_body]
fn string_from_utf8(bytes: Vec<u8>) -> (decoded: Result<String, String>)
    ensures
        decoded is Ok <==> valid_utf8(bytes@),
        decoded matches Ok(text) ==> text@ == decode_utf8(bytes@),
        decoded matches Err(why) ==> why@ == utf8_error_text(bytes@),
{
    match String::from_utf8(bytes) {
        Ok(text) => Ok(text),
        Err(error) => Err(format!("{}", error)),
    }
}

#[derive(Debug)]
enum Progress {
    Sending,
    AwaitLength,
    AwaitId { length: i32 },
    AwaitType { length: i32, id: i32 },
    AwaitBody { id: i32, kind: i32, wanted: usize, got: Vec<u8> },
    AwaitTerminator { reply: ExecuteResponse },
    Done,
}

/// One request/response exchange in progress.
#[derive(Debug)]
pub struct Exchange {
    progress: Progress,
}

impl View for Exchange {
    type V = Stage;

    closed spec fn view(&self) -> Stage {
        match self.progress {
            Progress::Sending => Stage::Sending,
            Progress::AwaitLength => Stage::AwaitLength,
            Progress::AwaitId { length } => Stage::AwaitId { length },
            Progress::AwaitType { length, id } => Stage::AwaitType { length, id },
            Progress::AwaitBody { id, kind, wanted, got } => Stage::AwaitBody {
                id,
                kind,
                wanted: wanted as nat,
                got: got@,
            },
            Progress::AwaitTerminator { reply } => Stage::AwaitTerminator { reply: reply@ },
            Progress::Done => Stage::Done,
        }
    }
}

impl Exchange {
    #[verifier::type_invariant]
    spec fn inv(self) -> bool {
        self@.wf()
    }

    /// Begins an exchange: frames `payload` as a request with the given id
    /// and type, and asks for it to be written. A payload too long to frame
    /// is turned down.
    pub fn start(id: i32, kind: i32, payload: &str) -> (begun: Result<(Exchange, Action), RCONError>)
        ensures
            begins(begun, id, kind, encode_utf8(payload@)),
    {
        if fits_in_packet(payload) {
            Ok(
                (
                    Exchange { progress: Progress::Sending },
                    Action::Write(encode_request(id, kind, payload)),
                ),
            )
        } else {
            Err(RCONError::oversized_payload())
        }
    }

    /// Begins the exchange that authenticates: the password goes out as the
    /// body, under the request's id and type.
    pub fn auth(request: &AuthRequest) -> (begun: Result<(Exchange, Action), RCONError>)
        ensures
            begins(
                begun,
                wire_id(request@.id),
                wire_type(request@.request_type),
                encode_utf8(request@.password),
            ),
    {
        Self::start(
            to_wire_id(request.id),
            request.request_type as i32,
            request.password.as_str(),
        )
    }

    /// Begins the exchange that runs a command: the command goes out as the
    /// body, under the request's id and type.
    pub fn execute(request: &RCONRequest) -> (begun: Result<(Exchange, Action), RCONError>)
        ensures
            begins(
                begun,
                wire_id(request@.id),
                wire_type(request@.request_type),
                encode_utf8(request@.body),
            ),
    {
        Self::start(to_wire_id(request.id), request.request_type as i32, request.body.as_str())
    }

    /// Whether the exchange is over.
    pub fn is_done(&self) -> (yes: bool)
        ensures
            yes == (self@ is Done),
    {
        match self.progress {
            Progress::Done => true,
            _ => false,
        }
    }

    fn finish(outcome: Result<ExecuteResponse, RCONError>) -> (r: (Exchange, Action))
        ensures
            outcome matches Ok(reply) ==> (r.0@, r.1@) == finish(Ok(reply@)),
            outcome matches Err(error) ==> (r.0@, r.1@) == finish(Err(error@)),
    {
        (Exchange { progress: Progress::Done }, Action::Finish(outcome))
    }

    /// The step behind the body of a reply with the given id and type, once
    /// the body is decoded: on to the terminator with a text, failure
    /// without one.
    pub fn after_body(id: i32, kind: i32, decoded: Result<String, String>) -> (r: (Exchange, Action))
        ensures
            decoded matches Ok(text) ==> (r.0@, r.1@) == after_body(id, kind, Ok(text@)),
            decoded matches Err(why) ==> (r.0@, r.1@) == after_body(id, kind, Err(why@)),
    {
        match decoded {
            Ok(text) => (
                Exchange {
                    progress: Progress::AwaitTerminator {
                        reply: ExecuteResponse {
                            response_id: id,
                            response_type: kind,
                            response_body: text,
                        },
                    },
                },
                Action::ReadExact(TERMINATOR_SIZE),
            ),
            Err(why) => Self::finish(Err(RCONError::undecodable(why.as_str()))),
        }
    }

    /// The integer that a header field spells.
    fn field_value(field: &Vec<u8>) -> (value: i32)
        requires
            field@.len() == FIELD_SIZE,
        ensures
            value == le_value(field@),
    {
        let bytes: [u8; 4] = [field[0], field[1], field[2], field[3]];
        assert(bytes@ =~= field@);
        i32_from_le(bytes)
    }

    /// The step behind a complete header.
    fn after_header(length: i32, id: i32, kind: i32) -> (r: (Exchange, Action))
        ensures
            (r.0@, r.1@) == after_header(length, id, kind),
    {
        if length < LENGTH_OVERHEAD {
            Self::finish(Err(RCONError::negative_body()))
        } else if length == LENGTH_OVERHEAD {
            Self::after_body(id, kind, string_from_utf8(Vec::new()))
        } else {
            let wanted: usize = (length - LENGTH_OVERHEAD) as usize;
            (
                Exchange { progress: Progress::AwaitBody { id, kind, wanted, got: Vec::new() } },
                Action::Read(wanted),
            )
        }
    }

    /// Takes the step that `event` calls for: returns the exchange as it
    /// then stands and what the driver is to do next, or nothing if `event`
    /// cannot be what came of the action asked for last.
    pub fn step(self, event: Event) -> (r: Option<(Exchange, Action)>)
        ensures
            match next(self@, event@) {
                Some((stage, action)) => r matches Some((exchange, act)) && exchange@ == stage
                    && act@ == action,
                None => r is None,
            },
    {
        proof {
            use_type_invariant(&self);
        }
        match self.progress {
            Progress::Sending => match event {
                Event::Written => Some(
                    (Exchange { progress: Progress::AwaitLength }, Action::ReadExact(FIELD_SIZE)),
                ),
                Event::Failed(why) => Some(
                    Self::finish(Err(RCONError::request_failed(why.as_str()))),
                ),
                Event::Data(_) => None,
            },
            Progress::AwaitLength => match event {
                Event::Data(field) => if field.len() == FIELD_SIZE {
                    let length = Self::field_value(&field);
                    Some(
                        (
                            Exchange { progress: Progress::AwaitId { length } },
                            Action::ReadExact(FIELD_SIZE),
                        ),
                    )
                } else {
                    None
                },
                Event::Failed(why) => Some(
                    Self::finish(Err(RCONError::response_failed(why.as_str()))),
                ),
                Event::Written => None,
            },
            Progress::AwaitId { length } => match event {
                Event::Data(field) => if field.len() == FIELD_SIZE {
                    let id = Self::field_value(&field);
                    Some(
                        (
                            Exchange { progress: Progress::AwaitType { length, id } },
                            Action::ReadExact(FIELD_SIZE),
                        ),
                    )
                } else {
                    None
                },
                Event::Failed(why) => Some(
                    Self::finish(Err(RCONError::response_failed(why.as_str()))),
                ),
                Event::Written => None,
            },
            Progress::AwaitType { length, id } => match event {
                Event::Data(field) => if field.len() == FIELD_SIZE {
                    let kind = Self::field_value(&field);
                    Some(Self::after_header(length, id, kind))
                } else {
                    None
                },
                Event::Failed(why) => Some(
                    Self::finish(Err(RCONError::response_failed(why.as_str()))),
                ),
                Event::Written => None,
            },
            Progress::AwaitBody { id, kind, wanted, got } => match event {
                Event::Data(chunk) => {
                    let mut got = got;
                    let mut chunk = chunk;
                    let missing: usize = wanted - got.len();
                    if chunk.len() > missing {
                        None
                    } else if chunk.len() == 0 || chunk.len() == missing {
                        got.append(&mut chunk);
                        Some(Self::after_body(id, kind, string_from_utf8(got)))
                    } else {
                        let rest: usize = missing - chunk.len();
                        got.append(&mut chunk);
                        Some(
                            (
                                Exchange { progress: Progress::AwaitBody { id, kind, wanted, got } },
                                Action::Read(rest),
                            ),
                        )
                    }
                },
                Event::Failed(_) => Some(Self::after_body(id, kind, string_from_utf8(got))),
                Event::Written => None,
            },
            Progress::AwaitTerminator { reply } => match event {
                Event::Data(bytes) => if bytes.len() == TERMINATOR_SIZE {
                    Some(Self::finish(Ok(reply)))
                } else {
                    None
                },
                Event::Failed(_) => Some(Self::finish(Ok(reply))),
                Event::Written => None,
            },
            Progress::Done => None,
        }
    }
}

} // verus!
