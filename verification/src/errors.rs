//! The two ways an exchange can fail.

use vstd::prelude::*;
use vstd::string::*;

verus! {

/// Why a call failed.
#[derive(Debug, PartialEq, Eq)]
pub enum RCONError {
    /// The stream could not be opened, configured, written to or read from.
    /// The text says what happened.
    TcpConnectionError(String),
    /// Bytes that arrived could not be turned into a value. The text says
    /// what happened.
    TypeError(String),
}

/// An [`RCONError`] with its text as a sequence of characters.
pub enum RCONErrorView {
    TcpConnectionError(Seq<char>),
    TypeError(Seq<char>),
}

impl View for RCONError {
    type V = RCONErrorView;

    open spec fn view(&self) -> RCONErrorView {
        match self {
            RCONError::TcpConnectionError(detail) => RCONErrorView::TcpConnectionError(detail@),
            RCONError::TypeError(detail) => RCONErrorView::TypeError(detail@),
        }
    }
}

impl RCONErrorView {
    /// The line shown to a person: the kind of the error, then its text.
    pub open spec fn message(self) -> Seq<char> {
        match self {
            RCONErrorView::TcpConnectionError(detail) => "TCP connection error: "@ + detail,
            RCONErrorView::TypeError(detail) => "Error with types conversion: "@ + detail,
        }
    }

    /// The server could not be reached; `why` is what the system said.
    pub open spec fn connect_failed(why: Seq<char>) -> RCONErrorView {
        RCONErrorView::TcpConnectionError("TCP connection error: "@ + why)
    }

    /// The stream did not take the write timeout; `why` is what the system
    /// said.
    pub open spec fn write_timeout_refused(why: Seq<char>) -> RCONErrorView {
        RCONErrorView::TcpConnectionError("Cannot set socket write_timeout: "@ + why)
    }

    /// The stream did not take the read timeout; `why` is what the system
    /// said.
    pub open spec fn read_timeout_refused(why: Seq<char>) -> RCONErrorView {
        RCONErrorView::TcpConnectionError("Cannot set socket read_timeout: "@ + why)
    }

    /// The request could not be written; `why` is what the stream said.
    pub open spec fn request_failed(why: Seq<char>) -> RCONErrorView {
        RCONErrorView::TcpConnectionError("TCP request error "@ + why)
    }

    /// A field of the reply's header could not be read in full; `why` is
    /// what the stream said.
    pub open spec fn response_failed(why: Seq<char>) -> RCONErrorView {
        RCONErrorView::TcpConnectionError("TCP response error "@ + why)
    }

    /// The body of the reply is no UTF-8 text; `why` says where it breaks.
    pub open spec fn undecodable(why: Seq<char>) -> RCONErrorView {
        RCONErrorView::TypeError("TypeError: "@ + why)
    }

    /// The reply declares a length that leaves less than no room for a body.
    pub open spec fn negative_body() -> RCONErrorView {
        RCONErrorView::TypeError("TypeError: the declared length leaves no room for a body"@)
    }

    /// The payload of a request is too long for the length field of a packet.
    pub open spec fn oversized_payload() -> RCONErrorView {
        RCONErrorView::TypeError("TypeError: the payload does not fit in a packet"@)
    }
}

/// `prefix` followed by `detail`.
fn prefixed(prefix: &str, detail: &str) -> (text: String)
    ensures
        text@ == prefix@ + detail@,
{
    String::from_str(prefix).concat(detail)
}

impl RCONError {
    /// The line shown to a person: the kind of the error, then its text.
    pub fn message(&self) -> (text: String)
        ensures
            text@ == self@.message(),
    {
        match self {
            RCONError::TcpConnectionError(detail) => prefixed(
                "TCP connection error: ",
                detail.as_str(),
            ),
            RCONError::TypeError(detail) => prefixed(
                "Error with types conversion: ",
                detail.as_str(),
            ),
        }
    }

    /// The error for a server that could not be reached.
    pub fn connect_failed(why: &str) -> (error: RCONError)
        ensures
            error@ == RCONErrorView::connect_failed(why@),
    {
        RCONError::TcpConnectionError(prefixed("TCP connection error: ", why))
    }

    /// The error for a stream that did not take the write timeout.
    pub fn write_timeout_refused(why: &str) -> (error: RCONError)
        ensures
            error@ == RCONErrorView::write_timeout_refused(why@),
    {
        RCONError::TcpConnectionError(prefixed("Cannot set socket write_timeout: ", why))
    }

    /// The error for a stream that did not take the read timeout.
    pub fn read_timeout_refused(why: &str) -> (error: RCONError)
        ensures
            error@ == RCONErrorView::read_timeout_refused(why@),
    {
        RCONError::TcpConnectionError(prefixed("Cannot set socket read_timeout: ", why))
    }

    /// The error for a request that could not be written.
    pub fn request_failed(why: &str) -> (error: RCONError)
        ensures
            error@ == RCONErrorView::request_failed(why@),
    {
        RCONError::TcpConnectionError(prefixed("TCP request error ", why))
    }

    /// The error for a header field that could not be read in full.
    pub fn response_failed(why: &str) -> (error: RCONError)
        ensures
            error@ == RCONErrorView::response_failed(why@),
    {
        RCONError::TcpConnectionError(prefixed("TCP response error ", why))
    }

    /// The error for a body that is no UTF-8 text.
    pub fn undecodable(why: &str) -> (error: RCONError)
        ensures
            error@ == RCONErrorView::undecodable(why@),
    {
        RCONError::TypeError(prefixed("TypeError: ", why))
    }

    /// The error for a reply whose declared length is below that of an
    /// empty packet.
    pub fn negative_body() -> (error: RCONError)
        ensures
            error@ == RCONErrorView::negative_body(),
    {
        RCONError::TypeError(
            String::from_str("TypeError: the declared length leaves no room for a body"),
        )
    }

    /// The error for a payload that no packet can carry.
    pub fn oversized_payload() -> (error: RCONError)
        ensures
            error@ == RCONErrorView::oversized_payload(),
    {
        RCONError::TypeError(String::from_str("TypeError: the payload does not fit in a packet"))
    }
}

} // verus!
