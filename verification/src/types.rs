//! The values that go into an exchange and come out of it.

use crate::wire::{of_pattern, pattern};
use rand::Rng;
use vstd::prelude::*;

verus! {

/// Request type of an authentication request.
pub const SERVERDATA_AUTH: u8 = 3;

/// Request type of a command to execute.
pub const SERVERDATA_EXECCOMMAND: u8 = 2;

/// What one exchange returns: the id and the type that the server sent, and
/// the body of its reply as text.
#[derive(Debug, PartialEq, Eq)]
pub struct ExecuteResponse {
    pub response_id: i32,
    pub response_type: i32,
    pub response_body: String,
}

/// An [`ExecuteResponse`] with its body as a sequence of characters.
pub struct ExecuteResponseView {
    pub response_id: i32,
    pub response_type: i32,
    pub response_body: Seq<char>,
}

impl View for ExecuteResponse {
    type V = ExecuteResponseView;

    open spec fn view(&self) -> ExecuteResponseView {
        ExecuteResponseView {
            response_id: self.response_id,
            response_type: self.response_type,
            response_body: self.response_body@,
        }
    }
}

/// A request to authenticate.
#[derive(Debug, PartialEq, Eq)]
pub struct AuthRequest {
    pub id: usize,
    pub request_type: u8,
    pub password: String,
}

/// An [`AuthRequest`] with its password as a sequence of characters.
pub struct AuthRequestView {
    pub id: usize,
    pub request_type: u8,
    pub password: Seq<char>,
}

impl View for AuthRequest {
    type V = AuthRequestView;

    open spec fn view(&self) -> AuthRequestView {
        AuthRequestView {
            id: self.id,
            request_type: self.request_type,
            password: self.password@,
        }
    }
}

/// The server's answer to an [`AuthRequest`].
#[derive(Debug, Clone, Copy, PartialEq, Eq, Structural)]
pub struct AuthResponse {
    pub id: isize,
    pub response_type: u8,
}

/// A command for the server's console.
#[derive(Debug, PartialEq, Eq)]
pub struct RCONRequest {
    pub id: usize,
    pub request_type: u8,
    pub body: String,
}

/// An [`RCONRequest`] with its body as a sequence of characters.
pub struct RCONRequestView {
    pub id: usize,
    pub request_type: u8,
    pub body: Seq<char>,
}

impl View for RCONRequest {
    type V = RCONRequestView;

    open spec fn view(&self) -> RCONRequestView {
        RCONRequestView { id: self.id, request_type: self.request_type, body: self.body@ }
    }
}

/// The server's answer to an [`RCONRequest`].
#[derive(Debug, PartialEq, Eq)]
pub struct RCONResponse {
    pub id: isize,
    pub response_type: u8,
    pub body: String,
}

/// An [`RCONResponse`] with its body as a sequence of characters.
pub struct RCONResponseView {
    pub id: isize,
    pub response_type: u8,
    pub body: Seq<char>,
}

impl View for RCONResponse {
    type V = RCONResponseView;

    open spec fn view(&self) -> RCONResponseView {
        RCONResponseView { id: self.id, response_type: self.response_type, body: self.body@ }
    }
}

/// The id of a request as it goes on the wire: its low 32 bits, read as a
/// signed integer.
pub open spec fn wire_id(id: usize) -> i32 {
    of_pattern(id as int % 0x1_0000_0000)
}

/// The type of a request as it goes on the wire.
pub open spec fn wire_type(request_type: u8) -> i32 {
    request_type as i32
}

/// The id of a reply as the caller sees it.
pub open spec fn reply_id(response_id: i32) -> isize {
    response_id as isize
}

/// The type of a reply as the caller sees it: its low 8 bits.
pub open spec fn reply_type(response_type: i32) -> u8 {
    (pattern(response_type) % 256) as u8
}

/// What the caller of an authentication sees of `reply`.
pub open spec fn auth_response(reply: ExecuteResponseView) -> AuthResponse {
    AuthResponse {
        id: reply_id(reply.response_id),
        response_type: reply_type(reply.response_type),
    }
}

/// What the caller of a command sees of `reply`.
pub open spec fn command_response(reply: ExecuteResponseView) -> RCONResponseView {
    RCONResponseView {
        id: reply_id(reply.response_id),
        response_type: reply_type(reply.response_type),
        body: reply.response_body,
    }
}

/// Narrows the id of a request to the 32 bits that a packet has for it. An
/// id that fits in them is kept.
pub fn to_wire_id(id: usize) -> (wire: i32)
    ensures
        wire == wire_id(id),
        id <= i32::MAX ==> wire == id,
{
    let wire: i32 = #[verifier::truncate]
    (id as i32);
    assert(wire >= 0 ==> wire == (id as u64) % 0x1_0000_0000) by (bit_vector)
        requires
            wire == id as i32,
    ;
    assert(wire < 0 ==> wire + 0x1_0000_0000 == (id as u64) % 0x1_0000_0000) by (bit_vector)
        requires
            wire == id as i32,
    ;
    wire
}

/// Narrows the type of a reply to the 8 bits that the caller sees of it. A
/// type from 0 to 255 is kept.
pub fn to_reply_type(response_type: i32) -> (seen: u8)
    ensures
        seen == reply_type(response_type),
        0 <= response_type <= u8::MAX ==> seen == response_type,
{
    let seen: u8 = #[verifier::truncate]
    (response_type as u8);
    assert(response_type >= 0 ==> seen == response_type % 256) by (bit_vector)
        requires
            seen == response_type as u8,
    ;
    assert(response_type < 0 ==> seen == (response_type + 0x1_0000_0000) % 256) by (bit_vector)
        requires
            seen == response_type as u8,
    ;
    seen
}

/// `rand::thread_rng()` and `rand::Rng::gen` on it, for a `usize`: a number
/// drawn from the generator of the calling thread. Nothing is known of the
/// number. The generator is seeded from the system when a thread first uses
/// it, and panics where the system has no randomness to give.
#[verifier::external_body]
fn random_id() -> usize {
    rand::thread_rng().gen::<usize>()
}

impl AuthRequest {
    /// An authentication request for `password` under a random id.
    pub fn new(password: String) -> (request: Self)
        ensures
            request@.request_type == SERVERDATA_AUTH,
            request@.password == password@,
    {
        Self::with_id(random_id(), password)
    }

    /// An authentication request for `password` under `id`.
    pub fn with_id(id: usize, password: String) -> (request: Self)
        ensures
            request@ == (AuthRequestView { id, request_type: SERVERDATA_AUTH, password: password@ }),
    {
        AuthRequest { id, request_type: SERVERDATA_AUTH, password }
    }
}

impl AuthResponse {
    /// Whether the server accepted the password: it echoes -1 in place of
    /// the request's id when it did not.
    pub open spec fn accepted(self) -> bool {
        self.id != -1
    }

    /// What the caller of an authentication sees of the server's reply.
    pub fn from_reply(reply: &ExecuteResponse) -> (response: Self)
        ensures
            response == auth_response(reply@),
    {
        AuthResponse {
            id: reply.response_id as isize,
            response_type: to_reply_type(reply.response_type),
        }
    }

    /// Whether the server accepted the password.
    pub fn is_success(&self) -> (yes: bool)
        ensures
            yes == self.accepted(),
    {
        if self.id == -1 {
            return false;
        }
        true
    }
}

impl RCONResponse {
    /// What the caller of a command sees of the server's reply.
    pub fn from_reply(reply: ExecuteResponse) -> (response: Self)
        ensures
            response@ == command_response(reply@),
    {
        RCONResponse {
            id: reply.response_id as isize,
            response_type: to_reply_type(reply.response_type),
            body: reply.response_body,
        }
    }
}

/// An authentication counts as accepted exactly when the server's reply
/// carries an id other than -1, whatever else the reply holds.
pub proof fn lemma_auth_accepted_unless_minus_one(reply: ExecuteResponseView)
    ensures
        auth_response(reply).accepted() <==> reply.response_id != -1,
{
}

/// The id and the type of a reply reach the caller unchanged where they fit:
/// every id does, and every type from 0 to 255.
pub proof fn lemma_reply_fields_kept(reply: ExecuteResponseView)
    ensures
        command_response(reply).id == reply.response_id,
        auth_response(reply).id == reply.response_id,
        0 <= reply.response_type <= u8::MAX ==> command_response(reply).response_type
            == reply.response_type && auth_response(reply).response_type == reply.response_type,
        command_response(reply).body == reply.response_body,
{
}

} // verus!
