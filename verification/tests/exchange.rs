use rcon_client::wire::encode_request;
use rcon_client::{
    Action, AuthRequest, AuthResponse, Event, Exchange, ExecuteResponse, RCONError, RCONRequest,
    RCONResponse,
};

/// A stream in memory: it takes what is written, delivers `incoming` in
/// reads of at most `chunk` bytes, and then behaves as `end` says.
struct Script {
    incoming: Vec<u8>,
    at: usize,
    chunk: usize,
    end: End,
    fail_write: bool,
    written: Vec<u8>,
    log: Vec<String>,
}

#[derive(Clone, Copy)]
enum End {
    /// Reads return nothing.
    Closed,
    /// Reads fail.
    TimedOut,
}

impl Script {
    fn new(incoming: Vec<u8>) -> Script {
        Script {
            incoming,
            at: 0,
            chunk: usize::MAX,
            end: End::Closed,
            fail_write: false,
            written: Vec::new(),
            log: Vec::new(),
        }
    }

    fn left(&self) -> usize {
        self.incoming.len() - self.at
    }

    fn take(&mut self, n: usize) -> Vec<u8> {
        let bytes = self.incoming[self.at..self.at + n].to_vec();
        self.at += n;
        bytes
    }

    fn write(&mut self, bytes: Vec<u8>) -> Event {
        self.log.push(format!("write {}", bytes.len()));
        if self.fail_write {
            return Event::Failed("Broken pipe (os error 32)".to_string());
        }
        self.written = bytes;
        Event::Written
    }

    fn read_exact(&mut self, n: usize) -> Event {
        self.log.push(format!("read_exact {}", n));
        if self.left() >= n {
            return Event::Data(self.take(n));
        }
        self.at = self.incoming.len();
        match self.end {
            End::Closed => Event::Failed("failed to fill whole buffer".to_string()),
            End::TimedOut => Event::Failed("Resource temporarily unavailable (os error 11)".to_string()),
        }
    }

    fn read(&mut self, n: usize) -> Event {
        self.log.push(format!("read {}", n));
        if self.left() > 0 {
            let n = n.min(self.chunk).min(self.left());
            return Event::Data(self.take(n));
        }
        match self.end {
            End::Closed => Event::Data(Vec::new()),
            End::TimedOut => Event::Failed("Resource temporarily unavailable (os error 11)".to_string()),
        }
    }
}

/// Performs what the exchange asks for on `stream` until it is over.
fn drive(
    begun: Result<(Exchange, Action), RCONError>,
    stream: &mut Script,
) -> Result<ExecuteResponse, RCONError> {
    let (mut exchange, mut action) = begun?;
    loop {
        assert!(!exchange.is_done());
        let event = match action {
            Action::Write(bytes) => stream.write(bytes),
            Action::ReadExact(n) => stream.read_exact(n),
            Action::Read(n) => stream.read(n),
            Action::Finish(_) => panic!("an exchange that is not over has another action"),
        };
        match exchange.step(event) {
            Some((then, Action::Finish(outcome))) => {
                assert!(then.is_done());
                return outcome;
            },
            Some((then, next)) => {
                exchange = then;
                action = next;
            },
            None => panic!("the exchange turned down what its own action brought"),
        }
    }
}

fn run(id: i32, kind: i32, payload: &str, stream: &mut Script) -> Result<ExecuteResponse, RCONError> {
    drive(Exchange::start(id, kind, payload), stream)
}

fn ok(id: i32, kind: i32, body: &str) -> Result<ExecuteResponse, RCONError> {
    Ok(ExecuteResponse { response_id: id, response_type: kind, response_body: body.to_string() })
}

/// The bytes of a reply whose header declares `length`, followed by `rest`.
fn reply(length: i32, id: i32, kind: i32, rest: &[u8]) -> Vec<u8> {
    let mut bytes = Vec::new();
    bytes.extend_from_slice(&length.to_le_bytes());
    bytes.extend_from_slice(&id.to_le_bytes());
    bytes.extend_from_slice(&kind.to_le_bytes());
    bytes.extend_from_slice(rest);
    bytes
}

fn log(stream: &Script) -> Vec<&str> {
    stream.log.iter().map(|line| line.as_str()).collect()
}

fn awaiting_body(length: i32) -> (Exchange, Action) {
    let (exchange, _) = Exchange::start(1, 2, "").unwrap();
    let (exchange, _) = exchange.step(Event::Written).unwrap();
    let (exchange, _) = exchange.step(Event::Data(length.to_le_bytes().to_vec())).unwrap();
    let (exchange, _) = exchange.step(Event::Data(vec![1, 0, 0, 0])).unwrap();
    exchange.step(Event::Data(vec![0, 0, 0, 0])).unwrap()
}

#[test]
fn start_asks_for_the_request_to_be_written() {
    let (exchange, action) = Exchange::start(1, 3, "passwrd").unwrap();
    assert!(!exchange.is_done());
    assert_eq!(
        action,
        Action::Write(vec![
            17, 0, 0, 0, 1, 0, 0, 0, 3, 0, 0, 0, b'p', b'a', b's', b's', b'w', b'r', b'd', 0, 0
        ])
    );
}

#[test]
fn whole_reply_is_returned() {
    let mut stream = Script::new(encode_request(7, 0, "hostname: test"));
    assert_eq!(run(7, 2, "status", &mut stream), ok(7, 0, "hostname: test"));
    assert_eq!(stream.written, encode_request(7, 2, "status"));
    assert_eq!(
        log(&stream),
        ["write 20", "read_exact 4", "read_exact 4", "read_exact 4", "read 14", "read_exact 2"]
    );
    assert_eq!(stream.left(), 0);
}

#[test]
fn reply_is_read_back_as_it_was_framed() {
    for text in ["", "a", "players: 0\n", "h\u{e9}llo \u{1f600} w\u{f6}rld", "\0\0"] {
        for chunk in [1, 2, 3, 7, usize::MAX] {
            let mut stream = Script::new(encode_request(-5, 9, text));
            stream.chunk = chunk;
            assert_eq!(run(1, 2, "list", &mut stream), ok(-5, 9, text));
            assert_eq!(stream.left(), 0);
        }
    }
}

#[test]
fn body_is_collected_from_several_reads() {
    let mut stream = Script::new(encode_request(3, 0, "0123456789"));
    stream.chunk = 4;
    assert_eq!(run(3, 2, "x", &mut stream), ok(3, 0, "0123456789"));
    assert_eq!(
        log(&stream),
        [
            "write 15",
            "read_exact 4",
            "read_exact 4",
            "read_exact 4",
            "read 10",
            "read 6",
            "read 2",
            "read_exact 2"
        ]
    );
}

#[test]
fn no_header_is_a_connection_error() {
    let mut stream = Script::new(Vec::new());
    assert_eq!(
        run(1, 2, "status", &mut stream),
        Err(RCONError::TcpConnectionError(
            "TCP response error failed to fill whole buffer".to_string()
        ))
    );
    assert_eq!(log(&stream), ["write 20", "read_exact 4"]);
}

#[test]
fn short_header_is_a_connection_error() {
    for n in 0..12 {
        let whole = reply(15, 1, 0, b"hello\0\0");
        let mut stream = Script::new(whole[..n].to_vec());
        let outcome = run(1, 2, "status", &mut stream);
        assert_eq!(
            outcome,
            Err(RCONError::TcpConnectionError(
                "TCP response error failed to fill whole buffer".to_string()
            ))
        );
        assert!(stream.log.iter().all(|line| !line.starts_with("read ")));
        assert_eq!(stream.log.len(), 2 + n / 4);
    }
}

#[test]
fn header_that_times_out_is_a_connection_error() {
    let mut stream = Script::new(vec![15, 0, 0, 0, 1, 0]);
    stream.end = End::TimedOut;
    assert_eq!(
        run(1, 2, "status", &mut stream),
        Err(RCONError::TcpConnectionError(
            "TCP response error Resource temporarily unavailable (os error 11)".to_string()
        ))
    );
    assert_eq!(log(&stream), ["write 20", "read_exact 4", "read_exact 4"]);
}

#[test]
fn failed_write_is_a_connection_error() {
    let mut stream = Script::new(encode_request(1, 0, "never read"));
    stream.fail_write = true;
    assert_eq!(
        run(1, 2, "status", &mut stream),
        Err(RCONError::TcpConnectionError(
            "TCP request error Broken pipe (os error 32)".to_string()
        ))
    );
    assert_eq!(log(&stream), ["write 20"]);
    assert_eq!(stream.left(), 24);
}

#[test]
fn short_body_is_returned_as_far_as_it_came() {
    let body = "forty bytes of a body that should be 100";
    assert_eq!(body.len(), 40);
    let mut stream = Script::new(reply(110, 4, 0, body.as_bytes()));
    let outcome = run(4, 2, "status", &mut stream);
    assert_eq!(outcome, ok(4, 0, body));
    assert_eq!(outcome.unwrap().response_body.len(), 40);
    assert_eq!(
        log(&stream),
        [
            "write 20",
            "read_exact 4",
            "read_exact 4",
            "read_exact 4",
            "read 100",
            "read 60",
            "read_exact 2"
        ]
    );
}

#[test]
fn short_body_is_returned_when_the_stream_fails() {
    let body = "forty bytes of a body that should be 100";
    let mut stream = Script::new(reply(110, 4, 0, body.as_bytes()));
    stream.end = End::TimedOut;
    stream.chunk = 16;
    assert_eq!(run(4, 2, "status", &mut stream), ok(4, 0, body));
    assert_eq!(
        log(&stream),
        [
            "write 20",
            "read_exact 4",
            "read_exact 4",
            "read_exact 4",
            "read 100",
            "read 84",
            "read 68",
            "read 60",
            "read_exact 2"
        ]
    );
}

#[test]
fn body_that_never_comes_is_empty() {
    let mut stream = Script::new(reply(110, 4, 0, b""));
    assert_eq!(run(4, 2, "status", &mut stream), ok(4, 0, ""));
    let mut stream = Script::new(reply(110, 4, 0, b""));
    stream.end = End::TimedOut;
    assert_eq!(run(4, 2, "status", &mut stream), ok(4, 0, ""));
}

#[test]
fn missing_terminator_is_tolerated() {
    let mut stream = Script::new(reply(15, 6, 0, b"hello"));
    assert_eq!(run(6, 2, "status", &mut stream), ok(6, 0, "hello"));
    assert_eq!(
        log(&stream),
        ["write 20", "read_exact 4", "read_exact 4", "read_exact 4", "read 5", "read_exact 2"]
    );
    let mut stream = Script::new(reply(15, 6, 0, b"hello\0"));
    stream.end = End::TimedOut;
    assert_eq!(run(6, 2, "status", &mut stream), ok(6, 0, "hello"));
}

#[test]
fn terminator_is_not_looked_at() {
    let mut stream = Script::new(reply(15, 6, 0, b"helloXY"));
    assert_eq!(run(6, 2, "status", &mut stream), ok(6, 0, "hello"));
    assert_eq!(stream.left(), 0);
}

#[test]
fn invalid_utf8_is_a_decoding_error() {
    let mut stream = Script::new(reply(13, 6, 0, &[b'a', 0xff, b'b', 0, 0]));
    assert_eq!(
        run(6, 2, "status", &mut stream),
        Err(RCONError::TypeError(
            "TypeError: invalid utf-8 sequence of 1 bytes from index 1".to_string()
        ))
    );
    assert_eq!(
        log(&stream),
        ["write 20", "read_exact 4", "read_exact 4", "read_exact 4", "read 3"]
    );
}

#[test]
fn invalid_utf8_is_a_decoding_error_whatever_the_header() {
    for (id, kind) in [(0, 0), (-1, 2), (i32::MAX, i32::MIN), (77, -3)] {
        let mut stream = Script::new(reply(12, id, kind, &[0xc3, 0x28, 0, 0]));
        let outcome = run(6, 2, "status", &mut stream);
        assert!(matches!(outcome, Err(RCONError::TypeError(_))));
    }
}

#[test]
fn body_cut_inside_a_character_is_a_decoding_error() {
    let whole = "h\u{e9}";
    let mut stream = Script::new(reply(13, 6, 0, &whole.as_bytes()[..2]));
    assert_eq!(
        run(6, 2, "status", &mut stream),
        Err(RCONError::TypeError(
            "TypeError: incomplete utf-8 byte sequence from index 1".to_string()
        ))
    );
}

#[test]
fn empty_body_is_an_empty_string() {
    let mut stream = Script::new(reply(10, 9, 0, &[0, 0]));
    assert_eq!(run(9, 2, "status", &mut stream), ok(9, 0, ""));
    assert_eq!(
        log(&stream),
        ["write 20", "read_exact 4", "read_exact 4", "read_exact 4", "read_exact 2"]
    );
    assert_eq!(stream.left(), 0);
}

#[test]
fn empty_body_without_terminator() {
    let mut stream = Script::new(reply(10, 9, 0, &[]));
    assert_eq!(run(9, 2, "status", &mut stream), ok(9, 0, ""));
    assert_eq!(
        log(&stream),
        ["write 20", "read_exact 4", "read_exact 4", "read_exact 4", "read_exact 2"]
    );
}

#[test]
fn length_below_ten_is_a_decoding_error() {
    for length in [9, 1, 0, -1, -10, i32::MIN] {
        let mut stream = Script::new(reply(length, 9, 0, b"whatever\0\0"));
        assert_eq!(
            run(9, 2, "status", &mut stream),
            Err(RCONError::TypeError(
                "TypeError: the declared length leaves no room for a body".to_string()
            ))
        );
        assert_eq!(log(&stream), ["write 20", "read_exact 4", "read_exact 4", "read_exact 4"]);
    }
}

#[test]
fn auth_that_fails_is_no_error() {
    let request = AuthRequest::with_id(21, "wrong".to_string());
    let mut stream = Script::new(encode_request(-1, 2, ""));
    let outcome = drive(Exchange::auth(&request), &mut stream);
    assert_eq!(stream.written, encode_request(21, 3, "wrong"));
    let response = AuthResponse::from_reply(&outcome.unwrap());
    assert_eq!(response, AuthResponse { id: -1, response_type: 2 });
    assert!(!response.is_success());
}

#[test]
fn auth_that_succeeds_echoes_the_id() {
    let request = AuthRequest::with_id(21, "right".to_string());
    let mut stream = Script::new(encode_request(21, 2, ""));
    let outcome = drive(Exchange::auth(&request), &mut stream);
    let response = AuthResponse::from_reply(&outcome.unwrap());
    assert_eq!(response, AuthResponse { id: 21, response_type: 2 });
    assert!(response.is_success());
}

#[test]
fn auth_sends_the_low_bits_of_a_wide_id() {
    let request = AuthRequest { id: usize::MAX - 2, request_type: 3, password: "pw".to_string() };
    let (_, action) = Exchange::auth(&request).unwrap();
    assert_eq!(action, Action::Write(encode_request(-3, 3, "pw")));
}

#[test]
fn command_passes_through() {
    let request = RCONRequest { id: 5, request_type: 2, body: "say hi".to_string() };
    let mut stream = Script::new(encode_request(5, 0, "Console: hi"));
    stream.chunk = 5;
    let outcome = drive(Exchange::execute(&request), &mut stream);
    assert_eq!(stream.written, encode_request(5, 2, "say hi"));
    assert_eq!(
        RCONResponse::from_reply(outcome.unwrap()),
        RCONResponse { id: 5, response_type: 0, body: "Console: hi".to_string() }
    );
}

#[test]
fn command_of_any_type_passes_through() {
    let request = RCONRequest { id: 0, request_type: 200, body: String::new() };
    let (_, action) = Exchange::execute(&request).unwrap();
    assert_eq!(action, Action::Write(vec![10, 0, 0, 0, 0, 0, 0, 0, 200, 0, 0, 0, 0, 0]));
}

#[test]
fn write_is_answered_by_written_or_failed() {
    let (exchange, _) = Exchange::start(1, 2, "").unwrap();
    assert!(exchange.step(Event::Data(vec![0, 0, 0, 0])).is_none());
    let (exchange, _) = Exchange::start(1, 2, "").unwrap();
    assert_eq!(exchange.step(Event::Written).unwrap().1, Action::ReadExact(4));
}

#[test]
fn header_field_is_four_bytes() {
    for bytes in [vec![], vec![1], vec![1, 2, 3], vec![1, 2, 3, 4, 5]] {
        let (exchange, _) = Exchange::start(1, 2, "").unwrap();
        let (exchange, _) = exchange.step(Event::Written).unwrap();
        assert!(exchange.step(Event::Data(bytes)).is_none());
    }
    let (exchange, _) = Exchange::start(1, 2, "").unwrap();
    let (exchange, _) = exchange.step(Event::Written).unwrap();
    assert!(exchange.step(Event::Written).is_none());
}

#[test]
fn read_returns_no_more_than_asked() {
    let (exchange, action) = awaiting_body(13);
    assert_eq!(action, Action::Read(3));
    assert!(exchange.step(Event::Data(vec![b'a'; 4])).is_none());
    let (exchange, _) = awaiting_body(13);
    let (exchange, action) = exchange.step(Event::Data(vec![b'a'; 2])).unwrap();
    assert_eq!(action, Action::Read(1));
    assert!(exchange.step(Event::Data(vec![b'a'; 2])).is_none());
}

#[test]
fn terminator_is_two_bytes_or_a_failure() {
    let (exchange, action) = awaiting_body(10);
    assert_eq!(action, Action::ReadExact(2));
    assert!(exchange.step(Event::Data(vec![0])).is_none());
    let (exchange, _) = awaiting_body(10);
    assert!(exchange.step(Event::Written).is_none());
    let (exchange, _) = awaiting_body(10);
    assert_eq!(exchange.step(Event::Data(vec![0, 0])).unwrap().1, Action::Finish(ok(1, 0, "")));
    let (exchange, _) = awaiting_body(10);
    assert_eq!(
        exchange.step(Event::Failed("gone".to_string())).unwrap().1,
        Action::Finish(ok(1, 0, ""))
    );
}

#[test]
fn nothing_follows_the_end() {
    let (exchange, _) = awaiting_body(10);
    let (exchange, _) = exchange.step(Event::Data(vec![0, 0])).unwrap();
    assert!(exchange.is_done());
    assert!(exchange.step(Event::Written).is_none());
    let (exchange, _) = Exchange::start(1, 2, "").unwrap();
    let (exchange, _) = exchange.step(Event::Failed("down".to_string())).unwrap();
    assert!(exchange.is_done());
    assert!(exchange.step(Event::Data(Vec::new())).is_none());
}

#[test]
fn body_decoded_elsewhere_goes_on_to_the_terminator() {
    let (exchange, action) = Exchange::after_body(3, 4, Ok("text".to_string()));
    assert_eq!(action, Action::ReadExact(2));
    assert_eq!(
        exchange.step(Event::Data(vec![0, 0])).unwrap().1,
        Action::Finish(ok(3, 4, "text"))
    );
    let (exchange, action) = Exchange::after_body(3, 4, Err("no text".to_string()));
    assert!(exchange.is_done());
    assert_eq!(
        action,
        Action::Finish(Err(RCONError::TypeError("TypeError: no text".to_string())))
    );
}
