//! Whole exchanges: what an exchange comes to when a given run of events
//! is fed to it, and what that says of the stream behind the events.

use crate::errors::RCONErrorView;
use crate::exchange::{
    after_body, after_header, finish, next, utf8_decoding, utf8_error_text, ActionView,
    EventView, Stage, FIELD_SIZE, TERMINATOR_SIZE,
};
use crate::types::ExecuteResponseView;
use crate::wire::{le_value, lemma_packet_shape, packet, LENGTH_OVERHEAD};
use vstd::prelude::*;
use vstd::utf8::{
    decode_utf8, encode_utf8, encode_utf8_decode_utf8, encode_utf8_valid_utf8, valid_utf8,
};

verus! {

/// Where an exchange stands and what it asked for last, after `events` have
/// been fed, in order, to an exchange that stood at `at.0` and had asked for
/// `at.1`. There is no such place if one of the events is turned down.
pub open spec fn run(at: (Stage, ActionView), events: Seq<EventView>) -> Option<
    (Stage, ActionView),
>
    decreases events.len(),
{
    if events.len() == 0 {
        Some(at)
    } else {
        match next(at.0, events.first()) {
            Some(then) => run(then, events.drop_first()),
            None => None,
        }
    }
}

/// What an exchange at stage `at` asks for, one action for each of `events`
/// as they are fed to it in order, up to the first that it turns down.
pub open spec fn asked(at: Stage, events: Seq<EventView>) -> Seq<ActionView>
    decreases events.len(),
{
    if events.len() == 0 {
        Seq::empty()
    } else {
        match next(at, events.first()) {
            Some((then, action)) => seq![action] + asked(then, events.drop_first()),
            None => Seq::empty(),
        }
    }
}

/// The events of reads that return `chunks`, one after the other.
pub open spec fn arrivals(chunks: Seq<Seq<u8>>) -> Seq<EventView> {
    chunks.map_values(|chunk: Seq<u8>| EventView::Data(chunk))
}

/// Whether each of `chunks` holds a byte at least: a read that returns none
/// says that the stream has ended.
pub open spec fn no_chunk_empty(chunks: Seq<Seq<u8>>) -> bool {
    forall|i: int| 0 <= i < chunks.len() ==> (#[trigger] chunks[i]).len() > 0
}

/// Whether `e` tells of a stream that will deliver no more: a read that
/// returned nothing, or one that failed.
pub open spec fn ends_stream(e: EventView) -> bool {
    match e {
        EventView::Data(bytes) => bytes.len() == 0,
        EventView::Failed(_) => true,
        EventView::Written => false,
    }
}

/// Whether `e` can be what came of reading the terminator: its two bytes, or
/// a failure.
pub open spec fn answers_terminator(e: EventView) -> bool {
    match e {
        EventView::Data(bytes) => bytes.len() == TERMINATOR_SIZE,
        EventView::Failed(_) => true,
        EventView::Written => false,
    }
}

/// The events of an exchange up to the end of the reply's body: the write goes
/// through, the three header fields arrive, the body arrives in `chunks`,
/// and `close`, if there is one, follows.
pub open spec fn reply_events(
    length: Seq<u8>,
    id: Seq<u8>,
    kind: Seq<u8>,
    chunks: Seq<Seq<u8>>,
    close: Option<EventView>,
) -> Seq<EventView> {
    seq![
        EventView::Written,
        EventView::Data(length),
        EventView::Data(id),
        EventView::Data(kind),
    ] + arrivals(chunks) + match close {
        Some(e) => seq![e],
        None => Seq::empty(),
    }
}

/// Whether a stream can answer the reads of an exchange with a header of
/// these three fields, then the body in `chunks`, then `close`: the header
/// declares a body; no read returns more than is missing; and `close` is
/// there when, and only when, the body stays short of what was declared.
pub open spec fn reply_arrives(
    length: Seq<u8>,
    id: Seq<u8>,
    kind: Seq<u8>,
    chunks: Seq<Seq<u8>>,
    close: Option<EventView>,
) -> bool {
    &&& length.len() == FIELD_SIZE
    &&& id.len() == FIELD_SIZE
    &&& kind.len() == FIELD_SIZE
    &&& le_value(length) >= LENGTH_OVERHEAD
    &&& no_chunk_empty(chunks)
    &&& chunks.flatten().len() <= le_value(length) - LENGTH_OVERHEAD
    &&& match close {
        Some(e) => ends_stream(e) && chunks.flatten().len() < le_value(length) - LENGTH_OVERHEAD,
        None => chunks.flatten().len() == le_value(length) - LENGTH_OVERHEAD,
    }
}

/// Feeding two runs of events in a row is feeding the one and then the
/// other.
pub proof fn lemma_run_in_two(at: (Stage, ActionView), first: Seq<EventView>, rest: Seq<EventView>)
    ensures
        run(at, first + rest) == match run(at, first) {
            Some(mid) => run(mid, rest),
            None => None,
        },
    decreases first.len(),
{
    if first.len() == 0 {
        assert(first + rest =~= rest);
    } else {
        assert((first + rest).first() == first.first());
        assert((first + rest).drop_first() =~= first.drop_first() + rest);
        match next(at.0, first.first()) {
            Some(then) => lemma_run_in_two(then, first.drop_first(), rest),
            None => {},
        }
    }
}

/// A header that arrives in full is followed by what it calls for, whatever
/// its three fields hold.
pub proof fn lemma_header_arrives(request: Seq<u8>, length: Seq<u8>, id: Seq<u8>, kind: Seq<u8>)
    requires
        length.len() == FIELD_SIZE,
        id.len() == FIELD_SIZE,
        kind.len() == FIELD_SIZE,
    ensures
        run(
            (Stage::Sending, ActionView::Write(request)),
            seq![
                EventView::Written,
                EventView::Data(length),
                EventView::Data(id),
                EventView::Data(kind),
            ],
        ) == Some(after_header(le_value(length), le_value(id), le_value(kind))),
{
    let events = seq![
        EventView::Written,
        EventView::Data(length),
        EventView::Data(id),
        EventView::Data(kind),
    ];
    let e1 = events.drop_first();
    let e2 = e1.drop_first();
    let e3 = e2.drop_first();
    let e4 = e3.drop_first();
    assert(e4.len() == 0);
    assert(events.first() == EventView::Written);
    assert(e1.first() == EventView::Data(length));
    assert(e2.first() == EventView::Data(id));
    assert(e3.first() == EventView::Data(kind));
    reveal_with_fuel(run, 5);
}

/// A header that breaks off ends the exchange with a connection error, and
/// nothing of a body has been asked for by then. If fewer than three fields
/// arrive before the stream fails, the exchange has asked for one field after
/// the other and for nothing else, and fails with what the stream said.
pub proof fn lemma_short_header_fails(fields: Seq<Seq<u8>>, why: Seq<char>)
    requires
        fields.len() < 3,
        forall|i: int| 0 <= i < fields.len() ==> (#[trigger] fields[i]).len() == FIELD_SIZE,
    ensures
        asked(
            Stage::Sending,
            seq![EventView::Written] + arrivals(fields) + seq![EventView::Failed(why)],
        ) == Seq::new(fields.len() + 1, |i: int| ActionView::ReadExact(FIELD_SIZE as nat)).push(
            ActionView::Finish(Err(RCONErrorView::response_failed(why))),
        ),
{
    let events = seq![EventView::Written] + arrivals(fields) + seq![EventView::Failed(why)];
    let e1 = events.drop_first();
    let e2 = e1.drop_first();
    let e3 = e2.drop_first();
    assert(events.first() == EventView::Written);
    assert(events.len() == fields.len() + 2);
    if fields.len() >= 1 {
        assert(e1.first() == EventView::Data(fields[0]));
    }
    if fields.len() >= 2 {
        assert(e2.first() == EventView::Data(fields[1]));
    }
    assert(events.last() == EventView::Failed(why));
    reveal_with_fuel(asked, 5);
    assert(asked(Stage::Sending, events) =~= Seq::new(
        fields.len() + 1,
        |i: int| ActionView::ReadExact(FIELD_SIZE as nat),
    ).push(ActionView::Finish(Err(RCONErrorView::response_failed(why)))));
}

/// Chunks of a body that arrive are collected in order. From a stage that
/// awaits a body, reads that return `chunks`, none of them empty and all of
/// them together no more than is missing, lead to the end of the body if
/// they make it complete, and else to a stage that awaits the rest.
pub proof fn lemma_body_collects(
    id: i32,
    kind: i32,
    wanted: nat,
    got: Seq<u8>,
    asked: ActionView,
    chunks: Seq<Seq<u8>>,
)
    requires
        got.len() < wanted,
        no_chunk_empty(chunks),
        got.len() + chunks.flatten().len() <= wanted,
    ensures
        run((Stage::AwaitBody { id, kind, wanted, got }, asked), arrivals(chunks)) == Some(
            if got.len() + chunks.flatten().len() == wanted {
                after_body(id, kind, utf8_decoding(got + chunks.flatten()))
            } else {
                (
                    Stage::AwaitBody { id, kind, wanted, got: got + chunks.flatten() },
                    if chunks.len() == 0 {
                        asked
                    } else {
                        ActionView::Read((wanted - got.len() - chunks.flatten().len()) as nat)
                    },
                )
            },
        ),
    decreases chunks.len(),
{
    let at = (Stage::AwaitBody { id, kind, wanted, got }, asked);
    if chunks.len() == 0 {
        assert(chunks.flatten() =~= Seq::<u8>::empty());
        assert(got + chunks.flatten() =~= got);
        assert(arrivals(chunks).len() == 0);
    } else {
        let chunk = chunks.first();
        let rest = chunks.drop_first();
        assert(chunks.flatten() == chunk + rest.flatten());
        assert(chunk.len() > 0);
        assert(no_chunk_empty(rest)) by {
            assert forall|i: int| 0 <= i < rest.len() implies (#[trigger] rest[i]).len() > 0 by {
                assert(rest[i] == chunks[i + 1]);
            }
        }
        assert(arrivals(chunks).first() == EventView::Data(chunk));
        assert(arrivals(chunks).drop_first() =~= arrivals(rest));
        assert(got + chunks.flatten() =~= (got + chunk) + rest.flatten());
        let then = next(at.0, EventView::Data(chunk));
        assert(then is Some);
        assert(run(at, arrivals(chunks)) == run(then->0, arrivals(rest)));
        if got.len() + chunk.len() == wanted {
            assert(rest.len() == 0) by {
                if rest.len() > 0 {
                    assert(rest.flatten() == rest.first() + rest.drop_first().flatten());
                    assert(rest[0].len() > 0);
                }
            }
            assert(rest.flatten() =~= Seq::<u8>::empty());
            assert(got + chunks.flatten() =~= got + chunk);
            assert(arrivals(rest).len() == 0);
            assert(then->0 == after_body(id, kind, utf8_decoding(got + chunk)));
            assert(run(then->0, arrivals(rest)) == then);
        } else {
            let asked_then = ActionView::Read((wanted - got.len() - chunk.len()) as nat);
            assert(then->0 == (Stage::AwaitBody { id, kind, wanted, got: got + chunk }, asked_then));
            lemma_body_collects(id, kind, wanted, got + chunk, asked_then, rest);
            if rest.len() == 0 {
                assert(rest.flatten() =~= Seq::<u8>::empty());
            }
        }
    }
}

/// What arrived is what is decoded. When a stream answers an exchange as
/// [`reply_arrives`] describes, the body of the reply is the bytes that the
/// reads returned, in order: all that the header declared, or, where the
/// stream ended or failed before that, what had come until then. The exchange
/// goes on to decode exactly those bytes.
pub proof fn lemma_body_is_what_arrived(
    request: Seq<u8>,
    length: Seq<u8>,
    id: Seq<u8>,
    kind: Seq<u8>,
    chunks: Seq<Seq<u8>>,
    close: Option<EventView>,
)
    requires
        reply_arrives(length, id, kind, chunks, close),
    ensures
        run(
            (Stage::Sending, ActionView::Write(request)),
            reply_events(length, id, kind, chunks, close),
        ) == Some(after_body(le_value(id), le_value(kind), utf8_decoding(chunks.flatten()))),
{
    let start = (Stage::Sending, ActionView::Write(request));
    let header = seq![
        EventView::Written,
        EventView::Data(length),
        EventView::Data(id),
        EventView::Data(kind),
    ];
    let closing: Seq<EventView> = match close {
        Some(e) => seq![e],
        None => Seq::empty(),
    };
    let declared = le_value(length);
    let wanted = (declared - LENGTH_OVERHEAD) as nat;
    let body = chunks.flatten();
    let none = Seq::<u8>::empty();
    lemma_header_arrives(request, length, id, kind);
    assert(reply_events(length, id, kind, chunks, close) =~= header + (arrivals(chunks)
        + closing));
    lemma_run_in_two(start, header, arrivals(chunks) + closing);
    let at = after_header(declared, le_value(id), le_value(kind));
    lemma_run_in_two(at, arrivals(chunks), closing);
    assert(none + body =~= body);
    if declared == LENGTH_OVERHEAD {
        assert(chunks.len() == 0) by {
            if chunks.len() > 0 {
                assert(chunks.flatten() == chunks.first() + chunks.drop_first().flatten());
                assert(chunks[0].len() > 0);
            }
        }
        assert(body =~= none);
        assert(arrivals(chunks).len() == 0);
        assert(closing.len() == 0);
    } else {
        lemma_body_collects(le_value(id), le_value(kind), wanted, none, at.1, chunks);
        match close {
            Some(e) => {
                let mid = (
                    Stage::AwaitBody {
                        id: le_value(id),
                        kind: le_value(kind),
                        wanted,
                        got: none + body,
                    },
                    if chunks.len() == 0 {
                        at.1
                    } else {
                        ActionView::Read((wanted - body.len()) as nat)
                    },
                );
                assert(closing.first() == e);
                assert(closing.drop_first().len() == 0);
                assert(run(mid, closing) == next(mid.0, e)) by {
                    reveal_with_fuel(run, 2);
                }
                match e {
                    EventView::Data(bytes) => {
                        assert(none + body + bytes =~= body);
                    },
                    _ => {},
                }
            },
            None => {
                assert(closing.len() == 0);
            },
        }
    }
}

/// A reply is returned whether or not it is complete and terminated. When a
/// stream answers an exchange as [`reply_arrives`] describes and the bytes
/// that arrived are UTF-8, the exchange returns the id and the type of the
/// header and the text of those bytes, whatever comes of reading the
/// terminator.
pub proof fn lemma_reply_is_returned(
    request: Seq<u8>,
    length: Seq<u8>,
    id: Seq<u8>,
    kind: Seq<u8>,
    chunks: Seq<Seq<u8>>,
    close: Option<EventView>,
    terminator: EventView,
)
    requires
        reply_arrives(length, id, kind, chunks, close),
        valid_utf8(chunks.flatten()),
        answers_terminator(terminator),
    ensures
        run(
            (Stage::Sending, ActionView::Write(request)),
            reply_events(length, id, kind, chunks, close) + seq![terminator],
        ) == Some(
            finish(
                Ok(
                    ExecuteResponseView {
                        response_id: le_value(id),
                        response_type: le_value(kind),
                        response_body: decode_utf8(chunks.flatten()),
                    },
                ),
            ),
        ),
{
    let start = (Stage::Sending, ActionView::Write(request));
    let last = seq![terminator];
    lemma_body_is_what_arrived(request, length, id, kind, chunks, close);
    lemma_run_in_two(start, reply_events(length, id, kind, chunks, close), last);
    assert(last.first() == terminator);
    assert(last.drop_first().len() == 0);
    reveal_with_fuel(run, 2);
}

/// A body that is no UTF-8 fails the exchange, whatever the header holds
/// besides. When a stream answers an exchange as [`reply_arrives`] describes
/// and the bytes that arrived are not UTF-8, the exchange ends with a
/// decoding error as soon as the body is over, and the terminator is not
/// read.
pub proof fn lemma_undecodable_body_fails(
    request: Seq<u8>,
    length: Seq<u8>,
    id: Seq<u8>,
    kind: Seq<u8>,
    chunks: Seq<Seq<u8>>,
    close: Option<EventView>,
)
    requires
        reply_arrives(length, id, kind, chunks, close),
        !valid_utf8(chunks.flatten()),
    ensures
        run(
            (Stage::Sending, ActionView::Write(request)),
            reply_events(length, id, kind, chunks, close),
        ) == Some(
            finish(Err(RCONErrorView::undecodable(utf8_error_text(chunks.flatten())))),
        ),
{
    lemma_body_is_what_arrived(request, length, id, kind, chunks, close);
}

/// A reply that declares an empty body is returned with an empty text, and
/// no read is asked for between its header and its terminator. The exchange
/// asks for the three fields of the header, then for the terminator, and
/// returns the reply whatever comes of that.
pub proof fn lemma_empty_body(
    length: Seq<u8>,
    id: Seq<u8>,
    kind: Seq<u8>,
    terminator: EventView,
)
    requires
        length.len() == FIELD_SIZE,
        id.len() == FIELD_SIZE,
        kind.len() == FIELD_SIZE,
        le_value(length) == LENGTH_OVERHEAD,
        answers_terminator(terminator),
    ensures
        asked(
            Stage::Sending,
            seq![
                EventView::Written,
                EventView::Data(length),
                EventView::Data(id),
                EventView::Data(kind),
                terminator,
            ],
        ) == seq![
            ActionView::ReadExact(FIELD_SIZE as nat),
            ActionView::ReadExact(FIELD_SIZE as nat),
            ActionView::ReadExact(FIELD_SIZE as nat),
            ActionView::ReadExact(TERMINATOR_SIZE as nat),
            ActionView::Finish(
                Ok(
                    ExecuteResponseView {
                        response_id: le_value(id),
                        response_type: le_value(kind),
                        response_body: Seq::empty(),
                    },
                ),
            ),
        ],
{
    let events = seq![
        EventView::Written,
        EventView::Data(length),
        EventView::Data(id),
        EventView::Data(kind),
        terminator,
    ];
    let e1 = events.drop_first();
    let e2 = e1.drop_first();
    let e3 = e2.drop_first();
    let e4 = e3.drop_first();
    let e5 = e4.drop_first();
    assert(e5.len() == 0);
    assert(events.first() == EventView::Written);
    assert(e1.first() == EventView::Data(length));
    assert(e2.first() == EventView::Data(id));
    assert(e3.first() == EventView::Data(kind));
    assert(e4.first() == terminator);
    let none = Seq::<u8>::empty();
    assert(valid_utf8(none));
    assert(decode_utf8(none) =~= Seq::<char>::empty());
    reveal_with_fuel(asked, 6);
    assert(asked(Stage::Sending, events) =~= seq![
        ActionView::ReadExact(FIELD_SIZE as nat),
        ActionView::ReadExact(FIELD_SIZE as nat),
        ActionView::ReadExact(FIELD_SIZE as nat),
        ActionView::ReadExact(TERMINATOR_SIZE as nat),
        ActionView::Finish(
            Ok(
                ExecuteResponseView {
                    response_id: le_value(id),
                    response_type: le_value(kind),
                    response_body: Seq::empty(),
                },
            ),
        ),
    ]);
}

/// A header that declares less than an empty packet fails the exchange with
/// a decoding error, and no read of a body is asked for: the exchange asks
/// for the three fields of the header and then ends.
pub proof fn lemma_negative_body_fails(length: Seq<u8>, id: Seq<u8>, kind: Seq<u8>)
    requires
        length.len() == FIELD_SIZE,
        id.len() == FIELD_SIZE,
        kind.len() == FIELD_SIZE,
        le_value(length) < LENGTH_OVERHEAD,
    ensures
        asked(
            Stage::Sending,
            seq![
                EventView::Written,
                EventView::Data(length),
                EventView::Data(id),
                EventView::Data(kind),
            ],
        ) == seq![
            ActionView::ReadExact(FIELD_SIZE as nat),
            ActionView::ReadExact(FIELD_SIZE as nat),
            ActionView::ReadExact(FIELD_SIZE as nat),
            ActionView::Finish(Err(RCONErrorView::negative_body())),
        ],
{
    let events = seq![
        EventView::Written,
        EventView::Data(length),
        EventView::Data(id),
        EventView::Data(kind),
    ];
    let e1 = events.drop_first();
    let e2 = e1.drop_first();
    let e3 = e2.drop_first();
    let e4 = e3.drop_first();
    assert(e4.len() == 0);
    assert(events.first() == EventView::Written);
    assert(e1.first() == EventView::Data(length));
    assert(e2.first() == EventView::Data(id));
    assert(e3.first() == EventView::Data(kind));
    reveal_with_fuel(asked, 5);
    assert(asked(Stage::Sending, events) =~= seq![
        ActionView::ReadExact(FIELD_SIZE as nat),
        ActionView::ReadExact(FIELD_SIZE as nat),
        ActionView::ReadExact(FIELD_SIZE as nat),
        ActionView::Finish(Err(RCONErrorView::negative_body())),
    ]);
}

/// A read of the body is never asked for before the header is complete, nor
/// for anything but what is missing of the body, and that is a byte at
/// least.
pub proof fn lemma_reads_ask_for_what_is_missing(s: Stage, e: EventView)
    requires
        s.wf(),
    ensures
        next(s, e) matches Some((then, ActionView::Read(n))) ==> {
            &&& s is AwaitType || s is AwaitBody
            &&& then matches Stage::AwaitBody { wanted, got, .. } && n == wanted - got.len()
            &&& n > 0
        },
{
}

/// A step from a well-formed stage leads to a well-formed stage.
pub proof fn lemma_steps_keep_well_formed(s: Stage, e: EventView)
    requires
        s.wf(),
    ensures
        next(s, e) matches Some((then, _)) ==> then.wf(),
{
}

/// How many stages lie between `s` and the end of the exchange, at most.
pub open spec fn stages_left(s: Stage) -> nat {
    match s {
        Stage::Sending => 6,
        Stage::AwaitLength => 5,
        Stage::AwaitId { .. } => 4,
        Stage::AwaitType { .. } => 3,
        Stage::AwaitBody { .. } => 2,
        Stage::AwaitTerminator { .. } => 1,
        Stage::Done => 0,
    }
}

/// How many bytes of the body are missing at `s`.
pub open spec fn bytes_missing(s: Stage) -> nat {
    match s {
        Stage::AwaitBody { wanted, got, .. } => (wanted - got.len()) as nat,
        _ => 0,
    }
}

/// Every step brings an exchange nearer to its end: it leads to a later
/// stage, or, while the body is awaited, to fewer missing bytes. So a driver
/// that feeds an exchange what it asks for comes to an end.
pub proof fn lemma_every_step_advances(s: Stage, e: EventView)
    requires
        s.wf(),
    ensures
        next(s, e) matches Some((then, _)) ==> stages_left(then) < stages_left(s) || (stages_left(
            then,
        ) == stages_left(s) && bytes_missing(then) < bytes_missing(s)),
        next(s, e) matches Some((then, action)) ==> (then is Done <==> action is Finish),
{
}

/// A reply framed as requests are is read back as it was written. When a
/// stream delivers the packet that carries `text` under `id` and `kind`, in
/// whatever chunks, the exchange returns `id`, `kind` and `text`.
pub proof fn lemma_framed_reply_round_trips(
    request: Seq<u8>,
    id: i32,
    kind: i32,
    text: Seq<char>,
    chunks: Seq<Seq<u8>>,
)
    requires
        encode_utf8(text).len() + LENGTH_OVERHEAD <= i32::MAX,
        no_chunk_empty(chunks),
        chunks.flatten() == encode_utf8(text),
    ensures
        ({
            let framed = packet(id, kind, encode_utf8(text));
            run(
                (Stage::Sending, ActionView::Write(request)),
                reply_events(
                    framed.subrange(0, 4),
                    framed.subrange(4, 8),
                    framed.subrange(8, 12),
                    chunks,
                    None,
                ) + seq![EventView::Data(framed.subrange(framed.len() - 2, framed.len() as int))],
            ) == Some(
                finish(
                    Ok(
                        ExecuteResponseView {
                            response_id: id,
                            response_type: kind,
                            response_body: text,
                        },
                    ),
                ),
            )
        }),
{
    let body = encode_utf8(text);
    let framed = packet(id, kind, body);
    lemma_packet_shape(id, kind, body);
    encode_utf8_valid_utf8(text);
    encode_utf8_decode_utf8(text);
    lemma_reply_is_returned(
        request,
        framed.subrange(0, 4),
        framed.subrange(4, 8),
        framed.subrange(8, 12),
        chunks,
        None,
        EventView::Data(framed.subrange(framed.len() - 2, framed.len() as int)),
    );
}

} // verus!
