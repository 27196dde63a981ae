//! What holds of the streaming parser whatever the bytes and however they
//! are cut into chunks, and how it reads back what the encoder wrote.

use vstd::prelude::*;
use crate::command::Command;
use crate::frame::{
    be_bytes, escape, escape_byte, frame_body, frame_core, is_reserved, lemma_be_round_trip,
    lemma_escape_concat, lemma_masked_not_reserved, plain_frame, wire_frame,
};
use crate::frame_parser::{
    declared_len, frame_fields, is_complete, kind_of, InvalidChecksum, MessageView, ParseOutcome,
    ParserState,
};
use crate::{byte_sum, checksum_of, MESSAGE_HEADER, MESSAGE_TRAILER};

verus! {

/// `outcome` as reported when `offset` more bytes stood before the chunk.
pub open spec fn shifted(outcome: ParseOutcome, offset: nat) -> ParseOutcome {
    match outcome {
        ParseOutcome::Ready { msg, consumed } => ParseOutcome::Ready {
            msg,
            consumed: consumed + offset,
        },
        ParseOutcome::Incomplete { bytes_needed } => ParseOutcome::Incomplete { bytes_needed },
        ParseOutcome::Error { err, consumed } => ParseOutcome::Error {
            err,
            consumed: consumed + offset,
        },
    }
}

/// Reading `a + b` from within `b` is reading `b`, with the bytes counted
/// from the start of `a`.
pub proof fn lemma_feed_suffix(s: ParserState, a: Seq<u8>, b: Seq<u8>, from: int)
    requires
        0 <= from,
    ensures
        s.feed(a + b, a.len() + from) == (s.feed(b, from).0, shifted(s.feed(b, from).1, a.len())),
    decreases b.len() - from,
{
    if from < b.len() {
        assert((a + b)[a.len() + from] == b[from]);
        let next = s.after_byte(b[from]);
        if !s.rejects(b[from]) && !is_complete(next.buf) {
            lemma_feed_suffix(next, a, b, from + 1);
        }
    }
}

/// Reading `a + b` from within `a` goes as reading `a` does: it ends where
/// that ends, or goes on into `b` from the state reached at the end of `a`.
pub proof fn lemma_feed_prefix(s: ParserState, a: Seq<u8>, b: Seq<u8>, from: int)
    requires
        0 <= from <= a.len(),
    ensures
        s.feed(a, from).1 is Incomplete ==> s.feed(a + b, from) == s.feed(a, from).0.feed(
            a + b,
            a.len() as int,
        ),
        !(s.feed(a, from).1 is Incomplete) ==> s.feed(a + b, from) == s.feed(a, from),
    decreases a.len() - from,
{
    if from < a.len() {
        assert((a + b)[from] == a[from]);
        let next = s.after_byte(a[from]);
        if !s.rejects(a[from]) && !is_complete(next.buf) {
            lemma_feed_prefix(next, a, b, from + 1);
        }
    }
}

/// A chunk that ends inside a frame leaves the parser inside that frame.
pub proof fn lemma_incomplete_is_inside(s: ParserState, bytes: Seq<u8>, from: int)
    requires
        0 <= from,
        !is_complete(s.buf),
    ensures
        s.feed(bytes, from).1 is Incomplete ==> !is_complete(s.feed(bytes, from).0.buf),
    decreases bytes.len() - from,
{
    if from < bytes.len() {
        let next = s.after_byte(bytes[from]);
        if !s.rejects(bytes[from]) && !is_complete(next.buf) {
            lemma_incomplete_is_inside(next, bytes, from + 1);
        }
    }
}

/// Cutting a chunk in two changes nothing.
///
/// If a call on `a` ends within `a` (a frame is ready, or a byte is
/// refused), a call on `a + b` does exactly the same and leaves `b`
/// untouched. If the call on `a` runs out of bytes, a call on `a + b` ends
/// as a second call on `b` would, with `a.len()` more bytes consumed.
pub proof fn lemma_parse_split(s: ParserState, a: Seq<u8>, b: Seq<u8>)
    ensures
        !(s.parse(a).1 is Incomplete) ==> s.parse(a + b) == s.parse(a),
        s.parse(a).1 is Incomplete ==> s.parse(a + b) == (
            s.parse(a).0.parse(b).0,
            shifted(s.parse(a).0.parse(b).1, a.len()),
        ),
{
    let start = s.rewound();
    lemma_feed_prefix(start, a, b, 0);
    if start.feed(a, 0).1 is Incomplete {
        let mid = start.feed(a, 0).0;
        lemma_incomplete_is_inside(start, a, 0);
        assert(mid.rewound() == mid);
        lemma_feed_suffix(mid, a, b, 0);
    }
}

/// A parser inside a frame reads an escaped byte back as the byte itself.
proof fn lemma_feed_escaped_byte(s: ParserState, pre: Seq<u8>, byte: u8, post: Seq<u8>)
    requires
        s.buf.len() > 0,
        !s.need_escape,
        !is_complete(s.buf),
        !is_complete(s.buf.push(byte)),
    ensures
        s.feed(pre + escape_byte(byte) + post, pre.len() as int) == (ParserState {
            buf: s.buf.push(byte),
            need_escape: false,
        }).feed(pre + escape_byte(byte) + post, (pre.len() + escape_byte(byte).len()) as int),
{
    let bytes = pre + escape_byte(byte) + post;
    let from = pre.len() as int;
    assert(bytes[from] == escape_byte(byte)[0]);
    if is_reserved(byte) {
        lemma_masked_not_reserved(byte);
        assert(bytes[from + 1] == escape_byte(byte)[1]);
        let held = s.after_byte(bytes[from]);
        assert(held == ParserState { buf: s.buf, need_escape: true });
        assert(!s.rejects(bytes[from]));
        assert(s.feed(bytes, from) == held.feed(bytes, from + 1));
        assert(held.unescaped(bytes[from + 1]) == byte);
        assert(!held.rejects(bytes[from + 1]));
    } else {
        assert(s.unescaped(bytes[from]) == byte);
    }
}

/// A parser inside a frame reads an escaped run of bytes back as the run
/// itself, as long as the frame does not end within the run.
pub proof fn lemma_feed_escaped(s: ParserState, pre: Seq<u8>, body: Seq<u8>, post: Seq<u8>)
    requires
        s.buf.len() > 0,
        !s.need_escape,
        forall|j: int| 0 <= j <= body.len() ==> !is_complete(#[trigger] (s.buf + body.take(j))),
    ensures
        s.feed(pre + escape(body) + post, pre.len() as int) == (ParserState {
            buf: s.buf + body,
            need_escape: false,
        }).feed(pre + escape(body) + post, (pre.len() + escape(body).len()) as int),
    decreases body.len(),
{
    let bytes = pre + escape(body) + post;
    if body.len() == 0 {
        assert(s.buf + body =~= s.buf);
        assert(escape(body).len() == 0);
    } else {
        let first = body[0];
        let rest = body.skip(1);
        assert(body =~= seq![first] + rest);
        lemma_escape_concat(seq![first], rest);
        assert(escape(seq![first]) =~= escape_byte(first)) by {
            assert(escape(seq![first].drop_last()).len() == 0);
        }
        assert(escape(body) == escape_byte(first) + escape(rest));
        let next = ParserState { buf: s.buf.push(first), need_escape: false };
        assert(s.buf + body.take(0) =~= s.buf);
        assert(s.buf + body.take(1) =~= s.buf.push(first));
        assert(bytes =~= pre + escape_byte(first) + (escape(rest) + post));
        lemma_feed_escaped_byte(s, pre, first, escape(rest) + post);
        assert forall|j: int| 0 <= j <= rest.len() implies !is_complete(
            #[trigger] (next.buf + rest.take(j)),
        ) by {
            assert(next.buf + rest.take(j) =~= s.buf + body.take(j + 1));
        }
        assert(bytes =~= (pre + escape_byte(first)) + escape(rest) + post);
        lemma_feed_escaped(next, pre + escape_byte(first), rest, post);
        assert(next.buf + rest =~= s.buf + body);
    }
}

/// The fields that a parser reports for the frame built from `kind`,
/// `seq_num` and `payload`.
pub open spec fn sent_fields(kind: u8, seq_num: u8, payload: Seq<u8>) -> MessageView {
    MessageView {
        kind: kind_of(kind),
        seq_num,
        payload,
        checksum: Ok(checksum_of(frame_core(kind, seq_num, payload))),
    }
}

/// The frame before escaping has the layout that the parser reads.
pub proof fn lemma_plain_frame_fields(kind: u8, seq_num: u8, payload: Seq<u8>)
    requires
        payload.len() <= u32::MAX,
    ensures
        plain_frame(kind, seq_num, payload).len() == payload.len() + 9,
        is_complete(plain_frame(kind, seq_num, payload)),
        frame_fields(plain_frame(kind, seq_num, payload)) == sent_fields(kind, seq_num, payload),
{
    let core = frame_core(kind, seq_num, payload);
    let plain = plain_frame(kind, seq_num, payload);
    lemma_be_round_trip(payload.len() as u32);
    assert(plain[3] == be_bytes(payload.len() as u32)[0]);
    assert(plain[4] == be_bytes(payload.len() as u32)[1]);
    assert(plain[5] == be_bytes(payload.len() as u32)[2]);
    assert(plain[6] == be_bytes(payload.len() as u32)[3]);
    assert(declared_len(plain) == Some(payload.len()));
    assert(plain.subrange(1, plain.len() - 2) =~= core);
    assert(plain.subrange(7, plain.len() - 2) =~= payload);
}

/// A parser that stands between two frames reads a frame as it was built,
/// whatever follows it in the chunk.
///
/// The call reports `Ready` with the type, sequence number and payload that
/// went into the frame and a matching checksum, consumes exactly the
/// frame's bytes, and leaves the unescaped frame in the buffer.
pub proof fn lemma_frame_round_trip(
    s: ParserState,
    kind: u8,
    seq_num: u8,
    payload: Seq<u8>,
    rest: Seq<u8>,
)
    requires
        s.at_boundary(),
        payload.len() <= u32::MAX,
    ensures
        s.parse(wire_frame(kind, seq_num, payload) + rest) == (
            ParserState { buf: plain_frame(kind, seq_num, payload), need_escape: false },
            ParseOutcome::Ready {
                msg: sent_fields(kind, seq_num, payload),
                consumed: wire_frame(kind, seq_num, payload).len(),
            },
        ),
{
    let body = frame_body(kind, seq_num, payload);
    let plain = plain_frame(kind, seq_num, payload);
    let wire = wire_frame(kind, seq_num, payload);
    let bytes = wire + rest;
    let start = s.rewound();
    assert(start.buf =~= Seq::<u8>::empty());
    assert(start == ParserState::fresh());
    assert(bytes[0] == MESSAGE_HEADER);
    let opened = ParserState { buf: seq![MESSAGE_HEADER], need_escape: false };
    assert(start.after_byte(bytes[0]).buf =~= opened.buf);
    assert(start.feed(bytes, 0) == opened.feed(bytes, 1));
    lemma_plain_frame_fields(kind, seq_num, payload);
    assert forall|j: int| 0 <= j <= body.len() implies !is_complete(
        #[trigger] (opened.buf + body.take(j)),
    ) by {
        let held = opened.buf + body.take(j);
        if held.len() >= 7 {
            assert(held[3] == plain[3] && held[4] == plain[4] && held[5] == plain[5] && held[6]
                == plain[6]);
            assert(declared_len(held) == declared_len(plain));
        }
    }
    let post = seq![MESSAGE_TRAILER] + rest;
    assert(bytes =~= opened.buf + escape(body) + post);
    lemma_feed_escaped(opened, opened.buf, body, post);
    let closing = ParserState { buf: opened.buf + body, need_escape: false };
    let at = 1 + escape(body).len();
    assert(bytes[at as int] == MESSAGE_TRAILER);
    assert(closing.after_byte(bytes[at as int]).buf =~= plain);
    assert(!closing.rejects(bytes[at as int]));
    assert(wire.len() == at + 1);
}

/// Every valid command survives the trip through the encoder and a parser
/// that stands between two frames: the parser reports the command's message
/// type, its sequence byte and its payload bytes, with a matching checksum,
/// and consumes exactly the bytes that were built.
pub proof fn lemma_command_round_trip(s: ParserState, command: Command, seq_number: u8)
    requires
        s.at_boundary(),
        command.valid(),
    ensures
        s.parse(command.frame(seq_number)).1 == (ParseOutcome::Ready {
            msg: MessageView {
                kind: Ok(command.message_type()),
                seq_num: command.seq_byte(seq_number),
                payload: command.body(),
                checksum: Ok(
                    checksum_of(
                        frame_core(
                            command.message_type().byte(),
                            command.seq_byte(seq_number),
                            command.body(),
                        ),
                    ),
                ),
            },
            consumed: command.frame(seq_number).len(),
        }),
{
    let kind = command.message_type().byte();
    let wire = command.frame(seq_number);
    assert(command.body().len() <= 10);
    lemma_frame_round_trip(s, kind, command.seq_byte(seq_number), command.body(), Seq::empty());
    assert(wire + Seq::<u8>::empty() =~= wire);
}

/// Two frames that arrive in one chunk are read one per call: the first
/// call stops at the end of the first frame, and a second call on the rest
/// of the chunk reads the second frame.
pub proof fn lemma_two_frames(
    s: ParserState,
    kind1: u8,
    seq_num1: u8,
    payload1: Seq<u8>,
    kind2: u8,
    seq_num2: u8,
    payload2: Seq<u8>,
)
    requires
        s.at_boundary(),
        payload1.len() <= u32::MAX,
        payload2.len() <= u32::MAX,
    ensures
        ({
            let first = wire_frame(kind1, seq_num1, payload1);
            let second = wire_frame(kind2, seq_num2, payload2);
            let chunk = first + second;
            let after_first = s.parse(chunk).0;
            &&& s.parse(chunk).1 == ParseOutcome::Ready {
                msg: sent_fields(kind1, seq_num1, payload1),
                consumed: first.len(),
            }
            &&& chunk.skip(first.len() as int) == second
            &&& after_first.parse(second).1 == ParseOutcome::Ready {
                msg: sent_fields(kind2, seq_num2, payload2),
                consumed: second.len(),
            }
        }),
{
    let first = wire_frame(kind1, seq_num1, payload1);
    let second = wire_frame(kind2, seq_num2, payload2);
    lemma_frame_round_trip(s, kind1, seq_num1, payload1, second);
    lemma_plain_frame_fields(kind1, seq_num1, payload1);
    let after_first = s.parse(first + second).0;
    lemma_frame_round_trip(after_first, kind2, seq_num2, payload2, Seq::empty());
    assert(second + Seq::<u8>::empty() =~= second);
    assert((first + second).skip(first.len() as int) =~= second);
}

/// A call that ends within the chunk has consumed at least one byte and no
/// more than the chunk holds.
pub proof fn lemma_consumed_in_chunk(s: ParserState, bytes: Seq<u8>, from: int)
    requires
        0 <= from,
    ensures
        match s.feed(bytes, from).1 {
            ParseOutcome::Ready { consumed, .. } => from < consumed <= bytes.len(),
            ParseOutcome::Error { consumed, .. } => from < consumed <= bytes.len(),
            ParseOutcome::Incomplete { .. } => true,
        },
    decreases bytes.len() - from,
{
    if from < bytes.len() {
        let next = s.after_byte(bytes[from]);
        if !s.rejects(bytes[from]) && !is_complete(next.buf) {
            lemma_consumed_in_chunk(next, bytes, from + 1);
        }
    }
}

/// The state after the first `count` bytes of `bytes` were handed to the
/// parser one call per byte.
pub open spec fn drip(s: ParserState, bytes: Seq<u8>, count: nat) -> ParserState
    decreases count,
{
    if count == 0 {
        s
    } else {
        drip(s, bytes, (count - 1) as nat).parse(seq![bytes[count - 1]]).0
    }
}

/// Handing a frame's first `count` bytes over one by one leaves the parser
/// where one call on those bytes leaves it, and that call runs out of bytes.
proof fn lemma_drip_is_prefix(
    s: ParserState,
    kind: u8,
    seq_num: u8,
    payload: Seq<u8>,
    count: nat,
)
    requires
        s.at_boundary(),
        payload.len() <= u32::MAX,
        count < wire_frame(kind, seq_num, payload).len(),
    ensures
        drip(s, wire_frame(kind, seq_num, payload), count).rewound() == s.parse(
            wire_frame(kind, seq_num, payload).take(count as int),
        ).0,
        s.parse(wire_frame(kind, seq_num, payload).take(count as int)).1 is Incomplete,
    decreases count,
{
    let wire = wire_frame(kind, seq_num, payload);
    let head = wire.take(count as int);
    let tail = wire.skip(count as int);
    assert(head + tail =~= wire);
    lemma_frame_round_trip(s, kind, seq_num, payload, Seq::empty());
    assert(wire + Seq::<u8>::empty() =~= wire);
    lemma_parse_split(s, head, tail);
    lemma_consumed_in_chunk(s.rewound(), head, 0);
    assert(s.parse(head).1 is Incomplete);
    if count > 0 {
        let before = (count - 1) as nat;
        let shorter = wire.take(before as int);
        lemma_drip_is_prefix(s, kind, seq_num, payload, before);
        lemma_incomplete_is_inside(s.rewound(), shorter, 0);
        assert(shorter + seq![wire[before as int]] =~= head);
        lemma_parse_split(s, shorter, seq![wire[before as int]]);
        lemma_incomplete_is_inside(s.rewound(), head, 0);
    }
}

/// A frame that arrives one byte per call is reported once, by the call
/// that brings its last byte: every earlier call reports `Incomplete`, and
/// the last reports `Ready` with the fields that went into the frame.
pub proof fn lemma_byte_at_a_time(
    s: ParserState,
    kind: u8,
    seq_num: u8,
    payload: Seq<u8>,
    index: nat,
)
    requires
        s.at_boundary(),
        payload.len() <= u32::MAX,
        index < wire_frame(kind, seq_num, payload).len(),
    ensures
        ({
            let wire = wire_frame(kind, seq_num, payload);
            let call = drip(s, wire, index).parse(seq![wire[index as int]]);
            &&& index + 1 < wire.len() ==> call.1 is Incomplete
            &&& index + 1 == wire.len() ==> call == (
                ParserState { buf: plain_frame(kind, seq_num, payload), need_escape: false },
                ParseOutcome::Ready { msg: sent_fields(kind, seq_num, payload), consumed: 1 },
            )
        }),
{
    let wire = wire_frame(kind, seq_num, payload);
    let head = wire.take(index as int);
    let byte = seq![wire[index as int]];
    lemma_drip_is_prefix(s, kind, seq_num, payload, index);
    let reached = s.parse(head).0;
    lemma_incomplete_is_inside(s.rewound(), head, 0);
    assert(drip(s, wire, index).parse(byte) == reached.parse(byte));
    lemma_parse_split(s, head, byte);
    if index + 1 < wire.len() {
        lemma_drip_is_prefix(s, kind, seq_num, payload, index + 1);
        assert(head + byte =~= wire.take(index as int + 1));
    } else {
        assert(head + byte =~= wire);
        lemma_frame_round_trip(s, kind, seq_num, payload, Seq::empty());
        assert(wire + Seq::<u8>::empty() =~= wire);
    }
}

/// Replacing one byte changes the sum by the difference of the two bytes.
pub proof fn lemma_byte_sum_update(s: Seq<u8>, at: int, value: u8)
    requires
        0 <= at < s.len(),
    ensures
        byte_sum(s.update(at, value)) == byte_sum(s) - s[at] + value,
    decreases s.len(),
{
    if at == s.len() - 1 {
        assert(s.update(at, value).drop_last() =~= s.drop_last());
    } else {
        assert(s.update(at, value).drop_last() =~= s.drop_last().update(at, value));
        lemma_byte_sum_update(s.drop_last(), at, value);
    }
}

/// Changing any single byte between the header and the checksum of a frame
/// whose checksum matched makes the checksum fail: the parser then reports
/// the frame's checksum byte as `got` and the sum of the changed bytes as
/// `expected`.
pub proof fn lemma_corruption_detected(buf: Seq<u8>, at: int, value: u8)
    requires
        buf.len() >= 9,
        1 <= at < buf.len() - 2,
        value != buf[at],
        frame_fields(buf).checksum is Ok,
    ensures
        frame_fields(buf.update(at, value)).checksum == Err::<u8, InvalidChecksum>(
            InvalidChecksum {
                expected: checksum_of(buf.update(at, value).subrange(1, buf.len() - 2)),
                got: buf[buf.len() - 2],
            },
        ),
        checksum_of(buf.update(at, value).subrange(1, buf.len() - 2)) != buf[buf.len() - 2],
{
    let covered = buf.subrange(1, buf.len() - 2);
    let changed = buf.update(at, value);
    assert(changed.subrange(1, buf.len() - 2) =~= covered.update(at - 1, value));
    lemma_byte_sum_update(covered, at - 1, value);
}

} // verus!
