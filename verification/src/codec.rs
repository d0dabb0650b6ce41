//! Decoding frames into events. A frame carries one JSON event, nothing of
//! interest, or a compressed stream of further frames.

use crate::entity::{event_of, live_msg_from_json, LiveMsg, LiveMsgView};
use crate::frame::{be_u16, be_u32, read_u16, read_u32, spilt_message, split_frames};
use crate::frame::{frames_view, HEADER_LEN};
use crate::json::{json_document, json_from_slice, json_tree};
use vstd::prelude::*;
use vstd::slice::slice_subrange;

verus! {

/// Why a message could not be decoded.
#[derive(Debug, Clone, Copy, PartialEq, Eq, Structural)]
pub enum CodecError {
    /// The frame is shorter than its header.
    TruncatedHeader,
    /// The payload of an event frame is no JSON text.
    BadJson,
    /// The JSON document is no object, or a known field has the wrong kind.
    BadShape,
    /// The payload of a compressed frame is no zlib stream.
    BadCompression,
    /// Compressed frames are nested deeper than `MAX_NESTING`.
    TooDeep,
}

/// How many compressed frames may stand inside one another.
pub const MAX_NESTING: u32 = 16;

/// The version that marks a JSON frame.
pub const VER_JSON: u16 = 0;

/// The version that marks a compressed frame.
pub const VER_ZLIB: u16 = 2;

/// The action that marks an event.
pub const ACTION_EVENT: u32 = 5;

/// What `libflate` inflates a zlib stream to, `None` where it reports an
/// error.
pub uninterp spec fn zlib_inflated(bytes: Seq<u8>) -> Option<Seq<u8>>;

/// `std::io::Error`, carried through as it is.
#[verifier::external_type_specification]
#[verifier::external_body]
pub struct ExIoError(std::io::Error);

/// `libflate::non_blocking::zlib::Decoder::new` on the payload, read to its
/// end with `std::io::Read::read_to_end`. Trusted: whether the stream is
/// accepted, and the bytes that come out, depend on the payload alone.
#[verifier::external_body]
pub(crate) fn zlib_inflate(payload: &[u8]) -> (r: Result<Vec<u8>, std::io::Error>)
    ensures
        r matches Ok(text) ==> zlib_inflated(payload@) == Some(text@),
        r is Err ==> zlib_inflated(payload@) is None,
{
    let mut text = Vec::new();
    let mut decoder = libflate::non_blocking::zlib::Decoder::new(payload);
    match std::io::Read::read_to_end(&mut decoder, &mut text) {
        Ok(_) => Ok(text),
        Err(e) => Err(e),
    }
}

/// What a list of events holds.
pub open spec fn events_view(events: Seq<LiveMsg>) -> Seq<LiveMsgView> {
    Seq::new(events.len(), |i: int| events[i]@)
}

/// How many events a decoding result holds, none where it failed.
pub open spec fn count(r: Result<Seq<LiveMsgView>, CodecError>) -> nat {
    match r {
        Ok(events) => events.len(),
        Err(_) => 0,
    }
}

/// What a decoding result holds.
pub open spec fn outcome(r: Result<Vec<LiveMsg>, CodecError>) -> Result<
    Seq<LiveMsgView>,
    CodecError,
> {
    match r {
        Ok(events) => Ok(events_view(events@)),
        Err(e) => Err(e),
    }
}

/// The event in the payload of an event frame, given the document that the
/// payload was read as (`None`: it is no JSON text).
pub open spec fn event_payload(doc: Option<crate::json::JsonView>) -> Result<
    Seq<LiveMsgView>,
    CodecError,
> {
    match doc {
        None => Err(CodecError::BadJson),
        Some(doc) => match event_of(doc) {
            None => Err(CodecError::BadShape),
            Some(event) => Ok(seq![event]),
        },
    }
}

/// The events in one frame, with `depth` levels of compression allowed
/// below it.
pub open spec fn frame_events(frame: Seq<u8>, depth: nat) -> Result<Seq<LiveMsgView>, CodecError>
    decreases depth, 0nat, 0nat,
{
    if frame.len() < 16 {
        Err(CodecError::TruncatedHeader)
    } else {
        let ver = be_u16(frame, 6);
        let action = be_u32(frame, 8);
        let payload = frame.subrange(16, frame.len() as int);
        if ver == 0 {
            if action == 5 {
                event_payload(json_document(payload))
            } else {
                Ok(Seq::empty())
            }
        } else if ver == 2 {
            if depth == 0 {
                Err(CodecError::TooDeep)
            } else {
                match zlib_inflated(payload) {
                    None => Err(CodecError::BadCompression),
                    Some(inner) => frames_events(split_frames(inner), (depth - 1) as nat),
                }
            }
        } else {
            Ok(Seq::empty())
        }
    }
}

/// The events of several frames, in the frames' order; the first frame that
/// fails decides the error.
pub open spec fn frames_events(frames: Seq<Seq<u8>>, depth: nat) -> Result<
    Seq<LiveMsgView>,
    CodecError,
>
    decreases depth, 1nat, frames.len(),
{
    if frames.len() == 0 {
        Ok(Seq::empty())
    } else {
        match frames_events(frames.drop_last(), depth) {
            Err(e) => Err(e),
            Ok(before) => match frame_events(frames.last(), depth) {
                Err(e) => Err(e),
                Ok(found) => Ok(before + found),
            },
        }
    }
}

/// The events of one incoming message: those of the frames it splits into.
pub open spec fn message_events(bytes: Seq<u8>, depth: nat) -> Result<Seq<LiveMsgView>, CodecError> {
    frames_events(split_frames(bytes), depth)
}

/// Once a prefix of the frames has failed, every longer prefix fails with
/// the same error.
pub proof fn lemma_first_error_stays(frames: Seq<Seq<u8>>, depth: nat, k: int, n: int)
    requires
        0 <= k <= n <= frames.len(),
        frames_events(frames.take(k), depth) is Err,
    ensures
        frames_events(frames.take(n), depth) == frames_events(frames.take(k), depth),
    decreases n - k,
{
    if k < n {
        lemma_first_error_stays(frames, depth, k, n - 1);
        assert(frames.take(n).drop_last() =~= frames.take(n - 1));
    }
}

/// Decodes the payload of an event frame from the document it was read as.
pub fn event_from_document(doc: Option<crate::json::Json>) -> (r: Result<Vec<LiveMsg>, CodecError>)
    ensures
        outcome(r) == event_payload(
            match doc {
                Some(j) => Some(j@),
                None => None,
            },
        ),
{
    match doc {
        None => Err(CodecError::BadJson),
        Some(j) => match live_msg_from_json(j) {
            None => Err(CodecError::BadShape),
            Some(event) => {
                let mut events: Vec<LiveMsg> = Vec::new();
                events.push(event);
                assert(events_view(events@) =~= seq![event@]);
                Ok(events)
            },
        },
    }
}

/// Reads a JSON text into a tree, `None` where it is no JSON text.
pub fn parse_json(payload: &[u8]) -> (r: Option<crate::json::Json>)
    ensures
        match r {
            Some(j) => json_document(payload@) == Some(j@),
            None => json_document(payload@) is None,
        },
{
    match json_from_slice(payload) {
        Ok(v) => Some(json_tree(v)),
        Err(_) => None,
    }
}

/// Decodes one frame, with `depth` levels of compression allowed below it.
pub fn parse_frame_bounded(frame: &[u8], depth: u32) -> (r: Result<Vec<LiveMsg>, CodecError>)
    ensures
        outcome(r) == frame_events(frame@, depth as nat),
        r matches Ok(events) ==> events@.len() == count(frame_events(frame@, depth as nat)),
    decreases depth, 0nat,
{
    if frame.len() < HEADER_LEN {
        return Err(CodecError::TruncatedHeader);
    }
    let ver: u16 = read_u16(frame, 6);
    let action: u32 = read_u32(frame, 8);
    let payload = slice_subrange(frame, HEADER_LEN, frame.len());
    if ver == VER_JSON {
        if action == ACTION_EVENT {
            event_from_document(parse_json(payload))
        } else {
            let events: Vec<LiveMsg> = Vec::new();
            assert(events_view(events@) =~= Seq::empty());
            Ok(events)
        }
    } else if ver == VER_ZLIB {
        if depth == 0 {
            return Err(CodecError::TooDeep);
        }
        match zlib_inflate(payload) {
            Err(_) => Err(CodecError::BadCompression),
            Ok(inner) => parse_message_bounded(inner.as_slice(), depth - 1),
        }
    } else {
        let events: Vec<LiveMsg> = Vec::new();
        assert(events_view(events@) =~= Seq::empty());
        Ok(events)
    }
}

/// Decodes frames in order and gathers their events; stops at the first
/// frame that fails.
pub fn parse_frames(frames: &Vec<&[u8]>, depth: u32) -> (r: Result<Vec<LiveMsg>, CodecError>)
    ensures
        outcome(r) == frames_events(frames_view(frames@), depth as nat),
        r matches Ok(events) ==> events@.len() == count(frames_events(frames_view(frames@), depth as nat)),
    decreases depth, 1nat,
{
    let ghost all = frames_view(frames@);
    let mut events: Vec<LiveMsg> = Vec::new();
    let mut i: usize = 0;
    assert(events_view(events@) =~= Seq::empty());
    assert(all.take(0) =~= Seq::empty());
    while i < frames.len()
        invariant
            i <= frames.len(),
            all == frames_view(frames@),
            frames_events(all.take(i as int), depth as nat) == Ok::<
                Seq<LiveMsgView>,
                CodecError,
            >(events_view(events@)),
        decreases frames.len() - i,
    {
        assert(all.take(i + 1).drop_last() =~= all.take(i as int));
        assert(all.take(i + 1).last() == frames[i as int]@);
        match parse_frame_bounded(frames[i], depth) {
            Err(e) => {
                proof {
                    lemma_first_error_stays(all, depth as nat, i + 1, all.len() as int);
                    assert(all.take(all.len() as int) =~= all);
                }
                return Err(e);
            },
            Ok(found) => {
                let mut found = found;
                let ghost before = events_view(events@);
                let ghost added = events_view(found@);
                events.append(&mut found);
                assert(events_view(events@) =~= before + added);
            },
        }
        i += 1;
    }
    assert(all.take(all.len() as int) =~= all);
    Ok(events)
}

/// Decodes one message, with `depth` levels of compression allowed in it.
pub fn parse_message_bounded(bytes: &[u8], depth: u32) -> (r: Result<Vec<LiveMsg>, CodecError>)
    ensures
        outcome(r) == message_events(bytes@, depth as nat),
        r matches Ok(events) ==> events@.len() == count(message_events(bytes@, depth as nat)),
    decreases depth, 2nat,
{
    let frames = spilt_message(bytes);
    parse_frames(&frames, depth)
}

/// Decodes one frame into its events: the event of a JSON frame with the
/// event action, the events of the frames inside a compressed frame, and
/// nothing for the rest.
pub fn parse_frame(frame: &[u8]) -> (r: Result<Vec<LiveMsg>, CodecError>)
    ensures
        outcome(r) == frame_events(frame@, MAX_NESTING as nat),
        r matches Ok(events) ==> events@.len() == count(frame_events(frame@, MAX_NESTING as nat)),
{
    parse_frame_bounded(frame, MAX_NESTING)
}

/// Decodes one incoming message into its events.
pub fn parse_message(bytes: &[u8]) -> (r: Result<Vec<LiveMsg>, CodecError>)
    ensures
        outcome(r) == message_events(bytes@, MAX_NESTING as nat),
        r matches Ok(events) ==> events@.len() == count(message_events(bytes@, MAX_NESTING as nat)),
{
    parse_message_bounded(bytes, MAX_NESTING)
}

/// A compressed frame holds the events of the stream that its payload
/// inflates to, one level of nesting further down.
pub proof fn lemma_compressed_frame(frame: Seq<u8>, inner: Seq<u8>, depth: nat)
    requires
        frame.len() >= 16,
        be_u16(frame, 6) == 2,
        zlib_inflated(frame.subrange(16, frame.len() as int)) == Some(inner),
    ensures
        frame_events(frame, depth + 1) == message_events(inner, depth),
{
}

/// A frame of a version other than the JSON and the compressed one, or a
/// JSON frame that is no event, holds no events and is no error.
pub proof fn lemma_ignored_frame(frame: Seq<u8>, depth: nat)
    requires
        frame.len() >= 16,
        be_u16(frame, 6) != 2,
        be_u16(frame, 6) != 0 || be_u32(frame, 8) != 5,
    ensures
        frame_events(frame, depth) == Ok::<Seq<LiveMsgView>, CodecError>(Seq::empty()),
{
}

/// Two results one after the other: the first error, else both lists of
/// events in order.
pub open spec fn in_order(
    first: Result<Seq<LiveMsgView>, CodecError>,
    second: Result<Seq<LiveMsgView>, CodecError>,
) -> Result<Seq<LiveMsgView>, CodecError> {
    match first {
        Err(e) => Err(e),
        Ok(a) => match second {
            Err(e) => Err(e),
            Ok(b) => Ok(a + b),
        },
    }
}

/// The events of frames come in the frames' order: those of one run of
/// frames followed by another are those of the first run, then those of the
/// second.
pub proof fn lemma_events_in_frame_order(a: Seq<Seq<u8>>, b: Seq<Seq<u8>>, depth: nat)
    ensures
        frames_events(a + b, depth) == in_order(frames_events(a, depth), frames_events(b, depth)),
    decreases b.len(),
{
    if b.len() == 0 {
        assert(a + b =~= a);
        if let Ok(events) = frames_events(a, depth) {
            assert(events + Seq::<LiveMsgView>::empty() =~= events);
        }
    } else {
        lemma_events_in_frame_order(a, b.drop_last(), depth);
        assert((a + b).drop_last() =~= a + b.drop_last());
        assert((a + b).last() == b.last());
        if let Ok(x) = frames_events(a, depth) {
            if let Ok(y) = frames_events(b.drop_last(), depth) {
                if let Ok(z) = frame_events(b.last(), depth) {
                    assert((x + y) + z =~= x + (y + z));
                }
            }
        }
    }
}

} // verus!
