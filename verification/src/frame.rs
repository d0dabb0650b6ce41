//! The wire format: a 16-byte big-endian header before each payload.

use vstd::prelude::*;
use vstd::slice::slice_subrange;
use vstd::string::StringSliceAdditionalSpecFns;

verus! {

/// Bytes in a frame's header.
pub const HEADER_LEN: usize = 16;

/// The big-endian 16-bit number at `at`.
pub open spec fn be_u16(b: Seq<u8>, at: int) -> int {
    b[at] as int * 256 + b[at + 1] as int
}

/// The big-endian 32-bit number at `at`.
pub open spec fn be_u32(b: Seq<u8>, at: int) -> int {
    b[at] as int * 16777216 + b[at + 1] as int * 65536 + b[at + 2] as int * 256 + b[at + 3] as int
}

/// The four bytes of `n`, most significant first.
pub open spec fn be_bytes_u32(n: int) -> Seq<u8> {
    seq![
        (n / 16777216) as u8,
        ((n / 65536) % 256) as u8,
        ((n / 256) % 256) as u8,
        (n % 256) as u8,
    ]
}

/// The frames of `b` from offset `at` on: one frame per declared length,
/// until the buffer ends, a length is under 16, or a frame would run past
/// the end.
pub open spec fn frames_from(b: Seq<u8>, at: int) -> Seq<Seq<u8>>
    decreases b.len() - at,
{
    if at < 0 || at + 4 > b.len() {
        Seq::empty()
    } else {
        let n = be_u32(b, at);
        if n < 16 || at + n > b.len() {
            Seq::empty()
        } else {
            seq![b.subrange(at, at + n)] + frames_from(b, at + n)
        }
    }
}

/// The frames of a whole buffer.
pub open spec fn split_frames(b: Seq<u8>) -> Seq<Seq<u8>> {
    frames_from(b, 0)
}

/// The frames one after another.
pub open spec fn joined(frames: Seq<Seq<u8>>) -> Seq<u8>
    decreases frames.len(),
{
    if frames.len() == 0 {
        Seq::empty()
    } else {
        frames[0] + joined(frames.drop_first())
    }
}

/// What a list of borrowed frames holds.
pub open spec fn frames_view(frames: Seq<&[u8]>) -> Seq<Seq<u8>> {
    Seq::new(frames.len(), |i: int| frames[i]@)
}

/// Reads the big-endian 16-bit number at `at`.
pub fn read_u16(bytes: &[u8], at: usize) -> (r: u16)
    requires
        at + 2 <= bytes@.len(),
    ensures
        r == be_u16(bytes@, at as int),
{
    let hi: u16 = bytes[at] as u16;
    let lo: u16 = bytes[at + 1] as u16;
    hi * 256 + lo
}

/// Reads the big-endian 32-bit number at `at`.
pub fn read_u32(bytes: &[u8], at: usize) -> (r: u32)
    requires
        at + 4 <= bytes@.len(),
    ensures
        r == be_u32(bytes@, at as int),
{
    let b0: u32 = bytes[at] as u32;
    let b1: u32 = bytes[at + 1] as u32;
    let b2: u32 = bytes[at + 2] as u32;
    let b3: u32 = bytes[at + 3] as u32;
    b0 * 16777216 + b1 * 65536 + b2 * 256 + b3
}

/// Splits one incoming message into its frames. Scanning stops, with what
/// was collected, at the end of the buffer, at a declared length under 16,
/// or where a length prefix or a frame would run past the end.
pub fn spilt_message(bytes: &[u8]) -> (frames: Vec<&[u8]>)
    ensures
        frames_view(frames@) == split_frames(bytes@),
        frames@.len() == split_frames(bytes@).len(),
        forall|i: int|
            0 <= i < frames@.len() ==> (#[trigger] frames@[i])@ == split_frames(bytes@)[i],
{
    let mut frames: Vec<&[u8]> = Vec::new();
    let total: usize = bytes.len();
    let mut at: usize = 0;
    assert(frames_view(frames@) =~= Seq::<Seq<u8>>::empty());
    while total - at >= 4
        invariant
            at <= total,
            total == bytes@.len(),
            split_frames(bytes@) == frames_view(frames@) + frames_from(bytes@, at as int),
        ensures
            frames_from(bytes@, at as int) == Seq::<Seq<u8>>::empty(),
        decreases total - at,
    {
        let declared: u32 = read_u32(bytes, at);
        let len: usize = declared as usize;
        if len < HEADER_LEN || len > total - at {
            break ;
        }
        let frame = slice_subrange(bytes, at, at + len);
        let ghost before = frames_view(frames@);
        frames.push(frame);
        proof {
            let rest = frames_from(bytes@, at + len);
            assert(frames_view(frames@) =~= before.push(frame@));
            assert(before + (seq![frame@] + rest) =~= before.push(frame@) + rest);
        }
        at = at + len;
    }
    assert(frames_view(frames@) + Seq::<Seq<u8>>::empty() =~= frames_view(frames@));
    assert forall|i: int| 0 <= i < frames@.len() implies (#[trigger] frames@[i])@ == split_frames(
        bytes@,
    )[i] by {
        assert(frames_view(frames@)[i] == frames@[i]@);
    }
    frames
}

/// The frames from `at` on, one after another, are the bytes of the buffer
/// from `at` on, up to where scanning stopped.
pub proof fn lemma_frames_are_prefix(b: Seq<u8>, at: int)
    requires
        0 <= at <= b.len(),
    ensures
        at + joined(frames_from(b, at)).len() <= b.len(),
        joined(frames_from(b, at)) == b.subrange(at, at + joined(frames_from(b, at)).len()),
    decreases b.len() - at,
{
    if at + 4 <= b.len() {
        let n = be_u32(b, at);
        if n >= 16 && at + n <= b.len() {
            let first = b.subrange(at, at + n);
            let rest = frames_from(b, at + n);
            let all = seq![first] + rest;
            lemma_frames_are_prefix(b, at + n);
            assert(all[0] == first);
            assert(all.drop_first() =~= rest);
            assert(joined(all) == first + joined(rest));
            assert(joined(all) =~= b.subrange(at, at + joined(all).len()));
        } else {
            assert(joined(frames_from(b, at)) =~= b.subrange(at, at));
        }
    } else {
        assert(joined(frames_from(b, at)) =~= b.subrange(at, at));
    }
}

/// For every buffer, the frames it is split into, one after another, are a
/// prefix of the buffer.
pub proof fn lemma_split_is_prefix(b: Seq<u8>)
    ensures
        joined(split_frames(b)).is_prefix_of(b),
{
    lemma_frames_are_prefix(b, 0);
}

/// Every frame that splitting yields has a whole header, and is as long as
/// its own length prefix says.
pub proof fn lemma_frames_well_formed(b: Seq<u8>, at: int, i: int)
    requires
        0 <= at <= b.len(),
        0 <= i < frames_from(b, at).len(),
    ensures
        frames_from(b, at)[i].len() >= 16,
        be_u32(frames_from(b, at)[i], 0) == frames_from(b, at)[i].len(),
    decreases b.len() - at,
{
    let n = be_u32(b, at);
    if i > 0 {
        lemma_frames_well_formed(b, at + n, i - 1);
    }
}

/// Where the buffer ends before a length prefix, or the first declared
/// length is under 16 or runs past the end, splitting yields nothing.
pub proof fn lemma_bad_first_frame(b: Seq<u8>)
    requires
        b.len() < 4 || be_u32(b, 0) < 16 || be_u32(b, 0) > b.len(),
    ensures
        split_frames(b) == Seq::<Seq<u8>>::empty(),
{
}

/// The fixed part of the opening frame's header, after the length prefix:
/// header length 16, version 1, action 7, sequence 1.
pub open spec fn open_sub_header() -> Seq<u8> {
    seq![0u8, 16u8, 0u8, 1u8, 0u8, 0u8, 0u8, 7u8, 0u8, 0u8, 0u8, 1u8]
}

/// The opening frame's body: `{"roomid":`, the room as given, `}`.
pub open spec fn handshake_body(room: Seq<u8>) -> Seq<u8> {
    seq![123u8, 34u8, 114u8, 111u8, 111u8, 109u8, 105u8, 100u8, 34u8, 58u8] + room + seq![125u8]
}

/// The opening frame for a room.
pub open spec fn handshake(room: Seq<u8>) -> Seq<u8> {
    be_bytes_u32(16 + handshake_body(room).len() as int) + open_sub_header() + handshake_body(room)
}

/// The keepalive frame: length 16, header length 16, version 1, action 2,
/// sequence 1, no payload.
pub open spec fn heartbeat() -> Seq<u8> {
    seq![0u8, 0u8, 0u8, 16u8, 0u8, 16u8, 0u8, 1u8, 0u8, 0u8, 0u8, 2u8, 0u8, 0u8, 0u8, 1u8]
}

/// The four bytes of a number read back give the number.
pub proof fn lemma_be_u32_round_trip(n: int)
    requires
        0 <= n <= u32::MAX,
    ensures
        be_bytes_u32(n).len() == 4,
        be_u32(be_bytes_u32(n), 0) == n,
{
}

/// Builds the frame that opens the subscription to a room. The room is put
/// into the body as it is.
pub fn build_init_msg(room_id: &str) -> (message: Vec<u8>)
    requires
        room_id.spec_bytes().len() + 27 <= u32::MAX,
    ensures
        message@ == handshake(room_id.spec_bytes()),
        message@.len() == 27 + room_id.spec_bytes().len(),
        be_u32(message@, 0) == 16 + handshake_body(room_id.spec_bytes()).len(),
{
    let room: &[u8] = room_id.as_bytes();
    let len: u32 = (room.len() + 27) as u32;
    let mut message: Vec<u8> = Vec::new();
    message.push((len / 16777216) as u8);
    message.push(((len / 65536) % 256) as u8);
    message.push(((len / 256) % 256) as u8);
    message.push((len % 256) as u8);
    assert(message@ =~= be_bytes_u32(len as int));
    let sub_header: [u8; 12] = [0, 16, 0, 1, 0, 0, 0, 7, 0, 0, 0, 1];
    message.extend_from_slice(sub_header.as_slice());
    assert(sub_header@ =~= open_sub_header());
    let opening: [u8; 10] = [123, 34, 114, 111, 111, 109, 105, 100, 34, 58];
    message.extend_from_slice(opening.as_slice());
    message.extend_from_slice(room);
    message.push(125);
    proof {
        lemma_be_u32_round_trip(len as int);
        assert(message@ =~= handshake(room_id.spec_bytes()));
    }
    message
}

/// The keepalive frame.
pub fn heartbeat_frame() -> (frame: Vec<u8>)
    ensures
        frame@ == heartbeat(),
{
    let bytes: [u8; 16] = [0, 0, 0, 16, 0, 16, 0, 1, 0, 0, 0, 2, 0, 0, 0, 1];
    let mut frame: Vec<u8> = Vec::new();
    frame.extend_from_slice(bytes.as_slice());
    assert(frame@ =~= heartbeat());
    frame
}

/// A buffer that is one whole frame by its own length prefix splits into
/// that frame alone.
pub proof fn lemma_whole_frame_splits_to_itself(b: Seq<u8>)
    requires
        b.len() >= 16,
        be_u32(b, 0) == b.len(),
    ensures
        split_frames(b) == seq![b],
{
    let n = b.len() as int;
    assert(b.subrange(0, n) =~= b);
    assert(frames_from(b, n) =~= Seq::<Seq<u8>>::empty());
    assert(seq![b] + Seq::<Seq<u8>>::empty() =~= seq![b]);
}

/// The opening frame and the keepalive frame are each one whole frame.
pub proof fn lemma_sent_frames_are_whole(room: Seq<u8>)
    requires
        room.len() + 27 <= u32::MAX,
    ensures
        split_frames(handshake(room)) == seq![handshake(room)],
        split_frames(heartbeat()) == seq![heartbeat()],
{
    lemma_be_u32_round_trip(16 + handshake_body(room).len() as int);
    lemma_whole_frame_splits_to_itself(handshake(room));
    lemma_whole_frame_splits_to_itself(heartbeat());
}

} // verus!
