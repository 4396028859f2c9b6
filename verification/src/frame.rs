//! Frame records: a 4-byte payload size, an 8-byte timestamp, the payload.

use vstd::prelude::*;
use crate::le::{le_bytes_u32, le_bytes_u64, le_u32, le_u64};
use crate::le::{lemma_le_u32_of_le_bytes, lemma_le_u64_of_le_bytes};

verus! {

/// The number of bytes in front of a record's payload.
pub const FRAME_HEADER_LEN: usize = 12;

/// Frame inside an IVF.
#[derive(Debug, PartialEq, Eq)]
pub struct IvfFrame {
    /// The timestamp of the frame.
    pub timestamp: u64,
    /// The data of the frame.
    pub data: Vec<u8>,
}

/// An [`IvfFrame`] with its payload as a sequence.
pub struct IvfFrameView {
    pub timestamp: u64,
    pub data: Seq<u8>,
}

impl View for IvfFrame {
    type V = IvfFrameView;

    open spec fn view(&self) -> IvfFrameView {
        IvfFrameView { timestamp: self.timestamp, data: self.data@ }
    }
}

impl Clone for IvfFrame {
    fn clone(&self) -> (copy: Self)
        ensures
            copy@ == self@,
    {
        IvfFrame { timestamp: self.timestamp, data: self.data.clone() }
    }
}

/// The length of the record at the start of `bytes`, as its size field
/// declares it: the 12 bytes in front of the payload, and the payload.
pub open spec fn record_len(bytes: Seq<u8>) -> int
    recommends
        bytes.len() >= FRAME_HEADER_LEN,
{
    FRAME_HEADER_LEN + le_u32(bytes, 0)
}

/// Whether `bytes` starts with a complete record.
pub open spec fn has_frame(bytes: Seq<u8>) -> bool {
    bytes.len() >= FRAME_HEADER_LEN && bytes.len() >= record_len(bytes)
}

/// The frame that the record at the start of `bytes` holds.
pub open spec fn first_frame(bytes: Seq<u8>) -> IvfFrameView
    recommends
        has_frame(bytes),
{
    IvfFrameView {
        timestamp: le_u64(bytes, 4),
        data: bytes.subrange(FRAME_HEADER_LEN as int, record_len(bytes)),
    }
}

/// The frames of the complete records at the start of `bytes`, in order.
/// Whatever follows the last complete record is left out.
pub open spec fn frames(bytes: Seq<u8>) -> Seq<IvfFrameView>
    decreases bytes.len(),
{
    if has_frame(bytes) {
        seq![first_frame(bytes)] + frames(bytes.skip(record_len(bytes)))
    } else {
        Seq::empty()
    }
}

/// The record that stores `frame`.
pub open spec fn encode_frame(frame: IvfFrameView) -> Seq<u8>
    recommends
        frame.data.len() <= u32::MAX,
{
    le_bytes_u32(frame.data.len() as u32) + le_bytes_u64(frame.timestamp) + frame.data
}

/// The records that store `frames`, one after the other.
pub open spec fn encode_frames(frames: Seq<IvfFrameView>) -> Seq<u8>
    decreases frames.len(),
{
    if frames.len() == 0 {
        Seq::empty()
    } else {
        encode_frame(frames[0]) + encode_frames(frames.skip(1))
    }
}

/// Whether each payload is short enough for its length to fit the size field.
pub open spec fn encodable(frames: Seq<IvfFrameView>) -> bool {
    forall|i: int| 0 <= i < frames.len() ==> (#[trigger] frames[i]).data.len() <= u32::MAX
}

/// A buffer that starts with the record of `frame` starts with a complete
/// record, which holds `frame`, and `rest` is what follows it.
pub proof fn lemma_first_of_encoded(frame: IvfFrameView, rest: Seq<u8>)
    requires
        frame.data.len() <= u32::MAX,
    ensures
        has_frame(encode_frame(frame) + rest),
        first_frame(encode_frame(frame) + rest) == frame,
        (encode_frame(frame) + rest).skip(record_len(encode_frame(frame) + rest)) == rest,
{
    let size = frame.data.len() as u32;
    let bytes = encode_frame(frame) + rest;
    assert(bytes.subrange(0, 4) =~= le_bytes_u32(size));
    assert(bytes.subrange(4, 12) =~= le_bytes_u64(frame.timestamp));
    lemma_le_u32_of_le_bytes(bytes, 0, size);
    lemma_le_u64_of_le_bytes(bytes, 4, frame.timestamp);
    assert(bytes.subrange(FRAME_HEADER_LEN as int, record_len(bytes)) =~= frame.data);
    assert(bytes.skip(record_len(bytes)) =~= rest);
}

/// Records that were cut short are dropped: when nothing complete is left in
/// `tail`, the frames of `frames`' records followed by `tail` are `frames`.
pub proof fn lemma_frames_of_encoded(frames: Seq<IvfFrameView>, tail: Seq<u8>)
    requires
        encodable(frames),
        !has_frame(tail),
    ensures
        self::frames(encode_frames(frames) + tail) == frames,
    decreases frames.len(),
{
    if frames.len() == 0 {
        assert(encode_frames(frames) + tail =~= tail);
    } else {
        let later = frames.skip(1);
        let rest = encode_frames(later) + tail;
        assert(encode_frames(frames) + tail =~= encode_frame(frames[0]) + rest);
        lemma_first_of_encoded(frames[0], rest);
        lemma_frames_of_encoded(later, tail);
        assert(seq![frames[0]] + later =~= frames);
    }
}

/// Complete records read back as they were written: the frames of the
/// records of `frames` are `frames`, as many and in the same order.
pub proof fn lemma_frames_round_trip(frames: Seq<IvfFrameView>)
    requires
        encodable(frames),
    ensures
        self::frames(encode_frames(frames)) == frames,
{
    let nothing = Seq::<u8>::empty();
    assert(encode_frames(frames) + nothing =~= encode_frames(frames));
    lemma_frames_of_encoded(frames, nothing);
}

/// A record that lacks one byte or more is not a complete record.
pub proof fn lemma_cut_record_is_no_frame(frame: IvfFrameView, kept: int)
    requires
        frame.data.len() <= u32::MAX,
        0 <= kept < encode_frame(frame).len(),
    ensures
        !has_frame(encode_frame(frame).take(kept)),
{
    let record = encode_frame(frame);
    let cut = record.take(kept);
    if kept >= FRAME_HEADER_LEN {
        let size = frame.data.len() as u32;
        assert(cut.subrange(0, 4) =~= le_bytes_u32(size));
        lemma_le_u32_of_le_bytes(cut, 0, size);
    }
}

/// When the last record of a buffer lacks one byte or more, of its size, its
/// timestamp or its payload, the frames are those of the records before it.
pub proof fn lemma_cut_last_record_is_dropped(
    frames: Seq<IvfFrameView>,
    last: IvfFrameView,
    kept: int,
)
    requires
        encodable(frames),
        last.data.len() <= u32::MAX,
        0 <= kept < encode_frame(last).len(),
    ensures
        self::frames(encode_frames(frames) + encode_frame(last).take(kept)) == frames,
{
    lemma_cut_record_is_no_frame(last, kept);
    lemma_frames_of_encoded(frames, encode_frame(last).take(kept));
}

} // verus!
