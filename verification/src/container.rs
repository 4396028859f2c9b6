//! An opened container and the sequence of its frames.

use vstd::prelude::*;
use vstd::slice::slice_to_vec;
use crate::cursor::ByteCursor;
use crate::error::{IvfError, IvfErrorView};
use crate::frame::{encodable, encode_frames, first_frame, frames, has_frame, record_len};
use crate::frame::{lemma_frames_of_encoded, IvfFrame, IvfFrameView, FRAME_HEADER_LEN};
use crate::header::{encode_header, parse_header, IvfHeader, IvfHeaderView};
use crate::header::{lemma_decode_of_encoded, lemma_valid_header_is_accepted};
use crate::header::{FOUR_CC, HEADER_LEN, SIGNATURE, VERSION};
use crate::le::{read_u32, read_u64};

verus! {

/// IVF is a simple container format for raw VP8/VP9 data.
///
/// Use the `iter()` to iterate over the frames.
#[derive(Debug)]
pub struct Ivf {
    reader: ByteCursor,
    header: IvfHeader,
}

/// What an [`Ivf`] stands for: its header, and the bytes that follow the
/// header in its source.
pub struct IvfView {
    pub header: IvfHeaderView,
    pub body: Seq<u8>,
}

impl View for Ivf {
    type V = IvfView;

    closed spec fn view(&self) -> IvfView {
        IvfView { header: self.header@, body: self.reader@ }
    }
}

impl IvfView {
    /// The state in which every sequence of this container's frames starts.
    pub open spec fn iter(self) -> IvfIterView {
        IvfIterView { bytes: self.body, frame_count: self.header.frame_count }
    }
}

impl Ivf {
    /// Creates a new IVF using the given reader.
    ///
    /// The header is read from the reader's position and validated; the
    /// frames are the records that follow it.
    pub fn new(reader: ByteCursor) -> (r: Result<Self, IvfError>)
        ensures
            match opened(reader@) {
                Ok(view) => r matches Ok(ivf) && ivf@ == view,
                Err(error) => r matches Err(e) && e@ == error,
            },
            reader@.len() < HEADER_LEN ==> r matches Err(IvfError::TruncatedInput),
    {
        let mut reader = reader;
        match IvfHeader::parse(&mut reader) {
            Ok(header) => Ok(Ivf { reader, header }),
            Err(e) => Err(e),
        }
    }

    /// The initial width of the video.
    pub fn width(&self) -> (width: u16)
        ensures
            width == self@.header.width,
    {
        self.header.width
    }

    /// The initial height of the video.
    pub fn height(&self) -> (height: u16)
        ensures
            height == self@.header.height,
    {
        self.header.height
    }

    /// The numerator of the frame rate: `frame_rate_rate / frame_rate_scale`
    /// frames are shown per second.
    pub fn frame_rate_rate(&self) -> (rate: u32)
        ensures
            rate == self@.header.frame_rate_rate,
    {
        self.header.frame_rate_rate
    }

    /// Divider of the seconds (integer math).
    pub fn frame_rate_scale(&self) -> (scale: u32)
        ensures
            scale == self@.header.frame_rate_scale,
    {
        self.header.frame_rate_scale
    }

    /// Number of frames that the header declares. It is not compared with
    /// the number of records that follow.
    pub fn frame_count(&self) -> (count: u32)
        ensures
            count == self@.header.frame_count,
    {
        self.header.frame_count
    }

    /// Iterates over the frames inside the IVF.
    ///
    /// Every call starts at the first record after the header, on a copy of
    /// the reader, so the sequences do not disturb each other or the
    /// container.
    pub fn iter(&self) -> (iter: IvfIter)
        ensures
            iter@ == self@.iter(),
    {
        IvfIter { reader: self.reader.clone(), frame_count: self.frame_count() }
    }
}

impl Clone for Ivf {
    fn clone(&self) -> (copy: Self)
        ensures
            copy@ == self@,
    {
        Ivf { reader: self.reader.clone(), header: self.header }
    }
}

/// Iterates over the frames inside the IVF.
#[derive(Debug)]
pub struct IvfIter {
    reader: ByteCursor,
    frame_count: u32,
}

/// What an [`IvfIter`] stands for: the bytes that it has not read yet, and
/// the frame count that its container declared.
pub struct IvfIterView {
    pub bytes: Seq<u8>,
    pub frame_count: u32,
}

impl View for IvfIter {
    type V = IvfIterView;

    closed spec fn view(&self) -> IvfIterView {
        IvfIterView { bytes: self.reader@, frame_count: self.frame_count }
    }
}

impl IvfIterView {
    /// What the next demand yields: the frame of the first record if it is
    /// complete, else nothing.
    pub open spec fn head(self) -> Option<IvfFrameView> {
        if has_frame(self.bytes) {
            Some(first_frame(self.bytes))
        } else {
            None
        }
    }

    /// The state after the next demand: past the first record if it is
    /// complete, else at the end of the bytes.
    pub open spec fn advance(self) -> IvfIterView {
        IvfIterView {
            bytes: if has_frame(self.bytes) {
                self.bytes.skip(record_len(self.bytes))
            } else {
                Seq::empty()
            },
            frame_count: self.frame_count,
        }
    }

    /// The state after `n` demands.
    pub open spec fn after(self, n: nat) -> IvfIterView
        decreases n,
    {
        if n == 0 {
            self
        } else {
            self.advance().after((n - 1) as nat)
        }
    }

    /// The frames that are still to come, in order.
    pub open spec fn pending(self) -> Seq<IvfFrameView> {
        frames(self.bytes)
    }
}

/// What opening `bytes` gives: the header and the bytes after it, or the
/// reason for which the header is refused.
pub open spec fn opened(bytes: Seq<u8>) -> Result<IvfView, IvfErrorView> {
    match parse_header(bytes) {
        Ok(header) => Ok(IvfView { header, body: bytes.skip(HEADER_LEN as int) }),
        Err(error) => Err(error),
    }
}

/// A valid header followed by the records of `stored`, and then by bytes in
/// which no complete record is left, opens as a container with that header
/// whose frames are exactly `stored`, in the order in which they were
/// written. With an empty `tail` the records are all complete; with a record
/// cut short as `tail`, that record is left out and the others stay.
pub proof fn lemma_open_of_encoded(
    header: IvfHeaderView,
    stored: Seq<IvfFrameView>,
    tail: Seq<u8>,
)
    requires
        header.signature == SIGNATURE@,
        header.version == VERSION,
        header.length == HEADER_LEN,
        header.four_cc == FOUR_CC@,
        header.reserved.len() == 4,
        encodable(stored),
        !has_frame(tail),
    ensures
        opened(encode_header(header) + encode_frames(stored) + tail) matches Ok(ivf) && {
            &&& ivf.header == header
            &&& ivf.iter().pending() == stored
            &&& ivf.iter().frame_count == header.frame_count
        },
{
    let rest = encode_frames(stored) + tail;
    let bytes = encode_header(header) + encode_frames(stored) + tail;
    assert(bytes =~= encode_header(header) + rest);
    lemma_valid_header_is_accepted(header, rest);
    lemma_decode_of_encoded(header, rest);
    lemma_frames_of_encoded(stored, tail);
}

/// Each demand takes the first of the frames that are still to come and
/// leaves the others; when none is to come it yields nothing and nothing is
/// to come after it either.
pub proof fn lemma_demand_takes_first(state: IvfIterView)
    ensures
        state.head() == (if state.pending().len() > 0 {
            Some(state.pending()[0])
        } else {
            None
        }),
        state.advance().pending() == (if state.pending().len() > 0 {
            state.pending().skip(1)
        } else {
            Seq::empty()
        }),
{
    if has_frame(state.bytes) {
        let rest = frames(state.bytes.skip(record_len(state.bytes)));
        assert((seq![first_frame(state.bytes)] + rest).skip(1) =~= rest);
    } else {
        assert(!has_frame(Seq::<u8>::empty()));
    }
}

/// A sequence yields the frames of its bytes in order and then ends for
/// good: demand number `n`, counted from 0, yields frame `n` while there is
/// one, and nothing from then on.
pub proof fn lemma_nth_demand(state: IvfIterView, n: nat)
    ensures
        state.after(n).head() == (if n < state.pending().len() {
            Some(state.pending()[n as int])
        } else {
            None
        }),
        state.after(n).pending() == (if n <= state.pending().len() {
            state.pending().skip(n as int)
        } else {
            Seq::empty()
        }),
        state.after(n).frame_count == state.frame_count,
    decreases n,
{
    lemma_demand_takes_first(state);
    if n == 0 {
        assert(state.pending().skip(0) =~= state.pending());
    } else {
        let next = state.advance();
        let m = (n - 1) as nat;
        lemma_nth_demand(next, m);
        lemma_demand_takes_first(next.after(m));
        if state.pending().len() > 0 {
            if n <= state.pending().len() {
                assert(state.pending().skip(1).skip(m as int) =~= state.pending().skip(n as int));
            }
        }
    }
}

/// Two sequences of one container start in the same state, and taking
/// frames from the first changes nothing for the second: after any number of
/// demands on the first, the second still has every frame of the container
/// to come, and the first has those that it has not yielded.
pub proof fn lemma_sequences_are_independent(ivf: IvfView, taken: nat)
    ensures
        ({
            let first = ivf.iter().after(taken);
            let second = ivf.iter();
            &&& second.pending() == frames(ivf.body)
            &&& first.pending() == (if taken <= frames(ivf.body).len() {
                frames(ivf.body).skip(taken as int)
            } else {
                Seq::empty()
            })
        }),
{
    lemma_nth_demand(ivf.iter(), taken);
}

impl IvfIter {
    /// The next frame, or `None` when no complete record is left.
    ///
    /// A record that is cut short, in its size, its timestamp or its payload,
    /// ends the sequence like the end of the input does: the rest of the
    /// bytes is dropped and every later call returns `None`.
    pub fn next(&mut self) -> (frame: Option<IvfFrame>)
        ensures
            match frame {
                Some(frame) => old(self)@.head() == Some(frame@),
                None => old(self)@.head() is None,
            },
            final(self)@ == old(self)@.advance(),
    {
        let ghost bytes = self.reader@;
        let size: u32 = match self.reader.read_exact(4) {
            Some(field) => read_u32(field, 0),
            None => {
                return None;
            },
        };
        let timestamp: u64 = match self.reader.read_exact(8) {
            Some(field) => read_u64(field, 0),
            None => {
                return None;
            },
        };
        let data: Vec<u8> = match self.reader.read_exact(size as usize) {
            Some(payload) => slice_to_vec(payload),
            None => {
                return None;
            },
        };
        proof {
            assert(data@ =~= bytes.subrange(FRAME_HEADER_LEN as int, record_len(bytes)));
            assert(self.reader@ =~= bytes.skip(record_len(bytes)));
        }
        Some(IvfFrame { timestamp, data })
    }

    /// Bounds on the number of frames that are left: none from below, the
    /// declared frame count from above. The count is what the header says,
    /// not what the records bear out.
    pub fn size_hint(&self) -> (hint: (usize, Option<usize>))
        ensures
            hint == (0usize, Some(self@.frame_count as usize)),
    {
        (0, Some(self.frame_count as usize))
    }
}

} // verus!
