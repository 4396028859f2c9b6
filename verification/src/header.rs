//! The fixed 32-byte header that opens a container.

use vstd::prelude::*;
use crate::cursor::ByteCursor;
use crate::error::{IvfError, IvfErrorView};
use crate::le::{le_bytes_u16, le_bytes_u32, le_u16, le_u32, read_u16, read_u32};
use crate::le::{lemma_le_u16_of_le_bytes, lemma_le_u32_of_le_bytes};

verus! {

/// The number of bytes in a header.
pub const HEADER_LEN: usize = 32;

/// The four bytes that open every container: `DKIF` in ASCII.
pub const SIGNATURE: [u8; 4] = [0x44, 0x4B, 0x49, 0x46];

/// The only version of the format.
pub const VERSION: u16 = 0;

/// The tag of the one codec that is accepted: `VP90` in ASCII.
pub const FOUR_CC: [u8; 4] = [0x56, 0x50, 0x39, 0x30];

/// The fields of a header, in the order in which they are stored.
#[derive(Debug, Clone, Copy)]
pub struct IvfHeader {
    pub signature: [u8; 4],
    pub version: u16,
    pub length: u16,
    pub four_cc: [u8; 4],
    pub width: u16,
    pub height: u16,
    pub frame_rate_rate: u32,
    pub frame_rate_scale: u32,
    pub frame_count: u32,
    pub reserved: [u8; 4],
}

/// An [`IvfHeader`] with its byte fields as sequences.
pub struct IvfHeaderView {
    pub signature: Seq<u8>,
    pub version: u16,
    pub length: u16,
    pub four_cc: Seq<u8>,
    pub width: u16,
    pub height: u16,
    pub frame_rate_rate: u32,
    pub frame_rate_scale: u32,
    pub frame_count: u32,
    pub reserved: Seq<u8>,
}

impl View for IvfHeader {
    type V = IvfHeaderView;

    open spec fn view(&self) -> IvfHeaderView {
        IvfHeaderView {
            signature: self.signature@,
            version: self.version,
            length: self.length,
            four_cc: self.four_cc@,
            width: self.width,
            height: self.height,
            frame_rate_rate: self.frame_rate_rate,
            frame_rate_scale: self.frame_rate_scale,
            frame_count: self.frame_count,
            reserved: self.reserved@,
        }
    }
}

/// The fields that the first 32 bytes of `bytes` hold, whatever their values.
pub open spec fn decode_header(bytes: Seq<u8>) -> IvfHeaderView
    recommends
        bytes.len() >= HEADER_LEN,
{
    IvfHeaderView {
        signature: bytes.subrange(0, 4),
        version: le_u16(bytes, 4),
        length: le_u16(bytes, 6),
        four_cc: bytes.subrange(8, 12),
        width: le_u16(bytes, 12),
        height: le_u16(bytes, 14),
        frame_rate_rate: le_u32(bytes, 16),
        frame_rate_scale: le_u32(bytes, 20),
        frame_count: le_u32(bytes, 24),
        reserved: bytes.subrange(28, 32),
    }
}

/// What is wrong with a header, if anything: the text for the first of the
/// four checks (signature, version, length, codec tag) that it fails.
pub open spec fn header_fault(header: IvfHeaderView) -> Option<Seq<char>> {
    if header.signature != SIGNATURE@ {
        Some("invalid signature"@)
    } else if header.version != VERSION {
        Some("invalid version"@)
    } else if header.length != HEADER_LEN {
        Some("invalid length"@)
    } else if header.four_cc != FOUR_CC@ {
        Some("invalid four_cc"@)
    } else {
        None
    }
}

/// The outcome of reading a header from the start of `bytes`.
pub open spec fn parse_header(bytes: Seq<u8>) -> Result<IvfHeaderView, IvfErrorView> {
    if bytes.len() < HEADER_LEN {
        Err(IvfErrorView::TruncatedInput)
    } else {
        match header_fault(decode_header(bytes)) {
            Some(reason) => Err(IvfErrorView::InvalidHeader(reason)),
            None => Ok(decode_header(bytes)),
        }
    }
}

/// Only the first 32 bytes of a buffer matter to the header that it holds.
pub proof fn lemma_header_is_in_prefix(bytes: Seq<u8>)
    requires
        bytes.len() >= HEADER_LEN,
    ensures
        decode_header(bytes.take(HEADER_LEN as int)) == decode_header(bytes),
        parse_header(bytes.take(HEADER_LEN as int)) == parse_header(bytes),
{
    let prefix = bytes.take(HEADER_LEN as int);
    assert(prefix.subrange(0, 4) =~= bytes.subrange(0, 4));
    assert(prefix.subrange(8, 12) =~= bytes.subrange(8, 12));
    assert(prefix.subrange(28, 32) =~= bytes.subrange(28, 32));
}

/// The 32 bytes that store `header`, field after field.
pub open spec fn encode_header(header: IvfHeaderView) -> Seq<u8>
    recommends
        header.signature.len() == 4,
        header.four_cc.len() == 4,
        header.reserved.len() == 4,
{
    header.signature + le_bytes_u16(header.version) + le_bytes_u16(header.length)
        + header.four_cc + le_bytes_u16(header.width) + le_bytes_u16(header.height)
        + le_bytes_u32(header.frame_rate_rate) + le_bytes_u32(header.frame_rate_scale)
        + le_bytes_u32(header.frame_count) + header.reserved
}

/// A buffer that starts with the bytes of `header` holds exactly the fields
/// of `header`, and `rest` is what follows them.
pub proof fn lemma_decode_of_encoded(header: IvfHeaderView, rest: Seq<u8>)
    requires
        header.signature.len() == 4,
        header.four_cc.len() == 4,
        header.reserved.len() == 4,
    ensures
        encode_header(header).len() == HEADER_LEN,
        decode_header(encode_header(header) + rest) == header,
        (encode_header(header) + rest).skip(HEADER_LEN as int) == rest,
{
    let bytes = encode_header(header) + rest;
    assert(bytes.subrange(0, 4) =~= header.signature);
    assert(bytes.subrange(4, 6) =~= le_bytes_u16(header.version));
    assert(bytes.subrange(6, 8) =~= le_bytes_u16(header.length));
    assert(bytes.subrange(8, 12) =~= header.four_cc);
    assert(bytes.subrange(12, 14) =~= le_bytes_u16(header.width));
    assert(bytes.subrange(14, 16) =~= le_bytes_u16(header.height));
    assert(bytes.subrange(16, 20) =~= le_bytes_u32(header.frame_rate_rate));
    assert(bytes.subrange(20, 24) =~= le_bytes_u32(header.frame_rate_scale));
    assert(bytes.subrange(24, 28) =~= le_bytes_u32(header.frame_count));
    assert(bytes.subrange(28, 32) =~= header.reserved);
    lemma_le_u16_of_le_bytes(bytes, 4, header.version);
    lemma_le_u16_of_le_bytes(bytes, 6, header.length);
    lemma_le_u16_of_le_bytes(bytes, 12, header.width);
    lemma_le_u16_of_le_bytes(bytes, 14, header.height);
    lemma_le_u32_of_le_bytes(bytes, 16, header.frame_rate_rate);
    lemma_le_u32_of_le_bytes(bytes, 20, header.frame_rate_scale);
    lemma_le_u32_of_le_bytes(bytes, 24, header.frame_count);
    assert(bytes.skip(HEADER_LEN as int) =~= rest);
}

/// Every buffer that starts with a header whose signature, version, length
/// and codec tag are the fixed ones is accepted, whatever the other fields
/// hold and whatever follows, and the fields come out as they were stored.
pub proof fn lemma_valid_header_is_accepted(header: IvfHeaderView, rest: Seq<u8>)
    requires
        header.signature == SIGNATURE@,
        header.version == VERSION,
        header.length == HEADER_LEN,
        header.four_cc == FOUR_CC@,
        header.reserved.len() == 4,
    ensures
        parse_header(encode_header(header) + rest) == Ok::<IvfHeaderView, IvfErrorView>(header),
{
    lemma_decode_of_encoded(header, rest);
}

/// A buffer of 32 bytes or more in which one of the four fixed fields holds
/// another value is rejected as an invalid header, and the text names the
/// first such field in the order signature, version, length, codec tag.
pub proof fn lemma_invalid_header_is_rejected(bytes: Seq<u8>)
    requires
        bytes.len() >= HEADER_LEN,
    ensures
        ({
            let header = decode_header(bytes);
            let sig = header.signature == SIGNATURE@;
            let ver = header.version == VERSION;
            let len = header.length == HEADER_LEN;
            let tag = header.four_cc == FOUR_CC@;
            &&& sig && ver && len && tag <==> parse_header(bytes) is Ok
            &&& !sig ==> parse_header(bytes) == Err::<IvfHeaderView, IvfErrorView>(
                IvfErrorView::InvalidHeader("invalid signature"@),
            )
            &&& sig && !ver ==> parse_header(bytes) == Err::<IvfHeaderView, IvfErrorView>(
                IvfErrorView::InvalidHeader("invalid version"@),
            )
            &&& sig && ver && !len ==> parse_header(bytes) == Err::<IvfHeaderView, IvfErrorView>(
                IvfErrorView::InvalidHeader("invalid length"@),
            )
            &&& sig && ver && len && !tag ==> parse_header(bytes) == Err::<
                IvfHeaderView,
                IvfErrorView,
            >(IvfErrorView::InvalidHeader("invalid four_cc"@))
        }),
{
}

/// The four texts differ from each other, so the text of an invalid header
/// tells which check failed.
pub proof fn lemma_reasons_differ()
    ensures
        "invalid signature"@ != "invalid version"@,
        "invalid signature"@ != "invalid length"@,
        "invalid signature"@ != "invalid four_cc"@,
        "invalid version"@ != "invalid length"@,
        "invalid version"@ != "invalid four_cc"@,
        "invalid length"@ != "invalid four_cc"@,
{
    reveal_strlit("invalid signature");
    reveal_strlit("invalid version");
    reveal_strlit("invalid length");
    reveal_strlit("invalid four_cc");
    assert("invalid signature"@[8] == 's');
    assert("invalid version"@[8] == 'v');
    assert("invalid length"@[8] == 'l');
    assert("invalid four_cc"@[8] == 'f');
}

fn same_tag(tag: &[u8; 4], expected: &[u8; 4]) -> (same: bool)
    ensures
        same == (tag@ == expected@),
{
    let same: bool = tag[0] == expected[0] && tag[1] == expected[1] && tag[2] == expected[2]
        && tag[3] == expected[3];
    proof {
        if same {
            assert(tag@ =~= expected@);
        } else {
            assert(tag@[0] != expected@[0] || tag@[1] != expected@[1] || tag@[2] != expected@[2]
                || tag@[3] != expected@[3]);
        }
    }
    same
}

impl IvfHeader {
    fn decode(bytes: &[u8]) -> (header: IvfHeader)
        requires
            bytes.len() >= HEADER_LEN,
        ensures
            header@ == decode_header(bytes@),
    {
        let header = IvfHeader {
            signature: [bytes[0], bytes[1], bytes[2], bytes[3]],
            version: read_u16(bytes, 4),
            length: read_u16(bytes, 6),
            four_cc: [bytes[8], bytes[9], bytes[10], bytes[11]],
            width: read_u16(bytes, 12),
            height: read_u16(bytes, 14),
            frame_rate_rate: read_u32(bytes, 16),
            frame_rate_scale: read_u32(bytes, 20),
            frame_count: read_u32(bytes, 24),
            reserved: [bytes[28], bytes[29], bytes[30], bytes[31]],
        };
        proof {
            assert(header.signature@ =~= bytes@.subrange(0, 4));
            assert(header.four_cc@ =~= bytes@.subrange(8, 12));
            assert(header.reserved@ =~= bytes@.subrange(28, 32));
        }
        header
    }

    /// Checks the four fields whose values the format fixes, in the order
    /// signature, version, length, codec tag, and reports the first that is
    /// wrong.
    pub fn validate(&self) -> (r: Result<(), IvfError>)
        ensures
            match header_fault(self@) {
                Some(reason) => r matches Err(e) && e@ == IvfErrorView::InvalidHeader(reason),
                None => r is Ok,
            },
    {
        if !same_tag(&self.signature, &SIGNATURE) {
            return Err(IvfError::InvalidHeader("invalid signature".to_owned()));
        }
        if self.version != VERSION {
            return Err(IvfError::InvalidHeader("invalid version".to_owned()));
        }
        if self.length as usize != HEADER_LEN {
            return Err(IvfError::InvalidHeader("invalid length".to_owned()));
        }
        if !same_tag(&self.four_cc, &FOUR_CC) {
            return Err(IvfError::InvalidHeader("invalid four_cc".to_owned()));
        }
        Ok(())
    }

    /// Reads a header from `reader` and validates it.
    ///
    /// On success exactly the 32 bytes of the header have been read.
    pub fn parse(reader: &mut ByteCursor) -> (r: Result<IvfHeader, IvfError>)
        ensures
            match parse_header(old(reader)@) {
                Ok(header) => {
                    &&& r matches Ok(h)
                    &&& h@ == header
                    &&& final(reader)@ == old(reader)@.skip(HEADER_LEN as int)
                },
                Err(error) => r matches Err(e) && e@ == error,
            },
    {
        proof {
            if reader@.len() >= HEADER_LEN {
                lemma_header_is_in_prefix(reader@);
            }
        }
        let header = match reader.read_exact(HEADER_LEN) {
            Some(bytes) => IvfHeader::decode(bytes),
            None => {
                return Err(IvfError::TruncatedInput);
            },
        };
        match header.validate() {
            Ok(()) => Ok(header),
            Err(e) => Err(e),
        }
    }
}

} // verus!
