//! The 10-byte header that opens every ITCH record: stock locate,
//! tracking number, and a 48-bit timestamp in nanoseconds since midnight.
//! The one-byte type tag is consumed at framing and is not re-stored; the
//! decoder leaves `message_type` as `'_'`.

use vstd::prelude::*;

use crate::bytes::{
    be_u16, be_u48, lemma_be_u16_round_trip, lemma_be_u48_round_trip, read_be_u16, read_be_u48,
    u16_be, u48_be, write_be_u16, write_be_u48,
};
use crate::random::rand_u64;
use crate::types::{BinaryMessageLength, GenerateExampleMessage};

verus! {

#[derive(Debug, Clone, Copy, PartialEq)]
pub struct MessageHeader {
    pub message_type: char,
    pub stock_locate: u16,
    pub tracking_number: u16,
    pub timestamp: u64,
}

/// The header read from 10 bytes.
pub open spec fn spec_parse_header(s: Seq<u8>) -> MessageHeader
    recommends
        s.len() == 10,
{
    MessageHeader {
        message_type: '_',
        stock_locate: be_u16(s.subrange(0, 2)),
        tracking_number: be_u16(s.subrange(2, 4)),
        timestamp: be_u48(s.subrange(4, 10)),
    }
}

/// The 10 bytes of a header.
pub open spec fn spec_encode_header(h: MessageHeader) -> Seq<u8> {
    u16_be(h.stock_locate) + u16_be(h.tracking_number) + u48_be(h.timestamp)
}

impl MessageHeader {
    /// A header the decoder can produce: the timestamp fits in 48 bits and
    /// the type tag was consumed at framing.
    pub open spec fn wf(&self) -> bool {
        self.timestamp < 0x1000000000000 && self.message_type == '_'
    }

    /// Decodes the 10 header bytes. The caller frames records, so the
    /// slice has exactly the header's length.
    pub fn parse(input: &[u8]) -> (r: MessageHeader)
        requires
            input@.len() == 10,
        ensures
            r == spec_parse_header(input@),
            r.wf(),
    {
        MessageHeader {
            message_type: '_',
            stock_locate: read_be_u16(input, 0),
            tracking_number: read_be_u16(input, 2),
            timestamp: read_be_u48(input, 4),
        }
    }

    /// Appends the 10 header bytes.
    pub fn write(&self, v: &mut Vec<u8>)
        requires
            self.timestamp < 0x1000000000000,
        ensures
            final(v)@ == old(v)@ + spec_encode_header(*self),
            final(v)@.len() == old(v)@.len() + 10,
    {
        write_be_u16(v, self.stock_locate);
        write_be_u16(v, self.tracking_number);
        write_be_u48(v, self.timestamp);
        proof {
            assert(final(v)@ =~= old(v)@ + spec_encode_header(*self));
        }
    }
}

/// Decoding the encoded bytes of a well-formed header gives it back.
pub proof fn lemma_header_round_trip(h: MessageHeader)
    requires
        h.wf(),
    ensures
        spec_encode_header(h).len() == 10,
        spec_parse_header(spec_encode_header(h)) == h,
{
    lemma_be_u16_round_trip(h.stock_locate);
    lemma_be_u16_round_trip(h.tracking_number);
    lemma_be_u48_round_trip(h.timestamp);
    let s = spec_encode_header(h);
    assert(s.subrange(0, 2) =~= u16_be(h.stock_locate));
    assert(s.subrange(2, 4) =~= u16_be(h.tracking_number));
    assert(s.subrange(4, 10) =~= u48_be(h.timestamp));
}

impl BinaryMessageLength for MessageHeader {
    const LENGTH: usize = 10;
}

impl GenerateExampleMessage for MessageHeader {
    /// 10 random header bytes.
    fn generate_binary_example() -> (r: Vec<u8>)
        ensures
            r@.len() == 10,
    {
        let mut v: Vec<u8> = Vec::new();
        let stock_locate = (rand_u64() % 0x10000) as u16;
        let tracking_number = (rand_u64() % 0x10000) as u16;
        let timestamp = rand_u64() % 0x1000000000000;
        write_be_u16(&mut v, stock_locate);
        write_be_u16(&mut v, tracking_number);
        write_be_u48(&mut v, timestamp);
        v
    }
}

} // verus!
