//! Trade records: non-cross trades, cross trades, and broken trades.

use vstd::prelude::*;

use crate::bytes::{
    be_u16, be_u32, be_u64, lemma_be_u16_round_trip, lemma_be_u32_round_trip,
    lemma_be_u64_round_trip, lemma_seq_to_arr8, read_arr8, read_be_u16, read_be_u32,
    read_be_u64, seq_to_arr8, u16_be, u32_be, u64_be, write_arr4, write_arr8, write_be_u16,
    write_be_u32, write_be_u48, write_be_u64,
};
use crate::messageheader::{
    lemma_header_round_trip, spec_encode_header, spec_parse_header, MessageHeader,
};
use crate::random::rand_u64;
use crate::types::{
    BinaryMessageLength, EnumTestHelpers, GenerateExampleMessage, MessageHeaderType, Parse,
    ParseError, Price4, Stock,
};
use crate::enums::{spec_cross_type, spec_cross_type_byte, CrossType};

verus! {

/// A non-cross trade record (`'P'`): a match against a non-displayed order. The side byte is always `'B'`.
#[derive(Debug, Clone, Copy, PartialEq)]
pub struct NonCrossingTrade {
    pub header: MessageHeader,
    pub order_reference_number: u64,
    pub buy_sell_indicator: char,
    pub shares: u32,
    pub stock: Stock,
    pub price: Price4,
    pub match_number: u64,
}

/// The record read from a slice: exactly 43 bytes, then each field
/// at its fixed offset; the first invalid categorical byte decides the
/// error.
pub open spec fn spec_parse_non_crossing_trade(s: Seq<u8>) -> Result<NonCrossingTrade, ParseError> {
    if s.len() != 43 {
        Err(ParseError::IncompleteMessage { expected: 43 })
    } else {
        if s[18] != 66 {
            Err(ParseError::InvalidCrossType { invalid_byte: s[18] })
        } else {
            Ok(NonCrossingTrade {
            header: spec_parse_header(s.subrange(0, 10)),
            order_reference_number: be_u64(s.subrange(10, 18)),
            buy_sell_indicator: 'B',
            shares: be_u32(s.subrange(19, 23)),
            stock: seq_to_arr8(s.subrange(23, 31)),
            price: Price4 { value: be_u32(s.subrange(31, 35)) },
            match_number: be_u64(s.subrange(35, 43)),
        })
        }
    }
}

/// The 43 bytes of the record.
pub open spec fn spec_encode_non_crossing_trade(m: NonCrossingTrade) -> Seq<u8> {
    spec_encode_header(m.header) + u64_be(m.order_reference_number) + seq![66u8] + u32_be(m.shares) + m.stock@ + u32_be(m.price.value) + u64_be(m.match_number)
}

impl NonCrossingTrade {
    /// A record the decoder can produce.
    pub open spec fn wf(&self) -> bool {
        self.header.wf()
            && self.buy_sell_indicator == 'B'
    }

    /// The record's wire bytes.
    pub fn encode(&self) -> (r: Vec<u8>)
        requires
            self.header.timestamp < 0x1000000000000,
        ensures
            r@ == spec_encode_non_crossing_trade(*self),
    {
        let mut v: Vec<u8> = Vec::new();
        self.header.write(&mut v);
        write_be_u64(&mut v, self.order_reference_number);
        v.push(66);
        write_be_u32(&mut v, self.shares);
        write_arr8(&mut v, &self.stock);
        write_be_u32(&mut v, self.price.value);
        write_be_u64(&mut v, self.match_number);
        proof {
            assert(v@ =~= spec_encode_non_crossing_trade(*self));
        }
        v
    }
}

impl Parse for NonCrossingTrade {
    /// Decodes the record; the slice must be exactly 43 bytes and
    /// every categorical byte must lie in its alphabet.
    fn parse(input: &[u8]) -> (r: Result<Self, ParseError>)
        ensures
            r == spec_parse_non_crossing_trade(input@),
    {
        if input.len() != 43 {
            return Err(ParseError::IncompleteMessage { expected: 43 });
        }
        let header = MessageHeader::parse(&input[0..10]);
        let order_reference_number = read_be_u64(input, 10);
        if input[18] != 66 {
            return Err(ParseError::InvalidCrossType { invalid_byte: input[18] });
        }
        let buy_sell_indicator: char = 'B';
        let shares = read_be_u32(input, 19);
        let stock = read_arr8(input, 23);
        let price = Price4::new(read_be_u32(input, 31));
        let match_number = read_be_u64(input, 35);
        Ok(NonCrossingTrade { header, order_reference_number, buy_sell_indicator, shares, stock, price, match_number })
    }
}

/// Decoding the encoded bytes of a well-formed record gives it back.
pub proof fn lemma_non_crossing_trade_round_trip(m: NonCrossingTrade)
    requires
        m.wf(),
    ensures
        spec_parse_non_crossing_trade(spec_encode_non_crossing_trade(m)) == Ok::<NonCrossingTrade, ParseError>(m),
{
    lemma_header_round_trip(m.header);
    let s = spec_encode_non_crossing_trade(m);
    assert(s.subrange(0, 10) =~= spec_encode_header(m.header));
    assert(s.subrange(10, 18) =~= u64_be(m.order_reference_number));
    lemma_be_u64_round_trip(m.order_reference_number);
    assert(s.subrange(19, 23) =~= u32_be(m.shares));
    lemma_be_u32_round_trip(m.shares);
    assert(s.subrange(23, 31) =~= m.stock@);
    lemma_seq_to_arr8(m.stock);
    assert(s.subrange(31, 35) =~= u32_be(m.price.value));
    lemma_be_u32_round_trip(m.price.value);
    assert(s.subrange(35, 43) =~= u64_be(m.match_number));
    lemma_be_u64_round_trip(m.match_number);
}

impl BinaryMessageLength for NonCrossingTrade {
    const LENGTH: usize = 43;
}

impl MessageHeaderType for NonCrossingTrade {
    const MESSAGE_TYPE: u8 = 80;
}

impl GenerateExampleMessage for NonCrossingTrade {
    /// A wire-format example with random field values and valid
    /// categorical bytes; it always decodes.
    fn generate_binary_example() -> (r: Vec<u8>)
        ensures
            spec_parse_non_crossing_trade(r@) is Ok,
    {
        let mut v = MessageHeader::generate_binary_example();
        write_be_u64(&mut v, rand_u64());
        v.push(66);
        write_be_u32(&mut v, (rand_u64() % 0x100000000) as u32);
        write_arr8(&mut v, &[84, 69, 83, 84, 32, 32, 32, 32]);
        write_be_u32(&mut v, (rand_u64() % 0x100000000) as u32);
        write_be_u64(&mut v, rand_u64());
        proof {
            assert(v@.len() == 43);
            assert(v@[18] == 66);
            assert(spec_parse_non_crossing_trade(v@) is Ok);
        }
        v
    }
}

/// A cross trade record (`'Q'`): the shares matched in a NASDAQ cross.
#[derive(Debug, Clone, Copy, PartialEq)]
pub struct CrossingTrade {
    pub header: MessageHeader,
    pub shares: u64,
    pub stock: Stock,
    pub cross_price: Price4,
    pub match_number: u64,
    pub cross_type: CrossType,
}

/// The record read from a slice: exactly 39 bytes, then each field
/// at its fixed offset; the first invalid categorical byte decides the
/// error.
pub open spec fn spec_parse_crossing_trade(s: Seq<u8>) -> Result<CrossingTrade, ParseError> {
    if s.len() != 39 {
        Err(ParseError::IncompleteMessage { expected: 39 })
    } else {
        match spec_cross_type(s[38]) {
            Ok(cross_type) => Ok(CrossingTrade {
            header: spec_parse_header(s.subrange(0, 10)),
            shares: be_u64(s.subrange(10, 18)),
            stock: seq_to_arr8(s.subrange(18, 26)),
            cross_price: Price4 { value: be_u32(s.subrange(26, 30)) },
            match_number: be_u64(s.subrange(30, 38)),
            cross_type: cross_type,
        }),
            Err(e) => Err(e),
        }
    }
}

/// The 39 bytes of the record.
pub open spec fn spec_encode_crossing_trade(m: CrossingTrade) -> Seq<u8> {
    spec_encode_header(m.header) + u64_be(m.shares) + m.stock@ + u32_be(m.cross_price.value) + u64_be(m.match_number) + seq![spec_cross_type_byte(m.cross_type)]
}

impl CrossingTrade {
    /// A record the decoder can produce.
    pub open spec fn wf(&self) -> bool {
        self.header.wf()
    }

    /// The record's wire bytes.
    pub fn encode(&self) -> (r: Vec<u8>)
        requires
            self.header.timestamp < 0x1000000000000,
        ensures
            r@ == spec_encode_crossing_trade(*self),
    {
        let mut v: Vec<u8> = Vec::new();
        self.header.write(&mut v);
        write_be_u64(&mut v, self.shares);
        write_arr8(&mut v, &self.stock);
        write_be_u32(&mut v, self.cross_price.value);
        write_be_u64(&mut v, self.match_number);
        let b_cross_type = self.cross_type.code();
        v.push(b_cross_type);
        proof {
            assert(v@ =~= spec_encode_crossing_trade(*self));
        }
        v
    }
}

impl Parse for CrossingTrade {
    /// Decodes the record; the slice must be exactly 39 bytes and
    /// every categorical byte must lie in its alphabet.
    fn parse(input: &[u8]) -> (r: Result<Self, ParseError>)
        ensures
            r == spec_parse_crossing_trade(input@),
    {
        if input.len() != 39 {
            return Err(ParseError::IncompleteMessage { expected: 39 });
        }
        let header = MessageHeader::parse(&input[0..10]);
        let shares = read_be_u64(input, 10);
        let stock = read_arr8(input, 18);
        let cross_price = Price4::new(read_be_u32(input, 26));
        let match_number = read_be_u64(input, 30);
        let cross_type = match CrossType::try_from(input[38]) {
            Ok(x) => x,
            Err(e) => {
                return Err(e);
            },
        };
        Ok(CrossingTrade { header, shares, stock, cross_price, match_number, cross_type })
    }
}

/// Decoding the encoded bytes of a well-formed record gives it back.
pub proof fn lemma_crossing_trade_round_trip(m: CrossingTrade)
    requires
        m.wf(),
    ensures
        spec_parse_crossing_trade(spec_encode_crossing_trade(m)) == Ok::<CrossingTrade, ParseError>(m),
{
    lemma_header_round_trip(m.header);
    let s = spec_encode_crossing_trade(m);
    assert(s.subrange(0, 10) =~= spec_encode_header(m.header));
    assert(s.subrange(10, 18) =~= u64_be(m.shares));
    lemma_be_u64_round_trip(m.shares);
    assert(s.subrange(18, 26) =~= m.stock@);
    lemma_seq_to_arr8(m.stock);
    assert(s.subrange(26, 30) =~= u32_be(m.cross_price.value));
    lemma_be_u32_round_trip(m.cross_price.value);
    assert(s.subrange(30, 38) =~= u64_be(m.match_number));
    lemma_be_u64_round_trip(m.match_number);
}

impl BinaryMessageLength for CrossingTrade {
    const LENGTH: usize = 39;
}

impl MessageHeaderType for CrossingTrade {
    const MESSAGE_TYPE: u8 = 81;
}

impl GenerateExampleMessage for CrossingTrade {
    /// A wire-format example with random field values and valid
    /// categorical bytes; it always decodes.
    fn generate_binary_example() -> (r: Vec<u8>)
        ensures
            spec_parse_crossing_trade(r@) is Ok,
    {
        let mut v = MessageHeader::generate_binary_example();
        write_be_u64(&mut v, rand_u64());
        write_arr8(&mut v, &[84, 69, 83, 84, 32, 32, 32, 32]);
        write_be_u32(&mut v, (rand_u64() % 0x100000000) as u32);
        write_be_u64(&mut v, rand_u64());
        let c_cross_type = CrossType::generate_example_code();
        v.push(c_cross_type);
        proof {
            assert(v@.len() == 39);
            assert(v@[38] == c_cross_type);
            assert(spec_parse_crossing_trade(v@) is Ok);
        }
        v
    }
}

/// A broken-trade record (`'B'`): a match number whose trade was voided.
#[derive(Debug, Clone, Copy, PartialEq)]
pub struct BrokenTrade {
    pub header: MessageHeader,
    pub match_number: u64,
}

/// The record read from a slice: exactly 18 bytes, then each field
/// at its fixed offset; the first invalid categorical byte decides the
/// error.
pub open spec fn spec_parse_broken_trade(s: Seq<u8>) -> Result<BrokenTrade, ParseError> {
    if s.len() != 18 {
        Err(ParseError::IncompleteMessage { expected: 18 })
    } else {
        Ok(BrokenTrade {
            header: spec_parse_header(s.subrange(0, 10)),
            match_number: be_u64(s.subrange(10, 18)),
        })
    }
}

/// The 18 bytes of the record.
pub open spec fn spec_encode_broken_trade(m: BrokenTrade) -> Seq<u8> {
    spec_encode_header(m.header) + u64_be(m.match_number)
}

impl BrokenTrade {
    /// A record the decoder can produce.
    pub open spec fn wf(&self) -> bool {
        self.header.wf()
    }

    /// The record's wire bytes.
    pub fn encode(&self) -> (r: Vec<u8>)
        requires
            self.header.timestamp < 0x1000000000000,
        ensures
            r@ == spec_encode_broken_trade(*self),
    {
        let mut v: Vec<u8> = Vec::new();
        self.header.write(&mut v);
        write_be_u64(&mut v, self.match_number);
        proof {
            assert(v@ =~= spec_encode_broken_trade(*self));
        }
        v
    }
}

impl Parse for BrokenTrade {
    /// Decodes the record; the slice must be exactly 18 bytes and
    /// every categorical byte must lie in its alphabet.
    fn parse(input: &[u8]) -> (r: Result<Self, ParseError>)
        ensures
            r == spec_parse_broken_trade(input@),
    {
        if input.len() != 18 {
            return Err(ParseError::IncompleteMessage { expected: 18 });
        }
        let header = MessageHeader::parse(&input[0..10]);
        let match_number = read_be_u64(input, 10);
        Ok(BrokenTrade { header, match_number })
    }
}

/// Decoding the encoded bytes of a well-formed record gives it back.
pub proof fn lemma_broken_trade_round_trip(m: BrokenTrade)
    requires
        m.wf(),
    ensures
        spec_parse_broken_trade(spec_encode_broken_trade(m)) == Ok::<BrokenTrade, ParseError>(m),
{
    lemma_header_round_trip(m.header);
    let s = spec_encode_broken_trade(m);
    assert(s.subrange(0, 10) =~= spec_encode_header(m.header));
    assert(s.subrange(10, 18) =~= u64_be(m.match_number));
    lemma_be_u64_round_trip(m.match_number);
}

impl BinaryMessageLength for BrokenTrade {
    const LENGTH: usize = 18;
}

impl MessageHeaderType for BrokenTrade {
    const MESSAGE_TYPE: u8 = 66;
}

impl GenerateExampleMessage for BrokenTrade {
    /// A wire-format example with random field values and valid
    /// categorical bytes; it always decodes.
    fn generate_binary_example() -> (r: Vec<u8>)
        ensures
            spec_parse_broken_trade(r@) is Ok,
    {
        let mut v = MessageHeader::generate_binary_example();
        write_be_u64(&mut v, rand_u64());
        proof {
            assert(v@.len() == 18);
            assert(spec_parse_broken_trade(v@) is Ok);
        }
        v
    }
}

} // verus!
