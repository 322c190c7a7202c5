//! Auction-imbalance records and the retail price-improvement indicator.

use vstd::prelude::*;

use crate::bytes::{
    be_u16, be_u32, be_u64, lemma_be_u16_round_trip, lemma_be_u32_round_trip,
    lemma_be_u64_round_trip, lemma_seq_to_arr8, read_arr8, read_be_u16, read_be_u32,
    read_be_u64, seq_to_arr8, u16_be, u32_be, u64_be, write_arr4, write_arr8, write_be_u16,
    write_be_u32, write_be_u48, write_be_u64,
};
use crate::messageheader::{
    lemma_header_round_trip, spec_encode_header, spec_parse_header, MessageHeader,
};
use crate::random::rand_u64;
use crate::types::{
    BinaryMessageLength, EnumTestHelpers, GenerateExampleMessage, MessageHeaderType, Parse,
    ParseError, Price4, Stock,
};
use crate::enums::{
    spec_cross_type, spec_cross_type_byte, spec_imbalance_direction,
    spec_imbalance_direction_byte, CrossType, ImbalanceDirection,
};

verus! {

/// Whether a byte lies in the price-variation alphabet:
/// `'L'`, `'1'`..`'9'`, `'A'`, `'B'`, `'C'` or `' '`.
pub open spec fn spec_valid_pvi_byte(b: u8) -> bool {
    b == 76 || (49 <= b && b <= 57) || b == 65 || b == 66 || b == 67 || b == 32
}

/// A net-order-imbalance record (`'I'`): the state of an upcoming auction cross.
#[derive(Debug, Clone, Copy, PartialEq)]
pub struct NetOrderImbalanceIndicator {
    pub header: MessageHeader,
    pub paired_shares: u64,
    pub imbalance_shares: u64,
    pub imbalance_direction: ImbalanceDirection,
    pub stock: Stock,
    pub far_price: Price4,
    pub near_price: Price4,
    pub current_reference_price: Price4,
    pub cross_type: CrossType,
    pub price_variation_indicator: char,
}

/// The record read from a slice: exactly 49 bytes, then each field
/// at its fixed offset; the first invalid categorical byte decides the
/// error.
pub open spec fn spec_parse_net_order_imbalance_indicator(s: Seq<u8>) -> Result<NetOrderImbalanceIndicator, ParseError> {
    if s.len() != 49 {
        Err(ParseError::IncompleteMessage { expected: 49 })
    } else {
        match spec_imbalance_direction(s[26]) {
            Ok(imbalance_direction) => match spec_cross_type(s[47]) {
            Ok(cross_type) => if !spec_valid_pvi_byte(s[48]) {
            Err(ParseError::InvalidPriceVariationIndicator { invalid_byte: s[48] })
        } else {
            Ok(NetOrderImbalanceIndicator {
            header: spec_parse_header(s.subrange(0, 10)),
            paired_shares: be_u64(s.subrange(10, 18)),
            imbalance_shares: be_u64(s.subrange(18, 26)),
            imbalance_direction: imbalance_direction,
            stock: seq_to_arr8(s.subrange(27, 35)),
            far_price: Price4 { value: be_u32(s.subrange(35, 39)) },
            near_price: Price4 { value: be_u32(s.subrange(39, 43)) },
            current_reference_price: Price4 { value: be_u32(s.subrange(43, 47)) },
            cross_type: cross_type,
            price_variation_indicator: s[48] as char,
        })
        },
            Err(e) => Err(e),
        },
            Err(e) => Err(e),
        }
    }
}

/// The 49 bytes of the record.
pub open spec fn spec_encode_net_order_imbalance_indicator(m: NetOrderImbalanceIndicator) -> Seq<u8> {
    spec_encode_header(m.header) + u64_be(m.paired_shares) + u64_be(m.imbalance_shares) + seq![spec_imbalance_direction_byte(m.imbalance_direction)] + m.stock@ + u32_be(m.far_price.value) + u32_be(m.near_price.value) + u32_be(m.current_reference_price.value) + seq![spec_cross_type_byte(m.cross_type)] + seq![(m.price_variation_indicator as u32) as u8]
}

impl NetOrderImbalanceIndicator {
    /// A record the decoder can produce.
    pub open spec fn wf(&self) -> bool {
        self.header.wf()
            && (self.price_variation_indicator as u32) < 256 && spec_valid_pvi_byte((self.price_variation_indicator as u32) as u8)
    }

    /// The record's wire bytes.
    pub fn encode(&self) -> (r: Vec<u8>)
        requires
            self.header.timestamp < 0x1000000000000,
            (self.price_variation_indicator as u32) < 256,
        ensures
            r@ == spec_encode_net_order_imbalance_indicator(*self),
    {
        let mut v: Vec<u8> = Vec::new();
        self.header.write(&mut v);
        write_be_u64(&mut v, self.paired_shares);
        write_be_u64(&mut v, self.imbalance_shares);
        let b_imbalance_direction = self.imbalance_direction.code();
        v.push(b_imbalance_direction);
        write_arr8(&mut v, &self.stock);
        write_be_u32(&mut v, self.far_price.value);
        write_be_u32(&mut v, self.near_price.value);
        write_be_u32(&mut v, self.current_reference_price.value);
        let b_cross_type = self.cross_type.code();
        v.push(b_cross_type);
        v.push((self.price_variation_indicator as u32) as u8);
        proof {
            assert(v@ =~= spec_encode_net_order_imbalance_indicator(*self));
        }
        v
    }
}

impl Parse for NetOrderImbalanceIndicator {
    /// Decodes the record; the slice must be exactly 49 bytes and
    /// every categorical byte must lie in its alphabet.
    fn parse(input: &[u8]) -> (r: Result<Self, ParseError>)
        ensures
            r == spec_parse_net_order_imbalance_indicator(input@),
    {
        if input.len() != 49 {
            return Err(ParseError::IncompleteMessage { expected: 49 });
        }
        let header = MessageHeader::parse(&input[0..10]);
        let paired_shares = read_be_u64(input, 10);
        let imbalance_shares = read_be_u64(input, 18);
        let imbalance_direction = match ImbalanceDirection::try_from(input[26]) {
            Ok(x) => x,
            Err(e) => {
                return Err(e);
            },
        };
        let stock = read_arr8(input, 27);
        let far_price = Price4::new(read_be_u32(input, 35));
        let near_price = Price4::new(read_be_u32(input, 39));
        let current_reference_price = Price4::new(read_be_u32(input, 43));
        let cross_type = match CrossType::try_from(input[47]) {
            Ok(x) => x,
            Err(e) => {
                return Err(e);
            },
        };
        let b = input[48];
        if !(b == 76 || (49 <= b && b <= 57) || b == 65 || b == 66 || b == 67 || b == 32) {
            return Err(ParseError::InvalidPriceVariationIndicator { invalid_byte: b });
        }
        let price_variation_indicator = b as char;
        Ok(NetOrderImbalanceIndicator { header, paired_shares, imbalance_shares, imbalance_direction, stock, far_price, near_price, current_reference_price, cross_type, price_variation_indicator })
    }
}

/// Decoding the encoded bytes of a well-formed record gives it back.
pub proof fn lemma_net_order_imbalance_indicator_round_trip(m: NetOrderImbalanceIndicator)
    requires
        m.wf(),
    ensures
        spec_parse_net_order_imbalance_indicator(spec_encode_net_order_imbalance_indicator(m)) == Ok::<NetOrderImbalanceIndicator, ParseError>(m),
{
    lemma_header_round_trip(m.header);
    let s = spec_encode_net_order_imbalance_indicator(m);
    assert(s.subrange(0, 10) =~= spec_encode_header(m.header));
    assert(s.subrange(10, 18) =~= u64_be(m.paired_shares));
    lemma_be_u64_round_trip(m.paired_shares);
    assert(s.subrange(18, 26) =~= u64_be(m.imbalance_shares));
    lemma_be_u64_round_trip(m.imbalance_shares);
    assert(s.subrange(27, 35) =~= m.stock@);
    lemma_seq_to_arr8(m.stock);
    assert(s.subrange(35, 39) =~= u32_be(m.far_price.value));
    lemma_be_u32_round_trip(m.far_price.value);
    assert(s.subrange(39, 43) =~= u32_be(m.near_price.value));
    lemma_be_u32_round_trip(m.near_price.value);
    assert(s.subrange(43, 47) =~= u32_be(m.current_reference_price.value));
    lemma_be_u32_round_trip(m.current_reference_price.value);
}

impl BinaryMessageLength for NetOrderImbalanceIndicator {
    const LENGTH: usize = 49;
}

impl MessageHeaderType for NetOrderImbalanceIndicator {
    const MESSAGE_TYPE: u8 = 73;
}

impl GenerateExampleMessage for NetOrderImbalanceIndicator {
    /// A wire-format example with random field values and valid
    /// categorical bytes; it always decodes.
    fn generate_binary_example() -> (r: Vec<u8>)
        ensures
            spec_parse_net_order_imbalance_indicator(r@) is Ok,
    {
        let mut v = MessageHeader::generate_binary_example();
        write_be_u64(&mut v, rand_u64());
        write_be_u64(&mut v, rand_u64());
        let c_imbalance_direction = ImbalanceDirection::generate_example_code();
        v.push(c_imbalance_direction);
        write_arr8(&mut v, &[84, 69, 83, 84, 32, 32, 32, 32]);
        write_be_u32(&mut v, (rand_u64() % 0x100000000) as u32);
        write_be_u32(&mut v, (rand_u64() % 0x100000000) as u32);
        write_be_u32(&mut v, (rand_u64() % 0x100000000) as u32);
        let c_cross_type = CrossType::generate_example_code();
        v.push(c_cross_type);
        v.push(67);
        proof {
            assert(v@.len() == 49);
            assert(v@[26] == c_imbalance_direction);
            assert(v@[47] == c_cross_type);
            assert(v@[48] == 67);
            assert(spec_parse_net_order_imbalance_indicator(v@) is Ok);
        }
        v
    }
}

/// A retail-price-improvement record (`'N'`): retail interest present at one security.
#[derive(Debug, Clone, Copy, PartialEq)]
pub struct RetailPriceImprovementIndicator {
    pub header: MessageHeader,
    pub stock: Stock,
    pub interest_flag: char,
}

/// The record read from a slice: exactly 19 bytes, then each field
/// at its fixed offset; the first invalid categorical byte decides the
/// error.
pub open spec fn spec_parse_retail_price_improvement_indicator(s: Seq<u8>) -> Result<RetailPriceImprovementIndicator, ParseError> {
    if s.len() != 19 {
        Err(ParseError::IncompleteMessage { expected: 19 })
    } else {
        Ok(RetailPriceImprovementIndicator {
            header: spec_parse_header(s.subrange(0, 10)),
            stock: seq_to_arr8(s.subrange(10, 18)),
            interest_flag: s[18] as char,
        })
    }
}

/// The 19 bytes of the record.
pub open spec fn spec_encode_retail_price_improvement_indicator(m: RetailPriceImprovementIndicator) -> Seq<u8> {
    spec_encode_header(m.header) + m.stock@ + seq![(m.interest_flag as u32) as u8]
}

impl RetailPriceImprovementIndicator {
    /// A record the decoder can produce.
    pub open spec fn wf(&self) -> bool {
        self.header.wf()
            && (self.interest_flag as u32) < 256
    }

    /// The record's wire bytes.
    pub fn encode(&self) -> (r: Vec<u8>)
        requires
            self.header.timestamp < 0x1000000000000,
            (self.interest_flag as u32) < 256,
        ensures
            r@ == spec_encode_retail_price_improvement_indicator(*self),
    {
        let mut v: Vec<u8> = Vec::new();
        self.header.write(&mut v);
        write_arr8(&mut v, &self.stock);
        v.push((self.interest_flag as u32) as u8);
        proof {
            assert(v@ =~= spec_encode_retail_price_improvement_indicator(*self));
        }
        v
    }
}

impl Parse for RetailPriceImprovementIndicator {
    /// Decodes the record; the slice must be exactly 19 bytes and
    /// every categorical byte must lie in its alphabet.
    fn parse(input: &[u8]) -> (r: Result<Self, ParseError>)
        ensures
            r == spec_parse_retail_price_improvement_indicator(input@),
    {
        if input.len() != 19 {
            return Err(ParseError::IncompleteMessage { expected: 19 });
        }
        let header = MessageHeader::parse(&input[0..10]);
        let stock = read_arr8(input, 10);
        let interest_flag = input[18] as char;
        Ok(RetailPriceImprovementIndicator { header, stock, interest_flag })
    }
}

/// Decoding the encoded bytes of a well-formed record gives it back.
pub proof fn lemma_retail_price_improvement_indicator_round_trip(m: RetailPriceImprovementIndicator)
    requires
        m.wf(),
    ensures
        spec_parse_retail_price_improvement_indicator(spec_encode_retail_price_improvement_indicator(m)) == Ok::<RetailPriceImprovementIndicator, ParseError>(m),
{
    lemma_header_round_trip(m.header);
    let s = spec_encode_retail_price_improvement_indicator(m);
    assert(s.subrange(0, 10) =~= spec_encode_header(m.header));
    assert(s.subrange(10, 18) =~= m.stock@);
    lemma_seq_to_arr8(m.stock);
}

impl BinaryMessageLength for RetailPriceImprovementIndicator {
    const LENGTH: usize = 19;
}

impl MessageHeaderType for RetailPriceImprovementIndicator {
    const MESSAGE_TYPE: u8 = 78;
}

impl GenerateExampleMessage for RetailPriceImprovementIndicator {
    /// A wire-format example with random field values and valid
    /// categorical bytes; it always decodes.
    fn generate_binary_example() -> (r: Vec<u8>)
        ensures
            spec_parse_retail_price_improvement_indicator(r@) is Ok,
    {
        let mut v = MessageHeader::generate_binary_example();
        write_be_u64(&mut v, rand_u64());
        v.push(66);
        proof {
            assert(v@.len() == 19);
            assert(spec_parse_retail_price_improvement_indicator(v@) is Ok);
        }
        v
    }
}

} // verus!
