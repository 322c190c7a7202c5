//! The add-order record, in both wire forms: `'A'` (35 bytes) and `'F'`
//! (39 bytes, with the market participant attached).

use vstd::prelude::*;

use crate::bytes::{
    be_u32, be_u64, lemma_be_u32_round_trip, lemma_be_u64_round_trip, lemma_seq_to_arr4,
    lemma_seq_to_arr8, read_arr4, read_arr8, read_be_u32, read_be_u64, seq_to_arr4, seq_to_arr8,
    u32_be, u64_be, write_arr4, write_arr8, write_be_u32, write_be_u64,
};
use crate::enums::{spec_buy_sell_indicator, spec_buy_sell_indicator_byte, BuySellIndicator};
use crate::messageheader::{
    lemma_header_round_trip, spec_encode_header, spec_parse_header, MessageHeader,
};
use crate::random::rand_u64;
use crate::types::{
    AltBinaryMessageLength, AltMessageHeaderType, BinaryMessageLength, EnumTestHelpers,
    GenerateExampleMessage, MessageHeaderType, Parse, ParseError, Price4, Stock, MPID,
};

verus! {

/// An add-order record: a fresh visible order joins the book. `mpid` is
/// present exactly when the record came in its longer (`'F'`) form.
#[derive(Debug, Clone, Copy, PartialEq)]
pub struct AddOrder {
    pub header: MessageHeader,
    pub order_reference_number: u64,
    pub buy_sell_indicator: BuySellIndicator,
    pub shares: u32,
    pub stock: Stock,
    pub price: Price4,
    pub mpid: Option<MPID>,
}

/// The record read from a slice: 35 bytes, or 39 with an MPID; any other
/// length is incomplete, and the side byte must be `'B'` or `'S'`.
pub open spec fn spec_parse_add_order(s: Seq<u8>) -> Result<AddOrder, ParseError> {
    if s.len() != 35 && s.len() != 39 {
        Err(ParseError::IncompleteMessage { expected: 35 })
    } else {
        match spec_buy_sell_indicator(s[18]) {
            Ok(buy_sell_indicator) => Ok(
                AddOrder {
                    header: spec_parse_header(s.subrange(0, 10)),
                    order_reference_number: be_u64(s.subrange(10, 18)),
                    buy_sell_indicator,
                    shares: be_u32(s.subrange(19, 23)),
                    stock: seq_to_arr8(s.subrange(23, 31)),
                    price: Price4 { value: be_u32(s.subrange(31, 35)) },
                    mpid: if s.len() == 35 {
                        None
                    } else {
                        Some(seq_to_arr4(s.subrange(35, 39)))
                    },
                },
            ),
            Err(e) => Err(e),
        }
    }
}

/// The 35 or 39 bytes of the record; the MPID bytes follow exactly when
/// the order carries one.
pub open spec fn spec_encode_add_order(m: AddOrder) -> Seq<u8> {
    spec_encode_header(m.header) + u64_be(m.order_reference_number) + seq![
        spec_buy_sell_indicator_byte(m.buy_sell_indicator),
    ] + u32_be(m.shares) + m.stock@ + u32_be(m.price.value) + match m.mpid {
        Some(mpid) => mpid@,
        None => seq![],
    }
}

impl AddOrder {
    /// A record the decoder can produce.
    pub open spec fn wf(&self) -> bool {
        self.header.wf()
    }

    /// The record's wire bytes.
    pub fn encode(&self) -> (r: Vec<u8>)
        requires
            self.header.timestamp < 0x1000000000000,
        ensures
            r@ == spec_encode_add_order(*self),
    {
        let mut v: Vec<u8> = Vec::new();
        self.header.write(&mut v);
        write_be_u64(&mut v, self.order_reference_number);
        let b = self.buy_sell_indicator.code();
        v.push(b);
        write_be_u32(&mut v, self.shares);
        write_arr8(&mut v, &self.stock);
        write_be_u32(&mut v, self.price.value);
        match &self.mpid {
            Some(mpid) => write_arr4(&mut v, mpid),
            None => (),
        }
        proof {
            assert(v@ =~= spec_encode_add_order(*self));
        }
        v
    }
}

impl Parse for AddOrder {
    /// Decodes an add-order record of either wire length.
    fn parse(input: &[u8]) -> (r: Result<Self, ParseError>)
        ensures
            r == spec_parse_add_order(input@),
    {
        if input.len() != 35 && input.len() != 39 {
            return Err(ParseError::IncompleteMessage { expected: 35 });
        }
        let header = MessageHeader::parse(&input[0..10]);
        let order_reference_number = read_be_u64(input, 10);
        let buy_sell_indicator = match BuySellIndicator::try_from(input[18]) {
            Ok(x) => x,
            Err(e) => {
                return Err(e);
            },
        };
        let shares = read_be_u32(input, 19);
        let stock = read_arr8(input, 23);
        let price = Price4::new(read_be_u32(input, 31));
        let mpid = if input.len() == 35 {
            None
        } else {
            Some(read_arr4(input, 35))
        };
        Ok(
            AddOrder {
                header,
                order_reference_number,
                buy_sell_indicator,
                shares,
                stock,
                price,
                mpid,
            },
        )
    }
}

/// Decoding the encoded bytes of a well-formed record gives it back, in
/// both wire forms.
pub proof fn lemma_add_order_round_trip(m: AddOrder)
    requires
        m.wf(),
    ensures
        spec_parse_add_order(spec_encode_add_order(m)) == Ok::<AddOrder, ParseError>(m),
{
    lemma_header_round_trip(m.header);
    let s = spec_encode_add_order(m);
    assert(s.len() == if m.mpid is Some {
        39int
    } else {
        35int
    });
    assert(s.subrange(0, 10) =~= spec_encode_header(m.header));
    assert(s.subrange(10, 18) =~= u64_be(m.order_reference_number));
    lemma_be_u64_round_trip(m.order_reference_number);
    assert(s[18] == spec_buy_sell_indicator_byte(m.buy_sell_indicator));
    assert(s.subrange(19, 23) =~= u32_be(m.shares));
    lemma_be_u32_round_trip(m.shares);
    assert(s.subrange(23, 31) =~= m.stock@);
    lemma_seq_to_arr8(m.stock);
    assert(s.subrange(31, 35) =~= u32_be(m.price.value));
    lemma_be_u32_round_trip(m.price.value);
    match m.mpid {
        Some(mpid) => {
            assert(s.subrange(35, 39) =~= mpid@);
            lemma_seq_to_arr4(mpid);
        },
        None => (),
    }
}

impl BinaryMessageLength for AddOrder {
    const LENGTH: usize = 35;
}

impl MessageHeaderType for AddOrder {
    const MESSAGE_TYPE: u8 = 65;
}

impl AltBinaryMessageLength for AddOrder {
    const ALT_LENGTH: usize = 39;
}

impl AltMessageHeaderType for AddOrder {
    const ALT_MESSAGE_TYPE: u8 = 70;
}

impl GenerateExampleMessage for AddOrder {
    /// A wire-format example of the shorter (`'A'`) form with random
    /// fields and a valid side byte; it always decodes.
    fn generate_binary_example() -> (r: Vec<u8>)
        ensures
            spec_parse_add_order(r@) is Ok,
    {
        let mut v = MessageHeader::generate_binary_example();
        write_be_u64(&mut v, rand_u64());
        let c = BuySellIndicator::generate_example_code();
        v.push(c);
        write_be_u32(&mut v, (rand_u64() % 0x100000000) as u32);
        write_arr8(&mut v, &[84, 69, 83, 84, 32, 32, 32, 32]);
        write_be_u32(&mut v, (rand_u64() % 0x100000000) as u32);
        proof {
            assert(v@.len() == 35);
            assert(v@[18] == c);
            assert(spec_parse_add_order(v@) is Ok);
        }
        v
    }
}

} // verus!
