//! Order lifecycle records that modify a resting order: execute, cancel,
//! delete and replace.

use vstd::prelude::*;

use crate::bytes::{
    be_u16, be_u32, be_u64, lemma_be_u16_round_trip, lemma_be_u32_round_trip,
    lemma_be_u64_round_trip, lemma_seq_to_arr4, lemma_seq_to_arr8, read_arr8, read_be_u16,
    read_be_u32, read_be_u64, seq_to_arr4, seq_to_arr8, u16_be, u32_be, u64_be, write_arr4,
    write_arr8, write_be_u16, write_be_u32, write_be_u48, write_be_u64,
};
use crate::messageheader::{
    lemma_header_round_trip, spec_encode_header, spec_parse_header, MessageHeader,
};
use crate::random::rand_u64;
use crate::types::{
    BinaryMessageLength, EnumTestHelpers, GenerateExampleMessage, MessageHeaderType, Parse,
    ParseError, Price4, Stock,
};
use crate::helpers::{bool_code, byte_to_bool, spec_bool_code, spec_byte_to_bool};

verus! {

/// An order-executed record (`'E'`): shares executed against a resting order.
#[derive(Debug, Clone, Copy, PartialEq)]
pub struct OrderExecuted {
    pub header: MessageHeader,
    pub order_reference_number: u64,
    pub executed_shares: u32,
    pub match_number: u64,
}

/// The record read from a slice: exactly 30 bytes, then each field
/// at its fixed offset; the first invalid categorical byte decides the
/// error.
pub open spec fn spec_parse_order_executed(s: Seq<u8>) -> Result<OrderExecuted, ParseError> {
    if s.len() != 30 {
        Err(ParseError::IncompleteMessage { expected: 30 })
    } else {
        Ok(OrderExecuted {
            header: spec_parse_header(s.subrange(0, 10)),
            order_reference_number: be_u64(s.subrange(10, 18)),
            executed_shares: be_u32(s.subrange(18, 22)),
            match_number: be_u64(s.subrange(22, 30)),
        })
    }
}

/// The 30 bytes of the record.
pub open spec fn spec_encode_order_executed(m: OrderExecuted) -> Seq<u8> {
    spec_encode_header(m.header) + u64_be(m.order_reference_number) + u32_be(m.executed_shares) + u64_be(m.match_number)
}

impl OrderExecuted {
    /// A record the decoder can produce.
    pub open spec fn wf(&self) -> bool {
        self.header.wf()
    }

    /// The record's wire bytes.
    pub fn encode(&self) -> (r: Vec<u8>)
        requires
            self.header.timestamp < 0x1000000000000,
        ensures
            r@ == spec_encode_order_executed(*self),
    {
        let mut v: Vec<u8> = Vec::new();
        self.header.write(&mut v);
        write_be_u64(&mut v, self.order_reference_number);
        write_be_u32(&mut v, self.executed_shares);
        write_be_u64(&mut v, self.match_number);
        proof {
            assert(v@ =~= spec_encode_order_executed(*self));
        }
        v
    }
}

impl Parse for OrderExecuted {
    /// Decodes the record; the slice must be exactly 30 bytes and
    /// every categorical byte must lie in its alphabet.
    fn parse(input: &[u8]) -> (r: Result<Self, ParseError>)
        ensures
            r == spec_parse_order_executed(input@),
    {
        if input.len() != 30 {
            return Err(ParseError::IncompleteMessage { expected: 30 });
        }
        let header = MessageHeader::parse(&input[0..10]);
        let order_reference_number = read_be_u64(input, 10);
        let executed_shares = read_be_u32(input, 18);
        let match_number = read_be_u64(input, 22);
        Ok(OrderExecuted { header, order_reference_number, executed_shares, match_number })
    }
}

/// Decoding the encoded bytes of a well-formed record gives it back.
pub proof fn lemma_order_executed_round_trip(m: OrderExecuted)
    requires
        m.wf(),
    ensures
        spec_parse_order_executed(spec_encode_order_executed(m)) == Ok::<OrderExecuted, ParseError>(m),
{
    lemma_header_round_trip(m.header);
    let s = spec_encode_order_executed(m);
    assert(s.subrange(0, 10) =~= spec_encode_header(m.header));
    assert(s.subrange(10, 18) =~= u64_be(m.order_reference_number));
    lemma_be_u64_round_trip(m.order_reference_number);
    assert(s.subrange(18, 22) =~= u32_be(m.executed_shares));
    lemma_be_u32_round_trip(m.executed_shares);
    assert(s.subrange(22, 30) =~= u64_be(m.match_number));
    lemma_be_u64_round_trip(m.match_number);
}

impl BinaryMessageLength for OrderExecuted {
    const LENGTH: usize = 30;
}

impl MessageHeaderType for OrderExecuted {
    const MESSAGE_TYPE: u8 = 69;
}

impl GenerateExampleMessage for OrderExecuted {
    /// A wire-format example with random field values and valid
    /// categorical bytes; it always decodes.
    fn generate_binary_example() -> (r: Vec<u8>)
        ensures
            spec_parse_order_executed(r@) is Ok,
    {
        let mut v = MessageHeader::generate_binary_example();
        write_be_u64(&mut v, rand_u64());
        write_be_u32(&mut v, (rand_u64() % 0x100000000) as u32);
        write_be_u64(&mut v, rand_u64());
        proof {
            assert(v@.len() == 30);
            assert(spec_parse_order_executed(v@) is Ok);
        }
        v
    }
}

/// An order-executed-with-price record (`'C'`): an execution at a price other than the resting one.
#[derive(Debug, Clone, Copy, PartialEq)]
pub struct OrderExecutedWithPrice {
    pub order_executed_message: OrderExecuted,
    pub printable: bool,
    pub exec_price: Price4,
}

/// The record read from a slice: exactly 35 bytes, then each field
/// at its fixed offset; the first invalid categorical byte decides the
/// error.
pub open spec fn spec_parse_order_executed_with_price(s: Seq<u8>) -> Result<OrderExecutedWithPrice, ParseError> {
    if s.len() != 35 {
        Err(ParseError::IncompleteMessage { expected: 35 })
    } else {
        match spec_parse_order_executed(s.subrange(0, 30)) {
            Ok(order_executed_message) => match spec_byte_to_bool(s[30]) {
            Ok(printable) => Ok(OrderExecutedWithPrice {
            order_executed_message: order_executed_message,
            printable: printable,
            exec_price: Price4 { value: be_u32(s.subrange(31, 35)) },
        }),
            Err(e) => Err(e),
        },
            Err(e) => Err(e),
        }
    }
}

/// The 35 bytes of the record.
pub open spec fn spec_encode_order_executed_with_price(m: OrderExecutedWithPrice) -> Seq<u8> {
    spec_encode_order_executed(m.order_executed_message) + seq![spec_bool_code(m.printable)] + u32_be(m.exec_price.value)
}

impl OrderExecutedWithPrice {
    /// A record the decoder can produce.
    pub open spec fn wf(&self) -> bool {
        self.order_executed_message.wf()
    }

    /// The record's wire bytes.
    pub fn encode(&self) -> (r: Vec<u8>)
        requires
            self.order_executed_message.header.timestamp < 0x1000000000000,
        ensures
            r@ == spec_encode_order_executed_with_price(*self),
    {
        let mut v = self.order_executed_message.encode();
        let b_printable = bool_code(self.printable);
        v.push(b_printable);
        write_be_u32(&mut v, self.exec_price.value);
        proof {
            assert(v@ =~= spec_encode_order_executed_with_price(*self));
        }
        v
    }
}

impl Parse for OrderExecutedWithPrice {
    /// Decodes the record; the slice must be exactly 35 bytes and
    /// every categorical byte must lie in its alphabet.
    fn parse(input: &[u8]) -> (r: Result<Self, ParseError>)
        ensures
            r == spec_parse_order_executed_with_price(input@),
    {
        if input.len() != 35 {
            return Err(ParseError::IncompleteMessage { expected: 35 });
        }
        let order_executed_message = match OrderExecuted::parse(&input[0..30]) {
            Ok(x) => x,
            Err(e) => {
                return Err(e);
            },
        };
        let printable = match byte_to_bool(input[30]) {
            Ok(x) => x,
            Err(e) => {
                return Err(e);
            },
        };
        let exec_price = Price4::new(read_be_u32(input, 31));
        Ok(OrderExecutedWithPrice { order_executed_message, printable, exec_price })
    }
}

/// Decoding the encoded bytes of a well-formed record gives it back.
pub proof fn lemma_order_executed_with_price_round_trip(m: OrderExecutedWithPrice)
    requires
        m.wf(),
    ensures
        spec_parse_order_executed_with_price(spec_encode_order_executed_with_price(m)) == Ok::<OrderExecutedWithPrice, ParseError>(m),
{
    lemma_order_executed_round_trip(m.order_executed_message);
    let s = spec_encode_order_executed_with_price(m);
    assert(s.subrange(0, 30) =~= spec_encode_order_executed(m.order_executed_message));
    assert(s.subrange(31, 35) =~= u32_be(m.exec_price.value));
    lemma_be_u32_round_trip(m.exec_price.value);
}

impl BinaryMessageLength for OrderExecutedWithPrice {
    const LENGTH: usize = 35;
}

impl MessageHeaderType for OrderExecutedWithPrice {
    const MESSAGE_TYPE: u8 = 67;
}

impl GenerateExampleMessage for OrderExecutedWithPrice {
    /// A wire-format example with random field values and valid
    /// categorical bytes; it always decodes.
    fn generate_binary_example() -> (r: Vec<u8>)
        ensures
            spec_parse_order_executed_with_price(r@) is Ok,
    {
        let mut v = OrderExecuted::generate_binary_example();
        v.push(89);
        write_be_u32(&mut v, (rand_u64() % 0x100000000) as u32);
        proof {
            assert(v@.len() == 35);
            assert(v@[30] == 89);
            assert(spec_parse_order_executed_with_price(v@) is Ok);
        }
        v
    }
}

/// An order-cancel record (`'X'`): shares voluntarily removed from a resting order.
#[derive(Debug, Clone, Copy, PartialEq)]
pub struct OrderCancel {
    pub header: MessageHeader,
    pub order_reference_number: u64,
    pub canceled_shares: u32,
}

/// The record read from a slice: exactly 22 bytes, then each field
/// at its fixed offset; the first invalid categorical byte decides the
/// error.
pub open spec fn spec_parse_order_cancel(s: Seq<u8>) -> Result<OrderCancel, ParseError> {
    if s.len() != 22 {
        Err(ParseError::IncompleteMessage { expected: 22 })
    } else {
        Ok(OrderCancel {
            header: spec_parse_header(s.subrange(0, 10)),
            order_reference_number: be_u64(s.subrange(10, 18)),
            canceled_shares: be_u32(s.subrange(18, 22)),
        })
    }
}

/// The 22 bytes of the record.
pub open spec fn spec_encode_order_cancel(m: OrderCancel) -> Seq<u8> {
    spec_encode_header(m.header) + u64_be(m.order_reference_number) + u32_be(m.canceled_shares)
}

impl OrderCancel {
    /// A record the decoder can produce.
    pub open spec fn wf(&self) -> bool {
        self.header.wf()
    }

    /// The record's wire bytes.
    pub fn encode(&self) -> (r: Vec<u8>)
        requires
            self.header.timestamp < 0x1000000000000,
        ensures
            r@ == spec_encode_order_cancel(*self),
    {
        let mut v: Vec<u8> = Vec::new();
        self.header.write(&mut v);
        write_be_u64(&mut v, self.order_reference_number);
        write_be_u32(&mut v, self.canceled_shares);
        proof {
            assert(v@ =~= spec_encode_order_cancel(*self));
        }
        v
    }
}

impl Parse for OrderCancel {
    /// Decodes the record; the slice must be exactly 22 bytes and
    /// every categorical byte must lie in its alphabet.
    fn parse(input: &[u8]) -> (r: Result<Self, ParseError>)
        ensures
            r == spec_parse_order_cancel(input@),
    {
        if input.len() != 22 {
            return Err(ParseError::IncompleteMessage { expected: 22 });
        }
        let header = MessageHeader::parse(&input[0..10]);
        let order_reference_number = read_be_u64(input, 10);
        let canceled_shares = read_be_u32(input, 18);
        Ok(OrderCancel { header, order_reference_number, canceled_shares })
    }
}

/// Decoding the encoded bytes of a well-formed record gives it back.
pub proof fn lemma_order_cancel_round_trip(m: OrderCancel)
    requires
        m.wf(),
    ensures
        spec_parse_order_cancel(spec_encode_order_cancel(m)) == Ok::<OrderCancel, ParseError>(m),
{
    lemma_header_round_trip(m.header);
    let s = spec_encode_order_cancel(m);
    assert(s.subrange(0, 10) =~= spec_encode_header(m.header));
    assert(s.subrange(10, 18) =~= u64_be(m.order_reference_number));
    lemma_be_u64_round_trip(m.order_reference_number);
    assert(s.subrange(18, 22) =~= u32_be(m.canceled_shares));
    lemma_be_u32_round_trip(m.canceled_shares);
}

impl BinaryMessageLength for OrderCancel {
    const LENGTH: usize = 22;
}

impl MessageHeaderType for OrderCancel {
    const MESSAGE_TYPE: u8 = 88;
}

impl GenerateExampleMessage for OrderCancel {
    /// A wire-format example with random field values and valid
    /// categorical bytes; it always decodes.
    fn generate_binary_example() -> (r: Vec<u8>)
        ensures
            spec_parse_order_cancel(r@) is Ok,
    {
        let mut v = MessageHeader::generate_binary_example();
        write_be_u64(&mut v, rand_u64());
        write_be_u32(&mut v, (rand_u64() % 0x100000000) as u32);
        proof {
            assert(v@.len() == 22);
            assert(spec_parse_order_cancel(v@) is Ok);
        }
        v
    }
}

/// An order-delete record (`'D'`): a resting order removed outright.
#[derive(Debug, Clone, Copy, PartialEq)]
pub struct OrderDelete {
    pub header: MessageHeader,
    pub order_reference_number: u64,
}

/// The record read from a slice: exactly 18 bytes, then each field
/// at its fixed offset; the first invalid categorical byte decides the
/// error.
pub open spec fn spec_parse_order_delete(s: Seq<u8>) -> Result<OrderDelete, ParseError> {
    if s.len() != 18 {
        Err(ParseError::IncompleteMessage { expected: 18 })
    } else {
        Ok(OrderDelete {
            header: spec_parse_header(s.subrange(0, 10)),
            order_reference_number: be_u64(s.subrange(10, 18)),
        })
    }
}

/// The 18 bytes of the record.
pub open spec fn spec_encode_order_delete(m: OrderDelete) -> Seq<u8> {
    spec_encode_header(m.header) + u64_be(m.order_reference_number)
}

impl OrderDelete {
    /// A record the decoder can produce.
    pub open spec fn wf(&self) -> bool {
        self.header.wf()
    }

    /// The record's wire bytes.
    pub fn encode(&self) -> (r: Vec<u8>)
        requires
            self.header.timestamp < 0x1000000000000,
        ensures
            r@ == spec_encode_order_delete(*self),
    {
        let mut v: Vec<u8> = Vec::new();
        self.header.write(&mut v);
        write_be_u64(&mut v, self.order_reference_number);
        proof {
            assert(v@ =~= spec_encode_order_delete(*self));
        }
        v
    }
}

impl Parse for OrderDelete {
    /// Decodes the record; the slice must be exactly 18 bytes and
    /// every categorical byte must lie in its alphabet.
    fn parse(input: &[u8]) -> (r: Result<Self, ParseError>)
        ensures
            r == spec_parse_order_delete(input@),
    {
        if input.len() != 18 {
            return Err(ParseError::IncompleteMessage { expected: 18 });
        }
        let header = MessageHeader::parse(&input[0..10]);
        let order_reference_number = read_be_u64(input, 10);
        Ok(OrderDelete { header, order_reference_number })
    }
}

/// Decoding the encoded bytes of a well-formed record gives it back.
pub proof fn lemma_order_delete_round_trip(m: OrderDelete)
    requires
        m.wf(),
    ensures
        spec_parse_order_delete(spec_encode_order_delete(m)) == Ok::<OrderDelete, ParseError>(m),
{
    lemma_header_round_trip(m.header);
    let s = spec_encode_order_delete(m);
    assert(s.subrange(0, 10) =~= spec_encode_header(m.header));
    assert(s.subrange(10, 18) =~= u64_be(m.order_reference_number));
    lemma_be_u64_round_trip(m.order_reference_number);
}

impl BinaryMessageLength for OrderDelete {
    const LENGTH: usize = 18;
}

impl MessageHeaderType for OrderDelete {
    const MESSAGE_TYPE: u8 = 68;
}

impl GenerateExampleMessage for OrderDelete {
    /// A wire-format example with random field values and valid
    /// categorical bytes; it always decodes.
    fn generate_binary_example() -> (r: Vec<u8>)
        ensures
            spec_parse_order_delete(r@) is Ok,
    {
        let mut v = MessageHeader::generate_binary_example();
        write_be_u64(&mut v, rand_u64());
        proof {
            assert(v@.len() == 18);
            assert(spec_parse_order_delete(v@) is Ok);
        }
        v
    }
}

/// An order-replace record (`'U'`): a resting order superseded by a fresh reference, share count and price.
#[derive(Debug, Clone, Copy, PartialEq)]
pub struct OrderReplace {
    pub header: MessageHeader,
    pub original_order_reference_number: u64,
    pub new_order_reference_number: u64,
    pub shares: u32,
    pub price: Price4,
}

/// The record read from a slice: exactly 34 bytes, then each field
/// at its fixed offset; the first invalid categorical byte decides the
/// error.
pub open spec fn spec_parse_order_replace(s: Seq<u8>) -> Result<OrderReplace, ParseError> {
    if s.len() != 34 {
        Err(ParseError::IncompleteMessage { expected: 34 })
    } else {
        Ok(OrderReplace {
            header: spec_parse_header(s.subrange(0, 10)),
            original_order_reference_number: be_u64(s.subrange(10, 18)),
            new_order_reference_number: be_u64(s.subrange(18, 26)),
            shares: be_u32(s.subrange(26, 30)),
            price: Price4 { value: be_u32(s.subrange(30, 34)) },
        })
    }
}

/// The 34 bytes of the record.
pub open spec fn spec_encode_order_replace(m: OrderReplace) -> Seq<u8> {
    spec_encode_header(m.header) + u64_be(m.original_order_reference_number) + u64_be(m.new_order_reference_number) + u32_be(m.shares) + u32_be(m.price.value)
}

impl OrderReplace {
    /// A record the decoder can produce.
    pub open spec fn wf(&self) -> bool {
        self.header.wf()
    }

    /// The record's wire bytes.
    pub fn encode(&self) -> (r: Vec<u8>)
        requires
            self.header.timestamp < 0x1000000000000,
        ensures
            r@ == spec_encode_order_replace(*self),
    {
        let mut v: Vec<u8> = Vec::new();
        self.header.write(&mut v);
        write_be_u64(&mut v, self.original_order_reference_number);
        write_be_u64(&mut v, self.new_order_reference_number);
        write_be_u32(&mut v, self.shares);
        write_be_u32(&mut v, self.price.value);
        proof {
            assert(v@ =~= spec_encode_order_replace(*self));
        }
        v
    }
}

impl Parse for OrderReplace {
    /// Decodes the record; the slice must be exactly 34 bytes and
    /// every categorical byte must lie in its alphabet.
    fn parse(input: &[u8]) -> (r: Result<Self, ParseError>)
        ensures
            r == spec_parse_order_replace(input@),
    {
        if input.len() != 34 {
            return Err(ParseError::IncompleteMessage { expected: 34 });
        }
        let header = MessageHeader::parse(&input[0..10]);
        let original_order_reference_number = read_be_u64(input, 10);
        let new_order_reference_number = read_be_u64(input, 18);
        let shares = read_be_u32(input, 26);
        let price = Price4::new(read_be_u32(input, 30));
        Ok(OrderReplace { header, original_order_reference_number, new_order_reference_number, shares, price })
    }
}

/// Decoding the encoded bytes of a well-formed record gives it back.
pub proof fn lemma_order_replace_round_trip(m: OrderReplace)
    requires
        m.wf(),
    ensures
        spec_parse_order_replace(spec_encode_order_replace(m)) == Ok::<OrderReplace, ParseError>(m),
{
    lemma_header_round_trip(m.header);
    let s = spec_encode_order_replace(m);
    assert(s.subrange(0, 10) =~= spec_encode_header(m.header));
    assert(s.subrange(10, 18) =~= u64_be(m.original_order_reference_number));
    lemma_be_u64_round_trip(m.original_order_reference_number);
    assert(s.subrange(18, 26) =~= u64_be(m.new_order_reference_number));
    lemma_be_u64_round_trip(m.new_order_reference_number);
    assert(s.subrange(26, 30) =~= u32_be(m.shares));
    lemma_be_u32_round_trip(m.shares);
    assert(s.subrange(30, 34) =~= u32_be(m.price.value));
    lemma_be_u32_round_trip(m.price.value);
}

impl BinaryMessageLength for OrderReplace {
    const LENGTH: usize = 34;
}

impl MessageHeaderType for OrderReplace {
    const MESSAGE_TYPE: u8 = 85;
}

impl GenerateExampleMessage for OrderReplace {
    /// A wire-format example with random field values and valid
    /// categorical bytes; it always decodes.
    fn generate_binary_example() -> (r: Vec<u8>)
        ensures
            spec_parse_order_replace(r@) is Ok,
    {
        let mut v = MessageHeader::generate_binary_example();
        write_be_u64(&mut v, rand_u64());
        write_be_u64(&mut v, rand_u64());
        write_be_u32(&mut v, (rand_u64() % 0x100000000) as u32);
        write_be_u32(&mut v, (rand_u64() % 0x100000000) as u32);
        proof {
            assert(v@.len() == 34);
            assert(spec_parse_order_replace(v@) is Ok);
        }
        v
    }
}

} // verus!
