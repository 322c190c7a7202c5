//! The system-event record (`'S'`): one code marking a phase of the
//! trading day.

use vstd::prelude::*;

use crate::enums::{spec_system_event_code, spec_system_event_code_byte, SystemEventCode};
use crate::messageheader::{
    lemma_header_round_trip, spec_encode_header, spec_parse_header, MessageHeader,
};
use crate::types::{
    BinaryMessageLength, EnumTestHelpers, GenerateExampleMessage, MessageHeaderType, Parse,
    ParseError,
};

verus! {

#[derive(Debug, Clone, Copy, PartialEq)]
pub struct SystemEventMessage {
    pub header: MessageHeader,
    pub event_code: SystemEventCode,
}

/// The system-event record read from a slice: exactly 11 bytes, the
/// header, then an event code from its alphabet.
pub open spec fn spec_parse_system_event(s: Seq<u8>) -> Result<SystemEventMessage, ParseError> {
    if s.len() != 11 {
        Err(ParseError::IncompleteMessage { expected: 11 })
    } else {
        match spec_system_event_code(s[10]) {
            Ok(c) => Ok(
                SystemEventMessage { header: spec_parse_header(s.subrange(0, 10)), event_code: c },
            ),
            Err(e) => Err(e),
        }
    }
}

/// The 11 bytes of a system-event record.
pub open spec fn spec_encode_system_event(m: SystemEventMessage) -> Seq<u8> {
    spec_encode_header(m.header) + seq![spec_system_event_code_byte(m.event_code)]
}

impl SystemEventMessage {
    /// A record the decoder can produce.
    pub open spec fn wf(&self) -> bool {
        self.header.wf()
    }

    /// Appends the record's wire bytes.
    pub fn encode(&self) -> (r: Vec<u8>)
        requires
            self.header.timestamp < 0x1000000000000,
        ensures
            r@ == spec_encode_system_event(*self),
    {
        let mut v: Vec<u8> = Vec::new();
        self.header.write(&mut v);
        let b = self.event_code.code();
        v.push(b);
        proof {
            assert(v@ =~= spec_encode_system_event(*self));
        }
        v
    }
}

impl Parse for SystemEventMessage {
    /// Decodes a system-event record; the slice must be exactly 11 bytes
    /// and the event byte must lie in its alphabet.
    fn parse(input: &[u8]) -> (r: Result<Self, ParseError>)
        ensures
            r == spec_parse_system_event(input@),
    {
        if input.len() != 11 {
            return Err(ParseError::IncompleteMessage { expected: 11 });
        }
        let header = MessageHeader::parse(&input[0..10]);
        match SystemEventCode::try_from(input[10]) {
            Ok(c) => Ok(SystemEventMessage { header, event_code: c }),
            Err(e) => Err(e),
        }
    }
}

/// Decoding the encoded bytes of a well-formed record gives it back.
pub proof fn lemma_system_event_round_trip(m: SystemEventMessage)
    requires
        m.wf(),
    ensures
        spec_parse_system_event(spec_encode_system_event(m)) == Ok::<
            SystemEventMessage,
            ParseError,
        >(m),
{
    lemma_header_round_trip(m.header);
    let s = spec_encode_system_event(m);
    assert(s.subrange(0, 10) =~= spec_encode_header(m.header));
    assert(s[10] == spec_system_event_code_byte(m.event_code));
}

impl BinaryMessageLength for SystemEventMessage {
    const LENGTH: usize = 11;
}

impl MessageHeaderType for SystemEventMessage {
    const MESSAGE_TYPE: u8 = 83;
}

impl GenerateExampleMessage for SystemEventMessage {
    /// A wire-format example with a random header and a random valid
    /// event code; it always decodes.
    fn generate_binary_example() -> (r: Vec<u8>)
        ensures
            spec_parse_system_event(r@) is Ok,
    {
        let mut v = MessageHeader::generate_binary_example();
        v.push(SystemEventCode::generate_example_code());
        proof {
            assert(v@[10] == v@.last());
        }
        v
    }
}

} // verus!
