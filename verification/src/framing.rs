//! The framing layer: turns a byte stream into records.
//!
//! Each frame opens with a 3-byte preamble: a 2-byte big-endian length
//! that counts the type byte and the payload, then the 1-byte type tag.
//! A preamble is plausible when the length is between 1 and 50 and the
//! tag is a known record tag; anything else makes the framer discard one
//! byte and look again (resynchronisation). A plausible frame is always
//! consumed whole; its payload is handed to the record's decoder, and a
//! decode error skips just that frame.

use vstd::prelude::*;

use crate::addordermessages::{spec_parse_add_order, AddOrder};
use crate::bytes::be_u16;
use crate::enums::MessageTypes;
use crate::modifyordermessages::{
    spec_parse_order_cancel, spec_parse_order_delete, spec_parse_order_executed,
    spec_parse_order_executed_with_price, spec_parse_order_replace, OrderCancel, OrderDelete,
    OrderExecuted, OrderExecutedWithPrice, OrderReplace,
};
use crate::noiimessages::{
    spec_parse_net_order_imbalance_indicator, spec_parse_retail_price_improvement_indicator,
    NetOrderImbalanceIndicator, RetailPriceImprovementIndicator,
};
use crate::stockmessages::{
    spec_parse_ipo_quoting_period_update, spec_parse_market_participant_position,
    spec_parse_mwcb_decline_level, spec_parse_mwcb_status,
    spec_parse_reg_sho_short_sale_price_test_restriction, spec_parse_stock_directory,
    spec_parse_stock_trading_action, IPOQuotingPeriodUpdate, MWCBDeclineLevel, MWCBStatus,
    MarketParticipantPosition, RegSHOShortSalePriceTestRestriction, StockDirectory,
    StockTradingAction,
};
use crate::systemmessages::{spec_parse_system_event, SystemEventMessage};
use crate::trademessages::{
    spec_parse_broken_trade, spec_parse_crossing_trade, spec_parse_non_crossing_trade, BrokenTrade,
    CrossingTrade, NonCrossingTrade,
};
use crate::types::{Parse, ParseError};

verus! {

/// The longest plausible frame length; anything above it triggers
/// resynchronisation.
pub const MAX_EXPECTED_LEN: u16 = 50;

/// Whether a byte is one of the known record type tags.
pub open spec fn spec_known_tag(tag: u8) -> bool {
    tag == 83 || tag == 82 || tag == 72 || tag == 89 || tag == 76 || tag == 86 || tag == 87 || tag
        == 75 || tag == 65 || tag == 70 || tag == 69 || tag == 67 || tag == 88 || tag == 68 || tag
        == 85 || tag == 80 || tag == 81 || tag == 66 || tag == 73 || tag == 78
}

/// The record a tag's payload decodes to.
#[verifier::opaque]
pub open spec fn spec_parse_payload(tag: u8, s: Seq<u8>) -> Result<MessageTypes, ParseError>
    recommends
        spec_known_tag(tag),
{
    if tag == 83 {
        match spec_parse_system_event(s) {
            Ok(m) => Ok(MessageTypes::SystemEvent(m)),
            Err(e) => Err(e),
        }
    } else if tag == 82 {
        match spec_parse_stock_directory(s) {
            Ok(m) => Ok(MessageTypes::StockDirectory(m)),
            Err(e) => Err(e),
        }
    } else if tag == 72 {
        match spec_parse_stock_trading_action(s) {
            Ok(m) => Ok(MessageTypes::StockTradingAction(m)),
            Err(e) => Err(e),
        }
    } else if tag == 89 {
        match spec_parse_reg_sho_short_sale_price_test_restriction(s) {
            Ok(m) => Ok(MessageTypes::RegSHO(m)),
            Err(e) => Err(e),
        }
    } else if tag == 76 {
        match spec_parse_market_participant_position(s) {
            Ok(m) => Ok(MessageTypes::MarketParticipantPosition(m)),
            Err(e) => Err(e),
        }
    } else if tag == 86 {
        match spec_parse_mwcb_decline_level(s) {
            Ok(m) => Ok(MessageTypes::MWCBDeclineLevel(m)),
            Err(e) => Err(e),
        }
    } else if tag == 87 {
        match spec_parse_mwcb_status(s) {
            Ok(m) => Ok(MessageTypes::MWCBStatus(m)),
            Err(e) => Err(e),
        }
    } else if tag == 75 {
        match spec_parse_ipo_quoting_period_update(s) {
            Ok(m) => Ok(MessageTypes::IPOQuotingPeriodUpdate(m)),
            Err(e) => Err(e),
        }
    } else if tag == 65 || tag == 70 {
        match spec_parse_add_order(s) {
            Ok(m) => Ok(MessageTypes::AddOrder(m)),
            Err(e) => Err(e),
        }
    } else if tag == 69 {
        match spec_parse_order_executed(s) {
            Ok(m) => Ok(MessageTypes::OrderExecuted(m)),
            Err(e) => Err(e),
        }
    } else if tag == 67 {
        match spec_parse_order_executed_with_price(s) {
            Ok(m) => Ok(MessageTypes::OrderExecutedWithPrice(m)),
            Err(e) => Err(e),
        }
    } else if tag == 88 {
        match spec_parse_order_cancel(s) {
            Ok(m) => Ok(MessageTypes::OrderCancel(m)),
            Err(e) => Err(e),
        }
    } else if tag == 68 {
        match spec_parse_order_delete(s) {
            Ok(m) => Ok(MessageTypes::OrderDelete(m)),
            Err(e) => Err(e),
        }
    } else if tag == 85 {
        match spec_parse_order_replace(s) {
            Ok(m) => Ok(MessageTypes::OrderReplace(m)),
            Err(e) => Err(e),
        }
    } else if tag == 80 {
        match spec_parse_non_crossing_trade(s) {
            Ok(m) => Ok(MessageTypes::NonCrossingTrade(m)),
            Err(e) => Err(e),
        }
    } else if tag == 81 {
        match spec_parse_crossing_trade(s) {
            Ok(m) => Ok(MessageTypes::CrossingTrade(m)),
            Err(e) => Err(e),
        }
    } else if tag == 66 {
        match spec_parse_broken_trade(s) {
            Ok(m) => Ok(MessageTypes::BrokenTrade(m)),
            Err(e) => Err(e),
        }
    } else if tag == 73 {
        match spec_parse_net_order_imbalance_indicator(s) {
            Ok(m) => Ok(MessageTypes::NOII(m)),
            Err(e) => Err(e),
        }
    } else if tag == 78 {
        match spec_parse_retail_price_improvement_indicator(s) {
            Ok(m) => Ok(MessageTypes::RetailPriceImprovement(m)),
            Err(e) => Err(e),
        }
    } else {
        Err(ParseError::IncompleteMessage { expected: 0 })
    }
}

/// Decodes one framed payload by its type tag.
pub fn parse_message(tag: u8, payload: &[u8]) -> (r: Result<MessageTypes, ParseError>)
    requires
        spec_known_tag(tag),
    ensures
        r == spec_parse_payload(tag, payload@),
{
    proof {
        reveal(spec_parse_payload);
    }
    match tag {
        83 => match SystemEventMessage::parse(payload) {
            Ok(m) => Ok(MessageTypes::SystemEvent(m)),
            Err(e) => Err(e),
        },
        82 => match StockDirectory::parse(payload) {
            Ok(m) => Ok(MessageTypes::StockDirectory(m)),
            Err(e) => Err(e),
        },
        72 => match StockTradingAction::parse(payload) {
            Ok(m) => Ok(MessageTypes::StockTradingAction(m)),
            Err(e) => Err(e),
        },
        89 => match RegSHOShortSalePriceTestRestriction::parse(payload) {
            Ok(m) => Ok(MessageTypes::RegSHO(m)),
            Err(e) => Err(e),
        },
        76 => match MarketParticipantPosition::parse(payload) {
            Ok(m) => Ok(MessageTypes::MarketParticipantPosition(m)),
            Err(e) => Err(e),
        },
        86 => match MWCBDeclineLevel::parse(payload) {
            Ok(m) => Ok(MessageTypes::MWCBDeclineLevel(m)),
            Err(e) => Err(e),
        },
        87 => match MWCBStatus::parse(payload) {
            Ok(m) => Ok(MessageTypes::MWCBStatus(m)),
            Err(e) => Err(e),
        },
        75 => match IPOQuotingPeriodUpdate::parse(payload) {
            Ok(m) => Ok(MessageTypes::IPOQuotingPeriodUpdate(m)),
            Err(e) => Err(e),
        },
        65 | 70 => match AddOrder::parse(payload) {
            Ok(m) => Ok(MessageTypes::AddOrder(m)),
            Err(e) => Err(e),
        },
        69 => match OrderExecuted::parse(payload) {
            Ok(m) => Ok(MessageTypes::OrderExecuted(m)),
            Err(e) => Err(e),
        },
        67 => match OrderExecutedWithPrice::parse(payload) {
            Ok(m) => Ok(MessageTypes::OrderExecutedWithPrice(m)),
            Err(e) => Err(e),
        },
        88 => match OrderCancel::parse(payload) {
            Ok(m) => Ok(MessageTypes::OrderCancel(m)),
            Err(e) => Err(e),
        },
        68 => match OrderDelete::parse(payload) {
            Ok(m) => Ok(MessageTypes::OrderDelete(m)),
            Err(e) => Err(e),
        },
        85 => match OrderReplace::parse(payload) {
            Ok(m) => Ok(MessageTypes::OrderReplace(m)),
            Err(e) => Err(e),
        },
        80 => match NonCrossingTrade::parse(payload) {
            Ok(m) => Ok(MessageTypes::NonCrossingTrade(m)),
            Err(e) => Err(e),
        },
        81 => match CrossingTrade::parse(payload) {
            Ok(m) => Ok(MessageTypes::CrossingTrade(m)),
            Err(e) => Err(e),
        },
        66 => match BrokenTrade::parse(payload) {
            Ok(m) => Ok(MessageTypes::BrokenTrade(m)),
            Err(e) => Err(e),
        },
        73 => match NetOrderImbalanceIndicator::parse(payload) {
            Ok(m) => Ok(MessageTypes::NOII(m)),
            Err(e) => Err(e),
        },
        _ => match RetailPriceImprovementIndicator::parse(payload) {
            Ok(m) => Ok(MessageTypes::RetailPriceImprovement(m)),
            Err(e) => Err(e),
        },
    }
}

/// Whether a plausible preamble stands at `pos`: 3 bytes are there, the
/// framed length lies between 1 and 50, and the tag is known.
pub open spec fn spec_preamble_ok(s: Seq<u8>, pos: int) -> bool {
    &&& pos + 3 <= s.len()
    &&& 1 <= be_u16(s.subrange(pos, pos + 2))
    &&& be_u16(s.subrange(pos, pos + 2)) <= 50
    &&& spec_known_tag(s[pos + 2])
}

/// Bytes a plausible frame occupies: the 3-byte preamble and the
/// payload, whose length the preamble gives.
pub open spec fn spec_frame_len(s: Seq<u8>, pos: int) -> int {
    3 + be_u16(s.subrange(pos, pos + 2))
}

/// Every record the framer decodes from `pos` to the end of the buffer:
/// implausible preambles lose one byte, frames that fail to decode are
/// skipped, and an incomplete frame at the tail ends the walk.
pub open spec fn spec_decode_stream(s: Seq<u8>, pos: int) -> Seq<MessageTypes>
    decreases s.len() - pos,
    when 0 <= pos
{
    if pos + 3 > s.len() {
        Seq::empty()
    } else if !spec_preamble_ok(s, pos) {
        spec_decode_stream(s, pos + 1)
    } else if pos + spec_frame_len(s, pos) > s.len() {
        Seq::empty()
    } else {
        let rest = spec_decode_stream(s, pos + spec_frame_len(s, pos));
        match spec_parse_payload(
            s[pos + 2],
            s.subrange(pos + 3, pos + spec_frame_len(s, pos)),
        ) {
            Ok(m) => seq![m] + rest,
            Err(_) => rest,
        }
    }
}

/// One framing step at `pos`.
pub enum FrameOutcome {
    /// Fewer than 3 bytes remain, or the frame runs past the buffer.
    NeedMore,
    /// The preamble is implausible; one byte was discarded.
    Skip,
    /// A whole plausible frame was consumed and handed to its decoder.
    Message(Result<MessageTypes, ParseError>),
}

/// Takes one framing step: returns the outcome and the next position.
pub fn next_frame(buf: &[u8], pos: usize) -> (r: (FrameOutcome, usize))
    requires
        pos <= buf@.len(),
    ensures
        pos + 3 > buf@.len() ==> r.0 == FrameOutcome::NeedMore && r.1 == pos,
        pos + 3 <= buf@.len() && !spec_preamble_ok(buf@, pos as int) ==> r.0 == FrameOutcome::Skip
            && r.1 == pos + 1,
        spec_preamble_ok(buf@, pos as int) && pos + spec_frame_len(buf@, pos as int) > buf@.len()
            ==> r.0 == FrameOutcome::NeedMore && r.1 == pos,
        spec_preamble_ok(buf@, pos as int) && pos + spec_frame_len(buf@, pos as int) <= buf@.len()
            ==> r.0 == FrameOutcome::Message(
            spec_parse_payload(
                buf@[pos + 2],
                buf@.subrange(pos + 3, pos + spec_frame_len(buf@, pos as int)),
            ),
        ) && r.1 == pos + spec_frame_len(buf@, pos as int),
{
    if buf.len() < 3 || pos > buf.len() - 3 {
        return (FrameOutcome::NeedMore, pos);
    }
    let framed_len = crate::bytes::read_be_u16(buf, pos);
    let tag = buf[pos + 2];
    let known = tag == 83 || tag == 82 || tag == 72 || tag == 89 || tag == 76 || tag == 86 || tag
        == 87 || tag == 75 || tag == 65 || tag == 70 || tag == 69 || tag == 67 || tag == 88 || tag
        == 68 || tag == 85 || tag == 80 || tag == 81 || tag == 66 || tag == 73 || tag == 78;
    if framed_len < 1 || framed_len > MAX_EXPECTED_LEN || !known {
        return (FrameOutcome::Skip, pos + 1);
    }
    let frame_len = 3 + framed_len as usize;
    if buf.len() - pos < frame_len {
        return (FrameOutcome::NeedMore, pos);
    }
    let payload = &buf[pos + 3..pos + frame_len];
    let msg = parse_message(tag, payload);
    (FrameOutcome::Message(msg), pos + frame_len)
}

/// Decodes a whole buffer: every record of `spec_decode_stream`, in
/// order.
#[verifier::rlimit(100)]
#[verifier::spinoff_prover]
pub fn decode_stream(buf: &[u8]) -> (r: Vec<MessageTypes>)
    ensures
        r@ == spec_decode_stream(buf@, 0),
{
    let mut out: Vec<MessageTypes> = Vec::new();
    let mut pos: usize = 0;
    loop
        invariant
            pos <= buf@.len(),
            spec_decode_stream(buf@, 0) == out@ + spec_decode_stream(buf@, pos as int),
        decreases buf@.len() - pos,
    {
        let (outcome, next) = next_frame(buf, pos);
        match outcome {
            FrameOutcome::NeedMore => {
                proof {
                    assert(spec_decode_stream(buf@, pos as int) =~= Seq::<MessageTypes>::empty());
                    assert(out@ + Seq::<MessageTypes>::empty() =~= out@);
                }
                return out;
            },
            FrameOutcome::Skip => {
                proof {
                    assert(pos + 3 <= buf@.len() && !spec_preamble_ok(buf@, pos as int));
                    assert(next == pos + 1);
                    assert(spec_decode_stream(buf@, pos as int) == spec_decode_stream(
                        buf@,
                        pos + 1,
                    ));
                }
                pos = next;
            },
            FrameOutcome::Message(res) => {
                proof {
                    assert(next > pos);
                }
                proof {
                    assert(spec_preamble_ok(buf@, pos as int));
                    assert(pos + spec_frame_len(buf@, pos as int) <= buf@.len());
                    assert(spec_frame_len(buf@, pos as int) >= 3);
                    assert(next == pos + spec_frame_len(buf@, pos as int));
                    assert(res == spec_parse_payload(
                        buf@[pos + 2],
                        buf@.subrange(pos + 3, pos + spec_frame_len(buf@, pos as int)),
                    ));
                }
                match res {
                    Ok(m) => {
                        proof {
                            assert(spec_decode_stream(buf@, pos as int) == seq![m]
                                + spec_decode_stream(buf@, next as int));
                            assert(out@.push(m) + spec_decode_stream(buf@, next as int) =~= out@ + (
                            seq![m] + spec_decode_stream(buf@, next as int)));
                        }
                        out.push(m);
                    },
                    Err(_) => {
                        proof {
                            assert(spec_decode_stream(buf@, pos as int) == spec_decode_stream(
                                buf@,
                                next as int,
                            ));
                        }
                    },
                }
                pos = next;
            },
        }
    }
}

/// The framer's output depends only on the bytes at and after `pos`: a
/// stream that agrees from `pos` onward decodes to the same records.
pub proof fn lemma_decode_stream_suffix(s1: Seq<u8>, s2: Seq<u8>, pos: int)
    requires
        0 <= pos,
        s1.len() == s2.len(),
        forall|j: int| pos <= j < s1.len() ==> s1[j] == s2[j],
    ensures
        spec_decode_stream(s1, pos) == spec_decode_stream(s2, pos),
    decreases s1.len() - pos,
{
    if pos + 3 > s1.len() {
    } else {
        assert(s1.subrange(pos, pos + 2) =~= s2.subrange(pos, pos + 2));
        assert(s1[pos + 2] == s2[pos + 2]);
        if !spec_preamble_ok(s1, pos) {
            assert(!spec_preamble_ok(s2, pos));
            lemma_decode_stream_suffix(s1, s2, pos + 1);
        } else {
            assert(spec_preamble_ok(s2, pos));
            assert(spec_frame_len(s1, pos) == spec_frame_len(s2, pos));
            if pos + spec_frame_len(s1, pos) > s1.len() {
            } else {
                assert(s1.subrange(pos + 3, pos + spec_frame_len(s1, pos)) =~= s2.subrange(
                    pos + 3,
                    pos + spec_frame_len(s2, pos),
                ));
                lemma_decode_stream_suffix(s1, s2, pos + spec_frame_len(s1, pos));
            }
        }
    }
}

/// Resynchronisation after corruption: a single corrupted byte inside a
/// frame's payload leaves the preamble plausible and the frame boundary
/// where it was, so every frame after the corrupted one decodes exactly
/// as before.
pub proof fn lemma_recovery_after_payload_corruption(s: Seq<u8>, pos: int, i: int, b: u8)
    requires
        0 <= pos,
        spec_preamble_ok(s, pos),
        pos + spec_frame_len(s, pos) <= s.len(),
        pos + 3 <= i < pos + spec_frame_len(s, pos),
    ensures
        spec_preamble_ok(s.update(i, b), pos),
        spec_frame_len(s.update(i, b), pos) == spec_frame_len(s, pos),
        spec_decode_stream(s.update(i, b), pos + spec_frame_len(s, pos)) == spec_decode_stream(
            s,
            pos + spec_frame_len(s, pos),
        ),
{
    let s2 = s.update(i, b);
    assert(s2.subrange(pos, pos + 2) =~= s.subrange(pos, pos + 2));
    assert(s2[pos + 2] == s[pos + 2]);
    lemma_decode_stream_suffix(s2, s, pos + spec_frame_len(s, pos));
}

} // verus!
