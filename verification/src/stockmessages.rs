//! Security-metadata records: the stock directory, trading actions,
//! Reg SHO state, market-participant positions, market-wide circuit
//! breakers and IPO quoting periods.

use vstd::prelude::*;

use crate::bytes::{
    be_u16, be_u32, be_u64, lemma_be_u16_round_trip, lemma_be_u32_round_trip,
    lemma_be_u64_round_trip, lemma_seq_to_arr8, read_arr8, read_be_u16, read_be_u32,
    read_be_u64, seq_to_arr8, u16_be, u32_be, u64_be, write_arr4, write_arr8, write_be_u16,
    write_be_u32, write_be_u48, write_be_u64,
};
use crate::messageheader::{
    lemma_header_round_trip, spec_encode_header, spec_parse_header, MessageHeader,
};
use crate::random::rand_u64;
use crate::types::{
    BinaryMessageLength, EnumTestHelpers, GenerateExampleMessage, MessageHeaderType, Parse,
    ParseError, Price4, Stock,
};
use crate::enums::{
    lemma_trading_reason_round_trip, spec_financial_status_indicator,
    spec_financial_status_indicator_byte, spec_ipo_release_qualifier,
    spec_ipo_release_qualifier_byte, spec_issue_classification_codes,
    spec_issue_classification_codes_byte, spec_luld_reference_price_tier,
    spec_luld_reference_price_tier_byte, spec_market_category, spec_market_category_byte,
    spec_market_maker_mode, spec_market_maker_mode_byte, spec_market_participant_state,
    spec_market_participant_state_byte, spec_mwcb_level, spec_mwcb_level_byte,
    spec_reg_sho_action, spec_reg_sho_action_byte, spec_short_sale_threshold_indicator,
    spec_short_sale_threshold_indicator_byte, spec_trading_reason, spec_trading_reason_code4,
    spec_trading_state, spec_trading_state_byte, BoolOrUnavailable, FinancialStatusIndicator,
    IPOReleaseQualifier, IssueClassificationCodes, LuldReferencePriceTier, MWCBLevel,
    MarketCategory, MarketMakerMode, MarketParticipantState, RegSHOAction,
    ShortSaleThresholdIndicator, TradingReasonCodes, TradingResumptionReasonCodes, TradingState,
};
use crate::helpers::{
    bool_code, bool_space_code, byte_to_bool, byte_to_bool_space, spec_bool_code,
    spec_bool_space_code, spec_byte_to_bool, spec_byte_to_bool_space,
};

verus! {

/// A stock-directory record (`'R'`): the day's metadata for one security.
#[derive(Debug, Clone, Copy, PartialEq)]
pub struct StockDirectory {
    pub header: MessageHeader,
    pub stock: Stock,
    pub market_category: MarketCategory,
    pub financial_status_indicator: FinancialStatusIndicator,
    pub round_lot_size: u32,
    pub round_lots_only: bool,
    pub issue_classification: IssueClassificationCodes,
    pub issue_sub_type: u16,
    pub authenticity: char,
    pub short_sale_threshold_indicator: ShortSaleThresholdIndicator,
    pub ipo_flag: BoolOrUnavailable,
    pub luld_reference_price_tier: LuldReferencePriceTier,
    pub etp_flag: BoolOrUnavailable,
    pub etp_leverage_factor: u32,
    pub inverse_indicator: bool,
}

/// The record read from a slice: exactly 38 bytes, then each field
/// at its fixed offset; the first invalid categorical byte decides the
/// error.
pub open spec fn spec_parse_stock_directory(s: Seq<u8>) -> Result<StockDirectory, ParseError> {
    if s.len() != 38 {
        Err(ParseError::IncompleteMessage { expected: 38 })
    } else {
        match spec_market_category(s[18]) {
            Ok(market_category) => match spec_financial_status_indicator(s[19]) {
            Ok(financial_status_indicator) => match spec_byte_to_bool(s[24]) {
            Ok(round_lots_only) => match spec_issue_classification_codes(s[25]) {
            Ok(issue_classification) => match spec_short_sale_threshold_indicator(s[29]) {
            Ok(short_sale_threshold_indicator) => match spec_byte_to_bool_space(s[30]) {
            Ok(ipo_flag) => match spec_luld_reference_price_tier(s[31]) {
            Ok(luld_reference_price_tier) => match spec_byte_to_bool_space(s[32]) {
            Ok(etp_flag) => match spec_byte_to_bool(s[37]) {
            Ok(inverse_indicator) => Ok(StockDirectory {
            header: spec_parse_header(s.subrange(0, 10)),
            stock: seq_to_arr8(s.subrange(10, 18)),
            market_category: market_category,
            financial_status_indicator: financial_status_indicator,
            round_lot_size: be_u32(s.subrange(20, 24)),
            round_lots_only: round_lots_only,
            issue_classification: issue_classification,
            issue_sub_type: be_u16(s.subrange(26, 28)),
            authenticity: s[28] as char,
            short_sale_threshold_indicator: short_sale_threshold_indicator,
            ipo_flag: ipo_flag,
            luld_reference_price_tier: luld_reference_price_tier,
            etp_flag: etp_flag,
            etp_leverage_factor: be_u32(s.subrange(33, 37)),
            inverse_indicator: inverse_indicator,
        }),
            Err(e) => Err(e),
        },
            Err(e) => Err(e),
        },
            Err(e) => Err(e),
        },
            Err(e) => Err(e),
        },
            Err(e) => Err(e),
        },
            Err(e) => Err(e),
        },
            Err(e) => Err(e),
        },
            Err(e) => Err(e),
        },
            Err(e) => Err(e),
        }
    }
}

/// The 38 bytes of the record.
pub open spec fn spec_encode_stock_directory(m: StockDirectory) -> Seq<u8> {
    spec_encode_header(m.header) + m.stock@ + seq![spec_market_category_byte(m.market_category)] + seq![spec_financial_status_indicator_byte(m.financial_status_indicator)] + u32_be(m.round_lot_size) + seq![spec_bool_code(m.round_lots_only)] + seq![spec_issue_classification_codes_byte(m.issue_classification)] + u16_be(m.issue_sub_type) + seq![(m.authenticity as u32) as u8] + seq![spec_short_sale_threshold_indicator_byte(m.short_sale_threshold_indicator)] + seq![spec_bool_space_code(m.ipo_flag)] + seq![spec_luld_reference_price_tier_byte(m.luld_reference_price_tier)] + seq![spec_bool_space_code(m.etp_flag)] + u32_be(m.etp_leverage_factor) + seq![spec_bool_code(m.inverse_indicator)]
}

impl StockDirectory {
    /// A record the decoder can produce.
    pub open spec fn wf(&self) -> bool {
        self.header.wf()
            && (self.authenticity as u32) < 256
            && (self.ipo_flag is Bool || self.ipo_flag == BoolOrUnavailable::Str("Not Available"))
            && (self.etp_flag is Bool || self.etp_flag == BoolOrUnavailable::Str("Not Available"))
    }

    /// The record's wire bytes.
    pub fn encode(&self) -> (r: Vec<u8>)
        requires
            self.header.timestamp < 0x1000000000000,
            (self.authenticity as u32) < 256,
        ensures
            r@ == spec_encode_stock_directory(*self),
    {
        let mut v: Vec<u8> = Vec::new();
        self.header.write(&mut v);
        write_arr8(&mut v, &self.stock);
        let b_market_category = self.market_category.code();
        v.push(b_market_category);
        let b_financial_status_indicator = self.financial_status_indicator.code();
        v.push(b_financial_status_indicator);
        write_be_u32(&mut v, self.round_lot_size);
        let b_round_lots_only = bool_code(self.round_lots_only);
        v.push(b_round_lots_only);
        let b_issue_classification = self.issue_classification.code();
        v.push(b_issue_classification);
        write_be_u16(&mut v, self.issue_sub_type);
        v.push((self.authenticity as u32) as u8);
        let b_short_sale_threshold_indicator = self.short_sale_threshold_indicator.code();
        v.push(b_short_sale_threshold_indicator);
        let b_ipo_flag = bool_space_code(&self.ipo_flag);
        v.push(b_ipo_flag);
        let b_luld_reference_price_tier = self.luld_reference_price_tier.code();
        v.push(b_luld_reference_price_tier);
        let b_etp_flag = bool_space_code(&self.etp_flag);
        v.push(b_etp_flag);
        write_be_u32(&mut v, self.etp_leverage_factor);
        let b_inverse_indicator = bool_code(self.inverse_indicator);
        v.push(b_inverse_indicator);
        proof {
            assert(v@ =~= spec_encode_stock_directory(*self));
        }
        v
    }
}

impl Parse for StockDirectory {
    /// Decodes the record; the slice must be exactly 38 bytes and
    /// every categorical byte must lie in its alphabet.
    fn parse(input: &[u8]) -> (r: Result<Self, ParseError>)
        ensures
            r == spec_parse_stock_directory(input@),
    {
        if input.len() != 38 {
            return Err(ParseError::IncompleteMessage { expected: 38 });
        }
        let header = MessageHeader::parse(&input[0..10]);
        let stock = read_arr8(input, 10);
        let market_category = match MarketCategory::try_from(input[18]) {
            Ok(x) => x,
            Err(e) => {
                return Err(e);
            },
        };
        let financial_status_indicator = match FinancialStatusIndicator::try_from(input[19]) {
            Ok(x) => x,
            Err(e) => {
                return Err(e);
            },
        };
        let round_lot_size = read_be_u32(input, 20);
        let round_lots_only = match byte_to_bool(input[24]) {
            Ok(x) => x,
            Err(e) => {
                return Err(e);
            },
        };
        let issue_classification = match IssueClassificationCodes::try_from(input[25]) {
            Ok(x) => x,
            Err(e) => {
                return Err(e);
            },
        };
        let issue_sub_type = read_be_u16(input, 26);
        let authenticity = input[28] as char;
        let short_sale_threshold_indicator = match ShortSaleThresholdIndicator::try_from(input[29]) {
            Ok(x) => x,
            Err(e) => {
                return Err(e);
            },
        };
        let ipo_flag = match byte_to_bool_space(input[30]) {
            Ok(x) => x,
            Err(e) => {
                return Err(e);
            },
        };
        let luld_reference_price_tier = match LuldReferencePriceTier::try_from(input[31]) {
            Ok(x) => x,
            Err(e) => {
                return Err(e);
            },
        };
        let etp_flag = match byte_to_bool_space(input[32]) {
            Ok(x) => x,
            Err(e) => {
                return Err(e);
            },
        };
        let etp_leverage_factor = read_be_u32(input, 33);
        let inverse_indicator = match byte_to_bool(input[37]) {
            Ok(x) => x,
            Err(e) => {
                return Err(e);
            },
        };
        Ok(StockDirectory { header, stock, market_category, financial_status_indicator, round_lot_size, round_lots_only, issue_classification, issue_sub_type, authenticity, short_sale_threshold_indicator, ipo_flag, luld_reference_price_tier, etp_flag, etp_leverage_factor, inverse_indicator })
    }
}

/// Decoding the encoded bytes of a well-formed record gives it back.
#[verifier::rlimit(100)]
#[verifier::spinoff_prover]
pub proof fn lemma_stock_directory_round_trip(m: StockDirectory)
    requires
        m.wf(),
    ensures
        spec_parse_stock_directory(spec_encode_stock_directory(m)) == Ok::<StockDirectory, ParseError>(m),
{
    lemma_header_round_trip(m.header);
    let s = spec_encode_stock_directory(m);
    let p0 = spec_encode_header(m.header);
    let p1 = m.stock@;
    let p2 = seq![spec_market_category_byte(m.market_category)];
    let p3 = seq![spec_financial_status_indicator_byte(m.financial_status_indicator)];
    let p4 = u32_be(m.round_lot_size);
    let p5 = seq![spec_bool_code(m.round_lots_only)];
    let p6 = seq![spec_issue_classification_codes_byte(m.issue_classification)];
    let p7 = u16_be(m.issue_sub_type);
    let p8 = seq![(m.authenticity as u32) as u8];
    let p9 = seq![spec_short_sale_threshold_indicator_byte(m.short_sale_threshold_indicator)];
    let p10 = seq![spec_bool_space_code(m.ipo_flag)];
    let p11 = seq![spec_luld_reference_price_tier_byte(m.luld_reference_price_tier)];
    let p12 = seq![spec_bool_space_code(m.etp_flag)];
    let p13 = u32_be(m.etp_leverage_factor);
    let p14 = seq![spec_bool_code(m.inverse_indicator)];
    let t0 = p0;
    let t1 = t0 + p1;
    let t2 = t1 + p2;
    let t3 = t2 + p3;
    let t4 = t3 + p4;
    let t5 = t4 + p5;
    let t6 = t5 + p6;
    let t7 = t6 + p7;
    let t8 = t7 + p8;
    let t9 = t8 + p9;
    let t10 = t9 + p10;
    let t11 = t10 + p11;
    let t12 = t11 + p12;
    let t13 = t12 + p13;
    let t14 = t13 + p14;
    assert(s == t14);
    assert(t0.len() == 10);
    assert(t1.len() == 18);
    assert(t2.len() == 19);
    assert(t3.len() == 20);
    assert(t4.len() == 24);
    assert(t5.len() == 25);
    assert(t6.len() == 26);
    assert(t7.len() == 28);
    assert(t8.len() == 29);
    assert(t9.len() == 30);
    assert(t10.len() == 31);
    assert(t11.len() == 32);
    assert(t12.len() == 33);
    assert(t13.len() == 37);
    assert(t14.len() == 38);
    assert(s.subrange(0, 37) =~= t13);
    assert(s.subrange(0, 33) =~= t12);
    assert(s.subrange(0, 32) =~= t11);
    assert(s.subrange(0, 31) =~= t10);
    assert(s.subrange(0, 30) =~= t9);
    assert(s.subrange(0, 29) =~= t8);
    assert(s.subrange(0, 28) =~= t7);
    assert(s.subrange(0, 26) =~= t6);
    assert(s.subrange(0, 25) =~= t5);
    assert(s.subrange(0, 24) =~= t4);
    assert(s.subrange(0, 20) =~= t3);
    assert(s.subrange(0, 19) =~= t2);
    assert(s.subrange(0, 18) =~= t1);
    assert(s.subrange(0, 10) =~= t0);
    assert(s.subrange(0, 10) =~= p0);
    assert(s.subrange(10, 18) =~= p1);
    assert(s[18] == p2[0]);
    assert(s[19] == p3[0]);
    assert(s.subrange(20, 24) =~= p4);
    assert(s[24] == p5[0]);
    assert(s[25] == p6[0]);
    assert(s.subrange(26, 28) =~= p7);
    assert(s[28] == p8[0]);
    assert(s[29] == p9[0]);
    assert(s[30] == p10[0]);
    assert(s[31] == p11[0]);
    assert(s[32] == p12[0]);
    assert(s.subrange(33, 37) =~= p13);
    assert(s[37] == p14[0]);
    assert(s.subrange(0, 10) =~= spec_encode_header(m.header));
    lemma_seq_to_arr8(m.stock);
    lemma_be_u32_round_trip(m.round_lot_size);
    lemma_be_u16_round_trip(m.issue_sub_type);
    lemma_be_u32_round_trip(m.etp_leverage_factor);
    assert(spec_parse_header(s.subrange(0, 10)) == m.header);
    assert(seq_to_arr8(s.subrange(10, 18)) == m.stock);
    assert(spec_market_category(s[18]) == Ok::<MarketCategory, ParseError>(m.market_category));
    assert(spec_financial_status_indicator(s[19]) == Ok::<FinancialStatusIndicator, ParseError>(
        m.financial_status_indicator,
    ));
    assert(be_u32(s.subrange(20, 24)) == m.round_lot_size);
    assert(spec_byte_to_bool(s[24]) == Ok::<bool, ParseError>(m.round_lots_only));
    assert(spec_issue_classification_codes(s[25]) == Ok::<IssueClassificationCodes, ParseError>(
        m.issue_classification,
    ));
    assert(be_u16(s.subrange(26, 28)) == m.issue_sub_type);
    assert(s[28] as char == m.authenticity);
    assert(spec_short_sale_threshold_indicator(s[29]) == Ok::<
        ShortSaleThresholdIndicator,
        ParseError,
    >(m.short_sale_threshold_indicator));
    assert(spec_byte_to_bool_space(s[30]) == Ok::<BoolOrUnavailable, ParseError>(m.ipo_flag));
    assert(spec_luld_reference_price_tier(s[31]) == Ok::<LuldReferencePriceTier, ParseError>(
        m.luld_reference_price_tier,
    ));
    assert(spec_byte_to_bool_space(s[32]) == Ok::<BoolOrUnavailable, ParseError>(m.etp_flag));
    assert(be_u32(s.subrange(33, 37)) == m.etp_leverage_factor);
    assert(spec_byte_to_bool(s[37]) == Ok::<bool, ParseError>(m.inverse_indicator));
    assert(spec_parse_stock_directory(s) == Ok::<StockDirectory, ParseError>(m));
}

impl BinaryMessageLength for StockDirectory {
    const LENGTH: usize = 38;
}

impl MessageHeaderType for StockDirectory {
    const MESSAGE_TYPE: u8 = 82;
}

impl GenerateExampleMessage for StockDirectory {
    /// A wire-format example with random field values and valid
    /// categorical bytes; it always decodes.
    fn generate_binary_example() -> (r: Vec<u8>)
        ensures
            spec_parse_stock_directory(r@) is Ok,
    {
        let mut v = MessageHeader::generate_binary_example();
        write_be_u64(&mut v, rand_u64());
        let c_market_category = MarketCategory::generate_example_code();
        v.push(c_market_category);
        let c_financial_status_indicator = FinancialStatusIndicator::generate_example_code();
        v.push(c_financial_status_indicator);
        write_be_u32(&mut v, (rand_u64() % 0x100000000) as u32);
        v.push(89);
        let c_issue_classification = IssueClassificationCodes::generate_example_code();
        v.push(c_issue_classification);
        write_be_u16(&mut v, (rand_u64() % 0x10000) as u16);
        v.push(80);
        let c_short_sale_threshold_indicator = ShortSaleThresholdIndicator::generate_example_code();
        v.push(c_short_sale_threshold_indicator);
        v.push(78);
        let c_luld_reference_price_tier = LuldReferencePriceTier::generate_example_code();
        v.push(c_luld_reference_price_tier);
        v.push(32);
        write_be_u32(&mut v, (rand_u64() % 0x100000000) as u32);
        v.push(78);
        proof {
            assert(v@.len() == 38);
            assert(v@[18] == c_market_category);
            assert(v@[19] == c_financial_status_indicator);
            assert(v@[24] == 89);
            assert(v@[25] == c_issue_classification);
            assert(v@[29] == c_short_sale_threshold_indicator);
            assert(v@[30] == 78);
            assert(v@[31] == c_luld_reference_price_tier);
            assert(v@[32] == 32);
            assert(v@[37] == 78);
            assert(spec_parse_stock_directory(v@) is Ok);
        }
        v
    }
}

/// A stock-trading-action record (`'H'`): the trading state of a security, with a 4-byte reason code.
#[derive(Debug, Clone, Copy, PartialEq)]
pub struct StockTradingAction {
    pub header: MessageHeader,
    pub stock: Stock,
    pub trading_state: TradingState,
    pub reserved: u8,
    pub reason: TradingReasonCodes,
}

/// The record read from a slice: exactly 24 bytes, then each field
/// at its fixed offset; the first invalid categorical byte decides the
/// error.
pub open spec fn spec_parse_stock_trading_action(s: Seq<u8>) -> Result<StockTradingAction, ParseError> {
    if s.len() != 24 {
        Err(ParseError::IncompleteMessage { expected: 24 })
    } else {
        match spec_trading_state(s[18]) {
            Ok(trading_state) => match spec_trading_reason(s.subrange(20, 24)) {
            Ok(reason) => Ok(StockTradingAction {
            header: spec_parse_header(s.subrange(0, 10)),
            stock: seq_to_arr8(s.subrange(10, 18)),
            trading_state: trading_state,
            reserved: s[19],
            reason: reason,
        }),
            Err(e) => Err(e),
        },
            Err(e) => Err(e),
        }
    }
}

/// The 24 bytes of the record.
pub open spec fn spec_encode_stock_trading_action(m: StockTradingAction) -> Seq<u8> {
    spec_encode_header(m.header) + m.stock@ + seq![spec_trading_state_byte(m.trading_state)] + seq![m.reserved] + spec_trading_reason_code4(m.reason)
}

impl StockTradingAction {
    /// A record the decoder can produce.
    pub open spec fn wf(&self) -> bool {
        self.header.wf()
            && self.reason != TradingReasonCodes::Resumption(TradingResumptionReasonCodes::NotAvailable)
    }

    /// The record's wire bytes.
    pub fn encode(&self) -> (r: Vec<u8>)
        requires
            self.header.timestamp < 0x1000000000000,
        ensures
            r@ == spec_encode_stock_trading_action(*self),
    {
        let mut v: Vec<u8> = Vec::new();
        self.header.write(&mut v);
        write_arr8(&mut v, &self.stock);
        let b_trading_state = self.trading_state.code();
        v.push(b_trading_state);
        v.push(self.reserved);
        let c4_reason = self.reason.code4();
        write_arr4(&mut v, &c4_reason);
        proof {
            assert(v@ =~= spec_encode_stock_trading_action(*self));
        }
        v
    }
}

impl Parse for StockTradingAction {
    /// Decodes the record; the slice must be exactly 24 bytes and
    /// every categorical byte must lie in its alphabet.
    fn parse(input: &[u8]) -> (r: Result<Self, ParseError>)
        ensures
            r == spec_parse_stock_trading_action(input@),
    {
        if input.len() != 24 {
            return Err(ParseError::IncompleteMessage { expected: 24 });
        }
        let header = MessageHeader::parse(&input[0..10]);
        let stock = read_arr8(input, 10);
        let trading_state = match TradingState::try_from(input[18]) {
            Ok(x) => x,
            Err(e) => {
                return Err(e);
            },
        };
        let reserved = input[19];
        let reason = match TradingReasonCodes::try_from(&input[20..24]) {
            Ok(x) => x,
            Err(e) => {
                return Err(e);
            },
        };
        Ok(StockTradingAction { header, stock, trading_state, reserved, reason })
    }
}

/// Decoding the encoded bytes of a well-formed record gives it back.
pub proof fn lemma_stock_trading_action_round_trip(m: StockTradingAction)
    requires
        m.wf(),
    ensures
        spec_parse_stock_trading_action(spec_encode_stock_trading_action(m)) == Ok::<StockTradingAction, ParseError>(m),
{
    lemma_header_round_trip(m.header);
    let s = spec_encode_stock_trading_action(m);
    assert(s.subrange(0, 10) =~= spec_encode_header(m.header));
    assert(s.subrange(10, 18) =~= m.stock@);
    lemma_seq_to_arr8(m.stock);
    assert(s.subrange(20, 24) =~= spec_trading_reason_code4(m.reason));
    lemma_trading_reason_round_trip(m.reason);
}

impl BinaryMessageLength for StockTradingAction {
    const LENGTH: usize = 24;
}

impl MessageHeaderType for StockTradingAction {
    const MESSAGE_TYPE: u8 = 72;
}

impl GenerateExampleMessage for StockTradingAction {
    /// A wire-format example with random field values and valid
    /// categorical bytes; it always decodes.
    fn generate_binary_example() -> (r: Vec<u8>)
        ensures
            spec_parse_stock_trading_action(r@) is Ok,
    {
        let mut v = MessageHeader::generate_binary_example();
        write_be_u64(&mut v, rand_u64());
        let c_trading_state = TradingState::generate_example_code();
        v.push(c_trading_state);
        v.push((rand_u64() % 256) as u8);
        write_arr4(&mut v, &[73, 80, 79, 49]);
        proof {
            assert(v@.len() == 24);
            assert(v@[18] == c_trading_state);
            assert(v@.subrange(20, 24) =~= seq![73u8, 80, 79, 49]);
            assert(spec_parse_stock_trading_action(v@) is Ok);
        }
        v
    }
}

/// A Reg SHO record (`'Y'`): the short-sale price-test state of a security.
#[derive(Debug, Clone, Copy, PartialEq)]
pub struct RegSHOShortSalePriceTestRestriction {
    pub header: MessageHeader,
    pub stock: Stock,
    pub reg_sho_action: RegSHOAction,
}

/// The record read from a slice: exactly 19 bytes, then each field
/// at its fixed offset; the first invalid categorical byte decides the
/// error.
pub open spec fn spec_parse_reg_sho_short_sale_price_test_restriction(s: Seq<u8>) -> Result<RegSHOShortSalePriceTestRestriction, ParseError> {
    if s.len() != 19 {
        Err(ParseError::IncompleteMessage { expected: 19 })
    } else {
        match spec_reg_sho_action(s[18]) {
            Ok(reg_sho_action) => Ok(RegSHOShortSalePriceTestRestriction {
            header: spec_parse_header(s.subrange(0, 10)),
            stock: seq_to_arr8(s.subrange(10, 18)),
            reg_sho_action: reg_sho_action,
        }),
            Err(e) => Err(e),
        }
    }
}

/// The 19 bytes of the record.
pub open spec fn spec_encode_reg_sho_short_sale_price_test_restriction(m: RegSHOShortSalePriceTestRestriction) -> Seq<u8> {
    spec_encode_header(m.header) + m.stock@ + seq![spec_reg_sho_action_byte(m.reg_sho_action)]
}

impl RegSHOShortSalePriceTestRestriction {
    /// A record the decoder can produce.
    pub open spec fn wf(&self) -> bool {
        self.header.wf()
    }

    /// The record's wire bytes.
    pub fn encode(&self) -> (r: Vec<u8>)
        requires
            self.header.timestamp < 0x1000000000000,
        ensures
            r@ == spec_encode_reg_sho_short_sale_price_test_restriction(*self),
    {
        let mut v: Vec<u8> = Vec::new();
        self.header.write(&mut v);
        write_arr8(&mut v, &self.stock);
        let b_reg_sho_action = self.reg_sho_action.code();
        v.push(b_reg_sho_action);
        proof {
            assert(v@ =~= spec_encode_reg_sho_short_sale_price_test_restriction(*self));
        }
        v
    }
}

impl Parse for RegSHOShortSalePriceTestRestriction {
    /// Decodes the record; the slice must be exactly 19 bytes and
    /// every categorical byte must lie in its alphabet.
    fn parse(input: &[u8]) -> (r: Result<Self, ParseError>)
        ensures
            r == spec_parse_reg_sho_short_sale_price_test_restriction(input@),
    {
        if input.len() != 19 {
            return Err(ParseError::IncompleteMessage { expected: 19 });
        }
        let header = MessageHeader::parse(&input[0..10]);
        let stock = read_arr8(input, 10);
        let reg_sho_action = match RegSHOAction::try_from(input[18]) {
            Ok(x) => x,
            Err(e) => {
                return Err(e);
            },
        };
        Ok(RegSHOShortSalePriceTestRestriction { header, stock, reg_sho_action })
    }
}

/// Decoding the encoded bytes of a well-formed record gives it back.
pub proof fn lemma_reg_sho_short_sale_price_test_restriction_round_trip(m: RegSHOShortSalePriceTestRestriction)
    requires
        m.wf(),
    ensures
        spec_parse_reg_sho_short_sale_price_test_restriction(spec_encode_reg_sho_short_sale_price_test_restriction(m)) == Ok::<RegSHOShortSalePriceTestRestriction, ParseError>(m),
{
    lemma_header_round_trip(m.header);
    let s = spec_encode_reg_sho_short_sale_price_test_restriction(m);
    assert(s.subrange(0, 10) =~= spec_encode_header(m.header));
    assert(s.subrange(10, 18) =~= m.stock@);
    lemma_seq_to_arr8(m.stock);
}

impl BinaryMessageLength for RegSHOShortSalePriceTestRestriction {
    const LENGTH: usize = 19;
}

impl MessageHeaderType for RegSHOShortSalePriceTestRestriction {
    const MESSAGE_TYPE: u8 = 89;
}

impl GenerateExampleMessage for RegSHOShortSalePriceTestRestriction {
    /// A wire-format example with random field values and valid
    /// categorical bytes; it always decodes.
    fn generate_binary_example() -> (r: Vec<u8>)
        ensures
            spec_parse_reg_sho_short_sale_price_test_restriction(r@) is Ok,
    {
        let mut v = MessageHeader::generate_binary_example();
        write_be_u64(&mut v, rand_u64());
        let c_reg_sho_action = RegSHOAction::generate_example_code();
        v.push(c_reg_sho_action);
        proof {
            assert(v@.len() == 19);
            assert(v@[18] == c_reg_sho_action);
            assert(spec_parse_reg_sho_short_sale_price_test_restriction(v@) is Ok);
        }
        v
    }
}

/// A market-participant-position record (`'L'`): one participant's standing in a security.
#[derive(Debug, Clone, Copy, PartialEq)]
pub struct MarketParticipantPosition {
    pub header: MessageHeader,
    pub mp_id: u32,
    pub stock: Stock,
    pub primary_market_maker: bool,
    pub market_maker_mode: MarketMakerMode,
    pub market_participant_state: MarketParticipantState,
}

/// The record read from a slice: exactly 25 bytes, then each field
/// at its fixed offset; the first invalid categorical byte decides the
/// error.
pub open spec fn spec_parse_market_participant_position(s: Seq<u8>) -> Result<MarketParticipantPosition, ParseError> {
    if s.len() != 25 {
        Err(ParseError::IncompleteMessage { expected: 25 })
    } else {
        match spec_byte_to_bool(s[22]) {
            Ok(primary_market_maker) => match spec_market_maker_mode(s[23]) {
            Ok(market_maker_mode) => match spec_market_participant_state(s[24]) {
            Ok(market_participant_state) => Ok(MarketParticipantPosition {
            header: spec_parse_header(s.subrange(0, 10)),
            mp_id: be_u32(s.subrange(10, 14)),
            stock: seq_to_arr8(s.subrange(14, 22)),
            primary_market_maker: primary_market_maker,
            market_maker_mode: market_maker_mode,
            market_participant_state: market_participant_state,
        }),
            Err(e) => Err(e),
        },
            Err(e) => Err(e),
        },
            Err(e) => Err(e),
        }
    }
}

/// The 25 bytes of the record.
pub open spec fn spec_encode_market_participant_position(m: MarketParticipantPosition) -> Seq<u8> {
    spec_encode_header(m.header) + u32_be(m.mp_id) + m.stock@ + seq![spec_bool_code(m.primary_market_maker)] + seq![spec_market_maker_mode_byte(m.market_maker_mode)] + seq![spec_market_participant_state_byte(m.market_participant_state)]
}

impl MarketParticipantPosition {
    /// A record the decoder can produce.
    pub open spec fn wf(&self) -> bool {
        self.header.wf()
    }

    /// The record's wire bytes.
    pub fn encode(&self) -> (r: Vec<u8>)
        requires
            self.header.timestamp < 0x1000000000000,
        ensures
            r@ == spec_encode_market_participant_position(*self),
    {
        let mut v: Vec<u8> = Vec::new();
        self.header.write(&mut v);
        write_be_u32(&mut v, self.mp_id);
        write_arr8(&mut v, &self.stock);
        let b_primary_market_maker = bool_code(self.primary_market_maker);
        v.push(b_primary_market_maker);
        let b_market_maker_mode = self.market_maker_mode.code();
        v.push(b_market_maker_mode);
        let b_market_participant_state = self.market_participant_state.code();
        v.push(b_market_participant_state);
        proof {
            assert(v@ =~= spec_encode_market_participant_position(*self));
        }
        v
    }
}

impl Parse for MarketParticipantPosition {
    /// Decodes the record; the slice must be exactly 25 bytes and
    /// every categorical byte must lie in its alphabet.
    fn parse(input: &[u8]) -> (r: Result<Self, ParseError>)
        ensures
            r == spec_parse_market_participant_position(input@),
    {
        if input.len() != 25 {
            return Err(ParseError::IncompleteMessage { expected: 25 });
        }
        let header = MessageHeader::parse(&input[0..10]);
        let mp_id = read_be_u32(input, 10);
        let stock = read_arr8(input, 14);
        let primary_market_maker = match byte_to_bool(input[22]) {
            Ok(x) => x,
            Err(e) => {
                return Err(e);
            },
        };
        let market_maker_mode = match MarketMakerMode::try_from(input[23]) {
            Ok(x) => x,
            Err(e) => {
                return Err(e);
            },
        };
        let market_participant_state = match MarketParticipantState::try_from(input[24]) {
            Ok(x) => x,
            Err(e) => {
                return Err(e);
            },
        };
        Ok(MarketParticipantPosition { header, mp_id, stock, primary_market_maker, market_maker_mode, market_participant_state })
    }
}

/// Decoding the encoded bytes of a well-formed record gives it back.
pub proof fn lemma_market_participant_position_round_trip(m: MarketParticipantPosition)
    requires
        m.wf(),
    ensures
        spec_parse_market_participant_position(spec_encode_market_participant_position(m)) == Ok::<MarketParticipantPosition, ParseError>(m),
{
    lemma_header_round_trip(m.header);
    let s = spec_encode_market_participant_position(m);
    assert(s.subrange(0, 10) =~= spec_encode_header(m.header));
    assert(s.subrange(10, 14) =~= u32_be(m.mp_id));
    lemma_be_u32_round_trip(m.mp_id);
    assert(s.subrange(14, 22) =~= m.stock@);
    lemma_seq_to_arr8(m.stock);
}

impl BinaryMessageLength for MarketParticipantPosition {
    const LENGTH: usize = 25;
}

impl MessageHeaderType for MarketParticipantPosition {
    const MESSAGE_TYPE: u8 = 76;
}

impl GenerateExampleMessage for MarketParticipantPosition {
    /// A wire-format example with random field values and valid
    /// categorical bytes; it always decodes.
    fn generate_binary_example() -> (r: Vec<u8>)
        ensures
            spec_parse_market_participant_position(r@) is Ok,
    {
        let mut v = MessageHeader::generate_binary_example();
        write_be_u32(&mut v, (rand_u64() % 0x100000000) as u32);
        write_be_u64(&mut v, rand_u64());
        v.push(89);
        let c_market_maker_mode = MarketMakerMode::generate_example_code();
        v.push(c_market_maker_mode);
        let c_market_participant_state = MarketParticipantState::generate_example_code();
        v.push(c_market_participant_state);
        proof {
            assert(v@.len() == 25);
            assert(v@[22] == 89);
            assert(v@[23] == c_market_maker_mode);
            assert(v@[24] == c_market_participant_state);
            assert(spec_parse_market_participant_position(v@) is Ok);
        }
        v
    }
}

/// A circuit-breaker decline-level record (`'V'`): the three market-wide breach levels.
#[derive(Debug, Clone, Copy, PartialEq)]
pub struct MWCBDeclineLevel {
    pub header: MessageHeader,
    pub level1: u64,
    pub level2: u64,
    pub level3: u64,
}

/// The record read from a slice: exactly 34 bytes, then each field
/// at its fixed offset; the first invalid categorical byte decides the
/// error.
pub open spec fn spec_parse_mwcb_decline_level(s: Seq<u8>) -> Result<MWCBDeclineLevel, ParseError> {
    if s.len() != 34 {
        Err(ParseError::IncompleteMessage { expected: 34 })
    } else {
        Ok(MWCBDeclineLevel {
            header: spec_parse_header(s.subrange(0, 10)),
            level1: be_u64(s.subrange(10, 18)),
            level2: be_u64(s.subrange(18, 26)),
            level3: be_u64(s.subrange(26, 34)),
        })
    }
}

/// The 34 bytes of the record.
pub open spec fn spec_encode_mwcb_decline_level(m: MWCBDeclineLevel) -> Seq<u8> {
    spec_encode_header(m.header) + u64_be(m.level1) + u64_be(m.level2) + u64_be(m.level3)
}

impl MWCBDeclineLevel {
    /// A record the decoder can produce.
    pub open spec fn wf(&self) -> bool {
        self.header.wf()
    }

    /// The record's wire bytes.
    pub fn encode(&self) -> (r: Vec<u8>)
        requires
            self.header.timestamp < 0x1000000000000,
        ensures
            r@ == spec_encode_mwcb_decline_level(*self),
    {
        let mut v: Vec<u8> = Vec::new();
        self.header.write(&mut v);
        write_be_u64(&mut v, self.level1);
        write_be_u64(&mut v, self.level2);
        write_be_u64(&mut v, self.level3);
        proof {
            assert(v@ =~= spec_encode_mwcb_decline_level(*self));
        }
        v
    }
}

impl Parse for MWCBDeclineLevel {
    /// Decodes the record; the slice must be exactly 34 bytes and
    /// every categorical byte must lie in its alphabet.
    fn parse(input: &[u8]) -> (r: Result<Self, ParseError>)
        ensures
            r == spec_parse_mwcb_decline_level(input@),
    {
        if input.len() != 34 {
            return Err(ParseError::IncompleteMessage { expected: 34 });
        }
        let header = MessageHeader::parse(&input[0..10]);
        let level1 = read_be_u64(input, 10);
        let level2 = read_be_u64(input, 18);
        let level3 = read_be_u64(input, 26);
        Ok(MWCBDeclineLevel { header, level1, level2, level3 })
    }
}

/// Decoding the encoded bytes of a well-formed record gives it back.
pub proof fn lemma_mwcb_decline_level_round_trip(m: MWCBDeclineLevel)
    requires
        m.wf(),
    ensures
        spec_parse_mwcb_decline_level(spec_encode_mwcb_decline_level(m)) == Ok::<MWCBDeclineLevel, ParseError>(m),
{
    lemma_header_round_trip(m.header);
    let s = spec_encode_mwcb_decline_level(m);
    assert(s.subrange(0, 10) =~= spec_encode_header(m.header));
    assert(s.subrange(10, 18) =~= u64_be(m.level1));
    lemma_be_u64_round_trip(m.level1);
    assert(s.subrange(18, 26) =~= u64_be(m.level2));
    lemma_be_u64_round_trip(m.level2);
    assert(s.subrange(26, 34) =~= u64_be(m.level3));
    lemma_be_u64_round_trip(m.level3);
}

impl BinaryMessageLength for MWCBDeclineLevel {
    const LENGTH: usize = 34;
}

impl MessageHeaderType for MWCBDeclineLevel {
    const MESSAGE_TYPE: u8 = 86;
}

impl GenerateExampleMessage for MWCBDeclineLevel {
    /// A wire-format example with random field values and valid
    /// categorical bytes; it always decodes.
    fn generate_binary_example() -> (r: Vec<u8>)
        ensures
            spec_parse_mwcb_decline_level(r@) is Ok,
    {
        let mut v = MessageHeader::generate_binary_example();
        write_be_u64(&mut v, rand_u64());
        write_be_u64(&mut v, rand_u64());
        write_be_u64(&mut v, rand_u64());
        proof {
            assert(v@.len() == 34);
            assert(spec_parse_mwcb_decline_level(v@) is Ok);
        }
        v
    }
}

/// A circuit-breaker status record (`'W'`): which level was breached.
#[derive(Debug, Clone, Copy, PartialEq)]
pub struct MWCBStatus {
    pub header: MessageHeader,
    pub breached_level: MWCBLevel,
}

/// The record read from a slice: exactly 11 bytes, then each field
/// at its fixed offset; the first invalid categorical byte decides the
/// error.
pub open spec fn spec_parse_mwcb_status(s: Seq<u8>) -> Result<MWCBStatus, ParseError> {
    if s.len() != 11 {
        Err(ParseError::IncompleteMessage { expected: 11 })
    } else {
        match spec_mwcb_level(s[10]) {
            Ok(breached_level) => Ok(MWCBStatus {
            header: spec_parse_header(s.subrange(0, 10)),
            breached_level: breached_level,
        }),
            Err(e) => Err(e),
        }
    }
}

/// The 11 bytes of the record.
pub open spec fn spec_encode_mwcb_status(m: MWCBStatus) -> Seq<u8> {
    spec_encode_header(m.header) + seq![spec_mwcb_level_byte(m.breached_level)]
}

impl MWCBStatus {
    /// A record the decoder can produce.
    pub open spec fn wf(&self) -> bool {
        self.header.wf()
    }

    /// The record's wire bytes.
    pub fn encode(&self) -> (r: Vec<u8>)
        requires
            self.header.timestamp < 0x1000000000000,
        ensures
            r@ == spec_encode_mwcb_status(*self),
    {
        let mut v: Vec<u8> = Vec::new();
        self.header.write(&mut v);
        let b_breached_level = self.breached_level.code();
        v.push(b_breached_level);
        proof {
            assert(v@ =~= spec_encode_mwcb_status(*self));
        }
        v
    }
}

impl Parse for MWCBStatus {
    /// Decodes the record; the slice must be exactly 11 bytes and
    /// every categorical byte must lie in its alphabet.
    fn parse(input: &[u8]) -> (r: Result<Self, ParseError>)
        ensures
            r == spec_parse_mwcb_status(input@),
    {
        if input.len() != 11 {
            return Err(ParseError::IncompleteMessage { expected: 11 });
        }
        let header = MessageHeader::parse(&input[0..10]);
        let breached_level = match MWCBLevel::try_from(input[10]) {
            Ok(x) => x,
            Err(e) => {
                return Err(e);
            },
        };
        Ok(MWCBStatus { header, breached_level })
    }
}

/// Decoding the encoded bytes of a well-formed record gives it back.
pub proof fn lemma_mwcb_status_round_trip(m: MWCBStatus)
    requires
        m.wf(),
    ensures
        spec_parse_mwcb_status(spec_encode_mwcb_status(m)) == Ok::<MWCBStatus, ParseError>(m),
{
    lemma_header_round_trip(m.header);
    let s = spec_encode_mwcb_status(m);
    assert(s.subrange(0, 10) =~= spec_encode_header(m.header));
}

impl BinaryMessageLength for MWCBStatus {
    const LENGTH: usize = 11;
}

impl MessageHeaderType for MWCBStatus {
    const MESSAGE_TYPE: u8 = 87;
}

impl GenerateExampleMessage for MWCBStatus {
    /// A wire-format example with random field values and valid
    /// categorical bytes; it always decodes.
    fn generate_binary_example() -> (r: Vec<u8>)
        ensures
            spec_parse_mwcb_status(r@) is Ok,
    {
        let mut v = MessageHeader::generate_binary_example();
        let c_breached_level = MWCBLevel::generate_example_code();
        v.push(c_breached_level);
        proof {
            assert(v@.len() == 11);
            assert(v@[10] == c_breached_level);
            assert(spec_parse_mwcb_status(v@) is Ok);
        }
        v
    }
}

/// An IPO quoting-period record (`'K'`): the anticipated quotation release of a new listing.
#[derive(Debug, Clone, Copy, PartialEq)]
pub struct IPOQuotingPeriodUpdate {
    pub header: MessageHeader,
    pub stock: Stock,
    pub ipo_quotation_release_time: u32,
    pub ipo_quotation_release_qualifier: IPOReleaseQualifier,
    pub ipo_price: u32,
}

/// The record read from a slice: exactly 27 bytes, then each field
/// at its fixed offset; the first invalid categorical byte decides the
/// error.
pub open spec fn spec_parse_ipo_quoting_period_update(s: Seq<u8>) -> Result<IPOQuotingPeriodUpdate, ParseError> {
    if s.len() != 27 {
        Err(ParseError::IncompleteMessage { expected: 27 })
    } else {
        match spec_ipo_release_qualifier(s[22]) {
            Ok(ipo_quotation_release_qualifier) => Ok(IPOQuotingPeriodUpdate {
            header: spec_parse_header(s.subrange(0, 10)),
            stock: seq_to_arr8(s.subrange(10, 18)),
            ipo_quotation_release_time: be_u32(s.subrange(18, 22)),
            ipo_quotation_release_qualifier: ipo_quotation_release_qualifier,
            ipo_price: be_u32(s.subrange(23, 27)),
        }),
            Err(e) => Err(e),
        }
    }
}

/// The 27 bytes of the record.
pub open spec fn spec_encode_ipo_quoting_period_update(m: IPOQuotingPeriodUpdate) -> Seq<u8> {
    spec_encode_header(m.header) + m.stock@ + u32_be(m.ipo_quotation_release_time) + seq![spec_ipo_release_qualifier_byte(m.ipo_quotation_release_qualifier)] + u32_be(m.ipo_price)
}

impl IPOQuotingPeriodUpdate {
    /// A record the decoder can produce.
    pub open spec fn wf(&self) -> bool {
        self.header.wf()
    }

    /// The record's wire bytes.
    pub fn encode(&self) -> (r: Vec<u8>)
        requires
            self.header.timestamp < 0x1000000000000,
        ensures
            r@ == spec_encode_ipo_quoting_period_update(*self),
    {
        let mut v: Vec<u8> = Vec::new();
        self.header.write(&mut v);
        write_arr8(&mut v, &self.stock);
        write_be_u32(&mut v, self.ipo_quotation_release_time);
        let b_ipo_quotation_release_qualifier = self.ipo_quotation_release_qualifier.code();
        v.push(b_ipo_quotation_release_qualifier);
        write_be_u32(&mut v, self.ipo_price);
        proof {
            assert(v@ =~= spec_encode_ipo_quoting_period_update(*self));
        }
        v
    }
}

impl Parse for IPOQuotingPeriodUpdate {
    /// Decodes the record; the slice must be exactly 27 bytes and
    /// every categorical byte must lie in its alphabet.
    fn parse(input: &[u8]) -> (r: Result<Self, ParseError>)
        ensures
            r == spec_parse_ipo_quoting_period_update(input@),
    {
        if input.len() != 27 {
            return Err(ParseError::IncompleteMessage { expected: 27 });
        }
        let header = MessageHeader::parse(&input[0..10]);
        let stock = read_arr8(input, 10);
        let ipo_quotation_release_time = read_be_u32(input, 18);
        let ipo_quotation_release_qualifier = match IPOReleaseQualifier::try_from(input[22]) {
            Ok(x) => x,
            Err(e) => {
                return Err(e);
            },
        };
        let ipo_price = read_be_u32(input, 23);
        Ok(IPOQuotingPeriodUpdate { header, stock, ipo_quotation_release_time, ipo_quotation_release_qualifier, ipo_price })
    }
}

/// Decoding the encoded bytes of a well-formed record gives it back.
pub proof fn lemma_ipo_quoting_period_update_round_trip(m: IPOQuotingPeriodUpdate)
    requires
        m.wf(),
    ensures
        spec_parse_ipo_quoting_period_update(spec_encode_ipo_quoting_period_update(m)) == Ok::<IPOQuotingPeriodUpdate, ParseError>(m),
{
    lemma_header_round_trip(m.header);
    let s = spec_encode_ipo_quoting_period_update(m);
    assert(s.subrange(0, 10) =~= spec_encode_header(m.header));
    assert(s.subrange(10, 18) =~= m.stock@);
    lemma_seq_to_arr8(m.stock);
    assert(s.subrange(18, 22) =~= u32_be(m.ipo_quotation_release_time));
    lemma_be_u32_round_trip(m.ipo_quotation_release_time);
    assert(s.subrange(23, 27) =~= u32_be(m.ipo_price));
    lemma_be_u32_round_trip(m.ipo_price);
}

impl BinaryMessageLength for IPOQuotingPeriodUpdate {
    const LENGTH: usize = 27;
}

impl MessageHeaderType for IPOQuotingPeriodUpdate {
    const MESSAGE_TYPE: u8 = 75;
}

impl GenerateExampleMessage for IPOQuotingPeriodUpdate {
    /// A wire-format example with random field values and valid
    /// categorical bytes; it always decodes.
    fn generate_binary_example() -> (r: Vec<u8>)
        ensures
            spec_parse_ipo_quoting_period_update(r@) is Ok,
    {
        let mut v = MessageHeader::generate_binary_example();
        write_be_u64(&mut v, rand_u64());
        write_be_u32(&mut v, (rand_u64() % 0x100000000) as u32);
        let c_ipo_quotation_release_qualifier = IPOReleaseQualifier::generate_example_code();
        v.push(c_ipo_quotation_release_qualifier);
        write_be_u32(&mut v, (rand_u64() % 0x100000000) as u32);
        proof {
            assert(v@.len() == 27);
            assert(v@[22] == c_ipo_quotation_release_qualifier);
            assert(spec_parse_ipo_quoting_period_update(v@) is Ok);
        }
        v
    }
}

} // verus!
