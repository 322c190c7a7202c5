//! Categorical wire fields: each ITCH byte alphabet as a closed enum, a
//! decoder from the wire byte, and the byte each variant encodes to.

use vstd::prelude::*;

use crate::types::{EnumTestHelpers, ParseError};
use crate::random::rand_below;
use crate::addordermessages::AddOrder;
use crate::modifyordermessages::{
    OrderCancel, OrderDelete, OrderExecuted, OrderExecutedWithPrice, OrderReplace,
};
use crate::noiimessages::{NetOrderImbalanceIndicator, RetailPriceImprovementIndicator};
use crate::stockmessages::{
    IPOQuotingPeriodUpdate, MWCBDeclineLevel, MWCBStatus, MarketParticipantPosition,
    RegSHOShortSalePriceTestRestriction, StockDirectory, StockTradingAction,
};
use crate::systemmessages::SystemEventMessage;
use crate::trademessages::{BrokenTrade, CrossingTrade, NonCrossingTrade};

verus! {

/// A `'Y'`/`'N'`/`' '` field: a boolean, or "not available".
#[derive(Debug, Clone, Copy, PartialEq)]
pub enum BoolOrUnavailable {
    Bool(bool),
    Str(&'static str),
}

/// One decoded record of the closed ITCH message family.
#[derive(Debug, Clone, Copy, PartialEq)]
pub enum MessageTypes {
    SystemEvent(SystemEventMessage),
    StockDirectory(StockDirectory),
    StockTradingAction(StockTradingAction),
    RegSHO(RegSHOShortSalePriceTestRestriction),
    MarketParticipantPosition(MarketParticipantPosition),
    MWCBDeclineLevel(MWCBDeclineLevel),
    MWCBStatus(MWCBStatus),
    IPOQuotingPeriodUpdate(IPOQuotingPeriodUpdate),
    AddOrder(AddOrder),
    OrderExecuted(OrderExecuted),
    OrderExecutedWithPrice(OrderExecutedWithPrice),
    OrderCancel(OrderCancel),
    OrderDelete(OrderDelete),
    OrderReplace(OrderReplace),
    NonCrossingTrade(NonCrossingTrade),
    CrossingTrade(CrossingTrade),
    BrokenTrade(BrokenTrade),
    NOII(NetOrderImbalanceIndicator),
    RetailPriceImprovement(RetailPriceImprovementIndicator),
}

/// Daily session phase markers.
#[derive(Debug, Clone, Copy, PartialEq, Eq, Structural)]
pub enum SystemEventCode {
    StartOfMessages,
    StartOfSystemHours,
    StartOfMarketHours,
    EndOfMarketHours,
    EndOfSystemHours,
    EndOfMessages,
}

/// Meaning of a system-event byte.
pub open spec fn spec_system_event_code(b: u8) -> Result<SystemEventCode, ParseError> {
    if b == 79 {
        Ok(SystemEventCode::StartOfMessages)
    } else if b == 83 {
        Ok(SystemEventCode::StartOfSystemHours)
    } else if b == 81 {
        Ok(SystemEventCode::StartOfMarketHours)
    } else if b == 77 {
        Ok(SystemEventCode::EndOfMarketHours)
    } else if b == 69 {
        Ok(SystemEventCode::EndOfSystemHours)
    } else if b == 67 {
        Ok(SystemEventCode::EndOfMessages)
    } else {
        Err(ParseError::InvalidSystemEventCode { invalid_byte: b })
    }
}

impl SystemEventCode {
    /// Decodes the system-event byte.
    pub fn try_from(value: u8) -> (r: Result<Self, ParseError>)
        ensures
            r == spec_system_event_code(value),
    {
        match value {
            79 => Ok(SystemEventCode::StartOfMessages),
            83 => Ok(SystemEventCode::StartOfSystemHours),
            81 => Ok(SystemEventCode::StartOfMarketHours),
            77 => Ok(SystemEventCode::EndOfMarketHours),
            69 => Ok(SystemEventCode::EndOfSystemHours),
            67 => Ok(SystemEventCode::EndOfMessages),
            _ => Err(ParseError::InvalidSystemEventCode { invalid_byte: value }),
        }
    }

    /// The byte this variant encodes to.
    pub fn code(&self) -> (r: u8)
        ensures
            r == spec_system_event_code_byte(*self),
            spec_system_event_code(r) == Ok::<SystemEventCode, ParseError>(*self),
    {
        match self {
            SystemEventCode::StartOfMessages => 79,
            SystemEventCode::StartOfSystemHours => 83,
            SystemEventCode::StartOfMarketHours => 81,
            SystemEventCode::EndOfMarketHours => 77,
            SystemEventCode::EndOfSystemHours => 69,
            SystemEventCode::EndOfMessages => 67,
        }
    }
}

impl EnumTestHelpers for SystemEventCode {
    open spec fn spec_valid_code(code: u8) -> bool {
        spec_system_event_code(code) is Ok
    }

    fn valid_codes() -> (v: Vec<u8>) {
        let v = vec![79, 83, 81, 77, 69, 67];
        assert(forall|i: int|
            0 <= i < v@.len() ==> #[trigger] Self::spec_valid_code(v@[i]));
        v
    }

    fn generate_example_code() -> (r: u8) {
        let codes = Self::valid_codes();
        let i = rand_below(codes.len());
        codes[i]
    }
}

/// Listing venue of a security; a space means unavailable.
#[derive(Debug, Clone, Copy, PartialEq, Eq, Structural)]
pub enum MarketCategory {
    NASDAQGlobalSelectMarket,
    NASDAQGlobalMarket,
    NASDAQCapitalMarket,
    NYSE,
    NYSEArca,
    NYSEMKT,
    InvestorsExchange,
    BATS,
    Unavailable,
}

/// Meaning of the byte of this field; the alphabet is `'Q'`, `'G'`, `'S'`, `'N'`, `'A'`, `'P'`, `'V'`, `'Z'`, `' '`.
pub open spec fn spec_market_category(b: u8) -> Result<MarketCategory, ParseError> {
    if b == 81 {
        Ok(MarketCategory::NASDAQGlobalSelectMarket)
    } else if b == 71 {
        Ok(MarketCategory::NASDAQGlobalMarket)
    } else if b == 83 {
        Ok(MarketCategory::NASDAQCapitalMarket)
    } else if b == 78 {
        Ok(MarketCategory::NYSE)
    } else if b == 65 {
        Ok(MarketCategory::NYSEArca)
    } else if b == 80 {
        Ok(MarketCategory::NYSEMKT)
    } else if b == 86 {
        Ok(MarketCategory::InvestorsExchange)
    } else if b == 90 {
        Ok(MarketCategory::BATS)
    } else if b == 32 {
        Ok(MarketCategory::Unavailable)
    } else {
        Err(ParseError::InvalidMarketCategory { invalid_byte: b })
    }
}

impl MarketCategory {
    /// Decodes the field's byte.
    pub fn try_from(value: u8) -> (r: Result<Self, ParseError>)
        ensures
            r == spec_market_category(value),
    {
        match value {
            81 => Ok(MarketCategory::NASDAQGlobalSelectMarket),
            71 => Ok(MarketCategory::NASDAQGlobalMarket),
            83 => Ok(MarketCategory::NASDAQCapitalMarket),
            78 => Ok(MarketCategory::NYSE),
            65 => Ok(MarketCategory::NYSEArca),
            80 => Ok(MarketCategory::NYSEMKT),
            86 => Ok(MarketCategory::InvestorsExchange),
            90 => Ok(MarketCategory::BATS),
            32 => Ok(MarketCategory::Unavailable),
            _ => Err(ParseError::InvalidMarketCategory { invalid_byte: value }),
        }
    }

    /// The byte this variant encodes to.
    pub fn code(&self) -> (r: u8)
        ensures
            r == spec_market_category_byte(*self),
            spec_market_category(r) == Ok::<MarketCategory, ParseError>(*self),
    {
        match self {
            MarketCategory::NASDAQGlobalSelectMarket => 81,
            MarketCategory::NASDAQGlobalMarket => 71,
            MarketCategory::NASDAQCapitalMarket => 83,
            MarketCategory::NYSE => 78,
            MarketCategory::NYSEArca => 65,
            MarketCategory::NYSEMKT => 80,
            MarketCategory::InvestorsExchange => 86,
            MarketCategory::BATS => 90,
            MarketCategory::Unavailable => 32,
        }
    }
}

impl EnumTestHelpers for MarketCategory {
    open spec fn spec_valid_code(code: u8) -> bool {
        spec_market_category(code) is Ok
    }

    fn valid_codes() -> (v: Vec<u8>) {
        let v = vec![81, 71, 83, 78, 65, 80, 90, 32];
        assert(forall|i: int|
            0 <= i < v@.len() ==> #[trigger] Self::spec_valid_code(v@[i]));
        v
    }

    fn generate_example_code() -> (r: u8) {
        let codes = Self::valid_codes();
        let i = rand_below(codes.len());
        codes[i]
    }
}

/// Whether a security is live or a test listing.
#[derive(Debug, Clone, Copy, PartialEq, Eq, Structural)]
pub enum Authenticity {
    Production,
    Test,
}

/// Meaning of the byte of this field; the alphabet is `'P'`, `'T'`.
pub open spec fn spec_authenticity(b: u8) -> Result<Authenticity, ParseError> {
    if b == 80 {
        Ok(Authenticity::Production)
    } else if b == 84 {
        Ok(Authenticity::Test)
    } else {
        Err(ParseError::InvalidAuthenticity { invalid_byte: b })
    }
}

impl Authenticity {
    /// Decodes the field's byte.
    pub fn try_from(value: u8) -> (r: Result<Self, ParseError>)
        ensures
            r == spec_authenticity(value),
    {
        match value {
            80 => Ok(Authenticity::Production),
            84 => Ok(Authenticity::Test),
            _ => Err(ParseError::InvalidAuthenticity { invalid_byte: value }),
        }
    }

    /// The byte this variant encodes to.
    pub fn code(&self) -> (r: u8)
        ensures
            r == spec_authenticity_byte(*self),
            spec_authenticity(r) == Ok::<Authenticity, ParseError>(*self),
    {
        match self {
            Authenticity::Production => 80,
            Authenticity::Test => 84,
        }
    }
}

impl EnumTestHelpers for Authenticity {
    open spec fn spec_valid_code(code: u8) -> bool {
        spec_authenticity(code) is Ok
    }

    fn valid_codes() -> (v: Vec<u8>) {
        let v = vec![80, 84];
        assert(forall|i: int|
            0 <= i < v@.len() ==> #[trigger] Self::spec_valid_code(v@[i]));
        v
    }

    fn generate_example_code() -> (r: u8) {
        let codes = Self::valid_codes();
        let i = rand_below(codes.len());
        codes[i]
    }
}

/// Reg SHO threshold-list standing of a security.
#[derive(Debug, Clone, Copy, PartialEq, Eq, Structural)]
pub enum ShortSaleThresholdIndicator {
    Restricted,
    NotRestricted,
    NotAvailable,
}

/// Meaning of the byte of this field; the alphabet is `'Y'`, `'N'`, `' '`.
pub open spec fn spec_short_sale_threshold_indicator(b: u8) -> Result<ShortSaleThresholdIndicator, ParseError> {
    if b == 89 {
        Ok(ShortSaleThresholdIndicator::Restricted)
    } else if b == 78 {
        Ok(ShortSaleThresholdIndicator::NotRestricted)
    } else if b == 32 {
        Ok(ShortSaleThresholdIndicator::NotAvailable)
    } else {
        Err(ParseError::InvalidShortSaleThresholdIndicator { invalid_byte: b })
    }
}

impl ShortSaleThresholdIndicator {
    /// Decodes the field's byte.
    pub fn try_from(value: u8) -> (r: Result<Self, ParseError>)
        ensures
            r == spec_short_sale_threshold_indicator(value),
    {
        match value {
            89 => Ok(ShortSaleThresholdIndicator::Restricted),
            78 => Ok(ShortSaleThresholdIndicator::NotRestricted),
            32 => Ok(ShortSaleThresholdIndicator::NotAvailable),
            _ => Err(ParseError::InvalidShortSaleThresholdIndicator { invalid_byte: value }),
        }
    }

    /// The byte this variant encodes to.
    pub fn code(&self) -> (r: u8)
        ensures
            r == spec_short_sale_threshold_indicator_byte(*self),
            spec_short_sale_threshold_indicator(r) == Ok::<ShortSaleThresholdIndicator, ParseError>(*self),
    {
        match self {
            ShortSaleThresholdIndicator::Restricted => 89,
            ShortSaleThresholdIndicator::NotRestricted => 78,
            ShortSaleThresholdIndicator::NotAvailable => 32,
        }
    }
}

impl EnumTestHelpers for ShortSaleThresholdIndicator {
    open spec fn spec_valid_code(code: u8) -> bool {
        spec_short_sale_threshold_indicator(code) is Ok
    }

    fn valid_codes() -> (v: Vec<u8>) {
        let v = vec![89, 78, 32];
        assert(forall|i: int|
            0 <= i < v@.len() ==> #[trigger] Self::spec_valid_code(v@[i]));
        v
    }

    fn generate_example_code() -> (r: u8) {
        let codes = Self::valid_codes();
        let i = rand_below(codes.len());
        codes[i]
    }
}

/// Issuer compliance standing; a space means unavailable.
#[derive(Debug, Clone, Copy, PartialEq, Eq, Structural)]
pub enum FinancialStatusIndicator {
    Deficient,
    Delinquent,
    Bankrupt,
    Suspended,
    DeficientAndBankrupt,
    DeficientAndDelinquent,
    DelinquentAndBankrupt,
    DeficientDelinquentAndBankrupt,
    CreationsAndRedemptionsSuspended,
    Normal,
    NotAvailable,
}

/// Meaning of the byte of this field; the alphabet is `'D'`, `'E'`, `'Q'`, `'S'`, `'G'`, `'H'`, `'J'`, `'K'`, `'C'`, `'N'`, `' '`.
pub open spec fn spec_financial_status_indicator(b: u8) -> Result<FinancialStatusIndicator, ParseError> {
    if b == 68 {
        Ok(FinancialStatusIndicator::Deficient)
    } else if b == 69 {
        Ok(FinancialStatusIndicator::Delinquent)
    } else if b == 81 {
        Ok(FinancialStatusIndicator::Bankrupt)
    } else if b == 83 {
        Ok(FinancialStatusIndicator::Suspended)
    } else if b == 71 {
        Ok(FinancialStatusIndicator::DeficientAndBankrupt)
    } else if b == 72 {
        Ok(FinancialStatusIndicator::DeficientAndDelinquent)
    } else if b == 74 {
        Ok(FinancialStatusIndicator::DelinquentAndBankrupt)
    } else if b == 75 {
        Ok(FinancialStatusIndicator::DeficientDelinquentAndBankrupt)
    } else if b == 67 {
        Ok(FinancialStatusIndicator::CreationsAndRedemptionsSuspended)
    } else if b == 78 {
        Ok(FinancialStatusIndicator::Normal)
    } else if b == 32 {
        Ok(FinancialStatusIndicator::NotAvailable)
    } else {
        Err(ParseError::InvalidFinancialStatusIndicator { invalid_byte: b })
    }
}

impl FinancialStatusIndicator {
    /// Decodes the field's byte.
    pub fn try_from(value: u8) -> (r: Result<Self, ParseError>)
        ensures
            r == spec_financial_status_indicator(value),
    {
        match value {
            68 => Ok(FinancialStatusIndicator::Deficient),
            69 => Ok(FinancialStatusIndicator::Delinquent),
            81 => Ok(FinancialStatusIndicator::Bankrupt),
            83 => Ok(FinancialStatusIndicator::Suspended),
            71 => Ok(FinancialStatusIndicator::DeficientAndBankrupt),
            72 => Ok(FinancialStatusIndicator::DeficientAndDelinquent),
            74 => Ok(FinancialStatusIndicator::DelinquentAndBankrupt),
            75 => Ok(FinancialStatusIndicator::DeficientDelinquentAndBankrupt),
            67 => Ok(FinancialStatusIndicator::CreationsAndRedemptionsSuspended),
            78 => Ok(FinancialStatusIndicator::Normal),
            32 => Ok(FinancialStatusIndicator::NotAvailable),
            _ => Err(ParseError::InvalidFinancialStatusIndicator { invalid_byte: value }),
        }
    }

    /// The byte this variant encodes to.
    pub fn code(&self) -> (r: u8)
        ensures
            r == spec_financial_status_indicator_byte(*self),
            spec_financial_status_indicator(r) == Ok::<FinancialStatusIndicator, ParseError>(*self),
    {
        match self {
            FinancialStatusIndicator::Deficient => 68,
            FinancialStatusIndicator::Delinquent => 69,
            FinancialStatusIndicator::Bankrupt => 81,
            FinancialStatusIndicator::Suspended => 83,
            FinancialStatusIndicator::DeficientAndBankrupt => 71,
            FinancialStatusIndicator::DeficientAndDelinquent => 72,
            FinancialStatusIndicator::DelinquentAndBankrupt => 74,
            FinancialStatusIndicator::DeficientDelinquentAndBankrupt => 75,
            FinancialStatusIndicator::CreationsAndRedemptionsSuspended => 67,
            FinancialStatusIndicator::Normal => 78,
            FinancialStatusIndicator::NotAvailable => 32,
        }
    }
}

impl EnumTestHelpers for FinancialStatusIndicator {
    open spec fn spec_valid_code(code: u8) -> bool {
        spec_financial_status_indicator(code) is Ok
    }

    fn valid_codes() -> (v: Vec<u8>) {
        let v = vec![68, 69, 81, 83, 71, 72, 74, 75, 67, 78, 32];
        assert(forall|i: int|
            0 <= i < v@.len() ==> #[trigger] Self::spec_valid_code(v@[i]));
        v
    }

    fn generate_example_code() -> (r: u8) {
        let codes = Self::valid_codes();
        let i = rand_below(codes.len());
        codes[i]
    }
}

/// Current trading state of a security.
#[derive(Debug, Clone, Copy, PartialEq, Eq, Structural)]
pub enum TradingState {
    Halted,
    Paused,
    QuotationOnly,
    Trading,
}

/// Meaning of the byte of this field; the alphabet is `'H'`, `'P'`, `'Q'`, `'T'`.
pub open spec fn spec_trading_state(b: u8) -> Result<TradingState, ParseError> {
    if b == 72 {
        Ok(TradingState::Halted)
    } else if b == 80 {
        Ok(TradingState::Paused)
    } else if b == 81 {
        Ok(TradingState::QuotationOnly)
    } else if b == 84 {
        Ok(TradingState::Trading)
    } else {
        Err(ParseError::InvalidTradingState { invalid_byte: b })
    }
}

impl TradingState {
    /// Decodes the field's byte.
    pub fn try_from(value: u8) -> (r: Result<Self, ParseError>)
        ensures
            r == spec_trading_state(value),
    {
        match value {
            72 => Ok(TradingState::Halted),
            80 => Ok(TradingState::Paused),
            81 => Ok(TradingState::QuotationOnly),
            84 => Ok(TradingState::Trading),
            _ => Err(ParseError::InvalidTradingState { invalid_byte: value }),
        }
    }

    /// The byte this variant encodes to.
    pub fn code(&self) -> (r: u8)
        ensures
            r == spec_trading_state_byte(*self),
            spec_trading_state(r) == Ok::<TradingState, ParseError>(*self),
    {
        match self {
            TradingState::Halted => 72,
            TradingState::Paused => 80,
            TradingState::QuotationOnly => 81,
            TradingState::Trading => 84,
        }
    }
}

impl EnumTestHelpers for TradingState {
    open spec fn spec_valid_code(code: u8) -> bool {
        spec_trading_state(code) is Ok
    }

    fn valid_codes() -> (v: Vec<u8>) {
        let v = vec![72, 80, 81, 84];
        assert(forall|i: int|
            0 <= i < v@.len() ==> #[trigger] Self::spec_valid_code(v@[i]));
        v
    }

    fn generate_example_code() -> (r: u8) {
        let codes = Self::valid_codes();
        let i = rand_below(codes.len());
        codes[i]
    }
}

/// Reg SHO short-sale price-test action.
#[derive(Debug, Clone, Copy, PartialEq, Eq, Structural)]
pub enum RegSHOAction {
    NoPriceTestInEffect,
    RegSHOShortSalePriceTestRestriction,
    TestRestrictionRemains,
}

/// Meaning of the byte of this field; the alphabet is `'0'`, `'1'`, `'2'`.
pub open spec fn spec_reg_sho_action(b: u8) -> Result<RegSHOAction, ParseError> {
    if b == 48 {
        Ok(RegSHOAction::NoPriceTestInEffect)
    } else if b == 49 {
        Ok(RegSHOAction::RegSHOShortSalePriceTestRestriction)
    } else if b == 50 {
        Ok(RegSHOAction::TestRestrictionRemains)
    } else {
        Err(ParseError::InvalidRegSHOAction { invalid_byte: b })
    }
}

impl RegSHOAction {
    /// Decodes the field's byte.
    pub fn try_from(value: u8) -> (r: Result<Self, ParseError>)
        ensures
            r == spec_reg_sho_action(value),
    {
        match value {
            48 => Ok(RegSHOAction::NoPriceTestInEffect),
            49 => Ok(RegSHOAction::RegSHOShortSalePriceTestRestriction),
            50 => Ok(RegSHOAction::TestRestrictionRemains),
            _ => Err(ParseError::InvalidRegSHOAction { invalid_byte: value }),
        }
    }

    /// The byte this variant encodes to.
    pub fn code(&self) -> (r: u8)
        ensures
            r == spec_reg_sho_action_byte(*self),
            spec_reg_sho_action(r) == Ok::<RegSHOAction, ParseError>(*self),
    {
        match self {
            RegSHOAction::NoPriceTestInEffect => 48,
            RegSHOAction::RegSHOShortSalePriceTestRestriction => 49,
            RegSHOAction::TestRestrictionRemains => 50,
        }
    }
}

impl EnumTestHelpers for RegSHOAction {
    open spec fn spec_valid_code(code: u8) -> bool {
        spec_reg_sho_action(code) is Ok
    }

    fn valid_codes() -> (v: Vec<u8>) {
        let v = vec![48, 49, 50];
        assert(forall|i: int|
            0 <= i < v@.len() ==> #[trigger] Self::spec_valid_code(v@[i]));
        v
    }

    fn generate_example_code() -> (r: u8) {
        let codes = Self::valid_codes();
        let i = rand_below(codes.len());
        codes[i]
    }
}

/// Kind of security being listed.
#[derive(Debug, Clone, Copy, PartialEq, Eq, Structural)]
pub enum IssueClassificationCodes {
    AmericanDepositaryShare,
    Bond,
    CommonStock,
    DepositoryReceipt,
    UnregisteredSecurity,
    LimitedPartnership,
    Notes,
    OrdinaryShare,
    PreferredStock,
    OtherSecurity,
    Right,
    ShareOfBeneficialInterest,
    ConvertibleDebenture,
    Unit,
    UnitBenifInt,
    Warrant,
}

/// Meaning of the byte of this field; the alphabet is `'A'`, `'B'`, `'C'`, `'F'`, `'I'`, `'L'`, `'N'`, `'O'`, `'P'`, `'Q'`, `'R'`, `'S'`, `'T'`, `'U'`, `'V'`, `'W'`.
pub open spec fn spec_issue_classification_codes(b: u8) -> Result<IssueClassificationCodes, ParseError> {
    if b == 65 {
        Ok(IssueClassificationCodes::AmericanDepositaryShare)
    } else if b == 66 {
        Ok(IssueClassificationCodes::Bond)
    } else if b == 67 {
        Ok(IssueClassificationCodes::CommonStock)
    } else if b == 70 {
        Ok(IssueClassificationCodes::DepositoryReceipt)
    } else if b == 73 {
        Ok(IssueClassificationCodes::UnregisteredSecurity)
    } else if b == 76 {
        Ok(IssueClassificationCodes::LimitedPartnership)
    } else if b == 78 {
        Ok(IssueClassificationCodes::Notes)
    } else if b == 79 {
        Ok(IssueClassificationCodes::OrdinaryShare)
    } else if b == 80 {
        Ok(IssueClassificationCodes::PreferredStock)
    } else if b == 81 {
        Ok(IssueClassificationCodes::OtherSecurity)
    } else if b == 82 {
        Ok(IssueClassificationCodes::Right)
    } else if b == 83 {
        Ok(IssueClassificationCodes::ShareOfBeneficialInterest)
    } else if b == 84 {
        Ok(IssueClassificationCodes::ConvertibleDebenture)
    } else if b == 85 {
        Ok(IssueClassificationCodes::Unit)
    } else if b == 86 {
        Ok(IssueClassificationCodes::UnitBenifInt)
    } else if b == 87 {
        Ok(IssueClassificationCodes::Warrant)
    } else {
        Err(ParseError::InvalidIssueClassificationCode { invalid_byte: b })
    }
}

impl IssueClassificationCodes {
    /// Decodes the field's byte.
    pub fn try_from(value: u8) -> (r: Result<Self, ParseError>)
        ensures
            r == spec_issue_classification_codes(value),
    {
        match value {
            65 => Ok(IssueClassificationCodes::AmericanDepositaryShare),
            66 => Ok(IssueClassificationCodes::Bond),
            67 => Ok(IssueClassificationCodes::CommonStock),
            70 => Ok(IssueClassificationCodes::DepositoryReceipt),
            73 => Ok(IssueClassificationCodes::UnregisteredSecurity),
            76 => Ok(IssueClassificationCodes::LimitedPartnership),
            78 => Ok(IssueClassificationCodes::Notes),
            79 => Ok(IssueClassificationCodes::OrdinaryShare),
            80 => Ok(IssueClassificationCodes::PreferredStock),
            81 => Ok(IssueClassificationCodes::OtherSecurity),
            82 => Ok(IssueClassificationCodes::Right),
            83 => Ok(IssueClassificationCodes::ShareOfBeneficialInterest),
            84 => Ok(IssueClassificationCodes::ConvertibleDebenture),
            85 => Ok(IssueClassificationCodes::Unit),
            86 => Ok(IssueClassificationCodes::UnitBenifInt),
            87 => Ok(IssueClassificationCodes::Warrant),
            _ => Err(ParseError::InvalidIssueClassificationCode { invalid_byte: value }),
        }
    }

    /// The byte this variant encodes to.
    pub fn code(&self) -> (r: u8)
        ensures
            r == spec_issue_classification_codes_byte(*self),
            spec_issue_classification_codes(r) == Ok::<IssueClassificationCodes, ParseError>(*self),
    {
        match self {
            IssueClassificationCodes::AmericanDepositaryShare => 65,
            IssueClassificationCodes::Bond => 66,
            IssueClassificationCodes::CommonStock => 67,
            IssueClassificationCodes::DepositoryReceipt => 70,
            IssueClassificationCodes::UnregisteredSecurity => 73,
            IssueClassificationCodes::LimitedPartnership => 76,
            IssueClassificationCodes::Notes => 78,
            IssueClassificationCodes::OrdinaryShare => 79,
            IssueClassificationCodes::PreferredStock => 80,
            IssueClassificationCodes::OtherSecurity => 81,
            IssueClassificationCodes::Right => 82,
            IssueClassificationCodes::ShareOfBeneficialInterest => 83,
            IssueClassificationCodes::ConvertibleDebenture => 84,
            IssueClassificationCodes::Unit => 85,
            IssueClassificationCodes::UnitBenifInt => 86,
            IssueClassificationCodes::Warrant => 87,
        }
    }
}

impl EnumTestHelpers for IssueClassificationCodes {
    open spec fn spec_valid_code(code: u8) -> bool {
        spec_issue_classification_codes(code) is Ok
    }

    fn valid_codes() -> (v: Vec<u8>) {
        let v = vec![65, 66, 67, 70, 73, 76, 78, 79, 80, 81, 82, 83, 84, 85, 86, 87];
        assert(forall|i: int|
            0 <= i < v@.len() ==> #[trigger] Self::spec_valid_code(v@[i]));
        v
    }

    fn generate_example_code() -> (r: u8) {
        let codes = Self::valid_codes();
        let i = rand_below(codes.len());
        codes[i]
    }
}

/// Quoting mode of a market maker in a security.
#[derive(Debug, Clone, Copy, PartialEq, Eq, Structural)]
pub enum MarketMakerMode {
    Normal,
    Passive,
    Syndicate,
    PreSyndicate,
    Penalty,
}

/// Meaning of the byte of this field; the alphabet is `'N'`, `'P'`, `'S'`, `'R'`, `'L'`.
pub open spec fn spec_market_maker_mode(b: u8) -> Result<MarketMakerMode, ParseError> {
    if b == 78 {
        Ok(MarketMakerMode::Normal)
    } else if b == 80 {
        Ok(MarketMakerMode::Passive)
    } else if b == 83 {
        Ok(MarketMakerMode::Syndicate)
    } else if b == 82 {
        Ok(MarketMakerMode::PreSyndicate)
    } else if b == 76 {
        Ok(MarketMakerMode::Penalty)
    } else {
        Err(ParseError::InvalidMarketMakerMode { invalid_byte: b })
    }
}

impl MarketMakerMode {
    /// Decodes the field's byte.
    pub fn try_from(value: u8) -> (r: Result<Self, ParseError>)
        ensures
            r == spec_market_maker_mode(value),
    {
        match value {
            78 => Ok(MarketMakerMode::Normal),
            80 => Ok(MarketMakerMode::Passive),
            83 => Ok(MarketMakerMode::Syndicate),
            82 => Ok(MarketMakerMode::PreSyndicate),
            76 => Ok(MarketMakerMode::Penalty),
            _ => Err(ParseError::InvalidMarketMakerMode { invalid_byte: value }),
        }
    }

    /// The byte this variant encodes to.
    pub fn code(&self) -> (r: u8)
        ensures
            r == spec_market_maker_mode_byte(*self),
            spec_market_maker_mode(r) == Ok::<MarketMakerMode, ParseError>(*self),
    {
        match self {
            MarketMakerMode::Normal => 78,
            MarketMakerMode::Passive => 80,
            MarketMakerMode::Syndicate => 83,
            MarketMakerMode::PreSyndicate => 82,
            MarketMakerMode::Penalty => 76,
        }
    }
}

impl EnumTestHelpers for MarketMakerMode {
    open spec fn spec_valid_code(code: u8) -> bool {
        spec_market_maker_mode(code) is Ok
    }

    fn valid_codes() -> (v: Vec<u8>) {
        let v = vec![78, 80, 83, 82, 76];
        assert(forall|i: int|
            0 <= i < v@.len() ==> #[trigger] Self::spec_valid_code(v@[i]));
        v
    }

    fn generate_example_code() -> (r: u8) {
        let codes = Self::valid_codes();
        let i = rand_below(codes.len());
        codes[i]
    }
}

/// Standing of a market participant in a security.
#[derive(Debug, Clone, Copy, PartialEq, Eq, Structural)]
pub enum MarketParticipantState {
    Active,
    ExcusedWithdrawn,
    Withdrawn,
    Suspended,
    Deleted,
}

/// Meaning of the byte of this field; the alphabet is `'A'`, `'E'`, `'W'`, `'S'`, `'D'`.
pub open spec fn spec_market_participant_state(b: u8) -> Result<MarketParticipantState, ParseError> {
    if b == 65 {
        Ok(MarketParticipantState::Active)
    } else if b == 69 {
        Ok(MarketParticipantState::ExcusedWithdrawn)
    } else if b == 87 {
        Ok(MarketParticipantState::Withdrawn)
    } else if b == 83 {
        Ok(MarketParticipantState::Suspended)
    } else if b == 68 {
        Ok(MarketParticipantState::Deleted)
    } else {
        Err(ParseError::InvalidMarketParticipantState { invalid_byte: b })
    }
}

impl MarketParticipantState {
    /// Decodes the field's byte.
    pub fn try_from(value: u8) -> (r: Result<Self, ParseError>)
        ensures
            r == spec_market_participant_state(value),
    {
        match value {
            65 => Ok(MarketParticipantState::Active),
            69 => Ok(MarketParticipantState::ExcusedWithdrawn),
            87 => Ok(MarketParticipantState::Withdrawn),
            83 => Ok(MarketParticipantState::Suspended),
            68 => Ok(MarketParticipantState::Deleted),
            _ => Err(ParseError::InvalidMarketParticipantState { invalid_byte: value }),
        }
    }

    /// The byte this variant encodes to.
    pub fn code(&self) -> (r: u8)
        ensures
            r == spec_market_participant_state_byte(*self),
            spec_market_participant_state(r) == Ok::<MarketParticipantState, ParseError>(*self),
    {
        match self {
            MarketParticipantState::Active => 65,
            MarketParticipantState::ExcusedWithdrawn => 69,
            MarketParticipantState::Withdrawn => 87,
            MarketParticipantState::Suspended => 83,
            MarketParticipantState::Deleted => 68,
        }
    }
}

impl EnumTestHelpers for MarketParticipantState {
    open spec fn spec_valid_code(code: u8) -> bool {
        spec_market_participant_state(code) is Ok
    }

    fn valid_codes() -> (v: Vec<u8>) {
        let v = vec![65, 69, 87, 83, 68];
        assert(forall|i: int|
            0 <= i < v@.len() ==> #[trigger] Self::spec_valid_code(v@[i]));
        v
    }

    fn generate_example_code() -> (r: u8) {
        let codes = Self::valid_codes();
        let i = rand_below(codes.len());
        codes[i]
    }
}

/// Market-wide circuit-breaker level.
#[derive(Debug, Clone, Copy, PartialEq, Eq, Structural)]
pub enum MWCBLevel {
    Level1,
    Level2,
    Level3,
}

/// Meaning of the byte of this field; the alphabet is `'1'`, `'2'`, `'3'`.
pub open spec fn spec_mwcb_level(b: u8) -> Result<MWCBLevel, ParseError> {
    if b == 49 {
        Ok(MWCBLevel::Level1)
    } else if b == 50 {
        Ok(MWCBLevel::Level2)
    } else if b == 51 {
        Ok(MWCBLevel::Level3)
    } else {
        Err(ParseError::InvalidMWCBLevel { invalid_byte: b })
    }
}

impl MWCBLevel {
    /// Decodes the field's byte.
    pub fn try_from(value: u8) -> (r: Result<Self, ParseError>)
        ensures
            r == spec_mwcb_level(value),
    {
        match value {
            49 => Ok(MWCBLevel::Level1),
            50 => Ok(MWCBLevel::Level2),
            51 => Ok(MWCBLevel::Level3),
            _ => Err(ParseError::InvalidMWCBLevel { invalid_byte: value }),
        }
    }

    /// The byte this variant encodes to.
    pub fn code(&self) -> (r: u8)
        ensures
            r == spec_mwcb_level_byte(*self),
            spec_mwcb_level(r) == Ok::<MWCBLevel, ParseError>(*self),
    {
        match self {
            MWCBLevel::Level1 => 49,
            MWCBLevel::Level2 => 50,
            MWCBLevel::Level3 => 51,
        }
    }
}

impl EnumTestHelpers for MWCBLevel {
    open spec fn spec_valid_code(code: u8) -> bool {
        spec_mwcb_level(code) is Ok
    }

    fn valid_codes() -> (v: Vec<u8>) {
        let v = vec![49, 50, 51];
        assert(forall|i: int|
            0 <= i < v@.len() ==> #[trigger] Self::spec_valid_code(v@[i]));
        v
    }

    fn generate_example_code() -> (r: u8) {
        let codes = Self::valid_codes();
        let i = rand_below(codes.len());
        codes[i]
    }
}

/// Whether an IPO quotation release is anticipated or postponed.
#[derive(Debug, Clone, Copy, PartialEq, Eq, Structural)]
pub enum IPOReleaseQualifier {
    Anticipated,
    Postponed,
}

/// Meaning of the byte of this field; the alphabet is `'A'`, `'C'`.
pub open spec fn spec_ipo_release_qualifier(b: u8) -> Result<IPOReleaseQualifier, ParseError> {
    if b == 65 {
        Ok(IPOReleaseQualifier::Anticipated)
    } else if b == 67 {
        Ok(IPOReleaseQualifier::Postponed)
    } else {
        Err(ParseError::InvalidIPOReleaseQualifier { invalid_byte: b })
    }
}

impl IPOReleaseQualifier {
    /// Decodes the field's byte.
    pub fn try_from(value: u8) -> (r: Result<Self, ParseError>)
        ensures
            r == spec_ipo_release_qualifier(value),
    {
        match value {
            65 => Ok(IPOReleaseQualifier::Anticipated),
            67 => Ok(IPOReleaseQualifier::Postponed),
            _ => Err(ParseError::InvalidIPOReleaseQualifier { invalid_byte: value }),
        }
    }

    /// The byte this variant encodes to.
    pub fn code(&self) -> (r: u8)
        ensures
            r == spec_ipo_release_qualifier_byte(*self),
            spec_ipo_release_qualifier(r) == Ok::<IPOReleaseQualifier, ParseError>(*self),
    {
        match self {
            IPOReleaseQualifier::Anticipated => 65,
            IPOReleaseQualifier::Postponed => 67,
        }
    }
}

impl EnumTestHelpers for IPOReleaseQualifier {
    open spec fn spec_valid_code(code: u8) -> bool {
        spec_ipo_release_qualifier(code) is Ok
    }

    fn valid_codes() -> (v: Vec<u8>) {
        let v = vec![65, 67];
        assert(forall|i: int|
            0 <= i < v@.len() ==> #[trigger] Self::spec_valid_code(v@[i]));
        v
    }

    fn generate_example_code() -> (r: u8) {
        let codes = Self::valid_codes();
        let i = rand_below(codes.len());
        codes[i]
    }
}

/// Side of an order.
#[derive(Debug, Clone, Copy, PartialEq, Eq, Structural)]
pub enum BuySellIndicator {
    Sell,
    Buy,
}

/// Meaning of the byte of this field; the alphabet is `'S'`, `'B'`.
pub open spec fn spec_buy_sell_indicator(b: u8) -> Result<BuySellIndicator, ParseError> {
    if b == 83 {
        Ok(BuySellIndicator::Sell)
    } else if b == 66 {
        Ok(BuySellIndicator::Buy)
    } else {
        Err(ParseError::InvalidBuySellIndicator { invalid_byte: b })
    }
}

impl BuySellIndicator {
    /// Decodes the field's byte.
    pub fn try_from(value: u8) -> (r: Result<Self, ParseError>)
        ensures
            r == spec_buy_sell_indicator(value),
    {
        match value {
            83 => Ok(BuySellIndicator::Sell),
            66 => Ok(BuySellIndicator::Buy),
            _ => Err(ParseError::InvalidBuySellIndicator { invalid_byte: value }),
        }
    }

    /// The byte this variant encodes to.
    pub fn code(&self) -> (r: u8)
        ensures
            r == spec_buy_sell_indicator_byte(*self),
            spec_buy_sell_indicator(r) == Ok::<BuySellIndicator, ParseError>(*self),
    {
        match self {
            BuySellIndicator::Sell => 83,
            BuySellIndicator::Buy => 66,
        }
    }
}

impl EnumTestHelpers for BuySellIndicator {
    open spec fn spec_valid_code(code: u8) -> bool {
        spec_buy_sell_indicator(code) is Ok
    }

    fn valid_codes() -> (v: Vec<u8>) {
        let v = vec![83, 66];
        assert(forall|i: int|
            0 <= i < v@.len() ==> #[trigger] Self::spec_valid_code(v@[i]));
        v
    }

    fn generate_example_code() -> (r: u8) {
        let codes = Self::valid_codes();
        let i = rand_below(codes.len());
        codes[i]
    }
}

/// Kind of NASDAQ cross.
#[derive(Debug, Clone, Copy, PartialEq, Eq, Structural)]
pub enum CrossType {
    OpeningCross,
    ClosingCross,
    IPOCrossOrHaltedSecurity,
    IntradayOrPostCloseCross,
}

/// Meaning of the byte of this field; the alphabet is `'O'`, `'C'`, `'H'`, `'I'`.
pub open spec fn spec_cross_type(b: u8) -> Result<CrossType, ParseError> {
    if b == 79 {
        Ok(CrossType::OpeningCross)
    } else if b == 67 {
        Ok(CrossType::ClosingCross)
    } else if b == 72 {
        Ok(CrossType::IPOCrossOrHaltedSecurity)
    } else if b == 73 {
        Ok(CrossType::IntradayOrPostCloseCross)
    } else {
        Err(ParseError::InvalidCrossType { invalid_byte: b })
    }
}

impl CrossType {
    /// Decodes the field's byte.
    pub fn try_from(value: u8) -> (r: Result<Self, ParseError>)
        ensures
            r == spec_cross_type(value),
    {
        match value {
            79 => Ok(CrossType::OpeningCross),
            67 => Ok(CrossType::ClosingCross),
            72 => Ok(CrossType::IPOCrossOrHaltedSecurity),
            73 => Ok(CrossType::IntradayOrPostCloseCross),
            _ => Err(ParseError::InvalidCrossType { invalid_byte: value }),
        }
    }

    /// The byte this variant encodes to.
    pub fn code(&self) -> (r: u8)
        ensures
            r == spec_cross_type_byte(*self),
            spec_cross_type(r) == Ok::<CrossType, ParseError>(*self),
    {
        match self {
            CrossType::OpeningCross => 79,
            CrossType::ClosingCross => 67,
            CrossType::IPOCrossOrHaltedSecurity => 72,
            CrossType::IntradayOrPostCloseCross => 73,
        }
    }
}

impl EnumTestHelpers for CrossType {
    open spec fn spec_valid_code(code: u8) -> bool {
        spec_cross_type(code) is Ok
    }

    fn valid_codes() -> (v: Vec<u8>) {
        let v = vec![79, 67, 72, 73];
        assert(forall|i: int|
            0 <= i < v@.len() ==> #[trigger] Self::spec_valid_code(v@[i]));
        v
    }

    fn generate_example_code() -> (r: u8) {
        let codes = Self::valid_codes();
        let i = rand_below(codes.len());
        codes[i]
    }
}

/// Side of an auction imbalance.
#[derive(Debug, Clone, Copy, PartialEq, Eq, Structural)]
pub enum ImbalanceDirection {
    BuyImbalance,
    SellImbalance,
    NoImbalance,
    InsufficnetOrdersToCalculate,
}

/// Meaning of the byte of this field; the alphabet is `'B'`, `'S'`, `'N'`, `'O'`.
pub open spec fn spec_imbalance_direction(b: u8) -> Result<ImbalanceDirection, ParseError> {
    if b == 66 {
        Ok(ImbalanceDirection::BuyImbalance)
    } else if b == 83 {
        Ok(ImbalanceDirection::SellImbalance)
    } else if b == 78 {
        Ok(ImbalanceDirection::NoImbalance)
    } else if b == 79 {
        Ok(ImbalanceDirection::InsufficnetOrdersToCalculate)
    } else {
        Err(ParseError::InvalidImbalanceDirection { invalid_byte: b })
    }
}

impl ImbalanceDirection {
    /// Decodes the field's byte.
    pub fn try_from(value: u8) -> (r: Result<Self, ParseError>)
        ensures
            r == spec_imbalance_direction(value),
    {
        match value {
            66 => Ok(ImbalanceDirection::BuyImbalance),
            83 => Ok(ImbalanceDirection::SellImbalance),
            78 => Ok(ImbalanceDirection::NoImbalance),
            79 => Ok(ImbalanceDirection::InsufficnetOrdersToCalculate),
            _ => Err(ParseError::InvalidImbalanceDirection { invalid_byte: value }),
        }
    }

    /// The byte this variant encodes to.
    pub fn code(&self) -> (r: u8)
        ensures
            r == spec_imbalance_direction_byte(*self),
            spec_imbalance_direction(r) == Ok::<ImbalanceDirection, ParseError>(*self),
    {
        match self {
            ImbalanceDirection::BuyImbalance => 66,
            ImbalanceDirection::SellImbalance => 83,
            ImbalanceDirection::NoImbalance => 78,
            ImbalanceDirection::InsufficnetOrdersToCalculate => 79,
        }
    }
}

impl EnumTestHelpers for ImbalanceDirection {
    open spec fn spec_valid_code(code: u8) -> bool {
        spec_imbalance_direction(code) is Ok
    }

    fn valid_codes() -> (v: Vec<u8>) {
        let v = vec![66, 83, 78, 79];
        assert(forall|i: int|
            0 <= i < v@.len() ==> #[trigger] Self::spec_valid_code(v@[i]));
        v
    }

    fn generate_example_code() -> (r: u8) {
        let codes = Self::valid_codes();
        let i = rand_below(codes.len());
        codes[i]
    }
}

/// Limit up / limit down reference-price tier; a space means unavailable.
#[derive(Debug, Clone, Copy, PartialEq, Eq, Structural)]
pub enum LuldReferencePriceTier {
    Tier1,
    Tier2,
    NotAvailable,
}

/// Meaning of the byte of this field; the alphabet is `'1'`, `'2'`, `' '`.
pub open spec fn spec_luld_reference_price_tier(b: u8) -> Result<LuldReferencePriceTier, ParseError> {
    if b == 49 {
        Ok(LuldReferencePriceTier::Tier1)
    } else if b == 50 {
        Ok(LuldReferencePriceTier::Tier2)
    } else if b == 32 {
        Ok(LuldReferencePriceTier::NotAvailable)
    } else {
        Err(ParseError::InvalidLuldReferencePriceTier { invalid_byte: b })
    }
}

impl LuldReferencePriceTier {
    /// Decodes the field's byte.
    pub fn try_from(value: u8) -> (r: Result<Self, ParseError>)
        ensures
            r == spec_luld_reference_price_tier(value),
    {
        match value {
            49 => Ok(LuldReferencePriceTier::Tier1),
            50 => Ok(LuldReferencePriceTier::Tier2),
            32 => Ok(LuldReferencePriceTier::NotAvailable),
            _ => Err(ParseError::InvalidLuldReferencePriceTier { invalid_byte: value }),
        }
    }

    /// The byte this variant encodes to.
    pub fn code(&self) -> (r: u8)
        ensures
            r == spec_luld_reference_price_tier_byte(*self),
            spec_luld_reference_price_tier(r) == Ok::<LuldReferencePriceTier, ParseError>(*self),
    {
        match self {
            LuldReferencePriceTier::Tier1 => 49,
            LuldReferencePriceTier::Tier2 => 50,
            LuldReferencePriceTier::NotAvailable => 32,
        }
    }
}

impl EnumTestHelpers for LuldReferencePriceTier {
    open spec fn spec_valid_code(code: u8) -> bool {
        spec_luld_reference_price_tier(code) is Ok
    }

    fn valid_codes() -> (v: Vec<u8>) {
        let v = vec![49, 50, 32];
        assert(forall|i: int|
            0 <= i < v@.len() ==> #[trigger] Self::spec_valid_code(v@[i]));
        v
    }

    fn generate_example_code() -> (r: u8) {
        let codes = Self::valid_codes();
        let i = rand_below(codes.len());
        codes[i]
    }
}

/// Why trading in a security halted.
#[derive(Debug, Clone, Copy, PartialEq, Eq, Structural)]
pub enum TradingHaltReasonCodes {
    HaltNewsPending,
    HaltNewsDisseminated,
    SingleSecurityTradingPause,
    ExtraordinaryMarketActivity,
    ETFHalt,
    InformationRequested,
    NonCompliance,
    NonCurrentFilings,
    SECTradingSuspension,
    RegulatoryConcern,
    OperationsHalt,
    VolatilityPause,
    VolatilityPauseStraddle,
    Level1CircuitBreaker,
    Level2CircuitBreaker,
    Level3CircuitBreaker,
    CarryOverCircuitBreaker,
    IPONotYetTrading,
    CorporateAction,
    QuotationUnavailable,
    NotAvailable,
}

/// Why trading in a security resumed.
#[derive(Debug, Clone, Copy, PartialEq, Eq, Structural)]
pub enum TradingResumptionReasonCodes {
    NewsAndResumptionTime,
    SingleSecurityPauseOrQuoteOnlyPeriod,
    QualificationIssuesResolved,
    FilingIssuesResolved,
    IssuerNewNotForthcoming,
    QualificationsHaltEndedMaintenanceMet,
    QualificationsHaltConcludedFilingsMet,
    TradeHaltConcluded,
    CircuitBreakerResumption,
    IssueAvailable,
    IPOSecurityQuotationReleased,
    IPOPositioningWindowExtension,
    NotAvailable,
}

/// A trading-action reason: a halt reason or a resumption reason.
#[derive(Debug, Clone, Copy, PartialEq, Eq, Structural)]
pub enum TradingReasonCodes {
    Halt(TradingHaltReasonCodes),
    Resumption(TradingResumptionReasonCodes),
}

/// Meaning of a 4-byte, right-space-padded trading-reason code.
pub open spec fn spec_trading_reason(s: Seq<u8>) -> Result<TradingReasonCodes, ParseError> {
    if s.len() == 4 && s[0] == 84 && s[1] == 49 && s[2] == 32 && s[3] == 32 {
        Ok(TradingReasonCodes::Halt(TradingHaltReasonCodes::HaltNewsPending))
    } else if s.len() == 4 && s[0] == 84 && s[1] == 50 && s[2] == 32 && s[3] == 32 {
        Ok(TradingReasonCodes::Halt(TradingHaltReasonCodes::HaltNewsDisseminated))
    } else if s.len() == 4 && s[0] == 84 && s[1] == 53 && s[2] == 32 && s[3] == 32 {
        Ok(TradingReasonCodes::Halt(TradingHaltReasonCodes::SingleSecurityTradingPause))
    } else if s.len() == 4 && s[0] == 84 && s[1] == 54 && s[2] == 32 && s[3] == 32 {
        Ok(TradingReasonCodes::Halt(TradingHaltReasonCodes::ExtraordinaryMarketActivity))
    } else if s.len() == 4 && s[0] == 84 && s[1] == 56 && s[2] == 32 && s[3] == 32 {
        Ok(TradingReasonCodes::Halt(TradingHaltReasonCodes::ETFHalt))
    } else if s.len() == 4 && s[0] == 84 && s[1] == 49 && s[2] == 50 && s[3] == 32 {
        Ok(TradingReasonCodes::Halt(TradingHaltReasonCodes::InformationRequested))
    } else if s.len() == 4 && s[0] == 72 && s[1] == 52 && s[2] == 32 && s[3] == 32 {
        Ok(TradingReasonCodes::Halt(TradingHaltReasonCodes::NonCompliance))
    } else if s.len() == 4 && s[0] == 72 && s[1] == 57 && s[2] == 32 && s[3] == 32 {
        Ok(TradingReasonCodes::Halt(TradingHaltReasonCodes::NonCurrentFilings))
    } else if s.len() == 4 && s[0] == 72 && s[1] == 49 && s[2] == 48 && s[3] == 32 {
        Ok(TradingReasonCodes::Halt(TradingHaltReasonCodes::SECTradingSuspension))
    } else if s.len() == 4 && s[0] == 72 && s[1] == 49 && s[2] == 49 && s[3] == 32 {
        Ok(TradingReasonCodes::Halt(TradingHaltReasonCodes::RegulatoryConcern))
    } else if s.len() == 4 && s[0] == 79 && s[1] == 49 && s[2] == 32 && s[3] == 32 {
        Ok(TradingReasonCodes::Halt(TradingHaltReasonCodes::OperationsHalt))
    } else if s.len() == 4 && s[0] == 76 && s[1] == 85 && s[2] == 68 && s[3] == 80 {
        Ok(TradingReasonCodes::Halt(TradingHaltReasonCodes::VolatilityPause))
    } else if s.len() == 4 && s[0] == 76 && s[1] == 85 && s[2] == 68 && s[3] == 83 {
        Ok(TradingReasonCodes::Halt(TradingHaltReasonCodes::VolatilityPauseStraddle))
    } else if s.len() == 4 && s[0] == 77 && s[1] == 87 && s[2] == 67 && s[3] == 49 {
        Ok(TradingReasonCodes::Halt(TradingHaltReasonCodes::Level1CircuitBreaker))
    } else if s.len() == 4 && s[0] == 77 && s[1] == 87 && s[2] == 67 && s[3] == 50 {
        Ok(TradingReasonCodes::Halt(TradingHaltReasonCodes::Level2CircuitBreaker))
    } else if s.len() == 4 && s[0] == 77 && s[1] == 87 && s[2] == 67 && s[3] == 51 {
        Ok(TradingReasonCodes::Halt(TradingHaltReasonCodes::Level3CircuitBreaker))
    } else if s.len() == 4 && s[0] == 77 && s[1] == 87 && s[2] == 67 && s[3] == 48 {
        Ok(TradingReasonCodes::Halt(TradingHaltReasonCodes::CarryOverCircuitBreaker))
    } else if s.len() == 4 && s[0] == 73 && s[1] == 80 && s[2] == 79 && s[3] == 49 {
        Ok(TradingReasonCodes::Halt(TradingHaltReasonCodes::IPONotYetTrading))
    } else if s.len() == 4 && s[0] == 77 && s[1] == 49 && s[2] == 32 && s[3] == 32 {
        Ok(TradingReasonCodes::Halt(TradingHaltReasonCodes::CorporateAction))
    } else if s.len() == 4 && s[0] == 77 && s[1] == 50 && s[2] == 32 && s[3] == 32 {
        Ok(TradingReasonCodes::Halt(TradingHaltReasonCodes::QuotationUnavailable))
    } else if s.len() == 4 && s[0] == 32 && s[1] == 32 && s[2] == 32 && s[3] == 32 {
        Ok(TradingReasonCodes::Halt(TradingHaltReasonCodes::NotAvailable))
    } else if s.len() == 4 && s[0] == 84 && s[1] == 51 && s[2] == 32 && s[3] == 32 {
        Ok(TradingReasonCodes::Resumption(TradingResumptionReasonCodes::NewsAndResumptionTime))
    } else if s.len() == 4 && s[0] == 84 && s[1] == 55 && s[2] == 32 && s[3] == 32 {
        Ok(TradingReasonCodes::Resumption(TradingResumptionReasonCodes::SingleSecurityPauseOrQuoteOnlyPeriod))
    } else if s.len() == 4 && s[0] == 82 && s[1] == 52 && s[2] == 32 && s[3] == 32 {
        Ok(TradingReasonCodes::Resumption(TradingResumptionReasonCodes::QualificationIssuesResolved))
    } else if s.len() == 4 && s[0] == 82 && s[1] == 57 && s[2] == 32 && s[3] == 32 {
        Ok(TradingReasonCodes::Resumption(TradingResumptionReasonCodes::FilingIssuesResolved))
    } else if s.len() == 4 && s[0] == 67 && s[1] == 51 && s[2] == 32 && s[3] == 32 {
        Ok(TradingReasonCodes::Resumption(TradingResumptionReasonCodes::IssuerNewNotForthcoming))
    } else if s.len() == 4 && s[0] == 67 && s[1] == 52 && s[2] == 32 && s[3] == 32 {
        Ok(TradingReasonCodes::Resumption(TradingResumptionReasonCodes::QualificationsHaltEndedMaintenanceMet))
    } else if s.len() == 4 && s[0] == 67 && s[1] == 57 && s[2] == 32 && s[3] == 32 {
        Ok(TradingReasonCodes::Resumption(TradingResumptionReasonCodes::QualificationsHaltConcludedFilingsMet))
    } else if s.len() == 4 && s[0] == 67 && s[1] == 49 && s[2] == 49 && s[3] == 32 {
        Ok(TradingReasonCodes::Resumption(TradingResumptionReasonCodes::TradeHaltConcluded))
    } else if s.len() == 4 && s[0] == 77 && s[1] == 87 && s[2] == 67 && s[3] == 81 {
        Ok(TradingReasonCodes::Resumption(TradingResumptionReasonCodes::CircuitBreakerResumption))
    } else if s.len() == 4 && s[0] == 82 && s[1] == 49 && s[2] == 32 && s[3] == 32 {
        Ok(TradingReasonCodes::Resumption(TradingResumptionReasonCodes::IssueAvailable))
    } else if s.len() == 4 && s[0] == 82 && s[1] == 50 && s[2] == 32 && s[3] == 32 {
        Ok(TradingReasonCodes::Resumption(TradingResumptionReasonCodes::IssueAvailable))
    } else if s.len() == 4 && s[0] == 73 && s[1] == 80 && s[2] == 79 && s[3] == 81 {
        Ok(TradingReasonCodes::Resumption(TradingResumptionReasonCodes::IPOSecurityQuotationReleased))
    } else if s.len() == 4 && s[0] == 73 && s[1] == 80 && s[2] == 79 && s[3] == 69 {
        Ok(TradingReasonCodes::Resumption(TradingResumptionReasonCodes::IPOPositioningWindowExtension))
    } else {
        Err(ParseError::InvalidTradingReasonCode)
    }
}

impl TradingReasonCodes {
    /// Decodes a 4-byte, right-space-padded reason code.
    pub fn try_from(value: &[u8]) -> (r: Result<Self, ParseError>)
        ensures
            r == spec_trading_reason(value@),
    {
        if value.len() != 4 {
            return Err(ParseError::InvalidTradingReasonCode);
        }
        let b0 = value[0];
        let b1 = value[1];
        let b2 = value[2];
        let b3 = value[3];
        if b0 == 84 && b1 == 49 && b2 == 32 && b3 == 32 {
            Ok(TradingReasonCodes::Halt(TradingHaltReasonCodes::HaltNewsPending))
        } else if b0 == 84 && b1 == 50 && b2 == 32 && b3 == 32 {
            Ok(TradingReasonCodes::Halt(TradingHaltReasonCodes::HaltNewsDisseminated))
        } else if b0 == 84 && b1 == 53 && b2 == 32 && b3 == 32 {
            Ok(TradingReasonCodes::Halt(TradingHaltReasonCodes::SingleSecurityTradingPause))
        } else if b0 == 84 && b1 == 54 && b2 == 32 && b3 == 32 {
            Ok(TradingReasonCodes::Halt(TradingHaltReasonCodes::ExtraordinaryMarketActivity))
        } else if b0 == 84 && b1 == 56 && b2 == 32 && b3 == 32 {
            Ok(TradingReasonCodes::Halt(TradingHaltReasonCodes::ETFHalt))
        } else if b0 == 84 && b1 == 49 && b2 == 50 && b3 == 32 {
            Ok(TradingReasonCodes::Halt(TradingHaltReasonCodes::InformationRequested))
        } else if b0 == 72 && b1 == 52 && b2 == 32 && b3 == 32 {
            Ok(TradingReasonCodes::Halt(TradingHaltReasonCodes::NonCompliance))
        } else if b0 == 72 && b1 == 57 && b2 == 32 && b3 == 32 {
            Ok(TradingReasonCodes::Halt(TradingHaltReasonCodes::NonCurrentFilings))
        } else if b0 == 72 && b1 == 49 && b2 == 48 && b3 == 32 {
            Ok(TradingReasonCodes::Halt(TradingHaltReasonCodes::SECTradingSuspension))
        } else if b0 == 72 && b1 == 49 && b2 == 49 && b3 == 32 {
            Ok(TradingReasonCodes::Halt(TradingHaltReasonCodes::RegulatoryConcern))
        } else if b0 == 79 && b1 == 49 && b2 == 32 && b3 == 32 {
            Ok(TradingReasonCodes::Halt(TradingHaltReasonCodes::OperationsHalt))
        } else if b0 == 76 && b1 == 85 && b2 == 68 && b3 == 80 {
            Ok(TradingReasonCodes::Halt(TradingHaltReasonCodes::VolatilityPause))
        } else if b0 == 76 && b1 == 85 && b2 == 68 && b3 == 83 {
            Ok(TradingReasonCodes::Halt(TradingHaltReasonCodes::VolatilityPauseStraddle))
        } else if b0 == 77 && b1 == 87 && b2 == 67 && b3 == 49 {
            Ok(TradingReasonCodes::Halt(TradingHaltReasonCodes::Level1CircuitBreaker))
        } else if b0 == 77 && b1 == 87 && b2 == 67 && b3 == 50 {
            Ok(TradingReasonCodes::Halt(TradingHaltReasonCodes::Level2CircuitBreaker))
        } else if b0 == 77 && b1 == 87 && b2 == 67 && b3 == 51 {
            Ok(TradingReasonCodes::Halt(TradingHaltReasonCodes::Level3CircuitBreaker))
        } else if b0 == 77 && b1 == 87 && b2 == 67 && b3 == 48 {
            Ok(TradingReasonCodes::Halt(TradingHaltReasonCodes::CarryOverCircuitBreaker))
        } else if b0 == 73 && b1 == 80 && b2 == 79 && b3 == 49 {
            Ok(TradingReasonCodes::Halt(TradingHaltReasonCodes::IPONotYetTrading))
        } else if b0 == 77 && b1 == 49 && b2 == 32 && b3 == 32 {
            Ok(TradingReasonCodes::Halt(TradingHaltReasonCodes::CorporateAction))
        } else if b0 == 77 && b1 == 50 && b2 == 32 && b3 == 32 {
            Ok(TradingReasonCodes::Halt(TradingHaltReasonCodes::QuotationUnavailable))
        } else if b0 == 32 && b1 == 32 && b2 == 32 && b3 == 32 {
            Ok(TradingReasonCodes::Halt(TradingHaltReasonCodes::NotAvailable))
        } else if b0 == 84 && b1 == 51 && b2 == 32 && b3 == 32 {
            Ok(TradingReasonCodes::Resumption(TradingResumptionReasonCodes::NewsAndResumptionTime))
        } else if b0 == 84 && b1 == 55 && b2 == 32 && b3 == 32 {
            Ok(TradingReasonCodes::Resumption(TradingResumptionReasonCodes::SingleSecurityPauseOrQuoteOnlyPeriod))
        } else if b0 == 82 && b1 == 52 && b2 == 32 && b3 == 32 {
            Ok(TradingReasonCodes::Resumption(TradingResumptionReasonCodes::QualificationIssuesResolved))
        } else if b0 == 82 && b1 == 57 && b2 == 32 && b3 == 32 {
            Ok(TradingReasonCodes::Resumption(TradingResumptionReasonCodes::FilingIssuesResolved))
        } else if b0 == 67 && b1 == 51 && b2 == 32 && b3 == 32 {
            Ok(TradingReasonCodes::Resumption(TradingResumptionReasonCodes::IssuerNewNotForthcoming))
        } else if b0 == 67 && b1 == 52 && b2 == 32 && b3 == 32 {
            Ok(TradingReasonCodes::Resumption(TradingResumptionReasonCodes::QualificationsHaltEndedMaintenanceMet))
        } else if b0 == 67 && b1 == 57 && b2 == 32 && b3 == 32 {
            Ok(TradingReasonCodes::Resumption(TradingResumptionReasonCodes::QualificationsHaltConcludedFilingsMet))
        } else if b0 == 67 && b1 == 49 && b2 == 49 && b3 == 32 {
            Ok(TradingReasonCodes::Resumption(TradingResumptionReasonCodes::TradeHaltConcluded))
        } else if b0 == 77 && b1 == 87 && b2 == 67 && b3 == 81 {
            Ok(TradingReasonCodes::Resumption(TradingResumptionReasonCodes::CircuitBreakerResumption))
        } else if b0 == 82 && b1 == 49 && b2 == 32 && b3 == 32 {
            Ok(TradingReasonCodes::Resumption(TradingResumptionReasonCodes::IssueAvailable))
        } else if b0 == 82 && b1 == 50 && b2 == 32 && b3 == 32 {
            Ok(TradingReasonCodes::Resumption(TradingResumptionReasonCodes::IssueAvailable))
        } else if b0 == 73 && b1 == 80 && b2 == 79 && b3 == 81 {
            Ok(TradingReasonCodes::Resumption(TradingResumptionReasonCodes::IPOSecurityQuotationReleased))
        } else if b0 == 73 && b1 == 80 && b2 == 79 && b3 == 69 {
            Ok(TradingReasonCodes::Resumption(TradingResumptionReasonCodes::IPOPositioningWindowExtension))
        } else {
            Err(ParseError::InvalidTradingReasonCode)
        }
    }

    /// The canonical 4 bytes this reason encodes to.
    pub fn code4(&self) -> (r: [u8; 4])
        ensures
            r@ == spec_trading_reason_code4(*self),
    {
        match self {
            TradingReasonCodes::Halt(TradingHaltReasonCodes::HaltNewsPending) => [84, 49, 32, 32],
            TradingReasonCodes::Halt(TradingHaltReasonCodes::HaltNewsDisseminated) => [84, 50, 32, 32],
            TradingReasonCodes::Halt(TradingHaltReasonCodes::SingleSecurityTradingPause) => [84, 53, 32, 32],
            TradingReasonCodes::Halt(TradingHaltReasonCodes::ExtraordinaryMarketActivity) => [84, 54, 32, 32],
            TradingReasonCodes::Halt(TradingHaltReasonCodes::ETFHalt) => [84, 56, 32, 32],
            TradingReasonCodes::Halt(TradingHaltReasonCodes::InformationRequested) => [84, 49, 50, 32],
            TradingReasonCodes::Halt(TradingHaltReasonCodes::NonCompliance) => [72, 52, 32, 32],
            TradingReasonCodes::Halt(TradingHaltReasonCodes::NonCurrentFilings) => [72, 57, 32, 32],
            TradingReasonCodes::Halt(TradingHaltReasonCodes::SECTradingSuspension) => [72, 49, 48, 32],
            TradingReasonCodes::Halt(TradingHaltReasonCodes::RegulatoryConcern) => [72, 49, 49, 32],
            TradingReasonCodes::Halt(TradingHaltReasonCodes::OperationsHalt) => [79, 49, 32, 32],
            TradingReasonCodes::Halt(TradingHaltReasonCodes::VolatilityPause) => [76, 85, 68, 80],
            TradingReasonCodes::Halt(TradingHaltReasonCodes::VolatilityPauseStraddle) => [76, 85, 68, 83],
            TradingReasonCodes::Halt(TradingHaltReasonCodes::Level1CircuitBreaker) => [77, 87, 67, 49],
            TradingReasonCodes::Halt(TradingHaltReasonCodes::Level2CircuitBreaker) => [77, 87, 67, 50],
            TradingReasonCodes::Halt(TradingHaltReasonCodes::Level3CircuitBreaker) => [77, 87, 67, 51],
            TradingReasonCodes::Halt(TradingHaltReasonCodes::CarryOverCircuitBreaker) => [77, 87, 67, 48],
            TradingReasonCodes::Halt(TradingHaltReasonCodes::IPONotYetTrading) => [73, 80, 79, 49],
            TradingReasonCodes::Halt(TradingHaltReasonCodes::CorporateAction) => [77, 49, 32, 32],
            TradingReasonCodes::Halt(TradingHaltReasonCodes::QuotationUnavailable) => [77, 50, 32, 32],
            TradingReasonCodes::Halt(TradingHaltReasonCodes::NotAvailable) => [32, 32, 32, 32],
            TradingReasonCodes::Resumption(TradingResumptionReasonCodes::NewsAndResumptionTime) => [84, 51, 32, 32],
            TradingReasonCodes::Resumption(TradingResumptionReasonCodes::SingleSecurityPauseOrQuoteOnlyPeriod) => [84, 55, 32, 32],
            TradingReasonCodes::Resumption(TradingResumptionReasonCodes::QualificationIssuesResolved) => [82, 52, 32, 32],
            TradingReasonCodes::Resumption(TradingResumptionReasonCodes::FilingIssuesResolved) => [82, 57, 32, 32],
            TradingReasonCodes::Resumption(TradingResumptionReasonCodes::IssuerNewNotForthcoming) => [67, 51, 32, 32],
            TradingReasonCodes::Resumption(TradingResumptionReasonCodes::QualificationsHaltEndedMaintenanceMet) => [67, 52, 32, 32],
            TradingReasonCodes::Resumption(TradingResumptionReasonCodes::QualificationsHaltConcludedFilingsMet) => [67, 57, 32, 32],
            TradingReasonCodes::Resumption(TradingResumptionReasonCodes::TradeHaltConcluded) => [67, 49, 49, 32],
            TradingReasonCodes::Resumption(TradingResumptionReasonCodes::CircuitBreakerResumption) => [77, 87, 67, 81],
            TradingReasonCodes::Resumption(TradingResumptionReasonCodes::IssueAvailable) => [82, 49, 32, 32],
            TradingReasonCodes::Resumption(TradingResumptionReasonCodes::IPOSecurityQuotationReleased) => [73, 80, 79, 81],
            TradingReasonCodes::Resumption(TradingResumptionReasonCodes::IPOPositioningWindowExtension) => [73, 80, 79, 69],
            TradingReasonCodes::Resumption(TradingResumptionReasonCodes::NotAvailable) => [32, 32, 32, 32],
        }
    }
}

/// The canonical 4-byte form of a trading reason.
pub open spec fn spec_trading_reason_code4(r: TradingReasonCodes) -> Seq<u8> {
    match r {
        TradingReasonCodes::Halt(TradingHaltReasonCodes::HaltNewsPending) => seq![84u8, 49, 32, 32],
        TradingReasonCodes::Halt(TradingHaltReasonCodes::HaltNewsDisseminated) => seq![84u8, 50, 32, 32],
        TradingReasonCodes::Halt(TradingHaltReasonCodes::SingleSecurityTradingPause) => seq![84u8, 53, 32, 32],
        TradingReasonCodes::Halt(TradingHaltReasonCodes::ExtraordinaryMarketActivity) => seq![84u8, 54, 32, 32],
        TradingReasonCodes::Halt(TradingHaltReasonCodes::ETFHalt) => seq![84u8, 56, 32, 32],
        TradingReasonCodes::Halt(TradingHaltReasonCodes::InformationRequested) => seq![84u8, 49, 50, 32],
        TradingReasonCodes::Halt(TradingHaltReasonCodes::NonCompliance) => seq![72u8, 52, 32, 32],
        TradingReasonCodes::Halt(TradingHaltReasonCodes::NonCurrentFilings) => seq![72u8, 57, 32, 32],
        TradingReasonCodes::Halt(TradingHaltReasonCodes::SECTradingSuspension) => seq![72u8, 49, 48, 32],
        TradingReasonCodes::Halt(TradingHaltReasonCodes::RegulatoryConcern) => seq![72u8, 49, 49, 32],
        TradingReasonCodes::Halt(TradingHaltReasonCodes::OperationsHalt) => seq![79u8, 49, 32, 32],
        TradingReasonCodes::Halt(TradingHaltReasonCodes::VolatilityPause) => seq![76u8, 85, 68, 80],
        TradingReasonCodes::Halt(TradingHaltReasonCodes::VolatilityPauseStraddle) => seq![76u8, 85, 68, 83],
        TradingReasonCodes::Halt(TradingHaltReasonCodes::Level1CircuitBreaker) => seq![77u8, 87, 67, 49],
        TradingReasonCodes::Halt(TradingHaltReasonCodes::Level2CircuitBreaker) => seq![77u8, 87, 67, 50],
        TradingReasonCodes::Halt(TradingHaltReasonCodes::Level3CircuitBreaker) => seq![77u8, 87, 67, 51],
        TradingReasonCodes::Halt(TradingHaltReasonCodes::CarryOverCircuitBreaker) => seq![77u8, 87, 67, 48],
        TradingReasonCodes::Halt(TradingHaltReasonCodes::IPONotYetTrading) => seq![73u8, 80, 79, 49],
        TradingReasonCodes::Halt(TradingHaltReasonCodes::CorporateAction) => seq![77u8, 49, 32, 32],
        TradingReasonCodes::Halt(TradingHaltReasonCodes::QuotationUnavailable) => seq![77u8, 50, 32, 32],
        TradingReasonCodes::Halt(TradingHaltReasonCodes::NotAvailable) => seq![32u8, 32, 32, 32],
        TradingReasonCodes::Resumption(TradingResumptionReasonCodes::NewsAndResumptionTime) => seq![84u8, 51, 32, 32],
        TradingReasonCodes::Resumption(TradingResumptionReasonCodes::SingleSecurityPauseOrQuoteOnlyPeriod) => seq![84u8, 55, 32, 32],
        TradingReasonCodes::Resumption(TradingResumptionReasonCodes::QualificationIssuesResolved) => seq![82u8, 52, 32, 32],
        TradingReasonCodes::Resumption(TradingResumptionReasonCodes::FilingIssuesResolved) => seq![82u8, 57, 32, 32],
        TradingReasonCodes::Resumption(TradingResumptionReasonCodes::IssuerNewNotForthcoming) => seq![67u8, 51, 32, 32],
        TradingReasonCodes::Resumption(TradingResumptionReasonCodes::QualificationsHaltEndedMaintenanceMet) => seq![67u8, 52, 32, 32],
        TradingReasonCodes::Resumption(TradingResumptionReasonCodes::QualificationsHaltConcludedFilingsMet) => seq![67u8, 57, 32, 32],
        TradingReasonCodes::Resumption(TradingResumptionReasonCodes::TradeHaltConcluded) => seq![67u8, 49, 49, 32],
        TradingReasonCodes::Resumption(TradingResumptionReasonCodes::CircuitBreakerResumption) => seq![77u8, 87, 67, 81],
        TradingReasonCodes::Resumption(TradingResumptionReasonCodes::IssueAvailable) => seq![82u8, 49, 32, 32],
        TradingReasonCodes::Resumption(TradingResumptionReasonCodes::IPOSecurityQuotationReleased) => seq![73u8, 80, 79, 81],
        TradingReasonCodes::Resumption(TradingResumptionReasonCodes::IPOPositioningWindowExtension) => seq![73u8, 80, 79, 69],
        TradingReasonCodes::Resumption(TradingResumptionReasonCodes::NotAvailable) => seq![32u8, 32, 32, 32],
    }
}

/// Decoding the canonical bytes of a reason gives the reason back, for
/// every reason that some 4-byte code decodes to.
pub proof fn lemma_trading_reason_round_trip(r: TradingReasonCodes)
    requires
        r != TradingReasonCodes::Resumption(TradingResumptionReasonCodes::NotAvailable),
    ensures
        spec_trading_reason(spec_trading_reason_code4(r)) == Ok::<TradingReasonCodes, ParseError>(r),
{
}

/// Price-variation field of the auction-imbalance record: how far the
/// near price deviates from the current reference price. The record
/// itself carries the raw character; this alphabet names its meanings.
#[derive(Debug, Clone, Copy, PartialEq, Eq, Structural)]
pub enum PriceVariationIndicator {
    LessThanOnePercent,
    OnePercent,
    TwoPercent,
    ThreePercent,
    FourPercent,
    FivePercent,
    SixPercent,
    SevenPercent,
    EightPercent,
    NinePercent,
    TenToTwentyPercent,
    TwentyToThirtyPercent,
    ThirtyPercentOrMore,
    NotAvailable,
}

/// The byte each variant of this field encodes to.
pub open spec fn spec_system_event_code_byte(v: SystemEventCode) -> u8 {
    match v {
        SystemEventCode::StartOfMessages => 79,
        SystemEventCode::StartOfSystemHours => 83,
        SystemEventCode::StartOfMarketHours => 81,
        SystemEventCode::EndOfMarketHours => 77,
        SystemEventCode::EndOfSystemHours => 69,
        SystemEventCode::EndOfMessages => 67,
    }
}

/// The byte each variant of this field encodes to.
pub open spec fn spec_market_category_byte(v: MarketCategory) -> u8 {
    match v {
        MarketCategory::NASDAQGlobalSelectMarket => 81,
        MarketCategory::NASDAQGlobalMarket => 71,
        MarketCategory::NASDAQCapitalMarket => 83,
        MarketCategory::NYSE => 78,
        MarketCategory::NYSEArca => 65,
        MarketCategory::NYSEMKT => 80,
        MarketCategory::InvestorsExchange => 86,
        MarketCategory::BATS => 90,
        MarketCategory::Unavailable => 32,
    }
}

/// The byte each variant of this field encodes to.
pub open spec fn spec_authenticity_byte(v: Authenticity) -> u8 {
    match v {
        Authenticity::Production => 80,
        Authenticity::Test => 84,
    }
}

/// The byte each variant of this field encodes to.
pub open spec fn spec_short_sale_threshold_indicator_byte(v: ShortSaleThresholdIndicator) -> u8 {
    match v {
        ShortSaleThresholdIndicator::Restricted => 89,
        ShortSaleThresholdIndicator::NotRestricted => 78,
        ShortSaleThresholdIndicator::NotAvailable => 32,
    }
}

/// The byte each variant of this field encodes to.
pub open spec fn spec_financial_status_indicator_byte(v: FinancialStatusIndicator) -> u8 {
    match v {
        FinancialStatusIndicator::Deficient => 68,
        FinancialStatusIndicator::Delinquent => 69,
        FinancialStatusIndicator::Bankrupt => 81,
        FinancialStatusIndicator::Suspended => 83,
        FinancialStatusIndicator::DeficientAndBankrupt => 71,
        FinancialStatusIndicator::DeficientAndDelinquent => 72,
        FinancialStatusIndicator::DelinquentAndBankrupt => 74,
        FinancialStatusIndicator::DeficientDelinquentAndBankrupt => 75,
        FinancialStatusIndicator::CreationsAndRedemptionsSuspended => 67,
        FinancialStatusIndicator::Normal => 78,
        FinancialStatusIndicator::NotAvailable => 32,
    }
}

/// The byte each variant of this field encodes to.
pub open spec fn spec_trading_state_byte(v: TradingState) -> u8 {
    match v {
        TradingState::Halted => 72,
        TradingState::Paused => 80,
        TradingState::QuotationOnly => 81,
        TradingState::Trading => 84,
    }
}

/// The byte each variant of this field encodes to.
pub open spec fn spec_reg_sho_action_byte(v: RegSHOAction) -> u8 {
    match v {
        RegSHOAction::NoPriceTestInEffect => 48,
        RegSHOAction::RegSHOShortSalePriceTestRestriction => 49,
        RegSHOAction::TestRestrictionRemains => 50,
    }
}

/// The byte each variant of this field encodes to.
pub open spec fn spec_issue_classification_codes_byte(v: IssueClassificationCodes) -> u8 {
    match v {
        IssueClassificationCodes::AmericanDepositaryShare => 65,
        IssueClassificationCodes::Bond => 66,
        IssueClassificationCodes::CommonStock => 67,
        IssueClassificationCodes::DepositoryReceipt => 70,
        IssueClassificationCodes::UnregisteredSecurity => 73,
        IssueClassificationCodes::LimitedPartnership => 76,
        IssueClassificationCodes::Notes => 78,
        IssueClassificationCodes::OrdinaryShare => 79,
        IssueClassificationCodes::PreferredStock => 80,
        IssueClassificationCodes::OtherSecurity => 81,
        IssueClassificationCodes::Right => 82,
        IssueClassificationCodes::ShareOfBeneficialInterest => 83,
        IssueClassificationCodes::ConvertibleDebenture => 84,
        IssueClassificationCodes::Unit => 85,
        IssueClassificationCodes::UnitBenifInt => 86,
        IssueClassificationCodes::Warrant => 87,
    }
}

/// The byte each variant of this field encodes to.
pub open spec fn spec_market_maker_mode_byte(v: MarketMakerMode) -> u8 {
    match v {
        MarketMakerMode::Normal => 78,
        MarketMakerMode::Passive => 80,
        MarketMakerMode::Syndicate => 83,
        MarketMakerMode::PreSyndicate => 82,
        MarketMakerMode::Penalty => 76,
    }
}

/// The byte each variant of this field encodes to.
pub open spec fn spec_market_participant_state_byte(v: MarketParticipantState) -> u8 {
    match v {
        MarketParticipantState::Active => 65,
        MarketParticipantState::ExcusedWithdrawn => 69,
        MarketParticipantState::Withdrawn => 87,
        MarketParticipantState::Suspended => 83,
        MarketParticipantState::Deleted => 68,
    }
}

/// The byte each variant of this field encodes to.
pub open spec fn spec_mwcb_level_byte(v: MWCBLevel) -> u8 {
    match v {
        MWCBLevel::Level1 => 49,
        MWCBLevel::Level2 => 50,
        MWCBLevel::Level3 => 51,
    }
}

/// The byte each variant of this field encodes to.
pub open spec fn spec_ipo_release_qualifier_byte(v: IPOReleaseQualifier) -> u8 {
    match v {
        IPOReleaseQualifier::Anticipated => 65,
        IPOReleaseQualifier::Postponed => 67,
    }
}

/// The byte each variant of this field encodes to.
pub open spec fn spec_buy_sell_indicator_byte(v: BuySellIndicator) -> u8 {
    match v {
        BuySellIndicator::Sell => 83,
        BuySellIndicator::Buy => 66,
    }
}

/// The byte each variant of this field encodes to.
pub open spec fn spec_cross_type_byte(v: CrossType) -> u8 {
    match v {
        CrossType::OpeningCross => 79,
        CrossType::ClosingCross => 67,
        CrossType::IPOCrossOrHaltedSecurity => 72,
        CrossType::IntradayOrPostCloseCross => 73,
    }
}

/// The byte each variant of this field encodes to.
pub open spec fn spec_imbalance_direction_byte(v: ImbalanceDirection) -> u8 {
    match v {
        ImbalanceDirection::BuyImbalance => 66,
        ImbalanceDirection::SellImbalance => 83,
        ImbalanceDirection::NoImbalance => 78,
        ImbalanceDirection::InsufficnetOrdersToCalculate => 79,
    }
}

/// The byte each variant of this field encodes to.
pub open spec fn spec_luld_reference_price_tier_byte(v: LuldReferencePriceTier) -> u8 {
    match v {
        LuldReferencePriceTier::Tier1 => 49,
        LuldReferencePriceTier::Tier2 => 50,
        LuldReferencePriceTier::NotAvailable => 32,
    }
}

} // verus!
