//! The stock-directory registry: binds the 16-bit stock locate code used
//! throughout the feed to the 8-byte ticker and its metadata for the
//! session. The forward map (locate to metadata) and the reverse map
//! (ticker to locate) are kept mutual inverses; registration keeps the
//! first entry and ignores later duplicates.

use vstd::prelude::*;

use crate::bytes::be_u64;
use crate::enums::{
    BoolOrUnavailable, FinancialStatusIndicator, IssueClassificationCodes, LuldReferencePriceTier,
    MarketCategory, ShortSaleThresholdIndicator,
};
use crate::orderbook::StockLocateCode;
use crate::stockmessages::StockDirectory;
use crate::types::Stock;
use std::collections::HashMap;

verus! {

broadcast use vstd::std_specs::hash::group_hash_axioms;

/// One security's metadata, copied from its stock-directory record.
#[derive(Debug, Clone, Copy, PartialEq)]
pub struct StockData {
    pub stock: Stock,
    pub market_category: MarketCategory,
    pub financial_status: FinancialStatusIndicator,
    pub round_lot_size: u32,
    pub round_lots_only: bool,
    pub issue_classification: IssueClassificationCodes,
    pub issue_sub_type: u16,
    pub authenticity: char,
    pub short_sale_threshold_indicator: ShortSaleThresholdIndicator,
    pub ipo_flag: BoolOrUnavailable,
    pub luld_reference_price_tier: LuldReferencePriceTier,
    pub etp_flag: BoolOrUnavailable,
    pub etp_leverage_factor: u32,
    pub inverse_indicator: bool,
}

/// The metadata a stock-directory record carries.
pub open spec fn spec_stock_data(input: StockDirectory) -> StockData {
    StockData {
        stock: input.stock,
        market_category: input.market_category,
        financial_status: input.financial_status_indicator,
        round_lot_size: input.round_lot_size,
        round_lots_only: input.round_lots_only,
        issue_classification: input.issue_classification,
        issue_sub_type: input.issue_sub_type,
        authenticity: input.authenticity,
        short_sale_threshold_indicator: input.short_sale_threshold_indicator,
        ipo_flag: input.ipo_flag,
        luld_reference_price_tier: input.luld_reference_price_tier,
        etp_flag: input.etp_flag,
        etp_leverage_factor: input.etp_leverage_factor,
        inverse_indicator: input.inverse_indicator,
    }
}

impl StockData {
    /// Copies the metadata out of a stock-directory record.
    pub fn new(input: StockDirectory) -> (r: Self)
        ensures
            r == spec_stock_data(input),
    {
        StockData {
            stock: input.stock,
            market_category: input.market_category,
            financial_status: input.financial_status_indicator,
            round_lot_size: input.round_lot_size,
            round_lots_only: input.round_lots_only,
            issue_classification: input.issue_classification,
            issue_sub_type: input.issue_sub_type,
            authenticity: input.authenticity,
            short_sale_threshold_indicator: input.short_sale_threshold_indicator,
            ipo_flag: input.ipo_flag,
            luld_reference_price_tier: input.luld_reference_price_tier,
            etp_flag: input.etp_flag,
            etp_leverage_factor: input.etp_leverage_factor,
            inverse_indicator: input.inverse_indicator,
        }
    }
}

/// The 8 ticker bytes packed big-endian into one integer: the reverse
/// map's key. Two tickers are equal exactly when their keys are.
pub open spec fn spec_stock_key(s: Seq<u8>) -> u64 {
    be_u64(s)
}

/// Packs a ticker into its reverse-map key.
fn stock_key(stock: &Stock) -> (r: u64)
    ensures
        r == spec_stock_key(stock@),
{
    proof {
        broadcast use vstd::array::group_array_axioms;

    }
    ((stock[0] as u64) << 56) | ((stock[1] as u64) << 48) | ((stock[2] as u64) << 40) | ((
    stock[3] as u64) << 32) | ((stock[4] as u64) << 24) | ((stock[5] as u64) << 16) | ((
    stock[6] as u64) << 8) | (stock[7] as u64)
}

/// Packing is injective: equal keys mean byte-wise equal tickers.
pub proof fn lemma_stock_key_injective(a: Seq<u8>, b: Seq<u8>)
    requires
        a.len() == 8,
        b.len() == 8,
        spec_stock_key(a) == spec_stock_key(b),
    ensures
        a =~= b,
{
    let x0 = a[0];
    let x1 = a[1];
    let x2 = a[2];
    let x3 = a[3];
    let x4 = a[4];
    let x5 = a[5];
    let x6 = a[6];
    let x7 = a[7];
    let y0 = b[0];
    let y1 = b[1];
    let y2 = b[2];
    let y3 = b[3];
    let y4 = b[4];
    let y5 = b[5];
    let y6 = b[6];
    let y7 = b[7];
    assert((((x0 as u64) << 56) | ((x1 as u64) << 48) | ((x2 as u64) << 40) | ((x3 as u64) << 32)
        | ((x4 as u64) << 24) | ((x5 as u64) << 16) | ((x6 as u64) << 8) | (x7 as u64) == ((
    y0 as u64) << 56) | ((y1 as u64) << 48) | ((y2 as u64) << 40) | ((y3 as u64) << 32) | ((
    y4 as u64) << 24) | ((y5 as u64) << 16) | ((y6 as u64) << 8) | (y7 as u64)) ==> (x0 == y0 && x1
        == y1 && x2 == y2 && x3 == y3 && x4 == y4 && x5 == y5 && x6 == y6 && x7 == y7))
        by (bit_vector);
}

/// The session's stock directory: locate code to metadata, and ticker
/// (packed) back to locate code.
pub struct StockDirectoryManager {
    pub directory: HashMap<StockLocateCode, StockData>,
    pub stock_to_stock_locate: HashMap<u64, StockLocateCode>,
}

impl StockDirectoryManager {
    /// The forward map's view.
    pub open spec fn dir(&self) -> Map<StockLocateCode, StockData> {
        self.directory@
    }

    /// The reverse map's view.
    pub open spec fn rev(&self) -> Map<u64, StockLocateCode> {
        self.stock_to_stock_locate@
    }

    /// The two maps are mutual inverses: each registered locate's ticker
    /// leads back to it, and each registered ticker's locate leads back
    /// to the ticker.
    pub open spec fn wf(&self) -> bool {
        &&& forall|loc: StockLocateCode| #[trigger]
            self.dir().contains_key(loc) ==> self.rev().contains_key(
                spec_stock_key(self.dir()[loc].stock@),
            ) && self.rev()[spec_stock_key(self.dir()[loc].stock@)] == loc
        &&& forall|k: u64| #[trigger]
            self.rev().contains_key(k) ==> self.dir().contains_key(self.rev()[k])
                && spec_stock_key(self.dir()[self.rev()[k]].stock@) == k
    }

    /// An empty directory.
    pub fn new() -> (r: Self)
        ensures
            r.wf(),
            r.dir() == Map::<StockLocateCode, StockData>::empty(),
            r.rev() == Map::<u64, StockLocateCode>::empty(),
    {
        Self { directory: HashMap::new(), stock_to_stock_locate: HashMap::new() }
    }

    /// Registers a security. The first record for a locate code or a
    /// ticker wins; a duplicate of either leaves the directory as it
    /// was.
    pub fn add_stock(&mut self, message: StockDirectory)
        requires
            old(self).wf(),
        ensures
            final(self).wf(),
            old(self).dir().contains_key(message.header.stock_locate) || old(self).rev().contains_key(
                spec_stock_key(message.stock@),
            ) ==> *final(self) == *old(self),
            !old(self).dir().contains_key(message.header.stock_locate) && !old(self).rev().contains_key(spec_stock_key(message.stock@)) ==> final(self).dir() == old(self).dir().insert(message.header.stock_locate, spec_stock_data(message)) && final(self).rev() == old(self).rev().insert(
                spec_stock_key(message.stock@),
                message.header.stock_locate,
            ),
    {
        let loc = message.header.stock_locate;
        let key = stock_key(&message.stock);
        if self.directory.contains_key(&loc) || self.stock_to_stock_locate.contains_key(&key) {
            return ;
        }
        let data = StockData::new(message);
        self.directory.insert(loc, data);
        self.stock_to_stock_locate.insert(key, loc);
        proof {
            let b0 = *old(self);
            assert forall|l2: StockLocateCode| #[trigger]
                self.dir().contains_key(l2) implies self.rev().contains_key(
                spec_stock_key(self.dir()[l2].stock@),
            ) && self.rev()[spec_stock_key(self.dir()[l2].stock@)] == l2 by {
                if l2 != loc {
                    assert(b0.dir().contains_key(l2));
                    assert(spec_stock_key(b0.dir()[l2].stock@) != key);
                }
            }
            assert forall|k2: u64| #[trigger]
                self.rev().contains_key(k2) implies self.dir().contains_key(self.rev()[k2])
                && spec_stock_key(self.dir()[self.rev()[k2]].stock@) == k2 by {
                if k2 != key {
                    assert(b0.rev().contains_key(k2));
                    assert(b0.rev()[k2] != loc);
                }
            }
        }
    }

    /// The metadata registered under a locate code.
    pub fn get_stock_data(&self, stock_locate: u16) -> (r: Option<StockData>)
        ensures
            r == if self.dir().contains_key(stock_locate) {
                Some(self.dir()[stock_locate])
            } else {
                None::<StockData>
            },
    {
        match self.directory.get(&stock_locate) {
            Some(d) => Some(*d),
            None => None,
        }
    }

    /// The ticker registered under a locate code.
    pub fn locate_to_stock(&self, stock_locate: u16) -> (r: Option<Stock>)
        ensures
            r == if self.dir().contains_key(stock_locate) {
                Some(self.dir()[stock_locate].stock)
            } else {
                None::<Stock>
            },
    {
        match self.directory.get(&stock_locate) {
            Some(d) => Some(d.stock),
            None => None,
        }
    }

    /// The locate code registered under a ticker.
    pub fn stock_to_locate(&self, stock: Stock) -> (r: Option<StockLocateCode>)
        ensures
            r == if self.rev().contains_key(spec_stock_key(stock@)) {
                Some(self.rev()[spec_stock_key(stock@)])
            } else {
                None::<StockLocateCode>
            },
    {
        let key = stock_key(&stock);
        match self.stock_to_stock_locate.get(&key) {
            Some(loc) => Some(*loc),
            None => None,
        }
    }
}

/// Looking a registered ticker up and following the locate code back
/// returns the same ticker: the two directory maps are mutual inverses.
pub proof fn lemma_directory_round_trip(d: StockDirectoryManager, k: u64)
    requires
        d.wf(),
        d.rev().contains_key(k),
    ensures
        d.dir().contains_key(d.rev()[k]),
        spec_stock_key(d.dir()[d.rev()[k]].stock@) == k,
{
}

} // verus!
