//! The order-book engine: per-instrument books of price levels, and the
//! cross-instrument manager with its order-reference side-table.
//!
//! A price level (`PriceBucket`) holds the resting orders at one
//! `(side, price)`; a `LimitOrderBook` holds the levels of one security;
//! the `OrderBookManager` routes each order-lifecycle record to its book
//! through the side-table, which recovers the coordinates that execute,
//! cancel and delete records do not carry.
//!
//! Contracts speak of the structures through map views: a level is a map
//! from order reference to resting order, a side is a map from price to
//! its level's orders.

use vstd::prelude::*;

use crate::addordermessages::AddOrder;
use crate::enums::BuySellIndicator;
use crate::modifyordermessages::{
    OrderCancel, OrderDelete, OrderExecuted, OrderExecutedWithPrice, OrderReplace,
};
use crate::types::{OrderBookError, Price4};
use std::collections::HashMap;

verus! {

broadcast use vstd::std_specs::hash::group_hash_axioms;

pub type StockLocateCode = u16;

type OrderReferenceNumber = u64;

/// No two orders of the sequence share a reference number.
pub open spec fn unique_refs(s: Seq<AddOrder>) -> bool {
    forall|i: int, j: int|
        0 <= i < j < s.len() ==> s[i].order_reference_number != s[j].order_reference_number
}

/// The orders of a level, as a map keyed by reference number.
pub open spec fn seq_orders_map(s: Seq<AddOrder>) -> Map<OrderReferenceNumber, AddOrder>
    decreases s.len(),
{
    if s.len() == 0 {
        Map::empty()
    } else {
        seq_orders_map(s.drop_last()).insert(s.last().order_reference_number, s.last())
    }
}

/// Total shares resting in a sequence of orders.
pub open spec fn sum_shares(s: Seq<AddOrder>) -> int
    decreases s.len(),
{
    if s.len() == 0 {
        0
    } else {
        sum_shares(s.drop_last()) + s.last().shares
    }
}

/// What `seq_orders_map` holds: a key per order, mapped to that order.
proof fn lemma_orders_map(s: Seq<AddOrder>)
    requires
        unique_refs(s),
    ensures
        forall|r: OrderReferenceNumber| #[trigger]
            seq_orders_map(s).contains_key(r) <==> exists|i: int|
                0 <= i < s.len() && s[i].order_reference_number == r,
        forall|i: int|
            0 <= i < s.len() ==> seq_orders_map(s)[#[trigger] s[i].order_reference_number]
                == s[i],
    decreases s.len(),
{
    if s.len() > 0 {
        lemma_orders_map(s.drop_last());
        assert(seq_orders_map(s) == seq_orders_map(s.drop_last()).insert(
            s.last().order_reference_number,
            s.last(),
        ));
        assert(forall|i: int| 0 <= i < s.len() - 1 ==> #[trigger] s.drop_last()[i] == s[i]);
        assert forall|r: OrderReferenceNumber| #[trigger]
            seq_orders_map(s).contains_key(r) implies exists|i: int|
            0 <= i < s.len() && s[i].order_reference_number == r by {
            if r == s.last().order_reference_number {
                assert(s[s.len() - 1].order_reference_number == r);
            } else {
                assert(seq_orders_map(s.drop_last()).contains_key(r));
                let i = choose|i: int|
                    0 <= i < s.drop_last().len() && s.drop_last()[i].order_reference_number == r;
                assert(s.drop_last()[i] == s[i]);
                assert(s[i].order_reference_number == r);
            }
        }
        assert forall|i: int|
            0 <= i < s.len() implies seq_orders_map(s)[#[trigger] s[i].order_reference_number]
            == s[i] by {
            if i < s.len() - 1 {
                assert(s.drop_last()[i] == s[i]);
                assert(s[i].order_reference_number != s.last().order_reference_number);
            }
        }
        assert forall|r: OrderReferenceNumber|
            (exists|i: int|
                0 <= i < s.len() && s[i].order_reference_number == r) implies #[trigger]
            seq_orders_map(s).contains_key(r) by {
            let i = choose|i: int| 0 <= i < s.len() && s[i].order_reference_number == r;
            if i < s.len() - 1 {
                assert(s.drop_last()[i].order_reference_number == r);
            }
        }
    }
}

/// Shares are non-negative and each order's shares are bounded by the sum.
proof fn lemma_sum_shares_bounds(s: Seq<AddOrder>)
    ensures
        sum_shares(s) >= 0,
        forall|i: int| 0 <= i < s.len() ==> #[trigger] s[i].shares <= sum_shares(s),
    decreases s.len(),
{
    if s.len() > 0 {
        lemma_sum_shares_bounds(s.drop_last());
        assert forall|i: int| 0 <= i < s.len() implies #[trigger] s[i].shares <= sum_shares(
            s,
        ) by {
            if i < s.len() - 1 {
                assert(s.drop_last()[i] == s[i]);
            }
        }
    }
}

/// Replacing the order at `i` by one with the same reference updates the
/// map at that reference and shifts the sum by the share difference.
proof fn lemma_orders_update(s: Seq<AddOrder>, i: int, o: AddOrder)
    requires
        unique_refs(s),
        0 <= i < s.len(),
        o.order_reference_number == s[i].order_reference_number,
    ensures
        unique_refs(s.update(i, o)),
        seq_orders_map(s.update(i, o)) == seq_orders_map(s).insert(o.order_reference_number, o),
        sum_shares(s.update(i, o)) == sum_shares(s) - s[i].shares + o.shares,
    decreases s.len(),
{
    let t = s.update(i, o);
    assert(unique_refs(t));
    if i == s.len() - 1 {
        assert(t.drop_last() =~= s.drop_last());
        assert(t.last() == o);
    } else {
        lemma_orders_update(s.drop_last(), i, o);
        assert(t.drop_last() =~= s.drop_last().update(i, o));
        assert(t.last() == s.last());
        assert(seq_orders_map(t) == seq_orders_map(s.drop_last()).insert(
            o.order_reference_number,
            o,
        ).insert(s.last().order_reference_number, s.last()));
        assert(seq_orders_map(s.drop_last()).insert(o.order_reference_number, o).insert(
            s.last().order_reference_number,
            s.last(),
        ) =~= seq_orders_map(s.drop_last()).insert(s.last().order_reference_number, s.last()).insert(
            o.order_reference_number,
            o,
        ));
    }
}

/// Removing the order at `i` removes its reference from the map and its
/// shares from the sum.
proof fn lemma_orders_remove(s: Seq<AddOrder>, i: int)
    requires
        unique_refs(s),
        0 <= i < s.len(),
    ensures
        unique_refs(s.remove(i)),
        seq_orders_map(s.remove(i)) == seq_orders_map(s).remove(s[i].order_reference_number),
        sum_shares(s.remove(i)) == sum_shares(s) - s[i].shares,
    decreases s.len(),
{
    let t = s.remove(i);
    assert(unique_refs(t));
    if i == s.len() - 1 {
        assert(t =~= s.drop_last());
        lemma_orders_map(s.drop_last());
        assert(!seq_orders_map(s.drop_last()).contains_key(s[i].order_reference_number));
        assert(seq_orders_map(s.drop_last()).remove(s[i].order_reference_number)
            =~= seq_orders_map(s.drop_last()));
        assert(seq_orders_map(s).remove(s[i].order_reference_number) =~= seq_orders_map(
            s.drop_last(),
        ));
    } else {
        lemma_orders_remove(s.drop_last(), i);
        assert(t.drop_last() =~= s.drop_last().remove(i));
        assert(t.last() == s.last());
        assert(seq_orders_map(t) == seq_orders_map(s.drop_last()).remove(
            s[i].order_reference_number,
        ).insert(s.last().order_reference_number, s.last()));
        assert(seq_orders_map(s.drop_last()).remove(s[i].order_reference_number).insert(
            s.last().order_reference_number,
            s.last(),
        ) =~= seq_orders_map(s.drop_last()).insert(s.last().order_reference_number, s.last()).remove(
            s[i].order_reference_number,
        ));
    }
}

/// A price level: the total resting shares and the orders at this
/// `(side, price)`, each reference present at most once.
pub struct PriceBucket {
    pub share_quantity: u32,
    pub orders: Vec<AddOrder>,
}

impl PriceBucket {
    /// The level's orders as a map keyed by reference number.
    pub open spec fn view_orders(&self) -> Map<OrderReferenceNumber, AddOrder> {
        seq_orders_map(self.orders@)
    }

    /// References are unique and the share count is exactly the sum of
    /// the resting orders' shares.
    pub open spec fn wf(&self) -> bool {
        unique_refs(self.orders@) && self.share_quantity == sum_shares(self.orders@)
    }

    /// An empty level.
    pub fn new() -> (r: Self)
        ensures
            r.wf(),
            r.orders@.len() == 0,
            r.view_orders() == Map::<OrderReferenceNumber, AddOrder>::empty(),
            r.share_quantity == 0,
    {
        Self { share_quantity: 0, orders: Vec::new() }
    }

    /// The position of the order with reference `r`, if it rests here.
    fn find(&self, r: OrderReferenceNumber) -> (pos: Option<usize>)
        ensures
            match pos {
                Some(i) => i < self.orders@.len() && self.orders@[i as int].order_reference_number
                    == r,
                None => forall|i: int|
                    0 <= i < self.orders@.len() ==> self.orders@[i].order_reference_number != r,
            },
    {
        let mut i: usize = 0;
        while i < self.orders.len()
            invariant
                i <= self.orders@.len(),
                forall|j: int| 0 <= j < i ==> self.orders@[j].order_reference_number != r,
            decreases self.orders@.len() - i,
        {
            if self.orders[i].order_reference_number == r {
                return Some(i);
            }
            i = i + 1;
        }
        None
    }

    /// Adds a fresh resting order. Fails with `DuplicateOrder`, touching
    /// nothing, when the reference already rests here.
    pub fn add_order(&mut self, order: AddOrder) -> (r: Result<(), OrderBookError>)
        requires
            old(self).wf(),
            sum_shares(old(self).orders@) + order.shares <= u32::MAX,
        ensures
            final(self).wf(),
            old(self).view_orders().contains_key(order.order_reference_number) ==> r == Err::<
                (),
                OrderBookError,
            >(OrderBookError::DuplicateOrder) && *final(self) == *old(self),
            !old(self).view_orders().contains_key(order.order_reference_number) ==> r == Ok::<
                (),
                OrderBookError,
            >(()) && final(self).view_orders() == old(self).view_orders().insert(
                order.order_reference_number,
                order,
            ) && final(self).orders@.len() == old(self).orders@.len() + 1
                && final(self).share_quantity == old(self).share_quantity + order.shares,
    {
        proof {
            lemma_orders_map(self.orders@);
        }
        match self.find(order.order_reference_number) {
            Some(_) => Err(OrderBookError::DuplicateOrder),
            None => {
                proof {
                    lemma_sum_shares_bounds(self.orders@);
                    assert(self.orders@.push(order).drop_last() =~= self.orders@);
                }
                self.share_quantity = self.share_quantity + order.shares;
                self.orders.push(order);
                Ok(())
            },
        }
    }

    /// Debits `cancelled_shares` from a resting order and returns the
    /// shares that remain. Fails, touching nothing, with
    /// `NonExistentOrder` when the reference does not rest here and with
    /// `InvalidCancellation` when more shares are cancelled than rest.
    /// When a cancellation (not an execution) empties the order, the
    /// order leaves the level.
    #[verifier::rlimit(100)]
    #[verifier::spinoff_prover]
    pub fn cancel_order(
        &mut self,
        order_reference_number: OrderReferenceNumber,
        cancelled_shares: u32,
        order_cancellation: bool,
    ) -> (r: Result<u32, OrderBookError>)
        requires
            old(self).wf(),
        ensures
            final(self).wf(),
            !old(self).view_orders().contains_key(order_reference_number) ==> r == Err::<
                u32,
                OrderBookError,
            >(OrderBookError::NonExistentOrder) && *final(self) == *old(self),
            old(self).view_orders().contains_key(order_reference_number) && cancelled_shares > old(self).view_orders()[order_reference_number].shares ==> r == Err::<u32, OrderBookError>(
                OrderBookError::InvalidCancellation,
            ) && *final(self) == *old(self),
            old(self).view_orders().contains_key(order_reference_number) && cancelled_shares <= old(self).view_orders()[order_reference_number].shares ==> {
                let o = old(self).view_orders()[order_reference_number];
                let remaining = (o.shares - cancelled_shares) as u32;
                &&& r == Ok::<u32, OrderBookError>(remaining)
                &&& final(self).share_quantity == old(self).share_quantity - cancelled_shares
                &&& (if remaining == 0 && order_cancellation {
                    final(self).view_orders() == old(self).view_orders().remove(
                        order_reference_number,
                    ) && final(self).orders@.len() == old(self).orders@.len() - 1
                } else {
                    final(self).view_orders() == old(self).view_orders().insert(
                        order_reference_number,
                        AddOrder { shares: remaining, ..o },
                    ) && final(self).orders@.len() == old(self).orders@.len()
                })
            },
    {
        proof {
            lemma_orders_map(self.orders@);
        }
        match self.find(order_reference_number) {
            None => Err(OrderBookError::NonExistentOrder),
            Some(i) => {
                let o = self.orders[i];
                if cancelled_shares > o.shares {
                    return Err(OrderBookError::InvalidCancellation);
                }
                proof {
                    lemma_sum_shares_bounds(self.orders@);
                }
                let remaining = o.shares - cancelled_shares;
                if remaining == 0 && order_cancellation {
                    proof {
                        lemma_orders_remove(self.orders@, i as int);
                    }
                    self.orders.remove(i);
                    self.share_quantity = self.share_quantity - cancelled_shares;
                } else {
                    let updated = AddOrder { shares: remaining, ..o };
                    proof {
                        lemma_orders_update(self.orders@, i as int, updated);
                    }
                    self.orders.set(i, updated);
                    self.share_quantity = self.share_quantity - cancelled_shares;
                }
                Ok(remaining)
            },
        }
    }

    /// Removes a resting order outright and returns it. Fails with
    /// `NonExistentOrder`, touching nothing, when the reference does not
    /// rest here.
    pub fn delete_order(&mut self, order_reference_number: OrderReferenceNumber) -> (r: Result<
        AddOrder,
        OrderBookError,
    >)
        requires
            old(self).wf(),
        ensures
            final(self).wf(),
            !old(self).view_orders().contains_key(order_reference_number) ==> r == Err::<
                AddOrder,
                OrderBookError,
            >(OrderBookError::NonExistentOrder) && *final(self) == *old(self),
            old(self).view_orders().contains_key(order_reference_number) ==> {
                let o = old(self).view_orders()[order_reference_number];
                &&& r == Ok::<AddOrder, OrderBookError>(o)
                &&& final(self).view_orders() == old(self).view_orders().remove(
                    order_reference_number,
                )
                &&& final(self).orders@.len() == old(self).orders@.len() - 1
                &&& final(self).share_quantity == old(self).share_quantity - o.shares
            },
    {
        proof {
            lemma_orders_map(self.orders@);
        }
        match self.find(order_reference_number) {
            None => Err(OrderBookError::NonExistentOrder),
            Some(i) => {
                proof {
                    lemma_sum_shares_bounds(self.orders@);
                    lemma_orders_remove(self.orders@, i as int);
                }
                let o = self.orders.remove(i);
                self.share_quantity = self.share_quantity - o.shares;
                Ok(o)
            },
        }
    }
}

/// No two levels of the sequence share a price.
pub open spec fn unique_prices(s: Seq<(u32, PriceBucket)>) -> bool {
    forall|i: int, j: int| 0 <= i < j < s.len() ==> s[i].0 != s[j].0
}

/// The levels of one side, as a map from price to the level's orders.
pub open spec fn seq_levels_map(s: Seq<(u32, PriceBucket)>) -> Map<u32, Seq<AddOrder>>
    decreases s.len(),
{
    if s.len() == 0 {
        Map::empty()
    } else {
        seq_levels_map(s.drop_last()).insert(s.last().0, s.last().1.orders@)
    }
}

/// The orders resting at price `p` on a side; empty when no level is there.
pub open spec fn level_orders_seq(s: Seq<(u32, PriceBucket)>, p: u32) -> Seq<AddOrder> {
    if seq_levels_map(s).contains_key(p) {
        seq_levels_map(s)[p]
    } else {
        Seq::empty()
    }
}

/// The orders at price `p`, keyed by reference number.
pub open spec fn side_orders(s: Seq<(u32, PriceBucket)>, p: u32) -> Map<
    OrderReferenceNumber,
    AddOrder,
> {
    seq_orders_map(level_orders_seq(s, p))
}

/// Total shares resting at price `p`.
pub open spec fn side_shares(s: Seq<(u32, PriceBucket)>, p: u32) -> int {
    sum_shares(level_orders_seq(s, p))
}

/// Whether a level stands at price `p`.
pub open spec fn side_has(s: Seq<(u32, PriceBucket)>, p: u32) -> bool {
    seq_levels_map(s).contains_key(p)
}

/// Well-formedness of one side: level prices are unique; every level is a
/// well-formed, non-empty bucket; every order in a level carries the
/// level's price and the side.
pub open spec fn side_wf(s: Seq<(u32, PriceBucket)>, side: BuySellIndicator) -> bool {
    &&& unique_prices(s)
    &&& forall|i: int|
        0 <= i < s.len() ==> (#[trigger] s[i]).1.wf() && s[i].1.orders@.len() > 0
    &&& forall|i: int, k: int|
        0 <= i < s.len() && 0 <= k < s[i].1.orders@.len() ==> (#[trigger] s[i].1.orders@[k]).price.value
            == s[i].0 && s[i].1.orders@[k].buy_sell_indicator == side
}

/// What `seq_levels_map` holds: a key per level, mapped to its orders.
proof fn lemma_levels_map(s: Seq<(u32, PriceBucket)>)
    requires
        unique_prices(s),
    ensures
        forall|p: u32| #[trigger]
            seq_levels_map(s).contains_key(p) <==> exists|i: int| 0 <= i < s.len() && s[i].0 == p,
        forall|i: int|
            0 <= i < s.len() ==> seq_levels_map(s)[#[trigger] s[i].0] == s[i].1.orders@,
    decreases s.len(),
{
    if s.len() > 0 {
        lemma_levels_map(s.drop_last());
        assert(seq_levels_map(s) == seq_levels_map(s.drop_last()).insert(
            s.last().0,
            s.last().1.orders@,
        ));
        assert(forall|i: int| 0 <= i < s.len() - 1 ==> #[trigger] s.drop_last()[i] == s[i]);
        assert forall|p: u32| #[trigger]
            seq_levels_map(s).contains_key(p) implies exists|i: int|
            0 <= i < s.len() && s[i].0 == p by {
            if p == s.last().0 {
                assert(s[s.len() - 1].0 == p);
            } else {
                assert(seq_levels_map(s.drop_last()).contains_key(p));
                let i = choose|i: int| 0 <= i < s.drop_last().len() && s.drop_last()[i].0 == p;
                assert(s[i].0 == p);
            }
        }
        assert forall|i: int|
            0 <= i < s.len() implies seq_levels_map(s)[#[trigger] s[i].0] == s[i].1.orders@ by {
            if i < s.len() - 1 {
                assert(s.drop_last()[i] == s[i]);
                assert(seq_levels_map(s.drop_last())[s.drop_last()[i].0]
                    == s.drop_last()[i].1.orders@);
                assert(s[i].0 != s.last().0);
            }
        }
        assert forall|p: u32|
            (exists|i: int| 0 <= i < s.len() && s[i].0 == p) implies #[trigger] seq_levels_map(
            s,
        ).contains_key(p) by {
            let i = choose|i: int| 0 <= i < s.len() && s[i].0 == p;
            if i < s.len() - 1 {
                assert(s.drop_last()[i].0 == p);
            }
        }
    }
}

/// Removing the level at `i` removes its price from the map.
proof fn lemma_levels_remove(s: Seq<(u32, PriceBucket)>, i: int)
    requires
        unique_prices(s),
        0 <= i < s.len(),
    ensures
        unique_prices(s.remove(i)),
        seq_levels_map(s.remove(i)) == seq_levels_map(s).remove(s[i].0),
    decreases s.len(),
{
    let t = s.remove(i);
    assert(unique_prices(t));
    if i == s.len() - 1 {
        assert(t =~= s.drop_last());
        lemma_levels_map(s.drop_last());
        assert(!seq_levels_map(s.drop_last()).contains_key(s[i].0));
        assert(seq_levels_map(s.drop_last()).remove(s[i].0) =~= seq_levels_map(s.drop_last()));
        assert(seq_levels_map(s).remove(s[i].0) =~= seq_levels_map(s.drop_last()));
    } else {
        lemma_levels_remove(s.drop_last(), i);
        assert(t.drop_last() =~= s.drop_last().remove(i));
        assert(t.last() == s.last());
        assert(seq_levels_map(t) == seq_levels_map(s.drop_last()).remove(s[i].0).insert(
            s.last().0,
            s.last().1.orders@,
        ));
        assert(seq_levels_map(s.drop_last()).remove(s[i].0).insert(s.last().0, s.last().1.orders@)
            =~= seq_levels_map(s.drop_last()).insert(s.last().0, s.last().1.orders@).remove(
            s[i].0,
        ));
    }
}

/// Appending a level with a price not yet present inserts it in the map.
proof fn lemma_levels_push(s: Seq<(u32, PriceBucket)>, p: u32, b: PriceBucket)
    requires
        unique_prices(s),
        !side_has(s, p),
    ensures
        unique_prices(s.push((p, b))),
        seq_levels_map(s.push((p, b))) == seq_levels_map(s).insert(p, b.orders@),
{
    lemma_levels_map(s);
    let t = s.push((p, b));
    assert(forall|i: int| 0 <= i < s.len() ==> #[trigger] t[i] == s[i]);
    assert(forall|i: int| 0 <= i < s.len() ==> s[i].0 != p);
    assert(unique_prices(t));
    assert(t.drop_last() =~= s);
    assert(t.last() == (p, b));
}

/// The orders of every well-formed, side-consistent level are pinned by
/// the level map: each order rests under its own reference, at the
/// level's price, on the level's side.
proof fn lemma_side_orders_fields(s: Seq<(u32, PriceBucket)>, side: BuySellIndicator, p: u32)
    requires
        side_wf(s, side),
    ensures
        unique_refs(level_orders_seq(s, p)),
        forall|k: int|
            0 <= k < level_orders_seq(s, p).len() ==> (#[trigger] level_orders_seq(s, p)[k]).price.value
                == p && level_orders_seq(s, p)[k].buy_sell_indicator == side,
        forall|r: OrderReferenceNumber| #[trigger]
            side_orders(s, p).contains_key(r) ==> side_orders(s, p)[r].price.value == p
                && side_orders(s, p)[r].buy_sell_indicator == side
                && side_orders(s, p)[r].order_reference_number == r,
        side_has(s, p) ==> level_orders_seq(s, p).len() > 0,
        side_has(s, p) ==> exists|r: OrderReferenceNumber| #[trigger]
            side_orders(s, p).contains_key(r),
        side_shares(s, p) >= 0,
        forall|r: OrderReferenceNumber| #[trigger]
            side_orders(s, p).contains_key(r) ==> side_orders(s, p)[r].shares <= side_shares(s, p),
{
    lemma_levels_map(s);
    if side_has(s, p) {
        let i = choose|i: int| 0 <= i < s.len() && s[i].0 == p;
        assert(level_orders_seq(s, p) == s[i].1.orders@);
        assert(s[i].1.wf());
    }
    let lo = level_orders_seq(s, p);
    lemma_orders_map(lo);
    lemma_sum_shares_bounds(lo);
    if side_has(s, p) {
        assert(side_orders(s, p).contains_key(lo[0].order_reference_number));
    }
    assert forall|r: OrderReferenceNumber| #[trigger]
        side_orders(s, p).contains_key(r) implies side_orders(s, p)[r].price.value == p
        && side_orders(s, p)[r].buy_sell_indicator == side
        && side_orders(s, p)[r].order_reference_number == r && side_orders(s, p)[r].shares
        <= side_shares(s, p) by {
        let k = choose|k: int| 0 <= k < lo.len() && lo[k].order_reference_number == r;
        assert(side_orders(s, p)[r] == lo[k]);
    }
}

/// The position of the level at `price`, if one stands on this side.
fn find_level(levels: &Vec<(u32, PriceBucket)>, price: u32) -> (pos: Option<usize>)
    ensures
        match pos {
            Some(i) => i < levels@.len() && levels@[i as int].0 == price,
            None => forall|i: int| 0 <= i < levels@.len() ==> levels@[i].0 != price,
        },
{
    let mut i: usize = 0;
    while i < levels.len()
        invariant
            i <= levels@.len(),
            forall|j: int| 0 <= j < i ==> levels@[j].0 != price,
        decreases levels@.len() - i,
    {
        if levels[i].0 == price {
            return Some(i);
        }
        i = i + 1;
    }
    None
}

/// All views of one side agree between two level sequences whose maps are
/// equal.
proof fn lemma_side_views_from_map(s1: Seq<(u32, PriceBucket)>, s2: Seq<(u32, PriceBucket)>)
    requires
        seq_levels_map(s1) == seq_levels_map(s2),
    ensures
        forall|p: u32| #[trigger] side_orders(s1, p) == side_orders(s2, p),
        forall|p: u32| #[trigger] side_shares(s1, p) == side_shares(s2, p),
        forall|p: u32| #[trigger] side_has(s1, p) == side_has(s2, p),
        forall|p: u32| #[trigger] level_orders_seq(s1, p) == level_orders_seq(s2, p),
{
}

/// Elementwise facts of a bucket whose order map is known: used to carry
/// price and side consistency through a mutation.
proof fn lemma_bucket_fields(b: PriceBucket, p: u32, side: BuySellIndicator)
    requires
        b.wf(),
        forall|r: OrderReferenceNumber| #[trigger]
            b.view_orders().contains_key(r) ==> b.view_orders()[r].price.value == p
                && b.view_orders()[r].buy_sell_indicator == side,
    ensures
        forall|k: int|
            0 <= k < b.orders@.len() ==> (#[trigger] b.orders@[k]).price.value == p
                && b.orders@[k].buy_sell_indicator == side,
{
    lemma_orders_map(b.orders@);
    assert forall|k: int|
        0 <= k < b.orders@.len() implies (#[trigger] b.orders@[k]).price.value == p
        && b.orders@[k].buy_sell_indicator == side by {
        assert(b.view_orders().contains_key(b.orders@[k].order_reference_number));
        assert(b.view_orders()[b.orders@[k].order_reference_number] == b.orders@[k]);
    }
}

/// Adds an order to its price level on one side, creating the level if
/// none stands there. Fails with `DuplicateOrder`, changing no view, when
/// the reference already rests at that level.
fn side_add(levels: &mut Vec<(u32, PriceBucket)>, order: AddOrder, side: BuySellIndicator) -> (r:
    Result<(), OrderBookError>)
    requires
        side_wf(old(levels)@, side),
        order.buy_sell_indicator == side,
        side_shares(old(levels)@, order.price.value) + order.shares <= u32::MAX,
    ensures
        side_wf(final(levels)@, side),
        side_orders(old(levels)@, order.price.value).contains_key(order.order_reference_number)
            ==> r == Err::<(), OrderBookError>(OrderBookError::DuplicateOrder) && seq_levels_map(
            final(levels)@,
        ) == seq_levels_map(old(levels)@),
        !side_orders(old(levels)@, order.price.value).contains_key(order.order_reference_number)
            ==> {
            let p = order.price.value;
            &&& r == Ok::<(), OrderBookError>(())
            &&& side_orders(final(levels)@, p) == side_orders(old(levels)@, p).insert(
                order.order_reference_number,
                order,
            )
            &&& side_shares(final(levels)@, p) == side_shares(old(levels)@, p) + order.shares
            &&& side_has(final(levels)@, p)
            &&& level_orders_seq(final(levels)@, p).len() == level_orders_seq(
                old(levels)@,
                p,
            ).len() + 1
            &&& forall|p2: u32|
                p2 != p ==> #[trigger] side_orders(final(levels)@, p2) == side_orders(
                    old(levels)@,
                    p2,
                ) && side_shares(final(levels)@, p2) == side_shares(old(levels)@, p2) && side_has(
                    final(levels)@,
                    p2,
                ) == side_has(old(levels)@, p2) && level_orders_seq(final(levels)@, p2)
                    == level_orders_seq(old(levels)@, p2)
        },
{
    let p = order.price.value;
    let ghost s0 = levels@;
    proof {
        lemma_levels_map(s0);
        lemma_side_orders_fields(s0, side, p);
    }
    match find_level(levels, p) {
        Some(i) => {
            proof {
                lemma_levels_remove(s0, i as int);
            }
            let (pp, mut bucket) = levels.remove(i);
            proof {
                assert(level_orders_seq(s0, p) == bucket.orders@);
            }
            let res = bucket.add_order(order);
            let ghost s1 = levels@;
            proof {
                assert(!side_has(s1, p));
                lemma_levels_push(s1, p, bucket);
            }
            match res {
                Err(e) => {
                    levels.push((pp, bucket));
                    proof {
                        assert(seq_levels_map(levels@) =~= seq_levels_map(s0));
                        lemma_side_views_from_map(levels@, s0);
                        assert forall|j: int|
                            0 <= j < levels@.len() implies (#[trigger] levels@[j]).1.wf() && levels@[j].1.orders@.len() > 0 by {
                            if j < s1.len() {
                                assert(levels@[j] == s1[j]);
                            }
                        }
                        assert(side_wf(levels@, side));
                    }
                    Err(e)
                },
                Ok(()) => {
                    levels.push((pp, bucket));
                    proof {
                        assert(seq_levels_map(levels@) == seq_levels_map(s0).remove(
                            p,
                        ).insert(p, bucket.orders@));
                        assert(seq_levels_map(levels@) =~= seq_levels_map(s0).insert(
                            p,
                            bucket.orders@,
                        ));
                        assert(level_orders_seq(levels@, p) == bucket.orders@);
                        assert forall|p2: u32| p2 != p implies #[trigger] level_orders_seq(
                            levels@,
                            p2,
                        ) == level_orders_seq(s0, p2) by {}
                        lemma_bucket_fields(bucket, p, side);
                        assert forall|j: int|
                            0 <= j < levels@.len() implies (#[trigger] levels@[j]).1.wf() && levels@[j].1.orders@.len() > 0 by {
                            if j < s1.len() {
                                assert(levels@[j] == s1[j]);
                            }
                        }
                        assert forall|j: int, k: int|
                            0 <= j < levels@.len() && 0 <= k < levels@[j].1.orders@.len() implies (#[trigger] levels@[j].1.orders@[k]).price.value == levels@[j].0 && levels@[j].1.orders@[k].buy_sell_indicator == side by {
                            if j < s1.len() {
                                assert(levels@[j] == s1[j]);
                            }
                        }
                        assert(side_wf(levels@, side));
                    }
                    Ok(())
                },
            }
        },
        None => {
            proof {
                assert(!side_has(s0, p));
                assert(level_orders_seq(s0, p) == Seq::<AddOrder>::empty());
                assert(side_orders(s0, p) == Map::<OrderReferenceNumber, AddOrder>::empty());
                assert(!side_orders(s0, p).contains_key(order.order_reference_number));
            }
            let mut bucket = PriceBucket::new();
            let res = bucket.add_order(order);
            proof {
                assert(res is Ok);
                lemma_levels_push(s0, p, bucket);
            }
            levels.push((p, bucket));
            proof {
                assert(level_orders_seq(levels@, p) == bucket.orders@);
                assert forall|p2: u32| p2 != p implies #[trigger] level_orders_seq(
                    levels@,
                    p2,
                ) == level_orders_seq(s0, p2) by {}
                assert(side_orders(levels@, p) =~= side_orders(s0, p).insert(
                    order.order_reference_number,
                    order,
                ));
                lemma_bucket_fields(bucket, p, side);
                assert forall|j: int|
                    0 <= j < levels@.len() implies (#[trigger] levels@[j]).1.wf()
                    && levels@[j].1.orders@.len() > 0 by {
                    if j < s0.len() {
                        assert(levels@[j] == s0[j]);
                    }
                }
                assert forall|j: int, k: int|
                    0 <= j < levels@.len() && 0 <= k < levels@[j].1.orders@.len() implies (#[trigger] levels@[j].1.orders@[k]).price.value == levels@[j].0 && levels@[j].1.orders@[k].buy_sell_indicator == side by {
                    if j < s0.len() {
                        assert(levels@[j] == s0[j]);
                    }
                }
                assert(side_wf(levels@, side));
            }
            Ok(())
        },
    }
}

/// Debits shares from the order at `(p, r)` on one side, removing the
/// order when a cancellation empties it, and the level when the order
/// was its last. Returns the shares that remain.
fn side_cancel(
    levels: &mut Vec<(u32, PriceBucket)>,
    r: OrderReferenceNumber,
    cancelled_shares: u32,
    p: u32,
    side: BuySellIndicator,
    order_cancellation: bool,
) -> (res: Result<u32, OrderBookError>)
    requires
        side_wf(old(levels)@, side),
    ensures
        side_wf(final(levels)@, side),
        !side_orders(old(levels)@, p).contains_key(r) ==> res == Err::<u32, OrderBookError>(
            OrderBookError::NonExistentOrder,
        ) && seq_levels_map(final(levels)@) == seq_levels_map(old(levels)@),
        side_orders(old(levels)@, p).contains_key(r) && cancelled_shares > side_orders(
            old(levels)@,
            p,
        )[r].shares ==> res == Err::<u32, OrderBookError>(OrderBookError::InvalidCancellation)
            && seq_levels_map(final(levels)@) == seq_levels_map(old(levels)@),
        side_orders(old(levels)@, p).contains_key(r) && cancelled_shares <= side_orders(
            old(levels)@,
            p,
        )[r].shares ==> {
            let o = side_orders(old(levels)@, p)[r];
            let remaining = (o.shares - cancelled_shares) as u32;
            &&& res == Ok::<u32, OrderBookError>(remaining)
            &&& side_shares(final(levels)@, p) == side_shares(old(levels)@, p) - cancelled_shares
            &&& (if remaining == 0 && order_cancellation {
                side_orders(final(levels)@, p) == side_orders(old(levels)@, p).remove(r)
                    && level_orders_seq(final(levels)@, p).len() == level_orders_seq(
                    old(levels)@,
                    p,
                ).len() - 1 && (side_has(final(levels)@, p) <==> level_orders_seq(
                    old(levels)@,
                    p,
                ).len() > 1)
            } else {
                side_orders(final(levels)@, p) == side_orders(old(levels)@, p).insert(
                    r,
                    AddOrder { shares: remaining, ..o },
                ) && level_orders_seq(final(levels)@, p).len() == level_orders_seq(
                    old(levels)@,
                    p,
                ).len() && side_has(final(levels)@, p)
            })
            &&& forall|p2: u32|
                p2 != p ==> #[trigger] side_orders(final(levels)@, p2) == side_orders(
                    old(levels)@,
                    p2,
                ) && side_shares(final(levels)@, p2) == side_shares(old(levels)@, p2) && side_has(
                    final(levels)@,
                    p2,
                ) == side_has(old(levels)@, p2) && level_orders_seq(final(levels)@, p2)
                    == level_orders_seq(old(levels)@, p2)
        },
{
    let ghost s0 = levels@;
    proof {
        lemma_levels_map(s0);
        lemma_side_orders_fields(s0, side, p);
    }
    match find_level(levels, p) {
        None => {
            proof {
                assert(level_orders_seq(s0, p) == Seq::<AddOrder>::empty());
                assert(!side_orders(s0, p).contains_key(r));
            }
            Err(OrderBookError::NonExistentOrder)
        },
        Some(i) => {
            proof {
                lemma_levels_remove(s0, i as int);
            }
            let (pp, mut bucket) = levels.remove(i);
            proof {
                assert(level_orders_seq(s0, p) == bucket.orders@);
                assert(!side_has(levels@, p));
            }
            let res = bucket.cancel_order(r, cancelled_shares, order_cancellation);
            let ghost s1 = levels@;
            match res {
                Err(e) => {
                    proof {
                        lemma_levels_push(s1, p, bucket);
                    }
                    levels.push((pp, bucket));
                    proof {
                        assert(seq_levels_map(levels@) =~= seq_levels_map(s0));
                        lemma_side_views_from_map(levels@, s0);
                        assert forall|j: int|
                            0 <= j < levels@.len() implies (#[trigger] levels@[j]).1.wf()
                            && levels@[j].1.orders@.len() > 0 by {
                            if j < s1.len() {
                                assert(levels@[j] == s1[j]);
                            }
                        }
                        assert forall|j: int, k: int|
                            0 <= j < levels@.len() && 0 <= k
                                < levels@[j].1.orders@.len() implies (#[trigger] levels@[j].1.orders@[k]).price.value
                            == levels@[j].0 && levels@[j].1.orders@[k].buy_sell_indicator
                            == side by {
                            if j < s1.len() {
                                assert(levels@[j] == s1[j]);
                            }
                        }
                        assert(side_wf(levels@, side));
                    }
                    Err(e)
                },
                Ok(remaining) => {
                    if bucket.orders.len() == 0 {
                        proof {
                            assert(seq_levels_map(levels@) == seq_levels_map(s0).remove(p));
                            assert(side_orders(levels@, p) =~= side_orders(s0, p).remove(r));
                            assert forall|p2: u32| p2 != p implies #[trigger] level_orders_seq(
                                levels@,
                                p2,
                            ) == level_orders_seq(s0, p2) by {}
                            assert forall|j: int|
                                0 <= j < levels@.len() implies (#[trigger] levels@[j]).1.wf()
                                && levels@[j].1.orders@.len() > 0 by {
                                if j < i {
                                    assert(levels@[j] == s0[j]);
                                } else {
                                    assert(levels@[j] == s0[j + 1]);
                                }
                            }
                            assert forall|j: int, k: int|
                                0 <= j < levels@.len() && 0 <= k
                                    < levels@[j].1.orders@.len() implies (#[trigger] levels@[j].1.orders@[k]).price.value
                                == levels@[j].0 && levels@[j].1.orders@[k].buy_sell_indicator
                                == side by {
                                if j < i {
                                    assert(levels@[j] == s0[j]);
                                } else {
                                    assert(levels@[j] == s0[j + 1]);
                                }
                            }
                            assert(side_wf(levels@, side));
                        }
                        Ok(remaining)
                    } else {
                        proof {
                            lemma_levels_push(s1, p, bucket);
                        }
                        levels.push((pp, bucket));
                        proof {
                            assert(seq_levels_map(levels@) =~= seq_levels_map(s0).insert(
                                p,
                                bucket.orders@,
                            ));
                            assert(level_orders_seq(levels@, p) == bucket.orders@);
                            assert forall|p2: u32| p2 != p implies #[trigger] level_orders_seq(
                                levels@,
                                p2,
                            ) == level_orders_seq(s0, p2) by {}
                            lemma_bucket_fields(bucket, p, side);
                            assert forall|j: int|
                                0 <= j < levels@.len() implies (#[trigger] levels@[j]).1.wf()
                                && levels@[j].1.orders@.len() > 0 by {
                                if j < s1.len() {
                                    assert(levels@[j] == s1[j]);
                                }
                            }
                            assert forall|j: int, k: int|
                                0 <= j < levels@.len() && 0 <= k
                                    < levels@[j].1.orders@.len() implies (#[trigger] levels@[j].1.orders@[k]).price.value
                                == levels@[j].0 && levels@[j].1.orders@[k].buy_sell_indicator
                                == side by {
                                if j < s1.len() {
                                    assert(levels@[j] == s1[j]);
                                }
                            }
                            assert(side_wf(levels@, side));
                        }
                        Ok(remaining)
                    }
                },
            }
        },
    }
}

/// Removes the order at `(p, r)` on one side outright, and its level when
/// the order was its last. Returns the removed order.
fn side_delete(
    levels: &mut Vec<(u32, PriceBucket)>,
    r: OrderReferenceNumber,
    p: u32,
    side: BuySellIndicator,
) -> (res: Result<AddOrder, OrderBookError>)
    requires
        side_wf(old(levels)@, side),
    ensures
        side_wf(final(levels)@, side),
        !side_orders(old(levels)@, p).contains_key(r) ==> res == Err::<AddOrder, OrderBookError>(
            OrderBookError::NonExistentOrder,
        ) && seq_levels_map(final(levels)@) == seq_levels_map(old(levels)@),
        side_orders(old(levels)@, p).contains_key(r) ==> {
            let o = side_orders(old(levels)@, p)[r];
            &&& res == Ok::<AddOrder, OrderBookError>(o)
            &&& side_orders(final(levels)@, p) == side_orders(old(levels)@, p).remove(r)
            &&& side_shares(final(levels)@, p) == side_shares(old(levels)@, p) - o.shares
            &&& level_orders_seq(final(levels)@, p).len() == level_orders_seq(
                old(levels)@,
                p,
            ).len() - 1
            &&& (side_has(final(levels)@, p) <==> level_orders_seq(old(levels)@, p).len() > 1)
            &&& forall|p2: u32|
                p2 != p ==> #[trigger] side_orders(final(levels)@, p2) == side_orders(
                    old(levels)@,
                    p2,
                ) && side_shares(final(levels)@, p2) == side_shares(old(levels)@, p2) && side_has(
                    final(levels)@,
                    p2,
                ) == side_has(old(levels)@, p2) && level_orders_seq(final(levels)@, p2)
                    == level_orders_seq(old(levels)@, p2)
        },
{
    let ghost s0 = levels@;
    proof {
        lemma_levels_map(s0);
        lemma_side_orders_fields(s0, side, p);
    }
    match find_level(levels, p) {
        None => {
            proof {
                assert(level_orders_seq(s0, p) == Seq::<AddOrder>::empty());
                assert(!side_orders(s0, p).contains_key(r));
            }
            Err(OrderBookError::NonExistentOrder)
        },
        Some(i) => {
            proof {
                lemma_levels_remove(s0, i as int);
            }
            let (pp, mut bucket) = levels.remove(i);
            proof {
                assert(level_orders_seq(s0, p) == bucket.orders@);
                assert(!side_has(levels@, p));
            }
            let res = bucket.delete_order(r);
            let ghost s1 = levels@;
            match res {
                Err(e) => {
                    proof {
                        lemma_levels_push(s1, p, bucket);
                    }
                    levels.push((pp, bucket));
                    proof {
                        assert(seq_levels_map(levels@) =~= seq_levels_map(s0));
                        lemma_side_views_from_map(levels@, s0);
                        assert forall|j: int|
                            0 <= j < levels@.len() implies (#[trigger] levels@[j]).1.wf()
                            && levels@[j].1.orders@.len() > 0 by {
                            if j < s1.len() {
                                assert(levels@[j] == s1[j]);
                            }
                        }
                        assert forall|j: int, k: int|
                            0 <= j < levels@.len() && 0 <= k
                                < levels@[j].1.orders@.len() implies (#[trigger] levels@[j].1.orders@[k]).price.value
                            == levels@[j].0 && levels@[j].1.orders@[k].buy_sell_indicator
                            == side by {
                            if j < s1.len() {
                                assert(levels@[j] == s1[j]);
                            }
                        }
                        assert(side_wf(levels@, side));
                    }
                    Err(e)
                },
                Ok(o) => {
                    if bucket.orders.len() == 0 {
                        proof {
                            assert(seq_levels_map(levels@) == seq_levels_map(s0).remove(p));
                            assert(side_orders(levels@, p) =~= side_orders(s0, p).remove(r));
                            assert forall|p2: u32| p2 != p implies #[trigger] level_orders_seq(
                                levels@,
                                p2,
                            ) == level_orders_seq(s0, p2) by {}
                            assert forall|j: int|
                                0 <= j < levels@.len() implies (#[trigger] levels@[j]).1.wf()
                                && levels@[j].1.orders@.len() > 0 by {
                                if j < i {
                                    assert(levels@[j] == s0[j]);
                                } else {
                                    assert(levels@[j] == s0[j + 1]);
                                }
                            }
                            assert forall|j: int, k: int|
                                0 <= j < levels@.len() && 0 <= k
                                    < levels@[j].1.orders@.len() implies (#[trigger] levels@[j].1.orders@[k]).price.value
                                == levels@[j].0 && levels@[j].1.orders@[k].buy_sell_indicator
                                == side by {
                                if j < i {
                                    assert(levels@[j] == s0[j]);
                                } else {
                                    assert(levels@[j] == s0[j + 1]);
                                }
                            }
                            assert(side_wf(levels@, side));
                        }
                        Ok(o)
                    } else {
                        proof {
                            lemma_levels_push(s1, p, bucket);
                        }
                        levels.push((pp, bucket));
                        proof {
                            assert(seq_levels_map(levels@) =~= seq_levels_map(s0).insert(
                                p,
                                bucket.orders@,
                            ));
                            assert(level_orders_seq(levels@, p) == bucket.orders@);
                            assert forall|p2: u32| p2 != p implies #[trigger] level_orders_seq(
                                levels@,
                                p2,
                            ) == level_orders_seq(s0, p2) by {}
                            lemma_bucket_fields(bucket, p, side);
                            assert forall|j: int|
                                0 <= j < levels@.len() implies (#[trigger] levels@[j]).1.wf()
                                && levels@[j].1.orders@.len() > 0 by {
                                if j < s1.len() {
                                    assert(levels@[j] == s1[j]);
                                }
                            }
                            assert forall|j: int, k: int|
                                0 <= j < levels@.len() && 0 <= k
                                    < levels@[j].1.orders@.len() implies (#[trigger] levels@[j].1.orders@[k]).price.value
                                == levels@[j].0 && levels@[j].1.orders@[k].buy_sell_indicator
                                == side by {
                                if j < s1.len() {
                                    assert(levels@[j] == s1[j]);
                                }
                            }
                            assert(side_wf(levels@, side));
                        }
                        Ok(o)
                    }
                },
            }
        },
    }
}

/// A per-instrument limit order book: one list of levels per side, and
/// the cached best prices. The bid side's best is its highest price, the
/// ask side's best its lowest; `0` and `u32::MAX` stand in while a side
/// is empty.
pub struct LimitOrderBook {
    pub ask_book: Vec<(u32, PriceBucket)>,
    pub bid_book: Vec<(u32, PriceBucket)>,
    pub highest_bid: u32,
    pub lowest_ask: u32,
}

impl LimitOrderBook {
    /// The level list of one side.
    pub open spec fn side_seq(&self, side: BuySellIndicator) -> Seq<(u32, PriceBucket)> {
        match side {
            BuySellIndicator::Buy => self.bid_book@,
            BuySellIndicator::Sell => self.ask_book@,
        }
    }

    /// The orders resting at `(side, p)`, keyed by reference number.
    pub open spec fn orders_at(&self, side: BuySellIndicator, p: u32) -> Map<
        OrderReferenceNumber,
        AddOrder,
    > {
        side_orders(self.side_seq(side), p)
    }

    /// Total shares resting at `(side, p)`.
    pub open spec fn shares_at(&self, side: BuySellIndicator, p: u32) -> int {
        side_shares(self.side_seq(side), p)
    }

    /// Whether a level stands at `(side, p)`.
    pub open spec fn has_level(&self, side: BuySellIndicator, p: u32) -> bool {
        side_has(self.side_seq(side), p)
    }

    /// The number of orders resting at `(side, p)`.
    pub open spec fn level_len(&self, side: BuySellIndicator, p: u32) -> int {
        level_orders_seq(self.side_seq(side), p).len() as int
    }

    /// Every bid price lies strictly below every ask price.
    pub open spec fn uncrossed(&self) -> bool {
        forall|pb: u32, pa: u32|
            #![trigger self.has_level(BuySellIndicator::Buy, pb), self.has_level(BuySellIndicator::Sell, pa)]
            self.has_level(BuySellIndicator::Buy, pb) && self.has_level(
                BuySellIndicator::Sell,
                pa,
            ) ==> pb < pa
    }

    /// Whether adding `order` would cross the book: a buy at or above a
    /// resting ask, or a sell at or below a resting bid.
    pub open spec fn crosses(&self, order: AddOrder) -> bool {
        match order.buy_sell_indicator {
            BuySellIndicator::Buy => exists|pa: u32|
                #[trigger] self.has_level(BuySellIndicator::Sell, pa) && pa
                    <= order.price.value,
            BuySellIndicator::Sell => exists|pb: u32|
                #[trigger] self.has_level(BuySellIndicator::Buy, pb) && pb
                    >= order.price.value,
        }
    }

    /// The cached best prices match the level lists: the highest bid and
    /// the lowest ask, with `0` and `u32::MAX` for empty sides.
    pub open spec fn best_ok(&self) -> bool {
        &&& (self.bid_book@.len() == 0 ==> self.highest_bid == 0)
        &&& (self.bid_book@.len() > 0 ==> (exists|i: int|
            0 <= i < self.bid_book@.len() && (#[trigger] self.bid_book@[i]).0
                == self.highest_bid) && (forall|i: int|
            0 <= i < self.bid_book@.len() ==> (#[trigger] self.bid_book@[i]).0
                <= self.highest_bid))
        &&& (self.ask_book@.len() == 0 ==> self.lowest_ask == u32::MAX)
        &&& (self.ask_book@.len() > 0 ==> (exists|i: int|
            0 <= i < self.ask_book@.len() && (#[trigger] self.ask_book@[i]).0
                == self.lowest_ask) && (forall|i: int|
            0 <= i < self.ask_book@.len() ==> (#[trigger] self.ask_book@[i]).0
                >= self.lowest_ask))
    }

    /// Both sides are well-formed and the cached best prices are right.
    pub open spec fn wf(&self) -> bool {
        side_wf(self.ask_book@, BuySellIndicator::Sell) && side_wf(
            self.bid_book@,
            BuySellIndicator::Buy,
        ) && self.best_ok()
    }

    /// An empty book.
    pub fn new() -> (r: Self)
        ensures
            r.wf(),
            r.ask_book@.len() == 0,
            r.bid_book@.len() == 0,
            r.highest_bid == 0,
            r.lowest_ask == u32::MAX,
            forall|side: BuySellIndicator, p: u32| !r.has_level(side, p),
            forall|side: BuySellIndicator, p: u32|
                #[trigger] r.orders_at(side, p) == Map::<OrderReferenceNumber, AddOrder>::empty(),
    {
        let r = Self {
            ask_book: Vec::new(),
            bid_book: Vec::new(),
            highest_bid: 0,
            lowest_ask: u32::MAX,
        };
        proof {
            assert forall|side: BuySellIndicator, p: u32| #[trigger]
                r.orders_at(side, p) =~= Map::<OrderReferenceNumber, AddOrder>::empty() by {}
        }
        r
    }

    /// Recomputes the cached best prices from the level lists.
    fn update_best_prices(&mut self)
        ensures
            final(self).ask_book@ == old(self).ask_book@,
            final(self).bid_book@ == old(self).bid_book@,
            final(self).best_ok(),
    {
        let mut hb: u32 = 0;
        let mut i: usize = 0;
        while i < self.bid_book.len()
            invariant
                i <= self.bid_book@.len(),
                forall|j: int| 0 <= j < i ==> (#[trigger] self.bid_book@[j]).0 <= hb,
                hb == 0 || exists|j: int| 0 <= j < i && (#[trigger] self.bid_book@[j]).0 == hb,
            decreases self.bid_book@.len() - i,
        {
            if self.bid_book[i].0 > hb {
                hb = self.bid_book[i].0;
            }
            i = i + 1;
        }
        self.highest_bid = hb;
        let mut la: u32 = u32::MAX;
        let mut i: usize = 0;
        while i < self.ask_book.len()
            invariant
                i <= self.ask_book@.len(),
                forall|j: int| 0 <= j < i ==> (#[trigger] self.ask_book@[j]).0 >= la,
                la == u32::MAX || exists|j: int|
                    0 <= j < i && (#[trigger] self.ask_book@[j]).0 == la,
            decreases self.ask_book@.len() - i,
        {
            if self.ask_book[i].0 < la {
                la = self.ask_book[i].0;
            }
            i = i + 1;
        }
        self.lowest_ask = la;
        proof {
            if self.bid_book@.len() > 0 && self.highest_bid == 0 {
                assert(self.bid_book@[0].0 <= 0);
            }
            if self.ask_book@.len() > 0 && self.lowest_ask == u32::MAX {
                assert(self.ask_book@[0].0 >= u32::MAX);
            }
        }
    }

    /// The best bid: the highest price with a resting buy level, or
    /// nothing while no buy order rests.
    pub fn get_best_bid(&self) -> (r: Option<u32>)
        requires
            self.wf(),
        ensures
            match r {
                None => forall|p: u32| !self.has_level(BuySellIndicator::Buy, p),
                Some(p) => self.has_level(BuySellIndicator::Buy, p) && p == self.highest_bid
                    && forall|p2: u32|
                    #[trigger] self.has_level(BuySellIndicator::Buy, p2) ==> p2 <= p,
            },
    {
        proof {
            lemma_levels_map(self.bid_book@);
        }
        if self.bid_book.len() == 0 {
            None
        } else {
            Some(self.highest_bid)
        }
    }

    /// The best ask: the lowest price with a resting sell level, or
    /// nothing while no sell order rests.
    pub fn get_best_ask(&self) -> (r: Option<u32>)
        requires
            self.wf(),
        ensures
            match r {
                None => forall|p: u32| !self.has_level(BuySellIndicator::Sell, p),
                Some(p) => self.has_level(BuySellIndicator::Sell, p) && p == self.lowest_ask
                    && forall|p2: u32|
                    #[trigger] self.has_level(BuySellIndicator::Sell, p2) ==> p2 >= p,
            },
    {
        proof {
            lemma_levels_map(self.ask_book@);
        }
        if self.ask_book.len() == 0 {
            None
        } else {
            Some(self.lowest_ask)
        }
    }

    /// The spread: best ask minus best bid, zero when either side is
    /// empty or the difference would be negative.
    pub fn get_spread(&self) -> (r: u32)
        requires
            self.wf(),
        ensures
            r == (if self.ask_book@.len() == 0 || self.bid_book@.len() == 0 {
                0int
            } else if self.lowest_ask >= self.highest_bid {
                self.lowest_ask - self.highest_bid
            } else {
                0int
            }),
    {
        if self.ask_book.len() == 0 || self.bid_book.len() == 0 {
            0
        } else if self.lowest_ask >= self.highest_bid {
            self.lowest_ask - self.highest_bid
        } else {
            0
        }
    }
}

/// What a successful cancel leaves behind: the order debited, removed
/// when a cancellation empties it, its level removed when the order was
/// its last, and every other level untouched.
pub open spec fn cancel_success_post(
    b0: LimitOrderBook,
    b1: LimitOrderBook,
    r: Result<u32, OrderBookError>,
    order_reference_number: OrderReferenceNumber,
    cancelled_shares: u32,
    price: Price4,
    side: BuySellIndicator,
    order_cancellation: bool,
) -> bool {
    let p = price.value;
    let o = b0.orders_at(side, p)[order_reference_number];
    let remaining = (o.shares - cancelled_shares) as u32;
    &&& r == Ok::<u32, OrderBookError>(remaining)
    &&& b1.shares_at(side, p) == b0.shares_at(side, p) - cancelled_shares
    &&& (if remaining == 0 && order_cancellation {
        b1.orders_at(side, p) == b0.orders_at(side, p).remove(order_reference_number)
            && b1.level_len(side, p) == b0.level_len(side, p) - 1 && (b1.has_level(side, p)
            <==> b0.level_len(side, p) > 1)
    } else {
        b1.orders_at(side, p) == b0.orders_at(side, p).insert(
            order_reference_number,
            AddOrder { shares: remaining, ..o },
        ) && b1.level_len(side, p) == b0.level_len(side, p) && b1.has_level(side, p)
    })
    &&& forall|sd: BuySellIndicator, p2: u32|
        #![trigger b1.orders_at(sd, p2)]
        !(sd == side && p2 == p) ==> b1.orders_at(sd, p2) == b0.orders_at(sd, p2) && b1.shares_at(
            sd,
            p2,
        ) == b0.shares_at(sd, p2) && b1.has_level(sd, p2) == b0.has_level(sd, p2) && b1.level_len(
            sd,
            p2,
        ) == b0.level_len(sd, p2)
}

/// What a successful delete leaves behind: the order gone, its level
/// removed when it was the last order there, and every other level
/// untouched.
pub open spec fn delete_success_post(
    b0: LimitOrderBook,
    b1: LimitOrderBook,
    r: Result<AddOrder, OrderBookError>,
    order_reference_number: OrderReferenceNumber,
    price: Price4,
    side: BuySellIndicator,
) -> bool {
    let p = price.value;
    let o = b0.orders_at(side, p)[order_reference_number];
    &&& r == Ok::<AddOrder, OrderBookError>(o)
    &&& b1.orders_at(side, p) == b0.orders_at(side, p).remove(order_reference_number)
    &&& b1.shares_at(side, p) == b0.shares_at(side, p) - o.shares
    &&& b1.level_len(side, p) == b0.level_len(side, p) - 1
    &&& (b1.has_level(side, p) <==> b0.level_len(side, p) > 1)
    &&& forall|sd: BuySellIndicator, p2: u32|
        #![trigger b1.orders_at(sd, p2)]
        !(sd == side && p2 == p) ==> b1.orders_at(sd, p2) == b0.orders_at(sd, p2) && b1.shares_at(
            sd,
            p2,
        ) == b0.shares_at(sd, p2) && b1.has_level(sd, p2) == b0.has_level(sd, p2) && b1.level_len(
            sd,
            p2,
        ) == b0.level_len(sd, p2)
}

/// A book whose levels only shrank stays uncrossed: every level of the
/// new book already stood in the old one.
proof fn lemma_shrink_uncrossed(b0: LimitOrderBook, b1: LimitOrderBook, side: BuySellIndicator, p: u32)
    requires
        b0.uncrossed(),
        forall|sd: BuySellIndicator, p2: u32|
            !(sd == side && p2 == p) ==> #[trigger] b1.has_level(sd, p2) == b0.has_level(sd, p2),
        b1.has_level(side, p) ==> b0.has_level(side, p),
    ensures
        b1.uncrossed(),
{
    assert forall|pb: u32, pa: u32|
        b1.has_level(BuySellIndicator::Buy, pb) && b1.has_level(
            BuySellIndicator::Sell,
            pa,
        ) implies pb < pa by {
        assert(b0.has_level(BuySellIndicator::Buy, pb));
        assert(b0.has_level(BuySellIndicator::Sell, pa));
    }
}

impl LimitOrderBook {
    /// Rests `order` at its `(side, price)` level, creating the level if
    /// none stands there, and refreshes the best prices. Fails with
    /// `DuplicateOrder`, changing no level, when the reference already
    /// rests at that level.
    pub fn add_order(&mut self, order: AddOrder) -> (r: Result<(), OrderBookError>)
        requires
            old(self).wf(),
            old(self).shares_at(order.buy_sell_indicator, order.price.value) + order.shares
                <= u32::MAX,
        ensures
            final(self).wf(),
            old(self).orders_at(order.buy_sell_indicator, order.price.value).contains_key(
                order.order_reference_number,
            ) ==> r == Err::<(), OrderBookError>(OrderBookError::DuplicateOrder) && (forall|
                sd: BuySellIndicator,
                p2: u32,
            |
                #![trigger final(self).orders_at(sd, p2)]
                final(self).orders_at(sd, p2) == old(self).orders_at(sd, p2) && final(self).shares_at(sd, p2) == old(self).shares_at(sd, p2) && final(self).has_level(sd, p2)
                    == old(self).has_level(sd, p2) && final(self).level_len(sd, p2) == old(self).level_len(sd, p2)),
            !old(self).orders_at(order.buy_sell_indicator, order.price.value).contains_key(
                order.order_reference_number,
            ) ==> {
                let side = order.buy_sell_indicator;
                let p = order.price.value;
                &&& r == Ok::<(), OrderBookError>(())
                &&& final(self).orders_at(side, p) == old(self).orders_at(side, p).insert(
                    order.order_reference_number,
                    order,
                )
                &&& final(self).shares_at(side, p) == old(self).shares_at(side, p) + order.shares
                &&& final(self).has_level(side, p)
                &&& final(self).level_len(side, p) == old(self).level_len(side, p) + 1
                &&& forall|sd: BuySellIndicator, p2: u32|
                    #![trigger final(self).orders_at(sd, p2)]
                    !(sd == side && p2 == p) ==> final(self).orders_at(sd, p2) == old(self).orders_at(sd, p2) && final(self).shares_at(sd, p2) == old(self).shares_at(
                        sd,
                        p2,
                    ) && final(self).has_level(sd, p2) == old(self).has_level(sd, p2) && final(self).level_len(sd, p2) == old(self).level_len(sd, p2)
                &&& (old(self).uncrossed() && !old(self).crosses(order) ==> final(self).uncrossed())
            },
    {
        let side = order.buy_sell_indicator;
        let r = match side {
            BuySellIndicator::Buy => side_add(&mut self.bid_book, order, side),
            BuySellIndicator::Sell => side_add(&mut self.ask_book, order, side),
        };
        self.update_best_prices();
        proof {
            let p = order.price.value;
            if old(self).orders_at(side, p).contains_key(order.order_reference_number) {
                if side is Buy {
                    lemma_side_views_from_map(self.bid_book@, old(self).bid_book@);
                } else {
                    lemma_side_views_from_map(self.ask_book@, old(self).ask_book@);
                }
            } else {
                if old(self).uncrossed() && !old(self).crosses(order) {
                    assert forall|pb: u32, pa: u32|
                        self.has_level(BuySellIndicator::Buy, pb) && self.has_level(
                            BuySellIndicator::Sell,
                            pa,
                        ) implies pb < pa by {
                        let mb = self.orders_at(BuySellIndicator::Buy, pb);
                        let ma = self.orders_at(BuySellIndicator::Sell, pa);
                        if side is Buy {
                            assert(self.has_level(BuySellIndicator::Sell, pa) == old(
                                self,
                            ).has_level(BuySellIndicator::Sell, pa));
                            if pb != p {
                                assert(old(self).has_level(BuySellIndicator::Buy, pb));
                            }
                        } else {
                            assert(self.has_level(BuySellIndicator::Buy, pb) == old(
                                self,
                            ).has_level(BuySellIndicator::Buy, pb));
                            if pa != p {
                                assert(old(self).has_level(BuySellIndicator::Sell, pa));
                            }
                        }
                    }
                }
            }
        }
        r
    }

    /// Debits shares from the order at the given coordinates, removing
    /// the order when a cancellation empties it, and its level when the
    /// order was its last; then refreshes the best prices. Returns the
    /// shares that remain.
    #[verifier::rlimit(100)]
    #[verifier::spinoff_prover]
    pub fn cancel_order(
        &mut self,
        order_reference_number: OrderReferenceNumber,
        cancelled_shares: u32,
        price: Price4,
        buy_sell_indicator: BuySellIndicator,
        order_cancellation: bool,
    ) -> (r: Result<u32, OrderBookError>)
        requires
            old(self).wf(),
        ensures
            final(self).wf(),
            !old(self).orders_at(buy_sell_indicator, price.value).contains_key(
                order_reference_number,
            ) ==> r == Err::<u32, OrderBookError>(OrderBookError::NonExistentOrder) && (forall|
                sd: BuySellIndicator,
                p2: u32,
            |
                #![trigger final(self).orders_at(sd, p2)]
                final(self).orders_at(sd, p2) == old(self).orders_at(sd, p2) && final(self).shares_at(sd, p2) == old(self).shares_at(sd, p2) && final(self).has_level(sd, p2)
                    == old(self).has_level(sd, p2) && final(self).level_len(sd, p2) == old(self).level_len(sd, p2)),
            old(self).orders_at(buy_sell_indicator, price.value).contains_key(
                order_reference_number,
            ) && cancelled_shares > old(self).orders_at(buy_sell_indicator, price.value)[order_reference_number].shares
                ==> r == Err::<u32, OrderBookError>(OrderBookError::InvalidCancellation) && (forall|
                sd: BuySellIndicator,
                p2: u32,
            |
                #![trigger final(self).orders_at(sd, p2)]
                final(self).orders_at(sd, p2) == old(self).orders_at(sd, p2) && final(self).shares_at(sd, p2) == old(self).shares_at(sd, p2) && final(self).has_level(sd, p2)
                    == old(self).has_level(sd, p2) && final(self).level_len(sd, p2) == old(self).level_len(sd, p2)),
            old(self).orders_at(buy_sell_indicator, price.value).contains_key(
                order_reference_number,
            ) && cancelled_shares <= old(self).orders_at(buy_sell_indicator, price.value)[order_reference_number].shares
                ==> cancel_success_post(
                *old(self),
                *final(self),
                r,
                order_reference_number,
                cancelled_shares,
                price,
                buy_sell_indicator,
                order_cancellation,
            ),
            old(self).uncrossed() ==> final(self).uncrossed(),
    {
        let r = match buy_sell_indicator {
            BuySellIndicator::Buy => side_cancel(
                &mut self.bid_book,
                order_reference_number,
                cancelled_shares,
                price.value,
                buy_sell_indicator,
                order_cancellation,
            ),
            BuySellIndicator::Sell => side_cancel(
                &mut self.ask_book,
                order_reference_number,
                cancelled_shares,
                price.value,
                buy_sell_indicator,
                order_cancellation,
            ),
        };
        self.update_best_prices();
        proof {
            let side = buy_sell_indicator;
            let p = price.value;
            if !old(self).orders_at(side, p).contains_key(order_reference_number)
                || cancelled_shares > old(self).orders_at(side, p)[order_reference_number].shares {
                if side is Buy {
                    lemma_side_views_from_map(self.bid_book@, old(self).bid_book@);
                } else {
                    lemma_side_views_from_map(self.ask_book@, old(self).ask_book@);
                }
                if old(self).uncrossed() {
                    assert forall|sd: BuySellIndicator, p2: u32|
                        !(sd == side && p2 == p) implies #[trigger] self.has_level(sd, p2) == old(
                        self,
                    ).has_level(sd, p2) by {
                        let m = self.orders_at(sd, p2);
                    }
                    assert(self.has_level(side, p) == old(self).has_level(side, p));
                    lemma_shrink_uncrossed(*old(self), *self, side, p);
                }
            } else {
                let o = old(self).orders_at(side, p)[order_reference_number];
                let remaining = (o.shares - cancelled_shares) as u32;
                assert(r == Ok::<u32, OrderBookError>(remaining));
                assert(self.shares_at(side, p) == old(self).shares_at(side, p)
                    - cancelled_shares);
                assert forall|sd: BuySellIndicator, p2: u32|
                    #![trigger self.orders_at(sd, p2)]
                    !(sd == side && p2 == p) implies self.orders_at(sd, p2) == old(self).orders_at(
                    sd,
                    p2,
                ) && self.shares_at(sd, p2) == old(self).shares_at(sd, p2) && self.has_level(
                    sd,
                    p2,
                ) == old(self).has_level(sd, p2) && self.level_len(sd, p2) == old(self).level_len(
                    sd,
                    p2,
                ) by {
                    if sd is Buy {
                        assert(self.side_seq(sd) == self.bid_book@);
                        assert(old(self).side_seq(sd) == old(self).bid_book@);
                        let m = side_orders(self.bid_book@, p2);
                    } else {
                        assert(self.side_seq(sd) == self.ask_book@);
                        assert(old(self).side_seq(sd) == old(self).ask_book@);
                        let m = side_orders(self.ask_book@, p2);
                    }
                }
                assert(cancel_success_post(
                    *old(self),
                    *self,
                    r,
                    order_reference_number,
                    cancelled_shares,
                    price,
                    buy_sell_indicator,
                    order_cancellation,
                ));
                if old(self).uncrossed() {
                    assert forall|sd: BuySellIndicator, p2: u32|
                        !(sd == side && p2 == p) implies #[trigger] self.has_level(sd, p2) == old(
                        self,
                    ).has_level(sd, p2) by {
                        let m = self.orders_at(sd, p2);
                    }
                    if !old(self).has_level(side, p) {
                        assert(level_orders_seq(old(self).side_seq(side), p) == Seq::<
                            AddOrder,
                        >::empty());
                        assert(seq_orders_map(Seq::<AddOrder>::empty()) == Map::<
                            OrderReferenceNumber,
                            AddOrder,
                        >::empty());
                        assert(!old(self).orders_at(side, p).contains_key(
                            order_reference_number,
                        ));
                        assert(false);
                    }
                    lemma_shrink_uncrossed(*old(self), *self, side, p);
                }
            }
        }
        r
    }

    /// Removes the order at the given coordinates outright, and its level
    /// when the order was its last; then refreshes the best prices.
    /// Returns the removed order.
    #[verifier::rlimit(100)]
    #[verifier::spinoff_prover]
    pub fn delete_order(
        &mut self,
        order_reference_number: OrderReferenceNumber,
        price: Price4,
        buy_sell_indicator: BuySellIndicator,
    ) -> (r: Result<AddOrder, OrderBookError>)
        requires
            old(self).wf(),
        ensures
            final(self).wf(),
            !old(self).orders_at(buy_sell_indicator, price.value).contains_key(
                order_reference_number,
            ) ==> r == Err::<AddOrder, OrderBookError>(OrderBookError::NonExistentOrder) && (forall|
                sd: BuySellIndicator,
                p2: u32,
            |
                #![trigger final(self).orders_at(sd, p2)]
                final(self).orders_at(sd, p2) == old(self).orders_at(sd, p2) && final(self).shares_at(sd, p2) == old(self).shares_at(sd, p2) && final(self).has_level(sd, p2)
                    == old(self).has_level(sd, p2) && final(self).level_len(sd, p2) == old(self).level_len(sd, p2)),
            old(self).orders_at(buy_sell_indicator, price.value).contains_key(
                order_reference_number,
            ) ==> delete_success_post(
                *old(self),
                *final(self),
                r,
                order_reference_number,
                price,
                buy_sell_indicator,
            ),
            old(self).uncrossed() ==> final(self).uncrossed(),
    {
        let r = match buy_sell_indicator {
            BuySellIndicator::Buy => side_delete(
                &mut self.bid_book,
                order_reference_number,
                price.value,
                buy_sell_indicator,
            ),
            BuySellIndicator::Sell => side_delete(
                &mut self.ask_book,
                order_reference_number,
                price.value,
                buy_sell_indicator,
            ),
        };
        self.update_best_prices();
        proof {
            let side = buy_sell_indicator;
            let p = price.value;
            if !old(self).orders_at(side, p).contains_key(order_reference_number) {
                if side is Buy {
                    lemma_side_views_from_map(self.bid_book@, old(self).bid_book@);
                } else {
                    lemma_side_views_from_map(self.ask_book@, old(self).ask_book@);
                }
                if old(self).uncrossed() {
                    assert forall|sd: BuySellIndicator, p2: u32|
                        !(sd == side && p2 == p) implies #[trigger] self.has_level(sd, p2) == old(
                        self,
                    ).has_level(sd, p2) by {
                        let m = self.orders_at(sd, p2);
                    }
                    assert(self.has_level(side, p) == old(self).has_level(side, p));
                    lemma_shrink_uncrossed(*old(self), *self, side, p);
                }
            } else {
                if old(self).uncrossed() {
                    assert forall|sd: BuySellIndicator, p2: u32|
                        !(sd == side && p2 == p) implies #[trigger] self.has_level(sd, p2) == old(
                        self,
                    ).has_level(sd, p2) by {
                        let m = self.orders_at(sd, p2);
                    }
                    if !old(self).has_level(side, p) {
                        assert(level_orders_seq(old(self).side_seq(side), p) == Seq::<
                            AddOrder,
                        >::empty());
                        assert(seq_orders_map(Seq::<AddOrder>::empty()) == Map::<
                            OrderReferenceNumber,
                            AddOrder,
                        >::empty());
                        assert(!old(self).orders_at(side, p).contains_key(
                            order_reference_number,
                        ));
                        assert(false);
                    }
                    lemma_shrink_uncrossed(*old(self), *self, side, p);
                }
            }
        }
        r
    }
}

/// Under the manager's invariant, a level stands exactly where some
/// order rests.
pub proof fn lemma_book_has_level_iff(
    m: OrderBookManager,
    loc: StockLocateCode,
    side: BuySellIndicator,
    p: u32,
)
    requires
        m.wf(),
    ensures
        m.book_has_level(loc, side, p) <==> exists|r: OrderReferenceNumber| #[trigger]
            m.book_orders(loc, side, p).contains_key(r),
{
    if m.order_books@.contains_key(loc) {
        let b = m.order_books@[loc];
        lemma_book_order_fields(b, side, p);
        assert(m.book_orders(loc, side, p) == b.orders_at(side, p));
        if m.book_has_level(loc, side, p) {
            let r = choose|r: OrderReferenceNumber| #[trigger] b.orders_at(side, p).contains_key(r);
            assert(m.book_orders(loc, side, p).contains_key(r));
        }
        if exists|r: OrderReferenceNumber| #[trigger] m.book_orders(loc, side, p).contains_key(r) {
            let r = choose|r: OrderReferenceNumber| #[trigger] m.book_orders(
                loc,
                side,
                p,
            ).contains_key(r);
            assert(b.orders_at(side, p).contains_key(r));
        }
    } else {
        assert(forall|r: OrderReferenceNumber|
            !(#[trigger] m.book_orders(loc, side, p).contains_key(r)));
    }
}

/// Adding an order and immediately deleting it restores its level: the
/// level's orders and share count return to their pre-add values, the
/// side-table returns to its pre-add state, and a level that did not
/// exist before the add does not exist after the delete.
pub proof fn lemma_add_then_delete_restores_level(
    m0: OrderBookManager,
    m1: OrderBookManager,
    m2: OrderBookManager,
    order: AddOrder,
)
    requires
        m0.wf(),
        m2.wf(),
        !m0.pm().contains_key(order.order_reference_number),
        madd_post(m0, m1, order),
        mdelete_post(m1, m2, order.order_reference_number),
    ensures
        m2.pm() == m0.pm(),
        m2.book_orders(order.header.stock_locate, order.buy_sell_indicator, order.price.value)
            == m0.book_orders(
            order.header.stock_locate,
            order.buy_sell_indicator,
            order.price.value,
        ),
        m2.book_shares(order.header.stock_locate, order.buy_sell_indicator, order.price.value)
            == m0.book_shares(
            order.header.stock_locate,
            order.buy_sell_indicator,
            order.price.value,
        ),
        !m0.book_has_level(order.header.stock_locate, order.buy_sell_indicator, order.price.value)
            ==> !m2.book_has_level(
            order.header.stock_locate,
            order.buy_sell_indicator,
            order.price.value,
        ),
{
    let rr = order.order_reference_number;
    let loc = order.header.stock_locate;
    let side = order.buy_sell_indicator;
    let p = order.price.value;
    assert(m1.pm()[rr] == (loc, order.price, side));
    assert(m1.book_orders(loc, side, p)[rr] == order);
    assert(m2.pm() =~= m0.pm());
    if m0.book_orders(loc, side, p).contains_key(rr) {
        assert(m0.pm().contains_key(rr));
        assert(false);
    }
    assert(m2.book_orders(loc, side, p) =~= m0.book_orders(loc, side, p));
    lemma_book_has_level_iff(m0, loc, side, p);
    lemma_book_has_level_iff(m2, loc, side, p);
    if !m0.book_has_level(loc, side, p) && m2.book_has_level(loc, side, p) {
        let r2 = choose|r2: OrderReferenceNumber| m2.book_orders(loc, side, p).contains_key(r2);
        assert(m0.book_orders(loc, side, p).contains_key(r2));
        assert(false);
    }
}

/// Total shares named by a sequence of cancel amounts.
pub open spec fn sum_amounts(s: Seq<u32>) -> int
    decreases s.len(),
{
    if s.len() == 0 {
        0
    } else {
        s[0] + sum_amounts(s.subrange(1, s.len() as int))
    }
}

/// A run of successful cancels whose amounts sum to a resting order's
/// shares removes the order: neither the book nor the side-table holds
/// its reference afterwards. `states[i]` is the manager before the
/// `i`-th cancel.
pub proof fn lemma_cancels_drain_order(
    states: Seq<OrderBookManager>,
    amounts: Seq<u32>,
    rr: OrderReferenceNumber,
)
    requires
        states.len() == amounts.len() + 1,
        amounts.len() >= 1,
        forall|i: int| 0 <= i < states.len() ==> (#[trigger] states[i]).wf(),
        forall|i: int|
            0 <= i < amounts.len() ==> (#[trigger] states[i].pm()).contains_key(rr),
        forall|i: int|
            0 <= i < amounts.len() ==> (#[trigger] amounts[i]) <= states[i].book_orders(
                states[i].pm()[rr].0,
                states[i].pm()[rr].2,
                states[i].pm()[rr].1.value,
            )[rr].shares,
        forall|i: int|
            0 <= i < amounts.len() ==> #[trigger] mdebit_post(
                states[i],
                states[i + 1],
                rr,
                amounts[i],
                true,
            ),
        sum_amounts(amounts) == states[0].book_orders(
            states[0].pm()[rr].0,
            states[0].pm()[rr].2,
            states[0].pm()[rr].1.value,
        )[rr].shares,
    ensures
        !states.last().pm().contains_key(rr),
        !states.last().book_orders(
            states[0].pm()[rr].0,
            states[0].pm()[rr].2,
            states[0].pm()[rr].1.value,
        ).contains_key(rr),
    decreases amounts.len(),
{
    let loc = states[0].pm()[rr].0;
    let side = states[0].pm()[rr].2;
    let p = states[0].pm()[rr].1.value;
    let o = states[0].book_orders(loc, side, p)[rr];
    let i0: int = 0;
    assert(mdebit_post(states[i0], states[i0 + 1], rr, amounts[i0], true));
    assert(amounts[0] <= states[0].book_orders(
        states[0].pm()[rr].0,
        states[0].pm()[rr].2,
        states[0].pm()[rr].1.value,
    )[rr].shares);
    if amounts.len() == 1 {
        assert(sum_amounts(amounts) == amounts[0] + sum_amounts(
            amounts.subrange(1, amounts.len() as int),
        ));
        assert(amounts.subrange(1, amounts.len() as int).len() == 0);
        assert(amounts[0] == o.shares);
        assert(states[1].pm() == states[0].pm().remove(rr));
        assert(states.last() == states[1]);
    } else {
        let m0 = states[0];
        let m1 = states[1];
        if (o.shares - amounts[0]) as u32 == 0 {
            assert(m1.pm() == m0.pm().remove(rr));
            assert(!m1.pm().contains_key(rr));
            assert(states[1].pm().contains_key(rr));
            assert(false);
        }
        assert(m1.pm() == m0.pm());
        assert(m1.book_orders(loc, side, p) == m0.book_orders(loc, side, p).insert(
            rr,
            AddOrder { shares: (o.shares - amounts[0]) as u32, ..o },
        ));
        let tail_states = states.subrange(1, states.len() as int);
        let tail_amounts = amounts.subrange(1, amounts.len() as int);
        assert(tail_states.len() == tail_amounts.len() + 1);
        assert forall|i: int| 0 <= i < tail_states.len() implies (#[trigger] tail_states[i]).wf() by {
            assert(tail_states[i] == states[i + 1]);
        }
        assert forall|i: int|
            0 <= i < tail_amounts.len() implies (#[trigger] tail_states[i].pm()).contains_key(
            rr,
        ) by {
            assert(tail_states[i] == states[i + 1]);
            assert(states[i + 1].pm().contains_key(rr));
        }
        assert forall|i: int|
            0 <= i < tail_amounts.len() implies (#[trigger] tail_amounts[i])
            <= tail_states[i].book_orders(
            tail_states[i].pm()[rr].0,
            tail_states[i].pm()[rr].2,
            tail_states[i].pm()[rr].1.value,
        )[rr].shares by {
            assert(tail_states[i] == states[i + 1]);
            assert(tail_amounts[i] == amounts[i + 1]);
        }
        assert forall|i: int|
            0 <= i < tail_amounts.len() implies #[trigger] mdebit_post(
            tail_states[i],
            tail_states[i + 1],
            rr,
            tail_amounts[i],
            true,
        ) by {
            assert(tail_states[i] == states[i + 1]);
            assert(tail_states[i + 1] == states[i + 2]);
            assert(tail_amounts[i] == amounts[i + 1]);
            assert(mdebit_post(states[i + 1], states[i + 2], rr, amounts[i + 1], true));
        }
        assert(tail_states[0].pm()[rr] == (loc, Price4 { value: p }, side));
        assert(tail_states[0].book_orders(loc, side, p)[rr].shares == o.shares - amounts[0]);
        assert(sum_amounts(tail_amounts) == sum_amounts(amounts) - amounts[0]);
        lemma_cancels_drain_order(tail_states, tail_amounts, rr);
        assert(tail_states.last() == states.last());
        assert(tail_states[0].pm()[rr].0 == loc && tail_states[0].pm()[rr].2 == side
            && tail_states[0].pm()[rr].1.value == p);
    }
}

/// When the book is uncrossed and both sides rest orders, the best ask
/// lies strictly above the best bid.
pub proof fn lemma_best_prices_uncrossed(book: LimitOrderBook)
    requires
        book.wf(),
        book.uncrossed(),
        book.bid_book@.len() > 0,
        book.ask_book@.len() > 0,
    ensures
        book.highest_bid < book.lowest_ask,
{
    lemma_levels_map(book.bid_book@);
    lemma_levels_map(book.ask_book@);
    let i = choose|i: int| 0 <= i < book.bid_book@.len() && book.bid_book@[i].0 == book.highest_bid;
    let j = choose|j: int| 0 <= j < book.ask_book@.len() && book.ask_book@[j].0 == book.lowest_ask;
    assert(book.has_level(BuySellIndicator::Buy, book.highest_bid));
    assert(book.has_level(BuySellIndicator::Sell, book.lowest_ask));
}

/// A manager whose views did not change keeps the side-table link.
proof fn lemma_link_from_views(m0: OrderBookManager, m1: OrderBookManager)
    requires
        m0.wf_link(),
        m1.views_unchanged(m0),
    ensures
        m1.wf_link(),
{
    assert forall|loc: StockLocateCode, side: BuySellIndicator, p: u32, r: OrderReferenceNumber|
        #[trigger] m1.book_orders(loc, side, p).contains_key(r) implies m1.pm().contains_key(r)
        && m1.pm()[r] == (loc, Price4 { value: p }, side) && m1.book_orders(
        loc,
        side,
        p,
    )[r].header.stock_locate == loc by {
        assert(m0.book_orders(loc, side, p).contains_key(r));
    }
    assert forall|r: OrderReferenceNumber| #[trigger]
        m1.pm().contains_key(r) implies m1.book_orders(
        m1.pm()[r].0,
        m1.pm()[r].2,
        m1.pm()[r].1.value,
    ).contains_key(r) by {
        assert(m0.pm().contains_key(r));
        assert(m1.book_orders(m0.pm()[r].0, m0.pm()[r].2, m0.pm()[r].1.value) == m0.book_orders(
            m0.pm()[r].0,
            m0.pm()[r].2,
            m0.pm()[r].1.value,
        ));
    }
}

/// The side-table link survives replacing the order at one coordinate by
/// an order with the same reference, header and coordinates.
proof fn lemma_link_update(
    m0: OrderBookManager,
    m1: OrderBookManager,
    loc: StockLocateCode,
    side: BuySellIndicator,
    p: u32,
    rr: OrderReferenceNumber,
    upd: AddOrder,
)
    requires
        m0.wf_link(),
        m1.pm() == m0.pm(),
        m0.book_orders(loc, side, p).contains_key(rr),
        m1.book_orders(loc, side, p) == m0.book_orders(loc, side, p).insert(rr, upd),
        upd.header.stock_locate == m0.book_orders(loc, side, p)[rr].header.stock_locate,
        m1.views_unchanged_but(m0, loc, side, p, p),
    ensures
        m1.wf_link(),
{
    assert forall|l2: StockLocateCode, sd2: BuySellIndicator, p2: u32, r2: OrderReferenceNumber|
        #[trigger] m1.book_orders(l2, sd2, p2).contains_key(r2) implies m1.pm().contains_key(r2)
        && m1.pm()[r2] == (l2, Price4 { value: p2 }, sd2) && m1.book_orders(
        l2,
        sd2,
        p2,
    )[r2].header.stock_locate == l2 by {
        if l2 == loc && sd2 == side && p2 == p {
            assert(m0.book_orders(l2, sd2, p2).contains_key(r2));
        } else {
            assert(m1.book_orders(l2, sd2, p2) == m0.book_orders(l2, sd2, p2));
            assert(m0.book_orders(l2, sd2, p2).contains_key(r2));
        }
    }
    assert forall|r2: OrderReferenceNumber| #[trigger]
        m1.pm().contains_key(r2) implies m1.book_orders(
        m1.pm()[r2].0,
        m1.pm()[r2].2,
        m1.pm()[r2].1.value,
    ).contains_key(r2) by {
        assert(m0.pm().contains_key(r2));
        assert(m0.book_orders(m0.pm()[r2].0, m0.pm()[r2].2, m0.pm()[r2].1.value).contains_key(r2));
        if !(m0.pm()[r2].0 == loc && m0.pm()[r2].2 == side && m0.pm()[r2].1.value == p) {
            assert(m1.book_orders(m0.pm()[r2].0, m0.pm()[r2].2, m0.pm()[r2].1.value)
                == m0.book_orders(m0.pm()[r2].0, m0.pm()[r2].2, m0.pm()[r2].1.value));
        }
    }
}

/// The side-table link survives removing one order and its side-table
/// entry together.
proof fn lemma_link_remove(
    m0: OrderBookManager,
    m1: OrderBookManager,
    loc: StockLocateCode,
    side: BuySellIndicator,
    p: u32,
    rr: OrderReferenceNumber,
)
    requires
        m0.wf_link(),
        m1.pm() == m0.pm().remove(rr),
        m0.book_orders(loc, side, p).contains_key(rr),
        m0.pm().contains_key(rr) && m0.pm()[rr] == (loc, Price4 { value: p }, side),
        m1.book_orders(loc, side, p) == m0.book_orders(loc, side, p).remove(rr),
        m1.views_unchanged_but(m0, loc, side, p, p),
    ensures
        m1.wf_link(),
{
    assert forall|l2: StockLocateCode, sd2: BuySellIndicator, p2: u32, r2: OrderReferenceNumber|
        #[trigger] m1.book_orders(l2, sd2, p2).contains_key(r2) implies m1.pm().contains_key(r2)
        && m1.pm()[r2] == (l2, Price4 { value: p2 }, sd2) && m1.book_orders(
        l2,
        sd2,
        p2,
    )[r2].header.stock_locate == l2 by {
        if l2 == loc && sd2 == side && p2 == p {
            assert(m0.book_orders(l2, sd2, p2).contains_key(r2));
            assert(r2 != rr);
        } else {
            assert(m1.book_orders(l2, sd2, p2) == m0.book_orders(l2, sd2, p2));
            assert(m0.book_orders(l2, sd2, p2).contains_key(r2));
            if r2 == rr {
                assert(m0.pm()[rr] == (l2, Price4 { value: p2 }, sd2));
                assert(false);
            }
        }
    }
    assert forall|r2: OrderReferenceNumber| #[trigger]
        m1.pm().contains_key(r2) implies m1.book_orders(
        m1.pm()[r2].0,
        m1.pm()[r2].2,
        m1.pm()[r2].1.value,
    ).contains_key(r2) by {
        assert(m0.pm().contains_key(r2));
        assert(r2 != rr);
        assert(m0.book_orders(m0.pm()[r2].0, m0.pm()[r2].2, m0.pm()[r2].1.value).contains_key(r2));
        if !(m0.pm()[r2].0 == loc && m0.pm()[r2].2 == side && m0.pm()[r2].1.value == p) {
            assert(m1.book_orders(m0.pm()[r2].0, m0.pm()[r2].2, m0.pm()[r2].1.value)
                == m0.book_orders(m0.pm()[r2].0, m0.pm()[r2].2, m0.pm()[r2].1.value));
        }
    }
}

/// Every order resting at `(side, p)` of a well-formed book carries that
/// price, that side and its own key as reference number, and its shares
/// are bounded by the level total.
proof fn lemma_book_order_fields(b: LimitOrderBook, side: BuySellIndicator, p: u32)
    requires
        b.wf(),
    ensures
        forall|r: OrderReferenceNumber| #[trigger]
            b.orders_at(side, p).contains_key(r) ==> b.orders_at(side, p)[r].price.value == p
                && b.orders_at(side, p)[r].buy_sell_indicator == side && b.orders_at(side, p)[r].order_reference_number
                == r && b.orders_at(side, p)[r].shares <= b.shares_at(side, p),
        b.shares_at(side, p) >= 0,
        b.has_level(side, p) ==> b.level_len(side, p) > 0,
        b.has_level(side, p) ==> exists|r: OrderReferenceNumber| #[trigger]
            b.orders_at(side, p).contains_key(r),
        !b.has_level(side, p) ==> b.orders_at(side, p) == Map::<
            OrderReferenceNumber,
            AddOrder,
        >::empty() && b.shares_at(side, p) == 0 && b.level_len(side, p) == 0,
{
    match side {
        BuySellIndicator::Buy => lemma_side_orders_fields(b.bid_book@, side, p),
        BuySellIndicator::Sell => lemma_side_orders_fields(b.ask_book@, side, p),
    }
}

/// What resting a fresh order leaves behind: the side-table gains its
/// coordinates, its level gains the order, and everything else stands.
pub open spec fn madd_post(m0: OrderBookManager, m1: OrderBookManager, order: AddOrder) -> bool {
    let loc = order.header.stock_locate;
    let side = order.buy_sell_indicator;
    let p = order.price.value;
    &&& m1.pm() == m0.pm().insert(order.order_reference_number, (loc, order.price, side))
    &&& m1.book_orders(loc, side, p) == m0.book_orders(loc, side, p).insert(
        order.order_reference_number,
        order,
    )
    &&& m1.book_shares(loc, side, p) == m0.book_shares(loc, side, p) + order.shares
    &&& m1.book_has_level(loc, side, p)
    &&& m1.views_unchanged_but(m0, loc, side, p, p)
}

/// What debiting `x` shares from the order under `rr` leaves behind:
/// the order's shares shrink; a cancellation that empties it removes it
/// and its side-table entry, while an execution keeps both.
pub open spec fn mdebit_post(
    m0: OrderBookManager,
    m1: OrderBookManager,
    rr: OrderReferenceNumber,
    x: u32,
    is_cancel: bool,
) -> bool {
    let loc = m0.pm()[rr].0;
    let side = m0.pm()[rr].2;
    let p = m0.pm()[rr].1.value;
    let o = m0.book_orders(loc, side, p)[rr];
    let remaining = (o.shares - x) as u32;
    &&& m1.book_shares(loc, side, p) == m0.book_shares(loc, side, p) - x
    &&& m1.views_unchanged_but(m0, loc, side, p, p)
    &&& (if remaining == 0 && is_cancel {
        m1.pm() == m0.pm().remove(rr) && m1.book_orders(loc, side, p) == m0.book_orders(
            loc,
            side,
            p,
        ).remove(rr)
    } else {
        m1.pm() == m0.pm() && m1.book_orders(loc, side, p) == m0.book_orders(loc, side, p).insert(
            rr,
            AddOrder { shares: remaining, ..o },
        )
    })
}

/// What deleting the order under `rr` leaves behind: the order and its
/// side-table entry are gone, and everything else stands.
pub open spec fn mdelete_post(
    m0: OrderBookManager,
    m1: OrderBookManager,
    rr: OrderReferenceNumber,
) -> bool {
    let loc = m0.pm()[rr].0;
    let side = m0.pm()[rr].2;
    let p = m0.pm()[rr].1.value;
    let o = m0.book_orders(loc, side, p)[rr];
    &&& m1.pm() == m0.pm().remove(rr)
    &&& m1.book_orders(loc, side, p) == m0.book_orders(loc, side, p).remove(rr)
    &&& m1.book_shares(loc, side, p) == m0.book_shares(loc, side, p) - o.shares
    &&& m1.views_unchanged_but(m0, loc, side, p, p)
}

/// The order that a replace rests in place of the old one: a fresh
/// reference, share count and price, inheriting side, ticker, MPID,
/// header and so stock locate from the replaced order.
pub open spec fn inherited_order(m0: OrderBookManager, order: OrderReplace) -> AddOrder {
    let rr = order.original_order_reference_number;
    let loc = m0.pm()[rr].0;
    let side = m0.pm()[rr].2;
    let p = m0.pm()[rr].1.value;
    let o = m0.book_orders(loc, side, p)[rr];
    AddOrder {
        order_reference_number: order.new_order_reference_number,
        shares: order.shares,
        price: order.price,
        ..o
    }
}

/// What a replace leaves behind: exactly a delete of the old reference
/// followed by an add of the inherited order, through some intermediate
/// state.
pub open spec fn mreplace_post(
    m0: OrderBookManager,
    m1: OrderBookManager,
    order: OrderReplace,
) -> bool {
    exists|mid: OrderBookManager|
        #[trigger] mdelete_post(m0, mid, order.original_order_reference_number) && madd_post(
            mid,
            m1,
            inherited_order(m0, order),
        )
}

/// Manages the order books of every security: one book per stock locate
/// code, and a side-table from order reference to the coordinates that
/// execute, cancel and delete records do not carry.
pub struct OrderBookManager {
    pub order_books: HashMap<StockLocateCode, LimitOrderBook>,
    pub order_price_map: HashMap<
        OrderReferenceNumber,
        (StockLocateCode, Price4, BuySellIndicator),
    >,
}

impl OrderBookManager {
    /// The side-table as a map.
    pub open spec fn pm(&self) -> Map<OrderReferenceNumber, (StockLocateCode, Price4, BuySellIndicator)> {
        self.order_price_map@
    }

    /// The orders resting at `(side, p)` of the book of `loc`; empty
    /// when that book does not exist.
    pub open spec fn book_orders(&self, loc: StockLocateCode, side: BuySellIndicator, p: u32) -> Map<
        OrderReferenceNumber,
        AddOrder,
    > {
        if self.order_books@.contains_key(loc) {
            self.order_books@[loc].orders_at(side, p)
        } else {
            Map::empty()
        }
    }

    /// Total shares resting at `(side, p)` of the book of `loc`.
    pub open spec fn book_shares(&self, loc: StockLocateCode, side: BuySellIndicator, p: u32) -> int {
        if self.order_books@.contains_key(loc) {
            self.order_books@[loc].shares_at(side, p)
        } else {
            0
        }
    }

    /// Whether a level stands at `(side, p)` in the book of `loc`.
    pub open spec fn book_has_level(
        &self,
        loc: StockLocateCode,
        side: BuySellIndicator,
        p: u32,
    ) -> bool {
        self.order_books@.contains_key(loc) && self.order_books@[loc].has_level(side, p)
    }

    /// Every book of the manager is well-formed.
    pub open spec fn wf_books(&self) -> bool {
        forall|loc: StockLocateCode| #[trigger]
            self.order_books@.contains_key(loc) ==> self.order_books@[loc].wf()
    }

    /// The books and the side-table agree: every resting order stands in
    /// the side-table under its reference, with exactly its coordinates,
    /// and every side-table entry leads back to a resting order.
    pub open spec fn wf_link(&self) -> bool {
        &&& forall|loc: StockLocateCode, side: BuySellIndicator, p: u32, r: OrderReferenceNumber|
            #[trigger] self.book_orders(loc, side, p).contains_key(r) ==> self.pm().contains_key(r)
                && self.pm()[r] == (loc, Price4 { value: p }, side) && self.book_orders(
                loc,
                side,
                p,
            )[r].header.stock_locate == loc
        &&& forall|r: OrderReferenceNumber| #[trigger]
            self.pm().contains_key(r) ==> self.book_orders(
                self.pm()[r].0,
                self.pm()[r].2,
                self.pm()[r].1.value,
            ).contains_key(r)
    }

    /// The manager's invariant.
    pub open spec fn wf(&self) -> bool {
        self.wf_books() && self.wf_link()
    }

    /// All views of both managers agree: same side-table, same orders,
    /// shares and levels everywhere.
    pub open spec fn views_unchanged(&self, m0: OrderBookManager) -> bool {
        &&& self.pm() == m0.pm()
        &&& forall|l2: StockLocateCode, sd2: BuySellIndicator, p2: u32| #[trigger]
            self.book_orders(l2, sd2, p2) == m0.book_orders(l2, sd2, p2)
        &&& forall|l2: StockLocateCode, sd2: BuySellIndicator, p2: u32| #[trigger]
            self.book_shares(l2, sd2, p2) == m0.book_shares(l2, sd2, p2)
        &&& forall|l2: StockLocateCode, sd2: BuySellIndicator, p2: u32| #[trigger]
            self.book_has_level(l2, sd2, p2) == m0.book_has_level(l2, sd2, p2)
    }

    /// All views of both managers agree except possibly at `(loc, side)`
    /// prices `pa` and `pb`.
    pub open spec fn views_unchanged_but(
        &self,
        m0: OrderBookManager,
        loc: StockLocateCode,
        side: BuySellIndicator,
        pa: u32,
        pb: u32,
    ) -> bool {
        &&& forall|l2: StockLocateCode, sd2: BuySellIndicator, p2: u32|
            !(l2 == loc && sd2 == side && (p2 == pa || p2 == pb)) ==> #[trigger] self.book_orders(
                l2,
                sd2,
                p2,
            ) == m0.book_orders(l2, sd2, p2)
        &&& forall|l2: StockLocateCode, sd2: BuySellIndicator, p2: u32|
            !(l2 == loc && sd2 == side && (p2 == pa || p2 == pb)) ==> #[trigger] self.book_shares(
                l2,
                sd2,
                p2,
            ) == m0.book_shares(l2, sd2, p2)
        &&& forall|l2: StockLocateCode, sd2: BuySellIndicator, p2: u32|
            !(l2 == loc && sd2 == side && (p2 == pa || p2 == pb)) ==> #[trigger] self.book_has_level(
                l2,
                sd2,
                p2,
            ) == m0.book_has_level(l2, sd2, p2)
    }

    /// An empty manager.
    pub fn new() -> (r: Self)
        ensures
            r.wf(),
            r.pm() == Map::<OrderReferenceNumber, (StockLocateCode, Price4, BuySellIndicator)>::empty(),
            r.order_books@ == Map::<StockLocateCode, LimitOrderBook>::empty(),
    {
        Self { order_books: HashMap::new(), order_price_map: HashMap::new() }
    }

    /// Looks up an order's coordinates and its resting order; a helper
    /// for the lifecycle operations below.
    fn coords_of(&self, r: OrderReferenceNumber) -> (res: Option<
        (StockLocateCode, Price4, BuySellIndicator),
    >)
        ensures
            res == if self.pm().contains_key(r) {
                Some(self.pm()[r])
            } else {
                None::<(StockLocateCode, Price4, BuySellIndicator)>
            },
    {
        match self.order_price_map.get(&r) {
            Some(t) => Some(*t),
            None => None,
        }
    }

    /// Rests a fresh order: indexes it in the side-table and adds it to
    /// its book, creating the book and the level lazily. Fails with
    /// `DuplicateOrder`, changing nothing, when the reference is already
    /// resting anywhere.
    pub fn add_order(&mut self, order: AddOrder) -> (r: Result<(), OrderBookError>)
        requires
            old(self).wf(),
            old(self).book_shares(
                order.header.stock_locate,
                order.buy_sell_indicator,
                order.price.value,
            ) + order.shares <= u32::MAX,
        ensures
            final(self).wf(),
            old(self).pm().contains_key(order.order_reference_number) ==> r == Err::<
                (),
                OrderBookError,
            >(OrderBookError::DuplicateOrder) && *final(self) == *old(self),
            !old(self).pm().contains_key(order.order_reference_number) ==> r == Ok::<
                (),
                OrderBookError,
            >(()) && madd_post(*old(self), *final(self), order),
    {
        let loc = order.header.stock_locate;
        let side = order.buy_sell_indicator;
        if self.order_price_map.contains_key(&order.order_reference_number) {
            return Err(OrderBookError::DuplicateOrder);
        }
        let mut book = match self.order_books.remove(&loc) {
            Some(b) => b,
            None => LimitOrderBook::new(),
        };
        proof {
            if old(self).order_books@.contains_key(loc) {
                assert(book == old(self).order_books@[loc]);
            } else {
                lemma_book_order_fields(book, side, order.price.value);
                assert(book.orders_at(side, order.price.value) == Map::<
                    OrderReferenceNumber,
                    AddOrder,
                >::empty());
                assert(book.shares_at(side, order.price.value) == 0);
            }
            if book.orders_at(side, order.price.value).contains_key(order.order_reference_number) {
                assert(old(self).book_orders(loc, side, order.price.value).contains_key(
                    order.order_reference_number,
                ));
                assert(false);
            }
        }
        let res = book.add_order(order);
        proof {
            assert(res is Ok);
        }
        self.order_books.insert(loc, book);
        self.order_price_map.insert(order.order_reference_number, (loc, order.price, side));
        proof {
            let p = order.price.value;
            let b0 = *old(self);
            assert(self.pm() == b0.pm().insert(order.order_reference_number, (loc, order.price, side)));
            assert(self.book_orders(loc, side, p) == b0.book_orders(loc, side, p).insert(
                order.order_reference_number,
                order,
            ));
            assert(self.book_shares(loc, side, p) == b0.book_shares(loc, side, p)
                + order.shares);
            assert(self.book_has_level(loc, side, p));
            assert forall|l2: StockLocateCode, sd2: BuySellIndicator, p2: u32|
                !(l2 == loc && sd2 == side && (p2 == p || p2 == p)) implies #[trigger]
                self.book_orders(l2, sd2, p2) == b0.book_orders(l2, sd2, p2) by {
                if l2 == loc {
                    let q = book.orders_at(sd2, p2);
                    if b0.order_books@.contains_key(loc) {
                        let q0 = b0.order_books@[loc].orders_at(sd2, p2);
                    } else {
                        lemma_book_order_fields(book, sd2, p2);
                        assert(b0.book_orders(l2, sd2, p2) =~= Map::<
                            OrderReferenceNumber,
                            AddOrder,
                        >::empty());
                    }
                }
            }
            assert forall|l2: StockLocateCode, sd2: BuySellIndicator, p2: u32|
                !(l2 == loc && sd2 == side && (p2 == p || p2 == p)) implies #[trigger]
                self.book_shares(l2, sd2, p2) == b0.book_shares(l2, sd2, p2) by {
                if l2 == loc {
                    let q = book.orders_at(sd2, p2);
                    if b0.order_books@.contains_key(loc) {
                        let q0 = b0.order_books@[loc].orders_at(sd2, p2);
                    } else {
                        lemma_book_order_fields(book, sd2, p2);
                        assert(b0.book_orders(l2, sd2, p2) =~= Map::<
                            OrderReferenceNumber,
                            AddOrder,
                        >::empty());
                    }
                }
            }
            assert forall|l2: StockLocateCode, sd2: BuySellIndicator, p2: u32|
                !(l2 == loc && sd2 == side && (p2 == p || p2 == p)) implies #[trigger]
                self.book_has_level(l2, sd2, p2) == b0.book_has_level(l2, sd2, p2) by {
                if l2 == loc {
                    let q = book.orders_at(sd2, p2);
                    if b0.order_books@.contains_key(loc) {
                        let q0 = b0.order_books@[loc].orders_at(sd2, p2);
                    } else {
                        lemma_book_order_fields(book, sd2, p2);
                        assert(b0.book_orders(l2, sd2, p2) =~= Map::<
                            OrderReferenceNumber,
                            AddOrder,
                        >::empty());
                    }
                }
            }
            assert forall|l2: StockLocateCode, sd2: BuySellIndicator, p2: u32,
                r2: OrderReferenceNumber|
                #[trigger] self.book_orders(l2, sd2, p2).contains_key(r2) implies self.pm().contains_key(r2)
                && self.pm()[r2] == (l2, Price4 { value: p2 }, sd2) && self.book_orders(
                l2,
                sd2,
                p2,
            )[r2].header.stock_locate == l2 by {
                if l2 == loc && sd2 == side && p2 == p && r2 == order.order_reference_number {
                } else if l2 == loc && sd2 == side && p2 == p {
                    assert(b0.book_orders(l2, sd2, p2).contains_key(r2));
                } else {
                    assert(b0.book_orders(l2, sd2, p2).contains_key(r2));
                }
            }
            assert forall|r2: OrderReferenceNumber| #[trigger]
                self.pm().contains_key(r2) implies self.book_orders(
                self.pm()[r2].0,
                self.pm()[r2].2,
                self.pm()[r2].1.value,
            ).contains_key(r2) by {
                if r2 != order.order_reference_number {
                    assert(b0.pm().contains_key(r2));
                    assert(b0.book_orders(b0.pm()[r2].0, b0.pm()[r2].2, b0.pm()[r2].1.value).contains_key(r2));
                    assert(b0.pm()[r2] == self.pm()[r2]);
                }
            }
            assert(madd_post(b0, *self, order));
        }
        Ok(())
    }

    /// Debits `x` shares from the order under `rr`: the shared path of
    /// the execute and cancel operations.
    #[verifier::rlimit(100)]
    #[verifier::spinoff_prover]
    fn apply_debit(&mut self, rr: OrderReferenceNumber, x: u32, is_cancel: bool) -> (res: Result<
        u32,
        OrderBookError,
    >)
        requires
            old(self).wf(),
        ensures
            final(self).wf(),
            !old(self).pm().contains_key(rr) ==> res == Err::<u32, OrderBookError>(
                OrderBookError::NonExistentOrder,
            ) && *final(self) == *old(self),
            old(self).pm().contains_key(rr) ==> {
                let loc = old(self).pm()[rr].0;
                let side = old(self).pm()[rr].2;
                let p = old(self).pm()[rr].1.value;
                let o = old(self).book_orders(loc, side, p)[rr];
                &&& (x > o.shares ==> res == Err::<u32, OrderBookError>(
                    OrderBookError::InvalidCancellation,
                ) && final(self).views_unchanged(*old(self)))
                &&& (x <= o.shares ==> res == Ok::<u32, OrderBookError>((o.shares - x) as u32)
                    && mdebit_post(*old(self), *final(self), rr, x, is_cancel))
            },
    {
        let coords = self.coords_of(rr);
        match coords {
            None => Err(OrderBookError::NonExistentOrder),
            Some((loc, price, side)) => {
                proof {
                    assert(old(self).book_orders(loc, side, price.value).contains_key(rr));
                    assert(self.order_books@.contains_key(loc));
                }
                let mut book = match self.order_books.remove(&loc) {
                    Some(b) => b,
                    None => {
                        proof {
                            assert(false);
                        }
                        LimitOrderBook::new()
                    },
                };
                let ghost book0 = book;
                let res = book.cancel_order(rr, x, price, side, is_cancel);
                let ghost book1 = book;
                self.order_books.insert(loc, book);
                let ghost b0 = *old(self);
                let ghost p = price.value;
                proof {
                    assert(b0.book_orders(loc, side, p) == book0.orders_at(side, p));
                    assert(b0.book_shares(loc, side, p) == book0.shares_at(side, p));
                    lemma_book_order_fields(book0, side, p);
                }
                match res {
                    Err(e) => {
                        proof {
                            assert(e != OrderBookError::NonExistentOrder);
                            assert forall|l2: StockLocateCode, sd2: BuySellIndicator, p2: u32| #[trigger]
                                self.book_orders(l2, sd2, p2) == b0.book_orders(l2, sd2, p2) by {
                                if l2 == loc {
                                    assert(b0.book_orders(l2, sd2, p2) == book0.orders_at(sd2, p2));
                                    assert(self.book_orders(l2, sd2, p2) == book1.orders_at(sd2, p2));
                                    let q = book1.orders_at(sd2, p2);
                                    let q0 = book0.orders_at(sd2, p2);
                                }
                            }
                            assert forall|l2: StockLocateCode, sd2: BuySellIndicator, p2: u32| #[trigger]
                                self.book_shares(l2, sd2, p2) == b0.book_shares(l2, sd2, p2) by {
                                if l2 == loc {
                                    assert(b0.book_shares(l2, sd2, p2) == book0.shares_at(sd2, p2));
                                    assert(self.book_shares(l2, sd2, p2) == book1.shares_at(sd2, p2));
                                    let q = book1.orders_at(sd2, p2);
                                    let q0 = book0.orders_at(sd2, p2);
                                }
                            }
                            assert forall|l2: StockLocateCode, sd2: BuySellIndicator, p2: u32| #[trigger]
                                self.book_has_level(l2, sd2, p2) == b0.book_has_level(l2, sd2, p2) by {
                                if l2 == loc {
                                    assert(b0.book_has_level(l2, sd2, p2) == book0.has_level(sd2, p2));
                                    assert(self.book_has_level(l2, sd2, p2) == book1.has_level(sd2, p2));
                                    let q = book1.orders_at(sd2, p2);
                                    let q0 = book0.orders_at(sd2, p2);
                                }
                            }
                            lemma_link_from_views(b0, *self);
                        }
                        Err(e)
                    },
                    Ok(remaining) => {
                        let ghost o = b0.book_orders(loc, side, p)[rr];
                        if is_cancel && remaining == 0 {
                            self.order_price_map.remove(&rr);
                        }
                        proof {
                            assert(self.book_orders(loc, side, p) == book1.orders_at(side, p));
                            assert(self.book_shares(loc, side, p) == book1.shares_at(side, p));
                            assert forall|l2: StockLocateCode, sd2: BuySellIndicator, p2: u32|
                                !(l2 == loc && sd2 == side && (p2 == p || p2 == p)) implies #[trigger]
                                self.book_orders(l2, sd2, p2) == b0.book_orders(l2, sd2, p2) by {
                                if l2 == loc {
                                    assert(b0.book_orders(l2, sd2, p2) == book0.orders_at(sd2, p2));
                                    assert(self.book_orders(l2, sd2, p2) == book1.orders_at(sd2, p2));
                                    let q = book1.orders_at(sd2, p2);
                                    let q0 = book0.orders_at(sd2, p2);
                                }
                            }
                            assert forall|l2: StockLocateCode, sd2: BuySellIndicator, p2: u32|
                                !(l2 == loc && sd2 == side && (p2 == p || p2 == p)) implies #[trigger]
                                self.book_shares(l2, sd2, p2) == b0.book_shares(l2, sd2, p2) by {
                                if l2 == loc {
                                    assert(b0.book_shares(l2, sd2, p2) == book0.shares_at(sd2, p2));
                                    assert(self.book_shares(l2, sd2, p2) == book1.shares_at(sd2, p2));
                                    let q = book1.orders_at(sd2, p2);
                                    let q0 = book0.orders_at(sd2, p2);
                                }
                            }
                            assert forall|l2: StockLocateCode, sd2: BuySellIndicator, p2: u32|
                                !(l2 == loc && sd2 == side && (p2 == p || p2 == p)) implies #[trigger]
                                self.book_has_level(l2, sd2, p2) == b0.book_has_level(l2, sd2, p2) by {
                                if l2 == loc {
                                    assert(b0.book_has_level(l2, sd2, p2) == book0.has_level(sd2, p2));
                                    assert(self.book_has_level(l2, sd2, p2) == book1.has_level(sd2, p2));
                                    let q = book1.orders_at(sd2, p2);
                                    let q0 = book0.orders_at(sd2, p2);
                                }
                            }
                            if is_cancel && remaining == 0 {
                                lemma_link_remove(b0, *self, loc, side, p, rr);
                            } else {
                                lemma_link_update(
                                    b0,
                                    *self,
                                    loc,
                                    side,
                                    p,
                                    rr,
                                    AddOrder { shares: remaining, ..o },
                                );
                            }
                            assert(mdebit_post(b0, *self, rr, x, is_cancel));
                        }
                        Ok(remaining)
                    },
                }
            },
        }
    }

    /// Executes shares against a resting order; the side-table keeps the
    /// entry even when the order is emptied, until a delete arrives.
    /// Returns the match number. Fails with `NonExistentOrder` for an
    /// unknown reference and `InvalidCancellation` when more shares are
    /// executed than rest.
    pub fn execute_order(&mut self, order: OrderExecuted) -> (r: Result<u64, OrderBookError>)
        requires
            old(self).wf(),
        ensures
            final(self).wf(),
            !old(self).pm().contains_key(order.order_reference_number) ==> r == Err::<
                u64,
                OrderBookError,
            >(OrderBookError::NonExistentOrder) && *final(self) == *old(self),
            old(self).pm().contains_key(order.order_reference_number) ==> {
                let rr = order.order_reference_number;
                let loc = old(self).pm()[rr].0;
                let side = old(self).pm()[rr].2;
                let p = old(self).pm()[rr].1.value;
                let o = old(self).book_orders(loc, side, p)[rr];
                &&& (order.executed_shares > o.shares ==> r == Err::<u64, OrderBookError>(
                    OrderBookError::InvalidCancellation,
                ) && final(self).views_unchanged(*old(self)))
                &&& (order.executed_shares <= o.shares ==> r == Ok::<u64, OrderBookError>(
                    order.match_number,
                ) && mdebit_post(
                    *old(self),
                    *final(self),
                    rr,
                    order.executed_shares,
                    false,
                ))
            },
    {
        match self.apply_debit(order.order_reference_number, order.executed_shares, false) {
            Ok(_) => Ok(order.match_number),
            Err(e) => Err(e),
        }
    }

    /// As `execute_order`, and also surfaces the execution price and the
    /// printable flag from the record.
    pub fn execute_order_with_price(&mut self, order: OrderExecutedWithPrice) -> (r: Result<
        (u64, Price4, bool),
        OrderBookError,
    >)
        requires
            old(self).wf(),
        ensures
            final(self).wf(),
            !old(self).pm().contains_key(order.order_executed_message.order_reference_number)
                ==> r == Err::<(u64, Price4, bool), OrderBookError>(
                OrderBookError::NonExistentOrder,
            ) && *final(self) == *old(self),
            old(self).pm().contains_key(order.order_executed_message.order_reference_number) ==> {
                let rr = order.order_executed_message.order_reference_number;
                let loc = old(self).pm()[rr].0;
                let side = old(self).pm()[rr].2;
                let p = old(self).pm()[rr].1.value;
                let o = old(self).book_orders(loc, side, p)[rr];
                &&& (order.order_executed_message.executed_shares > o.shares ==> r == Err::<
                    (u64, Price4, bool),
                    OrderBookError,
                >(OrderBookError::InvalidCancellation) && final(self).views_unchanged(*old(self)))
                &&& (order.order_executed_message.executed_shares <= o.shares ==> r == Ok::<
                    (u64, Price4, bool),
                    OrderBookError,
                >(
                    (order.order_executed_message.match_number, order.exec_price, order.printable),
                ) && mdebit_post(
                    *old(self),
                    *final(self),
                    rr,
                    order.order_executed_message.executed_shares,
                    false,
                ))
            },
    {
        match self.apply_debit(
            order.order_executed_message.order_reference_number,
            order.order_executed_message.executed_shares,
            false,
        ) {
            Ok(_) => Ok(
                (order.order_executed_message.match_number, order.exec_price, order.printable),
            ),
            Err(e) => Err(e),
        }
    }

    /// Cancels shares off a resting order. A cancel that empties the
    /// order removes it and its side-table entry. An unknown reference
    /// is ignored. Fails with `InvalidCancellation` when more shares are
    /// cancelled than rest.
    pub fn cancel_order(&mut self, order: OrderCancel) -> (r: Result<(), OrderBookError>)
        requires
            old(self).wf(),
        ensures
            final(self).wf(),
            !old(self).pm().contains_key(order.order_reference_number) ==> r == Ok::<
                (),
                OrderBookError,
            >(()) && *final(self) == *old(self),
            old(self).pm().contains_key(order.order_reference_number) ==> {
                let rr = order.order_reference_number;
                let loc = old(self).pm()[rr].0;
                let side = old(self).pm()[rr].2;
                let p = old(self).pm()[rr].1.value;
                let o = old(self).book_orders(loc, side, p)[rr];
                &&& (order.canceled_shares > o.shares ==> r == Err::<(), OrderBookError>(
                    OrderBookError::InvalidCancellation,
                ) && final(self).views_unchanged(*old(self)))
                &&& (order.canceled_shares <= o.shares ==> r == Ok::<(), OrderBookError>(())
                    && mdebit_post(
                    *old(self),
                    *final(self),
                    rr,
                    order.canceled_shares,
                    true,
                ))
            },
    {
        if !self.order_price_map.contains_key(&order.order_reference_number) {
            return Ok(());
        }
        match self.apply_debit(order.order_reference_number, order.canceled_shares, true) {
            Ok(_) => Ok(()),
            Err(e) => Err(e),
        }
    }

    /// Deletes the resting order under `rr` and its side-table entry:
    /// the shared path of the delete and replace operations.
    #[verifier::rlimit(100)]
    #[verifier::spinoff_prover]
    fn apply_delete(&mut self, rr: OrderReferenceNumber) -> (res: Result<AddOrder, OrderBookError>)
        requires
            old(self).wf(),
            old(self).pm().contains_key(rr),
        ensures
            final(self).wf(),
            res == Ok::<AddOrder, OrderBookError>(
                old(self).book_orders(
                    old(self).pm()[rr].0,
                    old(self).pm()[rr].2,
                    old(self).pm()[rr].1.value,
                )[rr],
            ),
            mdelete_post(*old(self), *final(self), rr),
    {
        let coords = self.coords_of(rr);
        match coords {
            None => {
                proof {
                    assert(false);
                }
                Err(OrderBookError::NonExistentOrder)
            },
            Some((loc, price, side)) => {
                proof {
                    assert(old(self).book_orders(loc, side, price.value).contains_key(rr));
                    assert(self.order_books@.contains_key(loc));
                }
                let mut book = match self.order_books.remove(&loc) {
                    Some(b) => b,
                    None => {
                        proof {
                            assert(false);
                        }
                        LimitOrderBook::new()
                    },
                };
                let ghost book0 = book;
                let res = book.delete_order(rr, price, side);
                let ghost book1 = book;
                self.order_books.insert(loc, book);
                self.order_price_map.remove(&rr);
                let ghost b0 = *old(self);
                let ghost p = price.value;
                proof {
                    assert(b0.book_orders(loc, side, p) == book0.orders_at(side, p));
                    assert(b0.book_shares(loc, side, p) == book0.shares_at(side, p));
                    lemma_book_order_fields(book0, side, p);
                    assert(res is Ok);
                    assert(self.book_orders(loc, side, p) == book1.orders_at(side, p));
                    assert(self.book_shares(loc, side, p) == book1.shares_at(side, p));
                    assert forall|l2: StockLocateCode, sd2: BuySellIndicator, p2: u32|
                        !(l2 == loc && sd2 == side && (p2 == p || p2 == p)) implies #[trigger]
                        self.book_orders(l2, sd2, p2) == b0.book_orders(l2, sd2, p2) by {
                        if l2 == loc {
                            assert(b0.book_orders(l2, sd2, p2) == book0.orders_at(sd2, p2));
                            assert(self.book_orders(l2, sd2, p2) == book1.orders_at(sd2, p2));
                            let q = book1.orders_at(sd2, p2);
                            let q0 = book0.orders_at(sd2, p2);
                        }
                    }
                    assert forall|l2: StockLocateCode, sd2: BuySellIndicator, p2: u32|
                        !(l2 == loc && sd2 == side && (p2 == p || p2 == p)) implies #[trigger]
                        self.book_shares(l2, sd2, p2) == b0.book_shares(l2, sd2, p2) by {
                        if l2 == loc {
                            assert(b0.book_shares(l2, sd2, p2) == book0.shares_at(sd2, p2));
                            assert(self.book_shares(l2, sd2, p2) == book1.shares_at(sd2, p2));
                            let q = book1.orders_at(sd2, p2);
                            let q0 = book0.orders_at(sd2, p2);
                        }
                    }
                    assert forall|l2: StockLocateCode, sd2: BuySellIndicator, p2: u32|
                        !(l2 == loc && sd2 == side && (p2 == p || p2 == p)) implies #[trigger]
                        self.book_has_level(l2, sd2, p2) == b0.book_has_level(l2, sd2, p2) by {
                        if l2 == loc {
                            assert(b0.book_has_level(l2, sd2, p2) == book0.has_level(sd2, p2));
                            assert(self.book_has_level(l2, sd2, p2) == book1.has_level(sd2, p2));
                            let q = book1.orders_at(sd2, p2);
                            let q0 = book0.orders_at(sd2, p2);
                        }
                    }
                    assert(self.pm() == b0.pm().remove(rr));
                    assert(self.book_orders(loc, side, p) == b0.book_orders(loc, side, p).remove(
                        rr,
                    ));
                    lemma_link_remove(b0, *self, loc, side, p, rr);
                    assert(mdelete_post(b0, *self, rr));
                }
                match res {
                    Ok(o) => Ok(o),
                    Err(e) => Err(e),
                }
            },
        }
    }

    /// Deletes a resting order outright, removing it from its level and
    /// from the side-table. An unknown reference is ignored.
    pub fn delete_order(&mut self, order: OrderDelete) -> (r: Result<(), OrderBookError>)
        requires
            old(self).wf(),
        ensures
            final(self).wf(),
            r == Ok::<(), OrderBookError>(()),
            !old(self).pm().contains_key(order.order_reference_number) ==> *final(self) == *old(
                self,
            ),
            old(self).pm().contains_key(order.order_reference_number) ==> mdelete_post(
                *old(self),
                *final(self),
                order.order_reference_number,
            ),
    {
        if !self.order_price_map.contains_key(&order.order_reference_number) {
            return Ok(());
        }
        match self.apply_delete(order.order_reference_number) {
            Ok(_) => Ok(()),
            Err(_) => Ok(()),
        }
    }

    /// Replaces a resting order: deletes the order under the original
    /// reference, then rests a fresh one under the new reference with
    /// the new shares and price, inheriting side, ticker, MPID and stock
    /// locate. An unknown original reference is ignored. Fails with
    /// `DuplicateOrder`, changing nothing, when the new reference is
    /// already resting elsewhere.
    pub fn replace_order(&mut self, order: OrderReplace) -> (r: Result<(), OrderBookError>)
        requires
            old(self).wf(),
            old(self).pm().contains_key(order.original_order_reference_number) && !(old(
                self,
            ).pm().contains_key(order.new_order_reference_number)
                && order.new_order_reference_number != order.original_order_reference_number)
                ==> {
                let rr = order.original_order_reference_number;
                let loc = old(self).pm()[rr].0;
                let side = old(self).pm()[rr].2;
                let p = old(self).pm()[rr].1.value;
                let o = old(self).book_orders(loc, side, p)[rr];
                (if order.price.value == p {
                    old(self).book_shares(loc, side, p) - o.shares
                } else {
                    old(self).book_shares(loc, side, order.price.value)
                }) + order.shares <= u32::MAX
            },
        ensures
            final(self).wf(),
            !old(self).pm().contains_key(order.original_order_reference_number) ==> r == Ok::<
                (),
                OrderBookError,
            >(()) && *final(self) == *old(self),
            old(self).pm().contains_key(order.original_order_reference_number) && old(
                self,
            ).pm().contains_key(order.new_order_reference_number)
                && order.new_order_reference_number != order.original_order_reference_number ==> r
                == Err::<(), OrderBookError>(OrderBookError::DuplicateOrder) && *final(self)
                == *old(self),
            old(self).pm().contains_key(order.original_order_reference_number) && !(old(
                self,
            ).pm().contains_key(order.new_order_reference_number)
                && order.new_order_reference_number != order.original_order_reference_number)
                ==> r == Ok::<(), OrderBookError>(()) && mreplace_post(
                *old(self),
                *final(self),
                order,
            ),
    {
        if !self.order_price_map.contains_key(&order.original_order_reference_number) {
            return Ok(());
        }
        if order.new_order_reference_number != order.original_order_reference_number
            && self.order_price_map.contains_key(&order.new_order_reference_number) {
            return Err(OrderBookError::DuplicateOrder);
        }
        let ghost b0 = *old(self);
        let o = match self.apply_delete(order.original_order_reference_number) {
            Ok(o) => o,
            Err(_) => {
                proof {
                    assert(false);
                }
                return Err(OrderBookError::NonExistentOrder);
            },
        };
        let ghost mid = *self;
        proof {
            let rr = order.original_order_reference_number;
            let loc = b0.pm()[rr].0;
            let side = b0.pm()[rr].2;
            let p = b0.pm()[rr].1.value;
            assert(b0.order_books@.contains_key(loc));
            lemma_book_order_fields(b0.order_books@[loc], side, p);
            assert(o.buy_sell_indicator == side);
            assert(o.header.stock_locate == loc);
            assert(!mid.pm().contains_key(order.new_order_reference_number));
        }
        let updated = AddOrder {
            order_reference_number: order.new_order_reference_number,
            shares: order.shares,
            price: order.price,
            ..o
        };
        let res = self.add_order(updated);
        proof {
            assert(res is Ok);
            assert(updated == inherited_order(b0, order));
            assert(mdelete_post(b0, mid, order.original_order_reference_number) && madd_post(
                mid,
                *self,
                inherited_order(b0, order),
            ));
            assert(mreplace_post(b0, *self, order));
        }
        Ok(())
    }
}

} // verus!
