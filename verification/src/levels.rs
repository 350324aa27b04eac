//! The model of one side of the book: a map from each price that holds orders
//! to the queue of orders resting at it, oldest first.

use crate::order::{Order, Price};
use vstd::prelude::*;
use vstd::std_specs::btree::increasing_seq;
use vstd::std_specs::cmp::OrdSpec;

verus! {

/// Price levels: the orders resting at each price, in arrival order.
pub type Levels = Map<Price, Seq<Order>>;

/// The number of distinct prices that a `Price` can take.
pub open spec fn price_limit() -> nat {
    0x1_0000_0000_0000_0000
}

/// The sum of the volumes of `orders`.
pub open spec fn total_volume(orders: Seq<Order>) -> nat
    decreases orders.len(),
{
    if orders.len() == 0 {
        0
    } else {
        total_volume(orders.drop_last()) + orders.last().volume as nat
    }
}

/// The queue at `price`; empty where no order rests at that price.
pub open spec fn queue_at(levels: Levels, price: Price) -> Seq<Order> {
    if levels.contains_key(price) {
        levels[price]
    } else {
        Seq::empty()
    }
}

/// The aggregate volume resting at `price`.
pub open spec fn volume_at(levels: Levels, price: Price) -> nat {
    total_volume(queue_at(levels, price))
}

/// The aggregate volume of all levels whose price is below `bound`.
pub open spec fn volume_below(levels: Levels, bound: nat) -> nat
    decreases bound,
{
    if bound == 0 {
        0
    } else {
        volume_below(levels, (bound - 1) as nat) + volume_at(levels, (bound - 1) as Price)
    }
}

/// The number of orders in all levels whose price is below `bound`.
pub open spec fn count_below(levels: Levels, bound: nat) -> nat
    decreases bound,
{
    if bound == 0 {
        0
    } else {
        count_below(levels, (bound - 1) as nat) + queue_at(levels, (bound - 1) as Price).len()
    }
}

/// The sum of the volumes of all price levels.
pub open spec fn side_volume(levels: Levels) -> nat {
    volume_below(levels, price_limit())
}

/// The number of orders over all price levels.
pub open spec fn order_count(levels: Levels) -> nat {
    count_below(levels, price_limit())
}

/// The levels after `order` has joined the tail of the queue at its price.
pub open spec fn place(levels: Levels, order: Order) -> Levels {
    levels.insert(order.price, queue_at(levels, order.price).push(order))
}

/// `price` holds orders and no lower price does.
pub open spec fn is_lowest(levels: Levels, price: Price) -> bool {
    &&& levels.contains_key(price)
    &&& forall|other: Price| levels.contains_key(other) ==> price <= other
}

/// `price` holds orders and no higher price does.
pub open spec fn is_highest(levels: Levels, price: Price) -> bool {
    &&& levels.contains_key(price)
    &&& forall|other: Price| levels.contains_key(other) ==> other <= price
}

/// The lowest price that holds orders, if any does.
pub open spec fn lowest_price(levels: Levels) -> Option<Price> {
    if exists|price: Price| is_lowest(levels, price) {
        Some(choose|price: Price| is_lowest(levels, price))
    } else {
        None
    }
}

/// The highest price that holds orders, if any does.
pub open spec fn highest_price(levels: Levels) -> Option<Price> {
    if exists|price: Price| is_highest(levels, price) {
        Some(choose|price: Price| is_highest(levels, price))
    } else {
        None
    }
}

/// What holds of the levels of every side: finitely many prices, no empty
/// queue, and every order filed under its own price.
pub open spec fn well_formed(levels: Levels) -> bool {
    &&& levels.dom().finite()
    &&& forall|price: Price| #[trigger]
        levels.contains_key(price) ==> levels[price].len() > 0
    &&& forall|price: Price, slot: int|
        levels.contains_key(price) && 0 <= slot < levels[price].len() ==> (
        #[trigger] levels[price][slot]).price == price
}

/// Appending an order adds its volume to the total.
pub proof fn lemma_total_volume_push(orders: Seq<Order>, order: Order)
    ensures
        total_volume(orders.push(order)) == total_volume(orders) + order.volume,
{
    assert(orders.push(order).drop_last() =~= orders);
}

/// No order carries more than `u64::MAX`, so the total is bounded by the length.
pub proof fn lemma_total_volume_bound(orders: Seq<Order>)
    ensures
        total_volume(orders) <= orders.len() * u64::MAX,
    decreases orders.len(),
{
    if orders.len() > 0 {
        lemma_total_volume_bound(orders.drop_last());
        assert((orders.len() - 1) * u64::MAX + u64::MAX == orders.len() * u64::MAX)
            by (nonlinear_arith);
    }
}

/// Placing an order adds its volume to every partial sum that reaches its price.
pub proof fn lemma_volume_below_place(levels: Levels, order: Order, bound: nat)
    requires
        bound <= price_limit(),
    ensures
        volume_below(place(levels, order), bound) == volume_below(levels, bound) + if order.price
            < bound {
            order.volume as nat
        } else {
            0
        },
    decreases bound,
{
    if bound > 0 {
        lemma_volume_below_place(levels, order, (bound - 1) as nat);
        let price = (bound - 1) as Price;
        if price == order.price {
            lemma_total_volume_push(queue_at(levels, price), order);
        }
    }
}

/// Placing an order adds one to every partial count that reaches its price.
pub proof fn lemma_count_below_place(levels: Levels, order: Order, bound: nat)
    requires
        bound <= price_limit(),
    ensures
        count_below(place(levels, order), bound) == count_below(levels, bound) + if order.price
            < bound {
            1nat
        } else {
            0
        },
    decreases bound,
{
    if bound > 0 {
        lemma_count_below_place(levels, order, (bound - 1) as nat);
    }
}

/// Placing an order appends it to the queue at its price and leaves every
/// other queue as it was. The side then counts one order more, and the
/// aggregate volume of its level and of the side grow by exactly its volume.
pub proof fn law_place_adds_the_order(levels: Levels, order: Order)
    ensures
        queue_at(place(levels, order), order.price) == queue_at(levels, order.price).push(order),
        forall|price: Price|
            price != order.price ==> #[trigger] queue_at(place(levels, order), price) == queue_at(
                levels,
                price,
            ),
        volume_at(place(levels, order), order.price) == volume_at(levels, order.price)
            + order.volume,
        order_count(place(levels, order)) == order_count(levels) + 1,
        side_volume(place(levels, order)) == side_volume(levels) + order.volume,
{
    lemma_total_volume_push(queue_at(levels, order.price), order);
    lemma_count_below_place(levels, order, price_limit());
    lemma_volume_below_place(levels, order, price_limit());
}

/// The volume below a bound is at most `u64::MAX` for each order counted.
pub proof fn lemma_volume_below_bound(levels: Levels, bound: nat)
    ensures
        volume_below(levels, bound) <= count_below(levels, bound) * u64::MAX,
    decreases bound,
{
    if bound > 0 {
        lemma_volume_below_bound(levels, (bound - 1) as nat);
        let queue = queue_at(levels, (bound - 1) as Price);
        lemma_total_volume_bound(queue);
        assert((count_below(levels, (bound - 1) as nat) + queue.len()) * u64::MAX == count_below(
            levels,
            (bound - 1) as nat,
        ) * u64::MAX + queue.len() * u64::MAX) by (nonlinear_arith);
    }
}

/// The orders at one price are among those counted below any bound above it.
pub proof fn lemma_queue_len_below(levels: Levels, price: Price, bound: nat)
    requires
        price < bound,
    ensures
        queue_at(levels, price).len() <= count_below(levels, bound),
    decreases bound,
{
    if price < bound - 1 {
        lemma_queue_len_below(levels, price, (bound - 1) as nat);
    }
}

/// With no level, every partial sum and count is zero.
pub proof fn lemma_empty_levels(bound: nat)
    ensures
        volume_below(Map::<Price, Seq<Order>>::empty(), bound) == 0,
        count_below(Map::<Price, Seq<Order>>::empty(), bound) == 0,
    decreases bound,
{
    if bound > 0 {
        lemma_empty_levels((bound - 1) as nat);
    }
}

/// Where some price holds orders, a lowest such price exists.
pub proof fn lemma_lowest_exists(levels: Levels, price: Price)
    requires
        levels.contains_key(price),
    ensures
        exists|lowest: Price| is_lowest(levels, lowest),
    decreases price,
{
    if exists|other: Price| levels.contains_key(other) && other < price {
        let other = choose|other: Price| levels.contains_key(other) && other < price;
        lemma_lowest_exists(levels, other);
    } else {
        assert(is_lowest(levels, price));
    }
}

/// Where some price holds orders, a highest such price exists.
pub proof fn lemma_highest_exists(levels: Levels, price: Price)
    requires
        levels.contains_key(price),
    ensures
        exists|highest: Price| is_highest(levels, highest),
    decreases u64::MAX - price,
{
    if exists|other: Price| levels.contains_key(other) && other > price {
        let other = choose|other: Price| levels.contains_key(other) && other > price;
        lemma_highest_exists(levels, other);
    } else {
        assert(is_highest(levels, price));
    }
}

/// The lowest price is the one price that holds orders below all others; there
/// is none exactly when no price holds orders.
pub proof fn lemma_lowest_price(levels: Levels)
    ensures
        match lowest_price(levels) {
            Some(price) => is_lowest(levels, price),
            None => forall|price: Price| !levels.contains_key(price),
        },
        forall|price: Price| is_lowest(levels, price) ==> lowest_price(levels) == Some(price),
{
    if lowest_price(levels) is None {
        assert forall|price: Price| !levels.contains_key(price) by {
            if levels.contains_key(price) {
                lemma_lowest_exists(levels, price);
            }
        }
    }
}

/// The highest price is the one price that holds orders above all others; there
/// is none exactly when no price holds orders.
pub proof fn lemma_highest_price(levels: Levels)
    ensures
        match highest_price(levels) {
            Some(price) => is_highest(levels, price),
            None => forall|price: Price| !levels.contains_key(price),
        },
        forall|price: Price| is_highest(levels, price) ==> highest_price(levels) == Some(price),
{
    if highest_price(levels) is None {
        assert forall|price: Price| !levels.contains_key(price) by {
            if levels.contains_key(price) {
                lemma_highest_exists(levels, price);
            }
        }
    }
}

/// Prices that the standard library calls increasing are in strictly rising
/// numeric order.
pub proof fn lemma_increasing_prices(prices: Seq<Price>)
    requires
        increasing_seq(prices),
    ensures
        forall|i: int, j: int| 0 <= i < j < prices.len() ==> prices[i] < prices[j],
{
    broadcast use vstd::std_specs::btree::axiom_increasing_seq_meaning;

    assert forall|i: int, j: int| 0 <= i < j < prices.len() implies prices[i] < prices[j] by {
        assert(prices[i].cmp_spec(&prices[j]) is Less);
    }
}

/// Placing an order keeps the levels well formed.
pub proof fn lemma_place_well_formed(levels: Levels, order: Order)
    requires
        well_formed(levels),
    ensures
        well_formed(place(levels, order)),
{
    let after = place(levels, order);
    assert forall|price: Price, slot: int|
        after.contains_key(price) && 0 <= slot < after[price].len() implies (
    #[trigger] after[price][slot]).price == price by {
        if price == order.price && slot < queue_at(levels, price).len() {
            assert(after[price][slot] == levels[price][slot]);
        }
    }
}

} // verus!
