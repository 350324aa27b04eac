//! One side of the book: the queues of resting orders, one per price, found
//! through an ordered index and a hashed index that always agree.

use crate::levels::{
    highest_price, is_highest, is_lowest, lemma_count_below_place, lemma_empty_levels,
    lemma_highest_price, lemma_increasing_prices, lemma_lowest_price, lemma_total_volume_bound,
    lemma_total_volume_push, lemma_volume_below_bound, lemma_volume_below_place, lowest_price, order_count, place,
    price_limit, queue_at, side_volume, total_volume, volume_at, well_formed, Levels,
};
use crate::order::{Order, Price};
use crate::trusted::{first_key, last_key};
use std::collections::BTreeMap;
use std::collections::HashMap;
use std::collections::VecDeque;
use vstd::prelude::*;
use vstd::std_specs::btree::spec_btree_map_iter;
use vstd::std_specs::iter::IteratorSpec;

verus! {

/// The orders resting at one price, oldest first, with their combined volume.
#[derive(Debug)]
pub struct OrderQueue {
    orders: VecDeque<Order>,
    volume: u128,
}

impl View for OrderQueue {
    type V = Seq<Order>;

    closed spec fn view(&self) -> Seq<Order> {
        self.orders@
    }
}

impl OrderQueue {
    /// The running total equals the sum of the volumes of the queued orders.
    pub closed spec fn wf(&self) -> bool {
        self.volume == total_volume(self.orders@)
    }

    /// An empty queue.
    pub fn new() -> (queue: OrderQueue)
        ensures
            queue.wf(),
            queue@ == Seq::<Order>::empty(),
    {
        OrderQueue { orders: VecDeque::new(), volume: 0 }
    }

    /// Appends `order` at the tail and adds its volume to the running total.
    pub fn add(&mut self, order: Order)
        requires
            old(self).wf(),
        ensures
            final(self).wf(),
            final(self)@ == old(self)@.push(order),
    {
        let volume = order.volume;
        proof {
            lemma_total_volume_push(self.orders@, order);
            lemma_total_volume_bound(self.orders@.push(order));
        }
        self.orders.push_back(order);
        assert(self.orders.len() <= usize::MAX);
        assert(self.orders@.len() * u64::MAX <= usize::MAX * u64::MAX) by (nonlinear_arith)
            requires
                self.orders@.len() <= usize::MAX,
        ;
        self.volume = self.volume + volume as u128;
    }

    /// The combined volume of the queued orders.
    pub fn volume(&self) -> (volume: u128)
        requires
            self.wf(),
        ensures
            volume == total_volume(self@),
    {
        self.volume
    }

    /// The number of queued orders.
    pub fn len(&self) -> (len: usize)
        ensures
            len == self@.len(),
    {
        self.orders.len()
    }

    /// The order at place `slot`, counted from the head of the queue.
    pub fn get(&self, slot: usize) -> (found: Option<&Order>)
        ensures
            match found {
                Some(order) => slot < self@.len() && *order == self@[slot as int],
                None => slot >= self@.len(),
            },
    {
        if slot < self.orders.len() {
            Some(&self.orders[slot])
        } else {
            None
        }
    }
}

/// The price levels of one trading direction.
///
/// Each level is an `OrderQueue` held once, in `levels`; both indexes map a
/// price to the position of its queue there, so they reach the same queue.
#[derive(Debug)]
pub struct OrderSide {
    levels: Vec<OrderQueue>,
    price_tree: BTreeMap<Price, usize>,
    price_map: HashMap<Price, usize>,
    length: usize,
    depth: usize,
    volume: u128,
}

impl View for OrderSide {
    type V = Levels;

    closed spec fn view(&self) -> Levels {
        Map::new(
            |price: Price| self.price_map@.contains_key(price),
            |price: Price| self.levels@[self.price_map@[price] as int]@,
        )
    }
}

impl OrderSide {
    /// The ordered index: each price that holds orders, with the position of
    /// its queue among the levels.
    pub closed spec fn ordered_index(&self) -> Map<Price, usize> {
        self.price_tree@
    }

    /// The hashed index: each price that holds orders, with the position of
    /// its queue among the levels.
    pub closed spec fn hashed_index(&self) -> Map<Price, usize> {
        self.price_map@
    }

    /// The stored count of orders.
    pub closed spec fn spec_len(&self) -> nat {
        self.length as nat
    }

    /// The stored count of distinct prices.
    pub closed spec fn spec_depth(&self) -> nat {
        self.depth as nat
    }

    /// The stored aggregate volume.
    pub closed spec fn spec_volume(&self) -> nat {
        self.volume as nat
    }

    /// The queue that the hashed index gives for `price` is a sound level for
    /// that price: in range, with a true running total, not empty, and holding
    /// orders of that price only.
    spec fn holds_level(&self, price: Price) -> bool {
        let handle = self.price_map@[price] as int;
        &&& handle < self.levels@.len()
        &&& self.levels@[handle].wf()
        &&& self.levels@[handle]@.len() > 0
        &&& forall|slot: int|
            0 <= slot < self.levels@[handle]@.len() ==> (
            #[trigger] self.levels@[handle]@[slot]).price == price
    }

    /// The two indexes agree, every indexed price has a sound level, and the
    /// three counters match the levels.
    pub closed spec fn wf(&self) -> bool {
        &&& self.price_tree@ == self.price_map@
        &&& forall|price: Price| #[trigger]
            self.price_map@.contains_key(price) ==> self.holds_level(price)
        &&& self.depth == self.levels@.len()
        &&& self.depth == self.price_map@.dom().len()
        &&& self.length == order_count(self@)
        &&& self.volume == side_volume(self@)
    }

    /// On a well-formed side the two indexes hold the same prices and lead from
    /// each to the same queue; those prices are the prices of the levels; no
    /// level is empty or holds an order of another price; and the stored
    /// counters are the number of orders, the number of levels and the sum of
    /// the volumes of all levels.
    pub proof fn law_indexes_agree(&self)
        requires
            self.wf(),
        ensures
            self.ordered_index() == self.hashed_index(),
            self.ordered_index().dom() == self@.dom(),
            well_formed(self@),
            self.spec_len() == order_count(self@),
            self.spec_depth() == self@.dom().len(),
            self.spec_volume() == side_volume(self@),
    {
        assert(self@.dom() =~= self.price_map@.dom());
        assert forall|price: Price| #[trigger] self@.contains_key(price) implies self@[price].len()
            > 0 by {
            assert(self.holds_level(price));
        }
        assert forall|price: Price, slot: int|
            self@.contains_key(price) && 0 <= slot < self@[price].len() implies (
        #[trigger] self@[price][slot]).price == price by {
            assert(self.holds_level(price));
        }
    }

    /// A side with no orders.
    pub fn new() -> (side: OrderSide)
        ensures
            side.wf(),
            side@ == Map::<Price, Seq<Order>>::empty(),
            order_count(side@) == 0,
            side_volume(side@) == 0,
    {
        let side = OrderSide {
            levels: Vec::new(),
            price_tree: BTreeMap::new(),
            price_map: HashMap::new(),
            length: 0,
            depth: 0,
            volume: 0,
        };
        proof {
            assert(side@ =~= Map::<Price, Seq<Order>>::empty());
            lemma_empty_levels(price_limit());
        }
        side
    }

    /// Files `order` under its price: at the tail of the queue of that price,
    /// which is created, and entered in both indexes, if the price is new.
    pub fn add_order(&mut self, order: Order)
        requires
            old(self).wf(),
            order_count(old(self)@) < usize::MAX,
        ensures
            final(self).wf(),
            final(self)@ == place(old(self)@, order),
            order_count(final(self)@) == order_count(old(self)@) + 1,
            side_volume(final(self)@) == side_volume(old(self)@) + order.volume,
    {
        let price = order.price;
        let volume = order.volume;
        let ghost before = self@;
        proof {
            lemma_volume_below_place(before, order, price_limit());
            lemma_count_below_place(before, order, price_limit());
            lemma_volume_below_bound(before, price_limit());
            assert(order_count(before) * u64::MAX + u64::MAX <= u128::MAX) by (nonlinear_arith)
                requires
                    order_count(before) < usize::MAX,
                    usize::MAX <= u64::MAX,
            ;
        }
        let found = match self.price_map.get(&price) {
            Some(handle) => Some(*handle),
            None => None,
        };
        match found {
            Some(handle) => {
                self.levels[handle].add(order);
                assert forall|other: Price| #[trigger]
                    self.price_map@.contains_key(other) implies self.holds_level(other) by {
                    assert(old(self).holds_level(other));
                    assert(old(self).holds_level(price));
                }
            },
            None => {
                let mut queue = OrderQueue::new();
                queue.add(order);
                let handle = self.levels.len();
                self.levels.push(queue);
                self.price_map.insert(price, handle);
                self.price_tree.insert(price, handle);
                assert(self.levels.len() <= usize::MAX);
                self.depth = self.depth + 1;
                assert forall|other: Price| #[trigger]
                    self.price_map@.contains_key(other) implies self.holds_level(other) by {
                    if other != price {
                        assert(old(self).holds_level(other));
                    }
                }
            },
        }
        self.length = self.length + 1;
        self.volume = self.volume + volume as u128;
        proof {
            assert(self@ =~= place(before, order)) by {
                assert forall|other: Price| self@.contains_key(other) implies self@[other] == place(
                    before,
                    order,
                )[other] by {
                    if other != price {
                        assert(old(self).holds_level(other));
                        if before.contains_key(price) {
                            assert(old(self).holds_level(price));
                        }
                    }
                }
            }
            assert(self.price_tree@ =~= self.price_map@);
        }
    }

    /// The highest price that holds orders: the best price of a buy side.
    pub fn get_max_price(&self) -> (best: Option<Price>)
        requires
            self.wf(),
        ensures
            best == highest_price(self@),
    {
        let best = last_key(&self.price_tree);
        proof {
            lemma_highest_price(self@);
            if let Some(price) = best {
                assert(is_highest(self@, price));
            }
        }
        best
    }

    /// The lowest price that holds orders: the best price of a sell side.
    pub fn get_min_price(&self) -> (best: Option<Price>)
        requires
            self.wf(),
        ensures
            best == lowest_price(self@),
    {
        let best = first_key(&self.price_tree);
        proof {
            lemma_lowest_price(self@);
            if let Some(price) = best {
                assert(is_lowest(self@, price));
            }
        }
        best
    }

    /// The aggregate volume resting at `price`, if any order rests there.
    pub fn volume_at(&self, price: Price) -> (found: Option<u128>)
        requires
            self.wf(),
        ensures
            match found {
                Some(volume) => self@.contains_key(price) && volume == volume_at(self@, price),
                None => !self@.contains_key(price),
            },
    {
        match self.price_map.get(&price) {
            Some(handle) => {
                assert(self.holds_level(price));
                Some(self.levels[*handle].volume())
            },
            None => None,
        }
    }

    /// The number of orders resting at `price`.
    pub fn level_len(&self, price: Price) -> (len: usize)
        requires
            self.wf(),
        ensures
            len == queue_at(self@, price).len(),
    {
        match self.price_map.get(&price) {
            Some(handle) => {
                assert(self.holds_level(price));
                self.levels[*handle].len()
            },
            None => 0,
        }
    }

    /// The order at place `slot` of the queue at `price`.
    pub fn order_at(&self, price: Price, slot: usize) -> (found: Option<&Order>)
        requires
            self.wf(),
        ensures
            match found {
                Some(order) => slot < queue_at(self@, price).len() && *order == queue_at(
                    self@,
                    price,
                )[slot as int],
                None => slot >= queue_at(self@, price).len(),
            },
    {
        match self.price_map.get(&price) {
            Some(handle) => {
                assert(self.holds_level(price));
                self.levels[*handle].get(slot)
            },
            None => None,
        }
    }

    /// The prices that hold orders, lowest first, each with the aggregate
    /// volume that rests at it.
    pub fn price_levels(&self) -> (rows: Vec<(Price, u128)>)
        requires
            self.wf(),
        ensures
            rows@.len() == self@.dom().len(),
            forall|i: int, j: int| 0 <= i < j < rows@.len() ==> rows@[i].0 < rows@[j].0,
            forall|i: int|
                0 <= i < rows@.len() ==> self@.contains_key(#[trigger] rows@[i].0) && rows@[i].1
                    == volume_at(self@, rows@[i].0),
            forall|price: Price|
                self@.contains_key(price) ==> exists|i: int|
                    0 <= i < rows@.len() && #[trigger] rows@[i].0 == price,
    {
        let mut rows: Vec<(Price, u128)> = Vec::new();
        let ghost items = spec_btree_map_iter(&self.price_tree).remaining();
        let ghost levels = self@;
        for entry in it: self.price_tree.iter()
            invariant
                self.wf(),
                levels == self@,
                it.seq() == items,
                rows@.len() == it.index(),
                forall|i: int| 0 <= i < rows@.len() ==> rows@[i].0 == *(#[trigger] items[i]).0,
                forall|i: int|
                    0 <= i < rows@.len() ==> levels.contains_key((#[trigger] rows@[i]).0)
                        && rows@[i].1 == volume_at(levels, rows@[i].0),
        {
            let (price, handle) = entry;
            assert(entry == items[it.index()]);
            assert(self.price_tree@.contains_key(*price));
            assert(self.price_tree@[*price] == *handle);
            assert(self.holds_level(*price));
            assert(queue_at(levels, *price) == self.levels@[*handle as int]@);
            rows.push((*price, self.levels[*handle].volume()));
        }
        proof {
            let keys = items.map_values(|kv: (&Price, &usize)| *kv.0);
            assert(levels.dom() =~= self.price_tree@.dom());
            assert(keys =~= rows@.map_values(|row: (Price, u128)| row.0));
            lemma_increasing_prices(keys);
            assert forall|i: int, j: int| 0 <= i < j < rows@.len() implies rows@[i].0
                < rows@[j].0 by {
                assert(keys[i] == rows@[i].0 && keys[j] == rows@[j].0);
            }
            assert forall|price: Price| levels.contains_key(price) implies exists|i: int|
                0 <= i < rows@.len() && #[trigger] rows@[i].0 == price by {
                let entry = (&price, &self.price_tree@[price]);
                assert(items.contains(entry));
                let i = choose|i: int| 0 <= i < items.len() && items[i] == entry;
                assert(rows@[i].0 == price);
            }
        }
        rows
    }

    /// The number of orders on this side.
    pub fn len(&self) -> (len: usize)
        requires
            self.wf(),
        ensures
            len == self.spec_len(),
            len == order_count(self@),
    {
        self.length
    }

    /// The number of distinct prices that hold orders.
    pub fn depth(&self) -> (depth: usize)
        requires
            self.wf(),
        ensures
            depth == self.spec_depth(),
            depth == self@.dom().len(),
    {
        proof {
            assert(self@.dom() =~= self.price_map@.dom());
        }
        self.depth
    }

    /// The aggregate volume of all orders on this side.
    pub fn volume(&self) -> (volume: u128)
        requires
            self.wf(),
        ensures
            volume == self.spec_volume(),
            volume == side_volume(self@),
    {
        self.volume
    }
}

} // verus!
