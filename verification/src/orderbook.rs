//! The order book: admission of orders, the registry of their identifiers,
//! and the best-price and volume queries over the two sides.

use crate::levels::{
    highest_price, is_highest, is_lowest, law_place_adds_the_order, lemma_count_below_place,
    lemma_empty_levels, lemma_highest_price, lemma_lowest_price, lemma_place_well_formed,
    lemma_queue_len_below, lemma_total_volume_push, lowest_price, order_count,
    place, price_limit, queue_at, volume_at, well_formed, Levels,
};
use crate::order::{Order, OrderKind, Price};
use crate::orderside::OrderSide;
use vstd::hash_map::StringHashMap;
use vstd::prelude::*;
use vstd::string::StringExecFns;

verus! {

/// A trade that matching produced. Matching produces none so far.
pub type Trade = ();

/// Why an order was not admitted.
#[derive(Debug, PartialEq, Eq)]
pub enum OrderBookError {
    /// An order with this identifier was admitted before.
    OrderAlreadyExists(String),
    /// The volume of the order is zero.
    OrderVolumeZero,
    /// The price of the order is zero.
    OrderPriceZero,
}

/// An `OrderBookError` with the identifier as a sequence of characters.
pub enum OrderBookErrorView {
    OrderAlreadyExists(Seq<char>),
    OrderVolumeZero,
    OrderPriceZero,
}

impl View for OrderBookError {
    type V = OrderBookErrorView;

    open spec fn view(&self) -> OrderBookErrorView {
        match self {
            OrderBookError::OrderAlreadyExists(id) => OrderBookErrorView::OrderAlreadyExists(id@),
            OrderBookError::OrderVolumeZero => OrderBookErrorView::OrderVolumeZero,
            OrderBookError::OrderPriceZero => OrderBookErrorView::OrderPriceZero,
        }
    }
}

impl OrderBookErrorView {
    /// The text that describes the error.
    pub open spec fn message(self) -> Seq<char> {
        match self {
            OrderBookErrorView::OrderAlreadyExists(id) => "order with id "@ + id
                + " already exists"@,
            OrderBookErrorView::OrderVolumeZero => "order volume must be greater than zero"@,
            OrderBookErrorView::OrderPriceZero => "order price must be greater than zero"@,
        }
    }
}

impl OrderBookError {
    /// The text that describes the error.
    pub fn message(&self) -> (text: String)
        ensures
            text@ == self@.message(),
    {
        match self {
            OrderBookError::OrderAlreadyExists(id) => String::from_str("order with id ").concat(
                id.as_str(),
            ).concat(" already exists"),
            OrderBookError::OrderVolumeZero => String::from_str(
                "order volume must be greater than zero",
            ),
            OrderBookError::OrderPriceZero => String::from_str(
                "order price must be greater than zero",
            ),
        }
    }
}

/// The aggregate volume at `price`, where orders rest at it.
pub open spec fn resting_volume(levels: Levels, price: Price) -> Option<nat> {
    if levels.contains_key(price) {
        Some(volume_at(levels, price))
    } else {
        None
    }
}

/// Where an admitted order rests: its side, its price level and its place in
/// the queue of that level. The registry holds one for each identifier, so the
/// registry and the queue reach the same record.
#[derive(Clone, Copy, Debug, PartialEq, Eq, Structural)]
pub struct OrderHandle {
    pub kind: OrderKind,
    pub price: Price,
    pub slot: usize,
}

/// The state of a book: the registry of identifiers and the levels of each side.
pub struct BookView {
    pub registry: Map<Seq<char>, OrderHandle>,
    pub bids: Levels,
    pub asks: Levels,
}

impl BookView {
    /// The levels of the side that takes orders of `kind`.
    pub open spec fn side(self, kind: OrderKind) -> Levels {
        match kind {
            OrderKind::Buy => self.bids,
            OrderKind::Sell => self.asks,
        }
    }

    /// `handle` points at an order that rests in the book.
    pub open spec fn resolves(self, handle: OrderHandle) -> bool {
        &&& self.side(handle.kind).contains_key(handle.price)
        &&& handle.slot < self.side(handle.kind)[handle.price].len()
    }

    /// The order that `handle` points at.
    pub open spec fn order_at(self, handle: OrderHandle) -> Order {
        self.side(handle.kind)[handle.price][handle.slot as int]
    }

    /// The registry and the sides describe the same orders: each registered
    /// identifier leads to an order that carries it, and each resting order is
    /// registered under its identifier at the place where it rests, and nowhere
    /// else. Resting orders lie on the side of their direction and have a
    /// price and a volume above zero.
    pub open spec fn consistent(self) -> bool {
        &&& well_formed(self.bids)
        &&& well_formed(self.asks)
        &&& self.registry.dom().finite()
        &&& forall|id: Seq<char>| #[trigger]
            self.registry.contains_key(id) ==> self.resolves(self.registry[id]) && self.order_at(
                self.registry[id],
            ).id@ == id
        &&& forall|handle: OrderHandle| #[trigger]
            self.resolves(handle) ==> {
                let order = self.order_at(handle);
                &&& order.kind == handle.kind
                &&& order.price > 0
                &&& order.volume > 0
                &&& self.registry.contains_key(order.id@)
                &&& self.registry[order.id@] == handle
            }
    }

    /// The place that `order` would take if it were admitted now.
    pub open spec fn next_handle(self, order: Order) -> OrderHandle {
        OrderHandle {
            kind: order.kind,
            price: order.price,
            slot: queue_at(self.side(order.kind), order.price).len() as usize,
        }
    }

    /// The book after `order` has been admitted.
    pub open spec fn with_order(self, order: Order) -> BookView {
        BookView {
            registry: self.registry.insert(order.id@, self.next_handle(order)),
            bids: if order.kind == OrderKind::Buy {
                place(self.bids, order)
            } else {
                self.bids
            },
            asks: if order.kind == OrderKind::Sell {
                place(self.asks, order)
            } else {
                self.asks
            },
        }
    }

    /// What a submission of `order` does: the first rule that the order
    /// breaks gives the error, in the order duplicate, volume, price; an order
    /// that breaks none is admitted.
    pub open spec fn submit(self, order: Order) -> Result<BookView, OrderBookErrorView> {
        if self.registry.contains_key(order.id@) {
            Err(OrderBookErrorView::OrderAlreadyExists(order.id@))
        } else if order.volume == 0 {
            Err(OrderBookErrorView::OrderVolumeZero)
        } else if order.price == 0 {
            Err(OrderBookErrorView::OrderPriceZero)
        } else {
            Ok(self.with_order(order))
        }
    }

    /// The book after a submission of `order`, admitted or not.
    pub open spec fn after(self, order: Order) -> BookView {
        match self.submit(order) {
            Ok(next) => next,
            Err(_) => self,
        }
    }

    /// The book after the submissions of `orders`, one after the other.
    pub open spec fn after_all(self, orders: Seq<Order>) -> BookView
        decreases orders.len(),
    {
        if orders.len() == 0 {
            self
        } else {
            self.after_all(orders.drop_last()).after(orders.last())
        }
    }

    /// The book that holds no order.
    pub open spec fn empty() -> BookView {
        BookView { registry: Map::empty(), bids: Map::empty(), asks: Map::empty() }
    }

    /// The lowest price at which a sell order rests.
    pub open spec fn best_ask(self) -> Option<Price> {
        lowest_price(self.asks)
    }

    /// The highest price at which a buy order rests.
    pub open spec fn best_bid(self) -> Option<Price> {
        highest_price(self.bids)
    }
}

/// An order with a new identifier and with a price and a volume above zero
/// is admitted. The aggregate volume at its price on its side then grows by
/// exactly its volume; every other level, and the other side, stay as they were.
pub proof fn law_valid_order_is_admitted(book: BookView, order: Order)
    requires
        !book.registry.contains_key(order.id@),
        order.price > 0,
        order.volume > 0,
    ensures
        book.submit(order) == Ok::<BookView, OrderBookErrorView>(book.with_order(order)),
        resting_volume(book.after(order).side(order.kind), order.price) == Some(
            volume_at(book.side(order.kind), order.price) + order.volume as nat,
        ),
        forall|kind: OrderKind, price: Price|
            kind != order.kind || price != order.price ==> #[trigger] resting_volume(
                book.after(order).side(kind),
                price,
            ) == resting_volume(book.side(kind), price),
{
    lemma_total_volume_push(queue_at(book.side(order.kind), order.price), order);
}

/// Once an identifier is registered, whether by the first of two submissions
/// or before it, a second submission under that identifier is rejected as a
/// duplicate and leaves the book as the first left it.
pub proof fn law_resubmission_is_rejected(book: BookView, first: Order, second: Order)
    requires
        book.submit(first) is Ok || book.registry.contains_key(first.id@),
        second.id@ == first.id@,
    ensures
        book.after(first).submit(second) == Err::<BookView, OrderBookErrorView>(
            OrderBookErrorView::OrderAlreadyExists(first.id@),
        ),
        book.after(first).after(second) == book.after(first),
{
}

/// An order with a new identifier and a volume of zero is rejected for its
/// volume, whatever its price, and the book stays as it was.
pub proof fn law_zero_volume_is_rejected(book: BookView, order: Order)
    requires
        !book.registry.contains_key(order.id@),
        order.volume == 0,
    ensures
        book.submit(order) == Err::<BookView, OrderBookErrorView>(
            OrderBookErrorView::OrderVolumeZero,
        ),
        book.after(order) == book,
{
}

/// An order with a new identifier, a volume above zero and a price of zero is
/// rejected for its price, and the book stays as it was.
pub proof fn law_zero_price_is_rejected(book: BookView, order: Order)
    requires
        !book.registry.contains_key(order.id@),
        order.volume > 0,
        order.price == 0,
    ensures
        book.submit(order) == Err::<BookView, OrderBookErrorView>(
            OrderBookErrorView::OrderPriceZero,
        ),
        book.after(order) == book,
{
}

/// Submissions keep the registry and the sides consistent: where they are so
/// before a submission, and the queue that the order would join has a place
/// left that a `usize` can number, they are so after it.
pub proof fn law_submission_keeps_consistency(book: BookView, order: Order)
    requires
        book.consistent(),
        queue_at(book.side(order.kind), order.price).len() <= usize::MAX,
    ensures
        book.after(order).consistent(),
{
    if book.submit(order) is Ok {
        let after = book.with_order(order);
        let handle = book.next_handle(order);
        lemma_place_well_formed(book.side(order.kind), order);
        assert forall|other: Seq<char>| #[trigger]
            after.registry.contains_key(other) implies after.resolves(after.registry[other])
            && after.order_at(after.registry[other]).id@ == other by {
            if other != order.id@ {
                assert(book.registry.contains_key(other));
                assert(book.resolves(book.registry[other]));
            }
        }
        assert forall|spot: OrderHandle| #[trigger] after.resolves(spot) implies {
            let resting = after.order_at(spot);
            &&& resting.kind == spot.kind
            &&& resting.price > 0
            &&& resting.volume > 0
            &&& after.registry.contains_key(resting.id@)
            &&& after.registry[resting.id@] == spot
        } by {
            if spot != handle {
                assert(book.resolves(spot));
                assert(book.order_at(spot) == after.order_at(spot));
            }
        }
    }
}

/// Whatever orders are submitted to an empty book, admitted or not, the
/// registry and the sides stay consistent, and the book holds no more orders
/// than were submitted. The orders are as many as a `usize` can count.
pub proof fn law_consistency_holds_throughout(orders: Seq<Order>)
    requires
        orders.len() <= usize::MAX,
    ensures
        BookView::empty().after_all(orders).consistent(),
        order_count(BookView::empty().after_all(orders).bids) + order_count(
            BookView::empty().after_all(orders).asks,
        ) <= orders.len(),
    decreases orders.len(),
{
    if orders.len() == 0 {
        lemma_empty_levels(price_limit());
    } else {
        let order = orders.last();
        let before = BookView::empty().after_all(orders.drop_last());
        law_consistency_holds_throughout(orders.drop_last());
        lemma_queue_len_below(before.side(order.kind), order.price, price_limit());
        law_submission_keeps_consistency(before, order);
        law_place_adds_the_order(before.side(order.kind), order);
    }
}

/// The answers to the best-price queries are fixed by the state of the book:
/// the best ask is the one price with sell orders that no other such price
/// undercuts, the best bid the one price with buy orders that no other such
/// price tops, and either is absent exactly when its side holds no order. So
/// asking again, with no submission in between, gives the same answer.
pub proof fn law_best_prices_are_determined(book: BookView)
    ensures
        forall|price: Price| book.best_ask() == Some(price) <==> is_lowest(book.asks, price),
        forall|price: Price| book.best_bid() == Some(price) <==> is_highest(book.bids, price),
        book.best_ask() is None <==> book.asks.dom() == Set::<Price>::empty(),
        book.best_bid() is None <==> book.bids.dom() == Set::<Price>::empty(),
{
    lemma_lowest_price(book.asks);
    lemma_highest_price(book.bids);
    if book.best_ask() is None {
        assert(book.asks.dom() =~= Set::<Price>::empty());
    } else {
        assert(book.asks.dom().contains(book.best_ask()->0));
    }
    if book.best_bid() is None {
        assert(book.bids.dom() =~= Set::<Price>::empty());
    } else {
        assert(book.bids.dom().contains(book.best_bid()->0));
    }
}

/// A volume that a query returned, as a natural number.
pub open spec fn as_nat(volume: Option<u128>) -> Option<nat> {
    match volume {
        Some(volume) => Some(volume as nat),
        None => None,
    }
}

/// The aggregate root: the registry of admitted identifiers and the two sides.
pub struct OrderBook {
    orders: StringHashMap<OrderHandle>,
    bids: OrderSide,
    asks: OrderSide,
}

impl View for OrderBook {
    type V = BookView;

    closed spec fn view(&self) -> BookView {
        BookView { registry: self.orders@, bids: self.bids@, asks: self.asks@ }
    }
}

impl Default for OrderBook {
    /// An empty book.
    fn default() -> (book: OrderBook)
        ensures
            book.wf(),
            book@ == BookView::empty(),
    {
        OrderBook::new()
    }
}

impl OrderBook {
    /// Both sides are well formed, the registry is consistent with them, and
    /// it holds as many identifiers as there are resting orders.
    pub closed spec fn wf(&self) -> bool {
        &&& self.bids.wf()
        &&& self.asks.wf()
        &&& self@.consistent()
        &&& self.orders@.len() == order_count(self.bids@) + order_count(self.asks@)
    }

    /// The buy side, as a value.
    pub closed spec fn spec_bids(&self) -> OrderSide {
        self.bids
    }

    /// The sell side, as a value.
    pub closed spec fn spec_asks(&self) -> OrderSide {
        self.asks
    }

    /// In a well-formed book the registry and the sides are consistent and
    /// both sides are well formed.
    pub proof fn law_book_is_consistent(&self)
        requires
            self.wf(),
        ensures
            self@.consistent(),
            self@.registry.len() == order_count(self@.bids) + order_count(self@.asks),
            self.spec_bids().wf(),
            self.spec_bids()@ == self@.bids,
            self.spec_asks().wf(),
            self.spec_asks()@ == self@.asks,
    {
    }

    /// An empty book.
    pub fn new() -> (book: OrderBook)
        ensures
            book.wf(),
            book@ == BookView::empty(),
    {
        let book = OrderBook {
            orders: StringHashMap::new(),
            bids: OrderSide::new(),
            asks: OrderSide::new(),
        };
        proof {
            lemma_empty_levels(price_limit());
        }
        book
    }

    /// Submits `order`. It is rejected if its identifier is registered, else
    /// if its volume is zero, else if its price is zero, and the book is then
    /// left as it was. Otherwise it joins the queue at its price on the side of
    /// its direction and its identifier is registered; no trade comes back,
    /// since nothing is matched.
    pub fn add_order(&mut self, order: Order) -> (result: Result<Vec<Trade>, OrderBookError>)
        requires
            old(self).wf(),
        ensures
            final(self).wf(),
            old(self)@.submit(order) == match result {
                Ok(_) => Ok::<BookView, OrderBookErrorView>(final(self)@),
                Err(error) => Err(error@),
            },
            result matches Ok(trades) ==> trades@.len() == 0,
            result is Ok ==> resting_volume(final(self)@.side(order.kind), order.price) == Some(
                volume_at(old(self)@.side(order.kind), order.price) + order.volume as nat,
            ),
            result is Err ==> *final(self) == *old(self),
    {
        let id = order.id.clone();
        if self.orders.contains_key(id.as_str()) {
            return Err(OrderBookError::OrderAlreadyExists(id));
        }
        if order.volume == 0 {
            return Err(OrderBookError::OrderVolumeZero);
        }
        if order.price == 0 {
            return Err(OrderBookError::OrderPriceZero);
        }
        let kind = order.kind;
        let price = order.price;
        let ghost before = self@;
        let slot = match kind {
            OrderKind::Buy => self.bids.level_len(price),
            OrderKind::Sell => self.asks.level_len(price),
        };
        let handle = OrderHandle { kind, price, slot };
        // The registry comes first: once it holds the new identifier, its size
        // shows that the side has room for one more order.
        self.orders.insert(id, handle);
        proof {
            broadcast use vstd::hash_map::axiom_string_hash_map_spec_len;

            assert(self.orders@.len() == self.orders.spec_len());
            assert(self.orders@.len() == before.registry.len() + 1);
            lemma_count_below_place(before.side(kind), order, price_limit());
            lemma_place_well_formed(before.side(kind), order);
        }
        match kind {
            OrderKind::Buy => self.bids.add_order(order),
            OrderKind::Sell => self.asks.add_order(order),
        }
        proof {
            let after = self@;
            assert(after.registry =~= before.with_order(order).registry);
            assert(after.bids =~= before.with_order(order).bids);
            assert(after.asks =~= before.with_order(order).asks);
            assert(after == before.with_order(order));
            law_submission_keeps_consistency(before, order);
            law_valid_order_is_admitted(before, order);
        }
        self.match_orders()
    }

    /// The lowest price at which a sell order rests, if any does.
    pub fn get_best_ask(&self) -> (best: Option<Price>)
        requires
            self.wf(),
        ensures
            best == self@.best_ask(),
    {
        self.asks.get_min_price()
    }

    /// The highest price at which a buy order rests, if any does.
    pub fn get_best_bid(&self) -> (best: Option<Price>)
        requires
            self.wf(),
        ensures
            best == self@.best_bid(),
    {
        self.bids.get_max_price()
    }

    /// The aggregate volume of the sell orders that rest at `price`, if any does.
    pub fn get_volume_at_ask_price(&self, price: Price) -> (found: Option<u128>)
        requires
            self.wf(),
        ensures
            as_nat(found) == resting_volume(self@.asks, price),
    {
        self.asks.volume_at(price)
    }

    /// The aggregate volume of the buy orders that rest at `price`, if any does.
    pub fn get_volume_at_bid_price(&self, price: Price) -> (found: Option<u128>)
        requires
            self.wf(),
        ensures
            as_nat(found) == resting_volume(self@.bids, price),
    {
        self.bids.volume_at(price)
    }

    /// The order that was admitted under `id`, if any was: the record that
    /// rests in its queue, reached through the registry.
    pub fn get_order(&self, id: &str) -> (found: Option<&Order>)
        requires
            self.wf(),
        ensures
            match found {
                Some(order) => self@.registry.contains_key(id@) && *order == self@.order_at(
                    self@.registry[id@],
                ) && order.id@ == id@,
                None => !self@.registry.contains_key(id@),
            },
    {
        match self.orders.get(id) {
            Some(handle) => {
                assert(self@.resolves(*handle));
                match handle.kind {
                    OrderKind::Buy => self.bids.order_at(handle.price, handle.slot),
                    OrderKind::Sell => self.asks.order_at(handle.price, handle.slot),
                }
            },
            None => None,
        }
    }

    /// The buy side.
    pub fn bids(&self) -> (side: &OrderSide)
        requires
            self.wf(),
        ensures
            side.wf(),
            side@ == self@.bids,
    {
        &self.bids
    }

    /// The sell side.
    pub fn asks(&self) -> (side: &OrderSide)
        requires
            self.wf(),
        ensures
            side.wf(),
            side@ == self@.asks,
    {
        &self.asks
    }

    /// The number of admitted orders.
    pub fn len(&self) -> (len: usize)
        requires
            self.wf(),
        ensures
            len == self@.registry.len(),
            len == order_count(self@.bids) + order_count(self@.asks),
    {
        self.orders.len()
    }

    /// Matches resting orders against each other. No matching is done: the
    /// book is left as it is and the list of trades is empty.
    fn match_orders(&self) -> (result: Result<Vec<Trade>, OrderBookError>)
        ensures
            result matches Ok(trades) && trades@.len() == 0,
    {
        let trades = Vec::new();
        Ok(trades)
    }
}

} // verus!
