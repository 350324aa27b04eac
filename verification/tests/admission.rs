use orderbook::order::OrderKind::{Buy, Sell};
use orderbook::order::{Order, OrderKind};
use orderbook::orderbook::{OrderBook, OrderBookError};

fn order(kind: OrderKind, id: &str, price: u64, volume: u64) -> Order {
    Order::new(kind, id.into(), price, volume)
}

/// What the queries and counters of a book show.
fn snapshot(book: &OrderBook, prices: &[u64]) -> Vec<Option<u128>> {
    let mut seen = vec![
        book.get_best_ask().map(u128::from),
        book.get_best_bid().map(u128::from),
        Some(book.len() as u128),
        Some(book.asks().len() as u128),
        Some(book.bids().len() as u128),
        Some(book.asks().depth() as u128),
        Some(book.bids().depth() as u128),
        Some(book.asks().volume()),
        Some(book.bids().volume()),
    ];
    for price in prices {
        seen.push(book.get_volume_at_ask_price(*price));
        seen.push(book.get_volume_at_bid_price(*price));
    }
    seen
}

#[test]
fn admitted_order_adds_exactly_its_volume_to_its_level() {
    let mut book = OrderBook::new();
    book.add_order(order(Sell, "a", 100, 7)).expect("a");
    book.add_order(order(Sell, "b", 101, 11)).expect("b");
    book.add_order(order(Buy, "c", 100, 13)).expect("c");

    let trades = book.add_order(order(Sell, "d", 100, 5)).expect("d");
    assert!(trades.is_empty());
    assert_eq!(book.get_volume_at_ask_price(100), Some(12));
    assert_eq!(book.get_volume_at_ask_price(101), Some(11));
    assert_eq!(book.get_volume_at_bid_price(100), Some(13));

    book.add_order(order(Buy, "e", 99, 1)).expect("e");
    assert_eq!(book.get_volume_at_bid_price(99), Some(1));
    assert_eq!(book.get_volume_at_bid_price(100), Some(13));
    assert_eq!(book.get_volume_at_ask_price(100), Some(12));
}

#[test]
fn largest_volumes_do_not_overflow_the_level() {
    let mut book = OrderBook::new();
    book.add_order(order(Buy, "a", u64::MAX, u64::MAX)).expect("a");
    book.add_order(order(Buy, "b", u64::MAX, u64::MAX)).expect("b");
    book.add_order(order(Buy, "c", 1, u64::MAX)).expect("c");
    assert_eq!(book.get_volume_at_bid_price(u64::MAX), Some(2 * (u64::MAX as u128)));
    assert_eq!(book.bids().volume(), 3 * (u64::MAX as u128));
    assert_eq!(book.get_best_bid(), Some(u64::MAX));
}

#[test]
fn duplicate_leaves_the_book_as_it_was() {
    let mut book = OrderBook::new();
    book.add_order(order(Sell, "a", 100, 7)).expect("a");
    book.add_order(order(Buy, "b", 90, 3)).expect("b");
    let prices = [90, 95, 100];
    let before = snapshot(&book, &prices);

    let again = book.add_order(order(Sell, "a", 100, 7));
    assert_eq!(again, Err(OrderBookError::OrderAlreadyExists("a".to_string())));
    assert_eq!(snapshot(&book, &prices), before);

    let changed = book.add_order(order(Buy, "a", 95, 1));
    assert_eq!(changed, Err(OrderBookError::OrderAlreadyExists("a".to_string())));
    assert_eq!(snapshot(&book, &prices), before);
}

#[test]
fn zero_volume_is_rejected_and_changes_nothing() {
    let mut book = OrderBook::new();
    book.add_order(order(Sell, "a", 100, 7)).expect("a");
    let prices = [0, 100, 101];
    let before = snapshot(&book, &prices);

    assert_eq!(book.add_order(order(Sell, "b", 101, 0)), Err(OrderBookError::OrderVolumeZero));
    assert_eq!(book.add_order(order(Buy, "c", 100, 0)), Err(OrderBookError::OrderVolumeZero));
    assert_eq!(snapshot(&book, &prices), before);

    // The identifier of a rejected order stays free.
    book.add_order(order(Sell, "b", 101, 4)).expect("b");
    assert_eq!(book.get_volume_at_ask_price(101), Some(4));
}

#[test]
fn zero_price_is_rejected_and_changes_nothing() {
    let mut book = OrderBook::new();
    book.add_order(order(Buy, "a", 100, 7)).expect("a");
    let prices = [0, 100];
    let before = snapshot(&book, &prices);

    assert_eq!(book.add_order(order(Buy, "b", 0, 5)), Err(OrderBookError::OrderPriceZero));
    assert_eq!(book.add_order(order(Sell, "c", 0, 5)), Err(OrderBookError::OrderPriceZero));
    assert_eq!(snapshot(&book, &prices), before);
    assert_eq!(book.get_best_ask(), None);
}

#[test]
fn first_broken_rule_gives_the_error() {
    let mut book = OrderBook::new();
    book.add_order(order(Sell, "a", 100, 7)).expect("a");

    // Duplicate comes before volume and price.
    assert_eq!(
        book.add_order(order(Sell, "a", 0, 0)),
        Err(OrderBookError::OrderAlreadyExists("a".to_string()))
    );
    // Volume comes before price.
    assert_eq!(book.add_order(order(Sell, "b", 0, 0)), Err(OrderBookError::OrderVolumeZero));
    assert_eq!(book.add_order(order(Sell, "b", 0, 1)), Err(OrderBookError::OrderPriceZero));
    assert_eq!(book.len(), 1);
}

#[test]
fn queries_give_the_same_answers_when_repeated() {
    let mut book = OrderBook::new();
    book.add_order(order(Sell, "a", 100, 7)).expect("a");
    book.add_order(order(Sell, "b", 98, 2)).expect("b");
    book.add_order(order(Buy, "c", 97, 3)).expect("c");
    let prices = [97, 98, 99, 100];

    let first = snapshot(&book, &prices);
    let second = snapshot(&book, &prices);
    assert_eq!(first, second);
    assert_eq!(book.get_best_ask(), Some(98));
    assert_eq!(book.get_best_ask(), Some(98));
    assert_eq!(book.get_best_bid(), Some(97));
    assert_eq!(book.get_best_bid(), Some(97));
}

#[test]
fn counters_follow_the_levels() {
    let mut book = OrderBook::new();
    let asks = [(105, 4), (101, 6), (105, 1), (103, 9), (101, 2)];
    for (i, (price, volume)) in asks.iter().enumerate() {
        book.add_order(order(Sell, &format!("ask-{i}"), *price, *volume)).expect("ask");
    }
    book.add_order(order(Buy, "bid-0", 100, 8)).expect("bid");

    let side = book.asks();
    assert_eq!(side.len(), 5);
    assert_eq!(side.depth(), 3);
    assert_eq!(side.volume(), 22);
    let levels = side.price_levels();
    assert_eq!(levels, vec![(101, 8), (103, 9), (105, 5)]);
    assert_eq!(levels.iter().map(|level| level.1).sum::<u128>(), side.volume());
    for (price, volume) in levels {
        assert_eq!(side.volume_at(price), Some(volume));
    }

    assert_eq!(book.bids().len(), 1);
    assert_eq!(book.bids().depth(), 1);
    assert_eq!(book.bids().volume(), 8);
    assert_eq!(book.len(), 6);
}

#[test]
fn error_messages_name_the_broken_rule() {
    assert_eq!(
        OrderBookError::OrderAlreadyExists("sell-1".to_string()).message(),
        "order with id sell-1 already exists"
    );
    assert_eq!(
        OrderBookError::OrderVolumeZero.message(),
        "order volume must be greater than zero"
    );
    assert_eq!(OrderBookError::OrderPriceZero.message(), "order price must be greater than zero");
}

#[test]
fn registry_leads_to_the_resting_order() {
    let mut book = OrderBook::new();
    book.add_order(order(Sell, "a", 100, 7)).expect("a");
    book.add_order(order(Buy, "b", 100, 3)).expect("b");
    book.add_order(order(Sell, "c", 100, 5)).expect("c");
    book.add_order(order(Sell, "d", 99, 1)).expect("d");
    assert_eq!(book.add_order(order(Sell, "e", 98, 0)), Err(OrderBookError::OrderVolumeZero));

    for (id, kind, price, volume) in
        [("a", Sell, 100, 7), ("b", Buy, 100, 3), ("c", Sell, 100, 5), ("d", Sell, 99, 1)]
    {
        let found = book.get_order(id).expect("admitted order");
        assert_eq!(found.id, id);
        assert_eq!(found.kind, kind);
        assert_eq!(found.price, price);
        assert_eq!(found.volume, volume);
    }
    assert!(book.get_order("e").is_none());
    assert!(book.get_order("").is_none());

    // Orders of one level keep their order of arrival.
    assert_eq!(book.asks().order_at(100, 0).map(|o| o.id.as_str()), Some("a"));
    assert_eq!(book.asks().order_at(100, 1).map(|o| o.id.as_str()), Some("c"));
    assert!(book.asks().order_at(100, 2).is_none());
    assert!(book.asks().order_at(101, 0).is_none());
    assert_eq!(book.bids().order_at(100, 0).map(|o| o.id.as_str()), Some("b"));
}

#[test]
fn default_book_is_empty() {
    let book = OrderBook::default();
    assert_eq!(book.len(), 0);
    assert_eq!(book.get_best_ask(), None);
    assert_eq!(book.get_best_bid(), None);
}
