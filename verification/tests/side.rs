use orderbook::order::OrderKind::{Buy, Sell};
use orderbook::order::{Order, OrderKind};
use orderbook::orderside::{OrderQueue, OrderSide};
use std::time::{Duration, SystemTime};

fn order(kind: OrderKind, id: &str, price: u64, volume: u64) -> Order {
    Order::new(kind, id.into(), price, volume)
}

#[test]
fn new_order_is_stamped_with_the_current_time() {
    let before = SystemTime::now();
    let order = Order::new(Buy, "buy-1".into(), 10_000, 10);
    let after = SystemTime::now();

    assert!(before <= order.time);
    assert!(order.time <= after);
    assert_ne!(order.time, SystemTime::UNIX_EPOCH);
}

#[test]
fn stamped_order_keeps_what_it_was_given() {
    let time = SystemTime::UNIX_EPOCH + Duration::from_secs(86_400);
    let order = Order::stamped(Sell, "sell-9".into(), 5_000, 5, time);

    assert_eq!(order.kind, Sell);
    assert_eq!(order.id, "sell-9");
    assert_eq!(order.price, 5_000);
    assert_eq!(order.volume, 5);
    assert_eq!(order.time, time);
}

#[test]
fn order_constructor_validates_nothing() {
    let order = Order::new(Buy, String::new(), 0, 0);
    assert_eq!(order.price, 0);
    assert_eq!(order.volume, 0);
    assert_eq!(order.id, "");
}

#[test]
fn clone_of_an_order_equals_it() {
    let order = order(Sell, "sell-1", 5_000, 5);
    let copy = order.clone();
    assert_eq!(copy, order);
    assert_eq!(copy.time, order.time);
}

#[test]
fn queue_keeps_a_running_total() {
    let mut queue = OrderQueue::new();
    assert_eq!(queue.len(), 0);
    assert_eq!(queue.volume(), 0);

    queue.add(order(Sell, "a", 100, 7));
    queue.add(order(Sell, "b", 100, 0));
    queue.add(order(Sell, "c", 100, u64::MAX));
    assert_eq!(queue.len(), 3);
    assert_eq!(queue.volume(), 7 + u64::MAX as u128);
    assert_eq!(queue.get(0).map(|o| o.id.as_str()), Some("a"));
    assert_eq!(queue.get(2).map(|o| o.id.as_str()), Some("c"));
    assert!(queue.get(3).is_none());
}

#[test]
fn empty_side_has_no_best_price() {
    let side = OrderSide::new();
    assert_eq!(side.get_min_price(), None);
    assert_eq!(side.get_max_price(), None);
    assert_eq!(side.volume_at(100), None);
    assert_eq!(side.level_len(100), 0);
    assert_eq!(side.len(), 0);
    assert_eq!(side.depth(), 0);
    assert_eq!(side.volume(), 0);
    assert!(side.price_levels().is_empty());
}

#[test]
fn best_prices_are_the_lowest_and_the_highest_level() {
    let mut side = OrderSide::new();
    for (i, price) in [9_995u64, 10_000, 9_993, 100_000, 9_998].iter().enumerate() {
        side.add_order(order(Buy, &format!("o-{i}"), *price, 1));
    }
    // In numeric order 100000 is the highest price, though its digits sort first.
    assert_eq!(side.get_min_price(), Some(9_993));
    assert_eq!(side.get_max_price(), Some(100_000));

    side.add_order(order(Buy, "low", 2, 1));
    assert_eq!(side.get_min_price(), Some(2));
    assert_eq!(side.get_max_price(), Some(100_000));
}

#[test]
fn single_level_is_both_lowest_and_highest() {
    let mut side = OrderSide::new();
    side.add_order(order(Sell, "a", 77, 3));
    assert_eq!(side.get_min_price(), Some(77));
    assert_eq!(side.get_max_price(), Some(77));
}

#[test]
fn repeated_price_joins_the_existing_level() {
    let mut side = OrderSide::new();
    side.add_order(order(Sell, "a", 100, 7));
    assert_eq!(side.level_len(100), 1);
    side.add_order(order(Sell, "b", 101, 2));
    side.add_order(order(Sell, "c", 100, 5));

    assert_eq!(side.level_len(100), 2);
    assert_eq!(side.level_len(101), 1);
    assert_eq!(side.level_len(102), 0);
    assert_eq!(side.volume_at(100), Some(12));
    assert_eq!(side.volume_at(101), Some(2));
    assert_eq!(side.volume_at(102), None);
    assert_eq!(side.len(), 3);
    assert_eq!(side.depth(), 2);
    assert_eq!(side.volume(), 14);
}

#[test]
fn side_does_not_validate_orders() {
    let mut side = OrderSide::new();
    side.add_order(order(Buy, "a", 0, 0));
    assert_eq!(side.volume_at(0), Some(0));
    assert_eq!(side.get_min_price(), Some(0));
    assert_eq!(side.len(), 1);
    assert_eq!(side.depth(), 1);
}

#[test]
fn price_levels_come_lowest_first() {
    let mut side = OrderSide::new();
    for (i, (price, volume)) in [(300u64, 1u64), (100, 2), (200, 3), (100, 4)].iter().enumerate() {
        side.add_order(order(Sell, &format!("o-{i}"), *price, *volume));
    }
    assert_eq!(side.price_levels(), vec![(100, 6), (200, 3), (300, 1)]);
}
