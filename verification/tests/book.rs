use orderbook::order::Order;
use orderbook::order::OrderKind::{Buy, Sell};
use orderbook::orderbook::OrderBook;

/// Prices are counted in ticks of one hundredth.
fn ticks(price: f64) -> u64 {
    (price * 100.0).round() as u64
}

fn price_of(ticks: u64) -> f64 {
    ticks as f64 / 100.0
}

/// Volumes are counted in whole lots.
fn lots(volume: f64) -> u64 {
    volume.round() as u64
}

fn volume_of(lots: u128) -> f64 {
    lots as f64
}

#[test]
fn test_create_buy_order() {
    let order = Order::new(Buy, "buy-1".into(), ticks(100.0), lots(10.0));

    assert_eq!(order.kind, Buy);
    assert_eq!(order.id, "buy-1");
    assert!(price_of(order.price).eq(&100.0));
    assert!(volume_of(order.volume.into()).eq(&10.0));
}

#[test]
fn test_create_sell_order() {
    let order = Order::new(Sell, "sell-1".into(), ticks(50.0), lots(5.0));

    assert_eq!(order.kind, Sell);
    assert_eq!(order.id, "sell-1");
    assert!(price_of(order.price).eq(&50.0));
    assert!(volume_of(order.volume.into()).eq(&5.0));
}

#[test]
fn test_add_duplicate_order_error() {
    let mut ob = OrderBook::new();
    let order = Order::new(Sell, "sell-1".into(), ticks(50.0), lots(5.0));

    let _ = ob.add_order(order.clone());
    let result = ob.add_order(order);

    assert!(result.is_err(), "expected Err for duplicate order id.");
}

#[test]
fn test_orderbook() {
    let mut ob = OrderBook::new();

    let s1 = Order::new(Sell, "sell-1".into(), ticks(99.95), lots(10.0));
    let s2 = Order::new(Sell, "sell-2".into(), ticks(99.95), lots(20.0));
    let s3 = Order::new(Sell, "sell-3".into(), ticks(99.95), lots(30.0));

    let b1 = Order::new(Buy, "buy-1".into(), ticks(99.95), lots(10.0));
    let b2 = Order::new(Buy, "buy-2".into(), ticks(99.95), lots(20.0));

    ob.add_order(s1).expect("add order failed");
    ob.add_order(s2).expect("add order failed");
    ob.add_order(s3).expect("add order failed");

    ob.add_order(b1).expect("add order failed");
    ob.add_order(b2).expect("add order failed");

    let volume_at_ask_price = ob.get_volume_at_ask_price(ticks(99.95)).unwrap();
    let volume_at_bid_price = ob.get_volume_at_bid_price(ticks(99.95)).unwrap();

    assert!(volume_of(volume_at_ask_price).eq(&60.0));
    assert!(volume_of(volume_at_bid_price).eq(&30.0));
}

#[test]
fn test_orderbook_best_ask_bid() {
    let mut ob = OrderBook::new();

    let s1 = Order::new(Sell, "sell-1".into(), ticks(99.94), lots(10.0));
    let s2 = Order::new(Sell, "sell-2".into(), ticks(99.96), lots(20.0));
    let s3 = Order::new(Sell, "sell-3".into(), ticks(99.98), lots(30.0));

    let b1 = Order::new(Buy, "buy-1".into(), ticks(99.93), lots(10.0));
    let b2 = Order::new(Buy, "buy-2".into(), ticks(99.95), lots(20.0));

    let _ = ob.add_order(s1);
    let _ = ob.add_order(s2);
    let _ = ob.add_order(s3);

    ob.add_order(b1).expect("add order failed");
    ob.add_order(b2).expect("add order failed");

    let best_ask = ob.get_best_ask().expect("best ask failed");
    let best_bid = ob.get_best_bid().expect("best bid failed");

    assert!(price_of(best_ask).eq(&99.94));
    assert!(price_of(best_bid).eq(&99.95));
}
