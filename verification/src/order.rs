//! Orders: one trading intent each, fixed once created.

use crate::trusted::now;
use std::time::SystemTime;
use vstd::prelude::*;

verus! {

/// A price, in ticks.
pub type Price = u64;

/// The volume of one order, in lots.
pub type Volume = u64;

/// The direction of an order.
#[derive(Clone, Copy, Debug, PartialEq, Eq, Structural)]
pub enum OrderKind {
    Buy,
    Sell,
}

/// One trading intent. Nothing is validated here: admission is the book's job.
#[derive(Debug, PartialEq)]
pub struct Order {
    pub kind: OrderKind,
    pub id: String,
    pub price: Price,
    pub volume: Volume,
    pub time: SystemTime,
}

impl Clone for Order {
    fn clone(&self) -> (copy: Self)
        ensures
            copy == *self,
    {
        Order {
            kind: self.kind,
            id: self.id.clone(),
            price: self.price,
            volume: self.volume,
            time: self.time,
        }
    }
}

impl Order {
    /// An order created at the instant `time`.
    pub fn stamped(kind: OrderKind, id: String, price: Price, volume: Volume, time: SystemTime) -> (order: Order)
        ensures
            order == (Order { kind, id, price, volume, time }),
    {
        Order { kind, id, price, volume, time }
    }

    /// An order stamped with the current time.
    pub fn new(kind: OrderKind, id: String, price: Price, volume: Volume) -> (order: Order)
        ensures
            order.kind == kind,
            order.id == id,
            order.price == price,
            order.volume == volume,
    {
        Order::stamped(kind, id, price, volume, now())
    }
}

} // verus!
