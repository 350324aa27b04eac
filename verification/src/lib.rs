//! Admission and indexing core of a limit order book.
//!
//! Orders are validated by the [`orderbook::OrderBook`], routed to the side that
//! matches their direction and kept there in one FIFO queue per price. Prices
//! and volumes are whole numbers of ticks and lots; the caller picks the scale.
//!
//! A book is changed only through `&mut`, so each submission is a single step
//! for everyone who reads the book. To share a book between threads, put it
//! behind a lock.

pub mod depth;
pub mod levels;
pub mod order;
pub mod orderbook;
pub mod orderside;
pub mod trusted;
