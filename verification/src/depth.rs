//! The layout of a depth chart: one row per price level, with a bar whose
//! length follows the volume that rests at the level. Turning the rows into
//! text is left to the caller.

use crate::levels::volume_at;
use crate::order::Price;
use crate::orderside::OrderSide;
use vstd::prelude::*;

verus! {

/// The width of the rule above each side of the chart, in columns.
pub const DISPLAY_NUM_COLS: usize = 30;

/// The columns that a row keeps for its bar before the bar runs over.
pub const BAR_ROOM: usize = 25;

/// One row of the chart: a price level, the blanks in front of its volume and
/// the cells of its bar.
#[derive(Clone, Copy, Debug, PartialEq, Eq, Structural)]
pub struct DepthRow {
    pub price: Price,
    pub volume: u128,
    pub padding: usize,
    pub bars: u128,
}

/// The cells of the bar for `volume`: one for every two lots, less one.
pub open spec fn bar_cells(volume: u128) -> nat {
    if volume / 2 >= 1 {
        (volume / 2 - 1) as nat
    } else {
        0
    }
}

/// The blanks in front of a row: what the bar leaves of its room.
pub open spec fn padding_cells(volume: u128) -> nat {
    if bar_cells(volume) >= BAR_ROOM {
        0
    } else {
        (BAR_ROOM - bar_cells(volume)) as nat
    }
}

/// The row for a level at `price` that holds `volume`.
pub open spec fn row_for(price: Price, volume: u128) -> DepthRow {
    DepthRow {
        price,
        volume,
        padding: padding_cells(volume) as usize,
        bars: bar_cells(volume) as u128,
    }
}

/// Lays out the row for a level at `price` that holds `volume`.
pub fn depth_row(price: Price, volume: u128) -> (row: DepthRow)
    ensures
        row == row_for(price, volume),
{
    let half = volume / 2;
    let bars: u128 = if half >= 1 {
        half - 1
    } else {
        0
    };
    let padding: usize = if bars >= BAR_ROOM as u128 {
        0
    } else {
        BAR_ROOM - bars as usize
    };
    DepthRow { price, volume, padding, bars }
}

/// Lays out one row for each price level of `side`: from the highest price
/// down if `rev` is set, from the lowest price up if not.
pub fn depth_rows(side: &OrderSide, rev: bool) -> (rows: Vec<DepthRow>)
    requires
        side.wf(),
    ensures
        rows@.len() == side@.dom().len(),
        forall|i: int|
            0 <= i < rows@.len() ==> side@.contains_key((#[trigger] rows@[i]).price) && volume_at(
                side@,
                rows@[i].price,
            ) <= u128::MAX && rows@[i] == row_for(
                rows@[i].price,
                volume_at(side@, rows@[i].price) as u128,
            ),
        forall|i: int, j: int|
            0 <= i < j < rows@.len() ==> if rev {
                rows@[i].price > rows@[j].price
            } else {
                rows@[i].price < rows@[j].price
            },
        forall|price: Price|
            side@.contains_key(price) ==> exists|i: int|
                0 <= i < rows@.len() && (#[trigger] rows@[i]).price == price,
{
    let levels = side.price_levels();
    let count = levels.len();
    let mut rows: Vec<DepthRow> = Vec::new();
    let mut done: usize = 0;
    while done < count
        invariant
            count == levels@.len(),
            done <= count,
            rows@.len() == done,
            forall|i: int|
                0 <= i < done ==> #[trigger] rows@[i] == row_for(
                    levels@[if rev {
                        count - 1 - i
                    } else {
                        i
                    }].0,
                    levels@[if rev {
                        count - 1 - i
                    } else {
                        i
                    }].1,
                ),
        decreases count - done,
    {
        let at = if rev {
            count - 1 - done
        } else {
            done
        };
        rows.push(depth_row(levels[at].0, levels[at].1));
        done = done + 1;
    }
    proof {
        assert forall|i: int| 0 <= i < rows@.len() implies side@.contains_key(
            (#[trigger] rows@[i]).price,
        ) && volume_at(side@, rows@[i].price) <= u128::MAX && rows@[i] == row_for(
            rows@[i].price,
            volume_at(side@, rows@[i].price) as u128,
        ) by {
            let at = if rev {
                count - 1 - i
            } else {
                i
            };
            assert(side@.contains_key(levels@[at].0));
        }
        assert forall|price: Price| side@.contains_key(price) implies exists|i: int|
            0 <= i < rows@.len() && (#[trigger] rows@[i]).price == price by {
            let at = choose|at: int| 0 <= at < levels@.len() && #[trigger] levels@[at].0 == price;
            let i = if rev {
                count - 1 - at
            } else {
                at
            };
            assert(rows@[i].price == price);
        }
    }
    rows
}

} // verus!
