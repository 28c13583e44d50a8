//! The double-six set: the 28 pieces that a round is played with.

use vstd::prelude::*;
use crate::tile::Tile;

verus! {

/// The pieces whose greater value is `high`, by rising smaller value, each
/// lying with the greater value on the left.
pub open spec fn row(high: u8) -> Seq<Tile> {
    Seq::new(high as nat + 1, |low: int| Tile(high, low as u8))
}

/// The pieces whose greater value is below `count`, row after row.
pub open spec fn rows(count: nat) -> Seq<Tile>
    decreases count,
{
    if count == 0 {
        Seq::empty()
    } else {
        rows((count - 1) as nat) + row((count - 1) as u8)
    }
}

/// The double-six set in the order in which it is built.
pub open spec fn full_set() -> Seq<Tile> {
    rows(7)
}

/// The number of pieces whose greater value is below `count`.
pub open spec fn triangle(count: nat) -> nat
    decreases count,
{
    if count == 0 {
        0
    } else {
        triangle((count - 1) as nat) + count
    }
}

/// What `rows(count)` holds: pieces with the greater value on the left and
/// below `count`, none of them twice, and each such piece.
pub proof fn rows_hold_each_piece_once(count: nat)
    requires
        count <= 256,
    ensures
        rows(count).len() == triangle(count),
        forall|n: int|
            0 <= n < rows(count).len() ==> (#[trigger] rows(count)[n]).1 <= rows(count)[n].0
                < count,
        forall|m: int, n: int|
            0 <= m < n < rows(count).len() ==> #[trigger] rows(count)[m] != #[trigger] rows(
                count,
            )[n],
        forall|high: u8, low: u8|
            low <= high < count ==> #[trigger] rows(count).contains(Tile(high, low)),
    decreases count,
{
    if count > 0 {
        let before = rows((count - 1) as nat);
        let added = row((count - 1) as u8);
        let all = rows(count);
        rows_hold_each_piece_once((count - 1) as nat);
        assert forall|n: int| 0 <= n < all.len() implies (#[trigger] all[n]).1 <= all[n].0
            < count by {
            if n < before.len() {
                assert(all[n] == before[n]);
            } else {
                assert(all[n] == added[n - before.len()]);
            }
        }
        assert forall|m: int, n: int| 0 <= m < n < all.len() implies #[trigger] all[m]
            != #[trigger] all[n] by {
            if n < before.len() {
                assert(all[m] == before[m] && all[n] == before[n]);
            } else if m < before.len() {
                assert(all[m] == before[m]);
                assert(all[n] == added[n - before.len()]);
            } else {
                assert(all[m] == added[m - before.len()]);
                assert(all[n] == added[n - before.len()]);
            }
        }
        assert forall|high: u8, low: u8| low <= high < count implies #[trigger] all.contains(
            Tile(high, low),
        ) by {
            if high < count - 1 {
                assert(before.contains(Tile(high, low)));
                let n = choose|n: int| 0 <= n < before.len() && before[n] == Tile(high, low);
                assert(all[n] == Tile(high, low));
            } else {
                assert(added[low as int] == Tile(high, low));
                assert(all[before.len() + low] == Tile(high, low));
            }
        }
    }
}

/// The full set has 28 pieces; each is a pair of values up to 6 with the
/// greater on the left; no two are equal; and every such pair is in it.
pub proof fn full_set_is_double_six()
    ensures
        full_set().len() == 28,
        forall|n: int| 0 <= n < 28 ==> (#[trigger] full_set()[n]).1 <= full_set()[n].0 <= 6,
        forall|m: int, n: int|
            0 <= m < n < 28 ==> #[trigger] full_set()[m] != #[trigger] full_set()[n],
        forall|high: u8, low: u8|
            low <= high <= 6 ==> #[trigger] full_set().contains(Tile(high, low)),
{
    rows_hold_each_piece_once(7);
    reveal_with_fuel(triangle, 8);
}

} // verus!
