//! Searching the waypoints of the game for those of a wanted kind.
//!
//! The waypoints arrive batch by batch, one system at a time. What is kept of
//! each batch, and when enough has been found, is decided here.

use crate::types::system::Waypoint;
use crate::types::system_symbol::WaypointSymbol;
use vstd::prelude::*;

verus! {

/// The texts of `symbols`.
pub open spec fn texts(symbols: Seq<WaypointSymbol>) -> Seq<Seq<char>> {
    symbols.map_values(|symbol: WaypointSymbol| symbol@)
}

/// What is held after looking at the first `verdicts.len()` of `waypoints`, where
/// `found` was held before: `found`, followed by the symbols of those waypoints
/// whose verdict is `true`, in their order.
pub open spec fn gathered(found: Seq<Seq<char>>, waypoints: Seq<Waypoint>, verdicts: Seq<bool>) -> Seq<
    Seq<char>,
>
    decreases verdicts.len(),
{
    if verdicts.len() == 0 {
        found
    } else {
        let before = gathered(found, waypoints, verdicts.drop_last());
        if verdicts.last() {
            before.push(waypoints[verdicts.len() - 1].reference.symbol@)
        } else {
            before
        }
    }
}

/// Whether a search that holds `found` symbols and wants `limit` has enough.
pub fn has_enough(found: usize, limit: usize) -> (enough: bool)
    ensures
        enough == (found >= limit),
{
    found >= limit
}

/// Looks at `waypoints` in order for as long as fewer than `limit` symbols are
/// held, and adds to `found` the symbol of each waypoint that `matches` accepts.
/// Says whether `limit` symbols are held afterwards.
///
/// The verdicts of `matches` are known only once it has been called: the
/// contract speaks of the verdicts that it gave, one for each waypoint looked at.
pub fn gather_matching<F: Fn(&Waypoint) -> bool>(
    found: &mut Vec<WaypointSymbol>,
    waypoints: &Vec<Waypoint>,
    limit: usize,
    matches: F,
) -> (enough: bool)
    requires
        forall|waypoint: Waypoint| matches.requires((&waypoint,)),
    ensures
        enough == (final(found).len() >= limit),
        exists|verdicts: Seq<bool>|
            {
                &&& verdicts.len() <= waypoints.len()
                &&& forall|i: int|
                    0 <= i < verdicts.len() ==> matches.ensures((&waypoints[i],), #[trigger] verdicts[i])
                &&& forall|k: int|
                    0 <= k < verdicts.len() ==> (#[trigger] gathered(
                        texts(old(found)@),
                        waypoints@,
                        verdicts.take(k),
                    )).len() < limit
                &&& texts(final(found)@) == gathered(texts(old(found)@), waypoints@, verdicts)
                &&& verdicts.len() == waypoints.len() || enough
            },
{
    let ghost start = texts(found@);
    let ghost mut verdicts: Seq<bool> = Seq::empty();
    let mut i: usize = 0;
    while i < waypoints.len() && found.len() < limit
        invariant
            i <= waypoints.len(),
            verdicts.len() == i,
            start == texts(old(found)@),
            forall|waypoint: Waypoint| matches.requires((&waypoint,)),
            forall|j: int|
                0 <= j < verdicts.len() ==> matches.ensures((&waypoints[j],), #[trigger] verdicts[j]),
            forall|k: int|
                0 <= k < verdicts.len() ==> (#[trigger] gathered(
                    start,
                    waypoints@,
                    verdicts.take(k),
                )).len() < limit,
            texts(found@) == gathered(start, waypoints@, verdicts),
        decreases waypoints.len() - i,
    {
        let verdict: bool = matches(&waypoints[i]);
        let ghost seen = verdicts;
        let ghost held = texts(found@);
        if verdict {
            let symbol: WaypointSymbol = waypoints[i].reference.symbol.clone();
            found.push(symbol);
            proof {
                assert(texts(found@) =~= held.push(symbol@));
            }
        }
        proof {
            verdicts = seen.push(verdict);
            assert(verdicts.drop_last() == seen);
            assert forall|k: int| 0 <= k < verdicts.len() implies (#[trigger] gathered(
                start,
                waypoints@,
                verdicts.take(k),
            )).len() < limit by {
                if k < seen.len() {
                    assert(verdicts.take(k) == seen.take(k));
                } else {
                    assert(verdicts.take(k) == seen);
                    assert(held.len() == found@.len() - if verdict { 1int } else { 0int });
                }
            }
        }
        i = i + 1;
    }
    found.len() >= limit
}

} // verus!
