use vstd::prelude::*;

use crate::model::{Position, Ship, ShipDirection};

verus! {

/// Cells per side of the square board.
pub const BOARD_SIZE: u32 = 10;

/// Number of places a ship can be put in before checking: every cell, in
/// both directions.
pub const NUM_CANDIDATES: u32 = 200;

/// Length of each of the five ships, in the order they are placed.
pub open spec fn ship_span(i: int) -> u32 {
    if i == 0 { 2 } else if i == 1 { 3 } else if i == 2 { 3 } else if i == 3 { 4 } else { 5 }
}

fn span_of(i: usize) -> (r: u32)
    requires
        i < 5,
    ensures
        r == ship_span(i as int),
{
    if i == 0 { 2 } else if i == 1 { 3 } else if i == 2 { 3 } else if i == 3 { 4 } else { 5 }
}

/// `ship`, `span` cells long, covers `p`.
pub open spec fn covers(ship: Ship, span: u32, p: Position) -> bool {
    match ship.dir {
        ShipDirection::Horizontal => p.y == ship.pos.y && ship.pos.x <= p.x
            && p.x < ship.pos.x + span,
        ShipDirection::Vertical => p.x == ship.pos.x && ship.pos.y <= p.y
            && p.y < ship.pos.y + span,
    }
}

/// `ship`, `span` cells long, lies on the board, unhit.
pub open spec fn fits(ship: Ship, span: u32) -> bool {
    &&& ship.pos.x < BOARD_SIZE
    &&& ship.pos.y < BOARD_SIZE
    &&& ship.hit_mask == 0
    &&& match ship.dir {
        ShipDirection::Horizontal => ship.pos.x + span <= BOARD_SIZE,
        ShipDirection::Vertical => ship.pos.y + span <= BOARD_SIZE,
    }
}

pub open spec fn crosses(a: Ship, sa: u32, b: Ship, sb: u32) -> bool {
    exists|p: Position| covers(a, sa, p) && covers(b, sb, p)
}

/// `ship` of span `span` may join the first `placed.len()` ships.
pub open spec fn placeable(placed: Seq<Ship>, ship: Ship, span: u32) -> bool {
    &&& fits(ship, span)
    &&& forall|i: int| 0 <= i < placed.len() ==> !crosses(placed[i], ship_span(i), ship, span)
}

/// The five ships lie on the board, unhit, and no two share a cell.
pub open spec fn valid_layout(ships: Seq<Ship>) -> bool {
    &&& ships.len() == 5
    &&& forall|i: int| 0 <= i < 5 ==> fits(#[trigger] ships[i], ship_span(i))
    &&& forall|i: int, j: int| 0 <= i < j < 5 ==> !crosses(ships[i], ship_span(i), ships[j], ship_span(j))
}

/// The `c`-th place: first all horizontal ones, row by row, then all vertical.
pub open spec fn candidate(c: int) -> Ship {
    Ship {
        pos: Position { x: (c % 10) as u32, y: ((c / 10) % 10) as u32 },
        dir: if c < 100 { ShipDirection::Horizontal } else { ShipDirection::Vertical },
        hit_mask: 0,
    }
}

fn candidate_at(c: u32) -> (r: Ship)
    requires
        c < NUM_CANDIDATES,
    ensures
        r == candidate(c as int),
{
    let dir = if c < 100 { ShipDirection::Horizontal } else { ShipDirection::Vertical };
    Ship::new(c % 10, (c / 10) % 10, dir)
}

/// Every ship that fits is one of the candidates.
proof fn lemma_fitting_is_candidate(ship: Ship, span: u32)
    requires
        fits(ship, span),
    ensures
        ({
            let c = ship.pos.x + 10 * ship.pos.y + if ship.dir is Horizontal { 0int } else { 100int };
            0 <= c < NUM_CANDIDATES && candidate(c) == ship
        }),
{
}

/// Whether the two ships share a cell.
fn overlaps(a: Ship, sa: u32, b: Ship, sb: u32) -> (r: bool)
    requires
        fits(a, sa),
        fits(b, sb),
        0 < sa <= BOARD_SIZE,
        0 < sb <= BOARD_SIZE,
    ensures
        r == crosses(a, sa, b, sb),
{
    let (ax, ay, bx, by) = (a.pos.x, a.pos.y, b.pos.x, b.pos.y);
    match (a.dir, b.dir) {
        (ShipDirection::Horizontal, ShipDirection::Horizontal) => {
            let r = ay == by && ax < bx + sb && bx < ax + sa;
            proof {
                if r {
                    let p = Position { x: if ax < bx { bx } else { ax }, y: ay };
                    assert(covers(a, sa, p) && covers(b, sb, p));
                }
            }
            r
        },
        (ShipDirection::Vertical, ShipDirection::Vertical) => {
            let r = ax == bx && ay < by + sb && by < ay + sa;
            proof {
                if r {
                    let p = Position { x: ax, y: if ay < by { by } else { ay } };
                    assert(covers(a, sa, p) && covers(b, sb, p));
                }
            }
            r
        },
        (ShipDirection::Horizontal, ShipDirection::Vertical) => {
            let r = ax <= bx && bx < ax + sa && by <= ay && ay < by + sb;
            proof {
                if r {
                    let p = Position { x: bx, y: ay };
                    assert(covers(a, sa, p) && covers(b, sb, p));
                }
            }
            r
        },
        (ShipDirection::Vertical, ShipDirection::Horizontal) => {
            let r = bx <= ax && ax < bx + sb && ay <= by && by < ay + sa;
            proof {
                if r {
                    let p = Position { x: ax, y: by };
                    assert(covers(a, sa, p) && covers(b, sb, p));
                }
            }
            r
        },
    }
}

/// Whether `ship` may join the ships placed so far.
fn can_place(placed: &Vec<Ship>, ship: Ship, span: u32) -> (r: bool)
    requires
        placed@.len() <= 5,
        forall|i: int| 0 <= i < placed@.len() ==> fits(#[trigger] placed@[i], ship_span(i)),
        0 < span <= BOARD_SIZE,
    ensures
        r == placeable(placed@, ship, span),
{
    let fit = ship.pos.x < BOARD_SIZE && ship.pos.y < BOARD_SIZE && ship.hit_mask == 0 && match ship.dir {
        ShipDirection::Horizontal => ship.pos.x + span <= BOARD_SIZE,
        ShipDirection::Vertical => ship.pos.y + span <= BOARD_SIZE,
    };
    if !fit {
        return false;
    }
    let mut i: usize = 0;
    while i < placed.len()
        invariant
            i <= placed@.len(),
            placed@.len() <= 5,
            forall|k: int| 0 <= k < placed@.len() ==> fits(#[trigger] placed@[k], ship_span(k)),
            fits(ship, span),
            0 < span <= BOARD_SIZE,
            forall|k: int| 0 <= k < i ==> !crosses(placed@[k], ship_span(k), ship, span),
        decreases placed@.len() - i,
    {
        let sk = span_of(i);
        if overlaps(placed[i], sk, ship, span) {
            return false;
        }
        i = i + 1;
    }
    true
}

proof fn lemma_offset(start: int, c: int) -> (j: int)
    requires
        0 <= start < NUM_CANDIDATES,
        0 <= c < NUM_CANDIDATES,
    ensures
        0 <= j < NUM_CANDIDATES,
        (start + j) % NUM_CANDIDATES as int == c,
{
    if c >= start {
        c - start
    } else {
        c + NUM_CANDIDATES - start
    }
}

/// A scan of all candidates that found none placeable leaves no place at all.
proof fn lemma_scan_complete(placed: Seq<Ship>, span: u32, start: u32)
    requires
        start < NUM_CANDIDATES,
        forall|j: int| 0 <= j < NUM_CANDIDATES ==> !placeable(placed, #[trigger] candidate((start + j) % NUM_CANDIDATES as int), span),
    ensures
        forall|ship: Ship| !placeable(placed, ship, span),
{
    assert forall|ship: Ship| !placeable(placed, ship, span) by {
        if placeable(placed, ship, span) {
            lemma_fitting_is_candidate(ship, span);
            let c = ship.pos.x + 10 * ship.pos.y + if ship.dir is Horizontal { 0int } else { 100int };
            let j = lemma_offset(start as int, c);
            assert(!placeable(placed, candidate((start + j) % NUM_CANDIDATES as int), span));
        }
    }
}

/// The first place, in the order of the candidates from `start` on and
/// round again, where a ship of span `span` may join `placed`.
pub fn place_from(placed: &Vec<Ship>, span: u32, start: u32) -> (r: Option<Ship>)
    requires
        placed@.len() <= 5,
        forall|i: int| 0 <= i < placed@.len() ==> fits(#[trigger] placed@[i], ship_span(i)),
        0 < span <= BOARD_SIZE,
        start < NUM_CANDIDATES,
    ensures
        r matches Some(ship) ==> placeable(placed@, ship, span) && exists|k: int|
            0 <= k < NUM_CANDIDATES && ship == #[trigger] candidate((start + k) % NUM_CANDIDATES as int)
            && forall|j: int| 0 <= j < k ==> !placeable(placed@, #[trigger] candidate((start + j) % NUM_CANDIDATES as int), span),
        r is None ==> forall|ship: Ship| !placeable(placed@, ship, span),
{
    let mut k: u32 = 0;
    while k < NUM_CANDIDATES
        invariant
            k <= NUM_CANDIDATES,
            start < NUM_CANDIDATES,
            placed@.len() <= 5,
            forall|i: int| 0 <= i < placed@.len() ==> fits(#[trigger] placed@[i], ship_span(i)),
            0 < span <= BOARD_SIZE,
            forall|j: int| 0 <= j < k ==> !placeable(placed@, #[trigger] candidate((start + j) % NUM_CANDIDATES as int), span),
        decreases NUM_CANDIDATES - k,
    {
        let c = (start + k) % NUM_CANDIDATES;
        let ship = candidate_at(c);
        if can_place(placed, ship, span) {
            assert(ship == candidate((start + k) % NUM_CANDIDATES as int));
            return Some(ship);
        }
        k = k + 1;
    }
    proof {
        lemma_scan_complete(placed@, span, start);
    }
    None
}

/// The `t`-th half row as a horizontal place: row `t / 2`, from column 0 or 5.
pub open spec fn half_row(t: int) -> Ship {
    Ship {
        pos: Position { x: (5 * (t % 2)) as u32, y: (t / 2) as u32 },
        dir: ShipDirection::Horizontal,
        hit_mask: 0,
    }
}

/// The half row that holds the cell `p`.
pub open spec fn half_row_of(p: Position) -> int {
    2 * (p.y as int) + (p.x as int) / 5
}

/// Half rows that a ship touches, possibly with repeats.
spec fn touched(a: Ship, k: u32) -> Seq<int> {
    match a.dir {
        ShipDirection::Horizontal => seq![
            half_row_of(a.pos),
            2 * (a.pos.y as int) + (a.pos.x + k - 1) / 5,
        ],
        ShipDirection::Vertical => Seq::new(k as nat, |j: int| 2 * (a.pos.y + j) + (a.pos.x as int) / 5),
    }
}

spec fn touched_upto(placed: Seq<Ship>, n: int) -> Set<int>
    decreases n,
{
    if n <= 0 {
        Set::empty()
    } else {
        touched_upto(placed, n - 1).union(touched(placed[n - 1], ship_span(n - 1)).to_set())
    }
}

proof fn lemma_touched_covers(a: Ship, k: u32, p: Position)
    requires
        fits(a, k),
        2 <= k <= 5,
        covers(a, k, p),
    ensures
        touched(a, k).contains(half_row_of(p)),
{
    match a.dir {
        ShipDirection::Horizontal => {
            if (p.x as int) / 5 == (a.pos.x as int) / 5 {
                assert(touched(a, k)[0] == half_row_of(p));
            } else {
                assert(touched(a, k)[1] == half_row_of(p));
            }
        },
        ShipDirection::Vertical => {
            let j = p.y - a.pos.y;
            assert(touched(a, k)[j] == half_row_of(p));
        },
    }
}

proof fn lemma_touched_upto(placed: Seq<Ship>, n: int)
    requires
        0 <= n <= 4,
        n <= placed.len(),
    ensures
        touched_upto(placed, n).finite(),
        touched_upto(placed, n).len() <= 4 * n,
        forall|i: int| 0 <= i < n ==> touched(placed[i], ship_span(i)).to_set().subset_of(touched_upto(placed, n)),
    decreases n,
{
    broadcast use vstd::seq_lib::seq_to_set_is_finite;
    if n > 0 {
        lemma_touched_upto(placed, n - 1);
        let last = touched(placed[n - 1], ship_span(n - 1));
        last.lemma_cardinality_of_set();
        vstd::set_lib::lemma_len_union(touched_upto(placed, n - 1), last.to_set());
    }
}

/// Ships placed so far touch at most 16 of the 20 half rows, and a ship of
/// at most five cells fits in any half row that none touches: so there is
/// always room for the next ship.
proof fn lemma_room_for_ship(placed: Seq<Ship>, span: u32)
    requires
        placed.len() <= 4,
        forall|i: int| 0 <= i < placed.len() ==> fits(#[trigger] placed[i], ship_span(i)),
        2 <= span <= 5,
    ensures
        exists|ship: Ship| placeable(placed, ship, span),
{
    let n = placed.len() as int;
    let used = touched_upto(placed, n);
    lemma_touched_upto(placed, n);
    vstd::set_lib::lemma_int_range(0, 20);
    let all = vstd::set_lib::set_int_range(0, 20);
    if forall|t: int| 0 <= t < 20 ==> used.contains(t) {
        assert(all.subset_of(used));
        vstd::set_lib::lemma_len_subset(all, used);
        assert(false);
    }
    let t = choose|t: int| 0 <= t < 20 && !used.contains(t);
    let ship = half_row(t);
    assert forall|i: int| 0 <= i < placed.len() implies !crosses(placed[i], ship_span(i), ship, span) by {
        if crosses(placed[i], ship_span(i), ship, span) {
            let p = choose|p: Position| covers(placed[i], ship_span(i), p) && covers(ship, span, p);
            assert(half_row_of(p) == t);
            lemma_touched_covers(placed[i], ship_span(i), p);
            assert(touched(placed[i], ship_span(i)).to_set().contains(t));
        }
    }
    assert(placeable(placed, ship, span));
}

pub assume_specification<T>[ rand::random::<T> ]() -> (r: T)
    where
        rand::distributions::Standard: rand::distributions::Distribution<T>,
;

/// Places the five ships at random, one after the other, each at the first
/// free place from a random candidate on.
pub fn create_random_ships() -> (r: [Ship; 5])
    ensures
        valid_layout(r@),
{
    let mut placed: Vec<Ship> = Vec::new();
    let mut i: usize = 0;
    while i < 5
        invariant
            i <= 5,
            placed@.len() == i,
            forall|k: int| 0 <= k < i ==> fits(#[trigger] placed@[k], ship_span(k)),
            forall|a: int, b: int| 0 <= a < b < i ==> !crosses(placed@[a], ship_span(a), placed@[b], ship_span(b)),
        decreases 5 - i,
    {
        let draw: u32 = rand::random::<u32>();
        let span = span_of(i);
        let found = place_from(&placed, span, draw % NUM_CANDIDATES);
        proof {
            lemma_room_for_ship(placed@, span);
        }
        let ship = found.unwrap();
        placed.push(ship);
        i = i + 1;
    }
    let ships = [placed[0], placed[1], placed[2], placed[3], placed[4]];
    assert(ships@ =~= placed@);
    ships
}

} // verus!
