use vstd::prelude::*;

verus! {

/// A cell of the board, by column and row.
#[derive(Clone, Copy, Debug, PartialEq, Eq, Structural, Hash)]
pub struct Position {
    pub x: u32,
    pub y: u32,
}

impl Position {
    pub fn new(x: u32, y: u32) -> (r: Position)
        ensures
            r == (Position { x, y }),
    {
        Position { x, y }
    }
}

/// The outcome of a shot as the proof of a round reveals it.
#[derive(Clone, Copy, Debug, PartialEq, Eq, Structural, Hash)]
pub enum CoreHitType {
    Miss,
    Hit,
    /// The shot sank the ship with this identifier.
    Sunk(u32),
}

/// What a client records of a shot: a revealed outcome, or `Pending` while the
/// shot is submitted but its outcome not yet confirmed. `Pending` never leaves
/// the client.
#[derive(Clone, Copy, Debug, PartialEq, Eq, Structural, Hash)]
pub enum HitType {
    Core(CoreHitType),
    Pending,
}

#[derive(Clone, Copy, Debug, PartialEq, Eq, Structural, Hash)]
pub enum ShipDirection {
    Horizontal,
    Vertical,
}

/// A ship by its first cell and direction; `hit_mask` holds one bit per cell
/// that has been hit.
#[derive(Clone, Copy, Debug, PartialEq, Eq, Structural, Hash)]
pub struct Ship {
    pub pos: Position,
    pub dir: ShipDirection,
    pub hit_mask: u32,
}

impl Ship {
    pub fn new(x: u32, y: u32, dir: ShipDirection) -> (r: Ship)
        ensures
            r == (Ship { pos: Position { x, y }, dir, hit_mask: 0 }),
    {
        Ship { pos: Position { x, y }, dir, hit_mask: 0 }
    }
}

/// The hidden board of one player: the ships and the salt of its commitment.
#[derive(Clone, Copy, Debug)]
pub struct BoardState {
    pub ships: [Ship; 5],
    pub salt: u32,
}

/// What is handed to the prover for a round: the hidden board and the
/// opponent's shot at it.
#[derive(Clone, Copy, Debug)]
pub struct RoundParams {
    pub state: BoardState,
    pub shot: Position,
}

/// What the prover returns of a round: the board after the shot and the
/// outcome of the shot.
#[derive(Clone, Copy, Debug)]
pub struct RoundResult {
    pub state: BoardState,
    pub hit: CoreHitType,
}

/// The shots of one side, at most one entry per position.
pub struct ShotMap {
    entries: Vec<(Position, HitType)>,
}

impl View for ShotMap {
    type V = Map<Position, HitType>;

    closed spec fn view(&self) -> Map<Position, HitType> {
        Map::new(
            |p: Position| exists|i: int| 0 <= i < self.entries@.len() && self.entries@[i].0 == p,
            |p: Position|
                self.entries@[choose|i: int| 0 <= i < self.entries@.len() && self.entries@[i].0 == p].1,
        )
    }
}

impl ShotMap {
    /// At most one entry per position.
    pub closed spec fn wf(&self) -> bool {
        forall|i: int, j: int|
            0 <= i < j < self.entries@.len() ==> self.entries@[i].0 != self.entries@[j].0
    }

    proof fn lemma_entry_in_view(&self, i: int)
        requires
            self.wf(),
            0 <= i < self.entries@.len(),
        ensures
            self@.contains_key(self.entries@[i].0),
            self@[self.entries@[i].0] == self.entries@[i].1,
    {
        let p = self.entries@[i].0;
        let j = choose|j: int| 0 <= j < self.entries@.len() && self.entries@[j].0 == p;
        assert(j == i);
    }

    pub fn new() -> (r: ShotMap)
        ensures
            r.wf(),
            r@ == Map::<Position, HitType>::empty(),
    {
        let r = ShotMap { entries: Vec::new() };
        assert(r@ =~= Map::<Position, HitType>::empty());
        r
    }

    /// Index of the entry for `pos`, if there is one.
    fn find(&self, pos: Position) -> (r: Option<usize>)
        ensures
            match r {
                Some(i) => i < self.entries@.len() && self.entries@[i as int].0 == pos,
                None => forall|i: int| 0 <= i < self.entries@.len() ==> self.entries@[i].0 != pos,
            },
    {
        let mut i: usize = 0;
        while i < self.entries.len()
            invariant
                i <= self.entries@.len(),
                forall|k: int| 0 <= k < i ==> self.entries@[k].0 != pos,
            decreases self.entries@.len() - i,
        {
            if self.entries[i].0 == pos {
                return Some(i);
            }
            i = i + 1;
        }
        None
    }

    pub fn len(&self) -> (r: usize)
        requires
            self.wf(),
        ensures
            r == self@.len(),
    {
        proof {
            self.lemma_len();
        }
        self.entries.len()
    }

    proof fn lemma_len(&self)
        requires
            self.wf(),
        ensures
            self@.len() == self.entries@.len(),
        decreases self.entries@.len(),
    {
        let m = self@;
        let keys = self.entries@.map_values(|e: (Position, HitType)| e.0);
        assert(keys.no_duplicates()) by {
            assert forall|i: int, j: int| 0 <= i < keys.len() && 0 <= j < keys.len() && i != j
                implies keys[i] != keys[j] by {
                if i < j {
                } else {
                }
            }
        }
        assert(m.dom() =~= keys.to_set()) by {
            assert forall|p: Position| m.dom().contains(p) implies keys.to_set().contains(p) by {
                let i = choose|i: int| 0 <= i < self.entries@.len() && self.entries@[i].0 == p;
                assert(keys[i] == p);
            }
            assert forall|p: Position| keys.to_set().contains(p) implies m.dom().contains(p) by {
                let i = choose|i: int| 0 <= i < keys.len() && keys[i] == p;
                assert(self.entries@[i].0 == p);
            }
        }
        keys.unique_seq_to_set();
    }

    pub fn get(&self, pos: Position) -> (r: Option<HitType>)
        requires
            self.wf(),
        ensures
            r == (if self@.contains_key(pos) { Some(self@[pos]) } else { None::<HitType> }),
    {
        match self.find(pos) {
            Some(i) => {
                proof {
                    self.lemma_entry_in_view(i as int);
                }
                Some(self.entries[i].1)
            },
            None => None,
        }
    }

    /// Records `h` at `pos`, replacing what was there.
    pub fn insert(&mut self, pos: Position, h: HitType)
        requires
            old(self).wf(),
        ensures
            final(self).wf(),
            final(self)@ == old(self)@.insert(pos, h),
    {
        let ghost pre = self.entries@;
        match self.find(pos) {
            Some(i) => {
                self.entries.set(i, (pos, h));
                proof {
                    let post = self.entries@;
                    assert(post == pre.update(i as int, (pos, h)));
                    assert forall|a: int, b: int| 0 <= a < b < post.len()
                        implies post[a].0 != post[b].0 by {
                        assert(pre[a].0 != pre[b].0);
                    }
                    assert(self.wf());
                    assert(self@ =~= old(self)@.insert(pos, h)) by {
                        assert forall|p: Position| #[trigger] self@.contains_key(p)
                            == old(self)@.insert(pos, h).contains_key(p) by {
                            if self@.contains_key(p) {
                                let k = choose|k: int| 0 <= k < post.len() && post[k].0 == p;
                                if k != i {
                                    assert(pre[k].0 == p);
                                }
                            }
                            if old(self)@.contains_key(p) && p != pos {
                                let k = choose|k: int| 0 <= k < pre.len() && pre[k].0 == p;
                                assert(post[k].0 == p);
                            }
                            if p == pos {
                                assert(post[i as int].0 == p);
                            }
                        }
                        assert forall|p: Position| #[trigger] self@.contains_key(p)
                            implies self@[p] == old(self)@.insert(pos, h)[p] by {
                            let k = choose|k: int| 0 <= k < post.len() && post[k].0 == p;
                            self.lemma_entry_in_view(k);
                            if k != i {
                                assert(pre[k] == post[k]);
                                old(self).lemma_entry_in_view(k);
                            }
                        }
                    }
                }
            },
            None => {
                self.entries.push((pos, h));
                proof {
                    let post = self.entries@;
                    assert(post == pre.push((pos, h)));
                    assert forall|a: int, b: int| 0 <= a < b < post.len()
                        implies post[a].0 != post[b].0 by {
                        if b < pre.len() {
                            assert(pre[a].0 != pre[b].0);
                        }
                    }
                    assert(self.wf());
                    assert(self@ =~= old(self)@.insert(pos, h)) by {
                        assert forall|p: Position| #[trigger] self@.contains_key(p)
                            == old(self)@.insert(pos, h).contains_key(p) by {
                            if self@.contains_key(p) && p != pos {
                                let k = choose|k: int| 0 <= k < post.len() && post[k].0 == p;
                                assert(pre[k].0 == p);
                            }
                            if old(self)@.contains_key(p) {
                                let k = choose|k: int| 0 <= k < pre.len() && pre[k].0 == p;
                                assert(post[k].0 == p);
                            }
                            assert(post[pre.len() as int].0 == pos);
                        }
                        assert forall|p: Position| #[trigger] self@.contains_key(p)
                            implies self@[p] == old(self)@.insert(pos, h)[p] by {
                            let k = choose|k: int| 0 <= k < post.len() && post[k].0 == p;
                            self.lemma_entry_in_view(k);
                            if k < pre.len() {
                                assert(pre[k] == post[k]);
                                old(self).lemma_entry_in_view(k);
                            }
                        }
                    }
                }
            },
        }
    }

    /// The entries in the order they were first recorded.
    pub fn to_vec(&self) -> (r: Vec<(Position, HitType)>)
        requires
            self.wf(),
        ensures
            r@.len() == self@.len(),
            forall|i: int| 0 <= i < r@.len() ==> #[trigger] self@.contains_key(r@[i].0) && self@[r@[i].0] == r@[i].1,
            forall|p: Position| #[trigger] self@.contains_key(p) ==> exists|i: int| 0 <= i < r@.len() && r@[i].0 == p,
    {
        proof {
            self.lemma_len();
        }
        let mut out: Vec<(Position, HitType)> = Vec::new();
        let mut i: usize = 0;
        while i < self.entries.len()
            invariant
                self.wf(),
                i <= self.entries@.len(),
                out@ == self.entries@.subrange(0, i as int),
            decreases self.entries@.len() - i,
        {
            out.push(self.entries[i]);
            i = i + 1;
            proof {
                assert(out@ =~= self.entries@.subrange(0, i as int));
            }
        }
        proof {
            assert(out@ =~= self.entries@);
            assert forall|k: int| 0 <= k < out@.len() implies #[trigger] self@.contains_key(out@[k].0)
                && self@[out@[k].0] == out@[k].1 by {
                self.lemma_entry_in_view(k);
            }
            assert forall|p: Position| #[trigger] self@.contains_key(p) implies exists|k: int|
                0 <= k < out@.len() && out@[k].0 == p by {
                let k = choose|k: int| 0 <= k < self.entries@.len() && self.entries@[k].0 == p;
                assert(out@[k].0 == p);
            }
        }
        out
    }
}

} // verus!
