use vstd::prelude::*;

verus! {

/// Whose action the ledger waits for.
#[derive(Clone, Copy, Debug, PartialEq, Eq, Structural)]
pub enum NextTurn {
    /// The first player has set up; the second must join.
    AwaitingP2Setup,
    /// The first player must process the second's shot and fire.
    P1MustProcess,
    /// The second player must process the first's shot and fire.
    P2MustProcess,
}

/// A player's fixed role in one game.
#[derive(Clone, Copy, Debug, PartialEq, Eq, Structural)]
pub enum Seat {
    First,
    Second,
}

/// The seat whose submission the ledger accepts next.
pub open spec fn turn_owner(t: NextTurn) -> Seat {
    match t {
        NextTurn::AwaitingP2Setup => Seat::Second,
        NextTurn::P1MustProcess => Seat::First,
        NextTurn::P2MustProcess => Seat::Second,
    }
}

/// The public record of one player.
pub struct PlayerState {
    pub id: String,
    /// Commitment to the hidden board; never inspected, only stored.
    pub board: [u32; 8],
    pub shot_x: u32,
    pub shot_y: u32,
}

impl PlayerState {
    pub fn empty() -> (r: PlayerState)
        ensures
            r.id@ == Seq::<char>::empty(),
            r.board@ == Seq::new(8, |i: int| 0u32),
            r.shot_x == 0,
            r.shot_y == 0,
    {
        let r = PlayerState { id: String::new(), board: [0u32; 8], shot_x: 0, shot_y: 0 };
        assert(r.board@ =~= Seq::new(8, |i: int| 0u32));
        r
    }

    pub fn duplicate(&self) -> (r: PlayerState)
        ensures
            r == *self,
    {
        PlayerState { id: self.id.clone(), board: self.board, shot_x: self.shot_x, shot_y: self.shot_y }
    }
}

/// The ledger's record of one game.
pub struct GameState {
    pub next_turn: NextTurn,
    pub p1: PlayerState,
    pub p2: PlayerState,
    /// Outcome code of the last processed shot: 0 miss, 1 hit, 2 sunk.
    pub last_hit: Option<u32>,
    /// The ship that the last processed shot sank, if it sank one.
    pub sunk_what: Option<u32>,
}

/// The ledger record as the clients read it.
pub type ContractState = GameState;

impl GameState {
    pub fn duplicate(&self) -> (r: GameState)
        ensures
            r == *self,
    {
        GameState {
            next_turn: self.next_turn,
            p1: self.p1.duplicate(),
            p2: self.p2.duplicate(),
            last_hit: self.last_hit,
            sunk_what: self.sunk_what,
        }
    }
}

/// What a verified round receipt attests: the mover's commitment before and
/// after processing the opponent's shot, that shot, and its outcome.
#[derive(Clone, Copy, Debug)]
pub struct RoundCommit {
    pub old_board: [u32; 8],
    pub new_board: [u32; 8],
    pub shot_x: u32,
    pub shot_y: u32,
    pub hit: u32,
    pub sunk: u32,
}

#[derive(Clone, Copy, Debug, PartialEq, Eq, Structural)]
pub enum LedgerError {
    /// No game of that name.
    NotFound,
    /// A game of that name exists already.
    AlreadyExists,
    /// The submission does not come from the seat whose turn it is.
    OutOfTurn,
    /// The attested round does not continue the recorded game.
    ProofFailure,
}

/// A join is out of turn once the second seat is taken, and when the first
/// player tries to take it too.
pub open spec fn join_out_of_turn(g: GameState, signer: Seq<char>) -> bool {
    !(g.next_turn is AwaitingP2Setup) || signer == g.p1.id@
}

/// A turn is out of turn unless `signer` holds the seat that must move.
pub open spec fn turn_out_of_turn(g: GameState, signer: Seq<char>) -> bool {
    match g.next_turn {
        NextTurn::AwaitingP2Setup => true,
        NextTurn::P1MustProcess => signer != g.p1.id@,
        NextTurn::P2MustProcess => signer != g.p2.id@,
    }
}

/// Whether the submission that `seat` makes next is refused as out of turn:
/// the second seat, held by `joiner`, joins while the game awaits it; every
/// other submission is a turn signed with the seat's own identity.
pub open spec fn seat_out_of_turn(g: GameState, seat: Seat, joiner: Seq<char>) -> bool {
    match seat {
        Seat::First => turn_out_of_turn(g, g.p1.id@),
        Seat::Second => if g.next_turn is AwaitingP2Setup {
            join_out_of_turn(g, joiner)
        } else {
            turn_out_of_turn(g, g.p2.id@)
        },
    }
}

/// The player who must move, and the one whose shot is processed.
pub open spec fn mover(g: GameState) -> PlayerState {
    if g.next_turn is P1MustProcess { g.p1 } else { g.p2 }
}

pub open spec fn opponent(g: GameState) -> PlayerState {
    if g.next_turn is P1MustProcess { g.p2 } else { g.p1 }
}

/// The attested round continues `g`: it starts from the mover's commitment,
/// answers the opponent's last shot, and has a known outcome code.
pub open spec fn round_continues(g: GameState, round: RoundCommit) -> bool {
    &&& round.old_board@ == mover(g).board@
    &&& round.shot_x == opponent(g).shot_x
    &&& round.shot_y == opponent(g).shot_y
    &&& round.hit <= 2
}

/// `g` is the record of a game just created by `signer` with commitment `board`.
pub open spec fn is_created(g: GameState, signer: String, board: [u32; 8]) -> bool {
    &&& g.next_turn == NextTurn::AwaitingP2Setup
    &&& g.p1 == (PlayerState { id: signer, board, shot_x: 0, shot_y: 0 })
    &&& g.p2.id@ == Seq::<char>::empty()
    &&& g.p2.board@ == Seq::new(8, |i: int| 0u32)
    &&& g.p2.shot_x == 0
    &&& g.p2.shot_y == 0
    &&& g.last_hit is None
    &&& g.sunk_what is None
}

/// The record after the second player joins `g` with a first shot.
pub open spec fn after_join(g: GameState, signer: String, board: [u32; 8], x: u32, y: u32) -> GameState {
    GameState {
        next_turn: NextTurn::P1MustProcess,
        p1: g.p1,
        p2: PlayerState { id: signer, board, shot_x: x, shot_y: y },
        last_hit: g.last_hit,
        sunk_what: g.sunk_what,
    }
}

/// The record after the mover of `g` submits `round` and fires at `(x, y)`.
pub open spec fn after_turn(g: GameState, round: RoundCommit, x: u32, y: u32) -> GameState {
    let moved = PlayerState { id: mover(g).id, board: round.new_board, shot_x: x, shot_y: y };
    GameState {
        next_turn: if g.next_turn is P1MustProcess {
            NextTurn::P2MustProcess
        } else {
            NextTurn::P1MustProcess
        },
        p1: if g.next_turn is P1MustProcess { moved } else { g.p1 },
        p2: if g.next_turn is P1MustProcess { g.p2 } else { moved },
        last_hit: Some(round.hit),
        sunk_what: if round.hit == 2 { Some(round.sunk) } else { None },
    }
}

/// Once both seats are taken, they are held by two identities.
pub open spec fn seats_distinct(g: GameState) -> bool {
    !(g.next_turn is AwaitingP2Setup) ==> g.p1.id@ != g.p2.id@
}

fn boards_equal(a: &[u32; 8], b: &[u32; 8]) -> (r: bool)
    ensures
        r == (a@ == b@),
{
    let mut i: usize = 0;
    while i < 8
        invariant
            0 <= i <= 8,
            a@.len() == 8,
            b@.len() == 8,
            forall|k: int| 0 <= k < i ==> a@[k] == b@[k],
        decreases 8 - i,
    {
        if a[i] != b[i] {
            return false;
        }
        i = i + 1;
    }
    assert(a@ =~= b@);
    true
}

/// The games of the ledger, by name.
pub struct BattleshipContract {
    games: Vec<(String, GameState)>,
}

impl View for BattleshipContract {
    type V = Map<Seq<char>, GameState>;

    closed spec fn view(&self) -> Map<Seq<char>, GameState> {
        Map::new(
            |k: Seq<char>| exists|i: int| 0 <= i < self.games@.len() && self.games@[i].0@ == k,
            |k: Seq<char>|
                self.games@[choose|i: int| 0 <= i < self.games@.len() && self.games@[i].0@ == k].1,
        )
    }
}

impl Default for BattleshipContract {
    fn default() -> (r: Self)
        ensures
            r.wf(),
            r@ == Map::<Seq<char>, GameState>::empty(),
    {
        let r = BattleshipContract { games: Vec::new() };
        assert(r@ =~= Map::<Seq<char>, GameState>::empty());
        r
    }
}

impl BattleshipContract {
    /// At most one game per name, and every game's seats held by two
    /// identities once both are taken.
    pub closed spec fn wf(&self) -> bool {
        &&& forall|i: int, j: int|
            0 <= i < j < self.games@.len() ==> self.games@[i].0@ != self.games@[j].0@
        &&& forall|i: int| 0 <= i < self.games@.len() ==> seats_distinct(#[trigger] self.games@[i].1)
    }

    /// Every game that the ledger holds has its seats held by two identities.
    pub proof fn lemma_games_seats_distinct(&self, name: Seq<char>)
        requires
            self.wf(),
            self@.contains_key(name),
        ensures
            seats_distinct(self@[name]),
    {
        let i = choose|i: int| 0 <= i < self.games@.len() && self.games@[i].0@ == name;
        self.lemma_entry_in_view(i);
    }

    /// In every game that the ledger holds, exactly one seat's next
    /// submission is in turn: the seat that `next_turn` names. The second
    /// seat is held by `joiner`, who is not the first player.
    pub proof fn lemma_turn_exclusivity(&self, name: Seq<char>, joiner: Seq<char>)
        requires
            self.wf(),
            self@.contains_key(name),
            joiner != self@[name].p1.id@,
        ensures
            forall|seat: Seat| !seat_out_of_turn(self@[name], seat, joiner) <==> seat == turn_owner(self@[name].next_turn),
            seat_out_of_turn(self@[name], Seat::First, joiner) != seat_out_of_turn(self@[name], Seat::Second, joiner),
    {
        self.lemma_games_seats_distinct(name);
    }

    proof fn lemma_entry_in_view(&self, i: int)
        requires
            self.wf(),
            0 <= i < self.games@.len(),
        ensures
            self@.contains_key(self.games@[i].0@),
            self@[self.games@[i].0@] == self.games@[i].1,
    {
        let k = self.games@[i].0@;
        let j = choose|j: int| 0 <= j < self.games@.len() && self.games@[j].0@ == k;
        assert(j == i);
    }

    fn find(&self, name: &String) -> (r: Option<usize>)
        requires
            self.wf(),
        ensures
            match r {
                Some(i) => i < self.games@.len() && self.games@[i as int].0@ == name@
                    && self@.contains_key(name@) && self@[name@] == self.games@[i as int].1,
                None => !self@.contains_key(name@),
            },
    {
        let mut i: usize = 0;
        while i < self.games.len()
            invariant
                self.wf(),
                i <= self.games@.len(),
                forall|k: int| 0 <= k < i ==> self.games@[k].0@ != name@,
            decreases self.games@.len() - i,
        {
            if self.games[i].0 == *name {
                proof {
                    self.lemma_entry_in_view(i as int);
                }
                return Some(i);
            }
            i = i + 1;
        }
        None
    }

    /// Replaces the record at index `i` by `g`.
    fn replace_at(&mut self, i: usize, g: GameState)
        requires
            old(self).wf(),
            i < old(self).games@.len(),
            seats_distinct(g),
        ensures
            final(self).wf(),
            final(self)@ == old(self)@.insert(old(self).games@[i as int].0@, g),
    {
        let ghost pre = self.games@;
        let ghost key = pre[i as int].0@;
        let name = self.games[i].0.clone();
        self.games.set(i, (name, g));
        proof {
            let post = self.games@;
            assert forall|a: int, b: int| 0 <= a < b < post.len()
                implies post[a].0@ != post[b].0@ by {
                assert(pre[a].0@ != pre[b].0@);
            }
            assert(self@ =~= old(self)@.insert(key, g)) by {
                assert forall|k: Seq<char>| #[trigger] self@.contains_key(k)
                    == old(self)@.insert(key, g).contains_key(k) by {
                    if self@.contains_key(k) {
                        let m = choose|m: int| 0 <= m < post.len() && post[m].0@ == k;
                        assert(pre[m].0@ == k);
                    }
                    if old(self)@.contains_key(k) {
                        let m = choose|m: int| 0 <= m < pre.len() && pre[m].0@ == k;
                        assert(post[m].0@ == k);
                    }
                    assert(post[i as int].0@ == key);
                }
                assert forall|k: Seq<char>| #[trigger] self@.contains_key(k)
                    implies self@[k] == old(self)@.insert(key, g)[k] by {
                    let m = choose|m: int| 0 <= m < post.len() && post[m].0@ == k;
                    self.lemma_entry_in_view(m);
                    if m != i {
                        old(self).lemma_entry_in_view(m);
                    }
                }
            }
        }
    }

    /// Adds a record under a name that has none.
    fn add(&mut self, name: String, g: GameState)
        requires
            old(self).wf(),
            !old(self)@.contains_key(name@),
            seats_distinct(g),
        ensures
            final(self).wf(),
            final(self)@ == old(self)@.insert(name@, g),
    {
        let ghost pre = self.games@;
        let ghost key = name@;
        self.games.push((name, g));
        proof {
            let post = self.games@;
            assert forall|a: int, b: int| 0 <= a < b < post.len()
                implies post[a].0@ != post[b].0@ by {
                if b < pre.len() {
                    assert(pre[a].0@ != pre[b].0@);
                } else {
                    assert(old(self)@.contains_key(pre[a].0@)) by {
                        old(self).lemma_entry_in_view(a);
                    }
                }
            }
            assert(self@ =~= old(self)@.insert(key, g)) by {
                assert forall|k: Seq<char>| #[trigger] self@.contains_key(k)
                    == old(self)@.insert(key, g).contains_key(k) by {
                    if self@.contains_key(k) && k != key {
                        let m = choose|m: int| 0 <= m < post.len() && post[m].0@ == k;
                        assert(pre[m].0@ == k);
                    }
                    if old(self)@.contains_key(k) {
                        let m = choose|m: int| 0 <= m < pre.len() && pre[m].0@ == k;
                        assert(post[m].0@ == k);
                    }
                    assert(post[pre.len() as int].0@ == key);
                }
                assert forall|k: Seq<char>| #[trigger] self@.contains_key(k)
                    implies self@[k] == old(self)@.insert(key, g)[k] by {
                    let m = choose|m: int| 0 <= m < post.len() && post[m].0@ == k;
                    self.lemma_entry_in_view(m);
                    if m < pre.len() {
                        old(self).lemma_entry_in_view(m);
                    }
                }
            }
        }
    }

    /// The record of the game `name`, if there is one.
    pub fn game_state(&self, name: String) -> (r: Option<GameState>)
        requires
            self.wf(),
        ensures
            r == (if self@.contains_key(name@) { Some(self@[name@]) } else { None::<GameState> }),
    {
        match self.find(&name) {
            Some(i) => Some(self.games[i].1.duplicate()),
            None => None,
        }
    }

    /// Creates the game `name` for `signer`, whose setup receipt attested the
    /// commitment `board`.
    pub fn new_game(&mut self, name: String, signer: String, board: [u32; 8]) -> (r: Result<(), LedgerError>)
        requires
            old(self).wf(),
        ensures
            final(self).wf(),
            old(self)@.contains_key(name@) ==> r == Err::<(), LedgerError>(LedgerError::AlreadyExists)
                && final(self)@ == old(self)@,
            !old(self)@.contains_key(name@) ==> r is Ok && final(self)@.dom() == old(self)@.dom().insert(name@)
                && is_created(final(self)@[name@], signer, board)
                && forall|k: Seq<char>| k != name@ && #[trigger] old(self)@.contains_key(k)
                    ==> final(self)@[k] == old(self)@[k],
    {
        if self.find(&name).is_some() {
            return Err(LedgerError::AlreadyExists);
        }
        let p2 = PlayerState::empty();
        let g = GameState {
            next_turn: NextTurn::AwaitingP2Setup,
            p1: PlayerState { id: signer, board, shot_x: 0, shot_y: 0 },
            p2,
            last_hit: None,
            sunk_what: None,
        };
        self.add(name, g);
        Ok(())
    }

    /// The second player, `signer`, joins `name` with the commitment `board`
    /// that its setup receipt attested, and fires the first shot at `(x, y)`.
    pub fn join_game(&mut self, name: String, signer: String, board: [u32; 8], x: u32, y: u32) -> (r: Result<(), LedgerError>)
        requires
            old(self).wf(),
        ensures
            final(self).wf(),
            !old(self)@.contains_key(name@) ==> r == Err::<(), LedgerError>(LedgerError::NotFound)
                && final(self)@ == old(self)@,
            old(self)@.contains_key(name@) && join_out_of_turn(old(self)@[name@], signer@)
                ==> r == Err::<(), LedgerError>(LedgerError::OutOfTurn) && final(self)@ == old(self)@,
            old(self)@.contains_key(name@) && !join_out_of_turn(old(self)@[name@], signer@) ==> r is Ok
                && final(self)@ == old(self)@.insert(name@, after_join(old(self)@[name@], signer, board, x, y)),
    {
        match self.find(&name) {
            None => Err(LedgerError::NotFound),
            Some(i) => {
                let g = &self.games[i].1;
                if g.next_turn != NextTurn::AwaitingP2Setup || g.p1.id == signer {
                    return Err(LedgerError::OutOfTurn);
                }
                let ng = GameState {
                    next_turn: NextTurn::P1MustProcess,
                    p1: g.p1.duplicate(),
                    p2: PlayerState { id: signer, board, shot_x: x, shot_y: y },
                    last_hit: g.last_hit,
                    sunk_what: g.sunk_what,
                };
                self.replace_at(i, ng);
                Ok(())
            },
        }
    }

    /// The player `signer` submits the round it proved for the opponent's
    /// last shot, and fires at `(x, y)`.
    pub fn turn(&mut self, name: String, signer: String, round: RoundCommit, x: u32, y: u32) -> (r: Result<(), LedgerError>)
        requires
            old(self).wf(),
        ensures
            final(self).wf(),
            !old(self)@.contains_key(name@) ==> r == Err::<(), LedgerError>(LedgerError::NotFound)
                && final(self)@ == old(self)@,
            old(self)@.contains_key(name@) && turn_out_of_turn(old(self)@[name@], signer@)
                ==> r == Err::<(), LedgerError>(LedgerError::OutOfTurn) && final(self)@ == old(self)@,
            old(self)@.contains_key(name@) && !turn_out_of_turn(old(self)@[name@], signer@)
                && !round_continues(old(self)@[name@], round)
                ==> r == Err::<(), LedgerError>(LedgerError::ProofFailure) && final(self)@ == old(self)@,
            old(self)@.contains_key(name@) && !turn_out_of_turn(old(self)@[name@], signer@)
                && round_continues(old(self)@[name@], round) ==> r is Ok
                && final(self)@ == old(self)@.insert(name@, after_turn(old(self)@[name@], round, x, y)),
    {
        match self.find(&name) {
            None => Err(LedgerError::NotFound),
            Some(i) => {
                let g = &self.games[i].1;
                let first = match g.next_turn {
                    NextTurn::AwaitingP2Setup => {
                        return Err(LedgerError::OutOfTurn);
                    },
                    NextTurn::P1MustProcess => true,
                    NextTurn::P2MustProcess => false,
                };
                let (mv, op) = if first { (&g.p1, &g.p2) } else { (&g.p2, &g.p1) };
                if mv.id != signer {
                    return Err(LedgerError::OutOfTurn);
                }
                if !boards_equal(&round.old_board, &mv.board) || round.shot_x != op.shot_x
                    || round.shot_y != op.shot_y || round.hit > 2 {
                    return Err(LedgerError::ProofFailure);
                }
                let moved = PlayerState { id: mv.id.clone(), board: round.new_board, shot_x: x, shot_y: y };
                let ng = if first {
                    GameState {
                        next_turn: NextTurn::P2MustProcess,
                        p1: moved,
                        p2: g.p2.duplicate(),
                        last_hit: Some(round.hit),
                        sunk_what: if round.hit == 2 { Some(round.sunk) } else { None },
                    }
                } else {
                    GameState {
                        next_turn: NextTurn::P1MustProcess,
                        p1: g.p1.duplicate(),
                        p2: moved,
                        last_hit: Some(round.hit),
                        sunk_what: if round.hit == 2 { Some(round.sunk) } else { None },
                    }
                };
                self.replace_at(i, ng);
                Ok(())
            },
        }
    }
}

} // verus!
