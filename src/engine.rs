use vstd::prelude::*;

use vstd::string::StringExecFns;

use crate::ledger::{ContractState, LedgerError, NextTurn, Seat};
use crate::model::{BoardState, CoreHitType, HitType, Position, RoundParams, RoundResult, Ship, ShotMap};

verus! {

/// Milliseconds between two reads of the ledger while waiting for a turn.
pub const WAIT_TURN_INTERVAL: u32 = 5000;

/// Salt of the board commitment of a new session.
pub const BOARD_SALT: u32 = 0xDEADBEEF;

/// The two boards a player sees.
#[derive(Clone, Copy, Debug, PartialEq, Eq, Structural)]
pub enum Side {
    /// The player's own board, with the opponent's shots at it.
    Local,
    /// The opponent's board, with the player's shots at it.
    Remote,
}

/// The prover's answer for a round.
pub struct TurnResult {
    pub state: RoundResult,
    pub receipt: String,
}

/// Why an outside call failed.
pub enum Failure {
    /// The ledger or the prover could not be reached.
    Network(String),
    /// The prover refused the input, or a receipt did not verify.
    Proof(String),
    /// The ledger refused the submission, for the reason given.
    Ledger(LedgerError, String),
    /// The session could not be loaded or saved.
    Persistence(String),
}

/// The message shown for a failure.
pub open spec fn failure_text(f: Failure) -> Seq<char> {
    match f {
        Failure::Network(m) => m@,
        Failure::Proof(m) => m@,
        Failure::Ledger(_, m) => m@,
        Failure::Persistence(m) => m@,
    }
}

/// The messages the engine handles, one at a time, in order.
pub enum GameMsg {
    Init,
    Shot(Position),
    WaitTurn,
    CheckTurn,
    SaveAndWait,
    ProcessTurn(ContractState),
    UpdateState(String, RoundResult, Position),
    Resume,
    Error(String),
    /// The ledger refused a submission as out of turn: the local view is
    /// stale, and the turn is checked afresh.
    OutOfTurn(String),
}

/// How a message handled now is followed.
pub enum Next {
    Now(GameMsg),
    /// After a pause of `WAIT_TURN_INTERVAL` milliseconds.
    AfterPause(GameMsg),
}

/// The outside work a message asks for. Its completion comes back as a
/// message: `after_submission` for the three submissions, `after_ledger_read`
/// for a read, `after_round_proof` for a round proof.
pub enum Command {
    Idle,
    /// Tell the user; the message changed nothing.
    Alert(String),
    /// Prove the setup of `state`, then create the game `name` on the ledger.
    ProveSetupAndCreate { name: String, state: BoardState },
    /// Prove the setup of `state`, then join `name` firing at `shot`.
    ProveSetupAndJoin { name: String, state: BoardState, shot: Position },
    /// Submit the round receipt `receipt` to `name`, firing at `shot`.
    SubmitTurn { name: String, receipt: String, shot: Position },
    /// Read the record of `name`; `resuming` tells which decision follows.
    ReadLedger { name: String, resuming: bool },
    /// Prove the round for `params`; first announce the sunk ship, if any.
    ProveRound { params: RoundParams, sunk: Option<u32> },
    /// Persist the session; then handle `WaitTurn` if `then_wait`.
    Save { then_wait: bool },
}

pub enum CommandView {
    Idle,
    Alert(Seq<char>),
    ProveSetupAndCreate { name: Seq<char>, state: BoardState },
    ProveSetupAndJoin { name: Seq<char>, state: BoardState, shot: Position },
    SubmitTurn { name: Seq<char>, receipt: Seq<char>, shot: Position },
    ReadLedger { name: Seq<char>, resuming: bool },
    ProveRound { params: RoundParams, sunk: Option<u32> },
    Save { then_wait: bool },
}

impl View for Command {
    type V = CommandView;

    open spec fn view(&self) -> CommandView {
        match self {
            Command::Idle => CommandView::Idle,
            Command::Alert(m) => CommandView::Alert(m@),
            Command::ProveSetupAndCreate { name, state } => CommandView::ProveSetupAndCreate {
                name: name@,
                state: *state,
            },
            Command::ProveSetupAndJoin { name, state, shot } => CommandView::ProveSetupAndJoin {
                name: name@,
                state: *state,
                shot: *shot,
            },
            Command::SubmitTurn { name, receipt, shot } => CommandView::SubmitTurn {
                name: name@,
                receipt: receipt@,
                shot: *shot,
            },
            Command::ReadLedger { name, resuming } => CommandView::ReadLedger {
                name: name@,
                resuming: *resuming,
            },
            Command::ProveRound { params, sunk } => CommandView::ProveRound {
                params: *params,
                sunk: *sunk,
            },
            Command::Save { then_wait } => CommandView::Save { then_wait: *then_wait },
        }
    }
}

/// A player's local record of one game.
pub struct GameSession {
    pub name: String,
    /// The hidden board.
    pub state: BoardState,
    /// Outcomes of the opponent's shots at this player.
    pub local_shots: ShotMap,
    /// Outcomes of this player's shots at the opponent.
    pub remote_shots: ShotMap,
    /// The receipt of the last round this player proved.
    pub last_receipt: String,
    /// This player's last shot.
    pub last_shot: Option<Position>,
    /// The next shot is the second player's first, which joins the game.
    pub is_first: bool,
    pub status: String,
    /// The seat of this player, fixed when the session is made.
    pub og_until: Seat,
    /// The opponent's last move is folded into the session and persisted.
    pub turn_processed: bool,
}

pub struct GameSessionView {
    pub name: Seq<char>,
    pub state: BoardState,
    pub local_shots: Map<Position, HitType>,
    pub remote_shots: Map<Position, HitType>,
    pub last_receipt: Seq<char>,
    pub last_shot: Option<Position>,
    pub is_first: bool,
    pub status: Seq<char>,
    pub og_until: Seat,
    pub turn_processed: bool,
}

impl View for GameSession {
    type V = GameSessionView;

    open spec fn view(&self) -> GameSessionView {
        GameSessionView {
            name: self.name@,
            state: self.state,
            local_shots: self.local_shots@,
            remote_shots: self.remote_shots@,
            last_receipt: self.last_receipt@,
            last_shot: self.last_shot,
            is_first: self.is_first,
            status: self.status@,
            og_until: self.og_until,
            turn_processed: self.turn_processed,
        }
    }
}

impl GameSession {
    pub open spec fn wf(&self) -> bool {
        self.local_shots.wf() && self.remote_shots.wf()
    }

    /// The shots shown on one board.
    pub fn shots(&self, side: Side) -> (r: &ShotMap)
        ensures
            r == (match side {
                Side::Local => &self.local_shots,
                Side::Remote => &self.remote_shots,
            }),
    {
        match side {
            Side::Local => &self.local_shots,
            Side::Remote => &self.remote_shots,
        }
    }
}

pub open spec fn ready_status() -> Seq<char> {
    "Ready!"@
}

pub open spec fn waiting_status() -> Seq<char> {
    "Waiting for other player."@
}

/// The decimal digit for `d`.
pub open spec fn digit_char(d: nat) -> char {
    if d == 0 { '0' } else if d == 1 { '1' } else if d == 2 { '2' } else if d == 3 { '3' }
    else if d == 4 { '4' } else if d == 5 { '5' } else if d == 6 { '6' } else if d == 7 { '7' }
    else if d == 8 { '8' } else { '9' }
}

/// `n` written in decimal, without leading zeros.
pub open spec fn decimal(n: nat) -> Seq<char>
    decreases n,
{
    if n < 10 {
        seq![digit_char(n)]
    } else {
        decimal(n / 10).push(digit_char(n % 10))
    }
}

/// The status shown while a shot at `pos` is submitted.
pub open spec fn shot_text(pos: Position) -> Seq<char> {
    "Shot: ("@ + decimal(pos.x as nat) + ", "@ + decimal(pos.y as nat) + ")"@
}

/// The one-character text of the digit `d`.
fn digit_str(d: u32) -> (r: &'static str)
    requires
        d < 10,
    ensures
        r@ == seq![digit_char(d as nat)],
{
    proof {
        reveal_strlit("0");
        reveal_strlit("1");
        reveal_strlit("2");
        reveal_strlit("3");
        reveal_strlit("4");
        reveal_strlit("5");
        reveal_strlit("6");
        reveal_strlit("7");
        reveal_strlit("8");
        reveal_strlit("9");
    }
    let r = if d == 0 { "0" } else if d == 1 { "1" } else if d == 2 { "2" } else if d == 3 { "3" }
        else if d == 4 { "4" } else if d == 5 { "5" } else if d == 6 { "6" } else if d == 7 { "7" }
        else if d == 8 { "8" } else { "9" };
    assert(r@ =~= seq![digit_char(d as nat)]);
    r
}

/// Appends `n` in decimal to `out`.
fn append_decimal(out: &mut String, n: u32)
    ensures
        final(out)@ == old(out)@ + decimal(n as nat),
    decreases n,
{
    if n >= 10 {
        append_decimal(out, n / 10);
    }
    out.append(digit_str(n % 10));
    proof {
        if n >= 10 {
            assert(decimal(n as nat) == decimal((n / 10) as nat).push(digit_char((n % 10) as nat)));
        }
        assert(out@ =~= old(out)@ + decimal(n as nat));
    }
}

/// The status text while a shot at `pos` is submitted.
fn shot_status(pos: Position) -> (r: String)
    ensures
        r@ == shot_text(pos),
{
    let mut r = "Shot: (".to_owned();
    append_decimal(&mut r, pos.x);
    r.append(", ");
    append_decimal(&mut r, pos.y);
    r.append(")");
    assert(r@ =~= shot_text(pos));
    r
}

pub proof fn lemma_shot_text_not_ready(pos: Position)
    ensures
        shot_text(pos) != ready_status(),
        shot_text(pos) != waiting_status(),
{
    reveal_strlit("Shot: (");
    reveal_strlit("Ready!");
    reveal_strlit("Waiting for other player.");
    let t = shot_text(pos);
    assert(t[0] == 'S');
    assert(ready_status()[0] == 'R');
    assert(waiting_status()[0] == 'W');
}

/// Whether the ledger waits for `seat` to process the opponent's move.
pub open spec fn my_turn(seat: Seat, t: NextTurn) -> bool {
    match seat {
        Seat::First => t is P1MustProcess,
        Seat::Second => t is P2MustProcess,
    }
}

/// The outcome the ledger reports for the last processed shot, if it holds a
/// well-formed one.
pub open spec fn ledger_outcome(cs: ContractState) -> Option<CoreHitType> {
    match cs.last_hit {
        Some(0u32) => Some(CoreHitType::Miss),
        Some(1u32) => Some(CoreHitType::Hit),
        Some(2u32) => match cs.sunk_what {
            Some(k) => Some(CoreHitType::Sunk(k)),
            None => None,
        },
        _ => None,
    }
}

/// The opponent's last shot, which `seat` must now answer.
pub open spec fn incoming_shot(seat: Seat, cs: ContractState) -> Position {
    match seat {
        Seat::First => Position { x: cs.p2.shot_x, y: cs.p2.shot_y },
        Seat::Second => Position { x: cs.p1.shot_x, y: cs.p1.shot_y },
    }
}

/// Status after a ledger record without a well-formed outcome for our shot.
pub open spec fn bad_outcome_status() -> Seq<char> {
    "ProcessTurn: the ledger holds no outcome for the last shot"@
}

/// The session after handling `msg`.
pub open spec fn next_session(s: GameSessionView, msg: GameMsg) -> GameSessionView {
    match msg {
        GameMsg::Init => GameSessionView { status: "Init"@, ..s },
        GameMsg::Shot(pos) => if s.status == ready_status() && !s.remote_shots.contains_key(pos) {
            GameSessionView {
                status: shot_text(pos),
                last_shot: Some(pos),
                remote_shots: s.remote_shots.insert(pos, HitType::Pending),
                is_first: false,
                ..s
            }
        } else {
            s
        },
        GameMsg::WaitTurn => GameSessionView { status: waiting_status(), ..s },
        GameMsg::CheckTurn => s,
        GameMsg::SaveAndWait => GameSessionView { status: waiting_status(), turn_processed: false, ..s },
        GameMsg::ProcessTurn(cs) => match s.last_shot {
            Some(p) => match ledger_outcome(cs) {
                Some(h) => GameSessionView {
                    status: "ProcessTurn"@,
                    remote_shots: s.remote_shots.insert(p, HitType::Core(h)),
                    ..s
                },
                None => GameSessionView { status: bad_outcome_status(), ..s },
            },
            None => GameSessionView { status: "ProcessTurn"@, ..s },
        },
        GameMsg::UpdateState(receipt, result, shot) => GameSessionView {
            status: ready_status(),
            state: result.state,
            last_receipt: receipt@,
            local_shots: s.local_shots.insert(shot, HitType::Core(result.hit)),
            turn_processed: true,
            ..s
        },
        GameMsg::Resume => GameSessionView { status: ready_status(), ..s },
        GameMsg::Error(m) => GameSessionView { status: m@, ..s },
        GameMsg::OutOfTurn(m) => GameSessionView { status: m@, ..s },
    }
}

/// The outside work asked for by handling `msg` in `s`.
pub open spec fn next_command(s: GameSessionView, msg: GameMsg) -> CommandView {
    match msg {
        GameMsg::Init => CommandView::ProveSetupAndCreate { name: s.name, state: s.state },
        GameMsg::Shot(pos) => if s.status != ready_status() {
            CommandView::Alert("Waiting for other player!"@)
        } else if s.remote_shots.contains_key(pos) {
            CommandView::Alert("Already shot there!"@)
        } else if s.is_first {
            CommandView::ProveSetupAndJoin { name: s.name, state: s.state, shot: pos }
        } else {
            CommandView::SubmitTurn { name: s.name, receipt: s.last_receipt, shot: pos }
        },
        GameMsg::WaitTurn => CommandView::ReadLedger { name: s.name, resuming: false },
        GameMsg::CheckTurn => CommandView::ReadLedger { name: s.name, resuming: true },
        GameMsg::SaveAndWait => CommandView::Save { then_wait: true },
        GameMsg::ProcessTurn(cs) => {
            let round = CommandView::ProveRound {
                params: RoundParams { state: s.state, shot: incoming_shot(s.og_until, cs) },
                sunk: match ledger_outcome(cs) {
                    Some(CoreHitType::Sunk(k)) => if s.last_shot is Some { Some(k) } else { None },
                    _ => None,
                },
            };
            match s.last_shot {
                Some(p) => if ledger_outcome(cs) is Some { round } else { CommandView::Idle },
                None => round,
            }
        },
        GameMsg::UpdateState(_, _, _) => CommandView::Save { then_wait: false },
        GameMsg::Resume => CommandView::Idle,
        GameMsg::Error(_) => CommandView::Idle,
        GameMsg::OutOfTurn(_) => CommandView::ReadLedger { name: s.name, resuming: true },
    }
}

/// Whether handling `msg` in `s` changes what the player sees.
pub open spec fn redraws(s: GameSessionView, msg: GameMsg) -> bool {
    match msg {
        GameMsg::Shot(pos) => s.status == ready_status() && !s.remote_shots.contains_key(pos),
        _ => true,
    }
}

/// The message that follows a submission to the ledger.
pub open spec fn submission_next(r: Result<(), Failure>) -> GameMsg {
    match r {
        Ok(()) => GameMsg::SaveAndWait,
        Err(f) => match f {
            Failure::Ledger(LedgerError::OutOfTurn, m) => GameMsg::OutOfTurn(m),
            Failure::Ledger(_, m) => GameMsg::Error(m),
            Failure::Network(m) => GameMsg::Error(m),
            Failure::Proof(m) => GameMsg::Error(m),
            Failure::Persistence(m) => GameMsg::Error(m),
        },
    }
}

/// The message that follows a read of the ledger, while waiting
/// (`resuming == false`) or on resuming a restored session.
pub open spec fn ledger_read_next(s: GameSessionView, resuming: bool, r: Result<ContractState, String>) -> Next {
    match r {
        Err(m) => Next::Now(GameMsg::Error(m)),
        Ok(cs) => if !my_turn(s.og_until, cs.next_turn) {
            Next::AfterPause(GameMsg::WaitTurn)
        } else if resuming && s.turn_processed {
            Next::Now(GameMsg::Resume)
        } else {
            Next::Now(GameMsg::ProcessTurn(cs))
        },
    }
}

/// The message that follows a round proof for `shot`.
pub open spec fn round_proof_next(r: Result<TurnResult, String>, shot: Position) -> GameMsg {
    match r {
        Ok(t) => GameMsg::UpdateState(t.receipt, t.state, shot),
        Err(m) => GameMsg::Error(m),
    }
}

/// What a new engine is made from: the game's name, the seat of this player,
/// and the ships of a new board.
pub struct Props {
    pub name: String,
    pub until: Seat,
    pub ships: [Ship; 5],
}

/// The engine of one player for one game. It owns the session; the outside
/// work that a message asks for is handed back as a `Command`.
pub struct GameProvider {
    pub game: GameSession,
}

impl GameProvider {
    /// Restores the stored session and checks the turn, or else starts a new
    /// session from `props`, which the first seat sets up at once.
    pub fn create(props: Props, stored: Option<GameSession>) -> (r: (GameProvider, Option<GameMsg>))
        requires
            stored matches Some(g) ==> g.wf(),
        ensures
            r.0.game.wf(),
            stored matches Some(g) ==> r.0.game == g && r.1 == Some(GameMsg::CheckTurn),
            stored is None ==> r.0.game@ == (GameSessionView {
                name: props.name@,
                state: BoardState { ships: props.ships, salt: BOARD_SALT },
                local_shots: Map::empty(),
                remote_shots: Map::empty(),
                last_receipt: Seq::empty(),
                last_shot: None,
                is_first: props.until == Seat::Second,
                status: ready_status(),
                og_until: props.until,
                turn_processed: false,
            }),
            stored is None ==> r.1 == (if props.until == Seat::First { Some(GameMsg::Init) } else { None }),
    {
        match stored {
            Some(game) => (GameProvider { game }, Some(GameMsg::CheckTurn)),
            None => {
                let seat = props.until;
                let game = GameSession {
                    name: props.name,
                    state: BoardState { ships: props.ships, salt: BOARD_SALT },
                    local_shots: ShotMap::new(),
                    remote_shots: ShotMap::new(),
                    last_receipt: String::new(),
                    last_shot: None,
                    is_first: seat == Seat::Second,
                    status: "Ready!".to_owned(),
                    og_until: seat,
                    turn_processed: false,
                };
                let first = if seat == Seat::First { Some(GameMsg::Init) } else { None };
                (GameProvider { game }, first)
            },
        }
    }

    /// Handles one message: updates the session and says whether the view
    /// changed and what outside work follows.
    pub fn update(&mut self, msg: GameMsg) -> (r: (bool, Command))
        requires
            old(self).game.wf(),
        ensures
            final(self).game.wf(),
            final(self).game@ == next_session(old(self).game@, msg),
            r.0 == redraws(old(self).game@, msg),
            r.1@ == next_command(old(self).game@, msg),
    {
        proof {
            reveal_strlit("Ready!");
        }
        match msg {
            GameMsg::Init => {
                self.game.status = "Init".to_owned();
                (true, Command::ProveSetupAndCreate { name: self.game.name.clone(), state: self.game.state })
            },
            GameMsg::Shot(pos) => {
                let ready = "Ready!".to_owned();
                if self.game.status != ready {
                    (false, Command::Alert("Waiting for other player!".to_owned()))
                } else if self.game.remote_shots.get(pos).is_some() {
                    (false, Command::Alert("Already shot there!".to_owned()))
                } else {
                    let status = shot_status(pos);
                    self.game.status = status;
                    self.game.last_shot = Some(pos);
                    self.game.remote_shots.insert(pos, HitType::Pending);
                    let is_first = self.game.is_first;
                    self.game.is_first = false;
                    let name = self.game.name.clone();
                    let cmd = if is_first {
                        Command::ProveSetupAndJoin { name, state: self.game.state, shot: pos }
                    } else {
                        Command::SubmitTurn { name, receipt: self.game.last_receipt.clone(), shot: pos }
                    };
                    (true, cmd)
                }
            },
            GameMsg::WaitTurn => {
                self.game.status = "Waiting for other player.".to_owned();
                (true, Command::ReadLedger { name: self.game.name.clone(), resuming: false })
            },
            GameMsg::CheckTurn => {
                (true, Command::ReadLedger { name: self.game.name.clone(), resuming: true })
            },
            GameMsg::SaveAndWait => {
                self.game.status = "Waiting for other player.".to_owned();
                self.game.turn_processed = false;
                (true, Command::Save { then_wait: true })
            },
            GameMsg::ProcessTurn(cs) => {
                let outcome = outcome_of(&cs);
                let mut sunk: Option<u32> = None;
                match self.game.last_shot {
                    Some(p) => match outcome {
                        Some(h) => {
                            if let CoreHitType::Sunk(k) = h {
                                sunk = Some(k);
                            }
                            self.game.remote_shots.insert(p, HitType::Core(h));
                        },
                        None => {
                            self.game.status =
                                "ProcessTurn: the ledger holds no outcome for the last shot".to_owned();
                            return (true, Command::Idle);
                        },
                    },
                    None => {},
                }
                self.game.status = "ProcessTurn".to_owned();
                let shot = match self.game.og_until {
                    Seat::First => Position::new(cs.p2.shot_x, cs.p2.shot_y),
                    Seat::Second => Position::new(cs.p1.shot_x, cs.p1.shot_y),
                };
                (true, Command::ProveRound { params: RoundParams { state: self.game.state, shot }, sunk })
            },
            GameMsg::UpdateState(receipt, result, shot) => {
                self.game.status = "Ready!".to_owned();
                self.game.state = result.state;
                self.game.last_receipt = receipt;
                self.game.local_shots.insert(shot, HitType::Core(result.hit));
                self.game.turn_processed = true;
                (true, Command::Save { then_wait: false })
            },
            GameMsg::Resume => {
                self.game.status = "Ready!".to_owned();
                (true, Command::Idle)
            },
            GameMsg::Error(m) => {
                self.game.status = m;
                (true, Command::Idle)
            },
            GameMsg::OutOfTurn(m) => {
                self.game.status = m;
                (true, Command::ReadLedger { name: self.game.name.clone(), resuming: true })
            },
        }
    }

    /// What follows a read of the ledger record, `r`, made for a
    /// `ReadLedger` command.
    pub fn after_ledger_read(&self, resuming: bool, r: Result<ContractState, String>) -> (n: Next)
        ensures
            n == ledger_read_next(self.game@, resuming, r),
    {
        match r {
            Err(m) => Next::Now(GameMsg::Error(m)),
            Ok(cs) => {
                let mine = match self.game.og_until {
                    Seat::First => cs.next_turn == NextTurn::P1MustProcess,
                    Seat::Second => cs.next_turn == NextTurn::P2MustProcess,
                };
                if !mine {
                    Next::AfterPause(GameMsg::WaitTurn)
                } else if resuming && self.game.turn_processed {
                    Next::Now(GameMsg::Resume)
                } else {
                    Next::Now(GameMsg::ProcessTurn(cs))
                }
            },
        }
    }
}

/// The well-formed outcome the ledger reports, if any.
fn outcome_of(cs: &ContractState) -> (r: Option<CoreHitType>)
    ensures
        r == ledger_outcome(*cs),
{
    match cs.last_hit {
        Some(0u32) => Some(CoreHitType::Miss),
        Some(1u32) => Some(CoreHitType::Hit),
        Some(2u32) => match cs.sunk_what {
            Some(k) => Some(CoreHitType::Sunk(k)),
            None => None,
        },
        _ => None,
    }
}

/// What follows the result `r` of a submission to the ledger.
pub fn after_submission(r: Result<(), Failure>) -> (m: GameMsg)
    ensures
        m == submission_next(r),
{
    match r {
        Ok(()) => GameMsg::SaveAndWait,
        Err(f) => match f {
            Failure::Ledger(LedgerError::OutOfTurn, m) => GameMsg::OutOfTurn(m),
            Failure::Ledger(_, m) => GameMsg::Error(m),
            Failure::Network(m) => GameMsg::Error(m),
            Failure::Proof(m) => GameMsg::Error(m),
            Failure::Persistence(m) => GameMsg::Error(m),
        },
    }
}

/// What follows the prover's answer `r` for the round of `shot`.
pub fn after_round_proof(r: Result<TurnResult, String>, shot: Position) -> (m: GameMsg)
    ensures
        m == round_proof_next(r, shot),
{
    match r {
        Ok(t) => GameMsg::UpdateState(t.receipt, t.state, shot),
        Err(e) => GameMsg::Error(e),
    }
}

} // verus!
