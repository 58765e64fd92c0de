use battleship_sync::engine::{
    after_round_proof, after_submission, Command, Failure, GameMsg, GameProvider, Next, Props, Side, TurnResult,
    BOARD_SALT,
};
use battleship_sync::ledger::{BattleshipContract, ContractState, LedgerError, RoundCommit, Seat};
use battleship_sync::model::{CoreHitType, HitType, Position, RoundResult, Ship, ShipDirection};

fn ships() -> [Ship; 5] {
    [
        Ship::new(0, 0, ShipDirection::Horizontal),
        Ship::new(0, 1, ShipDirection::Horizontal),
        Ship::new(0, 2, ShipDirection::Horizontal),
        Ship::new(0, 3, ShipDirection::Horizontal),
        Ship::new(0, 4, ShipDirection::Horizontal),
    ]
}

/// Hands `msg` to the engine and returns the command.
fn step(p: &mut GameProvider, msg: GameMsg) -> Command {
    p.update(msg).1
}

fn read(p: &GameProvider, ledger: &BattleshipContract, resuming: bool) -> Next {
    let r: Result<ContractState, String> = ledger.game_state(p.game.name.clone()).ok_or("no game".to_string());
    p.after_ledger_read(resuming, r)
}

#[test]
fn new_first_seat_starts_with_init() {
    let (p, first) = GameProvider::create(Props { name: "g1".to_string(), until: Seat::First, ships: ships() }, None);
    assert!(matches!(first, Some(GameMsg::Init)));
    assert_eq!(p.game.status, "Ready!");
    assert_eq!(p.game.state.salt, BOARD_SALT);
    assert!(!p.game.is_first);
    assert!(!p.game.turn_processed);
    assert_eq!(p.game.local_shots.len(), 0);
}

#[test]
fn new_second_seat_waits_for_a_shot() {
    let (p, first) = GameProvider::create(Props { name: "g1".to_string(), until: Seat::Second, ships: ships() }, None);
    assert!(first.is_none());
    assert!(p.game.is_first);
    assert_eq!(p.game.og_until, Seat::Second);
}

#[test]
fn shot_status_names_the_position() {
    let (mut p, _) = GameProvider::create(Props { name: "g1".to_string(), until: Seat::Second, ships: ships() }, None);
    let cmd = step(&mut p, GameMsg::Shot(Position::new(3, 14)));
    assert_eq!(p.game.status, "Shot: (3, 14)");
    assert!(matches!(cmd, Command::ProveSetupAndJoin { shot, .. } if shot == Position::new(3, 14)));
    assert_eq!(p.game.remote_shots.get(Position::new(3, 14)), Some(HitType::Pending));
    assert!(!p.game.is_first);
}

#[test]
fn shot_while_waiting_is_refused() {
    let (mut p, _) = GameProvider::create(Props { name: "g1".to_string(), until: Seat::Second, ships: ships() }, None);
    step(&mut p, GameMsg::Shot(Position::new(3, 4)));
    step(&mut p, GameMsg::SaveAndWait);
    let (redraw, cmd) = p.update(GameMsg::Shot(Position::new(5, 5)));
    assert!(!redraw);
    assert!(matches!(cmd, Command::Alert(ref m) if m == "Waiting for other player!"));
    assert_eq!(p.game.remote_shots.len(), 1);
    assert_eq!(p.game.last_shot, Some(Position::new(3, 4)));
}

#[test]
fn submission_results_lead_on() {
    assert!(matches!(after_submission(Ok(())), GameMsg::SaveAndWait));
    let stale = after_submission(Err(Failure::Ledger(LedgerError::OutOfTurn, "turn: OutOfTurn".to_string())));
    assert!(matches!(stale, GameMsg::OutOfTurn(ref m) if m == "turn: OutOfTurn"));
    let refused = after_submission(Err(Failure::Ledger(LedgerError::ProofFailure, "turn: ProofFailure".to_string())));
    assert!(matches!(refused, GameMsg::Error(ref m) if m == "turn: ProofFailure"));
    let down = after_submission(Err(Failure::Network("POST /prove/init failed: down".to_string())));
    assert!(matches!(down, GameMsg::Error(ref m) if m == "POST /prove/init failed: down"));
    let bad = after_submission(Err(Failure::Proof("receipt: bad".to_string())));
    assert!(matches!(bad, GameMsg::Error(ref m) if m == "receipt: bad"));
}

#[test]
fn out_of_turn_shows_message_and_checks_turn() {
    let (mut p, _) = GameProvider::create(Props { name: "g1".to_string(), until: Seat::First, ships: ships() }, None);
    let cmd = step(&mut p, GameMsg::OutOfTurn("turn: OutOfTurn".to_string()));
    assert_eq!(p.game.status, "turn: OutOfTurn");
    assert!(matches!(cmd, Command::ReadLedger { ref name, resuming: true } if name == "g1"));
}

#[test]
fn shot_at_same_position_is_refused() {
    let (mut p, _) = GameProvider::create(Props { name: "g1".to_string(), until: Seat::First, ships: ships() }, None);
    p.game.remote_shots.insert(Position::new(2, 2), HitType::Core(CoreHitType::Miss));
    let (redraw, cmd) = p.update(GameMsg::Shot(Position::new(2, 2)));
    assert!(!redraw);
    assert!(matches!(cmd, Command::Alert(ref m) if m == "Already shot there!"));
    assert_eq!(p.game.status, "Ready!");
    assert_eq!(p.game.remote_shots.get(Position::new(2, 2)), Some(HitType::Core(CoreHitType::Miss)));
    assert_eq!(p.game.last_shot, None);
}

#[test]
fn round_proof_results_lead_on() {
    let state = battleship_sync::model::BoardState { ships: ships(), salt: 1 };
    let ok = after_round_proof(
        Ok(TurnResult { state: RoundResult { state, hit: CoreHitType::Miss }, receipt: "R1".to_string() }),
        Position::new(2, 2),
    );
    assert!(matches!(ok, GameMsg::UpdateState(ref r, res, pos) if r == "R1" && res.hit == CoreHitType::Miss && pos == Position::new(2, 2)));
    let err = after_round_proof(Err("POST /prove/turn: down".to_string()), Position::new(2, 2));
    assert!(matches!(err, GameMsg::Error(ref m) if m == "POST /prove/turn: down"));
}

#[test]
fn error_is_shown_verbatim() {
    let (mut p, _) = GameProvider::create(Props { name: "g1".to_string(), until: Seat::First, ships: ships() }, None);
    step(&mut p, GameMsg::Error("new_game: AlreadyExists".to_string()));
    assert_eq!(p.game.status, "new_game: AlreadyExists");
}

/// Two engines and one ledger, from creation to the first processed turn.
#[test]
fn two_players_first_round() {
    let mut ledger = BattleshipContract::default();
    let (mut a, first) = GameProvider::create(Props { name: "g1".to_string(), until: Seat::First, ships: ships() }, None);
    let cmd = step(&mut a, first.unwrap());
    assert!(matches!(cmd, Command::ProveSetupAndCreate { ref name, .. } if name == "g1"));
    // setup receipt R0 attests the commitment [1; 8]
    let created = ledger.new_game("g1".to_string(), "alice".to_string(), [1; 8]).map_err(|e| Failure::Ledger(e, format!("new_game: {e:?}")));
    let cmd = step(&mut a, after_submission(created));
    assert!(matches!(cmd, Command::Save { then_wait: true }));
    assert!(!a.game.turn_processed);
    let cmd = step(&mut a, GameMsg::WaitTurn);
    assert!(matches!(cmd, Command::ReadLedger { resuming: false, .. }));
    assert!(matches!(read(&a, &ledger, false), Next::AfterPause(GameMsg::WaitTurn)));

    let (mut b, none) = GameProvider::create(Props { name: "g1".to_string(), until: Seat::Second, ships: ships() }, None);
    assert!(none.is_none());
    let cmd = step(&mut b, GameMsg::Shot(Position::new(3, 4)));
    assert!(matches!(cmd, Command::ProveSetupAndJoin { .. }));
    let joined = ledger.join_game("g1".to_string(), "bob".to_string(), [2; 8], 3, 4).map_err(|e| Failure::Ledger(e, format!("join_game: {e:?}")));
    step(&mut b, after_submission(joined));
    assert!(matches!(read(&b, &ledger, false), Next::AfterPause(GameMsg::WaitTurn)));

    // A's poll sees its turn and processes B's shot
    let next = read(&a, &ledger, false);
    let msg = match next {
        Next::Now(m @ GameMsg::ProcessTurn(_)) => m,
        _ => panic!("expected ProcessTurn"),
    };
    let cmd = step(&mut a, msg);
    let params = match cmd {
        Command::ProveRound { params, sunk: None } => params,
        _ => panic!("expected a round proof"),
    };
    assert_eq!(params.shot, Position::new(3, 4));
    // the prover answers: B's shot at (3, 4) hit
    let result = RoundResult { state: params.state, hit: CoreHitType::Hit };
    let msg = after_round_proof(Ok(TurnResult { state: result, receipt: "R1".to_string() }), params.shot);
    let cmd = step(&mut a, msg);
    assert!(matches!(cmd, Command::Save { then_wait: false }));
    assert!(a.game.turn_processed);
    assert_eq!(a.game.status, "Ready!");
    assert_eq!(a.game.last_receipt, "R1");
    assert_eq!(a.game.shots(Side::Local).get(Position::new(3, 4)), Some(HitType::Core(CoreHitType::Hit)));
    assert_eq!(a.game.shots(Side::Remote).len(), 0);

    // A fires back at (7, 7) with the receipt of the round
    let cmd = step(&mut a, GameMsg::Shot(Position::new(7, 7)));
    assert!(matches!(cmd, Command::SubmitTurn { ref receipt, shot, .. } if receipt == "R1" && shot == Position::new(7, 7)));
    assert_eq!(a.game.remote_shots.get(Position::new(7, 7)), Some(HitType::Pending));
    assert_eq!(a.game.local_shots.len(), 1);
}

#[test]
fn sunk_outcome_is_announced_and_stored() {
    let mut ledger = BattleshipContract::default();
    ledger.new_game("g1".to_string(), "alice".to_string(), [1; 8]).unwrap();
    let (mut b, _) = GameProvider::create(Props { name: "g1".to_string(), until: Seat::Second, ships: ships() }, None);
    step(&mut b, GameMsg::Shot(Position::new(3, 4)));
    ledger.join_game("g1".to_string(), "bob".to_string(), [2; 8], 3, 4).unwrap();
    step(&mut b, GameMsg::SaveAndWait);
    // A proves that (3, 4) sank ship 2 and fires at (7, 7)
    let round = RoundCommit { old_board: [1; 8], new_board: [5; 8], shot_x: 3, shot_y: 4, hit: 2, sunk: 2 };
    ledger.turn("g1".to_string(), "alice".to_string(), round, 7, 7).unwrap();
    let msg = match read(&b, &ledger, false) {
        Next::Now(m @ GameMsg::ProcessTurn(_)) => m,
        _ => panic!("expected ProcessTurn"),
    };
    let cmd = step(&mut b, msg);
    match cmd {
        Command::ProveRound { params, sunk } => {
            assert_eq!(sunk, Some(2));
            assert_eq!(params.shot, Position::new(7, 7));
        },
        _ => panic!("expected a round proof"),
    }
    assert_eq!(b.game.remote_shots.get(Position::new(3, 4)), Some(HitType::Core(CoreHitType::Sunk(2))));
    assert_ne!(b.game.remote_shots.get(Position::new(3, 4)), Some(HitType::Core(CoreHitType::Hit)));
    assert_eq!(b.game.remote_shots.len(), 1);
}

#[test]
fn plain_hit_is_not_announced() {
    let mut ledger = BattleshipContract::default();
    ledger.new_game("g1".to_string(), "alice".to_string(), [1; 8]).unwrap();
    let (mut b, _) = GameProvider::create(Props { name: "g1".to_string(), until: Seat::Second, ships: ships() }, None);
    step(&mut b, GameMsg::Shot(Position::new(3, 4)));
    ledger.join_game("g1".to_string(), "bob".to_string(), [2; 8], 3, 4).unwrap();
    let round = RoundCommit { old_board: [1; 8], new_board: [5; 8], shot_x: 3, shot_y: 4, hit: 1, sunk: 0 };
    ledger.turn("g1".to_string(), "alice".to_string(), round, 7, 7).unwrap();
    let state = ledger.game_state("g1".to_string()).unwrap();
    let cmd = step(&mut b, GameMsg::ProcessTurn(state));
    assert!(matches!(cmd, Command::ProveRound { sunk: None, .. }));
    assert_eq!(b.game.remote_shots.get(Position::new(3, 4)), Some(HitType::Core(CoreHitType::Hit)));
}

#[test]
fn resumed_session_becomes_ready_again() {
    let mut ledger = BattleshipContract::default();
    ledger.new_game("g1".to_string(), "alice".to_string(), [1; 8]).unwrap();
    ledger.join_game("g1".to_string(), "bob".to_string(), [2; 8], 3, 4).unwrap();
    let (mut a, _) = GameProvider::create(Props { name: "g1".to_string(), until: Seat::First, ships: ships() }, None);
    let state = ledger.game_state("g1".to_string()).unwrap();
    let params = match step(&mut a, GameMsg::ProcessTurn(state)) {
        Command::ProveRound { params, .. } => params,
        _ => panic!("expected a round proof"),
    };
    step(&mut a, GameMsg::UpdateState("R1".to_string(), RoundResult { state: params.state, hit: CoreHitType::Miss }, params.shot));
    let before_status = a.game.status.clone();
    // the process stops; the stored session comes back
    let (mut again, first) = GameProvider::create(Props { name: "g1".to_string(), until: Seat::First, ships: ships() }, Some(a.game));
    assert!(matches!(first, Some(GameMsg::CheckTurn)));
    let cmd = step(&mut again, GameMsg::CheckTurn);
    assert!(matches!(cmd, Command::ReadLedger { resuming: true, .. }));
    let next = read(&again, &ledger, true);
    assert!(matches!(next, Next::Now(GameMsg::Resume)));
    step(&mut again, GameMsg::Resume);
    assert_eq!(again.game.status, before_status);
    assert_eq!(again.game.status, "Ready!");
    assert!(again.game.turn_processed);
    assert_eq!(again.game.local_shots.get(Position::new(3, 4)), Some(HitType::Core(CoreHitType::Miss)));
}

#[test]
fn resumed_session_without_processed_turn_processes_it() {
    let mut ledger = BattleshipContract::default();
    ledger.new_game("g1".to_string(), "alice".to_string(), [1; 8]).unwrap();
    ledger.join_game("g1".to_string(), "bob".to_string(), [2; 8], 3, 4).unwrap();
    let (a, _) = GameProvider::create(Props { name: "g1".to_string(), until: Seat::First, ships: ships() }, None);
    assert!(matches!(read(&a, &ledger, true), Next::Now(GameMsg::ProcessTurn(_))));
    let (b, _) = GameProvider::create(Props { name: "g1".to_string(), until: Seat::Second, ships: ships() }, None);
    assert!(matches!(read(&b, &ledger, true), Next::AfterPause(GameMsg::WaitTurn)));
}

#[test]
fn missing_outcome_stops_processing() {
    let mut ledger = BattleshipContract::default();
    ledger.new_game("g1".to_string(), "alice".to_string(), [1; 8]).unwrap();
    ledger.join_game("g1".to_string(), "bob".to_string(), [2; 8], 3, 4).unwrap();
    let (mut a, _) = GameProvider::create(Props { name: "g1".to_string(), until: Seat::First, ships: ships() }, None);
    a.game.last_shot = Some(Position::new(1, 1));
    let state = ledger.game_state("g1".to_string()).unwrap();
    let cmd = step(&mut a, GameMsg::ProcessTurn(state));
    assert!(matches!(cmd, Command::Idle));
    assert_eq!(a.game.status, "ProcessTurn: the ledger holds no outcome for the last shot");
}

#[test]
fn ledger_read_failure_is_an_error() {
    let (a, _) = GameProvider::create(Props { name: "g1".to_string(), until: Seat::First, ships: ships() }, None);
    let n = a.after_ledger_read(false, Err("get_state: unreachable".to_string()));
    assert!(matches!(n, Next::Now(GameMsg::Error(ref m)) if m == "get_state: unreachable"));
}

#[test]
fn repeated_polls_only_read_the_ledger() {
    let mut ledger = BattleshipContract::default();
    ledger.new_game("g1".to_string(), "alice".to_string(), [1; 8]).unwrap();
    let (mut b, _) = GameProvider::create(Props { name: "g1".to_string(), until: Seat::Second, ships: ships() }, None);
    step(&mut b, GameMsg::Shot(Position::new(3, 4)));
    ledger.join_game("g1".to_string(), "bob".to_string(), [2; 8], 3, 4).unwrap();
    assert!(matches!(step(&mut b, GameMsg::SaveAndWait), Command::Save { then_wait: true }));
    for _ in 0..3 {
        let cmd = step(&mut b, GameMsg::WaitTurn);
        assert!(matches!(cmd, Command::ReadLedger { resuming: false, .. }));
        assert!(matches!(read(&b, &ledger, false), Next::AfterPause(GameMsg::WaitTurn)));
        assert_eq!(b.game.status, "Waiting for other player.");
        assert_eq!(b.game.remote_shots.get(Position::new(3, 4)), Some(HitType::Pending));
        assert_eq!(b.game.remote_shots.len(), 1);
        assert!(!b.game.turn_processed);
    }
}
