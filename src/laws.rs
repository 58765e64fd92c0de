use vstd::prelude::*;

use crate::engine::{
    lemma_shot_text_not_ready, next_command, next_session, ledger_outcome, ledger_read_next, my_turn, ready_status,
    waiting_status, CommandView, GameMsg, GameSessionView, Next,
};
use crate::ledger::ContractState;
use crate::model::{HitType, Position, RoundResult};

verus! {

/// The session after `n` reads of the ledger while waiting.
pub open spec fn wait_polls(s: GameSessionView, n: nat) -> GameSessionView
    decreases n,
{
    if n == 0 {
        s
    } else {
        next_session(wait_polls(s, (n - 1) as nat), GameMsg::WaitTurn)
    }
}

proof fn lemma_wait_polls_keep(s: GameSessionView, n: nat)
    requires
        s.status == waiting_status(),
    ensures
        wait_polls(s, n) == s,
    decreases n,
{
    if n > 0 {
        lemma_wait_polls_keep(s, (n - 1) as nat);
    }
}

/// A shot that is marked pending, saved, and waited on for any number of
/// polls, ends up holding the outcome that the ledger reports for it once the
/// opponent has moved: the placeholder is replaced in place, and no other
/// position is added.
pub proof fn lemma_pending_converges(s: GameSessionView, pos: Position, n: nat, cs: ContractState)
    requires
        s.status == ready_status(),
        !s.remote_shots.contains_key(pos),
        ledger_outcome(cs) is Some,
    ensures
        ({
            let shot = next_session(s, GameMsg::Shot(pos));
            let waited = wait_polls(next_session(shot, GameMsg::SaveAndWait), n);
            let done = next_session(waited, GameMsg::ProcessTurn(cs));
            &&& shot.remote_shots.contains_key(pos)
            &&& shot.remote_shots[pos] == HitType::Pending
            &&& done.remote_shots[pos] == HitType::Core(ledger_outcome(cs).unwrap())
            &&& done.remote_shots.dom() == shot.remote_shots.dom()
            &&& done.remote_shots.remove(pos) == shot.remote_shots.remove(pos)
        }),
{
    let shot = next_session(s, GameMsg::Shot(pos));
    let saved = next_session(shot, GameMsg::SaveAndWait);
    lemma_wait_polls_keep(saved, n);
    let done = next_session(saved, GameMsg::ProcessTurn(cs));
    assert(done.remote_shots.dom() =~= shot.remote_shots.dom());
    assert(done.remote_shots.remove(pos) =~= shot.remote_shots.remove(pos));
}

/// A shot that was accepted is not followed by another one: until the
/// opponent's move is processed a new shot is refused and changes nothing.
pub proof fn lemma_one_shot_at_a_time(s: GameSessionView, p: Position, q: Position)
    requires
        s.status == ready_status(),
        !s.remote_shots.contains_key(p),
    ensures
        ({
            let shot = next_session(s, GameMsg::Shot(p));
            &&& next_command(shot, GameMsg::Shot(q)) == CommandView::Alert("Waiting for other player!"@)
            &&& next_session(shot, GameMsg::Shot(q)) == shot
        }),
{
    lemma_shot_text_not_ready(p);
}

/// A position already shot at is not shot at again: the shot is refused and
/// changes nothing.
pub proof fn lemma_no_repeated_position(s: GameSessionView, p: Position)
    requires
        s.remote_shots.contains_key(p),
    ensures
        next_session(s, GameMsg::Shot(p)) == s,
        next_command(s, GameMsg::Shot(p)) is Alert,
{
}

/// Once a submission is saved, waiting only reads the ledger: however often
/// the poll repeats, no proof is asked for and the shot is not sent again, a
/// new shot is refused, and a ledger that still waits for the opponent leads
/// to one more poll.
pub proof fn lemma_no_double_submission(s: GameSessionView, n: nat, q: Position, cs: ContractState)
    ensures
        ({
            let w = wait_polls(next_session(s, GameMsg::SaveAndWait), n);
            &&& next_command(w, GameMsg::WaitTurn) == (CommandView::ReadLedger { name: s.name, resuming: false })
            &&& next_command(w, GameMsg::Shot(q)) == CommandView::Alert("Waiting for other player!"@)
            &&& next_session(w, GameMsg::Shot(q)) == w
            &&& w.last_shot == s.last_shot
            &&& w.remote_shots == s.remote_shots
            &&& !w.turn_processed
            &&& !my_turn(w.og_until, cs.next_turn) ==> ledger_read_next(w, false, Ok(cs))
                == Next::AfterPause(GameMsg::WaitTurn)
        }),
{
    reveal_strlit("Ready!");
    reveal_strlit("Waiting for other player.");
    assert(waiting_status()[0] != ready_status()[0]);
    let saved = next_session(s, GameMsg::SaveAndWait);
    lemma_wait_polls_keep(saved, n);
}

/// A session persisted when its turn was processed, then restored and checked
/// against a ledger that has not changed, comes back ready and exactly as it
/// was persisted, as if the process had never stopped. Where the ledger waits
/// for the opponent, the check goes on as the running process's poll would.
pub proof fn lemma_resume_idempotent(
    s: GameSessionView,
    receipt: String,
    result: RoundResult,
    shot: Position,
    cs: ContractState,
)
    ensures
        ({
            let done = next_session(s, GameMsg::UpdateState(receipt, result, shot));
            &&& next_command(s, GameMsg::UpdateState(receipt, result, shot))
                == (CommandView::Save { then_wait: false })
            &&& done.status == ready_status()
            &&& next_session(done, GameMsg::CheckTurn) == done
            &&& next_command(done, GameMsg::CheckTurn) == (CommandView::ReadLedger { name: done.name, resuming: true })
            &&& my_turn(done.og_until, cs.next_turn) ==> ledger_read_next(done, true, Ok(cs))
                == Next::Now(GameMsg::Resume) && next_session(done, GameMsg::Resume) == done
            &&& !my_turn(done.og_until, cs.next_turn) ==> ledger_read_next(done, true, Ok(cs))
                == ledger_read_next(done, false, Ok(cs))
        }),
{
}

} // verus!
