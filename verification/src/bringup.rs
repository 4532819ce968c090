//! Card bring-up protocol: the fixed handshake that moves a card from
//! power-on to ready-for-block-I/O.
//!
//! The protocol is a state machine driven by the outcome of one bus action
//! at a time. On any error or not-ready answer during the handshake the
//! whole bring-up restarts from the clock-priming phase after a fixed
//! backoff; the retry loop never gives up, by design, so that a device with
//! no card inserted simply waits for one. A failed clock-rate upgrade does
//! not abort the bring-up: it is reported to the caller, who decides whether
//! to run degraded.

use vstd::prelude::*;

verus! {

/// Bring-up state of the card handle.
#[derive(Clone, Copy, PartialEq, Eq, Structural, Debug)]
pub enum CardState {
    /// No clock has been supplied to the card yet.
    PoweredOff,
    /// Bare clock pulses are being sent at the safety rate with chip-select
    /// deasserted.
    ClockPriming,
    /// The reset command sequence is in progress.
    ResetNegotiation,
    /// The card is being polled for its not-yet-ready status.
    InitializationPolling,
    /// The clock rate is being raised to the operational rate.
    OperationalUpgrade,
    /// The card accepts block I/O.
    Ready,
    /// Terminal failure. No transition enters this state: the retry policy
    /// spins instead of giving up.
    Failed,
}

/// Outcome of the last bus action, as reported by the transport.
#[derive(Clone, Copy, PartialEq, Eq, Structural, Debug)]
pub enum BusEvent {
    /// The action completed and the card answered as hoped.
    Healthy,
    /// The card answered, but reported it is not ready yet.
    NotReady,
    /// A transport-level failure.
    Error,
}

/// The bus action the driver must perform next.
#[derive(Clone, Copy, PartialEq, Eq, Structural, Debug)]
pub enum BusOp {
    /// Send at least the minimum number of bare clock pulses at the safety
    /// rate with chip-select deasserted.
    PrimePulses,
    /// Send the reset command sequence.
    SendReset,
    /// Poll the card's initialization status once.
    PollStatus,
    /// Raise the clock to the operational rate.
    RaiseClock,
    /// Nothing left to do.
    Idle,
}

/// One instruction to the driver: wait `backoff_ms`, then perform `op`.
#[derive(Clone, Copy, PartialEq, Eq, Structural, Debug)]
pub struct Command {
    /// Delay to observe before the operation; zero on the healthy path.
    pub backoff_ms: u64,
    /// The operation to perform next.
    pub op: BusOp,
}

/// Fixed backoff between bring-up retry cycles, in milliseconds.
pub const RETRY_BACKOFF_MS: u64 = 10;

/// One transition of the bring-up protocol: from the current state and the
/// outcome of the previous action to the next state and the next command.
pub open spec fn spec_step(s: CardState, e: BusEvent) -> (CardState, Command) {
    let retry = (
        CardState::ClockPriming,
        Command { backoff_ms: RETRY_BACKOFF_MS, op: BusOp::PrimePulses },
    );
    match s {
        CardState::PoweredOff => (
            CardState::ClockPriming,
            Command { backoff_ms: 0, op: BusOp::PrimePulses },
        ),
        CardState::ClockPriming => match e {
            BusEvent::Healthy => (
                CardState::ResetNegotiation,
                Command { backoff_ms: 0, op: BusOp::SendReset },
            ),
            _ => retry,
        },
        CardState::ResetNegotiation => match e {
            BusEvent::Healthy => (
                CardState::InitializationPolling,
                Command { backoff_ms: 0, op: BusOp::PollStatus },
            ),
            _ => retry,
        },
        CardState::InitializationPolling => match e {
            BusEvent::Healthy => (
                CardState::OperationalUpgrade,
                Command { backoff_ms: 0, op: BusOp::RaiseClock },
            ),
            _ => retry,
        },
        CardState::OperationalUpgrade => (
            CardState::Ready,
            Command { backoff_ms: 0, op: BusOp::Idle },
        ),
        CardState::Ready => (CardState::Ready, Command { backoff_ms: 0, op: BusOp::Idle }),
        CardState::Failed => (CardState::Failed, Command { backoff_ms: 0, op: BusOp::Idle }),
    }
}

/// The failure state is unreachable: no transition from a live state enters
/// `Failed`. The retry policy spins until a card answers instead of giving
/// up.
pub proof fn lemma_failed_unreachable(s: CardState, e: BusEvent)
    requires
        s != CardState::Failed,
    ensures
        spec_step(s, e).0 != CardState::Failed,
{
}

/// Every command the protocol issues either follows the healthy path with no
/// delay or restarts clock priming after exactly the configured backoff.
pub proof fn lemma_backoff_is_fixed(s: CardState, e: BusEvent)
    ensures
        spec_step(s, e).1.backoff_ms == 0 || spec_step(s, e).1.backoff_ms == RETRY_BACKOFF_MS,
        spec_step(s, e).1.backoff_ms == RETRY_BACKOFF_MS ==> spec_step(s, e).0 == CardState::ClockPriming,
{
}

/// State after driving the protocol from `s` through `events`, stopping as
/// soon as the card is ready.
pub open spec fn run_state(s: CardState, events: Seq<BusEvent>) -> CardState
    decreases events.len(),
{
    if s == CardState::Ready || events.len() == 0 {
        s
    } else {
        run_state(spec_step(s, events[0]).0, events.drop_first())
    }
}

/// Number of clock-priming phases the protocol starts while driven from `s`
/// through `events` (not counting a priming phase already in progress at
/// `s`).
pub open spec fn run_primings(s: CardState, events: Seq<BusEvent>) -> nat
    decreases events.len(),
{
    if s == CardState::Ready || events.len() == 0 {
        0
    } else {
        (if spec_step(s, events[0]).1.op == BusOp::PrimePulses {
            1nat
        } else {
            0nat
        }) + run_primings(spec_step(s, events[0]).0, events.drop_first())
    }
}

/// Number of backoff delays the protocol observes while driven from `s`
/// through `events`.
pub open spec fn run_backoffs(s: CardState, events: Seq<BusEvent>) -> nat
    decreases events.len(),
{
    if s == CardState::Ready || events.len() == 0 {
        0
    } else {
        (if spec_step(s, events[0]).1.backoff_ms > 0 {
            1nat
        } else {
            0nat
        }) + run_backoffs(spec_step(s, events[0]).0, events.drop_first())
    }
}

/// Whether the clock-rate upgrade failed on the way to `Ready`. The failure
/// is surfaced, not swallowed: the caller decides whether to run at the
/// safety rate.
pub open spec fn run_upgrade_failed(s: CardState, events: Seq<BusEvent>) -> bool
    decreases events.len(),
{
    if s == CardState::Ready || events.len() == 0 {
        false
    } else {
        (s == CardState::OperationalUpgrade && events[0] == BusEvent::Error)
            || run_upgrade_failed(spec_step(s, events[0]).0, events.drop_first())
    }
}

/// Outcomes of one bring-up cycle that fails at the polling step: priming
/// and reset succeed, then the poll answers not-ready.
pub open spec fn fail_cycle_events() -> Seq<BusEvent> {
    seq![BusEvent::Healthy, BusEvent::Healthy, BusEvent::NotReady]
}

/// Outcomes of one bring-up cycle that goes all the way through: priming,
/// reset and poll succeed; `upgrade` is the outcome of the clock-rate
/// upgrade.
pub open spec fn success_tail_events(upgrade: BusEvent) -> Seq<BusEvent> {
    seq![BusEvent::Healthy, BusEvent::Healthy, BusEvent::Healthy, upgrade]
}

/// Outcomes of a bus that fails its first `m` polling attempts and then
/// succeeds.
pub open spec fn retry_events(m: nat, upgrade: BusEvent) -> Seq<BusEvent>
    decreases m,
{
    if m == 0 {
        success_tail_events(upgrade)
    } else {
        fail_cycle_events() + retry_events((m - 1) as nat, upgrade)
    }
}

/// Outcomes of a bus that errors on every action, `n` times over.
pub open spec fn all_error_events(n: nat) -> Seq<BusEvent> {
    Seq::new(n, |i: int| BusEvent::Error)
}

proof fn lemma_run_append(s: CardState, e1: Seq<BusEvent>, e2: Seq<BusEvent>)
    ensures
        run_state(s, e1 + e2) == run_state(run_state(s, e1), e2),
        run_primings(s, e1 + e2) == run_primings(s, e1) + run_primings(run_state(s, e1), e2),
        run_backoffs(s, e1 + e2) == run_backoffs(s, e1) + run_backoffs(run_state(s, e1), e2),
        run_upgrade_failed(s, e1 + e2) == (run_upgrade_failed(s, e1) || run_upgrade_failed(
            run_state(s, e1),
            e2,
        )),
    decreases e1.len(),
{
    if s == CardState::Ready {
    } else if e1.len() == 0 {
        assert(e1 + e2 =~= e2);
    } else {
        assert((e1 + e2)[0] == e1[0]);
        assert((e1 + e2).drop_first() =~= e1.drop_first() + e2);
        lemma_run_append(spec_step(s, e1[0]).0, e1.drop_first(), e2);
    }
}

proof fn lemma_success_tail(upgrade: BusEvent)
    ensures
        run_state(CardState::ClockPriming, success_tail_events(upgrade)) == CardState::Ready,
        run_primings(CardState::ClockPriming, success_tail_events(upgrade)) == 0,
        run_backoffs(CardState::ClockPriming, success_tail_events(upgrade)) == 0,
        run_upgrade_failed(CardState::ClockPriming, success_tail_events(upgrade)) == (upgrade
            == BusEvent::Error),
{
    let e0 = success_tail_events(upgrade);
    let e1 = seq![BusEvent::Healthy, BusEvent::Healthy, upgrade];
    let e2 = seq![BusEvent::Healthy, upgrade];
    let e3 = seq![upgrade];
    let e4 = Seq::<BusEvent>::empty();
    assert(e0.drop_first() =~= e1);
    assert(e1.drop_first() =~= e2);
    assert(e2.drop_first() =~= e3);
    assert(e3.drop_first() =~= e4);
    assert(run_state(CardState::ClockPriming, e0) == run_state(CardState::ResetNegotiation, e1));
    assert(run_state(CardState::ResetNegotiation, e1) == run_state(
        CardState::InitializationPolling,
        e2,
    ));
    assert(run_state(CardState::InitializationPolling, e2) == run_state(
        CardState::OperationalUpgrade,
        e3,
    ));
    assert(run_state(CardState::OperationalUpgrade, e3) == run_state(CardState::Ready, e4));
    assert(run_primings(CardState::ClockPriming, e0) == run_primings(
        CardState::ResetNegotiation,
        e1,
    ));
    assert(run_primings(CardState::ResetNegotiation, e1) == run_primings(
        CardState::InitializationPolling,
        e2,
    ));
    assert(run_primings(CardState::InitializationPolling, e2) == run_primings(
        CardState::OperationalUpgrade,
        e3,
    ));
    assert(run_primings(CardState::OperationalUpgrade, e3) == run_primings(CardState::Ready, e4));
    assert(run_backoffs(CardState::ClockPriming, e0) == run_backoffs(
        CardState::ResetNegotiation,
        e1,
    ));
    assert(run_backoffs(CardState::ResetNegotiation, e1) == run_backoffs(
        CardState::InitializationPolling,
        e2,
    ));
    assert(run_backoffs(CardState::InitializationPolling, e2) == run_backoffs(
        CardState::OperationalUpgrade,
        e3,
    ));
    assert(run_backoffs(CardState::OperationalUpgrade, e3) == run_backoffs(CardState::Ready, e4));
    assert(run_upgrade_failed(CardState::ClockPriming, e0) == run_upgrade_failed(
        CardState::ResetNegotiation,
        e1,
    ));
    assert(run_upgrade_failed(CardState::ResetNegotiation, e1) == run_upgrade_failed(
        CardState::InitializationPolling,
        e2,
    ));
    assert(run_upgrade_failed(CardState::InitializationPolling, e2) == run_upgrade_failed(
        CardState::OperationalUpgrade,
        e3,
    ));
    assert(run_upgrade_failed(CardState::OperationalUpgrade, e3) == ((upgrade == BusEvent::Error)
        || run_upgrade_failed(CardState::Ready, e4)));
}

proof fn lemma_fail_cycle_prefix(rest: Seq<BusEvent>)
    ensures
        run_state(CardState::ClockPriming, fail_cycle_events() + rest) == run_state(
            CardState::ClockPriming,
            rest,
        ),
        run_primings(CardState::ClockPriming, fail_cycle_events() + rest) == 1 + run_primings(
            CardState::ClockPriming,
            rest,
        ),
        run_backoffs(CardState::ClockPriming, fail_cycle_events() + rest) == 1 + run_backoffs(
            CardState::ClockPriming,
            rest,
        ),
        run_upgrade_failed(CardState::ClockPriming, fail_cycle_events() + rest)
            == run_upgrade_failed(CardState::ClockPriming, rest),
    decreases rest.len(),
{
    let fc = fail_cycle_events();
    let e1 = seq![BusEvent::Healthy, BusEvent::NotReady];
    let e2 = seq![BusEvent::NotReady];
    let e3 = Seq::<BusEvent>::empty();
    assert(fc.drop_first() =~= e1);
    assert(e1.drop_first() =~= e2);
    assert(e2.drop_first() =~= e3);
    assert(run_state(CardState::ClockPriming, fc) == run_state(CardState::ResetNegotiation, e1));
    assert(run_state(CardState::ResetNegotiation, e1) == run_state(
        CardState::InitializationPolling,
        e2,
    ));
    assert(run_state(CardState::InitializationPolling, e2) == run_state(
        CardState::ClockPriming,
        e3,
    ));
    assert(run_primings(CardState::ClockPriming, fc) == run_primings(
        CardState::ResetNegotiation,
        e1,
    ));
    assert(run_primings(CardState::ResetNegotiation, e1) == run_primings(
        CardState::InitializationPolling,
        e2,
    ));
    assert(run_primings(CardState::InitializationPolling, e2) == 1 + run_primings(
        CardState::ClockPriming,
        e3,
    ));
    assert(run_backoffs(CardState::ClockPriming, fc) == run_backoffs(
        CardState::ResetNegotiation,
        e1,
    ));
    assert(run_backoffs(CardState::ResetNegotiation, e1) == run_backoffs(
        CardState::InitializationPolling,
        e2,
    ));
    assert(run_backoffs(CardState::InitializationPolling, e2) == 1 + run_backoffs(
        CardState::ClockPriming,
        e3,
    ));
    assert(run_upgrade_failed(CardState::ClockPriming, fc) == run_upgrade_failed(
        CardState::ResetNegotiation,
        e1,
    ));
    assert(run_upgrade_failed(CardState::ResetNegotiation, e1) == run_upgrade_failed(
        CardState::InitializationPolling,
        e2,
    ));
    assert(run_upgrade_failed(CardState::InitializationPolling, e2) == run_upgrade_failed(
        CardState::ClockPriming,
        e3,
    ));
    assert(run_primings(CardState::ClockPriming, fc) == 1);
    assert(run_backoffs(CardState::ClockPriming, fc) == 1);
    assert(!run_upgrade_failed(CardState::ClockPriming, fc));
    lemma_run_append(CardState::ClockPriming, fc, rest);
}

/// Bounded-failure retry: a bus that fails its first `m` polling attempts
/// and then succeeds brings the card to `Ready`, starting exactly `m`
/// further clock-priming phases beyond the initial one — `m + 1` full
/// cycles in all, as `run_bring_up` reports them — with exactly one backoff
/// delay before each retried cycle, and reports a failed clock upgrade
/// exactly when the upgrade outcome was an error.
pub proof fn lemma_retry_until_ready(m: nat, upgrade: BusEvent)
    ensures
        run_state(CardState::ClockPriming, retry_events(m, upgrade)) == CardState::Ready,
        run_primings(CardState::ClockPriming, retry_events(m, upgrade)) == m,
        run_backoffs(CardState::ClockPriming, retry_events(m, upgrade)) == m,
        run_upgrade_failed(CardState::ClockPriming, retry_events(m, upgrade)) == (upgrade
            == BusEvent::Error),
    decreases m,
{
    if m == 0 {
        lemma_success_tail(upgrade);
    } else {
        lemma_retry_until_ready((m - 1) as nat, upgrade);
        lemma_fail_cycle_prefix(retry_events((m - 1) as nat, upgrade));
    }
}

/// Indefinite retry: a bus that errors on every action leaves the protocol
/// clock-priming forever, never ready, with one backoff delay per cycle —
/// each of the configured interval, by `lemma_backoff_is_fixed`.
pub proof fn lemma_spin_on_errors(n: nat)
    ensures
        run_state(CardState::ClockPriming, all_error_events(n)) == CardState::ClockPriming,
        run_primings(CardState::ClockPriming, all_error_events(n)) == n,
        run_backoffs(CardState::ClockPriming, all_error_events(n)) == n,
        !run_upgrade_failed(CardState::ClockPriming, all_error_events(n)),
    decreases n,
{
    if n == 0 {
    } else {
        assert(all_error_events(n)[0] == BusEvent::Error);
        assert(all_error_events(n).drop_first() =~= all_error_events((n - 1) as nat));
        lemma_spin_on_errors((n - 1) as nat);
    }
}

/// One transition of the bring-up protocol, as the driver executes it.
pub fn bring_up_step(s: CardState, e: BusEvent) -> (r: (CardState, Command))
    ensures
        r == spec_step(s, e),
{
    match s {
        CardState::PoweredOff => (
            CardState::ClockPriming,
            Command { backoff_ms: 0, op: BusOp::PrimePulses },
        ),
        CardState::ClockPriming => match e {
            BusEvent::Healthy => (
                CardState::ResetNegotiation,
                Command { backoff_ms: 0, op: BusOp::SendReset },
            ),
            _ => (
                CardState::ClockPriming,
                Command { backoff_ms: RETRY_BACKOFF_MS, op: BusOp::PrimePulses },
            ),
        },
        CardState::ResetNegotiation => match e {
            BusEvent::Healthy => (
                CardState::InitializationPolling,
                Command { backoff_ms: 0, op: BusOp::PollStatus },
            ),
            _ => (
                CardState::ClockPriming,
                Command { backoff_ms: RETRY_BACKOFF_MS, op: BusOp::PrimePulses },
            ),
        },
        CardState::InitializationPolling => match e {
            BusEvent::Healthy => (
                CardState::OperationalUpgrade,
                Command { backoff_ms: 0, op: BusOp::RaiseClock },
            ),
            _ => (
                CardState::ClockPriming,
                Command { backoff_ms: RETRY_BACKOFF_MS, op: BusOp::PrimePulses },
            ),
        },
        CardState::OperationalUpgrade => (
            CardState::Ready,
            Command { backoff_ms: 0, op: BusOp::Idle },
        ),
        CardState::Ready => (CardState::Ready, Command { backoff_ms: 0, op: BusOp::Idle }),
        CardState::Failed => (CardState::Failed, Command { backoff_ms: 0, op: BusOp::Idle }),
    }
}

/// First command of a fresh bring-up: prime the clock, with no delay.
pub fn bring_up_start() -> (r: (CardState, Command))
    ensures
        r.0 == CardState::ClockPriming,
        r.1.op == BusOp::PrimePulses,
        r.1.backoff_ms == 0,
{
    (CardState::ClockPriming, Command { backoff_ms: 0, op: BusOp::PrimePulses })
}

/// What one full bring-up attempt produced.
#[derive(Clone, Copy, PartialEq, Eq, Structural, Debug)]
pub struct BringUpOutcome {
    /// State the protocol stopped in: `Ready`, or the state reached when the
    /// event supply ran out.
    pub state: CardState,
    /// Clock-priming phases started, counting the initial one.
    pub primings: usize,
    /// Backoff delays observed.
    pub backoffs: usize,
    /// Whether the clock-rate upgrade reported an error on the way to
    /// `Ready`.
    pub upgrade_failed: bool,
}

/// Drive the bring-up protocol from power-on through the given sequence of
/// bus outcomes, stopping as soon as the card is ready. The outcome reports
/// where the protocol stopped, how many priming phases it started, how many
/// backoffs it observed, and whether the clock upgrade failed.
pub fn run_bring_up(events: &Vec<BusEvent>) -> (r: BringUpOutcome)
    requires
        events@.len() < usize::MAX,
    ensures
        r.state == run_state(CardState::ClockPriming, events@),
        r.primings == 1 + run_primings(CardState::ClockPriming, events@),
        r.backoffs == run_backoffs(CardState::ClockPriming, events@),
        r.upgrade_failed == run_upgrade_failed(CardState::ClockPriming, events@),
{
    let (start_state, _start_cmd) = bring_up_start();
    let mut state: CardState = start_state;
    let mut primings: usize = 1;
    let mut backoffs: usize = 0;
    let mut upgrade_failed: bool = false;
    let mut done: bool = false;
    let mut i: usize = 0;
    proof {
        assert(events@.subrange(0, events@.len() as int) =~= events@);
    }
    while i < events.len() && !done
        invariant
            i <= events@.len(),
            events@.len() < usize::MAX,
            primings >= 1,
            primings <= i + 1,
            backoffs <= i,
            done <==> state == CardState::Ready,
            run_state(CardState::ClockPriming, events@) == run_state(
                state,
                events@.subrange(i as int, events@.len() as int),
            ),
            run_primings(CardState::ClockPriming, events@) == (primings - 1)
                + run_primings(state, events@.subrange(i as int, events@.len() as int)),
            run_backoffs(CardState::ClockPriming, events@) == backoffs + run_backoffs(
                state,
                events@.subrange(i as int, events@.len() as int),
            ),
            run_upgrade_failed(CardState::ClockPriming, events@) == (upgrade_failed
                || run_upgrade_failed(state, events@.subrange(i as int, events@.len() as int))),
        decreases events@.len() - i,
    {
        let ghost rem: Seq<BusEvent> = events@.subrange(i as int, events@.len() as int);
        let e = events[i];
        proof {
            assert(rem[0] == events@[i as int]);
            assert(rem.drop_first() =~= events@.subrange(i as int + 1, events@.len() as int));
        }
        if matches!(state, CardState::OperationalUpgrade) && matches!(e, BusEvent::Error) {
            upgrade_failed = true;
        }
        let (next, cmd) = bring_up_step(state, e);
        if matches!(cmd.op, BusOp::PrimePulses) {
            primings = primings + 1;
        }
        if cmd.backoff_ms > 0 {
            backoffs = backoffs + 1;
        }
        state = next;
        done = matches!(state, CardState::Ready);
        i = i + 1;
    }
    proof {
        if !(i < events@.len()) {
            assert(events@.subrange(i as int, events@.len() as int).len() == 0);
        }
    }
    BringUpOutcome { state, primings, backoffs, upgrade_failed }
}

} // verus!
