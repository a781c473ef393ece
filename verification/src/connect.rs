//! Connection strategies: from candidate addresses to one outcome.
//!
//! A strategy does not connect. It says which address to attempt next and,
//! told how each attempt ended, what the outcome of the whole is. The
//! sequential strategy attempts one address at a time, in order, and stops
//! at the first success. The parallel strategy has every address attempted
//! at once and takes the first success that is reported.
use vstd::prelude::*;
use crate::addr::{socket_address, IpAddress, SocketAddress};

verus! {

/// Why no connection was made.
#[derive(Debug, PartialEq, Eq)]
pub enum ConnectError<E> {
    /// There was no address to attempt.
    NoAddresses,
    /// Every attempt of a parallel run failed.
    AllAttemptsFailed,
    /// Every attempt of a sequential run failed; this is the error of the last.
    LastAttemptFailed(E),
}

/// What a sequential run asks for next.
#[derive(Debug, PartialEq, Eq)]
pub enum Step<C, E> {
    /// Attempt this address and report how it ended.
    Attempt(SocketAddress),
    /// The run is over, with this outcome.
    Done(Result<C, ConnectError<E>>),
}

/// What a parallel run says to the report of one attempt.
#[derive(Debug, PartialEq, Eq)]
pub enum Race<C, E> {
    /// Other attempts are still awaited.
    Pending,
    /// The run is over, with this outcome.
    Done(Result<C, ConnectError<E>>),
    /// The run was over before; the report is dropped.
    Over,
}

/// The candidates of a sequential run and how many of them were attempted.
#[derive(Debug)]
pub struct Sequential {
    candidates: Vec<SocketAddress>,
    tried: usize,
}

/// The size of a parallel run, how many attempts failed, and whether the
/// outcome is settled.
#[derive(Debug)]
pub struct Parallel {
    total: usize,
    failed: usize,
    decided: bool,
}

/// The state of a parallel run of `total` attempts after some reports.
pub ghost struct RaceState {
    pub failed: nat,
    pub decided: bool,
}

/// The candidates that `ips` give at `port`, in the order of `ips`.
pub open spec fn candidates_of(ips: Seq<IpAddress>, port: u16) -> Seq<SocketAddress> {
    ips.map_values(|ip: IpAddress| socket_address(ip, port))
}

/// How a sequential run over `candidates` starts: how many addresses are
/// attempted then, and what is asked for.
pub open spec fn sequential_begin<C, E>(candidates: Seq<SocketAddress>) -> (nat, Step<C, E>) {
    if candidates.len() == 0 {
        (0, Step::Done(Err(ConnectError::NoAddresses)))
    } else {
        (1, Step::Attempt(candidates[0]))
    }
}

/// How a sequential run over `candidates` goes on when the last of its
/// `tried` attempts ended with `outcome`.
pub open spec fn sequential_next<C, E>(
    candidates: Seq<SocketAddress>,
    tried: nat,
    outcome: Result<C, E>,
) -> (nat, Step<C, E>) {
    match outcome {
        Ok(connection) => (tried, Step::Done(Ok(connection))),
        Err(e) => if tried < candidates.len() {
            (tried + 1, Step::Attempt(candidates[tried as int]))
        } else {
            (tried, Step::Done(Err(ConnectError::LastAttemptFailed(e))))
        },
    }
}

/// Where a sequential run over `candidates` stands after its attempts
/// ended with `outcomes`, in their order. Outcomes reported after the run
/// is over change nothing.
pub open spec fn sequential_run<C, E>(
    candidates: Seq<SocketAddress>,
    outcomes: Seq<Result<C, E>>,
) -> (nat, Step<C, E>)
    decreases outcomes.len(),
{
    if outcomes.len() == 0 {
        sequential_begin(candidates)
    } else {
        let before = sequential_run(candidates, outcomes.drop_last());
        match before.1 {
            Step::Attempt(_) => sequential_next(candidates, before.0, outcomes.last()),
            Step::Done(_) => before,
        }
    }
}

/// How a parallel run of `total` attempts starts.
pub open spec fn race_begin<C, E>(total: nat) -> (RaceState, Race<C, E>) {
    if total == 0 {
        (
            RaceState { failed: 0, decided: true },
            Race::Done(Err(ConnectError::AllAttemptsFailed)),
        )
    } else {
        (RaceState { failed: 0, decided: false }, Race::Pending)
    }
}

/// How a parallel run of `total` attempts in the state `state` takes the
/// report `outcome` of one attempt.
pub open spec fn race_next<C, E>(total: nat, state: RaceState, outcome: Result<C, E>) -> (
    RaceState,
    Race<C, E>,
) {
    if state.decided {
        (state, Race::Over)
    } else {
        match outcome {
            Ok(connection) => (
                RaceState { failed: state.failed, decided: true },
                Race::Done(Ok(connection)),
            ),
            Err(_) => if state.failed + 1 >= total {
                (
                    RaceState { failed: state.failed + 1, decided: true },
                    Race::Done(Err(ConnectError::AllAttemptsFailed)),
                )
            } else {
                (RaceState { failed: state.failed + 1, decided: false }, Race::Pending)
            },
        }
    }
}

/// Where a parallel run of `total` attempts stands after the reports
/// `outcomes`, in the order in which they came, and what it said to the
/// last of them.
pub open spec fn race_run<C, E>(total: nat, outcomes: Seq<Result<C, E>>) -> (
    RaceState,
    Race<C, E>,
)
    decreases outcomes.len(),
{
    if outcomes.len() == 0 {
        race_begin(total)
    } else {
        race_next(total, race_run::<C, E>(total, outcomes.drop_last()).0, outcomes.last())
    }
}

/// The candidates that `ips` give at `port`, in the order of `ips`.
pub fn candidates(ips: &Vec<IpAddress>, port: u16) -> (r: Vec<SocketAddress>)
    ensures
        r@ == candidates_of(ips@, port),
{
    let mut r: Vec<SocketAddress> = Vec::new();
    let mut i: usize = 0;
    while i < ips.len()
        invariant
            i <= ips.len(),
            r@ == candidates_of(ips@.take(i as int), port),
        decreases ips.len() - i,
    {
        proof {
            assert(candidates_of(ips@.take(i as int), port).push(socket_address(ips@[i as int], port))
                =~= candidates_of(ips@.take(i + 1), port));
        }
        r.push(SocketAddress::new(ips[i], port));
        i += 1;
    }
    proof {
        assert(ips@.take(i as int) =~= ips@);
    }
    r
}

impl Sequential {
    /// The addresses of the run, in the order in which they are attempted.
    pub closed spec fn candidates(&self) -> Seq<SocketAddress> {
        self.candidates@
    }

    /// How many addresses were handed out for an attempt.
    pub closed spec fn tried(&self) -> nat {
        self.tried as nat
    }

    /// Starts a run over `candidates`: asks for the first address, or
    /// ends at once where there is none.
    pub fn begin<C, E>(candidates: Vec<SocketAddress>) -> (r: (Self, Step<C, E>))
        ensures
            r.0.candidates() == candidates@,
            (r.0.tried(), r.1) == sequential_begin::<C, E>(candidates@),
    {
        if candidates.len() == 0 {
            (Sequential { candidates, tried: 0 }, Step::Done(Err(ConnectError::NoAddresses)))
        } else {
            let first = candidates[0];
            (Sequential { candidates, tried: 1 }, Step::Attempt(first))
        }
    }

    /// Takes the outcome of the attempt that was asked for last: ends
    /// with a success, asks for the next address after a failure, and
    /// ends with the failure where no address is left.
    pub fn report<C, E>(&mut self, outcome: Result<C, E>) -> (step: Step<C, E>)
        ensures
            final(self).candidates() == old(self).candidates(),
            (final(self).tried(), step) == sequential_next(
                old(self).candidates(),
                old(self).tried(),
                outcome,
            ),
    {
        match outcome {
            Ok(connection) => Step::Done(Ok(connection)),
            Err(e) => {
                if self.tried < self.candidates.len() {
                    let next = self.candidates[self.tried];
                    self.tried = self.tried + 1;
                    Step::Attempt(next)
                } else {
                    Step::Done(Err(ConnectError::LastAttemptFailed(e)))
                }
            },
        }
    }
}

impl Parallel {
    /// While the outcome is open, an attempt is still awaited.
    #[verifier::type_invariant]
    spec fn awaits_an_attempt(&self) -> bool {
        self.decided || self.failed < self.total
    }

    /// How many attempts the run has.
    pub closed spec fn total(&self) -> nat {
        self.total as nat
    }

    /// How many failures were reported, and whether the outcome is settled.
    pub closed spec fn state(&self) -> RaceState {
        RaceState { failed: self.failed as nat, decided: self.decided }
    }

    /// Starts a run of `total` attempts, all of which are made at once.
    /// A run of none is over at once: every attempt of it has failed.
    pub fn begin<C, E>(total: usize) -> (r: (Self, Race<C, E>))
        ensures
            r.0.total() == total,
            (r.0.state(), r.1) == race_begin::<C, E>(total as nat),
    {
        if total == 0 {
            (
                Parallel { total, failed: 0, decided: true },
                Race::Done(Err(ConnectError::AllAttemptsFailed)),
            )
        } else {
            (Parallel { total, failed: 0, decided: false }, Race::Pending)
        }
    }

    /// Takes the report of one attempt. The first success settles the
    /// outcome; so does the failure of the last attempt. What is
    /// reported after that is dropped.
    pub fn report<C, E>(&mut self, outcome: Result<C, E>) -> (race: Race<C, E>)
        ensures
            final(self).total() == old(self).total(),
            (final(self).state(), race) == race_next(old(self).total(), old(self).state(), outcome),
    {
        proof {
            use_type_invariant(&*self);
        }
        if self.decided {
            return Race::Over;
        }
        match outcome {
            Ok(connection) => {
                self.decided = true;
                Race::Done(Ok(connection))
            },
            Err(_) => {
                if self.failed + 1 >= self.total {
                    self.decided = true;
                    self.failed = self.failed + 1;
                    Race::Done(Err(ConnectError::AllAttemptsFailed))
                } else {
                    self.failed = self.failed + 1;
                    Race::Pending
                }
            },
        }
    }
}

/// Whether every one of `outcomes` is a failure.
pub open spec fn all_failed<C, E>(outcomes: Seq<Result<C, E>>) -> bool {
    forall|i: int| 0 <= i < outcomes.len() ==> (#[trigger] outcomes[i]) is Err
}

/// While every attempt so far has failed and addresses are left, a
/// sequential run has attempted one address more than it has outcomes and
/// asks for the next address in order.
pub proof fn lemma_sequential_goes_in_order<C, E>(
    candidates: Seq<SocketAddress>,
    outcomes: Seq<Result<C, E>>,
)
    requires
        outcomes.len() < candidates.len(),
        all_failed(outcomes),
    ensures
        sequential_run(candidates, outcomes) == (
            outcomes.len() + 1,
            Step::<C, E>::Attempt(candidates[outcomes.len() as int]),
        ),
    decreases outcomes.len(),
{
    if outcomes.len() > 0 {
        let before = outcomes.drop_last();
        assert forall|i: int| 0 <= i < before.len() implies (#[trigger] before[i]) is Err by {
            assert(outcomes[i] is Err);
        }
        lemma_sequential_goes_in_order(candidates, before);
        assert(outcomes.last() is Err);
    }
}

/// Where the attempts at the first addresses fail and the next one
/// succeeds, a sequential run makes exactly those attempts and ends with
/// that success.
pub proof fn lemma_sequential_first_success<C, E>(
    candidates: Seq<SocketAddress>,
    failures: Seq<Result<C, E>>,
    connection: C,
)
    requires
        failures.len() < candidates.len(),
        all_failed(failures),
    ensures
        sequential_run(candidates, failures.push(Ok(connection))) == (
            failures.len() + 1,
            Step::<C, E>::Done(Ok(connection)),
        ),
{
    lemma_sequential_goes_in_order(candidates, failures);
    assert(failures.push(Ok(connection)).drop_last() =~= failures);
}

/// Where every attempt fails, a sequential run attempts every address and
/// ends with the error of the last attempt.
pub proof fn lemma_sequential_last_error<C, E>(
    candidates: Seq<SocketAddress>,
    failures: Seq<Result<C, E>>,
    last: E,
)
    requires
        failures.len() + 1 == candidates.len(),
        all_failed(failures),
    ensures
        sequential_run(candidates, failures.push(Err(last))) == (
            candidates.len(),
            Step::<C, E>::Done(Err(ConnectError::LastAttemptFailed(last))),
        ),
{
    lemma_sequential_goes_in_order(candidates, failures);
    assert(failures.push(Err(last)).drop_last() =~= failures);
}

/// A sequential run over no address ends with `NoAddresses` and never
/// asks for an attempt, whatever is reported to it.
pub proof fn lemma_sequential_no_addresses<C, E>(
    candidates: Seq<SocketAddress>,
    outcomes: Seq<Result<C, E>>,
)
    requires
        candidates.len() == 0,
    ensures
        sequential_run(candidates, outcomes) == (
            0nat,
            Step::<C, E>::Done(Err(ConnectError::NoAddresses)),
        ),
    decreases outcomes.len(),
{
    if outcomes.len() > 0 {
        lemma_sequential_no_addresses(candidates, outcomes.drop_last());
    }
}

/// While every report so far is a failure and attempts are left, a
/// parallel run is open and has counted the failures.
pub proof fn lemma_race_stays_open<C, E>(total: nat, outcomes: Seq<Result<C, E>>)
    requires
        outcomes.len() < total,
        all_failed(outcomes),
    ensures
        race_run(total, outcomes) == (
            RaceState { failed: outcomes.len(), decided: false },
            Race::<C, E>::Pending,
        ),
    decreases outcomes.len(),
{
    if outcomes.len() > 0 {
        let before = outcomes.drop_last();
        assert forall|i: int| 0 <= i < before.len() implies (#[trigger] before[i]) is Err by {
            assert(outcomes[i] is Err);
        }
        lemma_race_stays_open(total, before);
        assert(outcomes.last() is Err);
    }
}

/// The first success that is reported to a parallel run is its outcome,
/// however many failures were reported before it.
pub proof fn lemma_race_first_success<C, E>(
    total: nat,
    failures: Seq<Result<C, E>>,
    connection: C,
)
    requires
        failures.len() < total,
        all_failed(failures),
    ensures
        race_run(total, failures.push(Ok(connection))).1 == Race::<C, E>::Done(Ok(connection)),
        race_run(total, failures.push(Ok(connection))).0.decided,
{
    lemma_race_stays_open(total, failures);
    assert(failures.push(Ok(connection)).drop_last() =~= failures);
}

/// Where every attempt of a parallel run fails, the report of the last
/// failure ends it with `AllAttemptsFailed`.
pub proof fn lemma_race_all_failed<C, E>(total: nat, failures: Seq<Result<C, E>>, last: E)
    requires
        failures.len() + 1 == total,
        all_failed(failures),
    ensures
        race_run(total, failures.push(Err(last))).1 == Race::<C, E>::Done(
            Err(ConnectError::AllAttemptsFailed),
        ),
        race_run(total, failures.push(Err(last))).0.decided,
{
    lemma_race_stays_open(total, failures);
    assert(failures.push(Err(last)).drop_last() =~= failures);
}

/// Once a parallel run is over, whatever is reported is dropped and
/// changes nothing.
pub proof fn lemma_race_over_stays_over<C, E>(
    total: nat,
    outcomes: Seq<Result<C, E>>,
    late: Result<C, E>,
)
    requires
        race_run(total, outcomes).0.decided,
    ensures
        race_run(total, outcomes.push(late)) == (
            race_run(total, outcomes).0,
            Race::<C, E>::Over,
        ),
{
    assert(outcomes.push(late).drop_last() =~= outcomes);
}

} // verus!
