//! Bounded, best-effort retransmission.
//!
//! A broadcast is never acknowledged, so the packet is sent again and again:
//! at most `max_attempts` times, and no more once `min_successes` sends have
//! gone through.
//!
//! Sending and waiting are the caller's work. The `Dispatcher` only decides:
//! it says what to do next, and is told how each attempt went. `dispatch`
//! runs a dispatcher to its end for a caller who can send and wait in a
//! function call.

use crate::transport::Datagram;
use vstd::prelude::*;

verus! {

/// How often to try, when to stop early, and how long to wait before each
/// attempt.
#[derive(Debug, Clone, Copy, PartialEq, Eq)]
pub struct RetryPolicy {
    /// No more attempts than this are made.
    pub max_attempts: usize,
    /// Once this many attempts have succeeded, no further one is made.
    pub min_successes: usize,
    /// The pause before every attempt, the first one too, in milliseconds.
    pub delay_millis: Option<u64>,
}

/// How one attempt to send went. Why a send failed is of no interest here.
#[derive(Debug, Clone, Copy, PartialEq, Eq)]
pub enum SendOutcome {
    Sent,
    Failed,
}

/// What the caller is to do next.
#[derive(Debug, Clone, Copy, PartialEq, Eq)]
pub enum Action {
    /// Wait for `pause_millis`, if there is one, then send once and report
    /// how it went.
    Attempt { pause_millis: Option<u64> },
    /// Stop: `successes` attempts have succeeded.
    Finish { successes: usize },
}

/// The state of one dispatch, as the contracts see it.
pub struct Progress {
    pub policy: RetryPolicy,
    pub attempts: nat,
    pub successes: nat,
}

impl Progress {
    /// The state in which nothing has been tried yet.
    pub open spec fn start(policy: RetryPolicy) -> Progress {
        Progress { policy, attempts: 0, successes: 0 }
    }

    /// No further attempt is due: the attempts are used up, or enough of
    /// them have succeeded.
    pub open spec fn finished(self) -> bool {
        self.attempts >= self.policy.max_attempts || self.successes >= self.policy.min_successes
    }

    /// What the caller is to do in this state.
    pub open spec fn next_action(self) -> Action {
        if self.finished() {
            Action::Finish { successes: self.successes as usize }
        } else {
            Action::Attempt { pause_millis: self.policy.delay_millis }
        }
    }

    /// The state after one more attempt that went as `outcome` says. A
    /// finished dispatch takes no further attempt into account.
    pub open spec fn after(self, outcome: SendOutcome) -> Progress {
        if self.finished() {
            self
        } else {
            Progress {
                policy: self.policy,
                attempts: self.attempts + 1,
                successes: self.successes + if outcome is Sent {
                    1nat
                } else {
                    0nat
                },
            }
        }
    }

    /// The state after the attempts whose outcomes are `outcomes`, in order.
    pub open spec fn after_all(self, outcomes: Seq<SendOutcome>) -> Progress
        decreases outcomes.len(),
    {
        if outcomes.len() == 0 {
            self
        } else {
            self.after_all(outcomes.drop_last()).after(outcomes.last())
        }
    }

    /// What holds of every state that a dispatch can be in.
    pub open spec fn reachable(self) -> bool {
        &&& self.successes <= self.attempts <= self.policy.max_attempts
        &&& self.successes <= self.policy.min_successes
    }
}

/// How many of `outcomes` are `Sent`.
pub open spec fn sent_count(outcomes: Seq<SendOutcome>) -> nat
    decreases outcomes.len(),
{
    if outcomes.len() == 0 {
        0
    } else {
        sent_count(outcomes.drop_last()) + if outcomes.last() is Sent {
            1nat
        } else {
            0nat
        }
    }
}

/// The number that a dispatch under `policy` ends with, when attempt number
/// `i` goes as `outcomes[i]` says.
pub open spec fn dispatch_count(policy: RetryPolicy, outcomes: Seq<SendOutcome>) -> nat {
    Progress::start(policy).after_all(outcomes).successes
}

/// The smaller of two numbers.
pub open spec fn least(a: nat, b: nat) -> nat {
    if a <= b {
        a
    } else {
        b
    }
}

/// One dispatch in progress.
#[derive(Debug)]
pub struct Dispatcher {
    policy: RetryPolicy,
    attempts: usize,
    successes: usize,
}

impl View for Dispatcher {
    type V = Progress;

    closed spec fn view(&self) -> Progress {
        Progress {
            policy: self.policy,
            attempts: self.attempts as nat,
            successes: self.successes as nat,
        }
    }
}

impl Dispatcher {
    #[verifier::type_invariant]
    spec fn well_formed(self) -> bool {
        self@.reachable()
    }

    /// Begins a dispatch under `policy`.
    pub fn new(policy: RetryPolicy) -> (dispatcher: Dispatcher)
        ensures
            dispatcher@ == Progress::start(policy),
    {
        Dispatcher { policy, attempts: 0, successes: 0 }
    }

    /// What to do next: another attempt, after the policy's pause, or stop
    /// with the number of attempts that succeeded.
    pub fn next_action(&self) -> (action: Action)
        ensures
            action == self@.next_action(),
            self@.reachable(),
    {
        proof {
            use_type_invariant(self);
        }
        if self.attempts >= self.policy.max_attempts || self.successes
            >= self.policy.min_successes {
            Action::Finish { successes: self.successes }
        } else {
            Action::Attempt { pause_millis: self.policy.delay_millis }
        }
    }

    /// Takes note of how the attempt went that `next_action` asked for. Once
    /// the dispatch is finished, the state no longer changes.
    pub fn record(&mut self, outcome: SendOutcome)
        ensures
            final(self)@ == old(self)@.after(outcome),
            final(self)@.reachable(),
    {
        proof {
            use_type_invariant(&*self);
        }
        if self.attempts < self.policy.max_attempts && self.successes < self.policy.min_successes {
            self.attempts = self.attempts + 1;
            match outcome {
                SendOutcome::Sent => {
                    self.successes = self.successes + 1;
                },
                SendOutcome::Failed => {},
            }
        }
    }

    /// The number of attempts that have succeeded so far.
    pub fn successes(&self) -> (n: usize)
        ensures
            n == self@.successes,
    {
        self.successes
    }

    /// The number of attempts that have been made so far.
    pub fn attempts(&self) -> (n: usize)
        ensures
            n == self@.attempts,
    {
        self.attempts
    }
}

impl SendOutcome {
    /// The outcome that the result of a send stands for: `Sent` for `Ok`,
    /// `Failed` for any error.
    pub open spec fn of_result<T, E>(result: Result<T, E>) -> SendOutcome {
        if result is Ok {
            SendOutcome::Sent
        } else {
            SendOutcome::Failed
        }
    }

    /// The outcomes that the results of some sends stand for, in order.
    pub open spec fn of_results<T, E>(results: Seq<Result<T, E>>) -> Seq<SendOutcome> {
        results.map_values(|result: Result<T, E>| SendOutcome::of_result(result))
    }

    /// The outcome that the result of a send stands for: `Sent` for `Ok`,
    /// `Failed` for any error.
    pub fn of<T, E>(result: &Result<T, E>) -> (outcome: SendOutcome)
        ensures
            outcome == SendOutcome::of_result(*result),
    {
        match result {
            Ok(_) => SendOutcome::Sent,
            Err(_) => SendOutcome::Failed,
        }
    }
}

/// Sends `datagram` until the policy is met: calls `send` with it for each
/// attempt, and `pause` before that with the policy's delay if it has one,
/// and returns the number of attempts that succeeded.
///
/// What `send` returns is not known beforehand. So the result is stated over
/// the results that the calls of `send` gave, one after the other: it is the
/// number that a dispatch ends with on their outcomes, and the dispatch was
/// finished after them and not before. Whatever they were, the result exceeds
/// neither the attempts that the policy allows nor the successes that it
/// asks for. Where `send` cannot fail, it is the smaller of the two; where
/// `send` cannot succeed, it is zero.
pub fn dispatch<T, E, S, P>(datagram: &Datagram, policy: RetryPolicy, send: S, pause: P) -> (successes:
    usize) where S: Fn(&Datagram) -> Result<T, E>, P: Fn(u64)
    requires
        call_requires(send, (datagram,)),
        policy.delay_millis is Some ==> call_requires(pause, (policy.delay_millis->0,)),
    ensures
        exists|results: Seq<Result<T, E>>|
            {
                &&& forall|i: int|
                    0 <= i < results.len() ==> call_ensures(
                        send,
                        (datagram,),
                        #[trigger] results[i],
                    )
                &&& successes == dispatch_count(policy, SendOutcome::of_results(results))
                &&& Progress::start(policy).after_all(
                    SendOutcome::of_results(results),
                ).finished()
                &&& Progress::start(policy).after_all(SendOutcome::of_results(results)).attempts
                    == results.len()
            },
        successes <= policy.max_attempts,
        successes <= policy.min_successes,
        (forall|result: Result<T, E>| call_ensures(send, (datagram,), result) ==> result is Ok)
            ==> successes == least(policy.max_attempts as nat, policy.min_successes as nat),
        (forall|result: Result<T, E>| call_ensures(send, (datagram,), result) ==> result is Err)
            ==> successes == 0,
{
    let mut dispatcher = Dispatcher::new(policy);
    let ghost mut results: Seq<Result<T, E>> = Seq::empty();
    loop
        invariant
            call_requires(send, (datagram,)),
            policy.delay_millis is Some ==> call_requires(pause, (policy.delay_millis->0,)),
            forall|i: int|
                0 <= i < results.len() ==> call_ensures(send, (datagram,), #[trigger] results[i]),
            dispatcher@ == Progress::start(policy).after_all(SendOutcome::of_results(results)),
            dispatcher@.attempts == results.len(),
            dispatcher@.policy == policy,
        decreases policy.max_attempts - dispatcher@.attempts,
    {
        match dispatcher.next_action() {
            Action::Attempt { pause_millis } => {
                if let Some(millis) = pause_millis {
                    pause(millis);
                }
                let result = send(datagram);
                let outcome = SendOutcome::of(&result);
                proof {
                    let longer = results.push(result);
                    assert(SendOutcome::of_results(longer).drop_last() =~= SendOutcome::of_results(
                        results,
                    ));
                    results = longer;
                }
                dispatcher.record(outcome);
            },
            Action::Finish { successes } => {
                proof {
                    let outcomes = SendOutcome::of_results(results);
                    lemma_dispatch_progress(policy, outcomes);
                    lemma_sent_count(outcomes);
                    assert(outcomes.take(outcomes.len() as int) =~= outcomes);
                }
                return successes;
            },
        }
    }
}

/// No more outcomes are `Sent` than there are outcomes; all of them are
/// counted where each is `Sent`, and none where each is `Failed`.
pub proof fn lemma_sent_count(outcomes: Seq<SendOutcome>)
    ensures
        sent_count(outcomes) <= outcomes.len(),
        (forall|i: int| 0 <= i < outcomes.len() ==> outcomes[i] is Sent) ==> sent_count(outcomes)
            == outcomes.len(),
        (forall|i: int| 0 <= i < outcomes.len() ==> outcomes[i] is Failed) ==> sent_count(outcomes)
            == 0,
    decreases outcomes.len(),
{
    if outcomes.len() > 0 {
        lemma_sent_count(outcomes.drop_last());
    }
}

/// Every state that a dispatch passes through is reachable, and it has made
/// no more attempts than it was told outcomes.
pub proof fn lemma_dispatch_reachable(policy: RetryPolicy, outcomes: Seq<SendOutcome>)
    ensures
        Progress::start(policy).after_all(outcomes).reachable(),
        Progress::start(policy).after_all(outcomes).policy == policy,
        Progress::start(policy).after_all(outcomes).attempts <= outcomes.len(),
    decreases outcomes.len(),
{
    if outcomes.len() > 0 {
        lemma_dispatch_reachable(policy, outcomes.drop_last());
    }
}

/// Where a dispatch stands after any outcomes: it has counted the successes
/// among the attempts that the policy allows, up to the number that the
/// policy asks for, and as long as it has counted fewer, it has made every
/// attempt that it was told the outcome of, up to the number allowed.
pub proof fn lemma_dispatch_progress(policy: RetryPolicy, outcomes: Seq<SendOutcome>)
    ensures
        ({
            let allowed = least(outcomes.len(), policy.max_attempts as nat);
            let state = Progress::start(policy).after_all(outcomes);
            &&& state.successes == least(
                policy.min_successes as nat,
                sent_count(outcomes.take(allowed as int)),
            )
            &&& state.successes < policy.min_successes ==> state.attempts == allowed
        }),
    decreases outcomes.len(),
{
    let allowed = least(outcomes.len(), policy.max_attempts as nat);
    if outcomes.len() == 0 {
        assert(outcomes.take(0) =~= outcomes);
    } else {
        let earlier = outcomes.drop_last();
        lemma_dispatch_progress(policy, earlier);
        lemma_dispatch_reachable(policy, earlier);
        if earlier.len() >= policy.max_attempts {
            assert(outcomes.take(allowed as int) =~= earlier.take(allowed as int));
        } else {
            assert(earlier.take(earlier.len() as int) =~= earlier);
            assert(outcomes.take(allowed as int) =~= outcomes);
        }
    }
}

/// A dispatch that is told the outcome of as many attempts as the policy
/// allows is finished, and ends with the number of successes among them or
/// with the number that the policy asks for, whichever is smaller.
pub proof fn lemma_dispatch_count(policy: RetryPolicy, outcomes: Seq<SendOutcome>)
    requires
        outcomes.len() >= policy.max_attempts,
    ensures
        Progress::start(policy).after_all(outcomes).finished(),
        dispatch_count(policy, outcomes) == least(
            policy.min_successes as nat,
            sent_count(outcomes.take(policy.max_attempts as int)),
        ),
{
    lemma_dispatch_progress(policy, outcomes);
    lemma_dispatch_reachable(policy, outcomes);
}

/// A dispatch never ends with more successes than the policy allows
/// attempts, nor with more than the policy asks for, nor with more than
/// there were attempts that succeeded.
pub proof fn lemma_dispatch_bounded(policy: RetryPolicy, outcomes: Seq<SendOutcome>)
    ensures
        dispatch_count(policy, outcomes) <= policy.max_attempts,
        dispatch_count(policy, outcomes) <= policy.min_successes,
        dispatch_count(policy, outcomes) <= sent_count(outcomes),
{
    lemma_dispatch_reachable(policy, outcomes);
    lemma_dispatch_progress(policy, outcomes);
    let allowed = least(outcomes.len(), policy.max_attempts as nat);
    lemma_sent_count_prefix(outcomes, allowed as int);
}

/// A beginning of the outcomes holds no more successes than the whole.
pub proof fn lemma_sent_count_prefix(outcomes: Seq<SendOutcome>, n: int)
    requires
        0 <= n <= outcomes.len(),
    ensures
        sent_count(outcomes.take(n)) <= sent_count(outcomes),
    decreases outcomes.len(),
{
    if n == outcomes.len() {
        assert(outcomes.take(n) =~= outcomes);
    } else {
        lemma_sent_count_prefix(outcomes.drop_last(), n);
        assert(outcomes.drop_last().take(n) =~= outcomes.take(n));
    }
}

/// Where every attempt succeeds, a dispatch ends with the number of
/// successes that the policy asks for, or with the number of attempts that
/// it allows if that is smaller.
pub proof fn lemma_dispatch_all_sent(policy: RetryPolicy, outcomes: Seq<SendOutcome>)
    requires
        outcomes.len() >= policy.max_attempts,
        forall|i: int| 0 <= i < policy.max_attempts ==> outcomes[i] is Sent,
    ensures
        dispatch_count(policy, outcomes) == least(
            policy.max_attempts as nat,
            policy.min_successes as nat,
        ),
{
    lemma_dispatch_count(policy, outcomes);
    lemma_sent_count(outcomes.take(policy.max_attempts as int));
}

/// Where every attempt fails, a dispatch ends with no success, after as
/// many attempts as the policy allows unless it asks for no success at all.
pub proof fn lemma_dispatch_all_failed(policy: RetryPolicy, outcomes: Seq<SendOutcome>)
    requires
        outcomes.len() >= policy.max_attempts,
        forall|i: int| 0 <= i < policy.max_attempts ==> outcomes[i] is Failed,
    ensures
        dispatch_count(policy, outcomes) == 0,
        policy.min_successes > 0 ==> Progress::start(policy).after_all(outcomes).attempts
            == policy.max_attempts,
{
    lemma_dispatch_progress(policy, outcomes);
    lemma_sent_count(outcomes.take(policy.max_attempts as int));
}

} // verus!
