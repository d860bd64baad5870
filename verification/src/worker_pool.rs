//! A fixed number of worker threads, each with a PHP instance of its own.
//!
//! A worker performs what [`WorkerRun::step`] tells it to do, and reports back what came of it.

use crate::events::reported_first_or_later;
use crate::number::{decimal, to_decimal};
use crate::php_sapi::{Captured, RequestContext};
use vstd::prelude::*;
use vstd::utf8::encode_utf8;

verus! {

/// The most workers that a process can have: so many copies of PHP can be loaded side by side.
pub const MAX_WORKERS: usize = 16;

/// Stack of a worker thread, in bytes.
pub const WORKER_STACK_SIZE: usize = 16 * 1024 * 1024;

/// Where a worker has its PHP instance from.
#[derive(Clone, Copy, Debug, PartialEq, Eq, Structural)]
pub enum InstanceSource {
    /// The instance that the process was linked with
    Primary,
    /// A copy of PHP with globals of its own
    Isolated,
}

/// The size of a pool of workers.
pub struct WorkerPool {
    num_workers: usize,
}

impl WorkerPool {
    /// How many workers the pool has.
    pub closed spec fn size(&self) -> nat {
        self.num_workers as nat
    }

    /// There is at least one worker, and no more than a process can have.
    #[verifier::type_invariant]
    pub closed spec fn wf(&self) -> bool {
        1 <= self.num_workers <= MAX_WORKERS
    }

    /// A pool of the given size.
    pub fn new(num_workers: usize) -> (pool: WorkerPool)
        requires
            1 <= num_workers <= MAX_WORKERS,
        ensures
            pool.size() == num_workers,
            pool.wf(),
    {
        WorkerPool { num_workers }
    }

    /// How many workers the pool has.
    pub fn num_workers(&self) -> (n: usize)
        ensures
            n == self.size(),
            1 <= n <= MAX_WORKERS,
    {
        proof {
            use_type_invariant(self);
        }
        self.num_workers
    }

    /// How many requests may wait for a worker.
    pub fn queue_length(&self) -> (n: usize)
        ensures
            n == 2 * self.size(),
    {
        proof {
            use_type_invariant(self);
        }
        self.num_workers * 2
    }

    /// How many workers have an isolated PHP instance: all but the first.
    pub fn isolated_workers(&self) -> (n: usize)
        ensures
            n == self.size() - 1,
    {
        proof {
            use_type_invariant(self);
        }
        self.num_workers - 1
    }

    /// Where a worker has its PHP instance from.
    pub open spec fn source_of(id: nat) -> InstanceSource {
        if id == 0 {
            InstanceSource::Primary
        } else {
            InstanceSource::Isolated
        }
    }

    /// The name of a worker's thread.
    pub fn thread_name(id: usize) -> (name: String)
        ensures
            name@ == "php-worker-"@ + decimal(id as nat),
    {
        let mut name = "php-worker-".to_owned();
        let number = to_decimal(id as u64);
        name.append(number.as_str());
        name
    }
}

/// How far a worker has come.
#[derive(Clone, Copy, Debug, PartialEq, Eq, Structural)]
pub enum WorkerRun {
    /// The thread has just started.
    New,
    /// The PHP instance is being made.
    Opening,
    /// The lock on the queue is being taken.
    Locking,
    /// The worker waits for a request.
    Waiting,
    /// The lock on the queue is being given back, with a request in hand or without.
    Unlocking { request: bool },
    /// PHP runs a request.
    Working,
    /// The answer is on its way.
    Answering,
    /// The PHP instance is being given up.
    Closing,
    /// The thread ends.
    Stopped,
}

/// What a worker has to do next.
#[derive(Clone, Copy, Debug, PartialEq, Eq, Structural)]
pub enum WorkerAction {
    /// Get the PHP instance.
    Open { source: InstanceSource },
    /// Take the lock on the queue, which all workers share.
    LockQueue,
    /// Wait for a request.
    Receive,
    /// Give the lock back.
    UnlockQueue,
    /// Have PHP run the request, and catch a panic.
    Execute,
    /// Send the answer: what PHP produced, or an error after a panic.
    Answer { panicked: bool },
    /// Give up the PHP instance.
    Close,
    /// End the thread.
    Exit,
}

/// What came of it.
#[derive(Clone, Copy, Debug, PartialEq, Eq, Structural)]
pub enum WorkerEvent {
    /// The thread started, for the worker with this number.
    Started { id: usize },
    /// The PHP instance is there, or could not be made.
    Opened { success: bool },
    /// The worker has the lock on the queue.
    QueueLocked,
    /// A request came in.
    Received,
    /// No more requests will come.
    QueueClosed,
    /// The lock is given back.
    QueueUnlocked,
    /// PHP is done with the request, or panicked over it.
    Executed { panicked: bool },
    /// The answer was sent.
    Answered,
    /// The PHP instance is gone.
    Closed,
}

impl WorkerRun {
    /// The state and the action that follow an event, if the event answers what was being done.
    pub open spec fn next(self, event: WorkerEvent) -> Option<(WorkerRun, WorkerAction)> {
        match (self, event) {
            (WorkerRun::New, WorkerEvent::Started { id }) => Some(
                (
                    WorkerRun::Opening,
                    WorkerAction::Open { source: WorkerPool::source_of(id as nat) },
                ),
            ),
            (WorkerRun::Opening, WorkerEvent::Opened { success }) => Some(
                if success {
                    (WorkerRun::Locking, WorkerAction::LockQueue)
                } else {
                    (WorkerRun::Stopped, WorkerAction::Exit)
                },
            ),
            (WorkerRun::Locking, WorkerEvent::QueueLocked) => Some(
                (WorkerRun::Waiting, WorkerAction::Receive),
            ),
            (WorkerRun::Waiting, WorkerEvent::Received) => Some(
                (WorkerRun::Unlocking { request: true }, WorkerAction::UnlockQueue),
            ),
            (WorkerRun::Waiting, WorkerEvent::QueueClosed) => Some(
                (WorkerRun::Unlocking { request: false }, WorkerAction::UnlockQueue),
            ),
            (WorkerRun::Unlocking { request }, WorkerEvent::QueueUnlocked) => Some(
                if request {
                    (WorkerRun::Working, WorkerAction::Execute)
                } else {
                    (WorkerRun::Closing, WorkerAction::Close)
                },
            ),
            (WorkerRun::Working, WorkerEvent::Executed { panicked }) => Some(
                (WorkerRun::Answering, WorkerAction::Answer { panicked }),
            ),
            (WorkerRun::Answering, WorkerEvent::Answered) => Some(
                (WorkerRun::Locking, WorkerAction::LockQueue),
            ),
            (WorkerRun::Closing, WorkerEvent::Closed) => Some(
                (WorkerRun::Stopped, WorkerAction::Exit),
            ),
            _ => None,
        }
    }

    /// Takes an event and tells what to do next.
    pub fn step(self, event: WorkerEvent) -> (next: Option<(WorkerRun, WorkerAction)>)
        ensures
            next == self.next(event),
    {
        match (self, event) {
            (WorkerRun::New, WorkerEvent::Started { id }) => {
                let source = if id == 0 {
                    InstanceSource::Primary
                } else {
                    InstanceSource::Isolated
                };
                Some((WorkerRun::Opening, WorkerAction::Open { source }))
            },
            (WorkerRun::Opening, WorkerEvent::Opened { success }) => if success {
                Some((WorkerRun::Locking, WorkerAction::LockQueue))
            } else {
                Some((WorkerRun::Stopped, WorkerAction::Exit))
            },
            (WorkerRun::Locking, WorkerEvent::QueueLocked) => Some(
                (WorkerRun::Waiting, WorkerAction::Receive),
            ),
            (WorkerRun::Waiting, WorkerEvent::Received) => Some(
                (WorkerRun::Unlocking { request: true }, WorkerAction::UnlockQueue),
            ),
            (WorkerRun::Waiting, WorkerEvent::QueueClosed) => Some(
                (WorkerRun::Unlocking { request: false }, WorkerAction::UnlockQueue),
            ),
            (WorkerRun::Unlocking { request }, WorkerEvent::QueueUnlocked) => if request {
                Some((WorkerRun::Working, WorkerAction::Execute))
            } else {
                Some((WorkerRun::Closing, WorkerAction::Close))
            },
            (WorkerRun::Working, WorkerEvent::Executed { panicked }) => Some(
                (WorkerRun::Answering, WorkerAction::Answer { panicked }),
            ),
            (WorkerRun::Answering, WorkerEvent::Answered) => Some(
                (WorkerRun::Locking, WorkerAction::LockQueue),
            ),
            (WorkerRun::Closing, WorkerEvent::Closed) => Some(
                (WorkerRun::Stopped, WorkerAction::Exit),
            ),
            _ => None,
        }
    }
}

/// The answer that a worker sends: what PHP produced, or an error if it panicked.
pub fn worker_answer(outcome: Option<RequestContext>) -> (answer: RequestContext)
    ensures
        match outcome {
            Some(ctx) => answer == ctx,
            None => {
                &&& answer.params@ == Map::<Seq<char>, Seq<char>>::empty()
                &&& answer.post_body@ == Seq::<u8>::empty()
                &&& answer.post_read_offset == 0
                &&& answer.captured() == (Captured {
                    output: encode_utf8("Internal Server Error"@),
                    headers: Seq::empty(),
                    status: 500,
                    finished: true,
                })
            },
        },
{
    match outcome {
        Some(ctx) => ctx,
        None => {
            let answer = RequestContext::error_response(500, "Internal Server Error");
            assert(answer.captured().headers =~= Seq::empty());
            answer
        },
    }
}

/// Why a request got no answer from the pool.
#[derive(Clone, Copy, Debug, PartialEq, Eq, Structural)]
pub enum PoolError {
    /// All workers are gone.
    QueueClosed,
    /// The worker went away with the request.
    AnswerDropped,
}

impl PoolError {
    /// What to say of an error.
    pub open spec fn text(self) -> Seq<char> {
        match self {
            PoolError::QueueClosed => "Worker pool channel closed"@,
            PoolError::AnswerDropped => "Worker dropped response channel"@,
        }
    }

    /// The error in words.
    pub fn message(self) -> (message: &'static str)
        ensures
            message@ == self.text(),
    {
        match self {
            PoolError::QueueClosed => "Worker pool channel closed",
            PoolError::AnswerDropped => "Worker dropped response channel",
        }
    }
}

/// What becomes of a request that was given to the pool: whether it could be queued, and the
/// answer that came, if one did.
pub fn execute_outcome(queued: bool, answer: Option<RequestContext>) -> (outcome: Result<
    RequestContext,
    PoolError,
>)
    ensures
        match outcome {
            Ok(ctx) => queued && answer == Some(ctx),
            Err(PoolError::QueueClosed) => !queued,
            Err(PoolError::AnswerDropped) => queued && answer is None,
        },
{
    if !queued {
        return Err(PoolError::QueueClosed);
    }
    match answer {
        Some(ctx) => Ok(ctx),
        None => Err(PoolError::AnswerDropped),
    }
}

/// The state after a series of events and the actions on the way, if every event was in place.
pub open spec fn run(state: WorkerRun, events: Seq<WorkerEvent>) -> Option<
    (WorkerRun, Seq<WorkerAction>),
>
    decreases events.len(),
{
    if events.len() == 0 {
        Some((state, Seq::empty()))
    } else {
        match state.next(events[0]) {
            Some((next, action)) => match run(next, events.drop_first()) {
                Some((last, actions)) => Some((last, seq![action] + actions)),
                None => None,
            },
            None => None,
        }
    }
}

/// How many requests came in.
pub open spec fn requests_in(events: Seq<WorkerEvent>) -> nat
    decreases events.len(),
{
    if events.len() == 0 {
        0
    } else {
        requests_in(events.drop_first()) + if events[0] == WorkerEvent::Received {
            1nat
        } else {
            0nat
        }
    }
}

/// How many answers were to be sent.
pub open spec fn answers_in(actions: Seq<WorkerAction>) -> nat
    decreases actions.len(),
{
    if actions.len() == 0 {
        0
    } else {
        answers_in(actions.drop_first()) + if actions[0] is Answer {
            1nat
        } else {
            0nat
        }
    }
}

/// How many requests a worker has in hand without an answer.
pub open spec fn in_hand(state: WorkerRun) -> nat {
    if state == WorkerRun::Working || state == (WorkerRun::Unlocking { request: true }) {
        1
    } else {
        0
    }
}

/// A worker answers every request that it takes, once, whether PHP panics or not: at any time, the
/// requests taken are the answers given and the one in hand.
pub proof fn every_request_is_answered(state: WorkerRun, events: Seq<WorkerEvent>)
    requires
        run(state, events) is Some,
    ensures
        in_hand(state) + requests_in(events) == answers_in(run(state, events).unwrap().1) + in_hand(
            run(state, events).unwrap().0,
        ),
    decreases events.len(),
{
    if events.len() > 0 {
        let (next, action) = state.next(events[0]).unwrap();
        let rest = events.drop_first();
        every_request_is_answered(next, rest);
        let actions = run(next, rest).unwrap().1;
        assert((seq![action] + actions).drop_first() =~= actions);
        assert((seq![action] + actions)[0] == action);
    }
}

/// A worker outlives a panic: once the answer is sent it waits for the next request, as after a
/// request that went well.
pub proof fn worker_outlives_panic(panicked: bool)
    ensures
        run(
            WorkerRun::Working,
            seq![
                WorkerEvent::Executed { panicked },
                WorkerEvent::Answered,
                WorkerEvent::QueueLocked,
            ],
        ) == Some(
            (
                WorkerRun::Waiting,
                seq![
                    WorkerAction::Answer { panicked },
                    WorkerAction::LockQueue,
                    WorkerAction::Receive,
                ],
            ),
        ),
{
    reveal_with_fuel(run, 4);
    let events = seq![
        WorkerEvent::Executed { panicked },
        WorkerEvent::Answered,
        WorkerEvent::QueueLocked,
    ];
    assert(run(WorkerRun::Working, events).unwrap().1 =~= seq![
        WorkerAction::Answer { panicked },
        WorkerAction::LockQueue,
        WorkerAction::Receive,
    ]);
}

/// Whether a worker has the lock on the queue after some actions, given whether it had it before.
pub open spec fn lock_after(held: bool, actions: Seq<WorkerAction>) -> bool
    decreases actions.len(),
{
    if actions.len() == 0 {
        held
    } else {
        lock_after(
            match actions[0] {
                WorkerAction::LockQueue => true,
                WorkerAction::UnlockQueue => false,
                _ => held,
            },
            actions.drop_first(),
        )
    }
}

spec fn holds_lock(state: WorkerRun) -> bool {
    state == WorkerRun::Locking || state == WorkerRun::Waiting
}

proof fn lock_goes_with_state(state: WorkerRun, events: Seq<WorkerEvent>, k: int)
    requires
        run(state, events) is Some,
        0 <= k < run(state, events).unwrap().1.len(),
    ensures
        ({
            let actions = run(state, events).unwrap().1;
            let held = lock_after(holds_lock(state), actions.take(k));
            held <==> actions[k] is Receive || actions[k] is UnlockQueue
        }),
    decreases events.len(),
{
    let (next, action) = state.next(events[0]).unwrap();
    let rest = run(next, events.drop_first()).unwrap().1;
    let actions = seq![action] + rest;
    if k == 0 {
        assert(actions.take(0) =~= Seq::<WorkerAction>::empty());
    } else {
        lock_goes_with_state(next, events.drop_first(), k - 1);
        assert(actions[k] == rest[k - 1]);
        assert(actions.take(k).drop_first() =~= rest.take(k - 1));
        assert(actions.take(k)[0] == action);
    }
}

/// A worker has the lock on the queue only to receive: it takes the lock, receives, and gives the
/// lock back before anything else. While PHP runs, while an answer is sent and while an instance
/// is made or given up, the lock is free for the other workers.
pub proof fn lock_is_held_only_to_receive(events: Seq<WorkerEvent>, k: int)
    requires
        run(WorkerRun::New, events) is Some,
        0 <= k < run(WorkerRun::New, events).unwrap().1.len(),
    ensures
        ({
            let actions = run(WorkerRun::New, events).unwrap().1;
            let held = lock_after(false, actions.take(k));
            &&& held <==> actions[k] is Receive || actions[k] is UnlockQueue
            &&& actions[k] is Execute ==> !held
        }),
{
    lock_goes_with_state(WorkerRun::New, events, k);
}

spec fn is_ending(state: WorkerRun) -> bool {
    ||| state == (WorkerRun::Unlocking { request: false })
    ||| state == WorkerRun::Closing
    ||| state == WorkerRun::Stopped
}

proof fn ending_has_a_cause(state: WorkerRun, events: Seq<WorkerEvent>)
    requires
        run(state, events) is Some,
    ensures
        is_ending(run(state, events).unwrap().0) <==> is_ending(state) || events.contains(
            WorkerEvent::QueueClosed,
        ) || events.contains(WorkerEvent::Opened { success: false }),
    decreases events.len(),
{
    if events.len() > 0 {
        let next = state.next(events[0]).unwrap().0;
        let rest = events.drop_first();
        ending_has_a_cause(next, rest);
        reported_first_or_later(events);
    }
}

/// A worker that has its PHP instance ends if and only if the queue is closed: it is then on the
/// way out or gone, and at any other time it is not.
pub proof fn worker_ends_with_the_queue(events: Seq<WorkerEvent>)
    requires
        run(WorkerRun::New, events) is Some,
        !events.contains(WorkerEvent::Opened { success: false }),
    ensures
        events.contains(WorkerEvent::QueueClosed) <==> {
            let state = run(WorkerRun::New, events).unwrap().0;
            ||| state == (WorkerRun::Unlocking { request: false })
            ||| state == WorkerRun::Closing
            ||| state == WorkerRun::Stopped
        },
{
    ending_has_a_cause(WorkerRun::New, events);
}

/// One worker of a pool, the first, has the primary PHP instance; all others have isolated ones.
pub proof fn one_worker_has_the_primary(id: nat)
    ensures
        WorkerPool::source_of(id) == InstanceSource::Primary <==> id == 0,
{
}

/// An event is taken only as the answer to what is being done.
pub proof fn events_answer_what_is_done(state: WorkerRun, event: WorkerEvent)
    ensures
        state.next(event) is Some <==> {
            ||| state is New && event is Started
            ||| state is Opening && event is Opened
            ||| state is Locking && event is QueueLocked
            ||| state is Waiting && (event is Received || event is QueueClosed)
            ||| state is Unlocking && event is QueueUnlocked
            ||| state is Working && event is Executed
            ||| state is Answering && event is Answered
            ||| state is Closing && event is Closed
        },
{
}

/// A worker's start: the first worker takes the primary instance, any other opens one of its own;
/// with the instance it goes for the queue, and without it the thread ends.
pub proof fn worker_starts(id: usize)
    ensures
        WorkerRun::New.next(WorkerEvent::Started { id }) == Some(
            (
                WorkerRun::Opening,
                WorkerAction::Open {
                    source: if id == 0 {
                        InstanceSource::Primary
                    } else {
                        InstanceSource::Isolated
                    },
                },
            ),
        ),
        WorkerRun::Opening.next(WorkerEvent::Opened { success: true }) == Some(
            (WorkerRun::Locking, WorkerAction::LockQueue),
        ),
        WorkerRun::Opening.next(WorkerEvent::Opened { success: false }) == Some(
            (WorkerRun::Stopped, WorkerAction::Exit),
        ),
{
}

/// One request of a worker: it is received under the lock, run without it and answered, with word of
/// a panic if there was one; then the worker goes for the queue again.
pub proof fn worker_takes_a_request(panicked: bool)
    ensures
        run(
            WorkerRun::Locking,
            seq![
                WorkerEvent::QueueLocked,
                WorkerEvent::Received,
                WorkerEvent::QueueUnlocked,
                WorkerEvent::Executed { panicked },
                WorkerEvent::Answered,
            ],
        ) == Some(
            (
                WorkerRun::Locking,
                seq![
                    WorkerAction::Receive,
                    WorkerAction::UnlockQueue,
                    WorkerAction::Execute,
                    WorkerAction::Answer { panicked },
                    WorkerAction::LockQueue,
                ],
            ),
        ),
{
    reveal_with_fuel(run, 6);
    assert(run(
        WorkerRun::Locking,
        seq![
            WorkerEvent::QueueLocked,
            WorkerEvent::Received,
            WorkerEvent::QueueUnlocked,
            WorkerEvent::Executed { panicked },
            WorkerEvent::Answered,
        ],
    ).unwrap().1 =~= seq![
        WorkerAction::Receive,
        WorkerAction::UnlockQueue,
        WorkerAction::Execute,
        WorkerAction::Answer { panicked },
        WorkerAction::LockQueue,
    ]);
}

/// The end of a worker: on a closed queue it gives back the lock, gives up its instance and ends.
pub proof fn worker_ends()
    ensures
        run(
            WorkerRun::Locking,
            seq![
                WorkerEvent::QueueLocked,
                WorkerEvent::QueueClosed,
                WorkerEvent::QueueUnlocked,
                WorkerEvent::Closed,
            ],
        ) == Some(
            (
                WorkerRun::Stopped,
                seq![
                    WorkerAction::Receive,
                    WorkerAction::UnlockQueue,
                    WorkerAction::Close,
                    WorkerAction::Exit,
                ],
            ),
        ),
{
    reveal_with_fuel(run, 5);
    assert(run(
        WorkerRun::Locking,
        seq![
            WorkerEvent::QueueLocked,
            WorkerEvent::QueueClosed,
            WorkerEvent::QueueUnlocked,
            WorkerEvent::Closed,
        ],
    ).unwrap().1 =~= seq![
        WorkerAction::Receive,
        WorkerAction::UnlockQueue,
        WorkerAction::Close,
        WorkerAction::Exit,
    ]);
}

/// What is said of a request that got no answer.
pub proof fn messages()
    ensures
        PoolError::QueueClosed.text() == "Worker pool channel closed"@,
        PoolError::AnswerDropped.text() == "Worker dropped response channel"@,
{
}

/// A process has at most sixteen workers, each with a stack of sixteen mebibytes.
pub proof fn limits()
    ensures
        MAX_WORKERS == 16,
        WORKER_STACK_SIZE == 16777216,
{
}

} // verus!
