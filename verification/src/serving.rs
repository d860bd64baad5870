//! The order of events while the server runs: the pid file, giving up root, accepting, and the end.
//!
//! The caller performs what [`ServeRun::step`] tells it to do, and reports back what came of it.

use crate::config::ServerConfig;
use crate::events::reported_first_or_later;
use crate::text::optional_text;
use vstd::prelude::*;

verus! {

/// How far the server has come.
#[derive(Clone, Copy, Debug, PartialEq, Eq, Structural)]
pub enum ServeRun {
    /// Nothing has been done yet.
    New,
    /// The pid file is being written.
    WritingPid,
    /// Root is being given up.
    DroppingRoot,
    /// The accept loop of a pool is being started.
    Accepting { pool: usize },
    /// All pools accept, until a shutdown signal comes.
    Waiting,
    /// The pid file is being removed.
    RemovingPid,
    /// The server has come to its end.
    Stopped,
    /// Something failed.
    Failed { error: ServeError },
}

/// What the caller has to do next.
#[derive(Clone, Copy, Debug, PartialEq, Eq, Structural)]
pub enum ServeAction {
    /// Write the process id to the pid file.
    WritePid,
    /// Give up root.
    DropRoot,
    /// Start the accept loop of a pool.
    StartAccepting { pool: usize },
    /// Wait for a shutdown signal.
    WaitForSignal,
    /// Remove the pid file.
    RemovePid,
    /// End without an error.
    Stop,
    /// End with an error.
    Fail { error: ServeError },
}

/// What came of it.
#[derive(Clone, Copy, Debug, PartialEq, Eq, Structural)]
pub enum ServeEvent {
    Begin,
    PidWritten { success: bool },
    RootDropped { success: bool },
    AcceptStarted,
    /// The signal came, or could not be waited for.
    SignalAwaited { success: bool },
    /// The pid file was removed, or could not be.
    PidRemoved { success: bool },
}

/// What made the server end with an error.
#[derive(Clone, Copy, Debug, PartialEq, Eq, Structural)]
pub enum ServeError {
    /// The pid file could not be written.
    PidFile,
    /// Root could not be given up.
    Privileges,
    /// The shutdown signal could not be waited for.
    Signal,
}

impl ServeError {
    /// The words that go in front of the cause, where there are any.
    pub open spec fn text(self, pid_path: Seq<char>) -> Option<Seq<char>> {
        match self {
            ServeError::PidFile => Some("Failed to write PID file: "@ + pid_path),
            ServeError::Privileges => None,
            ServeError::Signal => None,
        }
    }

    /// The words that go in front of the cause; an error without any is its cause alone.
    pub fn context(self, pid_path: &str) -> (text: Option<String>)
        ensures
            optional_text(text) == self.text(pid_path@),
    {
        match self {
            ServeError::PidFile => {
                let mut text = "Failed to write PID file: ".to_owned();
                text.append(pid_path);
                Some(text)
            },
            ServeError::Privileges => None,
            ServeError::Signal => None,
        }
    }
}

/// Whether there is a pid file to write.
pub open spec fn writes_pid(config: ServerConfig) -> bool {
    config.global.pid is Some
}

/// Whether there is a user to run as: the first pool has one.
pub open spec fn drops_root(config: ServerConfig) -> bool {
    config.pools@.len() > 0 && config.pools@[0].user is Some
}

/// Going on with the accept loop of pool `i`, or with waiting where there is no such pool.
pub open spec fn accepting(config: ServerConfig, i: int) -> (ServeRun, ServeAction) {
    if i < config.pools@.len() {
        (
            ServeRun::Accepting { pool: i as usize },
            ServeAction::StartAccepting { pool: i as usize },
        )
    } else {
        (ServeRun::Waiting, ServeAction::WaitForSignal)
    }
}

/// Going on once the pid file is written.
pub open spec fn pid_settled(config: ServerConfig) -> (ServeRun, ServeAction) {
    if drops_root(config) {
        (ServeRun::DroppingRoot, ServeAction::DropRoot)
    } else {
        accepting(config, 0)
    }
}

/// The state and the action with which the server ends with an error.
pub open spec fn failure(error: ServeError) -> (ServeRun, ServeAction) {
    (ServeRun::Failed { error }, ServeAction::Fail { error })
}

impl ServeRun {
    /// The state and the action that follow an event, if the event answers what was being done.
    pub open spec fn next(self, event: ServeEvent, config: ServerConfig) -> Option<
        (ServeRun, ServeAction),
    > {
        match (self, event) {
            (ServeRun::New, ServeEvent::Begin) => Some(
                if writes_pid(config) {
                    (ServeRun::WritingPid, ServeAction::WritePid)
                } else {
                    pid_settled(config)
                },
            ),
            (ServeRun::WritingPid, ServeEvent::PidWritten { success }) => Some(
                if success {
                    pid_settled(config)
                } else {
                    failure(ServeError::PidFile)
                },
            ),
            (ServeRun::DroppingRoot, ServeEvent::RootDropped { success }) => Some(
                if success {
                    accepting(config, 0)
                } else {
                    failure(ServeError::Privileges)
                },
            ),
            (ServeRun::Accepting { pool }, ServeEvent::AcceptStarted) => Some(
                accepting(config, pool + 1),
            ),
            (ServeRun::Waiting, ServeEvent::SignalAwaited { success }) => Some(
                if !success {
                    failure(ServeError::Signal)
                } else if writes_pid(config) {
                    (ServeRun::RemovingPid, ServeAction::RemovePid)
                } else {
                    (ServeRun::Stopped, ServeAction::Stop)
                },
            ),
            (ServeRun::RemovingPid, ServeEvent::PidRemoved { .. }) => Some(
                (ServeRun::Stopped, ServeAction::Stop),
            ),
            _ => None,
        }
    }

    /// Whether the server has come to its end.
    pub open spec fn is_over(self) -> bool {
        self is Stopped || self is Failed
    }

    /// Takes an event and tells what to do next, for a server with these settings.
    pub fn step(self, event: ServeEvent, config: &ServerConfig) -> (next: Option<
        (ServeRun, ServeAction),
    >)
        ensures
            next == self.next(event, *config),
    {
        match (self, event) {
            (ServeRun::New, ServeEvent::Begin) => if config.global.pid.is_some() {
                Some((ServeRun::WritingPid, ServeAction::WritePid))
            } else {
                Some(after_pid(config))
            },
            (ServeRun::WritingPid, ServeEvent::PidWritten { success }) => if success {
                Some(after_pid(config))
            } else {
                Some(fail(ServeError::PidFile))
            },
            (ServeRun::DroppingRoot, ServeEvent::RootDropped { success }) => if success {
                Some(accept(config, 0))
            } else {
                Some(fail(ServeError::Privileges))
            },
            (ServeRun::Accepting { pool }, ServeEvent::AcceptStarted) => if pool
                < config.pools.len() {
                Some(accept(config, pool + 1))
            } else {
                Some((ServeRun::Waiting, ServeAction::WaitForSignal))
            },
            (ServeRun::Waiting, ServeEvent::SignalAwaited { success }) => if !success {
                Some(fail(ServeError::Signal))
            } else if config.global.pid.is_some() {
                Some((ServeRun::RemovingPid, ServeAction::RemovePid))
            } else {
                Some((ServeRun::Stopped, ServeAction::Stop))
            },
            (ServeRun::RemovingPid, ServeEvent::PidRemoved { .. }) => Some(
                (ServeRun::Stopped, ServeAction::Stop),
            ),
            _ => None,
        }
    }
}

fn fail(error: ServeError) -> (next: (ServeRun, ServeAction))
    ensures
        next == failure(error),
{
    (ServeRun::Failed { error }, ServeAction::Fail { error })
}

fn accept(config: &ServerConfig, pool: usize) -> (next: (ServeRun, ServeAction))
    ensures
        next == accepting(*config, pool as int),
{
    if pool < config.pools.len() {
        (ServeRun::Accepting { pool }, ServeAction::StartAccepting { pool })
    } else {
        (ServeRun::Waiting, ServeAction::WaitForSignal)
    }
}

fn after_pid(config: &ServerConfig) -> (next: (ServeRun, ServeAction))
    ensures
        next == pid_settled(*config),
{
    if config.pools.len() > 0 && config.pools[0].user.is_some() {
        (ServeRun::DroppingRoot, ServeAction::DropRoot)
    } else {
        accept(config, 0)
    }
}

/// The state after a series of events and the actions on the way, if every event was in place.
pub open spec fn run(state: ServeRun, events: Seq<ServeEvent>, config: ServerConfig) -> Option<
    (ServeRun, Seq<ServeAction>),
>
    decreases events.len(),
{
    if events.len() == 0 {
        Some((state, Seq::empty()))
    } else {
        match state.next(events[0], config) {
            Some((next, action)) => match run(next, events.drop_first(), config) {
                Some((last, actions)) => Some((last, seq![action] + actions)),
                None => None,
            },
            None => None,
        }
    }
}

/// Writing the pid file, where there is one.
pub open spec fn pid_actions(config: ServerConfig) -> Seq<ServeAction> {
    if writes_pid(config) {
        seq![ServeAction::WritePid]
    } else {
        Seq::empty()
    }
}

/// Giving up root, where there is a user to run as.
pub open spec fn root_actions(config: ServerConfig) -> Seq<ServeAction> {
    if drops_root(config) {
        seq![ServeAction::DropRoot]
    } else {
        Seq::empty()
    }
}

/// Starting the accept loops of the pools from number `from` on, each once, in order.
pub open spec fn accept_actions(config: ServerConfig, from: int) -> Seq<ServeAction> {
    Seq::new(
        (config.pools@.len() - from) as nat,
        |i: int| ServeAction::StartAccepting { pool: (from + i) as usize },
    )
}

/// From waiting for the signal to the end.
pub open spec fn closing_actions(config: ServerConfig, end: ServeRun) -> Seq<ServeAction> {
    let removed = if writes_pid(config) {
        seq![ServeAction::RemovePid]
    } else {
        Seq::empty()
    };
    if end is Stopped {
        seq![ServeAction::WaitForSignal] + removed + seq![ServeAction::Stop]
    } else {
        seq![ServeAction::WaitForSignal, ServeAction::Fail { error: ServeError::Signal }]
    }
}

/// All that a server does that comes to the given end.
pub open spec fn actions_to(config: ServerConfig, end: ServeRun) -> Seq<ServeAction> {
    if end == (ServeRun::Failed { error: ServeError::PidFile }) {
        pid_actions(config) + seq![ServeAction::Fail { error: ServeError::PidFile }]
    } else if end == (ServeRun::Failed { error: ServeError::Privileges }) {
        pid_actions(config) + root_actions(config) + seq![
            ServeAction::Fail { error: ServeError::Privileges },
        ]
    } else {
        pid_actions(config) + root_actions(config) + accept_actions(config, 0) + closing_actions(
            config,
            end,
        )
    }
}

proof fn nothing_follows_the_end(state: ServeRun, events: Seq<ServeEvent>, config: ServerConfig)
    requires
        state.is_over(),
        run(state, events, config) is Some,
    ensures
        run(state, events, config) == Some((state, Seq::<ServeAction>::empty())),
{
    if events.len() > 0 {
        assert(state.next(events[0], config) is None);
    }
}

/// From the action of starting the accept loop of pool `i`, or of waiting, to the end.
proof fn from_accepting(config: ServerConfig, i: int, events: Seq<ServeEvent>)
    requires
        0 <= i <= config.pools@.len() <= usize::MAX,
        run(accepting(config, i).0, events, config) is Some,
        run(accepting(config, i).0, events, config).unwrap().0.is_over(),
    ensures
        ({
            let (end, actions) = run(accepting(config, i).0, events, config).unwrap();
            &&& end is Stopped || end == (ServeRun::Failed { error: ServeError::Signal })
            &&& seq![accepting(config, i).1] + actions == accept_actions(config, i)
                + closing_actions(config, end)
        }),
    decreases events.len(),
{
    assert(events.len() > 0);
    let (state, action) = accepting(config, i);
    let (end, actions) = run(state, events, config).unwrap();
    let rest = events.drop_first();
    let (next, second) = state.next(events[0], config).unwrap();
    if i < config.pools@.len() {
        from_accepting(config, i + 1, rest);
        let later = run(next, rest, config).unwrap().1;
        assert(accept_actions(config, i) =~= seq![action] + accept_actions(config, i + 1));
        assert(seq![action] + actions =~= seq![action] + (seq![second] + later));
        assert(seq![action] + (accept_actions(config, i + 1) + closing_actions(config, end))
            =~= accept_actions(config, i) + closing_actions(config, end));
    } else {
        assert(accept_actions(config, i) =~= Seq::<ServeAction>::empty());
        if next.is_over() {
            nothing_follows_the_end(next, rest, config);
        } else {
            assert(rest.len() > 0);
            nothing_follows_the_end(ServeRun::Stopped, rest.drop_first(), config);
            assert(run(ServeRun::RemovingPid, rest, config).unwrap().1 =~= seq![ServeAction::Stop]);
        }
        assert(seq![action] + actions =~= accept_actions(config, i) + closing_actions(config, end));
    }
}

/// From the first action behind the pid file to the end.
proof fn from_pid_settled(config: ServerConfig, events: Seq<ServeEvent>)
    requires
        config.pools@.len() <= usize::MAX,
        run(pid_settled(config).0, events, config) is Some,
        run(pid_settled(config).0, events, config).unwrap().0.is_over(),
    ensures
        ({
            let (end, actions) = run(pid_settled(config).0, events, config).unwrap();
            &&& end != (ServeRun::Failed { error: ServeError::PidFile })
            &&& pid_actions(config) + (seq![pid_settled(config).1] + actions) == actions_to(
                config,
                end,
            )
        }),
{
    let (end, actions) = run(pid_settled(config).0, events, config).unwrap();
    if drops_root(config) {
        assert(events.len() > 0);
        let rest = events.drop_first();
        if events[0]->RootDropped_success {
            from_accepting(config, 0, rest);
            assert(actions =~= accept_actions(config, 0) + closing_actions(config, end));
        } else {
            nothing_follows_the_end(
                ServeRun::Failed { error: ServeError::Privileges },
                rest,
                config,
            );
        }
    } else {
        from_accepting(config, 0, events);
    }
    assert(pid_actions(config) + (seq![pid_settled(config).1] + actions) =~= actions_to(
        config,
        end,
    ));
}

/// A server that comes to its end went through its actions in their order.
///
/// The pid file comes first, then root is given up, then the accept loop of each pool is started
/// once, then the signal is waited for, and at last the pid file is removed. If the pid file or
/// giving up root fails, that is the end: no accept loop is started. A pid file that was written is
/// removed at an end without an error, and left in place at an end with one.
pub proof fn serving_keeps_order(config: ServerConfig, events: Seq<ServeEvent>)
    requires
        config.pools@.len() <= usize::MAX,
        run(ServeRun::New, events, config) is Some,
        run(ServeRun::New, events, config).unwrap().0.is_over(),
    ensures
        run(ServeRun::New, events, config).unwrap().1 == actions_to(
            config,
            run(ServeRun::New, events, config).unwrap().0,
        ),
{
    reveal_with_fuel(run, 2);
    assert(events.len() > 0);
    let rest = events.drop_first();
    let (end, actions) = run(ServeRun::New, events, config).unwrap();
    if writes_pid(config) {
        assert(rest.len() > 0);
        if rest[0]->PidWritten_success {
            from_pid_settled(config, rest.drop_first());
        } else {
            nothing_follows_the_end(
                ServeRun::Failed { error: ServeError::PidFile },
                rest.drop_first(),
                config,
            );
        }
    } else {
        from_pid_settled(config, rest);
    }
    assert(actions =~= actions_to(config, end));
}

/// The report that brings an error about.
pub open spec fn failed_report(error: ServeError) -> ServeEvent {
    match error {
        ServeError::PidFile => ServeEvent::PidWritten { success: false },
        ServeError::Privileges => ServeEvent::RootDropped { success: false },
        ServeError::Signal => ServeEvent::SignalAwaited { success: false },
    }
}

proof fn failure_from(
    state: ServeRun,
    config: ServerConfig,
    events: Seq<ServeEvent>,
    error: ServeError,
)
    requires
        run(state, events, config) is Some,
    ensures
        run(state, events, config).unwrap().0 == (ServeRun::Failed { error }) <==> state == (
        ServeRun::Failed { error }) || events.contains(failed_report(error)),
    decreases events.len(),
{
    if events.len() > 0 {
        reported_first_or_later(events);
        let next = state.next(events[0], config).unwrap().0;
        failure_from(next, config, events.drop_first(), error);
    }
}

/// A server ends with an error if and only if a step was reported as failed, and with the error of
/// that step. That the pid file cannot be removed is no error.
pub proof fn failed_step_is_the_error(
    config: ServerConfig,
    events: Seq<ServeEvent>,
    error: ServeError,
)
    requires
        run(ServeRun::New, events, config) is Some,
    ensures
        run(ServeRun::New, events, config).unwrap().0 == (ServeRun::Failed { error })
            <==> events.contains(failed_report(error)),
{
    failure_from(ServeRun::New, config, events, error);
}

proof fn accepting_from(
    state: ServeRun,
    config: ServerConfig,
    events: Seq<ServeEvent>,
    k: int,
)
    requires
        run(state, events, config) is Some,
        0 <= k < run(state, events, config).unwrap().1.len(),
        run(state, events, config).unwrap().1[k] is StartAccepting,
    ensures
        k < events.len(),
        drops_root(config) && (state is New || state is WritingPid || state is DroppingRoot)
            ==> events.take(k + 1).contains(ServeEvent::RootDropped { success: true }),
        writes_pid(config) && (state is New || state is WritingPid) ==> events.take(k + 1).contains(
            ServeEvent::PidWritten { success: true },
        ),
    decreases events.len(),
{
    let (next, action) = state.next(events[0], config).unwrap();
    let rest = events.drop_first();
    if k > 0 {
        let later = run(next, rest, config).unwrap().1;
        assert((seq![action] + later)[k] == later[k - 1]);
        accepting_from(next, config, rest, k - 1);
    }
    let so_far = events.take(k + 1);
    assert(so_far[0] == events[0]);
    reported_first_or_later(so_far);
    assert(so_far.drop_first() =~= rest.take(k));
}

/// No accept loop is started before the pid file is written, where there is one, and before root
/// is given up, where there is a user to run as. That holds at any time, also of a server that has
/// not come to its end.
pub proof fn root_is_dropped_before_accepting(config: ServerConfig, events: Seq<ServeEvent>, k: int)
    requires
        run(ServeRun::New, events, config) is Some,
        0 <= k < run(ServeRun::New, events, config).unwrap().1.len(),
        run(ServeRun::New, events, config).unwrap().1[k] is StartAccepting,
    ensures
        k < events.len(),
        drops_root(config) ==> events.take(k + 1).contains(
            ServeEvent::RootDropped { success: true },
        ),
        writes_pid(config) ==> events.take(k + 1).contains(
            ServeEvent::PidWritten { success: true },
        ),
{
    accepting_from(ServeRun::New, config, events, k);
}

/// An event is taken only as the answer to what is being done.
pub proof fn events_answer_what_is_done(state: ServeRun, event: ServeEvent, config: ServerConfig)
    ensures
        state.next(event, config) is Some <==> {
            ||| state is New && event is Begin
            ||| state is WritingPid && event is PidWritten
            ||| state is DroppingRoot && event is RootDropped
            ||| state is Accepting && event is AcceptStarted
            ||| state is Waiting && event is SignalAwaited
            ||| state is RemovingPid && event is PidRemoved
        },
{
}

/// The start of a server, step by step: a pid file that is named is written first, then root is
/// given up if the first pool names a user, and then the pools are taken up from the first on.
pub proof fn server_starts_step_by_step(config: ServerConfig)
    ensures
        config.global.pid is Some ==> ServeRun::New.next(ServeEvent::Begin, config) == Some(
            (ServeRun::WritingPid, ServeAction::WritePid),
        ),
        config.global.pid is None ==> ServeRun::New.next(ServeEvent::Begin, config)
            == ServeRun::WritingPid.next(ServeEvent::PidWritten { success: true }, config),
        config.pools@.len() > 0 && config.pools@[0].user is Some ==> ServeRun::WritingPid.next(
            ServeEvent::PidWritten { success: true },
            config,
        ) == Some((ServeRun::DroppingRoot, ServeAction::DropRoot)),
        config.pools@.len() == 0 || config.pools@[0].user is None ==> ServeRun::WritingPid.next(
            ServeEvent::PidWritten { success: true },
            config,
        ) == ServeRun::DroppingRoot.next(ServeEvent::RootDropped { success: true }, config),
        config.pools@.len() > 0 ==> ServeRun::DroppingRoot.next(
            ServeEvent::RootDropped { success: true },
            config,
        ) == Some((ServeRun::Accepting { pool: 0 }, ServeAction::StartAccepting { pool: 0 })),
        config.pools@.len() == 0 ==> ServeRun::DroppingRoot.next(
            ServeEvent::RootDropped { success: true },
            config,
        ) == Some((ServeRun::Waiting, ServeAction::WaitForSignal)),
        ServeRun::WritingPid.next(ServeEvent::PidWritten { success: false }, config) == Some(
            (
                ServeRun::Failed { error: ServeError::PidFile },
                ServeAction::Fail { error: ServeError::PidFile },
            ),
        ),
        ServeRun::DroppingRoot.next(ServeEvent::RootDropped { success: false }, config) == Some(
            (
                ServeRun::Failed { error: ServeError::Privileges },
                ServeAction::Fail { error: ServeError::Privileges },
            ),
        ),
{
}

/// Every pool starts to accept, one after the other, before the signal is waited for; after the
/// signal a pid file that is named is removed, whether that works or not.
pub proof fn every_pool_accepts(config: ServerConfig, pool: usize, removed: bool)
    ensures
        pool + 1 < config.pools@.len() && pool < usize::MAX ==> (ServeRun::Accepting { pool }).next(
            ServeEvent::AcceptStarted,
            config,
        ) == Some(
            (
                ServeRun::Accepting { pool: (pool + 1) as usize },
                ServeAction::StartAccepting { pool: (pool + 1) as usize },
            ),
        ),
        pool + 1 == config.pools@.len() ==> (ServeRun::Accepting { pool }).next(
            ServeEvent::AcceptStarted,
            config,
        ) == Some((ServeRun::Waiting, ServeAction::WaitForSignal)),
        config.global.pid is Some ==> ServeRun::Waiting.next(
            ServeEvent::SignalAwaited { success: true },
            config,
        ) == Some((ServeRun::RemovingPid, ServeAction::RemovePid)),
        config.global.pid is None ==> ServeRun::Waiting.next(
            ServeEvent::SignalAwaited { success: true },
            config,
        ) == Some((ServeRun::Stopped, ServeAction::Stop)),
        ServeRun::Waiting.next(ServeEvent::SignalAwaited { success: false }, config) == Some(
            (
                ServeRun::Failed { error: ServeError::Signal },
                ServeAction::Fail { error: ServeError::Signal },
            ),
        ),
        ServeRun::RemovingPid.next(ServeEvent::PidRemoved { success: removed }, config) == Some(
            (ServeRun::Stopped, ServeAction::Stop),
        ),
{
}

/// The words in front of the cause: the path of a pid file that could not be written, and none
/// otherwise.
pub proof fn messages(path: Seq<char>)
    ensures
        ServeError::PidFile.text(path) == Some("Failed to write PID file: "@ + path),
        ServeError::Privileges.text(path) is None,
        ServeError::Signal.text(path) is None,
{
}

} // verus!
