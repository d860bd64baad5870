//! The order of events when PHP runs one request.
//!
//! The caller performs what [`RequestRun::step`] tells it to do, and reports back what came of it.

use crate::events::reported_first_or_later;
use crate::php_sapi::{Captured, RequestContext};
use crate::text::{
    has_nul, holds_nul, lossy_text, lossy_utf8, nul_is_number_zero, optional_text, push_text,
};
use vstd::prelude::*;
use vstd::utf8::{decode_utf8, encode_utf8, valid_utf8};

verus! {

/// How far a request has come.
#[derive(Clone, Copy, Debug, PartialEq, Eq, Structural)]
pub enum RequestRun {
    /// Nothing has been done yet.
    New,
    /// PHP is being set up for the thread.
    PreparingThread,
    /// PHP's record of the request is being written.
    Describing,
    /// The context is being attached to PHP's globals.
    Attaching,
    /// PHP is starting on the request.
    Starting,
    /// The path of the script is being looked up.
    Locating,
    /// The script runs.
    Running,
    /// PHP is ending the request.
    ShuttingDown,
    /// The path of the script is being freed.
    Releasing,
    /// The request is done.
    Done,
    /// PHP did not start on the request.
    Failed,
}

/// What the caller has to do next.
#[derive(Clone, Copy, Debug, PartialEq, Eq, Structural)]
pub enum RunAction {
    /// Set up PHP for this thread, once in its life.
    PrepareThread,
    /// Write PHP's record of the request.
    Describe,
    /// Attach the context to PHP's globals.
    Attach,
    /// Have PHP start on the request.
    Start,
    /// Look up the path of the script in PHP's record of the request.
    Locate,
    /// Run the script, and catch a bailout.
    RunScript,
    /// Have PHP end the request.
    Shutdown,
    /// Free the path of the script.
    ReleasePath,
    /// Take the context back and hand it out.
    Finish,
    /// Detach the context, take it back, and hand it out as a failed start.
    Abandon,
}

/// What came of it.
#[derive(Clone, Copy, Debug, PartialEq, Eq, Structural)]
pub enum RunEvent {
    /// A request came in, on a thread for which PHP is set up or not.
    Enter { thread_prepared: bool },
    /// PHP is set up for the thread.
    ThreadPrepared,
    /// PHP's record of the request is written.
    Described,
    /// The context is attached.
    Attached,
    /// PHP started on the request, or refused to.
    Started { success: bool },
    /// The path was looked up, and a script can be run from it or not.
    Located { runnable: bool },
    /// The script came to its end, or PHP bailed out of it.
    Ran { bailout: bool },
    /// PHP ended the request, and its record still has a path or not.
    ShutDown { path_present: bool },
    /// The path was freed.
    PathReleased,
}

impl RequestRun {
    /// The state and the action that follow an event, if the event answers what was being done.
    pub open spec fn next(self, event: RunEvent) -> Option<(RequestRun, RunAction)> {
        match (self, event) {
            (RequestRun::New, RunEvent::Enter { thread_prepared }) => Some(
                if thread_prepared {
                    (RequestRun::Describing, RunAction::Describe)
                } else {
                    (RequestRun::PreparingThread, RunAction::PrepareThread)
                },
            ),
            (RequestRun::PreparingThread, RunEvent::ThreadPrepared) => Some(
                (RequestRun::Describing, RunAction::Describe),
            ),
            (RequestRun::Describing, RunEvent::Described) => Some(
                (RequestRun::Attaching, RunAction::Attach),
            ),
            (RequestRun::Attaching, RunEvent::Attached) => Some(
                (RequestRun::Starting, RunAction::Start),
            ),
            (RequestRun::Starting, RunEvent::Started { success }) => Some(
                if success {
                    (RequestRun::Locating, RunAction::Locate)
                } else {
                    (RequestRun::Failed, RunAction::Abandon)
                },
            ),
            (RequestRun::Locating, RunEvent::Located { runnable }) => Some(
                if runnable {
                    (RequestRun::Running, RunAction::RunScript)
                } else {
                    (RequestRun::ShuttingDown, RunAction::Shutdown)
                },
            ),
            (RequestRun::Running, RunEvent::Ran { .. }) => Some(
                (RequestRun::ShuttingDown, RunAction::Shutdown),
            ),
            (RequestRun::ShuttingDown, RunEvent::ShutDown { path_present }) => Some(
                if path_present {
                    (RequestRun::Releasing, RunAction::ReleasePath)
                } else {
                    (RequestRun::Done, RunAction::Finish)
                },
            ),
            (RequestRun::Releasing, RunEvent::PathReleased) => Some(
                (RequestRun::Done, RunAction::Finish),
            ),
            _ => None,
        }
    }

    /// Whether the request has come to its end.
    pub open spec fn is_over(self) -> bool {
        self == RequestRun::Done || self == RequestRun::Failed
    }

    /// Takes an event and tells what to do next.
    pub fn step(self, event: RunEvent) -> (next: Option<(RequestRun, RunAction)>)
        ensures
            next == self.next(event),
    {
        match (self, event) {
            (RequestRun::New, RunEvent::Enter { thread_prepared }) => if thread_prepared {
                Some((RequestRun::Describing, RunAction::Describe))
            } else {
                Some((RequestRun::PreparingThread, RunAction::PrepareThread))
            },
            (RequestRun::PreparingThread, RunEvent::ThreadPrepared) => Some(
                (RequestRun::Describing, RunAction::Describe),
            ),
            (RequestRun::Describing, RunEvent::Described) => Some(
                (RequestRun::Attaching, RunAction::Attach),
            ),
            (RequestRun::Attaching, RunEvent::Attached) => Some(
                (RequestRun::Starting, RunAction::Start),
            ),
            (RequestRun::Starting, RunEvent::Started { success }) => if success {
                Some((RequestRun::Locating, RunAction::Locate))
            } else {
                Some((RequestRun::Failed, RunAction::Abandon))
            },
            (RequestRun::Locating, RunEvent::Located { runnable }) => if runnable {
                Some((RequestRun::Running, RunAction::RunScript))
            } else {
                Some((RequestRun::ShuttingDown, RunAction::Shutdown))
            },
            (RequestRun::Running, RunEvent::Ran { .. }) => Some(
                (RequestRun::ShuttingDown, RunAction::Shutdown),
            ),
            (RequestRun::ShuttingDown, RunEvent::ShutDown { path_present }) => if path_present {
                Some((RequestRun::Releasing, RunAction::ReleasePath))
            } else {
                Some((RequestRun::Done, RunAction::Finish))
            },
            (RequestRun::Releasing, RunEvent::PathReleased) => Some(
                (RequestRun::Done, RunAction::Finish),
            ),
            _ => None,
        }
    }
}

/// The script to run for the path in PHP's record of the request, read as text; empty for none.
pub open spec fn script_text(path: Option<Seq<u8>>) -> Seq<char> {
    match path {
        Some(bytes) => lossy_utf8(bytes),
        None => Seq::empty(),
    }
}

/// Whether a script can be run from a text: it is there, and can be a C string.
pub open spec fn is_runnable(script: Seq<char>) -> bool {
    script.len() > 0 && !holds_nul(script)
}

/// The script, if it can be run.
pub fn runnable_script(script: String) -> (runnable: Option<String>)
    ensures
        match runnable {
            Some(text) => is_runnable(script@) && text@ == script@,
            None => !is_runnable(script@),
        },
        runnable is Some <==> script@.len() > 0 && !script@.contains('\0'),
{
    proof {
        nul_is_number_zero(script@);
    }
    if !script.as_str().is_empty() && !has_nul(script.as_str()) {
        Some(script)
    } else {
        None
    }
}

/// The script to run for the path in PHP's record of the request, if there is one to run.
pub fn script_to_run(path_translated: Option<&[u8]>) -> (script: Option<String>)
    ensures
        optional_text(script) == (match path_translated {
            Some(bytes) => if is_runnable(script_text(Some(bytes@))) {
                Some(script_text(Some(bytes@)))
            } else {
                None
            },
            None => None,
        }),
        path_translated matches Some(bytes) ==> valid_utf8(bytes@) ==> optional_text(script) == (
        if is_runnable(decode_utf8(bytes@)) {
            Some(decode_utf8(bytes@))
        } else {
            None
        }),
        path_translated is None ==> script is None,
        path_translated matches Some(bytes) ==> (script is Some <==> lossy_utf8(bytes@).len() > 0
            && !lossy_utf8(bytes@).contains('\0')),
        path_translated matches Some(bytes) ==> (script matches Some(text) ==> text@ == lossy_utf8(
            bytes@,
        )),
        path_translated matches Some(bytes) ==> valid_utf8(bytes@) ==> (script is Some
            <==> decode_utf8(bytes@).len() > 0 && !decode_utf8(bytes@).contains('\0')),
{
    proof {
        if let Some(bytes) = path_translated {
            nul_is_number_zero(lossy_utf8(bytes@));
            nul_is_number_zero(decode_utf8(bytes@));
        }
    }
    let script = match path_translated {
        Some(bytes) => lossy_text(bytes),
        None => String::new(),
    };
    runnable_script(script)
}

/// The request that PHP refused to start on: an error in place of what it produced.
pub fn startup_failed(ctx: RequestContext) -> (failed: RequestContext)
    ensures
        failed == (RequestContext {
            http_status_code: 500,
            output_buffer: failed.output_buffer,
            ..ctx
        }),
        failed.captured() == (Captured {
            output: encode_utf8("PHP request startup failed"@),
            status: 500,
            ..ctx.captured()
        }),
{
    let mut output: Vec<u8> = Vec::new();
    push_text(&mut output, "PHP request startup failed");
    assert(output@ =~= encode_utf8("PHP request startup failed"@));
    RequestContext { http_status_code: 500, output_buffer: output, ..ctx }
}

/// The state after a series of events and the actions on the way, if every event was in place.
pub open spec fn run(state: RequestRun, events: Seq<RunEvent>) -> Option<
    (RequestRun, Seq<RunAction>),
>
    decreases events.len(),
{
    if events.len() == 0 {
        Some((state, Seq::empty()))
    } else {
        match state.next(events[0]) {
            Some((next, action)) => match run(next, events.drop_first()) {
                Some((last, actions)) => Some((last, seq![action] + actions)),
                None => None,
            },
            None => None,
        }
    }
}

/// The actions of a request from the look-up of its script on.
pub open spec fn actions_once_started(ran: bool, released: bool) -> Seq<RunAction> {
    let located = seq![RunAction::Locate];
    let script = if ran {
        seq![RunAction::RunScript]
    } else {
        Seq::empty()
    };
    let ended = seq![RunAction::Shutdown];
    let path = if released {
        seq![RunAction::ReleasePath]
    } else {
        Seq::empty()
    };
    located + script + ended + path + seq![RunAction::Finish]
}

/// The actions of a request up to its start.
pub open spec fn actions_to_start(prepared: bool) -> Seq<RunAction> {
    let set_up = if prepared {
        Seq::empty()
    } else {
        seq![RunAction::PrepareThread]
    };
    set_up + seq![RunAction::Describe, RunAction::Attach, RunAction::Start]
}

proof fn nothing_follows_the_end(state: RequestRun, events: Seq<RunEvent>)
    requires
        state.is_over(),
        run(state, events) is Some,
    ensures
        events.len() == 0,
        run(state, events) == Some((state, Seq::<RunAction>::empty())),
{
    if events.len() > 0 {
        assert(state.next(events[0]) is None);
    }
}

proof fn from_shutting_down(events: Seq<RunEvent>)
    requires
        run(RequestRun::ShuttingDown, events) is Some,
        run(RequestRun::ShuttingDown, events).unwrap().0.is_over(),
    ensures
        run(RequestRun::ShuttingDown, events).unwrap().0 == RequestRun::Done,
        run(RequestRun::ShuttingDown, events).unwrap().1 == (if events.contains(
            RunEvent::ShutDown { path_present: true },
        ) {
            seq![RunAction::ReleasePath, RunAction::Finish]
        } else {
            seq![RunAction::Finish]
        }),
        forall|event: RunEvent| #[trigger]
            events.contains(event) ==> event is ShutDown || event is PathReleased,
{
    assert(events.len() > 0);
    reported_first_or_later(events);
    let rest = events.drop_first();
    if events[0]->path_present {
        assert(rest.len() > 0);
        reported_first_or_later(rest);
        nothing_follows_the_end(RequestRun::Done, rest.drop_first());
        assert(run(RequestRun::Releasing, rest).unwrap().1 =~= seq![RunAction::Finish]);
        assert(run(RequestRun::ShuttingDown, events).unwrap().1 =~= seq![
            RunAction::ReleasePath,
            RunAction::Finish,
        ]);
    } else {
        nothing_follows_the_end(RequestRun::Done, rest);
        assert(run(RequestRun::ShuttingDown, events).unwrap().1 =~= seq![RunAction::Finish]);
    }
}

proof fn from_locating(events: Seq<RunEvent>)
    requires
        run(RequestRun::Locating, events) is Some,
        run(RequestRun::Locating, events).unwrap().0.is_over(),
    ensures
        run(RequestRun::Locating, events).unwrap().0 == RequestRun::Done,
        seq![RunAction::Locate] + run(RequestRun::Locating, events).unwrap().1
            == actions_once_started(
            events.contains(RunEvent::Located { runnable: true }),
            events.contains(RunEvent::ShutDown { path_present: true }),
        ),
        forall|event: RunEvent| #[trigger]
            events.contains(event) ==> event !is Enter && event !is Started,
{
    reveal_with_fuel(run, 3);
    assert(events.len() > 0);
    reported_first_or_later(events);
    let rest = events.drop_first();
    let ran = events[0]->runnable;
    if ran {
        assert(rest.len() > 0);
        reported_first_or_later(rest);
        from_shutting_down(rest.drop_first());
    } else {
        from_shutting_down(rest);
    }
    assert(seq![RunAction::Locate] + run(RequestRun::Locating, events).unwrap().1
        =~= actions_once_started(
        events.contains(RunEvent::Located { runnable: true }),
        events.contains(RunEvent::ShutDown { path_present: true }),
    ));
}

/// A request that comes to its end went through the actions in their order, and which of them
/// follows from what was reported.
///
/// PHP is set up for the thread before anything else, exactly if it was not set up yet. PHP's
/// record of the request is written and the context attached before PHP starts. A request that PHP
/// starts on is located, run once if there was a script to run and not at all otherwise,
/// shut down exactly once, its path freed after that if there still was one, and handed out last.
/// One that PHP refuses to start on is abandoned, without a script run or a shutdown.
pub proof fn run_keeps_order(events: Seq<RunEvent>)
    requires
        run(RequestRun::New, events) is Some,
        run(RequestRun::New, events).unwrap().0.is_over(),
    ensures
        run(RequestRun::New, events).unwrap().0 == RequestRun::Done <==> events.contains(
            RunEvent::Started { success: true },
        ),
        run(RequestRun::New, events).unwrap().0 == RequestRun::Failed <==> events.contains(
            RunEvent::Started { success: false },
        ),
        run(RequestRun::New, events).unwrap().1 == actions_to_start(
            events.contains(RunEvent::Enter { thread_prepared: true }),
        ) + (if events.contains(RunEvent::Started { success: true }) {
            actions_once_started(
                events.contains(RunEvent::Located { runnable: true }),
                events.contains(RunEvent::ShutDown { path_present: true }),
            )
        } else {
            seq![RunAction::Abandon]
        }),
{
    reveal_with_fuel(run, 3);
    assert(events.len() > 0);
    reported_first_or_later(events);
    let prepared = events[0]->thread_prepared;
    let rest = events.drop_first();
    let described = if prepared {
        rest
    } else {
        assert(rest.len() > 0);
        reported_first_or_later(rest);
        rest.drop_first()
    };
    assert(run(RequestRun::Describing, described) is Some);
    assert(described.len() > 0);
    reported_first_or_later(described);
    let attached = described.drop_first();
    assert(run(RequestRun::Attaching, attached) is Some);
    assert(attached.len() > 0);
    reported_first_or_later(attached);
    let from_start = attached.drop_first();
    assert(run(RequestRun::Starting, from_start) is Some);
    assert(run(RequestRun::New, events).unwrap().1 =~= actions_to_start(prepared) + run(
        RequestRun::Starting,
        from_start,
    ).unwrap().1);
    assert(from_start.len() > 0);
    reported_first_or_later(from_start);
    let once_started = from_start.drop_first();
    if from_start[0]->success {
        from_locating(once_started);
        assert(run(RequestRun::Starting, from_start).unwrap().1 =~= actions_once_started(
            once_started.contains(RunEvent::Located { runnable: true }),
            once_started.contains(RunEvent::ShutDown { path_present: true }),
        ));
    } else {
        nothing_follows_the_end(RequestRun::Failed, once_started);
        assert(run(RequestRun::Starting, from_start).unwrap().1 =~= seq![RunAction::Abandon]);
    }
}

/// A bailout of the script is recovered from: the request goes on as if the script had ended.
pub proof fn bailout_is_recovered()
    ensures
        RequestRun::Running.next(RunEvent::Ran { bailout: true }) == RequestRun::Running.next(
            RunEvent::Ran { bailout: false },
        ),
        RequestRun::Running.next(RunEvent::Ran { bailout: true }) == Some(
            (RequestRun::ShuttingDown, RunAction::Shutdown),
        ),
{
}

/// How often PHP is set up for the thread in the course of some actions.
pub open spec fn set_ups_in(actions: Seq<RunAction>) -> nat
    decreases actions.len(),
{
    if actions.len() == 0 {
        0
    } else {
        set_ups_in(actions.drop_first()) + if actions[0] == RunAction::PrepareThread {
            1nat
        } else {
            0nat
        }
    }
}

/// Whether requests came in on one thread, one after the other: each of them finds PHP set up
/// exactly if it was before the first, or one of the earlier requests has set it up.
pub open spec fn on_one_thread(prepared: bool, requests: Seq<Seq<RunEvent>>) -> bool
    decreases requests.len(),
{
    requests.len() > 0 ==> {
        &&& requests[0].len() > 0
        &&& requests[0][0] == RunEvent::Enter { thread_prepared: prepared }
        &&& run(RequestRun::New, requests[0]) is Some
        &&& on_one_thread(
            prepared || set_ups_in(run(RequestRun::New, requests[0]).unwrap().1) > 0,
            requests.drop_first(),
        )
    }
}

/// How often PHP is set up for a thread in the course of some requests.
pub open spec fn set_ups_on_thread(requests: Seq<Seq<RunEvent>>) -> nat
    decreases requests.len(),
{
    if requests.len() == 0 {
        0
    } else {
        set_ups_in(run(RequestRun::New, requests[0]).unwrap().1) + set_ups_on_thread(
            requests.drop_first(),
        )
    }
}

proof fn no_set_up_later(state: RequestRun, events: Seq<RunEvent>)
    requires
        state != RequestRun::New,
        run(state, events) is Some,
    ensures
        set_ups_in(run(state, events).unwrap().1) == 0,
    decreases events.len(),
{
    if events.len() > 0 {
        let (next, action) = state.next(events[0]).unwrap();
        let rest = run(next, events.drop_first()).unwrap().1;
        no_set_up_later(next, events.drop_first());
        assert((seq![action] + rest).drop_first() =~= rest);
    }
}

/// PHP is set up once in the life of a thread, by the first request that comes in on it; if it was
/// set up before, it is not set up again.
pub proof fn thread_is_set_up_once(prepared: bool, requests: Seq<Seq<RunEvent>>)
    requires
        on_one_thread(prepared, requests),
    ensures
        set_ups_on_thread(requests) == (if prepared || requests.len() == 0 {
            0nat
        } else {
            1nat
        }),
        !prepared && requests.len() > 0 ==> set_ups_in(
            run(RequestRun::New, requests[0]).unwrap().1,
        ) == 1,
    decreases requests.len(),
{
    if requests.len() > 0 {
        let events = requests[0];
        let (next, action) = RequestRun::New.next(events[0]).unwrap();
        let rest = run(next, events.drop_first()).unwrap().1;
        no_set_up_later(next, events.drop_first());
        assert((seq![action] + rest).drop_first() =~= rest);
        thread_is_set_up_once(true, requests.drop_first());
    }
}

/// Every path that has a character and no NUL names a script that is run, and no other path does.
pub proof fn paths_are_run(path: Seq<char>)
    ensures
        path.len() > 0 && (forall|i: int| 0 <= i < path.len() ==> (#[trigger] path[i]) as int != 0)
            ==> is_runnable(path),
        path.len() > 0 && !path.contains('\0') ==> is_runnable(path),
        path.len() == 0 ==> !is_runnable(path),
        path.contains('\0') ==> !is_runnable(path),
{
    nul_is_number_zero(path);
}

/// The script to run is the path itself, and none without a path.
pub proof fn script_is_the_path(bytes: Seq<u8>)
    ensures
        script_text(Some(bytes)) == lossy_utf8(bytes),
        script_text(None).len() == 0,
{
}

/// The start of a request: where PHP is not set up for the thread, that comes first; then PHP's
/// record is written, then the context attached, and then PHP is started.
pub proof fn request_is_described_then_started()
    ensures
        run(
            RequestRun::New,
            seq![
                RunEvent::Enter { thread_prepared: false },
                RunEvent::ThreadPrepared,
                RunEvent::Described,
                RunEvent::Attached,
            ],
        ) == Some(
            (
                RequestRun::Starting,
                seq![
                    RunAction::PrepareThread,
                    RunAction::Describe,
                    RunAction::Attach,
                    RunAction::Start,
                ],
            ),
        ),
        run(
            RequestRun::New,
            seq![
                RunEvent::Enter { thread_prepared: true },
                RunEvent::Described,
                RunEvent::Attached,
            ],
        ) == Some(
            (
                RequestRun::Starting,
                seq![RunAction::Describe, RunAction::Attach, RunAction::Start],
            ),
        ),
{
    reveal_with_fuel(run, 5);
    assert(run(
        RequestRun::New,
        seq![
            RunEvent::Enter { thread_prepared: false },
            RunEvent::ThreadPrepared,
            RunEvent::Described,
            RunEvent::Attached,
        ],
    ).unwrap().1 =~= seq![
        RunAction::PrepareThread,
        RunAction::Describe,
        RunAction::Attach,
        RunAction::Start,
    ]);
    assert(run(
        RequestRun::New,
        seq![RunEvent::Enter { thread_prepared: true }, RunEvent::Described, RunEvent::Attached],
    ).unwrap().1 =~= seq![RunAction::Describe, RunAction::Attach, RunAction::Start]);
}

/// A request that PHP does not start on is abandoned, and that is its end.
pub proof fn refused_request_is_abandoned(event: RunEvent)
    ensures
        RequestRun::Starting.next(RunEvent::Started { success: false }) == Some(
            (RequestRun::Failed, RunAction::Abandon),
        ),
        RequestRun::Failed.next(event) is None,
        RequestRun::Done.next(event) is None,
{
}

/// A request that PHP starts on: the script is looked up, and run if there is one to run; whether
/// it ended or PHP bailed out of it, PHP ends the request, the path is freed if there still is one,
/// and the request is handed out.
pub proof fn started_request_is_run_and_ended(bailout: bool)
    ensures
        run(
            RequestRun::Starting,
            seq![
                RunEvent::Started { success: true },
                RunEvent::Located { runnable: true },
                RunEvent::Ran { bailout },
                RunEvent::ShutDown { path_present: true },
                RunEvent::PathReleased,
            ],
        ) == Some(
            (
                RequestRun::Done,
                seq![
                    RunAction::Locate,
                    RunAction::RunScript,
                    RunAction::Shutdown,
                    RunAction::ReleasePath,
                    RunAction::Finish,
                ],
            ),
        ),
        run(
            RequestRun::Starting,
            seq![
                RunEvent::Started { success: true },
                RunEvent::Located { runnable: true },
                RunEvent::Ran { bailout },
                RunEvent::ShutDown { path_present: false },
            ],
        ) == Some(
            (
                RequestRun::Done,
                seq![
                    RunAction::Locate,
                    RunAction::RunScript,
                    RunAction::Shutdown,
                    RunAction::Finish,
                ],
            ),
        ),
        run(
            RequestRun::Starting,
            seq![
                RunEvent::Started { success: true },
                RunEvent::Located { runnable: false },
                RunEvent::ShutDown { path_present: true },
                RunEvent::PathReleased,
            ],
        ) == Some(
            (
                RequestRun::Done,
                seq![
                    RunAction::Locate,
                    RunAction::Shutdown,
                    RunAction::ReleasePath,
                    RunAction::Finish,
                ],
            ),
        ),
        run(
            RequestRun::Starting,
            seq![
                RunEvent::Started { success: true },
                RunEvent::Located { runnable: false },
                RunEvent::ShutDown { path_present: false },
            ],
        ) == Some(
            (RequestRun::Done, seq![RunAction::Locate, RunAction::Shutdown, RunAction::Finish]),
        ),
{
    reveal_with_fuel(run, 6);
    assert(run(
        RequestRun::Starting,
        seq![
            RunEvent::Started { success: true },
            RunEvent::Located { runnable: true },
            RunEvent::Ran { bailout },
            RunEvent::ShutDown { path_present: true },
            RunEvent::PathReleased,
        ],
    ).unwrap().1 =~= seq![
        RunAction::Locate,
        RunAction::RunScript,
        RunAction::Shutdown,
        RunAction::ReleasePath,
        RunAction::Finish,
    ]);
    assert(run(
        RequestRun::Starting,
        seq![
            RunEvent::Started { success: true },
            RunEvent::Located { runnable: true },
            RunEvent::Ran { bailout },
            RunEvent::ShutDown { path_present: false },
        ],
    ).unwrap().1 =~= seq![
        RunAction::Locate,
        RunAction::RunScript,
        RunAction::Shutdown,
        RunAction::Finish,
    ]);
    assert(run(
        RequestRun::Starting,
        seq![
            RunEvent::Started { success: true },
            RunEvent::Located { runnable: false },
            RunEvent::ShutDown { path_present: true },
            RunEvent::PathReleased,
        ],
    ).unwrap().1 =~= seq![
        RunAction::Locate,
        RunAction::Shutdown,
        RunAction::ReleasePath,
        RunAction::Finish,
    ]);
    assert(run(
        RequestRun::Starting,
        seq![
            RunEvent::Started { success: true },
            RunEvent::Located { runnable: false },
            RunEvent::ShutDown { path_present: false },
        ],
    ).unwrap().1 =~= seq![RunAction::Locate, RunAction::Shutdown, RunAction::Finish]);
}

/// An event is taken only as the answer to what is being done.
pub proof fn events_answer_what_is_done(state: RequestRun, event: RunEvent)
    ensures
        state.next(event) is Some <==> {
            ||| state is New && event is Enter
            ||| state is PreparingThread && event is ThreadPrepared
            ||| state is Describing && event is Described
            ||| state is Attaching && event is Attached
            ||| state is Starting && event is Started
            ||| state is Locating && event is Located
            ||| state is Running && event is Ran
            ||| state is ShuttingDown && event is ShutDown
            ||| state is Releasing && event is PathReleased
        },
{
}

} // verus!
