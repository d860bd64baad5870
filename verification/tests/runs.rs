use rust_fpm::params::Params;
use rust_fpm::php_instance::{
    runnable_script, script_to_run, startup_failed, RequestRun, RunAction, RunEvent,
};
use rust_fpm::php_sapi::RequestContext;
use rust_fpm::privileges::{
    Lookup, PrivilegeAction, PrivilegeDrop, PrivilegeError, PrivilegeEvent,
};
use rust_fpm::worker_pool::{
    execute_outcome, worker_answer, InstanceSource, PoolError, WorkerAction, WorkerEvent,
    WorkerPool, WorkerRun, MAX_WORKERS, WORKER_STACK_SIZE,
};

fn request_actions(events: &[RunEvent]) -> Option<(RequestRun, Vec<RunAction>)> {
    let mut state = RequestRun::New;
    let mut actions: Vec<RunAction> = Vec::new();
    for event in events {
        let (next, action) = state.step(*event)?;
        state = next;
        actions.push(action);
    }
    Some((state, actions))
}

fn privilege_actions(
    events: &[PrivilegeEvent],
    user: &str,
) -> Option<(PrivilegeDrop, Vec<PrivilegeAction>)> {
    let mut state = PrivilegeDrop::New;
    let mut actions: Vec<PrivilegeAction> = Vec::new();
    for event in events {
        let (next, action) = state.step(*event, user)?;
        state = next;
        actions.push(action);
    }
    Some((state, actions))
}

fn worker_actions(events: &[WorkerEvent]) -> Option<(WorkerRun, Vec<WorkerAction>)> {
    let mut state = WorkerRun::New;
    let mut actions: Vec<WorkerAction> = Vec::new();
    for event in events {
        let (next, action) = state.step(*event)?;
        state = next;
        actions.push(action);
    }
    Some((state, actions))
}

#[test]
fn request_on_a_fresh_thread() {
    let (state, actions) = request_actions(&[
        RunEvent::Enter { thread_prepared: false },
        RunEvent::ThreadPrepared,
        RunEvent::Described,
        RunEvent::Attached,
        RunEvent::Started { success: true },
        RunEvent::Located { runnable: true },
        RunEvent::Ran { bailout: false },
        RunEvent::ShutDown { path_present: true },
        RunEvent::PathReleased,
    ])
    .unwrap();
    assert_eq!(state, RequestRun::Done);
    assert_eq!(
        actions,
        vec![
            RunAction::PrepareThread,
            RunAction::Describe,
            RunAction::Attach,
            RunAction::Start,
            RunAction::Locate,
            RunAction::RunScript,
            RunAction::Shutdown,
            RunAction::ReleasePath,
            RunAction::Finish,
        ]
    );
}

#[test]
fn request_without_a_script_to_run() {
    let (state, actions) = request_actions(&[
        RunEvent::Enter { thread_prepared: true },
        RunEvent::Described,
        RunEvent::Attached,
        RunEvent::Started { success: true },
        RunEvent::Located { runnable: false },
        RunEvent::ShutDown { path_present: false },
    ])
    .unwrap();
    assert_eq!(state, RequestRun::Done);
    assert_eq!(
        actions,
        vec![
            RunAction::Describe,
            RunAction::Attach,
            RunAction::Start,
            RunAction::Locate,
            RunAction::Shutdown,
            RunAction::Finish,
        ]
    );
}

#[test]
fn actions_follow_what_was_reported() {
    for prepared in [false, true] {
        for runnable in [false, true] {
            for path_present in [false, true] {
                let mut events = vec![RunEvent::Enter { thread_prepared: prepared }];
                if !prepared {
                    events.push(RunEvent::ThreadPrepared);
                }
                events.push(RunEvent::Described);
                events.push(RunEvent::Attached);
                events.push(RunEvent::Started { success: true });
                events.push(RunEvent::Located { runnable });
                if runnable {
                    events.push(RunEvent::Ran { bailout: true });
                }
                events.push(RunEvent::ShutDown { path_present });
                if path_present {
                    events.push(RunEvent::PathReleased);
                }
                let (state, actions) = request_actions(&events).unwrap();
                assert_eq!(state, RequestRun::Done);
                assert_eq!(actions.contains(&RunAction::PrepareThread), !prepared);
                assert_eq!(actions.contains(&RunAction::RunScript), runnable);
                assert_eq!(actions.contains(&RunAction::ReleasePath), path_present);
                assert_eq!(actions.iter().filter(|a| **a == RunAction::Shutdown).count(), 1);
            }
        }
    }
}

#[test]
fn request_that_php_does_not_start_on() {
    let (state, actions) = request_actions(&[
        RunEvent::Enter { thread_prepared: true },
        RunEvent::Described,
        RunEvent::Attached,
        RunEvent::Started { success: false },
    ])
    .unwrap();
    assert_eq!(state, RequestRun::Failed);
    assert_eq!(
        actions,
        vec![RunAction::Describe, RunAction::Attach, RunAction::Start, RunAction::Abandon]
    );
    assert_eq!(RequestRun::Failed.step(RunEvent::ThreadPrepared), None);
    assert_eq!(RequestRun::Done.step(RunEvent::PathReleased), None);
    assert_eq!(RequestRun::New.step(RunEvent::Ran { bailout: false }), None);
}

#[test]
fn bailout_is_recovered() {
    assert_eq!(
        RequestRun::Running.step(RunEvent::Ran { bailout: true }),
        Some((RequestRun::ShuttingDown, RunAction::Shutdown))
    );
    assert_eq!(
        RequestRun::Running.step(RunEvent::Ran { bailout: false }),
        Some((RequestRun::ShuttingDown, RunAction::Shutdown))
    );
}

#[test]
fn scripts() {
    assert_eq!(script_to_run(None), None);
    assert_eq!(script_to_run(Some(b"")), None);
    assert_eq!(script_to_run(Some(b"/srv/index.php")), Some("/srv/index.php".to_string()));
    assert_eq!(
        script_to_run(Some(&[0x2f, 0xff, 0x61])),
        Some("/\u{fffd}a".to_string())
    );
    assert_eq!(script_to_run(Some(&[0x2f, 0x00])), None);
    assert_eq!(runnable_script("a\0".to_string()), None);
    assert_eq!(runnable_script("a".to_string()), Some("a".to_string()));
}

#[test]
fn failed_start() {
    let mut ctx = RequestContext::new(Params::new(), b"body".to_vec());
    ctx.output_buffer.push(7);
    ctx.response_headers.push("X: 1".to_string());
    let failed = startup_failed(ctx);
    assert_eq!(failed.http_status_code, 500);
    assert_eq!(failed.output_buffer, b"PHP request startup failed");
    assert_eq!(failed.response_headers, vec!["X: 1".to_string()]);
    assert_eq!(failed.post_body, b"body");
    assert!(!failed.request_finished);
}

fn good_events() -> Vec<PrivilegeEvent> {
    vec![
        PrivilegeEvent::Begin,
        PrivilegeEvent::User { lookup: Lookup::Found { id: 33 } },
        PrivilegeEvent::Group { lookup: Lookup::Found { id: 44 } },
        PrivilegeEvent::GroupsJoined { success: true },
        PrivilegeEvent::GroupChanged { success: true },
        PrivilegeEvent::UserChanged { success: true },
        PrivilegeEvent::EffectiveUser { uid: 33 },
    ]
}

#[test]
fn root_is_given_up() {
    let (state, actions) = privilege_actions(&good_events(), "www-data").unwrap();
    assert_eq!(state, PrivilegeDrop::Dropped);
    assert_eq!(
        actions,
        vec![
            PrivilegeAction::FindUser,
            PrivilegeAction::FindGroup,
            PrivilegeAction::InitGroups { gid: 44 },
            PrivilegeAction::SetGid { gid: 44 },
            PrivilegeAction::SetUid { uid: 33 },
            PrivilegeAction::ReadEffectiveUser,
            PrivilegeAction::Succeed,
        ]
    );
}

#[test]
fn each_failure_has_its_error() {
    let failures = [
        (1, PrivilegeEvent::User { lookup: Lookup::Failed }, PrivilegeError::UserLookup),
        (1, PrivilegeEvent::User { lookup: Lookup::Missing }, PrivilegeError::UserMissing),
        (2, PrivilegeEvent::Group { lookup: Lookup::Failed }, PrivilegeError::GroupLookup),
        (2, PrivilegeEvent::Group { lookup: Lookup::Missing }, PrivilegeError::GroupMissing),
        (3, PrivilegeEvent::GroupsJoined { success: false }, PrivilegeError::InitGroups),
        (4, PrivilegeEvent::GroupChanged { success: false }, PrivilegeError::SetGid),
        (5, PrivilegeEvent::UserChanged { success: false }, PrivilegeError::SetUid),
        (6, PrivilegeEvent::EffectiveUser { uid: 0 }, PrivilegeError::StillRoot),
    ];
    for (place, event, error) in failures {
        let mut events = good_events();
        events.truncate(place);
        events.push(event);
        let (state, actions) = privilege_actions(&events, "www-data").unwrap();
        assert_eq!(state, PrivilegeDrop::Refused { error });
        assert_eq!(actions.last(), Some(&PrivilegeAction::Fail { error }));
        assert_eq!(state.step(PrivilegeEvent::Begin, "www-data"), None);
    }
}

#[test]
fn user_with_a_nul() {
    let mut events = good_events();
    events.truncate(3);
    let (state, _) = privilege_actions(&events, "ww\0w").unwrap();
    assert_eq!(state, PrivilegeDrop::Refused { error: PrivilegeError::InvalidUsername });
}

#[test]
fn privilege_messages() {
    let messages = [
        (PrivilegeError::UserLookup, "Failed to look up user 'u'"),
        (PrivilegeError::UserMissing, "User 'u' not found"),
        (PrivilegeError::GroupLookup, "Failed to look up group 'g'"),
        (PrivilegeError::GroupMissing, "Group 'g' not found"),
        (PrivilegeError::InvalidUsername, "Invalid username"),
        (PrivilegeError::InitGroups, "initgroups failed"),
        (PrivilegeError::SetGid, "setgid failed"),
        (PrivilegeError::SetUid, "setuid failed"),
        (
            PrivilegeError::StillRoot,
            "Failed to drop root privileges \u{2014} still running as root",
        ),
    ];
    for (error, message) in messages {
        assert_eq!(error.message("u", "g"), message);
    }
}

#[test]
fn pool_sizes() {
    let pool = WorkerPool::new(4);
    assert_eq!(pool.num_workers(), 4);
    assert_eq!(pool.queue_length(), 8);
    assert_eq!(pool.isolated_workers(), 3);
    assert_eq!(MAX_WORKERS, 16);
    assert_eq!(WORKER_STACK_SIZE, 16 * 1024 * 1024);
    assert_eq!(WorkerPool::new(1).isolated_workers(), 0);
    assert_eq!(WorkerPool::thread_name(0), "php-worker-0");
    assert_eq!(WorkerPool::thread_name(15), "php-worker-15");
}

#[test]
fn first_worker_has_the_primary_instance() {
    for id in 0..16 {
        let source = if id == 0 { InstanceSource::Primary } else { InstanceSource::Isolated };
        assert_eq!(
            WorkerRun::New.step(WorkerEvent::Started { id }),
            Some((WorkerRun::Opening, WorkerAction::Open { source }))
        );
    }
}

#[test]
fn worker_answers_each_request() {
    let (state, actions) = worker_actions(&[
        WorkerEvent::Started { id: 1 },
        WorkerEvent::Opened { success: true },
        WorkerEvent::QueueLocked,
        WorkerEvent::Received,
        WorkerEvent::QueueUnlocked,
        WorkerEvent::Executed { panicked: false },
        WorkerEvent::Answered,
        WorkerEvent::QueueLocked,
        WorkerEvent::Received,
        WorkerEvent::QueueUnlocked,
        WorkerEvent::Executed { panicked: true },
        WorkerEvent::Answered,
        WorkerEvent::QueueLocked,
        WorkerEvent::QueueClosed,
        WorkerEvent::QueueUnlocked,
        WorkerEvent::Closed,
    ])
    .unwrap();
    assert_eq!(state, WorkerRun::Stopped);
    assert_eq!(
        actions,
        vec![
            WorkerAction::Open { source: InstanceSource::Isolated },
            WorkerAction::LockQueue,
            WorkerAction::Receive,
            WorkerAction::UnlockQueue,
            WorkerAction::Execute,
            WorkerAction::Answer { panicked: false },
            WorkerAction::LockQueue,
            WorkerAction::Receive,
            WorkerAction::UnlockQueue,
            WorkerAction::Execute,
            WorkerAction::Answer { panicked: true },
            WorkerAction::LockQueue,
            WorkerAction::Receive,
            WorkerAction::UnlockQueue,
            WorkerAction::Close,
            WorkerAction::Exit,
        ]
    );
}

#[test]
fn lock_is_free_while_php_runs() {
    let mut state = WorkerRun::New;
    let mut event = WorkerEvent::Started { id: 3 };
    let mut locked = false;
    let mut executed: usize = 0;
    loop {
        let (next, action) = state.step(event).unwrap();
        state = next;
        event = match action {
            WorkerAction::Open { .. } => WorkerEvent::Opened { success: true },
            WorkerAction::LockQueue => {
                assert!(!locked);
                locked = true;
                WorkerEvent::QueueLocked
            }
            WorkerAction::Receive => {
                assert!(locked);
                if executed < 3 { WorkerEvent::Received } else { WorkerEvent::QueueClosed }
            }
            WorkerAction::UnlockQueue => {
                assert!(locked);
                locked = false;
                WorkerEvent::QueueUnlocked
            }
            WorkerAction::Execute => {
                assert!(!locked);
                executed += 1;
                WorkerEvent::Executed { panicked: executed == 2 }
            }
            WorkerAction::Answer { panicked } => {
                assert!(!locked);
                assert_eq!(panicked, executed == 2);
                WorkerEvent::Answered
            }
            WorkerAction::Close => WorkerEvent::Closed,
            WorkerAction::Exit => {
                assert!(!locked);
                break;
            }
        };
    }
    assert_eq!(executed, 3);
    assert_eq!(state, WorkerRun::Stopped);
}

#[test]
fn thread_is_set_up_once() {
    let mut prepared = false;
    let mut set_ups: usize = 0;
    for success in [false, true, true] {
        let mut events = vec![RunEvent::Enter { thread_prepared: prepared }];
        if !prepared {
            events.push(RunEvent::ThreadPrepared);
        }
        events.push(RunEvent::Described);
        events.push(RunEvent::Attached);
        events.push(RunEvent::Started { success });
        let (_, actions) = request_actions(&events).unwrap();
        set_ups += actions.iter().filter(|a| **a == RunAction::PrepareThread).count();
        prepared = prepared || actions.contains(&RunAction::PrepareThread);
    }
    assert_eq!(set_ups, 1);
}

#[test]
fn worker_without_an_instance() {
    let (state, actions) = worker_actions(&[
        WorkerEvent::Started { id: 2 },
        WorkerEvent::Opened { success: false },
    ])
    .unwrap();
    assert_eq!(state, WorkerRun::Stopped);
    assert_eq!(actions.last(), Some(&WorkerAction::Exit));
    assert_eq!(WorkerRun::Stopped.step(WorkerEvent::Received), None);
    assert_eq!(WorkerRun::Working.step(WorkerEvent::Received), None);
}

#[test]
fn worker_answers() {
    let mut ctx = RequestContext::new(Params::new(), Vec::new());
    ctx.http_status_code = 201;
    assert_eq!(worker_answer(Some(ctx)).http_status_code, 201);
    let error = worker_answer(None);
    assert_eq!(error.http_status_code, 500);
    assert_eq!(error.output_buffer, b"Internal Server Error");
    assert!(error.request_finished);
}

#[test]
fn pool_outcomes() {
    let ctx = RequestContext::error_response(202, "x");
    let outcome = execute_outcome(true, Some(ctx));
    assert_eq!(outcome.ok().map(|ctx| ctx.http_status_code), Some(202));
    assert_eq!(execute_outcome(true, None).err(), Some(PoolError::AnswerDropped));
    assert_eq!(execute_outcome(false, None).err(), Some(PoolError::QueueClosed));
    let ctx = RequestContext::error_response(202, "x");
    assert_eq!(execute_outcome(false, Some(ctx)).err(), Some(PoolError::QueueClosed));
    assert_eq!(PoolError::QueueClosed.message(), "Worker pool channel closed");
    assert_eq!(PoolError::AnswerDropped.message(), "Worker dropped response channel");
}
