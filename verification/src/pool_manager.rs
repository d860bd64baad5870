//! Starting the pools: the number of workers, the pid file, the socket's permissions, and whom to
//! run as.
//!
//! To set up a socket, the caller performs what [`SocketSetup::step`] tells it to do, and reports
//! back what came of it.

use crate::config::{PoolConfig, ServerConfig};
use crate::events::reported_first_or_later;
use crate::number::{
    all_leading_zeros_go, decimal, digits_value, is_digit, other_texts_are_no_numbers, parse_octal,
    rows_of_digits_are_numbers, to_decimal, unsigned_number, within, without_leading_zeros,
};
use crate::privileges::Lookup;
use crate::text::optional_text;
use vstd::prelude::*;

verus! {

/// How many requests the pools may have PHP run at a time, all together.
pub open spec fn workers_of(pools: Seq<PoolConfig>) -> nat
    decreases pools.len(),
{
    if pools.len() == 0 {
        0
    } else {
        workers_of(pools.drop_last()) + pools.last().pm_max_children as nat
    }
}

proof fn fewer_pools_have_fewer_workers(pools: Seq<PoolConfig>, n: int)
    requires
        0 <= n <= pools.len(),
    ensures
        workers_of(pools.take(n)) <= workers_of(pools),
    decreases pools.len(),
{
    if n == pools.len() {
        assert(pools.take(n) =~= pools);
    } else {
        fewer_pools_have_fewer_workers(pools.drop_last(), n);
        assert(pools.drop_last().take(n) =~= pools.take(n));
    }
}

/// Adds up the workers of all pools, if their number fits.
pub fn total_workers(pools: &Vec<PoolConfig>) -> (total: Option<usize>)
    ensures
        match total {
            Some(n) => n == workers_of(pools@),
            None => workers_of(pools@) > usize::MAX,
        },
{
    let mut total: usize = 0;
    let mut i: usize = 0;
    assert(pools@.take(0) =~= Seq::<PoolConfig>::empty());
    while i < pools.len()
        invariant
            i <= pools@.len(),
            total == workers_of(pools@.take(i as int)),
        decreases pools@.len() - i,
    {
        proof {
            let next = pools@.take(i + 1);
            assert(next.drop_last() =~= pools@.take(i as int));
            assert(next.last() == pools@[i as int]);
            fewer_pools_have_fewer_workers(pools@, i + 1);
        }
        match total.checked_add(pools[i].pm_max_children) {
            Some(sum) => {
                total = sum;
            },
            None => {
                return None;
            },
        }
        i = i + 1;
    }
    assert(pools@.take(pools@.len() as int) =~= pools@);
    Some(total)
}

/// The `php.ini` to use: that of the first pool.
pub fn php_ini(config: &ServerConfig) -> (path: Option<String>)
    ensures
        optional_text(path) == (if config.pools@.len() > 0 {
            optional_text(config.pools@[0].php_ini)
        } else {
            None
        }),
{
    if config.pools.len() > 0 {
        match &config.pools[0].php_ini {
            Some(path) => Some(path.clone()),
            None => None,
        }
    } else {
        None
    }
}

/// A user and a group to run as.
pub struct Identity {
    pub user: String,
    pub group: String,
}

/// Whom to run as: the user of the first pool, with the group of that pool or one named like the
/// user.
pub fn run_as(config: &ServerConfig) -> (identity: Option<Identity>)
    ensures
        match identity {
            Some(id) => {
                &&& config.pools@.len() > 0
                &&& config.pools@[0].user matches Some(user)
                &&& id.user@ == user@
                &&& id.group@ == (match config.pools@[0].group {
                    Some(group) => group@,
                    None => user@,
                })
            },
            None => config.pools@.len() == 0 || config.pools@[0].user is None,
        },
{
    if config.pools.len() == 0 {
        return None;
    }
    match &config.pools[0].user {
        Some(user) => {
            let group = match &config.pools[0].group {
                Some(group) => group.clone(),
                None => user.clone(),
            };
            Some(Identity { user: user.clone(), group })
        },
        None => None,
    }
}

/// What to write to the pid file.
pub fn pid_text(pid: u32) -> (text: String)
    ensures
        text@ == decimal(pid as nat),
{
    to_decimal(pid as u64)
}

/// The permissions that a text in octal asks for: `0666` where there is none, and `0660` where it
/// is no number once its leading zeros are off.
pub open spec fn socket_mode(text: Option<Seq<char>>) -> u32 {
    let mode = match text {
        Some(t) => t,
        None => "0666"@,
    };
    match within(unsigned_number(without_leading_zeros(mode), 8), 0, u32::MAX as int) {
        Some(n) => n as u32,
        None => 0o660,
    }
}

/// Who is to own a socket; what is absent stays as it is.
pub struct OwnerChange {
    pub user: Option<String>,
    pub group: Option<String>,
}

/// What to do with a new socket.
pub struct SocketPermissions {
    pub owner: Option<OwnerChange>,
    pub mode: u32,
}

impl SocketPermissions {
    /// Whether this is what a pool asks for.
    pub open spec fn are_of(self, pool: PoolConfig) -> bool {
        &&& self.mode == socket_mode(optional_text(pool.listen_mode))
        &&& match self.owner {
            Some(change) => {
                &&& pool.listen_owner is Some || pool.listen_group is Some
                &&& optional_text(change.user) == optional_text(pool.listen_owner)
                &&& optional_text(change.group) == optional_text(pool.listen_group)
            },
            None => pool.listen_owner is None && pool.listen_group is None,
        }
    }
}

/// Tells what the socket of a pool is to be: the owner changes if a user or a group is set, and
/// the permissions in any case.
pub fn set_socket_permissions(pool: &PoolConfig) -> (permissions: SocketPermissions)
    ensures
        permissions.are_of(*pool),
        permissions.owner is Some <==> pool.listen_owner is Some || pool.listen_group is Some,
        permissions.owner matches Some(change) ==> {
            &&& change.user is Some <==> pool.listen_owner is Some
            &&& change.group is Some <==> pool.listen_group is Some
            &&& change.user is Some ==> change.user.unwrap()@ == pool.listen_owner.unwrap()@
            &&& change.group is Some ==> change.group.unwrap()@ == pool.listen_group.unwrap()@
        },
{
    let owner = if pool.listen_owner.is_some() || pool.listen_group.is_some() {
        Some(
            OwnerChange {
                user: match &pool.listen_owner {
                    Some(user) => Some(user.clone()),
                    None => None,
                },
                group: match &pool.listen_group {
                    Some(group) => Some(group.clone()),
                    None => None,
                },
            },
        )
    } else {
        None
    };
    let mode_text = match &pool.listen_mode {
        Some(text) => text.as_str(),
        None => "0666",
    };
    let mode: u32 = match parse_octal(mode_text) {
        Some(n) => n,
        None => 0o660,
    };
    SocketPermissions { owner, mode }
}

/// The id to give a socket for a name that was looked up, if the look-up found one.
///
/// A name that is unknown, or whose look-up failed, leaves the id as it is.
pub fn owner_id(lookup: Lookup) -> (id: Option<u32>)
    ensures
        id == found_id(lookup),
        id == (match lookup {
            Lookup::Found { id } => Some(id),
            Lookup::Missing => None,
            Lookup::Failed => None,
        }),
{
    match lookup {
        Lookup::Found { id } => Some(id),
        _ => None,
    }
}

/// The id that a look-up found.
pub open spec fn found_id(lookup: Lookup) -> Option<u32> {
    match lookup {
        Lookup::Found { id } => Some(id),
        _ => None,
    }
}

/// How far setting up a socket has come.
#[derive(Clone, Copy, Debug, PartialEq, Eq, Structural)]
pub enum SocketSetup {
    /// Nothing has been done yet.
    New,
    /// The user is being looked up.
    FindingUser,
    /// The group is being looked up.
    FindingGroup { uid: Option<u32> },
    /// The owner is being changed.
    ChangingOwner,
    /// The permissions are being set.
    SettingMode,
    /// The socket is set up.
    Done,
    /// Something failed.
    Failed { error: SocketError },
}

/// What the caller has to do next.
#[derive(Clone, Copy, Debug, PartialEq, Eq, Structural)]
pub enum SocketAction {
    /// Look up the user who is to own the socket.
    FindUser,
    /// Look up the group that is to own the socket.
    FindGroup,
    /// Change the owner; an id that is absent stays as it is.
    ChangeOwner { uid: Option<u32>, gid: Option<u32> },
    /// Set the permissions.
    SetMode { mode: u32 },
    /// Go on: the socket is set up.
    Succeed,
    /// Stop with an error.
    Fail { error: SocketError },
}

/// What came of it.
#[derive(Clone, Copy, Debug, PartialEq, Eq, Structural)]
pub enum SocketEvent {
    Begin,
    User { lookup: Lookup },
    Group { lookup: Lookup },
    OwnerChanged { success: bool },
    ModeSet { success: bool },
}

/// Why a socket was not set up.
#[derive(Clone, Copy, Debug, PartialEq, Eq, Structural)]
pub enum SocketError {
    /// The owner could not be changed.
    Chown,
    /// The permissions could not be set.
    Mode,
}

impl SocketError {
    /// The words that go in front of the cause, where there are any.
    pub open spec fn text(self, listen: Seq<char>) -> Option<Seq<char>> {
        match self {
            SocketError::Chown => Some("Failed to chown socket "@ + listen),
            SocketError::Mode => None,
        }
    }

    /// The words that go in front of the cause; an error without any is its cause alone.
    pub fn context(self, listen: &str) -> (text: Option<String>)
        ensures
            optional_text(text) == self.text(listen@),
    {
        match self {
            SocketError::Chown => {
                let mut text = "Failed to chown socket ".to_owned();
                text.append(listen);
                Some(text)
            },
            SocketError::Mode => None,
        }
    }
}

impl SocketSetup {
    /// The state and the action that follow an event, if the event answers what was being done.
    pub open spec fn next(self, event: SocketEvent, permissions: SocketPermissions) -> Option<
        (SocketSetup, SocketAction),
    > {
        let set_mode = (
            SocketSetup::SettingMode,
            SocketAction::SetMode { mode: permissions.mode },
        );
        let names_group = permissions.owner matches Some(change) && change.group is Some;
        match (self, event) {
            (SocketSetup::New, SocketEvent::Begin) => Some(
                match permissions.owner {
                    Some(change) => if change.user is Some {
                        (SocketSetup::FindingUser, SocketAction::FindUser)
                    } else {
                        (SocketSetup::FindingGroup { uid: None }, SocketAction::FindGroup)
                    },
                    None => set_mode,
                },
            ),
            (SocketSetup::FindingUser, SocketEvent::User { lookup }) => Some(
                if names_group {
                    (
                        SocketSetup::FindingGroup { uid: found_id(lookup) },
                        SocketAction::FindGroup,
                    )
                } else {
                    (
                        SocketSetup::ChangingOwner,
                        SocketAction::ChangeOwner { uid: found_id(lookup), gid: None },
                    )
                },
            ),
            (SocketSetup::FindingGroup { uid }, SocketEvent::Group { lookup }) => Some(
                (
                    SocketSetup::ChangingOwner,
                    SocketAction::ChangeOwner { uid, gid: found_id(lookup) },
                ),
            ),
            (SocketSetup::ChangingOwner, SocketEvent::OwnerChanged { success }) => Some(
                if success {
                    set_mode
                } else {
                    (
                        SocketSetup::Failed { error: SocketError::Chown },
                        SocketAction::Fail { error: SocketError::Chown },
                    )
                },
            ),
            (SocketSetup::SettingMode, SocketEvent::ModeSet { success }) => Some(
                if success {
                    (SocketSetup::Done, SocketAction::Succeed)
                } else {
                    (
                        SocketSetup::Failed { error: SocketError::Mode },
                        SocketAction::Fail { error: SocketError::Mode },
                    )
                },
            ),
            _ => None,
        }
    }

    /// Whether setting up the socket has come to its end.
    pub open spec fn is_over(self) -> bool {
        self is Done || self is Failed
    }

    /// Takes an event and tells what to do next, on the way to the given permissions.
    pub fn step(self, event: SocketEvent, permissions: &SocketPermissions) -> (next: Option<
        (SocketSetup, SocketAction),
    >)
        ensures
            next == self.next(event, *permissions),
    {
        let set_mode = (
            SocketSetup::SettingMode,
            SocketAction::SetMode { mode: permissions.mode },
        );
        match (self, event) {
            (SocketSetup::New, SocketEvent::Begin) => match &permissions.owner {
                Some(change) => if change.user.is_some() {
                    Some((SocketSetup::FindingUser, SocketAction::FindUser))
                } else {
                    Some((SocketSetup::FindingGroup { uid: None }, SocketAction::FindGroup))
                },
                None => Some(set_mode),
            },
            (SocketSetup::FindingUser, SocketEvent::User { lookup }) => {
                let uid = owner_id(lookup);
                let names_group = match &permissions.owner {
                    Some(change) => change.group.is_some(),
                    None => false,
                };
                if names_group {
                    Some((SocketSetup::FindingGroup { uid }, SocketAction::FindGroup))
                } else {
                    Some(
                        (
                            SocketSetup::ChangingOwner,
                            SocketAction::ChangeOwner { uid, gid: None },
                        ),
                    )
                }
            },
            (SocketSetup::FindingGroup { uid }, SocketEvent::Group { lookup }) => Some(
                (
                    SocketSetup::ChangingOwner,
                    SocketAction::ChangeOwner { uid, gid: owner_id(lookup) },
                ),
            ),
            (SocketSetup::ChangingOwner, SocketEvent::OwnerChanged { success }) => if success {
                Some(set_mode)
            } else {
                Some(
                    (
                        SocketSetup::Failed { error: SocketError::Chown },
                        SocketAction::Fail { error: SocketError::Chown },
                    ),
                )
            },
            (SocketSetup::SettingMode, SocketEvent::ModeSet { success }) => if success {
                Some((SocketSetup::Done, SocketAction::Succeed))
            } else {
                Some(
                    (
                        SocketSetup::Failed { error: SocketError::Mode },
                        SocketAction::Fail { error: SocketError::Mode },
                    ),
                )
            },
            _ => None,
        }
    }
}

/// The state after a series of events and the actions on the way, if every event was in place.
pub open spec fn run(
    state: SocketSetup,
    events: Seq<SocketEvent>,
    permissions: SocketPermissions,
) -> Option<(SocketSetup, Seq<SocketAction>)>
    decreases events.len(),
{
    if events.len() == 0 {
        Some((state, Seq::empty()))
    } else {
        match state.next(events[0], permissions) {
            Some((next, action)) => match run(next, events.drop_first(), permissions) {
                Some((last, actions)) => Some((last, seq![action] + actions)),
                None => None,
            },
            None => None,
        }
    }
}

/// What may come of setting up a socket.
pub struct SocketReports {
    /// The look-up of the user, if one is named
    pub user: Lookup,
    /// The look-up of the group, if one is named
    pub group: Lookup,
    /// Whether the owner could be changed, if it was to be
    pub chown: bool,
    /// Whether the permissions could be set, if it came to that
    pub mode: bool,
}

impl SocketReports {
    /// Whether the permissions are set: always, but for a change of owner that failed.
    pub open spec fn reach_mode(self, pool: PoolConfig) -> bool {
        pool.listen_owner is None && pool.listen_group is None || self.chown
    }

    /// The reports one after the other, for the socket of a pool.
    pub open spec fn events(self, pool: PoolConfig) -> Seq<SocketEvent> {
        let user = if pool.listen_owner is Some {
            seq![SocketEvent::User { lookup: self.user }]
        } else {
            Seq::empty()
        };
        let group = if pool.listen_group is Some {
            seq![SocketEvent::Group { lookup: self.group }]
        } else {
            Seq::empty()
        };
        let chown = if pool.listen_owner is Some || pool.listen_group is Some {
            seq![SocketEvent::OwnerChanged { success: self.chown }]
        } else {
            Seq::empty()
        };
        let mode = if self.reach_mode(pool) {
            seq![SocketEvent::ModeSet { success: self.mode }]
        } else {
            Seq::empty()
        };
        seq![SocketEvent::Begin] + user + group + chown + mode
    }

    /// The actions for the socket of a pool: each name that is set is looked up, the owner changes
    /// if a name is set, to the ids that were found, and then the permissions are set.
    pub open spec fn actions(self, pool: PoolConfig) -> Seq<SocketAction> {
        let user = if pool.listen_owner is Some {
            seq![SocketAction::FindUser]
        } else {
            Seq::empty()
        };
        let group = if pool.listen_group is Some {
            seq![SocketAction::FindGroup]
        } else {
            Seq::empty()
        };
        let chown = if pool.listen_owner is Some || pool.listen_group is Some {
            seq![
                SocketAction::ChangeOwner {
                    uid: if pool.listen_owner is Some {
                        found_id(self.user)
                    } else {
                        None
                    },
                    gid: if pool.listen_group is Some {
                        found_id(self.group)
                    } else {
                        None
                    },
                },
            ]
        } else {
            Seq::empty()
        };
        let mode = if !self.reach_mode(pool) {
            seq![SocketAction::Fail { error: SocketError::Chown }]
        } else {
            seq![
                SocketAction::SetMode { mode: socket_mode(optional_text(pool.listen_mode)) },
                if self.mode {
                    SocketAction::Succeed
                } else {
                    SocketAction::Fail { error: SocketError::Mode }
                },
            ]
        };
        user + group + chown + mode
    }

    /// How setting up the socket of a pool ends.
    pub open spec fn end(self, pool: PoolConfig) -> SocketSetup {
        if !self.reach_mode(pool) {
            SocketSetup::Failed { error: SocketError::Chown }
        } else if self.mode {
            SocketSetup::Done
        } else {
            SocketSetup::Failed { error: SocketError::Mode }
        }
    }
}

/// Whatever is reported, the socket of a pool is set up in this order: the names that are set are
/// looked up, the owner is changed to the ids that were found if a name is set, and the permissions
/// are set unless that change failed.
pub proof fn socket_setup_keeps_order(
    pool: PoolConfig,
    permissions: SocketPermissions,
    reports: SocketReports,
)
    requires
        permissions.are_of(pool),
    ensures
        run(SocketSetup::New, reports.events(pool), permissions) == Some(
            (reports.end(pool), reports.actions(pool)),
        ),
{
    reveal_with_fuel(run, 6);
    let events = reports.events(pool);
    let outcome = run(SocketSetup::New, events, permissions);
    assert(outcome is Some);
    assert(outcome.unwrap().0 == reports.end(pool));
    assert(outcome.unwrap().1 =~= reports.actions(pool));
}

/// Every set-up of a pool's socket that comes to its end is of that form, for what was reported.
pub proof fn socket_setup_has_no_other_way(
    pool: PoolConfig,
    permissions: SocketPermissions,
    events: Seq<SocketEvent>,
) -> (reports: SocketReports)
    requires
        permissions.are_of(pool),
        run(SocketSetup::New, events, permissions) is Some,
        run(SocketSetup::New, events, permissions).unwrap().0.is_over(),
    ensures
        events == reports.events(pool),
        run(SocketSetup::New, events, permissions) == Some(
            (reports.end(pool), reports.actions(pool)),
        ),
{
    reveal_with_fuel(run, 7);
    assert(events.len() > 0);
    let e1 = events.drop_first();
    assert(e1.len() > 0);
    let user = e1[0]->User_lookup;
    let e2 = if pool.listen_owner is Some {
        e1.drop_first()
    } else {
        e1
    };
    assert(e2.len() > 0);
    let group = e2[0]->Group_lookup;
    let e3 = if pool.listen_group is Some {
        e2.drop_first()
    } else {
        e2
    };
    assert(e3.len() > 0);
    let owned = pool.listen_owner is Some || pool.listen_group is Some;
    let chown = e3[0]->OwnerChanged_success;
    let e4 = if owned {
        e3.drop_first()
    } else {
        e3
    };
    let mode = e4[0]->ModeSet_success;
    let reports = SocketReports { user, group, chown, mode };
    if reports.reach_mode(pool) {
        assert(e4.len() > 0);
        let e5 = e4.drop_first();
        assert(e5.len() == 0);
    } else {
        assert(e4.len() == 0);
    }
    assert(events =~= reports.events(pool));
    socket_setup_keeps_order(pool, permissions, reports);
    reports
}

proof fn failed_chown_from(
    state: SocketSetup,
    events: Seq<SocketEvent>,
    permissions: SocketPermissions,
)
    requires
        run(state, events, permissions) is Some,
    ensures
        events.contains(SocketEvent::OwnerChanged { success: false }) ==> {
            &&& run(state, events, permissions).unwrap().0 == (
            SocketSetup::Failed { error: SocketError::Chown })
            &&& forall|k: int|
                0 <= k < run(state, events, permissions).unwrap().1.len() ==> (
                #[trigger] run(state, events, permissions).unwrap().1[k]) !is SetMode
        },
        state == SocketSetup::SettingMode || state.is_over() ==> !events.contains(
            SocketEvent::OwnerChanged { success: false },
        ),
    decreases events.len(),
{
    if events.len() > 0 {
        reported_first_or_later(events);
        let (next, action) = state.next(events[0], permissions).unwrap();
        let rest = events.drop_first();
        failed_chown_from(next, rest, permissions);
        let later = run(next, rest, permissions).unwrap().1;
        let actions = seq![action] + later;
        if events[0] == (SocketEvent::OwnerChanged { success: false }) {
            assert(rest.len() == 0) by {
                if rest.len() > 0 {
                    assert(next.next(rest[0], permissions) is None);
                }
            }
        }
        if events.contains(SocketEvent::OwnerChanged { success: false }) {
            assert forall|k: int| 0 <= k < actions.len() implies (#[trigger] actions[k]) !is SetMode by {
                if k > 0 {
                    assert(actions[k] == later[k - 1]);
                }
            }
        }
    }
}

/// If the owner of a socket cannot be changed, that is the error, and the permissions are not set.
pub proof fn failed_chown_leaves_mode(events: Seq<SocketEvent>, permissions: SocketPermissions)
    requires
        run(SocketSetup::New, events, permissions) is Some,
        events.contains(SocketEvent::OwnerChanged { success: false }),
    ensures
        run(SocketSetup::New, events, permissions).unwrap().0 == (
        SocketSetup::Failed { error: SocketError::Chown }),
        forall|k: int|
            0 <= k < run(SocketSetup::New, events, permissions).unwrap().1.len() ==> (
            #[trigger] run(SocketSetup::New, events, permissions).unwrap().1[k]) !is SetMode,
{
    failed_chown_from(SocketSetup::New, events, permissions);
}

/// Without a setting, everybody may read and write the socket.
pub proof fn default_socket_mode()
    ensures
        socket_mode(None) == 0o666,
{
    reveal_strlit("0666");
    let text = "0666"@;
    reveal_with_fuel(without_leading_zeros, 2);
    let digits = seq!['6', '6', '6'];
    assert(text.skip(1) =~= digits);
    assert(without_leading_zeros(text) == digits);
    reveal_with_fuel(digits_value, 4);
    assert(digits.drop_last() =~= seq!['6', '6']);
    assert(seq!['6', '6'].drop_last() =~= seq!['6']);
    assert(seq!['6'].drop_last() =~= Seq::<char>::empty());
    assert(forall|i: int| 0 <= i < 3 ==> is_digit(#[trigger] digits[i], 8));
}

/// A zero in front of the permissions changes nothing.
pub proof fn leading_zero_keeps_mode(text: Seq<char>)
    ensures
        socket_mode(Some(seq!['0'] + text)) == socket_mode(Some(text)),
{
    assert((seq!['0'] + text).skip(1) =~= text);
}

/// The workers of all pools are those of each pool, added up.
pub proof fn each_pool_adds_its_workers(pools: Seq<PoolConfig>, pool: PoolConfig)
    ensures
        workers_of(Seq::empty()) == 0,
        workers_of(pools.push(pool)) == workers_of(pools) + pool.pm_max_children,
{
    assert(pools.push(pool).drop_last() =~= pools);
}

/// Permissions in octal are taken as they are written, however many zeros stand in front; what is
/// no number in octal, or nothing but zeros, or too large, stands for `rw-rw----`.
pub proof fn mode_is_the_octal_number(row: Seq<char>, zeros: nat, text: Seq<char>, n: int, i: int)
    requires
        row.len() > 0,
        row[0] != '0',
        forall|j: int| 0 <= j < row.len() ==> 48 <= (#[trigger] row[j]) as int <= 55,
        0 <= n <= text.len(),
        forall|j: int| 0 <= j < n ==> #[trigger] text[j] == '0',
        n < text.len() ==> text[n] != '0',
    ensures
        0 <= digits_value(row, 8) <= u32::MAX ==> socket_mode(
            Some(Seq::new(zeros, |j: int| '0') + row),
        ) == digits_value(row, 8),
        digits_value(row, 8) > u32::MAX ==> socket_mode(
            Some(Seq::new(zeros, |j: int| '0') + row),
        ) == 0o660,
        n == text.len() ==> socket_mode(Some(text)) == 0o660,
        n <= i < text.len() && ((text[i] as int) < 48 || text[i] as int > 55) && (i > n || text[i]
            != '+') ==> socket_mode(Some(text)) == 0o660,
{
    let padded = Seq::new(zeros, |j: int| '0') + row;
    assert(padded[zeros as int] == row[0]);
    all_leading_zeros_go(padded, zeros as int);
    assert(padded.skip(zeros as int) =~= row);
    rows_of_digits_are_numbers(row, 8);
    all_leading_zeros_go(text, n);
    let rest = text.skip(n);
    other_texts_are_no_numbers(seq!['x'], 0, 8);
    if n == text.len() {
        assert(rest =~= Seq::<char>::empty());
    }
    if n <= i < text.len() && ((text[i] as int) < 48 || text[i] as int > 55) && (i > n || text[i]
        != '+') {
        assert(rest[i - n] == text[i]);
        other_texts_are_no_numbers(rest, i - n, 8);
    }
}

/// An event is taken only as the answer to what is being done.
pub proof fn events_answer_what_is_done(
    state: SocketSetup,
    event: SocketEvent,
    permissions: SocketPermissions,
)
    ensures
        state.next(event, permissions) is Some <==> {
            ||| state is New && event is Begin
            ||| state is FindingUser && event is User
            ||| state is FindingGroup && event is Group
            ||| state is ChangingOwner && event is OwnerChanged
            ||| state is SettingMode && event is ModeSet
        },
{
}

/// Setting up a socket, step by step: the names that are set are looked up, the user first; the
/// owner is changed to the ids that were found, and an id whose name is unknown or could not be
/// looked up stays; then the permissions are set.
pub proof fn socket_is_set_up_step_by_step(
    permissions: SocketPermissions,
    uid: u32,
    gid: u32,
    before: Option<u32>,
)
    ensures
        permissions.owner is None ==> SocketSetup::New.next(SocketEvent::Begin, permissions) == Some(
            (SocketSetup::SettingMode, SocketAction::SetMode { mode: permissions.mode }),
        ),
        permissions.owner matches Some(change) ==> change.user is Some ==> SocketSetup::New.next(
            SocketEvent::Begin,
            permissions,
        ) == Some((SocketSetup::FindingUser, SocketAction::FindUser)),
        permissions.owner matches Some(change) ==> change.user is None ==> SocketSetup::New.next(
            SocketEvent::Begin,
            permissions,
        ) == Some((SocketSetup::FindingGroup { uid: None }, SocketAction::FindGroup)),
        permissions.owner matches Some(change) ==> change.group is Some ==> {
            &&& SocketSetup::FindingUser.next(
                SocketEvent::User { lookup: Lookup::Found { id: uid } },
                permissions,
            ) == Some((SocketSetup::FindingGroup { uid: Some(uid) }, SocketAction::FindGroup))
            &&& SocketSetup::FindingUser.next(
                SocketEvent::User { lookup: Lookup::Missing },
                permissions,
            ) == Some((SocketSetup::FindingGroup { uid: None }, SocketAction::FindGroup))
            &&& SocketSetup::FindingUser.next(
                SocketEvent::User { lookup: Lookup::Failed },
                permissions,
            ) == Some((SocketSetup::FindingGroup { uid: None }, SocketAction::FindGroup))
        },
        permissions.owner matches Some(change) ==> change.group is None ==> {
            &&& SocketSetup::FindingUser.next(
                SocketEvent::User { lookup: Lookup::Found { id: uid } },
                permissions,
            ) == Some(
                (
                    SocketSetup::ChangingOwner,
                    SocketAction::ChangeOwner { uid: Some(uid), gid: None },
                ),
            )
            &&& SocketSetup::FindingUser.next(
                SocketEvent::User { lookup: Lookup::Missing },
                permissions,
            ) == Some(
                (SocketSetup::ChangingOwner, SocketAction::ChangeOwner { uid: None, gid: None }),
            )
            &&& SocketSetup::FindingUser.next(
                SocketEvent::User { lookup: Lookup::Failed },
                permissions,
            ) == Some(
                (SocketSetup::ChangingOwner, SocketAction::ChangeOwner { uid: None, gid: None }),
            )
        },
        (SocketSetup::FindingGroup { uid: before }).next(
            SocketEvent::Group { lookup: Lookup::Found { id: gid } },
            permissions,
        ) == Some(
            (
                SocketSetup::ChangingOwner,
                SocketAction::ChangeOwner { uid: before, gid: Some(gid) },
            ),
        ),
        (SocketSetup::FindingGroup { uid: before }).next(
            SocketEvent::Group { lookup: Lookup::Missing },
            permissions,
        ) == Some(
            (SocketSetup::ChangingOwner, SocketAction::ChangeOwner { uid: before, gid: None }),
        ),
        (SocketSetup::FindingGroup { uid: before }).next(
            SocketEvent::Group { lookup: Lookup::Failed },
            permissions,
        ) == Some(
            (SocketSetup::ChangingOwner, SocketAction::ChangeOwner { uid: before, gid: None }),
        ),
        SocketSetup::ChangingOwner.next(SocketEvent::OwnerChanged { success: true }, permissions)
            == Some((SocketSetup::SettingMode, SocketAction::SetMode { mode: permissions.mode })),
        SocketSetup::ChangingOwner.next(SocketEvent::OwnerChanged { success: false }, permissions)
            == Some(
            (
                SocketSetup::Failed { error: SocketError::Chown },
                SocketAction::Fail { error: SocketError::Chown },
            ),
        ),
        SocketSetup::SettingMode.next(SocketEvent::ModeSet { success: true }, permissions) == Some(
            (SocketSetup::Done, SocketAction::Succeed),
        ),
        SocketSetup::SettingMode.next(SocketEvent::ModeSet { success: false }, permissions) == Some(
            (
                SocketSetup::Failed { error: SocketError::Mode },
                SocketAction::Fail { error: SocketError::Mode },
            ),
        ),
{
}

/// The words in front of the cause: the socket whose owner could not be changed, and none otherwise.
pub proof fn messages(listen: Seq<char>)
    ensures
        SocketError::Chown.text(listen) == Some("Failed to chown socket "@ + listen),
        SocketError::Mode.text(listen) is None,
{
}

/// Permissions in octal may have a `+` in front, behind any zeros.
pub proof fn mode_may_have_a_plus(row: Seq<char>, zeros: nat)
    requires
        row.len() > 0,
        forall|j: int| 0 <= j < row.len() ==> 48 <= (#[trigger] row[j]) as int <= 55,
    ensures
        0 <= digits_value(row, 8) <= u32::MAX ==> socket_mode(
            Some(Seq::new(zeros, |j: int| '0') + (seq!['+'] + row)),
        ) == digits_value(row, 8),
        digits_value(row, 8) > u32::MAX ==> socket_mode(
            Some(Seq::new(zeros, |j: int| '0') + (seq!['+'] + row)),
        ) == 0o660,
        socket_mode(Some(Seq::new(zeros, |j: int| '0') + seq!['+'])) == 0o660,
{
    let plus = seq!['+'] + row;
    let padded = Seq::new(zeros, |j: int| '0') + plus;
    assert(padded[zeros as int] == '+');
    all_leading_zeros_go(padded, zeros as int);
    assert(padded.skip(zeros as int) =~= plus);
    rows_of_digits_are_numbers(row, 8);
    let alone = Seq::new(zeros, |j: int| '0') + seq!['+'];
    assert(alone[zeros as int] == '+');
    all_leading_zeros_go(alone, zeros as int);
    assert(alone.skip(zeros as int) =~= seq!['+']);
    other_texts_are_no_numbers(seq!['x'], 0, 8);
}

} // verus!
