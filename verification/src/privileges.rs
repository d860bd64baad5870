//! Giving up root for good: look up the user and the group, change over to them, and make sure.
//!
//! The caller performs what [`PrivilegeDrop::step`] tells it to do, and reports back what came of
//! it.

use crate::text::{has_nul, holds_nul, nul_is_number_zero};
use vstd::prelude::*;

verus! {

/// Tells whether a user id is root's, by `nix::unistd::Uid::is_root`.
///
/// Believed of that method: it holds of the id zero alone.
#[verifier::external_body]
fn is_root(uid: u32) -> (root: bool)
    ensures
        root == (uid == 0),
{
    nix::unistd::Uid::from_raw(uid).is_root()
}

/// How far giving up root has come.
#[derive(Clone, Copy, Debug, PartialEq, Eq, Structural)]
pub enum PrivilegeDrop {
    /// Nothing has been done yet.
    New,
    /// The user is being looked up.
    FindingUser,
    /// The group is being looked up.
    FindingGroup { uid: u32 },
    /// The supplementary groups are being set.
    JoiningGroups { uid: u32, gid: u32 },
    /// The group is being changed.
    ChangingGroup { uid: u32 },
    /// The user is being changed.
    ChangingUser,
    /// The effective user is being looked at.
    MakingSure,
    /// Root is given up.
    Dropped,
    /// Something failed.
    Refused { error: PrivilegeError },
}

/// What the caller has to do next.
#[derive(Clone, Copy, Debug, PartialEq, Eq, Structural)]
pub enum PrivilegeAction {
    FindUser,
    FindGroup,
    InitGroups { gid: u32 },
    SetGid { gid: u32 },
    SetUid { uid: u32 },
    ReadEffectiveUser,
    /// Go on: root is given up.
    Succeed,
    /// Stop with an error.
    Fail { error: PrivilegeError },
}

/// What came of looking up a name.
#[derive(Clone, Copy, Debug, PartialEq, Eq, Structural)]
pub enum Lookup {
    /// The look-up itself failed.
    Failed,
    /// There is no such name.
    Missing,
    /// The id that goes with the name
    Found { id: u32 },
}

/// What came of an action.
#[derive(Clone, Copy, Debug, PartialEq, Eq, Structural)]
pub enum PrivilegeEvent {
    Begin,
    User { lookup: Lookup },
    Group { lookup: Lookup },
    GroupsJoined { success: bool },
    GroupChanged { success: bool },
    UserChanged { success: bool },
    EffectiveUser { uid: u32 },
}

/// Why root was not given up.
#[derive(Clone, Copy, Debug, PartialEq, Eq, Structural)]
pub enum PrivilegeError {
    UserLookup,
    UserMissing,
    GroupLookup,
    GroupMissing,
    /// The name of the user cannot be a C string.
    InvalidUsername,
    InitGroups,
    SetGid,
    SetUid,
    /// The process is still root's after all changes.
    StillRoot,
}

/// The state and the action with which giving up root fails.
pub open spec fn refusal(error: PrivilegeError) -> Option<(PrivilegeDrop, PrivilegeAction)> {
    Some((PrivilegeDrop::Refused { error }, PrivilegeAction::Fail { error }))
}

fn refuse(error: PrivilegeError) -> (next: Option<(PrivilegeDrop, PrivilegeAction)>)
    ensures
        next == refusal(error),
{
    Some((PrivilegeDrop::Refused { error }, PrivilegeAction::Fail { error }))
}

impl PrivilegeDrop {
    /// The state and the action that follow an event, if the event answers what was being done.
    pub open spec fn next(self, event: PrivilegeEvent, user: Seq<char>) -> Option<
        (PrivilegeDrop, PrivilegeAction),
    > {
        match (self, event) {
            (PrivilegeDrop::New, PrivilegeEvent::Begin) => Some(
                (PrivilegeDrop::FindingUser, PrivilegeAction::FindUser),
            ),
            (PrivilegeDrop::FindingUser, PrivilegeEvent::User { lookup }) => match lookup {
                Lookup::Failed => refusal(PrivilegeError::UserLookup),
                Lookup::Missing => refusal(PrivilegeError::UserMissing),
                Lookup::Found { id } => Some(
                    (PrivilegeDrop::FindingGroup { uid: id }, PrivilegeAction::FindGroup),
                ),
            },
            (PrivilegeDrop::FindingGroup { uid }, PrivilegeEvent::Group { lookup }) => match lookup {
                Lookup::Failed => refusal(PrivilegeError::GroupLookup),
                Lookup::Missing => refusal(PrivilegeError::GroupMissing),
                Lookup::Found { id } => if holds_nul(user) {
                    refusal(PrivilegeError::InvalidUsername)
                } else {
                    Some(
                        (
                            PrivilegeDrop::JoiningGroups { uid, gid: id },
                            PrivilegeAction::InitGroups { gid: id },
                        ),
                    )
                },
            },
            (
                PrivilegeDrop::JoiningGroups { uid, gid },
                PrivilegeEvent::GroupsJoined { success },
            ) => if success {
                Some((PrivilegeDrop::ChangingGroup { uid }, PrivilegeAction::SetGid { gid }))
            } else {
                refusal(PrivilegeError::InitGroups)
            },
            (PrivilegeDrop::ChangingGroup { uid }, PrivilegeEvent::GroupChanged { success }) =>
            if success {
                Some((PrivilegeDrop::ChangingUser, PrivilegeAction::SetUid { uid }))
            } else {
                refusal(PrivilegeError::SetGid)
            },
            (PrivilegeDrop::ChangingUser, PrivilegeEvent::UserChanged { success }) => if success {
                Some((PrivilegeDrop::MakingSure, PrivilegeAction::ReadEffectiveUser))
            } else {
                refusal(PrivilegeError::SetUid)
            },
            (PrivilegeDrop::MakingSure, PrivilegeEvent::EffectiveUser { uid }) => if uid == 0 {
                refusal(PrivilegeError::StillRoot)
            } else {
                Some((PrivilegeDrop::Dropped, PrivilegeAction::Succeed))
            },
            _ => None,
        }
    }

    /// Takes an event and tells what to do next, on the way to running as `user`.
    pub fn step(self, event: PrivilegeEvent, user: &str) -> (next: Option<
        (PrivilegeDrop, PrivilegeAction),
    >)
        ensures
            next == self.next(event, user@),
    {
        match (self, event) {
            (PrivilegeDrop::New, PrivilegeEvent::Begin) => Some(
                (PrivilegeDrop::FindingUser, PrivilegeAction::FindUser),
            ),
            (PrivilegeDrop::FindingUser, PrivilegeEvent::User { lookup }) => match lookup {
                Lookup::Failed => refuse(PrivilegeError::UserLookup),
                Lookup::Missing => refuse(PrivilegeError::UserMissing),
                Lookup::Found { id } => Some(
                    (PrivilegeDrop::FindingGroup { uid: id }, PrivilegeAction::FindGroup),
                ),
            },
            (PrivilegeDrop::FindingGroup { uid }, PrivilegeEvent::Group { lookup }) => match lookup {
                Lookup::Failed => refuse(PrivilegeError::GroupLookup),
                Lookup::Missing => refuse(PrivilegeError::GroupMissing),
                Lookup::Found { id } => if has_nul(user) {
                    refuse(PrivilegeError::InvalidUsername)
                } else {
                    Some(
                        (
                            PrivilegeDrop::JoiningGroups { uid, gid: id },
                            PrivilegeAction::InitGroups { gid: id },
                        ),
                    )
                },
            },
            (
                PrivilegeDrop::JoiningGroups { uid, gid },
                PrivilegeEvent::GroupsJoined { success },
            ) => if success {
                Some((PrivilegeDrop::ChangingGroup { uid }, PrivilegeAction::SetGid { gid }))
            } else {
                refuse(PrivilegeError::InitGroups)
            },
            (PrivilegeDrop::ChangingGroup { uid }, PrivilegeEvent::GroupChanged { success }) =>
            if success {
                Some((PrivilegeDrop::ChangingUser, PrivilegeAction::SetUid { uid }))
            } else {
                refuse(PrivilegeError::SetGid)
            },
            (PrivilegeDrop::ChangingUser, PrivilegeEvent::UserChanged { success }) => if success {
                Some((PrivilegeDrop::MakingSure, PrivilegeAction::ReadEffectiveUser))
            } else {
                refuse(PrivilegeError::SetUid)
            },
            (PrivilegeDrop::MakingSure, PrivilegeEvent::EffectiveUser { uid }) => if is_root(uid) {
                refuse(PrivilegeError::StillRoot)
            } else {
                Some((PrivilegeDrop::Dropped, PrivilegeAction::Succeed))
            },
            _ => None,
        }
    }
}

/// A sentence about a name.
pub open spec fn quoted(before: Seq<char>, name: Seq<char>, after: Seq<char>) -> Seq<char> {
    before + name + after
}

fn quote(before: &str, name: &str, after: &str) -> (text: String)
    ensures
        text@ == quoted(before@, name@, after@),
{
    let mut text = before.to_owned();
    text.append(name);
    text.append(after);
    text
}

impl PrivilegeError {
    /// What to say of an error.
    pub open spec fn text(self, user: Seq<char>, group: Seq<char>) -> Seq<char> {
        match self {
            PrivilegeError::UserLookup => quoted("Failed to look up user '"@, user, "'"@),
            PrivilegeError::UserMissing => quoted("User '"@, user, "' not found"@),
            PrivilegeError::GroupLookup => quoted("Failed to look up group '"@, group, "'"@),
            PrivilegeError::GroupMissing => quoted("Group '"@, group, "' not found"@),
            PrivilegeError::InvalidUsername => "Invalid username"@,
            PrivilegeError::InitGroups => "initgroups failed"@,
            PrivilegeError::SetGid => "setgid failed"@,
            PrivilegeError::SetUid => "setuid failed"@,
            PrivilegeError::StillRoot =>
                "Failed to drop root privileges — still running as root"@,
        }
    }

    /// The error in words, for the user and the group that were asked for.
    pub fn message(self, user: &str, group: &str) -> (message: String)
        ensures
            message@ == self.text(user@, group@),
    {
        match self {
            PrivilegeError::UserLookup => quote("Failed to look up user '", user, "'"),
            PrivilegeError::UserMissing => quote("User '", user, "' not found"),
            PrivilegeError::GroupLookup => quote("Failed to look up group '", group, "'"),
            PrivilegeError::GroupMissing => quote("Group '", group, "' not found"),
            PrivilegeError::InvalidUsername => "Invalid username".to_owned(),
            PrivilegeError::InitGroups => "initgroups failed".to_owned(),
            PrivilegeError::SetGid => "setgid failed".to_owned(),
            PrivilegeError::SetUid => "setuid failed".to_owned(),
            PrivilegeError::StillRoot =>
                "Failed to drop root privileges — still running as root".to_owned(),
        }
    }
}

/// The state after a series of events and the actions on the way, if every event was in place.
pub open spec fn run(
    state: PrivilegeDrop,
    events: Seq<PrivilegeEvent>,
    user: Seq<char>,
) -> Option<(PrivilegeDrop, Seq<PrivilegeAction>)>
    decreases events.len(),
{
    if events.len() == 0 {
        Some((state, Seq::empty()))
    } else {
        match state.next(events[0], user) {
            Some((next, action)) => match run(next, events.drop_first(), user) {
                Some((last, actions)) => Some((last, seq![action] + actions)),
                None => None,
            },
            None => None,
        }
    }
}

/// Nothing follows a refusal, and it is not undone.
proof fn refusal_is_final(error: PrivilegeError, events: Seq<PrivilegeEvent>, user: Seq<char>)
    requires
        run(PrivilegeDrop::Refused { error }, events, user) is Some,
    ensures
        run(PrivilegeDrop::Refused { error }, events, user).unwrap().0 == (
        PrivilegeDrop::Refused { error }),
{
    if events.len() > 0 {
        assert((PrivilegeDrop::Refused { error }).next(events[0], user) is None);
    }
}

/// The events of giving up root when nothing fails.
pub open spec fn good_events(uid: u32, gid: u32, effective: u32) -> Seq<PrivilegeEvent> {
    seq![
        PrivilegeEvent::Begin,
        PrivilegeEvent::User { lookup: Lookup::Found { id: uid } },
        PrivilegeEvent::Group { lookup: Lookup::Found { id: gid } },
        PrivilegeEvent::GroupsJoined { success: true },
        PrivilegeEvent::GroupChanged { success: true },
        PrivilegeEvent::UserChanged { success: true },
        PrivilegeEvent::EffectiveUser { uid: effective },
    ]
}

/// The actions of giving up root when nothing fails: the groups change before the user does.
pub open spec fn good_actions(uid: u32, gid: u32) -> Seq<PrivilegeAction> {
    seq![
        PrivilegeAction::FindUser,
        PrivilegeAction::FindGroup,
        PrivilegeAction::InitGroups { gid },
        PrivilegeAction::SetGid { gid },
        PrivilegeAction::SetUid { uid },
        PrivilegeAction::ReadEffectiveUser,
        PrivilegeAction::Succeed,
    ]
}

proof fn unfold(state: PrivilegeDrop, events: Seq<PrivilegeEvent>, user: Seq<char>)
    requires
        run(state, events, user) is Some,
        run(state, events, user).unwrap().0 == PrivilegeDrop::Dropped,
        state != PrivilegeDrop::Dropped,
    ensures
        events.len() > 0,
        state.next(events[0], user) is Some,
        ({
            let (next, action) = state.next(events[0], user).unwrap();
            let rest = run(next, events.drop_first(), user);
            &&& next !is Refused
            &&& rest is Some
            &&& rest.unwrap().0 == PrivilegeDrop::Dropped
            &&& run(state, events, user).unwrap().1 == seq![action] + rest.unwrap().1
        }),
{
    let (next, action) = state.next(events[0], user).unwrap();
    if let PrivilegeDrop::Refused { error } = next {
        refusal_is_final(error, events.drop_first(), user);
    }
}

/// Root counts as given up only if every step succeeded, in order, on the ids that were looked up,
/// and the process is not root's in the end.
pub proof fn dropped_means_all_steps_held(events: Seq<PrivilegeEvent>, user: Seq<char>)
    requires
        run(PrivilegeDrop::New, events, user) is Some,
        run(PrivilegeDrop::New, events, user).unwrap().0 == PrivilegeDrop::Dropped,
    ensures
        !holds_nul(user),
        exists|uid: u32, gid: u32, effective: u32|
            {
                &&& effective != 0
                &&& events == #[trigger] good_events(uid, gid, effective)
                &&& run(PrivilegeDrop::New, events, user).unwrap().1 == good_actions(uid, gid)
            },
{
    let e1 = events.drop_first();
    let e2 = e1.drop_first();
    let e3 = e2.drop_first();
    let e4 = e3.drop_first();
    let e5 = e4.drop_first();
    let e6 = e5.drop_first();
    let e7 = e6.drop_first();
    unfold(PrivilegeDrop::New, events, user);
    unfold(PrivilegeDrop::FindingUser, e1, user);
    let uid = e1[0]->User_lookup->id;
    unfold(PrivilegeDrop::FindingGroup { uid }, e2, user);
    let gid = e2[0]->Group_lookup->id;
    unfold(PrivilegeDrop::JoiningGroups { uid, gid }, e3, user);
    unfold(PrivilegeDrop::ChangingGroup { uid }, e4, user);
    unfold(PrivilegeDrop::ChangingUser, e5, user);
    unfold(PrivilegeDrop::MakingSure, e6, user);
    let effective = e6[0]->EffectiveUser_uid;
    if e7.len() > 0 {
        assert(PrivilegeDrop::Dropped.next(e7[0], user) is None);
    }
    assert(events =~= good_events(uid, gid, effective));
    assert(run(PrivilegeDrop::New, events, user).unwrap().1 =~= good_actions(uid, gid));
}

/// Without a failure, root is given up.
pub proof fn good_events_drop_root(uid: u32, gid: u32, effective: u32, user: Seq<char>)
    requires
        !holds_nul(user),
        effective != 0,
    ensures
        run(PrivilegeDrop::New, good_events(uid, gid, effective), user) == Some(
            (PrivilegeDrop::Dropped, good_actions(uid, gid)),
        ),
{
    reveal_with_fuel(run, 8);
    let run_of = run(PrivilegeDrop::New, good_events(uid, gid, effective), user);
    assert(run_of is Some);
    assert(run_of.unwrap().1 =~= good_actions(uid, gid));
}

/// An event is taken only as the answer to what is being done.
pub proof fn events_answer_what_is_done(
    state: PrivilegeDrop,
    event: PrivilegeEvent,
    user: Seq<char>,
)
    ensures
        state.next(event, user) is Some <==> {
            ||| state is New && event is Begin
            ||| state is FindingUser && event is User
            ||| state is FindingGroup && event is Group
            ||| state is JoiningGroups && event is GroupsJoined
            ||| state is ChangingGroup && event is GroupChanged
            ||| state is ChangingUser && event is UserChanged
            ||| state is MakingSure && event is EffectiveUser
        },
{
}

/// Giving up root, step by step: the user and the group are looked up, then the groups of the user
/// are set, then the group, then the user, each to the id that was found, and in the end the process
/// must not be root's.
pub proof fn root_is_given_up_step_by_step(uid: u32, gid: u32, effective: u32, user: Seq<char>)
    requires
        !user.contains('\0'),
        effective != 0,
    ensures
        run(
            PrivilegeDrop::New,
            seq![
                PrivilegeEvent::Begin,
                PrivilegeEvent::User { lookup: Lookup::Found { id: uid } },
                PrivilegeEvent::Group { lookup: Lookup::Found { id: gid } },
                PrivilegeEvent::GroupsJoined { success: true },
                PrivilegeEvent::GroupChanged { success: true },
                PrivilegeEvent::UserChanged { success: true },
                PrivilegeEvent::EffectiveUser { uid: effective },
            ],
            user,
        ) == Some(
            (
                PrivilegeDrop::Dropped,
                seq![
                    PrivilegeAction::FindUser,
                    PrivilegeAction::FindGroup,
                    PrivilegeAction::InitGroups { gid },
                    PrivilegeAction::SetGid { gid },
                    PrivilegeAction::SetUid { uid },
                    PrivilegeAction::ReadEffectiveUser,
                    PrivilegeAction::Succeed,
                ],
            ),
        ),
{
    nul_is_number_zero(user);
    good_events_drop_root(uid, gid, effective, user);
}

/// Each step that fails ends in the error of that step, and so does a name that cannot be passed on
/// and a process that is still root's.
pub proof fn each_failure_is_its_error(uid: u32, gid: u32, user: Seq<char>)
    ensures
        PrivilegeDrop::FindingUser.next(PrivilegeEvent::User { lookup: Lookup::Failed }, user) == Some(
            (
                PrivilegeDrop::Refused { error: PrivilegeError::UserLookup },
                PrivilegeAction::Fail { error: PrivilegeError::UserLookup },
            ),
        ),
        PrivilegeDrop::FindingUser.next(PrivilegeEvent::User { lookup: Lookup::Missing }, user)
            == Some(
            (
                PrivilegeDrop::Refused { error: PrivilegeError::UserMissing },
                PrivilegeAction::Fail { error: PrivilegeError::UserMissing },
            ),
        ),
        (PrivilegeDrop::FindingGroup { uid }).next(
            PrivilegeEvent::Group { lookup: Lookup::Failed },
            user,
        ) == Some(
            (
                PrivilegeDrop::Refused { error: PrivilegeError::GroupLookup },
                PrivilegeAction::Fail { error: PrivilegeError::GroupLookup },
            ),
        ),
        (PrivilegeDrop::FindingGroup { uid }).next(
            PrivilegeEvent::Group { lookup: Lookup::Missing },
            user,
        ) == Some(
            (
                PrivilegeDrop::Refused { error: PrivilegeError::GroupMissing },
                PrivilegeAction::Fail { error: PrivilegeError::GroupMissing },
            ),
        ),
        user.contains('\0') ==> (PrivilegeDrop::FindingGroup { uid }).next(
            PrivilegeEvent::Group { lookup: Lookup::Found { id: gid } },
            user,
        ) == Some(
            (
                PrivilegeDrop::Refused { error: PrivilegeError::InvalidUsername },
                PrivilegeAction::Fail { error: PrivilegeError::InvalidUsername },
            ),
        ),
        (PrivilegeDrop::JoiningGroups { uid, gid }).next(
            PrivilegeEvent::GroupsJoined { success: false },
            user,
        ) == Some(
            (
                PrivilegeDrop::Refused { error: PrivilegeError::InitGroups },
                PrivilegeAction::Fail { error: PrivilegeError::InitGroups },
            ),
        ),
        (PrivilegeDrop::ChangingGroup { uid }).next(
            PrivilegeEvent::GroupChanged { success: false },
            user,
        ) == Some(
            (
                PrivilegeDrop::Refused { error: PrivilegeError::SetGid },
                PrivilegeAction::Fail { error: PrivilegeError::SetGid },
            ),
        ),
        PrivilegeDrop::ChangingUser.next(PrivilegeEvent::UserChanged { success: false }, user)
            == Some(
            (
                PrivilegeDrop::Refused { error: PrivilegeError::SetUid },
                PrivilegeAction::Fail { error: PrivilegeError::SetUid },
            ),
        ),
        PrivilegeDrop::MakingSure.next(PrivilegeEvent::EffectiveUser { uid: 0 }, user) == Some(
            (
                PrivilegeDrop::Refused { error: PrivilegeError::StillRoot },
                PrivilegeAction::Fail { error: PrivilegeError::StillRoot },
            ),
        ),
{
    nul_is_number_zero(user);
}

/// The error messages, with the names that were asked for.
pub proof fn messages(user: Seq<char>, group: Seq<char>)
    ensures
        PrivilegeError::UserLookup.text(user, group) == "Failed to look up user '"@ + user + "'"@,
        PrivilegeError::UserMissing.text(user, group) == "User '"@ + user + "' not found"@,
        PrivilegeError::GroupLookup.text(user, group) == "Failed to look up group '"@ + group
            + "'"@,
        PrivilegeError::GroupMissing.text(user, group) == "Group '"@ + group + "' not found"@,
        PrivilegeError::InvalidUsername.text(user, group) == "Invalid username"@,
        PrivilegeError::InitGroups.text(user, group) == "initgroups failed"@,
        PrivilegeError::SetGid.text(user, group) == "setgid failed"@,
        PrivilegeError::SetUid.text(user, group) == "setuid failed"@,
        PrivilegeError::StillRoot.text(user, group)
            == "Failed to drop root privileges — still running as root"@,
{
}

} // verus!
