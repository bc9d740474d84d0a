use std::collections::HashSet;
use vstd::prelude::*;

verus! {

broadcast use vstd::std_specs::hash::group_hash_axioms;

/// Set of user and group ids that may not run commands.
pub struct BlocklistGuard {
    ids: HashSet<u64>,
}

impl View for BlocklistGuard {
    type V = Set<u64>;

    closed spec fn view(&self) -> Set<u64> {
        self.ids@
    }
}

impl BlocklistGuard {
    pub fn new() -> (r: Self)
        ensures
            r@ == Set::<u64>::empty(),
    {
        BlocklistGuard { ids: HashSet::new() }
    }

    pub fn block(&mut self, id: u64)
        ensures
            final(self)@ == old(self)@.insert(id),
    {
        self.ids.insert(id);
    }

    pub fn unblock(&mut self, id: u64)
        ensures
            final(self)@ == old(self)@.remove(id),
    {
        self.ids.remove(&id);
    }

    pub fn contains(&self, id: u64) -> (r: bool)
        ensures
            r == self@.contains(id),
    {
        self.ids.contains(&id)
    }
}

/// The id a command's group is looked up under: 0 where it has no group.
pub open spec fn group_key(group: Option<u64>) -> u64 {
    match group {
        Some(g) => g,
        None => 0,
    }
}

/// Which membership made the blocklist refuse a command.
#[derive(Clone, Copy, Debug, PartialEq, Eq, Structural)]
pub enum BlockedBy {
    User,
    Group,
}

/// What the pre-command hook decided.
#[derive(Clone, Copy, Debug, PartialEq, Eq, Structural)]
pub struct BeforeDecision {
    /// Whether to record the request metric.
    pub record_request: bool,
    /// Whether to run the command.
    pub proceed: bool,
    /// The one denial reply to send, if the command is refused.
    pub denial: Option<BlockedBy>,
}

pub open spec fn before_spec(blocked: Set<u64>, tracking: bool, actor: u64, group: Option<u64>) -> BeforeDecision {
    let by_user = blocked.contains(actor);
    let by_group = blocked.contains(group_key(group));
    BeforeDecision {
        record_request: tracking,
        proceed: !by_user && !by_group,
        denial: if by_user {
            Some(BlockedBy::User)
        } else if by_group {
            Some(BlockedBy::Group)
        } else {
            None
        },
    }
}

pub fn group_or_sentinel(group: Option<u64>) -> (r: u64)
    ensures
        r == group_key(group),
{
    match group {
        Some(g) => g,
        None => 0,
    }
}

/// Pre-command hook: records the request when tracking, and refuses the
/// command, with one denial reply, when the user or the group is blocked.
/// The command's name plays no part in the decision.
pub fn before(
    blocklist: &BlocklistGuard,
    tracking: bool,
    actor: u64,
    group: Option<u64>,
    command_name: &str,
) -> (r: BeforeDecision)
    ensures
        r == before_spec(blocklist@, tracking, actor, group),
{
    let by_user = blocklist.contains(actor);
    let by_group = blocklist.contains(group_or_sentinel(group));
    let denial = if by_user {
        Some(BlockedBy::User)
    } else if by_group {
        Some(BlockedBy::Group)
    } else {
        None
    };
    BeforeDecision { record_request: tracking, proceed: !by_user && !by_group, denial }
}

/// A blocked user or group is never dispatched and gets exactly one denial,
/// whichever command it sent.
pub proof fn law_blocked_never_dispatched(
    blocked: Set<u64>,
    tracking: bool,
    actor: u64,
    group: Option<u64>,
)
    requires
        blocked.contains(actor) || blocked.contains(group_key(group)),
    ensures
        !before_spec(blocked, tracking, actor, group).proceed,
        before_spec(blocked, tracking, actor, group).denial is Some,
{
}

/// What the post-command hook must do.
pub struct AfterPlan {
    /// Failure text to send as a reply and track, when the command failed.
    pub failure_notice: Option<String>,
    /// Whether to emit the command-executed metric.
    pub emit_metric: bool,
    pub command_name: String,
    pub group_id: Option<u64>,
}

/// Post-command hook: a failed command gets a failure reply carrying its
/// error; the executed metric goes out when tracking, whatever the outcome.
pub fn after(
    outcome: &Result<(), String>,
    tracking: bool,
    command_name: &String,
    group: Option<u64>,
) -> (r: AfterPlan)
    ensures
        r.emit_metric == tracking,
        r.command_name@ == command_name@,
        r.group_id == group,
        r.failure_notice is Some <==> outcome is Err,
        outcome matches Err(e) ==> r.failure_notice->Some_0@ == e@,
{
    let failure_notice = match outcome {
        Ok(()) => None,
        Err(e) => Some(e.clone()),
    };
    AfterPlan { failure_notice, emit_metric: tracking, command_name: command_name.clone(), group_id: group }
}

/// Why the framework did not dispatch a command.
#[derive(Clone, Copy, Debug, PartialEq, Eq, Structural)]
pub enum DispatchFailure {
    RateLimited,
    Other,
}

/// Only a rate limit is answered, with a slow-down notice.
pub fn dispatch_error(error: DispatchFailure) -> (notify: bool)
    ensures
        notify == (error == DispatchFailure::RateLimited),
{
    match error {
        DispatchFailure::RateLimited => true,
        DispatchFailure::Other => false,
    }
}

} // verus!
