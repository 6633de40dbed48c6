//! Membership notifications and the filter that starts retry tasks.
//!
//! The transport delivers one notification per membership change. Exactly the
//! notifications that invite the agent itself into a room spawn a retry task;
//! every other notification is ignored without any side effect.

use vstd::prelude::*;
use crate::retry::INITIAL_DELAY_SECONDS;
use crate::retry::RetryTask;

verus! {

/// The agent's own durable user identifier, for instance `@bot:example.org`.
/// Immutable for the process lifetime; used only as a filter predicate.
pub struct Identity {
    pub user_id: String,
}

impl View for Identity {
    type V = Seq<char>;

    open spec fn view(&self) -> Seq<char> {
        self.user_id@
    }
}

/// A room named by its display identifier, the only part of a room this
/// component ever reads.
pub struct RoomHandle {
    pub room_id: String,
}

impl View for RoomHandle {
    type V = Seq<char>;

    open spec fn view(&self) -> Seq<char> {
        self.room_id@
    }
}

/// The membership states a notification can announce.
#[derive(Clone, Copy, Debug, PartialEq, Eq, Structural)]
pub enum MembershipState {
    /// The target user has been asked to join the room.
    Invited,
    /// The target user is a member of the room.
    Joined,
    /// The target user left, or was removed from, the room.
    Left,
    /// The target user asked to join the room.
    Knocked,
    /// The target user was banned from the room.
    Banned,
}

/// One membership-change notification from the transport.
pub struct MembershipEvent {
    /// Whose membership changed.
    pub target_user: Identity,
    /// The room the change happened in.
    pub room: RoomHandle,
    /// The membership state the change arrived at.
    pub new_state: MembershipState,
}

/// Whether a notification must start a retry task: it targets the agent
/// itself and announces an invitation. Nothing else does.
pub open spec fn spawns_retry(event: MembershipEvent, me: Identity) -> bool {
    event.target_user@ == me@ && event.new_state is Invited
}

/// The filter itself: true exactly on self-targeted invites.
pub fn should_autojoin(event: &MembershipEvent, me: &Identity) -> (r: bool)
    ensures
        r == spawns_retry(*event, *me),
{
    match event.new_state {
        MembershipState::Invited => event.target_user.user_id == me.user_id,
        MembershipState::Joined => false,
        MembershipState::Left => false,
        MembershipState::Knocked => false,
        MembershipState::Banned => false,
    }
}

/// React to one notification. A self-targeted invite yields a fresh retry
/// task for the event's room — always a fresh one, also when another task for
/// the same room is already running. Every other notification yields nothing.
pub fn on_membership_event(event: MembershipEvent, me: &Identity) -> (t: Option<RetryTask>)
    ensures
        t == if spawns_retry(event, *me) {
            Some(RetryTask::initial(event.room))
        } else {
            None::<RetryTask>
        },
        t matches Some(task) ==> task.wf(),
{
    if should_autojoin(&event, me) {
        Some(RetryTask::new(event.room))
    } else {
        None
    }
}

/// Filter correctness: a notification whose target is another user never
/// spawns a retry task, and neither does a notification for the agent itself
/// whose new state is anything but an invitation.
pub proof fn lemma_filter_correctness(event: MembershipEvent, me: Identity)
    ensures
        event.target_user@ != me@ ==> !spawns_retry(event, me),
        !(event.new_state is Invited) ==> !spawns_retry(event, me),
{
}

/// Re-invites are not deduplicated: a second self-targeted invite for a room
/// spawns a second task, in the same fresh state as the first — a join
/// attempt due at once, no failures counted, the first backoff two seconds.
/// Each task's run then depends on its own attempt outcomes alone.
pub proof fn lemma_reinvite_spawns_fresh_task(
    first: MembershipEvent,
    second: MembershipEvent,
    me: Identity,
)
    requires
        spawns_retry(first, me),
        spawns_retry(second, me),
        first.room == second.room,
    ensures
        RetryTask::initial(second.room) == RetryTask::initial(first.room),
        RetryTask::initial(second.room).phase is Attempting,
        RetryTask::initial(second.room).attempt_count == 0,
        RetryTask::initial(second.room).delay_seconds == INITIAL_DELAY_SECONDS,
{
}

} // verus!
