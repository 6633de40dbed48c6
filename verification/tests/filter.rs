use autojoin::event::Identity;
use autojoin::event::MembershipEvent;
use autojoin::event::MembershipState;
use autojoin::event::RoomHandle;
use autojoin::event::on_membership_event;
use autojoin::event::should_autojoin;
use autojoin::retry::Phase;
use autojoin::trace::drive;

fn me() -> Identity {
    Identity { user_id: String::from("@bot:example.org") }
}

fn invite_for(user: &str, room: &str) -> MembershipEvent {
    MembershipEvent {
        target_user: Identity { user_id: String::from(user) },
        room: RoomHandle { room_id: String::from(room) },
        new_state: MembershipState::Invited,
    }
}

#[test]
fn ignores_invites_for_other_users() {
    let event = invite_for("@alice:example.org", "!abc:example.org");
    assert!(!should_autojoin(&event, &me()));
    assert!(on_membership_event(event, &me()).is_none());
}

#[test]
fn ignores_non_invite_states_for_self() {
    let states = [
        MembershipState::Joined,
        MembershipState::Left,
        MembershipState::Knocked,
        MembershipState::Banned,
    ];
    for state in states {
        let mut event = invite_for("@bot:example.org", "!abc:example.org");
        event.new_state = state;
        assert!(!should_autojoin(&event, &me()));
        assert!(on_membership_event(event, &me()).is_none());
    }
}

#[test]
fn spawns_fresh_task_on_self_invite() {
    let event = invite_for("@bot:example.org", "!abc:example.org");
    let task = on_membership_event(event, &me()).expect("a self-invite spawns a task");
    assert_eq!(task.room.room_id, "!abc:example.org");
    assert_eq!(task.delay_seconds, 2);
    assert_eq!(task.attempt_count, 0);
    assert_eq!(task.phase, Phase::Attempting);
}

#[test]
fn reinvite_spawns_second_independent_task() {
    // Two invite notifications for the same room: no deduplication, each
    // spawns its own fresh task, and their runs do not influence each other.
    let first = on_membership_event(invite_for("@bot:example.org", "!abc:example.org"), &me())
        .expect("first invite spawns a task");
    let second = on_membership_event(invite_for("@bot:example.org", "!abc:example.org"), &me())
        .expect("second invite spawns a task");
    assert_eq!(second.delay_seconds, first.delay_seconds);
    assert_eq!(second.attempt_count, first.attempt_count);
    assert_eq!(second.phase, first.phase);
    let first_report = drive(first.room, &vec![false; 11]);
    let second_report = drive(second.room, &vec![false, true]);
    assert_eq!(first_report.phase, Phase::GivenUp);
    assert_eq!(second_report.phase, Phase::Joined);
    assert_eq!(second_report.attempts, 2);
}
