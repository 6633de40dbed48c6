use autojoin::event::Identity;
use autojoin::event::MembershipEvent;
use autojoin::event::MembershipState;
use autojoin::event::RoomHandle;
use autojoin::event::on_membership_event;
use autojoin::retry::Directive;
use autojoin::retry::GIVE_UP_THRESHOLD_SECONDS;
use autojoin::retry::Phase;
use autojoin::retry::RetryTask;
use autojoin::trace::drive;

fn room(id: &str) -> RoomHandle {
    RoomHandle { room_id: String::from(id) }
}

#[test]
fn scenario_two_failures_then_success() {
    // The agent @bot:example.org is invited into !abc:example.org; the join
    // fails twice, then succeeds on the third attempt.
    let me = Identity { user_id: String::from("@bot:example.org") };
    let event = MembershipEvent {
        target_user: Identity { user_id: String::from("@bot:example.org") },
        room: room("!abc:example.org"),
        new_state: MembershipState::Invited,
    };
    let task = on_membership_event(event, &me).expect("a self-invite spawns a task");
    assert_eq!(task.room.room_id, "!abc:example.org");
    let report = drive(task.room, &vec![false, false, true]);
    assert_eq!(report.sleeps, vec![2, 4]);
    assert_eq!(report.attempts, 3);
    assert_eq!(report.phase, Phase::Joined);
}

#[test]
fn success_on_first_attempt_sleeps_never() {
    let report = drive(room("!a:example.org"), &vec![true]);
    assert_eq!(report.sleeps, Vec::<u64>::new());
    assert_eq!(report.attempts, 1);
    assert_eq!(report.phase, Phase::Joined);
}

#[test]
fn outcomes_after_success_never_matter() {
    let report = drive(room("!a:example.org"), &vec![false, true, false, false]);
    assert_eq!(report.sleeps, vec![2]);
    assert_eq!(report.attempts, 2);
    assert_eq!(report.phase, Phase::Joined);
}

#[test]
fn gives_up_after_eleven_failures() {
    let report = drive(room("!a:example.org"), &vec![false; 11]);
    assert_eq!(report.sleeps, vec![2, 4, 8, 16, 32, 64, 128, 256, 512, 1024, 2048]);
    assert_eq!(report.attempts, 11);
    assert_eq!(report.phase, Phase::GivenUp);
}

#[test]
fn no_twelfth_attempt_after_giving_up() {
    // Outcomes keep offering successes past the eleventh failure; the task
    // must never look at them.
    let mut outcomes = vec![false; 11];
    outcomes.extend_from_slice(&[true; 9]);
    let report = drive(room("!a:example.org"), &outcomes);
    assert_eq!(report.attempts, 11);
    assert_eq!(report.phase, Phase::GivenUp);
}

#[test]
fn crossing_delay_is_never_slept() {
    let report = drive(room("!a:example.org"), &vec![false; 11]);
    for s in report.sleeps.iter() {
        assert!(*s <= GIVE_UP_THRESHOLD_SECONDS);
    }
    assert_eq!(*report.sleeps.last().unwrap(), 2048);
}

#[test]
fn pending_when_outcomes_run_out() {
    let report = drive(room("!a:example.org"), &vec![false]);
    assert_eq!(report.sleeps, vec![2]);
    assert_eq!(report.attempts, 1);
    assert_eq!(report.phase, Phase::Attempting);
}

#[test]
fn success_asks_for_one_success_signal() {
    let mut task = RetryTask::new(room("!a:example.org"));
    let directive = task.record_attempt(true);
    assert_eq!(directive, Directive::ReportSuccess);
    assert_eq!(task.phase, Phase::Joined);
    assert_eq!(task.attempt_count, 0);
}

#[test]
fn failure_sleeps_the_current_delay_then_doubles() {
    let mut task = RetryTask::new(room("!a:example.org"));
    assert_eq!(task.delay_seconds, 2);
    let directive = task.record_attempt(false);
    assert_eq!(directive, Directive::SleepFor { seconds: 2 });
    assert_eq!(task.phase, Phase::Backoff);
    assert_eq!(task.attempt_count, 1);
    let decision = task.backoff_elapsed();
    assert_eq!(decision, Directive::Retry);
    assert_eq!(task.phase, Phase::Attempting);
    assert_eq!(task.delay_seconds, 4);
}

#[test]
fn eleventh_backoff_reports_give_up() {
    let mut task = RetryTask::new(room("!a:example.org"));
    for round in 0..10 {
        let directive = task.record_attempt(false);
        assert_eq!(directive, Directive::SleepFor { seconds: 2u64 << round });
        assert_eq!(task.backoff_elapsed(), Directive::Retry);
    }
    assert_eq!(task.delay_seconds, 2048);
    let directive = task.record_attempt(false);
    assert_eq!(directive, Directive::SleepFor { seconds: 2048 });
    let decision = task.backoff_elapsed();
    assert_eq!(decision, Directive::ReportGiveUp);
    assert_eq!(task.phase, Phase::GivenUp);
    assert_eq!(task.delay_seconds, 4096);
    assert_eq!(task.attempt_count, 11);
}
