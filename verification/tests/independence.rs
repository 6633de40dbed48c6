use autojoin::event::RoomHandle;
use autojoin::retry::Directive;
use autojoin::retry::Phase;
use autojoin::retry::RetryTask;
use autojoin::trace::drive;
use autojoin::trace::drive_pair;

fn room(id: &str) -> RoomHandle {
    RoomHandle { room_id: String::from(id) }
}

#[test]
fn interleaved_tasks_do_not_affect_each_other() {
    // Two concurrent invites for two different rooms: step the two tasks in
    // an interleaved order and check that each evolves exactly as it does on
    // its own. Task A fails once and then joins; task B joins at once while A
    // is still backing off.
    let mut a = RetryTask::new(room("!a:example.org"));
    let mut b = RetryTask::new(room("!b:example.org"));

    let a_first = a.record_attempt(false);
    assert_eq!(a_first, Directive::SleepFor { seconds: 2 });

    // While A sleeps, B attempts and joins: A's backoff does not delay B.
    let b_first = b.record_attempt(true);
    assert_eq!(b_first, Directive::ReportSuccess);
    assert_eq!(b.phase, Phase::Joined);
    assert_eq!(b.attempt_count, 0);
    assert_eq!(b.delay_seconds, 2);

    // A goes on exactly as it would alone.
    assert_eq!(a.backoff_elapsed(), Directive::Retry);
    assert_eq!(a.delay_seconds, 4);
    let a_second = a.record_attempt(true);
    assert_eq!(a_second, Directive::ReportSuccess);
    assert_eq!(a.phase, Phase::Joined);

    // The interleaved traces match the solo runs of the same outcomes.
    let solo_a = drive(room("!a:example.org"), &vec![false, true]);
    assert_eq!(solo_a.sleeps, vec![2]);
    assert_eq!(solo_a.attempts, 2);
    assert_eq!(solo_a.phase, Phase::Joined);
    let solo_b = drive(room("!b:example.org"), &vec![true]);
    assert_eq!(solo_b.sleeps, Vec::<u64>::new());
    assert_eq!(solo_b.attempts, 1);
    assert_eq!(solo_b.phase, Phase::Joined);
}

#[test]
fn every_schedule_yields_the_solo_runs() {
    // Task A fails three times and then joins; task B exhausts its invite and
    // gives up. Whatever the interleaving, each task's trace is its solo one.
    let outcomes_a = vec![false, false, false, true];
    let outcomes_b = vec![false; 11];
    let schedules: [Vec<bool>; 4] = [
        vec![],
        vec![true, false, true, false, true, false, true, false],
        vec![false; 11],
        vec![true, true, false, false, false, true, false, true, false],
    ];
    for schedule in schedules {
        let (a, b) = drive_pair(
            room("!a:example.org"),
            &outcomes_a,
            room("!b:example.org"),
            &outcomes_b,
            &schedule,
        );
        assert_eq!(a.sleeps, vec![2, 4, 8]);
        assert_eq!(a.attempts, 4);
        assert_eq!(a.phase, Phase::Joined);
        assert_eq!(b.sleeps, vec![2, 4, 8, 16, 32, 64, 128, 256, 512, 1024, 2048]);
        assert_eq!(b.attempts, 11);
        assert_eq!(b.phase, Phase::GivenUp);
    }
}
