use maic_desktop::health::{
    health_ok, response_is_ok, server_url, ChildState, HealthEvent, HealthStep, HealthWait,
    HEALTH_REQUEST, POLL_INTERVAL_MS, STARTUP_TIMEOUT_MS,
};
use maic_desktop::reply::HealthOutcome;

#[test]
fn status_line_decides() {
    assert!(health_ok(b"HTTP/1.1 200 OK\r\nContent-Type: text/plain\r\n\r\nok"));
    assert!(health_ok(b"HTTP/1.0 200"));
    assert!(health_ok(b"HTTP/1.0\t 200\r\n"));
    assert!(!health_ok(b"HTTP/1.1 503 Service Unavailable\r\n\r\n200"));
    assert!(!health_ok(b"HTTP/1.1 2000 OK"));
    assert!(!health_ok(b"HTTP/1.1\r\n200"));
    assert!(!health_ok(b"200"));
    assert!(!health_ok(b""));
    assert!(!health_ok(b"\nHTTP/1.1 200 OK"));
}

#[test]
fn stray_bytes_do_not_stop_the_status_line() {
    assert!(health_ok(b"HTTP/1.1 200 \xff\xfe\r\n"));
    assert!(health_ok(b"\xc3 200"));
    assert!(!health_ok(b"HTTP/1.1\xff200 OK"));
    assert!(health_ok("HTTP/1.1\u{a0}200".as_bytes()));
    assert!(response_is_ok("HTTP/1.1 200 OK"));
}

#[test]
fn server_is_reached_on_the_loopback() {
    assert_eq!(server_url(31846), "http://127.0.0.1:31846/");
    assert_eq!(
        HEALTH_REQUEST,
        "GET /api/health HTTP/1.0\r\nHost: 127.0.0.1\r\nConnection: close\r\n\r\n"
    );
    assert_eq!(STARTUP_TIMEOUT_MS, 60_000);
    assert_eq!(POLL_INTERVAL_MS, 200);
}

/// One poll: elapsed time, connection, health, process.
type Poll = (u64, bool, bool, ChildState);

/// Run the wait over some polls; the outcome, and how many polls it took.
fn wait(polls: &[Poll]) -> (Option<HealthOutcome>, usize) {
    let mut wait = HealthWait::start();
    let mut used = 0;
    let mut seen = polls.iter();
    let mut poll = (0, false, false, ChildState::Running);
    loop {
        let event = match wait.step {
            HealthStep::ReadClock => match seen.next() {
                Some(p) => {
                    poll = *p;
                    used += 1;
                    HealthEvent::Elapsed(poll.0)
                }
                None => return (None, used),
            },
            HealthStep::Connect => HealthEvent::Connected(poll.1),
            HealthStep::AskHealth => HealthEvent::Green(poll.2),
            HealthStep::CheckChild => HealthEvent::Child(poll.3),
            HealthStep::Pause => HealthEvent::Paused,
            HealthStep::Over(outcome) => return (Some(outcome), used),
        };
        wait = wait.answer(event);
    }
}

#[test]
fn wait_ends_with_the_first_healthy_poll() {
    let polls = [
        (0, false, false, ChildState::Running),
        (200, true, false, ChildState::Running),
        (400, true, true, ChildState::Running),
        (600, false, false, ChildState::Running),
    ];
    assert_eq!(wait(&polls), (Some(HealthOutcome::Healthy), 3));
    assert_eq!(wait(&polls[..2]), (None, 2));
}

#[test]
fn wait_gives_up_when_the_process_is_gone() {
    assert_eq!(
        wait(&[(0, false, false, ChildState::Exited), (1, true, true, ChildState::Running)]),
        (Some(HealthOutcome::NoListener), 1)
    );
    assert_eq!(
        wait(&[(0, true, false, ChildState::Running), (1, false, false, ChildState::Unknown)]),
        (Some(HealthOutcome::ListeningButUnhealthy), 2)
    );
    // Another live instance on the port counts.
    assert_eq!(
        wait(&[(0, true, true, ChildState::Exited)]),
        (Some(HealthOutcome::Healthy), 1)
    );
}

#[test]
fn wait_gives_up_when_the_time_is_up() {
    assert_eq!(
        wait(&[(59_999, false, false, ChildState::Running), (60_000, true, true, ChildState::Running)]),
        (Some(HealthOutcome::NoListener), 2)
    );
    assert_eq!(
        wait(&[(59_999, true, true, ChildState::Running)]),
        (Some(HealthOutcome::Healthy), 1)
    );
}

#[test]
fn wait_ignores_events_of_other_steps() {
    let start = HealthWait::start();
    assert_eq!(start.answer(HealthEvent::Green(true)), start);
    assert_eq!(start.answer(HealthEvent::Paused), start);
}
