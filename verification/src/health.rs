//! Health probing for the bundled local server.
use crate::reply::HealthOutcome;
use crate::text::{
    decimal, decimal_text, decimal_value, first_line, is_space, lemma_decimal_denotes,
    lemma_decimal_has_no_leading_zero, lemma_digits_count_by_place,
    lemma_first_line_ends_at_line_feed, lemma_space_has_no_words, lemma_words_are_split_by_space,
    second_word_is, words,
};
use vstd::prelude::*;
use vstd::string::*;
use vstd::utf8::*;

verus! {

/// How long the server may take to become healthy, in milliseconds.
pub const STARTUP_TIMEOUT_MS: u64 = 60000;

/// The pause between two polls, in milliseconds.
pub const POLL_INTERVAL_MS: u64 = 200;

/// The request that asks the server for its health.
pub const HEALTH_REQUEST: &'static str =
    "GET /api/health HTTP/1.0\r\nHost: 127.0.0.1\r\nConnection: close\r\n\r\n";

/// The text that `String::from_utf8_lossy` makes of some bytes.
pub uninterp spec fn lossy_text(bytes: Seq<u8>) -> Seq<char>;

/// An HTTP response whose status line carries the code 200.
pub open spec fn is_ok_response(text: Seq<char>) -> bool {
    let status = words(first_line(text));
    status.len() > 1 && status[1] == "200"@
}

/// The address of the local server.
pub open spec fn url_of(port: u16) -> Seq<char> {
    "http://127.0.0.1:"@ + decimal(port as nat) + "/"@
}

/// `String::from_utf8_lossy` of the standard library, taken as an owned text:
/// bytes that are UTF-8 come out as the text they encode; of other bytes
/// nothing is claimed but that the text depends on them alone.
#[verifier::external_body]
pub(crate) fn text_from_bytes(bytes: &[u8]) -> (r: String)
    ensures
        r@ == lossy_text(bytes@),
        valid_utf8(bytes@) ==> r@ == decode_utf8(bytes@),
{
    String::from_utf8_lossy(bytes).into_owned()
}

/// Whether the text of an HTTP response reports success.
pub fn response_is_ok(text: &str) -> (r: bool)
    ensures
        r == is_ok_response(text@),
{
    second_word_is(text, "200")
}

/// Whether the bytes that came back from `/api/health` report success; true on
/// HTTP 200.
pub fn health_ok(raw: &[u8]) -> (r: bool)
    ensures
        r == is_ok_response(lossy_text(raw@)),
        valid_utf8(raw@) ==> r == is_ok_response(decode_utf8(raw@)),
{
    let text = text_from_bytes(raw);
    response_is_ok(text.as_str())
}

/// The address that the main window opens.
pub fn server_url(port: u16) -> (r: String)
    ensures
        r@ == url_of(port),
{
    let mut out = "http://127.0.0.1:".to_string();
    out.append(decimal_text(port).as_str());
    out.append("/");
    out
}

/// What is known of the server process.
#[derive(Debug, Clone, Copy, PartialEq, Eq, Structural)]
pub enum ChildState {
    Running,
    Exited,
    /// Its state could not be read.
    Unknown,
}

/// What the wait for a healthy server waits for.
#[derive(Debug, Clone, Copy, PartialEq, Eq, Structural)]
pub enum HealthStep {
    /// Read the time since the wait began (`Elapsed`).
    ReadClock,
    /// Connect to the server's port (`Connected`).
    Connect,
    /// Ask the server for its health (`Green`).
    AskHealth,
    /// Look at the server process (`Child`).
    CheckChild,
    /// Pause for `POLL_INTERVAL_MS` (`Paused`).
    Pause,
    /// The wait is over.
    Over(HealthOutcome),
}

/// How a step of the wait went.
#[derive(Debug, Clone, Copy, PartialEq, Eq, Structural)]
pub enum HealthEvent {
    /// So many milliseconds have passed since the wait began.
    Elapsed(u64),
    Connected(bool),
    Green(bool),
    Child(ChildState),
    Paused,
}

/// The wait for a healthy server: poll until it is green, the time is up, or
/// the process has gone. Health is asked before the process is looked at, so
/// hitching onto another live instance's port still counts as healthy.
#[derive(Debug, Clone, Copy, PartialEq, Eq, Structural)]
pub struct HealthWait {
    pub step: HealthStep,
    /// Something accepted a connection at least once.
    pub ever_listened: bool,
}

impl HealthWait {
    /// A wait that has not polled yet.
    pub open spec fn started() -> Self {
        HealthWait { step: HealthStep::ReadClock, ever_listened: false }
    }

    /// The outcome of a wait that ends without a healthy answer.
    pub open spec fn given_up(self) -> HealthOutcome {
        if self.ever_listened {
            HealthOutcome::ListeningButUnhealthy
        } else {
            HealthOutcome::NoListener
        }
    }

    /// The wait after `event`. An event that does not belong to the step
    /// changes nothing.
    pub open spec fn after(self, event: HealthEvent) -> Self {
        match (self.step, event) {
            (HealthStep::ReadClock, HealthEvent::Elapsed(ms)) => HealthWait {
                step: if ms < STARTUP_TIMEOUT_MS {
                    HealthStep::Connect
                } else {
                    HealthStep::Over(self.given_up())
                },
                ..self
            },
            (HealthStep::Connect, HealthEvent::Connected(ok)) => if ok {
                HealthWait { step: HealthStep::AskHealth, ever_listened: true }
            } else {
                HealthWait { step: HealthStep::CheckChild, ..self }
            },
            (HealthStep::AskHealth, HealthEvent::Green(ok)) => HealthWait {
                step: if ok {
                    HealthStep::Over(HealthOutcome::Healthy)
                } else {
                    HealthStep::CheckChild
                },
                ..self
            },
            (HealthStep::CheckChild, HealthEvent::Child(state)) => HealthWait {
                step: if state == ChildState::Running {
                    HealthStep::Pause
                } else {
                    HealthStep::Over(self.given_up())
                },
                ..self
            },
            (HealthStep::Pause, HealthEvent::Paused) => HealthWait {
                step: HealthStep::ReadClock,
                ..self
            },
            _ => self,
        }
    }

    /// A wait that has yet to poll for the first time.
    pub fn start() -> (r: Self)
        ensures
            r == Self::started(),
    {
        HealthWait { step: HealthStep::ReadClock, ever_listened: false }
    }

    /// Take in how the current step went.
    pub fn answer(self, event: HealthEvent) -> (r: Self)
        ensures
            r == self.after(event),
    {
        let given_up = if self.ever_listened {
            HealthOutcome::ListeningButUnhealthy
        } else {
            HealthOutcome::NoListener
        };
        let mut next = self;
        match (self.step, event) {
            (HealthStep::ReadClock, HealthEvent::Elapsed(ms)) => {
                next.step = if ms < STARTUP_TIMEOUT_MS {
                    HealthStep::Connect
                } else {
                    HealthStep::Over(given_up)
                };
            },
            (HealthStep::Connect, HealthEvent::Connected(ok)) => {
                if ok {
                    next.ever_listened = true;
                    next.step = HealthStep::AskHealth;
                } else {
                    next.step = HealthStep::CheckChild;
                }
            },
            (HealthStep::AskHealth, HealthEvent::Green(ok)) => {
                next.step = if ok {
                    HealthStep::Over(HealthOutcome::Healthy)
                } else {
                    HealthStep::CheckChild
                };
            },
            (HealthStep::CheckChild, HealthEvent::Child(state)) => {
                next.step = match state {
                    ChildState::Running => HealthStep::Pause,
                    _ => HealthStep::Over(given_up),
                };
            },
            (HealthStep::Pause, HealthEvent::Paused) => {
                next.step = HealthStep::ReadClock;
            },
            _ => {},
        }
        next
    }
}

/// What one poll meets: the time since the wait began, whether the port
/// accepts a connection, whether health is green, and the server process.
pub struct Poll {
    pub elapsed_ms: u64,
    pub connected: bool,
    pub green: bool,
    pub child: ChildState,
}

impl Poll {
    /// What this poll has to say to a step.
    pub open spec fn event(self, step: HealthStep) -> HealthEvent {
        match step {
            HealthStep::ReadClock => HealthEvent::Elapsed(self.elapsed_ms),
            HealthStep::Connect => HealthEvent::Connected(self.connected),
            HealthStep::AskHealth => HealthEvent::Green(self.green),
            HealthStep::CheckChild => HealthEvent::Child(self.child),
            _ => HealthEvent::Paused,
        }
    }

    /// The poll starts before the time is up.
    pub open spec fn in_time(self) -> bool {
        self.elapsed_ms < STARTUP_TIMEOUT_MS
    }

    /// The poll finds the server healthy.
    pub open spec fn healthy(self) -> bool {
        self.in_time() && self.connected && self.green
    }

    /// The poll does not end the wait.
    pub open spec fn goes_on(self) -> bool {
        self.in_time() && !self.healthy() && self.child == ChildState::Running
    }
}

/// The wait at the end of a poll that has `n` steps left at most.
pub open spec fn rest_of_poll(wait: HealthWait, poll: Poll, n: nat) -> HealthWait
    decreases n,
{
    if n == 0 || wait.step is Over || wait.step is ReadClock {
        wait
    } else {
        rest_of_poll(wait.after(poll.event(wait.step)), poll, (n - 1) as nat)
    }
}

/// The wait after one poll.
pub open spec fn polled(wait: HealthWait, poll: Poll) -> HealthWait {
    rest_of_poll(wait.after(poll.event(wait.step)), poll, 4)
}

/// The wait after a series of polls.
pub open spec fn waited(polls: Seq<Poll>) -> HealthWait
    decreases polls.len(),
{
    if polls.len() == 0 {
        HealthWait::started()
    } else {
        polled(waited(polls.drop_last()), polls.last())
    }
}

/// The wait gets as far as poll `i`: no earlier poll ends it.
pub open spec fn reached(polls: Seq<Poll>, i: int) -> bool {
    0 <= i < polls.len() && forall|j: int| 0 <= j < i ==> (#[trigger] polls[j]).goes_on()
}

/// The wait gets as far as poll `i`, and that poll finds the server healthy.
pub open spec fn healthy_at(polls: Seq<Poll>, i: int) -> bool {
    reached(polls, i) && polls[i].healthy()
}

/// The wait gets as far as poll `i`, and something accepts its connection.
pub open spec fn listening_at(polls: Seq<Poll>, i: int) -> bool {
    reached(polls, i) && polls[i].in_time() && polls[i].connected
}

/// The wait gets as far as poll `i`, and that poll ends it.
pub open spec fn ended_at(polls: Seq<Poll>, i: int) -> bool {
    reached(polls, i) && !polls[i].goes_on()
}

/// The wait is over with the first poll that finds the server healthy, starts
/// too late, or finds the process gone. It reports a healthy server if that
/// poll found one; a listening one if no poll did but something accepted a
/// connection; and otherwise that nothing ever listened.
pub proof fn lemma_health_verdict(polls: Seq<Poll>)
    ensures
        match waited(polls).step {
            HealthStep::Over(HealthOutcome::Healthy) => exists|i: int| healthy_at(polls, i),
            HealthStep::Over(HealthOutcome::ListeningButUnhealthy) => {
                &&& exists|i: int| ended_at(polls, i)
                &&& exists|i: int| listening_at(polls, i)
                &&& forall|i: int| !healthy_at(polls, i)
            },
            HealthStep::Over(HealthOutcome::NoListener) => {
                &&& exists|i: int| ended_at(polls, i)
                &&& forall|i: int| !listening_at(polls, i)
            },
            HealthStep::ReadClock => {
                &&& forall|i: int| 0 <= i < polls.len() ==> (#[trigger] polls[i]).goes_on()
                &&& waited(polls).ever_listened == exists|i: int| listening_at(polls, i)
            },
            _ => false,
        },
    decreases polls.len(),
{
    reveal_with_fuel(rest_of_poll, 5);
    if polls.len() > 0 {
        let past = polls.drop_last();
        let n = polls.len() - 1;
        lemma_health_verdict(past);
        assert forall|i: int| 0 <= i < n implies reached(past, i) == reached(polls, i) by {
            assert(forall|j: int| 0 <= j < n ==> past[j] == polls[j]);
            if reached(past, i) {
                assert forall|j: int| 0 <= j < i implies (#[trigger] polls[j]).goes_on() by {
                    assert(past[j].goes_on());
                }
            }
            if reached(polls, i) {
                assert forall|j: int| 0 <= j < i implies (#[trigger] past[j]).goes_on() by {
                    assert(polls[j].goes_on());
                }
            }
        }
        assert forall|i: int| 0 <= i < n implies healthy_at(past, i) == healthy_at(polls, i)
            && listening_at(past, i) == listening_at(polls, i) && ended_at(past, i) == ended_at(
            polls,
            i,
        ) by {
            assert(reached(past, i) == reached(polls, i));
        }
        match waited(past).step {
            HealthStep::Over(_) => {
                let i = choose|i: int| ended_at(past, i);
                assert(ended_at(polls, i) && i < n);
                assert(!reached(polls, n)) by {
                    assert(!polls[i].goes_on());
                }
            },
            _ => {
                assert(reached(polls, n)) by {
                    assert forall|j: int| 0 <= j < n implies (#[trigger] polls[j]).goes_on() by {
                        assert(past[j].goes_on());
                    }
                }
                assert(healthy_at(polls, n) == polls[n].healthy());
                assert(listening_at(polls, n) == (polls[n].in_time() && polls[n].connected));
                assert(ended_at(polls, n) == !polls[n].goes_on());
            },
        }
    }
}

/// The status code decides: where the first line of a response is a first
/// word, white space, a code, and then nothing or white space and anything, the
/// response is a success exactly when the code is 200, whatever the version,
/// the reason, and the lines below.
pub proof fn lemma_status_code_decides(
    lead: Seq<char>,
    version: Seq<char>,
    gap: Seq<char>,
    code: Seq<char>,
    reason: Seq<char>,
    below: Seq<char>,
)
    requires
        !(lead + version + gap + code + reason).contains('\n'),
        forall|i: int| 0 <= i < lead.len() ==> is_space(#[trigger] lead[i]),
        version.len() > 0,
        forall|i: int| 0 <= i < version.len() ==> !is_space(#[trigger] version[i]),
        gap.len() > 0,
        forall|i: int| 0 <= i < gap.len() ==> is_space(#[trigger] gap[i]),
        code.len() > 0,
        forall|i: int| 0 <= i < code.len() ==> !is_space(#[trigger] code[i]),
        reason.len() > 0 ==> is_space(reason[0]),
    ensures
        is_ok_response(lead + version + gap + code + reason) <==> code == "200"@,
        is_ok_response(lead + version + gap + code + reason + seq!['\n'] + below) <==> code
            == "200"@,
        code == "200"@ <==> code == seq!['2', '0', '0'],
{
    let line = lead + version + gap + code + reason;
    lemma_first_line_ends_at_line_feed(line, below);
    let tail = gap + code + reason;
    assert(line =~= lead + version + tail);
    assert(tail[0] == gap[0] && is_space(gap[0]));
    lemma_words_are_split_by_space(lead, version, tail);
    lemma_words_are_split_by_space(gap, code, reason);
    assert(words(line)[1] == code);
    reveal_strlit("200");
    assert("200"@ =~= seq!['2', '0', '0']);
}

/// A response whose first line has no second word is no success.
pub proof fn lemma_response_needs_a_code(
    lead: Seq<char>,
    word: Seq<char>,
    behind: Seq<char>,
    below: Seq<char>,
)
    requires
        !(lead + word + behind).contains('\n'),
        forall|i: int| 0 <= i < lead.len() ==> is_space(#[trigger] lead[i]),
        forall|i: int| 0 <= i < word.len() ==> !is_space(#[trigger] word[i]),
        forall|i: int| 0 <= i < behind.len() ==> is_space(#[trigger] behind[i]),
    ensures
        !is_ok_response(lead + word + behind),
        !is_ok_response(lead + word + behind + seq!['\n'] + below),
{
    let line = lead + word + behind;
    lemma_first_line_ends_at_line_feed(line, below);
    lemma_space_has_no_words(behind);
    if word.len() > 0 {
        assert(behind.len() > 0 ==> is_space(behind[0]));
        lemma_words_are_split_by_space(lead, word, behind);
    } else {
        assert forall|i: int| 0 <= i < line.len() implies is_space(#[trigger] line[i]) by {
            if i < lead.len() {
                assert(line[i] == lead[i]);
            } else {
                assert(line[i] == behind[i - lead.len()]);
            }
        }
        lemma_space_has_no_words(line);
    }
}

/// The address carries the very port that it is made for: between the loopback
/// host and the closing slash stand decimal digits that denote it, with no zero
/// in front.
pub proof fn lemma_url_carries_its_port(port: u16)
    ensures
        exists|digits: Seq<char>|
            {
                &&& url_of(port) == #[trigger] ("http://127.0.0.1:"@ + digits + "/"@)
                &&& digits.len() > 0
                &&& forall|i: int| 0 <= i < digits.len() ==> '0' <= #[trigger] digits[i] <= '9'
                &&& decimal_value(digits) == port
                &&& digits[0] == '0' ==> digits.len() == 1
            },
{
    let digits = decimal(port as nat);
    lemma_decimal_denotes(port as nat);
    lemma_decimal_has_no_leading_zero(port as nat);
    lemma_digits_count_by_place(digits, '0');
    assert(url_of(port) == "http://127.0.0.1:"@ + digits + "/"@);
}

/// Two different ports have two different addresses.
pub proof fn lemma_urls_tell_ports_apart(p: u16, q: u16)
    requires
        url_of(p) == url_of(q),
    ensures
        p == q,
{
    let head = "http://127.0.0.1:"@.len() as int;
    let foot = "/"@.len() as int;
    let a = decimal(p as nat);
    let b = decimal(q as nat);
    assert(url_of(p).subrange(head, url_of(p).len() - foot) =~= a);
    assert(url_of(q).subrange(head, url_of(q).len() - foot) =~= b);
    lemma_decimal_denotes(p as nat);
    lemma_decimal_denotes(q as nat);
}

/// Each step of the wait, and what its event leads to. The wait polls while
/// less than a minute has passed; a connection is remembered, and followed by
/// the question for health; green ends it at once; otherwise the process is
/// looked at, and a poll follows only while it runs.
pub proof fn lemma_wait_steps(
    wait: HealthWait,
    ms: u64,
    child: ChildState,
    event: HealthEvent,
)
    ensures
        HealthWait::started() == (HealthWait {
            step: HealthStep::ReadClock,
            ever_listened: false,
        }),
        wait.step is ReadClock ==> wait.after(HealthEvent::Elapsed(ms)) == (HealthWait {
            step: if ms < 60000 {
                HealthStep::Connect
            } else if wait.ever_listened {
                HealthStep::Over(HealthOutcome::ListeningButUnhealthy)
            } else {
                HealthStep::Over(HealthOutcome::NoListener)
            },
            ..wait
        }),
        wait.step is Connect ==> wait.after(HealthEvent::Connected(true)) == (HealthWait {
            step: HealthStep::AskHealth,
            ever_listened: true,
        }) && wait.after(HealthEvent::Connected(false)) == (HealthWait {
            step: HealthStep::CheckChild,
            ..wait
        }),
        wait.step is AskHealth ==> wait.after(HealthEvent::Green(true)) == (HealthWait {
            step: HealthStep::Over(HealthOutcome::Healthy),
            ..wait
        }) && wait.after(HealthEvent::Green(false)) == (HealthWait {
            step: HealthStep::CheckChild,
            ..wait
        }),
        wait.step is CheckChild ==> wait.after(HealthEvent::Child(child)) == (HealthWait {
            step: if child is Running {
                HealthStep::Pause
            } else if wait.ever_listened {
                HealthStep::Over(HealthOutcome::ListeningButUnhealthy)
            } else {
                HealthStep::Over(HealthOutcome::NoListener)
            },
            ..wait
        }),
        wait.step is Pause ==> wait.after(HealthEvent::Paused) == (HealthWait {
            step: HealthStep::ReadClock,
            ..wait
        }),
        match wait.step {
            HealthStep::ReadClock => !(event is Elapsed),
            HealthStep::Connect => !(event is Connected),
            HealthStep::AskHealth => !(event is Green),
            HealthStep::CheckChild => !(event is Child),
            HealthStep::Pause => !(event is Paused),
            HealthStep::Over(_) => true,
        } ==> wait.after(event) == wait,
{
}

/// What a poll comes to, from what it meets.
pub proof fn lemma_poll_outcome(poll: Poll)
    ensures
        poll.healthy() <==> poll.elapsed_ms < 60000 && poll.connected && poll.green,
        poll.goes_on() <==> poll.elapsed_ms < 60000 && !(poll.connected && poll.green)
            && poll.child is Running,
{
}

/// How the server is asked, how long it is given, and how often it is asked.
pub proof fn lemma_health_is_polled_for_a_minute()
    ensures
        HEALTH_REQUEST@
            == "GET /api/health HTTP/1.0\r\nHost: 127.0.0.1\r\nConnection: close\r\n\r\n"@,
        STARTUP_TIMEOUT_MS == 60000,
        POLL_INTERVAL_MS == 200,
{
}

} // verus!
