//! Boot flow: make sure that the server tree and the Node sidecar are staged,
//! start the server, wait for it, and open the main window against it. The
//! shell carries out the steps; what comes next is decided here.
use crate::health::{lemma_url_carries_its_port, server_url, url_of};
use crate::log_tail::{format_log_tail, log_report};
use crate::reply::{chained, outcome, reply_of, told, HealthOutcome, Reply};
use crate::server_tree::{
    lemma_staging_renews_its_tree, ServerHome, StageRun, StageWorld, TreeDisk,
};
use crate::splash::{fatal_script, js_literal, STATUS_CHECKING, STATUS_EXTRACTING, STATUS_PROBING};
use crate::text::{
    contains, contains_text, decimal, decimal_text, decimal_value,
    lemma_contains_in_any_surroundings, lemma_contains_is_occurrence, lemma_decimal_denotes,
    lemma_decimal_has_no_leading_zero, lemma_digits_count_by_place, prefixed, same_text,
};
use vstd::prelude::*;
use vstd::string::*;

verus! {

/// How many ports one pass tries.
pub const MAX_PORT_ATTEMPTS: u32 = 5;

/// How many passes there are: the first, and one more.
pub const MAX_PASSES: u32 = 2;

/// Whether destroying the window with this label should tear down the server.
/// Only "main" owns the server lifetime: "splash" closes during the
/// splash -> main handoff while the server must keep running for main.
pub fn owns_server(label: &str) -> (r: bool)
    ensures
        r == (label@ == "main"@),
{
    same_text(label, "main")
}

/// The environment that the server is started with.
pub open spec fn env_of(port: u16) -> Seq<(Seq<char>, Seq<char>)> {
    seq![
        ("PORT"@, decimal(port as nat)),
        ("HOSTNAME"@, "127.0.0.1"@),
        ("NODE_ENV"@, "production"@),
    ]
}

/// The environment to start the server with, so that it listens on the
/// loopback port `port`.
pub fn server_env(port: u16) -> (r: Vec<(String, String)>)
    ensures
        r@.map_values(|var: (String, String)| (var.0@, var.1@)) =~= env_of(port),
{
    vec![
        ("PORT".to_string(), decimal_text(port)),
        ("HOSTNAME".to_string(), "127.0.0.1".to_string()),
        ("NODE_ENV".to_string(), "production".to_string()),
    ]
}

/// The server's log shows that a module is missing.
pub open spec fn module_missing(tail: Seq<char>) -> bool {
    contains(tail, "MODULE_NOT_FOUND"@)
}

/// What is reported of a server that could not be spawned.
pub open spec fn spawn_failure(e: Seq<char>) -> Seq<char> {
    "failed to spawn bundled node (port busy?): "@ + e
}

/// What is reported of a server that never became healthy.
pub open spec fn health_failure(port: u16, no_listener: bool, tail: Seq<char>) -> Seq<char> {
    let what = if no_listener {
        " never accepted connections (it likely crashed on startup)"@
    } else {
        " never became healthy"@
    };
    "server on port "@ + decimal(port as nat) + what + log_report(tail)
}

/// What is reported when every attempt is used up, `last` being the last failure.
pub open spec fn start_failure(last: Seq<char>) -> Seq<char> {
    "could not start the bundled MAIC server after "@ + decimal(MAX_PORT_ATTEMPTS as nat)
        + " attempts. "@ + last
}

/// The report of a server that never became healthy.
pub fn health_error(port: u16, no_listener: bool, tail: &str) -> (r: String)
    ensures
        r@ == health_failure(port, no_listener, tail@),
{
    let mut out = prefixed("server on port ", decimal_text(port).as_str());
    out.append(
        if no_listener {
            " never accepted connections (it likely crashed on startup)"
        } else {
            " never became healthy"
        },
    );
    out.append(format_log_tail(tail).as_str());
    out
}

/// What the start of the server waits for.
#[derive(Debug, Clone, Copy, PartialEq, Eq, Structural)]
pub enum StartStep {
    /// Tell whether the server script is there (`Answer`).
    FindServerJs,
    /// Pick the sticky port (`Port` or `Failed`).
    PickSticky,
    /// Pick a free port (`Port` or `Failed`).
    PickFree,
    /// Spawn the server of the tree at `home` on `port` (`Done` or `Failed`).
    Spawn,
    /// Wait for the server on `port` to become healthy (`Health`).
    AwaitHealth,
    /// Let the server's output settle, and take its tail (`Text`).
    CollectTail,
    /// Kill the server, as far as that goes (`Done` or `Failed`).
    StopServer,
    /// Resolve the bundled tarball (`Done` or `Failed`).
    HealTarball,
    /// Resolve the app data directory (`Done` or `Failed`).
    HealDataDir,
    /// Stage a fresh tree in place of the one at `home` (`Done` or `Failed`).
    HealStage,
    /// Over: the server is healthy on `port`; record that port, as far as that
    /// goes, so that the next launch reuses it.
    Serving,
    /// Over: there is no server, for the reason in `error`.
    Failed,
}

/// The start of the server. Each pass first tries the sticky port, which keeps
/// the origin — and therefore IndexedDB/localStorage — stable across launches,
/// and falls back to fresh ports.
///
/// Self-heal: a crash whose log shows MODULE_NOT_FOUND means that the staged
/// tree is broken in a way the static checks did not catch. The tree that the
/// server runs from, be it that of a dev build, is then extracted anew exactly
/// once and startup retried.
#[derive(Debug, PartialEq, Eq)]
pub struct StartServer<T> {
    pub step: StartStep,
    /// The tree that the server runs from, and that a repair renews.
    pub home: ServerHome,
    /// The pass, from zero on.
    pub pass: u32,
    /// The attempt of the pass, from zero on.
    pub tries: u32,
    /// The port of the attempt.
    pub port: u16,
    /// Nothing accepted a connection in the attempt.
    pub no_listener: bool,
    /// The server of the attempt crashed in a way that a repair may help.
    pub repair: bool,
    /// The path of the server script.
    pub server_js: T,
    /// The last failure, or why there is no server.
    pub error: T,
}

impl View for StartServer<String> {
    type V = StartServer<Seq<char>>;

    open spec fn view(&self) -> StartServer<Seq<char>> {
        StartServer {
            step: self.step,
            home: self.home,
            pass: self.pass,
            tries: self.tries,
            port: self.port,
            no_listener: self.no_listener,
            repair: self.repair,
            server_js: self.server_js@,
            error: self.error@,
        }
    }
}

impl StartServer<Seq<char>> {
    /// A start that has not tried anything yet.
    pub open spec fn started(home: ServerHome, server_js: Seq<char>) -> Self {
        StartServer {
            step: StartStep::FindServerJs,
            home,
            pass: 0,
            tries: 0,
            port: 0,
            no_listener: false,
            repair: false,
            server_js,
            error: Seq::empty(),
        }
    }

    /// The stage, and the port with it, that the splash shows while the
    /// current step runs.
    pub open spec fn shows(self) -> Option<(Seq<char>, Option<u16>)> {
        match self.step {
            StartStep::Spawn => Some((STATUS_PROBING@, Some(self.port))),
            StartStep::HealStage => Some((STATUS_EXTRACTING@, None)),
            _ => None,
        }
    }

    pub open spec fn at(self, step: StartStep) -> Self {
        StartServer { step, ..self }
    }

    pub open spec fn failing(self, error: Seq<char>) -> Self {
        StartServer { step: StartStep::Failed, error, ..self }
    }

    /// On with the next pass, or over after the last one.
    pub open spec fn next_pass(self, error: Seq<char>) -> Self {
        if self.pass + 1 < MAX_PASSES {
            StartServer {
                step: StartStep::PickSticky,
                pass: (self.pass + 1) as u32,
                tries: 0,
                error,
                ..self
            }
        } else {
            self.failing(start_failure(error))
        }
    }

    /// On with another port, or with the next pass after the last attempt.
    pub open spec fn try_again(self, error: Seq<char>) -> Self {
        if self.tries + 1 < MAX_PORT_ATTEMPTS {
            StartServer {
                step: StartStep::PickFree,
                tries: (self.tries + 1) as u32,
                error,
                ..self
            }
        } else {
            self.next_pass(error)
        }
    }

    /// On with the repair that the failed server calls for, or with another
    /// attempt.
    pub open spec fn stopped(self) -> Self {
        if self.repair {
            self.at(StartStep::HealTarball)
        } else {
            self.try_again(self.error)
        }
    }

    /// A server has been spawned and not been killed.
    pub open spec fn has_server(self) -> bool {
        self.step is AwaitHealth || self.step is CollectTail || self.step is StopServer
            || self.step is Serving
    }

    /// The start after `reply`. A reply that does not belong to the step
    /// changes nothing.
    pub open spec fn after(self, reply: Reply<Seq<char>>) -> Self {
        match (self.step, reply) {
            (StartStep::FindServerJs, Reply::Answer(there)) => if there {
                self.at(StartStep::PickSticky)
            } else {
                self.failing(
                    "server.js missing at "@ + self.server_js
                        + ". Rebuild with: pnpm prepare:server"@,
                )
            },
            (StartStep::PickSticky, Reply::Port(port)) => StartServer {
                step: StartStep::Spawn,
                port,
                ..self
            },
            (StartStep::PickSticky, Reply::Failed(_)) => self.at(StartStep::PickFree),
            (StartStep::PickFree, Reply::Port(port)) => StartServer {
                step: StartStep::Spawn,
                port,
                ..self
            },
            (StartStep::PickFree, Reply::Failed(e)) => self.failing(e),
            (StartStep::Spawn, Reply::Done) => self.at(StartStep::AwaitHealth),
            (StartStep::Spawn, Reply::Failed(e)) => self.try_again(spawn_failure(e)),
            (StartStep::AwaitHealth, Reply::Health(outcome)) => match outcome {
                HealthOutcome::Healthy => self.at(StartStep::Serving),
                _ => StartServer {
                    step: StartStep::CollectTail,
                    no_listener: outcome == HealthOutcome::NoListener,
                    ..self
                },
            },
            (StartStep::CollectTail, Reply::Text(tail)) => StartServer {
                step: StartStep::StopServer,
                repair: module_missing(tail) && self.pass == 0,
                error: health_failure(self.port, self.no_listener, tail),
                ..self
            },
            (StartStep::StopServer, Reply::Done) => self.stopped(),
            (StartStep::StopServer, Reply::Failed(_)) => self.stopped(),
            (StartStep::HealTarball, Reply::Done) => self.at(StartStep::HealDataDir),
            (StartStep::HealTarball, Reply::Failed(e)) => self.failing(
                "failed to resolve resources: "@ + e,
            ),
            (StartStep::HealDataDir, Reply::Done) => self.at(StartStep::HealStage),
            (StartStep::HealDataDir, Reply::Failed(e)) => self.failing(
                "failed to resolve app data dir: "@ + e,
            ),
            (StartStep::HealStage, Reply::Done) => self.next_pass(self.error),
            (StartStep::HealStage, Reply::Failed(e)) => self.failing(e),
            _ => self,
        }
    }

    /// The port that the server is healthy on, or why there is no server.
    pub open spec fn ended(self) -> Option<Result<u16, Seq<char>>> {
        match self.step {
            StartStep::Serving => Some(Ok(self.port)),
            StartStep::Failed => Some(Err(self.error)),
            _ => None,
        }
    }

    /// The start counts its passes and attempts right, and heals only in the
    /// first pass.
    pub open spec fn valid(self) -> bool {
        &&& self.pass < MAX_PASSES
        &&& self.tries < MAX_PORT_ATTEMPTS
        &&& self.step is FindServerJs || self.step is HealTarball || self.step is HealDataDir
            || self.step is HealStage || (self.step is StopServer && self.repair) ==> self.pass == 0
        &&& self.step is FindServerJs || self.step is PickSticky ==> self.tries == 0
    }
}

impl StartServer<String> {
    /// Start the server of the tree at `home`, whose script is `server_js`.
    pub fn start(home: ServerHome, server_js: &str) -> (r: Self)
        ensures
            r@ == StartServer::started(home, server_js@),
            r@.valid(),
    {
        StartServer {
            step: StartStep::FindServerJs,
            home,
            pass: 0,
            tries: 0,
            port: 0,
            no_listener: false,
            repair: false,
            server_js: server_js.to_string(),
            error: String::new(),
        }
    }

    /// The stage to push to the splash before the current step, if it has
    /// one, with its port.
    pub fn status(&self) -> (r: Option<(&'static str, Option<u16>)>)
        ensures
            self@.shows() == (match r {
                Some((key, port)) => Some((key@, port)),
                None => None,
            }),
    {
        match self.step {
            StartStep::Spawn => Some((STATUS_PROBING, Some(self.port))),
            StartStep::HealStage => Some((STATUS_EXTRACTING, None)),
            _ => None,
        }
    }

    fn go(self, step: StartStep) -> (r: Self)
        ensures
            r@ == self@.at(step),
    {
        StartServer { step, ..self }
    }

    fn fail(self, error: String) -> (r: Self)
        ensures
            r@ == self@.failing(error@),
    {
        StartServer { step: StartStep::Failed, error, ..self }
    }

    fn pass_over(self, error: String) -> (r: Self)
        ensures
            r@ == self@.next_pass(error@),
    {
        if self.pass < MAX_PASSES - 1 {
            StartServer {
                step: StartStep::PickSticky,
                pass: self.pass + 1,
                tries: 0,
                error,
                ..self
            }
        } else {
            let mut report = prefixed(
                "could not start the bundled MAIC server after ",
                decimal_text(MAX_PORT_ATTEMPTS as u16).as_str(),
            );
            report.append(" attempts. ");
            report.append(error.as_str());
            self.fail(report)
        }
    }

    fn retry(self, error: String) -> (r: Self)
        ensures
            r@ == self@.try_again(error@),
    {
        if self.tries < MAX_PORT_ATTEMPTS - 1 {
            StartServer { step: StartStep::PickFree, tries: self.tries + 1, error, ..self }
        } else {
            self.pass_over(error)
        }
    }

    fn stop_over(self) -> (r: Self)
        ensures
            r@ == self@.stopped(),
    {
        if self.repair {
            self.go(StartStep::HealTarball)
        } else {
            let error = self.error.clone();
            self.retry(error)
        }
    }

    /// Take in how the current step went.
    pub fn answer(self, reply: Reply<String>) -> (r: Self)
        ensures
            r@ == self@.after(reply@),
            r.home == self.home,
            self@.valid() ==> r@.valid(),
    {
        match (self.step, reply) {
            (StartStep::FindServerJs, Reply::Answer(there)) => if there {
                self.go(StartStep::PickSticky)
            } else {
                let mut error = prefixed("server.js missing at ", self.server_js.as_str());
                error.append(". Rebuild with: pnpm prepare:server");
                self.fail(error)
            },
            (StartStep::PickSticky, Reply::Port(port)) => StartServer {
                step: StartStep::Spawn,
                port,
                ..self
            },
            (StartStep::PickSticky, Reply::Failed(_)) => self.go(StartStep::PickFree),
            (StartStep::PickFree, Reply::Port(port)) => StartServer {
                step: StartStep::Spawn,
                port,
                ..self
            },
            (StartStep::PickFree, Reply::Failed(e)) => self.fail(e),
            (StartStep::Spawn, Reply::Done) => self.go(StartStep::AwaitHealth),
            (StartStep::Spawn, Reply::Failed(e)) => self.retry(
                prefixed("failed to spawn bundled node (port busy?): ", e.as_str()),
            ),
            (StartStep::AwaitHealth, Reply::Health(outcome)) => match outcome {
                HealthOutcome::Healthy => self.go(StartStep::Serving),
                HealthOutcome::NoListener => StartServer {
                    step: StartStep::CollectTail,
                    no_listener: true,
                    ..self
                },
                HealthOutcome::ListeningButUnhealthy => StartServer {
                    step: StartStep::CollectTail,
                    no_listener: false,
                    ..self
                },
            },
            (StartStep::CollectTail, Reply::Text(tail)) => {
                let error = health_error(self.port, self.no_listener, tail.as_str());
                let repair = contains_text(tail.as_str(), "MODULE_NOT_FOUND") && self.pass == 0;
                StartServer { step: StartStep::StopServer, repair, error, ..self }
            },
            (StartStep::StopServer, Reply::Done) => self.stop_over(),
            (StartStep::StopServer, Reply::Failed(_)) => self.stop_over(),
            (StartStep::HealTarball, Reply::Done) => self.go(StartStep::HealDataDir),
            (StartStep::HealTarball, Reply::Failed(e)) => self.fail(
                prefixed("failed to resolve resources: ", e.as_str()),
            ),
            (StartStep::HealDataDir, Reply::Done) => self.go(StartStep::HealStage),
            (StartStep::HealDataDir, Reply::Failed(e)) => self.fail(
                prefixed("failed to resolve app data dir: ", e.as_str()),
            ),
            (StartStep::HealStage, Reply::Done) => {
                let error = self.error.clone();
                self.pass_over(error)
            },
            (StartStep::HealStage, Reply::Failed(e)) => self.fail(e),
            _ => self,
        }
    }

    /// The port that the server is healthy on, or why there is no server;
    /// nothing while the start is under way.
    pub fn result(&self) -> (r: Option<Result<u16, String>>)
        ensures
            outcome(r) == self@.ended(),
    {
        match self.step {
            StartStep::Serving => Some(Ok(self.port)),
            StartStep::Failed => Some(Err(self.error.clone())),
            _ => None,
        }
    }
}

/// `reply` settles a step that is done or failed.
pub open spec fn settles(reply: Reply<Seq<char>>) -> bool {
    reply is Done || reply is Failed
}

/// How many servers a start spawns, or tries to, in a series of replies.
pub open spec fn spawns(start: StartServer<Seq<char>>, replies: Seq<Reply<Seq<char>>>) -> nat
    decreases replies.len(),
{
    if replies.len() == 0 {
        0
    } else {
        (if start.step is Spawn && settles(replies[0]) {
            1nat
        } else {
            0
        }) + spawns(start.after(replies[0]), replies.drop_first())
    }
}

/// How often a start stages a fresh tree in a series of replies.
pub open spec fn heals(start: StartServer<Seq<char>>, replies: Seq<Reply<Seq<char>>>) -> nat
    decreases replies.len(),
{
    if replies.len() == 0 {
        0
    } else {
        (if start.step is HealStage && settles(replies[0]) {
            1nat
        } else {
            0
        }) + heals(start.after(replies[0]), replies.drop_first())
    }
}

/// How many replies that change anything the start can still take.
pub open spec fn replies_left(start: StartServer<Seq<char>>) -> int {
    let rank: int = match start.step {
        StartStep::FindServerJs => 10,
        StartStep::PickSticky => 9,
        StartStep::PickFree => 8,
        StartStep::Spawn => 7,
        StartStep::AwaitHealth => 6,
        StartStep::CollectTail => 5,
        StartStep::StopServer => 4,
        StartStep::HealTarball => 3,
        StartStep::HealDataDir => 2,
        StartStep::HealStage => 1,
        _ => 0,
    };
    if start.step is Serving || start.step is Failed {
        0
    } else {
        (MAX_PASSES - 1 - start.pass) * 50 + (MAX_PORT_ATTEMPTS - 1 - start.tries) * 9 + rank
    }
}

spec fn spawns_left(start: StartServer<Seq<char>>) -> int {
    if start.step is Serving || start.step is Failed {
        0
    } else {
        (MAX_PASSES - 1 - start.pass) * 5 + (MAX_PORT_ATTEMPTS - start.tries) - (if start.step
            is FindServerJs || start.step is PickSticky || start.step is PickFree || start.step
            is Spawn {
            0int
        } else {
            1
        })
    }
}

spec fn heals_left(start: StartServer<Seq<char>>) -> int {
    if start.pass == 0 && !(start.step is Serving || start.step is Failed) {
        1
    } else {
        0
    }
}

/// Every reply keeps the start in order, and brings it nearer to its end if it
/// changes anything at all: no start takes more than a hundred of them.
pub proof fn lemma_start_ends(start: StartServer<Seq<char>>, reply: Reply<Seq<char>>)
    requires
        start.valid(),
    ensures
        start.after(reply).valid(),
        start.after(reply).home == start.home,
        0 <= replies_left(start) <= 100,
        start.after(reply) != start ==> replies_left(start.after(reply)) < replies_left(start),
        replies_left(start) == 0 <==> start.step is Serving || start.step is Failed,
{
}

proof fn lemma_start_budget(start: StartServer<Seq<char>>, replies: Seq<Reply<Seq<char>>>)
    requires
        start.valid(),
    ensures
        spawns(start, replies) <= spawns_left(start),
        heals(start, replies) <= heals_left(start),
    decreases replies.len(),
{
    if replies.len() > 0 {
        let next = start.after(replies[0]);
        lemma_start_ends(start, replies[0]);
        lemma_start_budget(next, replies.drop_first());
    }
}

/// Whatever the machine replies, a start tries a server at most ten times and
/// extracts the tree anew at most once.
pub proof fn lemma_start_is_bounded(
    home: ServerHome,
    server_js: Seq<char>,
    replies: Seq<Reply<Seq<char>>>,
)
    ensures
        spawns(StartServer::started(home, server_js), replies) <= MAX_PASSES * MAX_PORT_ATTEMPTS,
        heals(StartServer::started(home, server_js), replies) <= 1,
{
    lemma_start_budget(StartServer::started(home, server_js), replies);
}

/// The start after a series of replies.
pub open spec fn replied(
    start: StartServer<Seq<char>>,
    replies: Seq<Reply<Seq<char>>>,
) -> StartServer<Seq<char>>
    decreases replies.len(),
{
    if replies.len() == 0 {
        start
    } else {
        replied(start, replies.drop_last()).after(replies.last())
    }
}

/// Every server that a start spawns runs from the tree that it was given, and
/// that very tree, and its script, is what a repair renews.
pub proof fn lemma_repair_renews_the_tree_that_is_run(
    home: ServerHome,
    server_js: Seq<char>,
    replies: Seq<Reply<Seq<char>>>,
)
    ensures
        replied(StartServer::started(home, server_js), replies).home == home,
        replied(StartServer::started(home, server_js), replies).server_js == server_js,
    decreases replies.len(),
{
    if replies.len() > 0 {
        lemma_repair_renews_the_tree_that_is_run(home, server_js, replies.drop_last());
    }
}

/// A start serves on a port only when the server that it spawned there was
/// found healthy.
pub proof fn lemma_serving_is_healthy(start: StartServer<Seq<char>>, reply: Reply<Seq<char>>)
    ensures
        start.after(reply).step is Serving && !(start.step is Serving) ==> {
            &&& start.step is AwaitHealth
            &&& reply == Reply::<Seq<char>>::Health(HealthOutcome::Healthy)
            &&& start.after(reply).port == start.port
        },
        start.after(reply).step is AwaitHealth && !(start.step is AwaitHealth) ==> {
            &&& start.step is Spawn
            &&& reply == Reply::<Seq<char>>::Done
            &&& start.after(reply).port == start.port
        },
{
}

/// A server found unhealthy has its output taken and is killed before anything
/// else is tried: only a healthy server is let be, only the tail of the output
/// leads on to the kill, and only the kill, whether it goes well or not, to the
/// next attempt, a repair, or the end.
pub proof fn lemma_failed_server_is_killed(start: StartServer<Seq<char>>, reply: Reply<Seq<char>>)
    ensures
        start.step is AwaitHealth && start.after(reply) != start ==> if reply == Reply::<
            Seq<char>,
        >::Health(HealthOutcome::Healthy) {
            start.after(reply).step is Serving
        } else {
            start.after(reply).step is CollectTail
        },
        start.step is CollectTail && start.after(reply) != start ==> reply is Text && start.after(
            reply,
        ).step is StopServer,
        start.has_server() && !start.after(reply).has_server() ==> start.step is StopServer
            && settles(reply),
        !start.has_server() && start.after(reply).has_server() ==> start.step is Spawn
            && reply is Done,
{
}

/// How many servers a start has running after a series of replies, or serving:
/// those that it spawned less those that it was told to have killed.
pub open spec fn running(start: StartServer<Seq<char>>, replies: Seq<Reply<Seq<char>>>) -> int
    decreases replies.len(),
{
    if replies.len() == 0 {
        0
    } else {
        let past = replies.drop_last();
        let step = replied(start, past).step;
        running(start, past) + (if step is Spawn && replies.last() is Done {
            1int
        } else if step is StopServer && settles(replies.last()) {
            -1
        } else {
            0
        })
    }
}

/// Whatever the machine replies, a start never leaves a server behind: it has
/// one while it waits for it or serves, and none when it spawns another, repairs
/// the tree, or gives up.
pub proof fn lemma_no_server_is_left_behind(
    home: ServerHome,
    server_js: Seq<char>,
    replies: Seq<Reply<Seq<char>>>,
)
    ensures
        ({
            let start = StartServer::started(home, server_js);
            running(start, replies) == (if replied(start, replies).has_server() {
                1int
            } else {
                0
            })
        }),
    decreases replies.len(),
{
    if replies.len() > 0 {
        lemma_no_server_is_left_behind(home, server_js, replies.drop_last());
    }
}

/// How one attempt to start the server goes.
pub enum Attempt {
    /// The server could not be spawned, for this reason.
    NotSpawned(Seq<char>),
    /// The server became healthy.
    Healthy,
    /// It did not; its output ended like this.
    Unhealthy { no_listener: bool, tail: Seq<char> },
}

/// What the start meets on a machine: per pass the sticky port, per pass and
/// attempt a free port and how the attempt goes, and how the repair of a broken
/// tree goes.
pub struct StartWorld {
    pub server_js: bool,
    pub sticky: spec_fn(int) -> Option<u16>,
    pub fresh: spec_fn(int, int) -> Result<u16, Seq<char>>,
    pub attempt: spec_fn(int, int) -> Attempt,
    /// How the kill of a failed server goes.
    pub kill: spec_fn(int, int) -> Result<(), Seq<char>>,
    /// The bundled tarball can be resolved.
    pub tarball: Result<(), Seq<char>>,
    /// The app data directory can be resolved.
    pub data_dir: Result<(), Seq<char>>,
    /// How the staging of a fresh tree goes.
    pub stage: Result<(), Seq<char>>,
}

impl StartWorld {
    pub open spec fn reply(self, start: StartServer<Seq<char>>) -> Reply<Seq<char>> {
        let pass = start.pass as int;
        let tries = start.tries as int;
        match start.step {
            StartStep::FindServerJs => Reply::Answer(self.server_js),
            StartStep::PickSticky => match (self.sticky)(pass) {
                Some(port) => Reply::Port(port),
                None => Reply::Failed(Seq::empty()),
            },
            StartStep::PickFree => match (self.fresh)(pass, tries) {
                Ok(port) => Reply::Port(port),
                Err(e) => Reply::Failed(e),
            },
            StartStep::Spawn => match (self.attempt)(pass, tries) {
                Attempt::NotSpawned(e) => Reply::Failed(e),
                _ => Reply::Done,
            },
            StartStep::AwaitHealth => match (self.attempt)(pass, tries) {
                Attempt::Unhealthy { no_listener, tail } => Reply::Health(
                    if no_listener {
                        HealthOutcome::NoListener
                    } else {
                        HealthOutcome::ListeningButUnhealthy
                    },
                ),
                _ => Reply::Health(HealthOutcome::Healthy),
            },
            StartStep::CollectTail => match (self.attempt)(pass, tries) {
                Attempt::Unhealthy { no_listener, tail } => Reply::Text(tail),
                _ => Reply::Text(Seq::empty()),
            },
            StartStep::StopServer => reply_of((self.kill)(pass, tries)),
            StartStep::HealTarball => reply_of(self.tarball),
            StartStep::HealDataDir => reply_of(self.data_dir),
            StartStep::HealStage => reply_of(self.stage),
            _ => Reply::Done,
        }
    }

    /// The start after `n` more replies.
    pub open spec fn run(self, start: StartServer<Seq<char>>, n: nat) -> StartServer<Seq<char>>
        decreases n,
    {
        if n == 0 {
            start
        } else {
            self.run(start.after(self.reply(start)), (n - 1) as nat)
        }
    }

    /// The port of an attempt: the sticky one first, if there is one.
    pub open spec fn port_of(self, pass: int, tries: int) -> Result<u16, Seq<char>> {
        if tries == 0 && (self.sticky)(pass) is Some {
            Ok((self.sticky)(pass)->0)
        } else {
            (self.fresh)(pass, tries)
        }
    }

    /// The server of an attempt crashes over a missing module.
    pub open spec fn breaks(self, pass: int, tries: int) -> bool {
        (self.attempt)(pass, tries) is Unhealthy && exists|i: int, j: int|
            0 <= i && j == i + 16 && j <= (self.attempt)(pass, tries)->tail.len()
                && #[trigger] (self.attempt)(pass, tries)->tail.subrange(i, j)
                == "MODULE_NOT_FOUND"@
    }

    /// What the repair of a broken tree comes to.
    pub open spec fn healed(self) -> Result<(), Seq<char>> {
        chained(
            told("failed to resolve resources: "@, self.tarball),
            chained(told("failed to resolve app data dir: "@, self.data_dir), self.stage),
        )
    }

    /// Every attempt gets a port and none finds a healthy server; a repair that
    /// is called for goes well.
    pub open spec fn in_vain(self) -> bool {
        forall|p: int, t: int|
            0 <= p < MAX_PASSES && 0 <= t < MAX_PORT_ATTEMPTS ==> {
                &&& #[trigger] self.port_of(p, t) is Ok
                &&& !((self.attempt)(p, t) is Healthy)
                &&& p == 0 && self.breaks(p, t) ==> self.healed() is Ok
            }
    }

    /// What comes of an attempt that failed for the reason `error`: the next
    /// attempt, then the next pass, then the end.
    pub open spec fn end_after(self, pass: int, tries: int, error: Seq<char>) -> Result<u16, Seq<char>>
        decreases MAX_PASSES - pass, MAX_PORT_ATTEMPTS - tries, 0int,
    {
        if 0 <= tries < MAX_PORT_ATTEMPTS - 1 {
            self.end_from(pass, tries + 1)
        } else if 0 <= pass < MAX_PASSES - 1 {
            self.end_from(pass + 1, 0)
        } else {
            Err(start_failure(error))
        }
    }

    /// What the start comes to from an attempt on: it serves on the port of
    /// the first attempt that finds a healthy server. A port that cannot be
    /// had ends it. In the first pass, a crash over a missing module has the
    /// tree staged afresh, and a new pass begun.
    pub open spec fn end_from(self, pass: int, tries: int) -> Result<u16, Seq<char>>
        decreases MAX_PASSES - pass, MAX_PORT_ATTEMPTS - tries, 1int,
    {
        match self.port_of(pass, tries) {
            Err(e) => Err(e),
            Ok(port) => match (self.attempt)(pass, tries) {
                Attempt::Healthy => Ok(port),
                Attempt::NotSpawned(e) => self.end_after(pass, tries, spawn_failure(e)),
                Attempt::Unhealthy { no_listener, tail } => if module_missing(tail) && pass == 0 {
                    match self.healed() {
                        Ok(_) => self.end_from(1, 0),
                        Err(e) => Err(e),
                    }
                } else {
                    self.end_after(pass, tries, health_failure(port, no_listener, tail))
                },
            },
        }
    }
}

proof fn lemma_start_over_stays(world: StartWorld, start: StartServer<Seq<char>>, n: nat)
    requires
        start.step is Serving || start.step is Failed,
    ensures
        world.run(start, n) == start,
    decreases n,
{
    if n > 0 {
        lemma_start_over_stays(world, start, (n - 1) as nat);
    }
}

/// What the start comes to from the state `start` on.
spec fn end_from_state(world: StartWorld, start: StartServer<Seq<char>>) -> Result<u16, Seq<char>> {
    let pass = start.pass as int;
    let tries = start.tries as int;
    match start.step {
        StartStep::PickSticky => world.end_from(pass, tries),
        StartStep::PickFree => world.end_from(pass, tries),
        StartStep::Spawn => world.end_from(pass, tries),
        StartStep::AwaitHealth => world.end_from(pass, tries),
        StartStep::CollectTail => world.end_from(pass, tries),
        StartStep::StopServer => world.end_from(pass, tries),
        StartStep::Serving => Ok(start.port),
        StartStep::Failed => Err(start.error),
        StartStep::HealTarball => match world.healed() {
            Ok(_) => world.end_from(1, 0),
            Err(e) => Err(e),
        },
        StartStep::HealDataDir => match chained(
            told("failed to resolve app data dir: "@, world.data_dir),
            world.stage,
        ) {
            Ok(_) => world.end_from(1, 0),
            Err(e) => Err(e),
        },
        _ => match world.stage {
            Ok(_) => world.end_from(1, 0),
            Err(e) => Err(e),
        },
    }
}

/// The state fits what the world has replied so far in this attempt.
spec fn fits(world: StartWorld, start: StartServer<Seq<char>>) -> bool {
    let pass = start.pass as int;
    let tries = start.tries as int;
    let attempt = (world.attempt)(pass, tries);
    let has_port = world.port_of(pass, tries) == Ok::<u16, Seq<char>>(start.port);
    match start.step {
        StartStep::FindServerJs => false,
        StartStep::PickFree => tries > 0 || (world.sticky)(pass) is None,
        StartStep::Spawn => has_port,
        StartStep::AwaitHealth => has_port && !(attempt is NotSpawned),
        StartStep::CollectTail => has_port && attempt is Unhealthy && start.no_listener
            == attempt->no_listener,
        StartStep::StopServer => {
            &&& has_port && attempt is Unhealthy
            &&& start.repair == (module_missing(attempt->tail) && pass == 0)
            &&& start.error == health_failure(start.port, attempt->no_listener, attempt->tail)
        },
        _ => true,
    }
}

proof fn lemma_start_runs(world: StartWorld, start: StartServer<Seq<char>>, n: nat)
    requires
        start.valid(),
        fits(world, start),
        n >= replies_left(start),
    ensures
        world.run(start, n).ended() == Some(end_from_state(world, start)),
    decreases replies_left(start),
{
    if start.step is Serving || start.step is Failed {
        lemma_start_over_stays(world, start, n);
    } else {
        let next = start.after(world.reply(start));
        lemma_start_ends(start, world.reply(start));
        lemma_start_runs(world, next, (n - 1) as nat);
        reveal_with_fuel(StartWorld::end_from, 2);
        reveal_with_fuel(StartWorld::end_after, 2);
    }
}

/// A start settles within a hundred replies, and comes to what its attempts
/// come to, taken in order: without the server script it fails at once.
pub proof fn lemma_start_rule(world: StartWorld, home: ServerHome, server_js: Seq<char>)
    ensures
        world.run(StartServer::started(home, server_js), 100).ended() == Some(
            if world.server_js {
                world.end_from(0, 0)
            } else {
                Err(
                    "server.js missing at "@ + server_js + ". Rebuild with: pnpm prepare:server"@,
                )
            },
        ),
{
    let start = StartServer::started(home, server_js);
    let next = start.after(world.reply(start));
    lemma_start_ends(start, world.reply(start));
    if world.server_js {
        lemma_start_runs(world, next, 99);
    } else {
        lemma_start_over_stays(world, next, 99);
    }
}

/// Why an attempt that got the port `port` and did not find a healthy server
/// failed.
pub open spec fn attempt_failure(port: u16, attempt: Attempt) -> Seq<char> {
    match attempt {
        Attempt::NotSpawned(e) => spawn_failure(e),
        Attempt::Unhealthy { no_listener, tail } => health_failure(port, no_listener, tail),
        Attempt::Healthy => Seq::empty(),
    }
}

/// A healthy server on the sticky port is served from that port.
pub proof fn lemma_sticky_port_is_served(world: StartWorld, port: u16)
    requires
        (world.sticky)(0) == Some(port),
        (world.attempt)(0, 0) is Healthy,
    ensures
        world.end_from(0, 0) == Ok::<u16, Seq<char>>(port),
{
}

proof fn lemma_break_is_a_missing_module(world: StartWorld, pass: int, tries: int)
    ensures
        world.breaks(pass, tries) <==> (world.attempt)(pass, tries) is Unhealthy && module_missing(
            (world.attempt)(pass, tries)->tail,
        ),
{
    reveal_strlit("MODULE_NOT_FOUND");
    lemma_contains_is_occurrence((world.attempt)(pass, tries)->tail, "MODULE_NOT_FOUND"@);
}

proof fn lemma_break_is_reached(world: StartWorld, tries: int, broken: int)
    requires
        0 <= tries <= broken < MAX_PORT_ATTEMPTS,
        forall|t: int|
            tries <= t < broken ==> #[trigger] world.port_of(0, t) is Ok && !(
            (world.attempt)(0, t) is Healthy) && !world.breaks(0, t),
    ensures
        world.end_from(0, tries) == world.end_from(0, broken),
    decreases broken - tries,
{
    if tries < broken {
        assert(world.port_of(0, tries) is Ok);
        lemma_break_is_a_missing_module(world, 0, tries);
        lemma_break_is_reached(world, tries + 1, broken);
        reveal_with_fuel(StartWorld::end_from, 2);
        reveal_with_fuel(StartWorld::end_after, 2);
    }
}

/// The first crash over a missing module has the tree staged afresh, and the
/// start begun again from the sticky port; a repair that fails is reported.
pub proof fn lemma_missing_module_heals(world: StartWorld, broken: int)
    requires
        0 <= broken < MAX_PORT_ATTEMPTS,
        forall|t: int|
            0 <= t < broken ==> #[trigger] world.port_of(0, t) is Ok && !(
            (world.attempt)(0, t) is Healthy) && !world.breaks(0, t),
        world.port_of(0, broken) is Ok,
        world.breaks(0, broken),
    ensures
        world.end_from(0, 0) == (match world.healed() {
            Ok(_) => world.end_from(1, 0),
            Err(e) => Err(e),
        }),
{
    lemma_break_is_reached(world, 0, broken);
    lemma_break_is_a_missing_module(world, 0, broken);
}

/// A server that is healthy on the sticky port once the tree has been staged
/// afresh is served from that port.
pub proof fn lemma_healed_server_is_served(world: StartWorld, broken: int, port: u16)
    requires
        0 <= broken < MAX_PORT_ATTEMPTS,
        forall|t: int|
            0 <= t < broken ==> #[trigger] world.port_of(0, t) is Ok && !(
            (world.attempt)(0, t) is Healthy) && !world.breaks(0, t),
        world.port_of(0, broken) is Ok,
        world.breaks(0, broken),
        world.healed() is Ok,
        (world.sticky)(1) == Some(port),
        (world.attempt)(1, 0) is Healthy,
    ensures
        world.end_from(0, 0) == Ok::<u16, Seq<char>>(port),
{
    lemma_missing_module_heals(world, broken);
}

/// After a repair the tree at `home`, which the server runs from, is there,
/// fresh from the tarball and found bootable, and the start begins again.
pub proof fn lemma_healed_start_runs_the_fresh_tree(
    world: StartWorld,
    broken: int,
    stage: StageWorld,
    home: ServerHome,
    server_dir: Seq<char>,
    meta: Seq<char>,
    disk: TreeDisk,
)
    requires
        0 <= broken < MAX_PORT_ATTEMPTS,
        forall|t: int|
            0 <= t < broken ==> #[trigger] world.port_of(0, t) is Ok && !(
            (world.attempt)(0, t) is Healthy) && !world.breaks(0, t),
        world.port_of(0, broken) is Ok,
        world.breaks(0, broken),
        world.healed() is Ok,
        world.stage == stage.staged(server_dir),
    ensures
        ({
            let after = stage.disk_after(
                StageRun::started(home, server_dir, meta),
                6,
                disk,
            ).at(home);
            after.present && after.fresh && stage.verify is Ok
        }),
        world.end_from(0, 0) == world.end_from(1, 0),
{
    lemma_missing_module_heals(world, broken);
    lemma_staging_renews_its_tree(stage, home, server_dir, meta, disk);
}

proof fn lemma_end_of_failed_attempts(world: StartWorld, pass: int, tries: int)
    requires
        0 <= pass < MAX_PASSES,
        0 <= tries < MAX_PORT_ATTEMPTS,
        world.in_vain(),
    ensures
        world.end_from(pass, tries) == Err::<u16, Seq<char>>(
            start_failure(
                attempt_failure(
                    world.port_of(MAX_PASSES - 1, MAX_PORT_ATTEMPTS - 1)->Ok_0,
                    (world.attempt)(MAX_PASSES - 1, MAX_PORT_ATTEMPTS - 1),
                ),
            ),
        ),
    decreases MAX_PASSES - pass, MAX_PORT_ATTEMPTS - tries,
{
    reveal_with_fuel(StartWorld::end_from, 2);
    reveal_with_fuel(StartWorld::end_after, 2);
    assert(world.port_of(pass, tries) is Ok);
    lemma_break_is_a_missing_module(world, pass, tries);
    if pass == 0 && world.breaks(pass, tries) {
        lemma_end_of_failed_attempts(world, 1, 0);
    } else if tries < MAX_PORT_ATTEMPTS - 1 {
        lemma_end_of_failed_attempts(world, pass, tries + 1);
    } else if pass < MAX_PASSES - 1 {
        lemma_end_of_failed_attempts(world, pass + 1, 0);
    }
}

/// When no attempt finds a healthy server, with or without a repair, the report
/// carries the failure of the very last attempt.
pub proof fn lemma_last_failure_is_reported(world: StartWorld)
    requires
        world.in_vain(),
    ensures
        world.end_from(0, 0) == Err::<u16, Seq<char>>(
            start_failure(
                attempt_failure(
                    world.port_of(MAX_PASSES - 1, MAX_PORT_ATTEMPTS - 1)->Ok_0,
                    (world.attempt)(MAX_PASSES - 1, MAX_PORT_ATTEMPTS - 1),
                ),
            ),
        ),
{
    lemma_end_of_failed_attempts(world, 0, 0);
}

/// What the boot waits for.
#[derive(Debug, Clone, Copy, PartialEq, Eq, Structural)]
pub enum BootStep {
    /// Read the build meta of the bundled tarball (`Text` or `Failed`).
    ReadMeta,
    /// Put the server version that `meta` names on record (`Done`).
    Announce,
    /// Make sure of the server tree (`Done` or `Failed`).
    EnsureServer,
    /// Make sure of the sidecar (`Done` or `Failed`).
    EnsureSidecar,
    /// Start the server (`Port`, the one it serves on, or `Failed`).
    StartServer,
    /// Keep hold of the server process, to be killed on exit (`Done`).
    KeepServer,
    /// Parse `url` (`Done` or `Failed`).
    ParseUrl,
    /// Schedule, on the main thread, that the splash closes and the main
    /// window opens at `url` (`Done` or `Failed`).
    ScheduleMain,
    /// Over: the app is up.
    Booted,
    /// Over: it is not, for the reason in `error`.
    Failed,
}

/// The boot: everything between the splash and the main window.
#[derive(Debug, PartialEq, Eq)]
pub struct Boot<T> {
    pub step: BootStep,
    /// The build meta of the bundled server; an empty object if there is none.
    pub meta: T,
    /// The address of the server.
    pub url: T,
    /// Why the app is not up.
    pub error: T,
}

impl View for Boot<String> {
    type V = Boot<Seq<char>>;

    open spec fn view(&self) -> Boot<Seq<char>> {
        Boot { step: self.step, meta: self.meta@, url: self.url@, error: self.error@ }
    }
}

/// The stage that the splash shows while a step of the boot runs.
pub open spec fn boot_status(step: BootStep) -> Option<Seq<char>> {
    match step {
        BootStep::EnsureServer => Some(STATUS_CHECKING@),
        _ => None,
    }
}

impl BootStep {
    /// The stage to push to the splash before the step, if it has one.
    pub fn status(self) -> (r: Option<&'static str>)
        ensures
            boot_status(self) == (match r {
                Some(key) => Some(key@),
                None => None,
            }),
    {
        match self {
            BootStep::EnsureServer => Some(STATUS_CHECKING),
            _ => None,
        }
    }
}

impl Boot<Seq<char>> {
    /// A boot that has not done anything yet.
    pub open spec fn started() -> Self {
        Boot {
            step: BootStep::ReadMeta,
            meta: Seq::empty(),
            url: Seq::empty(),
            error: Seq::empty(),
        }
    }

    pub open spec fn at(self, step: BootStep) -> Self {
        Boot { step, ..self }
    }

    pub open spec fn failing(self, error: Seq<char>) -> Self {
        Boot { step: BootStep::Failed, error, ..self }
    }

    /// The boot after `reply`. A reply that does not belong to the step
    /// changes nothing.
    pub open spec fn after(self, reply: Reply<Seq<char>>) -> Self {
        match (self.step, reply) {
            (BootStep::ReadMeta, Reply::Text(meta)) => Boot {
                step: BootStep::Announce,
                meta,
                ..self
            },
            (BootStep::ReadMeta, Reply::Failed(_)) => Boot {
                step: BootStep::Announce,
                meta: "{}"@,
                ..self
            },
            (BootStep::Announce, Reply::Done) => self.at(BootStep::EnsureServer),
            (BootStep::EnsureServer, Reply::Done) => self.at(BootStep::EnsureSidecar),
            (BootStep::EnsureServer, Reply::Failed(e)) => self.failing(e),
            (BootStep::EnsureSidecar, Reply::Done) => self.at(BootStep::StartServer),
            (BootStep::EnsureSidecar, Reply::Failed(e)) => self.failing(e),
            (BootStep::StartServer, Reply::Port(port)) => Boot {
                step: BootStep::KeepServer,
                url: url_of(port),
                ..self
            },
            (BootStep::StartServer, Reply::Failed(e)) => self.failing(e),
            (BootStep::KeepServer, Reply::Done) => self.at(BootStep::ParseUrl),
            (BootStep::ParseUrl, Reply::Done) => self.at(BootStep::ScheduleMain),
            (BootStep::ParseUrl, Reply::Failed(e)) => self.failing("invalid server url: "@ + e),
            (BootStep::ScheduleMain, Reply::Done) => self.at(BootStep::Booted),
            (BootStep::ScheduleMain, Reply::Failed(e)) => self.failing(
                "failed to schedule main window: "@ + e,
            ),
            _ => self,
        }
    }

    /// Whether the app is up, or why it is not.
    pub open spec fn ended(self) -> Option<Result<(), Seq<char>>> {
        match self.step {
            BootStep::Booted => Some(Ok(())),
            BootStep::Failed => Some(Err(self.error)),
            _ => None,
        }
    }
}

impl Boot<String> {
    /// A boot that has yet to do everything.
    pub fn start() -> (r: Self)
        ensures
            r@ == Boot::started(),
    {
        Boot {
            step: BootStep::ReadMeta,
            meta: String::new(),
            url: String::new(),
            error: String::new(),
        }
    }

    /// Take in how the current step went.
    pub fn answer(self, reply: Reply<String>) -> (r: Self)
        ensures
            r@ == self@.after(reply@),
    {
        let mut next = self;
        match (next.step, reply) {
            (BootStep::ReadMeta, Reply::Text(meta)) => {
                next.meta = meta;
                next.step = BootStep::Announce;
            },
            (BootStep::ReadMeta, Reply::Failed(_)) => {
                next.meta = "{}".to_string();
                next.step = BootStep::Announce;
            },
            (BootStep::Announce, Reply::Done) => {
                next.step = BootStep::EnsureServer;
            },
            (BootStep::EnsureServer, Reply::Done) => {
                next.step = BootStep::EnsureSidecar;
            },
            (BootStep::EnsureServer, Reply::Failed(e)) => {
                next.error = e;
                next.step = BootStep::Failed;
            },
            (BootStep::EnsureSidecar, Reply::Done) => {
                next.step = BootStep::StartServer;
            },
            (BootStep::EnsureSidecar, Reply::Failed(e)) => {
                next.error = e;
                next.step = BootStep::Failed;
            },
            (BootStep::StartServer, Reply::Port(port)) => {
                next.url = server_url(port);
                next.step = BootStep::KeepServer;
            },
            (BootStep::StartServer, Reply::Failed(e)) => {
                next.error = e;
                next.step = BootStep::Failed;
            },
            (BootStep::KeepServer, Reply::Done) => {
                next.step = BootStep::ParseUrl;
            },
            (BootStep::ParseUrl, Reply::Done) => {
                next.step = BootStep::ScheduleMain;
            },
            (BootStep::ParseUrl, Reply::Failed(e)) => {
                next.error = prefixed("invalid server url: ", e.as_str());
                next.step = BootStep::Failed;
            },
            (BootStep::ScheduleMain, Reply::Done) => {
                next.step = BootStep::Booted;
            },
            (BootStep::ScheduleMain, Reply::Failed(e)) => {
                next.error = prefixed("failed to schedule main window: ", e.as_str());
                next.step = BootStep::Failed;
            },
            _ => {},
        }
        next
    }

    /// Whether the app is up, or why it is not; nothing while the boot is
    /// under way.
    pub fn result(&self) -> (r: Option<Result<(), String>>)
        ensures
            outcome(r) == self@.ended(),
    {
        match self.step {
            BootStep::Booted => Some(Ok(())),
            BootStep::Failed => Some(Err(self.error.clone())),
            _ => None,
        }
    }
}

/// What the boot meets.
pub struct BootWorld {
    /// The build meta of the tarball, if it can be read.
    pub meta: Option<Seq<char>>,
    pub server: Result<(), Seq<char>>,
    pub sidecar: Result<(), Seq<char>>,
    pub start: Result<u16, Seq<char>>,
    pub parse: Result<(), Seq<char>>,
    pub schedule: Result<(), Seq<char>>,
}

impl BootWorld {
    pub open spec fn reply(self, step: BootStep) -> Reply<Seq<char>> {
        match step {
            BootStep::ReadMeta => match self.meta {
                Some(meta) => Reply::Text(meta),
                None => Reply::Failed(Seq::empty()),
            },
            BootStep::EnsureServer => reply_of(self.server),
            BootStep::EnsureSidecar => reply_of(self.sidecar),
            BootStep::StartServer => match self.start {
                Ok(port) => Reply::Port(port),
                Err(e) => Reply::Failed(e),
            },
            BootStep::ParseUrl => reply_of(self.parse),
            BootStep::ScheduleMain => reply_of(self.schedule),
            _ => Reply::Done,
        }
    }

    /// The boot after `n` more replies.
    pub open spec fn run(self, boot: Boot<Seq<char>>, n: nat) -> Boot<Seq<char>>
        decreases n,
    {
        if n == 0 {
            boot
        } else {
            self.run(boot.after(self.reply(boot.step)), (n - 1) as nat)
        }
    }

    /// The boot comes to `step` within `n` replies.
    pub open spec fn visits(self, boot: Boot<Seq<char>>, n: nat, step: BootStep) -> bool
        decreases n,
    {
        boot.step == step || (n > 0 && self.visits(
            boot.after(self.reply(boot.step)),
            (n - 1) as nat,
            step,
        ))
    }

    /// What the boot comes to: its first failure, if any.
    pub open spec fn booted(self) -> Result<(), Seq<char>> {
        let served = match self.start {
            Ok(_) => Ok(()),
            Err(e) => Err(e),
        };
        chained(
            self.server,
            chained(
                self.sidecar,
                chained(
                    served,
                    chained(
                        told("invalid server url: "@, self.parse),
                        told("failed to schedule main window: "@, self.schedule),
                    ),
                ),
            ),
        )
    }
}

/// Eight replies settle the boot. The server version is put on record before
/// the first stage is pushed to the splash. The sidecar is staged only once the
/// tree is there, the server started only once both are, and the main window
/// scheduled only once the server is healthy, at the address it serves on. The
/// first failure ends the boot and is what it reports.
pub proof fn lemma_boot_order(world: BootWorld)
    ensures
        ({
            let start = Boot::started();
            let end = world.run(start, 8);
            let staged = world.server is Ok && world.sidecar is Ok;
            let served = staged && world.start is Ok;
            &&& end.ended() == Some(world.booted())
            &&& end.meta == (match world.meta {
                Some(meta) => meta,
                None => "{}"@,
            })
            &&& served ==> end.url == url_of(world.start->Ok_0)
            &&& served ==> end.url == "http://127.0.0.1:"@ + decimal(world.start->Ok_0 as nat)
                + "/"@
            &&& world.run(start, 1).step is Announce && world.run(start, 1).meta == end.meta
            &&& boot_status(start.step) is None && boot_status(BootStep::Announce) is None
            &&& world.visits(start, 8, BootStep::EnsureServer)
            &&& world.visits(start, 8, BootStep::EnsureSidecar) == (world.server is Ok)
            &&& world.visits(start, 8, BootStep::StartServer) == staged
            &&& world.visits(start, 8, BootStep::KeepServer) == served
            &&& world.visits(start, 8, BootStep::ScheduleMain) == (served && world.parse is Ok)
        }),
{
    reveal_with_fuel(BootWorld::run, 9);
    reveal_with_fuel(BootWorld::visits, 9);
}

/// The report when the main window cannot be built.
pub fn main_window_error(e: &str) -> (r: String)
    ensures
        r@ == "failed to create main window: "@ + e@,
{
    prefixed("failed to create main window: ", e)
}

/// How a fatal error is shown.
#[derive(Debug, PartialEq, Eq)]
pub struct FailurePlan {
    /// The script for the splash window, to run before the dialog opens.
    pub script: Option<String>,
    /// Exit once the dialog closes.
    pub exit: bool,
}

/// Show a fatal error inside the splash window when one exists — the message
/// outlives the dialog there — and always show the dialog. Without a splash
/// nothing carries the error, so exit once the dialog closes.
pub fn boot_failed(has_splash: bool, message: &str) -> (r: FailurePlan)
    ensures
        r.exit == !has_splash,
        match r.script {
            Some(script) => has_splash && script@ == "window.__maicFatal && window.__maicFatal("@
                + js_literal(message@) + ")"@,
            None => !has_splash,
        },
{
    if has_splash {
        FailurePlan { script: Some(fatal_script(message)), exit: false }
    } else {
        FailurePlan { script: None, exit: true }
    }
}

/// In the first pass a server that failed leads to a repair exactly when the
/// words MODULE_NOT_FOUND stand in its tail, whatever stands around them; in
/// any later pass it never does. Without a repair the kill of the server leads
/// on to the next attempt.
pub proof fn lemma_repair_follows_a_missing_module(
    start: StartServer<Seq<char>>,
    tail: Seq<char>,
    e: Seq<char>,
)
    requires
        start.step is CollectTail,
    ensures
        ({
            let stopping = start.after(Reply::Text(tail));
            let missing = exists|i: int, j: int|
            0 <= i && j == i + 16 && j <= tail.len() && #[trigger] tail.subrange(i, j)
                == "MODULE_NOT_FOUND"@;
            &&& stopping == (StartServer {
                step: StartStep::StopServer,
                repair: missing && start.pass == 0,
                error: health_failure(start.port, start.no_listener, tail),
                ..start
            })
            &&& missing && start.pass == 0 ==> {
                &&& stopping.after(Reply::Done).step is HealTarball
                &&& stopping.after(Reply::Failed(e)).step is HealTarball
            }
            &&& !missing || start.pass > 0 ==> {
                &&& stopping.after(Reply::Done) == stopping.try_again(stopping.error)
                &&& stopping.after(Reply::Failed(e)) == stopping.try_again(stopping.error)
                &&& start.tries < 4 ==> stopping.after(Reply::Done).step is PickFree
                &&& start.tries < 4 ==> stopping.after(Reply::Failed(e)).step is PickFree
                &&& !(stopping.after(Reply::Done).step is HealTarball)
                &&& !(stopping.after(Reply::Failed(e)).step is HealTarball)
            }
        }),
{
    reveal_strlit("MODULE_NOT_FOUND");
    lemma_contains_is_occurrence(tail, "MODULE_NOT_FOUND"@);
}

/// The words count wherever they stand.
pub proof fn lemma_missing_module_is_seen_anywhere(
    start: StartServer<Seq<char>>,
    a: Seq<char>,
    b: Seq<char>,
)
    requires
        start.step is CollectTail,
        start.pass == 0,
    ensures
        start.after(Reply::Text(a + "MODULE_NOT_FOUND"@ + b)).repair,
{
    lemma_contains_in_any_surroundings(a, "MODULE_NOT_FOUND"@, b);
}

/// A failed attempt leads to a fresh port while less than five have been tried
/// in the pass; then to the next pass, from the sticky port on; and after the
/// second pass to the end, where the failure is reported. All else is kept.
pub proof fn lemma_failed_attempt_leads_on(start: StartServer<Seq<char>>, error: Seq<char>)
    ensures
        start.tries < 4 ==> start.try_again(error) == (StartServer {
            step: StartStep::PickFree,
            tries: (start.tries + 1) as u32,
            error,
            ..start
        }),
        start.tries >= 4 ==> start.try_again(error) == start.next_pass(error),
        start.pass == 0 ==> start.next_pass(error) == (StartServer {
            step: StartStep::PickSticky,
            pass: 1,
            tries: 0,
            error,
            ..start
        }),
        start.pass >= 1 ==> start.next_pass(error) == (StartServer {
            step: StartStep::Failed,
            error: "could not start the bundled MAIC server after "@ + seq!['5'] + " attempts. "@
                + error,
            ..start
        }),
{
    assert(decimal(5) =~= seq!['5']);
}

/// Each other step of the start, and what its reply leads to.
pub proof fn lemma_start_steps(
    start: StartServer<Seq<char>>,
    home: ServerHome,
    server_js: Seq<char>,
    port: u16,
    e: Seq<char>,
)
    ensures
        StartServer::started(home, server_js) == (StartServer {
            step: StartStep::FindServerJs,
            home,
            pass: 0,
            tries: 0,
            port: 0,
            no_listener: false,
            repair: false,
            server_js,
            error: Seq::<char>::empty(),
        }),
        start.step is FindServerJs ==> {
            &&& start.after(Reply::Answer(true)) == (StartServer {
                step: StartStep::PickSticky,
                ..start
            })
            &&& start.after(Reply::Answer(false)) == (StartServer {
                step: StartStep::Failed,
                error: "server.js missing at "@ + start.server_js
                    + ". Rebuild with: pnpm prepare:server"@,
                ..start
            })
        },
        start.step is PickSticky ==> {
            &&& start.after(Reply::Port(port)) == (StartServer {
                step: StartStep::Spawn,
                port,
                ..start
            })
            &&& start.after(Reply::Failed(e)) == (StartServer {
                step: StartStep::PickFree,
                ..start
            })
        },
        start.step is PickFree ==> {
            &&& start.after(Reply::Port(port)) == (StartServer {
                step: StartStep::Spawn,
                port,
                ..start
            })
            &&& start.after(Reply::Failed(e)) == (StartServer {
                step: StartStep::Failed,
                error: e,
                ..start
            })
        },
        start.step is Spawn ==> {
            &&& start.after(Reply::Done) == (StartServer {
                step: StartStep::AwaitHealth,
                ..start
            })
            &&& start.after(Reply::Failed(e)) == start.try_again(
                "failed to spawn bundled node (port busy?): "@ + e,
            )
        },
        start.step is AwaitHealth ==> {
            &&& start.after(Reply::Health(HealthOutcome::Healthy)) == (StartServer {
                step: StartStep::Serving,
                ..start
            })
            &&& start.after(Reply::Health(HealthOutcome::NoListener)) == (StartServer {
                step: StartStep::CollectTail,
                no_listener: true,
                ..start
            })
            &&& start.after(Reply::Health(HealthOutcome::ListeningButUnhealthy)) == (StartServer {
                step: StartStep::CollectTail,
                no_listener: false,
                ..start
            })
        },
        start.step is HealTarball ==> {
            &&& start.after(Reply::Done) == (StartServer {
                step: StartStep::HealDataDir,
                ..start
            })
            &&& start.after(Reply::Failed(e)) == (StartServer {
                step: StartStep::Failed,
                error: "failed to resolve resources: "@ + e,
                ..start
            })
        },
        start.step is HealDataDir ==> {
            &&& start.after(Reply::Done) == (StartServer {
                step: StartStep::HealStage,
                ..start
            })
            &&& start.after(Reply::Failed(e)) == (StartServer {
                step: StartStep::Failed,
                error: "failed to resolve app data dir: "@ + e,
                ..start
            })
        },
        start.step is HealStage ==> {
            &&& start.after(Reply::Done) == start.next_pass(start.error)
            &&& start.after(Reply::Failed(e)) == (StartServer {
                step: StartStep::Failed,
                error: e,
                ..start
            })
        },
        start.ended() == (match start.step {
            StartStep::Serving => Some(Ok::<u16, Seq<char>>(start.port)),
            StartStep::Failed => Some(Err::<u16, Seq<char>>(start.error)),
            _ => None,
        }),
{
}

/// A server that was stopped leads to the repair that it calls for, or to the
/// next attempt, however the kill went.
pub proof fn lemma_stop_leads_on(start: StartServer<Seq<char>>, e: Seq<char>)
    requires
        start.step is StopServer,
    ensures
        start.after(Reply::Done) == start.after(Reply::Failed(e)),
        start.repair ==> start.after(Reply::Done) == (StartServer {
            step: StartStep::HealTarball,
            ..start
        }),
        !start.repair ==> start.after(Reply::Done) == start.try_again(start.error),
{
}

/// A reply that does not answer the step of the start changes nothing.
pub proof fn lemma_start_ignores_other_replies(
    start: StartServer<Seq<char>>,
    reply: Reply<Seq<char>>,
)
    requires
        match start.step {
            StartStep::FindServerJs => !(reply is Answer),
            StartStep::PickSticky => !(reply is Port || reply is Failed),
            StartStep::PickFree => !(reply is Port || reply is Failed),
            StartStep::AwaitHealth => !(reply is Health),
            StartStep::CollectTail => !(reply is Text),
            StartStep::Serving => true,
            StartStep::Failed => true,
            _ => !(reply is Done || reply is Failed),
        },
    ensures
        start.after(reply) == start,
{
}

/// What is reported of a server that failed: its port, whether it ever accepted
/// a connection, and its output.
pub proof fn lemma_failed_server_is_reported(port: u16, tail: Seq<char>)
    ensures
        health_failure(port, true, tail) == "server on port "@ + decimal(port as nat)
            + " never accepted connections (it likely crashed on startup)"@ + log_report(tail),
        health_failure(port, false, tail) == "server on port "@ + decimal(port as nat)
            + " never became healthy"@ + log_report(tail),
{
}

/// The server is told to listen on the very port of the attempt, on the
/// loopback alone.
pub proof fn lemma_server_is_told_its_port(port: u16)
    ensures
        env_of(port).len() == 3,
        env_of(port)[0].0 == "PORT"@,
        env_of(port)[0].1.len() > 0,
        forall|i: int|
            0 <= i < env_of(port)[0].1.len() ==> '0' <= #[trigger] env_of(port)[0].1[i] <= '9',
        decimal_value(env_of(port)[0].1) == port,
        env_of(port)[0].1[0] == '0' ==> port == 0,
        env_of(port)[1] == ("HOSTNAME"@, "127.0.0.1"@),
        env_of(port)[2] == ("NODE_ENV"@, "production"@),
{
    lemma_decimal_denotes(port as nat);
    lemma_decimal_has_no_leading_zero(port as nat);
    lemma_digits_count_by_place(decimal(port as nat), '0');
}

/// The stages that the splash is shown of a start and a boot: each attempt with
/// its port, an extraction, and the check that everything begins with.
pub proof fn lemma_start_is_shown(start: StartServer<Seq<char>>, step: BootStep)
    ensures
        start.shows() == (if start.step is Spawn {
            Some(("probing"@, Some(start.port)))
        } else if start.step is HealStage {
            Some(("extracting"@, None))
        } else {
            None
        }),
        boot_status(step) == (if step is EnsureServer {
            Some("checking"@)
        } else {
            None
        }),
{
}

/// Each step of the boot, and what its reply leads to.
pub proof fn lemma_boot_steps(boot: Boot<Seq<char>>, text: Seq<char>, port: u16, e: Seq<char>)
    ensures
        Boot::started() == (Boot {
            step: BootStep::ReadMeta,
            meta: Seq::<char>::empty(),
            url: Seq::<char>::empty(),
            error: Seq::<char>::empty(),
        }),
        boot.step is ReadMeta ==> {
            &&& boot.after(Reply::Text(text)) == (Boot {
                step: BootStep::Announce,
                meta: text,
                ..boot
            })
            &&& boot.after(Reply::Failed(e)) == (Boot {
                step: BootStep::Announce,
                meta: "{}"@,
                ..boot
            })
        },
        boot.step is Announce ==> {
            &&& boot.after(Reply::Done) == (Boot { step: BootStep::EnsureServer, ..boot })
        },
        boot.step is EnsureServer ==> {
            &&& boot.after(Reply::Done) == (Boot { step: BootStep::EnsureSidecar, ..boot })
            &&& boot.after(Reply::Failed(e)) == (Boot {
                step: BootStep::Failed,
                error: e,
                ..boot
            })
        },
        boot.step is EnsureSidecar ==> {
            &&& boot.after(Reply::Done) == (Boot { step: BootStep::StartServer, ..boot })
            &&& boot.after(Reply::Failed(e)) == (Boot {
                step: BootStep::Failed,
                error: e,
                ..boot
            })
        },
        boot.step is StartServer ==> {
            &&& boot.after(Reply::Port(port)) == (Boot {
                step: BootStep::KeepServer,
                url: "http://127.0.0.1:"@ + decimal(port as nat) + "/"@,
                ..boot
            })
            &&& boot.after(Reply::Failed(e)) == (Boot {
                step: BootStep::Failed,
                error: e,
                ..boot
            })
        },
        boot.step is KeepServer ==> {
            &&& boot.after(Reply::Done) == (Boot { step: BootStep::ParseUrl, ..boot })
        },
        boot.step is ParseUrl ==> {
            &&& boot.after(Reply::Done) == (Boot { step: BootStep::ScheduleMain, ..boot })
            &&& boot.after(Reply::Failed(e)) == (Boot {
                step: BootStep::Failed,
                error: "invalid server url: "@ + e,
                ..boot
            })
        },
        boot.step is ScheduleMain ==> {
            &&& boot.after(Reply::Done) == (Boot { step: BootStep::Booted, ..boot })
            &&& boot.after(Reply::Failed(e)) == (Boot {
                step: BootStep::Failed,
                error: "failed to schedule main window: "@ + e,
                ..boot
            })
        },
        boot.ended() == (match boot.step {
            BootStep::Booted => Some(Ok::<(), Seq<char>>(())),
            BootStep::Failed => Some(Err::<(), Seq<char>>(boot.error)),
            _ => None,
        }),
{
}

/// A reply that does not answer the step of the boot changes nothing.
pub proof fn lemma_boot_ignores_other_replies(boot: Boot<Seq<char>>, reply: Reply<Seq<char>>)
    requires
        match boot.step {
            BootStep::ReadMeta => !(reply is Text || reply is Failed),
            BootStep::StartServer => !(reply is Port || reply is Failed),
            BootStep::Announce => !(reply is Done),
            BootStep::KeepServer => !(reply is Done),
            BootStep::Booted => true,
            BootStep::Failed => true,
            _ => !(reply is Done || reply is Failed),
        },
    ensures
        boot.after(reply) == boot,
{
}

/// The main window opens where the server listens: once a boot is over, its
/// address carries, between the loopback host and the closing slash, decimal
/// digits that denote the port that the start came to.
pub proof fn lemma_window_opens_at_the_served_port(world: BootWorld, port: u16)
    requires
        world.server is Ok,
        world.sidecar is Ok,
        world.start == Ok::<u16, Seq<char>>(port),
    ensures
        exists|digits: Seq<char>|
            {
                &&& world.run(Boot::started(), 8).url == #[trigger] ("http://127.0.0.1:"@ + digits
                    + "/"@)
                &&& digits.len() > 0
                &&& forall|i: int| 0 <= i < digits.len() ==> '0' <= #[trigger] digits[i] <= '9'
                &&& decimal_value(digits) == port
                &&& digits[0] == '0' ==> digits.len() == 1
            },
{
    lemma_boot_order(world);
    lemma_url_carries_its_port(port);
}

/// The models of a start and a boot hold what these hold.
pub proof fn lemma_boot_models_are_faithful(start: StartServer<String>, boot: Boot<String>)
    ensures
        start@.step == start.step,
        start@.home == start.home,
        start@.pass == start.pass,
        start@.tries == start.tries,
        start@.port == start.port,
        start@.no_listener == start.no_listener,
        start@.repair == start.repair,
        start@.server_js == start.server_js@,
        start@.error == start.error@,
        boot@.step == boot.step,
        boot@.meta == boot.meta@,
        boot@.url == boot.url@,
        boot@.error == boot.error@,
{
}

} // verus!
