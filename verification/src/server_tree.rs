//! Server-tree staging: extraction to the app data dir, and the choice between
//! a tree that is already there and a fresh one.
use crate::build_meta::TarRun;
use crate::health::{lossy_text, text_from_bytes};
use crate::reply::{chained, outcome, reply_of, told, Reply};
use crate::splash::{STATUS_EXTRACTING, STATUS_REUSING, STATUS_VERIFYING};
use crate::text::{
    is_space, lemma_trim_takes_outer_space, prefixed, same_text, trim, trim_text,
};
use vstd::prelude::*;
use vstd::string::*;
use vstd::utf8::*;

verus! {

/// The file that records which build a server tree is of.
pub const BUILD_MARKER: &'static str = ".build-meta.json";

/// The directory of the server tree in the app data directory.
pub const SERVER_DIR: &'static str = "server";

/// What a failed extraction reports: the exit status of `tar` and, if it wrote
/// any, its own message.
pub open spec fn extraction_failure(status: Seq<char>, stderr: Seq<char>) -> Seq<char> {
    let detail = if trim(stderr).len() == 0 {
        Seq::empty()
    } else {
        ": "@ + trim(stderr)
    };
    "server extraction failed (tar exit: "@ + status + detail + ")"@
}

/// The report of a failed extraction, from the exit status of `tar` and the
/// text that it wrote to standard error.
pub fn extraction_error(status: &str, stderr: &str) -> (r: String)
    ensures
        r@ == extraction_failure(status@, stderr@),
{
    let detail = trim_text(stderr);
    let mut out = "server extraction failed (tar exit: ".to_string();
    out.append(status);
    if !detail.is_empty() {
        let more = prefixed(": ", detail);
        out.append(more.as_str());
    }
    out.append(")");
    assert(out@ =~= extraction_failure(status@, stderr@));
    out
}

/// The outcome of unpacking the server tarball, from the run of `tar` or the
/// reason why it did not run. Failures report the message that `tar` itself
/// wrote instead of a bare exit code.
pub fn extract_tarball(run: Result<TarRun, String>) -> (r: Result<(), String>)
    ensures
        match run {
            Err(e) => r is Err && r->Err_0@ == "failed to run tar for server extraction: "@ + e@,
            Ok(run) => if run.success {
                r is Ok
            } else {
                &&& r is Err
                &&& r->Err_0@ == extraction_failure(run.status@, lossy_text(run.stderr@))
                &&& valid_utf8(run.stderr@) ==> r->Err_0@ == extraction_failure(
                    run.status@,
                    decode_utf8(run.stderr@),
                )
            },
        },
{
    match run {
        Err(e) => Err(prefixed("failed to run tar for server extraction: ", e.as_str())),
        Ok(run) => {
            if run.success {
                Ok(())
            } else {
                let stderr = text_from_bytes(run.stderr.as_slice());
                Err(extraction_error(run.status.as_str(), stderr.as_str()))
            }
        },
    }
}

/// Where a server tree is. Either way its directory is called `SERVER_DIR`.
#[derive(Debug, Clone, Copy, PartialEq, Eq, Structural)]
pub enum ServerHome {
    /// In the source tree of a dev build.
    DevTree,
    /// In the app data directory.
    DataDir,
}

/// A directory, told from a server tree.
#[derive(Debug, Clone, Copy, PartialEq, Eq, Structural)]
pub enum TreeDir {
    /// The tree's own directory.
    Tree,
    /// The directory that holds the tree.
    Holder,
}

/// The directory of the build marker: beside an extracted tree, so that it
/// outlives the tree, and inside a dev tree, where dev builds look for it.
pub open spec fn marker_place(home: ServerHome) -> TreeDir {
    match home {
        ServerHome::DevTree => TreeDir::Tree,
        ServerHome::DataDir => TreeDir::Holder,
    }
}

impl ServerHome {
    /// The directory to unpack the tarball to, so that its tree takes the place
    /// of this one: the tarball holds it as a directory called `SERVER_DIR`.
    pub fn unpack_dir(self) -> (r: TreeDir)
        ensures
            r == TreeDir::Holder,
    {
        TreeDir::Holder
    }

    /// The directory of the tree's build marker.
    pub fn marker_dir(self) -> (r: TreeDir)
        ensures
            r == marker_place(self),
    {
        match self {
            ServerHome::DevTree => TreeDir::Tree,
            ServerHome::DataDir => TreeDir::Holder,
        }
    }
}

/// What the staging of a fresh server tree waits for.
#[derive(Debug, Clone, Copy, PartialEq, Eq, Structural)]
pub enum StageStep {
    /// Create the directory to unpack to (`Done` or `Failed`).
    CreateDataDir,
    /// Tell whether there is a previous tree at `home` (`Answer`).
    LookForServer,
    /// Remove the previous tree at `home` (`Done` or `Failed`).
    RemoveServer,
    /// Unpack the tarball to the `unpack_dir` of `home` (`Done` or `Failed`).
    Extract,
    /// Check that the tree at `home` can boot (`Done` or `Failed`).
    Verify,
    /// Record `meta` in the build marker, in the `marker_dir` of `home` (`Done`
    /// or `Failed`).
    WriteMarker,
    /// Over: the tree is staged.
    Staged,
    /// Over: it is not, for the reason in `error`.
    Failed,
}

/// The staging of a fresh server tree: clear any previous one, so that stale
/// files cannot shadow the new build; extract; verify; and only then record
/// the marker. Used for first launch, updates, and repair.
#[derive(Debug, PartialEq, Eq)]
pub struct StageRun<T> {
    pub step: StageStep,
    /// Where the tree is staged.
    pub home: ServerHome,
    /// The path of the server directory.
    pub server_dir: T,
    /// The build meta of the bundled server.
    pub meta: T,
    /// Why the tree is not staged.
    pub error: T,
}

impl View for StageRun<String> {
    type V = StageRun<Seq<char>>;

    open spec fn view(&self) -> StageRun<Seq<char>> {
        StageRun {
            step: self.step,
            home: self.home,
            server_dir: self.server_dir@,
            meta: self.meta@,
            error: self.error@,
        }
    }
}

/// The stage that the splash shows while a step of the staging runs.
pub open spec fn stage_status(step: StageStep) -> Option<Seq<char>> {
    match step {
        StageStep::Verify => Some(STATUS_VERIFYING@),
        _ => None,
    }
}

impl StageStep {
    /// The stage to push to the splash before the step, if it has one.
    pub fn status(self) -> (r: Option<&'static str>)
        ensures
            stage_status(self) == (match r {
                Some(key) => Some(key@),
                None => None,
            }),
    {
        match self {
            StageStep::Verify => Some(STATUS_VERIFYING),
            _ => None,
        }
    }
}

impl StageRun<Seq<char>> {
    /// A staging that has not done anything yet.
    pub open spec fn started(home: ServerHome, server_dir: Seq<char>, meta: Seq<char>) -> Self {
        StageRun { step: StageStep::CreateDataDir, home, server_dir, meta, error: Seq::empty() }
    }

    pub open spec fn at(self, step: StageStep) -> Self {
        StageRun { step, ..self }
    }

    pub open spec fn failing(self, error: Seq<char>) -> Self {
        StageRun { step: StageStep::Failed, error, ..self }
    }

    /// The staging after `reply`. A reply that does not belong to the step
    /// changes nothing.
    pub open spec fn after(self, reply: Reply<Seq<char>>) -> Self {
        match (self.step, reply) {
            (StageStep::CreateDataDir, Reply::Done) => self.at(StageStep::LookForServer),
            (StageStep::CreateDataDir, Reply::Failed(e)) => self.failing(
                "failed to create app data dir: "@ + e,
            ),
            (StageStep::LookForServer, Reply::Answer(there)) => if there {
                self.at(StageStep::RemoveServer)
            } else {
                self.at(StageStep::Extract)
            },
            (StageStep::RemoveServer, Reply::Done) => self.at(StageStep::Extract),
            (StageStep::RemoveServer, Reply::Failed(e)) => self.failing(
                "failed to clear previous server at "@ + self.server_dir
                    + " (is another instance running?): "@ + e,
            ),
            (StageStep::Extract, Reply::Done) => self.at(StageStep::Verify),
            (StageStep::Extract, Reply::Failed(e)) => self.failing(e),
            (StageStep::Verify, Reply::Done) => self.at(StageStep::WriteMarker),
            (StageStep::Verify, Reply::Failed(e)) => self.failing(e),
            (StageStep::WriteMarker, Reply::Done) => self.at(StageStep::Staged),
            (StageStep::WriteMarker, Reply::Failed(e)) => self.failing(
                "failed to write build marker: "@ + e,
            ),
            _ => self,
        }
    }

    /// Whether the tree is staged, or why it is not.
    pub open spec fn ended(self) -> Option<Result<(), Seq<char>>> {
        match self.step {
            StageStep::Staged => Some(Ok(())),
            StageStep::Failed => Some(Err(self.error)),
            _ => None,
        }
    }
}

impl StageRun<String> {
    /// Stage the build that `meta` describes at `home`, whose path is
    /// `server_dir`.
    pub fn start(home: ServerHome, server_dir: &str, meta: &str) -> (r: Self)
        ensures
            r@ == StageRun::started(home, server_dir@, meta@),
    {
        StageRun {
            step: StageStep::CreateDataDir,
            home,
            server_dir: server_dir.to_string(),
            meta: meta.to_string(),
            error: String::new(),
        }
    }

    /// Take in how the current step went.
    pub fn answer(self, reply: Reply<String>) -> (r: Self)
        ensures
            r@ == self@.after(reply@),
    {
        let mut next = self;
        match (next.step, reply) {
            (StageStep::CreateDataDir, Reply::Done) => {
                next.step = StageStep::LookForServer;
            },
            (StageStep::CreateDataDir, Reply::Failed(e)) => {
                next.error = prefixed("failed to create app data dir: ", e.as_str());
                next.step = StageStep::Failed;
            },
            (StageStep::LookForServer, Reply::Answer(there)) => {
                next.step = if there {
                    StageStep::RemoveServer
                } else {
                    StageStep::Extract
                };
            },
            (StageStep::RemoveServer, Reply::Done) => {
                next.step = StageStep::Extract;
            },
            (StageStep::RemoveServer, Reply::Failed(e)) => {
                let mut error = prefixed(
                    "failed to clear previous server at ",
                    next.server_dir.as_str(),
                );
                error.append(" (is another instance running?): ");
                error.append(e.as_str());
                next.error = error;
                next.step = StageStep::Failed;
            },
            (StageStep::Extract, Reply::Done) => {
                next.step = StageStep::Verify;
            },
            (StageStep::Extract, Reply::Failed(e)) => {
                next.error = e;
                next.step = StageStep::Failed;
            },
            (StageStep::Verify, Reply::Done) => {
                next.step = StageStep::WriteMarker;
            },
            (StageStep::Verify, Reply::Failed(e)) => {
                next.error = e;
                next.step = StageStep::Failed;
            },
            (StageStep::WriteMarker, Reply::Done) => {
                next.step = StageStep::Staged;
            },
            (StageStep::WriteMarker, Reply::Failed(e)) => {
                next.error = prefixed("failed to write build marker: ", e.as_str());
                next.step = StageStep::Failed;
            },
            _ => {},
        }
        next
    }

    /// Whether the tree is staged, or why it is not; nothing while the staging
    /// is under way.
    pub fn result(&self) -> (r: Option<Result<(), String>>)
        ensures
            outcome(r) == self@.ended(),
    {
        match self.step {
            StageStep::Staged => Some(Ok(())),
            StageStep::Failed => Some(Err(self.error.clone())),
            _ => None,
        }
    }
}

/// What the disk holds of a server tree.
pub struct TreeState {
    pub present: bool,
    /// The tree is fresh from the tarball.
    pub fresh: bool,
    /// What its build marker reads.
    pub marker: Option<Seq<char>>,
}

/// What the disk holds of the two trees that a build can run from.
pub struct TreeDisk {
    pub dev: TreeState,
    pub data: TreeState,
}

impl TreeDisk {
    /// The tree at `home`.
    pub open spec fn at(self, home: ServerHome) -> TreeState {
        match home {
            ServerHome::DevTree => self.dev,
            ServerHome::DataDir => self.data,
        }
    }

    /// The disk with `tree` at `home`.
    pub open spec fn with(self, home: ServerHome, tree: TreeState) -> Self {
        match home {
            ServerHome::DevTree => TreeDisk { dev: tree, ..self },
            ServerHome::DataDir => TreeDisk { data: tree, ..self },
        }
    }

    /// The disk once the step that `stage` is at has been carried out.
    pub open spec fn worked(self, stage: StageRun<Seq<char>>) -> Self {
        let tree = self.at(stage.home);
        match stage.step {
            StageStep::RemoveServer => self.with(
                stage.home,
                TreeState {
                    present: false,
                    fresh: false,
                    marker: if marker_place(stage.home) == TreeDir::Tree {
                        None
                    } else {
                        tree.marker
                    },
                },
            ),
            StageStep::Extract => self.with(
                stage.home,
                TreeState { present: true, fresh: true, ..tree },
            ),
            StageStep::WriteMarker => self.with(
                stage.home,
                TreeState { marker: Some(stage.meta), ..tree },
            ),
            _ => self,
        }
    }
}

/// What a staging meets: how each of its steps goes, and whether there is a
/// previous tree.
pub struct StageWorld {
    pub server_there: bool,
    pub create: Result<(), Seq<char>>,
    pub remove: Result<(), Seq<char>>,
    pub extract: Result<(), Seq<char>>,
    pub verify: Result<(), Seq<char>>,
    pub mark: Result<(), Seq<char>>,
}

impl StageWorld {
    pub open spec fn reply(self, step: StageStep) -> Reply<Seq<char>> {
        match step {
            StageStep::CreateDataDir => reply_of(self.create),
            StageStep::LookForServer => Reply::Answer(self.server_there),
            StageStep::RemoveServer => reply_of(self.remove),
            StageStep::Extract => reply_of(self.extract),
            StageStep::Verify => reply_of(self.verify),
            _ => reply_of(self.mark),
        }
    }

    /// The staging after `n` more replies.
    pub open spec fn run(self, stage: StageRun<Seq<char>>, n: nat) -> StageRun<Seq<char>>
        decreases n,
    {
        if n == 0 {
            stage
        } else {
            self.run(stage.after(self.reply(stage.step)), (n - 1) as nat)
        }
    }

    /// The staging comes to `step` within `n` replies.
    pub open spec fn visits(self, stage: StageRun<Seq<char>>, n: nat, step: StageStep) -> bool
        decreases n,
    {
        stage.step == step || (n > 0 && self.visits(
            stage.after(self.reply(stage.step)),
            (n - 1) as nat,
            step,
        ))
    }

    /// The disk after `n` more replies; a step that fails leaves it alone, as
    /// far as this goes.
    pub open spec fn disk_after(
        self,
        stage: StageRun<Seq<char>>,
        n: nat,
        disk: TreeDisk,
    ) -> TreeDisk
        decreases n,
    {
        if n == 0 {
            disk
        } else {
            let reply = self.reply(stage.step);
            self.disk_after(
                stage.after(reply),
                (n - 1) as nat,
                if reply is Done {
                    disk.worked(stage)
                } else {
                    disk
                },
            )
        }
    }

    /// Nothing stands in the way of extracting over a clean directory.
    pub open spec fn clean(self) -> bool {
        self.create is Ok && (self.server_there ==> self.remove is Ok)
    }

    /// The new tree is in place and can boot.
    pub open spec fn proven(self) -> bool {
        self.clean() && self.extract is Ok && self.verify is Ok
    }

    /// What the staging to the directory `server_dir` comes to: its first
    /// failure, if any.
    pub open spec fn staged(self, server_dir: Seq<char>) -> Result<(), Seq<char>> {
        let cleared = if self.server_there {
            told(
                "failed to clear previous server at "@ + server_dir
                    + " (is another instance running?): "@,
                self.remove,
            )
        } else {
            Ok(())
        };
        chained(
            told("failed to create app data dir: "@, self.create),
            chained(
                cleared,
                chained(
                    self.extract,
                    chained(self.verify, told("failed to write build marker: "@, self.mark)),
                ),
            ),
        )
    }
}

/// A staging is over after six replies. It extracts only over a cleared
/// directory, records the marker only of a tree that was extracted and found
/// bootable, succeeds exactly when all of that and the marker did, and reports
/// its first failure otherwise.
pub proof fn lemma_stage_order(
    world: StageWorld,
    home: ServerHome,
    server_dir: Seq<char>,
    meta: Seq<char>,
)
    ensures
        ({
            let start = StageRun::started(home, server_dir, meta);
            let end = world.run(start, 6);
            &&& end.ended() == Some(world.staged(server_dir))
            &&& world.staged(server_dir) is Ok <==> world.proven() && world.mark is Ok
            &&& end.meta == meta && end.home == home
            &&& world.visits(start, 6, StageStep::RemoveServer) == (world.create is Ok
                && world.server_there)
            &&& world.visits(start, 6, StageStep::Extract) == world.clean()
            &&& world.visits(start, 6, StageStep::Verify) == (world.clean() && world.extract is Ok)
            &&& world.visits(start, 6, StageStep::WriteMarker) == world.proven()
        }),
{
    reveal_with_fuel(StageWorld::run, 7);
    reveal_with_fuel(StageWorld::visits, 7);
}

/// A staging renews the very tree that it is asked to: once it has succeeded,
/// that tree is there, fresh from the tarball, found bootable, and marked as of
/// its build. The other tree is left alone in any case.
pub proof fn lemma_staging_renews_its_tree(
    world: StageWorld,
    home: ServerHome,
    server_dir: Seq<char>,
    meta: Seq<char>,
    disk: TreeDisk,
)
    ensures
        ({
            let after = world.disk_after(StageRun::started(home, server_dir, meta), 6, disk);
            &&& world.staged(server_dir) is Ok ==> {
                &&& after.at(home).present
                &&& after.at(home).fresh
                &&& after.at(home).marker == Some(meta)
                &&& world.verify is Ok
            }
            &&& forall|other: ServerHome| other != home ==> #[trigger] after.at(other) == disk.at(
                other,
            )
        }),
{
    reveal_with_fuel(StageWorld::disk_after, 7);
}

/// What the search for a server tree waits for.
#[derive(Debug, Clone, Copy, PartialEq, Eq, Structural)]
pub enum ServerStep {
    /// Resolve the dev tree (`Text`, the path of its server.js, or `Failed`).
    ResolveDevDir,
    /// Tell whether the dev tree has a build marker (`Answer`).
    DevMetaExists,
    /// Tell whether the dev tree has a server.js (`Answer`).
    DevServerExists,
    /// Check that the dev tree can boot (`Done` or `Failed`).
    VerifyDev,
    /// Resolve the bundled tarball (`Text`, its path, or `Failed`).
    ResolveTarball,
    /// Tell whether the tarball exists (`Answer`).
    TarballExists,
    /// Resolve the app data directory (`Done` or `Failed`).
    ResolveDataDir,
    /// Read the build marker of the extracted tree (`Text` or `Failed`).
    ReadMarker,
    /// Tell whether the extracted tree has a server.js (`Answer`).
    ServerJsExists,
    /// Stage a fresh tree in the app data directory (`Done` or `Failed`).
    Stage,
    /// Check that the extracted tree can still boot (`Done` or `Failed`).
    VerifyReused,
    /// Stage a fresh tree there in place of a damaged one (`Done` or `Failed`).
    Restage,
    /// Over: the tree is here.
    Ready(ServerHome),
    /// Over: there is no tree, for the reason in `error`.
    Failed,
}

/// The search for a server tree: a dev build's own tree if there is one,
/// otherwise the extracted tree, extracted anew on first launch, when the
/// bundled build differs from what is on disk, and when the tree on disk turns
/// out to be damaged.
#[derive(Debug, PartialEq, Eq)]
pub struct EnsureServer<T> {
    pub step: ServerStep,
    /// The build meta of the bundled server.
    pub meta: T,
    /// The path of the dev tree's server.js.
    pub dev_server_js: T,
    /// The path of the tarball.
    pub tarball: T,
    /// Why there is no tree.
    pub error: T,
}

impl View for EnsureServer<String> {
    type V = EnsureServer<Seq<char>>;

    open spec fn view(&self) -> EnsureServer<Seq<char>> {
        EnsureServer {
            step: self.step,
            meta: self.meta@,
            dev_server_js: self.dev_server_js@,
            tarball: self.tarball@,
            error: self.error@,
        }
    }
}

/// The stage that the splash shows while a step of the search runs.
pub open spec fn server_status(step: ServerStep) -> Option<Seq<char>> {
    match step {
        ServerStep::VerifyDev => Some(STATUS_VERIFYING@),
        ServerStep::Stage => Some(STATUS_EXTRACTING@),
        ServerStep::VerifyReused => Some(STATUS_REUSING@),
        ServerStep::Restage => Some(STATUS_EXTRACTING@),
        _ => None,
    }
}

impl ServerStep {
    /// The stage to push to the splash before the step, if it has one.
    pub fn status(self) -> (r: Option<&'static str>)
        ensures
            server_status(self) == (match r {
                Some(key) => Some(key@),
                None => None,
            }),
    {
        match self {
            ServerStep::VerifyDev => Some(STATUS_VERIFYING),
            ServerStep::Stage => Some(STATUS_EXTRACTING),
            ServerStep::VerifyReused => Some(STATUS_REUSING),
            ServerStep::Restage => Some(STATUS_EXTRACTING),
            _ => None,
        }
    }
}

impl EnsureServer<Seq<char>> {
    /// A search that knows nothing but the bundled build.
    pub open spec fn started(meta: Seq<char>) -> Self {
        EnsureServer {
            step: ServerStep::ResolveDevDir,
            meta,
            dev_server_js: Seq::empty(),
            tarball: Seq::empty(),
            error: Seq::empty(),
        }
    }

    pub open spec fn at(self, step: ServerStep) -> Self {
        EnsureServer { step, ..self }
    }

    pub open spec fn failing(self, error: Seq<char>) -> Self {
        EnsureServer { step: ServerStep::Failed, error, ..self }
    }

    /// The step once the build marker reads `marker`.
    pub open spec fn with_marker(self, marker: Seq<char>) -> Self {
        if marker == self.meta {
            self.at(ServerStep::ServerJsExists)
        } else {
            self.at(ServerStep::Stage)
        }
    }

    /// The search after `reply`. A reply that does not belong to the step
    /// changes nothing.
    pub open spec fn after(self, reply: Reply<Seq<char>>) -> Self {
        match (self.step, reply) {
            (ServerStep::ResolveDevDir, Reply::Text(shown)) => EnsureServer {
                step: ServerStep::DevMetaExists,
                dev_server_js: shown,
                ..self
            },
            (ServerStep::ResolveDevDir, Reply::Failed(e)) => self.failing(
                "failed to resolve resources: "@ + e,
            ),
            (ServerStep::DevMetaExists, Reply::Answer(there)) => if there {
                self.at(ServerStep::DevServerExists)
            } else {
                self.at(ServerStep::ResolveTarball)
            },
            (ServerStep::DevServerExists, Reply::Answer(there)) => if there {
                self.at(ServerStep::VerifyDev)
            } else {
                self.at(ServerStep::ResolveTarball)
            },
            (ServerStep::VerifyDev, Reply::Done) => self.at(
                ServerStep::Ready(ServerHome::DevTree),
            ),
            (ServerStep::VerifyDev, Reply::Failed(e)) => self.failing(e),
            (ServerStep::ResolveTarball, Reply::Text(shown)) => EnsureServer {
                step: ServerStep::TarballExists,
                tarball: shown,
                ..self
            },
            (ServerStep::ResolveTarball, Reply::Failed(e)) => self.failing(
                "failed to resolve bundled server.tar.gz: "@ + e,
            ),
            (ServerStep::TarballExists, Reply::Answer(there)) => if there {
                self.at(ServerStep::ResolveDataDir)
            } else {
                self.failing(
                    "bundled server not found (looked for "@ + self.dev_server_js + " and "@
                        + self.tarball + "). Rebuild with: pnpm prepare:server"@,
                )
            },
            (ServerStep::ResolveDataDir, Reply::Done) => self.at(ServerStep::ReadMarker),
            (ServerStep::ResolveDataDir, Reply::Failed(e)) => self.failing(
                "failed to resolve app data dir: "@ + e,
            ),
            (ServerStep::ReadMarker, Reply::Text(marker)) => self.with_marker(marker),
            (ServerStep::ReadMarker, Reply::Failed(_)) => self.with_marker(Seq::empty()),
            (ServerStep::ServerJsExists, Reply::Answer(there)) => if there {
                self.at(ServerStep::VerifyReused)
            } else {
                self.at(ServerStep::Stage)
            },
            (ServerStep::Stage, Reply::Done) => self.at(ServerStep::Ready(ServerHome::DataDir)),
            (ServerStep::Stage, Reply::Failed(e)) => self.failing(e),
            (ServerStep::VerifyReused, Reply::Done) => self.at(
                ServerStep::Ready(ServerHome::DataDir),
            ),
            (ServerStep::VerifyReused, Reply::Failed(_)) => self.at(ServerStep::Restage),
            (ServerStep::Restage, Reply::Done) => self.at(ServerStep::Ready(ServerHome::DataDir)),
            (ServerStep::Restage, Reply::Failed(e)) => self.failing(e),
            _ => self,
        }
    }

    /// Where the tree is, or why there is none.
    pub open spec fn ended(self) -> Option<Result<ServerHome, Seq<char>>> {
        match self.step {
            ServerStep::Ready(home) => Some(Ok(home)),
            ServerStep::Failed => Some(Err(self.error)),
            _ => None,
        }
    }
}

impl EnsureServer<String> {
    /// Search for the tree of the build that `meta` describes.
    pub fn start(meta: &str) -> (r: Self)
        ensures
            r@ == EnsureServer::started(meta@),
    {
        EnsureServer {
            step: ServerStep::ResolveDevDir,
            meta: meta.to_string(),
            dev_server_js: String::new(),
            tarball: String::new(),
            error: String::new(),
        }
    }

    /// Take in how the current step went.
    pub fn answer(self, reply: Reply<String>) -> (r: Self)
        ensures
            r@ == self@.after(reply@),
    {
        let mut next = self;
        match (next.step, reply) {
            (ServerStep::ResolveDevDir, Reply::Text(shown)) => {
                next.dev_server_js = shown;
                next.step = ServerStep::DevMetaExists;
            },
            (ServerStep::ResolveDevDir, Reply::Failed(e)) => {
                next.error = prefixed("failed to resolve resources: ", e.as_str());
                next.step = ServerStep::Failed;
            },
            (ServerStep::DevMetaExists, Reply::Answer(there)) => {
                next.step = if there {
                    ServerStep::DevServerExists
                } else {
                    ServerStep::ResolveTarball
                };
            },
            (ServerStep::DevServerExists, Reply::Answer(there)) => {
                next.step = if there {
                    ServerStep::VerifyDev
                } else {
                    ServerStep::ResolveTarball
                };
            },
            (ServerStep::VerifyDev, Reply::Done) => {
                next.step = ServerStep::Ready(ServerHome::DevTree);
            },
            (ServerStep::VerifyDev, Reply::Failed(e)) => {
                next.error = e;
                next.step = ServerStep::Failed;
            },
            (ServerStep::ResolveTarball, Reply::Text(shown)) => {
                next.tarball = shown;
                next.step = ServerStep::TarballExists;
            },
            (ServerStep::ResolveTarball, Reply::Failed(e)) => {
                next.error = prefixed("failed to resolve bundled server.tar.gz: ", e.as_str());
                next.step = ServerStep::Failed;
            },
            (ServerStep::TarballExists, Reply::Answer(there)) => {
                if there {
                    next.step = ServerStep::ResolveDataDir;
                } else {
                    let mut error = prefixed(
                        "bundled server not found (looked for ",
                        next.dev_server_js.as_str(),
                    );
                    error.append(" and ");
                    error.append(next.tarball.as_str());
                    error.append("). Rebuild with: pnpm prepare:server");
                    next.error = error;
                    next.step = ServerStep::Failed;
                }
            },
            (ServerStep::ResolveDataDir, Reply::Done) => {
                next.step = ServerStep::ReadMarker;
            },
            (ServerStep::ResolveDataDir, Reply::Failed(e)) => {
                next.error = prefixed("failed to resolve app data dir: ", e.as_str());
                next.step = ServerStep::Failed;
            },
            (ServerStep::ReadMarker, Reply::Text(marker)) => {
                next.step = if same_text(marker.as_str(), next.meta.as_str()) {
                    ServerStep::ServerJsExists
                } else {
                    ServerStep::Stage
                };
            },
            (ServerStep::ReadMarker, Reply::Failed(_)) => {
                assert(next.meta@.len() == 0 ==> next.meta@ =~= Seq::empty());
                next.step = if next.meta.as_str().is_empty() {
                    ServerStep::ServerJsExists
                } else {
                    ServerStep::Stage
                };
            },
            (ServerStep::ServerJsExists, Reply::Answer(there)) => {
                next.step = if there {
                    ServerStep::VerifyReused
                } else {
                    ServerStep::Stage
                };
            },
            (ServerStep::VerifyReused, Reply::Failed(_)) => {
                next.step = ServerStep::Restage;
            },
            (ServerStep::Stage, Reply::Done) => {
                next.step = ServerStep::Ready(ServerHome::DataDir);
            },
            (ServerStep::VerifyReused, Reply::Done) => {
                next.step = ServerStep::Ready(ServerHome::DataDir);
            },
            (ServerStep::Restage, Reply::Done) => {
                next.step = ServerStep::Ready(ServerHome::DataDir);
            },
            (ServerStep::Stage, Reply::Failed(e)) => {
                next.error = e;
                next.step = ServerStep::Failed;
            },
            (ServerStep::Restage, Reply::Failed(e)) => {
                next.error = e;
                next.step = ServerStep::Failed;
            },
            _ => {},
        }
        next
    }

    /// Where the tree is, or why there is none; nothing while the search is
    /// under way.
    pub fn result(&self) -> (r: Option<Result<ServerHome, String>>)
        ensures
            outcome(r) == self@.ended(),
    {
        match self.step {
            ServerStep::Ready(home) => Some(Ok(home)),
            ServerStep::Failed => Some(Err(self.error.clone())),
            _ => None,
        }
    }
}

/// What the search meets on a machine.
pub struct ServerWorld {
    /// The path of the dev tree's server.js, if it can be resolved.
    pub dev_server_js: Result<Seq<char>, Seq<char>>,
    /// The dev tree has a build marker.
    pub dev_meta: bool,
    /// The dev tree has a server.js.
    pub dev_server: bool,
    /// The check of the dev tree.
    pub dev_check: Result<(), Seq<char>>,
    /// The path of the bundled tarball, if it can be resolved.
    pub tarball_path: Result<Seq<char>, Seq<char>>,
    /// There is a bundled tarball.
    pub tarball: bool,
    /// The app data directory can be resolved.
    pub data_dir: Result<(), Seq<char>>,
    /// The build marker of the extracted tree, if it can be read.
    pub marker: Option<Seq<char>>,
    /// The extracted tree has a server.js.
    pub server_js: bool,
    /// The check of the extracted tree.
    pub check: Result<(), Seq<char>>,
    /// How the staging of a fresh tree goes.
    pub stage: Result<(), Seq<char>>,
}

/// The reply that names a path.
pub open spec fn path_reply(path: Result<Seq<char>, Seq<char>>) -> Reply<Seq<char>> {
    match path {
        Ok(shown) => Reply::Text(shown),
        Err(e) => Reply::Failed(e),
    }
}

impl ServerWorld {
    pub open spec fn reply(self, step: ServerStep) -> Reply<Seq<char>> {
        match step {
            ServerStep::ResolveDevDir => path_reply(self.dev_server_js),
            ServerStep::DevMetaExists => Reply::Answer(self.dev_meta),
            ServerStep::DevServerExists => Reply::Answer(self.dev_server),
            ServerStep::VerifyDev => reply_of(self.dev_check),
            ServerStep::ResolveTarball => path_reply(self.tarball_path),
            ServerStep::TarballExists => Reply::Answer(self.tarball),
            ServerStep::ResolveDataDir => reply_of(self.data_dir),
            ServerStep::ReadMarker => match self.marker {
                Some(t) => Reply::Text(t),
                None => Reply::Failed(Seq::empty()),
            },
            ServerStep::ServerJsExists => Reply::Answer(self.server_js),
            ServerStep::VerifyReused => reply_of(self.check),
            _ => reply_of(self.stage),
        }
    }

    /// The search after `n` more replies.
    pub open spec fn run(self, search: EnsureServer<Seq<char>>, n: nat) -> EnsureServer<Seq<char>>
        decreases n,
    {
        if n == 0 {
            search
        } else {
            self.run(search.after(self.reply(search.step)), (n - 1) as nat)
        }
    }

    /// How many of the first `n` steps extract the tarball.
    pub open spec fn extractions(self, search: EnsureServer<Seq<char>>, n: nat) -> nat
        decreases n,
    {
        if n == 0 {
            0
        } else {
            (if search.step is Stage || search.step is Restage {
                1nat
            } else {
                0
            }) + self.extractions(search.after(self.reply(search.step)), (n - 1) as nat)
        }
    }

    /// A dev build runs from its own tree.
    pub open spec fn dev(self) -> bool {
        self.dev_meta && self.dev_server
    }

    /// The tree on disk is that of the build `meta`, and can boot.
    pub open spec fn intact(self, meta: Seq<char>) -> bool {
        &&& (self.marker == Some(meta) || (self.marker is None && meta.len() == 0))
        &&& self.server_js
        &&& self.check is Ok
    }

    /// Where the extracted tree is, once the app data directory is known.
    pub open spec fn extracted(self, meta: Seq<char>) -> Result<ServerHome, Seq<char>> {
        if self.intact(meta) || self.stage is Ok {
            Ok(ServerHome::DataDir)
        } else {
            Err(self.stage->Err_0)
        }
    }

    /// Where the tree of a build that is no dev build is.
    pub open spec fn bundled(self, meta: Seq<char>, dev_server_js: Seq<char>) -> Result<
        ServerHome,
        Seq<char>,
    > {
        match self.tarball_path {
            Err(e) => Err("failed to resolve bundled server.tar.gz: "@ + e),
            Ok(path) => if !self.tarball {
                Err(
                    "bundled server not found (looked for "@ + dev_server_js + " and "@ + path
                        + "). Rebuild with: pnpm prepare:server"@,
                )
            } else {
                match self.data_dir {
                    Err(e) => Err("failed to resolve app data dir: "@ + e),
                    Ok(_) => self.extracted(meta),
                }
            },
        }
    }

    /// Where the tree of the build `meta` is on this machine, or why there is
    /// none.
    pub open spec fn found(self, meta: Seq<char>) -> Result<ServerHome, Seq<char>> {
        match self.dev_server_js {
            Err(e) => Err("failed to resolve resources: "@ + e),
            Ok(path) => if self.dev() {
                match self.dev_check {
                    Ok(_) => Ok(ServerHome::DevTree),
                    Err(e) => Err(e),
                }
            } else {
                self.bundled(meta, path)
            },
        }
    }

    /// There is a tarball, and a directory to extract it to.
    pub open spec fn extractable(self) -> bool {
        self.tarball_path is Ok && self.tarball && self.data_dir is Ok
    }

    /// The tarball has to be extracted.
    pub open spec fn extracts(self, meta: Seq<char>) -> bool {
        self.dev_server_js is Ok && !self.dev() && self.extractable() && !self.intact(meta)
    }
}

/// One for `true`, and none for `false`.
pub open spec fn count(b: bool) -> nat {
    if b {
        1
    } else {
        0
    }
}

proof fn lemma_search_over_stays(world: ServerWorld, search: EnsureServer<Seq<char>>, n: nat)
    requires
        search.step is Ready || search.step is Failed,
    ensures
        world.run(search, n) == search,
        world.extractions(search, n) == 0,
    decreases n,
{
    if n > 0 {
        lemma_search_over_stays(world, search, (n - 1) as nat);
    }
}

proof fn lemma_search_from_marker(world: ServerWorld, search: EnsureServer<Seq<char>>, n: nat)
    requires
        search.step is ReadMarker,
        n >= 4,
    ensures
        world.extractions(search, n) == count(!world.intact(search.meta)),
        world.run(search, n).ended() == Some(world.extracted(search.meta)),
{
    let meta = search.meta;
    assert(meta.len() == 0 ==> meta =~= Seq::empty());
    let a = search.after(world.reply(search.step));
    let b = a.after(world.reply(a.step));
    if b.step is Ready || b.step is Failed {
        lemma_search_over_stays(world, b, (n - 2) as nat);
    } else {
        let c = b.after(world.reply(b.step));
        if c.step is Ready || c.step is Failed {
            lemma_search_over_stays(world, c, (n - 3) as nat);
        } else {
            let d = c.after(world.reply(c.step));
            lemma_search_over_stays(world, d, (n - 4) as nat);
        }
    }
    reveal_with_fuel(ServerWorld::run, 5);
    reveal_with_fuel(ServerWorld::extractions, 5);
}

proof fn lemma_search_from_tarball(world: ServerWorld, search: EnsureServer<Seq<char>>, n: nat)
    requires
        search.step is ResolveTarball,
        n >= 7,
    ensures
        world.extractions(search, n) == count(world.extractable() && !world.intact(search.meta)),
        world.run(search, n).ended() == Some(world.bundled(search.meta, search.dev_server_js)),
{
    let a = search.after(world.reply(search.step));
    if a.step is Failed {
        lemma_search_over_stays(world, a, (n - 1) as nat);
    } else {
        let b = a.after(world.reply(a.step));
        if b.step is Failed {
            lemma_search_over_stays(world, b, (n - 2) as nat);
        } else {
            let c = b.after(world.reply(b.step));
            if c.step is Failed {
                lemma_search_over_stays(world, c, (n - 3) as nat);
            } else {
                assert(c.step is ReadMarker && c.meta == search.meta);
                lemma_search_from_marker(world, c, (n - 3) as nat);
            }
        }
    }
    reveal_with_fuel(ServerWorld::run, 4);
    reveal_with_fuel(ServerWorld::extractions, 4);
}

/// Ten replies settle the search. A dev build uses its own tree and never
/// extracts. Otherwise there has to be a tarball, and it is extracted exactly
/// once if the tree on disk is not an intact one of the bundled build, and not
/// at all if it is. The search reports the path that cannot be resolved, the
/// tarball that is missing, or the check of the dev tree or the extraction that
/// failed.
pub proof fn lemma_server_rule(world: ServerWorld, meta: Seq<char>)
    ensures
        world.run(EnsureServer::started(meta), 10).ended() == Some(world.found(meta)),
        world.extractions(EnsureServer::started(meta), 10) == count(world.extracts(meta)),
{
    let a = EnsureServer::started(meta);
    let b = a.after(world.reply(a.step));
    if world.dev_server_js is Err {
        lemma_search_over_stays(world, b, 9);
    } else {
        let c = b.after(world.reply(b.step));
        let d = c.after(world.reply(c.step));
        let e = d.after(world.reply(d.step));
        if !world.dev_meta {
            lemma_search_from_tarball(world, c, 8);
        } else if !world.dev_server {
            lemma_search_from_tarball(world, d, 7);
        } else {
            lemma_search_over_stays(world, e, 6);
        }
    }
    reveal_with_fuel(ServerWorld::run, 5);
    reveal_with_fuel(ServerWorld::extractions, 5);
}

/// No tree is used unchecked: a dev tree only if its check went well, and an
/// extracted one only if its own did, or if the staging that put a fresh one in
/// its place ended with such a check.
pub proof fn lemma_ready_tree_is_checked(
    world: ServerWorld,
    stage: StageWorld,
    server_dir: Seq<char>,
    meta: Seq<char>,
)
    requires
        world.stage == stage.staged(server_dir),
    ensures
        match world.found(meta) {
            Ok(ServerHome::DevTree) => world.dev_check is Ok,
            Ok(ServerHome::DataDir) => if world.extracts(meta) {
                stage.verify is Ok
            } else {
                world.check is Ok
            },
            Err(_) => true,
        },
{
}

/// An update is extracted once: where a staging recorded its build, the next
/// launch of that build finds the marker it wrote and, with the tree still
/// sound, reuses it.
pub proof fn lemma_staged_tree_is_reused(
    stage: StageWorld,
    server_dir: Seq<char>,
    meta: Seq<char>,
    next: ServerWorld,
)
    requires
        stage.run(StageRun::started(ServerHome::DataDir, server_dir, meta), 6).step is Staged,
        next.dev_server_js is Ok,
        !next.dev(),
        next.extractable(),
        next.marker == Some(stage.run(StageRun::started(ServerHome::DataDir, server_dir, meta), 6).meta),
        next.server_js,
        next.check is Ok,
    ensures
        next.run(EnsureServer::started(meta), 10).step == ServerStep::Ready(ServerHome::DataDir),
        next.extractions(EnsureServer::started(meta), 10) == 0,
{
    lemma_stage_order(stage, ServerHome::DataDir, server_dir, meta);
    lemma_server_rule(next, meta);
}

/// A failed extraction reports the exit status of `tar` and, unless it is
/// blank, what `tar` wrote, without the white space around it.
pub proof fn lemma_extraction_report_quotes_tar(
    status: Seq<char>,
    before: Seq<char>,
    body: Seq<char>,
    behind: Seq<char>,
)
    requires
        forall|i: int| 0 <= i < before.len() ==> is_space(#[trigger] before[i]),
        forall|i: int| 0 <= i < behind.len() ==> is_space(#[trigger] behind[i]),
        body.len() > 0 ==> !is_space(body[0]) && !is_space(body.last()),
    ensures
        body.len() == 0 ==> extraction_failure(status, before + body + behind)
            == "server extraction failed (tar exit: "@ + status + ")"@,
        body.len() > 0 ==> extraction_failure(status, before + body + behind)
            == "server extraction failed (tar exit: "@ + status + ": "@ + body + ")"@,
{
    lemma_trim_takes_outer_space(before, body, behind);
    if body.len() == 0 {
        assert(extraction_failure(status, before + body + behind)
            =~= "server extraction failed (tar exit: "@ + status + ")"@);
    } else {
        assert(extraction_failure(status, before + body + behind)
            =~= "server extraction failed (tar exit: "@ + status + ": "@ + body + ")"@);
    }
}

/// Each step of a staging, and what its reply leads to. A failure ends it, and
/// is reported behind the words that belong to its step, or as it came.
pub proof fn lemma_stage_steps(
    run: StageRun<Seq<char>>,
    home: ServerHome,
    dir: Seq<char>,
    meta: Seq<char>,
    e: Seq<char>,
)
    ensures
        StageRun::started(home, dir, meta) == (StageRun {
            step: StageStep::CreateDataDir,
            home,
            server_dir: dir,
            meta,
            error: Seq::<char>::empty(),
        }),
        run.step is CreateDataDir ==> {
            &&& run.after(Reply::Done) == (StageRun { step: StageStep::LookForServer, ..run })
            &&& run.after(Reply::Failed(e)) == (StageRun {
                step: StageStep::Failed,
                error: "failed to create app data dir: "@ + e,
                ..run
            })
        },
        run.step is LookForServer ==> {
            &&& run.after(Reply::Answer(true)) == (StageRun {
                step: StageStep::RemoveServer,
                ..run
            })
            &&& run.after(Reply::Answer(false)) == (StageRun { step: StageStep::Extract, ..run })
        },
        run.step is RemoveServer ==> {
            &&& run.after(Reply::Done) == (StageRun { step: StageStep::Extract, ..run })
            &&& run.after(Reply::Failed(e)) == (StageRun {
                step: StageStep::Failed,
                error: "failed to clear previous server at "@ + run.server_dir
                    + " (is another instance running?): "@ + e,
                ..run
            })
        },
        run.step is Extract ==> {
            &&& run.after(Reply::Done) == (StageRun { step: StageStep::Verify, ..run })
            &&& run.after(Reply::Failed(e)) == (StageRun {
                step: StageStep::Failed,
                error: e,
                ..run
            })
        },
        run.step is Verify ==> {
            &&& run.after(Reply::Done) == (StageRun { step: StageStep::WriteMarker, ..run })
            &&& run.after(Reply::Failed(e)) == (StageRun {
                step: StageStep::Failed,
                error: e,
                ..run
            })
        },
        run.step is WriteMarker ==> {
            &&& run.after(Reply::Done) == (StageRun { step: StageStep::Staged, ..run })
            &&& run.after(Reply::Failed(e)) == (StageRun {
                step: StageStep::Failed,
                error: "failed to write build marker: "@ + e,
                ..run
            })
        },
        run.ended() == (match run.step {
            StageStep::Staged => Some(Ok::<(), Seq<char>>(())),
            StageStep::Failed => Some(Err::<(), Seq<char>>(run.error)),
            _ => None,
        }),
{
}

/// A reply that does not answer the step of a staging changes nothing.
pub proof fn lemma_stage_ignores_other_replies(run: StageRun<Seq<char>>, reply: Reply<Seq<char>>)
    requires
        match run.step {
            StageStep::LookForServer => !(reply is Answer),
            StageStep::Staged => true,
            StageStep::Failed => true,
            _ => !(reply is Done || reply is Failed),
        },
    ensures
        run.after(reply) == run,
{
}

/// Each step of the search for a server tree, and what its reply leads to. A
/// dev tree counts only with its marker and its script; the marker on disk has
/// to read exactly as the build meta, an unreadable one as an empty one; and a
/// tree that is reused is checked, and staged afresh if it is damaged.
pub proof fn lemma_search_steps(
    search: EnsureServer<Seq<char>>,
    meta: Seq<char>,
    text: Seq<char>,
    e: Seq<char>,
)
    ensures
        EnsureServer::started(meta) == (EnsureServer {
            step: ServerStep::ResolveDevDir,
            meta,
            dev_server_js: Seq::<char>::empty(),
            tarball: Seq::<char>::empty(),
            error: Seq::<char>::empty(),
        }),
        search.step is ResolveDevDir ==> {
            &&& search.after(Reply::Text(text)) == (EnsureServer {
                step: ServerStep::DevMetaExists,
                dev_server_js: text,
                ..search
            })
            &&& search.after(Reply::Failed(e)) == (EnsureServer {
                step: ServerStep::Failed,
                error: "failed to resolve resources: "@ + e,
                ..search
            })
        },
        search.step is DevMetaExists ==> {
            &&& search.after(Reply::Answer(true)) == (EnsureServer {
                step: ServerStep::DevServerExists,
                ..search
            })
            &&& search.after(Reply::Answer(false)) == (EnsureServer {
                step: ServerStep::ResolveTarball,
                ..search
            })
        },
        search.step is DevServerExists ==> {
            &&& search.after(Reply::Answer(true)) == (EnsureServer {
                step: ServerStep::VerifyDev,
                ..search
            })
            &&& search.after(Reply::Answer(false)) == (EnsureServer {
                step: ServerStep::ResolveTarball,
                ..search
            })
        },
        search.step is VerifyDev ==> search.after(Reply::Done) == (EnsureServer {
            step: ServerStep::Ready(ServerHome::DevTree),
            ..search
        }),
        search.step is ResolveTarball ==> {
            &&& search.after(Reply::Text(text)) == (EnsureServer {
                step: ServerStep::TarballExists,
                tarball: text,
                ..search
            })
            &&& search.after(Reply::Failed(e)) == (EnsureServer {
                step: ServerStep::Failed,
                error: "failed to resolve bundled server.tar.gz: "@ + e,
                ..search
            })
        },
        search.step is TarballExists ==> {
            &&& search.after(Reply::Answer(true)) == (EnsureServer {
                step: ServerStep::ResolveDataDir,
                ..search
            })
            &&& search.after(Reply::Answer(false)) == (EnsureServer {
                step: ServerStep::Failed,
                error: "bundled server not found (looked for "@ + search.dev_server_js + " and "@
                    + search.tarball + "). Rebuild with: pnpm prepare:server"@,
                ..search
            })
        },
        search.step is ResolveDataDir ==> {
            &&& search.after(Reply::Done) == (EnsureServer {
                step: ServerStep::ReadMarker,
                ..search
            })
            &&& search.after(Reply::Failed(e)) == (EnsureServer {
                step: ServerStep::Failed,
                error: "failed to resolve app data dir: "@ + e,
                ..search
            })
        },
        search.step is ReadMarker ==> {
            &&& search.after(Reply::Text(text)) == (EnsureServer {
                step: if text == search.meta {
                    ServerStep::ServerJsExists
                } else {
                    ServerStep::Stage
                },
                ..search
            })
            &&& search.after(Reply::Failed(e)) == (EnsureServer {
                step: if search.meta.len() == 0 {
                    ServerStep::ServerJsExists
                } else {
                    ServerStep::Stage
                },
                ..search
            })
        },
        search.step is ServerJsExists ==> {
            &&& search.after(Reply::Answer(true)) == (EnsureServer {
                step: ServerStep::VerifyReused,
                ..search
            })
            &&& search.after(Reply::Answer(false)) == (EnsureServer {
                step: ServerStep::Stage,
                ..search
            })
        },
        search.step is VerifyReused ==> {
            &&& search.after(Reply::Done) == (EnsureServer {
                step: ServerStep::Ready(ServerHome::DataDir),
                ..search
            })
            &&& search.after(Reply::Failed(e)) == (EnsureServer {
                step: ServerStep::Restage,
                ..search
            })
        },
        search.step is Stage || search.step is Restage ==> search.after(Reply::Done) == (
        EnsureServer { step: ServerStep::Ready(ServerHome::DataDir), ..search }),
        search.step is VerifyDev || search.step is Stage || search.step is Restage
            ==> search.after(Reply::Failed(e)) == (EnsureServer {
            step: ServerStep::Failed,
            error: e,
            ..search
        }),
        search.ended() == (match search.step {
            ServerStep::Ready(home) => Some(Ok::<ServerHome, Seq<char>>(home)),
            ServerStep::Failed => Some(Err::<ServerHome, Seq<char>>(search.error)),
            _ => None,
        }),
{
    assert(search.meta.len() == 0 ==> search.meta =~= Seq::empty());
}

/// A reply that does not answer the step of a search changes nothing.
pub proof fn lemma_search_ignores_other_replies(
    search: EnsureServer<Seq<char>>,
    reply: Reply<Seq<char>>,
)
    requires
        match search.step {
            ServerStep::ResolveDevDir => !(reply is Text || reply is Failed),
            ServerStep::ResolveTarball => !(reply is Text || reply is Failed),
            ServerStep::ReadMarker => !(reply is Text || reply is Failed),
            ServerStep::DevMetaExists => !(reply is Answer),
            ServerStep::DevServerExists => !(reply is Answer),
            ServerStep::TarballExists => !(reply is Answer),
            ServerStep::ServerJsExists => !(reply is Answer),
            ServerStep::Ready(_) => true,
            ServerStep::Failed => true,
            _ => !(reply is Done || reply is Failed),
        },
    ensures
        search.after(reply) == search,
{
}

/// The stages that the splash is shown: a check of a new or a dev tree as
/// such, an extraction as such, and the check of a reused tree as its reuse.
pub proof fn lemma_tree_work_is_shown(stage: StageStep, step: ServerStep)
    ensures
        stage_status(stage) == (if stage is Verify {
            Some("verifying"@)
        } else {
            None
        }),
        server_status(step) == (if step is VerifyDev {
            Some("verifying"@)
        } else if step is Stage || step is Restage {
            Some("extracting"@)
        } else if step is VerifyReused {
            Some("reusing"@)
        } else {
            None
        }),
{
}

/// The models of a staging and a search hold what these hold.
pub proof fn lemma_tree_models_are_faithful(run: StageRun<String>, search: EnsureServer<String>)
    ensures
        run@.step == run.step,
        run@.home == run.home,
        run@.server_dir == run.server_dir@,
        run@.meta == run.meta@,
        run@.error == run.error@,
        search@.step == search.step,
        search@.meta == search.meta@,
        search@.dev_server_js == search.dev_server_js@,
        search@.tarball == search.tarball@,
        search@.error == search.error@,
{
}

/// The marker of an extracted tree stands beside it, that of a dev tree in it;
/// both go by one name, and so do the trees.
pub proof fn lemma_marker_stands_with_its_tree()
    ensures
        marker_place(ServerHome::DataDir) is Holder,
        marker_place(ServerHome::DevTree) is Tree,
        BUILD_MARKER@ == ".build-meta.json"@,
        SERVER_DIR@ == "server"@,
{
}

} // verus!
