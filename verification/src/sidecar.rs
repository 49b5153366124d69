//! Node sidecar staging: a copy outside the app bundle, probed, and washed for
//! Gatekeeper/LaunchServices on macOS.
use crate::reply::{chained, outcome, reply_of, told, Reply};
use crate::splash::STATUS_STAGING;
use crate::text::{prefixed, same_text};
use vstd::prelude::*;
use vstd::string::*;

verus! {

/// The platforms that stage the sidecar differently.
#[derive(Debug, Clone, Copy, PartialEq, Eq, Structural)]
pub enum Platform {
    MacOs,
    OtherUnix,
    Windows,
}

/// The directory of the staged sidecar in the app data directory.
pub const SIDECAR_DIR: &'static str = "bin";

/// The file beside the staged sidecar that records which build it is of.
pub const SIDECAR_MARKER: &'static str = ".sidecar-meta.json";

/// The file mode of a staged sidecar on Unix.
pub const SIDECAR_MODE: u32 = 0o755;

/// The name of the sidecar binary, beside the app binary and staged alike.
pub open spec fn name_of_sidecar(platform: Platform) -> Seq<char> {
    match platform {
        Platform::Windows => "openmaic-node.exe"@,
        _ => "openmaic-node"@,
    }
}

/// The name of the sidecar binary: the bundler strips the target triple and
/// places it beside the app binary, and its staged copy keeps the name.
pub fn sidecar_name(platform: Platform) -> (r: &'static str)
    ensures
        r@ == name_of_sidecar(platform),
{
    match platform {
        Platform::Windows => "openmaic-node.exe",
        _ => "openmaic-node",
    }
}

/// The name of the copy that a wash of the staged sidecar goes through.
pub fn wash_name(platform: Platform) -> (r: String)
    ensures
        r@ == name_of_sidecar(platform) + ".stage"@,
{
    prefixed(sidecar_name(platform), ".stage")
}

/// What the staging of the sidecar waits for.
#[derive(Debug, Clone, Copy, PartialEq, Eq, Structural)]
pub enum SidecarStep {
    /// Locate the app binary (`Done` or `Failed`).
    LocateApp,
    /// Name the sidecar beside the app binary (`Text`, its path, or
    /// `Answer(false)` when the app binary has no parent directory).
    FindAppDir,
    /// Tell whether the bundled sidecar is a file (`Answer`).
    BundledIsFile,
    /// Resolve the app data directory (`Done` or `Failed`).
    ResolveDataDir,
    /// Read the sidecar marker (`Text` or `Failed`).
    ReadMarker,
    /// Tell whether there is a staged sidecar (`Answer`).
    StagedExists,
    /// Tell whether the staged sidecar can be executed (`Answer`).
    ProbeStaged,
    /// Remove a staged sidecar that failed its probe, as far as that goes
    /// (`Done` or `Failed`).
    RemoveStaged,
    /// Tell whether there is a staged sidecar still (`Answer`).
    StagedRemains,
    /// Create the directory of the staged sidecar (`Done` or `Failed`).
    CreateBinDir,
    /// Copy the bundled sidecar there (`Done` or `Failed`).
    CopyBundled,
    /// Read the file mode of the copy (`Done` or `Failed`).
    ReadMode,
    /// Set its file mode to `SIDECAR_MODE` (`Done` or `Failed`).
    SetMode,
    /// Copy the copy once more (`Done` or `Failed`).
    WashCopy,
    /// Put that in place of the copy (`Done` or `Failed`).
    WashRename,
    /// Record `meta` in the sidecar marker (`Done` or `Failed`).
    WriteMarker,
    /// Copy the staged sidecar of an earlier launch (`Done` or `Failed`).
    RewashCopy,
    /// Put that in place of the staged sidecar (`Done` or `Failed`).
    RewashRename,
    /// Over: the staged sidecar is to be used.
    Ready,
    /// Over: there is no sidecar, for the reason in `error`.
    Failed,
}

/// The staging of the Node sidecar outside the app bundle. A copy that an
/// earlier launch staged for the same build is probed before it is trusted,
/// and replaced when it cannot be executed; a replacement that fails is an
/// error, so that no server is started with a dead sidecar. On macOS every copy goes through a
/// wash, a copy round-trip that sheds the provenance marker.
#[derive(Debug, PartialEq, Eq)]
pub struct EnsureSidecar<T> {
    pub step: SidecarStep,
    pub platform: Platform,
    /// The fresh copy has been washed.
    pub washed: bool,
    /// The build meta of the bundled server.
    pub meta: T,
    /// The path of the bundled sidecar.
    pub bundled: T,
    /// Why there is no sidecar.
    pub error: T,
}

impl View for EnsureSidecar<String> {
    type V = EnsureSidecar<Seq<char>>;

    open spec fn view(&self) -> EnsureSidecar<Seq<char>> {
        EnsureSidecar {
            step: self.step,
            platform: self.platform,
            washed: self.washed,
            meta: self.meta@,
            bundled: self.bundled@,
            error: self.error@,
        }
    }
}

/// The stage that the splash shows while a step of the staging runs.
pub open spec fn sidecar_status(step: SidecarStep) -> Option<Seq<char>> {
    match step {
        SidecarStep::LocateApp => Some(STATUS_STAGING@),
        _ => None,
    }
}

impl SidecarStep {
    /// The stage to push to the splash before the step, if it has one.
    pub fn status(self) -> (r: Option<&'static str>)
        ensures
            sidecar_status(self) == (match r {
                Some(key) => Some(key@),
                None => None,
            }),
    {
        match self {
            SidecarStep::LocateApp => Some(STATUS_STAGING),
            _ => None,
        }
    }
}

/// What is reported when the bundled sidecar is not where it belongs.
pub open spec fn sidecar_missing(platform: Platform, bundled: Seq<char>) -> Seq<char> {
    "bundled node sidecar not found at "@ + bundled + " (expected \""@ + name_of_sidecar(platform)
        + "\" next to the app binary). Rebuild with: pnpm prepare:server"@
}

impl EnsureSidecar<Seq<char>> {
    /// A staging that knows nothing but the platform and the bundled build.
    pub open spec fn started(platform: Platform, meta: Seq<char>) -> Self {
        EnsureSidecar {
            step: SidecarStep::LocateApp,
            platform,
            washed: false,
            meta,
            bundled: Seq::empty(),
            error: Seq::empty(),
        }
    }

    pub open spec fn at(self, step: SidecarStep) -> Self {
        EnsureSidecar { step, ..self }
    }

    pub open spec fn failing(self, error: Seq<char>) -> Self {
        EnsureSidecar { step: SidecarStep::Failed, error, ..self }
    }

    /// The step once the sidecar marker reads `marker`.
    pub open spec fn with_marker(self, marker: Seq<char>) -> Self {
        if marker == self.meta {
            self.at(SidecarStep::StagedExists)
        } else {
            self.at(SidecarStep::CreateBinDir)
        }
    }

    /// `reply` to a step that can fail: on to `step`, or failed with what
    /// went wrong behind `what`; any other reply changes nothing.
    pub open spec fn onward(self, reply: Reply<Seq<char>>, step: SidecarStep, what: Seq<char>) -> Self {
        match reply {
            Reply::Done => self.at(step),
            Reply::Failed(e) => self.failing(what + e),
            _ => self,
        }
    }

    /// The staging after `reply`. A reply that does not belong to the step
    /// changes nothing.
    pub open spec fn after(self, reply: Reply<Seq<char>>) -> Self {
        match self.step {
            SidecarStep::LocateApp => self.onward(
                reply,
                SidecarStep::FindAppDir,
                "failed to locate app binary: "@,
            ),
            SidecarStep::FindAppDir => match reply {
                Reply::Text(shown) => EnsureSidecar {
                    step: SidecarStep::BundledIsFile,
                    bundled: shown,
                    ..self
                },
                Reply::Answer(false) => self.failing("app binary has no parent dir"@),
                _ => self,
            },
            SidecarStep::BundledIsFile => match reply {
                Reply::Answer(there) => if there {
                    self.at(SidecarStep::ResolveDataDir)
                } else {
                    self.failing(sidecar_missing(self.platform, self.bundled))
                },
                _ => self,
            },
            SidecarStep::ResolveDataDir => self.onward(
                reply,
                SidecarStep::ReadMarker,
                "failed to resolve app data dir: "@,
            ),
            SidecarStep::ReadMarker => match reply {
                Reply::Text(marker) => self.with_marker(marker),
                Reply::Failed(_) => self.with_marker(Seq::empty()),
                _ => self,
            },
            SidecarStep::StagedExists => match reply {
                Reply::Answer(there) => if there {
                    self.at(SidecarStep::ProbeStaged)
                } else {
                    self.at(SidecarStep::StagedRemains)
                },
                _ => self,
            },
            SidecarStep::ProbeStaged => match reply {
                Reply::Answer(usable) => if usable {
                    self.at(SidecarStep::StagedRemains)
                } else {
                    self.at(SidecarStep::RemoveStaged)
                },
                _ => self,
            },
            SidecarStep::RemoveStaged => match reply {
                Reply::Done => self.at(SidecarStep::CreateBinDir),
                Reply::Failed(_) => self.at(SidecarStep::CreateBinDir),
                _ => self,
            },
            SidecarStep::StagedRemains => match reply {
                Reply::Answer(there) => if !there {
                    self.at(SidecarStep::CreateBinDir)
                } else if self.platform == Platform::MacOs {
                    self.at(SidecarStep::RewashCopy)
                } else {
                    self.at(SidecarStep::Ready)
                },
                _ => self,
            },
            SidecarStep::CreateBinDir => self.onward(
                reply,
                SidecarStep::CopyBundled,
                "failed to create bin dir: "@,
            ),
            SidecarStep::CopyBundled => self.onward(
                reply,
                if self.platform == Platform::Windows {
                    SidecarStep::WriteMarker
                } else {
                    SidecarStep::ReadMode
                },
                "failed to stage sidecar: "@,
            ),
            SidecarStep::ReadMode => self.onward(
                reply,
                SidecarStep::SetMode,
                "failed to stat staged sidecar: "@,
            ),
            SidecarStep::SetMode => self.onward(
                reply,
                if self.platform == Platform::MacOs && !self.washed {
                    SidecarStep::WashCopy
                } else {
                    SidecarStep::WriteMarker
                },
                "failed to chmod staged sidecar: "@,
            ),
            SidecarStep::WashCopy => self.onward(
                reply,
                SidecarStep::WashRename,
                "failed to wash staged sidecar: "@,
            ),
            SidecarStep::WashRename => match reply {
                Reply::Done => EnsureSidecar {
                    step: SidecarStep::ReadMode,
                    washed: true,
                    ..self
                },
                Reply::Failed(e) => self.failing("failed to wash staged sidecar: "@ + e),
                _ => self,
            },
            SidecarStep::WriteMarker => self.onward(
                reply,
                SidecarStep::Ready,
                "failed to write sidecar marker: "@,
            ),
            SidecarStep::RewashCopy => match reply {
                Reply::Done => self.at(SidecarStep::RewashRename),
                Reply::Failed(_) => self.at(SidecarStep::Ready),
                _ => self,
            },
            SidecarStep::RewashRename => match reply {
                Reply::Done => self.at(SidecarStep::Ready),
                Reply::Failed(_) => self.at(SidecarStep::Ready),
                _ => self,
            },
            SidecarStep::Ready => self,
            SidecarStep::Failed => self,
        }
    }

    /// Whether the staged sidecar can be used, or why there is none.
    pub open spec fn ended(self) -> Option<Result<(), Seq<char>>> {
        match self.step {
            SidecarStep::Ready => Some(Ok(())),
            SidecarStep::Failed => Some(Err(self.error)),
            _ => None,
        }
    }
}

impl EnsureSidecar<String> {
    /// Stage the sidecar of the build that `meta` describes.
    pub fn start(platform: Platform, meta: &str) -> (r: Self)
        ensures
            r@ == EnsureSidecar::started(platform, meta@),
    {
        EnsureSidecar {
            step: SidecarStep::LocateApp,
            platform,
            washed: false,
            meta: meta.to_string(),
            bundled: String::new(),
            error: String::new(),
        }
    }

    fn fail(self, error: String) -> (r: Self)
        ensures
            r@ == self@.failing(error@),
    {
        EnsureSidecar { step: SidecarStep::Failed, error, ..self }
    }

    fn go_on(self, reply: Reply<String>, step: SidecarStep, what: &str) -> (r: Self)
        ensures
            r@ == self@.onward(reply@, step, what@),
    {
        match reply {
            Reply::Done => EnsureSidecar { step, ..self },
            Reply::Failed(e) => self.fail(prefixed(what, e.as_str())),
            _ => self,
        }
    }

    fn read_marker(self, marker: &str) -> (r: Self)
        ensures
            r@ == self@.with_marker(marker@),
    {
        let step = if same_text(marker, self.meta.as_str()) {
            SidecarStep::StagedExists
        } else {
            SidecarStep::CreateBinDir
        };
        EnsureSidecar { step, ..self }
    }

    /// Take in how the current step went.
    pub fn answer(self, reply: Reply<String>) -> (r: Self)
        ensures
            r@ == self@.after(reply@),
    {
        match self.step {
            SidecarStep::LocateApp => self.go_on(
                reply,
                SidecarStep::FindAppDir,
                "failed to locate app binary: ",
            ),
            SidecarStep::FindAppDir => match reply {
                Reply::Text(shown) => EnsureSidecar {
                    step: SidecarStep::BundledIsFile,
                    bundled: shown,
                    ..self
                },
                Reply::Answer(found) => if found {
                    self
                } else {
                    self.fail("app binary has no parent dir".to_string())
                },
                _ => self,
            },
            SidecarStep::BundledIsFile => match reply {
                Reply::Answer(there) => if there {
                    EnsureSidecar { step: SidecarStep::ResolveDataDir, ..self }
                } else {
                    let mut error = prefixed(
                        "bundled node sidecar not found at ",
                        self.bundled.as_str(),
                    );
                    error.append(" (expected \"");
                    error.append(sidecar_name(self.platform));
                    error.append("\" next to the app binary). Rebuild with: pnpm prepare:server");
                    self.fail(error)
                },
                _ => self,
            },
            SidecarStep::ResolveDataDir => self.go_on(
                reply,
                SidecarStep::ReadMarker,
                "failed to resolve app data dir: ",
            ),
            SidecarStep::ReadMarker => match reply {
                Reply::Text(marker) => self.read_marker(marker.as_str()),
                Reply::Failed(_) => self.read_marker(String::new().as_str()),
                _ => self,
            },
            SidecarStep::StagedExists => match reply {
                Reply::Answer(there) => EnsureSidecar {
                    step: if there {
                        SidecarStep::ProbeStaged
                    } else {
                        SidecarStep::StagedRemains
                    },
                    ..self
                },
                _ => self,
            },
            SidecarStep::ProbeStaged => match reply {
                Reply::Answer(usable) => EnsureSidecar {
                    step: if usable {
                        SidecarStep::StagedRemains
                    } else {
                        SidecarStep::RemoveStaged
                    },
                    ..self
                },
                _ => self,
            },
            SidecarStep::RemoveStaged => match reply {
                Reply::Done => EnsureSidecar { step: SidecarStep::CreateBinDir, ..self },
                Reply::Failed(_) => EnsureSidecar { step: SidecarStep::CreateBinDir, ..self },
                _ => self,
            },
            SidecarStep::StagedRemains => match reply {
                Reply::Answer(there) => {
                    let step = if !there {
                        SidecarStep::CreateBinDir
                    } else {
                        match self.platform {
                            Platform::MacOs => SidecarStep::RewashCopy,
                            _ => SidecarStep::Ready,
                        }
                    };
                    EnsureSidecar { step, ..self }
                },
                _ => self,
            },
            SidecarStep::CreateBinDir => self.go_on(
                reply,
                SidecarStep::CopyBundled,
                "failed to create bin dir: ",
            ),
            SidecarStep::CopyBundled => {
                let step = match self.platform {
                    Platform::Windows => SidecarStep::WriteMarker,
                    _ => SidecarStep::ReadMode,
                };
                self.go_on(reply, step, "failed to stage sidecar: ")
            },
            SidecarStep::ReadMode => self.go_on(
                reply,
                SidecarStep::SetMode,
                "failed to stat staged sidecar: ",
            ),
            SidecarStep::SetMode => {
                let step = match (self.platform, self.washed) {
                    (Platform::MacOs, false) => SidecarStep::WashCopy,
                    _ => SidecarStep::WriteMarker,
                };
                self.go_on(reply, step, "failed to chmod staged sidecar: ")
            },
            SidecarStep::WashCopy => self.go_on(
                reply,
                SidecarStep::WashRename,
                "failed to wash staged sidecar: ",
            ),
            SidecarStep::WashRename => match reply {
                Reply::Done => EnsureSidecar {
                    step: SidecarStep::ReadMode,
                    washed: true,
                    ..self
                },
                Reply::Failed(e) => self.fail(
                    prefixed("failed to wash staged sidecar: ", e.as_str()),
                ),
                _ => self,
            },
            SidecarStep::WriteMarker => self.go_on(
                reply,
                SidecarStep::Ready,
                "failed to write sidecar marker: ",
            ),
            SidecarStep::RewashCopy => match reply {
                Reply::Done => EnsureSidecar { step: SidecarStep::RewashRename, ..self },
                Reply::Failed(_) => EnsureSidecar { step: SidecarStep::Ready, ..self },
                _ => self,
            },
            SidecarStep::RewashRename => match reply {
                Reply::Done => EnsureSidecar { step: SidecarStep::Ready, ..self },
                Reply::Failed(_) => EnsureSidecar { step: SidecarStep::Ready, ..self },
                _ => self,
            },
            SidecarStep::Ready => self,
            SidecarStep::Failed => self,
        }
    }

    /// Whether the staged sidecar can be used, or why there is none; nothing
    /// while the staging is under way.
    pub fn result(&self) -> (r: Option<Result<(), String>>)
        ensures
            outcome(r) == self@.ended(),
    {
        match self.step {
            SidecarStep::Ready => Some(Ok(())),
            SidecarStep::Failed => Some(Err(self.error.clone())),
            _ => None,
        }
    }
}

/// What the staging meets on a machine.
pub struct SidecarWorld {
    /// The app binary can be located.
    pub app: Result<(), Seq<char>>,
    /// The path of the sidecar beside the app binary, if that has a parent
    /// directory.
    pub bundled_path: Option<Seq<char>>,
    /// The bundled sidecar is where it belongs.
    pub bundled: bool,
    /// The app data directory can be resolved.
    pub data_dir: Result<(), Seq<char>>,
    /// The sidecar marker, if it can be read.
    pub marker: Option<Seq<char>>,
    /// There is a staged sidecar.
    pub staged: bool,
    /// The staged sidecar can be executed.
    pub usable: bool,
    /// The staged sidecar can be removed.
    pub removable: bool,
    pub create: Result<(), Seq<char>>,
    pub copy: Result<(), Seq<char>>,
    /// The file mode of the copy can be read: before the wash, and after it.
    pub stat: spec_fn(bool) -> Result<(), Seq<char>>,
    /// The file mode of the copy can be set: before the wash, and after it.
    pub chmod: spec_fn(bool) -> Result<(), Seq<char>>,
    pub wash_copy: Result<(), Seq<char>>,
    pub wash_rename: Result<(), Seq<char>>,
    pub mark: Result<(), Seq<char>>,
}

impl SidecarWorld {
    pub open spec fn reply(self, stage: EnsureSidecar<Seq<char>>) -> Reply<Seq<char>> {
        match stage.step {
            SidecarStep::LocateApp => reply_of(self.app),
            SidecarStep::FindAppDir => match self.bundled_path {
                Some(path) => Reply::Text(path),
                None => Reply::Answer(false),
            },
            SidecarStep::BundledIsFile => Reply::Answer(self.bundled),
            SidecarStep::ResolveDataDir => reply_of(self.data_dir),
            SidecarStep::ReadMarker => match self.marker {
                Some(t) => Reply::Text(t),
                None => Reply::Failed(Seq::empty()),
            },
            SidecarStep::StagedExists => Reply::Answer(self.staged),
            SidecarStep::ProbeStaged => Reply::Answer(self.usable),
            SidecarStep::RemoveStaged => if self.removable {
                Reply::Done
            } else {
                Reply::Failed(Seq::empty())
            },
            SidecarStep::StagedRemains => Reply::Answer(self.remains()),
            SidecarStep::CreateBinDir => reply_of(self.create),
            SidecarStep::CopyBundled => reply_of(self.copy),
            SidecarStep::ReadMode => reply_of((self.stat)(stage.washed)),
            SidecarStep::SetMode => reply_of((self.chmod)(stage.washed)),
            SidecarStep::WashCopy => reply_of(self.wash_copy),
            SidecarStep::WashRename => reply_of(self.wash_rename),
            SidecarStep::WriteMarker => reply_of(self.mark),
            SidecarStep::RewashCopy => reply_of(self.wash_copy),
            SidecarStep::RewashRename => reply_of(self.wash_rename),
            _ => Reply::Done,
        }
    }

    /// The staging after `n` more replies.
    pub open spec fn run(self, stage: EnsureSidecar<Seq<char>>, n: nat) -> EnsureSidecar<Seq<char>>
        decreases n,
    {
        if n == 0 {
            stage
        } else {
            self.run(stage.after(self.reply(stage)), (n - 1) as nat)
        }
    }

    /// The staging comes to `step` within `n` replies.
    pub open spec fn visits(
        self,
        stage: EnsureSidecar<Seq<char>>,
        n: nat,
        step: SidecarStep,
    ) -> bool
        decreases n,
    {
        stage.step == step || (n > 0 && self.visits(
            stage.after(self.reply(stage)),
            (n - 1) as nat,
            step,
        ))
    }

    /// There is a staged sidecar, and it can be executed.
    pub open spec fn remains(self) -> bool {
        self.staged && self.usable
    }

    /// An earlier launch staged a sidecar for the build `meta`, and it is kept.
    pub open spec fn kept(self, meta: Seq<char>) -> bool {
        &&& (self.marker == Some(meta) || (self.marker is None && meta.len() == 0))
        &&& self.remains()
    }

    /// The bundled sidecar is found, and so is the place for its copy.
    pub open spec fn located(self, platform: Platform) -> Result<(), Seq<char>> {
        let bundled = match self.bundled_path {
            Some(path) => if self.bundled {
                Ok(())
            } else {
                Err(sidecar_missing(platform, path))
            },
            None => Err("app binary has no parent dir"@),
        };
        chained(
            told("failed to locate app binary: "@, self.app),
            chained(bundled, told("failed to resolve app data dir: "@, self.data_dir)),
        )
    }

    /// The copy is made executable, before or after its wash.
    pub open spec fn executable(self, washed: bool) -> Result<(), Seq<char>> {
        chained(
            told("failed to stat staged sidecar: "@, (self.stat)(washed)),
            told("failed to chmod staged sidecar: "@, (self.chmod)(washed)),
        )
    }

    /// The copy is washed, and made executable again.
    pub open spec fn washed(self) -> Result<(), Seq<char>> {
        chained(
            told("failed to wash staged sidecar: "@, self.wash_copy),
            chained(
                told("failed to wash staged sidecar: "@, self.wash_rename),
                self.executable(true),
            ),
        )
    }

    /// What making a copy comes to, up to the marker: its first failure, if
    /// any.
    pub open spec fn copied(self, platform: Platform) -> Result<(), Seq<char>> {
        chained(
            told("failed to create bin dir: "@, self.create),
            chained(
                told("failed to stage sidecar: "@, self.copy),
                match platform {
                    Platform::MacOs => chained(self.executable(false), self.washed()),
                    Platform::OtherUnix => self.executable(false),
                    Platform::Windows => Ok(()),
                },
            ),
        )
    }

    /// What a fresh copy comes to, with its marker.
    pub open spec fn fresh(self, platform: Platform) -> Result<(), Seq<char>> {
        chained(self.copied(platform), told("failed to write sidecar marker: "@, self.mark))
    }

    /// What the staging of the sidecar of the build `meta` comes to.
    pub open spec fn ensured(self, platform: Platform, meta: Seq<char>) -> Result<(), Seq<char>> {
        chained(
            self.located(platform),
            if self.kept(meta) {
                Ok(())
            } else {
                self.fresh(platform)
            },
        )
    }
}

proof fn lemma_sidecar_over_stays(
    world: SidecarWorld,
    stage: EnsureSidecar<Seq<char>>,
    n: nat,
    step: SidecarStep,
)
    requires
        stage.step is Ready || stage.step is Failed,
    ensures
        world.run(stage, n) == stage,
        world.visits(stage, n, step) == (stage.step == step),
    decreases n,
{
    if n > 0 {
        lemma_sidecar_over_stays(world, stage, (n - 1) as nat, step);
    }
}

proof fn lemma_sidecar_over(world: SidecarWorld, stage: EnsureSidecar<Seq<char>>, n: nat)
    requires
        stage.step is Ready || stage.step is Failed,
    ensures
        world.run(stage, n) == stage,
        !world.visits(stage, n, SidecarStep::CopyBundled),
        !world.visits(stage, n, SidecarStep::WriteMarker),
{
    lemma_sidecar_over_stays(world, stage, n, SidecarStep::CopyBundled);
    lemma_sidecar_over_stays(world, stage, n, SidecarStep::WriteMarker);
}

proof fn lemma_sidecar_step(world: SidecarWorld, stage: EnsureSidecar<Seq<char>>, n: nat)
    requires
        n > 0,
    ensures
        ({
            let next = stage.after(world.reply(stage));
            let m = (n - 1) as nat;
            &&& world.run(stage, n) == world.run(next, m)
            &&& world.visits(stage, n, SidecarStep::CopyBundled) == (stage.step is CopyBundled
                || world.visits(next, m, SidecarStep::CopyBundled))
            &&& world.visits(stage, n, SidecarStep::WriteMarker) == (stage.step is WriteMarker
                || world.visits(next, m, SidecarStep::WriteMarker))
        }),
{
}

/// How many replies a fresh copy needs at most from here on.
spec fn fresh_left(stage: EnsureSidecar<Seq<char>>) -> nat {
    match stage.step {
        SidecarStep::CreateBinDir => 9,
        SidecarStep::CopyBundled => 8,
        SidecarStep::ReadMode => if stage.washed {
            3
        } else {
            7
        },
        SidecarStep::SetMode => if stage.washed {
            2
        } else {
            6
        },
        SidecarStep::WashCopy => 5,
        SidecarStep::WashRename => 4,
        SidecarStep::WriteMarker => 1,
        _ => 0,
    }
}

/// What the rest of a fresh copy comes to, up to the marker.
spec fn rest_of_copy(world: SidecarWorld, stage: EnsureSidecar<Seq<char>>) -> Result<(), Seq<char>> {
    let wash = if stage.platform == Platform::MacOs && !stage.washed {
        world.washed()
    } else {
        Ok(())
    };
    let chmod = told("failed to chmod staged sidecar: "@, (world.chmod)(stage.washed));
    match stage.step {
        SidecarStep::CreateBinDir => world.copied(stage.platform),
        SidecarStep::CopyBundled => chained(
            told("failed to stage sidecar: "@, world.copy),
            if stage.platform == Platform::Windows {
                Ok(())
            } else {
                chained(world.executable(false), wash)
            },
        ),
        SidecarStep::ReadMode => chained(world.executable(stage.washed), wash),
        SidecarStep::SetMode => chained(chmod, wash),
        SidecarStep::WashCopy => world.washed(),
        SidecarStep::WashRename => chained(
            told("failed to wash staged sidecar: "@, world.wash_rename),
            world.executable(true),
        ),
        _ => Ok(()),
    }
}

proof fn lemma_sidecar_fresh(world: SidecarWorld, stage: EnsureSidecar<Seq<char>>, n: nat)
    requires
        stage.step is CreateBinDir || stage.step is CopyBundled || stage.step is ReadMode
            || stage.step is SetMode || stage.step is WashCopy || stage.step is WashRename
            || stage.step is WriteMarker,
        stage.washed ==> stage.platform == Platform::MacOs,
        stage.step is WashCopy || stage.step is WashRename ==> stage.platform == Platform::MacOs
            && !stage.washed,
        stage.step is CreateBinDir || stage.step is CopyBundled ==> !stage.washed,
        stage.step is ReadMode || stage.step is SetMode ==> stage.platform != Platform::Windows,
        stage.step is WriteMarker ==> (stage.platform == Platform::MacOs ==> stage.washed),
        n >= fresh_left(stage),
    ensures
        world.run(stage, n).ended() == Some(
            chained(
                rest_of_copy(world, stage),
                told("failed to write sidecar marker: "@, world.mark),
            ),
        ),
        world.visits(stage, n, SidecarStep::CopyBundled) == (stage.step is CopyBundled || (
        stage.step is CreateBinDir && world.create is Ok)),
        world.visits(stage, n, SidecarStep::WriteMarker) == (rest_of_copy(world, stage) is Ok),
    decreases fresh_left(stage),
{
    lemma_sidecar_step(world, stage, n);
    let next = stage.after(world.reply(stage));
    let m = (n - 1) as nat;
    if next.step is Ready || next.step is Failed {
        lemma_sidecar_over(world, next, m);
    } else {
        lemma_sidecar_fresh(world, next, m);
    }
}

proof fn lemma_sidecar_remains(world: SidecarWorld, stage: EnsureSidecar<Seq<char>>, n: nat)
    requires
        stage.step is StagedRemains,
        !stage.washed,
        n >= 10,
    ensures
        world.run(stage, n).ended() == Some(
            if world.remains() {
                Ok(())
            } else {
                world.fresh(stage.platform)
            },
        ),
        world.visits(stage, n, SidecarStep::CopyBundled) == (!world.remains()
            && world.create is Ok),
        world.visits(stage, n, SidecarStep::WriteMarker) == (!world.remains() && world.copied(
            stage.platform,
        ) is Ok),
{
    let a = stage.after(world.reply(stage));
    lemma_sidecar_step(world, stage, n);
    if a.step is CreateBinDir {
        lemma_sidecar_fresh(world, a, (n - 1) as nat);
    } else if a.step is Ready {
        lemma_sidecar_over(world, a, (n - 1) as nat);
    } else {
        let b = a.after(world.reply(a));
        lemma_sidecar_step(world, a, (n - 1) as nat);
        if b.step is Ready {
            lemma_sidecar_over(world, b, (n - 2) as nat);
        } else {
            let c = b.after(world.reply(b));
            lemma_sidecar_step(world, b, (n - 2) as nat);
            lemma_sidecar_over(world, c, (n - 3) as nat);
        }
    }
}

proof fn lemma_sidecar_staged(world: SidecarWorld, stage: EnsureSidecar<Seq<char>>, n: nat)
    requires
        stage.step is StagedExists,
        !stage.washed,
        n >= 13,
    ensures
        world.run(stage, n).ended() == Some(
            if world.remains() {
                Ok(())
            } else {
                world.fresh(stage.platform)
            },
        ),
        world.visits(stage, n, SidecarStep::CopyBundled) == (!world.remains()
            && world.create is Ok),
        world.visits(stage, n, SidecarStep::WriteMarker) == (!world.remains() && world.copied(
            stage.platform,
        ) is Ok),
{
    let a = stage.after(world.reply(stage));
    lemma_sidecar_step(world, stage, n);
    if a.step is StagedRemains {
        lemma_sidecar_remains(world, a, (n - 1) as nat);
    } else {
        let b = a.after(world.reply(a));
        lemma_sidecar_step(world, a, (n - 1) as nat);
        if b.step is StagedRemains {
            lemma_sidecar_remains(world, b, (n - 2) as nat);
        } else {
            let c = b.after(world.reply(b));
            lemma_sidecar_step(world, b, (n - 2) as nat);
            lemma_sidecar_fresh(world, c, (n - 3) as nat);
        }
    }
}

/// Eighteen replies settle the staging. Without a bundled sidecar, or a place
/// for its copy, it fails. A sidecar of the same build that is kept is used
/// without another copy; otherwise the bundled one is copied afresh, and the
/// marker is written only of a copy that is complete — executable on Unix, and
/// washed on macOS. The first failure is what the staging reports.
pub proof fn lemma_sidecar_rule(world: SidecarWorld, platform: Platform, meta: Seq<char>)
    ensures
        ({
            let start = EnsureSidecar::started(platform, meta);
            let fresh = world.located(platform) is Ok && !world.kept(meta);
            &&& world.run(start, 18).ended() == Some(world.ensured(platform, meta))
            &&& world.visits(start, 18, SidecarStep::CopyBundled) == (fresh && world.create is Ok)
            &&& world.visits(start, 18, SidecarStep::WriteMarker) == (fresh && world.copied(
                platform,
            ) is Ok)
        }),
{
    assert(meta.len() == 0 ==> meta =~= Seq::empty());
    let a = EnsureSidecar::started(platform, meta);
    let b = a.after(world.reply(a));
    lemma_sidecar_step(world, a, 18);
    if world.app is Err {
        lemma_sidecar_over(world, b, 17);
    } else {
        let c = b.after(world.reply(b));
        lemma_sidecar_step(world, b, 17);
        if world.bundled_path is None {
            lemma_sidecar_over(world, c, 16);
        } else {
            let d = c.after(world.reply(c));
            lemma_sidecar_step(world, c, 16);
            if !world.bundled {
                lemma_sidecar_over(world, d, 15);
            } else {
                let e = d.after(world.reply(d));
                lemma_sidecar_step(world, d, 15);
                if world.data_dir is Err {
                    lemma_sidecar_over(world, e, 14);
                } else {
                    let f = e.after(world.reply(e));
                    lemma_sidecar_step(world, e, 14);
                    if f.step is CreateBinDir {
                        lemma_sidecar_fresh(world, f, 13);
                    } else {
                        lemma_sidecar_staged(world, f, 13);
                    }
                }
            }
        }
    }
}

/// A staged sidecar that cannot be executed is not trusted, whether it can be
/// removed or not: the bundled one is copied in its place, and where that fails
/// the staging does.
pub proof fn lemma_dead_sidecar_is_replaced(
    world: SidecarWorld,
    platform: Platform,
    meta: Seq<char>,
)
    requires
        world.located(platform) is Ok,
        !world.usable,
    ensures
        world.visits(EnsureSidecar::started(platform, meta), 18, SidecarStep::CopyBundled) == (
        world.create is Ok),
        world.ensured(platform, meta) == world.fresh(platform),
        world.ensured(platform, meta) is Ok ==> world.copy is Ok,
{
    lemma_sidecar_rule(world, platform, meta);
}

proof fn lemma_sidecar_leads(
    world: SidecarWorld,
    stage: EnsureSidecar<Seq<char>>,
    n: nat,
    step: SidecarStep,
)
    ensures
        stage.step == step ==> world.visits(stage, n, step),
        n > 0 && world.visits(stage.after(world.reply(stage)), (n - 1) as nat, step)
            ==> world.visits(stage, n, step),
{
}

proof fn lemma_fresh_copy_is_washed(world: SidecarWorld, stage: EnsureSidecar<Seq<char>>, n: nat)
    requires
        stage.step is CreateBinDir,
        stage.platform == Platform::MacOs,
        !stage.washed,
        world.create is Ok,
        world.copy is Ok,
        world.executable(false) is Ok,
        n >= 4,
    ensures
        world.visits(stage, n, SidecarStep::WashCopy),
{
    let a = stage.after(world.reply(stage));
    let b = a.after(world.reply(a));
    let c = b.after(world.reply(b));
    let d = c.after(world.reply(c));
    lemma_sidecar_leads(world, d, (n - 4) as nat, SidecarStep::WashCopy);
    lemma_sidecar_leads(world, c, (n - 3) as nat, SidecarStep::WashCopy);
    lemma_sidecar_leads(world, b, (n - 2) as nat, SidecarStep::WashCopy);
    lemma_sidecar_leads(world, a, (n - 1) as nat, SidecarStep::WashCopy);
    lemma_sidecar_leads(world, stage, n, SidecarStep::WashCopy);
}

proof fn lemma_staged_copy_is_washed(
    world: SidecarWorld,
    stage: EnsureSidecar<Seq<char>>,
    n: nat,
    step: SidecarStep,
)
    requires
        stage.step is StagedExists || stage.step is ProbeStaged || stage.step is RemoveStaged
            || stage.step is StagedRemains,
        stage.step is RemoveStaged ==> !world.remains(),
        stage.platform == Platform::MacOs,
        !stage.washed,
        step == (if world.remains() {
            SidecarStep::RewashCopy
        } else {
            SidecarStep::WashCopy
        }),
        !world.remains() ==> world.create is Ok && world.copy is Ok && world.executable(
            false,
        ) is Ok,
        n >= staged_left(stage) + 4,
    ensures
        world.visits(stage, n, step),
    decreases staged_left(stage),
{
    let next = stage.after(world.reply(stage));
    let m = (n - 1) as nat;
    lemma_sidecar_leads(world, stage, n, step);
    if stage.step is StagedRemains {
        if world.remains() {
            lemma_sidecar_leads(world, next, m, step);
        } else {
            lemma_fresh_copy_is_washed(world, next, m);
        }
    } else if stage.step is RemoveStaged {
        lemma_fresh_copy_is_washed(world, next, m);
    } else {
        lemma_staged_copy_is_washed(world, next, m, step);
    }
}

/// How many replies the look at an earlier copy needs at most from here on.
spec fn staged_left(stage: EnsureSidecar<Seq<char>>) -> nat {
    match stage.step {
        SidecarStep::StagedExists => 4,
        SidecarStep::ProbeStaged => 3,
        SidecarStep::RemoveStaged => 2,
        SidecarStep::StagedRemains => 1,
        _ => 0,
    }
}

/// On macOS the sidecar goes through a wash on every launch: one that is kept,
/// as well as a fresh copy once it is executable.
pub proof fn lemma_macos_washes_every_launch(world: SidecarWorld, meta: Seq<char>)
    requires
        world.located(Platform::MacOs) is Ok,
        !world.kept(meta) ==> world.create is Ok && world.copy is Ok && world.executable(
            false,
        ) is Ok,
    ensures
        world.visits(
            EnsureSidecar::started(Platform::MacOs, meta),
            18,
            if world.kept(meta) {
                SidecarStep::RewashCopy
            } else {
                SidecarStep::WashCopy
            },
        ),
{
    assert(meta.len() == 0 ==> meta =~= Seq::empty());
    let step = if world.kept(meta) {
        SidecarStep::RewashCopy
    } else {
        SidecarStep::WashCopy
    };
    let a = EnsureSidecar::started(Platform::MacOs, meta);
    let b = a.after(world.reply(a));
    let c = b.after(world.reply(b));
    let d = c.after(world.reply(c));
    let e = d.after(world.reply(d));
    let f = e.after(world.reply(e));
    if f.step is CreateBinDir {
        lemma_fresh_copy_is_washed(world, f, 13);
    } else {
        lemma_staged_copy_is_washed(world, f, 13, step);
    }
    lemma_sidecar_leads(world, e, 14, step);
    lemma_sidecar_leads(world, d, 15, step);
    lemma_sidecar_leads(world, c, 16, step);
    lemma_sidecar_leads(world, b, 17, step);
    lemma_sidecar_leads(world, a, 18, step);
}

/// Each step up to the decision whether a fresh copy is needed, and what its
/// reply leads to. The marker has to read exactly as the build meta, an
/// unreadable one as an empty one; and a copy that is there is used only if it
/// can be executed.
pub proof fn lemma_sidecar_search_steps(
    stage: EnsureSidecar<Seq<char>>,
    platform: Platform,
    meta: Seq<char>,
    text: Seq<char>,
    e: Seq<char>,
)
    ensures
        EnsureSidecar::started(platform, meta) == (EnsureSidecar {
            step: SidecarStep::LocateApp,
            platform,
            washed: false,
            meta,
            bundled: Seq::<char>::empty(),
            error: Seq::<char>::empty(),
        }),
        stage.step is LocateApp ==> {
            &&& stage.after(Reply::Done) == (EnsureSidecar {
                step: SidecarStep::FindAppDir,
                ..stage
            })
            &&& stage.after(Reply::Failed(e)) == (EnsureSidecar {
                step: SidecarStep::Failed,
                error: "failed to locate app binary: "@ + e,
                ..stage
            })
        },
        stage.step is FindAppDir ==> {
            &&& stage.after(Reply::Text(text)) == (EnsureSidecar {
                step: SidecarStep::BundledIsFile,
                bundled: text,
                ..stage
            })
            &&& stage.after(Reply::Answer(false)) == (EnsureSidecar {
                step: SidecarStep::Failed,
                error: "app binary has no parent dir"@,
                ..stage
            })
        },
        stage.step is BundledIsFile ==> {
            &&& stage.after(Reply::Answer(true)) == (EnsureSidecar {
                step: SidecarStep::ResolveDataDir,
                ..stage
            })
            &&& stage.after(Reply::Answer(false)) == (EnsureSidecar {
                step: SidecarStep::Failed,
                error: "bundled node sidecar not found at "@ + stage.bundled + " (expected \""@
                    + name_of_sidecar(stage.platform)
                    + "\" next to the app binary). Rebuild with: pnpm prepare:server"@,
                ..stage
            })
        },
        stage.step is ResolveDataDir ==> {
            &&& stage.after(Reply::Done) == (EnsureSidecar {
                step: SidecarStep::ReadMarker,
                ..stage
            })
            &&& stage.after(Reply::Failed(e)) == (EnsureSidecar {
                step: SidecarStep::Failed,
                error: "failed to resolve app data dir: "@ + e,
                ..stage
            })
        },
        stage.step is ReadMarker ==> {
            &&& stage.after(Reply::Text(text)) == (EnsureSidecar {
                step: if text == stage.meta {
                    SidecarStep::StagedExists
                } else {
                    SidecarStep::CreateBinDir
                },
                ..stage
            })
            &&& stage.after(Reply::Failed(e)) == (EnsureSidecar {
                step: if stage.meta.len() == 0 {
                    SidecarStep::StagedExists
                } else {
                    SidecarStep::CreateBinDir
                },
                ..stage
            })
        },
        stage.step is StagedExists ==> {
            &&& stage.after(Reply::Answer(true)) == (EnsureSidecar {
                step: SidecarStep::ProbeStaged,
                ..stage
            })
            &&& stage.after(Reply::Answer(false)) == (EnsureSidecar {
                step: SidecarStep::StagedRemains,
                ..stage
            })
        },
        stage.step is ProbeStaged ==> {
            &&& stage.after(Reply::Answer(true)) == (EnsureSidecar {
                step: SidecarStep::StagedRemains,
                ..stage
            })
            &&& stage.after(Reply::Answer(false)) == (EnsureSidecar {
                step: SidecarStep::RemoveStaged,
                ..stage
            })
        },
        stage.step is RemoveStaged ==> {
            &&& stage.after(Reply::Done) == (EnsureSidecar {
                step: SidecarStep::CreateBinDir,
                ..stage
            })
            &&& stage.after(Reply::Failed(e)) == (EnsureSidecar {
                step: SidecarStep::CreateBinDir,
                ..stage
            })
        },
        stage.step is StagedRemains ==> {
            &&& stage.after(Reply::Answer(true)) == (EnsureSidecar {
                step: if stage.platform is MacOs {
                    SidecarStep::RewashCopy
                } else {
                    SidecarStep::Ready
                },
                ..stage
            })
            &&& stage.after(Reply::Answer(false)) == (EnsureSidecar {
                step: SidecarStep::CreateBinDir,
                ..stage
            })
        },
{
    assert(stage.meta.len() == 0 ==> stage.meta =~= Seq::empty());
}

/// Each step of a fresh copy, and of the wash of a kept one, and what its reply
/// leads to. On Unix the copy is made executable; on macOS it is washed and made
/// executable again; the marker comes last. A wash of a kept copy that fails is
/// no failure.
pub proof fn lemma_sidecar_copy_steps(stage: EnsureSidecar<Seq<char>>, e: Seq<char>)
    ensures
        stage.step is CreateBinDir ==> {
            &&& stage.after(Reply::Done) == (EnsureSidecar {
                step: SidecarStep::CopyBundled,
                ..stage
            })
            &&& stage.after(Reply::Failed(e)) == (EnsureSidecar {
                step: SidecarStep::Failed,
                error: "failed to create bin dir: "@ + e,
                ..stage
            })
        },
        stage.step is CopyBundled ==> {
            &&& stage.after(Reply::Done) == (EnsureSidecar {
                step: if stage.platform is Windows {
                    SidecarStep::WriteMarker
                } else {
                    SidecarStep::ReadMode
                },
                ..stage
            })
            &&& stage.after(Reply::Failed(e)) == (EnsureSidecar {
                step: SidecarStep::Failed,
                error: "failed to stage sidecar: "@ + e,
                ..stage
            })
        },
        stage.step is ReadMode ==> {
            &&& stage.after(Reply::Done) == (EnsureSidecar {
                step: SidecarStep::SetMode,
                ..stage
            })
            &&& stage.after(Reply::Failed(e)) == (EnsureSidecar {
                step: SidecarStep::Failed,
                error: "failed to stat staged sidecar: "@ + e,
                ..stage
            })
        },
        stage.step is SetMode ==> {
            &&& stage.after(Reply::Done) == (EnsureSidecar {
                step: if stage.platform is MacOs && !stage.washed {
                    SidecarStep::WashCopy
                } else {
                    SidecarStep::WriteMarker
                },
                ..stage
            })
            &&& stage.after(Reply::Failed(e)) == (EnsureSidecar {
                step: SidecarStep::Failed,
                error: "failed to chmod staged sidecar: "@ + e,
                ..stage
            })
        },
        stage.step is WashCopy ==> {
            &&& stage.after(Reply::Done) == (EnsureSidecar {
                step: SidecarStep::WashRename,
                ..stage
            })
            &&& stage.after(Reply::Failed(e)) == (EnsureSidecar {
                step: SidecarStep::Failed,
                error: "failed to wash staged sidecar: "@ + e,
                ..stage
            })
        },
        stage.step is WashRename ==> {
            &&& stage.after(Reply::Done) == (EnsureSidecar {
                step: SidecarStep::ReadMode,
                washed: true,
                ..stage
            })
            &&& stage.after(Reply::Failed(e)) == (EnsureSidecar {
                step: SidecarStep::Failed,
                error: "failed to wash staged sidecar: "@ + e,
                ..stage
            })
        },
        stage.step is WriteMarker ==> {
            &&& stage.after(Reply::Done) == (EnsureSidecar {
                step: SidecarStep::Ready,
                ..stage
            })
            &&& stage.after(Reply::Failed(e)) == (EnsureSidecar {
                step: SidecarStep::Failed,
                error: "failed to write sidecar marker: "@ + e,
                ..stage
            })
        },
        stage.step is RewashCopy ==> {
            &&& stage.after(Reply::Done) == (EnsureSidecar {
                step: SidecarStep::RewashRename,
                ..stage
            })
            &&& stage.after(Reply::Failed(e)) == (EnsureSidecar {
                step: SidecarStep::Ready,
                ..stage
            })
        },
        stage.step is RewashRename ==> {
            &&& stage.after(Reply::Done) == (EnsureSidecar {
                step: SidecarStep::Ready,
                ..stage
            })
            &&& stage.after(Reply::Failed(e)) == (EnsureSidecar {
                step: SidecarStep::Ready,
                ..stage
            })
        },
        stage.ended() == (match stage.step {
            SidecarStep::Ready => Some(Ok::<(), Seq<char>>(())),
            SidecarStep::Failed => Some(Err::<(), Seq<char>>(stage.error)),
            _ => None,
        }),
{
}

/// A reply that does not answer the step changes nothing.
pub proof fn lemma_sidecar_ignores_other_replies(
    stage: EnsureSidecar<Seq<char>>,
    reply: Reply<Seq<char>>,
)
    requires
        match stage.step {
            SidecarStep::FindAppDir => !(reply is Text) && reply != Reply::<Seq<char>>::Answer(false),
            SidecarStep::ReadMarker => !(reply is Text || reply is Failed),
            SidecarStep::BundledIsFile => !(reply is Answer),
            SidecarStep::StagedExists => !(reply is Answer),
            SidecarStep::ProbeStaged => !(reply is Answer),
            SidecarStep::StagedRemains => !(reply is Answer),
            SidecarStep::Ready => true,
            SidecarStep::Failed => true,
            _ => !(reply is Done || reply is Failed),
        },
    ensures
        stage.after(reply) == stage,
{
}

/// The sidecar goes by one name, with an extension on Windows alone, and its
/// staging is shown from its first step on.
pub proof fn lemma_sidecar_goes_by_one_name(platform: Platform, step: SidecarStep)
    ensures
        name_of_sidecar(platform) == (if platform is Windows {
            "openmaic-node.exe"@
        } else {
            "openmaic-node"@
        }),
        sidecar_status(step) == (if step is LocateApp {
            Some("staging"@)
        } else {
            None
        }),
        SIDECAR_DIR@ == "bin"@,
        SIDECAR_MARKER@ == ".sidecar-meta.json"@,
        SIDECAR_MODE == 493,
{
}

/// The model of a staging holds what the staging holds.
pub proof fn lemma_sidecar_model_is_faithful(stage: EnsureSidecar<String>)
    ensures
        stage@.step == stage.step,
        stage@.platform == stage.platform,
        stage@.washed == stage.washed,
        stage@.meta == stage.meta@,
        stage@.bundled == stage.bundled@,
        stage@.error == stage.error@,
{
}

} // verus!
