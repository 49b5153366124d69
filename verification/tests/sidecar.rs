use maic_desktop::reply::Reply;
use maic_desktop::sidecar::{
    sidecar_name, wash_name, EnsureSidecar, Platform, SidecarStep, SIDECAR_MODE,
};

/// A machine that the staging of the sidecar may meet.
struct Machine {
    marker: Option<&'static str>,
    staged: bool,
    usable: bool,
    removable: bool,
    fails: Option<SidecarStep>,
}

fn staged() -> Machine {
    Machine {
        marker: Some("{1}"),
        staged: true,
        usable: true,
        removable: true,
        fails: None,
    }
}

fn stage(platform: Platform, m: Machine) -> (Vec<SidecarStep>, EnsureSidecar<String>) {
    let mut run = EnsureSidecar::start(platform, "{1}");
    let mut steps = Vec::new();
    let mut there = m.staged;
    loop {
        steps.push(run.step);
        let failed = m.fails == Some(run.step);
        let reply = match run.step {
            SidecarStep::Ready | SidecarStep::Failed => return (steps, run),
            SidecarStep::FindAppDir => {
                if failed {
                    Reply::Answer(false)
                } else {
                    Reply::Text("/app/openmaic-node".to_string())
                }
            }
            SidecarStep::BundledIsFile => Reply::Answer(!failed),
            SidecarStep::ReadMarker => match m.marker {
                Some(t) => Reply::Text(t.to_string()),
                None => Reply::Failed("no such file".to_string()),
            },
            SidecarStep::StagedExists | SidecarStep::StagedRemains => Reply::Answer(there),
            SidecarStep::ProbeStaged => Reply::Answer(m.usable),
            SidecarStep::RemoveStaged => {
                if m.removable {
                    there = false;
                    Reply::Done
                } else {
                    Reply::Failed("busy".to_string())
                }
            }
            _ => {
                if failed {
                    Reply::Failed("why".to_string())
                } else {
                    Reply::Done
                }
            }
        };
        run = run.answer(reply);
    }
}

const FIRST: [SidecarStep; 5] = [
    SidecarStep::LocateApp,
    SidecarStep::FindAppDir,
    SidecarStep::BundledIsFile,
    SidecarStep::ResolveDataDir,
    SidecarStep::ReadMarker,
];

#[test]
fn usable_sidecar_is_reused() {
    let (steps, _) = stage(Platform::OtherUnix, staged());
    assert_eq!(
        steps[5..],
        [
            SidecarStep::StagedExists,
            SidecarStep::ProbeStaged,
            SidecarStep::StagedRemains,
            SidecarStep::Ready
        ]
    );
}

#[test]
fn macos_washes_every_launch() {
    let (steps, _) = stage(Platform::MacOs, staged());
    assert_eq!(
        steps[8..],
        [
            SidecarStep::RewashCopy,
            SidecarStep::RewashRename,
            SidecarStep::Ready
        ]
    );
    // A wash that fails is no reason to give up.
    let (steps, _) = stage(
        Platform::MacOs,
        Machine {
            fails: Some(SidecarStep::RewashCopy),
            ..staged()
        },
    );
    assert_eq!(steps[8..], [SidecarStep::RewashCopy, SidecarStep::Ready]);
}

#[test]
fn update_copies_afresh() {
    let update = || Machine {
        marker: Some("{0}"),
        ..staged()
    };
    let (steps, _) = stage(Platform::Windows, update());
    assert_eq!(steps[..5], FIRST);
    assert_eq!(
        steps[5..],
        [
            SidecarStep::CreateBinDir,
            SidecarStep::CopyBundled,
            SidecarStep::WriteMarker,
            SidecarStep::Ready
        ]
    );
    let (steps, _) = stage(Platform::OtherUnix, update());
    assert_eq!(
        steps[5..],
        [
            SidecarStep::CreateBinDir,
            SidecarStep::CopyBundled,
            SidecarStep::ReadMode,
            SidecarStep::SetMode,
            SidecarStep::WriteMarker,
            SidecarStep::Ready
        ]
    );
    let (steps, _) = stage(Platform::MacOs, update());
    assert_eq!(
        steps[5..],
        [
            SidecarStep::CreateBinDir,
            SidecarStep::CopyBundled,
            SidecarStep::ReadMode,
            SidecarStep::SetMode,
            SidecarStep::WashCopy,
            SidecarStep::WashRename,
            SidecarStep::ReadMode,
            SidecarStep::SetMode,
            SidecarStep::WriteMarker,
            SidecarStep::Ready
        ]
    );
}

#[test]
fn first_launch_copies_afresh() {
    let (steps, _) = stage(
        Platform::Windows,
        Machine {
            marker: None,
            ..staged()
        },
    );
    assert_eq!(steps[5], SidecarStep::CreateBinDir);
    let (steps, _) = stage(
        Platform::Windows,
        Machine {
            staged: false,
            ..staged()
        },
    );
    assert_eq!(
        steps[5..8],
        [
            SidecarStep::StagedExists,
            SidecarStep::StagedRemains,
            SidecarStep::CreateBinDir
        ]
    );
}

#[test]
fn dead_sidecar_is_never_used() {
    for removable in [true, false] {
        let dead = || Machine {
            usable: false,
            removable,
            ..staged()
        };
        let (steps, _) = stage(Platform::OtherUnix, dead());
        assert_eq!(
            steps[6..10],
            [
                SidecarStep::ProbeStaged,
                SidecarStep::RemoveStaged,
                SidecarStep::CreateBinDir,
                SidecarStep::CopyBundled
            ]
        );
        assert_eq!(steps.last(), Some(&SidecarStep::Ready));
        let stuck = Machine {
            fails: Some(SidecarStep::CopyBundled),
            ..dead()
        };
        let (_, end) = stage(Platform::OtherUnix, stuck);
        assert_eq!(
            end.result(),
            Some(Err("failed to stage sidecar: why".to_string()))
        );
    }
}

#[test]
fn sidecar_errors_say_what_failed() {
    let error = |step| {
        let (steps, run) = stage(
            Platform::MacOs,
            Machine {
                marker: None,
                fails: Some(step),
                ..staged()
            },
        );
        assert_eq!(steps.last(), Some(&SidecarStep::Failed));
        if step != SidecarStep::WriteMarker {
            assert!(!steps.contains(&SidecarStep::WriteMarker));
        }
        run.error
    };
    assert_eq!(error(SidecarStep::LocateApp), "failed to locate app binary: why");
    assert_eq!(error(SidecarStep::FindAppDir), "app binary has no parent dir");
    assert_eq!(
        error(SidecarStep::BundledIsFile),
        "bundled node sidecar not found at /app/openmaic-node (expected \"openmaic-node\" next to \
         the app binary). Rebuild with: pnpm prepare:server"
    );
    assert_eq!(
        error(SidecarStep::ResolveDataDir),
        "failed to resolve app data dir: why"
    );
    assert_eq!(error(SidecarStep::CreateBinDir), "failed to create bin dir: why");
    assert_eq!(error(SidecarStep::CopyBundled), "failed to stage sidecar: why");
    assert_eq!(error(SidecarStep::ReadMode), "failed to stat staged sidecar: why");
    assert_eq!(error(SidecarStep::SetMode), "failed to chmod staged sidecar: why");
    assert_eq!(error(SidecarStep::WashCopy), "failed to wash staged sidecar: why");
    assert_eq!(error(SidecarStep::WashRename), "failed to wash staged sidecar: why");
    assert_eq!(
        error(SidecarStep::WriteMarker),
        "failed to write sidecar marker: why"
    );
}

#[test]
fn sidecar_names_follow_the_platform() {
    assert_eq!(sidecar_name(Platform::Windows), "openmaic-node.exe");
    assert_eq!(sidecar_name(Platform::MacOs), "openmaic-node");
    assert_eq!(sidecar_name(Platform::OtherUnix), "openmaic-node");
    assert_eq!(wash_name(Platform::MacOs), "openmaic-node.stage");
    assert_eq!(SIDECAR_MODE, 0o755);
    assert_eq!(SidecarStep::LocateApp.status(), Some("staging"));
    assert_eq!(SidecarStep::CopyBundled.status(), None);
}

#[test]
fn staging_tells_its_result() {
    assert_eq!(EnsureSidecar::start(Platform::Windows, "{1}").result(), None);
    let (_, end) = stage(Platform::Windows, staged());
    assert_eq!(end.result(), Some(Ok(())));
    let unmarked = Machine {
        marker: None,
        fails: Some(SidecarStep::CopyBundled),
        ..staged()
    };
    let (_, end) = stage(Platform::Windows, unmarked);
    assert_eq!(
        end.result(),
        Some(Err("failed to stage sidecar: why".to_string()))
    );
}
