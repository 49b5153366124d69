use maic_desktop::build_meta::TarRun;
use maic_desktop::reply::Reply;
use maic_desktop::server_tree::{
    extract_tarball, extraction_error, EnsureServer, ServerHome, ServerStep, StageRun, StageStep, TreeDir,
};

fn tar(success: bool, stderr: &[u8]) -> Result<TarRun, String> {
    Ok(TarRun {
        success,
        status: "exit status: 1".to_string(),
        stdout: Vec::new(),
        stderr: stderr.to_vec(),
    })
}

#[test]
fn extraction_reports_the_message_of_tar() {
    assert_eq!(extract_tarball(tar(true, b"warning")), Ok(()));
    assert_eq!(
        extract_tarball(tar(false, b"tar: Invalid argument\n")),
        Err("server extraction failed (tar exit: exit status: 1: tar: Invalid argument)".to_string())
    );
    assert_eq!(
        extract_tarball(tar(false, b" \n")),
        Err("server extraction failed (tar exit: exit status: 1)".to_string())
    );
    assert_eq!(
        extract_tarball(tar(false, b"\xff")),
        Err("server extraction failed (tar exit: exit status: 1: \u{fffd})".to_string())
    );
    assert_eq!(
        extract_tarball(Err("not found".to_string())),
        Err("failed to run tar for server extraction: not found".to_string())
    );
    assert_eq!(
        extraction_error("s", "é "),
        "server extraction failed (tar exit: s: é)"
    );
}

fn result(r: Result<(), &str>) -> Reply<String> {
    match r {
        Ok(()) => Reply::Done,
        Err(e) => Reply::Failed(e.to_string()),
    }
}

/// Run a staging in which the step `fails`, if any, fails; the steps taken and
/// the error.
fn stage(there: bool, fails: Option<StageStep>) -> (Vec<StageStep>, StageRun<String>) {
    let mut run = StageRun::start(ServerHome::DataDir, "/data/server", "{meta}");
    let mut steps = Vec::new();
    loop {
        steps.push(run.step);
        let reply = match run.step {
            StageStep::Staged | StageStep::Failed => return (steps, run),
            StageStep::LookForServer => Reply::Answer(there),
            step => result(if fails == Some(step) { Err("why") } else { Ok(()) }),
        };
        run = run.answer(reply);
    }
}

#[test]
fn staging_clears_extracts_verifies_and_records() {
    let (steps, run) = stage(true, None);
    assert_eq!(
        steps,
        [
            StageStep::CreateDataDir,
            StageStep::LookForServer,
            StageStep::RemoveServer,
            StageStep::Extract,
            StageStep::Verify,
            StageStep::WriteMarker,
            StageStep::Staged
        ]
    );
    assert_eq!(run.meta, "{meta}");
    let (steps, _) = stage(false, None);
    assert!(!steps.contains(&StageStep::RemoveServer));
    assert_eq!(steps.last(), Some(&StageStep::Staged));
}

#[test]
fn staging_errors_say_what_failed() {
    let error = |step| {
        let (steps, run) = stage(true, Some(step));
        assert_eq!(steps.last(), Some(&StageStep::Failed));
        if step != StageStep::WriteMarker {
            assert!(!steps.contains(&StageStep::WriteMarker));
        }
        run.error
    };
    assert_eq!(
        error(StageStep::CreateDataDir),
        "failed to create app data dir: why"
    );
    assert_eq!(
        error(StageStep::RemoveServer),
        "failed to clear previous server at /data/server (is another instance running?): why"
    );
    assert_eq!(error(StageStep::Extract), "why");
    assert_eq!(error(StageStep::Verify), "why");
    assert_eq!(
        error(StageStep::WriteMarker),
        "failed to write build marker: why"
    );
}

/// A machine that the search for a server tree may meet.
struct Machine {
    dev: bool,
    tarball: bool,
    marker: Option<&'static str>,
    server_js: bool,
    sound: bool,
    stages: bool,
}

fn search(meta: &str, m: &Machine) -> (Vec<&'static str>, usize, EnsureServer<String>) {
    let mut search = EnsureServer::start(meta);
    let mut statuses = Vec::new();
    let mut extractions = 0;
    loop {
        statuses.extend(search.step.status());
        let reply = match search.step {
            ServerStep::ResolveDevDir => Reply::Text("/res/server/server.js".to_string()),
            ServerStep::DevMetaExists | ServerStep::DevServerExists => Reply::Answer(m.dev),
            ServerStep::ResolveTarball => Reply::Text("/res/server.tar.gz".to_string()),
            ServerStep::TarballExists => Reply::Answer(m.tarball),
            ServerStep::ResolveDataDir => Reply::Done,
            ServerStep::ReadMarker => match m.marker {
                Some(t) => Reply::Text(t.to_string()),
                None => Reply::Failed("no such file".to_string()),
            },
            ServerStep::ServerJsExists => Reply::Answer(m.server_js),
            ServerStep::VerifyDev | ServerStep::VerifyReused => {
                result(if m.sound { Ok(()) } else { Err("broken") })
            }
            ServerStep::Stage | ServerStep::Restage => {
                extractions += 1;
                result(if m.stages { Ok(()) } else { Err("no space") })
            }
            ServerStep::Ready(_) | ServerStep::Failed => return (statuses, extractions, search),
        };
        search = search.answer(reply);
    }
}

fn installed() -> Machine {
    Machine {
        dev: false,
        tarball: true,
        marker: Some("{1}"),
        server_js: true,
        sound: true,
        stages: true,
    }
}

#[test]
fn intact_tree_is_reused() {
    let (statuses, extractions, end) = search("{1}", &installed());
    assert_eq!(end.step, ServerStep::Ready(ServerHome::DataDir));
    assert_eq!(extractions, 0);
    assert_eq!(statuses, ["reusing"]);
}

#[test]
fn first_launch_and_update_extract_once() {
    for marker in [None, Some("{0}")] {
        let (statuses, extractions, end) = search("{1}", &Machine { marker, ..installed() });
        assert_eq!(end.step, ServerStep::Ready(ServerHome::DataDir));
        assert_eq!(extractions, 1);
        assert_eq!(statuses, ["extracting"]);
    }
    let (_, extractions, _) = search("{1}", &Machine { server_js: false, ..installed() });
    assert_eq!(extractions, 1);
}

#[test]
fn missing_marker_reads_as_empty() {
    let (_, extractions, end) = search("", &Machine { marker: None, ..installed() });
    assert_eq!(end.step, ServerStep::Ready(ServerHome::DataDir));
    assert_eq!(extractions, 0);
}

#[test]
fn damaged_tree_is_extracted_anew_once() {
    let (statuses, extractions, end) = search("{1}", &Machine { sound: false, ..installed() });
    assert_eq!(end.step, ServerStep::Ready(ServerHome::DataDir));
    assert_eq!(extractions, 1);
    assert_eq!(statuses, ["reusing", "extracting"]);
    let (_, extractions, end) = search(
        "{1}",
        &Machine {
            sound: false,
            stages: false,
            ..installed()
        },
    );
    assert_eq!(end.step, ServerStep::Failed);
    assert_eq!(end.error, "no space");
    assert_eq!(extractions, 1);
}

#[test]
fn dev_tree_is_used_in_place() {
    let (statuses, extractions, end) = search("{1}", &Machine { dev: true, ..installed() });
    assert_eq!(end.step, ServerStep::Ready(ServerHome::DevTree));
    assert_eq!(extractions, 0);
    assert_eq!(statuses, ["verifying"]);
    let (_, _, end) = search(
        "{1}",
        &Machine {
            dev: true,
            sound: false,
            ..installed()
        },
    );
    assert_eq!(end.error, "broken");
}

#[test]
fn search_without_a_bundle_says_where_it_looked() {
    let (_, extractions, end) = search("{1}", &Machine { tarball: false, ..installed() });
    assert_eq!(extractions, 0);
    assert_eq!(
        end.error,
        "bundled server not found (looked for /res/server/server.js and /res/server.tar.gz). \
         Rebuild with: pnpm prepare:server"
    );
}

#[test]
fn search_reports_unresolved_paths() {
    let failed = || Reply::Failed("e".to_string());
    let start = EnsureServer::start("{1}").answer(failed());
    assert_eq!(start.error, "failed to resolve resources: e");
    let at_tarball = || {
        EnsureServer::start("{1}")
            .answer(Reply::Text("a".to_string()))
            .answer(Reply::Answer(false))
    };
    assert_eq!(
        at_tarball().answer(failed()).error,
        "failed to resolve bundled server.tar.gz: e"
    );
    let at_data_dir = at_tarball()
        .answer(Reply::Text("b".to_string()))
        .answer(Reply::Answer(true));
    assert_eq!(
        at_data_dir.answer(failed()).error,
        "failed to resolve app data dir: e"
    );
}

#[test]
fn staging_shows_verification() {
    assert_eq!(StageStep::Verify.status(), Some("verifying"));
    assert_eq!(StageStep::Extract.status(), None);
}

#[test]
fn results_come_at_the_end() {
    let staged = stage(false, None).1;
    assert_eq!(staged.result(), Some(Ok(())));
    let failed = stage(false, Some(StageStep::Verify)).1;
    assert_eq!(failed.result(), Some(Err("why".to_string())));
    assert_eq!(StageRun::start(ServerHome::DataDir, "/data/server", "{}").result(), None);
    let (_, _, end) = search("{1}", &installed());
    assert_eq!(end.result(), Some(Ok(ServerHome::DataDir)));
    let broken = Machine {
        sound: false,
        stages: false,
        ..installed()
    };
    let (_, _, end) = search("{1}", &broken);
    assert_eq!(end.result(), Some(Err("no space".to_string())));
    assert_eq!(EnsureServer::start("{1}").result(), None);
}

#[test]
fn tarball_is_unpacked_beside_the_tree_it_replaces() {
    let dev = StageRun::start(ServerHome::DevTree, "/res/server", "{}");
    assert_eq!(dev.home.unpack_dir(), TreeDir::Holder);
    assert_eq!(dev.home.marker_dir(), TreeDir::Tree);
    assert_eq!(ServerHome::DataDir.unpack_dir(), TreeDir::Holder);
    assert_eq!(ServerHome::DataDir.marker_dir(), TreeDir::Holder);
}
