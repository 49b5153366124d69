use maic_desktop::boot::{
    boot_failed, health_error, main_window_error, owns_server, server_env, Boot, BootStep,
    StartServer, StartStep, MAX_PORT_ATTEMPTS,
};
use maic_desktop::reply::{HealthOutcome, Reply};
use maic_desktop::server_tree::ServerHome;

#[test]
fn only_main_owns_server_lifetime() {
    assert!(owns_server("main"));
    // Closing any other window (notably the splash during the
    // splash -> main handoff) must not kill the server.
    assert!(!owns_server("splash"));
    assert!(!owns_server(""));
}

/// How an attempt to start the server goes.
#[derive(Clone, Copy)]
enum Attempt {
    NotSpawned,
    Healthy,
    Crashed(&'static str),
    Unhealthy(&'static str),
}

struct Outcome {
    end: StartServer<String>,
    ports: Vec<u16>,
    heals: usize,
    kills: usize,
}

/// Start the server where the sticky port is `sticky` in each pass, fresh
/// ports count up from 50000, and the attempts go as told, the last one over
/// and over.
fn start(sticky: Option<u16>, attempts: &[Attempt], stages: bool) -> Outcome {
    let mut start = StartServer::start(ServerHome::DataDir, "/data/server/server.js");
    let mut ports = Vec::new();
    let mut heals = 0;
    let mut kills = 0;
    let mut fresh = 50000;
    loop {
        let attempt = attempts[(ports.len().max(1) - 1).min(attempts.len() - 1)];
        let reply = match start.step {
            StartStep::FindServerJs => Reply::Answer(true),
            StartStep::PickSticky => match sticky {
                Some(p) => Reply::Port(p),
                None => Reply::Failed("no data dir".to_string()),
            },
            StartStep::PickFree => {
                fresh += 1;
                Reply::Port(fresh)
            }
            StartStep::Spawn => {
                assert_eq!(start.status(), Some(("probing", Some(start.port))));
                ports.push(start.port);
                match attempts[(ports.len() - 1).min(attempts.len() - 1)] {
                    Attempt::NotSpawned => Reply::Failed("denied".to_string()),
                    _ => Reply::Done,
                }
            }
            StartStep::AwaitHealth => Reply::Health(match attempt {
                Attempt::Healthy => HealthOutcome::Healthy,
                Attempt::Unhealthy(_) => HealthOutcome::ListeningButUnhealthy,
                _ => HealthOutcome::NoListener,
            }),
            StartStep::CollectTail => Reply::Text(
                match attempt {
                    Attempt::Crashed(tail) | Attempt::Unhealthy(tail) => tail,
                    _ => "",
                }
                .to_string(),
            ),
            StartStep::StopServer => {
                kills += 1;
                // A kill that fails stops nobody.
                if kills % 2 == 0 {
                    Reply::Failed("gone".to_string())
                } else {
                    Reply::Done
                }
            }
            StartStep::HealTarball | StartStep::HealDataDir => Reply::Done,
            StartStep::HealStage => {
                assert_eq!(start.status(), Some(("extracting", None)));
                heals += 1;
                if stages {
                    Reply::Done
                } else {
                    Reply::Failed("no space".to_string())
                }
            }
            StartStep::Serving | StartStep::Failed => {
                return Outcome {
                    end: start,
                    ports,
                    heals,
                    kills,
                }
            }
        };
        start = start.answer(reply);
    }
}

#[test]
fn healthy_server_is_served_on_the_sticky_port() {
    let out = start(Some(31846), &[Attempt::Healthy], true);
    assert_eq!(out.end.step, StartStep::Serving);
    assert_eq!(out.end.port, 31846);
    assert_eq!(out.ports, [31846]);
}

#[test]
fn another_port_is_tried_after_a_failure() {
    let out = start(
        Some(31846),
        &[Attempt::NotSpawned, Attempt::Unhealthy("slow"), Attempt::Healthy],
        true,
    );
    assert_eq!(out.end.step, StartStep::Serving);
    assert_eq!(out.ports, [31846, 50001, 50002]);
    assert_eq!(out.end.port, 50002);
}

#[test]
fn missing_sticky_port_is_replaced() {
    let out = start(None, &[Attempt::Healthy], true);
    assert_eq!(out.ports, [50001]);
}

#[test]
fn all_attempts_in_vain_report_the_last_failure() {
    let out = start(Some(31846), &[Attempt::Crashed("Error: boom\n")], true);
    assert_eq!(out.end.step, StartStep::Failed);
    assert_eq!(out.ports.len(), 10);
    assert_eq!(out.ports[0], 31846);
    assert_eq!(out.ports[5], 31846);
    assert_eq!(out.heals, 0);
    assert_eq!(
        out.end.error,
        "could not start the bundled MAIC server after 5 attempts. server on port 50008 never \
         accepted connections (it likely crashed on startup).\n\nServer output:\nError: boom"
    );
    let out = start(None, &[Attempt::NotSpawned], true);
    assert_eq!(
        out.end.error,
        "could not start the bundled MAIC server after 5 attempts. failed to spawn bundled node \
         (port busy?): denied"
    );
    assert_eq!(MAX_PORT_ATTEMPTS, 5);
}

#[test]
fn missing_module_heals_exactly_once() {
    let crash = Attempt::Crashed("code: 'MODULE_NOT_FOUND'");
    let out = start(Some(31846), &[crash, Attempt::Healthy], true);
    assert_eq!(out.heals, 1);
    assert_eq!(out.end.step, StartStep::Serving);
    assert_eq!(out.ports, [31846, 31846]);
    let out = start(Some(31846), &[crash], true);
    assert_eq!(out.heals, 1);
    assert_eq!(out.end.step, StartStep::Failed);
    assert_eq!(out.ports.len(), 6);
    let out = start(Some(31846), &[crash], false);
    assert_eq!(out.end.step, StartStep::Failed);
    assert_eq!(out.end.error, "no space");
    assert_eq!(out.ports.len(), 1);
}

#[test]
fn start_reports_what_stops_it() {
    let failed = || Reply::Failed("e".to_string());
    let begin = || StartServer::start(ServerHome::DataDir, "/s/server.js");
    assert_eq!(
        begin().answer(Reply::Answer(false)).error,
        "server.js missing at /s/server.js. Rebuild with: pnpm prepare:server"
    );
    let picking = || begin().answer(Reply::Answer(true)).answer(failed());
    assert_eq!(picking().answer(failed()).error, "e");
    let healing = || {
        picking()
            .answer(Reply::Port(7))
            .answer(Reply::Done)
            .answer(Reply::Health(HealthOutcome::NoListener))
            .answer(Reply::Text("MODULE_NOT_FOUND".to_string()))
            .answer(Reply::Done)
    };
    assert_eq!(healing().step, StartStep::HealTarball);
    assert_eq!(healing().answer(failed()).error, "failed to resolve resources: e");
    assert_eq!(
        healing().answer(Reply::Done).answer(failed()).error,
        "failed to resolve app data dir: e"
    );
    assert_eq!(begin().answer(Reply::Port(1)), begin());
}

#[test]
fn unhealthy_servers_are_told_apart() {
    assert_eq!(health_error(80, false, " "), "server on port 80 never became healthy");
    assert_eq!(
        health_error(80, true, "x"),
        "server on port 80 never accepted connections (it likely crashed on \
         startup).\n\nServer output:\nx"
    );
}

#[test]
fn server_listens_on_the_loopback_port() {
    let var = |name: &str, value: &str| (name.to_string(), value.to_string());
    assert_eq!(
        server_env(31846),
        vec![
            var("PORT", "31846"),
            var("HOSTNAME", "127.0.0.1"),
            var("NODE_ENV", "production")
        ]
    );
}

fn boot(replies: &[Reply<String>]) -> Boot<String> {
    let mut boot = Boot::start();
    for reply in replies {
        boot = boot.answer(match reply {
            Reply::Done => Reply::Done,
            Reply::Answer(b) => Reply::Answer(*b),
            Reply::Text(t) => Reply::Text(t.clone()),
            Reply::Port(p) => Reply::Port(*p),
            Reply::Health(h) => Reply::Health(*h),
            Reply::Failed(e) => Reply::Failed(e.clone()),
        });
    }
    boot
}

#[test]
fn boot_goes_step_by_step() {
    let replies = [
        Reply::Text("{m}".to_string()),
        Reply::Done,
        Reply::Done,
        Reply::Done,
        Reply::Port(31846),
        Reply::Done,
        Reply::Done,
        Reply::Done,
    ];
    let steps = [
        BootStep::ReadMeta,
        BootStep::Announce,
        BootStep::EnsureServer,
        BootStep::EnsureSidecar,
        BootStep::StartServer,
        BootStep::KeepServer,
        BootStep::ParseUrl,
        BootStep::ScheduleMain,
        BootStep::Booted,
    ];
    for i in 0..steps.len() {
        assert_eq!(boot(&replies[..i]).step, steps[i]);
    }
    let end = boot(&replies);
    assert_eq!(end.meta, "{m}");
    assert_eq!(end.url, "http://127.0.0.1:31846/");
    assert_eq!(BootStep::EnsureServer.status(), Some("checking"));
    assert_eq!(BootStep::StartServer.status(), None);
}

#[test]
fn boot_reports_the_first_failure() {
    let failed = || Reply::Failed("e".to_string());
    assert_eq!(boot(&[failed()]).meta, "{}");
    assert_eq!(boot(&[failed(), Reply::Done, failed()]).error, "e");
    assert_eq!(
        boot(&[failed(), Reply::Done, Reply::Done, failed()]).step,
        BootStep::Failed
    );
    let up = || {
        vec![
            failed(),
            Reply::Done,
            Reply::Done,
            Reply::Done,
            Reply::Port(1),
            Reply::Done,
        ]
    };
    let mut parse = up();
    parse.push(failed());
    assert_eq!(boot(&parse).error, "invalid server url: e");
    let mut schedule = up();
    schedule.push(Reply::Done);
    schedule.push(failed());
    assert_eq!(boot(&schedule).error, "failed to schedule main window: e");
    assert_eq!(main_window_error("e"), "failed to create main window: e");
}

#[test]
fn fatal_error_is_shown_where_it_can_be() {
    let plan = boot_failed(true, "no \"server\"");
    assert_eq!(
        plan.script.as_deref(),
        Some("window.__maicFatal && window.__maicFatal(\"no \\\"server\\\"\")")
    );
    assert!(!plan.exit);
    let plan = boot_failed(false, "x");
    assert_eq!(plan.script, None);
    assert!(plan.exit);
}

#[test]
fn start_and_boot_tell_their_results() {
    let out = start(Some(31846), &[Attempt::Healthy], true);
    assert_eq!(out.end.result(), Some(Ok(31846)));
    let out = start(
        Some(31846),
        &[Attempt::Crashed("MODULE_NOT_FOUND")],
        false,
    );
    assert_eq!(out.end.result(), Some(Err("no space".to_string())));
    assert_eq!(StartServer::start(ServerHome::DataDir, "/s/server.js").result(), None);
    assert_eq!(boot(&[]).result(), None);
    let failed = [
        Reply::Failed("e".to_string()),
        Reply::Done,
        Reply::Failed("f".to_string()),
    ];
    assert_eq!(boot(&failed).result(), Some(Err("f".to_string())));
    let up = [
        Reply::Text("{}".to_string()),
        Reply::Done,
        Reply::Done,
        Reply::Done,
        Reply::Port(80),
        Reply::Done,
        Reply::Done,
        Reply::Done,
    ];
    assert_eq!(boot(&up).result(), Some(Ok(())));
}

#[test]
fn late_crash_over_a_missing_module_begins_again() {
    let out = start(
        Some(31846),
        &[
            Attempt::NotSpawned,
            Attempt::Unhealthy("slow"),
            Attempt::Crashed("Error: MODULE_NOT_FOUND"),
            Attempt::Healthy,
        ],
        true,
    );
    assert_eq!(out.heals, 1);
    assert_eq!(out.ports, [31846, 50001, 50002, 31846]);
    assert_eq!(out.end.result(), Some(Ok(31846)));
}

#[test]
fn repair_renews_the_tree_that_is_run() {
    for home in [ServerHome::DevTree, ServerHome::DataDir] {
        let mut start = StartServer::start(home, "/t/server/server.js");
        let replies = vec![
            Reply::Answer(true),
            Reply::Port(7),
            Reply::Done,
            Reply::Health(HealthOutcome::NoListener),
            Reply::Text("MODULE_NOT_FOUND".to_string()),
            Reply::Done,
            Reply::Done,
            Reply::Done,
        ];
        for reply in replies {
            start = start.answer(reply);
        }
        assert_eq!((start.step, start.home), (StartStep::HealStage, home));
        start = start.answer(Reply::Done).answer(Reply::Port(7));
        assert_eq!((start.step, start.home), (StartStep::Spawn, home));
        assert_eq!(start.server_js, "/t/server/server.js");
    }
}

#[test]
fn failed_servers_are_killed() {
    let out = start(
        Some(31846),
        &[
            Attempt::NotSpawned,
            Attempt::Unhealthy("slow"),
            Attempt::Crashed("MODULE_NOT_FOUND"),
            Attempt::Healthy,
        ],
        true,
    );
    assert_eq!(out.end.step, StartStep::Serving);
    assert_eq!((out.ports.len(), out.kills), (4, 2));
    let out = start(Some(31846), &[Attempt::Crashed("boom")], true);
    assert_eq!(out.end.step, StartStep::Failed);
    assert_eq!((out.ports.len(), out.kills), (10, 10));
    let awaiting = StartServer::start(ServerHome::DataDir, "/s/server.js")
        .answer(Reply::Answer(true))
        .answer(Reply::Port(7))
        .answer(Reply::Done)
        .answer(Reply::Health(HealthOutcome::ListeningButUnhealthy));
    assert_eq!(awaiting.step, StartStep::CollectTail);
    let stopping = awaiting.answer(Reply::Done).answer(Reply::Text(String::new()));
    assert_eq!(stopping.step, StartStep::StopServer);
    let next = stopping.answer(Reply::Port(8)).answer(Reply::Done);
    assert_eq!(next.step, StartStep::PickFree);
}
