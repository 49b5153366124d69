use maic_desktop::port::{
    pick_free_port, port_from_marker, select_port, PortOrigin, PortPick, PortStep, PREFERRED_PORT,
};
use maic_desktop::reply::Reply;
use maic_desktop::text::decimal_text;

#[test]
fn preferred_port_wins_over_sticky() {
    // Free preferred port always wins (migrates old installs to 31846).
    assert_eq!(select_port(None, true, false), Some(PREFERRED_PORT));
    assert_eq!(select_port(Some(1234), true, true), Some(PREFERRED_PORT));
    // Busy preferred: reuse the sticky port while free, else fresh.
    assert_eq!(select_port(Some(53588), false, true), Some(53588));
    assert_eq!(select_port(Some(0), false, false), None);
    assert_eq!(select_port(Some(53588), false, false), None);
    assert_eq!(select_port(None, false, false), None);
    assert_eq!(PREFERRED_PORT, 31846);
}

/// Run the selection where the marker reads `marker`, the ports in `free` are
/// free, and the system hands out `fresh`.
fn pick(marker: Option<&str>, free: &[u16], fresh: Result<u16, &str>) -> PortPick<String> {
    let mut pick = PortPick::start();
    loop {
        let reply = match pick.step {
            PortStep::ResolveDataDir => Reply::Done,
            PortStep::ReadMarker => match marker {
                Some(t) => Reply::Text(t.to_string()),
                None => Reply::Failed("no such file".to_string()),
            },
            PortStep::ProbeSticky(p) => {
                assert_ne!(p, 0);
                Reply::Answer(free.contains(&p))
            }
            PortStep::ProbePreferred => Reply::Answer(free.contains(&PREFERRED_PORT)),
            PortStep::Allocate => match fresh {
                Ok(p) => Reply::Port(p),
                Err(e) => Reply::Failed(e.to_string()),
            },
            PortStep::Chosen(..) | PortStep::Failed => return pick,
        };
        pick = pick.answer(reply);
    }
}

#[test]
fn selection_prefers_then_sticks_then_allocates() {
    let fresh = Ok(40000);
    let chosen = |p, o| PortStep::Chosen(p, o);
    assert_eq!(
        pick(None, &[31846], fresh).step,
        chosen(31846, PortOrigin::Preferred)
    );
    assert_eq!(
        pick(Some("53588\n"), &[31846, 53588], fresh).step,
        chosen(31846, PortOrigin::Preferred)
    );
    assert_eq!(
        pick(Some("31846"), &[31846], fresh).step,
        chosen(31846, PortOrigin::Sticky)
    );
    assert_eq!(
        pick(Some(" 53588 "), &[53588], fresh).step,
        chosen(53588, PortOrigin::Sticky)
    );
    assert_eq!(
        pick(Some("53588"), &[], fresh).step,
        chosen(40000, PortOrigin::Fresh)
    );
    assert_eq!(
        pick(Some("0"), &[], fresh).step,
        chosen(40000, PortOrigin::Fresh)
    );
    assert_eq!(
        pick(Some("garbage"), &[], fresh).step,
        chosen(40000, PortOrigin::Fresh)
    );
}

#[test]
fn selection_fails_without_a_fresh_port() {
    let end = pick(None, &[], Err("no ports"));
    assert_eq!(end.step, PortStep::Failed);
    assert_eq!(end.error, "no ports");
}

#[test]
fn selection_fails_without_a_data_dir() {
    let end = PortPick::start().answer(Reply::Failed("nope".to_string()));
    assert_eq!(end.step, PortStep::Failed);
    assert_eq!(end.error, "failed to resolve app data dir: nope");
}

#[test]
fn selection_ignores_replies_to_other_questions() {
    let pick = PortPick::start().answer(Reply::Port(1)).answer(Reply::Answer(true));
    assert_eq!(pick, PortPick::start());
}

#[test]
fn recorded_port_survives_a_relaunch() {
    for port in [1u16, 1024, 53588, 65535] {
        let marker = decimal_text(port);
        assert_eq!(port_from_marker(&marker), Some(port));
        assert_eq!(
            pick(Some(&marker), &[port], Err("none")).step,
            PortStep::Chosen(port, PortOrigin::Sticky)
        );
    }
}

#[test]
fn free_port_errors_say_what_failed() {
    assert_eq!(pick_free_port(Ok(Ok(9))), Ok(9));
    assert_eq!(
        pick_free_port(Ok(Err("gone".to_string()))),
        Err("failed to read selected port: gone".to_string())
    );
    assert_eq!(
        pick_free_port(Err("denied".to_string())),
        Err("failed to bind loopback for port selection: denied".to_string())
    );
}

#[test]
fn selection_tells_its_result() {
    assert_eq!(PortPick::start().result(), None);
    assert_eq!(pick(None, &[], Ok(40000)).result(), Some(Ok(40000)));
    assert_eq!(
        pick(None, &[], Err("none left")).result(),
        Some(Err("none left".to_string()))
    );
}
