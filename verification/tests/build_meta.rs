use maic_desktop::build_meta::{
    read_bundled_meta, server_version_from_meta, version_from_field, TarRun,
};

#[test]
fn server_version_parses_from_meta() {
    assert_eq!(
        server_version_from_meta(r#"{"openmaicVersion":"1.0.3"}"#).as_deref(),
        Some("1.0.3")
    );
    assert_eq!(server_version_from_meta("{}"), None);
    assert_eq!(server_version_from_meta(r#"{"openmaicVersion":""}"#), None);
    assert_eq!(server_version_from_meta(r#"{"openmaicVersion":42}"#), None);
    assert_eq!(server_version_from_meta("not json"), None);
}

#[test]
fn version_is_a_field_of_the_document_itself() {
    assert_eq!(
        server_version_from_meta(
            r#" {"sha": "abc", "openmaicVersion": "1.0.3", "node": {"openmaicVersion": "9"}} "#
        )
        .as_deref(),
        Some("1.0.3")
    );
    assert_eq!(
        server_version_from_meta(r#"{"build": {"openmaicVersion": "1.0.3"}}"#),
        None
    );
    assert_eq!(server_version_from_meta(r#"["openmaicVersion"]"#), None);
    assert_eq!(server_version_from_meta(r#""openmaicVersion""#), None);
    assert_eq!(server_version_from_meta(r#"{"openmaicVersion":null}"#), None);
    assert_eq!(
        server_version_from_meta(r#"{"openmaicVersion":"1.0.3"} x"#),
        None
    );
    assert_eq!(server_version_from_meta(""), None);
}

#[test]
fn empty_version_is_hidden() {
    assert_eq!(version_from_field(Some("1")).as_deref(), Some("1"));
    assert_eq!(version_from_field(Some(" ")).as_deref(), Some(" "));
    assert_eq!(version_from_field(Some("")), None);
    assert_eq!(version_from_field(None), None);
}

fn run(success: bool, stdout: &[u8]) -> Result<TarRun, String> {
    Ok(TarRun {
        success,
        status: "exit status: 2".to_string(),
        stdout: stdout.to_vec(),
        stderr: b"tar: oops".to_vec(),
    })
}

#[test]
fn bundled_meta_is_what_tar_writes() {
    assert_eq!(
        read_bundled_meta(run(true, "{\"n\":\"é\"}\n".as_bytes())),
        Ok("{\"n\":\"é\"}\n".to_string())
    );
    assert_eq!(read_bundled_meta(run(true, b"")), Ok(String::new()));
}

#[test]
fn bundled_meta_errors_say_what_failed() {
    assert_eq!(
        read_bundled_meta(Err("not found".to_string())),
        Err("failed to inspect server.tar.gz: not found".to_string())
    );
    assert_eq!(
        read_bundled_meta(run(false, b"{}")),
        Err("server.tar.gz has no build meta".to_string())
    );
    let bad = vec![b'{', 0xff];
    let why = String::from_utf8(bad.clone()).unwrap_err();
    assert_eq!(
        read_bundled_meta(run(true, &bad)),
        Err(format!("bad build meta encoding: {why}"))
    );
}
