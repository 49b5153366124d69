use maic_desktop::splash::{
    fatal_script, js_string, set_server_version, splash_init_script, status_script, target_label,
    STATUS_CHECKING, STATUS_EXTRACTING, STATUS_PROBING, STATUS_REUSING, STATUS_STAGING,
    STATUS_VERIFYING,
};

#[test]
fn js_string_produces_a_quoted_literal() {
    assert_eq!(js_string("plain"), "\"plain\"");
    // Quotes, backslashes, and line terminators are escaped, so the
    // spliced result stays a single valid JS literal — an unquoted
    // splice site here turned every shell eval into a SyntaxError.
    assert_eq!(js_string("a\"b\\c\nd\re"), "\"a\\\"b\\\\c\\nd\\re\"");
    assert!(!js_string("a\nb").contains('\n'));
}

#[test]
fn target_label_names_the_build_target() {
    assert_eq!(target_label("macos", "aarch64"), "macOS (Apple Silicon)");
    assert_eq!(target_label("macos", "x86_64"), "macOS (Intel Chip)");
    assert_eq!(target_label("windows", "x86_64"), "Windows (x86_64)");
    assert_eq!(target_label("windows", "aarch64"), "Windows (Arm64)");
    assert_eq!(target_label("linux", "x86_64"), "Linux (x86_64)");
    // An arch nobody has named yet is reported as the raw constant.
    assert_eq!(target_label("linux", "arm"), "Linux (arm)");
}

#[test]
fn unnamed_systems_keep_their_name() {
    assert_eq!(target_label("freebsd", "aarch64"), "freebsd (Arm64)");
    assert_eq!(target_label("macOS", "x86_64"), "macOS (Intel Chip)");
    assert_eq!(target_label("", ""), " ()");
}

#[test]
fn literals_of_odd_texts() {
    assert_eq!(js_string(""), "\"\"");
    assert_eq!(js_string("\\"), "\"\\\\\"");
    assert_eq!(js_string("é\t"), "\"é\t\"");
    assert_eq!(
        js_string("a\u{2028}b\u{2029}\u{2027}"),
        "\"a\\u2028b\\u2029\u{2027}\""
    );
    assert_eq!(js_string("\\u2028"), "\"\\\\u2028\"");
}

#[test]
fn status_script_carries_the_whole_page() {
    assert_eq!(
        status_script(Some("1.0.3"), STATUS_PROBING, Some(31846), "Linux (x86_64)"),
        "window.__maicVersion && window.__maicVersion(\"1.0.3\");\
         window.__maicStatus && window.__maicStatus(\"probing\",\"31846\");\
         window.__maicTarget && window.__maicTarget(\"Linux (x86_64)\")"
    );
    assert_eq!(
        status_script(None, STATUS_CHECKING, None, "t"),
        "window.__maicStatus && window.__maicStatus(\"checking\",undefined);\
         window.__maicTarget && window.__maicTarget(\"t\")"
    );
}

#[test]
fn status_keys_are_those_of_the_page() {
    assert_eq!(
        [
            STATUS_CHECKING,
            STATUS_EXTRACTING,
            STATUS_REUSING,
            STATUS_VERIFYING,
            STATUS_STAGING,
            STATUS_PROBING
        ],
        ["checking", "extracting", "reusing", "verifying", "staging", "probing"]
    );
}

#[test]
fn scripts_splice_literals() {
    assert_eq!(
        splash_init_script("<p class=\"a\">\n"),
        "document.open();document.write(\"<p class=\\\"a\\\">\\n\");document.close();"
    );
    assert_eq!(
        fatal_script("no\nserver"),
        "window.__maicFatal && window.__maicFatal(\"no\\nserver\")"
    );
}

#[test]
fn first_server_version_stays() {
    let mut known = None;
    set_server_version(&mut known, None);
    assert_eq!(known, None);
    set_server_version(&mut known, Some("1.0.3".to_string()));
    set_server_version(&mut known, Some("2.0.0".to_string()));
    set_server_version(&mut known, None);
    assert_eq!(known.as_deref(), Some("1.0.3"));
}
