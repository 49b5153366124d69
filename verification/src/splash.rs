//! Splash window and boot-stage reporting: the scripts that the shell sends to
//! the splash page. The stage wording lives in the page itself, so that it can
//! follow the webview's locale; the shell only carries the key.
use crate::text::{decimal, decimal_text, same_text};
use vstd::prelude::*;
use vstd::string::*;

verus! {

pub const STATUS_CHECKING: &'static str = "checking";

pub const STATUS_EXTRACTING: &'static str = "extracting";

pub const STATUS_REUSING: &'static str = "reusing";

pub const STATUS_VERIFYING: &'static str = "verifying";

pub const STATUS_STAGING: &'static str = "staging";

pub const STATUS_PROBING: &'static str = "probing";

/// The line separator of Unicode, a line terminator in JavaScript.
pub const LINE_SEPARATOR: char = '\u{2028}';

/// The paragraph separator of Unicode, a line terminator in JavaScript.
pub const PARAGRAPH_SEPARATOR: char = '\u{2029}';

/// A character as it stands inside a JavaScript string literal.
pub open spec fn js_escape(c: char) -> Seq<char> {
    if c == '"' || c == '\\' {
        seq!['\\', c]
    } else if c == '\n' {
        seq!['\\', 'n']
    } else if c == '\r' {
        seq!['\\', 'r']
    } else if c == LINE_SEPARATOR {
        seq!['\\', 'u', '2', '0', '2', '8']
    } else if c == PARAGRAPH_SEPARATOR {
        seq!['\\', 'u', '2', '0', '2', '9']
    } else {
        seq![c]
    }
}

/// The characters that end a line in JavaScript.
pub open spec fn is_line_terminator(c: char) -> bool {
    c == '\n' || c == '\r' || c == LINE_SEPARATOR || c == PARAGRAPH_SEPARATOR
}

/// A text as it stands between the quotes of a JavaScript string literal.
pub open spec fn js_escaped(s: Seq<char>) -> Seq<char>
    decreases s.len(),
{
    if s.len() == 0 {
        Seq::empty()
    } else {
        js_escape(s[0]) + js_escaped(s.drop_first())
    }
}

/// The JavaScript string literal for a text, quotes and all.
pub open spec fn js_literal(s: Seq<char>) -> Seq<char> {
    seq!['"'] + js_escaped(s) + seq!['"']
}

/// The text that a JavaScript string literal denotes, read from behind its
/// opening quote; nothing when the literal does not end exactly where `s`
/// does, holds a bare line terminator, or an escape other than those above.
pub open spec fn js_read_body(s: Seq<char>) -> Option<Seq<char>>
    decreases s.len(), 1int,
{
    if s.len() == 0 || is_line_terminator(s[0]) {
        None
    } else if s[0] == '"' {
        if s.len() == 1 {
            Some(Seq::empty())
        } else {
            None
        }
    } else if s[0] == '\\' {
        if s.len() < 2 {
            None
        } else if s[1] == 'u' {
            js_read_unicode(s)
        } else {
            let rest = js_read_body(s.skip(2));
            if rest is None {
                None
            } else if s[1] == '"' || s[1] == '\\' {
                Some(seq![s[1]] + rest->0)
            } else if s[1] == 'n' {
                Some(seq!['\n'] + rest->0)
            } else if s[1] == 'r' {
                Some(seq!['\r'] + rest->0)
            } else {
                None
            }
        }
    } else {
        let rest = js_read_body(s.skip(1));
        if rest is None {
            None
        } else {
            Some(seq![s[0]] + rest->0)
        }
    }
}

/// The same for a text that begins with a Unicode escape: that of one of the
/// two separators.
pub open spec fn js_read_unicode(s: Seq<char>) -> Option<Seq<char>>
    decreases s.len(), 0int,
{
    if s.len() < 6 {
        None
    } else {
        let rest = js_read_body(s.skip(6));
        if rest is None {
            None
        } else if s.take(6) == js_escape(LINE_SEPARATOR) {
            Some(seq![LINE_SEPARATOR] + rest->0)
        } else if s.take(6) == js_escape(PARAGRAPH_SEPARATOR) {
            Some(seq![PARAGRAPH_SEPARATOR] + rest->0)
        } else {
            None
        }
    }
}

/// The text that the JavaScript string literal `s` denotes.
pub open spec fn js_read(s: Seq<char>) -> Option<Seq<char>> {
    if s.len() > 0 && s[0] == '"' {
        js_read_body(s.skip(1))
    } else {
        None
    }
}

/// The page's name for an operating system, in the wording of the download page.
pub open spec fn os_label(os: Seq<char>) -> Seq<char> {
    if os == "macos"@ {
        "macOS"@
    } else if os == "windows"@ {
        "Windows"@
    } else if os == "linux"@ {
        "Linux"@
    } else {
        os
    }
}

/// The page's name for an architecture on the operating system labelled `os`.
pub open spec fn arch_label(os: Seq<char>, arch: Seq<char>) -> Seq<char> {
    if arch == "aarch64"@ {
        if os == "macOS"@ {
            "Apple Silicon"@
        } else {
            "Arm64"@
        }
    } else if arch == "x86_64"@ && os == "macOS"@ {
        "Intel Chip"@
    } else {
        arch
    }
}

/// The name of a build target.
pub open spec fn label_of(os: Seq<char>, arch: Seq<char>) -> Seq<char> {
    os_label(os) + " ("@ + arch_label(os_label(os), arch) + ")"@
}

/// The script that pushes a boot stage: the server version if it is known, the
/// stage with its port, and the build target.
pub open spec fn status_js(
    version: Option<Seq<char>>,
    key: Seq<char>,
    port: Option<u16>,
    target: Seq<char>,
) -> Seq<char> {
    let version_js = match version {
        Some(v) => "window.__maicVersion && window.__maicVersion("@ + js_literal(v) + ");"@,
        None => Seq::empty(),
    };
    let port_js = match port {
        Some(p) => js_literal(decimal(p as nat)),
        None => "undefined"@,
    };
    version_js + "window.__maicStatus && window.__maicStatus("@ + js_literal(key) + ","@ + port_js
        + ");window.__maicTarget && window.__maicTarget("@ + js_literal(target) + ")"@
}

/// The server version on record after `version` is offered: the first one stays.
pub open spec fn version_after<T>(known: Option<T>, version: Option<T>) -> Option<T> {
    if known is Some {
        known
    } else {
        version
    }
}

proof fn lemma_js_read_escaped(s: Seq<char>)
    ensures
        js_read_body(js_escaped(s) + seq!['"']) == Some(s),
    decreases s.len(),
{
    let body = js_escaped(s) + seq!['"'];
    if s.len() == 0 {
        assert(body =~= seq!['"']);
    } else {
        let rest = js_escaped(s.drop_first()) + seq!['"'];
        lemma_js_read_escaped(s.drop_first());
        assert(body =~= js_escape(s[0]) + rest);
        assert(body.skip(js_escape(s[0]).len() as int) =~= rest);
        assert(seq![s[0]] + s.drop_first() =~= s);
        if s[0] == LINE_SEPARATOR || s[0] == PARAGRAPH_SEPARATOR {
            assert(body.take(6) =~= js_escape(s[0]));
            assert(js_escape(LINE_SEPARATOR)[5] != js_escape(PARAGRAPH_SEPARATOR)[5]);
            reveal_with_fuel(js_read_body, 2);
            reveal_with_fuel(js_read_unicode, 2);
        }
    }
}

/// A text survives its literal: JavaScript reads back exactly the text that
/// was put in, so the literal is complete, has no bare line terminator or quote
/// inside, and can be spliced into a script as it is.
pub proof fn lemma_js_literal_reads_back(s: Seq<char>)
    ensures
        js_read(js_literal(s)) == Some(s),
{
    lemma_js_read_escaped(s);
    assert(js_literal(s).skip(1) =~= js_escaped(s) + seq!['"']);
}

/// A literal holds no line terminator.
pub proof fn lemma_js_literal_is_one_line(s: Seq<char>)
    ensures
        !js_literal(s).contains('\n'),
        !js_literal(s).contains('\r'),
        !js_literal(s).contains(LINE_SEPARATOR),
        !js_literal(s).contains(PARAGRAPH_SEPARATOR),
    decreases s.len(),
{
    if s.len() == 0 {
        assert(js_literal(s) =~= seq!['"', '"']);
    } else {
        let t = s.drop_first();
        lemma_js_literal_is_one_line(t);
        let e = js_escape(s[0]);
        assert forall|i: int| 0 <= i < js_literal(s).len() implies !is_line_terminator(
            #[trigger] js_literal(s)[i],
        ) by {
            if 1 <= i && i >= 1 + e.len() {
                assert(js_literal(s)[i] == js_literal(t)[i - e.len()]);
            } else if 1 <= i {
                assert(js_literal(s)[i] == e[i - 1]);
            }
        }
    }
}

/// The version that comes first stays, whatever is offered later.
pub proof fn lemma_first_version_stays<T>(first: T, later: Option<T>)
    ensures
        version_after(version_after(None, Some(first)), later) == Some(first),
{
}

/// Render `s` as a complete JavaScript string literal — including the
/// surrounding quotes — with quotes, backslashes, and line terminators escaped.
/// Callers splice the result straight into generated JavaScript.
pub fn js_string(s: &str) -> (r: String)
    ensures
        r@ == js_literal(s@),
{
    let mut out = String::new();
    out.push('"');
    assert(out@ =~= seq!['"']);
    assert(s@.skip(0) =~= s@);
    for c in it: s.chars()
        invariant
            it.seq() == s@,
            seq!['"'] + js_escaped(s@) =~= out@ + js_escaped(s@.skip(it.index() as int)),
    {
        let ghost before = out@;
        let ghost rest = s@.skip(it.index() as int);
        assert(rest[0] == c);
        assert(rest.drop_first() =~= s@.skip(it.index() + 1));
        if c == '"' || c == '\\' {
            out.push('\\');
            out.push(c);
        } else if c == '\n' {
            out.push('\\');
            out.push('n');
        } else if c == '\r' {
            out.push('\\');
            out.push('r');
        } else if c == LINE_SEPARATOR {
            out.append("\\u2028");
            proof {
                reveal_strlit("\\u2028");
            }
        } else if c == PARAGRAPH_SEPARATOR {
            out.append("\\u2029");
            proof {
                reveal_strlit("\\u2029");
            }
        } else {
            out.push(c);
        }
        assert(out@ =~= before + js_escape(c));
    }
    out.push('"');
    out
}

/// The script that writes the splash page into a blank document.
pub fn splash_init_script(html: &str) -> (r: String)
    ensures
        r@ == "document.open();document.write("@ + js_literal(html@) + ");document.close();"@,
{
    let mut out = "document.open();document.write(".to_string();
    out.append(js_string(html).as_str());
    out.append(");document.close();");
    out
}

/// The script that shows a fatal error inside the splash window.
pub fn fatal_script(message: &str) -> (r: String)
    ensures
        r@ == "window.__maicFatal && window.__maicFatal("@ + js_literal(message@) + ")"@,
{
    let mut out = "window.__maicFatal && window.__maicFatal(".to_string();
    out.append(js_string(message).as_str());
    out.append(")");
    out
}

/// Put the server version on record. Only the first one counts; `None` leaves
/// the splash version line as it is.
pub fn set_server_version(known: &mut Option<String>, version: Option<String>)
    ensures
        *final(known) == version_after(*old(known), version),
{
    if known.is_none() {
        *known = version;
    }
}

/// The script for one boot stage. Scripts can be dropped while the page is
/// still loading, so the footer (server version and build target) rides along
/// with every stage: whichever one first reaches the document paints it all.
pub fn status_script(version: Option<&str>, key: &str, port: Option<u16>, target: &str) -> (r:
    String)
    ensures
        r@ == status_js(
            match version {
                Some(v) => Some(v@),
                None => None,
            },
            key@,
            port,
            target@,
        ),
{
    let mut out = match version {
        Some(v) => {
            let mut js = "window.__maicVersion && window.__maicVersion(".to_string();
            js.append(js_string(v).as_str());
            js.append(");");
            js
        },
        None => String::new(),
    };
    out.append("window.__maicStatus && window.__maicStatus(");
    out.append(js_string(key).as_str());
    out.append(",");
    match port {
        Some(p) => {
            out.append(js_string(decimal_text(p).as_str()).as_str());
        },
        None => {
            out.append("undefined");
        },
    }
    out.append(");window.__maicTarget && window.__maicTarget(");
    out.append(js_string(target).as_str());
    out.append(")");
    out
}

/// Name the platform an executable was built for, in the wording the download
/// page uses. An architecture nobody has named yet is reported as it is.
pub fn target_label(os: &str, arch: &str) -> (r: String)
    ensures
        r@ == label_of(os@, arch@),
{
    let os: &str = if same_text(os, "macos") {
        "macOS"
    } else if same_text(os, "windows") {
        "Windows"
    } else if same_text(os, "linux") {
        "Linux"
    } else {
        os
    };
    let arch: &str = if same_text(arch, "aarch64") {
        if same_text(os, "macOS") {
            "Apple Silicon"
        } else {
            "Arm64"
        }
    } else if same_text(arch, "x86_64") && same_text(os, "macOS") {
        "Intel Chip"
    } else {
        arch
    };
    let mut out = os.to_string();
    out.append(" (");
    out.append(arch);
    out.append(")");
    out
}

proof fn lemma_js_escaped_concat(a: Seq<char>, b: Seq<char>)
    ensures
        js_escaped(a + b) == js_escaped(a) + js_escaped(b),
    decreases a.len(),
{
    if a.len() == 0 {
        assert(a + b =~= b);
        assert(js_escaped(a) + js_escaped(b) =~= js_escaped(b));
    } else {
        assert((a + b).drop_first() =~= a.drop_first() + b);
        lemma_js_escaped_concat(a.drop_first(), b);
        assert(js_escaped(a + b) =~= js_escaped(a) + js_escaped(b));
    }
}

/// The literal of a text is that of its parts, spliced at the quotes: no
/// character is escaped in view of its neighbours.
pub proof fn lemma_js_literal_splices(a: Seq<char>, b: Seq<char>)
    ensures
        js_literal(Seq::empty()) == seq!['"', '"'],
        js_literal(a + b) == js_literal(a).drop_last() + js_literal(b).drop_first(),
{
    assert(js_literal(Seq::empty()) =~= seq!['"', '"']);
    lemma_js_escaped_concat(a, b);
    assert(js_literal(a + b) =~= js_literal(a).drop_last() + js_literal(b).drop_first());
}

/// The literal of a single character: the quote, the backslash and the four
/// line terminators are escaped, and any other character stands for itself.
pub proof fn lemma_js_literal_of_char(c: char)
    ensures
        js_literal(seq![c]) == (if c == '"' {
            seq!['"', '\\', '"', '"']
        } else if c == '\\' {
            seq!['"', '\\', '\\', '"']
        } else if c as u32 == 10 {
            seq!['"', '\\', 'n', '"']
        } else if c as u32 == 13 {
            seq!['"', '\\', 'r', '"']
        } else if c as u32 == 8232 {
            seq!['"', '\\', 'u', '2', '0', '2', '8', '"']
        } else if c as u32 == 8233 {
            seq!['"', '\\', 'u', '2', '0', '2', '9', '"']
        } else {
            seq!['"', c, '"']
        }),
{
    assert(seq![c].drop_first() =~= Seq::<char>::empty());
    reveal_with_fuel(js_escaped, 2);
    assert(js_escaped(seq![c]) =~= js_escape(c));
    assert(js_literal(seq![c]) =~= seq!['"'] + js_escape(c) + seq!['"']);
}

/// The name of a build target: the system in the wording of the download page,
/// and in brackets the architecture, which has names of its own on macOS.
/// Whatever has no such name is shown as it is.
pub proof fn lemma_target_is_named(os: Seq<char>, arch: Seq<char>)
    ensures
        ({
            let shown = if os == "macos"@ {
                "macOS"@
            } else if os == "windows"@ {
                "Windows"@
            } else if os == "linux"@ {
                "Linux"@
            } else {
                os
            };
            &&& shown == "macOS"@ && arch == "aarch64"@ ==> label_of(os, arch) == shown + " ("@
                + "Apple Silicon"@ + ")"@
            &&& shown == "macOS"@ && arch == "x86_64"@ ==> label_of(os, arch) == shown + " ("@
                + "Intel Chip"@ + ")"@
            &&& arch != "aarch64"@ && arch != "x86_64"@ ==> label_of(os, arch) == shown + " ("@
                + arch + ")"@
            &&& shown != "macOS"@ && arch == "aarch64"@ ==> label_of(os, arch) == shown + " ("@
                + "Arm64"@ + ")"@
            &&& shown != "macOS"@ && arch == "x86_64"@ ==> label_of(os, arch) == shown + " ("@
                + "x86_64"@ + ")"@
        }),
{
    reveal_strlit("aarch64");
    reveal_strlit("x86_64");
    assert("aarch64"@.len() != "x86_64"@.len());
}

/// Every push shows the stage, its port if it has one, and the build target;
/// a version that is known is shown before, and changes nothing of the rest.
pub proof fn lemma_push_paints_the_page(
    version: Seq<char>,
    key: Seq<char>,
    port: u16,
    target: Seq<char>,
)
    ensures
        status_js(None, key, None, target) == "window.__maicStatus && window.__maicStatus("@
            + js_literal(key) + ","@ + "undefined"@
            + ");window.__maicTarget && window.__maicTarget("@ + js_literal(target) + ")"@,
        status_js(None, key, Some(port), target) == "window.__maicStatus && window.__maicStatus("@
            + js_literal(key) + ","@ + js_literal(decimal(port as nat))
            + ");window.__maicTarget && window.__maicTarget("@ + js_literal(target) + ")"@,
        status_js(Some(version), key, None, target)
            == "window.__maicVersion && window.__maicVersion("@ + js_literal(version) + ");"@
            + status_js(None, key, None, target),
        status_js(Some(version), key, Some(port), target)
            == "window.__maicVersion && window.__maicVersion("@ + js_literal(version) + ");"@
            + status_js(None, key, Some(port), target),
{
    let shown = "window.__maicVersion && window.__maicVersion("@ + js_literal(version) + ");"@;
    assert(status_js(None, key, None, target) =~= "window.__maicStatus && window.__maicStatus("@
        + js_literal(key) + ","@ + "undefined"@ + ");window.__maicTarget && window.__maicTarget("@
        + js_literal(target) + ")"@);
    assert(status_js(None, key, Some(port), target)
        =~= "window.__maicStatus && window.__maicStatus("@ + js_literal(key) + ","@ + js_literal(
        decimal(port as nat),
    ) + ");window.__maicTarget && window.__maicTarget("@ + js_literal(target) + ")"@);
    assert(status_js(Some(version), key, None, target) =~= shown + status_js(
        None,
        key,
        None,
        target,
    ));
    assert(status_js(Some(version), key, Some(port), target) =~= shown + status_js(
        None,
        key,
        Some(port),
        target,
    ));
}

/// A version is put on record if none is, and stays whatever comes later.
pub proof fn lemma_version_is_recorded_once<T>(known: T, version: Option<T>)
    ensures
        version_after(None, version) == version,
        version_after(Some(known), version) == Some(known),
{
}

} // verus!
