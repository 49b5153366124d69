use maic_desktop::reply::Reply;
use maic_desktop::tree_check::{
    TreeBase, TreeCheck, TreeFault, TreePlace, TreeQuestion, TreeStep,
};
use std::collections::{BTreeMap, BTreeSet};
use std::path::{Path, PathBuf};

/// A file system in memory.
struct Disk {
    dirs: BTreeSet<PathBuf>,
    files: BTreeMap<PathBuf, String>,
}

impl Disk {
    fn new() -> Self {
        Disk {
            dirs: BTreeSet::new(),
            files: BTreeMap::new(),
        }
    }

    fn create_dir_all(&mut self, path: PathBuf) {
        for dir in path.ancestors() {
            self.dirs.insert(dir.to_path_buf());
        }
    }

    fn write(&mut self, path: PathBuf, text: &str) {
        self.files.insert(path, text.to_string());
    }
}

fn locate_above(server_dir: &Path, level: usize) -> PathBuf {
    let next = server_dir.join("node_modules").join("next");
    next.ancestors().nth(level).unwrap().to_path_buf()
}

fn locate(server_dir: &Path, place: TreePlace) -> PathBuf {
    let mut path = match place.base() {
        TreeBase::ServerDir => server_dir.to_path_buf(),
        TreeBase::AboveNext(level) => locate_above(server_dir, level),
    };
    for name in place.path() {
        path.push(name);
    }
    path
}

fn check(disk: &Disk, server_dir: &Path) -> TreeCheck {
    let levels = server_dir.join("node_modules").join("next").ancestors().count();
    let mut check = TreeCheck::start(levels);
    while let Some(question) = check.question() {
        let reply = match question {
            TreeQuestion::IsFile(place) => {
                Reply::Answer(disk.files.contains_key(&locate(server_dir, place)))
            }
            TreeQuestion::IsDir(place) => {
                Reply::Answer(disk.dirs.contains(&locate(server_dir, place)))
            }
            TreeQuestion::ReadText(place) => match disk.files.get(&locate(server_dir, place)) {
                Some(text) => Reply::Text(text.clone()),
                None => Reply::Failed("no such file".to_string()),
            },
            TreeQuestion::ReadName(level) => {
                match locate_above(server_dir, level).file_name() {
                    Some(name) => Reply::Text(name.to_str().unwrap().to_string()),
                    None => Reply::Failed("no name".to_string()),
                }
            }
        };
        check = check.answer(reply);
    }
    check
}

fn verify_server_tree(disk: &Disk, server_dir: &Path) -> Result<(), String> {
    let check = check(disk, server_dir);
    match check.step {
        TreeStep::Sound => Ok(()),
        TreeStep::Broken(fault) => {
            let shown = locate(server_dir, check.place_of(fault));
            Err(fault.message(&shown.display().to_string()))
        }
        _ => unreachable!(),
    }
}

const EXPORTS: &str = r#"{"exports": {"./_/_interop_require_default": {"default": "./cjs/x.cjs"}}}"#;

fn with_next(dir: &Path) -> Disk {
    let mut disk = Disk::new();
    disk.create_dir_all(dir.to_path_buf());
    disk.write(dir.join("server.js"), "x");
    disk.create_dir_all(dir.join("node_modules").join("next").join("dist").join("server"));
    disk
}

#[test]
fn verify_passes_on_complete_tree() {
    let dir = PathBuf::from("/tmp/maic-verify-ok");
    // The shipped tree is hoisted and link-free: `next` sits in
    // node_modules/next and finds its helpers in the same node_modules.
    let mut disk = with_next(&dir);
    let helpers = dir.join("node_modules").join("@swc").join("helpers");
    disk.create_dir_all(helpers.join("cjs"));
    disk.write(helpers.join("package.json"), EXPORTS);
    disk.write(helpers.join("cjs").join("_interop_require_default.cjs"), "c");
    assert!(verify_server_tree(&disk, &dir).is_ok());
}

#[test]
fn verify_fails_without_next() {
    let dir = PathBuf::from("/tmp/maic-verify-no-next");
    let mut disk = Disk::new();
    disk.create_dir_all(dir.clone());
    disk.write(dir.join("server.js"), "x");
    let err = verify_server_tree(&disk, &dir).unwrap_err();
    assert!(err.contains("next"), "bad error: {err}");
}

#[test]
fn verify_fails_without_helpers_files() {
    let dir = PathBuf::from("/tmp/maic-verify-no-hlp");
    let mut disk = with_next(&dir);
    let helpers = dir.join("node_modules").join("@swc").join("helpers");
    disk.create_dir_all(helpers.clone());
    disk.write(helpers.join("package.json"), r#"{"exports": {}}"#);
    let err = verify_server_tree(&disk, &dir).unwrap_err();
    assert!(err.contains("@swc/helpers"), "bad error: {err}");
}

#[test]
fn verify_fails_on_the_broken_windows_tree() {
    // Regression guard for the shipped-Windows crash: `node_modules/next`
    // was a real directory (its link never reached the manifest), so Node
    // resolved it lexically and never walked into the pnpm store where its
    // helpers live. Verification passed anyway because it accepted the
    // `.pnpm/node_modules` hoist bridge. It must fail.
    let dir = PathBuf::from("/tmp/maic-verify-bridge");
    let mut disk = with_next(&dir);
    let bridge = dir
        .join("node_modules")
        .join(".pnpm")
        .join("node_modules")
        .join("@swc")
        .join("helpers");
    disk.create_dir_all(bridge.join("cjs"));
    disk.write(bridge.join("package.json"), EXPORTS);
    disk.write(bridge.join("cjs").join("_interop_require_default.cjs"), "c");
    let err = verify_server_tree(&disk, &dir).unwrap_err();
    assert!(
        err.contains("@swc/helpers") && err.contains("not resolvable"),
        "bad error: {err}"
    );
}

#[test]
fn every_fault_has_its_report() {
    let dir = PathBuf::from("/srv");
    let disk = Disk::new();
    assert_eq!(
        verify_server_tree(&disk, &dir).unwrap_err(),
        "server tree incomplete: /srv/server.js missing"
    );
    let mut disk = Disk::new();
    disk.write(dir.join("server.js"), "x");
    assert_eq!(
        verify_server_tree(&disk, &dir).unwrap_err(),
        "server tree incomplete: /srv/node_modules/next missing (extraction incomplete?)"
    );
    disk.create_dir_all(dir.join("node_modules/next/dist"));
    assert_eq!(
        verify_server_tree(&disk, &dir).unwrap_err(),
        "server tree incomplete: next dist missing under /srv/node_modules/next"
    );
    disk.create_dir_all(dir.join("node_modules/next/dist/server"));
    assert_eq!(
        verify_server_tree(&disk, &dir).unwrap_err(),
        "server tree incomplete: @swc/helpers not resolvable by walking up from \
         /srv/node_modules/next (Node would die with MODULE_NOT_FOUND)"
    );
    let helpers = dir.join("node_modules/@swc/helpers");
    disk.create_dir_all(helpers.clone());
    assert_eq!(
        verify_server_tree(&disk, &dir).unwrap_err(),
        "server tree incomplete: /srv/node_modules/@swc/helpers has no readable package.json"
    );
    disk.write(helpers.join("package.json"), "{}");
    assert_eq!(
        verify_server_tree(&disk, &dir).unwrap_err(),
        "@swc/helpers exports map missing ./_/_interop_require_default in \
         /srv/node_modules/@swc/helpers/package.json"
    );
    disk.write(helpers.join("package.json"), EXPORTS);
    assert_eq!(
        verify_server_tree(&disk, &dir).unwrap_err(),
        "@swc/helpers runtime files missing under /srv/node_modules/@swc/helpers (need \
         esm/_interop_require_default.js or cjs/_interop_require_default.cjs — Next standalone \
         tracing may have pruned them)"
    );
    disk.write(helpers.join("esm/_interop_require_default.js"), "e");
    assert_eq!(verify_server_tree(&disk, &dir), Ok(()));
}

#[test]
fn nearest_helpers_count() {
    // Helpers further up are sound, but those beside `next` come first.
    let dir = PathBuf::from("/srv");
    let mut disk = with_next(&dir);
    let far = PathBuf::from("/node_modules/@swc/helpers");
    disk.create_dir_all(far.clone());
    disk.write(far.join("package.json"), EXPORTS);
    disk.write(far.join("cjs/_interop_require_default.cjs"), "c");
    assert_eq!(check(&disk, &dir).level, 3);
    assert_eq!(verify_server_tree(&disk, &dir), Ok(()));
    let near = dir.join("node_modules/next/node_modules/@swc/helpers");
    disk.create_dir_all(near.clone());
    assert_eq!(
        check(&disk, &dir).step,
        TreeStep::Broken(TreeFault::PackageUnreadable)
    );
    assert_eq!(check(&disk, &dir).level, 0);
}

fn with_helpers(disk: &mut Disk, holder: &Path) {
    let helpers = holder.join("node_modules/@swc/helpers");
    disk.create_dir_all(helpers.clone());
    disk.write(helpers.join("package.json"), EXPORTS);
    disk.write(helpers.join("cjs/_interop_require_default.cjs"), "c");
}

#[test]
fn node_modules_inside_node_modules_do_not_count() {
    let unresolvable = TreeStep::Broken(TreeFault::HelpersUnresolvable);
    let dir = PathBuf::from("/t");
    let mut disk = with_next(&dir);
    with_helpers(&mut disk, &dir.join("node_modules"));
    assert_eq!(check(&disk, &dir).step, unresolvable);
    // So it is further up.
    let dir = PathBuf::from("/a/node_modules/t");
    let mut disk = with_next(&dir);
    with_helpers(&mut disk, Path::new("/a/node_modules"));
    assert_eq!(check(&disk, &dir).step, unresolvable);
    with_helpers(&mut disk, Path::new("/a"));
    assert_eq!(check(&disk, &dir).step, TreeStep::Sound);
    assert_eq!(check(&disk, &dir).level, 4);
    let dir = PathBuf::from("/node_modules");
    let mut disk = with_next(&dir);
    with_helpers(&mut disk, &dir);
    assert_eq!(check(&disk, &dir).step, unresolvable);
    with_helpers(&mut disk, Path::new("/"));
    assert_eq!(check(&disk, &dir).step, TreeStep::Sound);
}

#[test]
fn check_ignores_replies_to_other_questions() {
    let start = TreeCheck::start(3);
    assert_eq!(start.answer(Reply::Done), start);
    assert_eq!(start.answer(Reply::Text("x".to_string())), start);
}
