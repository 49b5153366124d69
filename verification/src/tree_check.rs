//! Boot verification of a server tree: whether the bundled server, and what it
//! needs at run time, is all there.
use crate::reply::Reply;
use crate::text::{
    contains, contains_text, lemma_contains_in_any_surroundings, lemma_contains_is_occurrence,
    same_text,
};
use vstd::prelude::*;
use vstd::string::*;

verus! {

/// Where a place of the tree is counted from.
#[derive(Debug, Clone, Copy, PartialEq, Eq, Structural)]
pub enum TreeBase {
    /// The server directory.
    ServerDir,
    /// The directory so many levels above that of `next`; `next` itself is
    /// level zero.
    AboveNext(usize),
}

/// A place in a server tree. The helpers belong to the `node_modules` of a
/// directory so many levels above `next`.
#[derive(Debug, Clone, Copy, PartialEq, Eq, Structural)]
pub enum TreePlace {
    ServerJs,
    NextDir,
    NextDist,
    Helpers(usize),
    HelpersPackage(usize),
    HelpersEsm(usize),
    HelpersCjs(usize),
}

/// A question about the file system.
#[derive(Debug, Clone, Copy, PartialEq, Eq, Structural)]
pub enum TreeQuestion {
    /// Is there a file (`Answer`)?
    IsFile(TreePlace),
    /// Is there a directory (`Answer`)?
    IsDir(TreePlace),
    /// What does the file say (`Text` or `Failed`)?
    ReadText(TreePlace),
    /// What is the directory so many levels above `next` called (`Text`, or
    /// `Failed` if it has no name)?
    ReadName(usize),
}

/// What is wrong with a server tree.
#[derive(Debug, Clone, Copy, PartialEq, Eq, Structural)]
pub enum TreeFault {
    ServerJsMissing,
    NextMissing,
    NextDistMissing,
    /// No directory from `next` upwards offers the helpers.
    HelpersUnresolvable,
    /// The nearest helpers have no readable package.json.
    PackageUnreadable,
    /// The nearest helpers do not export what the server loads first.
    ExportMissing,
    /// The nearest helpers lack both forms of that export.
    RuntimeFilesMissing,
}

/// How far the check of a server tree has come.
#[derive(Debug, Clone, Copy, PartialEq, Eq, Structural)]
pub enum TreeStep {
    ServerJs,
    NextDir,
    NextDist,
    Helpers,
    Name,
    Package,
    Esm,
    Cjs,
    /// Over: the tree can boot.
    Sound,
    /// Over: the tree cannot boot.
    Broken(TreeFault),
}

/// The check of a server tree. `@swc/helpers` must be reachable the way Node
/// reaches it — by walking up from `next`'s own directory, past every directory
/// that is itself a `node_modules`, such as the one that holds `next`. There is
/// deliberately no fallback: helpers reachable only through a hoist bridge
/// mean that `next` itself cannot resolve them.
#[derive(Debug, Clone, Copy, PartialEq, Eq, Structural)]
pub struct TreeCheck {
    pub step: TreeStep,
    /// How far above `next` the helpers are looked for.
    pub level: usize,
    /// How many directories there are from `next` upwards.
    pub levels: usize,
}

/// The directory that `place` is counted from.
pub open spec fn base_of(place: TreePlace) -> TreeBase {
    match place {
        TreePlace::Helpers(level) => TreeBase::AboveNext(level),
        TreePlace::HelpersPackage(level) => TreeBase::AboveNext(level),
        TreePlace::HelpersEsm(level) => TreeBase::AboveNext(level),
        TreePlace::HelpersCjs(level) => TreeBase::AboveNext(level),
        _ => TreeBase::ServerDir,
    }
}

/// The path of `place` from its base on, one name at a time.
pub open spec fn path_of(place: TreePlace) -> Seq<Seq<char>> {
    match place {
        TreePlace::ServerJs => seq!["server.js"@],
        TreePlace::NextDir => seq!["node_modules"@, "next"@],
        TreePlace::NextDist => seq!["node_modules"@, "next"@, "dist"@, "server"@],
        TreePlace::Helpers(_) => seq!["node_modules"@, "@swc"@, "helpers"@],
        TreePlace::HelpersPackage(_) => seq![
            "node_modules"@,
            "@swc"@,
            "helpers"@,
            "package.json"@,
        ],
        TreePlace::HelpersEsm(_) => seq![
            "node_modules"@,
            "@swc"@,
            "helpers"@,
            "esm"@,
            "_interop_require_default.js"@,
        ],
        TreePlace::HelpersCjs(_) => seq![
            "node_modules"@,
            "@swc"@,
            "helpers"@,
            "cjs"@,
            "_interop_require_default.cjs"@,
        ],
    }
}

/// The export that the server loads first, as package.json spells it.
pub open spec fn exports_interop(package: Seq<char>) -> bool {
    contains(package, "\"./_/_interop_require_default\""@)
}

/// What the check reports of `fault` where `shown` is the place it is about.
pub open spec fn message_of(fault: TreeFault, shown: Seq<char>) -> Seq<char> {
    match fault {
        TreeFault::ServerJsMissing => "server tree incomplete: "@ + shown + " missing"@,
        TreeFault::NextMissing => "server tree incomplete: "@ + shown
            + " missing (extraction incomplete?)"@,
        TreeFault::NextDistMissing => "server tree incomplete: next dist missing under "@ + shown,
        TreeFault::HelpersUnresolvable =>
        "server tree incomplete: @swc/helpers not resolvable by walking up from "@ + shown
            + " (Node would die with MODULE_NOT_FOUND)"@,
        TreeFault::PackageUnreadable => "server tree incomplete: "@ + shown
            + " has no readable package.json"@,
        TreeFault::ExportMissing =>
        "@swc/helpers exports map missing ./_/_interop_require_default in "@ + shown,
        TreeFault::RuntimeFilesMissing => "@swc/helpers runtime files missing under "@ + shown
            + " (need esm/_interop_require_default.js or cjs/_interop_require_default.cjs — Next standalone tracing may have pruned them)"@,
    }
}

impl TreePlace {
    /// The directory that the place is counted from.
    pub fn base(self) -> (r: TreeBase)
        ensures
            r == base_of(self),
    {
        match self {
            TreePlace::Helpers(level) => TreeBase::AboveNext(level),
            TreePlace::HelpersPackage(level) => TreeBase::AboveNext(level),
            TreePlace::HelpersEsm(level) => TreeBase::AboveNext(level),
            TreePlace::HelpersCjs(level) => TreeBase::AboveNext(level),
            _ => TreeBase::ServerDir,
        }
    }

    /// The path of the place from its base on, one name at a time.
    pub fn path(self) -> (r: Vec<&'static str>)
        ensures
            r@.map_values(|name: &'static str| name@) =~= path_of(self),
    {
        match self {
            TreePlace::ServerJs => vec!["server.js"],
            TreePlace::NextDir => vec!["node_modules", "next"],
            TreePlace::NextDist => vec!["node_modules", "next", "dist", "server"],
            TreePlace::Helpers(_) => vec!["node_modules", "@swc", "helpers"],
            TreePlace::HelpersPackage(_) => vec![
                "node_modules",
                "@swc",
                "helpers",
                "package.json",
            ],
            TreePlace::HelpersEsm(_) => vec![
                "node_modules",
                "@swc",
                "helpers",
                "esm",
                "_interop_require_default.js",
            ],
            TreePlace::HelpersCjs(_) => vec![
                "node_modules",
                "@swc",
                "helpers",
                "cjs",
                "_interop_require_default.cjs",
            ],
        }
    }
}

impl TreeCheck {
    /// The check of a tree with so many directories from `next` upwards.
    pub open spec fn started(levels: usize) -> Self {
        TreeCheck { step: TreeStep::ServerJs, level: 0, levels }
    }

    /// The check, ended by `fault`.
    pub open spec fn broken(self, fault: TreeFault) -> Self {
        TreeCheck { step: TreeStep::Broken(fault), ..self }
    }

    /// On with the next directory above, unless that is the `node_modules` that
    /// holds `next`; over where there is none.
    pub open spec fn further(self) -> Self {
        let level = if self.level == 0 {
            2
        } else {
            self.level + 1
        };
        if level < self.levels {
            TreeCheck { step: TreeStep::Name, level: level as usize, ..self }
        } else {
            self.broken(TreeFault::HelpersUnresolvable)
        }
    }

    /// What the check asks next; nothing once it is over.
    pub open spec fn asks(self) -> Option<TreeQuestion> {
        match self.step {
            TreeStep::ServerJs => Some(TreeQuestion::IsFile(TreePlace::ServerJs)),
            TreeStep::NextDir => Some(TreeQuestion::IsDir(TreePlace::NextDir)),
            TreeStep::NextDist => Some(TreeQuestion::IsDir(TreePlace::NextDist)),
            TreeStep::Helpers => Some(TreeQuestion::IsDir(TreePlace::Helpers(self.level))),
            TreeStep::Name => Some(TreeQuestion::ReadName(self.level)),
            TreeStep::Package => Some(
                TreeQuestion::ReadText(TreePlace::HelpersPackage(self.level)),
            ),
            TreeStep::Esm => Some(TreeQuestion::IsFile(TreePlace::HelpersEsm(self.level))),
            TreeStep::Cjs => Some(TreeQuestion::IsFile(TreePlace::HelpersCjs(self.level))),
            TreeStep::Sound => None,
            TreeStep::Broken(_) => None,
        }
    }

    /// The check after `reply`. A reply that does not belong to the question
    /// changes nothing.
    pub open spec fn after(self, reply: Reply<Seq<char>>) -> Self {
        match (self.step, reply) {
            (TreeStep::ServerJs, Reply::Answer(ok)) => if ok {
                TreeCheck { step: TreeStep::NextDir, ..self }
            } else {
                self.broken(TreeFault::ServerJsMissing)
            },
            (TreeStep::NextDir, Reply::Answer(ok)) => if ok {
                TreeCheck { step: TreeStep::NextDist, ..self }
            } else {
                self.broken(TreeFault::NextMissing)
            },
            (TreeStep::NextDist, Reply::Answer(ok)) => if !ok {
                self.broken(TreeFault::NextDistMissing)
            } else if self.level < self.levels {
                TreeCheck { step: TreeStep::Helpers, ..self }
            } else {
                self.broken(TreeFault::HelpersUnresolvable)
            },
            (TreeStep::Helpers, Reply::Answer(ok)) => if ok {
                TreeCheck { step: TreeStep::Package, ..self }
            } else {
                self.further()
            },
            (TreeStep::Name, Reply::Text(name)) => if name == "node_modules"@ {
                self.further()
            } else {
                TreeCheck { step: TreeStep::Helpers, ..self }
            },
            (TreeStep::Name, Reply::Failed(_)) => TreeCheck { step: TreeStep::Helpers, ..self },
            (TreeStep::Package, Reply::Text(package)) => if exports_interop(package) {
                TreeCheck { step: TreeStep::Esm, ..self }
            } else {
                self.broken(TreeFault::ExportMissing)
            },
            (TreeStep::Package, Reply::Failed(_)) => self.broken(TreeFault::PackageUnreadable),
            (TreeStep::Esm, Reply::Answer(ok)) => TreeCheck {
                step: if ok {
                    TreeStep::Sound
                } else {
                    TreeStep::Cjs
                },
                ..self
            },
            (TreeStep::Cjs, Reply::Answer(ok)) => if ok {
                TreeCheck { step: TreeStep::Sound, ..self }
            } else {
                self.broken(TreeFault::RuntimeFilesMissing)
            },
            _ => self,
        }
    }

    /// The place that the report of a fault shows.
    pub open spec fn shown_place(self, fault: TreeFault) -> TreePlace {
        match fault {
            TreeFault::ServerJsMissing => TreePlace::ServerJs,
            TreeFault::NextMissing => TreePlace::NextDir,
            TreeFault::NextDistMissing => TreePlace::NextDir,
            TreeFault::HelpersUnresolvable => TreePlace::NextDir,
            TreeFault::PackageUnreadable => TreePlace::Helpers(self.level),
            TreeFault::ExportMissing => TreePlace::HelpersPackage(self.level),
            TreeFault::RuntimeFilesMissing => TreePlace::Helpers(self.level),
        }
    }

    /// Check a tree with so many directories from `next` upwards.
    pub fn start(levels: usize) -> (r: Self)
        ensures
            r == Self::started(levels),
    {
        TreeCheck { step: TreeStep::ServerJs, level: 0, levels }
    }

    /// What the check asks next; nothing once it is over.
    pub fn question(self) -> (r: Option<TreeQuestion>)
        ensures
            r == self.asks(),
    {
        match self.step {
            TreeStep::ServerJs => Some(TreeQuestion::IsFile(TreePlace::ServerJs)),
            TreeStep::NextDir => Some(TreeQuestion::IsDir(TreePlace::NextDir)),
            TreeStep::NextDist => Some(TreeQuestion::IsDir(TreePlace::NextDist)),
            TreeStep::Helpers => Some(TreeQuestion::IsDir(TreePlace::Helpers(self.level))),
            TreeStep::Name => Some(TreeQuestion::ReadName(self.level)),
            TreeStep::Package => Some(
                TreeQuestion::ReadText(TreePlace::HelpersPackage(self.level)),
            ),
            TreeStep::Esm => Some(TreeQuestion::IsFile(TreePlace::HelpersEsm(self.level))),
            TreeStep::Cjs => Some(TreeQuestion::IsFile(TreePlace::HelpersCjs(self.level))),
            TreeStep::Sound => None,
            TreeStep::Broken(_) => None,
        }
    }

    fn walk_on(self) -> (r: Self)
        ensures
            r == self.further(),
    {
        let mut next = self;
        if self.level == 0 && 2 < self.levels {
            next.level = 2;
            next.step = TreeStep::Name;
        } else if 0 < self.level && self.level < self.levels && self.level + 1 < self.levels {
            next.level = self.level + 1;
            next.step = TreeStep::Name;
        } else {
            next.step = TreeStep::Broken(TreeFault::HelpersUnresolvable);
        }
        next
    }

    /// Take in the reply to the current question.
    pub fn answer(self, reply: Reply<String>) -> (r: Self)
        ensures
            r == self.after(reply@),
    {
        let mut next = self;
        match (self.step, reply) {
            (TreeStep::ServerJs, Reply::Answer(ok)) => {
                next.step = if ok {
                    TreeStep::NextDir
                } else {
                    TreeStep::Broken(TreeFault::ServerJsMissing)
                };
            },
            (TreeStep::NextDir, Reply::Answer(ok)) => {
                next.step = if ok {
                    TreeStep::NextDist
                } else {
                    TreeStep::Broken(TreeFault::NextMissing)
                };
            },
            (TreeStep::NextDist, Reply::Answer(ok)) => {
                next.step = if !ok {
                    TreeStep::Broken(TreeFault::NextDistMissing)
                } else if self.level < self.levels {
                    TreeStep::Helpers
                } else {
                    TreeStep::Broken(TreeFault::HelpersUnresolvable)
                };
            },
            (TreeStep::Helpers, Reply::Answer(ok)) => {
                if ok {
                    next.step = TreeStep::Package;
                } else {
                    next = self.walk_on();
                }
            },
            (TreeStep::Name, Reply::Text(name)) => {
                if same_text(name.as_str(), "node_modules") {
                    next = self.walk_on();
                } else {
                    next.step = TreeStep::Helpers;
                }
            },
            (TreeStep::Name, Reply::Failed(_)) => {
                next.step = TreeStep::Helpers;
            },
            (TreeStep::Package, Reply::Text(package)) => {
                next.step = if contains_text(
                    package.as_str(),
                    "\"./_/_interop_require_default\"",
                ) {
                    TreeStep::Esm
                } else {
                    TreeStep::Broken(TreeFault::ExportMissing)
                };
            },
            (TreeStep::Package, Reply::Failed(_)) => {
                next.step = TreeStep::Broken(TreeFault::PackageUnreadable);
            },
            (TreeStep::Esm, Reply::Answer(ok)) => {
                next.step = if ok {
                    TreeStep::Sound
                } else {
                    TreeStep::Cjs
                };
            },
            (TreeStep::Cjs, Reply::Answer(ok)) => {
                next.step = if ok {
                    TreeStep::Sound
                } else {
                    TreeStep::Broken(TreeFault::RuntimeFilesMissing)
                };
            },
            _ => {},
        }
        next
    }

    /// The place that the report of `fault` shows.
    pub fn place_of(self, fault: TreeFault) -> (r: TreePlace)
        ensures
            r == self.shown_place(fault),
    {
        match fault {
            TreeFault::ServerJsMissing => TreePlace::ServerJs,
            TreeFault::NextMissing => TreePlace::NextDir,
            TreeFault::NextDistMissing => TreePlace::NextDir,
            TreeFault::HelpersUnresolvable => TreePlace::NextDir,
            TreeFault::PackageUnreadable => TreePlace::Helpers(self.level),
            TreeFault::ExportMissing => TreePlace::HelpersPackage(self.level),
            TreeFault::RuntimeFilesMissing => TreePlace::Helpers(self.level),
        }
    }
}

impl TreeFault {
    /// The report of the fault, where `shown` is the path of its place.
    pub fn message(self, shown: &str) -> (r: String)
        ensures
            r@ == message_of(self, shown@),
    {
        let (before, behind): (&str, &str) = match self {
            TreeFault::ServerJsMissing => ("server tree incomplete: ", " missing"),
            TreeFault::NextMissing => (
                "server tree incomplete: ",
                " missing (extraction incomplete?)",
            ),
            TreeFault::NextDistMissing => ("server tree incomplete: next dist missing under ", ""),
            TreeFault::HelpersUnresolvable => (
                "server tree incomplete: @swc/helpers not resolvable by walking up from ",
                " (Node would die with MODULE_NOT_FOUND)",
            ),
            TreeFault::PackageUnreadable => (
                "server tree incomplete: ",
                " has no readable package.json",
            ),
            TreeFault::ExportMissing => (
                "@swc/helpers exports map missing ./_/_interop_require_default in ",
                "",
            ),
            TreeFault::RuntimeFilesMissing => (
                "@swc/helpers runtime files missing under ",
                " (need esm/_interop_require_default.js or cjs/_interop_require_default.cjs — Next standalone tracing may have pruned them)",
            ),
        };
        let mut out = before.to_string();
        out.append(shown);
        out.append(behind);
        proof {
            reveal_strlit("");
            assert(before@ + shown@ + ""@ =~= before@ + shown@);
        }
        out
    }
}

/// What the file system holds of a server tree: the names of the directories,
/// the helpers, and what belongs to them, are told by the level above `next`
/// that they are found at.
pub struct TreeFacts {
    pub levels: usize,
    pub server_js: bool,
    pub next_dir: bool,
    pub next_dist: bool,
    pub name: spec_fn(int) -> Option<Seq<char>>,
    pub helpers: spec_fn(int) -> bool,
    pub package: spec_fn(int) -> Option<Seq<char>>,
    pub esm: spec_fn(int) -> bool,
    pub cjs: spec_fn(int) -> bool,
}

impl TreeFacts {
    /// What this file system replies to a question.
    pub open spec fn reply(self, question: Option<TreeQuestion>) -> Reply<Seq<char>> {
        match question {
            Some(TreeQuestion::IsFile(TreePlace::ServerJs)) => Reply::Answer(self.server_js),
            Some(TreeQuestion::IsDir(TreePlace::NextDir)) => Reply::Answer(self.next_dir),
            Some(TreeQuestion::IsDir(TreePlace::NextDist)) => Reply::Answer(self.next_dist),
            Some(TreeQuestion::IsDir(TreePlace::Helpers(k))) => Reply::Answer(
                (self.helpers)(k as int),
            ),
            Some(TreeQuestion::ReadName(k)) => match (self.name)(k as int) {
                Some(t) => Reply::Text(t),
                None => Reply::Failed(Seq::empty()),
            },
            Some(TreeQuestion::ReadText(TreePlace::HelpersPackage(k))) => match (self.package)(
                k as int,
            ) {
                Some(t) => Reply::Text(t),
                None => Reply::Failed(Seq::empty()),
            },
            Some(TreeQuestion::IsFile(TreePlace::HelpersEsm(k))) => Reply::Answer(
                (self.esm)(k as int),
            ),
            Some(TreeQuestion::IsFile(TreePlace::HelpersCjs(k))) => Reply::Answer(
                (self.cjs)(k as int),
            ),
            _ => Reply::Done,
        }
    }

    /// The check after `n` more replies of this file system.
    pub open spec fn run(self, check: TreeCheck, n: nat) -> TreeCheck
        decreases n,
    {
        if n == 0 {
            check
        } else {
            self.run(check.after(self.reply(check.asks())), (n - 1) as nat)
        }
    }

    /// What the check comes to on this file system.
    pub open spec fn checked(self) -> TreeCheck {
        self.run(TreeCheck::started(self.levels), 2 * self.levels as nat + 6)
    }

    /// The server script and `next` are there.
    pub open spec fn has_next(self) -> bool {
        self.server_js && self.next_dir && self.next_dist
    }

    /// Node looks for modules at level `k`: in `next` itself, and above the
    /// `node_modules` that holds it, wherever the directory is not called
    /// `node_modules` itself.
    pub open spec fn searched(self, k: int) -> bool {
        k == 0 || (2 <= k < self.levels && (self.name)(k) != Some("node_modules"@))
    }

    /// Walking up from `next` as Node does, the helpers are found at level `k`
    /// first.
    pub open spec fn nearest(self, k: int) -> bool {
        &&& 0 <= k < self.levels
        &&& self.searched(k)
        &&& (self.helpers)(k)
        &&& forall|j: int| 0 <= j < k && self.searched(j) ==> !#[trigger] (self.helpers)(j)
    }

    /// The package.json at level `k` exports what the server loads first.
    pub open spec fn exported(self, k: int) -> bool {
        (self.package)(k) is Some && exists|i: int, j: int|
            0 <= i && j == i + "\"./_/_interop_require_default\""@.len() && j <= (self.package)(
                k,
            )->0.len() && #[trigger] (self.package)(k)->0.subrange(i, j)
                == "\"./_/_interop_require_default\""@
    }

    /// The tree can boot.
    pub open spec fn bootable(self) -> bool {
        self.has_next() && exists|k: int| #[trigger]
            self.nearest(k) && self.exported(k) && ((self.esm)(k) || (self.cjs)(k))
    }

    /// The tree has `fault`, of the helpers at level `k` if it is about them.
    pub open spec fn has_fault(self, fault: TreeFault, k: int) -> bool {
        match fault {
            TreeFault::ServerJsMissing => !self.server_js,
            TreeFault::NextMissing => self.server_js && !self.next_dir,
            TreeFault::NextDistMissing => self.server_js && self.next_dir && !self.next_dist,
            TreeFault::HelpersUnresolvable => self.has_next() && forall|j: int|
                0 <= j < self.levels && self.searched(j) ==> !#[trigger] (self.helpers)(j),
            TreeFault::PackageUnreadable => self.has_next() && self.nearest(k) && (self.package)(
                k,
            ) is None,
            TreeFault::ExportMissing => self.has_next() && self.nearest(k) && (self.package)(
                k,
            ) is Some && !self.exported(k),
            TreeFault::RuntimeFilesMissing => self.has_next() && self.nearest(k) && self.exported(k)
                && !(self.esm)(k) && !(self.cjs)(k),
        }
    }
}

proof fn lemma_over_stays(facts: TreeFacts, check: TreeCheck, n: nat)
    requires
        check.step is Sound || check.step is Broken,
    ensures
        facts.run(check, n) == check,
    decreases n,
{
    if n > 0 {
        lemma_over_stays(facts, check, (n - 1) as nat);
    }
}

/// How many replies the walk needs at most from here on.
spec fn walk_left(check: TreeCheck) -> int {
    2 * (check.levels - check.level) + (if check.step is Name {
        1int
    } else {
        0
    })
}

proof fn lemma_walk(facts: TreeFacts, check: TreeCheck, n: nat)
    requires
        facts.has_next(),
        check.levels == facts.levels,
        check.level < check.levels,
        match check.step {
            TreeStep::Helpers => facts.searched(check.level as int),
            TreeStep::Name => check.level >= 2,
            _ => false,
        },
        forall|j: int|
            0 <= j < check.level && facts.searched(j) ==> !#[trigger] (facts.helpers)(j),
        n >= walk_left(check) + 3,
    ensures
        match facts.run(check, n).step {
            TreeStep::Sound => facts.bootable(),
            TreeStep::Broken(fault) => !facts.bootable() && facts.has_fault(
                fault,
                facts.run(check, n).level as int,
            ),
            _ => false,
        },
    decreases walk_left(check),
{
    let k = check.level as int;
    let next = check.after(facts.reply(check.asks()));
    if check.step is Helpers && (facts.helpers)(k) {
        assert(facts.nearest(k));
        assert forall|j: int| #[trigger] facts.nearest(j) implies j == k by {
            if j < k {
                assert(!(facts.helpers)(j));
            } else if j > k {
                assert(!(facts.helpers)(k));
            }
        }
        lemma_contains_is_occurrence(
            (facts.package)(k)->0,
            "\"./_/_interop_require_default\""@,
        );
        let third = next.after(facts.reply(next.asks()));
        let fourth = third.after(facts.reply(third.asks()));
        let fifth = fourth.after(facts.reply(fourth.asks()));
        lemma_over_stays(facts, fifth, (n - 4) as nat);
        reveal_with_fuel(TreeFacts::run, 5);
        assert(facts.run(check, n) == fifth);
    } else {
        assert(facts.run(check, n) == facts.run(next, (n - 1) as nat));
        if next.step is Broken {
            lemma_over_stays(facts, next, (n - 1) as nat);
            assert(forall|j: int|
                0 <= j < facts.levels && facts.searched(j) ==> !#[trigger] (facts.helpers)(j));
        } else {
            lemma_walk(facts, next, (n - 1) as nat);
        }
    }
}

/// The check settles after a bounded number of replies. It finds a tree sound
/// exactly when it can boot: the server script and `next` are there, and the
/// helpers that Node finds first, walking up from `next` and past every
/// directory called `node_modules`, export what the server loads and hold it in
/// one of its two forms. Of a tree that cannot
/// boot it reports the fault that the tree has.
pub proof fn lemma_tree_verdict(facts: TreeFacts)
    ensures
        match facts.checked().step {
            TreeStep::Sound => facts.bootable(),
            TreeStep::Broken(fault) => !facts.bootable() && facts.has_fault(
                fault,
                facts.checked().level as int,
            ),
            _ => false,
        },
{
    let n = 2 * facts.levels as nat + 6;
    let a = TreeCheck::started(facts.levels);
    let b = a.after(facts.reply(a.asks()));
    let c = b.after(facts.reply(b.asks()));
    let d = c.after(facts.reply(c.asks()));
    reveal_with_fuel(TreeFacts::run, 4);
    assert(facts.run(a, n) == facts.run(d, (n - 3) as nat));
    if d.step is Helpers {
        lemma_walk(facts, d, (n - 3) as nat);
    } else {
        lemma_over_stays(facts, d, (n - 3) as nat);
    }
}

/// Helpers that no directory on Node's way up from `next` offers do not count,
/// wherever else they may be — in a bridge beside it, or in a `node_modules`
/// inside another: such a tree is refused.
pub proof fn lemma_unreachable_helpers_are_refused(facts: TreeFacts)
    requires
        facts.has_next(),
        forall|k: int|
            0 <= k < facts.levels && facts.searched(k) ==> !#[trigger] (facts.helpers)(k),
    ensures
        facts.checked().step == TreeStep::Broken(TreeFault::HelpersUnresolvable),
{
    lemma_tree_verdict(facts);
}

/// A package.json is accepted exactly when the quoted name of the export occurs
/// in it, whatever stands before and behind it.
pub proof fn lemma_quoted_export_is_what_counts(
    check: TreeCheck,
    a: Seq<char>,
    b: Seq<char>,
    package: Seq<char>,
)
    requires
        check.step is Package,
    ensures
        check.after(Reply::Text(a + "\"./_/_interop_require_default\""@ + b)) == (TreeCheck {
            step: TreeStep::Esm,
            ..check
        }),
        (exists|i: int, j: int|
            0 <= i && j == i + "\"./_/_interop_require_default\""@.len() && j <= package.len()
                && #[trigger] package.subrange(i, j) == "\"./_/_interop_require_default\""@)
            ==> check.after(Reply::Text(package)) == (TreeCheck { step: TreeStep::Esm, ..check }),
        !(exists|i: int, j: int|
            0 <= i && j == i + "\"./_/_interop_require_default\""@.len() && j <= package.len()
                && #[trigger] package.subrange(i, j) == "\"./_/_interop_require_default\""@)
            ==> check.after(Reply::Text(package)) == (TreeCheck {
            step: TreeStep::Broken(TreeFault::ExportMissing),
            ..check
        }),
{
    lemma_contains_in_any_surroundings(a, "\"./_/_interop_require_default\""@, b);
    lemma_contains_is_occurrence(package, "\"./_/_interop_require_default\""@);
}

/// Each step of the check, and what its reply leads to: what is missing ends it
/// with the fault of that name, and helpers that are not at one level are
/// looked for at the next that is not called `node_modules`.
pub proof fn lemma_tree_steps(check: TreeCheck, levels: usize, name: Seq<char>, e: Seq<char>)
    ensures
        TreeCheck::started(levels) == (TreeCheck { step: TreeStep::ServerJs, level: 0, levels }),
        check.step is ServerJs ==> {
            &&& check.after(Reply::Answer(true)) == (TreeCheck { step: TreeStep::NextDir, ..check })
            &&& check.after(Reply::Answer(false)) == (TreeCheck {
                step: TreeStep::Broken(TreeFault::ServerJsMissing),
                ..check
            })
        },
        check.step is NextDir ==> {
            &&& check.after(Reply::Answer(true)) == (TreeCheck {
                step: TreeStep::NextDist,
                ..check
            })
            &&& check.after(Reply::Answer(false)) == (TreeCheck {
                step: TreeStep::Broken(TreeFault::NextMissing),
                ..check
            })
        },
        check.step is NextDist ==> {
            &&& check.after(Reply::Answer(true)) == (TreeCheck {
                step: if check.level < check.levels {
                    TreeStep::Helpers
                } else {
                    TreeStep::Broken(TreeFault::HelpersUnresolvable)
                },
                ..check
            })
            &&& check.after(Reply::Answer(false)) == (TreeCheck {
                step: TreeStep::Broken(TreeFault::NextDistMissing),
                ..check
            })
        },
        check.step is Helpers ==> check.after(Reply::Answer(true)) == (TreeCheck {
            step: TreeStep::Package,
            ..check
        }),
        check.step is Name ==> {
            &&& name != "node_modules"@ ==> check.after(Reply::Text(name)) == (TreeCheck {
                step: TreeStep::Helpers,
                ..check
            })
            &&& check.after(Reply::Failed(e)) == (TreeCheck { step: TreeStep::Helpers, ..check })
        },
        check.step is Package ==> check.after(Reply::Failed(e)) == (TreeCheck {
            step: TreeStep::Broken(TreeFault::PackageUnreadable),
            ..check
        }),
        check.step is Esm ==> {
            &&& check.after(Reply::Answer(true)) == (TreeCheck { step: TreeStep::Sound, ..check })
            &&& check.after(Reply::Answer(false)) == (TreeCheck { step: TreeStep::Cjs, ..check })
        },
        check.step is Cjs ==> {
            &&& check.after(Reply::Answer(true)) == (TreeCheck { step: TreeStep::Sound, ..check })
            &&& check.after(Reply::Answer(false)) == (TreeCheck {
                step: TreeStep::Broken(TreeFault::RuntimeFilesMissing),
                ..check
            })
        },
{
}

/// Where the helpers are not, or where the directory is called `node_modules`,
/// the walk goes up: from `next` past the `node_modules` that holds it, and by
/// one level from there on, until there is no directory left.
pub proof fn lemma_walk_goes_up(check: TreeCheck)
    ensures
        check.step is Helpers ==> check.after(Reply::Answer(false)) == check.further(),
        check.step is Name ==> check.after(Reply::Text("node_modules"@)) == check.further(),
        check.level == 0 && 2 < check.levels ==> check.further() == (TreeCheck {
            step: TreeStep::Name,
            level: 2,
            ..check
        }),
        check.level > 0 && check.level + 1 < check.levels ==> check.further() == (TreeCheck {
            step: TreeStep::Name,
            level: (check.level + 1) as usize,
            ..check
        }),
        (check.level == 0 && check.levels <= 2) || (check.level > 0 && check.level + 1
            >= check.levels) ==> check.further() == (TreeCheck {
            step: TreeStep::Broken(TreeFault::HelpersUnresolvable),
            ..check
        }),
{
}

/// A reply that does not answer the question changes nothing.
pub proof fn lemma_check_ignores_other_replies(check: TreeCheck, reply: Reply<Seq<char>>)
    requires
        match check.step {
            TreeStep::Name => !(reply is Text || reply is Failed),
            TreeStep::Package => !(reply is Text || reply is Failed),
            TreeStep::Sound => true,
            TreeStep::Broken(_) => true,
            _ => !(reply is Answer),
        },
    ensures
        check.after(reply) == check,
{
}

/// What each step asks, and of which level: always the one that the walk has
/// come to.
pub proof fn lemma_check_asks_for_its_step(check: TreeCheck)
    ensures
        check.asks() == (match check.step {
            TreeStep::ServerJs => Some(TreeQuestion::IsFile(TreePlace::ServerJs)),
            TreeStep::NextDir => Some(TreeQuestion::IsDir(TreePlace::NextDir)),
            TreeStep::NextDist => Some(TreeQuestion::IsDir(TreePlace::NextDist)),
            TreeStep::Helpers => Some(TreeQuestion::IsDir(TreePlace::Helpers(check.level))),
            TreeStep::Name => Some(TreeQuestion::ReadName(check.level)),
            TreeStep::Package => Some(
                TreeQuestion::ReadText(TreePlace::HelpersPackage(check.level)),
            ),
            TreeStep::Esm => Some(TreeQuestion::IsFile(TreePlace::HelpersEsm(check.level))),
            TreeStep::Cjs => Some(TreeQuestion::IsFile(TreePlace::HelpersCjs(check.level))),
            _ => None,
        }),
{
}

/// The places of a tree, from the directory that each is counted from.
pub proof fn lemma_places_of_a_tree(level: usize)
    ensures
        base_of(TreePlace::ServerJs) is ServerDir && path_of(TreePlace::ServerJs)
            == seq!["server.js"@],
        base_of(TreePlace::NextDir) is ServerDir && path_of(TreePlace::NextDir)
            == seq!["node_modules"@, "next"@],
        base_of(TreePlace::NextDist) is ServerDir && path_of(TreePlace::NextDist) == path_of(
            TreePlace::NextDir,
        ) + seq!["dist"@, "server"@],
        base_of(TreePlace::Helpers(level)) == TreeBase::AboveNext(level),
        path_of(TreePlace::Helpers(level)) == seq!["node_modules"@, "@swc"@, "helpers"@],
        base_of(TreePlace::HelpersPackage(level)) == TreeBase::AboveNext(level),
        path_of(TreePlace::HelpersPackage(level)) == path_of(TreePlace::Helpers(level))
            + seq!["package.json"@],
        base_of(TreePlace::HelpersEsm(level)) == TreeBase::AboveNext(level),
        path_of(TreePlace::HelpersEsm(level)) == path_of(TreePlace::Helpers(level))
            + seq!["esm"@, "_interop_require_default.js"@],
        base_of(TreePlace::HelpersCjs(level)) == TreeBase::AboveNext(level),
        path_of(TreePlace::HelpersCjs(level)) == path_of(TreePlace::Helpers(level))
            + seq!["cjs"@, "_interop_require_default.cjs"@],
{
    assert(path_of(TreePlace::NextDist) =~= path_of(TreePlace::NextDir) + seq![
        "dist"@,
        "server"@,
    ]);
    let helpers = path_of(TreePlace::Helpers(level));
    assert(path_of(TreePlace::HelpersPackage(level)) =~= helpers + seq!["package.json"@]);
    assert(path_of(TreePlace::HelpersEsm(level)) =~= helpers + seq![
        "esm"@,
        "_interop_require_default.js"@,
    ]);
    assert(path_of(TreePlace::HelpersCjs(level)) =~= helpers + seq![
        "cjs"@,
        "_interop_require_default.cjs"@,
    ]);
}

/// What is reported of a fault, and the place that the report shows: that which
/// is missing, or the directory that lacks it.
pub proof fn lemma_fault_is_reported(check: TreeCheck, shown: Seq<char>)
    ensures
        check.shown_place(TreeFault::ServerJsMissing) == TreePlace::ServerJs,
        message_of(TreeFault::ServerJsMissing, shown) == "server tree incomplete: "@ + shown
            + " missing"@,
        check.shown_place(TreeFault::NextMissing) == TreePlace::NextDir,
        message_of(TreeFault::NextMissing, shown) == "server tree incomplete: "@ + shown
            + " missing (extraction incomplete?)"@,
        check.shown_place(TreeFault::NextDistMissing) == TreePlace::NextDir,
        message_of(TreeFault::NextDistMissing, shown)
            == "server tree incomplete: next dist missing under "@ + shown,
        check.shown_place(TreeFault::HelpersUnresolvable) == TreePlace::NextDir,
        message_of(TreeFault::HelpersUnresolvable, shown)
            == "server tree incomplete: @swc/helpers not resolvable by walking up from "@ + shown
            + " (Node would die with MODULE_NOT_FOUND)"@,
        check.shown_place(TreeFault::PackageUnreadable) == TreePlace::Helpers(check.level),
        message_of(TreeFault::PackageUnreadable, shown) == "server tree incomplete: "@ + shown
            + " has no readable package.json"@,
        check.shown_place(TreeFault::ExportMissing) == TreePlace::HelpersPackage(check.level),
        message_of(TreeFault::ExportMissing, shown)
            == "@swc/helpers exports map missing ./_/_interop_require_default in "@ + shown,
        check.shown_place(TreeFault::RuntimeFilesMissing) == TreePlace::Helpers(check.level),
        message_of(TreeFault::RuntimeFilesMissing, shown)
            == "@swc/helpers runtime files missing under "@ + shown
            + " (need esm/_interop_require_default.js or cjs/_interop_require_default.cjs — Next standalone tracing may have pruned them)"@,
{
}

} // verus!
