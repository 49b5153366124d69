//! Loopback port selection for the bundled server.
use crate::reply::{outcome, reply_of, Reply};
use crate::text::{
    decimal, is_digit, is_space, lemma_decimal_denotes, lemma_trim_of_trimmed,
    lemma_trim_takes_outer_space, parse_port, port_number, prefixed, trim, trim_text,
};
use vstd::prelude::*;
use vstd::string::*;

verus! {

/// Preferred loopback port for the bundled server. Fresh installs (and any
/// launch without a usable sticky marker) take this when it is free, so the
/// origin — and therefore IndexedDB/localStorage — is identical across
/// machines. Falls back to a random free port when busy.
pub const PREFERRED_PORT: u16 = 31846;

/// The file in the app data directory that records the port.
pub const PORT_MARKER: &'static str = "server-port.json";

/// The port to serve on, if it can be told without asking for a fresh one.
pub open spec fn selected(sticky: Option<u16>, preferred_free: bool, sticky_free: bool) -> Option<
    u16,
> {
    if preferred_free {
        Some(PREFERRED_PORT)
    } else if sticky is Some && sticky->0 != 0 && sticky_free {
        sticky
    } else {
        None
    }
}

/// The port that the text of a port marker records.
pub open spec fn recorded_port(marker: Seq<char>) -> Option<u16> {
    port_number(trim(marker))
}

/// Pure decision logic behind the sticky port selection.
pub fn select_port(sticky: Option<u16>, preferred_free: bool, sticky_free: bool) -> (r: Option<u16>)
    ensures
        r == selected(sticky, preferred_free, sticky_free),
{
    if preferred_free {
        return Some(PREFERRED_PORT);
    }
    if let Some(p) = sticky {
        if p != 0 && sticky_free {
            return Some(p);
        }
    }
    None
}

/// The port that the text of a port marker records, if it records one.
pub fn port_from_marker(marker: &str) -> (r: Option<u16>)
    ensures
        r == recorded_port(marker@),
{
    parse_port(trim_text(marker))
}

/// The result of asking the system for a free loopback port: `bound` is the
/// outcome of binding a listener to port zero and, where that went well, of
/// reading back the port it was given.
pub fn pick_free_port(bound: Result<Result<u16, String>, String>) -> (r: Result<u16, String>)
    ensures
        match bound {
            Ok(Ok(port)) => r == Ok::<u16, String>(port),
            Ok(Err(e)) => r is Err && r->Err_0@ == "failed to read selected port: "@ + e@,
            Err(e) => r is Err && r->Err_0@ == "failed to bind loopback for port selection: "@ + e@,
        },
{
    match bound {
        Ok(Ok(port)) => Ok(port),
        Ok(Err(e)) => Err(prefixed("failed to read selected port: ", e.as_str())),
        Err(e) => Err(prefixed("failed to bind loopback for port selection: ", e.as_str())),
    }
}

/// Where a chosen port comes from.
#[derive(Debug, Clone, Copy, PartialEq, Eq, Structural)]
pub enum PortOrigin {
    /// It is the port of an earlier launch.
    Sticky,
    /// It is the preferred port.
    Preferred,
    /// The system picked it.
    Fresh,
}

/// What the port selection waits for.
#[derive(Debug, Clone, Copy, PartialEq, Eq, Structural)]
pub enum PortStep {
    /// Resolve the app data directory (`Done` or `Failed`).
    ResolveDataDir,
    /// Read the port marker (`Text` or `Failed`).
    ReadMarker,
    /// Tell whether this port, the recorded one, is free (`Answer`).
    ProbeSticky(u16),
    /// Tell whether the preferred port is free (`Answer`).
    ProbePreferred,
    /// Ask the system for a free port (`Port` or `Failed`).
    Allocate,
    /// Over: record this port in the marker, as far as that goes, and use it.
    Chosen(u16, PortOrigin),
    /// Over: there is no port, for the reason in `error`.
    Failed,
}

/// Sticky port selection. Web storage (IndexedDB, localStorage, Cache API) is
/// scoped to the origin, so a random port every launch would orphan all cached
/// data: prefer `PREFERRED_PORT` when free, reuse the recorded sticky port
/// while it is free, otherwise allocate and record a fresh one.
#[derive(Debug, PartialEq, Eq)]
pub struct PortPick<T> {
    pub step: PortStep,
    /// The recorded port.
    pub sticky: Option<u16>,
    /// The recorded port was found free.
    pub sticky_free: bool,
    /// Why there is no port.
    pub error: T,
}

impl View for PortPick<String> {
    type V = PortPick<Seq<char>>;

    open spec fn view(&self) -> PortPick<Seq<char>> {
        PortPick {
            step: self.step,
            sticky: self.sticky,
            sticky_free: self.sticky_free,
            error: self.error@,
        }
    }
}

impl PortPick<Seq<char>> {
    /// The selection before anything is known.
    pub open spec fn started() -> Self {
        PortPick {
            step: PortStep::ResolveDataDir,
            sticky: None,
            sticky_free: false,
            error: Seq::empty(),
        }
    }

    /// The selection, failed for the reason `error`.
    pub open spec fn failing(self, error: Seq<char>) -> Self {
        PortPick { step: PortStep::Failed, error, ..self }
    }

    /// The selection once the marker has been read; port zero is never probed.
    pub open spec fn with_sticky(self, sticky: Option<u16>) -> Self {
        let step = match sticky {
            Some(p) => if p != 0 {
                PortStep::ProbeSticky(p)
            } else {
                PortStep::ProbePreferred
            },
            None => PortStep::ProbePreferred,
        };
        PortPick { step, sticky, ..self }
    }

    /// The selection after `reply`. A reply that does not belong to the step
    /// changes nothing.
    pub open spec fn after(self, reply: Reply<Seq<char>>) -> Self {
        match (self.step, reply) {
            (PortStep::ResolveDataDir, Reply::Done) => PortPick {
                step: PortStep::ReadMarker,
                ..self
            },
            (PortStep::ResolveDataDir, Reply::Failed(e)) => self.failing(
                "failed to resolve app data dir: "@ + e,
            ),
            (PortStep::ReadMarker, Reply::Text(t)) => self.with_sticky(recorded_port(t)),
            (PortStep::ReadMarker, Reply::Failed(_)) => self.with_sticky(None),
            (PortStep::ProbeSticky(_), Reply::Answer(free)) => PortPick {
                step: PortStep::ProbePreferred,
                sticky_free: free,
                ..self
            },
            (PortStep::ProbePreferred, Reply::Answer(free)) => match selected(
                self.sticky,
                free,
                self.sticky_free,
            ) {
                Some(p) => PortPick {
                    step: PortStep::Chosen(
                        p,
                        if self.sticky == Some(p) {
                            PortOrigin::Sticky
                        } else {
                            PortOrigin::Preferred
                        },
                    ),
                    ..self
                },
                None => PortPick { step: PortStep::Allocate, ..self },
            },
            (PortStep::Allocate, Reply::Port(p)) => PortPick {
                step: PortStep::Chosen(p, PortOrigin::Fresh),
                ..self
            },
            (PortStep::Allocate, Reply::Failed(e)) => self.failing(e),
            _ => self,
        }
    }

    /// The port that the selection has come to, or why there is none.
    pub open spec fn ended(self) -> Option<Result<u16, Seq<char>>> {
        match self.step {
            PortStep::Chosen(port, _) => Some(Ok(port)),
            PortStep::Failed => Some(Err(self.error)),
            _ => None,
        }
    }
}

impl PortPick<String> {
    /// A selection that has yet to learn everything.
    pub fn start() -> (r: Self)
        ensures
            r@ == PortPick::started(),
    {
        PortPick {
            step: PortStep::ResolveDataDir,
            sticky: None,
            sticky_free: false,
            error: String::new(),
        }
    }

    /// Take in how the current step went.
    pub fn answer(self, reply: Reply<String>) -> (r: Self)
        ensures
            r@ == self@.after(reply@),
    {
        match (self.step, reply) {
            (PortStep::ResolveDataDir, Reply::Done) => PortPick {
                step: PortStep::ReadMarker,
                ..self
            },
            (PortStep::ResolveDataDir, Reply::Failed(e)) => PortPick {
                step: PortStep::Failed,
                error: prefixed("failed to resolve app data dir: ", e.as_str()),
                ..self
            },
            (PortStep::ReadMarker, Reply::Text(t)) => self.probe_sticky(
                port_from_marker(t.as_str()),
            ),
            (PortStep::ReadMarker, Reply::Failed(_)) => self.probe_sticky(None),
            (PortStep::ProbeSticky(_), Reply::Answer(free)) => PortPick {
                step: PortStep::ProbePreferred,
                sticky_free: free,
                ..self
            },
            (PortStep::ProbePreferred, Reply::Answer(free)) => {
                let step = match select_port(self.sticky, free, self.sticky_free) {
                    Some(p) => {
                        let reused = match self.sticky {
                            Some(s) => s == p,
                            None => false,
                        };
                        PortStep::Chosen(
                            p,
                            if reused {
                                PortOrigin::Sticky
                            } else {
                                PortOrigin::Preferred
                            },
                        )
                    },
                    None => PortStep::Allocate,
                };
                PortPick { step, ..self }
            },
            (PortStep::Allocate, Reply::Port(p)) => PortPick {
                step: PortStep::Chosen(p, PortOrigin::Fresh),
                ..self
            },
            (PortStep::Allocate, Reply::Failed(e)) => PortPick {
                step: PortStep::Failed,
                error: e,
                ..self
            },
            _ => self,
        }
    }

    /// The port that the selection has come to, or why there is none; nothing
    /// while it is under way.
    pub fn result(&self) -> (r: Option<Result<u16, String>>)
        ensures
            outcome(r) == self@.ended(),
    {
        match self.step {
            PortStep::Chosen(port, _) => Some(Ok(port)),
            PortStep::Failed => Some(Err(self.error.clone())),
            _ => None,
        }
    }

    fn probe_sticky(self, sticky: Option<u16>) -> (r: Self)
        ensures
            r@ == self@.with_sticky(sticky),
    {
        let step = match sticky {
            Some(p) => if p != 0 {
                PortStep::ProbeSticky(p)
            } else {
                PortStep::ProbePreferred
            },
            None => PortStep::ProbePreferred,
        };
        PortPick { step, sticky, ..self }
    }
}

/// The ports of a machine as one launch finds them: whether the app data
/// directory can be resolved, the text of the port marker if it can be read,
/// which ports are free, and what the system answers when asked for a fresh one.
pub struct PortWorld {
    pub data_dir: Result<(), Seq<char>>,
    pub marker: Option<Seq<char>>,
    pub free: spec_fn(u16) -> bool,
    pub fresh: Result<u16, Seq<char>>,
}

impl PortWorld {
    /// What this machine replies to a step.
    pub open spec fn reply(self, step: PortStep) -> Reply<Seq<char>> {
        match step {
            PortStep::ResolveDataDir => reply_of(self.data_dir),
            PortStep::ReadMarker => match self.marker {
                Some(t) => Reply::Text(t),
                None => Reply::Failed(Seq::empty()),
            },
            PortStep::ProbeSticky(p) => Reply::Answer((self.free)(p)),
            PortStep::ProbePreferred => Reply::Answer((self.free)(PREFERRED_PORT)),
            PortStep::Allocate => match self.fresh {
                Ok(p) => Reply::Port(p),
                Err(e) => Reply::Failed(e),
            },
            _ => Reply::Done,
        }
    }

    /// The selection after `n` more replies of this machine.
    pub open spec fn run(self, pick: PortPick<Seq<char>>, n: nat) -> PortPick<Seq<char>>
        decreases n,
    {
        if n == 0 {
            pick
        } else {
            self.run(pick.after(self.reply(pick.step)), (n - 1) as nat)
        }
    }

    /// What the selection comes to on this machine.
    pub open spec fn picked(self) -> PortPick<Seq<char>> {
        self.run(PortPick::started(), 5)
    }

    /// The port that an earlier launch recorded.
    pub open spec fn sticky(self) -> Option<u16> {
        match self.marker {
            Some(t) => recorded_port(t),
            None => None,
        }
    }

    /// An earlier launch recorded a port, and it is free.
    pub open spec fn reusable(self) -> bool {
        self.sticky() is Some && self.sticky()->0 != 0 && (self.free)(self.sticky()->0)
    }

    /// The port that this machine is to serve on, or why there is none.
    pub open spec fn port(self) -> Result<u16, Seq<char>> {
        if self.data_dir is Err {
            Err("failed to resolve app data dir: "@ + self.data_dir->Err_0)
        } else if (self.free)(PREFERRED_PORT) {
            Ok(PREFERRED_PORT)
        } else if self.reusable() {
            Ok(self.sticky()->0)
        } else {
            self.fresh
        }
    }
}

/// Five replies settle the selection: the preferred port when it is free,
/// otherwise the recorded port while that is free, otherwise a fresh one. It
/// fails only where the app data directory cannot be resolved, or the system
/// has no fresh port to give when one is called for.
pub proof fn lemma_port_rule(world: PortWorld)
    ensures
        world.picked().ended() == Some(world.port()),
        world.data_dir is Ok ==> match world.picked().step {
            PortStep::Chosen(port, origin) => origin == (if !(world.free)(PREFERRED_PORT)
                && !world.reusable() {
                PortOrigin::Fresh
            } else if world.sticky() == Some(port) {
                PortOrigin::Sticky
            } else {
                PortOrigin::Preferred
            }),
            _ => true,
        },
{
    reveal_with_fuel(PortWorld::run, 6);
}

/// A marker that holds a port in decimal records that port.
pub proof fn lemma_marker_reads_back(port: u16)
    ensures
        recorded_port(decimal(port as nat)) == Some(port),
{
    let text = decimal(port as nat);
    lemma_decimal_denotes(port as nat);
    assert(is_digit(text[0]) && is_digit(text[text.len() - 1]));
    lemma_trim_of_trimmed(text);
}

/// The origin outlives the launch: where one launch served on a port and
/// recorded it, the next one serves on it again if it is still free and the
/// preferred port is not, or is that very port.
pub proof fn lemma_port_survives_relaunch(port: u16, world: PortWorld)
    requires
        port != 0,
        world.data_dir is Ok,
        world.marker == Some(decimal(port as nat)),
        (world.free)(port),
        (world.free)(PREFERRED_PORT) ==> port == PREFERRED_PORT,
    ensures
        world.picked().step == PortStep::Chosen(port, PortOrigin::Sticky),
{
    lemma_marker_reads_back(port);
    reveal_with_fuel(PortWorld::run, 6);
}

/// The preferred port wins whenever it is free; otherwise the recorded port is
/// kept while it is free, unless it is zero; otherwise a fresh one is needed.
pub proof fn lemma_free_preferred_port_wins(sticky: u16, sticky_free: bool)
    ensures
        selected(None, true, sticky_free) == Some(31846u16),
        selected(Some(sticky), true, sticky_free) == Some(31846u16),
        selected(Some(sticky), false, true) == (if sticky != 0 {
            Some(sticky)
        } else {
            None
        }),
        selected(Some(sticky), false, false) is None,
        selected(None, false, sticky_free) is None,
{
}

/// A marker records the number in it, whatever white space stands around.
pub proof fn lemma_marker_is_read_without_outer_space(
    before: Seq<char>,
    body: Seq<char>,
    behind: Seq<char>,
)
    requires
        forall|i: int| 0 <= i < before.len() ==> is_space(#[trigger] before[i]),
        forall|i: int| 0 <= i < behind.len() ==> is_space(#[trigger] behind[i]),
        body.len() > 0 ==> !is_space(body[0]) && !is_space(body.last()),
    ensures
        recorded_port(before + body + behind) == port_number(body),
{
    lemma_trim_takes_outer_space(before, body, behind);
}

/// Each step of the selection, and what its reply leads to: the data directory
/// and the marker come first, the recorded port is probed unless it is zero,
/// then the preferred one, and a fresh port is asked for only if neither will
/// do. Nothing that is known is forgotten on the way.
pub proof fn lemma_port_steps(
    pick: PortPick<Seq<char>>,
    text: Seq<char>,
    port: u16,
    free: bool,
    reply: Reply<Seq<char>>,
)
    ensures
        PortPick::started() == (PortPick {
            step: PortStep::ResolveDataDir,
            sticky: None,
            sticky_free: false,
            error: Seq::<char>::empty(),
        }),
        pick.step is ResolveDataDir ==> {
            &&& pick.after(Reply::Done) == (PortPick { step: PortStep::ReadMarker, ..pick })
            &&& pick.after(Reply::Failed(text)) == (PortPick {
                step: PortStep::Failed,
                error: "failed to resolve app data dir: "@ + text,
                ..pick
            })
        },
        pick.step is ReadMarker ==> {
            let read = pick.after(Reply::Text(text));
            &&& read.sticky == recorded_port(text)
            &&& read.step == (if read.sticky is Some && read.sticky != Some(0u16) {
                PortStep::ProbeSticky(read.sticky->0)
            } else {
                PortStep::ProbePreferred
            })
            &&& read.sticky_free == pick.sticky_free && read.error == pick.error
            &&& pick.after(Reply::Failed(text)) == (PortPick {
                step: PortStep::ProbePreferred,
                sticky: None,
                ..pick
            })
        },
        pick.step is ProbeSticky ==> pick.after(Reply::Answer(free)) == (PortPick {
            step: PortStep::ProbePreferred,
            sticky_free: free,
            ..pick
        }),
        pick.step is ProbePreferred ==> {
            &&& pick.after(Reply::Answer(true)) == (PortPick {
                step: PortStep::Chosen(
                    31846,
                    if pick.sticky == Some(31846u16) {
                        PortOrigin::Sticky
                    } else {
                        PortOrigin::Preferred
                    },
                ),
                ..pick
            })
            &&& pick.after(Reply::Answer(false)) == (PortPick {
                step: if pick.sticky_free && pick.sticky is Some && pick.sticky != Some(0u16) {
                    PortStep::Chosen(pick.sticky->0, PortOrigin::Sticky)
                } else {
                    PortStep::Allocate
                },
                ..pick
            })
        },
        pick.step is Allocate ==> {
            &&& pick.after(Reply::Port(port)) == (PortPick {
                step: PortStep::Chosen(port, PortOrigin::Fresh),
                ..pick
            })
            &&& pick.after(Reply::Failed(text)) == (PortPick {
                step: PortStep::Failed,
                error: text,
                ..pick
            })
        },
        pick.step is Chosen || pick.step is Failed ==> pick.after(reply) == pick,
        pick.ended() == (match pick.step {
            PortStep::Chosen(chosen, _) => Some(Ok::<u16, Seq<char>>(chosen)),
            PortStep::Failed => Some(Err::<u16, Seq<char>>(pick.error)),
            _ => None,
        }),
{
}

/// A reply that does not answer the step changes nothing.
pub proof fn lemma_port_ignores_other_replies(pick: PortPick<Seq<char>>, reply: Reply<Seq<char>>)
    requires
        match pick.step {
            PortStep::ResolveDataDir => !(reply is Done || reply is Failed),
            PortStep::ReadMarker => !(reply is Text || reply is Failed),
            PortStep::ProbeSticky(_) => !(reply is Answer),
            PortStep::ProbePreferred => !(reply is Answer),
            PortStep::Allocate => !(reply is Port || reply is Failed),
            _ => true,
        },
    ensures
        pick.after(reply) == pick,
{
}

/// The model of a selection holds what the selection holds.
pub proof fn lemma_port_model_is_faithful(pick: PortPick<String>)
    ensures
        pick@.step == pick.step,
        pick@.sticky == pick.sticky,
        pick@.sticky_free == pick.sticky_free,
        pick@.error == pick.error@,
{
}

/// On every machine: the preferred port if it is free; otherwise the one that
/// the marker records, if it is not zero and free; otherwise what the system
/// hands out.
pub proof fn lemma_launch_serves_on(world: PortWorld, marker: Seq<char>, port: u16, e: Seq<char>)
    ensures
        ({
            let end = world.run(PortPick::started(), 5).ended();
            let recorded = world.marker == Some(marker) && port_number(trim(marker)) == Some(port)
                && port != 0;
            let unrecorded = world.marker is None || (world.marker == Some(marker) && (port_number(
                trim(marker),
            ) is None || port_number(trim(marker)) == Some(0u16)));
            &&& world.data_dir == Err::<(), Seq<char>>(e) ==> end == Some(
                Err::<u16, Seq<char>>("failed to resolve app data dir: "@ + e),
            )
            &&& world.data_dir is Ok && (world.free)(31846) ==> end == Some(
                Ok::<u16, Seq<char>>(31846),
            )
            &&& world.data_dir is Ok && !(world.free)(31846) && recorded && (world.free)(port)
                ==> end == Some(Ok::<u16, Seq<char>>(port))
            &&& world.data_dir is Ok && !(world.free)(31846) && recorded && !(world.free)(port)
                ==> end == Some(world.fresh)
            &&& world.data_dir is Ok && !(world.free)(31846) && unrecorded ==> end == Some(
                world.fresh,
            )
        }),
{
    reveal_with_fuel(PortWorld::run, 6);
}

/// The preferred port and the name of the marker, by which launches of every
/// build agree.
pub proof fn lemma_launches_agree_on_the_port()
    ensures
        PREFERRED_PORT == 31846,
        PORT_MARKER@ == "server-port.json"@,
{
}

} // verus!
