//! What the shell hears back when it carries out a step of the boot flow.
use vstd::prelude::*;

verus! {

/// Outcome of waiting for the server to become healthy.
#[derive(Debug, Clone, Copy, PartialEq, Eq, Structural)]
pub enum HealthOutcome {
    /// /api/health answered 200.
    Healthy,
    /// Something accepted TCP connections but /api/health never went green.
    ListeningButUnhealthy,
    /// Nothing ever accepted TCP connections — the server likely exited.
    NoListener,
}

/// How a step of the boot flow went. `T` is the type of texts: `String` at
/// run time, a sequence of characters in contracts.
#[derive(Debug, PartialEq, Eq)]
pub enum Reply<T> {
    /// The step was carried out.
    Done,
    /// The question of the step has this answer.
    Answer(bool),
    /// The step produced a text.
    Text(T),
    /// The step produced a port.
    Port(u16),
    /// The wait for the server ended.
    Health(HealthOutcome),
    /// The step failed, for this reason.
    Failed(T),
}

impl View for Reply<String> {
    type V = Reply<Seq<char>>;

    open spec fn view(&self) -> Reply<Seq<char>> {
        match self {
            Reply::Done => Reply::Done,
            Reply::Answer(b) => Reply::Answer(*b),
            Reply::Text(t) => Reply::Text(t@),
            Reply::Port(p) => Reply::Port(*p),
            Reply::Health(h) => Reply::Health(*h),
            Reply::Failed(e) => Reply::Failed(e@),
        }
    }
}

/// The reply that stands for `result`.
pub open spec fn reply_of(result: Result<(), Seq<char>>) -> Reply<Seq<char>> {
    match result {
        Ok(_) => Reply::Done,
        Err(e) => Reply::Failed(e),
    }
}

/// What a flow has come to, with its error as a sequence of characters; nothing
/// while it is under way.
pub open spec fn outcome<X>(result: Option<Result<X, String>>) -> Option<Result<X, Seq<char>>> {
    match result {
        Some(Ok(x)) => Some(Ok(x)),
        Some(Err(e)) => Some(Err(e@)),
        None => None,
    }
}

/// `result`, with `what` in front of its error.
pub open spec fn told(what: Seq<char>, result: Result<(), Seq<char>>) -> Result<(), Seq<char>> {
    match result {
        Ok(_) => Ok(()),
        Err(e) => Err(what + e),
    }
}

/// `first` if it failed, and `second` otherwise.
pub open spec fn chained(first: Result<(), Seq<char>>, second: Result<(), Seq<char>>) -> Result<
    (),
    Seq<char>,
> {
    if first is Err {
        first
    } else {
        second
    }
}

/// A reply tells the model what it tells the shell, text for text and number
/// for number, and so does a result.
pub proof fn lemma_reply_tells_what_it_carries(
    text: String,
    port: u16,
    answer: bool,
    health: HealthOutcome,
)
    ensures
        Reply::<String>::Done@ == Reply::<Seq<char>>::Done,
        Reply::<String>::Answer(answer)@ == Reply::<Seq<char>>::Answer(answer),
        Reply::Text(text)@ == Reply::Text(text@),
        Reply::<String>::Port(port)@ == Reply::<Seq<char>>::Port(port),
        Reply::<String>::Health(health)@ == Reply::<Seq<char>>::Health(health),
        Reply::Failed(text)@ == Reply::Failed(text@),
        outcome::<u16>(Some(Ok(port))) == Some(Ok::<u16, Seq<char>>(port)),
        outcome::<u16>(Some(Err(text))) == Some(Err::<u16, Seq<char>>(text@)),
        outcome::<u16>(None) is None,
{
}

} // verus!
