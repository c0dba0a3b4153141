//! Tor bootstrap wrapper.
use std::sync::Arc;

use vstd::prelude::*;

use crate::error::{connection_error, ChatError, ErrorView};
use crate::text;
use crate::types::{ChatEvent, EventView};

verus! {

/// Wrapper around a Tor client, of type `C`, that handles the bootstrap lifecycle.
pub struct TorBootstrap<C> {
    client: Option<C>,
    bootstrapped: bool,
}

/// The state of a [`TorBootstrap`].
#[verifier::ext_equal]
pub struct BootstrapView<C> {
    pub client: Option<C>,
    pub bootstrapped: bool,
}

impl<C> View for TorBootstrap<C> {
    type V = BootstrapView<C>;

    closed spec fn view(&self) -> BootstrapView<C> {
        BootstrapView { client: self.client, bootstrapped: self.bootstrapped }
    }
}

/// The state without a client.
pub open spec fn idle<C>() -> BootstrapView<C> {
    BootstrapView { client: None, bootstrapped: false }
}

impl<C> TorBootstrap<C> {
    /// Create a new unbootstrapped Tor client wrapper.
    pub fn new() -> (t: Self)
        ensures
            t@ == idle::<C>(),
    {
        TorBootstrap { client: None, bootstrapped: false }
    }

    /// Bootstrap the Tor client, given what became of creating it. A wrapper that is
    /// bootstrapped refuses a second client; one whose client could not be created
    /// stays as it is.
    pub fn bootstrap(&mut self, created: Result<C, String>) -> (r: Result<(), ChatError>)
        ensures
            if old(self)@.bootstrapped {
                &&& r matches Err(e) && e@ == ErrorView::Connection("already bootstrapped"@)
                &&& final(self)@ == old(self)@
            } else {
                match created {
                    Err(reason) => {
                        &&& r matches Err(e) && e@ == ErrorView::Connection(
                            "create client failed: "@ + reason@,
                        )
                        &&& final(self)@ == old(self)@
                    },
                    Ok(client) => {
                        &&& r is Ok
                        &&& final(self)@ == (BootstrapView {
                            client: Some(client),
                            bootstrapped: true,
                        })
                    },
                }
            },
    {
        if self.bootstrapped {
            return Err(connection_error("already bootstrapped"));
        }
        match created {
            Err(reason) => Err(
                ChatError::Connection(text::concat2("create client failed: ", reason.as_str())),
            ),
            Ok(client) => {
                self.client = Some(client);
                self.bootstrapped = true;
                Ok(())
            },
        }
    }

    /// Return a reference to the bootstrapped Tor client.
    pub fn client(&self) -> (r: Result<&C, ChatError>)
        ensures
            match self@.client {
                Some(client) => r matches Ok(c) && *c == client,
                None => r matches Err(e) && e@ == ErrorView::Connection(
                    "client not bootstrapped"@,
                ),
            },
    {
        match &self.client {
            Some(client) => Ok(client),
            None => Err(connection_error("client not bootstrapped")),
        }
    }

    /// Return an Arc reference to a clone of the bootstrapped Tor client.
    pub fn client_arc(&self) -> (r: Result<Arc<C>, ChatError>) where C: Clone
        ensures
            match self@.client {
                Some(client) => r matches Ok(c) && cloned(client, *c),
                None => r matches Err(e) && e@ == ErrorView::Connection(
                    "client not bootstrapped"@,
                ),
            },
    {
        match &self.client {
            Some(client) => Ok(Arc::new(client.clone())),
            None => Err(connection_error("client not bootstrapped")),
        }
    }

    /// Shutdown the Tor client. Idempotent.
    pub fn shutdown(&mut self)
        ensures
            final(self)@ == idle::<C>(),
    {
        self.client = None;
        self.bootstrapped = false;
    }

    /// Whether the client is bootstrapped.
    pub fn is_bootstrapped(&self) -> (b: bool)
        ensures
            b == self@.bootstrapped,
    {
        self.bootstrapped
    }
}

impl<C> Default for TorBootstrap<C> {
    fn default() -> (t: Self)
        ensures
            t@ == idle::<C>(),
    {
        Self::new()
    }
}

// ---------------------------------------------------------------------------
// Progress
// ---------------------------------------------------------------------------

/// What happened while Tor starts.
pub enum Progress {
    /// It was just begun.
    Begun,
    /// It has got this far, in percent.
    Status(u8),
    /// It is over.
    Finished(Result<(), String>),
}

/// How far the telling of a bootstrap is.
#[derive(Clone, Copy, Debug, PartialEq, Eq, Structural)]
pub enum Stage {
    /// Nothing was told yet.
    Fresh,
    /// The beginning was told.
    Running,
    /// The end was told.
    Over,
}

/// The event that tells of a bootstrap's end.
pub open spec fn end_event(result: Result<(), String>) -> EventView {
    match result {
        Ok(()) => EventView::BootstrapProgress(100),
        Err(reason) => EventView::Error(ErrorView::Connection("bootstrap failed: "@ + reason@)),
    }
}

/// What is told of a bootstrap, and how far the telling is then: 0 at the beginning,
/// percentages while it runs, 100 or an error at the end, and nothing afterwards.
pub open spec fn progress_step(stage: Stage, p: Progress) -> (Stage, Option<EventView>) {
    match (stage, p) {
        (Stage::Fresh, Progress::Begun) => (
            Stage::Running,
            Some(EventView::BootstrapProgress(0)),
        ),
        (Stage::Running, Progress::Status(pct)) => (
            Stage::Running,
            Some(
                EventView::BootstrapProgress(
                    if pct > 100 {
                        100
                    } else {
                        pct
                    },
                ),
            ),
        ),
        (Stage::Running, Progress::Finished(result)) => (Stage::Over, Some(end_event(result))),
        _ => (stage, None),
    }
}

/// The events that tell of a bootstrap, one after the other.
pub struct ProgressStream {
    stage: Stage,
}

impl View for ProgressStream {
    type V = Stage;

    closed spec fn view(&self) -> Stage {
        self.stage
    }
}

impl ProgressStream {
    /// A stream of which nothing was told yet.
    pub fn new() -> (s: Self)
        ensures
            s@ == Stage::Fresh,
    {
        ProgressStream { stage: Stage::Fresh }
    }

    /// Whether the end was told.
    pub fn is_over(&self) -> (b: bool)
        ensures
            b == (self@ == Stage::Over),
    {
        self.stage == Stage::Over
    }

    /// The event that tells of what happened, if there is one.
    pub fn step(&mut self, p: Progress) -> (r: Option<ChatEvent>)
        ensures
            (
                final(self)@,
                match r {
                    Some(ev) => Some(ev@),
                    None => None,
                },
            ) == progress_step(old(self)@, p),
    {
        match (self.stage, p) {
            (Stage::Fresh, Progress::Begun) => {
                self.stage = Stage::Running;
                Some(ChatEvent::BootstrapProgress(0))
            },
            (Stage::Running, Progress::Status(pct)) => {
                let pct: u8 = if pct > 100 {
                    100
                } else {
                    pct
                };
                Some(ChatEvent::BootstrapProgress(pct))
            },
            (Stage::Running, Progress::Finished(Ok(()))) => {
                self.stage = Stage::Over;
                Some(ChatEvent::BootstrapProgress(100))
            },
            (Stage::Running, Progress::Finished(Err(reason))) => {
                self.stage = Stage::Over;
                Some(
                    ChatEvent::Error(
                        ChatError::Connection(text::concat2("bootstrap failed: ", reason.as_str())),
                    ),
                )
            },
            _ => None,
        }
    }
}

/// What an event of a bootstrap means for a room that waits for it.
#[derive(Clone, Copy, Debug, PartialEq, Eq, Structural)]
pub enum Verdict {
    /// Tor is not up yet.
    Waiting,
    /// Tor is up.
    Ready,
    /// Tor will not come up.
    Failed,
}

/// Whether a bootstrap has come to an end, by one of its events.
pub fn bootstrap_verdict(ev: &ChatEvent) -> (r: Verdict)
    ensures
        r == match ev@ {
            EventView::BootstrapProgress(100) => Verdict::Ready,
            EventView::Error(_) => Verdict::Failed,
            _ => Verdict::Waiting,
        },
{
    match ev {
        ChatEvent::BootstrapProgress(pct) => {
            if *pct == 100 {
                Verdict::Ready
            } else {
                Verdict::Waiting
            }
        },
        ChatEvent::Error(_) => Verdict::Failed,
        _ => Verdict::Waiting,
    }
}

// ---------------------------------------------------------------------------
// Laws
// ---------------------------------------------------------------------------

/// What was told of a whole bootstrap, and how far the telling is.
pub open spec fn progress_run(inputs: Seq<Progress>) -> (Stage, Seq<EventView>)
    decreases inputs.len(),
{
    if inputs.len() == 0 {
        (Stage::Fresh, Seq::empty())
    } else {
        let (stage, told) = progress_run(inputs.drop_last());
        match progress_step(stage, inputs.last()) {
            (next, Some(ev)) => (next, told.push(ev)),
            (next, None) => (next, told),
        }
    }
}

/// Whatever happens, and in whatever order: the first event is progress 0, progress is
/// never above 100, an error comes last or not at all, and what ends the telling is
/// progress 100 or a connection error.
pub proof fn progress_is_told_in_order(inputs: Seq<Progress>)
    ensures
        ({
            let (stage, told) = progress_run(inputs);
            &&& stage == Stage::Fresh <==> told.len() == 0
            &&& told.len() > 0 ==> told[0] == EventView::BootstrapProgress(0)
            &&& forall|i: int|
                0 <= i < told.len() ==> (#[trigger] told[i] matches EventView::BootstrapProgress(pct)
                    && pct <= 100) || (told[i] matches EventView::Error(ErrorView::Connection(_))
                    && i == told.len() - 1 && stage == Stage::Over)
            &&& stage == Stage::Over ==> told.len() > 1 && (told.last()
                == EventView::BootstrapProgress(100) || told.last() is Error)
        }),
    decreases inputs.len(),
{
    if inputs.len() > 0 {
        progress_is_told_in_order(inputs.drop_last());
    }
}

/// Nothing is told after the end.
pub proof fn nothing_follows_the_end(inputs: Seq<Progress>, more: Seq<Progress>)
    requires
        progress_run(inputs).0 == Stage::Over,
    ensures
        progress_run(inputs + more) == progress_run(inputs),
    decreases more.len(),
{
    if more.len() == 0 {
        assert(inputs + more =~= inputs);
    } else {
        nothing_follows_the_end(inputs, more.drop_last());
        assert((inputs + more).drop_last() =~= inputs + more.drop_last());
    }
}

/// A bootstrap that began, got somewhere and ended is told item by item, and the last
/// item says how it ended.
pub proof fn whole_bootstrap_is_told(inputs: Seq<Progress>)
    requires
        inputs.len() > 1,
        inputs[0] is Begun,
        forall|i: int| 0 < i < inputs.len() - 1 ==> #[trigger] inputs[i] is Status,
        inputs.last() is Finished,
    ensures
        ({
            let (stage, told) = progress_run(inputs);
            &&& stage == Stage::Over
            &&& told.len() == inputs.len()
            &&& told.last() == end_event(inputs.last()->Finished_0)
        }),
{
    lemma_running(inputs.drop_last());
}

proof fn lemma_running(inputs: Seq<Progress>)
    requires
        inputs.len() > 0,
        inputs[0] is Begun,
        forall|i: int| 0 < i < inputs.len() ==> #[trigger] inputs[i] is Status,
    ensures
        progress_run(inputs).0 == Stage::Running,
        progress_run(inputs).1.len() == inputs.len(),
    decreases inputs.len(),
{
    if inputs.len() > 1 {
        assert forall|i: int| 0 < i < inputs.len() - 1 implies #[trigger]
            inputs.drop_last()[i] is Status by {
            assert(inputs[i] is Status);
        }
        lemma_running(inputs.drop_last());
        assert(inputs[inputs.len() - 1] is Status);
    } else {
        assert(inputs.drop_last() =~= Seq::empty());
        assert(progress_run(inputs.drop_last()) == (Stage::Fresh, Seq::<EventView>::empty()));
    }
}

/// Each step of a bootstrap is told as it comes: its beginning as nothing done, its
/// progress in percent and never above a hundred, its end as a hundred, or as a failure of
/// the connection with the reason. Before the beginning and after the end, and when it
/// begins again, nothing is told, and nothing changes.
pub proof fn each_step_is_told(pct: u8, reason: String, p: Progress)
    ensures
        progress_step(Stage::Fresh, Progress::Begun) == (
            Stage::Running,
            Some(EventView::BootstrapProgress(0)),
        ),
        pct <= 100 ==> progress_step(Stage::Running, Progress::Status(pct)) == (
            Stage::Running,
            Some(EventView::BootstrapProgress(pct)),
        ),
        pct > 100 ==> progress_step(Stage::Running, Progress::Status(pct)) == (
            Stage::Running,
            Some(EventView::BootstrapProgress(100)),
        ),
        progress_step(Stage::Running, Progress::Finished(Ok(()))) == (
            Stage::Over,
            Some(EventView::BootstrapProgress(100)),
        ),
        progress_step(Stage::Running, Progress::Finished(Err(reason))) == (
            Stage::Over,
            Some(EventView::Error(ErrorView::Connection("bootstrap failed: "@ + reason@))),
        ),
        !(p is Begun) ==> progress_step(Stage::Fresh, p) == (Stage::Fresh, None::<EventView>),
        progress_step(Stage::Running, Progress::Begun) == (Stage::Running, None::<EventView>),
        progress_step(Stage::Over, p) == (Stage::Over, None::<EventView>),
{
}

/// Without a client, nothing is bootstrapped.
pub proof fn idle_has_no_client<C>()
    ensures
        idle::<C>().client is None,
        !idle::<C>().bootstrapped,
{
}

} // verus!
