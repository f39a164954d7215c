//! The relay orchestrator: the one writer to the active sink. It takes the
//! events that the surrounding loop observes, one at a time in the order they
//! arrive, and answers each with what to do next.
use vstd::prelude::*;

use crate::error::RelayError;
use crate::format::StdinMessage;

verus! {

/// Which sink the bridge writes to; chosen once, at startup.
#[derive(Debug, Clone, Copy, PartialEq, Eq, Structural)]
pub enum Transport {
    /// The remote console over the network.
    Rcon,
    /// The input of a server process that the bridge launched.
    Process,
}

/// Where the bridge is in its life.
#[derive(Debug, Clone, Copy, PartialEq, Eq, Structural)]
pub enum RelayState {
    Connecting,
    Ready,
    Closed,
}

/// Something the loop observed.
#[derive(Debug)]
pub enum RelayEvent {
    /// The sink is ready to take writes.
    Connected,
    /// A chat message or a line of local input arrived.
    Input(StdinMessage),
    /// The sink failed or went away, for the given cause.
    SinkFailed(RelayError),
    /// A producer closed its channel.
    ProducerClosed,
    /// A graceful stop was requested.
    Shutdown,
}

/// What the loop does in answer to an event.
#[derive(Debug)]
pub enum RelayAction {
    /// Nothing.
    Idle,
    /// Write this text to the sink and flush it.
    Write(String),
    /// Stop taking work, release the sink (killing a wrapped process) and
    /// return with this cause.
    Stop(RelayError),
}

/// What an action means.
pub enum ActionView {
    Idle,
    Write(Seq<char>),
    Stop(RelayError),
}

impl View for RelayAction {
    type V = ActionView;

    open spec fn view(&self) -> ActionView {
        match self {
            RelayAction::Idle => ActionView::Idle,
            RelayAction::Write(s) => ActionView::Write(s@),
            RelayAction::Stop(e) => ActionView::Stop(*e),
        }
    }
}

/// What the relay holds: the chosen sink, its state, and the command prefix.
pub struct RelayView {
    pub transport: Transport,
    pub state: RelayState,
    pub prefix: Seq<char>,
}

/// The orchestrator's decisions.
pub struct Relay {
    transport: Transport,
    state: RelayState,
    tellraw_prefix: String,
}

/// Whether the sink takes this input: local operator input goes only to a
/// wrapped process; chat messages go to either sink.
pub open spec fn accepts(t: Transport, m: StdinMessage) -> bool {
    !(t == Transport::Rcon && m is UserInput)
}

/// The next state and the action for `e` in `r`.
pub open spec fn step_spec(r: RelayView, e: RelayEvent) -> (RelayState, ActionView) {
    match r.state {
        RelayState::Closed => (RelayState::Closed, ActionView::Idle),
        RelayState::Connecting => match e {
            RelayEvent::Connected => (RelayState::Ready, ActionView::Idle),
            RelayEvent::Input(_) => (RelayState::Connecting, ActionView::Idle),
            RelayEvent::SinkFailed(cause) => (RelayState::Closed, ActionView::Stop(cause)),
            RelayEvent::ProducerClosed => (
                RelayState::Closed,
                ActionView::Stop(RelayError::ProducerClosed),
            ),
            RelayEvent::Shutdown => (RelayState::Closed, ActionView::Stop(RelayError::ShutdownRequested)),
        },
        RelayState::Ready => match e {
            RelayEvent::Connected => (RelayState::Ready, ActionView::Idle),
            RelayEvent::Input(m) => if accepts(r.transport, m) {
                (RelayState::Ready, ActionView::Write(m.text_spec(r.prefix)))
            } else {
                (RelayState::Ready, ActionView::Idle)
            },
            RelayEvent::SinkFailed(cause) => (RelayState::Closed, ActionView::Stop(cause)),
            RelayEvent::ProducerClosed => (
                RelayState::Closed,
                ActionView::Stop(RelayError::ProducerClosed),
            ),
            RelayEvent::Shutdown => (RelayState::Closed, ActionView::Stop(RelayError::ShutdownRequested)),
        },
    }
}

/// The relay's state and actions after the events `es`, taken in order.
pub open spec fn run_spec(r: RelayView, es: Seq<RelayEvent>) -> (RelayState, Seq<ActionView>)
    decreases es.len(),
{
    if es.len() == 0 {
        (r.state, Seq::empty())
    } else {
        let (s, a) = step_spec(r, es[0]);
        let (last, rest) = run_spec(
            RelayView { transport: r.transport, state: s, prefix: r.prefix },
            es.drop_first(),
        );
        (last, seq![a] + rest)
    }
}

/// `n` actions that do nothing.
pub open spec fn idle_actions(n: nat) -> Seq<ActionView> {
    Seq::new(n, |i: int| ActionView::Idle)
}

impl Relay {
    /// What the relay holds.
    pub closed spec fn view(&self) -> RelayView {
        RelayView { transport: self.transport, state: self.state, prefix: self.tellraw_prefix@ }
    }

    /// A relay bound to `transport` for its whole life, waiting for the sink.
    pub fn new(transport: Transport, tellraw_prefix: String) -> (r: Relay)
        ensures
            r.view() == (RelayView {
                transport,
                state: RelayState::Connecting,
                prefix: tellraw_prefix@,
            }),
    {
        Relay { transport, state: RelayState::Connecting, tellraw_prefix }
    }

    /// The sink this relay writes to.
    pub fn transport(&self) -> (r: Transport)
        ensures
            r == self.view().transport,
    {
        self.transport
    }

    /// Where the relay is in its life.
    pub fn state(&self) -> (r: RelayState)
        ensures
            r == self.view().state,
    {
        self.state
    }

    /// Takes one event and says what to do; the sink never changes.
    pub fn step(&mut self, event: RelayEvent) -> (r: RelayAction)
        ensures
            (final(self).view().state, r@) == step_spec(old(self).view(), event),
            final(self).view().transport == old(self).view().transport,
            final(self).view().prefix == old(self).view().prefix,
    {
        match self.state {
            RelayState::Closed => RelayAction::Idle,
            RelayState::Connecting => match event {
                RelayEvent::Connected => {
                    self.state = RelayState::Ready;
                    RelayAction::Idle
                },
                RelayEvent::Input(_) => RelayAction::Idle,
                RelayEvent::SinkFailed(cause) => self.close(cause),
                RelayEvent::ProducerClosed => self.close(RelayError::ProducerClosed),
                RelayEvent::Shutdown => self.close(RelayError::ShutdownRequested),
            },
            RelayState::Ready => match event {
                RelayEvent::Connected => RelayAction::Idle,
                RelayEvent::Input(m) => {
                    let local = match m {
                        StdinMessage::UserInput(_) => true,
                        StdinMessage::DiscordMessage(_) => false,
                    };
                    if self.transport == Transport::Rcon && local {
                        RelayAction::Idle
                    } else {
                        RelayAction::Write(m.as_string(self.tellraw_prefix.as_str()))
                    }
                },
                RelayEvent::SinkFailed(cause) => self.close(cause),
                RelayEvent::ProducerClosed => self.close(RelayError::ProducerClosed),
                RelayEvent::Shutdown => self.close(RelayError::ShutdownRequested),
            },
        }
    }

    fn close(&mut self, cause: RelayError) -> (r: RelayAction)
        ensures
            final(self).view() == (RelayView { state: RelayState::Closed, ..old(self).view() }),
            r@ == ActionView::Stop(cause),
    {
        self.state = RelayState::Closed;
        RelayAction::Stop(cause)
    }
}

/// A closed relay stays closed and does nothing, whatever arrives; in
/// particular a second shutdown is a no-op.
pub proof fn lemma_closed_stays_idle(t: Transport, prefix: Seq<char>, es: Seq<RelayEvent>)
    ensures
        run_spec(RelayView { transport: t, state: RelayState::Closed, prefix }, es) == (
            RelayState::Closed,
            idle_actions(es.len()),
        ),
    decreases es.len(),
{
    if es.len() > 0 {
        lemma_closed_stays_idle(t, prefix, es.drop_first());
        assert(seq![ActionView::Idle] + idle_actions((es.len() - 1) as nat) =~= idle_actions(
            es.len(),
        ));
    } else {
        assert(idle_actions(0) =~= Seq::<ActionView>::empty());
    }
}

/// While ready, a wrapped process receives every chat message and every line
/// of local input in exactly the order they arrived, and nothing else.
pub proof fn lemma_arrival_order(prefix: Seq<char>, es: Seq<RelayEvent>)
    requires
        forall|i: int| 0 <= i < es.len() ==> es[i] is Input,
    ensures
        run_spec(RelayView { transport: Transport::Process, state: RelayState::Ready, prefix }, es)
            == (RelayState::Ready, Seq::new(
            es.len(),
            |i: int| ActionView::Write(es[i]->Input_0.text_spec(prefix)),
        )),
    decreases es.len(),
{
    let r = RelayView { transport: Transport::Process, state: RelayState::Ready, prefix };
    let writes = Seq::new(es.len(), |i: int| ActionView::Write(es[i]->Input_0.text_spec(prefix)));
    if es.len() > 0 {
        let rest = es.drop_first();
        assert forall|i: int| 0 <= i < rest.len() implies rest[i] is Input by {
            assert(rest[i] == es[i + 1]);
        }
        lemma_arrival_order(prefix, rest);
        let rest_writes = Seq::new(
            rest.len(),
            |i: int| ActionView::Write(rest[i]->Input_0.text_spec(prefix)),
        );
        assert(seq![step_spec(r, es[0]).1] + rest_writes =~= writes);
    } else {
        assert(writes =~= Seq::<ActionView>::empty());
    }
}

/// When the wrapped process exits, the relay stops at once with that cause,
/// is closed, and writes none of the messages that follow.
pub proof fn lemma_exit_stops_forwarding(r: RelayView, later: Seq<RelayEvent>)
    requires
        r.state != RelayState::Closed,
    ensures
        run_spec(r, seq![RelayEvent::SinkFailed(RelayError::ProcessExited)] + later) == (
            RelayState::Closed,
            seq![ActionView::Stop(RelayError::ProcessExited)] + idle_actions(later.len()),
        ),
{
    let es = seq![RelayEvent::SinkFailed(RelayError::ProcessExited)] + later;
    assert(es.drop_first() =~= later);
    lemma_closed_stays_idle(r.transport, r.prefix, later);
}

/// A shutdown stops the relay at once, asking for the sink to be released,
/// and no write follows it.
pub proof fn lemma_shutdown_stops(r: RelayView, later: Seq<RelayEvent>)
    requires
        r.state != RelayState::Closed,
    ensures
        run_spec(r, seq![RelayEvent::Shutdown] + later) == (
            RelayState::Closed,
            seq![ActionView::Stop(RelayError::ShutdownRequested)] + idle_actions(later.len()),
        ),
{
    let es = seq![RelayEvent::Shutdown] + later;
    assert(es.drop_first() =~= later);
    lemma_closed_stays_idle(r.transport, r.prefix, later);
}

} // verus!
