//! The event-driven session loop: drains the ordered event stream the
//! transport collaborator delivers each frame and decides, per event,
//! the next client state and the action the collaborator must carry
//! out (submit a command, or predict a pawn's movement locally).
//!
//! The loop itself performs no I/O: events come in as plain values and
//! actions go out as plain values.

use vstd::prelude::*;
use crate::input::{Command, InputAggregator, RawInput, merge_step};
use crate::pawn::{ActorKey, AssignmentState, PawnAssignment, assign_step, unassign_step};

verus! {

/// The payload of an authoritative command echo. Only the directional
/// movement kind drives prediction; any other kind is ignored by
/// design, keeping the protocol forward compatible.
#[derive(Clone, Copy, PartialEq, Eq, Structural, Debug)]
pub enum CommandPayload {
    Movement(Command),
    Unknown,
}

/// One event delivered by the transport collaborator, in order.
#[derive(Clone, Copy, PartialEq, Eq, Structural, Debug)]
pub enum GameEvent {
    /// The session came up.
    Connection,
    /// The session went down; also delivered on heartbeat loss.
    Disconnection,
    /// A network tick: the moment to flush the pending command.
    Tick,
    /// The server put this client in control of a pawn.
    AssignPawn(ActorKey),
    /// The server revoked control of a pawn.
    UnassignPawn(ActorKey),
    /// An authoritative command echo destined for a pawn.
    Command(ActorKey, CommandPayload),
    /// An event kind this client does not recognize: ignored by
    /// design, keeping the protocol forward compatible.
    Unknown,
    /// A failed event delivery reported by the transport: non-fatal,
    /// the loop keeps draining subsequent events.
    ReceiveError,
}

/// An action the collaborator must carry out for the client.
#[derive(Clone, Copy, PartialEq, Eq, Structural, Debug)]
pub enum Action {
    /// Submit this command to the session, addressed to this pawn.
    SendCommand(ActorKey, Command),
    /// Apply the deterministic movement rule to the local actor bound
    /// to this pawn key, if it is locally resolvable; a pawn not yet
    /// replicated is dropped silently, an expected benign race.
    PredictMovement(ActorKey, Command),
}

/// The whole observable state of the client core.
#[derive(Clone, Copy, PartialEq, Eq, Structural, Debug)]
pub struct ClientView {
    pub pending: Option<Command>,
    pub pawn: AssignmentState,
    pub connected: bool,
}

/// The state after merging one frame of raw input: the pending
/// command absorbs the sample, nothing else moves.
pub open spec fn merge_input_state(v: ClientView, raw: RawInput) -> ClientView {
    ClientView {
        pending: Some(merge_step(v.pending, raw)),
        pawn: v.pawn,
        connected: v.connected,
    }
}

/// The state after one event. A tick consumes the pending command
/// only when it is actually submitted: connected, a pawn assigned and
/// a command pending. Disconnection halts submission; command echoes
/// and unrecognized events leave the state untouched.
pub open spec fn step_state(v: ClientView, e: GameEvent) -> ClientView {
    match e {
        GameEvent::Connection => ClientView { pending: v.pending, pawn: v.pawn, connected: true },
        GameEvent::Disconnection => ClientView {
            pending: v.pending,
            pawn: v.pawn,
            connected: false,
        },
        GameEvent::Tick => if v.connected && v.pawn is Assigned {
            ClientView { pending: None, pawn: v.pawn, connected: v.connected }
        } else {
            v
        },
        GameEvent::AssignPawn(k) => ClientView {
            pending: v.pending,
            pawn: assign_step(v.pawn, k),
            connected: v.connected,
        },
        GameEvent::UnassignPawn(k) => ClientView {
            pending: v.pending,
            pawn: unassign_step(v.pawn, k),
            connected: v.connected,
        },
        GameEvent::Command(_, _) => v,
        GameEvent::Unknown => v,
        GameEvent::ReceiveError => v,
    }
}

/// The action one event demands. A tick submits the pending command
/// to the assigned pawn, and only while connected; a movement echo
/// demands local prediction for its pawn; everything else demands
/// nothing.
pub open spec fn step_action(v: ClientView, e: GameEvent) -> Option<Action> {
    match e {
        GameEvent::Tick => match v.pawn {
            AssignmentState::Assigned(k) => if v.connected {
                match v.pending {
                    Some(c) => Some(Action::SendCommand(k, c)),
                    None => None,
                }
            } else {
                None
            },
            AssignmentState::Unassigned => None,
        },
        GameEvent::Command(k, payload) => match payload {
            CommandPayload::Movement(c) => Some(Action::PredictMovement(k, c)),
            CommandPayload::Unknown => None,
        },
        _ => None,
    }
}

/// The state after a whole ordered event sequence.
pub open spec fn run_state(v: ClientView, events: Seq<GameEvent>) -> ClientView
    decreases events.len(),
{
    if events.len() == 0 {
        v
    } else {
        step_state(run_state(v, events.drop_last()), events.last())
    }
}

/// The actions a whole ordered event sequence demands, in order.
pub open spec fn run_actions(v: ClientView, events: Seq<GameEvent>) -> Seq<Action>
    decreases events.len(),
{
    if events.len() == 0 {
        Seq::empty()
    } else {
        let acts = run_actions(v, events.drop_last());
        match step_action(run_state(v, events.drop_last()), events.last()) {
            Some(a) => acts.push(a),
            None => acts,
        }
    }
}

/// The client core: input aggregation, pawn assignment and the
/// connection predicate, driven once per frame.
pub struct GameClient {
    input: InputAggregator,
    pawn: PawnAssignment,
    connected: bool,
}

impl View for GameClient {
    type V = ClientView;

    closed spec fn view(&self) -> ClientView {
        ClientView {
            pending: self.input.pending(),
            pawn: self.pawn.state(),
            connected: self.connected,
        }
    }
}

impl GameClient {
    /// A fresh client: nothing pending, no pawn, not yet connected.
    pub fn new() -> (r: Self)
        ensures
            r@ == (ClientView {
                pending: None,
                pawn: AssignmentState::Unassigned,
                connected: false,
            }),
    {
        GameClient { input: InputAggregator::new(), pawn: PawnAssignment::new(), connected: false }
    }

    /// Whether the session is currently up: true between a
    /// `Connection` and the next `Disconnection` event.
    pub fn has_connection(&self) -> (r: bool)
        ensures
            r == self@.connected,
    {
        self.connected
    }

    /// Folds one frame of raw key states into the pending command.
    pub fn merge_input(&mut self, w: bool, s: bool, a: bool, d: bool)
        ensures
            final(self)@ == merge_input_state(old(self)@, RawInput { w, s, a, d }),
    {
        self.input.merge(w, s, a, d);
    }

    /// Dispatches one event: updates the state exactly as `step_state`
    /// says and returns exactly the action `step_action` demands.
    pub fn handle_event(&mut self, e: GameEvent) -> (action: Option<Action>)
        ensures
            final(self)@ == step_state(old(self)@, e),
            action == step_action(old(self)@, e),
    {
        match e {
            GameEvent::Connection => {
                self.connected = true;
                None
            }
            GameEvent::Disconnection => {
                self.connected = false;
                None
            }
            GameEvent::Tick => {
                match self.pawn.assigned_key() {
                    Some(k) => {
                        if self.connected {
                            match self.input.take() {
                                Some(c) => Some(Action::SendCommand(k, c)),
                                None => None,
                            }
                        } else {
                            None
                        }
                    }
                    None => None,
                }
            }
            GameEvent::AssignPawn(k) => {
                self.pawn.assign(k);
                None
            }
            GameEvent::UnassignPawn(k) => {
                self.pawn.unassign(k);
                None
            }
            GameEvent::Command(k, payload) => match payload {
                CommandPayload::Movement(c) => Some(Action::PredictMovement(k, c)),
                CommandPayload::Unknown => None,
            },
            GameEvent::Unknown => None,
            GameEvent::ReceiveError => None,
        }
    }

    /// One frame: merges the frame's raw input into the pending
    /// command, then drains the frame's events in delivery order,
    /// returning the demanded actions in that same order.
    pub fn update(&mut self, w: bool, s: bool, a: bool, d: bool, events: &Vec<GameEvent>) -> (actions: Vec<Action>)
        ensures
            final(self)@ == run_state(
                merge_input_state(old(self)@, RawInput { w, s, a, d }),
                events@,
            ),
            actions@ == run_actions(
                merge_input_state(old(self)@, RawInput { w, s, a, d }),
                events@,
            ),
    {
        self.merge_input(w, s, a, d);
        let ghost v0: ClientView = self@;
        let mut actions: Vec<Action> = Vec::new();
        let n: usize = events.len();
        let mut i: usize = 0;
        while i < n
            invariant
                i <= n,
                n == events@.len(),
                self@ == run_state(v0, events@.take(i as int)),
                actions@ == run_actions(v0, events@.take(i as int)),
            decreases n - i,
        {
            let action = self.handle_event(events[i]);
            match action {
                Some(a) => actions.push(a),
                None => {}
            }
            i = i + 1;
            proof {
                assert(events@.take(i as int).drop_last() =~= events@.take(i - 1));
                assert(events@.take(i as int).last() == events@[i - 1]);
            }
        }
        proof {
            assert(events@.take(n as int) =~= events@);
        }
        actions
    }
}

/// After a disconnection — even one with no preceding error — and
/// until the next `Connection` event, the connection predicate stays
/// false and no event, tick included, can demand a command
/// submission.
pub proof fn lemma_no_send_while_disconnected(v: ClientView, events: Seq<GameEvent>)
    requires
        !v.connected,
        forall|i: int| 0 <= i < events.len() ==> events[i] != GameEvent::Connection,
    ensures
        !run_state(v, events).connected,
        forall|t: int| 0 <= t < run_actions(v, events).len()
            ==> !((#[trigger] run_actions(v, events)[t]) is SendCommand),
    decreases events.len(),
{
    if events.len() > 0 {
        let front = events.drop_last();
        assert forall|i: int| 0 <= i < front.len()
            implies front[i] != GameEvent::Connection by {
            assert(front[i] == events[i]);
        }
        lemma_no_send_while_disconnected(v, front);
        assert(events[events.len() - 1] != GameEvent::Connection);
    }
}

} // verus!
