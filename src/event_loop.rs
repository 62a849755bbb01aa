use vstd::prelude::*;

use crate::window::WindowId;
use crate::DeviceId;

verus! {

/// How the loop schedules its next wake once a batch of events is delivered.
#[derive(Debug, Copy, Clone, PartialEq, Eq, Structural)]
pub enum ControlFlow {
    /// Look for new events again at once.
    Poll,
    /// Block until the next native event.
    Wait,
    /// Block until the deadline or the next native event, whichever comes first.
    WaitUntil(u64),
    /// Stop after the current batch; cannot be taken back in this run.
    Exit,
}

/// Why a new batch of events starts.
#[derive(Debug, Copy, Clone, PartialEq, Eq, Structural)]
pub enum StartCause {
    Init,
    Poll,
    WaitCancelled,
    ResumeTimeReached { deadline: u64 },
}

/// An event that concerns one window.
#[derive(Debug, Copy, Clone, PartialEq, Eq, Structural)]
pub enum WindowEvent {
    Resized { width: u32, height: u32 },
    Moved { x: i32, y: i32 },
    CloseRequested,
    Destroyed,
    Focused(bool),
    KeyboardInput { scancode: u32, pressed: bool, escape: bool },
}

/// An event handed to the caller's callback.
#[derive(Debug, Copy, Clone, PartialEq, Eq, Structural)]
pub enum Event {
    WindowEvent { window_id: WindowId, event: WindowEvent },
    DeviceEvent { device_id: DeviceId },
    NewEvents(StartCause),
    UserEvent(u64),
    MainEventsCleared,
    RedrawRequested(WindowId),
    LoopDestroyed,
}

/// What the code driving the native run loop is to do next.
#[derive(Debug, Copy, Clone, PartialEq, Eq, Structural)]
pub enum LoopAction {
    /// Call the callback with this event.
    Deliver(Event),
    /// Collect pending native events without blocking, then `wake`.
    Poll,
    /// Block until a native event arrives, then `wake`.
    Wait,
    /// Block until the deadline or a native event, then `wake`.
    WaitUntil(u64),
    /// The run is over: hand control back to the caller.
    Return,
    /// The run is over: end the process.
    Terminate,
}

/// Where the loop stands.
#[derive(Debug, Copy, Clone, PartialEq, Eq, Structural)]
pub enum Phase {
    /// Handing out the events of the current batch.
    Delivering,
    /// Blocked as the control flow says, until the next batch.
    Waiting,
    /// The run is over.
    Finished,
}

/// The abstract state of a loop.
pub struct LoopView {
    pub phase: Phase,
    pub control_flow: ControlFlow,
    pub batch: Seq<Event>,
    pub pos: nat,
    pub hands_back: bool,
}

/// The state is consistent: the position lies within the batch, and a loop
/// that waits has not been told to exit.
pub open spec fn view_wf(v: LoopView) -> bool {
    &&& v.pos <= v.batch.len()
    &&& v.phase == Phase::Waiting ==> v.control_flow != ControlFlow::Exit
}

/// How the loop blocks under a control flow other than `Exit`.
pub open spec fn block_action(cf: ControlFlow) -> LoopAction {
    match cf {
        ControlFlow::Wait => LoopAction::Wait,
        ControlFlow::WaitUntil(t) => LoopAction::WaitUntil(t),
        _ => LoopAction::Poll,
    }
}

/// How a finished run ends: `run_return` gives control back, `run` ends the process.
pub open spec fn end_action(hands_back: bool) -> LoopAction {
    if hands_back {
        LoopAction::Return
    } else {
        LoopAction::Terminate
    }
}

/// The batch that a run starts with.
pub open spec fn first_batch() -> Seq<Event> {
    seq![Event::NewEvents(StartCause::Init), Event::MainEventsCleared]
}

/// A fresh run: `hands_back` tells `run_return` from `run`.
pub open spec fn start_spec(hands_back: bool) -> LoopView {
    LoopView {
        phase: Phase::Delivering,
        control_flow: ControlFlow::Poll,
        batch: first_batch(),
        pos: 0,
        hands_back,
    }
}

/// The next step: the state after it, and what the driver is to do.
pub open spec fn next_spec(v: LoopView) -> (LoopView, LoopAction) {
    match v.phase {
        Phase::Delivering => if v.pos < v.batch.len() {
            (LoopView { pos: v.pos + 1, ..v }, LoopAction::Deliver(v.batch[v.pos as int]))
        } else if v.control_flow == ControlFlow::Exit {
            (LoopView { phase: Phase::Finished, ..v }, LoopAction::Deliver(Event::LoopDestroyed))
        } else {
            (LoopView { phase: Phase::Waiting, ..v }, block_action(v.control_flow))
        },
        Phase::Waiting => (v, block_action(v.control_flow)),
        Phase::Finished => (v, end_action(v.hands_back)),
    }
}

/// The callback's choice of control flow takes effect while a batch is
/// delivered, unless the loop was already told to exit.
pub open spec fn set_cf_spec(v: LoopView, cf: ControlFlow) -> LoopView {
    if v.phase == Phase::Delivering && v.control_flow != ControlFlow::Exit {
        LoopView { control_flow: cf, ..v }
    } else {
        v
    }
}

/// The batch for a wake: the start marker, the native events in their
/// order, and the end-of-batch marker.
pub open spec fn batch_spec(cause: StartCause, events: Seq<Event>) -> Seq<Event> {
    seq![Event::NewEvents(cause)] + events + seq![Event::MainEventsCleared]
}

/// A waiting loop takes a new batch; in any other phase a wake changes nothing.
pub open spec fn wake_spec(v: LoopView, cause: StartCause, events: Seq<Event>) -> LoopView {
    if v.phase == Phase::Waiting {
        LoopView { phase: Phase::Delivering, batch: batch_spec(cause, events), pos: 0, ..v }
    } else {
        v
    }
}

/// The scheduling state of one run of the event loop: it tells the driver
/// which event to deliver next and how to wait between batches.
pub struct LoopState {
    phase: Phase,
    control_flow: ControlFlow,
    batch: Vec<Event>,
    pos: usize,
    hands_back: bool,
}

impl View for LoopState {
    type V = LoopView;

    closed spec fn view(&self) -> LoopView {
        LoopView {
            phase: self.phase,
            control_flow: self.control_flow,
            batch: self.batch@,
            pos: self.pos as nat,
            hands_back: self.hands_back,
        }
    }
}

impl LoopState {
    /// Starts a run; `hands_back` is set for `run_return`, clear for `run`.
    pub fn new(hands_back: bool) -> (r: LoopState)
        ensures
            r@ == start_spec(hands_back),
            view_wf(r@),
    {
        let batch = vec![Event::NewEvents(StartCause::Init), Event::MainEventsCleared];
        let r = LoopState {
            phase: Phase::Delivering,
            control_flow: ControlFlow::Poll,
            batch,
            pos: 0,
            hands_back,
        };
        assert(r@.batch =~= first_batch());
        r
    }

    /// The control flow in force.
    pub fn control_flow(&self) -> (r: ControlFlow)
        ensures
            r == self@.control_flow,
    {
        self.control_flow
    }

    /// Records the control flow the callback left; `Exit` cannot be taken back.
    pub fn set_control_flow(&mut self, cf: ControlFlow)
        requires
            view_wf(old(self)@),
        ensures
            final(self)@ == set_cf_spec(old(self)@, cf),
            view_wf(final(self)@),
    {
        if self.phase == Phase::Delivering && self.control_flow != ControlFlow::Exit {
            self.control_flow = cf;
        }
    }

    /// Takes the next step and says what the driver is to do.
    pub fn next_action(&mut self) -> (r: LoopAction)
        requires
            view_wf(old(self)@),
        ensures
            (final(self)@, r) == next_spec(old(self)@),
            view_wf(final(self)@),
    {
        match self.phase {
            Phase::Delivering => {
                if self.pos < self.batch.len() {
                    let e = self.batch[self.pos];
                    self.pos = self.pos + 1;
                    LoopAction::Deliver(e)
                } else if self.control_flow == ControlFlow::Exit {
                    self.phase = Phase::Finished;
                    LoopAction::Deliver(Event::LoopDestroyed)
                } else {
                    self.phase = Phase::Waiting;
                    Self::block(self.control_flow)
                }
            },
            Phase::Waiting => Self::block(self.control_flow),
            Phase::Finished => {
                if self.hands_back {
                    LoopAction::Return
                } else {
                    LoopAction::Terminate
                }
            },
        }
    }

    fn block(cf: ControlFlow) -> (r: LoopAction)
        ensures
            r == block_action(cf),
    {
        match cf {
            ControlFlow::Wait => LoopAction::Wait,
            ControlFlow::WaitUntil(t) => LoopAction::WaitUntil(t),
            _ => LoopAction::Poll,
        }
    }

    /// Hands a waiting loop the native events that arrived, in their order.
    pub fn wake(&mut self, cause: StartCause, events: Vec<Event>)
        requires
            view_wf(old(self)@),
        ensures
            final(self)@ == wake_spec(old(self)@, cause, events@),
            view_wf(final(self)@),
    {
        if self.phase != Phase::Waiting {
            return;
        }
        let mut batch: Vec<Event> = Vec::new();
        batch.push(Event::NewEvents(cause));
        let mut i: usize = 0;
        while i < events.len()
            invariant
                i <= events.len(),
                batch@ == seq![Event::NewEvents(cause)] + events@.subrange(0, i as int),
            decreases events.len() - i,
        {
            batch.push(events[i]);
            assert(events@.subrange(0, i + 1) == events@.subrange(0, i as int).push(events@[i as int]));
            i = i + 1;
        }
        batch.push(Event::MainEventsCleared);
        assert(events@.subrange(0, events.len() as int) == events@);
        assert(batch@ =~= batch_spec(cause, events@));
        self.batch = batch;
        self.pos = 0;
        self.phase = Phase::Delivering;
    }
}

/// Why an event loop cannot be created.
#[derive(Debug, Copy, Clone, PartialEq, Eq, Structural)]
pub enum EventLoopError {
    /// Another event loop already holds the application object.
    AlreadyExists,
}

/// The process's single native application object: at most one event loop
/// holds it at a time.
pub struct Application {
    held: bool,
}

impl View for Application {
    type V = bool;

    closed spec fn view(&self) -> bool {
        self.held
    }
}

impl Application {
    /// The application object, not yet held by any loop.
    pub fn new() -> (r: Application)
        ensures
            r@ == false,
    {
        Application { held: false }
    }

    /// Takes the application object for a new event loop; fails while another
    /// loop holds it.
    pub fn acquire(&mut self) -> (r: Result<(), EventLoopError>)
        ensures
            final(self)@ == true,
            r == if old(self)@ {
                Err::<(), EventLoopError>(EventLoopError::AlreadyExists)
            } else {
                Ok::<(), EventLoopError>(())
            },
    {
        if self.held {
            Err(EventLoopError::AlreadyExists)
        } else {
            self.held = true;
            Ok(())
        }
    }

    /// Gives the application object back when the loop that held it is dropped.
    pub fn release(&mut self)
        ensures
            final(self)@ == false,
    {
        self.held = false;
    }
}

/// Once `Exit` is set, no control flow the callback chooses takes it back.
pub proof fn lemma_exit_sticks(v: LoopView, cf: ControlFlow)
    requires
        v.control_flow == ControlFlow::Exit,
    ensures
        set_cf_spec(v, cf).control_flow == ControlFlow::Exit,
{
}

/// Once the loop is told to exit, no new batch is taken; when the current
/// batch is delivered, only the closing `LoopDestroyed` follows, and the run
/// is over.
pub proof fn lemma_exit_ends_run(v: LoopView, cause: StartCause, events: Seq<Event>)
    requires
        view_wf(v),
        v.control_flow == ControlFlow::Exit,
        v.phase == Phase::Delivering,
        v.pos == v.batch.len(),
    ensures
        wake_spec(v, cause, events) == v,
        next_spec(v).1 == LoopAction::Deliver(Event::LoopDestroyed),
        next_spec(v).0.phase == Phase::Finished,
{
}

/// A finished run delivers nothing more: every further step hands back the
/// same state and ends the run, `run_return` by returning to its caller,
/// and neither a wake nor a control flow changes it.
pub proof fn lemma_finished_is_final(
    v: LoopView,
    cause: StartCause,
    events: Seq<Event>,
    cf: ControlFlow,
)
    requires
        v.phase == Phase::Finished,
    ensures
        next_spec(v) == (v, end_action(v.hands_back)),
        v.hands_back ==> next_spec(v).1 == LoopAction::Return,
        wake_spec(v, cause, events) == v,
        set_cf_spec(v, cf) == v,
{
}

} // verus!
