use vstd::prelude::*;

use crate::event_loop::{ControlFlow, Event, WindowEvent};
use crate::window::WindowId;

verus! {

/// Where the dispatch thread sends one event.
#[derive(Debug, Copy, Clone, PartialEq, Eq, Structural)]
pub enum Route {
    /// Send the event to the consumer of this window.
    Forward(WindowId, WindowEvent),
    /// The window is going away: drop its consumer.
    Unregister(WindowId),
    /// Nobody takes this event.
    Ignore,
}

/// The window events that end a window's consumer: a close request, the
/// window's destruction, or the release of the Escape key.
pub open spec fn ends_consumer(e: WindowEvent) -> bool {
    match e {
        WindowEvent::CloseRequested => true,
        WindowEvent::Destroyed => true,
        WindowEvent::KeyboardInput { scancode: _, pressed, escape } => escape && !pressed,
        _ => false,
    }
}

/// The first `n` registered ids, without `id`.
pub open spec fn without_upto(s: Seq<WindowId>, id: WindowId, n: nat) -> Seq<WindowId>
    decreases n,
{
    if n == 0 {
        Seq::empty()
    } else {
        let prev = without_upto(s, id, (n - 1) as nat);
        if s[n - 1] == id {
            prev
        } else {
            prev.push(s[n - 1])
        }
    }
}

/// The registered ids without `id`, in their order.
pub open spec fn without(s: Seq<WindowId>, id: WindowId) -> Seq<WindowId> {
    without_upto(s, id, s.len())
}

/// The route of `e` for the consumers `s`, and the consumers after it.
pub open spec fn route_spec(s: Seq<WindowId>, e: Event) -> (Seq<WindowId>, Route) {
    match e {
        Event::WindowEvent { window_id, event } => if ends_consumer(event) {
            (without(s, window_id), Route::Unregister(window_id))
        } else if s.contains(window_id) {
            (s, Route::Forward(window_id, event))
        } else {
            (s, Route::Ignore)
        },
        _ => (s, Route::Ignore),
    }
}

/// The table of windows whose events go to a consumer of their own. Only the
/// dispatch thread holds and changes it.
pub struct Dispatcher {
    consumers: Vec<WindowId>,
}

impl View for Dispatcher {
    type V = Seq<WindowId>;

    closed spec fn view(&self) -> Seq<WindowId> {
        self.consumers@
    }
}

impl Dispatcher {
    /// A table with no consumer.
    pub fn new() -> (r: Dispatcher)
        ensures
            r@ == Seq::<WindowId>::empty(),
    {
        Dispatcher { consumers: Vec::new() }
    }

    /// Registers a consumer for window `id`; one already registered stays as it is.
    pub fn register(&mut self, id: WindowId)
        ensures
            final(self)@ == if old(self)@.contains(id) {
                old(self)@
            } else {
                old(self)@.push(id)
            },
    {
        if !self.is_registered(id) {
            self.consumers.push(id);
        }
    }

    /// Whether window `id` has a consumer.
    pub fn is_registered(&self, id: WindowId) -> (r: bool)
        ensures
            r == self@.contains(id),
    {
        let mut i: usize = 0;
        while i < self.consumers.len()
            invariant
                i <= self.consumers.len(),
                forall|j: int| 0 <= j < i ==> self.consumers@[j] != id,
            decreases self.consumers.len() - i,
        {
            if self.consumers[i] == id {
                assert(self.consumers@[i as int] == id);
                return true;
            }
            i = i + 1;
        }
        false
    }

    /// The control flow the dispatch thread asks for: wait while a consumer
    /// is left, exit once none is.
    pub fn control_flow(&self) -> (r: ControlFlow)
        ensures
            r == if self@.len() == 0 {
                ControlFlow::Exit
            } else {
                ControlFlow::Wait
            },
    {
        if self.consumers.len() == 0 {
            ControlFlow::Exit
        } else {
            ControlFlow::Wait
        }
    }

    fn unregister(&mut self, id: WindowId)
        ensures
            final(self)@ == without(old(self)@, id),
    {
        let mut kept: Vec<WindowId> = Vec::new();
        let mut i: usize = 0;
        while i < self.consumers.len()
            invariant
                i <= self.consumers.len(),
                kept@ == without_upto(self.consumers@, id, i as nat),
            decreases self.consumers.len() - i,
        {
            let w = self.consumers[i];
            if w != id {
                kept.push(w);
            }
            i = i + 1;
        }
        self.consumers = kept;
    }

    /// Decides where an event goes, and drops the consumer of a window that
    /// is going away.
    pub fn route(&mut self, e: Event) -> (r: Route)
        ensures
            (final(self)@, r) == route_spec(old(self)@, e),
    {
        match e {
            Event::WindowEvent { window_id, event } => {
                let ends = match event {
                    WindowEvent::CloseRequested => true,
                    WindowEvent::Destroyed => true,
                    WindowEvent::KeyboardInput { scancode: _, pressed, escape } => escape && !pressed,
                    _ => false,
                };
                if ends {
                    self.unregister(window_id);
                    Route::Unregister(window_id)
                } else if self.is_registered(window_id) {
                    Route::Forward(window_id, event)
                } else {
                    Route::Ignore
                }
            },
            _ => Route::Ignore,
        }
    }
}

} // verus!
