//! The driver: one iteration of callbacks in a fixed phase order, and the
//! decisions around the wait between two iterations.

use crate::application::ActiveEventLoop;
use crate::application::ApplicationHandler;
use crate::application::handle_ready;
use crate::application::TargetView;
use crate::control::ControlFlow;
use crate::control::dispatch_exit_code;
use crate::control::EXIT_FAILURE;
use crate::control::is_spurious;
use crate::control::PumpStatus;
use crate::control::spec_dispatch_exit_code;
use crate::control::spec_is_spurious;
use crate::control::spec_start_cause;
use crate::control::spec_wait_timeout;
use crate::control::start_cause;
use crate::control::StartCause;
use crate::control::wait_timeout;
use crate::event::DeviceEvent;
use crate::event::Event;
use crate::event::LogicalSize;
use crate::event::SurfaceSizeWriter;
use crate::event::WindowEvent;
use crate::event::WindowId;
use crate::laws::Step;
use crate::model::is_raw;
use crate::model::StateView;
use crate::notifier::PumpEventNotifier;
use crate::notifier::PumpEventNotifierAction;
use crate::notifier::ShutdownSteps;
use crate::request::law_requests;
use crate::request::request_all;
use crate::request::WindowRequest;
use crate::script::any_refresh_due;
use crate::script::Cursor;
use crate::script::expect;
use crate::script::extends;
use crate::script::Iteration;
use crate::script::lemma_run_events;
use crate::script::lemma_run_opening;
use crate::script::lemma_run_updates;
use crate::script::lemma_run_windows;
use crate::script::refresh_all;
use crate::script::run_close;
use crate::script::run_event;
use crate::script::run_events;
use crate::script::run_iteration;
use crate::script::run_opening;
use crate::script::run_pending;
use crate::script::run_resize;
use crate::script::run_scale_change;
use crate::script::run_update;
use crate::script::run_updates;
use crate::script::run_window;
use crate::script::run_windows;
use crate::sink::EventSink;
use crate::state::WinitState;
use crate::time::timeout_nanos;
use crate::trace::Callback;
use crate::trace::delivery_ok;
use crate::trace::Delivery;
use crate::trace::iteration_prefix;
use crate::trace::iteration_trace;
use crate::trace::law_redraw_pass;
use crate::trace::law_surface_resized;
use crate::trace::lemma_extend;
use crate::trace::Phase;
use crate::walk::destroyed_in;
use crate::walk::dropped;
use crate::walk::kept;
use crate::walk::law_destroyed_once;
use crate::walk::law_dropped_is_destroyed;
use crate::walk::law_proxy_wake_up;
use crate::walk::law_retired_gets_nothing;
use crate::walk::names_window;
use crate::walk::walk_step;
use crate::window::WindowCompositorUpdate;
use std::time::Duration;
use std::time::Instant;
use crate::walk::lemma_requests_keep_dropped;
use crate::walk::law_iteration_keeps;
use crate::walk::law_scale_then_resize;
use crate::script::update_rank;
use vstd::prelude::*;

verus! {

/// The event loop.
pub struct EventLoop {
    /// Whether the loop was started and has not exited since.
    loop_running: bool,
    /// Whether the loop has run an iteration yet.
    iterated: bool,
    /// Scratch buffer for the events of one phase.
    buffer_sink: EventSink,
    /// Scratch buffer for the compositor updates of one iteration.
    compositor_updates: Vec<WindowCompositorUpdate>,
    /// Scratch buffer for the windows of one iteration.
    window_ids: Vec<WindowId>,
    /// The handle given to the application.
    active_event_loop: ActiveEventLoop,
    /// The windows and what is pending for them.
    state: WinitState,
    /// The owner's side of the helper thread, once one was asked for.
    pump_event_notifier: Option<PumpEventNotifier>,
    /// Every callback the loop made, oldest first.
    deliveries: Ghost<Seq<Delivery>>,
}

/// What the caller is to do about the helper thread when a pump returns.
#[derive(Clone, Copy, Debug, PartialEq, Eq, Structural)]
pub enum NotifierCommand {
    /// Nothing: there is no helper thread and none is wanted.
    Nothing,
    /// Start the helper thread, then ask it to monitor.
    SpawnAndMonitor,
    /// Ask the helper thread to monitor.
    Monitor,
}

/// How the wait of a pump ended.
#[derive(Clone, Copy, Debug, PartialEq, Eq)]
pub enum WaitOutcome {
    /// The connection could not be flushed; the loop did not wait.
    FlushFailed,
    /// Dispatching failed, with the error's code of the operating system if
    /// it has one.
    DispatchFailed(Option<i32>),
    /// The wait is over; `now` was read from the clock after it.
    Woke { now: Instant },
}

impl EventLoop {
    /// The handle given to the application.
    pub closed spec fn target(&self) -> ActiveEventLoop {
        self.active_event_loop
    }

    /// The windows and what is pending for them.
    pub closed spec fn state(&self) -> StateView {
        self.state@
    }

    /// Every callback the loop made, oldest first.
    pub closed spec fn deliveries(&self) -> Seq<Delivery> {
        self.deliveries@
    }

    /// Whether the loop was started and has not exited since.
    pub closed spec fn is_running(&self) -> bool {
        self.loop_running
    }

    /// Whether the loop has run an iteration yet.
    pub closed spec fn has_iterated(&self) -> bool {
        self.iterated
    }

    /// The owner's side of the helper thread, once one was asked for.
    pub closed spec fn notifier(&self) -> Option<PumpEventNotifier> {
        self.pump_event_notifier
    }

    /// The windows that the closing pass of the current iteration goes over.
    pub closed spec fn iteration_windows(&self) -> Seq<WindowId> {
        self.window_ids@
    }

    /// Whether `after` is this loop after one iteration for `cause`.  The
    /// states before and after are well formed.  The deliveries made since
    /// are a whole iteration, in the fixed order of the phases and each as
    /// the loop promises, with surfaces offered exactly if the loop had run
    /// no iteration before.  They are those of `run_iteration`, no more and
    /// no fewer, from the state the loop was in once the requests left with
    /// the handle were carried out.  The state is what the closing pass made
    /// of the state in which the requests of `about_to_wait` were carried
    /// out, and the loop's own wake-up signal is raised if the closing pass
    /// found a redraw owed.
    pub open spec fn ran_iteration(&self, after: &EventLoop, cause: StartCause) -> bool {
        let made = after.deliveries().skip(self.deliveries().len() as int);
        &&& self.state().wf()
        &&& after.state().wf()
        &&& self.deliveries().len() < after.deliveries().len()
        &&& after.deliveries().take(self.deliveries().len() as int) == self.deliveries()
        &&& iteration_trace(!self.has_iterated(), cause, made)
        &&& after.has_iterated()
        &&& run_iteration(
            !self.has_iterated(),
            cause,
            request_all(self.state(), self.target()@.requests),
            made,
        ) matches Some(iteration) && {
            &&& iteration.end.at == made.len()
            &&& after.state() == refresh_all(iteration.end.state, iteration.windows)
            &&& any_refresh_due(iteration.end.state, iteration.windows)
                ==> after.target()@.awakener
        }
    }

    /// Whether the scratch buffers for events and updates hold nothing.
    pub closed spec fn buffers_are_empty(&self) -> bool {
        &&& self.buffer_sink@.len() == 0
        &&& self.compositor_updates@.len() == 0
    }

    /// Whether the scratch buffers hold nothing, as between two iterations.
    pub closed spec fn scratch_is_empty(&self) -> bool {
        &&& self.buffers_are_empty()
        &&& self.window_ids@.len() == 0
    }

    /// Whether `other` is this loop with possibly another handle and more
    /// deliveries: the same running state, notifier and scratch buffers.
    closed spec fn same_frame(&self, other: &EventLoop) -> bool {
        &&& other.loop_running == self.loop_running
        &&& other.iterated == self.iterated
        &&& other.pump_event_notifier == self.pump_event_notifier
        &&& other.buffer_sink@ == self.buffer_sink@
        &&& other.compositor_updates@ == self.compositor_updates@
        &&& other.window_ids@ == self.window_ids@
    }

    /// A loop that has not run yet.
    pub fn new() -> (r: Self)
        ensures
            !r.is_running(),
            !r.has_iterated(),
            r.scratch_is_empty(),
            r.notifier() == None::<PumpEventNotifier>,
            r.deliveries() == Seq::<Delivery>::empty(),
            r.state() == StateView::empty(),
            r.target()@ == (TargetView {
                control_flow: ControlFlow::Wait,
                exit: None,
                wake: false,
                awakener: false,
                requests: Seq::empty(),
                next_window_id: 0,
            }),
    {
        EventLoop {
            loop_running: false,
            iterated: false,
            buffer_sink: EventSink::default(),
            compositor_updates: Vec::new(),
            window_ids: Vec::new(),
            active_event_loop: ActiveEventLoop::new(),
            state: WinitState::new(),
            pump_event_notifier: None,
            deliveries: Ghost(Seq::empty()),
        }
    }

    /// The handle given to the application.
    pub fn window_target(&self) -> (r: &ActiveEventLoop)
        ensures
            *r == self.target(),
    {
        &self.active_event_loop
    }

    /// The handle given to the application, for the native handlers to
    /// write what arrived into it between two iterations.
    pub fn window_target_mut(&mut self) -> (r: &mut ActiveEventLoop)
        ensures
            *r == old(self).target(),
            final(self).target() == *final(r),
            final(self).state() == old(self).state(),
            final(self).is_running() == old(self).is_running(),
            final(self).has_iterated() == old(self).has_iterated(),
            final(self).notifier() == old(self).notifier(),
            final(self).scratch_is_empty() == old(self).scratch_is_empty(),
            final(self).deliveries() == old(self).deliveries(),
    {
        &mut self.active_event_loop
    }

    /// The windows and what is pending for them.
    pub fn state_ref(&self) -> (r: &WinitState)
        ensures
            r@ == self.state(),
    {
        &self.state
    }

    /// The windows and what is pending for them, for the native handlers to
    /// write what arrived between two iterations.
    pub fn state_mut(&mut self) -> (r: &mut WinitState)
        ensures
            r@ == old(self).state(),
            final(self).state() == final(r)@,
            final(self).target() == old(self).target(),
            final(self).is_running() == old(self).is_running(),
            final(self).has_iterated() == old(self).has_iterated(),
            final(self).notifier() == old(self).notifier(),
            final(self).scratch_is_empty() == old(self).scratch_is_empty(),
            final(self).deliveries() == old(self).deliveries(),
    {
        &mut self.state
    }

    /// Creates a window of `surface_size` between two iterations, and tells
    /// the handle which identity the next window gets.  Returns the window's
    /// identity, or `None` when the identities are used up.
    pub fn create_window(&mut self, surface_size: LogicalSize) -> (id: Option<WindowId>)
        ensures
            final(self).state() == old(self).state().create_window(surface_size),
            id == if old(self).state().next_window_id < u64::MAX {
                Some(WindowId(old(self).state().next_window_id))
            } else {
                None
            },
            final(self).target()@ == (TargetView {
                next_window_id: final(self).state().next_window_id,
                ..old(self).target()@
            }),
            final(self).is_running() == old(self).is_running(),
            final(self).has_iterated() == old(self).has_iterated(),
            final(self).notifier() == old(self).notifier(),
            final(self).scratch_is_empty() == old(self).scratch_is_empty(),
            final(self).deliveries() == old(self).deliveries(),
    {
        let id = self.state.create_window(surface_size);
        self.active_event_loop.set_next_window_id(self.state.next_window_id());
        id
    }

    /// Takes the wake-ups that are pending into the state, as the loop's
    /// sources do when the wait ends: a wake-up of the application marks the
    /// state as woken by a proxy, and either wake-up marks it as having
    /// dispatched events.
    pub fn dispatch_pings(&mut self)
        ensures
            final(self).target()@ == (TargetView {
                wake: false,
                awakener: false,
                ..old(self).target()@
            }),
            final(self).state() == (StateView {
                dispatched_events: old(self).state().dispatched_events || old(
                    self,
                ).target()@.wake || old(self).target()@.awakener,
                proxy_wake_up: old(self).state().proxy_wake_up || old(self).target()@.wake,
                ..old(self).state()
            }),
            final(self).is_running() == old(self).is_running(),
            final(self).has_iterated() == old(self).has_iterated(),
            final(self).notifier() == old(self).notifier(),
            final(self).scratch_is_empty() == old(self).scratch_is_empty(),
            final(self).deliveries() == old(self).deliveries(),
    {
        if self.active_event_loop.take_wake_up() {
            self.state.proxy_woke();
        }
        if self.active_event_loop.take_awakener() {
            self.state.awakener_woke();
        }
    }

    /// The control-flow policy in force.
    pub fn control_flow(&self) -> (r: ControlFlow)
        ensures
            r == self.target().spec_control_flow(),
    {
        self.active_event_loop.control_flow()
    }

    /// Whether the loop was asked to end.
    pub fn exiting(&self) -> (r: bool)
        ensures
            r == self.target().spec_exit_code().is_some(),
    {
        self.active_event_loop.exiting()
    }

    /// The exit code, once the loop was asked to end.
    pub fn exit_code(&self) -> (r: Option<i32>)
        ensures
            r == self.target().spec_exit_code(),
    {
        self.active_event_loop.exit_code()
    }

    /// Ends the loop with exit code `code`.
    pub fn set_exit_code(&mut self, code: i32)
        ensures
            final(self).target().spec_exit_code() == Some(code),
            old(self).target().same_but_exit(&final(self).target()),
            final(self).state() == old(self).state(),
            final(self).is_running() == old(self).is_running(),
            final(self).has_iterated() == old(self).has_iterated(),
            final(self).notifier() == old(self).notifier(),
            final(self).scratch_is_empty() == old(self).scratch_is_empty(),
            final(self).deliveries() == old(self).deliveries(),
    {
        self.active_event_loop.set_exit_code(code);
    }
}


impl EventLoop {
    /// Whether the loop is in an iteration started for `cause` that came
    /// after the deliveries `before` and has come no further than the phase
    /// of rank `rank`.
    closed spec fn progress(&self, before: Seq<Delivery>, cause: StartCause, rank: int) -> bool {
        &&& before.len() <= self.deliveries@.len()
        &&& self.deliveries@.take(before.len() as int) == before
        &&& iteration_prefix(!self.iterated, cause, self.deliveries@.skip(before.len() as int), rank)
        &&& !self.iterated ==> rank >= 1
        &&& handle_ready(self.active_event_loop@, self.state@)
    }

    /// Whether the record `later` is the record `earlier` with one more
    /// delivery: of `callback`, in `phase`, made in `state` reached from
    /// `prior`, with `reply` for the event as the application left it; and
    /// whether `present` is the state with the application's requests
    /// carried out.
    closed spec fn delivered(
        earlier: Seq<Delivery>,
        later: Seq<Delivery>,
        callback: Callback,
        phase: Phase,
        prior: StateView,
        state: StateView,
        reply: Option<WindowEvent>,
        present: StateView,
    ) -> bool {
        &&& later.len() == earlier.len() + 1
        &&& later.drop_last() == earlier
        &&& extends(earlier, later)
        &&& later.last().callback == callback
        &&& later.last().phase == phase
        &&& later.last().prior == prior
        &&& later.last().state == state
        &&& later.last().reply == reply
        &&& present == later.last().left()
    }

    /// The deliveries made since `before`.
    closed spec fn suffix(&self, before: Seq<Delivery>) -> Seq<Delivery> {
        self.deliveries@.skip(before.len() as int)
    }

    /// Where the loop stands: behind the deliveries made since `before`, in
    /// its present state.
    closed spec fn cursor(&self, before: Seq<Delivery>) -> Cursor {
        Cursor {
            at: self.deliveries@.len() - before.len(),
            state: self.state@,
        }
    }

    /// Extends the beginning of an iteration by the passing on of a proxy's
    /// wake-up or by a delivery of a later phase.
    proof fn lemma_progress(
        first: bool,
        before: Seq<Delivery>,
        cause: StartCause,
        rank: int,
        all: Seq<Delivery>,
        d: Delivery,
    )
        requires
            before.len() <= all.len(),
            all.take(before.len() as int) == before,
            iteration_prefix(first, cause, all.skip(before.len() as int), rank),
            first ==> rank >= 1,
            delivery_ok(d),
            rank <= d.phase.rank(),
            d.phase.rank() >= 2,
            d.phase == Phase::ProxyWakeUp ==> rank < 2,
        ensures
            all.push(d).take(before.len() as int) == before,
            iteration_prefix(first, cause, all.push(d).skip(before.len() as int), d.phase.rank()),
    {
        lemma_extend(first, cause, all, before.len() as int, d, rank);
        assert(all.push(d).take(before.len() as int) =~= all.take(before.len() as int));
    }

    /// Carries out what the application asked of the windows, oldest request
    /// first, and tells the handle which identity the next window gets.
    fn apply_requests(&mut self)
        ensures
            final(self).state@ == request_all(old(self).state@, old(self).active_event_loop@.requests),
            final(self).active_event_loop@ == (TargetView {
                requests: Seq::empty(),
                next_window_id: final(self).state@.next_window_id,
                ..old(self).active_event_loop@
            }),
            old(self).same_frame(final(self)),
            final(self).deliveries@ == old(self).deliveries@,
    {
        let ghost start = self.state@;
        let requests = self.active_event_loop.take_requests();
        let mut i: usize = 0;
        proof {
            assert(requests@.take(0) =~= Seq::<WindowRequest>::empty());
        }
        while i < requests.len()
            invariant
                i <= requests.len(),
                self.state@ == request_all(start, requests@.take(i as int)),
                self.active_event_loop@ == (TargetView {
                    requests: Seq::empty(),
                    ..old(self).active_event_loop@
                }),
                old(self).same_frame(self),
                self.deliveries@ == old(self).deliveries@,
            decreases requests.len() - i,
        {
            proof {
                assert(requests@.take(i + 1).drop_last() =~= requests@.take(i as int));
            }
            self.state.request(requests[i]);
            i += 1;
        }
        proof {
            assert(requests@.take(i as int) =~= requests@);
        }
        self.active_event_loop.set_next_window_id(self.state.next_window_id());
    }

    /// Hands a window event to the application, carries out what the
    /// application asked for meanwhile, and returns the event as the
    /// application left it.
    fn deliver_window_event<A: ApplicationHandler>(
        &mut self,
        app: &mut A,
        Ghost(before): Ghost<Seq<Delivery>>,
        Ghost(cause): Ghost<StartCause>,
        Ghost(rank): Ghost<int>,
        Ghost(prior): Ghost<StateView>,
        phase: Phase,
        window_id: WindowId,
        event: WindowEvent,
    ) -> (reply: WindowEvent)
        requires
            old(self).progress(before, cause, rank),
            rank <= phase.rank(),
            phase.rank() >= 3,
            delivery_ok(
                Delivery {
                    callback: Callback::WindowEvent { window_id, event },
                    phase,
                    prior,
                    state: old(self).state(),
                    requests: Seq::empty(),
                    reply: None,
                },
            ),
        ensures
            final(self).progress(before, cause, phase.rank()),
            old(self).same_frame(final(self)),
            Self::delivered(
                old(self).suffix(before),
                final(self).suffix(before),
                Callback::WindowEvent { window_id, event },
                phase,
                prior,
                old(self).state(),
                Some(reply),
                final(self).state(),
            ),
    {
        let ghost state = self.state@;
        let mut reply = event;
        app.window_event(&mut self.active_event_loop, &self.state, window_id, &mut reply);
        let ghost d = Delivery {
            callback: Callback::WindowEvent { window_id, event },
            phase,
            prior,
            state,
            requests: self.active_event_loop@.requests,
            reply: Some(reply),
        };
        self.apply_requests();
        proof {
            Self::lemma_progress(!self.iterated, before, cause, rank, self.deliveries@, d);
            assert(self.deliveries@.push(d).skip(before.len() as int) =~= self.deliveries@.skip(
                before.len() as int,
            ).push(d));
            assert(self.deliveries@.skip(before.len() as int).push(d).drop_last()
                =~= self.deliveries@.skip(before.len() as int));
        }
        self.deliveries = Ghost(self.deliveries@.push(d));
        reply
    }

    /// Hands a device event to the application and carries out what the
    /// application asked for meanwhile.
    fn deliver_device_event<A: ApplicationHandler>(
        &mut self,
        app: &mut A,
        Ghost(before): Ghost<Seq<Delivery>>,
        Ghost(cause): Ghost<StartCause>,
        Ghost(rank): Ghost<int>,
        phase: Phase,
        event: DeviceEvent,
    )
        requires
            old(self).progress(before, cause, rank),
            rank <= phase.rank(),
            phase == Phase::WindowEvents || phase == Phase::Events,
        ensures
            final(self).progress(before, cause, phase.rank()),
            old(self).same_frame(final(self)),
            Self::delivered(
                old(self).suffix(before),
                final(self).suffix(before),
                Callback::DeviceEvent { device_id: None, event },
                phase,
                old(self).state(),
                old(self).state(),
                None,
                final(self).state(),
            ),
    {
        proof {
            use_type_invariant(&self.state);
        }
        let ghost state = self.state@;
        app.device_event(&mut self.active_event_loop, &self.state, None, event);
        let ghost d = Delivery {
            callback: Callback::DeviceEvent { device_id: None, event },
            phase,
            prior: state,
            state,
            requests: self.active_event_loop@.requests,
            reply: None,
        };
        self.apply_requests();
        proof {
            Self::lemma_progress(!self.iterated, before, cause, rank, self.deliveries@, d);
            assert(self.deliveries@.push(d).skip(before.len() as int) =~= self.deliveries@.skip(
                before.len() as int,
            ).push(d));
            assert(self.deliveries@.skip(before.len() as int).push(d).drop_last()
                =~= self.deliveries@.skip(before.len() as int));
        }
        self.deliveries = Ghost(self.deliveries@.push(d));
    }

    /// Opens an iteration: carries out what was asked of the windows since
    /// the last iteration, announces the iteration, offers surfaces if it is
    /// the first iteration the loop ever runs, and passes on a proxy's
    /// wake-up.
    fn open_iteration<A: ApplicationHandler>(&mut self, app: &mut A, cause: StartCause)
        ensures
            final(self).progress(old(self).deliveries(), cause, 2),
            final(self).scratch_is_empty(),
            final(self).is_running() == old(self).is_running(),
            final(self).has_iterated() == old(self).has_iterated(),
            final(self).notifier() == old(self).notifier(),
            run_opening(
                !old(self).has_iterated(),
                cause,
                Cursor {
                    at: 0,
                    state: request_all(old(self).state(), old(self).target()@.requests),
                },
                final(self).suffix(old(self).deliveries()),
            ) == Some(final(self).cursor(old(self).deliveries())),
    {
        let ghost before = self.deliveries@;
        self.compositor_updates.clear();
        let _ = self.buffer_sink.drain();
        self.window_ids.clear();
        self.apply_requests();

        proof {
            use_type_invariant(&self.state);
        }
        let ghost start = self.state@;
        app.new_events(&mut self.active_event_loop, &self.state, cause);
        let ghost d0 = Delivery {
            callback: Callback::NewEvents(cause),
            phase: Phase::NewEvents,
            prior: start,
            state: start,
            requests: self.active_event_loop@.requests,
            reply: None,
        };
        self.apply_requests();
        self.deliveries = Ghost(self.deliveries@.push(d0));
        proof {
            assert(self.deliveries@.skip(before.len() as int) =~= seq![d0]);
            assert(self.deliveries@.take(before.len() as int) =~= before);
        }
        let ghost announced = self.cursor(before);

        // For consistency across platforms surfaces are offered, once, even
        // though they have no destroy and create lifecycle of their own.
        if !self.iterated {
            proof {
                use_type_invariant(&self.state);
            }
            let ghost state = self.state@;
            app.can_create_surfaces(&mut self.active_event_loop, &self.state);
            let ghost d1 = Delivery {
                callback: Callback::CanCreateSurfaces,
                phase: Phase::CanCreateSurfaces,
                prior: state,
                state,
                requests: self.active_event_loop@.requests,
                reply: None,
            };
            self.apply_requests();
            self.deliveries = Ghost(self.deliveries@.push(d1));
            proof {
                assert(self.deliveries@.skip(before.len() as int) =~= seq![d0, d1]);
                assert(self.deliveries@.take(before.len() as int) =~= before);
            }
        }
        assert(self.progress(before, cause, 1));
        let ghost offered_record = self.suffix(before);

        // Indicate user wake up.
        proof {
            use_type_invariant(&self.state);
        }
        let ghost woken = self.state@;
        if self.state.take_proxy_wake_up() {
            let ghost state = self.state@;
            app.proxy_wake_up(&mut self.active_event_loop, &self.state);
            let ghost d2 = Delivery {
                callback: Callback::ProxyWakeUp,
                phase: Phase::ProxyWakeUp,
                prior: woken,
                state,
                requests: self.active_event_loop@.requests,
                reply: None,
            };
            self.apply_requests();
            proof {
                Self::lemma_progress(!self.iterated, before, cause, 1, self.deliveries@, d2);
                assert(self.deliveries@.push(d2).skip(before.len() as int)
                    =~= self.deliveries@.skip(before.len() as int).push(d2));
            }
            self.deliveries = Ghost(self.deliveries@.push(d2));
        }
        proof {
            let t = self.suffix(before);
            assert(extends(offered_record, t));
            assert(t[0] == d0);
            assert(expect(
                t,
                Cursor { at: 0, state: start },
                Callback::NewEvents(cause),
                Phase::NewEvents,
                start,
            ) == Some(announced));
            if !self.iterated {
                assert(t[1] == offered_record[1]);
            }
        }
    }

    /// Turns one compositor update into window events: a scale change, then
    /// a resize, then a close request.  The application may answer the scale
    /// change with a size of its own, which forces a resize.  A window that
    /// is gone gets nothing.
    fn deliver_compositor_update<A: ApplicationHandler>(
        &mut self,
        app: &mut A,
        Ghost(before): Ghost<Seq<Delivery>>,
        Ghost(cause): Ghost<StartCause>,
        compositor_update: WindowCompositorUpdate,
    )
        requires
            old(self).progress(before, cause, 3),
        ensures
            final(self).progress(before, cause, 3),
            old(self).same_frame(final(self)),
            extends(old(self).suffix(before), final(self).suffix(before)),
            run_update(compositor_update, old(self).cursor(before), final(self).suffix(before))
                == Some(final(self).cursor(before)),
    {
        let window_id = compositor_update.window_id;
        let ghost c0 = self.cursor(before);
        let mut forced = false;
        if compositor_update.scale_changed {
            match self.state.scaled_surface_size(window_id) {
                Some((physical_size, scale_factor)) => {
                    let event = WindowEvent::ScaleFactorChanged {
                        scale_factor,
                        surface_size_writer: SurfaceSizeWriter::new(physical_size),
                    };
                    proof {
                        use_type_invariant(&self.state);
                    }
                    let reply = self.deliver_window_event(
                        app,
                        Ghost(before),
                        Ghost(cause),
                        Ghost(3),
                        Ghost(self.state@),
                        Phase::CompositorUpdates,
                        window_id,
                        event,
                    );
                    let new_size = match reply {
                        WindowEvent::ScaleFactorChanged { surface_size_writer, .. } => {
                            surface_size_writer.surface_size()
                        },
                        _ => physical_size,
                    };
                    // Resize the window when the application altered the size.
                    if new_size != physical_size {
                        self.state.override_surface_size(window_id, new_size);
                        forced = true;
                    }
                },
                None => {},
            }
        }
        let ghost t1 = self.suffix(before);
        let ghost c1 = self.cursor(before);
        assert(run_scale_change(compositor_update, c0, t1) == Some((c1, forced)));

        // A new scale changes the physical size, so it is announced as a
        // resize too.
        if compositor_update.resized || forced || compositor_update.scale_changed {
            proof {
                use_type_invariant(&self.state);
                if self.state@.is_live(window_id) {
                    law_surface_resized(self.state@, window_id);
                }
            }
            let ghost prior = self.state@;
            match self.state.surface_resized(window_id) {
                Some(physical_size) => {
                    self.deliver_window_event(
                        app,
                        Ghost(before),
                        Ghost(cause),
                        Ghost(3),
                        Ghost(prior),
                        Phase::CompositorUpdates,
                        window_id,
                        WindowEvent::SurfaceResized(physical_size),
                    );
                },
                None => {},
            }
        }
        let ghost t2 = self.suffix(before);
        let ghost c2 = self.cursor(before);
        assert(run_resize(compositor_update, forced, c1, t2) == Some(c2));
        assert(extends(t1, t2));

        if compositor_update.close_window {
            if self.state.contains(window_id) {
                proof {
                    use_type_invariant(&self.state);
                }
                self.deliver_window_event(
                    app,
                    Ghost(before),
                    Ghost(cause),
                    Ghost(3),
                    Ghost(self.state@),
                    Phase::CompositorUpdates,
                    window_id,
                    WindowEvent::CloseRequested,
                );
            }
        }
        proof {
            let t3 = self.suffix(before);
            let c3 = self.cursor(before);
            assert(run_close(compositor_update, c2, t3) == Some(c3));
            assert(extends(t2, t3));
            assert(extends(t1, t3));
            if compositor_update.scale_changed && c0.state.is_live(window_id) {
                assert(t3[c0.at] == t1[c0.at]);
            }
            assert(run_scale_change(compositor_update, c0, t3) == Some((c1, forced)));
            if (compositor_update.resized || forced || compositor_update.scale_changed)
                && c1.state.is_live(window_id) {
                assert(t3[c1.at] == t2[c1.at]);
            }
            assert(run_resize(compositor_update, forced, c1, t3) == Some(c2));
        }
    }

    /// Drains the pending compositor updates and delivers what they come to,
    /// window by window, in the order the windows were first noted.
    fn deliver_compositor_updates<A: ApplicationHandler>(
        &mut self,
        app: &mut A,
        Ghost(before): Ghost<Seq<Delivery>>,
        Ghost(cause): Ghost<StartCause>,
    )
        requires
            old(self).progress(before, cause, 2),
            old(self).scratch_is_empty(),
        ensures
            final(self).progress(before, cause, 3),
            final(self).scratch_is_empty(),
            final(self).is_running() == old(self).is_running(),
            final(self).has_iterated() == old(self).has_iterated(),
            final(self).notifier() == old(self).notifier(),
            extends(old(self).suffix(before), final(self).suffix(before)),
            run_updates(
                old(self).state().compositor_updates,
                Cursor {
                    at: old(self).cursor(before).at,
                    state: old(self).state().take_compositor_updates(),
                },
                final(self).suffix(before),
            ) == Some(final(self).cursor(before)),
    {
        let ghost updates = self.state@.compositor_updates;
        self.state.take_compositor_updates(&mut self.compositor_updates);
        let ghost start = self.cursor(before);
        let ghost first = self.suffix(before);
        let mut i: usize = 0;
        proof {
            assert(self.compositor_updates@ =~= updates);
            assert(updates.take(0) =~= Seq::<WindowCompositorUpdate>::empty());
        }
        while i < self.compositor_updates.len()
            invariant
                i <= self.compositor_updates.len(),
                self.compositor_updates@ == updates,
                self.progress(before, cause, 3),
                self.buffer_sink@.len() == 0,
                self.window_ids@.len() == 0,
                self.loop_running == old(self).loop_running,
                self.iterated == old(self).iterated,
                self.pump_event_notifier == old(self).pump_event_notifier,
                extends(first, self.suffix(before)),
                run_updates(updates.take(i as int), start, self.suffix(before)) == Some(
                    self.cursor(before),
                ),
            decreases self.compositor_updates.len() - i,
        {
            let compositor_update = self.compositor_updates[i];
            let ghost t = self.suffix(before);
            self.deliver_compositor_update(app, Ghost(before), Ghost(cause), compositor_update);
            proof {
                lemma_run_updates(t, self.suffix(before), updates.take(i as int), start);
                assert(updates.take(i + 1).drop_last() =~= updates.take(i as int));
                assert(updates.take(i + 1).last() == compositor_update);
            }
            i += 1;
        }
        proof {
            assert(updates.take(i as int) =~= updates);
        }
        self.compositor_updates.clear();
    }

    /// Delivers the events of `events`, oldest first.  An event of a window
    /// that is gone by the time its turn comes is dropped: nothing is
    /// delivered for a window after it was destroyed.
    fn deliver_events<A: ApplicationHandler>(
        &mut self,
        app: &mut A,
        Ghost(before): Ghost<Seq<Delivery>>,
        Ghost(cause): Ghost<StartCause>,
        Ghost(rank): Ghost<int>,
        phase: Phase,
        events: Vec<Event>,
    )
        requires
            old(self).progress(before, cause, rank),
            rank <= phase.rank(),
            phase == Phase::WindowEvents || phase == Phase::Events,
            forall|i: int| 0 <= i < events@.len() ==> is_raw(#[trigger] events@[i]),
        ensures
            final(self).progress(before, cause, phase.rank()),
            old(self).same_frame(final(self)),
            extends(old(self).suffix(before), final(self).suffix(before)),
            run_events(events@, phase, old(self).cursor(before), final(self).suffix(before))
                == Some(final(self).cursor(before)),
    {
        let ghost start = self.cursor(before);
        let ghost first = self.suffix(before);
        let mut i: usize = 0;
        proof {
            assert(events@.take(0) =~= Seq::<Event>::empty());
        }
        while i < events.len()
            invariant
                i <= events.len(),
                self.progress(before, cause, phase.rank()),
                old(self).same_frame(self),
                phase == Phase::WindowEvents || phase == Phase::Events,
                forall|i: int| 0 <= i < events@.len() ==> is_raw(#[trigger] events@[i]),
                extends(first, self.suffix(before)),
                run_events(events@.take(i as int), phase, start, self.suffix(before)) == Some(
                    self.cursor(before),
                ),
            decreases events.len() - i,
        {
            let ghost t = self.suffix(before);
            let ghost c = self.cursor(before);
            match events[i] {
                Event::WindowEvent { window_id, event } => {
                    assert(is_raw(events@[i as int]));
                    if self.state.contains(window_id) {
                        proof {
                            use_type_invariant(&self.state);
                        }
                        self.deliver_window_event(
                            app,
                            Ghost(before),
                            Ghost(cause),
                            Ghost(phase.rank()),
                            Ghost(self.state@),
                            phase,
                            window_id,
                            event,
                        );
                    }
                },
                Event::DeviceEvent { event } => {
                    self.deliver_device_event(
                        app,
                        Ghost(before),
                        Ghost(cause),
                        Ghost(phase.rank()),
                        phase,
                        event,
                    );
                },
            }
            proof {
                assert(run_event(events@[i as int], phase, c, self.suffix(before)) == Some(
                    self.cursor(before),
                ));
                lemma_run_events(t, self.suffix(before), events@.take(i as int), phase, start);
                assert(events@.take(i + 1).drop_last() =~= events@.take(i as int));
                assert(events@.take(i + 1).last() == events@[i as int]);
            }
            i += 1;
        }
        proof {
            assert(events@.take(i as int) =~= events@);
        }
    }

    /// Goes over the windows that were live when the pass began: a window
    /// whose handle was dropped is destroyed, any other window is asked to
    /// redraw where a redraw is due and no frame callback is outstanding.
    fn redraw_windows<A: ApplicationHandler>(
        &mut self,
        app: &mut A,
        Ghost(before): Ghost<Seq<Delivery>>,
        Ghost(cause): Ghost<StartCause>,
    )
        requires
            old(self).progress(before, cause, 5),
            old(self).scratch_is_empty(),
        ensures
            final(self).progress(before, cause, 6),
            final(self).buffers_are_empty(),
            final(self).is_running() == old(self).is_running(),
            final(self).has_iterated() == old(self).has_iterated(),
            final(self).notifier() == old(self).notifier(),
            final(self).iteration_windows() == old(self).state().window_ids(),
            extends(old(self).suffix(before), final(self).suffix(before)),
            run_windows(
                old(self).state().window_ids(),
                old(self).cursor(before),
                final(self).suffix(before),
            ) == Some(final(self).cursor(before)),
    {
        let ghost ids = self.state@.window_ids();
        self.state.window_ids(&mut self.window_ids);
        let ghost start = self.cursor(before);
        let ghost first = self.suffix(before);
        let mut i: usize = 0;
        proof {
            assert(self.window_ids@ =~= ids);
            assert(ids.take(0) =~= Seq::<WindowId>::empty());
        }
        while i < self.window_ids.len()
            invariant
                i <= self.window_ids.len(),
                self.window_ids@ == ids,
                self.progress(before, cause, 6),
                self.buffer_sink@.len() == 0,
                self.compositor_updates@.len() == 0,
                self.loop_running == old(self).loop_running,
                self.iterated == old(self).iterated,
                self.pump_event_notifier == old(self).pump_event_notifier,
                extends(first, self.suffix(before)),
                run_windows(ids.take(i as int), start, self.suffix(before)) == Some(
                    self.cursor(before),
                ),
            decreases self.window_ids.len() - i,
        {
            let window_id = self.window_ids[i];
            let ghost t = self.suffix(before);
            let ghost c = self.cursor(before);
            proof {
                use_type_invariant(&self.state);
                law_redraw_pass(self.state@, window_id);
            }
            let ghost prior = self.state@;
            match self.state.process_window(window_id) {
                Some(event) => {
                    self.deliver_window_event(
                        app,
                        Ghost(before),
                        Ghost(cause),
                        Ghost(6),
                        Ghost(prior),
                        Phase::Redraw,
                        window_id,
                        event,
                    );
                },
                None => {},
            }
            proof {
                assert(run_window(window_id, c, self.suffix(before)) == Some(self.cursor(before)));
                lemma_run_windows(t, self.suffix(before), ids.take(i as int), start);
                assert(ids.take(i + 1).drop_last() =~= ids.take(i as int));
                assert(ids.take(i + 1).last() == window_id);
            }
            i += 1;
        }
        proof {
            assert(ids.take(i as int) =~= ids);
        }
    }

    /// The closing pass of an iteration: refreshes the frame of every window
    /// the iteration went over that is still live, turns a redraw owed for a
    /// frame into a redraw request, and pings the loop's own wake-up signal
    /// if any redraw is owed, so that the next wait returns at once.  Says
    /// whether it pinged.
    pub fn refresh_frames(&mut self) -> (wake_up: bool)
        ensures
            wake_up == any_refresh_due(old(self).state(), old(self).iteration_windows()),
            final(self).state() == refresh_all(old(self).state(), old(self).iteration_windows()),
            final(self).target()@ == (TargetView {
                awakener: old(self).target()@.awakener || wake_up,
                ..old(self).target()@
            }),
            final(self).iteration_windows().len() == 0,
            final(self).deliveries() == old(self).deliveries(),
            final(self).is_running() == old(self).is_running(),
            final(self).has_iterated() == old(self).has_iterated(),
            final(self).notifier() == old(self).notifier(),
            final(self).buffers_are_empty() == old(self).buffers_are_empty(),
            final(self).scratch_is_empty() == old(self).buffers_are_empty(),
    {
        let mut wake_up = false;
        let mut i: usize = 0;
        let ghost s0 = self.state@;
        let ghost ids = self.window_ids@;
        proof {
            assert(ids.take(0) =~= Seq::<WindowId>::empty());
        }
        while i < self.window_ids.len()
            invariant
                i <= self.window_ids.len(),
                self.window_ids@ == ids,
                wake_up == any_refresh_due(s0, ids.take(i as int)),
                self.state@ == refresh_all(s0, ids.take(i as int)),
                self.active_event_loop@ == old(self).active_event_loop@,
                self.deliveries@ == old(self).deliveries@,
                self.loop_running == old(self).loop_running,
                self.iterated == old(self).iterated,
                self.pump_event_notifier == old(self).pump_event_notifier,
                self.buffer_sink@ == old(self).buffer_sink@,
                self.compositor_updates@ == old(self).compositor_updates@,
            decreases self.window_ids.len() - i,
        {
            let window_id = self.window_ids[i];
            proof {
                assert(ids.take(i + 1).drop_last() =~= ids.take(i as int));
            }
            let refresh = self.state.refresh_window(window_id);
            wake_up = wake_up || refresh;
            i += 1;
        }
        proof {
            assert(ids.take(i as int) =~= ids);
        }
        self.window_ids.clear();

        // Wake the loop up if needed.  If the application draws from
        // `about_to_wait` this is likely not required, but nothing tells.
        if wake_up {
            self.active_event_loop.ping_awakener();
        }
        wake_up
    }

    /// Runs one iteration for `cause`: delivers the callbacks to `app` in
    /// the fixed order of the phases, then makes the closing pass.  Returns
    /// whether the closing pass pinged the loop's own wake-up signal.
    ///
    /// A callback cannot change the windows: it leaves requests with the
    /// handle, and the loop carries them out when the callback returns.  So
    /// the iteration is a function of the state it starts in and of what the
    /// application asks: the callbacks are those of `run_iteration`, no more
    /// and no fewer, and `law_destroyed_once`, `law_retired_gets_nothing`,
    /// `law_proxy_wake_up` and `law_update_deliveries` hold of them.
    ///
    /// The record of deliveries is the loop's own account, written where
    /// each call is made.  The contract speaks of the record; that each entry
    /// stands for a call made is what this body does, which the tests hold
    /// to it.
    pub fn single_iteration<A: ApplicationHandler>(&mut self, app: &mut A, cause: StartCause) -> (wake_up:
        bool)
        ensures
            old(self).ran_iteration(final(self), cause),
            run_iteration(
                !old(self).has_iterated(),
                cause,
                request_all(old(self).state(), old(self).target()@.requests),
                final(self).deliveries().skip(old(self).deliveries().len() as int),
            ) matches Some(iteration) && wake_up == any_refresh_due(
                iteration.end.state,
                iteration.windows,
            ),
            final(self).scratch_is_empty(),
            final(self).is_running() == old(self).is_running(),
            final(self).notifier() == old(self).notifier(),
    {
        let ghost before = self.deliveries@;
        let ghost start = request_all(self.state@, self.active_event_loop@.requests);
        proof {
            use_type_invariant(&self.state);
        }
        self.open_iteration(app, cause);
        let ghost opened = self.cursor(before);
        let ghost t1 = self.suffix(before);

        // Drain the pending compositor updates.
        self.deliver_compositor_updates(app, Ghost(before), Ghost(cause));
        let ghost updated = self.cursor(before);
        let ghost t2 = self.suffix(before);

        // Push the events directly from the window.
        proof {
            use_type_invariant(&self.state);
        }
        self.state.take_window_events(&mut self.buffer_sink);
        let events = self.buffer_sink.drain();
        self.deliver_events(app, Ghost(before), Ghost(cause), Ghost(3), Phase::WindowEvents, events);
        let ghost raised = self.cursor(before);
        let ghost t3 = self.suffix(before);

        // Handle non-synthetic events.
        proof {
            use_type_invariant(&self.state);
        }
        self.state.take_events(&mut self.buffer_sink);
        let events = self.buffer_sink.drain();
        self.deliver_events(app, Ghost(before), Ghost(cause), Ghost(4), Phase::Events, events);
        let ghost delivered = self.cursor(before);
        let ghost t4 = self.suffix(before);

        // Destroy or redraw the windows.
        let ghost windows = self.state@.window_ids();
        self.redraw_windows(app, Ghost(before), Ghost(cause));
        let ghost redrawn = self.cursor(before);
        let ghost t5 = self.suffix(before);

        // Reset the hint that events were dispatched.
        proof {
            use_type_invariant(&self.state);
        }
        let ghost prior = self.state@;
        self.state.clear_dispatched();

        // This is always the last callback before the loop polls again.
        let ghost state = self.state@;
        app.about_to_wait(&mut self.active_event_loop, &self.state);
        let ghost last = Delivery {
            callback: Callback::AboutToWait,
            phase: Phase::AboutToWait,
            prior,
            state,
            requests: self.active_event_loop@.requests,
            reply: None,
        };
        self.apply_requests();
        proof {
            Self::lemma_progress(!self.iterated, before, cause, 6, self.deliveries@, last);
            let t = self.deliveries@.skip(before.len() as int);
            let u = self.deliveries@.push(last).skip(before.len() as int);
            assert(u =~= t.push(last));
            assert forall|i: int| 0 <= i < u.len() && (#[trigger] u[i]).phase
                == Phase::AboutToWait implies i == u.len() - 1 by {
                if i < t.len() {
                    assert(t[i].phase.rank() <= 6);
                }
            }
        }
        self.deliveries = Ghost(self.deliveries@.push(last));
        proof {
            let t6 = self.suffix(before);
            let end = self.cursor(before);
            assert(extends(t5, t6));
            assert(extends(t4, t6));
            assert(extends(t3, t6));
            assert(extends(t2, t6));
            assert(extends(t1, t6));
            lemma_run_opening(t1, t6, !self.iterated, cause, Cursor { at: 0, state: start });
            lemma_run_updates(
                t2,
                t6,
                opened.state.compositor_updates,
                Cursor { at: opened.at, state: opened.state.take_compositor_updates() },
            );
            lemma_run_events(
                t3,
                t6,
                updated.state.window_events,
                Phase::WindowEvents,
                Cursor { at: updated.at, state: updated.state.take_window_events() },
            );
            lemma_run_events(
                t4,
                t6,
                raised.state.events,
                Phase::Events,
                Cursor { at: raised.at, state: raised.state.take_events() },
            );
            lemma_run_windows(t5, t6, windows, delivered);
            assert(run_pending(opened, t6) == Some(delivered));
            assert(expect(
                t6,
                redrawn,
                Callback::AboutToWait,
                Phase::AboutToWait,
                redrawn.state.clear_dispatched(),
            ) == Some(end));
            assert(run_iteration(!self.iterated, cause, start, t6) == Some(
                Iteration { end, windows },
            ));
        }

        self.iterated = true;

        // Update the window frames and schedule redraws.
        let wake_up = self.refresh_frames();
        proof {
            use_type_invariant(&self.state);
        }
        wake_up
    }
}


impl EventLoop {
    /// What a pump reports when it returns: the exit code once the loop was
    /// asked to end, else that the loop goes on.
    pub open spec fn spec_pump_status(exit_code: Option<i32>) -> PumpStatus {
        match exit_code {
            Some(code) => PumpStatus::Exit(code),
            None => PumpStatus::Continue,
        }
    }

    /// What a pump that goes on asks about the helper thread: to start one
    /// the first time the caller bounds the wait, and to let it monitor
    /// whenever there is one.
    pub open spec fn spec_notifier_command(
        notifier: Option<PumpEventNotifier>,
        timeout_given: bool,
    ) -> NotifierCommand {
        match notifier {
            Some(_) => NotifierCommand::Monitor,
            None => if timeout_given {
                NotifierCommand::SpawnAndMonitor
            } else {
                NotifierCommand::Nothing
            },
        }
    }

    /// Prepares a run: forgets an exit asked for earlier.
    pub fn run_begin(&mut self)
        ensures
            final(self).target().spec_exit_code() == None::<i32>,
            old(self).target().same_but_exit(&final(self).target()),
            final(self).state() == old(self).state(),
            final(self).is_running() == old(self).is_running(),
            final(self).has_iterated() == old(self).has_iterated(),
            final(self).notifier() == old(self).notifier(),
            final(self).scratch_is_empty() == old(self).scratch_is_empty(),
            final(self).deliveries() == old(self).deliveries(),
    {
        self.active_event_loop.clear_exit();
    }

    /// Begins a pump.  A loop that is not running is started and runs its
    /// initial iteration, with cause `Init`, which is then the one iteration
    /// of this pump; a running loop is left as it is.  Says whether the pump
    /// is to wait for events next: it is if the loop was running already and
    /// was not asked to end.
    pub fn pump_begin<A: ApplicationHandler>(&mut self, app: &mut A) -> (poll: bool)
        ensures
            final(self).is_running(),
            poll == (old(self).is_running() && final(self).target().spec_exit_code().is_none()),
            final(self).has_iterated() == (old(self).has_iterated() || !old(self).is_running()),
            final(self).notifier() == old(self).notifier(),
            old(self).is_running() ==> final(self).deliveries() == old(self).deliveries()
                && final(self).target() == old(self).target() && final(self).state() == old(
                self,
            ).state(),
            !old(self).is_running() ==> old(self).ran_iteration(final(self), StartCause::Init),
    {
        if !self.loop_running {
            self.loop_running = true;

            // Run the initial loop iteration: a pump drives one iteration at
            // most, and this is it.
            self.single_iteration(app, StartCause::Init);
            false
        } else {
            !self.exiting()
        }
    }

    /// The timeout of the wait that begins at `start`, for a pump that the
    /// caller bounded by `timeout`: the minimum of `timeout` and of what the
    /// control-flow policy implies.
    pub fn poll_timeout(&self, timeout: Option<Duration>, start: Instant) -> (r: Option<Duration>)
        ensures
            timeout_nanos(r) == spec_wait_timeout(
                self.target().spec_control_flow(),
                timeout,
                start,
            ),
            r is None <==> self.target().spec_control_flow() is Wait && timeout is None,
    {
        wait_timeout(self.control_flow(), timeout, start)
    }

    /// Takes the outcome of the wait that began at `start`, for a pump that
    /// the caller bounded by `timeout`, and says whether the pump is to wait
    /// again.
    ///
    /// A failed flush ends the loop with the generic failure code and a
    /// failed dispatch with the error's own code or the generic one; neither
    /// is retried and neither runs an iteration.  A wake-up that is not
    /// worth an iteration changes nothing and makes the pump wait again.
    /// Any other wake-up runs one iteration for the cause of the wake-up.
    pub fn poll_events_with_timeout<A: ApplicationHandler>(
        &mut self,
        timeout: Option<Duration>,
        app: &mut A,
        start: Instant,
        outcome: WaitOutcome,
    ) -> (again: bool)
        ensures
            final(self).is_running() == old(self).is_running(),
            final(self).has_iterated() == (old(self).has_iterated() || !again
                && outcome is Woke),
            final(self).notifier() == old(self).notifier(),
            old(self).scratch_is_empty() ==> final(self).scratch_is_empty(),
            match outcome {
                WaitOutcome::FlushFailed => {
                    &&& !again
                    &&& final(self).target().spec_exit_code() == Some(EXIT_FAILURE)
                    &&& old(self).target().same_but_exit(&final(self).target())
                    &&& final(self).state() == old(self).state()
                    &&& final(self).deliveries() == old(self).deliveries()
                },
                WaitOutcome::DispatchFailed(raw_os_error) => {
                    &&& !again
                    &&& final(self).target().spec_exit_code() == Some(
                        spec_dispatch_exit_code(raw_os_error),
                    )
                    &&& old(self).target().same_but_exit(&final(self).target())
                    &&& final(self).state() == old(self).state()
                    &&& final(self).deliveries() == old(self).deliveries()
                },
                WaitOutcome::Woke { now } => {
                    let cause = spec_start_cause(old(self).target().spec_control_flow(), start, now);
                    if spec_is_spurious(cause, old(self).state().dispatched_events, timeout) {
                        &&& again
                        &&& final(self).deliveries() == old(self).deliveries()
                        &&& final(self).target() == old(self).target()
                        &&& final(self).state() == old(self).state()
                    } else {
                        &&& !again
                        &&& old(self).ran_iteration(final(self), cause)
                    }
                },
            },
    {
        match outcome {
            WaitOutcome::FlushFailed => {
                // A dead connection is not retried: the loop exits with an
                // error.
                self.set_exit_code(EXIT_FAILURE);
                false
            },
            WaitOutcome::DispatchFailed(raw_os_error) => {
                // The loop exits on a dispatch error, with the error's code
                // of the operating system where it has one.
                let exit_code = dispatch_exit_code(raw_os_error);
                self.set_exit_code(exit_code);
                false
            },
            WaitOutcome::Woke { now } => {
                // `Init` is handled apart and need not be considered here.
                let cause = start_cause(self.control_flow(), start, now);

                // Reduce spurious wake-ups.
                let dispatched_events = self.state.dispatched_events();
                if is_spurious(&cause, dispatched_events, &timeout) {
                    return true;
                }
                self.single_iteration(app, cause);
                false
            },
        }
    }

    /// Ends a pump.  Where the loop was asked to end, the loop stops running
    /// and the exit code is reported.  Else the loop goes on, and the caller
    /// is told what to do about the helper thread: it is started the first
    /// time a pump with a bounded wait goes on, and asked to monitor every
    /// time a pump goes on while there is one.
    pub fn pump_end(&mut self, timeout_given: bool) -> (r: (PumpStatus, NotifierCommand))
        ensures
            r.0 == Self::spec_pump_status(old(self).target().spec_exit_code()),
            r.1 == if old(self).target().spec_exit_code() is Some {
                NotifierCommand::Nothing
            } else {
                Self::spec_notifier_command(old(self).notifier(), timeout_given)
            },
            final(self).is_running() == (old(self).is_running() && old(
                self,
            ).target().spec_exit_code() is None),
            final(self).notifier() == if old(self).target().spec_exit_code() is Some {
                old(self).notifier()
            } else {
                match old(self).notifier() {
                    Some(notifier) => Some(
                        PumpEventNotifier {
                            control: if notifier.control == PumpEventNotifierAction::Shutdown {
                                PumpEventNotifierAction::Shutdown
                            } else {
                                PumpEventNotifierAction::Monitor
                            },
                            ..notifier
                        },
                    ),
                    None => if timeout_given {
                        Some(
                            PumpEventNotifier {
                                control: PumpEventNotifierAction::Monitor,
                                worker_waker: false,
                                handle: false,
                            },
                        )
                    } else {
                        None
                    },
                }
            },
            final(self).target() == old(self).target(),
            final(self).state() == old(self).state(),
            final(self).deliveries() == old(self).deliveries(),
            final(self).has_iterated() == old(self).has_iterated(),
            final(self).scratch_is_empty() == old(self).scratch_is_empty(),
    {
        match self.exit_code() {
            Some(code) => {
                self.loop_running = false;
                (PumpStatus::Exit(code), NotifierCommand::Nothing)
            },
            None => {
                // A helper thread makes sure that the loop is marked as
                // having events while something else reads the connection.
                let mut command = NotifierCommand::Nothing;
                if timeout_given && self.pump_event_notifier.is_none() {
                    self.pump_event_notifier = Some(PumpEventNotifier::spawn(false, false));
                    command = NotifierCommand::SpawnAndMonitor;
                } else if self.pump_event_notifier.is_some() {
                    command = NotifierCommand::Monitor;
                }
                match self.pump_event_notifier {
                    Some(notifier) => {
                        // The application is outside the loop: nothing need
                        // wait.
                        let mut notifier = notifier;
                        notifier.monitor();
                        self.pump_event_notifier = Some(notifier);
                    },
                    None => {},
                }
                (PumpStatus::Continue, command)
            },
        }
    }

    /// Records what became of starting the helper thread: whether its wake
    /// pipe was created and whether the thread runs.  Without a notifier
    /// asked for, nothing changes.
    pub fn notifier_started(&mut self, pipe_created: bool, thread_started: bool)
        ensures
            final(self).notifier() == match old(self).notifier() {
                Some(notifier) => Some(
                    PumpEventNotifier {
                        worker_waker: pipe_created,
                        handle: pipe_created && thread_started,
                        ..notifier
                    },
                ),
                None => None,
            },
            final(self).target() == old(self).target(),
            final(self).state() == old(self).state(),
            final(self).deliveries() == old(self).deliveries(),
            final(self).is_running() == old(self).is_running(),
            final(self).has_iterated() == old(self).has_iterated(),
            final(self).scratch_is_empty() == old(self).scratch_is_empty(),
    {
        match self.pump_event_notifier {
            Some(notifier) => {
                let started = PumpEventNotifier::spawn(pipe_created, thread_started);
                self.pump_event_notifier = Some(
                    PumpEventNotifier {
                        control: notifier.control,
                        worker_waker: started.worker_waker,
                        handle: started.handle,
                    },
                );
            },
            None => {},
        }
    }

    /// Shuts the helper thread down, if there is one, and says what the
    /// caller has to do for it.
    pub fn shutdown_notifier(&mut self) -> (steps: Option<ShutdownSteps>)
        ensures
            steps == match old(self).notifier() {
                Some(notifier) => Some(
                    ShutdownSteps { write_waker: notifier.worker_waker, join: notifier.handle },
                ),
                None => None,
            },
            final(self).notifier() == match old(self).notifier() {
                Some(notifier) => Some(
                    PumpEventNotifier {
                        control: PumpEventNotifierAction::Shutdown,
                        worker_waker: notifier.worker_waker,
                        handle: false,
                    },
                ),
                None => None,
            },
            final(self).target() == old(self).target(),
            final(self).state() == old(self).state(),
            final(self).deliveries() == old(self).deliveries(),
            final(self).is_running() == old(self).is_running(),
            final(self).has_iterated() == old(self).has_iterated(),
            final(self).scratch_is_empty() == old(self).scratch_is_empty(),
    {
        match self.pump_event_notifier {
            Some(notifier) => {
                let mut notifier = notifier;
                let steps = notifier.shutdown();
                self.pump_event_notifier = Some(notifier);
                Some(steps)
            },
            None => None,
        }
    }
}


impl EventLoop {
    /// The deliveries that the loop made from `self` to `after`.
    pub open spec fn made(&self, after: &EventLoop) -> Seq<Delivery> {
        after.deliveries().skip(self.deliveries().len() as int)
    }

    /// A proxy's wake-up is never passed over and never passed on twice.  An
    /// iteration passes it on exactly when the flag is set as the iteration
    /// starts: then once, right behind the announcement and the offer of
    /// surfaces, before every window and device event.  When the iteration
    /// is over the flag is down.
    pub proof fn law_wake_up_is_passed_on(&self, after: &EventLoop, cause: StartCause)
        requires
            self.ran_iteration(after, cause),
        ensures
            ({
                let k: int = if self.has_iterated() {
                    1
                } else {
                    2
                };
                let made = self.made(after);
                &&& self.state().proxy_wake_up ==> k < made.len() && made[k].callback
                    == Callback::ProxyWakeUp
                &&& forall|j: int|
                    0 <= j < made.len() && (#[trigger] made[j]).callback == Callback::ProxyWakeUp
                        ==> j == k && self.state().proxy_wake_up
                &&& !after.state().proxy_wake_up
            }),
    {
        let start = request_all(self.state(), self.target()@.requests);
        law_requests(self.state(), self.target()@.requests);
        law_proxy_wake_up(!self.has_iterated(), cause, start, self.made(after));
    }

    /// A window whose handle is dropped is destroyed in the next iteration,
    /// once and for all.  If the window is live with its handle dropped when
    /// the iteration starts, the iteration tells it `Destroyed`, names it in
    /// no delivery after that, so tells it once, and leaves it gone.
    pub proof fn law_dropped_window_is_destroyed(
        &self,
        after: &EventLoop,
        cause: StartCause,
        w: WindowId,
    )
        requires
            self.ran_iteration(after, cause),
            dropped(self.state(), w),
        ensures
            after.state().is_retired(w),
            destroyed_in(self.made(after), w, 0, self.made(after).len() as int),
            forall|i: int, j: int|
                0 <= i < j < self.made(after).len() && (#[trigger] self.made(after)[i]).callback == (
                Callback::WindowEvent { window_id: w, event: WindowEvent::Destroyed })
                    ==> !names_window(#[trigger] self.made(after)[j], w),
    {
        let start = request_all(self.state(), self.target()@.requests);
        let made = self.made(after);
        let first = !self.has_iterated();
        law_requests(self.state(), self.target()@.requests);
        lemma_requests_keep_dropped(self.state(), self.target()@.requests, w);
        law_dropped_is_destroyed(first, cause, start, made, w);
        let iteration = run_iteration(first, cause, start, made).unwrap();
        let gone = |s: StateView| s.is_retired(w);
        assert(kept(gone)) by {
            assert forall|s: StateView, step: Step|
                s.wf() && gone(s) && walk_step(step) implies #[trigger] gone(s.apply(step)) by {
                s.law_step(step);
            }
        }
        law_iteration_keeps(gone, first, cause, start, made);
        assert forall|i: int, j: int|
            0 <= i < j < made.len() && (#[trigger] made[i]).callback == (Callback::WindowEvent {
                window_id: w,
                event: WindowEvent::Destroyed,
            }) implies !names_window(#[trigger] made[j], w) by {
            law_destroyed_once(first, cause, start, made, i);
        }
    }

    /// Nothing is delivered for a window that is gone.  An iteration that
    /// starts with a window retired makes no delivery that names it, and
    /// leaves it retired.
    pub proof fn law_gone_window_gets_nothing(&self, after: &EventLoop, cause: StartCause, w: WindowId)
        requires
            self.ran_iteration(after, cause),
            self.state().is_retired(w),
        ensures
            after.state().is_retired(w),
            forall|j: int|
                0 <= j < self.made(after).len() ==> !names_window(
                    #[trigger] self.made(after)[j],
                    w,
                ),
    {
        let start = request_all(self.state(), self.target()@.requests);
        law_requests(self.state(), self.target()@.requests);
        law_retired_gets_nothing(!self.has_iterated(), cause, start, self.made(after), w);
    }
}


impl EventLoop {
    /// Two notifications merged into one update are announced once.  If the
    /// one update pending when an iteration starts notes a scale change for
    /// a live window, the iteration delivers the scale change and, right
    /// behind it, the resize, as its first window events, and no other
    /// delivery of the iteration is a scale change or a resize.
    pub proof fn law_merged_update_is_announced_once(
        &self,
        after: &EventLoop,
        cause: StartCause,
        update: WindowCompositorUpdate,
    )
        requires
            self.ran_iteration(after, cause),
            self.state().compositor_updates == seq![update],
            update.scale_changed,
            self.state().is_live(update.window_id),
        ensures
            ({
                let made = self.made(after);
                let k: int = (if self.has_iterated() {
                    1int
                } else {
                    2int
                }) + (if self.state().proxy_wake_up {
                    1int
                } else {
                    0int
                });
                &&& k + 1 < made.len()
                &&& names_window(made[k], update.window_id) && update_rank(made[k].callback) == 0
                &&& names_window(made[k + 1], update.window_id) && update_rank(
                    made[k + 1].callback,
                ) == 1
                &&& forall|j: int|
                    0 <= j < made.len() && j != k && j != k + 1 ==> update_rank(
                        (#[trigger] made[j]).callback,
                    ) >= 2
            }),
    {
        let start = request_all(self.state(), self.target()@.requests);
        let made = self.made(after);
        let first = !self.has_iterated();
        law_requests(self.state(), self.target()@.requests);
        law_scale_then_resize(first, cause, start, made, update);
        law_proxy_wake_up(first, cause, start, made);
        let c = Cursor { at: 0, state: start };
        let announced = expect(made, c, Callback::NewEvents(cause), Phase::NewEvents, start).unwrap();
        law_requests(start, made[0].requests);
        if first {
            law_requests(announced.state, made[1].requests);
        }
    }
}

} // verus!
