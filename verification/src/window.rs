use vstd::prelude::*;

use crate::geometry::{Bounds, Size};
use crate::history::{concat_all, count_set, counter_accumulates, record_accumulates};

verus! {

/// The system appearance that a window reports.
#[derive(Clone, Copy, Debug, PartialEq, Eq, Structural)]
pub enum WindowAppearance {
    Light,
    VibrantLight,
    Dark,
    VibrantDark,
}

/// How the area behind a window's content is drawn.
#[derive(Clone, Copy, Debug, PartialEq, Eq, Structural)]
pub enum WindowBackgroundAppearance {
    Opaque,
    Transparent,
    Blurred,
}

/// A window's bounds together with the state it is shown in.
#[derive(Clone, Copy, Debug, PartialEq, Eq, Structural)]
pub enum WindowBounds<P> {
    Windowed(Bounds<P>),
    Maximized(Bounds<P>),
    Fullscreen(Bounds<P>),
}

/// What the platform asks of a frame it requests.
#[derive(Clone, Copy, Debug, PartialEq, Eq, Structural)]
pub struct RequestFrameOptions {
    pub require_presentation: bool,
    pub force_render: bool,
}

impl RequestFrameOptions {
    /// A request that neither requires presentation nor forces a render.
    pub fn default_options() -> (r: RequestFrameOptions)
        ensures
            r == (RequestFrameOptions { require_presentation: false, force_render: false }),
    {
        RequestFrameOptions { require_presentation: false, force_render: false }
    }
}

/// What the window's input handler answered for one event.
#[derive(Clone, Copy, Debug, PartialEq, Eq, Structural)]
pub struct DispatchEventResult {
    pub propagate: bool,
    pub default_prevented: bool,
}

/// Everything a test window records, as plain values.
///
/// `P` is the unit of the window's bounds, `C` a text-input configuration,
/// `S` a text-input state change, `H` an input handler, `F` a file path and
/// `D` the display the window is shown on.
pub struct WindowModel<P, C, S, H, F, D> {
    pub bounds: Bounds<P>,
    pub display: D,
    pub title: Option<Seq<char>>,
    pub edited: bool,
    pub document_path: Option<F>,
    pub frame_wake_count: nat,
    pub frame_scheduled: bool,
    pub frame_callback_pending: bool,
    pub input_handler: Option<H>,
    pub text_input_configurations: Seq<C>,
    pub text_input_state_changes: Seq<S>,
    pub is_fullscreen: bool,
    pub appearance: WindowAppearance,
    pub external_drag_files: Seq<(F, bool)>,
    pub start_external_drag_result: bool,
}

/// The state a new window starts in: the given bounds and display, a light appearance,
/// nothing scheduled and nothing recorded.
pub open spec fn initial_window<P, C, S, H, F, D>(bounds: Bounds<P>, display: D) -> WindowModel<P, C, S, H, F, D> {
    WindowModel {
        bounds,
        display,
        title: None,
        edited: false,
        document_path: None,
        frame_wake_count: 0,
        frame_scheduled: false,
        frame_callback_pending: false,
        input_handler: None,
        text_input_configurations: Seq::empty(),
        text_input_state_changes: Seq::empty(),
        is_fullscreen: false,
        appearance: WindowAppearance::Light,
        external_drag_files: Seq::empty(),
        start_external_drag_result: false,
    }
}

/// A frame request: it takes effect unless a drawn frame still awaits delivery.
pub open spec fn after_schedule_frame<P, C, S, H, F, D>(m: WindowModel<P, C, S, H, F, D>) -> WindowModel<P, C, S, H, F, D> {
    if m.frame_callback_pending {
        m
    } else {
        WindowModel { frame_scheduled: true, ..m }
    }
}

/// A draw: a frame is now scheduled and awaits delivery.
pub open spec fn after_draw<P, C, S, H, F, D>(m: WindowModel<P, C, S, H, F, D>) -> WindowModel<P, C, S, H, F, D> {
    WindowModel { frame_scheduled: true, frame_callback_pending: true, ..m }
}

/// Whether delivering the scheduled frame runs the frame callback.
pub open spec fn delivers_frame<P, C, S, H, F, D>(m: WindowModel<P, C, S, H, F, D>, has_frame_callback: bool) -> bool {
    m.frame_scheduled && has_frame_callback
}

/// The state after an attempt to deliver the scheduled frame: with nothing
/// scheduled nothing changes; otherwise the awaited delivery is over, and the
/// frame stays scheduled only when there was no callback to run.
pub open spec fn after_scheduled_frame<P, C, S, H, F, D>(
    m: WindowModel<P, C, S, H, F, D>,
    has_frame_callback: bool,
) -> WindowModel<P, C, S, H, F, D> {
    if !m.frame_scheduled {
        m
    } else {
        WindowModel { frame_scheduled: !has_frame_callback, frame_callback_pending: false, ..m }
    }
}

/// Entering fullscreen when windowed and leaving it when fullscreen.
pub open spec fn after_toggle_fullscreen<P, C, S, H, F, D>(m: WindowModel<P, C, S, H, F, D>) -> WindowModel<P, C, S, H, F, D> {
    WindowModel { is_fullscreen: !m.is_fullscreen, ..m }
}

/// A requested frame reaches the frame callback: after a frame request on a
/// window with no drawn frame awaiting delivery, delivery runs the callback
/// if one is registered.
pub proof fn scheduled_frame_is_delivered<P, C, S, H, F, D>(m: WindowModel<P, C, S, H, F, D>)
    requires
        !m.frame_callback_pending,
    ensures
        delivers_frame(after_schedule_frame(m), true),
{
}

/// A drawn frame is delivered, and once delivered nothing awaits delivery
/// and nothing stays scheduled.
pub proof fn drawn_frame_is_delivered<P, C, S, H, F, D>(m: WindowModel<P, C, S, H, F, D>)
    ensures
        delivers_frame(after_draw(m), true),
        !after_scheduled_frame(after_draw(m), true).frame_scheduled,
        !after_scheduled_frame(after_draw(m), true).frame_callback_pending,
{
}

/// A frame is delivered at most once: right after a delivery that ran the
/// callback, a second attempt runs nothing, whatever callback is registered.
pub proof fn frame_is_delivered_at_most_once<P, C, S, H, F, D>(
    m: WindowModel<P, C, S, H, F, D>,
    first: bool,
    second: bool,
)
    requires
        delivers_frame(m, first),
    ensures
        !delivers_frame(after_scheduled_frame(m, first), second),
{
}

/// Without a frame callback nothing is delivered and a scheduled frame stays
/// scheduled, so that it reaches a callback registered later.
pub proof fn undelivered_frame_stays_scheduled<P, C, S, H, F, D>(m: WindowModel<P, C, S, H, F, D>)
    ensures
        !delivers_frame(m, false),
        after_scheduled_frame(m, false).frame_scheduled == m.frame_scheduled,
        m.frame_scheduled ==> delivers_frame(after_scheduled_frame(m, false), true),
{
}

/// While a drawn frame awaits delivery a frame request changes nothing, and
/// once the frame was delivered requests take effect again.
pub proof fn pending_frame_absorbs_requests<P, C, S, H, F, D>(m: WindowModel<P, C, S, H, F, D>, has_frame_callback: bool)
    ensures
        m.frame_callback_pending ==> after_schedule_frame(m) == m,
        m.frame_scheduled ==> after_schedule_frame(after_scheduled_frame(m, has_frame_callback)).frame_scheduled,
{
}

/// Toggling fullscreen twice restores the window.
pub proof fn toggle_fullscreen_twice_restores<P, C, S, H, F, D>(m: WindowModel<P, C, S, H, F, D>)
    ensures
        after_toggle_fullscreen(after_toggle_fullscreen(m)) == m,
{
}

/// A delivery attempt ends a schedule exactly when it runs the frame
/// callback.
pub proof fn schedule_ends_only_with_delivery<P, C, S, H, F, D>(m: WindowModel<P, C, S, H, F, D>, has_frame_callback: bool)
    requires
        m.frame_scheduled,
    ensures
        !after_scheduled_frame(m, has_frame_callback).frame_scheduled <==> delivers_frame(m, has_frame_callback),
{
}

/// The frame-protocol invariant: a frame awaiting delivery is scheduled.
pub open spec fn frame_state_ok<P, C, S, H, F, D>(m: WindowModel<P, C, S, H, F, D>) -> bool {
    m.frame_callback_pending ==> m.frame_scheduled
}

/// Where a window stands in delivering frames: nothing scheduled, a frame
/// scheduled, or a drawn frame scheduled and awaiting delivery.
#[derive(Clone, Copy, Debug, PartialEq, Eq, Structural)]
enum FrameState {
    Idle,
    Scheduled,
    AwaitingDelivery,
}

/// Every text-input configuration forwarded to a window is recorded, in
/// order. `states` are the window's states along a run of calls from a new
/// window, and call `i` forwards `forwarded[i]`: one configuration for
/// `set_text_input_configuration`, none for every other call, whose contracts
/// keep the record. Reading the record changes nothing.
pub proof fn text_input_configurations_in_order<P, C, S, H, F, D>(states: Seq<WindowModel<P, C, S, H, F, D>>, forwarded: Seq<Seq<C>>)
    requires
        states.len() == forwarded.len() + 1,
        states[0].text_input_configurations == Seq::<C>::empty(),
        forall|i: int|
            0 <= i < forwarded.len() ==> states[i + 1].text_input_configurations
                == states[i].text_input_configurations + #[trigger] forwarded[i],
    ensures
        states.last().text_input_configurations == concat_all(forwarded),
{
    let log = Seq::new(states.len(), |i: int| states[i].text_input_configurations);
    record_accumulates(log, forwarded);
    assert(log[0] + concat_all(forwarded) =~= concat_all(forwarded));
}

/// Every text-input state change forwarded to a window is recorded, in order,
/// along a run of calls from a new window where call `i` forwards `changed[i]`
/// (one change for `text_input_state_changed`, none for every other call).
pub proof fn text_input_state_changes_in_order<P, C, S, H, F, D>(states: Seq<WindowModel<P, C, S, H, F, D>>, changed: Seq<Seq<S>>)
    requires
        states.len() == changed.len() + 1,
        states[0].text_input_state_changes == Seq::<S>::empty(),
        forall|i: int|
            0 <= i < changed.len() ==> states[i + 1].text_input_state_changes
                == states[i].text_input_state_changes + #[trigger] changed[i],
    ensures
        states.last().text_input_state_changes == concat_all(changed),
{
    let log = Seq::new(states.len(), |i: int| states[i].text_input_state_changes);
    record_accumulates(log, changed);
    assert(log[0] + concat_all(changed) =~= concat_all(changed));
}

/// The files of every external drag are recorded, in order, along a run of
/// calls from a new window where call `i` drags `dragged[i]` (the files of a
/// `start_external_drag`, none for every other call).
pub proof fn external_drag_files_in_order<P, C, S, H, F, D>(states: Seq<WindowModel<P, C, S, H, F, D>>, dragged: Seq<Seq<(F, bool)>>)
    requires
        states.len() == dragged.len() + 1,
        states[0].external_drag_files == Seq::<(F, bool)>::empty(),
        forall|i: int|
            0 <= i < dragged.len() ==> states[i + 1].external_drag_files
                == states[i].external_drag_files + #[trigger] dragged[i],
    ensures
        states.last().external_drag_files == concat_all(dragged),
{
    let log = Seq::new(states.len(), |i: int| states[i].external_drag_files);
    record_accumulates(log, dragged);
    assert(log[0] + concat_all(dragged) =~= concat_all(dragged));
}

/// The wake count is the number of wakes: along a run of calls from a new
/// window where call `i` is a wake exactly when `woken[i]` (`wake_frame`
/// adds one, every other call keeps the count), the count ends at the
/// number of wakes.
pub proof fn frame_wake_count_counts_wakes<P, C, S, H, F, D>(states: Seq<WindowModel<P, C, S, H, F, D>>, woken: Seq<bool>)
    requires
        states.len() == woken.len() + 1,
        states[0].frame_wake_count == 0,
        forall|i: int|
            0 <= i < woken.len() ==> states[i + 1].frame_wake_count == states[i].frame_wake_count + if #[trigger] woken[i] {
                1nat
            } else {
                0nat
            },
    ensures
        states.last().frame_wake_count == count_set(woken),
{
    let counts = Seq::new(states.len(), |i: int| states[i].frame_wake_count as int);
    counter_accumulates(counts, woken, 1);
    assert(woken.take(woken.len() as int) =~= woken);
    assert(counts[woken.len() as int] == counts[0] + 1 * count_set(woken.take(woken.len() as int)));
}

/// A call as the frame protocol sees it.
pub enum FrameCall {
    Draw,
    Schedule,
    /// A delivery attempt, with whether a frame callback is registered.
    Deliver(bool),
    /// Any call that leaves the frame state alone.
    Other,
}

/// Whether the frame state goes from `before` to `after` by `call`.
pub open spec fn frame_call_step<P, C, S, H, F, D>(before: WindowModel<P, C, S, H, F, D>, after: WindowModel<P, C, S, H, F, D>, call: FrameCall) -> bool {
    let expected = match call {
        FrameCall::Draw => after_draw(before),
        FrameCall::Schedule => after_schedule_frame(before),
        FrameCall::Deliver(has_frame_callback) => after_scheduled_frame(before, has_frame_callback),
        FrameCall::Other => before,
    };
    &&& after.frame_scheduled == expected.frame_scheduled
    &&& after.frame_callback_pending == expected.frame_callback_pending
}

proof fn frame_state_stays_ok<P, C, S, H, F, D>(states: Seq<WindowModel<P, C, S, H, F, D>>, calls: Seq<FrameCall>, k: int)
    requires
        states.len() == calls.len() + 1,
        frame_state_ok(states[0]),
        forall|i: int| 0 <= i < calls.len() ==> frame_call_step(states[i], states[i + 1], #[trigger] calls[i]),
        0 <= k <= calls.len(),
    ensures
        frame_state_ok(states[k]),
    decreases k,
{
    if k > 0 {
        frame_state_stays_ok(states, calls, k - 1);
        assert(frame_call_step(states[k - 1], states[k], calls[k - 1]));
    }
}

/// The frame flag over a run of calls from a new window: nothing is
/// scheduled at first, a frame awaiting delivery is always scheduled, a draw
/// or a frame request always leaves a frame scheduled, only they schedule,
/// and a schedule ends only with a delivery that runs the frame callback.
pub proof fn frame_schedule_over_calls<P, C, S, H, F, D>(states: Seq<WindowModel<P, C, S, H, F, D>>, calls: Seq<FrameCall>)
    requires
        states.len() == calls.len() + 1,
        !states[0].frame_scheduled,
        !states[0].frame_callback_pending,
        forall|i: int| 0 <= i < calls.len() ==> frame_call_step(states[i], states[i + 1], #[trigger] calls[i]),
    ensures
        forall|k: int| 0 <= k <= calls.len() ==> frame_state_ok(#[trigger] states[k]),
        forall|i: int|
            0 <= i < calls.len() && (#[trigger] calls[i] is Draw || calls[i] is Schedule) ==> states[i + 1].frame_scheduled,
        forall|i: int|
            0 <= i < calls.len() && !states[i].frame_scheduled && states[i + 1].frame_scheduled ==> (
            #[trigger] calls[i] is Draw || calls[i] is Schedule),
        forall|i: int|
            0 <= i < calls.len() && states[i].frame_scheduled && !states[i + 1].frame_scheduled ==> (
            #[trigger] calls[i] matches FrameCall::Deliver(has_frame_callback) && delivers_frame(states[i], has_frame_callback)),
{
    assert forall|k: int| 0 <= k <= calls.len() implies frame_state_ok(#[trigger] states[k]) by {
        frame_state_stays_ok(states, calls, k);
    }
    assert forall|i: int| 0 <= i < calls.len() && (#[trigger] calls[i] is Draw || calls[i] is Schedule) implies states[i + 1].frame_scheduled by {
        frame_state_stays_ok(states, calls, i);
    }
}

/// A delivery attempt, in terms of the window's state: it runs the frame
/// callback exactly when a frame is scheduled and a callback is registered,
/// whatever else the window holds; afterwards no drawn frame awaits delivery,
/// the frame stays scheduled only when no callback ran, and every other field
/// is kept. Without a scheduled frame nothing changes.
pub proof fn delivery_runs_the_callback_of_a_scheduled_frame<P, C, S, H, F, D>(
    m: WindowModel<P, C, S, H, F, D>,
    has_frame_callback: bool,
)
    ensures
        delivers_frame(m, has_frame_callback) == (m.frame_scheduled && has_frame_callback),
        delivers_frame(m, true) == m.frame_scheduled,
        m.frame_scheduled ==> {
            let after = after_scheduled_frame(m, has_frame_callback);
            &&& after.frame_scheduled == !has_frame_callback
            &&& !after.frame_callback_pending
            &&& after.is_fullscreen == m.is_fullscreen
            &&& after.appearance == m.appearance
            &&& after.bounds == m.bounds
            &&& after.frame_wake_count == m.frame_wake_count
            &&& after == (WindowModel {
                frame_scheduled: after.frame_scheduled,
                frame_callback_pending: after.frame_callback_pending,
                ..m
            })
        },
        !m.frame_scheduled ==> after_scheduled_frame(m, has_frame_callback) == m,
{
}

/// A frame request, in terms of the window's state: it leaves a frame
/// scheduled on every window that keeps the frame-protocol invariant, never
/// changes whether a drawn frame awaits delivery, and keeps every other field.
pub proof fn frame_request_schedules_a_frame<P, C, S, H, F, D>(m: WindowModel<P, C, S, H, F, D>)
    ensures
        frame_state_ok(m) ==> after_schedule_frame(m).frame_scheduled,
        !m.frame_callback_pending ==> after_schedule_frame(m).frame_scheduled,
        after_schedule_frame(m).frame_callback_pending == m.frame_callback_pending,
        after_schedule_frame(m).is_fullscreen == m.is_fullscreen,
        after_schedule_frame(m) == (WindowModel {
            frame_scheduled: after_schedule_frame(m).frame_scheduled,
            ..m
        }),
        m.frame_scheduled ==> after_schedule_frame(m) == m,
{
}

/// A draw, in terms of the window's state: a frame is scheduled and awaits
/// delivery, and every other field is kept.
pub proof fn draw_schedules_a_frame_awaiting_delivery<P, C, S, H, F, D>(m: WindowModel<P, C, S, H, F, D>)
    ensures
        after_draw(m).frame_scheduled,
        after_draw(m).frame_callback_pending,
        after_draw(m) == (WindowModel { frame_scheduled: true, frame_callback_pending: true, ..m }),
{
}

/// Every toggle flips the fullscreen flag, in any state, and keeps every other
/// field, the frame state among them.
pub proof fn toggle_flips_fullscreen<P, C, S, H, F, D>(m: WindowModel<P, C, S, H, F, D>)
    ensures
        after_toggle_fullscreen(m).is_fullscreen == !m.is_fullscreen,
        after_toggle_fullscreen(m).frame_scheduled == m.frame_scheduled,
        after_toggle_fullscreen(m).frame_callback_pending == m.frame_callback_pending,
        after_toggle_fullscreen(m) == (WindowModel { is_fullscreen: !m.is_fullscreen, ..m }),
{
}

/// A headless window: it stores what it is told and schedules frames for a
/// test to deliver.
pub struct TestWindow<P, C, S, H, F, D> {
    bounds: Bounds<P>,
    display: D,
    title: Option<String>,
    edited: bool,
    document_path: Option<F>,
    frame_wake_count: usize,
    frame: FrameState,
    input_handler: Option<H>,
    text_input_configurations: Vec<C>,
    text_input_state_changes: Vec<S>,
    is_fullscreen: bool,
    appearance: WindowAppearance,
    external_drag_files: Vec<(F, bool)>,
    start_external_drag_result: bool,
}

impl<P, C, S, H, F, D> View for TestWindow<P, C, S, H, F, D> {
    type V = WindowModel<P, C, S, H, F, D>;

    closed spec fn view(&self) -> WindowModel<P, C, S, H, F, D> {
        WindowModel {
            bounds: self.bounds,
            display: self.display,
            title: match self.title {
                Some(t) => Some(t@),
                None => None,
            },
            edited: self.edited,
            document_path: self.document_path,
            frame_wake_count: self.frame_wake_count as nat,
            frame_scheduled: self.frame != FrameState::Idle,
            frame_callback_pending: self.frame == FrameState::AwaitingDelivery,
            input_handler: self.input_handler,
            text_input_configurations: self.text_input_configurations@,
            text_input_state_changes: self.text_input_state_changes@,
            is_fullscreen: self.is_fullscreen,
            appearance: self.appearance,
            external_drag_files: self.external_drag_files@,
            start_external_drag_result: self.start_external_drag_result,
        }
    }
}

impl<P: Copy, C, S, H, F, D> TestWindow<P, C, S, H, F, D> {
    /// A window with the given bounds on the given display, in its initial state.
    pub fn new(bounds: Bounds<P>, display: D) -> (w: Self)
        ensures
            w@ == initial_window::<P, C, S, H, F, D>(bounds, display),
    {
        let ghost shown_on = display;
        let w = TestWindow {
            bounds,
            display,
            title: None,
            edited: false,
            document_path: None,
            frame_wake_count: 0,
            frame: FrameState::Idle,
            input_handler: None,
            text_input_configurations: Vec::new(),
            text_input_state_changes: Vec::new(),
            is_fullscreen: false,
            appearance: WindowAppearance::Light,
            external_drag_files: Vec::new(),
            start_external_drag_result: false,
        };
        assert(w@ =~= initial_window::<P, C, S, H, F, D>(bounds, shown_on));
        w
    }

    /// Tries to deliver the scheduled frame. Answers whether the frame
    /// callback is to run now: only when a frame was scheduled and a callback
    /// is registered.
    pub fn simulate_scheduled_frame(&mut self, has_frame_callback: bool) -> (run: bool)
        ensures
            run == delivers_frame(old(self)@, has_frame_callback),
            final(self)@ == after_scheduled_frame(old(self)@, has_frame_callback),
    {
        match self.frame {
            FrameState::Idle => false,
            _ => {
                if has_frame_callback {
                    self.frame = FrameState::Idle;
                    true
                } else {
                    self.frame = FrameState::Scheduled;
                    false
                }
            },
        }
    }

    /// Whether a frame is scheduled.
    pub fn frame_scheduled(&self) -> (r: bool)
        ensures
            r == self@.frame_scheduled,
    {
        match self.frame {
            FrameState::Idle => false,
            _ => true,
        }
    }

    /// Requests a frame; ignored while a drawn frame awaits delivery.
    pub fn schedule_frame(&mut self)
        ensures
            final(self)@ == after_schedule_frame(old(self)@),
            final(self)@.frame_scheduled,
    {
        if let FrameState::Idle = self.frame {
            self.frame = FrameState::Scheduled;
        }
    }

    /// Records a draw: a frame is scheduled and awaits delivery.
    pub fn draw(&mut self)
        ensures
            final(self)@ == after_draw(old(self)@),
    {
        self.frame = FrameState::AwaitingDelivery;
    }

    /// How many times the frame waker has been invoked.
    pub fn frame_wake_count(&self) -> (r: usize)
        ensures
            r == self@.frame_wake_count,
    {
        self.frame_wake_count
    }

    /// What the frame waker does: count one more wake.
    pub fn wake_frame(&mut self)
        requires
            old(self)@.frame_wake_count < usize::MAX,
        ensures
            final(self)@ == (WindowModel { frame_wake_count: old(self)@.frame_wake_count + 1, ..old(self)@ }),
    {
        self.frame_wake_count = self.frame_wake_count + 1;
    }
    /// Every text-input configuration forwarded to this window, in order.
    pub fn text_input_configurations(&self) -> (r: &Vec<C>)
        ensures
            r@ == self@.text_input_configurations,
    {
        &self.text_input_configurations
    }

    /// Every text-input state change forwarded to this window, in order.
    pub fn text_input_state_changes(&self) -> (r: &Vec<S>)
        ensures
            r@ == self@.text_input_state_changes,
    {
        &self.text_input_state_changes
    }

    /// Records a forwarded text-input configuration.
    pub fn set_text_input_configuration(&mut self, configuration: C)
        ensures
            final(self)@ == (WindowModel {
                text_input_configurations: old(self)@.text_input_configurations.push(configuration),
                ..old(self)@
            }),
    {
        self.text_input_configurations.push(configuration);
    }

    /// Records a forwarded text-input state change.
    pub fn text_input_state_changed(&mut self, change: S)
        ensures
            final(self)@ == (WindowModel {
                text_input_state_changes: old(self)@.text_input_state_changes.push(change),
                ..old(self)@
            }),
    {
        self.text_input_state_changes.push(change);
    }

    /// The platform resizes the window: its size changes, its origin stays.
    /// The resize callback, if any, is to run afterwards with the new size.
    pub fn simulate_resize(&mut self, size: Size<P>)
        ensures
            final(self)@ == (WindowModel { bounds: Bounds { size, ..old(self)@.bounds }, ..old(self)@ }),
    {
        self.resize(size);
    }

    /// Resizes the window's content: its size changes, its origin stays.
    pub fn resize(&mut self, size: Size<P>)
        ensures
            final(self)@ == (WindowModel { bounds: Bounds { size, ..old(self)@.bounds }, ..old(self)@ }),
    {
        self.bounds.size = size;
    }

    /// The system appearance changes. The appearance callback, if any, is to
    /// run afterwards.
    pub fn simulate_appearance_change(&mut self, appearance: WindowAppearance)
        ensures
            final(self)@ == (WindowModel { appearance, ..old(self)@ }),
    {
        self.appearance = appearance;
    }

    /// The current appearance.
    pub fn appearance(&self) -> (r: WindowAppearance)
        ensures
            r == self@.appearance,
    {
        self.appearance
    }

    /// Whether a simulated input event counts as handled: it is when an input
    /// callback ran and answered that the event is not to propagate. `result`
    /// is the callback's answer, `None` when no callback is registered.
    pub fn simulate_input(result: Option<DispatchEventResult>) -> (handled: bool)
        ensures
            handled == (result matches Some(d) && !d.propagate),
    {
        match result {
            Some(d) => !d.propagate,
            None => false,
        }
    }

    /// The files of every external drag started from this window, in order.
    pub fn external_drag_files(&self) -> (r: &Vec<(F, bool)>)
        ensures
            r@ == self@.external_drag_files,
    {
        &self.external_drag_files
    }

    /// Sets what later external drags answer.
    pub fn set_start_external_drag_result(&mut self, result: bool)
        ensures
            final(self)@ == (WindowModel { start_external_drag_result: result, ..old(self)@ }),
    {
        self.start_external_drag_result = result;
    }

    /// Whether an external drag can start: always.
    pub fn can_start_external_drag(&self) -> (r: bool)
        ensures
            r,
    {
        true
    }

    /// Starts an external drag of `files`: they are recorded after the earlier
    /// ones, and the answer is the one set for external drags.
    pub fn start_external_drag(&mut self, files: Vec<(F, bool)>) -> (r: bool)
        ensures
            r == old(self)@.start_external_drag_result,
            final(self)@ == (WindowModel {
                external_drag_files: old(self)@.external_drag_files + files@,
                ..old(self)@
            }),
    {
        let mut files = files;
        self.external_drag_files.append(&mut files);
        self.start_external_drag_result
    }

    /// The window's bounds.
    pub fn bounds(&self) -> (r: Bounds<P>)
        ensures
            r == self@.bounds,
    {
        self.bounds
    }

    /// The window's bounds, in the windowed state.
    pub fn window_bounds(&self) -> (r: WindowBounds<P>)
        ensures
            r == WindowBounds::Windowed(self@.bounds),
    {
        WindowBounds::Windowed(self.bounds)
    }

    /// The size of the window's content: that of its bounds.
    pub fn content_size(&self) -> (r: Size<P>)
        ensures
            r == self@.bounds.size,
    {
        self.bounds.size
    }

    /// A test window is never maximized.
    pub fn is_maximized(&self) -> (r: bool)
        ensures
            !r,
    {
        false
    }

    /// A test window is never the active window of the system.
    pub fn is_active(&self) -> (r: bool)
        ensures
            !r,
    {
        false
    }

    /// A test window is never hovered.
    pub fn is_hovered(&self) -> (r: bool)
        ensures
            !r,
    {
        false
    }

    /// A test window's background is opaque.
    pub fn background_appearance(&self) -> (r: WindowBackgroundAppearance)
        ensures
            r == WindowBackgroundAppearance::Opaque,
    {
        WindowBackgroundAppearance::Opaque
    }

    /// A test window does not render subpixel text.
    pub fn is_subpixel_rendering_supported(&self) -> (r: bool)
        ensures
            !r,
    {
        false
    }

    /// Installs the input handler, replacing any earlier one.
    pub fn set_input_handler(&mut self, input_handler: H)
        ensures
            final(self)@ == (WindowModel { input_handler: Some(input_handler), ..old(self)@ }),
    {
        self.input_handler = Some(input_handler);
    }

    /// Hands the input handler back, leaving none installed.
    pub fn take_input_handler(&mut self) -> (r: Option<H>)
        ensures
            r == old(self)@.input_handler,
            final(self)@ == (WindowModel { input_handler: None, ..old(self)@ }),
    {
        self.input_handler.take()
    }

    /// Sets the window's title.
    pub fn set_title(&mut self, title: &str)
        ensures
            final(self)@ == (WindowModel { title: Some(title@), ..old(self)@ }),
    {
        self.title = Some(title.to_owned());
    }

    /// The window's title, if one was set.
    pub fn title(&self) -> (r: Option<&String>)
        ensures
            r is Some <==> self@.title is Some,
            r matches Some(t) ==> self@.title == Some(t@),
    {
        self.title.as_ref()
    }

    /// Marks whether the window's document has unsaved edits.
    pub fn set_edited(&mut self, edited: bool)
        ensures
            final(self)@ == (WindowModel { edited, ..old(self)@ }),
    {
        self.edited = edited;
    }

    /// Whether the window's document has unsaved edits.
    pub fn edited(&self) -> (r: bool)
        ensures
            r == self@.edited,
    {
        self.edited
    }

    /// Sets or clears the path of the window's document.
    pub fn set_document_path(&mut self, path: Option<F>)
        ensures
            final(self)@ == (WindowModel { document_path: path, ..old(self)@ }),
    {
        self.document_path = path;
    }

    /// The path of the window's document, if one was set.
    pub fn document_path(&self) -> (r: &Option<F>)
        ensures
            *r == self@.document_path,
    {
        &self.document_path
    }

    /// Enters fullscreen when windowed and leaves it when fullscreen.
    pub fn toggle_fullscreen(&mut self)
        ensures
            final(self)@ == after_toggle_fullscreen(old(self)@),
    {
        self.is_fullscreen = !self.is_fullscreen;
    }

    /// Whether the window is fullscreen.
    pub fn is_fullscreen(&self) -> (r: bool)
        ensures
            r == self@.is_fullscreen,
    {
        self.is_fullscreen
    }
    /// Every window keeps the frame-protocol invariant: a frame awaiting
    /// delivery is scheduled.
    pub proof fn pending_frame_is_scheduled(self)
        ensures
            frame_state_ok(self@),
    {
    }
    /// The display the window was created on.
    pub fn display(&self) -> (r: &D)
        ensures
            *r == self@.display,
    {
        &self.display
    }
}

} // verus!
