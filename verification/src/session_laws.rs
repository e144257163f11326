//! What holds of the daemon as a whole, whatever events arrive.

use crate::command::Command;
use crate::frame::{frame_in_bounds, law_whole_images_can_be_drawn, ImageView, Sampling};
use crate::model::{Action, CursorShape, EventView, OutputView, RedrawPlan, StateView};
use crate::transition::{full_region, grabs, shows, teardowns, Step};
use crate::zoom::{is_level, zoomed_in, zoomed_out, MIN_ZOOM, ZOOM_STEP};
use vstd::prelude::*;

verus! {

impl OutputView {
    /// The parts of an overlay come and go together, a redraw is put off only
    /// where one is possible, and no frame is cached while the output is being
    /// captured.
    pub open spec fn consistent(self, viewporter: bool) -> bool {
        &&& self.layer_surface == self.surface
        &&& self.viewport == (self.surface && viewporter)
        &&& self.frame_cb_pending ==> self.surface
        &&& self.redraw_dirty ==> {
            &&& self.surface
            &&& self.configured
            &&& self.frame_cb_pending
            &&& !self.capture_in_flight
        }
        &&& self.capture_in_flight ==> self.cached is None
    }
}

impl StateView {
    /// What holds of the daemon at all times.
    ///
    /// The zoom level is one of the levels. The magnifier waits for the
    /// pointer only while no output is active. Overlays exist while it waits,
    /// and on the active output; a cached frame exists on the active output
    /// only.
    pub open spec fn valid(self) -> bool {
        &&& self.wf()
        &&& is_level(self.zoom)
        &&& self.activating ==> self.active_output is None
        &&& forall|i: int|
            0 <= i < self.outputs.len() ==> (#[trigger] self.outputs[i]).consistent(
                self.has_viewporter,
            )
        &&& forall|i: int|
            0 <= i < self.outputs.len() && (#[trigger] self.outputs[i]).surface ==> self.activating
                || self.active_is(i)
        &&& forall|i: int|
            0 <= i < self.outputs.len() && (#[trigger] self.outputs[i]).cached is Some
                ==> self.active_is(i)
    }

    /// Whether output `i` is the active one.
    pub open spec fn active_is(self, i: int) -> bool {
        self.active_output matches Some(a) && a == i
    }

    /// Whether the magnifier is closed.
    pub open spec fn closed(self) -> bool {
        self.active_output is None && !self.activating
    }
}

/// The daemon starts in a valid state.
pub proof fn law_the_initial_state_is_valid(viewporter: bool, cursor_shape_manager: bool)
    ensures
        StateView::initial(viewporter, cursor_shape_manager).valid(),
        StateView::initial(viewporter, cursor_shape_manager).closed(),
{
}

proof fn lemma_request_redraw_valid(state: StateView, i: usize)
    requires
        state.valid(),
        i < state.outputs.len(),
    ensures
        state.request_redraw(i).state.valid(),
{
    let after = state.request_redraw(i).state;
    assert forall|j: int| 0 <= j < after.outputs.len() implies (
    #[trigger] after.outputs[j]).consistent(after.has_viewporter) by {
        assert(state.outputs[j].consistent(state.has_viewporter));
    }
}

proof fn lemma_deactivate_valid(state: StateView)
    requires
        is_level(state.zoom),
    ensures
        state.deactivate().state.valid(),
{
}

proof fn lemma_zoom_in_valid(state: StateView)
    requires
        state.valid(),
    ensures
        state.zoom_in().state.valid(),
{
    let opened = if state.active_output is None && !state.activating {
        state.open_overlays()
    } else {
        state.stay()
    };
    assert forall|j: int| 0 <= j < opened.state.outputs.len() implies (
    #[trigger] opened.state.outputs[j]).consistent(state.has_viewporter) by {
        assert(state.outputs[j].consistent(state.has_viewporter));
    }
    let zoomed = StateView { zoom: zoomed_in(state.zoom), ..opened.state };
    assert(zoomed.valid());
    match state.active_output {
        Some(i) => lemma_request_redraw_valid(zoomed, i),
        None => {},
    }
}

proof fn lemma_obey_valid(state: StateView, command: Command)
    requires
        state.valid(),
    ensures
        state.obey(command).state.valid(),
{
    match command {
        Command::In => lemma_zoom_in_valid(state),
        Command::Out => {
            let zoomed = StateView { zoom: zoomed_out(state.zoom), ..state };
            match state.active_output {
                Some(i) => {
                    if zoomed.zoom <= MIN_ZOOM {
                        lemma_deactivate_valid(zoomed);
                    } else {
                        lemma_request_redraw_valid(zoomed, i);
                    }
                },
                None => {},
            }
        },
        Command::Reset => {
            lemma_deactivate_valid(StateView { zoom: MIN_ZOOM, ..state });
        },
    }
}

proof fn lemma_announce_valid(
    state: StateView,
    startup: bool,
    global: u32,
    interface: Seq<char>,
    version: u32,
)
    requires
        state.valid(),
    ensures
        state.announce(startup, global, interface, version).state.valid(),
{
}

proof fn lemma_with_output_valid(state: StateView, i: usize, output: OutputView)
    requires
        state.valid(),
        i < state.outputs.len(),
        output.consistent(state.has_viewporter),
        output.surface ==> state.activating || state.active_is(i as int),
        output.cached is Some ==> state.active_is(i as int),
    ensures
        state.with_output(i, output).valid(),
{
}

proof fn lemma_pointer_enter_valid(
    state: StateView,
    serial: u32,
    output: Option<usize>,
    x: i32,
    y: i32,
)
    requires
        state.valid(),
    ensures
        state.pointer_enter(serial, output, x, y).state.valid(),
{
    let entered = StateView { last_enter_serial: serial, ..state };
    assert(entered.valid());
    if let Some(i) = output {
        if i < state.outputs.len() && state.outputs[i as int].surface {
            let o = OutputView { focal_x: x, focal_y: y, ..state.outputs[i as int] };
            assert(state.outputs[i as int].consistent(state.has_viewporter));
            lemma_with_output_valid(entered, i, o);
            let focused = entered.with_output(i, o);
            if focused.activating {
                let chosen = StateView {
                    activating: false,
                    active_output: Some(i),
                    ..focused
                }.tear_down_all(Some(i)).state;
                assert forall|j: int| 0 <= j < chosen.outputs.len() implies (
                #[trigger] chosen.outputs[j]).consistent(state.has_viewporter) by {
                    assert(focused.outputs[j].consistent(state.has_viewporter));
                }
                assert(chosen.valid());
                if !chosen.outputs[i as int].capture_in_flight {
                    lemma_with_output_valid(
                        chosen,
                        i,
                        OutputView {
                            capture_in_flight: true,
                            ..chosen.outputs[i as int].torn_down()
                        },
                    );
                }
            }
        }
    }
}

proof fn lemma_pointer_motion_valid(state: StateView, x: i32, y: i32)
    requires
        state.valid(),
    ensures
        state.pointer_motion(x, y).state.valid(),
{
    if let Some(i) = state.active_output {
        let o = OutputView { focal_x: x, focal_y: y, ..state.outputs[i as int] };
        assert(state.outputs[i as int].consistent(state.has_viewporter));
        lemma_with_output_valid(state, i, o);
        lemma_request_redraw_valid(state.with_output(i, o), i);
    }
}

proof fn lemma_configure_valid(state: StateView, data: u32, serial: u32, width: u32, height: u32)
    requires
        state.valid(),
        data < state.outputs.len(),
    ensures
        state.configure(data, serial, width, height).state.valid(),
{
    let i = data as usize;
    let o = OutputView {
        width: width as i32,
        height: height as i32,
        configured: true,
        ..state.outputs[i as int]
    };
    assert(state.outputs[i as int].consistent(state.has_viewporter));
    lemma_with_output_valid(state, i, o);
    lemma_request_redraw_valid(state.with_output(i, o), i);
}

proof fn lemma_frame_done_valid(state: StateView, data: u32)
    requires
        state.valid(),
    ensures
        state.frame_done(data).state.valid(),
{
    let i = data as usize;
    if i < state.outputs.len() {
        assert(state.outputs[i as int].consistent(state.has_viewporter));
        lemma_with_output_valid(
            state,
            i,
            OutputView {
                frame_cb_pending: false,
                redraw_dirty: false,
                ..state.outputs[i as int]
            },
        );
    }
}

proof fn lemma_capture_failed_valid(state: StateView, data: u32)
    requires
        state.valid(),
    ensures
        state.capture_failed(data).state.valid(),
{
    let i = data as usize;
    let over = state.capture_over(i);
    if i < state.outputs.len() {
        assert(state.outputs[i as int].consistent(state.has_viewporter));
        lemma_with_output_valid(
            state,
            i,
            OutputView { capture_in_flight: false, ..state.outputs[i as int] },
        );
    }
    assert(over.valid());
    if over.active_output == Some(i) {
        lemma_deactivate_valid(over);
    }
}

proof fn lemma_capture_ready_valid(state: StateView, data: u32, bytes: Seq<u8>)
    requires
        state.valid(),
    ensures
        state.capture_ready(data, bytes).state.valid(),
{
    let i = data as usize;
    let kept = state.keep_capture(data, bytes);
    if i < state.outputs.len() {
        assert(state.outputs[i as int].consistent(state.has_viewporter));
        if state.capture_buffers.contains_key(data) {
            lemma_with_output_valid(state, i, kept.outputs[i as int]);
        }
    }
    assert(kept.valid());
    let rest = StateView { capture_buffers: state.capture_buffers.remove(data), ..kept };
    assert(rest.valid());
    if rest.active_output == Some(i) {
        assert(rest.outputs[i as int].consistent(state.has_viewporter));
        lemma_with_output_valid(rest, i, rest.outputs[i as int].shown(state.has_viewporter));
    }
}

/// Every event leads from a valid state to a valid state.
pub proof fn law_events_keep_the_state_valid(state: StateView, event: EventView)
    requires
        state.valid(),
        state.accepts(event),
    ensures
        state.step(event).state.valid(),
{
    match event {
        EventView::Command(command) => lemma_obey_valid(state, command),
        EventView::Global { startup, global, interface, version } => lemma_announce_valid(
            state,
            startup,
            global,
            interface,
            version,
        ),
        EventView::OutputName { output, name } => {
            if let Some(i) = output {
                if i < state.outputs.len() {
                    assert(state.outputs[i as int].consistent(state.has_viewporter));
                    lemma_with_output_valid(
                        state,
                        i,
                        OutputView { name, ..state.outputs[i as int] },
                    );
                }
            }
        },
        EventView::PointerEnter { serial, output, x, y } => lemma_pointer_enter_valid(
            state,
            serial,
            output,
            x,
            y,
        ),
        EventView::PointerMotion { x, y } => lemma_pointer_motion_valid(state, x, y),
        EventView::Configure { data, serial, width, height } => lemma_configure_valid(
            state,
            data,
            serial,
            width,
            height,
        ),
        EventView::FrameDone { data } => lemma_frame_done_valid(state, data),
        EventView::CaptureBuffer { .. } => {},
        EventView::CaptureBufferDone { data } => {
            let rest = StateView { pending: state.pending.remove(data), ..state };
            assert(rest.valid());
            lemma_capture_failed_valid(rest, data);
        },
        EventView::CaptureAllocated { data, shape, allocated } => lemma_capture_failed_valid(
            state,
            data,
        ),
        EventView::CaptureReady { data, bytes } => lemma_capture_ready_valid(state, data, bytes),
        EventView::CaptureFailed { data } => lemma_capture_failed_valid(state, data),
        EventView::Drawn { output, plan } => {
            assert(state.outputs[output as int].consistent(state.has_viewporter));
            if state.outputs[output as int].surface {
                lemma_with_output_valid(
                    state,
                    output,
                    OutputView { frame_cb_pending: true, ..state.outputs[output as int] },
                );
            }
        },
        EventView::Cleared { .. } => {},
    }
}

/// The state after a list of events.
pub open spec fn run(state: StateView, events: Seq<EventView>) -> StateView
    decreases events.len(),
{
    if events.len() == 0 {
        state
    } else {
        run(state, events.drop_last()).step(events.last()).state
    }
}

/// Whether each event of a list can happen in its turn.
pub open spec fn all_accepted(state: StateView, events: Seq<EventView>) -> bool
    decreases events.len(),
{
    events.len() == 0 || {
        &&& all_accepted(state, events.drop_last())
        &&& run(state, events.drop_last()).accepts(events.last())
    }
}

/// Whatever happens after startup, the state stays valid.
pub proof fn law_every_run_is_valid(
    viewporter: bool,
    cursor_shape_manager: bool,
    events: Seq<EventView>,
)
    requires
        all_accepted(StateView::initial(viewporter, cursor_shape_manager), events),
    ensures
        run(StateView::initial(viewporter, cursor_shape_manager), events).valid(),
    decreases events.len(),
{
    let start = StateView::initial(viewporter, cursor_shape_manager);
    if events.len() > 0 {
        law_every_run_is_valid(viewporter, cursor_shape_manager, events.drop_last());
        law_events_keep_the_state_valid(run(start, events.drop_last()), events.last());
    }
}

/// While the magnifier is closed no output has an overlay, nor any part of
/// one, and no frame is cached: nothing covers the screen and nothing is held
/// in memory.
pub proof fn law_nothing_is_left_while_closed(state: StateView, i: int)
    requires
        state.valid(),
        state.closed(),
        0 <= i < state.outputs.len(),
    ensures
        !state.outputs[i].surface,
        !state.outputs[i].layer_surface,
        !state.outputs[i].viewport,
        state.outputs[i].cached is None,
{
    assert(state.outputs[i].consistent(state.has_viewporter));
}

/// While an output is magnified no other output has an overlay or a cached
/// frame: at most one frame is held in memory.
pub proof fn law_only_the_active_output_is_covered(state: StateView, i: int)
    requires
        state.valid(),
        state.active_output is Some,
        0 <= i < state.outputs.len(),
        !state.active_is(i),
    ensures
        !state.outputs[i].surface,
        state.outputs[i].cached is None,
{
}

/// Closing the magnifier tears every overlay down and drops every cached
/// frame.
pub proof fn law_closing_leaves_nothing(state: StateView, i: int)
    requires
        0 <= i < state.outputs.len(),
    ensures
        state.deactivate().state.closed(),
        state.deactivate().state.outputs.len() == state.outputs.len(),
        state.deactivate().state.outputs[i] == (OutputView {
            cached: None,
            ..state.outputs[i].torn_down()
        }),
{
}

/// A reset goes back to 1x and closes the magnifier, from any state.
pub proof fn law_reset_closes(state: StateView)
    ensures
        state.obey(Command::Reset).state.zoom == MIN_ZOOM,
        state.obey(Command::Reset).state.closed(),
{
}

/// A second reset changes nothing, and does nothing but set the usual cursor.
pub proof fn law_a_second_reset_changes_nothing(state: StateView)
    ensures
        state.zoom_reset().state.zoom_reset().state == state.zoom_reset().state,
        state.zoom_reset().state.zoom_reset().actions == state.cursor_actions(
            state.last_enter_serial,
            CursorShape::Default,
        ),
{
    let once = state.zoom_reset().state;
    assert(once.zoom_reset().state.outputs =~= once.outputs);
    lemma_teardowns_of_nothing(once.outputs, None, once.outputs.len());
}

proof fn lemma_teardowns_of_nothing(outputs: Seq<OutputView>, kept: Option<usize>, n: nat)
    requires
        n <= outputs.len(),
        forall|i: int|
            0 <= i < outputs.len() ==> !(#[trigger] outputs[i]).surface
                && !outputs[i].layer_surface && !outputs[i].viewport,
    ensures
        teardowns(outputs, kept, n) == Seq::<Action>::empty(),
    decreases n,
{
    if n > 0 {
        lemma_teardowns_of_nothing(outputs, kept, (n - 1) as nat);
        assert(outputs[n - 1].teardown_actions((n - 1) as usize) =~= Seq::<Action>::empty());
    }
}

/// Zooming out takes one step off the level. When that leaves 1x the magnifier
/// closes; otherwise it stays open on its output.
pub proof fn law_zooming_out_closes_at_the_minimum(state: StateView)
    requires
        state.valid(),
        state.active_output is Some,
    ensures
        state.zoom_out().state.zoom == zoomed_out(state.zoom),
        state.zoom_out().state.zoom == MIN_ZOOM <==> state.zoom_out().state.closed(),
        state.zoom <= MIN_ZOOM + ZOOM_STEP <==> state.zoom_out().state.closed(),
        !state.zoom_out().state.closed() ==> state.zoom_out().state.active_output
            == state.active_output,
{
}

/// Zooming out without an active output does nothing.
pub proof fn law_zooming_out_needs_an_active_output(state: StateView)
    requires
        state.active_output is None,
    ensures
        state.zoom_out() == state.stay(),
{
}

/// In a closed magnifier nothing happens until a step in opens it: every other
/// event leaves it closed.
pub proof fn law_only_zooming_in_opens(state: StateView, event: EventView)
    requires
        state.valid(),
        state.accepts(event),
        state.closed(),
        event != EventView::Command(Command::In),
    ensures
        state.step(event).state.closed(),
{
    match event {
        EventView::CaptureBufferDone { data } => lemma_capture_failed_stays_closed(
            StateView { pending: state.pending.remove(data), ..state },
            data,
        ),
        EventView::CaptureAllocated { data, .. } => lemma_capture_failed_stays_closed(state, data),
        EventView::CaptureFailed { data } => lemma_capture_failed_stays_closed(state, data),
        _ => {},
    }
}

proof fn lemma_capture_failed_stays_closed(state: StateView, data: u32)
    requires
        state.closed(),
    ensures
        state.capture_failed(data).state.closed(),
{
}

/// Zooming in adds one step to the level, up to the maximum, and leaves the
/// magnifier open.
pub proof fn law_zooming_in_opens(state: StateView)
    ensures
        state.zoom_in().state.zoom == zoomed_in(state.zoom),
        !state.zoom_in().state.closed(),
{
}

/// A step in and a step out from an active output give the level back, below
/// the maximum.
pub proof fn law_zooming_in_and_out_cancel(state: StateView)
    requires
        state.valid(),
        state.active_output is Some,
        state.zoom < crate::zoom::MAX_ZOOM,
    ensures
        state.zoom_in().state.zoom_out().state.zoom == state.zoom,
{
}

proof fn lemma_capture_failed_keeps_zoom(state: StateView, data: u32)
    ensures
        state.capture_failed(data).state.zoom == state.zoom,
{
}

proof fn lemma_capture_ready_keeps_zoom(state: StateView, data: u32, bytes: Seq<u8>)
    ensures
        state.capture_ready(data, bytes).state.zoom == state.zoom,
{
}

proof fn lemma_pointer_enter_keeps_zoom(
    state: StateView,
    serial: u32,
    output: Option<usize>,
    x: i32,
    y: i32,
)
    ensures
        state.pointer_enter(serial, output, x, y).state.zoom == state.zoom,
{
}

/// Nothing but a command changes the zoom level.
pub proof fn law_only_commands_zoom(state: StateView, event: EventView)
    requires
        !(event is Command),
    ensures
        state.step(event).state.zoom == state.zoom,
{
    match event {
        EventView::PointerEnter { serial, output, x, y } => lemma_pointer_enter_keeps_zoom(
            state,
            serial,
            output,
            x,
            y,
        ),
        EventView::CaptureBufferDone { data } => lemma_capture_failed_keeps_zoom(
            StateView { pending: state.pending.remove(data), ..state },
            data,
        ),
        EventView::CaptureAllocated { data, .. } => lemma_capture_failed_keeps_zoom(state, data),
        EventView::CaptureFailed { data } => lemma_capture_failed_keeps_zoom(state, data),
        EventView::CaptureReady { data, bytes } => lemma_capture_ready_keeps_zoom(
            state,
            data,
            bytes,
        ),
        _ => {},
    }
}

/// The first step in gives every output an overlay that takes input, to find
/// out which output the pointer is on.
pub proof fn law_opening_covers_every_output(state: StateView, i: int)
    requires
        state.closed(),
        0 <= i < state.outputs.len(),
    ensures
        state.zoom_in().state.activating,
        state.zoom_in().state.outputs[i].surface,
        state.zoom_in().actions.contains(
            Action::SetInputRegion { output: i as usize, region: full_region() },
        ),
{
    let n = state.outputs.len();
    let shown = shows(state.outputs, state.has_viewporter, n);
    lemma_grab(n, i);
    let region = Action::SetInputRegion { output: i as usize, region: full_region() };
    let k = grabs(n).index_of(region);
    assert(state.zoom_in().actions[shown.len() + k] == region);
}

proof fn lemma_grab(n: nat, i: int)
    requires
        0 <= i < n,
    ensures
        grabs(n).contains(Action::SetInputRegion { output: i as usize, region: full_region() }),
    decreases n,
{
    let region = Action::SetInputRegion { output: i as usize, region: full_region() };
    let before = grabs((n - 1) as nat);
    if i == n - 1 {
        assert(grabs(n)[before.len() as int] == region);
    } else {
        lemma_grab((n - 1) as nat, i);
        let k = before.index_of(region);
        assert(grabs(n)[k] == region);
    }
}

/// An action that neither captures, nor draws, nor attaches what was drawn.
pub open spec fn quiet(action: Action) -> bool {
    !(action is CaptureOutput) && !(action is Redraw) && !(action is Clear) && !(
    action is AttachBuffer)
}

/// Actions that neither capture, nor draw, nor attach what was drawn.
pub open spec fn all_quiet(actions: Seq<Action>) -> bool {
    forall|j: int| 0 <= j < actions.len() ==> quiet(#[trigger] actions[j])
}

pub(crate) proof fn lemma_shows_are_quiet(outputs: Seq<OutputView>, viewporter: bool, n: nat)
    requires
        n <= outputs.len(),
    ensures
        all_quiet(shows(outputs, viewporter, n)),
    decreases n,
{
    if n > 0 {
        lemma_shows_are_quiet(outputs, viewporter, (n - 1) as nat);
        assert(all_quiet(outputs[n - 1].show_actions((n - 1) as usize, viewporter)));
    }
}

pub(crate) proof fn lemma_grabs_are_quiet(n: nat)
    ensures
        all_quiet(grabs(n)),
    decreases n,
{
    if n > 0 {
        lemma_grabs_are_quiet((n - 1) as nat);
    }
}

pub(crate) proof fn lemma_teardowns_are_quiet(outputs: Seq<OutputView>, kept: Option<usize>, n: nat)
    requires
        n <= outputs.len(),
    ensures
        all_quiet(teardowns(outputs, kept, n)),
    decreases n,
{
    if n > 0 {
        lemma_teardowns_are_quiet(outputs, kept, (n - 1) as nat);
        assert(all_quiet(outputs[n - 1].teardown_actions((n - 1) as usize)));
    }
}

pub(crate) proof fn lemma_deactivate_is_quiet(state: StateView)
    ensures
        all_quiet(state.deactivate().actions),
{
    lemma_teardowns_are_quiet(state.outputs, None, state.outputs.len());
}

pub(crate) proof fn lemma_capture_failed_is_quiet(state: StateView, data: u32)
    ensures
        all_quiet(state.capture_failed(data).actions),
{
    let over = state.capture_over(data as usize);
    lemma_deactivate_is_quiet(over);
    lemma_teardowns_are_quiet(over.outputs, None, over.outputs.len());
}

pub(crate) proof fn lemma_capture_ready_is_quiet(state: StateView, data: u32, bytes: Seq<u8>)
    requires
        state.wf(),
    ensures
        all_quiet(state.capture_ready(data, bytes).actions),
{
    let i = data as usize;
    let kept = state.keep_capture(data, bytes);
    assert(all_quiet(kept.outputs[i as int].show_actions(i, kept.has_viewporter)));
}

/// What an event may draw, in the state it leads to: an overlay is drawn from
/// the cached frame only on the active output, with a surface that is
/// configured, outside of a capture and after the frame before is over; it is
/// drawn empty only where a configuration just arrived.
pub open spec fn draws_are_in_order(event: EventView, step: Step) -> bool {
    &&& forall|j: int|
        0 <= j < step.actions.len() ==> (#[trigger] step.actions[j] matches Action::Redraw { output }
            ==> {
            &&& output < step.state.outputs.len()
            &&& step.state.active_output == Some(output)
            &&& step.state.outputs[output as int].surface
            &&& step.state.outputs[output as int].configured
            &&& !step.state.outputs[output as int].capture_in_flight
            &&& !step.state.outputs[output as int].frame_cb_pending
        })
    &&& forall|j: int|
        0 <= j < step.actions.len() ==> (#[trigger] step.actions[j] matches Action::Clear { output }
            ==> {
            &&& event matches EventView::Configure { data, .. } && data == output
            &&& output < step.state.outputs.len()
            &&& step.state.outputs[output as int].configured
        })
}

proof fn lemma_zoom_in_draws(state: StateView, event: EventView)
    requires
        state.valid(),
    ensures
        draws_are_in_order(event, state.zoom_in()),
{
    lemma_shows_are_quiet(state.outputs, state.has_viewporter, state.outputs.len());
    lemma_grabs_are_quiet(state.outputs.len());
}

proof fn lemma_zoom_out_draws(state: StateView, event: EventView)
    requires
        state.valid(),
    ensures
        draws_are_in_order(event, state.zoom_out()),
{
    lemma_deactivate_is_quiet(StateView { zoom: zoomed_out(state.zoom), ..state });
}

proof fn lemma_pointer_enter_draws(
    state: StateView,
    serial: u32,
    output: Option<usize>,
    x: i32,
    y: i32,
    event: EventView,
)
    requires
        state.valid(),
    ensures
        draws_are_in_order(event, state.pointer_enter(serial, output, x, y)),
{
    if let Some(i) = output {
        if i < state.outputs.len() {
            let focused = StateView { last_enter_serial: serial, ..state }.with_output(
                i,
                OutputView { focal_x: x, focal_y: y, ..state.outputs[i as int] },
            );
            lemma_teardowns_are_quiet(focused.outputs, Some(i), focused.outputs.len());
            assert(all_quiet(focused.outputs[i as int].teardown_actions(i)));
        }
    }
}

/// Overlays are drawn only where and when they may be: see
/// [`draws_are_in_order`].
pub proof fn law_draws_are_in_order(state: StateView, event: EventView)
    requires
        state.valid(),
        state.accepts(event),
    ensures
        draws_are_in_order(event, state.step(event)),
{
    match event {
        EventView::Command(command) => match command {
            Command::In => lemma_zoom_in_draws(state, event),
            Command::Out => lemma_zoom_out_draws(state, event),
            Command::Reset => lemma_deactivate_is_quiet(StateView { zoom: MIN_ZOOM, ..state }),
        },
        EventView::PointerEnter { serial, output, x, y } => lemma_pointer_enter_draws(
            state,
            serial,
            output,
            x,
            y,
            event,
        ),
        EventView::FrameDone { data } => {
            if data < state.outputs.len() {
                assert(state.outputs[data as int].consistent(state.has_viewporter));
            }
        },
        EventView::CaptureBufferDone { data } => lemma_capture_failed_is_quiet(
            StateView { pending: state.pending.remove(data), ..state },
            data,
        ),
        EventView::CaptureAllocated { data, .. } => lemma_capture_failed_is_quiet(state, data),
        EventView::CaptureFailed { data } => lemma_capture_failed_is_quiet(state, data),
        EventView::CaptureReady { data, bytes } => lemma_capture_ready_is_quiet(state, data, bytes),
        _ => {},
    }
}

/// While the frame on screen is not over, its overlay is not drawn again: only
/// the end of the frame lifts that.
pub proof fn law_one_redraw_per_frame(state: StateView, event: EventView, i: usize)
    requires
        state.valid(),
        state.accepts(event),
        i < state.outputs.len(),
        state.outputs[i as int].frame_cb_pending,
        !(event matches EventView::FrameDone { data } && data == i),
    ensures
        !state.step(event).actions.contains(Action::Redraw { output: i }),
{
    match event {
        EventView::Command(command) => lemma_obey_waits_for_the_frame(state, command, i),
        EventView::PointerEnter { serial, output, x, y } => lemma_pointer_enter_never_redraws(
            state,
            serial,
            output,
            x,
            y,
            i,
        ),
        EventView::CaptureBufferDone { data } => lemma_capture_failed_is_quiet(
            StateView { pending: state.pending.remove(data), ..state },
            data,
        ),
        EventView::CaptureAllocated { data, .. } => lemma_capture_failed_is_quiet(state, data),
        EventView::CaptureFailed { data } => lemma_capture_failed_is_quiet(state, data),
        EventView::CaptureReady { data, bytes } => lemma_capture_ready_is_quiet(state, data, bytes),
        _ => {},
    }
}

proof fn lemma_obey_waits_for_the_frame(state: StateView, command: Command, i: usize)
    requires
        state.valid(),
        i < state.outputs.len(),
        state.outputs[i as int].frame_cb_pending,
    ensures
        !state.obey(command).actions.contains(Action::Redraw { output: i }),
{
    match command {
        Command::In => {
            lemma_shows_are_quiet(state.outputs, state.has_viewporter, state.outputs.len());
            lemma_grabs_are_quiet(state.outputs.len());
        },
        Command::Out => lemma_deactivate_is_quiet(
            StateView { zoom: zoomed_out(state.zoom), ..state },
        ),
        Command::Reset => lemma_deactivate_is_quiet(StateView { zoom: MIN_ZOOM, ..state }),
    }
}

proof fn lemma_pointer_enter_never_redraws(
    state: StateView,
    serial: u32,
    output: Option<usize>,
    x: i32,
    y: i32,
    i: usize,
)
    ensures
        !state.pointer_enter(serial, output, x, y).actions.contains(Action::Redraw { output: i }),
{
    if let Some(o) = output {
        if o < state.outputs.len() {
            let focused = StateView { last_enter_serial: serial, ..state }.with_output(
                o,
                OutputView { focal_x: x, focal_y: y, ..state.outputs[o as int] },
            );
            lemma_teardowns_are_quiet(focused.outputs, Some(o), focused.outputs.len());
            assert(all_quiet(focused.outputs[o as int].teardown_actions(o)));
        }
    }
}

/// A redraw that is asked for while the frame on screen is not over happens as
/// soon as it is over: it is put off, never lost.
pub proof fn law_redraws_are_put_off_not_lost(state: StateView, i: u32)
    requires
        state.valid(),
        state.active_is(i as int),
        state.outputs[i as int].frame_cb_pending,
        state.outputs[i as int].configured,
        !state.outputs[i as int].capture_in_flight,
    ensures
        state.request_redraw(i as usize).actions == Seq::<Action>::empty(),
        state.request_redraw(i as usize).state.frame_done(i).actions == seq![
            Action::Redraw { output: i as usize },
        ],
{
    assert(state.outputs[i as int].consistent(state.has_viewporter));
}

/// A redraw that was put off is dropped when the magnifier closes before the
/// frame on screen is over: the end of that frame then draws nothing.
pub proof fn law_closing_drops_redraws(state: StateView, data: u32)
    ensures
        state.deactivate().state.frame_done(data).actions == Seq::<Action>::empty(),
{
}

/// What an event may capture, in the state it leads to: only where the pointer
/// enters while the magnifier waits for it, only the output that becomes the
/// active one, only once, and only with its overlay gone.
pub open spec fn captures_are_in_order(state: StateView, event: EventView, step: Step) -> bool {
    forall|j: int|
        0 <= j < step.actions.len() ==> (#[trigger] step.actions[j] matches Action::CaptureOutput {
            output,
            ..
        } ==> {
            &&& event is PointerEnter
            &&& state.activating
            &&& !step.state.activating
            &&& step.state.active_output == Some(output)
            &&& step.state.outputs[output as int].capture_in_flight
            &&& !step.state.outputs[output as int].surface
            &&& forall|k: int|
                0 <= k < step.actions.len() && #[trigger] step.actions[k] is CaptureOutput ==> k == j
        })
}

proof fn lemma_pointer_enter_captures(
    state: StateView,
    serial: u32,
    output: Option<usize>,
    x: i32,
    y: i32,
)
    ensures
        captures_are_in_order(
            state,
            EventView::PointerEnter { serial, output, x, y },
            state.pointer_enter(serial, output, x, y),
        ),
{
    if let Some(i) = output {
        if i < state.outputs.len() && state.outputs[i as int].surface {
            let focused = StateView { last_enter_serial: serial, ..state }.with_output(
                i,
                OutputView { focal_x: x, focal_y: y, ..state.outputs[i as int] },
            );
            let torn = teardowns(focused.outputs, Some(i), focused.outputs.len());
            lemma_teardowns_are_quiet(focused.outputs, Some(i), focused.outputs.len());
            let own = focused.outputs[i as int].teardown_actions(i);
            assert(all_quiet(own));
            let step = state.pointer_enter(serial, output, x, y);
            let at = torn.len() + own.len();
            assert forall|j: int| 0 <= j < step.actions.len() && j != at implies !(
            #[trigger] step.actions[j] is CaptureOutput) by {
                if j < torn.len() {
                    assert(focused.activating ==> step.actions[j] == torn[j]);
                } else if j < at {
                    assert(focused.activating && !focused.outputs[i as int].capture_in_flight
                        ==> step.actions[j] == own[j - torn.len()]);
                }
            }
        }
    }
}

/// Outputs are captured only as [`captures_are_in_order`] says: the one that
/// the pointer chooses, once, and with its overlay out of the way.
pub proof fn law_captures_are_in_order(state: StateView, event: EventView)
    requires
        state.wf(),
        state.accepts(event),
    ensures
        captures_are_in_order(state, event, state.step(event)),
{
    match event {
        EventView::Command(command) => match command {
            Command::In => {
                lemma_shows_are_quiet(state.outputs, state.has_viewporter, state.outputs.len());
                lemma_grabs_are_quiet(state.outputs.len());
            },
            Command::Out => lemma_deactivate_is_quiet(
                StateView { zoom: zoomed_out(state.zoom), ..state },
            ),
            Command::Reset => lemma_deactivate_is_quiet(StateView { zoom: MIN_ZOOM, ..state }),
        },
        EventView::PointerEnter { serial, output, x, y } => lemma_pointer_enter_captures(
            state,
            serial,
            output,
            x,
            y,
        ),
        EventView::CaptureBufferDone { data } => lemma_capture_failed_is_quiet(
            StateView { pending: state.pending.remove(data), ..state },
            data,
        ),
        EventView::CaptureAllocated { data, .. } => lemma_capture_failed_is_quiet(state, data),
        EventView::CaptureFailed { data } => lemma_capture_failed_is_quiet(state, data),
        EventView::CaptureReady { data, bytes } => lemma_capture_ready_is_quiet(state, data, bytes),
        _ => {},
    }
}

/// While an output is magnified nothing is captured: every redraw comes from
/// the one cached frame.
pub proof fn law_no_capture_while_magnified(state: StateView, event: EventView, j: int)
    requires
        state.valid(),
        state.accepts(event),
        state.active_output is Some,
        0 <= j < state.step(event).actions.len(),
    ensures
        !(state.step(event).actions[j] is CaptureOutput),
{
    law_captures_are_in_order(state, event);
}

/// While an output is being captured no frame is cached for it, so there is
/// nothing magnified to draw that the capture could show.
pub proof fn law_captures_never_show_a_magnified_view(state: StateView, i: int, zoom: u32)
    requires
        state.valid(),
        0 <= i < state.outputs.len(),
        state.outputs[i].capture_in_flight,
    ensures
        state.outputs[i].cached is None,
        state.outputs[i].plan(zoom) is None,
{
    assert(state.outputs[i].consistent(state.has_viewporter));
}

/// While the active output is being captured it has no overlay, from the event
/// that starts the capture to the one that ends it. (A capture that is
/// reported complete without a buffer ever having been allocated for it is
/// outside of this.)
pub proof fn law_no_overlay_during_its_capture(state: StateView, event: EventView, i: int)
    requires
        state.valid(),
        state.accepts(event),
        state.active_is(i),
        state.outputs[i].capture_in_flight,
        !state.outputs[i].surface,
        !(event matches EventView::CaptureReady { data, .. } && data == i
            && !state.capture_buffers.contains_key(data)),
    ensures
        state.step(event).state.active_is(i) && state.step(event).state.outputs[i].capture_in_flight
            ==> !state.step(event).state.outputs[i].surface,
{
    match event {
        EventView::CaptureBufferDone { data } => lemma_capture_failed_adds_no_overlay(
            StateView { pending: state.pending.remove(data), ..state },
            data,
            i,
        ),
        EventView::CaptureAllocated { data, .. } => lemma_capture_failed_adds_no_overlay(
            state,
            data,
            i,
        ),
        EventView::CaptureFailed { data } => lemma_capture_failed_adds_no_overlay(state, data, i),
        EventView::CaptureReady { data, bytes } => lemma_capture_ready_ends_capture(
            state,
            data,
            bytes,
            i,
        ),
        EventView::PointerEnter { serial, output, x, y } => lemma_pointer_enter_adds_no_overlay(
            state,
            serial,
            output,
            x,
            y,
            i,
        ),
        _ => {},
    }
}

proof fn lemma_capture_failed_adds_no_overlay(state: StateView, data: u32, i: int)
    requires
        0 <= i < state.outputs.len(),
    ensures
        !state.capture_failed(data).state.outputs[i].surface,
{
}

proof fn lemma_capture_ready_ends_capture(state: StateView, data: u32, bytes: Seq<u8>, i: int)
    requires
        state.wf(),
        0 <= i < state.outputs.len(),
        !state.outputs[i].surface,
        data == i ==> state.capture_buffers.contains_key(data),
    ensures
        state.capture_ready(data, bytes).state.outputs[i].capture_in_flight
            ==> !state.capture_ready(data, bytes).state.outputs[i].surface,
{
}

proof fn lemma_pointer_enter_adds_no_overlay(
    state: StateView,
    serial: u32,
    output: Option<usize>,
    x: i32,
    y: i32,
    i: int,
)
    requires
        0 <= i < state.outputs.len(),
        !state.outputs[i].surface,
    ensures
        !state.pointer_enter(serial, output, x, y).state.outputs[i].surface,
{
}

/// A capture that is complete while its output is the active one becomes the
/// cached frame, and the overlay is there again to show it.
pub proof fn law_a_capture_becomes_the_view(state: StateView, data: u32, bytes: Seq<u8>)
    requires
        state.wf(),
        state.active_is(data as int),
        state.capture_buffers.contains_key(data),
    ensures
        state.capture_ready(data, bytes).state.outputs[data as int].cached == Some(
            ImageView {
                width: state.capture_buffers[data].width,
                height: state.capture_buffers[data].height,
                stride: state.capture_buffers[data].stride,
                bytes,
            },
        ),
        state.capture_ready(data, bytes).state.outputs[data as int].surface,
        !state.capture_ready(data, bytes).state.outputs[data as int].capture_in_flight,
{
}

/// A capture that is complete after its output stopped being the active one is
/// dropped: nothing is cached, and nothing is shown.
pub proof fn law_late_captures_are_dropped(state: StateView, data: u32, bytes: Seq<u8>, i: int)
    requires
        state.valid(),
        !state.active_is(data as int),
        0 <= i < state.outputs.len(),
    ensures
        state.capture_ready(data, bytes).actions == seq![Action::DestroyFrame],
        state.capture_ready(data, bytes).state.outputs[i].cached == state.outputs[i].cached,
        state.capture_ready(data, bytes).state.outputs[i].surface == state.outputs[i].surface,
        i == data ==> state.capture_ready(data, bytes).state.outputs[i].cached is None,
{
    assert(state.capture_ready(data, bytes).actions =~= seq![Action::DestroyFrame]);
}

/// A capture that fails leaves no overlay behind that would swallow clicks,
/// and no wait for the pointer.
pub proof fn law_failed_captures_release_the_input(state: StateView, data: u32, i: int)
    requires
        0 <= i < state.outputs.len(),
    ensures
        !state.capture_failed(data).state.activating,
        !state.capture_failed(data).state.outputs[i].surface,
{
}

/// A capture that fails closes the magnifier, unless another output is the
/// active one, and the next step in opens it again.
pub proof fn law_failed_captures_can_be_retried(state: StateView, data: u32)
    requires
        state.active_output is None || state.active_is(data as int),
    ensures
        state.capture_failed(data).state.closed(),
        state.capture_failed(data).state.zoom_in().state.activating,
{
}

/// The view follows the pointer: where it moves to is what the next frame of
/// the active output is drawn round.
pub proof fn law_the_view_follows_the_pointer(state: StateView, x: i32, y: i32, i: int)
    requires
        state.wf(),
        state.active_is(i),
    ensures
        state.pointer_motion(x, y).state.outputs[i].focal_x == x,
        state.pointer_motion(x, y).state.outputs[i].focal_y == y,
        state.pointer_motion(x, y).state.outputs[i].plan(state.zoom) matches Some(plan)
            ==> plan.focal_x == x && plan.focal_y == y,
        state.outputs[i].cached is Some && state.outputs[i].surface && state.outputs[i].configured
            && !state.outputs[i].capture_in_flight && !state.outputs[i].frame_cb_pending
            ==> state.pointer_motion(x, y).actions == seq![Action::Redraw { output: i as usize }],
{
}

/// A frame that is planned from a capture which is there in full can be drawn
/// into the memory that a buffer of the planned height and stride takes,
/// whatever positions it samples. The frame and the buffer have the same rows.
pub proof fn law_planned_frames_fit_their_memory(
    output: OutputView,
    zoom: u32,
    plan: RedrawPlan,
    image: ImageView,
    sampling: Sampling,
)
    requires
        output.plan(zoom) == Some(plan),
        output.cached == Some(image),
        1 <= image.width,
        1 <= image.height,
        4 * image.width <= image.stride,
        image.height * image.stride <= image.bytes.len(),
        image.height * image.stride <= i32::MAX,
        1 <= plan.px_w <= sampling.columns.len(),
        1 <= plan.px_h <= sampling.rows.len(),
        plan.px_h * (4 * plan.px_w) <= i32::MAX,
    ensures
        plan.stride matches Some(stride) && {
            &&& stride == 4 * plan.px_w
            &&& frame_in_bounds(
                image,
                sampling,
                plan.px_w as int,
                plan.px_h as int,
                stride * plan.px_h,
            )
        },
{
    let row = 4 * plan.px_w;
    let h = plan.px_h as int;
    assert(row <= h * row && h * row == row * h) by (nonlinear_arith)
        requires
            row >= 0,
            h >= 1,
    ;
    law_whole_images_can_be_drawn(image, sampling, plan.px_w as int, h, row * h);
}

/// Where cursor shapes can be set, the pointer shows the busy cursor each time
/// it enters the overlay of the output that is, or becomes, the active one.
pub proof fn law_the_cursor_shows_the_magnifier(
    state: StateView,
    serial: u32,
    i: usize,
    x: i32,
    y: i32,
)
    requires
        state.wf(),
        state.has_cursor_shape_device,
        i < state.outputs.len(),
        state.outputs[i as int].surface,
        state.activating || state.active_output == Some(i),
    ensures
        state.pointer_enter(serial, Some(i), x, y).state.active_output == Some(i),
        state.pointer_enter(serial, Some(i), x, y).actions.len() > 0,
        state.pointer_enter(serial, Some(i), x, y).actions.last() == (Action::SetCursorShape {
            serial,
            shape: CursorShape::Wait,
        }),
{
}

/// Where cursor shapes can be set, closing the magnifier sets the usual one
/// first, with the serial of the last pointer entry.
pub proof fn law_closing_restores_the_cursor(state: StateView)
    requires
        state.has_cursor_shape_device,
    ensures
        state.deactivate().actions.len() > 0,
        state.deactivate().actions[0] == (Action::SetCursorShape {
            serial: state.last_enter_serial,
            shape: CursorShape::Default,
        }),
{
}

} // verus!
