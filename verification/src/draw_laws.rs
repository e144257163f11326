//! When what was drawn reaches the screen: only on a surface that has been
//! configured, as layer surfaces demand.

use crate::command::Command;
use crate::model::{Action, EventView, OutputView, StateView};
use crate::session_laws::{
    all_accepted, all_quiet, law_draws_are_in_order, law_events_keep_the_state_valid,
    law_every_run_is_valid, lemma_capture_failed_is_quiet, lemma_capture_ready_is_quiet,
    lemma_deactivate_is_quiet, lemma_grabs_are_quiet, lemma_shows_are_quiet,
    lemma_teardowns_are_quiet, run,
};
use crate::transition::Step;
use crate::zoom::{zoomed_out, MIN_ZOOM};
use vstd::prelude::*;

verus! {

/// Whether every buffer that a step attaches goes to a surface that is there
/// and configured.
pub open spec fn attaches_are_in_order(step: Step) -> bool {
    forall|j: int|
        0 <= j < step.actions.len() ==> (#[trigger] step.actions[j] matches Action::AttachBuffer {
            output,
        } ==> {
            &&& output < step.state.outputs.len()
            &&& step.state.outputs[output as int].surface
            &&& step.state.outputs[output as int].configured
        })
}

/// Whether an event that reports a drawn frame reports it for an output that is
/// configured.
pub open spec fn reports_configured(state: StateView, event: EventView) -> bool {
    match event {
        EventView::Drawn { output, .. } => state.outputs[output as int].configured,
        EventView::Cleared { output, .. } => state.outputs[output as int].configured,
        _ => true,
    }
}

/// Whether a step asked for the frame that an event reports as drawn.
pub open spec fn asked_for(step: Step, event: EventView) -> bool {
    match event {
        EventView::Drawn { output, .. } => step.actions.contains(Action::Redraw { output }),
        EventView::Cleared { output, .. } => step.actions.contains(Action::Clear { output }),
        _ => false,
    }
}

/// Whether an event reports a drawn frame.
pub open spec fn is_report(event: EventView) -> bool {
    event is Drawn || event is Cleared
}

proof fn lemma_obey_attaches_nothing(state: StateView, command: Command)
    requires
        state.wf(),
    ensures
        attaches_are_in_order(state.obey(command)),
{
    match command {
        Command::In => {
            lemma_shows_are_quiet(state.outputs, state.has_viewporter, state.outputs.len());
            lemma_grabs_are_quiet(state.outputs.len());
        },
        Command::Out => lemma_deactivate_is_quiet(
            StateView { zoom: zoomed_out(state.zoom), ..state },
        ),
        Command::Reset => lemma_deactivate_is_quiet(StateView { zoom: MIN_ZOOM, ..state }),
    }
}

proof fn lemma_pointer_enter_attaches_nothing(
    state: StateView,
    serial: u32,
    output: Option<usize>,
    x: i32,
    y: i32,
)
    ensures
        attaches_are_in_order(state.pointer_enter(serial, output, x, y)),
{
    if let Some(i) = output {
        if i < state.outputs.len() {
            let focused = StateView { last_enter_serial: serial, ..state }.with_output(
                i,
                OutputView { focal_x: x, focal_y: y, ..state.outputs[i as int] },
            );
            lemma_teardowns_are_quiet(focused.outputs, Some(i), focused.outputs.len());
            assert(all_quiet(focused.outputs[i as int].teardown_actions(i)));
        }
    }
}

/// A buffer is attached only to a surface that is there and configured, where
/// frames are reported as drawn only for outputs that are configured.
pub proof fn law_buffers_go_to_configured_surfaces(state: StateView, event: EventView)
    requires
        state.valid(),
        state.accepts(event),
        reports_configured(state, event),
    ensures
        attaches_are_in_order(state.step(event)),
{
    match event {
        EventView::Command(command) => lemma_obey_attaches_nothing(state, command),
        EventView::PointerEnter { serial, output, x, y } => lemma_pointer_enter_attaches_nothing(
            state,
            serial,
            output,
            x,
            y,
        ),
        EventView::CaptureBufferDone { data } => lemma_capture_failed_is_quiet(
            StateView { pending: state.pending.remove(data), ..state },
            data,
        ),
        EventView::CaptureAllocated { data, .. } => lemma_capture_failed_is_quiet(state, data),
        EventView::CaptureFailed { data } => lemma_capture_failed_is_quiet(state, data),
        EventView::CaptureReady { data, bytes } => lemma_capture_ready_is_quiet(state, data, bytes),
        _ => {},
    }
}

/// A frame that is reported as drawn right after the step that asked for it can
/// be reported there, and is attached only to a surface that is there and
/// configured.
pub proof fn law_requested_frames_go_to_configured_surfaces(
    state: StateView,
    event: EventView,
    report: EventView,
)
    requires
        state.valid(),
        state.accepts(event),
        asked_for(state.step(event), report),
    ensures
        state.step(event).state.accepts(report),
        reports_configured(state.step(event).state, report),
        attaches_are_in_order(state.step(event).state.step(report)),
{
    law_draws_are_in_order(state, event);
    law_events_keep_the_state_valid(state, event);
    let step = state.step(event);
    match report {
        EventView::Drawn { output, .. } => {
            let j = step.actions.index_of(Action::Redraw { output });
            assert(step.actions[j] == Action::Redraw { output });
        },
        EventView::Cleared { output, .. } => {
            let j = step.actions.index_of(Action::Clear { output });
            assert(step.actions[j] == Action::Clear { output });
        },
        _ => {},
    }
    law_buffers_go_to_configured_surfaces(step.state, report);
}

/// Whether each report of a drawn frame in a list of events comes right after
/// the step that asked for that frame.
pub open spec fn reports_follow_requests(state: StateView, events: Seq<EventView>) -> bool
    decreases events.len(),
{
    events.len() == 0 || {
        let before = events.drop_last();
        &&& reports_follow_requests(state, before)
        &&& is_report(events.last()) ==> before.len() > 0 && asked_for(
            run(state, before.drop_last()).step(before.last()),
            events.last(),
        )
    }
}

/// Whatever happens after startup, as long as drawn frames are reported right
/// after they were asked for, no buffer is ever attached to a surface that is
/// not configured.
pub proof fn law_no_run_attaches_before_configuration(
    viewporter: bool,
    cursor_shape_manager: bool,
    events: Seq<EventView>,
)
    requires
        events.len() > 0,
        all_accepted(StateView::initial(viewporter, cursor_shape_manager), events),
        reports_follow_requests(StateView::initial(viewporter, cursor_shape_manager), events),
    ensures
        attaches_are_in_order(
            run(StateView::initial(viewporter, cursor_shape_manager), events.drop_last()).step(
                events.last(),
            ),
        ),
{
    let start = StateView::initial(viewporter, cursor_shape_manager);
    let before = events.drop_last();
    if is_report(events.last()) {
        law_every_run_is_valid(viewporter, cursor_shape_manager, before.drop_last());
        law_requested_frames_go_to_configured_surfaces(
            run(start, before.drop_last()),
            before.last(),
            events.last(),
        );
    } else {
        law_every_run_is_valid(viewporter, cursor_shape_manager, before);
        law_buffers_go_to_configured_surfaces(run(start, before), events.last());
    }
}

proof fn lemma_pointer_enter_configures_nothing(
    state: StateView,
    serial: u32,
    output: Option<usize>,
    x: i32,
    y: i32,
    i: int,
)
    requires
        0 <= i < state.outputs.len(),
    ensures
        state.pointer_enter(serial, output, x, y).state.outputs[i].configured
            ==> state.outputs[i].configured,
        state.pointer_enter(serial, output, x, y).state.outputs[i].surface
            ==> state.outputs[i].surface,
{
}

proof fn lemma_capture_failed_configures_nothing(state: StateView, data: u32, i: int)
    requires
        0 <= i < state.outputs.len(),
    ensures
        !state.capture_failed(data).state.outputs[i].configured,
        !state.capture_failed(data).state.outputs[i].surface,
{
}

proof fn lemma_capture_ready_configures_nothing(
    state: StateView,
    data: u32,
    bytes: Seq<u8>,
    i: int,
)
    requires
        state.wf(),
        0 <= i < state.outputs.len(),
    ensures
        ({
            let after = state.capture_ready(data, bytes).state.outputs[i];
            &&& after.configured ==> state.outputs[i].configured
            &&& after.surface && !state.outputs[i].surface ==> !after.configured
        }),
{
}

proof fn lemma_obey_configures_nothing(state: StateView, command: Command, i: int)
    requires
        state.wf(),
        0 <= i < state.outputs.len(),
    ensures
        ({
            let after = state.obey(command).state.outputs[i];
            &&& after.configured ==> state.outputs[i].configured
            &&& after.surface && !state.outputs[i].surface ==> !after.configured
        }),
{
}

/// A surface starts out as not configured, and only a configuration that is
/// acknowledged, before anything is drawn for it, makes it configured.
pub proof fn law_configured_means_acknowledged(state: StateView, event: EventView, i: int)
    requires
        state.wf(),
        state.accepts(event),
        0 <= i < state.outputs.len(),
    ensures
        !state.outputs[i].surface && state.step(event).state.outputs[i].surface ==> !state.step(
            event,
        ).state.outputs[i].configured,
        !state.outputs[i].configured && state.step(event).state.outputs[i].configured ==> {
            &&& event matches EventView::Configure { data, serial, .. } && data == i && state.step(
                event,
            ).actions.len() > 0 && state.step(event).actions[0] == (Action::AckConfigure { serial })
        },
{
    match event {
        EventView::Command(command) => lemma_obey_configures_nothing(state, command, i),
        EventView::PointerEnter { serial, output, x, y } => lemma_pointer_enter_configures_nothing(
            state,
            serial,
            output,
            x,
            y,
            i,
        ),
        EventView::CaptureBufferDone { data } => lemma_capture_failed_configures_nothing(
            StateView { pending: state.pending.remove(data), ..state },
            data,
            i,
        ),
        EventView::CaptureAllocated { data, .. } => lemma_capture_failed_configures_nothing(
            state,
            data,
            i,
        ),
        EventView::CaptureFailed { data } => lemma_capture_failed_configures_nothing(
            state,
            data,
            i,
        ),
        EventView::CaptureReady { data, bytes } => lemma_capture_ready_configures_nothing(
            state,
            data,
            bytes,
            i,
        ),
        _ => {},
    }
}

} // verus!
