//! How often outputs are captured, and how long a captured frame lasts.

use crate::command::Command;
use crate::frame::ImageView;
use crate::model::{Action, BufferShape, EventView, OutputView, StateView};
use crate::session_laws::{all_accepted, law_captures_are_in_order, law_every_run_is_valid, run};
use vstd::prelude::*;

verus! {

/// The frame of the active output stays as it is, whatever happens, until its
/// own capture completes or it is no longer the active output.
pub proof fn law_the_cached_frame_stays(state: StateView, event: EventView, i: int)
    requires
        state.valid(),
        state.accepts(event),
        state.active_is(i),
        state.step(event).state.active_is(i),
        !(event matches EventView::CaptureReady { data, .. } && data == i),
    ensures
        state.step(event).state.outputs[i].cached == state.outputs[i].cached,
{
    match event {
        EventView::Command(command) => lemma_obey_keeps_frames(state, command, i),
        EventView::Global { startup, global, interface, version } => lemma_announce_keeps_frames(
            state,
            startup,
            global,
            interface,
            version,
            i,
        ),
        EventView::PointerEnter { serial, output, x, y } => lemma_pointer_enter_keeps_frames(
            state,
            serial,
            output,
            x,
            y,
            i,
        ),
        EventView::CaptureBufferDone { data } => lemma_capture_failed_keeps_frames(
            StateView { pending: state.pending.remove(data), ..state },
            data,
            i,
        ),
        EventView::CaptureAllocated { data, .. } => lemma_capture_failed_keeps_frames(
            state,
            data,
            i,
        ),
        EventView::CaptureFailed { data } => lemma_capture_failed_keeps_frames(state, data, i),
        EventView::CaptureReady { data, bytes } => lemma_capture_ready_keeps_frames(
            state,
            data,
            bytes,
            i,
        ),
        _ => {},
    }
}

proof fn lemma_obey_keeps_frames(state: StateView, command: Command, i: int)
    requires
        state.wf(),
        0 <= i < state.outputs.len(),
    ensures
        state.obey(command).state.active_is(i) ==> state.obey(command).state.outputs[i].cached
            == state.outputs[i].cached,
{
}

proof fn lemma_announce_keeps_frames(
    state: StateView,
    startup: bool,
    global: u32,
    interface: Seq<char>,
    version: u32,
    i: int,
)
    requires
        0 <= i < state.outputs.len(),
    ensures
        state.announce(startup, global, interface, version).state.outputs[i].cached
            == state.outputs[i].cached,
{
}

proof fn lemma_pointer_enter_keeps_frames(
    state: StateView,
    serial: u32,
    output: Option<usize>,
    x: i32,
    y: i32,
    i: int,
)
    requires
        0 <= i < state.outputs.len(),
    ensures
        state.pointer_enter(serial, output, x, y).state.outputs[i].cached
            == state.outputs[i].cached,
{
}

proof fn lemma_capture_failed_keeps_frames(state: StateView, data: u32, i: int)
    requires
        0 <= i < state.outputs.len(),
    ensures
        state.capture_failed(data).state.active_is(i)
            ==> state.capture_failed(data).state.outputs[i].cached == state.outputs[i].cached,
{
}

proof fn lemma_capture_ready_keeps_frames(state: StateView, data: u32, bytes: Seq<u8>, i: int)
    requires
        state.wf(),
        0 <= i < state.outputs.len(),
        data != i,
    ensures
        state.capture_ready(data, bytes).state.outputs[i].cached == state.outputs[i].cached,
{
}

/// Whether an event opens the magnifier: a step in while it is closed.
pub open spec fn opens(state: StateView, event: EventView) -> bool {
    state.closed() && event == EventView::Command(Command::In)
}

/// Only opening the magnifier makes it wait for the pointer.
pub proof fn law_only_opening_waits_for_the_pointer(state: StateView, event: EventView)
    requires
        state.accepts(event),
        !state.activating,
        state.step(event).state.activating,
    ensures
        opens(state, event),
{
    match event {
        EventView::PointerEnter { serial, output, x, y } => lemma_pointer_enter_waits_no_more(
            state,
            serial,
            output,
            x,
            y,
        ),
        EventView::CaptureBufferDone { data } => lemma_capture_failed_waits_no_more(
            StateView { pending: state.pending.remove(data), ..state },
            data,
        ),
        EventView::CaptureAllocated { data, .. } => lemma_capture_failed_waits_no_more(state, data),
        EventView::CaptureFailed { data } => lemma_capture_failed_waits_no_more(state, data),
        EventView::CaptureReady { data, bytes } => lemma_capture_ready_keeps_waiting(
            state,
            data,
            bytes,
        ),
        _ => {},
    }
}

proof fn lemma_pointer_enter_waits_no_more(
    state: StateView,
    serial: u32,
    output: Option<usize>,
    x: i32,
    y: i32,
)
    ensures
        state.pointer_enter(serial, output, x, y).state.activating ==> state.activating,
{
}

proof fn lemma_capture_failed_waits_no_more(state: StateView, data: u32)
    ensures
        !state.capture_failed(data).state.activating,
{
}

proof fn lemma_capture_ready_keeps_waiting(state: StateView, data: u32, bytes: Seq<u8>)
    ensures
        state.capture_ready(data, bytes).state.activating == state.activating,
{
}

/// How many captures a list of actions starts.
pub open spec fn captures(actions: Seq<Action>) -> nat
    decreases actions.len(),
{
    if actions.len() == 0 {
        0
    } else {
        captures(actions.drop_last()) + if actions.last() is CaptureOutput {
            1nat
        } else {
            0nat
        }
    }
}

/// How many captures a list of events leads to.
pub open spec fn captures_in_run(state: StateView, events: Seq<EventView>) -> nat
    decreases events.len(),
{
    if events.len() == 0 {
        0
    } else {
        captures_in_run(state, events.drop_last()) + captures(
            run(state, events.drop_last()).step(events.last()).actions,
        )
    }
}

/// How many times a list of events opens the magnifier.
pub open spec fn openings_in_run(state: StateView, events: Seq<EventView>) -> nat
    decreases events.len(),
{
    if events.len() == 0 {
        0
    } else {
        openings_in_run(state, events.drop_last()) + if opens(
            run(state, events.drop_last()),
            events.last(),
        ) {
            1nat
        } else {
            0nat
        }
    }
}

proof fn lemma_capture_is_found(actions: Seq<Action>)
    requires
        captures(actions) > 0,
    ensures
        exists|j: int| 0 <= j < actions.len() && #[trigger] actions[j] is CaptureOutput,
    decreases actions.len(),
{
    if actions.last() is CaptureOutput {
        assert(actions[actions.len() - 1] is CaptureOutput);
    } else {
        let front = actions.drop_last();
        lemma_capture_is_found(front);
        let j = choose|j: int| 0 <= j < front.len() && #[trigger] front[j] is CaptureOutput;
        assert(actions[j] is CaptureOutput);
    }
}

proof fn lemma_captures_of_one(actions: Seq<Action>)
    requires
        forall|j: int, k: int|
            0 <= j < actions.len() && 0 <= k < actions.len() && #[trigger] actions[j] is CaptureOutput
                && #[trigger] actions[k] is CaptureOutput ==> j == k,
    ensures
        captures(actions) <= 1,
    decreases actions.len(),
{
    if actions.len() > 0 {
        let front = actions.drop_last();
        if actions.last() is CaptureOutput {
            if captures(front) > 0 {
                lemma_capture_is_found(front);
                let j = choose|j: int| 0 <= j < front.len() && #[trigger] front[j] is CaptureOutput;
                assert(actions[j] is CaptureOutput);
                assert(actions[actions.len() - 1] is CaptureOutput);
            }
        } else {
            assert forall|j: int, k: int|
                0 <= j < front.len() && 0 <= k < front.len() && #[trigger] front[j] is CaptureOutput
                    && #[trigger] front[k] is CaptureOutput implies j == k by {
                assert(actions[j] is CaptureOutput && actions[k] is CaptureOutput);
            }
            lemma_captures_of_one(front);
        }
    }
}

/// One event starts one capture at the most, and only where the wait for the
/// pointer ends with it.
proof fn lemma_captures_of_step(state: StateView, event: EventView)
    requires
        state.wf(),
        state.accepts(event),
    ensures
        captures(state.step(event).actions) <= 1,
        captures(state.step(event).actions) > 0 ==> state.activating && !state.step(
            event,
        ).state.activating,
{
    law_captures_are_in_order(state, event);
    let actions = state.step(event).actions;
    lemma_captures_of_one(actions);
    if captures(actions) > 0 {
        lemma_capture_is_found(actions);
    }
}

/// Whatever happens after startup, outputs are captured at most once for each
/// time the magnifier is opened.
pub proof fn law_one_capture_per_opening(
    viewporter: bool,
    cursor_shape_manager: bool,
    events: Seq<EventView>,
)
    requires
        all_accepted(StateView::initial(viewporter, cursor_shape_manager), events),
    ensures
        captures_in_run(StateView::initial(viewporter, cursor_shape_manager), events)
            <= openings_in_run(StateView::initial(viewporter, cursor_shape_manager), events),
{
    lemma_captures_trail_openings(viewporter, cursor_shape_manager, events);
}

/// While the magnifier waits for the pointer, the capture of the last opening
/// is still to come.
proof fn lemma_captures_trail_openings(
    viewporter: bool,
    cursor_shape_manager: bool,
    events: Seq<EventView>,
)
    requires
        all_accepted(StateView::initial(viewporter, cursor_shape_manager), events),
    ensures
        ({
            let start = StateView::initial(viewporter, cursor_shape_manager);
            let waiting: nat = if run(start, events).activating {
                1
            } else {
                0
            };
            captures_in_run(start, events) + waiting <= openings_in_run(start, events)
        }),
    decreases events.len(),
{
    if events.len() > 0 {
        let start = StateView::initial(viewporter, cursor_shape_manager);
        let before = run(start, events.drop_last());
        lemma_captures_trail_openings(viewporter, cursor_shape_manager, events.drop_last());
        law_every_run_is_valid(viewporter, cursor_shape_manager, events.drop_last());
        lemma_captures_of_step(before, events.last());
        if !before.activating && before.step(events.last()).state.activating {
            law_only_opening_waits_for_the_pointer(before, events.last());
        }
    }
}

/// What is announced of a capture is noted as announced, for its output, in
/// place of what was noted before; nothing else changes.
pub proof fn law_announced_captures_are_noted(
    state: StateView,
    data: u32,
    format: Option<u32>,
    width: u32,
    height: u32,
    stride: u32,
)
    ensures
        ({
            let after = state.capture_buffer(data, format, width, height, stride);
            &&& after == (StateView { pending: after.pending, ..state })
            &&& after.pending.dom() == state.pending.dom().insert(data)
            &&& forall|other: u32|
                other != data && state.pending.contains_key(other) ==> #[trigger] after.pending[other]
                    == state.pending[other]
            &&& after.pending[data].format == format
            &&& after.pending[data].width == width as i32
            &&& after.pending[data].height == height as i32
            &&& after.pending[data].stride == stride as i32
            &&& width <= i32::MAX ==> after.pending[data].width == width
            &&& height <= i32::MAX ==> after.pending[data].height == height
            &&& stride <= i32::MAX ==> after.pending[data].stride == stride
        }),
{
}

/// Once all is announced, a buffer of the announced size and format is asked
/// for, and the announcement is used up. A capture that was not announced, or
/// without a format, ends as one that failed.
pub proof fn law_announced_captures_get_a_buffer(state: StateView, data: u32)
    ensures
        ({
            let step = state.capture_buffer_done(data);
            let rest = StateView { pending: state.pending.remove(data), ..state };
            &&& !state.pending.contains_key(data) ==> step == rest.capture_failed(data)
            &&& state.pending.contains_key(data) ==> {
                let noted = state.pending[data];
                &&& noted.format is None ==> step == rest.capture_failed(data)
                &&& noted.format matches Some(format) ==> {
                    &&& step.state == rest
                    &&& step.actions == seq![
                        Action::AllocateCapture {
                            data,
                            shape: BufferShape {
                                width: noted.width,
                                height: noted.height,
                                stride: noted.stride,
                            },
                            format,
                        },
                    ]
                }
            }
        }),
{
}

/// A buffer that was allocated is noted with its shape as it is, and the capture
/// is copied into it; where none could be allocated the capture fails.
pub proof fn law_allocated_buffers_keep_their_shape(
    state: StateView,
    data: u32,
    shape: BufferShape,
)
    ensures
        ({
            let step = state.capture_allocated(data, shape, true);
            &&& step.actions == seq![Action::CopyFrame]
            &&& step.state == (StateView { capture_buffers: step.state.capture_buffers, ..state })
            &&& step.state.capture_buffers.contains_key(data)
            &&& step.state.capture_buffers[data] == shape
            &&& step.state.capture_buffers.dom() == state.capture_buffers.dom().insert(data)
            &&& forall|other: u32|
                other != data && state.capture_buffers.contains_key(other)
                    ==> #[trigger] step.state.capture_buffers[other] == state.capture_buffers[other]
        }),
        state.capture_allocated(data, shape, false) == state.capture_failed(data),
{
}

/// A capture that completes on the magnified output becomes its frame: the bytes
/// as they came, in the shape that the buffer was noted with. The capture is
/// over, its buffer is forgotten, and the overlay comes back.
pub proof fn law_a_complete_capture_is_kept(state: StateView, data: u32, bytes: Seq<u8>)
    requires
        data < state.outputs.len(),
        state.active_output == Some(data as usize),
        state.capture_buffers.contains_key(data),
    ensures
        ({
            let shape = state.capture_buffers[data];
            let step = state.capture_ready(data, bytes);
            let kept = StateView {
                capture_buffers: state.capture_buffers.remove(data),
                outputs: state.outputs.update(
                    data as int,
                    OutputView {
                        capture_in_flight: false,
                        cached: Some(
                            ImageView {
                                width: shape.width,
                                height: shape.height,
                                stride: shape.stride,
                                bytes,
                            },
                        ),
                        ..state.outputs[data as int]
                    },
                ),
                ..state
            };
            let shown = kept.show_active_surface(data as usize);
            &&& step.state == shown.state
            &&& step.actions.len() == 1 + shown.actions.len()
            &&& step.actions[0] == Action::DestroyFrame
            &&& step.actions.skip(1) == shown.actions
        }),
{
    let shape = state.capture_buffers[data];
    let kept = StateView {
        capture_buffers: state.capture_buffers.remove(data),
        outputs: state.outputs.update(
            data as int,
            OutputView {
                capture_in_flight: false,
                cached: Some(
                    ImageView {
                        width: shape.width,
                        height: shape.height,
                        stride: shape.stride,
                        bytes,
                    },
                ),
                ..state.outputs[data as int]
            },
        ),
        ..state
    };
    let step = state.capture_ready(data, bytes);
    assert(step.actions.skip(1) =~= kept.show_active_surface(data as usize).actions);
}

/// A capture that completes on an output that is not the magnified one is over,
/// and that is all: its bytes are dropped.
pub proof fn law_a_late_capture_is_over(state: StateView, data: u32, bytes: Seq<u8>)
    requires
        state.active_output != Some(data as usize),
    ensures
        ({
            let step = state.capture_ready(data, bytes);
            let over = state.capture_buffers.contains_key(data) && data < state.outputs.len();
            &&& step.actions == seq![Action::DestroyFrame]
            &&& !over ==> step.state == (StateView {
                capture_buffers: state.capture_buffers.remove(data),
                ..state
            })
            &&& over ==> step.state == (StateView {
                capture_buffers: state.capture_buffers.remove(data),
                outputs: state.outputs.update(
                    data as int,
                    OutputView { capture_in_flight: false, ..state.outputs[data as int] },
                ),
                ..state
            })
        }),
{
    assert(state.capture_ready(data, bytes).actions =~= seq![Action::DestroyFrame]);
}

/// A capture that completes on the magnified output without a buffer brings no
/// frame: the overlay comes back all the same.
pub proof fn law_a_capture_without_a_buffer_brings_nothing(
    state: StateView,
    data: u32,
    bytes: Seq<u8>,
)
    requires
        state.wf(),
        state.active_output == Some(data as usize),
        !state.capture_buffers.contains_key(data),
    ensures
        ({
            let step = state.capture_ready(data, bytes);
            let shown = state.show_active_surface(data as usize);
            &&& step.state == shown.state
            &&& step.actions.len() == 1 + shown.actions.len()
            &&& step.actions[0] == Action::DestroyFrame
            &&& step.actions.skip(1) == shown.actions
        }),
{
    let step = state.capture_ready(data, bytes);
    assert(state.capture_buffers.remove(data) =~= state.capture_buffers);
    assert(step.actions.skip(1) =~= state.show_active_surface(data as usize).actions);
}

/// A capture that fails is destroyed and over, and then given up.
pub proof fn law_a_failed_capture_is_over(state: StateView, data: u32)
    ensures
        ({
            let step = state.capture_failed(data);
            let over = if data < state.outputs.len() {
                StateView {
                    outputs: state.outputs.update(
                        data as int,
                        OutputView { capture_in_flight: false, ..state.outputs[data as int] },
                    ),
                    ..state
                }
            } else {
                state
            };
            let aborted = over.capture_aborted(data as usize);
            &&& step.state == aborted.state
            &&& step.actions.len() == 1 + aborted.actions.len()
            &&& step.actions[0] == Action::DestroyFrame
            &&& step.actions.skip(1) == aborted.actions
        }),
{
    let over = state.capture_over(data as usize);
    let step = state.capture_failed(data);
    assert(step.actions.skip(1) =~= over.capture_aborted(data as usize).actions);
}

/// From announcement to view: the frame that the magnified output ends up with
/// has the width, the height and the stride that were announced for its
/// capture, and the bytes that were copied. On the way a buffer of just that
/// shape and of the announced format is allocated.
pub proof fn law_a_frame_has_the_announced_shape(
    state: StateView,
    data: u32,
    format: u32,
    width: u32,
    height: u32,
    stride: u32,
    bytes: Seq<u8>,
)
    requires
        data < state.outputs.len(),
        state.active_output == Some(data as usize),
        width <= i32::MAX,
        height <= i32::MAX,
        stride <= i32::MAX,
    ensures
        ({
            let shape = BufferShape {
                width: width as i32,
                height: height as i32,
                stride: stride as i32,
            };
            let noted = state.capture_buffer(data, Some(format), width, height, stride);
            let asked = noted.capture_buffer_done(data);
            let copied = asked.state.capture_allocated(data, shape, true);
            let ready = copied.state.capture_ready(data, bytes);
            &&& asked.actions == seq![Action::AllocateCapture { data, shape, format }]
            &&& copied.actions == seq![Action::CopyFrame]
            &&& ready.state.outputs[data as int].cached matches Some(image) && {
                &&& image.width == width
                &&& image.height == height
                &&& image.stride == stride
                &&& image.bytes == bytes
            }
            &&& ready.state.outputs[data as int].surface
            &&& !ready.state.outputs[data as int].capture_in_flight
        }),
{
}

} // verus!
