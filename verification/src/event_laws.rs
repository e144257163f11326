//! What each event comes to, said of the fields and actions that a user of the
//! magnifier notices.

use crate::command::Command;
use crate::model::{
    Action, BlankFrame, CursorShape, EventView, OutputView, RedrawPlan, StateView,
};
use vstd::prelude::*;

verus! {

/// A step in shows on the magnified output: the level goes up by a quarter, to
/// 6x at the most, and the view is drawn anew, at once or as soon as the frame
/// on screen is over. Where nothing can be drawn yet, only the level changes.
pub proof fn law_a_step_in_shows(state: StateView, i: usize)
    requires
        state.active_output == Some(i),
        i < state.outputs.len(),
    ensures
        ({
            let o = state.outputs[i as int];
            let level: u32 = if state.zoom <= 575 {
                (state.zoom + 25) as u32
            } else {
                600
            };
            let step = state.zoom_in();
            let drawable = o.surface && o.configured && !o.capture_in_flight;
            &&& step.state.zoom == level
            &&& drawable && !o.frame_cb_pending ==> {
                &&& step.actions == seq![Action::Redraw { output: i }]
                &&& step.state == (StateView { zoom: level, ..state })
            }
            &&& drawable && o.frame_cb_pending ==> {
                &&& step.actions == Seq::<Action>::empty()
                &&& step.state == (StateView {
                    zoom: level,
                    outputs: state.outputs.update(
                        i as int,
                        OutputView { redraw_dirty: true, ..o },
                    ),
                    ..state
                })
                &&& i <= u32::MAX ==> step.state.frame_done(i as u32).actions == seq![
                    Action::Redraw { output: i },
                ]
            }
            &&& !drawable ==> {
                &&& step.actions == Seq::<Action>::empty()
                &&& step.state == (StateView { zoom: level, ..state })
            }
        }),
{
}

/// While the magnifier waits for the pointer a step in changes the level only.
pub proof fn law_a_step_in_while_waiting(state: StateView)
    requires
        state.active_output is None,
        state.activating,
    ensures
        state.zoom_in().actions == Seq::<Action>::empty(),
        state.zoom_in().state == (StateView {
            zoom: if state.zoom <= 575 {
                (state.zoom + 25) as u32
            } else {
                600
            },
            ..state
        }),
{
}

/// A step out that stays above 1x shows on the magnified output, as a step in
/// does.
pub proof fn law_a_step_out_shows(state: StateView, i: usize)
    requires
        state.active_output == Some(i),
        i < state.outputs.len(),
        state.zoom > 125,
    ensures
        ({
            let o = state.outputs[i as int];
            let level = (state.zoom - 25) as u32;
            let step = state.zoom_out();
            let drawable = o.surface && o.configured && !o.capture_in_flight;
            &&& drawable && !o.frame_cb_pending ==> {
                &&& step.actions == seq![Action::Redraw { output: i }]
                &&& step.state == (StateView { zoom: level, ..state })
            }
            &&& drawable && o.frame_cb_pending ==> {
                &&& step.actions == Seq::<Action>::empty()
                &&& step.state == (StateView {
                    zoom: level,
                    outputs: state.outputs.update(
                        i as int,
                        OutputView { redraw_dirty: true, ..o },
                    ),
                    ..state
                })
                &&& i <= u32::MAX ==> step.state.frame_done(i as u32).actions == seq![
                    Action::Redraw { output: i },
                ]
            }
            &&& !drawable ==> {
                &&& step.actions == Seq::<Action>::empty()
                &&& step.state == (StateView { zoom: level, ..state })
            }
        }),
{
}

/// A step out from 1.25x or less does what a reset does.
pub proof fn law_the_last_step_out_resets(state: StateView)
    requires
        state.active_output is Some,
        state.zoom <= 125,
    ensures
        state.zoom_out() == state.zoom_reset(),
        state.zoom_out().state.zoom == 100,
{
}

/// The pointer moving on a magnified output with a frame moves the view: its
/// position is noted, and the view is drawn round it, at once or as soon as the
/// frame on screen is over. Nothing else changes.
pub proof fn law_moving_the_pointer_pans(state: StateView, i: usize, x: i32, y: i32)
    requires
        state.active_output == Some(i),
        i < state.outputs.len(),
        state.outputs[i as int].cached is Some,
    ensures
        ({
            let o = state.outputs[i as int];
            let moved = OutputView { focal_x: x, focal_y: y, ..o };
            let step = state.pointer_motion(x, y);
            let drawable = o.surface && o.configured && !o.capture_in_flight;
            &&& drawable && !o.frame_cb_pending ==> {
                &&& step.actions == seq![Action::Redraw { output: i }]
                &&& step.state == (StateView {
                    outputs: state.outputs.update(i as int, moved),
                    ..state
                })
            }
            &&& drawable && o.frame_cb_pending ==> {
                &&& step.actions == Seq::<Action>::empty()
                &&& step.state == (StateView {
                    outputs: state.outputs.update(
                        i as int,
                        OutputView { redraw_dirty: true, ..moved },
                    ),
                    ..state
                })
                &&& i <= u32::MAX ==> {
                    let done = step.state.frame_done(i as u32);
                    &&& done.actions == seq![Action::Redraw { output: i }]
                    &&& done.state.outputs[i as int].focal_x == x
                    &&& done.state.outputs[i as int].focal_y == y
                }
            }
            &&& !drawable ==> {
                &&& step.actions == Seq::<Action>::empty()
                &&& step.state == (StateView {
                    outputs: state.outputs.update(i as int, moved),
                    ..state
                })
            }
        }),
{
}

/// The pointer moving before there is a frame is noted and draws nothing;
/// without a magnified output it does not matter at all.
pub proof fn law_moving_without_a_frame(state: StateView, x: i32, y: i32)
    requires
        state.wf(),
    ensures
        state.active_output is None ==> state.pointer_motion(x, y).state == state,
        state.active_output matches Some(i) ==> state.outputs[i as int].cached is None
            ==> state.pointer_motion(x, y).state == (StateView {
            outputs: state.outputs.update(
                i as int,
                OutputView { focal_x: x, focal_y: y, ..state.outputs[i as int] },
            ),
            ..state
        }),
        (state.active_output matches Some(i) ==> state.outputs[i as int].cached is None)
            ==> state.pointer_motion(x, y).actions == Seq::<Action>::empty(),
{
}

/// A redraw that is asked for happens at once on a configured surface outside
/// of captures, waits for the end of a frame that is still on screen, and is
/// forgotten otherwise.
pub proof fn law_a_redraw_happens_or_waits(state: StateView, i: usize)
    requires
        i < state.outputs.len(),
    ensures
        ({
            let o = state.outputs[i as int];
            let step = state.request_redraw(i);
            let drawable = o.surface && o.configured && !o.capture_in_flight;
            &&& drawable && !o.frame_cb_pending ==> {
                &&& step.actions == seq![Action::Redraw { output: i }]
                &&& step.state == state
            }
            &&& drawable && o.frame_cb_pending ==> {
                &&& step.actions == Seq::<Action>::empty()
                &&& step.state == (StateView {
                    outputs: state.outputs.update(
                        i as int,
                        OutputView { redraw_dirty: true, ..o },
                    ),
                    ..state
                })
            }
            &&& !drawable ==> step.actions == Seq::<Action>::empty() && step.state == state
        }),
{
}

/// The end of a frame clears what was noted of it, and draws a view that
/// changed meanwhile, if its output is still the magnified one.
pub proof fn law_a_frame_ends(state: StateView, data: u32)
    ensures
        data >= state.outputs.len() ==> state.frame_done(data).state == state && state.frame_done(
            data,
        ).actions == Seq::<Action>::empty(),
        data < state.outputs.len() ==> {
            let o = state.outputs[data as int];
            let step = state.frame_done(data);
            &&& step.state == (StateView {
                outputs: state.outputs.update(
                    data as int,
                    OutputView { frame_cb_pending: false, redraw_dirty: false, ..o },
                ),
                ..state
            })
            &&& o.redraw_dirty && state.active_output == Some(data as usize) ==> step.actions
                == seq![Action::Redraw { output: data as usize }]
            &&& !o.redraw_dirty || state.active_output != Some(data as usize) ==> step.actions
                == Seq::<Action>::empty()
        },
{
}

/// A configuration is acknowledged first, by its serial, and gives the overlay
/// its size. The magnified output is then drawn from its frame, as a redraw
/// that is asked for; any other overlay is drawn empty.
pub proof fn law_a_configuration_sizes_the_overlay(
    state: StateView,
    data: u32,
    serial: u32,
    width: u32,
    height: u32,
)
    requires
        data < state.outputs.len(),
    ensures
        ({
            let i = data as int;
            let o = state.outputs[i];
            let sized = OutputView {
                width: width as i32,
                height: height as i32,
                configured: true,
                ..o
            };
            let step = state.configure(data, serial, width, height);
            let framed = state.active_output == Some(data as usize) && o.cached is Some;
            let ack = Action::AckConfigure { serial };
            &&& !framed ==> {
                &&& step.actions == seq![ack, Action::Clear { output: data as usize }]
                &&& step.state == (StateView { outputs: state.outputs.update(i, sized), ..state })
            }
            &&& framed && o.surface && !o.capture_in_flight && !o.frame_cb_pending ==> {
                &&& step.actions == seq![ack, Action::Redraw { output: data as usize }]
                &&& step.state == (StateView { outputs: state.outputs.update(i, sized), ..state })
            }
            &&& framed && o.surface && !o.capture_in_flight && o.frame_cb_pending ==> {
                &&& step.actions == seq![ack]
                &&& step.state == (StateView {
                    outputs: state.outputs.update(i, OutputView { redraw_dirty: true, ..sized }),
                    ..state
                })
            }
            &&& framed && (!o.surface || o.capture_in_flight) ==> {
                &&& step.actions == seq![ack]
                &&& step.state == (StateView { outputs: state.outputs.update(i, sized), ..state })
            }
            &&& width <= i32::MAX ==> step.state.outputs[i].width == width
            &&& height <= i32::MAX ==> step.state.outputs[i].height == height
        }),
{
    let step = state.configure(data, serial, width, height);
    let ack = Action::AckConfigure { serial };
    assert(step.actions =~= seq![ack] || step.actions =~= seq![
        ack,
        Action::Clear { output: data as usize },
    ] || step.actions =~= seq![ack, Action::Redraw { output: data as usize }]);
}

/// The pointer entering anything but an overlay leaves its serial behind and
/// nothing else.
pub proof fn law_entering_elsewhere(
    state: StateView,
    serial: u32,
    output: Option<usize>,
    x: i32,
    y: i32,
)
    requires
        output matches Some(i) ==> i >= state.outputs.len() || !state.outputs[i as int].surface,
    ensures
        state.pointer_enter(serial, output, x, y).state == (StateView {
            last_enter_serial: serial,
            ..state
        }),
        state.pointer_enter(serial, output, x, y).actions == Seq::<Action>::empty(),
{
}

/// The pointer entering an overlay while the magnifier does not wait for it is
/// noted with its position and serial. On the magnified output the busy cursor
/// is set, with the serial of this very entry; on another output nothing is
/// done.
pub proof fn law_entering_an_overlay_again(state: StateView, serial: u32, i: usize, x: i32, y: i32)
    requires
        i < state.outputs.len(),
        state.outputs[i as int].surface,
        !state.activating,
    ensures
        state.pointer_enter(serial, Some(i), x, y).state == (StateView {
            last_enter_serial: serial,
            outputs: state.outputs.update(
                i as int,
                OutputView { focal_x: x, focal_y: y, ..state.outputs[i as int] },
            ),
            ..state
        }),
        state.active_output == Some(i) && state.has_cursor_shape_device ==> state.pointer_enter(
            serial,
            Some(i),
            x,
            y,
        ).actions == seq![Action::SetCursorShape { serial, shape: CursorShape::Wait }],
        state.active_output != Some(i) || !state.has_cursor_shape_device ==> state.pointer_enter(
            serial,
            Some(i),
            x,
            y,
        ).actions == Seq::<Action>::empty(),
{
    let step = state.pointer_enter(serial, Some(i), x, y);
    assert(step.actions =~= Seq::<Action>::empty() || step.actions =~= seq![
        Action::SetCursorShape { serial, shape: CursorShape::Wait },
    ]);
}

/// An output that is announced is bound as the next one, at version 4 at the
/// most, and starts out unknown, without a size, an overlay or a frame.
pub proof fn law_outputs_are_added(state: StateView, startup: bool, global: u32, version: u32)
    ensures
        ({
            let step = state.announce(startup, global, "wl_output"@, version);
            let n = state.outputs.len();
            &&& step.actions == seq![
                Action::BindOutput {
                    global,
                    version: if version < 4 {
                        version
                    } else {
                        4
                    },
                    output: n as usize,
                },
            ]
            &&& step.state == (StateView { outputs: step.state.outputs, ..state })
            &&& step.state.outputs == state.outputs.push(
                OutputView {
                    name: "unknown"@,
                    surface: false,
                    layer_surface: false,
                    viewport: false,
                    width: 0,
                    height: 0,
                    configured: false,
                    focal_x: 0,
                    focal_y: 0,
                    frame_cb_pending: false,
                    redraw_dirty: false,
                    capture_in_flight: false,
                    cached: None,
                },
            )
        }),
{
}

/// An output is added under the name it is given, and nothing else changes.
pub proof fn law_outputs_are_added_by_name(state: StateView, name: Seq<char>)
    ensures
        state.add_output(name) == (StateView {
            outputs: state.add_output(name).outputs,
            ..state
        }),
        state.add_output(name).outputs.len() == state.outputs.len() + 1,
        state.add_output(name).outputs.drop_last() == state.outputs,
        state.add_output(name).outputs.last().name == name,
        !state.add_output(name).outputs.last().surface,
        state.add_output(name).outputs.last().cached is None,
        !state.add_output(name).outputs.last().capture_in_flight,
{
    assert(state.add_output(name).outputs.drop_last() =~= state.outputs);
}

/// A seat that is announced is bound, at version 7 at the most, and brings the
/// pointer: at startup each seat, later only where there is no pointer yet. The
/// cursor shape device follows, once, where shapes are on offer.
pub proof fn law_seats_bring_the_pointer(
    state: StateView,
    startup: bool,
    global: u32,
    version: u32,
)
    ensures
        ({
            let step = state.announce(startup, global, "wl_seat"@, version);
            let bind = Action::BindSeat {
                global,
                version: if version < 7 {
                    version
                } else {
                    7
                },
            };
            let taken = startup || !state.has_pointer;
            let device = state.has_cursor_shape_manager && !state.has_cursor_shape_device;
            &&& taken && device ==> {
                &&& step.actions == seq![bind, Action::CreateCursorShapeDevice]
                &&& step.state == (StateView {
                    has_pointer: true,
                    has_cursor_shape_device: true,
                    ..state
                })
            }
            &&& taken && !device ==> {
                &&& step.actions == seq![bind]
                &&& step.state == (StateView { has_pointer: true, ..state })
            }
            &&& !taken ==> step.actions == Seq::<Action>::empty() && step.state == state
        }),
{
    reveal_strlit("wl_seat");
    reveal_strlit("wl_output");
    assert("wl_seat"@.len() == 7 && "wl_output"@.len() == 9);
    let step = state.announce(startup, global, "wl_seat"@, version);
    assert(step.actions.len() == 2 ==> step.actions =~= seq![step.actions[0], step.actions[1]]);
    assert(step.actions.len() == 1 ==> step.actions =~= seq![step.actions[0]]);
}

/// Other globals are passed over.
pub proof fn law_other_globals_are_passed_over(
    state: StateView,
    startup: bool,
    global: u32,
    interface: Seq<char>,
    version: u32,
)
    requires
        interface != "wl_output"@,
        interface != "wl_seat"@,
    ensures
        state.announce(startup, global, interface, version).state == state,
        state.announce(startup, global, interface, version).actions == Seq::<Action>::empty(),
{
}

/// The cursor shape device is made where there are a pointer, a manager and no
/// device yet, and only there.
pub proof fn law_the_cursor_shape_device_is_made_once(state: StateView)
    ensures
        state.has_pointer && state.has_cursor_shape_manager && !state.has_cursor_shape_device ==> {
            &&& state.ensure_cursor_shape_device().actions == seq![Action::CreateCursorShapeDevice]
            &&& state.ensure_cursor_shape_device().state == (StateView {
                has_cursor_shape_device: true,
                ..state
            })
        },
        !state.has_pointer || !state.has_cursor_shape_manager || state.has_cursor_shape_device ==> {
            &&& state.ensure_cursor_shape_device().actions == Seq::<Action>::empty()
            &&& state.ensure_cursor_shape_device().state == state
        },
{
}

/// An output takes the name it is given; no other output does.
pub proof fn law_outputs_take_their_names(state: StateView, output: Option<usize>, name: Seq<char>)
    ensures
        output matches Some(i) ==> i < state.outputs.len() ==> state.output_name(output, name) == (
        StateView {
            outputs: state.outputs.update(
                i as int,
                OutputView { name, ..state.outputs[i as int] },
            ),
            ..state
        }),
        (output matches Some(i) ==> i >= state.outputs.len()) ==> state.output_name(output, name)
            == state,
{
}

/// A frame is planned for an output with a surface, a size and a cached frame,
/// and for no other.
pub proof fn law_frames_are_planned_where_there_is_a_view(output: OutputView, zoom: u32)
    ensures
        output.plan(zoom) is Some <==> output.surface && output.width != 0 && output.height != 0
            && output.cached is Some,
{
}

/// A planned frame shows the current level round the pointer: it carries the
/// zoom level as it is, where the pointer is, the size of the surface and that
/// of the cached image. It is as large as the image where a viewport presents
/// it, else as large as the surface, in rows of four bytes a pixel.
pub proof fn law_a_plan_shows_the_current_view(output: OutputView, zoom: u32, plan: RedrawPlan)
    requires
        output.plan(zoom) == Some(plan),
    ensures
        plan.zoom == zoom,
        plan.focal_x == output.focal_x,
        plan.focal_y == output.focal_y,
        plan.logical_w == output.width,
        plan.logical_h == output.height,
        output.cached matches Some(image) && plan.src_w == image.width && plan.src_h
            == image.height,
        output.viewport ==> plan.px_w == plan.src_w && plan.px_h == plan.src_h,
        !output.viewport ==> plan.px_w == plan.logical_w && plan.px_h == plan.logical_h,
        plan.stride matches Some(stride) ==> stride == 4 * plan.px_w,
        plan.stride is None <==> !(i32::MIN <= 4 * plan.px_w <= i32::MAX),
        plan.format == 0,
{
}

/// An empty frame is drawn for an output with a surface and a size, and has the
/// size of the surface.
pub proof fn law_empty_frames_cover_the_surface(output: OutputView)
    ensures
        output.blank() is Some <==> output.surface && output.width != 0 && output.height != 0,
        output.blank() matches Some(blank) ==> {
            &&& blank.width == output.width
            &&& blank.height == output.height
            &&& (blank.stride matches Some(stride) ==> stride == 4 * output.width)
            &&& (blank.stride is None <==> !(i32::MIN <= 4 * output.width <= i32::MAX))
            &&& blank.format == 0
        },
{
}

/// A frame that was drawn goes on screen as a whole: the buffer is attached at
/// scale one, presented at the logical size where there is a viewport, all of
/// it marked as changed, and committed last. The end of the frame is asked for
/// unless it is owed already.
pub proof fn law_a_drawn_frame_goes_on_screen(state: StateView, i: usize, plan: RedrawPlan)
    requires
        i < state.outputs.len(),
        state.outputs[i as int].surface,
    ensures
        ({
            let o = state.outputs[i as int];
            let step = state.present_frame(i, plan);
            let attach = Action::AttachBuffer { output: i };
            let scale = Action::SetBufferScale { output: i, scale: 1 };
            let destination = Action::SetDestination {
                output: i,
                width: plan.logical_w,
                height: plan.logical_h,
            };
            let damage = Action::DamageBuffer {
                output: i,
                x: 0,
                y: 0,
                width: plan.px_w,
                height: plan.px_h,
            };
            let frame = Action::RequestFrame { output: i, data: i as u32 };
            let commit = Action::Commit { output: i };
            &&& step.state == (StateView {
                outputs: state.outputs.update(
                    i as int,
                    OutputView { frame_cb_pending: true, ..o },
                ),
                ..state
            })
            &&& o.viewport && !o.frame_cb_pending ==> step.actions == seq![
                attach,
                scale,
                destination,
                damage,
                frame,
                commit,
            ]
            &&& o.viewport && o.frame_cb_pending ==> step.actions == seq![
                attach,
                scale,
                destination,
                damage,
                commit,
            ]
            &&& !o.viewport && !o.frame_cb_pending ==> step.actions == seq![
                attach,
                scale,
                damage,
                frame,
                commit,
            ]
            &&& !o.viewport && o.frame_cb_pending ==> step.actions == seq![
                attach,
                scale,
                damage,
                commit,
            ]
        }),
{
}

/// An empty frame that was drawn goes on screen as a whole and changes nothing
/// in the state.
pub proof fn law_an_empty_frame_goes_on_screen(state: StateView, i: usize, blank: BlankFrame)
    requires
        i < state.outputs.len(),
        state.outputs[i as int].surface,
    ensures
        state.present_clear(i, blank).state == state,
        state.present_clear(i, blank).actions == seq![
            Action::AttachBuffer { output: i },
            Action::SetBufferScale { output: i, scale: 1 },
            Action::DamageBuffer {
                output: i,
                x: 0,
                y: 0,
                width: blank.width,
                height: blank.height,
            },
            Action::Commit { output: i },
        ],
{
}

/// What was drawn for a surface that is gone is dropped.
pub proof fn law_frames_without_a_surface_are_dropped(
    state: StateView,
    i: usize,
    plan: RedrawPlan,
    blank: BlankFrame,
)
    requires
        i < state.outputs.len(),
        !state.outputs[i as int].surface,
    ensures
        state.present_frame(i, plan).state == state,
        state.present_frame(i, plan).actions == Seq::<Action>::empty(),
        state.present_clear(i, blank).state == state,
        state.present_clear(i, blank).actions == Seq::<Action>::empty(),
{
}

/// The daemon starts closed at 1x, knowing nothing but what the compositor
/// offers.
pub proof fn law_the_daemon_starts_knowing_nothing(viewporter: bool, cursor_shape_manager: bool)
    ensures
        ({
            let state = StateView::initial(viewporter, cursor_shape_manager);
            &&& state.outputs.len() == 0
            &&& state.zoom == 100
            &&& state.active_output is None
            &&& !state.activating
            &&& !state.exit
            &&& state.last_enter_serial == 0
            &&& state.has_viewporter == viewporter
            &&& state.has_cursor_shape_manager == cursor_shape_manager
            &&& !state.has_cursor_shape_device
            &&& !state.has_pointer
            &&& state.pending == Map::<u32, crate::model::PendingCapture>::empty()
            &&& state.capture_buffers == Map::<u32, crate::model::BufferShape>::empty()
        }),
{
}

/// Every event reaches the part of the daemon that it is for, with all that it
/// says.
pub proof fn law_events_reach_their_handlers(
    state: StateView,
    a: u32,
    b: u32,
    c: u32,
    d: u32,
    x: i32,
    y: i32,
    flag: bool,
    output: Option<usize>,
    i: usize,
    format: Option<u32>,
    text: Seq<char>,
    bytes: Seq<u8>,
)
    ensures
        state.step(EventView::Command(Command::In)) == state.zoom_in(),
        state.step(EventView::Command(Command::Out)) == state.zoom_out(),
        state.step(EventView::Command(Command::Reset)) == state.zoom_reset(),
        state.obey(Command::In) == state.zoom_in(),
        state.obey(Command::Out) == state.zoom_out(),
        state.obey(Command::Reset) == state.zoom_reset(),
        state.step(
            EventView::Global { startup: flag, global: a, interface: text, version: b },
        ) == state.announce(flag, a, text, b),
        state.step(EventView::OutputName { output, name: text }).state == state.output_name(
            output,
            text,
        ),
        state.step(EventView::OutputName { output, name: text }).actions == Seq::<Action>::empty(),
        state.step(EventView::PointerEnter { serial: a, output, x, y }) == state.pointer_enter(
            a,
            output,
            x,
            y,
        ),
        state.step(EventView::PointerMotion { x, y }) == state.pointer_motion(x, y),
        state.step(EventView::Configure { data: a, serial: b, width: c, height: d })
            == state.configure(a, b, c, d),
        state.step(EventView::FrameDone { data: a }) == state.frame_done(a),
        state.step(
            EventView::CaptureBuffer { data: a, format, width: b, height: c, stride: d },
        ).state == state.capture_buffer(a, format, b, c, d),
        state.step(
            EventView::CaptureBuffer { data: a, format, width: b, height: c, stride: d },
        ).actions == Seq::<Action>::empty(),
        state.step(EventView::CaptureBufferDone { data: a }) == state.capture_buffer_done(a),
        state.step(EventView::CaptureReady { data: a, bytes }) == state.capture_ready(a, bytes),
        state.step(EventView::CaptureFailed { data: a }) == state.capture_failed(a),
        forall|shape: crate::model::BufferShape|
            #[trigger] state.step(
                EventView::CaptureAllocated { data: a, shape, allocated: flag },
            ) == state.capture_allocated(a, shape, flag),
        forall|plan: RedrawPlan|
            #[trigger] state.step(EventView::Drawn { output: i, plan }) == state.present_frame(
                i,
                plan,
            ),
        forall|blank: BlankFrame|
            #[trigger] state.step(EventView::Cleared { output: i, blank }) == state.present_clear(
                i,
                blank,
            ),
{
}

/// Every event can happen at any time, but that configurations and drawn frames
/// are of outputs that exist.
pub proof fn law_events_can_happen_at_any_time(state: StateView, event: EventView)
    ensures
        !(event is Configure) && !(event is Drawn) && !(event is Cleared) ==> state.accepts(event),
        event matches EventView::Configure { data, .. } ==> (state.accepts(event) <==> data
            < state.outputs.len()),
        event matches EventView::Drawn { output, .. } ==> (state.accepts(event) <==> output
            < state.outputs.len()),
        event matches EventView::Cleared { output, .. } ==> (state.accepts(event) <==> output
            < state.outputs.len()),
{
}

} // verus!
