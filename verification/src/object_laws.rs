//! The objects behind the actions.
//!
//! The program around the library keeps the compositor's objects: for each
//! output a surface, its layer role and its viewport, and the pointer with its
//! cursor shape device. Here it is proved that the actions, performed in
//! order, never use an object that is not there, never create one twice, and
//! leave exactly the objects that the state says are there.

use crate::command::Command;
use crate::model::{
    Action, BlankFrame, CursorShape, EventView, OutputView, RedrawPlan, StateView,
};
use crate::session_laws::{all_accepted, law_every_run_is_valid, run};
use crate::transition::{grabs, shows, teardowns, Step};
use crate::zoom::{zoomed_in, zoomed_out, MIN_ZOOM};
use vstd::prelude::*;

verus! {

/// The objects of one output's overlay.
#[verifier::ext_equal]
pub struct Objects {
    pub surface: bool,
    pub role: bool,
    pub viewport: bool,
}

/// All objects.
#[verifier::ext_equal]
pub struct Held {
    pub overlays: Seq<Objects>,
    pub pointer: bool,
    pub cursor_shape_device: bool,
}

impl OutputView {
    /// The objects that an output says its overlay has.
    pub open spec fn objects(self) -> Objects {
        Objects { surface: self.surface, role: self.layer_surface, viewport: self.viewport }
    }
}

impl StateView {
    /// The objects that a state says are there.
    pub open spec fn held(self) -> Held {
        Held {
            overlays: Seq::new(self.outputs.len(), |i: int| self.outputs[i].objects()),
            pointer: self.has_pointer,
            cursor_shape_device: self.has_cursor_shape_device,
        }
    }
}

impl Held {
    /// These objects with those of one overlay changed.
    pub open spec fn with_overlay(self, i: usize, objects: Objects) -> Held {
        Held { overlays: self.overlays.update(i as int, objects), ..self }
    }

    /// The objects after an action, or `None` where the action asks for what
    /// cannot be done: to use an object that is not there, to create one that
    /// is, or to destroy a surface before its role and its viewport.
    pub open spec fn after(self, action: Action) -> Option<Held> {
        match action {
            Action::BindOutput { output, .. } => if output == self.overlays.len() {
                Some(
                    Held {
                        overlays: self.overlays.push(
                            Objects { surface: false, role: false, viewport: false },
                        ),
                        ..self
                    },
                )
            } else {
                None
            },
            Action::BindSeat { .. } => Some(Held { pointer: true, ..self }),
            Action::CreateCursorShapeDevice => if self.pointer && !self.cursor_shape_device {
                Some(Held { cursor_shape_device: true, ..self })
            } else {
                None
            },
            Action::SetCursorShape { .. } => if self.cursor_shape_device {
                Some(self)
            } else {
                None
            },
            Action::CreateSurface { output } => if output < self.overlays.len()
                && !self.overlays[output as int].surface {
                Some(
                    self.with_overlay(
                        output,
                        Objects { surface: true, ..self.overlays[output as int] },
                    ),
                )
            } else {
                None
            },
            Action::CreateLayerSurface { output, .. } => if self.has_surface(output)
                && !self.overlays[output as int].role {
                Some(
                    self.with_overlay(output, Objects { role: true, ..self.overlays[output as int] }),
                )
            } else {
                None
            },
            Action::CreateViewport { output } => if self.has_surface(output)
                && !self.overlays[output as int].viewport {
                Some(
                    self.with_overlay(
                        output,
                        Objects { viewport: true, ..self.overlays[output as int] },
                    ),
                )
            } else {
                None
            },
            Action::DestroyViewport { output } => if self.has_surface(output)
                && self.overlays[output as int].viewport {
                Some(
                    self.with_overlay(
                        output,
                        Objects { viewport: false, ..self.overlays[output as int] },
                    ),
                )
            } else {
                None
            },
            Action::DestroyLayerSurface { output } => if self.has_surface(output)
                && self.overlays[output as int].role {
                Some(
                    self.with_overlay(
                        output,
                        Objects { role: false, ..self.overlays[output as int] },
                    ),
                )
            } else {
                None
            },
            Action::DestroySurface { output } => if self.has_surface(output)
                && !self.overlays[output as int].role && !self.overlays[output as int].viewport {
                Some(
                    self.with_overlay(
                        output,
                        Objects { surface: false, ..self.overlays[output as int] },
                    ),
                )
            } else {
                None
            },
            Action::SetInputRegion { output, .. } => self.if_surface(output),
            Action::Commit { output } => self.if_surface(output),
            Action::AttachBuffer { output } => self.if_surface(output),
            Action::SetBufferScale { output, .. } => self.if_surface(output),
            Action::DamageBuffer { output, .. } => self.if_surface(output),
            Action::RequestFrame { output, .. } => self.if_surface(output),
            Action::SetDestination { output, .. } => if self.has_surface(output)
                && self.overlays[output as int].viewport {
                Some(self)
            } else {
                None
            },
            Action::CaptureOutput { output, .. } => if output < self.overlays.len() {
                Some(self)
            } else {
                None
            },
            Action::Redraw { output } => self.if_surface(output),
            Action::Clear { output } => if output < self.overlays.len() {
                Some(self)
            } else {
                None
            },
            Action::AckConfigure { .. } => Some(self),
            Action::AllocateCapture { .. } => Some(self),
            Action::CopyFrame => Some(self),
            Action::DestroyFrame => Some(self),
        }
    }

    /// Whether the overlay of an output has a surface.
    pub open spec fn has_surface(self, output: usize) -> bool {
        output < self.overlays.len() && self.overlays[output as int].surface
    }

    /// These objects, where the overlay of an output has a surface.
    pub open spec fn if_surface(self, output: usize) -> Option<Held> {
        if self.has_surface(output) {
            Some(self)
        } else {
            None
        }
    }

    /// The objects after a list of actions, or `None` where one of them cannot
    /// be done.
    pub open spec fn after_all(self, actions: Seq<Action>) -> Option<Held>
        decreases actions.len(),
    {
        if actions.len() == 0 {
            Some(self)
        } else {
            match self.after_all(actions.drop_last()) {
                Some(held) => held.after(actions.last()),
                None => None,
            }
        }
    }
}

/// Whether the actions of a step can be performed and leave the objects that
/// the new state says are there.
pub open spec fn in_step(state: StateView, step: Step) -> bool {
    state.held().after_all(step.actions) == Some(step.state.held())
}

proof fn lemma_push(held: Held, actions: Seq<Action>, action: Action)
    ensures
        held.after_all(actions.push(action)) == match held.after_all(actions) {
            Some(next) => next.after(action),
            None => None,
        },
{
    assert(actions.push(action).drop_last() == actions);
}

proof fn lemma_concat(held: Held, first: Seq<Action>, second: Seq<Action>)
    ensures
        held.after_all(first + second) == match held.after_all(first) {
            Some(next) => next.after_all(second),
            None => None,
        },
    decreases second.len(),
{
    if second.len() == 0 {
        assert(first + second == first);
    } else {
        lemma_concat(held, first, second.drop_last());
        assert((first + second).drop_last() == first + second.drop_last());
    }
}

proof fn lemma_one(held: Held, action: Action)
    ensures
        held.after_all(seq![action]) == held.after(action),
{
    lemma_push(held, seq![], action);
}

proof fn lemma_show(held: Held, output: OutputView, i: usize, viewporter: bool)
    requires
        i < held.overlays.len(),
        held.overlays[i as int] == output.objects(),
        output.consistent(viewporter),
    ensures
        held.after_all(output.show_actions(i, viewporter)) == Some(
            held.with_overlay(i, output.shown(viewporter).objects()),
        ),
{
    if output.surface {
        assert(held.overlays.update(i as int, output.objects()) == held.overlays);
    } else {
        let a = Action::CreateSurface { output: i };
        let b = Action::SetInputRegion { output: i, region: crate::model::Region::Empty };
        let c = Action::CreateLayerSurface {
            output: i,
            data: i as u32,
            setup: crate::transition::overlay_setup(),
        };
        let d = Action::CreateViewport { output: i };
        let e = Action::Commit { output: i };
        let start = Seq::<Action>::empty();
        lemma_push(held, start, a);
        lemma_push(held, start.push(a), b);
        lemma_push(held, start.push(a).push(b), c);
        let first = start.push(a).push(b).push(c);
        assert(first == seq![a, b, c]);
        let with_role = held.with_overlay(
            i,
            Objects { surface: true, role: true, viewport: false },
        );
        assert(held.after_all(first) == Some(with_role));
        if viewporter {
            lemma_push(held, first, d);
            lemma_push(held, first.push(d), e);
            assert(output.show_actions(i, viewporter) == first.push(d).push(e));
            assert(with_role.with_overlay(
                i,
                Objects { surface: true, role: true, viewport: true },
            ) == held.with_overlay(i, Objects { surface: true, role: true, viewport: true }));
        } else {
            lemma_push(held, first, e);
            assert(output.show_actions(i, viewporter) == first.push(e));
        }
    }
}

proof fn lemma_teardown(held: Held, output: OutputView, i: usize, viewporter: bool)
    requires
        i < held.overlays.len(),
        held.overlays[i as int] == output.objects(),
        output.consistent(viewporter),
    ensures
        held.after_all(output.teardown_actions(i)) == Some(
            held.with_overlay(i, output.torn_down().objects()),
        ),
{
    let gone = Objects { surface: false, role: false, viewport: false };
    if output.surface {
        let a = Action::DestroyViewport { output: i };
        let b = Action::DestroyLayerSurface { output: i };
        let c = Action::DestroySurface { output: i };
        let start = Seq::<Action>::empty();
        let first = if output.viewport {
            start.push(a)
        } else {
            start
        };
        lemma_push(held, start, a);
        lemma_push(held, first, b);
        lemma_push(held, first.push(b), c);
        assert(output.teardown_actions(i) == first.push(b).push(c));
        let bare = held.with_overlay(i, Objects { surface: true, role: true, viewport: false });
        assert(bare == held || output.viewport);
        assert(held.after_all(first) == Some(bare));
        let plain = held.with_overlay(i, Objects { surface: true, role: false, viewport: false });
        assert(bare.with_overlay(i, Objects { role: false, ..bare.overlays[i as int] }) == plain);
        assert(plain.with_overlay(i, gone) == held.with_overlay(i, gone));
    } else {
        assert(output.teardown_actions(i) == Seq::<Action>::empty());
        assert(held.with_overlay(i, gone) == held);
    }
}

/// The outputs of a state match the overlays that are held.
spec fn overlays_match(held: Held, outputs: Seq<OutputView>, viewporter: bool) -> bool {
    &&& outputs.len() <= usize::MAX
    &&& held.overlays.len() == outputs.len()
    &&& forall|i: int|
        0 <= i < outputs.len() ==> #[trigger] held.overlays[i] == outputs[i].objects()
    &&& forall|i: int|
        0 <= i < outputs.len() ==> (#[trigger] outputs[i]).consistent(viewporter)
}

proof fn lemma_shows(held: Held, outputs: Seq<OutputView>, viewporter: bool, n: nat)
    requires
        overlays_match(held, outputs, viewporter),
        n <= outputs.len(),
    ensures
        held.after_all(shows(outputs, viewporter, n)) == Some(
            Held {
                overlays: Seq::new(
                    outputs.len(),
                    |i: int|
                        if i < n {
                            outputs[i].shown(viewporter).objects()
                        } else {
                            outputs[i].objects()
                        },
                ),
                ..held
            },
        ),
    decreases n,
{
    let goal = Held {
        overlays: Seq::new(
            outputs.len(),
            |i: int|
                if i < n {
                    outputs[i].shown(viewporter).objects()
                } else {
                    outputs[i].objects()
                },
        ),
        ..held
    };
    if n == 0 {
        assert(goal == held);
    } else {
        let m = (n - 1) as nat;
        lemma_shows(held, outputs, viewporter, m);
        let before = held.after_all(shows(outputs, viewporter, m)).unwrap();
        let k = m as usize;
        lemma_concat(
            held,
            shows(outputs, viewporter, m),
            outputs[m as int].show_actions(k, viewporter),
        );
        lemma_show(before, outputs[m as int], k, viewporter);
        assert(before.with_overlay(k, outputs[m as int].shown(viewporter).objects()) == goal);
    }
}

proof fn lemma_grabs(held: Held, n: nat)
    requires
        n <= held.overlays.len() <= usize::MAX,
        forall|i: int| 0 <= i < held.overlays.len() ==> (#[trigger] held.overlays[i]).surface,
    ensures
        held.after_all(grabs(n)) == Some(held),
    decreases n,
{
    if n > 0 {
        let m = (n - 1) as nat;
        lemma_grabs(held, m);
        let a = Action::SetInputRegion {
            output: m as usize,
            region: crate::transition::full_region(),
        };
        let b = Action::Commit { output: m as usize };
        lemma_push(held, grabs(m), a);
        lemma_push(held, grabs(m).push(a), b);
        assert(grabs(n) == grabs(m).push(a).push(b));
        assert(held.overlays[m as int].surface);
    }
}

proof fn lemma_teardowns(
    held: Held,
    outputs: Seq<OutputView>,
    viewporter: bool,
    kept: Option<usize>,
    n: nat,
)
    requires
        overlays_match(held, outputs, viewporter),
        n <= outputs.len(),
    ensures
        held.after_all(teardowns(outputs, kept, n)) == Some(
            Held {
                overlays: Seq::new(
                    outputs.len(),
                    |i: int|
                        if i >= n || (kept matches Some(k) && k == i) {
                            outputs[i].objects()
                        } else {
                            outputs[i].torn_down().objects()
                        },
                ),
                ..held
            },
        ),
    decreases n,
{
    let goal = Held {
        overlays: Seq::new(
            outputs.len(),
            |i: int|
                if i >= n || (kept matches Some(k) && k == i) {
                    outputs[i].objects()
                } else {
                    outputs[i].torn_down().objects()
                },
        ),
        ..held
    };
    if n == 0 {
        assert(goal == held);
    } else {
        let m = (n - 1) as nat;
        let k = m as usize;
        lemma_teardowns(held, outputs, viewporter, kept, m);
        let before = held.after_all(teardowns(outputs, kept, m)).unwrap();
        if kept == Some(k) {
            assert(teardowns(outputs, kept, n) == teardowns(outputs, kept, m));
            assert(before == goal);
        } else {
            lemma_concat(
                held,
                teardowns(outputs, kept, m),
                outputs[m as int].teardown_actions(k),
            );
            lemma_teardown(before, outputs[m as int], k, viewporter);
            assert(before.with_overlay(k, outputs[m as int].torn_down().objects()) == goal);
        }
    }
}

proof fn lemma_cursor(held: Held, state: StateView, serial: u32, shape: CursorShape)
    requires
        held.cursor_shape_device == state.has_cursor_shape_device,
    ensures
        held.after_all(state.cursor_actions(serial, shape)) == Some(held),
{
    lemma_one(held, Action::SetCursorShape { serial, shape });
}

proof fn lemma_request_redraw(state: StateView, i: usize)
    requires
        i < state.outputs.len(),
    ensures
        in_step(state, state.request_redraw(i)),
{
    let step = state.request_redraw(i);
    lemma_push(state.held(), seq![], Action::Redraw { output: i });
    assert(step.state.held() == state.held());
}

proof fn lemma_deactivate(state: StateView)
    requires
        state.valid(),
        state.outputs.len() <= usize::MAX,
    ensures
        in_step(state, state.deactivate()),
{
    let held = state.held();
    let cursor = state.cursor_actions(state.last_enter_serial, CursorShape::Default);
    lemma_cursor(held, state, state.last_enter_serial, CursorShape::Default);
    lemma_concat(held, cursor, teardowns(state.outputs, None, state.outputs.len()));
    lemma_teardowns(held, state.outputs, state.has_viewporter, None, state.outputs.len());
    assert(held.after_all(teardowns(state.outputs, None, state.outputs.len())).unwrap()
        == state.deactivate().state.held());
}

proof fn lemma_tear_down_all(state: StateView, kept: Option<usize>)
    requires
        overlays_match(state.held(), state.outputs, state.has_viewporter),
    ensures
        in_step(state, state.tear_down_all(kept)),
{
    lemma_teardowns(state.held(), state.outputs, state.has_viewporter, kept, state.outputs.len());
    assert(state.held().after_all(
        teardowns(state.outputs, kept, state.outputs.len()),
    ).unwrap() == state.tear_down_all(kept).state.held());
}

proof fn lemma_zoom_in(state: StateView)
    requires
        state.valid(),
        state.outputs.len() <= usize::MAX,
    ensures
        in_step(state, state.zoom_in()),
{
    let held = state.held();
    match state.active_output {
        Some(i) => {
            let zoomed = StateView { zoom: zoomed_in(state.zoom), ..state };
            assert(zoomed.held() == held);
            lemma_request_redraw(zoomed, i);
        },
        None => {
            if !state.activating {
                let n = state.outputs.len();
                lemma_shows(held, state.outputs, state.has_viewporter, n);
                let shown = held.after_all(shows(state.outputs, state.has_viewporter, n)).unwrap();
                lemma_concat(held, shows(state.outputs, state.has_viewporter, n), grabs(n));
                lemma_grabs(shown, n);
                assert(shown == state.zoom_in().state.held());
            } else {
                assert(state.zoom_in().state.held() == held);
            }
        },
    }
}

proof fn lemma_obey(state: StateView, command: Command)
    requires
        state.valid(),
        state.outputs.len() <= usize::MAX,
    ensures
        in_step(state, state.obey(command)),
{
    match command {
        Command::In => lemma_zoom_in(state),
        Command::Out => {
            let zoomed = StateView { zoom: zoomed_out(state.zoom), ..state };
            assert(zoomed.held() == state.held());
            match state.active_output {
                Some(i) => {
                    if zoomed.zoom <= MIN_ZOOM {
                        lemma_deactivate(zoomed);
                    } else {
                        lemma_request_redraw(zoomed, i);
                    }
                },
                None => {},
            }
        },
        Command::Reset => {
            let zoomed = StateView { zoom: MIN_ZOOM, ..state };
            assert(zoomed.held() == state.held());
            lemma_deactivate(zoomed);
        },
    }
}

proof fn lemma_announce(
    state: StateView,
    startup: bool,
    global: u32,
    interface: Seq<char>,
    version: u32,
)
    requires
        state.outputs.len() <= usize::MAX,
    ensures
        in_step(state, state.announce(startup, global, interface, version)),
{
    let held = state.held();
    let step = state.announce(startup, global, interface, version);
    if interface == "wl_output"@ {
        lemma_one(held, step.actions[0]);
        assert(step.actions == seq![step.actions[0]]);
        assert(held.after(step.actions[0]).unwrap() == step.state.held());
    } else if interface == "wl_seat"@ && (startup || !state.has_pointer) {
        let seat = StateView { has_pointer: true, ..state };
        let bind = step.actions[0];
        lemma_one(held, bind);
        assert(seat.held() == Held { pointer: true, ..held });
        let device = seat.ensure_cursor_shape_device();
        lemma_one(seat.held(), Action::CreateCursorShapeDevice);
        assert(in_step(seat, device)) by {
            assert(device.state.held() == Held {
                cursor_shape_device: device.state.has_cursor_shape_device,
                ..seat.held()
            });
        }
        lemma_concat(held, seq![bind], device.actions);
        assert(step.actions == seq![bind] + device.actions);
    }
}

proof fn lemma_activate_output(state: StateView, i: usize)
    requires
        i < state.outputs.len(),
        state.outputs[i as int].consistent(state.has_viewporter),
    ensures
        in_step(state, state.activate_output(i)),
{
    let held = state.held();
    let output = state.outputs[i as int];
    let step = state.activate_output(i);
    if !output.capture_in_flight {
        lemma_teardown(held, output, i, state.has_viewporter);
        lemma_push(held, output.teardown_actions(i), step.actions.last());
        assert(held.with_overlay(i, output.torn_down().objects()) == step.state.held());
    }
}

proof fn lemma_pointer_enter(state: StateView, serial: u32, output: Option<usize>, x: i32, y: i32)
    requires
        state.valid(),
        state.outputs.len() <= usize::MAX,
    ensures
        in_step(state, state.pointer_enter(serial, output, x, y)),
{
    let held = state.held();
    let entered = StateView { last_enter_serial: serial, ..state };
    assert(entered.held() == held);
    if let Some(i) = output {
        if i < state.outputs.len() && state.outputs[i as int].surface {
            let focused = entered.with_output(
                i,
                OutputView { focal_x: x, focal_y: y, ..state.outputs[i as int] },
            );
            assert(focused.held() == held);
            let chosen = focused.choose_output(i);
            assert(state.outputs[i as int].consistent(state.has_viewporter));
            if focused.activating {
                let active = StateView {
                    activating: false,
                    active_output: Some(i),
                    ..focused
                };
                assert(active.held() == held);
                assert forall|j: int| 0 <= j < active.outputs.len() implies (
                #[trigger] active.outputs[j]).consistent(state.has_viewporter) by {
                    assert(state.outputs[j].consistent(state.has_viewporter));
                }
                lemma_tear_down_all(active, Some(i));
                let torn = active.tear_down_all(Some(i));
                lemma_activate_output(torn.state, i);
                lemma_concat(held, torn.actions, torn.state.activate_output(i).actions);
            }
            assert(in_step(state, chosen));
            lemma_cursor(chosen.state.held(), state, serial, CursorShape::Wait);
            lemma_concat(
                held,
                chosen.actions,
                state.cursor_actions(serial, CursorShape::Wait),
            );
        }
    }
}

proof fn lemma_capture_failed(state: StateView, data: u32)
    requires
        state.valid(),
        state.outputs.len() <= usize::MAX,
    ensures
        in_step(state, state.capture_failed(data)),
{
    let held = state.held();
    let i = data as usize;
    let over = state.capture_over(i);
    assert(over.held() == held);
    assert forall|j: int| 0 <= j < over.outputs.len() implies (
    #[trigger] over.outputs[j]).consistent(state.has_viewporter) by {
        assert(state.outputs[j].consistent(state.has_viewporter));
    }
    assert(over.valid());
    let aborted = over.capture_aborted(i);
    if over.active_output == Some(i) {
        lemma_deactivate(over);
    } else {
        let idle = StateView { activating: false, ..over };
        assert(idle.held() == held);
        lemma_tear_down_all(idle, None);
    }
    lemma_one(held, Action::DestroyFrame);
    lemma_concat(held, seq![Action::DestroyFrame], aborted.actions);
    assert(state.capture_failed(data).actions == seq![Action::DestroyFrame] + aborted.actions);
}

proof fn lemma_capture_ready(state: StateView, data: u32, bytes: Seq<u8>)
    requires
        state.valid(),
    ensures
        in_step(state, state.capture_ready(data, bytes)),
{
    let held = state.held();
    let i = data as usize;
    let kept = StateView {
        capture_buffers: state.capture_buffers.remove(data),
        ..state.keep_capture(data, bytes)
    };
    assert(kept.held() == held);
    let shown = kept.show_active_surface(i);
    if kept.active_output == Some(i) {
        let output = kept.outputs[i as int];
        assert(state.outputs[i as int].consistent(state.has_viewporter));
        lemma_show(held, output, i, state.has_viewporter);
        let region = Action::SetInputRegion {
            output: i,
            region: crate::transition::full_region(),
        };
        lemma_push(held, output.show_actions(i, state.has_viewporter), region);
        assert(held.with_overlay(i, output.shown(state.has_viewporter).objects())
            == shown.state.held());
    }
    lemma_one(held, Action::DestroyFrame);
    lemma_concat(held, seq![Action::DestroyFrame], shown.actions);
    assert(state.capture_ready(data, bytes).actions == seq![Action::DestroyFrame] + shown.actions);
}

proof fn lemma_present_frame(state: StateView, i: usize, plan: RedrawPlan)
    requires
        i < state.outputs.len(),
    ensures
        in_step(state, state.present_frame(i, plan)),
{
    let held = state.held();
    let output = state.outputs[i as int];
    let step = state.present_frame(i, plan);
    assert(step.state.held() == held);
    if output.surface {
        let a = Action::AttachBuffer { output: i };
        let b = Action::SetBufferScale { output: i, scale: 1 };
        let c = Action::SetDestination {
            output: i,
            width: plan.logical_w,
            height: plan.logical_h,
        };
        let d = Action::DamageBuffer {
            output: i,
            x: 0,
            y: 0,
            width: plan.px_w,
            height: plan.px_h,
        };
        let e = Action::RequestFrame { output: i, data: i as u32 };
        let f = Action::Commit { output: i };
        let s0 = Seq::<Action>::empty();
        let s1 = s0.push(a).push(b);
        let s2 = if output.viewport {
            s1.push(c)
        } else {
            s1
        };
        let s3 = s2.push(d);
        let s4 = if output.frame_cb_pending {
            s3
        } else {
            s3.push(e)
        };
        lemma_push(held, s0, a);
        lemma_push(held, s0.push(a), b);
        lemma_push(held, s1, c);
        lemma_push(held, s2, d);
        lemma_push(held, s3, e);
        lemma_push(held, s4, f);
        assert(step.actions == s4.push(f));
    }
}

proof fn lemma_present_clear(state: StateView, i: usize, blank: BlankFrame)
    requires
        i < state.outputs.len(),
    ensures
        in_step(state, state.present_clear(i, blank)),
{
    let held = state.held();
    if state.outputs[i as int].surface {
        let a = Action::AttachBuffer { output: i };
        let b = Action::SetBufferScale { output: i, scale: 1 };
        let c = Action::DamageBuffer {
            output: i,
            x: 0,
            y: 0,
            width: blank.width,
            height: blank.height,
        };
        let d = Action::Commit { output: i };
        let s0 = Seq::<Action>::empty();
        lemma_push(held, s0, a);
        lemma_push(held, s0.push(a), b);
        lemma_push(held, s0.push(a).push(b), c);
        lemma_push(held, s0.push(a).push(b).push(c), d);
        assert(state.present_clear(i, blank).actions == s0.push(a).push(b).push(c).push(d));
    }
}

proof fn lemma_configure(state: StateView, data: u32, serial: u32, width: u32, height: u32)
    requires
        data < state.outputs.len(),
    ensures
        in_step(state, state.configure(data, serial, width, height)),
{
    let held = state.held();
    let i = data as usize;
    let configured = state.with_output(
        i,
        OutputView {
            width: width as i32,
            height: height as i32,
            configured: true,
            ..state.outputs[i as int]
        },
    );
    assert(configured.held() == held);
    let ack = Action::AckConfigure { serial };
    let rest = if state.active_output == Some(i) && state.outputs[i as int].cached is Some {
        configured.request_redraw(i)
    } else {
        configured.stay().and_do(Action::Clear { output: i })
    };
    lemma_request_redraw(configured, i);
    lemma_one(held, Action::Clear { output: i });
    assert(configured.stay().and_do(Action::Clear { output: i }).actions == seq![
        Action::Clear { output: i },
    ]);
    lemma_one(held, ack);
    lemma_concat(held, seq![ack], rest.actions);
    assert(state.configure(data, serial, width, height).actions == seq![ack] + rest.actions);
}

/// The actions that answer an event can be performed one after the other, and
/// leave exactly the objects that the new state says are there.
pub proof fn law_actions_and_objects_stay_in_step(state: StateView, event: EventView)
    requires
        state.valid(),
        state.accepts(event),
        state.outputs.len() <= usize::MAX,
    ensures
        in_step(state, state.step(event)),
{
    let held = state.held();
    match event {
        EventView::Command(command) => lemma_obey(state, command),
        EventView::Global { startup, global, interface, version } => lemma_announce(
            state,
            startup,
            global,
            interface,
            version,
        ),
        EventView::OutputName { output, name } => {
            assert(state.output_name(output, name).held() == held);
        },
        EventView::PointerEnter { serial, output, x, y } => lemma_pointer_enter(
            state,
            serial,
            output,
            x,
            y,
        ),
        EventView::PointerMotion { x, y } => {
            if let Some(i) = state.active_output {
                let focused = state.with_output(
                    i,
                    OutputView { focal_x: x, focal_y: y, ..state.outputs[i as int] },
                );
                assert(focused.held() == held);
                lemma_request_redraw(focused, i);
            }
        },
        EventView::Configure { data, serial, width, height } => lemma_configure(
            state,
            data,
            serial,
            width,
            height,
        ),
        EventView::FrameDone { data } => {
            assert(state.frame_done(data).state.held() == held);
            if data < state.outputs.len() {
                assert(state.outputs[data as int].consistent(state.has_viewporter));
                lemma_push(held, seq![], Action::Redraw { output: data as usize });
            }
        },
        EventView::CaptureBuffer { data, format, width, height, stride } => {
            assert(state.capture_buffer(data, format, width, height, stride).held() == held);
        },
        EventView::CaptureBufferDone { data } => {
            let rest = StateView { pending: state.pending.remove(data), ..state };
            assert(rest.held() == held);
            assert(rest.valid());
            if state.pending.contains_key(data) && state.pending[data].format is Some {
                let step = state.capture_buffer_done(data);
                lemma_one(held, step.actions[0]);
                assert(step.actions == seq![step.actions[0]]);
            } else {
                lemma_capture_failed(rest, data);
            }
        },
        EventView::CaptureAllocated { data, shape, allocated } => {
            if allocated {
                let step = state.capture_allocated(data, shape, allocated);
                assert(step.state.held() == held);
                lemma_one(held, Action::CopyFrame);
                assert(step.actions == seq![Action::CopyFrame]);
            } else {
                lemma_capture_failed(state, data);
            }
        },
        EventView::CaptureReady { data, bytes } => lemma_capture_ready(state, data, bytes),
        EventView::CaptureFailed { data } => lemma_capture_failed(state, data),
        EventView::Drawn { output, plan } => lemma_present_frame(state, output, plan),
        EventView::Cleared { output, blank } => lemma_present_clear(state, output, blank),
    }
}

/// All actions that a list of events is answered with, in order.
pub open spec fn all_actions(state: StateView, events: Seq<EventView>) -> Seq<Action>
    decreases events.len(),
{
    if events.len() == 0 {
        seq![]
    } else {
        all_actions(state, events.drop_last()) + run(state, events.drop_last()).step(
            events.last(),
        ).actions
    }
}

/// Whatever happens after startup, all the actions taken so far can be
/// performed in order, and the objects that are there are those that the state
/// says are there: none is lost and none is left behind.
pub proof fn law_no_run_loses_an_object(
    viewporter: bool,
    cursor_shape_manager: bool,
    events: Seq<EventView>,
)
    requires
        all_accepted(StateView::initial(viewporter, cursor_shape_manager), events),
        events.len() <= usize::MAX,
    ensures
        ({
            let start = StateView::initial(viewporter, cursor_shape_manager);
            start.held().after_all(all_actions(start, events)) == Some(run(start, events).held())
        }),
    decreases events.len(),
{
    let start = StateView::initial(viewporter, cursor_shape_manager);
    if events.len() > 0 {
        let front = events.drop_last();
        law_no_run_loses_an_object(viewporter, cursor_shape_manager, front);
        law_every_run_is_valid(viewporter, cursor_shape_manager, front);
        let state = run(start, front);
        lemma_outputs_are_bounded(viewporter, cursor_shape_manager, front);
        law_actions_and_objects_stay_in_step(state, events.last());
        lemma_concat(
            start.held(),
            all_actions(start, front),
            state.step(events.last()).actions,
        );
    }
}

/// No event adds more than one output.
proof fn lemma_outputs_are_bounded(
    viewporter: bool,
    cursor_shape_manager: bool,
    events: Seq<EventView>,
)
    requires
        all_accepted(StateView::initial(viewporter, cursor_shape_manager), events),
    ensures
        run(StateView::initial(viewporter, cursor_shape_manager), events).outputs.len()
            <= events.len(),
    decreases events.len(),
{
    if events.len() > 0 {
        let start = StateView::initial(viewporter, cursor_shape_manager);
        let front = events.drop_last();
        lemma_outputs_are_bounded(viewporter, cursor_shape_manager, front);
        law_every_run_is_valid(viewporter, cursor_shape_manager, front);
        lemma_step_adds_at_most_one(run(start, front), events.last());
    }
}

proof fn lemma_capture_failed_adds_none(state: StateView, data: u32)
    ensures
        state.capture_failed(data).state.outputs.len() == state.outputs.len(),
{
}

proof fn lemma_pointer_enter_adds_none(
    state: StateView,
    serial: u32,
    output: Option<usize>,
    x: i32,
    y: i32,
)
    ensures
        state.pointer_enter(serial, output, x, y).state.outputs.len() == state.outputs.len(),
{
}

proof fn lemma_obey_adds_none(state: StateView, command: Command)
    requires
        state.wf(),
    ensures
        state.obey(command).state.outputs.len() == state.outputs.len(),
{
}

proof fn lemma_capture_ready_adds_none(state: StateView, data: u32, bytes: Seq<u8>)
    requires
        state.wf(),
    ensures
        state.capture_ready(data, bytes).state.outputs.len() == state.outputs.len(),
{
}

proof fn lemma_step_adds_at_most_one(state: StateView, event: EventView)
    requires
        state.wf(),
        state.accepts(event),
    ensures
        state.step(event).state.outputs.len() <= state.outputs.len() + 1,
{
    match event {
        EventView::Command(command) => lemma_obey_adds_none(state, command),
        EventView::CaptureReady { data, bytes } => lemma_capture_ready_adds_none(
            state,
            data,
            bytes,
        ),
        EventView::PointerEnter { serial, output, x, y } => lemma_pointer_enter_adds_none(
            state,
            serial,
            output,
            x,
            y,
        ),
        EventView::CaptureBufferDone { data } => lemma_capture_failed_adds_none(
            StateView { pending: state.pending.remove(data), ..state },
            data,
        ),
        EventView::CaptureAllocated { data, .. } => lemma_capture_failed_adds_none(state, data),
        EventView::CaptureFailed { data } => lemma_capture_failed_adds_none(state, data),
        _ => {},
    }
}

} // verus!
