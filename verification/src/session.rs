//! The daemon at work: each event handled, each action decided.

use crate::command::{command_in, lossy_text, parse_request, trimmed, Command};
use crate::frame::{CapturedImage, ImageView};
use crate::model::{
    Action, BlankFrame, BufferShape, CursorShape, Event, EventView, Layer, LayerSetup,
    OutputInfo, OutputView, PendingCapture, RedrawPlan, Region, State, StateView,
};
use crate::shm::{row_bytes, ARGB8888};
use crate::transition::{full_region, grabs, overlay_setup, shows, teardowns};
use crate::zoom::{step_in, step_out, MIN_ZOOM};
use std::collections::HashMap;
use vstd::prelude::*;

verus! {

broadcast use vstd::std_specs::hash::group_hash_axioms;

/// The highest version of an output that is bound.
pub const OUTPUT_VERSION: u32 = 4;

/// The highest version of a seat that is bound.
pub const SEAT_VERSION: u32 = 7;

/// The width and height of a region that takes in every surface.
pub const FULL_REGION: i32 = 1_000_000;

/// The name that overlays go by in the compositor's layer rules.
pub fn overlay_namespace() -> (name: &'static str)
    ensures
        name@ == "niri-zoom"@,
        name == overlay_setup().namespace,
{
    "niri-zoom"
}

/// How overlays are made.
fn layer_setup() -> (setup: LayerSetup)
    ensures
        setup == overlay_setup(),
{
    LayerSetup {
        layer: Layer::Overlay,
        namespace: overlay_namespace(),
        anchor_top: true,
        anchor_bottom: true,
        anchor_left: true,
        anchor_right: true,
        exclusive_zone: -1,
        keyboard: false,
        width: 0,
        height: 0,
    }
}

/// The input region that takes in every surface.
fn whole_surface() -> (region: Region)
    ensures
        region == full_region(),
{
    Region::Rect { x: 0, y: 0, width: FULL_REGION, height: FULL_REGION }
}

impl OutputInfo {
    /// An output that was just announced.
    fn new(name: String) -> (output: OutputInfo)
        ensures
            output@ == OutputView::fresh(name@),
    {
        OutputInfo {
            name,
            surface: false,
            layer_surface: false,
            viewport: false,
            width: 0,
            height: 0,
            configured: false,
            focal_x: 0,
            focal_y: 0,
            frame_cb_pending: false,
            redraw_dirty: false,
            capture_in_flight: false,
            cached: None,
        }
    }

    /// Notes that the overlay was created.
    fn show(&mut self, viewporter: bool)
        requires
            !old(self)@.surface,
        ensures
            final(self)@ == old(self)@.shown(viewporter),
    {
        self.surface = true;
        self.layer_surface = true;
        self.viewport = viewporter;
        self.configured = false;
    }

    /// Notes that the overlay was torn down.
    fn tear_down(&mut self)
        ensures
            final(self)@ == old(self)@.torn_down(),
    {
        self.viewport = false;
        self.layer_surface = false;
        self.surface = false;
        self.configured = false;
        self.frame_cb_pending = false;
        self.redraw_dirty = false;
    }

    /// Notes where the pointer is.
    fn focus(&mut self, x: i32, y: i32)
        ensures
            final(self)@ == (OutputView { focal_x: x, focal_y: y, ..old(self)@ }),
    {
        self.focal_x = x;
        self.focal_y = y;
    }

    /// Notes that the frame on screen is over.
    fn end_frame(&mut self)
        ensures
            final(self)@ == (OutputView {
                frame_cb_pending: false,
                redraw_dirty: false,
                ..old(self)@
            }),
    {
        self.frame_cb_pending = false;
        self.redraw_dirty = false;
    }

    /// Notes that a capture is complete, and keeps its frame if told to.
    fn keep(&mut self, shape: BufferShape, bytes: Vec<u8>, active: bool)
        ensures
            final(self)@ == (OutputView {
                capture_in_flight: false,
                cached: if active {
                    Some(
                        ImageView {
                            width: shape.width,
                            height: shape.height,
                            stride: shape.stride,
                            bytes: bytes@,
                        },
                    )
                } else {
                    old(self)@.cached
                },
                ..old(self)@
            }),
    {
        if active {
            self.cached = Some(
                CapturedImage {
                    width: shape.width,
                    height: shape.height,
                    stride: shape.stride,
                    bytes,
                },
            );
        }
        self.capture_in_flight = false;
    }

    /// Notes the size of the overlay.
    fn resize(&mut self, width: i32, height: i32)
        ensures
            final(self)@ == (OutputView { width, height, configured: true, ..old(self)@ }),
    {
        self.width = width;
        self.height = height;
        self.configured = true;
    }
}

/// A state in which one output changed holds what it held before, but for that
/// output.
proof fn lemma_output_changed(before: State, after: State, idx: usize)
    requires
        idx < before.outputs@.len(),
        after == (State { outputs: after.outputs, ..before }),
        after.outputs@ == before.outputs@.update(idx as int, after.outputs@[idx as int]),
    ensures
        after@ == before@.with_output(idx, after.outputs@[idx as int]@),
{
    assert(after@.outputs =~= before@.outputs.update(idx as int, after.outputs@[idx as int]@));
}

impl State {
    /// The state at startup.
    pub fn new(viewporter: bool, cursor_shape_manager: bool) -> (state: State)
        ensures
            state@ == StateView::initial(viewporter, cursor_shape_manager),
    {
        State {
            outputs: Vec::new(),
            zoom: MIN_ZOOM,
            active_output: None,
            activating: false,
            exit: false,
            last_enter_serial: 0,
            has_viewporter: viewporter,
            has_cursor_shape_manager: cursor_shape_manager,
            has_cursor_shape_device: false,
            has_pointer: false,
            pending: HashMap::new(),
            capture_buffers: HashMap::new(),
        }
    }

    /// Has the cursor shape device made as soon as there are a pointer and a
    /// manager for it. Once it exists this does nothing.
    pub fn ensure_cursor_shape_device(&mut self, actions: &mut Vec<Action>)
        ensures
            final(self)@ == old(self)@.ensure_cursor_shape_device().state,
            final(actions)@ == old(actions)@ + old(self)@.ensure_cursor_shape_device().actions,
    {
        if self.has_cursor_shape_device {
            return;
        }
        if self.has_pointer && self.has_cursor_shape_manager {
            self.has_cursor_shape_device = true;
            actions.push(Action::CreateCursorShapeDevice);
        }
    }

    /// Adds an output that was just announced. Its overlay is created only
    /// when the magnifier opens.
    pub fn add_output(&mut self, name: String)
        ensures
            final(self)@ == old(self)@.add_output(name@),
    {
        self.outputs.push(OutputInfo::new(name));
    }

    /// Creates the overlay of an output, unless it exists.
    pub fn ensure_layer_surface(&mut self, idx: usize, actions: &mut Vec<Action>)
        requires
            idx < old(self)@.outputs.len(),
        ensures
            final(self)@ == old(self)@.ensure_layer_surface(idx).state,
            final(actions)@ == old(actions)@ + old(self)@.ensure_layer_surface(idx).actions,
    {
        if self.outputs[idx].surface {
            return;
        }
        actions.push(Action::CreateSurface { output: idx });
        actions.push(Action::SetInputRegion { output: idx, region: Region::Empty });
        actions.push(
            Action::CreateLayerSurface { output: idx, data: idx as u32, setup: layer_setup() },
        );
        if self.has_viewporter {
            actions.push(Action::CreateViewport { output: idx });
        }
        actions.push(Action::Commit { output: idx });
        let viewporter = self.has_viewporter;
        self.outputs[idx].show(viewporter);
        proof {
            lemma_output_changed(*old(self), *self, idx);
        }
    }

    /// Tears the overlay of an output down.
    pub fn destroy_layer_surface(&mut self, idx: usize, actions: &mut Vec<Action>)
        requires
            idx < old(self)@.outputs.len(),
        ensures
            final(self)@ == old(self)@.destroy_layer_surface(idx).state,
            final(actions)@ == old(actions)@ + old(self)@.destroy_layer_surface(idx).actions,
    {
        if self.outputs[idx].viewport {
            actions.push(Action::DestroyViewport { output: idx });
        }
        if self.outputs[idx].layer_surface {
            actions.push(Action::DestroyLayerSurface { output: idx });
        }
        if self.outputs[idx].surface {
            actions.push(Action::DestroySurface { output: idx });
        }
        self.outputs[idx].tear_down();
        proof {
            lemma_output_changed(*old(self), *self, idx);
        }
    }

    /// Tears the overlay of an output down and drops its cached frame.
    fn close_output(&mut self, idx: usize, actions: &mut Vec<Action>)
        requires
            idx < old(self)@.outputs.len(),
        ensures
            final(self)@ == old(self)@.with_output(
                idx,
                OutputView { cached: None, ..old(self)@.outputs[idx as int].torn_down() },
            ),
            final(actions)@ == old(actions)@ + old(self)@.outputs[idx as int].teardown_actions(idx),
    {
        self.outputs[idx].cached = None;
        proof {
            lemma_output_changed(*old(self), *self, idx);
        }
        self.destroy_layer_surface(idx, actions);
    }

    /// Tears every overlay down, except that of `kept`.
    fn tear_down_all(&mut self, kept: Option<usize>, actions: &mut Vec<Action>)
        ensures
            final(self)@ == old(self)@.tear_down_all(kept).state,
            final(actions)@ == old(actions)@ + old(self)@.tear_down_all(kept).actions,
    {
        let count: usize = self.outputs.len();
        let mut i: usize = 0;
        while i < count
            invariant
                i <= count == old(self)@.outputs.len(),
                self@ == (StateView { outputs: self@.outputs, ..old(self)@ }),
                self@.outputs.len() == count,
                forall|j: int|
                    0 <= j < count ==> #[trigger] self@.outputs[j] == if j >= i || (kept matches Some(
                        k,
                    ) && k == j) {
                        old(self)@.outputs[j]
                    } else {
                        old(self)@.outputs[j].torn_down()
                    },
                actions@ == old(actions)@ + teardowns(old(self)@.outputs, kept, i as nat),
            decreases count - i,
        {
            let ghost before = self@;
            let keep = match kept {
                Some(k) => k == i,
                None => false,
            };
            if !keep {
                assert(before.outputs[i as int] == old(self)@.outputs[i as int]);
                self.destroy_layer_surface(i, actions);
            }
            i += 1;
        }
    }

    /// Asks for a redraw of an overlay: at once, or when the frame on screen
    /// is over. While the output is being captured, or its surface is not
    /// there or not configured yet, nothing is drawn.
    pub fn request_redraw(&mut self, idx: usize, actions: &mut Vec<Action>)
        requires
            idx < old(self)@.outputs.len(),
        ensures
            final(self)@ == old(self)@.request_redraw(idx).state,
            final(actions)@ == old(actions)@ + old(self)@.request_redraw(idx).actions,
    {
        if self.outputs[idx].capture_in_flight || !self.outputs[idx].surface
            || !self.outputs[idx].configured {
            return;
        }
        if self.outputs[idx].frame_cb_pending {
            self.outputs[idx].redraw_dirty = true;
            proof {
                lemma_output_changed(*old(self), *self, idx);
            }
            return;
        }
        actions.push(Action::Redraw { output: idx });
    }
}

impl State {
    /// Creates the overlays that are missing and has all of them take input,
    /// so that the pointer tells which output it is on.
    fn open_overlays(&mut self, actions: &mut Vec<Action>)
        ensures
            final(self)@ == old(self)@.open_overlays().state,
            final(actions)@ == old(actions)@ + old(self)@.open_overlays().actions,
    {
        self.activating = true;
        let ghost start = old(self)@;
        let count: usize = self.outputs.len();
        let mut i: usize = 0;
        while i < count
            invariant
                start == old(self)@,
                i <= count == start.outputs.len(),
                self@ == (StateView { activating: true, outputs: self@.outputs, ..start }),
                self@.outputs.len() == count,
                forall|j: int|
                    0 <= j < count ==> #[trigger] self@.outputs[j] == if j < i {
                        start.outputs[j].shown(start.has_viewporter)
                    } else {
                        start.outputs[j]
                    },
                actions@ == old(actions)@ + shows(start.outputs, start.has_viewporter, i as nat),
            decreases count - i,
        {
            assert(self@.outputs[i as int] == start.outputs[i as int]);
            self.ensure_layer_surface(i, actions);
            i += 1;
        }
        let ghost shown = self@;
        let ghost done = actions@;
        let mut i: usize = 0;
        while i < count
            invariant
                i <= count == shown.outputs.len(),
                self@ == shown,
                forall|j: int| 0 <= j < count ==> (#[trigger] shown.outputs[j]).surface,
                actions@ == done + grabs(i as nat),
            decreases count - i,
        {
            assert(shown.outputs[i as int].surface);
            if self.outputs[i].surface {
                actions.push(Action::SetInputRegion { output: i, region: whole_surface() });
                actions.push(Action::Commit { output: i });
            }
            i += 1;
        }
    }

    /// Zooms in one step. The first step opens the magnifier.
    pub fn zoom_in(&mut self, actions: &mut Vec<Action>)
        requires
            old(self)@.wf(),
        ensures
            final(self)@ == old(self)@.zoom_in().state,
            final(actions)@ == old(actions)@ + old(self)@.zoom_in().actions,
            final(self)@.wf(),
    {
        if self.active_output.is_none() && !self.activating {
            self.open_overlays(actions);
        }
        self.zoom = step_in(self.zoom);
        if let Some(idx) = self.active_output {
            self.request_redraw(idx, actions);
        }
    }

    /// Zooms out one step. Back at 1x the magnifier closes.
    pub fn zoom_out(&mut self, actions: &mut Vec<Action>)
        requires
            old(self)@.wf(),
        ensures
            final(self)@ == old(self)@.zoom_out().state,
            final(actions)@ == old(actions)@ + old(self)@.zoom_out().actions,
            final(self)@.wf(),
    {
        if let Some(idx) = self.active_output {
            self.zoom = step_out(self.zoom);
            if self.zoom <= MIN_ZOOM {
                self.deactivate(actions);
            } else {
                self.request_redraw(idx, actions);
            }
        }
    }

    /// Goes back to 1x and closes the magnifier.
    pub fn zoom_reset(&mut self, actions: &mut Vec<Action>)
        ensures
            final(self)@ == old(self)@.zoom_reset().state,
            final(actions)@ == old(actions)@ + old(self)@.zoom_reset().actions,
            final(self)@.wf(),
    {
        self.zoom = MIN_ZOOM;
        self.deactivate(actions);
    }

    /// Closes the magnifier: every overlay is torn down and the cached frame
    /// is dropped.
    pub fn deactivate(&mut self, actions: &mut Vec<Action>)
        ensures
            final(self)@ == old(self)@.deactivate().state,
            final(actions)@ == old(actions)@ + old(self)@.deactivate().actions,
            final(self)@.wf(),
    {
        self.active_output = None;
        self.activating = false;
        if self.has_cursor_shape_device {
            actions.push(
                Action::SetCursorShape {
                    serial: self.last_enter_serial,
                    shape: CursorShape::Default,
                },
            );
        }
        let ghost start = self@;
        let ghost done = actions@;
        let count: usize = self.outputs.len();
        let mut i: usize = 0;
        while i < count
            invariant
                i <= count == start.outputs.len(),
                self@ == (StateView { outputs: self@.outputs, ..start }),
                self@.outputs.len() == count,
                forall|j: int|
                    0 <= j < count ==> #[trigger] self@.outputs[j] == if j < i {
                        (OutputView { cached: None, ..start.outputs[j].torn_down() })
                    } else {
                        start.outputs[j]
                    },
                actions@ == done + teardowns(start.outputs, None, i as nat),
            decreases count - i,
        {
            self.close_output(i, actions);
            i += 1;
        }
    }

    /// Starts a capture of an output, unless one is under way. The overlay is
    /// torn down first, so the capture cannot show it.
    pub fn activate_output(&mut self, idx: usize, actions: &mut Vec<Action>)
        requires
            idx < old(self)@.outputs.len(),
        ensures
            final(self)@ == old(self)@.activate_output(idx).state,
            final(actions)@ == old(actions)@ + old(self)@.activate_output(idx).actions,
    {
        if self.outputs[idx].capture_in_flight {
            return;
        }
        self.outputs[idx].capture_in_flight = true;
        proof {
            lemma_output_changed(*old(self), *self, idx);
        }
        self.destroy_layer_surface(idx, actions);
        actions.push(
            Action::CaptureOutput { output: idx, data: idx as u32, overlay_cursor: 0 },
        );
    }

    /// Shows the overlay of an output again after its capture, if that output
    /// is still the active one. It is drawn once it has been configured.
    pub fn show_active_surface(&mut self, idx: usize, actions: &mut Vec<Action>)
        requires
            old(self)@.wf(),
        ensures
            final(self)@ == old(self)@.show_active_surface(idx).state,
            final(actions)@ == old(actions)@ + old(self)@.show_active_surface(idx).actions,
            final(self)@.wf(),
    {
        if self.active_output != Some(idx) {
            return;
        }
        self.ensure_layer_surface(idx, actions);
        actions.push(Action::SetInputRegion { output: idx, region: whole_surface() });
    }

    /// Gives up on a capture that brought no frame: every overlay is torn down
    /// and the wait for the pointer ends. Unless another output is the active
    /// one, the magnifier is closed by that, and the next step in opens it
    /// again; another output stays active, without its overlay, until the
    /// magnifier closes.
    pub fn capture_aborted(&mut self, idx: usize, actions: &mut Vec<Action>)
        ensures
            final(self)@ == old(self)@.capture_aborted(idx).state,
            final(actions)@ == old(actions)@ + old(self)@.capture_aborted(idx).actions,
    {
        if self.active_output == Some(idx) {
            self.deactivate(actions);
        } else {
            self.activating = false;
            self.tear_down_all(None, actions);
        }
    }
}

impl State {
    /// Handles a global that was announced.
    pub fn announce(
        &mut self,
        startup: bool,
        global: u32,
        interface: String,
        version: u32,
        actions: &mut Vec<Action>,
    )
        ensures
            final(self)@ == old(self)@.announce(startup, global, interface@, version).state,
            final(actions)@ == old(actions)@ + old(self)@.announce(
                startup,
                global,
                interface@,
                version,
            ).actions,
    {
        if interface == "wl_output".to_owned() {
            let version: u32 = if version <= OUTPUT_VERSION {
                version
            } else {
                OUTPUT_VERSION
            };
            actions.push(Action::BindOutput { global, version, output: self.outputs.len() });
            self.add_output("unknown".to_owned());
        } else if interface == "wl_seat".to_owned() && (startup || !self.has_pointer) {
            let version: u32 = if version <= SEAT_VERSION {
                version
            } else {
                SEAT_VERSION
            };
            actions.push(Action::BindSeat { global, version });
            self.has_pointer = true;
            self.ensure_cursor_shape_device(actions);
        }
    }

    /// Handles the name of an output.
    pub fn output_name(&mut self, output: Option<usize>, name: String)
        ensures
            final(self)@ == old(self)@.output_name(output, name@),
    {
        if let Some(idx) = output {
            if idx < self.outputs.len() {
                self.outputs[idx].name = name;
                proof {
                    lemma_output_changed(*old(self), *self, idx);
                }
            }
        }
    }

    /// Makes the output that the pointer is on the active one, where the
    /// magnifier waits for that, and starts its capture.
    fn choose_output(&mut self, idx: usize, actions: &mut Vec<Action>)
        requires
            idx < old(self)@.outputs.len(),
        ensures
            final(self)@ == old(self)@.choose_output(idx).state,
            final(actions)@ == old(actions)@ + old(self)@.choose_output(idx).actions,
    {
        if self.activating {
            self.activating = false;
            self.active_output = Some(idx);
            self.tear_down_all(Some(idx), actions);
            self.activate_output(idx, actions);
        }
    }

    /// Handles the pointer entering a surface: that of the overlay of
    /// `output`, where it is one of ours.
    pub fn pointer_enter(
        &mut self,
        serial: u32,
        output: Option<usize>,
        x: i32,
        y: i32,
        actions: &mut Vec<Action>,
    )
        ensures
            final(self)@ == old(self)@.pointer_enter(serial, output, x, y).state,
            final(actions)@ == old(actions)@ + old(self)@.pointer_enter(
                serial,
                output,
                x,
                y,
            ).actions,
    {
        self.last_enter_serial = serial;
        if let Some(idx) = output {
            if idx < self.outputs.len() && self.outputs[idx].surface {
                let ghost entered = *self;
                self.outputs[idx].focus(x, y);
                proof {
                    lemma_output_changed(entered, *self, idx);
                }
                self.choose_output(idx, actions);
                if self.active_output == Some(idx) && self.has_cursor_shape_device {
                    actions.push(Action::SetCursorShape { serial, shape: CursorShape::Wait });
                }
            }
        }
    }

    /// Handles the pointer moving: the view follows it.
    pub fn pointer_motion(&mut self, x: i32, y: i32, actions: &mut Vec<Action>)
        requires
            old(self)@.wf(),
        ensures
            final(self)@ == old(self)@.pointer_motion(x, y).state,
            final(actions)@ == old(actions)@ + old(self)@.pointer_motion(x, y).actions,
            final(self)@.wf(),
    {
        if let Some(idx) = self.active_output {
            self.outputs[idx].focus(x, y);
            proof {
                lemma_output_changed(*old(self), *self, idx);
            }
            if self.outputs[idx].cached.is_some() {
                self.request_redraw(idx, actions);
            }
        }
    }

    /// Handles the configuration of an overlay, which is then drawn: from the
    /// cached frame, or empty.
    pub fn configure(
        &mut self,
        data: u32,
        serial: u32,
        width: u32,
        height: u32,
        actions: &mut Vec<Action>,
    )
        requires
            data < old(self)@.outputs.len(),
        ensures
            final(self)@ == old(self)@.configure(data, serial, width, height).state,
            final(actions)@ == old(actions)@ + old(self)@.configure(
                data,
                serial,
                width,
                height,
            ).actions,
    {
        actions.push(Action::AckConfigure { serial });
        let idx: usize = data as usize;
        self.outputs[idx].resize(width as i32, height as i32);
        proof {
            lemma_output_changed(*old(self), *self, idx);
        }
        if self.active_output == Some(idx) && self.outputs[idx].cached.is_some() {
            self.request_redraw(idx, actions);
        } else {
            actions.push(Action::Clear { output: idx });
        }
    }

    /// Handles the end of a frame: a redraw that was put off happens now, if
    /// the output is still the active one.
    pub fn frame_done(&mut self, data: u32, actions: &mut Vec<Action>)
        ensures
            final(self)@ == old(self)@.frame_done(data).state,
            final(actions)@ == old(actions)@ + old(self)@.frame_done(data).actions,
    {
        let idx: usize = data as usize;
        if idx < self.outputs.len() {
            let dirty = self.outputs[idx].redraw_dirty;
            self.outputs[idx].end_frame();
            proof {
                lemma_output_changed(*old(self), *self, idx);
            }
            if dirty && self.active_output == Some(idx) {
                actions.push(Action::Redraw { output: idx });
            }
        }
    }
}

impl State {
    /// Handles the announcement of a capture.
    pub fn capture_buffer(
        &mut self,
        data: u32,
        format: Option<u32>,
        width: u32,
        height: u32,
        stride: u32,
    )
        ensures
            final(self)@ == old(self)@.capture_buffer(data, format, width, height, stride),
    {
        self.pending.insert(
            data,
            PendingCapture {
                format,
                width: width as i32,
                height: height as i32,
                stride: stride as i32,
            },
        );
    }

    /// Notes that the capture of an output is over.
    fn capture_over(&mut self, idx: usize)
        ensures
            final(self)@ == old(self)@.capture_over(idx),
    {
        if idx < self.outputs.len() {
            self.outputs[idx].capture_in_flight = false;
            proof {
                lemma_output_changed(*old(self), *self, idx);
            }
        }
    }

    /// Handles a capture that failed.
    pub fn capture_failed(&mut self, data: u32, actions: &mut Vec<Action>)
        ensures
            final(self)@ == old(self)@.capture_failed(data).state,
            final(actions)@ == old(actions)@ + old(self)@.capture_failed(data).actions,
    {
        actions.push(Action::DestroyFrame);
        self.capture_over(data as usize);
        self.capture_aborted(data as usize, actions);
    }

    /// Handles the end of a capture's announcements: a buffer is allocated for
    /// it. A capture without a format to go by fails.
    pub fn capture_buffer_done(&mut self, data: u32, actions: &mut Vec<Action>)
        ensures
            final(self)@ == old(self)@.capture_buffer_done(data).state,
            final(actions)@ == old(actions)@ + old(self)@.capture_buffer_done(data).actions,
    {
        if let Some(capture) = self.pending.remove(&data) {
            if let Some(format) = capture.format {
                let shape = BufferShape {
                    width: capture.width,
                    height: capture.height,
                    stride: capture.stride,
                };
                actions.push(Action::AllocateCapture { data, shape, format });
                return;
            }
        }
        assert(self@ == (StateView { pending: old(self)@.pending.remove(data), ..old(self)@ }));
        self.capture_failed(data, actions);
    }

    /// Handles the outcome of allocating a buffer for a capture.
    pub fn capture_allocated(
        &mut self,
        data: u32,
        shape: BufferShape,
        allocated: bool,
        actions: &mut Vec<Action>,
    )
        ensures
            final(self)@ == old(self)@.capture_allocated(data, shape, allocated).state,
            final(actions)@ == old(actions)@ + old(self)@.capture_allocated(
                data,
                shape,
                allocated,
            ).actions,
    {
        if allocated {
            self.capture_buffers.insert(data, shape);
            actions.push(Action::CopyFrame);
        } else {
            self.capture_failed(data, actions);
        }
    }

    /// Keeps the frame of a capture that is complete, if its output is still
    /// the active one.
    fn keep_capture(&mut self, data: u32, bytes: Vec<u8>)
        ensures
            final(self)@ == (StateView {
                capture_buffers: old(self)@.capture_buffers.remove(data),
                ..old(self)@.keep_capture(data, bytes@)
            }),
    {
        let idx: usize = data as usize;
        if let Some(shape) = self.capture_buffers.remove(&data) {
            if idx < self.outputs.len() {
                let ghost before = *self;
                let active = self.active_output == Some(idx);
                self.outputs[idx].keep(shape, bytes, active);
                proof {
                    lemma_output_changed(before, *self, idx);
                }
            }
        }
    }

    /// Handles a capture that is complete. The frame is kept only if its
    /// output is still the active one, whose overlay is then shown again.
    pub fn capture_ready(&mut self, data: u32, bytes: Vec<u8>, actions: &mut Vec<Action>)
        requires
            old(self)@.wf(),
        ensures
            final(self)@ == old(self)@.capture_ready(data, bytes@).state,
            final(actions)@ == old(actions)@ + old(self)@.capture_ready(data, bytes@).actions,
            final(self)@.wf(),
    {
        self.keep_capture(data, bytes);
        actions.push(Action::DestroyFrame);
        self.show_active_surface(data as usize, actions);
    }

    /// The frame to draw for an overlay, if there is a cached image to draw it
    /// from and a surface with a size to draw it on.
    pub fn redraw_from_cache(&self, idx: usize) -> (plan: Option<RedrawPlan>)
        requires
            idx < self@.outputs.len(),
        ensures
            plan == self@.outputs[idx as int].plan(self@.zoom),
    {
        let output = &self.outputs[idx];
        if output.width == 0 || output.height == 0 || !output.surface {
            return None;
        }
        match &output.cached {
            None => None,
            Some(image) => {
                let px_w: i32 = if output.viewport {
                    image.width
                } else {
                    output.width
                };
                let px_h: i32 = if output.viewport {
                    image.height
                } else {
                    output.height
                };
                Some(
                    RedrawPlan {
                        logical_w: output.width,
                        logical_h: output.height,
                        src_w: image.width,
                        src_h: image.height,
                        px_w,
                        px_h,
                        stride: row_bytes(px_w),
                        format: ARGB8888,
                        zoom: self.zoom,
                        focal_x: output.focal_x,
                        focal_y: output.focal_y,
                    },
                )
            },
        }
    }

    /// Puts a frame that was drawn on screen, and asks to be told when the
    /// next one is due.
    pub fn present_frame(&mut self, idx: usize, plan: RedrawPlan, actions: &mut Vec<Action>)
        requires
            idx < old(self)@.outputs.len(),
        ensures
            final(self)@ == old(self)@.present_frame(idx, plan).state,
            final(actions)@ == old(actions)@ + old(self)@.present_frame(idx, plan).actions,
    {
        if !self.outputs[idx].surface {
            return;
        }
        actions.push(Action::AttachBuffer { output: idx });
        actions.push(Action::SetBufferScale { output: idx, scale: 1 });
        if self.outputs[idx].viewport {
            actions.push(
                Action::SetDestination {
                    output: idx,
                    width: plan.logical_w,
                    height: plan.logical_h,
                },
            );
        }
        actions.push(
            Action::DamageBuffer { output: idx, x: 0, y: 0, width: plan.px_w, height: plan.px_h },
        );
        if !self.outputs[idx].frame_cb_pending {
            actions.push(Action::RequestFrame { output: idx, data: idx as u32 });
        }
        self.outputs[idx].frame_cb_pending = true;
        proof {
            lemma_output_changed(*old(self), *self, idx);
        }
        actions.push(Action::Commit { output: idx });
    }

    /// The empty frame to draw for an overlay, if the overlay has a surface
    /// with a size.
    pub fn clear_surface(&self, idx: usize) -> (blank: Option<BlankFrame>)
        requires
            idx < self@.outputs.len(),
        ensures
            blank == self@.outputs[idx as int].blank(),
    {
        let output = &self.outputs[idx];
        if output.width == 0 || output.height == 0 || !output.surface {
            return None;
        }
        Some(
            BlankFrame {
                width: output.width,
                height: output.height,
                stride: row_bytes(output.width),
                format: ARGB8888,
            },
        )
    }

    /// Puts an empty frame that was drawn on screen.
    pub fn present_clear(&self, idx: usize, blank: BlankFrame, actions: &mut Vec<Action>)
        requires
            idx < self@.outputs.len(),
        ensures
            final(actions)@ == old(actions)@ + self@.present_clear(idx, blank).actions,
    {
        if !self.outputs[idx].surface {
            return;
        }
        actions.push(Action::AttachBuffer { output: idx });
        actions.push(Action::SetBufferScale { output: idx, scale: 1 });
        actions.push(
            Action::DamageBuffer {
                output: idx,
                x: 0,
                y: 0,
                width: blank.width,
                height: blank.height,
            },
        );
        actions.push(Action::Commit { output: idx });
    }

    /// Obeys a command.
    pub fn obey(&mut self, command: Command, actions: &mut Vec<Action>)
        requires
            old(self)@.wf(),
        ensures
            final(self)@ == old(self)@.obey(command).state,
            final(actions)@ == old(actions)@ + old(self)@.obey(command).actions,
            final(self)@.wf(),
    {
        match command {
            Command::In => self.zoom_in(actions),
            Command::Out => self.zoom_out(actions),
            Command::Reset => self.zoom_reset(actions),
        }
    }

    /// Handles the bytes of a request, and returns the command that was obeyed.
    /// Bytes that hold no command change nothing and come back as text.
    pub fn handle_request(&mut self, bytes: &[u8], actions: &mut Vec<Action>) -> (obeyed: Result<
        Command,
        String,
    >)
        requires
            old(self)@.wf(),
        ensures
            match command_in(bytes@) {
                Some(command) => {
                    &&& obeyed == Ok::<Command, String>(command)
                    &&& final(self)@ == old(self)@.obey(command).state
                    &&& final(actions)@ == old(actions)@ + old(self)@.obey(command).actions
                },
                None => {
                    &&& obeyed matches Err(text) && text@ == trimmed(lossy_text(bytes@))
                    &&& final(self)@ == old(self)@
                    &&& final(actions)@ == old(actions)@
                },
            },
            final(self)@.wf(),
    {
        match parse_request(bytes) {
            Ok(command) => {
                self.obey(command, actions);
                Ok(command)
            },
            Err(text) => Err(text),
        }
    }
}

proof fn lemma_commands_keep_wf(state: StateView, command: Command)
    requires
        state.wf(),
    ensures
        state.obey(command).state.wf(),
{
}

proof fn lemma_announce_keeps_wf(
    state: StateView,
    startup: bool,
    global: u32,
    interface: Seq<char>,
    version: u32,
)
    requires
        state.wf(),
    ensures
        state.announce(startup, global, interface, version).state.wf(),
{
}

proof fn lemma_pointer_keeps_wf(
    state: StateView,
    serial: u32,
    output: Option<usize>,
    x: i32,
    y: i32,
)
    requires
        state.wf(),
    ensures
        state.pointer_enter(serial, output, x, y).state.wf(),
        state.pointer_motion(x, y).state.wf(),
{
}

proof fn lemma_captures_keep_wf(
    state: StateView,
    data: u32,
    shape: BufferShape,
    allocated: bool,
    bytes: Seq<u8>,
)
    requires
        state.wf(),
    ensures
        state.capture_failed(data).state.wf(),
        state.capture_buffer_done(data).state.wf(),
        state.capture_allocated(data, shape, allocated).state.wf(),
        state.capture_ready(data, bytes).state.wf(),
{
}

/// Every answer to an event keeps the active output among the outputs.
proof fn lemma_step_keeps_wf(state: StateView, event: EventView)
    requires
        state.wf(),
        state.accepts(event),
    ensures
        state.step(event).state.wf(),
{
    let none = BufferShape { width: 0, height: 0, stride: 0 };
    match event {
        EventView::Command(command) => {
            lemma_commands_keep_wf(state, command);
        },
        EventView::Global { startup, global, interface, version } => {
            lemma_announce_keeps_wf(state, startup, global, interface, version);
        },
        EventView::PointerEnter { serial, output, x, y } => {
            lemma_pointer_keeps_wf(state, serial, output, x, y);
        },
        EventView::PointerMotion { x, y } => {
            lemma_pointer_keeps_wf(state, 0, None, x, y);
        },
        EventView::CaptureBufferDone { data } => {
            lemma_captures_keep_wf(state, data, none, false, seq![]);
        },
        EventView::CaptureAllocated { data, shape, allocated } => {
            lemma_captures_keep_wf(state, data, shape, allocated, seq![]);
        },
        EventView::CaptureReady { data, bytes } => {
            lemma_captures_keep_wf(state, data, none, false, bytes);
        },
        EventView::CaptureFailed { data } => {
            lemma_captures_keep_wf(state, data, none, false, seq![]);
        },
        _ => {},
    }
}

impl State {
    /// Handles an event and returns what is to be done about it, in order.
    pub fn handle(&mut self, event: Event) -> (actions: Vec<Action>)
        requires
            old(self)@.wf(),
            old(self)@.accepts(event@),
        ensures
            final(self)@ == old(self)@.step(event@).state,
            actions@ == old(self)@.step(event@).actions,
            final(self)@.wf(),
    {
        proof {
            lemma_step_keeps_wf(self@, event@);
        }
        let mut actions: Vec<Action> = Vec::new();
        match event {
            Event::Command(command) => self.obey(command, &mut actions),
            Event::Global { startup, global, interface, version } => self.announce(
                startup,
                global,
                interface,
                version,
                &mut actions,
            ),
            Event::OutputName { output, name } => self.output_name(output, name),
            Event::PointerEnter { serial, output, x, y } => self.pointer_enter(
                serial,
                output,
                x,
                y,
                &mut actions,
            ),
            Event::PointerMotion { x, y } => self.pointer_motion(x, y, &mut actions),
            Event::Configure { data, serial, width, height } => self.configure(
                data,
                serial,
                width,
                height,
                &mut actions,
            ),
            Event::FrameDone { data } => self.frame_done(data, &mut actions),
            Event::CaptureBuffer { data, format, width, height, stride } => self.capture_buffer(
                data,
                format,
                width,
                height,
                stride,
            ),
            Event::CaptureBufferDone { data } => self.capture_buffer_done(data, &mut actions),
            Event::CaptureAllocated { data, shape, allocated } => self.capture_allocated(
                data,
                shape,
                allocated,
                &mut actions,
            ),
            Event::CaptureReady { data, bytes } => self.capture_ready(data, bytes, &mut actions),
            Event::CaptureFailed { data } => self.capture_failed(data, &mut actions),
            Event::Drawn { output, plan } => self.present_frame(output, plan, &mut actions),
            Event::Cleared { output, blank } => self.present_clear(output, blank, &mut actions),
        }
        actions
    }
}

} // verus!
