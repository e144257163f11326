//! How the daemon answers each event: the state it goes to and the actions it
//! takes, as mathematics.

use crate::command::Command;
use crate::frame::ImageView;
use crate::model::{
    Action, BlankFrame, BufferShape, CursorShape, EventView, Layer, LayerSetup, OutputView,
    PendingCapture, RedrawPlan, Region, StateView,
};
use crate::shm::{packed_stride, ARGB8888};
use crate::zoom::{zoomed_in, zoomed_out, MIN_ZOOM};
use vstd::prelude::*;

verus! {

/// An answer to an event: a new state, and what is done on the way there.
#[verifier::ext_equal]
pub struct Step {
    pub state: StateView,
    pub actions: Seq<Action>,
}

impl Step {
    /// This step, then one that starts where it ends.
    pub open spec fn then_step(self, next: Step) -> Step {
        Step { state: next.state, actions: self.actions + next.actions }
    }

    /// This step with one more action.
    pub open spec fn and_do(self, action: Action) -> Step {
        Step { state: self.state, actions: self.actions.push(action) }
    }
}

/// The input region that takes in every surface, whatever its size.
pub open spec fn full_region() -> Region {
    Region::Rect { x: 0, y: 0, width: 1_000_000, height: 1_000_000 }
}

/// How overlays are made: above everything, under the program's name, across
/// the whole output, without keyboard input.
pub open spec fn overlay_setup() -> LayerSetup {
    LayerSetup {
        layer: Layer::Overlay,
        namespace: "niri-zoom",
        anchor_top: true,
        anchor_bottom: true,
        anchor_left: true,
        anchor_right: true,
        exclusive_zone: (-1) as i32,
        keyboard: false,
        width: 0,
        height: 0,
    }
}

impl OutputView {
    /// An output that was just announced: nothing is known of it yet, and it
    /// has no overlay.
    pub open spec fn fresh(name: Seq<char>) -> OutputView {
        OutputView {
            name,
            surface: false,
            layer_surface: false,
            viewport: false,
            width: 0,
            height: 0,
            configured: false,
            focal_x: 0,
            focal_y: 0,
            frame_cb_pending: false,
            redraw_dirty: false,
            capture_in_flight: false,
            cached: None,
        }
    }

    /// This output with an overlay: its own if it has one, else a new one.
    pub open spec fn shown(self, viewporter: bool) -> OutputView {
        if self.surface {
            self
        } else {
            OutputView {
                surface: true,
                layer_surface: true,
                viewport: viewporter,
                configured: false,
                ..self
            }
        }
    }

    /// What it takes to show the overlay of output number `i`.
    pub open spec fn show_actions(self, i: usize, viewporter: bool) -> Seq<Action> {
        if self.surface {
            seq![]
        } else {
            let before = seq![
                Action::CreateSurface { output: i },
                Action::SetInputRegion { output: i, region: Region::Empty },
                Action::CreateLayerSurface { output: i, data: i as u32, setup: overlay_setup() },
            ];
            let viewport = if viewporter {
                seq![Action::CreateViewport { output: i }]
            } else {
                seq![]
            };
            before + viewport + seq![Action::Commit { output: i }]
        }
    }

    /// This output without an overlay.
    pub open spec fn torn_down(self) -> OutputView {
        OutputView {
            surface: false,
            layer_surface: false,
            viewport: false,
            configured: false,
            frame_cb_pending: false,
            redraw_dirty: false,
            ..self
        }
    }

    /// What it takes to tear the overlay of output number `i` down.
    pub open spec fn teardown_actions(self, i: usize) -> Seq<Action> {
        let viewport = if self.viewport {
            seq![Action::DestroyViewport { output: i }]
        } else {
            seq![]
        };
        let role = if self.layer_surface {
            seq![Action::DestroyLayerSurface { output: i }]
        } else {
            seq![]
        };
        let surface = if self.surface {
            seq![Action::DestroySurface { output: i }]
        } else {
            seq![]
        };
        viewport + role + surface
    }

    /// The empty frame to draw for this output, if there is anything to draw
    /// it on.
    pub open spec fn blank(self) -> Option<BlankFrame> {
        if self.width == 0 || self.height == 0 || !self.surface {
            None
        } else {
            Some(
                BlankFrame {
                    width: self.width,
                    height: self.height,
                    stride: packed_stride(self.width),
                    format: ARGB8888,
                },
            )
        }
    }

    /// The frame to draw for this output at a zoom level, if there is anything
    /// to draw and anything to draw it on.
    pub open spec fn plan(self, zoom: u32) -> Option<RedrawPlan> {
        if self.width == 0 || self.height == 0 || !self.surface {
            None
        } else {
            match self.cached {
                None => None,
                Some(image) => {
                    let px_w = if self.viewport {
                        image.width
                    } else {
                        self.width
                    };
                    let px_h = if self.viewport {
                        image.height
                    } else {
                        self.height
                    };
                    Some(
                        RedrawPlan {
                            logical_w: self.width,
                            logical_h: self.height,
                            src_w: image.width,
                            src_h: image.height,
                            px_w,
                            px_h,
                            stride: packed_stride(px_w),
                            format: ARGB8888,
                            zoom,
                            focal_x: self.focal_x,
                            focal_y: self.focal_y,
                        },
                    )
                },
            }
        }
    }
}

/// What it takes to show the overlays of the first `n` outputs.
pub open spec fn shows(outputs: Seq<OutputView>, viewporter: bool, n: nat) -> Seq<Action>
    decreases n,
{
    if n == 0 {
        seq![]
    } else {
        shows(outputs, viewporter, (n - 1) as nat) + outputs[n - 1].show_actions(
            (n - 1) as usize,
            viewporter,
        )
    }
}

/// What it takes to have the overlays of the first `n` outputs take input.
pub open spec fn grabs(n: nat) -> Seq<Action>
    decreases n,
{
    if n == 0 {
        seq![]
    } else {
        grabs((n - 1) as nat) + seq![
            Action::SetInputRegion { output: (n - 1) as usize, region: full_region() },
            Action::Commit { output: (n - 1) as usize },
        ]
    }
}

/// What it takes to tear down the overlays of the first `n` outputs, except
/// that of `kept`.
pub open spec fn teardowns(outputs: Seq<OutputView>, kept: Option<usize>, n: nat) -> Seq<Action>
    decreases n,
{
    if n == 0 {
        seq![]
    } else {
        teardowns(outputs, kept, (n - 1) as nat) + if (kept matches Some(k) && k == n - 1) {
            seq![]
        } else {
            outputs[n - 1].teardown_actions((n - 1) as usize)
        }
    }
}

impl StateView {
    /// The state at startup, before anything is announced.
    pub open spec fn initial(viewporter: bool, cursor_shape_manager: bool) -> StateView {
        StateView {
            outputs: seq![],
            zoom: MIN_ZOOM,
            active_output: None,
            activating: false,
            exit: false,
            last_enter_serial: 0,
            has_viewporter: viewporter,
            has_cursor_shape_manager: cursor_shape_manager,
            has_cursor_shape_device: false,
            has_pointer: false,
            pending: Map::empty(),
            capture_buffers: Map::empty(),
        }
    }

    /// Nothing to do.
    pub open spec fn stay(self) -> Step {
        Step { state: self, actions: seq![] }
    }

    /// This state with one output changed.
    pub open spec fn with_output(self, i: usize, output: OutputView) -> StateView {
        StateView { outputs: self.outputs.update(i as int, output), ..self }
    }

    /// Every overlay torn down, except that of `kept`.
    pub open spec fn tear_down_all(self, kept: Option<usize>) -> Step {
        Step {
            state: StateView {
                outputs: Seq::new(
                    self.outputs.len(),
                    |i: int|
                        if (kept matches Some(k) && k == i) {
                            self.outputs[i]
                        } else {
                            self.outputs[i].torn_down()
                        },
                ),
                ..self
            },
            actions: teardowns(self.outputs, kept, self.outputs.len()),
        }
    }

    /// The cursor set to a shape, where that can be done.
    pub open spec fn cursor_actions(self, serial: u32, shape: CursorShape) -> Seq<Action> {
        if self.has_cursor_shape_device {
            seq![Action::SetCursorShape { serial, shape }]
        } else {
            seq![]
        }
    }

    /// The cursor shape device is made as soon as there are a pointer and a
    /// manager, and only once.
    pub open spec fn ensure_cursor_shape_device(self) -> Step {
        if !self.has_cursor_shape_device && self.has_pointer && self.has_cursor_shape_manager {
            Step {
                state: StateView { has_cursor_shape_device: true, ..self },
                actions: seq![Action::CreateCursorShapeDevice],
            }
        } else {
            self.stay()
        }
    }

    /// One more output, without an overlay.
    pub open spec fn add_output(self, name: Seq<char>) -> StateView {
        StateView { outputs: self.outputs.push(OutputView::fresh(name)), ..self }
    }

    /// The overlay of an output created, unless it exists.
    pub open spec fn ensure_layer_surface(self, i: usize) -> Step {
        let output = self.outputs[i as int];
        Step {
            state: self.with_output(i, output.shown(self.has_viewporter)),
            actions: output.show_actions(i, self.has_viewporter),
        }
    }

    /// The overlay of an output torn down.
    pub open spec fn destroy_layer_surface(self, i: usize) -> Step {
        let output = self.outputs[i as int];
        Step {
            state: self.with_output(i, output.torn_down()),
            actions: output.teardown_actions(i),
        }
    }

    /// A redraw is asked for. None happens while a capture is under way, nor
    /// before the surface is there and configured; while the last frame is not
    /// over yet, it is put off.
    pub open spec fn request_redraw(self, i: usize) -> Step {
        let output = self.outputs[i as int];
        if output.capture_in_flight || !output.surface || !output.configured {
            self.stay()
        } else if output.frame_cb_pending {
            self.with_output(i, OutputView { redraw_dirty: true, ..output }).stay()
        } else {
            self.stay().and_do(Action::Redraw { output: i })
        }
    }

    /// Every overlay shown, and taking input.
    pub open spec fn open_overlays(self) -> Step {
        Step {
            state: StateView {
                activating: true,
                outputs: Seq::new(
                    self.outputs.len(),
                    |i: int| self.outputs[i].shown(self.has_viewporter),
                ),
                ..self
            },
            actions: shows(self.outputs, self.has_viewporter, self.outputs.len()) + grabs(
                self.outputs.len(),
            ),
        }
    }

    /// One step in. Where the magnifier is closed it opens; where an output is
    /// magnified it is drawn anew.
    pub open spec fn zoom_in(self) -> Step {
        let opened = if self.active_output is None && !self.activating {
            self.open_overlays()
        } else {
            self.stay()
        };
        let zoomed = StateView { zoom: zoomed_in(self.zoom), ..opened.state };
        match self.active_output {
            Some(i) => zoomed.request_redraw(i),
            None => Step { state: zoomed, actions: opened.actions },
        }
    }

    /// One step out on the magnified output, if there is one. At 1x the
    /// magnifier closes; above it, the output is drawn anew.
    pub open spec fn zoom_out(self) -> Step {
        match self.active_output {
            None => self.stay(),
            Some(i) => {
                let zoomed = StateView { zoom: zoomed_out(self.zoom), ..self };
                if zoomed.zoom <= MIN_ZOOM {
                    zoomed.deactivate()
                } else {
                    zoomed.request_redraw(i)
                }
            },
        }
    }

    /// Back to 1x, and closed.
    pub open spec fn zoom_reset(self) -> Step {
        StateView { zoom: MIN_ZOOM, ..self }.deactivate()
    }

    /// The magnifier closed: the usual cursor, no overlay, no cached frame.
    pub open spec fn deactivate(self) -> Step {
        Step {
            state: StateView {
                active_output: None,
                activating: false,
                outputs: self.outputs.map_values(
                    |output: OutputView| OutputView { cached: None, ..output.torn_down() },
                ),
                ..self
            },
            actions: self.cursor_actions(self.last_enter_serial, CursorShape::Default) + teardowns(
                self.outputs,
                None,
                self.outputs.len(),
            ),
        }
    }

    /// A capture of an output started, unless one is under way. The overlay is
    /// torn down first, so that the capture cannot show it.
    pub open spec fn activate_output(self, i: usize) -> Step {
        let output = self.outputs[i as int];
        if output.capture_in_flight {
            self.stay()
        } else {
            Step {
                state: self.with_output(
                    i,
                    OutputView { capture_in_flight: true, ..output.torn_down() },
                ),
                actions: output.teardown_actions(i).push(
                    Action::CaptureOutput { output: i, data: i as u32, overlay_cursor: 0 },
                ),
            }
        }
    }

    /// The overlay of the active output shown again after its capture.
    pub open spec fn show_active_surface(self, i: usize) -> Step {
        if self.active_output != Some(i) {
            self.stay()
        } else {
            self.ensure_layer_surface(i).and_do(
                Action::SetInputRegion { output: i, region: full_region() },
            )
        }
    }

    /// A capture that brought nothing: every overlay goes, and the wait for the
    /// pointer ends. Where the capture was that of the active output, or none is
    /// active, the magnifier is closed by that; where another output is active,
    /// it stays active without an overlay.
    pub open spec fn capture_aborted(self, i: usize) -> Step {
        if self.active_output == Some(i) {
            self.deactivate()
        } else {
            StateView { activating: false, ..self }.tear_down_all(None)
        }
    }

    /// A global was announced: outputs are added, and the pointer of a seat is
    /// taken, at startup that of every seat and later only the first.
    pub open spec fn announce(
        self,
        startup: bool,
        global: u32,
        interface: Seq<char>,
        version: u32,
    ) -> Step {
        if interface == "wl_output"@ {
            Step {
                state: self.add_output("unknown"@),
                actions: seq![
                    Action::BindOutput {
                        global,
                        version: if version <= 4 {
                            version
                        } else {
                            4
                        },
                        output: self.outputs.len() as usize,
                    },
                ],
            }
        } else if interface == "wl_seat"@ && (startup || !self.has_pointer) {
            Step {
                state: StateView { has_pointer: true, ..self },
                actions: seq![
                    Action::BindSeat {
                        global,
                        version: if version <= 7 {
                            version
                        } else {
                            7
                        },
                    },
                ],
            }.then_step(StateView { has_pointer: true, ..self }.ensure_cursor_shape_device())
        } else {
            self.stay()
        }
    }

    /// An output was named.
    pub open spec fn output_name(self, output: Option<usize>, name: Seq<char>) -> StateView {
        match output {
            Some(i) if i < self.outputs.len() => self.with_output(
                i,
                OutputView { name, ..self.outputs[i as int] },
            ),
            _ => self,
        }
    }

    /// The pointer entered output `i`: where the magnifier waits for the
    /// pointer, that output is the one to magnify, and the other overlays go.
    pub open spec fn choose_output(self, i: usize) -> Step {
        if self.activating {
            let chosen = StateView {
                activating: false,
                active_output: Some(i),
                ..self
            }.tear_down_all(Some(i));
            chosen.then_step(chosen.state.activate_output(i))
        } else {
            self.stay()
        }
    }

    /// The pointer entered a surface. Nothing but the serial is noted unless it
    /// is the surface of an overlay. On the active output the busy cursor is
    /// set.
    pub open spec fn pointer_enter(
        self,
        serial: u32,
        output: Option<usize>,
        x: i32,
        y: i32,
    ) -> Step {
        let entered = StateView { last_enter_serial: serial, ..self };
        match output {
            Some(i) if i < self.outputs.len() && self.outputs[i as int].surface => {
                let focused = entered.with_output(
                    i,
                    OutputView { focal_x: x, focal_y: y, ..self.outputs[i as int] },
                );
                let chosen = focused.choose_output(i);
                if chosen.state.active_output == Some(i) {
                    Step {
                        state: chosen.state,
                        actions: chosen.actions + self.cursor_actions(serial, CursorShape::Wait),
                    }
                } else {
                    chosen
                }
            },
            _ => entered.stay(),
        }
    }

    /// The pointer moved on the active output, which is drawn anew where there
    /// is a frame to draw.
    pub open spec fn pointer_motion(self, x: i32, y: i32) -> Step {
        match self.active_output {
            Some(i) => {
                let focused = self.with_output(
                    i,
                    OutputView { focal_x: x, focal_y: y, ..self.outputs[i as int] },
                );
                if self.outputs[i as int].cached is Some {
                    focused.request_redraw(i)
                } else {
                    focused.stay()
                }
            },
            None => self.stay(),
        }
    }

    /// An overlay was configured: it is drawn from the cached frame if it is
    /// the active one and has one, else empty.
    pub open spec fn configure(self, data: u32, serial: u32, width: u32, height: u32) -> Step {
        let i = data as usize;
        let configured = self.with_output(
            i,
            OutputView {
                width: width as i32,
                height: height as i32,
                configured: true,
                ..self.outputs[i as int]
            },
        );
        self.stay().and_do(Action::AckConfigure { serial }).then_step(
            if self.active_output == Some(i) && self.outputs[i as int].cached is Some {
                configured.request_redraw(i)
            } else {
                configured.stay().and_do(Action::Clear { output: i })
            },
        )
    }

    /// The frame on screen is over: a redraw that was put off happens, on the
    /// active output only.
    pub open spec fn frame_done(self, data: u32) -> Step {
        let i = data as usize;
        if i < self.outputs.len() {
            let output = self.outputs[i as int];
            let over = self.with_output(
                i,
                OutputView { frame_cb_pending: false, redraw_dirty: false, ..output },
            );
            if output.redraw_dirty && self.active_output == Some(i) {
                over.stay().and_do(Action::Redraw { output: i })
            } else {
                over.stay()
            }
        } else {
            self.stay()
        }
    }

    /// A capture was announced, and is noted.
    pub open spec fn capture_buffer(
        self,
        data: u32,
        format: Option<u32>,
        width: u32,
        height: u32,
        stride: u32,
    ) -> StateView {
        StateView {
            pending: self.pending.insert(
                data,
                PendingCapture {
                    format,
                    width: width as i32,
                    height: height as i32,
                    stride: stride as i32,
                },
            ),
            ..self
        }
    }

    /// This state once the capture of output `i` is over.
    pub open spec fn capture_over(self, i: usize) -> StateView {
        if i < self.outputs.len() {
            self.with_output(i, OutputView { capture_in_flight: false, ..self.outputs[i as int] })
        } else {
            self
        }
    }

    /// A capture failed.
    pub open spec fn capture_failed(self, data: u32) -> Step {
        self.stay().and_do(Action::DestroyFrame).then_step(
            self.capture_over(data as usize).capture_aborted(data as usize),
        )
    }

    /// The announcements of a capture are complete: a buffer is allocated, if
    /// there is a format to go by; else the capture fails.
    pub open spec fn capture_buffer_done(self, data: u32) -> Step {
        let rest = StateView { pending: self.pending.remove(data), ..self };
        if self.pending.contains_key(data) && self.pending[data].format is Some {
            let capture = self.pending[data];
            rest.stay().and_do(
                Action::AllocateCapture {
                    data,
                    shape: BufferShape {
                        width: capture.width,
                        height: capture.height,
                        stride: capture.stride,
                    },
                    format: capture.format.unwrap(),
                },
            )
        } else {
            rest.capture_failed(data)
        }
    }

    /// The buffer for a capture was allocated, and the capture is copied; or it
    /// was not, and the capture fails.
    pub open spec fn capture_allocated(
        self,
        data: u32,
        shape: BufferShape,
        allocated: bool,
    ) -> Step {
        if allocated {
            StateView {
                capture_buffers: self.capture_buffers.insert(data, shape),
                ..self
            }.stay().and_do(Action::CopyFrame)
        } else {
            self.capture_failed(data)
        }
    }

    /// A capture that is complete is kept if its output is still the active
    /// one.
    pub open spec fn keep_capture(self, data: u32, bytes: Seq<u8>) -> StateView {
        let i = data as usize;
        if self.capture_buffers.contains_key(data) && i < self.outputs.len() {
            let shape = self.capture_buffers[data];
            let output = self.outputs[i as int];
            let image = ImageView {
                width: shape.width,
                height: shape.height,
                stride: shape.stride,
                bytes,
            };
            self.with_output(
                i,
                OutputView {
                    capture_in_flight: false,
                    cached: if self.active_output == Some(i) {
                        Some(image)
                    } else {
                        output.cached
                    },
                    ..output
                },
            )
        } else {
            self
        }
    }

    /// A capture is complete.
    pub open spec fn capture_ready(self, data: u32, bytes: Seq<u8>) -> Step {
        let kept = StateView {
            capture_buffers: self.capture_buffers.remove(data),
            ..self.keep_capture(data, bytes)
        };
        kept.stay().and_do(Action::DestroyFrame).then_step(kept.show_active_surface(data as usize))
    }

    /// A frame that was drawn is put on screen.
    pub open spec fn present_frame(self, i: usize, plan: RedrawPlan) -> Step {
        let output = self.outputs[i as int];
        if !output.surface {
            self.stay()
        } else {
            let attach = seq![
                Action::AttachBuffer { output: i },
                Action::SetBufferScale { output: i, scale: 1 },
            ];
            let destination = if output.viewport {
                seq![
                    Action::SetDestination {
                        output: i,
                        width: plan.logical_w,
                        height: plan.logical_h,
                    },
                ]
            } else {
                seq![]
            };
            let damage = seq![
                Action::DamageBuffer { output: i, x: 0, y: 0, width: plan.px_w, height: plan.px_h },
            ];
            let frame = if output.frame_cb_pending {
                seq![]
            } else {
                seq![Action::RequestFrame { output: i, data: i as u32 }]
            };
            Step {
                state: self.with_output(i, OutputView { frame_cb_pending: true, ..output }),
                actions: attach + destination + damage + frame + seq![Action::Commit { output: i }],
            }
        }
    }

    /// An empty frame that was drawn is put on screen.
    pub open spec fn present_clear(self, i: usize, blank: BlankFrame) -> Step {
        if !self.outputs[i as int].surface {
            self.stay()
        } else {
            Step {
                state: self,
                actions: seq![
                    Action::AttachBuffer { output: i },
                    Action::SetBufferScale { output: i, scale: 1 },
                    Action::DamageBuffer {
                        output: i,
                        x: 0,
                        y: 0,
                        width: blank.width,
                        height: blank.height,
                    },
                    Action::Commit { output: i },
                ],
            }
        }
    }

    /// A command is obeyed.
    pub open spec fn obey(self, command: Command) -> Step {
        match command {
            Command::In => self.zoom_in(),
            Command::Out => self.zoom_out(),
            Command::Reset => self.zoom_reset(),
        }
    }

    /// The events that can happen: those that name an output for good name one
    /// that exists.
    pub open spec fn accepts(self, event: EventView) -> bool {
        match event {
            EventView::Configure { data, .. } => data < self.outputs.len(),
            EventView::Drawn { output, .. } => output < self.outputs.len(),
            EventView::Cleared { output, .. } => output < self.outputs.len(),
            _ => true,
        }
    }

    /// The answer to an event.
    pub open spec fn step(self, event: EventView) -> Step {
        match event {
            EventView::Command(command) => self.obey(command),
            EventView::Global { startup, global, interface, version } => self.announce(
                startup,
                global,
                interface,
                version,
            ),
            EventView::OutputName { output, name } => self.output_name(output, name).stay(),
            EventView::PointerEnter { serial, output, x, y } => self.pointer_enter(
                serial,
                output,
                x,
                y,
            ),
            EventView::PointerMotion { x, y } => self.pointer_motion(x, y),
            EventView::Configure { data, serial, width, height } => self.configure(
                data,
                serial,
                width,
                height,
            ),
            EventView::FrameDone { data } => self.frame_done(data),
            EventView::CaptureBuffer { data, format, width, height, stride } => self.capture_buffer(
                data,
                format,
                width,
                height,
                stride,
            ).stay(),
            EventView::CaptureBufferDone { data } => self.capture_buffer_done(data),
            EventView::CaptureAllocated { data, shape, allocated } => self.capture_allocated(
                data,
                shape,
                allocated,
            ),
            EventView::CaptureReady { data, bytes } => self.capture_ready(data, bytes),
            EventView::CaptureFailed { data } => self.capture_failed(data),
            EventView::Drawn { output, plan } => self.present_frame(output, plan),
            EventView::Cleared { output, blank } => self.present_clear(output, blank),
        }
    }
}

} // verus!
