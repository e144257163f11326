//! What the daemon knows, what reaches it, and what it does.
//!
//! [`State`] is the daemon's memory, [`Event`] is what the compositor and the
//! control socket tell it, and [`Action`] is what it asks of them in return.
//! Objects of the compositor appear here only as being there or not: the
//! program around the library keeps the objects themselves, one set for each
//! output.

use crate::command::Command;
use crate::frame::{CapturedImage, ImageView};
use std::collections::HashMap;
use vstd::prelude::*;

verus! {

/// An output, and the overlay on it if there is one.
pub struct OutputInfo {
    /// The name the compositor gave it.
    pub name: String,
    /// Whether the overlay has a surface. It has none while the magnifier is
    /// closed, nor while a clean shot of the output is being captured.
    pub surface: bool,
    /// Whether the surface has its layer role.
    pub layer_surface: bool,
    /// Whether the surface has a viewport, which presents a buffer of the
    /// output's native resolution at the surface's logical size.
    pub viewport: bool,
    /// Logical width of the surface, as last configured.
    pub width: i32,
    /// Logical height of the surface, as last configured.
    pub height: i32,
    /// Whether the surface has been configured since it was created.
    pub configured: bool,
    /// Horizontal pointer position in 1/256 of a logical pixel.
    pub focal_x: i32,
    /// Vertical pointer position in 1/256 of a logical pixel.
    pub focal_y: i32,
    /// Whether the compositor still owes the end of the last frame.
    pub frame_cb_pending: bool,
    /// Whether something changed since that frame was drawn.
    pub redraw_dirty: bool,
    /// Whether a capture of the output is under way.
    pub capture_in_flight: bool,
    /// The captured frame that the overlay magnifies.
    pub cached: Option<CapturedImage>,
}

/// What an [`OutputInfo`] holds.
#[verifier::ext_equal]
pub struct OutputView {
    pub name: Seq<char>,
    pub surface: bool,
    pub layer_surface: bool,
    pub viewport: bool,
    pub width: i32,
    pub height: i32,
    pub configured: bool,
    pub focal_x: i32,
    pub focal_y: i32,
    pub frame_cb_pending: bool,
    pub redraw_dirty: bool,
    pub capture_in_flight: bool,
    pub cached: Option<ImageView>,
}

impl View for OutputInfo {
    type V = OutputView;

    open spec fn view(&self) -> OutputView {
        OutputView {
            name: self.name@,
            surface: self.surface,
            layer_surface: self.layer_surface,
            viewport: self.viewport,
            width: self.width,
            height: self.height,
            configured: self.configured,
            focal_x: self.focal_x,
            focal_y: self.focal_y,
            frame_cb_pending: self.frame_cb_pending,
            redraw_dirty: self.redraw_dirty,
            capture_in_flight: self.capture_in_flight,
            cached: match self.cached {
                Some(image) => Some(image@),
                None => None,
            },
        }
    }
}

/// What the compositor has announced of a capture.
#[derive(Clone, Copy, Debug, PartialEq, Eq, Structural)]
pub struct PendingCapture {
    /// The pixel format, unless it is one that the program does not know.
    pub format: Option<u32>,
    pub width: i32,
    pub height: i32,
    pub stride: i32,
}

/// The shape of a buffer that the compositor copies a capture into.
#[derive(Clone, Copy, Debug, PartialEq, Eq, Structural)]
pub struct BufferShape {
    pub width: i32,
    pub height: i32,
    pub stride: i32,
}

/// The daemon's memory.
pub struct State {
    /// The outputs, in the order in which they were announced.
    pub outputs: Vec<OutputInfo>,
    /// The zoom level, in hundredths.
    pub zoom: u32,
    /// The output that is magnified.
    pub active_output: Option<usize>,
    /// Whether the magnifier is open but waits for the pointer to tell which
    /// output it is on.
    pub activating: bool,
    /// Whether the daemon is to stop.
    pub exit: bool,
    /// Serial of the last pointer entry, which the cursor shape refers to.
    pub last_enter_serial: u32,
    /// Whether the compositor offers viewports.
    pub has_viewporter: bool,
    /// Whether the compositor offers cursor shapes.
    pub has_cursor_shape_manager: bool,
    /// Whether the cursor shape device of the pointer exists.
    pub has_cursor_shape_device: bool,
    /// Whether there is a pointer.
    pub has_pointer: bool,
    /// Captures that were announced, by output number.
    pub pending: HashMap<u32, PendingCapture>,
    /// Captures that are being copied, by output number.
    pub capture_buffers: HashMap<u32, BufferShape>,
}

/// What a [`State`] holds.
#[verifier::ext_equal]
pub struct StateView {
    pub outputs: Seq<OutputView>,
    pub zoom: u32,
    pub active_output: Option<usize>,
    pub activating: bool,
    pub exit: bool,
    pub last_enter_serial: u32,
    pub has_viewporter: bool,
    pub has_cursor_shape_manager: bool,
    pub has_cursor_shape_device: bool,
    pub has_pointer: bool,
    pub pending: Map<u32, PendingCapture>,
    pub capture_buffers: Map<u32, BufferShape>,
}

impl View for State {
    type V = StateView;

    open spec fn view(&self) -> StateView {
        StateView {
            outputs: self.outputs@.map_values(|o: OutputInfo| o@),
            zoom: self.zoom,
            active_output: self.active_output,
            activating: self.activating,
            exit: self.exit,
            last_enter_serial: self.last_enter_serial,
            has_viewporter: self.has_viewporter,
            has_cursor_shape_manager: self.has_cursor_shape_manager,
            has_cursor_shape_device: self.has_cursor_shape_device,
            has_pointer: self.has_pointer,
            pending: self.pending@,
            capture_buffers: self.capture_buffers@,
        }
    }
}

impl StateView {
    /// The active output is one of the outputs.
    pub open spec fn wf(self) -> bool {
        self.active_output matches Some(i) ==> i < self.outputs.len()
    }
}

/// Cursor shapes that the daemon sets.
#[derive(Clone, Copy, Debug, PartialEq, Eq, Structural)]
pub enum CursorShape {
    /// The usual arrow.
    Default,
    /// The busy cursor, which shows that the screen is magnified.
    Wait,
}

/// The part of a surface that takes input.
#[derive(Clone, Copy, Debug, PartialEq, Eq, Structural)]
pub enum Region {
    /// None: clicks go through.
    Empty,
    /// A rectangle. The compositor clips it to the surface.
    Rect { x: i32, y: i32, width: i32, height: i32 },
}

/// The layers that a compositor stacks surfaces in, from the lowest up.
#[derive(Clone, Copy, Debug, PartialEq, Eq, Structural)]
pub enum Layer {
    /// Below everything, as wallpapers are.
    Background,
    /// Below windows.
    Bottom,
    /// Above windows.
    Top,
    /// Above everything.
    Overlay,
}

/// How a layer surface is made and placed.
#[derive(Clone, Copy, Debug, PartialEq, Eq)]
pub struct LayerSetup {
    pub layer: Layer,
    /// The name that the compositor's layer rules go by.
    pub namespace: &'static str,
    pub anchor_top: bool,
    pub anchor_bottom: bool,
    pub anchor_left: bool,
    pub anchor_right: bool,
    /// `-1`: the surface also covers what other surfaces keep free.
    pub exclusive_zone: i32,
    /// Whether the surface takes keyboard input.
    pub keyboard: bool,
    /// Zero: as wide as the anchors allow.
    pub width: u32,
    /// Zero: as high as the anchors allow.
    pub height: u32,
}

/// What the daemon asks of the compositor, or of the program around it.
/// Actions are performed in order.
#[derive(Clone, Copy, Debug, PartialEq, Eq)]
#[allow(inconsistent_fields)]
pub enum Action {
    /// Bind an output, which is to be the output of this number.
    BindOutput { global: u32, version: u32, output: usize },
    /// Bind a seat and get its pointer.
    BindSeat { global: u32, version: u32 },
    /// Get the cursor shape device of the pointer.
    CreateCursorShapeDevice,
    /// Set the cursor shape.
    SetCursorShape { serial: u32, shape: CursorShape },
    /// Create the surface of an output's overlay.
    CreateSurface { output: usize },
    /// Set the input region of an overlay.
    SetInputRegion { output: usize, region: Region },
    /// Give an overlay its layer role; its events carry `data`.
    CreateLayerSurface { output: usize, data: u32, setup: LayerSetup },
    /// Create the viewport of an overlay.
    CreateViewport { output: usize },
    /// Commit the surface of an overlay.
    Commit { output: usize },
    /// Destroy the viewport of an overlay.
    DestroyViewport { output: usize },
    /// Destroy the layer role of an overlay.
    DestroyLayerSurface { output: usize },
    /// Destroy the surface of an overlay.
    DestroySurface { output: usize },
    /// Capture an output; the events of the capture carry `data`.
    CaptureOutput { output: usize, data: u32, overlay_cursor: i32 },
    /// Acknowledge the configuration at hand.
    AckConfigure { serial: u32 },
    /// Draw an overlay anew from its cached frame.
    Redraw { output: usize },
    /// Draw an overlay empty.
    Clear { output: usize },
    /// Allocate a buffer for the capture at hand, and report how that went.
    AllocateCapture { data: u32, shape: BufferShape, format: u32 },
    /// Copy the capture at hand into the buffer just allocated.
    CopyFrame,
    /// Destroy the capture at hand.
    DestroyFrame,
    /// Attach the buffer just drawn.
    AttachBuffer { output: usize },
    /// Set how many buffer pixels make a logical pixel.
    SetBufferScale { output: usize, scale: i32 },
    /// Set the logical size at which the viewport presents the buffer.
    SetDestination { output: usize, width: i32, height: i32 },
    /// Mark part of the buffer as changed.
    DamageBuffer { output: usize, x: i32, y: i32, width: i32, height: i32 },
    /// Ask to be told when the next frame is due; the answer carries `data`.
    RequestFrame { output: usize, data: u32 },
}

/// A frame to be drawn for an overlay.
#[derive(Clone, Copy, Debug, PartialEq, Eq, Structural)]
pub struct RedrawPlan {
    /// Logical size of the surface.
    pub logical_w: i32,
    pub logical_h: i32,
    /// Size of the cached image.
    pub src_w: i32,
    pub src_h: i32,
    /// Size of the buffer to draw into.
    pub px_w: i32,
    pub px_h: i32,
    /// Bytes from one row of the buffer to the next, if that is a 32-bit
    /// number.
    pub stride: Option<i32>,
    /// Pixel format of the buffer.
    pub format: u32,
    /// The zoom level, in hundredths.
    pub zoom: u32,
    /// The pointer position in 1/256 of a logical pixel.
    pub focal_x: i32,
    pub focal_y: i32,
}

/// An empty frame to be drawn for an overlay.
#[derive(Clone, Copy, Debug, PartialEq, Eq, Structural)]
pub struct BlankFrame {
    /// Size of the buffer, in pixels.
    pub width: i32,
    pub height: i32,
    /// Bytes from one row of the buffer to the next, if that is a 32-bit
    /// number.
    pub stride: Option<i32>,
    /// Pixel format of the buffer.
    pub format: u32,
}

/// What the daemon is told.
#[allow(inconsistent_fields)]
pub enum Event {
    /// A command arrived.
    Command(Command),
    /// A global was announced, at startup or later.
    Global { startup: bool, global: u32, interface: String, version: u32 },
    /// An output was named.
    OutputName { output: Option<usize>, name: String },
    /// The pointer entered a surface, which is that of the given output's
    /// overlay if it is one of ours.
    PointerEnter { serial: u32, output: Option<usize>, x: i32, y: i32 },
    /// The pointer moved.
    PointerMotion { x: i32, y: i32 },
    /// A layer surface was configured.
    Configure { data: u32, serial: u32, width: u32, height: u32 },
    /// A frame is due.
    FrameDone { data: u32 },
    /// A capture was announced.
    CaptureBuffer { data: u32, format: Option<u32>, width: u32, height: u32, stride: u32 },
    /// The announcements of a capture are complete.
    CaptureBufferDone { data: u32 },
    /// The buffer for a capture was allocated, or could not be.
    CaptureAllocated { data: u32, shape: BufferShape, allocated: bool },
    /// A capture is complete; these are the bytes of its buffer.
    CaptureReady { data: u32, bytes: Vec<u8> },
    /// A capture failed.
    CaptureFailed { data: u32 },
    /// A frame was drawn as planned.
    Drawn { output: usize, plan: RedrawPlan },
    /// An empty frame was drawn as planned.
    Cleared { output: usize, blank: BlankFrame },
}

/// What an [`Event`] says.
#[allow(inconsistent_fields)]
pub enum EventView {
    Command(Command),
    Global { startup: bool, global: u32, interface: Seq<char>, version: u32 },
    OutputName { output: Option<usize>, name: Seq<char> },
    PointerEnter { serial: u32, output: Option<usize>, x: i32, y: i32 },
    PointerMotion { x: i32, y: i32 },
    Configure { data: u32, serial: u32, width: u32, height: u32 },
    FrameDone { data: u32 },
    CaptureBuffer { data: u32, format: Option<u32>, width: u32, height: u32, stride: u32 },
    CaptureBufferDone { data: u32 },
    CaptureAllocated { data: u32, shape: BufferShape, allocated: bool },
    CaptureReady { data: u32, bytes: Seq<u8> },
    CaptureFailed { data: u32 },
    Drawn { output: usize, plan: RedrawPlan },
    Cleared { output: usize, blank: BlankFrame },
}

impl View for Event {
    type V = EventView;

    open spec fn view(&self) -> EventView {
        match *self {
            Event::Command(command) => EventView::Command(command),
            Event::Global { startup, global, interface, version } => EventView::Global {
                startup,
                global,
                interface: interface@,
                version,
            },
            Event::OutputName { output, name } => EventView::OutputName { output, name: name@ },
            Event::PointerEnter { serial, output, x, y } => EventView::PointerEnter {
                serial,
                output,
                x,
                y,
            },
            Event::PointerMotion { x, y } => EventView::PointerMotion { x, y },
            Event::Configure { data, serial, width, height } => EventView::Configure {
                data,
                serial,
                width,
                height,
            },
            Event::FrameDone { data } => EventView::FrameDone { data },
            Event::CaptureBuffer { data, format, width, height, stride } =>
                EventView::CaptureBuffer { data, format, width, height, stride },
            Event::CaptureBufferDone { data } => EventView::CaptureBufferDone { data },
            Event::CaptureAllocated { data, shape, allocated } => EventView::CaptureAllocated {
                data,
                shape,
                allocated,
            },
            Event::CaptureReady { data, bytes } => EventView::CaptureReady { data, bytes: bytes@ },
            Event::CaptureFailed { data } => EventView::CaptureFailed { data },
            Event::Drawn { output, plan } => EventView::Drawn { output, plan },
            Event::Cleared { output, blank } => EventView::Cleared { output, blank },
        }
    }
}

/// The model of an output holds each field as it is.
pub proof fn law_the_model_holds_the_output(output: OutputInfo)
    ensures
        output@.name == output.name@,
        output@.surface == output.surface,
        output@.layer_surface == output.layer_surface,
        output@.viewport == output.viewport,
        output@.width == output.width,
        output@.height == output.height,
        output@.configured == output.configured,
        output@.focal_x == output.focal_x,
        output@.focal_y == output.focal_y,
        output@.frame_cb_pending == output.frame_cb_pending,
        output@.redraw_dirty == output.redraw_dirty,
        output@.capture_in_flight == output.capture_in_flight,
        output@.cached is Some <==> output.cached is Some,
        output.cached matches Some(image) ==> output@.cached matches Some(view) && {
            &&& view.width == image.width
            &&& view.height == image.height
            &&& view.stride == image.stride
            &&& view.bytes == image.bytes@
        },
{
}

/// The model of the daemon's memory holds each field as it is, and the outputs
/// in their order.
pub proof fn law_the_model_holds_the_state(state: State)
    ensures
        state@.outputs.len() == state.outputs@.len(),
        forall|i: int|
            0 <= i < state.outputs@.len() ==> #[trigger] state@.outputs[i] == state.outputs@[i]@,
        state@.zoom == state.zoom,
        state@.active_output == state.active_output,
        state@.activating == state.activating,
        state@.exit == state.exit,
        state@.last_enter_serial == state.last_enter_serial,
        state@.has_viewporter == state.has_viewporter,
        state@.has_cursor_shape_manager == state.has_cursor_shape_manager,
        state@.has_cursor_shape_device == state.has_cursor_shape_device,
        state@.has_pointer == state.has_pointer,
        state@.pending == state.pending@,
        state@.capture_buffers == state.capture_buffers@,
        state@.wf() <==> (state.active_output matches Some(i) ==> i < state.outputs@.len()),
{
}

/// The model of an event says all that the event says, and nothing else.
pub proof fn law_the_model_says_what_the_event_says(event: Event)
    ensures
        match event {
            Event::Command(command) => event@ matches EventView::Command(c) && c == command,
            Event::Global { startup, global, interface, version } => {
                &&& event@ matches EventView::Global { startup: s, global: g, interface: i, version: v }
                &&& s == startup && g == global && i == interface@ && v == version
            },
            Event::OutputName { output, name } => {
                &&& event@ matches EventView::OutputName { output: o, name: n }
                &&& o == output && n == name@
            },
            Event::PointerEnter { serial, output, x, y } => {
                &&& event@ matches EventView::PointerEnter { serial: s, output: o, x: px, y: py }
                &&& s == serial && o == output && px == x && py == y
            },
            Event::PointerMotion { x, y } => {
                &&& event@ matches EventView::PointerMotion { x: px, y: py }
                &&& px == x && py == y
            },
            Event::Configure { data, serial, width, height } => {
                &&& event@ matches EventView::Configure { data: d, serial: s, width: w, height: h }
                &&& d == data && s == serial && w == width && h == height
            },
            Event::FrameDone { data } => event@ matches EventView::FrameDone { data: d } && d
                == data,
            Event::CaptureBuffer { data, format, width, height, stride } => {
                &&& event@ matches EventView::CaptureBuffer {
                    data: d,
                    format: f,
                    width: w,
                    height: h,
                    stride: s,
                }
                &&& d == data && f == format && w == width && h == height && s == stride
            },
            Event::CaptureBufferDone { data } => event@ matches EventView::CaptureBufferDone {
                data: d,
            } && d == data,
            Event::CaptureAllocated { data, shape, allocated } => {
                &&& event@ matches EventView::CaptureAllocated { data: d, shape: s, allocated: a }
                &&& d == data && s == shape && a == allocated
            },
            Event::CaptureReady { data, bytes } => {
                &&& event@ matches EventView::CaptureReady { data: d, bytes: b }
                &&& d == data && b == bytes@
            },
            Event::CaptureFailed { data } => event@ matches EventView::CaptureFailed { data: d }
                && d == data,
            Event::Drawn { output, plan } => {
                &&& event@ matches EventView::Drawn { output: o, plan: p }
                &&& o == output && p == plan
            },
            Event::Cleared { output, blank } => {
                &&& event@ matches EventView::Cleared { output: o, blank: b }
                &&& o == output && b == blank
            },
        },
{
}

} // verus!
