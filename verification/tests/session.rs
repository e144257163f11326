use niri_zoom::command::{request_line, Command};
use niri_zoom::frame::CapturedImage;
use niri_zoom::model::{
    Action, BlankFrame, BufferShape, CursorShape, Event, Layer, LayerSetup, PendingCapture,
    RedrawPlan, Region, State,
};
use niri_zoom::session::{overlay_namespace, FULL_REGION, OUTPUT_VERSION, SEAT_VERSION};

const FULL: Region = Region::Rect { x: 0, y: 0, width: 1_000_000, height: 1_000_000 };

const SETUP: LayerSetup = LayerSetup {
    layer: Layer::Overlay,
    namespace: "niri-zoom",
    anchor_top: true,
    anchor_bottom: true,
    anchor_left: true,
    anchor_right: true,
    exclusive_zone: -1,
    keyboard: false,
    width: 0,
    height: 0,
};

const SHAPE: BufferShape = BufferShape { width: 3, height: 2, stride: 12 };

fn global(startup: bool, global: u32, interface: &str, version: u32) -> Event {
    Event::Global { startup, global, interface: interface.to_string(), version }
}

/// A daemon with so many outputs and a seat, everything optional supported.
fn started(outputs: u32) -> State {
    let mut state = State::new(true, true);
    for i in 0..outputs {
        state.handle(global(true, i, "wl_output", 4));
    }
    state.handle(global(true, 99, "wl_seat", 7));
    state
}

fn zoom_in(state: &mut State) -> Vec<Action> {
    state.handle(Event::Command(Command::In))
}

fn enter(state: &mut State, serial: u32, output: usize) -> Vec<Action> {
    state.handle(Event::PointerEnter { serial, output: Some(output), x: 2560, y: 5120 })
}

/// Announces a capture and has its buffer allocated.
fn announce_capture(state: &mut State, data: u32) -> Vec<Action> {
    state.handle(Event::CaptureBuffer { data, format: Some(1), width: 3, height: 2, stride: 12 });
    state.handle(Event::CaptureBufferDone { data });
    state.handle(Event::CaptureAllocated { data, shape: SHAPE, allocated: true })
}

fn ready(state: &mut State, data: u32) -> Vec<Action> {
    state.handle(Event::CaptureReady { data, bytes: (0..24).collect() })
}

/// A daemon that magnifies one of its outputs, with nothing drawn yet.
fn magnified(outputs: u32, active: usize) -> State {
    let mut state = started(outputs);
    zoom_in(&mut state);
    enter(&mut state, 7, active);
    announce_capture(&mut state, active as u32);
    ready(&mut state, active as u32);
    state.handle(Event::Configure { data: active as u32, serial: 8, width: 30, height: 20 });
    state
}

fn drawn(state: &mut State, output: usize) -> Vec<Action> {
    let plan = state.redraw_from_cache(output).expect("there is something to draw");
    state.handle(Event::Drawn { output, plan })
}

fn is_closed(state: &State) -> bool {
    state.active_output.is_none() && !state.activating
}

/// Nothing covers the screen and no frame is held.
fn is_clean(state: &State) -> bool {
    state.outputs.iter().all(|o| {
        !o.surface && !o.layer_surface && !o.viewport && !o.configured && o.cached.is_none()
    })
}

#[test]
fn the_daemon_starts_closed_at_the_lowest_level() {
    let state = State::new(false, true);
    assert_eq!(state.zoom, 100);
    assert!(is_closed(&state));
    assert!(state.outputs.is_empty());
    assert!(!state.exit && !state.has_pointer && !state.has_cursor_shape_device);
    assert!(!state.has_viewporter && state.has_cursor_shape_manager);
    assert_eq!(state.last_enter_serial, 0);
    assert!(state.pending.is_empty() && state.capture_buffers.is_empty());
}

#[test]
fn announced_outputs_are_bound_in_turn() {
    let mut state = State::new(true, true);
    assert_eq!(
        state.handle(global(true, 17, "wl_output", 9)),
        vec![Action::BindOutput { global: 17, version: OUTPUT_VERSION, output: 0 }]
    );
    assert_eq!(
        state.handle(global(false, 23, "wl_output", 2)),
        vec![Action::BindOutput { global: 23, version: 2, output: 1 }]
    );
    assert_eq!(OUTPUT_VERSION, 4);
    assert_eq!(state.outputs.len(), 2);
    assert_eq!(state.outputs[0].name, "unknown");
    assert_eq!((state.outputs[1].width, state.outputs[1].height), (0, 0));
    assert!(is_clean(&state));
}

#[test]
fn other_globals_are_passed_over() {
    let mut state = State::new(true, true);
    for interface in ["wl_compositor", "wl_outputs", "", "WL_SEAT"] {
        assert_eq!(state.handle(global(true, 1, interface, 1)), vec![]);
    }
    assert!(state.outputs.is_empty() && !state.has_pointer);
}

#[test]
fn seats_bring_a_pointer_and_its_cursor_shapes() {
    let mut state = State::new(true, true);
    assert_eq!(
        state.handle(global(true, 5, "wl_seat", 9)),
        vec![
            Action::BindSeat { global: 5, version: SEAT_VERSION },
            Action::CreateCursorShapeDevice
        ]
    );
    assert_eq!(SEAT_VERSION, 7);
    // At startup every seat is bound, but there is one device only.
    assert_eq!(
        state.handle(global(true, 6, "wl_seat", 3)),
        vec![Action::BindSeat { global: 6, version: 3 }]
    );
    // Later, only a first one is.
    assert_eq!(state.handle(global(false, 7, "wl_seat", 3)), vec![]);
    let mut state = State::new(true, false);
    assert_eq!(
        state.handle(global(false, 7, "wl_seat", 3)),
        vec![Action::BindSeat { global: 7, version: 3 }]
    );
    assert!(!state.has_cursor_shape_device);
}

#[test]
fn the_cursor_shape_device_is_made_once() {
    let mut state = State::new(true, true);
    let mut actions = Vec::new();
    state.ensure_cursor_shape_device(&mut actions);
    assert_eq!(actions, vec![]);
    state.has_pointer = true;
    state.ensure_cursor_shape_device(&mut actions);
    state.ensure_cursor_shape_device(&mut actions);
    assert_eq!(actions, vec![Action::CreateCursorShapeDevice]);
}

#[test]
fn outputs_are_named() {
    let mut state = started(2);
    state.handle(Event::OutputName { output: Some(1), name: "DP-1".to_string() });
    state.handle(Event::OutputName { output: None, name: "none".to_string() });
    state.handle(Event::OutputName { output: Some(2), name: "far".to_string() });
    assert_eq!(state.outputs[0].name, "unknown");
    assert_eq!(state.outputs[1].name, "DP-1");
}

#[test]
fn opening_covers_every_output() {
    let mut state = started(2);
    let actions = zoom_in(&mut state);
    let mut expected = Vec::new();
    for output in 0..2 {
        expected.push(Action::CreateSurface { output });
        expected.push(Action::SetInputRegion { output, region: Region::Empty });
        expected.push(Action::CreateLayerSurface { output, data: output as u32, setup: SETUP });
        expected.push(Action::CreateViewport { output });
        expected.push(Action::Commit { output });
    }
    for output in 0..2 {
        expected.push(Action::SetInputRegion { output, region: FULL });
        expected.push(Action::Commit { output });
    }
    assert_eq!(actions, expected);
    assert_eq!(FULL_REGION, 1_000_000);
    assert_eq!(overlay_namespace(), "niri-zoom");
    assert!(state.activating && state.active_output.is_none());
    assert_eq!(state.zoom, 125);
    assert!(state.outputs.iter().all(|o| o.surface && o.layer_surface && o.viewport));
}

#[test]
fn overlays_go_without_viewports_where_there_are_none() {
    let mut state = State::new(false, false);
    state.handle(global(true, 1, "wl_output", 4));
    let actions = zoom_in(&mut state);
    assert!(!actions.contains(&Action::CreateViewport { output: 0 }));
    assert!(state.outputs[0].surface && !state.outputs[0].viewport);
}

#[test]
fn a_second_step_in_while_opening_only_zooms() {
    let mut state = started(2);
    zoom_in(&mut state);
    assert_eq!(zoom_in(&mut state), vec![]);
    assert_eq!(state.zoom, 150);
    assert!(state.activating);
}

#[test]
fn the_pointer_chooses_the_output() {
    let mut state = started(2);
    zoom_in(&mut state);
    assert_eq!(
        enter(&mut state, 41, 1),
        vec![
            Action::DestroyViewport { output: 0 },
            Action::DestroyLayerSurface { output: 0 },
            Action::DestroySurface { output: 0 },
            Action::DestroyViewport { output: 1 },
            Action::DestroyLayerSurface { output: 1 },
            Action::DestroySurface { output: 1 },
            Action::CaptureOutput { output: 1, data: 1, overlay_cursor: 0 },
            Action::SetCursorShape { serial: 41, shape: CursorShape::Wait },
        ]
    );
    assert_eq!(state.active_output, Some(1));
    assert!(!state.activating);
    assert!(state.outputs[1].capture_in_flight && !state.outputs[1].surface);
    assert_eq!((state.outputs[1].focal_x, state.outputs[1].focal_y), (2560, 5120));
    assert_eq!(state.last_enter_serial, 41);
}

#[test]
fn foreign_surfaces_only_leave_their_serial() {
    let mut state = started(1);
    zoom_in(&mut state);
    let event = Event::PointerEnter { serial: 3, output: None, x: 1, y: 2 };
    assert_eq!(state.handle(event), vec![]);
    let event = Event::PointerEnter { serial: 4, output: Some(6), x: 1, y: 2 };
    assert_eq!(state.handle(event), vec![]);
    assert!(state.activating);
    assert_eq!(state.last_enter_serial, 4);
    assert_eq!(state.outputs[0].focal_x, 0);
}

#[test]
fn a_capture_becomes_the_view() {
    let mut state = started(1);
    zoom_in(&mut state);
    enter(&mut state, 7, 0);
    state.handle(Event::CaptureBuffer { data: 0, format: Some(1), width: 3, height: 2, stride: 12 });
    assert_eq!(
        state.pending.get(&0),
        Some(&PendingCapture { format: Some(1), width: 3, height: 2, stride: 12 })
    );
    assert_eq!(
        state.handle(Event::CaptureBufferDone { data: 0 }),
        vec![Action::AllocateCapture { data: 0, shape: SHAPE, format: 1 }]
    );
    assert!(state.pending.is_empty());
    assert_eq!(
        state.handle(Event::CaptureAllocated { data: 0, shape: SHAPE, allocated: true }),
        vec![Action::CopyFrame]
    );
    assert_eq!(
        ready(&mut state, 0),
        vec![
            Action::DestroyFrame,
            Action::CreateSurface { output: 0 },
            Action::SetInputRegion { output: 0, region: Region::Empty },
            Action::CreateLayerSurface { output: 0, data: 0, setup: SETUP },
            Action::CreateViewport { output: 0 },
            Action::Commit { output: 0 },
            Action::SetInputRegion { output: 0, region: FULL },
        ]
    );
    let output = &state.outputs[0];
    assert!(!output.capture_in_flight && output.surface && !output.configured);
    let cached = output.cached.as_ref().expect("the frame is kept");
    assert_eq!((cached.width, cached.height, cached.stride), (3, 2, 12));
    assert_eq!(cached.bytes, (0..24).collect::<Vec<u8>>());
    assert!(state.capture_buffers.is_empty());
}

#[test]
fn sizes_beyond_the_signed_range_wrap() {
    let mut state = started(1);
    let event =
        Event::CaptureBuffer { data: 0, format: None, width: u32::MAX, height: 1 << 31, stride: 5 };
    state.handle(event);
    assert_eq!(
        state.pending.get(&0),
        Some(&PendingCapture { format: None, width: -1, height: i32::MIN, stride: 5 })
    );
    zoom_in(&mut state);
    state.handle(Event::Configure { data: 0, serial: 1, width: u32::MAX, height: 4 });
    assert_eq!(state.outputs[0].width, -1);
}

#[test]
fn the_first_configuration_draws_the_view() {
    let mut state = started(1);
    zoom_in(&mut state);
    enter(&mut state, 7, 0);
    announce_capture(&mut state, 0);
    ready(&mut state, 0);
    // Before it nothing is drawn.
    assert_eq!(zoom_in(&mut state), vec![]);
    assert_eq!(
        state.handle(Event::Configure { data: 0, serial: 50, width: 30, height: 20 }),
        vec![Action::AckConfigure { serial: 50 }, Action::Redraw { output: 0 }]
    );
    assert_eq!((state.outputs[0].width, state.outputs[0].height), (30, 20));
}

#[test]
fn overlays_without_a_frame_are_drawn_empty() {
    let mut state = started(1);
    zoom_in(&mut state);
    assert_eq!(
        state.handle(Event::Configure { data: 0, serial: 50, width: 30, height: 20 }),
        vec![Action::AckConfigure { serial: 50 }, Action::Clear { output: 0 }]
    );
    assert_eq!(state.redraw_from_cache(0), None);
    let blank = BlankFrame { width: 30, height: 20, stride: Some(120), format: 0 };
    assert_eq!(state.clear_surface(0), Some(blank));
    assert_eq!(
        state.handle(Event::Cleared { output: 0, blank }),
        vec![
            Action::AttachBuffer { output: 0 },
            Action::SetBufferScale { output: 0, scale: 1 },
            Action::DamageBuffer { output: 0, x: 0, y: 0, width: 30, height: 20 },
            Action::Commit { output: 0 },
        ]
    );
    // A surface that is gone is not drawn on.
    state.handle(Event::Command(Command::Reset));
    assert_eq!(state.clear_surface(0), None);
    assert_eq!(state.handle(Event::Cleared { output: 0, blank }), vec![]);
}

#[test]
fn overlays_without_a_size_are_not_drawn() {
    let mut state = magnified(1, 0);
    state.handle(Event::Configure { data: 0, serial: 51, width: 0, height: 20 });
    assert_eq!(state.redraw_from_cache(0), None);
    assert_eq!(state.clear_surface(0), None);
}

#[test]
fn frames_are_planned_at_the_native_resolution() {
    let state = magnified(1, 0);
    let plan = RedrawPlan {
        logical_w: 30,
        logical_h: 20,
        src_w: 3,
        src_h: 2,
        px_w: 3,
        px_h: 2,
        stride: Some(12),
        format: 0,
        zoom: 125,
        focal_x: 2560,
        focal_y: 5120,
    };
    assert_eq!(state.redraw_from_cache(0), Some(plan));
}

#[test]
fn frames_are_planned_at_the_logical_resolution_without_viewports() {
    let mut state = State::new(false, true);
    state.handle(global(true, 1, "wl_output", 4));
    zoom_in(&mut state);
    enter(&mut state, 7, 0);
    announce_capture(&mut state, 0);
    ready(&mut state, 0);
    state.handle(Event::Configure { data: 0, serial: 8, width: 30, height: 20 });
    let plan = state.redraw_from_cache(0).unwrap();
    assert_eq!((plan.px_w, plan.px_h, plan.src_w, plan.src_h), (30, 20, 3, 2));
    assert!(!drawn(&mut state, 0)
        .contains(&Action::SetDestination { output: 0, width: 30, height: 20 }));
}

#[test]
fn frames_that_were_drawn_are_put_on_screen() {
    let mut state = magnified(1, 0);
    assert_eq!(
        drawn(&mut state, 0),
        vec![
            Action::AttachBuffer { output: 0 },
            Action::SetBufferScale { output: 0, scale: 1 },
            Action::SetDestination { output: 0, width: 30, height: 20 },
            Action::DamageBuffer { output: 0, x: 0, y: 0, width: 3, height: 2 },
            Action::RequestFrame { output: 0, data: 0 },
            Action::Commit { output: 0 },
        ]
    );
    assert!(state.outputs[0].frame_cb_pending);
    // The end of the frame is asked for once.
    assert!(!drawn(&mut state, 0).contains(&Action::RequestFrame { output: 0, data: 0 }));
}

#[test]
fn a_frame_for_a_surface_that_is_gone_is_dropped() {
    let mut state = magnified(1, 0);
    let plan = state.redraw_from_cache(0).unwrap();
    state.handle(Event::Command(Command::Reset));
    assert_eq!(state.handle(Event::Drawn { output: 0, plan }), vec![]);
    assert!(!state.outputs[0].frame_cb_pending);
}

#[test]
fn the_view_follows_the_pointer() {
    let mut state = magnified(2, 1);
    assert_eq!(
        state.handle(Event::PointerMotion { x: 300, y: -4 }),
        vec![Action::Redraw { output: 1 }]
    );
    let plan = state.redraw_from_cache(1).unwrap();
    assert_eq!((plan.focal_x, plan.focal_y), (300, -4));
    assert_eq!(state.outputs[0].focal_x, 0);
}

#[test]
fn motion_is_noted_before_there_is_a_frame() {
    let mut state = started(1);
    assert_eq!(state.handle(Event::PointerMotion { x: 1, y: 2 }), vec![]);
    assert_eq!(state.outputs[0].focal_x, 0);
    zoom_in(&mut state);
    enter(&mut state, 7, 0);
    assert_eq!(state.handle(Event::PointerMotion { x: 1, y: 2 }), vec![]);
    assert_eq!((state.outputs[0].focal_x, state.outputs[0].focal_y), (1, 2));
}

#[test]
fn there_is_one_redraw_per_frame() {
    let mut state = magnified(1, 0);
    drawn(&mut state, 0);
    for x in 0..5 {
        assert_eq!(state.handle(Event::PointerMotion { x, y: 9 }), vec![]);
    }
    assert_eq!(zoom_in(&mut state), vec![]);
    assert!(state.outputs[0].redraw_dirty);
    assert_eq!(state.handle(Event::FrameDone { data: 0 }), vec![Action::Redraw { output: 0 }]);
    assert!(!state.outputs[0].frame_cb_pending && !state.outputs[0].redraw_dirty);
    let plan = state.redraw_from_cache(0).unwrap();
    assert_eq!((plan.focal_x, plan.zoom), (4, 150));
    // With nothing put off, the end of a frame draws nothing.
    drawn(&mut state, 0);
    assert_eq!(state.handle(Event::FrameDone { data: 0 }), vec![]);
    assert_eq!(state.handle(Event::FrameDone { data: 9 }), vec![]);
}

#[test]
fn closing_drops_a_redraw_that_was_put_off() {
    let mut state = magnified(1, 0);
    drawn(&mut state, 0);
    state.handle(Event::PointerMotion { x: 1, y: 1 });
    state.handle(Event::Command(Command::Reset));
    assert_eq!(state.handle(Event::FrameDone { data: 0 }), vec![]);
}

#[test]
fn nothing_is_captured_while_magnified() {
    let mut state = magnified(1, 0);
    for serial in 100..110 {
        let actions = enter(&mut state, serial, 0);
        assert_eq!(actions, vec![Action::SetCursorShape { serial, shape: CursorShape::Wait }]);
        zoom_in(&mut state);
        state.handle(Event::PointerMotion { x: 5, y: 5 });
    }
    assert!(!state.outputs[0].capture_in_flight);
}

#[test]
fn zooming_out_closes_at_the_minimum() {
    let mut state = magnified(1, 0);
    zoom_in(&mut state);
    assert_eq!(
        state.handle(Event::Command(Command::Out)),
        vec![Action::Redraw { output: 0 }]
    );
    assert_eq!(state.zoom, 125);
    assert_eq!(
        state.handle(Event::Command(Command::Out)),
        vec![
            Action::SetCursorShape { serial: 7, shape: CursorShape::Default },
            Action::DestroyViewport { output: 0 },
            Action::DestroyLayerSurface { output: 0 },
            Action::DestroySurface { output: 0 },
        ]
    );
    assert_eq!(state.zoom, 100);
    assert!(is_closed(&state) && is_clean(&state));
}

#[test]
fn zooming_out_needs_an_active_output() {
    let mut state = started(1);
    assert_eq!(state.handle(Event::Command(Command::Out)), vec![]);
    zoom_in(&mut state);
    assert_eq!(state.handle(Event::Command(Command::Out)), vec![]);
    assert_eq!(state.zoom, 125);
    assert!(state.activating);
}

#[test]
fn zooming_in_stops_at_the_maximum() {
    let mut state = magnified(1, 0);
    for _ in 0..30 {
        zoom_in(&mut state);
    }
    assert_eq!(state.zoom, 600);
    for _ in 0..19 {
        state.handle(Event::Command(Command::Out));
        assert_eq!(state.active_output, Some(0));
    }
    assert_eq!(state.zoom, 125);
    state.handle(Event::Command(Command::Out));
    assert!(is_closed(&state));
}

#[test]
fn a_step_in_and_a_step_out_cancel() {
    let mut state = magnified(1, 0);
    zoom_in(&mut state);
    let before = state.zoom;
    zoom_in(&mut state);
    state.handle(Event::Command(Command::Out));
    assert_eq!(state.zoom, before);
}

#[test]
fn a_reset_closes_at_once() {
    let mut state = magnified(3, 2);
    for _ in 0..7 {
        zoom_in(&mut state);
    }
    state.handle(Event::Command(Command::Reset));
    assert_eq!(state.zoom, 100);
    assert!(is_closed(&state) && is_clean(&state));
    // Once more, it only sets the cursor.
    assert_eq!(
        state.handle(Event::Command(Command::Reset)),
        vec![Action::SetCursorShape { serial: 7, shape: CursorShape::Default }]
    );
}

#[test]
fn only_a_step_in_opens() {
    let mut state = started(1);
    state.handle(Event::Command(Command::Out));
    state.handle(Event::Command(Command::Reset));
    enter(&mut state, 3, 0);
    state.handle(Event::PointerMotion { x: 1, y: 1 });
    state.handle(Event::Configure { data: 0, serial: 1, width: 10, height: 10 });
    state.handle(Event::FrameDone { data: 0 });
    announce_capture(&mut state, 0);
    ready(&mut state, 0);
    state.handle(Event::CaptureFailed { data: 0 });
    assert!(is_closed(&state));
    assert!(state.outputs[0].cached.is_none() && !state.outputs[0].surface);
    assert_eq!(state.zoom, 100);
}

#[test]
fn late_captures_are_dropped() {
    let mut state = started(1);
    zoom_in(&mut state);
    enter(&mut state, 7, 0);
    announce_capture(&mut state, 0);
    state.handle(Event::Command(Command::Reset));
    assert!(state.outputs[0].capture_in_flight);
    assert_eq!(ready(&mut state, 0), vec![Action::DestroyFrame]);
    assert!(is_clean(&state) && !state.outputs[0].capture_in_flight);
}

#[test]
fn a_capture_without_a_buffer_brings_no_frame() {
    let mut state = started(1);
    zoom_in(&mut state);
    enter(&mut state, 7, 0);
    let actions = ready(&mut state, 0);
    assert_eq!(actions[0], Action::DestroyFrame);
    assert!(state.outputs[0].cached.is_none() && state.outputs[0].capture_in_flight);
    assert!(state.outputs[0].surface);
}

#[test]
fn a_failed_capture_releases_the_input() {
    let mut state = started(2);
    zoom_in(&mut state);
    enter(&mut state, 7, 1);
    assert_eq!(
        state.handle(Event::CaptureFailed { data: 1 }),
        vec![
            Action::DestroyFrame,
            Action::SetCursorShape { serial: 7, shape: CursorShape::Default },
        ]
    );
    assert!(is_closed(&state) && is_clean(&state));
    assert!(!state.outputs[1].capture_in_flight);
    // The next step in tries again.
    zoom_in(&mut state);
    assert!(state.activating);
    let capture = Action::CaptureOutput { output: 0, data: 0, overlay_cursor: 0 };
    assert!(enter(&mut state, 8, 0).contains(&capture));
}

#[test]
fn a_capture_that_fails_while_opening_stops_that() {
    let mut state = started(2);
    zoom_in(&mut state);
    enter(&mut state, 7, 0);
    state.handle(Event::Command(Command::Reset));
    zoom_in(&mut state);
    assert!(state.activating && state.outputs[0].capture_in_flight);
    state.handle(Event::CaptureFailed { data: 0 });
    assert!(is_closed(&state));
    assert!(state.outputs.iter().all(|o| !o.surface));
}

#[test]
fn formats_that_are_unknown_fail() {
    let mut state = started(1);
    zoom_in(&mut state);
    enter(&mut state, 7, 0);
    state.handle(Event::CaptureBuffer { data: 0, format: None, width: 3, height: 2, stride: 12 });
    assert_eq!(state.handle(Event::CaptureBufferDone { data: 0 })[0], Action::DestroyFrame);
    assert!(is_closed(&state) && state.pending.is_empty());
}

#[test]
fn captures_that_were_not_announced_fail() {
    let mut state = started(1);
    zoom_in(&mut state);
    enter(&mut state, 7, 0);
    assert_eq!(state.handle(Event::CaptureBufferDone { data: 0 })[0], Action::DestroyFrame);
    assert!(is_closed(&state));
}

#[test]
fn captures_without_memory_fail() {
    let mut state = started(1);
    zoom_in(&mut state);
    enter(&mut state, 7, 0);
    let event = Event::CaptureAllocated { data: 0, shape: SHAPE, allocated: false };
    assert_eq!(state.handle(event)[0], Action::DestroyFrame);
    assert!(is_closed(&state) && state.capture_buffers.is_empty());
}

#[test]
fn the_active_output_stays_uncovered_during_its_capture() {
    let mut state = started(2);
    zoom_in(&mut state);
    enter(&mut state, 7, 0);
    zoom_in(&mut state);
    state.handle(Event::PointerMotion { x: 4, y: 4 });
    enter(&mut state, 8, 1);
    announce_capture(&mut state, 0);
    assert!(state.outputs[0].capture_in_flight && !state.outputs[0].surface);
    assert_eq!(state.active_output, Some(0));
}

#[test]
fn only_the_active_output_is_covered() {
    let state = magnified(4, 2);
    for (i, output) in state.outputs.iter().enumerate() {
        assert_eq!(output.surface, i == 2);
        assert_eq!(output.cached.is_some(), i == 2);
    }
}

#[test]
fn cursors_stay_where_shapes_cannot_be_set() {
    let mut state = State::new(true, false);
    state.handle(global(true, 1, "wl_output", 4));
    state.handle(global(true, 2, "wl_seat", 4));
    zoom_in(&mut state);
    let mut actions = enter(&mut state, 7, 0);
    actions.append(&mut state.handle(Event::Command(Command::Reset)));
    assert!(actions.iter().all(|a| !matches!(a, Action::SetCursorShape { .. })));
}

#[test]
fn requests_are_obeyed() {
    let mut state = started(1);
    let mut actions = Vec::new();
    assert_eq!(state.handle_request(&request_line(Command::In), &mut actions), Ok(Command::In));
    assert_eq!(state.zoom, 125);
    assert!(state.activating && !actions.is_empty());
    actions.clear();
    assert_eq!(state.handle_request(b" reset\n", &mut actions), Ok(Command::Reset));
    assert!(is_closed(&state));
    actions.clear();
    assert_eq!(
        state.handle_request(b" \xffzoom \n", &mut actions),
        Err("\u{fffd}zoom".to_string())
    );
    assert_eq!(actions, vec![]);
    assert!(is_closed(&state));
}

#[test]
fn redraws_need_a_configured_surface() {
    let mut state = magnified(1, 0);
    let mut actions = Vec::new();
    state.request_redraw(0, &mut actions);
    assert_eq!(actions, vec![Action::Redraw { output: 0 }]);
    actions.clear();
    state.outputs[0].configured = false;
    state.request_redraw(0, &mut actions);
    state.outputs[0].configured = true;
    state.outputs[0].capture_in_flight = true;
    state.request_redraw(0, &mut actions);
    assert_eq!(actions, vec![]);
}

#[test]
fn overlays_are_created_and_torn_down_once() {
    let mut state = started(1);
    let mut actions = Vec::new();
    state.ensure_layer_surface(0, &mut actions);
    assert_eq!(actions.len(), 5);
    state.ensure_layer_surface(0, &mut actions);
    assert_eq!(actions.len(), 5);
    state.destroy_layer_surface(0, &mut actions);
    assert_eq!(actions.len(), 8);
    state.destroy_layer_surface(0, &mut actions);
    assert_eq!(actions.len(), 8);
}

#[test]
fn the_overlay_of_another_output_is_not_shown() {
    let mut state = magnified(2, 1);
    let mut actions = Vec::new();
    state.show_active_surface(0, &mut actions);
    assert_eq!(actions, vec![]);
    state.show_active_surface(1, &mut actions);
    assert_eq!(actions, vec![Action::SetInputRegion { output: 1, region: FULL }]);
}

#[test]
fn a_capture_under_way_is_not_started_again() {
    let mut state = started(1);
    let mut actions = Vec::new();
    state.activate_output(0, &mut actions);
    state.activate_output(0, &mut actions);
    assert_eq!(actions, vec![Action::CaptureOutput { output: 0, data: 0, overlay_cursor: 0 }]);
}

/// What is there of one overlay.
#[derive(Clone, Copy, Debug, Default, PartialEq)]
struct Objects {
    surface: bool,
    role: bool,
    viewport: bool,
}

/// Performs an action on the objects, which have to be there for it.
fn perform(objects: &mut Vec<Objects>, device: &mut bool, action: Action) {
    match action {
        Action::BindOutput { output, .. } => {
            assert_eq!(output, objects.len());
            objects.push(Objects::default());
        }
        Action::CreateCursorShapeDevice => {
            assert!(!*device);
            *device = true;
        }
        Action::SetCursorShape { .. } => assert!(*device),
        Action::CreateSurface { output } => {
            assert_eq!(objects[output], Objects::default());
            objects[output].surface = true;
        }
        Action::CreateLayerSurface { output, .. } => {
            assert!(objects[output].surface && !objects[output].role);
            objects[output].role = true;
        }
        Action::CreateViewport { output } => {
            assert!(objects[output].surface && !objects[output].viewport);
            objects[output].viewport = true;
        }
        Action::DestroyViewport { output } => {
            assert!(objects[output].viewport);
            objects[output].viewport = false;
        }
        Action::DestroyLayerSurface { output } => {
            assert!(objects[output].role);
            objects[output].role = false;
        }
        Action::DestroySurface { output } => {
            assert_eq!(objects[output], Objects { surface: true, role: false, viewport: false });
            objects[output].surface = false;
        }
        Action::SetInputRegion { output, .. }
        | Action::Commit { output }
        | Action::AttachBuffer { output }
        | Action::SetBufferScale { output, .. }
        | Action::DamageBuffer { output, .. }
        | Action::RequestFrame { output, .. }
        | Action::Redraw { output } => assert!(objects[output].surface),
        Action::SetDestination { output, .. } => assert!(objects[output].viewport),
        _ => {}
    }
}

fn picked_event(state: &State, pick: u32, number: u32) -> Event {
    let outputs = state.outputs.len() as u32;
    let data = match state.active_output {
        Some(active) if number % 4 != 0 => active as u32,
        _ => number / 4 % outputs,
    };
    let output = data as usize;
    match pick % 16 {
        0..=2 => Event::Command(Command::In),
        3 => Event::Command(Command::Out),
        4 if number % 8 == 0 => Event::Command(Command::Reset),
        5 | 6 => Event::PointerEnter { serial: number, output: Some(output), x: 1, y: 2 },
        7 => Event::PointerMotion { x: number as i32, y: 3 },
        8 => Event::Configure { data, serial: number, width: 30, height: 20 },
        9 => Event::FrameDone { data },
        10 => Event::CaptureBuffer { data, format: Some(0), width: 3, height: 2, stride: 12 },
        11 => Event::CaptureBufferDone { data },
        12 => Event::CaptureAllocated { data, shape: SHAPE, allocated: number % 17 != 0 },
        13 => Event::CaptureReady { data, bytes: vec![0; 24] },
        14 if number % 16 == 0 => Event::CaptureFailed { data },
        14 if outputs < 5 => global(false, number, "wl_output", 4),
        _ => match state.redraw_from_cache(output) {
            Some(plan) => Event::Drawn { output, plan },
            None => Event::PointerMotion { x: 5, y: 6 },
        },
    }
}

#[test]
fn actions_and_objects_stay_in_step() {
    let mut random: u32 = 12345;
    let mut next = || {
        random = random.wrapping_mul(1_664_525).wrapping_add(1_013_904_223);
        random >> 8
    };
    for viewporter in [true, false] {
        let mut state = State::new(viewporter, true);
        let mut objects = Vec::new();
        let mut device = false;
        for action in state.handle(global(true, 1, "wl_output", 4)) {
            perform(&mut objects, &mut device, action);
        }
        for action in state.handle(global(true, 2, "wl_seat", 4)) {
            perform(&mut objects, &mut device, action);
        }
        let mut redraws = 0;
        for _ in 0..50_000 {
            let event = picked_event(&state, next(), next());
            for action in state.handle(event) {
                if let Action::Redraw { output } = action {
                    redraws += 1;
                    assert_eq!(state.active_output, Some(output));
                    assert!(!state.outputs[output].frame_cb_pending);
                }
                perform(&mut objects, &mut device, action);
            }
            assert_eq!(device, state.has_cursor_shape_device);
            for (i, output) in state.outputs.iter().enumerate() {
                assert_eq!(objects[i].surface, output.surface);
                assert_eq!(objects[i].role, output.layer_surface);
                assert_eq!(objects[i].viewport, output.viewport);
                if output.surface {
                    assert!(state.activating || state.active_output == Some(i));
                }
                if output.cached.is_some() {
                    assert_eq!(state.active_output, Some(i));
                    assert!(!output.capture_in_flight);
                }
            }
            assert!(state.zoom % 25 == 0 && (100..=600).contains(&state.zoom));
        }
        assert!(redraws > 100);
    }
}

#[test]
fn closing_drops_the_cached_frame() {
    let mut state = started(1);
    state.outputs[0].cached =
        Some(CapturedImage { width: 1, height: 1, stride: 4, bytes: vec![0; 4] });
    let mut actions = Vec::new();
    state.deactivate(&mut actions);
    assert!(state.outputs[0].cached.is_none());
}

#[test]
fn frames_too_wide_for_a_stride_have_none() {
    let mut state = started(1);
    zoom_in(&mut state);
    state.handle(Event::Configure { data: 0, serial: 1, width: 1 << 29, height: 4 });
    assert_eq!(
        state.clear_surface(0),
        Some(BlankFrame { width: 1 << 29, height: 4, stride: None, format: 0 })
    );
}

#[test]
fn the_captured_frame_stays_while_magnified() {
    let mut state = magnified(2, 1);
    let bytes = state.outputs[1].cached.as_ref().unwrap().bytes.clone();
    zoom_in(&mut state);
    drawn(&mut state, 1);
    state.handle(Event::PointerMotion { x: 5, y: 6 });
    state.handle(Event::FrameDone { data: 1 });
    enter(&mut state, 9, 1);
    announce_capture(&mut state, 0);
    state.handle(Event::CaptureReady { data: 0, bytes: vec![9; 24] });
    state.handle(Event::Configure { data: 1, serial: 2, width: 60, height: 40 });
    assert_eq!(state.outputs[1].cached.as_ref().unwrap().bytes, bytes);
    assert!(state.outputs[0].cached.is_none());
}

#[test]
fn another_output_stays_active_when_a_capture_fails() {
    let mut state = magnified(2, 1);
    state.handle(Event::CaptureFailed { data: 0 });
    assert_eq!(state.active_output, Some(1));
    assert!(!state.outputs[1].surface && state.outputs[1].cached.is_some());
    assert_eq!(zoom_in(&mut state), vec![]);
    state.handle(Event::Command(Command::Reset));
    assert!(is_closed(&state) && is_clean(&state));
}

#[test]
fn there_is_one_capture_per_opening() {
    let mut random: u32 = 777;
    let mut next = || {
        random = random.wrapping_mul(1_664_525).wrapping_add(1_013_904_223);
        random >> 8
    };
    let mut state = started(2);
    let (mut openings, mut captures) = (0, 0);
    for _ in 0..50_000 {
        let event = picked_event(&state, next(), next());
        if is_closed(&state) && matches!(event, Event::Command(Command::In)) {
            openings += 1;
        }
        let was_waiting = state.activating;
        for action in state.handle(event) {
            if matches!(action, Action::CaptureOutput { .. }) {
                assert!(was_waiting && !state.activating);
                captures += 1;
            }
        }
        assert!(captures <= openings);
    }
    assert!(captures > 100);
}

/// Handles an event, and each report that its actions call for right after it.
fn handle_all(state: &mut State, event: Event) -> Vec<Action> {
    let mut performed = Vec::new();
    for action in state.handle(event) {
        performed.push(action);
        let report = match action {
            Action::Redraw { output } => {
                state.redraw_from_cache(output).map(|plan| Event::Drawn { output, plan })
            }
            Action::Clear { output } => {
                state.clear_surface(output).map(|blank| Event::Cleared { output, blank })
            }
            _ => None,
        };
        if let Some(report) = report {
            performed.append(&mut handle_all(state, report));
        }
    }
    performed
}

#[test]
fn buffers_go_to_configured_surfaces() {
    let mut random: u32 = 4242;
    let mut next = || {
        random = random.wrapping_mul(1_664_525).wrapping_add(1_013_904_223);
        random >> 8
    };
    let mut state = started(2);
    let mut attached = 0;
    for _ in 0..50_000 {
        let event = picked_event(&state, next(), next());
        if matches!(event, Event::Drawn { .. }) {
            continue;
        }
        for action in handle_all(&mut state, event) {
            if let Action::AttachBuffer { output } = action {
                assert!(state.outputs[output].surface && state.outputs[output].configured);
                attached += 1;
            }
        }
    }
    assert!(attached > 100);
}

#[test]
fn new_surfaces_wait_for_their_configuration() {
    let mut state = magnified(1, 0);
    assert!(state.outputs[0].configured);
    state.handle(Event::Command(Command::Reset));
    // Even where a configuration of the surface that is gone comes in late.
    state.handle(Event::Configure { data: 0, serial: 3, width: 30, height: 20 });
    zoom_in(&mut state);
    assert!(state.outputs[0].surface && !state.outputs[0].configured);
    assert_eq!(
        state.handle(Event::Configure { data: 0, serial: 4, width: 30, height: 20 })[0],
        Action::AckConfigure { serial: 4 }
    );
    assert!(state.outputs[0].configured);
}
