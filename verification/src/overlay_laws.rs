//! Overlays, one action after the other: how they are opened, chosen between
//! and torn down.

use crate::model::{Action, CursorShape, Layer, LayerSetup, OutputView, Region, StateView};
use crate::transition::{grabs, shows, teardowns};
use vstd::prelude::*;

verus! {

/// An overlay is created where there is none: a surface that takes no input, in
/// the topmost layer under the name `niri-zoom`, across the whole output and
/// over what other surfaces keep free, without keyboard input, with a viewport
/// where there are viewports, and committed without a buffer. It waits to be
/// configured; the rest of the output, and all others, stay as they are.
pub proof fn law_an_overlay_is_created(state: StateView, i: usize)
    requires
        i < state.outputs.len(),
        !state.outputs[i as int].surface,
    ensures
        ({
            let o = state.outputs[i as int];
            let step = state.ensure_layer_surface(i);
            let surface = Action::CreateSurface { output: i };
            let no_input = Action::SetInputRegion { output: i, region: Region::Empty };
            let role = Action::CreateLayerSurface {
                output: i,
                data: i as u32,
                setup: LayerSetup {
                    layer: Layer::Overlay,
                    namespace: "niri-zoom",
                    anchor_top: true,
                    anchor_bottom: true,
                    anchor_left: true,
                    anchor_right: true,
                    exclusive_zone: (-1) as i32,
                    keyboard: false,
                    width: 0,
                    height: 0,
                },
            };
            let viewport = Action::CreateViewport { output: i };
            let commit = Action::Commit { output: i };
            &&& state.has_viewporter ==> step.actions == seq![
                surface,
                no_input,
                role,
                viewport,
                commit,
            ]
            &&& !state.has_viewporter ==> step.actions == seq![surface, no_input, role, commit]
            &&& step.state == (StateView {
                outputs: state.outputs.update(
                    i as int,
                    OutputView {
                        surface: true,
                        layer_surface: true,
                        viewport: state.has_viewporter,
                        configured: false,
                        ..o
                    },
                ),
                ..state
            })
        }),
{
}

/// An overlay that exists is left alone.
pub proof fn law_an_overlay_is_created_once(state: StateView, i: usize)
    requires
        i < state.outputs.len(),
        state.outputs[i as int].surface,
    ensures
        state.ensure_layer_surface(i).state == state,
        state.ensure_layer_surface(i).actions == Seq::<Action>::empty(),
{
    assert(state.outputs.update(i as int, state.outputs[i as int]) =~= state.outputs);
}

/// An overlay is torn down part by part, the surface last; what was noted of its
/// configuration and its frames goes with it, and nothing else does.
pub proof fn law_an_overlay_is_torn_down(state: StateView, i: usize)
    requires
        i < state.outputs.len(),
    ensures
        ({
            let o = state.outputs[i as int];
            let step = state.destroy_layer_surface(i);
            let viewport = Action::DestroyViewport { output: i };
            let role = Action::DestroyLayerSurface { output: i };
            let surface = Action::DestroySurface { output: i };
            &&& o.surface && o.layer_surface && o.viewport ==> step.actions == seq![
                viewport,
                role,
                surface,
            ]
            &&& o.surface && o.layer_surface && !o.viewport ==> step.actions == seq![role, surface]
            &&& !o.surface && !o.layer_surface && !o.viewport ==> step.actions
                == Seq::<Action>::empty()
            &&& step.state == (StateView {
                outputs: state.outputs.update(
                    i as int,
                    OutputView {
                        surface: false,
                        layer_surface: false,
                        viewport: false,
                        configured: false,
                        frame_cb_pending: false,
                        redraw_dirty: false,
                        ..o
                    },
                ),
                ..state
            })
        }),
{
}

proof fn lemma_shows_without_viewports(outputs: Seq<OutputView>, n: nat)
    requires
        n <= outputs.len(),
        forall|i: int| 0 <= i < outputs.len() ==> !(#[trigger] outputs[i]).surface,
    ensures
        shows(outputs, false, n).len() == 4 * n,
        forall|i: int|
            0 <= i < n ==> #[trigger] outputs[i].show_actions(i as usize, false) == shows(
                outputs,
                false,
                n,
            ).subrange(4 * i, 4 * i + 4),
    decreases n,
{
    if n > 0 {
        let m = (n - 1) as nat;
        lemma_shows_without_viewports(outputs, m);
        let before = shows(outputs, false, m);
        let all = shows(outputs, false, n);
        assert(outputs[m as int].show_actions(m as usize, false).len() == 4);
        assert forall|i: int| 0 <= i < n implies #[trigger] outputs[i].show_actions(
            i as usize,
            false,
        ) == all.subrange(4 * i, 4 * i + 4) by {
            if i < m {
                assert(all.subrange(4 * i, 4 * i + 4) =~= before.subrange(4 * i, 4 * i + 4));
            }
        }
    }
}

proof fn lemma_shows_with_viewports(outputs: Seq<OutputView>, n: nat)
    requires
        n <= outputs.len(),
        forall|i: int| 0 <= i < outputs.len() ==> !(#[trigger] outputs[i]).surface,
    ensures
        shows(outputs, true, n).len() == 5 * n,
        forall|i: int|
            0 <= i < n ==> #[trigger] outputs[i].show_actions(i as usize, true) == shows(
                outputs,
                true,
                n,
            ).subrange(5 * i, 5 * i + 5),
    decreases n,
{
    if n > 0 {
        let m = (n - 1) as nat;
        lemma_shows_with_viewports(outputs, m);
        let before = shows(outputs, true, m);
        let all = shows(outputs, true, n);
        assert(outputs[m as int].show_actions(m as usize, true).len() == 5);
        assert forall|i: int| 0 <= i < n implies #[trigger] outputs[i].show_actions(
            i as usize,
            true,
        ) == all.subrange(5 * i, 5 * i + 5) by {
            if i < m {
                assert(all.subrange(5 * i, 5 * i + 5) =~= before.subrange(5 * i, 5 * i + 5));
            }
        }
    }
}

proof fn lemma_grabs_in_turn(n: nat)
    ensures
        grabs(n).len() == 2 * n,
        forall|i: int|
            #![trigger grabs(n)[2 * i]]
            0 <= i < n ==> grabs(n)[2 * i] == (Action::SetInputRegion {
                output: i as usize,
                region: Region::Rect { x: 0, y: 0, width: 1_000_000, height: 1_000_000 },
            }) && grabs(n)[2 * i + 1] == (Action::Commit { output: i as usize }),
    decreases n,
{
    if n > 0 {
        let m = (n - 1) as nat;
        lemma_grabs_in_turn(m);
        assert forall|i: int| #![trigger grabs(n)[2 * i]] 0 <= i < n implies grabs(n)[2 * i] == (
        Action::SetInputRegion {
            output: i as usize,
            region: Region::Rect { x: 0, y: 0, width: 1_000_000, height: 1_000_000 },
        }) && grabs(n)[2 * i + 1] == (Action::Commit { output: i as usize }) by {
            if i < m {
                assert(grabs(n)[2 * i] == grabs(m)[2 * i]);
                assert(grabs(n)[2 * i + 1] == grabs(m)[2 * i + 1]);
            }
        }
    }
}

/// The first step in opens the magnifier: the overlay of each output is created
/// in turn, and then each takes input everywhere and is committed. Nothing is
/// drawn or captured yet. Besides the overlays, the level goes up a quarter and
/// the wait for the pointer begins.
pub proof fn law_opening_one_action_after_the_other(state: StateView, i: int)
    requires
        state.active_output is None,
        !state.activating,
        forall|j: int| 0 <= j < state.outputs.len() ==> !(#[trigger] state.outputs[j]).surface,
        0 <= i < state.outputs.len(),
    ensures
        ({
            let n = state.outputs.len() as int;
            let actions = state.zoom_in().actions;
            let k: int = if state.has_viewporter {
                5
            } else {
                4
            };
            let out = i as usize;
            let at = if state.has_viewporter {
                5 * i
            } else {
                4 * i
            };
            let grab = (if state.has_viewporter {
                5 * n
            } else {
                4 * n
            }) + 2 * i;
            &&& actions.len() == (if state.has_viewporter {
                7 * n
            } else {
                6 * n
            })
            &&& actions[at] == (Action::CreateSurface { output: out })
            &&& actions[at + 1] == (Action::SetInputRegion { output: out, region: Region::Empty })
            &&& actions[at + 2] == (Action::CreateLayerSurface {
                output: out,
                data: out as u32,
                setup: LayerSetup {
                    layer: Layer::Overlay,
                    namespace: "niri-zoom",
                    anchor_top: true,
                    anchor_bottom: true,
                    anchor_left: true,
                    anchor_right: true,
                    exclusive_zone: (-1) as i32,
                    keyboard: false,
                    width: 0,
                    height: 0,
                },
            })
            &&& state.has_viewporter ==> actions[at + 3] == (Action::CreateViewport { output: out })
            &&& actions[at + k - 1] == (Action::Commit { output: out })
            &&& actions[grab] == (Action::SetInputRegion {
                output: out,
                region: Region::Rect { x: 0, y: 0, width: 1_000_000, height: 1_000_000 },
            })
            &&& actions[grab + 1] == (Action::Commit { output: out })
        }),
        ({
            let after = state.zoom_in().state;
            &&& after == (StateView {
                zoom: if state.zoom <= 575 {
                    (state.zoom + 25) as u32
                } else {
                    600
                },
                activating: true,
                outputs: after.outputs,
                ..state
            })
            &&& after.outputs.len() == state.outputs.len()
            &&& after.outputs[i] == (OutputView {
                surface: true,
                layer_surface: true,
                viewport: state.has_viewporter,
                configured: false,
                ..state.outputs[i]
            })
        }),
{
    let n = state.outputs.len();
    let shown = shows(state.outputs, state.has_viewporter, n);
    let own = state.outputs[i].show_actions(i as usize, state.has_viewporter);
    let actions = state.zoom_in().actions;
    lemma_grabs_in_turn(n);
    assert(actions == shown + grabs(n));
    assert(grabs(n)[2 * i] == actions[shown.len() + 2 * i]);
    assert(grabs(n)[2 * i + 1] == actions[shown.len() + 2 * i + 1]);
    if state.has_viewporter {
        lemma_shows_with_viewports(state.outputs, n);
        assert(forall|k: int| 0 <= k < 5 ==> #[trigger] own[k] == actions[5 * i + k]);
        assert(own[0] == actions[5 * i] && own[1] == actions[5 * i + 1] && own[2] == actions[5 * i
            + 2] && own[3] == actions[5 * i + 3] && own[4] == actions[5 * i + 4]);
    } else {
        lemma_shows_without_viewports(state.outputs, n);
        assert(forall|k: int| 0 <= k < 4 ==> #[trigger] own[k] == actions[4 * i + k]);
        assert(own[0] == actions[4 * i] && own[1] == actions[4 * i + 1] && own[2] == actions[4 * i
            + 2] && own[3] == actions[4 * i + 3]);
    }
}

/// Opening without any outputs does nothing but zoom and wait.
pub proof fn law_opening_without_outputs(state: StateView)
    requires
        state.active_output is None,
        !state.activating,
        state.outputs.len() == 0,
    ensures
        state.zoom_in().actions == Seq::<Action>::empty(),
        state.zoom_in().state.activating,
{
}

/// How many parts the overlays of the first `n` outputs have, without that of
/// `kept`.
pub open spec fn parts(outputs: Seq<OutputView>, kept: Option<usize>, n: int) -> int
    decreases n,
{
    if n <= 0 {
        0
    } else if kept matches Some(k) && k == n - 1 {
        parts(outputs, kept, n - 1)
    } else {
        parts(outputs, kept, n - 1) + if outputs[n - 1].surface {
            if outputs[n - 1].viewport {
                3int
            } else {
                2int
            }
        } else {
            0int
        }
    }
}

proof fn lemma_parts_grow(outputs: Seq<OutputView>, kept: Option<usize>, m: int, n: int)
    requires
        0 <= m <= n,
    ensures
        0 <= parts(outputs, kept, m) <= parts(outputs, kept, n),
    decreases n,
{
    if n > 0 {
        if m < n {
            lemma_parts_grow(outputs, kept, m, n - 1);
        } else {
            lemma_parts_grow(outputs, kept, m - 1, n - 1);
        }
    }
}

/// Whether the actions from index `at` on tear the overlay of output `i` down,
/// part by part.
pub open spec fn tears_down(actions: Seq<Action>, at: int, output: OutputView, i: int) -> bool {
    &&& output.surface && output.viewport ==> {
        &&& actions[at] == (Action::DestroyViewport { output: i as usize })
        &&& actions[at + 1] == (Action::DestroyLayerSurface { output: i as usize })
        &&& actions[at + 2] == (Action::DestroySurface { output: i as usize })
    }
    &&& output.surface && !output.viewport ==> {
        &&& actions[at] == (Action::DestroyLayerSurface { output: i as usize })
        &&& actions[at + 1] == (Action::DestroySurface { output: i as usize })
    }
}

/// The parts of an overlay are there together.
pub open spec fn whole(output: OutputView) -> bool {
    output.layer_surface == output.surface && (output.viewport ==> output.surface)
}

proof fn lemma_teardowns_in_turn(outputs: Seq<OutputView>, kept: Option<usize>, n: nat, i: int)
    requires
        0 <= i < n <= outputs.len(),
        forall|j: int| 0 <= j < outputs.len() ==> whole(#[trigger] outputs[j]),
    ensures
        teardowns(outputs, kept, n).len() == parts(outputs, kept, n as int),
        !(kept matches Some(k) && k == i) ==> tears_down(
            teardowns(outputs, kept, n),
            parts(outputs, kept, i),
            outputs[i],
            i,
        ),
    decreases n,
{
    let m = (n - 1) as nat;
    let before = teardowns(outputs, kept, m);
    assert(whole(outputs[m as int]));
    if m == 0 {
        assert(before.len() == 0);
        assert(parts(outputs, kept, 0) == 0);
    } else {
        lemma_teardowns_in_turn(outputs, kept, m, if i < m {
            i
        } else {
            0
        });
    }
    if i < m {
        let all = teardowns(outputs, kept, n);
        lemma_parts_grow(outputs, kept, i + 1, m as int);
        lemma_parts_grow(outputs, kept, 0, i);
        assert(forall|k: int| 0 <= k < before.len() ==> #[trigger] all[k] == before[k]);
    }
}

/// Closing the magnifier sets the usual cursor first, where shapes can be set,
/// by the serial of the last entry, and then tears each overlay down in turn.
/// Nothing else is done. The state is closed, without overlays, frames on
/// screen or cached frames; captures under way, names, sizes, pointer positions
/// and the level stay.
pub proof fn law_closing_one_action_after_the_other(state: StateView, i: int)
    requires
        forall|j: int| 0 <= j < state.outputs.len() ==> whole(#[trigger] state.outputs[j]),
        0 <= i < state.outputs.len(),
    ensures
        ({
            let actions = state.deactivate().actions;
            let cursor: int = if state.has_cursor_shape_device {
                1
            } else {
                0
            };
            &&& actions.len() == cursor + parts(state.outputs, None, state.outputs.len() as int)
            &&& state.has_cursor_shape_device ==> actions[0] == (Action::SetCursorShape {
                serial: state.last_enter_serial,
                shape: CursorShape::Default,
            })
            &&& tears_down(
                actions,
                cursor + parts(state.outputs, None, i),
                state.outputs[i],
                i,
            )
        }),
        ({
            let after = state.deactivate().state;
            &&& after == (StateView {
                active_output: None,
                activating: false,
                outputs: after.outputs,
                ..state
            })
            &&& after.outputs.len() == state.outputs.len()
            &&& after.outputs[i] == (OutputView {
                surface: false,
                layer_surface: false,
                viewport: false,
                configured: false,
                frame_cb_pending: false,
                redraw_dirty: false,
                cached: None,
                ..state.outputs[i]
            })
        }),
{
    let n = state.outputs.len();
    let torn = teardowns(state.outputs, None, n);
    let actions = state.deactivate().actions;
    lemma_teardowns_in_turn(state.outputs, None, n, i);
    lemma_parts_grow(state.outputs, None, 0, i);
    lemma_parts_grow(state.outputs, None, i + 1, n as int);
    let cursor: int = if state.has_cursor_shape_device {
        1
    } else {
        0
    };
    assert(forall|k: int| 0 <= k < torn.len() ==> #[trigger] torn[k] == actions[cursor + k]);
}

/// A reset closes the magnifier and goes back to 1x.
pub proof fn law_a_reset_closes_at_one(state: StateView)
    ensures
        state.zoom_reset().actions == state.deactivate().actions,
        state.zoom_reset().state == (StateView { zoom: 100, ..state.deactivate().state }),
{
}

/// Closing from a magnified output, the usual way, comes to the cursor and the
/// one overlay.
pub proof fn law_closing_the_magnified_output(state: StateView, i: usize)
    requires
        state.valid(),
        state.active_output == Some(i),
        state.outputs[i as int].surface,
        state.has_viewporter,
        state.has_cursor_shape_device,
    ensures
        state.deactivate().actions == seq![
            Action::SetCursorShape {
                serial: state.last_enter_serial,
                shape: CursorShape::Default,
            },
            Action::DestroyViewport { output: i },
            Action::DestroyLayerSurface { output: i },
            Action::DestroySurface { output: i },
        ],
{
    assert forall|j: int| 0 <= j < state.outputs.len() implies whole(#[trigger] state.outputs[j]) by {
        assert(state.outputs[j].consistent(state.has_viewporter));
    }
    assert(state.outputs[i as int].consistent(state.has_viewporter));
    let n = state.outputs.len() as int;
    law_closing_one_action_after_the_other(state, i as int);
    lemma_parts_of_one(state.outputs, i as int, n);
    lemma_parts_of_one(state.outputs, i as int, i as int);
    let actions = state.deactivate().actions;
    assert(actions =~= seq![actions[0], actions[1], actions[2], actions[3]]);
}

proof fn lemma_parts_of_one(outputs: Seq<OutputView>, i: int, n: int)
    requires
        0 <= n <= outputs.len(),
        0 <= i < outputs.len(),
        outputs[i].surface && outputs[i].viewport,
        forall|j: int| 0 <= j < outputs.len() && j != i ==> !(#[trigger] outputs[j]).surface,
    ensures
        parts(outputs, None, n) == if i < n {
            3int
        } else {
            0int
        },
    decreases n,
{
    if n > 0 {
        lemma_parts_of_one(outputs, i, n - 1);
    }
}

/// The pointer entering an overlay while the magnifier waits for it chooses that
/// output. The overlays of the others are torn down in turn, then its own; its
/// capture is started, without the cursor in it, unless one is under way, in
/// which case its overlay stays; and the busy cursor is set last, by the serial
/// of this entry, where shapes can be set.
pub proof fn law_the_pointer_chooses_the_output(
    state: StateView,
    serial: u32,
    i: usize,
    x: i32,
    y: i32,
    j: int,
)
    requires
        forall|k: int| 0 <= k < state.outputs.len() ==> whole(#[trigger] state.outputs[k]),
        i < state.outputs.len(),
        state.outputs[i as int].surface,
        state.activating,
        0 <= j < state.outputs.len(),
    ensures
        ({
            let o = state.outputs[i as int];
            let n = state.outputs.len() as int;
            let actions = state.pointer_enter(serial, Some(i), x, y).actions;
            let others = parts(state.outputs, Some(i), n);
            let own: int = if o.capture_in_flight {
                0
            } else if o.viewport {
                4
            } else {
                3
            };
            let cursor: int = if state.has_cursor_shape_device {
                1
            } else {
                0
            };
            &&& actions.len() == others + own + cursor
            &&& j != i ==> tears_down(
                actions,
                parts(state.outputs, Some(i), j),
                state.outputs[j],
                j,
            )
            &&& !o.capture_in_flight ==> tears_down(actions, others, o, i as int)
                && actions[others + own - 1] == (Action::CaptureOutput {
                output: i,
                data: i as u32,
                overlay_cursor: 0,
            })
            &&& state.has_cursor_shape_device ==> actions.last() == (Action::SetCursorShape {
                serial,
                shape: CursorShape::Wait,
            })
        }),
        ({
            let o = OutputView { focal_x: x, focal_y: y, ..state.outputs[i as int] };
            let after = state.pointer_enter(serial, Some(i), x, y).state;
            &&& after == (StateView {
                last_enter_serial: serial,
                activating: false,
                active_output: Some(i),
                outputs: after.outputs,
                ..state
            })
            &&& after.outputs.len() == state.outputs.len()
            &&& j != i ==> after.outputs[j] == (OutputView {
                surface: false,
                layer_surface: false,
                viewport: false,
                configured: false,
                frame_cb_pending: false,
                redraw_dirty: false,
                ..state.outputs[j]
            })
            &&& o.capture_in_flight ==> after.outputs[i as int] == o
            &&& !o.capture_in_flight ==> after.outputs[i as int] == (OutputView {
                surface: false,
                layer_surface: false,
                viewport: false,
                configured: false,
                frame_cb_pending: false,
                redraw_dirty: false,
                capture_in_flight: true,
                ..o
            })
        }),
{
    let n = state.outputs.len();
    let moved = OutputView { focal_x: x, focal_y: y, ..state.outputs[i as int] };
    let outputs = state.outputs.update(i as int, moved);
    let torn = teardowns(outputs, Some(i), n);
    let actions = state.pointer_enter(serial, Some(i), x, y).actions;
    assert forall|k: int| 0 <= k < outputs.len() implies whole(#[trigger] outputs[k]) by {
        assert(whole(state.outputs[k]));
    }
    lemma_parts_but_kept(state.outputs, outputs, i, n as int);
    lemma_parts_but_kept(state.outputs, outputs, i, j);
    lemma_teardowns_in_turn(outputs, Some(i), n, j);
    lemma_parts_grow(outputs, Some(i), 0, j);
    lemma_parts_grow(outputs, Some(i), j + 1, n as int);
    assert(forall|k: int| 0 <= k < torn.len() ==> #[trigger] torn[k] == actions[k]);
    let own = moved.teardown_actions(i);
    let at = torn.len() as int;
    assert(whole(moved));
    if !moved.capture_in_flight {
        assert(forall|k: int| 0 <= k < own.len() ==> #[trigger] own[k] == actions[at + k]);
        if moved.viewport {
            assert(own.len() == 3);
            assert(own[0] == actions[at] && own[1] == actions[at + 1]
                && own[2] == actions[at + 2]);
        } else {
            assert(own.len() == 2);
            assert(own[0] == actions[at] && own[1] == actions[at + 1]);
        }
    }
}

proof fn lemma_parts_but_kept(a: Seq<OutputView>, b: Seq<OutputView>, i: usize, n: int)
    requires
        a.len() == b.len(),
        0 <= n <= a.len(),
        forall|k: int| 0 <= k < a.len() && k != i ==> #[trigger] a[k] == b[k],
    ensures
        parts(a, Some(i), n) == parts(b, Some(i), n),
    decreases n,
{
    if n > 0 {
        lemma_parts_but_kept(a, b, i, n - 1);
        assert(n - 1 != i ==> a[n - 1] == b[n - 1]);
    }
}

/// A capture is started once: the overlay is torn down and the output captured,
/// without the cursor in the picture; while it is under way nothing is done.
pub proof fn law_a_capture_is_started(state: StateView, i: usize)
    requires
        i < state.outputs.len(),
    ensures
        ({
            let o = state.outputs[i as int];
            let step = state.activate_output(i);
            &&& o.capture_in_flight ==> step.state == state && step.actions
                == Seq::<Action>::empty()
            &&& !o.capture_in_flight ==> {
                &&& step.actions.len() > 0
                &&& step.actions.last() == (Action::CaptureOutput {
                    output: i,
                    data: i as u32,
                    overlay_cursor: 0,
                })
                &&& step.actions.drop_last() == state.destroy_layer_surface(i).actions
                &&& step.state == (StateView {
                    outputs: state.outputs.update(
                        i as int,
                        OutputView {
                            surface: false,
                            layer_surface: false,
                            viewport: false,
                            configured: false,
                            frame_cb_pending: false,
                            redraw_dirty: false,
                            capture_in_flight: true,
                            ..o
                        },
                    ),
                    ..state
                })
            }
        }),
{
    let step = state.activate_output(i);
    if !state.outputs[i as int].capture_in_flight {
        assert(step.actions.drop_last() =~= state.destroy_layer_surface(i).actions);
    }
}

/// After a capture the overlay of the magnified output is there again, and
/// takes input everywhere; no other output gets one.
pub proof fn law_the_overlay_comes_back(state: StateView, i: usize)
    requires
        state.wf(),
    ensures
        state.active_output != Some(i) ==> state.show_active_surface(i).state == state
            && state.show_active_surface(i).actions == Seq::<Action>::empty(),
        state.active_output == Some(i) ==> {
            let step = state.show_active_surface(i);
            &&& step.state == state.ensure_layer_surface(i).state
            &&& step.actions.drop_last() == state.ensure_layer_surface(i).actions
            &&& step.actions.len() > 0
            &&& step.actions.last() == (Action::SetInputRegion {
                output: i,
                region: Region::Rect { x: 0, y: 0, width: 1_000_000, height: 1_000_000 },
            })
        },
{
    if state.active_output == Some(i) {
        assert(state.show_active_surface(i).actions.drop_last() =~= state.ensure_layer_surface(
            i,
        ).actions);
    }
}

/// A capture that is given up closes the magnifier where it was that of the
/// magnified output. Else the wait for the pointer ends and every overlay is
/// torn down in turn, and nothing more: frames that are cached stay, and so do
/// the level and the magnified output.
pub proof fn law_giving_up_a_capture(state: StateView, i: usize, j: int)
    requires
        forall|k: int| 0 <= k < state.outputs.len() ==> whole(#[trigger] state.outputs[k]),
        0 <= j < state.outputs.len(),
    ensures
        state.active_output == Some(i) ==> state.capture_aborted(i) == state.deactivate(),
        state.active_output != Some(i) ==> {
            let step = state.capture_aborted(i);
            &&& step.actions.len() == parts(state.outputs, None, state.outputs.len() as int)
            &&& tears_down(step.actions, parts(state.outputs, None, j), state.outputs[j], j)
            &&& step.state == (StateView {
                activating: false,
                outputs: step.state.outputs,
                ..state
            })
            &&& step.state.outputs.len() == state.outputs.len()
            &&& step.state.outputs[j] == (OutputView {
                surface: false,
                layer_surface: false,
                viewport: false,
                configured: false,
                frame_cb_pending: false,
                redraw_dirty: false,
                ..state.outputs[j]
            })
        },
{
    lemma_teardowns_in_turn(state.outputs, None, state.outputs.len(), j);
}

} // verus!
