# niri-zoom

A screen magnifier for niri and other Wayland compositors that offer layer
shell and screencopy. A key binding runs `niri-zoomctl in|out|reset`, which
sends one command to the `niri-zoomd` daemon. On the first step in, the daemon
finds the output under the pointer, captures it once, and shows a cropped,
scaled view of that one frame in a fullscreen overlay that follows the pointer.
Back at 1x, or on a reset, the overlay goes and nothing is left of it.

The logic is verified with [Verus](https://github.com/verus-lang/verus).

* `src/` is the verified library. Everything the daemon decides is a function
  from its state and an event to the next state and a list of actions
  (`transition.rs`); the executable code (`session.rs`) is proved to follow it,
  and `session_laws.rs`, `capture_laws.rs`, `draw_laws.rs` and `object_laws.rs`
  prove what holds whatever events arrive. Zoom levels, commands, the badge and the sampling of frames have exact
  contracts of their own.
* `app/` is the program around it: the Wayland connection, the control socket,
  shared memory, and the crop window, which is computed in floating point. It
  is one program under two names: started as `niri-zoomctl` it sends a command,
  otherwise it is the daemon.
* `tests/` holds the tests of the library.

## Units

Zoom levels are hundredths: 100 is 1x, a step is 25, the maximum is 600.
Pointer positions are in 1/256 of a logical pixel, as the compositor sends
them.
