# buckyboi

A Linux desktop overlay buddy: a rotating wireframe icosahedron that floats
above the windows, drifts away from the pointer (or a look-target), listens
when it is clicked or looked at, and can tell enrolled people apart by face,
voice or hand gesture. Identity gating decides who may start listening.

## Layout

- `src/` — the library, verified with Verus. Every public function carries
  a contract, and the `law_*` proof functions state the properties that hold
  across calls.
  - `ux`, `gaze`, `session` — the overlay phases (visible, listening,
    hidden), the gaze-dwell timer, and the glue that admits listening only
    through the gating check.
  - `gate` — gating modes and the live face / voice matches.
  - `enroll`, `wizard`, `persist`, `hands`, `face`, `voice` — enrolment
    runs, the first-run wizard, the people store, gesture classes and maps,
    model file choices and the HUD texts.
  - `radial` — the listening menu: panels, icon flashes, what a click on the
    menu does, and `settings.ini`.
  - `gaze_calib`, `gaze_track`, `camera`, `worker` — the calibration run,
    landmark tensor layouts, the shared frame slot and the vision pacing.
  - `blob`, `draw`, `display`, `wake`, `sim` — skin-region search, pixel
    blending and glyph text, backend choice and blits, wake commands and
    Hyprland replies, and the icosahedron's edges.
  - `text`, `num`, `ini`, `flags` — character and number helpers.
- `tests/` — tests run against the compiled library.
- `app/` — the X11 program around the library: display and input, the
  control socket and signals, configuration files, and the float geometry
  (motion, layout, painting).
