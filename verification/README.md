# vdesk

A small remote desktop. An agent streams the screen of the machine it runs on and injects input
there; a viewer shows the screen and passes its user's input on; a backend brings the two together.

- `src/` is the library: everything that the two programs decide or compute, verified with Verus.
  - `agent` holds the agent: its state, its talk with the backend, the messages of a session, and
    under `services` screen capture, picture conversion, the capture loop and input injection.
  - `viewer` holds the viewer: its window, the painting of the picture, the messages of a session,
    and the ways in which it is started.
  - `wire`, `protocol`, `text`, `grid`, `num` and `jpeg_frame` are shared by both.
  - `outside` holds what is taken from other crates, and what is claimed of it without proof.
- `tests/` runs the library on concrete values.
- `app/` holds the two programs around it: windows, sockets, HTTP, and the calls into the system.
