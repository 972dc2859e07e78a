# layershellify

A proxy that sits between a Wayland application and the compositor and
places the application's toplevel window on a `zwlr_layer_shell_v1`
surface. It binds the layer shell where the client binds `xdg_wm_base`,
creates a layer surface where the client creates its first `xdg_surface`
(with the layer, anchors, size and margins given on the command line),
reparents popups that name the layer surface as their parent, and turns the
layer surface's events into the `xdg_surface`, `xdg_toplevel` and
decoration events the client expects.

- `src/` is the library, with Verus contracts and proofs: the wire encoding, the
  per-message decisions for requests and events, the scan of a buffer into
  messages, and proof functions for the properties that span messages.
- `app/main.rs` is the program: argument parsing, the sockets, the child
  process and the event loop that hands each buffer read to the library.
- `tests/` runs the library on concrete messages.
