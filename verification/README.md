# test_window

A headless window and sprite atlas for UI tests, verified with Verus.

- `src/geometry.rs`: points, sizes, rectangles and device pixels.
- `src/atlas.rs`: the in-memory sprite atlas. Tiles are built once per key and
  receive fresh ids; dynamic textures are updated in place from strided rows,
  after the extent, stride, payload length and destination rectangle are
  checked. The proof shows that an update writes exactly the rectangle.
- `src/window.rs`: the window's recorded state and its frame-scheduling
  protocol, with the laws that relate requests, draws and deliveries.
- `src/history.rs`: records and counters over runs of calls, used by the
  laws that speak of many calls.
- `app/lib.rs`: the shared handles (`Rc<Mutex<..>>`) that hold the registered
  callbacks, run them when the library says so, and turn atlas errors into
  `anyhow` errors.
