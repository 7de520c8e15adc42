# ayux

The user space of AyuxOS, a security-first operating system on the Linux
kernel, with its logic verified by Verus.

## Layout

- `src/` — the verified library (`ayux`):
  - `color`, `rect`, `canvas`, `image`, `font`: software rendering (pixels with
    alpha blending, rectangles, Bresenham lines, midpoint circles, image
    copies, glyphs), all clipped, with the exact bytes each call leaves in the
    pixel buffer stated in its contract;
  - `widgets`, `apps`: widget state and input handling, the desktop, the
    graphical login, the terminal emulator's keys and output;
  - `window_server`: windows, focus, pointer, input routing and composing,
    and which windows each client connection may touch;
  - `ipc`: the message vocabulary, envelopes and stream framing;
  - `auth`, `session`, `security`: accounts (keyed by an HMAC of the user
    name, passwords hashed with Argon2), sessions, and the capability and
    path policy;
  - `network`, `logging`, `init`, `login`, `shell`, `shell_ops`, `system`,
    `hal`, `paths`: the services' and programs' decisions;
  - `num`, `text`, `strs`, `crypto`: decimal text, whitespace and words,
    string helpers, and the trusted wrappers around the cryptographic crates.
- `tests/` — tests of the library.
- `app/` — the programs around the library: sockets, files, processes,
  devices, shared memory, the font rasteriser, and the serialisable copies of
  the library's types.
