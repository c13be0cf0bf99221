# radiacode

Tools for RadiaCode radiation detectors: the device protocol's replies and records, the
Bluetooth link's addresses and failures, and the decisions of the desktop app (scan listings,
the background worker, spectrogram capture, dose history, library search).

- `src/` is the library, verified with Verus. Each public function states what it returns in
  its contract; the laws the library keeps across calls stand as public proof functions named
  `law_*`.
- `tests/` runs the library on concrete inputs.
- `app/` holds what the library leaves out: operating-system calls (D-Bus, sound, files, log
  output), floating-point display arithmetic, and the serialisable and displayable copies of
  the library's types.
