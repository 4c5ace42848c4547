# composefs_ops

The decisions behind pulling container images into a composefs repository and mounting
them, written in Verus and proved against their contracts.

- `src/retry.rs`, `src/transient.rs`: which failures of the image proxy are transient,
  how often and after which delay an operation is retried.
- `src/fetch.rs`: one layer from its first attempt to its registration; only data that
  the proxy has verified is registered.
- `src/layers.rs`: the order in which layers are fetched, and how the results are put
  back into the order of the image.
- `src/reference.rs`, `src/manifest.rs`, `src/pull.rs`: image references, manifests, and
  the steps of a pull.
- `src/mount.rs`, `src/errno.rs`: a mount from the check of its options to what it
  returns; only an image with the expected fs-verity digest is mounted.
- `src/text.rs`, `src/duration.rs`: texts and spans of time.

Each `law_` function states a property that spans several of them.

`app/` is ordinary Rust around the library: the image proxy, timers, progress, system
calls, and the jitter, which is floating point.
