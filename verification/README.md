# drmcap

Capture of a Linux screen through DRM/KMS: the logic of a capture backend and of the consumer
of a remote capture stream, verified with Verus.

- `src/drm/`: the backend. Which displays are offered (`enumerate`, `display`, `connector`),
  whether capture works (`probe`), what a grab means and the picture that is delivered
  (`capture`), the hardware cursor (`cursor`), what is remembered meanwhile (`state`), and
  how a context is opened (`config`).
- `src/drm_reader.rs`: the read engine of a privileged service: which device it opens and which
  pictures it copies.
- `src/drm_capturer/`: the consumer. Whether the service offers capture (`availability`), the
  receiving side of a stream (`stream`), the reader's end (`session`), the cursors of the
  streams (`cursors`), and the displays as clients see them (`layout`).
- `src/linux.rs`: the choice between the backends.
- `src/errno.rs`, `src/fourcc.rs`, `src/pixels.rs`, `src/text.rs`, `src/common.rs`: what they share.
- `app/`: the device, the compositor, the connection and the threads.

The library does no I/O. What a device, a compositor or a connection answers is handed in as a
plain value, and what is to be done next comes back as one. Scale factors are kept as quotients;
`app/` turns them into floating point.

Two functions of std are trusted, both in `src/text.rs`: `str::to_lowercase` and
`String::from_utf8_lossy`.
