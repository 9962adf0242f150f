# Pixtimize

An ImageKit-compatible image transform API over any S3 bucket, with its
rules and decisions proved correct by Verus.

A request such as `/tr:w-606,h-450,f-jpeg/image.png` or
`/image.png?tr=w-606,h-450,f-jpeg` is parsed into transformations, keyed by
`cached/<sha256 hex>`, served from the cache (Redis metadata, S3 objects)
when present, and otherwise built once (coalesced in-process and across
instances by a Redis lock), stored and returned.

## Layout

- `src/` — the verified library.
  - `text` — characters, decimal digits, splitting and joining.
  - `domain` — transform parsing (`transform`, `dimension`, `number`),
    limits, cache metadata and the SHA-256/hex cache key (`digest`).
  - `application` — the render pipeline as two state machines
    (`render_flow`: serving a request, building a transform) with their
    building blocks (`render_image`), the table of in-flight builds
    (`single_flight`) and the cache cleanup walk (`cache_cleanup`).
  - `infrastructure` — Redis key layout, S3 metadata rules, cron
    normalization and the integer rules around libvips.
  - `api`, `config`, `error`, `image_ops` — HTTP response shaping,
    configuration from environment values, errors, cover-crop geometry.
- `app/` — the server: Axum, Redis, S3, libvips and the scheduler. It
  performs the I/O that the library's machines ask for.
- `tests/` — tests of the library on concrete values.

Properties proved about the pipeline include: a `HEAD` hit never downloads
the object; the build lock is always released before a build finishes;
processing, upload and metadata recording happen only under the lock; a
source above 20 MB is never processed; metadata is recorded only after the
upload it names.
