# fs-caching-server

An HTTP proxy that caches matching successful `GET` answers on the local
filesystem. What it decides is a library verified with Verus; what it does
around that is ordinary Rust.

* `src/` is the library. A request is a sequence of steps (`proxy`, `fetch`);
  each step names what has to be done outside, and its outcome gives the next.
  `runs` and `disk` prove what holds of every such sequence: that the file a
  request touches lies under the cache root, and so do its directory and the
  temporary file beside it (unless the request is for the root itself), that
  only successful answers to matching `GET` requests are stored, that no reader
  sees half of a body, that whoever fetches a file wakes those who wait for it,
  and that what was stored is what is served.
* `app/` performs the steps: it listens, talks to the backend, reads and writes
  files, and waits.
* `tests/` runs the library on concrete values.

## Run

```sh
fs-caching-server \
  --cache-dir /data \
  --host 127.0.0.1 \
  --port 8080 \
  --url https://pkgsrc.smartos.org/
```

| Flag | Environment | Default |
| --- | --- | --- |
| `--cache-dir` | `FS_CACHE_DIR` | `.` |
| `--debug` | `FS_CACHE_DEBUG` | disabled |
| `--host` | `FS_CACHE_HOST` | `0.0.0.0` |
| `--port` | `FS_CACHE_PORT` | `8080` |
| `--regex` | `FS_CACHE_REGEX` | common web assets and archives |
| `--url` | `FS_CACHE_URL` | required |

Unless `--regex` is set, the paths that end in `.css`, `.gif`, `.html`, `.ico`,
`.jpeg`, `.jpg`, `.js`, `.png`, `.svg`, `.webp`, `.woff`, `.woff2`, `.gz`,
`.tgz` or `.zst` are cached.
