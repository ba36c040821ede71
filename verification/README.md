# exporter-proxy

An exporter proxy: applications send their Prometheus metrics (as Cap'n Proto
messages or JSON) over unix or TCP sockets, other exporters are polled over
HTTP, and everything is served together on one scrape endpoint (`/metrics`),
with a table of the applications seen on `/apps`.

- `src/` is the library, verified with Verus: the per-application stash
  (`stash.rs`), the three stashes and the scrape and `/apps` texts
  (`metrics.rs`), JSON payloads (`json.rs`), polled responses (`poll.rs`),
  timestamps (`timestamp.rs`), table rendering (`table.rs`), UTF-8 text
  (`text.rs`) and command line defaults (`args.rs`).
- `app/` is the program around it: configuration, sockets, the HTTP poller,
  the scrape server, the locks and the clock.
- `tests/` runs the library on concrete inputs.

Each stash keeps, per application, its metrics with the time they were
received and the source that received them, plus the time of the stash's last
push (which decides when the whole stash expires). The entries hold each
application name once, and the scrape lists them in the order the
applications first sent metrics. Where `receiver.format` names a format, only
that receiver runs.
