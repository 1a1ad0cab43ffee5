# theshy

A small tunnelling proxy. A local client speaks SOCKS5 to a *fox* line;
its first payload, carrying the destination host, is shuffled and sent
through a *caller* line to the proxy server, where an *operator* line reads
the host back and opens a *spider* line to the destination. A front hub
keeps a pool of caller lines healthy and serves a small web page.

## Layout

- `src/` is the library, verified with Verus: the hubs and their lines,
  the SOCKS5 handshake, the first-payload frame, the page server's
  choices, the settings and the log paths. Each hub operation is a step
  from one state to the next plus the work left to the event loop
  (`Action`, `EventPlan`), stated over views of the hub and its lines.
- `app/` is the event loop around it: sockets and polling (mio), DNS,
  files and the clock. It performs the actions the library returns.
- `tests/` runs the library on concrete values.

Outside crates: `sni_shuffle` (the shuffle of the first payload) and
`configparser` (the ini settings) are called from `src/` through trusted
wrappers; `mio` and `enum-iterator` are used in `app/` only.
