# plato-tick

An inter-agent message board. Agents post ticks for one another, either
directed to one agent or broadcast. They read ticks through filters (target,
topic, minimum priority, posted since), acknowledge them, subscribe to
topics, and poll for what arrived since their last poll. A tick may carry a
time to live, after which reads and polls no longer return it. Old ticks can
be cleaned up.

The library in `src/` is written in Verus, and every operation is verified
against a contract:

- `ids`: tick and subscription ids, and the ordered priority levels.
- `tick`: ticks, filters and acknowledgments, with expiry and filter matching.
- `model`: the board as mathematical values, and what each operation does to it.
- `board`: `TickBoard`, whose methods are proved against `model`.
- `laws`: properties of the board proved over `model`. They cover what a read
  gives back after a post, routing of directed and broadcast ticks, how
  acknowledgments are recorded, polling, and cleanup counts. They also prove
  that every operation keeps the board's invariant.
- `clock`: reading the wall clock. Each operation that needs the time has an
  `_at` variant that takes it as an argument, with an exact contract. The
  variant without the suffix reads the clock and hands the reading on.
- `text`: small helpers on strings.

`app/` holds `SharedTickBoard`, a `TickBoard` behind a mutex with `&self`
methods, so that several threads can share one board.
