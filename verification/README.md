# pentair_daemon

A daemon for a Pentair pool controller: it keeps a live view of the pool and
spa, serves an HTTP/WebSocket API, runs scenes and timed spa heating, sends
push notifications and estimates heating times and idle water temperatures.

- `src/` is the verified library (Verus). It holds the daemon's decisions:
  request handling and replies, scenes, the heat schedule, the device store,
  the push-service rules and token caches, the adapter's reconnect and
  command follow-ups, the notification state machine, the heat estimator's
  bookkeeping (trust, activity windows, sessions, history, refits), the
  weather cache and the comfort scheduler's calendar logic. Every public
  function carries a contract; the laws that tie several calls together are
  proof functions beside them.
- `tests/` runs the library on concrete values.
- `app/` is the program around it: configuration files, the network and
  file I/O, the async tasks, and the floating-point physics of the water
  (projection, fits, heating rates), which the library does not hold.
