# vigil

Uptime monitoring: what a check means for a monitor, when the next one is due, who is told, and
what the figures of a day or a month are.

- `src/` is the library. Every function states what it returns and Verus proves it; the few calls
  into other crates stand behind declared contracts, each with a comment that names the function it
  speaks of.
- `app/` is the service around it: the database, the network, the clock and the web server. It reads
  and sends, and leaves the decisions to the library.
- `tests/` runs the library on concrete values.

Public proof functions whose names begin with `law_` state what holds of several functions together:
that a month that was reported is not reported again, that a monitor which recovers on its first
success and has an incident open gets no second one, that an import either replaces the database or
leaves it as it was.
