# dfx

A FIX protocol engine whose core is verified with Verus.

- `src/` is the verified library: fields and field maps, messages and their
  text form, the data dictionaries that validate them, the parser that cuts
  messages from a byte stream, the message store, session settings and
  schedules, the decisions a session takes (rejects, resend requests,
  sequence checks, the steps of each tick), and the `Session` itself: it
  reads the messages it receives, verifies them, hands them once to the
  application, keeps its sequence numbers and its queue of early messages,
  sends messages (header, sequence number, store), and lists what its host
  has to send or do. Each public function states what
  it returns in its contract; the laws that relate several functions are
  public proof functions named `law_*`.
- `tests/` runs the library on concrete values.
- `app/` holds what Verus does not see: reading settings and FIX
  specifications from files (with serde), logs on the standard output, the
  trait objects that sessions hold, the loop that carries out the steps
  of a tick, and a TCP acceptor that feeds a connection to a session.
