# rathole

The server of a reverse tunnel, with its decisions proved in Verus.

A client behind a firewall opens a control channel to the server and proves that
it knows a service's token. The server listens for the service's visitors, asks
the client for data channels, and joins each visitor to one.

* `src/` is the verified library. It admits handshakes within bounds, checks
  proofs, keeps the control channels, follows configuration changes, and runs the
  state machines of control channels, listeners and connection pools. Every
  function states in its contract what it decides; functions named `law_...` state
  what holds of several of them together.
* `app/` is the server on tokio. It owns the sockets, tasks and timers, reports
  events to the library and carries out the answers.
* `tests/` runs the library on concrete values.

Six outside functions are trusted: `sha2::Sha256::digest`, `hex::encode`,
`bincode::serialize`, `rand`'s `fill_bytes`, and `backoff`'s default policy and
`next_backoff`. The doc comment on each wrapper says what is taken from it.
