# qduct

A UDP tunnel over QUIC. A server waits for connections and forwards what arrives
to one local address; a client receives datagrams on a local address, hands them
to the server, and sends the answers back to whoever wrote last. Each side has a
fresh self-signed certificate, and the users compare a few words that stand for
its hash.

- `src/` is the library, verified with Verus. It holds what is decided or
  computed:
  - `tunnel/bytewords.rs`: the words for a certificate;
  - `tunnel/keypair.rs`: keys and certificates;
  - `tunnel/trust.rs`: whether a peer's certificate is accepted;
  - `tunnel/endpoint.rs`: how a client and a server are set up and shut down;
  - `tunnel/queue.rs`: the two queues of a tunnel;
  - `tunnel/forward.rs`: what the tasks of a tunnel share and decide;
  - `tunnel/history.rs`: what holds of a tunnel over time;
  - `session.rs`: one tunnel after the other, until the user interrupts.
- `app/` is the program: arguments, sockets, QUIC endpoints, tasks, the terminal.
- `tests/` runs the library.

Contracts of outside functions (`ring`, `base256`, `rcgen`, tokio's channels) are
believed, not proved. Each stands on a small function marked
`#[verifier::external_body]`, with what it claims in its doc comment.
