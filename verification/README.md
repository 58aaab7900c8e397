# HOPCHAT

A peer-to-peer, end-to-end encrypted chat for local networks, run in a
terminal. Peers find each other by UDP discovery (broadcast, multicast and a
sweep of the /24 subnet), agree a session key by an X25519 exchange signed
with a long-term Ed25519 identity (pinned on first use), and exchange
XChaCha20-Poly1305 encrypted messages that are acknowledged, retried and
delivered once.

## Layout

- `src/` — the library, verified with Verus: the packet formats and their
  parsing, the hexadecimal codec, the cryptographic steps (each primitive is
  one trusted call into its crate), the identity, the token-bucket rate
  limiter, the bounded caches, the peer registry, the conversations, the
  decisions of the listeners (`node`), the retry policy, commands, the
  terminal event loop's state, the screen texts and the layout. For the
  layout, the constraints handed to ratatui and which part goes to which
  panel are proved; the sizes of the parts come from ratatui's solver and
  only their shape (one part per constraint, each spanning the area across
  the cut) is claimed.
- `app/` — the program: sockets and timers (tokio), the terminal (crossterm,
  ratatui), the identity file and JSON (serde), host name lookups. It hands
  every decision to the library.
- `tests/` — tests of the library on concrete values.
