# secmsg

The verified core of a small chat system in which every message travels
end-to-end encrypted along an onion route, and a directory server keeps the
registered users.

`src/` is the library, verified with Verus:

- `crypto_lib` — key pairs and sealed envelopes (ephemeral X25519 key
  agreement, then ChaCha20-Poly1305, through rust-crypto); opening an
  envelope gives back what was sealed for the key pair.
- `messages` — the message model and the onion layering of a message along
  a route.
- `net_lib` — wire framing (a four-byte length header) and the reading of
  server replies.
- `mpmc_queue` — the first-in, first-out work queue.
- `state` — the client's conversations, the current one, unseen counts, the
  display queue and the route cache.
- `server` — the directory's users and its answers to logins, registrations,
  connection requests and key requests.
- `client`, `command` — reading what the user types and carrying out the
  commands on the client's state.
- `text` — decimal rendering and string helpers.

`app/` is the program around it: terminal input and output, sockets,
threads, key files, and the JSON encoding of messages (rustc-serialize).
Run it with the argument `server` for the directory server.
