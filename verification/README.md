# Fauna

A peer-to-peer, end-to-end encrypted chat, with its logic verified by Verus.

- `src/` is the library. Every function in it is verified against its contract, but for the calls
  of outside functions in `primitives`, whose contracts are trusted.
  - `identity`, `key_exchange`, `crypto`, `invite`: Ed25519 device identities and peer ids, X25519
    session keys, XChaCha20-Poly1305 messages, and shareable `fauna://join/...` invites.
  - `session`, `address`: the greeting that proves who the other side is, the sealed lines of a
    chat, and where an invite leads.
  - `socks`, `control`, `cookie`, `tor`: reaching the other side through Tor.
  - `desktop`: the state of the chat window.
  - `primitives`: the outside functions that the library calls, with what they are trusted to do.
- `app/` is the program: the command line, the window, sockets, threads and files.
- `tests/` runs the library with its outside crates.

## What is proved

- A signature of a device verifies, and an exported identity is restored to the same key.
- What one session key seals, it opens again.
- Two devices that exchange honest greetings agree on one session key, and a device that was not
  invited is refused.
- A link gives back the payload it was made of, and different invites have different links.
- A frame travels as one line, and different frames have different JSON.
- An advertised onion address leads to the service that was published.
- The SOCKS5 handshake reads exactly the answer of the proxy, and leaves the rest of the stream to
  the session.
- A reply of Tor is read to its last line, and no further.
- The challenge of a Tor that knows the cookie is answered with the code that proves the same.

The cryptographic primitives themselves are not verified: `primitives` names their results and says
which facts about them are trusted.

## Use

    fauna identity
    fauna invite --name "Kivan" --addr "/ip4/192.168.1.10/tcp/45123"
    fauna host --name "Kivan" --bind "0.0.0.0:45123" --public-addr "192.168.1.10:45123"
    fauna join --name "Ada" "fauna://join/..."
    fauna window
