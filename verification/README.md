# mojrg

A peer-to-peer messenger with a server that vouches for identities. The server
registers public keys, signs them, lets their holders in and tells clients how
to reach each other; it keeps no messages. Clients talk to each other directly,
under a key that each pair agrees on.

The library in `src/` is written in Verus: what its functions return is stated
in their contracts and proved. What it takes from other crates (signatures,
encryption, hashing, randomness, identifiers, bincode) stands in `primitives`
and `codec`, with the contracts that are taken on trust.

| Module | What it is about |
|--------|------------------|
| `bytes`, `decimal`, `text` | numbers in bytes and digits, words in a line |
| `primitives`, `crypto` | keys, signatures, sealed messages |
| `protocol`, `codec` | messages, framing, layouts in bytes |
| `message_id`, `chat` | composing, reading, keeping and showing messages |
| `store` | the table of messages and the questions it answers |
| `sync` | how two peers catch up |
| `identity`, `login` | a client's key under its password, registering, logging in |
| `handshake` | how two peers come to trust each other |
| `directory`, `server` | what the server keeps, and its side of a connection |
| `command` | what a user can type |

The programs are in `app/`: `mojrg server` and `mojrg client [identity file]`.
They do the reading and writing, on the network and on disk.
