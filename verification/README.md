# cryptoexchange

A small exchange of tokens against dollars whose state changes only through
Ed25519-signed binary transactions, written in Verus.

`src/` is the verified library:

- `le`, `hexstr`: little-endian integers (through `byteorder`) and hexadecimal
  text (through `hex`), with their round-trip laws.
- `crypto`: key pairs, signatures and signature checks (through
  `ed25519-dalek`).
- `message`: the binary message format (ten-byte header, body) and signing.
- `protocol`: the transactions and the decoder of raw signed messages, with
  the law that decoding gives back exactly what was encoded.
- `exchange`, `schema`, `node`: accounts, orders, their storage, what each
  transaction does to them, and the node's handling of raw messages, with
  the laws that keep the books consistent.
- `request`: transaction requests as clients send them (hexadecimal owner
  and signature) and the raw message each stands for.
- `client`, `session`: the client's account key and signed requests, and the
  decisions of its pages.
- `config`: the configuration of a single-validator node.

`app/` is the program around it: an HTTP node (`iron`), a text client that
talks to it, and a key generator.
