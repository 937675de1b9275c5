# just-proxy

A SOCKS5 proxy in two halves: a front end (`client`) that serves SOCKS5
clients on a local port, and a back end (`server`) that reaches the targets
they ask for. The halves talk over one TCP tunnel of encrypted frames.

## Layout

- `src/` is the library, verified with Verus:
  - `socks/`: SOCKS5 messages, their text form and the codecs of the local
    side;
  - `message.rs`: the encrypted tunnel frames and their codecs (AEAD from
    `ring`, through the trusted wrappers of `crypto.rs`);
  - `kdf.rs`: the tunnel key, by PBKDF2 from `ring` or, for SHA-512/256,
    PBKDF2 over HMAC built on `ring`'s SHA-512/256 digest;
  - `frontend.rs`, `backend.rs`: what each half decides on each message;
  - `plain/`: a plaintext variant of the tunnel, with 16-byte connection ids;
  - `opt.rs`, `cli.rs`, `json.rs`: options, configuration and the JSON form
    of the configuration file;
  - `wire.rs`, `text.rs`, `ext.rs`: big-endian integers, decimal and
    hexadecimal text, a stream that ends after its first item.
- `tests/` runs the library on concrete values.
- `app/` is the program: command line, logging, sockets and threads. It
  carries the tunnel over TCP only: the QUIC transport needs `quinn` and its
  TLS crates (`rustls`, `webpki`, `rcgen`), which this build does not have,
  so `--protocol quic` stops with "unsupported protocol".
