# shovel

A Minecraft server library whose logic is verified with Verus.

`src/` is the library. Its functions have contracts, and Verus proves them.

- `codec` writes and reads variable length integers, packet frames and texts; `stream` states
  that packets are read back from a stream, also through ciphers.
- `protocol` and `nbt` hold the data of packets as plain values. Doubles and floats are kept as
  their bit patterns; `double` and `math` compute with doubles by integer arithmetic.
- `phase` follows a connection: the handshake, the status, the login, the play phase.
- `client` holds connections, the position that a client says, and the packets of a login.
- `entity` tells clients of entities and their movement; `entity::laws` states what clients can
  rely on.
- `inventory` and `inventory::item` are inventories, menus and item stacks; `level` collects
  changes of blocks.
- `crypto` wraps RSA keys and signatures; `natural` computes with the numbers in them, and
  `der` measures how deeply written keys are nested. `proxy_protocol` reads proxy headers.
- `server`, `system` and `tick` are the parts that hold a server together.

What the library takes from other crates stands in functions marked
`#[verifier::external_body]`, each with a comment that says what is believed of it.

`app/` is the program around the library: sockets, tasks, the request to the session server,
and floating point. `tests/` runs the library.
