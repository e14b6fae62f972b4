# p2pchain

A small peer-to-peer blockchain node. The library under `src/` is written in
Verus and proved against its contracts; `app/` holds the node program around
it (sockets, tasks, the interactive shell, files, serde and bincode).

- `protocol/`: the 32-byte packet header and its byte codec (decode/encode
  round trips are proved), content types and flags, packet framing with a
  SHA-256 checksum, and the proof-of-work extension.
- `block`, `blockchain`: block hashing and mining, and a chain whose blocks all
  carry a hash that meets the chain's difficulty.
- `bootstrap`, `peers`, `keys`, `address`: node and peer URIs, public keys,
  peer options and peer ids.
- `networking`, `assoc`: what the node does with received headers and
  messages, and the table of pending and established connections.
- `cli`, `clargs`, `config`, `logging`: what the shell and the command line
  ask for, what the JSON start-up files list, and the console's level tags.
- `bytes`, `text`, `hashing`: little-endian numbers, hexadecimal, decimal and
  character helpers, and the calls into `sha2`, `uuid` and the clock.
