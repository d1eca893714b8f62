# minecrevy

Reading and writing Minecraft protocol data, verified with Verus.

- `src/` is the library. Its functions carry contracts that Verus proves:
  VarInts and big-endian numbers, strings, lists, options, maps and tuples
  (`io`), namespaced keys (`key`), NBT values and compounds (`nbt`), packet
  framing and the decisions of the connection loops, handshake and login
  (`net`), and the protocol's packets (`protocol`). Round-trip laws stand
  beside the functions they are about, as public proof functions named
  `lemma_*`.
- A few small functions, marked `#[verifier::external_body]`, call other
  crates or std, and their contracts are trusted rather than proved:
  `bytes_buf.rs` (bytes' `BytesMut`), `cursor.rs` (std's `Cursor`),
  `nbt/compound.rs` (indexmap's `IndexMap`), `text.rs` (`String::from_utf8`),
  `uuid.rs` (uuid's `new_v3`), `io/packet/codec.rs` (`Duration::from_secs`)
  and `key.rs` (`String::push`).
- `app/` holds what talks to the outside world: the async loops on sockets,
  the `tokio-util` codecs, and the JSON and NBT conversions through serde.
  It performs what the library decides.
- `tests/` runs the library on concrete values.
