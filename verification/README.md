# rustcraft (verified core)

The verified core of a Minecraft-compatible client, written in Verus.

- `src/` is the library. Its functions are proved against their
  `requires`/`ensures` contracts, except the small trusted wrappers
  (`#[verifier::external_body]`) around calls into `byteorder`, `log`,
  `base64`, `rand`/`rand_pcg` and the standard library, whose contracts
  are believed as the outside code documents it:
  - `nbt`: the NBT binary format — the tag tree, its reader (depth, array
    and compound limits, lossy UTF-8 names) and writer, with the laws that
    reading what was written gives the tag back, that `get` after `put`
    finds the value, and that a value read from a prefix of a stream reads
    the same from the whole stream (the stream reader's step).
  - `console`: log-level settings and their precedence, the line each
    record gets (text and colours), where it goes, the in-game history,
    timestamps, the panic report.
  - `sysinfo`: parsing `/proc/self/statm`, `/proc/meminfo` and
    `/proc/self/stat`.
  - `item`, `player`, `logo`, `server_list`, `veh`: the decisions of the
    item renderer cache, movement and flight toggling, splash texts, server
    list entries and the exception handler and its crash report.
  - `bytes`, `text`: big-endian integers and text helpers over `byteorder`
    and the standard library.
- `app/` is ordinary Rust around it: file and stream I/O, the global log
  sink and panic hook, `/proc` reading and the Windows exception handler.
- `tests/` runs the library on concrete values.
