# rustdds (verified core)

Parts of a DDS implementation, written in Verus with their contracts proved:

- `endian`: byte order and the integer codecs behind it (speedy's reader and
  writer, called through trusted wrappers).
- `structure`: the 20-byte RTPS message header and sequence numbers.
- `submessages`: submessage kinds, flag bytes, headers, and submessages.
- `serialization::message`: submessage flags by name (`SubmessageFlagHelper`)
  and RTPS messages read from and written to bytes, with the round-trip laws
  between reading and writing.
- `security::access_control`: the built-in access control plugin.

`app/` holds what Verus does not see: speedy `Readable`/`Writable` impls on
a copy of the message type.
