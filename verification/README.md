# serde_mobile

Move-oriented accessors for serde deserializers, verified with Verus.

A sequence or map accessor is consumed by each request and hands back the
accessor for the next one, so a request after the end, or for a value before
its key, cannot be written down. An adapter turns such an accessor into one
that is asked through `&mut self`, as serde's visitors do.

- `src/access.rs`: the accessor traits `SeqAccess`, `MapKeyAccess`,
  `MapValueAccess` and `MapEntryAccess`, what each role has whatever it is asked
  for, and the default way to read an entry.
- `src/adapter.rs`: `AccessAdapter` and its state machine, with one relation
  for each kind of request.
- `src/subordinate.rs`: `SubordinateValue`, a ready-made value accessor.
- `src/laws/`: what holds of any number of requests, with seeds of any types:
  the adapter reads what reading by move reads, it is fused, keys and values
  alternate, and its size hint is what remains.
- `app/`: the same traits over serde's own seeds, and the adapter as a
  `serde::de::SeqAccess` and `serde::de::MapAccess`.

Verus cannot call a method through a trait of another crate, so the traits in
`src/` take the type of the seed as a parameter and know nothing of serde; the
contracts speak of whatever the implementation at hand promises, through
`call_ensures`.
