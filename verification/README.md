# phala_types

The message and storage types shared by the Phala chain, its gatekeepers and
its workers, written in Verus.

- `src/` is the verified library: the types, their constructors, the framing of
  content that a worker signs (`wrap_content_to_sign`), the bytes that the
  sender of a batch master-key rotation signs (`data_be_signed`), and `KeyMap`,
  a map keyed by public keys whose entries stay in ascending key order.
  `scale` and `hex_text` hold the calls into `parity-scale-codec` and `hex`.
- `app/` holds copies of the types that carry the SCALE `Encode`/`Decode`,
  `TypeInfo` and serde derives, with conversions to and from the library's
  types.
- `tests/` runs the library, and compares `data_be_signed` with what
  `parity-scale-codec` writes for the same fields.

## Design notes

- `BatchRotateMasterKeyEvent::secret_keys` is a `KeyMap`: a `Vec` of entries
  sorted by key, each key once, kept as a type invariant. The order of the
  entries is the order in which `data_be_signed` writes them, so it has to be
  stated. vstd specifies `BTreeMap`, but the order of its entries only for keys
  whose `Ord` it knows: for `[u8; 32]` and for `Public` Verus cannot show
  `key_obeys_cmp_spec`, while for a tuple of four `u64` it can. Keying
  the map by such a tuple would change the key of the public field from the
  worker's key to four integers, so the map is `KeyMap` instead.
- The topic bindings of the message types (`bind_topic!` of the `phala-mq`
  crate, e.g. `phala/system/event` for `SystemEvent`, `phala/gatekeeper/key`
  for `KeyDistribution`) and the re-export of that crate's `types` module are
  not here: `phala-mq` is not on the registry that this crate draws from.
- There is no `contract` module.
- The stand-in key, hash and integer types derive `Debug`, so they print as
  their bytes or limbs.
- `app/` derives serde on `TokenomicParameters` and `AttestationProvider`
  always: a cargo feature to switch it off is not available to this crate.
