# esp_nvs

Bookkeeping for an ESP-IDF style non-volatile storage (NVS) partition,
written in Verus and verified.

## Layout

- `src/key.rs`: 16-byte, NUL-padded keys and namespace names; their
  big-endian code (used to index namespaces) and their debug text.
- `src/page.rs`: what is kept in memory about each flash page, and the
  stable ordering of pages by address.
- `src/nvs.rs`: the store. Partition geometry, the fault state (a flash
  error makes the store refuse writes), the namespace and page tables,
  and usage statistics.
- `src/serde/`: the decisions of the struct mapping, in which each field
  of a struct is one item of a namespace, keyed by the field's name.
- `src/text.rs`: ASCII text (decimal numbers, byte escapes) turned into
  `String`s.
- `app/`: the impls of serde's `Serializer` and `Deserializer` traits,
  which ask the library what to do for each call, and the error type with
  its derives.

## The storage engine

The flash work itself (scanning a partition, reading, writing and erasing
items) is done by a storage engine outside the store. Each operation of
`Nvs` takes that work as a closure: the store decides whether it runs,
hands it the hal, the tables and what it needs (namespace, key, namespace
index, value), and decides what the operation answers for each outcome.
The contracts state these decisions for every outcome the engine can give.
