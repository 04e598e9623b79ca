# hybrid-indexer

An event indexer for Substrate chains. For every event of every block it
stores a record in a `sled` tree under each key the event carries (its
pallet and variant, account ids, indices, hashes) and tells the clients that
subscribed to such a key.

- `src/` is the library, verified with Verus: the key formats
  (`keys`, `records`, `bytes`), the subscriptions and what indexing an event
  calls for (`indexer`), the per-pallet rules and the reading of pallet
  events from their field bytes (`pallets`, `scale`), the text of a proposal
  hash (`hex`), the metadata cache (`metadata`) and the progress of
  batch indexing (`batch`).
- `app/` talks to the node (subxt), the database (sled) and the subscribers'
  channels (tokio), encodes stored values, and carries out what the library
  decides.
- `tests/` runs the library on concrete values.
