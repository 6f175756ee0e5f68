# ethrex_core

The decisions of an Ethereum client, written and proved in Verus.

- `src/` is the verified library. It holds the cache of accounts that the virtual machine
  works on, the instructions that read the block and the environment, the building of
  payloads, the import of blocks, the workers that keep the state trie, the admission of
  transactions and the choice of what goes into a witness.
- `app/` runs it: threads, channels and tasks, on a store, tries, a virtual machine and a
  mempool that come in through one trait.
- `tests/` runs the library on concrete values.

The cache of accounts and the instruction that reads the hash of a block ask the `Database`
that the library's users implement. All other functions ask nothing of the outside. What a
store answers, or what a signature check found, is an argument, and work that alternates with
such questions is a state machine: the caller performs the step that it names and hands the
outcome back.

The only items that are believed without proof are in `src/table.rs`: the three operations
of a hash map with the hasher of `rustc-hash`.
