# radix_engine

A Verus library that states and proves the state-handling core of a
transaction engine.

Modules under `src/`:

- `staging`: a tree of staged execution stores over an in-memory substate
  store; reads see the writes of a node's ancestors, merging folds a branch
  into the root.
- `track`, `node_ref`, `values`, `model`, `types`, `errors`: tracked
  substates with read/write locks, references to nodes on the call-frame
  heap or in the track, and the rules for moving, persisting and dropping
  nodes.
- `traverse`: the walk over the state tree below a node, down to a
  maximum depth. A visitor keeps the calls it receives as its log; the
  walk appends to that log exactly the sequence `descendant_visits`
  lists, and a law gives its shape (depths, and each node after the one
  it was found under).
- `securify`: the access rules of securified and pre-securified objects.
- `schema`: schema validation and lookup of a schema's types.
- `auth_module`, `executor`, `replay`: badge ids, where a call's
  authorizations come from, the auth zones a check consults and the order
  in which authorizations are checked; the input of the transaction
  processor and the receipt of a transaction; and the decisions of a
  ledger replay.
- `assoc`, `bytes`: finite maps kept as lists of entries, and byte-string
  helpers.

Laws are public proof functions named `lemma_*`. Tests under `tests/`
exercise the library on concrete values.
