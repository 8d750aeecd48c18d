# operation_tasks

Cooperative table operations that own bounded data, as a library verified with Verus.

An operation is a task. It never performs an effect itself: it asks a driver for one effect at a
time, is resumed with the effect's response, and yields between bounded CPU turns. Everything that a
task retains, requests or hands over is admitted against finite allowances before it is allocated,
and everything that it owns is released when it completes, fails or is cancelled.

## Layout

- `src/` is the library. Its functions have contracts that Verus proves.
  - `protocol`, `machine`, `accounting`, `failure`: identities, the request and resume protocol, the
    ledger of allowances, and failures that own their error once.
  - `driver`, `storage`, `evaluation`: the driver of a task's effects, bindings of paths to object
    identities, listings, and pages of evaluated batches.
  - `plan`, `schema`, `plan_shape`, `literals`, `inspection`, `plan_admission`: plans, their
    borrowed inspection, and plans that are owned only after their storage was admitted.
  - `log_manifest`, `locations`: the discovered history of a table and its canonical locations.
  - `json_*`, `snapshot_task`, `scan_task`, `scan_preflight`, `table*`: the tasks that load a
    snapshot and scan its files from JSON commits, with the storage that every step may own.
  - `local_index`, `local_paths`, `local_objects`: the rules of a local source of files.
  - `engine`: decisions of the expression engine and of the synchronous engine.
  - `bytes`, `text`, `sizing`, `checks`, `headroom`, `ledger`, `refusals`, `rows`, `backing`: what
    the others share.
- `tests/` runs the library on concrete values.
- `app/` is ordinary Rust around the library: identities of the process, asynchronous hosts, local
  files, object stores, Arrow arrays and the streaming decoder of schemas.

## What is not proved

The URL parser is called through the functions of `locations`; what it returns is named there, not
described. `backing` measures storage that an allocator gave, and says only what holds of every
allocator. Sources, compilers, semantic states, batches and table implementations that a user
supplies are traits; what they return is not described unless the trait says so. An evaluation
source keeps a history of what it handed out, and readers are proved against that history.
