# kvbm

A verified library for the key-value cache of a language-model server that keeps its blocks in
several tiers: device memory, host memory, local disk and remote storage (an object store or a
shared disk).

The library holds what is decided about blocks and requests:

- the phases of a request and the effects of every event (`slot_machine`, `slot_runtime`,
  `effect_executor`, `slot_ops`, `tier`),
- the leader that answers the inference engine (`leader_core`, `leader_requests`,
  `leader_metadata`, `metadata`, `slot_manager`, `signals`),
- the scheduler of the workers' transfers (`scheduler`, `scheduler_client`),
- what goes to remote storage and under which names (`offload_planner`, `remote`,
  `registry_ops`, `kvbm_leader`),
- how transfers are split, listed and checked (`block_transfer`, `nixl_transfer`, `xfer_blocks`,
  `fd_cache`, `checksum`),
- the registry's wire framing and its hub (`zmq_transport`, `zmq_hub`),
- settings (`config`, `slot_config`, `baggage`, `text`).

Every function states in its contract what it returns or changes. Properties that span several
functions are public proof functions; those of the state machine, the leader and the scheduler are
collected in `slot_laws`, `leader_laws` and `scheduler_laws`.

Calls into other crates (hashing, concurrent maps, random ids, the clock) stand behind small
functions whose contracts are taken on trust. Each says in its documentation what it claims.

- `src/`: the library, verified with Verus
- `tests/`: its tests
- `app/`: sockets, files, tasks and encodings around the library
