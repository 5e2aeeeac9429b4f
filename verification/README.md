# aether

A state-aware AI execution runtime: for every piece of inference state
(KV cache, activations, weights, experts) it decides whether to keep, move,
prefetch, recompute or evict it, and keeps exact books on where each piece
lives and how many bytes every memory tier holds.

## Layout

- `src/` — the library, verified with Verus. Every public function states
  what it returns or changes; the laws that span several calls stand as
  public proof functions named `law_*`:
  - `types`, `state`, `decision`, `graph`: states, decisions, plans and the
    execution graph;
  - `state_manager`: the registry of states and the per-tier byte ledger
    (capacity is never exceeded by an executed decision or plan);
  - `planning`: evictions down to a budget and MoE expert placement;
  - `device`, `memory`, `buffer`, `pool`, `stream`, `transfer`: the mock
    device's memory accounting, buffers, the caching pool (whose bytes in
    use never exceed its maximum size), streams and the transfer engine;
  - `executor`, `kernel_executor`, `transfer_scheduler`, `execution`: the
    execution layer. `executor::StateExecutor` carries out state decisions
    and whole plans on physical buffers (device, host, or an NVMe backing
    file): a move between HBM, DRAM and NVMe replaces the state's buffer,
    any move updates the state's location in the state manager, and an
    eviction drops the buffer. `kernel_executor` decides an operation's
    run: which inputs are on the device (cache hits), which must be fetched
    (misses), which are missing, and whether its kernel is registered.
    `transfer_scheduler` keeps the queue of pending transfers (best
    priority, then earliest deadline, first) and the active ones under a
    concurrency limit. `execution` holds the layer's priorities and errors.
- `app/` — the benchmark command line and everything that computes in
  floating point (hardware bandwidths, the cost model, the cost-driven
  choices of the decision engine, timing statistics, report tables).

`app/` waits around these pieces: it fetches inputs, polls and sleeps for
transfers, synchronises streams and times runs, all against the simulated
device. There is no unified runtime or metrics collector: those only wire
the pieces together and average timings in floating point (per-tier counts
stand in `StateManager::summary`, transfer totals in `TransferStats`).
