# kopiur_controller

The decision core of a Kubernetes backup operator, written in Verus. Every function
takes plain values and returns plain values, and its contract states what it
returns; the proofs are checked together with the code.

## Layout

- `src/leader.rs`: leader election over a Lease.
- `src/io/`: what is decided about the cluster's objects: projected credential Secrets
  (`creds`), repositories (`repo`, `cached`), managed maintenance (`maintenance`),
  point-in-time copies of volumes (`staging`, `group_staging`, `staging_run`), conditions
  and status patches (`conditions`, `apply`), pruning (`prune`).
- `src/replication_run.rs`, `src/maintenance.rs`, `src/naming.rs`, `src/pool.rs`: names,
  labels and counting of Jobs.
- `src/metrics/`, `src/kube_metrics.rs`: instruments, series and their labels.
- `src/text.rs`, `src/strmap.rs`, `src/clock.rs`: strings, maps of strings, instants.
- `app/`: the process around the library: configuration, clients, the loops that carry
  out what the library decides.
- `tests/`: the library's tests.

Work that alternates between the cluster and decisions is a state machine here: staging
(`StagingPlan`), credentials (`CredsRun`), renewing the Lease (`RenewRound`) and
reconfirming it (`ReconfirmRun`). `app/` performs the action that a step asks for and
hands back what it found.

## What is not proved

Five calls leave the verified code: four into `chrono`, for RFC3339 texts and elapsed
seconds (`src/clock.rs`), and `String::from_utf8` (`src/io/repo.rs`). Their contracts
are stated where they stand. The laws that relate several functions are the public
`lemma_*` functions of each module.
