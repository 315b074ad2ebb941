# dbsp

The core of an incremental view maintenance engine and of the services around it,
written in Rust and verified with Verus.

- `src/algebra`: weights (monoids, groups, rings) and finite maps from keys to weights.
- `src/trace`: batches of weighted keys, plain (`OrdZSet`) and indexed
  (`OrdIndexedZSet`), with their layers, cursors, builders, mergers and consumers.
- `src/pipeline_manager`: the configuration of the pipeline manager, requests to
  change the state of pipelines, and the automaton that moves a pipeline toward its
  desired state.
- `src/adapters`: the HTTP server of a pipeline: how it starts, how it initializes its
  pipeline, and how its requests are served.
- `src/sqllib`: decimal numbers for generated SQL programs.
- `src/text.rs`, `src/order.rs`: text and total orders.

What waits for files, processes or the network is written as a machine that says what
to do next and takes what came of it.  `app/` runs these machines.

A key type has to keep the contracts of `Ord`, `Eq`, `Hash` and `Clone`
(`lawful_order`, `lawful_key`).  Weights are machine integers, so each operation asks
that its sums can be held.
