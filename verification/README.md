# odeon

The decision logic of the ODE observers tools (a job server, its remote
client and the model viewers), written in Verus and proved against its
contracts.

- `src/`: the verified library.
  - `rng`: the SplitMix64 generator, with the closed form of its stream.
  - `progress`: the step counter and cancellation flag of a run.
  - `model`: the plain-data model descriptions, their dimensions and labels.
  - `grid`: the estimator grids, the size of a run's output and the
    viewer's memory estimate.
  - `admission`: the server's settings and its admission rules.
  - `runs`: the table of runs in progress, its idle sweep and the answers
    of the run routes.
  - `snapshots`: the snapshot a viewer shows at a playback step.
  - `viewer`: the estimator side of a viewer's model slot (runs in flight,
    outputs kept, central view, Run button).
  - `protocol`: routes, URLs and the binary output frame.
  - `client`: the remote run's polling state machine.
  - `frontend`, `docs`, `palette`: the viewers' settings, the models note
    links and the plot colours.
  - `text`: the string functions the rest is written with.
- `tests/`: scenarios run against the compiled library.
- `app/`: I/O, serde copies of the library types, the HTTP client and the
  floating-point parts that stay outside the proofs.
