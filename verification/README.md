# sunray

The host-side logic of a Vulkan hardware ray-tracing renderer, written in
Verus: the functions in `src/` carry contracts that the verifier proves. The
exceptions are the small wrappers marked `#[verifier::external_body]` around
calls into petgraph, ash and std (graph and union-find operations, parsing,
byte order, formatting, the clock, backtraces); their contracts are believed,
and each one's doc comment says what it claims of the call it makes.

## Layout

- `src/render_graph/`: the render graph. Passes declare the resources they
  read and write (`pass_builder`), the graph records resources and passes
  (`graph`), and compiling derives the hazard edges between passes
  (`hazard`), schedules the passes in a topological order with the barriers
  each one needs, splits them into independent components and reports every
  resource's end state (`compile`). `pipeline_cache` interns pipelines by the
  hash of their shader bytes.
- `src/frame_graph.rs`: the renderer's frame (ray tracing, temporal
  accumulation, the denoise chain and post-processing) as a render graph, with
  proofs that it stays within the graph's limits, so that compiling it
  succeeds, and that any compiled schedule of it is its declaration order.
- `src/frame.rs`, `src/renderer.rs`: frame callbacks, in-flight slots, frame
  counters, scene groups and the other bookkeeping of the renderer.
- `src/scene.rs`: the plan for loading a scene's node tree onto the GPU.
- `src/device.rs`, `src/demo.rs`, `src/integration.rs`: device and surface
  choices, the demo's event handling, and the decisions of the engine
  integration.
- `src/error.rs`, `src/utils.rs`, `src/profiling.rs`: errors, small helpers
  and profiling scopes.
- `tests/`: tests of the library on concrete values.
- `app/`: a command-line front end that reads the configuration from the
  environment, builds one frame's graph and prints its schedule.

The laws the library states about itself are the public `lemma_*` proof
functions; for instance `lemma_schedule_orders_conflicting_accesses` says that
a compiled graph runs the passes of every pair of conflicting accesses in
the order in which they were declared.
