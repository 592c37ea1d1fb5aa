# fabro_workflow

The stages of an agent workflow: which handler runs a node, what it is told of
the run so far, how branches fan out and come together, how a human's answer is
routed, how an agent's session falls back and repairs its output, and what is
told and kept around each stage. The decisions are written in Verus and proved
against contracts over mathematical models; what performs them is ordinary Rust.

## Layout

`src/` is the verified library.

- `text`, `order`, `table`, `json`, `keys`: characters, sorted texts, maps by
  text, JSON values, context keys and fidelities.
- `graph`, `outcome`, `error`, `context`, `stage_id`: the data of a run.
- `interview`, `interview_block`, `interview_acts`: questions to humans, what they
  block, and what is heard of them in which order.
- `hook_context`: what hooks are told.
- `handler`: the stage handlers. `registry` finds one for a node; `basic`,
  `human`, `fan_in` and the `parallel*` and `branch*` modules run nodes;
  `json_objects`, `schema_issue` and `structured_output` read an agent's output.
- `handler::llm`: agent and prompt stages. `preamble` tells a stage what came
  before it; `fallback`, `one_shot` and `agent_run` lead a request through its
  routes and repairs; `acp`, `refresh` and `changed_files` serve agents that run
  as processes.
- `lifecycle`: what happens around stages. `fidelity` prepares them, `event`
  tells of them, `artifact` keeps their files, `hook` asks users' hooks,
  `callbacks` says who acts in which order, and `workflow` joins these.

A type with a model implements `View`; contracts speak of the views. What an
operation makes of a state is a spec function, and the proof functions whose
names start with `lemma_` state what holds of all of them.

`app/` is the engine around the library: async loops, and the ports through which
a run reaches its sandbox, its models and its users.

`tests/` runs the library on concrete values.

## What is taken on trust

JSON text is read, written, compared and searched by `serde_json`; schemas are
checked by `jsonschema`; identifiers come from `ulid` and `uuid`. The items that
call them are marked `external_body` and say in their comments what is assumed.
A few functions of the standard library are specified the same way.

Two things are assumed of those who hand values over, and said where they are
used: how the reader of a graph takes shapes and attributes (`graph`), and which
characters a display takes for a label (`handler::branch_item`).
