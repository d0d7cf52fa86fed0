# comfy_executor

The executor of a node-graph workflow engine in the style of ComfyUI,
written in Verus: prompts are validated against a registry of node types and
run node by node, each node's inputs resolved against the outputs of the
nodes run before it.

- `src/` is the verified library. Besides the executor (`registry`,
  `execution_context`, `executor`, `error`, `strmap`) it holds the logic of
  the nodes that needs no inference backend: the smart prompt grammar of the
  prompt relay nodes (`prompt_parser`, `number`, `relay`), mask and
  preprocessing pixel operations (`mask`, `preprocess`), model file selection
  and the sampler's checks (`models`), the logic nodes (`logic`), what the text
  generation and director nodes send (`llm`, `h3`), and the names of saved
  outputs (`outputs`).
- `app/` is ordinary Rust around it: JSON forms of the library's types, the
  file system, external tools, and the nodes' floating-point arithmetic.
- `tests/` exercises the library on concrete values.
