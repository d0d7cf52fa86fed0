//! The node graph executor of a ComfyUI-style workflow engine: prompts are
//! validated against a registry of node types and run node by node, each
//! node's inputs resolved against the outputs of the nodes before it.
//! Beside the executor stand the logic of the nodes that does not need the
//! inference backend: the smart prompt parser of the prompt relay nodes,
//! mask and preprocessing pixel operations, model file selection, the
//! logic nodes, what the text generation and director nodes send, and the
//! names of saved outputs.

pub mod text;
pub mod strmap;
pub mod number;
pub mod error;
pub mod registry;
pub mod execution_context;
pub mod executor;
pub mod prompt_parser;
pub mod relay;
pub mod mask;
pub mod preprocess;
pub mod models;
pub mod logic;
pub mod llm;
pub mod h3;
pub mod outputs;
