//! A schema-driven interactive command shell: a navigable command tree
//! merged from typed path definitions, token-by-token validation with
//! contextual help and completion, a raw-mode line editor, and a
//! two-mode (view/config) session state machine.
pub mod chars;
pub mod cli;
pub mod cmd_tree;
pub mod line_reader;
pub mod node;
pub mod num;
pub mod tree;
