//! A compile-and-run toolchain for a small imperative teaching language
//! ("Dusty") with global and per-procedure scopes, `int`/`float` variables,
//! string literals (print-only), arithmetic and relational expressions,
//! `if`/`else`, `while`, `print`, and procedure calls with value parameters.
//!
//! The library consumes an already-parsed tree of labeled nodes ([`Node`]),
//! translates it in one syntax-directed walk into a linear sequence of
//! four-address instructions ("quadruples"), and executes those quadruples
//! on a segmented-memory stack virtual machine.
//!
//! The concrete grammar and the parser that produces the tree are external
//! collaborators, as are file handling and the command line; they live
//! outside this crate.

pub mod dusty_context;
pub mod function_info;
pub mod lang;
pub mod quad_data;
pub mod quadruple_unit;
pub mod quadruples;
pub mod resources;
pub mod semantic_cube;
pub mod text;
pub mod var_info;
pub mod virtual_machine;
pub mod virtual_memory;
