//! A compiler from step-based circuit descriptions to a column/row layout
//! for a PLONKish proving backend, with witness replay onto that layout.
pub mod ast;
pub mod backend;
pub mod cell_manager;
pub mod compiler;
pub mod dsl;
pub mod error;
pub mod ir;
pub mod step_selector;
pub mod util;
pub mod wit_gen;
