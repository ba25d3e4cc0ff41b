//! Interactive table engine: table model, column widths, numeric-aware
//! sorting, aggregation, the key-driven input state machine and the stack
//! of viewers.

pub mod table;
pub mod sort;
pub mod width;
pub mod aggregate;
pub mod selection;
pub mod tui_app;
pub mod data_loader;
pub mod view_stack;
pub mod laws;
