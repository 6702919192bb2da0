//! Terminal input and output helpers: prompts that read scalars from input
//! lines, numbered and keyed menus, and box layouts for frames, windows and
//! centred dialogs. Each decision is a function from plain values to plain
//! values; printing and reading are left to the caller.

pub mod frame;
pub mod menu;
pub mod prompt;
pub mod text;
