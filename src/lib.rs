//! Pools of native entry points that each dispatch to their own installed callable.
//!
//! The executable code lives in a page pair owned by the host program; this crate
//! decides the layout of the code page, keeps the protection state of the pair,
//! and proves that every entry point reaches the dispatcher with the address of
//! its own data cell.
pub mod jit;
pub mod layout;
pub mod machine;
pub mod trampoline;

