//! Dual-target build, linking, and bytecode-mapping core.
//!
//! Contracts are compiled against two independent back ends (a primary
//! target and an alternate target with its own size and format rules).
//! This library ingests the two build outputs into a queryable artifact
//! and source store, resolves library placeholders in bytecode, tracks
//! still-missing library dependencies across build rounds, pairs the two
//! compiled forms of a contract by bytecode hash, validates deployed
//! bytecode sizes against per-target limits, and holds the runtime-facing
//! execution-mode and breakpoint state.

pub mod assoc;
pub mod build_output;
pub mod bytecode;
pub mod compiler;
pub mod context;
pub mod errors;
pub mod gate;
pub mod linker;
pub mod missing;
pub mod registry;
pub mod remappings;
pub mod size;
pub mod store;
pub mod text;
pub mod toolchain;
