//! Core of a JavaScript/TypeScript module bundler compilation pipeline:
//! a dependency/export data model, a fixed-point usage ("tree-shaking")
//! analyzer, a byte-range template patcher with runtime-requirement
//! accumulation, and an asset-versioning layer that decides which
//! generated outputs need to be written.
//!
//! Source parsing, on-disk resolution, the plugin-hook mechanism and
//! filesystem I/O are external collaborators: the library works on plain
//! data handed in by them and returns plans for them to perform.

pub mod codegen;
pub mod compiler;
pub mod dependency;
pub mod emit;
pub mod eval;
pub mod json;
pub mod runtime;
pub mod template;
pub mod usage;
pub mod worker;

use vstd::prelude::*;

verus! {

/// Error taxonomy of the compilation core.
///
/// `OverlappingPatches`, `MultiRuntimeAttachment`, `RuntimeModuleNotAttached`,
/// `MissingDependencyMapping` and `PatchOutOfRange` are internal-invariant
/// violations: they indicate a programming defect and abort immediately.
/// `MissingRuntimeId` is a fatal pipeline error that aborts the remainder
/// of the current build; a failing hook aborts through the phase machine
/// instead and carries no error value.
#[derive(Clone, Copy, Debug, PartialEq, Eq, Structural)]
pub enum BuildError {
    OverlappingPatches,
    PatchOutOfRange,
    MultiRuntimeAttachment,
    RuntimeModuleNotAttached,
    MissingDependencyMapping,
    MissingRuntimeId,
}

} // verus!
