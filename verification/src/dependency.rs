//! Dependency and export model: the declarative description of graph edges
//! and of the names a dependency exposes, used to build re-export chains
//! and to drive usage analysis.
//!
//! Modules and exports are handles into the module graph's typed arenas
//! (see `usage`): a module identifier is an index into the module table, an
//! export handle an index into the export-record arena.

use vstd::prelude::*;

verus! {

/// Stable identifier of one dependency edge. Identifiers are handed out by
/// the caller and must be unique and stable across an incremental rebuild.
#[derive(Clone, Copy, Debug, PartialEq, Eq, Structural)]
pub struct DependencyId(pub u32);

/// Module-system flavor of a dependency edge.
#[derive(Clone, Copy, Debug, PartialEq, Eq, Structural)]
pub enum DependencyCategory {
    Esm,
    CommonJs,
    Url,
    Worker,
    Unknown,
}

/// Concrete kind of a dependency edge.
#[derive(Clone, Copy, Debug, PartialEq, Eq, Structural)]
pub enum DependencyType {
    EsmExportSpecifier,
    ImportContext,
    NewUrl,
    NewWorker,
    Unknown,
}

/// A character range in a module's source, attached to a dependency.
#[derive(Clone, Copy, Debug, PartialEq, Eq, Structural)]
pub struct DependencyLocation {
    pub start: u32,
    pub end: u32,
}

impl DependencyLocation {
    pub fn new(start: u32, end: u32) -> (r: DependencyLocation)
        ensures
            r.start == start,
            r.end == end,
    {
        DependencyLocation { start, end }
    }

    pub fn start(&self) -> (r: u32)
        ensures
            r == self.start,
    {
        self.start
    }

    pub fn end(&self) -> (r: u32)
        ensures
            r == self.end,
    {
        self.end
    }
}

/// A source span attached to a dependency for diagnostics.
#[derive(Clone, Copy, Debug, PartialEq, Eq, Structural)]
pub struct ErrorSpan {
    pub start: u32,
    pub end: u32,
}

/// Activation state of a module-graph connection under a runtime.
#[derive(Clone, Copy, Debug, PartialEq, Eq, Structural)]
pub enum ConnectionState {
    Bool(bool),
}

/// Activation condition of a connection, evaluated lazily by the usage
/// analyzer. A condition may depend on another export's not-yet-resolved
/// usage, so the analyzer treats it as a fixed-point input: `DependsOnExport`
/// holds the handle of the export whose liveness activates the edge.
#[derive(Clone, Copy, Debug, PartialEq, Eq, Structural)]
pub enum DependencyCondition {
    False,
    Active,
    DependsOnExport { export: usize },
}

/// One edge of the module graph: the importing module, the imported module,
/// and the condition under which the edge is active.
#[derive(Clone, Copy, Debug, PartialEq, Eq, Structural)]
pub struct ModuleGraphConnection {
    pub from: usize,
    pub to: usize,
    pub condition: DependencyCondition,
}

/// A value that distinguishes "absent" from "explicitly null".
#[derive(Debug)]
pub enum Nullable<T> {
    Null,
    Value(T),
}

/// Declarative shape of one export: its name, nested sub-exports, conflict
/// priority, mangle-ability, whether this is the final (terminal) binding,
/// and the connection the export was derived from for re-export chains.
#[derive(Debug)]
pub struct ExportSpec {
    pub name: String,
    pub export: Option<Nullable<Vec<String>>>,
    pub exports: Option<Vec<ExportNameOrSpec>>,
    pub can_mangle: Option<bool>,
    pub terminal_binding: Option<bool>,
    pub priority: Option<u8>,
    pub hidden: Option<bool>,
    pub from: Option<ModuleGraphConnection>,
    pub from_export: Option<ModuleGraphConnection>,
}

impl ExportSpec {
    /// A spec exposing `name` with every optional detail left open.
    pub fn new(name: String) -> (r: ExportSpec)
        ensures
            r.name@ == name@,
            r.export is None,
            r.exports is None,
            r.can_mangle is None,
            r.terminal_binding is None,
            r.priority is None,
            r.hidden is None,
            r.from is None,
            r.from_export is None,
    {
        ExportSpec {
            name,
            export: None,
            exports: None,
            can_mangle: None,
            terminal_binding: None,
            priority: None,
            hidden: None,
            from: None,
            from_export: None,
        }
    }
}

/// An exported name, either bare or with a full spec.
#[derive(Debug)]
pub enum ExportNameOrSpec {
    Name(String),
    ExportSpec(ExportSpec),
}

impl Default for ExportNameOrSpec {
    /// The default export entry is an empty bare name.
    fn default() -> (r: ExportNameOrSpec)
        ensures
            r matches ExportNameOrSpec::Name(s) && s@ == Seq::<char>::empty(),
    {
        ExportNameOrSpec::Name(String::new())
    }
}

/// What a dependency declares about the set of names it makes available:
/// everything (`True`), nothing known (`Null`), or a concrete list.
#[derive(Debug)]
pub enum ExportsOfExportsSpec {
    True,
    Null,
    Array(Vec<ExportNameOrSpec>),
}

impl Default for ExportsOfExportsSpec {
    fn default() -> (r: ExportsOfExportsSpec)
        ensures
            r is Null,
    {
        ExportsOfExportsSpec::Null
    }
}

/// Full export declaration of a dependency: the exported names plus
/// defaults for priority, mangling and terminal binding, the connection the
/// names come from, and names to hide or exclude in re-export chains.
#[derive(Debug)]
pub struct ExportsSpec {
    pub exports: ExportsOfExportsSpec,
    pub priority: Option<u8>,
    pub can_mangle: Option<bool>,
    pub terminal_binding: Option<bool>,
    pub from: Option<ModuleGraphConnection>,
    pub dependencies: Option<Vec<usize>>,
    pub hide_export: Option<Vec<String>>,
    pub exclude_exports: Option<Vec<String>>,
}

/// A referenced export: the path of names a reference needs.
#[derive(Debug)]
pub struct ReferencedExport {
    pub name: Vec<String>,
    pub can_mangle: bool,
}

/// Which exports a dependency references: none, the whole exports object,
/// a list of name paths, or full referenced-export records.
#[derive(Debug)]
pub enum ExportsReferencedType {
    No,
    Object,
    Names(Vec<Vec<String>>),
    Value(Vec<ReferencedExport>),
}

impl ExportsReferencedType {
    /// A reference to the single name `value`.
    pub fn from_name(value: String) -> (r: ExportsReferencedType)
        ensures
            r matches ExportsReferencedType::Names(ns) && ns@.len() == 1 && ns@[0]@.len() == 1
                && ns@[0]@[0]@ == value@,
    {
        let mut path: Vec<String> = Vec::new();
        path.push(value);
        let mut names: Vec<Vec<String>> = Vec::new();
        names.push(path);
        ExportsReferencedType::Names(names)
    }

    /// A reference to the single name path `value`.
    pub fn from_name_path(value: Vec<String>) -> (r: ExportsReferencedType)
        ensures
            r matches ExportsReferencedType::Names(ns) && ns@.len() == 1 && ns@[0] == value,
    {
        let mut names: Vec<Vec<String>> = Vec::new();
        names.push(value);
        ExportsReferencedType::Names(names)
    }

    /// A reference to a list of name paths.
    pub fn from_name_paths(value: Vec<Vec<String>>) -> (r: ExportsReferencedType)
        ensures
            r matches ExportsReferencedType::Names(ns) && ns == value,
    {
        ExportsReferencedType::Names(value)
    }

    /// A reference built from full referenced-export records.
    pub fn from_referenced_exports(value: Vec<ReferencedExport>) -> (r: ExportsReferencedType)
        ensures
            r matches ExportsReferencedType::Value(v) && v == value,
    {
        ExportsReferencedType::Value(value)
    }
}

} // verus!
