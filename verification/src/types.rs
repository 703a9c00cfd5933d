//! Plain data exchanged with callers: positions, ranges, variable facts,
//! decorations, goroutine usage, cursor contexts and the entity graph.

use vstd::prelude::*;

verus! {

/// A zero-based (line, column) pair in a document.
#[derive(Clone, Copy, Debug, PartialEq, Eq, Structural, Hash)]
pub struct Position {
    pub line: u32,
    pub character: u32,
}

/// A span between two positions.
#[derive(Clone, Copy, Debug, PartialEq, Eq, Structural, Hash)]
pub struct Range {
    pub start: Position,
    pub end: Position,
}

/// Strict document order on positions: by line, then by column.
pub open spec fn pos_lt(a: Position, b: Position) -> bool {
    a.line < b.line || (a.line == b.line && a.character < b.character)
}

/// Document order on positions: by line, then by column.
pub open spec fn pos_le(a: Position, b: Position) -> bool {
    a.line < b.line || (a.line == b.line && a.character <= b.character)
}

impl Position {
    /// The position at the given line and column.
    pub fn new(line: u32, character: u32) -> (p: Position)
        ensures
            p == (Position { line, character }),
    {
        Position { line, character }
    }

    /// Whether `self` comes at or before `other` in document order.
    pub fn at_or_before(&self, other: &Position) -> (r: bool)
        ensures
            r == pos_le(*self, *other),
    {
        self.line < other.line || (self.line == other.line && self.character <= other.character)
    }
}

impl Range {
    /// The range between two positions.
    pub fn new(start: Position, end: Position) -> (r: Range)
        ensures
            r == (Range { start, end }),
    {
        Range { start, end }
    }
}

/// Identifies a declaration by the byte span of its binding identifier.
#[derive(Clone, Copy, Debug, PartialEq, Eq, Structural, Hash)]
pub struct VarId {
    pub start_byte: usize,
    pub end_byte: usize,
}

/// A resolved declaration: the range and identity of its binding
/// identifier, and whether it declares a reference.
#[derive(Clone, Copy, Debug, PartialEq, Eq, Structural, Hash)]
pub struct DeclInfo {
    pub range: Range,
    pub var_id: VarId,
    pub is_pointer: bool,
}

/// How alarming an unsynchronized access is.
#[derive(Clone, Copy, Debug, PartialEq, Eq, Structural, Hash)]
pub enum RaceSeverity {
    High,
    Medium,
    Low,
}

/// What a decoration marks in the editor.
#[derive(Clone, Copy, Debug, PartialEq, Eq, Structural, Hash)]
pub enum DecorationType {
    Declaration,
    Use,
    Pointer,
    Race,
    RaceLow,
    AliasReassigned,
    AliasCaptured,
}

/// A highlighted range with its hover text.
#[derive(Clone, Debug)]
pub struct Decoration {
    pub range: Range,
    pub kind: DecorationType,
    pub hover_text: String,
}

/// How many entities of each sort a file holds.
#[derive(Clone, Copy, Debug, PartialEq, Eq, Structural)]
pub struct EntityCount {
    pub variables: usize,
    pub functions: usize,
    pub channels: usize,
    pub goroutines: usize,
}

/// The payload of the indexing-status notification.
#[derive(Clone, Copy, Debug, PartialEq, Eq, Structural)]
pub struct IndexingStatusParams {
    pub variables: usize,
    pub functions: usize,
    pub channels: usize,
    pub goroutines: usize,
}

/// Whether and how a variable may change after its declaration.
#[derive(Clone, Copy, Debug, PartialEq, Eq, Structural, Hash)]
pub enum Mutability {
    Immutable,
    Reassigned,
    AddressTaken,
    Captured,
}

/// The construct a `go` statement launches.
#[derive(Clone, Copy, Debug, PartialEq, Eq, Structural, Hash)]
pub enum GoroutineType {
    AnonymousFunction,
    FunctionCall,
    MethodCall,
    Unknown,
}

/// How an identifier is touched at one place.
#[derive(Clone, Copy, Debug, PartialEq, Eq, Structural, Hash)]
pub enum VariableAccessType {
    Read,
    Write,
    Modify,
    AddressOf,
    Dereference,
}

/// One access to a variable inside a goroutine.
#[derive(Clone, Debug)]
pub struct VariableAccess {
    pub range: Range,
    pub access_type: VariableAccessType,
    pub context: String,
}

/// The accesses to one variable inside one `go` statement.
#[derive(Clone, Debug)]
pub struct GoroutineUsage {
    pub goroutine_range: Range,
    pub variable_accesses: Vec<VariableAccess>,
    pub goroutine_type: GoroutineType,
    pub potential_race_level: RaceSeverity,
}

/// What kind of place the cursor is on.
#[derive(Clone, Copy, Debug, PartialEq, Eq, Structural, Hash)]
pub enum CursorContextType {
    VariableDeclaration,
    ParameterDeclaration,
    VariableUse,
    FieldAccess,
    ObjectAccess,
    StructField,
    FunctionName,
    FunctionDeclaration,
    FunctionCall,
    Assignment,
    GoroutineContext,
    GoroutineStatement,
    TypeReference,
    PackageReference,
    ChannelType,
    InterfaceType,
    StructType,
    Unknown,
}

/// The node under the cursor, classified.
#[derive(Clone, Debug)]
pub struct CursorContext {
    pub target_node_kind: String,
    pub position: Range,
    pub context_type: CursorContextType,
    pub parent_context: Option<CursorContextType>,
    pub details: Option<String>,
}

/// The declaration-centric result of resolving a variable.
#[derive(Clone, Debug)]
pub struct VariableInfo {
    pub name: String,
    pub declaration: Range,
    pub uses: Vec<Range>,
    pub is_pointer: bool,
    pub potential_race: bool,
    pub race_severity: RaceSeverity,
    pub var_id: VarId,
}

/// The sort of entity a graph node stands for.
#[derive(Clone, Copy, Debug, PartialEq, Eq, Structural, Hash)]
pub enum GraphEntityType {
    Variable,
    Function,
    Channel,
    Goroutine,
    SyncBlock,
}

/// The relation a graph edge stands for.
#[derive(Clone, Copy, Debug, PartialEq, Eq, Structural, Hash)]
pub enum GraphEdgeType {
    Use,
    Call,
    Send,
    Receive,
    Spawn,
    Sync,
}

/// Additional facts attached to a graph node.
#[derive(Clone, Copy, Debug, PartialEq, Eq, Structural, Hash)]
pub enum GraphExtra {
    /// The node is a use of a variable, not its declaration.
    Use,
}

/// An entity of the graph: a declaration, a use, a function, a channel
/// or a goroutine.
#[derive(Clone, Debug)]
pub struct GraphNode {
    pub id: String,
    pub label: String,
    pub entity_type: GraphEntityType,
    pub range: Range,
    pub extra: Option<GraphExtra>,
}

/// A relation between two entities, named by their ids.
#[derive(Clone, Debug)]
pub struct GraphEdge {
    pub from: String,
    pub to: String,
    pub edge_type: GraphEdgeType,
}

/// The entity graph of a file.
#[derive(Clone, Debug)]
pub struct GraphData {
    pub nodes: Vec<GraphNode>,
    pub edges: Vec<GraphEdge>,
}

/// How much weight a diagnostic carries.
#[derive(Clone, Copy, Debug, PartialEq, Eq, Structural, Hash)]
pub enum DiagnosticSeverity {
    Info,
    Warning,
}

/// A finding of one of the field and struct detectors.
#[derive(Clone, Debug)]
pub struct Diagnostic {
    pub range: Range,
    pub severity: DiagnosticSeverity,
    /// The analyzer code, a short slug.
    pub code: String,
    pub message: String,
}

/// The sort of type a struct field has, as far as the detectors care.
#[derive(Clone, Copy, Debug, PartialEq, Eq, Structural, Hash)]
pub enum FieldType {
    SliceType,
    StringType,
    MapType,
    OtherType,
}

/// Marker for the progress notification sent to the client.
#[derive(Clone, Copy, Debug)]
pub struct ProgressNotification;

/// Marker for the indexing-status notification sent to the client.
#[derive(Clone, Copy, Debug)]
pub struct IndexingStatusNotification;

} // verus!
