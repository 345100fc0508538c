//! The data of the graph memory.

use crate::timestamp::Timestamp;
use vstd::prelude::*;

verus! {

/// Errors of the memory layer.
#[derive(Debug, Clone, PartialEq, Eq)]
pub enum MemoryError {
    /// The file system failed.
    Io(String),
    /// The database driver failed, or a row or an identifier is malformed.
    Backend(String),
    /// The chat identifier cannot name a directory.
    InvalidChatId(String),
}

impl MemoryError {
    /// Whether this is the backend error with the given detail.
    pub open spec fn is_backend(self, detail: Seq<char>) -> bool {
        self matches MemoryError::Backend(text) && text@ == detail
    }

    /// The message of the error.
    pub open spec fn text(self) -> Seq<char> {
        match self {
            MemoryError::Io(detail) => "io error: "@ + detail@,
            MemoryError::Backend(detail) => "backend error: "@ + detail@,
            MemoryError::InvalidChatId(detail) => "invalid chat_id: "@ + detail@,
        }
    }

    /// The message of the error.
    pub fn message(&self) -> (r: String)
        ensures
            r@ == self.text(),
    {
        match self {
            MemoryError::Io(detail) => "io error: ".to_owned().concat(detail.as_str()),
            MemoryError::Backend(detail) => "backend error: ".to_owned().concat(detail.as_str()),
            MemoryError::InvalidChatId(detail) => "invalid chat_id: ".to_owned().concat(
                detail.as_str(),
            ),
        }
    }
}

/// The outcome of a memory operation.
pub type Result<T> = std::result::Result<T, MemoryError>;

/// The closed set of node types.
#[derive(Debug, Clone, Copy, PartialEq, Eq, Structural)]
pub enum NodeType {
    Person,
    Alias,
    Concept,
    MessageBatch,
}

impl NodeType {
    /// The value of the `type` column.
    pub open spec fn column(self) -> Seq<char> {
        match self {
            NodeType::Person => "Person"@,
            NodeType::Alias => "Alias"@,
            NodeType::Concept => "Concept"@,
            NodeType::MessageBatch => "MessageBatch"@,
        }
    }

    /// The node type of a `type` column value, where it is one of the set.
    pub open spec fn of_column(text: Seq<char>) -> Option<NodeType> {
        if text == "Person"@ {
            Some(NodeType::Person)
        } else if text == "Alias"@ {
            Some(NodeType::Alias)
        } else if text == "Concept"@ {
            Some(NodeType::Concept)
        } else if text == "MessageBatch"@ {
            Some(NodeType::MessageBatch)
        } else {
            None
        }
    }

    /// The value of the `type` column.
    pub fn as_str(self) -> (r: &'static str)
        ensures
            r@ == self.column(),
    {
        match self {
            NodeType::Person => "Person",
            NodeType::Alias => "Alias",
            NodeType::Concept => "Concept",
            NodeType::MessageBatch => "MessageBatch",
        }
    }

    /// Parses the value of the `type` column back; `None` for an unknown text.
    pub fn from_str(s: &str) -> (r: Option<NodeType>)
        ensures
            r == NodeType::of_column(s@),
    {
        let text = s.to_owned();
        if text == "Person".to_owned() {
            Some(NodeType::Person)
        } else if text == "Alias".to_owned() {
            Some(NodeType::Alias)
        } else if text == "Concept".to_owned() {
            Some(NodeType::Concept)
        } else if text == "MessageBatch".to_owned() {
            Some(NodeType::MessageBatch)
        } else {
            None
        }
    }

    /// Parsing the column value of a node type gives the node type back.
    pub proof fn law_column_reads_back(self)
        ensures
            NodeType::of_column(self.column()) == Some(self),
    {
        reveal_strlit("Person");
        reveal_strlit("Alias");
        reveal_strlit("Concept");
        reveal_strlit("MessageBatch");
        assert("Person"@[0] == 'P');
        assert("Alias"@[0] == 'A');
        assert("Concept"@[0] == 'C');
        assert("MessageBatch"@[0] == 'M');
    }
}

/// One target of an alias node: the source of a `known_as` or `also_known_as`
/// edge that points to the alias.
#[derive(Debug, Clone, PartialEq, Eq)]
pub struct AliasTarget {
    pub node_id: String,
    pub node_type: NodeType,
}

/// One node of a batch.
#[derive(Debug, Clone, PartialEq, Eq)]
pub struct MemoryNode {
    /// The deterministic identifier.
    pub id: String,
    pub name: String,
    pub node_type: NodeType,
    pub created_at: Timestamp,
    pub updated_at: Timestamp,
    /// A JSON blob of display fields.
    pub properties: Option<String>,
}

/// One edge of a batch.
#[derive(Debug, Clone, PartialEq, Eq)]
pub struct MemoryEdge {
    pub source_id: String,
    pub target_id: String,
    pub relationship_name: String,
    pub valid_at: Timestamp,
    /// `None` means that the fact is valid now.
    pub invalid_at: Option<Timestamp>,
    pub edge_text: String,
    pub created_at: Timestamp,
    pub updated_at: Timestamp,
    /// A JSON blob of display fields.
    pub properties: Option<String>,
}

/// One batch of nodes and edges under a stable identifier.
#[derive(Debug, Clone, PartialEq, Eq)]
pub struct MemoryBatch {
    pub batch_id: String,
    pub nodes: Vec<MemoryNode>,
    pub edges: Vec<MemoryEdge>,
}

impl Default for MemoryBatch {
    fn default() -> (r: Self)
        ensures
            r.batch_id@ == Seq::<char>::empty(),
            r.nodes@ == Seq::<MemoryNode>::empty(),
            r.edges@ == Seq::<MemoryEdge>::empty(),
    {
        MemoryBatch { batch_id: String::new(), nodes: Vec::new(), edges: Vec::new() }
    }
}

/// At most this many edges per node come back from one neighbor read.
pub const NEIGHBOR_EXPANSION_LIMIT: usize = 500;

/// The recall window: an edge qualifies when it became valid or was created at
/// most this many days ago.
pub const RECALL_TIME_WINDOW_DAYS: u32 = 90;

/// One valid edge of a node, with its endpoints.
#[derive(Debug, Clone, PartialEq, Eq)]
pub struct NeighborEdge {
    pub source_id: String,
    pub target_id: String,
    pub relationship_name: String,
    pub edge_text: String,
    pub valid_at: Timestamp,
    pub created_at: Timestamp,
    /// The endpoint that is not the queried node.
    pub other_node_id: String,
    pub other_node_name: String,
}

/// One recall candidate: an edge with the names of both endpoints.
#[derive(Debug, Clone, PartialEq, Eq)]
pub struct CandidateEdge {
    /// The opaque edge identifier.
    pub edge_id: String,
    pub source_id: String,
    pub source_name: String,
    pub target_id: String,
    pub target_name: String,
    pub relationship_name: String,
    pub edge_text: String,
    pub valid_at: Timestamp,
}

/// The natural key of an edge, which is also its opaque identifier.
#[derive(Debug, Clone, PartialEq, Eq)]
pub struct EdgeId {
    pub source_id: String,
    pub relationship_name: String,
    pub target_id: String,
    pub valid_at: Timestamp,
}

/// One edge of a fact listing.
#[derive(Debug, Clone, PartialEq, Eq)]
pub struct NodeFactEdge {
    /// The opaque edge identifier.
    pub edge_id: String,
    pub relationship_name: String,
    /// The name of the endpoint that is not the queried node.
    pub other_node_name: String,
    /// Whether the queried node is the source of the edge.
    pub outgoing: bool,
    pub edge_text: String,
    pub valid_at: Timestamp,
    /// `None` means that the fact is valid now.
    pub invalid_at: Option<Timestamp>,
}

/// The facts of one node.
#[derive(Debug, Clone, PartialEq, Eq)]
pub struct NodeFacts {
    pub node_id: String,
    pub node_name: String,
    /// Every edge of the node, both directions, valid and invalid.
    pub edges: Vec<NodeFactEdge>,
}

/// The stored display content of one node.
#[derive(Debug, Clone, PartialEq, Eq)]
pub struct NodeContent {
    pub name: String,
    /// The `description` of the properties blob; empty where there is none.
    pub description: String,
}

/// The kind of a node and, for an alias, the node it is bound to.
#[derive(Debug, Clone, PartialEq, Eq)]
pub struct NodeResolutionInfo {
    pub kind: NodeType,
    /// `Some` only for alias nodes.
    pub alias_target: Option<String>,
}

/// The outcome of one merge.
#[derive(Debug, Clone, PartialEq, Eq)]
pub struct MergeOutcome {
    /// The rollback snapshot, taken before any mutation.
    pub snapshot_json: String,
    /// Edges re-pointed from the loser to the survivor.
    pub edges_moved: u32,
    /// Edges dropped because they would become self-loops on the survivor.
    pub self_loops_dropped: u32,
    /// Edges dropped because the survivor already carries an equivalent one.
    pub edges_deduped: u32,
    /// Edges that the single-value pass invalidated.
    pub single_value_invalidated: u32,
}

/// The outcome of one batch write.
#[derive(Debug, Clone, Copy, PartialEq, Eq)]
pub struct UpsertOutcome {
    /// The number of edges that the single-value write path invalidated.
    pub invalidated: u32,
}

impl Default for UpsertOutcome {
    fn default() -> (r: Self)
        ensures
            r.invalidated == 0,
    {
        UpsertOutcome { invalidated: 0 }
    }
}

/// The rollback snapshot of one merge.
#[derive(Debug, Clone, PartialEq, Eq)]
pub struct MergeSnapshot {
    /// The layout version of the snapshot.
    pub version: u32,
    pub survivor_id: String,
    /// The loser node as it was stored before the merge.
    pub node: MergeSnapshotNode,
    /// Every edge of the loser, both directions.
    pub edges: Vec<MergeSnapshotEdge>,
    /// The natural keys of the edges that the merge created on the survivor.
    pub created_edges: Vec<MergeSnapshotEdgeKey>,
}

/// One stored node.
#[derive(Debug, Clone, PartialEq, Eq)]
pub struct MergeSnapshotNode {
    pub id: String,
    /// The `type` column value.
    pub kind: String,
    pub name: String,
    pub created_at: Timestamp,
    pub updated_at: Timestamp,
    pub properties: Option<String>,
}

/// One stored edge.
#[derive(Debug, Clone, PartialEq, Eq)]
pub struct MergeSnapshotEdge {
    pub source_id: String,
    pub target_id: String,
    pub relationship_name: String,
    pub valid_at: Timestamp,
    pub invalid_at: Option<Timestamp>,
    pub edge_text: String,
    pub created_at: Timestamp,
    pub updated_at: Timestamp,
    pub properties: Option<String>,
}

/// The natural key of one edge that a merge created.
#[derive(Debug, Clone, PartialEq, Eq)]
pub struct MergeSnapshotEdgeKey {
    pub source_id: String,
    pub relationship_name: String,
    pub target_id: String,
    pub valid_at: Timestamp,
}

/// What the choice of a merge survivor looks at.
#[derive(Debug, Clone, Copy, PartialEq, Eq)]
pub struct NodeMergeStats {
    /// The number of edges touching the node, both directions.
    pub edge_degree: u64,
    pub created_at: Timestamp,
}

} // verus!
