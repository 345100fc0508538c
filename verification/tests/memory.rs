//! The graph memory, run on a graph in memory.
//!
//! `Backend` runs what the library plans. `Graph` answers each statement of the
//! library from its nodes and edges.

use std::cell::RefCell;
use std::collections::HashMap;

use tamako::memory::batch::{total_invalidated, write_batch};
use tamako::memory::cypher::{self, GraphWrite};
use tamako::memory::facts::{next_facts, start_facts, FactsNext};
use tamako::memory::groups::validate_chat_id;
use tamako::memory::identifiers;
use tamako::memory::manual::{
    next_link, next_toggle, start_link, start_toggle, LinkNext, Toggle,
};
use tamako::memory::merge::{
    malformed_snapshot, next_merge, next_rollback, plan_rollback, start_merge, start_rollback,
    MergeNext, RollbackNext,
};
use tamako::memory::recall::{hydrate, hydration_keys, TwoHop};
use tamako::memory::rows::{
    read_alias_targets, read_all_edges, read_are_linked, read_invalidated, read_neighbors,
    read_node_content, read_node_contents, read_node_merge_stats, read_node_resolution_infos,
};
use tamako::memory::types::{
    AliasTarget, CandidateEdge, EdgeId, MemoryBatch, MemoryEdge, MemoryError, MemoryNode,
    MergeOutcome, MergeSnapshot, MergeSnapshotEdgeKey, NeighborEdge, NodeContent, NodeFactEdge, NodeFacts,
    NodeMergeStats, NodeResolutionInfo, NodeType, Result, UpsertOutcome,
    NEIGHBOR_EXPANSION_LIMIT,
};
use tamako::memory::value::{row_to_strings, GraphParam, GraphValue, LogicalType, Query};
use tamako::timestamp::Timestamp;

fn day(text: &str) -> Timestamp {
    Timestamp::parse_rfc3339(text).expect("a valid timestamp")
}

fn plus(at: Timestamp, seconds: i64) -> Timestamp {
    Timestamp::new(
        at.get_unix_nanos() + i128::from(seconds) * 1_000_000_000,
        at.get_offset_seconds(),
    )
    .expect("a valid timestamp")
}

fn now_utc() -> Timestamp {
    Timestamp::new(time::OffsetDateTime::now_utc().unix_timestamp_nanos(), 0).expect("now")
}

#[derive(Clone)]
struct StoredNode {
    id: String,
    name: String,
    kind: String,
    created_at: Timestamp,
    updated_at: Timestamp,
    properties: Option<String>,
}

#[derive(Clone)]
struct StoredEdge {
    source: String,
    target: String,
    rel: String,
    valid_at: Timestamp,
    invalid_at: Option<Timestamp>,
    edge_text: String,
    created_at: Timestamp,
    updated_at: Timestamp,
    properties: Option<String>,
}

fn text(value: &str) -> GraphValue {
    GraphValue::String(value.to_string())
}

fn moment(value: Timestamp) -> GraphValue {
    GraphValue::Timestamp(value)
}

fn maybe_text(value: &Option<String>) -> GraphValue {
    match value {
        Some(value) => text(value),
        None => GraphValue::Null(LogicalType::String),
    }
}

fn maybe_moment(value: Option<Timestamp>) -> GraphValue {
    match value {
        Some(value) => moment(value),
        None => GraphValue::Null(LogicalType::Timestamp),
    }
}

fn param<'a>(query: &'a Query, name: &str) -> &'a GraphParam {
    &query.params.iter().find(|(key, _)| *key == name).expect("a parameter").1
}

fn text_of(query: &Query, name: &str) -> String {
    match param(query, name) {
        GraphParam::One(GraphValue::String(value)) => value.clone(),
        other => panic!("{name} is no text: {other:?}"),
    }
}

fn moment_of(query: &Query, name: &str) -> Timestamp {
    match param(query, name) {
        GraphParam::One(GraphValue::Timestamp(value)) => *value,
        other => panic!("{name} is no timestamp: {other:?}"),
    }
}

fn maybe_text_of(query: &Query, name: &str) -> Option<String> {
    match param(query, name) {
        GraphParam::One(GraphValue::String(value)) => Some(value.clone()),
        GraphParam::One(GraphValue::Null(LogicalType::String)) => None,
        other => panic!("{name} is no optional text: {other:?}"),
    }
}

fn maybe_moment_of(query: &Query, name: &str) -> Option<Timestamp> {
    match param(query, name) {
        GraphParam::One(GraphValue::Timestamp(value)) => Some(*value),
        GraphParam::One(GraphValue::Null(LogicalType::Timestamp)) => None,
        other => panic!("{name} is no optional timestamp: {other:?}"),
    }
}

fn list_of(query: &Query, name: &str) -> Vec<String> {
    match param(query, name) {
        GraphParam::List(values) => values.clone(),
        other => panic!("{name} is no list: {other:?}"),
    }
}

fn is_alias_edge(edge: &StoredEdge) -> bool {
    edge.rel == "known_as" || edge.rel == "also_known_as"
}

type Rows = Vec<Vec<GraphValue>>;

#[derive(Clone, Default)]
struct Graph {
    nodes: Vec<StoredNode>,
    edges: Vec<StoredEdge>,
}

impl Graph {
    fn node(&self, id: &str) -> Option<&StoredNode> {
        self.nodes.iter().find(|node| node.id == id)
    }

    fn name(&self, id: &str) -> String {
        self.node(id).expect("an endpoint").name.clone()
    }

    fn joins(&self, source: &str, target: &str) -> bool {
        self.node(source).is_some() && self.node(target).is_some()
    }

    fn keyed(&mut self, query: &Query) -> Vec<&mut StoredEdge> {
        let (source, target) = (text_of(query, "source_id"), text_of(query, "target_id"));
        let (rel, valid_at) = (text_of(query, "rel"), moment_of(query, "valid_at"));
        self.edges
            .iter_mut()
            .filter(|edge| {
                edge.source == source
                    && edge.target == target
                    && edge.rel == rel
                    && edge.valid_at.same_instant(&valid_at)
            })
            .collect()
    }

    fn written_edge(&self, query: &Query) -> StoredEdge {
        StoredEdge {
            source: text_of(query, "source_id"),
            target: text_of(query, "target_id"),
            rel: text_of(query, "rel"),
            valid_at: moment_of(query, "valid_at"),
            invalid_at: maybe_moment_of(query, "invalid_at"),
            edge_text: text_of(query, "edge_text"),
            created_at: moment_of(query, "created_at"),
            updated_at: moment_of(query, "updated_at"),
            properties: maybe_text_of(query, "properties"),
        }
    }

    fn touching(&self, id: &str) -> Vec<StoredEdge> {
        let touches = |edge: &&StoredEdge| edge.source == id || edge.target == id;
        self.edges.iter().filter(touches).cloned().collect()
    }

    fn limited(&self, mut edges: Vec<StoredEdge>, cypher: &str, prefix: &str) -> Vec<StoredEdge> {
        edges.sort_by_key(|edge| std::cmp::Reverse(edge.created_at.get_unix_nanos()));
        edges.truncate(cypher[prefix.len()..].parse().expect("a limit"));
        edges
    }

    fn run(&mut self, query: &Query) -> Rows {
        let cypher = query.cypher.as_str();
        if cypher == cypher::MERGE_BATCH {
            let (id, now) = (text_of(query, "id"), moment_of(query, "now"));
            match self.nodes.iter_mut().find(|node| node.id == id) {
                Some(node) => node.updated_at = now,
                None => self.nodes.push(StoredNode {
                    name: id.clone(),
                    id,
                    kind: "MessageBatch".to_string(),
                    created_at: now,
                    updated_at: now,
                    properties: None,
                }),
            }
            return Vec::new();
        }
        if cypher == cypher::MERGE_NODE || cypher == cypher::CREATE_NODE {
            let written = StoredNode {
                id: text_of(query, "id"),
                name: text_of(query, "name"),
                kind: text_of(query, "type"),
                created_at: moment_of(query, "created_at"),
                updated_at: moment_of(query, "updated_at"),
                properties: maybe_text_of(query, "properties"),
            };
            match self.nodes.iter_mut().find(|node| node.id == written.id) {
                Some(node) => {
                    assert_eq!(cypher, cypher::MERGE_NODE, "a node is created once");
                    node.name = written.name;
                    node.updated_at = written.updated_at;
                    if written.properties.is_some() {
                        node.properties = written.properties;
                    }
                }
                None => self.nodes.push(written),
            }
            return Vec::new();
        }
        if cypher == cypher::MERGE_EDGE {
            let written = self.written_edge(query);
            if !self.joins(&written.source, &written.target) {
                return Vec::new();
            }
            let mut found = self.keyed(query);
            if found.is_empty() {
                self.edges.push(written);
                return Vec::new();
            }
            for edge in found.iter_mut() {
                edge.edge_text = written.edge_text.clone();
                edge.invalid_at = written.invalid_at;
                edge.updated_at = written.updated_at;
                if written.properties.is_some() {
                    edge.properties = written.properties.clone();
                }
            }
            return Vec::new();
        }
        if cypher == cypher::CREATE_EDGE {
            let written = self.written_edge(query);
            if self.joins(&written.source, &written.target) {
                self.edges.push(written);
            }
            return Vec::new();
        }
        if cypher == cypher::DELETE_EDGE {
            let (source, target) = (text_of(query, "source_id"), text_of(query, "target_id"));
            let (rel, valid_at) = (text_of(query, "rel"), moment_of(query, "valid_at"));
            self.edges.retain(|edge| {
                !(edge.source == source
                    && edge.target == target
                    && edge.rel == rel
                    && edge.valid_at.same_instant(&valid_at))
            });
            return Vec::new();
        }
        if cypher == cypher::DETACH_DELETE_NODE {
            let id = text_of(query, "node_id");
            self.nodes.retain(|node| node.id != id);
            self.edges.retain(|edge| edge.source != id && edge.target != id);
            return Vec::new();
        }
        if cypher == cypher::LINK_ALSO_KNOWN_AS {
            let (a, b) = (text_of(query, "a_id"), text_of(query, "b_id"));
            let now = moment_of(query, "now");
            let linked = self
                .edges
                .iter()
                .any(|edge| edge.source == a && edge.target == b && edge.rel == "also_known_as");
            if self.joins(&a, &b) && !linked {
                self.edges.push(StoredEdge {
                    source: a,
                    target: b,
                    rel: "also_known_as".to_string(),
                    valid_at: now,
                    invalid_at: None,
                    edge_text: text_of(query, "edge_text"),
                    created_at: now,
                    updated_at: now,
                    properties: None,
                });
            }
            return Vec::new();
        }
        if cypher == cypher::INVALIDATE_SIBLINGS {
            let (subject, rel) = (text_of(query, "subject_id"), text_of(query, "rel"));
            let (target, valid_at) = (text_of(query, "target_id"), moment_of(query, "valid_at"));
            let now = moment_of(query, "now");
            let mut count = 0;
            for edge in self.edges.iter_mut() {
                let spared = edge.target == target && edge.valid_at.same_instant(&valid_at);
                if edge.source == subject
                    && edge.rel == rel
                    && edge.invalid_at.is_none()
                    && !spared
                {
                    edge.invalid_at = Some(now);
                    edge.updated_at = now;
                    count += 1;
                }
            }
            return vec![vec![GraphValue::Int64(count)]];
        }
        if cypher == cypher::SET_EDGE_INVALID_AT {
            let invalid_at = maybe_moment_of(query, "invalid_at");
            let updated_at = moment_of(query, "updated_at");
            for edge in self.keyed(query) {
                edge.invalid_at = invalid_at;
                edge.updated_at = updated_at;
            }
            return Vec::new();
        }
        if cypher == cypher::FIND_EDGE_BY_KEY {
            return self
                .keyed(query)
                .into_iter()
                .map(|edge| vec![maybe_moment(edge.invalid_at)])
                .collect();
        }
        if cypher == cypher::EDGE_BY_KEY_HYDRATE {
            let found: Vec<StoredEdge> =
                self.keyed(query).into_iter().map(|edge| edge.clone()).collect();
            return found
                .iter()
                .filter(|edge| edge.invalid_at.is_none())
                .map(|edge| {
                    vec![
                        text(&self.name(&edge.source)),
                        text(&self.name(&edge.target)),
                        text(&edge.edge_text),
                    ]
                })
                .collect();
        }
        self.read(query)
    }

    fn read(&self, query: &Query) -> Rows {
        let cypher = query.cypher.as_str();
        if cypher == cypher::ALIAS_TARGETS {
            let alias = text_of(query, "alias_id");
            return self
                .edges
                .iter()
                .filter(|edge| edge.target == alias && is_alias_edge(edge))
                .map(|edge| {
                    vec![
                        text(&edge.source),
                        text(&self.node(&edge.source).expect("a source").kind),
                    ]
                })
                .collect();
        }
        if cypher == cypher::NODE_CONTENT {
            return self
                .node(&text_of(query, "node_id"))
                .into_iter()
                .map(|node| vec![text(&node.name), maybe_text(&node.properties)])
                .collect();
        }
        if cypher == cypher::LIST_NODE_CONTENTS {
            return self
                .nodes
                .iter()
                .map(|node| vec![text(&node.id), text(&node.name), maybe_text(&node.properties)])
                .collect();
        }
        if cypher == cypher::NODE_RESOLUTION_INFOS {
            let ids = list_of(query, "node_ids");
            let mut nodes: Vec<&StoredNode> =
                self.nodes.iter().filter(|node| ids.contains(&node.id)).collect();
            nodes.sort_by(|a, b| a.id.cmp(&b.id));
            let mut rows = Vec::new();
            for node in nodes {
                let mut sources: Vec<String> = self
                    .edges
                    .iter()
                    .filter(|edge| edge.target == node.id && is_alias_edge(edge))
                    .map(|edge| edge.source.clone())
                    .collect();
                sources.sort();
                if sources.is_empty() {
                    rows.push(vec![text(&node.id), text(&node.kind), maybe_text(&None)]);
                }
                for source in sources {
                    rows.push(vec![text(&node.id), text(&node.kind), text(&source)]);
                }
            }
            return rows;
        }
        if cypher == cypher::ARE_LINKED {
            let (a, b) = (text_of(query, "a_id"), text_of(query, "b_id"));
            let count = self
                .edges
                .iter()
                .filter(|edge| {
                    is_alias_edge(edge)
                        && ((edge.source == a && edge.target == b)
                            || (edge.source == b && edge.target == a))
                })
                .count();
            return vec![vec![GraphValue::Int64(count as i64)]];
        }
        if cypher == cypher::NODE_MERGE_STATS {
            let ids = list_of(query, "node_ids");
            let mut nodes: Vec<&StoredNode> =
                self.nodes.iter().filter(|node| ids.contains(&node.id)).collect();
            nodes.sort_by(|a, b| a.id.cmp(&b.id));
            return nodes
                .into_iter()
                .map(|node| {
                    vec![
                        text(&node.id),
                        moment(node.created_at),
                        GraphValue::Int64(self.touching(&node.id).len() as i64),
                    ]
                })
                .collect();
        }
        if cypher == cypher::SNAPSHOT_NODE {
            return self
                .node(&text_of(query, "node_id"))
                .into_iter()
                .map(|node| {
                    vec![
                        text(&node.name),
                        text(&node.kind),
                        moment(node.created_at),
                        moment(node.updated_at),
                        maybe_text(&node.properties),
                    ]
                })
                .collect();
        }
        if cypher == cypher::SNAPSHOT_EDGES {
            let mut edges = self.touching(&text_of(query, "node_id"));
            edges.sort_by_key(|edge| {
                (
                    edge.created_at.get_unix_nanos(),
                    edge.source.clone(),
                    edge.target.clone(),
                    edge.rel.clone(),
                )
            });
            return edges
                .iter()
                .map(|edge| {
                    vec![
                        text(&edge.source),
                        text(&edge.target),
                        text(&edge.rel),
                        moment(edge.valid_at),
                        maybe_moment(edge.invalid_at),
                        text(&edge.edge_text),
                        moment(edge.created_at),
                        moment(edge.updated_at),
                        maybe_text(&edge.properties),
                    ]
                })
                .collect();
        }
        if cypher == cypher::NODE_FACTS_EDGES {
            let mut edges = self.touching(&text_of(query, "node_id"));
            edges.sort_by_key(|edge| {
                (
                    std::cmp::Reverse(edge.valid_at.get_unix_nanos()),
                    edge.rel.clone(),
                    edge.target.clone(),
                )
            });
            return edges
                .iter()
                .map(|edge| {
                    vec![
                        text(&edge.source),
                        text(&self.name(&edge.source)),
                        text(&edge.target),
                        text(&self.name(&edge.target)),
                        text(&edge.rel),
                        text(&edge.edge_text),
                        moment(edge.valid_at),
                        maybe_moment(edge.invalid_at),
                    ]
                })
                .collect();
        }
        if cypher == cypher::LIST_ALL_EDGES {
            return self
                .edges
                .iter()
                .map(|edge| {
                    vec![
                        text(&edge.source),
                        text(&edge.rel),
                        text(&edge.target),
                        moment(edge.valid_at),
                        text(&edge.edge_text),
                    ]
                })
                .collect();
        }
        if cypher == cypher::VALID_OUTGOING_EDGES {
            let (subject, rel) = (text_of(query, "subject_id"), text_of(query, "rel"));
            return self
                .edges
                .iter()
                .filter(|edge| {
                    edge.source == subject && edge.rel == rel && edge.invalid_at.is_none()
                })
                .map(|edge| vec![text(&edge.target), moment(edge.valid_at)])
                .collect();
        }
        if cypher.starts_with(cypher::NEIGHBORS) {
            let mut edges = self.touching(&text_of(query, "node_id"));
            edges.retain(|edge| edge.invalid_at.is_none() && edge.rel != "contains");
            return self
                .limited(edges, cypher, cypher::NEIGHBORS)
                .iter()
                .map(|edge| {
                    vec![
                        text(&edge.source),
                        text(&self.name(&edge.source)),
                        text(&edge.target),
                        text(&self.name(&edge.target)),
                        text(&edge.rel),
                        text(&edge.edge_text),
                        moment(edge.valid_at),
                        moment(edge.created_at),
                    ]
                })
                .collect();
        }
        if cypher.starts_with(cypher::TWO_HOP_EDGES) {
            let cutoff = moment_of(query, "cutoff");
            let mut edges = self.touching(&text_of(query, "node_id"));
            edges.retain(|edge| {
                edge.invalid_at.is_none()
                    && edge.rel != "contains"
                    && edge.rel != "known_as"
                    && (!cutoff.later_than(&edge.valid_at) || !cutoff.later_than(&edge.created_at))
            });
            return self
                .limited(edges, cypher, cypher::TWO_HOP_EDGES)
                .iter()
                .map(|edge| {
                    vec![
                        text(&edge.source),
                        text(&self.name(&edge.source)),
                        text(&edge.target),
                        text(&self.name(&edge.target)),
                        text(&edge.rel),
                        text(&edge.edge_text),
                        moment(edge.valid_at),
                    ]
                })
                .collect();
        }
        panic!("an unknown statement: {cypher}")
    }

    /// The columns of an edge by their names in an ad hoc query.
    fn edge_column(edge: &StoredEdge, column: &str) -> GraphValue {
        match column {
            "s.id" => text(&edge.source),
            "t.id" => text(&edge.target),
            "r.relationship_name" => text(&edge.rel),
            "r.valid_at" => moment(edge.valid_at),
            "r.invalid_at" => maybe_moment(edge.invalid_at),
            "r.edge_text" => text(&edge.edge_text),
            "r.created_at" => moment(edge.created_at),
            "r.updated_at" => moment(edge.updated_at),
            "r.properties" => maybe_text(&edge.properties),
            other => panic!("an unknown column: {other}"),
        }
    }

    fn node_column(node: &StoredNode, column: &str) -> GraphValue {
        match column {
            "n.id" => text(&node.id),
            "n.name" => text(&node.name),
            "n.type" => text(&node.kind),
            "n.created_at" => moment(node.created_at),
            "n.updated_at" => moment(node.updated_at),
            "n.properties" => maybe_text(&node.properties),
            other => panic!("an unknown column: {other}"),
        }
    }

    fn holds(edge: &StoredEdge, condition: &str) -> bool {
        if let Some(name) = condition.strip_prefix("r.relationship_name = ") {
            return edge.rel == name.trim_matches('\'');
        }
        if let Some(names) = condition.strip_prefix("r.relationship_name IN ") {
            return names.contains(&format!("'{}'", edge.rel));
        }
        match condition {
            "r.invalid_at IS NULL" => edge.invalid_at.is_none(),
            "r.invalid_at IS NOT NULL" => edge.invalid_at.is_some(),
            "s.id = t.id" => edge.source == edge.target,
            other => panic!("an unknown condition: {other}"),
        }
    }

    /// Answers an ad hoc query of the tests.
    fn ad_hoc(&self, cypher: &str) -> Rows {
        let (front, back) = cypher.split_once(" RETURN ").expect("a query returns");
        let (pattern, condition) = front.split_once(" WHERE ").unwrap_or((front, ""));
        let (columns, order) = back.split_once(" ORDER BY ").unwrap_or((back, ""));
        let columns: Vec<&str> = columns.split(", ").collect();
        let conditions: Vec<&str> =
            condition.split(" AND ").filter(|part| !part.is_empty()).collect();
        let mut rows: Vec<(Vec<String>, Vec<GraphValue>)> = Vec::new();
        let by: Vec<&str> = order.split(", ").filter(|part| !part.is_empty()).collect();
        if pattern == "MATCH (n:Node)" {
            for node in &self.nodes {
                let kept = conditions.iter().all(|condition| {
                    match condition.strip_prefix("n.type = ") {
                        Some(kind) => node.kind == kind.trim_matches('\''),
                        None => match condition.strip_prefix("n.type <> ") {
                            Some(kind) => node.kind != kind.trim_matches('\''),
                            None => panic!("an unknown condition: {condition}"),
                        },
                    }
                });
                if kept {
                    let key = by.iter().map(|column| Graph::node_column(node, column)).collect();
                    let values = columns
                        .iter()
                        .filter(|column| !column.starts_with("count("))
                        .map(|column| Graph::node_column(node, column))
                        .collect();
                    rows.push((row_to_strings(&key), values));
                }
            }
        } else {
            let subject = pattern
                .strip_prefix("MATCH (s:Node {id: '")
                .map(|rest| rest.split('\'').next().expect("an identifier").to_string());
            for edge in &self.edges {
                let of_subject =
                    subject.as_ref().map(|subject| edge.source == *subject).unwrap_or(true);
                if of_subject
                    && conditions.iter().all(|condition| Graph::holds(edge, condition))
                {
                    let key = by.iter().map(|column| Graph::edge_column(edge, column)).collect();
                    let values = columns
                        .iter()
                        .filter(|column| !column.starts_with("count("))
                        .map(|column| Graph::edge_column(edge, column))
                        .collect();
                    rows.push((row_to_strings(&key), values));
                }
            }
        }
        if columns.iter().any(|column| column.starts_with("count(")) {
            return vec![vec![GraphValue::Int64(rows.len() as i64)]];
        }
        rows.sort_by(|a, b| a.0.cmp(&b.0));
        rows.into_iter().map(|(_, values)| values).collect()
    }
}

struct Backend {
    graphs: RefCell<HashMap<String, Graph>>,
    snapshots: RefCell<Vec<MergeSnapshot>>,
}

impl Backend {
    fn new() -> Self {
        Backend { graphs: RefCell::new(HashMap::new()), snapshots: RefCell::new(Vec::new()) }
    }

    fn with_graph<T>(
        &self,
        chat_id: &str,
        f: impl FnOnce(&mut Graph) -> Result<T>,
    ) -> Result<T> {
        validate_chat_id(chat_id)?;
        f(self.graphs.borrow_mut().entry(chat_id.to_string()).or_default())
    }

    fn ask(&self, chat_id: &str, query: &Query) -> Result<Rows> {
        self.with_graph(chat_id, |graph| Ok(graph.run(query)))
    }

    /// Runs writes in one transaction.
    fn transact<T>(
        &self,
        chat_id: &str,
        f: impl FnOnce(&mut Graph) -> Result<T>,
    ) -> Result<T> {
        self.with_graph(chat_id, |graph| {
            let before = graph.clone();
            let result = f(graph);
            if result.is_err() {
                *graph = before;
            }
            result
        })
    }

    fn write_all(graph: &mut Graph, writes: &[GraphWrite]) -> Result<u32> {
        let mut invalidated = Vec::new();
        for write in writes {
            let rows = graph.run(&write.to_query());
            if let GraphWrite::InvalidateSiblings { .. } = write {
                invalidated.push(read_invalidated(&rows, "")?);
            }
        }
        Ok(total_invalidated(&invalidated).expect("a count"))
    }

    /// The snapshot behind the text of an outcome.
    fn snapshot(&self, snapshot_json: &str) -> MergeSnapshot {
        let index: usize = snapshot_json.parse().expect("a stored snapshot");
        self.snapshots.borrow()[index].clone()
    }

    fn ensure_schema(&self, chat_id: &str) -> Result<()> {
        self.with_graph(chat_id, |_| Ok(()))
    }

    fn checkpoint(&self, chat_id: &str) -> Result<()> {
        self.with_graph(chat_id, |_| Ok(()))
    }

    fn close(&self, chat_id: &str) -> Result<()> {
        self.with_graph(chat_id, |_| Ok(()))
    }

    fn upsert_batch(&self, chat_id: &str, batch: &MemoryBatch) -> Result<()> {
        self.upsert_batch_with_registry(chat_id, batch, &[]).map(|_| ())
    }

    fn upsert_batch_with_registry(
        &self,
        chat_id: &str,
        batch: &MemoryBatch,
        single_value_predicates: &[String],
    ) -> Result<UpsertOutcome> {
        let writes = write_batch(batch.clone(), &single_value_predicates.to_vec(), now_utc());
        let invalidated =
            self.transact(chat_id, |graph| Backend::write_all(graph, &writes))?;
        Ok(UpsertOutcome { invalidated })
    }

    fn alias_targets(&self, chat_id: &str, alias_node_id: &str) -> Result<Vec<AliasTarget>> {
        Ok(read_alias_targets(&self.ask(chat_id, &cypher::alias_targets_query(alias_node_id))?))
    }

    fn neighbors(&self, chat_id: &str, node_id: &str) -> Result<Vec<NeighborEdge>> {
        Ok(read_neighbors(node_id, &self.ask(chat_id, &cypher::neighbors_query(node_id))?))
    }

    fn two_hop_edges(
        &self,
        chat_id: &str,
        entry_node_ids: &[String],
        now: Timestamp,
        per_node_limit: usize,
    ) -> Result<Vec<CandidateEdge>> {
        match TwoHop::start(&entry_node_ids.to_vec(), now, per_node_limit) {
            Some(mut expansion) => {
                while let Some(query) = expansion.query() {
                    expansion.accept(&self.ask(chat_id, &query)?);
                }
                Ok(expansion.finish())
            }
            None => Ok(Vec::new()),
        }
    }

    fn edges_by_ids(&self, chat_id: &str, edge_ids: &[String]) -> Result<Vec<CandidateEdge>> {
        let mut candidates = Vec::new();
        for key in hydration_keys(&edge_ids.to_vec()) {
            let rows = self.ask(chat_id, &cypher::hydrate_query(&key))?;
            candidates.extend(hydrate(&key, &rows));
        }
        Ok(candidates)
    }

    fn list_all_edges(&self, chat_id: &str) -> Result<Vec<(String, String)>> {
        Ok(read_all_edges(&self.ask(chat_id, &cypher::list_all_edges_query())?))
    }

    fn node_content(&self, chat_id: &str, node_id: &str) -> Result<Option<NodeContent>> {
        Ok(read_node_content(&self.ask(chat_id, &cypher::node_content_query(node_id))?))
    }

    fn list_node_contents(&self, chat_id: &str) -> Result<Vec<(String, NodeContent)>> {
        Ok(read_node_contents(&self.ask(chat_id, &cypher::list_node_contents_query())?))
    }

    fn node_resolution_infos(
        &self,
        chat_id: &str,
        node_ids: &[String],
    ) -> Result<Vec<(String, NodeResolutionInfo)>> {
        match cypher::node_resolution_infos_query(&node_ids.to_vec()) {
            Some(query) => Ok(read_node_resolution_infos(&self.ask(chat_id, &query)?)),
            None => Ok(Vec::new()),
        }
    }

    fn are_linked(&self, chat_id: &str, a_id: &str, b_id: &str) -> Result<bool> {
        read_are_linked(&self.ask(chat_id, &cypher::are_linked_query(a_id, b_id))?)
    }

    fn node_merge_stats(
        &self,
        chat_id: &str,
        node_ids: &[String],
    ) -> Result<Vec<(String, NodeMergeStats)>> {
        match cypher::node_merge_stats_query(&node_ids.to_vec()) {
            Some(query) => Ok(read_node_merge_stats(&self.ask(chat_id, &query)?)),
            None => Ok(Vec::new()),
        }
    }

    fn merge_nodes(
        &self,
        chat_id: &str,
        loser_id: &str,
        survivor_id: &str,
    ) -> Result<MergeOutcome> {
        self.merge_nodes_with_registry(chat_id, loser_id, survivor_id, &[])
    }

    fn merge_nodes_with_registry(
        &self,
        chat_id: &str,
        loser_id: &str,
        survivor_id: &str,
        single_value_predicates: &[String],
    ) -> Result<MergeOutcome> {
        let now = now_utc();
        let (mut state, mut query) = start_merge(loser_id, survivor_id)?;
        let registry = single_value_predicates.to_vec();
        let first = loop {
            let rows = self.ask(chat_id, &query)?;
            match next_merge(loser_id, survivor_id, &registry, state, &rows, now)? {
                MergeNext::Ask { state: next_state, query: next_query } => {
                    state = next_state;
                    query = next_query;
                }
                next => break next,
            }
        };
        let done = self.transact(chat_id, |graph| {
            let mut next = first;
            loop {
                next = match next {
                    MergeNext::Ask { .. } => panic!("a read between the writes"),
                    MergeNext::WriteAndAsk { writes, state, query } => {
                        Backend::write_all(graph, &writes)?;
                        let rows = graph.run(&query);
                        next_merge(loser_id, survivor_id, &registry, state, &rows, now)?
                    }
                    MergeNext::Finish { writes, done } => {
                        Backend::write_all(graph, &writes)?;
                        return Ok(done);
                    }
                };
            }
        })?;
        let mut snapshots = self.snapshots.borrow_mut();
        snapshots.push(done.snapshot);
        Ok(MergeOutcome {
            snapshot_json: format!("{}", snapshots.len() - 1),
            edges_moved: done.edges_moved,
            self_loops_dropped: done.self_loops_dropped,
            edges_deduped: done.edges_deduped,
            single_value_invalidated: done.single_value_invalidated,
        })
    }

    fn toggle(
        &self,
        toggle: Toggle,
        chat_id: &str,
        edge_id: &str,
        now: Timestamp,
    ) -> Result<bool> {
        let (key, query) = start_toggle(edge_id)?;
        let rows = self.ask(chat_id, &query)?;
        match next_toggle(toggle, edge_id, key, &rows, "", now)? {
            Some(write) => {
                self.transact(chat_id, |graph| Backend::write_all(graph, &[write]))?;
                Ok(true)
            }
            None => Ok(false),
        }
    }

    fn invalidate_edge(&self, chat_id: &str, edge_id: &str, now: Timestamp) -> Result<bool> {
        self.toggle(Toggle::Invalidate, chat_id, edge_id, now)
    }

    fn revalidate_edge(&self, chat_id: &str, edge_id: &str, now: Timestamp) -> Result<bool> {
        self.toggle(Toggle::Revalidate, chat_id, edge_id, now)
    }

    fn node_facts(&self, chat_id: &str, name_or_alias: &str) -> Result<Option<NodeFacts>> {
        let (mut state, mut query) = start_facts(name_or_alias);
        loop {
            let rows = self.ask(chat_id, &query)?;
            match next_facts(state, &rows)? {
                FactsNext::Ask { state: next_state, query: next_query } => {
                    state = next_state;
                    query = next_query;
                }
                FactsNext::Done(facts) => return Ok(facts),
            }
        }
    }

    fn link_also_known_as(&self, chat_id: &str, a_id: &str, b_id: &str) -> Result<()> {
        let (mut state, mut query) = start_link(a_id, b_id)?;
        loop {
            let rows = self.ask(chat_id, &query)?;
            match next_link(a_id, b_id, state, &rows, now_utc())? {
                LinkNext::Ask { state: next_state, query: next_query } => {
                    state = next_state;
                    query = next_query;
                }
                LinkNext::Write(write) => {
                    self.transact(chat_id, |graph| Backend::write_all(graph, &[write]))?;
                    return Ok(());
                }
            }
        }
    }

    fn rollback_merge(&self, chat_id: &str, snapshot_json: &str) -> Result<()> {
        if snapshot_json.parse::<usize>().is_err() {
            return Err(malformed_snapshot("no snapshot"));
        }
        let snapshot = self.snapshot(snapshot_json);
        let (mut state, mut query) = start_rollback(&snapshot);
        loop {
            let rows = self.ask(chat_id, &query)?;
            match next_rollback(&snapshot, state, &rows)? {
                RollbackNext::Ask { state: next_state, query: next_query } => {
                    state = next_state;
                    query = next_query;
                }
                RollbackNext::Write => break,
            }
        }
        let writes = plan_rollback(snapshot);
        self.transact(chat_id, |graph| Backend::write_all(graph, &writes))?;
        Ok(())
    }

    fn query_rows(&self, chat_id: &str, cypher: &str) -> Result<Vec<Vec<String>>> {
        self.with_graph(chat_id, |graph| {
            Ok(graph.ad_hoc(cypher).iter().map(row_to_strings).collect())
        })
    }

    fn count(&self, chat_id: &str, cypher: &str) -> Result<i64> {
        Ok(self.query_rows(chat_id, cypher)?[0][0].parse().expect("a count"))
    }
}

fn sample_batch() -> MemoryBatch {
    let person = MemoryNode {
        id: identifiers::person_id("1001"),
        name: "Tama".to_string(),
        node_type: NodeType::Person,
        created_at: day("2026-08-07T10:00:00Z"),
        updated_at: day("2026-08-07T10:00:00Z"),
        properties: Some(r#"{"tg_user_id":"1001"}"#.to_string()),
    };
    let concept = MemoryNode {
        id: identifiers::concept_id("GRPO"),
        name: "GRPO".to_string(),
        node_type: NodeType::Concept,
        created_at: day("2026-08-07T10:00:00Z"),
        updated_at: day("2026-08-07T10:00:00Z"),
        properties: None,
    };
    let edge = MemoryEdge {
        source_id: person.id.clone(),
        target_id: concept.id.clone(),
        relationship_name: "likes".to_string(),
        valid_at: day("2026-08-07T10:00:00Z"),
        invalid_at: None,
        edge_text: "Tama likes GRPO.".to_string(),
        created_at: day("2026-08-07T10:00:00Z"),
        updated_at: day("2026-08-07T10:00:00Z"),
        properties: None,
    };
    MemoryBatch {
        batch_id: identifiers::batch_id(1, 50),
        nodes: vec![person, concept],
        edges: vec![edge],
    }
}

#[test]
fn ensure_schema_is_idempotent() {
    let backend = Backend::new();
    backend.ensure_schema("chat_a").unwrap();
    backend.ensure_schema("chat_a").unwrap();
    backend.close("chat_a").unwrap();
    backend.ensure_schema("chat_a").unwrap();
}

#[test]
fn upsert_batch_is_idempotent() {
    let backend = Backend::new();
    let batch = sample_batch();
    backend.upsert_batch("chat_b", &batch).unwrap();
    backend.upsert_batch("chat_b", &batch).unwrap();

    let batches = backend
        .count(
            "chat_b",
            "MATCH (n:Node) WHERE n.type = 'MessageBatch' RETURN count(n)",
        )
        .unwrap();
    let entities = backend
        .count(
            "chat_b",
            "MATCH (n:Node) WHERE n.type <> 'MessageBatch' RETURN count(n)",
        )
        .unwrap();
    let edges = backend
        .count("chat_b", "MATCH ()-[r:EDGE]->() RETURN count(r)")
        .unwrap();
    assert_eq!(batches, 1);
    assert_eq!(entities, 2);
    assert_eq!(edges, 1);
}

#[test]
fn checkpoint_and_close_do_not_error() {
    let backend = Backend::new();
    backend
        .upsert_batch("chat_c", &sample_batch())
        .unwrap();
    backend.checkpoint("chat_c").unwrap();
    backend.close("chat_c").unwrap();
    backend
        .upsert_batch("chat_c", &sample_batch())
        .unwrap();
    backend.close("chat_c").unwrap();
    backend.close("chat_c").unwrap();
}

#[test]
fn groups_are_isolated() {
    let backend = Backend::new();
    backend
        .upsert_batch("chat_d1", &sample_batch())
        .unwrap();
    let nodes = backend
        .count("chat_d2", "MATCH (n:Node) RETURN count(n)")
        .unwrap();
    assert_eq!(nodes, 0);
    assert!(backend.graphs.borrow().contains_key("chat_d1"));
    assert!(backend.graphs.borrow().contains_key("chat_d2"));
}

#[test]
fn invalid_chat_ids_are_rejected() {
    let backend = Backend::new();
    for bad in ["", "a/b", "a\\b", "a\0b", "..", "a/../b"] {
        match backend.ensure_schema(bad) {
            Err(MemoryError::InvalidChatId(_)) => {}
            other => panic!("expected InvalidChatId for {bad:?}, got {other:?}"),
        }
    }
}

fn alias_batch() -> (MemoryBatch, MemoryNode, MemoryNode) {
    let person = MemoryNode {
        id: identifiers::person_id("1001"),
        name: "Tama".to_string(),
        node_type: NodeType::Person,
        created_at: day("2026-08-07T10:00:00Z"),
        updated_at: day("2026-08-07T10:00:00Z"),
        properties: None,
    };
    let alias = MemoryNode {
        id: identifiers::alias_id("tama"),
        name: "tama".to_string(),
        node_type: NodeType::Alias,
        created_at: day("2026-08-07T10:00:00Z"),
        updated_at: day("2026-08-07T10:00:00Z"),
        properties: None,
    };
    let edge = MemoryEdge {
        source_id: person.id.clone(),
        target_id: alias.id.clone(),
        relationship_name: "known_as".to_string(),
        valid_at: day("2026-08-07T10:00:00Z"),
        invalid_at: None,
        edge_text: "Tama is known as tama.".to_string(),
        created_at: day("2026-08-07T10:00:00Z"),
        updated_at: day("2026-08-07T10:00:00Z"),
        properties: None,
    };
    let batch = MemoryBatch {
        batch_id: identifiers::batch_id(1, 10),
        nodes: vec![person.clone(), alias.clone()],
        edges: vec![edge],
    };
    (batch, person, alias)
}

#[test]
fn alias_targets_returns_the_source_nodes_of_the_alias_edges() {
    let backend = Backend::new();
    let (batch, person, alias) = alias_batch();
    backend.upsert_batch("chat_e", &batch).unwrap();

    let targets = backend.alias_targets("chat_e", &alias.id).unwrap();
    assert_eq!(
        targets,
        vec![AliasTarget {
            node_id: person.id.clone(),
            node_type: NodeType::Person,
        }]
    );
}

#[test]
fn alias_targets_of_an_unknown_alias_is_empty() {
    let backend = Backend::new();
    let (batch, _person, _alias) = alias_batch();
    backend.upsert_batch("chat_f", &batch).unwrap();

    let targets = backend
        .alias_targets("chat_f", &identifiers::alias_id("nobody"))
        .unwrap();
    assert!(targets.is_empty());
}

fn concept_node(name: &str, created_at: Timestamp) -> MemoryNode {
    MemoryNode {
        id: identifiers::concept_id(name),
        name: name.to_string(),
        node_type: NodeType::Concept,
        created_at,
        updated_at: created_at,
        properties: None,
    }
}

fn fact_edge(
    source_id: &str,
    target_id: &str,
    relationship_name: &str,
    invalid_at: Option<Timestamp>,
    created_at: Timestamp,
) -> MemoryEdge {
    MemoryEdge {
        source_id: source_id.to_string(),
        target_id: target_id.to_string(),
        relationship_name: relationship_name.to_string(),
        valid_at: created_at,
        invalid_at,
        edge_text: format!("{source_id} {relationship_name} {target_id}"),
        created_at,
        updated_at: created_at,
        properties: None,
    }
}

fn neighbor_batch() -> (MemoryBatch, MemoryNode, MemoryNode, MemoryNode) {
    let base = day("2026-08-07T10:00:00Z");
    let a = concept_node("Alpha", base);
    let b = concept_node("Beta", base);
    let c = concept_node("Gamma", base);
    let d = concept_node("Delta", base);
    let edges = vec![
        fact_edge(&b.id, &a.id, "likes", None, plus(base, 1)),
        fact_edge(&a.id, &c.id, "dislikes", None, plus(base, 2)),
        fact_edge(
            &d.id,
            &a.id,
            "likes",
            Some(plus(base, 3)),
            plus(base, 3),
        ),
        fact_edge(&a.id, &c.id, "contains", None, plus(base, 4)),
    ];
    let batch = MemoryBatch {
        batch_id: identifiers::batch_id(2, 60),
        nodes: vec![a.clone(), b.clone(), c.clone(), d],
        edges,
    };
    (batch, a, b, c)
}

#[test]
fn neighbors_returns_valid_edges_in_both_directions() {
    let backend = Backend::new();
    let (batch, a, b, c) = neighbor_batch();
    backend.upsert_batch("chat_g", &batch).unwrap();

    let edges = backend.neighbors("chat_g", &a.id).unwrap();
    assert_eq!(edges.len(), 2);
    assert_eq!(edges[0].relationship_name, "dislikes");
    assert_eq!(edges[0].other_node_id, c.id);
    assert_eq!(edges[0].other_node_name, "Gamma");
    assert_eq!(edges[0].source_id, a.id);
    assert_eq!(edges[0].target_id, c.id);
    assert_eq!(edges[1].relationship_name, "likes");
    assert_eq!(edges[1].other_node_id, b.id);
    assert_eq!(edges[1].other_node_name, "Beta");
    assert_eq!(edges[1].source_id, b.id);
    assert_eq!(edges[1].target_id, a.id);
}

#[test]
fn neighbors_excludes_invalid_and_contains_edges() {
    let backend = Backend::new();
    let (batch, _a, _b, c) = neighbor_batch();
    backend.upsert_batch("chat_h", &batch).unwrap();

    let edges = backend.neighbors("chat_h", &c.id).unwrap();
    assert_eq!(edges.len(), 1);
    assert_eq!(edges[0].relationship_name, "dislikes");
}

#[test]
fn neighbors_of_an_unknown_node_is_empty() {
    let backend = Backend::new();
    let (batch, _a, _b, _c) = neighbor_batch();
    backend.upsert_batch("chat_i", &batch).unwrap();

    let edges = backend
        .neighbors("chat_i", &identifiers::concept_id("nobody"))
        .unwrap();
    assert!(edges.is_empty());
}

#[test]
fn neighbors_truncates_to_the_expansion_limit_newest_first() {
    let backend = Backend::new();
    let base = day("2026-08-07T10:00:00Z");
    let hub = concept_node("Hub", base);
    let over = NEIGHBOR_EXPANSION_LIMIT + 5;
    let mut nodes = vec![hub.clone()];
    let mut edges = Vec::with_capacity(over);
    for i in 0..over {
        let target = concept_node(&format!("Target{i:04}"), base);
        edges.push(fact_edge(
            &hub.id,
            &target.id,
            "mentions",
            None,
            plus(base, i as i64),
        ));
        nodes.push(target);
    }
    let batch = MemoryBatch {
        batch_id: identifiers::batch_id(3, 70),
        nodes,
        edges,
    };
    backend.upsert_batch("chat_j", &batch).unwrap();

    let edges = backend.neighbors("chat_j", &hub.id).unwrap();
    assert_eq!(edges.len(), NEIGHBOR_EXPANSION_LIMIT);
    for (rank, edge) in edges.iter().enumerate() {
        let index = over - 1 - rank;
        assert_eq!(
            edge.other_node_id,
            identifiers::concept_id(&format!("Target{index:04}")),
            "rank {rank} must be Target{index:04}"
        );
    }
}

fn content_batch() -> (MemoryBatch, [MemoryNode; 3]) {
    let base = day("2026-08-07T10:00:00Z");
    let concept = MemoryNode {
        id: identifiers::concept_id("GRPO"),
        name: "GRPO".to_string(),
        node_type: NodeType::Concept,
        created_at: base,
        updated_at: base,
        properties: Some(
            r#"{"description":"A training method."}"#.to_string(),
        ),
    };
    let person = MemoryNode {
        id: identifiers::person_id("1001"),
        name: "Tama".to_string(),
        node_type: NodeType::Person,
        created_at: base,
        updated_at: base,
        properties: Some(
            r#"{"tg_user_id":"1001","display_name":"Tama","description":"A group member."}"#.to_string(),
        ),
    };
    let bare = MemoryNode {
        id: identifiers::concept_id("Bare"),
        name: "Bare".to_string(),
        node_type: NodeType::Concept,
        created_at: base,
        updated_at: base,
        properties: None,
    };
    let batch = MemoryBatch {
        batch_id: identifiers::batch_id(4, 80),
        nodes: vec![concept.clone(), person.clone(), bare.clone()],
        edges: vec![],
    };
    (batch, [concept, person, bare])
}

#[test]
fn node_content_returns_the_stored_name_and_description() {
    let backend = Backend::new();
    let (batch, [concept, person, _bare]) = content_batch();
    backend.upsert_batch("chat_k", &batch).unwrap();

    let content = backend
        .node_content("chat_k", &concept.id)
        .unwrap()
        .expect("the concept node exists");
    assert_eq!(
        content,
        NodeContent {
            name: "GRPO".to_string(),
            description: "A training method.".to_string(),
        }
    );
    let content = backend
        .node_content("chat_k", &person.id)
        .unwrap()
        .expect("the person node exists");
    assert_eq!(
        content,
        NodeContent {
            name: "Tama".to_string(),
            description: "A group member.".to_string(),
        }
    );
}

#[test]
fn node_content_of_a_missing_node_is_none() {
    let backend = Backend::new();
    let (batch, [_concept, _person, _bare]) = content_batch();
    backend.upsert_batch("chat_l", &batch).unwrap();

    let content = backend
        .node_content("chat_l", &identifiers::concept_id("nobody"))
        .unwrap();
    assert_eq!(content, None);
}

#[test]
fn node_content_without_a_description_yields_an_empty_description() {
    let backend = Backend::new();
    let (batch, [_concept, _person, bare]) = content_batch();
    backend.upsert_batch("chat_m", &batch).unwrap();

    let content = backend
        .node_content("chat_m", &bare.id)
        .unwrap()
        .expect("the bare node exists");
    assert_eq!(
        content,
        NodeContent {
            name: "Bare".to_string(),
            description: String::new(),
        }
    );
}

#[test]
fn list_node_contents_returns_all_upserted_nodes() {
    let backend = Backend::new();
    let (batch, [concept, person, bare]) = content_batch();
    backend.upsert_batch("chat_n", &batch).unwrap();

    let mut contents = backend.list_node_contents("chat_n").unwrap();
    contents.sort_by(|(left, _), (right, _)| left.cmp(right));
    let mut expected: Vec<(String, NodeContent)> = vec![
        (
            batch.batch_id.clone(),
            NodeContent {
                name: batch.batch_id.clone(),
                description: String::new(),
            },
        ),
        (
            concept.id,
            NodeContent {
                name: "GRPO".to_string(),
                description: "A training method.".to_string(),
            },
        ),
        (
            bare.id,
            NodeContent {
                name: "Bare".to_string(),
                description: String::new(),
            },
        ),
        (
            person.id,
            NodeContent {
                name: "Tama".to_string(),
                description: "A group member.".to_string(),
            },
        ),
    ];
    expected.sort_by(|(left, _), (right, _)| left.cmp(right));
    assert_eq!(contents, expected);
}

fn resolution_batch() -> (MemoryBatch, MemoryNode, MemoryNode, MemoryNode, MemoryNode) {
    let base = day("2026-08-07T10:00:00Z");
    let person = MemoryNode {
        id: identifiers::person_id("1001"),
        name: "Tama".to_string(),
        node_type: NodeType::Person,
        created_at: base,
        updated_at: base,
        properties: None,
    };
    let concept = concept_node("GRPO", base);
    let person_alias = MemoryNode {
        id: identifiers::alias_id("tama"),
        name: "tama".to_string(),
        node_type: NodeType::Alias,
        created_at: base,
        updated_at: base,
        properties: None,
    };
    let concept_alias = MemoryNode {
        id: identifiers::alias_id("grpo"),
        name: "grpo".to_string(),
        node_type: NodeType::Alias,
        created_at: base,
        updated_at: base,
        properties: None,
    };
    let edges = vec![
        fact_edge(&person.id, &person_alias.id, "known_as", None, base),
        fact_edge(&concept.id, &concept_alias.id, "also_known_as", None, base),
    ];
    let batch = MemoryBatch {
        batch_id: identifiers::batch_id(5, 90),
        nodes: vec![
            person.clone(),
            concept.clone(),
            person_alias.clone(),
            concept_alias.clone(),
        ],
        edges,
    };
    (batch, person, concept, person_alias, concept_alias)
}

#[test]
fn node_resolution_infos_reports_kinds_and_alias_targets() {
    let backend = Backend::new();
    let (batch, person, concept, person_alias, concept_alias) = resolution_batch();
    backend.upsert_batch("chat_o", &batch).unwrap();

    let ids = vec![
        batch.batch_id.clone(),
        person.id.clone(),
        concept.id.clone(),
        person_alias.id.clone(),
        concept_alias.id.clone(),
    ];
    let infos: HashMap<String, NodeResolutionInfo> = backend
        .node_resolution_infos("chat_o", &ids)
        .unwrap()
        .into_iter()
        .collect();
    assert_eq!(infos.len(), 5);
    assert_eq!(
        infos[&batch.batch_id],
        NodeResolutionInfo {
            kind: NodeType::MessageBatch,
            alias_target: None,
        }
    );
    assert_eq!(
        infos[&person.id],
        NodeResolutionInfo {
            kind: NodeType::Person,
            alias_target: None,
        }
    );
    assert_eq!(
        infos[&concept.id],
        NodeResolutionInfo {
            kind: NodeType::Concept,
            alias_target: None,
        }
    );
    assert_eq!(
        infos[&person_alias.id],
        NodeResolutionInfo {
            kind: NodeType::Alias,
            alias_target: Some(person.id.clone()),
        }
    );
    assert_eq!(
        infos[&concept_alias.id],
        NodeResolutionInfo {
            kind: NodeType::Alias,
            alias_target: Some(concept.id.clone()),
        }
    );
}

#[test]
fn node_resolution_infos_skips_missing_nodes() {
    let backend = Backend::new();
    let (batch, person, _concept, _person_alias, _concept_alias) = resolution_batch();
    backend.upsert_batch("chat_p", &batch).unwrap();

    let ids = vec![person.id.clone(), identifiers::person_id("nobody")];
    let infos = backend.node_resolution_infos("chat_p", &ids).unwrap();
    assert_eq!(
        infos,
        vec![(
            person.id.clone(),
            NodeResolutionInfo {
                kind: NodeType::Person,
                alias_target: None,
            },
        )]
    );
}

#[test]
fn node_resolution_infos_of_an_empty_id_list_is_empty() {
    let backend = Backend::new();
    let infos = backend.node_resolution_infos("chat_q", &[]).unwrap();
    assert!(infos.is_empty());
    assert!(!backend.graphs.borrow().contains_key("chat_q"));
}

#[test]
fn neighbor_edge_id_is_stable_and_distinct() {
    let base = day("2026-08-07T10:00:00Z");
    let edge = NeighborEdge {
        source_id: "s".to_string(),
        target_id: "t".to_string(),
        relationship_name: "likes".to_string(),
        edge_text: "text".to_string(),
        valid_at: base,
        created_at: base,
        other_node_id: "t".to_string(),
        other_node_name: "T".to_string(),
    };
    let first = edge.edge_id();
    assert_eq!(first, edge.edge_id());
    assert_eq!(
        first,
        format!("s|likes|t|{}", base.to_rfc3339().unwrap())
    );
    let mut other = edge.clone();
    other.target_id = "u".to_string();
    assert_ne!(first, other.edge_id());
    let mut other = edge.clone();
    other.relationship_name = "dislikes".to_string();
    assert_ne!(first, other.edge_id());
    let mut other = edge.clone();
    other.valid_at = plus(base, 1);
    assert_ne!(first, other.edge_id());
    let mut other = edge.clone();
    other.edge_text = "other text".to_string();
    assert_eq!(first, other.edge_id());
}

fn merge_batch() -> (MemoryBatch, [MemoryNode; 5], [MemoryEdge; 5]) {
    let base = day("2026-08-07T10:00:00Z");
    let loser = concept_node("Loser", base);
    let survivor = concept_node("Survivor", base);
    let x = concept_node("Xray", base);
    let y = concept_node("Yankee", base);
    let z = concept_node("Zulu", base);
    let mut likes_from_loser =
        fact_edge(&loser.id, &x.id, "likes", None, plus(base, 1));
    likes_from_loser.edge_text = "likes-text".to_string();
    likes_from_loser.properties = Some(r#"{"note":"from loser"}"#.to_string());
    let mut dislikes_to_loser = fact_edge(
        &y.id,
        &loser.id,
        "dislikes",
        None,
        plus(base, 2),
    );
    dislikes_to_loser.edge_text = "dislikes-text".to_string();
    dislikes_to_loser.invalid_at = Some(plus(base, 50));
    dislikes_to_loser.properties =
        Some(r#"{"note":"into loser"}"#.to_string());
    let mut mentions = fact_edge(
        &loser.id,
        &z.id,
        "mentions",
        None,
        plus(base, 3),
    );
    mentions.edge_text = "mentions-text".to_string();
    let knows = fact_edge(
        &loser.id,
        &survivor.id,
        "knows",
        None,
        plus(base, 4),
    );
    let mut likes_from_survivor = fact_edge(
        &survivor.id,
        &x.id,
        "likes",
        None,
        plus(base, 5),
    );
    likes_from_survivor.edge_text = "likes-text".to_string();
    let edges = [
        likes_from_loser,
        dislikes_to_loser,
        mentions,
        knows,
        likes_from_survivor,
    ];
    let batch = MemoryBatch {
        batch_id: identifiers::batch_id(6, 100),
        nodes: vec![
            loser.clone(),
            survivor.clone(),
            x.clone(),
            y.clone(),
            z.clone(),
        ],
        edges: edges.to_vec(),
    };
    (batch, [loser, survivor, x, y, z], edges)
}

fn graph_shape(
    backend: &Backend,
    chat_id: &str,
) -> (Vec<Vec<String>>, Vec<Vec<String>>) {
    let nodes = backend
        .query_rows(
            chat_id,
            "MATCH (n:Node) RETURN n.id, n.name, n.type, n.created_at, n.updated_at, n.properties ORDER BY n.id",
        )
        .unwrap();
    let edges = backend
        .query_rows(
            chat_id,
            "MATCH (s:Node)-[r:EDGE]->(t:Node) \
             RETURN s.id, t.id, r.relationship_name, r.valid_at, r.invalid_at, r.edge_text, r.created_at, r.updated_at, r.properties \
             ORDER BY s.id, t.id, r.relationship_name, r.valid_at",
        )
        .unwrap();
    (nodes, edges)
}

#[test]
fn merge_nodes_moves_edges_in_both_directions_with_properties_intact() {
    let backend = Backend::new();
    let (batch, [loser, survivor, _x, y, z], _edges) = merge_batch();
    backend.upsert_batch("chat_r", &batch).unwrap();

    let outcome = backend
        .merge_nodes("chat_r", &loser.id, &survivor.id)
        .unwrap();
    assert_eq!(outcome.edges_moved, 2);
    assert_eq!(outcome.self_loops_dropped, 1);
    assert_eq!(outcome.edges_deduped, 1);

    let moved = backend
        .query_rows(
            "chat_r",
            "MATCH (s:Node)-[r:EDGE]->(t:Node) \
             WHERE r.relationship_name IN ['dislikes', 'mentions'] \
             RETURN s.id, t.id, r.relationship_name, r.edge_text, r.invalid_at, r.properties, r.created_at \
             ORDER BY r.relationship_name",
        )
        .unwrap();
    let dislikes_created = plus(day("2026-08-07T10:00:00Z"), 2).to_rfc3339().unwrap();
    let dislikes_invalid = plus(day("2026-08-07T10:00:00Z"), 50).to_rfc3339().unwrap();
    let mentions_created = plus(day("2026-08-07T10:00:00Z"), 3).to_rfc3339().unwrap();
    assert_eq!(
        moved,
        vec![
            vec![
                y.id.clone(),
                survivor.id.clone(),
                "dislikes".to_string(),
                "dislikes-text".to_string(),
                dislikes_invalid,
                r#"{"note":"into loser"}"#.to_string(),
                dislikes_created,
            ],
            vec![
                survivor.id.clone(),
                z.id.clone(),
                "mentions".to_string(),
                "mentions-text".to_string(),
                "NULL".to_string(),
                "NULL".to_string(),
                mentions_created,
            ],
        ]
    );
}

#[test]
fn merge_nodes_drops_loser_survivor_edges_as_self_loops() {
    let backend = Backend::new();
    let (batch, [loser, survivor, _x, _y, _z], _edges) = merge_batch();
    backend.upsert_batch("chat_s", &batch).unwrap();

    let outcome = backend
        .merge_nodes("chat_s", &loser.id, &survivor.id)
        .unwrap();
    assert_eq!(outcome.self_loops_dropped, 1);

    let self_loops = backend
        .count(
            "chat_s",
            "MATCH (s:Node)-[r:EDGE]->(t:Node) WHERE s.id = t.id RETURN count(r)",
        )
        .unwrap();
    assert_eq!(self_loops, 0);
    let knows = backend
        .count(
            "chat_s",
            "MATCH ()-[r:EDGE]->() WHERE r.relationship_name = 'knows' RETURN count(r)",
        )
        .unwrap();
    assert_eq!(knows, 0);
}

#[test]
fn merge_nodes_dedups_against_equivalent_survivor_edges() {
    let backend = Backend::new();
    let (batch, [loser, survivor, x, _y, _z], _edges) = merge_batch();
    backend.upsert_batch("chat_t", &batch).unwrap();

    let outcome = backend
        .merge_nodes("chat_t", &loser.id, &survivor.id)
        .unwrap();
    assert_eq!(outcome.edges_deduped, 1);

    let likes = backend
        .query_rows(
            "chat_t",
            "MATCH (s:Node)-[r:EDGE]->(t:Node) \
             WHERE r.relationship_name = 'likes' RETURN s.id, t.id, r.created_at",
        )
        .unwrap();
    let original_created = plus(day("2026-08-07T10:00:00Z"), 5).to_rfc3339().unwrap();
    assert_eq!(
        likes,
        vec![vec![survivor.id.clone(), x.id.clone(), original_created]]
    );
}

#[test]
fn merge_nodes_snapshot_covers_the_node_every_edge_and_the_created_keys() {
    let backend = Backend::new();
    let (batch, [loser, survivor, x, y, z], edges) = merge_batch();
    backend.upsert_batch("chat_u", &batch).unwrap();

    let outcome = backend
        .merge_nodes("chat_u", &loser.id, &survivor.id)
        .unwrap();
    let snapshot: MergeSnapshot = backend.snapshot(&outcome.snapshot_json);

    assert_eq!(snapshot.version, 1);
    assert_eq!(snapshot.survivor_id, survivor.id);
    assert_eq!(snapshot.node.id, loser.id);
    assert_eq!(snapshot.node.kind, "Concept");
    assert_eq!(snapshot.node.name, "Loser");
    assert_eq!(snapshot.node.created_at, loser.created_at);

    assert_eq!(snapshot.edges.len(), 4);
    let likes = &snapshot.edges[0];
    assert_eq!(likes.source_id, loser.id);
    assert_eq!(likes.target_id, x.id);
    assert_eq!(likes.relationship_name, "likes");
    assert_eq!(likes.edge_text, "likes-text");
    assert_eq!(
        likes.properties,
        Some(r#"{"note":"from loser"}"#.to_string())
    );
    let dislikes = &snapshot.edges[1];
    assert_eq!(dislikes.source_id, y.id);
    assert_eq!(dislikes.target_id, loser.id);
    assert_eq!(
        dislikes.invalid_at,
        Some(plus(day("2026-08-07T10:00:00Z"), 50))
    );

    assert_eq!(
        snapshot.created_edges,
        vec![
            MergeSnapshotEdgeKey {
                source_id: y.id.clone(),
                relationship_name: "dislikes".to_string(),
                target_id: survivor.id.clone(),
                valid_at: edges[1].valid_at,
            },
            MergeSnapshotEdgeKey {
                source_id: survivor.id.clone(),
                relationship_name: "mentions".to_string(),
                target_id: z.id.clone(),
                valid_at: edges[2].valid_at,
            },
        ]
    );
}

#[test]
fn merge_nodes_tombstones_the_loser_for_reads() {
    let backend = Backend::new();
    let (batch, [loser, survivor, _x, _y, _z], _edges) = merge_batch();
    backend.upsert_batch("chat_v", &batch).unwrap();
    backend
        .merge_nodes("chat_v", &loser.id, &survivor.id)
        .unwrap();

    let content = backend.node_content("chat_v", &loser.id).unwrap();
    assert_eq!(content, None);
    let infos = backend
        .node_resolution_infos("chat_v", std::slice::from_ref(&loser.id))
        .unwrap();
    assert!(infos.is_empty());
    let edges = backend.neighbors("chat_v", &loser.id).unwrap();
    assert!(edges.is_empty());
}

#[test]
fn rollback_merge_restores_the_pre_merge_shape() {
    let backend = Backend::new();
    let (batch, [loser, survivor, _x, _y, _z], _edges) = merge_batch();
    backend.upsert_batch("chat_w", &batch).unwrap();
    let pre_merge = graph_shape(&backend, "chat_w");

    let outcome = backend
        .merge_nodes("chat_w", &loser.id, &survivor.id)
        .unwrap();
    backend
        .rollback_merge("chat_w", &outcome.snapshot_json)
        .unwrap();

    let post_rollback = graph_shape(&backend, "chat_w");
    assert_eq!(post_rollback, pre_merge);
}

#[test]
fn rollback_merge_refuses_when_the_survivor_is_gone() {
    let backend = Backend::new();
    let (batch, [loser, survivor, x, _y, _z], _edges) = merge_batch();
    backend.upsert_batch("chat_x", &batch).unwrap();

    let outcome = backend
        .merge_nodes("chat_x", &loser.id, &survivor.id)
        .unwrap();
    backend
        .merge_nodes("chat_x", &survivor.id, &x.id)
        .unwrap();

    let error = backend
        .rollback_merge("chat_x", &outcome.snapshot_json)
        .expect_err("rollback must refuse when the survivor is gone");
    assert!(
        error.message().contains("survivor"),
        "unexpected error: {error:?}"
    );
}

#[test]
fn rollback_merge_rejects_a_malformed_snapshot() {
    let backend = Backend::new();
    let (batch, _nodes, _edges) = merge_batch();
    backend.upsert_batch("chat_y", &batch).unwrap();

    let error = backend
        .rollback_merge("chat_y", "not a snapshot")
        .expect_err("a malformed snapshot is a loud error");
    assert!(
        error.message().contains("malformed snapshot"),
        "unexpected error: {error:?}"
    );
}

#[test]
fn merge_nodes_of_a_tombstoned_loser_errors_loudly() {
    let backend = Backend::new();
    let (batch, [loser, survivor, _x, _y, _z], _edges) = merge_batch();
    backend.upsert_batch("chat_z", &batch).unwrap();
    backend
        .merge_nodes("chat_z", &loser.id, &survivor.id)
        .unwrap();

    let error = backend
        .merge_nodes("chat_z", &loser.id, &survivor.id)
        .expect_err("re-merging a tombstoned loser must error loudly");
    assert!(
        error.message().contains("loser"),
        "unexpected error: {error:?}"
    );
    let error = backend
        .merge_nodes(
            "chat_z",
            &identifiers::concept_id("nobody"),
            &survivor.id,
        )
        .expect_err("merging a missing loser must error loudly");
    assert!(
        error.message().contains("loser"),
        "unexpected error: {error:?}"
    );
}

#[test]
fn link_also_known_as_creates_the_edge_and_is_idempotent() {
    let backend = Backend::new();
    let base = day("2026-08-07T10:00:00Z");
    let a = concept_node("GRPO", base);
    let b = concept_node("Group Relative Policy Optimization", base);
    let batch = MemoryBatch {
        batch_id: identifiers::batch_id(7, 110),
        nodes: vec![a.clone(), b.clone()],
        edges: vec![],
    };
    backend.upsert_batch("chat_aa", &batch).unwrap();

    backend
        .link_also_known_as("chat_aa", &a.id, &b.id)
        .unwrap();
    let edges = backend
        .query_rows(
            "chat_aa",
            "MATCH (s:Node)-[r:EDGE]->(t:Node) \
             WHERE r.relationship_name = 'also_known_as' RETURN s.id, t.id, r.edge_text",
        )
        .unwrap();
    assert_eq!(
        edges,
        vec![vec![
            a.id.clone(),
            b.id.clone(),
            "GRPO is also known as Group Relative Policy Optimization.".to_string(),
        ]]
    );

    backend
        .link_also_known_as("chat_aa", &a.id, &b.id)
        .unwrap();
    let count = backend
        .count(
            "chat_aa",
            "MATCH ()-[r:EDGE]->() WHERE r.relationship_name = 'also_known_as' RETURN count(r)",
        )
        .unwrap();
    assert_eq!(count, 1);

    let error = backend
        .link_also_known_as("chat_aa", &a.id, &identifiers::concept_id("nobody"))
        .expect_err("linking to a missing node must error loudly");
    assert!(
        error.message().contains("does not exist"),
        "unexpected error: {error:?}"
    );
}

#[test]
fn are_linked_matches_both_names_in_both_directions() {
    let backend = Backend::new();
    let base = day("2026-08-07T10:00:00Z");
    let a = concept_node("GRPO", base);
    let b = concept_node("Group Relative Policy Optimization", base);
    let person = MemoryNode {
        id: identifiers::person_id("u1"),
        name: "Ada".to_string(),
        node_type: NodeType::Person,
        created_at: base,
        updated_at: base,
        properties: None,
    };
    let alias = MemoryNode {
        id: identifiers::alias_id("ada"),
        name: "ada".to_string(),
        node_type: NodeType::Alias,
        created_at: base,
        updated_at: base,
        properties: None,
    };
    let known_as = fact_edge(&person.id, &alias.id, "known_as", None, base);
    let unrelated_edge = fact_edge(&a.id, &person.id, "mentioned_with", None, base);
    let batch = MemoryBatch {
        batch_id: identifiers::batch_id(7, 111),
        nodes: vec![a.clone(), b.clone(), person.clone(), alias.clone()],
        edges: vec![known_as, unrelated_edge],
    };
    backend.upsert_batch("chat_ab", &batch).unwrap();

    backend
        .link_also_known_as("chat_ab", &a.id, &b.id)
        .unwrap();

    assert!(backend.are_linked("chat_ab", &a.id, &b.id).unwrap());
    assert!(backend.are_linked("chat_ab", &b.id, &a.id).unwrap());
    assert!(backend
        .are_linked("chat_ab", &person.id, &alias.id)
        .unwrap());
    assert!(backend
        .are_linked("chat_ab", &alias.id, &person.id)
        .unwrap());
    assert!(!backend
        .are_linked("chat_ab", &a.id, &person.id)
        .unwrap());
    assert!(!backend
        .are_linked("chat_ab", &a.id, &identifiers::concept_id("nobody"))
        .unwrap());
}

#[test]
fn node_merge_stats_reports_degree_and_created_at() {
    let backend = Backend::new();
    let base = day("2026-08-07T10:00:00Z");
    let (batch, [loser, survivor, x, _y, _z], _edges) = merge_batch();
    backend.upsert_batch("chat_ac", &batch).unwrap();
    let extra = fact_edge(&x.id, &survivor.id, "likes", None, base);
    backend
        .upsert_batch(
            "chat_ac",
            &MemoryBatch {
                batch_id: identifiers::batch_id(8, 112),
                nodes: vec![],
                edges: vec![extra],
            },
        )
        .unwrap();

    let ids = vec![loser.id.clone(), survivor.id.clone()];
    let stats = backend.node_merge_stats("chat_ac", &ids).unwrap();
    let map: HashMap<String, NodeMergeStats> = stats.into_iter().collect();
    assert_eq!(map.get(&loser.id).expect("loser stats").edge_degree, 4);
    assert_eq!(
        map.get(&survivor.id).expect("survivor stats").edge_degree,
        3
    );
    assert_eq!(
        map.get(&survivor.id).expect("survivor stats").created_at,
        survivor.created_at
    );
}

#[test]
fn node_merge_stats_skips_missing_nodes_and_an_empty_list() {
    let backend = Backend::new();
    let (batch, [loser, _survivor, _x, _y, _z], _edges) = merge_batch();
    backend.upsert_batch("chat_ad", &batch).unwrap();

    let stats = backend
        .node_merge_stats(
            "chat_ad",
            &[loser.id.clone(), identifiers::concept_id("nobody")],
        )
        .unwrap();
    assert_eq!(stats.len(), 1, "a missing node id does not occur");
    assert_eq!(stats[0].0, loser.id);

    let stats = backend
        .node_merge_stats("chat_never_opened", &[])
        .unwrap();
    assert!(stats.is_empty());
    assert!(!backend.graphs.borrow().contains_key("chat_never_opened"));
}

fn registry() -> Vec<String> {
    vec!["works_at".to_string()]
}

fn person_node(name: &str, user_id: &str, created_at: Timestamp) -> MemoryNode {
    MemoryNode {
        id: identifiers::person_id(user_id),
        name: name.to_string(),
        node_type: NodeType::Person,
        created_at,
        updated_at: created_at,
        properties: None,
    }
}

fn org_node(name: &str, created_at: Timestamp) -> MemoryNode {
    concept_node(name, created_at)
}

fn aliased_person(
    name: &str,
    user_id: &str,
    created_at: Timestamp,
) -> (MemoryNode, MemoryNode, MemoryEdge) {
    let person = person_node(name, user_id, created_at);
    let alias = MemoryNode {
        id: identifiers::alias_id(name),
        name: identifiers::normalize(name),
        node_type: NodeType::Alias,
        created_at,
        updated_at: created_at,
        properties: None,
    };
    let known_as = fact_edge(&person.id, &alias.id, "known_as", None, created_at);
    (person, alias, known_as)
}

fn works_at_edge(
    source_id: &str,
    target_id: &str,
    valid_at: Timestamp,
    created_at: Timestamp,
) -> MemoryEdge {
    MemoryEdge {
        source_id: source_id.to_string(),
        target_id: target_id.to_string(),
        relationship_name: "works_at".to_string(),
        valid_at,
        invalid_at: None,
        edge_text: format!("{source_id} works_at {target_id}"),
        created_at,
        updated_at: created_at,
        properties: None,
    }
}

fn works_at_valid(facts: &NodeFacts) -> Vec<&NodeFactEdge> {
    facts
        .edges
        .iter()
        .filter(|edge| edge.relationship_name == "works_at" && edge.invalid_at.is_none())
        .collect()
}

fn works_at_invalid(facts: &NodeFacts) -> Vec<&NodeFactEdge> {
    facts
        .edges
        .iter()
        .filter(|edge| edge.relationship_name == "works_at" && edge.invalid_at.is_some())
        .collect()
}

#[test]
fn upsert_batch_with_registry_invalidates_single_value_siblings() {
    let backend = Backend::new();
    let base = day("2026-08-07T10:00:00Z");
    let (person, alias, known_as) = aliased_person("Tama", "2001", base);
    let org_a = org_node("OrgA", base);
    let org_b = org_node("OrgB", base);
    let first = works_at_edge(
        &person.id,
        &org_a.id,
        plus(base, 1),
        plus(base, 1),
    );
    let second = works_at_edge(
        &person.id,
        &org_b.id,
        plus(base, 2),
        plus(base, 2),
    );
    let batch = MemoryBatch {
        batch_id: identifiers::batch_id(10, 120),
        nodes: vec![person.clone(), alias, org_a.clone(), org_b.clone()],
        edges: vec![known_as, first, second],
    };

    let outcome = backend
        .upsert_batch_with_registry("chat_d75a", &batch, &registry())
        .unwrap();
    assert_eq!(outcome.invalidated, 1);

    let facts = backend
        .node_facts("chat_d75a", "Tama")
        .unwrap()
        .expect("the person resolves through its alias");
    assert_eq!(facts.node_id, person.id);
    let valid = works_at_valid(&facts);
    assert_eq!(valid.len(), 1, "exactly one valid works_at at commit");
    assert_eq!(valid[0].other_node_name, "OrgB");
    let invalid = works_at_invalid(&facts);
    assert_eq!(invalid.len(), 1);
    assert_eq!(invalid[0].other_node_name, "OrgA");
}

#[test]
fn two_same_predicate_edges_in_one_batch_last_write_wins() {
    let backend = Backend::new();
    let base = day("2026-08-07T10:00:00Z");
    let (person, alias, known_as) = aliased_person("Tama", "2002", base);
    let org_a = org_node("OrgA", base);
    let org_b = org_node("OrgB", base);
    let batch = MemoryBatch {
        batch_id: identifiers::batch_id(10, 121),
        nodes: vec![person.clone(), alias, org_a.clone(), org_b.clone()],
        edges: vec![
            known_as,
            works_at_edge(
                &person.id,
                &org_a.id,
                plus(base, 1),
                plus(base, 1),
            ),
            works_at_edge(
                &person.id,
                &org_b.id,
                plus(base, 2),
                plus(base, 2),
            ),
        ],
    };
    let outcome = backend
        .upsert_batch_with_registry("chat_d75b", &batch, &registry())
        .unwrap();
    assert_eq!(outcome.invalidated, 1);

    let total = backend
        .count(
            "chat_d75b",
            "MATCH ()-[r:EDGE]->() WHERE r.relationship_name = 'works_at' RETURN count(r)",
        )
        .unwrap();
    assert_eq!(total, 2);
    let valid = backend
        .count(
            "chat_d75b",
            "MATCH ()-[r:EDGE]->() WHERE r.relationship_name = 'works_at' AND r.invalid_at IS NULL RETURN count(r)",
        )
        .unwrap();
    assert_eq!(valid, 1);
    let facts = backend
        .node_facts("chat_d75b", "Tama")
        .unwrap()
        .unwrap();
    let valid = works_at_valid(&facts);
    assert_eq!(valid.len(), 1);
    assert_eq!(valid[0].other_node_name, "OrgB");
}

#[test]
fn unregistered_predicate_accumulates() {
    let backend = Backend::new();
    let base = day("2026-08-07T10:00:00Z");
    let (person, alias, known_as) = aliased_person("Tama", "2003", base);
    let org_a = org_node("OrgA", base);
    let org_b = org_node("OrgB", base);
    let batch = MemoryBatch {
        batch_id: identifiers::batch_id(10, 122),
        nodes: vec![person.clone(), alias, org_a.clone(), org_b.clone()],
        edges: vec![
            known_as,
            fact_edge(
                &person.id,
                &org_a.id,
                "likes",
                None,
                plus(base, 1),
            ),
            fact_edge(
                &person.id,
                &org_b.id,
                "likes",
                None,
                plus(base, 2),
            ),
        ],
    };
    let outcome = backend
        .upsert_batch_with_registry("chat_d75c", &batch, &registry())
        .unwrap();
    assert_eq!(outcome.invalidated, 0);
    let facts = backend
        .node_facts("chat_d75c", "Tama")
        .unwrap()
        .unwrap();
    let likes_valid: Vec<&NodeFactEdge> = facts
        .edges
        .iter()
        .filter(|edge| edge.relationship_name == "likes" && edge.invalid_at.is_none())
        .collect();
    assert_eq!(likes_valid.len(), 2);
    let likes_invalid: Vec<&NodeFactEdge> = facts
        .edges
        .iter()
        .filter(|edge| edge.relationship_name == "likes" && edge.invalid_at.is_some())
        .collect();
    assert_eq!(likes_invalid.len(), 0);
}

#[test]
fn replayed_batch_converges() {
    let backend = Backend::new();
    let base = day("2026-08-07T10:00:00Z");
    let (person, alias, known_as) = aliased_person("Tama", "2004", base);
    let org_a = org_node("OrgA", base);
    let grpo = org_node("GRPO", base);
    let batch = MemoryBatch {
        batch_id: identifiers::batch_id(10, 123),
        nodes: vec![person.clone(), alias, org_a.clone(), grpo.clone()],
        edges: vec![
            known_as,
            works_at_edge(
                &person.id,
                &org_a.id,
                plus(base, 1),
                plus(base, 1),
            ),
            fact_edge(
                &person.id,
                &grpo.id,
                "likes",
                None,
                plus(base, 1),
            ),
        ],
    };
    let first = backend
        .upsert_batch_with_registry("chat_d75d", &batch, &registry())
        .unwrap();
    assert_eq!(first.invalidated, 0);
    let (nodes_first, edges_first) = graph_shape(&backend, "chat_d75d");

    let facts = backend
        .node_facts("chat_d75d", "Tama")
        .unwrap()
        .unwrap();
    let edge_id = works_at_valid(&facts)[0].edge_id.clone();
    backend
        .invalidate_edge("chat_d75d", &edge_id, plus(base, 1 * 3600))
        .unwrap();
    assert!(works_at_valid(
        &backend
            .node_facts("chat_d75d", "Tama")
            .unwrap()
            .unwrap()
    )
    .is_empty());

    let second = backend
        .upsert_batch_with_registry("chat_d75d", &batch, &registry())
        .unwrap();
    assert_eq!(second.invalidated, 0);
    let total = backend
        .count(
            "chat_d75d",
            "MATCH ()-[r:EDGE]->() WHERE r.relationship_name = 'works_at' RETURN count(r)",
        )
        .unwrap();
    assert_eq!(total, 1, "no duplicate edges on replay");
    let valid = backend
        .count(
            "chat_d75d",
            "MATCH ()-[r:EDGE]->() WHERE r.relationship_name = 'works_at' AND r.invalid_at IS NULL RETURN count(r)",
        )
        .unwrap();
    assert_eq!(valid, 1, "the replayed edge is re-validated");

    let (nodes_second, edges_second) = graph_shape(&backend, "chat_d75d");
    assert_eq!(edges_first, edges_second);
    let node_key_columns = |rows: Vec<Vec<String>>| -> Vec<Vec<String>> {
        rows.into_iter()
            .map(|row| {
                row.into_iter()
                    .enumerate()
                    .filter(|(index, _)| *index != 4)
                    .map(|(_, value)| value)
                    .collect()
            })
            .collect()
    };
    assert_eq!(
        node_key_columns(nodes_first),
        node_key_columns(nodes_second)
    );
}

#[test]
fn invalidate_revalidate_round_trip_through_node_facts() {
    let backend = Backend::new();
    let base = day("2026-08-07T10:00:00Z");
    let (person, alias, known_as) = aliased_person("Tama", "2005", base);
    let org_a = org_node("OrgA", base);
    let org_b = org_node("OrgB", base);
    let batch = MemoryBatch {
        batch_id: identifiers::batch_id(10, 124),
        nodes: vec![person.clone(), alias, org_a.clone(), org_b.clone()],
        edges: vec![
            known_as,
            works_at_edge(
                &person.id,
                &org_a.id,
                plus(base, 1),
                plus(base, 1),
            ),
            works_at_edge(
                &person.id,
                &org_b.id,
                plus(base, 2),
                plus(base, 2),
            ),
        ],
    };
    backend
        .upsert_batch_with_registry("chat_d75e", &batch, &registry())
        .unwrap();

    let facts = backend
        .node_facts("chat_d75e", "Tama")
        .unwrap()
        .unwrap();
    let valid = works_at_valid(&facts);
    assert_eq!(valid.len(), 1);
    assert_eq!(valid[0].other_node_name, "OrgB");
    let valid_edge_id = valid[0].edge_id.clone();
    let now = plus(base, 1 * 3600);
    assert!(backend
        .invalidate_edge("chat_d75e", &valid_edge_id, now)
        .unwrap());

    let facts = backend
        .node_facts("chat_d75e", "Tama")
        .unwrap()
        .unwrap();
    assert!(works_at_valid(&facts).is_empty());
    let invalid = works_at_invalid(&facts);
    assert_eq!(invalid.len(), 2);
    let org_b_edge = invalid
        .iter()
        .find(|edge| edge.other_node_name == "OrgB")
        .expect("the OrgB edge is listed");
    assert_eq!(org_b_edge.invalid_at, Some(now));
    assert!(invalid.iter().any(|edge| edge.other_node_name == "OrgA"));

    assert!(backend
        .revalidate_edge("chat_d75e", &valid_edge_id, plus(now, 1 * 60))
        .unwrap());
    let facts = backend
        .node_facts("chat_d75e", "Tama")
        .unwrap()
        .unwrap();
    let valid = works_at_valid(&facts);
    assert_eq!(valid.len(), 1);
    assert_eq!(valid[0].other_node_name, "OrgB");
    let invalid = works_at_invalid(&facts);
    assert_eq!(invalid.len(), 1);
    assert_eq!(invalid[0].other_node_name, "OrgA");

    let org_a_edge_id = invalid[0].edge_id.clone();
    assert!(backend
        .revalidate_edge("chat_d75e", &org_a_edge_id, plus(now, 2 * 60))
        .unwrap());
    let facts = backend
        .node_facts("chat_d75e", "Tama")
        .unwrap()
        .unwrap();
    let valid = works_at_valid(&facts);
    assert_eq!(valid.len(), 2, "re-validation never invalidates siblings");
    assert!(valid.iter().any(|edge| edge.other_node_name == "OrgA"));
    assert!(valid.iter().any(|edge| edge.other_node_name == "OrgB"));
}

#[test]
fn manual_ops_error_loudly_on_malformed_and_unknown_edge_ids() {
    let backend = Backend::new();
    let base = day("2026-08-07T10:00:00Z");
    let person = person_node("Tama", "2006", base);
    let org_a = org_node("OrgA", base);
    let batch = MemoryBatch {
        batch_id: identifiers::batch_id(10, 125),
        nodes: vec![person.clone(), org_a.clone()],
        edges: vec![works_at_edge(
            &person.id,
            &org_a.id,
            plus(base, 1),
            plus(base, 1),
        )],
    };
    backend
        .upsert_batch_with_registry("chat_d75f", &batch, &registry())
        .unwrap();
    let now = plus(base, 1 * 3600);

    for bad in ["not json", r#"{"source_id":"x"}"#] {
        for result in [
            backend
                .invalidate_edge("chat_d75f", bad, now)
                .map(|_| ()),
            backend
                .revalidate_edge("chat_d75f", bad, now)
                .map(|_| ()),
        ] {
            let error = result.expect_err("a malformed edge id must error loudly");
            assert!(
                error.message().contains("invalid edge id"),
                "unexpected error: {error:?}"
            );
        }
    }

    let unknown = EdgeId {
        source_id: person.id.clone(),
        relationship_name: "works_at".to_string(),
        target_id: org_a.id.clone(),
        valid_at: plus(base, 999),
    }
    .encode();
    for result in [
        backend
            .invalidate_edge("chat_d75f", &unknown, now)
            .map(|_| ()),
        backend
            .revalidate_edge("chat_d75f", &unknown, now)
            .map(|_| ()),
    ] {
        let error = result.expect_err("an unknown edge id must error loudly");
        assert!(
            error.message().contains("no edge matches"),
            "unexpected error: {error:?}"
        );
    }
}

#[test]
fn manual_ops_on_already_settled_edges_are_no_ops() {
    let backend = Backend::new();
    let base = day("2026-08-07T10:00:00Z");
    let (person, alias, known_as) = aliased_person("Tama", "2007", base);
    let org_a = org_node("OrgA", base);
    let org_b = org_node("OrgB", base);
    let batch = MemoryBatch {
        batch_id: identifiers::batch_id(10, 126),
        nodes: vec![person.clone(), alias, org_a.clone(), org_b.clone()],
        edges: vec![
            known_as,
            works_at_edge(
                &person.id,
                &org_a.id,
                plus(base, 1),
                plus(base, 1),
            ),
            works_at_edge(
                &person.id,
                &org_b.id,
                plus(base, 2),
                plus(base, 2),
            ),
        ],
    };
    backend
        .upsert_batch_with_registry("chat_d75g", &batch, &registry())
        .unwrap();
    let facts = backend
        .node_facts("chat_d75g", "Tama")
        .unwrap()
        .unwrap();
    let invalid = works_at_invalid(&facts);
    let valid = works_at_valid(&facts);
    assert_eq!(invalid.len(), 1);
    assert_eq!(valid.len(), 1);
    let invalid_edge_id = invalid[0].edge_id.clone();
    let invalid_invalid_at = invalid[0].invalid_at;
    let valid_edge_id = valid[0].edge_id.clone();
    let now = plus(base, 1 * 3600);

    assert!(!backend
        .invalidate_edge("chat_d75g", &invalid_edge_id, now)
        .unwrap());
    assert!(!backend
        .revalidate_edge("chat_d75g", &valid_edge_id, now)
        .unwrap());

    let facts = backend
        .node_facts("chat_d75g", "Tama")
        .unwrap()
        .unwrap();
    let invalid = works_at_invalid(&facts);
    assert_eq!(invalid.len(), 1);
    assert_eq!(invalid[0].invalid_at, invalid_invalid_at);
    assert_eq!(works_at_valid(&facts).len(), 1);
}

#[test]
fn node_facts_lists_both_directions_and_resolves_alias_names() {
    let backend = Backend::new();
    let base = day("2026-08-07T10:00:00Z");
    let person = person_node("Tama", "2008", base);
    let other = person_node("Koko", "2009", base);
    let org = org_node("OrgA", base);
    let grpo = org_node("GRPO", base);
    let alias = MemoryNode {
        id: identifiers::alias_id("tama"),
        name: "tama".to_string(),
        node_type: NodeType::Alias,
        created_at: base,
        updated_at: base,
        properties: None,
    };
    let batch = MemoryBatch {
        batch_id: identifiers::batch_id(10, 127),
        nodes: vec![
            person.clone(),
            other.clone(),
            org.clone(),
            grpo.clone(),
            alias.clone(),
        ],
        edges: vec![
            fact_edge(&person.id, &alias.id, "known_as", None, base),
            fact_edge(
                &person.id,
                &org.id,
                "works_at",
                None,
                plus(base, 1),
            ),
            fact_edge(
                &person.id,
                &grpo.id,
                "likes",
                None,
                plus(base, 2),
            ),
            fact_edge(
                &other.id,
                &person.id,
                "knows",
                None,
                plus(base, 3),
            ),
        ],
    };
    backend
        .upsert_batch_with_registry("chat_d75h", &batch, &registry())
        .unwrap();

    for name in ["Tama", "tama", "TAMA"] {
        let facts = backend
            .node_facts("chat_d75h", name)
            .unwrap()
            .unwrap_or_else(|| panic!("'{name}' must resolve"));
        assert_eq!(facts.node_id, person.id);
        assert_eq!(facts.node_name, "Tama");
        assert_eq!(facts.edges.len(), 4);
        let outgoing: Vec<&NodeFactEdge> = facts.edges.iter().filter(|e| e.outgoing).collect();
        assert_eq!(outgoing.len(), 3);
        let incoming: Vec<&NodeFactEdge> = facts.edges.iter().filter(|e| !e.outgoing).collect();
        assert_eq!(incoming.len(), 1);
        assert_eq!(incoming[0].relationship_name, "knows");
        assert_eq!(incoming[0].other_node_name, "Koko");
        let mut names: Vec<&str> = facts
            .edges
            .iter()
            .map(|e| e.other_node_name.as_str())
            .collect();
        names.sort_unstable();
        assert_eq!(names, vec!["GRPO", "Koko", "OrgA", "tama"]);
        for edge in &facts.edges {
            EdgeId::decode(&edge.edge_id).unwrap();
        }
    }

    assert_eq!(
        backend.node_facts("chat_d75h", "nobody").unwrap(),
        None
    );
}

fn single_value_merge_batch() -> (MemoryBatch, [MemoryNode; 4]) {
    let base = day("2026-08-07T10:00:00Z");
    let loser = concept_node("Loser", base);
    let survivor = concept_node("Survivor", base);
    let org_old = org_node("OrgOld", base);
    let org_new = org_node("OrgNew", base);
    let batch = MemoryBatch {
        batch_id: identifiers::batch_id(11, 130),
        nodes: vec![
            loser.clone(),
            survivor.clone(),
            org_old.clone(),
            org_new.clone(),
        ],
        edges: vec![
            works_at_edge(
                &loser.id,
                &org_old.id,
                plus(base, 1),
                plus(base, 1),
            ),
            works_at_edge(
                &survivor.id,
                &org_new.id,
                plus(base, 2),
                plus(base, 2),
            ),
        ],
    };
    (batch, [loser, survivor, org_old, org_new])
}

#[test]
fn merge_nodes_with_registry_enforces_the_single_value_invariant() {
    let backend = Backend::new();
    let (batch, [loser, survivor, org_old, org_new]) = single_value_merge_batch();
    backend.upsert_batch("chat_d75i", &batch).unwrap();

    let outcome = backend
        .merge_nodes_with_registry("chat_d75i", &loser.id, &survivor.id, &registry())
        .unwrap();
    assert_eq!(outcome.edges_moved, 1, "the loser works_at edge moves");
    assert_eq!(outcome.single_value_invalidated, 1);

    let valid = backend
        .count(
            "chat_d75i",
            &format!(
                "MATCH (s:Node {{id: '{}'}})-[r:EDGE]->() \
                 WHERE r.relationship_name = 'works_at' AND r.invalid_at IS NULL RETURN count(r)",
                survivor.id
            ),
        )
        .unwrap();
    assert_eq!(valid, 1);
    let kept = backend
        .query_rows(
            "chat_d75i",
            &format!(
                "MATCH (s:Node {{id: '{}'}})-[r:EDGE]->(t:Node) \
                 WHERE r.relationship_name = 'works_at' AND r.invalid_at IS NULL RETURN t.id",
                survivor.id
            ),
        )
        .unwrap();
    assert_eq!(kept, vec![vec![org_new.id.clone()]]);
    let invalidated = backend
        .query_rows(
            "chat_d75i",
            &format!(
                "MATCH (s:Node {{id: '{}'}})-[r:EDGE]->(t:Node) \
                 WHERE r.relationship_name = 'works_at' AND r.invalid_at IS NOT NULL RETURN t.id",
                survivor.id
            ),
        )
        .unwrap();
    assert_eq!(invalidated, vec![vec![org_old.id.clone()]]);
}

#[test]
fn merge_nodes_with_an_empty_registry_preserves_decision_74() {
    let backend = Backend::new();
    let (batch, [loser, survivor, _org_old, _org_new]) = single_value_merge_batch();
    backend.upsert_batch("chat_d75j", &batch).unwrap();

    let outcome = backend
        .merge_nodes("chat_d75j", &loser.id, &survivor.id)
        .unwrap();
    assert_eq!(outcome.edges_moved, 1);
    assert_eq!(outcome.single_value_invalidated, 0);
    let valid = backend
        .count(
            "chat_d75j",
            &format!(
                "MATCH (s:Node {{id: '{}'}})-[r:EDGE]->() \
                 WHERE r.relationship_name = 'works_at' AND r.invalid_at IS NULL RETURN count(r)",
                survivor.id
            ),
        )
        .unwrap();
    assert_eq!(valid, 2, "no invariant pass");
}

fn tiebreak_batch(base: Timestamp) -> (MemoryBatch, [MemoryNode; 4]) {
    let loser = concept_node("Loser", base);
    let survivor = concept_node("Survivor", base);
    let org_a = org_node("Aaa", base);
    let org_z = org_node("Zzz", base);
    let batch = MemoryBatch {
        batch_id: identifiers::batch_id(11, 131),
        nodes: vec![
            loser.clone(),
            survivor.clone(),
            org_a.clone(),
            org_z.clone(),
        ],
        edges: vec![
            works_at_edge(
                &loser.id,
                &org_z.id,
                plus(base, 1),
                plus(base, 1),
            ),
            works_at_edge(
                &survivor.id,
                &org_a.id,
                plus(base, 1),
                plus(base, 2),
            ),
        ],
    };
    (batch, [loser, survivor, org_a, org_z])
}

fn run_tiebreak_merge(chat_id: &str, base: Timestamp) -> (String, String, String) {
    let backend = Backend::new();
    let (batch, [loser, survivor, org_a, org_z]) = tiebreak_batch(base);
    backend.upsert_batch(chat_id, &batch).unwrap();
    let outcome = backend
        .merge_nodes_with_registry(chat_id, &loser.id, &survivor.id, &registry())
        .unwrap();
    assert_eq!(outcome.single_value_invalidated, 1);
    let kept = backend
        .query_rows(
            chat_id,
            &format!(
                "MATCH (s:Node {{id: '{}'}})-[r:EDGE]->(t:Node) \
                 WHERE r.relationship_name = 'works_at' AND r.invalid_at IS NULL RETURN t.id",
                survivor.id
            ),
        )
        .unwrap();
    assert_eq!(kept.len(), 1);
    (kept[0][0].clone(), org_a.id.clone(), org_z.id.clone())
}

#[test]
fn merge_invariant_tiebreak_keeps_the_smallest_edge_id_deterministically() {
    let base = day("2026-08-07T10:00:00Z");
    let (kept_first, org_a_id, org_z_id) = run_tiebreak_merge("chat_d75k1", base);
    let (kept_second, _, _) = run_tiebreak_merge("chat_d75k2", base);

    assert_eq!(kept_first, kept_second);
    let survivor_id = identifiers::concept_id("Survivor");
    let id_a = EdgeId {
        source_id: survivor_id.clone(),
        relationship_name: "works_at".to_string(),
        target_id: org_a_id.clone(),
        valid_at: plus(base, 1),
    }
    .encode();
    let id_z = EdgeId {
        source_id: survivor_id,
        relationship_name: "works_at".to_string(),
        target_id: org_z_id.clone(),
        valid_at: plus(base, 1),
    }
    .encode();
    let expected = if id_a < id_z { org_a_id } else { org_z_id };
    assert_eq!(kept_first, expected);
}

fn two_hop_batch() -> (MemoryBatch, [MemoryNode; 3]) {
    let base = day("2026-08-07T10:00:00Z");
    let a = concept_node("Alpha", base);
    let b = concept_node("Beta", base);
    let c = concept_node("Gamma", base);
    let edges = vec![
        fact_edge(&a.id, &b.id, "likes", None, plus(base, 1)),
        fact_edge(&b.id, &c.id, "likes", None, plus(base, 2)),
    ];
    let batch = MemoryBatch {
        batch_id: identifiers::batch_id(6, 100),
        nodes: vec![a.clone(), b.clone(), c.clone()],
        edges,
    };
    (batch, [a, b, c])
}

#[test]
fn two_hop_edges_surfaces_the_hop_two_edges_with_names_hydrated() {
    let backend = Backend::new();
    let (batch, [a, b, c]) = two_hop_batch();
    backend.upsert_batch("chat_d76a", &batch).unwrap();

    let now = day("2026-08-08T10:00:00Z");
    let candidates = backend
        .two_hop_edges(
            "chat_d76a",
            std::slice::from_ref(&a.id),
            now,
            NEIGHBOR_EXPANSION_LIMIT,
        )
        .unwrap();
    assert_eq!(candidates.len(), 2);
    assert_eq!(candidates[0].source_id, a.id);
    assert_eq!(candidates[0].source_name, "Alpha");
    assert_eq!(candidates[0].target_id, b.id);
    assert_eq!(candidates[0].target_name, "Beta");
    assert_eq!(candidates[1].source_id, b.id);
    assert_eq!(candidates[1].source_name, "Beta");
    assert_eq!(candidates[1].target_id, c.id);
    assert_eq!(candidates[1].target_name, "Gamma");
    assert_eq!(candidates[1].relationship_name, "likes");
    let key = EdgeId::decode(&candidates[1].edge_id).unwrap();
    assert_eq!(key.source_id, b.id);
    assert_eq!(key.target_id, c.id);
    assert_eq!(key.valid_at, candidates[1].valid_at);
}

#[test]
fn two_hop_edges_whitelist_excludes_contains_and_known_as_but_traverses_also_known_as() {
    let backend = Backend::new();
    let base = day("2026-08-07T10:00:00Z");
    let a = concept_node("Alpha", base);
    let n = concept_node("Nick", base);
    let x = concept_node("Xray", base);
    let b = concept_node("Beta", base);
    let y = concept_node("Yankee", base);
    let k = concept_node("Kilo", base);
    let z = concept_node("Zulu", base);
    let edges = vec![
        fact_edge(&a.id, &n.id, "known_as", None, plus(base, 1)),
        fact_edge(&n.id, &x.id, "likes", None, plus(base, 2)),
        fact_edge(&a.id, &b.id, "contains", None, plus(base, 3)),
        fact_edge(&b.id, &y.id, "likes", None, plus(base, 4)),
        fact_edge(
            &a.id,
            &k.id,
            "also_known_as",
            None,
            plus(base, 5),
        ),
        fact_edge(&k.id, &z.id, "likes", None, plus(base, 6)),
    ];
    let batch = MemoryBatch {
        batch_id: identifiers::batch_id(7, 110),
        nodes: vec![
            a.clone(),
            n.clone(),
            x.clone(),
            b.clone(),
            y.clone(),
            k.clone(),
            z.clone(),
        ],
        edges,
    };
    backend.upsert_batch("chat_d76b", &batch).unwrap();

    let now = day("2026-08-08T10:00:00Z");
    let candidates = backend
        .two_hop_edges(
            "chat_d76b",
            std::slice::from_ref(&a.id),
            now,
            NEIGHBOR_EXPANSION_LIMIT,
        )
        .unwrap();
    let relationships: Vec<&str> = candidates
        .iter()
        .map(|edge| edge.relationship_name.as_str())
        .collect();
    assert_eq!(relationships, vec!["also_known_as", "likes"]);
    assert_eq!(candidates[0].target_id, k.id);
    assert_eq!(candidates[1].source_id, k.id);
    assert_eq!(candidates[1].target_id, z.id);
}

fn two_hop_invalid_batch() -> (MemoryBatch, [MemoryNode; 5]) {
    let base = day("2026-08-07T10:00:00Z");
    let nodes: Vec<MemoryNode> = ["Alpha", "Beta", "Gamma", "Delta", "Echo"]
        .iter()
        .map(|name| concept_node(name, base))
        .collect();
    let [a, b, c, d, e]: [MemoryNode; 5] = nodes.try_into().unwrap();
    let edges = vec![
        fact_edge(&a.id, &b.id, "likes", None, plus(base, 1)),
        fact_edge(
            &b.id,
            &c.id,
            "likes",
            Some(plus(base, 10)),
            plus(base, 2),
        ),
        fact_edge(
            &a.id,
            &d.id,
            "likes",
            Some(plus(base, 10)),
            plus(base, 3),
        ),
        fact_edge(&d.id, &e.id, "likes", None, plus(base, 4)),
    ];
    let batch = MemoryBatch {
        batch_id: identifiers::batch_id(8, 120),
        nodes: vec![a.clone(), b.clone(), c.clone(), d.clone(), e.clone()],
        edges,
    };
    (batch, [a, b, c, d, e])
}

#[test]
fn two_hop_edges_excludes_invalid_edges_and_never_expands_through_them() {
    let backend = Backend::new();
    let (batch, [a, b, _c, _d, _e]) = two_hop_invalid_batch();
    backend.upsert_batch("chat_d76c", &batch).unwrap();

    let now = day("2026-08-08T10:00:00Z");
    let candidates = backend
        .two_hop_edges(
            "chat_d76c",
            std::slice::from_ref(&a.id),
            now,
            NEIGHBOR_EXPANSION_LIMIT,
        )
        .unwrap();
    assert_eq!(candidates.len(), 1);
    assert_eq!(candidates[0].source_id, a.id);
    assert_eq!(candidates[0].target_id, b.id);
}

#[test]
fn list_all_edges_returns_every_edge_valid_and_invalid() {
    let backend = Backend::new();
    let (batch, nodes) = two_hop_invalid_batch();
    let [a, b, c, d, e] = nodes;
    backend.upsert_batch("chat_d76d", &batch).unwrap();

    let listed = backend.list_all_edges("chat_d76d").unwrap();
    assert_eq!(listed.len(), 4);
    let mut keys: Vec<(String, String, String)> = listed
        .iter()
        .map(|(edge_id, edge_text)| {
            let key = EdgeId::decode(edge_id).unwrap();
            assert!(edge_text.contains("likes"));
            (key.source_id, key.relationship_name, key.target_id)
        })
        .collect();
    keys.sort();
    let mut expected: Vec<(String, String, String)> = vec![
        (a.id.clone(), "likes".to_string(), b.id.clone()),
        (b.id.clone(), "likes".to_string(), c.id.clone()),
        (a.id.clone(), "likes".to_string(), d.id.clone()),
        (d.id.clone(), "likes".to_string(), e.id.clone()),
    ];
    expected.sort();
    assert_eq!(keys, expected);
}

#[test]
fn two_hop_edges_truncates_per_node_at_both_hops() {
    let backend = Backend::new();
    let base = day("2026-08-07T10:00:00Z");
    let hub = concept_node("Hub", base);
    let mut nodes = vec![hub.clone()];
    let mut edges = Vec::new();
    for i in 0..3 {
        let target = concept_node(&format!("Hop1{i}"), base);
        edges.push(fact_edge(
            &hub.id,
            &target.id,
            "mentions",
            None,
            plus(base, i + 1),
        ));
        nodes.push(target);
    }
    let hop12 = identifiers::concept_id("Hop12");
    for j in 0..3 {
        let target = concept_node(&format!("Hop2{j}"), base);
        edges.push(fact_edge(
            &hop12,
            &target.id,
            "mentions",
            None,
            plus(base, 10 + j),
        ));
        nodes.push(target);
    }
    let batch = MemoryBatch {
        batch_id: identifiers::batch_id(9, 130),
        nodes,
        edges,
    };
    backend.upsert_batch("chat_d76e", &batch).unwrap();

    let now = day("2026-08-08T10:00:00Z");
    let candidates = backend
        .two_hop_edges("chat_d76e", std::slice::from_ref(&hub.id), now, 2)
        .unwrap();
    let targets: Vec<&str> = candidates
        .iter()
        .map(|edge| edge.target_name.as_str())
        .collect();
    assert_eq!(targets, vec!["Hop12", "Hop11", "Hop22", "Hop21"]);
    assert!(!candidates.iter().any(|edge| edge.target_name == "Hop20"));
}

#[test]
fn two_hop_edges_applies_the_ninety_day_window() {
    let backend = Backend::new();
    let old = day("2026-01-01T10:00:00Z");
    let recent = day("2026-08-20T10:00:00Z");
    let a = concept_node("Alpha", recent);
    let b = concept_node("Beta", recent);
    let c = concept_node("Gamma", recent);
    let d = concept_node("Delta", recent);
    let old_edge = fact_edge(&a.id, &b.id, "likes", None, old);
    let behind = fact_edge(&b.id, &c.id, "likes", None, recent);
    let revalidated = MemoryEdge {
        valid_at: old,
        ..fact_edge(&a.id, &d.id, "likes", None, recent)
    };
    let batch = MemoryBatch {
        batch_id: identifiers::batch_id(10, 140),
        nodes: vec![a.clone(), b.clone(), c.clone(), d.clone()],
        edges: vec![old_edge, behind, revalidated],
    };
    backend.upsert_batch("chat_d76f", &batch).unwrap();

    let now = day("2026-08-21T10:00:00Z");
    let candidates = backend
        .two_hop_edges(
            "chat_d76f",
            std::slice::from_ref(&a.id),
            now,
            NEIGHBOR_EXPANSION_LIMIT,
        )
        .unwrap();
    assert_eq!(candidates.len(), 1);
    assert_eq!(candidates[0].source_id, a.id);
    assert_eq!(candidates[0].target_id, d.id);
    assert_eq!(candidates[0].valid_at, old);
}

#[test]
fn two_hop_edges_with_an_empty_entry_list_is_empty() {
    let backend = Backend::new();
    let (batch, [_a, _b, _c]) = two_hop_batch();
    backend.upsert_batch("chat_d76g", &batch).unwrap();

    let now = day("2026-08-08T10:00:00Z");
    let candidates = backend
        .two_hop_edges("chat_d76g", &[], now, NEIGHBOR_EXPANSION_LIMIT)
        .unwrap();
    assert!(candidates.is_empty());
}

#[test]
fn edges_by_ids_hydrates_and_drops_stale_malformed_and_invalid_ids() {
    let backend = Backend::new();
    let base = day("2026-08-07T10:00:00Z");
    let a = concept_node("Alpha", base);
    let b = concept_node("Beta", base);
    let c = concept_node("Gamma", base);
    let valid_edge = fact_edge(&a.id, &b.id, "likes", None, base);
    let invalid_edge = fact_edge(
        &a.id,
        &c.id,
        "likes",
        Some(plus(base, 10)),
        plus(base, 1),
    );
    let valid_id = EdgeId {
        source_id: a.id.clone(),
        relationship_name: "likes".to_string(),
        target_id: b.id.clone(),
        valid_at: valid_edge.valid_at,
    }
    .encode();
    let invalid_id = EdgeId {
        source_id: a.id.clone(),
        relationship_name: "likes".to_string(),
        target_id: c.id.clone(),
        valid_at: invalid_edge.valid_at,
    }
    .encode();
    let stale_id = EdgeId {
        source_id: a.id.clone(),
        relationship_name: "likes".to_string(),
        target_id: identifiers::concept_id("Nobody"),
        valid_at: base,
    }
    .encode();
    let batch = MemoryBatch {
        batch_id: identifiers::batch_id(11, 150),
        nodes: vec![a.clone(), b.clone(), c.clone()],
        edges: vec![valid_edge, invalid_edge],
    };
    backend.upsert_batch("chat_d76h", &batch).unwrap();

    let ids = vec![
        valid_id.clone(),
        invalid_id,
        stale_id,
        "this is not an edge id".to_string(),
    ];
    let candidates = backend.edges_by_ids("chat_d76h", &ids).unwrap();
    assert_eq!(candidates.len(), 1);
    assert_eq!(candidates[0].edge_id, valid_id);
    assert_eq!(candidates[0].source_name, "Alpha");
    assert_eq!(candidates[0].target_name, "Beta");
    assert_eq!(candidates[0].edge_text, format!("{} likes {}", a.id, b.id));
}

#[test]
fn edges_by_ids_with_an_empty_id_list_is_empty() {
    let backend = Backend::new();
    let (batch, [_a, _b, _c]) = two_hop_batch();
    backend.upsert_batch("chat_d76i", &batch).unwrap();

    let candidates = backend.edges_by_ids("chat_d76i", &[]).unwrap();
    assert!(candidates.is_empty());
}
