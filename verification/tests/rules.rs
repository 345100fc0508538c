//! Rules of the library on single values.

use tamako::chat_id::names_directory;
use tamako::memory::batch::total_invalidated;
use tamako::memory::cypher::{self, GraphWrite};
use tamako::memory::groups::validate_chat_id as validate_memory_chat_id;
use tamako::memory::identifiers::{
    alias_id, batch_id, concept_id, fold_letter_digit_boundaries, normalize, person_id,
};
use tamako::memory::merge::{
    malformed_snapshot, next_merge, plan_merge, plan_rollback, start_merge,
    unserializable_snapshot, MergeNext, MergeState,
};
use tamako::memory::rows::{
    read_are_linked, read_edge_invalid_at, read_invalidated, read_snapshot_edges,
    read_snapshot_node,
};
use tamako::memory::single_value::{rank_edges, SingleValuePass};
use tamako::memory::transaction::Transaction;
use tamako::memory::types::{
    EdgeId, MemoryBatch, MemoryError, MergeSnapshotEdge, MergeSnapshotNode, NodeType,
    UpsertOutcome,
};
use tamako::memory::value::{value_to_string, GraphValue, LogicalType};
use tamako::persona::timezone::{format_offset_hm, ResolvedTimezone, TimezoneError};
use tamako::store::edge_texts::{escape_like, search_edge_texts, SEARCH_EDGE_TEXTS};
use tamako::store::embeddings::{blob_to_embedding, embedding_to_blob, EMBEDDING_DIM};
use tamako::store::error::{format_rfc3339, parse_rfc3339, StoreError};
use tamako::store::groups::{validate_chat_id, OpenGroups};
use tamako::store::log::{
    message_row, oldest_first, row_count, Direction, EventType, MessageRecord,
};
use tamako::store::reactions::{parse_emojis, serialize_emojis};
use tamako::store::related_pairs::{
    insert_related_pair, rewrite_related_pairs_loser, PairWrite, RelatedPairRow,
};
use tamako::store::schema::{migrations, pending_migrations};
use tamako::store::session_keys::{after_insert, after_lookup, mint_suffix, suffix_of, SuffixStep};
use tamako::store::state::{increment_counter, next_count};
use tamako::store::statement::{total_changed, SqlValue};
use tamako::text::{comes_before, i64_text, parse_i64, trim, u64_text};
use tamako::timestamp::Timestamp;

fn at(seconds: i64) -> Timestamp {
    Timestamp::from_unix_seconds(seconds).expect("a timestamp")
}

fn edge_id(valid_at: Timestamp) -> EdgeId {
    EdgeId {
        source_id: "s".to_string(),
        relationship_name: "likes".to_string(),
        target_id: "t".to_string(),
        valid_at,
    }
}

fn backend_text(error: MemoryError) -> String {
    match error {
        MemoryError::Backend(text) => text,
        other => panic!("expected Backend, got {other:?}"),
    }
}

// ----- texts -----

#[test]
fn numbers_read_back_from_their_texts() {
    for n in [0, 7, -7, 10, 12_345, i64::MAX, i64::MIN] {
        assert_eq!(i64_text(n), n.to_string());
        assert_eq!(parse_i64(&n.to_string()), Some(n));
    }
    assert_eq!(u64_text(u64::MAX), u64::MAX.to_string());
    assert_eq!(parse_i64("+5"), Some(5));
    assert_eq!(parse_i64("007"), Some(7));
    for bad in ["", "+", "-", " 1", "1 ", "1_000", "9223372036854775808", "abc", "0x1"] {
        assert_eq!(parse_i64(bad), bad.parse::<i64>().ok(), "{bad:?}");
    }
}

#[test]
fn texts_order_by_code_points() {
    for (a, b) in [("a", "b"), ("", "a"), ("a", "aa"), ("Z", "a"), ("é", "中"), ("n-10", "n-9")] {
        assert!(comes_before(a, b) && a < b, "{a:?} {b:?}");
        assert!(!comes_before(b, a));
    }
    assert!(!comes_before("same", "same"));
}

#[test]
fn trimming_drops_unicode_white_space() {
    for text in ["  a b\t\n", "\u{3000}x\u{a0}", "", " \u{2003} ", "a\u{200b}"] {
        assert_eq!(trim(text), text.trim());
    }
}

#[test]
fn chat_identifiers_name_directories() {
    for good in ["-1001234567890", "c1", "a.b", ".", "中"] {
        assert!(names_directory(good));
        assert!(validate_chat_id(good).is_ok());
        assert!(validate_memory_chat_id(good).is_ok());
    }
    for bad in ["", "..", "a/b", "a\\b", "a\0b", "a..b"] {
        assert!(!names_directory(bad));
        assert_eq!(validate_chat_id(bad), Err(StoreError::InvalidChatId(bad.to_string())));
        assert_eq!(
            validate_memory_chat_id(bad),
            Err(MemoryError::InvalidChatId(bad.to_string()))
        );
    }
}

// ----- timestamps -----

#[test]
fn timestamps_read_back_from_their_texts() {
    let cases = [
        ("2026-08-07T10:00:00Z", 1_786_096_800_000_000_000, 0),
        ("2026-08-07T10:00:00.123456789+08:00", 1_786_068_000_123_456_789, 28_800),
        ("1969-12-31T23:59:59.5Z", -500_000_000, 0),
    ];
    for (text, nanos, offset) in cases {
        let read = Timestamp::parse_rfc3339(text).expect("a timestamp");
        assert_eq!((read.get_unix_nanos(), read.get_offset_seconds()), (nanos, offset));
        assert_eq!(read.to_rfc3339().as_deref(), Some(text));
        assert_eq!(read.to_text(), text);
    }
    assert!(Timestamp::parse_rfc3339("yesterday").is_err());
}

#[test]
fn timestamps_compare_as_instants() {
    let a = Timestamp::parse_rfc3339("2026-08-07T10:00:00Z").expect("a");
    let b = Timestamp::parse_rfc3339("2026-08-07T18:00:00+08:00").expect("b");
    assert!(a.same_instant(&b));
    assert!(!a.later_than(&b));
    assert!(a.later_than(&a.minus_days(90).expect("earlier")));
    assert_eq!(
        a.minus_days(90).expect("earlier").to_text(),
        "2026-05-09T10:00:00Z"
    );
}

#[test]
fn timestamps_stop_at_the_representable_years() {
    assert!(Timestamp::new(i128::MAX, 0).is_none());
    assert!(Timestamp::new(0, 100_000).is_none());
    let last = Timestamp::new(253_402_300_799_999_999_999, 0).expect("the last moment");
    assert_eq!(last.to_text(), "9999-12-31T23:59:59.999999999Z");
    let before_zero = Timestamp::new(-62_167_219_200_000_000_001, 0).expect("year -1");
    assert_eq!(before_zero.to_rfc3339(), None);
    assert_eq!(before_zero.to_text(), "-0001-12-31 23:59:59.999999999 +00:00:00");
}

#[test]
fn a_timestamp_without_a_stored_form_names_the_component() {
    let text = |nanos: i128, offset: i32| {
        let moment = Timestamp::new(nanos, offset).expect("representable");
        match format_rfc3339(&moment) {
            Err(StoreError::Sqlite(detail)) => detail,
            other => panic!("expected Sqlite, got {other:?}"),
        }
    };
    assert_eq!(
        text(-62_167_219_200_000_000_001, 0),
        "The year component cannot be formatted into the requested format."
    );
    assert_eq!(
        text(0, 90_000),
        "The offset_hour component cannot be formatted into the requested format."
    );
    assert_eq!(
        text(0, 61),
        "The offset_second component cannot be formatted into the requested format."
    );
    for (nanos, offset) in [(-62_167_219_200_000_000_001, 0), (0, 90_000), (0, 61)] {
        let moment = time::OffsetDateTime::from_unix_timestamp_nanos(nanos)
            .expect("a moment")
            .to_offset(time::UtcOffset::from_whole_seconds(offset).expect("an offset"));
        let failure = moment
            .format(&time::format_description::well_known::Rfc3339)
            .expect_err("no RFC 3339 form");
        assert_eq!(text(nanos, offset), failure.to_string());
    }
    match parse_rfc3339("soon") {
        Err(StoreError::Sqlite(detail)) => {
            let failure = time::OffsetDateTime::parse(
                "soon",
                &time::format_description::well_known::Rfc3339,
            )
            .expect_err("no timestamp");
            assert_eq!(detail, conversion_failure(&failure.to_string()));
        }
        other => panic!("expected Sqlite, got {other:?}"),
    }
}

fn conversion_failure(detail: &str) -> String {
    rusqlite::Error::FromSqlConversionFailure(0, rusqlite::types::Type::Text, detail.into())
        .to_string()
}

// ----- persona -----

#[test]
fn offsets_are_spelled_with_sign_and_two_digits() {
    assert_eq!(format_offset_hm(0), "+00:00");
    assert_eq!(format_offset_hm(28_800), "+08:00");
    assert_eq!(format_offset_hm(-19_800), "-05:30");
    assert_eq!(format_offset_hm(-1_800), "-00:30");
}

#[test]
fn an_unknown_zone_is_quoted() {
    let error = ResolvedTimezone::from_config_value("Mars/\"Olympus\"").expect_err("unknown");
    assert_eq!(error, TimezoneError::UnknownName("Mars/\"Olympus\"".to_string()));
    assert_eq!(
        error.message(),
        "unknown timezone \"Mars/\\\"Olympus\\\"\": neither a ±HH:MM offset nor an IANA name"
    );
}

#[test]
fn a_zone_value_reads_back() {
    for value in ["+08:00", "-05:30", "Asia/Shanghai", "America/New_York"] {
        let zone = ResolvedTimezone::from_config_value(value).expect("a zone");
        assert_eq!(zone.config_value(), value);
        assert_eq!(ResolvedTimezone::from_config_value(&zone.config_value()), Ok(zone));
    }
}

#[test]
fn a_named_zone_follows_the_seasons() {
    let zone = ResolvedTimezone::from_config_value("America/New_York").expect("a zone");
    let winter = Timestamp::parse_rfc3339("2026-01-15T12:00:00Z").expect("winter");
    let summer = Timestamp::parse_rfc3339("2026-07-15T12:00:00Z").expect("summer");
    assert_eq!(zone.offset_at(&winter), -5 * 3600);
    assert_eq!(zone.offset_at(&summer), -4 * 3600);
}

// ----- identifiers -----

#[test]
fn identifiers_have_known_values() {
    assert_eq!(person_id("12345"), "653a86c8-df26-5c68-9135-e673cc3a6d6a");
    assert_eq!(alias_id("@Tama"), "eeb54ffa-4509-5571-a0e3-8fe0306ed589");
    assert_eq!(concept_id("tama"), "b38c3b82-d09f-56db-813e-ad941e19aacc");
    assert_eq!(batch_id(1, 50), "ad57780b-d7dc-54f1-99f9-a704fb4ca6ae");
    assert_eq!(alias_id("Qwen 3.8 27B"), "24b2c5ae-4b71-5f44-a1e5-b34d25768294");
    assert_eq!(alias_id("@Tama"), alias_id("ｔａｍａ"));
    assert_ne!(concept_id("tama"), alias_id("tama"));
    assert_ne!(batch_id(1, 50), batch_id(15, 0));
    for id in [person_id("1"), alias_id("x"), concept_id("x"), batch_id(1, 2)] {
        assert_eq!(id.as_bytes()[14], b'5', "a name-based identifier: {id}");
    }
}

#[test]
fn normalizing_is_idempotent() {
    for name in ["@Tama", "Qwen 3.8 27B", "  Graph   Database ", "version 3 8", "ＧＲＰＯ 2"] {
        let once = normalize(name);
        assert_eq!(normalize(&once), once);
    }
    assert_eq!(fold_letter_digit_boundaries("a 1 b 22 c"), "a1b22c");
    assert_eq!(fold_letter_digit_boundaries("a b 1 2"), "a b1 2");
}

// ----- edge identifiers -----

#[test]
fn edge_identifiers_read_back() {
    let id = EdgeId {
        source_id: "n\"1".to_string(),
        relationship_name: "works_at".to_string(),
        target_id: "中".to_string(),
        valid_at: Timestamp::parse_rfc3339("2026-08-07T10:00:00.5+08:00").expect("a time"),
    };
    let encoded = id.encode();
    assert_eq!(
        encoded,
        "{\"source_id\":\"n\\\"1\",\"relationship_name\":\"works_at\",\"target_id\":\"中\",\
         \"valid_at\":\"2026-08-07T10:00:00.5+08:00\"}"
    );
    assert_eq!(EdgeId::decode(&encoded), Ok(id));
}

#[test]
fn malformed_edge_identifiers_are_quoted() {
    let text = |encoded: &str| backend_text(EdgeId::decode(encoded).expect_err("malformed"));
    assert!(text("not json").starts_with("invalid edge id \"not json\": "));
    assert_eq!(
        text("[]"),
        "invalid edge id \"[]\": missing or non-string field source_id"
    );
    let no_relationship = "{\"source_id\":\"s\",\"relationship_name\":7}";
    assert!(text(no_relationship).ends_with("missing or non-string field relationship_name"));
    let no_target = "{\"source_id\":\"s\",\"relationship_name\":\"r\"}";
    assert!(text(no_target).ends_with("missing or non-string field target_id"));
    let no_time = "{\"source_id\":\"s\",\"relationship_name\":\"r\",\"target_id\":\"t\"}";
    assert!(text(no_time).ends_with("missing or non-string field valid_at"));
    let bad_time = "{\"source_id\":\"s\",\"relationship_name\":\"r\",\"target_id\":\"t\",\
                    \"valid_at\":\"soon\"}";
    assert!(text(bad_time).contains("unparseable valid_at \"soon\": "));
}

// ----- graph rows -----

#[test]
fn column_values_are_shown_as_text() {
    assert_eq!(value_to_string(&GraphValue::String("a".to_string())), "a");
    assert_eq!(value_to_string(&GraphValue::Int64(-5)), "-5");
    assert_eq!(value_to_string(&GraphValue::Timestamp(at(0))), "1970-01-01T00:00:00Z");
    assert_eq!(value_to_string(&GraphValue::Null(LogicalType::String)), "NULL");
}

#[test]
fn a_malformed_snapshot_row_is_an_error() {
    let row = vec![vec![GraphValue::Int64(1)]];
    assert_eq!(
        backend_text(read_snapshot_node("n1", &row).expect_err("a node row")),
        "merge snapshot: unexpected node row shape for n1"
    );
    assert_eq!(
        backend_text(read_snapshot_edges("n1", &row).expect_err("an edge row")),
        "merge snapshot: unexpected edge row shape for node n1"
    );
    assert_eq!(read_snapshot_node("n1", &Vec::new()), Ok(None));
    assert_eq!(read_snapshot_edges("n1", &Vec::new()), Ok(Vec::new()));
}

#[test]
fn unexpected_counts_and_validities_are_errors() {
    assert_eq!(read_are_linked(&vec![vec![GraphValue::Int64(2)]]), Ok(true));
    assert_eq!(read_are_linked(&vec![vec![GraphValue::Int64(0)]]), Ok(false));
    assert!(read_are_linked(&vec![vec![GraphValue::Bool(true)]]).is_err());
    assert_eq!(read_invalidated(&vec![vec![GraphValue::Int64(3)]], ""), Ok(3));
    assert!(read_invalidated(&Vec::new(), "None").is_err());
    assert_eq!(read_edge_invalid_at(&Vec::new(), ""), Ok(None));
    assert_eq!(
        read_edge_invalid_at(&vec![vec![GraphValue::Timestamp(at(5))]], ""),
        Ok(Some(Some(at(5))))
    );
    let odd = read_edge_invalid_at(&vec![vec![GraphValue::Int64(1)]], "Int64(1)");
    assert_eq!(
        backend_text(odd.expect_err("an odd shape")),
        "find_edge_invalid_at: unexpected invalid_at shape: Int64(1)"
    );
}

#[test]
fn node_types_read_back() {
    for kind in
        [NodeType::Person, NodeType::Alias, NodeType::Concept, NodeType::MessageBatch]
    {
        assert_eq!(NodeType::from_str(kind.as_str()), Some(kind));
    }
    assert_eq!(NodeType::from_str("person"), None);
}

// ----- merging -----

fn stored_edge(source: &str, rel: &str, target: &str, seconds: i64) -> MergeSnapshotEdge {
    MergeSnapshotEdge {
        source_id: source.to_string(),
        target_id: target.to_string(),
        relationship_name: rel.to_string(),
        valid_at: at(seconds),
        invalid_at: None,
        edge_text: format!("{source} {rel} {target}"),
        created_at: at(seconds),
        updated_at: at(seconds),
        properties: None,
    }
}

fn stored_node(id: &str) -> MergeSnapshotNode {
    MergeSnapshotNode {
        id: id.to_string(),
        kind: "Concept".to_string(),
        name: id.to_string(),
        created_at: at(1),
        updated_at: at(1),
        properties: None,
    }
}

#[test]
fn a_merge_plan_moves_drops_and_dedups() {
    let mut again = stored_edge("s", "likes", "x", 9);
    again.edge_text = "l likes x".to_string();
    let loser_edges = vec![
        stored_edge("l", "likes", "x", 1),
        stored_edge("l", "knows", "s", 2),
        stored_edge("y", "mentions", "l", 3),
    ];
    let plan = plan_merge("s", stored_node("l"), loser_edges, &vec![again], at(100));
    let done = &plan.done;
    assert_eq!((done.edges_moved, done.self_loops_dropped, done.edges_deduped), (1, 1, 1));
    assert_eq!(done.single_value_invalidated, 0);
    assert_eq!(done.snapshot.edges.len(), 3);
    assert_eq!(done.snapshot.created_edges.len(), 1);
    assert_eq!(done.snapshot.created_edges[0].target_id, "s");
    assert_eq!(done.snapshot.created_edges[0].source_id, "y");
    assert_eq!(done.snapshot.created_edges[0].valid_at, at(3));
    assert_eq!(
        plan.writes.last(),
        Some(&GraphWrite::DetachDeleteNode("l".to_string()))
    );
    let back = plan_rollback(done.snapshot.clone());
    assert_eq!(back.len(), 1 + 3 + 1);
    assert_eq!(back[0], GraphWrite::CreateNode(stored_node("l")));
    assert_eq!(back[4], GraphWrite::DeleteEdge(done.snapshot.created_edges[0].clone()));
}

#[test]
fn a_merge_refuses_equal_and_missing_nodes() {
    assert_eq!(
        backend_text(start_merge("n", "n").expect_err("the same node")),
        "merge_nodes: loser and survivor are the same node (n)"
    );
    let (state, query) = start_merge("l", "s").expect("a start");
    assert_eq!(query.cypher, cypher::SNAPSHOT_NODE);
    let none = Vec::new();
    let missing = next_merge("l", "s", &none, state, &Vec::new(), at(1)).expect_err("no loser");
    assert!(backend_text(missing).starts_with("merge_nodes: loser node l does not exist"));
    let (state, _) = start_merge("l", "s").expect("a start");
    let row = vec![vec![
        GraphValue::String("l".to_string()),
        GraphValue::String("Concept".to_string()),
        GraphValue::Timestamp(at(1)),
        GraphValue::Timestamp(at(1)),
        GraphValue::Null(LogicalType::String),
    ]];
    match next_merge("l", "s", &none, state, &row, at(1)).expect("a loser") {
        MergeNext::Ask { state, .. } => {
            let missing = next_merge("l", "s", &none, state, &Vec::new(), at(1));
            assert_eq!(
                backend_text(missing.expect_err("no survivor")),
                "merge_nodes: survivor node s does not exist"
            );
        }
        other => panic!("expected a read, got {other:?}"),
    }
}

#[test]
fn a_merge_writes_first_and_then_passes_over_its_relationships() {
    let names = vec!["works_at".to_string(), "works_at".to_string(), "lives_in".to_string()];
    let loser_edges = vec![stored_edge("l", "works_at", "x", 1)];
    let state = MergeState::SurvivorEdges { node: stored_node("l"), loser_edges };
    let next = next_merge("l", "s", &names, state, &Vec::new(), at(50)).expect("a plan");
    let (writes, state, query) = match next {
        MergeNext::WriteAndAsk { writes, state, query } => (writes, state, query),
        other => panic!("expected writes and a read, got {other:?}"),
    };
    assert_eq!(writes.len(), 3);
    assert_eq!(writes[2], GraphWrite::DetachDeleteNode("l".to_string()));
    assert_eq!(query.cypher, cypher::VALID_OUTGOING_EDGES);
    let rows = vec![
        vec![GraphValue::String("a".to_string()), GraphValue::Timestamp(at(1))],
        vec![GraphValue::String("b".to_string()), GraphValue::Timestamp(at(2))],
    ];
    let next = next_merge("l", "s", &names, state.clone(), &rows, at(50)).expect("a step");
    let (writes, last) = match next {
        MergeNext::WriteAndAsk { writes, state, .. } => (writes, state),
        other => panic!("expected writes and a read, got {other:?}"),
    };
    assert_eq!(writes.len(), 1);
    match next_merge("l", "s", &names, last, &Vec::new(), at(50)).expect("the end") {
        MergeNext::Finish { writes, done } => {
            assert!(writes.is_empty());
            assert_eq!((done.edges_moved, done.single_value_invalidated), (1, 1));
        }
        other => panic!("expected the end, got {other:?}"),
    }
    let odd = vec![vec![GraphValue::Bool(true)]];
    assert_eq!(
        backend_text(next_merge("l", "s", &names, state, &odd, at(50)).expect_err("a bad row")),
        "merge single-value pass: unexpected edge row shape for survivor s"
    );
}

#[test]
fn a_merge_without_single_value_relationships_ends_with_its_writes() {
    let state =
        MergeState::SurvivorEdges { node: stored_node("l"), loser_edges: Vec::new() };
    match next_merge("l", "s", &Vec::new(), state, &Vec::new(), at(50)).expect("a plan") {
        MergeNext::Finish { writes, done } => {
            assert_eq!(writes, vec![GraphWrite::DetachDeleteNode("l".to_string())]);
            assert_eq!(done.single_value_invalidated, 0);
        }
        other => panic!("expected the end, got {other:?}"),
    }
}

#[test]
fn counts_are_summed_while_they_fit() {
    assert_eq!(total_invalidated(&vec![1, 0, 4]), Some(5));
    assert_eq!(total_invalidated(&Vec::new()), Some(0));
    assert_eq!(total_invalidated(&vec![u32::MAX, 1]), None);
    assert_eq!(total_changed(&vec![2, 3]), Some(5));
    assert_eq!(total_changed(&vec![usize::MAX, 0, 1]), None);
}

#[test]
fn identifiers_carry_the_version_and_stay_apart() {
    for id in [person_id("tama"), alias_id("tama"), concept_id("tama"), batch_id(-1, 2)] {
        assert_eq!(id.as_bytes()[14], b'5');
    }
    assert_ne!(person_id("tama"), concept_id("tama"));
    assert_ne!(batch_id(1, 23), batch_id(12, 3));
    assert_ne!(batch_id(1, -23), batch_id(-1, 23));
}

#[test]
fn normal_forms_are_normal() {
    for text in ["@Qwen 3.8  27B ", "A\t@b", "", " x 1 y ", "GRAPH Database"] {
        let normal = normalize(text);
        assert_eq!(normalize(&normal), normal);
        assert_eq!(normalize(&text.to_ascii_uppercase()), normal);
        assert_eq!(normalize(&text.replace('@', "")), normal);
    }
    assert_eq!(normalize("@Qwen 3.8  27B "), "qwen3.8 27b");
}

#[test]
fn snapshot_failures_carry_their_details() {
    assert_eq!(
        backend_text(malformed_snapshot("eof")),
        "rollback_merge: malformed snapshot: eof"
    );
    assert_eq!(
        backend_text(unserializable_snapshot("eof")),
        "merge snapshot serialization failed: eof"
    );
}

#[test]
fn the_newest_edge_ranks_first_and_ties_go_by_target() {
    let mut newer = edge_id(at(20));
    newer.target_id = "z".to_string();
    let mut tied = edge_id(at(20));
    tied.target_id = "a".to_string();
    let ranked = rank_edges(vec![edge_id(at(10)), newer.clone(), tied.clone()]);
    assert_eq!(ranked[2], edge_id(at(10)));
    assert!(ranked[0] == newer || ranked[0] == tied);
    assert_eq!(rank_edges(vec![tied.clone(), edge_id(at(10)), newer.clone()])[0], ranked[0]);
}

#[test]
fn a_single_value_pass_looks_at_each_relationship_once() {
    let names = vec!["works_at".to_string(), "works_at".to_string(), "lives_in".to_string()];
    let mut pass = SingleValuePass::start("s", &names, at(50));
    let mut asked = 0;
    while let Some(query) = pass.query() {
        assert_eq!(query.cypher, cypher::VALID_OUTGOING_EDGES);
        asked += 1;
        let rows = vec![
            vec![GraphValue::String("a".to_string()), GraphValue::Timestamp(at(1))],
            vec![GraphValue::String("b".to_string()), GraphValue::Timestamp(at(2))],
        ];
        let step = pass.accept(&rows).expect("a step");
        assert_eq!(step.writes.len(), 1);
        assert_eq!(step.ranked[0].target_id, "b");
    }
    assert_eq!((asked, pass.invalidated), (2, 2));
    let mut odd = SingleValuePass::start("s", &names, at(50));
    assert!(odd.accept(&vec![vec![GraphValue::Bool(true)]]).is_err());
}

#[test]
fn a_transaction_commits_or_rolls_back() {
    let mut step = Transaction::Begin;
    let mut statements = Vec::new();
    while step != Transaction::Committed {
        statements.extend(step.statement());
        step = step.advance(true);
    }
    assert_eq!(statements, ["BEGIN TRANSACTION", "COMMIT", "CHECKPOINT"]);
    let failed = Transaction::Writes.advance(false);
    assert_eq!(failed.statement(), Some("ROLLBACK"));
    assert_eq!(failed.advance(true), Transaction::Failed);
}

#[test]
fn memory_defaults_are_empty() {
    let batch = MemoryBatch::default();
    assert!(batch.batch_id.is_empty() && batch.nodes.is_empty() && batch.edges.is_empty());
    assert_eq!(UpsertOutcome::default().invalidated, 0);
    assert_eq!(MemoryError::Io("disk".to_string()).message(), "io error: disk");
    assert_eq!(
        MemoryError::InvalidChatId("..".to_string()).message(),
        "invalid chat_id: .."
    );
    assert_eq!(MemoryError::Backend("x".to_string()).message(), "backend error: x");
}

// ----- store -----

#[test]
fn store_errors_have_messages() {
    assert_eq!(StoreError::Sqlite("x".to_string()).message(), "sqlite error: x");
    assert_eq!(StoreError::Io("x".to_string()).message(), "io error: x");
    assert_eq!(StoreError::InvalidChatId("x".to_string()).message(), "invalid chat_id: x");
    let invalid = StoreError::InvalidValue { key: "k".to_string(), value: "v".to_string() };
    assert_eq!(invalid.message(), "invalid stored value for key k: v");
    assert_eq!(
        StoreError::AmbiguousGroup(2).message(),
        "single-group helpers take no chat_id and need exactly one open group on this Store, found 2"
    );
    assert_eq!(
        StoreError::SchemaFromTheFuture { found: 99, known: 13 }.message(),
        "database schema version 99 exceeds this binary's known maximum 13: the store.db was \
         written by a NEWER tamako; run that binary (or upgrade) instead of opening it with an \
         older one"
    );
}

#[test]
fn open_groups_are_counted_once() {
    let none = OpenGroups::new();
    assert_eq!(none.single_group(), Err(StoreError::AmbiguousGroup(0)));
    let (one, opened) = none.open_group("c1");
    assert!(opened.is_ok());
    let (one, opened) = one.open_group("c1");
    assert!(opened.is_ok());
    assert_eq!(one.single_group(), Ok("c1".to_string()));
    let (still_one, refused) = one.open_group("../evil");
    assert_eq!(refused, Err(StoreError::InvalidChatId("../evil".to_string())));
    assert!(still_one.is_open("c1") && !still_one.is_open("../evil"));
    let (two, _) = still_one.open_group("c2");
    assert_eq!(two.single_group(), Err(StoreError::AmbiguousGroup(2)));
}

#[test]
fn counters_start_at_zero_and_report_overflow() {
    assert_eq!(next_count("k", &None, 5), Ok(5));
    assert_eq!(next_count("k", &Some("-7".to_string()), 5), Ok(-2));
    assert_eq!(
        next_count("k", &Some("nine".to_string()), 1),
        Err(StoreError::InvalidValue { key: "k".to_string(), value: "nine".to_string() })
    );
    assert_eq!(
        next_count("k", &Some(i64::MAX.to_string()), 1),
        Err(StoreError::InvalidValue {
            key: "k".to_string(),
            value: "9223372036854775807 (overflow on +1)".to_string(),
        })
    );
    let (next, statement) =
        increment_counter("k", &Some("41".to_string()), 1, &at(0)).expect("a step");
    assert_eq!(next, 42);
    assert_eq!(statement.params[1], SqlValue::Text("42".to_string()));
}

#[test]
fn pending_migrations_are_those_that_were_not_applied() {
    let all = migrations();
    assert_eq!(all.len(), 13);
    for (index, migration) in all.iter().enumerate() {
        assert_eq!(migration.version as usize, index + 1);
    }
    let versions = |applied: &Vec<u32>| -> Vec<u32> {
        pending_migrations(applied)
            .expect("a known schema")
            .iter()
            .map(|migration| migration.version)
            .collect()
    };
    assert_eq!(versions(&vec![1, 2, 4, 5, 6, 7, 8, 9, 10, 11]), [3, 12, 13]);
    assert_eq!(versions(&Vec::new()).len(), 13);
    assert!(versions(&(1..=13).collect()).is_empty());
    match pending_migrations(&vec![1, 20, 15]) {
        Err(StoreError::SchemaFromTheFuture { found, known }) => {
            assert_eq!((found, known), (20, 13));
        }
        other => panic!("expected SchemaFromTheFuture, got {other:?}"),
    }
}

#[test]
fn stored_rows_that_do_not_convert_are_errors() {
    let record = |direction: &str, event_type: &str, timestamp: &str| MessageRecord {
        id: 1,
        platform_msg_id: "m1".to_string(),
        direction: direction.to_string(),
        event_type: event_type.to_string(),
        timestamp: timestamp.to_string(),
        sender_id: "u1".to_string(),
        sender_display_name: "Alice".to_string(),
        sender_username: None,
        text: "hello".to_string(),
        reply_to_platform_msg_id: None,
        mentions_bot: false,
        is_reply_to_bot: true,
    };
    let good = message_row(record("outbound", "edit", "2026-08-07T10:00:00Z")).expect("a row");
    assert_eq!((good.direction, good.event_type), (Direction::Outbound, EventType::Edit));
    assert!(good.is_reply_to_bot);
    let detail = |record: MessageRecord| match message_row(record) {
        Err(StoreError::Sqlite(detail)) => detail,
        other => panic!("expected Sqlite, got {other:?}"),
    };
    assert_eq!(
        detail(record("sideways", "nothing", "soon")),
        conversion_failure("unknown direction: sideways")
    );
    assert_eq!(
        detail(record("inbound", "nothing", "soon")),
        "Conversion error from type Text at index: 0, unknown event_type: nothing"
    );
    assert!(detail(record("inbound", "message", "soon"))
        .starts_with("Conversion error from type Text at index: 0, "));
}

#[test]
fn counted_rows_saturate() {
    assert_eq!(row_count(7), 7);
    assert_eq!(row_count(i64::from(u32::MAX) + 1), u32::MAX);
    assert_eq!(row_count(-1), u32::MAX);
    assert_eq!(oldest_first(vec![3, 2, 1]), [1, 2, 3]);
    assert_eq!(oldest_first(Vec::<i64>::new()), Vec::<i64>::new());
}

#[test]
fn emojis_read_back() {
    let emojis = vec!["👍".to_string(), "a\"b".to_string(), String::new()];
    assert_eq!(serialize_emojis(&emojis), "[\"👍\",\"a\\\"b\",\"\"]");
    assert_eq!(parse_emojis(&serialize_emojis(&emojis)), Ok(emojis));
    assert_eq!(parse_emojis("[]"), Ok(Vec::new()));
    match parse_emojis("{}") {
        Err(StoreError::Sqlite(detail)) => {
            assert!(detail.starts_with("Conversion error from type Text at index: 0, "));
        }
        other => panic!("expected Sqlite, got {other:?}"),
    }
}

#[test]
fn session_suffixes_are_url_safe() {
    assert_eq!(suffix_of(&[0; 12]), "AAAAAAAAAAAAAAAA");
    assert_eq!(suffix_of(&[255; 12]), "________________");
    assert_eq!(suffix_of(&[251, 239, 190, 0, 0, 0, 0, 0, 0, 0, 0, 1]), "----AAAAAAAAAAAB");
    let minted = mint_suffix();
    assert_eq!(minted.len(), 16);
    assert_ne!(minted, mint_suffix());
    assert!(minted.chars().all(|c| c.is_ascii_alphanumeric() || c == '-' || c == '_'));
}

#[test]
fn a_stored_suffix_is_the_answer() {
    let found = after_lookup("c1", "reply", Some("kept".to_string()), "minted", &at(0));
    assert_eq!(found, Ok(SuffixStep::Found("kept".to_string())));
    match after_lookup("c1", "reply", None, "minted", &at(0)).expect("a step") {
        SuffixStep::Insert(statement) => {
            assert_eq!(statement.params[2], SqlValue::Text("minted".to_string()));
        }
        other => panic!("expected an insert, got {other:?}"),
    }
    assert_eq!(after_insert(Some("first".to_string())), Ok("first".to_string()));
    assert_eq!(
        after_insert(None),
        Err(StoreError::Sqlite(rusqlite::Error::QueryReturnedNoRows.to_string()))
    );
}

#[test]
fn vectors_read_back_bit_for_bit() {
    let mut vector = vec![0u32; EMBEDDING_DIM];
    vector[0] = 1.0f32.to_bits();
    vector[1] = 0x0403_0201;
    vector[EMBEDDING_DIM - 1] = f32::NAN.to_bits();
    let blob = embedding_to_blob(&vector).expect("a blob");
    assert_eq!(&blob[..8], &[0, 0, 128, 63, 1, 2, 3, 4]);
    assert_eq!(&blob[..4], &1.0f32.to_le_bytes());
    assert_eq!(blob_to_embedding(&blob), Ok(vector));
    assert_eq!(
        embedding_to_blob(&[1, 2, 3]),
        Err(StoreError::InvalidValue {
            key: "embedding_dim".to_string(),
            value: "expected 3072, got 3".to_string(),
        })
    );
    assert_eq!(
        blob_to_embedding(&[1, 2, 3]),
        Err(StoreError::InvalidValue {
            key: "embedding_blob".to_string(),
            value: "expected 12288 bytes, got 3".to_string(),
        })
    );
}

#[test]
fn search_terms_are_escaped() {
    assert_eq!(escape_like("50%_\\"), "50\\%\\_\\\\");
    assert_eq!(escape_like("咖啡"), "咖啡");
    let statement = search_edge_texts("a_b").expect("a search");
    assert_eq!(statement.sql, SEARCH_EDGE_TEXTS);
    assert_eq!(
        statement.params,
        vec![SqlValue::Text("%a\\_b%".to_string()), SqlValue::Text("a_b".to_string())]
    );
    assert!(search_edge_texts(" \u{3000}\n").is_none());
}

fn pair(id: i64, a: &str, b: &str, reason: &str) -> RelatedPairRow {
    RelatedPairRow {
        id,
        node_a_id: a.to_string(),
        node_b_id: b.to_string(),
        reason: reason.to_string(),
        confirmed_by: "operator".to_string(),
        status: "dismissed".to_string(),
        created_at: "2026-08-16T00:00:00Z".to_string(),
    }
}

#[test]
fn pairs_of_a_merged_node_move_to_the_survivor() {
    let rows = vec![pair(1, "l", "x", "moves"), pair(2, "a", "l", "turns"), pair(3, "l", "s", "drops")];
    let writes = rewrite_related_pairs_loser(&rows, "l", "s");
    assert_eq!(writes.len(), 3);
    match &writes[0] {
        PairWrite::Move { node_a_id, node_b_id, reason, status, .. } => {
            assert_eq!((node_a_id.as_str(), node_b_id.as_str()), ("s", "x"));
            assert_eq!((reason.as_str(), status.as_str()), ("moves", "dismissed"));
        }
        other => panic!("expected a move, got {other:?}"),
    }
    match &writes[1] {
        PairWrite::Move { node_a_id, node_b_id, .. } => {
            assert_eq!((node_a_id.as_str(), node_b_id.as_str()), ("a", "s"));
        }
        other => panic!("expected a move, got {other:?}"),
    }
    assert_eq!(writes[2], PairWrite::Forget { node_id: "l".to_string() });
}

#[test]
fn a_confirmed_pair_is_stored_in_order() {
    let forth = insert_related_pair("n-b", "n-a", "r", "operator", &at(0)).expect("a pair");
    let back = insert_related_pair("n-a", "n-b", "r", "operator", &at(0)).expect("a pair");
    assert_eq!(forth, back);
    let statement = forth.to_statement();
    assert_eq!(statement.params[0], SqlValue::Text("n-a".to_string()));
    assert_eq!(statement.params[1], SqlValue::Text("n-b".to_string()));
    assert_eq!(statement.params[4], SqlValue::Text("1970-01-01T00:00:00Z".to_string()));
}
