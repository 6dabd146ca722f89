use ait_application::progress::{
    ProgressEvent, ProgressIdentity, ProgressProjection, ProjectedItem, WorkspaceOperation,
    MAX_OPERATION_PATHS, MAX_OPERATION_PATH_BYTES, MAX_OPERATION_TEXT_BYTES,
    MAX_PROGRESS_CHECKPOINT_BYTES, MAX_PROJECTED_ITEMS,
};
use ait_application::text::{bounded, bounded_to, MAX_IDENTIFIER_BYTES, MAX_LIVE_MESSAGE_BYTES};

#[test]
fn live_projection_limits_text_on_a_utf8_boundary() {
    let oversized = "界".repeat(MAX_LIVE_MESSAGE_BYTES / 3 + 2);
    let bounded = bounded(oversized);

    assert!(bounded.len() <= MAX_LIVE_MESSAGE_BYTES);
    assert!(bounded.is_char_boundary(bounded.len()));
    assert_eq!(bounded_to("界".into(), 2), "");
}

#[test]
fn live_projection_evicts_the_oldest_item() {
    let mut projection = ProgressProjection::default();
    for index in 0..=MAX_PROJECTED_ITEMS {
        let id = format!("item-{index}");
        projection.insert_item(
            id,
            ProjectedItem::Message {
                phase: None,
                text: String::new(),
                completed: false,
            },
        );
    }

    assert_eq!(projection.item_ids().len(), MAX_PROJECTED_ITEMS);
    assert!(!projection.item_ids().iter().any(|id| id == "item-0"));
    assert!(projection.item("item-0").is_none());
    assert_eq!(
        projection.item_ids().first().map(String::as_str),
        Some("item-1")
    );
}

#[test]
fn one_run_checkpoint_has_a_total_budget_and_bounds_operation_fields() {
    let identity = ProgressIdentity {
        run: "run".into(),
        project: "project".into(),
        session: Some("session".into()),
    };
    let mut projection = ProgressProjection::default();
    for index in 0..32 {
        projection.seq += 1;
        projection.apply(ProgressEvent::OperationCompleted(WorkspaceOperation {
            id: format!("operation-{index}-{}", "i".repeat(512)),
            kind: "k".repeat(512),
            status: "s".repeat(512),
            title: "t".repeat(MAX_OPERATION_TEXT_BYTES * 2),
            summary: Some("s".repeat(MAX_OPERATION_TEXT_BYTES * 2)),
            detail: Some("d".repeat(MAX_OPERATION_TEXT_BYTES * 2)),
            paths: (0..MAX_OPERATION_PATHS * 2)
                .map(|path| format!("{path}-{}", "p".repeat(MAX_OPERATION_PATH_BYTES * 2)))
                .collect(),
        }));
        projection.enforce_budget(&identity);
    }

    let bytes = projection.checkpoint(&identity);
    assert!(bytes.len() <= MAX_PROGRESS_CHECKPOINT_BYTES);
    let checkpoint: serde_json::Value = serde_json::from_slice(&bytes).unwrap();
    assert_eq!(serde_json::to_vec(&checkpoint).unwrap().len(), bytes.len());
    assert_eq!(checkpoint["truncated"], true);
    assert!(checkpoint["dropped_items"].as_u64().unwrap() > 0);
    let operation = &checkpoint["items"].as_array().unwrap()[0]["operation"];
    assert!(operation["id"].as_str().unwrap().len() <= MAX_IDENTIFIER_BYTES);
    assert!(operation["detail"].as_str().unwrap().len() <= MAX_OPERATION_TEXT_BYTES);
    assert!(operation["paths"].as_array().unwrap().len() <= MAX_OPERATION_PATHS);
}

#[test]
fn checkpoint_matches_the_serde_json_encoding_of_its_value() {
    let identity = ProgressIdentity {
        run: "r\"1".into(),
        project: "p\n".into(),
        session: None,
    };
    let mut projection = ProgressProjection::with_status("running".into());
    projection.apply(ProgressEvent::MessageStarted {
        id: "m1".into(),
        phase: Some("commentary".into()),
        text: "héllo \u{1}".into(),
    });
    projection.apply(ProgressEvent::Warning {
        message: "slow\t".into(),
        retrying: true,
        code: None,
    });
    let bytes = projection.encode_checkpoint(&identity, 42);
    let value: serde_json::Value = serde_json::from_slice(&bytes).unwrap();
    assert_eq!(serde_json::to_vec(&value).unwrap(), bytes);
    assert_eq!(value["updated_at"], 42);
    assert_eq!(value["run_id"], "r\"1");
    assert_eq!(value["session_id"], serde_json::Value::Null);
    assert_eq!(value["items"][0]["text"], "héllo \u{1}");
    assert_eq!(value["warnings"][0]["retrying"], true);
    assert_eq!(value["truncated"], false);
}

#[test]
fn text_deltas_stop_at_the_live_message_budget() {
    let mut projection = ProgressProjection::default();
    projection.apply(ProgressEvent::TextDelta {
        id: "m".into(),
        delta: "a".repeat(MAX_LIVE_MESSAGE_BYTES - 1),
    });
    projection.apply(ProgressEvent::TextDelta {
        id: "m".into(),
        delta: "界".into(),
    });
    match projection.item("m") {
        Some(ProjectedItem::Message { text, .. }) => {
            assert_eq!(text.len(), MAX_LIVE_MESSAGE_BYTES - 1);
        }
        _ => panic!("message expected"),
    }
}

#[test]
fn warnings_keep_the_newest_and_count_the_dropped() {
    let mut projection = ProgressProjection::default();
    for index in 0..10 {
        projection.apply(ProgressEvent::Warning {
            message: format!("w{index}"),
            retrying: false,
            code: Some("c".into()),
        });
    }
    assert_eq!(projection.warning_count(), 8);
    assert_eq!(projection.dropped_warnings(), 2);
}

#[test]
fn turn_status_is_bounded_and_recorded() {
    let mut projection = ProgressProjection::default();
    projection.apply(ProgressEvent::TurnStatus {
        status: "x".repeat(MAX_IDENTIFIER_BYTES + 10),
        error: None,
    });
    assert_eq!(projection.status().len(), MAX_IDENTIFIER_BYTES);
}

#[test]
fn message_text_stays_bounded_across_deltas() {
    let mut projection = ProgressProjection::default();
    let chunk = "界".repeat(100_000);
    for _ in 0..6 {
        projection.apply(ProgressEvent::TextDelta {
            id: "m".into(),
            delta: chunk.clone(),
        });
    }
    match projection.item("m") {
        Some(ProjectedItem::Message { text, .. }) => {
            assert!(text.len() <= MAX_LIVE_MESSAGE_BYTES);
            assert!(text.len() > MAX_LIVE_MESSAGE_BYTES - 3);
        }
        other => panic!("unexpected item {other:?}"),
    }
}
