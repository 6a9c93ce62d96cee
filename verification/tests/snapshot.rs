use attuned::axes::{canonical_axes, is_canonical_axis};
use attuned::snapshot::{Source, StateSnapshot, ValidationError};

#[test]
fn test_builder_builds_valid_snapshot() {
    let snapshot = StateSnapshot::builder()
        .user_id("user_123")
        .source(Source::SelfReport)
        .confidence(900)
        .axis("warmth", 700)
        .build()
        .unwrap();
    assert_eq!(snapshot.user_id, "user_123");
    assert_eq!(snapshot.source, Source::SelfReport);
    assert_eq!(snapshot.confidence_milli, 900);
    assert_eq!(snapshot.axes.len(), 1);
    assert_eq!(snapshot.axes[0].name, "warmth");
    assert_eq!(snapshot.axes[0].value_milli, 700);
}

#[test]
fn test_builder_defaults() {
    let snapshot = StateSnapshot::builder().user_id("u").build().unwrap();
    assert_eq!(snapshot.source, Source::SelfReport);
    assert_eq!(snapshot.confidence_milli, 1000);
    assert!(snapshot.axes.is_empty());
}

#[test]
fn test_build_at_records_timestamp() {
    let snapshot = StateSnapshot::builder()
        .user_id("u")
        .axis("humor", 300)
        .build_at(1_700_000_000_123)
        .unwrap();
    assert_eq!(snapshot.updated_at_unix_ms, 1_700_000_000_123);
}

#[test]
fn test_empty_user_id_rejected() {
    let result = StateSnapshot::builder().axis("warmth", 700).build();
    assert!(matches!(result, Err(ValidationError::EmptyUserId)));
}

#[test]
fn test_unknown_axis_rejected() {
    let result = StateSnapshot::builder()
        .user_id("u")
        .axis("charisma", 500)
        .build();
    match result {
        Err(ValidationError::UnknownAxis { name }) => assert_eq!(name, "charisma"),
        other => panic!("expected unknown-axis rejection, got {:?}", other),
    }
}

#[test]
fn test_out_of_range_axis_value_rejected() {
    let result = StateSnapshot::builder()
        .user_id("u")
        .axis("warmth", 1500)
        .build();
    match result {
        Err(ValidationError::AxisValueOutOfRange { name, value_milli }) => {
            assert_eq!(name, "warmth");
            assert_eq!(value_milli, 1500);
        }
        other => panic!("expected out-of-range rejection, got {:?}", other),
    }
}

#[test]
fn test_out_of_range_confidence_rejected() {
    let result = StateSnapshot::builder()
        .user_id("u")
        .confidence(1001)
        .axis("warmth", 700)
        .build();
    match result {
        Err(ValidationError::ConfidenceOutOfRange { value_milli }) => {
            assert_eq!(value_milli, 1001)
        }
        other => panic!("expected confidence rejection, got {:?}", other),
    }
}

#[test]
fn test_duplicate_axis_rejected_by_validate() {
    let snapshot = StateSnapshot {
        user_id: "u".to_string(),
        source: Source::SelfReport,
        confidence_milli: 1000,
        axes: vec![
            attuned::snapshot::AxisValue {
                name: "warmth".to_string(),
                value_milli: 100,
            },
            attuned::snapshot::AxisValue {
                name: "warmth".to_string(),
                value_milli: 200,
            },
        ],
        updated_at_unix_ms: 0,
    };
    match snapshot.validate() {
        Err(ValidationError::DuplicateAxis { name }) => assert_eq!(name, "warmth"),
        other => panic!("expected duplicate-axis rejection, got {:?}", other),
    }
}

#[test]
fn test_builder_axis_overwrites_same_name() {
    let snapshot = StateSnapshot::builder()
        .user_id("u")
        .axis("warmth", 100)
        .axis("humor", 300)
        .axis("warmth", 200)
        .build()
        .unwrap();
    assert_eq!(snapshot.axes.len(), 2);
    assert_eq!(snapshot.axes[0].name, "warmth");
    assert_eq!(snapshot.axes[0].value_milli, 200);
    assert_eq!(snapshot.axes[1].name, "humor");
    assert_eq!(snapshot.axes[1].value_milli, 300);
}

#[test]
fn test_boundary_values_accepted() {
    let snapshot = StateSnapshot::builder()
        .user_id("u")
        .confidence(0)
        .axis("warmth", 0)
        .axis("humor", 1000)
        .build()
        .unwrap();
    assert_eq!(snapshot.axes[0].value_milli, 0);
    assert_eq!(snapshot.axes[1].value_milli, 1000);
}

#[test]
fn test_canonical_axis_registry() {
    assert!(is_canonical_axis("warmth"));
    assert!(is_canonical_axis("formality"));
    assert!(!is_canonical_axis("charisma"));
    assert!(!is_canonical_axis(""));

    let names = canonical_axes();
    assert_eq!(names.len(), 8);
    assert_eq!(names[0], "warmth");
    assert!(names.iter().any(|n| n == "empathy"));
}

#[test]
fn test_source_labels() {
    assert_eq!(Source::SelfReport.label(), "self_report");
    assert_eq!(Source::Inferred.label(), "inferred");
    assert_eq!(Source::Mixed.label(), "mixed");
}

#[test]
fn test_snapshot_clone_preserves_fields() {
    let snapshot = StateSnapshot::builder()
        .user_id("u")
        .axis("warmth", 700)
        .build_at(42)
        .unwrap();
    let copy = snapshot.clone();
    assert_eq!(copy.user_id, snapshot.user_id);
    assert_eq!(copy.updated_at_unix_ms, 42);
    assert_eq!(copy.axes[0].name, "warmth");
    assert_eq!(copy.axes[0].value_milli, 700);
}
