//! What is recorded of the attempts to put a configuration in force.

use chan_sccp::config::convergence::{
    bounded_diagnostic, ConfigReconciliation, ConfigReconciliationObjectType,
    ConfigReconciliationOperation, ConfigReconciliationState, ConfigReconciliationStatus,
    ConfigReconciliationTrigger, MAX_DIAGNOSTIC_BYTES,
};

#[test]
fn starts_unavailable_and_records_terminal_generations() {
    let mut reconciliation = ConfigReconciliation::default();
    assert_eq!(
        reconciliation.status(),
        ConfigReconciliationStatus::default()
    );

    reconciliation
        .reconcile(ConfigReconciliationTrigger::startup(), || Ok(()))
        .unwrap();
    assert_eq!(
        reconciliation.status(),
        ConfigReconciliationStatus {
            generation: 1,
            state: ConfigReconciliationState::Converged,
            operation: Some(ConfigReconciliationOperation::Startup),
            object_type: None,
            object_id: None,
            diagnostic: None,
        }
    );

    let error = reconciliation
        .reconcile(
            ConfigReconciliationTrigger::mutation(
                ConfigReconciliationOperation::Update,
                ConfigReconciliationObjectType::Device,
                "SEP001122334455".into(),
            ),
            || Err("unknown line 9999".into()),
        )
        .unwrap_err();
    assert_eq!(error, "unknown line 9999");
    assert_eq!(
        reconciliation.status(),
        ConfigReconciliationStatus {
            generation: 2,
            state: ConfigReconciliationState::Failed,
            operation: Some(ConfigReconciliationOperation::Update),
            object_type: Some(ConfigReconciliationObjectType::Device),
            object_id: Some("SEP001122334455".into()),
            diagnostic: Some("unknown line 9999".into()),
        }
    );
}

#[test]
fn bounds_failure_diagnostics_on_utf8_boundaries() {
    let mut reconciliation = ConfigReconciliation::default();
    let diagnostic = "å".repeat(MAX_DIAGNOSTIC_BYTES);
    reconciliation
        .reconcile(ConfigReconciliationTrigger::reload(), || {
            Err(diagnostic.clone())
        })
        .unwrap_err();
    let stored = reconciliation.status().diagnostic.unwrap();
    assert!(stored.len() <= MAX_DIAGNOSTIC_BYTES);
    assert!(diagnostic.starts_with(&stored));

    assert_eq!(
        bounded_diagnostic("first\nsecond\tthird"),
        "first second third"
    );
}

#[test]
fn an_attempt_under_way_is_published_before_it_settles() {
    let mut reconciliation = ConfigReconciliation::default();
    reconciliation
        .begin(ConfigReconciliationTrigger::mutation(
            ConfigReconciliationOperation::Delete,
            ConfigReconciliationObjectType::Line,
            "1001".into(),
        ))
        .unwrap();
    let under_way = reconciliation.status();
    assert_eq!(under_way.generation, 1);
    assert_eq!(under_way.state, ConfigReconciliationState::Reconciling);
    assert_eq!(under_way.object_id.as_deref(), Some("1001"));
    let settled = reconciliation.settle(&Ok(()));
    assert_eq!(settled.state, ConfigReconciliationState::Converged);
    assert_eq!(settled.operation, Some(ConfigReconciliationOperation::Delete));
    assert_eq!(settled.diagnostic, None);
}

#[test]
fn a_diagnostic_that_fits_is_kept_whole() {
    assert_eq!(bounded_diagnostic(""), "");
    let fitting = "d".repeat(MAX_DIAGNOSTIC_BYTES);
    assert_eq!(bounded_diagnostic(&fitting), fitting);
    let longer = "d".repeat(MAX_DIAGNOSTIC_BYTES + 1);
    assert_eq!(bounded_diagnostic(&longer), fitting);
}
