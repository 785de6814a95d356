//! What is out of order in the stored work, and how it is reported.
use vstd::prelude::*;
use crate::admin::query;
use crate::admin::topic_metrics;
use crate::digest;
use crate::digest::hash_bytes;
use crate::duration;
use crate::duration::Duration;
use crate::error;
use crate::error::{DurableError, ErrorModel};
use crate::ids::{ActivityId, WorkflowId};
use crate::numerals;
use crate::numerals::hex16;
use crate::readiness::ReadinessReport;
use crate::schedule::registry::ScheduleDefinitionMetadata;
use crate::text;
use crate::text::contains_text;

verus! {

/// The most alerts of one kind that a report may hold.
pub const MAX_HEALTH_ALERTS_PER_KIND: u32 = 100;

/// What a health scan looks for.
#[derive(Debug, Clone, Copy, PartialEq, Eq)]
pub struct HealthScannerConfig {
    pub stale_after: Duration,
    pub max_alerts_per_kind: u32,
}

impl Default for HealthScannerConfig {
    fn default() -> (config: Self)
        ensures
            config.stale_after@ == 300_000_000_000,
            config.max_alerts_per_kind == 25,
    {
        HealthScannerConfig { stale_after: Duration::from_secs(300), max_alerts_per_kind: 25 }
    }
}

/// Whether the bounds of a scan are allowed.
pub open spec fn valid_scanner(config: HealthScannerConfig) -> bool {
    config.stale_after@ > 0 && 1 <= config.max_alerts_per_kind <= MAX_HEALTH_ALERTS_PER_KIND
}

impl HealthScannerConfig {
    /// Refuses a stale duration of zero and a number of alerts out of bounds.
    pub fn validate(&self) -> (result: Result<(), DurableError>)
        ensures
            error::result_model(result) == (if valid_scanner(*self) {
                Ok(())
            } else {
                Err(
                    ErrorModel::InvalidDefinition(
                        "health scanner bounds require a non-zero stale duration and 1 to 100 alerts per kind"@,
                    ),
                )
            }),
    {
        if self.stale_after.is_zero() || self.max_alerts_per_kind == 0 || self.max_alerts_per_kind
            > MAX_HEALTH_ALERTS_PER_KIND {
            return Err(
                error::invalid_definition(
                    "health scanner bounds require a non-zero stale duration and 1 to 100 alerts per kind",
                ),
            );
        }
        Ok(())
    }

    /// The time before which a lease must have expired for its holder to be
    /// stale.
    pub fn stale_before(&self, captured_at: i64) -> (result: Result<i64, DurableError>)
        ensures
            match result {
                Ok(before) => {
                    let millis = duration::whole_millis(self.stale_after@);
                    &&& millis <= i64::MAX
                    &&& before == (if captured_at - millis < i64::MIN {
                        i64::MIN as int
                    } else {
                        captured_at - millis
                    })
                },
                Err(error) => {
                    &&& duration::whole_millis(self.stale_after@) > i64::MAX
                    &&& error@ == ErrorModel::InvalidDefinition(
                        "health scanner stale duration exceeds the database range"@,
                    )
                },
            },
    {
        let millis: u128 = self.stale_after.as_millis();
        if millis > i64::MAX as u128 {
            return Err(
                error::invalid_definition(
                    "health scanner stale duration exceeds the database range",
                ),
            );
        }
        match captured_at.checked_sub(millis as i64) {
            Some(before) => Ok(before),
            None => Ok(i64::MIN),
        }
    }
}

/// Something that is out of order.
#[derive(Debug, Clone, PartialEq, Eq)]
pub enum HealthAlert {
    MissingWorkflowDefinition { kind: String, version: i32 },
    MissingActivityDefinition { kind: String, version: i32 },
    MissingTopic { topic: String },
    ActivationExhausted { workflow_id: WorkflowId, kind: String, version: i32 },
    ActivityDeadLettered {
        activity_id: ActivityId,
        workflow_id: WorkflowId,
        kind: String,
        version: i32,
        topic: String,
    },
    StaleWorkflow { workflow_id: WorkflowId, kind: String, version: i32 },
    StaleActivity {
        activity_id: ActivityId,
        workflow_id: WorkflowId,
        kind: String,
        version: i32,
        topic: String,
    },
}

/// The mathematical content of a [`HealthAlert`].
#[verifier::ext_equal]
pub enum AlertModel {
    MissingWorkflowDefinition { kind: Seq<char>, version: i32 },
    MissingActivityDefinition { kind: Seq<char>, version: i32 },
    MissingTopic { topic: Seq<char> },
    ActivationExhausted { workflow_id: int, kind: Seq<char>, version: i32 },
    ActivityDeadLettered {
        activity_id: int,
        workflow_id: int,
        kind: Seq<char>,
        version: i32,
        topic: Seq<char>,
    },
    StaleWorkflow { workflow_id: int, kind: Seq<char>, version: i32 },
    StaleActivity {
        activity_id: int,
        workflow_id: int,
        kind: Seq<char>,
        version: i32,
        topic: Seq<char>,
    },
}

impl View for HealthAlert {
    type V = AlertModel;

    open spec fn view(&self) -> AlertModel {
        match self {
            HealthAlert::MissingWorkflowDefinition {
                kind,
                version,
            } => AlertModel::MissingWorkflowDefinition { kind: kind@, version: *version },
            HealthAlert::MissingActivityDefinition {
                kind,
                version,
            } => AlertModel::MissingActivityDefinition { kind: kind@, version: *version },
            HealthAlert::MissingTopic { topic } => AlertModel::MissingTopic { topic: topic@ },
            HealthAlert::ActivationExhausted {
                workflow_id,
                kind,
                version,
            } => AlertModel::ActivationExhausted {
                workflow_id: workflow_id@,
                kind: kind@,
                version: *version,
            },
            HealthAlert::ActivityDeadLettered {
                activity_id,
                workflow_id,
                kind,
                version,
                topic,
            } => AlertModel::ActivityDeadLettered {
                activity_id: activity_id@,
                workflow_id: workflow_id@,
                kind: kind@,
                version: *version,
                topic: topic@,
            },
            HealthAlert::StaleWorkflow {
                workflow_id,
                kind,
                version,
            } => AlertModel::StaleWorkflow {
                workflow_id: workflow_id@,
                kind: kind@,
                version: *version,
            },
            HealthAlert::StaleActivity {
                activity_id,
                workflow_id,
                kind,
                version,
                topic,
            } => AlertModel::StaleActivity {
                activity_id: activity_id@,
                workflow_id: workflow_id@,
                kind: kind@,
                version: *version,
                topic: topic@,
            },
        }
    }
}

/// The contents of some alerts.
pub open spec fn alert_models(alerts: Seq<HealthAlert>) -> Seq<AlertModel> {
    Seq::new(alerts.len(), |i: int| alerts[i]@)
}

/// The alerts of one health scan.
#[derive(Debug, Clone, PartialEq, Eq)]
pub struct HealthScanReport {
    pub captured_at: i64,
    pub alerts: Vec<HealthAlert>,
}

/// What is logged of an alert.
#[derive(Debug, PartialEq, Eq)]
pub struct AlertRecord {
    pub alert_kind: &'static str,
    pub workflow_id: Option<i64>,
    pub activity_id: Option<i64>,
    pub definition_kind: Option<String>,
    pub definition_version: Option<i32>,
    pub topic: Option<String>,
    pub captured_at: i64,
}

/// The mathematical content of an [`AlertRecord`].
#[verifier::ext_equal]
pub struct RecordModel {
    pub alert_kind: Seq<char>,
    pub workflow_id: Option<int>,
    pub activity_id: Option<int>,
    pub definition_kind: Option<Seq<char>>,
    pub definition_version: Option<i32>,
    pub topic: Option<Seq<char>>,
    pub captured_at: i64,
}

impl View for AlertRecord {
    type V = RecordModel;

    open spec fn view(&self) -> RecordModel {
        RecordModel {
            alert_kind: self.alert_kind@,
            workflow_id: match self.workflow_id {
                Some(id) => Some(id as int),
                None => None,
            },
            activity_id: match self.activity_id {
                Some(id) => Some(id as int),
                None => None,
            },
            definition_kind: text::opt_text(self.definition_kind),
            definition_version: self.definition_version,
            topic: text::opt_text(self.topic),
            captured_at: self.captured_at,
        }
    }
}

/// The record of an alert.
pub open spec fn record_of(alert: AlertModel, captured_at: i64) -> RecordModel {
    match alert {
        AlertModel::MissingWorkflowDefinition { kind, version } => RecordModel {
            alert_kind: "missing_workflow_definition"@,
            workflow_id: None,
            activity_id: None,
            definition_kind: Some(kind),
            definition_version: Some(version),
            topic: None,
            captured_at,
        },
        AlertModel::MissingActivityDefinition { kind, version } => RecordModel {
            alert_kind: "missing_activity_definition"@,
            workflow_id: None,
            activity_id: None,
            definition_kind: Some(kind),
            definition_version: Some(version),
            topic: None,
            captured_at,
        },
        AlertModel::MissingTopic { topic } => RecordModel {
            alert_kind: "missing_topic"@,
            workflow_id: None,
            activity_id: None,
            definition_kind: None,
            definition_version: None,
            topic: Some(topic),
            captured_at,
        },
        AlertModel::ActivationExhausted { workflow_id, kind, version } => RecordModel {
            alert_kind: "activation_exhausted"@,
            workflow_id: Some(workflow_id),
            activity_id: None,
            definition_kind: Some(kind),
            definition_version: Some(version),
            topic: None,
            captured_at,
        },
        AlertModel::ActivityDeadLettered { activity_id, workflow_id, kind, version, topic } =>
            RecordModel {
            alert_kind: "activity_dead_lettered"@,
            workflow_id: Some(workflow_id),
            activity_id: Some(activity_id),
            definition_kind: Some(kind),
            definition_version: Some(version),
            topic: Some(topic),
            captured_at,
        },
        AlertModel::StaleWorkflow { workflow_id, kind, version } => RecordModel {
            alert_kind: "stale_workflow"@,
            workflow_id: Some(workflow_id),
            activity_id: None,
            definition_kind: Some(kind),
            definition_version: Some(version),
            topic: None,
            captured_at,
        },
        AlertModel::StaleActivity { activity_id, workflow_id, kind, version, topic } => RecordModel {
            alert_kind: "stale_activity"@,
            workflow_id: Some(workflow_id),
            activity_id: Some(activity_id),
            definition_kind: Some(kind),
            definition_version: Some(version),
            topic: Some(topic),
            captured_at,
        },
    }
}

fn record_alert(alert: &HealthAlert, captured_at: i64) -> (record: AlertRecord)
    ensures
        record@ == record_of(alert@, captured_at),
{
    match alert {
        HealthAlert::MissingWorkflowDefinition { kind, version } => AlertRecord {
            alert_kind: "missing_workflow_definition",
            workflow_id: None,
            activity_id: None,
            definition_kind: Some(kind.clone()),
            definition_version: Some(*version),
            topic: None,
            captured_at,
        },
        HealthAlert::MissingActivityDefinition { kind, version } => AlertRecord {
            alert_kind: "missing_activity_definition",
            workflow_id: None,
            activity_id: None,
            definition_kind: Some(kind.clone()),
            definition_version: Some(*version),
            topic: None,
            captured_at,
        },
        HealthAlert::MissingTopic { topic } => AlertRecord {
            alert_kind: "missing_topic",
            workflow_id: None,
            activity_id: None,
            definition_kind: None,
            definition_version: None,
            topic: Some(topic.clone()),
            captured_at,
        },
        HealthAlert::ActivationExhausted { workflow_id, kind, version } => AlertRecord {
            alert_kind: "activation_exhausted",
            workflow_id: Some(workflow_id.get()),
            activity_id: None,
            definition_kind: Some(kind.clone()),
            definition_version: Some(*version),
            topic: None,
            captured_at,
        },
        HealthAlert::ActivityDeadLettered { activity_id, workflow_id, kind, version, topic } =>
            AlertRecord {
            alert_kind: "activity_dead_lettered",
            workflow_id: Some(workflow_id.get()),
            activity_id: Some(activity_id.get()),
            definition_kind: Some(kind.clone()),
            definition_version: Some(*version),
            topic: Some(topic.clone()),
            captured_at,
        },
        HealthAlert::StaleWorkflow { workflow_id, kind, version } => AlertRecord {
            alert_kind: "stale_workflow",
            workflow_id: Some(workflow_id.get()),
            activity_id: None,
            definition_kind: Some(kind.clone()),
            definition_version: Some(*version),
            topic: None,
            captured_at,
        },
        HealthAlert::StaleActivity { activity_id, workflow_id, kind, version, topic } =>
            AlertRecord {
            alert_kind: "stale_activity",
            workflow_id: Some(workflow_id.get()),
            activity_id: Some(activity_id.get()),
            definition_kind: Some(kind.clone()),
            definition_version: Some(*version),
            topic: Some(topic.clone()),
            captured_at,
        },
    }
}

impl HealthScanReport {
    /// What is logged of the report: one record for each alert, in their order.
    pub fn emit(&self) -> (records: Vec<AlertRecord>)
        ensures
            records@.len() == self.alerts@.len(),
            forall|i: int|
                0 <= i < records@.len() ==> (#[trigger] records@[i])@ == record_of(
                    self.alerts@[i]@,
                    self.captured_at,
                ),
    {
        let mut records: Vec<AlertRecord> = Vec::new();
        let mut i: usize = 0;
        while i < self.alerts.len()
            invariant
                i <= self.alerts@.len(),
                records@.len() == i,
                forall|j: int|
                    0 <= j < i ==> (#[trigger] records@[j])@ == record_of(
                        self.alerts@[j]@,
                        self.captured_at,
                    ),
            decreases self.alerts@.len() - i,
        {
            records.push(record_alert(&self.alerts[i], self.captured_at));
            i = i + 1;
        }
        records
    }
}

/// How many of some values are shown.
pub open spec fn shown_of(count: nat, limit: u32) -> nat {
    if count > limit {
        limit as nat
    } else {
        count
    }
}

/// The alerts for the first `limit` missing definitions and topics of each kind.
pub open spec fn missing_alerts(
    workflows: Seq<(String, i32)>,
    activities: Seq<(String, i32)>,
    topics: Seq<String>,
    limit: u32,
) -> Seq<AlertModel> {
    Seq::new(
        shown_of(workflows.len(), limit),
        |i: int|
            AlertModel::MissingWorkflowDefinition {
                kind: workflows[i].0@,
                version: workflows[i].1,
            },
    ) + Seq::new(
        shown_of(activities.len(), limit),
        |i: int|
            AlertModel::MissingActivityDefinition {
                kind: activities[i].0@,
                version: activities[i].1,
            },
    ) + Seq::new(
        shown_of(topics.len(), limit),
        |i: int| AlertModel::MissingTopic { topic: topics[i]@ },
    )
}

/// The alerts for what a readiness report misses.
pub open spec fn readiness_models(readiness: ReadinessReport, limit: u32) -> Seq<AlertModel> {
    missing_alerts(readiness.workflows(), readiness.activities(), readiness.topics(), limit)
}

fn readiness_alerts(readiness: &ReadinessReport, limit: u32) -> (alerts: Vec<HealthAlert>)
    ensures
        alert_models(alerts@) == readiness_models(*readiness, limit),
{
    let mut alerts: Vec<HealthAlert> = Vec::new();
    let workflows = readiness.missing_workflows();
    let mut i: usize = 0;
    while i < workflows.len() && i < limit as usize
        invariant
            i <= shown_of(workflows@.len(), limit),
            alerts@.len() == i,
            forall|j: int|
                0 <= j < i ==> (#[trigger] alerts@[j])@ == (AlertModel::MissingWorkflowDefinition {
                    kind: workflows@[j].0@,
                    version: workflows@[j].1,
                }),
        decreases workflows@.len() - i,
    {
        alerts.push(
            HealthAlert::MissingWorkflowDefinition {
                kind: workflows[i].0.clone(),
                version: workflows[i].1,
            },
        );
        i = i + 1;
    }
    let ghost first = alerts@;
    let activities = readiness.missing_activities();
    let mut j: usize = 0;
    while j < activities.len() && j < limit as usize
        invariant
            j <= shown_of(activities@.len(), limit),
            alerts@.len() == first.len() + j,
            forall|k: int| 0 <= k < first.len() ==> #[trigger] alerts@[k] == first[k],
            forall|k: int|
                0 <= k < j ==> (#[trigger] alerts@[first.len() + k])@ == (
                AlertModel::MissingActivityDefinition {
                    kind: activities@[k].0@,
                    version: activities@[k].1,
                }),
        decreases activities@.len() - j,
    {
        alerts.push(
            HealthAlert::MissingActivityDefinition {
                kind: activities[j].0.clone(),
                version: activities[j].1,
            },
        );
        j = j + 1;
    }
    let ghost second = alerts@;
    let topics = readiness.missing_topics();
    let mut k: usize = 0;
    while k < topics.len() && k < limit as usize
        invariant
            k <= shown_of(topics@.len(), limit),
            alerts@.len() == second.len() + k,
            forall|m: int| 0 <= m < second.len() ==> #[trigger] alerts@[m] == second[m],
            forall|m: int|
                0 <= m < k ==> (#[trigger] alerts@[second.len() + m])@ == (
                AlertModel::MissingTopic { topic: topics@[m]@ }),
        decreases topics@.len() - k,
    {
        alerts.push(HealthAlert::MissingTopic { topic: topics[k].clone() });
        k = k + 1;
    }
    proof {
        let expected = readiness_models(*readiness, limit);
        assert(alert_models(alerts@).len() == expected.len());
        assert forall|m: int| 0 <= m < expected.len() implies alert_models(alerts@)[m]
            == expected[m] by {
            if m < first.len() {
                assert(alerts@[m] == second[m]);
                assert(second[m] == first[m]);
            } else if m < second.len() {
                assert(alerts@[m] == second[m]);
                assert(second[first.len() + (m - first.len())]@ == (
                AlertModel::MissingActivityDefinition {
                    kind: activities@[m - first.len()].0@,
                    version: activities@[m - first.len()].1,
                }));
            } else {
                assert(alerts@[second.len() + (m - second.len())]@ == (AlertModel::MissingTopic {
                    topic: topics@[m - second.len()]@,
                }));
            }
        }
        assert(alert_models(alerts@) =~= expected);
    }
    alerts
}

/// What is logged of the definitions and topics that are missing at the start of
/// a runtime.
pub fn emit_readiness_alerts(readiness: &ReadinessReport, captured_at: i64) -> (records: Vec<
    AlertRecord,
>)
    ensures
        ({
            let alerts = readiness_models(*readiness, MAX_HEALTH_ALERTS_PER_KIND);
            &&& records@.len() == alerts.len()
            &&& forall|i: int|
                0 <= i < records@.len() ==> (#[trigger] records@[i])@ == record_of(
                    alerts[i],
                    captured_at,
                )
        }),
{
    let alerts = readiness_alerts(readiness, MAX_HEALTH_ALERTS_PER_KIND);
    let ghost models = alert_models(alerts@);
    let report = HealthScanReport { captured_at, alerts };
    let records = report.emit();
    proof {
        assert forall|i: int| 0 <= i < records@.len() implies (#[trigger] records@[i])@ == record_of(
            models[i],
            captured_at,
        ) by {}
    }
    records
}

/// What a scan reads of a workflow.
#[derive(Debug)]
pub struct WorkflowAlertRow {
    pub id: i64,
    pub kind: String,
    pub version: i32,
}

/// What a scan reads of an activity.
#[derive(Debug)]
pub struct ActivityAlertRow {
    pub id: i64,
    pub root_activity_id: Option<i64>,
    pub workflow_id: i64,
    pub kind: String,
    pub version: i32,
    pub topic: String,
}

impl Clone for ActivityAlertRow {
    fn clone(&self) -> (copy: Self)
        ensures
            copy == *self,
    {
        ActivityAlertRow {
            id: self.id,
            root_activity_id: self.root_activity_id,
            workflow_id: self.workflow_id,
            kind: self.kind.clone(),
            version: self.version,
            topic: self.topic.clone(),
        }
    }
}

/// What a scan reads.
///
/// - `exhausted`: workflows that failed because they could not be activated;
/// - `dead_letters`: the dead-lettered activities;
/// - `resolved`: the succeeded activities of their chains of replacements;
/// - `stale_workflows`, `stale_activities`: those whose lease expired long ago.
#[derive(Debug)]
pub struct HealthRows {
    pub exhausted: Vec<WorkflowAlertRow>,
    pub dead_letters: Vec<ActivityAlertRow>,
    pub resolved: Vec<(i64, Option<i64>)>,
    pub stale_workflows: Vec<WorkflowAlertRow>,
    pub stale_activities: Vec<ActivityAlertRow>,
}

/// The alert for a workflow: that it is stale, or else that its activation is
/// exhausted.
pub open spec fn workflow_alert(row: WorkflowAlertRow, stale: bool) -> AlertModel {
    if stale {
        AlertModel::StaleWorkflow {
            workflow_id: row.id as int,
            kind: row.kind@,
            version: row.version,
        }
    } else {
        AlertModel::ActivationExhausted {
            workflow_id: row.id as int,
            kind: row.kind@,
            version: row.version,
        }
    }
}

/// The alert for an activity: that it is stale, or else that it is dead-lettered.
pub open spec fn activity_alert(row: ActivityAlertRow, stale: bool) -> AlertModel {
    if stale {
        AlertModel::StaleActivity {
            activity_id: row.id as int,
            workflow_id: row.workflow_id as int,
            kind: row.kind@,
            version: row.version,
            topic: row.topic@,
        }
    } else {
        AlertModel::ActivityDeadLettered {
            activity_id: row.id as int,
            workflow_id: row.workflow_id as int,
            kind: row.kind@,
            version: row.version,
            topic: row.topic@,
        }
    }
}

/// The alerts for some workflows.
pub open spec fn workflow_models(rows: Seq<WorkflowAlertRow>, stale: bool) -> Seq<AlertModel> {
    Seq::new(rows.len(), |i: int| workflow_alert(rows[i], stale))
}

/// The alerts for some activities.
pub open spec fn activity_models(rows: Seq<ActivityAlertRow>, stale: bool) -> Seq<AlertModel> {
    Seq::new(rows.len(), |i: int| activity_alert(rows[i], stale))
}

/// Why the alerts for some workflows cannot be made.
pub open spec fn workflows_problem(rows: Seq<WorkflowAlertRow>) -> Option<ErrorModel> {
    query::first_error(Seq::new(rows.len(), |i: int| query::id_error(rows[i].id)))
}

/// Why the alerts for some activities cannot be made.
pub open spec fn activities_problem(rows: Seq<ActivityAlertRow>) -> Option<ErrorModel> {
    query::first_error(
        Seq::new(
            rows.len(),
            |i: int| query::either(query::id_error(rows[i].id), query::id_error(rows[i].workflow_id)),
        ),
    )
}

fn workflow_alerts(rows: &Vec<WorkflowAlertRow>, stale: bool) -> (result: Result<
    Vec<HealthAlert>,
    DurableError,
>)
    ensures
        match result {
            Ok(alerts) => workflows_problem(rows@) is None && alert_models(alerts@)
                == workflow_models(rows@, stale),
            Err(error) => workflows_problem(rows@) == Some(error@),
        },
{
    let ghost problems = Seq::new(rows@.len(), |i: int| query::id_error(rows@[i].id));
    let mut alerts: Vec<HealthAlert> = Vec::new();
    let mut i: usize = 0;
    while i < rows.len()
        invariant
            i <= rows@.len(),
            alerts@.len() == i,
            problems == Seq::new(rows@.len(), |i: int| query::id_error(rows@[i].id)),
            forall|j: int| 0 <= j < i ==> (#[trigger] problems[j]) is None,
            forall|j: int| 0 <= j < i ==> (#[trigger] alerts@[j])@ == workflow_alert(rows@[j], stale),
        decreases rows@.len() - i,
    {
        let row = &rows[i];
        let workflow_id = match WorkflowId::new(row.id) {
            Ok(id) => id,
            Err(error) => {
                proof {
                    query::lemma_first_error_at(problems, i as int);
                }
                return Err(error);
            },
        };
        assert(problems[i as int] is None);
        let alert = if stale {
            HealthAlert::StaleWorkflow {
                workflow_id,
                kind: row.kind.clone(),
                version: row.version,
            }
        } else {
            HealthAlert::ActivationExhausted {
                workflow_id,
                kind: row.kind.clone(),
                version: row.version,
            }
        };
        alerts.push(alert);
        i = i + 1;
    }
    proof {
        query::lemma_no_first_error(problems);
        assert(alert_models(alerts@) =~= workflow_models(rows@, stale));
    }
    Ok(alerts)
}

fn activity_alerts(rows: &Vec<ActivityAlertRow>, stale: bool) -> (result: Result<
    Vec<HealthAlert>,
    DurableError,
>)
    ensures
        match result {
            Ok(alerts) => activities_problem(rows@) is None && alert_models(alerts@)
                == activity_models(rows@, stale),
            Err(error) => activities_problem(rows@) == Some(error@),
        },
{
    let ghost problems = Seq::new(
        rows@.len(),
        |i: int| query::either(query::id_error(rows@[i].id), query::id_error(rows@[i].workflow_id)),
    );
    let mut alerts: Vec<HealthAlert> = Vec::new();
    let mut i: usize = 0;
    while i < rows.len()
        invariant
            i <= rows@.len(),
            alerts@.len() == i,
            problems == Seq::new(
                rows@.len(),
                |i: int|
                    query::either(query::id_error(rows@[i].id), query::id_error(rows@[i].workflow_id)),
            ),
            forall|j: int| 0 <= j < i ==> (#[trigger] problems[j]) is None,
            forall|j: int| 0 <= j < i ==> (#[trigger] alerts@[j])@ == activity_alert(rows@[j], stale),
        decreases rows@.len() - i,
    {
        let row = &rows[i];
        let activity_id = match ActivityId::new(row.id) {
            Ok(id) => id,
            Err(error) => {
                proof {
                    query::lemma_first_error_at(problems, i as int);
                }
                return Err(error);
            },
        };
        let workflow_id = match WorkflowId::new(row.workflow_id) {
            Ok(id) => id,
            Err(error) => {
                proof {
                    query::lemma_first_error_at(problems, i as int);
                }
                return Err(error);
            },
        };
        assert(problems[i as int] is None);
        let alert = if stale {
            HealthAlert::StaleActivity {
                activity_id,
                workflow_id,
                kind: row.kind.clone(),
                version: row.version,
                topic: row.topic.clone(),
            }
        } else {
            HealthAlert::ActivityDeadLettered {
                activity_id,
                workflow_id,
                kind: row.kind.clone(),
                version: row.version,
                topic: row.topic.clone(),
            }
        };
        alerts.push(alert);
        i = i + 1;
    }
    proof {
        query::lemma_no_first_error(problems);
        assert(alert_models(alerts@) =~= activity_models(rows@, stale));
    }
    Ok(alerts)
}

/// The first activity of the chain of replacements of a dead-lettered activity.
pub open spec fn letter_root(row: ActivityAlertRow) -> i64 {
    topic_metrics::root_of((row.id, row.root_activity_id))
}

/// The chains of replacements whose success a scan looks up.
pub fn dead_letter_roots(rows: &Vec<ActivityAlertRow>) -> (roots: Vec<i64>)
    ensures
        roots@ == Seq::new(rows@.len(), |i: int| letter_root(rows@[i])),
{
    let mut roots: Vec<i64> = Vec::new();
    let mut i: usize = 0;
    while i < rows.len()
        invariant
            i <= rows@.len(),
            roots@ =~= Seq::new(i as nat, |i: int| letter_root(rows@[i])),
        decreases rows@.len() - i,
    {
        roots.push(topic_metrics::chain_root((rows[i].id, rows[i].root_activity_id)));
        i = i + 1;
    }
    roots
}

/// The dead-lettered activities that no replacement has resolved.
pub open spec fn unresolved_letters(
    rows: Seq<ActivityAlertRow>,
    resolved: Seq<(i64, Option<i64>)>,
) -> Seq<ActivityAlertRow>
    decreases rows.len(),
{
    if rows.len() == 0 {
        Seq::empty()
    } else {
        let rest = unresolved_letters(rows.drop_last(), resolved);
        if topic_metrics::has_root(resolved, letter_root(rows.last())) {
            rest
        } else {
            rest.push(rows.last())
        }
    }
}

/// The first `limit` dead-lettered activities that no replacement has resolved.
pub open spec fn reported_letters(
    rows: Seq<ActivityAlertRow>,
    resolved: Seq<(i64, Option<i64>)>,
    limit: u32,
) -> Seq<ActivityAlertRow> {
    let unresolved = unresolved_letters(rows, resolved);
    unresolved.take(shown_of(unresolved.len(), limit) as int)
}

proof fn lemma_unresolved_grow(
    rows: Seq<ActivityAlertRow>,
    resolved: Seq<(i64, Option<i64>)>,
    k: int,
)
    requires
        0 <= k <= rows.len(),
    ensures
        unresolved_letters(rows.take(k), resolved).len() <= unresolved_letters(
            rows,
            resolved,
        ).len(),
        unresolved_letters(rows.take(k), resolved) == unresolved_letters(rows, resolved).take(
            unresolved_letters(rows.take(k), resolved).len() as int,
        ),
    decreases rows.len(),
{
    if k == rows.len() {
        assert(rows.take(k) =~= rows);
        let all = unresolved_letters(rows, resolved);
        assert(all.take(all.len() as int) =~= all);
    } else {
        lemma_unresolved_grow(rows.drop_last(), resolved, k);
        assert(rows.drop_last().take(k) =~= rows.take(k));
        let part = unresolved_letters(rows.take(k), resolved);
        let most = unresolved_letters(rows.drop_last(), resolved);
        let all = unresolved_letters(rows, resolved);
        assert(all.take(part.len() as int) =~= most.take(part.len() as int));
    }
}

fn select_unresolved(
    rows: &Vec<ActivityAlertRow>,
    resolved: &Vec<(i64, Option<i64>)>,
    limit: u32,
) -> (kept: Vec<ActivityAlertRow>)
    ensures
        kept@ == reported_letters(rows@, resolved@, limit),
{
    let mut kept: Vec<ActivityAlertRow> = Vec::new();
    let mut i: usize = 0;
    while i < rows.len()
        invariant
            i <= rows@.len(),
            kept@.len() <= limit,
            kept@ == unresolved_letters(rows@.take(i as int), resolved@),
        decreases rows@.len() - i,
    {
        assert(rows@.take(i + 1).drop_last() =~= rows@.take(i as int));
        let root: i64 = topic_metrics::chain_root((rows[i].id, rows[i].root_activity_id));
        if !topic_metrics::is_resolved(resolved, root) {
            if kept.len() >= limit as usize {
                proof {
                    lemma_unresolved_grow(rows@, resolved@, i as int);
                    lemma_unresolved_grow(rows@, resolved@, i + 1);
                }
                return kept;
            }
            kept.push(rows[i].clone());
        }
        i = i + 1;
    }
    assert(rows@.take(i as int) =~= rows@);
    assert(kept@ =~= reported_letters(rows@, resolved@, limit));
    kept
}

/// The alerts of a scan: what is missing, exhausted activations, dead letters,
/// stale workflows and stale activities.
pub open spec fn scan_alerts(
    readiness: ReadinessReport,
    rows: HealthRows,
    limit: u32,
) -> Seq<AlertModel> {
    readiness_models(readiness, limit) + workflow_models(rows.exhausted@, false)
        + activity_models(reported_letters(rows.dead_letters@, rows.resolved@, limit), false)
        + workflow_models(rows.stale_workflows@, true) + activity_models(
        rows.stale_activities@,
        true,
    )
}

/// Why a scan fails.
pub open spec fn scan_problem(rows: HealthRows, limit: u32) -> Option<ErrorModel> {
    query::either(
        workflows_problem(rows.exhausted@),
        query::either(
            activities_problem(reported_letters(rows.dead_letters@, rows.resolved@, limit)),
            query::either(
                workflows_problem(rows.stale_workflows@),
                activities_problem(rows.stale_activities@),
            ),
        ),
    )
}

/// The report of a scan of what was read. A dead-lettered activity with a
/// succeeded replacement gives no alert.
pub fn scan_once(
    readiness: &ReadinessReport,
    rows: &HealthRows,
    config: &HealthScannerConfig,
    captured_at: i64,
) -> (result: Result<HealthScanReport, DurableError>)
    ensures
        ({
            let limit = config.max_alerts_per_kind;
            match result {
                Ok(report) => {
                    &&& scan_problem(*rows, limit) is None
                    &&& report.captured_at == captured_at
                    &&& alert_models(report.alerts@) == scan_alerts(*readiness, *rows, limit)
                },
                Err(error) => scan_problem(*rows, limit) == Some(error@),
            }
        }),
{
    let limit: u32 = config.max_alerts_per_kind;
    let mut alerts = readiness_alerts(readiness, limit);
    let mut exhausted = match workflow_alerts(&rows.exhausted, false) {
        Ok(alerts) => alerts,
        Err(error) => return Err(error),
    };
    let letters = select_unresolved(&rows.dead_letters, &rows.resolved, limit);
    let mut dead = match activity_alerts(&letters, false) {
        Ok(alerts) => alerts,
        Err(error) => return Err(error),
    };
    let mut stale_workflows = match workflow_alerts(&rows.stale_workflows, true) {
        Ok(alerts) => alerts,
        Err(error) => return Err(error),
    };
    let mut stale_activities = match activity_alerts(&rows.stale_activities, true) {
        Ok(alerts) => alerts,
        Err(error) => return Err(error),
    };
    let ghost parts = (alerts@, exhausted@, dead@, stale_workflows@, stale_activities@);
    alerts.append(&mut exhausted);
    alerts.append(&mut dead);
    alerts.append(&mut stale_workflows);
    alerts.append(&mut stale_activities);
    proof {
        assert(alerts@ =~= parts.0 + parts.1 + parts.2 + parts.3 + parts.4);
        assert(alert_models(alerts@) =~= alert_models(parts.0) + alert_models(parts.1)
            + alert_models(parts.2) + alert_models(parts.3) + alert_models(parts.4));
    }
    Ok(HealthScanReport { captured_at, alerts })
}

/// What is logged of a failed tick of a schedule.
#[derive(Debug, PartialEq, Eq)]
pub struct ScheduleAlertRecord {
    pub alert_kind: &'static str,
    pub schedule_key: String,
    pub definition_version: i32,
    pub captured_at: i64,
}

/// The kind of alert that an error of a schedule gives.
pub open spec fn schedule_alert_kind(error: ErrorModel) -> Seq<char> {
    match error {
        ErrorModel::Conflict(_) => "schedule_definition_drift"@,
        ErrorModel::InvalidState(message) => if text::has_infix(
            message,
            "occurrence scan bound"@,
        ) {
            "schedule_backlog_bound_exhausted"@
        } else {
            "schedule_materialization_failed"@
        },
        _ => "schedule_materialization_failed"@,
    }
}

/// What is logged of a failed tick of a schedule.
pub fn emit_schedule_materialization_alert(
    definition: &ScheduleDefinitionMetadata,
    error: &DurableError,
    captured_at: i64,
) -> (record: ScheduleAlertRecord)
    ensures
        record.alert_kind@ == schedule_alert_kind(error@),
        record.schedule_key == definition.key,
        record.definition_version == definition.version,
        record.captured_at == captured_at,
{
    let alert_kind = match error {
        DurableError::Conflict(_) => "schedule_definition_drift",
        DurableError::InvalidState(message) => {
            if contains_text(message.as_str(), "occurrence scan bound") {
                "schedule_backlog_bound_exhausted"
            } else {
                "schedule_materialization_failed"
            }
        },
        _ => "schedule_materialization_failed",
    };
    ScheduleAlertRecord {
        alert_kind,
        schedule_key: definition.key.clone(),
        definition_version: definition.version,
        captured_at,
    }
}

/// A fingerprint of a lease token, fit for logs.
pub fn lease_fingerprint(token: &str) -> (fingerprint: String)
    ensures
        fingerprint@ == numerals::hex_digits(
            digest::fnv1a(vstd::utf8::encode_utf8(token@)) as nat,
            16,
        ),
{
    hex16(hash_bytes(token.as_bytes()))
}

/// A dead-lettered activity whose chain has a success gives no alert.
pub proof fn law_resolved_letters_are_quiet(
    rows: Seq<ActivityAlertRow>,
    resolved: Seq<(i64, Option<i64>)>,
    limit: u32,
    i: int,
)
    requires
        0 <= i < reported_letters(rows, resolved, limit).len(),
    ensures
        !topic_metrics::has_root(resolved, letter_root(reported_letters(rows, resolved, limit)[i])),
        rows.contains(reported_letters(rows, resolved, limit)[i]),
{
    lemma_unresolved(rows, resolved, i);
}

proof fn lemma_unresolved(rows: Seq<ActivityAlertRow>, resolved: Seq<(i64, Option<i64>)>, i: int)
    requires
        0 <= i < unresolved_letters(rows, resolved).len(),
    ensures
        !topic_metrics::has_root(resolved, letter_root(unresolved_letters(rows, resolved)[i])),
        rows.contains(unresolved_letters(rows, resolved)[i]),
    decreases rows.len(),
{
    let rest = unresolved_letters(rows.drop_last(), resolved);
    if i < rest.len() {
        lemma_unresolved(rows.drop_last(), resolved, i);
        let at = choose|k: int| 0 <= k < rows.len() - 1 && rows.drop_last()[k] == rest[i];
        assert(rows[at] == rest[i]);
    } else {
        assert(rows[rows.len() - 1] == rows.last());
    }
}

/// The record of an alert says what the alert says, each part under its own name, and what
/// kind of alert it is; parts that the alert does not have are left open.
pub proof fn law_record_says_what_the_alert_says(alert: AlertModel, captured_at: i64)
    ensures
        ({
            let record = record_of(alert, captured_at);
            &&& record.captured_at == captured_at
            &&& match alert {
                AlertModel::MissingWorkflowDefinition { kind, version } => record.alert_kind
                    == "missing_workflow_definition"@ && record.definition_kind == Some(kind)
                    && record.definition_version == Some(version) && record.workflow_id is None
                    && record.activity_id is None && record.topic is None,
                AlertModel::MissingActivityDefinition { kind, version } => record.alert_kind
                    == "missing_activity_definition"@ && record.definition_kind == Some(kind)
                    && record.definition_version == Some(version) && record.workflow_id is None
                    && record.activity_id is None && record.topic is None,
                AlertModel::MissingTopic { topic } => record.alert_kind == "missing_topic"@
                    && record.topic == Some(topic) && record.definition_kind is None
                    && record.definition_version is None && record.workflow_id is None
                    && record.activity_id is None,
                AlertModel::ActivationExhausted { workflow_id, kind, version } => record.alert_kind
                    == "activation_exhausted"@ && record.workflow_id == Some(workflow_id)
                    && record.definition_kind == Some(kind) && record.definition_version == Some(
                    version,
                ) && record.activity_id is None && record.topic is None,
                AlertModel::StaleWorkflow { workflow_id, kind, version } => record.alert_kind
                    == "stale_workflow"@ && record.workflow_id == Some(workflow_id)
                    && record.definition_kind == Some(kind) && record.definition_version == Some(
                    version,
                ) && record.activity_id is None && record.topic is None,
                AlertModel::ActivityDeadLettered {
                    activity_id,
                    workflow_id,
                    kind,
                    version,
                    topic,
                } => record.alert_kind == "activity_dead_lettered"@ && record.activity_id == Some(
                    activity_id,
                ) && record.workflow_id == Some(workflow_id) && record.definition_kind == Some(kind)
                    && record.definition_version == Some(version) && record.topic == Some(topic),
                AlertModel::StaleActivity { activity_id, workflow_id, kind, version, topic } =>
                    record.alert_kind == "stale_activity"@ && record.activity_id == Some(activity_id)
                    && record.workflow_id == Some(workflow_id) && record.definition_kind == Some(
                    kind,
                ) && record.definition_version == Some(version) && record.topic == Some(topic),
            }
        }),
{
}

/// At most the limit is shown of each kind of what is missing, from the first on: workflow
/// definitions, behind them activity definitions, behind them topics, each with its name.
pub proof fn law_missing_is_shown_up_to_the_limit(
    workflows: Seq<(String, i32)>,
    activities: Seq<(String, i32)>,
    topics: Seq<String>,
    limit: u32,
    i: int,
)
    ensures
        ({
            let alerts = missing_alerts(workflows, activities, topics, limit);
            let w = if workflows.len() < limit {
                workflows.len() as int
            } else {
                limit as int
            };
            let a = if activities.len() < limit {
                activities.len() as int
            } else {
                limit as int
            };
            let t = if topics.len() < limit {
                topics.len() as int
            } else {
                limit as int
            };
            &&& alerts.len() == w + a + t
            &&& 0 <= i < w ==> alerts[i] == (AlertModel::MissingWorkflowDefinition {
                kind: workflows[i].0@,
                version: workflows[i].1,
            })
            &&& 0 <= i < a ==> alerts[w + i] == (AlertModel::MissingActivityDefinition {
                kind: activities[i].0@,
                version: activities[i].1,
            })
            &&& 0 <= i < t ==> alerts[w + a + i] == (AlertModel::MissingTopic { topic: topics[i]@ })
        }),
{
}

/// A scan reports every row that it read, as what it is: exhausted activations, dead
/// letters that nothing resolved, stale workflows and stale activities, with their own
/// numbers, definitions and topics.
pub proof fn law_scan_reports_every_row(
    readiness: ReadinessReport,
    rows: HealthRows,
    limit: u32,
    i: int,
)
    ensures
        0 <= i < rows.exhausted@.len() ==> scan_alerts(readiness, rows, limit).contains(
            AlertModel::ActivationExhausted {
                workflow_id: rows.exhausted@[i].id as int,
                kind: rows.exhausted@[i].kind@,
                version: rows.exhausted@[i].version,
            },
        ),
        0 <= i < rows.stale_workflows@.len() ==> scan_alerts(readiness, rows, limit).contains(
            AlertModel::StaleWorkflow {
                workflow_id: rows.stale_workflows@[i].id as int,
                kind: rows.stale_workflows@[i].kind@,
                version: rows.stale_workflows@[i].version,
            },
        ),
        0 <= i < rows.stale_activities@.len() ==> scan_alerts(readiness, rows, limit).contains(
            AlertModel::StaleActivity {
                activity_id: rows.stale_activities@[i].id as int,
                workflow_id: rows.stale_activities@[i].workflow_id as int,
                kind: rows.stale_activities@[i].kind@,
                version: rows.stale_activities@[i].version,
                topic: rows.stale_activities@[i].topic@,
            },
        ),
        ({
            let letters = reported_letters(rows.dead_letters@, rows.resolved@, limit);
            0 <= i < letters.len() ==> scan_alerts(readiness, rows, limit).contains(
                AlertModel::ActivityDeadLettered {
                    activity_id: letters[i].id as int,
                    workflow_id: letters[i].workflow_id as int,
                    kind: letters[i].kind@,
                    version: letters[i].version,
                    topic: letters[i].topic@,
                },
            )
        }),
{
    let letters = reported_letters(rows.dead_letters@, rows.resolved@, limit);
    let alerts = scan_alerts(readiness, rows, limit);
    let a = readiness_models(readiness, limit).len() as int;
    let b = a + rows.exhausted@.len();
    let c = b + letters.len();
    let d = c + rows.stale_workflows@.len();
    if 0 <= i < rows.exhausted@.len() {
        assert(alerts[a + i] == workflow_alert(rows.exhausted@[i], false));
    }
    if 0 <= i < letters.len() {
        assert(alerts[b + i] == activity_alert(letters[i], false));
    }
    if 0 <= i < rows.stale_workflows@.len() {
        assert(alerts[c + i] == workflow_alert(rows.stale_workflows@[i], true));
    }
    if 0 <= i < rows.stale_activities@.len() {
        assert(alerts[d + i] == activity_alert(rows.stale_activities@[i], true));
    }
}

/// A dead letter whose chain has no success is reported, unless as many as the limit
/// allows are reported before it.
pub proof fn law_unresolved_letters_are_reported(
    rows: Seq<ActivityAlertRow>,
    resolved: Seq<(i64, Option<i64>)>,
    limit: u32,
    i: int,
)
    requires
        0 <= i < rows.len(),
        !topic_metrics::has_root(resolved, letter_root(rows[i])),
    ensures
        reported_letters(rows, resolved, limit).contains(rows[i]) || reported_letters(
            rows,
            resolved,
            limit,
        ).len() == limit,
        reported_letters(rows, resolved, limit).len() <= limit,
{
    lemma_unresolved_kept(rows, resolved, i);
    let unresolved = unresolved_letters(rows, resolved);
    let k = choose|k: int| 0 <= k < unresolved.len() && unresolved[k] == rows[i];
    if unresolved.len() <= limit {
        assert(unresolved.take(unresolved.len() as int) =~= unresolved);
    }
}

proof fn lemma_unresolved_kept(
    rows: Seq<ActivityAlertRow>,
    resolved: Seq<(i64, Option<i64>)>,
    i: int,
)
    requires
        0 <= i < rows.len(),
        !topic_metrics::has_root(resolved, letter_root(rows[i])),
    ensures
        unresolved_letters(rows, resolved).contains(rows[i]),
    decreases rows.len(),
{
    let rest = unresolved_letters(rows.drop_last(), resolved);
    let all = unresolved_letters(rows, resolved);
    if i == rows.len() - 1 {
        assert(all[rest.len() as int] == rows[i]);
    } else {
        lemma_unresolved_kept(rows.drop_last(), resolved, i);
        let k = choose|k: int| 0 <= k < rest.len() && rest[k] == rows.drop_last()[i];
        assert(all[k] == rows[i]);
    }
}

/// A scan fails only for a row whose number is no identifier.
pub proof fn law_scan_fails_only_for_numbers(rows: HealthRows, limit: u32)
    requires
        forall|i: int| 0 <= i < rows.exhausted@.len() ==> (#[trigger] rows.exhausted@[i]).id > 0,
        forall|i: int|
            0 <= i < rows.stale_workflows@.len() ==> (#[trigger] rows.stale_workflows@[i]).id > 0,
        forall|i: int|
            0 <= i < rows.dead_letters@.len() ==> (#[trigger] rows.dead_letters@[i]).id > 0
                && rows.dead_letters@[i].workflow_id > 0,
        forall|i: int|
            0 <= i < rows.stale_activities@.len() ==> (#[trigger] rows.stale_activities@[i]).id > 0
                && rows.stale_activities@[i].workflow_id > 0,
    ensures
        scan_problem(rows, limit) is None,
{
    let letters = reported_letters(rows.dead_letters@, rows.resolved@, limit);
    query::lemma_no_first_error(
        Seq::new(rows.exhausted@.len(), |i: int| query::id_error(rows.exhausted@[i].id)),
    );
    query::lemma_no_first_error(
        Seq::new(rows.stale_workflows@.len(), |i: int| query::id_error(rows.stale_workflows@[i].id)),
    );
    assert forall|i: int| 0 <= i < letters.len() implies (#[trigger] letters[i]).id > 0
        && letters[i].workflow_id > 0 by {
        law_resolved_letters_are_quiet(rows.dead_letters@, rows.resolved@, limit, i);
        let k = choose|k: int|
            0 <= k < rows.dead_letters@.len() && rows.dead_letters@[k] == letters[i];
        assert(rows.dead_letters@[k].id > 0);
    }
    query::lemma_no_first_error(
        Seq::new(
            letters.len(),
            |i: int|
                query::either(query::id_error(letters[i].id), query::id_error(letters[i].workflow_id)),
        ),
    );
    query::lemma_no_first_error(
        Seq::new(
            rows.stale_activities@.len(),
            |i: int|
                query::either(
                    query::id_error(rows.stale_activities@[i].id),
                    query::id_error(rows.stale_activities@[i].workflow_id),
                ),
        ),
    );
}

/// A changed definition is drift, a scan that reached its bound is a backlog, and every
/// other failure of a schedule is a failed materialization.
pub proof fn law_schedule_alerts_name_the_failure(message: Seq<char>, error: ErrorModel)
    ensures
        schedule_alert_kind(ErrorModel::Conflict(message)) == "schedule_definition_drift"@,
        text::has_infix(message, "occurrence scan bound"@) ==> schedule_alert_kind(
            ErrorModel::InvalidState(message),
        ) == "schedule_backlog_bound_exhausted"@,
        !text::has_infix(message, "occurrence scan bound"@) ==> schedule_alert_kind(
            ErrorModel::InvalidState(message),
        ) == "schedule_materialization_failed"@,
        error !is Conflict && error !is InvalidState ==> schedule_alert_kind(error)
            == "schedule_materialization_failed"@,
{
}

/// A scan is set up with a time after which something is stale and with 1 to 100 alerts of
/// each kind.
pub proof fn law_scans_are_bounded(config: HealthScannerConfig)
    ensures
        valid_scanner(config) <==> config.stale_after@ > 0 && 1 <= config.max_alerts_per_kind
            <= 100,
{
}

} // verus!
